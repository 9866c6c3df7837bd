use vstd::prelude::*;
use vstd::utf8::encode_utf8;

use base64::Engine;
use base64::prelude::{BASE64_STANDARD, BASE64_URL_SAFE_NO_PAD};

verus! {

/// The character of the standard base64 alphabet (`A-Z a-z 0-9 + /`) for the 6-bit value `v`.
pub open spec fn base64_symbol(v: int) -> char {
    if v < 26 {
        (65 + v) as char
    } else if v < 52 {
        (97 + v - 26) as char
    } else if v < 62 {
        (48 + v - 52) as char
    } else if v == 62 {
        '+'
    } else {
        '/'
    }
}

/// The standard base64 text of a byte string: each group of three bytes, read as 24 bits from
/// the high bit of the first byte, gives four symbols of 6 bits; a last group of one or two
/// bytes is filled with zero bits and the text padded with `=` to a multiple of four.
pub open spec fn base64_standard(input: Seq<u8>) -> Seq<char>
    decreases input.len(),
{
    if input.len() == 0 {
        Seq::empty()
    } else if input.len() == 1 {
        let a = input[0] as int;
        seq![base64_symbol(a / 4), base64_symbol((a % 4) * 16), '=', '=']
    } else if input.len() == 2 {
        let a = input[0] as int;
        let b = input[1] as int;
        seq![base64_symbol(a / 4), base64_symbol((a % 4) * 16 + b / 16), base64_symbol((b % 16) * 4), '=']
    } else {
        let a = input[0] as int;
        let b = input[1] as int;
        let c = input[2] as int;
        seq![
            base64_symbol(a / 4),
            base64_symbol((a % 4) * 16 + b / 16),
            base64_symbol((b % 16) * 4 + c / 64),
            base64_symbol(c % 64),
        ] + base64_standard(input.subrange(3, input.len() as int))
    }
}

/// The byte of the URL-safe base64 alphabet (`A-Z a-z 0-9 - _`) for the 6-bit value `v`.
pub open spec fn url_safe_symbol(v: int) -> u8 {
    if v < 26 {
        (65 + v) as u8
    } else if v < 52 {
        (97 + v - 26) as u8
    } else if v < 62 {
        (48 + v - 52) as u8
    } else if v == 62 {
        45u8
    } else {
        95u8
    }
}

/// The URL-safe base64 text of a byte string without padding, as bytes: the symbols of the
/// standard encoding in the URL-safe alphabet, with no `=` after a last group of one or two
/// bytes.
pub open spec fn base64_url_no_pad(input: Seq<u8>) -> Seq<u8>
    decreases input.len(),
{
    if input.len() == 0 {
        Seq::empty()
    } else if input.len() == 1 {
        let a = input[0] as int;
        seq![url_safe_symbol(a / 4), url_safe_symbol((a % 4) * 16)]
    } else if input.len() == 2 {
        let a = input[0] as int;
        let b = input[1] as int;
        seq![url_safe_symbol(a / 4), url_safe_symbol((a % 4) * 16 + b / 16), url_safe_symbol((b % 16) * 4)]
    } else {
        let a = input[0] as int;
        let b = input[1] as int;
        let c = input[2] as int;
        seq![
            url_safe_symbol(a / 4),
            url_safe_symbol((a % 4) * 16 + b / 16),
            url_safe_symbol((b % 16) * 4 + c / 64),
            url_safe_symbol(c % 64),
        ] + base64_url_no_pad(input.subrange(3, input.len() as int))
    }
}

/// Calls `Engine::encode` of `base64::prelude::BASE64_STANDARD`. Claimed: the result is the
/// standard base64 text of the input bytes, padded. The call panics only where the length of
/// that text overflows `usize`, which no slice in memory reaches.
#[verifier::external_body]
fn base64_standard_encode(input: &[u8]) -> (r: String)
    ensures
        r@ == base64_standard(input@),
{
    BASE64_STANDARD.encode(input)
}

/// Calls `Engine::decode` of `base64::prelude::BASE64_URL_SAFE_NO_PAD`, its `DecodeError`
/// mapped to `None`. Claimed: the decoding accepts exactly the canonical texts (no padding, no
/// byte outside the alphabet, no length of the form `4n + 1`, no set bit left over in the last
/// symbol), which are the URL-safe no-pad texts of byte strings, and gives back those bytes.
#[verifier::external_body]
fn base64_url_no_pad_decode(input: &[u8]) -> (r: Option<Vec<u8>>)
    ensures
        match r {
            Some(v) => base64_url_no_pad(v@) == input@,
            None => forall|b: Seq<u8>| base64_url_no_pad(b) != input@,
        },
{
    match BASE64_URL_SAFE_NO_PAD.decode(input) {
        Ok(v) => Some(v),
        Err(_) => None,
    }
}

/// The value of the `Authorization` header of a basic login: `Basic ` and the base64 text
/// of `login:password`.
pub fn basic_authorization(login: &String, password: &String) -> (r: String)
    ensures
        r@ == "Basic "@ + base64_standard(encode_utf8(login@ + seq![':'] + password@)),
{
    let joined = login.clone().concat(":").concat(password.as_str());
    proof {
        reveal_strlit(":");
    }
    assert(joined@ =~= login@ + seq![':'] + password@);
    let encoded = base64_standard_encode(joined.as_str().as_bytes());
    String::from_str("Basic ").concat(encoded.as_str())
}

/// The index of the first `.` of `s` at `from` or after it, or the length of `s`.
pub open spec fn next_dot(s: Seq<char>, from: int) -> int
    decreases s.len() - from,
{
    if from < 0 || from >= s.len() {
        s.len() as int
    } else if s[from] == '.' {
        from
    } else {
        next_dot(s, from + 1)
    }
}

/// The second of the `.`-separated parts of a token (the claims of a JSON web token), or
/// `None` where the token has no `.`.
pub open spec fn token_payload(token: Seq<char>) -> Option<Seq<char>> {
    let i = next_dot(token, 0);
    if i >= token.len() {
        None
    } else {
        Some(token.subrange(i + 1, next_dot(token, i + 1)))
    }
}

fn find_dot(token: &str, from: usize, n: usize) -> (r: usize)
    requires
        n == token@.len(),
        from <= n,
    ensures
        r as int == next_dot(token@, from as int),
        from <= r <= n,
{
    let mut i = from;
    while i < n && token.get_char(i) != '.'
        invariant
            from <= i <= n,
            n == token@.len(),
            next_dot(token@, from as int) == next_dot(token@, i as int),
        decreases n - i,
    {
        i = i + 1;
    }
    i
}

/// The second `.`-separated part of `token`; `None` where it has no `.`.
pub fn token_payload_segment(token: &String) -> (r: Option<String>)
    ensures
        match token_payload(token@) {
            Some(p) => r is Some && r->0@ == p,
            None => r is None,
        },
{
    let t = token.as_str();
    let n = t.unicode_len();
    let i = find_dot(t, 0, n);
    if i >= n {
        return None;
    }
    let j = find_dot(t, i + 1, n);
    Some(String::from_str(t.substring_char(i + 1, j)))
}

/// The bytes of the claims of an access token: its second `.`-separated part, base64-decoded
/// (URL-safe alphabet, no padding). `None` where the token has no `.` or that part does not
/// decode.
pub fn access_token_claims(access_token: &String) -> (r: Option<Vec<u8>>)
    ensures
        match token_payload(access_token@) {
            None => r is None,
            Some(p) => match r {
                Some(b) => base64_url_no_pad(b@) == encode_utf8(p),
                None => forall|b: Seq<u8>| base64_url_no_pad(b) != encode_utf8(p),
            },
        },
{
    match token_payload_segment(access_token) {
        None => None,
        Some(p) => base64_url_no_pad_decode(p.as_str().as_bytes()),
    }
}

} // verus!
