use tm_server_manager::token::{access_token_claims, basic_authorization, token_payload_segment};

#[test]
fn basic_authorization_header() {
    let header = basic_authorization(&"login".to_string(), &"password".to_string());
    assert_eq!(header, "Basic bG9naW46cGFzc3dvcmQ=");
}

#[test]
fn basic_authorization_of_empty_credentials() {
    assert_eq!(basic_authorization(&String::new(), &String::new()), "Basic Og==");
}

#[test]
fn payload_is_the_second_part() {
    assert_eq!(token_payload_segment(&"a.b.c".to_string()), Some("b".to_string()));
    assert_eq!(token_payload_segment(&"head.payload".to_string()), Some("payload".to_string()));
    assert_eq!(token_payload_segment(&"a..c".to_string()), Some(String::new()));
    assert_eq!(token_payload_segment(&"é.ü.x".to_string()), Some("ü".to_string()));
}

#[test]
fn token_without_dot_has_no_payload() {
    assert_eq!(token_payload_segment(&"abc".to_string()), None);
    assert_eq!(access_token_claims(&"abc".to_string()), None);
}

#[test]
fn claims_are_decoded() {
    // {"sub":"123"} without padding, URL-safe.
    let token = "eyJhbGciOiJIUzI1NiJ9.eyJzdWIiOiIxMjMifQ.c2ln".to_string();
    assert_eq!(access_token_claims(&token), Some(b"{\"sub\":\"123\"}".to_vec()));
}

#[test]
fn claims_with_url_safe_characters() {
    // The bytes fb ff fe encode as "-__-" in the URL-safe alphabet.
    assert_eq!(access_token_claims(&"x.-__-.y".to_string()), Some(vec![0xfb, 0xff, 0xfe]));
}

#[test]
fn claims_that_do_not_decode() {
    assert_eq!(access_token_claims(&"x.@@@@.y".to_string()), None);
    // Padding is refused without padding mode.
    assert_eq!(access_token_claims(&"x.Og==.y".to_string()), None);
}

#[test]
fn only_canonical_claims_decode() {
    // A set bit left over in the last symbol.
    assert_eq!(access_token_claims(&"x.TR.y".to_string()), None);
    assert_eq!(access_token_claims(&"x.TQ.y".to_string()), Some(vec![77]));
    // A length of the form 4n + 1.
    assert_eq!(access_token_claims(&"x.TWFuT.y".to_string()), None);
    assert_eq!(access_token_claims(&"x..y".to_string()), Some(vec![]));
}
