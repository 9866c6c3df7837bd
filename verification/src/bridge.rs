use vstd::prelude::*;

verus! {

/// The flag of the player list that marks the server's own entry.
pub const SERVER_PLAYER_FLAG: u32 = 0b100000;

/// What the bridge reports of an entry of the server's player list when it synchronizes the
/// players: nothing for the server itself, else whether the player spectates.
pub fn player_sync(flags: u32, spectator_status: u32) -> (r: Option<bool>)
    ensures
        r == (if flags & SERVER_PLAYER_FLAG != 0 {
            None
        } else {
            Some(spectator_status != 0)
        }),
{
    if flags & SERVER_PLAYER_FLAG != 0 {
        return None;
    }
    Some(spectator_status != 0)
}

/// The decimal digit `d`.
pub open spec fn digit(d: nat) -> char {
    (48 + d) as char
}

/// The decimal representation of `n`, without leading zeros.
pub open spec fn decimal(n: nat) -> Seq<char>
    decreases n,
{
    if n < 10 {
        seq![digit(n)]
    } else {
        decimal(n / 10).push(digit(n % 10))
    }
}

/// The decimal digit `d` as a one-character text.
fn digit_text(d: u32) -> (r: &'static str)
    requires
        d < 10,
    ensures
        r@ == seq![digit(d as nat)],
{
    proof {
        reveal_strlit("0");
        reveal_strlit("1");
        reveal_strlit("2");
        reveal_strlit("3");
        reveal_strlit("4");
        reveal_strlit("5");
        reveal_strlit("6");
        reveal_strlit("7");
        reveal_strlit("8");
        reveal_strlit("9");
    }
    match d {
        0 => "0",
        1 => "1",
        2 => "2",
        3 => "3",
        4 => "4",
        5 => "5",
        6 => "6",
        7 => "7",
        8 => "8",
        _ => "9",
    }
}

/// The decimal representation of `n`, as `Display` for integers writes it.
pub fn decimal_text(n: u32) -> (r: String)
    ensures
        r@ == decimal(n as nat),
    decreases n,
{
    if n < 10 {
        String::from_str(digit_text(n))
    } else {
        let head = decimal_text(n / 10);
        head.concat(digit_text(n % 10))
    }
}

/// The name under which the server saves the replay of the round that ended: the round count
/// and the time, written one after the other.
pub fn replay_file_name(count: u32, time: u32) -> (r: String)
    ensures
        r@ == decimal(count as nat) + decimal(time as nat),
{
    decimal_text(count).concat(decimal_text(time).as_str())
}

/// Where the server keeps an automatically saved replay: the user data folder, `Replays`, the
/// server login, `Autosaves`, and the replay's name with `.Replay.Gbx`.
pub fn autosave_replay_path(files: &str, login: &str, file_name: &str) -> (r: String)
    ensures
        r@ == files@ + "/Replays/"@ + login@ + "/Autosaves/"@ + file_name@ + ".Replay.Gbx"@,
{
    String::from_str(files).concat("/Replays/").concat(login).concat("/Autosaves/").concat(
        file_name,
    ).concat(".Replay.Gbx")
}

/// The request for the information of a map (its file URL among it) by its uid.
pub fn map_info_url(map_uid: &str) -> (r: String)
    ensures
        r@ == "https://prod.trackmania.core.nadeo.online/maps/?mapUidList="@ + map_uid@,
{
    String::from_str("https://prod.trackmania.core.nadeo.online/maps/?mapUidList=").concat(map_uid)
}

/// The file under which the server keeps a downloaded map.
pub fn map_file_name(map_uid: &str) -> (r: String)
    ensures
        r@ == map_uid@ + ".Map.Gbx"@,
{
    String::from_str(map_uid).concat(".Map.Gbx")
}

} // verus!
