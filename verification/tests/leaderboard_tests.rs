use tm_server_manager::leaderboard::{
    accumulate_rounds, match_leaderboard, match_round, match_round_ext, rank_by_score, MatchRoundPlayer,
    TabMatchRoundPlayer,
};
use tm_server_manager::match_state::{PlayerAction, TabMatchRoundPlayerExt};
use tm_server_manager::user::UserV1;

fn entry(id: u32, user_id: u32, match_id: u32, round: u16, points: i32) -> TabMatchRoundPlayer {
    TabMatchRoundPlayer { id, user_id, match_id, time: 1000 + id as i32, points, round }
}

fn user(id: u32, account_id: u128) -> UserV1 {
    let mut u = UserV1::new(account_id);
    u.id = id;
    u
}

fn line(account_id: u128, score: i32) -> MatchRoundPlayer {
    MatchRoundPlayer { account_id, id: 0, match_id: 1, time: 0, score, round: 1, position: 0 }
}

#[test]
fn new_round_row() {
    let r = TabMatchRoundPlayer::new(4, 5, 6);
    assert_eq!(r, TabMatchRoundPlayer { id: 0, user_id: 5, match_id: 4, time: 0, points: 0, round: 6 });
}

#[test]
fn setters() {
    let mut r = TabMatchRoundPlayer::new(1, 2, 3);
    r.set_time(4500);
    r.set_points(-3);
    assert_eq!(r.time, 4500);
    assert_eq!(r.points, -3);
}

#[test]
fn rounds_add_up_per_player() {
    let entries = vec![entry(1, 10, 1, 1, 5), entry(2, 20, 1, 1, 3), entry(3, 10, 1, 2, 7), entry(4, 20, 1, 2, -1)];
    let acc = accumulate_rounds(&entries);
    assert_eq!(acc.len(), 2);
    assert_eq!((acc[0].user_id, acc[0].points, acc[0].round, acc[0].id), (10, 12, 2, 3));
    assert_eq!((acc[1].user_id, acc[1].points, acc[1].round, acc[1].id), (20, 2, 2, 4));
}

#[test]
fn accumulation_keeps_the_latest_round() {
    let entries = vec![entry(1, 10, 1, 3, 1), entry(2, 10, 1, 1, 1)];
    let acc = accumulate_rounds(&entries);
    assert_eq!((acc[0].points, acc[0].round, acc[0].id), (2, 3, 1));
}

#[test]
fn ranking_is_ascending_stable_and_numbered() {
    let lines = vec![line(1, 30), line(2, 10), line(3, 20), line(4, 10)];
    let ranked = rank_by_score(lines);
    let order: Vec<(u128, u16)> = ranked.iter().map(|l| (l.account_id, l.position)).collect();
    assert_eq!(order, vec![(2, 1), (4, 2), (3, 3), (1, 4)]);
}

#[test]
fn ranking_of_nothing() {
    assert!(rank_by_score(vec![]).is_empty());
}

#[test]
fn leaderboard_of_the_current_round() {
    let rows = vec![
        entry(1, 10, 51, 1, 5),
        entry(2, 20, 51, 1, 3),
        entry(3, 10, 51, 2, 7),
        entry(4, 20, 51, 2, 1),
        entry(5, 10, 51, 3, 100),
        entry(6, 30, 52, 1, 50),
    ];
    let users = vec![user(10, 1000), user(20, 2000), user(30, 3000)];
    let board = match_leaderboard(51, 0, Some(2), &rows, &users);
    let lines: Vec<(u128, i32, u16, u16, u32)> =
        board.iter().map(|l| (l.account_id, l.score, l.position, l.round, l.match_id)).collect();
    assert_eq!(lines, vec![(2000, 4, 1, 2, 51), (1000, 12, 2, 2, 51)]);
}

#[test]
fn leaderboard_up_to_a_round() {
    let rows = vec![entry(1, 10, 51, 1, 5), entry(2, 10, 51, 2, 7)];
    let users = vec![user(10, 1000)];
    let board = match_leaderboard(51, 1, None, &rows, &users);
    assert_eq!(board.len(), 1);
    assert_eq!((board[0].score, board[0].round, board[0].id), (5, 1, 1));
}

#[test]
fn leaderboard_without_state_is_empty() {
    let rows = vec![entry(1, 10, 51, 1, 5)];
    let users = vec![user(10, 1000)];
    assert!(match_leaderboard(51, 0, None, &rows, &users).is_empty());
}

#[test]
fn one_round() {
    let rows = vec![entry(1, 10, 51, 1, 5), entry(2, 20, 51, 2, 3), entry(3, 30, 51, 2, 1), entry(4, 10, 51, 2, 3)];
    let users = vec![user(10, 1000), user(20, 2000), user(30, 3000)];
    let board = match_round(51, 2, None, &rows, &users);
    let lines: Vec<(u128, i32, u16)> = board.iter().map(|l| (l.account_id, l.score, l.position)).collect();
    assert_eq!(lines, vec![(3000, 1, 1), (2000, 3, 2), (1000, 3, 3)]);
    assert!(match_round(51, 0, None, &rows, &users).is_empty());
    assert_eq!(match_round(51, 0, Some(1), &rows, &users).len(), 1);
}

#[test]
fn action_logs_of_a_round() {
    let mut a = TabMatchRoundPlayerExt::new(1, 51, 10, 2, 100);
    a.add_checkpoint(0, 900);
    let b = TabMatchRoundPlayerExt::new(2, 51, 20, 1, 100);
    let c = TabMatchRoundPlayerExt::new(3, 52, 20, 2, 100);
    let rows = vec![a, b, c];
    let logs = match_round_ext(51, 0, Some(2), &rows);
    assert_eq!(logs.len(), 1);
    assert_eq!((logs[0].id, logs[0].match_id, logs[0].round), (1, 51, 2));
    assert_eq!(
        logs[0].round_actions,
        vec![PlayerAction::StartLine(100), PlayerAction::Checkpoint { speed_bits: 0, time: 900 }]
    );
    assert!(match_round_ext(51, 0, None, &rows).is_empty());
}
