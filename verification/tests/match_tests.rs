use tm_server_manager::action::{try_exec_action, ConnectionAction, ConnectionActionMatch, TabConnectionAction};
use tm_server_manager::connection_data::{competition_connection_data_update, ConnectionData, ConnectionDataOption};
use tm_server_manager::connection::{ConnectionStatus, ConnectionType, TabConnection};
use tm_server_manager::error::ManagerError;
use tm_server_manager::leaderboard::TabMatchRoundPlayer;
use tm_server_manager::match_state::{
    apply_round_scores, handle_match_event, MatchEvent, MatchEventEffect, MatchEventInput, MatchRoundReplay,
    MatchState, PlayerAction, TabMatchRoundPlayerExt,
};
use tm_server_manager::node::NodeHandle;
use tm_server_manager::occupation::RawServerOccupation;
use tm_server_manager::position::{TabCompetitionNodePosition, Vec2};
use tm_server_manager::raw_server::{CompetitionServer, RawServerV1};
use tm_server_manager::registration::RegisterationPlayer;
use tm_server_manager::tm_match::{
    authorized_match_set_preparation, match_assign_server, match_configured, match_create, match_created,
    match_delete, match_end, match_event_outcome, match_set_preparation, match_template_create, match_try_start, match_update_config,
    match_update_pre_config, MatchCreation, MatchStatus, TmMatchV1,
};
use tm_server_manager::user::Identity;

fn tm_match(status: MatchStatus) -> TmMatchV1 {
    TmMatchV1 {
        name: "Final".to_string(),
        id: 51,
        parent_id: 2,
        pre_config: 0,
        config: 5,
        status,
        auto_provision_server: true,
        open: false,
        template: false,
    }
}

fn pool_server(id: u32, verified: bool) -> RawServerV1 {
    RawServerV1 {
        identity: Identity { hi: 0, lo: id as u128 },
        server_login: format!("s{id}"),
        server_account_id: 100 + id as u128,
        user_account_id: 7,
        id,
        online: true,
        capturable: true,
        verified,
    }
}

fn lent_to_2(ids: &[u32]) -> Vec<CompetitionServer> {
    ids.iter().map(|&server_id| CompetitionServer { competition_id: 2, server_id }).collect()
}

fn held_by_51(server_id: u32) -> RawServerOccupation {
    RawServerOccupation { server_id, node_id: 51, node_variant: 1 }
}

fn held_by_other(server_id: u32) -> RawServerOccupation {
    RawServerOccupation { server_id, node_id: 9, node_variant: 1 }
}

fn live_state() -> MatchState {
    MatchState { match_id: 51, map_id: 0, restarted: 0, round: 3, warmup: 0, is_warmup: false, paused: false }
}

#[test]
fn match_creation() {
    match match_create("M".to_string(), 2, 0, Some(false), Ok(1)).unwrap() {
        MatchCreation::New(m) => {
            assert_eq!((m.status, m.parent_id, m.auto_provision_server, m.open, m.template), (MatchStatus::Configuring, 2, true, false, false))
        },
        other => panic!("unexpected {other:?}"),
    }
    assert!(matches!(match_create("M".to_string(), 2, 8, Some(false), Ok(1)), Ok(MatchCreation::FromTemplate(8))));
    assert!(matches!(match_create("M".to_string(), 2, 0, Some(true), Ok(1)), Err(ManagerError::ParentIsTemplate)));
    assert!(matches!(match_create("M".to_string(), 2, 0, None, Ok(1)), Err(ManagerError::CompetitionNotFound)));
    let t = match_template_create(Ok(1), "T".to_string(), 2).unwrap();
    assert!(t.is_template());
    assert_eq!(t.status(), MatchStatus::Configuring);
    let i = t.instantiate(4, false);
    assert_eq!((i.get_comp_id(), i.is_template(), i.id), (4, false, 0));
}

#[test]
fn match_lifecycle_moves_forward() {
    let m = match_configured(Some(tm_match(MatchStatus::Configuring)), Ok(1)).unwrap();
    assert_eq!(m.status, MatchStatus::Configured);
    let occs = vec![held_by_51(4)];
    let p = authorized_match_set_preparation(Some(m), false, &occs, &vec![], &vec![]).unwrap();
    assert_eq!(p.tm_match.status, MatchStatus::Preparation);
    assert_eq!(p.state, MatchState::new(51));
    assert_eq!(p.occupation, None);
    let m = match_try_start(Some(p.tm_match), Ok(1), &occs).unwrap();
    assert_eq!(m.status, MatchStatus::Live);
    assert!(m.is_live());
    let mut m = m;
    m.end_match();
    assert_eq!(m.status, MatchStatus::Ended);
}

#[test]
fn match_preparation_takes_a_pool_server() {
    let servers = vec![pool_server(3, false), pool_server(4, true), pool_server(5, true)];
    let lent = lent_to_2(&[3, 4, 5]);
    let occs = vec![RawServerOccupation { server_id: 4, node_id: 9, node_variant: 1 }];
    let p = authorized_match_set_preparation(Some(tm_match(MatchStatus::Configured)), false, &occs, &lent, &servers)
        .unwrap();
    assert_eq!(p.tm_match.status, MatchStatus::Preparation);
    assert_eq!(p.state, MatchState::new(51));
    assert_eq!(p.occupation, Some(held_by_51(5)));
}

#[test]
fn match_preparation_with_an_empty_pool_fails() {
    let servers = vec![pool_server(3, false)];
    assert!(matches!(
        authorized_match_set_preparation(Some(tm_match(MatchStatus::Configured)), false, &vec![], &lent_to_2(&[3]), &servers),
        Err(ManagerError::NoServerAvailable)
    ));
    assert!(matches!(
        authorized_match_set_preparation(Some(tm_match(MatchStatus::Configured)), false, &vec![], &vec![], &vec![]),
        Err(ManagerError::NoServerAvailable)
    ));
}

#[test]
fn match_preparation_rules() {
    let occs = vec![held_by_51(4)];
    let mut manual = tm_match(MatchStatus::Configured);
    manual.auto_provision_server = false;
    assert!(matches!(
        authorized_match_set_preparation(Some(manual), false, &vec![], &vec![], &vec![]),
        Err(ManagerError::AutoProvisionOff)
    ));
    let mut unconfigured = tm_match(MatchStatus::Configured);
    unconfigured.config = 0;
    assert!(matches!(
        authorized_match_set_preparation(Some(unconfigured), false, &occs, &vec![], &vec![]),
        Err(ManagerError::MissingConfiguration)
    ));
    assert!(matches!(
        authorized_match_set_preparation(Some(tm_match(MatchStatus::Configuring)), false, &occs, &vec![], &vec![]),
        Err(ManagerError::WrongState)
    ));
    assert!(matches!(
        authorized_match_set_preparation(Some(tm_match(MatchStatus::Configured)), true, &occs, &vec![], &vec![]),
        Err(ManagerError::MatchStateExists)
    ));
    assert!(matches!(
        authorized_match_set_preparation(None, false, &occs, &vec![], &vec![]),
        Err(ManagerError::MatchNotFound)
    ));
    assert!(matches!(
        match_set_preparation(Some(tm_match(MatchStatus::Configured)), Err(ManagerError::Unauthorized), false, &occs, &vec![], &vec![]),
        Err(ManagerError::Unauthorized)
    ));
    assert!(matches!(match_set_preparation(None, Ok(1), false, &occs, &vec![], &vec![]), Err(ManagerError::MatchNotFound)));
    let p = match_set_preparation(Some(tm_match(MatchStatus::Configured)), Ok(1), false, &occs, &vec![], &vec![]).unwrap();
    assert_eq!(p.tm_match.status, MatchStatus::Preparation);
}

#[test]
fn match_end_releases_and_resolves() {
    let m = tm_match(MatchStatus::Live);
    let occs = vec![held_by_51(4), RawServerOccupation { server_id: 5, node_id: 51, node_variant: 2 }];
    let conns = vec![
        TabConnection {
            id: 1,
            parent_id: 2,
            origin_id: 51,
            target_id: 60,
            origin_variant: 1,
            target_variant: 1,
            connection_type: ConnectionType::Wait,
            status: ConnectionStatus::Configuring,
        },
        TabConnection {
            id: 2,
            parent_id: 2,
            origin_id: 60,
            target_id: 61,
            origin_variant: 1,
            target_variant: 1,
            connection_type: ConnectionType::Wait,
            status: ConnectionStatus::Configuring,
        },
    ];
    let e = match_end(Some(m), &occs, conns).unwrap();
    assert_eq!(e.tm_match.status, MatchStatus::Ended);
    assert_eq!(e.occupations, vec![RawServerOccupation { server_id: 5, node_id: 51, node_variant: 2 }]);
    assert_eq!(e.connections[0].status, ConnectionStatus::Resolved);
    assert_eq!(e.connections[1].status, ConnectionStatus::Configuring);
    assert_eq!(e.steps.len(), 1);
    assert!(matches!(match_end(None, &occs, vec![]), Err(ManagerError::MatchNotFound)));
}

#[test]
fn match_start_rules() {
    let occs = vec![held_by_51(4)];
    assert!(matches!(match_try_start(Some(tm_match(MatchStatus::Configured)), Ok(1), &occs), Err(ManagerError::WrongState)));
    assert!(matches!(
        match_try_start(Some(tm_match(MatchStatus::Preparation)), Ok(1), &vec![held_by_other(4)]),
        Err(ManagerError::NoServerAssigned)
    ));
    let mut template = tm_match(MatchStatus::Preparation);
    template.template = true;
    assert!(matches!(match_try_start(Some(template), Ok(1), &occs), Err(ManagerError::TemplateNotAllowed)));
    assert!(matches!(
        match_try_start(Some(tm_match(MatchStatus::Preparation)), Err(ManagerError::Unauthorized), &occs),
        Err(ManagerError::Unauthorized)
    ));
    let m = match_try_start(Some(tm_match(MatchStatus::Preparation)), Ok(1), &occs).unwrap();
    assert_eq!(m.status, MatchStatus::Live);
}

#[test]
fn match_configuration() {
    let m = match_update_pre_config(51, 9, Some(tm_match(MatchStatus::Configuring)), Ok(1)).unwrap();
    assert_eq!(m.pre_config, 9);
    assert!(matches!(
        match_update_pre_config(51, 9, Some(tm_match(MatchStatus::Live)), Ok(1)),
        Err(ManagerError::MatchNotFoundOrWrongState(51))
    ));
    let m = match_update_config(Some(tm_match(MatchStatus::Configured)), Ok(1), 12).unwrap();
    assert_eq!((m.config, m.status), (12, MatchStatus::Configured));
    assert!(matches!(match_update_config(Some(tm_match(MatchStatus::Live)), Ok(1), 12), Err(ManagerError::WrongState)));
    assert!(matches!(match_update_config(None, Ok(1), 12), Err(ManagerError::MatchNotFound)));
    let mut prepared = tm_match(MatchStatus::Preparation);
    prepared.pre_config = 7;
    assert_eq!(prepared.get_config_id(), 7);
    assert_eq!(tm_match(MatchStatus::Live).get_config_id(), 5);
    assert!(!tm_match(MatchStatus::Live).is_open());
}

#[test]
fn match_server_assignment() {
    let m = tm_match(MatchStatus::Configuring);
    let servers = vec![pool_server(3, false), pool_server(4, true), pool_server(5, true), pool_server(6, true)];
    let lent = lent_to_2(&[3, 4, 5]);
    let occs = vec![held_by_other(5)];
    assert_eq!(match_assign_server(Some(&m), Ok(1), 4, &occs, &servers, &lent), Ok(held_by_51(4)));
    assert_eq!(match_assign_server(Some(&m), Ok(1), 5, &occs, &servers, &lent), Err(ManagerError::ServerOccupied));
    assert_eq!(match_assign_server(Some(&m), Ok(1), 9, &occs, &servers, &lent), Err(ManagerError::ServerNotFound));
    assert_eq!(match_assign_server(Some(&m), Ok(1), 6, &occs, &servers, &lent), Err(ManagerError::ServerNotLent));
    assert_eq!(match_assign_server(Some(&m), Ok(1), 3, &occs, &servers, &lent), Err(ManagerError::ServerNotLent));
    assert_eq!(
        match_assign_server(Some(&tm_match(MatchStatus::Live)), Ok(1), 4, &occs, &servers, &lent),
        Err(ManagerError::WrongState)
    );
    assert_eq!(
        match_assign_server(Some(&m), Err(ManagerError::Unauthorized), 4, &occs, &servers, &lent),
        Err(ManagerError::Unauthorized)
    );
    assert_eq!(match_assign_server(None, Ok(1), 4, &occs, &servers, &lent), Err(ManagerError::MatchNotFound));
}

#[test]
fn match_deletion() {
    let m = tm_match(MatchStatus::Live);
    assert_eq!(match_delete(51, Some(&m), Ok(1)), Ok(NodeHandle::MatchV1(51)));
    assert_eq!(match_delete(51, None, Ok(1)), Err(ManagerError::MatchNotFound));
    assert_eq!(match_delete(51, Some(&m), Err(ManagerError::Unauthorized)), Err(ManagerError::Unauthorized));
}

#[test]
fn events_of_a_live_round() {
    let s = live_state();
    let (s2, e, _) = handle_match_event(s, MatchEventInput::StartLine { user_id: 7 });
    assert_eq!(s2, s);
    assert_eq!(e, MatchEventEffect::EnterRound(TabMatchRoundPlayer::new(51, 7, 3)));
    let (_, e, _) = handle_match_event(s, MatchEventInput::WayPoint { user_id: 7, racetime: 41000, is_end_race: true });
    assert_eq!(e, MatchEventEffect::Checkpoint { user_id: 7, round: 3, finish_time: Some(41000) });
    let (_, e, _) = handle_match_event(s, MatchEventInput::WayPoint { user_id: 7, racetime: 900, is_end_race: false });
    assert_eq!(e, MatchEventEffect::Checkpoint { user_id: 7, round: 3, finish_time: None });
    let (_, e, _) = handle_match_event(s, MatchEventInput::Respawn { user_id: 7 });
    assert_eq!(e, MatchEventEffect::Respawn { user_id: 7, round: 3 });
    let (_, e, _) = handle_match_event(s, MatchEventInput::GiveUp { user_id: 7 });
    assert_eq!(e, MatchEventEffect::GiveUp { user_id: 7, round: 3 });
    let (_, e, _) = handle_match_event(s, MatchEventInput::Scores { pre_end_round: true });
    assert_eq!(e, MatchEventEffect::RoundScores { round: 3 });
    let (_, e, _) = handle_match_event(s, MatchEventInput::Scores { pre_end_round: false });
    assert_eq!(e, MatchEventEffect::Nothing);
    let (s2, e, _) = handle_match_event(s, MatchEventInput::StartRoundStart);
    assert_eq!((s2.round, e), (4, MatchEventEffect::Nothing));
    let (_, e, _) = handle_match_event(s, MatchEventInput::EndMatchEnd);
    assert_eq!(e, MatchEventEffect::EndMatch);
}

#[test]
fn every_event_is_recorded() {
    let events = [
        MatchEventInput::StartLine { user_id: 7 },
        MatchEventInput::StartMatchStart,
        MatchEventInput::EndMatchEnd,
        MatchEventInput::Pause { active: true },
        MatchEventInput::Other,
    ];
    for event in events {
        let (_, _, record) = handle_match_event(live_state(), event);
        assert_eq!(record, MatchEvent { event, id: 0, match_id: 51 });
    }
    let mut paused = live_state();
    paused.set_pause(true);
    let (_, e, record) = handle_match_event(paused, MatchEventInput::Respawn { user_id: 1 });
    assert_eq!((e, record.match_id), (MatchEventEffect::Nothing, 51));
}

#[test]
fn created_match_gets_its_position() {
    let mut m = tm_match(MatchStatus::Configuring);
    m.id = 77;
    assert_eq!(
        match_created(&m),
        TabCompetitionNodePosition {
            position: Vec2 { x_bits: 0, y_bits: 0 },
            id: 0,
            competition_id: 2,
            node_id: 77,
            node_variant: 1,
        }
    );
}

#[test]
fn warmup_and_pause_hold_the_round() {
    let mut s = live_state();
    let (w, _, _) = handle_match_event(s, MatchEventInput::WarmupStart);
    assert!(w.is_warmup);
    let (w2, e, _) = handle_match_event(w, MatchEventInput::StartRoundStart);
    assert_eq!((w2.round, e), (3, MatchEventEffect::Nothing));
    let (w3, _, _) = handle_match_event(w2, MatchEventInput::WarmupStartRound);
    assert_eq!(w3.warmup, 1);
    let (_, e, _) = handle_match_event(w3, MatchEventInput::StartLine { user_id: 1 });
    assert_eq!(e, MatchEventEffect::Nothing);
    let (back, _, _) = handle_match_event(w3, MatchEventInput::WarmupEnd);
    assert!(!back.is_warmup);
    s.set_pause(true);
    let (p, e, _) = handle_match_event(s, MatchEventInput::Respawn { user_id: 1 });
    assert_eq!((p, e), (s, MatchEventEffect::Nothing));
    let (unpaused, _, _) = handle_match_event(s, MatchEventInput::Pause { active: false });
    assert!(unpaused.live_round());
    let (m, _, _) = handle_match_event(live_state(), MatchEventInput::StartMapStart { map_id: 77 });
    assert_eq!(m.map_id, 77);
    let (same, e, _) = handle_match_event(live_state(), MatchEventInput::Other);
    assert_eq!((same, e), (live_state(), MatchEventEffect::Nothing));
}

#[test]
fn fresh_match_state() {
    let mut s = MatchState::new(9);
    assert_eq!(s, MatchState { match_id: 9, map_id: 0, restarted: 0, round: 0, warmup: 0, is_warmup: false, paused: false });
    s.new_round();
    s.new_wu_round();
    s.set_map(3);
    s.set_wu(true);
    assert_eq!((s.get_round(), s.warmup, s.map_id, s.live_round()), (1, 1, 3, false));
}

#[test]
fn round_scores_are_applied() {
    let rows = vec![TabMatchRoundPlayer::new(51, 1, 3), TabMatchRoundPlayer::new(51, 2, 3)];
    let scored = apply_round_scores(rows, &vec![(2, 10), (1, 4), (2, 99)]);
    assert_eq!((scored[0].points, scored[1].points), (4, 10));
    let unscored = apply_round_scores(vec![TabMatchRoundPlayer::new(51, 5, 3)], &vec![(1, 4)]);
    assert_eq!(unscored[0].points, 0);
}

#[test]
fn action_log() {
    let mut log = TabMatchRoundPlayerExt::new(4, 51, 7, 3, 1000);
    log.add_checkpoint(11, 5000);
    log.add_respawn(22, false, 6000);
    log.add_respawn(0, true, 6500);
    log.add_lap(33, 7000);
    log.add_finish(44, 8000);
    log.give_up(9000);
    assert_eq!(
        log.round_actions,
        vec![
            PlayerAction::StartLine(1000),
            PlayerAction::Checkpoint { speed_bits: 11, time: 5000 },
            PlayerAction::Respawn { time: 5000, speed_bits: 22 },
            PlayerAction::Lap { speed_bits: 33, time: 7000 },
            PlayerAction::Finish { speed_bits: 44, time: 8000 },
            PlayerAction::GiveUp(8000),
        ]
    );
    let mut standing = TabMatchRoundPlayerExt::new(4, 51, 7, 3, 0);
    standing.add_respawn(0, true, 100);
    assert_eq!(standing.round_actions.len(), 2);
}

#[test]
fn replay_row() {
    let r = MatchRoundReplay::new(51, 2, 8, vec![1, 2]);
    assert_eq!((r.match_id, r.round, r.map_id, r.replay), (51, 2, 8, vec![1, 2]));
}

#[test]
fn connection_actions() {
    let a = TabConnectionAction {
        competition_id: 2,
        connection_id: 3,
        action: ConnectionAction::MatchV1(ConnectionActionMatch::TryStart),
    };
    assert_eq!(a.get_match(), ConnectionActionMatch::TryStart);
    assert_eq!(try_exec_action(&a, NodeHandle::MatchV1(51)), 51);
}

fn standings() -> Vec<TabMatchRoundPlayer> {
    (1..=5).map(|u| TabMatchRoundPlayer::new(51, u, 1)).collect()
}

fn users_of(v: &[TabMatchRoundPlayer]) -> Vec<u32> {
    v.iter().map(|p| p.user_id).collect()
}

#[test]
fn data_connection_options() {
    let mut d = ConnectionData::new(3, 2);
    assert!(matches!(d.options, ConnectionDataOption::All));
    assert_eq!(users_of(&d.apply_match(standings())), vec![1, 2, 3, 4, 5]);
    d.options = ConnectionDataOption::FirstN(2);
    assert_eq!(users_of(&d.apply_match(standings())), vec![1, 2]);
    d.options = ConnectionDataOption::FirstN(9);
    assert_eq!(users_of(&d.apply_match(standings())), vec![1, 2, 3, 4, 5]);
    d.options = ConnectionDataOption::LastN(2);
    assert_eq!(users_of(&d.apply_match(standings())), vec![5, 4]);
    d.options = ConnectionDataOption::Custom(vec![4, 0, 9, 0]);
    assert_eq!(users_of(&d.apply_match(standings())), vec![5, 1, 1]);
    let regs = vec![
        RegisterationPlayer { account_id: 10, registered_at: 1, registration_id: 1 },
        RegisterationPlayer { account_id: 20, registered_at: 2, registration_id: 1 },
    ];
    d.options = ConnectionDataOption::LastN(1);
    assert_eq!(d.apply_registration(regs)[0].account_id, 20);
    let moved = d.instantiate(8, 9);
    assert_eq!((moved.connection_id, moved.competition_id), (8, 9));
}

#[test]
fn data_connection_update() {
    let c = TabConnection {
        id: 3,
        parent_id: 2,
        origin_id: 1,
        target_id: 2,
        origin_variant: 1,
        target_variant: 1,
        connection_type: ConnectionType::Data,
        status: ConnectionStatus::Configuring,
    };
    let d = competition_connection_data_update(Some(&c), Ok(1), Some(ConnectionData::new(3, 2)), ConnectionDataOption::FirstN(4))
        .unwrap();
    assert!(matches!(d.options, ConnectionDataOption::FirstN(4)));
    assert!(matches!(
        competition_connection_data_update(None, Ok(1), None, ConnectionDataOption::All),
        Err(ManagerError::ConnectionNotFound)
    ));
    assert!(matches!(
        competition_connection_data_update(Some(&c), Ok(1), None, ConnectionDataOption::All),
        Err(ManagerError::ConnectionDataNotFound)
    ));
    assert!(matches!(
        competition_connection_data_update(Some(&c), Err(ManagerError::Unauthorized), None, ConnectionDataOption::All),
        Err(ManagerError::Unauthorized)
    ));
}

#[test]
fn an_end_event_ends_the_match() {
    let occs = vec![held_by_51(4), held_by_other(5)];
    let o = match_event_outcome(live_state(), MatchEventInput::EndMatchEnd, Some(tm_match(MatchStatus::Live)), &occs, vec![])
        .unwrap();
    assert_eq!(o.effect, MatchEventEffect::EndMatch);
    assert_eq!(o.record, MatchEvent { event: MatchEventInput::EndMatchEnd, id: 0, match_id: 51 });
    let end = o.end.unwrap();
    assert_eq!(end.tm_match.status, MatchStatus::Ended);
    assert_eq!(end.occupations, vec![held_by_other(5)]);
    assert!(matches!(
        match_event_outcome(live_state(), MatchEventInput::EndMatchEnd, None, &occs, vec![]),
        Err(ManagerError::MatchNotFound)
    ));
    let o = match_event_outcome(live_state(), MatchEventInput::WarmupStart, None, &occs, vec![]).unwrap();
    assert!(o.end.is_none());
    assert!(o.state.is_warmup);
}
