use tm_server_manager::bridge::{autosave_replay_path, decimal_text, map_file_name, map_info_url, player_sync, replay_file_name};
use tm_server_manager::configurator::{match_settings, settings_loaded};
use tm_server_manager::error::ManagerError;
use tm_server_manager::maps::TabTmMap;
use tm_server_manager::node::NodeHandle;
use tm_server_manager::position::{
    competition_node_position_update, competition_node_positions_update, my_node_positions,
    CompetitionNodePosition, NodePositionUpdate, TabCompetitionNodePosition, Vec2,
};
use tm_server_manager::user::{
    get_user_id, user_insert, user_login, Identity, UserIdentity, UserIdsMap, UserInsert, UserLogin, UserV1,
};

const ID_A: Identity = Identity { hi: 0, lo: 1 };
const ID_B: Identity = Identity { hi: 5, lo: 1 };

fn named(account_id: u128, name: &str) -> UserV1 {
    let mut u = UserV1::new(account_id);
    u.set_name(name.to_string());
    u
}

#[test]
fn new_user_is_blank() {
    let u = UserV1::new(42);
    assert_eq!((u.id, u.account_id, u.name.as_str(), u.club_tag.as_str(), u.zone.as_str()), (0, 42, "", "", ""));
}

#[test]
fn user_rows() {
    assert_eq!(UserIdentity::new(3, ID_A), UserIdentity { identity: ID_A, user_id: 3 });
    assert_eq!(UserIdsMap::new(77, 3), UserIdsMap { account_id: 77, user_id: 3 });
    let row = UserIdentity::new(3, ID_A);
    assert_eq!(get_user_id(Some(&row)), Ok(3));
    assert_eq!(get_user_id(None), Err(ManagerError::NotAUser));
}

#[test]
fn storing_users() {
    match user_insert(None, named(42, "Bob")) {
        UserInsert::Insert(u) => assert_eq!((u.account_id, u.name.as_str()), (42, "Bob")),
        other => panic!("unexpected {other:?}"),
    }
    let mut stored = named(42, "Bob");
    stored.id = 9;
    assert!(matches!(user_insert(Some(stored), named(42, "Bob")), UserInsert::Existing(9)));
    let mut stored = named(42, "Bob");
    stored.id = 9;
    match user_insert(Some(stored), named(42, "Robert")) {
        UserInsert::Rename(u) => assert_eq!((u.id, u.name.as_str()), (9, "Robert")),
        other => panic!("unexpected {other:?}"),
    }
}

#[test]
fn storing_a_user_twice_changes_nothing() {
    let first = user_insert(None, named(42, "Bob"));
    let mut stored = match first {
        UserInsert::Insert(u) => u,
        other => panic!("unexpected {other:?}"),
    };
    stored.id = 12;
    assert!(matches!(user_insert(Some(stored), named(42, "Bob")), UserInsert::Existing(12)));
}

#[test]
fn logins() {
    assert_eq!(user_login(None, 3, ID_A), UserLogin::Insert(UserIdentity { identity: ID_A, user_id: 3 }));
    let row = UserIdentity::new(3, ID_A);
    assert_eq!(user_login(Some(row), 3, ID_A), UserLogin::Unchanged);
    assert_eq!(user_login(Some(row), 3, ID_B), UserLogin::Update(UserIdentity { identity: ID_B, user_id: 3 }));
    let stored = match user_login(Some(row), 3, ID_B) {
        UserLogin::Update(u) => u,
        other => panic!("unexpected {other:?}"),
    };
    assert_eq!(user_login(Some(stored), 3, ID_B), UserLogin::Unchanged);
}

#[test]
fn server_entry_is_skipped() {
    assert_eq!(player_sync(0b100000, 0), None);
    assert_eq!(player_sync(0b101001, 1), None);
    assert_eq!(player_sync(0, 0), Some(false));
    assert_eq!(player_sync(0b10000, 2), Some(true));
}

#[test]
fn new_map() {
    let m = TabTmMap::new("Map".to_string(), "uid".to_string(), 4, 40000, 42000, 45000, 50000);
    assert_eq!((m.id, m.author_user_id, m.author_time, m.gold_time, m.silver_time, m.bronze_time, m.internal), (0, 4, 40000, 42000, 45000, 50000, false));
    assert_eq!((m.name.as_str(), m.uid.as_str()), ("Map", "uid"));
}

#[test]
fn node_positions() {
    let p = TabCompetitionNodePosition::new(NodeHandle::MatchV1(5), 2);
    assert_eq!(
        p,
        TabCompetitionNodePosition { position: Vec2 { x_bits: 0, y_bits: 0 }, id: 0, competition_id: 2, node_id: 5, node_variant: 1 }
    );
    let mut q = TabCompetitionNodePosition::new(NodeHandle::ScheduleV1(6), 1);
    q.id = 2;
    let rows = vec![p, q];
    assert_eq!(
        my_node_positions(&rows, 2),
        vec![CompetitionNodePosition { competition_id: 2, node: NodeHandle::MatchV1(5), position: Vec2 { x_bits: 0, y_bits: 0 } }]
    );
    assert_eq!(my_node_positions(&rows, 1).len(), 2);
    let to = Vec2 { x_bits: 0x3f80_0000, y_bits: 0x4000_0000 };
    let moved = competition_node_position_update(Ok(2), Some(p), to).unwrap();
    assert_eq!(moved.position, to);
    assert_eq!(competition_node_position_update(Ok(2), None, to), Err(ManagerError::NodeNotFound));
    assert_eq!(
        competition_node_position_update(Err(ManagerError::Unauthorized), Some(p), to),
        Err(ManagerError::Unauthorized)
    );
}

#[test]
fn moving_several_nodes() {
    let p = TabCompetitionNodePosition::new(NodeHandle::MatchV1(5), 2);
    let q = TabCompetitionNodePosition::new(NodeHandle::ScheduleV1(6), 2);
    let a = Vec2 { x_bits: 1, y_bits: 2 };
    let b = Vec2 { x_bits: 3, y_bits: 4 };
    let updates = vec![
        NodePositionUpdate { node: NodeHandle::MatchV1(5), position: a },
        NodePositionUpdate { node: NodeHandle::ScheduleV1(6), position: b },
    ];
    let moved = competition_node_positions_update(&updates, &vec![Ok(1), Ok(1)], &vec![Some(p), Some(q)]).unwrap();
    assert_eq!((moved[0].position, moved[1].position), (a, b));
    assert_eq!(
        competition_node_positions_update(&updates, &vec![Ok(1), Ok(1)], &vec![Some(p), None]),
        Err(ManagerError::NodeNotFound)
    );
    assert_eq!(
        competition_node_positions_update(
            &updates,
            &vec![Err(ManagerError::Unauthorized), Err(ManagerError::ScheduleNotFound)],
            &vec![None, None]
        ),
        Err(ManagerError::Unauthorized)
    );
    assert_eq!(
        competition_node_positions_update(&updates, &vec![Ok(1), Err(ManagerError::ScheduleNotFound)], &vec![None, None]),
        Err(ManagerError::ScheduleNotFound)
    );
}

#[test]
fn match_settings_file() {
    let setting = "<setting name=\"S_PointsLimit\" value=\"100\" type=\"integer\"/>";
    let doc = match_settings(setting);
    assert!(doc.starts_with("<?xml version=\"1.0\" encoding=\"utf-8\" ?>\n<playlist>\n\t<gameinfos>"));
    assert!(doc.contains("value=\"\" type=\"boolean\"/>\n\t\t<setting name=\"S_PointsLimit\" value=\"100\" type=\"integer\"/>\n\t</script_settings>"));
    assert!(doc.ends_with("<map><file>Campaigns/Training/Training - 10.Map.Gbx</file></map>\n</playlist>"));
    assert_eq!(doc.matches("<map>").count(), 2);
}

#[test]
fn settings_count_as_loaded_with_both_maps() {
    assert!(settings_loaded(Some(2)));
    assert!(!settings_loaded(Some(1)));
    assert!(!settings_loaded(None));
}

#[test]
fn replay_files() {
    assert_eq!(replay_file_name(3, 45000), "345000");
    assert_eq!(replay_file_name(0, 0), "00");
    assert_eq!(replay_file_name(u32::MAX, 10), "429496729510");
    assert_eq!(
        autosave_replay_path("/UserData", "myserver", "345000"),
        "/UserData/Replays/myserver/Autosaves/345000.Replay.Gbx"
    );
}

#[test]
fn map_downloads() {
    assert_eq!(
        map_info_url("abc123"),
        "https://prod.trackmania.core.nadeo.online/maps/?mapUidList=abc123"
    );
    assert_eq!(map_file_name("abc123"), "abc123.Map.Gbx");
}

#[test]
fn decimal_text_as_display_writes_it() {
    for n in [0u32, 7, 10, 1020, 99999, u32::MAX] {
        assert_eq!(decimal_text(n), n.to_string());
    }
}
