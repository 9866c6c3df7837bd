use tm_server_manager::error::ManagerError;
use tm_server_manager::competition::{CompetitionStatus, CompetitionV1};
use tm_server_manager::node::{node_get_parent, NodeHandle, NodeRow};
use tm_server_manager::position::{node_create, node_position_insert, TabCompetitionNodePosition, Vec2};
use tm_server_manager::registration::{
    Registration, RegistrationSettings, RegistrationSettingsPlayer, RegistrationStatus,
};
use tm_server_manager::schedule::{ScheduleSettings, ScheduleStatus, ScheduleV1};
use tm_server_manager::tm_match::{MatchStatus, TmMatchV1};

#[test]
fn split_gives_the_stored_form() {
    assert_eq!(NodeHandle::MatchV1(7).split(), (1, 7));
    assert_eq!(NodeHandle::CompetitionV1(8).split(), (2, 8));
    assert_eq!(NodeHandle::ScheduleV1(9).split(), (3, 9));
    assert_eq!(NodeHandle::PortalV1(10).split(), (6, 10));
    assert_eq!(NodeHandle::RegistrationV1(11).split(), (7, 11));
}

#[test]
fn combine_undoes_split() {
    let handles = [
        NodeHandle::MatchV1(1),
        NodeHandle::CompetitionV1(2),
        NodeHandle::ScheduleV1(3),
        NodeHandle::PortalV1(4),
        NodeHandle::RegistrationV1(u32::MAX),
    ];
    for h in handles {
        let (variant, id) = h.split();
        assert_eq!(NodeHandle::combine(variant, id), h);
    }
}

#[test]
fn split_undoes_combine() {
    for variant in [1u8, 2, 3, 6, 7] {
        assert_eq!(NodeHandle::combine(variant, 42).split(), (variant, 42));
    }
}

#[test]
fn distinct_handles_split_apart() {
    assert_ne!(NodeHandle::MatchV1(5).split(), NodeHandle::CompetitionV1(5).split());
    assert_ne!(NodeHandle::MatchV1(5).split(), NodeHandle::MatchV1(6).split());
}

#[test]
fn kind_predicates() {
    assert!(NodeHandle::MatchV1(1).is_match());
    assert!(!NodeHandle::ServerV1(1).is_match());
    assert!(NodeHandle::ServerV1(1).is_server());
    assert!(!NodeHandle::MatchV1(1).is_server());
    assert!(NodeHandle::CompetitionV1(1).is_competition());
    assert!(!NodeHandle::ScheduleV1(1).is_competition());
}

fn tm_match(id: u32, parent_id: u32) -> TmMatchV1 {
    TmMatchV1 {
        name: "m".to_string(),
        id,
        parent_id,
        pre_config: 0,
        config: 0,
        status: MatchStatus::Configuring,
        auto_provision_server: true,
        open: false,
        template: false,
    }
}

fn competition(id: u32, parent_id: u32) -> CompetitionV1 {
    CompetitionV1 { name: "c".to_string(), id, parent_id, status: CompetitionStatus::Configuring, template: false }
}

fn schedule(id: u32, parent_id: u32) -> ScheduleV1 {
    ScheduleV1 {
        name: "s".to_string(),
        id,
        parent_id,
        settings: ScheduleSettings::Manual,
        status: ScheduleStatus::Configuring,
        template: false,
    }
}

fn registration(id: u32, parent_id: u32) -> Registration {
    Registration {
        name: "r".to_string(),
        id,
        parent_id,
        settings: RegistrationSettings::Player(RegistrationSettingsPlayer { player_limit: 4 }),
        status: RegistrationStatus::Configuring,
        template: false,
    }
}

#[test]
fn parent_of_found_nodes() {
    let m = tm_match(3, 12);
    assert_eq!(node_get_parent(NodeHandle::MatchV1(3), Some(NodeRow::Match(&m))), Ok(12));
    let s = schedule(3, 0);
    assert_eq!(node_get_parent(NodeHandle::ScheduleV1(3), Some(NodeRow::Schedule(&s))), Ok(0));
    let r = registration(4, 9);
    assert_eq!(node_get_parent(NodeHandle::RegistrationV1(4), Some(NodeRow::Registration(&r))), Ok(9));
    assert_eq!(
        node_get_parent(NodeHandle::PortalV1(6), Some(NodeRow::Portal { id: 6, parent_id: 2 })),
        Ok(2)
    );
}

#[test]
fn competition_parent_is_its_parent_id() {
    let c = competition(5, 1);
    assert_eq!(node_get_parent(NodeHandle::CompetitionV1(5), Some(NodeRow::Competition(&c))), Ok(1));
}

#[test]
fn competition_without_parent_is_refused() {
    let c = competition(5, 0);
    assert_eq!(
        node_get_parent(NodeHandle::CompetitionV1(5), Some(NodeRow::Competition(&c))),
        Err(ManagerError::CompetitionWithoutParent)
    );
}

#[test]
fn missing_nodes_are_reported_by_kind() {
    assert_eq!(node_get_parent(NodeHandle::MatchV1(1), None), Err(ManagerError::MatchNotFound));
    assert_eq!(
        node_get_parent(NodeHandle::CompetitionV1(1), None),
        Err(ManagerError::CompetitionNotFound)
    );
    assert_eq!(node_get_parent(NodeHandle::PortalV1(1), None), Err(ManagerError::PortalNotFound));
    assert_eq!(node_get_parent(NodeHandle::ScheduleV1(1), None), Err(ManagerError::ScheduleNotFound));
    assert_eq!(
        node_get_parent(NodeHandle::RegistrationV1(1), None),
        Err(ManagerError::ScheduleNotFound)
    );
}

#[test]
fn created_nodes_get_a_position_in_their_competition() {
    let s = schedule(8, 4);
    assert_eq!(
        node_create(NodeHandle::ScheduleV1(8), Some(NodeRow::Schedule(&s))),
        Ok(TabCompetitionNodePosition { position: Vec2 { x_bits: 0, y_bits: 0 }, id: 0, competition_id: 4, node_id: 8, node_variant: 3 })
    );
    assert_eq!(node_create(NodeHandle::PortalV1(2), None), Err(ManagerError::PortalNotFound));
    let c = competition(5, 0);
    assert_eq!(
        node_create(NodeHandle::CompetitionV1(5), Some(NodeRow::Competition(&c))),
        Err(ManagerError::CompetitionWithoutParent)
    );
    assert_eq!(
        node_position_insert(NodeHandle::RegistrationV1(1), Ok(6)),
        Ok(TabCompetitionNodePosition { position: Vec2 { x_bits: 0, y_bits: 0 }, id: 0, competition_id: 6, node_id: 1, node_variant: 7 })
    );
    assert_eq!(node_position_insert(NodeHandle::MatchV1(1), Err(ManagerError::MatchNotFound)), Err(ManagerError::MatchNotFound));
}
