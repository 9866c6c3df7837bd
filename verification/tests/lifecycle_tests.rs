use tm_server_manager::competition::{
    authorized_competition_ongoing, competition_configured, competition_create, competition_edit_name,
    competition_ongoing, CompetitionCreation, CompetitionStatus, CompetitionV1,
};
use tm_server_manager::env::set_env_var;
use tm_server_manager::error::ManagerError;
use tm_server_manager::project::{
    create_project, my_project, project_edit_dates, project_edit_description, project_edit_name,
    project_update_status, ProjectStatus, ProjectV1,
};
use tm_server_manager::registration::{
    create_team, register_player, registration_configured, registration_create, registration_end,
    registration_player, registration_start, unregister_player, RegisterationPlayer, Registration,
    RegistrationSettings, RegistrationSettingsPlayer, RegistrationStatus,
};
use tm_server_manager::schedule::{
    on_schedule_exec, schedule_configured, schedule_create, schedule_try_run, ScheduleSettings, ScheduleStatus,
    ScheduleV1,
};
use tm_server_manager::tm_server::{
    server_assign_raw_server, server_configured, server_create, server_template_create, ServerCreation,
    ServerStatus, TmServerV1,
};
use tm_server_manager::user::UserV1;

fn project(status: ProjectStatus, starting_at: i64, ending_at: i64) -> ProjectV1 {
    ProjectV1 {
        name: "Cup".to_string(),
        description: "A cup".to_string(),
        creator_account_id: 7,
        starting_at,
        ending_at,
        id: 3,
        status,
    }
}

fn competition(status: CompetitionStatus) -> CompetitionV1 {
    CompetitionV1 { name: "Stage".to_string(), id: 4, parent_id: 1, status, template: false }
}

fn registration(status: RegistrationStatus, limit: u32) -> Registration {
    Registration {
        name: "Sign up".to_string(),
        id: 9,
        parent_id: 1,
        settings: RegistrationSettings::Player(RegistrationSettingsPlayer { player_limit: limit }),
        status,
        template: false,
    }
}

fn signup(account_id: u128, registered_at: i64) -> RegisterationPlayer {
    RegisterationPlayer { account_id, registered_at, registration_id: 9 }
}

fn schedule(status: ScheduleStatus, settings: ScheduleSettings) -> ScheduleV1 {
    ScheduleV1 { name: "Start".to_string(), id: 6, parent_id: 1, settings, status, template: false }
}

#[test]
fn project_creation() {
    let (p, c) = create_project(Ok(7), "Cup".to_string(), "d".to_string(), 10, 20).unwrap();
    assert_eq!((p.id, p.creator_account_id, p.status, p.starting_at, p.ending_at), (0, 7, ProjectStatus::Planning, 10, 20));
    assert_eq!((c.id, c.parent_id, c.name.as_str(), c.status, c.template), (0, 0, "Cup", CompetitionStatus::Configuring, false));
    assert!(matches!(create_project(Err(ManagerError::NotAUser), String::new(), String::new(), 0, 0), Err(ManagerError::NotAUser)));
}

#[test]
fn project_edits() {
    let p = project_edit_name(Ok(7), Some(project(ProjectStatus::Planning, 0, 1)), "New".to_string()).unwrap();
    assert_eq!(p.name, "New");
    let p = project_edit_description(Ok(7), Some(project(ProjectStatus::Planning, 0, 1)), "D".to_string()).unwrap();
    assert_eq!(p.description, "D");
    assert!(matches!(project_edit_name(Ok(7), None, String::new()), Err(ManagerError::ProjectNotFound)));
}

#[test]
fn project_dates_and_status() {
    let p = project_edit_dates(Ok(7), Some(project(ProjectStatus::Announced, 100, 200)), 50, 300, 60).unwrap();
    assert_eq!((p.starting_at, p.ending_at, p.status), (50, 300, ProjectStatus::Ongoing));
    let p = project_edit_dates(Ok(7), Some(project(ProjectStatus::Ongoing, 100, 200)), 100, 150, 160).unwrap();
    assert_eq!(p.status, ProjectStatus::Ended);
    let p = project_edit_dates(Ok(7), Some(project(ProjectStatus::Planning, 100, 200)), 1, 2, 500).unwrap();
    assert_eq!(p.status, ProjectStatus::Planning);
    assert!(matches!(
        project_edit_dates(Ok(7), Some(project(ProjectStatus::Ongoing, 100, 200)), 120, 200, 150),
        Err(ManagerError::StartDateLocked)
    ));
    assert!(matches!(
        project_edit_dates(Ok(7), Some(project(ProjectStatus::Ended, 100, 200)), 100, 250, 250),
        Err(ManagerError::EndDateLocked)
    ));
    assert!(matches!(
        project_edit_dates(Ok(7), Some(project(ProjectStatus::Planning, 100, 200)), 300, 200, 0),
        Err(ManagerError::EndBeforeStart)
    ));
}

#[test]
fn project_leaves_planning_by_time() {
    let at = |now| project_update_status(Ok(7), Some(project(ProjectStatus::Planning, 100, 200)), now).unwrap().status;
    assert_eq!(at(50), ProjectStatus::Announced);
    assert_eq!(at(100), ProjectStatus::Ongoing);
    assert_eq!(at(200), ProjectStatus::Ended);
    assert!(matches!(
        project_update_status(Ok(7), Some(project(ProjectStatus::Announced, 100, 200)), 0),
        Err(ManagerError::WrongState)
    ));
    assert!(ProjectStatus::Announced.is_public());
    assert!(!ProjectStatus::Planning.is_public());
}

#[test]
fn projects_of_their_creator() {
    let mut other = project(ProjectStatus::Planning, 0, 1);
    other.creator_account_id = 8;
    other.id = 4;
    let projects = vec![project(ProjectStatus::Planning, 0, 1), other];
    let mut me = UserV1::new(7);
    me.set_name("Alice".to_string());
    let mine = my_project(Some(&me), &projects);
    assert_eq!(mine.len(), 1);
    assert_eq!((mine[0].id, mine[0].creator_name.as_str(), mine[0].name.as_str()), (3, "Alice", "Cup"));
    assert!(my_project(None, &projects).is_empty());
}

#[test]
fn competition_lifecycle() {
    match competition_create("A".to_string(), 1, 0, true, Ok(1)).unwrap() {
        CompetitionCreation::New(c) => assert_eq!((c.parent_id, c.status), (1, CompetitionStatus::Configuring)),
        other => panic!("unexpected {other:?}"),
    }
    assert!(matches!(
        competition_create("A".to_string(), 1, 5, true, Ok(1)),
        Ok(CompetitionCreation::FromTemplate { parent_id: 1, template: 5, .. })
    ));
    assert!(matches!(competition_create("A".to_string(), 1, 0, false, Ok(1)), Err(ManagerError::CompetitionNotFound)));
    let c = competition_configured(Some(competition(CompetitionStatus::Configuring)), Ok(1)).unwrap();
    assert_eq!(c.status, CompetitionStatus::Configured);
    let c = competition_ongoing(Ok(1), Some(c)).unwrap();
    assert_eq!(c.status, CompetitionStatus::Ongoing);
    assert!(matches!(authorized_competition_ongoing(Some(c)), Err(ManagerError::WrongState)));
    assert!(matches!(
        competition_ongoing(Err(ManagerError::Unauthorized), None),
        Err(ManagerError::Unauthorized)
    ));
    let c = competition_edit_name(Some(competition(CompetitionStatus::Ongoing)), Ok(1), "B".to_string()).unwrap();
    assert_eq!(c.get_name(), "B");
    let t = CompetitionV1::new_template("T".to_string(), 2);
    assert!(t.is_template());
    let i = t.instantiate(3, false);
    assert_eq!((i.get_comp_id(), i.is_template(), i.id), (3, false, 0));
}

#[test]
fn registration_flow() {
    let reg = registration(RegistrationStatus::Ongoing, 2);
    let first = register_player(Ok(100), 9, Some(&reg), &vec![], 55).unwrap();
    assert_eq!(first, signup(100, 55));
    assert_eq!(register_player(Ok(100), 9, Some(&reg), &vec![first], 56), Err(ManagerError::AlreadyRegistered));
    let second = register_player(Ok(200), 9, Some(&reg), &vec![first], 56).unwrap();
    assert_eq!(
        register_player(Ok(300), 9, Some(&reg), &vec![first, second], 57),
        Err(ManagerError::RegistrationFull)
    );
    assert_eq!(unregister_player(Ok(100), Some(&reg), &vec![first]), Ok(first));
    assert_eq!(unregister_player(Ok(300), Some(&reg), &vec![first]), Err(ManagerError::NotRegistered));
    let closed = registration(RegistrationStatus::Upcoming, 2);
    assert_eq!(register_player(Ok(100), 9, Some(&closed), &vec![], 1), Err(ManagerError::WrongState));
    assert_eq!(register_player(Ok(100), 9, None, &vec![], 1), Err(ManagerError::RegistrationNotFound));
    assert_eq!(register_player(Err(ManagerError::NotAUser), 9, None, &vec![], 1), Err(ManagerError::NotAUser));
    let mut template = registration(RegistrationStatus::Ongoing, 2);
    template.template = true;
    assert_eq!(register_player(Ok(1), 9, Some(&template), &vec![], 1), Err(ManagerError::TemplateNotAllowed));
}

#[test]
fn sign_ups_in_time_order() {
    let rows = vec![signup(1, 30), signup(2, 10), signup(3, 30), signup(4, 20), signup(5, 10)];
    let ordered: Vec<u128> = registration_player(&rows).iter().map(|p| p.account_id).collect();
    assert_eq!(ordered, vec![2, 5, 4, 1, 3]);
}

#[test]
fn registration_states() {
    let r = registration_create("R".to_string(), 1, 0, Ok(1), false, None).unwrap();
    assert_eq!(r.status, RegistrationStatus::Configuring);
    assert_eq!(r.settings, RegistrationSettings::Player(RegistrationSettingsPlayer { player_limit: 100 }));
    assert!(matches!(registration_create("R".to_string(), 1, 4, Ok(1), false, None), Err(ManagerError::TemplateNotFound)));
    assert!(matches!(registration_create("R".to_string(), 1, 0, Ok(1), true, None), Err(ManagerError::ParentIsTemplate)));
    let r = registration_configured(Some(r), Ok(1)).unwrap();
    assert_eq!(r.status, RegistrationStatus::Upcoming);
    assert!(r.can_change_settings().is_ok());
    let r = registration_start(Some(r), Ok(1)).unwrap();
    assert_eq!(r.status, RegistrationStatus::Ongoing);
    assert_eq!(r.can_change_settings(), Err(ManagerError::WrongState));
    let r = registration_end(Some(r), Ok(1)).unwrap();
    assert_eq!(r.status, RegistrationStatus::Ended);
    assert!(matches!(registration_end(None, Ok(1)), Err(ManagerError::RegistrationNotFound)));
    assert_eq!(create_team(Err(ManagerError::NotAUser), None), Err(ManagerError::NotAUser));
    assert_eq!(create_team(Ok(5), None), Err(ManagerError::RegistrationNotFound));
}

#[test]
fn schedules() {
    let s = schedule_create("S".to_string(), 1, 0, Ok(1), false, None, 1234).unwrap();
    assert_eq!((s.settings, s.status, s.parent_id), (ScheduleSettings::Absolute(1234), ScheduleStatus::Configuring, 1));
    assert!(matches!(schedule_create("S".to_string(), 1, 2, Ok(1), false, None, 0), Err(ManagerError::TemplateNotFound)));
    assert_eq!(schedule_configured(Some(&s), Ok(1)), Ok(()));
    assert_eq!(schedule_configured(None, Ok(1)), Err(ManagerError::ScheduleNotFound));
    let waiting = schedule(ScheduleStatus::Waiting, ScheduleSettings::Relative(60));
    let (_, exec) = schedule_try_run(6, Some(waiting), Ok(1), 1000).unwrap();
    assert_eq!((exec.scheduled_id, exec.scheduled_at), (6, 1060));
    let waiting = schedule(ScheduleStatus::Waiting, ScheduleSettings::Absolute(5000));
    let (_, exec) = schedule_try_run(6, Some(waiting), Ok(1), 1000).unwrap();
    assert_eq!(exec.scheduled_at, 5000);
    let configuring = schedule(ScheduleStatus::Configuring, ScheduleSettings::Manual);
    assert!(matches!(schedule_try_run(6, Some(configuring), Ok(1), 0), Err(ManagerError::WrongState)));
    assert_eq!(on_schedule_exec(true), Ok(()));
    assert_eq!(on_schedule_exec(false), Err(ManagerError::Unauthorized));
    assert_eq!(ScheduleSettings::Relative(-5).eval(10), 5);
}

#[test]
fn server_nodes() {
    match server_create("S".to_string(), 1, 0, Some(false), Ok(1)).unwrap() {
        ServerCreation::New(s) => assert_eq!((s.status, s.open, s.config), (ServerStatus::Configuring, true, 0)),
        other => panic!("unexpected {other:?}"),
    }
    assert!(matches!(server_create("S".to_string(), 1, 0, Some(true), Ok(1)), Err(ManagerError::ParentIsTemplate)));
    assert!(matches!(server_create("S".to_string(), 1, 0, None, Ok(1)), Err(ManagerError::CompetitionNotFound)));
    let t = server_template_create(Ok(1), "T".to_string(), 2).unwrap();
    assert_eq!((t.parent_id, t.status, t.open), (2, ServerStatus::Configuring, true));
    let s = server_configured(Some(t), Ok(1)).unwrap();
    assert_eq!(s.status, ServerStatus::Ongoing);
    assert!(matches!(server_configured(Some(s), Ok(1)), Err(ManagerError::WrongState)));
    let node = TmServerV1 { name: "n".to_string(), id: 1, parent_id: 1, config: 2, status: ServerStatus::Ongoing, open: false };
    assert_eq!(server_assign_raw_server(Some(&node), Ok(1), true, true), Err(ManagerError::ServerOccupied));
    assert_eq!(server_assign_raw_server(Some(&node), Ok(1), false, false), Err(ManagerError::ServerNotFound));
    assert_eq!(server_assign_raw_server(None, Ok(1), false, true), Err(ManagerError::ServerNotFound));
    assert_eq!(node.get_config_id(), 2);
    assert!(!node.is_open());
}

#[test]
fn settings_are_set_internally_only() {
    let e = set_env_var(true, "S3_KEY_ID".to_string(), "abc".to_string()).unwrap();
    assert_eq!((e.key.as_str(), e.value.as_str()), ("S3_KEY_ID", "abc"));
    assert!(matches!(set_env_var(false, "k".to_string(), "v".to_string()), Err(ManagerError::Unauthorized)));
}
