use tm_server_manager::connection::{
    connection_create, internal_graph_resolution_node_finished, node_delete, ConnectionStatus,
    ConnectionType, ResolutionStep, TabConnection,
};
use tm_server_manager::error::ManagerError;
use tm_server_manager::position::{TabCompetitionNodePosition, Vec2};
use tm_server_manager::graph::{check_new_edge, dag_from_edges, EdgeCheck};
use tm_server_manager::node::NodeHandle;

fn row(id: u32, parent: u32, from: NodeHandle, to: NodeHandle, ty: ConnectionType) -> TabConnection {
    let (ov, oi) = from.split();
    let (tv, ti) = to.split();
    TabConnection {
        id,
        parent_id: parent,
        origin_id: oi,
        target_id: ti,
        origin_variant: ov,
        target_variant: tv,
        connection_type: ty,
        status: ConnectionStatus::Configuring,
    }
}

fn m(id: u32) -> NodeHandle {
    NodeHandle::MatchV1(id)
}

fn create(from: NodeHandle, to: NodeHandle, conns: &Vec<TabConnection>) -> Result<TabConnection, ManagerError> {
    connection_create(from, to, ConnectionType::Wait, Ok(10), Ok(10), false, false, Ok(1), conns)
}

#[test]
fn accepted_edge() {
    assert_eq!(check_new_edge(3, &vec![(0, 1)], 1, 2), EdgeCheck::Accepted);
}

#[test]
fn self_loop_would_cycle() {
    assert_eq!(check_new_edge(2, &vec![], 1, 1), EdgeCheck::WouldCycle);
}

#[test]
fn closing_edge_would_cycle() {
    assert_eq!(check_new_edge(3, &vec![(0, 1), (1, 2)], 2, 0), EdgeCheck::WouldCycle);
}

#[test]
fn existing_cycle_is_reported() {
    assert_eq!(check_new_edge(3, &vec![(0, 1), (1, 0)], 1, 2), EdgeCheck::ExistingCycle);
}

#[test]
fn dag_from_edges_refuses_cycles() {
    assert!(dag_from_edges(3, &vec![(0, 1), (1, 2)]).is_some());
    assert!(dag_from_edges(3, &vec![(0, 1), (1, 2), (2, 0)]).is_none());
    assert!(dag_from_edges(2, &vec![(1, 1)]).is_none());
}

#[test]
fn connection_create_new_row() {
    let conns = vec![row(1, 10, m(1), m(2), ConnectionType::Wait)];
    let r = create(m(2), m(3), &conns).unwrap();
    assert_eq!(r.id, 0);
    assert_eq!(r.parent_id, 10);
    assert_eq!((r.origin_variant, r.origin_id), (1, 2));
    assert_eq!((r.target_variant, r.target_id), (1, 3));
    assert_eq!(r.connection_type, ConnectionType::Wait);
    assert_eq!(r.status, ConnectionStatus::Configuring);
}

#[test]
fn connection_create_refuses_self_connection() {
    assert_eq!(create(m(1), m(1), &vec![]), Err(ManagerError::SelfConnection));
}

#[test]
fn connection_create_refuses_other_competitions() {
    let r = connection_create(m(1), m(2), ConnectionType::Data, Ok(1), Ok(2), false, false, Ok(1), &vec![]);
    assert_eq!(r, Err(ManagerError::DifferentCompetitions));
}

#[test]
fn connection_create_passes_lookup_errors_on() {
    let r = connection_create(
        m(1),
        m(2),
        ConnectionType::Data,
        Err(ManagerError::MatchNotFound),
        Ok(2),
        false,
        false,
        Ok(1),
        &vec![],
    );
    assert_eq!(r, Err(ManagerError::MatchNotFound));
    let r = connection_create(
        m(1),
        m(2),
        ConnectionType::Data,
        Ok(2),
        Err(ManagerError::ScheduleNotFound),
        false,
        false,
        Ok(1),
        &vec![],
    );
    assert_eq!(r, Err(ManagerError::ScheduleNotFound));
}

#[test]
fn connection_create_refuses_template_mix() {
    let r = connection_create(m(1), m(2), ConnectionType::Data, Ok(1), Ok(1), true, false, Ok(1), &vec![]);
    assert_eq!(r, Err(ManagerError::TemplateMismatch));
}

#[test]
fn connection_create_needs_authorization() {
    let r = connection_create(
        m(1),
        m(2),
        ConnectionType::Data,
        Ok(1),
        Ok(1),
        false,
        false,
        Err(ManagerError::Unauthorized),
        &vec![],
    );
    assert_eq!(r, Err(ManagerError::Unauthorized));
}

#[test]
fn connection_create_refuses_parallel_edge() {
    let conns = vec![row(1, 10, m(1), m(2), ConnectionType::Wait)];
    assert_eq!(create(m(1), m(2), &conns), Err(ManagerError::ParallelEdge));
}

#[test]
fn connection_create_refuses_cycle() {
    let conns = vec![row(1, 10, m(1), m(2), ConnectionType::Wait), row(2, 10, m(2), m(3), ConnectionType::Wait)];
    assert_eq!(create(m(3), m(1), &conns), Err(ManagerError::WouldCycle));
}

#[test]
fn connection_create_reports_existing_cycle() {
    let conns = vec![row(1, 10, m(1), m(2), ConnectionType::Wait), row(2, 10, m(2), m(1), ConnectionType::Wait)];
    assert_eq!(create(m(3), m(4), &conns), Err(ManagerError::ExistingCycle));
}

#[test]
fn other_competitions_count_only_as_parallel_edges() {
    let conns = vec![row(1, 11, m(1), m(2), ConnectionType::Wait)];
    assert_eq!(create(m(1), m(2), &conns), Err(ManagerError::ParallelEdge));
    let conns = vec![row(1, 11, m(2), m(3), ConnectionType::Wait), row(2, 11, m(3), m(1), ConnectionType::Wait)];
    assert!(create(m(1), m(2), &conns).is_ok());
}

#[test]
fn accepted_connections_never_close_a_cycle() {
    let mut conns: Vec<TabConnection> = Vec::new();
    let pairs = [(1, 2), (2, 3), (3, 1), (1, 3), (3, 4), (4, 2), (2, 4)];
    for (a, b) in pairs {
        if let Ok(mut r) = create(m(a), m(b), &conns) {
            r.id = conns.len() as u32 + 1;
            conns.push(r);
        }
    }
    let kept: Vec<(u32, u32)> = conns.iter().map(|c| (c.origin_id, c.target_id)).collect();
    assert_eq!(kept, vec![(1, 2), (2, 3), (1, 3), (3, 4), (2, 4)]);
    let edges: Vec<(u32, u32)> = conns.iter().map(|c| (c.origin_id - 1, c.target_id - 1)).collect();
    assert!(dag_from_edges(4, &edges).is_some());
}

#[test]
fn resolution_resolves_the_outgoing_connections() {
    let conns = vec![
        row(1, 10, m(1), m(2), ConnectionType::Wait),
        row(2, 10, m(3), m(2), ConnectionType::Wait),
        row(3, 10, m(1), m(4), ConnectionType::Data),
        row(4, 10, m(1), m(5), ConnectionType::Action),
    ];
    let (table, steps) = internal_graph_resolution_node_finished(conns.clone(), m(1));
    assert_eq!(table.len(), 4);
    assert_eq!(table[0].status, ConnectionStatus::Resolved);
    assert_eq!(table[1], conns[1]);
    assert_eq!(table[2].status, ConnectionStatus::Resolved);
    assert_eq!(table[3].status, ConnectionStatus::Resolved);
    assert_eq!(
        steps,
        vec![
            ResolutionStep::Waiting(m(2)),
            ResolutionStep::Ready(m(4)),
            ResolutionStep::ExecAction { connection: 4, target: m(5) },
        ]
    );
}

#[test]
fn resolution_readies_a_node_once_all_its_inputs_resolved() {
    let conns = vec![row(1, 10, m(1), m(2), ConnectionType::Wait), row(2, 10, m(1), m(2), ConnectionType::Data)];
    let (table, steps) = internal_graph_resolution_node_finished(conns, m(1));
    assert!(table.iter().all(|c| c.status == ConnectionStatus::Resolved));
    assert_eq!(steps, vec![ResolutionStep::Waiting(m(2)), ResolutionStep::Ready(m(2))]);
}

#[test]
fn resolution_of_an_unconnected_node_changes_nothing() {
    let conns = vec![row(1, 10, m(1), m(2), ConnectionType::Wait)];
    let (table, steps) = internal_graph_resolution_node_finished(conns.clone(), m(9));
    assert_eq!(table, conns);
    assert!(steps.is_empty());
}

#[test]
fn node_delete_names_the_rows_of_its_connections() {
    let conns = vec![
        row(1, 10, m(1), m(2), ConnectionType::Action),
        row(2, 10, m(3), m(1), ConnectionType::Data),
        row(3, 10, m(1), m(4), ConnectionType::Data),
        row(4, 10, m(5), m(6), ConnectionType::Action),
        row(5, 10, m(1), m(7), ConnectionType::Wait),
    ];
    let positions = vec![
        TabCompetitionNodePosition { position: Vec2 { x_bits: 1, y_bits: 2 }, id: 1, competition_id: 10, node_id: 1, node_variant: 1 },
        TabCompetitionNodePosition { position: Vec2 { x_bits: 0, y_bits: 0 }, id: 2, competition_id: 10, node_id: 1, node_variant: 2 },
    ];
    let d = node_delete(&conns, &positions, m(1));
    assert_eq!(d.action_rows, vec![1]);
    assert_eq!(d.data_rows, vec![3, 2]);
    assert_eq!(d.connections.iter().map(|c| c.id).collect::<Vec<_>>(), vec![4]);
    assert_eq!(d.positions, vec![positions[1]]);
}

#[test]
fn action_connections_are_refused_like_any_other() {
    let monitor = NodeHandle::MonitoringV1(4);
    assert_eq!(
        connection_create(monitor, monitor, ConnectionType::Action, Err(ManagerError::NodeNotFound), Err(ManagerError::NodeNotFound), false, false, Ok(1), &vec![]),
        Err(ManagerError::SelfConnection)
    );
    assert_eq!(
        connection_create(m(1), m(2), ConnectionType::Action, Ok(1), Ok(2), false, false, Ok(1), &vec![]),
        Err(ManagerError::DifferentCompetitions)
    );
    assert_eq!(
        connection_create(m(1), m(2), ConnectionType::Action, Ok(1), Ok(1), true, false, Ok(1), &vec![]),
        Err(ManagerError::TemplateMismatch)
    );
    let conns = vec![row(1, 10, m(1), m(2), ConnectionType::Wait)];
    assert_eq!(
        connection_create(m(2), m(1), ConnectionType::Action, Ok(10), Ok(10), false, false, Ok(1), &conns),
        Err(ManagerError::WouldCycle)
    );
    assert_eq!(
        connection_create(m(1), m(2), ConnectionType::Action, Ok(10), Ok(10), false, false, Ok(1), &conns),
        Err(ManagerError::ParallelEdge)
    );
}
