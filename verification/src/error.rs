use vstd::prelude::*;

verus! {

/// The reasons for which a request to the manager is refused.
#[derive(Debug, PartialEq, Eq, Clone, Copy, Structural)]
pub enum ManagerError {
    /// The caller lacks a permission or an identity that the request needs.
    Unauthorized,
    /// A node was connected to itself.
    SelfConnection,
    /// The two nodes belong to different competitions.
    DifferentCompetitions,
    /// A template node was connected to a node that is no template.
    TemplateMismatch,
    /// The same connection exists already.
    ParallelEdge,
    /// The connections of the competition hold a cycle already.
    ExistingCycle,
    /// The new connection would close a cycle.
    WouldCycle,
    /// A match could not be found.
    MatchNotFound,
    /// A competition could not be found.
    CompetitionNotFound,
    /// A competition without parent cannot be part of a connection.
    CompetitionWithoutParent,
    /// A schedule could not be found.
    ScheduleNotFound,
    /// A portal could not be found.
    PortalNotFound,
    /// A registration could not be found.
    RegistrationNotFound,
    /// A connection could not be found.
    ConnectionNotFound,
    /// A connection's data row could not be found.
    ConnectionDataNotFound,
    /// A server could not be found.
    ServerNotFound,
    /// A project could not be found.
    ProjectNotFound,
    /// The object is in a state in which the request is not allowed.
    WrongState,
    /// The request is not allowed on templates.
    TemplateNotAllowed,
    /// The request is not allowed below a template competition.
    ParentIsTemplate,
    /// A match has no configuration.
    MissingConfiguration,
    /// No server is assigned and none can be provisioned.
    NoServerAvailable,
    /// The server is occupied already.
    ServerOccupied,
    /// The server is not lent to the competition.
    ServerNotLent,
    /// The server is lent to the competition already.
    ServerAlreadyLent,
    /// The caller does not own the server.
    NotServerOwner,
    /// The server was verified already.
    AlreadyVerified,
    /// The registration is full.
    RegistrationFull,
    /// The user is registered already.
    AlreadyRegistered,
    /// The user is not registered.
    NotRegistered,
    /// The start of a project that has started cannot move.
    StartDateLocked,
    /// The end of a project that has ended cannot move.
    EndDateLocked,
    /// The end date lies before the start date.
    EndBeforeStart,
    /// A template could not be found.
    TemplateNotFound,
    /// The match is missing, or not in the state that the request needs.
    MatchNotFoundOrWrongState(u32),
    /// No server is assigned and the match does not provision one itself.
    AutoProvisionOff,
    /// No server is assigned to the match.
    NoServerAssigned,
    /// The caller is not a user.
    NotAUser,
    /// The caller is not a server.
    NotAServer,
    /// No node occupies the server.
    ServerNotOccupied,
    /// A node has no stored position.
    NodeNotFound,
    /// The match has a stored state already.
    MatchStateExists,
    /// The credentials were refused.
    CredentialsRejected,
}

} // verus!
