use vstd::prelude::*;

use crate::connection::{
    ResolutionStep, TabConnection, all_well_stored, internal_graph_resolution_node_finished, resolution,
};
use crate::error::ManagerError;
use crate::match_state::{MatchEvent, MatchEventEffect, MatchEventInput, MatchState, handle_match_event, match_event_spec};
use crate::node::{NodeHandle, split_spec};
use crate::occupation::{
    RawServerOccupation, not_held_by, occupation_with_occupier, occupations_well_formed, occupations_without,
    occupied, occupies_a_server, raw_server_is_occupied,
};
use crate::position::{TabCompetitionNodePosition, origin_position};
use crate::raw_server::{
    CompetitionServer, RawServerV1, lent_servers_stored, pool_available, raw_server_pool_assign, server_pool_available,
};

verus! {

/// The lifecycle of a match.
#[derive(Debug, PartialEq, Eq, Clone, Copy, Structural)]
pub enum MatchStatus {
    /// All configurations of the match can change.
    Configuring,
    Configured,
    /// The configuration of the preparation is fixed.
    Preparation,
    /// The configuration of the match is fixed.
    Live,
    /// The match is over and archived.
    Ended,
    Locked,
}

impl MatchStatus {
    pub fn before_preparation(&self) -> (r: bool)
        ensures
            r == (*self == MatchStatus::Configuring || *self == MatchStatus::Configured),
    {
        match self {
            MatchStatus::Configuring => true,
            MatchStatus::Configured => true,
            _ => false,
        }
    }
}

/// A match: it configures the server it runs on and holds the rules to rebuild its leaderboard.
#[derive(Debug)]
pub struct TmMatchV1 {
    pub name: String,
    pub id: u32,
    pub parent_id: u32,
    /// Loaded when the match captures its server, if set (not 0).
    pub pre_config: u32,
    /// Loaded when the match starts; it is needed to leave the configuration.
    pub config: u32,
    pub status: MatchStatus,
    pub auto_provision_server: bool,
    /// Whether everybody may join, or only the permitted players.
    pub open: bool,
    pub template: bool,
}

/// The place of a status in the lifecycle of a match.
pub open spec fn match_status_rank(status: MatchStatus) -> int {
    match status {
        MatchStatus::Configuring => 0,
        MatchStatus::Configured => 1,
        MatchStatus::Preparation => 2,
        MatchStatus::Live => 3,
        MatchStatus::Ended => 4,
        MatchStatus::Locked => 5,
    }
}

/// The statuses in which a match has a configuration to hand out.
pub open spec fn has_config(status: MatchStatus) -> bool {
    status == MatchStatus::Preparation || status == MatchStatus::Live || status == MatchStatus::Ended
}

/// The configuration that the match's server is to load.
pub open spec fn config_id_spec(m: TmMatchV1) -> u32 {
    if m.status == MatchStatus::Preparation && m.pre_config != 0 {
        m.pre_config
    } else {
        m.config
    }
}

/// The configuration handed to a match's server is one the match has set: the preparation
/// configuration only while the match prepares and only if it is set, else the match
/// configuration. So it is never 0 where the match configuration is set.
pub proof fn lemma_config_id_is_set(m: TmMatchV1)
    requires
        has_config(m.status),
    ensures
        m.status == MatchStatus::Preparation && m.pre_config != 0 ==> config_id_spec(m) == m.pre_config,
        !(m.status == MatchStatus::Preparation && m.pre_config != 0) ==> config_id_spec(m) == m.config,
        m.config != 0 ==> config_id_spec(m) != 0,
{
}

impl TmMatchV1 {
    /// The configuration that the server is to load: the preparation configuration while the
    /// match prepares (if one is set), else the match configuration.
    pub fn get_config_id(&self) -> (r: u32)
        requires
            has_config(self.status),
        ensures
            r == config_id_spec(*self),
    {
        match self.status {
            MatchStatus::Preparation => {
                if self.pre_config != 0 {
                    self.pre_config
                } else {
                    self.config
                }
            },
            _ => self.config,
        }
    }

    /// The match is playing.
    pub fn is_live(&self) -> (r: bool)
        ensures
            r == (self.status == MatchStatus::Live),
    {
        self.status == MatchStatus::Live
    }

    pub fn is_open(&self) -> (r: bool)
        ensures
            r == self.open,
    {
        self.open
    }

    pub fn status(&self) -> (r: MatchStatus)
        ensures
            r == self.status,
    {
        self.status
    }

    pub fn get_comp_id(&self) -> (r: u32)
        ensures
            r == self.parent_id,
    {
        self.parent_id
    }

    pub fn is_template(&self) -> (r: bool)
        ensures
            r == self.template,
    {
        self.template
    }

    /// A copy under another competition; the store gives it a new id.
    pub fn instantiate(self, parent_id: u32, stay_template: bool) -> (r: Self)
        ensures
            r == (TmMatchV1 { template: stay_template, parent_id, id: 0, ..self }),
    {
        let mut s = self;
        s.template = stay_template;
        s.parent_id = parent_id;
        s.id = 0;
        s
    }

    pub fn end_match(&mut self)
        ensures
            *final(self) == (TmMatchV1 { status: MatchStatus::Ended, ..*old(self) }),
            match_status_rank(old(self).status) <= match_status_rank(MatchStatus::Live)
                ==> match_status_rank(final(self).status) > match_status_rank(old(self).status),
    {
        self.status = MatchStatus::Ended;
    }
}

/// What a request to create a match leads to.
#[derive(Debug)]
pub enum MatchCreation {
    /// The match is made from the template with this id.
    FromTemplate(u32),
    /// This new match is stored, and then its node.
    New(TmMatchV1),
}

/// Decides a request to create a match under the competition `parent_id`. `parent_is_template`
/// is what the store finds of that competition (none if it is missing), `authorized` the
/// outcome of the permission check. A new match, once stored under its id, is followed by the
/// position row of its node (see [`match_created`]).
pub fn match_create(
    name: String,
    parent_id: u32,
    with_template: u32,
    parent_is_template: Option<bool>,
    authorized: Result<u32, ManagerError>,
) -> (r: Result<MatchCreation, ManagerError>)
    ensures
        parent_is_template is None ==> r == Err::<MatchCreation, ManagerError>(ManagerError::CompetitionNotFound),
        parent_is_template is Some && authorized is Err ==> r == Err::<MatchCreation, ManagerError>(authorized->Err_0),
        parent_is_template == Some(true) && authorized is Ok ==> r == Err::<MatchCreation, ManagerError>(ManagerError::ParentIsTemplate),
        parent_is_template == Some(false) && authorized is Ok && with_template != 0 ==> (r matches Ok(MatchCreation::FromTemplate(t)) && t == with_template),
        parent_is_template == Some(false) && authorized is Ok && with_template == 0 ==> (r matches Ok(MatchCreation::New(m)) && m == (TmMatchV1 {
            name,
            id: 0,
            parent_id,
            pre_config: 0,
            config: 0,
            status: MatchStatus::Configuring,
            auto_provision_server: true,
            open: false,
            template: false,
        })),
{
    let parent_template = match parent_is_template {
        Some(t) => t,
        None => return Err(ManagerError::CompetitionNotFound),
    };
    if let Err(e) = authorized {
        return Err(e);
    }
    if parent_template {
        return Err(ManagerError::ParentIsTemplate);
    }
    if with_template != 0 {
        Ok(MatchCreation::FromTemplate(with_template))
    } else {
        Ok(
            MatchCreation::New(
                TmMatchV1 {
                    id: 0,
                    parent_id,
                    name,
                    status: MatchStatus::Configuring,
                    pre_config: 0,
                    config: 0,
                    auto_provision_server: true,
                    template: false,
                    open: false,
                },
            ),
        )
    }
}

/// The position row of the node of a match that was just stored: the match at the origin of
/// the layout of its competition.
pub fn match_created(stored: &TmMatchV1) -> (r: TabCompetitionNodePosition)
    ensures
        r == origin_position(NodeHandle::MatchV1(stored.id), stored.parent_id),
{
    TabCompetitionNodePosition::new(NodeHandle::MatchV1(stored.id), stored.parent_id)
}

/// Some stored server has the id.
pub open spec fn server_stored(servers: Seq<RawServerV1>, server_id: u32) -> bool {
    exists|k: int| 0 <= k < servers.len() && (#[trigger] servers[k]).id == server_id
}

/// The server is among those that the pool can hand out.
pub open spec fn in_pool(pool: Seq<RawServerV1>, server_id: u32) -> bool {
    exists|k: int| 0 <= k < pool.len() && (#[trigger] pool[k]).id == server_id
}

fn holds_server(servers: &Vec<RawServerV1>, server_id: u32) -> (r: bool)
    ensures
        r == server_stored(servers@, server_id),
{
    let mut i: usize = 0;
    while i < servers.len()
        invariant
            i <= servers.len(),
            forall|k: int| 0 <= k < i ==> (#[trigger] servers@[k]).id != server_id,
        decreases servers.len() - i,
    {
        if servers[i].id == server_id {
            return true;
        }
        i = i + 1;
    }
    false
}

/// Decides a request to assign the server `server_id` to the match `tm_match`: the match must
/// exist, the caller must be authorized, the match must still be configuring, and the server
/// must be free, stored, and in the pool of the match's competition (lent to it and verified).
/// `occs` are the occupations, `servers` the raw servers and `lent` the rows that lend servers.
/// On success the occupation of the server by the match is returned, to be stored.
pub fn match_assign_server(
    tm_match: Option<&TmMatchV1>,
    authorized: Result<u32, ManagerError>,
    server_id: u32,
    occs: &Vec<RawServerOccupation>,
    servers: &Vec<RawServerV1>,
    lent: &Vec<CompetitionServer>,
) -> (r: Result<RawServerOccupation, ManagerError>)
    requires
        tm_match matches Some(m) ==> lent_servers_stored(lent@, servers@, m.parent_id),
    ensures
        r == (match tm_match {
            None => Err(ManagerError::MatchNotFound),
            Some(m) => if authorized is Err {
                Err(authorized->Err_0)
            } else if !m.status.before_preparation_spec() {
                Err(ManagerError::WrongState)
            } else if occupied(occs@, server_id) {
                Err(ManagerError::ServerOccupied)
            } else if !server_stored(servers@, server_id) {
                Err(ManagerError::ServerNotFound)
            } else if !in_pool(pool_available(lent@, servers@, occs@, m.parent_id), server_id) {
                Err(ManagerError::ServerNotLent)
            } else {
                Ok(RawServerOccupation { server_id, node_variant: 1u8, node_id: m.id })
            },
        }),
{
    let m = match tm_match {
        Some(m) => m,
        None => return Err(ManagerError::MatchNotFound),
    };
    if let Err(e) = authorized {
        return Err(e);
    }
    if m.status != MatchStatus::Configuring && m.status != MatchStatus::Configured {
        return Err(ManagerError::WrongState);
    }
    if raw_server_is_occupied(occs, server_id) {
        return Err(ManagerError::ServerOccupied);
    }
    if !holds_server(servers, server_id) {
        return Err(ManagerError::ServerNotFound);
    }
    let pool = server_pool_available(m.parent_id, lent, servers, occs);
    if !holds_server(&pool, server_id) {
        return Err(ManagerError::ServerNotLent);
    }
    Ok(RawServerOccupation::new(NodeHandle::MatchV1(m.id), server_id))
}

impl MatchStatus {
    pub open spec fn before_preparation_spec(self) -> bool {
        self == MatchStatus::Configuring || self == MatchStatus::Configured
    }
}

/// Decides a request to mark the match as configured: it moves from configuring to configured.
pub fn match_configured(tm_match: Option<TmMatchV1>, authorized: Result<u32, ManagerError>) -> (r: Result<TmMatchV1, ManagerError>)
    ensures
        tm_match is None ==> r == Err::<TmMatchV1, ManagerError>(ManagerError::MatchNotFound),
        tm_match is Some && authorized is Err ==> r == Err::<TmMatchV1, ManagerError>(authorized->Err_0),
        tm_match is Some && authorized is Ok && tm_match->0.status != MatchStatus::Configuring ==> r == Err::<TmMatchV1, ManagerError>(ManagerError::WrongState),
        tm_match is Some && authorized is Ok && tm_match->0.status == MatchStatus::Configuring ==> r == Ok::<TmMatchV1, ManagerError>(TmMatchV1 { status: MatchStatus::Configured, ..tm_match->0 }),
        r is Ok ==> match_status_rank(r->Ok_0.status) > match_status_rank(tm_match->0.status),
{
    let mut m = match tm_match {
        Some(m) => m,
        None => return Err(ManagerError::MatchNotFound),
    };
    if let Err(e) = authorized {
        return Err(e);
    }
    if m.status != MatchStatus::Configuring {
        return Err(ManagerError::WrongState);
    }
    m.status = MatchStatus::Configured;
    Ok(m)
}

/// Decides a request to set the preparation configuration of the match `id`: only a match that
/// is found and still configuring takes it, and then only from an authorized caller.
/// `authorized` is asked only when the match is found and configuring.
pub fn match_update_pre_config(
    id: u32,
    config_id: u32,
    tm_match: Option<TmMatchV1>,
    authorized: Result<u32, ManagerError>,
) -> (r: Result<TmMatchV1, ManagerError>)
    ensures
        !(tm_match matches Some(m) && m.status == MatchStatus::Configuring) ==> r == Err::<TmMatchV1, ManagerError>(ManagerError::MatchNotFoundOrWrongState(id)),
        (tm_match matches Some(m) && m.status == MatchStatus::Configuring) && authorized is Err ==> r == Err::<TmMatchV1, ManagerError>(authorized->Err_0),
        (tm_match matches Some(m) && m.status == MatchStatus::Configuring) && authorized is Ok ==> r == Ok::<TmMatchV1, ManagerError>(TmMatchV1 { pre_config: config_id, ..tm_match->0 }),
{
    match tm_match {
        Some(m) => {
            if m.status == MatchStatus::Configuring {
                if let Err(e) = authorized {
                    return Err(e);
                }
                let mut m = m;
                m.pre_config = config_id;
                Ok(m)
            } else {
                Err(ManagerError::MatchNotFoundOrWrongState(id))
            }
        },
        None => Err(ManagerError::MatchNotFoundOrWrongState(id)),
    }
}

/// Decides a request to give the match a new configuration: only before its preparation. The
/// new configuration is stored under the id `config_id`; on success the match, pointing to it,
/// is returned to be stored (on an error nothing is kept).
pub fn match_update_config(
    tm_match: Option<TmMatchV1>,
    authorized: Result<u32, ManagerError>,
    config_id: u32,
) -> (r: Result<TmMatchV1, ManagerError>)
    ensures
        r == (match tm_match {
            None => Err(ManagerError::MatchNotFound),
            Some(m) => if authorized is Err {
                Err(authorized->Err_0)
            } else if !m.status.before_preparation_spec() {
                Err(ManagerError::WrongState)
            } else {
                Ok(TmMatchV1 { config: config_id, ..m })
            },
        }),
{
    let mut m = match tm_match {
        Some(m) => m,
        None => return Err(ManagerError::MatchNotFound),
    };
    if let Err(e) = authorized {
        return Err(e);
    }
    if !m.status.before_preparation() {
        return Err(ManagerError::WrongState);
    }
    m.config = config_id;
    Ok(m)
}

/// What moving a match into preparation stores.
#[derive(Debug)]
pub struct MatchPreparation {
    /// The match, now in preparation.
    pub tm_match: TmMatchV1,
    /// The fresh state of the match.
    pub state: MatchState,
    /// The occupation of the server that the match takes from its competition's pool, where it
    /// held none yet.
    pub occupation: Option<RawServerOccupation>,
}

/// The outcome of moving a match into preparation. `state_stored` tells whether the store holds
/// a state for the match already, `occs` are the occupations, `lent` and `servers` the pool.
pub open spec fn set_preparation_spec(
    tm_match: Option<TmMatchV1>,
    state_stored: bool,
    occs: Seq<RawServerOccupation>,
    lent: Seq<CompetitionServer>,
    servers: Seq<RawServerV1>,
) -> Result<MatchPreparation, ManagerError> {
    match tm_match {
        None => Err(ManagerError::MatchNotFound),
        Some(m) => {
            let prepared = TmMatchV1 { status: MatchStatus::Preparation, ..m };
            let fresh = MatchState {
                match_id: m.id,
                map_id: 0,
                restarted: 0,
                round: 0,
                warmup: 0,
                is_warmup: false,
                paused: false,
            };
            let pool = pool_available(lent, servers, occs, m.parent_id);
            if m.template {
                Err(ManagerError::TemplateNotAllowed)
            } else if m.status == MatchStatus::Configuring {
                Err(ManagerError::WrongState)
            } else if m.config == 0 {
                Err(ManagerError::MissingConfiguration)
            } else if occupies_a_server(occs, NodeHandle::MatchV1(m.id)) {
                if state_stored {
                    Err(ManagerError::MatchStateExists)
                } else {
                    Ok(MatchPreparation { tm_match: prepared, state: fresh, occupation: None })
                }
            } else if !m.auto_provision_server {
                Err(ManagerError::AutoProvisionOff)
            } else if pool.len() == 0 {
                Err(ManagerError::NoServerAvailable)
            } else if state_stored {
                Err(ManagerError::MatchStateExists)
            } else {
                Ok(
                    MatchPreparation {
                        tm_match: prepared,
                        state: fresh,
                        occupation: Some(RawServerOccupation { server_id: pool[0].id, node_variant: 1u8, node_id: m.id }),
                    },
                )
            }
        },
    }
}

/// Moves a match into preparation (for a caller already authorized): templates and matches
/// still configuring do not go, nor matches without configuration. A match that holds a server
/// keeps it; one without takes the first available server of its competition's pool if it
/// provisions a server itself. With it a fresh match state is stored, which must not exist yet.
pub fn authorized_match_set_preparation(
    tm_match: Option<TmMatchV1>,
    state_stored: bool,
    occs: &Vec<RawServerOccupation>,
    lent: &Vec<CompetitionServer>,
    servers: &Vec<RawServerV1>,
) -> (r: Result<MatchPreparation, ManagerError>)
    requires
        occupations_well_formed(occs@),
        tm_match matches Some(m) ==> lent_servers_stored(lent@, servers@, m.parent_id),
    ensures
        r == set_preparation_spec(tm_match, state_stored, occs@, lent@, servers@),
        r is Ok && tm_match->0.status == MatchStatus::Configured ==> match_status_rank(r->Ok_0.tm_match.status)
            > match_status_rank(tm_match->0.status),
{
    let mut m = match tm_match {
        Some(m) => m,
        None => return Err(ManagerError::MatchNotFound),
    };
    if m.template {
        return Err(ManagerError::TemplateNotAllowed);
    }
    if m.status == MatchStatus::Configuring {
        return Err(ManagerError::WrongState);
    }
    if m.config == 0 {
        return Err(ManagerError::MissingConfiguration);
    }
    let node = NodeHandle::MatchV1(m.id);
    let occupation = if occupation_with_occupier(occs, node).is_some() {
        None
    } else if m.auto_provision_server {
        match raw_server_pool_assign(node, Ok(m.parent_id), lent, servers, occs) {
            Ok(o) => Some(o),
            Err(e) => return Err(e),
        }
    } else {
        return Err(ManagerError::AutoProvisionOff);
    };
    if state_stored {
        return Err(ManagerError::MatchStateExists);
    }
    m.status = MatchStatus::Preparation;
    let state = MatchState::new(m.id);
    Ok(MatchPreparation { tm_match: m, state, occupation })
}

/// The occupations once those that a preparation hands out are stored.
pub open spec fn with_preparation_occupation(occs: Seq<RawServerOccupation>, p: MatchPreparation) -> Seq<
    RawServerOccupation,
> {
    match p.occupation {
        Some(o) => occs.push(o),
        None => occs,
    }
}

/// A match that went into preparation holds a server: the one it held, or the one it took from
/// the pool, once that occupation is stored. So it can be started.
pub proof fn lemma_prepared_match_holds_server(
    tm_match: Option<TmMatchV1>,
    state_stored: bool,
    occs: Seq<RawServerOccupation>,
    lent: Seq<CompetitionServer>,
    servers: Seq<RawServerV1>,
)
    requires
        set_preparation_spec(tm_match, state_stored, occs, lent, servers) is Ok,
    ensures
        occupies_a_server(
            with_preparation_occupation(occs, set_preparation_spec(tm_match, state_stored, occs, lent, servers)->Ok_0),
            NodeHandle::MatchV1(tm_match->0.id),
        ),
{
    let p = set_preparation_spec(tm_match, state_stored, occs, lent, servers)->Ok_0;
    if let Some(o) = p.occupation {
        let all = occs.push(o);
        assert(all[occs.len() as int] == o);
        assert((all[occs.len() as int].node_variant, all[occs.len() as int].node_id) == split_spec(
            NodeHandle::MatchV1(tm_match->0.id),
        ));
    }
}

/// Decides a request to start the match: a prepared match that is no template starts for an
/// authorized caller if a server occupies it (`occs` are the occupations). On success the
/// returned match (live) is stored; its state is the one stored when it went into preparation.
pub fn match_try_start(
    tm_match: Option<TmMatchV1>,
    authorized: Result<u32, ManagerError>,
    occs: &Vec<RawServerOccupation>,
) -> (r: Result<TmMatchV1, ManagerError>)
    requires
        occupations_well_formed(occs@),
    ensures
        r == (match tm_match {
            None => Err(ManagerError::MatchNotFound),
            Some(m) => if m.template {
                Err(ManagerError::TemplateNotAllowed)
            } else if m.status != MatchStatus::Preparation {
                Err(ManagerError::WrongState)
            } else if authorized is Err {
                Err(authorized->Err_0)
            } else if !occupies_a_server(occs@, NodeHandle::MatchV1(m.id)) {
                Err(ManagerError::NoServerAssigned)
            } else {
                Ok(TmMatchV1 { status: MatchStatus::Live, ..m })
            },
        }),
        r is Ok ==> match_status_rank(r->Ok_0.status) > match_status_rank(tm_match->0.status),
{
    let mut m = match tm_match {
        Some(m) => m,
        None => return Err(ManagerError::MatchNotFound),
    };
    if m.template {
        return Err(ManagerError::TemplateNotAllowed);
    }
    if m.status != MatchStatus::Preparation {
        return Err(ManagerError::WrongState);
    }
    if let Err(e) = authorized {
        return Err(e);
    }
    if occupation_with_occupier(occs, NodeHandle::MatchV1(m.id)).is_none() {
        return Err(ManagerError::NoServerAssigned);
    }
    m.status = MatchStatus::Live;
    Ok(m)
}

/// The match template that an authorized request creates under the competition `parent_id`:
/// configuring, without configurations, provisioning its own server, closed.
pub fn match_template_create(authorized: Result<u32, ManagerError>, name: String, parent_id: u32) -> (r:
    Result<TmMatchV1, ManagerError>)
    ensures
        authorized is Err ==> r == Err::<TmMatchV1, ManagerError>(authorized->Err_0),
        authorized is Ok ==> r == Ok::<TmMatchV1, ManagerError>(
            TmMatchV1 {
                id: 0,
                parent_id,
                name,
                status: MatchStatus::Configuring,
                pre_config: 0,
                config: 0,
                auto_provision_server: true,
                template: true,
                open: false,
            },
        ),
{
    if let Err(e) = authorized {
        return Err(e);
    }
    Ok(
        TmMatchV1 {
            id: 0,
            parent_id,
            name,
            status: MatchStatus::Configuring,
            pre_config: 0,
            config: 0,
            auto_provision_server: true,
            template: true,
            open: false,
        },
    )
}

/// A request to move a match into preparation: the match must be found and the caller
/// authorized; then the decision of `authorized_match_set_preparation`.
pub fn match_set_preparation(
    tm_match: Option<TmMatchV1>,
    authorized: Result<u32, ManagerError>,
    state_stored: bool,
    occs: &Vec<RawServerOccupation>,
    lent: &Vec<CompetitionServer>,
    servers: &Vec<RawServerV1>,
) -> (r: Result<MatchPreparation, ManagerError>)
    requires
        occupations_well_formed(occs@),
        tm_match matches Some(m) ==> lent_servers_stored(lent@, servers@, m.parent_id),
    ensures
        tm_match is None ==> r == Err::<MatchPreparation, ManagerError>(ManagerError::MatchNotFound),
        tm_match is Some && authorized is Err ==> r == Err::<MatchPreparation, ManagerError>(authorized->Err_0),
        tm_match is Some && authorized is Ok ==> r == set_preparation_spec(tm_match, state_stored, occs@, lent@, servers@),
{
    if tm_match.is_none() {
        return Err(ManagerError::MatchNotFound);
    }
    if let Err(e) = authorized {
        return Err(e);
    }
    authorized_match_set_preparation(tm_match, state_stored, occs, lent, servers)
}

/// What the end of a match leaves in the store.
#[derive(Debug)]
pub struct MatchEnd {
    /// The match, now ended.
    pub tm_match: TmMatchV1,
    /// The occupations without those of the match: its server is released.
    pub occupations: Vec<RawServerOccupation>,
    /// The connections, those leaving the match resolved.
    pub connections: Vec<TabConnection>,
    /// What follows for each connection leaving the match, in table order.
    pub steps: Vec<ResolutionStep>,
}

/// The end of a match that its server reported: the match is marked ended, the connections that
/// leave it are resolved and the server it held is released.
pub fn match_end(
    tm_match: Option<TmMatchV1>,
    occs: &Vec<RawServerOccupation>,
    connections: Vec<TabConnection>,
) -> (r: Result<MatchEnd, ManagerError>)
    requires
        all_well_stored(connections@),
    ensures
        tm_match is None ==> r == Err::<MatchEnd, ManagerError>(ManagerError::MatchNotFound),
        tm_match matches Some(m) ==> r matches Ok(e) && e.tm_match == (TmMatchV1 { status: MatchStatus::Ended, ..m })
            && e.occupations@ == occs@.filter(not_held_by(NodeHandle::MatchV1(m.id)))
            && !occupies_a_server(e.occupations@, NodeHandle::MatchV1(m.id))
            && e.connections@ == resolution(connections@, NodeHandle::MatchV1(m.id), connections@.len()).0
            && e.steps@ == resolution(connections@, NodeHandle::MatchV1(m.id), connections@.len()).1,
{
    let mut m = match tm_match {
        Some(m) => m,
        None => return Err(ManagerError::MatchNotFound),
    };
    m.end_match();
    let node = NodeHandle::MatchV1(m.id);
    let (connections, steps) = internal_graph_resolution_node_finished(connections, node);
    let occupations = occupations_without(occs, node);
    Ok(MatchEnd { tm_match: m, occupations, connections, steps })
}

/// A request to delete a match: the match must be found and the caller authorized; the node
/// of the match is then deleted with its connections.
pub fn match_delete(match_id: u32, tm_match: Option<&TmMatchV1>, authorized: Result<u32, ManagerError>) -> (r:
    Result<NodeHandle, ManagerError>)
    ensures
        tm_match is None ==> r == Err::<NodeHandle, ManagerError>(ManagerError::MatchNotFound),
        tm_match is Some && authorized is Err ==> r == Err::<NodeHandle, ManagerError>(
            authorized->Err_0,
        ),
        tm_match is Some && authorized is Ok ==> r == Ok::<NodeHandle, ManagerError>(
            NodeHandle::MatchV1(match_id),
        ),
{
    if tm_match.is_none() {
        return Err(ManagerError::MatchNotFound);
    }
    if let Err(e) = authorized {
        return Err(e);
    }
    Ok(NodeHandle::MatchV1(match_id))
}

/// What an event of a live match leaves in the store.
#[derive(Debug)]
pub struct MatchEventOutcome {
    /// The new state of the match.
    pub state: MatchState,
    /// What else the store does.
    pub effect: MatchEventEffect,
    /// The record of the event.
    pub record: MatchEvent,
    /// Where the event ends the match: what the end leaves.
    pub end: Option<MatchEnd>,
}

/// Handles an event of a live match in full: the new state, the effect and the record of the
/// event, and, where the event ends the match, the end of the match (its row `tm_match`, the
/// occupations `occs` and the connections `connections`). A match that ends but cannot be found
/// is an error, and then nothing is kept.
pub fn match_event_outcome(
    state: MatchState,
    event: MatchEventInput,
    tm_match: Option<TmMatchV1>,
    occs: &Vec<RawServerOccupation>,
    connections: Vec<TabConnection>,
) -> (r: Result<MatchEventOutcome, ManagerError>)
    requires
        event == MatchEventInput::StartRoundStart && !state.is_warmup && !state.paused ==> state.round < u16::MAX,
        event == MatchEventInput::WarmupStartRound ==> state.warmup < u16::MAX,
        all_well_stored(connections@),
    ensures
        r matches Ok(o) ==> (o.state, o.effect) == match_event_spec(state, event) && o.record == (MatchEvent {
            event,
            id: 0,
            match_id: state.match_id,
        }),
        match_event_spec(state, event).1 != MatchEventEffect::EndMatch ==> (r matches Ok(o) && o.end is None),
        match_event_spec(state, event).1 == MatchEventEffect::EndMatch && tm_match is None ==> r == Err::<
            MatchEventOutcome,
            ManagerError,
        >(ManagerError::MatchNotFound),
        match_event_spec(state, event).1 == MatchEventEffect::EndMatch ==> (tm_match matches Some(m) ==> (r matches Ok(o)
            && o.end matches Some(e) && e.tm_match == (TmMatchV1 { status: MatchStatus::Ended, ..m })
            && e.occupations@ == occs@.filter(not_held_by(NodeHandle::MatchV1(m.id)))
            && e.connections@ == resolution(connections@, NodeHandle::MatchV1(m.id), connections@.len()).0
            && e.steps@ == resolution(connections@, NodeHandle::MatchV1(m.id), connections@.len()).1)),
{
    let (next, effect, record) = handle_match_event(state, event);
    let end = match effect {
        MatchEventEffect::EndMatch => match match_end(tm_match, occs, connections) {
            Ok(e) => Some(e),
            Err(err) => return Err(err),
        },
        _ => None,
    };
    Ok(MatchEventOutcome { state: next, effect, record, end })
}

} // verus!
