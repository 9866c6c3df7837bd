use vstd::prelude::*;

use crate::error::ManagerError;

verus! {

#[derive(Debug, PartialEq, Eq, Clone, Copy, Structural)]
pub enum ServerStatus {
    Configuring,
    Ongoing,
}

/// A standing server node of a competition.
#[derive(Debug)]
pub struct TmServerV1 {
    pub name: String,
    pub id: u32,
    pub parent_id: u32,
    pub config: u32,
    pub status: ServerStatus,
    pub open: bool,
}

impl TmServerV1 {
    pub fn get_config_id(&self) -> (r: u32)
        ensures
            r == self.config,
    {
        self.config
    }

    pub fn is_open(&self) -> (r: bool)
        ensures
            r == self.open,
    {
        self.open
    }
}

/// What a request to create a server node leads to.
#[derive(Debug)]
pub enum ServerCreation {
    /// The server node is made from the template with this id.
    FromTemplate(u32),
    /// This new server node is stored.
    New(TmServerV1),
}

/// Decides a request to create a server node under the competition `parent_id`;
/// `parent_is_template` is what the store finds of it (none if it is missing).
pub fn server_create(
    name: String,
    parent_id: u32,
    with_template: u32,
    parent_is_template: Option<bool>,
    authorized: Result<u32, ManagerError>,
) -> (r: Result<ServerCreation, ManagerError>)
    ensures
        parent_is_template is None ==> r == Err::<ServerCreation, ManagerError>(ManagerError::CompetitionNotFound),
        parent_is_template is Some && authorized is Err ==> r == Err::<ServerCreation, ManagerError>(authorized->Err_0),
        parent_is_template == Some(true) && authorized is Ok ==> r == Err::<ServerCreation, ManagerError>(ManagerError::ParentIsTemplate),
        parent_is_template == Some(false) && authorized is Ok && with_template != 0 ==> (r matches Ok(ServerCreation::FromTemplate(t)) && t == with_template),
        parent_is_template == Some(false) && authorized is Ok && with_template == 0 ==> (r matches Ok(ServerCreation::New(s)) && s == (TmServerV1 {
            name,
            id: 0,
            parent_id,
            config: 0,
            status: ServerStatus::Configuring,
            open: true,
        })),
{
    let parent_template = match parent_is_template {
        Some(t) => t,
        None => return Err(ManagerError::CompetitionNotFound),
    };
    if let Err(e) = authorized {
        return Err(e);
    }
    if parent_template {
        return Err(ManagerError::ParentIsTemplate);
    }
    if with_template != 0 {
        Ok(ServerCreation::FromTemplate(with_template))
    } else {
        Ok(ServerCreation::New(TmServerV1 { name, id: 0, parent_id, config: 0, status: ServerStatus::Configuring, open: true }))
    }
}

/// Decides a request to mark the server node configured: it moves from configuring to ongoing.
pub fn server_configured(server: Option<TmServerV1>, authorized: Result<u32, ManagerError>) -> (r: Result<TmServerV1, ManagerError>)
    ensures
        r == (match server {
            None => Err(ManagerError::ServerNotFound),
            Some(s) => if authorized is Err {
                Err(authorized->Err_0)
            } else if s.status != ServerStatus::Configuring {
                Err(ManagerError::WrongState)
            } else {
                Ok(TmServerV1 { status: ServerStatus::Ongoing, ..s })
            },
        }),
{
    let mut s = match server {
        Some(s) => s,
        None => return Err(ManagerError::ServerNotFound),
    };
    if let Err(e) = authorized {
        return Err(e);
    }
    if s.status != ServerStatus::Configuring {
        return Err(ManagerError::WrongState);
    }
    s.status = ServerStatus::Ongoing;
    Ok(s)
}

/// The server template that an authorized request creates under the competition `parent_id`:
/// configuring, without configuration, open.
pub fn server_template_create(authorized: Result<u32, ManagerError>, name: String, parent_id: u32) -> (r:
    Result<TmServerV1, ManagerError>)
    ensures
        authorized is Err ==> r == Err::<TmServerV1, ManagerError>(authorized->Err_0),
        authorized is Ok ==> r == Ok::<TmServerV1, ManagerError>(
            TmServerV1 { name, id: 0, parent_id, config: 0, status: ServerStatus::Configuring, open: true },
        ),
{
    if let Err(e) = authorized {
        return Err(e);
    }
    Ok(TmServerV1 { name, id: 0, parent_id, config: 0, status: ServerStatus::Configuring, open: true })
}

/// The checks of a request to give a raw server to a server node: the node must be found, the
/// caller authorized, and the raw server free and stored. A server node has no stored
/// occupation form yet, so requests that pass every check are left out.
pub fn server_assign_raw_server(
    tm_server: Option<&TmServerV1>,
    authorized: Result<u32, ManagerError>,
    server_occupied: bool,
    server_exists: bool,
) -> (r: Result<(), ManagerError>)
    requires
        tm_server is None || authorized is Err || server_occupied || !server_exists,
    ensures
        r == (if tm_server is None {
            Err(ManagerError::ServerNotFound)
        } else if authorized is Err {
            Err(authorized->Err_0)
        } else if server_occupied {
            Err(ManagerError::ServerOccupied)
        } else {
            Err::<(), ManagerError>(ManagerError::ServerNotFound)
        }),
{
    if tm_server.is_none() {
        return Err(ManagerError::ServerNotFound);
    }
    if let Err(e) = authorized {
        return Err(e);
    }
    if server_occupied {
        return Err(ManagerError::ServerOccupied);
    }
    Err(ManagerError::ServerNotFound)
}

} // verus!
