use vstd::prelude::*;

use crate::error::ManagerError;

verus! {

#[derive(Debug, PartialEq, Eq, Clone, Copy, Structural)]
pub enum CompetitionStatus {
    Configuring,
    Configured,
    /// The configuration is fixed: the competition plays through its stages.
    Ongoing,
    /// The whole competition is fixed.
    Completed,
    Locked,
}

/// A competition: a node of the tree of competitions of a project.
#[derive(Debug)]
pub struct CompetitionV1 {
    pub name: String,
    pub id: u32,
    pub parent_id: u32,
    pub status: CompetitionStatus,
    pub template: bool,
}

impl CompetitionV1 {
    pub fn get_comp_id(&self) -> (r: u32)
        ensures
            r == self.parent_id,
    {
        self.parent_id
    }

    pub fn get_name(&self) -> (r: &String)
        ensures
            r@ == self.name@,
    {
        &self.name
    }

    pub fn is_template(&self) -> (r: bool)
        ensures
            r == self.template,
    {
        self.template
    }

    /// A copy under another parent; the store gives it a new id.
    pub fn instantiate(self, new_parent: u32, stay_template: bool) -> (r: Self)
        ensures
            r == (CompetitionV1 { template: stay_template, id: 0, parent_id: new_parent, ..self }),
    {
        let mut s = self;
        s.template = stay_template;
        s.id = 0;
        s.parent_id = new_parent;
        s
    }

    /// A new competition, configuring; the store gives it its id.
    pub fn new(name: String, parent_id: u32) -> (r: Self)
        ensures
            r == (CompetitionV1 { id: 0, parent_id, name, status: CompetitionStatus::Configuring, template: false }),
    {
        Self { id: 0, parent_id, name, status: CompetitionStatus::Configuring, template: false }
    }

    /// A new template competition, configuring; the store gives it its id.
    pub fn new_template(name: String, parent_id: u32) -> (r: Self)
        ensures
            r == (CompetitionV1 { id: 0, parent_id, name, status: CompetitionStatus::Configuring, template: true }),
    {
        Self { id: 0, parent_id, name, status: CompetitionStatus::Configuring, template: true }
    }
}

/// What a request to create a competition leads to.
#[derive(Debug)]
pub enum CompetitionCreation {
    /// The competition is made from the template `template` under `parent_id`, named `name`.
    FromTemplate { parent_id: u32, template: u32, name: String },
    /// This new competition is stored.
    New(CompetitionV1),
}

/// Decides a request to create a competition under `parent_id`; `parent_found` tells whether
/// the store holds that competition, `authorized` is the outcome of the permission check.
pub fn competition_create(
    name: String,
    parent_id: u32,
    with_template: u32,
    parent_found: bool,
    authorized: Result<u32, ManagerError>,
) -> (r: Result<CompetitionCreation, ManagerError>)
    ensures
        !parent_found ==> r == Err::<CompetitionCreation, ManagerError>(ManagerError::CompetitionNotFound),
        parent_found && authorized is Err ==> r == Err::<CompetitionCreation, ManagerError>(authorized->Err_0),
        parent_found && authorized is Ok && with_template != 0 ==> (r matches Ok(CompetitionCreation::FromTemplate { parent_id: p, template: t, name: n })
            && p == parent_id && t == with_template && n == name),
        parent_found && authorized is Ok && with_template == 0 ==> (r matches Ok(CompetitionCreation::New(c))
            && c == (CompetitionV1 { id: 0, parent_id, name, status: CompetitionStatus::Configuring, template: false })),
{
    if !parent_found {
        return Err(ManagerError::CompetitionNotFound);
    }
    if let Err(e) = authorized {
        return Err(e);
    }
    if with_template != 0 {
        Ok(CompetitionCreation::FromTemplate { parent_id, template: with_template, name })
    } else {
        Ok(CompetitionCreation::New(CompetitionV1::new(name, parent_id)))
    }
}

/// The place of a status in the lifecycle of a competition.
pub open spec fn competition_status_rank(status: CompetitionStatus) -> int {
    match status {
        CompetitionStatus::Configuring => 0,
        CompetitionStatus::Configured => 1,
        CompetitionStatus::Ongoing => 2,
        CompetitionStatus::Completed => 3,
        CompetitionStatus::Locked => 4,
    }
}

/// The competition after the request to mark it configured, or the error.
pub open spec fn competition_configured_spec(competition: Option<CompetitionV1>, authorized: Result<u32, ManagerError>) -> Result<CompetitionV1, ManagerError> {
    match competition {
        None => Err(ManagerError::CompetitionNotFound),
        Some(c) => if authorized is Err {
            Err(authorized->Err_0)
        } else if c.status != CompetitionStatus::Configuring {
            Err(ManagerError::WrongState)
        } else {
            Ok(CompetitionV1 { status: CompetitionStatus::Configured, ..c })
        },
    }
}

/// Decides a request to mark the competition configured: it moves from configuring to configured.
pub fn competition_configured(competition: Option<CompetitionV1>, authorized: Result<u32, ManagerError>) -> (r: Result<CompetitionV1, ManagerError>)
    ensures
        r == competition_configured_spec(competition, authorized),
        r is Ok ==> competition_status_rank(r->Ok_0.status) > competition_status_rank(competition->0.status),
{
    let mut c = match competition {
        Some(c) => c,
        None => return Err(ManagerError::CompetitionNotFound),
    };
    if let Err(e) = authorized {
        return Err(e);
    }
    if c.status != CompetitionStatus::Configuring {
        return Err(ManagerError::WrongState);
    }
    c.status = CompetitionStatus::Configured;
    Ok(c)
}

/// The competition after it is set ongoing, or the error.
pub open spec fn competition_ongoing_spec(competition: Option<CompetitionV1>) -> Result<CompetitionV1, ManagerError> {
    match competition {
        None => Err(ManagerError::CompetitionNotFound),
        Some(c) => if c.status != CompetitionStatus::Configured {
            Err(ManagerError::WrongState)
        } else {
            Ok(CompetitionV1 { status: CompetitionStatus::Ongoing, ..c })
        },
    }
}

/// Sets a configured competition ongoing (for a caller already authorized).
pub fn authorized_competition_ongoing(competition: Option<CompetitionV1>) -> (r: Result<CompetitionV1, ManagerError>)
    ensures
        r == competition_ongoing_spec(competition),
        r is Ok ==> competition_status_rank(r->Ok_0.status) > competition_status_rank(competition->0.status),
{
    let mut c = match competition {
        Some(c) => c,
        None => return Err(ManagerError::CompetitionNotFound),
    };
    if c.status != CompetitionStatus::Configured {
        return Err(ManagerError::WrongState);
    }
    c.status = CompetitionStatus::Ongoing;
    Ok(c)
}

/// Decides a request to set the competition ongoing: the caller's authorization comes first.
pub fn competition_ongoing(authorized: Result<u32, ManagerError>, competition: Option<CompetitionV1>) -> (r: Result<CompetitionV1, ManagerError>)
    ensures
        authorized is Err ==> r == Err::<CompetitionV1, ManagerError>(authorized->Err_0),
        authorized is Ok ==> r == competition_ongoing_spec(competition),
{
    if let Err(e) = authorized {
        return Err(e);
    }
    authorized_competition_ongoing(competition)
}

/// Decides a request to rename the competition.
pub fn competition_edit_name(competition: Option<CompetitionV1>, authorized: Result<u32, ManagerError>, name: String) -> (r: Result<CompetitionV1, ManagerError>)
    ensures
        r == (match competition {
            None => Err(ManagerError::CompetitionNotFound),
            Some(c) => if authorized is Err {
                Err(authorized->Err_0)
            } else {
                Ok(CompetitionV1 { name, ..c })
            },
        }),
{
    let mut c = match competition {
        Some(c) => c,
        None => return Err(ManagerError::CompetitionNotFound),
    };
    if let Err(e) = authorized {
        return Err(e);
    }
    c.name = name;
    Ok(c)
}

} // verus!
