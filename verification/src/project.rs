use vstd::prelude::*;

use crate::competition::{CompetitionStatus, CompetitionV1};
use crate::error::ManagerError;
use crate::user::UserV1;

verus! {

#[derive(Debug, PartialEq, Eq, Clone, Copy, Structural)]
pub enum ProjectStatus {
    /// The public API cannot see the project.
    Planning,
    /// The project is public.
    Announced,
    /// Its competitions have started.
    Ongoing,
    /// The whole project has finished.
    Ended,
}

impl ProjectStatus {
    pub fn is_public(&self) -> (r: bool)
        ensures
            r == (*self != ProjectStatus::Planning),
    {
        *self != ProjectStatus::Planning
    }
}

/// A project: the grouping of competitions that holds their metadata. Times are microseconds
/// since the Unix epoch.
#[derive(Debug)]
pub struct ProjectV1 {
    pub name: String,
    pub description: String,
    pub creator_account_id: u128,
    pub starting_at: i64,
    pub ending_at: i64,
    pub id: u32,
    pub status: ProjectStatus,
}

/// Decides a request of the user with the account `user` to create a project; on success the
/// project is stored, planning, and a root competition of the same name.
pub fn create_project(
    user: Result<u128, ManagerError>,
    name: String,
    description: String,
    starting_at: i64,
    ending_at: i64,
) -> (r: Result<(ProjectV1, CompetitionV1), ManagerError>)
    ensures
        user is Err ==> r == Err::<(ProjectV1, CompetitionV1), ManagerError>(user->Err_0),
        user is Ok ==> r == Ok::<(ProjectV1, CompetitionV1), ManagerError>((
            ProjectV1 {
                id: 0,
                name,
                creator_account_id: user->Ok_0,
                status: ProjectStatus::Planning,
                description,
                starting_at,
                ending_at,
            },
            CompetitionV1 { id: 0, parent_id: 0, name, status: CompetitionStatus::Configuring, template: false },
        )),
{
    let account = match user {
        Ok(a) => a,
        Err(e) => return Err(e),
    };
    let competition = CompetitionV1::new(name.clone(), 0);
    let project = ProjectV1 {
        id: 0,
        name,
        creator_account_id: account,
        status: ProjectStatus::Planning,
        description,
        starting_at,
        ending_at,
    };
    Ok((project, competition))
}

/// Decides a request to rename the project.
pub fn project_edit_name(user: Result<u128, ManagerError>, project: Option<ProjectV1>, name: String) -> (r: Result<ProjectV1, ManagerError>)
    ensures
        r == (if user is Err {
            Err(user->Err_0)
        } else {
            match project {
                None => Err(ManagerError::ProjectNotFound),
                Some(p) => Ok(ProjectV1 { name, ..p }),
            }
        }),
{
    if let Err(e) = user {
        return Err(e);
    }
    let mut p = match project {
        Some(p) => p,
        None => return Err(ManagerError::ProjectNotFound),
    };
    p.name = name;
    Ok(p)
}

/// Decides a request to change the description of the project.
pub fn project_edit_description(user: Result<u128, ManagerError>, project: Option<ProjectV1>, description: String) -> (r: Result<ProjectV1, ManagerError>)
    ensures
        r == (if user is Err {
            Err(user->Err_0)
        } else {
            match project {
                None => Err(ManagerError::ProjectNotFound),
                Some(p) => Ok(ProjectV1 { description, ..p }),
            }
        }),
{
    if let Err(e) = user {
        return Err(e);
    }
    let mut p = match project {
        Some(p) => p,
        None => return Err(ManagerError::ProjectNotFound),
    };
    p.description = description;
    Ok(p)
}

/// The status of a project after its dates became `starting_at` and `ending_at` at the time `now`.
pub open spec fn status_after_dates(status: ProjectStatus, starting_at: i64, ending_at: i64, now: i64) -> ProjectStatus {
    if status == ProjectStatus::Announced && now >= starting_at {
        if now >= ending_at {
            ProjectStatus::Ended
        } else {
            ProjectStatus::Ongoing
        }
    } else if status == ProjectStatus::Ongoing && now >= ending_at {
        ProjectStatus::Ended
    } else {
        status
    }
}

/// The project after a request at the time `now` to set its dates, or the error: a project
/// out of planning keeps the start it has reached and the end it has reached, the end may not
/// lie before the start, and the status follows the new dates.
pub open spec fn project_edit_dates_spec(p: ProjectV1, starting_at: i64, ending_at: i64, now: i64) -> Result<ProjectV1, ManagerError> {
    if p.status != ProjectStatus::Planning && p.starting_at != starting_at && now >= p.starting_at {
        Err(ManagerError::StartDateLocked)
    } else if p.status != ProjectStatus::Planning && p.ending_at != ending_at && now >= p.ending_at {
        Err(ManagerError::EndDateLocked)
    } else if ending_at < starting_at {
        Err(ManagerError::EndBeforeStart)
    } else {
        Ok(ProjectV1 { starting_at, ending_at, status: status_after_dates(p.status, starting_at, ending_at, now), ..p })
    }
}

/// Decides a request at the time `now` to set the dates of the project.
pub fn project_edit_dates(
    user: Result<u128, ManagerError>,
    project: Option<ProjectV1>,
    starting_at: i64,
    ending_at: i64,
    now: i64,
) -> (r: Result<ProjectV1, ManagerError>)
    ensures
        r == (if user is Err {
            Err(user->Err_0)
        } else {
            match project {
                None => Err(ManagerError::ProjectNotFound),
                Some(p) => project_edit_dates_spec(p, starting_at, ending_at, now),
            }
        }),
{
    if let Err(e) = user {
        return Err(e);
    }
    let mut p = match project {
        Some(p) => p,
        None => return Err(ManagerError::ProjectNotFound),
    };
    if p.status != ProjectStatus::Planning {
        if p.starting_at != starting_at && now >= p.starting_at {
            return Err(ManagerError::StartDateLocked);
        }
        if p.ending_at != ending_at && now >= p.ending_at {
            return Err(ManagerError::EndDateLocked);
        }
    }
    if ending_at < starting_at {
        return Err(ManagerError::EndBeforeStart);
    }
    p.starting_at = starting_at;
    p.ending_at = ending_at;
    if p.status == ProjectStatus::Announced && now >= starting_at {
        p.status = ProjectStatus::Ongoing;
        if now >= ending_at {
            p.status = ProjectStatus::Ended;
        }
    } else if p.status == ProjectStatus::Ongoing && now >= ending_at {
        p.status = ProjectStatus::Ended;
    }
    Ok(p)
}

/// The status that a project leaving planning at the time `now` takes.
pub open spec fn status_at(starting_at: i64, ending_at: i64, now: i64) -> ProjectStatus {
    if now < starting_at {
        ProjectStatus::Announced
    } else if now < ending_at {
        ProjectStatus::Ongoing
    } else {
        ProjectStatus::Ended
    }
}

/// Decides a request at the time `now` to take the project out of planning: it becomes
/// announced before its start, ongoing until its end, and ended after.
pub fn project_update_status(user: Result<u128, ManagerError>, project: Option<ProjectV1>, now: i64) -> (r: Result<ProjectV1, ManagerError>)
    ensures
        r == (if user is Err {
            Err(user->Err_0)
        } else {
            match project {
                None => Err(ManagerError::ProjectNotFound),
                Some(p) => if p.status != ProjectStatus::Planning {
                    Err(ManagerError::WrongState)
                } else {
                    Ok(ProjectV1 { status: status_at(p.starting_at, p.ending_at, now), ..p })
                },
            }
        }),
{
    if let Err(e) = user {
        return Err(e);
    }
    let mut p = match project {
        Some(p) => p,
        None => return Err(ManagerError::ProjectNotFound),
    };
    if p.status != ProjectStatus::Planning {
        return Err(ManagerError::WrongState);
    }
    if now < p.starting_at {
        p.status = ProjectStatus::Announced;
    } else if now >= p.starting_at && now < p.ending_at {
        p.status = ProjectStatus::Ongoing;
    } else {
        p.status = ProjectStatus::Ended;
    }
    Ok(p)
}

/// The rank of a status along a project's life.
pub open spec fn status_rank(s: ProjectStatus) -> int {
    match s {
        ProjectStatus::Planning => 0,
        ProjectStatus::Announced => 1,
        ProjectStatus::Ongoing => 2,
        ProjectStatus::Ended => 3,
    }
}

/// A project's status only moves forward when its dates change, and a project in planning
/// stays in planning.
pub proof fn lemma_edit_dates_status_forward(p: ProjectV1, starting_at: i64, ending_at: i64, now: i64)
    requires
        project_edit_dates_spec(p, starting_at, ending_at, now) is Ok,
    ensures
        status_rank(project_edit_dates_spec(p, starting_at, ending_at, now)->Ok_0.status) >= status_rank(p.status),
        p.status == ProjectStatus::Planning ==> project_edit_dates_spec(p, starting_at, ending_at, now)->Ok_0.status == ProjectStatus::Planning,
{
}

/// After a change of dates the end never lies before the start.
pub proof fn lemma_edit_dates_ordered(p: ProjectV1, starting_at: i64, ending_at: i64, now: i64)
    requires
        project_edit_dates_spec(p, starting_at, ending_at, now) is Ok,
    ensures
        project_edit_dates_spec(p, starting_at, ending_at, now)->Ok_0.starting_at <= project_edit_dates_spec(p, starting_at, ending_at, now)->Ok_0.ending_at,
{
}

/// A project whose dates are ordered and that is public has the status that the time gives it
/// once its dates are set at that time: announced before the start, ongoing until the end,
/// ended after.
pub proof fn lemma_edit_dates_status_matches_time(p: ProjectV1, starting_at: i64, ending_at: i64, now: i64)
    requires
        project_edit_dates_spec(p, starting_at, ending_at, now) is Ok,
        p.status == status_at(p.starting_at, p.ending_at, now),
    ensures
        project_edit_dates_spec(p, starting_at, ending_at, now)->Ok_0.status == status_at(starting_at, ending_at, now),
{
}

/// A project as its creator sees it: with the creator's name.
#[derive(Debug)]
pub struct MyProjectV1 {
    pub id: u32,
    pub creator_account_id: u128,
    pub creator_name: String,
    pub name: String,
    pub starting_at: i64,
    pub ending_at: i64,
    pub description: String,
    pub status: ProjectStatus,
}

/// The projects that the user created.
pub open spec fn created_by(account_id: u128) -> spec_fn(ProjectV1) -> bool {
    |p: ProjectV1| p.creator_account_id == account_id
}

/// A project of the user as the user sees it.
pub open spec fn my_view_of(p: ProjectV1, user: UserV1) -> MyProjectV1 {
    MyProjectV1 {
        id: p.id,
        creator_account_id: p.creator_account_id,
        creator_name: user.name,
        name: p.name,
        starting_at: p.starting_at,
        ending_at: p.ending_at,
        description: p.description,
        status: p.status,
    }
}

/// The projects that the calling user created, in store order; empty where the caller is no
/// user (`user` is the caller's user row).
pub fn my_project(user: Option<&UserV1>, projects: &Vec<ProjectV1>) -> (r: Vec<MyProjectV1>)
    ensures
        user is None ==> r@.len() == 0,
        user is Some ==> r@ == projects@.filter(created_by(user->0.account_id)).map_values(
            |p: ProjectV1| my_view_of(p, *user->0),
        ),
{
    let user = match user {
        Some(u) => u,
        None => {
            return Vec::new();
        },
    };
    let ghost pred = created_by(user.account_id);
    let mut out: Vec<MyProjectV1> = Vec::new();
    proof {
        reveal(Seq::filter);
    }
    let mut i: usize = 0;
    while i < projects.len()
        invariant
            i <= projects.len(),
            pred == created_by(user.account_id),
            out@ == projects@.subrange(0, i as int).filter(pred).map_values(
                |p: ProjectV1| my_view_of(p, *user),
            ),
        decreases projects.len() - i,
    {
        let p = &projects[i];
        proof {
            assert(projects@.subrange(0, i + 1) =~= projects@.subrange(0, i as int).push(
                projects@[i as int],
            ));
            projects@.subrange(0, i as int).lemma_filter_push(projects@[i as int], pred);
        }
        if p.creator_account_id == user.account_id {
            out.push(
                MyProjectV1 {
                    id: p.id,
                    creator_account_id: p.creator_account_id,
                    creator_name: user.name.clone(),
                    name: p.name.clone(),
                    starting_at: p.starting_at,
                    ending_at: p.ending_at,
                    description: p.description.clone(),
                    status: p.status,
                },
            );
            assert(out@ =~= projects@.subrange(0, i + 1).filter(pred).map_values(
                |p: ProjectV1| my_view_of(p, *user),
            ));
        }
        i = i + 1;
    }
    assert(projects@.subrange(0, projects@.len() as int) =~= projects@);
    out
}

} // verus!
