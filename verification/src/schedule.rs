use vstd::prelude::*;

use crate::error::ManagerError;

verus! {

/// When a schedule fires; times are microseconds since the Unix epoch, durations microseconds.
#[derive(Debug, PartialEq, Eq, Clone, Copy, Structural)]
pub enum ScheduleSettings {
    Manual,
    Absolute(i64),
    Relative(i64),
}

impl ScheduleSettings {
    /// The time at which the schedule fires when it runs at `now`.
    pub fn eval(&self, now: i64) -> (r: i64)
        requires
            !(*self is Manual),
            *self matches ScheduleSettings::Relative(d) ==> i64::MIN <= now + d <= i64::MAX,
        ensures
            *self matches ScheduleSettings::Absolute(t) ==> r == t,
            *self matches ScheduleSettings::Relative(d) ==> r == now + d,
    {
        match self {
            ScheduleSettings::Absolute(timestamp) => *timestamp,
            ScheduleSettings::Relative(duration) => now + *duration,
            ScheduleSettings::Manual => now,
        }
    }
}

#[derive(Debug, PartialEq, Eq, Clone, Copy, Structural)]
pub enum ScheduleStatus {
    Configuring,
    Waiting,
    Finished,
    Locked,
}

impl ScheduleStatus {
    pub fn before_live(&self) -> (r: bool)
        ensures
            r == (*self == ScheduleStatus::Configuring || *self == ScheduleStatus::Waiting),
    {
        match self {
            ScheduleStatus::Configuring => true,
            ScheduleStatus::Waiting => true,
            _ => false,
        }
    }
}

/// A schedule: a node of the competition graph that finishes at a given time.
#[derive(Debug)]
pub struct ScheduleV1 {
    pub name: String,
    pub id: u32,
    pub parent_id: u32,
    pub settings: ScheduleSettings,
    pub status: ScheduleStatus,
    pub template: bool,
}

impl ScheduleV1 {
    pub fn parent_id(&self) -> (r: u32)
        ensures
            r == self.parent_id,
    {
        self.parent_id
    }

    pub fn is_template(&self) -> (r: bool)
        ensures
            r == self.template,
    {
        self.template
    }

    /// A copy under another competition; the store gives it a new id.
    pub fn instantiate(self, parent_id: u32, stay_template: bool) -> (r: Self)
        ensures
            r == (ScheduleV1 { template: stay_template, parent_id, id: 0, ..self }),
    {
        let mut s = self;
        s.template = stay_template;
        s.parent_id = parent_id;
        s.id = 0;
        s
    }

    /// The settings may change only before the schedule goes live.
    pub fn can_mutate_settings(&self) -> (r: Result<(), ManagerError>)
        ensures
            r is Ok <==> (self.status == ScheduleStatus::Configuring || self.status == ScheduleStatus::Waiting),
            r is Err ==> r == Err::<(), ManagerError>(ManagerError::WrongState),
    {
        if !self.status.before_live() {
            return Err(ManagerError::WrongState);
        }
        Ok(())
    }
}

/// The planned run of a schedule.
#[derive(Debug, PartialEq, Eq, Clone, Copy, Structural)]
pub struct ScheduleExecV1 {
    pub scheduled_id: u64,
    pub scheduled_at: i64,
}

/// Decides a request at the time `now` to create a schedule under the competition `parent_id`,
/// whose template flag is `parent_is_template`; `template` is the schedule that
/// `with_template` names (if it is not 0 and the store holds it). A new schedule fires at `now`.
pub fn schedule_create(
    name: String,
    parent_id: u32,
    with_template: u32,
    authorized: Result<u32, ManagerError>,
    parent_is_template: bool,
    template: Option<ScheduleV1>,
    now: i64,
) -> (r: Result<ScheduleV1, ManagerError>)
    ensures
        r == (if authorized is Err {
            Err(authorized->Err_0)
        } else if parent_is_template {
            Err(ManagerError::ParentIsTemplate)
        } else if with_template != 0 {
            match template {
                None => Err(ManagerError::TemplateNotFound),
                Some(t) => Ok(ScheduleV1 { template: false, parent_id, id: 0, ..t }),
            }
        } else {
            Ok(ScheduleV1 {
                id: 0,
                parent_id,
                template: false,
                settings: ScheduleSettings::Absolute(now),
                status: ScheduleStatus::Configuring,
                name,
            })
        }),
{
    if let Err(e) = authorized {
        return Err(e);
    }
    if parent_is_template {
        return Err(ManagerError::ParentIsTemplate);
    }
    if with_template != 0 {
        match template {
            None => Err(ManagerError::TemplateNotFound),
            Some(t) => Ok(t.instantiate(parent_id, false)),
        }
    } else {
        Ok(
            ScheduleV1 {
                id: 0,
                parent_id,
                template: false,
                settings: ScheduleSettings::Absolute(now),
                status: ScheduleStatus::Configuring,
                name,
            },
        )
    }
}

/// Decides a request to mark the schedule configured. It is refused unless the schedule is
/// configuring; an accepted request changes nothing in the store.
pub fn schedule_configured(schedule: Option<&ScheduleV1>, authorized: Result<u32, ManagerError>) -> (r: Result<(), ManagerError>)
    ensures
        r == (match schedule {
            None => Err(ManagerError::ScheduleNotFound),
            Some(s) => if authorized is Err {
                Err(authorized->Err_0)
            } else if s.status != ScheduleStatus::Configuring {
                Err(ManagerError::WrongState)
            } else {
                Ok(())
            },
        }),
{
    let s = match schedule {
        Some(s) => s,
        None => return Err(ManagerError::ScheduleNotFound),
    };
    if let Err(e) = authorized {
        return Err(e);
    }
    if s.status != ScheduleStatus::Configuring {
        return Err(ManagerError::WrongState);
    }
    Ok(())
}

/// Decides a request at the time `now` to run the schedule `id`: a waiting schedule is planned
/// to fire at the time its settings give.
pub fn schedule_try_run(id: u32, schedule: Option<ScheduleV1>, authorized: Result<u32, ManagerError>, now: i64) -> (r: Result<
    (ScheduleV1, ScheduleExecV1),
    ManagerError,
>)
    requires
        schedule is Some && schedule->0.status == ScheduleStatus::Waiting ==> !(schedule->0.settings is Manual),
        schedule is Some && schedule->0.status == ScheduleStatus::Waiting ==> (schedule->0.settings matches ScheduleSettings::Relative(d)
            ==> i64::MIN <= now + d <= i64::MAX),
    ensures
        schedule is None ==> r == Err::<(ScheduleV1, ScheduleExecV1), ManagerError>(ManagerError::ScheduleNotFound),
        schedule is Some && authorized is Err ==> r == Err::<(ScheduleV1, ScheduleExecV1), ManagerError>(authorized->Err_0),
        schedule is Some && authorized is Ok && schedule->0.status != ScheduleStatus::Waiting
            ==> r == Err::<(ScheduleV1, ScheduleExecV1), ManagerError>(ManagerError::WrongState),
        schedule is Some && authorized is Ok && schedule->0.status == ScheduleStatus::Waiting ==> (r matches Ok((s, e))
            && s == schedule->0 && e.scheduled_id == id as u64
            && (schedule->0.settings matches ScheduleSettings::Absolute(t) ==> e.scheduled_at == t)
            && (schedule->0.settings matches ScheduleSettings::Relative(d) ==> e.scheduled_at == now + d)),
{
    let s = match schedule {
        Some(s) => s,
        None => return Err(ManagerError::ScheduleNotFound),
    };
    if let Err(e) = authorized {
        return Err(e);
    }
    if s.status != ScheduleStatus::Waiting {
        return Err(ManagerError::WrongState);
    }
    let timestamp = s.settings.eval(now);
    Ok((s, ScheduleExecV1 { scheduled_id: id as u64, scheduled_at: timestamp }))
}

/// Decides whether a schedule run may be executed: only the database itself runs them. The
/// schedule's node then counts as finished.
pub fn on_schedule_exec(is_internal: bool) -> (r: Result<(), ManagerError>)
    ensures
        r is Ok <==> is_internal,
        r is Err ==> r == Err::<(), ManagerError>(ManagerError::Unauthorized),
{
    if !is_internal {
        return Err(ManagerError::Unauthorized);
    }
    Ok(())
}

} // verus!
