//! The scheduler boundary: the persistent cron-triggered jobs, the session
//! records they produce, and the trait a scheduler backend implements. The
//! agent only consumes this surface; nothing is promised of a backend, so
//! every caller states what holds whatever a call returns.

use vstd::prelude::*;

verus! {

/// One scheduled job, as the scheduler reports it. Timestamps cross this
/// boundary as plain RFC 3339 text.
#[derive(Debug)]
pub struct ScheduledJob {
    pub id: String,
    pub source: String,
    pub cron: String,
    pub last_run: Option<String>,
    pub currently_running: bool,
    pub paused: bool,
    pub current_session_id: Option<String>,
    pub process_start_time: Option<String>,
}

/// Copies an optional string.
pub fn clone_opt_string(o: &Option<String>) -> (r: Option<String>)
    ensures
        r == *o,
{
    match o {
        Some(s) => Some(s.clone()),
        None => None,
    }
}

impl Clone for ScheduledJob {
    fn clone(&self) -> (r: Self)
        ensures
            r == *self,
    {
        ScheduledJob {
            id: self.id.clone(),
            source: self.source.clone(),
            cron: self.cron.clone(),
            last_run: clone_opt_string(&self.last_run),
            currently_running: self.currently_running,
            paused: self.paused,
            current_session_id: clone_opt_string(&self.current_session_id),
            process_start_time: clone_opt_string(&self.process_start_time),
        }
    }
}

/// What is known of one recorded session of a job.
#[derive(Debug)]
pub struct SessionMetadata {
    pub message_count: u64,
    pub working_dir: String,
}

impl Clone for SessionMetadata {
    fn clone(&self) -> (r: Self)
        ensures
            r == *self,
    {
        SessionMetadata { message_count: self.message_count, working_dir: self.working_dir.clone() }
    }
}

/// One session entry the scheduler reports: its name and metadata.
#[derive(Debug)]
pub struct SessionRecord {
    pub name: String,
    pub metadata: SessionMetadata,
}

impl Clone for SessionRecord {
    fn clone(&self) -> (r: Self)
        ensures
            r == *self,
    {
        SessionRecord { name: self.name.clone(), metadata: self.metadata.clone() }
    }
}

/// What the scheduler reports of a currently running job. The start time
/// crosses the boundary both as RFC 3339 text and as Unix seconds.
#[derive(Debug)]
pub struct RunningJobInfo {
    pub session_id: String,
    pub start_rfc3339: String,
    pub start_ts: i64,
}

impl Clone for RunningJobInfo {
    fn clone(&self) -> (r: Self)
        ensures
            r == *self,
    {
        RunningJobInfo {
            session_id: self.session_id.clone(),
            start_rfc3339: self.start_rfc3339.clone(),
            start_ts: self.start_ts,
        }
    }
}

/// A failure reported by the scheduler.
#[derive(Debug)]
pub enum SchedulerError {
    JobNotFound(String),
    JobIdExists(String),
    Other(String),
}

impl Clone for SchedulerError {
    fn clone(&self) -> (r: Self)
        ensures
            r == *self,
    {
        match self {
            SchedulerError::JobNotFound(s) => SchedulerError::JobNotFound(s.clone()),
            SchedulerError::JobIdExists(s) => SchedulerError::JobIdExists(s.clone()),
            SchedulerError::Other(s) => SchedulerError::Other(s.clone()),
        }
    }
}

/// The text of a scheduler failure, as the schedule tool reports it.
pub open spec fn sched_err_text(e: SchedulerError) -> Seq<char> {
    match e {
        SchedulerError::JobNotFound(id) => "Job not found: "@ + id@,
        SchedulerError::JobIdExists(id) => "Job already exists: "@ + id@,
        SchedulerError::Other(m) => m@,
    }
}

impl SchedulerError {
    /// Writes this failure out.
    pub fn message(&self) -> (r: String)
        ensures
            r@ == sched_err_text(*self),
    {
        match self {
            SchedulerError::JobNotFound(id) => {
                let mut s = String::from_str("Job not found: ");
                s.append(id.as_str());
                s
            },
            SchedulerError::JobIdExists(id) => {
                let mut s = String::from_str("Job already exists: ");
                s.append(id.as_str());
                s
            },
            SchedulerError::Other(m) => m.clone(),
        }
    }
}

/// The control surface a scheduler backend offers. Implementations live
/// outside the library; no caller assumes more of them than their types.
pub trait SchedulerTrait {
    fn add_scheduled_job(&mut self, job: ScheduledJob) -> Result<(), SchedulerError>;

    fn list_scheduled_jobs(&self) -> Result<Vec<ScheduledJob>, SchedulerError>;

    fn remove_scheduled_job(&mut self, id: &str) -> Result<(), SchedulerError>;

    fn pause_schedule(&mut self, id: &str) -> Result<(), SchedulerError>;

    fn unpause_schedule(&mut self, id: &str) -> Result<(), SchedulerError>;

    fn run_now(&mut self, id: &str) -> Result<String, SchedulerError>;

    fn sessions(&self, id: &str, limit: usize) -> Result<Vec<SessionRecord>, SchedulerError>;

    fn update_schedule(&mut self, id: &str, new_cron: String) -> Result<(), SchedulerError>;

    fn kill_running_job(&mut self, id: &str) -> Result<(), SchedulerError>;

    fn get_running_job_info(&self, id: &str) -> Result<Option<RunningJobInfo>, SchedulerError>;
}

} // verus!
