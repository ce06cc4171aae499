//! The scheduled-job control surface: one tool, dispatching on an `action`
//! argument, against the attached scheduler backend. Every response text is
//! pinned down exactly as a function of the arguments and of the backend's
//! answer; the functions that make the backend calls state what holds
//! whatever came back.

use vstd::prelude::*;
use crate::json::jobs_json;
use crate::message::{Content, ToolError, ok_text_is, ok_text_has_prefix, err_text_is,
    err_text_has_prefix};
use crate::scheduler::{
    RunningJobInfo,
    ScheduledJob,
    SchedulerError,
    SchedulerTrait,
    SessionRecord,
    sched_err_text,
};
use crate::args::ToolArgs;
use crate::strutil::{dec_str, dec_int_str, has_prefix, has_suffix, str_ends_with, str_eq};

verus! {

/// The answer when no scheduler is attached.
pub open spec fn no_scheduler_text() -> Seq<char> {
    "Scheduler not available. This tool only works in server mode."@
}

/// The answer when a required argument is absent.
pub open spec fn missing_param_text(name: Seq<char>) -> Seq<char> {
    "Missing '"@ + name + "' parameter"@
}

/// The answer to an action this tool does not know.
pub open spec fn unknown_action_text(action: Seq<char>) -> Seq<char> {
    "Unknown action: "@ + action
}

/// The listing of all jobs.
pub open spec fn list_ok_text(jobs: Seq<ScheduledJob>) -> Seq<char> {
    "Scheduled Jobs:\n"@ + jobs_json(jobs)
}

/// The id given to a job created at `ts`.
pub open spec fn created_job_id(ts: int) -> Seq<char> {
    "agent_created_"@ + dec_int_str(ts)
}

/// The answer to a successful creation.
pub open spec fn create_ok_text(id: Seq<char>, path: Seq<char>, cron: Seq<char>) -> Seq<char> {
    "Successfully created scheduled job '"@ + id + "' for recipe '"@ + path
        + "' with cron expression '"@ + cron + "'"@
}

/// The answer to a successful immediate run.
pub open spec fn run_now_ok_text(id: Seq<char>, session_id: Seq<char>) -> Seq<char> {
    "Successfully started job '"@ + id + "'. Session ID: "@ + session_id
}

/// The answer to a successful pause.
pub open spec fn pause_ok_text(id: Seq<char>) -> Seq<char> {
    "Successfully paused job '"@ + id + "'"@
}

/// The answer to a successful unpause.
pub open spec fn unpause_ok_text(id: Seq<char>) -> Seq<char> {
    "Successfully unpaused job '"@ + id + "'"@
}

/// The answer to a successful deletion.
pub open spec fn delete_ok_text(id: Seq<char>) -> Seq<char> {
    "Successfully deleted job '"@ + id + "'"@
}

/// The answer to a successful kill.
pub open spec fn kill_ok_text(id: Seq<char>) -> Seq<char> {
    "Successfully killed running job '"@ + id + "'"@
}

/// Elapsed whole seconds between two timestamps, clamped to the signed
/// 64-bit range.
pub open spec fn elapsed_secs(now: int, start: int) -> int {
    if now - start > i64::MAX as int {
        i64::MAX as int
    } else if now - start < i64::MIN as int {
        i64::MIN as int
    } else {
        now - start
    }
}

/// The report on a running job.
pub open spec fn inspect_running_text(
    id: Seq<char>,
    session_id: Seq<char>,
    started: Seq<char>,
    duration: int,
) -> Seq<char> {
    "Job '"@ + id + "' is currently running:\n- Session ID: "@ + session_id + "\n- Started: "@
        + started + "\n- Duration: "@ + dec_int_str(duration) + " seconds"@
}

/// The report on a job that is not running.
pub open spec fn inspect_idle_text(id: Seq<char>) -> Seq<char> {
    "Job '"@ + id + "' is not currently running"@
}

/// One line of the session listing.
pub open spec fn session_line(rec: SessionRecord) -> Seq<char> {
    "- Session: "@ + rec.name@ + " (Messages: "@ + dec_str(rec.metadata.message_count as nat)
        + ", Working Dir: "@ + rec.metadata.working_dir@ + ")"@
}

/// The session lines joined by newlines.
pub open spec fn session_lines(recs: Seq<SessionRecord>) -> Seq<char>
    decreases recs.len(),
{
    if recs.len() == 0 {
        Seq::empty()
    } else if recs.len() == 1 {
        session_line(recs[0])
    } else {
        session_line(recs[0]) + "\n"@ + session_lines(recs.drop_first())
    }
}

/// The answer when a job has recorded sessions.
pub open spec fn sessions_ok_text(id: Seq<char>, recs: Seq<SessionRecord>) -> Seq<char> {
    "Sessions for job '"@ + id + "':\n"@ + session_lines(recs)
}

/// The answer when a job has no recorded sessions.
pub open spec fn sessions_empty_text(id: Seq<char>) -> Seq<char> {
    "No sessions found for job '"@ + id + "'"@
}

/// A prefix stands at the front of what it is concatenated with.
pub proof fn lemma_prefix_concat(p: Seq<char>, rest: Seq<char>)
    ensures
        has_prefix(p + rest, p),
{
    assert((p + rest).subrange(0, p.len() as int) =~= p);
}

/// A successful tool answer holding one text part.
fn ok_text(s: String) -> (r: Result<Vec<Content>, ToolError>)
    ensures
        ok_text_is(r, s@),
{
    Ok(vec![Content::Text(s)])
}

/// A failed tool answer.
fn err_text(s: String) -> (r: Result<Vec<Content>, ToolError>)
    ensures
        err_text_is(r, s@),
{
    Err(ToolError::ExecutionError(s))
}

/// `prefix` followed by the backend failure's text.
fn failed_text(prefix: &str, e: &SchedulerError) -> (r: String)
    ensures
        r@ == prefix@ + sched_err_text(*e),
{
    let mut s = String::from_str(prefix);
    let m = e.message();
    s.append(m.as_str());
    s
}

/// `prefix` + `mid` + `suffix`.
fn cat3(prefix: &str, mid: &str, suffix: &str) -> (r: String)
    ensures
        r@ == prefix@ + mid@ + suffix@,
{
    let mut s = String::from_str(prefix);
    s.append(mid);
    s.append(suffix);
    proof {
        assert(s@ =~= prefix@ + mid@ + suffix@);
    }
    s
}

/// Writes the missing-parameter answer for `name`.
pub fn missing_param(name: &str) -> (r: Result<Vec<Content>, ToolError>)
    ensures
        err_text_is(r, missing_param_text(name@)),
{
    let s = cat3("Missing '", name, "' parameter");
    err_text(s)
}

/// Renders the outcome of listing the jobs.
pub fn render_list_jobs(outcome: Result<Vec<ScheduledJob>, SchedulerError>) -> (r: Result<
    Vec<Content>,
    ToolError,
>)
    ensures
        outcome matches Ok(jobs) ==> ok_text_is(r, list_ok_text(jobs@)),
        outcome matches Err(e) ==> err_text_is(r, "Failed to list jobs: "@ + sched_err_text(e)),
{
    match outcome {
        Ok(jobs) => {
            let json = crate::json::render_jobs_json(&jobs);
            let mut t = String::from_str("Scheduled Jobs:\n");
            t.append(json.as_str());
            ok_text(t)
        },
        Err(e) => err_text(failed_text("Failed to list jobs: ", &e)),
    }
}

/// Lists the jobs: whatever the backend answers, the reply is the rendered
/// listing or a failure beginning `Failed to list jobs: `.
pub fn handle_list_jobs<S: SchedulerTrait>(scheduler: &S) -> (r: Result<Vec<Content>, ToolError>)
    ensures
        r is Ok ==> ok_text_has_prefix(r, "Scheduled Jobs:\n"@),
        r is Err ==> err_text_has_prefix(r, "Failed to list jobs: "@),
{
    let outcome = scheduler.list_scheduled_jobs();
    proof {
        match &outcome {
            Ok(jobs) => lemma_prefix_concat("Scheduled Jobs:\n"@, jobs_json(jobs@)),
            Err(e) => lemma_prefix_concat("Failed to list jobs: "@, sched_err_text(*e)),
        }
    }
    render_list_jobs(outcome)
}

/// What the driver found when it checked the recipe file named by a
/// create action.
#[derive(Clone, Debug)]
pub enum RecipeCheck {
    Found,
    Missing,
    Unreadable(String),
    InvalidJson(String),
    InvalidYaml(String),
}

/// Whether the recipe at `path` is read as JSON (by its suffix) rather
/// than YAML.
pub fn recipe_format_is_json(path: &str) -> (r: bool)
    ensures
        r == has_suffix(path@, ".json"@),
{
    str_ends_with(path, ".json")
}

/// The job registered for a creation at `ts`: fresh, unpaused, not running.
pub fn build_created_job(recipe_path: &str, cron: &str, now_ts: i64) -> (r: ScheduledJob)
    ensures
        r.id@ == created_job_id(now_ts as int),
        r.source@ == recipe_path@,
        r.cron@ == cron@,
        r.last_run is None,
        !r.currently_running,
        !r.paused,
        r.current_session_id is None,
        r.process_start_time is None,
{
    let mut id = String::from_str("agent_created_");
    let ts = crate::strutil::i64_to_string(now_ts);
    id.append(ts.as_str());
    ScheduledJob {
        id,
        source: String::from_str(recipe_path),
        cron: String::from_str(cron),
        last_run: None,
        currently_running: false,
        paused: false,
        current_session_id: None,
        process_start_time: None,
    }
}

/// Creates a scheduled job once the recipe check has happened. A failed
/// check is answered with its exact message and the backend is not called;
/// a passed check registers the job and reports the new id, recipe and
/// cron expression.
pub fn handle_create_job<S: SchedulerTrait>(
    scheduler: &mut S,
    recipe_path: &str,
    cron: &str,
    check: RecipeCheck,
    now_ts: i64,
) -> (r: Result<Vec<Content>, ToolError>)
    ensures
        check matches RecipeCheck::Missing ==> err_text_is(
            r,
            "Recipe file not found: "@ + recipe_path@,
        ),
        check matches RecipeCheck::Unreadable(why) ==> err_text_is(
            r,
            "Cannot read recipe file: "@ + why@,
        ),
        check matches RecipeCheck::InvalidJson(why) ==> err_text_is(
            r,
            "Invalid JSON recipe: "@ + why@,
        ),
        check matches RecipeCheck::InvalidYaml(why) ==> err_text_is(
            r,
            "Invalid YAML recipe: "@ + why@,
        ),
        check matches RecipeCheck::Found ==> ({
            &&& (r is Ok ==> ok_text_is(
                r,
                create_ok_text(created_job_id(now_ts as int), recipe_path@, cron@),
            ))
            &&& (r is Err ==> err_text_has_prefix(r, "Failed to create job: "@))
        }),
{
    match check {
        RecipeCheck::Missing => {
            let mut s = String::from_str("Recipe file not found: ");
            s.append(recipe_path);
            err_text(s)
        },
        RecipeCheck::Unreadable(why) => {
            let mut s = String::from_str("Cannot read recipe file: ");
            s.append(why.as_str());
            err_text(s)
        },
        RecipeCheck::InvalidJson(why) => {
            let mut s = String::from_str("Invalid JSON recipe: ");
            s.append(why.as_str());
            err_text(s)
        },
        RecipeCheck::InvalidYaml(why) => {
            let mut s = String::from_str("Invalid YAML recipe: ");
            s.append(why.as_str());
            err_text(s)
        },
        RecipeCheck::Found => {
            let job = build_created_job(recipe_path, cron, now_ts);
            let id_copy = job.id.clone();
            match scheduler.add_scheduled_job(job) {
                Ok(()) => {
                    let mut t = String::from_str("Successfully created scheduled job '");
                    t.append(id_copy.as_str());
                    t.append("' for recipe '");
                    t.append(recipe_path);
                    t.append("' with cron expression '");
                    t.append(cron);
                    t.append("'");
                    proof {
                        assert(t@ =~= create_ok_text(
                            created_job_id(now_ts as int),
                            recipe_path@,
                            cron@,
                        ));
                    }
                    ok_text(t)
                },
                Err(e) => {
                    proof {
                        lemma_prefix_concat("Failed to create job: "@, sched_err_text(e));
                    }
                    err_text(failed_text("Failed to create job: ", &e))
                },
            }
        },
    }
}

/// Renders the outcome of an immediate run.
pub fn render_run_now(job_id: &str, outcome: Result<String, SchedulerError>) -> (r: Result<
    Vec<Content>,
    ToolError,
>)
    ensures
        outcome matches Ok(sid) ==> ok_text_is(r, run_now_ok_text(job_id@, sid@)),
        outcome matches Err(e) ==> err_text_is(r, "Failed to run job: "@ + sched_err_text(e)),
{
    match outcome {
        Ok(sid) => {
            let mut t = String::from_str("Successfully started job '");
            t.append(job_id);
            t.append("'. Session ID: ");
            t.append(sid.as_str());
            proof {
                assert(t@ =~= run_now_ok_text(job_id@, sid@));
            }
            ok_text(t)
        },
        Err(e) => err_text(failed_text("Failed to run job: ", &e)),
    }
}

/// Starts a job now; the reply carries the new session id, or a failure
/// beginning `Failed to run job: `.
pub fn handle_run_now<S: SchedulerTrait>(scheduler: &mut S, job_id: &str) -> (r: Result<
    Vec<Content>,
    ToolError,
>)
    ensures
        r is Ok ==> ok_text_has_prefix(
            r,
            "Successfully started job '"@ + job_id@ + "'. Session ID: "@,
        ),
        r is Err ==> err_text_has_prefix(r, "Failed to run job: "@),
{
    let outcome = scheduler.run_now(job_id);
    proof {
        match &outcome {
            Ok(sid) => {
                lemma_prefix_concat(
                    "Successfully started job '"@ + job_id@ + "'. Session ID: "@,
                    sid@,
                );
                assert(("Successfully started job '"@ + job_id@ + "'. Session ID: "@) + sid@
                    =~= run_now_ok_text(job_id@, sid@));
            },
            Err(e) => lemma_prefix_concat("Failed to run job: "@, sched_err_text(*e)),
        }
    }
    render_run_now(job_id, outcome)
}

/// Renders the outcome of a pause.
pub fn render_pause(job_id: &str, outcome: Result<(), SchedulerError>) -> (r: Result<
    Vec<Content>,
    ToolError,
>)
    ensures
        outcome is Ok ==> ok_text_is(r, pause_ok_text(job_id@)),
        outcome matches Err(e) ==> err_text_is(r, "Failed to pause job: "@ + sched_err_text(e)),
{
    match outcome {
        Ok(()) => ok_text(cat3("Successfully paused job '", job_id, "'")),
        Err(e) => err_text(failed_text("Failed to pause job: ", &e)),
    }
}

/// Pauses a job.
pub fn handle_pause_job<S: SchedulerTrait>(scheduler: &mut S, job_id: &str) -> (r: Result<
    Vec<Content>,
    ToolError,
>)
    ensures
        r is Ok ==> ok_text_is(r, pause_ok_text(job_id@)),
        r is Err ==> err_text_has_prefix(r, "Failed to pause job: "@),
{
    let outcome = scheduler.pause_schedule(job_id);
    proof {
        match &outcome {
            Ok(u) => {},
            Err(e) => lemma_prefix_concat("Failed to pause job: "@, sched_err_text(*e)),
        }
    }
    render_pause(job_id, outcome)
}

/// Renders the outcome of an unpause.
pub fn render_unpause(job_id: &str, outcome: Result<(), SchedulerError>) -> (r: Result<
    Vec<Content>,
    ToolError,
>)
    ensures
        outcome is Ok ==> ok_text_is(r, unpause_ok_text(job_id@)),
        outcome matches Err(e) ==> err_text_is(
            r,
            "Failed to unpause job: "@ + sched_err_text(e),
        ),
{
    match outcome {
        Ok(()) => ok_text(cat3("Successfully unpaused job '", job_id, "'")),
        Err(e) => err_text(failed_text("Failed to unpause job: ", &e)),
    }
}

/// Unpauses a job.
pub fn handle_unpause_job<S: SchedulerTrait>(scheduler: &mut S, job_id: &str) -> (r: Result<
    Vec<Content>,
    ToolError,
>)
    ensures
        r is Ok ==> ok_text_is(r, unpause_ok_text(job_id@)),
        r is Err ==> err_text_has_prefix(r, "Failed to unpause job: "@),
{
    let outcome = scheduler.unpause_schedule(job_id);
    proof {
        match &outcome {
            Ok(u) => {},
            Err(e) => lemma_prefix_concat("Failed to unpause job: "@, sched_err_text(*e)),
        }
    }
    render_unpause(job_id, outcome)
}

/// Renders the outcome of a deletion.
pub fn render_delete(job_id: &str, outcome: Result<(), SchedulerError>) -> (r: Result<
    Vec<Content>,
    ToolError,
>)
    ensures
        outcome is Ok ==> ok_text_is(r, delete_ok_text(job_id@)),
        outcome matches Err(e) ==> err_text_is(r, "Failed to delete job: "@ + sched_err_text(e)),
{
    match outcome {
        Ok(()) => ok_text(cat3("Successfully deleted job '", job_id, "'")),
        Err(e) => err_text(failed_text("Failed to delete job: ", &e)),
    }
}

/// Deletes a job.
pub fn handle_delete_job<S: SchedulerTrait>(scheduler: &mut S, job_id: &str) -> (r: Result<
    Vec<Content>,
    ToolError,
>)
    ensures
        r is Ok ==> ok_text_is(r, delete_ok_text(job_id@)),
        r is Err ==> err_text_has_prefix(r, "Failed to delete job: "@),
{
    let outcome = scheduler.remove_scheduled_job(job_id);
    proof {
        match &outcome {
            Ok(u) => {},
            Err(e) => lemma_prefix_concat("Failed to delete job: "@, sched_err_text(*e)),
        }
    }
    render_delete(job_id, outcome)
}

/// Renders the outcome of a kill.
pub fn render_kill(job_id: &str, outcome: Result<(), SchedulerError>) -> (r: Result<
    Vec<Content>,
    ToolError,
>)
    ensures
        outcome is Ok ==> ok_text_is(r, kill_ok_text(job_id@)),
        outcome matches Err(e) ==> err_text_is(r, "Failed to kill job: "@ + sched_err_text(e)),
{
    match outcome {
        Ok(()) => ok_text(cat3("Successfully killed running job '", job_id, "'")),
        Err(e) => err_text(failed_text("Failed to kill job: ", &e)),
    }
}

/// Kills a running job.
pub fn handle_kill_job<S: SchedulerTrait>(scheduler: &mut S, job_id: &str) -> (r: Result<
    Vec<Content>,
    ToolError,
>)
    ensures
        r is Ok ==> ok_text_is(r, kill_ok_text(job_id@)),
        r is Err ==> err_text_has_prefix(r, "Failed to kill job: "@),
{
    let outcome = scheduler.kill_running_job(job_id);
    proof {
        match &outcome {
            Ok(u) => {},
            Err(e) => lemma_prefix_concat("Failed to kill job: "@, sched_err_text(*e)),
        }
    }
    render_kill(job_id, outcome)
}

/// Renders the outcome of an inspection, against the time of the call.
pub fn render_inspect(
    job_id: &str,
    outcome: Result<Option<RunningJobInfo>, SchedulerError>,
    now_ts: i64,
) -> (r: Result<Vec<Content>, ToolError>)
    ensures
        outcome matches Ok(oi) ==> (match oi {
            Some(info) => ok_text_is(
                r,
                inspect_running_text(
                    job_id@,
                    info.session_id@,
                    info.start_rfc3339@,
                    elapsed_secs(now_ts as int, info.start_ts as int),
                ),
            ),
            None => ok_text_is(r, inspect_idle_text(job_id@)),
        }),
        outcome matches Err(e) ==> err_text_is(r, "Failed to inspect job: "@ + sched_err_text(e)),
{
    match outcome {
        Ok(Some(info)) => {
            let wide: i128 = (now_ts as i128) - (info.start_ts as i128);
            let dur: i64 = if wide > i64::MAX as i128 {
                i64::MAX
            } else if wide < i64::MIN as i128 {
                i64::MIN
            } else {
                wide as i64
            };
            let mut t = String::from_str("Job '");
            t.append(job_id);
            t.append("' is currently running:\n- Session ID: ");
            t.append(info.session_id.as_str());
            t.append("\n- Started: ");
            t.append(info.start_rfc3339.as_str());
            t.append("\n- Duration: ");
            let d = crate::strutil::i64_to_string(dur);
            t.append(d.as_str());
            t.append(" seconds");
            proof {
                assert(dur as int == elapsed_secs(now_ts as int, info.start_ts as int));
                assert(t@ =~= inspect_running_text(
                    job_id@,
                    info.session_id@,
                    info.start_rfc3339@,
                    elapsed_secs(now_ts as int, info.start_ts as int),
                ));
            }
            ok_text(t)
        },
        Ok(None) => ok_text(cat3("Job '", job_id, "' is not currently running")),
        Err(e) => err_text(failed_text("Failed to inspect job: ", &e)),
    }
}

/// Inspects a job: reports session, start time and elapsed seconds when it
/// runs, says so when it does not.
pub fn handle_inspect_job<S: SchedulerTrait>(scheduler: &S, job_id: &str, now_ts: i64) -> (r:
    Result<Vec<Content>, ToolError>)
    ensures
        r is Ok ==> (ok_text_has_prefix(
            r,
            "Job '"@ + job_id@ + "' is currently running:\n- Session ID: "@,
        ) || ok_text_is(r, inspect_idle_text(job_id@))),
        r is Err ==> err_text_has_prefix(r, "Failed to inspect job: "@),
{
    let outcome = scheduler.get_running_job_info(job_id);
    proof {
        match &outcome {
            Ok(oi) => match oi {
                Some(info) => {
                    let p = "Job '"@ + job_id@ + "' is currently running:\n- Session ID: "@;
                    let rest = info.session_id@ + "\n- Started: "@ + info.start_rfc3339@
                        + "\n- Duration: "@ + dec_int_str(
                        elapsed_secs(now_ts as int, info.start_ts as int),
                    ) + " seconds"@;
                    lemma_prefix_concat(p, rest);
                    assert(p + rest =~= inspect_running_text(
                        job_id@,
                        info.session_id@,
                        info.start_rfc3339@,
                        elapsed_secs(now_ts as int, info.start_ts as int),
                    ));
                },
                None => {},
            },
            Err(e) => lemma_prefix_concat("Failed to inspect job: "@, sched_err_text(*e)),
        }
    }
    render_inspect(job_id, outcome, now_ts)
}

proof fn lemma_session_lines_push(recs: Seq<SessionRecord>, rec: SessionRecord)
    ensures
        recs.len() == 0 ==> session_lines(recs.push(rec)) =~= session_line(rec),
        recs.len() > 0 ==> session_lines(recs.push(rec)) =~= session_lines(recs) + "\n"@
            + session_line(rec),
    decreases recs.len(),
{
    if recs.len() == 0 {
        assert(recs.push(rec)[0] == rec);
    } else {
        lemma_session_lines_push(recs.drop_first(), rec);
        assert(recs.push(rec).drop_first() =~= recs.drop_first().push(rec));
        assert(recs.push(rec)[0] == recs[0]);
    }
}

/// Writes one line of the session listing.
fn write_session_line(out: &mut String, rec: &SessionRecord)
    ensures
        final(out)@ == old(out)@ + session_line(*rec),
{
    out.append("- Session: ");
    out.append(rec.name.as_str());
    out.append(" (Messages: ");
    let c = crate::strutil::u64_to_string(rec.metadata.message_count);
    out.append(c.as_str());
    out.append(", Working Dir: ");
    out.append(rec.metadata.working_dir.as_str());
    out.append(")");
    proof {
        assert(out@ =~= old(out)@ + session_line(*rec));
    }
}

/// Renders the outcome of a session listing.
pub fn render_sessions(job_id: &str, outcome: Result<Vec<SessionRecord>, SchedulerError>) -> (r:
    Result<Vec<Content>, ToolError>)
    ensures
        outcome matches Ok(recs) ==> (if recs@.len() == 0 {
            ok_text_is(r, sessions_empty_text(job_id@))
        } else {
            ok_text_is(r, sessions_ok_text(job_id@, recs@))
        }),
        outcome matches Err(e) ==> err_text_is(
            r,
            "Failed to list sessions: "@ + sched_err_text(e),
        ),
{
    match outcome {
        Ok(recs) => {
            let n = recs.len();
            if n == 0 {
                ok_text(cat3("No sessions found for job '", job_id, "'"))
            } else {
                let mut t = String::from_str("Sessions for job '");
                t.append(job_id);
                t.append("':\n");
                let ghost header = "Sessions for job '"@ + job_id@ + "':\n"@;
                proof {
                    assert(t@ =~= header);
                }
                let mut i: usize = 0;
                while i < n
                    invariant
                        n == recs@.len(),
                        n > 0,
                        i <= n,
                        t@ =~= header + session_lines(recs@.take(i as int)),
                    decreases n - i,
                {
                    if i > 0 {
                        t.append("\n");
                    }
                    write_session_line(&mut t, &recs[i]);
                    proof {
                        assert(recs@.take(i + 1) =~= recs@.take(i as int).push(recs@[i as int]));
                        lemma_session_lines_push(recs@.take(i as int), recs@[i as int]);
                        assert(t@ =~= header + session_lines(recs@.take(i + 1)));
                    }
                    i += 1;
                }
                proof {
                    assert(recs@.take(n as int) =~= recs@);
                    assert(t@ =~= sessions_ok_text(job_id@, recs@));
                }
                ok_text(t)
            }
        },
        Err(e) => err_text(failed_text("Failed to list sessions: ", &e)),
    }
}

/// Lists a job's sessions, at most `limit` of them.
pub fn handle_list_sessions<S: SchedulerTrait>(scheduler: &S, job_id: &str, limit: usize) -> (r:
    Result<Vec<Content>, ToolError>)
    ensures
        r is Ok ==> (ok_text_is(r, sessions_empty_text(job_id@)) || ok_text_has_prefix(
            r,
            "Sessions for job '"@ + job_id@ + "':\n"@,
        )),
        r is Err ==> err_text_has_prefix(r, "Failed to list sessions: "@),
{
    let outcome = scheduler.sessions(job_id, limit);
    proof {
        match &outcome {
            Ok(recs) => {
                if recs@.len() > 0 {
                    let p = "Sessions for job '"@ + job_id@ + "':\n"@;
                    lemma_prefix_concat(p, session_lines(recs@));
                    assert(p + session_lines(recs@) =~= sessions_ok_text(job_id@, recs@));
                }
            },
            Err(e) => lemma_prefix_concat("Failed to list sessions: "@, sched_err_text(*e)),
        }
    }
    render_sessions(job_id, outcome)
}

/// The two steps of the schedule tool: most actions finish at once; a
/// creation first needs the recipe file checked outside.
#[derive(Debug)]
pub enum ScheduleStep {
    Done(Result<Vec<Content>, ToolError>),
    NeedRecipeCheck { recipe_path: String, cron_expression: String },
}

/// Whether `r` finished with exactly this error text.
pub open spec fn step_done_err(r: ScheduleStep, t: Seq<char>) -> bool {
    match r {
        ScheduleStep::Done(res) => err_text_is(res, t),
        _ => false,
    }
}

/// A finished action whose success text is pinned exactly and whose
/// failure text begins with the action's failure prefix.
pub open spec fn done_exact_or_fail(r: ScheduleStep, ok_t: Seq<char>, fail_p: Seq<char>) -> bool {
    match r {
        ScheduleStep::Done(res) => (res is Ok ==> ok_text_is(res, ok_t)) && (res is Err
            ==> err_text_has_prefix(res, fail_p)),
        _ => false,
    }
}

/// A finished action whose success text begins with a pinned prefix.
pub open spec fn done_prefix_or_fail(r: ScheduleStep, ok_p: Seq<char>, fail_p: Seq<char>) -> bool {
    match r {
        ScheduleStep::Done(res) => (res is Ok ==> ok_text_has_prefix(res, ok_p)) && (res is Err
            ==> err_text_has_prefix(res, fail_p)),
        _ => false,
    }
}

/// What the schedule tool's first step returns, for every argument object
/// and backend answer: the no-scheduler sentinel without a backend; the
/// missing-parameter error for an absent required argument; the action's
/// response shape otherwise; the unknown-action error for anything else.
pub open spec fn schedule_step_post(
    had_scheduler: bool,
    args: ToolArgs,
    now_ts: int,
    r: ScheduleStep,
) -> bool {
    if !had_scheduler {
        step_done_err(r, no_scheduler_text())
    } else {
        match crate::args::str_arg(args, "action"@) {
            None => step_done_err(r, missing_param_text("action"@)),
            Some(a) => if a == "list"@ {
                done_prefix_or_fail(r, "Scheduled Jobs:\n"@, "Failed to list jobs: "@)
            } else if a == "create"@ {
                match crate::args::str_arg(args, "recipe_path"@) {
                    None => step_done_err(r, missing_param_text("recipe_path"@)),
                    Some(p) => match crate::args::str_arg(args, "cron_expression"@) {
                        None => step_done_err(r, missing_param_text("cron_expression"@)),
                        Some(cr) => match r {
                            ScheduleStep::NeedRecipeCheck { recipe_path, cron_expression } => recipe_path@
                                == p && cron_expression@ == cr,
                            _ => false,
                        },
                    },
                }
            } else {
                match crate::args::str_arg(args, "job_id"@) {
                    None => if a == "run_now"@ || a == "pause"@ || a == "unpause"@ || a
                        == "delete"@ || a == "kill"@ || a == "inspect"@ || a == "sessions"@ {
                        step_done_err(r, missing_param_text("job_id"@))
                    } else {
                        step_done_err(r, unknown_action_text(a))
                    },
                    Some(id) => if a == "run_now"@ {
                        done_prefix_or_fail(
                            r,
                            "Successfully started job '"@ + id + "'. Session ID: "@,
                            "Failed to run job: "@,
                        )
                    } else if a == "pause"@ {
                        done_exact_or_fail(r, pause_ok_text(id), "Failed to pause job: "@)
                    } else if a == "unpause"@ {
                        done_exact_or_fail(r, unpause_ok_text(id), "Failed to unpause job: "@)
                    } else if a == "delete"@ {
                        done_exact_or_fail(r, delete_ok_text(id), "Failed to delete job: "@)
                    } else if a == "kill"@ {
                        done_exact_or_fail(r, kill_ok_text(id), "Failed to kill job: "@)
                    } else if a == "inspect"@ {
                        match r {
                            ScheduleStep::Done(res) => (res is Ok ==> (ok_text_has_prefix(
                                res,
                                "Job '"@ + id + "' is currently running:\n- Session ID: "@,
                            ) || ok_text_is(res, inspect_idle_text(id)))) && (res is Err
                                ==> err_text_has_prefix(res, "Failed to inspect job: "@)),
                            _ => false,
                        }
                    } else if a == "sessions"@ {
                        match r {
                            ScheduleStep::Done(res) => (res is Ok ==> (ok_text_is(
                                res,
                                sessions_empty_text(id),
                            ) || ok_text_has_prefix(res, "Sessions for job '"@ + id + "':\n"@)))
                                && (res is Err ==> err_text_has_prefix(
                                res,
                                "Failed to list sessions: "@,
                            )),
                            _ => false,
                        }
                    } else {
                        step_done_err(r, unknown_action_text(a))
                    },
                }
            },
        }
    }
}

/// Runs the schedule tool's first step against the attached scheduler, at
/// the time `now_ts`: dispatches on the `action` argument, validates the
/// required arguments, and performs every action except the recipe check
/// that a creation needs first.
pub fn handle_schedule_management<S: SchedulerTrait>(
    scheduler: &mut Option<S>,
    arguments: &ToolArgs,
    now_ts: i64,
) -> (r: ScheduleStep)
    ensures
        schedule_step_post((*old(scheduler)) is Some, *arguments, now_ts as int, r),
{
    match scheduler {
        None => ScheduleStep::Done(
            err_text(
                String::from_str("Scheduler not available. This tool only works in server mode."),
            ),
        ),
        Some(s) => {
            let action = match arguments.get_str("action") {
                None => {
                    return ScheduleStep::Done(missing_param("action"));
                },
                Some(a) => a,
            };
            if str_eq(action.as_str(), "list") {
                ScheduleStep::Done(handle_list_jobs(s))
            } else if str_eq(action.as_str(), "create") {
                let path = match arguments.get_str("recipe_path") {
                    None => {
                        return ScheduleStep::Done(missing_param("recipe_path"));
                    },
                    Some(p) => p,
                };
                let cron = match arguments.get_str("cron_expression") {
                    None => {
                        return ScheduleStep::Done(missing_param("cron_expression"));
                    },
                    Some(c) => c,
                };
                ScheduleStep::NeedRecipeCheck {
                    recipe_path: path.clone(),
                    cron_expression: cron.clone(),
                }
            } else {
                let job_id = match arguments.get_str("job_id") {
                    None => {
                        if str_eq(action.as_str(), "run_now") || str_eq(action.as_str(), "pause")
                            || str_eq(action.as_str(), "unpause") || str_eq(
                            action.as_str(),
                            "delete",
                        ) || str_eq(action.as_str(), "kill") || str_eq(action.as_str(), "inspect")
                            || str_eq(action.as_str(), "sessions") {
                            return ScheduleStep::Done(missing_param("job_id"));
                        } else {
                            let mut t = String::from_str("Unknown action: ");
                            t.append(action.as_str());
                            return ScheduleStep::Done(err_text(t));
                        }
                    },
                    Some(id) => id,
                };
                if str_eq(action.as_str(), "run_now") {
                    ScheduleStep::Done(handle_run_now(s, job_id.as_str()))
                } else if str_eq(action.as_str(), "pause") {
                    ScheduleStep::Done(handle_pause_job(s, job_id.as_str()))
                } else if str_eq(action.as_str(), "unpause") {
                    ScheduleStep::Done(handle_unpause_job(s, job_id.as_str()))
                } else if str_eq(action.as_str(), "delete") {
                    ScheduleStep::Done(handle_delete_job(s, job_id.as_str()))
                } else if str_eq(action.as_str(), "kill") {
                    ScheduleStep::Done(handle_kill_job(s, job_id.as_str()))
                } else if str_eq(action.as_str(), "inspect") {
                    ScheduleStep::Done(handle_inspect_job(s, job_id.as_str(), now_ts))
                } else if str_eq(action.as_str(), "sessions") {
                    let limit_arg = match arguments.get_num("limit") {
                        Some(v) => v,
                        None => 50,
                    };
                    let limit: usize = if limit_arg > (usize::MAX as u64) {
                        usize::MAX
                    } else {
                        limit_arg as usize
                    };
                    ScheduleStep::Done(handle_list_sessions(s, job_id.as_str(), limit))
                } else {
                    let mut t = String::from_str("Unknown action: ");
                    t.append(action.as_str());
                    ScheduleStep::Done(err_text(t))
                }
            }
        },
    }
}

/// Runs the schedule tool's first step at the present moment: reads the
/// wall clock once and dispatches on it. The clock's value depends on the
/// environment, so the step's contract is stated for the instant that was
/// read, whichever it was.
pub fn run_schedule_tool<S: SchedulerTrait>(scheduler: &mut Option<S>, arguments: &ToolArgs) -> (r:
    ScheduleStep)
    ensures
        exists|now: int|
            #[trigger] schedule_step_post((*old(scheduler)) is Some, *arguments, now, r),
{
    let now_ts = crate::clock::now_unix_ts();
    let r = handle_schedule_management(scheduler, arguments, now_ts);
    proof {
        assert(schedule_step_post((*old(scheduler)) is Some, *arguments, now_ts as int, r));
    }
    r
}

} // verus!
