use goose_agent::args::{ArgValue, ToolArgs};
use goose_agent::message::{Content, ToolError};
use goose_agent::schedule_tool::{
    RecipeCheck, ScheduleStep, handle_create_job, handle_schedule_management,
};
use goose_agent::scheduler::{
    RunningJobInfo, ScheduledJob, SchedulerError, SchedulerTrait, SessionMetadata, SessionRecord,
};

struct MockScheduler {
    jobs: Vec<ScheduledJob>,
    pauses: Vec<(String, bool)>,
}

impl MockScheduler {
    fn new() -> Self {
        MockScheduler {
            jobs: Vec::new(),
            pauses: Vec::new(),
        }
    }
}

impl SchedulerTrait for MockScheduler {
    fn add_scheduled_job(&mut self, job: ScheduledJob) -> Result<(), SchedulerError> {
        if self.jobs.iter().any(|j| j.id == job.id) {
            return Err(SchedulerError::JobIdExists(job.id));
        }
        self.jobs.push(job);
        Ok(())
    }

    fn list_scheduled_jobs(&self) -> Result<Vec<ScheduledJob>, SchedulerError> {
        Ok(self.jobs.iter().map(|j| j.clone()).collect())
    }

    fn remove_scheduled_job(&mut self, id: &str) -> Result<(), SchedulerError> {
        if let Some(pos) = self.jobs.iter().position(|j| j.id == id) {
            self.jobs.remove(pos);
            Ok(())
        } else {
            Err(SchedulerError::JobNotFound(id.to_string()))
        }
    }

    fn pause_schedule(&mut self, id: &str) -> Result<(), SchedulerError> {
        self.pauses.push((id.to_string(), true));
        Ok(())
    }

    fn unpause_schedule(&mut self, id: &str) -> Result<(), SchedulerError> {
        self.pauses.push((id.to_string(), false));
        Ok(())
    }

    fn run_now(&mut self, id: &str) -> Result<String, SchedulerError> {
        Ok(format!("{}_session", id))
    }

    fn sessions(&self, sched_id: &str, _limit: usize) -> Result<Vec<SessionRecord>, SchedulerError> {
        Ok(vec![SessionRecord {
            name: format!("{}_session1", sched_id),
            metadata: SessionMetadata {
                message_count: 4,
                working_dir: "/tmp".to_string(),
            },
        }])
    }

    fn update_schedule(&mut self, _sched_id: &str, _new_cron: String) -> Result<(), SchedulerError> {
        Ok(())
    }

    fn kill_running_job(&mut self, _sched_id: &str) -> Result<(), SchedulerError> {
        Ok(())
    }

    fn get_running_job_info(
        &self,
        sched_id: &str,
    ) -> Result<Option<RunningJobInfo>, SchedulerError> {
        if sched_id == "running_job" {
            Ok(Some(RunningJobInfo {
                session_id: "running_session".to_string(),
                start_rfc3339: "2024-01-01T00:00:00+00:00".to_string(),
                start_ts: 1704067200,
            }))
        } else {
            Ok(None)
        }
    }
}

fn args_of(pairs: Vec<(&str, ArgValue)>) -> ToolArgs {
    let mut args = ToolArgs::new();
    for (k, v) in pairs {
        args.push(k.to_string(), v);
    }
    args
}

fn step_result(step: ScheduleStep) -> Result<Vec<Content>, ToolError> {
    match step {
        ScheduleStep::Done(res) => res,
        _ => panic!("expected a finished step"),
    }
}

fn first_text(content: &[Content]) -> String {
    match &content[0] {
        Content::Text(t) => t.clone(),
        _ => panic!("expected text"),
    }
}

/// Drives a create action end to end: the first step names the recipe to
/// check, the given check outcome finishes it.
fn run_create(
    holder: &mut Option<MockScheduler>,
    args: &ToolArgs,
    check: RecipeCheck,
    now_ts: i64,
) -> Result<Vec<Content>, ToolError> {
    let step = handle_schedule_management(holder, args, now_ts);
    match step {
        ScheduleStep::Done(res) => res,
        ScheduleStep::NeedRecipeCheck {
            recipe_path,
            cron_expression,
        } => handle_create_job(
            holder.as_mut().unwrap(),
            &recipe_path,
            &cron_expression,
            check,
            now_ts,
        ),
    }
}

#[test]
fn test_create_job_success() {
    let mut holder = Some(MockScheduler::new());
    let args = args_of(vec![
        ("action", ArgValue::Text("create".to_string())),
        ("recipe_path", ArgValue::Text("/tmp/recipe.yaml".to_string())),
        ("cron_expression", ArgValue::Text("0 5 * * * *".to_string())),
    ]);

    let res = run_create(&mut holder, &args, RecipeCheck::Found, 1700000001);
    assert!(res.is_ok(), "unexpected err: {res:?}");
    let text = first_text(&res.unwrap());
    assert!(text.contains("Successfully created scheduled job"));
    let scheduler = holder.as_ref().unwrap();
    assert_eq!(scheduler.jobs.len(), 1);
    assert_eq!(scheduler.jobs[0].id, "agent_created_1700000001");
    assert_eq!(scheduler.jobs[0].cron, "0 5 * * * *");
}

#[test]
fn test_create_job_invalid_recipe_path() {
    let mut holder = Some(MockScheduler::new());
    let args = args_of(vec![
        ("action", ArgValue::Text("create".to_string())),
        ("recipe_path", ArgValue::Text("/does/not/exist.yaml".to_string())),
        ("cron_expression", ArgValue::Text("0 5 * * * *".to_string())),
    ]);

    let res = run_create(&mut holder, &args, RecipeCheck::Missing, 0);
    assert!(matches!(res, Err(ToolError::ExecutionError(_))));
    if let Err(ToolError::ExecutionError(m)) = res {
        assert_eq!(m, "Recipe file not found: /does/not/exist.yaml");
    }
    assert_eq!(holder.as_ref().unwrap().jobs.len(), 0);
}

#[test]
fn test_pause_unpause_delete_cycle() {
    let mut holder = Some(MockScheduler::new());
    let create_args = args_of(vec![
        ("action", ArgValue::Text("create".to_string())),
        ("recipe_path", ArgValue::Text("/tmp/recipe.yaml".to_string())),
        ("cron_expression", ArgValue::Text("0 5 * * * *".to_string())),
    ]);
    let create_res = run_create(&mut holder, &create_args, RecipeCheck::Found, 42).unwrap();
    let id_text = first_text(&create_res);
    let id_start = id_text.find("agent_created").unwrap();
    let job_id = id_text[id_start..].split_whitespace().next().unwrap();
    let job_id = job_id.trim_end_matches('\'');

    let pause_res = step_result(handle_schedule_management(
        &mut holder,
        &args_of(vec![
            ("action", ArgValue::Text("pause".to_string())),
            ("job_id", ArgValue::Text(job_id.to_string())),
        ]),
        0,
    ));
    assert!(pause_res.is_ok());

    let unpause_res = step_result(handle_schedule_management(
        &mut holder,
        &args_of(vec![
            ("action", ArgValue::Text("unpause".to_string())),
            ("job_id", ArgValue::Text(job_id.to_string())),
        ]),
        0,
    ));
    assert!(unpause_res.is_ok());

    let delete_res = step_result(handle_schedule_management(
        &mut holder,
        &args_of(vec![
            ("action", ArgValue::Text("delete".to_string())),
            ("job_id", ArgValue::Text(job_id.to_string())),
        ]),
        0,
    ));
    assert!(delete_res.is_ok());
    assert_eq!(holder.as_ref().unwrap().jobs.len(), 0);
}

#[test]
fn test_kill_inspect_sessions_flow() {
    let mut holder = Some(MockScheduler::new());

    let kill_res = step_result(handle_schedule_management(
        &mut holder,
        &args_of(vec![
            ("action", ArgValue::Text("kill".to_string())),
            ("job_id", ArgValue::Text("any".to_string())),
        ]),
        0,
    ));
    assert!(kill_res.is_ok());

    let insp_res = step_result(handle_schedule_management(
        &mut holder,
        &args_of(vec![
            ("action", ArgValue::Text("inspect".to_string())),
            ("job_id", ArgValue::Text("none".to_string())),
        ]),
        0,
    ))
    .unwrap();
    assert!(first_text(&insp_res).contains("not currently running"));

    let insp_run_res = step_result(handle_schedule_management(
        &mut holder,
        &args_of(vec![
            ("action", ArgValue::Text("inspect".to_string())),
            ("job_id", ArgValue::Text("running_job".to_string())),
        ]),
        1704067260,
    ))
    .unwrap();
    let i_text = first_text(&insp_run_res);
    assert!(i_text.contains("is currently running"));
    assert!(i_text.contains("Duration: 60 seconds"));

    let sess_res = step_result(handle_schedule_management(
        &mut holder,
        &args_of(vec![
            ("action", ArgValue::Text("sessions".to_string())),
            ("job_id", ArgValue::Text("job1".to_string())),
            ("limit", ArgValue::Num(5)),
        ]),
        0,
    ))
    .unwrap();
    let s_text = first_text(&sess_res);
    assert!(s_text.contains("Sessions for job 'job1'"));
    assert!(s_text.contains("- Session: job1_session1 (Messages: 4, Working Dir: /tmp)"));
}
