use goose_agent::agent::{Agent, DispatchDecision};
use goose_agent::args::{ArgValue, ToolArgs};
use goose_agent::message::{Content, ToolCall, ToolError};
use goose_agent::router::{DispatchKind, PLATFORM_MANAGE_SCHEDULE_TOOL_NAME};
use goose_agent::schedule_tool::{ScheduleStep, handle_schedule_management};
use goose_agent::scheduler::{
    RunningJobInfo, ScheduledJob, SchedulerError, SchedulerTrait, SessionRecord,
};

struct MockScheduler {
    jobs: Vec<ScheduledJob>,
}

impl MockScheduler {
    fn new() -> Self {
        MockScheduler { jobs: Vec::new() }
    }
}

impl SchedulerTrait for MockScheduler {
    fn add_scheduled_job(&mut self, job: ScheduledJob) -> Result<(), SchedulerError> {
        self.jobs.push(job);
        Ok(())
    }

    fn list_scheduled_jobs(&self) -> Result<Vec<ScheduledJob>, SchedulerError> {
        Ok(self.jobs.iter().map(|j| j.clone()).collect())
    }

    fn remove_scheduled_job(&mut self, id: &str) -> Result<(), SchedulerError> {
        if let Some(pos) = self.jobs.iter().position(|job| job.id == id) {
            self.jobs.remove(pos);
            Ok(())
        } else {
            Err(SchedulerError::JobNotFound(id.to_string()))
        }
    }

    fn pause_schedule(&mut self, _id: &str) -> Result<(), SchedulerError> {
        Ok(())
    }

    fn unpause_schedule(&mut self, _id: &str) -> Result<(), SchedulerError> {
        Ok(())
    }

    fn run_now(&mut self, _id: &str) -> Result<String, SchedulerError> {
        Ok("test_session_123".to_string())
    }

    fn sessions(&self, _id: &str, _limit: usize) -> Result<Vec<SessionRecord>, SchedulerError> {
        Ok(vec![])
    }

    fn update_schedule(&mut self, _id: &str, _new_cron: String) -> Result<(), SchedulerError> {
        Ok(())
    }

    fn kill_running_job(&mut self, _id: &str) -> Result<(), SchedulerError> {
        Ok(())
    }

    fn get_running_job_info(
        &self,
        _id: &str,
    ) -> Result<Option<RunningJobInfo>, SchedulerError> {
        Ok(None)
    }
}

fn args_of(pairs: Vec<(&str, ArgValue)>) -> ToolArgs {
    let mut args = ToolArgs::new();
    for (k, v) in pairs {
        args.push(k.to_string(), v);
    }
    args
}

fn step_result(step: ScheduleStep) -> Result<Vec<Content>, ToolError> {
    match step {
        ScheduleStep::Done(res) => res,
        _ => panic!("expected a finished step"),
    }
}

fn first_text(content: &[Content]) -> &str {
    match &content[0] {
        Content::Text(t) => t.as_str(),
        _ => panic!("expected text"),
    }
}

#[test]
fn test_schedule_management_tool_list() {
    let mut scheduler = Some(MockScheduler::new());
    let arguments = args_of(vec![("action", ArgValue::Text("list".to_string()))]);

    let result = step_result(handle_schedule_management(&mut scheduler, &arguments, 0));
    assert!(result.is_ok());

    let content = result.unwrap();
    assert_eq!(content.len(), 1);
    assert!(first_text(&content).contains("Scheduled Jobs:"));
}

#[test]
fn test_schedule_management_tool_no_scheduler() {
    let mut scheduler: Option<MockScheduler> = None;
    let arguments = args_of(vec![("action", ArgValue::Text("list".to_string()))]);

    let result = step_result(handle_schedule_management(&mut scheduler, &arguments, 0));
    assert!(result.is_err());

    if let Err(ToolError::ExecutionError(msg)) = result {
        assert!(msg.contains("Scheduler not available"));
    }
}

#[test]
fn test_schedule_management_tool_run_now() {
    let mut scheduler = Some(MockScheduler::new());
    let arguments = args_of(vec![
        ("action", ArgValue::Text("run_now".to_string())),
        ("job_id", ArgValue::Text("test_job".to_string())),
    ]);

    let result = step_result(handle_schedule_management(&mut scheduler, &arguments, 0));
    assert!(result.is_ok());

    let content = result.unwrap();
    assert_eq!(content.len(), 1);
    let t = first_text(&content);
    assert!(t.contains("Successfully started job 'test_job'"));
    assert!(t.contains("test_session_123"));
}

#[test]
fn test_schedule_management_tool_dispatch() {
    let mut agent = Agent::new();
    let mut scheduler = Some(MockScheduler::new());

    let call = ToolCall {
        name: PLATFORM_MANAGE_SCHEDULE_TOOL_NAME.to_string(),
        arguments: args_of(vec![("action", ArgValue::Text("list".to_string()))]),
    };

    let arguments = call.arguments.clone();
    let decision = agent.dispatch_decision(call);
    match decision {
        DispatchDecision::Execute(kind) => assert_eq!(kind, DispatchKind::PlatformSchedule),
        _ => panic!("expected a dispatch"),
    }

    let result = step_result(handle_schedule_management(&mut scheduler, &arguments, 0));
    assert!(result.is_ok());

    let content = result.unwrap();
    assert_eq!(content.len(), 1);
    assert!(first_text(&content).contains("Scheduled Jobs:"));
}

#[test]
fn test_schedule_management_tool_in_list_tools() {
    let tools = goose_agent::platform::list_tools(Vec::new(), None, false);

    let schedule_tool = tools
        .iter()
        .find(|tool| tool.name == PLATFORM_MANAGE_SCHEDULE_TOOL_NAME);
    assert!(schedule_tool.is_some());

    let tool = schedule_tool.unwrap();
    assert!(tool.description.contains("Manage scheduled recipe execution"));
}

#[test]
fn test_s4_list_against_empty_scheduler_starts_with_heading() {
    let mut scheduler = Some(MockScheduler::new());
    let arguments = args_of(vec![("action", ArgValue::Text("list".to_string()))]);
    let content = step_result(handle_schedule_management(&mut scheduler, &arguments, 0)).unwrap();
    let t = first_text(&content);
    assert!(t.starts_with("Scheduled Jobs:"));
    assert_eq!(t, "Scheduled Jobs:\n[]");
}

#[test]
fn test_s5_run_now_reports_job_and_session() {
    struct SessScheduler;
    impl SchedulerTrait for SessScheduler {
        fn add_scheduled_job(&mut self, _job: ScheduledJob) -> Result<(), SchedulerError> {
            Ok(())
        }
        fn list_scheduled_jobs(&self) -> Result<Vec<ScheduledJob>, SchedulerError> {
            Ok(vec![])
        }
        fn remove_scheduled_job(&mut self, _id: &str) -> Result<(), SchedulerError> {
            Ok(())
        }
        fn pause_schedule(&mut self, _id: &str) -> Result<(), SchedulerError> {
            Ok(())
        }
        fn unpause_schedule(&mut self, _id: &str) -> Result<(), SchedulerError> {
            Ok(())
        }
        fn run_now(&mut self, _id: &str) -> Result<String, SchedulerError> {
            Ok("sess-42".to_string())
        }
        fn sessions(
            &self,
            _id: &str,
            _limit: usize,
        ) -> Result<Vec<SessionRecord>, SchedulerError> {
            Ok(vec![])
        }
        fn update_schedule(&mut self, _id: &str, _cron: String) -> Result<(), SchedulerError> {
            Ok(())
        }
        fn kill_running_job(&mut self, _id: &str) -> Result<(), SchedulerError> {
            Ok(())
        }
        fn get_running_job_info(
            &self,
            _id: &str,
        ) -> Result<Option<RunningJobInfo>, SchedulerError> {
            Ok(None)
        }
    }

    let mut scheduler = Some(SessScheduler);
    let arguments = args_of(vec![
        ("action", ArgValue::Text("run_now".to_string())),
        ("job_id", ArgValue::Text("x".to_string())),
    ]);
    let content = step_result(handle_schedule_management(&mut scheduler, &arguments, 0)).unwrap();
    assert!(first_text(&content).contains("Successfully started job 'x'. Session ID: sess-42"));
}

#[test]
fn test_missing_and_unknown_parameters() {
    let mut scheduler = Some(MockScheduler::new());

    let no_action = args_of(vec![]);
    let res = step_result(handle_schedule_management(&mut scheduler, &no_action, 0));
    match res {
        Err(ToolError::ExecutionError(m)) => assert_eq!(m, "Missing 'action' parameter"),
        _ => panic!("expected an error"),
    }

    let no_job = args_of(vec![("action", ArgValue::Text("pause".to_string()))]);
    let res = step_result(handle_schedule_management(&mut scheduler, &no_job, 0));
    match res {
        Err(ToolError::ExecutionError(m)) => assert_eq!(m, "Missing 'job_id' parameter"),
        _ => panic!("expected an error"),
    }

    let unknown = args_of(vec![("action", ArgValue::Text("explode".to_string()))]);
    let res = step_result(handle_schedule_management(&mut scheduler, &unknown, 0));
    match res {
        Err(ToolError::ExecutionError(m)) => assert_eq!(m, "Unknown action: explode"),
        _ => panic!("expected an error"),
    }
}

#[test]
fn test_create_needs_recipe_check_then_succeeds() {
    let mut scheduler = Some(MockScheduler::new());
    let arguments = args_of(vec![
        ("action", ArgValue::Text("create".to_string())),
        ("recipe_path", ArgValue::Text("/tmp/recipe.yaml".to_string())),
        ("cron_expression", ArgValue::Text("0 5 * * * *".to_string())),
    ]);
    match handle_schedule_management(&mut scheduler, &arguments, 1700000000) {
        ScheduleStep::NeedRecipeCheck {
            recipe_path,
            cron_expression,
        } => {
            assert_eq!(recipe_path, "/tmp/recipe.yaml");
            assert_eq!(cron_expression, "0 5 * * * *");
        }
        _ => panic!("create must first check the recipe"),
    }
}
