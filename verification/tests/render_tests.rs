use goose_agent::extensions::{
    ExtensionActionOutcome, IndexOutcome, render_manage_extensions,
};
use goose_agent::json::render_jobs_json;
use goose_agent::message::{Content, ToolError};
use goose_agent::oversize::process_tool_response;
use goose_agent::recipe::recipe_fields_from_text;
use goose_agent::scheduler::ScheduledJob;
use goose_agent::strutil::{i64_to_string, str_ends_with, str_eq, u64_to_string};

#[test]
fn test_decimal_rendering() {
    assert_eq!(u64_to_string(0), "0");
    assert_eq!(u64_to_string(7), "7");
    assert_eq!(u64_to_string(1700000001), "1700000001");
    assert_eq!(u64_to_string(u64::MAX), "18446744073709551615");
    assert_eq!(i64_to_string(-42), "-42");
    assert_eq!(i64_to_string(i64::MIN), "-9223372036854775808");
}

#[test]
fn test_string_utilities() {
    assert!(str_eq("abc", "abc"));
    assert!(!str_eq("abc", "abd"));
    assert!(str_ends_with("recipe.json", ".json"));
    assert!(!str_ends_with("recipe.yaml", ".json"));
    assert!(goose_agent::schedule_tool::recipe_format_is_json("a.json"));
    assert!(!goose_agent::schedule_tool::recipe_format_is_json("a.yaml"));
}

#[test]
fn test_jobs_json_empty_and_one_job() {
    assert_eq!(render_jobs_json(&Vec::new()), "[]");

    let job = ScheduledJob {
        id: "agent_created_42".to_string(),
        source: "/tmp/r.yaml".to_string(),
        cron: "0 5 * * * *".to_string(),
        last_run: None,
        currently_running: false,
        paused: false,
        current_session_id: Some("s\"1".to_string()),
        process_start_time: None,
    };
    let expected = "[\n  {\n    \"id\": \"agent_created_42\",\n    \"source\": \"/tmp/r.yaml\",\n    \"cron\": \"0 5 * * * *\",\n    \"last_run\": null,\n    \"currently_running\": false,\n    \"paused\": false,\n    \"current_session_id\": \"s\\\"1\",\n    \"process_start_time\": null\n  }\n]";
    assert_eq!(render_jobs_json(&vec![job]), expected);
}

#[test]
fn test_json_escaping_of_control_characters() {
    let job = ScheduledJob {
        id: "a\nb\tc\\d\u{1}".to_string(),
        source: "s".to_string(),
        cron: "c".to_string(),
        last_run: None,
        currently_running: true,
        paused: true,
        current_session_id: None,
        process_start_time: Some("2024-01-01T00:00:00+00:00".to_string()),
    };
    let out = render_jobs_json(&vec![job]);
    assert!(out.contains("\"a\\nb\\tc\\\\d\\u0001\""));
    assert!(out.contains("\"currently_running\": true"));
    assert!(out.contains("\"process_start_time\": \"2024-01-01T00:00:00+00:00\""));
}

#[test]
fn test_recipe_fields_from_plain_text() {
    let content = "preamble\ninstructions: Do the thing ##\nactivities:\n- First\n2. Second\n\n* Third\n";
    let (instructions, activities) = recipe_fields_from_text(content);
    assert_eq!(instructions, "Do the thing");
    assert_eq!(activities, vec!["First", "Second", "Third"]);
}

#[test]
fn test_recipe_fields_without_markers() {
    let (instructions, activities) = recipe_fields_from_text("just some prose");
    assert_eq!(instructions, "just some prose");
    assert!(activities.is_empty());
}

#[test]
fn test_recipe_draft_carries_fixed_title() {
    let draft = goose_agent::recipe::build_recipe_draft(
        "do it".to_string(),
        vec!["a".to_string()],
    );
    assert_eq!(draft.title, "Custom recipe from chat");
    assert_eq!(draft.description, "a custom recipe instance from this chat session");
    assert_eq!(draft.instructions, "do it");
}

fn only_text(r: Result<Vec<Content>, ToolError>) -> String {
    match r {
        Ok(c) => match &c[0] {
            Content::Text(t) => t.clone(),
            _ => panic!("expected text"),
        },
        Err(e) => panic!("unexpected error: {e:?}"),
    }
}

fn only_err(r: Result<Vec<Content>, ToolError>) -> String {
    match r {
        Err(ToolError::ExecutionError(m)) => m,
        _ => panic!("expected an error"),
    }
}

#[test]
fn test_manage_extensions_rendering() {
    assert_eq!(
        only_text(render_manage_extensions(
            "dev",
            ExtensionActionOutcome::RemoveOk,
            IndexOutcome::NotIndexed,
        )),
        "The extension 'dev' has been disabled successfully"
    );
    assert_eq!(
        only_text(render_manage_extensions(
            "dev",
            ExtensionActionOutcome::AddOk,
            IndexOutcome::Indexed,
        )),
        "The extension 'dev' has been installed successfully"
    );
    assert_eq!(
        only_err(render_manage_extensions(
            "dev",
            ExtensionActionOutcome::ConfigMissing,
            IndexOutcome::NotIndexed,
        )),
        "Extension 'dev' not found. Please check the extension name and try again."
    );
    assert_eq!(
        only_err(render_manage_extensions(
            "dev",
            ExtensionActionOutcome::AddOk,
            IndexOutcome::IndexErr("no index".to_string()),
        )),
        "Failed to update vector index: no index"
    );
    assert_eq!(
        only_err(render_manage_extensions(
            "dev",
            ExtensionActionOutcome::ConfigErr("boom".to_string()),
            IndexOutcome::NotIndexed,
        )),
        "Failed to get extension config: boom"
    );
}

#[test]
fn test_large_response_policy() {
    let small = Ok(vec![Content::Text("fine".to_string())]);
    match process_tool_response(small, 10) {
        Ok(c) => match &c[0] {
            Content::Text(t) => assert_eq!(t, "fine"),
            _ => panic!("expected text"),
        },
        _ => panic!("expected success"),
    }

    let big = Ok(vec![
        Content::Text("abcdefgh".to_string()),
        Content::Text("ijklmnop".to_string()),
    ]);
    match process_tool_response(big, 10) {
        Ok(c) => {
            assert_eq!(c.len(), 1);
            match &c[0] {
                Content::Text(t) => assert_eq!(
                    t,
                    "Tool output of 16 characters exceeded the limit of 10 characters and was replaced; fetch the full content through the resource listing."
                ),
                _ => panic!("expected text"),
            }
        }
        _ => panic!("expected success"),
    }

    let err: Result<Vec<Content>, ToolError> =
        Err(ToolError::ExecutionError("boom".to_string()));
    assert!(matches!(
        process_tool_response(err, 1),
        Err(ToolError::ExecutionError(_))
    ));
}
