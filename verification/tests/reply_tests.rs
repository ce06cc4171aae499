use goose_agent::args::{ArgValue, ToolArgs};
use goose_agent::message::{
    AgentEvent, Content, Message, MessageContent, Role, ToolCall,
};
use goose_agent::permission::{
    Mode, PermissionConfirmation, PermissionDecision, PermissionStore,
};
use goose_agent::reply::{TurnEngine, TurnPhase};
use goose_agent::tools::{FrontendTool, Tool};

fn tool_call(name: &str) -> ToolCall {
    ToolCall {
        name: name.to_string(),
        arguments: ToolArgs::new(),
    }
}

fn frontend_tool(name: &str) -> FrontendTool {
    FrontendTool {
        name: name.to_string(),
        tool: Tool {
            name: name.to_string(),
            description: "a frontend tool".to_string(),
            input_schema: "{}".to_string(),
            read_only_hint: None,
        },
    }
}

fn text_output(s: &str) -> Result<Vec<Content>, goose_agent::message::ToolError> {
    Ok(vec![Content::Text(s.to_string())])
}

fn event_message(ev: &AgentEvent) -> &Message {
    match ev {
        AgentEvent::Message(m) => m,
        _ => panic!("expected a message event"),
    }
}

fn response_ids(m: &Message) -> Vec<String> {
    m.content
        .iter()
        .filter_map(|c| match c {
            MessageContent::ToolResponse(tr) => Some(tr.id.clone()),
            _ => None,
        })
        .collect()
}

fn response_text(m: &Message, id: &str) -> String {
    for c in m.content.iter() {
        if let MessageContent::ToolResponse(tr) = c {
            if tr.id == id {
                if let Ok(parts) = &tr.result {
                    if let Content::Text(t) = &parts[0] {
                        return t.clone();
                    }
                }
            }
        }
    }
    panic!("no response for {id}");
}

#[test]
fn test_s1_text_only_turn_ends_without_tool_response() {
    let assistant = Message::assistant().with_text("hello".to_string());
    let (engine, events) = TurnEngine::start(Mode::Auto, assistant, &Vec::new());
    assert_eq!(events.len(), 1);
    let m = event_message(&events[0]);
    assert_eq!(m.content.len(), 1);
    assert!(matches!(m.content[0], MessageContent::Text(_)));
    assert_eq!(engine.pending_count(), 0);
    let (response, refresh) = engine.finish();
    assert_eq!(response.content.len(), 0);
    assert!(refresh);
}

#[test]
fn test_s2_readonly_tool_in_smart_approve_runs_without_prompt() {
    let assistant = Message::assistant()
        .with_text("working".to_string())
        .with_tool_request("r1".to_string(), tool_call("safe.read"));
    let (mut engine, events) = TurnEngine::start(Mode::SmartApprove, assistant, &Vec::new());
    assert_eq!(events.len(), 1);
    assert_eq!(engine.phase, TurnPhase::Gate);

    let readonly = vec!["safe.read".to_string()];
    let store = PermissionStore::new();
    let (gate_events, dispatch_now) = engine.run_gate(&readonly, &store);
    // No confirmation prompt is emitted; the call is dispatched at once.
    assert_eq!(gate_events.len(), 0);
    assert_eq!(dispatch_now.len(), 1);
    assert_eq!(dispatch_now[0].id, "r1");

    assert!(engine.on_dispatch_result("r1", text_output("result")));
    let (response, _) = engine.finish();
    assert_eq!(response_ids(&response), vec!["r1".to_string()]);
    assert_eq!(response_text(&response, "r1"), "result");
}

#[test]
fn test_s3_unannotated_tool_in_approve_mode_prompts_once() {
    let assistant = Message::assistant().with_tool_request(
        "r1".to_string(),
        tool_call("ext.write"),
    );
    let (mut engine, _) = TurnEngine::start(Mode::Approve, assistant, &Vec::new());
    let mut store = PermissionStore::new();
    let (gate_events, dispatch_now) = engine.run_gate(&Vec::new(), &store);
    // Exactly one confirmation request, nothing dispatched yet.
    assert_eq!(dispatch_now.len(), 0);
    assert_eq!(gate_events.len(), 1);
    let m = event_message(&gate_events[0]);
    assert!(matches!(
        m.content[0],
        MessageContent::ConfirmationRequest(_)
    ));

    let (_, to_dispatch, consumed) = engine.on_confirmation(
        &mut store,
        "r1",
        PermissionConfirmation {
            permission: PermissionDecision::AllowOnce,
        },
    );
    assert!(consumed);
    assert_eq!(to_dispatch.len(), 1);
    assert!(engine.on_dispatch_result("r1", text_output("done")));
    let (response, _) = engine.finish();
    assert_eq!(response_ids(&response), vec!["r1".to_string()]);
}

#[test]
fn test_p3_frontend_requests_are_filtered_and_surfaced_one_by_one() {
    let frontend = vec![frontend_tool("ui.pick")];
    let assistant = Message::assistant()
        .with_text("mix".to_string())
        .with_tool_request("f1".to_string(), tool_call("ui.pick"))
        .with_tool_request("b1".to_string(), tool_call("ext.tool"))
        .with_tool_request("f2".to_string(), tool_call("ui.pick"));
    let (mut engine, events) = TurnEngine::start(Mode::Auto, assistant, &frontend);

    // The first yielded message holds the non-frontend parts only.
    assert_eq!(events.len(), 2);
    let filtered = event_message(&events[0]);
    assert_eq!(filtered.content.len(), 2);
    assert!(matches!(filtered.content[0], MessageContent::Text(_)));
    match &filtered.content[1] {
        MessageContent::ToolRequest(q) => assert_eq!(q.id, "b1"),
        _ => panic!("expected the backend request"),
    }

    // The frontend requests appear later, one per event, in order.
    let surf1 = event_message(&events[1]);
    match &surf1.content[0] {
        MessageContent::ToolRequest(q) => assert_eq!(q.id, "f1"),
        _ => panic!("expected the first frontend request"),
    }
    // A result for the wrong id is dropped with nothing changed.
    let (evs, consumed) = engine.on_frontend_result("zzz", text_output("nope"));
    assert!(!consumed);
    assert_eq!(evs.len(), 0);

    let (evs, consumed) = engine.on_frontend_result("f1", text_output("one"));
    assert!(consumed);
    assert_eq!(evs.len(), 1);
    match &event_message(&evs[0]).content[0] {
        MessageContent::ToolRequest(q) => assert_eq!(q.id, "f2"),
        _ => panic!("expected the second frontend request"),
    }
    let (evs, consumed) = engine.on_frontend_result("f2", text_output("two"));
    assert!(consumed);
    assert_eq!(evs.len(), 0);
    assert_eq!(engine.phase, TurnPhase::Gate);
}

#[test]
fn test_p4_chat_mode_skips_everything_and_dispatches_nothing() {
    let assistant = Message::assistant()
        .with_tool_request("r1".to_string(), tool_call("a.one"))
        .with_tool_request("r2".to_string(), tool_call("b.two"));
    let (mut engine, _) = TurnEngine::start(Mode::Chat, assistant, &Vec::new());
    let store = PermissionStore::new();
    let (events, dispatch_now) = engine.run_gate(&Vec::new(), &store);
    assert_eq!(events.len(), 0);
    assert_eq!(dispatch_now.len(), 0);
    let (response, _) = engine.finish();
    assert_eq!(
        response_ids(&response),
        vec!["r1".to_string(), "r2".to_string()]
    );
    assert_eq!(
        response_text(&response, "r1"),
        "Tool execution skipped in chat mode"
    );
    assert_eq!(
        response_text(&response, "r2"),
        "Tool execution skipped in chat mode"
    );
}

#[test]
fn test_p1_every_request_is_paired_in_arrival_order() {
    let frontend = vec![frontend_tool("ui.pick")];
    let assistant = Message::assistant()
        .with_tool_request("f1".to_string(), tool_call("ui.pick"))
        .with_tool_request("a".to_string(), tool_call("x.a"))
        .with_tool_request("b".to_string(), tool_call("x.b"));
    let (mut engine, _) = TurnEngine::start(Mode::Auto, assistant, &frontend);
    let store = PermissionStore::new();

    let (_, consumed) = engine.on_frontend_result("f1", text_output("front"));
    assert!(consumed);

    let (_, dispatch_now) = engine.run_gate(&Vec::new(), &store);
    assert_eq!(dispatch_now.len(), 2);

    // Results arrive out of request order; the reply keeps arrival order.
    assert!(engine.on_dispatch_result("b", text_output("second")));
    assert!(engine.on_dispatch_result("a", text_output("first")));
    let (response, _) = engine.finish();
    assert_eq!(response.role, Role::User);
    assert_eq!(
        response_ids(&response),
        vec!["f1".to_string(), "b".to_string(), "a".to_string()]
    );
}

#[test]
fn test_denied_and_always_decisions_update_the_store() {
    let assistant = Message::assistant()
        .with_tool_request("r1".to_string(), tool_call("x.a"))
        .with_tool_request("r2".to_string(), tool_call("x.b"));
    let (mut engine, _) = TurnEngine::start(Mode::Approve, assistant, &Vec::new());
    let mut store = PermissionStore::new();
    let (events, dispatch_now) = engine.run_gate(&Vec::new(), &store);
    assert_eq!(dispatch_now.len(), 0);
    assert_eq!(events.len(), 1);

    // Deny the first forever; the second is allowed forever.
    let (events, to_dispatch, _) = engine.on_confirmation(
        &mut store,
        "r1",
        PermissionConfirmation {
            permission: PermissionDecision::AlwaysDeny,
        },
    );
    assert_eq!(to_dispatch.len(), 0);
    assert_eq!(events.len(), 1);
    let (_, to_dispatch, _) = engine.on_confirmation(
        &mut store,
        "r2",
        PermissionConfirmation {
            permission: PermissionDecision::AlwaysAllow,
        },
    );
    assert_eq!(to_dispatch.len(), 1);
    assert!(engine.on_dispatch_result("r2", text_output("ok")));
    let (response, _) = engine.finish();
    assert_eq!(
        response_text(&response, "r1"),
        "The user has declined to run this tool"
    );
    assert_eq!(store.get("x.a"), Some(PermissionDecision::AlwaysDeny));
    assert_eq!(store.get("x.b"), Some(PermissionDecision::AlwaysAllow));

    // A later turn sees the stored decisions when it checks permissions.
    let assistant2 = Message::assistant()
        .with_tool_request("s1".to_string(), tool_call("x.a"))
        .with_tool_request("s2".to_string(), tool_call("x.b"));
    let (mut engine2, _) = TurnEngine::start(Mode::Approve, assistant2, &Vec::new());
    let (events, dispatch_now) = engine2.run_gate(&Vec::new(), &store);
    assert_eq!(events.len(), 0);
    assert_eq!(dispatch_now.len(), 1);
    assert_eq!(dispatch_now[0].id, "s2");
}

#[test]
fn test_p5_dropping_a_turn_mid_flight_leaves_the_next_turn_clean() {
    let assistant = Message::assistant().with_tool_request(
        "r1".to_string(),
        tool_call("x.a"),
    );
    let (mut engine, _) = TurnEngine::start(Mode::Auto, assistant, &Vec::new());
    let store = PermissionStore::new();
    let (_, dispatch_now) = engine.run_gate(&Vec::new(), &store);
    assert_eq!(dispatch_now.len(), 1);
    // The caller walks away mid-turn: the unfinished engine is dropped.
    drop(engine);

    // A fresh turn starts cleanly and completes.
    let assistant2 = Message::assistant().with_text("again".to_string());
    let (engine2, events) = TurnEngine::start(Mode::Auto, assistant2, &Vec::new());
    assert_eq!(events.len(), 1);
    let (response, _) = engine2.finish();
    assert_eq!(response.content.len(), 0);
}

#[test]
fn test_enable_extension_failure_suppresses_refresh() {
    let assistant = Message::assistant()
        .with_tool_request(
            "e1".to_string(),
            tool_call("platform.manage_extensions"),
        );
    let (mut engine, _) = TurnEngine::start(Mode::Auto, assistant, &Vec::new());
    let store = PermissionStore::new();
    let (_, dispatch_now) = engine.run_gate(&Vec::new(), &store);
    assert_eq!(dispatch_now.len(), 1);
    assert!(engine.on_dispatch_result(
        "e1",
        Err(goose_agent::message::ToolError::ExecutionError(
            "install failed".to_string()
        ))
    ));
    let (_, refresh) = engine.finish();
    assert!(!refresh);
}
