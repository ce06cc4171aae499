use goose_agent::agent::{Agent, DispatchDecision};
use goose_agent::args::{ArgValue, ToolArgs};
use goose_agent::message::{ToolCall, ToolError};
use goose_agent::monitor::ToolMonitor;
use goose_agent::router::DispatchKind;

fn call_foo() -> ToolCall {
    let mut args = ToolArgs::new();
    args.push("x".to_string(), ArgValue::Num(1));
    ToolCall {
        name: "foo".to_string(),
        arguments: args,
    }
}

fn call_bar() -> ToolCall {
    ToolCall {
        name: "bar".to_string(),
        arguments: ToolArgs::new(),
    }
}

#[test]
fn test_s6_second_identical_call_is_rejected_with_cap_one() {
    let mut agent = Agent::new();
    agent.configure_tool_monitor(Some(1));

    match agent.dispatch_decision(call_foo()) {
        DispatchDecision::Execute(kind) => assert_eq!(kind, DispatchKind::ExtensionTool),
        _ => panic!("first call must pass"),
    }
    match agent.dispatch_decision(call_foo()) {
        DispatchDecision::Rejected(ToolError::ExecutionError(m)) => {
            assert_eq!(m, "Tool call rejected: exceeded maximum allowed repetitions");
        }
        _ => panic!("second identical call must be rejected"),
    }
}

#[test]
fn test_monitor_idempotence_min_of_n_and_k() {
    // Ten identical calls against a cap of three: exactly three succeed.
    let mut monitor = ToolMonitor::new(Some(3));
    let mut allowed = 0;
    for _ in 0..10 {
        if monitor.check_tool_call(call_foo()) {
            allowed += 1;
        }
    }
    assert_eq!(allowed, 3);

    // Fewer calls than the cap: all of them succeed.
    let mut monitor = ToolMonitor::new(Some(5));
    let mut allowed = 0;
    for _ in 0..2 {
        if monitor.check_tool_call(call_foo()) {
            allowed += 1;
        }
    }
    assert_eq!(allowed, 2);
}

#[test]
fn test_monitor_resets_on_different_call() {
    let mut monitor = ToolMonitor::new(Some(2));
    assert!(monitor.check_tool_call(call_foo()));
    assert!(monitor.check_tool_call(call_foo()));
    assert!(!monitor.check_tool_call(call_foo()));
    // A different call resets the streak, then foo may run again.
    assert!(monitor.check_tool_call(call_bar()));
    assert!(monitor.check_tool_call(call_foo()));
}

#[test]
fn test_monitor_disabled_allows_everything() {
    let mut monitor = ToolMonitor::new(None);
    for _ in 0..50 {
        assert!(monitor.check_tool_call(call_foo()));
    }
}

#[test]
fn test_monitor_arguments_matter() {
    let mut monitor = ToolMonitor::new(Some(1));
    assert!(monitor.check_tool_call(call_foo()));
    let mut other_args = ToolArgs::new();
    other_args.push("x".to_string(), ArgValue::Num(2));
    let other = ToolCall {
        name: "foo".to_string(),
        arguments: other_args,
    };
    // Same tool, different arguments: not a repetition.
    assert!(monitor.check_tool_call(other));
}

#[test]
fn test_monitor_stats_and_reset() {
    let mut agent = Agent::new();
    assert!(agent.get_tool_stats().is_none());
    agent.configure_tool_monitor(Some(10));
    let _ = agent.dispatch_decision(call_foo());
    let _ = agent.dispatch_decision(call_foo());
    let _ = agent.dispatch_decision(call_bar());
    let stats = agent.get_tool_stats().unwrap();
    assert_eq!(stats.len(), 2);
    assert_eq!(stats[0].name, "foo");
    assert_eq!(stats[0].count, 2);
    assert_eq!(stats[1].name, "bar");
    assert_eq!(stats[1].count, 1);
    agent.reset_tool_monitor();
    let stats = agent.get_tool_stats().unwrap();
    assert_eq!(stats.len(), 0);
}
