use goose_agent::agent::Agent;
use goose_agent::permission::{Mode, parse_mode};
use goose_agent::prompts::{ExtensionPrompts, Prompt};
use goose_agent::platform::{
    RouterToolSelectionStrategy, list_tools, list_tools_for_router, parse_router_strategy,
};
use goose_agent::router::{
    DispatchKind, PLATFORM_LIST_RESOURCES_TOOL_NAME, PLATFORM_MANAGE_EXTENSIONS_TOOL_NAME,
    PLATFORM_READ_RESOURCE_TOOL_NAME, ROUTER_VECTOR_SEARCH_TOOL_NAME, classify,
};
use goose_agent::tools::{FrontendTool, Tool, categorize_tools_by_annotation};

fn tool(name: &str, hint: Option<bool>) -> Tool {
    Tool {
        name: name.to_string(),
        description: "a tool".to_string(),
        input_schema: "{}".to_string(),
        read_only_hint: hint,
    }
}

fn frontend(name: &str) -> FrontendTool {
    FrontendTool {
        name: name.to_string(),
        tool: tool(name, None),
    }
}

#[test]
fn test_classify_routes_every_kind() {
    let fr = vec![frontend("ui.ask")];
    assert_eq!(
        classify("platform.manage_schedule", &fr),
        DispatchKind::PlatformSchedule
    );
    assert_eq!(
        classify("platform.manage_extensions", &fr),
        DispatchKind::PlatformExtensions
    );
    assert_eq!(
        classify("platform.read_resource", &fr),
        DispatchKind::PlatformReadResource
    );
    assert_eq!(
        classify("platform.list_resources", &fr),
        DispatchKind::PlatformListResources
    );
    assert_eq!(
        classify("platform.search_available_extensions", &fr),
        DispatchKind::PlatformSearchExtensions
    );
    assert_eq!(classify("ui.ask", &fr), DispatchKind::Frontend);
    assert_eq!(
        classify("router.vector_search", &fr),
        DispatchKind::RouterVectorSearch
    );
    assert_eq!(classify("anything.else", &fr), DispatchKind::ExtensionTool);
}

#[test]
fn test_frontend_tool_registry() {
    let mut agent = Agent::new();
    assert!(!agent.is_frontend_tool("ui.ask"));
    agent.add_frontend_tools(vec![tool("ui.ask", None)], None);
    assert!(agent.is_frontend_tool("ui.ask"));
    assert!(agent.get_frontend_tool("ui.ask").is_some());
    assert!(agent.get_frontend_tool("other").is_none());
    assert_eq!(
        agent.frontend_instructions.as_deref(),
        Some(
            "The following tools are provided directly by the frontend and will be executed by the frontend when called."
        )
    );
    agent.add_frontend_tools(vec![], Some("custom text".to_string()));
    assert_eq!(agent.frontend_instructions.as_deref(), Some("custom text"));
}

#[test]
fn test_parse_mode_and_strategy() {
    assert_eq!(parse_mode("chat"), Some(Mode::Chat));
    assert_eq!(parse_mode("auto"), Some(Mode::Auto));
    assert_eq!(parse_mode("approve"), Some(Mode::Approve));
    assert_eq!(parse_mode("smart_approve"), Some(Mode::SmartApprove));
    assert_eq!(parse_mode("anything"), None);

    assert_eq!(
        parse_router_strategy("vector"),
        Some(RouterToolSelectionStrategy::Vector)
    );
    assert_eq!(
        parse_router_strategy("VeCtOr"),
        Some(RouterToolSelectionStrategy::Vector)
    );
    assert_eq!(parse_router_strategy("default"), None);
}

#[test]
fn test_categorize_tools_by_annotation() {
    let tools = vec![
        tool("a", Some(true)),
        tool("b", None),
        tool("c", Some(false)),
        tool("d", Some(true)),
    ];
    let (readonly, unannotated) = categorize_tools_by_annotation(&tools);
    assert_eq!(readonly, vec!["a".to_string(), "d".to_string()]);
    assert_eq!(unannotated, vec!["b".to_string()]);
}

#[test]
fn test_list_tools_appends_platform_tools() {
    let ext = vec![tool("dev.shell", None)];
    let all = list_tools(ext, None, true);
    let names: Vec<&str> = all.iter().map(|t| t.name.as_str()).collect();
    assert_eq!(
        names,
        vec![
            "dev.shell",
            "platform.search_available_extensions",
            "platform.manage_extensions",
            "platform.manage_schedule",
            "platform.read_resource",
            "platform.list_resources",
        ]
    );

    let without_resources = list_tools(Vec::new(), None, false);
    assert!(!without_resources
        .iter()
        .any(|t| t.name == PLATFORM_READ_RESOURCE_TOOL_NAME
            || t.name == PLATFORM_LIST_RESOURCES_TOOL_NAME));
    assert!(without_resources
        .iter()
        .any(|t| t.name == PLATFORM_MANAGE_EXTENSIONS_TOOL_NAME));

    let filtered = list_tools(vec![tool("dev.shell", None)], Some("dev"), true);
    assert_eq!(filtered.len(), 1);

    let platform_only = list_tools(Vec::new(), Some("platform"), false);
    assert_eq!(platform_only.len(), 3);
}

#[test]
fn test_list_tools_for_router_dedups_and_keeps_order() {
    let ext = vec![tool("a.one", None), tool("b.two", None)];
    let recent = vec![
        "b.two".to_string(),
        "missing".to_string(),
        "a.one".to_string(),
        "b.two".to_string(),
    ];
    let listed = list_tools_for_router(
        Some(RouterToolSelectionStrategy::Vector),
        &recent,
        &ext,
    );
    let names: Vec<&str> = listed.iter().map(|t| t.name.as_str()).collect();
    assert_eq!(
        names,
        vec![ROUTER_VECTOR_SEARCH_TOOL_NAME, "b.two", "a.one"]
    );

    let no_strategy = list_tools_for_router(None, &recent, &ext);
    let names: Vec<&str> = no_strategy.iter().map(|t| t.name.as_str()).collect();
    assert_eq!(names, vec!["b.two", "a.one"]);
}

#[test]
fn test_combine_prefixed_tools_appends_frontend_tools() {
    let ext = vec![tool("dev.shell", None)];
    let fr = vec![frontend("ui.ask"), frontend("ui.pick")];
    let all = goose_agent::tools::combine_prefixed_tools(ext, &fr);
    let names: Vec<&str> = all.iter().map(|t| t.name.as_str()).collect();
    assert_eq!(names, vec!["dev.shell", "ui.ask", "ui.pick"]);
}

#[test]
fn test_find_prompt_extension_picks_first_owner() {
    let listing = vec![
        ExtensionPrompts {
            extension: "alpha".to_string(),
            prompts: vec![Prompt {
                name: "plan".to_string(),
                description: "draws a plan".to_string(),
            }],
        },
        ExtensionPrompts {
            extension: "beta".to_string(),
            prompts: vec![
                Prompt {
                    name: "plan".to_string(),
                    description: "another plan".to_string(),
                },
                Prompt {
                    name: "fix".to_string(),
                    description: "fixes things".to_string(),
                },
            ],
        },
    ];
    assert_eq!(
        goose_agent::prompts::find_prompt_extension(&listing, "fix").map(|s| s.as_str()),
        Some("beta")
    );
    assert_eq!(
        goose_agent::prompts::find_prompt_extension(&listing, "plan").map(|s| s.as_str()),
        Some("alpha")
    );
    assert!(goose_agent::prompts::find_prompt_extension(&listing, "none").is_none());
}
