//! The platform's own tools, as advertised to the provider, and the
//! composition of the tool lists the agent exposes: the full list with the
//! platform tools appended, and the narrowed list the vector router
//! presents.

use vstd::prelude::*;
use vstd::string::StringSliceAdditionalSpecFns;
use crate::permission::names_contain;
use crate::router::{
    PLATFORM_LIST_RESOURCES_TOOL_NAME,
    PLATFORM_MANAGE_EXTENSIONS_TOOL_NAME,
    PLATFORM_MANAGE_SCHEDULE_TOOL_NAME,
    PLATFORM_READ_RESOURCE_TOOL_NAME,
    PLATFORM_SEARCH_AVAILABLE_EXTENSIONS_TOOL_NAME,
    ROUTER_VECTOR_SEARCH_TOOL_NAME,
};
use crate::strutil::{str_eq, str_eq_ignore_ascii_case, ascii_case_eq};
use crate::tools::{Tool, tool_names};

verus! {

/// The search tool over the extensions available to install.
pub fn search_available_extensions_tool() -> (r: Tool)
    ensures
        r.name@ == PLATFORM_SEARCH_AVAILABLE_EXTENSIONS_TOOL_NAME@,
        r.read_only_hint == Some(true),
{
    Tool {
        name: String::from_str(PLATFORM_SEARCH_AVAILABLE_EXTENSIONS_TOOL_NAME),
        description: String::from_str(
            "Searches for additional extensions available to install and use.",
        ),
        input_schema: String::from_str("{\"type\":\"object\",\"properties\":{}}"),
        read_only_hint: Some(true),
    }
}

/// The tool that enables or disables an installed extension.
pub fn manage_extensions_tool() -> (r: Tool)
    ensures
        r.name@ == PLATFORM_MANAGE_EXTENSIONS_TOOL_NAME@,
        r.read_only_hint is None,
{
    Tool {
        name: String::from_str(PLATFORM_MANAGE_EXTENSIONS_TOOL_NAME),
        description: String::from_str(
            "Enable or disable an installed extension by name.",
        ),
        input_schema: String::from_str(
            "{\"type\":\"object\",\"properties\":{\"action\":{\"type\":\"string\"},\"extension_name\":{\"type\":\"string\"}},\"required\":[\"action\",\"extension_name\"]}",
        ),
        read_only_hint: None,
    }
}

/// The scheduled-job control tool.
pub fn manage_schedule_tool() -> (r: Tool)
    ensures
        r.name@ == PLATFORM_MANAGE_SCHEDULE_TOOL_NAME@,
        r.read_only_hint is None,
{
    Tool {
        name: String::from_str(PLATFORM_MANAGE_SCHEDULE_TOOL_NAME),
        description: String::from_str(
            "Manage scheduled recipe execution: list, create, run, pause, unpause, delete, kill and inspect jobs, and list their sessions.",
        ),
        input_schema: String::from_str(
            "{\"type\":\"object\",\"properties\":{\"action\":{\"type\":\"string\"},\"recipe_path\":{\"type\":\"string\"},\"cron_expression\":{\"type\":\"string\"},\"job_id\":{\"type\":\"string\"},\"limit\":{\"type\":\"integer\",\"default\":50}},\"required\":[\"action\"]}",
        ),
        read_only_hint: None,
    }
}

/// The tool that reads one resource of an extension.
pub fn read_resource_tool() -> (r: Tool)
    ensures
        r.name@ == PLATFORM_READ_RESOURCE_TOOL_NAME@,
        r.read_only_hint == Some(true),
{
    Tool {
        name: String::from_str(PLATFORM_READ_RESOURCE_TOOL_NAME),
        description: String::from_str("Read a resource from an extension by its URI."),
        input_schema: String::from_str(
            "{\"type\":\"object\",\"properties\":{\"uri\":{\"type\":\"string\"},\"extension_name\":{\"type\":\"string\"}},\"required\":[\"uri\"]}",
        ),
        read_only_hint: Some(true),
    }
}

/// The tool that lists the resources extensions offer.
pub fn list_resources_tool() -> (r: Tool)
    ensures
        r.name@ == PLATFORM_LIST_RESOURCES_TOOL_NAME@,
        r.read_only_hint == Some(true),
{
    Tool {
        name: String::from_str(PLATFORM_LIST_RESOURCES_TOOL_NAME),
        description: String::from_str("List the resources available from extensions."),
        input_schema: String::from_str(
            "{\"type\":\"object\",\"properties\":{\"extension_name\":{\"type\":\"string\"}}}",
        ),
        read_only_hint: Some(true),
    }
}

/// The vector-search tool the router advertises.
pub fn vector_search_tool() -> (r: Tool)
    ensures
        r.name@ == ROUTER_VECTOR_SEARCH_TOOL_NAME@,
        r.read_only_hint == Some(true),
{
    Tool {
        name: String::from_str(ROUTER_VECTOR_SEARCH_TOOL_NAME),
        description: String::from_str(
            "Search the indexed tools for the ones most relevant to a query.",
        ),
        input_schema: String::from_str(
            "{\"type\":\"object\",\"properties\":{\"query\":{\"type\":\"string\"},\"k\":{\"type\":\"integer\"}},\"required\":[\"query\"]}",
        ),
        read_only_hint: Some(true),
    }
}

/// The names of the platform tools, in the order they are appended.
pub open spec fn platform_tool_names(supports_resources: bool) -> Seq<Seq<char>> {
    if supports_resources {
        seq![
            PLATFORM_SEARCH_AVAILABLE_EXTENSIONS_TOOL_NAME@,
            PLATFORM_MANAGE_EXTENSIONS_TOOL_NAME@,
            PLATFORM_MANAGE_SCHEDULE_TOOL_NAME@,
            PLATFORM_READ_RESOURCE_TOOL_NAME@,
            PLATFORM_LIST_RESOURCES_TOOL_NAME@,
        ]
    } else {
        seq![
            PLATFORM_SEARCH_AVAILABLE_EXTENSIONS_TOOL_NAME@,
            PLATFORM_MANAGE_EXTENSIONS_TOOL_NAME@,
            PLATFORM_MANAGE_SCHEDULE_TOOL_NAME@,
        ]
    }
}

/// Whether the platform tools belong in a listing for this extension
/// filter: they do for the whole list and for the platform itself.
pub open spec fn includes_platform(extension_name: Option<Seq<char>>) -> bool {
    match extension_name {
        None => true,
        Some(n) => n == "platform"@,
    }
}

/// The advertised tool list: the extension tools as given, and the
/// platform tools appended when no extension filter or the platform
/// itself is asked for, the resource tools among them only when resources
/// are supported.
pub fn list_tools(
    extension_tools: Vec<Tool>,
    extension_name: Option<&str>,
    supports_resources: bool,
) -> (r: Vec<Tool>)
    ensures
        r@.len() >= extension_tools@.len(),
        r@.subrange(0, extension_tools@.len() as int) == extension_tools@,
        ({
            let filt = match extension_name {
                Some(n) => Some(n@),
                None => None,
            };
            if includes_platform(filt) {
                tool_names(r@.subrange(extension_tools@.len() as int, r@.len() as int))
                    == platform_tool_names(supports_resources)
            } else {
                r@ == extension_tools@
            }
        }),
{
    let with_platform = match extension_name {
        None => true,
        Some(n) => str_eq(n, "platform"),
    };
    let ghost ext0 = extension_tools@;
    let mut out = extension_tools;
    if with_platform {
        out.push(search_available_extensions_tool());
        out.push(manage_extensions_tool());
        out.push(manage_schedule_tool());
        if supports_resources {
            out.push(read_resource_tool());
            out.push(list_resources_tool());
        }
        proof {
            assert(out@.subrange(0, ext0.len() as int) =~= ext0);
            assert(tool_names(out@.subrange(ext0.len() as int, out@.len() as int))
                =~= platform_tool_names(supports_resources));
        }
    } else {
        proof {
            assert(out@.subrange(0, ext0.len() as int) =~= ext0);
        }
    }
    out
}

/// The strategies the tool router knows.
#[derive(Clone, Copy, Debug, PartialEq, Eq, Structural)]
pub enum RouterToolSelectionStrategy {
    Vector,
}

/// Parses the router strategy setting, case-insensitively: `vector` turns
/// the vector router on; everything else leaves the default routing.
pub fn parse_router_strategy(s: &str) -> (r: Option<RouterToolSelectionStrategy>)
    ensures
        r == Some(RouterToolSelectionStrategy::Vector) <==> ascii_case_eq(
            s.spec_bytes(),
            "vector".spec_bytes(),
        ),
        r is None <==> !ascii_case_eq(s.spec_bytes(), "vector".spec_bytes()),
{
    if str_eq_ignore_ascii_case(s, "vector") {
        Some(RouterToolSelectionStrategy::Vector)
    } else {
        None
    }
}

/// The first tool of this name, if any.
pub open spec fn find_tool_named(tools: Seq<Tool>, name: Seq<char>) -> Option<Tool>
    decreases tools.len(),
{
    if tools.len() == 0 {
        None
    } else if tools[0].name@ == name {
        Some(tools[0])
    } else {
        find_tool_named(tools.drop_first(), name)
    }
}

proof fn lemma_find_tool_at(tools: Seq<Tool>, name: Seq<char>, i: int)
    requires
        0 <= i < tools.len(),
        forall|j: int| 0 <= j < i ==> (#[trigger] tools[j]).name@ != name,
        tools[i].name@ == name,
    ensures
        find_tool_named(tools, name) == Some(tools[i]),
    decreases i,
{
    if i > 0 {
        lemma_find_tool_at(tools.drop_first(), name, i - 1);
    }
}

proof fn lemma_find_tool_absent(tools: Seq<Tool>, name: Seq<char>)
    requires
        forall|j: int| 0 <= j < tools.len() ==> (#[trigger] tools[j]).name@ != name,
    ensures
        find_tool_named(tools, name) is None,
    decreases tools.len(),
{
    if tools.len() > 0 {
        lemma_find_tool_absent(tools.drop_first(), name);
    }
}

/// Finds the first tool of this name.
fn find_tool<'a>(tools: &'a Vec<Tool>, name: &str) -> (r: Option<&'a Tool>)
    ensures
        match r {
            Some(t) => find_tool_named(tools@, name@) == Some(*t),
            None => find_tool_named(tools@, name@) is None,
        },
{
    let n = tools.len();
    let mut i: usize = 0;
    while i < n
        invariant
            n == tools@.len(),
            i <= n,
            forall|j: int| 0 <= j < i ==> (#[trigger] tools@[j]).name@ != name@,
        decreases n - i,
    {
        if str_eq(tools[i].name.as_str(), name) {
            proof {
                lemma_find_tool_at(tools@, name@, i as int);
            }
            return Some(&tools[i]);
        }
        i += 1;
    }
    proof {
        lemma_find_tool_absent(tools@, name@);
    }
    None
}

/// Decides whether some tool of the list carries this name.
fn has_tool_named(tools: &Vec<Tool>, name: &str) -> (r: bool)
    ensures
        r == names_contain(tool_names(tools@), name@),
{
    let n = tools.len();
    let mut i: usize = 0;
    while i < n
        invariant
            n == tools@.len(),
            i <= n,
            forall|j: int| 0 <= j < i ==> tool_names(tools@)[j] != name@,
        decreases n - i,
    {
        proof {
            assert(tool_names(tools@)[i as int] == tools@[i as int].name@);
        }
        if str_eq(tools[i].name.as_str(), name) {
            return true;
        }
        i += 1;
    }
    false
}

/// The router listing built up from `acc`: each recent name that matches
/// an extension tool is appended, unless a tool of that name is already
/// listed.
pub open spec fn router_fold(acc: Seq<Tool>, recent: Seq<Seq<char>>, ext: Seq<Tool>) -> Seq<Tool>
    decreases recent.len(),
{
    if recent.len() == 0 {
        acc
    } else {
        let acc2 = match find_tool_named(ext, recent[0]) {
            Some(t) => if names_contain(tool_names(acc), t.name@) {
                acc
            } else {
                acc.push(t)
            },
            None => acc,
        };
        router_fold(acc2, recent.drop_first(), ext)
    }
}

/// The narrowed list the vector router presents: the vector-search tool
/// under the vector strategy, then the recently called tools that the
/// extension list still offers, first call first, without duplicates.
pub fn list_tools_for_router(
    strategy: Option<RouterToolSelectionStrategy>,
    recent_calls: &Vec<String>,
    extension_tools: &Vec<Tool>,
) -> (r: Vec<Tool>)
    ensures
        strategy is Some ==> r@.len() >= 1 && r@[0].name@ == ROUTER_VECTOR_SEARCH_TOOL_NAME@ && r@
            == router_fold(seq![r@[0]], recent_calls.deep_view(), extension_tools@),
        strategy is None ==> r@ == router_fold(
            Seq::empty(),
            recent_calls.deep_view(),
            extension_tools@,
        ),
{
    let mut out: Vec<Tool> = Vec::new();
    match strategy {
        Some(RouterToolSelectionStrategy::Vector) => {
            out.push(vector_search_tool());
        },
        None => {},
    }
    let ghost seed = out@;
    let n = recent_calls.len();
    proof {
        assert(recent_calls.deep_view().subrange(0, n as int) =~= recent_calls.deep_view());
    }
    let mut i: usize = 0;
    while i < n
        invariant
            n == recent_calls@.len(),
            recent_calls.deep_view().len() == n,
            i <= n,
            router_fold(seed, recent_calls.deep_view(), extension_tools@) == router_fold(
                out@,
                recent_calls.deep_view().subrange(i as int, n as int),
                extension_tools@,
            ),
        decreases n - i,
    {
        let ghost rest = recent_calls.deep_view().subrange(i as int, n as int);
        proof {
            assert(recent_calls.deep_view()[i as int] == recent_calls@[i as int]@);
            assert(rest[0] == recent_calls.deep_view()[i as int]);
            assert(rest.drop_first() =~= recent_calls.deep_view().subrange(i + 1, n as int));
        }
        match find_tool(extension_tools, recent_calls[i].as_str()) {
            Some(t) => {
                if !has_tool_named(&out, t.name.as_str()) {
                    let t2 = t.clone();
                    out.push(t2);
                }
            },
            None => {},
        }
        i += 1;
    }
    proof {
        assert(recent_calls.deep_view().subrange(n as int, n as int) =~= Seq::<
            Seq<char>,
        >::empty());
        lemma_router_fold_prefix(seed, recent_calls.deep_view(), extension_tools@);
        if seed.len() > 0 {
            assert(out@[0] == seed[0]);
            assert(seq![out@[0]] =~= seed);
        }
    }
    out
}

/// The listing the router fold builds keeps its seed at the front.
proof fn lemma_router_fold_prefix(acc: Seq<Tool>, recent: Seq<Seq<char>>, ext: Seq<Tool>)
    ensures
        router_fold(acc, recent, ext).len() >= acc.len(),
        forall|i: int|
            0 <= i < acc.len() ==> #[trigger] router_fold(acc, recent, ext)[i] == acc[i],
    decreases recent.len(),
{
    if recent.len() > 0 {
        let acc2 = match find_tool_named(ext, recent[0]) {
            Some(t) => if names_contain(tool_names(acc), t.name@) {
                acc
            } else {
                acc.push(t)
            },
            None => acc,
        };
        lemma_router_fold_prefix(acc2, recent.drop_first(), ext);
    }
}

} // verus!
