//! The dispatch router: a pure decision from a tool name to the executor
//! that must handle it. Exact matches on the well-known platform names come
//! first, then the frontend-tool membership check, then the vector-search
//! tool; every other name falls through to the extension default.

use vstd::prelude::*;
use crate::strutil::str_eq;
use crate::tools::{FrontendTool, is_frontend_name};

verus! {

pub const PLATFORM_MANAGE_SCHEDULE_TOOL_NAME: &'static str = "platform.manage_schedule";

pub const PLATFORM_MANAGE_EXTENSIONS_TOOL_NAME: &'static str = "platform.manage_extensions";

pub const PLATFORM_READ_RESOURCE_TOOL_NAME: &'static str = "platform.read_resource";

pub const PLATFORM_LIST_RESOURCES_TOOL_NAME: &'static str = "platform.list_resources";

pub const PLATFORM_SEARCH_AVAILABLE_EXTENSIONS_TOOL_NAME: &'static str =
    "platform.search_available_extensions";

pub const ROUTER_VECTOR_SEARCH_TOOL_NAME: &'static str = "router.vector_search";

/// Where one tool call is executed.
#[derive(Clone, Copy, Debug, PartialEq, Eq, Structural)]
pub enum DispatchKind {
    PlatformSchedule,
    PlatformExtensions,
    PlatformReadResource,
    PlatformListResources,
    PlatformSearchExtensions,
    Frontend,
    RouterVectorSearch,
    ExtensionTool,
}

/// The routing decision for `name`, given the registered frontend tools.
pub open spec fn spec_classify(name: Seq<char>, frontend: Seq<FrontendTool>) -> DispatchKind {
    if name == PLATFORM_MANAGE_SCHEDULE_TOOL_NAME@ {
        DispatchKind::PlatformSchedule
    } else if name == PLATFORM_MANAGE_EXTENSIONS_TOOL_NAME@ {
        DispatchKind::PlatformExtensions
    } else if name == PLATFORM_READ_RESOURCE_TOOL_NAME@ {
        DispatchKind::PlatformReadResource
    } else if name == PLATFORM_LIST_RESOURCES_TOOL_NAME@ {
        DispatchKind::PlatformListResources
    } else if name == PLATFORM_SEARCH_AVAILABLE_EXTENSIONS_TOOL_NAME@ {
        DispatchKind::PlatformSearchExtensions
    } else if is_frontend_name(frontend, name) {
        DispatchKind::Frontend
    } else if name == ROUTER_VECTOR_SEARCH_TOOL_NAME@ {
        DispatchKind::RouterVectorSearch
    } else {
        DispatchKind::ExtensionTool
    }
}

/// Routes a tool name. No I/O: unknown names fall through to the extension
/// default and the extension layer reports not-found.
pub fn classify(name: &str, frontend: &Vec<FrontendTool>) -> (r: DispatchKind)
    ensures
        r == spec_classify(name@, frontend@),
{
    if str_eq(name, PLATFORM_MANAGE_SCHEDULE_TOOL_NAME) {
        DispatchKind::PlatformSchedule
    } else if str_eq(name, PLATFORM_MANAGE_EXTENSIONS_TOOL_NAME) {
        DispatchKind::PlatformExtensions
    } else if str_eq(name, PLATFORM_READ_RESOURCE_TOOL_NAME) {
        DispatchKind::PlatformReadResource
    } else if str_eq(name, PLATFORM_LIST_RESOURCES_TOOL_NAME) {
        DispatchKind::PlatformListResources
    } else if str_eq(name, PLATFORM_SEARCH_AVAILABLE_EXTENSIONS_TOOL_NAME) {
        DispatchKind::PlatformSearchExtensions
    } else if crate::tools::find_frontend_tool(frontend, name).is_some() {
        DispatchKind::Frontend
    } else if str_eq(name, ROUTER_VECTOR_SEARCH_TOOL_NAME) {
        DispatchKind::RouterVectorSearch
    } else {
        DispatchKind::ExtensionTool
    }
}

} // verus!
