//! Tools as the agent advertises them: name, description, schema text, and
//! the read-only annotation the permission gate consults; frontend tools,
//! whose execution is delegated to the caller of the reply stream.

use vstd::prelude::*;

verus! {

/// One advertised tool. The schema is carried as its serialized text; the
/// agent never looks inside it.
#[derive(Debug)]
pub struct Tool {
    pub name: String,
    pub description: String,
    pub input_schema: String,
    pub read_only_hint: Option<bool>,
}

impl Clone for Tool {
    fn clone(&self) -> (r: Self)
        ensures
            r == *self,
    {
        Tool {
            name: self.name.clone(),
            description: self.description.clone(),
            input_schema: self.input_schema.clone(),
            read_only_hint: match self.read_only_hint {
                Some(b) => Some(b),
                None => None,
            },
        }
    }
}

/// A marker entry for a tool executed outside the agent process.
#[derive(Debug)]
pub struct FrontendTool {
    pub name: String,
    pub tool: Tool,
}

impl Clone for FrontendTool {
    fn clone(&self) -> (r: Self)
        ensures
            r == *self,
    {
        FrontendTool { name: self.name.clone(), tool: self.tool.clone() }
    }
}

/// The names of a list of tools, in order.
pub open spec fn tool_names(tools: Seq<Tool>) -> Seq<Seq<char>> {
    tools.map_values(|t: Tool| t.name@)
}

/// Whether some frontend tool is registered under `name`.
pub open spec fn is_frontend_name(frontend: Seq<FrontendTool>, name: Seq<char>) -> bool {
    exists|j: int| 0 <= j < frontend.len() && (#[trigger] frontend[j]).name@ == name
}

/// Finds the frontend tool registered under `name`, if any.
pub fn find_frontend_tool<'a>(frontend: &'a Vec<FrontendTool>, name: &str) -> (r: Option<
    &'a FrontendTool,
>)
    ensures
        match r {
            Some(t) => is_frontend_name(frontend@, name@) && t.name@ == name@,
            None => !is_frontend_name(frontend@, name@),
        },
{
    let n = frontend.len();
    let mut i: usize = 0;
    while i < n
        invariant
            n == frontend@.len(),
            i <= n,
            forall|j: int| 0 <= j < i ==> (#[trigger] frontend@[j]).name@ != name@,
        decreases n - i,
    {
        if crate::strutil::str_eq(frontend[i].name.as_str(), name) {
            return Some(&frontend[i]);
        }
        i += 1;
    }
    None
}

/// The names of the tools annotated read-only, in order.
pub open spec fn readonly_tool_names(tools: Seq<Tool>) -> Seq<Seq<char>> {
    tool_names(tools.filter(|t: Tool| t.read_only_hint == Some(true)))
}

/// The names of the tools carrying no annotation, in order.
pub open spec fn unannotated_tool_names(tools: Seq<Tool>) -> Seq<Seq<char>> {
    tool_names(tools.filter(|t: Tool| t.read_only_hint is None))
}

/// Splits a tool list into the names annotated read-only and the names with
/// no annotation, as the permission gate consumes them.
pub fn categorize_tools_by_annotation(tools: &Vec<Tool>) -> (r: (Vec<String>, Vec<String>))
    ensures
        r.0.deep_view() == readonly_tool_names(tools@),
        r.1.deep_view() == unannotated_tool_names(tools@),
{
    let mut readonly: Vec<String> = Vec::new();
    let mut unannotated: Vec<String> = Vec::new();
    let n = tools.len();
    let mut i: usize = 0;
    while i < n
        invariant
            n == tools@.len(),
            i <= n,
            readonly.deep_view() == readonly_tool_names(tools@.subrange(0, i as int)),
            unannotated.deep_view() == unannotated_tool_names(tools@.subrange(0, i as int)),
        decreases n - i,
    {
        proof {
            assert(tools@.subrange(0, i + 1) =~= tools@.subrange(0, i as int).push(
                tools@[i as int],
            ));
            crate::tools::lemma_filter_push(
                tools@.subrange(0, i as int),
                tools@[i as int],
                |t: Tool| t.read_only_hint == Some(true),
            );
            crate::tools::lemma_filter_push(
                tools@.subrange(0, i as int),
                tools@[i as int],
                |t: Tool| t.read_only_hint is None,
            );
        }
        match tools[i].read_only_hint {
            Some(true) => {
                let ghost before = readonly.deep_view();
                readonly.push(tools[i].name.clone());
                proof {
                    assert(readonly.deep_view() =~= before.push(tools@[i as int].name@));
                    assert(readonly.deep_view() =~= readonly_tool_names(
                        tools@.subrange(0, i + 1),
                    ));
                    assert(unannotated.deep_view() =~= unannotated_tool_names(
                        tools@.subrange(0, i + 1),
                    ));
                }
            },
            None => {
                let ghost before = unannotated.deep_view();
                unannotated.push(tools[i].name.clone());
                proof {
                    assert(unannotated.deep_view() =~= before.push(tools@[i as int].name@));
                    assert(readonly.deep_view() =~= readonly_tool_names(
                        tools@.subrange(0, i + 1),
                    ));
                    assert(unannotated.deep_view() =~= unannotated_tool_names(
                        tools@.subrange(0, i + 1),
                    ));
                }
            },
            Some(false) => {
                proof {
                    assert(readonly.deep_view() =~= readonly_tool_names(
                        tools@.subrange(0, i + 1),
                    ));
                    assert(unannotated.deep_view() =~= unannotated_tool_names(
                        tools@.subrange(0, i + 1),
                    ));
                }
            },
        }
        i += 1;
    }
    proof {
        assert(tools@.subrange(0, n as int) =~= tools@);
    }
    (readonly, unannotated)
}

/// All advertised tools: the prefixed extension tools as given, and the
/// frontend tools appended, which carry no prefix because their names are
/// already unique.
pub fn combine_prefixed_tools(extension_tools: Vec<Tool>, frontend: &Vec<FrontendTool>) -> (r: Vec<
    Tool,
>)
    ensures
        r@.len() == extension_tools@.len() + frontend@.len(),
        r@.subrange(0, extension_tools@.len() as int) == extension_tools@,
        forall|i: int|
            0 <= i < frontend@.len() ==> #[trigger] r@[extension_tools@.len() + i]
                == frontend@[i].tool,
{
    let ghost ext0 = extension_tools@;
    let mut out = extension_tools;
    let n = frontend.len();
    let mut i: usize = 0;
    while i < n
        invariant
            n == frontend@.len(),
            i <= n,
            out@.len() == ext0.len() + i,
            out@.subrange(0, ext0.len() as int) == ext0,
            forall|j: int| 0 <= j < i ==> #[trigger] out@[ext0.len() + j] == frontend@[j].tool,
        decreases n - i,
    {
        out.push(frontend[i].tool.clone());
        proof {
            assert(out@.subrange(0, ext0.len() as int) =~= ext0);
        }
        i += 1;
    }
    out
}

/// Appending one element to a filtered sequence: the filter of the extended
/// sequence is the old filter, plus the element when it passes.
pub proof fn lemma_filter_push<A>(s: Seq<A>, x: A, pred: spec_fn(A) -> bool)
    ensures
        s.push(x).filter(pred) == if pred(x) {
            s.filter(pred).push(x)
        } else {
            s.filter(pred)
        },
{
    reveal(Seq::filter);
    assert(s.push(x).drop_last() =~= s);
}

} // verus!
