//! Extension management: the decisions and response texts of the
//! `platform.manage_extensions` tool, and the error reported when indexing
//! a freshly added extension fails. The extension processes themselves live
//! outside; the driver performs the mutations and hands their outcomes back.

use vstd::prelude::*;
use crate::message::{Content, ToolError, ok_text_is, err_text_is};
use crate::strutil::str_eq;

verus! {

/// What the extension host reported for the requested mutation.
#[derive(Clone, Debug)]
pub enum ExtensionActionOutcome {
    RemoveOk,
    RemoveErr(String),
    ConfigMissing,
    ConfigErr(String),
    AddOk,
    AddErr(String),
}

/// What became of the vector-index update after a successful mutation.
#[derive(Clone, Debug)]
pub enum IndexOutcome {
    NotIndexed,
    Indexed,
    IndexErr(String),
}

/// The reply to a successful disable.
pub open spec fn disabled_text(name: Seq<char>) -> Seq<char> {
    "The extension '"@ + name + "' has been disabled successfully"@
}

/// The reply to a successful enable.
pub open spec fn installed_text(name: Seq<char>) -> Seq<char> {
    "The extension '"@ + name + "' has been installed successfully"@
}

/// The reply when no extension of that name is configured.
pub open spec fn extension_not_found_text(name: Seq<char>) -> Seq<char> {
    "Extension '"@ + name + "' not found. Please check the extension name and try again."@
}

/// The reply when the configuration store failed.
pub open spec fn config_failed_text(why: Seq<char>) -> Seq<char> {
    "Failed to get extension config: "@ + why
}

/// The reply when the vector index could not be updated.
pub open spec fn index_failed_text(why: Seq<char>) -> Seq<char> {
    "Failed to update vector index: "@ + why
}

/// The setup error reported when indexing a freshly added extension fails;
/// the extension itself stays added.
pub open spec fn index_setup_error_text(name: Seq<char>, why: Seq<char>) -> Seq<char> {
    "Failed to index tools for extension "@ + name + ": "@ + why
}

/// Whether a manage-extensions action asks for a disable; everything else
/// is treated as an enable.
pub fn action_is_disable(action: &str) -> (r: bool)
    ensures
        r == (action@ == "disable"@),
{
    str_eq(action, "disable")
}

/// Builds the setup error for a failed indexing of a fresh extension.
pub fn index_setup_error(name: &str, why: &str) -> (r: String)
    ensures
        r@ == index_setup_error_text(name@, why@),
{
    let mut s = String::from_str("Failed to index tools for extension ");
    s.append(name);
    s.append(": ");
    s.append(why);
    proof {
        assert(s@ =~= index_setup_error_text(name@, why@));
    }
    s
}

/// Renders the reply of the manage-extensions tool from what the host and
/// the index reported: a failed mutation or lookup is the error as given;
/// a successful mutation whose indexing failed reports the index failure,
/// the mutation itself not being rolled back; otherwise the fixed success
/// text for the action.
pub fn render_manage_extensions(
    extension_name: &str,
    outcome: ExtensionActionOutcome,
    index: IndexOutcome,
) -> (r: Result<Vec<Content>, ToolError>)
    ensures
        outcome matches ExtensionActionOutcome::RemoveErr(e) ==> err_text_is(r, e@),
        outcome matches ExtensionActionOutcome::AddErr(e) ==> err_text_is(r, e@),
        outcome matches ExtensionActionOutcome::ConfigMissing ==> err_text_is(
            r,
            extension_not_found_text(extension_name@),
        ),
        outcome matches ExtensionActionOutcome::ConfigErr(e) ==> err_text_is(
            r,
            config_failed_text(e@),
        ),
        outcome matches ExtensionActionOutcome::RemoveOk ==> (match index {
            IndexOutcome::IndexErr(e) => err_text_is(r, index_failed_text(e@)),
            _ => ok_text_is(r, disabled_text(extension_name@)),
        }),
        outcome matches ExtensionActionOutcome::AddOk ==> (match index {
            IndexOutcome::IndexErr(e) => err_text_is(r, index_failed_text(e@)),
            _ => ok_text_is(r, installed_text(extension_name@)),
        }),
{
    match outcome {
        ExtensionActionOutcome::RemoveErr(e) => Err(ToolError::ExecutionError(e)),
        ExtensionActionOutcome::AddErr(e) => Err(ToolError::ExecutionError(e)),
        ExtensionActionOutcome::ConfigMissing => {
            let mut s = String::from_str("Extension '");
            s.append(extension_name);
            s.append("' not found. Please check the extension name and try again.");
            proof {
                assert(s@ =~= extension_not_found_text(extension_name@));
            }
            Err(ToolError::ExecutionError(s))
        },
        ExtensionActionOutcome::ConfigErr(e) => {
            let mut s = String::from_str("Failed to get extension config: ");
            s.append(e.as_str());
            Err(ToolError::ExecutionError(s))
        },
        ExtensionActionOutcome::RemoveOk => match index {
            IndexOutcome::IndexErr(e) => {
                let mut s = String::from_str("Failed to update vector index: ");
                s.append(e.as_str());
                Err(ToolError::ExecutionError(s))
            },
            _ => {
                let mut s = String::from_str("The extension '");
                s.append(extension_name);
                s.append("' has been disabled successfully");
                proof {
                    assert(s@ =~= disabled_text(extension_name@));
                }
                Ok(vec![Content::Text(s)])
            },
        },
        ExtensionActionOutcome::AddOk => match index {
            IndexOutcome::IndexErr(e) => {
                let mut s = String::from_str("Failed to update vector index: ");
                s.append(e.as_str());
                Err(ToolError::ExecutionError(s))
            },
            _ => {
                let mut s = String::from_str("The extension '");
                s.append(extension_name);
                s.append("' has been installed successfully");
                proof {
                    assert(s@ =~= installed_text(extension_name@));
                }
                Ok(vec![Content::Text(s)])
            },
        },
    }
}

} // verus!
