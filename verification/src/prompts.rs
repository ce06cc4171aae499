//! Prompts as extensions offer them, and the lookup that finds which
//! extension owns a prompt name.

use vstd::prelude::*;
use crate::strutil::str_eq;

verus! {

/// One prompt an extension offers.
#[derive(Debug)]
pub struct Prompt {
    pub name: String,
    pub description: String,
}

impl Clone for Prompt {
    fn clone(&self) -> (r: Self)
        ensures
            r == *self,
    {
        Prompt { name: self.name.clone(), description: self.description.clone() }
    }
}

/// The prompts one extension offers.
#[derive(Debug)]
pub struct ExtensionPrompts {
    pub extension: String,
    pub prompts: Vec<Prompt>,
}

/// Whether some prompt of the list carries this name.
pub open spec fn has_prompt_named(prompts: Seq<Prompt>, name: Seq<char>) -> bool {
    exists|j: int| 0 <= j < prompts.len() && (#[trigger] prompts[j]).name@ == name
}

/// Decides whether some prompt of the list carries this name.
fn prompts_contain(prompts: &Vec<Prompt>, name: &str) -> (r: bool)
    ensures
        r == has_prompt_named(prompts@, name@),
{
    let n = prompts.len();
    let mut i: usize = 0;
    while i < n
        invariant
            n == prompts@.len(),
            i <= n,
            forall|j: int| 0 <= j < i ==> (#[trigger] prompts@[j]).name@ != name@,
        decreases n - i,
    {
        if str_eq(prompts[i].name.as_str(), name) {
            return true;
        }
        i += 1;
    }
    false
}

/// The first extension whose prompt list offers `name`: the owner a prompt
/// request is forwarded to.
pub fn find_prompt_extension<'a>(listing: &'a Vec<ExtensionPrompts>, name: &str) -> (r: Option<
    &'a String,
>)
    ensures
        match r {
            Some(ext) => exists|i: int|
                0 <= i < listing@.len() && (#[trigger] listing@[i]).extension@ == ext@
                    && has_prompt_named(listing@[i].prompts@, name@),
            None => forall|i: int|
                0 <= i < listing@.len() ==> !has_prompt_named(
                    (#[trigger] listing@[i]).prompts@,
                    name@,
                ),
        },
{
    let n = listing.len();
    let mut i: usize = 0;
    while i < n
        invariant
            n == listing@.len(),
            i <= n,
            forall|j: int|
                0 <= j < i ==> !has_prompt_named((#[trigger] listing@[j]).prompts@, name@),
        decreases n - i,
    {
        if prompts_contain(&listing[i].prompts, name) {
            return Some(&listing[i].extension);
        }
        i += 1;
    }
    None
}

} // verus!
