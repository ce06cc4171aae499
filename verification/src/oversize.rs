//! The large-response policy: a successful tool output whose text exceeds a
//! configured character threshold is replaced by a short notice directing
//! the caller to the resource listing; everything else passes through
//! untouched.

use vstd::prelude::*;
use crate::message::{Content, ToolOutput, ok_text_is};
use crate::strutil::dec_str;

verus! {

/// The characters of text a tool output carries, over all its text parts.
pub open spec fn total_text_len(contents: Seq<Content>) -> nat
    decreases contents.len(),
{
    if contents.len() == 0 {
        0
    } else {
        (match contents[0] {
            Content::Text(t) => t@.len(),
            Content::Image { mime_type, data } => 0,
        }) + total_text_len(contents.drop_first())
    }
}

proof fn lemma_total_text_len_push(contents: Seq<Content>, c: Content)
    ensures
        total_text_len(contents.push(c)) == total_text_len(contents) + (match c {
            Content::Text(t) => t@.len(),
            Content::Image { mime_type, data } => 0nat,
        }),
    decreases contents.len(),
{
    if contents.len() == 0 {
        assert(contents.push(c)[0] == c);
        assert(contents.push(c).drop_first() =~= Seq::<Content>::empty());
        assert(total_text_len(Seq::<Content>::empty()) == 0);
        assert(total_text_len(contents.push(c)) == (match c {
            Content::Text(t) => t@.len(),
            Content::Image { mime_type, data } => 0nat,
        }) + total_text_len(Seq::<Content>::empty()));
        assert(total_text_len(contents) == 0);
    } else {
        lemma_total_text_len_push(contents.drop_first(), c);
        assert(contents.push(c)[0] == contents[0]);
        assert(contents.push(c).drop_first() =~= contents.drop_first().push(c));
        assert(total_text_len(contents.push(c)) == (match contents[0] {
            Content::Text(t) => t@.len(),
            Content::Image { mime_type, data } => 0nat,
        }) + total_text_len(contents.drop_first().push(c)));
        assert(total_text_len(contents) == (match contents[0] {
            Content::Text(t) => t@.len(),
            Content::Image { mime_type, data } => 0nat,
        }) + total_text_len(contents.drop_first()));
    }
}

/// The notice replacing an oversized output.
pub open spec fn oversize_notice_text(total: nat, threshold: nat) -> Seq<char> {
    "Tool output of "@ + dec_str(total)
        + " characters exceeded the limit of "@ + dec_str(threshold)
        + " characters and was replaced; fetch the full content through the resource listing."@
}

/// Decides whether the output's text exceeds `threshold` characters.
fn text_exceeds(contents: &Vec<Content>, threshold: usize) -> (r: bool)
    ensures
        r == (total_text_len(contents@) > threshold),
{
    let n = contents.len();
    let mut acc: usize = 0;
    let mut i: usize = 0;
    let mut over = false;
    while i < n
        invariant
            n == contents@.len(),
            i <= n,
            !over ==> acc == total_text_len(contents@.take(i as int)) && acc <= threshold,
            over ==> total_text_len(contents@.take(i as int)) > threshold,
        decreases n - i,
    {
        proof {
            assert(contents@.take(i + 1) =~= contents@.take(i as int).push(contents@[i as int]));
            lemma_total_text_len_push(contents@.take(i as int), contents@[i as int]);
        }
        let l: usize = match &contents[i] {
            Content::Text(t) => t.unicode_len(),
            Content::Image { mime_type: _, data: _ } => 0,
        };
        if !over {
            if l > threshold - acc {
                over = true;
            } else {
                acc = acc + l;
            }
        }
        i += 1;
    }
    proof {
        assert(contents@.take(n as int) =~= contents@);
    }
    over
}

/// Sums the output's text length exactly, stopping at the usize ceiling.
fn text_len_capped(contents: &Vec<Content>) -> (r: usize)
    ensures
        r == total_text_len(contents@) || (r == usize::MAX && total_text_len(contents@)
            >= usize::MAX),
{
    let n = contents.len();
    let mut acc: usize = 0;
    let mut i: usize = 0;
    while i < n
        invariant
            n == contents@.len(),
            i <= n,
            acc == total_text_len(contents@.take(i as int)) || (acc == usize::MAX
                && total_text_len(contents@.take(i as int)) >= usize::MAX),
        decreases n - i,
    {
        proof {
            assert(contents@.take(i + 1) =~= contents@.take(i as int).push(contents@[i as int]));
            lemma_total_text_len_push(contents@.take(i as int), contents@[i as int]);
        }
        let l: usize = match &contents[i] {
            Content::Text(t) => t.unicode_len(),
            Content::Image { mime_type: _, data: _ } => 0,
        };
        if l > usize::MAX - acc {
            acc = usize::MAX;
        } else {
            acc = acc + l;
        }
        i += 1;
    }
    proof {
        assert(contents@.take(n as int) =~= contents@);
    }
    acc
}

/// Applies the large-response policy: an error or an output within the
/// threshold passes through as it came; an oversized success is replaced by
/// the notice naming its size and the threshold.
pub fn process_tool_response(output: ToolOutput, threshold: usize) -> (r: ToolOutput)
    ensures
        output matches Err(e) ==> r == output,
        output matches Ok(c) ==> ({
            &&& (total_text_len(c@) <= threshold ==> r == output)
            &&& (total_text_len(c@) > threshold && total_text_len(c@) < usize::MAX
                ==> ok_text_is(r, oversize_notice_text(total_text_len(c@), threshold as nat)))
        }),
{
    match output {
        Err(e) => Err(e),
        Ok(contents) => {
            if !text_exceeds(&contents, threshold) {
                Ok(contents)
            } else {
                let total = text_len_capped(&contents);
                let mut s = String::from_str("Tool output of ");
                let total_str = crate::strutil::u64_to_string(total as u64);
                s.append(total_str.as_str());
                s.append(" characters exceeded the limit of ");
                let threshold_str = crate::strutil::u64_to_string(threshold as u64);
                s.append(threshold_str.as_str());
                s.append(
                    " characters and was replaced; fetch the full content through the resource listing.",
                );
                proof {
                    if total_text_len(contents@) < usize::MAX {
                        assert(s@ =~= oversize_notice_text(
                            total_text_len(contents@),
                            threshold as nat,
                        ));
                    }
                }
                Ok(vec![Content::Text(s)])
            }
        },
    }
}

} // verus!
