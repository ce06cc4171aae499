//! The text fallback of recipe creation from a chat: when the provider's
//! answer is not JSON, the instructions and activities are read out of
//! plain text, split at the `instructions:` and `activities:` markers,
//! with list bullets stripped off the activity lines.

use vstd::prelude::*;

verus! {

/// ASCII whitespace.
pub open spec fn is_ws(c: char) -> bool {
    c == ' ' || c == '\t' || c == '\n' || c == '\r'
}

/// Whitespace or the heading marks trimmed off the instructions.
pub open spec fn ws_or_hash(c: char) -> bool {
    is_ws(c) || c == '#'
}

/// A list-bullet character: a bullet mark, dash, star or digit.
pub open spec fn is_bullet(c: char) -> bool {
    c == '\u{2022}' || c == '-' || c == '*' || (48 <= (c as u32) <= 57)
}

/// Whether `pat` stands in `s` at position `i`.
pub open spec fn match_at(s: Seq<char>, pat: Seq<char>, i: int) -> bool {
    0 <= i && i + pat.len() <= s.len() && s.subrange(i, i + pat.len()) == pat
}

/// The first position of `pat` in `s` at or after `i`, or minus one.
pub open spec fn find_from(s: Seq<char>, pat: Seq<char>, i: int) -> int
    decreases s.len() - i,
{
    if pat.len() == 0 || i < 0 || i + pat.len() > s.len() {
        -1
    } else if match_at(s, pat, i) {
        i
    } else {
        find_from(s, pat, i + 1)
    }
}

proof fn lemma_find_from_at(s: Seq<char>, pat: Seq<char>, from: int, i: int)
    requires
        pat.len() > 0,
        0 <= from <= i,
        match_at(s, pat, i),
        forall|k: int| from <= k < i ==> !match_at(s, pat, k),
    ensures
        find_from(s, pat, from) == i,
    decreases i - from,
{
    if from < i {
        lemma_find_from_at(s, pat, from + 1, i);
    }
}

proof fn lemma_find_from_absent(s: Seq<char>, pat: Seq<char>, from: int)
    requires
        0 <= from,
        forall|k: int| from <= k ==> !match_at(s, pat, k),
    ensures
        find_from(s, pat, from) == -1,
    decreases s.len() - from,
{
    if pat.len() > 0 && from + pat.len() <= s.len() {
        lemma_find_from_absent(s, pat, from + 1);
    }
}

/// Finds the first occurrence of `pat` in `s`.
pub fn find_sub(s: &str, pat: &str) -> (r: Option<usize>)
    ensures
        match r {
            Some(i) => find_from(s@, pat@, 0) == i as int && match_at(s@, pat@, i as int),
            None => find_from(s@, pat@, 0) == -1,
        },
{
    let n = s.unicode_len();
    let m = pat.unicode_len();
    if m == 0 {
        return None;
    }
    if m > n {
        proof {
            lemma_find_from_absent(s@, pat@, 0);
        }
        return None;
    }
    let mut i: usize = 0;
    while i <= n - m
        invariant
            n == s@.len(),
            m == pat@.len(),
            0 < m <= n,
            i <= n - m + 1,
            forall|k: int| 0 <= k < i ==> !match_at(s@, pat@, k),
        decreases n - i,
    {
        let mut j: usize = 0;
        let mut hit = true;
        while j < m
            invariant
                n == s@.len(),
                m == pat@.len(),
                i + m <= n,
                j <= m,
                hit ==> forall|k: int| 0 <= k < j ==> s@[i + k] == pat@[k],
                !hit ==> !match_at(s@, pat@, i as int),
            decreases m - j,
        {
            if s.get_char(i + j) != pat.get_char(j) {
                proof {
                    if match_at(s@, pat@, i as int) {
                        assert(s@.subrange(i as int, i + m)[j as int] == pat@[j as int]);
                    }
                }
                hit = false;
                j = m;
            } else {
                j += 1;
            }
        }
        if hit {
            proof {
                assert(s@.subrange(i as int, i + m) =~= pat@);
                lemma_find_from_at(s@, pat@, 0, i as int);
            }
            return Some(i);
        }
        i += 1;
    }
    proof {
        assert forall|k: int| 0 <= k implies !match_at(s@, pat@, k) by {
            if k < i {
            } else {
                assert(k + pat@.len() > s@.len());
            }
        }
        lemma_find_from_absent(s@, pat@, 0);
    }
    None
}

/// The run of characters satisfying `p` from position `i` on.
pub open spec fn run_len(s: Seq<char>, p: spec_fn(char) -> bool, i: int) -> int
    decreases s.len() - i,
{
    if 0 <= i < s.len() && p(s[i]) {
        1 + run_len(s, p, i + 1)
    } else {
        0
    }
}

proof fn lemma_run_len_characterize(s: Seq<char>, p: spec_fn(char) -> bool, i: int, j: int)
    requires
        0 <= i <= j <= s.len(),
        forall|k: int| i <= k < j ==> p(s[k]),
        j < s.len() ==> !p(s[j]),
    ensures
        run_len(s, p, i) == j - i,
    decreases j - i,
{
    if i < j {
        lemma_run_len_characterize(s, p, i + 1, j);
    }
}

/// `s` with everything before the first occurrence of `pat`, and the
/// occurrence itself, cut off; all of `s` when `pat` does not occur.
pub open spec fn tail_after(s: Seq<char>, pat: Seq<char>) -> Seq<char> {
    let i = find_from(s, pat, 0);
    if i >= 0 {
        s.subrange(i + pat.len(), s.len() as int)
    } else {
        s
    }
}

/// The trailing run satisfying `p` dropped.
pub open spec fn trim_end_while(s: Seq<char>, p: spec_fn(char) -> bool) -> Seq<char>
    decreases s.len(),
{
    if s.len() > 0 && p(s.last()) {
        trim_end_while(s.drop_last(), p)
    } else {
        s
    }
}

/// The leading run satisfying `p` dropped.
pub open spec fn trim_start_while(s: Seq<char>, p: spec_fn(char) -> bool) -> Seq<char>
    decreases s.len(),
{
    if s.len() > 0 && p(s.first()) {
        trim_start_while(s.drop_first(), p)
    } else {
        s
    }
}

/// Leading and trailing whitespace dropped.
pub open spec fn trim_ws(s: Seq<char>) -> Seq<char> {
    trim_start_while(trim_end_while(s, |c: char| is_ws(c)), |c: char| is_ws(c))
}

proof fn lemma_trim_end_characterize(s: Seq<char>, p: spec_fn(char) -> bool, j: int)
    requires
        0 <= j <= s.len(),
        forall|k: int| j <= k < s.len() ==> p(s[k]),
        j > 0 ==> !p(s[j - 1]),
    ensures
        trim_end_while(s, p) == s.take(j),
    decreases s.len(),
{
    if s.len() > j {
        assert(p(s.last()));
        lemma_trim_end_characterize(s.drop_last(), p, j);
        assert(s.drop_last().take(j) =~= s.take(j));
    } else {
        assert(s.take(j) =~= s);
    }
}

proof fn lemma_trim_start_characterize(s: Seq<char>, p: spec_fn(char) -> bool, j: int)
    requires
        0 <= j <= s.len(),
        forall|k: int| 0 <= k < j ==> p(s[k]),
        j < s.len() ==> !p(s[j]),
    ensures
        trim_start_while(s, p) == s.subrange(j, s.len() as int),
    decreases j,
{
    if j > 0 {
        assert(p(s.first()));
        lemma_trim_start_characterize(s.drop_first(), p, j - 1);
        assert(s.drop_first().subrange(j - 1, s.drop_first().len() as int) =~= s.subrange(
            j,
            s.len() as int,
        ));
    } else {
        assert(s.subrange(0, s.len() as int) =~= s);
    }
}

/// An activity line with its leading bullet marker stripped: one or more
/// bullet characters, an optional dot, and the whitespace after them.
pub open spec fn strip_bullet(line: Seq<char>) -> Seq<char> {
    let k = run_len(line, |c: char| is_bullet(c), 0);
    if k == 0 {
        line
    } else {
        let k2 = if k < line.len() && line[k] == '.' {
            k + 1
        } else {
            k
        };
        let k3 = k2 + run_len(line, |c: char| is_ws(c), k2);
        line.subrange(k3, line.len() as int)
    }
}

/// What one line contributes: the bullet stripped, then trimmed.
pub open spec fn activity_of(line: Seq<char>) -> Seq<char> {
    trim_ws(strip_bullet(line))
}

/// The nonempty activities of a block of lines, in order.
pub open spec fn activities_from(s: Seq<char>) -> Seq<Seq<char>>
    decreases s.len(),
{
    let i = find_from(s, seq!['\n'], 0);
    if 0 <= i < s.len() {
        let a = activity_of(s.take(i));
        let rest = activities_from(s.subrange(i + 1, s.len() as int));
        if a.len() > 0 {
            seq![a] + rest
        } else {
            rest
        }
    } else {
        let a = activity_of(s);
        if a.len() > 0 {
            seq![a]
        } else {
            Seq::empty()
        }
    }
}

/// The instructions read from a plain-text answer: the text after the
/// `instructions:` marker and before the `activities:` marker, trailing
/// whitespace and heading marks dropped, then trimmed.
pub open spec fn instructions_of_text(content: Seq<char>) -> Seq<char> {
    let after = tail_after(content, "instructions:"@);
    let j = find_from(after, "activities:"@, 0);
    let part = if j >= 0 {
        after.take(j)
    } else {
        after
    };
    trim_ws(trim_end_while(part, |c: char| ws_or_hash(c)))
}

/// The activities read from a plain-text answer: the lines after the
/// `activities:` marker, bullets stripped, empties dropped.
pub open spec fn activities_of_text(content: Seq<char>) -> Seq<Seq<char>> {
    let after = tail_after(content, "instructions:"@);
    let j = find_from(after, "activities:"@, 0);
    if j >= 0 {
        activities_from(trim_ws(after.subrange(j + 11, after.len() as int)))
    } else {
        Seq::empty()
    }
}

/// Trims `s` to its whitespace-free core, as a fresh string.
fn trim_str(s: &str) -> (r: String)
    ensures
        r@ == trim_ws(s@),
{
    let n = s.unicode_len();
    let mut e: usize = n;
    while e > 0
        invariant
            n == s@.len(),
            e <= n,
            forall|k: int| e <= k < n ==> is_ws(s@[k]),
        ensures
            e <= n,
            forall|k: int| e <= k < n ==> is_ws(s@[k]),
            e > 0 ==> !is_ws(s@[e - 1]),
        decreases e,
    {
        let c = s.get_char(e - 1);
        if !(c == ' ' || c == '\t' || c == '\n' || c == '\r') {
            break ;
        }
        e = e - 1;
    }
    let mut b: usize = 0;
    while b < e
        invariant
            n == s@.len(),
            e <= n,
            b <= e,
            forall|k: int| e <= k < n ==> is_ws(s@[k]),
            e > 0 ==> !is_ws(s@[e - 1]),
            forall|k: int| 0 <= k < b ==> is_ws(s@[k]),
        ensures
            b <= e,
            forall|k: int| 0 <= k < b ==> is_ws(s@[k]),
            b < e ==> !is_ws(s@[b as int]),
            e <= n,
            forall|k: int| e <= k < n ==> is_ws(s@[k]),
            e > 0 ==> !is_ws(s@[e - 1]),
        decreases e - b,
    {
        let c = s.get_char(b);
        if !(c == ' ' || c == '\t' || c == '\n' || c == '\r') {
            break ;
        }
        b = b + 1;
    }
    proof {
        lemma_trim_end_characterize(s@, |c: char| is_ws(c), e as int);
        if b == e {
            lemma_trim_start_characterize(s@.take(e as int), |c: char| is_ws(c), b as int);
        } else {
            lemma_trim_start_characterize(s@.take(e as int), |c: char| is_ws(c), b as int);
        }
        assert(s@.take(e as int).subrange(b as int, e as int) =~= s@.subrange(
            b as int,
            e as int,
        ));
    }
    String::from_str(s.substring_char(b, e))
}

/// Strips the bullet marker off one line and trims it.
fn activity_str(line: &str) -> (r: String)
    ensures
        r@ == activity_of(line@),
{
    let n = line.unicode_len();
    let mut k: usize = 0;
    while k < n
        invariant
            n == line@.len(),
            k <= n,
            forall|j: int| 0 <= j < k ==> is_bullet(line@[j]),
        ensures
            k <= n,
            forall|j: int| 0 <= j < k ==> is_bullet(line@[j]),
            k < n ==> !is_bullet(line@[k as int]),
        decreases n - k,
    {
        let c = line.get_char(k);
        if !(c == '\u{2022}' || c == '-' || c == '*' || (c >= '0' && c <= '9')) {
            proof {
                assert(!is_bullet(line@[k as int]));
            }
            break ;
        }
        k = k + 1;
    }
    proof {
        lemma_run_len_characterize(line@, |c: char| is_bullet(c), 0, k as int);
    }
    if k == 0 {
        return trim_str(line);
    }
    let mut k2: usize = k;
    if k < n {
        if line.get_char(k) == '.' {
            k2 = k + 1;
        }
    }
    let mut k3: usize = k2;
    while k3 < n
        invariant
            n == line@.len(),
            k2 <= k3 <= n,
            forall|j: int| k2 <= j < k3 ==> is_ws(line@[j]),
        ensures
            k2 <= k3 <= n,
            forall|j: int| k2 <= j < k3 ==> is_ws(line@[j]),
            k3 < n ==> !is_ws(line@[k3 as int]),
        decreases n - k3,
    {
        let c = line.get_char(k3);
        if !(c == ' ' || c == '\t' || c == '\n' || c == '\r') {
            break ;
        }
        k3 = k3 + 1;
    }
    proof {
        lemma_run_len_characterize(line@, |c: char| is_ws(c), k2 as int, k3 as int);
        assert(strip_bullet(line@) == line@.subrange(k3 as int, n as int));
    }
    let rest = line.substring_char(k3, n);
    trim_str(rest)
}

/// Reads the instructions and the activities out of a plain-text answer.
pub fn recipe_fields_from_text(content: &str) -> (r: (String, Vec<String>))
    ensures
        r.0@ == instructions_of_text(content@),
        r.1.deep_view() == activities_of_text(content@),
{
    let n = content.unicode_len();
    let after_start = match find_sub(content, "instructions:") {
        Some(i) => i + "instructions:".unicode_len(),
        None => 0,
    };
    let after = content.substring_char(after_start, n);
    proof {
        assert(after@ =~= tail_after(content@, "instructions:"@));
    }
    let m = after.unicode_len();
    let (instr_end, has_acts): (usize, bool) = match find_sub(after, "activities:") {
        Some(j) => (j, true),
        None => (m, false),
    };
    let instr_part = after.substring_char(0, instr_end);
    proof {
        if has_acts {
            assert(instr_part@ =~= after@.take(find_from(after@, "activities:"@, 0)));
        } else {
            assert(instr_part@ =~= after@);
        }
    }

    let mut e: usize = instr_end;
    while e > 0
        invariant
            instr_end == instr_part@.len(),
            e <= instr_end,
            forall|k: int| e <= k < instr_end ==> ws_or_hash(instr_part@[k]),
        ensures
            e <= instr_end,
            forall|k: int| e <= k < instr_end ==> ws_or_hash(instr_part@[k]),
            e > 0 ==> !ws_or_hash(instr_part@[e - 1]),
        decreases e,
    {
        let c = instr_part.get_char(e - 1);
        if !(c == ' ' || c == '\t' || c == '\n' || c == '\r' || c == '#') {
            break ;
        }
        e = e - 1;
    }
    proof {
        lemma_trim_end_characterize(instr_part@, |c: char| ws_or_hash(c), e as int);
    }
    let stripped = instr_part.substring_char(0, e);
    proof {
        assert(stripped@ =~= trim_end_while(instr_part@, |c: char| ws_or_hash(c)));
    }
    let instructions = trim_str(stripped);

    let mut activities: Vec<String> = Vec::new();
    if has_acts {
        proof {
            reveal_strlit("activities:");
            assert("activities:"@.len() == 11);
        }
        let acts_start = instr_end + 11;
        let raw = after.substring_char(acts_start, m);
        proof {
            assert(raw@ =~= after@.subrange(
                find_from(after@, "activities:"@, 0) + 11,
                after@.len() as int,
            ));
        }
        let block = trim_str(raw);
        let mut cur = block;
        let ghost mut acc: Seq<Seq<char>> = Seq::empty();
        proof {
            assert(activities_of_text(content@) =~= acc + activities_from(cur@));
        }
        loop
            invariant_except_break
                activities_of_text(content@) == acc + activities_from(cur@),
            invariant
                activities.deep_view() == acc,
            ensures
                activities.deep_view() == activities_of_text(content@),
            decreases cur@.len(),
        {
            match find_sub(cur.as_str(), "\n") {
                Some(i) => {
                    let line = cur.as_str().substring_char(0, i);
                    let a = activity_str(line);
                    proof {
                        reveal_strlit("\n");
                        assert("\n"@ =~= seq!['\n']);
                        assert(find_from(cur@, seq!['\n'], 0) == i as int);
                        assert(line@ =~= cur@.take(i as int));
                    }
                    if a.unicode_len() > 0 {
                        let ghost before = activities.deep_view();
                        activities.push(a);
                        proof {
                            assert(activities.deep_view() =~= before.push(
                                activity_of(cur@.take(i as int)),
                            ));
                            acc = acc.push(activity_of(cur@.take(i as int)));
                        }
                    }
                    let ghost cur_pre = cur@;
                    let ghost a_spec = activity_of(cur_pre.take(i as int));
                    let len = cur.as_str().unicode_len();
                    let rest = String::from_str(cur.as_str().substring_char(i + 1, len));
                    proof {
                        assert(rest@ =~= cur_pre.subrange(i + 1, cur_pre.len() as int));
                        assert(activities_from(cur_pre) == (if a_spec.len() > 0 {
                            seq![a_spec] + activities_from(rest@)
                        } else {
                            activities_from(rest@)
                        }));
                        if a_spec.len() > 0 {
                            assert((acc + (seq![a_spec] + activities_from(rest@))) =~= (acc.push(
                                a_spec,
                            ) + activities_from(rest@)));
                        }
                    }
                    cur = rest;
                },
                None => {
                    proof {
                        reveal_strlit("\n");
                        assert("\n"@ =~= seq!['\n']);
                        assert(find_from(cur@, seq!['\n'], 0) == -1);
                    }
                    let a = activity_str(cur.as_str());
                    if a.unicode_len() > 0 {
                        let ghost before = activities.deep_view();
                        activities.push(a);
                        proof {
                            acc = acc.push(activity_of(cur@));
                            assert(activities.deep_view() =~= acc);
                        }
                    }
                    proof {
                        assert(acc =~= activities_of_text(content@));
                    }
                    break ;
                },
            }
        }
    }
    (instructions, activities)
}

/// The fixed title given to a recipe drafted from a chat.
pub open spec fn recipe_title_text() -> Seq<char> {
    "Custom recipe from chat"@
}

/// The fixed description given to a recipe drafted from a chat.
pub open spec fn recipe_description_text() -> Seq<char> {
    "a custom recipe instance from this chat session"@
}

/// A recipe drafted from a conversation, before the outside concerns
/// (author, extension configs, serialization) are attached.
#[derive(Debug)]
pub struct RecipeDraft {
    pub title: String,
    pub description: String,
    pub instructions: String,
    pub activities: Vec<String>,
}

/// Drafts a recipe with the fixed title and description.
pub fn build_recipe_draft(instructions: String, activities: Vec<String>) -> (r: RecipeDraft)
    ensures
        r.title@ == recipe_title_text(),
        r.description@ == recipe_description_text(),
        r.instructions == instructions,
        r.activities == activities,
{
    RecipeDraft {
        title: String::from_str("Custom recipe from chat"),
        description: String::from_str("a custom recipe instance from this chat session"),
        instructions,
        activities,
    }
}

} // verus!
