//! JSON output the library writes itself: string escaping and the
//! pretty-printed array of scheduled jobs, two-space indented, fields in
//! declaration order.

use vstd::prelude::*;
use crate::scheduler::ScheduledJob;
use crate::strutil::push_char;

verus! {

/// The character for one hexadecimal digit.
pub open spec fn hex_digit_char(d: nat) -> char {
    if d == 0 {
        '0'
    } else if d == 1 {
        '1'
    } else if d == 2 {
        '2'
    } else if d == 3 {
        '3'
    } else if d == 4 {
        '4'
    } else if d == 5 {
        '5'
    } else if d == 6 {
        '6'
    } else if d == 7 {
        '7'
    } else if d == 8 {
        '8'
    } else if d == 9 {
        '9'
    } else if d == 10 {
        'a'
    } else if d == 11 {
        'b'
    } else if d == 12 {
        'c'
    } else if d == 13 {
        'd'
    } else if d == 14 {
        'e'
    } else {
        'f'
    }
}

/// How one character is written inside a JSON string: quote and backslash
/// get a backslash, the short control escapes are used where JSON has them,
/// any other control character becomes a `\u00..` escape, and everything
/// else stands as itself.
pub open spec fn esc_char(c: char) -> Seq<char> {
    if c == '"' {
        seq!['\\', '"']
    } else if c == '\\' {
        seq!['\\', '\\']
    } else if c == '\u{8}' {
        seq!['\\', 'b']
    } else if c == '\u{c}' {
        seq!['\\', 'f']
    } else if c == '\n' {
        seq!['\\', 'n']
    } else if c == '\r' {
        seq!['\\', 'r']
    } else if c == '\t' {
        seq!['\\', 't']
    } else if (c as u32) < 32 {
        seq!['\\', 'u', '0', '0', hex_digit_char(((c as u32) / 16) as nat), hex_digit_char(
            ((c as u32) % 16) as nat,
        )]
    } else {
        seq![c]
    }
}

/// A whole character sequence, escaped for JSON.
pub open spec fn json_escape(s: Seq<char>) -> Seq<char>
    decreases s.len(),
{
    if s.len() == 0 {
        Seq::empty()
    } else {
        esc_char(s[0]) + json_escape(s.drop_first())
    }
}

/// A JSON string literal: the escaped text between quotes.
pub open spec fn json_string(s: Seq<char>) -> Seq<char> {
    seq!['"'] + json_escape(s) + seq!['"']
}

proof fn lemma_json_escape_push(s: Seq<char>, c: char)
    ensures
        json_escape(s.push(c)) =~= json_escape(s) + esc_char(c),
    decreases s.len(),
{
    if s.len() == 0 {
        assert(s.push(c)[0] == c);
        assert(s.push(c).drop_first() =~= Seq::<char>::empty());
        assert(json_escape(s.push(c)) == esc_char(c) + json_escape(Seq::<char>::empty()));
        assert(json_escape(s) == Seq::<char>::empty());
        assert(esc_char(c) + Seq::<char>::empty() =~= esc_char(c));
        assert(Seq::<char>::empty() + esc_char(c) =~= esc_char(c));
    } else {
        lemma_json_escape_push(s.drop_first(), c);
        assert(s.push(c)[0] == s[0]);
        assert(s.push(c).drop_first() =~= s.drop_first().push(c));
        assert(json_escape(s.push(c)) == esc_char(s[0]) + json_escape(s.drop_first().push(c)));
        assert(json_escape(s) == esc_char(s[0]) + json_escape(s.drop_first()));
        assert(esc_char(s[0]) + (json_escape(s.drop_first()) + esc_char(c)) =~= (esc_char(s[0])
            + json_escape(s.drop_first())) + esc_char(c));
    }
}

/// One hexadecimal digit.
fn hex_char(d: u32) -> (r: char)
    requires
        d < 16,
    ensures
        r == hex_digit_char(d as nat),
{
    if d == 0 {
        '0'
    } else if d == 1 {
        '1'
    } else if d == 2 {
        '2'
    } else if d == 3 {
        '3'
    } else if d == 4 {
        '4'
    } else if d == 5 {
        '5'
    } else if d == 6 {
        '6'
    } else if d == 7 {
        '7'
    } else if d == 8 {
        '8'
    } else if d == 9 {
        '9'
    } else if d == 10 {
        'a'
    } else if d == 11 {
        'b'
    } else if d == 12 {
        'c'
    } else if d == 13 {
        'd'
    } else if d == 14 {
        'e'
    } else {
        'f'
    }
}

/// Appends one character, escaped for JSON.
fn append_esc_char(out: &mut String, c: char)
    ensures
        final(out)@ == old(out)@ + esc_char(c),
{
    if c == '"' {
        push_char(out, '\\');
        push_char(out, '"');
    } else if c == '\\' {
        push_char(out, '\\');
        push_char(out, '\\');
    } else if c == '\u{8}' {
        push_char(out, '\\');
        push_char(out, 'b');
    } else if c == '\u{c}' {
        push_char(out, '\\');
        push_char(out, 'f');
    } else if c == '\n' {
        push_char(out, '\\');
        push_char(out, 'n');
    } else if c == '\r' {
        push_char(out, '\\');
        push_char(out, 'r');
    } else if c == '\t' {
        push_char(out, '\\');
        push_char(out, 't');
    } else if (c as u32) < 32 {
        push_char(out, '\\');
        push_char(out, 'u');
        push_char(out, '0');
        push_char(out, '0');
        push_char(out, hex_char((c as u32) / 16));
        push_char(out, hex_char((c as u32) % 16));
    } else {
        push_char(out, c);
    }
    proof {
        assert(out@ =~= old(out)@ + esc_char(c));
    }
}

/// Appends `s` as a JSON string literal, quotes and escapes included.
pub fn append_json_string(out: &mut String, s: &str)
    ensures
        final(out)@ == old(out)@ + json_string(s@),
{
    push_char(out, '"');
    let n = s.unicode_len();
    let mut i: usize = 0;
    while i < n
        invariant
            n == s@.len(),
            i <= n,
            out@ =~= old(out)@ + seq!['"'] + json_escape(s@.take(i as int)),
        decreases n - i,
    {
        let c = s.get_char(i);
        append_esc_char(out, c);
        proof {
            assert(s@.take(i + 1) =~= s@.take(i as int).push(s@[i as int]));
            lemma_json_escape_push(s@.take(i as int), s@[i as int]);
            assert(out@ =~= old(out)@ + seq!['"'] + json_escape(s@.take(i + 1)));
        }
        i += 1;
    }
    push_char(out, '"');
    proof {
        assert(s@.take(n as int) =~= s@);
        assert(out@ =~= old(out)@ + json_string(s@));
    }
}

/// An optional string as JSON: the string, or `null`.
pub open spec fn opt_str_json(o: Option<String>) -> Seq<char> {
    match o {
        Some(s) => json_string(s@),
        None => "null"@,
    }
}

/// A boolean as JSON.
pub open spec fn bool_json(b: bool) -> Seq<char> {
    if b {
        "true"@
    } else {
        "false"@
    }
}

/// Appends an optional string as JSON.
fn append_opt_str_json(out: &mut String, o: &Option<String>)
    ensures
        final(out)@ == old(out)@ + opt_str_json(*o),
{
    match o {
        Some(s) => append_json_string(out, s.as_str()),
        None => out.append("null"),
    }
}

/// Appends a boolean as JSON.
fn append_bool_json(out: &mut String, b: bool)
    ensures
        final(out)@ == old(out)@ + bool_json(b),
{
    if b {
        out.append("true");
    } else {
        out.append("false");
    }
}

/// One job as a pretty-printed JSON object, indented for its place inside
/// the jobs array.
pub open spec fn job_json(j: ScheduledJob) -> Seq<char> {
    "  {\n    \"id\": "@ + json_string(j.id@) + ",\n    \"source\": "@ + json_string(j.source@)
        + ",\n    \"cron\": "@ + json_string(j.cron@) + ",\n    \"last_run\": "@ + opt_str_json(
        j.last_run,
    ) + ",\n    \"currently_running\": "@ + bool_json(j.currently_running)
        + ",\n    \"paused\": "@ + bool_json(j.paused) + ",\n    \"current_session_id\": "@
        + opt_str_json(j.current_session_id) + ",\n    \"process_start_time\": "@ + opt_str_json(
        j.process_start_time,
    ) + "\n  }"@
}

/// Appends one job as a pretty-printed JSON object.
#[verifier::rlimit(50)]
fn append_job_json(out: &mut String, j: &ScheduledJob)
    ensures
        final(out)@ == old(out)@ + job_json(*j),
{
    out.append("  {\n    \"id\": ");
    append_json_string(out, j.id.as_str());
    out.append(",\n    \"source\": ");
    append_json_string(out, j.source.as_str());
    out.append(",\n    \"cron\": ");
    append_json_string(out, j.cron.as_str());
    out.append(",\n    \"last_run\": ");
    append_opt_str_json(out, &j.last_run);
    out.append(",\n    \"currently_running\": ");
    append_bool_json(out, j.currently_running);
    out.append(",\n    \"paused\": ");
    append_bool_json(out, j.paused);
    out.append(",\n    \"current_session_id\": ");
    append_opt_str_json(out, &j.current_session_id);
    out.append(",\n    \"process_start_time\": ");
    append_opt_str_json(out, &j.process_start_time);
    out.append("\n  }");
    proof {
        assert(out@ =~= old(out)@ + job_json(*j));
    }
}

/// The jobs joined by `,\n`, each as its object.
pub open spec fn jobs_join(jobs: Seq<ScheduledJob>) -> Seq<char>
    decreases jobs.len(),
{
    if jobs.len() == 0 {
        Seq::empty()
    } else if jobs.len() == 1 {
        job_json(jobs[0])
    } else {
        job_json(jobs[0]) + ",\n"@ + jobs_join(jobs.drop_first())
    }
}

/// The whole jobs array, pretty-printed: `[]` when empty, else one object
/// per job between brackets.
pub open spec fn jobs_json(jobs: Seq<ScheduledJob>) -> Seq<char> {
    if jobs.len() == 0 {
        "[]"@
    } else {
        "[\n"@ + jobs_join(jobs) + "\n]"@
    }
}

proof fn lemma_jobs_join_push(jobs: Seq<ScheduledJob>, j: ScheduledJob)
    ensures
        jobs.len() == 0 ==> jobs_join(jobs.push(j)) =~= job_json(j),
        jobs.len() > 0 ==> jobs_join(jobs.push(j)) =~= jobs_join(jobs) + ",\n"@ + job_json(j),
    decreases jobs.len(),
{
    if jobs.len() == 0 {
        assert(jobs.push(j)[0] == j);
    } else {
        lemma_jobs_join_push(jobs.drop_first(), j);
        assert(jobs.push(j).drop_first() =~= jobs.drop_first().push(j));
        assert(jobs.push(j)[0] == jobs[0]);
    }
}

/// Writes the jobs array as serde-style pretty JSON.
pub fn render_jobs_json(jobs: &Vec<ScheduledJob>) -> (r: String)
    ensures
        r@ == jobs_json(jobs@),
{
    let n = jobs.len();
    if n == 0 {
        let r = String::from_str("[]");
        proof {
            assert(r@ =~= jobs_json(jobs@));
        }
        return r;
    }
    let mut out = String::from_str("[\n");
    let mut i: usize = 0;
    while i < n
        invariant
            n == jobs@.len(),
            n > 0,
            i <= n,
            out@ =~= "[\n"@ + jobs_join(jobs@.take(i as int)),
        decreases n - i,
    {
        if i > 0 {
            out.append(",\n");
        }
        append_job_json(&mut out, &jobs[i]);
        proof {
            assert(jobs@.take(i + 1) =~= jobs@.take(i as int).push(jobs@[i as int]));
            lemma_jobs_join_push(jobs@.take(i as int), jobs@[i as int]);
            assert(out@ =~= "[\n"@ + jobs_join(jobs@.take(i + 1)));
        }
        i += 1;
    }
    out.append("\n]");
    proof {
        assert(jobs@.take(n as int) =~= jobs@);
        assert(out@ =~= jobs_json(jobs@));
    }
    out
}

} // verus!
