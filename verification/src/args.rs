//! Arguments of a tool call, modelled as an ordered list of key/value pairs
//! holding plain values. The dispatch logic only ever reads top-level string
//! and unsigned-integer fields of the schemaless argument object, so that is
//! what the model holds.

use vstd::prelude::*;
use crate::strutil::str_eq;

verus! {

/// One plain argument value.
#[derive(Debug)]
pub enum ArgValue {
    Null,
    Bool(bool),
    Num(u64),
    Text(String),
}

/// One key/value pair of the argument object.
#[derive(Debug)]
pub struct ArgEntry {
    pub key: String,
    pub value: ArgValue,
}

/// The argument object of a tool call.
#[derive(Debug)]
pub struct ToolArgs {
    pub entries: Vec<ArgEntry>,
}

/// Two argument values are the same if they have the same shape and the
/// same contents, strings compared by their characters.
pub open spec fn arg_value_eq(a: ArgValue, b: ArgValue) -> bool {
    match (a, b) {
        (ArgValue::Null, ArgValue::Null) => true,
        (ArgValue::Bool(x), ArgValue::Bool(y)) => x == y,
        (ArgValue::Num(x), ArgValue::Num(y)) => x == y,
        (ArgValue::Text(x), ArgValue::Text(y)) => x@ == y@,
        _ => false,
    }
}

/// Pairwise sameness of two argument objects: same keys in the same order,
/// with the same values.
pub open spec fn args_eq(a: ToolArgs, b: ToolArgs) -> bool {
    &&& a.entries@.len() == b.entries@.len()
    &&& forall|i: int|
        0 <= i < a.entries@.len() ==> (#[trigger] a.entries@[i]).key@ == b.entries@[i].key@
            && arg_value_eq(a.entries@[i].value, b.entries@[i].value)
}

/// The value bound to `key` in a list of entries: the first entry with a
/// matching key, if any.
pub open spec fn lookup_entries(entries: Seq<ArgEntry>, key: Seq<char>) -> Option<ArgValue>
    decreases entries.len(),
{
    if entries.len() == 0 {
        None
    } else if entries[0].key@ == key {
        Some(entries[0].value)
    } else {
        lookup_entries(entries.drop_first(), key)
    }
}

/// The value bound to `key` in an argument object.
pub open spec fn lookup(args: ToolArgs, key: Seq<char>) -> Option<ArgValue> {
    lookup_entries(args.entries@, key)
}

/// The string bound to `key`, when the key is present and holds text.
pub open spec fn str_arg(args: ToolArgs, key: Seq<char>) -> Option<Seq<char>> {
    match lookup(args, key) {
        Some(ArgValue::Text(s)) => Some(s@),
        _ => None,
    }
}

/// The number bound to `key`, when the key is present and holds a number.
pub open spec fn num_arg(args: ToolArgs, key: Seq<char>) -> Option<u64> {
    match lookup(args, key) {
        Some(ArgValue::Num(n)) => Some(n),
        _ => None,
    }
}

proof fn lemma_lookup_step(entries: Seq<ArgEntry>, key: Seq<char>, i: int)
    requires
        0 <= i < entries.len(),
        forall|j: int| 0 <= j < i ==> entries[j].key@ != key,
    ensures
        entries[i].key@ == key ==> lookup_entries(entries, key) == Some(entries[i].value),
    decreases i,
{
    if i > 0 {
        lemma_lookup_step(entries.drop_first(), key, i - 1);
    }
}

proof fn lemma_lookup_none(entries: Seq<ArgEntry>, key: Seq<char>)
    requires
        forall|j: int| 0 <= j < entries.len() ==> entries[j].key@ != key,
    ensures
        lookup_entries(entries, key) is None,
    decreases entries.len(),
{
    if entries.len() > 0 {
        lemma_lookup_none(entries.drop_first(), key);
    }
}

impl ToolArgs {
    /// An argument object with no entries.
    pub fn new() -> (r: ToolArgs)
        ensures
            r.entries@.len() == 0,
    {
        ToolArgs { entries: Vec::new() }
    }

    /// Appends one key/value pair.
    pub fn push(&mut self, key: String, value: ArgValue)
        ensures
            final(self).entries@ == old(self).entries@.push(ArgEntry { key, value }),
    {
        self.entries.push(ArgEntry { key, value });
    }

    /// Looks `key` up: the first entry with that key, if any.
    pub fn get<'a>(&'a self, key: &str) -> (r: Option<&'a ArgValue>)
        ensures
            match r {
                Some(v) => lookup(*self, key@) == Some(*v),
                None => lookup(*self, key@) is None,
            },
    {
        let mut i: usize = 0;
        let n = self.entries.len();
        while i < n
            invariant
                n == self.entries@.len(),
                i <= n,
                forall|j: int| 0 <= j < i ==> self.entries@[j].key@ != key@,
            decreases n - i,
        {
            if str_eq(self.entries[i].key.as_str(), key) {
                proof {
                    lemma_lookup_step(self.entries@, key@, i as int);
                }
                return Some(&self.entries[i].value);
            }
            i += 1;
        }
        proof {
            lemma_lookup_none(self.entries@, key@);
        }
        None
    }

    /// The string bound to `key`, when present and textual.
    pub fn get_str<'a>(&'a self, key: &str) -> (r: Option<&'a String>)
        ensures
            match r {
                Some(s) => str_arg(*self, key@) == Some(s@),
                None => str_arg(*self, key@) is None,
            },
    {
        match self.get(key) {
            Some(ArgValue::Text(s)) => Some(s),
            _ => None,
        }
    }

    /// The number bound to `key`, when present and numeric.
    pub fn get_num(&self, key: &str) -> (r: Option<u64>)
        ensures
            r == num_arg(*self, key@),
    {
        match self.get(key) {
            Some(ArgValue::Num(n)) => Some(*n),
            _ => None,
        }
    }
}

impl Clone for ArgValue {
    fn clone(&self) -> (r: Self)
        ensures
            r == *self,
    {
        match self {
            ArgValue::Null => ArgValue::Null,
            ArgValue::Bool(b) => ArgValue::Bool(*b),
            ArgValue::Num(n) => ArgValue::Num(*n),
            ArgValue::Text(s) => ArgValue::Text(s.clone()),
        }
    }
}

impl Clone for ArgEntry {
    fn clone(&self) -> (r: Self)
        ensures
            r == *self,
    {
        ArgEntry { key: self.key.clone(), value: self.value.clone() }
    }
}

impl Clone for ToolArgs {
    fn clone(&self) -> (r: Self)
        ensures
            r.entries@ == self.entries@,
    {
        let mut entries: Vec<ArgEntry> = Vec::new();
        let n = self.entries.len();
        let mut i: usize = 0;
        while i < n
            invariant
                n == self.entries@.len(),
                i <= n,
                entries@ =~= self.entries@.subrange(0, i as int),
            decreases n - i,
        {
            entries.push(self.entries[i].clone());
            i += 1;
        }
        proof {
            assert(entries@ =~= self.entries@);
        }
        ToolArgs { entries }
    }
}

/// Decides `arg_value_eq` on two values.
pub fn arg_value_equal(a: &ArgValue, b: &ArgValue) -> (r: bool)
    ensures
        r == arg_value_eq(*a, *b),
{
    match (a, b) {
        (ArgValue::Null, ArgValue::Null) => true,
        (ArgValue::Bool(x), ArgValue::Bool(y)) => *x == *y,
        (ArgValue::Num(x), ArgValue::Num(y)) => *x == *y,
        (ArgValue::Text(x), ArgValue::Text(y)) => str_eq(x.as_str(), y.as_str()),
        _ => false,
    }
}

/// Decides `args_eq` on two argument objects.
pub fn args_equal(a: &ToolArgs, b: &ToolArgs) -> (r: bool)
    ensures
        r == args_eq(*a, *b),
{
    let n = a.entries.len();
    if n != b.entries.len() {
        return false;
    }
    let mut i: usize = 0;
    while i < n
        invariant
            n == a.entries@.len(),
            n == b.entries@.len(),
            i <= n,
            forall|j: int| 0 <= j < i ==> (#[trigger] a.entries@[j]).key@ == b.entries@[j].key@
                && arg_value_eq(a.entries@[j].value, b.entries@[j].value),
        decreases n - i,
    {
        if !str_eq(a.entries[i].key.as_str(), b.entries[i].key.as_str()) {
            proof {
                assert((a.entries@[i as int]).key@ != b.entries@[i as int].key@);
            }
            return false;
        }
        if !arg_value_equal(&a.entries[i].value, &b.entries[i].value) {
            proof {
                assert(!arg_value_eq((a.entries@[i as int]).value, b.entries@[i as int].value));
            }
            return false;
        }
        i += 1;
    }
    true
}

} // verus!
