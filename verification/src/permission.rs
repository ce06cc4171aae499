//! The permission gate: partitions a batch of tool requests into approved,
//! needs-approval and denied, using the agent mode, the read-only tool
//! annotations, and the persisted per-tool decision store.

use vstd::prelude::*;
use crate::message::ToolRequest;
use crate::router::PLATFORM_MANAGE_EXTENSIONS_TOOL_NAME;
use crate::strutil::str_eq;
use crate::tools::lemma_filter_push;

verus! {

/// The policy knob controlling permission behaviour.
#[derive(Clone, Copy, Debug, PartialEq, Eq, Structural)]
pub enum Mode {
    Chat,
    Auto,
    Approve,
    SmartApprove,
}

/// Parses the mode setting; unknown values are left to the caller, which
/// falls back to `Auto`.
pub fn parse_mode(s: &str) -> (r: Option<Mode>)
    ensures
        r == Some(Mode::Chat) <==> s@ == "chat"@,
        r == Some(Mode::Auto) <==> s@ == "auto"@,
        r == Some(Mode::Approve) <==> s@ == "approve"@,
        r == Some(Mode::SmartApprove) <==> s@ == "smart_approve"@,
        r is Some || (s@ != "chat"@ && s@ != "auto"@ && s@ != "approve"@ && s@
            != "smart_approve"@),
{
    proof {
        reveal_strlit("chat");
        reveal_strlit("auto");
        reveal_strlit("approve");
        reveal_strlit("smart_approve");
        assert("chat"@ != "auto"@) by {
            assert("chat"@[0] == 'c' && "auto"@[0] == 'a');
        }
        assert("chat"@ != "approve"@) by {
            assert("chat"@.len() == 4 && "approve"@.len() == 7);
        }
        assert("chat"@ != "smart_approve"@) by {
            assert("chat"@.len() == 4 && "smart_approve"@.len() == 13);
        }
        assert("auto"@ != "approve"@) by {
            assert("auto"@.len() == 4 && "approve"@.len() == 7);
        }
        assert("auto"@ != "smart_approve"@) by {
            assert("auto"@.len() == 4 && "smart_approve"@.len() == 13);
        }
        assert("approve"@ != "smart_approve"@) by {
            assert("approve"@.len() == 7 && "smart_approve"@.len() == 13);
        }
    }
    if str_eq(s, "chat") {
        Some(Mode::Chat)
    } else if str_eq(s, "auto") {
        Some(Mode::Auto)
    } else if str_eq(s, "approve") {
        Some(Mode::Approve)
    } else if str_eq(s, "smart_approve") {
        Some(Mode::SmartApprove)
    } else {
        None
    }
}

/// A per-tool decision a user has taken, possibly persisted.
#[derive(Clone, Copy, Debug, PartialEq, Eq, Structural)]
pub enum PermissionDecision {
    AlwaysAllow,
    AllowOnce,
    DenyOnce,
    AlwaysDeny,
}

impl PermissionDecision {
    /// Whether this decision lets the pending call run.
    pub open spec fn spec_allows(self) -> bool {
        self == PermissionDecision::AlwaysAllow || self == PermissionDecision::AllowOnce
    }

    /// Whether this decision lets the pending call run.
    pub fn allows(self) -> (r: bool)
        ensures
            r == self.spec_allows(),
    {
        match self {
            PermissionDecision::AlwaysAllow => true,
            PermissionDecision::AllowOnce => true,
            _ => false,
        }
    }
}

/// A user's answer to one confirmation prompt.
#[derive(Clone, Copy, Debug)]
pub struct PermissionConfirmation {
    pub permission: PermissionDecision,
}

/// One persisted entry: the decision stored for a tool name.
#[derive(Debug)]
pub struct StoreEntry {
    pub tool_name: String,
    pub decision: PermissionDecision,
}

impl Clone for StoreEntry {
    fn clone(&self) -> (r: Self)
        ensures
            r == *self,
    {
        StoreEntry { tool_name: self.tool_name.clone(), decision: self.decision }
    }
}

/// The decision stored for `name`: the first entry with a matching name.
pub open spec fn store_lookup(entries: Seq<StoreEntry>, name: Seq<char>) -> Option<
    PermissionDecision,
>
    decreases entries.len(),
{
    if entries.len() == 0 {
        None
    } else if entries[0].tool_name@ == name {
        Some(entries[0].decision)
    } else {
        store_lookup(entries.drop_first(), name)
    }
}

/// The persisted per-tool decision store, keyed by tool name.
#[derive(Debug)]
pub struct PermissionStore {
    pub entries: Vec<StoreEntry>,
}

/// Unique keys: no tool name is stored twice.
pub open spec fn store_wf(entries: Seq<StoreEntry>) -> bool {
    forall|i: int, j: int|
        0 <= i < j < entries.len() ==> (#[trigger] entries[i]).tool_name@
            != (#[trigger] entries[j]).tool_name@
}

proof fn lemma_store_lookup_at(entries: Seq<StoreEntry>, name: Seq<char>, i: int)
    requires
        0 <= i < entries.len(),
        forall|j: int| 0 <= j < i ==> (#[trigger] entries[j]).tool_name@ != name,
        entries[i].tool_name@ == name,
    ensures
        store_lookup(entries, name) == Some(entries[i].decision),
    decreases i,
{
    if i > 0 {
        lemma_store_lookup_at(entries.drop_first(), name, i - 1);
    }
}

proof fn lemma_store_lookup_absent(entries: Seq<StoreEntry>, name: Seq<char>)
    requires
        forall|j: int| 0 <= j < entries.len() ==> (#[trigger] entries[j]).tool_name@ != name,
    ensures
        store_lookup(entries, name) is None,
    decreases entries.len(),
{
    if entries.len() > 0 {
        lemma_store_lookup_absent(entries.drop_first(), name);
    }
}

proof fn lemma_store_lookup_update(entries: Seq<StoreEntry>, i: int, e: StoreEntry, name: Seq<char>)
    requires
        0 <= i < entries.len(),
        forall|j: int| 0 <= j < i ==> (#[trigger] entries[j]).tool_name@ != entries[i].tool_name@,
        e.tool_name@ == entries[i].tool_name@,
    ensures
        name == e.tool_name@ ==> store_lookup(entries.update(i, e), name) == Some(e.decision),
        name != e.tool_name@ ==> store_lookup(entries.update(i, e), name) == store_lookup(
            entries,
            name,
        ),
    decreases i,
{
    if i > 0 {
        lemma_store_lookup_update(entries.drop_first(), i - 1, e, name);
        assert(entries.update(i, e).drop_first() =~= entries.drop_first().update(i - 1, e));
    } else {
        assert(entries.update(i, e).drop_first() =~= entries.drop_first());
    }
}

proof fn lemma_store_lookup_push(entries: Seq<StoreEntry>, e: StoreEntry, name: Seq<char>)
    requires
        forall|j: int| 0 <= j < entries.len() ==> (#[trigger] entries[j]).tool_name@
            != e.tool_name@,
    ensures
        name == e.tool_name@ ==> store_lookup(entries.push(e), name) == Some(e.decision),
        name != e.tool_name@ ==> store_lookup(entries.push(e), name) == store_lookup(
            entries,
            name,
        ),
    decreases entries.len(),
{
    if entries.len() > 0 {
        lemma_store_lookup_push(entries.drop_first(), e, name);
        assert(entries.push(e).drop_first() =~= entries.drop_first().push(e));
        assert(entries.push(e)[0] == entries[0]);
        if name != e.tool_name@ {
            assert(store_lookup(entries.push(e).drop_first(), name) == store_lookup(
                entries.drop_first(),
                name,
            ));
        }
    } else {
        assert(entries.push(e)[0] == e);
        if name != e.tool_name@ {
            assert(entries.push(e).drop_first() =~= Seq::<StoreEntry>::empty());
            assert(store_lookup(Seq::<StoreEntry>::empty(), name) is None);
            assert(store_lookup(entries, name) is None);
        }
    }
}

impl PermissionStore {
    /// An empty store.
    pub fn new() -> (r: PermissionStore)
        ensures
            r.entries@.len() == 0,
            store_wf(r.entries@),
    {
        PermissionStore { entries: Vec::new() }
    }

    /// The decision stored for `name`, if any.
    pub fn get(&self, name: &str) -> (r: Option<PermissionDecision>)
        ensures
            r == store_lookup(self.entries@, name@),
    {
        let n = self.entries.len();
        let mut i: usize = 0;
        while i < n
            invariant
                n == self.entries@.len(),
                i <= n,
                forall|j: int| 0 <= j < i ==> (#[trigger] self.entries@[j]).tool_name@ != name@,
            decreases n - i,
        {
            if str_eq(self.entries[i].tool_name.as_str(), name) {
                proof {
                    lemma_store_lookup_at(self.entries@, name@, i as int);
                }
                return Some(self.entries[i].decision);
            }
            i += 1;
        }
        proof {
            lemma_store_lookup_absent(self.entries@, name@);
        }
        None
    }

    /// Stores `decision` for `name`, replacing any earlier decision.
    pub fn set(&mut self, name: String, decision: PermissionDecision)
        requires
            store_wf(old(self).entries@),
        ensures
            store_wf(final(self).entries@),
            store_lookup(final(self).entries@, name@) == Some(decision),
            forall|other: Seq<char>|
                other != name@ ==> #[trigger] store_lookup(final(self).entries@, other)
                    == store_lookup(old(self).entries@, other),
    {
        let n = self.entries.len();
        let mut i: usize = 0;
        while i < n
            invariant
                self.entries@ == old(self).entries@,
                store_wf(self.entries@),
                n == self.entries@.len(),
                i <= n,
                forall|j: int| 0 <= j < i ==> (#[trigger] self.entries@[j]).tool_name@ != name@,
            decreases n - i,
        {
            if str_eq(self.entries[i].tool_name.as_str(), name.as_str()) {
                let e = StoreEntry { tool_name: name, decision };
                let ghost prev = self.entries@;
                self.entries.set(i, e);
                proof {
                    assert forall|a: int|
                        0 <= a < self.entries@.len() implies (#[trigger] self.entries@[a]).tool_name@
                        == prev[a].tool_name@ by {}
                    assert forall|a: int, b: int|
                        0 <= a < b < self.entries@.len() implies (#[trigger] self.entries@[a]).tool_name@
                        != (#[trigger] self.entries@[b]).tool_name@ by {
                        assert(prev[a].tool_name@ != prev[b].tool_name@);
                    }
                    assert forall|other: Seq<char>| other != e.tool_name@ implies #[trigger] store_lookup(
                        self.entries@,
                        other,
                    ) == store_lookup(prev, other) by {
                        lemma_store_lookup_update(prev, i as int, e, other);
                    }
                    lemma_store_lookup_update(prev, i as int, e, e.tool_name@);
                }
                return ;
            }
            i += 1;
        }
        let e = StoreEntry { tool_name: name, decision };
        let ghost prev = self.entries@;
        self.entries.push(e);
        proof {
            assert forall|a: int, b: int|
                0 <= a < b < self.entries@.len() implies (#[trigger] self.entries@[a]).tool_name@
                != (#[trigger] self.entries@[b]).tool_name@ by {
                if b < prev.len() {
                    assert(prev[a].tool_name@ != prev[b].tool_name@);
                } else {
                    assert(prev[a].tool_name@ != e.tool_name@);
                }
            }
            assert forall|other: Seq<char>| other != e.tool_name@ implies #[trigger] store_lookup(
                self.entries@,
                other,
            ) == store_lookup(prev, other) by {
                lemma_store_lookup_push(prev, e, other);
            }
            lemma_store_lookup_push(prev, e, e.tool_name@);
        }
    }
}

/// What is decided for one pending request.
#[derive(Clone, Copy, Debug, PartialEq, Eq, Structural)]
pub enum GateOutcome {
    Approved,
    NeedsApproval,
    Denied,
}

/// Whether `name` occurs in a list of names.
pub open spec fn names_contain(names: Seq<Seq<char>>, name: Seq<char>) -> bool {
    exists|j: int| 0 <= j < names.len() && names[j] == name
}

/// The decision for one call, outside chat mode:
/// a stored AlwaysDeny denies without prompting; a stored AlwaysAllow
/// approves; `auto` approves everything; `smart_approve` approves tools
/// annotated read-only; everything else must be confirmed.
pub open spec fn gate_decision(
    mode: Mode,
    readonly: Seq<Seq<char>>,
    store: Seq<StoreEntry>,
    name: Seq<char>,
) -> GateOutcome {
    if mode == Mode::Auto {
        GateOutcome::Approved
    } else if store_lookup(store, name) == Some(PermissionDecision::AlwaysDeny) {
        GateOutcome::Denied
    } else if store_lookup(store, name) == Some(PermissionDecision::AlwaysAllow) {
        GateOutcome::Approved
    } else if mode == Mode::SmartApprove && names_contain(readonly, name) {
        GateOutcome::Approved
    } else {
        GateOutcome::NeedsApproval
    }
}

/// Whether `name` occurs in `names`.
pub fn contains_name(names: &Vec<String>, name: &str) -> (r: bool)
    ensures
        r == names_contain(names.deep_view(), name@),
{
    let n = names.len();
    let mut i: usize = 0;
    while i < n
        invariant
            n == names@.len(),
            names.deep_view().len() == n,
            i <= n,
            forall|j: int| 0 <= j < i ==> names.deep_view()[j] != name@,
        decreases n - i,
    {
        proof {
            assert(names.deep_view()[i as int] == names@[i as int]@);
        }
        if str_eq(names[i].as_str(), name) {
            return true;
        }
        i += 1;
    }
    false
}

/// The verdict on a batch of requests.
#[derive(Debug)]
pub struct PermissionCheckResult {
    pub approved: Vec<ToolRequest>,
    pub needs_approval: Vec<ToolRequest>,
    pub denied: Vec<ToolRequest>,
    pub enable_extension_request_ids: Vec<String>,
}

/// The requests of `reqs` that are decided as `out`.
pub open spec fn gate_bucket(
    reqs: Seq<ToolRequest>,
    mode: Mode,
    readonly: Seq<Seq<char>>,
    store: Seq<StoreEntry>,
    out: GateOutcome,
) -> Seq<ToolRequest> {
    reqs.filter(|q: ToolRequest| gate_decision(mode, readonly, store, q.call.name@) == out)
}

/// The ids of the requests targeting the extension-management tool, tracked
/// separately because their success requires a tool-list refresh.
pub open spec fn enable_extension_ids(reqs: Seq<ToolRequest>) -> Seq<Seq<char>> {
    reqs.filter(|q: ToolRequest| q.call.name@ == PLATFORM_MANAGE_EXTENSIONS_TOOL_NAME@)
        .map_values(|q: ToolRequest| q.id@)
}

/// Partitions `requests` by the permission rules. Chat mode never reaches
/// this partition: the loop answers every request with the skip sentinel
/// instead. In approve mode every call without a stored allowance must be
/// confirmed: the optional read-only pre-classification of unannotated
/// tools is left to always-prompt, the conservative choice.
pub fn check_tool_permissions(
    requests: Vec<ToolRequest>,
    mode: Mode,
    readonly: &Vec<String>,
    store: &PermissionStore,
) -> (r: PermissionCheckResult)
    requires
        mode != Mode::Chat,
    ensures
        r.approved@ == gate_bucket(
            requests@,
            mode,
            readonly.deep_view(),
            store.entries@,
            GateOutcome::Approved,
        ),
        r.needs_approval@ == gate_bucket(
            requests@,
            mode,
            readonly.deep_view(),
            store.entries@,
            GateOutcome::NeedsApproval,
        ),
        r.denied@ == gate_bucket(
            requests@,
            mode,
            readonly.deep_view(),
            store.entries@,
            GateOutcome::Denied,
        ),
        r.enable_extension_request_ids.deep_view() == enable_extension_ids(requests@),
    {
    let ghost all = requests@;
    let ghost ro = readonly.deep_view();
    let ghost st = store.entries@;
    let mut rest = requests;
    let mut approved: Vec<ToolRequest> = Vec::new();
    let mut needs_approval: Vec<ToolRequest> = Vec::new();
    let mut denied: Vec<ToolRequest> = Vec::new();
    let mut enable_ids: Vec<String> = Vec::new();
    let ghost mut done: Seq<ToolRequest> = Seq::empty();

    while rest.len() > 0
        invariant
            mode != Mode::Chat,
            ro == readonly.deep_view(),
            st == store.entries@,
            all == done + rest@,
            approved@ == gate_bucket(done, mode, ro, st, GateOutcome::Approved),
            needs_approval@ == gate_bucket(done, mode, ro, st, GateOutcome::NeedsApproval),
            denied@ == gate_bucket(done, mode, ro, st, GateOutcome::Denied),
            enable_ids.deep_view() == enable_extension_ids(done),
        decreases rest@.len(),
    {
        let q = rest.remove(0);
        let ghost qg = q;
        proof {
            assert(done.push(qg) + rest@ =~= all);
            lemma_filter_push(
                done,
                qg,
                |x: ToolRequest| gate_decision(mode, ro, st, x.call.name@)
                    == GateOutcome::Approved,
            );
            lemma_filter_push(
                done,
                qg,
                |x: ToolRequest| gate_decision(mode, ro, st, x.call.name@)
                    == GateOutcome::NeedsApproval,
            );
            lemma_filter_push(
                done,
                qg,
                |x: ToolRequest| gate_decision(mode, ro, st, x.call.name@)
                    == GateOutcome::Denied,
            );
            lemma_filter_push(
                done,
                qg,
                |x: ToolRequest| x.call.name@ == PLATFORM_MANAGE_EXTENSIONS_TOOL_NAME@,
            );
        }
        if str_eq(q.call.name.as_str(), PLATFORM_MANAGE_EXTENSIONS_TOOL_NAME) {
            let ghost before = enable_ids.deep_view();
            enable_ids.push(q.id.clone());
            proof {
                assert(enable_ids.deep_view() =~= before.push(qg.id@));
                assert(enable_ids.deep_view() =~= enable_extension_ids(done.push(qg)));
            }
        } else {
            proof {
                assert(enable_ids.deep_view() =~= enable_extension_ids(done.push(qg)));
            }
        }

        let verdict: GateOutcome = if matches!(mode, Mode::Auto) {
            GateOutcome::Approved
        } else {
            let stored = store.get(q.call.name.as_str());
            if matches!(stored, Some(PermissionDecision::AlwaysDeny)) {
                GateOutcome::Denied
            } else if matches!(stored, Some(PermissionDecision::AlwaysAllow)) {
                GateOutcome::Approved
            } else if matches!(mode, Mode::SmartApprove) && contains_name(
                readonly,
                q.call.name.as_str(),
            ) {
                GateOutcome::Approved
            } else {
                GateOutcome::NeedsApproval
            }
        };
        proof {
            assert(verdict == gate_decision(mode, ro, st, qg.call.name@));
        }
        match verdict {
            GateOutcome::Approved => approved.push(q),
            GateOutcome::NeedsApproval => needs_approval.push(q),
            GateOutcome::Denied => denied.push(q),
        }
        proof {
            done = done.push(qg);
        }
    }
    proof {
        assert(done =~= all);
    }
    PermissionCheckResult {
        approved,
        needs_approval,
        denied,
        enable_extension_request_ids: enable_ids,
    }
}

} // verus!
