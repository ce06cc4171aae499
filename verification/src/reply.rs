//! The reply turn: the state machine that drives one assistant turn through
//! frontend delegation, the permission gate, interactive approval, and the
//! draining of dispatched tool calls, folding every result into one tool
//! response message. The driver performs the outside work (provider calls,
//! channel waits, tool execution) and feeds the outcomes back in; every
//! decision and every message built here is verified.

use vstd::prelude::*;
use vstd::multiset::Multiset;
use crate::message::{
    AgentEvent,
    Content,
    Message,
    MessageContent,
    Role,
    ToolOutput,
    ToolRequest,
    ToolResponse,
    call_eq,
    ok_text_is,
    request_eq,
    request_ids_of,
    requests_of,
    response_ids_of,
};
use crate::permission::{
    PermissionDecision,
    GateOutcome,
    Mode,
    PermissionConfirmation,
    PermissionStore,
    check_tool_permissions,
    enable_extension_ids,
    gate_bucket,
    gate_decision,
    store_wf,
};
use crate::tools::{FrontendTool, is_frontend_name, lemma_filter_push};

verus! {

pub const CHAT_MODE_TOOL_SKIPPED_RESPONSE: &'static str = "Tool execution skipped in chat mode";

pub const DECLINED_RESPONSE: &'static str = "The user has declined to run this tool";

pub const FRONTEND_EXECUTION_RESPONSE: &'static str = "Frontend tool execution required";

/// The fixed text answering a tool request skipped in chat mode.
pub open spec fn chat_skip_text() -> Seq<char> {
    "Tool execution skipped in chat mode"@
}

/// The fixed text answering a declined tool request.
pub open spec fn declined_text() -> Seq<char> {
    "The user has declined to run this tool"@
}

/// The ids of a batch of requests, in order.
pub open spec fn req_ids(reqs: Seq<ToolRequest>) -> Seq<Seq<char>> {
    reqs.map_values(|q: ToolRequest| q.id@)
}

/// Whether a tool request targets a registered frontend tool.
pub open spec fn is_frontend_request(q: ToolRequest, fr: Seq<FrontendTool>) -> bool {
    is_frontend_name(fr, q.call.name@)
}

/// The frontend tool requests of a batch, in order.
pub open spec fn frontend_selection(reqs: Seq<ToolRequest>, fr: Seq<FrontendTool>) -> Seq<
    ToolRequest,
> {
    reqs.filter(|q: ToolRequest| is_frontend_request(q, fr))
}

/// The non-frontend tool requests of a batch, in order.
pub open spec fn remaining_selection(reqs: Seq<ToolRequest>, fr: Seq<FrontendTool>) -> Seq<
    ToolRequest,
> {
    reqs.filter(|q: ToolRequest| !is_frontend_request(q, fr))
}

/// A message's parts with the frontend tool requests taken out.
pub open spec fn filtered_parts(content: Seq<MessageContent>, fr: Seq<FrontendTool>) -> Seq<
    MessageContent,
> {
    content.filter(
        |c: MessageContent| !(c is ToolRequest && is_frontend_request(c->ToolRequest_0, fr)),
    )
}

/// Pairwise agreement of two request batches.
pub open spec fn request_seq_eq(a: Seq<ToolRequest>, b: Seq<ToolRequest>) -> bool {
    a.len() == b.len() && forall|i: int| 0 <= i < a.len() ==> request_eq(#[trigger] a[i], b[i])
}

/// Splits an assistant message into its frontend tool requests, its
/// remaining tool requests, and the message with the frontend requests
/// filtered out, each in the original order.
pub fn categorize_tool_requests(msg: Message, frontend: &Vec<FrontendTool>) -> (r: (
    Vec<ToolRequest>,
    Vec<ToolRequest>,
    Message,
))
    ensures
        r.0@ == frontend_selection(requests_of(msg), frontend@),
        request_seq_eq(r.1@, remaining_selection(requests_of(msg), frontend@)),
        r.2.role == msg.role,
        r.2.content@ == filtered_parts(msg.content@, frontend@),
{
    let ghost all_parts = msg.content@;
    let mut parts = msg.content;
    let role = msg.role;
    let mut front: Vec<ToolRequest> = Vec::new();
    let mut rem: Vec<ToolRequest> = Vec::new();
    let mut kept: Vec<MessageContent> = Vec::new();
    let ghost mut done: Seq<MessageContent> = Seq::empty();

    while parts.len() > 0
        invariant
            all_parts == done + parts@,
            front@ == frontend_selection(requests_of_parts(done), frontend@),
            request_seq_eq(rem@, remaining_selection(requests_of_parts(done), frontend@)),
            kept@ == filtered_parts(done, frontend@),
        decreases parts@.len(),
    {
        let c = parts.remove(0);
        let ghost cg = c;
        proof {
            assert(done.push(cg) + parts@ =~= all_parts);
            lemma_requests_of_parts_push(done, cg);
            lemma_filter_push(
                done,
                cg,
                |x: MessageContent| !(x is ToolRequest && is_frontend_request(
                    x->ToolRequest_0,
                    frontend@,
                )),
            );
        }
        match c {
            MessageContent::ToolRequest(q) => {
                let ghost qg = q;
                proof {
                    lemma_filter_push(
                        requests_of_parts(done),
                        qg,
                        |x: ToolRequest| is_frontend_request(x, frontend@),
                    );
                    lemma_filter_push(
                        requests_of_parts(done),
                        qg,
                        |x: ToolRequest| !is_frontend_request(x, frontend@),
                    );
                }
                if crate::tools::find_frontend_tool(frontend, q.call.name.as_str()).is_some() {
                    front.push(q);
                } else {
                    rem.push(q.clone());
                    kept.push(MessageContent::ToolRequest(q));
                }
            },
            other => {
                kept.push(other);
            },
        }
        proof {
            done = done.push(cg);
        }
    }
    proof {
        assert(done =~= all_parts);
        assert(requests_of_parts(all_parts) == requests_of(
            Message { role, content: msg.content },
        ));
    }
    (front, rem, Message { role, content: kept })
}

/// The tool requests among a sequence of parts, in order.
pub open spec fn requests_of_parts(content: Seq<MessageContent>) -> Seq<ToolRequest> {
    content.filter(|c: MessageContent| c is ToolRequest).map_values(
        |c: MessageContent| c->ToolRequest_0,
    )
}

proof fn lemma_requests_of_parts_push(content: Seq<MessageContent>, c: MessageContent)
    ensures
        c is ToolRequest ==> requests_of_parts(content.push(c)) =~= requests_of_parts(
            content,
        ).push(c->ToolRequest_0),
        !(c is ToolRequest) ==> requests_of_parts(content.push(c)) =~= requests_of_parts(content),
{
    lemma_filter_push(content, c, |x: MessageContent| x is ToolRequest);
}

/// Splitting a batch by frontend membership loses no request id: the two
/// selections together carry exactly the ids of the whole batch.
proof fn lemma_frontend_split_ids(reqs: Seq<ToolRequest>, fr: Seq<FrontendTool>)
    ensures
        req_ids(frontend_selection(reqs, fr)).to_multiset().add(
            req_ids(remaining_selection(reqs, fr)).to_multiset(),
        ) =~= req_ids(reqs).to_multiset(),
    decreases reqs.len(),
{
    broadcast use vstd::seq_lib::group_to_multiset_ensures;

    if reqs.len() == 0 {
        assert(frontend_selection(reqs, fr) =~= Seq::<ToolRequest>::empty());
        assert(remaining_selection(reqs, fr) =~= Seq::<ToolRequest>::empty());
        assert(req_ids(Seq::<ToolRequest>::empty()) =~= Seq::<Seq<char>>::empty());
        assert(req_ids(reqs) =~= Seq::<Seq<char>>::empty());
    } else {
        let butlast = reqs.drop_last();
        let q = reqs.last();
        lemma_frontend_split_ids(butlast, fr);
        lemma_filter_push(butlast, q, |x: ToolRequest| is_frontend_request(x, fr));
        lemma_filter_push(butlast, q, |x: ToolRequest| !is_frontend_request(x, fr));
        assert(butlast.push(q) =~= reqs);
        lemma_req_ids_push(frontend_selection(butlast, fr), q);
        lemma_req_ids_push(remaining_selection(butlast, fr), q);
        lemma_req_ids_push(butlast, q);
    }
}

/// The ids of a batch extended by one request.
proof fn lemma_req_ids_push(reqs: Seq<ToolRequest>, q: ToolRequest)
    ensures
        req_ids(reqs.push(q)) =~= req_ids(reqs).push(q.id@),
{
}

/// The three permission buckets together carry exactly the ids of the batch.
proof fn lemma_gate_split_ids(
    reqs: Seq<ToolRequest>,
    mode: Mode,
    ro: Seq<Seq<char>>,
    st: Seq<crate::permission::StoreEntry>,
)
    ensures
        req_ids(gate_bucket(reqs, mode, ro, st, GateOutcome::Approved)).to_multiset().add(
            req_ids(gate_bucket(reqs, mode, ro, st, GateOutcome::NeedsApproval)).to_multiset(),
        ).add(req_ids(gate_bucket(reqs, mode, ro, st, GateOutcome::Denied)).to_multiset())
            =~= req_ids(reqs).to_multiset(),
    decreases reqs.len(),
{
    broadcast use vstd::seq_lib::group_to_multiset_ensures;

    if reqs.len() == 0 {
        assert(gate_bucket(reqs, mode, ro, st, GateOutcome::Approved) =~= Seq::<
            ToolRequest,
        >::empty());
        assert(gate_bucket(reqs, mode, ro, st, GateOutcome::NeedsApproval) =~= Seq::<
            ToolRequest,
        >::empty());
        assert(gate_bucket(reqs, mode, ro, st, GateOutcome::Denied) =~= Seq::<
            ToolRequest,
        >::empty());
        assert(req_ids(Seq::<ToolRequest>::empty()) =~= Seq::<Seq<char>>::empty());
        assert(req_ids(reqs) =~= Seq::<Seq<char>>::empty());
    } else {
        let butlast = reqs.drop_last();
        let q = reqs.last();
        lemma_gate_split_ids(butlast, mode, ro, st);
        lemma_filter_push(
            butlast,
            q,
            |x: ToolRequest| gate_decision(mode, ro, st, x.call.name@) == GateOutcome::Approved,
        );
        lemma_filter_push(
            butlast,
            q,
            |x: ToolRequest| gate_decision(mode, ro, st, x.call.name@)
                == GateOutcome::NeedsApproval,
        );
        lemma_filter_push(
            butlast,
            q,
            |x: ToolRequest| gate_decision(mode, ro, st, x.call.name@) == GateOutcome::Denied,
        );
        assert(butlast.push(q) =~= reqs);
        lemma_req_ids_push(gate_bucket(butlast, mode, ro, st, GateOutcome::Approved), q);
        lemma_req_ids_push(gate_bucket(butlast, mode, ro, st, GateOutcome::NeedsApproval), q);
        lemma_req_ids_push(gate_bucket(butlast, mode, ro, st, GateOutcome::Denied), q);
        lemma_req_ids_push(butlast, q);
    }
}

/// Where the reply turn stands.
#[derive(Clone, Copy, Debug, PartialEq, Eq, Structural)]
pub enum TurnPhase {
    Frontend,
    Gate,
    Approval,
    Draining,
    Finished,
}

/// The state of one reply turn.
pub struct TurnEngine {
    pub mode: Mode,
    pub frontend: Vec<ToolRequest>,
    pub remaining: Vec<ToolRequest>,
    pub approvals: Vec<ToolRequest>,
    pub dispatched: Vec<String>,
    pub enable_ids: Vec<String>,
    pub all_install_ok: bool,
    pub tool_response: Message,
    pub phase: TurnPhase,
    pub all_ids: Ghost<Seq<Seq<char>>>,
}

/// The ids of the requests the turn has not yet answered.
pub open spec fn pending_ids(e: TurnEngine) -> Multiset<Seq<char>> {
    req_ids(e.frontend@).to_multiset().add(req_ids(e.remaining@).to_multiset()).add(
        req_ids(e.approvals@).to_multiset(),
    ).add(e.dispatched.deep_view().to_multiset())
}

/// The turn invariant: the tool response is a user message made of tool
/// responses only, and its ids together with the pending ids are exactly
/// the ids of the assistant's requests; the phases only narrow; chat mode
/// never dispatches and never prompts.
pub open spec fn engine_wf(e: TurnEngine) -> bool {
    &&& e.tool_response.role == Role::User
    &&& forall|i: int|
        0 <= i < e.tool_response.content@.len() ==> (#[trigger] e.tool_response.content@[i])
            is ToolResponse
    &&& response_ids_of(e.tool_response).to_multiset().add(pending_ids(e)) == e.all_ids@
        .to_multiset()
    &&& e.phase is Frontend ==> e.approvals@.len() == 0 && e.dispatched@.len() == 0
    &&& e.phase is Gate ==> e.frontend@.len() == 0 && e.approvals@.len() == 0 && e.dispatched@.len()
        == 0 && e.remaining@.len() > 0
    &&& e.phase is Approval ==> e.frontend@.len() == 0 && e.remaining@.len() == 0
        && e.approvals@.len() > 0
    &&& e.phase is Draining ==> e.frontend@.len() == 0 && e.remaining@.len() == 0
        && e.approvals@.len() == 0 && e.dispatched@.len() > 0
    &&& e.phase is Finished ==> e.frontend@.len() == 0 && e.remaining@.len() == 0
        && e.approvals@.len() == 0 && e.dispatched@.len() == 0
    &&& e.mode == Mode::Chat ==> e.approvals@.len() == 0 && e.dispatched@.len() == 0
}

/// Whether `ev` surfaces exactly the one request `q` in a fresh assistant
/// message, as the frontend delegation protocol asks.
pub open spec fn is_surfacing_event(ev: AgentEvent, q: ToolRequest) -> bool {
    match ev {
        AgentEvent::Message(m) => m.role == Role::Assistant && m.content@.len() == 1 && match m
            .content@[0] {
            MessageContent::ToolRequest(tq) => request_eq(tq, q),
            _ => false,
        },
        _ => false,
    }
}

/// Whether `ev` asks the user to confirm exactly the request `q`.
pub open spec fn is_confirmation_event(ev: AgentEvent, q: ToolRequest) -> bool {
    match ev {
        AgentEvent::Message(m) => m.role == Role::Assistant && m.content@.len() == 1 && match m
            .content@[0] {
            MessageContent::ConfirmationRequest(c) => c.id@ == q.id@ && call_eq(c.call, q.call),
            _ => false,
        },
        _ => false,
    }
}

/// Builds the assistant message that re-surfaces one frontend request.
fn surfacing_message(q: &ToolRequest) -> (r: Message)
    ensures
        is_surfacing_event(AgentEvent::Message(r), *q),
{
    Message::assistant().with_tool_request(q.id.clone(), q.call.clone())
}

/// Builds the assistant message that asks to confirm one request.
fn confirmation_message(q: &ToolRequest) -> (r: Message)
    ensures
        is_confirmation_event(AgentEvent::Message(r), *q),
{
    Message::assistant().with_confirmation_request(q.id.clone(), q.call.clone())
}

impl TurnEngine {
    /// Opens a turn on one assistant response: splits its requests, emits
    /// the filtered assistant message first, then the surfacing of the
    /// first frontend request if there is one.
    pub fn start(mode: Mode, assistant: Message, frontend_tools: &Vec<FrontendTool>) -> (r: (
        TurnEngine,
        Vec<AgentEvent>,
    ))
        ensures
            engine_wf(r.0),
            r.0.mode == mode,
            r.0.all_ids@ == request_ids_of(assistant),
            r.0.frontend@ == frontend_selection(requests_of(assistant), frontend_tools@),
            request_seq_eq(
                r.0.remaining@,
                remaining_selection(requests_of(assistant), frontend_tools@),
            ),
            r.0.tool_response.content@.len() == 0,
            r.0.all_install_ok,
            r.0.enable_ids@.len() == 0,
            r.0.approvals@.len() == 0,
            r.0.dispatched@.len() == 0,
            r.1@.len() >= 1,
            (match r.1@[0] {
                AgentEvent::Message(fm) => fm.role == assistant.role && fm.content@
                    == filtered_parts(assistant.content@, frontend_tools@),
                _ => false,
            }),
            r.0.frontend@.len() > 0 ==> r.1@.len() == 2 && is_surfacing_event(
                r.1@[1],
                r.0.frontend@[0],
            ) && r.0.phase == TurnPhase::Frontend,
            r.0.frontend@.len() == 0 ==> r.1@.len() == 1,
            r.0.frontend@.len() == 0 && r.0.remaining@.len() > 0 ==> r.0.phase == TurnPhase::Gate,
            r.0.frontend@.len() == 0 && r.0.remaining@.len() == 0 ==> r.0.phase
                == TurnPhase::Finished,
    {
        let ghost reqs = requests_of(assistant);
        let ghost ids = request_ids_of(assistant);
        let (front, rem, filtered) = categorize_tool_requests(assistant, frontend_tools);
        let mut events: Vec<AgentEvent> = Vec::new();
        events.push(AgentEvent::Message(filtered));
        let phase = if front.len() > 0 {
            let ev = AgentEvent::Message(surfacing_message(&front[0]));
            events.push(ev);
            TurnPhase::Frontend
        } else if rem.len() > 0 {
            TurnPhase::Gate
        } else {
            TurnPhase::Finished
        };
        let engine = TurnEngine {
            mode,
            frontend: front,
            remaining: rem,
            approvals: Vec::new(),
            dispatched: Vec::new(),
            enable_ids: Vec::new(),
            all_install_ok: true,
            tool_response: Message::user(),
            phase,
            all_ids: Ghost(ids),
        };
        proof {
            broadcast use vstd::seq_lib::group_to_multiset_ensures;

            lemma_frontend_split_ids(reqs, frontend_tools@);
            assert(req_ids(engine.remaining@) =~= req_ids(
                remaining_selection(reqs, frontend_tools@),
            ));
            assert(ids =~= req_ids(reqs));
            assert(req_ids(engine.approvals@) =~= Seq::<Seq<char>>::empty());
            assert(engine.dispatched.deep_view() =~= Seq::<Seq<char>>::empty());
            assert(response_ids_of(engine.tool_response) =~= Seq::<Seq<char>>::empty());
            assert(response_ids_of(engine.tool_response).to_multiset().add(pending_ids(engine))
                =~= engine.all_ids@.to_multiset());
        }
        (engine, events)
    }
}

/// Two engine states with the same observable fields.
pub open spec fn engine_same(a: TurnEngine, b: TurnEngine) -> bool {
    &&& a.mode == b.mode
    &&& a.frontend@ == b.frontend@
    &&& a.remaining@ == b.remaining@
    &&& a.approvals@ == b.approvals@
    &&& a.dispatched@ == b.dispatched@
    &&& a.enable_ids@ == b.enable_ids@
    &&& a.all_install_ok == b.all_install_ok
    &&& a.tool_response.role == b.tool_response.role
    &&& a.tool_response.content@ == b.tool_response.content@
    &&& a.phase == b.phase
    &&& a.all_ids == b.all_ids
}

/// Whether `new_m` is `old_m` with one tool response appended, pairing
/// `id` with exactly `result`.
pub open spec fn appended_response(
    new_m: Message,
    old_m: Message,
    id: Seq<char>,
    result: ToolOutput,
) -> bool {
    &&& new_m.role == old_m.role
    &&& new_m.content@.len() == old_m.content@.len() + 1
    &&& new_m.content@.subrange(0, old_m.content@.len() as int) == old_m.content@
    &&& match new_m.content@.last() {
        MessageContent::ToolResponse(tr) => tr.id@ == id && tr.result == result,
        _ => false,
    }
}

/// Whether `p` answers `q` with the fixed text `t`.
pub open spec fn answers_with_text(p: MessageContent, q: ToolRequest, t: Seq<char>) -> bool {
    match p {
        MessageContent::ToolResponse(tr) => tr.id@ == q.id@ && ok_text_is(tr.result, t),
        _ => false,
    }
}

/// Whether `parts` answers each request of `reqs`, in order, with the
/// fixed text `t`.
pub open spec fn answers_all_with_text(
    parts: Seq<MessageContent>,
    reqs: Seq<ToolRequest>,
    t: Seq<char>,
) -> bool {
    parts.len() == reqs.len() && forall|i: int|
        0 <= i < parts.len() ==> answers_with_text(#[trigger] parts[i], reqs[i], t)
}

/// The ids of the tool responses among a sequence of parts, in order.
pub open spec fn response_ids_of_parts(content: Seq<MessageContent>) -> Seq<Seq<char>> {
    content.filter(|c: MessageContent| c is ToolResponse).map_values(
        |c: MessageContent| c->ToolResponse_0.id@,
    )
}

proof fn lemma_response_ids_parts(m: Message)
    ensures
        response_ids_of(m) =~= response_ids_of_parts(m.content@),
{
}

proof fn lemma_response_ids_push(content: Seq<MessageContent>, p: MessageContent)
    ensures
        p is ToolResponse ==> response_ids_of_parts(content.push(p)) =~= response_ids_of_parts(
            content,
        ).push(p->ToolResponse_0.id@),
        !(p is ToolResponse) ==> response_ids_of_parts(content.push(p)) =~= response_ids_of_parts(
            content,
        ),
{
    lemma_filter_push(content, p, |x: MessageContent| x is ToolResponse);
}

/// Moving one id from the pending side to the answered side keeps the
/// books balanced.
proof fn lemma_move_id(
    resp: Seq<Seq<char>>,
    x: Seq<char>,
    rest: Multiset<Seq<char>>,
    total: Multiset<Seq<char>>,
)
    requires
        resp.to_multiset().add(rest.insert(x)) == total,
    ensures
        resp.push(x).to_multiset().add(rest) =~= total,
{
    broadcast use vstd::seq_lib::group_to_multiset_ensures;
    broadcast use vstd::multiset::group_multiset_axioms;

    assert(resp.push(x).to_multiset() =~= resp.to_multiset().insert(x));
    assert(resp.to_multiset().insert(x).add(rest) =~= resp.to_multiset().add(rest.insert(x)));
}

/// Popping the head of a request queue takes exactly its id out of the
/// queue's id multiset.
proof fn lemma_queue_pop(q: Seq<ToolRequest>)
    requires
        q.len() > 0,
    ensures
        req_ids(q).to_multiset() =~= req_ids(q.remove(0)).to_multiset().insert(q[0].id@),
{
    broadcast use vstd::seq_lib::group_to_multiset_ensures;
    broadcast use vstd::multiset::group_multiset_axioms;

    assert(req_ids(q.remove(0)) =~= req_ids(q).remove(0));
    assert(req_ids(q).remove(0).to_multiset() =~= req_ids(q).to_multiset().remove(
        req_ids(q)[0],
    ));
    assert(req_ids(q)[0] == q[0].id@);
    assert(req_ids(q).to_multiset().count(q[0].id@) > 0) by {
        assert(req_ids(q).contains(q[0].id@)) by {
            assert(req_ids(q)[0] == q[0].id@);
        }
    }
}

/// Taking index `j` out of an id list takes exactly that id out of its
/// multiset.
proof fn lemma_ids_remove(ids: Seq<Seq<char>>, j: int)
    requires
        0 <= j < ids.len(),
    ensures
        ids.to_multiset() =~= ids.remove(j).to_multiset().insert(ids[j]),
{
    broadcast use vstd::seq_lib::group_to_multiset_ensures;
    broadcast use vstd::multiset::group_multiset_axioms;

    assert(ids.remove(j).to_multiset() =~= ids.to_multiset().remove(ids[j]));
    assert(ids.to_multiset().count(ids[j]) > 0) by {
        assert(ids.contains(ids[j]));
    }
}

/// Appends one tool response to the reply being built.
fn fold_response(resp: &mut Message, id: String, result: ToolOutput)
    ensures
        final(resp).role == old(resp).role,
        final(resp).content@ == old(resp).content@.push(
            MessageContent::ToolResponse(ToolResponse { id, result }),
        ),
{
    resp.content.push(MessageContent::ToolResponse(ToolResponse { id, result }));
}

/// The output answering a tool request skipped in chat mode.
fn skip_output() -> (r: ToolOutput)
    ensures
        ok_text_is(r, chat_skip_text()),
{
    Ok(vec![Content::Text(String::from_str(CHAT_MODE_TOOL_SKIPPED_RESPONSE))])
}

/// The output answering a declined tool request.
fn declined_output() -> (r: ToolOutput)
    ensures
        ok_text_is(r, declined_text()),
{
    Ok(vec![Content::Text(String::from_str(DECLINED_RESPONSE))])
}

impl TurnEngine {
    /// How many requests of the turn are still unanswered.
    pub fn pending_count(&self) -> (r: usize)
        requires
            self.frontend@.len() + self.remaining@.len() + self.approvals@.len()
                + self.dispatched@.len() <= usize::MAX,
        ensures
            r == self.frontend@.len() + self.remaining@.len() + self.approvals@.len()
                + self.dispatched@.len(),
    {
        self.frontend.len() + self.remaining.len() + self.approvals.len() + self.dispatched.len()
    }

    /// Takes the result a frontend tool handed back. A result for anything
    /// but the request being awaited is dropped. On a match the response is
    /// folded in and the next frontend request is surfaced, or the turn
    /// moves on to the permission check.
    pub fn on_frontend_result(&mut self, id: &str, result: ToolOutput) -> (r: (
        Vec<AgentEvent>,
        bool,
    ))
        requires
            engine_wf(*old(self)),
            old(self).phase == TurnPhase::Frontend,
            old(self).frontend@.len() > 0,
        ensures
            engine_wf(*final(self)),
            final(self).mode == old(self).mode,
            final(self).all_ids == old(self).all_ids,
            final(self).all_install_ok == old(self).all_install_ok,
            !r.1 ==> engine_same(*final(self), *old(self)) && r.0@.len() == 0,
            r.1 <==> id@ == old(self).frontend@[0].id@,
            r.1 ==> ({
                &&& final(self).frontend@ == old(self).frontend@.remove(0)
                &&& final(self).remaining@ == old(self).remaining@
                &&& appended_response(
                    final(self).tool_response,
                    old(self).tool_response,
                    id@,
                    result,
                )
                &&& final(self).frontend@.len() > 0 ==> r.0@.len() == 1 && is_surfacing_event(
                    r.0@[0],
                    final(self).frontend@[0],
                ) && final(self).phase == TurnPhase::Frontend
                &&& final(self).frontend@.len() == 0 ==> r.0@.len() == 0
                &&& final(self).frontend@.len() == 0 && final(self).remaining@.len() > 0
                    ==> final(self).phase == TurnPhase::Gate
                &&& final(self).frontend@.len() == 0 && final(self).remaining@.len() == 0
                    ==> final(self).phase == TurnPhase::Finished
            }),
    {
        if !crate::strutil::str_eq(self.frontend[0].id.as_str(), id) {
            return (Vec::new(), false);
        }
        let q = self.frontend.remove(0);
        let ghost old_resp_ids = response_ids_of_parts(old(self).tool_response.content@);
        fold_response(&mut self.tool_response, String::from_str(id), result);
        proof {
            broadcast use vstd::seq_lib::group_to_multiset_ensures;
            broadcast use vstd::multiset::group_multiset_axioms;

            lemma_response_ids_parts(old(self).tool_response);
            lemma_response_ids_parts(self.tool_response);
            lemma_response_ids_push(
                old(self).tool_response.content@,
                self.tool_response.content@.last(),
            );
            lemma_queue_pop(old(self).frontend@);
            let rest = req_ids(self.frontend@).to_multiset().add(
                req_ids(self.remaining@).to_multiset(),
            ).add(req_ids(self.approvals@).to_multiset()).add(
                self.dispatched.deep_view().to_multiset(),
            );
            assert(pending_ids(*old(self)) =~= rest.insert(q.id@));
            lemma_move_id(old_resp_ids, q.id@, rest, old(self).all_ids@.to_multiset());
            assert(response_ids_of_parts(self.tool_response.content@) =~= old_resp_ids.push(
                q.id@,
            ));
            assert(self.tool_response.content@.subrange(
                0,
                old(self).tool_response.content@.len() as int,
            ) =~= old(self).tool_response.content@);
        }
        let mut events: Vec<AgentEvent> = Vec::new();
        if self.frontend.len() > 0 {
            events.push(AgentEvent::Message(surfacing_message(&self.frontend[0])));
        } else if self.remaining.len() > 0 {
            self.phase = TurnPhase::Gate;
        } else {
            self.phase = TurnPhase::Finished;
        }
        (events, true)
    }

    /// Runs the permission check over the remaining requests. In chat mode
    /// every one of them is answered with the skip sentinel and nothing is
    /// ever dispatched. Otherwise the approved requests are handed back
    /// for dispatch, its denied requests are answered with the declined
    /// text, and the first confirmation prompt is emitted.
    pub fn run_gate(&mut self, readonly: &Vec<String>, store: &PermissionStore) -> (r: (
        Vec<AgentEvent>,
        Vec<ToolRequest>,
    ))
        requires
            engine_wf(*old(self)),
            old(self).phase == TurnPhase::Gate,
        ensures
            engine_wf(*final(self)),
            final(self).mode == old(self).mode,
            final(self).all_ids == old(self).all_ids,
            final(self).all_install_ok == old(self).all_install_ok,
            final(self).frontend@.len() == 0,
            final(self).remaining@.len() == 0,
            old(self).mode == Mode::Chat ==> ({
                &&& r.0@.len() == 0
                &&& r.1@.len() == 0
                &&& final(self).phase == TurnPhase::Finished
                &&& final(self).tool_response.content@.len()
                    == old(self).tool_response.content@.len() + old(self).remaining@.len()
                &&& final(self).tool_response.content@.subrange(
                    0,
                    old(self).tool_response.content@.len() as int,
                ) == old(self).tool_response.content@
                &&& answers_all_with_text(
                    final(self).tool_response.content@.subrange(
                        old(self).tool_response.content@.len() as int,
                        final(self).tool_response.content@.len() as int,
                    ),
                    old(self).remaining@,
                    chat_skip_text(),
                )
            }),
            old(self).mode != Mode::Chat ==> ({
                let ro = readonly.deep_view();
                let st = store.entries@;
                &&& r.1@ == gate_bucket(
                    old(self).remaining@,
                    old(self).mode,
                    ro,
                    st,
                    GateOutcome::Approved,
                )
                &&& final(self).approvals@ == gate_bucket(
                    old(self).remaining@,
                    old(self).mode,
                    ro,
                    st,
                    GateOutcome::NeedsApproval,
                )
                &&& final(self).dispatched.deep_view() == req_ids(r.1@)
                &&& final(self).enable_ids.deep_view() == enable_extension_ids(
                    old(self).remaining@,
                )
                &&& answers_all_with_text(
                    final(self).tool_response.content@.subrange(
                        old(self).tool_response.content@.len() as int,
                        final(self).tool_response.content@.len() as int,
                    ),
                    gate_bucket(old(self).remaining@, old(self).mode, ro, st, GateOutcome::Denied),
                    declined_text(),
                )
                &&& final(self).tool_response.content@.subrange(
                    0,
                    old(self).tool_response.content@.len() as int,
                ) == old(self).tool_response.content@
                &&& final(self).approvals@.len() > 0 ==> r.0@.len() == 1 && is_confirmation_event(
                    r.0@[0],
                    final(self).approvals@[0],
                ) && final(self).phase == TurnPhase::Approval
                &&& final(self).approvals@.len() == 0 ==> r.0@.len() == 0
                &&& final(self).approvals@.len() == 0 && final(self).dispatched@.len() > 0
                    ==> final(self).phase == TurnPhase::Draining
                &&& final(self).approvals@.len() == 0 && final(self).dispatched@.len() == 0
                    ==> final(self).phase == TurnPhase::Finished
            }),
    {
        let mut remaining: Vec<ToolRequest> = Vec::new();
        core::mem::swap(&mut remaining, &mut self.remaining);
        let ghost rem0 = remaining@;
        proof {
            broadcast use vstd::multiset::group_multiset_axioms;

            lemma_response_ids_parts(self.tool_response);
            assert(response_ids_of_parts(self.tool_response.content@).to_multiset().add(
                req_ids(remaining@).to_multiset().add(req_ids(self.approvals@).to_multiset()).add(
                    self.dispatched.deep_view().to_multiset(),
                ).add(req_ids(self.frontend@).to_multiset()),
            ) =~= response_ids_of(old(self).tool_response).to_multiset().add(
                pending_ids(*old(self)),
            ));
        }
        if matches!(self.mode, Mode::Chat) {
            let ghost mut done: Seq<ToolRequest> = Seq::empty();
            while remaining.len() > 0
                invariant
                    engine_wf(*old(self)),
                    self.mode == old(self).mode,
                    self.mode == Mode::Chat,
                    self.frontend@ == old(self).frontend@,
                    self.remaining@.len() == 0,
                    self.approvals@ == old(self).approvals@,
                    self.dispatched@ == old(self).dispatched@,
                    self.enable_ids@ == old(self).enable_ids@,
                    self.all_install_ok == old(self).all_install_ok,
                    self.phase == old(self).phase,
                    self.all_ids == old(self).all_ids,
                    rem0 == done + remaining@,
                    self.tool_response.role == old(self).tool_response.role,
                    forall|k: int|
                        0 <= k < self.tool_response.content@.len() ==> (
                        #[trigger] self.tool_response.content@[k]) is ToolResponse,
                    self.tool_response.content@.len() == old(self).tool_response.content@.len()
                        + done.len(),
                    self.tool_response.content@.subrange(
                        0,
                        old(self).tool_response.content@.len() as int,
                    ) == old(self).tool_response.content@,
                    answers_all_with_text(
                        self.tool_response.content@.subrange(
                            old(self).tool_response.content@.len() as int,
                            self.tool_response.content@.len() as int,
                        ),
                        done,
                        chat_skip_text(),
                    ),
                    response_ids_of_parts(self.tool_response.content@).to_multiset().add(
                        req_ids(remaining@).to_multiset().add(
                            req_ids(self.approvals@).to_multiset(),
                        ).add(self.dispatched.deep_view().to_multiset()).add(
                            req_ids(self.frontend@).to_multiset(),
                        ),
                    ) == old(self).all_ids@.to_multiset(),
                decreases remaining@.len(),
            {
                let ghost rem_pre = remaining@;
                let q = remaining.remove(0);
                let ghost qg = q;
                let ghost old_parts = self.tool_response.content@;
                let ghost old_resp_ids = response_ids_of_parts(self.tool_response.content@);
                let out = skip_output();
                fold_response(&mut self.tool_response, q.id, out);
                proof {
                    broadcast use vstd::seq_lib::group_to_multiset_ensures;
                    broadcast use vstd::multiset::group_multiset_axioms;

                    assert(done.push(qg) + remaining@ =~= rem0);
                    lemma_response_ids_push(old_parts, self.tool_response.content@.last());
                    lemma_queue_pop(rem_pre);
                    assert(rem_pre.remove(0) =~= remaining@);
                    assert(rem_pre[0] == qg);
                    let rest = req_ids(remaining@).to_multiset().add(
                        req_ids(self.approvals@).to_multiset(),
                    ).add(self.dispatched.deep_view().to_multiset()).add(
                        req_ids(self.frontend@).to_multiset(),
                    );
                    assert(req_ids(rem_pre).to_multiset() =~= req_ids(
                        remaining@,
                    ).to_multiset().insert(qg.id@));
                    assert(rest.insert(qg.id@) =~= req_ids(rem_pre).to_multiset().add(
                        req_ids(self.approvals@).to_multiset(),
                    ).add(self.dispatched.deep_view().to_multiset()).add(
                        req_ids(self.frontend@).to_multiset(),
                    ));
                    assert(old_resp_ids.to_multiset().add(rest.insert(qg.id@)) == old(
                        self,
                    ).all_ids@.to_multiset());
                    lemma_move_id(old_resp_ids, qg.id@, rest, old(self).all_ids@.to_multiset());
                    assert(response_ids_of_parts(self.tool_response.content@) =~= old_resp_ids
                        .push(qg.id@));
                    assert(self.tool_response.content@.subrange(
                        0,
                        old(self).tool_response.content@.len() as int,
                    ) =~= old(self).tool_response.content@);
                    assert forall|i: int|
                        0 <= i < done.push(qg).len() implies answers_with_text(
                        #[trigger] self.tool_response.content@.subrange(
                            old(self).tool_response.content@.len() as int,
                            self.tool_response.content@.len() as int,
                        )[i],
                        done.push(qg)[i],
                        chat_skip_text(),
                    ) by {
                        if i < done.len() {
                            assert(self.tool_response.content@.subrange(
                                old(self).tool_response.content@.len() as int,
                                self.tool_response.content@.len() as int,
                            )[i] == old_parts.subrange(
                                old(self).tool_response.content@.len() as int,
                                old_parts.len() as int,
                            )[i]);
                        }
                    }
                    done = done.push(qg);
                }
            }
            self.phase = TurnPhase::Finished;
            proof {
                broadcast use vstd::multiset::group_multiset_axioms;
                broadcast use vstd::seq_lib::group_to_multiset_ensures;

                assert(done =~= rem0);
                assert(req_ids(remaining@) =~= Seq::<Seq<char>>::empty());
                assert(req_ids(self.remaining@) =~= Seq::<Seq<char>>::empty());
                assert(req_ids(self.remaining@).to_multiset() =~= req_ids(remaining@).to_multiset());
                assert(pending_ids(*self) =~= req_ids(self.remaining@).to_multiset().add(
                    req_ids(self.approvals@).to_multiset(),
                ).add(self.dispatched.deep_view().to_multiset()).add(
                    req_ids(self.frontend@).to_multiset(),
                ));
                lemma_response_ids_parts(self.tool_response);
            }
            (Vec::new(), Vec::new())
        } else {
            let result = check_tool_permissions(remaining, self.mode, readonly, store);
            let ghost ro = readonly.deep_view();
            let ghost st = store.entries@;
            let approved = result.approved;
            let mut needs = result.needs_approval;
            let mut denied = result.denied;
            self.enable_ids = result.enable_extension_request_ids;

            let mut i: usize = 0;
            let n = approved.len();
            while i < n
                invariant
                    n == approved@.len(),
                    i <= n,
                    self.dispatched.deep_view() =~= req_ids(approved@.take(i as int)),
                    self.mode == old(self).mode,
                    self.frontend@ == old(self).frontend@,
                    self.remaining@.len() == 0,
                    self.approvals@ == old(self).approvals@,
                    self.enable_ids@ == result.enable_extension_request_ids@,
                    self.all_install_ok == old(self).all_install_ok,
                    self.phase == old(self).phase,
                    self.all_ids == old(self).all_ids,
                    self.tool_response.role == old(self).tool_response.role,
                    self.tool_response.content@ == old(self).tool_response.content@,
                decreases n - i,
            {
                let ghost before = self.dispatched.deep_view();
                self.dispatched.push(approved[i].id.clone());
                proof {
                    assert(self.dispatched.deep_view() =~= before.push(approved@[i as int].id@));
                    assert(req_ids(approved@.take(i + 1)) =~= req_ids(
                        approved@.take(i as int),
                    ).push(approved@[i as int].id@));
                }
                i += 1;
            }
            proof {
                assert(approved@.take(n as int) =~= approved@);
            }

            let ghost denied0 = denied@;
            let ghost mut done: Seq<ToolRequest> = Seq::empty();
            let ghost resp_base = self.tool_response.content@;
            while denied.len() > 0
                invariant
                    engine_wf(*old(self)),
                    denied0 == done + denied@,
                    self.mode == old(self).mode,
                    self.frontend@ == old(self).frontend@,
                    self.remaining@.len() == 0,
                    self.approvals@ == old(self).approvals@,
                    self.dispatched.deep_view() == req_ids(approved@),
                    self.enable_ids@ == result.enable_extension_request_ids@,
                    self.all_install_ok == old(self).all_install_ok,
                    self.phase == old(self).phase,
                    self.all_ids == old(self).all_ids,
                    self.tool_response.role == old(self).tool_response.role,
                    forall|k: int|
                        0 <= k < self.tool_response.content@.len() ==> (
                        #[trigger] self.tool_response.content@[k]) is ToolResponse,
                    resp_base == old(self).tool_response.content@,
                    self.tool_response.content@.len() == resp_base.len() + done.len(),
                    self.tool_response.content@.subrange(0, resp_base.len() as int) == resp_base,
                    answers_all_with_text(
                        self.tool_response.content@.subrange(
                            resp_base.len() as int,
                            self.tool_response.content@.len() as int,
                        ),
                        done,
                        declined_text(),
                    ),
                    response_ids_of_parts(self.tool_response.content@).to_multiset().add(
                        req_ids(denied@).to_multiset(),
                    ) == response_ids_of_parts(resp_base).to_multiset().add(
                        req_ids(denied0).to_multiset(),
                    ),
                decreases denied@.len(),
            {
                let ghost den_pre = denied@;
                let q = denied.remove(0);
                let ghost qg = q;
                let ghost old_parts = self.tool_response.content@;
                let ghost old_resp_ids = response_ids_of_parts(self.tool_response.content@);
                let out = declined_output();
                fold_response(&mut self.tool_response, q.id, out);
                proof {
                    broadcast use vstd::seq_lib::group_to_multiset_ensures;
                    broadcast use vstd::multiset::group_multiset_axioms;

                    assert(done.push(qg) + denied@ =~= denied0);
                    lemma_response_ids_push(old_parts, self.tool_response.content@.last());
                    lemma_queue_pop(den_pre);
                    assert(den_pre.remove(0) =~= denied@);
                    assert(den_pre[0] == qg);
                    assert(req_ids(den_pre).to_multiset() =~= req_ids(
                        denied@,
                    ).to_multiset().insert(qg.id@));
                    assert(response_ids_of_parts(self.tool_response.content@) =~= old_resp_ids
                        .push(qg.id@));
                    assert(response_ids_of_parts(self.tool_response.content@).to_multiset() =~=
                        old_resp_ids.to_multiset().insert(qg.id@));
                    assert(old_resp_ids.to_multiset().insert(qg.id@).add(
                        req_ids(denied@).to_multiset(),
                    ) =~= old_resp_ids.to_multiset().add(
                        req_ids(denied@).to_multiset().insert(qg.id@),
                    ));
                    assert(self.tool_response.content@.subrange(0, resp_base.len() as int)
                        =~= resp_base);
                    assert forall|i2: int|
                        0 <= i2 < done.push(qg).len() implies answers_with_text(
                        #[trigger] self.tool_response.content@.subrange(
                            resp_base.len() as int,
                            self.tool_response.content@.len() as int,
                        )[i2],
                        done.push(qg)[i2],
                        declined_text(),
                    ) by {
                        if i2 < done.len() {
                            assert(self.tool_response.content@.subrange(
                                resp_base.len() as int,
                                self.tool_response.content@.len() as int,
                            )[i2] == old_parts.subrange(
                                resp_base.len() as int,
                                old_parts.len() as int,
                            )[i2]);
                        }
                    }
                    done = done.push(qg);
                }
            }

            let mut events: Vec<AgentEvent> = Vec::new();
            self.approvals = needs;
            if self.approvals.len() > 0 {
                events.push(AgentEvent::Message(confirmation_message(&self.approvals[0])));
                self.phase = TurnPhase::Approval;
            } else if self.dispatched.len() > 0 {
                self.phase = TurnPhase::Draining;
            } else {
                self.phase = TurnPhase::Finished;
            }
            proof {
                broadcast use vstd::seq_lib::group_to_multiset_ensures;
                broadcast use vstd::multiset::group_multiset_axioms;

                lemma_response_ids_parts(old(self).tool_response);
                lemma_response_ids_parts(self.tool_response);
                lemma_gate_split_ids(rem0, old(self).mode, ro, st);
                assert(done =~= denied0);
                assert(req_ids(self.frontend@) =~= Seq::<Seq<char>>::empty());
                assert(req_ids(self.remaining@) =~= Seq::<Seq<char>>::empty());
                assert(req_ids(denied@) =~= Seq::<Seq<char>>::empty());
                assert(Seq::<Seq<char>>::empty().to_multiset() =~= Multiset::<Seq<char>>::empty());
                assert(response_ids_of_parts(self.tool_response.content@).to_multiset()
                    =~= response_ids_of_parts(resp_base).to_multiset().add(
                    req_ids(denied0).to_multiset(),
                ));
                assert(pending_ids(*self) =~= req_ids(self.approvals@).to_multiset().add(
                    self.dispatched.deep_view().to_multiset(),
                ));
                assert(req_ids(rem0).to_multiset() =~= self.dispatched.deep_view().to_multiset()
                    .add(req_ids(self.approvals@).to_multiset()).add(
                    req_ids(denied0).to_multiset(),
                ));
                assert(response_ids_of_parts(self.tool_response.content@).to_multiset().add(
                    pending_ids(*self),
                ) =~= response_ids_of_parts(resp_base).to_multiset().add(
                    req_ids(rem0).to_multiset(),
                ));
                assert(response_ids_of_parts(resp_base).to_multiset().add(
                    req_ids(rem0).to_multiset(),
                ) =~= old(self).all_ids@.to_multiset());
                assert(response_ids_of_parts(self.tool_response.content@).to_multiset().add(
                    pending_ids(*self),
                ) =~= old(self).all_ids@.to_multiset());
            }
            (events, approved)
        }
    }
}

/// The position of the first occurrence of `id`, or minus one.
pub open spec fn first_index_of_id(ids: Seq<Seq<char>>, id: Seq<char>) -> int
    decreases ids.len(),
{
    if ids.len() == 0 {
        -1
    } else if ids[0] == id {
        0
    } else {
        let r = first_index_of_id(ids.drop_first(), id);
        if r == -1 {
            -1
        } else {
            r + 1
        }
    }
}

proof fn lemma_first_index_at(ids: Seq<Seq<char>>, id: Seq<char>, j: int)
    requires
        0 <= j < ids.len(),
        ids[j] == id,
        forall|k: int| 0 <= k < j ==> ids[k] != id,
    ensures
        first_index_of_id(ids, id) == j,
    decreases j,
{
    if j > 0 {
        lemma_first_index_at(ids.drop_first(), id, j - 1);
    }
}

proof fn lemma_first_index_absent(ids: Seq<Seq<char>>, id: Seq<char>)
    requires
        forall|k: int| 0 <= k < ids.len() ==> ids[k] != id,
    ensures
        first_index_of_id(ids, id) == -1,
    decreases ids.len(),
{
    if ids.len() > 0 {
        lemma_first_index_absent(ids.drop_first(), id);
    }
}

proof fn lemma_no_requests(content: Seq<MessageContent>)
    requires
        forall|i: int| 0 <= i < content.len() ==> (#[trigger] content[i]) is ToolResponse,
    ensures
        content.filter(|c: MessageContent| c is ToolRequest).len() == 0,
    decreases content.len(),
{
    if content.len() > 0 {
        lemma_no_requests(content.drop_last());
        lemma_filter_push(content.drop_last(), content.last(), |c: MessageContent| c
            is ToolRequest);
        assert(content.drop_last().push(content.last()) =~= content);
    }
}

/// The first position of `id` among the pending dispatched ids, if any.
fn find_pending_id(ids: &Vec<String>, id: &str) -> (r: Option<usize>)
    ensures
        match r {
            Some(j) => first_index_of_id(ids.deep_view(), id@) == j as int && j < ids@.len()
                && ids.deep_view()[j as int] == id@,
            None => first_index_of_id(ids.deep_view(), id@) == -1,
        },
{
    let n = ids.len();
    let mut j: usize = 0;
    while j < n
        invariant
            n == ids@.len(),
            ids.deep_view().len() == n,
            j <= n,
            forall|k: int| 0 <= k < j ==> ids.deep_view()[k] != id@,
        decreases n - j,
    {
        proof {
            assert(ids.deep_view()[j as int] == ids@[j as int]@);
        }
        if crate::strutil::str_eq(ids[j].as_str(), id) {
            proof {
                lemma_first_index_at(ids.deep_view(), id@, j as int);
            }
            return Some(j);
        }
        j += 1;
    }
    proof {
        lemma_first_index_absent(ids.deep_view(), id@);
    }
    None
}

impl TurnEngine {
    /// Takes the user's answer to the confirmation prompt being awaited.
    /// An answer for anything but the awaited request is dropped. An
    /// allowance hands the request back for dispatch; a denial folds the
    /// declined text in; an Always decision is persisted; then the next
    /// prompt is emitted, or the turn moves on.
    pub fn on_confirmation(
        &mut self,
        store: &mut PermissionStore,
        id: &str,
        confirmation: PermissionConfirmation,
    ) -> (r: (Vec<AgentEvent>, Vec<ToolRequest>, bool))
        requires
            engine_wf(*old(self)),
            old(self).phase == TurnPhase::Approval,
            store_wf(old(store).entries@),
        ensures
            engine_wf(*final(self)),
            store_wf(final(store).entries@),
            final(self).mode == old(self).mode,
            final(self).all_ids == old(self).all_ids,
            final(self).all_install_ok == old(self).all_install_ok,
            final(self).enable_ids@ == old(self).enable_ids@,
            r.2 <==> id@ == old(self).approvals@[0].id@,
            !r.2 ==> engine_same(*final(self), *old(self)) && r.0@.len() == 0 && r.1@.len() == 0
                && final(store).entries@ == old(store).entries@,
            r.2 ==> ({
                let q = old(self).approvals@[0];
                &&& final(self).approvals@ == old(self).approvals@.remove(0)
                &&& (confirmation.permission.spec_allows() ==> ({
                    &&& r.1@.len() == 1 && request_eq(r.1@[0], q)
                    &&& final(self).dispatched.deep_view() == old(self).dispatched.deep_view()
                        .push(q.id@)
                    &&& final(self).tool_response.content@ == old(self).tool_response.content@
                }))
                &&& (!confirmation.permission.spec_allows() ==> ({
                    &&& r.1@.len() == 0
                    &&& final(self).dispatched@ == old(self).dispatched@
                    &&& final(self).tool_response.content@.len() == old(
                        self,
                    ).tool_response.content@.len() + 1
                    &&& final(self).tool_response.content@.subrange(
                        0,
                        old(self).tool_response.content@.len() as int,
                    ) == old(self).tool_response.content@
                    &&& answers_with_text(
                        final(self).tool_response.content@.last(),
                        q,
                        declined_text(),
                    )
                }))
                &&& (confirmation.permission == PermissionDecision::AlwaysAllow
                    ==> crate::permission::store_lookup(final(store).entries@, q.call.name@)
                    == Some(PermissionDecision::AlwaysAllow))
                &&& (confirmation.permission == PermissionDecision::AlwaysDeny
                    ==> crate::permission::store_lookup(final(store).entries@, q.call.name@)
                    == Some(PermissionDecision::AlwaysDeny))
                &&& (confirmation.permission == PermissionDecision::AllowOnce
                    || confirmation.permission == PermissionDecision::DenyOnce
                    ==> final(store).entries@ == old(store).entries@)
                &&& final(self).approvals@.len() > 0 ==> r.0@.len() == 1 && is_confirmation_event(
                    r.0@[0],
                    final(self).approvals@[0],
                ) && final(self).phase == TurnPhase::Approval
                &&& final(self).approvals@.len() == 0 ==> r.0@.len() == 0
                &&& final(self).approvals@.len() == 0 && final(self).dispatched@.len() > 0
                    ==> final(self).phase == TurnPhase::Draining
                &&& final(self).approvals@.len() == 0 && final(self).dispatched@.len() == 0
                    ==> final(self).phase == TurnPhase::Finished
            }),
    {
        if !crate::strutil::str_eq(self.approvals[0].id.as_str(), id) {
            return (Vec::new(), Vec::new(), false);
        }
        let ghost ap_pre = self.approvals@;
        let q = self.approvals.remove(0);
        let ghost qg = q;
        match confirmation.permission {
            PermissionDecision::AlwaysAllow => {
                store.set(q.call.name.clone(), PermissionDecision::AlwaysAllow);
            },
            PermissionDecision::AlwaysDeny => {
                store.set(q.call.name.clone(), PermissionDecision::AlwaysDeny);
            },
            _ => {},
        }
        let mut to_dispatch: Vec<ToolRequest> = Vec::new();
        if confirmation.permission.allows() {
            let ghost d_pre = self.dispatched.deep_view();
            self.dispatched.push(q.id.clone());
            proof {
                broadcast use vstd::seq_lib::group_to_multiset_ensures;
                broadcast use vstd::multiset::group_multiset_axioms;

                lemma_queue_pop(ap_pre);
                assert(ap_pre.remove(0) =~= self.approvals@);
                assert(self.dispatched.deep_view() =~= d_pre.push(qg.id@));
                assert(self.dispatched.deep_view().to_multiset() =~= d_pre.to_multiset().insert(
                    qg.id@,
                ));
                assert(pending_ids(*self) =~= pending_ids(*old(self)));
            }
            to_dispatch.push(q);
        } else {
            let ghost old_parts = self.tool_response.content@;
            let ghost old_resp_ids = response_ids_of_parts(self.tool_response.content@);
            let out = declined_output();
            fold_response(&mut self.tool_response, q.id, out);
            proof {
                broadcast use vstd::seq_lib::group_to_multiset_ensures;
                broadcast use vstd::multiset::group_multiset_axioms;

                lemma_response_ids_parts(old(self).tool_response);
                lemma_response_ids_parts(self.tool_response);
                lemma_response_ids_push(old_parts, self.tool_response.content@.last());
                lemma_queue_pop(ap_pre);
                assert(ap_pre.remove(0) =~= self.approvals@);
                let rest = req_ids(self.frontend@).to_multiset().add(
                    req_ids(self.remaining@).to_multiset(),
                ).add(req_ids(self.approvals@).to_multiset()).add(
                    self.dispatched.deep_view().to_multiset(),
                );
                assert(rest.insert(qg.id@) =~= pending_ids(*old(self)));
                assert(old_resp_ids.to_multiset().add(rest.insert(qg.id@)) == old(
                    self,
                ).all_ids@.to_multiset());
                lemma_move_id(old_resp_ids, qg.id@, rest, old(self).all_ids@.to_multiset());
                assert(response_ids_of_parts(self.tool_response.content@) =~= old_resp_ids.push(
                    qg.id@,
                ));
                assert(rest =~= pending_ids(*self));
                assert(self.tool_response.content@.subrange(
                    0,
                    old(self).tool_response.content@.len() as int,
                ) =~= old(self).tool_response.content@);
            }
        }
        let mut events: Vec<AgentEvent> = Vec::new();
        if self.approvals.len() > 0 {
            events.push(AgentEvent::Message(confirmation_message(&self.approvals[0])));
        } else if self.dispatched.len() > 0 {
            self.phase = TurnPhase::Draining;
        } else {
            self.phase = TurnPhase::Finished;
        }
        (events, to_dispatch, true)
    }

    /// Takes the result of one dispatched tool call, in whatever order the
    /// calls resolve. A result for an id that is not pending is dropped.
    /// A failed enabling of an extension marks the turn so that the tool
    /// list is not refreshed.
    pub fn on_dispatch_result(&mut self, id: &str, result: ToolOutput) -> (r: bool)
        requires
            engine_wf(*old(self)),
            old(self).phase == TurnPhase::Draining,
        ensures
            engine_wf(*final(self)),
            final(self).mode == old(self).mode,
            final(self).all_ids == old(self).all_ids,
            final(self).enable_ids@ == old(self).enable_ids@,
            r <==> first_index_of_id(old(self).dispatched.deep_view(), id@) >= 0,
            !r ==> engine_same(*final(self), *old(self)),
            r ==> ({
                let j = first_index_of_id(old(self).dispatched.deep_view(), id@);
                &&& final(self).dispatched.deep_view() == old(self).dispatched.deep_view().remove(
                    j,
                )
                &&& appended_response(
                    final(self).tool_response,
                    old(self).tool_response,
                    id@,
                    result,
                )
                &&& final(self).all_install_ok == (old(self).all_install_ok && !(
                crate::permission::names_contain(old(self).enable_ids.deep_view(), id@) && result
                    is Err))
                &&& final(self).dispatched@.len() == 0 ==> final(self).phase
                    == TurnPhase::Finished
                &&& final(self).dispatched@.len() > 0 ==> final(self).phase
                    == TurnPhase::Draining
            }),
    {
        let j = match find_pending_id(&self.dispatched, id) {
            Some(j) => j,
            None => {
                return false;
            },
        };
        if crate::permission::contains_name(&self.enable_ids, id) {
            match &result {
                Err(e) => {
                    self.all_install_ok = false;
                },
                Ok(c) => {},
            }
        }
        let ghost d_pre = self.dispatched.deep_view();
        let removed = self.dispatched.remove(j);
        let ghost old_parts = self.tool_response.content@;
        let ghost old_resp_ids = response_ids_of_parts(self.tool_response.content@);
        proof {
            assert(removed@ == d_pre[j as int]);
            assert(removed@ == id@);
        }
        fold_response(&mut self.tool_response, removed, result);
        proof {
            broadcast use vstd::seq_lib::group_to_multiset_ensures;
            broadcast use vstd::multiset::group_multiset_axioms;

            lemma_response_ids_parts(old(self).tool_response);
            lemma_response_ids_parts(self.tool_response);
            lemma_response_ids_push(old_parts, self.tool_response.content@.last());
            assert(self.dispatched.deep_view() =~= d_pre.remove(j as int));
            lemma_ids_remove(d_pre, j as int);
            let rest = req_ids(self.frontend@).to_multiset().add(
                req_ids(self.remaining@).to_multiset(),
            ).add(req_ids(self.approvals@).to_multiset()).add(
                self.dispatched.deep_view().to_multiset(),
            );
            assert(rest.insert(id@) =~= pending_ids(*old(self)));
            assert(old_resp_ids.to_multiset().add(rest.insert(id@)) == old(
                self,
            ).all_ids@.to_multiset());
            lemma_move_id(old_resp_ids, id@, rest, old(self).all_ids@.to_multiset());
            assert(response_ids_of_parts(self.tool_response.content@) =~= old_resp_ids.push(id@));
            assert(rest =~= pending_ids(*self));
            assert(self.tool_response.content@.subrange(
                0,
                old(self).tool_response.content@.len() as int,
            ) =~= old(self).tool_response.content@);
        }
        if self.dispatched.len() == 0 {
            self.phase = TurnPhase::Finished;
        }
        true
    }

    /// Closes the turn: hands back the tool response that pairs every
    /// request of the assistant message, and whether every extension
    /// enabling succeeded, so that the tool list may be refreshed.
    pub fn finish(self) -> (r: (Message, bool))
        requires
            engine_wf(self),
            self.phase == TurnPhase::Finished,
        ensures
            r.0.role == Role::User,
            response_ids_of(r.0).to_multiset() == self.all_ids@.to_multiset(),
            request_ids_of(r.0).len() == 0,
            r.1 == self.all_install_ok,
    {
        proof {
            broadcast use vstd::seq_lib::group_to_multiset_ensures;
            broadcast use vstd::multiset::group_multiset_axioms;

            assert(req_ids(self.frontend@) =~= Seq::<Seq<char>>::empty());
            assert(req_ids(self.remaining@) =~= Seq::<Seq<char>>::empty());
            assert(req_ids(self.approvals@) =~= Seq::<Seq<char>>::empty());
            assert(self.dispatched.deep_view() =~= Seq::<Seq<char>>::empty());
            assert(pending_ids(self) =~= Multiset::<Seq<char>>::empty());
            assert(response_ids_of(self.tool_response).to_multiset().add(
                Multiset::<Seq<char>>::empty(),
            ) =~= response_ids_of(self.tool_response).to_multiset());
            lemma_no_requests(self.tool_response.content@);
            assert(requests_of(self.tool_response).len() == 0);
        }
        (self.tool_response, self.all_install_ok)
    }
}

/// One finished turn pairs the requests: the tool response answers exactly
/// the ids the assistant message asked, one response each.
pub open spec fn turn_paired(assistant: Message, response: Message) -> bool {
    request_ids_of(assistant).to_multiset() == response_ids_of(response).to_multiset()
}

/// Message pairing over a whole conversation: every message with tool-use
/// requests is followed by a message answering exactly those requests.
pub open spec fn conversation_paired(msgs: Seq<Message>) -> bool {
    forall|i: int|
        0 <= i < msgs.len() && request_ids_of(#[trigger] msgs[i]).len() > 0 ==> i + 1 < msgs.len()
            && turn_paired(msgs[i], msgs[i + 1])
}

/// Pairing is preserved across a full turn: appending an assistant message
/// and the tool response a finished turn built for it keeps every tool-use
/// request of the conversation answered by the very next message.
pub proof fn lemma_turn_extends_pairing(msgs: Seq<Message>, assistant: Message, response: Message)
    requires
        conversation_paired(msgs),
        msgs.len() > 0 ==> request_ids_of(msgs[msgs.len() - 1]).len() == 0,
        turn_paired(assistant, response),
        request_ids_of(response).len() == 0,
    ensures
        conversation_paired(msgs.push(assistant).push(response)),
        request_ids_of(msgs.push(assistant).push(response)[msgs.push(assistant).push(
            response,
        ).len() - 1]).len() == 0,
{
    let ext = msgs.push(assistant).push(response);
    assert forall|i: int|
        0 <= i < ext.len() && request_ids_of(#[trigger] ext[i]).len() > 0 implies i + 1 < ext.len()
        && turn_paired(ext[i], ext[i + 1]) by {
        if i < msgs.len() - 1 {
            assert(ext[i] == msgs[i]);
            assert(ext[i + 1] == msgs[i + 1]);
        } else if i == msgs.len() - 1 {
            assert(ext[i] == msgs[i]);
        } else if i == msgs.len() {
            assert(ext[i] == assistant);
            assert(ext[i + 1] == response);
        } else {
            assert(ext[i] == response);
        }
    }
    assert(ext[ext.len() - 1] == response);
}

} // verus!
