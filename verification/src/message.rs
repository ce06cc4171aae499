//! The conversation model: messages made of ordered content parts, tool-use
//! requests and their paired responses, and the events the reply stream yields.

use vstd::prelude::*;
use crate::args::{ToolArgs, args_eq};

verus! {

/// A tool invocation requested by the assistant: a tool name and arguments.
#[derive(Debug)]
pub struct ToolCall {
    pub name: String,
    pub arguments: ToolArgs,
}

/// Two tool calls are the same call if name and arguments agree.
pub open spec fn call_eq(a: ToolCall, b: ToolCall) -> bool {
    a.name@ == b.name@ && args_eq(a.arguments, b.arguments)
}

/// The one kind of per-tool failure the loop folds back into the reply.
#[derive(Debug)]
pub enum ToolError {
    ExecutionError(String),
}

/// One piece of successful tool output.
#[derive(Debug)]
pub enum Content {
    Text(String),
    Image { mime_type: String, data: String },
}

impl Content {
    /// Builds a text part.
    pub fn text(s: String) -> (r: Content)
        ensures
            r == Content::Text(s),
    {
        Content::Text(s)
    }

    /// The text of a text part, if this is one.
    pub fn as_text(&self) -> (r: Option<&String>)
        ensures
            match r {
                Some(s) => *self matches Content::Text(t) && t@ == s@,
                None => !(*self is Text),
            },
    {
        match self {
            Content::Text(s) => Some(s),
            _ => None,
        }
    }
}

/// What a finished tool call produced: content on success, an error otherwise.
pub type ToolOutput = Result<Vec<Content>, ToolError>;

/// Two outputs agree when they have the same outcome and the same contents.
pub open spec fn output_eq(a: ToolOutput, b: ToolOutput) -> bool {
    match (a, b) {
        (Ok(x), Ok(y)) => x@ == y@,
        (Err(ToolError::ExecutionError(x)), Err(ToolError::ExecutionError(y))) => x@ == y@,
        _ => false,
    }
}

/// A pending tool-use request: its unique id and the call.
#[derive(Debug)]
pub struct ToolRequest {
    pub id: String,
    pub call: ToolCall,
}

/// Two requests agree when id and call agree.
pub open spec fn request_eq(a: ToolRequest, b: ToolRequest) -> bool {
    a.id@ == b.id@ && call_eq(a.call, b.call)
}

/// The response paired with a request id.
#[derive(Debug)]
pub struct ToolResponse {
    pub id: String,
    pub result: ToolOutput,
}

/// A prompt asking the user to approve one tool call.
#[derive(Debug)]
pub struct ConfirmationRequest {
    pub id: String,
    pub call: ToolCall,
}

/// One ordered part of a message.
#[derive(Debug)]
pub enum MessageContent {
    Text(String),
    ToolRequest(ToolRequest),
    ToolResponse(ToolResponse),
    ConfirmationRequest(ConfirmationRequest),
    ContextLengthExceeded(String),
}

/// Two content parts agree when they have the same shape and agreeing fields.
pub open spec fn part_eq(a: MessageContent, b: MessageContent) -> bool {
    match (a, b) {
        (MessageContent::Text(x), MessageContent::Text(y)) => x@ == y@,
        (MessageContent::ToolRequest(x), MessageContent::ToolRequest(y)) => request_eq(x, y),
        (MessageContent::ToolResponse(x), MessageContent::ToolResponse(y)) => x.id@ == y.id@
            && output_eq(x.result, y.result),
        (MessageContent::ConfirmationRequest(x), MessageContent::ConfirmationRequest(y)) => x.id@
            == y.id@ && call_eq(x.call, y.call),
        (MessageContent::ContextLengthExceeded(x), MessageContent::ContextLengthExceeded(y)) => x@
            == y@,
        _ => false,
    }
}

/// Who a message speaks for.
#[derive(Clone, Copy, Debug, PartialEq, Eq, Structural)]
pub enum Role {
    Assistant,
    User,
}

/// A message: a role and an ordered sequence of content parts, immutable once
/// appended to the conversation.
#[derive(Debug)]
pub struct Message {
    pub role: Role,
    pub content: Vec<MessageContent>,
}

/// Two messages agree when role and all parts agree, in order.
pub open spec fn message_eq(a: Message, b: Message) -> bool {
    &&& a.role == b.role
    &&& a.content@.len() == b.content@.len()
    &&& forall|i: int|
        0 <= i < a.content@.len() ==> part_eq(#[trigger] a.content@[i], b.content@[i])
}

/// A notification forwarded from a tool while it runs; carried through
/// untouched, so modelled by its serialized payload.
#[derive(Debug)]
pub struct JsonRpcMessage {
    pub payload: String,
}

/// One element of the reply stream.
#[derive(Debug)]
pub enum AgentEvent {
    Message(Message),
    McpNotification(String, JsonRpcMessage),
}

impl Clone for ToolCall {
    fn clone(&self) -> (r: Self)
        ensures
            r.name@ == self.name@,
            r.arguments.entries@ == self.arguments.entries@,
            call_eq(r, *self),
    {
        ToolCall { name: self.name.clone(), arguments: self.arguments.clone() }
    }
}

impl Clone for ToolError {
    fn clone(&self) -> (r: Self)
        ensures
            r == *self,
    {
        match self {
            ToolError::ExecutionError(s) => ToolError::ExecutionError(s.clone()),
        }
    }
}

impl Clone for Content {
    fn clone(&self) -> (r: Self)
        ensures
            r == *self,
    {
        match self {
            Content::Text(s) => Content::Text(s.clone()),
            Content::Image { mime_type, data } => Content::Image {
                mime_type: mime_type.clone(),
                data: data.clone(),
            },
        }
    }
}

/// Copies a list of output parts.
pub fn clone_contents(v: &Vec<Content>) -> (r: Vec<Content>)
    ensures
        r@ == v@,
{
    let mut out: Vec<Content> = Vec::new();
    let n = v.len();
    let mut i: usize = 0;
    while i < n
        invariant
            n == v@.len(),
            i <= n,
            out@ =~= v@.subrange(0, i as int),
        decreases n - i,
    {
        out.push(v[i].clone());
        i += 1;
    }
    proof {
        assert(out@ =~= v@);
    }
    out
}

/// Copies a tool output.
pub fn clone_output(o: &ToolOutput) -> (r: ToolOutput)
    ensures
        output_eq(r, *o),
{
    match o {
        Ok(v) => Ok(clone_contents(v)),
        Err(e) => Err(e.clone()),
    }
}

impl Clone for ToolRequest {
    fn clone(&self) -> (r: Self)
        ensures
            request_eq(r, *self),
    {
        ToolRequest { id: self.id.clone(), call: self.call.clone() }
    }
}

impl Clone for ToolResponse {
    fn clone(&self) -> (r: Self)
        ensures
            r.id@ == self.id@,
            output_eq(r.result, self.result),
    {
        ToolResponse { id: self.id.clone(), result: clone_output(&self.result) }
    }
}

impl Clone for ConfirmationRequest {
    fn clone(&self) -> (r: Self)
        ensures
            r.id@ == self.id@,
            call_eq(r.call, self.call),
    {
        ConfirmationRequest { id: self.id.clone(), call: self.call.clone() }
    }
}

impl Clone for MessageContent {
    fn clone(&self) -> (r: Self)
        ensures
            part_eq(r, *self),
    {
        match self {
            MessageContent::Text(s) => MessageContent::Text(s.clone()),
            MessageContent::ToolRequest(t) => MessageContent::ToolRequest(t.clone()),
            MessageContent::ToolResponse(t) => MessageContent::ToolResponse(t.clone()),
            MessageContent::ConfirmationRequest(c) => MessageContent::ConfirmationRequest(
                c.clone(),
            ),
            MessageContent::ContextLengthExceeded(s) => MessageContent::ContextLengthExceeded(
                s.clone(),
            ),
        }
    }
}

impl Clone for Message {
    fn clone(&self) -> (r: Self)
        ensures
            message_eq(r, *self),
    {
        let mut content: Vec<MessageContent> = Vec::new();
        let n = self.content.len();
        let mut i: usize = 0;
        while i < n
            invariant
                n == self.content@.len(),
                i <= n,
                content@.len() == i,
                forall|j: int|
                    0 <= j < i ==> part_eq(#[trigger] content@[j], self.content@[j]),
            decreases n - i,
        {
            content.push(self.content[i].clone());
            i += 1;
        }
        Message { role: self.role, content }
    }
}

impl Clone for JsonRpcMessage {
    fn clone(&self) -> (r: Self)
        ensures
            r == *self,
    {
        JsonRpcMessage { payload: self.payload.clone() }
    }
}

/// The tool-use requests of a message, in order.
pub open spec fn requests_of(m: Message) -> Seq<ToolRequest> {
    m.content@.filter(|c: MessageContent| c is ToolRequest).map_values(
        |c: MessageContent| c->ToolRequest_0,
    )
}

/// The ids of the tool-use requests of a message, in order.
pub open spec fn request_ids_of(m: Message) -> Seq<Seq<char>> {
    requests_of(m).map_values(|r: ToolRequest| r.id@)
}

/// The tool responses of a message, in order.
pub open spec fn responses_of(m: Message) -> Seq<ToolResponse> {
    m.content@.filter(|c: MessageContent| c is ToolResponse).map_values(
        |c: MessageContent| c->ToolResponse_0,
    )
}

/// The ids of the tool responses of a message, in order.
pub open spec fn response_ids_of(m: Message) -> Seq<Seq<char>> {
    responses_of(m).map_values(|r: ToolResponse| r.id@)
}

/// Whether `r` is a success holding exactly one text part reading `t`.
pub open spec fn ok_text_is(r: Result<Vec<Content>, ToolError>, t: Seq<char>) -> bool {
    match r {
        Ok(c) => c@.len() == 1 && match c@[0] {
            Content::Text(s) => s@ == t,
            _ => false,
        },
        Err(e) => false,
    }
}

/// Whether `r` is a success holding exactly one text part that begins
/// with `p`.
pub open spec fn ok_text_has_prefix(r: Result<Vec<Content>, ToolError>, p: Seq<char>) -> bool {
    match r {
        Ok(c) => c@.len() == 1 && match c@[0] {
            Content::Text(s) => crate::strutil::has_prefix(s@, p),
            _ => false,
        },
        Err(e) => false,
    }
}

/// Whether `r` is an execution error reading `t`.
pub open spec fn err_text_is(r: Result<Vec<Content>, ToolError>, t: Seq<char>) -> bool {
    match r {
        Ok(c) => false,
        Err(e) => match e {
            ToolError::ExecutionError(m) => m@ == t,
        },
    }
}

/// Whether `r` is an execution error whose text begins with `p`.
pub open spec fn err_text_has_prefix(r: Result<Vec<Content>, ToolError>, p: Seq<char>) -> bool {
    match r {
        Ok(c) => false,
        Err(e) => match e {
            ToolError::ExecutionError(m) => crate::strutil::has_prefix(m@, p),
        },
    }
}

impl Message {
    /// An empty user message.
    pub fn user() -> (r: Message)
        ensures
            r.role == Role::User,
            r.content@.len() == 0,
    {
        Message { role: Role::User, content: Vec::new() }
    }

    /// An empty assistant message.
    pub fn assistant() -> (r: Message)
        ensures
            r.role == Role::Assistant,
            r.content@.len() == 0,
    {
        Message { role: Role::Assistant, content: Vec::new() }
    }

    /// Appends a text part.
    pub fn with_text(self, text: String) -> (r: Message)
        ensures
            r.role == self.role,
            r.content@ == self.content@.push(MessageContent::Text(text)),
    {
        let mut m = self;
        m.content.push(MessageContent::Text(text));
        m
    }

    /// Appends a tool response pairing `id` with `result`.
    pub fn with_tool_response(self, id: String, result: ToolOutput) -> (r: Message)
        ensures
            r.role == self.role,
            r.content@ == self.content@.push(
                MessageContent::ToolResponse(ToolResponse { id, result }),
            ),
    {
        let mut m = self;
        m.content.push(MessageContent::ToolResponse(ToolResponse { id, result }));
        m
    }

    /// Appends a tool-use request part.
    pub fn with_tool_request(self, id: String, call: ToolCall) -> (r: Message)
        ensures
            r.role == self.role,
            r.content@ == self.content@.push(
                MessageContent::ToolRequest(ToolRequest { id, call }),
            ),
    {
        let mut m = self;
        m.content.push(MessageContent::ToolRequest(ToolRequest { id, call }));
        m
    }

    /// Appends a confirmation request for one tool call.
    pub fn with_confirmation_request(self, id: String, call: ToolCall) -> (r: Message)
        ensures
            r.role == self.role,
            r.content@ == self.content@.push(
                MessageContent::ConfirmationRequest(ConfirmationRequest { id, call }),
            ),
    {
        let mut m = self;
        m.content.push(MessageContent::ConfirmationRequest(ConfirmationRequest { id, call }));
        m
    }

    /// Appends the terminal part that reports an exceeded context length.
    pub fn with_context_length_exceeded(self, text: String) -> (r: Message)
        ensures
            r.role == self.role,
            r.content@ == self.content@.push(MessageContent::ContextLengthExceeded(text)),
    {
        let mut m = self;
        m.content.push(MessageContent::ContextLengthExceeded(text));
        m
    }
}

} // verus!
