//! The agent's own vocabulary: the reasoning depth of a Send, the entries of
//! a Session's history and their projection onto a provider request, the
//! events of a Run, and why a Send or a Run fails.

use vstd::prelude::*;

use crate::protocol::{
    copy_tools, tools_view, ChatRequest, ToolDecl,
    ContentBlock, Message as ProviderMessage, ProviderError, ProviderErrorKind, ReasoningEffort, StreamChunk,
    ThinkingMode, ThinkingToggle, ToolCall,
};

verus! {

/// The reasoning depth of one Send. `Off` disables thinking mode; the others
/// set the effort. `Low` is the default.
#[derive(Debug, Clone, Copy, PartialEq, Eq, Structural)]
pub enum ThinkingLevel {
    Off,
    Low,
    High,
    Max,
}

impl Default for ThinkingLevel {
    fn default() -> (r: Self)
        ensures
            r == ThinkingLevel::Low,
    {
        ThinkingLevel::Low
    }
}

/// The request fields a reasoning depth stands for: `Off` disables thinking
/// with no effort; the others enable it at the matching effort.
pub open spec fn thinking_wire(level: ThinkingLevel) -> (Option<ReasoningEffort>, Option<ThinkingToggle>) {
    match level {
        ThinkingLevel::Off => (None, Some(ThinkingToggle { kind: ThinkingMode::Disabled })),
        ThinkingLevel::Low => (
            Some(ReasoningEffort::Low),
            Some(ThinkingToggle { kind: ThinkingMode::Enabled }),
        ),
        ThinkingLevel::High => (
            Some(ReasoningEffort::High),
            Some(ThinkingToggle { kind: ThinkingMode::Enabled }),
        ),
        ThinkingLevel::Max => (
            Some(ReasoningEffort::Max),
            Some(ThinkingToggle { kind: ThinkingMode::Enabled }),
        ),
    }
}

/// Maps a reasoning depth onto the request fields (`reasoning_effort`,
/// `thinking`).
pub fn thinking_to_wire(level: ThinkingLevel) -> (r: (Option<ReasoningEffort>, Option<ThinkingToggle>))
    ensures
        r == thinking_wire(level),
{
    match level {
        ThinkingLevel::Off => (None, Some(ThinkingToggle { kind: ThinkingMode::Disabled })),
        ThinkingLevel::Low => (
            Some(ReasoningEffort::Low),
            Some(ThinkingToggle { kind: ThinkingMode::Enabled }),
        ),
        ThinkingLevel::High => (
            Some(ReasoningEffort::High),
            Some(ThinkingToggle { kind: ThinkingMode::Enabled }),
        ),
        ThinkingLevel::Max => (
            Some(ReasoningEffort::Max),
            Some(ThinkingToggle { kind: ThinkingMode::Enabled }),
        ),
    }
}

/// One entry of a Session's history: the system prompt, the caller's
/// messages, each Reply, or the Interrupt marker that lands in place of a
/// Reply the caller cut (an `Assistant` with `interrupt` set and nothing
/// else).
#[derive(Debug, Clone, PartialEq)]
pub enum Message {
    System { content: String },
    User { content: Vec<ContentBlock> },
    Assistant {
        content: String,
        reasoning_content: Option<String>,
        tool_calls: Option<Vec<ToolCall>>,
        interrupt: bool,
    },
    Tool { tool_call_id: String, content: String },
}

impl Message {
    /// The Interrupt marker: an empty `Assistant` entry with `interrupt` set.
    pub fn new_interrupt_marker() -> (r: Self)
        ensures
            r matches Message::Assistant { content, reasoning_content, tool_calls, interrupt }
                && content@ == Seq::<char>::empty() && reasoning_content is None && tool_calls is None
                && interrupt,
    {
        Message::Assistant {
            content: String::new(),
            reasoning_content: None,
            tool_calls: None,
            interrupt: true,
        }
    }

    /// A Reply: the assistant half of a Send, with no tool calls and no
    /// Interrupt.
    pub fn new_assistant_reply(content: String, reasoning_content: Option<String>) -> (r: Self)
        ensures
            r == (Message::Assistant { content, reasoning_content, tool_calls: None, interrupt: false }),
    {
        Message::Assistant { content, reasoning_content, tool_calls: None, interrupt: false }
    }
}

/// Whether a flag is unset: an absent `interrupt` stands for `false`.
pub fn is_false(flag: &bool) -> (r: bool)
    ensures
        r == !*flag,
{
    !*flag
}

/// The provider's view of a history entry: the Interrupt marker is dropped,
/// every other entry passes through with its contents.
pub open spec fn provider_view(m: Message) -> Option<ProviderMessage> {
    match m {
        Message::System { content } => Some(ProviderMessage::System { content }),
        Message::User { content } => Some(ProviderMessage::User { content }),
        Message::Assistant { content, reasoning_content, tool_calls, interrupt } => if interrupt {
            None
        } else {
            Some(ProviderMessage::Assistant { content, reasoning_content, tool_calls })
        },
        Message::Tool { tool_call_id, content } => Some(ProviderMessage::Tool { tool_call_id, content }),
    }
}

/// Projects one history entry onto the provider's message; `None` for the
/// Interrupt marker.
pub fn to_provider_message(message: Message) -> (r: Option<ProviderMessage>)
    ensures
        r == provider_view(message),
{
    match message {
        Message::System { content } => Some(ProviderMessage::System { content }),
        Message::User { content } => Some(ProviderMessage::User { content }),
        Message::Assistant { content, reasoning_content, tool_calls, interrupt } => {
            if interrupt {
                None
            } else {
                Some(ProviderMessage::Assistant { content, reasoning_content, tool_calls })
            }
        },
        Message::Tool { tool_call_id, content } => Some(ProviderMessage::Tool { tool_call_id, content }),
    }
}

/// One cell of a Run's stream. `Interrupted` is the caller's own act: the
/// Reply never lands.
#[derive(Debug, Clone, PartialEq)]
pub enum RunEvent {
    ReasoningDelta(String),
    ContentDelta(String),
    Done,
    Interrupted,
}

/// Why a Run failed: the provider's own cause, intact, mid-stream.
#[derive(Debug, PartialEq)]
pub enum RunError {
    Provider(ProviderError),
}

/// Why a Send produced no Run: no live Session, a Send already in flight,
/// or the provider's failure at delivery.
#[derive(Debug, PartialEq)]
pub enum SendError {
    NoSession,
    Busy,
    Provider(ProviderError),
}

impl From<RunError> for SendError {
    fn from(err: RunError) -> (r: Self) {
        match err {
            RunError::Provider(error) => SendError::Provider(error),
        }
    }
}

impl vstd::std_specs::convert::FromSpecImpl<RunError> for SendError {
    open spec fn obeys_from_spec() -> bool {
        true
    }

    open spec fn from_spec(err: RunError) -> SendError {
        match err {
            RunError::Provider(error) => SendError::Provider(error),
        }
    }
}

/// Why an advisor round failed: the provider's failure, no provider
/// selected, or the caller's cancellation.
#[derive(Debug, Clone, PartialEq)]
pub enum AgentError {
    Provider(ProviderError),
    NoProvider,
    Cancelled,
}

/// The misconfiguration of an agent with no provider selected.
pub open spec fn no_provider_message() -> Seq<char> {
    "AI not configured: no provider selected"@
}

/// The `Config` failure of an agent with no provider selected.
pub fn no_provider_error() -> (r: ProviderError)
    ensures
        r.kind == ProviderErrorKind::Config,
        r.code is None,
        r.message@ == no_provider_message(),
{
    ProviderError {
        kind: ProviderErrorKind::Config,
        code: None,
        message: String::from_str("AI not configured: no provider selected"),
    }
}


// ---------------------------------------------------------------------
// The history's model

/// What a content block holds.
pub enum BlockModel {
    Text(Seq<char>),
    ImageUrl(Seq<char>),
}

/// What a tool call holds.
pub struct ToolCallModel {
    pub id: Seq<char>,
    pub name: Seq<char>,
    pub arguments: Seq<char>,
}

/// What a history entry holds.
pub enum MessageModel {
    System { content: Seq<char> },
    User { content: Seq<BlockModel> },
    Assistant {
        content: Seq<char>,
        reasoning_content: Option<Seq<char>>,
        tool_calls: Option<Seq<ToolCallModel>>,
        interrupt: bool,
    },
    Tool { tool_call_id: Seq<char>, content: Seq<char> },
}

/// The model of a content block.
pub open spec fn block_model(b: ContentBlock) -> BlockModel {
    match b {
        ContentBlock::Text(t) => BlockModel::Text(t@),
        ContentBlock::ImageUrl(u) => BlockModel::ImageUrl(u@),
    }
}

/// The model of a tool call.
pub open spec fn tool_call_model(c: ToolCall) -> ToolCallModel {
    ToolCallModel { id: c.id@, name: c.name@, arguments: c.arguments@ }
}

/// The model of an optional text.
pub open spec fn text_model(t: Option<String>) -> Option<Seq<char>> {
    match t {
        Some(s) => Some(s@),
        None => None,
    }
}

/// The model of a history entry.
pub open spec fn message_model(m: Message) -> MessageModel {
    match m {
        Message::System { content } => MessageModel::System { content: content@ },
        Message::User { content } => MessageModel::User {
            content: content@.map_values(|b: ContentBlock| block_model(b)),
        },
        Message::Assistant { content, reasoning_content, tool_calls, interrupt } => MessageModel::Assistant {
            content: content@,
            reasoning_content: text_model(reasoning_content),
            tool_calls: match tool_calls {
                Some(v) => Some(v@.map_values(|c: ToolCall| tool_call_model(c))),
                None => None,
            },
            interrupt,
        },
        Message::Tool { tool_call_id, content } => MessageModel::Tool {
            tool_call_id: tool_call_id@,
            content: content@,
        },
    }
}

/// The model of a history.
pub open spec fn history_model(v: Seq<Message>) -> Seq<MessageModel> {
    v.map_values(|m: Message| message_model(m))
}

/// The Interrupt marker's model.
pub open spec fn interrupt_marker() -> MessageModel {
    MessageModel::Assistant {
        content: Seq::empty(),
        reasoning_content: None,
        tool_calls: None,
        interrupt: true,
    }
}

/// A Reply's model.
pub open spec fn reply_model(content: Seq<char>, reasoning: Option<Seq<char>>) -> MessageModel {
    MessageModel::Assistant { content, reasoning_content: reasoning, tool_calls: None, interrupt: false }
}

fn copy_block(b: &ContentBlock) -> (r: ContentBlock)
    ensures
        block_model(r) == block_model(*b),
{
    match b {
        ContentBlock::Text(t) => ContentBlock::Text(t.clone()),
        ContentBlock::ImageUrl(u) => ContentBlock::ImageUrl(u.clone()),
    }
}

fn copy_tool_call(c: &ToolCall) -> (r: ToolCall)
    ensures
        tool_call_model(r) == tool_call_model(*c),
{
    ToolCall { id: c.id.clone(), name: c.name.clone(), arguments: c.arguments.clone() }
}

fn copy_text(t: &Option<String>) -> (r: Option<String>)
    ensures
        text_model(r) == text_model(*t),
{
    match t {
        Some(s) => Some(s.clone()),
        None => None,
    }
}

fn copy_blocks(v: &Vec<ContentBlock>) -> (r: Vec<ContentBlock>)
    ensures
        r@.map_values(|b: ContentBlock| block_model(b)) == v@.map_values(|b: ContentBlock| block_model(b)),
{
    let mut r: Vec<ContentBlock> = Vec::new();
    let mut i: usize = 0;
    while i < v.len()
        invariant
            i <= v@.len(),
            r@.len() == i,
            forall|j: int| 0 <= j < i ==> block_model(#[trigger] r@[j]) == block_model(v@[j]),
        decreases v.len() - i,
    {
        r.push(copy_block(&v[i]));
        i += 1;
    }
    assert(r@.map_values(|b: ContentBlock| block_model(b)) =~= v@.map_values(|b: ContentBlock| block_model(b)));
    r
}

fn copy_tool_calls(v: &Vec<ToolCall>) -> (r: Vec<ToolCall>)
    ensures
        r@.map_values(|c: ToolCall| tool_call_model(c)) == v@.map_values(|c: ToolCall| tool_call_model(c)),
{
    let mut r: Vec<ToolCall> = Vec::new();
    let mut i: usize = 0;
    while i < v.len()
        invariant
            i <= v@.len(),
            r@.len() == i,
            forall|j: int| 0 <= j < i ==> tool_call_model(#[trigger] r@[j]) == tool_call_model(v@[j]),
        decreases v.len() - i,
    {
        r.push(copy_tool_call(&v[i]));
        i += 1;
    }
    assert(r@.map_values(|c: ToolCall| tool_call_model(c)) =~= v@.map_values(|c: ToolCall| tool_call_model(c)));
    r
}

/// A copy of a history entry with the same contents.
pub fn copy_message(m: &Message) -> (r: Message)
    ensures
        message_model(r) == message_model(*m),
{
    match m {
        Message::System { content } => Message::System { content: content.clone() },
        Message::User { content } => Message::User { content: copy_blocks(content) },
        Message::Assistant { content, reasoning_content, tool_calls, interrupt } => {
            let calls = match tool_calls {
                Some(v) => Some(copy_tool_calls(v)),
                None => None,
            };
            Message::Assistant {
                content: content.clone(),
                reasoning_content: copy_text(reasoning_content),
                tool_calls: calls,
                interrupt: *interrupt,
            }
        },
        Message::Tool { tool_call_id, content } => Message::Tool {
            tool_call_id: tool_call_id.clone(),
            content: content.clone(),
        },
    }
}

/// A copy of a history with the same contents.
pub fn copy_history(v: &Vec<Message>) -> (r: Vec<Message>)
    ensures
        history_model(r@) == history_model(v@),
{
    let mut r: Vec<Message> = Vec::new();
    let mut i: usize = 0;
    while i < v.len()
        invariant
            i <= v@.len(),
            r@.len() == i,
            forall|j: int| 0 <= j < i ==> message_model(#[trigger] r@[j]) == message_model(v@[j]),
        decreases v.len() - i,
    {
        r.push(copy_message(&v[i]));
        i += 1;
    }
    assert(history_model(r@) =~= history_model(v@));
    r
}

// ---------------------------------------------------------------------
// The live Session

/// What a live Session is: its number, its history, and whether a Send is
/// in flight against it.
pub struct SessionModel {
    pub seq: u64,
    pub history: Seq<MessageModel>,
    pub in_flight: bool,
}

/// What an agent's Session slot is: at most one live Session, and the
/// counter that numbers the next one.
pub struct SlotModel {
    pub live: Option<SessionModel>,
    pub next_seq: u64,
}

struct LiveSession {
    seq: u64,
    messages: Vec<Message>,
    in_flight: bool,
}

/// The live Session of an agent and the counter behind Session numbers. A
/// Send is admitted against the live Session, appends its messages while that
/// Session is still live, and frees the in-flight slot when it ends; a
/// superseded Send touches neither.
pub struct SessionSlot {
    live: Option<LiveSession>,
    next_seq: u64,
}

/// The number after `n`, wrapping at the top of `u64`.
pub open spec fn next_number(n: u64) -> u64 {
    if n == u64::MAX {
        0
    } else {
        (n + 1) as u64
    }
}

/// The counter of a slot has moved past its live Session's number.
pub open spec fn slot_wf(m: SlotModel) -> bool {
    m.live matches Some(s) ==> m.next_seq == next_number(s.seq)
}

/// The slot once its live Session is replaced by a fresh one, numbered by
/// the counter, whose history opens with the system prompt.
pub open spec fn created(m: SlotModel, system_prompt: Seq<char>) -> SlotModel {
    SlotModel {
        live: Some(
            SessionModel {
                seq: m.next_seq,
                history: seq![MessageModel::System { content: system_prompt }],
                in_flight: false,
            },
        ),
        next_seq: next_number(m.next_seq),
    }
}

/// The slot once its live Session is ended.
pub open spec fn ended(m: SlotModel) -> SlotModel {
    SlotModel { live: None, ..m }
}

/// Why a Send is refused: no live Session, or a Send already in flight.
pub open spec fn refusal(m: SlotModel) -> Option<SendError> {
    match m.live {
        None => Some(SendError::NoSession),
        Some(s) => if s.in_flight {
            Some(SendError::Busy)
        } else {
            None
        },
    }
}

/// The slot once a Send is admitted: its live Session is in flight.
pub open spec fn admitted(m: SlotModel) -> SlotModel {
    match m.live {
        Some(s) => SlotModel { live: Some(SessionModel { in_flight: true, ..s }), ..m },
        None => m,
    }
}

/// The slot once the Send numbered `seq` lands `h`: appended to the live
/// Session's history while it is that Session, nothing otherwise.
pub open spec fn appended_to(m: SlotModel, seq: u64, h: Seq<MessageModel>) -> SlotModel {
    match m.live {
        Some(s) => if s.seq == seq {
            SlotModel { live: Some(SessionModel { history: s.history + h, ..s }), ..m }
        } else {
            m
        },
        None => m,
    }
}

/// The slot once the Send numbered `seq` ends: the live Session is free
/// again while it is that Session, nothing changes otherwise.
pub open spec fn released(m: SlotModel, seq: u64) -> SlotModel {
    match m.live {
        Some(s) => if s.seq == seq {
            SlotModel { live: Some(SessionModel { in_flight: false, ..s }), ..m }
        } else {
            m
        },
        None => m,
    }
}

impl SessionSlot {
    /// The model of the slot.
    pub closed spec fn model(&self) -> SlotModel {
        SlotModel {
            live: match self.live {
                Some(s) => Some(
                    SessionModel { seq: s.seq, history: history_model(s.messages@), in_flight: s.in_flight },
                ),
                None => None,
            },
            next_seq: self.next_seq,
        }
    }

    /// An empty slot: no live Session, numbering from zero.
    pub fn new() -> (r: Self)
        ensures
            r.model() == (SlotModel { live: None, next_seq: 0 }),
            slot_wf(r.model()),
    {
        SessionSlot { live: None, next_seq: 0 }
    }

    /// Replaces the live Session with a fresh one whose history opens with
    /// the system prompt, numbered by the counter. Returns whether the
    /// replaced Session had a Send in flight, which the caller cancels.
    pub fn create_session(&mut self, system_prompt: String) -> (cancel: bool)
        ensures
            cancel == (old(self).model().live matches Some(s) && s.in_flight),
            final(self).model() == created(old(self).model(), system_prompt@),
            slot_wf(final(self).model()),
    {
        let cancel = match &self.live {
            Some(s) => s.in_flight,
            None => false,
        };
        let seq = self.next_seq;
        self.next_seq = if seq == u64::MAX {
            0
        } else {
            seq + 1
        };
        let mut messages: Vec<Message> = Vec::new();
        messages.push(Message::System { content: system_prompt });
        self.live = Some(LiveSession { seq, messages, in_flight: false });
        proof {
            assert(history_model(self.live->0.messages@) =~= seq![
                MessageModel::System { content: system_prompt@ },
            ]);
        }
        cancel
    }

    /// Ends the live Session and forgets it. Returns whether it had a Send
    /// in flight, which the caller cancels. A no-op without a Session.
    pub fn end_session(&mut self) -> (cancel: bool)
        ensures
            cancel == (old(self).model().live matches Some(s) && s.in_flight),
            final(self).model() == ended(old(self).model()),
    {
        let cancel = match &self.live {
            Some(s) => s.in_flight,
            None => false,
        };
        self.live = None;
        cancel
    }

    /// The number of the live Session; `None` without one.
    pub fn live_seq(&self) -> (r: Option<u64>)
        ensures
            match self.model().live {
                Some(s) => r == Some(s.seq),
                None => r is None,
            },
    {
        match &self.live {
            Some(s) => Some(s.seq),
            None => None,
        }
    }

    /// Whether a Send is in flight against the live Session: what an
    /// Interrupt cancels, `false` when there is none.
    pub fn in_flight(&self) -> (r: bool)
        ensures
            r == (self.model().live matches Some(s) && s.in_flight),
    {
        match &self.live {
            Some(s) => s.in_flight,
            None => false,
        }
    }

    /// The live Session's history, oldest first; `None` without a Session.
    pub fn messages(&self) -> (r: Option<Vec<Message>>)
        ensures
            match self.model().live {
                Some(s) => r matches Some(v) && history_model(v@) == s.history,
                None => r is None,
            },
    {
        match &self.live {
            Some(s) => Some(copy_history(&s.messages)),
            None => None,
        }
    }

    /// Admits a Send: refused without a live Session (`NoSession`) or with a
    /// Send already in flight (`Busy`); otherwise the Session is marked in
    /// flight and its history and number are returned.
    pub fn begin_send(&mut self) -> (r: Result<(Vec<Message>, u64), SendError>)
        ensures
            match refusal(old(self).model()) {
                Some(e) => r == Err::<(Vec<Message>, u64), SendError>(e) && final(self).model() == old(
                    self,
                ).model(),
                None => {
                    &&& r matches Ok((h, n)) && old(self).model().live matches Some(s) && history_model(h@)
                        == s.history && n == s.seq
                    &&& final(self).model() == admitted(old(self).model())
                },
            },
    {
        match &mut self.live {
            None => Err(SendError::NoSession),
            Some(s) => {
                if s.in_flight {
                    Err(SendError::Busy)
                } else {
                    s.in_flight = true;
                    Ok((copy_history(&s.messages), s.seq))
                }
            },
        }
    }

    /// Appends messages to the live Session while it is still the Session
    /// numbered `seq`; a superseded Send appends nothing.
    pub fn append(&mut self, seq: u64, messages: Vec<Message>)
        ensures
            final(self).model() == appended_to(old(self).model(), seq, history_model(messages@)),
    {
        match &mut self.live {
            Some(s) => {
                if s.seq == seq {
                    let ghost before = s.messages@;
                    let mut extra = messages;
                    s.messages.append(&mut extra);
                    proof {
                        assert(history_model(s.messages@) =~= history_model(before) + history_model(messages@));
                    }
                }
            },
            None => {},
        }
    }

    /// Replaces the live Session once the runtime has loaded: a failed
    /// load is returned and leaves the slot as it was, the live Session and
    /// any Send in flight included; a successful one replaces the Session as
    /// `create_session` does and returns whether its Send is to be
    /// cancelled.
    pub fn create_after_load(&mut self, loaded: Result<(), ProviderError>, system_prompt: String) -> (r: Result<
        bool,
        ProviderError,
    >)
        ensures
            match loaded {
                Err(e) => r == Err::<bool, ProviderError>(e) && final(self).model() == old(self).model(),
                Ok(()) => r == Ok::<bool, ProviderError>(old(self).model().live matches Some(s) && s.in_flight)
                    && final(self).model() == created(old(self).model(), system_prompt@),
            },
            slot_wf(old(self).model()) ==> slot_wf(final(self).model()),
    {
        match loaded {
            Err(e) => Err(e),
            Ok(()) => Ok(self.create_session(system_prompt)),
        }
    }

    /// Ends the opening of the Send numbered `seq`: once the provider has
    /// accepted the request, the caller's messages land in that Session;
    /// when it refused, nothing lands, the Session is free again, and the
    /// provider's failure is the Send's.
    pub fn deliver(&mut self, seq: u64, messages: Vec<Message>, accepted: Result<(), ProviderError>) -> (r:
        Result<(), SendError>)
        ensures
            match accepted {
                Ok(()) => r is Ok && final(self).model() == appended_to(
                    old(self).model(),
                    seq,
                    history_model(messages@),
                ),
                Err(e) => r == Err::<(), SendError>(SendError::Provider(e)) && final(self).model() == released(
                    old(self).model(),
                    seq,
                ),
            },
    {
        match accepted {
            Ok(()) => {
                self.append(seq, messages);
                Ok(())
            },
            Err(e) => {
                self.release(seq);
                Err(SendError::Provider(e))
            },
        }
    }

    /// Frees the in-flight slot of the live Session while it is still the
    /// Session numbered `seq`.
    pub fn release(&mut self, seq: u64)
        ensures
            final(self).model() == released(old(self).model(), seq),
    {
        match &mut self.live {
            Some(s) => {
                if s.seq == seq {
                    s.in_flight = false;
                }
            },
            None => {},
        }
    }
}

// ---------------------------------------------------------------------
// A Run

/// What a Run has gathered: the Reply's text and reasoning so far, and
/// whether it already reported the caller's Interrupt.
pub struct RunModel {
    pub content: Seq<char>,
    pub reasoning: Option<Seq<char>>,
    pub reported_cancel: bool,
}

/// The state of one Run: the Reply it gathers from the provider's stream,
/// and whether the caller's Interrupt was reported.
pub struct RunState {
    content: String,
    reasoning: Option<String>,
    reported_cancel: bool,
}

/// A text appended to an optional one, an absent one counting as empty.
pub open spec fn appended(r: Option<Seq<char>>, t: Seq<char>) -> Option<Seq<char>> {
    match r {
        Some(x) => Some(x + t),
        None => Some(t),
    }
}

impl RunState {
    /// The model of the Run.
    pub closed spec fn model(&self) -> RunModel {
        RunModel {
            content: self.content@,
            reasoning: text_model(self.reasoning),
            reported_cancel: self.reported_cancel,
        }
    }

    /// A Run that has gathered nothing.
    pub fn new() -> (r: Self)
        ensures
            r.model() == (RunModel { content: Seq::empty(), reasoning: None, reported_cancel: false }),
    {
        RunState { content: String::new(), reasoning: None, reported_cancel: false }
    }

    /// One step of a Run: given whether the caller cancelled and the
    /// provider's next item (`None` once its stream ended), the event the Run
    /// yields (`None` ends the Run) and the entry that lands in the history.
    /// A cancel is reported once, as `Interrupted`, landing the Interrupt
    /// marker; `Done` lands the gathered Reply; a delta is gathered and passed
    /// on; a provider failure is passed on intact.
    pub fn step(&mut self, cancelled: bool, item: Option<Result<StreamChunk, ProviderError>>) -> (r: (
        Option<Result<RunEvent, RunError>>,
        Option<Message>,
    ))
        ensures
            cancelled && old(self).model().reported_cancel ==> r.0 is None && r.1 is None
                && final(self).model() == old(self).model(),
            cancelled && !old(self).model().reported_cancel ==> {
                &&& r.0 matches Some(Ok(RunEvent::Interrupted))
                &&& r.1 matches Some(m) && message_model(m) == interrupt_marker()
                &&& final(self).model() == (RunModel { reported_cancel: true, ..old(self).model() })
            },
            !cancelled ==> match item {
                None => r.0 is None && r.1 is None && final(self).model() == old(self).model(),
                Some(Ok(StreamChunk::Done)) => {
                    &&& r.0 matches Some(Ok(RunEvent::Done))
                    &&& r.1 matches Some(m) && message_model(m) == reply_model(
                        old(self).model().content,
                        old(self).model().reasoning,
                    )
                    &&& final(self).model() == (RunModel {
                        content: Seq::empty(),
                        reasoning: None,
                        ..old(self).model()
                    })
                },
                Some(Ok(StreamChunk::ReasoningDelta(t))) => {
                    &&& r.0 == Some(Ok::<RunEvent, RunError>(RunEvent::ReasoningDelta(t)))
                    &&& r.1 is None
                    &&& final(self).model() == (RunModel {
                        reasoning: appended(old(self).model().reasoning, t@),
                        ..old(self).model()
                    })
                },
                Some(Ok(StreamChunk::ContentDelta(t))) => {
                    &&& r.0 == Some(Ok::<RunEvent, RunError>(RunEvent::ContentDelta(t)))
                    &&& r.1 is None
                    &&& final(self).model() == (RunModel {
                        content: old(self).model().content + t@,
                        ..old(self).model()
                    })
                },
                Some(Err(e)) => {
                    &&& r.0 == Some(Err::<RunEvent, RunError>(RunError::Provider(e)))
                    &&& r.1 is None
                    &&& final(self).model() == old(self).model()
                },
            },
    {
        if cancelled {
            if self.reported_cancel {
                return (None, None);
            }
            self.reported_cancel = true;
            return (Some(Ok(RunEvent::Interrupted)), Some(Message::new_interrupt_marker()));
        }
        match item {
            None => (None, None),
            Some(Ok(StreamChunk::Done)) => {
                let mut content = String::new();
                std::mem::swap(&mut content, &mut self.content);
                let reasoning = self.reasoning.take();
                let reply = Message::new_assistant_reply(content, reasoning);
                (Some(Ok(RunEvent::Done)), Some(reply))
            },
            Some(Ok(StreamChunk::ReasoningDelta(text))) => {
                match &mut self.reasoning {
                    Some(r) => r.append(text.as_str()),
                    None => {
                        self.reasoning = Some(String::from_str(text.as_str()));
                    },
                }
                (Some(Ok(RunEvent::ReasoningDelta(text))), None)
            },
            Some(Ok(StreamChunk::ContentDelta(text))) => {
                self.content.append(text.as_str());
                (Some(Ok(RunEvent::ContentDelta(text))), None)
            },
            Some(Err(e)) => (Some(Err(RunError::Provider(e))), None),
        }
    }
}

/// The model of a provider message, in the history's terms.
pub open spec fn provider_model(m: ProviderMessage) -> MessageModel {
    match m {
        ProviderMessage::System { content } => MessageModel::System { content: content@ },
        ProviderMessage::User { content } => MessageModel::User {
            content: content@.map_values(|b: ContentBlock| block_model(b)),
        },
        ProviderMessage::Assistant { content, reasoning_content, tool_calls } => MessageModel::Assistant {
            content: content@,
            reasoning_content: text_model(reasoning_content),
            tool_calls: match tool_calls {
                Some(v) => Some(v@.map_values(|c: ToolCall| tool_call_model(c))),
                None => None,
            },
            interrupt: false,
        },
        ProviderMessage::Tool { tool_call_id, content } => MessageModel::Tool {
            tool_call_id: tool_call_id@,
            content: content@,
        },
    }
}

/// Whether a history entry is an Interrupt marker.
pub open spec fn is_interrupt(m: MessageModel) -> bool {
    m matches MessageModel::Assistant { interrupt, .. } && interrupt
}

/// What the provider is shown of a history: every entry but the Interrupt
/// markers, in order.
pub open spec fn shown(s: Seq<MessageModel>) -> Seq<MessageModel>
    decreases s.len(),
{
    if s.len() == 0 {
        Seq::empty()
    } else if is_interrupt(s.last()) {
        shown(s.drop_last())
    } else {
        shown(s.drop_last()).push(s.last())
    }
}

/// The request messages of a Send: the history and the caller's messages,
/// each projected onto the provider's message, the Interrupt markers
/// dropped.
pub fn request_messages(history: Vec<Message>, messages: &Vec<Message>) -> (r: Vec<ProviderMessage>)
    ensures
        r@.map_values(|m: ProviderMessage| provider_model(m)) == shown(
            history_model(history@) + history_model(messages@),
        ),
{
    let mut all = history;
    let ghost joined_model = history_model(history@) + history_model(messages@);
    let mut extra = copy_history(messages);
    let ghost h = all@;
    let ghost e = extra@;
    all.append(&mut extra);
    assert(history_model(all@) =~= joined_model);
    let mut r: Vec<ProviderMessage> = Vec::new();
    let mut i: usize = 0;
    let n = all.len();
    while i < n
        invariant
            n == all@.len(),
            i <= n,
            history_model(all@) == joined_model,
            r@.map_values(|m: ProviderMessage| provider_model(m)) == shown(joined_model.take(i as int)),
        decreases n - i,
    {
        let m = copy_message(&all[i]);
        proof {
            assert(joined_model.take(i + 1).drop_last() =~= joined_model.take(i as int));
            assert(joined_model.take(i + 1).last() == message_model(all@[i as int]));
        }
        let ghost before = r@;
        match to_provider_message(m) {
            Some(pm) => {
                r.push(pm);
                proof {
                    assert(r@.map_values(|m: ProviderMessage| provider_model(m)) =~= before.map_values(
                        |m: ProviderMessage| provider_model(m),
                    ).push(provider_model(pm)));
                }
            },
            None => {},
        }
        i += 1;
    }
    assert(joined_model.take(n as int) =~= joined_model);
    r
}

/// The request a Send makes: the history and the caller's messages as the
/// provider sees them (Interrupt markers dropped), the selected model, a
/// streamed reply, the reasoning depth's fields, and the agent's tools.
pub fn send_request(
    history: Vec<Message>,
    messages: &Vec<Message>,
    model: &str,
    level: ThinkingLevel,
    tools: &Vec<ToolDecl>,
) -> (r: ChatRequest)
    ensures
        r.messages@.map_values(|m: ProviderMessage| provider_model(m)) == shown(
            history_model(history@) + history_model(messages@),
        ),
        r.model@ == model@,
        r.stream,
        (r.reasoning_effort, r.thinking) == thinking_wire(level),
        tools_view(r.tools@) == tools_view(tools@),
{
    let (reasoning_effort, thinking) = thinking_to_wire(level);
    ChatRequest {
        messages: request_messages(history, messages),
        model: String::from_str(model),
        stream: true,
        reasoning_effort,
        thinking,
        tools: copy_tools(tools),
    }
}

// ---------------------------------------------------------------------
// Aggregating a Run, and the tool loop

/// What a Run's event does to an aggregation: go on, end with the Reply, or
/// end without one because the caller interrupted.
#[derive(Debug, Clone, Copy, PartialEq, Eq, Structural)]
pub enum FoldStep {
    Continue,
    Done,
    Interrupted,
}

/// A Reply being aggregated from a Run's events.
pub struct ReplyFold {
    content: String,
    reasoning: Option<String>,
}

impl ReplyFold {
    /// The text and reasoning aggregated so far.
    pub closed spec fn model(&self) -> (Seq<char>, Option<Seq<char>>) {
        (self.content@, text_model(self.reasoning))
    }

    /// An aggregation that has seen nothing.
    pub fn new() -> (r: Self)
        ensures
            r.model() == (Seq::<char>::empty(), None::<Seq<char>>),
    {
        ReplyFold { content: String::new(), reasoning: None }
    }

    /// Takes one event: a delta is gathered and the aggregation goes on;
    /// `Done` ends it with the Reply; `Interrupted` ends it without one.
    pub fn on_event(&mut self, event: RunEvent) -> (r: FoldStep)
        ensures
            match event {
                RunEvent::ReasoningDelta(t) => r == FoldStep::Continue && final(self).model() == (
                    old(self).model().0,
                    appended(old(self).model().1, t@),
                ),
                RunEvent::ContentDelta(t) => r == FoldStep::Continue && final(self).model() == (
                    old(self).model().0 + t@,
                    old(self).model().1,
                ),
                RunEvent::Done => r == FoldStep::Done && final(self).model() == old(self).model(),
                RunEvent::Interrupted => r == FoldStep::Interrupted && final(self).model() == old(
                    self,
                ).model(),
            },
    {
        match event {
            RunEvent::ReasoningDelta(text) => {
                match &mut self.reasoning {
                    Some(r) => r.append(text.as_str()),
                    None => {
                        self.reasoning = Some(text);
                    },
                }
                FoldStep::Continue
            },
            RunEvent::ContentDelta(text) => {
                self.content.append(text.as_str());
                FoldStep::Continue
            },
            RunEvent::Done => FoldStep::Done,
            RunEvent::Interrupted => FoldStep::Interrupted,
        }
    }

    /// The aggregated Reply.
    pub fn into_reply(self) -> (m: Message)
        ensures
            message_model(m) == reply_model(self.model().0, self.model().1),
    {
        Message::new_assistant_reply(self.content, self.reasoning)
    }
}

/// The tool calls a Reply requests, when it requests any.
pub fn requested_tool_calls(reply: &Message) -> (r: Option<Vec<ToolCall>>)
    ensures
        match message_model(*reply) {
            MessageModel::Assistant { tool_calls: Some(c), .. } => if c.len() > 0 {
                r matches Some(v) && v@.map_values(|x: ToolCall| tool_call_model(x)) == c
            } else {
                r is None
            },
            _ => r is None,
        },
{
    match reply {
        Message::Assistant { tool_calls: Some(calls), .. } => {
            if calls.len() > 0 {
                Some(copy_tool_calls(calls))
            } else {
                None
            }
        },
        _ => None,
    }
}

/// The history entry that feeds a tool's result back to the model.
pub fn tool_message(call: &ToolCall, content: String) -> (m: Message)
    ensures
        message_model(m) == (MessageModel::Tool { tool_call_id: call.id@, content: content@ }),
{
    Message::Tool { tool_call_id: call.id.clone(), content }
}

/// The reason a call to an unknown tool fails.
pub fn unknown_tool_message(name: &str) -> (r: String)
    ensures
        r@ == "unknown tool '"@ + name@ + "'"@,
{
    let mut s = String::from_str("unknown tool '");
    s.append(name);
    s.append("'");
    s
}

/// The Interrupt marker never reaches the provider: a history that ends in
/// one is shown exactly as the history before it.
pub proof fn law_interrupt_marker_is_not_shown(h: Seq<MessageModel>)
    ensures
        shown(h.push(interrupt_marker())) == shown(h),
{
    assert(h.push(interrupt_marker()).drop_last() =~= h);
}

/// A Reply that lands in the history is shown to the provider on the next
/// Send, after everything shown before it.
pub proof fn law_reply_is_shown(h: Seq<MessageModel>, content: Seq<char>, reasoning: Option<Seq<char>>)
    ensures
        shown(h.push(reply_model(content, reasoning))) == shown(h).push(reply_model(content, reasoning)),
{
    assert(h.push(reply_model(content, reasoning)).drop_last() =~= h);
}

/// A Send outlived by its Session touches nothing: once the live Session
/// is replaced, what the old Send lands and its release leave the new
/// Session exactly as it was created.
pub proof fn law_superseded_send_touches_nothing(
    m: SlotModel,
    system_prompt: Seq<char>,
    seq: u64,
    h: Seq<MessageModel>,
)
    requires
        slot_wf(m),
        m.live matches Some(s) && s.seq == seq,
    ensures
        appended_to(created(m, system_prompt), seq, h) == created(m, system_prompt),
        released(created(m, system_prompt), seq) == created(m, system_prompt),
{
}

/// One Send at a time: while an admitted Send is in flight the next one is
/// refused as `Busy`; once it is released the Session admits again.
pub proof fn law_one_send_at_a_time(m: SlotModel)
    requires
        refusal(m) is None,
    ensures
        refusal(admitted(m)) == Some(SendError::Busy),
        refusal(released(admitted(m), m.live->0.seq)) is None,
{
}

/// A Send's messages land in the Session it was admitted against, after
/// its history, while that Session stays live.
pub proof fn law_admitted_send_lands_its_messages(m: SlotModel, h: Seq<MessageModel>)
    requires
        refusal(m) is None,
    ensures
        appended_to(admitted(m), m.live->0.seq, h).live->0.history == m.live->0.history + h,
{
}

/// A fresh Session admits a Send; an ended one refuses every Send as
/// `NoSession`.
pub proof fn law_session_lifecycle(m: SlotModel, system_prompt: Seq<char>)
    ensures
        refusal(created(m, system_prompt)) is None,
        refusal(ended(m)) == Some(SendError::NoSession),
        slot_wf(created(m, system_prompt)),
{
}

/// A Send the provider refused leaves no trace: the caller's messages do
/// not land, and the Session admits the next Send.
pub proof fn law_refused_send_leaves_no_trace(m: SlotModel)
    requires
        refusal(m) is None,
    ensures
        released(admitted(m), m.live->0.seq) == m,
{
}

} // verus!
