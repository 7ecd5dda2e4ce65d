//! The board analysis session: the model may call the `read_board` tool,
//! each result is fed back, and the loop goes on until the model stops
//! calling tools or a turn cap is hit. `AnalysisRun` holds the decisions of
//! that loop; the chat round trips are the caller's.

use vstd::prelude::*;

use crate::protocol::{ThinkingMode, ToolDecl};
use crate::text::str_equals;

verus! {

/// The system prompt of an analysis session.
pub const SYSTEM_PROMPT: &'static str = "You are an AI analyzing a Minesweeper board. You have a `read_board` tool that returns the current board as text. Call `read_board` to inspect the board, then analyze the position. Respond in Chinese.";

/// The opening user message of an analysis session.
pub const INITIAL_USER: &'static str = "请查看当前扫雷棋盘并进行分析。";

/// The default turn cap of a session.
pub const DEFAULT_MAX_TURNS: usize = 5;

/// The model an analysis asks for when none is configured.
pub const DEFAULT_ANALYSIS_MODEL: &'static str = "deepseek-v4-flash";

/// The configuration of the analysis: the API key and the model.
#[derive(Debug, Clone)]
pub struct AiConfig {
    pub api_key: String,
    pub model: String,
}

impl AiConfig {
    /// The configuration of a key and an optional model: `None` without a
    /// key, which disables the analysis; the model defaults to
    /// `deepseek-v4-flash`.
    pub fn from_values(api_key: Option<String>, model: Option<String>) -> (r: Option<Self>)
        ensures
            match api_key {
                None => r is None,
                Some(k) => r matches Some(c) && c.api_key == k && c.model@ == match model {
                    Some(m) => m@,
                    None => DEFAULT_ANALYSIS_MODEL@,
                },
            },
    {
        match api_key {
            None => None,
            Some(api_key) => {
                let model = match model {
                    Some(m) => m,
                    None => String::from_str(DEFAULT_ANALYSIS_MODEL),
                };
                Some(AiConfig { api_key, model })
            },
        }
    }
}

/// The function a tool call names, with its arguments as JSON text.
#[derive(Debug, Clone, PartialEq)]
pub struct ToolFunction {
    pub name: String,
    pub arguments: String,
}

/// A tool call of the chat wire.
#[derive(Debug, Clone, PartialEq)]
pub struct ToolCall {
    pub id: String,
    /// The call's type on the wire (`function`).
    pub kind: String,
    pub function: ToolFunction,
}

/// A message of the chat wire.
#[derive(Debug, Clone, PartialEq, Default)]
pub struct ChatMessage {
    pub role: String,
    pub content: Option<String>,
    pub reasoning_content: Option<String>,
    pub tool_calls: Option<Vec<ToolCall>>,
    pub tool_call_id: Option<String>,
}

/// A tool call as shown in the transcript.
#[derive(Debug, Clone, PartialEq)]
pub struct ToolCallView {
    pub name: String,
    pub arguments: String,
}

/// One model turn: its reasoning, its answer and the tool calls it made.
#[derive(Debug, Clone, PartialEq)]
pub struct Turn {
    pub reasoning_content: Option<String>,
    pub content: Option<String>,
    pub tool_calls: Vec<ToolCallView>,
}

/// The transcript of a session.
#[derive(Debug, Clone, PartialEq)]
pub struct SessionResult {
    pub steps: Vec<Turn>,
}

/// What a tool call holds.
pub struct CallModel {
    pub id: Seq<char>,
    pub kind: Seq<char>,
    pub name: Seq<char>,
    pub arguments: Seq<char>,
}

/// What a chat message holds.
pub struct ChatModel {
    pub role: Seq<char>,
    pub content: Option<Seq<char>>,
    pub reasoning_content: Option<Seq<char>>,
    pub tool_calls: Option<Seq<CallModel>>,
    pub tool_call_id: Option<Seq<char>>,
}

/// What a turn of the transcript holds.
pub struct TurnModel {
    pub reasoning_content: Option<Seq<char>>,
    pub content: Option<Seq<char>>,
    /// The name and arguments of each call.
    pub tool_calls: Seq<(Seq<char>, Seq<char>)>,
}

/// The model of an optional text.
pub open spec fn opt_model(t: Option<String>) -> Option<Seq<char>> {
    match t {
        Some(s) => Some(s@),
        None => None,
    }
}

/// The model of a tool call.
pub open spec fn call_model(c: ToolCall) -> CallModel {
    CallModel { id: c.id@, kind: c.kind@, name: c.function.name@, arguments: c.function.arguments@ }
}

/// The model of a list of tool calls.
pub open spec fn calls_model(v: Seq<ToolCall>) -> Seq<CallModel> {
    v.map_values(|c: ToolCall| call_model(c))
}

/// The model of a chat message.
pub open spec fn chat_model(m: ChatMessage) -> ChatModel {
    ChatModel {
        role: m.role@,
        content: opt_model(m.content),
        reasoning_content: opt_model(m.reasoning_content),
        tool_calls: match m.tool_calls {
            Some(v) => Some(calls_model(v@)),
            None => None,
        },
        tool_call_id: opt_model(m.tool_call_id),
    }
}

/// The model of a list of chat messages.
pub open spec fn chats_model(v: Seq<ChatMessage>) -> Seq<ChatModel> {
    v.map_values(|m: ChatMessage| chat_model(m))
}

/// The model of a turn.
pub open spec fn turn_model(t: Turn) -> TurnModel {
    TurnModel {
        reasoning_content: opt_model(t.reasoning_content),
        content: opt_model(t.content),
        tool_calls: t.tool_calls@.map_values(|c: ToolCallView| (c.name@, c.arguments@)),
    }
}

/// The transcript turn of a reply: its reasoning, its answer, and the name
/// and arguments of each call it made (none when it made none).
pub open spec fn turn_of(reply: ChatModel) -> TurnModel {
    TurnModel {
        reasoning_content: reply.reasoning_content,
        content: reply.content,
        tool_calls: match reply.tool_calls {
            Some(c) => c.map_values(|x: CallModel| (x.name, x.arguments)),
            None => Seq::empty(),
        },
    }
}

/// A message with a role and a content, nothing else.
pub open spec fn plain_message(role: Seq<char>, content: Seq<char>) -> ChatModel {
    ChatModel { role, content: Some(content), reasoning_content: None, tool_calls: None, tool_call_id: None }
}

/// The tool calls a reply makes, when it makes any.
pub open spec fn calls_of(reply: ChatModel) -> Seq<CallModel> {
    match reply.tool_calls {
        Some(c) => c,
        None => Seq::empty(),
    }
}

/// The result the model is fed for a tool call: the board text for
/// `read_board`, a refusal naming any other tool.
pub open spec fn tool_result(name: Seq<char>, board: Seq<char>) -> Seq<char> {
    if name == "read_board"@ {
        board
    } else {
        "unknown tool: "@ + name
    }
}

/// The number of `read_board` calls among `calls`.
pub open spec fn read_count(calls: Seq<CallModel>) -> nat
    decreases calls.len(),
{
    if calls.len() == 0 {
        0
    } else {
        read_count(calls.drop_last()) + if calls.last().name == "read_board"@ {
            1nat
        } else {
            0nat
        }
    }
}

/// The result fed back for the `j`-th call: for a `read_board` call, the
/// board text read for it (the board is read once per such call, in call
/// order); for any other tool, a refusal naming it.
pub open spec fn call_result(calls: Seq<CallModel>, j: int, boards: Seq<Seq<char>>) -> Seq<char> {
    if calls[j].name == "read_board"@ {
        boards[read_count(calls.take(j)) as int]
    } else {
        "unknown tool: "@ + calls[j].name
    }
}

/// The tool message answering the `j`-th call.
pub open spec fn tool_answer(calls: Seq<CallModel>, j: int, boards: Seq<Seq<char>>) -> ChatModel {
    ChatModel {
        role: "tool"@,
        content: Some(call_result(calls, j, boards)),
        reasoning_content: None,
        tool_calls: None,
        tool_call_id: Some(calls[j].id),
    }
}

/// The messages that follow a reply calling tools: the reply re-sent with
/// its content and calls but without its reasoning, then one tool message
/// per call, answering it with the boards read for its `read_board` calls.
pub open spec fn follow_up(reply: ChatModel, boards: Seq<Seq<char>>) -> Seq<ChatModel> {
    seq![
        ChatModel {
            role: "assistant"@,
            content: reply.content,
            reasoning_content: None,
            tool_calls: reply.tool_calls,
            tool_call_id: None,
        },
    ] + Seq::new(calls_of(reply).len(), |j: int| tool_answer(calls_of(reply), j, boards))
}

/// The `read_board` calls of a prefix never outnumber those of the whole.
proof fn lemma_read_count_take(calls: Seq<CallModel>, i: int)
    requires
        0 <= i <= calls.len(),
    ensures
        read_count(calls.take(i)) <= read_count(calls),
    decreases calls.len() - i,
{
    if i < calls.len() {
        assert(calls.take(i + 1).drop_last() =~= calls.take(i));
        lemma_read_count_take(calls, i + 1);
    } else {
        assert(calls.take(i) =~= calls);
    }
}

/// What an analysis session is at: the messages of the next request, the
/// transcript so far, the turns taken, the cap, and whether the model
/// stopped calling tools.
pub struct AnalysisModel {
    pub messages: Seq<ChatModel>,
    pub steps: Seq<TurnModel>,
    pub turns: nat,
    pub max_turns: nat,
    pub finished: bool,
}

impl AnalysisModel {
    /// A session takes one step per reply and never more than its cap.
    pub open spec fn wf(self) -> bool {
        self.steps.len() == self.turns && self.turns <= self.max_turns
    }
}

/// The decisions of an analysis session between chat round trips.
pub struct AnalysisRun {
    messages: Vec<ChatMessage>,
    steps: Vec<Turn>,
    turns: usize,
    max_turns: usize,
    finished: bool,
}

fn copy_text(t: &Option<String>) -> (r: Option<String>)
    ensures
        opt_model(r) == opt_model(*t),
{
    match t {
        Some(s) => Some(s.clone()),
        None => None,
    }
}

fn copy_call(c: &ToolCall) -> (r: ToolCall)
    ensures
        call_model(r) == call_model(*c),
{
    ToolCall {
        id: c.id.clone(),
        kind: c.kind.clone(),
        function: ToolFunction { name: c.function.name.clone(), arguments: c.function.arguments.clone() },
    }
}

fn copy_calls(v: &Vec<ToolCall>) -> (r: Vec<ToolCall>)
    ensures
        calls_model(r@) == calls_model(v@),
{
    let mut r: Vec<ToolCall> = Vec::new();
    let mut i: usize = 0;
    while i < v.len()
        invariant
            i <= v@.len(),
            r@.len() == i,
            forall|j: int| 0 <= j < i ==> call_model(#[trigger] r@[j]) == call_model(v@[j]),
        decreases v.len() - i,
    {
        r.push(copy_call(&v[i]));
        i += 1;
    }
    assert(calls_model(r@) =~= calls_model(v@));
    r
}

/// The transcript turn of a reply.
fn turn_for(reply: &ChatMessage) -> (t: Turn)
    ensures
        turn_model(t) == turn_of(chat_model(*reply)),
{
    let mut calls: Vec<ToolCallView> = Vec::new();
    match &reply.tool_calls {
        Some(v) => {
            let mut i: usize = 0;
            while i < v.len()
                invariant
                    i <= v@.len(),
                    calls@.len() == i,
                    forall|j: int|
                        0 <= j < i ==> (#[trigger] calls@[j]).name@ == v@[j].function.name@ && calls@[j].arguments@
                            == v@[j].function.arguments@,
                decreases v.len() - i,
            {
                calls.push(
                    ToolCallView {
                        name: v[i].function.name.clone(),
                        arguments: v[i].function.arguments.clone(),
                    },
                );
                i += 1;
            }
            assert(calls@.map_values(|c: ToolCallView| (c.name@, c.arguments@)) =~= calls_model(v@).map_values(
                |x: CallModel| (x.name, x.arguments),
            ));
        },
        None => {
            assert(calls@.map_values(|c: ToolCallView| (c.name@, c.arguments@)) =~= Seq::<(Seq<char>, Seq<char>)>::empty());
        },
    }
    Turn {
        reasoning_content: copy_text(&reply.reasoning_content),
        content: copy_text(&reply.content),
        tool_calls: calls,
    }
}

/// The message a role and a content make.
fn message(role: &str, content: &str) -> (m: ChatMessage)
    ensures
        chat_model(m) == plain_message(role@, content@),
{
    ChatMessage {
        role: String::from_str(role),
        content: Some(String::from_str(content)),
        reasoning_content: None,
        tool_calls: None,
        tool_call_id: None,
    }
}

/// The result fed back for a tool call.
pub fn tool_result_text(name: &str, board: &str) -> (r: String)
    ensures
        r@ == tool_result(name@, board@),
{
    if crate::text::str_equals(name, "read_board") {
        String::from_str(board)
    } else {
        let mut s = String::from_str("unknown tool: ");
        s.append(name);
        s
    }
}

/// What the `read_board` tool tells the model of itself.
pub const READ_BOARD_DESCRIPTION: &'static str = "Reads the current Minesweeper board as compact text. Rows and columns are 0-indexed. Glyphs: `.` hidden, a digit is the revealed neighbor count (0 means empty and revealed), `F` flagged, `*` a revealed mine.";

/// The `read_board` tool: no arguments, returns the board text.
pub fn read_board_tool() -> (r: ToolDecl)
    ensures
        r.name@ == "read_board"@,
        r.description@ == READ_BOARD_DESCRIPTION@,
{
    ToolDecl { name: String::from_str("read_board"), description: String::from_str(READ_BOARD_DESCRIPTION) }
}

/// The request of one turn: the model, the messages so far, the tools
/// offered, thinking, the reasoning effort, and whether the reply streams.
#[derive(Debug)]
pub struct TurnRequest {
    pub model: String,
    pub messages: Vec<ChatMessage>,
    pub tools: Vec<ToolDecl>,
    pub thinking: ThinkingMode,
    pub reasoning_effort: String,
    pub stream: bool,
}

/// How many boards a reply needs: one per `read_board` call it makes.
pub fn board_reads(reply: &ChatMessage) -> (r: usize)
    ensures
        r == read_count(calls_of(chat_model(*reply))),
{
    proof {
        reveal_strlit("read_board");
    }
    match &reply.tool_calls {
        None => 0,
        Some(calls) => {
            let ghost cm = calls_model(calls@);
            let mut k: usize = 0;
            let mut i: usize = 0;
            while i < calls.len()
                invariant
                    i <= calls@.len(),
                    cm == calls_model(calls@),
                    k == read_count(cm.take(i as int)),
                    k <= i,
                decreases calls.len() - i,
            {
                proof {
                    assert(cm.take(i + 1).drop_last() =~= cm.take(i as int));
                    assert(cm.take(i + 1).last() == cm[i as int]);
                }
                if str_equals(calls[i].function.name.as_str(), "read_board") {
                    k = k + 1;
                }
                i += 1;
            }
            proof {
                assert(cm.take(calls@.len() as int) =~= cm);
            }
            k
        },
    }
}

fn copy_chat(m: &ChatMessage) -> (r: ChatMessage)
    ensures
        chat_model(r) == chat_model(*m),
{
    ChatMessage {
        role: m.role.clone(),
        content: copy_text(&m.content),
        reasoning_content: copy_text(&m.reasoning_content),
        tool_calls: match &m.tool_calls {
            Some(v) => Some(copy_calls(v)),
            None => None,
        },
        tool_call_id: copy_text(&m.tool_call_id),
    }
}

impl AnalysisRun {
    /// The model of the session.
    pub closed spec fn model(&self) -> AnalysisModel {
        AnalysisModel {
            messages: chats_model(self.messages@),
            steps: self.steps@.map_values(|t: Turn| turn_model(t)),
            turns: self.turns as nat,
            max_turns: self.max_turns as nat,
            finished: self.finished,
        }
    }

    /// Whether the session wants another reply: the model has not stopped
    /// calling tools and the cap is not reached.
    pub open spec fn wants_reply(&self) -> bool {
        !self.model().finished && self.model().turns < self.model().max_turns
    }

    /// A session opened by the system prompt and the opening user message,
    /// capped at `max_turns` replies.
    pub fn start(max_turns: usize) -> (r: Self)
        ensures
            r.model() == (AnalysisModel {
                messages: seq![plain_message("system"@, SYSTEM_PROMPT@), plain_message("user"@, INITIAL_USER@)],
                steps: Seq::empty(),
                turns: 0,
                max_turns: max_turns as nat,
                finished: false,
            }),
            r.model().wf(),
    {
        let mut messages: Vec<ChatMessage> = Vec::new();
        messages.push(message("system", SYSTEM_PROMPT));
        messages.push(message("user", INITIAL_USER));
        let r = AnalysisRun { messages, steps: Vec::new(), turns: 0, max_turns, finished: false };
        assert(r.model().messages =~= seq![plain_message("system"@, SYSTEM_PROMPT@), plain_message("user"@, INITIAL_USER@)]);
        assert(r.model().steps =~= Seq::<TurnModel>::empty());
        r
    }

    /// Whether the session wants another reply.
    pub fn wants_another(&self) -> (r: bool)
        ensures
            r == self.wants_reply(),
    {
        !self.finished && self.turns < self.max_turns
    }

    /// The messages the next request carries.
    pub fn messages(&self) -> (r: &Vec<ChatMessage>)
        ensures
            chats_model(r@) == self.model().messages,
    {
        &self.messages
    }

    /// The request of the next turn: the model, every message so far, the
    /// `read_board` tool alone, thinking enabled, the reasoning effort, and
    /// no streaming.
    pub fn turn_request(&self, model: &str, reasoning_effort: &str) -> (r: TurnRequest)
        ensures
            r.model@ == model@,
            chats_model(r.messages@) == self.model().messages,
            r.tools@.len() == 1,
            r.tools@[0].name@ == "read_board"@,
            r.tools@[0].description@ == READ_BOARD_DESCRIPTION@,
            r.thinking == ThinkingMode::Enabled,
            r.reasoning_effort@ == reasoning_effort@,
            !r.stream,
    {
        let mut messages: Vec<ChatMessage> = Vec::new();
        let mut i: usize = 0;
        while i < self.messages.len()
            invariant
                i <= self.messages@.len(),
                chats_model(messages@) == chats_model(self.messages@.take(i as int)),
            decreases self.messages.len() - i,
        {
            let ghost before = messages@;
            messages.push(copy_chat(&self.messages[i]));
            proof {
                assert(chats_model(messages@) =~= chats_model(before).push(chat_model(self.messages@[i as int])));
                assert(self.messages@.take(i + 1) =~= self.messages@.take(i as int).push(self.messages@[i as int]));
                assert(chats_model(self.messages@.take(i + 1)) =~= chats_model(self.messages@.take(i as int)).push(
                    chat_model(self.messages@[i as int]),
                ));
            }
            i += 1;
        }
        proof {
            assert(self.messages@.take(self.messages@.len() as int) =~= self.messages@);
        }
        let mut tools: Vec<ToolDecl> = Vec::new();
        tools.push(read_board_tool());
        TurnRequest {
            model: String::from_str(model),
            messages,
            tools,
            thinking: ThinkingMode::Enabled,
            reasoning_effort: String::from_str(reasoning_effort),
            stream: false,
        }
    }

    /// Takes a reply and the boards read for it, one per `read_board` call
    /// it makes (`board_reads`): its turn joins the transcript; if it calls
    /// tools, the reply (without its reasoning) and one result per call join
    /// the next request — for the `k`-th `read_board` call, the `k`-th
    /// board — and the session goes on; otherwise it is finished.
    pub fn on_reply(&mut self, reply: ChatMessage, boards: Vec<String>)
        requires
            old(self).model().wf(),
            old(self).wants_reply(),
            boards@.len() == read_count(calls_of(chat_model(reply))),
        ensures
            final(self).model().wf(),
            final(self).model().turns == old(self).model().turns + 1,
            final(self).model().max_turns == old(self).model().max_turns,
            final(self).model().steps == old(self).model().steps.push(turn_of(chat_model(reply))),
            calls_of(chat_model(reply)).len() > 0 ==> {
                &&& !final(self).model().finished
                &&& final(self).model().messages == old(self).model().messages + follow_up(
                    chat_model(reply),
                    boards@.map_values(|b: String| b@),
                )
            },
            calls_of(chat_model(reply)).len() == 0 ==> final(self).model().finished
                && final(self).model().messages == old(self).model().messages,
    {
        let ghost old_steps = self.model().steps;
        let ghost old_messages = self.model().messages;
        let ghost bv = boards@.map_values(|b: String| b@);
        let turn = turn_for(&reply);
        self.steps.push(turn);
        proof {
            assert(self.model().steps =~= old_steps.push(turn_of(chat_model(reply))));
        }
        self.turns = self.turns + 1;
        let has_calls = match &reply.tool_calls {
            Some(calls) => calls.len() > 0,
            None => false,
        };
        if !has_calls {
            self.finished = true;
            return;
        }
        let calls = match &reply.tool_calls {
            Some(calls) => copy_calls(calls),
            None => Vec::new(),
        };
        let assistant = ChatMessage {
            role: String::from_str("assistant"),
            content: copy_text(&reply.content),
            reasoning_content: None,
            tool_calls: Some(copy_calls(&calls)),
            tool_call_id: None,
        };
        self.messages.push(assistant);
        let ghost base = self.model().messages;
        let ghost cm = calls_model(calls@);
        proof {
            reveal_strlit("read_board");
        }
        let nb = boards.len();
        let mut i: usize = 0;
        let mut k: usize = 0;
        while i < calls.len()
            invariant
                nb == boards@.len(),
                i <= calls@.len(),
                cm == calls_model(calls@),
                cm == calls_of(chat_model(reply)),
                bv == boards@.map_values(|b: String| b@),
                boards@.len() == read_count(cm),
                k == read_count(cm.take(i as int)),
                chats_model(self.messages@) == base + Seq::new(i as nat, |j: int| tool_answer(cm, j, bv)),
                self.steps@ == old(self).steps@.push(turn),
                self.turns == old(self).turns + 1,
                self.max_turns == old(self).max_turns,
                !self.finished,
            decreases calls.len() - i,
        {
            proof {
                assert(cm.take(i + 1).drop_last() =~= cm.take(i as int));
                assert(cm.take(i + 1).last() == cm[i as int]);
                lemma_read_count_take(cm, i + 1);
            }
            let name = calls[i].function.name.as_str();
            let result = if str_equals(name, "read_board") {
                assert(k < nb);
                let b = boards[k].clone();
                k = k + 1;
                b
            } else {
                let mut t = String::from_str("unknown tool: ");
                t.append(name);
                t
            };
            let msg = ChatMessage {
                role: String::from_str("tool"),
                content: Some(result),
                reasoning_content: None,
                tool_calls: None,
                tool_call_id: Some(calls[i].id.clone()),
            };
            proof {
                assert(chat_model(msg) == tool_answer(cm, i as int, bv));
            }
            let ghost before = self.messages@;
            self.messages.push(msg);
            proof {
                assert(chats_model(self.messages@) =~= chats_model(before).push(chat_model(msg)));
                assert(Seq::new((i + 1) as nat, |j: int| tool_answer(cm, j, bv)) =~= Seq::new(
                    i as nat,
                    |j: int| tool_answer(cm, j, bv),
                ).push(tool_answer(cm, i as int, bv)));
            }
            i += 1;
        }
        proof {
            assert(self.model().messages =~= old_messages + follow_up(chat_model(reply), bv));
        }
    }

    /// The transcript of the session.
    pub fn into_result(self) -> (r: SessionResult)
        ensures
            r.steps@.map_values(|t: Turn| turn_model(t)) == self.model().steps,
    {
        SessionResult { steps: self.steps }
    }
}

} // verus!
