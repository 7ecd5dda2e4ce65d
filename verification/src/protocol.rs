//! The value types exchanged with a chat provider: the messages of a
//! request, their content blocks, the stream cells of a reply, and the
//! provider's failure. They know nothing of a vendor's wire or of
//! Minesweeper; the JSON encoding is the server's.

use vstd::prelude::*;

verus! {

/// A block of a user message's content.
#[derive(Debug, Clone, PartialEq)]
pub enum ContentBlock {
    /// Plain text.
    Text(String),
    /// An image, as a data URL.
    ImageUrl(String),
}

/// A tool call the model requested: its id, the tool's name, and the
/// arguments as the raw JSON text the model sent.
#[derive(Debug, Clone, PartialEq)]
pub struct ToolCall {
    pub id: String,
    pub name: String,
    pub arguments: String,
}

/// A message of a chat request, by role.
#[derive(Debug, Clone, PartialEq)]
pub enum Message {
    System { content: String },
    User { content: Vec<ContentBlock> },
    Assistant {
        content: String,
        reasoning_content: Option<String>,
        tool_calls: Option<Vec<ToolCall>>,
    },
    Tool { tool_call_id: String, content: String },
}

/// One cell of a streaming chat response; `Done` marks its normal end.
#[derive(Debug, Clone, PartialEq)]
pub enum StreamChunk {
    ReasoningDelta(String),
    ContentDelta(String),
    Done,
}

/// The class of a provider failure.
#[derive(Debug, Clone, Copy, PartialEq, Eq, Structural)]
pub enum ProviderErrorKind {
    /// Misconfiguration: bad auth, unknown model, malformed request.
    Config,
    /// An upstream or transient failure: network, rate limit, server error.
    Upstream,
}

/// A provider failure: its class, the upstream HTTP status when one was
/// seen (`None` for a transport failure), and a message.
#[derive(Debug, Clone, PartialEq)]
pub struct ProviderError {
    pub kind: ProviderErrorKind,
    pub code: Option<u16>,
    pub message: String,
}

/// The reasoning effort a request asks for.
#[derive(Debug, Clone, Copy, PartialEq, Eq, Structural)]
pub enum ReasoningEffort {
    Low,
    High,
    Max,
}

/// Whether a request runs the model in thinking mode.
#[derive(Debug, Clone, Copy, PartialEq, Eq, Structural)]
pub enum ThinkingMode {
    Enabled,
    Disabled,
}

/// The thinking switch of a request.
#[derive(Debug, Clone, Copy, PartialEq, Eq, Structural)]
pub struct ThinkingToggle {
    pub kind: ThinkingMode,
}

/// A tool the model may call: its name and what it does. The tools offered
/// here take no arguments.
#[derive(Debug, Clone, PartialEq)]
pub struct ToolDecl {
    pub name: String,
    pub description: String,
}

/// The name and description of each tool.
pub open spec fn tools_view(tools: Seq<ToolDecl>) -> Seq<(Seq<char>, Seq<char>)> {
    tools.map_values(|t: ToolDecl| (t.name@, t.description@))
}

/// A copy of a list of tools.
pub fn copy_tools(tools: &Vec<ToolDecl>) -> (r: Vec<ToolDecl>)
    ensures
        tools_view(r@) == tools_view(tools@),
{
    let mut r: Vec<ToolDecl> = Vec::new();
    let mut i: usize = 0;
    while i < tools.len()
        invariant
            i <= tools@.len(),
            tools_view(r@) == tools_view(tools@.take(i as int)),
        decreases tools.len() - i,
    {
        let t = ToolDecl { name: tools[i].name.clone(), description: tools[i].description.clone() };
        proof {
            assert(tools_view(r@.push(t)) =~= tools_view(r@).push((t.name@, t.description@)));
            assert(tools@.take(i + 1) =~= tools@.take(i as int).push(tools@[i as int]));
            assert(tools_view(tools@.take(i + 1)) =~= tools_view(tools@.take(i as int)).push(
                (tools@[i as int].name@, tools@[i as int].description@),
            ));
        }
        r.push(t);
        i += 1;
    }
    proof {
        assert(tools@.take(tools@.len() as int) =~= tools@);
    }
    r
}

/// A chat request to a provider: the messages, the model, whether the reply
/// streams, the reasoning depth, and the tools offered.
#[derive(Debug)]
pub struct ChatRequest {
    pub messages: Vec<Message>,
    pub model: String,
    pub stream: bool,
    pub reasoning_effort: Option<ReasoningEffort>,
    pub thinking: Option<ThinkingToggle>,
    pub tools: Vec<ToolDecl>,
}

/// The class of a failed HTTP status: `400`, `401`, `402` and `422` are
/// misconfiguration, every other status an upstream failure.
pub open spec fn http_error_kind(code: u16) -> ProviderErrorKind {
    if code == 400 || code == 401 || code == 402 || code == 422 {
        ProviderErrorKind::Config
    } else {
        ProviderErrorKind::Upstream
    }
}

/// The provider failure of a non-2xx HTTP response: classed by its status,
/// which is kept as the code, with the response's message.
pub fn parse_http_error(code: u16, message: String) -> (r: ProviderError)
    ensures
        r.kind == http_error_kind(code),
        r.code == Some(code),
        r.message == message,
{
    let kind = if code == 400 || code == 401 || code == 402 || code == 422 {
        ProviderErrorKind::Config
    } else {
        ProviderErrorKind::Upstream
    };
    ProviderError { kind, code: Some(code), message }
}

/// A transport failure (no HTTP response): an upstream failure without a
/// code, carrying the transport's message.
pub fn transport_error(message: String) -> (r: ProviderError)
    ensures
        r.kind == ProviderErrorKind::Upstream,
        r.code is None,
        r.message == message,
{
    ProviderError { kind: ProviderErrorKind::Upstream, code: None, message }
}

} // verus!
