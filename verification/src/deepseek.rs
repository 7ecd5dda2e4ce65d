//! The DeepSeek provider's own logic: framing the server-sent event stream
//! of a chat reply into its `data:` payloads and its `[DONE]` terminator,
//! turning a decoded delta into a stream cell, checking a model against the
//! provider's list, and the endpoint URLs. The HTTP exchange and the JSON
//! decoding of each payload are the server's.

use vstd::prelude::*;

use crate::protocol::{ProviderError, ProviderErrorKind, StreamChunk};
use crate::text::str_equals;

verus! {

/// The connection config of the DeepSeek provider: the API key and the
/// OpenAI-compatible root URL.
#[derive(Debug, Clone)]
pub struct DeepSeekConfig {
    pub api_key: String,
    pub base_url: String,
}

/// The root URL of the DeepSeek API.
pub const DEEPSEEK_BASE_URL: &'static str = "https://api.deepseek.com";

impl DeepSeekConfig {
    /// The config of an API key at DeepSeek's root URL; `None` without a
    /// key, which disables the AI.
    pub fn from_key(api_key: Option<String>) -> (r: Option<Self>)
        ensures
            match api_key {
                None => r is None,
                Some(k) => r matches Some(c) && c.api_key == k && c.base_url@ == DEEPSEEK_BASE_URL@,
            },
    {
        match api_key {
            None => None,
            Some(api_key) => Some(DeepSeekConfig { api_key, base_url: String::from_str(DEEPSEEK_BASE_URL) }),
        }
    }
}

/// Whether a character is white space (the Unicode `White_Space` property).
pub open spec fn is_white_space(c: char) -> bool {
    ('\u{9}' <= c && c <= '\u{d}') || c == ' ' || c == '\u{85}' || c == '\u{a0}' || c == '\u{1680}' || (
    '\u{2000}' <= c && c <= '\u{200a}') || c == '\u{2028}' || c == '\u{2029}' || c == '\u{202f}' || c
        == '\u{205f}' || c == '\u{3000}'
}

/// A text without its leading white space.
pub open spec fn trim_start(s: Seq<char>) -> Seq<char>
    decreases s.len(),
{
    if s.len() > 0 && is_white_space(s[0]) {
        trim_start(s.drop_first())
    } else {
        s
    }
}

/// A text without its trailing white space.
pub open spec fn trim_end(s: Seq<char>) -> Seq<char>
    decreases s.len(),
{
    if s.len() > 0 && is_white_space(s.last()) {
        trim_end(s.drop_last())
    } else {
        s
    }
}

/// `str::trim`: the text without its leading and trailing white space, as
/// std documents it (the Unicode `White_Space` property).
#[verifier::external_body]
fn trim(s: &str) -> (r: &str)
    ensures
        r@ == trim_end(trim_start(s@)),
{
    s.trim()
}

/// `String::from_utf8`: the text the bytes encode, or `None` when they are
/// not valid UTF-8 (std's documentation).
#[verifier::external_body]
fn utf8_text(bytes: Vec<u8>) -> (r: Option<String>)
    ensures
        r is Some <==> vstd::utf8::valid_utf8(bytes@),
        r matches Some(s) ==> s@ == vstd::utf8::decode_utf8(bytes@),
{
    String::from_utf8(bytes).ok()
}

/// What a server-sent event stream yields: a `data:` payload, the `[DONE]`
/// terminator, or a failure.
#[derive(Debug, Clone, PartialEq)]
pub enum SseItem {
    Data(String),
    Done,
    Failed(ProviderError),
}

/// What an event item holds.
pub enum SseItemModel {
    Data(Seq<char>),
    Done,
    Failed(ProviderError),
}

/// The model of an event item.
pub open spec fn item_model(i: SseItem) -> SseItemModel {
    match i {
        SseItem::Data(s) => SseItemModel::Data(s@),
        SseItem::Done => SseItemModel::Done,
        SseItem::Failed(e) => SseItemModel::Failed(e),
    }
}

/// The index of the first newline of `b` at or after `i`.
pub open spec fn newline_from(b: Seq<u8>, i: int) -> Option<int>
    decreases b.len() - i,
{
    if i < 0 || i >= b.len() {
        None
    } else if b[i] == 10u8 {
        Some(i)
    } else {
        newline_from(b, i + 1)
    }
}

/// A line without its trailing carriage returns.
pub open spec fn strip_cr(line: Seq<u8>) -> Seq<u8>
    decreases line.len(),
{
    if line.len() > 0 && line.last() == 13u8 {
        strip_cr(line.drop_last())
    } else {
        line
    }
}

/// The text of a line: its UTF-8 decoding, or nothing when it is not UTF-8.
pub open spec fn line_text(line: Seq<u8>) -> Seq<char> {
    if vstd::utf8::valid_utf8(line) {
        vstd::utf8::decode_utf8(line)
    } else {
        Seq::empty()
    }
}

/// The payload of a `data:` line, trimmed; `None` for any other line.
pub open spec fn data_payload(text: Seq<char>) -> Option<Seq<char>> {
    if text.len() >= 5 && text.subrange(0, 5) == "data:"@ {
        Some(trim_end(trim_start(text.subrange(5, text.len() as int))))
    } else {
        None
    }
}

/// The event items of the complete lines of a buffer, what is left of it,
/// and whether the terminator was met. Empty lines and lines other than
/// `data:` lines are skipped; a `[DONE]` payload ends the framing, leaving
/// the rest of the buffer unread.
pub open spec fn framed(b: Seq<u8>) -> (Seq<SseItemModel>, Seq<u8>, bool)
    decreases b.len(),
{
    match newline_from(b, 0) {
        None => (Seq::empty(), b, false),
        Some(p) => {
            proof {
                lemma_newline_range(b, 0);
            }
            let line = strip_cr(b.subrange(0, p));
            let after = b.subrange(p + 1, b.len() as int);
            if line.len() == 0 {
                framed(after)
            } else {
                match data_payload(line_text(line)) {
                    None => framed(after),
                    Some(d) => if d == "[DONE]"@ {
                        (seq![SseItemModel::Done], after, true)
                    } else {
                        let (items, rest, done) = framed(after);
                        (seq![SseItemModel::Data(d)] + items, rest, done)
                    },
                }
            }
        },
    }
}

/// What a stream decoder is at: the bytes not yet framed, the items not yet
/// handed out, and whether the stream has ended.
pub struct DecoderModel {
    pub buffer: Seq<u8>,
    pub pending: Seq<SseItemModel>,
    pub done: bool,
}

/// What a stream decoder tells its reader on a poll.
#[derive(Debug, Clone, PartialEq)]
pub enum SsePoll {
    /// The next item.
    Item(SseItem),
    /// The stream has ended.
    End,
    /// More bytes are needed.
    NeedBytes,
}

/// The framing of a server-sent event stream: bytes come in, complete
/// lines become items, items go out in order. The stream ends on `[DONE]`,
/// on a transport failure, on a truncated stream, or on cancellation.
pub struct SseDecoder {
    buffer: Vec<u8>,
    pending: Vec<SseItem>,
    next: usize,
    done: bool,
}

/// A newline found at or after `i` lies within the buffer.
pub proof fn lemma_newline_range(b: Seq<u8>, i: int)
    ensures
        newline_from(b, i) matches Some(p) ==> i <= p < b.len() && b[p] == 10u8,
    decreases b.len() - i,
{
    if 0 <= i < b.len() && b[i] != 10u8 {
        lemma_newline_range(b, i + 1);
    }
}

/// The first newline at or after `i`, scanning forward.
proof fn lemma_newline_from(b: Seq<u8>, i: int, j: int)
    requires
        0 <= i <= j <= b.len(),
        forall|k: int| i <= k < j ==> b[k] != 10u8,
    ensures
        newline_from(b, i) == newline_from(b, j),
    decreases j - i,
{
    if i < j {
        lemma_newline_from(b, i + 1, j);
    }
}

/// Framing a buffer from a later start is framing its suffix.
proof fn lemma_newline_shift(b: Seq<u8>, s: int, i: int)
    requires
        0 <= s <= i <= b.len(),
    ensures
        newline_from(b.subrange(s, b.len() as int), i - s) == match newline_from(b, i) {
            Some(p) => Some(p - s),
            None => None,
        },
    decreases b.len() - i,
{
    if i < b.len() {
        lemma_newline_shift(b, s, i + 1);
    }
}

impl SseDecoder {
    /// The model of the decoder.
    pub closed spec fn model(&self) -> DecoderModel {
        DecoderModel {
            buffer: self.buffer@,
            pending: self.pending@.subrange(self.next as int, self.pending@.len() as int).map_values(
                |i: SseItem| item_model(i),
            ),
            done: self.done,
        }
    }

    /// The invariant of the decoder.
    pub closed spec fn wf(&self) -> bool {
        self.next <= self.pending@.len()
    }

    /// A decoder that has seen nothing.
    pub fn new() -> (r: Self)
        ensures
            r.wf(),
            r.model() == (DecoderModel { buffer: Seq::empty(), pending: Seq::empty(), done: false }),
    {
        let r = SseDecoder { buffer: Vec::new(), pending: Vec::new(), next: 0, done: false };
        assert(r.model().pending =~= Seq::<SseItemModel>::empty());
        r
    }

    /// Polls the decoder: a cancellation ends the stream; otherwise the next
    /// pending item goes out; once the stream is done it has ended; else
    /// more bytes are needed.
    pub fn poll(&mut self, cancelled: bool) -> (r: SsePoll)
        requires
            old(self).wf(),
        ensures
            final(self).wf(),
            cancelled ==> r == SsePoll::End && final(self).model() == (DecoderModel {
                done: true,
                ..old(self).model()
            }),
            !cancelled && old(self).model().pending.len() > 0 ==> (r matches SsePoll::Item(i)
                && item_model(i) == old(self).model().pending[0]) && final(self).model() == (DecoderModel {
                pending: old(self).model().pending.drop_first(),
                ..old(self).model()
            }),
            !cancelled && old(self).model().pending.len() == 0 ==> final(self).model() == old(
                self,
            ).model() && r == if old(self).model().done {
                SsePoll::End
            } else {
                SsePoll::NeedBytes
            },
    {
        if cancelled {
            self.done = true;
            return SsePoll::End;
        }
        if self.next < self.pending.len() {
            let item = self.pending[self.next].clone_item();
            let ghost before = self.pending@;
            self.next = self.next + 1;
            proof {
                assert(self.model().pending =~= old(self).model().pending.drop_first());
            }
            return SsePoll::Item(item);
        }
        if self.done {
            SsePoll::End
        } else {
            SsePoll::NeedBytes
        }
    }

    /// A transport failure: the failure is queued and the stream ends.
    pub fn on_transport_error(&mut self, message: String)
        requires
            old(self).wf(),
        ensures
            final(self).wf(),
            final(self).model() == (DecoderModel {
                pending: old(self).model().pending.push(
                    SseItemModel::Failed(
                        ProviderError { kind: ProviderErrorKind::Upstream, code: None, message },
                    ),
                ),
                done: true,
                ..old(self).model()
            }),
    {
        let e = ProviderError { kind: ProviderErrorKind::Upstream, code: None, message };
        let ghost before = self.pending@;
        self.pending.push(SseItem::Failed(e));
        self.done = true;
        proof {
            assert(self.model().pending =~= old(self).model().pending.push(SseItemModel::Failed(e)));
        }
    }

    /// The byte stream ended before `[DONE]`: a truncation failure is
    /// queued and the stream ends.
    pub fn on_end_of_bytes(&mut self)
        requires
            old(self).wf(),
        ensures
            final(self).wf(),
            final(self).model().buffer == old(self).model().buffer,
            final(self).model().done,
            final(self).model().pending.len() == old(self).model().pending.len() + 1,
            final(self).model().pending.take(old(self).model().pending.len() as int) == old(
                self,
            ).model().pending,
            final(self).model().pending.last() matches SseItemModel::Failed(e) && e.kind
                == ProviderErrorKind::Upstream && e.code is None && e.message@
                == "stream ended before [DONE]"@,
    {
        let e = ProviderError {
            kind: ProviderErrorKind::Upstream,
            code: None,
            message: String::from_str("stream ended before [DONE]"),
        };
        self.pending.push(SseItem::Failed(e));
        self.done = true;
        proof {
            assert(self.model().pending.take(old(self).model().pending.len() as int) =~= old(
                self,
            ).model().pending);
        }
    }

    /// Bytes arrived: they join the buffer, every complete line of which is
    /// framed into items; a `[DONE]` ends the stream.
    pub fn on_bytes(&mut self, chunk: &[u8])
        requires
            old(self).wf(),
        ensures
            final(self).wf(),
            ({
                let (items, rest, done) = framed(old(self).model().buffer + chunk@);
                &&& final(self).model().pending == old(self).model().pending + items
                &&& final(self).model().buffer == rest
                &&& final(self).model().done == (old(self).model().done || done)
            }),
    {
        let mut i: usize = 0;
        while i < chunk.len()
            invariant
                i <= chunk@.len(),
                self.buffer@ == old(self).buffer@ + chunk@.take(i as int),
                self.pending == old(self).pending,
                self.next == old(self).next,
                self.done == old(self).done,
            decreases chunk.len() - i,
        {
            self.buffer.push(chunk[i]);
            assert(old(self).buffer@ + chunk@.take(i + 1) =~= (old(self).buffer@ + chunk@.take(
                i as int,
            )).push(chunk@[i as int]));
            i += 1;
        }
        assert(chunk@.take(chunk@.len() as int) =~= chunk@);
        self.drain_lines();
    }

    /// Frames every complete line of the buffer.
    fn drain_lines(&mut self)
        requires
            old(self).wf(),
        ensures
            final(self).wf(),
            ({
                let (items, rest, done) = framed(old(self).model().buffer);
                &&& final(self).model().pending == old(self).model().pending + items
                &&& final(self).model().buffer == rest
                &&& final(self).model().done == (old(self).model().done || done)
            }),
    {
        let ghost b0 = self.buffer@;
        let ghost p0 = self.model().pending;
        let n = self.buffer.len();
        let mut start: usize = 0;
        let mut met_done = false;
        proof {
            assert(b0.subrange(0, n as int) =~= b0);
            assert(self.model().pending.subrange(p0.len() as int, self.model().pending.len() as int) =~= Seq::<SseItemModel>::empty());
            assert(self.model().pending.subrange(0, p0.len() as int) =~= p0);
            let (items, rest, done) = framed(b0);
            assert(Seq::<SseItemModel>::empty() + items =~= items);
        }
        loop
            invariant_except_break
                self.wf(),
                self.buffer@ == b0,
                n == b0.len(),
                start <= n,
                !met_done,
                self.done == old(self).done,
                self.next == old(self).next,
                self.model().pending.len() >= p0.len(),
                self.model().pending.subrange(0, p0.len() as int) == p0,
                framed(b0) == ({
                    let (items, rest, done) = framed(b0.subrange(start as int, n as int));
                    (self.model().pending.subrange(p0.len() as int, self.model().pending.len() as int) + items, rest, done)
                }),
            ensures
                self.wf(),
                self.buffer@ == b0,
                start <= n,
                self.model().pending == p0 + framed(b0).0,
                framed(b0).1 == b0.subrange(start as int, n as int),
                framed(b0).2 == met_done,
                self.done == (old(self).done || met_done),
            decreases n - start,
        {
            let ghost s = b0.subrange(start as int, n as int);
            let ghost seg = self.model().pending.subrange(p0.len() as int, self.model().pending.len() as int);
            let mut pos = start;
            while pos < n && self.buffer[pos] != 10u8
                invariant
                    start <= pos <= n,
                    self.buffer@ == b0,
                    n == b0.len(),
                    forall|k: int| start <= k < pos ==> b0[k] != 10u8,
                decreases n - pos,
            {
                pos += 1;
            }
            proof {
                assert forall|k: int| 0 <= k < (pos - start) implies s[k] != 10u8 by {
                    assert(s[k] == b0[start + k]);
                }
                lemma_newline_from(s, 0, (pos - start) as int);
            }
            if pos == n {
                proof {
                    assert(framed(s) == (Seq::<SseItemModel>::empty(), s, false));
                    assert(self.model().pending =~= p0 + seg);
                    assert(seg + Seq::<SseItemModel>::empty() =~= seg);
                }
                break;
            }
            proof {
                assert(s[pos - start] == b0[pos as int]);
                assert(newline_from(s, 0) == Some((pos - start) as int));
            }
            let line_start = start;
            let mut end = pos;
            while end > line_start && self.buffer[end - 1] == 13u8
                invariant
                    line_start <= end <= pos,
                    pos < n,
                    self.buffer@ == b0,
                    n == b0.len(),
                    strip_cr(b0.subrange(line_start as int, pos as int)) == strip_cr(
                        b0.subrange(line_start as int, end as int),
                    ),
                decreases end - line_start,
            {
                proof {
                    assert(b0.subrange(line_start as int, end as int).drop_last() =~= b0.subrange(
                        line_start as int,
                        end - 1,
                    ));
                }
                end -= 1;
            }
            let ghost line = b0.subrange(line_start as int, end as int);
            proof {
                assert(strip_cr(line) == line);
                assert(s.subrange(0, (pos - line_start) as int) =~= b0.subrange(line_start as int, pos as int));
                assert(s.subrange((pos - line_start + 1) as int, s.len() as int) =~= b0.subrange(
                    pos + 1,
                    n as int,
                ));
            }
            start = pos + 1;
            if end == line_start {
                continue;
            }
            let mut line_vec: Vec<u8> = Vec::new();
            let mut k = line_start;
            while k < end
                invariant
                    line_start <= k <= end,
                    end <= n,
                    self.buffer@ == b0,
                    n == b0.len(),
                    line_vec@ == b0.subrange(line_start as int, k as int),
                decreases end - k,
            {
                line_vec.push(self.buffer[k]);
                assert(b0.subrange(line_start as int, k + 1) =~= line_vec@);
                k += 1;
            }
            match utf8_text(line_vec) {
                None => {},
                Some(text) => {
                    match data_payload_of(text.as_str()) {
                        None => {},
                        Some(d) => {
                            let ghost before = self.pending@;
                            if str_equals(d.as_str(), "[DONE]") {
                                self.pending.push(SseItem::Done);
                                self.done = true;
                                met_done = true;
                                proof {
                                    assert(self.pending@.subrange(0, before.len() as int) =~= before);
                                    assert(self.model().pending =~= p0 + seg.push(SseItemModel::Done));
                                    assert(seg + seq![SseItemModel::Done] =~= seg.push(SseItemModel::Done));
                                }
                                break;
                            } else {
                                self.pending.push(SseItem::Data(d));
                                proof {
                                    assert(self.model().pending.subrange(0, p0.len() as int) =~= p0);
                                    assert(self.model().pending.subrange(p0.len() as int, self.model().pending.len() as int)
                                        =~= seg.push(SseItemModel::Data(d@)));
                                    let (items, rest, done) = framed(b0.subrange(start as int, n as int));
                                    assert(seg.push(SseItemModel::Data(d@)) + items =~= seg + (seq![SseItemModel::Data(d@)] + items));
                                }
                            }
                        },
                    }
                },
            }
        }
        let mut rest: Vec<u8> = Vec::new();
        let mut k = start;
        while k < n
            invariant
                start <= k <= n,
                self.buffer@ == b0,
                n == b0.len(),
                rest@ == b0.subrange(start as int, k as int),
            decreases n - k,
        {
            rest.push(self.buffer[k]);
            assert(b0.subrange(start as int, k + 1) =~= rest@);
            k += 1;
        }
        self.buffer = rest;
    }
}

impl SseItem {
    /// A copy of the item with the same contents.
    pub fn clone_item(&self) -> (r: SseItem)
        ensures
            item_model(r) == item_model(*self),
    {
        match self {
            SseItem::Data(s) => SseItem::Data(s.clone()),
            SseItem::Done => SseItem::Done,
            SseItem::Failed(e) => SseItem::Failed(
                ProviderError { kind: e.kind, code: e.code, message: e.message.clone() },
            ),
        }
    }
}

/// The payload of a `data:` line, trimmed; `None` for any other line.
fn data_payload_of(text: &str) -> (r: Option<String>)
    ensures
        match data_payload(text@) {
            Some(d) => r matches Some(s) && s@ == d,
            None => r is None,
        },
{
    proof {
        reveal_strlit("data:");
    }
    let len = text.unicode_len();
    if len < 5 {
        return None;
    }
    let prefix = text.substring_char(0, 5);
    if !str_equals(prefix, "data:") {
        return None;
    }
    let rest = text.substring_char(5, len);
    Some(String::from_str(trim(rest)))
}

/// The stream cell of a decoded delta: its text as a content delta when it
/// has one, else its reasoning as a reasoning delta, else nothing.
pub open spec fn delta_cell(content: Option<Seq<char>>, reasoning: Option<Seq<char>>) -> Option<(bool, Seq<char>)> {
    match content {
        Some(c) if c.len() > 0 => Some((true, c)),
        _ => match reasoning {
            Some(r) if r.len() > 0 => Some((false, r)),
            _ => None,
        },
    }
}

/// The stream cell of a decoded delta: a non-empty `content` is a content
/// delta, else a non-empty `reasoning_content` is a reasoning delta, else
/// there is none.
pub fn delta_chunk(content: Option<String>, reasoning: Option<String>) -> (r: Option<StreamChunk>)
    ensures
        match delta_cell(
            match content {
                Some(c) => Some(c@),
                None => None,
            },
            match reasoning {
                Some(x) => Some(x@),
                None => None,
            },
        ) {
            Some((true, t)) => r matches Some(StreamChunk::ContentDelta(s)) && s@ == t,
            Some((false, t)) => r matches Some(StreamChunk::ReasoningDelta(s)) && s@ == t,
            None => r is None,
        },
{
    match content {
        Some(c) => {
            if c.as_str().unicode_len() > 0 {
                return Some(StreamChunk::ContentDelta(c));
            }
        },
        None => {},
    }
    match reasoning {
        Some(x) => {
            if x.as_str().unicode_len() > 0 {
                Some(StreamChunk::ReasoningDelta(x))
            } else {
                None
            }
        },
        None => None,
    }
}

/// The failure of a model the provider does not list.
pub open spec fn unsupported_model_message(model: Seq<char>) -> Seq<char> {
    "model '"@ + model + "' is not supported by this provider"@
}

/// Checks a model against the provider's list: accepted when listed, a
/// misconfiguration otherwise.
pub fn check_model(models: &Vec<String>, model: &str) -> (r: Result<(), ProviderError>)
    ensures
        (exists|i: int| 0 <= i < models@.len() && #[trigger] models@[i]@ == model@) ==> r is Ok,
        (forall|i: int| 0 <= i < models@.len() ==> #[trigger] models@[i]@ != model@) ==> (r matches Err(e)
            && e.kind == ProviderErrorKind::Config && e.code is None && e.message@
            == unsupported_model_message(model@)),
{
    let mut i: usize = 0;
    while i < models.len()
        invariant
            i <= models@.len(),
            forall|j: int| 0 <= j < i ==> #[trigger] models@[j]@ != model@,
        decreases models.len() - i,
    {
        if str_equals(models[i].as_str(), model) {
            return Ok(());
        }
        i += 1;
    }
    let mut message = String::from_str("model '");
    message.append(model);
    message.append("' is not supported by this provider");
    Err(ProviderError { kind: ProviderErrorKind::Config, code: None, message })
}

/// A text without its trailing `/`s.
pub open spec fn trim_slashes(s: Seq<char>) -> Seq<char>
    decreases s.len(),
{
    if s.len() > 0 && s.last() == '/' {
        trim_slashes(s.drop_last())
    } else {
        s
    }
}

/// The URL of an endpoint under a root URL, whatever trailing `/`s the root
/// has.
pub fn endpoint(base_url: &str, path: &str) -> (r: String)
    ensures
        r@ == trim_slashes(base_url@) + "/"@ + path@,
{
    let mut end = base_url.unicode_len();
    assert(base_url@.subrange(0, end as int) =~= base_url@);
    while end > 0 && base_url.get_char(end - 1) == '/'
        invariant
            end <= base_url@.len(),
            trim_slashes(base_url@) == trim_slashes(base_url@.subrange(0, end as int)),
        decreases end,
    {
        proof {
            assert(base_url@.subrange(0, end as int).drop_last() =~= base_url@.subrange(0, end - 1));
        }
        end -= 1;
    }
    let mut url = String::from_str(base_url.substring_char(0, end));
    url.append("/");
    url.append(path);
    url
}

/// Whether an optional text is present and non-empty.
pub open spec fn has_text(t: Option<Seq<char>>) -> bool {
    t matches Some(x) && x.len() > 0
}

/// A delta's cell carries its non-empty `content` when it has one; without
/// one (absent, null or empty), its non-empty `reasoning_content`; and it
/// is none when the delta has neither.
pub proof fn law_delta_cell_keeps_its_text(content: Option<Seq<char>>, reasoning: Option<Seq<char>>)
    ensures
        has_text(content) ==> delta_cell(content, reasoning) == Some((true, content->0)),
        !has_text(content) && has_text(reasoning) ==> delta_cell(content, reasoning) == Some((false, reasoning->0)),
        !has_text(content) && !has_text(reasoning) ==> delta_cell(content, reasoning) is None,
{
}

} // verus!
