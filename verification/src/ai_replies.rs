//! How the advisor's routes answer: the events a reply streams to the
//! frontend, and the status and body of a refused or failed request. The
//! HTTP and SSE plumbing is the server's.

use vstd::prelude::*;

use crate::advisor::SendError;
use crate::agent::{RunError, RunEvent, SendError as AgentSendError};
use crate::protocol::{ProviderError, ProviderErrorKind};

verus! {

/// One event of a reply stream on the wire.
#[derive(Debug, Clone, PartialEq)]
pub enum ReplyEvent {
    Reasoning { text: String },
    Content { text: String },
    /// The caller's own Interrupt: the reply never lands.
    Interrupted,
    /// The provider's failure, with its own cause.
    ProviderError { error: ProviderError },
    /// The player's own message, emitted first.
    User { text: String },
}

/// What a reply stream emits for one item: an event, or the `[DONE]`
/// terminator.
#[derive(Debug, Clone, PartialEq)]
pub enum StreamOut {
    Event(ReplyEvent),
    Terminator,
}

/// The event a Run's item is streamed as: deltas as reasoning or content,
/// `Done` as the terminator, an Interrupt as `interrupted`, a provider
/// failure as `provider_error` with its cause.
pub fn to_event(item: Result<RunEvent, RunError>) -> (r: StreamOut)
    ensures
        match item {
            Ok(RunEvent::ReasoningDelta(t)) => r == StreamOut::Event(ReplyEvent::Reasoning { text: t }),
            Ok(RunEvent::ContentDelta(t)) => r == StreamOut::Event(ReplyEvent::Content { text: t }),
            Ok(RunEvent::Done) => r == StreamOut::Terminator,
            Ok(RunEvent::Interrupted) => r == StreamOut::Event(ReplyEvent::Interrupted),
            Err(RunError::Provider(e)) => r == StreamOut::Event(ReplyEvent::ProviderError { error: e }),
        },
{
    match item {
        Ok(RunEvent::ReasoningDelta(text)) => StreamOut::Event(ReplyEvent::Reasoning { text }),
        Ok(RunEvent::ContentDelta(text)) => StreamOut::Event(ReplyEvent::Content { text }),
        Ok(RunEvent::Done) => StreamOut::Terminator,
        Ok(RunEvent::Interrupted) => StreamOut::Event(ReplyEvent::Interrupted),
        Err(RunError::Provider(error)) => StreamOut::Event(ReplyEvent::ProviderError { error }),
    }
}

/// The body of a refused or failed request: a plain reason, or the
/// provider's failure.
#[derive(Debug, Clone, PartialEq)]
pub enum ErrorBody {
    Reason(String),
    Provider(ProviderError),
}

/// The HTTP status a provider failure is answered with: its own code when
/// that is an HTTP status, otherwise 503 for a misconfiguration and 502 for
/// an upstream failure.
pub open spec fn provider_status(pe: ProviderError) -> u16 {
    match pe.code {
        Some(c) if 100 <= c <= 999 => c,
        _ => match pe.kind {
            ProviderErrorKind::Config => 503,
            ProviderErrorKind::Upstream => 502,
        },
    }
}

/// The status and body a provider failure is answered with.
pub fn provider_error_response(pe: ProviderError) -> (r: (u16, ErrorBody))
    ensures
        r.0 == provider_status(pe),
        r.1 == ErrorBody::Provider(pe),
{
    let status = match pe.code {
        Some(c) => if 100 <= c && c <= 999 {
            c
        } else {
            match pe.kind {
                ProviderErrorKind::Config => 503,
                ProviderErrorKind::Upstream => 502,
            }
        },
        None => match pe.kind {
            ProviderErrorKind::Config => 503,
            ProviderErrorKind::Upstream => 502,
        },
    };
    (status, ErrorBody::Provider(pe))
}

/// The status and body a refused Send is answered with: a missing
/// screenshot is 400, no live Session and a Send in flight are 409, each
/// with its reason; a provider failure is answered as such.
pub fn send_error_response(err: SendError) -> (r: (u16, ErrorBody))
    ensures
        match err {
            SendError::MissingScreenshot => r.0 == 400 && (r.1 matches ErrorBody::Reason(m) && m@
                == "image mode requires image_data_url"@),
            SendError::Agent(AgentSendError::NoSession) => r.0 == 409 && (r.1 matches ErrorBody::Reason(m)
                && m@ == "no live AI session"@),
            SendError::Agent(AgentSendError::Busy) => r.0 == 409 && (r.1 matches ErrorBody::Reason(m)
                && m@ == "a send is already in flight"@),
            SendError::Agent(AgentSendError::Provider(pe)) => r.0 == provider_status(pe) && r.1
                == ErrorBody::Provider(pe),
        },
{
    match err {
        SendError::MissingScreenshot => (
            400,
            ErrorBody::Reason(String::from_str("image mode requires image_data_url")),
        ),
        SendError::Agent(AgentSendError::NoSession) => (
            409,
            ErrorBody::Reason(String::from_str("no live AI session")),
        ),
        SendError::Agent(AgentSendError::Busy) => (
            409,
            ErrorBody::Reason(String::from_str("a send is already in flight")),
        ),
        SendError::Agent(AgentSendError::Provider(pe)) => provider_error_response(pe),
    }
}

} // verus!
