//! Tests of the provider failures and how the routes answer them.

use minesweeper::advisor::SendError;
use minesweeper::agent::{RunError, RunEvent, SendError as AgentSendError};
use minesweeper::ai_replies::{provider_error_response, send_error_response, to_event, ErrorBody, ReplyEvent, StreamOut};
use minesweeper::protocol::{parse_http_error, transport_error, ProviderError, ProviderErrorKind};

#[test]
fn parse_http_error_maps_config_codes() {
    for code in [400, 401, 402, 422] {
        let e = parse_http_error(code, "msg".into());
        assert_eq!(e.kind, ProviderErrorKind::Config);
        assert_eq!(e.code, Some(code));
        assert_eq!(e.message, "msg");
    }
}

#[test]
fn parse_http_error_maps_upstream_codes() {
    for code in [429, 500, 503] {
        let e = parse_http_error(code, "msg".into());
        assert_eq!(e.kind, ProviderErrorKind::Upstream);
        assert_eq!(e.code, Some(code));
    }
}

#[test]
fn parse_http_error_defaults_unknown_to_upstream() {
    let e = parse_http_error(502, "msg".into());
    assert_eq!(e.kind, ProviderErrorKind::Upstream);
    assert_eq!(e.code, Some(502));
}

#[test]
fn a_transport_failure_is_upstream_without_a_code() {
    let e = transport_error("connection refused".into());
    assert_eq!(e.kind, ProviderErrorKind::Upstream);
    assert_eq!(e.code, None);
    assert_eq!(e.message, "connection refused");
}

#[test]
fn a_config_error_without_a_code_is_503() {
    let resp = provider_error_response(ProviderError {
        kind: ProviderErrorKind::Config,
        code: None,
        message: "no provider".into(),
    });
    assert_eq!(resp.0, 503);
}

#[test]
fn an_upstream_failure_without_a_code_is_502() {
    let resp = provider_error_response(ProviderError {
        kind: ProviderErrorKind::Upstream,
        code: None,
        message: "connect failed".into(),
    });
    assert_eq!(resp.0, 502);
}

#[test]
fn a_provider_code_wins_over_the_kind() {
    let resp = provider_error_response(ProviderError {
        kind: ProviderErrorKind::Upstream,
        code: Some(429),
        message: "rate limited".into(),
    });
    assert_eq!(resp.0, 429);
}

#[test]
fn a_code_that_is_no_http_status_falls_back_to_the_kind() {
    let error = ProviderError { kind: ProviderErrorKind::Config, code: Some(42), message: "odd".into() };
    let resp = provider_error_response(error.clone());
    assert_eq!(resp, (503, ErrorBody::Provider(error)));
}

#[test]
fn each_refused_send_has_its_status_and_reason() {
    assert_eq!(
        send_error_response(SendError::MissingScreenshot),
        (400, ErrorBody::Reason("image mode requires image_data_url".into()))
    );
    assert_eq!(
        send_error_response(SendError::Agent(AgentSendError::NoSession)),
        (409, ErrorBody::Reason("no live AI session".into()))
    );
    assert_eq!(
        send_error_response(SendError::Agent(AgentSendError::Busy)),
        (409, ErrorBody::Reason("a send is already in flight".into()))
    );
    let error = ProviderError { kind: ProviderErrorKind::Config, code: Some(401), message: "bad key".into() };
    assert_eq!(
        send_error_response(SendError::Agent(AgentSendError::Provider(error.clone()))),
        (401, ErrorBody::Provider(error))
    );
}

#[test]
fn run_items_map_onto_stream_events() {
    assert_eq!(
        to_event(Ok(RunEvent::ReasoningDelta("think".into()))),
        StreamOut::Event(ReplyEvent::Reasoning { text: "think".into() })
    );
    assert_eq!(
        to_event(Ok(RunEvent::ContentDelta("say".into()))),
        StreamOut::Event(ReplyEvent::Content { text: "say".into() })
    );
    assert_eq!(to_event(Ok(RunEvent::Done)), StreamOut::Terminator);
    assert_eq!(to_event(Ok(RunEvent::Interrupted)), StreamOut::Event(ReplyEvent::Interrupted));
    let error = transport_error("gone".into());
    assert_eq!(
        to_event(Err(RunError::Provider(error.clone()))),
        StreamOut::Event(ReplyEvent::ProviderError { error })
    );
}
