//! Tests of the board analysis session's decisions.

use minesweeper::analysis::{
    board_reads, read_board_tool, tool_result_text, AnalysisRun, ChatMessage, ToolCall, ToolFunction, INITIAL_USER, SYSTEM_PROMPT,
};
use minesweeper::analysis::AiConfig;
use minesweeper::protocol::ThinkingMode;

fn reply_calling(name: &str) -> ChatMessage {
    ChatMessage {
        role: "assistant".into(),
        content: Some(String::new()),
        reasoning_content: Some("look first".into()),
        tool_calls: Some(vec![ToolCall {
            id: "call_1".into(),
            kind: "function".into(),
            function: ToolFunction { name: name.into(), arguments: "{}".into() },
        }]),
        tool_call_id: None,
    }
}

fn final_reply(text: &str) -> ChatMessage {
    ChatMessage {
        role: "assistant".into(),
        content: Some(text.into()),
        reasoning_content: None,
        tool_calls: None,
        tool_call_id: None,
    }
}

#[test]
fn a_session_opens_with_the_prompt_and_the_question() {
    let run = AnalysisRun::start(5);
    let messages = run.messages();
    assert_eq!(messages.len(), 2);
    assert_eq!(messages[0].role, "system");
    assert_eq!(messages[0].content.as_deref(), Some(SYSTEM_PROMPT));
    assert_eq!(messages[1].role, "user");
    assert_eq!(messages[1].content.as_deref(), Some(INITIAL_USER));
    assert!(run.wants_another());
}

#[test]
fn a_read_board_call_is_answered_with_the_board() {
    let mut run = AnalysisRun::start(5);
    run.on_reply(reply_calling("read_board"), vec!["board 9x9".to_string()]);
    let messages = run.messages();
    assert_eq!(messages.len(), 4);
    assert_eq!(messages[2].role, "assistant");
    assert_eq!(messages[2].reasoning_content, None);
    assert_eq!(messages[3].role, "tool");
    assert_eq!(messages[3].content.as_deref(), Some("board 9x9"));
    assert_eq!(messages[3].tool_call_id.as_deref(), Some("call_1"));
    assert!(run.wants_another());
    run.on_reply(final_reply("mine at (0,1)"), vec![]);
    assert!(!run.wants_another());
    let result = run.into_result();
    assert_eq!(result.steps.len(), 2);
    assert_eq!(result.steps[0].tool_calls.len(), 1);
    assert_eq!(result.steps[0].tool_calls[0].name, "read_board");
    assert_eq!(result.steps[0].reasoning_content.as_deref(), Some("look first"));
    assert_eq!(result.steps[1].content.as_deref(), Some("mine at (0,1)"));
}

#[test]
fn an_unknown_tool_is_refused_by_name() {
    let mut run = AnalysisRun::start(5);
    run.on_reply(reply_calling("peek"), vec![]);
    assert_eq!(run.messages()[3].content.as_deref(), Some("unknown tool: peek"));
    assert_eq!(tool_result_text("read_board", "b"), "b");
}

#[test]
fn the_turn_cap_ends_a_session_that_keeps_calling_tools() {
    let mut run = AnalysisRun::start(2);
    run.on_reply(reply_calling("read_board"), vec!["b".to_string()]);
    assert!(run.wants_another());
    run.on_reply(reply_calling("read_board"), vec!["b".to_string()]);
    assert!(!run.wants_another());
    assert_eq!(run.into_result().steps.len(), 2);
}

#[test]
fn the_analysis_config_needs_a_key_and_defaults_the_model() {
    assert!(AiConfig::from_values(None, Some("m".into())).is_none());
    let config = AiConfig::from_values(Some("k".into()), None).unwrap();
    assert_eq!(config.api_key, "k");
    assert_eq!(config.model, "deepseek-v4-flash");
    assert_eq!(AiConfig::from_values(Some("k".into()), Some("other".into())).unwrap().model, "other");
}

#[test]
fn read_board_tool_declares_no_arguments() {
    let tool = read_board_tool();
    assert_eq!(tool.name, "read_board");
    assert!(tool.description.starts_with("Reads the current Minesweeper board"));
}

#[test]
fn the_board_is_read_once_per_read_board_call() {
    let mut reply = reply_calling("read_board");
    let calls = reply.tool_calls.as_mut().unwrap();
    let mut second = calls[0].clone();
    second.id = "call_2".into();
    let mut other = calls[0].clone();
    other.id = "call_3".into();
    other.function.name = "peek".into();
    calls.push(other);
    calls.push(second);
    assert_eq!(board_reads(&reply), 2);
    assert_eq!(board_reads(&final_reply("done")), 0);
    let mut run = AnalysisRun::start(5);
    run.on_reply(reply, vec!["first".to_string(), "second".to_string()]);
    let messages = run.messages();
    assert_eq!(messages.len(), 6);
    assert_eq!(messages[3].content.as_deref(), Some("first"));
    assert_eq!(messages[4].content.as_deref(), Some("unknown tool: peek"));
    assert_eq!(messages[5].content.as_deref(), Some("second"));
    assert_eq!(messages[5].tool_call_id.as_deref(), Some("call_2"));
}

#[test]
fn each_turn_requests_with_the_read_board_tool_and_thinking_without_streaming() {
    let run = AnalysisRun::start(5);
    let req = run.turn_request("deepseek-v4-flash", "low");
    assert_eq!(req.model, "deepseek-v4-flash");
    assert_eq!(req.messages.len(), 2);
    assert_eq!(req.tools, vec![read_board_tool()]);
    assert_eq!(req.thinking, ThinkingMode::Enabled);
    assert_eq!(req.reasoning_effort, "low");
    assert!(!req.stream);
}
