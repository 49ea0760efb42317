use nba_agent::agent::{Agent, AgentStreamEvent, ConversationTrace};
use nba_agent::chat::{read_completion, request_body, ChatCompletion};
use nba_agent::json::Json;
use nba_agent::model::{judge_reply, ModelReply};
use nba_agent::tool_reply::{DbReply, ToolStep};
use nba_agent::turn::Turn;

fn agent(fallback: Option<&str>, max_iterations: usize) -> Agent {
    Agent::new(
        "SCHEMA".to_string(),
        "BRIEF".to_string(),
        "primary".to_string(),
        fallback.map(|s| s.to_string()),
        max_iterations,
    )
}

fn tool_call_response() -> Json {
    Json::from_text(
        r#"{"id": "c1", "object": "chat.completion", "model": "m",
            "choices": [{"index": 0, "message": {
                "role": "assistant", "content": null,
                "tool_calls": [{"id": "call_1", "type": "function", "function": {
                    "name": "run_sql",
                    "arguments": "{\"reasoning\": \"count\", \"query\": \"SELECT COUNT(*) FROM game\"}"
                }}]
            }, "finish_reason": "tool_calls"}]}"#,
    )
    .unwrap()
}

fn final_answer_response() -> Json {
    Json::from_text(
        r#"{"id": "c2", "object": "chat.completion", "model": "m",
            "choices": [{"index": 0, "message": {
                "role": "assistant", "content": "There are 42,000 games.", "tool_calls": null
            }, "finish_reason": "stop"}]}"#,
    )
    .unwrap()
}

/// Asks a scripted server for one completion.
fn complete(a: &Agent, server: &mut dyn FnMut(&str) -> ModelReply) -> (Result<ChatCompletion, String>, Vec<(String, u64)>) {
    let mut tries = a.call_openrouter();
    let mut log = Vec::new();
    while let Some(t) = tries.next_try() {
        log.push((t.model.clone(), t.delay_ms));
        match judge_reply(server(&t.model)) {
            Ok(c) => return (Ok(c), log),
            Err(e) => tries.try_failed(e),
        }
    }
    (Err(tries.error()), log)
}

fn converse(
    a: &mut Agent,
    session: Option<&str>,
    message: &str,
    streaming: bool,
    server: &mut dyn FnMut(&str) -> ModelReply,
) -> (Result<ConversationTrace, String>, Vec<AgentStreamEvent>) {
    let session = session.map(|s| s.to_string());
    let (mut turn, mut events) = if streaming {
        a.run_conversation_stream(session, message)
    } else {
        a.run_conversation(session, message)
    };
    loop {
        if turn.is_asking() {
            let (reply, _) = complete(a, server);
            events.extend(match reply {
                Ok(c) => turn.model_replied(c),
                Err(e) => turn.model_failed(e),
            });
        } else if let Some((name, args)) = turn.next_call() {
            let plan = Agent::plan_tool(&name, &args);
            let rows = Json::rows_from_text("[{\"n\": 42000}]").unwrap();
            let result = match Agent::tool_reply(&plan, DbReply::Rows(rows)) {
                ToolStep::Done(s) => s,
                ToolStep::Retry { .. } => panic!("rows need no second try"),
            };
            events.extend(turn.tool_done(Agent::finish_tool(&plan, result, 5)));
        } else {
            break;
        }
    }
    (a.close_turn(turn), events)
}

fn refused(status: &str, body: &str) -> ModelReply {
    ModelReply::Refused { status: status.to_string(), body: body.to_string() }
}

#[test]
fn test_run_conversation_with_mock() {
    let mut a = agent(None, 12);
    let mut n = 0;
    let (r, _) = converse(&mut a, Some("test-session-1"), "Count the games", false, &mut |_| {
        n += 1;
        ModelReply::Body(if n == 1 { tool_call_response() } else { final_answer_response() })
    });
    let trace = r.unwrap();
    assert_eq!(trace.session_id, "test-session-1");
    assert_eq!(trace.final_answer, "There are 42,000 games.");
    assert_eq!(trace.steps.len(), 2);
    let call = &trace.steps[0].tool_calls[0];
    assert_eq!((call.tool_name.as_str(), call.reasoning.as_str()), ("run_sql", "count"));
    assert_eq!((call.query_or_params.as_str(), call.row_count, call.elapsed_ms), ("SELECT COUNT(*) FROM game", 1, 5));
    let roles: Vec<String> =
        a.session("test-session-1").unwrap().iter().map(|m| m.role.clone()).collect();
    assert_eq!(roles, vec!["system", "user", "assistant", "tool", "assistant"]);
}

#[test]
fn test_retry_after_http_500_then_success() {
    let mut a = agent(None, 12);
    let mut n = 0;
    let (_, events) = converse(&mut a, Some("retry-session"), "How many games?", true, &mut |_| {
        n += 1;
        if n <= 2 { refused("500 Internal Server Error", "") } else { ModelReply::Body(final_answer_response()) }
    });
    assert_eq!(n, 3);
    assert!(events.iter().any(|e| matches!(e, AgentStreamEvent::FinalAnswerChunk { .. })));
    assert!(a.session("retry-session").is_some());
}

#[test]
fn test_all_retries_fail_emits_error() {
    let mut a = agent(None, 12);
    let (r, events) = converse(&mut a, None, "How many games?", true, &mut |_| {
        refused("503 Service Unavailable", "upstream down")
    });
    assert!(
        events.iter().any(|e| matches!(e, AgentStreamEvent::Error { .. })),
        "should emit Error after retries exhausted"
    );
    assert_eq!(r.unwrap_err(), "API error 503 Service Unavailable: upstream down");
    assert!(a.saved().is_empty() && !a.is_dirty());
}

#[test]
fn test_json_parse_error_retries() {
    let mut a = agent(None, 12);
    let mut n = 0;
    let (r, _) = converse(&mut a, Some("parse-session"), "How many games?", true, &mut |_| {
        n += 1;
        if n <= 2 { ModelReply::Unreadable("bad".to_string()) } else { ModelReply::Body(final_answer_response()) }
    });
    assert!(r.is_ok());
}

#[test]
fn test_max_iterations_terminates_with_message() {
    let mut a = agent(None, 4);
    let mut n = 0;
    let (r, events) = converse(&mut a, Some("maxiter-session"), "Keep going", true, &mut |_| {
        n += 1;
        ModelReply::Body(tool_call_response())
    });
    let has_max_msg = events.iter().any(|e| match e {
        AgentStreamEvent::FinalAnswerChunk { text } => text.contains("max analytical"),
        _ => false,
    });
    assert!(has_max_msg && r.is_ok(), "expected max-iteration exit + completion");
    assert_eq!(n, 4);
    let trace = r.unwrap();
    assert_eq!(trace.steps.len(), 4);
    assert_eq!(trace.final_answer, "Reached max analytical reasoning steps.");
    assert!(a.is_dirty());
    assert!(a.saved().iter().any(|s| s.0 == "maxiter-session"), "session should persist");
}

#[test]
fn test_save_loop_persists_after_conversation() {
    let mut a = agent(None, 12);
    let mut n = 0;
    let (r, _) = converse(&mut a, Some("save-session"), "How many games?", true, &mut |_| {
        n += 1;
        ModelReply::Body(if n == 1 { tool_call_response() } else { final_answer_response() })
    });
    assert!(r.is_ok() && a.is_dirty());
    let saved = a.saved();
    assert_eq!(saved[0].0, "save-session");
    assert!(saved[0].1.iter().any(|m| matches!(&m.content, Some(Json::Str(s)) if s.contains("42,000"))));
}

#[test]
fn test_chat_handler_streaming_events() {
    let mut a = agent(None, 12);
    let mut n = 0;
    let (r, events) = converse(&mut a, Some("http-session"), "How many games?", true, &mut |_| {
        n += 1;
        ModelReply::Body(if n <= 2 { tool_call_response() } else { final_answer_response() })
    });
    assert!(r.unwrap().final_answer.contains("42,000"));
    let kinds: Vec<String> = events
        .iter()
        .map(|e| match e {
            AgentStreamEvent::StepStarted { step } => format!("step {}", step),
            AgentStreamEvent::Reasoning { text } => format!("why {}", text),
            AgentStreamEvent::ToolCallStarted { tool_name, reasoning, query_or_params } => {
                format!("start {} {} {}", tool_name, reasoning, query_or_params)
            }
            AgentStreamEvent::ToolCallResult { tool_name, row_count, .. } => format!("end {} {}", tool_name, row_count),
            AgentStreamEvent::FinalAnswerChunk { text } => format!("answer {}", text),
            AgentStreamEvent::Completed { .. } => "completed".to_string(),
            AgentStreamEvent::Error { message } => format!("error {}", message),
        })
        .collect();
    assert_eq!(
        kinds,
        vec![
            "step 1",
            "start run_sql count SELECT COUNT(*) FROM game",
            "end run_sql 1",
            "step 2",
            "start run_sql count SELECT COUNT(*) FROM game",
            "end run_sql 1",
            "step 3",
            "answer There are 42,000 games.",
        ]
    );
}

#[test]
fn models_are_tried_in_order() {
    let (r, log) = complete(&agent(Some("spare"), 12), &mut |m| ModelReply::Unreachable(format!("{} down", m)));
    assert_eq!(r.unwrap_err(), "HTTP error: spare down");
    let want: Vec<(String, u64)> = [
        ("primary", 0),
        ("primary", 1000),
        ("primary", 2000),
        ("spare", 0),
        ("spare", 1000),
        ("spare", 2000),
    ]
    .iter()
    .map(|(m, d)| (m.to_string(), *d))
    .collect();
    assert_eq!(log, want);
    let (r, log) = complete(&agent(None, 12), &mut |_| ModelReply::Unreadable("x".to_string()));
    assert_eq!(r.unwrap_err(), "JSON parse error: x");
    assert_eq!(log.len(), 3);
    assert_eq!(agent(None, 1).call_openrouter().error(), "All models failed");
}

#[test]
fn a_reply_without_content_is_an_answer_too() {
    let empty = || ModelReply::Body(Json::from_text("{}").unwrap());
    let (r, _) = converse(&mut agent(None, 2), Some("s"), "q", false, &mut |_| empty());
    assert_eq!(r.unwrap().final_answer, "(no content)");
    let (r, _) = converse(&mut agent(None, 2), Some("s"), "q", true, &mut |_| empty());
    assert_eq!(r.unwrap().final_answer, "");
    let (r, _) = converse(&mut agent(None, 1), Some("s"), "q", false, &mut |_| ModelReply::Body(tool_call_response()));
    assert_eq!(
        r.unwrap().final_answer,
        "Reached max analytical reasoning steps. Here are the findings so far."
    );
    let (r, events) = converse(&mut agent(None, 0), Some("s"), "q", true, &mut |_| empty());
    let trace = r.unwrap();
    assert!(trace.final_answer.is_empty() && trace.steps.is_empty() && events.is_empty());
}

#[test]
fn a_stream_ends_with_its_trace_or_its_error() {
    let mut a = agent(None, 1);
    let (mut turn, first) = a.run_conversation_stream(Some("s".to_string()), "q");
    assert!(matches!(first[0], AgentStreamEvent::StepStarted { step: 1 }));
    turn.model_replied(read_completion(&final_answer_response()));
    let last = a.close_stream(turn);
    assert_eq!(last.len(), 1);
    assert!(matches!(&last[0], AgentStreamEvent::Completed { trace } if trace.final_answer.contains("42,000")));
    let kept = a.session("s").unwrap();
    assert_eq!(kept.last().unwrap().content.as_ref().unwrap().as_text().unwrap(), "There are 42,000 games.");

    let (mut turn, _) = a.run_conversation_stream(Some("t".to_string()), "q");
    let told = turn.model_failed("down".to_string());
    assert!(matches!(&told[0], AgentStreamEvent::Error { message } if message == "down"));
    assert!(a.close_stream(turn).is_empty());
    assert!(a.session("t").is_none());
}

#[test]
fn a_reset_session_starts_afresh() {
    let mut a = agent(None, 1);
    let (r, _) = converse(&mut a, Some("s"), "one", false, &mut |_| ModelReply::Body(final_answer_response()));
    assert!(r.is_ok());
    let (turn, _) = a.run_conversation(Some("s".to_string()), "two");
    assert_eq!(turn.messages().len(), 4);
    a.reset_session("s");
    let (turn, _) = a.run_conversation(Some("s".to_string()), "three");
    let roles: Vec<&str> = turn.messages().iter().map(|m| m.role.as_str()).collect();
    assert_eq!(roles, vec!["system", "user"]);
}

#[test]
fn new_sessions_get_a_name() {
    let mut a = agent(None, 2);
    let (r, _) = converse(&mut a, None, "q", false, &mut |_| ModelReply::Body(final_answer_response()));
    let first = r.unwrap().session_id;
    let (r, _) = converse(&mut a, None, "q", false, &mut |_| ModelReply::Body(final_answer_response()));
    assert_eq!(first.len(), 36);
    assert_ne!(first, r.unwrap().session_id);
}

#[test]
fn turns_go_on_from_the_session() {
    let mut a = agent(None, 2);
    for i in 0..12 {
        let (r, _) = converse(&mut a, Some("s"), &format!("q{}", i), false, &mut |_| {
            ModelReply::Body(final_answer_response())
        });
        assert!(r.is_ok());
    }
    let ms = a.session("s").unwrap();
    assert_eq!(ms.len(), 20);
    assert_eq!(ms[0].role, "system");
    assert_eq!(ms[18].content.as_ref().unwrap().as_text().unwrap(), "q11");
    let (turn, events) = a.open_turn("t".to_string(), Some(vec![]), "hello", false);
    assert_eq!(turn.messages().len(), 1);
    assert!(matches!(events[0], AgentStreamEvent::StepStarted { step: 1 }));
}

#[test]
fn long_turns_are_stored_within_the_window() {
    let mut a = agent(None, 15);
    let mut n = 0;
    let (r, _) = converse(&mut a, Some("s"), "q", false, &mut |_| {
        n += 1;
        ModelReply::Body(if n < 15 { tool_call_response() } else { final_answer_response() })
    });
    assert_eq!(r.unwrap().steps.len(), 15);
    let ms = a.session("s").unwrap();
    assert_eq!(ms.len(), 20);
    assert_eq!(ms[0].role, "system");
    assert_eq!(ms[19].content.as_ref().unwrap().as_text().unwrap(), "There are 42,000 games.");
}

#[test]
fn completions_are_read_leniently() {
    let c = read_completion(&tool_call_response());
    assert_eq!(c.content, None);
    assert_eq!(c.tool_calls[0].id, "call_1");
    assert_eq!(c.tool_calls[0].arguments.text_at("query").unwrap(), "SELECT COUNT(*) FROM game");
    let c = read_completion(
        &Json::from_text(
            r#"{"choices": [{"message": {"content": 1, "reasoning": "r", "tool_calls": [{}, {"id": "x", "function": {"name": "n", "arguments": "{bad"}}]}}]}"#,
        )
        .unwrap(),
    );
    assert_eq!((c.content, c.reasoning.as_deref()), (None, Some("r")));
    assert_eq!((c.tool_calls[0].id.as_str(), c.tool_calls[0].name.as_str()), ("", ""));
    assert_eq!(c.tool_calls[0].arguments.to_text(), "{}");
    assert_eq!(c.tool_calls[1].arguments.to_text(), "null");
    assert!(read_completion(&Json::Null).tool_calls.is_empty());
    let m = Agent::completion_to_assistant_message(&read_completion(&tool_call_response()));
    assert!(m.content.is_none());
    assert_eq!(
        m.tool_calls.unwrap().to_text(),
        "[{\"function\":{\"arguments\":\"{\\\"query\\\":\\\"SELECT COUNT(*) FROM game\\\",\\\"reasoning\\\":\\\"count\\\"}\",\"name\":\"run_sql\"},\"id\":\"call_1\",\"type\":\"function\"}]"
    );
    let m = Agent::completion_to_assistant_message(&read_completion(&final_answer_response()));
    assert!(m.tool_calls.is_none() && m.role == "assistant");
}

#[test]
fn requests_carry_model_messages_and_tools() {
    let (turn, _) = Turn::begin("s".to_string(), vec![nba_agent::chat::message("user", "hi")], 1, false);
    let body = request_body("m", turn.messages(), &Json::Array(vec![]));
    assert_eq!(
        body.to_text(),
        "{\"messages\":[{\"content\":\"hi\",\"role\":\"user\"}],\"model\":\"m\",\"reasoning\":{\"exclude\":false},\"tools\":[]}"
    );
}
