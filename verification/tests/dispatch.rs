use stormglass::json::{read_line, JsonValue, LineRead};
use stormglass::parse::{dispatch_line, extract_u64, ContentType, Entry};

fn make_assistant(message_id: &str, content_type: &str, tool_name: Option<&str>) -> String {
    let content_block = match content_type {
        "thinking" => r#"{"type":"thinking","thinking":"..."}"#.to_owned(),
        "tool_use" => {
            let name = tool_name.unwrap_or("Bash");
            format!(r#"{{"type":"tool_use","name":"{}","id":"t1","input":{{}}}}"#, name)
        }
        _ => r#"{"type":"text","text":"hello"}"#.to_owned(),
    };
    format!(
        r#"{{"type":"assistant","timestamp":"2026-05-29T10:00:00.000Z","sessionId":"sess1","isSidechain":false,"message":{{"id":"{}","model":"opus-4-8","stop_reason":"end_turn","usage":{{"input_tokens":1000,"output_tokens":200,"cache_read_input_tokens":800,"cache_creation_input_tokens":100}},"content":[{}]}}}}"#,
        message_id, content_block
    )
}

#[test]
fn test_dispatch_assistant_text() {
    let line = make_assistant("msg_001", "text", None);
    match dispatch_line(&line) {
        Entry::Assistant(e) => {
            assert_eq!(e.message_id, "msg_001");
            assert_eq!(e.model, "opus-4-8");
            assert!(matches!(e.content_type, ContentType::Text));
            let u = e.usage.unwrap();
            assert_eq!(u.input_tokens, 1000);
            assert_eq!(u.output_tokens, 200);
        }
        _ => panic!("expected Assistant entry"),
    }
}

#[test]
fn test_dispatch_assistant_thinking() {
    let line = make_assistant("msg_002", "thinking", None);
    match dispatch_line(&line) {
        Entry::Assistant(e) => {
            assert!(matches!(e.content_type, ContentType::Thinking));
        }
        _ => panic!("expected Assistant entry"),
    }
}

#[test]
fn test_dispatch_assistant_tool_use() {
    let line = make_assistant("msg_003", "tool_use", Some("Read"));
    match dispatch_line(&line) {
        Entry::Assistant(e) => match e.content_type {
            ContentType::ToolUse { tool_name } => assert_eq!(tool_name, "Read"),
            _ => panic!("expected ToolUse"),
        },
        _ => panic!("expected Assistant entry"),
    }
}

#[test]
fn test_sidechain_skip() {
    let line = r#"{"type":"assistant","isSidechain":true,"timestamp":"2026-05-29T10:00:00.000Z","message":{"id":"msg_sc1","model":"opus-4-8","usage":{"input_tokens":100,"output_tokens":50,"cache_read_input_tokens":0,"cache_creation_input_tokens":0},"content":[{"type":"text","text":"sidechain"}]}}"#;
    assert!(matches!(dispatch_line(line), Entry::Skip));
}

#[test]
fn test_meta_user_list_skip() {
    let line = r#"{"type":"user","isMeta":true,"message":{"content":[{"type":"text","text":"skill load"}]}}"#;
    assert!(matches!(dispatch_line(line), Entry::Skip));
}

#[test]
fn test_meta_user_string_content_human() {
    let line = r#"{"type":"user","isMeta":true,"message":{"content":"meta content"}}"#;
    assert!(matches!(dispatch_line(line), Entry::UserHuman));
}

#[test]
fn test_tool_result_user_skip() {
    let line = r#"{"type":"user","isMeta":false,"message":{"content":[{"type":"tool_result","tool_use_id":"t1","content":"output"}]}}"#;
    assert!(matches!(dispatch_line(line), Entry::Skip));
}

#[test]
fn test_user_string_content_human() {
    let line = r#"{"type":"user","isMeta":false,"message":{"content":"Hello there"}}"#;
    assert!(matches!(dispatch_line(line), Entry::UserHuman));
}

#[test]
fn test_user_list_no_tool_result_human() {
    let line = r#"{"type":"user","isMeta":false,"message":{"content":[{"type":"text","text":"image paste"}]}}"#;
    assert!(matches!(dispatch_line(line), Entry::UserHuman));
}

#[test]
fn test_queue_operation_with_tokens() {
    let line = r#"{"type":"queue-operation","timestamp":"2026-05-29T10:05:00.000Z","operation":"enqueue","content":"<subagent_tokens>5000</subagent_tokens><tool_uses>3</tool_uses><duration_ms>12000</duration_ms>"}"#;
    match dispatch_line(line) {
        Entry::Subagent(content) => {
            assert!(content.contains("<subagent_tokens>"));
            let tokens = extract_u64(&content, "subagent_tokens");
            assert_eq!(tokens, Some(5000));
        }
        _ => panic!("expected Subagent entry"),
    }
}

#[test]
fn test_queue_operation_dequeue_produces_subagent_entry() {
    let line = r#"{"type":"queue-operation","operation":"dequeue","content":"task dequeued"}"#;
    match dispatch_line(line) {
        Entry::Subagent(content) => {
            assert!(extract_u64(&content, "subagent_tokens").is_none());
        }
        _ => panic!("expected Subagent entry from queue-operation"),
    }
}

#[test]
fn test_parse_error_produces_skip() {
    assert!(matches!(dispatch_line("not json at all"), Entry::Skip));
    assert!(matches!(dispatch_line("{incomplete"), Entry::Skip));
}

// ── Further classification cases ────────────────────────────────────────────

#[test]
fn unknown_type_is_skipped() {
    assert!(matches!(dispatch_line(r#"{"type":"summary","summary":"x"}"#), Entry::Skip));
    assert!(matches!(dispatch_line(r#"{"message":{"content":"no type"}}"#), Entry::Skip));
    assert!(matches!(dispatch_line("[1,2,3]"), Entry::Skip));
}

#[test]
fn assistant_fields_are_carried_over() {
    let line = r#"{"type":"assistant","timestamp":"2026-05-29T10:00:00.000Z","sessionId":"abc","message":{"id":"m9","model":"model-x","stop_reason":"tool_use","usage":{"input_tokens":7,"output_tokens":8,"cache_read_input_tokens":9,"cache_creation_input_tokens":10},"content":[{"type":"tool_use","name":"Skill","input":{"skill":"review"}}]}}"#;
    match dispatch_line(line) {
        Entry::Assistant(e) => {
            assert_eq!(e.message_id, "m9");
            assert_eq!(e.timestamp, "2026-05-29T10:00:00.000Z");
            assert_eq!(e.session_id, "abc");
            assert_eq!(e.stop_reason.as_deref(), Some("tool_use"));
            let u = e.usage.unwrap();
            assert_eq!(
                (u.input_tokens, u.output_tokens, u.cache_read_input_tokens, u.cache_creation_input_tokens),
                (7, 8, 9, 10)
            );
            match e.content_type {
                ContentType::ToolUse { tool_name } => assert_eq!(tool_name, "Skill"),
                _ => panic!("expected ToolUse"),
            }
        }
        _ => panic!("expected Assistant entry"),
    }
}

#[test]
fn assistant_without_usage_or_content() {
    let line = r#"{"type":"assistant","message":{"id":"m1","model":"x"}}"#;
    match dispatch_line(line) {
        Entry::Assistant(e) => {
            assert!(e.usage.is_none());
            assert!(matches!(e.content_type, ContentType::Text));
            assert!(e.stop_reason.is_none());
            assert_eq!(e.session_id, "");
        }
        _ => panic!("expected Assistant entry"),
    }
}

#[test]
fn usage_counters_that_are_not_integers_count_as_zero() {
    let line = r#"{"type":"assistant","message":{"id":"m1","model":"x","usage":{"input_tokens":-5,"output_tokens":2.5,"cache_read_input_tokens":"7"},"content":[{"type":"text","text":"h"}]}}"#;
    match dispatch_line(line) {
        Entry::Assistant(e) => {
            let u = e.usage.unwrap();
            assert_eq!(
                (u.input_tokens, u.output_tokens, u.cache_read_input_tokens, u.cache_creation_input_tokens),
                (0, 0, 0, 0)
            );
        }
        _ => panic!("expected Assistant entry"),
    }
}

#[test]
fn user_list_with_tool_result_anywhere_is_skipped() {
    let line = r#"{"type":"user","message":{"content":[{"type":"text","text":"a"},{"type":"tool_result","content":"b"}]}}"#;
    assert!(matches!(dispatch_line(line), Entry::Skip));
}

#[test]
fn extract_u64_edge_cases() {
    assert_eq!(extract_u64("<a> 12 </a>", "a"), Some(12));
    assert_eq!(extract_u64("<a>18446744073709551615</a>", "a"), Some(u64::MAX));
    assert_eq!(extract_u64("<a>18446744073709551616</a>", "a"), None);
    assert_eq!(extract_u64("<a>-1</a>", "a"), None);
    assert_eq!(extract_u64("<a>1x</a>", "a"), None);
    assert_eq!(extract_u64("<a></a>", "a"), None);
    assert_eq!(extract_u64("<a>5", "a"), None);
    assert_eq!(extract_u64("<b>5</b>", "a"), None);
    assert_eq!(extract_u64("<a>7</a><a>8</a>", "a"), Some(7));
    assert_eq!(extract_u64("<a>+5</a>", "a"), Some(5));
    assert_eq!(extract_u64("<a>\t9\n</a>", "a"), Some(9));
}

#[test]
fn tool_use_without_a_name_is_unknown() {
    let line = r#"{"type":"assistant","attributionSkill":"review","message":{"id":"m1","content":[{"type":"tool_use"}]}}"#;
    match dispatch_line(line) {
        Entry::Assistant(e) => {
            assert_eq!(e.skill.as_deref(), Some("review"));
            assert_eq!(e.model, "");
            match e.content_type {
                ContentType::ToolUse { tool_name } => assert_eq!(tool_name, "unknown"),
                _ => panic!("expected ToolUse"),
            }
        }
        _ => panic!("expected Assistant entry"),
    }
}

#[test]
fn assistant_without_message_id_is_skipped() {
    let line = r#"{"type":"assistant","message":{"model":"x","content":[{"type":"text","text":"h"}]}}"#;
    assert!(matches!(dispatch_line(line), Entry::Skip));
    let line = r#"{"type":"assistant","message":{"id":7}}"#;
    assert!(matches!(dispatch_line(line), Entry::Skip));
}

#[test]
fn queue_operation_without_content_has_empty_text() {
    match dispatch_line(r#"{"type":"queue-operation","operation":"popAll"}"#) {
        Entry::Subagent(content) => assert_eq!(content, ""),
        _ => panic!("expected Subagent entry"),
    }
}

#[test]
fn lines_are_read_as_trimmed_json() {
    assert!(matches!(read_line("   \t"), LineRead::Blank));
    assert!(matches!(read_line(""), LineRead::Blank));
    match read_line("  {\"a\": [1, -2, \"x\", null, true]} \n") {
        LineRead::Json(JsonValue::Object(members)) => {
            assert_eq!(members.len(), 1);
            assert_eq!(members[0].0, "a");
            match &members[0].1 {
                JsonValue::Array(items) => {
                    assert_eq!(items.len(), 5);
                    assert!(matches!(items[0], JsonValue::Number(Some(1))));
                    assert!(matches!(items[1], JsonValue::Number(None)));
                    assert!(matches!(&items[2], JsonValue::Str(s) if s == "x"));
                    assert!(matches!(items[3], JsonValue::Null));
                    assert!(matches!(items[4], JsonValue::Bool(true)));
                }
                _ => panic!("expected an array"),
            }
        }
        _ => panic!("expected an object"),
    }
    match read_line("{oops") {
        LineRead::Invalid(message) => assert!(!message.is_empty()),
        _ => panic!("expected a parse error"),
    }
}
