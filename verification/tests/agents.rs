use stormglass::agents::{is_agent_file_name, subagents_dir, AgentFileAggregator};
use stormglass::metrics::{parse_ts_ms, SubagentSplit, Usage};
use stormglass::ranking::rank;

fn agent_line(id: &str, usage: (u64, u64, u64, u64)) -> String {
    format!(
        r#"{{"type":"assistant","isSidechain":true,"message":{{"id":"{}","usage":{{"input_tokens":{},"output_tokens":{},"cache_read_input_tokens":{},"cache_creation_input_tokens":{}}},"content":[{{"type":"text","text":"x"}}]}}}}"#,
        id, usage.0, usage.1, usage.2, usage.3
    )
}

fn usage(u: Option<Usage>) -> Option<(u64, u64, u64, u64)> {
    u.map(|u| (u.input_tokens, u.output_tokens, u.cache_read_input_tokens, u.cache_creation_input_tokens))
}

#[test]
fn agent_file_groups_lines_by_message() {
    let mut agg = AgentFileAggregator::new();
    agg.feed_line(&agent_line("a1", (10, 5, 1, 2)));
    agg.feed_line(&agent_line("a1", (10, 5, 1, 2)));
    agg.feed_line(&agent_line("a1", (10, 412, 1, 2)));
    agg.feed_line(&agent_line("a2", (20, 3, 0, 0)));
    agg.feed_line(r#"{"type":"user","message":{"content":"hi"}}"#);
    agg.feed_line(r#"{"type":"assistant","message":{"id":"a3"}}"#);
    agg.feed_line(r#"{"type":"assistant","message":{"usage":{"input_tokens":99}}}"#);
    agg.feed_line("   ");
    agg.feed_line("{not json");
    assert_eq!(agg.groups.len(), 2);
    assert_eq!(usage(agg.finish()), Some((30, 415, 1, 2)));
}

#[test]
fn agent_file_keeps_largest_output_and_latest_input() {
    let mut agg = AgentFileAggregator::new();
    agg.feed_line(&agent_line("a1", (10, 400, 1, 2)));
    agg.feed_line(&agent_line("a1", (11, 5, 3, 4)));
    assert_eq!(usage(agg.finish()), Some((11, 400, 3, 4)));
}

#[test]
fn agent_file_without_usable_turn() {
    let mut agg = AgentFileAggregator::new();
    assert_eq!(usage(agg.finish()), None);
    agg.feed_line(r#"{"type":"user","message":{"id":"u","usage":{}}}"#);
    assert_eq!(usage(agg.finish()), None);
}

#[test]
fn agent_file_totals_saturate() {
    let mut agg = AgentFileAggregator::new();
    agg.feed_line(&agent_line("a1", (u64::MAX, 1, 0, 0)));
    agg.feed_line(&agent_line("a2", (5, 1, 0, 0)));
    assert_eq!(usage(agg.finish()), Some((u64::MAX, 2, 0, 0)));
}

#[test]
fn split_adds_files() {
    let mut split = SubagentSplit::default();
    split.add_file(Usage { input_tokens: 1, output_tokens: 2, cache_read_input_tokens: 3, cache_creation_input_tokens: 4 });
    split.add_file(Usage { input_tokens: u64::MAX, output_tokens: 2, cache_read_input_tokens: 3, cache_creation_input_tokens: 4 });
    assert_eq!((split.input, split.output, split.cache_read, split.cache_write), (u64::MAX, 4, 6, 8));
    assert_eq!(split.agent_file_count, 2);
}

#[test]
fn subagent_directory_of_a_transcript() {
    assert_eq!(subagents_dir("/home/u/.sessions/p/abc.jsonl"), Some("/home/u/.sessions/p/abc/subagents".to_owned()));
    assert_eq!(subagents_dir("abc.json"), None);
    assert_eq!(subagents_dir(".jsonl"), Some("/subagents".to_owned()));
    assert_eq!(subagents_dir("x"), None);
}

#[test]
fn agent_file_names() {
    assert!(is_agent_file_name("agent-1a2b.jsonl"));
    assert!(!is_agent_file_name("agent-1a2b.meta.json"));
    assert!(!is_agent_file_name("x-agent-1.jsonl"));
    assert!(!is_agent_file_name("agent-"));
    assert!(!is_agent_file_name(""));
}

#[test]
fn timestamps_parse_to_milliseconds() {
    assert_eq!(parse_ts_ms("2026-05-29T10:00:00.000Z"), Some(1_780_048_800_000));
    assert_eq!(parse_ts_ms("2026-05-29T10:00:00.250Z"), Some(1_780_048_800_250));
    assert_eq!(parse_ts_ms("2026-05-29T10:00:00+02:00"), Some(1_780_041_600_000));
    assert_eq!(parse_ts_ms("yesterday"), None);
    assert_eq!(parse_ts_ms(""), None);
}

#[test]
fn ranking_by_count_then_name() {
    let t = vec![("Write".to_owned(), 2u32), ("Bash".to_owned(), 2u32), ("Edit".to_owned(), 1u32), ("Agent".to_owned(), 1u32)];
    let by_count: Vec<(String, u32)> = rank(&t, true);
    assert_eq!(
        by_count,
        vec![("Bash".to_owned(), 2), ("Write".to_owned(), 2), ("Agent".to_owned(), 1), ("Edit".to_owned(), 1)]
    );
    let by_name: Vec<(String, u32)> = rank(&t, false);
    assert_eq!(
        by_name,
        vec![("Agent".to_owned(), 1), ("Bash".to_owned(), 2), ("Edit".to_owned(), 1), ("Write".to_owned(), 2)]
    );
}
