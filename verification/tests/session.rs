use stormglass::metrics::SubagentSplit;
use stormglass::output::{write_csv_header, write_csv_row};
use stormglass::session::{analyze_lines, ParseResult};

fn assistant(id: &str, ts: &str, usage: (u64, u64, u64, u64), block: &str) -> String {
    format!(
        r#"{{"type":"assistant","timestamp":"{}","sessionId":"sess-fixture-0001","isSidechain":false,"message":{{"id":"{}","model":"opus-4-8","stop_reason":"end_turn","usage":{{"input_tokens":{},"output_tokens":{},"cache_read_input_tokens":{},"cache_creation_input_tokens":{}}},"content":[{}]}}}}"#,
        ts, id, usage.0, usage.1, usage.2, usage.3, block
    )
}

fn tool(name: &str) -> String {
    format!(r#"{{"type":"tool_use","name":"{}","id":"t","input":{{}}}}"#, name)
}

fn thinking() -> String {
    r#"{"type":"thinking","thinking":"..."}"#.to_owned()
}

fn text() -> String {
    r#"{"type":"text","text":"ok"}"#.to_owned()
}

fn prompt(ts: &str, words: &str) -> String {
    format!(r#"{{"type":"user","timestamp":"{}","isMeta":false,"message":{{"content":"{}"}}}}"#, ts, words)
}

fn tool_result(ts: &str) -> String {
    format!(
        r#"{{"type":"user","timestamp":"{}","isMeta":false,"message":{{"content":[{{"type":"tool_result","tool_use_id":"t","content":"done"}}]}}}}"#,
        ts
    )
}

fn queue(ts: &str, op: &str, content: &str) -> String {
    format!(r#"{{"type":"queue-operation","timestamp":"{}","operation":"{}","content":"{}"}}"#, ts, op, content)
}

/// The sample session: twelve turns, one sidechain response, four typed
/// prompts, three tool results, two token-bearing queue operations and a
/// dequeue.
fn sample_session() -> Vec<String> {
    let ts = |m: u32, s: u32| format!("2026-05-29T10:{:02}:{:02}.000Z", m, s);
    vec![
        prompt(&ts(0, 0), "Hello, let's start..."),
        assistant("msg_turn01_aaaa", &ts(0, 10), (5000, 300, 0, 25000), &tool("Bash")),
        tool_result(&ts(0, 20)),
        assistant("msg_turn02_bbbb", &ts(1, 0), (8000, 450, 3000, 0), &thinking()),
        assistant("msg_turn02_bbbb", &ts(1, 0), (8000, 450, 3000, 0), &text()),
        assistant("msg_turn02_bbbb", &ts(1, 0), (8000, 450, 3000, 0), &tool("Read")),
        prompt(&ts(1, 30), "Can you analyze this file?"),
        assistant("msg_turn03_cccc", &ts(2, 0), (12000, 600, 5000, 1000), &tool("Bash")),
        assistant("msg_turn03_cccc", &ts(2, 0), (12000, 600, 5000, 1000), &tool("Write")),
        queue(&ts(2, 30), "enqueue", "<subagent_tokens>5000</subagent_tokens><tool_uses>3</tool_uses><duration_ms>12000</duration_ms>"),
        tool_result(&ts(2, 40)),
        assistant("msg_turn04_dddd", &ts(3, 0), (15000, 500, 8000, 0), &tool("Read")),
        r#"{"type":"assistant","isSidechain":true,"timestamp":"2026-05-29T10:03:30.000Z","message":{"id":"msg_sidechain_xxxx","model":"opus-4-8","usage":{"input_tokens":99999,"output_tokens":9999,"cache_read_input_tokens":9999,"cache_creation_input_tokens":9999},"content":[{"type":"text","text":"side"}]}}"#.to_owned(),
        assistant("msg_turn05_eeee", &ts(4, 0), (18000, 750, 10000, 500), &tool("Bash")),
        queue(&ts(4, 30), "dequeue", "task dequeued"),
        tool_result(&ts(4, 40)),
        assistant("msg_turn06_ffff", &ts(5, 0), (22000, 400, 14000, 0), &thinking()),
        assistant("msg_turn06_ffff", &ts(5, 0), (22000, 400, 14000, 0), &tool("Edit")),
        prompt(&ts(5, 30), "What do you think...?"),
        assistant("msg_turn07_gggg", &ts(6, 0), (25000, 800, 17000, 1000), &thinking()),
        assistant("msg_turn07_gggg", &ts(6, 0), (25000, 800, 17000, 1000), &text()),
        assistant("msg_turn07_gggg", &ts(6, 0), (25000, 800, 17000, 1000), &tool("Bash")),
        assistant("msg_turn07_gggg", &ts(6, 0), (25000, 800, 17000, 1000), &tool("Read")),
        queue(&ts(6, 30), "enqueue", "<subagent_tokens>8000</subagent_tokens><tool_uses>5</tool_uses><duration_ms>30000</duration_ms>"),
        String::new(),
        assistant("msg_turn08_hhhh", &ts(7, 0), (28000, 600, 20000, 0), &tool("Write")),
        assistant("msg_turn09_iiii", &ts(8, 0), (32000, 900, 24000, 500), &tool("Bash")),
        prompt(&ts(8, 30), "Please continue..."),
        assistant("msg_turn10_jjjj", &ts(9, 0), (35000, 500, 27000, 0), &tool("Edit")),
        "this line is not json".to_owned(),
        assistant("msg_turn11_kkkk", &ts(10, 0), (40000, 700, 30000, 1000), &tool("Read")),
        assistant("msg_turn12_llll", &ts(11, 0), (45000, 1200, 35000, 0), &tool("Bash")),
        assistant("msg_turn12_llll", &ts(11, 0), (45000, 1200, 35000, 0), &tool("Write")),
    ]
}

fn analyze(from_turn: u32) -> ParseResult {
    analyze_lines(&sample_session(), from_turn, SubagentSplit::default())
}

#[test]
fn test_empty_file_smoke() {
    let r = analyze_lines(&Vec::new(), 1, SubagentSplit::default());
    assert_eq!(r.summary.total_turns, 0);
    assert!(r.turns.is_empty());
}

#[test]
fn test_empty_file_json_stdout_is_valid_json() {
    let r = analyze_lines(&vec![String::new(), "   ".to_owned()], 1, SubagentSplit::default());
    assert_eq!(r.summary.total_turns, 0);
    assert_eq!(r.summary.total_input_tokens, 0);
    assert_eq!(r.summary.model, "");
    assert_eq!(r.summary.peak_burn_turn, 0);
}

#[test]
fn test_json_quiet_stdout_is_exactly_one_json_document() {
    let r = analyze(1);
    assert!(r.summary.total_turns > 0);
}

#[test]
fn test_total_turns() {
    assert_eq!(analyze(1).summary.total_turns, 12);
}

#[test]
fn test_turns_with_thinking() {
    assert_eq!(analyze(1).summary.turns_with_thinking, 3);
}

#[test]
fn test_thinking_ratio() {
    let s = analyze(1).summary;
    let ratio = s.turns_with_thinking as f64 / s.total_turns as f64;
    assert!((ratio - 0.25).abs() < 1e-9, "thinking_ratio should be 0.25, got {}", ratio);
}

#[test]
fn test_total_thinking_output() {
    assert_eq!(analyze(1).summary.total_thinking_output, 1_650);
}

#[test]
fn test_total_non_thinking_output() {
    assert_eq!(analyze(1).summary.total_non_thinking_output, 6_050);
}

#[test]
fn test_avg_thinking_output_per_turn() {
    let s = analyze(1).summary;
    let avg = s.total_thinking_output as f64 / s.turns_with_thinking as f64;
    assert!((avg - 550.0).abs() < 1e-9, "avg_thinking_output_per_turn should be 550.0, got {}", avg);
}

#[test]
fn test_subagent_count_d1_gate() {
    assert_eq!(analyze(1).summary.subagent_count, 2);
}

#[test]
fn test_subagent_tokens_d1_gate() {
    assert_eq!(analyze(1).summary.total_subagent_tokens, 13_000);
}

#[test]
fn test_user_turns_d2_gate() {
    assert_eq!(analyze(1).summary.user_turns, 4);
}

#[test]
fn test_total_input_tokens() {
    assert_eq!(analyze(1).summary.total_input_tokens, 285_000);
}

#[test]
fn test_total_output_tokens() {
    assert_eq!(analyze(1).summary.total_output_tokens, 7_700);
}

#[test]
fn test_total_cache_read() {
    assert_eq!(analyze(1).summary.total_cache_read, 193_000);
}

#[test]
fn test_total_cache_write() {
    assert_eq!(analyze(1).summary.total_cache_write, 29_000);
}

#[test]
fn test_from_turn_5_token_sums() {
    let s = analyze(5).summary;
    assert_eq!(s.total_turns, 8, "--from-turn 5: total_turns should be 8");
    assert_eq!(s.total_input_tokens, 245_000);
    assert_eq!(s.total_output_tokens, 5_850);
    assert_eq!(s.total_cache_read, 177_000);
    assert_eq!(s.total_cache_write, 3_000);
}

#[test]
fn test_from_turn_1_equals_full_session() {
    let full = analyze(0).summary;
    let from1 = analyze(1).summary;
    assert_eq!(full.total_turns, from1.total_turns);
    assert_eq!(full.total_input_tokens, from1.total_input_tokens);
    assert_eq!(full.total_output_tokens, from1.total_output_tokens);
    assert_eq!(full.total_cache_read, from1.total_cache_read);
    assert_eq!(full.total_cache_write, from1.total_cache_write);
    assert_eq!(full.from_turn, 1);
    assert_eq!(from1.from_turn, 1);
}

#[test]
fn test_from_turn_999_graceful() {
    let r = analyze(999);
    assert_eq!(r.summary.total_turns, 0);
    assert!(r.turns.is_empty());
}

#[test]
fn test_from_turn_5_burn_delta_first_turn() {
    let r = analyze(5);
    let mut csv = String::new();
    write_csv_header(&mut csv);
    for t in &r.turns {
        write_csv_row(t, "0.000000", "0.000000", &mut csv);
    }
    let mut lines = csv.lines();
    let header = lines.next().expect("CSV has no header");
    let cols: Vec<&str> = header.split(',').collect();
    let turn_col = cols.iter().position(|&c| c == "turn").expect("no 'turn' column in CSV");
    let burn_col = cols.iter().position(|&c| c == "burn_delta").expect("no 'burn_delta' column in CSV");
    let turn5_row = lines
        .find(|line| {
            let fields: Vec<&str> = line.splitn(turn_col + 2, ',').collect();
            fields.get(turn_col).map(|v| v.trim()) == Some("5")
        })
        .expect("turn 5 not found in CSV");
    let fields: Vec<&str> = turn5_row.split(',').collect();
    let burn_delta: i64 = fields
        .get(burn_col)
        .expect("burn_delta column missing in turn 5 row")
        .trim()
        .parse()
        .expect("burn_delta is not a valid i64");
    assert_ne!(burn_delta, 0);
    assert_eq!(burn_delta, 5500);
}

#[test]
fn test_sidechain_excluded() {
    let s = analyze(1).summary;
    assert_eq!(s.total_turns, 12);
    assert_eq!(s.total_input_tokens, 285_000);
}

// ── Further facts of the sample session ─────────────────────────────────────

#[test]
fn turns_are_numbered_and_grouped() {
    let r = analyze(1);
    let numbers: Vec<u32> = r.turns.iter().map(|t| t.turn).collect();
    assert_eq!(numbers, (1..=12).collect::<Vec<u32>>());
    let t2 = &r.turns[1];
    assert_eq!(t2.content_blocks, 3);
    assert_eq!(t2.thinking_block_count, 1);
    assert!(t2.has_thinking);
    assert_eq!(t2.tools_called, vec!["Read".to_owned()]);
    let t7 = &r.turns[6];
    assert_eq!(t7.content_blocks, 4);
    assert_eq!(t7.tool_count, 2);
    assert_eq!(t7.tools_called, vec!["Bash".to_owned(), "Read".to_owned()]);
    assert_eq!(t7.output_tokens, 800);
}

#[test]
fn context_burn_and_cumulative_context() {
    let r = analyze(1);
    let t1 = &r.turns[0];
    assert_eq!(t1.context_tokens, 30_000);
    assert_eq!(t1.burn_delta, 0);
    assert_eq!(t1.cumulative_context, 30_000);
    let t2 = &r.turns[1];
    assert_eq!(t2.context_tokens, 11_000);
    assert_eq!(t2.burn_delta, -19_000);
    assert_eq!(t2.cumulative_context, 41_000);
    for w in r.turns.windows(2) {
        assert_eq!(w[1].burn_delta, w[1].context_tokens as i64 - w[0].context_tokens as i64);
        assert_eq!(w[1].cumulative_context, w[0].cumulative_context + w[1].context_tokens);
    }
}

#[test]
fn elapsed_time_between_turns() {
    let r = analyze(1);
    assert_eq!(r.turns[0].elapsed_ms, 0);
    assert_eq!(r.turns[1].elapsed_ms, 50_000);
    assert_eq!(r.turns[2].elapsed_ms, 60_000);
}

#[test]
fn summary_rankings_and_bounds() {
    let s = analyze(1).summary;
    assert_eq!(s.session_id, "sess-fixture-0001");
    assert_eq!(s.model, "opus-4-8");
    assert_eq!(s.models_seen, vec!["opus-4-8".to_owned()]);
    assert_eq!(s.start_time, "2026-05-29T10:00:00.000Z");
    assert_eq!(s.end_time, "2026-05-29T10:11:00.000Z");
    assert_eq!(s.duration_ms, 660_000);
    let freq: Vec<(&str, u32)> = s.tool_frequency.iter().map(|(n, c)| (n.as_str(), *c)).collect();
    assert_eq!(freq, vec![("Bash", 6), ("Read", 4), ("Write", 3), ("Edit", 2)]);
    assert_eq!(s.top_tools, s.tool_frequency);
    assert_eq!(s.final_context_size, 80_000);
    // burn: context 30000 -> 80000 over turns 2..12
    assert_eq!(s.burn_sum_excl_first, 50_000);
    // largest rise: turn 3 (11000 -> 18000 = 7000)? turn 11: 71000 - 62000 = 9000
    assert_eq!(s.peak_burn_turn, 11);
    assert_eq!(s.peak_burn_value, 9_000);
}

#[test]
fn subagent_records_carry_the_last_timestamp() {
    let r = analyze(1);
    assert_eq!(r.subagents.len(), 2);
    assert_eq!(r.subagents[0].timestamp, "2026-05-29T10:02:30.000Z");
    assert_eq!(r.subagents[0].tokens, 5000);
    assert_eq!(r.subagents[0].tool_uses, 3);
    assert_eq!(r.subagents[0].duration_ms, 12000);
    assert_eq!(r.subagents[1].tokens, 8000);
    assert_eq!(r.summary.subagent_total_duration_ms, 42_000);
}

#[test]
fn slice_keeps_earlier_turns_out_of_the_summary() {
    let r = analyze(5);
    assert_eq!(r.turns.len(), 8);
    assert_eq!(r.turns[0].turn, 5);
    assert_eq!(r.summary.from_turn, 5);
    assert_eq!(r.summary.turns_with_thinking, 2);
    // session-wide facts stay whole
    assert_eq!(r.summary.user_turns, 4);
    assert_eq!(r.summary.subagent_count, 2);
}

#[test]
fn split_is_passed_through() {
    let mut split = SubagentSplit::default();
    split.input = 10;
    split.output = 20;
    split.cache_read = 30;
    split.cache_write = 40;
    split.agent_file_count = 2;
    let s = analyze_lines(&sample_session(), 1, split).summary;
    assert_eq!(s.subagent_input_tokens, 10);
    assert_eq!(s.subagent_output_tokens, 20);
    assert_eq!(s.subagent_cache_read_tokens, 30);
    assert_eq!(s.subagent_cache_write_tokens, 40);
    assert_eq!(s.subagent_agent_file_count, 2);
    assert_eq!(s.subagent_usage_total_tokens, 100);
}

#[test]
fn summary_totals_are_sums_over_the_reported_turns() {
    for from in [1u32, 5, 12, 13] {
        let r = analyze(from);
        let s = &r.summary;
        assert_eq!(s.total_turns as usize, r.turns.len());
        assert_eq!(s.total_input_tokens, r.turns.iter().map(|t| t.input_tokens).sum::<u64>());
        assert_eq!(s.total_output_tokens, r.turns.iter().map(|t| t.output_tokens).sum::<u64>());
        assert_eq!(s.total_cache_read, r.turns.iter().map(|t| t.cache_read_tokens).sum::<u64>());
        assert_eq!(s.total_cache_write, r.turns.iter().map(|t| t.cache_write_tokens).sum::<u64>());
        assert_eq!(s.turns_with_thinking as usize, r.turns.iter().filter(|t| t.has_thinking).count());
        assert_eq!(
            s.total_thinking_output,
            r.turns.iter().filter(|t| t.has_thinking).map(|t| t.output_tokens).sum::<u64>()
        );
        assert_eq!(s.final_context_size, r.turns.last().map_or(0, |t| t.context_tokens));
    }
}

#[test]
fn inserted_sidechain_lines_change_no_count() {
    let plain = analyze(1);
    let mut lines = sample_session();
    let side = r#"{"type":"assistant","isSidechain":true,"message":{"id":"msg_sc","usage":{"input_tokens":99999}}}"#;
    lines.insert(5, side.to_owned());
    lines.insert(0, side.to_owned());
    lines.push(side.to_owned());
    let r = analyze_lines(&lines, 1, SubagentSplit::default());
    assert_eq!(r.turns.len(), plain.turns.len());
    for (a, b) in r.turns.iter().zip(plain.turns.iter()) {
        assert_eq!((a.turn, a.input_tokens, a.output_tokens, a.burn_delta), (b.turn, b.input_tokens, b.output_tokens, b.burn_delta));
    }
    assert_eq!(r.summary.total_turns, 12);
    assert_eq!(r.summary.total_input_tokens, 285_000);
    assert_eq!(r.summary.user_turns, plain.summary.user_turns);
    assert_eq!(r.summary.subagent_count, plain.summary.subagent_count);
}
