use stormglass::metrics::{SessionSummary, SubagentSplit};
use stormglass::report::{
    average_burn, char_prefix, comparison_cells, comparison_header, comparison_table, human_report,
    mixed_session_note, peak_tools_text, render_table, rounded_seconds, top_tool_lines, whole_seconds,
};
use stormglass::session::{analyze_lines, ParseResult};
use stormglass::text::commafy;

fn assistant(session: &str, id: &str, model: &str, ts: &str, input: u64, output: u64, block: &str) -> String {
    format!(
        r#"{{"type":"assistant","timestamp":"{}","sessionId":"{}","message":{{"id":"{}","model":"{}","usage":{{"input_tokens":{},"output_tokens":{},"cache_read_input_tokens":0,"cache_creation_input_tokens":0}},"content":[{}]}}}}"#,
        ts, session, id, model, input, output, block
    )
}

fn tool(name: &str) -> String {
    format!(r#"{{"type":"tool_use","name":"{}","input":{{}}}}"#, name)
}

fn analyze_text(lines: &[String]) -> ParseResult {
    analyze_lines(&lines.to_vec(), 1, SubagentSplit::default())
}

/// Three turns on two models; the session id's eighth character is two bytes long.
fn mixed_session() -> ParseResult {
    let sid = "aaaaaaa\u{e9}bbbb";
    analyze_text(&[
        r#"{"type":"user","timestamp":"2026-05-29T10:00:00.000Z","message":{"content":"go"}}"#.to_owned(),
        assistant(sid, "m1", "alpha", "2026-05-29T10:00:00.000Z", 100, 10, &tool("Bash")),
        assistant(sid, "m2", "beta", "2026-05-29T10:00:30.000Z", 300, 20, &tool("Bash")),
        assistant(sid, "m2", "beta", "2026-05-29T10:00:30.000Z", 300, 20, &tool("Read")),
        assistant(sid, "m3", "alpha", "2026-05-29T10:01:05.000Z", 250, 5, r#"{"type":"text","text":"done"}"#),
    ])
}

#[test]
fn f1_multibyte_session_id_analyze() {
    let r = mixed_session();
    let lines = human_report(&r.summary, &r.turns, "0.0");
    assert_eq!(lines[0], "stormglass / Session: aaaaaaa\u{e9} (alpha)");
}

#[test]
fn f1_multibyte_session_id_compare() {
    let r = mixed_session();
    assert_eq!(comparison_header("s.jsonl", &r.summary.session_id), "s.jsonl (aaaaaaa\u{e9})");
    assert_eq!(comparison_header("s.jsonl", ""), "s.jsonl");
    assert_eq!(comparison_header("s.jsonl", "abc"), "s.jsonl (abc)");
}

#[test]
fn f3_token_sum_overflow_saturates() {
    let r = analyze_text(&[
        assistant("sess1234", "m1", "x", "2026-05-29T10:00:00.000Z", u64::MAX, 1, r#"{"type":"text","text":"h"}"#),
        assistant("sess1234", "m2", "x", "2026-05-29T10:00:01.000Z", 5, 1, r#"{"type":"text","text":"h"}"#),
    ]);
    assert_eq!(r.summary.total_input_tokens, u64::MAX);
    assert_eq!(r.turns[0].context_tokens, u64::MAX);
    assert_eq!(r.turns[1].cumulative_context, u64::MAX);
    assert_eq!(r.turns[1].burn_delta, i64::MIN);
}

#[test]
fn human_report_lines() {
    let r = mixed_session();
    let lines = human_report(&r.summary, &r.turns, "0.0");
    let expected: Vec<String> = vec![
        "stormglass / Session: aaaaaaa\u{e9} (alpha)".to_owned(),
        "mixed session: alpha (2), beta (1)".to_owned(),
        String::new(),
        "Duration: 1m 5s  |  3 turns  |  1 user prompts".to_owned(),
        String::new(),
        "Tokens".to_owned(),
        format!("  Input:    {:>12}  (cache read: {} / cache write: {})", "650", "0", "0"),
        format!("  Output:   {:>12}", "35"),
        String::new(),
        "Burn".to_owned(),
        "  Avg per turn:   75 input tokens".to_owned(),
        "  Peak:           turn 2 \u{2014} 200 tokens  (Bash x1, Read x1)".to_owned(),
        "  Final context:  250 tokens".to_owned(),
        String::new(),
        "Thinking".to_owned(),
        "  Turns with thinking: 0/3  (0.0%)".to_owned(),
        String::new(),
        "Tools (top 5)".to_owned(),
        format!("  {:<5}  {}", "Bash", "2"),
        format!("  {:<5}  {}", "Read", "1"),
    ];
    assert_eq!(lines, expected);
}

#[test]
fn human_report_with_subagents_and_no_tools() {
    let r = analyze_text(&[
        assistant("s", "m1", "x", "2026-05-29T10:00:00.000Z", 2_000_000, 7, r#"{"type":"thinking","thinking":"."}"#),
        r#"{"type":"queue-operation","content":"<subagent_tokens>1234567</subagent_tokens>"}"#.to_owned(),
    ]);
    let lines = human_report(&r.summary, &r.turns, "100.0");
    assert_eq!(lines[0], "stormglass / Session: s (x)");
    assert_eq!(lines[1], "");
    assert_eq!(lines[2], "Duration: 0m 0s  |  1 turns  |  0 user prompts");
    assert_eq!(lines[5], format!("  Input:    {:>12}  (cache read: 0 / cache write: 0)", "2,000,000"));
    assert_eq!(lines[7], format!("  Subagent: {:>12}  (1 tasks)", "1,234,567"));
    assert_eq!(lines[10], "  Avg per turn:   0 input tokens");
    assert_eq!(lines[11], "  Peak:           turn 1 \u{2014} 0 tokens");
    assert_eq!(lines[15], "  Turns with thinking: 1/1  (100.0%)");
    assert_eq!(lines.len(), 16);
}

#[test]
fn mixed_note_only_for_several_models() {
    let r = mixed_session();
    assert_eq!(
        mixed_session_note(&r.summary.models_seen, &r.turns),
        Some("mixed session: alpha (2), beta (1)".to_owned())
    );
    assert_eq!(mixed_session_note(&vec!["alpha".to_owned()], &r.turns), None);
    assert_eq!(mixed_session_note(&Vec::new(), &r.turns), None);
}

#[test]
fn mixed_note_sorts_labels_as_text() {
    let r = analyze_text(&[
        assistant("s", "m1", "b", "2026-05-29T10:00:00.000Z", 1, 1, &tool("Bash")),
        assistant("s", "m2", "a", "2026-05-29T10:00:01.000Z", 1, 1, &tool("Bash")),
        assistant("s", "m3", "b", "2026-05-29T10:00:02.000Z", 1, 1, &tool("Bash")),
        assistant("s", "m4", "a b", "2026-05-29T10:00:03.000Z", 1, 1, &tool("Bash")),
    ]);
    assert_eq!(r.summary.model, "b");
    assert_eq!(
        mixed_session_note(&r.summary.models_seen, &r.turns),
        Some("mixed session: a (1), a b (1), b (2)".to_owned())
    );
}

#[test]
fn peak_tools_counts_in_order_of_first_call() {
    let r = analyze_text(&[
        assistant("s", "m1", "x", "2026-05-29T10:00:00.000Z", 1, 1, &tool("Bash")),
        assistant("s", "m2", "x", "2026-05-29T10:00:01.000Z", 9, 1, &tool("Write")),
        assistant("s", "m2", "x", "2026-05-29T10:00:01.000Z", 9, 1, &tool("Bash")),
        assistant("s", "m2", "x", "2026-05-29T10:00:01.000Z", 9, 1, &tool("Write")),
    ]);
    assert_eq!(r.summary.peak_burn_turn, 2);
    assert_eq!(peak_tools_text(&r.turns, 2), "  (Write x2, Bash x1)");
    assert_eq!(peak_tools_text(&r.turns, 7), "");
    let r = analyze_text(&[assistant("s", "m1", "x", "2026-05-29T10:00:00.000Z", 1, 1, r#"{"type":"text","text":"h"}"#)]);
    assert_eq!(peak_tools_text(&r.turns, 1), "");
}

#[test]
fn tool_lines_pad_to_the_longest_name() {
    let top = vec![("Bash".to_owned(), 1234u32), ("MultiEdit".to_owned(), 7u32)];
    assert_eq!(
        top_tool_lines(&top),
        vec!["  Bash        1,234".to_owned(), "  MultiEdit   7".to_owned()]
    );
    assert!(top_tool_lines(&Vec::new()).is_empty());
}

#[test]
fn whole_numbers_for_display() {
    assert_eq!(whole_seconds(-5), 0);
    assert_eq!(whole_seconds(0), 0);
    assert_eq!(whole_seconds(1999), 1);
    assert_eq!(whole_seconds(i128::MAX), u64::MAX);
    assert_eq!(rounded_seconds(-1), 0);
    assert_eq!(rounded_seconds(1499), 1);
    assert_eq!(rounded_seconds(1500), 2);
    assert_eq!(rounded_seconds(65_000), 65);
    assert_eq!(average_burn(150, 3), 75);
    assert_eq!(average_burn(151, 3), 75);
    assert_eq!(average_burn(-10, 3), 0);
    assert_eq!(average_burn(100, 1), 0);
    assert_eq!(average_burn(100, 0), 0);
}

#[test]
fn char_prefix_counts_characters() {
    assert_eq!(char_prefix("h\u{e9}llo", 2), "h\u{e9}");
    assert_eq!(char_prefix("abc", 8), "abc");
    assert_eq!(char_prefix("", 3), "");
}

/// The comparison table as the column layout lays it out, written out here
/// with std's formatting.
fn expected_table(labels: &[&str], headers: &[String], columns: &[Vec<String>]) -> Vec<String> {
    let label_width = labels.iter().map(|l| l.len()).max().unwrap_or(0);
    let widths: Vec<usize> = (0..headers.len())
        .map(|i| headers[i].len().max(columns[i].iter().map(|v| v.len()).max().unwrap_or(0)))
        .collect();
    let mut out = Vec::new();
    let mut head = format!("{:width$}", "", width = label_width + 2);
    for (i, h) in headers.iter().enumerate() {
        head.push_str(&format!("  {:width$}", h, width = widths[i]));
    }
    out.push(head);
    out.push("-".repeat(label_width + 2 + widths.iter().map(|w| w + 2).sum::<usize>()));
    for (r, label) in labels.iter().enumerate() {
        let mut line = format!("{:width$}  ", label, width = label_width);
        for (i, col) in columns.iter().enumerate() {
            line.push_str(&format!("{:>width$}  ", col[r], width = widths[i]));
        }
        out.push(line.trim_end().to_owned());
    }
    out
}

const LABELS: [&str; 13] = [
    "Model", "Duration", "Turns", "Total input", "Total output", "Cache read", "Cache write",
    "Avg burn/turn", "Peak burn", "Final context", "Thinking ratio", "Subagent tokens", "Subagent tasks",
];

#[test]
fn comparison_table_layout() {
    let a = mixed_session().summary;
    let b = analyze_text(&[
        assistant("0123456789abcdef", "m1", "gamma-long-model-name", "2026-05-29T10:00:00.000Z", 1_500_000, 42, &tool("Bash")),
        assistant("0123456789abcdef", "m2", "gamma-long-model-name", "2026-05-29T11:02:00.000Z", 1_400_000, 8, &tool("Bash")),
    ])
    .summary;
    let column = |s: &SessionSummary| -> Vec<String> {
        comparison_cells(
            s,
            &stormglass::output::format_duration(rounded_seconds(s.duration_ms)),
            average_burn(s.burn_sum_excl_first, s.total_turns),
            "0.0%",
        )
    };
    let ca = column(&a);
    let cb = column(&b);
    assert_eq!(
        ca,
        vec!["alpha", "1m 5s", "3", "650", "35", "0", "0", "75", "200 (t2)", "250", "0.0%", "0", "0"]
            .into_iter()
            .map(|s| s.to_owned())
            .collect::<Vec<String>>()
    );
    assert_eq!(cb[1], "1h 2m");
    assert_eq!(cb[3], "2,900,000");
    assert_eq!(cb[7], "0");
    assert_eq!(cb[8], "0 (t1)");
    let headers = vec![
        comparison_header("a.jsonl", &a.session_id),
        comparison_header("b.jsonl", &b.session_id),
    ];
    assert_eq!(headers[1], "b.jsonl (01234567)");
    let columns = vec![ca, cb];
    let got = comparison_table(&headers, &columns).unwrap();
    assert_eq!(got, expected_table(&LABELS, &headers, &columns));
    assert_eq!(got.len(), 15);
}

#[test]
fn render_table_of_no_sessions() {
    let labels: Vec<String> = vec!["A".to_owned(), "Long label".to_owned()];
    let rows: Vec<Vec<String>> = vec![Vec::new(), Vec::new()];
    let got = render_table(&labels, &Vec::new(), &rows).unwrap();
    assert_eq!(got, vec!["            ".to_owned(), "------------".to_owned(), "A".to_owned(), "Long label".to_owned()]);
}

#[test]
fn commafy_groups_by_thousands() {
    assert_eq!(commafy(0), "0");
    assert_eq!(commafy(999), "999");
    assert_eq!(commafy(1000), "1,000");
    assert_eq!(commafy(1_234_567), "1,234,567");
    assert_eq!(commafy(u64::MAX), "18,446,744,073,709,551,615");
}

#[test]
fn human_report_shows_the_agent_file_split() {
    let lines = vec![assistant("4ef9278c-aaaa", "m1", "opus-4-6", "2026-05-29T10:00:00.000Z", 10, 1, &tool("Bash"))];
    let mut split = SubagentSplit::default();
    split.input = 892_441;
    split.output = 41_208;
    split.cache_read = 8_204_553;
    split.cache_write = 932_411;
    split.agent_file_count = 24;
    let r = analyze_lines(&lines, 1, split);
    let lines = human_report(&r.summary, &r.turns, "0.0");
    assert_eq!(lines[0], "stormglass / Session: 4ef9278c (opus-4-6)");
    let at = lines.iter().position(|l| l == "  Subagent (agent files):").unwrap();
    assert_eq!(
        lines[at..at + 6].to_vec(),
        vec![
            "  Subagent (agent files):".to_owned(),
            "    input:            892,441".to_owned(),
            "    output:            41,208".to_owned(),
            "    cache read:     8,204,553".to_owned(),
            "    cache write:      932,411".to_owned(),
            "    (24 agent transcripts)".to_owned(),
        ]
    );
    assert_eq!(lines[at + 6], "");
    assert_eq!(lines[at + 7], "Burn");
}
