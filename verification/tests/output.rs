use stormglass::metrics::Turn;
use stormglass::output::{format_duration, write_csv_header, write_csv_row};

fn turn() -> Turn {
    Turn {
        turn: 3,
        timestamp: "2026-05-29T10:02:00.000Z".to_owned(),
        model: "opus-4-8".to_owned(),
        input_tokens: 12000,
        output_tokens: 600,
        cache_read_tokens: 5000,
        cache_write_tokens: 1000,
        context_tokens: 18000,
        has_thinking: false,
        thinking_block_count: 0,
        content_blocks: 2,
        tools_called: vec!["Bash".to_owned(), "Write".to_owned()],
        tool_count: 2,
        stop_reason: "end_turn".to_owned(),
        cumulative_context: 59000,
        burn_delta: -7000,
        skill: String::new(),
        elapsed_ms: 60000,
    }
}

#[test]
fn csv_header_columns() {
    let mut out = String::new();
    write_csv_header(&mut out);
    assert_eq!(
        out,
        "turn,timestamp,model,input_tokens,output_tokens,cache_read,cache_write,context_tokens,has_thinking,thinking_block_count,content_blocks,tool_count,tools_called,stop_reason,cumulative_context,burn_delta,skill,elapsed_sec,tokens_per_sec\n"
    );
    assert_eq!(out.trim_end().split(',').count(), 19);
}

#[test]
fn csv_row_cells() {
    let mut out = "x".to_owned();
    write_csv_row(&turn(), "60.000000", "10.000000", &mut out);
    assert_eq!(
        out,
        "x3,2026-05-29T10:02:00.000Z,opus-4-8,12000,600,5000,1000,18000,false,0,2,2,Bash;Write,end_turn,59000,-7000,,60.000000,10.000000\n"
    );
}

#[test]
fn csv_cells_with_commas_are_quoted() {
    let mut t = turn();
    t.model = "a,b".to_owned();
    t.stop_reason = "say \"hi\", then stop".to_owned();
    t.skill = "no comma \"here\"".to_owned();
    t.tools_called = Vec::new();
    t.has_thinking = true;
    let mut out = String::new();
    write_csv_row(&t, "0.000000", "0.000000", &mut out);
    assert_eq!(
        out,
        "3,2026-05-29T10:02:00.000Z,\"a,b\",12000,600,5000,1000,18000,true,0,2,2,,\"say \"\"hi\"\", then stop\",59000,-7000,no comma \"here\",0.000000,0.000000\n"
    );
}

#[test]
fn durations() {
    assert_eq!(format_duration(0), "0m 0s");
    assert_eq!(format_duration(59), "0m 59s");
    assert_eq!(format_duration(3599), "59m 59s");
    assert_eq!(format_duration(3600), "1h 0m");
    assert_eq!(format_duration(7384), "2h 3m");
    assert_eq!(format_duration(u64::MAX), "5124095576030431h 0m");
}
