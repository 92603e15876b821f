//! Text output: durations, per-turn CSV.
use vstd::prelude::*;
use crate::metrics::{Turn, TurnView};
use crate::text::{
    decimal, signed_decimal, push_char, push_str, push_decimal, push_signed_decimal, chars_of,
    contains_char,
};

pub use crate::text::commafy;

verus! {

/// `Xh Ym` for an hour or more, else `Ym Zs`.
pub open spec fn duration_text(total_secs: u64) -> Seq<char> {
    if total_secs >= 3600 {
        decimal((total_secs / 3600) as nat) + "h "@ + decimal(((total_secs % 3600) / 60) as nat) + "m"@
    } else {
        decimal((total_secs / 60) as nat) + "m "@ + decimal((total_secs % 60) as nat) + "s"@
    }
}

/// Formats a duration given in whole seconds: `"2h 5m"`, or `"4m 10s"` under
/// an hour.
pub fn format_duration(total_secs: u64) -> (r: String)
    ensures
        r@ == duration_text(total_secs),
{
    let mut out = String::new();
    if total_secs >= 3600 {
        push_decimal(&mut out, total_secs / 3600);
        push_str(&mut out, "h ");
        push_decimal(&mut out, (total_secs % 3600) / 60);
        push_str(&mut out, "m");
    } else {
        push_decimal(&mut out, total_secs / 60);
        push_str(&mut out, "m ");
        push_decimal(&mut out, total_secs % 60);
        push_str(&mut out, "s");
    }
    assert(out@ =~= duration_text(total_secs));
    out
}

/// The CSV header line (without its line break).
pub open spec fn csv_header_text() -> Seq<char> {
    "turn,timestamp,model,input_tokens,output_tokens,cache_read,cache_write,context_tokens,has_thinking,thinking_block_count,content_blocks,tool_count,tools_called,stop_reason,cumulative_context,burn_delta,skill,elapsed_sec,tokens_per_sec"@
}

/// Appends the CSV header line.
pub fn write_csv_header(out: &mut String)
    ensures
        final(out)@ == old(out)@ + csv_header_text() + seq!['\n'],
{
    push_str(
        out,
        "turn,timestamp,model,input_tokens,output_tokens,cache_read,cache_write,context_tokens,has_thinking,thinking_block_count,content_blocks,tool_count,tools_called,stop_reason,cumulative_context,burn_delta,skill,elapsed_sec,tokens_per_sec",
    );
    push_char(out, '\n');
}

/// `s` with each `"` doubled.
pub open spec fn double_quotes(s: Seq<char>) -> Seq<char>
    decreases s.len(),
{
    if s.len() == 0 {
        s
    } else if s.last() == '"' {
        double_quotes(s.drop_last()) + seq!['"', '"']
    } else {
        double_quotes(s.drop_last()).push(s.last())
    }
}

/// A text cell: quoted (inner quotes doubled) when it holds a comma.
pub open spec fn csv_cell(s: Seq<char>) -> Seq<char> {
    if s.contains(',') {
        seq!['"'] + double_quotes(s) + seq!['"']
    } else {
        s
    }
}

/// The names joined with `;`.
pub open spec fn join_semicolon(names: Seq<Seq<char>>) -> Seq<char>
    decreases names.len(),
{
    if names.len() == 0 {
        Seq::empty()
    } else if names.len() == 1 {
        names[0]
    } else {
        join_semicolon(names.drop_last()) + seq![';'] + names.last()
    }
}

pub open spec fn bool_text(b: bool) -> Seq<char> {
    if b { "true"@ } else { "false"@ }
}

/// The row's leading cells: turn, timestamp, model.
pub open spec fn row_head(t: TurnView) -> Seq<char> {
    decimal(t.turn as nat) + seq![','] + csv_cell(t.timestamp) + seq![','] + csv_cell(t.model) + seq![',']
}

/// The token cells: input, output, cache read, cache write, context.
pub open spec fn row_tokens(t: TurnView) -> Seq<char> {
    decimal(t.input_tokens as nat) + seq![','] + decimal(t.output_tokens as nat) + seq![',']
        + decimal(t.cache_read_tokens as nat) + seq![','] + decimal(t.cache_write_tokens as nat) + seq![',']
        + decimal(t.context_tokens as nat) + seq![',']
}

/// The content cells: thinking flag, thinking blocks, blocks, tool count, tools.
pub open spec fn row_content(t: TurnView) -> Seq<char> {
    bool_text(t.has_thinking) + seq![','] + decimal(t.thinking_block_count as nat) + seq![',']
        + decimal(t.content_blocks as nat) + seq![','] + decimal(t.tool_count as nat) + seq![',']
        + join_semicolon(t.tools_called) + seq![',']
}

/// The trailing cells: stop reason, cumulative context, burn delta, skill, rates.
pub open spec fn row_tail(t: TurnView, elapsed_sec: Seq<char>, tokens_per_sec: Seq<char>) -> Seq<char> {
    csv_cell(t.stop_reason) + seq![','] + decimal(t.cumulative_context as nat) + seq![',']
        + signed_decimal(t.burn_delta as int) + seq![','] + csv_cell(t.skill) + seq![',']
        + elapsed_sec + seq![','] + tokens_per_sec
}

/// The CSV row of a turn (column order of the header); the two rate columns
/// come already formatted.
pub open spec fn csv_row_text(t: TurnView, elapsed_sec: Seq<char>, tokens_per_sec: Seq<char>) -> Seq<char> {
    row_head(t) + row_tokens(t) + row_content(t) + row_tail(t, elapsed_sec, tokens_per_sec)
}

fn push_cell(out: &mut String, s: &str)
    ensures
        final(out)@ == old(out)@ + csv_cell(s@),
{
    if contains_char(s, ',') {
        push_char(out, '"');
        let cs = chars_of(s);
        let ghost start = out@;
        let mut i: usize = 0;
        while i < cs.len()
            invariant
                0 <= i <= cs.len(),
                cs@ == s@,
                out@ == start + double_quotes(cs@.take(i as int)),
            decreases cs.len() - i,
        {
            assert(cs@.take(i + 1).drop_last() =~= cs@.take(i as int));
            assert(cs@.take(i + 1).last() == cs@[i as int]);
            if cs[i] == '"' {
                push_char(out, '"');
                push_char(out, '"');
                assert(out@ =~= start + double_quotes(cs@.take(i + 1)));
            } else {
                push_char(out, cs[i]);
                assert(out@ =~= start + double_quotes(cs@.take(i + 1)));
            }
            i = i + 1;
        }
        assert(cs@.take(cs.len() as int) =~= s@);
        push_char(out, '"');
        assert(out@ =~= old(out)@ + csv_cell(s@));
    } else {
        push_str(out, s);
    }
}

fn push_joined(out: &mut String, names: &Vec<String>)
    ensures
        final(out)@ == old(out)@ + join_semicolon(names.deep_view()),
{
    let ghost start = out@;
    let mut i: usize = 0;
    while i < names.len()
        invariant
            0 <= i <= names.len(),
            out@ == start + join_semicolon(names.deep_view().take(i as int)),
        decreases names.len() - i,
    {
        let ghost h = names.deep_view().take(i + 1);
        assert(h.drop_last() =~= names.deep_view().take(i as int));
        assert(h.last() == names[i as int]@);
        if i > 0 {
            push_char(out, ';');
        }
        push_str(out, names[i].as_str());
        if i == 0 {
            assert(h.len() == 1);
            assert(out@ =~= start + join_semicolon(h));
        } else {
            assert(out@ =~= start + join_semicolon(h));
        }
        i = i + 1;
    }
    assert(names.deep_view().take(names.len() as int) =~= names.deep_view());
}

fn push_bool(out: &mut String, b: bool)
    ensures
        final(out)@ == old(out)@ + bool_text(b),
{
    if b {
        push_str(out, "true");
    } else {
        push_str(out, "false");
    }
}

fn push_row_head(out: &mut String, t: &Turn)
    ensures
        final(out)@ == old(out)@ + row_head(t@),
{
    push_decimal(out, t.turn as u64);
    push_char(out, ',');
    push_cell(out, t.timestamp.as_str());
    push_char(out, ',');
    push_cell(out, t.model.as_str());
    push_char(out, ',');
    assert(final(out)@ =~= old(out)@ + row_head(t@));
}

fn push_row_tokens(out: &mut String, t: &Turn)
    ensures
        final(out)@ == old(out)@ + row_tokens(t@),
{
    push_decimal(out, t.input_tokens);
    push_char(out, ',');
    push_decimal(out, t.output_tokens);
    push_char(out, ',');
    push_decimal(out, t.cache_read_tokens);
    push_char(out, ',');
    push_decimal(out, t.cache_write_tokens);
    push_char(out, ',');
    push_decimal(out, t.context_tokens);
    push_char(out, ',');
    assert(final(out)@ =~= old(out)@ + row_tokens(t@));
}

fn push_row_content(out: &mut String, t: &Turn)
    ensures
        final(out)@ == old(out)@ + row_content(t@),
{
    push_bool(out, t.has_thinking);
    push_char(out, ',');
    push_decimal(out, t.thinking_block_count as u64);
    push_char(out, ',');
    push_decimal(out, t.content_blocks as u64);
    push_char(out, ',');
    push_decimal(out, t.tool_count as u64);
    push_char(out, ',');
    push_joined(out, &t.tools_called);
    push_char(out, ',');
    assert(final(out)@ =~= old(out)@ + row_content(t@));
}

fn push_row_tail(out: &mut String, t: &Turn, elapsed_sec: &str, tokens_per_sec: &str)
    ensures
        final(out)@ == old(out)@ + row_tail(t@, elapsed_sec@, tokens_per_sec@),
{
    push_cell(out, t.stop_reason.as_str());
    push_char(out, ',');
    push_decimal(out, t.cumulative_context);
    push_char(out, ',');
    push_signed_decimal(out, t.burn_delta);
    push_char(out, ',');
    push_cell(out, t.skill.as_str());
    push_char(out, ',');
    push_str(out, elapsed_sec);
    push_char(out, ',');
    push_str(out, tokens_per_sec);
    assert(final(out)@ =~= old(out)@ + row_tail(t@, elapsed_sec@, tokens_per_sec@));
}

/// Appends the CSV row of `t` and a line break. `elapsed_sec` and
/// `tokens_per_sec` are the two rate columns, already formatted.
pub fn write_csv_row(t: &Turn, elapsed_sec: &str, tokens_per_sec: &str, out: &mut String)
    ensures
        final(out)@ == old(out)@ + csv_row_text(t@, elapsed_sec@, tokens_per_sec@) + seq!['\n'],
{
    push_row_head(out, t);
    push_row_tokens(out, t);
    push_row_content(out, t);
    push_row_tail(out, t, elapsed_sec, tokens_per_sec);
    push_char(out, '\n');
    assert(final(out)@ =~= old(out)@ + csv_row_text(t@, elapsed_sec@, tokens_per_sec@) + seq!['\n']);
}

} // verus!
