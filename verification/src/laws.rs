//! Properties of the analysis as a whole, proved over the specifications of
//! the functions they relate.
use vstd::prelude::*;
use crate::agents::{AgentFileAggregator, agent_step, agent_usage_line, merge_usage, ids_unique, Groups};
use crate::json::{JsonValue, str_in, bool_in, get_in};
use crate::metrics::{
    TurnView, SummaryView, SessionSummary, SubagentSplit, record_turn, empty_summary, sat_add, burn_delta_of, Usage,
    ranks_tally, lemma_ranks_tally_unique, lemma_top_name_unique, lemma_record_sums,
};
use crate::parse::{
    AccView, AssistantView, EntryView, entry_of, extend_group, open_group, is_tool_result, has_tool_result,
};
use crate::session::{
    SessionParser, SessionView, RecordView, feed_step, feed_all, finish_step, initial_session, note_timestamp,
    summary_of, subagent_record_of, take_assistant, ParseResult, analysis_matches, turn_views, record_views,
    in_slice, lemma_in_slice_numbered,
};
use crate::text::{tagged_u64, decimal, group_thousands, signed_decimal};
use crate::output::{csv_header_text, csv_row_text, csv_cell, bool_text, join_semicolon, row_head, row_tokens, row_content, row_tail};
use crate::report::{comparison_label_texts, comparison_cell_texts, report_body_lines, tokens_section, pad_start};

verus! {

// ── Line classification ─────────────────────────────────────────────────────

/// A sidechain line is never a turn, a prompt or a subagent record: feeding it
/// changes nothing but the timestamps seen.
pub proof fn law_sidechain_lines_only_move_time(s: SessionView, v: JsonValue)
    requires
        bool_in(Some(v), "isSidechain"@) == Some(true),
    ensures
        entry_of(v) == EntryView::Skip,
        feed_step(s, v) == note_timestamp(s, v),
{
}

/// A user line whose content is a list holding a tool result is not a prompt.
pub proof fn law_tool_results_are_not_prompts(v: JsonValue)
    requires
        str_in(Some(v), "type"@) == Some("user"@),
        get_in(v.spec_get("message"@), "content"@) matches Some(c) && c.spec_as_array() matches Some(a)
            && has_tool_result(a),
    ensures
        entry_of(v) != EntryView::UserHuman,
{
}

/// A non-sidechain user line whose content is a string is always a prompt,
/// meta or not.
pub proof fn law_string_content_is_a_prompt(v: JsonValue)
    requires
        str_in(Some(v), "type"@) == Some("user"@),
        bool_in(Some(v), "isSidechain"@) != Some(true),
        get_in(v.spec_get("message"@), "content"@) matches Some(c) && c.spec_as_str() is Some,
    ensures
        entry_of(v) == EntryView::UserHuman,
{
    assert("user"@ != "assistant"@) by {
        reveal_strlit("user");
        reveal_strlit("assistant");
        assert("user"@.len() == 4);
        assert("assistant"@.len() == 9);
    }
}

/// A queue operation makes a subagent record exactly when its content reports
/// `subagent_tokens`; other queue operations (dequeue, removal, token-less
/// enqueue) leave the records alone.
pub proof fn law_only_token_reports_make_records(s: SessionView, v: JsonValue, content: Seq<char>)
    requires
        entry_of(v) == EntryView::Subagent(content),
    ensures
        tagged_u64(content, "subagent_tokens"@) is Some ==> feed_step(s, v).subagents.len() == s.subagents.len() + 1,
        tagged_u64(content, "subagent_tokens"@) is None ==> feed_step(s, v).subagents == s.subagents,
{
}

/// Whether a line is flagged `isSidechain: true`.
pub open spec fn is_sidechain_line(v: JsonValue) -> bool {
    bool_in(Some(v), "isSidechain"@) == Some(true)
}

/// The lines without the sidechain lines, in order.
pub open spec fn without_sidechains(vs: Seq<JsonValue>) -> Seq<JsonValue>
    decreases vs.len(),
{
    if vs.len() == 0 {
        vs
    } else if is_sidechain_line(vs.last()) {
        without_sidechains(vs.drop_last())
    } else {
        without_sidechains(vs.drop_last()).push(vs.last())
    }
}

/// The state with what line timestamps set cleared: the start, end and last
/// timestamps, and the timestamps of the subagent records.
pub open spec fn untimed(s: SessionView) -> SessionView {
    SessionView {
        start_time: Seq::empty(),
        end_time: Seq::empty(),
        last_timestamp: Seq::empty(),
        subagents: s.subagents.map_values(|r: RecordView| RecordView { timestamp: Seq::empty(), ..r }),
        ..s
    }
}

proof fn lemma_untimed_note(s: SessionView, v: JsonValue)
    ensures
        untimed(note_timestamp(s, v)) == untimed(s),
{
    assert(untimed(note_timestamp(s, v)).subagents =~= untimed(s).subagents);
}

proof fn lemma_untimed_idem(s: SessionView)
    ensures
        untimed(untimed(s)) == untimed(s),
{
    assert(untimed(untimed(s)).subagents =~= untimed(s).subagents);
}

proof fn lemma_untimed_step(s: SessionView, v: JsonValue)
    ensures
        untimed(feed_step(s, v)) == untimed(feed_step(untimed(s), v)),
{
    let u = untimed(s);
    let s1 = note_timestamp(s, v);
    let u1 = note_timestamp(u, v);
    lemma_untimed_note(s, v);
    lemma_untimed_note(u, v);
    lemma_untimed_idem(s);
    assert(untimed(s1) == untimed(u1));
    match entry_of(v) {
        EntryView::Skip => {},
        EntryView::UserHuman => {
            assert(s1.user_turns == u1.user_turns);
            let a = SessionView { user_turns: (s1.user_turns + 1) as u32, ..s1 };
            let b = SessionView { user_turns: (u1.user_turns + 1) as u32, ..u1 };
            assert(untimed(a).subagents =~= untimed(s1).subagents);
            assert(untimed(b).subagents =~= untimed(u1).subagents);
        },
        EntryView::Subagent(content) => {
            match subagent_record_of(content, s1.last_timestamp) {
                Some(r) => {
                    let r2 = subagent_record_of(content, u1.last_timestamp)->0;
                    let a = SessionView { subagents: s1.subagents.push(r), ..s1 };
                    let b = SessionView { subagents: u1.subagents.push(r2), ..u1 };
                    assert(untimed(s1).subagents == untimed(u1).subagents);
                    assert(untimed(a).subagents =~= untimed(s1).subagents.push(RecordView { timestamp: Seq::empty(), ..r }));
                    assert(untimed(b).subagents =~= untimed(u1).subagents.push(RecordView { timestamp: Seq::empty(), ..r2 }));
                },
                None => {},
            }
        },
        EntryView::Assistant(e) => {
            let a = take_assistant(s1, e);
            let b = take_assistant(u1, e);
            assert(untimed(a).subagents =~= untimed(s1).subagents);
            assert(untimed(b).subagents =~= untimed(u1).subagents);
        },
    }
}

proof fn lemma_untimed_finish(s: SessionView)
    ensures
        untimed(finish_step(s)) == untimed(finish_step(untimed(s))),
{
    lemma_untimed_idem(s);
    assert(untimed(finish_step(s)).subagents =~= untimed(s).subagents);
    assert(untimed(finish_step(untimed(s))).subagents =~= untimed(untimed(s)).subagents);
}

proof fn lemma_feed_all_without_sidechains(f: u32, ws: Seq<JsonValue>)
    ensures
        untimed(feed_all(f, ws)) == untimed(feed_all(f, without_sidechains(ws))),
    decreases ws.len(),
{
    if ws.len() > 0 {
        let d = ws.drop_last();
        let x = ws.last();
        lemma_feed_all_without_sidechains(f, d);
        let a = feed_all(f, d);
        let b = feed_all(f, without_sidechains(d));
        if is_sidechain_line(x) {
            law_sidechain_lines_only_move_time(a, x);
            lemma_untimed_note(a, x);
        } else {
            let st = without_sidechains(d).push(x);
            assert(st.drop_last() =~= without_sidechains(d));
            lemma_untimed_step(a, x);
            lemma_untimed_step(b, x);
        }
    }
}

/// Sidechain lines never count: two transcripts that differ only in sidechain
/// lines give the same turns, summary, prompts and subagent records, up to
/// the timestamps the sidechain lines carry (start, end, and the time stamped
/// on later records).
pub proof fn law_sidechain_lines_never_count(f: u32, ws: Seq<JsonValue>, vs: Seq<JsonValue>)
    requires
        without_sidechains(ws) == without_sidechains(vs),
    ensures
        untimed(finish_step(feed_all(f, ws))) == untimed(finish_step(feed_all(f, vs))),
        finish_step(feed_all(f, ws)).turns == finish_step(feed_all(f, vs)).turns,
        finish_step(feed_all(f, ws)).summary == finish_step(feed_all(f, vs)).summary,
        finish_step(feed_all(f, ws)).user_turns == finish_step(feed_all(f, vs)).user_turns,
        finish_step(feed_all(f, ws)).subagents.len() == finish_step(feed_all(f, vs)).subagents.len(),
{
    let a = feed_all(f, ws);
    let b = feed_all(f, vs);
    lemma_feed_all_without_sidechains(f, ws);
    lemma_feed_all_without_sidechains(f, vs);
    lemma_untimed_finish(a);
    lemma_untimed_finish(b);
    assert(untimed(finish_step(a)) == untimed(finish_step(b)));
    assert(untimed(finish_step(a)).subagents.len() == finish_step(a).subagents.len());
    assert(untimed(finish_step(b)).subagents.len() == finish_step(b).subagents.len());
}

/// The same over analysis results: transcripts that differ only in sidechain
/// lines give the same turns, token totals, prompts and subagent count.
pub proof fn law_sidechain_lines_never_count_in_results(
    f: u32,
    ws: Seq<JsonValue>,
    vs: Seq<JsonValue>,
    split: SubagentSplit,
    rw: ParseResult,
    rv: ParseResult,
)
    requires
        without_sidechains(ws) == without_sidechains(vs),
        analysis_matches(rw, finish_step(feed_all(f, ws)), split),
        analysis_matches(rv, finish_step(feed_all(f, vs)), split),
    ensures
        turn_views(rw.turns@) == turn_views(rv.turns@),
        rw.summary.total_turns == rv.summary.total_turns,
        rw.summary.total_input_tokens == rv.summary.total_input_tokens,
        rw.summary.total_output_tokens == rv.summary.total_output_tokens,
        rw.summary.total_cache_read == rv.summary.total_cache_read,
        rw.summary.total_cache_write == rv.summary.total_cache_write,
        rw.summary.user_turns == rv.summary.user_turns,
        rw.summary.subagent_count == rv.summary.subagent_count,
{
    law_sidechain_lines_never_count(f, ws, vs);
    assert(record_views(rw.subagents@).len() == rw.subagents@.len());
    assert(record_views(rv.subagents@).len() == rv.subagents@.len());
}

// ── Grouping ────────────────────────────────────────────────────────────────

/// Usage is repeated on every line of a response: a group keeps the usage of
/// its first usage-bearing line, so further lines never add tokens.
pub proof fn law_usage_counted_once_per_response(a: AccView, e: AssistantView)
    ensures
        a.usage is Some ==> extend_group(a, e).usage == a.usage,
        a.usage is None ==> extend_group(a, e).usage == e.usage,
{
}

// ── Slices ──────────────────────────────────────────────────────────────────

proof fn lemma_feed_all_zero_is_one(vs: Seq<JsonValue>)
    ensures
        feed_all(0, vs) == feed_all(1, vs),
    decreases vs.len(),
{
    if vs.len() > 0 {
        lemma_feed_all_zero_is_one(vs.drop_last());
    }
}

/// A slice from turn 0 is the full session, the same as a slice from turn 1.
pub proof fn law_from_turn_zero_is_full_session(vs: Seq<JsonValue>)
    ensures
        feed_all(0, vs) == feed_all(1, vs),
        initial_session(0) == initial_session(1),
{
    lemma_feed_all_zero_is_one(vs);
}

/// Two summaries that report the same: every field equal, texts and lists
/// compared by their contents.
pub open spec fn same_summary(a: SessionSummary, b: SessionSummary) -> bool {
    &&& a.session_id@ == b.session_id@
    &&& a.model@ == b.model@
    &&& a.models_seen.deep_view() == b.models_seen.deep_view()
    &&& a.start_time@ == b.start_time@
    &&& a.end_time@ == b.end_time@
    &&& a.duration_ms == b.duration_ms
    &&& a.total_turns == b.total_turns
    &&& a.total_input_tokens == b.total_input_tokens
    &&& a.total_output_tokens == b.total_output_tokens
    &&& a.total_cache_read == b.total_cache_read
    &&& a.total_cache_write == b.total_cache_write
    &&& a.turns_with_thinking == b.turns_with_thinking
    &&& a.total_thinking_output == b.total_thinking_output
    &&& a.total_non_thinking_output == b.total_non_thinking_output
    &&& a.burn_sum_excl_first == b.burn_sum_excl_first
    &&& a.peak_burn_turn == b.peak_burn_turn
    &&& a.peak_burn_value == b.peak_burn_value
    &&& a.tool_frequency.deep_view() == b.tool_frequency.deep_view()
    &&& a.top_tools.deep_view() == b.top_tools.deep_view()
    &&& a.total_subagent_tokens == b.total_subagent_tokens
    &&& a.subagent_count == b.subagent_count
    &&& a.subagent_total_duration_ms == b.subagent_total_duration_ms
    &&& a.user_turns == b.user_turns
    &&& a.final_context_size == b.final_context_size
    &&& a.from_turn == b.from_turn
    &&& a.subagent_input_tokens == b.subagent_input_tokens
    &&& a.subagent_output_tokens == b.subagent_output_tokens
    &&& a.subagent_cache_read_tokens == b.subagent_cache_read_tokens
    &&& a.subagent_cache_write_tokens == b.subagent_cache_write_tokens
    &&& a.subagent_agent_file_count == b.subagent_agent_file_count
    &&& a.subagent_usage_total_tokens == b.subagent_usage_total_tokens
}

proof fn lemma_models_seen_unique(a: Seq<Seq<char>>, b: Seq<Seq<char>>, m: Map<Seq<char>, u32>)
    requires
        ranks_tally(a.map_values(|n: Seq<char>| (n, 0u32)), m, false),
        ranks_tally(b.map_values(|n: Seq<char>| (n, 0u32)), m, false),
    ensures
        a == b,
{
    let ma = a.map_values(|n: Seq<char>| (n, 0u32));
    let mb = b.map_values(|n: Seq<char>| (n, 0u32));
    lemma_ranks_tally_unique(ma, mb, m, false);
    assert(a.len() == ma.len() && b.len() == mb.len());
    assert forall|i: int| 0 <= i < a.len() implies a[i] == b[i] by {
        assert(ma[i].0 == a[i] && mb[i].0 == b[i]);
    }
    assert(a =~= b);
}

/// Any two results of analysing the same session with the same split report
/// the same: the same turns, records and summary.
pub proof fn law_analysis_is_determined(s: SessionView, split: SubagentSplit, r0: ParseResult, r1: ParseResult)
    requires
        analysis_matches(r0, s, split),
        analysis_matches(r1, s, split),
    ensures
        turn_views(r0.turns@) == turn_views(r1.turns@),
        record_views(r0.subagents@) == record_views(r1.subagents@),
        same_summary(r0.summary, r1.summary),
{
    let a = r0.summary;
    let b = r1.summary;
    lemma_top_name_unique(a.model@, b.model@, s.summary.models_seen);
    lemma_models_seen_unique(a.models_seen.deep_view(), b.models_seen.deep_view(), s.summary.models_seen.map_values(|c: u32| 0u32));
    lemma_ranks_tally_unique(a.tool_frequency.deep_view(), b.tool_frequency.deep_view(), s.summary.tool_counts, true);
    let x = r0.subagents@;
    let y = r1.subagents@;
    assert(record_views(x).len() == x.len() && record_views(y).len() == y.len());
    assert forall|i: int| 0 <= i < x.len() implies x[i].tokens == y[i].tokens && x[i].duration_ms == y[i].duration_ms by {
        assert(record_views(x)[i] == x[i]@ && record_views(y)[i] == y[i]@);
    }
    lemma_record_sums(x, y);
}

proof fn lemma_feed_all_from_turn(f: u32, vs: Seq<JsonValue>)
    ensures
        feed_all(f, vs).from_turn == (if f < 1 { 1 } else { f }),
        finish_step(feed_all(f, vs)).from_turn == (if f < 1 { 1 } else { f }),
    decreases vs.len(),
{
    if vs.len() > 0 {
        lemma_feed_all_from_turn(f, vs.drop_last());
    }
}

/// A slice from turn 0 reports what a slice from turn 1, the full session,
/// does: the same turns, records and summary (with `from_turn` 1).
pub proof fn law_from_turn_zero_gives_the_full_session(
    vs: Seq<JsonValue>,
    split: SubagentSplit,
    r0: ParseResult,
    r1: ParseResult,
)
    requires
        analysis_matches(r0, finish_step(feed_all(0, vs)), split),
        analysis_matches(r1, finish_step(feed_all(1, vs)), split),
    ensures
        turn_views(r0.turns@) == turn_views(r1.turns@),
        record_views(r0.subagents@) == record_views(r1.subagents@),
        same_summary(r0.summary, r1.summary),
        r0.summary.from_turn == 1,
{
    lemma_feed_all_zero_is_one(vs);
    lemma_feed_all_from_turn(1, vs);
    law_analysis_is_determined(finish_step(feed_all(1, vs)), split, r0, r1);
}

/// The sum of one counter over the turns of `h` numbered `from_turn` or above.
pub open spec fn slice_sum(h: Seq<TurnView>, from_turn: u32, field: spec_fn(TurnView) -> u64) -> nat
    decreases h.len(),
{
    if h.len() == 0 {
        0
    } else {
        slice_sum(h.drop_last(), from_turn, field) + if h.last().turn >= from_turn {
            field(h.last()) as nat
        } else {
            0
        }
    }
}

/// The number of turns of `h` numbered `from_turn` or above.
pub open spec fn slice_count(h: Seq<TurnView>, from_turn: u32) -> nat
    decreases h.len(),
{
    if h.len() == 0 {
        0
    } else {
        slice_count(h.drop_last(), from_turn) + if h.last().turn >= from_turn { 1nat } else { 0 }
    }
}

pub open spec fn capped(n: nat) -> u64 {
    if n > u64::MAX { u64::MAX } else { n as u64 }
}

proof fn lemma_summary_sums(h: Seq<TurnView>, f: u32)
    requires
        h.len() <= u32::MAX,
    ensures
        summary_of(h, f).total_input == capped(slice_sum(h, f, |t: TurnView| t.input_tokens)),
        summary_of(h, f).total_output == capped(slice_sum(h, f, |t: TurnView| t.output_tokens)),
        summary_of(h, f).total_cache_read == capped(slice_sum(h, f, |t: TurnView| t.cache_read_tokens)),
        summary_of(h, f).total_cache_write == capped(slice_sum(h, f, |t: TurnView| t.cache_write_tokens)),
        summary_of(h, f).total_turns == slice_count(h, f),
    decreases h.len(),
{
    if h.len() > 0 {
        lemma_summary_sums(h.drop_last(), f);
        lemma_slice_count_le(h.drop_last(), f);
    }
}

proof fn lemma_slice_count_le(h: Seq<TurnView>, f: u32)
    ensures
        slice_count(h, f) <= h.len(),
    decreases h.len(),
{
    if h.len() > 0 {
        lemma_slice_count_le(h.drop_last(), f);
    }
}

proof fn lemma_slice_count_numbered(h: Seq<TurnView>, f: u32)
    requires
        f >= 1,
        forall|k: int| 0 <= k < h.len() ==> #[trigger] h[k].turn == k + 1,
    ensures
        slice_count(h, f) == (if f - 1 < h.len() { h.len() - (f - 1) } else { 0 }),
    decreases h.len(),
{
    if h.len() > 0 {
        assert forall|k: int| 0 <= k < h.drop_last().len() implies #[trigger] h.drop_last()[k].turn == k + 1 by {
            assert(h.drop_last()[k] == h[k]);
        }
        lemma_slice_count_numbered(h.drop_last(), f);
        assert(h.last().turn == h.len());
    }
}

/// The session totals are the sums of the counters of the turns in the slice,
/// capped at `u64::MAX` rather than wrapping; the turn total is the number of
/// turns reported.
#[verifier::rlimit(40)]
pub proof fn law_totals_are_capped_sums(p: SessionParser)
    requires
        p.wf(),
    ensures
        p@.summary.total_input == capped(slice_sum(p@.history, p@.from_turn, |t: TurnView| t.input_tokens)),
        p@.summary.total_output == capped(slice_sum(p@.history, p@.from_turn, |t: TurnView| t.output_tokens)),
        p@.summary.total_cache_read == capped(slice_sum(p@.history, p@.from_turn, |t: TurnView| t.cache_read_tokens)),
        p@.summary.total_cache_write == capped(slice_sum(p@.history, p@.from_turn, |t: TurnView| t.cache_write_tokens)),
        p@.summary.total_turns == p@.turns.len(),
        forall|i: int| 0 <= i < p@.turns.len() ==> #[trigger] p@.turns[i].turn >= p@.from_turn,
{
    let s = p@;
    assert(s.history.len() <= u32::MAX);
    lemma_summary_sums(s.history, s.from_turn);
    lemma_slice_count_numbered(s.history, s.from_turn);
    let lo = if s.from_turn - 1 < s.history.len() { s.from_turn - 1 } else { s.history.len() as int };
    assert forall|i: int| 0 <= i < s.turns.len() implies #[trigger] s.turns[i].turn >= s.from_turn by {
        assert(s.turns[i] == s.history[lo + i]);
    }
}

/// Each turn's burn delta is the signed change of context size from the turn
/// before it, whether or not that turn is in the slice; turn 1 has none.
pub proof fn law_burn_delta_follows_previous_turn(p: SessionParser, k: int)
    requires
        p.wf(),
        0 <= k < p@.history.len(),
    ensures
        p@.history[k].burn_delta == burn_delta_of(
            p@.history[k].context_tokens,
            if k == 0 { None } else { Some(p@.history[k - 1].context_tokens) },
        ),
        p@.history[k].turn == k + 1,
{
}

/// The reported turns are those numbered `from_turn` and above, in order; a
/// slice starting past the last turn reports none and counts no turn.
pub proof fn law_slice_reports_later_turns(p: SessionParser)
    requires
        p.wf(),
    ensures
        forall|i: int| 0 <= i < p@.turns.len() ==> #[trigger] p@.turns[i].turn == p@.from_turn + i,
        p@.from_turn > p@.history.len() ==> p@.turns.len() == 0 && p@.summary.total_turns == 0,
{
    law_totals_are_capped_sums(p);
    let s = p@;
    let lo = if s.from_turn - 1 < s.history.len() { s.from_turn - 1 } else { s.history.len() as int };
    assert forall|i: int| 0 <= i < s.turns.len() implies #[trigger] s.turns[i].turn == s.from_turn + i by {
        assert(s.turns[i] == s.history[lo + i]);
    }
}

// ── Agent files ─────────────────────────────────────────────────────────────

/// In an agent file, another line of a message already seen never adds a
/// group: the message's output is the largest seen, its input and cache
/// counters the latest.
pub proof fn law_agent_lines_group_by_message(g: Groups, v: JsonValue, i: int)
    requires
        ids_unique(g),
        0 <= i < g.len(),
        agent_usage_line(v) matches Some(l) && l.0 == g[i].0,
    ensures
        agent_step(g, v).len() == g.len(),
        agent_usage_line(v) matches Some(l) ==> agent_step(g, v)[i] == (g[i].0, merge_usage(g[i].1, l.1)),
{
    let l = agent_usage_line(v)->0;
    assert(exists|j: int| 0 <= j < g.len() && #[trigger] g[j].0 == l.0);
    let j = choose|j: int| 0 <= j < g.len() && #[trigger] g[j].0 == l.0;
    assert(j == i);
}

// ── Stop reasons ────────────────────────────────────────────────────────────

/// The group that the lines `es` of one response build, in order.
pub open spec fn group_of_lines(es: Seq<AssistantView>) -> AccView
    decreases es.len(),
{
    if es.len() <= 1 {
        open_group(es[0])
    } else {
        extend_group(group_of_lines(es.drop_last()), es.last())
    }
}

/// The last stop reason given among the lines, if any.
pub open spec fn last_stop_reason(es: Seq<AssistantView>) -> Option<Seq<char>>
    decreases es.len(),
{
    if es.len() == 0 {
        None
    } else if es.last().stop_reason is Some {
        es.last().stop_reason
    } else {
        last_stop_reason(es.drop_last())
    }
}

proof fn lemma_count_block_keeps_stop_reason(a: AccView, e: AssistantView)
    ensures
        extend_group(a, e).stop_reason == (if e.stop_reason is Some { e.stop_reason } else { a.stop_reason }),
        open_group(e).stop_reason == e.stop_reason,
{
}

/// A response's stop reason is the last one that any of its lines gives: a
/// later line with a stop reason replaces it, a line without one keeps it.
pub proof fn law_stop_reason_is_the_last_given(es: Seq<AssistantView>)
    requires
        es.len() >= 1,
    ensures
        group_of_lines(es).stop_reason == last_stop_reason(es),
    decreases es.len(),
{
    if es.len() > 1 {
        law_stop_reason_is_the_last_given(es.drop_last());
        let a = group_of_lines(es.drop_last());
        let e = es.last();
        assert(extend_group(a, e).stop_reason == (if e.stop_reason is Some { e.stop_reason } else { a.stop_reason })) by {
            lemma_count_block_keeps_stop_reason(a, e);
        }
    } else {
        assert(es.drop_last().len() == 0);
        assert(last_stop_reason(es.drop_last()) is None);
        assert(es.last() == es[0]);
        assert(open_group(es[0]).stop_reason == es[0].stop_reason);
    }
}

// ── Burn over a slice ───────────────────────────────────────────────────────

/// The burn deltas of the turns numbered 2 or more, summed.
pub open spec fn burn_after_first(ts: Seq<TurnView>) -> int
    decreases ts.len(),
{
    if ts.len() == 0 {
        0
    } else {
        burn_after_first(ts.drop_last()) + if ts.last().turn >= 2 { ts.last().burn_delta as int } else { 0 }
    }
}

proof fn lemma_burn_after_first_bound(ts: Seq<TurnView>)
    ensures
        -(ts.len() * 0x8000_0000_0000_0000) <= burn_after_first(ts) <= ts.len() * 0x8000_0000_0000_0000,
    decreases ts.len(),
{
    if ts.len() > 0 {
        lemma_burn_after_first_bound(ts.drop_last());
    }
}

proof fn lemma_burn_of_in_slice(h: Seq<TurnView>, f: u32)
    requires
        h.len() <= u32::MAX,
        forall|k: int| 0 <= k < h.len() ==> #[trigger] h[k].turn == k + 1,
    ensures
        summary_of(h, f).burn_sum_excl_first == burn_after_first(in_slice(h, f)),
        summary_of(h, f).peak_burn_value >= 0,
        forall|k: int| 0 <= k < in_slice(h, f).len() && #[trigger] in_slice(h, f)[k].turn >= 2
            ==> summary_of(h, f).peak_burn_value >= in_slice(h, f)[k].burn_delta,
        summary_of(h, f).peak_burn_turn == 0 ==> summary_of(h, f).peak_burn_value == 0,
        summary_of(h, f).peak_burn_turn != 0 ==> exists|k: int| 0 <= k < in_slice(h, f).len()
            && #[trigger] in_slice(h, f)[k].turn == summary_of(h, f).peak_burn_turn
            && in_slice(h, f)[k].turn >= 2
            && in_slice(h, f)[k].burn_delta == summary_of(h, f).peak_burn_value,
        forall|k: int| 0 <= k < in_slice(h, f).len() && #[trigger] in_slice(h, f)[k].turn >= 2
            && in_slice(h, f)[k].turn < summary_of(h, f).peak_burn_turn
            ==> in_slice(h, f)[k].burn_delta < summary_of(h, f).peak_burn_value,
        forall|k: int| 0 <= k < in_slice(h, f).len() ==> #[trigger] in_slice(h, f)[k].turn <= h.len(),
        in_slice(h, f).len() <= h.len(),
    decreases h.len(),
{
    if h.len() > 0 {
        let d = h.drop_last();
        assert forall|k: int| 0 <= k < d.len() implies #[trigger] d[k].turn == k + 1 by {
            assert(d[k] == h[k]);
        }
        lemma_burn_of_in_slice(d, f);
        let p = in_slice(d, f);
        let t = h.last();
        assert(t.turn == h.len());
        let q = in_slice(h, f);
        lemma_burn_after_first_bound(p);
        if t.turn >= f {
            assert(q.drop_last() =~= p);
            assert(q.last() == t);
            assert forall|k: int| 0 <= k < q.len() - 1 implies q[k] == #[trigger] p[k] by {}
            let s0 = summary_of(d, f);
            let s1 = summary_of(h, f);
            assert(q.len() - 1 == p.len());
            assert(q[q.len() - 1] == t);
            if s0.peak_burn_turn != 0 {
                let k0 = choose|k: int| 0 <= k < p.len() && #[trigger] p[k].turn == s0.peak_burn_turn
                    && p[k].turn >= 2 && p[k].burn_delta == s0.peak_burn_value;
                assert(q[k0] == p[k0]);
            }
            assert forall|k: int| 0 <= k < q.len() && #[trigger] q[k].turn >= 2 implies s1.peak_burn_value >= q[k].burn_delta by {
                if k < q.len() - 1 {
                    assert(q[k] == p[k]);
                }
            }
            assert forall|k: int| 0 <= k < q.len() && #[trigger] q[k].turn >= 2 && q[k].turn < s1.peak_burn_turn
                implies q[k].burn_delta < s1.peak_burn_value by {
                if k < q.len() - 1 {
                    assert(q[k] == p[k]);
                }
            }
            assert forall|k: int| 0 <= k < q.len() implies #[trigger] q[k].turn <= h.len() by {
                if k < q.len() - 1 {
                    assert(q[k] == p[k]);
                }
            }
        }
    }
}

/// The burn of a slice counts every reported turn numbered 2 or more, the
/// slice's first turn too when the slice starts past turn 1: the burn sum is
/// the sum of their deltas, and the peak is the first of them with the largest
/// delta (0 and turn 0 when none rose).
pub proof fn law_slice_burn_counts_every_later_turn(p: SessionParser)
    requires
        p.wf(),
    ensures
        p@.summary.burn_sum_excl_first == burn_after_first(p@.turns),
        p@.summary.peak_burn_value >= 0,
        forall|k: int| 0 <= k < p@.turns.len() && #[trigger] p@.turns[k].turn >= 2
            ==> p@.summary.peak_burn_value >= p@.turns[k].burn_delta,
        p@.summary.peak_burn_turn == 0 ==> p@.summary.peak_burn_value == 0,
        p@.summary.peak_burn_turn != 0 ==> exists|k: int| 0 <= k < p@.turns.len()
            && #[trigger] p@.turns[k].turn == p@.summary.peak_burn_turn
            && p@.turns[k].turn >= 2
            && p@.turns[k].burn_delta == p@.summary.peak_burn_value,
        forall|k: int| 0 <= k < p@.turns.len() && #[trigger] p@.turns[k].turn >= 2
            && p@.turns[k].turn < p@.summary.peak_burn_turn
            ==> p@.turns[k].burn_delta < p@.summary.peak_burn_value,
{
    let s = p@;
    assert(s.history.len() <= u32::MAX);
    lemma_burn_of_in_slice(s.history, s.from_turn);
    lemma_in_slice_numbered(s.history, s.from_turn);
}

// ── Columns under their names ───────────────────────────────────────────────

proof fn lemma_comparison_labels_distinct()
    ensures
        forall|i: int, j: int| 0 <= i < 13 && 0 <= j < 13 && #[trigger] comparison_label_texts()[i] == #[trigger] comparison_label_texts()[j] ==> i == j,
{
    reveal_strlit("Model");
    reveal_strlit("Duration");
    reveal_strlit("Turns");
    reveal_strlit("Total input");
    reveal_strlit("Total output");
    reveal_strlit("Cache read");
    reveal_strlit("Cache write");
    reveal_strlit("Avg burn/turn");
    reveal_strlit("Peak burn");
    reveal_strlit("Final context");
    reveal_strlit("Thinking ratio");
    reveal_strlit("Subagent tokens");
    reveal_strlit("Subagent tasks");
    let l = comparison_label_texts();
    assert(l[0].len() == 5 && l[0][0] == 'M');
    assert(l[1].len() == 8 && l[1][0] == 'D');
    assert(l[2].len() == 5 && l[2][0] == 'T');
    assert(l[3].len() == 11 && l[3][0] == 'T');
    assert(l[4].len() == 12 && l[4][0] == 'T');
    assert(l[5].len() == 10 && l[5][0] == 'C');
    assert(l[6].len() == 11 && l[6][0] == 'C');
    assert(l[7].len() == 13 && l[7][0] == 'A');
    assert(l[8].len() == 9 && l[8][0] == 'P');
    assert(l[9].len() == 13 && l[9][0] == 'F');
    assert(l[10].len() == 14 && l[10][0] == 'T');
    assert(l[11].len() == 15 && l[11][0] == 'S');
    assert(l[12].len() == 14 && l[12][0] == 'S');
    assert forall|i: int, j: int| 0 <= i < 13 && 0 <= j < 13 && #[trigger] l[i] == #[trigger] l[j] implies i == j by {
        assert(i == 0 || i == 1 || i == 2 || i == 3 || i == 4 || i == 5 || i == 6 || i == 7 || i == 8 || i == 9 || i == 10 || i == 11 || i == 12);
        assert(j == 0 || j == 1 || j == 2 || j == 3 || j == 4 || j == 5 || j == 6 || j == 7 || j == 8 || j == 9 || j == 10 || j == 11 || j == 12);
        if i != j {
            assert(l[i].len() != l[j].len() || l[i][0] != l[j][0]);
        }
    }
}

/// In a session's column of the comparison table, each cell is the summary
/// field that its row's label names: the cell under "Cache read" is the cache
/// read total with separators, the one under "Cache write" the cache write
/// total, and so on for every row.
pub proof fn law_comparison_cells_follow_their_labels(
    s: SessionSummary,
    duration: Seq<char>,
    avg_burn: u64,
    thinking_ratio: Seq<char>,
)
    ensures
        ({
            let labels = comparison_label_texts();
            let cells = comparison_cell_texts(s, duration, avg_burn, thinking_ratio);
            &&& labels.len() == 13
            &&& cells.len() == 13
            &&& forall|i: int| 0 <= i < 13 && #[trigger] labels[i] == "Model"@ ==> cells[i] == s.model@
            &&& forall|i: int| 0 <= i < 13 && #[trigger] labels[i] == "Duration"@ ==> cells[i] == duration
            &&& forall|i: int| 0 <= i < 13 && #[trigger] labels[i] == "Turns"@ ==> cells[i] == decimal(s.total_turns as nat)
            &&& forall|i: int| 0 <= i < 13 && #[trigger] labels[i] == "Total input"@ ==> cells[i] == group_thousands(decimal(s.total_input_tokens as nat))
            &&& forall|i: int| 0 <= i < 13 && #[trigger] labels[i] == "Total output"@ ==> cells[i] == group_thousands(decimal(s.total_output_tokens as nat))
            &&& forall|i: int| 0 <= i < 13 && #[trigger] labels[i] == "Cache read"@ ==> cells[i] == group_thousands(decimal(s.total_cache_read as nat))
            &&& forall|i: int| 0 <= i < 13 && #[trigger] labels[i] == "Cache write"@ ==> cells[i] == group_thousands(decimal(s.total_cache_write as nat))
            &&& forall|i: int| 0 <= i < 13 && #[trigger] labels[i] == "Avg burn/turn"@ ==> cells[i] == group_thousands(decimal(avg_burn as nat))
            &&& forall|i: int| 0 <= i < 13 && #[trigger] labels[i] == "Final context"@ ==> cells[i] == group_thousands(decimal(s.final_context_size as nat))
            &&& forall|i: int| 0 <= i < 13 && #[trigger] labels[i] == "Thinking ratio"@ ==> cells[i] == thinking_ratio
            &&& forall|i: int| 0 <= i < 13 && #[trigger] labels[i] == "Subagent tokens"@ ==> cells[i] == group_thousands(decimal(s.total_subagent_tokens as nat))
            &&& forall|i: int| 0 <= i < 13 && #[trigger] labels[i] == "Subagent tasks"@ ==> cells[i] == decimal(s.subagent_count as nat)
            &&& forall|i: int| 0 <= i < 13 && #[trigger] labels[i] == "Peak burn"@ ==> cells[i] == group_thousands(decimal(
                if s.peak_burn_value > 0 { s.peak_burn_value as nat } else { 0 },
            )) + " (t"@ + decimal(s.peak_burn_turn as nat) + ")"@
        }),
{
    lemma_comparison_labels_distinct();
    reveal_strlit("Model");
    reveal_strlit("Duration");
    reveal_strlit("Turns");
    reveal_strlit("Total input");
    reveal_strlit("Total output");
    reveal_strlit("Cache read");
    reveal_strlit("Cache write");
    reveal_strlit("Avg burn/turn");
    reveal_strlit("Peak burn");
    reveal_strlit("Final context");
    reveal_strlit("Thinking ratio");
    reveal_strlit("Subagent tokens");
    reveal_strlit("Subagent tasks");
    let l = comparison_label_texts();
    assert forall|i: int, k: int| 0 <= i < 13 && 0 <= k < 13 && #[trigger] l[i] == #[trigger] l[k]
        implies comparison_cell_texts(s, duration, avg_burn, thinking_ratio)[i] == comparison_cell_texts(s, duration, avg_burn, thinking_ratio)[k] by {
        assert(i == k);
    }
    assert(l[0] == "Model"@);
    assert(l[1] == "Duration"@);
    assert(l[2] == "Turns"@);
    assert(l[3] == "Total input"@);
    assert(l[4] == "Total output"@);
    assert(l[5] == "Cache read"@);
    assert(l[6] == "Cache write"@);
    assert(l[7] == "Avg burn/turn"@);
    assert(l[8] == "Peak burn"@);
    assert(l[9] == "Final context"@);
    assert(l[10] == "Thinking ratio"@);
    assert(l[11] == "Subagent tokens"@);
    assert(l[12] == "Subagent tasks"@);
}

/// The Input line of the single-session report names each cache counter
/// before its own total: after "cache read: " comes the cache read total with
/// separators, after "cache write: " the cache write total.
pub proof fn law_input_line_names_each_cache_total(s: SessionSummary, turns: Seq<TurnView>, thinking_percent: Seq<char>)
    ensures
        ({
            let line = report_body_lines(s, turns, thinking_percent)[4];
            &&& line.take(8) == "  Input:"@
            &&& line == "  Input:    "@ + pad_start(group_thousands(decimal(s.total_input_tokens as nat)), 12) + "  ("@
                + "cache read: "@ + group_thousands(decimal(s.total_cache_read as nat))
                + " / "@ + "cache write: "@ + group_thousands(decimal(s.total_cache_write as nat)) + ")"@
        }),
{
    reveal_strlit("  Input:");
    reveal_strlit("  Input:    ");
    reveal_strlit("  (");
    reveal_strlit("cache read: ");
    reveal_strlit("  (cache read: ");
    reveal_strlit(" / ");
    reveal_strlit("cache write: ");
    reveal_strlit(" / cache write: ");
    let lines = report_body_lines(s, turns, thinking_percent);
    let t = tokens_section(s);
    assert(lines[4] == t[4]);
    let w = pad_start(group_thousands(decimal(s.total_input_tokens as nat)), 12);
    assert("  (cache read: "@ =~= "  ("@ + "cache read: "@);
    assert(" / cache write: "@ =~= " / "@ + "cache write: "@);
    assert(t[4] =~= "  Input:    "@ + w + "  ("@ + "cache read: "@ + group_thousands(decimal(s.total_cache_read as nat))
        + " / "@ + "cache write: "@ + group_thousands(decimal(s.total_cache_write as nat)) + ")"@);
    assert(t[4].take(8) =~= "  Input:"@);
}

// ── CSV columns ─────────────────────────────────────────────────────────────

/// The parts joined with commas.
pub open spec fn join_commas(parts: Seq<Seq<char>>) -> Seq<char>
    decreases parts.len(),
{
    if parts.len() == 0 {
        Seq::empty()
    } else if parts.len() == 1 {
        parts[0]
    } else {
        join_commas(parts.drop_last()) + seq![','] + parts.last()
    }
}

/// The column names, in the order of the header line.
pub open spec fn csv_column_names() -> Seq<Seq<char>> {
    seq![
        "turn"@,
        "timestamp"@,
        "model"@,
        "input_tokens"@,
        "output_tokens"@,
        "cache_read"@,
        "cache_write"@,
        "context_tokens"@,
        "has_thinking"@,
        "thinking_block_count"@,
        "content_blocks"@,
        "tool_count"@,
        "tools_called"@,
        "stop_reason"@,
        "cumulative_context"@,
        "burn_delta"@,
        "skill"@,
        "elapsed_sec"@,
        "tokens_per_sec"@,
    ]
}

proof fn lemma_csv_column_names_distinct()
    ensures
        forall|i: int, j: int| 0 <= i < 19 && 0 <= j < 19 && #[trigger] csv_column_names()[i] == #[trigger] csv_column_names()[j] ==> i == j,
{
    reveal_strlit("turn");
    reveal_strlit("timestamp");
    reveal_strlit("model");
    reveal_strlit("input_tokens");
    reveal_strlit("output_tokens");
    reveal_strlit("cache_read");
    reveal_strlit("cache_write");
    reveal_strlit("context_tokens");
    reveal_strlit("has_thinking");
    reveal_strlit("thinking_block_count");
    reveal_strlit("content_blocks");
    reveal_strlit("tool_count");
    reveal_strlit("tools_called");
    reveal_strlit("stop_reason");
    reveal_strlit("cumulative_context");
    reveal_strlit("burn_delta");
    reveal_strlit("skill");
    reveal_strlit("elapsed_sec");
    reveal_strlit("tokens_per_sec");
    let l = csv_column_names();
    assert(l[0].len() == 4 && l[0][0] == 't' && l[0][3] == 'n');
    assert(l[1].len() == 9 && l[1][0] == 't' && l[1][5] == 't');
    assert(l[2].len() == 5 && l[2][0] == 'm' && l[2][4] == 'l');
    assert(l[3].len() == 12 && l[3][0] == 'i' && l[3][5] == '_');
    assert(l[4].len() == 13 && l[4][0] == 'o' && l[4][5] == 't');
    assert(l[5].len() == 10 && l[5][0] == 'c' && l[5][5] == '_');
    assert(l[6].len() == 11 && l[6][0] == 'c' && l[6][5] == '_');
    assert(l[7].len() == 14 && l[7][0] == 'c' && l[7][5] == 'x');
    assert(l[8].len() == 12 && l[8][0] == 'h' && l[8][5] == 'h');
    assert(l[9].len() == 20 && l[9][0] == 't' && l[9][5] == 'i');
    assert(l[10].len() == 14 && l[10][0] == 'c' && l[10][5] == 'n');
    assert(l[11].len() == 10 && l[11][0] == 't' && l[11][5] == 'c');
    assert(l[12].len() == 12 && l[12][0] == 't' && l[12][5] == '_');
    assert(l[13].len() == 11 && l[13][0] == 's' && l[13][5] == 'r');
    assert(l[14].len() == 18 && l[14][0] == 'c' && l[14][5] == 'a');
    assert(l[15].len() == 10 && l[15][0] == 'b' && l[15][5] == 'd');
    assert(l[16].len() == 5 && l[16][0] == 's' && l[16][4] == 'l');
    assert(l[17].len() == 11 && l[17][0] == 'e' && l[17][5] == 'e');
    assert(l[18].len() == 14 && l[18][0] == 't' && l[18][5] == 's');
    assert forall|i: int, j: int| 0 <= i < 19 && 0 <= j < 19 && #[trigger] l[i] == #[trigger] l[j] implies i == j by {
        assert(i == 0 || i == 1 || i == 2 || i == 3 || i == 4 || i == 5 || i == 6 || i == 7 || i == 8 || i == 9 || i == 10 || i == 11 || i == 12 || i == 13 || i == 14 || i == 15 || i == 16 || i == 17 || i == 18);
        assert(j == 0 || j == 1 || j == 2 || j == 3 || j == 4 || j == 5 || j == 6 || j == 7 || j == 8 || j == 9 || j == 10 || j == 11 || j == 12 || j == 13 || j == 14 || j == 15 || j == 16 || j == 17 || j == 18);
    }
}

/// The cells of a turn's row, in column order.
spec fn csv_row_cells(t: TurnView, elapsed_sec: Seq<char>, tokens_per_sec: Seq<char>) -> Seq<Seq<char>> {
    seq![
        decimal(t.turn as nat),
        csv_cell(t.timestamp),
        csv_cell(t.model),
        decimal(t.input_tokens as nat),
        decimal(t.output_tokens as nat),
        decimal(t.cache_read_tokens as nat),
        decimal(t.cache_write_tokens as nat),
        decimal(t.context_tokens as nat),
        bool_text(t.has_thinking),
        decimal(t.thinking_block_count as nat),
        decimal(t.content_blocks as nat),
        decimal(t.tool_count as nat),
        join_semicolon(t.tools_called),
        csv_cell(t.stop_reason),
        decimal(t.cumulative_context as nat),
        signed_decimal(t.burn_delta as int),
        csv_cell(t.skill),
        elapsed_sec,
        tokens_per_sec,
    ]
}

proof fn lemma_csv_header_joins()
    ensures
        csv_header_text() == join_commas(csv_column_names()),
{
    reveal_strlit("turn");
    reveal_strlit("timestamp");
    reveal_strlit("model");
    reveal_strlit("input_tokens");
    reveal_strlit("output_tokens");
    reveal_strlit("cache_read");
    reveal_strlit("cache_write");
    reveal_strlit("context_tokens");
    reveal_strlit("has_thinking");
    reveal_strlit("thinking_block_count");
    reveal_strlit("content_blocks");
    reveal_strlit("tool_count");
    reveal_strlit("tools_called");
    reveal_strlit("stop_reason");
    reveal_strlit("cumulative_context");
    reveal_strlit("burn_delta");
    reveal_strlit("skill");
    reveal_strlit("elapsed_sec");
    reveal_strlit("tokens_per_sec");
    reveal_strlit("turn,timestamp,model,input_tokens,output_tokens,cache_read,cache_write,context_tokens,has_thinking,thinking_block_count,content_blocks,tool_count,tools_called,stop_reason,cumulative_context,burn_delta,skill,elapsed_sec,tokens_per_sec");
    let n1 = seq!["turn"@];
    let n2 = n1.push("timestamp"@);
    assert(n2.drop_last() =~= n1);
    assert(join_commas(n2) == join_commas(n1) + seq![','] + "timestamp"@);
    let n3 = n2.push("model"@);
    assert(n3.drop_last() =~= n2);
    assert(join_commas(n3) == join_commas(n2) + seq![','] + "model"@);
    let n4 = n3.push("input_tokens"@);
    assert(n4.drop_last() =~= n3);
    assert(join_commas(n4) == join_commas(n3) + seq![','] + "input_tokens"@);
    let n5 = n4.push("output_tokens"@);
    assert(n5.drop_last() =~= n4);
    assert(join_commas(n5) == join_commas(n4) + seq![','] + "output_tokens"@);
    let n6 = n5.push("cache_read"@);
    assert(n6.drop_last() =~= n5);
    assert(join_commas(n6) == join_commas(n5) + seq![','] + "cache_read"@);
    let n7 = n6.push("cache_write"@);
    assert(n7.drop_last() =~= n6);
    assert(join_commas(n7) == join_commas(n6) + seq![','] + "cache_write"@);
    let n8 = n7.push("context_tokens"@);
    assert(n8.drop_last() =~= n7);
    assert(join_commas(n8) == join_commas(n7) + seq![','] + "context_tokens"@);
    let n9 = n8.push("has_thinking"@);
    assert(n9.drop_last() =~= n8);
    assert(join_commas(n9) == join_commas(n8) + seq![','] + "has_thinking"@);
    let n10 = n9.push("thinking_block_count"@);
    assert(n10.drop_last() =~= n9);
    assert(join_commas(n10) == join_commas(n9) + seq![','] + "thinking_block_count"@);
    let n11 = n10.push("content_blocks"@);
    assert(n11.drop_last() =~= n10);
    assert(join_commas(n11) == join_commas(n10) + seq![','] + "content_blocks"@);
    let n12 = n11.push("tool_count"@);
    assert(n12.drop_last() =~= n11);
    assert(join_commas(n12) == join_commas(n11) + seq![','] + "tool_count"@);
    let n13 = n12.push("tools_called"@);
    assert(n13.drop_last() =~= n12);
    assert(join_commas(n13) == join_commas(n12) + seq![','] + "tools_called"@);
    let n14 = n13.push("stop_reason"@);
    assert(n14.drop_last() =~= n13);
    assert(join_commas(n14) == join_commas(n13) + seq![','] + "stop_reason"@);
    let n15 = n14.push("cumulative_context"@);
    assert(n15.drop_last() =~= n14);
    assert(join_commas(n15) == join_commas(n14) + seq![','] + "cumulative_context"@);
    let n16 = n15.push("burn_delta"@);
    assert(n16.drop_last() =~= n15);
    assert(join_commas(n16) == join_commas(n15) + seq![','] + "burn_delta"@);
    let n17 = n16.push("skill"@);
    assert(n17.drop_last() =~= n16);
    assert(join_commas(n17) == join_commas(n16) + seq![','] + "skill"@);
    let n18 = n17.push("elapsed_sec"@);
    assert(n18.drop_last() =~= n17);
    assert(join_commas(n18) == join_commas(n17) + seq![','] + "elapsed_sec"@);
    let n19 = n18.push("tokens_per_sec"@);
    assert(n19.drop_last() =~= n18);
    assert(join_commas(n19) == join_commas(n18) + seq![','] + "tokens_per_sec"@);
    assert(n19 =~= csv_column_names());
    assert(csv_header_text() =~= "turn"@ + seq![','] + "timestamp"@ + seq![','] + "model"@ + seq![','] + "input_tokens"@ + seq![','] + "output_tokens"@ + seq![','] + "cache_read"@ + seq![','] + "cache_write"@ + seq![','] + "context_tokens"@ + seq![','] + "has_thinking"@ + seq![','] + "thinking_block_count"@ + seq![','] + "content_blocks"@ + seq![','] + "tool_count"@ + seq![','] + "tools_called"@ + seq![','] + "stop_reason"@ + seq![','] + "cumulative_context"@ + seq![','] + "burn_delta"@ + seq![','] + "skill"@ + seq![','] + "elapsed_sec"@ + seq![','] + "tokens_per_sec"@);
}

proof fn lemma_join_append(a: Seq<Seq<char>>, b: Seq<Seq<char>>)
    requires
        a.len() >= 1,
        b.len() >= 1,
    ensures
        join_commas(a + b) == join_commas(a) + seq![','] + join_commas(b),
    decreases b.len(),
{
    if b.len() == 1 {
        assert((a + b).drop_last() =~= a);
        assert((a + b).last() == b[0]);
    } else {
        lemma_join_append(a, b.drop_last());
        assert((a + b).drop_last() =~= a + b.drop_last());
        assert((a + b).last() == b.last());
        assert(join_commas(a + b) =~= join_commas(a) + seq![','] + join_commas(b));
    }
}

proof fn lemma_csv_row_joins(t: TurnView, elapsed_sec: Seq<char>, tokens_per_sec: Seq<char>)
    ensures
        csv_row_text(t, elapsed_sec, tokens_per_sec) == join_commas(csv_row_cells(t, elapsed_sec, tokens_per_sec)),
{
    let g1_1 = seq![decimal(t.turn as nat)];
    assert(join_commas(g1_1) == decimal(t.turn as nat));
    let g1_2 = g1_1.push(csv_cell(t.timestamp));
    assert(g1_2.drop_last() =~= g1_1);
    assert(join_commas(g1_2) == join_commas(g1_1) + seq![','] + csv_cell(t.timestamp));
    let g1_3 = g1_2.push(csv_cell(t.model));
    assert(g1_3.drop_last() =~= g1_2);
    assert(join_commas(g1_3) == join_commas(g1_2) + seq![','] + csv_cell(t.model));
    let g1 = g1_3;
    assert(join_commas(g1) + seq![','] =~= row_head(t));
    let g2_1 = seq![decimal(t.input_tokens as nat)];
    assert(join_commas(g2_1) == decimal(t.input_tokens as nat));
    let g2_2 = g2_1.push(decimal(t.output_tokens as nat));
    assert(g2_2.drop_last() =~= g2_1);
    assert(join_commas(g2_2) == join_commas(g2_1) + seq![','] + decimal(t.output_tokens as nat));
    let g2_3 = g2_2.push(decimal(t.cache_read_tokens as nat));
    assert(g2_3.drop_last() =~= g2_2);
    assert(join_commas(g2_3) == join_commas(g2_2) + seq![','] + decimal(t.cache_read_tokens as nat));
    let g2_4 = g2_3.push(decimal(t.cache_write_tokens as nat));
    assert(g2_4.drop_last() =~= g2_3);
    assert(join_commas(g2_4) == join_commas(g2_3) + seq![','] + decimal(t.cache_write_tokens as nat));
    let g2_5 = g2_4.push(decimal(t.context_tokens as nat));
    assert(g2_5.drop_last() =~= g2_4);
    assert(join_commas(g2_5) == join_commas(g2_4) + seq![','] + decimal(t.context_tokens as nat));
    let g2 = g2_5;
    assert(join_commas(g2) + seq![','] =~= row_tokens(t));
    let g3_1 = seq![bool_text(t.has_thinking)];
    assert(join_commas(g3_1) == bool_text(t.has_thinking));
    let g3_2 = g3_1.push(decimal(t.thinking_block_count as nat));
    assert(g3_2.drop_last() =~= g3_1);
    assert(join_commas(g3_2) == join_commas(g3_1) + seq![','] + decimal(t.thinking_block_count as nat));
    let g3_3 = g3_2.push(decimal(t.content_blocks as nat));
    assert(g3_3.drop_last() =~= g3_2);
    assert(join_commas(g3_3) == join_commas(g3_2) + seq![','] + decimal(t.content_blocks as nat));
    let g3_4 = g3_3.push(decimal(t.tool_count as nat));
    assert(g3_4.drop_last() =~= g3_3);
    assert(join_commas(g3_4) == join_commas(g3_3) + seq![','] + decimal(t.tool_count as nat));
    let g3_5 = g3_4.push(join_semicolon(t.tools_called));
    assert(g3_5.drop_last() =~= g3_4);
    assert(join_commas(g3_5) == join_commas(g3_4) + seq![','] + join_semicolon(t.tools_called));
    let g3 = g3_5;
    assert(join_commas(g3) + seq![','] =~= row_content(t));
    let g4_1 = seq![csv_cell(t.stop_reason)];
    assert(join_commas(g4_1) == csv_cell(t.stop_reason));
    let g4_2 = g4_1.push(decimal(t.cumulative_context as nat));
    assert(g4_2.drop_last() =~= g4_1);
    assert(join_commas(g4_2) == join_commas(g4_1) + seq![','] + decimal(t.cumulative_context as nat));
    let g4_3 = g4_2.push(signed_decimal(t.burn_delta as int));
    assert(g4_3.drop_last() =~= g4_2);
    assert(join_commas(g4_3) == join_commas(g4_2) + seq![','] + signed_decimal(t.burn_delta as int));
    let g4_4 = g4_3.push(csv_cell(t.skill));
    assert(g4_4.drop_last() =~= g4_3);
    assert(join_commas(g4_4) == join_commas(g4_3) + seq![','] + csv_cell(t.skill));
    let g4_5 = g4_4.push(elapsed_sec);
    assert(g4_5.drop_last() =~= g4_4);
    assert(join_commas(g4_5) == join_commas(g4_4) + seq![','] + elapsed_sec);
    let g4_6 = g4_5.push(tokens_per_sec);
    assert(g4_6.drop_last() =~= g4_5);
    assert(join_commas(g4_6) == join_commas(g4_5) + seq![','] + tokens_per_sec);
    let g4 = g4_6;
    assert(join_commas(g4) =~= row_tail(t, elapsed_sec, tokens_per_sec));
    assert(g1 + g2 + g3 + g4 =~= csv_row_cells(t, elapsed_sec, tokens_per_sec));
    lemma_join_append(g1, g2);
    lemma_join_append(g1 + g2, g3);
    lemma_join_append(g1 + g2 + g3, g4);
    assert(csv_row_text(t, elapsed_sec, tokens_per_sec) =~= join_commas(g1 + g2 + g3 + g4));
}

/// The header line is the column names joined with commas, and a turn's row is
/// one cell per column joined with commas, each cell the field that its
/// column names: the cell under "content_blocks" is the turn's content block
/// count, the one under "tool_count" its tool count, and so on for every
/// column (text cells quoted when they hold a comma, the two rates as given).
pub proof fn law_csv_cells_follow_the_header(t: TurnView, elapsed_sec: Seq<char>, tokens_per_sec: Seq<char>)
    ensures
        csv_header_text() == join_commas(csv_column_names()),
        exists|cells: Seq<Seq<char>>| {
            let names = csv_column_names();
            &&& cells.len() == 19
            &&& csv_row_text(t, elapsed_sec, tokens_per_sec) == #[trigger] join_commas(cells)
            &&& forall|i: int| 0 <= i < 19 && #[trigger] names[i] == "turn"@ ==> cells[i] == decimal(t.turn as nat)
            &&& forall|i: int| 0 <= i < 19 && #[trigger] names[i] == "timestamp"@ ==> cells[i] == csv_cell(t.timestamp)
            &&& forall|i: int| 0 <= i < 19 && #[trigger] names[i] == "model"@ ==> cells[i] == csv_cell(t.model)
            &&& forall|i: int| 0 <= i < 19 && #[trigger] names[i] == "input_tokens"@ ==> cells[i] == decimal(t.input_tokens as nat)
            &&& forall|i: int| 0 <= i < 19 && #[trigger] names[i] == "output_tokens"@ ==> cells[i] == decimal(t.output_tokens as nat)
            &&& forall|i: int| 0 <= i < 19 && #[trigger] names[i] == "cache_read"@ ==> cells[i] == decimal(t.cache_read_tokens as nat)
            &&& forall|i: int| 0 <= i < 19 && #[trigger] names[i] == "cache_write"@ ==> cells[i] == decimal(t.cache_write_tokens as nat)
            &&& forall|i: int| 0 <= i < 19 && #[trigger] names[i] == "context_tokens"@ ==> cells[i] == decimal(t.context_tokens as nat)
            &&& forall|i: int| 0 <= i < 19 && #[trigger] names[i] == "has_thinking"@ ==> cells[i] == bool_text(t.has_thinking)
            &&& forall|i: int| 0 <= i < 19 && #[trigger] names[i] == "thinking_block_count"@ ==> cells[i] == decimal(t.thinking_block_count as nat)
            &&& forall|i: int| 0 <= i < 19 && #[trigger] names[i] == "content_blocks"@ ==> cells[i] == decimal(t.content_blocks as nat)
            &&& forall|i: int| 0 <= i < 19 && #[trigger] names[i] == "tool_count"@ ==> cells[i] == decimal(t.tool_count as nat)
            &&& forall|i: int| 0 <= i < 19 && #[trigger] names[i] == "tools_called"@ ==> cells[i] == join_semicolon(t.tools_called)
            &&& forall|i: int| 0 <= i < 19 && #[trigger] names[i] == "stop_reason"@ ==> cells[i] == csv_cell(t.stop_reason)
            &&& forall|i: int| 0 <= i < 19 && #[trigger] names[i] == "cumulative_context"@ ==> cells[i] == decimal(t.cumulative_context as nat)
            &&& forall|i: int| 0 <= i < 19 && #[trigger] names[i] == "burn_delta"@ ==> cells[i] == signed_decimal(t.burn_delta as int)
            &&& forall|i: int| 0 <= i < 19 && #[trigger] names[i] == "skill"@ ==> cells[i] == csv_cell(t.skill)
            &&& forall|i: int| 0 <= i < 19 && #[trigger] names[i] == "elapsed_sec"@ ==> cells[i] == elapsed_sec
            &&& forall|i: int| 0 <= i < 19 && #[trigger] names[i] == "tokens_per_sec"@ ==> cells[i] == tokens_per_sec
        },
{
    lemma_csv_column_names_distinct();
    lemma_csv_header_joins();
    lemma_csv_row_joins(t, elapsed_sec, tokens_per_sec);
    reveal_strlit("turn");
    reveal_strlit("timestamp");
    reveal_strlit("model");
    reveal_strlit("input_tokens");
    reveal_strlit("output_tokens");
    reveal_strlit("cache_read");
    reveal_strlit("cache_write");
    reveal_strlit("context_tokens");
    reveal_strlit("has_thinking");
    reveal_strlit("thinking_block_count");
    reveal_strlit("content_blocks");
    reveal_strlit("tool_count");
    reveal_strlit("tools_called");
    reveal_strlit("stop_reason");
    reveal_strlit("cumulative_context");
    reveal_strlit("burn_delta");
    reveal_strlit("skill");
    reveal_strlit("elapsed_sec");
    reveal_strlit("tokens_per_sec");
    let c = csv_row_cells(t, elapsed_sec, tokens_per_sec);
    let names = csv_column_names();
    assert forall|i: int, k: int| 0 <= i < 19 && 0 <= k < 19 && #[trigger] names[i] == #[trigger] names[k]
        implies c[i] == c[k] by {
        assert(i == k);
    }
    assert(names[0] == "turn"@ && c[0] == decimal(t.turn as nat));
    assert(names[1] == "timestamp"@ && c[1] == csv_cell(t.timestamp));
    assert(names[2] == "model"@ && c[2] == csv_cell(t.model));
    assert(names[3] == "input_tokens"@ && c[3] == decimal(t.input_tokens as nat));
    assert(names[4] == "output_tokens"@ && c[4] == decimal(t.output_tokens as nat));
    assert(names[5] == "cache_read"@ && c[5] == decimal(t.cache_read_tokens as nat));
    assert(names[6] == "cache_write"@ && c[6] == decimal(t.cache_write_tokens as nat));
    assert(names[7] == "context_tokens"@ && c[7] == decimal(t.context_tokens as nat));
    assert(names[8] == "has_thinking"@ && c[8] == bool_text(t.has_thinking));
    assert(names[9] == "thinking_block_count"@ && c[9] == decimal(t.thinking_block_count as nat));
    assert(names[10] == "content_blocks"@ && c[10] == decimal(t.content_blocks as nat));
    assert(names[11] == "tool_count"@ && c[11] == decimal(t.tool_count as nat));
    assert(names[12] == "tools_called"@ && c[12] == join_semicolon(t.tools_called));
    assert(names[13] == "stop_reason"@ && c[13] == csv_cell(t.stop_reason));
    assert(names[14] == "cumulative_context"@ && c[14] == decimal(t.cumulative_context as nat));
    assert(names[15] == "burn_delta"@ && c[15] == signed_decimal(t.burn_delta as int));
    assert(names[16] == "skill"@ && c[16] == csv_cell(t.skill));
    assert(names[17] == "elapsed_sec"@ && c[17] == elapsed_sec);
    assert(names[18] == "tokens_per_sec"@ && c[18] == tokens_per_sec);
    assert(csv_row_text(t, elapsed_sec, tokens_per_sec) == join_commas(c));
}

} // verus!
