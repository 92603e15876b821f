//! Token usage, turn records and the session summary.
use vstd::prelude::*;
use crate::json::{JsonValue, get_u64, u64_in};
use crate::parse::{TurnAccumulator, AccView, block_count};
use crate::ranking::{lemma_lex_transitive, lemma_lex_irreflexive, Tally, names_unique, tally_map, tally_sum, tally_bump, tally_bump_all, tally_add, tally_add_all, lemma_tally_count_le_sum, lemma_tally_map_index, lemma_tally_map_domain, rank, is_ranking, ranks_before, lex_lt};

verus! {

/// The four token counters of one API response.
#[derive(Debug, Clone, Copy, PartialEq, Eq, Structural)]
pub struct Usage {
    pub input_tokens: u64,
    pub output_tokens: u64,
    pub cache_read_input_tokens: u64,
    pub cache_creation_input_tokens: u64,
}

/// The counter under `key`, 0 when it is missing or not a non-negative integer.
pub open spec fn counter_or_zero(u: JsonValue, key: Seq<char>) -> u64 {
    match u64_in(Some(u), key) {
        Some(n) => n,
        None => 0,
    }
}

/// The usage that a `usage` object records.
pub open spec fn usage_of(u: JsonValue) -> Usage {
    Usage {
        input_tokens: counter_or_zero(u, "input_tokens"@),
        output_tokens: counter_or_zero(u, "output_tokens"@),
        cache_read_input_tokens: counter_or_zero(u, "cache_read_input_tokens"@),
        cache_creation_input_tokens: counter_or_zero(u, "cache_creation_input_tokens"@),
    }
}

pub open spec fn zero_usage() -> Usage {
    Usage { input_tokens: 0, output_tokens: 0, cache_read_input_tokens: 0, cache_creation_input_tokens: 0 }
}

impl Default for Usage {
    fn default() -> (r: Usage)
        ensures
            r == zero_usage(),
    {
        Usage { input_tokens: 0, output_tokens: 0, cache_read_input_tokens: 0, cache_creation_input_tokens: 0 }
    }
}

impl Usage {
    /// Reads a `usage` object (the object at `message.usage`). A counter that is
    /// missing or not a non-negative integer counts as 0.
    pub fn from_value(u: &JsonValue) -> (r: Usage)
        ensures
            r == usage_of(*u),
    {
        Usage {
            input_tokens: match get_u64(u, "input_tokens") { Some(n) => n, None => 0 },
            output_tokens: match get_u64(u, "output_tokens") { Some(n) => n, None => 0 },
            cache_read_input_tokens: match get_u64(u, "cache_read_input_tokens") { Some(n) => n, None => 0 },
            cache_creation_input_tokens: match get_u64(u, "cache_creation_input_tokens") { Some(n) => n, None => 0 },
        }
    }
}

/// `a + b`, capped at `u64::MAX`.
pub open spec fn sat_add(a: u64, b: u64) -> u64 {
    if a + b > u64::MAX { u64::MAX } else { (a + b) as u64 }
}

/// The milliseconds since the Unix epoch that chrono's RFC 3339 parser reads
/// from `ts`, or `None` when it rejects the text.
pub uninterp spec fn rfc3339_millis(ts: Seq<char>) -> Option<i64>;

/// Parses an RFC 3339 timestamp to milliseconds since the epoch.
///
/// Trusted: calls `chrono::DateTime::parse_from_rfc3339` and
/// `DateTime::timestamp_millis`. The contract only names the result: it is a
/// function of the text alone, `None` exactly when chrono rejects the text.
#[verifier::external_body]
pub fn parse_ts_ms(ts: &str) -> (r: Option<i64>)
    ensures
        r == rfc3339_millis(ts@),
{
    match chrono::DateTime::parse_from_rfc3339(ts) {
        Ok(dt) => Some(dt.timestamp_millis()),
        Err(_) => None,
    }
}

} // verus!

verus! {

// ── Turns ────────────────────────────────────────────────────────────────────

/// One assistant turn: one `message.id` group of the transcript.
pub struct Turn {
    pub turn: u32,
    pub timestamp: String,
    pub model: String,
    pub input_tokens: u64,
    pub output_tokens: u64,
    pub cache_read_tokens: u64,
    pub cache_write_tokens: u64,
    /// Real context size: input + cache read + cache write (capped at `u64::MAX`).
    pub context_tokens: u64,
    pub has_thinking: bool,
    pub thinking_block_count: u32,
    pub content_blocks: u32,
    pub tools_called: Vec<String>,
    pub tool_count: u32,
    pub stop_reason: String,
    pub cumulative_context: u64,
    /// Signed change in `context_tokens` since the previous turn; 0 for turn 1.
    pub burn_delta: i64,
    pub skill: String,
    /// Milliseconds since the previous turn's timestamp; 0 for turn 1, when a
    /// timestamp does not parse, or when time went backwards.
    pub elapsed_ms: u64,
}

pub struct TurnView {
    pub turn: u32,
    pub timestamp: Seq<char>,
    pub model: Seq<char>,
    pub input_tokens: u64,
    pub output_tokens: u64,
    pub cache_read_tokens: u64,
    pub cache_write_tokens: u64,
    pub context_tokens: u64,
    pub has_thinking: bool,
    pub thinking_block_count: u32,
    pub content_blocks: u32,
    pub tools_called: Seq<Seq<char>>,
    pub tool_count: u32,
    pub stop_reason: Seq<char>,
    pub cumulative_context: u64,
    pub burn_delta: i64,
    pub skill: Seq<char>,
    pub elapsed_ms: u64,
}

impl View for Turn {
    type V = TurnView;

    open spec fn view(&self) -> TurnView {
        TurnView {
            turn: self.turn,
            timestamp: self.timestamp@,
            model: self.model@,
            input_tokens: self.input_tokens,
            output_tokens: self.output_tokens,
            cache_read_tokens: self.cache_read_tokens,
            cache_write_tokens: self.cache_write_tokens,
            context_tokens: self.context_tokens,
            has_thinking: self.has_thinking,
            thinking_block_count: self.thinking_block_count,
            content_blocks: self.content_blocks,
            tools_called: self.tools_called.deep_view(),
            tool_count: self.tool_count,
            stop_reason: self.stop_reason@,
            cumulative_context: self.cumulative_context,
            burn_delta: self.burn_delta,
            skill: self.skill@,
            elapsed_ms: self.elapsed_ms,
        }
    }
}

/// Input plus everything served from or written to the cache.
pub open spec fn context_of(u: Usage) -> u64 {
    sat_add(sat_add(u.input_tokens, u.cache_read_input_tokens), u.cache_creation_input_tokens)
}

/// `x` clamped into the range of `i64`.
pub open spec fn clamp_i64(x: int) -> i64 {
    if x < i64::MIN {
        i64::MIN
    } else if x > i64::MAX {
        i64::MAX
    } else {
        x as i64
    }
}

/// The signed change from the previous context size; 0 when there is none.
pub open spec fn burn_delta_of(ctx: u64, prev: Option<u64>) -> i64 {
    match prev {
        None => 0,
        Some(p) => clamp_i64(ctx - p),
    }
}

/// Milliseconds from the previous timestamp to `ts`, never negative; 0 when
/// there is no previous timestamp or `ts` does not parse.
pub open spec fn elapsed_ms_of(ts: Seq<char>, prev_ts: Option<i64>) -> u64 {
    match prev_ts {
        None => 0,
        Some(p) => match rfc3339_millis(ts) {
            Some(t) => if t > p { (t - p) as u64 } else { 0 },
            None => 0,
        },
    }
}

pub open spec fn or_empty_text(s: Option<Seq<char>>) -> Seq<char> {
    match s {
        Some(x) => x,
        None => Seq::empty(),
    }
}

/// The turn record that a finished group becomes.
pub open spec fn turn_of(acc: AccView, n: u32, prev_ctx: Option<u64>, prev_ts: Option<i64>, cum: u64) -> TurnView {
    let u = match acc.usage {
        Some(u) => u,
        None => zero_usage(),
    };
    let ctx = context_of(u);
    TurnView {
        turn: n,
        timestamp: acc.timestamp,
        model: acc.model,
        input_tokens: u.input_tokens,
        output_tokens: u.output_tokens,
        cache_read_tokens: u.cache_read_input_tokens,
        cache_write_tokens: u.cache_creation_input_tokens,
        context_tokens: ctx,
        has_thinking: acc.thinking_count > 0,
        thinking_block_count: acc.thinking_count,
        content_blocks: block_count(acc) as u32,
        tools_called: acc.tool_names,
        tool_count: acc.tool_names.len() as u32,
        stop_reason: or_empty_text(acc.stop_reason),
        cumulative_context: sat_add(cum, ctx),
        burn_delta: burn_delta_of(ctx, prev_ctx),
        skill: or_empty_text(acc.skill),
        elapsed_ms: elapsed_ms_of(acc.timestamp, prev_ts),
    }
}

fn string_or_empty(s: Option<String>) -> (r: String)
    ensures
        r@ == or_empty_text(s.deep_view()),
{
    match s {
        Some(x) => x,
        None => String::new(),
    }
}

/// Turns a finished group into turn number `turn_num`, adding its context size
/// to the running total `cum_context`. `prev_*` are the previous turn's context
/// size and timestamp, `None` for turn 1.
pub fn flush_turn(
    acc: TurnAccumulator,
    turn_num: u32,
    prev_context_tokens: Option<u64>,
    prev_timestamp_ms: Option<i64>,
    cum_context: &mut u64,
) -> (r: Turn)
    requires
        block_count(acc@) <= u32::MAX,
    ensures
        r@ == turn_of(acc@, turn_num, prev_context_tokens, prev_timestamp_ms, *old(cum_context)),
        *final(cum_context) == r.cumulative_context,
{
    let ghost a = acc@;
    let usage = match acc.usage {
        Some(u) => u,
        None => Usage::default(),
    };
    let input_tokens = usage.input_tokens;
    let output_tokens = usage.output_tokens;
    let cache_read_tokens = usage.cache_read_input_tokens;
    let cache_write_tokens = usage.cache_creation_input_tokens;
    let context_tokens = input_tokens.saturating_add(cache_read_tokens).saturating_add(cache_write_tokens);
    *cum_context = cum_context.saturating_add(context_tokens);
    let cumulative_context = *cum_context;
    let burn_delta: i64 = match prev_context_tokens {
        None => 0,
        Some(prev) => {
            let delta: i128 = context_tokens as i128 - prev as i128;
            if delta < i64::MIN as i128 {
                i64::MIN
            } else if delta > i64::MAX as i128 {
                i64::MAX
            } else {
                delta as i64
            }
        },
    };
    let elapsed_ms: u64 = match prev_timestamp_ms {
        None => 0,
        Some(prev_ms) => match parse_ts_ms(acc.timestamp.as_str()) {
            Some(this_ms) => if this_ms > prev_ms {
                (this_ms as i128 - prev_ms as i128) as u64
            } else {
                0
            },
            None => 0,
        },
    };
    let has_thinking = acc.thinking_count > 0;
    let tool_count = acc.tool_names.len() as u32;
    let content_blocks = acc.thinking_count + acc.text_count + tool_count;
    Turn {
        turn: turn_num,
        timestamp: acc.timestamp,
        model: acc.model,
        input_tokens,
        output_tokens,
        cache_read_tokens,
        cache_write_tokens,
        context_tokens,
        has_thinking,
        thinking_block_count: acc.thinking_count,
        content_blocks,
        tools_called: acc.tool_names,
        tool_count,
        stop_reason: string_or_empty(acc.stop_reason),
        cumulative_context,
        burn_delta,
        skill: string_or_empty(acc.skill),
        elapsed_ms,
    }
}

} // verus!

verus! {

// ── Summary accumulation ─────────────────────────────────────────────────────

/// Running totals over the turns of the analysed slice.
pub struct SummaryAccumulator {
    pub total_input: u64,
    pub total_output: u64,
    pub total_cache_read: u64,
    pub total_cache_write: u64,
    pub turns_with_thinking: u32,
    pub total_thinking_output: u64,
    pub total_turns: u32,
    /// Sum of `burn_delta` over turns 2..N of the slice, exact.
    pub burn_sum_excl_first: i128,
    pub peak_burn_value: i64,
    pub peak_burn_turn: u32,
    /// Tools of the peak-burn turn.
    pub peak_burn_tools: Vec<String>,
    /// Calls per tool name, each name listed once.
    pub tool_counts: Vec<(String, u32)>,
    /// Turns per non-empty model name, each name listed once.
    pub models_seen: Vec<(String, u32)>,
    /// The last turn's context size.
    pub final_context_size: u64,
}

pub struct SummaryView {
    pub total_input: u64,
    pub total_output: u64,
    pub total_cache_read: u64,
    pub total_cache_write: u64,
    pub turns_with_thinking: u32,
    pub total_thinking_output: u64,
    pub total_turns: u32,
    pub burn_sum_excl_first: i128,
    pub peak_burn_value: i64,
    pub peak_burn_turn: u32,
    pub peak_burn_tools: Seq<Seq<char>>,
    pub tool_counts: Map<Seq<char>, u32>,
    pub models_seen: Map<Seq<char>, u32>,
    pub final_context_size: u64,
}

impl View for SummaryAccumulator {
    type V = SummaryView;

    open spec fn view(&self) -> SummaryView {
        SummaryView {
            total_input: self.total_input,
            total_output: self.total_output,
            total_cache_read: self.total_cache_read,
            total_cache_write: self.total_cache_write,
            turns_with_thinking: self.turns_with_thinking,
            total_thinking_output: self.total_thinking_output,
            total_turns: self.total_turns,
            burn_sum_excl_first: self.burn_sum_excl_first,
            peak_burn_value: self.peak_burn_value,
            peak_burn_turn: self.peak_burn_turn,
            peak_burn_tools: self.peak_burn_tools.deep_view(),
            tool_counts: tally_map(self.tool_counts.deep_view()),
            models_seen: tally_map(self.models_seen.deep_view()),
            final_context_size: self.final_context_size,
        }
    }
}

/// The largest magnitude a burn delta can have.
pub open spec fn burn_bound() -> int {
    0x8000_0000_0000_0000
}

impl SummaryAccumulator {
    /// Tallies list each name once; the burn sum is bounded by the turn count.
    pub open spec fn wf(&self) -> bool {
        &&& names_unique(self.tool_counts.deep_view())
        &&& names_unique(self.models_seen.deep_view())
        &&& -(self.total_turns * burn_bound()) <= self.burn_sum_excl_first <= self.total_turns * burn_bound()
        &&& tally_sum(self.models_seen.deep_view()) <= self.total_turns
        &&& self.turns_with_thinking <= self.total_turns
    }

    /// Calls recorded in the tool tally.
    pub open spec fn tool_calls(&self) -> nat {
        tally_sum(self.tool_counts.deep_view())
    }
}

pub open spec fn empty_summary() -> SummaryView {
    SummaryView {
        total_input: 0,
        total_output: 0,
        total_cache_read: 0,
        total_cache_write: 0,
        turns_with_thinking: 0,
        total_thinking_output: 0,
        total_turns: 0,
        burn_sum_excl_first: 0,
        peak_burn_value: 0,
        peak_burn_turn: 0,
        peak_burn_tools: Seq::empty(),
        tool_counts: Map::empty(),
        models_seen: Map::empty(),
        final_context_size: 0,
    }
}

impl Default for SummaryAccumulator {
    fn default() -> (r: SummaryAccumulator)
        ensures
            r@ == empty_summary(),
            r.wf(),
            r.tool_calls() == 0,
    {
        let r = SummaryAccumulator {
            total_input: 0,
            total_output: 0,
            total_cache_read: 0,
            total_cache_write: 0,
            turns_with_thinking: 0,
            total_thinking_output: 0,
            total_turns: 0,
            burn_sum_excl_first: 0,
            peak_burn_value: 0,
            peak_burn_turn: 0,
            peak_burn_tools: Vec::new(),
            tool_counts: Vec::new(),
            models_seen: Vec::new(),
            final_context_size: 0,
        };
        assert(r.peak_burn_tools.deep_view() =~= Seq::<Seq<char>>::empty());
        assert(r.tool_counts.deep_view() =~= Seq::<(Seq<char>, u32)>::empty());
        assert(r.models_seen.deep_view() =~= Seq::<(Seq<char>, u32)>::empty());
        assert(tally_map(r.tool_counts.deep_view()) =~= Map::empty());
        r
    }
}

/// The totals after turn `t` is recorded. Turns numbered below `from_turn` are
/// outside the slice and change nothing; turn 1's burn delta (always 0) is not
/// part of the burn sum or the peak.
pub open spec fn record_turn(s: SummaryView, t: TurnView, from_turn: u32) -> SummaryView {
    if t.turn < from_turn {
        s
    } else {
        let peak = t.turn >= 2 && t.burn_delta > s.peak_burn_value;
        SummaryView {
            total_input: sat_add(s.total_input, t.input_tokens),
            total_output: sat_add(s.total_output, t.output_tokens),
            total_cache_read: sat_add(s.total_cache_read, t.cache_read_tokens),
            total_cache_write: sat_add(s.total_cache_write, t.cache_write_tokens),
            total_turns: (s.total_turns + 1) as u32,
            final_context_size: t.context_tokens,
            turns_with_thinking: if t.has_thinking { (s.turns_with_thinking + 1) as u32 } else { s.turns_with_thinking },
            total_thinking_output: if t.has_thinking {
                sat_add(s.total_thinking_output, t.output_tokens)
            } else {
                s.total_thinking_output
            },
            tool_counts: tally_bump_all(s.tool_counts, t.tools_called),
            models_seen: if t.model.len() > 0 { tally_bump(s.models_seen, t.model) } else { s.models_seen },
            burn_sum_excl_first: if t.turn >= 2 {
                (s.burn_sum_excl_first + t.burn_delta) as i128
            } else {
                s.burn_sum_excl_first
            },
            peak_burn_value: if peak { t.burn_delta } else { s.peak_burn_value },
            peak_burn_turn: if peak { t.turn } else { s.peak_burn_turn },
            peak_burn_tools: if peak { t.tools_called } else { s.peak_burn_tools },
        }
    }
}

fn clone_names(v: &Vec<String>) -> (r: Vec<String>)
    ensures
        r.deep_view() == v.deep_view(),
{
    let mut r: Vec<String> = Vec::new();
    let mut i: usize = 0;
    while i < v.len()
        invariant
            0 <= i <= v.len(),
            r.deep_view() == v.deep_view().take(i as int),
        decreases v.len() - i,
    {
        let ghost before = r.deep_view();
        let name = v[i].clone();
        assert(name@ == v.deep_view()[i as int]);
        r.push(name);
        assert(r.deep_view() =~= before.push(name@));
        assert(r.deep_view() =~= v.deep_view().take(i + 1));
        i = i + 1;
    }
    assert(v.deep_view().take(v.len() as int) =~= v.deep_view());
    r
}

impl SummaryAccumulator {
    /// Records a flushed turn (see `record_turn`).
    pub fn record(&mut self, t: &Turn, from_turn: u32)
        requires
            old(self).wf(),
            t.turn >= from_turn ==> {
                &&& old(self).total_turns < u32::MAX
                &&& old(self).tool_calls() + t.tools_called.len() <= u32::MAX
            },
        ensures
            final(self)@ == record_turn(old(self)@, t@, from_turn),
            final(self).wf(),
            final(self).tool_calls() == if t.turn >= from_turn {
                old(self).tool_calls() + t.tools_called.len()
            } else {
                old(self).tool_calls() as int
            },
    {
        if t.turn < from_turn {
            return;
        }
        self.total_input = self.total_input.saturating_add(t.input_tokens);
        self.total_output = self.total_output.saturating_add(t.output_tokens);
        self.total_cache_read = self.total_cache_read.saturating_add(t.cache_read_tokens);
        self.total_cache_write = self.total_cache_write.saturating_add(t.cache_write_tokens);
        self.total_turns = self.total_turns + 1;
        self.final_context_size = t.context_tokens;
        if t.has_thinking {
            self.turns_with_thinking = self.turns_with_thinking + 1;
            self.total_thinking_output = self.total_thinking_output.saturating_add(t.output_tokens);
        }
        tally_add_all(&mut self.tool_counts, &t.tools_called);
        if !t.model.as_str().is_empty() {
            proof {
                if tally_map(self.models_seen.deep_view()).contains_key(t.model@) {
                    lemma_tally_count_le_sum(self.models_seen.deep_view(), t.model@);
                }
            }
            tally_add(&mut self.models_seen, t.model.as_str());
        }
        if t.turn >= 2 {
            self.burn_sum_excl_first = self.burn_sum_excl_first + t.burn_delta as i128;
            if t.burn_delta > self.peak_burn_value {
                self.peak_burn_value = t.burn_delta;
                self.peak_burn_turn = t.turn;
                self.peak_burn_tools = clone_names(&t.tools_called);
            }
        }
    }
}

} // verus!

verus! {

// ── Subagents ────────────────────────────────────────────────────────────────

/// Tokens reported by one subagent task in a queue-operation line.
pub struct SubagentRecord {
    /// The last non-empty timestamp seen before the record.
    pub timestamp: String,
    pub tokens: u64,
    pub tool_uses: u32,
    pub duration_ms: u64,
}

/// Token usage summed over the `subagents/agent-*.jsonl` files of a session.
pub struct SubagentSplit {
    pub input: u64,
    pub output: u64,
    pub cache_read: u64,
    pub cache_write: u64,
    /// Files that yielded at least one usable turn.
    pub agent_file_count: u32,
}

impl Default for SubagentSplit {
    fn default() -> (r: SubagentSplit)
        ensures
            r.input == 0 && r.output == 0 && r.cache_read == 0 && r.cache_write == 0,
            r.agent_file_count == 0,
    {
        SubagentSplit { input: 0, output: 0, cache_read: 0, cache_write: 0, agent_file_count: 0 }
    }
}

impl SubagentSplit {
    /// Adds the usage of one agent file that yielded a usable turn.
    pub fn add_file(&mut self, u: Usage)
        requires
            old(self).agent_file_count < u32::MAX,
        ensures
            final(self).input == sat_add(old(self).input, u.input_tokens),
            final(self).output == sat_add(old(self).output, u.output_tokens),
            final(self).cache_read == sat_add(old(self).cache_read, u.cache_read_input_tokens),
            final(self).cache_write == sat_add(old(self).cache_write, u.cache_creation_input_tokens),
            final(self).agent_file_count == old(self).agent_file_count + 1,
    {
        self.input = self.input.saturating_add(u.input_tokens);
        self.output = self.output.saturating_add(u.output_tokens);
        self.cache_read = self.cache_read.saturating_add(u.cache_read_input_tokens);
        self.cache_write = self.cache_write.saturating_add(u.cache_creation_input_tokens);
        self.agent_file_count = self.agent_file_count + 1;
    }
}

/// The tokens of the records, summed, capped at `u64::MAX`.
pub open spec fn subagent_tokens_sum(s: Seq<SubagentRecord>) -> u64
    decreases s.len(),
{
    if s.len() == 0 {
        0
    } else {
        sat_add(subagent_tokens_sum(s.drop_last()), s.last().tokens)
    }
}

/// The durations of the records, summed, capped at `u64::MAX`.
pub open spec fn subagent_duration_sum(s: Seq<SubagentRecord>) -> u64
    decreases s.len(),
{
    if s.len() == 0 {
        0
    } else {
        sat_add(subagent_duration_sum(s.drop_last()), s.last().duration_ms)
    }
}

// ── Session summary ─────────────────────────────────────────────────────────

/// Session-level values that are not part of the turn totals.
pub struct SessionMeta<'a> {
    pub session_id: &'a str,
    pub start_time: &'a str,
    pub end_time: &'a str,
    pub user_turns: u32,
    pub from_turn: u32,
}

/// Everything reported about one session. Rates and ratios are left to the
/// presentation: they follow from the counts here.
pub struct SessionSummary {
    pub session_id: String,
    /// The most frequent model; ties go to the name that sorts first.
    pub model: String,
    /// All distinct model names, sorted.
    pub models_seen: Vec<String>,
    pub start_time: String,
    pub end_time: String,
    /// `end - start` in milliseconds; 0 when either timestamp does not parse.
    pub duration_ms: i128,
    pub total_turns: u32,
    pub total_input_tokens: u64,
    pub total_output_tokens: u64,
    pub total_cache_read: u64,
    pub total_cache_write: u64,
    pub turns_with_thinking: u32,
    pub total_thinking_output: u64,
    pub total_non_thinking_output: u64,
    /// Sum of the burn deltas of turns 2..N of the slice.
    pub burn_sum_excl_first: i128,
    pub peak_burn_turn: u32,
    pub peak_burn_value: i64,
    /// All tools, count descending, ties by name ascending.
    pub tool_frequency: Vec<(String, u32)>,
    /// The first five of `tool_frequency`.
    pub top_tools: Vec<(String, u32)>,
    pub total_subagent_tokens: u64,
    pub subagent_count: u32,
    pub subagent_total_duration_ms: u64,
    pub user_turns: u32,
    pub final_context_size: u64,
    /// 1 for the full session; more for a slice starting at that turn.
    pub from_turn: u32,
    pub subagent_input_tokens: u64,
    pub subagent_output_tokens: u64,
    pub subagent_cache_read_tokens: u64,
    pub subagent_cache_write_tokens: u64,
    pub subagent_agent_file_count: u32,
    /// input + output + cache read + cache write of the split, capped.
    pub subagent_usage_total_tokens: u64,
}

/// `r` lists the entries of the tally `m` in the order of `ranks_before`.
pub open spec fn ranks_tally(r: Tally, m: Map<Seq<char>, u32>, by_count: bool) -> bool {
    &&& forall|i: int| 0 <= i < r.len() ==> #[trigger] m.contains_key(r[i].0) && m[r[i].0] == r[i].1
    &&& forall|k: Seq<char>| m.contains_key(k) ==> exists|i: int| 0 <= i < r.len() && #[trigger] r[i].0 == k
    &&& forall|i: int, j: int| 0 <= i < j < r.len() ==> ranks_before(#[trigger] r[i], #[trigger] r[j], by_count)
}

proof fn lemma_ranks_before_asymmetric(a: (Seq<char>, u32), b: (Seq<char>, u32), by_count: bool)
    ensures
        !(ranks_before(a, b, by_count) && ranks_before(b, a, by_count)),
{
    if !(by_count && a.1 != b.1) && lex_lt(a.0, b.0) && lex_lt(b.0, a.0) {
        lemma_lex_transitive(a.0, b.0, a.0);
        lemma_lex_irreflexive(a.0);
    }
}

/// A tally has one ranking: two rankings of the same tally are equal.
pub proof fn lemma_ranks_tally_unique(r1: Tally, r2: Tally, m: Map<Seq<char>, u32>, by_count: bool)
    requires
        ranks_tally(r1, m, by_count),
        ranks_tally(r2, m, by_count),
    ensures
        r1 == r2,
    decreases r1.len(),
{
    if r1.len() == 0 {
        if r2.len() > 0 {
            assert(m.contains_key(r2[0].0));
            let i = choose|i: int| 0 <= i < r1.len() && #[trigger] r1[i].0 == r2[0].0;
        }
        assert(r1 =~= r2);
    } else {
        let a = r1[0];
        assert(m.contains_key(a.0));
        let j = choose|j: int| 0 <= j < r2.len() && #[trigger] r2[j].0 == a.0;
        let b = r2[0];
        assert(m.contains_key(b.0));
        let i = choose|i: int| 0 <= i < r1.len() && #[trigger] r1[i].0 == b.0;
        assert(r2[j] == a);
        assert(r1[i] == b);
        if a != b {
            assert(i > 0 && j > 0);
            assert(ranks_before(r1[0], r1[i], by_count));
            assert(ranks_before(r2[0], r2[j], by_count));
            lemma_ranks_before_asymmetric(a, b, by_count);
        }
        let m2 = m.remove(a.0);
        let d1 = r1.drop_first();
        let d2 = r2.drop_first();
        assert forall|k: int| 0 <= k < d1.len() implies #[trigger] d1[k].0 != a.0 by {
            assert(d1[k] == r1[k + 1]);
            assert(ranks_before(r1[0], r1[k + 1], by_count));
            if d1[k].0 == a.0 {
                assert(m[r1[k + 1].0] == r1[k + 1].1);
                lemma_lex_irreflexive(a.0);
            }
        }
        assert forall|k: int| 0 <= k < d2.len() implies #[trigger] d2[k].0 != a.0 by {
            assert(d2[k] == r2[k + 1]);
            assert(ranks_before(r2[0], r2[k + 1], by_count));
            if d2[k].0 == a.0 {
                assert(m[r2[k + 1].0] == r2[k + 1].1);
                lemma_lex_irreflexive(a.0);
            }
        }
        assert forall|k: int| 0 <= k < d1.len() implies #[trigger] m2.contains_key(d1[k].0) && m2[d1[k].0] == d1[k].1 by {
            assert(d1[k] == r1[k + 1]);
            assert(m.contains_key(r1[k + 1].0));
        }
        assert forall|k: int| 0 <= k < d2.len() implies #[trigger] m2.contains_key(d2[k].0) && m2[d2[k].0] == d2[k].1 by {
            assert(d2[k] == r2[k + 1]);
            assert(m.contains_key(r2[k + 1].0));
        }
        assert forall|key: Seq<char>| m2.contains_key(key) implies exists|k: int| 0 <= k < d1.len() && #[trigger] d1[k].0 == key by {
            assert(m.contains_key(key));
            let q = choose|q: int| 0 <= q < r1.len() && #[trigger] r1[q].0 == key;
            assert(q != 0);
            assert(d1[q - 1] == r1[q]);
        }
        assert forall|key: Seq<char>| m2.contains_key(key) implies exists|k: int| 0 <= k < d2.len() && #[trigger] d2[k].0 == key by {
            assert(m.contains_key(key));
            let q = choose|q: int| 0 <= q < r2.len() && #[trigger] r2[q].0 == key;
            assert(q != 0);
            assert(d2[q - 1] == r2[q]);
        }
        assert forall|x: int, y: int| 0 <= x < y < d1.len() implies ranks_before(#[trigger] d1[x], #[trigger] d1[y], by_count) by {
            assert(d1[x] == r1[x + 1] && d1[y] == r1[y + 1]);
        }
        assert forall|x: int, y: int| 0 <= x < y < d2.len() implies ranks_before(#[trigger] d2[x], #[trigger] d2[y], by_count) by {
            assert(d2[x] == r2[x + 1] && d2[y] == r2[y + 1]);
        }
        lemma_ranks_tally_unique(d1, d2, m2, by_count);
        assert(r1 =~= seq![a] + d1);
        assert(r2 =~= seq![a] + d2);
    }
}

/// A tally has one top name.
pub proof fn lemma_top_name_unique(n1: Seq<char>, n2: Seq<char>, m: Map<Seq<char>, u32>)
    requires
        is_top_name(n1, m),
        is_top_name(n2, m),
    ensures
        n1 == n2,
{
    if m.dom() != Set::<Seq<char>>::empty() && n1 != n2 {
        assert(m.contains_key(n1) && m.contains_key(n2));
        lemma_ranks_before_asymmetric((n1, m[n1]), (n2, m[n2]), true);
    }
}

/// Records with the same views have the same sums.
pub proof fn lemma_record_sums(a: Seq<SubagentRecord>, b: Seq<SubagentRecord>)
    requires
        a.len() == b.len(),
        forall|i: int| 0 <= i < a.len() ==> a[i].tokens == b[i].tokens && a[i].duration_ms == b[i].duration_ms,
    ensures
        subagent_tokens_sum(a) == subagent_tokens_sum(b),
        subagent_duration_sum(a) == subagent_duration_sum(b),
    decreases a.len(),
{
    if a.len() > 0 {
        let da = a.drop_last();
        let db = b.drop_last();
        assert forall|i: int| 0 <= i < da.len() implies da[i].tokens == db[i].tokens && da[i].duration_ms == db[i].duration_ms by {
            assert(da[i] == a[i] && db[i] == b[i]);
        }
        lemma_record_sums(da, db);
        assert(a.last() == a[a.len() - 1] && b.last() == b[b.len() - 1]);
    }
}

/// `name` is the most frequent in `m`, ties going to the name that sorts first;
/// empty when `m` is.
pub open spec fn is_top_name(name: Seq<char>, m: Map<Seq<char>, u32>) -> bool {
    if m.dom() == Set::<Seq<char>>::empty() {
        name.len() == 0
    } else {
        &&& m.contains_key(name)
        &&& forall|k: Seq<char>| #[trigger] m.contains_key(k) && k != name ==> ranks_before((name, m[name]), (k, m[k]), true)
    }
}

/// `e - s` when both timestamps parse, else 0.
pub open spec fn duration_between(start: Seq<char>, end: Seq<char>) -> int {
    match (rfc3339_millis(start), rfc3339_millis(end)) {
        (Some(s), Some(e)) => e - s,
        _ => 0,
    }
}

proof fn lemma_ranking_ranks_tally(r: Tally, t: Tally, by_count: bool)
    requires
        is_ranking(r, t, by_count),
        names_unique(t),
    ensures
        ranks_tally(r, tally_map(t), by_count),
{
    assert forall|i: int| 0 <= i < r.len() implies #[trigger] tally_map(t).contains_key(r[i].0) && tally_map(t)[r[i].0] == r[i].1 by {
        assert(r.contains(r[i]));
        assert(t.contains(r[i]));
        let j = choose|j: int| 0 <= j < t.len() && t[j] == r[i];
        lemma_tally_map_index(t, j);
    }
    assert forall|k: Seq<char>| tally_map(t).contains_key(k) implies exists|i: int| 0 <= i < r.len() && #[trigger] r[i].0 == k by {
        lemma_tally_map_domain(t, k);
        let j = choose|j: int| 0 <= j < t.len() && #[trigger] t[j].0 == k;
        assert(t.contains(t[j]));
        assert(r.contains(t[j]));
        let i = choose|i: int| 0 <= i < r.len() && r[i] == t[j];
        assert(r[i].0 == k);
    }
}

fn clone_entries(v: &Vec<(String, u32)>, n: usize) -> (r: Vec<(String, u32)>)
    requires
        n <= v.len(),
    ensures
        r.deep_view() == v.deep_view().take(n as int),
{
    let mut r: Vec<(String, u32)> = Vec::new();
    let mut i: usize = 0;
    while i < n
        invariant
            0 <= i <= n <= v.len(),
            r.deep_view() == v.deep_view().take(i as int),
        decreases n - i,
    {
        let ghost before = r.deep_view();
        let e = (v[i].0.clone(), v[i].1);
        assert(e.deep_view() == v.deep_view()[i as int]);
        r.push(e);
        assert(r.deep_view() =~= before.push(e.deep_view()));
        assert(r.deep_view() =~= v.deep_view().take(i + 1));
        i = i + 1;
    }
    r
}

fn names_of(v: &Vec<(String, u32)>) -> (r: Vec<String>)
    ensures
        r.deep_view() == v.deep_view().map_values(|e: (Seq<char>, u32)| e.0),
{
    let mut r: Vec<String> = Vec::new();
    let mut i: usize = 0;
    while i < v.len()
        invariant
            0 <= i <= v.len(),
            r.deep_view() == v.deep_view().take(i as int).map_values(|e: (Seq<char>, u32)| e.0),
        decreases v.len() - i,
    {
        let ghost before = r.deep_view();
        let name = v[i].0.clone();
        assert(name@ == v.deep_view()[i as int].0);
        r.push(name);
        assert(r.deep_view() =~= before.push(name@));
        assert(r.deep_view() =~= v.deep_view().take(i + 1).map_values(|e: (Seq<char>, u32)| e.0));
        i = i + 1;
    }
    assert(v.deep_view().take(v.len() as int) =~= v.deep_view());
    r
}

fn sum_subagents(subagents: &Vec<SubagentRecord>) -> (r: (u64, u64))
    ensures
        r.0 == subagent_tokens_sum(subagents@),
        r.1 == subagent_duration_sum(subagents@),
{
    let mut tokens: u64 = 0;
    let mut duration: u64 = 0;
    let mut i: usize = 0;
    while i < subagents.len()
        invariant
            0 <= i <= subagents.len(),
            tokens == subagent_tokens_sum(subagents@.take(i as int)),
            duration == subagent_duration_sum(subagents@.take(i as int)),
        decreases subagents.len() - i,
    {
        assert(subagents@.take(i + 1).drop_last() =~= subagents@.take(i as int));
        tokens = tokens.saturating_add(subagents[i].tokens);
        duration = duration.saturating_add(subagents[i].duration_ms);
        i = i + 1;
    }
    assert(subagents@.take(subagents.len() as int) =~= subagents@);
    (tokens, duration)
}

proof fn lemma_top_of_ranking(r: Tally, m: Map<Seq<char>, u32>)
    requires
        ranks_tally(r, m, true),
        r.len() > 0,
    ensures
        is_top_name(r[0].0, m),
{
    assert(m.contains_key(r[0].0));
    assert(m.dom().contains(r[0].0));
    assert(m.dom() != Set::<Seq<char>>::empty()) by {
        assert(!Set::<Seq<char>>::empty().contains(r[0].0));
    }
    assert forall|k: Seq<char>| #[trigger] m.contains_key(k) && k != r[0].0 implies ranks_before((r[0].0, m[r[0].0]), (k, m[k]), true) by {
        let i = choose|i: int| 0 <= i < r.len() && #[trigger] r[i].0 == k;
        assert(m[r[i].0] == r[i].1);
        assert(i != 0);
        assert(ranks_before(r[0], r[i], true));
    }
}

proof fn lemma_top_of_empty(r: Tally, m: Map<Seq<char>, u32>)
    requires
        ranks_tally(r, m, true),
        r.len() == 0,
    ensures
        is_top_name(Seq::empty(), m),
{
    assert(m.dom() =~= Set::<Seq<char>>::empty()) by {
        assert forall|k: Seq<char>| !m.dom().contains(k) by {
            if m.contains_key(k) {
                let i = choose|i: int| 0 <= i < r.len() && #[trigger] r[i].0 == k;
            }
        }
    }
}

/// `r` is the summary of a session whose slice added up to `acc`, with the
/// given subagent records, metadata and agent-file split.
pub open spec fn summary_matches(
    r: SessionSummary,
    acc: SummaryView,
    subagents: Seq<SubagentRecord>,
    session_id: Seq<char>,
    start_time: Seq<char>,
    end_time: Seq<char>,
    user_turns: u32,
    from_turn: u32,
    split: SubagentSplit,
) -> bool {
    &&& r.session_id@ == session_id
    &&& r.start_time@ == start_time
    &&& r.end_time@ == end_time
    &&& is_top_name(r.model@, acc.models_seen)
    &&& ranks_tally(r.models_seen.deep_view().map_values(|n: Seq<char>| (n, 0u32)), acc.models_seen.map_values(|c: u32| 0u32), false)
    &&& r.duration_ms == duration_between(start_time, end_time)
    &&& r.total_turns == acc.total_turns
    &&& r.total_input_tokens == acc.total_input
    &&& r.total_output_tokens == acc.total_output
    &&& r.total_cache_read == acc.total_cache_read
    &&& r.total_cache_write == acc.total_cache_write
    &&& r.turns_with_thinking == acc.turns_with_thinking
    &&& r.total_thinking_output == acc.total_thinking_output
    &&& r.total_non_thinking_output == (if acc.total_output >= acc.total_thinking_output {
        acc.total_output - acc.total_thinking_output
    } else {
        0
    })
    &&& r.burn_sum_excl_first == acc.burn_sum_excl_first
    &&& r.peak_burn_turn == (if acc.peak_burn_turn == 0 && acc.total_turns >= 1 { 1 } else { acc.peak_burn_turn })
    &&& r.peak_burn_value == acc.peak_burn_value
    &&& ranks_tally(r.tool_frequency.deep_view(), acc.tool_counts, true)
    &&& r.top_tools.deep_view() == r.tool_frequency.deep_view().take(
        if r.tool_frequency.len() < 5 { r.tool_frequency.len() as int } else { 5 },
    )
    &&& r.total_subagent_tokens == subagent_tokens_sum(subagents)
    &&& r.subagent_count == subagents.len() as u32
    &&& r.subagent_total_duration_ms == subagent_duration_sum(subagents)
    &&& r.user_turns == user_turns
    &&& r.final_context_size == acc.final_context_size
    &&& r.from_turn == (if from_turn < 1 { 1 } else { from_turn })
    &&& r.subagent_input_tokens == split.input
    &&& r.subagent_output_tokens == split.output
    &&& r.subagent_cache_read_tokens == split.cache_read
    &&& r.subagent_cache_write_tokens == split.cache_write
    &&& r.subagent_agent_file_count == split.agent_file_count
    &&& r.subagent_usage_total_tokens == sat_add(
        sat_add(sat_add(split.input, split.output), split.cache_read),
        split.cache_write,
    )
}

/// Builds the session summary from the accumulated totals, the subagent
/// records, the session metadata and the agent-file split.
pub fn build_summary(
    acc: SummaryAccumulator,
    subagents: &Vec<SubagentRecord>,
    meta: SessionMeta,
    subagent_split: SubagentSplit,
) -> (r: SessionSummary)
    requires
        acc.wf(),
    ensures
        summary_matches(r, acc@, subagents@, meta.session_id@, meta.start_time@, meta.end_time@, meta.user_turns, meta.from_turn, subagent_split),
{
    let duration_ms: i128 = match (parse_ts_ms(meta.start_time), parse_ts_ms(meta.end_time)) {
        (Some(s), Some(e)) => e as i128 - s as i128,
        _ => 0,
    };
    let total_non_thinking_output = acc.total_output.saturating_sub(acc.total_thinking_output);

    let tool_frequency = rank(&acc.tool_counts, true);
    proof {
        lemma_ranking_ranks_tally(tool_frequency.deep_view(), acc.tool_counts.deep_view(), true);
    }
    let top_n = if tool_frequency.len() < 5 { tool_frequency.len() } else { 5 };
    let top_tools = clone_entries(&tool_frequency, top_n);

    let by_count = rank(&acc.models_seen, true);
    proof {
        lemma_ranking_ranks_tally(by_count.deep_view(), acc.models_seen.deep_view(), true);
    }
    let model = if by_count.len() > 0 {
        proof {
            lemma_top_of_ranking(by_count.deep_view(), acc@.models_seen);
        }
        by_count[0].0.clone()
    } else {
        proof {
            lemma_top_of_empty(by_count.deep_view(), acc@.models_seen);
        }
        String::new()
    };
    let by_name = rank(&acc.models_seen, false);
    proof {
        lemma_ranking_ranks_tally(by_name.deep_view(), acc.models_seen.deep_view(), false);
    }
    let models_seen = names_of(&by_name);
    proof {
        let r = models_seen.deep_view().map_values(|n: Seq<char>| (n, 0u32));
        let m = acc@.models_seen.map_values(|c: u32| 0u32);
        let b = by_name.deep_view();
        assert forall|i: int| 0 <= i < r.len() implies #[trigger] m.contains_key(r[i].0) && m[r[i].0] == r[i].1 by {
            assert(r[i].0 == b[i].0);
            assert(acc@.models_seen.contains_key(b[i].0));
        }
        assert forall|k: Seq<char>| m.contains_key(k) implies exists|i: int| 0 <= i < r.len() && #[trigger] r[i].0 == k by {
            assert(acc@.models_seen.contains_key(k));
            let i = choose|i: int| 0 <= i < b.len() && #[trigger] b[i].0 == k;
            assert(r[i].0 == k);
        }
        assert forall|i: int, j: int| 0 <= i < j < r.len() implies ranks_before(#[trigger] r[i], #[trigger] r[j], false) by {
            assert(ranks_before(b[i], b[j], false));
            assert(r[i].0 == b[i].0 && r[j].0 == b[j].0);
        }
    }

    let (total_subagent_tokens, subagent_total_duration_ms) = sum_subagents(subagents);
    let subagent_count = subagents.len() as u32;
    let peak_burn_turn = if acc.peak_burn_turn == 0 && acc.total_turns >= 1 { 1 } else { acc.peak_burn_turn };
    let from_turn = if meta.from_turn < 1 { 1 } else { meta.from_turn };
    let subagent_usage_total_tokens = subagent_split.input.saturating_add(subagent_split.output).saturating_add(
        subagent_split.cache_read,
    ).saturating_add(subagent_split.cache_write);

    SessionSummary {
        session_id: meta.session_id.to_owned(),
        model,
        models_seen,
        start_time: meta.start_time.to_owned(),
        end_time: meta.end_time.to_owned(),
        duration_ms,
        total_turns: acc.total_turns,
        total_input_tokens: acc.total_input,
        total_output_tokens: acc.total_output,
        total_cache_read: acc.total_cache_read,
        total_cache_write: acc.total_cache_write,
        turns_with_thinking: acc.turns_with_thinking,
        total_thinking_output: acc.total_thinking_output,
        total_non_thinking_output,
        burn_sum_excl_first: acc.burn_sum_excl_first,
        peak_burn_turn,
        peak_burn_value: acc.peak_burn_value,
        tool_frequency,
        top_tools,
        total_subagent_tokens,
        subagent_count,
        subagent_total_duration_ms,
        user_turns: meta.user_turns,
        final_context_size: acc.final_context_size,
        from_turn,
        subagent_input_tokens: subagent_split.input,
        subagent_output_tokens: subagent_split.output,
        subagent_cache_read_tokens: subagent_split.cache_read,
        subagent_cache_write_tokens: subagent_split.cache_write,
        subagent_agent_file_count: subagent_split.agent_file_count,
        subagent_usage_total_tokens,
    }
}

} // verus!
