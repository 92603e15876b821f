//! The streaming session analysis: transcript lines in, turns and a summary out.
use vstd::prelude::*;
use crate::json::{JsonValue, get_str, str_in, line_json, read_line, LineRead};
use crate::metrics::{
    Turn, TurnView, SubagentRecord, SubagentSplit, SummaryAccumulator, SummaryView, SessionMeta,
    SessionSummary, turn_of, record_turn, empty_summary, burn_delta_of, sat_add, rfc3339_millis,
    flush_turn, build_summary, parse_ts_ms, summary_matches,
};
use crate::parse::{
    Entry, EntryView, AssistantEntry, AssistantView, AccView, TurnAccumulator, entry_of, open_group, extend_group,
    block_count, dispatch_value,
};
use crate::text::{extract_u64, tagged_u64, copy_str, str_eq, trim};

verus! {

/// The outcome of analysing one session transcript.
pub struct ParseResult {
    /// The turns of the analysed slice, in order.
    pub turns: Vec<Turn>,
    pub summary: SessionSummary,
    pub subagents: Vec<SubagentRecord>,
}

pub struct RecordView {
    pub timestamp: Seq<char>,
    pub tokens: u64,
    pub tool_uses: u32,
    pub duration_ms: u64,
}

impl View for SubagentRecord {
    type V = RecordView;

    open spec fn view(&self) -> RecordView {
        RecordView {
            timestamp: self.timestamp@,
            tokens: self.tokens,
            tool_uses: self.tool_uses,
            duration_ms: self.duration_ms,
        }
    }
}

/// The state of a session analysis between two lines.
pub struct SessionView {
    pub from_turn: u32,
    pub session_id: Seq<char>,
    pub start_time: Seq<char>,
    pub end_time: Seq<char>,
    pub user_turns: u32,
    pub last_timestamp: Seq<char>,
    pub subagents: Seq<RecordView>,
    pub group: Option<AccView>,
    pub prev_context_tokens: Option<u64>,
    pub prev_timestamp_ms: Option<i64>,
    pub cum_context: u64,
    pub turn_num: u32,
    pub summary: SummaryView,
    /// Every turn finished so far, inside the slice or not.
    pub history: Seq<TurnView>,
    /// The finished turns of the slice.
    pub turns: Seq<TurnView>,
}

/// Streams a session transcript: feed it the parsed lines in order, then
/// finish it. Turns numbered below `from_turn` are counted (so that burn deltas
/// stay right) but left out of the turns and the summary.
pub struct SessionParser {
    pub from_turn: u32,
    pub session_id: String,
    pub start_time: String,
    pub end_time: String,
    pub user_turns: u32,
    pub last_timestamp: String,
    pub subagents: Vec<SubagentRecord>,
    pub current_group: Option<TurnAccumulator>,
    pub prev_context_tokens: Option<u64>,
    pub prev_timestamp_ms: Option<i64>,
    pub cum_context: u64,
    pub turn_num: u32,
    pub summary_acc: SummaryAccumulator,
    pub turns: Vec<Turn>,
    /// Lines fed so far.
    pub lines_fed: u32,
    pub history: Ghost<Seq<TurnView>>,
}

pub open spec fn turn_views(ts: Seq<Turn>) -> Seq<TurnView> {
    ts.map_values(|t: Turn| t@)
}

pub open spec fn record_views(rs: Seq<SubagentRecord>) -> Seq<RecordView> {
    rs.map_values(|r: SubagentRecord| r@)
}

impl View for SessionParser {
    type V = SessionView;

    open spec fn view(&self) -> SessionView {
        SessionView {
            from_turn: self.from_turn,
            session_id: self.session_id@,
            start_time: self.start_time@,
            end_time: self.end_time@,
            user_turns: self.user_turns,
            last_timestamp: self.last_timestamp@,
            subagents: record_views(self.subagents@),
            group: match self.current_group {
                Some(g) => Some(g@),
                None => None,
            },
            prev_context_tokens: self.prev_context_tokens,
            prev_timestamp_ms: self.prev_timestamp_ms,
            cum_context: self.cum_context,
            turn_num: self.turn_num,
            summary: self.summary_acc@,
            history: self.history@,
            turns: turn_views(self.turns@),
        }
    }
}

// ── The step of one line ─────────────────────────────────────────────────────

/// A line's non-empty `timestamp` becomes the last one seen, the end time, and
/// the start time if there is none yet.
pub open spec fn note_timestamp(s: SessionView, v: JsonValue) -> SessionView {
    match str_in(Some(v), "timestamp"@) {
        Some(ts) => if ts.len() > 0 {
            SessionView {
                last_timestamp: ts,
                start_time: if s.start_time.len() == 0 { ts } else { s.start_time },
                end_time: ts,
                ..s
            }
        } else {
            s
        },
        None => s,
    }
}

/// The record of a queue operation: only one that reports `subagent_tokens`.
pub open spec fn subagent_record_of(content: Seq<char>, timestamp: Seq<char>) -> Option<RecordView> {
    match tagged_u64(content, "subagent_tokens"@) {
        Some(tokens) => Some(RecordView {
            timestamp,
            tokens,
            tool_uses: (match tagged_u64(content, "tool_uses"@) { Some(n) => n, None => 0 }) as u32,
            duration_ms: match tagged_u64(content, "duration_ms"@) { Some(n) => n, None => 0 },
        }),
        None => None,
    }
}

/// Finishing the group `g`: it becomes the next turn.
pub open spec fn close_group(s: SessionView, g: AccView) -> SessionView {
    let n = (s.turn_num + 1) as u32;
    let t = turn_of(g, n, s.prev_context_tokens, s.prev_timestamp_ms, s.cum_context);
    SessionView {
        turn_num: n,
        cum_context: t.cumulative_context,
        summary: record_turn(s.summary, t, s.from_turn),
        prev_context_tokens: Some(t.context_tokens),
        prev_timestamp_ms: rfc3339_millis(g.timestamp),
        history: s.history.push(t),
        turns: if n >= s.from_turn { s.turns.push(t) } else { s.turns },
        group: None,
        ..s
    }
}

/// An assistant line: it extends the open group when it has the same message
/// id; otherwise the open group (if any) becomes a turn and the line opens a
/// new group. The first non-empty session id is kept.
pub open spec fn take_assistant(s: SessionView, e: AssistantView) -> SessionView {
    let s1 = if s.session_id.len() == 0 && e.session_id.len() > 0 {
        SessionView { session_id: e.session_id, ..s }
    } else {
        s
    };
    match s1.group {
        Some(g) => if g.message_id == e.message_id {
            SessionView { group: Some(extend_group(g, e)), ..s1 }
        } else {
            SessionView { group: Some(open_group(e)), ..close_group(s1, g) }
        },
        None => SessionView { group: Some(open_group(e)), ..s1 },
    }
}

/// The state after one more parsed line.
pub open spec fn feed_step(s: SessionView, v: JsonValue) -> SessionView {
    let s1 = note_timestamp(s, v);
    match entry_of(v) {
        EntryView::Skip => s1,
        EntryView::UserHuman => SessionView { user_turns: (s1.user_turns + 1) as u32, ..s1 },
        EntryView::Subagent(content) => match subagent_record_of(content, s1.last_timestamp) {
            Some(r) => SessionView { subagents: s1.subagents.push(r), ..s1 },
            None => s1,
        },
        EntryView::Assistant(e) => take_assistant(s1, e),
    }
}

/// The state at the end of input: the open group, if any, becomes a turn.
pub open spec fn finish_step(s: SessionView) -> SessionView {
    match s.group {
        Some(g) => close_group(s, g),
        None => s,
    }
}

/// The state before any line.
pub open spec fn initial_session(from_turn: u32) -> SessionView {
    SessionView {
        from_turn: if from_turn < 1 { 1 } else { from_turn },
        session_id: Seq::empty(),
        start_time: Seq::empty(),
        end_time: Seq::empty(),
        user_turns: 0,
        last_timestamp: Seq::empty(),
        subagents: Seq::empty(),
        group: None,
        prev_context_tokens: None,
        prev_timestamp_ms: None,
        cum_context: 0,
        turn_num: 0,
        summary: empty_summary(),
        history: Seq::empty(),
        turns: Seq::empty(),
    }
}

/// The state after the lines `vs`, from the start.
pub open spec fn feed_all(from_turn: u32, vs: Seq<JsonValue>) -> SessionView
    decreases vs.len(),
{
    if vs.len() == 0 {
        initial_session(from_turn)
    } else {
        feed_step(feed_all(from_turn, vs.drop_last()), vs.last())
    }
}

// ── The parser ───────────────────────────────────────────────────────────────

/// The summary that the turns `h` add up to.
pub open spec fn summary_of(h: Seq<TurnView>, from_turn: u32) -> SummaryView
    decreases h.len(),
{
    if h.len() == 0 {
        empty_summary()
    } else {
        record_turn(summary_of(h.drop_last(), from_turn), h.last(), from_turn)
    }
}

// ── Totals over turns ───────────────────────────────────────────────────────

/// The sum of one counter over the turns.
pub open spec fn turns_sum(ts: Seq<TurnView>, field: spec_fn(TurnView) -> u64) -> nat
    decreases ts.len(),
{
    if ts.len() == 0 {
        0
    } else {
        turns_sum(ts.drop_last(), field) + field(ts.last()) as nat
    }
}

/// The number of turns with thinking.
pub open spec fn thinking_turns(ts: Seq<TurnView>) -> nat
    decreases ts.len(),
{
    if ts.len() == 0 {
        0
    } else {
        thinking_turns(ts.drop_last()) + if ts.last().has_thinking { 1nat } else { 0 }
    }
}

/// The output of the turns with thinking, summed.
pub open spec fn thinking_output(ts: Seq<TurnView>) -> nat
    decreases ts.len(),
{
    if ts.len() == 0 {
        0
    } else {
        thinking_output(ts.drop_last()) + if ts.last().has_thinking { ts.last().output_tokens as nat } else { 0 }
    }
}

/// `n` capped at `u64::MAX`.
pub open spec fn cap_sum(n: nat) -> u64 {
    if n > u64::MAX { u64::MAX } else { n as u64 }
}

/// The summary totals are what the turns add up to: their number, the capped
/// sums of their token counters, the turns with thinking and their output,
/// and the context size of the last one (0 without turns).
pub open spec fn totals_are_turn_sums(s: SummaryView, ts: Seq<TurnView>) -> bool {
    &&& s.total_turns == ts.len()
    &&& s.total_input == cap_sum(turns_sum(ts, |t: TurnView| t.input_tokens))
    &&& s.total_output == cap_sum(turns_sum(ts, |t: TurnView| t.output_tokens))
    &&& s.total_cache_read == cap_sum(turns_sum(ts, |t: TurnView| t.cache_read_tokens))
    &&& s.total_cache_write == cap_sum(turns_sum(ts, |t: TurnView| t.cache_write_tokens))
    &&& s.turns_with_thinking == thinking_turns(ts)
    &&& s.total_thinking_output == cap_sum(thinking_output(ts))
    &&& s.final_context_size == (if ts.len() == 0 { 0 } else { ts.last().context_tokens })
}

/// The turns of `h` numbered `from_turn` or above, in order.
pub open spec fn in_slice(h: Seq<TurnView>, from_turn: u32) -> Seq<TurnView>
    decreases h.len(),
{
    if h.len() == 0 {
        h
    } else if h.last().turn >= from_turn {
        in_slice(h.drop_last(), from_turn).push(h.last())
    } else {
        in_slice(h.drop_last(), from_turn)
    }
}

proof fn lemma_summary_of_in_slice(h: Seq<TurnView>, f: u32)
    requires
        h.len() <= u32::MAX,
    ensures
        totals_are_turn_sums(summary_of(h, f), in_slice(h, f)),
        in_slice(h, f).len() <= h.len(),
        thinking_turns(in_slice(h, f)) <= in_slice(h, f).len(),
    decreases h.len(),
{
    if h.len() > 0 {
        lemma_summary_of_in_slice(h.drop_last(), f);
        let p = in_slice(h.drop_last(), f);
        if h.last().turn >= f {
            let q = in_slice(h, f);
            assert(q.drop_last() =~= p);
            assert(q.last() == h.last());
        }
    }
}

pub proof fn lemma_in_slice_numbered(h: Seq<TurnView>, f: u32)
    requires
        f >= 1,
        forall|k: int| 0 <= k < h.len() ==> #[trigger] h[k].turn == k + 1,
    ensures
        in_slice(h, f) == h.subrange(if f - 1 < h.len() { f - 1 } else { h.len() as int }, h.len() as int),
    decreases h.len(),
{
    if h.len() > 0 {
        let d = h.drop_last();
        assert forall|k: int| 0 <= k < d.len() implies #[trigger] d[k].turn == k + 1 by {
            assert(d[k] == h[k]);
        }
        lemma_in_slice_numbered(d, f);
        assert(h.last().turn == h.len());
        let lo = if f - 1 < h.len() { f - 1 } else { h.len() as int };
        let lo_d = if f - 1 < d.len() { f - 1 } else { d.len() as int };
        if h.last().turn >= f {
            assert(h.subrange(lo, h.len() as int) =~= d.subrange(lo_d, d.len() as int).push(h.last()));
        } else {
            assert(h.subrange(lo, h.len() as int) =~= d.subrange(lo_d, d.len() as int));
        }
    }
}

/// The tool calls of the turns of `h` in the slice.
pub open spec fn slice_tool_calls(h: Seq<TurnView>, from_turn: u32) -> nat
    decreases h.len(),
{
    if h.len() == 0 {
        0
    } else {
        slice_tool_calls(h.drop_last(), from_turn) + if h.last().turn >= from_turn {
            h.last().tools_called.len()
        } else {
            0
        }
    }
}

pub open spec fn group_tools(g: Option<AccView>) -> nat {
    match g {
        Some(a) => a.tool_names.len(),
        None => 0,
    }
}

pub open spec fn group_blocks(g: Option<AccView>) -> nat {
    match g {
        Some(a) => block_count(a) as nat,
        None => 0,
    }
}

impl SessionParser {
    /// The invariant of a parser: the finished turns are numbered 1, 2, ...;
    /// the turns of the slice are those numbered `from_turn` or above; the
    /// summary is what those turns add up to; each turn's burn delta and
    /// cumulative context follow from the turn before it; counters stay below
    /// the number of lines fed.
    pub open spec fn wf(&self) -> bool {
        let s = self@;
        &&& self.summary_acc.wf()
        &&& s.from_turn >= 1
        &&& s.turn_num == s.history.len()
        &&& forall|k: int| 0 <= k < s.history.len() ==> #[trigger] s.history[k].turn == k + 1
        &&& s.turns == s.history.subrange(
            if s.from_turn - 1 < s.history.len() { s.from_turn - 1 } else { s.history.len() as int },
            s.history.len() as int,
        )
        &&& s.summary == summary_of(s.history, s.from_turn)
        &&& s.prev_context_tokens == (if s.history.len() == 0 { None } else { Some(s.history.last().context_tokens) })
        &&& s.cum_context == (if s.history.len() == 0 { 0 } else { s.history.last().cumulative_context })
        &&& forall|k: int| 0 <= k < s.history.len() ==> #[trigger] s.history[k].burn_delta == burn_delta_of(
            s.history[k].context_tokens,
            if k == 0 { None } else { Some(s.history[k - 1].context_tokens) },
        )
        &&& forall|k: int| 0 <= k < s.history.len() ==> #[trigger] s.history[k].cumulative_context == sat_add(
            if k == 0 { 0 } else { s.history[k - 1].cumulative_context },
            s.history[k].context_tokens,
        )
        &&& self.summary_acc.tool_calls() == slice_tool_calls(s.history, s.from_turn)
        &&& s.user_turns <= self.lines_fed
        &&& s.turn_num + (if s.group is Some { 1int } else { 0 }) <= self.lines_fed
        &&& self.summary_acc.tool_calls() + group_tools(s.group) <= self.lines_fed
        &&& group_blocks(s.group) <= self.lines_fed
        &&& s.summary.total_turns <= s.turn_num
    }

    /// The summary totals of a parser are what its reported turns add up to.
    pub proof fn lemma_totals_are_turn_sums(&self)
        requires
            self.wf(),
        ensures
            totals_are_turn_sums(self@.summary, self@.turns),
    {
        let s = self@;
        assert(s.history.len() <= u32::MAX);
        lemma_summary_of_in_slice(s.history, s.from_turn);
        lemma_in_slice_numbered(s.history, s.from_turn);
    }

    /// Another line can be fed.
    pub open spec fn has_room_spec(&self) -> bool {
        self.lines_fed < u32::MAX
    }

    pub fn has_room(&self) -> (r: bool)
        ensures
            r == self.has_room_spec(),
    {
        self.lines_fed < u32::MAX
    }

    /// A parser for the slice that starts at turn `from_turn` (0 counts as 1,
    /// the full session).
    pub fn new(from_turn: u32) -> (r: SessionParser)
        ensures
            r@ == initial_session(from_turn),
            r.wf(),
            r.lines_fed == 0,
    {
        let r = SessionParser {
            from_turn: if from_turn < 1 { 1 } else { from_turn },
            session_id: String::new(),
            start_time: String::new(),
            end_time: String::new(),
            user_turns: 0,
            last_timestamp: String::new(),
            subagents: Vec::new(),
            current_group: None,
            prev_context_tokens: None,
            prev_timestamp_ms: None,
            cum_context: 0,
            turn_num: 0,
            summary_acc: SummaryAccumulator::default(),
            turns: Vec::new(),
            lines_fed: 0,
            history: Ghost(Seq::empty()),
        };
        assert(record_views(r.subagents@) =~= Seq::<RecordView>::empty());
        assert(turn_views(r.turns@) =~= Seq::<TurnView>::empty());
        assert(r@.turns =~= r@.history.subrange(0, 0));
        r
    }
}


impl SessionParser {
    /// The open group becomes the next turn.
    fn close_current(&mut self)
        requires
            old(self).wf(),
            old(self).current_group is Some,
        ensures
            final(self)@ == close_group(old(self)@, old(self)@.group->0),
            final(self).wf(),
            final(self).lines_fed == old(self).lines_fed,
            final(self).turn_num == old(self).turn_num + 1,
            final(self).summary_acc.tool_calls() <= old(self).summary_acc.tool_calls() + group_tools(old(self)@.group),
    {
        let ghost s0 = self@;
        let g = match self.current_group.take() {
            Some(g) => g,
            None => return,
        };
        let ghost ga = g@;
        let n = self.turn_num + 1;
        let this_ts = parse_ts_ms_of(&g);
        let turn = flush_turn(g, n, self.prev_context_tokens, self.prev_timestamp_ms, &mut self.cum_context);
        self.summary_acc.record(&turn, self.from_turn);
        self.turn_num = n;
        self.prev_context_tokens = Some(turn.context_tokens);
        self.prev_timestamp_ms = this_ts;
        self.history = Ghost(self.history@.push(turn@));
        if n >= self.from_turn {
            let ghost before = self.turns@;
            self.turns.push(turn);
            assert(turn_views(self.turns@) =~= turn_views(before).push(turn_views(self.turns@).last()));
        }
        proof {
            let s = self@;
            let t = turn_of(ga, n, s0.prev_context_tokens, s0.prev_timestamp_ms, s0.cum_context);
            assert(s.history == s0.history.push(t));
            assert(s.history.drop_last() =~= s0.history);
            let lo0 = if s0.from_turn - 1 < s0.history.len() { s0.from_turn - 1 } else { s0.history.len() as int };
            let lo = if s.from_turn - 1 < s.history.len() { s.from_turn - 1 } else { s.history.len() as int };
            if n >= s0.from_turn {
                assert(s.turns =~= s.history.subrange(lo, s.history.len() as int));
            } else {
                assert(s.turns =~= s.history.subrange(lo, s.history.len() as int));
            }
            assert forall|k: int| 0 <= k < s.history.len() implies #[trigger] s.history[k].burn_delta == burn_delta_of(
                s.history[k].context_tokens,
                if k == 0 { None } else { Some(s.history[k - 1].context_tokens) },
            ) by {
                if k < s0.history.len() {
                    assert(s.history[k] == s0.history[k]);
                    if k > 0 {
                        assert(s.history[k - 1] == s0.history[k - 1]);
                    }
                }
            }
            assert forall|k: int| 0 <= k < s.history.len() implies #[trigger] s.history[k].cumulative_context == sat_add(
                if k == 0 { 0 } else { s.history[k - 1].cumulative_context },
                s.history[k].context_tokens,
            ) by {
                if k < s0.history.len() {
                    assert(s.history[k] == s0.history[k]);
                    if k > 0 {
                        assert(s.history[k - 1] == s0.history[k - 1]);
                    }
                }
            }
            assert forall|k: int| 0 <= k < s.history.len() implies #[trigger] s.history[k].turn == k + 1 by {
                if k < s0.history.len() {
                    assert(s.history[k] == s0.history[k]);
                }
            }
            assert(s =~= close_group(s0, ga));
        }
    }

    fn adopt_session_id(&mut self, e: &AssistantEntry)
        requires
            old(self).wf(),
        ensures
            final(self)@ == (if old(self)@.session_id.len() == 0 && e@.session_id.len() > 0 {
                (SessionView { session_id: e@.session_id, ..old(self)@ })
            } else {
                old(self)@
            }),
            final(self).wf(),
            final(self).lines_fed == old(self).lines_fed,
    {
        if self.session_id.as_str().is_empty() && !e.session_id.as_str().is_empty() {
            self.session_id = e.session_id.clone();
        }
    }

    fn extend_current(&mut self, e: AssistantEntry)
        requires
            old(self).wf(),
            old(self)@.group is Some,
            old(self).summary_acc.tool_calls() + group_tools(old(self)@.group) < old(self).lines_fed,
            group_blocks(old(self)@.group) < old(self).lines_fed,
        ensures
            final(self)@ == (SessionView { group: Some(extend_group(old(self)@.group->0, e@)), ..old(self)@ }),
            final(self).wf(),
            final(self).lines_fed == old(self).lines_fed,
    {
        let mut g = match self.current_group.take() {
            Some(g) => g,
            None => return,
        };
        g.extend(e);
        self.current_group = Some(g);
    }

    fn open_new(&mut self, e: AssistantEntry)
        requires
            old(self).wf(),
            old(self)@.group is None,
            old(self).turn_num < old(self).lines_fed,
            old(self).summary_acc.tool_calls() < old(self).lines_fed,
        ensures
            final(self)@ == (SessionView { group: Some(open_group(e@)), ..old(self)@ }),
            final(self).wf(),
            final(self).lines_fed == old(self).lines_fed,
    {
        self.current_group = Some(TurnAccumulator::open(e));
    }

    /// Takes one more assistant line.
    fn take_assistant(&mut self, e: AssistantEntry)
        requires
            old(self).wf(),
            old(self).turn_num + (if old(self).current_group is Some { 1int } else { 0 }) < old(self).lines_fed,
            old(self).summary_acc.tool_calls() + group_tools(old(self)@.group) < old(self).lines_fed,
            group_blocks(old(self)@.group) < old(self).lines_fed,
        ensures
            final(self)@ == take_assistant(old(self)@, e@),
            final(self).wf(),
            final(self).lines_fed == old(self).lines_fed,
    {
        let ghost s0 = self@;
        let ghost ev = e@;
        self.adopt_session_id(&e);
        let ghost s1 = self@;
        let same = match &self.current_group {
            Some(g) => str_eq(g.message_id.as_str(), e.message_id.as_str()),
            None => false,
        };
        if same {
            self.extend_current(e);
            assert(self@ == take_assistant(s0, ev));
        } else {
            if self.current_group.is_some() {
                self.close_current();
                let ghost s2 = self@;
                assert(s2 == close_group(s1, s1.group->0));
                self.open_new(e);
                assert(self@ == take_assistant(s0, ev));
            } else {
                self.open_new(e);
                assert(self@ == take_assistant(s0, ev));
            }
        }
    }

    /// Takes one more parsed line. Returns whether a turn of the slice was
    /// finished (it is then the last of `turns`).
    pub fn feed(&mut self, v: &JsonValue) -> (r: bool)
        requires
            old(self).wf(),
            old(self).has_room_spec(),
        ensures
            final(self).wf(),
            final(self)@ == feed_step(old(self)@, *v),
            final(self).lines_fed == old(self).lines_fed + 1,
            r == (final(self)@.turns.len() > old(self)@.turns.len()),
    {
        let ghost s0 = self@;
        self.lines_fed = self.lines_fed + 1;
        match get_str(v, "timestamp") {
            Some(ts) => if !ts.is_empty() {
                self.last_timestamp = ts.to_owned();
                if self.start_time.as_str().is_empty() {
                    self.start_time = ts.to_owned();
                }
                self.end_time = ts.to_owned();
            },
            None => {},
        }
        let ghost s1 = self@;
        assert(s1 =~= note_timestamp(s0, *v));
        let n_before = self.turns.len();
        match dispatch_value(v) {
            Entry::Skip => {},
            Entry::UserHuman => {
                self.user_turns = self.user_turns + 1;
            },
            Entry::Subagent(content) => {
                if let Some(tokens) = extract_u64(content.as_str(), "subagent_tokens") {
                    let tool_uses: u32 = match extract_u64(content.as_str(), "tool_uses") {
                        Some(n) => n as u32,
                        None => 0,
                    };
                    let duration_ms: u64 = match extract_u64(content.as_str(), "duration_ms") {
                        Some(n) => n,
                        None => 0,
                    };
                    let rec = SubagentRecord {
                        timestamp: self.last_timestamp.clone(),
                        tokens,
                        tool_uses,
                        duration_ms,
                    };
                    let ghost before = self.subagents@;
                    self.subagents.push(rec);
                    assert(record_views(self.subagents@) =~= record_views(before).push(rec@));
                }
            },
            Entry::Assistant(e) => {
                self.take_assistant(e);
            },
        }
        assert(self@ =~= feed_step(s0, *v));
        self.turns.len() > n_before
    }

    /// Takes one raw transcript line. A blank line is skipped; a line that is
    /// not JSON is skipped and serde_json's message returned; any other line is
    /// fed (see `feed`), and whether it finished a turn of the slice returned.
    pub fn feed_line(&mut self, line: &str) -> (r: Result<bool, String>)
        requires
            old(self).wf(),
            old(self).has_room_spec(),
        ensures
            final(self).wf(),
            match line_json(line@) {
                Some(v) => {
                    &&& final(self)@ == feed_step(old(self)@, v)
                    &&& final(self).lines_fed == old(self).lines_fed + 1
                    &&& r matches Ok(b) && b == (final(self)@.turns.len() > old(self)@.turns.len())
                },
                None => {
                    &&& final(self)@ == old(self)@
                    &&& final(self).lines_fed == old(self).lines_fed
                    &&& (r is Err <==> trim(line@).len() > 0)
                    &&& (r matches Ok(b) ==> !b)
                },
            },
    {
        match read_line(line) {
            LineRead::Blank => Ok(false),
            LineRead::Invalid(e) => Err(e),
            LineRead::Json(v) => Ok(self.feed(&v)),
        }
    }

    /// Ends the input: the open group, if any, becomes the last turn. Returns
    /// whether a turn of the slice was finished.
    pub fn finish(&mut self) -> (r: bool)
        requires
            old(self).wf(),
        ensures
            final(self).wf(),
            final(self)@ == finish_step(old(self)@),
            final(self)@.group is None,
            final(self).lines_fed == old(self).lines_fed,
            r == (final(self)@.turns.len() > old(self)@.turns.len()),
    {
        let n_before = self.turns.len();
        if self.current_group.is_some() {
            self.close_current();
        }
        self.turns.len() > n_before
    }
}

impl SessionParser {
    /// The turns, the summary and the subagent records of the analysed input;
    /// `split` is the agent-file token split of the session.
    pub fn into_result(self, split: SubagentSplit) -> (r: ParseResult)
        requires
            self.wf(),
        ensures
            turn_views(r.turns@) == self@.turns,
            record_views(r.subagents@) == self@.subagents,
            summary_matches(
                r.summary,
                self@.summary,
                r.subagents@,
                self@.session_id,
                self@.start_time,
                self@.end_time,
                self@.user_turns,
                self@.from_turn,
                split,
            ),
    {
        let summary = build_summary(
            self.summary_acc,
            &self.subagents,
            SessionMeta {
                session_id: self.session_id.as_str(),
                start_time: self.start_time.as_str(),
                end_time: self.end_time.as_str(),
                user_turns: self.user_turns,
                from_turn: self.from_turn,
            },
            split,
        );
        ParseResult { turns: self.turns, summary, subagents: self.subagents }
    }
}

/// The result is the analysis `s` of the session, with the agent-file split
/// `split`: its turns are the slice's, its records the session's, its summary
/// built from the slice's totals (see `summary_matches`).
pub open spec fn analysis_matches(r: ParseResult, s: SessionView, split: SubagentSplit) -> bool {
    &&& turn_views(r.turns@) == s.turns
    &&& record_views(r.subagents@) == s.subagents
    &&& summary_matches(
        r.summary,
        s.summary,
        r.subagents@,
        s.session_id,
        s.start_time,
        s.end_time,
        s.user_turns,
        s.from_turn,
        split,
    )
}

/// The summary's totals are what the reported turns add up to: their number,
/// the capped sums of their token counters, the turns with thinking and their
/// output, and the context size of the last one (0 without turns).
pub open spec fn result_totals_are_turn_sums(r: ParseResult) -> bool {
    let ts = turn_views(r.turns@);
    &&& r.summary.total_turns == ts.len()
    &&& r.summary.total_input_tokens == cap_sum(turns_sum(ts, |t: TurnView| t.input_tokens))
    &&& r.summary.total_output_tokens == cap_sum(turns_sum(ts, |t: TurnView| t.output_tokens))
    &&& r.summary.total_cache_read == cap_sum(turns_sum(ts, |t: TurnView| t.cache_read_tokens))
    &&& r.summary.total_cache_write == cap_sum(turns_sum(ts, |t: TurnView| t.cache_write_tokens))
    &&& r.summary.turns_with_thinking == thinking_turns(ts)
    &&& r.summary.total_thinking_output == cap_sum(thinking_output(ts))
    &&& r.summary.final_context_size == (if ts.len() == 0 { 0 } else { ts.last().context_tokens })
}

/// The parsed documents of raw transcript lines, in order: blank lines and
/// lines that are not JSON left out.
pub open spec fn parsed_lines(lines: Seq<Seq<char>>) -> Seq<JsonValue>
    decreases lines.len(),
{
    if lines.len() == 0 {
        Seq::empty()
    } else {
        match line_json(lines.last()) {
            Some(v) => parsed_lines(lines.drop_last()).push(v),
            None => parsed_lines(lines.drop_last()),
        }
    }
}

/// Analyses a whole transcript given as its raw lines: blank lines and lines
/// that are not JSON are skipped, every other line fed in order, then the end
/// of input.
#[verifier::rlimit(40)]
pub fn analyze_lines(lines: &Vec<String>, from_turn: u32, split: SubagentSplit) -> (r: ParseResult)
    requires
        lines.len() < u32::MAX,
    ensures
        analysis_matches(r, finish_step(feed_all(from_turn, parsed_lines(lines.deep_view()))), split),
        result_totals_are_turn_sums(r),
{
    let ghost ls = lines.deep_view();
    let mut p = SessionParser::new(from_turn);
    let mut i: usize = 0;
    while i < lines.len()
        invariant
            0 <= i <= lines.len() < u32::MAX,
            ls == lines.deep_view(),
            p.wf(),
            p.lines_fed <= i,
            p@ == feed_all(from_turn, parsed_lines(ls.take(i as int))),
        decreases lines.len() - i,
    {
        let _ = p.feed_line(lines[i].as_str());
        assert(ls.take(i + 1).drop_last() =~= ls.take(i as int));
        assert(ls.take(i + 1).last() == lines@[i as int]@);
        proof {
            let pl = parsed_lines(ls.take(i as int));
            match line_json(lines@[i as int]@) {
                Some(v) => {
                    assert(parsed_lines(ls.take(i + 1)) == pl.push(v));
                    assert(pl.push(v).drop_last() =~= pl);
                },
                None => {},
            }
        }
        i = i + 1;
    }
    assert(ls.take(lines.len() as int) =~= ls);
    p.finish();
    proof {
        p.lemma_totals_are_turn_sums();
    }
    p.into_result(split)
}

/// Analyses a whole transcript given as its parsed lines (blank and unparsable
/// lines already left out): every line fed in order, then the end of input.
#[verifier::rlimit(40)]
pub fn analyze_session(values: &Vec<JsonValue>, from_turn: u32, split: SubagentSplit) -> (r: ParseResult)
    requires
        values.len() < u32::MAX,
    ensures
        analysis_matches(r, finish_step(feed_all(from_turn, values@)), split),
        result_totals_are_turn_sums(r),
{
    let mut p = SessionParser::new(from_turn);
    let mut i: usize = 0;
    while i < values.len()
        invariant
            0 <= i <= values.len() < u32::MAX,
            p.wf(),
            p.lines_fed == i,
            p@ == feed_all(from_turn, values@.take(i as int)),
        decreases values.len() - i,
    {
        p.feed(&values[i]);
        assert(values@.take(i + 1).drop_last() =~= values@.take(i as int));
        i = i + 1;
    }
    assert(values@.take(values.len() as int) =~= values@);
    p.finish();
    proof {
        p.lemma_totals_are_turn_sums();
    }
    p.into_result(split)
}

fn parse_ts_ms_of(g: &TurnAccumulator) -> (r: Option<i64>)
    ensures
        r == rfc3339_millis(g.timestamp@),
{
    parse_ts_ms(g.timestamp.as_str())
}

} // verus!
