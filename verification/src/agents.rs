//! Token usage of the subagent transcripts (`<session>/subagents/agent-*.jsonl`).
use vstd::prelude::*;
use crate::json::{JsonValue, get_str, str_in, get_in, line_json, read_line, LineRead};
use crate::metrics::{Usage, usage_of, sat_add};
use crate::text::{chars_of, str_eq, push_str, push_chars};

verus! {

/// The message id and usage of an agent-file line: an `assistant` line with a
/// `message.id` and a `message.usage`. Sidechain flags do not matter here.
pub open spec fn agent_usage_line(v: JsonValue) -> Option<(Seq<char>, Usage)> {
    if str_in(Some(v), "type"@) == Some("assistant"@) {
        let message = v.spec_get("message"@);
        match str_in(message, "id"@) {
            Some(id) => match get_in(message, "usage"@) {
                Some(u) => Some((id, usage_of(u))),
                None => None,
            },
            None => None,
        }
    } else {
        None
    }
}

/// Within a message, output tokens grow from line to line: the largest wins.
/// Input and cache counters come from the latest line.
pub open spec fn merge_usage(a: Usage, b: Usage) -> Usage {
    Usage {
        input_tokens: b.input_tokens,
        output_tokens: if a.output_tokens >= b.output_tokens { a.output_tokens } else { b.output_tokens },
        cache_read_input_tokens: b.cache_read_input_tokens,
        cache_creation_input_tokens: b.cache_creation_input_tokens,
    }
}

pub type Groups = Seq<(Seq<char>, Usage)>;

pub open spec fn ids_unique(g: Groups) -> bool {
    forall|i: int, j: int| 0 <= i < g.len() && 0 <= j < g.len() && i != j ==> #[trigger] g[i].0 != #[trigger] g[j].0
}

/// The usage of message `id` merged into the groups, or a new group for it.
pub open spec fn upsert_group(g: Groups, id: Seq<char>, u: Usage) -> Groups {
    if exists|i: int| 0 <= i < g.len() && #[trigger] g[i].0 == id {
        let i = choose|i: int| 0 <= i < g.len() && #[trigger] g[i].0 == id;
        g.update(i, (id, merge_usage(g[i].1, u)))
    } else {
        g.push((id, u))
    }
}

/// The groups after one more parsed line of an agent file.
pub open spec fn agent_step(g: Groups, v: JsonValue) -> Groups {
    match agent_usage_line(v) {
        Some((id, u)) => upsert_group(g, id, u),
        None => g,
    }
}

/// The exact sum of one counter over the groups.
pub open spec fn groups_sum(g: Groups, field: spec_fn(Usage) -> u64) -> nat
    decreases g.len(),
{
    if g.len() == 0 {
        0
    } else {
        groups_sum(g.drop_last(), field) + field(g.last().1) as nat
    }
}

pub open spec fn cap(n: nat) -> u64 {
    if n > u64::MAX { u64::MAX } else { n as u64 }
}

/// The usage of a file: each counter summed over its messages, capped at
/// `u64::MAX`.
pub open spec fn groups_total(g: Groups) -> Usage {
    Usage {
        input_tokens: cap(groups_sum(g, |u: Usage| u.input_tokens)),
        output_tokens: cap(groups_sum(g, |u: Usage| u.output_tokens)),
        cache_read_input_tokens: cap(groups_sum(g, |u: Usage| u.cache_read_input_tokens)),
        cache_creation_input_tokens: cap(groups_sum(g, |u: Usage| u.cache_creation_input_tokens)),
    }
}

/// Streams one agent file: usage is repeated on every line of a message, so
/// lines are grouped by message id rather than summed.
pub struct AgentFileAggregator {
    /// Usage per message id, each id listed once, in order of first appearance.
    pub groups: Vec<(String, Usage)>,
}

pub open spec fn groups_view(g: Seq<(String, Usage)>) -> Groups {
    g.map_values(|e: (String, Usage)| (e.0@, e.1))
}

impl AgentFileAggregator {
    pub open spec fn view_groups(&self) -> Groups {
        groups_view(self.groups@)
    }

    pub open spec fn wf(&self) -> bool {
        ids_unique(self.view_groups())
    }

    pub fn new() -> (r: AgentFileAggregator)
        ensures
            r.view_groups() == Seq::<(Seq<char>, Usage)>::empty(),
            r.wf(),
    {
        let r = AgentFileAggregator { groups: Vec::new() };
        assert(r.view_groups() =~= Seq::<(Seq<char>, Usage)>::empty());
        r
    }

    /// Takes one more parsed line of the file.
    pub fn feed(&mut self, v: &JsonValue)
        requires
            old(self).wf(),
        ensures
            final(self).wf(),
            final(self).view_groups() == agent_step(old(self).view_groups(), *v),
    {
        let is_assistant = match get_str(v, "type") {
            Some(t) => str_eq(t, "assistant"),
            None => false,
        };
        if !is_assistant {
            return;
        }
        let message = match v.get("message") {
            Some(m) => m,
            None => return,
        };
        let id = match get_str(message, "id") {
            Some(s) => s,
            None => return,
        };
        let usage = match message.get("usage") {
            Some(u) => Usage::from_value(u),
            None => return,
        };
        self.upsert(id, usage);
    }

    fn upsert(&mut self, id: &str, u: Usage)
        requires
            old(self).wf(),
        ensures
            final(self).wf(),
            final(self).view_groups() == upsert_group(old(self).view_groups(), id@, u),
    {
        let ghost g = self.view_groups();
        let mut i: usize = 0;
        while i < self.groups.len()
            invariant
                0 <= i <= self.groups.len(),
                g == self.view_groups(),
                g == old(self).view_groups(),
                ids_unique(g),
                forall|j: int| 0 <= j < i ==> #[trigger] g[j].0 != id@,
            decreases self.groups.len() - i,
        {
            assert(g[i as int].0 == self.groups@[i as int].0@);
            if str_eq(self.groups[i].0.as_str(), id) {
                let old_u = self.groups[i].1;
                let merged = Usage {
                    input_tokens: u.input_tokens,
                    output_tokens: if old_u.output_tokens >= u.output_tokens { old_u.output_tokens } else { u.output_tokens },
                    cache_read_input_tokens: u.cache_read_input_tokens,
                    cache_creation_input_tokens: u.cache_creation_input_tokens,
                };
                let name = self.groups[i].0.clone();
                self.groups.set(i, (name, merged));
                proof {
                    assert(exists|k: int| 0 <= k < g.len() && #[trigger] g[k].0 == id@) by {
                        assert(g[i as int].0 == id@);
                    }
                    let k = choose|k: int| 0 <= k < g.len() && #[trigger] g[k].0 == id@;
                    assert(k == i);
                    assert(self.view_groups() =~= g.update(i as int, (id@, merge_usage(g[i as int].1, u))));
                    assert forall|a: int, b: int| 0 <= a < self.view_groups().len() && 0 <= b < self.view_groups().len() && a != b
                        implies #[trigger] self.view_groups()[a].0 != #[trigger] self.view_groups()[b].0 by {
                        assert(self.view_groups()[a].0 == g[a].0);
                        assert(self.view_groups()[b].0 == g[b].0);
                    }
                }
                return;
            }
            i = i + 1;
        }
        let ghost before = self.groups@;
        self.groups.push((id.to_owned(), u));
        proof {
            assert(self.view_groups() =~= g.push((id@, u)));
            assert(!exists|k: int| 0 <= k < g.len() && #[trigger] g[k].0 == id@);
            assert forall|a: int, b: int| 0 <= a < self.view_groups().len() && 0 <= b < self.view_groups().len() && a != b
                implies #[trigger] self.view_groups()[a].0 != #[trigger] self.view_groups()[b].0 by {
                if a < g.len() {
                    assert(self.view_groups()[a].0 == g[a].0);
                }
                if b < g.len() {
                    assert(self.view_groups()[b].0 == g[b].0);
                }
            }
        }
    }

    /// Takes one raw line of the file: blank lines and lines that are not
    /// JSON are skipped.
    pub fn feed_line(&mut self, line: &str)
        requires
            old(self).wf(),
        ensures
            final(self).wf(),
            final(self).view_groups() == match line_json(line@) {
                Some(v) => agent_step(old(self).view_groups(), v),
                None => old(self).view_groups(),
            },
    {
        match read_line(line) {
            LineRead::Json(v) => self.feed(&v),
            _ => {},
        }
    }

    /// The file's usage (see `groups_total`), or `None` when no line carried a
    /// usable turn.
    pub fn finish(&self) -> (r: Option<Usage>)
        requires
            self.wf(),
        ensures
            r == (if self.view_groups().len() == 0 { None } else { Some(groups_total(self.view_groups())) }),
    {
        if self.groups.len() == 0 {
            return None;
        }
        let ghost g = self.view_groups();
        let mut total = Usage {
            input_tokens: 0,
            output_tokens: 0,
            cache_read_input_tokens: 0,
            cache_creation_input_tokens: 0,
        };
        let mut i: usize = 0;
        while i < self.groups.len()
            invariant
                0 <= i <= self.groups.len(),
                g == self.view_groups(),
                total == groups_total(g.take(i as int)),
            decreases self.groups.len() - i,
        {
            let u = self.groups[i].1;
            assert(u == g[i as int].1);
            proof {
                let h = g.take(i + 1);
                assert(h.drop_last() =~= g.take(i as int));
                assert(h.last() == g[i as int]);
            }
            total = Usage {
                input_tokens: total.input_tokens.saturating_add(u.input_tokens),
                output_tokens: total.output_tokens.saturating_add(u.output_tokens),
                cache_read_input_tokens: total.cache_read_input_tokens.saturating_add(u.cache_read_input_tokens),
                cache_creation_input_tokens: total.cache_creation_input_tokens.saturating_add(u.cache_creation_input_tokens),
            };
            i = i + 1;
        }
        assert(g.take(g.len() as int) =~= g);
        Some(total)
    }
}

/// Whether a file name is an agent transcript: `agent-*.jsonl` (which leaves
/// out the `agent-*.meta.json` companions).
pub open spec fn is_agent_file_name_spec(name: Seq<char>) -> bool {
    &&& name.len() >= 6
    &&& name.subrange(0, 6) == "agent-"@
    &&& name.subrange(name.len() - 6, name.len() as int) == ".jsonl"@
}

/// Where the subagent transcripts of `transcript_path` live: the path without
/// its `.jsonl` suffix, then `/subagents`. `None` without the suffix.
pub open spec fn subagents_dir_spec(path: Seq<char>) -> Option<Seq<char>> {
    if path.len() >= 6 && path.subrange(path.len() - 6, path.len() as int) == ".jsonl"@ {
        Some(path.subrange(0, path.len() - 6) + "/subagents"@)
    } else {
        None
    }
}

fn string_of_range(cs: &Vec<char>, from: usize, to: usize) -> (r: String)
    requires
        from <= to <= cs.len(),
    ensures
        r@ == cs@.subrange(from as int, to as int),
{
    let mut r = String::new();
    push_chars(&mut r, cs, from, to);
    assert(r@ =~= cs@.subrange(from as int, to as int));
    r
}

/// Whether a file name is an agent transcript (see `is_agent_file_name_spec`).
pub fn is_agent_file_name(name: &str) -> (r: bool)
    ensures
        r == is_agent_file_name_spec(name@),
{
    let cs = chars_of(name);
    if cs.len() < 6 {
        return false;
    }
    let head = string_of_range(&cs, 0, 6);
    let tail = string_of_range(&cs, cs.len() - 6, cs.len());
    str_eq(head.as_str(), "agent-") && str_eq(tail.as_str(), ".jsonl")
}

/// The directory of the subagent transcripts of a session transcript (see
/// `subagents_dir_spec`).
pub fn subagents_dir(transcript_path: &str) -> (r: Option<String>)
    ensures
        match r {
            Some(d) => subagents_dir_spec(transcript_path@) == Some(d@),
            None => subagents_dir_spec(transcript_path@) is None,
        },
{
    let cs = chars_of(transcript_path);
    if cs.len() < 6 {
        return None;
    }
    let tail = string_of_range(&cs, cs.len() - 6, cs.len());
    if !str_eq(tail.as_str(), ".jsonl") {
        return None;
    }
    let mut dir = string_of_range(&cs, 0, cs.len() - 6);
    push_str(&mut dir, "/subagents");
    Some(dir)
}

} // verus!
