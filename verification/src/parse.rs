//! Classification of transcript lines.
use vstd::prelude::*;
use crate::json::{JsonValue, get_str, get_bool, get_in, str_in, bool_in, json_of_text, parse_json};
use crate::metrics::{Usage, usage_of};
use crate::text::str_eq;

pub use crate::text::extract_u64;
pub use crate::session::ParseResult;

verus! {

// ── Entry types ──────────────────────────────────────────────────────────────

/// What one transcript line is.
pub enum Entry {
    Assistant(AssistantEntry),
    /// A prompt typed by a person (not a tool result fed back).
    UserHuman,
    /// A queue operation, with its raw `content` text.
    Subagent(String),
    /// Sidechain, meta or tool-result user line, unknown type.
    Skip,
}

/// One content block of an assistant response.
pub struct AssistantEntry {
    pub message_id: String,
    pub timestamp: String,
    pub model: String,
    pub stop_reason: Option<String>,
    pub usage: Option<Usage>,
    pub content_type: ContentType,
    pub skill: Option<String>,
    pub session_id: String,
}

pub enum ContentType {
    Thinking,
    Text,
    ToolUse { tool_name: String },
}

// ── Views ────────────────────────────────────────────────────────────────────

pub enum ContentKind {
    Thinking,
    Text,
    ToolUse(Seq<char>),
}

pub struct AssistantView {
    pub message_id: Seq<char>,
    pub timestamp: Seq<char>,
    pub model: Seq<char>,
    pub stop_reason: Option<Seq<char>>,
    pub usage: Option<Usage>,
    pub content_type: ContentKind,
    pub skill: Option<Seq<char>>,
    pub session_id: Seq<char>,
}

pub enum EntryView {
    Assistant(AssistantView),
    UserHuman,
    Subagent(Seq<char>),
    Skip,
}

impl View for ContentType {
    type V = ContentKind;

    open spec fn view(&self) -> ContentKind {
        match self {
            ContentType::Thinking => ContentKind::Thinking,
            ContentType::Text => ContentKind::Text,
            ContentType::ToolUse { tool_name } => ContentKind::ToolUse(tool_name@),
        }
    }
}

impl View for AssistantEntry {
    type V = AssistantView;

    open spec fn view(&self) -> AssistantView {
        AssistantView {
            message_id: self.message_id@,
            timestamp: self.timestamp@,
            model: self.model@,
            stop_reason: self.stop_reason.deep_view(),
            usage: self.usage,
            content_type: self.content_type@,
            skill: self.skill.deep_view(),
            session_id: self.session_id@,
        }
    }
}

impl View for Entry {
    type V = EntryView;

    open spec fn view(&self) -> EntryView {
        match self {
            Entry::Assistant(a) => EntryView::Assistant(a@),
            Entry::UserHuman => EntryView::UserHuman,
            Entry::Subagent(c) => EntryView::Subagent(c@),
            Entry::Skip => EntryView::Skip,
        }
    }
}

// ── Specifications ───────────────────────────────────────────────────────────

pub open spec fn or_empty(s: Option<Seq<char>>) -> Seq<char> {
    match s {
        Some(x) => x,
        None => Seq::empty(),
    }
}

/// The first element of the `content` array of `message`.
pub open spec fn first_block(message: Option<JsonValue>) -> Option<JsonValue> {
    match get_in(message, "content"@) {
        Some(c) => match c.spec_as_array() {
            Some(a) => if a.len() > 0 { Some(a[0]) } else { None },
            None => None,
        },
        None => None,
    }
}

/// The kind of content that the first block of `message` holds: thinking,
/// a tool call (with the tool's name, `unknown` when it has none), or text.
pub open spec fn content_kind(message: Option<JsonValue>) -> ContentKind {
    match str_in(first_block(message), "type"@) {
        Some(t) => if t == "thinking"@ {
            ContentKind::Thinking
        } else if t == "tool_use"@ {
            ContentKind::ToolUse(
                match str_in(first_block(message), "name"@) {
                    Some(n) => n,
                    None => "unknown"@,
                },
            )
        } else {
            ContentKind::Text
        },
        None => ContentKind::Text,
    }
}

/// An assistant line: it needs `message.id`; the other fields default.
pub open spec fn assistant_entry_of(v: JsonValue) -> EntryView {
    let message = v.spec_get("message"@);
    match str_in(message, "id"@) {
        None => EntryView::Skip,
        Some(id) => EntryView::Assistant(AssistantView {
            message_id: id,
            timestamp: or_empty(str_in(Some(v), "timestamp"@)),
            model: or_empty(str_in(message, "model"@)),
            stop_reason: str_in(message, "stop_reason"@),
            usage: match get_in(message, "usage"@) {
                Some(u) => Some(usage_of(u)),
                None => None,
            },
            content_type: content_kind(message),
            skill: str_in(Some(v), "attributionSkill"@),
            session_id: or_empty(str_in(Some(v), "sessionId"@)),
        }),
    }
}

/// A block whose `type` is `tool_result`.
pub open spec fn is_tool_result(block: JsonValue) -> bool {
    str_in(Some(block), "type"@) == Some("tool_result"@)
}

/// Some block of `blocks` is a tool result.
pub open spec fn has_tool_result(blocks: Seq<JsonValue>) -> bool {
    exists|i: int| 0 <= i < blocks.len() && #[trigger] is_tool_result(blocks[i])
}

/// A user line is a human prompt when its content is a string, or (unless it
/// is a meta line) a list with no tool result in it.
pub open spec fn user_entry_of(v: JsonValue) -> EntryView {
    let content = get_in(v.spec_get("message"@), "content"@);
    let is_meta = bool_in(Some(v), "isMeta"@) == Some(true);
    match content {
        Some(c) => if c.spec_as_str() is Some {
            EntryView::UserHuman
        } else if is_meta {
            EntryView::Skip
        } else {
            match c.spec_as_array() {
                Some(a) => if has_tool_result(a) {
                    EntryView::Skip
                } else {
                    EntryView::UserHuman
                },
                None => EntryView::Skip,
            }
        },
        None => EntryView::Skip,
    }
}

/// What a transcript line is: sidechain lines are skipped first, then the
/// `type` field decides.
pub open spec fn entry_of(v: JsonValue) -> EntryView {
    if bool_in(Some(v), "isSidechain"@) == Some(true) {
        EntryView::Skip
    } else {
        match str_in(Some(v), "type"@) {
            None => EntryView::Skip,
            Some(t) => if t == "assistant"@ {
                assistant_entry_of(v)
            } else if t == "user"@ {
                user_entry_of(v)
            } else if t == "queue-operation"@ {
                EntryView::Subagent(or_empty(str_in(Some(v), "content"@)))
            } else {
                EntryView::Skip
            },
        }
    }
}

// ── Classification ───────────────────────────────────────────────────────────

fn owned_or_empty(s: Option<&str>) -> (r: String)
    ensures
        r@ == or_empty(match s { Some(x) => Some(x@), None => None }),
{
    match s {
        Some(x) => x.to_owned(),
        None => String::new(),
    }
}

fn owned_opt(s: Option<&str>) -> (r: Option<String>)
    ensures
        r.deep_view() == (match s { Some(x) => Some(x@), None => None::<Seq<char>> }),
{
    match s {
        Some(x) => Some(x.to_owned()),
        None => None,
    }
}

/// The string under `key` of an optional object.
fn str_of<'a>(v: Option<&'a JsonValue>, key: &str) -> (r: Option<&'a str>)
    ensures
        match r {
            Some(x) => str_in(match v { Some(y) => Some(*y), None => None }, key@) == Some(x@),
            None => str_in(match v { Some(y) => Some(*y), None => None }, key@) is None,
        },
{
    match v {
        Some(x) => get_str(x, key),
        None => None,
    }
}

/// Classifies a parsed transcript line.
pub fn dispatch_value(v: &JsonValue) -> (r: Entry)
    ensures
        r@ == entry_of(*v),
{
    if get_bool(v, "isSidechain") == Some(true) {
        return Entry::Skip;
    }
    let entry_type = match get_str(v, "type") {
        Some(t) => t,
        None => return Entry::Skip,
    };
    if str_eq(entry_type, "assistant") {
        dispatch_assistant(v)
    } else if str_eq(entry_type, "user") {
        dispatch_user(v)
    } else if str_eq(entry_type, "queue-operation") {
        dispatch_queue_operation(v)
    } else {
        Entry::Skip
    }
}

/// Classifies a raw transcript line: a line that is not JSON is skipped.
pub fn dispatch_line(line: &str) -> (r: Entry)
    ensures
        r@ == match json_of_text(line@) {
            Some(v) => entry_of(v),
            None => EntryView::Skip,
        },
{
    match parse_json(line) {
        Ok(v) => dispatch_value(&v),
        Err(_) => Entry::Skip,
    }
}

fn dispatch_assistant(v: &JsonValue) -> (r: Entry)
    ensures
        r@ == assistant_entry_of(*v),
{
    let message = v.get("message");
    let message_id = match str_of(message, "id") {
        Some(s) => s.to_owned(),
        None => return Entry::Skip,
    };
    let timestamp = owned_or_empty(get_str(v, "timestamp"));
    let model = owned_or_empty(str_of(message, "model"));
    let stop_reason = owned_opt(str_of(message, "stop_reason"));
    let session_id = owned_or_empty(get_str(v, "sessionId"));
    let skill = owned_opt(get_str(v, "attributionSkill"));
    let usage = match message {
        Some(m) => match m.get("usage") {
            Some(u) => Some(Usage::from_value(u)),
            None => None,
        },
        None => None,
    };
    let content_type = first_content_type(message);
    let e = AssistantEntry {
        message_id,
        timestamp,
        model,
        stop_reason,
        usage,
        content_type,
        skill,
        session_id,
    };
    Entry::Assistant(e)
}

fn first_content_type(message: Option<&JsonValue>) -> (r: ContentType)
    ensures
        r@ == content_kind(match message { Some(y) => Some(*y), None => None }),
{
    let ghost m = match message { Some(y) => Some(*y), None => None };
    let block: Option<&JsonValue> = match message {
        Some(msg) => match msg.get("content") {
            Some(c) => match c.as_array() {
                Some(a) => if a.len() > 0 { Some(&a[0]) } else { None },
                None => None,
            },
            None => None,
        },
        None => None,
    };
    assert(match block { Some(b) => first_block(m) == Some(*b), None => first_block(m) is None });
    match str_of(block, "type") {
        Some(t) => if str_eq(t, "thinking") {
            ContentType::Thinking
        } else if str_eq(t, "tool_use") {
            let tool_name = match str_of(block, "name") {
                Some(n) => n.to_owned(),
                None => "unknown".to_owned(),
            };
            ContentType::ToolUse { tool_name }
        } else {
            ContentType::Text
        },
        None => ContentType::Text,
    }
}

fn dispatch_user(v: &JsonValue) -> (r: Entry)
    ensures
        r@ == user_entry_of(*v),
{
    let is_meta = match get_bool(v, "isMeta") {
        Some(b) => b,
        None => false,
    };
    let content = match v.get("message") {
        Some(m) => m.get("content"),
        None => None,
    };
    assert(match content {
        Some(c) => get_in(v.spec_get("message"@), "content"@) == Some(*c),
        None => get_in(v.spec_get("message"@), "content"@) is None,
    });
    match content {
        Some(c) => {
            if c.is_string() {
                Entry::UserHuman
            } else if is_meta {
                Entry::Skip
            } else {
                match c.as_array() {
                    Some(arr) => {
                        let mut i: usize = 0;
                        while i < arr.len()
                            invariant
                                0 <= i <= arr.len(),
                                forall|j: int| 0 <= j < i ==> !is_tool_result(#[trigger] arr@[j]),
                                user_entry_of(*v) == (if has_tool_result(arr@) {
                                    EntryView::Skip
                                } else {
                                    EntryView::UserHuman
                                }),
                            decreases arr.len() - i,
                        {
                            let is_result = match get_str(&arr[i], "type") {
                                Some(t) => str_eq(t, "tool_result"),
                                None => false,
                            };
                            if is_result {
                                assert(is_tool_result(arr@[i as int]));
                                return Entry::Skip;
                            }
                            i = i + 1;
                        }
                        Entry::UserHuman
                    },
                    None => Entry::Skip,
                }
            }
        },
        None => Entry::Skip,
    }
}

fn dispatch_queue_operation(v: &JsonValue) -> (r: Entry)
    ensures
        r@ == EntryView::Subagent(or_empty(str_in(Some(*v), "content"@))),
{
    Entry::Subagent(owned_or_empty(get_str(v, "content")))
}

} // verus!

verus! {

// ── Turn accumulator ─────────────────────────────────────────────────────────

/// The content blocks of one assistant response (one `message.id`) gathered so far.
pub struct TurnAccumulator {
    pub message_id: String,
    /// The timestamp of the group's first line.
    pub timestamp: String,
    pub model: String,
    /// The last stop reason seen in the group.
    pub stop_reason: Option<String>,
    /// The first skill seen in the group.
    pub skill: Option<String>,
    /// The usage of the group's first usage-bearing line.
    pub usage: Option<Usage>,
    pub thinking_count: u32,
    pub text_count: u32,
    pub tool_names: Vec<String>,
}

pub struct AccView {
    pub message_id: Seq<char>,
    pub timestamp: Seq<char>,
    pub model: Seq<char>,
    pub stop_reason: Option<Seq<char>>,
    pub skill: Option<Seq<char>>,
    pub usage: Option<Usage>,
    pub thinking_count: u32,
    pub text_count: u32,
    pub tool_names: Seq<Seq<char>>,
}

impl View for TurnAccumulator {
    type V = AccView;

    open spec fn view(&self) -> AccView {
        AccView {
            message_id: self.message_id@,
            timestamp: self.timestamp@,
            model: self.model@,
            stop_reason: self.stop_reason.deep_view(),
            skill: self.skill.deep_view(),
            usage: self.usage,
            thinking_count: self.thinking_count,
            text_count: self.text_count,
            tool_names: self.tool_names.deep_view(),
        }
    }
}

/// The number of content blocks gathered.
pub open spec fn block_count(a: AccView) -> int {
    a.thinking_count + a.text_count + a.tool_names.len()
}

/// `a` with one more content block of kind `k` counted.
pub open spec fn count_block(a: AccView, k: ContentKind) -> AccView {
    match k {
        ContentKind::Thinking => AccView { thinking_count: (a.thinking_count + 1) as u32, ..a },
        ContentKind::Text => AccView { text_count: (a.text_count + 1) as u32, ..a },
        ContentKind::ToolUse(name) => AccView { tool_names: a.tool_names.push(name), ..a },
    }
}

/// The group that an assistant line opens.
pub open spec fn open_group(e: AssistantView) -> AccView {
    count_block(
        AccView {
            message_id: e.message_id,
            timestamp: e.timestamp,
            model: e.model,
            stop_reason: e.stop_reason,
            skill: e.skill,
            usage: e.usage,
            thinking_count: 0,
            text_count: 0,
            tool_names: Seq::empty(),
        },
        e.content_type,
    )
}

/// A further line of the same response: the last stop reason wins, the first
/// skill and the first usage stay, the block is counted.
pub open spec fn extend_group(a: AccView, e: AssistantView) -> AccView {
    count_block(
        AccView {
            stop_reason: if e.stop_reason is Some { e.stop_reason } else { a.stop_reason },
            skill: if a.skill is None { e.skill } else { a.skill },
            usage: if a.usage is None { e.usage } else { a.usage },
            ..a
        },
        e.content_type,
    )
}

impl TurnAccumulator {
    /// Starts the group of the response that `e` belongs to.
    pub fn open(e: AssistantEntry) -> (r: TurnAccumulator)
        ensures
            r@ == open_group(e@),
    {
        let mut acc = TurnAccumulator {
            message_id: e.message_id,
            timestamp: e.timestamp,
            model: e.model,
            stop_reason: e.stop_reason,
            skill: e.skill,
            usage: e.usage,
            thinking_count: 0,
            text_count: 0,
            tool_names: Vec::new(),
        };
        assert(acc.tool_names.deep_view() =~= Seq::<Seq<char>>::empty());
        acc.count(e.content_type);
        acc
    }

    fn count(&mut self, c: ContentType)
        requires
            block_count(old(self)@) < u32::MAX,
        ensures
            final(self)@ == count_block(old(self)@, c@),
    {
        match c {
            ContentType::Thinking => self.thinking_count = self.thinking_count + 1,
            ContentType::Text => self.text_count = self.text_count + 1,
            ContentType::ToolUse { tool_name } => {
                let ghost name = tool_name@;
                self.tool_names.push(tool_name);
                assert(self.tool_names.deep_view() =~= old(self).tool_names.deep_view().push(name));
            },
        }
    }

    /// Adds a further line of the same response to the group.
    pub fn extend(&mut self, e: AssistantEntry)
        requires
            block_count(old(self)@) < u32::MAX,
        ensures
            final(self)@ == extend_group(old(self)@, e@),
    {
        if e.stop_reason.is_some() {
            self.stop_reason = e.stop_reason;
        }
        if self.skill.is_none() && e.skill.is_some() {
            self.skill = e.skill;
        }
        if self.usage.is_none() && e.usage.is_some() {
            self.usage = e.usage;
        }
        self.count(e.content_type);
    }
}

} // verus!
