//! Layout of the human-readable reports: padded columns, the side-by-side
//! comparison table, and the pieces of the single-session summary.
use vstd::prelude::*;
use vstd::utf8::encode_utf8;
use crate::metrics::{SessionSummary, Turn, TurnView};
use crate::session::turn_views;
use crate::output::{duration_text, format_duration};
use crate::ranking::{
    Tally, rank, is_ranking, names_unique, tally_map, tally_add, tally_sum, tally_seq_all, lemma_tally_count_le_sum,
};
use crate::text::{
    chars_of, push_char, push_chars, push_str, push_decimal, decimal, group_thousands, commafy,
    trim_end, is_whitespace_char, is_white_space,
};

verus! {

// ── Padding ─────────────────────────────────────────────────────────────────

/// The length of `s` in UTF-8 bytes (what `str::len` reports).
pub open spec fn byte_len(s: Seq<char>) -> nat {
    (encode_utf8(s).len() as usize) as nat
}

pub open spec fn spaces(n: nat) -> Seq<char> {
    Seq::new(n, |i: int| ' ')
}

/// `s` left-aligned in a field `w` characters wide (`{:w$}`).
pub open spec fn pad_end(s: Seq<char>, w: nat) -> Seq<char> {
    if s.len() < w {
        s + spaces((w - s.len()) as nat)
    } else {
        s
    }
}

/// `s` right-aligned in a field `w` characters wide (`{:>w$}`).
pub open spec fn pad_start(s: Seq<char>, w: nat) -> Seq<char> {
    if s.len() < w {
        spaces((w - s.len()) as nat) + s
    } else {
        s
    }
}

fn push_repeated(out: &mut String, c: char, n: usize)
    ensures
        final(out)@ == old(out)@ + Seq::new(n as nat, |i: int| c),
{
    let mut i: usize = 0;
    while i < n
        invariant
            0 <= i <= n,
            out@ == old(out)@ + Seq::new(i as nat, |j: int| c),
        decreases n - i,
    {
        push_char(out, c);
        assert(out@ =~= old(out)@ + Seq::new((i + 1) as nat, |j: int| c));
        i = i + 1;
    }
}

fn push_spaces(out: &mut String, n: usize)
    ensures
        final(out)@ == old(out)@ + spaces(n as nat),
{
    push_repeated(out, ' ', n);
    assert(Seq::new(n as nat, |i: int| ' ') =~= spaces(n as nat));
}

fn char_count(s: &str) -> (r: usize)
    ensures
        r == s@.len(),
{
    let cs = chars_of(s);
    cs.len()
}

fn push_pad_end(out: &mut String, s: &str, w: usize)
    ensures
        final(out)@ == old(out)@ + pad_end(s@, w as nat),
{
    push_str(out, s);
    let n = char_count(s);
    if n < w {
        push_spaces(out, w - n);
    }
    assert(final(out)@ =~= old(out)@ + pad_end(s@, w as nat));
}

fn push_pad_start(out: &mut String, s: &str, w: usize)
    ensures
        final(out)@ == old(out)@ + pad_start(s@, w as nat),
{
    let n = char_count(s);
    if n < w {
        push_spaces(out, w - n);
    }
    push_str(out, s);
    assert(final(out)@ =~= old(out)@ + pad_start(s@, w as nat));
}

/// The first `n` characters of `s` (all of them when it is shorter).
pub fn char_prefix(s: &str, n: usize) -> (r: String)
    ensures
        r@ == s@.take(if n < s@.len() { n as int } else { s@.len() as int }),
{
    let cs = chars_of(s);
    let k = if n < cs.len() { n } else { cs.len() };
    let mut r = String::new();
    push_chars(&mut r, &cs, 0, k);
    assert(r@ =~= s@.take(k as int));
    r
}

// ── The comparison table ────────────────────────────────────────────────────

pub open spec fn max_nat(a: nat, b: nat) -> nat {
    if a >= b { a } else { b }
}

/// The widest of the texts, in bytes (0 for none).
pub open spec fn widest(ss: Seq<Seq<char>>) -> nat
    decreases ss.len(),
{
    if ss.len() == 0 {
        0
    } else {
        max_nat(widest(ss.drop_last()), byte_len(ss.last()))
    }
}

/// Column `i` of the rows.
pub open spec fn column(rows: Seq<Seq<Seq<char>>>, i: int) -> Seq<Seq<char>> {
    Seq::new(rows.len(), |r: int| rows[r][i])
}

/// The width of each column: its widest cell or header, in bytes.
pub open spec fn column_widths(headers: Seq<Seq<char>>, rows: Seq<Seq<Seq<char>>>) -> Seq<nat> {
    Seq::new(headers.len(), |i: int| max_nat(byte_len(headers[i]), widest(column(rows, i))))
}

/// Two spaces, then each header left-aligned in its column.
pub open spec fn header_cells(headers: Seq<Seq<char>>, widths: Seq<nat>) -> Seq<char>
    decreases headers.len(),
{
    if headers.len() == 0 {
        Seq::empty()
    } else {
        header_cells(headers.drop_last(), widths) + spaces(2) + pad_end(headers.last(), widths[headers.len() - 1])
    }
}

/// Each value right-aligned in its column, then two spaces.
pub open spec fn value_cells(values: Seq<Seq<char>>, widths: Seq<nat>) -> Seq<char>
    decreases values.len(),
{
    if values.len() == 0 {
        Seq::empty()
    } else {
        value_cells(values.drop_last(), widths) + pad_start(values.last(), widths[values.len() - 1]) + spaces(2)
    }
}

pub open spec fn sum_plus_two(ws: Seq<nat>) -> nat
    decreases ws.len(),
{
    if ws.len() == 0 {
        0
    } else {
        sum_plus_two(ws.drop_last()) + ws.last() + 2
    }
}

/// The length of the separator line.
pub open spec fn rule_len(labels: Seq<Seq<char>>, headers: Seq<Seq<char>>, rows: Seq<Seq<Seq<char>>>) -> nat {
    widest(labels) + 2 + sum_plus_two(column_widths(headers, rows))
}

/// The lines of the table: the header line, a rule of dashes, then one line
/// per row (label left-aligned, values right-aligned, trailing space removed).
pub open spec fn table_lines(labels: Seq<Seq<char>>, headers: Seq<Seq<char>>, rows: Seq<Seq<Seq<char>>>) -> Seq<Seq<char>> {
    let lw = widest(labels);
    let widths = column_widths(headers, rows);
    seq![
        spaces(lw + 2) + header_cells(headers, widths),
        Seq::new(rule_len(labels, headers, rows), |i: int| '-'),
    ] + Seq::new(rows.len(), |r: int| trim_end(pad_end(labels[r], lw) + spaces(2) + value_cells(rows[r], widths)))
}

pub open spec fn texts(v: Seq<String>) -> Seq<Seq<char>> {
    v.map_values(|s: String| s@)
}

pub open spec fn table_rows(v: Seq<Vec<String>>) -> Seq<Seq<Seq<char>>> {
    v.map_values(|r: Vec<String>| texts(r@))
}

fn byte_length(s: &String) -> (r: usize)
    ensures
        r == byte_len(s@),
{
    s.as_str().len()
}

fn widest_exec(ss: &Vec<String>) -> (r: usize)
    ensures
        r == widest(texts(ss@)),
{
    let mut w: usize = 0;
    let mut i: usize = 0;
    while i < ss.len()
        invariant
            0 <= i <= ss.len(),
            w == widest(texts(ss@).take(i as int)),
        decreases ss.len() - i,
    {
        assert(texts(ss@).take(i + 1).drop_last() =~= texts(ss@).take(i as int));
        assert(texts(ss@).take(i + 1).last() == ss@[i as int]@);
        let b = byte_length(&ss[i]);
        if b > w {
            w = b;
        }
        i = i + 1;
    }
    assert(texts(ss@).take(ss.len() as int) =~= texts(ss@));
    w
}

fn column_width_exec(header: &String, rows: &Vec<Vec<String>>, i: usize) -> (r: usize)
    requires
        forall|k: int| 0 <= k < rows.len() ==> i < #[trigger] rows@[k].len(),
    ensures
        r == max_nat(byte_len(header@), widest(column(table_rows(rows@), i as int))),
{
    let mut w: usize = 0;
    let mut k: usize = 0;
    let ghost col = column(table_rows(rows@), i as int);
    while k < rows.len()
        invariant
            0 <= k <= rows.len(),
            forall|j: int| 0 <= j < rows.len() ==> i < #[trigger] rows@[j].len(),
            col == column(table_rows(rows@), i as int),
            w == widest(col.take(k as int)),
        decreases rows.len() - k,
    {
        assert(i < rows@[k as int].len());
        assert(col.take(k + 1).drop_last() =~= col.take(k as int));
        assert(col.take(k + 1).last() == rows@[k as int]@[i as int]@);
        let b = byte_length(&rows[k][i]);
        if b > w {
            w = b;
        }
        k = k + 1;
    }
    assert(col.take(rows.len() as int) =~= col);
    let h = byte_length(header);
    if h > w { h } else { w }
}

/// Lays out a table of `rows` (one per label, one value per header). `None`
/// when the rule's length does not fit in a `usize`.
pub fn render_table(labels: &Vec<String>, headers: &Vec<String>, rows: &Vec<Vec<String>>) -> (r: Option<Vec<String>>)
    requires
        labels.len() == rows.len(),
        forall|k: int| 0 <= k < rows.len() ==> #[trigger] rows@[k].len() == headers.len(),
    ensures
        match r {
            Some(lines) => texts(lines@) == table_lines(texts(labels@), texts(headers@), table_rows(rows@))
                && rule_len(texts(labels@), texts(headers@), table_rows(rows@)) <= usize::MAX,
            None => rule_len(texts(labels@), texts(headers@), table_rows(rows@)) > usize::MAX,
        },
{
    let ghost ls = texts(labels@);
    let ghost hs = texts(headers@);
    let ghost rs = table_rows(rows@);
    let lw = widest_exec(labels);
    // column widths
    let mut widths: Vec<usize> = Vec::new();
    let mut i: usize = 0;
    while i < headers.len()
        invariant
            0 <= i <= headers.len(),
            hs == texts(headers@),
            rs == table_rows(rows@),
            ls == texts(labels@),
            lw == widest(ls),
            forall|k: int| 0 <= k < rows.len() ==> #[trigger] rows@[k].len() == headers.len(),
            widths@.len() == i,
            forall|j: int| 0 <= j < i ==> #[trigger] widths@[j] == column_widths(hs, rs)[j],
        decreases headers.len() - i,
    {
        let w = column_width_exec(&headers[i], rows, i);
        widths.push(w);
        i = i + 1;
    }
    let ghost ws = column_widths(hs, rs);
    assert(widths@.map_values(|w: usize| w as nat) =~= ws);
    // rule length, checked
    let mut total: usize = match lw.checked_add(2) {
        Some(t) => t,
        None => {
            proof { lemma_sum_plus_two_nonneg(ws); }
            return None;
        },
    };
    let mut j: usize = 0;
    while j < widths.len()
        invariant
            0 <= j <= widths.len(),
            widths@.map_values(|w: usize| w as nat) == ws,
            ws == column_widths(hs, rs),
            lw == widest(ls),
            ls == texts(labels@),
            hs == texts(headers@),
            rs == table_rows(rows@),
            total == lw + 2 + sum_plus_two(ws.take(j as int)),
        decreases widths.len() - j,
    {
        assert(ws.take(j + 1).drop_last() =~= ws.take(j as int));
        assert(ws.take(j + 1).last() == widths@[j as int]);
        assert(sum_plus_two(ws.take(j + 1)) == sum_plus_two(ws.take(j as int)) + widths@[j as int] + 2);
        let step = match widths[j].checked_add(2) {
            Some(s) => s,
            None => {
                proof { lemma_sum_plus_two_mono(ws, j + 1); }
                return None;
            },
        };
        total = match total.checked_add(step) {
            Some(t) => t,
            None => {
                proof { lemma_sum_plus_two_mono(ws, j + 1); }
                return None;
            },
        };
        j = j + 1;
    }
    assert(ws.take(widths.len() as int) =~= ws);

    let mut lines: Vec<String> = Vec::new();
    // header line
    let mut head = String::new();
    push_spaces(&mut head, lw + 2);
    let mut c: usize = 0;
    while c < headers.len()
        invariant
            0 <= c <= headers.len(),
            widths@.len() == headers.len(),
            widths@.map_values(|w: usize| w as nat) == ws,
            hs == texts(headers@),
            head@ == spaces((lw + 2) as nat) + header_cells(hs.take(c as int), ws),
        decreases headers.len() - c,
    {
        assert(hs.take(c + 1).drop_last() =~= hs.take(c as int));
        assert(hs.take(c + 1).last() == headers@[c as int]@);
        assert(ws[c as int] == widths@[c as int]);
        push_spaces(&mut head, 2);
        push_pad_end(&mut head, headers[c].as_str(), widths[c]);
        assert(head@ =~= spaces((lw + 2) as nat) + header_cells(hs.take(c + 1), ws));
        c = c + 1;
    }
    assert(hs.take(headers.len() as int) =~= hs);
    lines.push(head);
    // rule
    let mut rule = String::new();
    push_repeated(&mut rule, '-', total);
    lines.push(rule);
    // rows
    let mut k: usize = 0;
    while k < rows.len()
        invariant
            0 <= k <= rows.len(),
            labels.len() == rows.len(),
            forall|q: int| 0 <= q < rows.len() ==> #[trigger] rows@[q].len() == headers.len(),
            widths@.len() == headers.len(),
            widths@.map_values(|w: usize| w as nat) == ws,
            ls == texts(labels@),
            rs == table_rows(rows@),
            hs == texts(headers@),
            ws == column_widths(hs, rs),
            lw == widest(ls),
            lines@.len() == 2 + k,
            texts(lines@).take(2) == table_lines(ls, hs, rs).take(2),
            forall|q: int| 0 <= q < k ==> #[trigger] texts(lines@)[2 + q] == table_lines(ls, hs, rs)[2 + q],
        decreases rows.len() - k,
    {
        let mut line = String::new();
        push_pad_end(&mut line, labels[k].as_str(), lw);
        push_spaces(&mut line, 2);
        let ghost vs = rs[k as int];
        assert(vs == texts(rows@[k as int]@));
        let mut c: usize = 0;
        let ghost start = line@;
        while c < headers.len()
            invariant
                0 <= c <= headers.len(),
                k < rows.len(),
                rows@[k as int].len() == headers.len(),
                widths@.len() == headers.len(),
                widths@.map_values(|w: usize| w as nat) == ws,
                vs == texts(rows@[k as int]@),
                line@ == start + value_cells(vs.take(c as int), ws),
            decreases headers.len() - c,
        {
            assert(vs.take(c + 1).drop_last() =~= vs.take(c as int));
            assert(vs.take(c + 1).last() == rows@[k as int]@[c as int]@);
            assert(ws[c as int] == widths@[c as int]);
            push_pad_start(&mut line, rows[k][c].as_str(), widths[c]);
            push_spaces(&mut line, 2);
            assert(line@ =~= start + value_cells(vs.take(c + 1), ws));
            c = c + 1;
        }
        assert(vs.take(headers.len() as int) =~= vs);
        let trimmed = trimmed_end(&line);
        let ghost before = lines@;
        proof {
            assert(ls[k as int] == labels@[k as int]@);
            assert(line@ == pad_end(ls[k as int], lw as nat) + spaces(2) + value_cells(rs[k as int], ws));
            let t = table_lines(ls, hs, rs);
            assert(t[2 + k] == trim_end(pad_end(ls[k as int], lw as nat) + spaces(2) + value_cells(rs[k as int], ws)));
            assert(trimmed@ == t[2 + k]);
        }
        lines.push(trimmed);
        proof {
            assert(texts(lines@) =~= texts(before).push(trimmed@));
            assert(texts(lines@).take(2) =~= texts(before).take(2));
            assert forall|q: int| 0 <= q < k + 1 implies #[trigger] texts(lines@)[2 + q] == table_lines(ls, hs, rs)[2 + q] by {
                if q < k {
                    assert(texts(lines@)[2 + q] == texts(before)[2 + q]);
                }
            }
        }
        k = k + 1;
    }
    proof {
        let t = table_lines(ls, hs, rs);
        assert(texts(lines@) =~= t) by {
            assert(texts(lines@).take(2)[0] == t[0]);
            assert(texts(lines@).take(2)[1] == t[1]);
            assert forall|q: int| 0 <= q < t.len() implies #[trigger] texts(lines@)[q] == t[q] by {
                if q < 2 {
                    assert(texts(lines@).take(2)[q] == t.take(2)[q]);
                } else {
                    assert(texts(lines@)[2 + (q - 2)] == t[2 + (q - 2)]);
                }
            }
        }
    }
    Some(lines)
}

proof fn lemma_sum_plus_two_nonneg(ws: Seq<nat>)
    ensures
        sum_plus_two(ws) >= 0,
{
}

proof fn lemma_sum_plus_two_mono(ws: Seq<nat>, j: int)
    requires
        0 <= j <= ws.len(),
    ensures
        sum_plus_two(ws.take(j)) <= sum_plus_two(ws),
    decreases ws.len() - j,
{
    if j < ws.len() {
        assert(ws.drop_last().take(j) =~= ws.take(j));
        lemma_sum_plus_two_mono(ws.drop_last(), j);
    } else {
        assert(ws.take(j) =~= ws);
    }
}

/// `s` without trailing white space.
fn trimmed_end(s: &String) -> (r: String)
    ensures
        r@ == trim_end(s@),
{
    let cs = chars_of(s.as_str());
    let mut e = cs.len();
    assert(cs@.subrange(0, e as int) =~= s@);
    while e > 0 && is_whitespace_char(cs[e - 1])
        invariant
            0 <= e <= cs.len(),
            cs@ == s@,
            trim_end(s@) == trim_end(cs@.subrange(0, e as int)),
        decreases e,
    {
        proof {
            let t = cs@.subrange(0, e as int);
            assert(t.last() == cs@[e - 1]);
            assert(t.drop_last() =~= cs@.subrange(0, e - 1));
        }
        e = e - 1;
    }
    let mut r = String::new();
    push_chars(&mut r, &cs, 0, e);
    proof {
        let t = cs@.subrange(0, e as int);
        assert(r@ =~= t);
        if e > 0 {
            assert(t.last() == cs@[e - 1]);
        }
    }
    r
}

// ── Comparison columns ──────────────────────────────────────────────────────

/// `n` with thousands separators.
pub open spec fn commafy_text(n: u64) -> Seq<char> {
    group_thousands(decimal(n as nat))
}

/// The column header of a session: the file's name, and the first eight
/// characters of the session id in parentheses when there is one.
pub open spec fn comparison_header_text(basename: Seq<char>, session_id: Seq<char>) -> Seq<char> {
    if session_id.len() == 0 {
        basename
    } else {
        basename + " ("@ + session_id.take(if 8 < session_id.len() { 8 } else { session_id.len() as int }) + ")"@
    }
}

pub fn comparison_header(basename: &str, session_id: &str) -> (r: String)
    ensures
        r@ == comparison_header_text(basename@, session_id@),
{
    let mut r = String::new();
    push_str(&mut r, basename);
    if !session_id.is_empty() {
        push_str(&mut r, " (");
        let short = char_prefix(session_id, 8);
        push_str(&mut r, short.as_str());
        push_str(&mut r, ")");
    }
    assert(r@ =~= comparison_header_text(basename@, session_id@));
    r
}

/// The row labels of the comparison table.
pub open spec fn comparison_label_texts() -> Seq<Seq<char>> {
    seq![
        "Model"@, "Duration"@, "Turns"@, "Total input"@, "Total output"@, "Cache read"@,
        "Cache write"@, "Avg burn/turn"@, "Peak burn"@, "Final context"@, "Thinking ratio"@,
        "Subagent tokens"@, "Subagent tasks"@,
    ]
}

fn push_label(v: &mut Vec<String>, s: &str)
    ensures
        texts(final(v)@) == texts(old(v)@).push(s@),
{
    let t = s.to_owned();
    v.push(t);
    assert(texts(final(v)@) =~= texts(old(v)@).push(s@));
}

fn comparison_labels() -> (r: Vec<String>)
    ensures
        texts(r@) == comparison_label_texts(),
{
    let mut v: Vec<String> = Vec::new();
    assert(texts(v@) =~= Seq::<Seq<char>>::empty());
    push_label(&mut v, "Model");
    push_label(&mut v, "Duration");
    push_label(&mut v, "Turns");
    push_label(&mut v, "Total input");
    push_label(&mut v, "Total output");
    push_label(&mut v, "Cache read");
    push_label(&mut v, "Cache write");
    push_label(&mut v, "Avg burn/turn");
    push_label(&mut v, "Peak burn");
    push_label(&mut v, "Final context");
    push_label(&mut v, "Thinking ratio");
    push_label(&mut v, "Subagent tokens");
    push_label(&mut v, "Subagent tasks");
    assert(texts(v@) =~= comparison_label_texts());
    v
}

/// The peak burn cell: the peak (0 when negative) with separators, then the turn.
pub open spec fn peak_cell_text(value: i64, turn: u32) -> Seq<char> {
    group_thousands(decimal(if value > 0 { value as nat } else { 0 })) + " (t"@ + decimal(turn as nat) + ")"@
}

/// The cells of one session's column, in the order of the labels. The
/// duration, the average burn (already floored at zero) and the thinking ratio
/// come computed.
pub open spec fn comparison_cell_texts(s: SessionSummary, duration: Seq<char>, avg_burn: u64, thinking_ratio: Seq<char>) -> Seq<Seq<char>> {
    seq![
        s.model@,
        duration,
        decimal(s.total_turns as nat),
        commafy_text(s.total_input_tokens),
        commafy_text(s.total_output_tokens),
        commafy_text(s.total_cache_read),
        commafy_text(s.total_cache_write),
        commafy_text(avg_burn),
        peak_cell_text(s.peak_burn_value, s.peak_burn_turn),
        commafy_text(s.final_context_size),
        thinking_ratio,
        commafy_text(s.total_subagent_tokens),
        decimal(s.subagent_count as nat),
    ]
}

fn decimal_string(n: u64) -> (r: String)
    ensures
        r@ == decimal(n as nat),
{
    let mut r = String::new();
    push_decimal(&mut r, n);
    assert(r@ =~= decimal(n as nat));
    r
}

fn push_owned(v: &mut Vec<String>, s: String)
    ensures
        texts(final(v)@) == texts(old(v)@).push(s@),
{
    let ghost t = s@;
    v.push(s);
    assert(texts(final(v)@) =~= texts(old(v)@).push(t));
}

pub fn comparison_cells(s: &SessionSummary, duration: &str, avg_burn: u64, thinking_ratio: &str) -> (r: Vec<String>)
    ensures
        texts(r@) == comparison_cell_texts(*s, duration@, avg_burn, thinking_ratio@),
{
    let mut v: Vec<String> = Vec::new();
    assert(texts(v@) =~= Seq::<Seq<char>>::empty());
    push_owned(&mut v, s.model.clone());
    push_label(&mut v, duration);
    push_owned(&mut v, decimal_string(s.total_turns as u64));
    push_owned(&mut v, commafy(s.total_input_tokens));
    push_owned(&mut v, commafy(s.total_output_tokens));
    push_owned(&mut v, commafy(s.total_cache_read));
    push_owned(&mut v, commafy(s.total_cache_write));
    push_owned(&mut v, commafy(avg_burn));
    let mut peak = commafy(if s.peak_burn_value > 0 { s.peak_burn_value as u64 } else { 0 });
    push_str(&mut peak, " (t");
    push_decimal(&mut peak, s.peak_burn_turn as u64);
    push_str(&mut peak, ")");
    assert(peak@ =~= peak_cell_text(s.peak_burn_value, s.peak_burn_turn));
    push_owned(&mut v, peak);
    push_owned(&mut v, commafy(s.final_context_size));
    push_label(&mut v, thinking_ratio);
    push_owned(&mut v, commafy(s.total_subagent_tokens));
    push_owned(&mut v, decimal_string(s.subagent_count as u64));
    assert(texts(v@) =~= comparison_cell_texts(*s, duration@, avg_burn, thinking_ratio@));
    v
}

pub open spec fn columns_text(columns: Seq<Vec<String>>) -> Seq<Seq<Seq<char>>> {
    columns.map_values(|c: Vec<String>| texts(c@))
}

/// Rows from columns: row `r` holds cell `r` of every column.
pub open spec fn transpose(columns: Seq<Seq<Seq<char>>>, n_rows: nat) -> Seq<Seq<Seq<char>>> {
    Seq::new(n_rows, |r: int| Seq::new(columns.len(), |c: int| columns[c][r]))
}

/// The comparison table of sessions: one column per session (`headers[i]`
/// over the cells `columns[i]`), one row per label.
pub fn comparison_table(headers: &Vec<String>, columns: &Vec<Vec<String>>) -> (r: Option<Vec<String>>)
    requires
        headers.len() == columns.len(),
        forall|c: int| 0 <= c < columns.len() ==> #[trigger] columns@[c].len() == 13,
    ensures
        ({
            let rows = transpose(columns_text(columns@), 13);
            match r {
                Some(lines) => texts(lines@) == table_lines(comparison_label_texts(), texts(headers@), rows),
                None => rule_len(comparison_label_texts(), texts(headers@), rows) > usize::MAX,
            }
        }),
{
    let labels = comparison_labels();
    let ghost cols = columns_text(columns@);
    let ghost want = transpose(cols, 13);
    let mut rows: Vec<Vec<String>> = Vec::new();
    let mut r: usize = 0;
    while r < 13
        invariant
            0 <= r <= 13,
            cols == columns_text(columns@),
            want == transpose(cols, 13),
            forall|c: int| 0 <= c < columns.len() ==> #[trigger] columns@[c].len() == 13,
            rows@.len() == r,
            forall|q: int| 0 <= q < r ==> #[trigger] texts(rows@[q]@) == want[q],
            forall|q: int| 0 <= q < r ==> #[trigger] rows@[q].len() == columns.len(),
        decreases 13 - r,
    {
        let mut row: Vec<String> = Vec::new();
        let mut c: usize = 0;
        while c < columns.len()
            invariant
                0 <= c <= columns.len(),
                r < 13,
                forall|k: int| 0 <= k < columns.len() ==> #[trigger] columns@[k].len() == 13,
                cols == columns_text(columns@),
                row@.len() == c,
                forall|k: int| 0 <= k < c ==> #[trigger] row@[k]@ == cols[k][r as int],
            decreases columns.len() - c,
        {
            assert(columns@[c as int].len() == 13);
            let cell = columns[c][r].clone();
            assert(cols[c as int] == texts(columns@[c as int]@));
            row.push(cell);
            c = c + 1;
        }
        assert(texts(row@) =~= want[r as int]) by {
            assert(want[r as int].len() == columns.len());
            assert forall|k: int| 0 <= k < columns.len() implies #[trigger] texts(row@)[k] == want[r as int][k] by {
                assert(row@[k]@ == cols[k][r as int]);
            }
        }
        rows.push(row);
        r = r + 1;
    }
    assert(table_rows(rows@) =~= want);
    assert forall|k: int| 0 <= k < rows.len() implies #[trigger] rows@[k].len() == headers.len() by {}
    assert(labels@.len() == texts(labels@).len());
    render_table(&labels, headers, &rows)
}

// ── Pieces of the single-session report ─────────────────────────────────────

/// The texts joined with `sep`.
pub open spec fn join_with(parts: Seq<Seq<char>>, sep: Seq<char>) -> Seq<char>
    decreases parts.len(),
{
    if parts.len() == 0 {
        Seq::empty()
    } else if parts.len() == 1 {
        parts[0]
    } else {
        join_with(parts.drop_last(), sep) + sep + parts.last()
    }
}

fn push_joined_parts(out: &mut String, parts: &Vec<String>, sep: &str)
    ensures
        final(out)@ == old(out)@ + join_with(texts(parts@), sep@),
{
    let ghost start = out@;
    let ghost ps = texts(parts@);
    let mut i: usize = 0;
    while i < parts.len()
        invariant
            0 <= i <= parts.len(),
            ps == texts(parts@),
            out@ == start + join_with(ps.take(i as int), sep@),
        decreases parts.len() - i,
    {
        let ghost h = ps.take(i + 1);
        assert(h.drop_last() =~= ps.take(i as int));
        assert(h.last() == parts@[i as int]@);
        if i > 0 {
            push_str(out, sep);
        }
        push_str(out, parts[i].as_str());
        assert(out@ =~= start + join_with(h, sep@));
        i = i + 1;
    }
    assert(ps.take(parts.len() as int) =~= ps);
}

/// `Name xN`
pub open spec fn tool_count_text(e: (Seq<char>, u32)) -> Seq<char> {
    e.0 + " x"@ + decimal(e.1 as nat)
}

/// The first turn numbered `n`, if any.
pub open spec fn turn_numbered(turns: Seq<TurnView>, n: u32) -> Option<TurnView>
    decreases turns.len(),
{
    if turns.len() == 0 {
        None
    } else if turns[0].turn == n {
        Some(turns[0])
    } else {
        turn_numbered(turns.drop_first(), n)
    }
}

/// The tools of the peak turn, each with its number of calls in order of first
/// call: `"  (Bash x4, Write x1)"`; empty when the turn is absent or called no
/// tool.
pub open spec fn peak_tools_spec(turns: Seq<TurnView>, peak_turn: u32) -> Seq<char> {
    match turn_numbered(turns, peak_turn) {
        None => Seq::empty(),
        Some(t) => {
            let counts = tally_seq_all(Seq::empty(), t.tools_called);
            if counts.len() == 0 {
                Seq::empty()
            } else {
                "  ("@ + join_with(counts.map_values(|e: (Seq<char>, u32)| tool_count_text(e)), ", "@) + ")"@
            }
        },
    }
}

/// The position of the first turn numbered `n`, scanning from `from`.
fn find_turn(turns: &Vec<Turn>, n: u32) -> (r: Option<usize>)
    ensures
        match r {
            Some(i) => i < turns.len() && turn_numbered(turn_views(turns@), n) == Some(turns@[i as int]@),
            None => turn_numbered(turn_views(turns@), n) is None,
        },
{
    let ghost tv = turn_views(turns@);
    let mut i: usize = 0;
    assert(tv.skip(0) =~= tv);
    while i < turns.len()
        invariant
            0 <= i <= turns.len(),
            tv == turn_views(turns@),
            turn_numbered(tv, n) == turn_numbered(tv.skip(i as int), n),
        decreases turns.len() - i,
    {
        assert(tv.skip(i as int)[0] == turns@[i as int]@);
        if turns[i].turn == n {
            return Some(i);
        }
        assert(tv.skip(i as int).drop_first() =~= tv.skip(i + 1));
        i = i + 1;
    }
    assert(tv.skip(i as int).len() == 0);
    None
}

/// The tools of the turn numbered `peak_turn` with their call counts, in order
/// of first call, as `"  (Bash x4, Write x1)"`; empty when there is no such
/// turn or it called no tool.
pub fn peak_tools_text(turns: &Vec<Turn>, peak_turn: u32) -> (r: String)
    requires
        forall|k: int| 0 <= k < turns.len() ==> #[trigger] turns@[k].tools_called.len() < u32::MAX,
    ensures
        r@ == peak_tools_spec(turn_views(turns@), peak_turn),
{
    let mut out = String::new();
    match find_turn(turns, peak_turn) {
        None => {
            assert(out@ =~= peak_tools_spec(turn_views(turns@), peak_turn));
            out
        },
        Some(i) => {
            let tools = &turns[i].tools_called;
            assert(turns@[i as int].tools_called.len() < u32::MAX);
            let ghost names = tools.deep_view();
            let mut counts: Vec<(String, u32)> = Vec::new();
            assert(counts.deep_view() =~= Seq::<(Seq<char>, u32)>::empty());
            let mut j: usize = 0;
            while j < tools.len()
                invariant
                    0 <= j <= tools.len(),
                    tools.len() < u32::MAX,
                    names == tools.deep_view(),
                    names_unique(counts.deep_view()),
                    tally_sum(counts.deep_view()) == j,
                    counts.deep_view() == tally_seq_all(Seq::empty(), names.take(j as int)),
                decreases tools.len() - j,
            {
                proof {
                    if tally_map(counts.deep_view()).contains_key(tools[j as int]@) {
                        lemma_tally_count_le_sum(counts.deep_view(), tools[j as int]@);
                    }
                    assert(names.take(j + 1).drop_last() =~= names.take(j as int));
                    assert(names.take(j + 1).last() == tools[j as int]@);
                }
                tally_add(&mut counts, tools[j].as_str());
                j = j + 1;
            }
            assert(names.take(tools.len() as int) =~= names);
            if counts.len() == 0 {
                assert(out@ =~= peak_tools_spec(turn_views(turns@), peak_turn));
                return out;
            }
            let ghost cv = counts.deep_view();
            let mut parts: Vec<String> = Vec::new();
            let mut k: usize = 0;
            while k < counts.len()
                invariant
                    0 <= k <= counts.len(),
                    cv == counts.deep_view(),
                    texts(parts@) == cv.take(k as int).map_values(|e: (Seq<char>, u32)| tool_count_text(e)),
                decreases counts.len() - k,
            {
                let mut p = String::new();
                push_str(&mut p, counts[k].0.as_str());
                push_str(&mut p, " x");
                push_decimal(&mut p, counts[k].1 as u64);
                assert(cv[k as int] == (counts@[k as int].0@, counts@[k as int].1));
                assert(p@ =~= tool_count_text(cv[k as int]));
                let ghost before = parts@;
                parts.push(p);
                assert(texts(parts@) =~= texts(before).push(p@));
                assert(cv.take(k + 1).map_values(|e: (Seq<char>, u32)| tool_count_text(e))
                    =~= cv.take(k as int).map_values(|e: (Seq<char>, u32)| tool_count_text(e)).push(tool_count_text(cv[k as int])));
                k = k + 1;
            }
            assert(cv.take(counts.len() as int) =~= cv);
            push_str(&mut out, "  (");
            push_joined_parts(&mut out, &parts, ", ");
            push_str(&mut out, ")");
            assert(out@ =~= peak_tools_spec(turn_views(turns@), peak_turn));
            out
        },
    }
}

// ── The mixed-session note ─────────────────────────────────────────────────

/// A model with its number of turns: `name (n)`.
pub open spec fn model_label(e: (Seq<char>, u32)) -> Seq<char> {
    e.0 + seq![' ', '('] + decimal(e.1 as nat) + seq![')']
}

/// The model of each turn, in order.
pub open spec fn turn_models(turns: Seq<TurnView>) -> Seq<Seq<char>> {
    turns.map_values(|t: TurnView| t.model)
}

/// The label of each model of the turns, as ranking entries.
pub open spec fn model_label_entries(turns: Seq<TurnView>) -> Tally {
    tally_seq_all(Seq::empty(), turn_models(turns)).map_values(|e: (Seq<char>, u32)| (model_label(e), 0u32))
}

/// The note for a session that used several models: the labels in ascending
/// order, joined with commas.
pub open spec fn mixed_note_text(sorted: Tally) -> Seq<char> {
    "mixed session: "@ + join_with(sorted.map_values(|e: (Seq<char>, u32)| e.0), ", "@)
}

proof fn lemma_decimal_has_no_paren(n: nat)
    ensures
        forall|i: int| 0 <= i < decimal(n).len() ==> #[trigger] decimal(n)[i] != '(',
    decreases n,
{
    if n >= 10 {
        lemma_decimal_has_no_paren(n / 10);
        let d = decimal(n / 10);
        assert forall|i: int| 0 <= i < decimal(n).len() implies #[trigger] decimal(n)[i] != '(' by {
            if i < d.len() {
                assert(decimal(n)[i] == d[i]);
            }
        }
    }
}

/// Two labels are equal only for the same model name: the last `(` of a
/// label is the one before its count.
proof fn lemma_model_label_names(a: (Seq<char>, u32), b: (Seq<char>, u32))
    requires
        model_label(a) == model_label(b),
    ensures
        a.0 == b.0,
{
    let s = model_label(a);
    let da = decimal(a.1 as nat);
    let db = decimal(b.1 as nat);
    lemma_decimal_has_no_paren(a.1 as nat);
    lemma_decimal_has_no_paren(b.1 as nat);
    let la = a.0.len() as int;
    let lb = b.0.len() as int;
    assert(s.len() == la + 3 + da.len());
    assert(s.len() == lb + 3 + db.len());
    if la < lb {
        let q = lb + 1;
        assert(model_label(b)[q] == '(');
        assert(q >= la + 2 && q < la + 2 + da.len());
        assert(model_label(a)[q] == da[q - la - 2]);
        assert(false);
    } else if lb < la {
        let q = la + 1;
        assert(model_label(a)[q] == '(');
        assert(q >= lb + 2 && q < lb + 2 + db.len());
        assert(model_label(b)[q] == db[q - lb - 2]);
        assert(false);
    } else {
        assert(a.0 =~= s.subrange(0, la));
        assert(b.0 =~= model_label(b).subrange(0, lb));
    }
}

proof fn lemma_labels_unique(t: Tally)
    requires
        names_unique(t),
    ensures
        names_unique(t.map_values(|e: (Seq<char>, u32)| (model_label(e), 0u32))),
{
    let m = t.map_values(|e: (Seq<char>, u32)| (model_label(e), 0u32));
    assert forall|i: int, j: int| 0 <= i < m.len() && 0 <= j < m.len() && i != j implies #[trigger] m[i].0 != #[trigger] m[j].0 by {
        if m[i].0 == m[j].0 {
            lemma_model_label_names(t[i], t[j]);
        }
    }
}

fn model_label_string(name: &str, n: u32) -> (r: String)
    ensures
        r@ == model_label((name@, n)),
{
    let mut r = String::new();
    push_str(&mut r, name);
    push_char(&mut r, ' ');
    push_char(&mut r, '(');
    push_decimal(&mut r, n as u64);
    push_char(&mut r, ')');
    assert(r@ =~= model_label((name@, n)));
    r
}

/// The note printed under the header of a session with more than one model
/// (`models_seen` lists the distinct models): each model of the turns with
/// its number of turns, as `name (n)`, the labels sorted; `None` for a session
/// with one model or none.
pub fn mixed_session_note(models_seen: &Vec<String>, turns: &Vec<Turn>) -> (r: Option<String>)
    requires
        turns.len() < u32::MAX,
    ensures
        models_seen.len() <= 1 ==> r is None,
        models_seen.len() > 1 ==> (r matches Some(note) && exists|sorted: Tally|
            #[trigger] is_ranking(sorted, model_label_entries(turn_views(turns@)), false)
                && note@ == mixed_note_text(sorted)),
{
    if models_seen.len() <= 1 {
        return None;
    }
    let ghost models = turn_models(turn_views(turns@));
    let mut counts: Vec<(String, u32)> = Vec::new();
    assert(counts.deep_view() =~= Seq::<(Seq<char>, u32)>::empty());
    let mut i: usize = 0;
    while i < turns.len()
        invariant
            0 <= i <= turns.len(),
            turns.len() < u32::MAX,
            models == turn_models(turn_views(turns@)),
            names_unique(counts.deep_view()),
            tally_sum(counts.deep_view()) == i,
            counts.deep_view() == tally_seq_all(Seq::empty(), models.take(i as int)),
        decreases turns.len() - i,
    {
        proof {
            if tally_map(counts.deep_view()).contains_key(turns@[i as int].model@) {
                lemma_tally_count_le_sum(counts.deep_view(), turns@[i as int].model@);
            }
            assert(models.take(i + 1).drop_last() =~= models.take(i as int));
            assert(models.take(i + 1).last() == turns@[i as int].model@);
        }
        tally_add(&mut counts, turns[i].model.as_str());
        i = i + 1;
    }
    assert(models.take(turns.len() as int) =~= models);
    let ghost cv = counts.deep_view();
    let mut entries: Vec<(String, u32)> = Vec::new();
    let mut k: usize = 0;
    while k < counts.len()
        invariant
            0 <= k <= counts.len(),
            cv == counts.deep_view(),
            entries.deep_view() == cv.take(k as int).map_values(|e: (Seq<char>, u32)| (model_label(e), 0u32)),
        decreases counts.len() - k,
    {
        let label = model_label_string(counts[k].0.as_str(), counts[k].1);
        assert(cv[k as int] == (counts@[k as int].0@, counts@[k as int].1));
        let ghost before = entries.deep_view();
        entries.push((label, 0));
        assert(entries.deep_view() =~= before.push((model_label(cv[k as int]), 0u32)));
        assert(cv.take(k + 1).map_values(|e: (Seq<char>, u32)| (model_label(e), 0u32))
            =~= cv.take(k as int).map_values(|e: (Seq<char>, u32)| (model_label(e), 0u32)).push((model_label(cv[k as int]), 0u32)));
        k = k + 1;
    }
    assert(cv.take(counts.len() as int) =~= cv);
    proof {
        lemma_labels_unique(cv);
    }
    let sorted = rank(&entries, false);
    let ghost sv = sorted.deep_view();
    let mut parts: Vec<String> = Vec::new();
    let mut j: usize = 0;
    while j < sorted.len()
        invariant
            0 <= j <= sorted.len(),
            sv == sorted.deep_view(),
            texts(parts@) == sv.take(j as int).map_values(|e: (Seq<char>, u32)| e.0),
        decreases sorted.len() - j,
    {
        let name = sorted[j].0.clone();
        assert(sv[j as int].0 == sorted@[j as int].0@);
        let ghost before = parts@;
        parts.push(name);
        assert(texts(parts@) =~= texts(before).push(sv[j as int].0));
        assert(sv.take(j + 1).map_values(|e: (Seq<char>, u32)| e.0)
            =~= sv.take(j as int).map_values(|e: (Seq<char>, u32)| e.0).push(sv[j as int].0));
        j = j + 1;
    }
    assert(sv.take(sorted.len() as int) =~= sv);
    let mut note = String::new();
    push_str(&mut note, "mixed session: ");
    push_joined_parts(&mut note, &parts, ", ");
    assert(note@ =~= mixed_note_text(sv));
    assert(is_ranking(sv, model_label_entries(turn_views(turns@)), false));
    Some(note)
}

// ── The tools list ─────────────────────────────────────────────────────────

/// The names of a tally, in order.
pub open spec fn tally_names(t: Tally) -> Seq<Seq<char>> {
    t.map_values(|e: (Seq<char>, u32)| e.0)
}

/// A line of the tools list: two spaces, the name left-aligned in `width`
/// characters, two spaces, the count with thousands separators.
pub open spec fn tool_line(e: (Seq<char>, u32), width: nat) -> Seq<char> {
    spaces(2) + pad_end(e.0, width) + spaces(2) + commafy_text(e.1 as u64)
}

/// The lines of the tools list, every name padded to one more than the
/// longest name's length in bytes.
pub open spec fn tool_lines(t: Tally) -> Seq<Seq<char>> {
    t.map_values(|e: (Seq<char>, u32)| tool_line(e, widest(tally_names(t)) + 1))
}

proof fn lemma_widest_bound(ss: Seq<Seq<char>>, b: nat)
    requires
        forall|i: int| 0 <= i < ss.len() ==> byte_len(#[trigger] ss[i]) <= b,
    ensures
        widest(ss) <= b,
    decreases ss.len(),
{
    if ss.len() > 0 {
        let d = ss.drop_last();
        assert forall|i: int| 0 <= i < d.len() implies byte_len(#[trigger] d[i]) <= b by {
            assert(d[i] == ss[i]);
        }
        lemma_widest_bound(d, b);
        assert(byte_len(ss[ss.len() - 1]) <= b);
    }
}

/// The lines listing the most used tools with their counts.
pub fn top_tool_lines(top: &Vec<(String, u32)>) -> (r: Vec<String>)
    requires
        forall|i: int| 0 <= i < top.len() ==> byte_len(#[trigger] top@[i].0@) < usize::MAX,
    ensures
        texts(r@) == tool_lines(top.deep_view()),
{
    let ghost tv = top.deep_view();
    let ghost names = tally_names(tv);
    let mut w: usize = 0;
    let mut i: usize = 0;
    while i < top.len()
        invariant
            0 <= i <= top.len(),
            tv == top.deep_view(),
            names == tally_names(tv),
            w == widest(names.take(i as int)),
        decreases top.len() - i,
    {
        assert(names.take(i + 1).drop_last() =~= names.take(i as int));
        assert(names.take(i + 1).last() == top@[i as int].0@);
        let b = byte_length(&top[i].0);
        if b > w {
            w = b;
        }
        i = i + 1;
    }
    assert(names.take(top.len() as int) =~= names);
    proof {
        assert forall|k: int| 0 <= k < names.len() implies byte_len(#[trigger] names[k]) <= (usize::MAX - 1) as nat by {
            assert(names[k] == top@[k].0@);
        }
        lemma_widest_bound(names, (usize::MAX - 1) as nat);
    }
    let width = w + 1;
    let ghost want = tool_lines(tv);
    let mut lines: Vec<String> = Vec::new();
    let mut k: usize = 0;
    while k < top.len()
        invariant
            0 <= k <= top.len(),
            tv == top.deep_view(),
            width == widest(tally_names(tv)) + 1,
            want == tool_lines(tv),
            texts(lines@) == want.take(k as int),
        decreases top.len() - k,
    {
        let mut line = String::new();
        push_spaces(&mut line, 2);
        push_pad_end(&mut line, top[k].0.as_str(), width);
        push_spaces(&mut line, 2);
        let c = commafy(top[k].1 as u64);
        push_str(&mut line, c.as_str());
        assert(tv[k as int] == (top@[k as int].0@, top@[k as int].1));
        assert(line@ =~= want[k as int]);
        let ghost before = lines@;
        lines.push(line);
        assert(texts(lines@) =~= texts(before).push(want[k as int]));
        assert(want.take(k + 1) =~= want.take(k as int).push(want[k as int]));
        k = k + 1;
    }
    assert(want.take(top.len() as int) =~= want);
    lines
}

// ── Whole numbers for display ───────────────────────────────────────────────

/// `n` capped at `u64::MAX`.
pub open spec fn cap_u64(n: int) -> u64 {
    if n > u64::MAX { u64::MAX } else { n as u64 }
}

/// Whole seconds in a span of `ms` milliseconds, rounded down; 0 for a
/// negative span.
pub fn whole_seconds(ms: i128) -> (r: u64)
    ensures
        r == (if ms <= 0 { 0 } else { cap_u64(ms as int / 1000) }),
{
    if ms <= 0 {
        0
    } else {
        let q = ms / 1000;
        if q > u64::MAX as i128 { u64::MAX } else { q as u64 }
    }
}

/// Whole seconds in a span of `ms` milliseconds, rounded to the nearest
/// (halves up); 0 for a negative span.
pub fn rounded_seconds(ms: i128) -> (r: u64)
    ensures
        r == (if ms <= 0 { 0 } else { cap_u64((ms + 500) / 1000) }),
{
    if ms <= 0 {
        0
    } else {
        let q = ms / 1000 + (if ms % 1000 >= 500 { 1 } else { 0 });
        assert(q == (ms + 500) / 1000);
        if q > u64::MAX as i128 { u64::MAX } else { q as u64 }
    }
}

/// The average burn of the turns after the first, rounded toward zero; 0 when
/// it is negative or there are fewer than two turns.
pub fn average_burn(burn_sum: i128, total_turns: u32) -> (r: u64)
    ensures
        r == (if total_turns <= 1 || burn_sum <= 0 { 0 } else { cap_u64(burn_sum as int / (total_turns - 1) as int) }),
{
    if total_turns <= 1 || burn_sum <= 0 {
        0
    } else {
        let q = burn_sum / ((total_turns - 1) as i128);
        if q > u64::MAX as i128 { u64::MAX } else { q as u64 }
    }
}

// ── The single-session report ──────────────────────────────────────────────

/// The first line: the first eight characters of the session id and the model.
pub open spec fn report_header_line(s: SessionSummary) -> Seq<char> {
    let id = s.session_id@;
    "stormglass / Session: "@ + id.take(if 8 < id.len() { 8 } else { id.len() as int }) + " ("@ + s.model@ + ")"@
}

/// A count with separators, right-aligned in twelve columns.
pub open spec fn wide_count(n: u64) -> Seq<char> {
    pad_start(commafy_text(n), 12)
}

/// A counter of the agent-file split: the label left-aligned in twelve
/// columns, the count with separators right-aligned in thirteen.
pub open spec fn split_line(label: Seq<char>, n: u64) -> Seq<char> {
    "    "@ + pad_end(label, 12) + pad_start(commafy_text(n), 13)
}

/// The token split read from the agent transcripts.
pub open spec fn agent_file_lines(s: SessionSummary) -> Seq<Seq<char>> {
    seq![
        "  Subagent (agent files):"@,
        split_line("input:"@, s.subagent_input_tokens),
        split_line("output:"@, s.subagent_output_tokens),
        split_line("cache read:"@, s.subagent_cache_read_tokens),
        split_line("cache write:"@, s.subagent_cache_write_tokens),
        "    ("@ + decimal(s.subagent_agent_file_count as nat) + " agent transcripts)"@,
    ]
}

/// Duration, prompts and the token counters.
pub open spec fn tokens_section(s: SessionSummary) -> Seq<Seq<char>> {
    let duration_line = "Duration: "@ + duration_text(if s.duration_ms <= 0 { 0 } else { cap_u64(s.duration_ms as int / 1000) })
        + "  |  "@ + decimal(s.total_turns as nat) + " turns  |  "@ + decimal(s.user_turns as nat) + " user prompts"@;
    let input_line = "  Input:    "@ + wide_count(s.total_input_tokens) + "  (cache read: "@ + commafy_text(s.total_cache_read)
        + " / cache write: "@ + commafy_text(s.total_cache_write) + ")"@;
    let output_line = "  Output:   "@ + wide_count(s.total_output_tokens);
    seq![Seq::empty(), duration_line, Seq::empty(), "Tokens"@, input_line, output_line]
}

/// The subagent lines: the queue-operation lump when there is one, then the
/// agent-file split when agent files were found.
pub open spec fn subagent_section(s: SessionSummary) -> Seq<Seq<char>> {
    let subagent_line = "  Subagent: "@ + wide_count(s.total_subagent_tokens) + "  ("@ + decimal(s.subagent_count as nat) + " tasks)"@;
    (if s.subagent_count > 0 { seq![subagent_line] } else { Seq::empty() })
        + (if s.subagent_agent_file_count > 0 { agent_file_lines(s) } else { Seq::empty() })
}

/// Average and peak burn, and the final context size.
pub open spec fn burn_section(s: SessionSummary, turns: Seq<TurnView>) -> Seq<Seq<char>> {
    let avg = if s.total_turns <= 1 || s.burn_sum_excl_first <= 0 { 0 } else {
        cap_u64(s.burn_sum_excl_first as int / (s.total_turns - 1) as int)
    };
    let avg_line = "  Avg per turn:   "@ + commafy_text(avg) + " input tokens"@;
    let peak_line = "  Peak:           turn "@ + decimal(s.peak_burn_turn as nat) + " \u{2014} "@
        + group_thousands(decimal(if s.peak_burn_value > 0 { s.peak_burn_value as nat } else { 0 })) + " tokens"@
        + peak_tools_spec(turns, s.peak_burn_turn);
    let final_line = "  Final context:  "@ + commafy_text(s.final_context_size) + " tokens"@;
    seq![Seq::empty(), "Burn"@, avg_line, peak_line, final_line]
}

/// The thinking share, then the most used tools when any tool was called.
pub open spec fn thinking_tools_section(s: SessionSummary, thinking_percent: Seq<char>) -> Seq<Seq<char>> {
    let thinking_line = "  Turns with thinking: "@ + decimal(s.turns_with_thinking as nat) + "/"@ + decimal(s.total_turns as nat)
        + "  ("@ + thinking_percent + "%)"@;
    seq![Seq::empty(), "Thinking"@, thinking_line]
        + (if s.top_tools@.len() > 0 {
            seq![Seq::empty(), "Tools (top 5)"@] + tool_lines(s.top_tools.deep_view())
        } else {
            Seq::empty()
        })
}

/// The lines after the header and the mixed-session note. `thinking_percent`
/// is the share of turns with thinking, already formatted.
pub open spec fn report_body_lines(s: SessionSummary, turns: Seq<TurnView>, thinking_percent: Seq<char>) -> Seq<Seq<char>> {
    tokens_section(s) + subagent_section(s) + burn_section(s, turns) + thinking_tools_section(s, thinking_percent)
}

/// Appends `line` to `lines`.
fn push_line(lines: &mut Vec<String>, line: String)
    ensures
        texts(final(lines)@) == texts(old(lines)@).push(line@),
{
    let ghost t = line@;
    lines.push(line);
    assert(texts(final(lines)@) =~= texts(old(lines)@).push(t));
}

fn push_lines(lines: &mut Vec<String>, more: Vec<String>)
    ensures
        texts(final(lines)@) == texts(old(lines)@) + texts(more@),
{
    let ghost start = texts(lines@);
    let mut i: usize = 0;
    while i < more.len()
        invariant
            0 <= i <= more.len(),
            texts(lines@) == start + texts(more@).take(i as int),
        decreases more.len() - i,
    {
        let l = more[i].clone();
        push_line(lines, l);
        assert(texts(more@).take(i + 1) =~= texts(more@).take(i as int).push(more@[i as int]@));
        i = i + 1;
    }
    assert(texts(more@).take(more.len() as int) =~= texts(more@));
}

fn split_line_string(label: &str, n: u64) -> (r: String)
    ensures
        r@ == split_line(label@, n),
{
    let mut l = String::new();
    push_str(&mut l, "    ");
    push_pad_end(&mut l, label, 12);
    let c = commafy(n);
    push_pad_start(&mut l, c.as_str(), 13);
    assert(l@ =~= split_line(label@, n));
    l
}

fn tokens_lines(s: &SessionSummary) -> (r: Vec<String>)
    ensures
        texts(r@) == tokens_section(*s),
{
    let mut lines: Vec<String> = Vec::new();
    push_line(&mut lines, String::new());
    let mut l = String::new();
    push_str(&mut l, "Duration: ");
    let d = format_duration(whole_seconds(s.duration_ms));
    push_str(&mut l, d.as_str());
    push_str(&mut l, "  |  ");
    push_decimal(&mut l, s.total_turns as u64);
    push_str(&mut l, " turns  |  ");
    push_decimal(&mut l, s.user_turns as u64);
    push_str(&mut l, " user prompts");
    push_line(&mut lines, l);
    push_line(&mut lines, String::new());
    push_line(&mut lines, "Tokens".to_owned());
    let mut l = String::new();
    push_str(&mut l, "  Input:    ");
    let c = commafy(s.total_input_tokens);
    push_pad_start(&mut l, c.as_str(), 12);
    push_str(&mut l, "  (cache read: ");
    let c = commafy(s.total_cache_read);
    push_str(&mut l, c.as_str());
    push_str(&mut l, " / cache write: ");
    let c = commafy(s.total_cache_write);
    push_str(&mut l, c.as_str());
    push_str(&mut l, ")");
    push_line(&mut lines, l);
    let mut l = String::new();
    push_str(&mut l, "  Output:   ");
    let c = commafy(s.total_output_tokens);
    push_pad_start(&mut l, c.as_str(), 12);
    push_line(&mut lines, l);
    assert(texts(lines@) =~= tokens_section(*s));
    lines
}

fn subagent_lines(s: &SessionSummary) -> (r: Vec<String>)
    ensures
        texts(r@) == subagent_section(*s),
{
    let mut lines: Vec<String> = Vec::new();
    if s.subagent_count > 0 {
        let mut l = String::new();
        push_str(&mut l, "  Subagent: ");
        let c = commafy(s.total_subagent_tokens);
        push_pad_start(&mut l, c.as_str(), 12);
        push_str(&mut l, "  (");
        push_decimal(&mut l, s.subagent_count as u64);
        push_str(&mut l, " tasks)");
        push_line(&mut lines, l);
    }
    let ghost first = texts(lines@);
    if s.subagent_agent_file_count > 0 {
        push_line(&mut lines, "  Subagent (agent files):".to_owned());
        push_line(&mut lines, split_line_string("input:", s.subagent_input_tokens));
        push_line(&mut lines, split_line_string("output:", s.subagent_output_tokens));
        push_line(&mut lines, split_line_string("cache read:", s.subagent_cache_read_tokens));
        push_line(&mut lines, split_line_string("cache write:", s.subagent_cache_write_tokens));
        let mut l = String::new();
        push_str(&mut l, "    (");
        push_decimal(&mut l, s.subagent_agent_file_count as u64);
        push_str(&mut l, " agent transcripts)");
        push_line(&mut lines, l);
        assert(texts(lines@) =~= first + agent_file_lines(*s));
    }
    assert(texts(lines@) =~= subagent_section(*s));
    lines
}

fn burn_lines(s: &SessionSummary, turns: &Vec<Turn>) -> (r: Vec<String>)
    requires
        forall|k: int| 0 <= k < turns.len() ==> #[trigger] turns@[k].tools_called.len() < u32::MAX,
    ensures
        texts(r@) == burn_section(*s, turn_views(turns@)),
{
    let mut lines: Vec<String> = Vec::new();
    push_line(&mut lines, String::new());
    push_line(&mut lines, "Burn".to_owned());
    let mut l = String::new();
    push_str(&mut l, "  Avg per turn:   ");
    let c = commafy(average_burn(s.burn_sum_excl_first, s.total_turns));
    push_str(&mut l, c.as_str());
    push_str(&mut l, " input tokens");
    push_line(&mut lines, l);
    let mut l = String::new();
    push_str(&mut l, "  Peak:           turn ");
    push_decimal(&mut l, s.peak_burn_turn as u64);
    push_str(&mut l, " \u{2014} ");
    let c = commafy(if s.peak_burn_value > 0 { s.peak_burn_value as u64 } else { 0 });
    push_str(&mut l, c.as_str());
    push_str(&mut l, " tokens");
    let pt = peak_tools_text(turns, s.peak_burn_turn);
    push_str(&mut l, pt.as_str());
    push_line(&mut lines, l);
    let mut l = String::new();
    push_str(&mut l, "  Final context:  ");
    let c = commafy(s.final_context_size);
    push_str(&mut l, c.as_str());
    push_str(&mut l, " tokens");
    push_line(&mut lines, l);
    assert(texts(lines@) =~= burn_section(*s, turn_views(turns@)));
    lines
}

fn thinking_tools_lines(s: &SessionSummary, thinking_percent: &str) -> (r: Vec<String>)
    requires
        forall|i: int| 0 <= i < s.top_tools.len() ==> byte_len(#[trigger] s.top_tools@[i].0@) < usize::MAX,
    ensures
        texts(r@) == thinking_tools_section(*s, thinking_percent@),
{
    let mut lines: Vec<String> = Vec::new();
    push_line(&mut lines, String::new());
    push_line(&mut lines, "Thinking".to_owned());
    let mut l = String::new();
    push_str(&mut l, "  Turns with thinking: ");
    push_decimal(&mut l, s.turns_with_thinking as u64);
    push_str(&mut l, "/");
    push_decimal(&mut l, s.total_turns as u64);
    push_str(&mut l, "  (");
    push_str(&mut l, thinking_percent);
    push_str(&mut l, "%)");
    push_line(&mut lines, l);
    let ghost first = texts(lines@);
    if s.top_tools.len() > 0 {
        push_line(&mut lines, String::new());
        push_line(&mut lines, "Tools (top 5)".to_owned());
        let tl = top_tool_lines(&s.top_tools);
        push_lines(&mut lines, tl);
    }
    assert(texts(lines@) =~= thinking_tools_section(*s, thinking_percent@));
    lines
}

fn report_body(s: &SessionSummary, turns: &Vec<Turn>, thinking_percent: &str) -> (r: Vec<String>)
    requires
        forall|k: int| 0 <= k < turns.len() ==> #[trigger] turns@[k].tools_called.len() < u32::MAX,
        forall|i: int| 0 <= i < s.top_tools.len() ==> byte_len(#[trigger] s.top_tools@[i].0@) < usize::MAX,
    ensures
        texts(r@) == report_body_lines(*s, turn_views(turns@), thinking_percent@),
{
    let mut lines = tokens_lines(s);
    push_lines(&mut lines, subagent_lines(s));
    push_lines(&mut lines, burn_lines(s, turns));
    push_lines(&mut lines, thinking_tools_lines(s, thinking_percent));
    lines
}

/// The single-session report, line by line: the header, the mixed-session
/// note when the session used several models, then duration, tokens, burn,
/// thinking and the most used tools. `thinking_percent` is the share of turns
/// with thinking, already formatted.
pub fn human_report(s: &SessionSummary, turns: &Vec<Turn>, thinking_percent: &str) -> (r: Vec<String>)
    requires
        turns.len() < u32::MAX,
        forall|k: int| 0 <= k < turns.len() ==> #[trigger] turns@[k].tools_called.len() < u32::MAX,
        forall|i: int| 0 <= i < s.top_tools.len() ==> byte_len(#[trigger] s.top_tools@[i].0@) < usize::MAX,
    ensures
        r@.len() >= 1,
        texts(r@)[0] == report_header_line(*s),
        s.models_seen.len() <= 1 ==> texts(r@).skip(1) == report_body_lines(*s, turn_views(turns@), thinking_percent@),
        s.models_seen.len() > 1 ==> exists|sorted: Tally|
            #[trigger] is_ranking(sorted, model_label_entries(turn_views(turns@)), false)
                && texts(r@).skip(1) == seq![mixed_note_text(sorted)] + report_body_lines(*s, turn_views(turns@), thinking_percent@),
{
    let mut lines: Vec<String> = Vec::new();
    let mut h = String::new();
    push_str(&mut h, "stormglass / Session: ");
    let id = char_prefix(s.session_id.as_str(), 8);
    push_str(&mut h, id.as_str());
    push_str(&mut h, " (");
    push_str(&mut h, s.model.as_str());
    push_str(&mut h, ")");
    assert(h@ =~= report_header_line(*s));
    push_line(&mut lines, h);
    let note = mixed_session_note(&s.models_seen, turns);
    let ghost after_note = texts(lines@);
    match note {
        Some(n) => {
            push_line(&mut lines, n);
        },
        None => {},
    }
    let ghost mid = texts(lines@);
    let body = report_body(s, turns, thinking_percent);
    push_lines(&mut lines, body);
    proof {
        let b = report_body_lines(*s, turn_views(turns@), thinking_percent@);
        if s.models_seen.len() <= 1 {
            assert(texts(lines@).skip(1) =~= b);
        } else {
            assert(texts(lines@).skip(1) =~= seq![mid[1]] + b);
        }
    }
    lines
}

} // verus!
