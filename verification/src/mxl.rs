//! Spreadsheet templates: the validation report, the small text helpers of the
//! template reports, the format registry of the compiler and the XML it emits.
use vstd::prelude::*;
use crate::numbers::{int_text, nat_text, opt_i64, parse_int, parse_i64, i64_text, usize_text};
use crate::skd_fragments::push_line;
use crate::skd_report::tagged;
use crate::skd_values::{all_digits, all_digits_exec};
use crate::text::{
    chars_of, escape_xml, escape_xml_exec, find_str, first_match, join, join_str, lemma_first_match_bounds,
    push_chars, push_str, slice_to_vec, split, split_once, split_once_str, split_str, trim, trim_chars,
    views, eq_chars,
};

verus! {

/// The findings of a template check, collected as report lines; it stops
/// once `max_errors` errors were found.
pub struct MxlValidationReporter {
    pub errors: usize,
    pub warnings: usize,
    pub ok_count: usize,
    pub stopped: bool,
    pub max_errors: usize,
    pub detailed: bool,
    pub lines: Vec<Vec<char>>,
}

impl MxlValidationReporter {
    pub fn new(max_errors: usize, detailed: bool) -> (r: Self)
        ensures
            r.errors == 0,
            r.warnings == 0,
            r.ok_count == 0,
            !r.stopped,
            r.max_errors == max_errors,
            r.detailed == detailed,
            r.lines@.len() == 0,
    {
        MxlValidationReporter {
            errors: 0,
            warnings: 0,
            ok_count: 0,
            stopped: false,
            max_errors,
            detailed,
            lines: Vec::new(),
        }
    }

    /// Counts a passed check; its line is kept only in a detailed report.
    pub fn ok(&mut self, message: &[char])
        requires
            old(self).ok_count < usize::MAX,
        ensures
            final(self).ok_count == old(self).ok_count + 1,
            final(self).errors == old(self).errors,
            final(self).warnings == old(self).warnings,
            final(self).stopped == old(self).stopped,
            final(self).max_errors == old(self).max_errors,
            final(self).detailed == old(self).detailed,
            views(final(self).lines@) == (if old(self).detailed {
                views(old(self).lines@).push("[OK]    "@ + message@)
            } else {
                views(old(self).lines@)
            }),
    {
        self.ok_count = self.ok_count + 1;
        if self.detailed {
            push_line(&mut self.lines, tagged("[OK]    ", message));
        }
    }

    /// Counts an error and records its line; reaching `max_errors` stops the
    /// check.
    pub fn error(&mut self, message: &[char])
        requires
            old(self).errors < usize::MAX,
        ensures
            final(self).errors == old(self).errors + 1,
            final(self).warnings == old(self).warnings,
            final(self).ok_count == old(self).ok_count,
            final(self).stopped == (old(self).stopped || final(self).errors >= old(self).max_errors),
            final(self).max_errors == old(self).max_errors,
            final(self).detailed == old(self).detailed,
            views(final(self).lines@) == views(old(self).lines@).push("[ERROR] "@ + message@),
    {
        self.errors = self.errors + 1;
        push_line(&mut self.lines, tagged("[ERROR] ", message));
        if self.errors >= self.max_errors {
            self.stopped = true;
        }
    }

    /// Counts a warning and records its line.
    pub fn warn(&mut self, message: &[char])
        requires
            old(self).warnings < usize::MAX,
        ensures
            final(self).warnings == old(self).warnings + 1,
            final(self).errors == old(self).errors,
            final(self).ok_count == old(self).ok_count,
            final(self).stopped == old(self).stopped,
            final(self).max_errors == old(self).max_errors,
            final(self).detailed == old(self).detailed,
            views(final(self).lines@) == views(old(self).lines@).push("[WARN]  "@ + message@),
    {
        self.warnings = self.warnings + 1;
        push_line(&mut self.lines, tagged("[WARN]  ", message));
    }
}

/// The text itself, or `None` when it is empty.
pub fn non_empty_string(value: Vec<char>) -> (r: Option<Vec<char>>)
    ensures
        r matches Some(v) ==> v@ == value@ && value@.len() > 0,
        r is None <==> value@.len() == 0,
{
    if value.len() == 0 {
        None
    } else {
        Some(value)
    }
}

/// The first `max_chars` chars of a text (all of it when shorter).
pub fn mxl_prefix(value: &[char], max_chars: usize) -> (r: Vec<char>)
    ensures
        r@ == value@.take(if max_chars < value@.len() { max_chars as int } else { value@.len() as int }),
{
    let n = if max_chars < value.len() { max_chars } else { value.len() };
    let r = slice_to_vec(value, 0, n);
    assert(r@ =~= value@.take(n as int));
    r
}

/// The `[...]` placeholders of a template text, in order: each `[` is closed by
/// the next `]`; empty ones and those of digits only are skipped.
pub open spec fn template_placeholders(t: Seq<char>) -> Seq<Seq<char>>
    decreases t.len(),
{
    match first_match(t, "["@, 0, t.len() as int) {
        None => Seq::empty(),
        Some(s) => {
            let after = t.subrange(s + 1, t.len() as int);
            match first_match(after, "]"@, 0, after.len() as int) {
                None => Seq::empty(),
                Some(e) => {
                    proof {
                        reveal_strlit("[");
                        reveal_strlit("]");
                        lemma_first_match_bounds(t, "["@, 0, t.len() as int);
                        lemma_first_match_bounds(after, "]"@, 0, after.len() as int);
                    }
                    let v = after.subrange(0, e);
                    (if v.len() > 0 && !all_digits(v) {
                        seq![v]
                    } else {
                        Seq::empty()
                    }) + template_placeholders(after.subrange(e + 1, after.len() as int))
                },
            }
        },
    }
}

pub fn mxl_template_placeholders(text: &[char]) -> (r: Vec<Vec<char>>)
    ensures
        views(r@) == template_placeholders(text@),
{
    let mut result: Vec<Vec<char>> = Vec::new();
    let mut rest: Vec<char> = crate::text::to_vec(text);
    proof {
        reveal_strlit("[");
        reveal_strlit("]");
    }
    loop
        invariant
            views(result@) + template_placeholders(rest@) == template_placeholders(text@),
        decreases rest@.len(),
    {
        let start = match find_str(&rest, "[", 0, rest.len()) {
            Some(s) => s,
            None => {
                assert(views(result@) =~= views(result@) + Seq::<Seq<char>>::empty());
                return result;
            },
        };
        proof {
            reveal_strlit("[");
            reveal_strlit("]");
            lemma_first_match_bounds(rest@, "["@, 0, rest@.len() as int);
        }
        let after = slice_to_vec(&rest, start + 1, rest.len());
        let end = match find_str(&after, "]", 0, after.len()) {
            Some(e) => e,
            None => {
                assert(views(result@) =~= views(result@) + Seq::<Seq<char>>::empty());
                return result;
            },
        };
        proof {
            lemma_first_match_bounds(after@, "]"@, 0, after@.len() as int);
        }
        let value = slice_to_vec(&after, 0, end);
        let ghost old_result = views(result@);
        if value.len() > 0 && !all_digits_exec(&value) {
            push_line(&mut result, value);
        }
        let next = slice_to_vec(&after, end + 1, after.len());
        proof {
            assert(views(result@) + template_placeholders(next@) =~= old_result + template_placeholders(rest@));
        }
        rest = next;
    }
}

/// The items joined with `, `; past `max_count` the rest is only counted.
pub open spec fn truncated_list(items: Seq<Seq<char>>, max_count: nat) -> Seq<char> {
    if items.len() <= max_count {
        join(items, ", "@)
    } else {
        join(items.take(max_count as int), ", "@) + ", ... (+"@ + nat_text((items.len() - max_count) as nat) + ")"@
    }
}

pub fn truncate_mxl_list(items: &[Vec<char>], max_count: usize) -> (r: Vec<char>)
    ensures
        r@ == truncated_list(views(items@), max_count as nat),
{
    if items.len() <= max_count {
        return join_str(items, ", ");
    }
    let shown = slice_of_texts(items, max_count);
    let mut r = join_str(&shown, ", ");
    push_str(&mut r, ", ... (+");
    push_chars(&mut r, &usize_text(items.len() - max_count));
    push_str(&mut r, ")");
    assert(views(shown@) =~= views(items@).take(max_count as int));
    r
}

/// Copies of the first `n` texts.
fn slice_of_texts(items: &[Vec<char>], n: usize) -> (r: Vec<Vec<char>>)
    requires
        n <= items@.len(),
    ensures
        views(r@) == views(items@).take(n as int),
{
    let mut r: Vec<Vec<char>> = Vec::new();
    let mut i: usize = 0;
    while i < n
        invariant
            i <= n <= items@.len(),
            views(r@) == views(items@).take(i as int),
        decreases n - i,
    {
        push_line(&mut r, items[i].clone());
        assert(views(items@).take(i + 1) =~= views(items@).take(i as int).push(items@[i as int]@));
        i = i + 1;
    }
    r
}

/// The properties of one cell format of a compiled template.
pub struct MxlFormatProps {
    pub font_idx: Option<i64>,
    pub lb: Option<i64>,
    pub tb: Option<i64>,
    pub rb: Option<i64>,
    pub bb: Option<i64>,
    pub ha: Vec<char>,
    pub va: Vec<char>,
    pub wrap: bool,
    pub fill_type: Vec<char>,
    pub number_format: Vec<char>,
    pub width: Option<i64>,
    pub height: Option<i64>,
}

/// The value of a cell format.
pub struct FormatView {
    pub font_idx: Option<i64>,
    pub lb: Option<i64>,
    pub tb: Option<i64>,
    pub rb: Option<i64>,
    pub bb: Option<i64>,
    pub ha: Seq<char>,
    pub va: Seq<char>,
    pub wrap: bool,
    pub fill_type: Seq<char>,
    pub number_format: Seq<char>,
    pub width: Option<i64>,
    pub height: Option<i64>,
}

impl View for MxlFormatProps {
    type V = FormatView;

    open spec fn view(&self) -> FormatView {
        FormatView {
            font_idx: self.font_idx,
            lb: self.lb,
            tb: self.tb,
            rb: self.rb,
            bb: self.bb,
            ha: self.ha@,
            va: self.va@,
            wrap: self.wrap,
            fill_type: self.fill_type@,
            number_format: self.number_format@,
            width: self.width,
            height: self.height,
        }
    }
}

/// The formats of a compiled template in the order they were first seen; a
/// format's index is its position plus one.
pub struct MxlFormatRegistry {
    pub entries: Vec<(Vec<char>, MxlFormatProps)>,
}

/// The keys of the registered formats, in order.
pub open spec fn registry_keys(entries: Seq<(Vec<char>, MxlFormatProps)>) -> Seq<Seq<char>> {
    entries.map_values(|e: (Vec<char>, MxlFormatProps)| e.0@)
}

/// The first position from `from` on that holds `key`.
pub open spec fn key_position(keys: Seq<Seq<char>>, key: Seq<char>, from: int) -> Option<int>
    decreases keys.len() - from,
{
    if from < 0 || from >= keys.len() {
        None
    } else if keys[from] == key {
        Some(from)
    } else {
        key_position(keys, key, from + 1)
    }
}

/// The index (position plus one) of a key, if it is registered.
pub open spec fn format_index(keys: Seq<Seq<char>>, key: Seq<char>) -> Option<int> {
    match key_position(keys, key, 0) {
        Some(i) => Some(i + 1),
        None => None,
    }
}

/// The keys after registering `key`: unchanged when it is there, else with it
/// appended.
pub open spec fn registered(keys: Seq<Seq<char>>, key: Seq<char>) -> Seq<Seq<char>> {
    if key_position(keys, key, 0) is Some {
        keys
    } else {
        keys.push(key)
    }
}

/// The index that registering `key` returns.
pub open spec fn register_index(keys: Seq<Seq<char>>, key: Seq<char>) -> int {
    match key_position(keys, key, 0) {
        Some(i) => i + 1,
        None => keys.len() as int + 1,
    }
}

proof fn lemma_key_position_push(keys: Seq<Seq<char>>, k: Seq<char>, x: Seq<char>, from: int)
    requires
        0 <= from <= keys.len(),
    ensures
        key_position(keys.push(k), x, from) == (match key_position(keys, x, from) {
            Some(i) => Some(i),
            None => if x == k { Some(keys.len() as int) } else { None },
        }),
    decreases keys.len() - from,
{
    if from < keys.len() {
        assert(keys.push(k)[from] == keys[from]);
        if keys[from] != x {
            lemma_key_position_push(keys, k, x, from + 1);
        }
    } else {
        assert(keys.push(k)[from] == k);
        assert(key_position(keys.push(k), x, from + 1) is None);
    }
}

/// Registering a key makes it found at the index `register` gave, keeps every
/// key that was there at its index, and registering it once more changes
/// nothing.
pub proof fn law_register_then_lookup(keys: Seq<Seq<char>>, key: Seq<char>, other: Seq<char>)
    ensures
        format_index(registered(keys, key), key) == Some(register_index(keys, key)),
        format_index(keys, other) is Some ==> format_index(registered(keys, key), other) == format_index(keys, other),
        registered(registered(keys, key), key) == registered(keys, key),
        register_index(registered(keys, key), key) == register_index(keys, key),
{
    if key_position(keys, key, 0) is None {
        lemma_key_position_push(keys, key, key, 0);
        lemma_key_position_push(keys, key, other, 0);
    }
}

impl MxlFormatRegistry {
    pub fn new() -> (r: Self)
        ensures
            r.entries@.len() == 0,
    {
        MxlFormatRegistry { entries: Vec::new() }
    }

    /// Registers a format under its key and returns its index; a key that is
    /// already there keeps its index and its first properties.
    pub fn register(&mut self, key: Vec<char>, props: MxlFormatProps) -> (r: usize)
        ensures
            registry_keys(final(self).entries@) == registered(registry_keys(old(self).entries@), key@),
            r == register_index(registry_keys(old(self).entries@), key@),
            key_position(registry_keys(old(self).entries@), key@, 0) is Some ==> final(self).entries@ == old(self).entries@,
            key_position(registry_keys(old(self).entries@), key@, 0) is None ==> final(self).entries@ == old(self).entries@.push((key, props)),
    {
        let ghost keys = registry_keys(self.entries@);
        match self.position_of(&key) {
            Some(i) => i + 1,
            None => {
                let ghost k = key@;
                self.entries.push((key, props));
                assert(registry_keys(self.entries@) =~= keys.push(k));
                self.entries.len()
            },
        }
    }

    /// The index of the format registered under `key`.
    pub fn index_of(&self, key: &[char]) -> (r: Option<usize>)
        ensures
            crate::text::opt_int(r) == format_index(registry_keys(self.entries@), key@),
    {
        match self.position_of(key) {
            Some(i) => Some(i + 1),
            None => None,
        }
    }

    fn position_of(&self, key: &[char]) -> (r: Option<usize>)
        ensures
            crate::text::opt_int(r) == key_position(registry_keys(self.entries@), key@, 0),
            r matches Some(i) ==> i < self.entries.len(),
    {
        let ghost keys = registry_keys(self.entries@);
        let mut i: usize = 0;
        while i < self.entries.len()
            invariant
                i <= self.entries@.len(),
                keys == registry_keys(self.entries@),
                key_position(keys, key@, 0) == key_position(keys, key@, i as int),
            decreases self.entries.len() - i,
        {
            if eq_chars(&self.entries[i].0, key) {
                return Some(i);
            }
            i = i + 1;
        }
        None
    }
}

/// `Some(v)` gives `v`, `None` gives `-1`.
pub open spec fn or_minus_one(o: Option<i64>) -> int {
    match o {
        Some(v) => v as int,
        None => -1,
    }
}

fn or_minus_one_exec(o: Option<i64>) -> (r: i64)
    ensures
        r as int == or_minus_one(o),
{
    match o {
        Some(v) => v,
        None => -1,
    }
}

/// The key under which equal formats are registered once.
pub open spec fn format_key(p: FormatView) -> Seq<char> {
    "f="@ + int_text(or_minus_one(p.font_idx)) + "|lb="@ + int_text(or_minus_one(p.lb)) + "|tb="@
        + int_text(or_minus_one(p.tb)) + "|rb="@ + int_text(or_minus_one(p.rb)) + "|bb="@
        + int_text(or_minus_one(p.bb)) + "|ha="@ + p.ha + "|va="@ + p.va + "|wr="@
        + (if p.wrap { "True"@ } else { "False"@ }) + "|ft="@ + p.fill_type + "|nf="@ + p.number_format
        + "|w="@ + int_text(or_minus_one(p.width)) + "|h="@ + int_text(or_minus_one(p.height))
}

pub fn mxl_format_key(props: &MxlFormatProps) -> (r: Vec<char>)
    ensures
        r@ == format_key(props@),
{
    let mut r = chars_of("f=");
    push_chars(&mut r, &i64_text(or_minus_one_exec(props.font_idx)));
    push_str(&mut r, "|lb=");
    push_chars(&mut r, &i64_text(or_minus_one_exec(props.lb)));
    push_str(&mut r, "|tb=");
    push_chars(&mut r, &i64_text(or_minus_one_exec(props.tb)));
    push_str(&mut r, "|rb=");
    push_chars(&mut r, &i64_text(or_minus_one_exec(props.rb)));
    push_str(&mut r, "|bb=");
    push_chars(&mut r, &i64_text(or_minus_one_exec(props.bb)));
    push_str(&mut r, "|ha=");
    push_chars(&mut r, &props.ha);
    push_str(&mut r, "|va=");
    push_chars(&mut r, &props.va);
    push_str(&mut r, "|wr=");
    push_str(&mut r, if props.wrap { "True" } else { "False" });
    push_str(&mut r, "|ft=");
    push_chars(&mut r, &props.fill_type);
    push_str(&mut r, "|nf=");
    push_chars(&mut r, &props.number_format);
    push_str(&mut r, "|w=");
    push_chars(&mut r, &i64_text(or_minus_one_exec(props.width)));
    push_str(&mut r, "|h=");
    push_chars(&mut r, &i64_text(or_minus_one_exec(props.height)));
    r
}

/// The integers `a..=b`, in order.
pub open spec fn int_range(a: int, b: int) -> Seq<int> {
    Seq::new(if a <= b { (b - a + 1) as nat } else { 0 }, |k: int| a + k)
}

/// One trimmed part of a column list: `N`, or `A-B` for `A..=B`.
pub open spec fn column_part(part: Seq<char>) -> Option<Seq<int>> {
    match split_once(part, "-"@) {
        Some((a, b)) => match (parse_int(a), parse_int(b)) {
            (Some(x), Some(y)) => Some(int_range(x, y)),
            _ => None,
        },
        None => match parse_int(part) {
            Some(x) => Some(seq![x]),
            None => None,
        },
    }
}

/// The columns of the parts, in order; `None` when any part is malformed.
pub open spec fn column_parts(parts: Seq<Seq<char>>) -> Option<Seq<int>>
    decreases parts.len(),
{
    if parts.len() == 0 {
        Some(Seq::empty())
    } else {
        match (column_parts(parts.drop_last()), column_part(trim(parts.last()))) {
            (Some(a), Some(b)) => Some(a + b),
            _ => None,
        }
    }
}

/// The columns of a comma-separated column list such as `1,3-5`.
pub open spec fn column_spec(spec: Seq<char>) -> Option<Seq<int>> {
    column_parts(split(spec, ","@))
}

pub open spec fn ints(s: Seq<i64>) -> Seq<int> {
    s.map_values(|x: i64| x as int)
}

proof fn lemma_column_parts_none(parts: Seq<Seq<char>>, k: int)
    requires
        0 <= k <= parts.len(),
        column_parts(parts.take(k)) is None,
    ensures
        column_parts(parts) is None,
    decreases parts.len(),
{
    if k < parts.len() {
        assert(parts.drop_last().take(k) =~= parts.take(k));
        lemma_column_parts_none(parts.drop_last(), k);
    } else {
        assert(parts.take(k) =~= parts);
    }
}

/// Appends `from..=to`.
fn push_range(columns: &mut Vec<i64>, from: i64, to: i64)
    ensures
        ints(final(columns)@) == ints(old(columns)@) + int_range(from as int, to as int),
{
    if from > to {
        assert(ints(columns@) =~= ints(columns@) + int_range(from as int, to as int));
        return;
    }
    let ghost start = ints(columns@);
    let mut column = from;
    loop
        invariant
            from <= column <= to,
            start == ints(old(columns)@),
            ints(columns@) == start + int_range(from as int, column as int - 1),
        decreases to - column,
    {
        let ghost before = columns@;
        columns.push(column);
        assert(ints(columns@) =~= ints(before).push(column as int));
        assert(int_range(from as int, column as int) =~= int_range(from as int, column as int - 1).push(column as int));
        assert(ints(columns@) =~= start + int_range(from as int, column as int));
        if column == to {
            return;
        }
        column = column + 1;
    }
}

pub fn parse_mxl_column_spec(spec: &[char]) -> (r: Result<Vec<i64>, Vec<char>>)
    ensures
        r matches Ok(v) ==> column_spec(spec@) == Some(ints(v@)),
        r matches Err(e) ==> column_spec(spec@) is None && e@ == "invalid column spec: "@ + spec@,
        r is Ok <==> column_spec(spec@) is Some,
{
    proof {
        reveal_strlit(",");
    }
    let parts = split_str(spec, ",");
    let mut columns: Vec<i64> = Vec::new();
    let mut i: usize = 0;
    while i < parts.len()
        invariant
            i <= parts@.len(),
            views(parts@) == split(spec@, ","@),
            column_parts(views(parts@).take(i as int)) == Some(ints(columns@)),
        decreases parts.len() - i,
    {
        let part = trim_chars(&parts[i]);
        let ghost pv = views(parts@);
        proof {
            assert(pv.take(i + 1).drop_last() =~= pv.take(i as int));
            assert(pv.take(i + 1).last() == parts@[i as int]@);
        }
        match split_once_str(&part, "-") {
            Some((a, b)) => {
                let from = parse_i64(&a);
                let to = parse_i64(&b);
                match (from, to) {
                    (Some(f), Some(t)) => {
                        push_range(&mut columns, f, t);
                    },
                    _ => {
                        proof {
                            lemma_column_parts_none(pv, i + 1);
                        }
                        return Err(column_spec_error(spec));
                    },
                }
            },
            None => match parse_i64(&part) {
                Some(x) => {
                    columns.push(x);
                    assert(ints(columns@) =~= ints(columns@).drop_last() + seq![x as int]);
                },
                None => {
                    proof {
                        lemma_column_parts_none(pv, i + 1);
                    }
                    return Err(column_spec_error(spec));
                },
            },
        }
        i = i + 1;
    }
    assert(views(parts@).take(i as int) =~= views(parts@));
    Ok(columns)
}

fn column_spec_error(spec: &[char]) -> (r: Vec<char>)
    ensures
        r@ == "invalid column spec: "@ + spec@,
{
    tagged("invalid column spec: ", spec)
}

/// One cell of a compiled template row.
pub struct MxlCellInfo {
    pub col: i64,
    pub format_idx: usize,
    pub param: Option<Vec<char>>,
    pub detail: Option<Vec<char>>,
    pub text: Option<Vec<char>>,
    pub template: Option<Vec<char>>,
}

/// The value of a cell of a compiled template row.
pub struct CellView {
    pub col: i64,
    pub format_idx: usize,
    pub param: Option<Seq<char>>,
    pub detail: Option<Seq<char>>,
    pub text: Option<Seq<char>>,
    pub template: Option<Seq<char>>,
}

pub open spec fn opt_seq(o: Option<Vec<char>>) -> Option<Seq<char>> {
    match o {
        Some(v) => Some(v@),
        None => None,
    }
}

impl View for MxlCellInfo {
    type V = CellView;

    open spec fn view(&self) -> CellView {
        CellView {
            col: self.col,
            format_idx: self.format_idx,
            param: opt_seq(self.param),
            detail: opt_seq(self.detail),
            text: opt_seq(self.text),
            template: opt_seq(self.template),
        }
    }
}

/// The lines of a Russian text value of a cell, the text escaped.
pub open spec fn text_lines(text: Seq<char>) -> Seq<Seq<char>> {
    seq![
        "\t\t\t\t\t<tl>"@,
        "\t\t\t\t\t\t<v8:item>"@,
        "\t\t\t\t\t\t\t<v8:lang>ru</v8:lang>"@,
        "\t\t\t\t\t\t\t<v8:content>"@ + escape_xml(text) + "</v8:content>"@,
        "\t\t\t\t\t\t</v8:item>"@,
        "\t\t\t\t\t</tl>"@,
    ]
}

pub open spec fn opt_text_lines(o: Option<Seq<char>>) -> Seq<Seq<char>> {
    match o {
        Some(t) => text_lines(t),
        None => Seq::empty(),
    }
}

/// The lines of a cell: its column and format, its parameter (and detail
/// parameter, only with a parameter), then its text and template values.
pub open spec fn cell_lines(cell: CellView) -> Seq<Seq<char>> {
    seq![
        "\t\t\t<c>"@,
        "\t\t\t\t<i>"@ + int_text(cell.col as int) + "</i>"@,
        "\t\t\t\t<c>"@,
        "\t\t\t\t\t<f>"@ + nat_text(cell.format_idx as nat) + "</f>"@,
    ] + (match cell.param {
        Some(p) => seq!["\t\t\t\t\t<parameter>"@ + p + "</parameter>"@] + (match cell.detail {
            Some(d) => seq!["\t\t\t\t\t<detailParameter>"@ + d + "</detailParameter>"@],
            None => Seq::empty(),
        }),
        None => Seq::empty(),
    }) + opt_text_lines(cell.text) + opt_text_lines(cell.template) + seq!["\t\t\t\t</c>"@, "\t\t\t</c>"@]
}

fn line_of(a: &str, b: &[char], c: &str) -> (r: Vec<char>)
    ensures
        r@ == a@ + b@ + c@,
{
    let mut r = chars_of(a);
    push_chars(&mut r, b);
    push_str(&mut r, c);
    r
}

pub fn emit_mxl_cell(lines: &mut Vec<Vec<char>>, cell: &MxlCellInfo)
    ensures
        views(final(lines)@) == views(old(lines)@) + cell_lines(cell@),
{
    let ghost start = views(lines@);
    push_line(lines, chars_of("\t\t\t<c>"));
    push_line(lines, line_of("\t\t\t\t<i>", &i64_text(cell.col), "</i>"));
    push_line(lines, chars_of("\t\t\t\t<c>"));
    push_line(lines, line_of("\t\t\t\t\t<f>", &usize_text(cell.format_idx), "</f>"));
    let ghost a = views(lines@);
    if let Some(param) = &cell.param {
        push_line(lines, line_of("\t\t\t\t\t<parameter>", param, "</parameter>"));
        if let Some(detail) = &cell.detail {
            push_line(lines, line_of("\t\t\t\t\t<detailParameter>", detail, "</detailParameter>"));
        }
    }
    let ghost b = views(lines@);
    if let Some(text) = &cell.text {
        emit_mxl_text(lines, text);
    }
    let ghost c = views(lines@);
    if let Some(template) = &cell.template {
        emit_mxl_text(lines, template);
    }
    let ghost d = views(lines@);
    push_line(lines, chars_of("\t\t\t\t</c>"));
    push_line(lines, chars_of("\t\t\t</c>"));
    proof {
        assert(a =~= start + seq![
            "\t\t\t<c>"@,
            "\t\t\t\t<i>"@ + int_text(cell.col as int) + "</i>"@,
            "\t\t\t\t<c>"@,
            "\t\t\t\t\t<f>"@ + nat_text(cell.format_idx as nat) + "</f>"@,
        ]);
        assert(b =~= a + (match cell@.param {
            Some(p) => seq!["\t\t\t\t\t<parameter>"@ + p + "</parameter>"@] + (match cell@.detail {
                Some(d) => seq!["\t\t\t\t\t<detailParameter>"@ + d + "</detailParameter>"@],
                None => Seq::empty(),
            }),
            None => Seq::<Seq<char>>::empty(),
        }));
        assert(c =~= b + opt_text_lines(cell@.text));
        assert(d =~= c + opt_text_lines(cell@.template));
        assert(views(lines@) =~= start + cell_lines(cell@));
    }
}

pub fn emit_mxl_text(lines: &mut Vec<Vec<char>>, text: &[char])
    ensures
        views(final(lines)@) == views(old(lines)@) + text_lines(text@),
{
    let ghost start = views(lines@);
    push_line(lines, chars_of("\t\t\t\t\t<tl>"));
    push_line(lines, chars_of("\t\t\t\t\t\t<v8:item>"));
    push_line(lines, chars_of("\t\t\t\t\t\t\t<v8:lang>ru</v8:lang>"));
    push_line(lines, line_of("\t\t\t\t\t\t\t<v8:content>", &escape_xml_exec(text), "</v8:content>"));
    push_line(lines, chars_of("\t\t\t\t\t\t</v8:item>"));
    push_line(lines, chars_of("\t\t\t\t\t</tl>"));
    assert(views(lines@) =~= start + text_lines(text@));
}

/// The line of a numeric property, kept only when it is set and not negative.
pub open spec fn nonneg_tag_line(tag: Seq<char>, v: Option<i64>) -> Seq<Seq<char>> {
    match v {
        Some(x) => if x >= 0 {
            seq!["\t\t<"@ + tag + ">"@ + int_text(x as int) + "</"@ + tag + ">"@]
        } else {
            Seq::empty()
        },
        None => Seq::empty(),
    }
}

/// The line of a size, kept only when it is set and not zero.
pub open spec fn nonzero_tag_line(tag: Seq<char>, v: Option<i64>) -> Seq<Seq<char>> {
    match v {
        Some(x) => if x != 0 {
            seq!["\t\t<"@ + tag + ">"@ + int_text(x as int) + "</"@ + tag + ">"@]
        } else {
            Seq::empty()
        },
        None => Seq::empty(),
    }
}

/// The line of a text property, kept only when it is not empty.
pub open spec fn text_tag_line(tag: Seq<char>, v: Seq<char>) -> Seq<Seq<char>> {
    if v.len() > 0 {
        seq!["\t\t<"@ + tag + ">"@ + v + "</"@ + tag + ">"@]
    } else {
        Seq::empty()
    }
}

/// The lines of the numeric and alignment properties of a format that are set.
pub open spec fn format_attr_lines(f: FormatView) -> Seq<Seq<char>> {
    nonneg_tag_line("font"@, f.font_idx) + nonneg_tag_line("leftBorder"@, f.lb)
        + nonneg_tag_line("topBorder"@, f.tb) + nonneg_tag_line("rightBorder"@, f.rb)
        + nonneg_tag_line("bottomBorder"@, f.bb) + nonzero_tag_line("width"@, f.width)
        + nonzero_tag_line("height"@, f.height) + text_tag_line("horizontalAlignment"@, f.ha)
        + text_tag_line("verticalAlignment"@, f.va)
}

/// The lines of a number format, when there is one.
pub open spec fn number_format_lines(nf: Seq<char>) -> Seq<Seq<char>> {
    if nf.len() > 0 {
        seq![
            "\t\t<format>"@,
            "\t\t\t<v8:item>"@,
            "\t\t\t\t<v8:lang>ru</v8:lang>"@,
            "\t\t\t\t<v8:content>"@ + escape_xml(nf) + "</v8:content>"@,
            "\t\t\t</v8:item>"@,
            "\t\t</format>"@,
        ]
    } else {
        Seq::empty()
    }
}

/// The lines of a format: the properties that are set, in a fixed order.
pub open spec fn format_lines(f: FormatView) -> Seq<Seq<char>> {
    seq!["\t<format>"@] + format_attr_lines(f) + (if f.wrap {
        seq!["\t\t<textPlacement>Wrap</textPlacement>"@]
    } else {
        Seq::empty()
    }) + text_tag_line("fillType"@, f.fill_type) + number_format_lines(f.number_format) + seq!["\t</format>"@]
}

fn tag_line(tag: &str, value: &[char]) -> (r: Vec<char>)
    ensures
        r@ == "\t\t<"@ + tag@ + ">"@ + value@ + "</"@ + tag@ + ">"@,
{
    let mut r = chars_of("\t\t<");
    push_str(&mut r, tag);
    push_str(&mut r, ">");
    push_chars(&mut r, value);
    push_str(&mut r, "</");
    push_str(&mut r, tag);
    push_str(&mut r, ">");
    r
}

fn push_nonneg(lines: &mut Vec<Vec<char>>, tag: &str, v: Option<i64>)
    ensures
        views(final(lines)@) == views(old(lines)@) + nonneg_tag_line(tag@, v),
{
    if let Some(x) = v {
        if x >= 0 {
            push_line(lines, tag_line(tag, &i64_text(x)));
            return;
        }
    }
    assert(views(lines@) =~= views(lines@) + nonneg_tag_line(tag@, v));
}

fn push_nonzero(lines: &mut Vec<Vec<char>>, tag: &str, v: Option<i64>)
    ensures
        views(final(lines)@) == views(old(lines)@) + nonzero_tag_line(tag@, v),
{
    if let Some(x) = v {
        if x != 0 {
            push_line(lines, tag_line(tag, &i64_text(x)));
            return;
        }
    }
    assert(views(lines@) =~= views(lines@) + nonzero_tag_line(tag@, v));
}

fn push_text_tag(lines: &mut Vec<Vec<char>>, tag: &str, v: &[char])
    ensures
        views(final(lines)@) == views(old(lines)@) + text_tag_line(tag@, v@),
{
    if v.len() > 0 {
        push_line(lines, tag_line(tag, v));
    } else {
        assert(views(lines@) =~= views(lines@) + text_tag_line(tag@, v@));
    }
}

#[verifier::rlimit(40)]
#[verifier::spinoff_prover]
fn push_format_attrs(lines: &mut Vec<Vec<char>>, format: &MxlFormatProps)
    ensures
        views(final(lines)@) == views(old(lines)@) + format_attr_lines(format@),
{
    let ghost s0 = views(lines@);
    push_nonneg(lines, "font", format.font_idx);
    push_nonneg(lines, "leftBorder", format.lb);
    push_nonneg(lines, "topBorder", format.tb);
    push_nonneg(lines, "rightBorder", format.rb);
    push_nonneg(lines, "bottomBorder", format.bb);
    push_nonzero(lines, "width", format.width);
    push_nonzero(lines, "height", format.height);
    push_text_tag(lines, "horizontalAlignment", &format.ha);
    push_text_tag(lines, "verticalAlignment", &format.va);
    assert(views(lines@) =~= s0 + format_attr_lines(format@));
}

fn push_number_format(lines: &mut Vec<Vec<char>>, nf: &[char])
    ensures
        views(final(lines)@) == views(old(lines)@) + number_format_lines(nf@),
{
    let ghost s0 = views(lines@);
    if nf.len() > 0 {
        push_line(lines, chars_of("\t\t<format>"));
        push_line(lines, chars_of("\t\t\t<v8:item>"));
        push_line(lines, chars_of("\t\t\t\t<v8:lang>ru</v8:lang>"));
        push_line(lines, line_of("\t\t\t\t<v8:content>", &escape_xml_exec(nf), "</v8:content>"));
        push_line(lines, chars_of("\t\t\t</v8:item>"));
        push_line(lines, chars_of("\t\t</format>"));
    }
    assert(views(lines@) =~= s0 + number_format_lines(nf@));
}

pub fn emit_mxl_format(lines: &mut Vec<Vec<char>>, format: &MxlFormatProps)
    ensures
        views(final(lines)@) == views(old(lines)@) + format_lines(format@),
{
    let ghost s0 = views(lines@);
    push_line(lines, chars_of("\t<format>"));
    push_format_attrs(lines, format);
    let ghost s1 = views(lines@);
    if format.wrap {
        push_line(lines, chars_of("\t\t<textPlacement>Wrap</textPlacement>"));
    }
    let ghost s2 = views(lines@);
    push_text_tag(lines, "fillType", &format.fill_type);
    push_number_format(lines, &format.number_format);
    push_line(lines, chars_of("\t</format>"));
    proof {
        assert(s2 =~= s1 + (if format.wrap {
            seq!["\t\t<textPlacement>Wrap</textPlacement>"@]
        } else {
            Seq::<Seq<char>>::empty()
        }));
        assert(views(lines@) =~= s0 + format_lines(format@));
    }
}

} // verus!
