//! Locating elements in the text of a data composition schema. The editor works
//! on the text itself, so that everything it does not touch keeps its exact
//! layout; these scans find where elements start and end.
use vstd::prelude::*;
use crate::skd_values::SkdEditStructureItem;
use crate::text::{
    chars_of, ends_with, find_in, find_str, first_match, is_whitespace, is_ws, last_match,
    lemma_first_match_bounds, lemma_last_match_bounds, lemma_rskip_ws, matches_at, matches_at_exec,
    opt_int, rfind_in, rskip_ws, rskip_ws_exec, slice_to_vec, trim_end, contains, contains_chars,
    views, escape_xml, escape_xml_exec, trim, trim_chars, copy_texts, lit_views, eq_str, join,
};

verus! {

/// The start of the line that holds position `pos`.
pub open spec fn line_start(t: Seq<char>, pos: int) -> int {
    match last_match(t, "\n"@, 0, pos) {
        Some(i) => i + 1,
        None => 0,
    }
}

pub fn skd_edit_line_start(xml_text: &[char], pos: usize) -> (r: usize)
    requires
        pos <= xml_text@.len(),
    ensures
        r as int == line_start(xml_text@, pos as int),
        r <= pos,
{
    proof {
        reveal_strlit("\n");
        lemma_last_match_bounds(xml_text@, "\n"@, 0, pos as int);
    }
    let nl = chars_of("\n");
    match rfind_in(xml_text, &nl, 0, pos) {
        Some(i) => i + 1,
        None => 0,
    }
}

/// Indentation chars: whitespace other than line breaks.
pub open spec fn is_indent_char(c: char) -> bool {
    is_ws(c) && c != '\n' && c != '\r'
}

/// The end of the run of indentation chars from `i`, before `e`.
pub open spec fn skip_indent(t: Seq<char>, i: int, e: int) -> int
    decreases e - i,
{
    if i < e && is_indent_char(t[i]) {
        skip_indent(t, i + 1, e)
    } else {
        i
    }
}

pub proof fn lemma_skip_indent(t: Seq<char>, i: int, e: int)
    requires
        i <= e,
    ensures
        i <= skip_indent(t, i, e) <= e,
    decreases e - i,
{
    if i < e && is_indent_char(t[i]) {
        lemma_skip_indent(t, i + 1, e);
    }
}

/// The indentation at the start of the line that holds `pos`, up to `pos`.
pub open spec fn line_indent(t: Seq<char>, pos: int) -> Seq<char> {
    let s = line_start(t, pos);
    t.subrange(s, skip_indent(t, s, pos))
}

pub fn skd_edit_line_indent(xml_text: &[char], pos: usize) -> (r: Vec<char>)
    requires
        pos <= xml_text@.len(),
    ensures
        r@ == line_indent(xml_text@, pos as int),
{
    let s = skd_edit_line_start(xml_text, pos);
    let mut k = s;
    while k < pos && is_whitespace(xml_text[k]) && xml_text[k] != '\n' && xml_text[k] != '\r'
        invariant
            s <= k <= pos <= xml_text@.len(),
            skip_indent(xml_text@, s as int, pos as int) == skip_indent(
                xml_text@,
                k as int,
                pos as int,
            ),
        decreases pos - k,
    {
        k = k + 1;
    }
    slice_to_vec(xml_text, s, k)
}

/// Every char of `t[s..e]` is a tab or a space.
pub open spec fn only_blanks(t: Seq<char>, s: int, e: int) -> bool {
    forall|k: int| s <= k < e ==> t[k] == '\t' || t[k] == ' '
}

/// The text to cut when removing the element at `start..end`: from the start of
/// its line when only blanks precede it there, through the line break after it.
pub closed spec fn element_line_range(t: Seq<char>, start: int, end: int) -> (int, int) {
    let ls = line_start(t, start);
    let s = if only_blanks(t, ls, start) {
        ls
    } else {
        start
    };
    let e = if matches_at(t, "\r\n"@, end) {
        end + 2
    } else if matches_at(t, "\n"@, end) {
        end + 1
    } else {
        end
    };
    (s, e)
}

pub fn skd_edit_element_line_range(xml_text: &[char], start: usize, end: usize) -> (r: (usize, usize))
    requires
        start <= end <= xml_text@.len(),
    ensures
        (r.0 as int, r.1 as int) == element_line_range(xml_text@, start as int, end as int),
        r.0 <= start,
        end <= r.1 <= xml_text@.len(),
{
    proof {
        reveal_strlit("\r\n");
        reveal_strlit("\n");
    }
    let n = xml_text.len();
    let ls = skd_edit_line_start(xml_text, start);
    let mut k = ls;
    while k < start && (xml_text[k] == '\t' || xml_text[k] == ' ')
        invariant
            ls <= k <= start <= xml_text@.len(),
            only_blanks(xml_text@, ls as int, k as int),
        decreases start - k,
    {
        k = k + 1;
    }
    let s = if k == start {
        ls
    } else {
        start
    };
    let crlf = chars_of("\r\n");
    let lf = chars_of("\n");
    assert(lf@.len() == 1 && crlf@.len() == 2);
    let is_crlf = matches_at_exec(xml_text, &crlf, end);
    let is_lf = matches_at_exec(xml_text, &lf, end);
    let e = if is_crlf {
        end + 2
    } else if is_lf {
        end + 1
    } else {
        end
    };
    (s, e)
}

/// `t[s..e]`, trailing whitespace aside, ends with `/>`.
pub open spec fn self_closing_tag(t: Seq<char>, s: int, e: int) -> bool {
    ends_with(trim_end(t.subrange(s, e)), "/>"@)
}

pub fn is_self_closing_tag(t: &[char], s: usize, e: usize) -> (b: bool)
    requires
        s <= e <= t@.len(),
    ensures
        b == self_closing_tag(t@, s as int, e as int),
{
    let tag = slice_to_vec(t, s, e);
    let k = rskip_ws_exec(&tag, 0, tag.len());
    proof {
        reveal_strlit("/>");
        lemma_rskip_ws(tag@, 0, tag@.len() as int);
    }
    let trimmed = slice_to_vec(&tag, 0, k);
    crate::text::ends_with_str(&trimmed, "/>")
}

/// The nesting scan behind finding an element's end: from `cursor`, with
/// `depth` elements open, each `open` (whose tag is not self-closing) opens one
/// more and each `close` closes one; the end of the `close` that brings the
/// depth to zero. `None` when the text before `limit` runs out first.
pub open spec fn nest_scan(
    t: Seq<char>,
    limit: int,
    open: Seq<char>,
    close: Seq<char>,
    cursor: int,
    depth: int,
) -> Option<int>
    decreases limit - cursor,
    when close.len() > 0
{
    if cursor >= limit {
        None
    } else {
        let next_open = first_match(t, open, cursor, limit);
        let next_close = first_match(t, close, cursor, limit);
        proof {
            lemma_first_match_bounds(t, open, cursor, limit);
            lemma_first_match_bounds(t, close, cursor, limit);
        }
        match next_close {
            None => None,
            Some(c) => {
                if next_open is Some && next_open->0 < c {
                    let o = next_open->0;
                    match first_match(t, ">"@, o, limit) {
                        None => None,
                        Some(oe) => {
                            proof {
                                reveal_strlit(">");
                                lemma_first_match_bounds(t, ">"@, o, limit);
                            }
                            nest_scan(
                                t,
                                limit,
                                open,
                                close,
                                oe + 1,
                                if self_closing_tag(t, o, oe + 1) {
                                    depth
                                } else {
                                    depth + 1
                                },
                            )
                        },
                    }
                } else {
                    let d = if depth > 0 {
                        depth - 1
                    } else {
                        0
                    };
                    if d == 0 {
                        Some(c + close.len())
                    } else {
                        nest_scan(t, limit, open, close, c + close.len(), d)
                    }
                }
            },
        }
    }
}

pub proof fn lemma_nest_scan_bounds(
    t: Seq<char>,
    limit: int,
    open: Seq<char>,
    close: Seq<char>,
    cursor: int,
    depth: int,
)
    requires
        close.len() > 0,
    ensures
        nest_scan(t, limit, open, close, cursor, depth) matches Some(e) ==> cursor < e <= limit,
    decreases limit - cursor,
{
    reveal_strlit(">");
    if cursor < limit {
        let next_open = first_match(t, open, cursor, limit);
        let next_close = first_match(t, close, cursor, limit);
        lemma_first_match_bounds(t, open, cursor, limit);
        lemma_first_match_bounds(t, close, cursor, limit);
        match next_close {
            None => {},
            Some(c) => {
                if next_open is Some && next_open->0 < c {
                    let o = next_open->0;
                    match first_match(t, ">"@, o, limit) {
                        None => {},
                        Some(oe) => {
                            lemma_first_match_bounds(t, ">"@, o, limit);
                            let d = if self_closing_tag(t, o, oe + 1) {
                                depth
                            } else {
                                depth + 1
                            };
                            lemma_nest_scan_bounds(t, limit, open, close, oe + 1, d);
                        },
                    }
                } else {
                    let d = if depth > 0 {
                        depth - 1
                    } else {
                        0
                    };
                    if d != 0 {
                        lemma_nest_scan_bounds(t, limit, open, close, c + close.len(), d);
                    }
                }
            },
        }
    }
}

pub fn nest_scan_exec(
    t: &[char],
    limit: usize,
    open: &[char],
    close: &[char],
    cursor: usize,
    depth: usize,
) -> (r: Option<usize>)
    requires
        limit <= t@.len(),
        close@.len() > 0,
        depth <= cursor,
    ensures
        opt_int(r) == nest_scan(t@, limit as int, open@, close@, cursor as int, depth as int),
        r matches Some(e) ==> cursor < e <= limit,
{
    let gt = chars_of(">");
    proof {
        reveal_strlit(">");
    }
    let ghost target = nest_scan(t@, limit as int, open@, close@, cursor as int, depth as int);
    let mut cur = cursor;
    let mut dep = depth;
    let ghost c0 = cur;
    proof {
        lemma_nest_scan_bounds(t@, limit as int, open@, close@, cur as int, dep as int);
    }
    while cur < limit
        invariant
            limit <= t@.len(),
            close@.len() > 0,
            dep <= cur,
            c0 <= cur,
            gt@ == ">"@,
            gt@.len() == 1,
            target == nest_scan(t@, limit as int, open@, close@, cursor as int, depth as int),
            target == nest_scan(t@, limit as int, open@, close@, cur as int, dep as int),
            target matches Some(e) ==> cursor < e,
            target matches Some(e) ==> cur < e <= limit,
        decreases limit - cur,
    {
        let next_open = find_in(t, open, cur, limit);
        let next_close = find_in(t, close, cur, limit);
        proof {
            lemma_first_match_bounds(t@, open@, cur as int, limit as int);
            lemma_first_match_bounds(t@, close@, cur as int, limit as int);
        }
        match next_close {
            None => {
                assert(target is None);
                return None;
            },
            Some(c) => {
                let open_first = match next_open {
                    Some(o) => o < c,
                    None => false,
                };
                if open_first {
                    let o = next_open.unwrap();
                    match find_in(t, &gt, o, limit) {
                        None => {
                            return None;
                        },
                        Some(oe) => {
                            proof {
                                lemma_first_match_bounds(t@, gt@, o as int, limit as int);
                            }
                            if !is_self_closing_tag(t, o, oe + 1) {
                                dep = dep + 1;
                            }
                            cur = oe + 1;
                            proof {
                                lemma_nest_scan_bounds(t@, limit as int, open@, close@, cur as int, dep as int);
                            }
                        },
                    }
                } else {
                    let d = if dep > 0 {
                        dep - 1
                    } else {
                        0
                    };
                    if d == 0 {
                        return Some(c + close.len());
                    }
                    dep = d;
                    cur = c + close.len();
                    proof {
                        lemma_nest_scan_bounds(t@, limit as int, open@, close@, cur as int, dep as int);
                    }
                }
            },
        }
    }
    None
}

/// The end of the element `tag` whose start tag begins at `start`: just after
/// its start tag when that is self-closing, else after its matching end tag.
pub open spec fn element_end(t: Seq<char>, start: int, limit: int, tag: Seq<char>) -> Option<int> {
    match first_match(t, ">"@, start, limit) {
        None => None,
        Some(e) => if self_closing_tag(t, start, e + 1) {
            Some(e + 1)
        } else {
            nest_scan(t, limit, "<"@ + tag, "</"@ + tag + ">"@, e + 1, 1)
        },
    }
}

pub fn skd_edit_matching_element_end(xml_text: &[char], start: usize, limit: usize, tag: &[char]) -> (r: Option<usize>)
    requires
        start <= limit <= xml_text@.len(),
    ensures
        opt_int(r) == element_end(xml_text@, start as int, limit as int, tag@),
        r matches Some(e) ==> start < e <= limit,
{
    proof {
        reveal_strlit(">");
        reveal_strlit("</");
    }
    let gt = chars_of(">");
    match find_in(xml_text, &gt, start, limit) {
        None => None,
        Some(e) => {
            proof {
                lemma_first_match_bounds(xml_text@, gt@, start as int, limit as int);
            }
            if is_self_closing_tag(xml_text, start, e + 1) {
                return Some(e + 1);
            }
            let mut open = chars_of("<");
            crate::text::push_chars(&mut open, tag);
            let mut close = chars_of("</");
            crate::text::push_chars(&mut close, tag);
            crate::text::push_str(&mut close, ">");
            nest_scan_exec(xml_text, limit, &open, &close, e + 1, 1)
        },
    }
}

/// The end of the `dcsset:item` element whose start tag begins at `start`.
pub open spec fn dcsset_item_end(t: Seq<char>, start: int, limit: int) -> Option<int> {
    match first_match(t, ">"@, start, limit) {
        None => None,
        Some(e) => nest_scan(t, limit, "<dcsset:item"@, "</dcsset:item>"@, e + 1, 1),
    }
}

pub fn skd_edit_matching_dcsset_item_end(xml_text: &[char], start: usize, limit: usize) -> (r: Option<usize>)
    requires
        start <= limit <= xml_text@.len(),
    ensures
        opt_int(r) == dcsset_item_end(xml_text@, start as int, limit as int),
        r matches Some(e) ==> start < e <= limit,
{
    proof {
        reveal_strlit(">");
        reveal_strlit("</dcsset:item>");
    }
    let gt = chars_of(">");
    match find_in(xml_text, &gt, start, limit) {
        None => None,
        Some(e) => {
            proof {
                lemma_first_match_bounds(xml_text@, gt@, start as int, limit as int);
            }
            let open = chars_of("<dcsset:item");
            let close = chars_of("</dcsset:item>");
            nest_scan_exec(xml_text, limit, &open, &close, e + 1, 1)
        },
    }
}

/// Chars that end an element name after `<`: `>`, `/` or whitespace.
pub open spec fn ends_name(c: char) -> bool {
    c == '>' || c == '/' || is_ws(c)
}

/// The first index from `i` on whose char ends a name, or the length.
pub open spec fn name_end(t: Seq<char>, i: int) -> int
    decreases t.len() - i,
{
    if i < t.len() && !ends_name(t[i]) {
        name_end(t, i + 1)
    } else {
        i
    }
}

pub proof fn lemma_name_end(t: Seq<char>, i: int)
    requires
        0 <= i <= t.len(),
    ensures
        i <= name_end(t, i) <= t.len(),
    decreases t.len() - i,
{
    if i < t.len() && !ends_name(t[i]) {
        lemma_name_end(t, i + 1);
    }
}

/// The name of the element whose start tag begins at `start`, if a `<` is there.
pub open spec fn element_name_at(t: Seq<char>, start: int) -> Option<Seq<char>> {
    if start > t.len() || start >= t.len() || t[start] != '<' {
        None
    } else {
        Some(t.subrange(start + 1, name_end(t, start + 1)))
    }
}

pub open spec fn opt_seq(o: Option<Vec<char>>) -> Option<Seq<char>> {
    match o {
        Some(v) => Some(v@),
        None => None,
    }
}

pub fn skd_edit_element_name_at(xml_text: &[char], start: usize) -> (r: Option<Vec<char>>)
    ensures
        opt_seq(r) == element_name_at(xml_text@, start as int),
{
    if start >= xml_text.len() || xml_text[start] != '<' {
        return None;
    }
    let mut k = start + 1;
    while k < xml_text.len() && !(xml_text[k] == '>' || xml_text[k] == '/' || is_whitespace(xml_text[k]))
        invariant
            start < k <= xml_text@.len(),
            name_end(xml_text@, (start + 1) as int) == name_end(xml_text@, k as int),
        decreases xml_text.len() - k,
    {
        k = k + 1;
    }
    Some(slice_to_vec(xml_text, start + 1, k))
}

/// ASCII whitespace, as `u8::is_ascii_whitespace` tests it.
pub open spec fn is_ascii_ws(c: char) -> bool {
    c == ' ' || c == '\t' || c == '\n' || c == '\r' || c == '\x0C'
}

/// From `from`, the first occurrence of `open` before `e` that is followed,
/// still before `e`, by `>`, `/` or ASCII whitespace: the start of a child
/// element whose name is exactly the one in `open`.
pub open spec fn child_open_from(t: Seq<char>, open: Seq<char>, from: int, e: int) -> Option<int>
    decreases e - from,
    when open.len() > 0
{
    match first_match(t, open, from, e) {
        None => None,
        Some(i) => {
            proof {
                lemma_first_match_bounds(t, open, from, e);
            }
            let a = i + open.len();
            if a < e && (t[a] == '>' || t[a] == '/' || is_ascii_ws(t[a])) {
                Some(i)
            } else {
                child_open_from(t, open, a, e)
            }
        },
    }
}

pub proof fn lemma_child_open_from(t: Seq<char>, open: Seq<char>, from: int, e: int)
    requires
        open.len() > 0,
    ensures
        child_open_from(t, open, from, e) matches Some(i) ==> from <= i && i + open.len() < e,
    decreases e - from,
{
    lemma_first_match_bounds(t, open, from, e);
    match first_match(t, open, from, e) {
        None => {},
        Some(i) => {
            let a = i + open.len();
            if !(a < e && (t[a] == '>' || t[a] == '/' || is_ascii_ws(t[a]))) {
                lemma_child_open_from(t, open, a, e);
            }
        },
    }
}

pub open spec fn min_int(a: int, b: int) -> int {
    if a < b {
        a
    } else {
        b
    }
}

/// The range of the first `child` element in `range` (both bounds cut to the
/// text): from its start tag to the end of its matching end tag, or of the
/// start tag when that is self-closing.
pub closed spec fn child_element_range(t: Seq<char>, range: (int, int), child: Seq<char>) -> Option<(int, int)> {
    let sb = min_int(range.0, t.len() as int);
    let eb = min_int(range.1, t.len() as int);
    if sb > eb {
        None
    } else {
        match child_open_from(t, "<"@ + child, sb, eb) {
            None => None,
            Some(st) => match first_match(t, ">"@, st, eb) {
                None => None,
                Some(oe) => if self_closing_tag(t, st, oe + 1) {
                    Some((st, oe + 1))
                } else {
                    match element_end(t, st, eb, child) {
                        Some(e) => Some((st, e)),
                        None => None,
                    }
                },
            },
        }
    }
}

pub open spec fn opt_range(r: Option<(usize, usize)>) -> Option<(int, int)> {
    match r {
        Some((a, b)) => Some((a as int, b as int)),
        None => None,
    }
}

pub fn skd_edit_child_element_range(xml_text: &[char], range: (usize, usize), child: &[char]) -> (r: Option<(usize, usize)>)
    ensures
        opt_range(r) == child_element_range(xml_text@, (range.0 as int, range.1 as int), child@),
        r matches Some((a, b)) ==> a < b <= xml_text@.len(),
{
    proof {
        reveal_strlit("<");
        reveal_strlit(">");
    }
    let n = xml_text.len();
    let sb = if range.0 < n {
        range.0
    } else {
        n
    };
    let eb = if range.1 < n {
        range.1
    } else {
        n
    };
    if sb > eb {
        return None;
    }
    let mut open = chars_of("<");
    crate::text::push_chars(&mut open, child);
    let ghost target = child_open_from(xml_text@, open@, sb as int, eb as int);
    let mut from = sb;
    let mut st: usize = 0;
    loop
        invariant_except_break
            target == child_open_from(xml_text@, open@, from as int, eb as int),
        invariant
            open@.len() > 0,
            open@ == "<"@ + child@,
            sb <= from,
            sb <= eb <= xml_text@.len(),
            sb as int == min_int(range.0 as int, xml_text@.len() as int),
            eb as int == min_int(range.1 as int, xml_text@.len() as int),
            target == child_open_from(xml_text@, open@, sb as int, eb as int),
        ensures
            target == Some(st as int),
        decreases eb - from,
    {
        match find_in(xml_text, &open, from, eb) {
            None => {
                assert(target is None);
                return None;
            },
            Some(i) => {
                proof {
                    lemma_first_match_bounds(xml_text@, open@, from as int, eb as int);
                }
                let a = i + open.len();
                if a < eb && (xml_text[a] == '>' || xml_text[a] == '/' || xml_text[a] == ' '
                    || xml_text[a] == '\t' || xml_text[a] == '\n' || xml_text[a] == '\r'
                    || xml_text[a] == '\x0C') {
                    st = i;
                    break;
                }
                from = a;
            },
        }
    }
    proof {
        lemma_child_open_from(xml_text@, open@, sb as int, eb as int);
    }
    let gt = chars_of(">");
    match find_in(xml_text, &gt, st, eb) {
        None => None,
        Some(oe) => {
            proof {
                lemma_first_match_bounds(xml_text@, gt@, st as int, eb as int);
            }
            if is_self_closing_tag(xml_text, st, oe + 1) {
                return Some((st, oe + 1));
            }
            match skd_edit_matching_element_end(xml_text, st, eb, child) {
                Some(e) => Some((st, e)),
                None => None,
            }
        },
    }
}

/// The text between `<child>` and `</child>` for the first `<child>` in
/// `range`, or the error for the tag that is missing.
pub open spec fn child_text_range(t: Seq<char>, range: (int, int), child: Seq<char>) -> Result<(int, int), Seq<char>> {
    let open = "<"@ + child + ">"@;
    let close = "</"@ + child + ">"@;
    match first_match(t, open, range.0, range.1) {
        None => Err("No <"@ + child + "> element found"@),
        Some(o) => match first_match(t, close, o + open.len(), range.1) {
            None => Err("No </"@ + child + "> element found"@),
            Some(c) => Ok((o + open.len(), c)),
        },
    }
}

pub open spec fn range_result(r: Result<(usize, usize), Vec<char>>) -> Result<(int, int), Seq<char>> {
    match r {
        Ok((a, b)) => Ok((a as int, b as int)),
        Err(e) => Err(e@),
    }
}

/// `<` + `name` + `>`, or another such three-part text.
pub fn enclose(a: &str, name: &[char], b: &str) -> (r: Vec<char>)
    ensures
        r@ == a@ + name@ + b@,
{
    let mut r = chars_of(a);
    crate::text::push_chars(&mut r, name);
    crate::text::push_str(&mut r, b);
    r
}

pub fn skd_edit_child_text_range(xml_text: &[char], range: (usize, usize), child: &[char]) -> (r: Result<(usize, usize), Vec<char>>)
    requires
        range.0 <= range.1 <= xml_text@.len(),
    ensures
        range_result(r) == child_text_range(xml_text@, (range.0 as int, range.1 as int), child@),
        r matches Ok((a, b)) ==> range.0 <= a <= b <= range.1,
{
    let open = enclose("<", child, ">");
    let close = enclose("</", child, ">");
    match find_in(xml_text, &open, range.0, range.1) {
        None => Err(enclose("No <", child, "> element found")),
        Some(o) => {
            proof {
                lemma_first_match_bounds(xml_text@, open@, range.0 as int, range.1 as int);
            }
            let ts = o + open.len();
            match find_in(xml_text, &close, ts, range.1) {
                None => Err(enclose("No </", child, "> element found")),
                Some(c) => {
                    proof {
                        lemma_first_match_bounds(xml_text@, close@, ts as int, range.1 as int);
                    }
                    Ok((ts, c))
                },
            }
        },
    }
}

/// The same search for a namespace-prefixed child name.
pub fn skd_edit_prefixed_child_text_range(xml_text: &[char], range: (usize, usize), child: &[char]) -> (r: Result<(usize, usize), Vec<char>>)
    requires
        range.0 <= range.1 <= xml_text@.len(),
    ensures
        range_result(r) == child_text_range(xml_text@, (range.0 as int, range.1 as int), child@),
        r matches Ok((a, b)) ==> range.0 <= a <= b <= range.1,
{
    skd_edit_child_text_range(xml_text, range, child)
}

/// What a search for a block `open … close` found.
pub enum BlockFind {
    Found(int, int),
    Unclosed,
    Missing,
}

/// Some probe text occurs in `b`.
pub open spec fn has_any(b: Seq<char>, probes: Seq<Seq<char>>) -> bool {
    exists|i: int| 0 <= i < probes.len() && contains(b, #[trigger] probes[i])
}

/// From `cursor`, the blocks that start at an `open` and end after the first
/// `close` after it, in order: the first one that holds a probe (any block when
/// `all`); `Unclosed` when a block has no `close`, `Missing` when none is left.
pub open spec fn block_scan(
    t: Seq<char>,
    open: Seq<char>,
    close: Seq<char>,
    probes: Seq<Seq<char>>,
    all: bool,
    cursor: int,
) -> BlockFind
    decreases t.len() - cursor,
    when close.len() > 0 && cursor >= 0
{
    match first_match(t, open, cursor, t.len() as int) {
        None => BlockFind::Missing,
        Some(s) => match first_match(t, close, s, t.len() as int) {
            None => BlockFind::Unclosed,
            Some(c) => {
                proof {
                    lemma_first_match_bounds(t, open, cursor, t.len() as int);
                    lemma_first_match_bounds(t, close, s, t.len() as int);
                }
                let e = c + close.len();
                if all || has_any(t.subrange(s, e), probes) {
                    BlockFind::Found(s, e)
                } else {
                    block_scan(t, open, close, probes, all, e)
                }
            },
        },
    }
}

pub proof fn lemma_block_scan(
    t: Seq<char>,
    open: Seq<char>,
    close: Seq<char>,
    probes: Seq<Seq<char>>,
    all: bool,
    cursor: int,
)
    requires
        close.len() > 0,
        cursor >= 0,
    ensures
        block_scan(t, open, close, probes, all, cursor) matches BlockFind::Found(s, e) ==> cursor
            <= s < e <= t.len(),
    decreases t.len() - cursor,
{
    lemma_first_match_bounds(t, open, cursor, t.len() as int);
    match first_match(t, open, cursor, t.len() as int) {
        None => {},
        Some(s) => {
            lemma_first_match_bounds(t, close, s, t.len() as int);
            match first_match(t, close, s, t.len() as int) {
                None => {},
                Some(c) => {
                    let e = c + close.len();
                    if !(all || has_any(t.subrange(s, e), probes)) {
                        lemma_block_scan(t, open, close, probes, all, e);
                    }
                },
            }
        },
    }
}

/// Whether one of the probes occurs in `t[s..e]`.
pub fn has_any_exec(t: &[char], s: usize, e: usize, probes: &Vec<Vec<char>>) -> (b: bool)
    requires
        s <= e <= t@.len(),
    ensures
        b == has_any(t@.subrange(s as int, e as int), views(probes@)),
{
    let block = slice_to_vec(t, s, e);
    let mut i: usize = 0;
    while i < probes.len()
        invariant
            i <= probes.len(),
            block@ == t@.subrange(s as int, e as int),
            forall|k: int| 0 <= k < i ==> !contains(block@, #[trigger] views(probes@)[k]),
        decreases probes.len() - i,
    {
        if contains_chars(&block, &probes[i]) {
            assert(contains(block@, views(probes@)[i as int]));
            return true;
        }
        i = i + 1;
    }
    false
}

/// The block search, in executable form.
pub enum BlockSearch {
    Found(usize, usize),
    Unclosed,
    Missing,
}

pub open spec fn block_view(r: BlockSearch) -> BlockFind {
    match r {
        BlockSearch::Found(s, e) => BlockFind::Found(s as int, e as int),
        BlockSearch::Unclosed => BlockFind::Unclosed,
        BlockSearch::Missing => BlockFind::Missing,
    }
}

pub fn block_scan_exec(t: &[char], open: &[char], close: &[char], probes: &Vec<Vec<char>>, all: bool) -> (r: BlockSearch)
    requires
        close@.len() > 0,
    ensures
        block_view(r) == block_scan(t@, open@, close@, views(probes@), all, 0),
        r matches BlockSearch::Found(s, e) ==> s < e <= t@.len(),
{
    proof {
        lemma_block_scan(t@, open@, close@, views(probes@), all, 0);
    }
    let mut cursor: usize = 0;
    loop
        invariant
            close@.len() > 0,
            cursor <= t@.len(),
            block_scan(t@, open@, close@, views(probes@), all, 0) == block_scan(
                t@,
                open@,
                close@,
                views(probes@),
                all,
                cursor as int,
            ),
            block_scan(t@, open@, close@, views(probes@), all, 0) matches BlockFind::Found(s, e)
                ==> s < e <= t@.len(),
        decreases t.len() - cursor,
    {
        match find_in(t, open, cursor, t.len()) {
            None => {
                return BlockSearch::Missing;
            },
            Some(s) => {
                proof {
                    lemma_first_match_bounds(t@, open@, cursor as int, t@.len() as int);
                }
                match find_in(t, close, s, t.len()) {
                    None => {
                        return BlockSearch::Unclosed;
                    },
                    Some(c) => {
                        proof {
                            lemma_first_match_bounds(t@, close@, s as int, t@.len() as int);
                        }
                        let e = c + close.len();
                        if all || has_any_exec(t, s, e, probes) {
                            return BlockSearch::Found(s, e);
                        }
                        cursor = e;
                    },
                }
            },
        }
    }
}

/// The probe naming a data set.
pub open spec fn dataset_probes(data_set: Seq<char>) -> Seq<Seq<char>> {
    seq!["<name>"@ + escape_xml(data_set) + "</name>"@]
}

/// The range of the first `<dataSet …>…</dataSet>` block, or of the first one
/// that holds `<name>{data_set}</name>`.
pub open spec fn dataset_range(t: Seq<char>, data_set: Seq<char>) -> Result<(int, int), Seq<char>> {
    match block_scan(t, "<dataSet"@, "</dataSet>"@, dataset_probes(data_set), data_set.len() == 0, 0) {
        BlockFind::Found(s, e) => Ok((s, e)),
        BlockFind::Unclosed => Err("No closing </dataSet> found"@),
        BlockFind::Missing => if data_set.len() == 0 {
            Err("No dataSet found in DCS"@)
        } else {
            Err("DataSet '"@ + data_set + "' not found"@)
        },
    }
}

pub fn skd_edit_dataset_range(xml_text: &[char], data_set: &[char]) -> (r: Result<(usize, usize), Vec<char>>)
    ensures
        range_result(r) == dataset_range(xml_text@, data_set@),
        r matches Ok((s, e)) ==> s < e <= xml_text@.len(),
{
    proof {
        reveal_strlit("</dataSet>");
    }
    let open = chars_of("<dataSet");
    let close = chars_of("</dataSet>");
    let mut probes: Vec<Vec<char>> = Vec::new();
    probes.push(wrap_name("<name>", data_set, "</name>"));
    assert(views(probes@) =~= dataset_probes(data_set@));
    match block_scan_exec(xml_text, &open, &close, &probes, data_set.len() == 0) {
        BlockSearch::Found(s, e) => Ok((s, e)),
        BlockSearch::Unclosed => Err(chars_of("No closing </dataSet> found")),
        BlockSearch::Missing => if data_set.len() == 0 {
            Err(chars_of("No dataSet found in DCS"))
        } else {
            Err(enclose("DataSet '", data_set, "' not found"))
        },
    }
}

/// `a` + the escaped `name` + `b`.
pub fn wrap_name(a: &str, name: &[char], b: &str) -> (r: Vec<char>)
    ensures
        r@ == a@ + escape_xml(name@) + b@,
{
    let e = escape_xml_exec(name);
    enclose(a, &e, b)
}

/// The text of a `<child>` element in `range`, trimmed.
pub open spec fn child_text(t: Seq<char>, range: (int, int), child: Seq<char>) -> Option<Seq<char>> {
    match child_text_range(t, range, child) {
        Ok((a, b)) => Some(trim(t.subrange(a, b))),
        Err(_) => None,
    }
}

/// The name of the data set that `data_set` selects (the first when empty).
pub open spec fn dataset_name(t: Seq<char>, data_set: Seq<char>) -> Option<Seq<char>> {
    match dataset_range(t, data_set) {
        Ok(r) => child_text(t, r, "name"@),
        Err(_) => None,
    }
}

pub fn skd_edit_dataset_name(xml_text: &[char], data_set: &[char]) -> (r: Option<Vec<char>>)
    ensures
        opt_seq(r) == dataset_name(xml_text@, data_set@),
{
    match skd_edit_dataset_range(xml_text, data_set) {
        Ok((s, e)) => {
            let name = chars_of("name");
            match skd_edit_child_text_range(xml_text, (s, e), &name) {
                Ok((a, b)) => {
                    let v = slice_to_vec(xml_text, a, b);
                    Some(trim_chars(&v))
                },
                Err(_) => None,
            }
        },
        Err(_) => None,
    }
}

/// The probes naming a settings variant.
pub open spec fn variant_probes(variant: Seq<char>) -> Seq<Seq<char>> {
    seq![
        "<dcsset:name>"@ + escape_xml(variant) + "</dcsset:name>"@,
        "<name>"@ + escape_xml(variant) + "</name>"@,
    ]
}

/// A settings variant block carries the name `variant`.
pub open spec fn variant_block_has_name(block: Seq<char>, variant: Seq<char>) -> bool {
    contains(block, "<dcsset:name>"@ + escape_xml(variant) + "</dcsset:name>"@) || contains(
        block,
        "<name>"@ + escape_xml(variant) + "</name>"@,
    )
}

pub proof fn lemma_variant_probes(block: Seq<char>, variant: Seq<char>)
    ensures
        has_any(block, variant_probes(variant)) == variant_block_has_name(block, variant),
{
    let p = variant_probes(variant);
    if variant_block_has_name(block, variant) {
        if contains(block, p[0]) {
            assert(has_any(block, p));
        } else {
            assert(contains(block, p[1]));
            assert(has_any(block, p));
        }
    }
}

pub fn skd_edit_variant_block_has_name(block: &[char], variant: &[char]) -> (b: bool)
    ensures
        b == variant_block_has_name(block@, variant@),
{
    let a = wrap_name("<dcsset:name>", variant, "</dcsset:name>");
    let c = wrap_name("<name>", variant, "</name>");
    contains_chars(block, &a) || contains_chars(block, &c)
}

/// Whether a settings variant of that name occurs anywhere in the text.
pub fn skd_edit_variant_exists(xml_text: &[char], name: &[char]) -> (b: bool)
    ensures
        b == variant_block_has_name(xml_text@, name@),
{
    skd_edit_variant_block_has_name(xml_text, name)
}

/// The range of the first settings variant, or of the one named `variant`.
pub open spec fn variant_range(t: Seq<char>, variant: Seq<char>) -> Result<(int, int), Seq<char>> {
    match block_scan(t, "<settingsVariant"@, "</settingsVariant>"@, variant_probes(variant), variant.len() == 0, 0) {
        BlockFind::Found(s, e) => Ok((s, e)),
        BlockFind::Unclosed => Err("No closing </settingsVariant> found"@),
        BlockFind::Missing => if variant.len() == 0 {
            Err("No settingsVariant found in DCS"@)
        } else {
            Err("Variant '"@ + variant + "' not found"@)
        },
    }
}

pub fn skd_edit_variant_range(xml_text: &[char], variant: &[char]) -> (r: Result<(usize, usize), Vec<char>>)
    ensures
        range_result(r) == variant_range(xml_text@, variant@),
        r matches Ok((s, e)) ==> s < e <= xml_text@.len(),
{
    proof {
        reveal_strlit("</settingsVariant>");
    }
    let open = chars_of("<settingsVariant");
    let close = chars_of("</settingsVariant>");
    let mut probes: Vec<Vec<char>> = Vec::new();
    probes.push(wrap_name("<dcsset:name>", variant, "</dcsset:name>"));
    probes.push(wrap_name("<name>", variant, "</name>"));
    assert(views(probes@) =~= variant_probes(variant@));
    match block_scan_exec(xml_text, &open, &close, &probes, variant.len() == 0) {
        BlockSearch::Found(s, e) => Ok((s, e)),
        BlockSearch::Unclosed => Err(chars_of("No closing </settingsVariant> found")),
        BlockSearch::Missing => if variant.len() == 0 {
            Err(chars_of("No settingsVariant found in DCS"))
        } else {
            Err(enclose("Variant '", variant, "' not found"))
        },
    }
}

/// The variant's name: `variant` itself when given, else the name written in
/// the first variant.
pub open spec fn variant_name(t: Seq<char>, variant: Seq<char>) -> Option<Seq<char>> {
    if variant.len() > 0 {
        Some(variant)
    } else {
        match variant_range(t, variant) {
            Err(_) => None,
            Ok(r) => match child_text(t, r, "dcsset:name"@) {
                Some(n) => Some(n),
                None => child_text(t, r, "name"@),
            },
        }
    }
}

pub fn skd_edit_variant_name(xml_text: &[char], variant: &[char]) -> (r: Option<Vec<char>>)
    ensures
        opt_seq(r) == variant_name(xml_text@, variant@),
{
    if variant.len() > 0 {
        return Some(crate::text::to_vec(variant));
    }
    match skd_edit_variant_range(xml_text, variant) {
        Err(_) => None,
        Ok((s, e)) => {
            let dn = chars_of("dcsset:name");
            match skd_edit_prefixed_child_text_range(xml_text, (s, e), &dn) {
                Ok((a, b)) => {
                    let v = slice_to_vec(xml_text, a, b);
                    Some(trim_chars(&v))
                },
                Err(_) => {
                    let nm = chars_of("name");
                    match skd_edit_child_text_range(xml_text, (s, e), &nm) {
                        Ok((a, b)) => {
                            let v = slice_to_vec(xml_text, a, b);
                            Some(trim_chars(&v))
                        },
                        Err(_) => None,
                    }
                },
            }
        },
    }
}

/// The text of the first data source's `<name>`.
pub open spec fn first_data_source(t: Seq<char>) -> Option<Seq<char>> {
    match first_match(t, "<dataSource>"@, 0, t.len() as int) {
        None => None,
        Some(s) => match first_match(t, "</dataSource>"@, s, t.len() as int) {
            None => None,
            Some(e) => child_text(t, (s, e), "name"@),
        },
    }
}

pub fn skd_edit_first_data_source(xml_text: &[char]) -> (r: Option<Vec<char>>)
    ensures
        opt_seq(r) == first_data_source(xml_text@),
{
    let s = find_str(xml_text, "<dataSource>", 0, xml_text.len());
    match s {
        None => None,
        Some(s) => {
            let e = find_str(xml_text, "</dataSource>", s, xml_text.len());
            match e {
                None => None,
                Some(e) => {
                    proof {
                        lemma_first_match_bounds(xml_text@, "</dataSource>"@, s as int, xml_text@.len() as int);
                    }
                    let name = chars_of("name");
                    match skd_edit_child_text_range(xml_text, (s, e), &name) {
                        Ok((a, b)) => {
                            let v = slice_to_vec(xml_text, a, b);
                            Some(trim_chars(&v))
                        },
                        Err(_) => None,
                    }
                },
            }
        },
    }
}

/// The `<dcsset:settings>…</dcsset:settings>` element of the selected variant.
pub open spec fn settings_element_range(t: Seq<char>, variant: Seq<char>) -> Result<(int, int), Seq<char>> {
    match variant_range(t, variant) {
        Err(e) => Err(e),
        Ok((v0, v1)) => match first_match(t, "<dcsset:settings"@, v0, v1) {
            None => Err("No <dcsset:settings> found in variant"@),
            Some(s) => match first_match(t, "</dcsset:settings>"@, s, v1) {
                None => Err("No </dcsset:settings> found in variant"@),
                Some(c) => Ok((s, c + "</dcsset:settings>"@.len())),
            },
        },
    }
}

pub fn skd_edit_settings_element_range(xml_text: &[char], variant: &[char]) -> (r: Result<(usize, usize), Vec<char>>)
    ensures
        range_result(r) == settings_element_range(xml_text@, variant@),
        r matches Ok((s, e)) ==> s < e <= xml_text@.len(),
{
    proof {
        reveal_strlit("</dcsset:settings>");
        reveal_strlit("<dcsset:settings");
    }
    let (v0, v1) = match skd_edit_variant_range(xml_text, variant) {
        Err(e) => {
            return Err(e);
        },
        Ok(r) => r,
    };
    match find_str(xml_text, "<dcsset:settings", v0, v1) {
        None => Err(chars_of("No <dcsset:settings> found in variant")),
        Some(s) => {
            proof {
                lemma_first_match_bounds(xml_text@, "<dcsset:settings"@, v0 as int, v1 as int);
            }
            match find_str(xml_text, "</dcsset:settings>", s, v1) {
                None => Err(chars_of("No </dcsset:settings> found in variant")),
                Some(c) => {
                    proof {
                        lemma_first_match_bounds(xml_text@, "</dcsset:settings>"@, s as int, v1 as int);
                    }
                    Ok((s, c + 18))
                },
            }
        },
    }
}

/// The content of the settings element: from after its start tag to before
/// `</dcsset:settings>`. A settings element with no `>` before its end tag is
/// malformed.
pub open spec fn settings_content_range(t: Seq<char>, variant: Seq<char>) -> Result<(int, int), Seq<char>> {
    match settings_element_range(t, variant) {
        Err(e) => Err(e),
        Ok((s0, s1)) => match first_match(t, ">"@, s0, s1) {
            None => Err("Malformed <dcsset:settings> element"@),
            Some(o) => if o + 1 > s1 - "</dcsset:settings>"@.len() {
                Err("Malformed <dcsset:settings> element"@)
            } else {
                Ok((o + 1, s1 - "</dcsset:settings>"@.len()))
            },
        },
    }
}

pub fn skd_edit_settings_content_range(xml_text: &[char], variant: &[char]) -> (r: Result<(usize, usize), Vec<char>>)
    ensures
        range_result(r) == settings_content_range(xml_text@, variant@),
        r matches Ok((s, e)) ==> s <= e <= xml_text@.len(),
{
    proof {
        reveal_strlit("</dcsset:settings>");
        reveal_strlit(">");
    }
    let (s0, s1) = match skd_edit_settings_element_range(xml_text, variant) {
        Err(e) => {
            return Err(e);
        },
        Ok(r) => r,
    };
    match find_str(xml_text, ">", s0, s1) {
        None => Err(chars_of("Malformed <dcsset:settings> element")),
        Some(o) => {
            proof {
                lemma_first_match_bounds(xml_text@, ">"@, s0 as int, s1 as int);
            }
            if s1 < 18 || o + 1 > s1 - 18 {
                Err(chars_of("Malformed <dcsset:settings> element"))
            } else {
                Ok((o + 1, s1 - 18))
            }
        },
    }
}

/// An element's extent: its start, the end of its start tag, the start of its
/// end tag and its end (the last two equal the second for a self-closing tag).
pub struct SkdEditElementRange {
    pub start: usize,
    pub open_end: usize,
    pub close_start: usize,
    pub end: usize,
    pub self_closing: bool,
}

pub open spec fn element_view(r: SkdEditElementRange) -> (int, int, int, int, bool) {
    (r.start as int, r.open_end as int, r.close_start as int, r.end as int, r.self_closing)
}

pub open spec fn element_result(r: Result<SkdEditElementRange, Vec<char>>) -> Result<(int, int, int, int, bool), Seq<char>> {
    match r {
        Ok(x) => Ok(element_view(x)),
        Err(e) => Err(e@),
    }
}

/// The extent of the element starting at `start` whose start tag ends before
/// `limit` at the first `>`; a start tag that is not self-closing is matched by
/// the first `close` after it. `None` and `Some(Err(..))` mark the missing `>`
/// and the missing end tag.
pub open spec fn element_from(t: Seq<char>, start: int, limit: int, close: Seq<char>) -> Option<Option<(int, int, int, int, bool)>> {
    match first_match(t, ">"@, start, limit) {
        None => None,
        Some(o) => {
            let open_end = o + 1;
            if self_closing_tag(t, start, open_end) {
                Some(Some((start, open_end, open_end, open_end, true)))
            } else {
                match first_match(t, close, open_end, limit) {
                    None => Some(None),
                    Some(c) => Some(Some((start, open_end, c, c + close.len(), false))),
                }
            }
        },
    }
}

pub fn element_from_exec(t: &[char], start: usize, limit: usize, close: &[char]) -> (r: Option<Option<SkdEditElementRange>>)
    requires
        start <= limit <= t@.len(),
    ensures
        match r {
            None => element_from(t@, start as int, limit as int, close@) is None,
            Some(None) => element_from(t@, start as int, limit as int, close@) == Some(
                None::<(int, int, int, int, bool)>,
            ),
            Some(Some(x)) => element_from(t@, start as int, limit as int, close@) == Some(
                Some(element_view(x)),
            ) && start <= x.open_end <= x.close_start <= x.end <= limit,
        },
{
    proof {
        reveal_strlit(">");
    }
    match find_str(t, ">", start, limit) {
        None => None,
        Some(o) => {
            proof {
                lemma_first_match_bounds(t@, ">"@, start as int, limit as int);
            }
            let open_end = o + 1;
            if is_self_closing_tag(t, start, open_end) {
                return Some(
                    Some(
                        SkdEditElementRange {
                            start,
                            open_end,
                            close_start: open_end,
                            end: open_end,
                            self_closing: true,
                        },
                    ),
                );
            }
            match find_in(t, close, open_end, limit) {
                None => Some(None),
                Some(c) => {
                    proof {
                        lemma_first_match_bounds(t@, close@, open_end as int, limit as int);
                    }
                    Some(
                        Some(
                            SkdEditElementRange {
                                start,
                                open_end,
                                close_start: c,
                                end: c + close.len(),
                                self_closing: false,
                            },
                        ),
                    )
                },
            }
        },
    }
}

/// The `<{container}>` section among the settings of a variant: the first one
/// that starts a line indented one tab deeper than the settings element.
pub open spec fn prefixed_container_range(t: Seq<char>, variant: Seq<char>, container: Seq<char>) -> Result<(int, int, int, int, bool), Seq<char>> {
    match settings_element_range(t, variant) {
        Err(e) => Err(e),
        Ok((e0, _)) => match settings_content_range(t, variant) {
            Err(e) => Err(e),
            Ok((c0, c1)) => {
                let child_indent = line_indent(t, e0) + "\t"@;
                let open_prefix = "\n"@ + child_indent + "<"@ + container;
                match first_match(t, open_prefix, c0, c1) {
                    None => Err("No <"@ + container + "> section found in DCS"@),
                    Some(o) => match element_from(t, o + 1 + child_indent.len(), c1, "</"@ + container + ">"@) {
                        None => Err("Malformed <"@ + container + "> section in DCS"@),
                        Some(None) => Err("No </"@ + container + "> section found in DCS"@),
                        Some(Some(x)) => Ok(x),
                    },
                }
            },
        },
    }
}

pub fn skd_edit_prefixed_container_range(xml_text: &[char], variant: &[char], container: &[char]) -> (r: Result<SkdEditElementRange, Vec<char>>)
    ensures
        element_result(r) == prefixed_container_range(xml_text@, variant@, container@),
        r matches Ok(x) ==> x.start <= x.open_end <= x.close_start <= x.end <= xml_text@.len(),
{
    proof {
        reveal_strlit("\n");
        reveal_strlit("\t");
        reveal_strlit("<");
    }
    let (e0, _) = match skd_edit_settings_element_range(xml_text, variant) {
        Err(e) => {
            return Err(e);
        },
        Ok(r) => r,
    };
    let (c0, c1) = match skd_edit_settings_content_range(xml_text, variant) {
        Err(e) => {
            return Err(e);
        },
        Ok(r) => r,
    };
    let mut child_indent = skd_edit_line_indent(xml_text, e0);
    crate::text::push_str(&mut child_indent, "\t");
    let mut open_prefix = chars_of("\n");
    crate::text::push_chars(&mut open_prefix, &child_indent);
    crate::text::push_str(&mut open_prefix, "<");
    crate::text::push_chars(&mut open_prefix, container);
    match find_in(xml_text, &open_prefix, c0, c1) {
        None => Err(enclose("No <", container, "> section found in DCS")),
        Some(o) => {
            proof {
                lemma_first_match_bounds(xml_text@, open_prefix@, c0 as int, c1 as int);
            }
            let close = enclose("</", container, ">");
            match element_from_exec(xml_text, o + 1 + child_indent.len(), c1, &close) {
                None => Err(enclose("Malformed <", container, "> section in DCS")),
                Some(None) => Err(enclose("No </", container, "> section found in DCS")),
                Some(Some(x)) => Ok(x),
            }
        },
    }
}

pub open spec fn opt_element_result(r: Result<Option<SkdEditElementRange>, Vec<char>>) -> Result<Option<(int, int, int, int, bool)>, Seq<char>> {
    match r {
        Ok(Some(x)) => Ok(Some(element_view(x))),
        Ok(None) => Ok(None),
        Err(e) => Err(e@),
    }
}

/// The `<dcsset:groupItems>` element inside a structure group, if it has one.
pub open spec fn group_items_range(t: Seq<char>, group: (int, int)) -> Result<Option<(int, int, int, int, bool)>, Seq<char>> {
    match first_match(t, "<dcsset:groupItems"@, group.0, group.1) {
        None => Ok(None),
        Some(s) => match element_from(t, s, group.1, "</dcsset:groupItems>"@) {
            None => Err("Malformed <dcsset:groupItems> element"@),
            Some(None) => Err("No </dcsset:groupItems> element found"@),
            Some(Some(x)) => Ok(Some(x)),
        },
    }
}

pub fn skd_edit_find_group_items_range(xml_text: &[char], group_range: (usize, usize)) -> (r: Result<Option<SkdEditElementRange>, Vec<char>>)
    requires
        group_range.0 <= group_range.1 <= xml_text@.len(),
    ensures
        opt_element_result(r) == group_items_range(xml_text@, (group_range.0 as int, group_range.1 as int)),
        r matches Ok(Some(x)) ==> group_range.0 <= x.start <= x.open_end <= x.close_start <= x.end
            <= group_range.1,
{
    match find_str(xml_text, "<dcsset:groupItems", group_range.0, group_range.1) {
        None => Ok(None),
        Some(s) => {
            proof {
                lemma_first_match_bounds(xml_text@, "<dcsset:groupItems"@, group_range.0 as int, group_range.1 as int);
            }
            let close = chars_of("</dcsset:groupItems>");
            match element_from_exec(xml_text, s, group_range.1, &close) {
                None => Err(chars_of("Malformed <dcsset:groupItems> element")),
                Some(None) => Err(chars_of("No </dcsset:groupItems> element found")),
                Some(Some(x)) => Ok(Some(x)),
            }
        },
    }
}

/// Whether an element `<{item}…>…</{item}>` holds `<{child}>{key}</{child}>`
/// (the key escaped), scanning the items from the start of the text.
pub open spec fn top_level_contains(t: Seq<char>, item: Seq<char>, child: Seq<char>, key: Seq<char>) -> bool {
    block_scan(
        t,
        "<"@ + item,
        "</"@ + item + ">"@,
        seq!["<"@ + child + ">"@ + escape_xml(key) + "</"@ + child + ">"@],
        false,
        0,
    ) is Found
}

pub fn skd_edit_top_level_contains(xml_text: &[char], item: &[char], child: &[char], key: &[char]) -> (b: bool)
    ensures
        b == top_level_contains(xml_text@, item@, child@, key@),
{
    proof {
        reveal_strlit("</");
    }
    let open = enclose("<", item, "");
    let close = enclose("</", item, ">");
    proof {
        reveal_strlit("");
        assert(open@ =~= "<"@ + item@);
    }
    let esc = escape_xml_exec(key);
    let mut probe = enclose("<", child, ">");
    crate::text::push_chars(&mut probe, &esc);
    crate::text::push_chars(&mut probe, &enclose("</", child, ">"));
    assert(probe@ =~= "<"@ + child@ + ">"@ + escape_xml(key@) + "</"@ + child@ + ">"@);
    let mut probes: Vec<Vec<char>> = Vec::new();
    probes.push(probe);
    assert(views(probes@) =~= seq!["<"@ + child@ + ">"@ + escape_xml(key@) + "</"@ + child@ + ">"@]);
    match block_scan_exec(xml_text, &open, &close, &probes, false) {
        BlockSearch::Found(_, _) => true,
        _ => false,
    }
}

pub proof fn lemma_element_end_bounds(t: Seq<char>, start: int, limit: int, tag: Seq<char>)
    ensures
        element_end(t, start, limit, tag) matches Some(e) ==> start < e <= limit,
{
    reveal_strlit(">");
    reveal_strlit("</");
    lemma_first_match_bounds(t, ">"@, start, limit);
    match first_match(t, ">"@, start, limit) {
        None => {},
        Some(e) => {
            if !self_closing_tag(t, start, e + 1) {
                lemma_nest_scan_bounds(t, limit, "<"@ + tag, "</"@ + tag + ">"@, e + 1, 1);
            }
        },
    }
}

/// From `cursor`: for each line-start `needle` (`\n\t<{item}`), the end of that
/// element; the last such end (`last` when none is left), or `None` as soon as
/// one of them has no end.
pub open spec fn last_top_end_from(t: Seq<char>, needle: Seq<char>, item: Seq<char>, cursor: int, last: Option<int>) -> Option<int>
    decreases t.len() - cursor,
    when 0 <= cursor
{
    match first_match(t, needle, cursor, t.len() as int) {
        None => last,
        Some(r) => {
            proof {
                lemma_first_match_bounds(t, needle, cursor, t.len() as int);
                lemma_element_end_bounds(t, r + 1, t.len() as int, item);
            }
            match element_end(t, r + 1, t.len() as int, item) {
                None => None,
                Some(e) => last_top_end_from(t, needle, item, e, Some(e)),
            }
        },
    }
}

/// The end of the last top-level `item` element (one that starts a line after
/// a single tab).
pub open spec fn last_top_level_block_end(t: Seq<char>, item: Seq<char>) -> Option<int> {
    last_top_end_from(t, "\n\t<"@ + item, item, 0, None)
}

pub fn skd_edit_last_top_level_block_end(xml_text: &[char], item: &[char]) -> (r: Option<usize>)
    ensures
        opt_int(r) == last_top_level_block_end(xml_text@, item@),
        r matches Some(e) ==> e <= xml_text@.len(),
{
    let needle = enclose("\n\t<", item, "");
    proof {
        reveal_strlit("");
        reveal_strlit("\n\t<");
        assert(needle@ =~= "\n\t<"@ + item@);
    }
    let mut cursor: usize = 0;
    let mut last: Option<usize> = None;
    loop
        invariant
            cursor <= xml_text@.len(),
            needle@ == "\n\t<"@ + item@,
            needle@.len() > 0,
            last matches Some(e) ==> e <= xml_text@.len(),
            last_top_level_block_end(xml_text@, item@) == last_top_end_from(
                xml_text@,
                needle@,
                item@,
                cursor as int,
                opt_int(last),
            ),
        decreases xml_text.len() - cursor,
    {
        match find_in(xml_text, &needle, cursor, xml_text.len()) {
            None => {
                return last;
            },
            Some(rel) => {
                proof {
                    lemma_first_match_bounds(xml_text@, needle@, cursor as int, xml_text@.len() as int);
                }
                match skd_edit_matching_element_end(xml_text, rel + 1, xml_text.len(), item) {
                    None => {
                        return None;
                    },
                    Some(e) => {
                        last = Some(e);
                        cursor = e;
                    },
                }
            },
        }
    }
}

/// From `cursor`, the text after an `open` that has an attribute (`<{child} `):
/// whether one such element's text, trimmed, equals `esc`. The scan stops at
/// the first element with no `>` or no end tag.
pub open spec fn attr_child_scan(b: Seq<char>, open: Seq<char>, close: Seq<char>, esc: Seq<char>, cursor: int) -> bool
    decreases b.len() - cursor,
    when close.len() > 0 && 0 <= cursor
{
    match first_match(b, open, cursor, b.len() as int) {
        None => false,
        Some(s) => match first_match(b, ">"@, s, b.len() as int) {
            None => false,
            Some(oe) => match first_match(b, close, oe + 1, b.len() as int) {
                None => false,
                Some(te) => {
                    proof {
                        reveal_strlit(">");
                        lemma_first_match_bounds(b, open, cursor, b.len() as int);
                        lemma_first_match_bounds(b, ">"@, s, b.len() as int);
                        lemma_first_match_bounds(b, close, oe + 1, b.len() as int);
                    }
                    trim(b.subrange(oe + 1, te)) == esc || attr_child_scan(b, open, close, esc, te + close.len())
                },
            },
        },
    }
}

/// A block holds a `child` element whose text is `value` (escaped): written
/// exactly as `<child>value</child>`, or with attributes and surrounding
/// whitespace.
pub open spec fn block_has_child_text(block: Seq<char>, child: Seq<char>, value: Seq<char>) -> bool {
    let esc = escape_xml(value);
    contains(block, "<"@ + child + ">"@ + esc + "</"@ + child + ">"@) || attr_child_scan(
        block,
        "<"@ + child + " "@,
        "</"@ + child + ">"@,
        esc,
        0,
    )
}

pub fn skd_edit_block_has_child_text(block: &[char], child: &[char], value: &[char]) -> (b: bool)
    ensures
        b == block_has_child_text(block@, child@, value@),
{
    proof {
        reveal_strlit("</");
        reveal_strlit(">");
    }
    let esc = escape_xml_exec(value);
    let mut exact = enclose("<", child, ">");
    crate::text::push_chars(&mut exact, &esc);
    crate::text::push_chars(&mut exact, &enclose("</", child, ">"));
    assert(exact@ =~= "<"@ + child@ + ">"@ + esc@ + "</"@ + child@ + ">"@);
    if contains_chars(block, &exact) {
        return true;
    }
    let open = enclose("<", child, " ");
    let close = enclose("</", child, ">");
    let gt = chars_of(">");
    let mut cursor: usize = 0;
    loop
        invariant
            cursor <= block@.len(),
            close@.len() > 0,
            gt@ == ">"@,
            gt@.len() == 1,
            esc@ == escape_xml(value@),
            open@ == "<"@ + child@ + " "@,
            close@ == "</"@ + child@ + ">"@,
            !contains(block@, "<"@ + child@ + ">"@ + esc@ + "</"@ + child@ + ">"@),
            block_has_child_text(block@, child@, value@) == attr_child_scan(
                block@,
                open@,
                close@,
                esc@,
                cursor as int,
            ),
        decreases block.len() - cursor,
    {
        let s = match find_in(block, &open, cursor, block.len()) {
            None => {
                return false;
            },
            Some(s) => s,
        };
        proof {
            lemma_first_match_bounds(block@, open@, cursor as int, block@.len() as int);
        }
        let oe = match find_in(block, &gt, s, block.len()) {
            None => {
                return false;
            },
            Some(oe) => oe,
        };
        proof {
            lemma_first_match_bounds(block@, gt@, s as int, block@.len() as int);
        }
        let te = match find_in(block, &close, oe + 1, block.len()) {
            None => {
                return false;
            },
            Some(te) => te,
        };
        proof {
            lemma_first_match_bounds(block@, close@, oe + 1, block@.len() as int);
        }
        let inner = slice_to_vec(block, oe + 1, te);
        let trimmed = trim_chars(&inner);
        if crate::text::eq_chars(&trimmed, &esc) {
            return true;
        }
        cursor = te + close.len();
    }
}

/// From `cursor` (before `limit`): the first `item` element whose block has the
/// `child` text `value`; `None` when none is left or an element has no end.
pub open spec fn item_by_child_from(
    t: Seq<char>,
    limit: int,
    item: Seq<char>,
    child: Seq<char>,
    value: Seq<char>,
    cursor: int,
) -> Option<(int, int)>
    decreases limit - cursor,
{
    if cursor >= limit {
        None
    } else {
        match first_match(t, "<"@ + item, cursor, limit) {
            None => None,
            Some(s) => {
                proof {
                    lemma_first_match_bounds(t, "<"@ + item, cursor, limit);
                    lemma_element_end_bounds(t, s, limit, item);
                }
                match element_end(t, s, limit, item) {
                    None => None,
                    Some(e) => if block_has_child_text(t.subrange(s, e), child, value) {
                        Some((s, e))
                    } else {
                        item_by_child_from(t, limit, item, child, value, e)
                    },
                }
            },
        }
    }
}

pub proof fn lemma_item_by_child_from(
    t: Seq<char>,
    limit: int,
    item: Seq<char>,
    child: Seq<char>,
    value: Seq<char>,
    cursor: int,
)
    ensures
        item_by_child_from(t, limit, item, child, value, cursor) matches Some((s, e)) ==> cursor
            <= s < e <= limit,
    decreases limit - cursor,
{
    if cursor < limit {
        lemma_first_match_bounds(t, "<"@ + item, cursor, limit);
        match first_match(t, "<"@ + item, cursor, limit) {
            None => {},
            Some(s) => {
                lemma_element_end_bounds(t, s, limit, item);
                match element_end(t, s, limit, item) {
                    None => {},
                    Some(e) => if !block_has_child_text(t.subrange(s, e), child, value) {
                        lemma_item_by_child_from(t, limit, item, child, value, e);
                    },
                }
            },
        }
    }
}

pub fn skd_edit_find_item_by_child(
    xml_text: &[char],
    range: (usize, usize),
    item: &[char],
    child: &[char],
    value: &[char],
) -> (r: Option<(usize, usize)>)
    requires
        range.0 <= range.1 <= xml_text@.len(),
    ensures
        opt_range(r) == item_by_child_from(xml_text@, range.1 as int, item@, child@, value@, range.0 as int),
        r matches Some((s, e)) ==> range.0 <= s < e <= range.1,
{
    proof {
        reveal_strlit("");
        lemma_item_by_child_from(xml_text@, range.1 as int, item@, child@, value@, range.0 as int);
    }
    let open = enclose("<", item, "");
    assert(open@ =~= "<"@ + item@);
    let ghost target = item_by_child_from(xml_text@, range.1 as int, item@, child@, value@, range.0 as int);
    let mut cursor = range.0;
    while cursor < range.1
        invariant
            range.0 <= cursor,
            range.1 <= xml_text@.len(),
            open@ == "<"@ + item@,
            target == item_by_child_from(xml_text@, range.1 as int, item@, child@, value@, range.0 as int),
            target == item_by_child_from(xml_text@, range.1 as int, item@, child@, value@, cursor as int),
            target matches Some((s, e)) ==> range.0 <= s < e <= range.1,
        decreases range.1 - cursor,
    {
        let s = match find_in(xml_text, &open, cursor, range.1) {
            None => {
                return None;
            },
            Some(s) => s,
        };
        proof {
            lemma_first_match_bounds(xml_text@, open@, cursor as int, range.1 as int);
        }
        let e = match skd_edit_matching_element_end(xml_text, s, range.1, item) {
            None => {
                return None;
            },
            Some(e) => e,
        };
        let block = slice_to_vec(xml_text, s, e);
        if skd_edit_block_has_child_text(&block, child, value) {
            return Some((s, e));
        }
        cursor = e;
    }
    None
}

/// Where the root parameters end: the first settings variant on its own line,
/// else the root's end tag, else the end of the text.
pub open spec fn parameter_limit(t: Seq<char>) -> int {
    match first_match(t, "\n\t<settingsVariant"@, 0, t.len() as int) {
        Some(i) => i,
        None => match first_match(t, "</DataCompositionSchema>"@, 0, t.len() as int) {
            Some(i) => i,
            None => t.len() as int,
        },
    }
}

pub fn skd_edit_parameter_limit(xml_text: &[char]) -> (r: usize)
    ensures
        r as int == parameter_limit(xml_text@),
        r <= xml_text@.len(),
{
    proof {
        lemma_first_match_bounds(xml_text@, "\n\t<settingsVariant"@, 0, xml_text@.len() as int);
        lemma_first_match_bounds(xml_text@, "</DataCompositionSchema>"@, 0, xml_text@.len() as int);
    }
    match find_str(xml_text, "\n\t<settingsVariant", 0, xml_text.len()) {
        Some(i) => i,
        None => match find_str(xml_text, "</DataCompositionSchema>", 0, xml_text.len()) {
            Some(i) => i,
            None => xml_text.len(),
        },
    }
}

/// The range of the root `parameter` element named `name`.
pub closed spec fn parameter_range(t: Seq<char>, name: Seq<char>) -> Option<(int, int)> {
    item_by_child_from(t, parameter_limit(t), "parameter"@, "name"@, name, 0)
}

pub fn skd_edit_parameter_range(xml_text: &[char], name: &[char]) -> (r: Option<(usize, usize)>)
    ensures
        opt_range(r) == parameter_range(xml_text@, name@),
        r matches Some((s, e)) ==> s < e <= xml_text@.len(),
{
    let limit = skd_edit_parameter_limit(xml_text);
    let item = chars_of("parameter");
    let child = chars_of("name");
    skd_edit_find_item_by_child(xml_text, (0, limit), &item, &child, name)
}

/// The declared `v8:Type` of a parameter block, or empty.
pub closed spec fn parameter_declared_type(t: Seq<char>, range: (int, int)) -> Seq<char> {
    match child_element_range(t, range, "valueType"@) {
        None => Seq::empty(),
        Some(vt) => match child_text(t, vt, "v8:Type"@) {
            Some(x) => x,
            None => Seq::empty(),
        },
    }
}

pub fn skd_edit_parameter_declared_type(xml_text: &[char], range: (usize, usize)) -> (r: Vec<char>)
    ensures
        r@ == parameter_declared_type(xml_text@, (range.0 as int, range.1 as int)),
{
    let vt = chars_of("valueType");
    match skd_edit_child_element_range(xml_text, range, &vt) {
        None => Vec::new(),
        Some((a, b)) => {
            let ty = chars_of("v8:Type");
            match skd_edit_child_text_range(xml_text, (a, b), &ty) {
                Ok((x, y)) => {
                    let v = slice_to_vec(xml_text, x, y);
                    trim_chars(&v)
                },
                Err(_) => Vec::new(),
            }
        },
    }
}

/// The groups of a structure that carry a name, with their grouping fields,
/// in document order (a group before the groups nested in it).
pub open spec fn structure_targets(item: SkdEditStructureItem) -> Seq<(Seq<char>, Seq<Seq<char>>)>
    decreases item, 1int, 0int,
{
    let own = match item.name {
        Some(n) => seq![(n@, views(item.group_by@))],
        None => Seq::empty(),
    };
    own + children_targets(item, 0)
}

/// The named groups in the children of `item` from the `i`-th on.
pub open spec fn children_targets(item: SkdEditStructureItem, i: int) -> Seq<(Seq<char>, Seq<Seq<char>>)>
    decreases item, 0int, item.children@.len() - i,
{
    if i < 0 || i >= item.children@.len() {
        Seq::empty()
    } else {
        proof {
            assert(decreases_to!(item => item.children));
            assert(decreases_to!(item.children => item.children@));
            assert(decreases_to!(item.children@ => item.children@[i]));
        }
        structure_targets(item.children@[i]) + children_targets(item, i + 1)
    }
}

pub open spec fn target_views(v: Seq<(Vec<char>, Vec<Vec<char>>)>) -> Seq<(Seq<char>, Seq<Seq<char>>)> {
    v.map_values(|x: (Vec<char>, Vec<Vec<char>>)| (x.0@, views(x.1@)))
}

/// Appends the named groups of a structure, with their grouping fields.
pub fn skd_edit_collect_structure_targets(item: &SkdEditStructureItem, targets: &mut Vec<(Vec<char>, Vec<Vec<char>>)>)
    ensures
        target_views(final(targets)@) == target_views(old(targets)@) + structure_targets(*item),
    decreases item, 1int, 0int,
{
    let ghost start = target_views(targets@);
    match &item.name {
        Some(n) => {
            let entry = (crate::text::to_vec(n), copy_texts(&item.group_by));
            targets.push(entry);
            assert(target_views(targets@) =~= start + seq![(n@, views(item.group_by@))]);
        },
        None => {
            assert(target_views(targets@) =~= start + Seq::<(Seq<char>, Seq<Seq<char>>)>::empty());
        },
    }
    collect_children_targets(item, 0, targets);
    assert(target_views(targets@) =~= start + structure_targets(*item));
}

fn collect_children_targets(item: &SkdEditStructureItem, i: usize, targets: &mut Vec<(Vec<char>, Vec<Vec<char>>)>)
    ensures
        target_views(final(targets)@) == target_views(old(targets)@) + children_targets(*item, i as int),
    decreases item, 0int, item.children@.len() - i,
{
    if i >= item.children.len() {
        assert(target_views(targets@) =~= target_views(targets@) + Seq::<(Seq<char>, Seq<Seq<char>>)>::empty());
        return;
    }
    let ghost start = target_views(targets@);
    proof {
        assert(decreases_to!(item => item.children));
        assert(decreases_to!(item.children => item.children@));
        assert(decreases_to!(item.children@ => item.children@[i as int]));
    }
    skd_edit_collect_structure_targets(&item.children[i], targets);
    collect_children_targets(item, i + 1, targets);
    assert(target_views(targets@) =~= start + children_targets(*item, i as int));
}

/// The first `<{child}` element in the parent range, with its extent.
pub open spec fn prefixed_child_range(t: Seq<char>, parent: (int, int), child: Seq<char>) -> Result<Option<(int, int, int, int, bool)>, Seq<char>> {
    match first_match(t, "<"@ + child, parent.0, parent.1) {
        None => Ok(None),
        Some(s) => match element_from(t, s, parent.1, "</"@ + child + ">"@) {
            None => Err("Malformed <"@ + child + "> element"@),
            Some(None) => Err("No closing </"@ + child + "> found"@),
            Some(Some(x)) => Ok(Some(x)),
        },
    }
}

pub fn skd_edit_find_prefixed_child_range(xml_text: &[char], parent_range: (usize, usize), child: &[char]) -> (r: Result<Option<SkdEditElementRange>, Vec<char>>)
    requires
        parent_range.0 <= parent_range.1 <= xml_text@.len(),
    ensures
        opt_element_result(r) == prefixed_child_range(xml_text@, (parent_range.0 as int, parent_range.1 as int), child@),
        r matches Ok(Some(x)) ==> parent_range.0 <= x.start <= x.open_end <= x.close_start <= x.end
            <= parent_range.1,
{
    proof {
        reveal_strlit("");
    }
    let open = enclose("<", child, "");
    assert(open@ =~= "<"@ + child@);
    match find_in(xml_text, &open, parent_range.0, parent_range.1) {
        None => Ok(None),
        Some(s) => {
            proof {
                lemma_first_match_bounds(xml_text@, open@, parent_range.0 as int, parent_range.1 as int);
            }
            let close = enclose("</", child, ">");
            match element_from_exec(xml_text, s, parent_range.1, &close) {
                None => Err(enclose("Malformed <", child, "> element")),
                Some(None) => Err(enclose("No closing </", child, "> found")),
                Some(Some(x)) => Ok(Some(x)),
            }
        },
    }
}

/// Inside the settings content `(c0, c1)`, from `cursor`: the structure group
/// (the nearest group start before the name) whose element holds the first
/// occurrence of the name probe after `cursor`.
pub open spec fn named_group_from(t: Seq<char>, c0: int, c1: int, probe: Seq<char>, cursor: int) -> Result<Option<(int, int)>, Seq<char>>
    decreases c1 - cursor,
    when probe.len() > 0
{
    match first_match(t, probe, cursor, c1) {
        None => Ok(None),
        Some(ns) => {
            proof {
                lemma_first_match_bounds(t, probe, cursor, c1);
            }
            match last_match(t, "<dcsset:item xsi:type=\"dcsset:StructureItemGroup\""@, c0, ns) {
                None => named_group_from(t, c0, c1, probe, ns + probe.len()),
                Some(start) => match dcsset_item_end(t, start, c1) {
                    None => Err("No closing </dcsset:item> found for structure item"@),
                    Some(end) => if end > ns {
                        Ok(Some((start, end)))
                    } else {
                        named_group_from(t, c0, c1, probe, ns + probe.len())
                    },
                },
            }
        },
    }
}

/// The structure group named `name` in the settings of the variant.
pub open spec fn named_structure_group(t: Seq<char>, variant: Seq<char>, name: Seq<char>) -> Result<Option<(int, int)>, Seq<char>> {
    match settings_content_range(t, variant) {
        Err(e) => Err(e),
        Ok((c0, c1)) => named_group_from(t, c0, c1, "<dcsset:name>"@ + escape_xml(name) + "</dcsset:name>"@, c0),
    }
}

pub open spec fn opt_range_result(r: Result<Option<(usize, usize)>, Vec<char>>) -> Result<Option<(int, int)>, Seq<char>> {
    match r {
        Ok(o) => Ok(opt_range(o)),
        Err(e) => Err(e@),
    }
}

pub fn skd_edit_find_named_structure_group(xml_text: &[char], variant: &[char], name: &[char]) -> (r: Result<Option<(usize, usize)>, Vec<char>>)
    ensures
        opt_range_result(r) == named_structure_group(xml_text@, variant@, name@),
        r matches Ok(Some((s, e))) ==> s < e <= xml_text@.len(),
{
    proof {
        reveal_strlit("<dcsset:name>");
    }
    let (c0, c1) = match skd_edit_settings_content_range(xml_text, variant) {
        Err(e) => {
            return Err(e);
        },
        Ok(r) => r,
    };
    let probe = wrap_name("<dcsset:name>", name, "</dcsset:name>");
    let open_probe = chars_of("<dcsset:item xsi:type=\"dcsset:StructureItemGroup\"");
    let mut cursor = c0;
    loop
        invariant
            c0 <= c1 <= xml_text@.len(),
            c0 <= cursor,
            probe@.len() > 0,
            open_probe@ == "<dcsset:item xsi:type=\"dcsset:StructureItemGroup\""@,
            named_structure_group(xml_text@, variant@, name@) == named_group_from(
                xml_text@,
                c0 as int,
                c1 as int,
                probe@,
                cursor as int,
            ),
        decreases c1 - cursor,
    {
        let ns = match find_in(xml_text, &probe, cursor, c1) {
            None => {
                return Ok(None);
            },
            Some(ns) => ns,
        };
        proof {
            lemma_first_match_bounds(xml_text@, probe@, cursor as int, c1 as int);
        }
        match rfind_in(xml_text, &open_probe, c0, ns) {
            None => {
                cursor = ns + probe.len();
            },
            Some(start) => {
                proof {
                    lemma_last_match_bounds(xml_text@, open_probe@, c0 as int, ns as int);
                }
                match skd_edit_matching_dcsset_item_end(xml_text, start, c1) {
                    None => {
                        return Err(chars_of("No closing </dcsset:item> found for structure item"));
                    },
                    Some(end) => {
                        if end > ns {
                            return Ok(Some((start, end)));
                        }
                        cursor = ns + probe.len();
                    },
                }
            },
        }
    }
}

/// From `offset` (before `to`): the start of the line of the first `<` that
/// does not begin `</dcsset:settings>`.
pub open spec fn next_child_line_from(t: Seq<char>, offset: int, to: int) -> Option<int>
    decreases to - offset,
{
    if offset >= to {
        None
    } else {
        match first_match(t, "<"@, offset, to) {
            None => None,
            Some(pos) => {
                proof {
                    reveal_strlit("<");
                    lemma_first_match_bounds(t, "<"@, offset, to);
                }
                if !matches_at(t, "</dcsset:settings>"@, pos) {
                    Some(line_start(t, pos))
                } else {
                    next_child_line_from(t, pos + 1, to)
                }
            },
        }
    }
}

pub fn skd_edit_next_settings_child_line_start(xml_text: &[char], from: usize, to: usize) -> (r: Option<usize>)
    requires
        to <= xml_text@.len(),
    ensures
        opt_int(r) == next_child_line_from(xml_text@, from as int, to as int),
        r matches Some(p) ==> p <= to,
{
    proof {
        reveal_strlit("<");
    }
    let lt = chars_of("<");
    let close = chars_of("</dcsset:settings>");
    let mut offset = from;
    while offset < to
        invariant
            to <= xml_text@.len(),
            from <= offset,
            lt@ == "<"@,
            lt@.len() == 1,
            close@ == "</dcsset:settings>"@,
            next_child_line_from(xml_text@, from as int, to as int) == next_child_line_from(
                xml_text@,
                offset as int,
                to as int,
            ),
        decreases to - offset,
    {
        let pos = match find_in(xml_text, &lt, offset, to) {
            None => {
                return None;
            },
            Some(p) => p,
        };
        proof {
            lemma_first_match_bounds(xml_text@, lt@, offset as int, to as int);
        }
        if !matches_at_exec(xml_text, &close, pos) {
            return Some(skd_edit_line_start(xml_text, pos));
        }
        offset = pos + 1;
    }
    None
}

/// The settings sections that come after `container` in a variant, nearest
/// first.
pub open spec fn after_siblings(container: Seq<char>) -> Seq<Seq<char>> {
    if container == "dcsset:filter"@ {
        seq!["dcsset:selection"@]
    } else if container == "dcsset:outputParameters"@ {
        seq!["dcsset:conditionalAppearance"@, "dcsset:order"@, "dcsset:filter"@, "dcsset:selection"@]
    } else if container == "dcsset:dataParameters"@ {
        seq![
            "dcsset:outputParameters"@,
            "dcsset:conditionalAppearance"@,
            "dcsset:order"@,
            "dcsset:filter"@,
            "dcsset:selection"@,
        ]
    } else if container == "dcsset:conditionalAppearance"@ {
        seq!["dcsset:outputParameters"@, "dcsset:order"@, "dcsset:filter"@, "dcsset:selection"@]
    } else if container == "dcsset:order"@ {
        seq!["dcsset:filter"@, "dcsset:selection"@]
    } else {
        Seq::empty()
    }
}

pub fn skd_edit_settings_container_after_siblings(container: &[char]) -> (r: &'static [&'static str])
    ensures
        lit_views(r@) == after_siblings(container@),
{
    if eq_str(container, "dcsset:filter") {
        let r: &'static [&'static str] = &["dcsset:selection"];
        assert(lit_views(r@) =~= after_siblings(container@));
        return r;
    }
    if eq_str(container, "dcsset:outputParameters") {
        let r: &'static [&'static str] = &[
            "dcsset:conditionalAppearance",
            "dcsset:order",
            "dcsset:filter",
            "dcsset:selection",
        ];
        assert(lit_views(r@) =~= after_siblings(container@));
        return r;
    }
    if eq_str(container, "dcsset:dataParameters") {
        let r: &'static [&'static str] = &[
            "dcsset:outputParameters",
            "dcsset:conditionalAppearance",
            "dcsset:order",
            "dcsset:filter",
            "dcsset:selection",
        ];
        assert(lit_views(r@) =~= after_siblings(container@));
        return r;
    }
    if eq_str(container, "dcsset:conditionalAppearance") {
        let r: &'static [&'static str] = &[
            "dcsset:outputParameters",
            "dcsset:order",
            "dcsset:filter",
            "dcsset:selection",
        ];
        assert(lit_views(r@) =~= after_siblings(container@));
        return r;
    }
    if eq_str(container, "dcsset:order") {
        let r: &'static [&'static str] = &["dcsset:filter", "dcsset:selection"];
        assert(lit_views(r@) =~= after_siblings(container@));
        return r;
    }
    let r: &'static [&'static str] = &[];
    assert(lit_views(r@) =~= after_siblings(container@));
    r
}

/// The indentation for items of a settings section: one tab deeper than the
/// section when it exists, else two tabs deeper than the settings element.
pub open spec fn container_child_indent(t: Seq<char>, variant: Seq<char>, container: Seq<char>) -> Result<Seq<char>, Seq<char>> {
    match prefixed_container_range(t, variant, container) {
        Ok(x) => Ok(line_indent(t, x.0) + "\t"@),
        Err(_) => match settings_element_range(t, variant) {
            Err(e) => Err(e),
            Ok((s, _)) => Ok(line_indent(t, s) + "\t\t"@),
        },
    }
}

pub open spec fn text_result(r: Result<Vec<char>, Vec<char>>) -> Result<Seq<char>, Seq<char>> {
    match r {
        Ok(v) => Ok(v@),
        Err(e) => Err(e@),
    }
}

pub fn skd_edit_settings_container_child_indent(xml_text: &[char], variant: &[char], container: &[char]) -> (r: Result<Vec<char>, Vec<char>>)
    ensures
        text_result(r) == container_child_indent(xml_text@, variant@, container@),
{
    match skd_edit_prefixed_container_range(xml_text, variant, container) {
        Ok(x) => {
            let mut ind = skd_edit_line_indent(xml_text, x.start);
            crate::text::push_str(&mut ind, "\t");
            Ok(ind)
        },
        Err(_) => match skd_edit_settings_element_range(xml_text, variant) {
            Err(e) => Err(e),
            Ok((s, _)) => {
                let mut ind = skd_edit_line_indent(xml_text, s);
                crate::text::push_str(&mut ind, "\t\t");
                Ok(ind)
            },
        },
    }
}

/// The first of the sibling sections (from the `i`-th) that exists decides
/// where a new section goes: the start of the line of the next child after it.
pub open spec fn sibling_insert_pos(t: Seq<char>, variant: Seq<char>, sibs: Seq<Seq<char>>, c1: int, i: int) -> int
    decreases sibs.len() - i,
{
    if i < 0 || i >= sibs.len() {
        line_start(t, c1)
    } else {
        match prefixed_container_range(t, variant, sibs[i]) {
            Ok(x) => match next_child_line_from(t, x.3, c1) {
                Some(p) => p,
                None => line_start(t, c1),
            },
            Err(_) => sibling_insert_pos(t, variant, sibs, c1, i + 1),
        }
    }
}

/// Where a new settings section `container` is inserted: after the nearest
/// section that follows it in the usual order, else before the end of the
/// settings.
pub open spec fn new_container_insert_pos(t: Seq<char>, variant: Seq<char>, container: Seq<char>) -> Result<int, Seq<char>> {
    match settings_content_range(t, variant) {
        Err(e) => Err(e),
        Ok((_, c1)) => Ok(sibling_insert_pos(t, variant, after_siblings(container), c1, 0)),
    }
}

pub open spec fn pos_result(r: Result<usize, Vec<char>>) -> Result<int, Seq<char>> {
    match r {
        Ok(p) => Ok(p as int),
        Err(e) => Err(e@),
    }
}

pub fn skd_edit_new_settings_container_insert_pos(xml_text: &[char], variant: &[char], container: &[char]) -> (r: Result<usize, Vec<char>>)
    ensures
        pos_result(r) == new_container_insert_pos(xml_text@, variant@, container@),
        r matches Ok(p) ==> p <= xml_text@.len(),
{
    let (_, c1) = match skd_edit_settings_content_range(xml_text, variant) {
        Err(e) => {
            return Err(e);
        },
        Ok(r) => r,
    };
    let sibs = skd_edit_settings_container_after_siblings(container);
    let ghost ss = lit_views(sibs@);
    let mut i: usize = 0;
    while i < sibs.len()
        invariant
            i <= sibs@.len(),
            c1 <= xml_text@.len(),
            ss == lit_views(sibs@),
            ss == after_siblings(container@),
            new_container_insert_pos(xml_text@, variant@, container@) == Ok::<int, Seq<char>>(
                sibling_insert_pos(xml_text@, variant@, ss, c1 as int, i as int),
            ),
        decreases sibs.len() - i,
    {
        let sib = chars_of(sibs[i]);
        match skd_edit_prefixed_container_range(xml_text, variant, &sib) {
            Ok(x) => {
                let p = match skd_edit_next_settings_child_line_start(xml_text, x.end, c1) {
                    Some(p) => p,
                    None => skd_edit_line_start(xml_text, c1),
                };
                return Ok(p);
            },
            Err(_) => {},
        }
        i = i + 1;
    }
    Ok(skd_edit_line_start(xml_text, c1))
}

/// The earliest position in the settings range where one of the tags (the
/// first `j` of them) starts an element.
pub open spec fn first_child_pos(t: Seq<char>, settings: (int, int), tags: Seq<Seq<char>>, j: int) -> Option<int>
    decreases j,
{
    if j <= 0 {
        None
    } else {
        let rest = first_child_pos(t, settings, tags, j - 1);
        match first_match(t, "<"@ + tags[j - 1], settings.0, settings.1) {
            None => rest,
            Some(p) => match rest {
                None => Some(p),
                Some(q) => Some(if q < p {
                    q
                } else {
                    p
                }),
            },
        }
    }
}

pub fn skd_edit_first_settings_child_pos(xml_text: &[char], settings: (usize, usize), tags: &[&'static str]) -> (r: Option<usize>)
    requires
        settings.0 <= settings.1 <= xml_text@.len(),
    ensures
        opt_int(r) == first_child_pos(xml_text@, (settings.0 as int, settings.1 as int), lit_views(tags@), tags@.len() as int),
{
    proof {
        reveal_strlit("<");
    }
    let mut result: Option<usize> = None;
    let mut j: usize = 0;
    while j < tags.len()
        invariant
            j <= tags@.len(),
            settings.1 <= xml_text@.len(),
            opt_int(result) == first_child_pos(xml_text@, (settings.0 as int, settings.1 as int), lit_views(tags@), j as int),
        decreases tags.len() - j,
    {
        let mut needle = chars_of("<");
        crate::text::push_str(&mut needle, tags[j]);
        assert(needle@ == "<"@ + lit_views(tags@)[j as int]);
        match find_in(xml_text, &needle, settings.0, settings.1) {
            None => {},
            Some(p) => {
                result = match result {
                    None => Some(p),
                    Some(q) => Some(if q < p {
                        q
                    } else {
                        p
                    }),
                };
            },
        }
        j = j + 1;
    }
    result
}

/// The name text of a block at `(s, e)`, or empty.
pub open spec fn block_name(t: Seq<char>, s: int, e: int) -> Seq<char> {
    match child_text(t, (s, e), "name"@) {
        Some(n) => n,
        None => Seq::empty(),
    }
}

/// From `cursor` (before `end`): each block from an `open` to the first
/// `close` after it, as (name, block text), until one is missing.
pub open spec fn blocks_from(t: Seq<char>, open: Seq<char>, close: Seq<char>, end: int, cursor: int) -> Seq<(Seq<char>, Seq<char>)>
    decreases end - cursor,
    when close.len() > 0
{
    if cursor >= end {
        Seq::empty()
    } else {
        match first_match(t, open, cursor, end) {
            None => Seq::empty(),
            Some(s) => match first_match(t, close, s, end) {
                None => Seq::empty(),
                Some(c) => {
                    proof {
                        lemma_first_match_bounds(t, open, cursor, end);
                        lemma_first_match_bounds(t, close, s, end);
                    }
                    seq![(block_name(t, s, c + close.len()), t.subrange(s, c + close.len()))]
                        + blocks_from(t, open, close, end, c + close.len())
                },
            },
        }
    }
}

pub open spec fn named_block_views(v: Seq<(Vec<char>, Vec<char>)>) -> Seq<(Seq<char>, Seq<char>)> {
    v.map_values(|x: (Vec<char>, Vec<char>)| (x.0@, x.1@))
}

fn block_name_exec(t: &[char], s: usize, e: usize) -> (r: Vec<char>)
    requires
        s <= e <= t@.len(),
    ensures
        r@ == block_name(t@, s as int, e as int),
{
    let name = chars_of("name");
    match skd_edit_child_text_range(t, (s, e), &name) {
        Ok((a, b)) => {
            let v = slice_to_vec(t, a, b);
            trim_chars(&v)
        },
        Err(_) => Vec::new(),
    }
}

/// The `item` blocks in the range with their names, in order.
pub fn skd_edit_collect_blocks_in_range(xml_text: &[char], item: &[char], range: (usize, usize)) -> (r: Vec<(Vec<char>, Vec<char>)>)
    requires
        range.1 <= xml_text@.len(),
    ensures
        named_block_views(r@) == blocks_from(xml_text@, "<"@ + item@, "</"@ + item@ + ">"@, range.1 as int, range.0 as int),
{
    proof {
        reveal_strlit("");
        reveal_strlit("</");
    }
    let open = enclose("<", item, "");
    let close = enclose("</", item, ">");
    assert(open@ =~= "<"@ + item@);
    let ghost all = blocks_from(xml_text@, open@, close@, range.1 as int, range.0 as int);
    let mut result: Vec<(Vec<char>, Vec<char>)> = Vec::new();
    let mut cursor = range.0;
    while cursor < range.1
        invariant
            range.1 <= xml_text@.len(),
            close@.len() > 0,
            all == named_block_views(result@) + blocks_from(xml_text@, open@, close@, range.1 as int, cursor as int),
        ensures
            blocks_from(xml_text@, open@, close@, range.1 as int, cursor as int) == Seq::<(Seq<char>, Seq<char>)>::empty(),
        decreases range.1 - cursor,
    {
        let s = match find_in(xml_text, &open, cursor, range.1) {
            None => {
                break;
            },
            Some(s) => s,
        };
        proof {
            lemma_first_match_bounds(xml_text@, open@, cursor as int, range.1 as int);
        }
        let c = match find_in(xml_text, &close, s, range.1) {
            None => {
                break;
            },
            Some(c) => c,
        };
        proof {
            lemma_first_match_bounds(xml_text@, close@, s as int, range.1 as int);
        }
        let e = c + close.len();
        let block = slice_to_vec(xml_text, s, e);
        let name = block_name_exec(xml_text, s, e);
        let ghost before = named_block_views(result@);
        result.push((name, block));
        proof {
            assert(named_block_views(result@) =~= before + seq![(block_name(xml_text@, s as int, e as int), xml_text@.subrange(s as int, e as int))]);
        }
        cursor = e;
    }
    assert(all =~= named_block_views(result@));
    result
}

/// The `item` blocks of the whole text with their names.
pub fn skd_edit_collect_blocks(xml_text: &[char], item: &[char]) -> (r: Vec<(Vec<char>, Vec<char>)>)
    ensures
        named_block_views(r@) == blocks_from(xml_text@, "<"@ + item@, "</"@ + item@ + ">"@, xml_text@.len() as int, 0),
{
    skd_edit_collect_blocks_in_range(xml_text, item, (0, xml_text.len()))
}

/// From `cursor` (before `limit`): each root parameter (a `<parameter` that
/// starts a line after one tab) as (name, start, end, block), until one is
/// missing or has no end.
pub open spec fn root_parameters_from(t: Seq<char>, limit: int, cursor: int) -> Seq<(Seq<char>, int, int, Seq<char>)>
    decreases limit - cursor,
{
    if cursor >= limit {
        Seq::empty()
    } else {
        match first_match(t, "\n\t<parameter"@, cursor, limit) {
            None => Seq::empty(),
            Some(r) => {
                proof {
                    lemma_first_match_bounds(t, "\n\t<parameter"@, cursor, limit);
                    lemma_element_end_bounds(t, r + 1, limit, "parameter"@);
                }
                match element_end(t, r + 1, limit, "parameter"@) {
                    None => Seq::empty(),
                    Some(e) => seq![(block_name(t, r + 1, e), r + 1, e, t.subrange(r + 1, e))]
                        + root_parameters_from(t, limit, e),
                }
            },
        }
    }
}

pub open spec fn parameter_block_views(v: Seq<(Vec<char>, usize, usize, Vec<char>)>) -> Seq<(Seq<char>, int, int, Seq<char>)> {
    v.map_values(|x: (Vec<char>, usize, usize, Vec<char>)| (x.0@, x.1 as int, x.2 as int, x.3@))
}

/// The root parameter elements before `limit`, with their names and ranges.
pub fn skd_edit_collect_root_parameter_blocks(xml_text: &[char], limit: usize) -> (r: Vec<(Vec<char>, usize, usize, Vec<char>)>)
    requires
        limit <= xml_text@.len(),
    ensures
        parameter_block_views(r@) == root_parameters_from(xml_text@, limit as int, 0),
        forall|i: int| 0 <= i < r@.len() ==> (#[trigger] r@[i]).1 < r@[i].2 <= limit,
        forall|i: int| 0 <= i < r@.len() ==> r@[0].1 < (#[trigger] r@[i]).2,
{
    proof {
        reveal_strlit("\n\t<parameter");
    }
    let needle = chars_of("\n\t<parameter");
    let item = chars_of("parameter");
    let ghost all = root_parameters_from(xml_text@, limit as int, 0);
    let mut result: Vec<(Vec<char>, usize, usize, Vec<char>)> = Vec::new();
    let mut cursor: usize = 0;
    while cursor < limit
        invariant
            limit <= xml_text@.len(),
            needle@ == "\n\t<parameter"@,
            needle@.len() == 12,
            item@ == "parameter"@,
            all == parameter_block_views(result@) + root_parameters_from(xml_text@, limit as int, cursor as int),
            forall|i: int| 0 <= i < result@.len() ==> (#[trigger] result@[i]).1 < result@[i].2 <= limit,
            forall|i: int| 0 <= i < result@.len() ==> (#[trigger] result@[i]).2 <= cursor,
            forall|i: int| 0 <= i < result@.len() ==> result@[0].1 < (#[trigger] result@[i]).2,
        ensures
            root_parameters_from(xml_text@, limit as int, cursor as int) == Seq::<(Seq<char>, int, int, Seq<char>)>::empty(),
        decreases limit - cursor,
    {
        let r = match find_in(xml_text, &needle, cursor, limit) {
            None => {
                break;
            },
            Some(r) => r,
        };
        proof {
            lemma_first_match_bounds(xml_text@, needle@, cursor as int, limit as int);
        }
        let e = match skd_edit_matching_element_end(xml_text, r + 1, limit, &item) {
            None => {
                break;
            },
            Some(e) => e,
        };
        let block = slice_to_vec(xml_text, r + 1, e);
        let name = block_name_exec(xml_text, r + 1, e);
        let ghost before = parameter_block_views(result@);
        result.push((name, r + 1, e, block));
        proof {
            assert(parameter_block_views(result@) =~= before + seq![(block_name(xml_text@, r + 1, e as int), r + 1, e as int, xml_text@.subrange(r + 1, e as int))]);
        }
        cursor = e;
    }
    assert(all =~= parameter_block_views(result@));
    result
}

/// The grouping fields of the top-level structure items, joined by `, `.
pub open spec fn structure_description(items: Seq<SkdEditStructureItem>) -> Seq<char> {
    join(items.map_values(|x: SkdEditStructureItem| views(x.group_by@)).fold_left(
        Seq::<Seq<char>>::empty(),
        |acc: Seq<Seq<char>>, g: Seq<Seq<char>>| acc + g,
    ), ", "@)
}

pub fn skd_edit_structure_description(structures: &[SkdEditStructureItem]) -> (r: Vec<char>)
    ensures
        r@ == structure_description(structures@),
{
    let ghost gs = structures@.map_values(|x: SkdEditStructureItem| views(x.group_by@));
    let mut all: Vec<Vec<char>> = Vec::new();
    let mut i: usize = 0;
    while i < structures.len()
        invariant
            i <= structures@.len(),
            gs == structures@.map_values(|x: SkdEditStructureItem| views(x.group_by@)),
            views(all@) == gs.take(i as int).fold_left(
                Seq::<Seq<char>>::empty(),
                |acc: Seq<Seq<char>>, g: Seq<Seq<char>>| acc + g,
            ),
        decreases structures.len() - i,
    {
        let ghost before = views(all@);
        let mut j: usize = 0;
        while j < structures[i].group_by.len()
            invariant
                i < structures@.len(),
                j <= structures@[i as int].group_by@.len(),
                views(all@) == before + views(structures@[i as int].group_by@).take(j as int),
            decreases structures@[i as int].group_by@.len() - j,
        {
            let x = crate::text::to_vec(&structures[i].group_by[j]);
            proof {
                crate::text::lemma_views_push(all@, x);
                assert(views(structures@[i as int].group_by@).take(j + 1) =~= views(structures@[i as int].group_by@).take(j as int).push(x@));
            }
            all.push(x);
            j = j + 1;
        }
        proof {
            assert(views(structures@[i as int].group_by@).take(j as int) =~= views(structures@[i as int].group_by@));
            assert(gs.take(i + 1).drop_last() =~= gs.take(i as int));
            assert(gs.take(i + 1).last() == gs[i as int]);
            assert(views(all@) =~= gs.take(i + 1).fold_left(
                Seq::<Seq<char>>::empty(),
                |acc: Seq<Seq<char>>, g: Seq<Seq<char>>| acc + g,
            ));
        }
        i = i + 1;
    }
    assert(gs.take(i as int) =~= gs);
    crate::text::join_str(&all, ", ")
}

pub proof fn lemma_child_element_range(t: Seq<char>, range: (int, int), child: Seq<char>)
    ensures
        child_element_range(t, range, child) matches Some((s, e)) ==> 0 <= s < e <= t.len()
            && range.0 <= s,
{
    reveal_strlit("<");
    reveal_strlit(">");
    let sb = min_int(range.0, t.len() as int);
    let eb = min_int(range.1, t.len() as int);
    if sb <= eb {
        lemma_child_open_from(t, "<"@ + child, sb, eb);
        match child_open_from(t, "<"@ + child, sb, eb) {
            None => {},
            Some(st) => {
                lemma_first_match_bounds(t, ">"@, st, eb);
                lemma_element_end_bounds(t, st, eb, child);
            },
        }
    }
}

pub proof fn lemma_element_line_range(t: Seq<char>, start: int, end: int)
    requires
        0 <= start <= end <= t.len(),
    ensures
        element_line_range(t, start, end).0 <= start,
        0 <= element_line_range(t, start, end).0,
        end <= element_line_range(t, start, end).1 <= t.len(),
{
    reveal_strlit("\n");
    reveal_strlit("\r\n");
    lemma_last_match_bounds(t, "\n"@, 0, start);
}

pub proof fn lemma_settings_element_range(t: Seq<char>, variant: Seq<char>)
    ensures
        settings_element_range(t, variant) matches Ok((s, e)) ==> 0 <= s && s + "</dcsset:settings>"@.len() <= e <= t.len(),
{
    reveal_strlit("</dcsset:settings>");
    reveal_strlit("</settingsVariant>");
    lemma_block_scan(t, "<settingsVariant"@, "</settingsVariant>"@, variant_probes(variant), variant.len() == 0, 0);
    match variant_range(t, variant) {
        Err(_) => {},
        Ok((v0, v1)) => {
            lemma_first_match_bounds(t, "<dcsset:settings"@, v0, v1);
            match first_match(t, "<dcsset:settings"@, v0, v1) {
                None => {},
                Some(s) => {
                    lemma_first_match_bounds(t, "</dcsset:settings>"@, s, v1);
                },
            }
        },
    }
}

pub proof fn lemma_child_text_range(t: Seq<char>, range: (int, int), child: Seq<char>)
    requires
        0 <= range.0 <= range.1 <= t.len(),
    ensures
        child_text_range(t, range, child) matches Ok((a, b)) ==> range.0 <= a <= b <= range.1,
{
    lemma_first_match_bounds(t, "<"@ + child + ">"@, range.0, range.1);
    match first_match(t, "<"@ + child + ">"@, range.0, range.1) {
        None => {},
        Some(o) => {
            lemma_first_match_bounds(t, "</"@ + child + ">"@, o + ("<"@ + child + ">"@).len(), range.1);
        },
    }
}

pub proof fn lemma_dcsset_item_end_bounds(t: Seq<char>, start: int, limit: int)
    ensures
        dcsset_item_end(t, start, limit) matches Some(e) ==> start < e <= limit,
{
    reveal_strlit(">");
    reveal_strlit("</dcsset:item>");
    lemma_first_match_bounds(t, ">"@, start, limit);
    match first_match(t, ">"@, start, limit) {
        None => {},
        Some(e) => {
            lemma_nest_scan_bounds(t, limit, "<dcsset:item"@, "</dcsset:item>"@, e + 1, 1);
        },
    }
}

pub proof fn lemma_settings_content_range(t: Seq<char>, variant: Seq<char>)
    ensures
        settings_content_range(t, variant) matches Ok((a, b)) ==> 0 <= a <= b <= t.len(),
{
    reveal_strlit(">");
    reveal_strlit("</dcsset:settings>");
    lemma_settings_element_range(t, variant);
    match settings_element_range(t, variant) {
        Err(_) => {},
        Ok((s0, s1)) => {
            lemma_first_match_bounds(t, ">"@, s0, s1);
        },
    }
}

pub proof fn lemma_first_child_pos(t: Seq<char>, settings: (int, int), tags: Seq<Seq<char>>, j: int)
    ensures
        first_child_pos(t, settings, tags, j) matches Some(p) ==> settings.0 <= p && p <= settings.1,
    decreases j,
{
    if j > 0 {
        lemma_first_child_pos(t, settings, tags, j - 1);
        lemma_first_match_bounds(t, "<"@ + tags[j - 1], settings.0, settings.1);
    }
}

} // verus!
