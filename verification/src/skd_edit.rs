//! Text edits of a data composition schema: inserting, replacing and removing
//! elements in place, so that the rest of the file keeps its layout.
use vstd::prelude::*;
use crate::skd_xml::{
    block_has_child_text, child_element_range, child_text_range, element_line_range,
    element_name_at, enclose, first_child_pos, last_top_level_block_end, line_indent,
    min_int, opt_seq, skd_edit_child_element_range, skd_edit_child_text_range,
    skd_edit_element_line_range, skd_edit_element_name_at, skd_edit_last_top_level_block_end,
    skd_edit_line_indent, skd_edit_top_level_contains, top_level_contains, dataset_range,
    skd_edit_dataset_range, dataset_name, skd_edit_dataset_name, lemma_child_element_range,
    lemma_element_line_range, element_view, SkdEditElementRange, prefixed_container_range,
    skd_edit_prefixed_container_range, wrap_name, settings_element_range,
    skd_edit_settings_element_range, new_container_insert_pos,
    skd_edit_new_settings_container_insert_pos, line_start, skd_edit_line_start,
    lemma_settings_element_range, lemma_child_text_range, parameter_limit, skd_edit_parameter_limit,
    container_child_indent, root_parameters_from, lemma_dcsset_item_end_bounds, dcsset_item_end,
    settings_content_range, lemma_settings_content_range, skd_edit_settings_content_range,
    lemma_first_child_pos, named_structure_group, group_items_range, skd_edit_settings_container_child_indent, element_end, lemma_element_end_bounds,
    skd_edit_matching_element_end, skd_edit_block_has_child_text, item_by_child_from,
    skd_edit_find_item_by_child, variant_name, skd_edit_variant_name,
};
use crate::text::{
    chars_of, escape_xml, escape_xml_exec, find_in, find_str, first_match, last_match,
    lemma_first_match_bounds, lemma_last_match_bounds, lit_views, opt_int, push_chars, push_str, rfind_in,
    splice, spliced, count_matches, count_chars, replace_all, replace_chars, interleave,
    interleave_exec, contains, contains_chars, join, views,
};
use crate::numbers::{nat_text, usize_text};
use crate::skd_fragments::{settings_value_lines, skd_edit_settings_value_lines};

verus! {

/// Whether an edit that may fail did what its specification says: on success
/// the text became `spec`'s text; on failure the error is `spec`'s and the
/// text is unchanged.
pub open spec fn edit_done(r: Result<(), Vec<char>>, before: Seq<char>, after: Seq<char>, spec: Result<Seq<char>, Seq<char>>) -> bool {
    match spec {
        Ok(n) => r is Ok && after == n,
        Err(e) => r matches Err(x) && x@ == e && after == before,
    }
}

/// Inserting `fragment` and a line break just before the last
/// `</DataCompositionSchema>`.
pub open spec fn insert_before_root_close(t: Seq<char>, fragment: Seq<char>) -> Result<Seq<char>, Seq<char>> {
    match last_match(t, "</DataCompositionSchema>"@, 0, t.len() as int) {
        None => Err("No closing </DataCompositionSchema> found"@),
        Some(p) => Ok(spliced(t, p, p, fragment + "\n"@)),
    }
}

pub fn skd_edit_insert_before_root_close(xml_text: &mut Vec<char>, fragment: &[char]) -> (r: Result<(), Vec<char>>)
    ensures
        edit_done(r, old(xml_text)@, final(xml_text)@, insert_before_root_close(old(xml_text)@, fragment@)),
{
    let close = chars_of("</DataCompositionSchema>");
    match rfind_in(xml_text, &close, 0, xml_text.len()) {
        None => Err(chars_of("No closing </DataCompositionSchema> found")),
        Some(p) => {
            proof {
                lemma_last_match_bounds(xml_text@, close@, 0, xml_text@.len() as int);
            }
            let mut ins = crate::text::to_vec(fragment);
            push_str(&mut ins, "\n");
            splice(xml_text, p, p, &ins);
            Ok(())
        },
    }
}

/// The earliest line start (just after `\n`) where one of the first `j` tags
/// begins a root child (`\n\t<{tag}`).
pub open spec fn first_root_child_pos(t: Seq<char>, tags: Seq<Seq<char>>, j: int) -> Option<int>
    decreases j,
{
    if j <= 0 {
        None
    } else {
        let rest = first_root_child_pos(t, tags, j - 1);
        match first_match(t, "\n\t<"@ + tags[j - 1], 0, t.len() as int) {
            None => rest,
            Some(p) => match rest {
                None => Some(p + 1),
                Some(q) => Some(if q < p + 1 {
                    q
                } else {
                    p + 1
                }),
            },
        }
    }
}

pub proof fn lemma_first_root_child_pos(t: Seq<char>, tags: Seq<Seq<char>>, j: int)
    ensures
        first_root_child_pos(t, tags, j) matches Some(p) ==> 0 < p <= t.len(),
    decreases j,
{
    reveal_strlit("\n\t<");
    if j > 0 {
        lemma_first_root_child_pos(t, tags, j - 1);
        lemma_first_match_bounds(t, "\n\t<"@ + tags[j - 1], 0, t.len() as int);
    }
}

/// Inserting `fragment` and a line break before the first root child with one
/// of the tags; with none of them present, before the root's end tag.
pub open spec fn insert_before_first_root_child(t: Seq<char>, before: Seq<Seq<char>>, fragment: Seq<char>) -> Result<Seq<char>, Seq<char>> {
    match first_root_child_pos(t, before, before.len() as int) {
        Some(p) => Ok(spliced(t, p, p, fragment + "\n"@)),
        None => insert_before_root_close(t, fragment),
    }
}

pub fn skd_edit_insert_before_first_root_child(xml_text: &mut Vec<char>, before: &[&'static str], fragment: &[char]) -> (r: Result<(), Vec<char>>)
    ensures
        edit_done(r, old(xml_text)@, final(xml_text)@, insert_before_first_root_child(old(xml_text)@, lit_views(before@), fragment@)),
{
    let mut pos: Option<usize> = None;
    let mut j: usize = 0;
    while j < before.len()
        invariant
            j <= before@.len(),
            opt_int(pos) == first_root_child_pos(xml_text@, lit_views(before@), j as int),
            pos matches Some(p) ==> 0 < p <= xml_text@.len(),
        decreases before.len() - j,
    {
        let mut needle = chars_of("\n\t<");
        push_str(&mut needle, before[j]);
        assert(needle@ == "\n\t<"@ + lit_views(before@)[j as int]);
        proof {
            reveal_strlit("\n\t<");
            lemma_first_match_bounds(xml_text@, needle@, 0, xml_text@.len() as int);
        }
        match find_in(xml_text, &needle, 0, xml_text.len()) {
            None => {},
            Some(p) => {
                pos = match pos {
                    None => Some(p + 1),
                    Some(q) => Some(if q < p + 1 {
                        q
                    } else {
                        p + 1
                    }),
                };
            },
        }
        j = j + 1;
    }
    match pos {
        Some(p) => {
            let mut ins = crate::text::to_vec(fragment);
            push_str(&mut ins, "\n");
            splice(xml_text, p, p, &ins);
            Ok(())
        },
        None => skd_edit_insert_before_root_close(xml_text, fragment),
    }
}

/// The root children a new top-level `item` goes before when the schema has
/// none of that kind yet.
pub open spec fn top_level_before(item: Seq<char>) -> Seq<Seq<char>> {
    if item == "calculatedField"@ {
        seq!["totalField"@, "parameter"@, "template"@, "groupTemplate"@, "settingsVariant"@]
    } else if item == "totalField"@ {
        seq!["parameter"@, "template"@, "groupTemplate"@, "settingsVariant"@]
    } else if item == "parameter"@ {
        seq!["template"@, "groupTemplate"@, "settingsVariant"@]
    } else {
        seq![
            "totalField"@,
            "calculatedField"@,
            "parameter"@,
            "template"@,
            "groupTemplate"@,
            "settingsVariant"@,
        ]
    }
}

fn top_level_before_exec(item: &[char]) -> (r: &'static [&'static str])
    ensures
        lit_views(r@) == top_level_before(item@),
{
    if crate::text::eq_str(item, "calculatedField") {
        let r: &'static [&'static str] = &["totalField", "parameter", "template", "groupTemplate", "settingsVariant"];
        assert(lit_views(r@) =~= top_level_before(item@));
        r
    } else if crate::text::eq_str(item, "totalField") {
        let r: &'static [&'static str] = &["parameter", "template", "groupTemplate", "settingsVariant"];
        assert(lit_views(r@) =~= top_level_before(item@));
        r
    } else if crate::text::eq_str(item, "parameter") {
        let r: &'static [&'static str] = &["template", "groupTemplate", "settingsVariant"];
        assert(lit_views(r@) =~= top_level_before(item@));
        r
    } else {
        let r: &'static [&'static str] = &[
            "totalField",
            "calculatedField",
            "parameter",
            "template",
            "groupTemplate",
            "settingsVariant",
        ];
        assert(lit_views(r@) =~= top_level_before(item@));
        r
    }
}

/// Inserting a top-level `item` fragment: after the last element of its kind,
/// else before the first root child that follows that kind.
pub open spec fn insert_top_level_fragment(t: Seq<char>, item: Seq<char>, fragment: Seq<char>) -> Result<Seq<char>, Seq<char>> {
    match last_top_level_block_end(t, item) {
        Some(e) => Ok(spliced(t, e, e, "\n"@ + fragment)),
        None => insert_before_first_root_child(t, top_level_before(item), fragment),
    }
}

pub fn skd_edit_insert_top_level_fragment(xml_text: &mut Vec<char>, item: &[char], fragment: &[char]) -> (r: Result<(), Vec<char>>)
    ensures
        edit_done(r, old(xml_text)@, final(xml_text)@, insert_top_level_fragment(old(xml_text)@, item@, fragment@)),
{
    match skd_edit_last_top_level_block_end(xml_text, item) {
        Some(e) => {
            let mut ins = chars_of("\n");
            push_chars(&mut ins, fragment);
            splice(xml_text, e, e, &ins);
            Ok(())
        },
        None => {
            let before = top_level_before_exec(item);
            skd_edit_insert_before_first_root_child(xml_text, before, fragment)
        },
    }
}

/// Adding a top-level element unless one with the same key exists: the new
/// text, and the message appended to the output.
pub open spec fn add_top_level_fragment(
    t: Seq<char>,
    item: Seq<char>,
    child: Seq<char>,
    key: Seq<char>,
    fragment: Seq<char>,
    ok_message: Seq<char>,
) -> Result<(Seq<char>, Seq<char>), Seq<char>> {
    if top_level_contains(t, item, child, key) {
        Ok((t, "[WARN] "@ + item + " \""@ + key + "\" already exists -- skipped\n"@))
    } else {
        match insert_top_level_fragment(t, item, fragment) {
            Err(e) => Err(e),
            Ok(n) => Ok((n, ok_message)),
        }
    }
}

pub fn skd_edit_add_top_level_fragment(
    xml_text: &mut Vec<char>,
    item: &[char],
    child: &[char],
    key: &[char],
    fragment: &[char],
    ok_message: &[char],
    stdout: &mut Vec<char>,
) -> (r: Result<(), Vec<char>>)
    ensures
        match add_top_level_fragment(old(xml_text)@, item@, child@, key@, fragment@, ok_message@) {
            Ok((n, msg)) => r is Ok && final(xml_text)@ == n && final(stdout)@ == old(stdout)@ + msg,
            Err(e) => r matches Err(x) && x@ == e && final(xml_text)@ == old(xml_text)@
                && final(stdout)@ == old(stdout)@,
        },
{
    if skd_edit_top_level_contains(xml_text, item, child, key) {
        push_str(stdout, "[WARN] ");
        push_chars(stdout, item);
        push_str(stdout, " \"");
        push_chars(stdout, key);
        push_str(stdout, "\" already exists -- skipped\n");
        return Ok(());
    }
    match skd_edit_insert_top_level_fragment(xml_text, item, fragment) {
        Err(e) => Err(e),
        Ok(()) => {
            push_chars(stdout, ok_message);
            Ok(())
        },
    }
}

/// The message of a top-level element that was added.
pub open spec fn added_message(item: Seq<char>, key: Seq<char>) -> Seq<char> {
    "[OK] "@ + item + " \""@ + key + "\" added\n"@
}

/// Adds a top-level element described by `key: expression` (or a bare key),
/// the fragment built from the trimmed key and expression by `build`.
pub fn skd_edit_add_top_level<F: Fn(&[char], &[char]) -> Vec<char>>(
    xml_text: &mut Vec<char>,
    item: &[char],
    child: &[char],
    value: &[char],
    stdout: &mut Vec<char>,
    build: F,
) -> (r: Result<(), Vec<char>>)
    requires
        forall|k: &[char], e: &[char]| build.requires((k, e)),
    ensures
        exists|k: &[char], e: &[char], fragment: Vec<char>|
            {
                &&& (k@, e@) == crate::text::split_trim_or_all(value@, ":"@)
                &&& build.ensures((k, e), fragment)
                &&& match add_top_level_fragment(old(xml_text)@, item@, child@, k@, fragment@, added_message(item@, k@)) {
                    Ok((n, msg)) => r is Ok && final(xml_text)@ == n && final(stdout)@ == old(stdout)@ + msg,
                    Err(x) => r matches Err(y) && y@ == x && final(xml_text)@ == old(xml_text)@
                        && final(stdout)@ == old(stdout)@,
                }
            },
{
    let (key, expression) = crate::text::split_trim_or_all_str(value, ":");
    let ks: &[char] = key.as_slice();
    let es: &[char] = expression.as_slice();
    let fragment = build(ks, es);
    let mut message = chars_of("[OK] ");
    push_chars(&mut message, item);
    push_str(&mut message, " \"");
    push_chars(&mut message, &key);
    push_str(&mut message, "\" added\n");
    let r = skd_edit_add_top_level_fragment(xml_text, item, child, ks, &fragment, &message, stdout);
    assert((ks@, es@) == crate::text::split_trim_or_all(value@, ":"@));
    r
}

/// The earliest `p + 1` over the first `j` names where `prefix + name` occurs
/// at `p` inside `[r0, r1)`.
pub open spec fn min_prefixed_pos(t: Seq<char>, prefix: Seq<char>, names: Seq<Seq<char>>, r0: int, r1: int, j: int) -> Option<int>
    decreases j,
{
    if j <= 0 {
        None
    } else {
        let rest = min_prefixed_pos(t, prefix, names, r0, r1, j - 1);
        match first_match(t, prefix + names[j - 1], r0, r1) {
            None => rest,
            Some(p) => match rest {
                None => Some(p + 1),
                Some(q) => Some(if q < p + 1 {
                    q
                } else {
                    p + 1
                }),
            },
        }
    }
}

pub fn min_prefixed_pos_exec(t: &[char], prefix: &[char], names: &[&'static str], r0: usize, r1: usize) -> (r: Option<usize>)
    requires
        r1 <= t@.len(),
        prefix@.len() > 0,
    ensures
        opt_int(r) == min_prefixed_pos(t@, prefix@, lit_views(names@), r0 as int, r1 as int, names@.len() as int),
        r matches Some(p) ==> r0 < p <= r1,
{
    let mut pos: Option<usize> = None;
    let mut j: usize = 0;
    while j < names.len()
        invariant
            j <= names@.len(),
            r1 <= t@.len(),
            prefix@.len() > 0,
            opt_int(pos) == min_prefixed_pos(t@, prefix@, lit_views(names@), r0 as int, r1 as int, j as int),
            pos matches Some(p) ==> r0 < p <= r1,
        decreases names.len() - j,
    {
        let mut needle = crate::text::to_vec(prefix);
        push_str(&mut needle, names[j]);
        assert(needle@ == prefix@ + lit_views(names@)[j as int]);
        proof {
            lemma_first_match_bounds(t@, needle@, r0 as int, r1 as int);
        }
        match find_in(t, &needle, r0, r1) {
            None => {},
            Some(p) => {
                pos = match pos {
                    None => Some(p + 1),
                    Some(q) => Some(if q < p + 1 {
                        q
                    } else {
                        p + 1
                    }),
                };
            },
        }
        j = j + 1;
    }
    pos
}

/// Where a new child goes in a root parameter: before the first of the named
/// children, else before the parameter's end tag, else at the range's end.
pub closed spec fn parameter_insert_pos(t: Seq<char>, range: (int, int), before: Seq<Seq<char>>) -> int {
    match min_prefixed_pos(t, "\n\t\t<"@, before, range.0, range.1, before.len() as int) {
        Some(p) => p,
        None => match last_match(t, "\n\t</parameter>"@, range.0, range.1) {
            Some(q) => q + 1,
            None => range.1,
        },
    }
}

fn parameter_insert_pos_exec(t: &[char], range: (usize, usize), before: &[&'static str]) -> (r: usize)
    requires
        range.0 <= range.1 <= t@.len(),
    ensures
        r as int == parameter_insert_pos(t@, (range.0 as int, range.1 as int), lit_views(before@)),
        range.0 <= r <= range.1,
{
    proof {
        reveal_strlit("\n\t\t<");
        reveal_strlit("\n\t</parameter>");
    }
    let prefix = chars_of("\n\t\t<");
    match min_prefixed_pos_exec(t, &prefix, before, range.0, range.1) {
        Some(p) => p,
        None => {
            let close = chars_of("\n\t</parameter>");
            match rfind_in(t, &close, range.0, range.1) {
                Some(q) => {
                    proof {
                        lemma_last_match_bounds(t@, close@, range.0 as int, range.1 as int);
                    }
                    q + 1
                },
                None => range.1,
            }
        },
    }
}

/// Inserting a fragment line into a root parameter.
pub closed spec fn insert_parameter_child_fragment(t: Seq<char>, range: (int, int), fragment: Seq<char>, before: Seq<Seq<char>>) -> Seq<char> {
    let p = parameter_insert_pos(t, range, before);
    spliced(t, p, p, fragment + "\n"@)
}

pub fn skd_edit_insert_parameter_child_fragment(xml_text: &mut Vec<char>, range: (usize, usize), fragment: &[char], before_children: &[&'static str])
    requires
        range.0 <= range.1 <= old(xml_text)@.len(),
    ensures
        final(xml_text)@ == insert_parameter_child_fragment(old(xml_text)@, (range.0 as int, range.1 as int), fragment@, lit_views(before_children@)),
{
    let p = parameter_insert_pos_exec(xml_text, range, before_children);
    let mut ins = crate::text::to_vec(fragment);
    push_str(&mut ins, "\n");
    splice(xml_text, p, p, &ins);
}

/// Replacing a parameter's `child` element (with its line) by a fragment line,
/// or inserting the fragment when there is no such child.
pub closed spec fn replace_or_insert_parameter_child(t: Seq<char>, range: (int, int), child: Seq<char>, fragment: Seq<char>, before: Seq<Seq<char>>) -> Seq<char> {
    match child_element_range(t, range, child) {
        Some((s, e)) => {
            let (a, b) = element_line_range(t, s, e);
            spliced(t, a, b, fragment + "\n"@)
        },
        None => insert_parameter_child_fragment(t, range, fragment, before),
    }
}

pub fn skd_edit_replace_or_insert_parameter_child_fragment(
    xml_text: &mut Vec<char>,
    range: (usize, usize),
    child: &[char],
    fragment: &[char],
    before_children: &[&'static str],
)
    requires
        range.0 <= range.1 <= old(xml_text)@.len(),
    ensures
        final(xml_text)@ == replace_or_insert_parameter_child(old(xml_text)@, (range.0 as int, range.1 as int), child@, fragment@, lit_views(before_children@)),
{
    match skd_edit_child_element_range(xml_text, range, child) {
        Some((s, e)) => {
            let (a, b) = skd_edit_element_line_range(xml_text, s, e);
            let mut ins = crate::text::to_vec(fragment);
            push_str(&mut ins, "\n");
            splice(xml_text, a, b, &ins);
        },
        None => skd_edit_insert_parameter_child_fragment(xml_text, range, fragment, before_children),
    }
}

/// Where a new child of the element starting at `range.0` goes: before the
/// first of the named children at child indentation, else before the parent's
/// end tag on its own line, else at the range's end.
pub closed spec fn child_insert_pos(t: Seq<char>, range: (int, int), before: Seq<Seq<char>>) -> int {
    let parent_name = match element_name_at(t, range.0) {
        Some(n) => n,
        None => Seq::empty(),
    };
    let parent_indent = line_indent(t, range.0);
    match min_prefixed_pos(t, "\n"@ + parent_indent + "\t<"@, before, range.0, range.1, before.len() as int) {
        Some(p) => p,
        None => match last_match(t, "\n"@ + parent_indent + "</"@ + parent_name + ">"@, range.0, range.1) {
            Some(q) => q + 1,
            None => range.1,
        },
    }
}

/// Replacing the `child` element (with its line) by a fragment line, or
/// inserting the fragment where `child_insert_pos` says.
pub closed spec fn replace_or_insert_child(t: Seq<char>, range: (int, int), child: Seq<char>, fragment: Seq<char>, before: Seq<Seq<char>>) -> Seq<char> {
    match child_element_range(t, range, child) {
        Some((s, e)) => {
            let (a, b) = element_line_range(t, s, e);
            spliced(t, a, b, fragment + "\n"@)
        },
        None => {
            let p = child_insert_pos(t, range, before);
            spliced(t, p, p, fragment + "\n"@)
        },
    }
}

pub fn skd_edit_replace_or_insert_child_fragment(
    xml_text: &mut Vec<char>,
    range: (usize, usize),
    child: &[char],
    fragment: &[char],
    before_children: &[&'static str],
)
    requires
        range.0 <= range.1 <= old(xml_text)@.len(),
    ensures
        final(xml_text)@ == replace_or_insert_child(old(xml_text)@, (range.0 as int, range.1 as int), child@, fragment@, lit_views(before_children@)),
{
    match skd_edit_child_element_range(xml_text, range, child) {
        Some((s, e)) => {
            let (a, b) = skd_edit_element_line_range(xml_text, s, e);
            let mut ins = crate::text::to_vec(fragment);
            push_str(&mut ins, "\n");
            splice(xml_text, a, b, &ins);
        },
        None => {
            let parent_name = match skd_edit_element_name_at(xml_text, range.0) {
                Some(n) => n,
                None => Vec::new(),
            };
            let parent_indent = skd_edit_line_indent(xml_text, range.0);
            let mut prefix = chars_of("\n");
            push_chars(&mut prefix, &parent_indent);
            push_str(&mut prefix, "\t<");
            proof {
                reveal_strlit("\n");
            }
            let p = match min_prefixed_pos_exec(xml_text, &prefix, before_children, range.0, range.1) {
                Some(p) => p,
                None => {
                    let mut close = chars_of("\n");
                    push_chars(&mut close, &parent_indent);
                    push_str(&mut close, "</");
                    push_chars(&mut close, &parent_name);
                    push_str(&mut close, ">");
                    match rfind_in(xml_text, &close, range.0, range.1) {
                        Some(q) => {
                            proof {
                                lemma_last_match_bounds(xml_text@, close@, range.0 as int, range.1 as int);
                            }
                            q + 1
                        },
                        None => range.1,
                    }
                },
            };
            let mut ins = crate::text::to_vec(fragment);
            push_str(&mut ins, "\n");
            splice(xml_text, p, p, &ins);
        },
    }
}

/// Removing the first block from an `open_prefix` to the first `close` after
/// it, inside the range; `None` when there is none.
pub open spec fn remove_first_block(t: Seq<char>, range: (int, int), open_prefix: Seq<char>, close: Seq<char>) -> Option<Seq<char>> {
    match first_match(t, open_prefix, range.0, range.1) {
        None => None,
        Some(s) => match first_match(t, close, s, range.1) {
            None => None,
            Some(c) => Some(spliced(t, s, c + close.len(), Seq::empty())),
        },
    }
}

/// Whether an edit that may not apply did: `true` with the text `spec` gives,
/// or `false` with the text unchanged.
pub open spec fn applied(r: bool, before: Seq<char>, after: Seq<char>, spec: Option<Seq<char>>) -> bool {
    match spec {
        Some(n) => r && after == n,
        None => !r && after == before,
    }
}

pub fn skd_edit_remove_first_block(xml_text: &mut Vec<char>, range: (usize, usize), open_prefix: &[char], close: &[char]) -> (r: bool)
    requires
        range.0 <= range.1 <= old(xml_text)@.len(),
    ensures
        applied(r, old(xml_text)@, final(xml_text)@, remove_first_block(old(xml_text)@, (range.0 as int, range.1 as int), open_prefix@, close@)),
{
    let s = match find_in(xml_text, open_prefix, range.0, range.1) {
        None => {
            return false;
        },
        Some(s) => s,
    };
    proof {
        lemma_first_match_bounds(xml_text@, open_prefix@, range.0 as int, range.1 as int);
    }
    let c = match find_in(xml_text, close, s, range.1) {
        None => {
            return false;
        },
        Some(c) => c,
    };
    proof {
        lemma_first_match_bounds(xml_text@, close@, s as int, range.1 as int);
    }
    let empty: Vec<char> = Vec::new();
    splice(xml_text, s, c + close.len(), &empty);
    assert(empty@ =~= Seq::<char>::empty());
    true
}

/// Removing the first `child` element in the range: from `<{child}` through
/// the first `</{child}>` after the end of its start tag.
pub open spec fn remove_child_block(t: Seq<char>, range: (int, int), child: Seq<char>) -> Option<Seq<char>> {
    let close = "</"@ + child + ">"@;
    match first_match(t, "<"@ + child, range.0, range.1) {
        None => None,
        Some(s) => match first_match(t, ">"@, s, range.1) {
            None => None,
            Some(oe) => match first_match(t, close, oe + 1, range.1) {
                None => None,
                Some(c) => Some(spliced(t, s, c + close.len(), Seq::empty())),
            },
        },
    }
}

pub fn skd_edit_remove_child_block(xml_text: &mut Vec<char>, range: (usize, usize), child: &[char]) -> (r: bool)
    requires
        range.0 <= range.1 <= old(xml_text)@.len(),
    ensures
        applied(r, old(xml_text)@, final(xml_text)@, remove_child_block(old(xml_text)@, (range.0 as int, range.1 as int), child@)),
{
    proof {
        reveal_strlit("");
        reveal_strlit(">");
    }
    let open = enclose("<", child, "");
    assert(open@ =~= "<"@ + child@);
    let close = enclose("</", child, ">");
    let s = match find_in(xml_text, &open, range.0, range.1) {
        None => {
            return false;
        },
        Some(s) => s,
    };
    proof {
        lemma_first_match_bounds(xml_text@, open@, range.0 as int, range.1 as int);
    }
    let oe = match find_str(xml_text, ">", s, range.1) {
        None => {
            return false;
        },
        Some(x) => x,
    };
    proof {
        lemma_first_match_bounds(xml_text@, ">"@, s as int, range.1 as int);
    }
    let c = match find_in(xml_text, &close, oe + 1, range.1) {
        None => {
            return false;
        },
        Some(c) => c,
    };
    proof {
        lemma_first_match_bounds(xml_text@, close@, oe + 1, range.1 as int);
    }
    let empty: Vec<char> = Vec::new();
    splice(xml_text, s, c + close.len(), &empty);
    assert(empty@ =~= Seq::<char>::empty());
    true
}

/// Removing the first `child` element of the range with its line.
pub open spec fn remove_child_element(t: Seq<char>, range: (int, int), child: Seq<char>) -> Option<Seq<char>> {
    match child_element_range(t, range, child) {
        None => None,
        Some((s, e)) => {
            let (a, b) = element_line_range(t, s, e);
            Some(spliced(t, a, b, Seq::empty()))
        },
    }
}

pub fn skd_edit_remove_child_element(xml_text: &mut Vec<char>, range: (usize, usize), child: &[char]) -> (r: bool)
    ensures
        applied(r, old(xml_text)@, final(xml_text)@, remove_child_element(old(xml_text)@, (range.0 as int, range.1 as int), child@)),
{
    match skd_edit_child_element_range(xml_text, range, child) {
        None => false,
        Some((s, e)) => {
            let (a, b) = skd_edit_element_line_range(xml_text, s, e);
            let empty: Vec<char> = Vec::new();
            splice(xml_text, a, b, &empty);
            assert(empty@ =~= Seq::<char>::empty());
            true
        },
    }
}

/// Setting a simple child's text: replacing it when present, else inserting
/// `<{child}>value</{child}>` before the parameter's end tag (when there is one
/// in the range).
pub open spec fn replace_or_insert_simple_child(t: Seq<char>, range: (int, int), child: Seq<char>, value: Seq<char>) -> Seq<char> {
    match child_text_range(t, range, child) {
        Ok((a, b)) => spliced(t, a, b, escape_xml(value)),
        Err(_) => match first_match(t, "</parameter>"@, range.0, range.1) {
            Some(p) => spliced(t, p, p, "\t\t<"@ + child + ">"@ + escape_xml(value) + "</"@ + child + ">\n\t"@),
            None => t,
        },
    }
}

pub fn skd_edit_replace_or_insert_simple_child(xml_text: &mut Vec<char>, range: (usize, usize), child: &[char], value: &[char])
    requires
        range.0 <= range.1 <= old(xml_text)@.len(),
    ensures
        final(xml_text)@ == replace_or_insert_simple_child(old(xml_text)@, (range.0 as int, range.1 as int), child@, value@),
{
    let esc = escape_xml_exec(value);
    match skd_edit_child_text_range(xml_text, range, child) {
        Ok((a, b)) => {
            splice(xml_text, a, b, &esc);
        },
        Err(_) => {
            match find_str(xml_text, "</parameter>", range.0, range.1) {
                Some(p) => {
                    proof {
                        lemma_first_match_bounds(xml_text@, "</parameter>"@, range.0 as int, range.1 as int);
                    }
                    let mut ins = enclose("\t\t<", child, ">");
                    push_chars(&mut ins, &esc);
                    push_chars(&mut ins, &enclose("</", child, ">\n\t"));
                    assert(ins@ =~= "\t\t<"@ + child@ + ">"@ + esc@ + "</"@ + child@ + ">\n\t"@);
                    splice(xml_text, p, p, &ins);
                },
                None => {},
            }
        },
    }
}

/// Replacing the text of the first `<{child}>` in the range by the escaped value.
pub open spec fn replace_child_text(t: Seq<char>, range: (int, int), child: Seq<char>, value: Seq<char>) -> Result<Seq<char>, Seq<char>> {
    match child_text_range(t, range, child) {
        Err(e) => Err(e),
        Ok((a, b)) => Ok(spliced(t, a, b, escape_xml(value))),
    }
}

pub fn skd_edit_replace_child_text(xml_text: &mut Vec<char>, range: (usize, usize), child: &[char], value: &[char]) -> (r: Result<(), Vec<char>>)
    requires
        range.0 <= range.1 <= old(xml_text)@.len(),
    ensures
        edit_done(r, old(xml_text)@, final(xml_text)@, replace_child_text(old(xml_text)@, (range.0 as int, range.1 as int), child@, value@)),
{
    match skd_edit_child_text_range(xml_text, range, child) {
        Err(e) => Err(e),
        Ok((a, b)) => {
            let esc = escape_xml_exec(value);
            splice(xml_text, a, b, &esc);
            Ok(())
        },
    }
}

/// Replacing the query text of the selected data set.
pub open spec fn set_query(t: Seq<char>, data_set: Seq<char>, query: Seq<char>) -> Result<Seq<char>, Seq<char>> {
    match dataset_range(t, data_set) {
        Err(e) => Err(e),
        Ok(r) => replace_child_text(t, r, "query"@, query),
    }
}

pub fn skd_edit_set_query(xml_text: &mut Vec<char>, data_set: &[char], query: &[char]) -> (r: Result<(), Vec<char>>)
    ensures
        edit_done(r, old(xml_text)@, final(xml_text)@, set_query(old(xml_text)@, data_set@, query@)),
{
    match skd_edit_dataset_range(xml_text, data_set) {
        Err(e) => Err(e),
        Ok(range) => {
            let q = chars_of("query");
            skd_edit_replace_child_text(xml_text, range, &q, query)
        },
    }
}

/// The name a message uses for a data set: its written name, else the given one.
pub open spec fn dataset_label(t: Seq<char>, data_set: Seq<char>) -> Seq<char> {
    match dataset_name(t, data_set) {
        Some(n) => n,
        None => data_set,
    }
}

pub(crate) fn dataset_label_exec(xml_text: &[char], data_set: &[char]) -> (r: Vec<char>)
    ensures
        r@ == dataset_label(xml_text@, data_set@),
{
    match skd_edit_dataset_name(xml_text, data_set) {
        Some(n) => n,
        None => crate::text::to_vec(data_set),
    }
}

/// Occurrences of `p` in `t` as `str::matches` counts them (an empty pattern
/// matches at every char boundary).
pub open spec fn occurrences(t: Seq<char>, p: Seq<char>) -> nat {
    if p.len() == 0 {
        t.len() + 1
    } else {
        count_matches(t, p)
    }
}

/// `str::replace`, empty pattern included.
pub open spec fn replaced(t: Seq<char>, p: Seq<char>, r: Seq<char>) -> Seq<char> {
    if p.len() == 0 {
        interleave(t, r)
    } else {
        replace_all(t, p, r)
    }
}

/// Replacing `old` by `new` (both escaped) in the query of the selected data
/// set: the new text and the number of occurrences, or the error when there is
/// none, or not exactly one for `once`.
pub open spec fn patch_query(t: Seq<char>, data_set: Seq<char>, old: Seq<char>, new: Seq<char>, once: bool) -> Result<(Seq<char>, nat), Seq<char>> {
    match dataset_range(t, data_set) {
        Err(e) => Err(e),
        Ok(r) => match child_text_range(t, r, "query"@) {
            Err(e) => Err(e),
            Ok((a, b)) => {
                let current = t.subrange(a, b);
                let count = occurrences(current, escape_xml(old));
                if count == 0 {
                    Err("Substring not found in query of dataset '"@ + dataset_label(t, data_set) + "': "@ + old)
                } else if once && count != 1 {
                    Err("@once: expected 1 occurrence of '"@ + old + "' in dataset '"@ + dataset_label(t, data_set)
                        + "', found "@ + nat_text(count))
                } else {
                    Ok((spliced(t, a, b, replaced(current, escape_xml(old), escape_xml(new))), count))
                }
            },
        },
    }
}

pub fn skd_edit_patch_query(xml_text: &mut Vec<char>, data_set: &[char], old_text: &[char], new_text: &[char], once: bool) -> (r: Result<usize, Vec<char>>)
    requires
        old(xml_text)@.len() < usize::MAX,
    ensures
        match patch_query(old(xml_text)@, data_set@, old_text@, new_text@, once) {
            Ok((n, count)) => r matches Ok(c) && c == count && final(xml_text)@ == n,
            Err(e) => r matches Err(x) && x@ == e && final(xml_text)@ == old(xml_text)@,
        },
{
    let range = match skd_edit_dataset_range(xml_text, data_set) {
        Err(e) => {
            return Err(e);
        },
        Ok(r) => r,
    };
    let q = chars_of("query");
    let (a, b) = match skd_edit_child_text_range(xml_text, range, &q) {
        Err(e) => {
            return Err(e);
        },
        Ok(x) => x,
    };
    let current = crate::text::slice_to_vec(xml_text, a, b);
    let esc_old = escape_xml_exec(old_text);
    let esc_new = escape_xml_exec(new_text);
    let count: usize = if esc_old.len() == 0 {
        current.len() + 1
    } else {
        count_chars(&current, &esc_old)
    };
    if count == 0 {
        let mut e = chars_of("Substring not found in query of dataset '");
        push_chars(&mut e, &dataset_label_exec(xml_text, data_set));
        push_str(&mut e, "': ");
        push_chars(&mut e, old_text);
        return Err(e);
    }
    if once && count != 1 {
        let mut e = chars_of("@once: expected 1 occurrence of '");
        push_chars(&mut e, old_text);
        push_str(&mut e, "' in dataset '");
        push_chars(&mut e, &dataset_label_exec(xml_text, data_set));
        push_str(&mut e, "', found ");
        push_chars(&mut e, &usize_text(count));
        return Err(e);
    }
    let patched = if esc_old.len() == 0 {
        interleave_exec(&current, &esc_new)
    } else {
        replace_chars(&current, &esc_old, &esc_new)
    };
    splice(xml_text, a, b, &patched);
    Ok(count)
}

/// Removing, one after the other, every `child` element of the range (the end
/// of the range cut to the text as it shrinks), each with its line.
pub closed spec fn remove_children_by_name(t: Seq<char>, range: (int, int), child: Seq<char>) -> Seq<char>
    decreases t.len(),
{
    let current = (range.0, min_int(range.1, t.len() as int));
    match child_element_range(t, current, child) {
        None => t,
        Some((s, e)) => {
            proof {
                lemma_child_element_range(t, current, child);
                lemma_element_line_range(t, s, e);
            }
            let (a, b) = element_line_range(t, s, e);
            remove_children_by_name(spliced(t, a, b, Seq::empty()), range, child)
        },
    }
}

/// Whether the range holds a `child` element at all.
pub closed spec fn has_child_element(t: Seq<char>, range: (int, int), child: Seq<char>) -> bool {
    child_element_range(t, (range.0, min_int(range.1, t.len() as int)), child) is Some
}

pub fn skd_edit_remove_parameter_children_by_name(xml_text: &mut Vec<char>, range: (usize, usize), child: &[char]) -> (r: bool)
    ensures
        final(xml_text)@ == remove_children_by_name(old(xml_text)@, (range.0 as int, range.1 as int), child@),
        r == has_child_element(old(xml_text)@, (range.0 as int, range.1 as int), child@),
{
    let ghost target = remove_children_by_name(xml_text@, (range.0 as int, range.1 as int), child@);
    let mut removed = false;
    loop
        invariant_except_break
            removed ==> has_child_element(old(xml_text)@, (range.0 as int, range.1 as int), child@),
            !removed ==> xml_text@ == old(xml_text)@,
        invariant
            target == remove_children_by_name(xml_text@, (range.0 as int, range.1 as int), child@),
        ensures
            xml_text@ == target,
            removed == has_child_element(old(xml_text)@, (range.0 as int, range.1 as int), child@),
        decreases xml_text@.len(),
    {
        let end = if range.1 < xml_text.len() {
            range.1
        } else {
            xml_text.len()
        };
        match skd_edit_child_element_range(xml_text, (range.0, end), child) {
            None => {
                break;
            },
            Some((s, e)) => {
                proof {
                    lemma_child_element_range(xml_text@, (range.0 as int, end as int), child@);
                }
                let (a, b) = skd_edit_element_line_range(xml_text, s, e);
                let empty: Vec<char> = Vec::new();
                assert(empty@ =~= Seq::<char>::empty());
                splice(xml_text, a, b, &empty);
                removed = true;
            },
        }
    }
    removed
}

pub fn skd_edit_remove_parameter_value_children(xml_text: &mut Vec<char>, range: (usize, usize)) -> (r: bool)
    ensures
        final(xml_text)@ == remove_children_by_name(old(xml_text)@, (range.0 as int, range.1 as int), "value"@),
        r == has_child_element(old(xml_text)@, (range.0 as int, range.1 as int), "value"@),
{
    let child = chars_of("value");
    skd_edit_remove_parameter_children_by_name(xml_text, range, &child)
}

pub fn skd_edit_remove_parameter_available_value_children(xml_text: &mut Vec<char>, range: (usize, usize)) -> (r: bool)
    ensures
        final(xml_text)@ == remove_children_by_name(old(xml_text)@, (range.0 as int, range.1 as int), "availableValue"@),
        r == has_child_element(old(xml_text)@, (range.0 as int, range.1 as int), "availableValue"@),
{
    let child = chars_of("availableValue");
    skd_edit_remove_parameter_children_by_name(xml_text, range, &child)
}

/// Inserting a fragment (then a line break and a tab) before the last
/// `</dataSet>` of the range.
pub open spec fn insert_before_dataset_close(t: Seq<char>, range: (int, int), fragment: Seq<char>) -> Result<Seq<char>, Seq<char>> {
    match last_match(t, "</dataSet>"@, range.0, range.1) {
        None => Err("No closing </dataSet> found"@),
        Some(p) => Ok(spliced(t, p, p, fragment + "\n\t"@)),
    }
}

pub fn skd_edit_insert_before_dataset_close(xml_text: &mut Vec<char>, range: (usize, usize), fragment: &[char]) -> (r: Result<(), Vec<char>>)
    requires
        range.0 <= range.1 <= old(xml_text)@.len(),
    ensures
        edit_done(r, old(xml_text)@, final(xml_text)@, insert_before_dataset_close(old(xml_text)@, (range.0 as int, range.1 as int), fragment@)),
{
    let close = chars_of("</dataSet>");
    match rfind_in(xml_text, &close, range.0, range.1) {
        None => Err(chars_of("No closing </dataSet> found")),
        Some(p) => {
            proof {
                lemma_last_match_bounds(xml_text@, close@, range.0 as int, range.1 as int);
            }
            let mut ins = crate::text::to_vec(fragment);
            push_str(&mut ins, "\n\t");
            splice(xml_text, p, p, &ins);
            Ok(())
        },
    }
}

/// Inserting a fragment line into a data set before its `<dataSource>` or
/// `<query>` line, whichever comes first; else before its end tag.
pub open spec fn insert_before_dataset_payload(t: Seq<char>, range: (int, int), fragment: Seq<char>) -> Result<Seq<char>, Seq<char>> {
    match min_prefixed_pos(t, "\n\t\t<"@, seq!["dataSource"@, "query"@], range.0, range.1, 2) {
        Some(p) => Ok(spliced(t, p, p, fragment + "\n"@)),
        None => insert_before_dataset_close(t, range, fragment),
    }
}

pub fn skd_edit_insert_before_dataset_payload(xml_text: &mut Vec<char>, range: (usize, usize), fragment: &[char]) -> (r: Result<(), Vec<char>>)
    requires
        range.0 <= range.1 <= old(xml_text)@.len(),
    ensures
        edit_done(r, old(xml_text)@, final(xml_text)@, insert_before_dataset_payload(old(xml_text)@, (range.0 as int, range.1 as int), fragment@)),
{
    proof {
        reveal_strlit("\n\t\t<");
    }
    let prefix = chars_of("\n\t\t<");
    let tags: &'static [&'static str] = &["dataSource", "query"];
    assert(lit_views(tags@) =~= seq!["dataSource"@, "query"@]);
    match min_prefixed_pos_exec(xml_text, &prefix, tags, range.0, range.1) {
        Some(p) => {
            let mut ins = crate::text::to_vec(fragment);
            push_str(&mut ins, "\n");
            splice(xml_text, p, p, &ins);
            Ok(())
        },
        None => skd_edit_insert_before_dataset_close(xml_text, range, fragment),
    }
}

/// Adding an item to an existing element whose extent is `x`: a self-closing
/// tag is opened up around the fragment; otherwise the fragment goes on its own
/// line before the line of the end tag.
pub open spec fn insert_into_element(t: Seq<char>, x: (int, int, int, int, bool), container: Seq<char>, fragment: Seq<char>) -> Seq<char> {
    if x.4 {
        spliced(
            t,
            x.0,
            x.3,
            "<"@ + container + ">\n"@ + fragment + "\n"@ + line_indent(t, x.0) + "</"@ + container + ">"@,
        )
    } else {
        let p = match last_match(t, "\n"@, 0, x.2) {
            Some(i) => i + 1,
            None => x.2,
        };
        spliced(t, p, p, fragment + "\n"@)
    }
}

pub fn skd_edit_insert_into_prefixed_range(xml_text: &mut Vec<char>, range: SkdEditElementRange, container: &[char], fragment: &[char])
    requires
        range.start <= range.end <= old(xml_text)@.len(),
        range.close_start <= old(xml_text)@.len(),
    ensures
        final(xml_text)@ == insert_into_element(old(xml_text)@, element_view(range), container@, fragment@),
{
    if range.self_closing {
        let indent = skd_edit_line_indent(xml_text, range.start);
        let mut rep = enclose("<", container, ">\n");
        push_chars(&mut rep, fragment);
        push_str(&mut rep, "\n");
        push_chars(&mut rep, &indent);
        push_chars(&mut rep, &enclose("</", container, ">"));
        assert(rep@ =~= "<"@ + container@ + ">\n"@ + fragment@ + "\n"@ + indent@ + "</"@ + container@ + ">"@);
        splice(xml_text, range.start, range.end, &rep);
    } else {
        let nl = chars_of("\n");
        let p = match rfind_in(xml_text, &nl, 0, range.close_start) {
            Some(i) => {
                proof {
                    reveal_strlit("\n");
                    lemma_last_match_bounds(xml_text@, nl@, 0, range.close_start as int);
                }
                i + 1
            },
            None => range.close_start,
        };
        let mut ins = crate::text::to_vec(fragment);
        push_str(&mut ins, "\n");
        splice(xml_text, p, p, &ins);
    }
}

/// Adding an item to a settings section of a variant.
pub open spec fn insert_prefixed_item(t: Seq<char>, variant: Seq<char>, container: Seq<char>, fragment: Seq<char>) -> Result<Seq<char>, Seq<char>> {
    match prefixed_container_range(t, variant, container) {
        Err(e) => Err(e),
        Ok(x) => Ok(insert_into_element(t, x, container, fragment)),
    }
}

pub fn skd_edit_insert_prefixed_item(xml_text: &mut Vec<char>, variant: &[char], container: &[char], fragment: &[char]) -> (r: Result<(), Vec<char>>)
    ensures
        edit_done(r, old(xml_text)@, final(xml_text)@, insert_prefixed_item(old(xml_text)@, variant@, container@, fragment@)),
{
    match skd_edit_prefixed_container_range(xml_text, variant, container) {
        Err(e) => Err(e),
        Ok(x) => {
            skd_edit_insert_into_prefixed_range(xml_text, x, container, fragment);
            Ok(())
        },
    }
}

/// Emptying a settings section: its content becomes a line break and the
/// section's indentation; a self-closing section stays as it is.
pub open spec fn clear_prefixed_container(t: Seq<char>, variant: Seq<char>, container: Seq<char>) -> Result<Seq<char>, Seq<char>> {
    match prefixed_container_range(t, variant, container) {
        Err(e) => Err(e),
        Ok(x) => if x.4 {
            Ok(t)
        } else {
            Ok(spliced(t, x.1, x.2, "\n"@ + line_indent(t, x.0)))
        },
    }
}

pub fn skd_edit_clear_prefixed_container(xml_text: &mut Vec<char>, variant: &[char], container: &[char]) -> (r: Result<(), Vec<char>>)
    ensures
        edit_done(r, old(xml_text)@, final(xml_text)@, clear_prefixed_container(old(xml_text)@, variant@, container@)),
{
    match skd_edit_prefixed_container_range(xml_text, variant, container) {
        Err(e) => Err(e),
        Ok(x) => {
            if x.self_closing {
                return Ok(());
            }
            let indent = skd_edit_line_indent(xml_text, x.start);
            let mut rep = chars_of("\n");
            push_chars(&mut rep, &indent);
            splice(xml_text, x.open_end, x.close_start, &rep);
            Ok(())
        },
    }
}

/// Whether a settings section lists `<dcsset:field>{field}</dcsset:field>`.
pub open spec fn prefixed_container_contains_field(t: Seq<char>, variant: Seq<char>, container: Seq<char>, field: Seq<char>) -> bool {
    match prefixed_container_range(t, variant, container) {
        Err(_) => false,
        Ok(x) => !x.4 && contains(t.subrange(x.1, x.2), "<dcsset:field>"@ + escape_xml(field) + "</dcsset:field>"@),
    }
}

pub fn skd_edit_prefixed_container_contains_field(xml_text: &[char], variant: &[char], container: &[char], field: &[char]) -> (b: bool)
    ensures
        b == prefixed_container_contains_field(xml_text@, variant@, container@, field@),
{
    match skd_edit_prefixed_container_range(xml_text, variant, container) {
        Err(_) => false,
        Ok(x) => {
            if x.self_closing {
                return false;
            }
            let inner = crate::text::slice_to_vec(xml_text, x.open_end, x.close_start);
            let probe = wrap_name("<dcsset:field>", field, "</dcsset:field>");
            contains_chars(&inner, &probe)
        },
    }
}

/// Adding an item to a settings section, creating the section (after the
/// sections that precede it, indented one tab deeper than the settings) when
/// the variant has none.
pub open spec fn insert_or_create_settings_item(t: Seq<char>, variant: Seq<char>, container: Seq<char>, fragment: Seq<char>) -> Result<Seq<char>, Seq<char>> {
    match insert_prefixed_item(t, variant, container, fragment) {
        Ok(n) => Ok(n),
        Err(_) => match settings_element_range(t, variant) {
            Err(e) => Err(e),
            Ok((s0, s1)) => {
                let pos = match new_container_insert_pos(t, variant, container) {
                    Ok(p) => p,
                    Err(_) => line_start(t, s1 - "</dcsset:settings>"@.len()),
                };
                let ci = line_indent(t, s0) + "\t"@;
                Ok(spliced(t, pos, pos, ci + "<"@ + container + ">\n"@ + fragment + "\n"@ + ci + "</"@ + container + ">\n"@))
            },
        },
    }
}

pub fn skd_edit_insert_or_create_settings_item(xml_text: &mut Vec<char>, variant: &[char], container: &[char], fragment: &[char]) -> (r: Result<(), Vec<char>>)
    ensures
        edit_done(r, old(xml_text)@, final(xml_text)@, insert_or_create_settings_item(old(xml_text)@, variant@, container@, fragment@)),
{
    match skd_edit_insert_prefixed_item(xml_text, variant, container, fragment) {
        Ok(()) => Ok(()),
        Err(_) => {
            let (s0, s1) = match skd_edit_settings_element_range(xml_text, variant) {
                Err(e) => {
                    return Err(e);
                },
                Ok(r) => r,
            };
            proof {
                reveal_strlit("</dcsset:settings>");
                lemma_settings_element_range(xml_text@, variant@);
            }
            let pos = match skd_edit_new_settings_container_insert_pos(xml_text, variant, container) {
                Ok(p) => p,
                Err(_) => skd_edit_line_start(xml_text, s1 - 18),
            };
            let mut ci = skd_edit_line_indent(xml_text, s0);
            push_str(&mut ci, "\t");
            let mut ins = crate::text::to_vec(&ci);
            push_chars(&mut ins, &enclose("<", container, ">\n"));
            push_chars(&mut ins, fragment);
            push_str(&mut ins, "\n");
            push_chars(&mut ins, &ci);
            push_chars(&mut ins, &enclose("</", container, ">\n"));
            assert(ins@ =~= ci@ + "<"@ + container@ + ">\n"@ + fragment@ + "\n"@ + ci@ + "</"@ + container@ + ">\n"@);
            splice(xml_text, pos, pos, &ins);
            Ok(())
        },
    }
}

/// From `cursor` (before `limit`): the first `item` element whose block has the
/// `child` text `value`; an element with no end is an error.
pub open spec fn item_scan(
    t: Seq<char>,
    limit: int,
    item: Seq<char>,
    child: Seq<char>,
    value: Seq<char>,
    cursor: int,
) -> Result<Option<(int, int)>, Seq<char>>
    decreases limit - cursor,
{
    if cursor >= limit {
        Ok(None)
    } else {
        match first_match(t, "<"@ + item, cursor, limit) {
            None => Ok(None),
            Some(s) => {
                proof {
                    lemma_first_match_bounds(t, "<"@ + item, cursor, limit);
                    lemma_element_end_bounds(t, s, limit, item);
                }
                match element_end(t, s, limit, item) {
                    None => Err("No closing </"@ + item + "> found"@),
                    Some(e) => if block_has_child_text(t.subrange(s, e), child, value) {
                        Ok(Some((s, e)))
                    } else {
                        item_scan(t, limit, item, child, value, e)
                    },
                }
            },
        }
    }
}

pub proof fn lemma_item_scan(
    t: Seq<char>,
    limit: int,
    item: Seq<char>,
    child: Seq<char>,
    value: Seq<char>,
    cursor: int,
)
    requires
        0 <= cursor,
        limit <= t.len(),
    ensures
        item_scan(t, limit, item, child, value, cursor) matches Ok(Some((s, e))) ==> cursor <= s < e
            <= limit,
    decreases limit - cursor,
{
    if cursor < limit {
        lemma_first_match_bounds(t, "<"@ + item, cursor, limit);
        match first_match(t, "<"@ + item, cursor, limit) {
            None => {},
            Some(s) => {
                lemma_element_end_bounds(t, s, limit, item);
                match element_end(t, s, limit, item) {
                    None => {},
                    Some(e) => if !block_has_child_text(t.subrange(s, e), child, value) {
                        lemma_item_scan(t, limit, item, child, value, e);
                    },
                }
            },
        }
    }
}

/// Removing (with its line) the first `item` element of the range whose
/// `child` text is `value`: the new text, `None` when there is no such item.
pub open spec fn remove_item_by_child(t: Seq<char>, range: (int, int), item: Seq<char>, child: Seq<char>, value: Seq<char>) -> Result<Option<Seq<char>>, Seq<char>> {
    match item_scan(t, range.1, item, child, value, range.0) {
        Err(e) => Err(e),
        Ok(None) => Ok(None),
        Ok(Some((s, e))) => {
            let (a, b) = element_line_range(t, s, e);
            Ok(Some(spliced(t, a, b, Seq::empty())))
        },
    }
}

/// Whether an edit that may fail or not apply did what its specification says.
pub open spec fn removal_done(r: Result<bool, Vec<char>>, before: Seq<char>, after: Seq<char>, spec: Result<Option<Seq<char>>, Seq<char>>) -> bool {
    match spec {
        Ok(Some(n)) => r == Ok::<bool, Vec<char>>(true) && after == n,
        Ok(None) => r == Ok::<bool, Vec<char>>(false) && after == before,
        Err(e) => r matches Err(x) && x@ == e && after == before,
    }
}

pub fn skd_edit_remove_item_by_child(
    xml_text: &mut Vec<char>,
    range: (usize, usize),
    item: &[char],
    child: &[char],
    value: &[char],
) -> (r: Result<bool, Vec<char>>)
    requires
        range.0 <= range.1 <= old(xml_text)@.len(),
    ensures
        removal_done(r, old(xml_text)@, final(xml_text)@, remove_item_by_child(old(xml_text)@, (range.0 as int, range.1 as int), item@, child@, value@)),
{
    proof {
        reveal_strlit("");
    }
    let open = enclose("<", item, "");
    assert(open@ =~= "<"@ + item@);
    let ghost t0 = xml_text@;
    let mut cursor = range.0;
    while cursor < range.1
        invariant
            xml_text@ == t0,
            t0 == old(xml_text)@,
            range.1 <= t0.len(),
            open@ == "<"@ + item@,
            item_scan(t0, range.1 as int, item@, child@, value@, range.0 as int) == item_scan(
                t0,
                range.1 as int,
                item@,
                child@,
                value@,
                cursor as int,
            ),
        decreases range.1 - cursor,
    {
        let s = match find_in(xml_text, &open, cursor, range.1) {
            None => {
                return Ok(false);
            },
            Some(s) => s,
        };
        proof {
            lemma_first_match_bounds(t0, open@, cursor as int, range.1 as int);
        }
        let e = match skd_edit_matching_element_end(xml_text, s, range.1, item) {
            None => {
                return Err(enclose("No closing </", item, "> found"));
            },
            Some(e) => e,
        };
        let block = crate::text::slice_to_vec(xml_text, s, e);
        if skd_edit_block_has_child_text(&block, child, value) {
            let (a, b) = skd_edit_element_line_range(xml_text, s, e);
            let empty: Vec<char> = Vec::new();
            assert(empty@ =~= Seq::<char>::empty());
            splice(xml_text, a, b, &empty);
            return Ok(true);
        }
        cursor = e;
    }
    Ok(false)
}

/// Removing an item of the selected data set.
pub open spec fn remove_dataset_item(t: Seq<char>, data_set: Seq<char>, item: Seq<char>, child: Seq<char>, value: Seq<char>) -> Result<Option<Seq<char>>, Seq<char>> {
    match dataset_range(t, data_set) {
        Err(e) => Err(e),
        Ok(r) => remove_item_by_child(t, r, item, child, value),
    }
}

pub fn skd_edit_remove_dataset_item(xml_text: &mut Vec<char>, data_set: &[char], item: &[char], child: &[char], value: &[char]) -> (r: Result<bool, Vec<char>>)
    ensures
        removal_done(r, old(xml_text)@, final(xml_text)@, remove_dataset_item(old(xml_text)@, data_set@, item@, child@, value@)),
{
    match skd_edit_dataset_range(xml_text, data_set) {
        Err(e) => Err(e),
        Ok(range) => skd_edit_remove_item_by_child(xml_text, range, item, child, value),
    }
}

/// Removing an item anywhere in the text.
pub fn skd_edit_remove_top_level_item(xml_text: &mut Vec<char>, item: &[char], child: &[char], value: &[char]) -> (r: Result<bool, Vec<char>>)
    ensures
        removal_done(r, old(xml_text)@, final(xml_text)@, remove_item_by_child(old(xml_text)@, (0, old(xml_text)@.len() as int), item@, child@, value@)),
{
    let n = xml_text.len();
    skd_edit_remove_item_by_child(xml_text, (0, n), item, child, value)
}

/// Removing a field from a variant's selection; nothing when the selection is
/// missing or empty.
pub open spec fn remove_selection_field(t: Seq<char>, variant: Seq<char>, field: Seq<char>) -> Result<Option<Seq<char>>, Seq<char>> {
    match prefixed_container_range(t, variant, "dcsset:selection"@) {
        Err(_) => Ok(None),
        Ok(x) => if x.4 {
            Ok(None)
        } else {
            remove_item_by_child(t, (x.1, x.2), "dcsset:item"@, "dcsset:field"@, field)
        },
    }
}

pub fn skd_edit_remove_prefixed_selection_field(xml_text: &mut Vec<char>, variant: &[char], field: &[char]) -> (r: Result<bool, Vec<char>>)
    ensures
        removal_done(r, old(xml_text)@, final(xml_text)@, remove_selection_field(old(xml_text)@, variant@, field@)),
{
    let container = chars_of("dcsset:selection");
    match skd_edit_prefixed_container_range(xml_text, variant, &container) {
        Err(_) => Ok(false),
        Ok(x) => {
            if x.self_closing {
                return Ok(false);
            }
            let item = chars_of("dcsset:item");
            let child = chars_of("dcsset:field");
            skd_edit_remove_item_by_child(xml_text, (x.open_end, x.close_start), &item, &child, field)
        },
    }
}

/// The item of a settings section whose `child` text is `key`: `Err(Some(e))`
/// when the section is missing, `Err(None)` when the item is.
pub open spec fn locate_item(t: Seq<char>, variant: Seq<char>, container: Seq<char>, item: Seq<char>, child: Seq<char>, key: Seq<char>) -> Result<(int, int), Option<Seq<char>>> {
    match prefixed_container_range(t, variant, container) {
        Err(e) => Err(Some(e)),
        Ok(x) => match item_by_child_from(t, x.2, item, child, key, x.1) {
            None => Err(None),
            Some(r) => Ok(r),
        },
    }
}

pub fn locate_item_exec(t: &[char], variant: &[char], container: &[char], item: &[char], child: &[char], key: &[char]) -> (r: Result<(usize, usize), Option<Vec<char>>>)
    ensures
        r matches Ok((a, b)) ==> locate_item(t@, variant@, container@, item@, child@, key@) == Ok::<(int, int), Option<Seq<char>>>((a as int, b as int)) && a < b <= t@.len(),
        r matches Err(Some(x)) ==> locate_item(t@, variant@, container@, item@, child@, key@) == Err::<(int, int), Option<Seq<char>>>(Some(x@)),
        r matches Err(None) ==> locate_item(t@, variant@, container@, item@, child@, key@) == Err::<(int, int), Option<Seq<char>>>(None),
{
    match skd_edit_prefixed_container_range(t, variant, container) {
        Err(e) => Err(Some(e)),
        Ok(x) => match skd_edit_find_item_by_child(t, (x.open_end, x.close_start), item, child, key) {
            None => Err(None),
            Some(r) => Ok(r),
        },
    }
}

/// One change to a settings item: none, put a child element (replacing the one
/// there, else before the first of the named children), or drop a child.
pub enum ItemEdit {
    Keep,
    Put(Seq<char>, Seq<char>, Seq<Seq<char>>),
    Drop(Seq<char>),
}

pub open spec fn apply_item_edit(t: Seq<char>, r: (int, int), e: ItemEdit) -> Seq<char> {
    match e {
        ItemEdit::Keep => t,
        ItemEdit::Put(child, fragment, before) => replace_or_insert_child(t, r, child, fragment, before),
        ItemEdit::Drop(child) => match remove_child_element(t, r, child) {
            Some(n) => n,
            None => t,
        },
    }
}

/// The changes applied one after the other, the item located anew before each;
/// on failure, the text reached and the error (`missing` for a lost item).
pub open spec fn item_edit_steps(
    t: Seq<char>,
    variant: Seq<char>,
    container: Seq<char>,
    item: Seq<char>,
    child: Seq<char>,
    key: Seq<char>,
    edits: Seq<ItemEdit>,
    missing: Seq<char>,
) -> Result<Seq<char>, (Seq<char>, Seq<char>)>
    decreases edits.len(),
{
    if edits.len() == 0 {
        Ok(t)
    } else {
        match locate_item(t, variant, container, item, child, key) {
            Err(Some(e)) => Err((t, e)),
            Err(None) => Err((t, missing)),
            Ok(r) => item_edit_steps(apply_item_edit(t, r, edits[0]), variant, container, item, child, key, edits.drop_first(), missing),
        }
    }
}

/// A change in executable form.
pub enum ItemEditExec {
    Keep,
    Put(Vec<char>, Vec<char>, &'static [&'static str]),
    Drop(Vec<char>),
}

pub open spec fn edit_view(e: ItemEditExec) -> ItemEdit {
    match e {
        ItemEditExec::Keep => ItemEdit::Keep,
        ItemEditExec::Put(c, f, b) => ItemEdit::Put(c@, f@, lit_views(b@)),
        ItemEditExec::Drop(c) => ItemEdit::Drop(c@),
    }
}

pub fn apply_item_edit_exec(xml_text: &mut Vec<char>, r: (usize, usize), e: &ItemEditExec)
    requires
        r.0 <= r.1 <= old(xml_text)@.len(),
    ensures
        final(xml_text)@ == apply_item_edit(old(xml_text)@, (r.0 as int, r.1 as int), edit_view(*e)),
{
    match e {
        ItemEditExec::Keep => {},
        ItemEditExec::Put(child, fragment, before) => {
            skd_edit_replace_or_insert_child_fragment(xml_text, r, child, fragment, before);
        },
        ItemEditExec::Drop(child) => {
            let _ = skd_edit_remove_child_element(xml_text, r, child);
        },
    }
}

pub fn item_edit_steps_exec(
    xml_text: &mut Vec<char>,
    variant: &[char],
    container: &[char],
    item: &[char],
    child: &[char],
    key: &[char],
    edits: &Vec<ItemEditExec>,
    missing: &[char],
) -> (r: Result<(), Vec<char>>)
    ensures
        match item_edit_steps(old(xml_text)@, variant@, container@, item@, child@, key@, edits@.map_values(|e: ItemEditExec| edit_view(e)), missing@) {
            Ok(n) => r is Ok && final(xml_text)@ == n,
            Err((n, e)) => r matches Err(x) && x@ == e && final(xml_text)@ == n,
        },
{
    let ghost all = edits@.map_values(|e: ItemEditExec| edit_view(e));
    let ghost target = item_edit_steps(xml_text@, variant@, container@, item@, child@, key@, all, missing@);
    assert(all.skip(0) =~= all);
    let mut i: usize = 0;
    while i < edits.len()
        invariant
            i <= edits@.len(),
            all == edits@.map_values(|e: ItemEditExec| edit_view(e)),
            target == item_edit_steps(old(xml_text)@, variant@, container@, item@, child@, key@, all, missing@),
            target == item_edit_steps(xml_text@, variant@, container@, item@, child@, key@, all.skip(i as int), missing@),
        decreases edits.len() - i,
    {
        proof {
            assert(all.skip(i as int)[0] == edit_view(edits@[i as int]));
            assert(all.skip(i as int).drop_first() =~= all.skip(i + 1));
        }
        match locate_item_exec(xml_text, variant, container, item, child, key) {
            Err(Some(e)) => {
                return Err(e);
            },
            Err(None) => {
                return Err(crate::text::to_vec(missing));
            },
            Ok(r) => {
                apply_item_edit_exec(xml_text, r, &edits[i]);
            },
        }
        i = i + 1;
    }
    assert(all.skip(i as int) =~= Seq::<ItemEdit>::empty());
    Ok(())
}

/// `{indent}{open}{escaped text}{close}`.
fn tagged_line(indent: &[char], open: &str, text: &[char], close: &str) -> (r: Vec<char>)
    ensures
        r@ == indent@ + open@ + escape_xml(text@) + close@,
{
    let mut r = crate::text::to_vec(indent);
    push_str(&mut r, open);
    push_chars(&mut r, &escape_xml_exec(text));
    push_str(&mut r, close);
    r
}

/// The label a message uses for a variant: its name, else the given one.
pub open spec fn variant_label(t: Seq<char>, variant: Seq<char>) -> Seq<char> {
    match variant_name(t, variant) {
        Some(n) => n,
        None => variant,
    }
}

pub(crate) fn variant_label_exec(t: &[char], variant: &[char]) -> (r: Vec<char>)
    ensures
        r@ == variant_label(t@, variant@),
{
    match skd_edit_variant_name(t, variant) {
        Some(n) => n,
        None => crate::text::to_vec(variant),
    }
}

/// The outcome of a modification: the final text, what it adds to the output,
/// and the result.
pub open spec fn modified(r: Result<bool, Vec<char>>, text: Seq<char>, out: Seq<char>, spec: (Seq<char>, Seq<char>, Result<bool, Seq<char>>)) -> bool {
    &&& text == spec.0
    &&& out == spec.1
    &&& match spec.2 {
        Ok(b) => r == Ok::<bool, Vec<char>>(b),
        Err(e) => r matches Err(x) && x@ == e,
    }
}

/// The changes `modify-filter` makes after the comparison type, in order.
pub open spec fn filter_edits(f: crate::skd_values::SkdEditFilter, ci: Seq<char>) -> Seq<ItemEdit> {
    seq![
        if f.value@.len() > 0 {
            ItemEdit::Put(
                "dcsset:right"@,
                ci + "<dcsset:right xsi:type=\""@ + f.value_type@ + "\">"@ + escape_xml(f.value@) + "</dcsset:right>"@,
                seq!["dcsset:viewMode"@, "dcsset:userSettingID"@],
            )
        } else {
            ItemEdit::Keep
        },
        match f.use_flag {
            Some(false) => ItemEdit::Put(
                "dcsset:use"@,
                ci + "<dcsset:use>false</dcsset:use>"@,
                seq!["dcsset:left"@, "dcsset:comparisonType"@, "dcsset:right"@],
            ),
            Some(true) => ItemEdit::Drop("dcsset:use"@),
            None => ItemEdit::Keep,
        },
        match f.view_mode {
            Some(v) => ItemEdit::Put("dcsset:viewMode"@, ci + "<dcsset:viewMode>"@ + escape_xml(v@) + "</dcsset:viewMode>"@, seq!["dcsset:userSettingID"@]),
            None => ItemEdit::Keep,
        },
        match f.user_setting_id {
            Some(u) => ItemEdit::Put(
                "dcsset:userSettingID"@,
                ci + "<dcsset:userSettingID>"@ + escape_xml(u@) + "</dcsset:userSettingID>"@,
                Seq::empty(),
            ),
            None => ItemEdit::Keep,
        },
    ]
}


fn filter_edit_list(filter: &crate::skd_values::SkdEditFilter, ci: &[char]) -> (edits: Vec<ItemEditExec>)
    ensures
        edits@.map_values(|e: ItemEditExec| edit_view(e)) == filter_edits(*filter, ci@),
{
    let mut edits: Vec<ItemEditExec> = Vec::new();
    if filter.value.len() > 0 {
        let mut frag = crate::text::to_vec(ci);
        push_str(&mut frag, "<dcsset:right xsi:type=\"");
        push_chars(&mut frag, &filter.value_type);
        push_str(&mut frag, "\">");
        push_chars(&mut frag, &escape_xml_exec(&filter.value));
        push_str(&mut frag, "</dcsset:right>");
        let b: &'static [&'static str] = &["dcsset:viewMode", "dcsset:userSettingID"];
        assert(lit_views(b@) =~= seq!["dcsset:viewMode"@, "dcsset:userSettingID"@]);
        edits.push(ItemEditExec::Put(chars_of("dcsset:right"), frag, b));
    } else {
        edits.push(ItemEditExec::Keep);
    }
    match filter.use_flag {
        Some(false) => {
            let mut frag = crate::text::to_vec(ci);
            push_str(&mut frag, "<dcsset:use>false</dcsset:use>");
            let b: &'static [&'static str] = &["dcsset:left", "dcsset:comparisonType", "dcsset:right"];
            assert(lit_views(b@) =~= seq!["dcsset:left"@, "dcsset:comparisonType"@, "dcsset:right"@]);
            edits.push(ItemEditExec::Put(chars_of("dcsset:use"), frag, b));
        },
        Some(true) => {
            edits.push(ItemEditExec::Drop(chars_of("dcsset:use")));
        },
        None => {
            edits.push(ItemEditExec::Keep);
        },
    }
    match &filter.view_mode {
        Some(v) => {
            let frag = tagged_line(ci, "<dcsset:viewMode>", v, "</dcsset:viewMode>");
            let b: &'static [&'static str] = &["dcsset:userSettingID"];
            assert(lit_views(b@) =~= seq!["dcsset:userSettingID"@]);
            edits.push(ItemEditExec::Put(chars_of("dcsset:viewMode"), frag, b));
        },
        None => {
            edits.push(ItemEditExec::Keep);
        },
    }
    match &filter.user_setting_id {
        Some(u) => {
            let frag = tagged_line(ci, "<dcsset:userSettingID>", u, "</dcsset:userSettingID>");
            let b: &'static [&'static str] = &[];
            assert(lit_views(b@) =~= Seq::<Seq<char>>::empty());
            edits.push(ItemEditExec::Put(chars_of("dcsset:userSettingID"), frag, b));
        },
        None => {
            edits.push(ItemEditExec::Keep);
        },
    }
    assert(edits@.map_values(|e: ItemEditExec| edit_view(e)) =~= filter_edits(*filter, ci@));
    edits
}

/// `modify-filter`: updates the filter item on the field in the variant's
/// filter section (its comparison, value, use flag, view mode and setting id),
/// or warns when the section or the item is missing.
pub open spec fn modify_filter(t: Seq<char>, variant: Seq<char>, f: crate::skd_values::SkdEditFilter) -> (Seq<char>, Seq<char>, Result<bool, Seq<char>>) {
    let var_name = variant_label(t, variant);
    match locate_item(t, variant, "dcsset:filter"@, "dcsset:item"@, "dcsset:left"@, f.field@) {
        Err(Some(_)) => (t, "[WARN] No filter section in variant \""@ + var_name + "\"\n"@, Ok(false)),
        Err(None) => (t, "[WARN] Filter for \""@ + f.field@ + "\" not found in variant \""@ + var_name + "\"\n"@, Ok(false)),
        Ok(r) => {
            let ci = line_indent(t, r.0) + "\t"@;
            let t1 = replace_or_insert_child(
                t,
                r,
                "dcsset:comparisonType"@,
                ci + "<dcsset:comparisonType>"@ + escape_xml(f.operator@) + "</dcsset:comparisonType>"@,
                seq!["dcsset:right"@, "dcsset:viewMode"@, "dcsset:userSettingID"@],
            );
            match item_edit_steps(t1, variant, "dcsset:filter"@, "dcsset:item"@, "dcsset:left"@, f.field@, filter_edits(f, ci), "Filter for \""@ + f.field@ + "\" not found"@) {
                Ok(n) => (n, "[OK] Filter \""@ + f.field@ + "\" modified in variant \""@ + var_name + "\"\n"@, Ok(true)),
                Err((n, e)) => (n, Seq::empty(), Err(e)),
            }
        },
    }
}

#[verifier::rlimit(80)]
#[verifier::spinoff_prover]
pub fn skd_edit_modify_filter(xml_text: &mut Vec<char>, variant: &[char], filter: &crate::skd_values::SkdEditFilter, stdout: &mut Vec<char>) -> (r: Result<bool, Vec<char>>)
    ensures
        modified(r, final(xml_text)@, final(stdout)@.subrange(old(stdout)@.len() as int, final(stdout)@.len() as int), modify_filter(old(xml_text)@, variant@, *filter)),
        old(stdout)@.len() <= final(stdout)@.len(),
        final(stdout)@.subrange(0, old(stdout)@.len() as int) == old(stdout)@,
{
    let ghost out0 = stdout@;
    let var_name = variant_label_exec(xml_text, variant);
    let container = chars_of("dcsset:filter");
    let item = chars_of("dcsset:item");
    let child = chars_of("dcsset:left");
    let r = match locate_item_exec(xml_text, variant, &container, &item, &child, &filter.field) {
        Err(Some(_)) => {
            push_str(stdout, "[WARN] No filter section in variant \"");
            push_chars(stdout, &var_name);
            push_str(stdout, "\"\n");
            assert(stdout@.subrange(0, out0.len() as int) =~= out0);
            assert(stdout@.subrange(out0.len() as int, stdout@.len() as int) =~= modify_filter(old(xml_text)@, variant@, *filter).1);
            return Ok(false);
        },
        Err(None) => {
            push_str(stdout, "[WARN] Filter for \"");
            push_chars(stdout, &filter.field);
            push_str(stdout, "\" not found in variant \"");
            push_chars(stdout, &var_name);
            push_str(stdout, "\"\n");
            assert(stdout@.subrange(0, out0.len() as int) =~= out0);
            assert(stdout@.subrange(out0.len() as int, stdout@.len() as int) =~= modify_filter(old(xml_text)@, variant@, *filter).1);
            return Ok(false);
        },
        Ok(r) => r,
    };
    let mut ci = skd_edit_line_indent(xml_text, r.0);
    push_str(&mut ci, "\t");
    let first = tagged_line(&ci, "<dcsset:comparisonType>", &filter.operator, "</dcsset:comparisonType>");
    let comparison_child = chars_of("dcsset:comparisonType");
    let before0: &'static [&'static str] = &["dcsset:right", "dcsset:viewMode", "dcsset:userSettingID"];
    assert(lit_views(before0@) =~= seq!["dcsset:right"@, "dcsset:viewMode"@, "dcsset:userSettingID"@]);
    skd_edit_replace_or_insert_child_fragment(xml_text, r, &comparison_child, &first, before0);
    let edits = filter_edit_list(filter, &ci);
    let missing = enclose("Filter for \"", &filter.field, "\" not found");
    match item_edit_steps_exec(xml_text, variant, &container, &item, &child, &filter.field, &edits, &missing) {
        Err(e) => {
            assert(stdout@.subrange(out0.len() as int, stdout@.len() as int) =~= Seq::<char>::empty());
            assert(stdout@.subrange(0, out0.len() as int) =~= out0);
            Err(e)
        },
        Ok(()) => {
            push_str(stdout, "[OK] Filter \"");
            push_chars(stdout, &filter.field);
            push_str(stdout, "\" modified in variant \"");
            push_chars(stdout, &var_name);
            push_str(stdout, "\"\n");
            assert(stdout@.subrange(0, out0.len() as int) =~= out0);
            assert(stdout@.subrange(out0.len() as int, stdout@.len() as int) =~= modify_filter(old(xml_text)@, variant@, *filter).1);
            Ok(true)
        },
    }
}

/// The changes `modify-dataParameter` makes, in order.
pub open spec fn data_parameter_edits(p: crate::skd_values::SkdEditDataParameter, item_indent: Seq<char>) -> Seq<ItemEdit> {
    let ci = item_indent + "\t"@;
    seq![
        match p.use_flag {
            Some(false) => ItemEdit::Put("dcscor:use"@, ci + "<dcscor:use>false</dcscor:use>"@, seq!["dcscor:parameter"@, "dcscor:value"@]),
            Some(true) => ItemEdit::Drop("dcscor:use"@),
            None => ItemEdit::Keep,
        },
        match p.value {
            Some(v) => ItemEdit::Put(
                "dcscor:value"@,
                join(settings_value_lines("dcscor:value"@, v@, item_indent), "\n"@),
                seq!["dcsset:viewMode"@, "dcsset:userSettingID"@],
            ),
            None => ItemEdit::Keep,
        },
        match p.view_mode {
            Some(v) => ItemEdit::Put("dcsset:viewMode"@, ci + "<dcsset:viewMode>"@ + escape_xml(v@) + "</dcsset:viewMode>"@, seq!["dcsset:userSettingID"@]),
            None => ItemEdit::Keep,
        },
        match p.user_setting_id {
            Some(u) => ItemEdit::Put(
                "dcsset:userSettingID"@,
                ci + "<dcsset:userSettingID>"@ + escape_xml(u@) + "</dcsset:userSettingID>"@,
                Seq::empty(),
            ),
            None => ItemEdit::Keep,
        },
    ]
}

fn data_parameter_edit_list(p: &crate::skd_values::SkdEditDataParameter, item_indent: &[char]) -> (edits: Vec<ItemEditExec>)
    ensures
        edits@.map_values(|e: ItemEditExec| edit_view(e)) == data_parameter_edits(*p, item_indent@),
{
    let mut ci = crate::text::to_vec(item_indent);
    push_str(&mut ci, "\t");
    let mut edits: Vec<ItemEditExec> = Vec::new();
    match p.use_flag {
        Some(false) => {
            let mut frag = crate::text::to_vec(&ci);
            push_str(&mut frag, "<dcscor:use>false</dcscor:use>");
            let b: &'static [&'static str] = &["dcscor:parameter", "dcscor:value"];
            assert(lit_views(b@) =~= seq!["dcscor:parameter"@, "dcscor:value"@]);
            edits.push(ItemEditExec::Put(chars_of("dcscor:use"), frag, b));
        },
        Some(true) => {
            edits.push(ItemEditExec::Drop(chars_of("dcscor:use")));
        },
        None => {
            edits.push(ItemEditExec::Keep);
        },
    }
    match &p.value {
        Some(v) => {
            let tag = chars_of("dcscor:value");
            let lines = skd_edit_settings_value_lines(&tag, v, item_indent);
            let frag = crate::text::join_str(&lines, "\n");
            let b: &'static [&'static str] = &["dcsset:viewMode", "dcsset:userSettingID"];
            assert(lit_views(b@) =~= seq!["dcsset:viewMode"@, "dcsset:userSettingID"@]);
            edits.push(ItemEditExec::Put(tag, frag, b));
        },
        None => {
            edits.push(ItemEditExec::Keep);
        },
    }
    match &p.view_mode {
        Some(v) => {
            let frag = tagged_line(&ci, "<dcsset:viewMode>", v, "</dcsset:viewMode>");
            let b: &'static [&'static str] = &["dcsset:userSettingID"];
            assert(lit_views(b@) =~= seq!["dcsset:userSettingID"@]);
            edits.push(ItemEditExec::Put(chars_of("dcsset:viewMode"), frag, b));
        },
        None => {
            edits.push(ItemEditExec::Keep);
        },
    }
    match &p.user_setting_id {
        Some(u) => {
            let frag = tagged_line(&ci, "<dcsset:userSettingID>", u, "</dcsset:userSettingID>");
            let b: &'static [&'static str] = &[];
            assert(lit_views(b@) =~= Seq::<Seq<char>>::empty());
            edits.push(ItemEditExec::Put(chars_of("dcsset:userSettingID"), frag, b));
        },
        None => {
            edits.push(ItemEditExec::Keep);
        },
    }
    assert(edits@.map_values(|e: ItemEditExec| edit_view(e)) =~= data_parameter_edits(*p, item_indent@));
    edits
}

/// `modify-dataParameter`: updates the data parameter item of the variant (its
/// use flag, value, view mode and setting id), or warns when the section or the
/// item is missing.
pub open spec fn modify_data_parameter(t: Seq<char>, variant: Seq<char>, p: crate::skd_values::SkdEditDataParameter) -> (Seq<char>, Seq<char>, Result<bool, Seq<char>>) {
    let var_name = variant_label(t, variant);
    match locate_item(t, variant, "dcsset:dataParameters"@, "dcscor:item"@, "dcscor:parameter"@, p.parameter@) {
        Err(Some(_)) => (t, "[WARN] No dataParameters section in variant \""@ + var_name + "\"\n"@, Ok(false)),
        Err(None) => (t, "[WARN] DataParameter \""@ + p.parameter@ + "\" not found in variant \""@ + var_name + "\"\n"@, Ok(false)),
        Ok(r) => {
            let edits = data_parameter_edits(p, line_indent(t, r.0));
            let t1 = apply_item_edit(t, r, edits[0]);
            match item_edit_steps(t1, variant, "dcsset:dataParameters"@, "dcscor:item"@, "dcscor:parameter"@, p.parameter@, edits.drop_first(), "DataParameter \""@ + p.parameter@ + "\" not found"@) {
                Ok(n) => (n, "[OK] DataParameter \""@ + p.parameter@ + "\" modified in variant \""@ + var_name + "\"\n"@, Ok(true)),
                Err((n, e)) => (n, Seq::empty(), Err(e)),
            }
        },
    }
}

#[verifier::rlimit(80)]
#[verifier::spinoff_prover]
pub fn skd_edit_modify_data_parameter(xml_text: &mut Vec<char>, variant: &[char], param: &crate::skd_values::SkdEditDataParameter, stdout: &mut Vec<char>) -> (r: Result<bool, Vec<char>>)
    ensures
        modified(r, final(xml_text)@, final(stdout)@.subrange(old(stdout)@.len() as int, final(stdout)@.len() as int), modify_data_parameter(old(xml_text)@, variant@, *param)),
        old(stdout)@.len() <= final(stdout)@.len(),
        final(stdout)@.subrange(0, old(stdout)@.len() as int) == old(stdout)@,
{
    let ghost out0 = stdout@;
    let var_name = variant_label_exec(xml_text, variant);
    let container = chars_of("dcsset:dataParameters");
    let item = chars_of("dcscor:item");
    let child = chars_of("dcscor:parameter");
    let r = match locate_item_exec(xml_text, variant, &container, &item, &child, &param.parameter) {
        Err(Some(_)) => {
            push_str(stdout, "[WARN] No dataParameters section in variant \"");
            push_chars(stdout, &var_name);
            push_str(stdout, "\"\n");
            assert(stdout@.subrange(0, out0.len() as int) =~= out0);
            assert(stdout@.subrange(out0.len() as int, stdout@.len() as int) =~= modify_data_parameter(old(xml_text)@, variant@, *param).1);
            return Ok(false);
        },
        Err(None) => {
            push_str(stdout, "[WARN] DataParameter \"");
            push_chars(stdout, &param.parameter);
            push_str(stdout, "\" not found in variant \"");
            push_chars(stdout, &var_name);
            push_str(stdout, "\"\n");
            assert(stdout@.subrange(0, out0.len() as int) =~= out0);
            assert(stdout@.subrange(out0.len() as int, stdout@.len() as int) =~= modify_data_parameter(old(xml_text)@, variant@, *param).1);
            return Ok(false);
        },
        Ok(r) => r,
    };
    let item_indent = skd_edit_line_indent(xml_text, r.0);
    let mut edits = data_parameter_edit_list(param, &item_indent);
    let first = edits.remove(0);
    proof {
        assert(edits@.map_values(|e: ItemEditExec| edit_view(e)) =~= data_parameter_edits(*param, item_indent@).drop_first());
    }
    apply_item_edit_exec(xml_text, r, &first);
    let missing = enclose("DataParameter \"", &param.parameter, "\" not found");
    match item_edit_steps_exec(xml_text, variant, &container, &item, &child, &param.parameter, &edits, &missing) {
        Err(e) => {
            assert(stdout@.subrange(out0.len() as int, stdout@.len() as int) =~= Seq::<char>::empty());
            assert(stdout@.subrange(0, out0.len() as int) =~= out0);
            Err(e)
        },
        Ok(()) => {
            push_str(stdout, "[OK] DataParameter \"");
            push_chars(stdout, &param.parameter);
            push_str(stdout, "\" modified in variant \"");
            push_chars(stdout, &var_name);
            push_str(stdout, "\"\n");
            assert(stdout@.subrange(0, out0.len() as int) =~= out0);
            assert(stdout@.subrange(out0.len() as int, stdout@.len() as int) =~= modify_data_parameter(old(xml_text)@, variant@, *param).1);
            Ok(true)
        },
    }
}

/// The words of a `set-field-role` value sorted into data path words, `@flag`s
/// (empty flags dropped) and `key=value` pairs, each in order.
pub open spec fn role_value_parts(ws: Seq<Seq<char>>) -> (Seq<Seq<char>>, Seq<Seq<char>>, Seq<(Seq<char>, Seq<char>)>)
    decreases ws.len(),
{
    if ws.len() == 0 {
        (Seq::empty(), Seq::empty(), Seq::empty())
    } else {
        let (dp, flags, kv) = role_value_parts(ws.drop_last());
        let part = ws.last();
        if part.len() > 0 && part[0] == '@' {
            if part.len() > 1 {
                (dp, flags.push(part.subrange(1, part.len() as int)), kv)
            } else {
                (dp, flags, kv)
            }
        } else {
            match crate::text::split_once(part, "="@) {
                Some((k, v)) => (dp, flags, kv.push((k, v))),
                None => (dp.push(part), flags, kv),
            }
        }
    }
}

pub open spec fn kv_views(v: Seq<(Vec<char>, Vec<char>)>) -> Seq<(Seq<char>, Seq<char>)> {
    v.map_values(|x: (Vec<char>, Vec<char>)| (x.0@, x.1@))
}

fn role_value_parts_exec(value: &[char]) -> (r: (Vec<Vec<char>>, Vec<Vec<char>>, Vec<(Vec<char>, Vec<char>)>))
    ensures
        (views(r.0@), views(r.1@), kv_views(r.2@)) == role_value_parts(crate::text::words(value@)),
{
    let ws = crate::text::split_whitespace(value);
    let ghost all = views(ws@);
    let mut dp: Vec<Vec<char>> = Vec::new();
    let mut flags: Vec<Vec<char>> = Vec::new();
    let mut kv: Vec<(Vec<char>, Vec<char>)> = Vec::new();
    let mut i: usize = 0;
    while i < ws.len()
        invariant
            i <= ws@.len(),
            all == views(ws@),
            (views(dp@), views(flags@), kv_views(kv@)) == role_value_parts(all.take(i as int)),
        decreases ws.len() - i,
    {
        proof {
            assert(all.take(i + 1).drop_last() =~= all.take(i as int));
            assert(all.take(i + 1).last() == ws@[i as int]@);
            reveal_strlit("=");
        }
        let part = &ws[i];
        if part.len() > 0 && part[0] == '@' {
            if part.len() > 1 {
                let f = crate::text::slice_to_vec(part, 1, part.len());
                proof {
                    crate::text::lemma_views_push(flags@, f);
                }
                flags.push(f);
            }
        } else {
            match crate::text::split_once_str(part, "=") {
                Some((k, v)) => {
                    let ghost before = kv_views(kv@);
                    kv.push((k, v));
                    assert(kv_views(kv@) =~= before.push((kv@.last().0@, kv@.last().1@)));
                },
                None => {
                    let c = crate::text::to_vec(part);
                    proof {
                        crate::text::lemma_views_push(dp@, c);
                    }
                    dp.push(c);
                },
            }
        }
        i = i + 1;
    }
    assert(all.take(i as int) =~= all);
    (dp, flags, kv)
}

/// Role elements kept when a field's role is rewritten: those not managed by
/// flags or by the given keys.
pub open spec fn known_role_names() -> Seq<Seq<char>> {
    seq![
        "periodNumber"@,
        "periodType"@,
        "dimension"@,
        "ignoreNullsInGroups"@,
        "balance"@,
        "account"@,
        "accountTypeExpression"@,
        "additionType"@,
        "addition"@,
    ]
}

/// The first index in `[i, e)` whose char ends a name, if any.
pub open spec fn name_end_before(t: Seq<char>, i: int, e: int) -> Option<int>
    decreases e - i,
{
    if i >= e {
        None
    } else if crate::skd_xml::ends_name(t[i]) {
        Some(i)
    } else {
        name_end_before(t, i + 1, e)
    }
}

pub proof fn lemma_name_end_before(t: Seq<char>, i: int, e: int)
    ensures
        name_end_before(t, i, e) matches Some(k) ==> i <= k < e,
    decreases e - i,
{
    if i < e && !crate::skd_xml::ends_name(t[i]) {
        lemma_name_end_before(t, i + 1, e);
    }
}

/// From `cursor` (before the end of the role content `ce`): the trimmed text of
/// each `dcscom:` element whose name is neither known nor among `keys`.
pub open spec fn preserved_from(t: Seq<char>, ce: int, keys: Seq<Seq<char>>, cursor: int) -> Seq<Seq<char>>
    decreases ce - cursor,
{
    if cursor >= ce {
        Seq::empty()
    } else {
        match first_match(t, "<dcscom:"@, cursor, ce) {
            None => Seq::empty(),
            Some(start) => {
                proof {
                    reveal_strlit("<dcscom:");
                    reveal_strlit(">");
                    lemma_first_match_bounds(t, "<dcscom:"@, cursor, ce);
                }
                let ns = start + 8;
                match name_end_before(t, ns, ce) {
                    None => Seq::empty(),
                    Some(ne) => {
                        let name = t.subrange(ns, ne);
                        match first_match(t, ">"@, start, ce) {
                            None => Seq::empty(),
                            Some(oe) => {
                                proof {
                                    lemma_first_match_bounds(t, ">"@, start, ce);
                                }
                                let end = if crate::skd_xml::self_closing_tag(t, start, oe + 1) {
                                    Some(oe + 1)
                                } else {
                                    match first_match(t, "</dcscom:"@ + name + ">"@, oe + 1, ce) {
                                        None => None,
                                        Some(c) => Some(c + ("</dcscom:"@ + name + ">"@).len()),
                                    }
                                };
                                proof {
                                    lemma_first_match_bounds(t, "</dcscom:"@ + name + ">"@, oe + 1, ce);
                                }
                                match end {
                                    None => Seq::empty(),
                                    Some(e) => {
                                        let rest = preserved_from(t, ce, keys, e);
                                        if !crate::text::is_one_of(name, known_role_names()) && !crate::text::is_one_of(name, keys) {
                                            seq![crate::text::trim(t.subrange(start, e))] + rest
                                        } else {
                                            rest
                                        }
                                    },
                                }
                            },
                        }
                    },
                }
            },
        }
    }
}

/// The role elements of a field to keep: those after the start tag of its
/// `<role>` element that flags and the given keys do not manage.
pub open spec fn preserved_role_children(t: Seq<char>, field_range: (int, int), keys: Seq<Seq<char>>) -> Seq<Seq<char>> {
    match child_element_range(t, field_range, "role"@) {
        None => Seq::empty(),
        Some((r0, r1)) => match first_match(t, ">"@, r0, r1) {
            None => Seq::empty(),
            Some(o) => {
                let cs = o + 1;
                let ce0 = if r1 >= 7 {
                    r1 - 7
                } else {
                    0
                };
                let ce = if ce0 > cs {
                    ce0
                } else {
                    cs
                };
                preserved_from(t, ce, keys, cs)
            },
        },
    }
}

pub open spec fn kv_keys(kv: Seq<(Seq<char>, Seq<char>)>) -> Seq<Seq<char>> {
    kv.map_values(|x: (Seq<char>, Seq<char>)| x.0)
}

fn is_preserved_name(name: &[char], kv: &Vec<(Vec<char>, Vec<char>)>) -> (b: bool)
    ensures
        b == (!crate::text::is_one_of(name@, known_role_names()) && !crate::text::is_one_of(name@, kv_keys(kv_views(kv@)))),
{
    let known: &'static [&'static str] = &[
        "periodNumber",
        "periodType",
        "dimension",
        "ignoreNullsInGroups",
        "balance",
        "account",
        "accountTypeExpression",
        "additionType",
        "addition",
    ];
    assert(lit_views(known@) =~= known_role_names());
    if crate::text::is_one_of_exec(name, known) {
        return false;
    }
    let ghost keys = kv_keys(kv_views(kv@));
    let mut i: usize = 0;
    while i < kv.len()
        invariant
            i <= kv@.len(),
            keys == kv_keys(kv_views(kv@)),
            keys.len() == kv@.len(),
            forall|k: int| 0 <= k < i ==> name@ != #[trigger] keys[k],
        decreases kv.len() - i,
    {
        if crate::text::eq_chars(name, &kv[i].0) {
            assert(name@ == keys[i as int]);
            return false;
        }
        i = i + 1;
    }
    true
}

pub fn skd_edit_preserved_role_children(xml_text: &[char], field_range: (usize, usize), kv: &Vec<(Vec<char>, Vec<char>)>) -> (r: Vec<Vec<char>>)
    ensures
        views(r@) == preserved_role_children(xml_text@, (field_range.0 as int, field_range.1 as int), kv_keys(kv_views(kv@))),
{
    proof {
        reveal_strlit("<dcscom:");
        reveal_strlit(">");
        reveal_strlit("</dcscom:");
    }
    let role = chars_of("role");
    let (r0, r1) = match skd_edit_child_element_range(xml_text, field_range, &role) {
        None => {
            return Vec::new();
        },
        Some(x) => x,
    };
    let o = match find_str(xml_text, ">", r0, r1) {
        None => {
            return Vec::new();
        },
        Some(o) => o,
    };
    proof {
        lemma_first_match_bounds(xml_text@, ">"@, r0 as int, r1 as int);
    }
    let cs = o + 1;
    let ce0 = if r1 >= 7 {
        r1 - 7
    } else {
        0
    };
    let ce = if ce0 > cs {
        ce0
    } else {
        cs
    };
    let ghost keys = kv_keys(kv_views(kv@));
    let ghost target = preserved_from(xml_text@, ce as int, keys, cs as int);
    let open = chars_of("<dcscom:");
    let gt = chars_of(">");
    let mut result: Vec<Vec<char>> = Vec::new();
    let mut cursor = cs;
    while cursor < ce
        invariant
            ce <= xml_text@.len(),
            open@ == "<dcscom:"@,
            open@.len() == 8,
            gt@ == ">"@,
            gt@.len() == 1,
            keys == kv_keys(kv_views(kv@)),
            target == views(result@) + preserved_from(xml_text@, ce as int, keys, cursor as int),
        ensures
            preserved_from(xml_text@, ce as int, keys, cursor as int) == Seq::<Seq<char>>::empty(),
        decreases ce - cursor,
    {
        let start = match find_in(xml_text, &open, cursor, ce) {
            None => {
                break;
            },
            Some(s) => s,
        };
        proof {
            lemma_first_match_bounds(xml_text@, open@, cursor as int, ce as int);
        }
        let ns = start + 8;
        let mut ne = ns;
        while ne < ce && !(xml_text[ne] == '>' || xml_text[ne] == '/' || crate::text::is_whitespace(xml_text[ne]))
            invariant
                ns <= ne <= ce <= xml_text@.len(),
                name_end_before(xml_text@, ns as int, ce as int) == name_end_before(xml_text@, ne as int, ce as int),
            decreases ce - ne,
        {
            ne = ne + 1;
        }
        if ne >= ce {
            break;
        }
        let name = crate::text::slice_to_vec(xml_text, ns, ne);
        let oe = match find_in(xml_text, &gt, start, ce) {
            None => {
                break;
            },
            Some(x) => x,
        };
        proof {
            lemma_first_match_bounds(xml_text@, gt@, start as int, ce as int);
        }
        let end = if crate::skd_xml::is_self_closing_tag(xml_text, start, oe + 1) {
            oe + 1
        } else {
            let close = enclose("</dcscom:", &name, ">");
            match find_in(xml_text, &close, oe + 1, ce) {
                None => {
                    break;
                },
                Some(c) => {
                    proof {
                        lemma_first_match_bounds(xml_text@, close@, oe + 1, ce as int);
                    }
                    c + close.len()
                },
            }
        };
        if is_preserved_name(&name, kv) {
            let block = crate::text::slice_to_vec(xml_text, start, end);
            let kept = crate::text::trim_chars(&block);
            proof {
                crate::text::lemma_views_push(result@, kept);
            }
            result.push(kept);
        }
        cursor = end;
    }
    assert(target =~= views(result@));
    result
}

/// The role lines of `key=value` pairs.
pub open spec fn kv_role_lines(kv: Seq<(Seq<char>, Seq<char>)>) -> Seq<Seq<char>>
    decreases kv.len(),
{
    if kv.len() == 0 {
        Seq::empty()
    } else {
        kv_role_lines(kv.drop_last()).push(
            "\t\t\t\t<dcscom:"@ + kv.last().0 + ">"@ + escape_xml(kv.last().1) + "</dcscom:"@ + kv.last().0 + ">"@,
        )
    }
}

/// The new `<role>` element of a field: flags, pairs, then the kept elements.
pub open spec fn role_block_lines(flags: Seq<Seq<char>>, kv: Seq<(Seq<char>, Seq<char>)>, preserved: Seq<Seq<char>>) -> Seq<Seq<char>> {
    seq!["\t\t\t<role>"@] + crate::skd_fragments::role_flag_lines(flags, "\t\t\t"@) + kv_role_lines(kv) + preserved.map_values(
        |r: Seq<char>| "\t\t\t\t"@ + r,
    ) + seq!["\t\t\t</role>"@]
}

/// How the new role is described: `@flag …` and `key=value …`.
pub open spec fn role_summary(flags: Seq<Seq<char>>, kv: Seq<(Seq<char>, Seq<char>)>) -> Seq<char> {
    join(
        (if flags.len() > 0 {
            seq![join(flags.map_values(|f: Seq<char>| "@"@ + f), " "@)]
        } else {
            Seq::empty()
        }) + (if kv.len() > 0 {
            seq![join(kv.map_values(|x: (Seq<char>, Seq<char>)| x.0 + "="@ + x.1), " "@)]
        } else {
            Seq::empty()
        }),
        " "@,
    )
}

/// Where a field's new `<role>` goes: before its `valueType` or
/// `inputParameters` line, else before its end tag, else at its end.
pub open spec fn role_insert_pos(t: Seq<char>, f: (int, int)) -> int {
    match min_prefixed_pos(t, "\n\t\t\t<"@, seq!["valueType"@, "inputParameters"@], f.0, f.1, 2) {
        Some(p) => p,
        None => match last_match(t, "\n\t\t</field>"@, f.0, f.1) {
            Some(q) => q,
            None => f.1,
        },
    }
}

/// `set-field-role`: replaces the `<role>` of the field named by the value's
/// plain words with the value's flags and pairs (keeping role elements neither
/// manages), or just removes it when the value has none.
pub open spec fn set_field_role(t: Seq<char>, data_set: Seq<char>, value: Seq<char>) -> (Seq<char>, Seq<char>, Result<(), Seq<char>>) {
    let (dp_parts, flags, kv) = role_value_parts(crate::text::words(value));
    let data_path = join(dp_parts, " "@);
    if data_path.len() == 0 {
        (t, "[WARN] set-field-role: empty dataPath\n"@, Ok(()))
    } else {
        match dataset_range(t, data_set) {
            Err(e) => (t, Seq::empty(), Err(e)),
            Ok(range) => match item_by_child_from(t, range.1, "field"@, "dataPath"@, data_path, range.0) {
                None => (t, "[WARN] Field \""@ + data_path + "\" not found\n"@, Ok(())),
                Some(fr) => {
                    let preserved = preserved_role_children(t, fr, kv_keys(kv));
                    let t1 = match remove_child_block(t, fr, "role"@) {
                        Some(n) => n,
                        None => t,
                    };
                    if flags.len() > 0 || kv.len() > 0 {
                        match dataset_range(t1, data_set) {
                            Err(e) => (t1, Seq::empty(), Err(e)),
                            Ok(range2) => match item_by_child_from(t1, range2.1, "field"@, "dataPath"@, data_path, range2.0) {
                                None => (t1, Seq::empty(), Err("Field \""@ + data_path + "\" not found"@)),
                                Some(fr2) => {
                                    let p = role_insert_pos(t1, fr2);
                                    (
                                        spliced(t1, p, p, join(role_block_lines(flags, kv, preserved), "\n"@) + "\n"@),
                                        "[OK] Field \""@ + data_path + "\" role set: "@ + role_summary(flags, kv) + "\n"@,
                                        Ok(()),
                                    )
                                },
                            },
                        }
                    } else {
                        (t1, "[OK] Field \""@ + data_path + "\" role cleared\n"@, Ok(()))
                    }
                },
            },
        }
    }
}

/// The outcome of an edit that can fail: the final text, what it adds to the
/// output, and the result.
pub open spec fn edited(r: Result<(), Vec<char>>, text: Seq<char>, out: Seq<char>, spec: (Seq<char>, Seq<char>, Result<(), Seq<char>>)) -> bool {
    &&& text == spec.0
    &&& out == spec.1
    &&& match spec.2 {
        Ok(()) => r is Ok,
        Err(e) => r matches Err(x) && x@ == e,
    }
}

fn role_block_exec(flags: &Vec<Vec<char>>, kv: &Vec<(Vec<char>, Vec<char>)>, preserved: &Vec<Vec<char>>) -> (r: Vec<char>)
    ensures
        r@ == join(role_block_lines(views(flags@), kv_views(kv@), views(preserved@)), "\n"@) + "\n"@,
{
    let mut lines: Vec<Vec<char>> = Vec::new();
    crate::skd_fragments::push_line(&mut lines, chars_of("\t\t\t<role>"));
    let ind = chars_of("\t\t\t");
    let ghost a = views(lines@);
    let mut i: usize = 0;
    while i < flags.len()
        invariant
            i <= flags@.len(),
            ind@ == "\t\t\t"@,
            views(lines@) == a + crate::skd_fragments::role_flag_lines(views(flags@).take(i as int), "\t\t\t"@),
        decreases flags.len() - i,
    {
        proof {
            assert(views(flags@).take(i + 1).drop_last() =~= views(flags@).take(i as int));
            assert(views(flags@).take(i + 1).last() == flags@[i as int]@);
        }
        if crate::text::eq_str(&flags[i], "period") {
            crate::skd_fragments::push_line(&mut lines, crate::skd_fragments::lit(&ind, "\t<dcscom:periodNumber>1</dcscom:periodNumber>"));
            crate::skd_fragments::push_line(&mut lines, crate::skd_fragments::lit(&ind, "\t<dcscom:periodType>Main</dcscom:periodType>"));
        } else {
            let mut l = crate::skd_fragments::lit(&ind, "\t<dcscom:");
            push_chars(&mut l, &flags[i]);
            push_str(&mut l, ">true</dcscom:");
            push_chars(&mut l, &flags[i]);
            push_str(&mut l, ">");
            crate::skd_fragments::push_line(&mut lines, l);
        }
        assert(views(lines@) =~= a + crate::skd_fragments::role_flag_lines(views(flags@).take(i + 1), "\t\t\t"@));
        i = i + 1;
    }
    assert(views(flags@).take(i as int) =~= views(flags@));
    let ghost b = views(lines@);
    let mut j: usize = 0;
    while j < kv.len()
        invariant
            j <= kv@.len(),
            views(lines@) == b + kv_role_lines(kv_views(kv@).take(j as int)),
        decreases kv.len() - j,
    {
        proof {
            assert(kv_views(kv@).take(j + 1).drop_last() =~= kv_views(kv@).take(j as int));
        }
        let mut l = chars_of("\t\t\t\t<dcscom:");
        push_chars(&mut l, &kv[j].0);
        push_str(&mut l, ">");
        push_chars(&mut l, &escape_xml_exec(&kv[j].1));
        push_str(&mut l, "</dcscom:");
        push_chars(&mut l, &kv[j].0);
        push_str(&mut l, ">");
        crate::skd_fragments::push_line(&mut lines, l);
        assert(views(lines@) =~= b + kv_role_lines(kv_views(kv@).take(j + 1)));
        j = j + 1;
    }
    assert(kv_views(kv@).take(j as int) =~= kv_views(kv@));
    let ghost c = views(lines@);
    let mut k: usize = 0;
    while k < preserved.len()
        invariant
            k <= preserved@.len(),
            views(lines@) == c + views(preserved@).take(k as int).map_values(|r: Seq<char>| "\t\t\t\t"@ + r),
        decreases preserved.len() - k,
    {
        let mut l = chars_of("\t\t\t\t");
        push_chars(&mut l, &preserved[k]);
        crate::skd_fragments::push_line(&mut lines, l);
        assert(views(preserved@).take(k + 1).map_values(|r: Seq<char>| "\t\t\t\t"@ + r) =~= views(preserved@).take(k as int).map_values(|r: Seq<char>| "\t\t\t\t"@ + r).push("\t\t\t\t"@ + preserved@[k as int]@));
        k = k + 1;
    }
    assert(views(preserved@).take(k as int) =~= views(preserved@));
    crate::skd_fragments::push_line(&mut lines, chars_of("\t\t\t</role>"));
    assert(views(lines@) =~= role_block_lines(views(flags@), kv_views(kv@), views(preserved@)));
    let mut r = crate::text::join_str(&lines, "\n");
    push_str(&mut r, "\n");
    r
}

fn role_summary_exec(flags: &Vec<Vec<char>>, kv: &Vec<(Vec<char>, Vec<char>)>) -> (r: Vec<char>)
    ensures
        r@ == role_summary(views(flags@), kv_views(kv@)),
{
    let mut parts: Vec<Vec<char>> = Vec::new();
    if flags.len() > 0 {
        let mut fs: Vec<Vec<char>> = Vec::new();
        let mut i: usize = 0;
        while i < flags.len()
            invariant
                i <= flags@.len(),
                views(fs@) == views(flags@).take(i as int).map_values(|f: Seq<char>| "@"@ + f),
            decreases flags.len() - i,
        {
            let mut f = chars_of("@");
            push_chars(&mut f, &flags[i]);
            proof {
                crate::text::lemma_views_push(fs@, f);
            }
            fs.push(f);
            assert(views(flags@).take(i + 1).map_values(|f: Seq<char>| "@"@ + f) =~= views(flags@).take(i as int).map_values(|f: Seq<char>| "@"@ + f).push("@"@ + flags@[i as int]@));
            i = i + 1;
        }
        assert(views(flags@).take(i as int) =~= views(flags@));
        crate::skd_fragments::push_line(&mut parts, crate::text::join_str(&fs, " "));
    }
    let ghost a = views(parts@);
    if kv.len() > 0 {
        let mut ps: Vec<Vec<char>> = Vec::new();
        let mut j: usize = 0;
        while j < kv.len()
            invariant
                j <= kv@.len(),
                views(ps@) == kv_views(kv@).take(j as int).map_values(|x: (Seq<char>, Seq<char>)| x.0 + "="@ + x.1),
            decreases kv.len() - j,
        {
            let mut p = crate::text::to_vec(&kv[j].0);
            push_str(&mut p, "=");
            push_chars(&mut p, &kv[j].1);
            proof {
                crate::text::lemma_views_push(ps@, p);
            }
            ps.push(p);
            assert(kv_views(kv@).take(j + 1).map_values(|x: (Seq<char>, Seq<char>)| x.0 + "="@ + x.1) =~= kv_views(kv@).take(j as int).map_values(|x: (Seq<char>, Seq<char>)| x.0 + "="@ + x.1).push(kv@[j as int].0@ + "="@ + kv@[j as int].1@));
            j = j + 1;
        }
        assert(kv_views(kv@).take(j as int) =~= kv_views(kv@));
        crate::skd_fragments::push_line(&mut parts, crate::text::join_str(&ps, " "));
    }
    proof {
        if flags.len() == 0 {
            assert(a =~= Seq::<Seq<char>>::empty());
        }
        assert(views(parts@) =~= (if views(flags@).len() > 0 {
            seq![join(views(flags@).map_values(|f: Seq<char>| "@"@ + f), " "@)]
        } else {
            Seq::<Seq<char>>::empty()
        }) + (if kv_views(kv@).len() > 0 {
            seq![join(kv_views(kv@).map_values(|x: (Seq<char>, Seq<char>)| x.0 + "="@ + x.1), " "@)]
        } else {
            Seq::<Seq<char>>::empty()
        }));
    }
    crate::text::join_str(&parts, " ")
}

fn role_insert_pos_exec(t: &[char], f: (usize, usize)) -> (r: usize)
    requires
        f.0 <= f.1 <= t@.len(),
    ensures
        r as int == role_insert_pos(t@, (f.0 as int, f.1 as int)),
        f.0 <= r <= f.1,
{
    proof {
        reveal_strlit("\n\t\t\t<");
    }
    let prefix = chars_of("\n\t\t\t<");
    let tags: &'static [&'static str] = &["valueType", "inputParameters"];
    assert(lit_views(tags@) =~= seq!["valueType"@, "inputParameters"@]);
    match min_prefixed_pos_exec(t, &prefix, tags, f.0, f.1) {
        Some(p) => p,
        None => {
            let close = chars_of("\n\t\t</field>");
            match rfind_in(t, &close, f.0, f.1) {
                Some(q) => {
                    proof {
                        lemma_last_match_bounds(t@, close@, f.0 as int, f.1 as int);
                    }
                    q
                },
                None => f.1,
            }
        },
    }
}

#[verifier::rlimit(60)]
#[verifier::spinoff_prover]
pub fn skd_edit_set_field_role(xml_text: &mut Vec<char>, data_set: &[char], value: &[char], stdout: &mut Vec<char>) -> (r: Result<(), Vec<char>>)
    ensures
        edited(r, final(xml_text)@, final(stdout)@.subrange(old(stdout)@.len() as int, final(stdout)@.len() as int), set_field_role(old(xml_text)@, data_set@, value@)),
        old(stdout)@.len() <= final(stdout)@.len(),
        final(stdout)@.subrange(0, old(stdout)@.len() as int) == old(stdout)@,
{
    let ghost out0 = stdout@;
    let ghost spec = set_field_role(xml_text@, data_set@, value@);
    let (dp_parts, flags, kv) = role_value_parts_exec(value);
    let data_path = crate::text::join_str(&dp_parts, " ");
    if data_path.len() == 0 {
        push_str(stdout, "[WARN] set-field-role: empty dataPath\n");
        assert(stdout@.subrange(0, out0.len() as int) =~= out0);
        assert(stdout@.subrange(out0.len() as int, stdout@.len() as int) =~= spec.1);
        return Ok(());
    }
    let range = match skd_edit_dataset_range(xml_text, data_set) {
        Err(e) => {
            assert(stdout@.subrange(0, out0.len() as int) =~= out0);
            assert(stdout@.subrange(out0.len() as int, stdout@.len() as int) =~= spec.1);
            return Err(e);
        },
        Ok(x) => x,
    };
    let field_item = chars_of("field");
    let path_child = chars_of("dataPath");
    let fr = match skd_edit_find_item_by_child(xml_text, range, &field_item, &path_child, &data_path) {
        None => {
            push_str(stdout, "[WARN] Field \"");
            push_chars(stdout, &data_path);
            push_str(stdout, "\" not found\n");
            assert(stdout@.subrange(0, out0.len() as int) =~= out0);
            assert(stdout@.subrange(out0.len() as int, stdout@.len() as int) =~= spec.1);
            return Ok(());
        },
        Some(x) => x,
    };
    let preserved = skd_edit_preserved_role_children(xml_text, fr, &kv);
    let role = chars_of("role");
    let _ = skd_edit_remove_child_block(xml_text, fr, &role);
    if flags.len() > 0 || kv.len() > 0 {
        let range2 = match skd_edit_dataset_range(xml_text, data_set) {
            Err(e) => {
                assert(stdout@.subrange(0, out0.len() as int) =~= out0);
                assert(stdout@.subrange(out0.len() as int, stdout@.len() as int) =~= spec.1);
                return Err(e);
            },
            Ok(x) => x,
        };
        let fr2 = match skd_edit_find_item_by_child(xml_text, range2, &field_item, &path_child, &data_path) {
            None => {
                assert(stdout@.subrange(0, out0.len() as int) =~= out0);
                assert(stdout@.subrange(out0.len() as int, stdout@.len() as int) =~= spec.1);
                return Err(enclose("Field \"", &data_path, "\" not found"));
            },
            Some(x) => x,
        };
        let p = role_insert_pos_exec(xml_text, fr2);
        let block = role_block_exec(&flags, &kv, &preserved);
        splice(xml_text, p, p, &block);
        push_str(stdout, "[OK] Field \"");
        push_chars(stdout, &data_path);
        push_str(stdout, "\" role set: ");
        push_chars(stdout, &role_summary_exec(&flags, &kv));
        push_str(stdout, "\n");
    } else {
        push_str(stdout, "[OK] Field \"");
        push_chars(stdout, &data_path);
        push_str(stdout, "\" role cleared\n");
    }
    assert(stdout@.subrange(0, out0.len() as int) =~= out0);
    assert(stdout@.subrange(out0.len() as int, stdout@.len() as int) =~= spec.1);
    Ok(())
}

/// The given changes to the data set's field, one after the other; the field
/// is located anew before each change that is present.
pub open spec fn field_steps(t: Seq<char>, data_set: Seq<char>, data_path: Seq<char>, edits: Seq<Option<ItemEdit>>) -> Result<Seq<char>, (Seq<char>, Seq<char>)>
    decreases edits.len(),
{
    if edits.len() == 0 {
        Ok(t)
    } else {
        match edits[0] {
            None => field_steps(t, data_set, data_path, edits.drop_first()),
            Some(e) => match dataset_range(t, data_set) {
                Err(x) => Err((t, x)),
                Ok(r) => match item_by_child_from(t, r.1, "field"@, "dataPath"@, data_path, r.0) {
                    None => Err((t, "Field \""@ + data_path + "\" not found"@)),
                    Some(fr) => field_steps(apply_item_edit(t, fr, e), data_set, data_path, edits.drop_first()),
                },
            },
        }
    }
}

pub open spec fn opt_edit_view(e: Option<ItemEditExec>) -> Option<ItemEdit> {
    match e {
        Some(x) => Some(edit_view(x)),
        None => None,
    }
}

fn field_steps_exec(xml_text: &mut Vec<char>, data_set: &[char], data_path: &[char], edits: &Vec<Option<ItemEditExec>>) -> (r: Result<(), Vec<char>>)
    ensures
        match field_steps(old(xml_text)@, data_set@, data_path@, edits@.map_values(|e: Option<ItemEditExec>| opt_edit_view(e))) {
            Ok(n) => r is Ok && final(xml_text)@ == n,
            Err((n, e)) => r matches Err(x) && x@ == e && final(xml_text)@ == n,
        },
{
    let ghost all = edits@.map_values(|e: Option<ItemEditExec>| opt_edit_view(e));
    let ghost target = field_steps(xml_text@, data_set@, data_path@, all);
    assert(all.skip(0) =~= all);
    let field_item = chars_of("field");
    let path_child = chars_of("dataPath");
    let mut i: usize = 0;
    while i < edits.len()
        invariant
            i <= edits@.len(),
            field_item@ == "field"@,
            path_child@ == "dataPath"@,
            all == edits@.map_values(|e: Option<ItemEditExec>| opt_edit_view(e)),
            target == field_steps(old(xml_text)@, data_set@, data_path@, all),
            target == field_steps(xml_text@, data_set@, data_path@, all.skip(i as int)),
        decreases edits.len() - i,
    {
        proof {
            assert(all.skip(i as int)[0] == opt_edit_view(edits@[i as int]));
            assert(all.skip(i as int).drop_first() =~= all.skip(i + 1));
        }
        match &edits[i] {
            None => {},
            Some(e) => {
                let range = match skd_edit_dataset_range(xml_text, data_set) {
                    Err(x) => {
                        return Err(x);
                    },
                    Ok(x) => x,
                };
                match skd_edit_find_item_by_child(xml_text, range, &field_item, &path_child, data_path) {
                    None => {
                        return Err(enclose("Field \"", data_path, "\" not found"));
                    },
                    Some(fr) => {
                        apply_item_edit_exec(xml_text, fr, e);
                    },
                }
            },
        }
        i = i + 1;
    }
    assert(all.skip(i as int) =~= Seq::<Option<ItemEdit>>::empty());
    Ok(())
}

/// The changes `modify-field` makes: title, use restriction, role, value type.
pub open spec fn field_edits(f: crate::skd_values::SkdEditField) -> Seq<Option<ItemEdit>> {
    let restriction = crate::skd_fragments::field_restriction_fragment(views(f.restrict@), "\t\t\t"@);
    seq![
        if f.title@.len() > 0 {
            Some(ItemEdit::Put(
                "title"@,
                join(crate::skd_fragments::mltext_lines("\t\t\t"@, "title"@, f.title@), "\n"@),
                seq!["useRestriction"@, "role"@, "valueType"@, "inputParameters"@],
            ))
        } else {
            None
        },
        if f.restrict@.len() > 0 {
            Some(if restriction.len() > 0 {
                ItemEdit::Put("useRestriction"@, restriction, seq!["role"@, "valueType"@, "inputParameters"@])
            } else {
                ItemEdit::Keep
            })
        } else {
            None
        },
        if f.roles@.len() > 0 {
            Some(ItemEdit::Put(
                "role"@,
                crate::skd_fragments::field_role_fragment(views(f.roles@), "\t\t\t"@),
                seq!["valueType"@, "inputParameters"@],
            ))
        } else {
            None
        },
        if f.field_type@.len() > 0 {
            Some(ItemEdit::Put(
                "valueType"@,
                join(
                    seq!["\t\t\t<valueType>"@] + crate::skd_fragments::value_type_lines(f.field_type@, "\t\t\t\t"@) + seq![
                        "\t\t\t</valueType>"@,
                    ],
                    "\n"@,
                ),
                seq!["inputParameters"@],
            ))
        } else {
            None
        },
    ]
}

fn field_edit_list(f: &crate::skd_values::SkdEditField) -> (edits: Vec<Option<ItemEditExec>>)
    ensures
        edits@.map_values(|e: Option<ItemEditExec>| opt_edit_view(e)) == field_edits(*f),
{
    let ind = chars_of("\t\t\t");
    let mut edits: Vec<Option<ItemEditExec>> = Vec::new();
    if f.title.len() > 0 {
        let mut lines: Vec<Vec<char>> = Vec::new();
        let title = chars_of("title");
        crate::skd_fragments::skd_compile_emit_mltext(&mut lines, &ind, &title, &f.title);
        assert(views(lines@) =~= crate::skd_fragments::mltext_lines("\t\t\t"@, "title"@, f.title@));
        let b: &'static [&'static str] = &["useRestriction", "role", "valueType", "inputParameters"];
        assert(lit_views(b@) =~= seq!["useRestriction"@, "role"@, "valueType"@, "inputParameters"@]);
        edits.push(Some(ItemEditExec::Put(title, crate::text::join_str(&lines, "\n"), b)));
    } else {
        edits.push(None);
    }
    if f.restrict.len() > 0 {
        let frag = crate::skd_fragments::skd_edit_field_restriction_fragment(&f.restrict, &ind);
        if frag.len() > 0 {
            let b: &'static [&'static str] = &["role", "valueType", "inputParameters"];
            assert(lit_views(b@) =~= seq!["role"@, "valueType"@, "inputParameters"@]);
            edits.push(Some(ItemEditExec::Put(chars_of("useRestriction"), frag, b)));
        } else {
            edits.push(Some(ItemEditExec::Keep));
        }
    } else {
        edits.push(None);
    }
    if f.roles.len() > 0 {
        let frag = crate::skd_fragments::skd_edit_field_role_fragment(&f.roles, &ind);
        let b: &'static [&'static str] = &["valueType", "inputParameters"];
        assert(lit_views(b@) =~= seq!["valueType"@, "inputParameters"@]);
        edits.push(Some(ItemEditExec::Put(chars_of("role"), frag, b)));
    } else {
        edits.push(None);
    }
    if f.field_type.len() > 0 {
        let mut lines: Vec<Vec<char>> = Vec::new();
        crate::skd_fragments::push_line(&mut lines, chars_of("\t\t\t<valueType>"));
        let deeper = chars_of("\t\t\t\t");
        crate::skd_fragments::skd_compile_emit_value_type(&mut lines, &f.field_type, &deeper);
        crate::skd_fragments::push_line(&mut lines, chars_of("\t\t\t</valueType>"));
        assert(views(lines@) =~= seq!["\t\t\t<valueType>"@] + crate::skd_fragments::value_type_lines(f.field_type@, "\t\t\t\t"@) + seq![
            "\t\t\t</valueType>"@,
        ]);
        let b: &'static [&'static str] = &["inputParameters"];
        assert(lit_views(b@) =~= seq!["inputParameters"@]);
        edits.push(Some(ItemEditExec::Put(chars_of("valueType"), crate::text::join_str(&lines, "\n"), b)));
    } else {
        edits.push(None);
    }
    assert(edits@.map_values(|e: Option<ItemEditExec>| opt_edit_view(e)) =~= field_edits(*f));
    edits
}

/// `modify-field`: rewrites the parts the value gives of the data set's field;
/// `Ok(None)` when the data set has no such field.
pub open spec fn replace_dataset_field(t: Seq<char>, data_set: Seq<char>, f: crate::skd_values::SkdEditField) -> Result<Option<Seq<char>>, (Seq<char>, Seq<char>)> {
    match dataset_range(t, data_set) {
        Err(e) => Err((t, e)),
        Ok(r) => match item_by_child_from(t, r.1, "field"@, "dataPath"@, f.data_path@, r.0) {
            None => Ok(None),
            Some(_) => match field_steps(t, data_set, f.data_path@, field_edits(f)) {
                Ok(n) => Ok(Some(n)),
                Err(x) => Err(x),
            },
        },
    }
}

pub fn skd_edit_replace_dataset_field(xml_text: &mut Vec<char>, data_set: &[char], field: &crate::skd_values::SkdEditField) -> (r: Result<bool, Vec<char>>)
    ensures
        match replace_dataset_field(old(xml_text)@, data_set@, *field) {
            Ok(Some(n)) => r == Ok::<bool, Vec<char>>(true) && final(xml_text)@ == n,
            Ok(None) => r == Ok::<bool, Vec<char>>(false) && final(xml_text)@ == old(xml_text)@,
            Err((n, e)) => r matches Err(x) && x@ == e && final(xml_text)@ == n,
        },
{
    let range = match skd_edit_dataset_range(xml_text, data_set) {
        Err(e) => {
            return Err(e);
        },
        Ok(x) => x,
    };
    let field_item = chars_of("field");
    let path_child = chars_of("dataPath");
    match skd_edit_find_item_by_child(xml_text, range, &field_item, &path_child, &field.data_path) {
        None => {
            return Ok(false);
        },
        Some(_) => {},
    }
    let edits = field_edit_list(field);
    match field_steps_exec(xml_text, data_set, &field.data_path, &edits) {
        Ok(()) => Ok(true),
        Err(e) => Err(e),
    }
}

/// `add-field`: adds the field the value describes to the data set (before its
/// data source or query), unless a field with that path is there, then (unless
/// `no_selection`) to the variant's selection.
pub open spec fn add_field(t: Seq<char>, data_set: Seq<char>, variant: Seq<char>, value: Seq<char>, no_selection: bool) -> (Seq<char>, Seq<char>, Result<(), Seq<char>>) {
    let f = crate::skd_values::parsed_field(value);
    let dp = f.data_path;
    match dataset_range(t, data_set) {
        Err(e) => (t, Seq::empty(), Err(e)),
        Ok(range) => {
            let dname = dataset_label(t, data_set);
            if contains(t.subrange(range.0, range.1), "<dataPath>"@ + escape_xml(dp) + "</dataPath>"@) {
                (t, "[WARN] Field \""@ + dp + "\" already exists in dataset \""@ + dname + "\" -- skipped\n"@, Ok(()))
            } else {
                match insert_before_dataset_payload(t, range, join(crate::skd_fragments::field_spec_lines(f, "\t\t"@), "\n"@)) {
                    Err(e) => (t, Seq::empty(), Err(e)),
                    Ok(t1) => {
                        let out1 = "[OK] Field \""@ + dp + "\" added to dataset \""@ + dname + "\"\n"@;
                        if no_selection {
                            (t1, out1, Ok(()))
                        } else {
                            let indent = match container_child_indent(t1, variant, "dcsset:selection"@) {
                                Ok(i) => i,
                                Err(_) => "\t\t\t\t"@,
                            };
                            if prefixed_container_contains_field(t1, variant, "dcsset:selection"@, dp) {
                                (t1, out1 + "[INFO] Field \""@ + dp + "\" already in selection -- skipped\n"@, Ok(()))
                            } else {
                                match insert_prefixed_item(t1, variant, "dcsset:selection"@, crate::skd_fragments::selection_fragment(dp, indent)) {
                                    Ok(t2) => (
                                        t2,
                                        out1 + "[OK] Field \""@ + dp + "\" added to selection of variant \""@ + variant_label(t2, variant) + "\"\n"@,
                                        Ok(()),
                                    ),
                                    Err(_) => (t1, out1, Ok(())),
                                }
                            }
                        }
                    },
                }
            }
        },
    }
}

#[verifier::rlimit(60)]
#[verifier::spinoff_prover]
pub fn skd_edit_add_field(
    xml_text: &mut Vec<char>,
    data_set: &[char],
    variant: &[char],
    value: &[char],
    no_selection: bool,
    stdout: &mut Vec<char>,
) -> (r: Result<(), Vec<char>>)
    ensures
        edited(r, final(xml_text)@, final(stdout)@.subrange(old(stdout)@.len() as int, final(stdout)@.len() as int), add_field(old(xml_text)@, data_set@, variant@, value@, no_selection)),
        old(stdout)@.len() <= final(stdout)@.len(),
        final(stdout)@.subrange(0, old(stdout)@.len() as int) == old(stdout)@,
{
    let ghost out0 = stdout@;
    let ghost spec = add_field(xml_text@, data_set@, variant@, value@, no_selection);
    let parsed = crate::skd_values::skd_edit_parse_field(value);
    let range = match skd_edit_dataset_range(xml_text, data_set) {
        Err(e) => {
            assert(stdout@.subrange(0, out0.len() as int) =~= out0);
            assert(stdout@.subrange(out0.len() as int, stdout@.len() as int) =~= spec.1);
            return Err(e);
        },
        Ok(x) => x,
    };
    let probe = wrap_name("<dataPath>", &parsed.data_path, "</dataPath>");
    let dataset_text = crate::text::slice_to_vec(xml_text, range.0, range.1);
    let dname = dataset_label_exec(xml_text, data_set);
    if contains_chars(&dataset_text, &probe) {
        push_str(stdout, "[WARN] Field \"");
        push_chars(stdout, &parsed.data_path);
        push_str(stdout, "\" already exists in dataset \"");
        push_chars(stdout, &dname);
        push_str(stdout, "\" -- skipped\n");
        assert(stdout@.subrange(0, out0.len() as int) =~= out0);
        assert(stdout@.subrange(out0.len() as int, stdout@.len() as int) =~= spec.1);
        return Ok(());
    }
    let mut lines: Vec<Vec<char>> = Vec::new();
    let ind = chars_of("\t\t");
    crate::skd_fragments::skd_edit_emit_field(&mut lines, &parsed, &ind);
    assert(views(lines@) =~= crate::skd_fragments::field_spec_lines(crate::skd_values::parsed_field(value@), "\t\t"@));
    let frag = crate::text::join_str(&lines, "\n");
    match skd_edit_insert_before_dataset_payload(xml_text, range, &frag) {
        Err(e) => {
            assert(stdout@.subrange(0, out0.len() as int) =~= out0);
            assert(stdout@.subrange(out0.len() as int, stdout@.len() as int) =~= spec.1);
            return Err(e);
        },
        Ok(()) => {},
    }
    push_str(stdout, "[OK] Field \"");
    push_chars(stdout, &parsed.data_path);
    push_str(stdout, "\" added to dataset \"");
    push_chars(stdout, &dname);
    push_str(stdout, "\"\n");
    if !no_selection {
        let selection = chars_of("dcsset:selection");
        let indent = match skd_edit_settings_container_child_indent(xml_text, variant, &selection) {
            Ok(i) => i,
            Err(_) => chars_of("\t\t\t\t"),
        };
        let fragment = crate::skd_fragments::skd_edit_selection_fragment(&parsed.data_path, &indent);
        if skd_edit_prefixed_container_contains_field(xml_text, variant, &selection, &parsed.data_path) {
            push_str(stdout, "[INFO] Field \"");
            push_chars(stdout, &parsed.data_path);
            push_str(stdout, "\" already in selection -- skipped\n");
        } else {
            match skd_edit_insert_prefixed_item(xml_text, variant, &selection, &fragment) {
                Ok(()) => {
                    push_str(stdout, "[OK] Field \"");
                    push_chars(stdout, &parsed.data_path);
                    push_str(stdout, "\" added to selection of variant \"");
                    push_chars(stdout, &variant_label_exec(xml_text, variant));
                    push_str(stdout, "\"\n");
                },
                Err(_) => {},
            }
        }
    }
    assert(stdout@.subrange(0, out0.len() as int) =~= out0);
    assert(stdout@.subrange(out0.len() as int, stdout@.len() as int) =~= spec.1);
    Ok(())
}

/// Whether a name ends at `e`: the text ends there, or the char there is not
/// alphanumeric or `_`.
pub open spec fn ends_token(t: Seq<char>, e: int) -> bool {
    e >= t.len() || !(crate::external::alphanumeric(t[e]) || t[e] == '_')
}

/// From `cursor`: each `needle` that ends a name is replaced by `replacement`;
/// the new text of `t[cursor..]` and how many were replaced.
pub open spec fn token_replace_from(t: Seq<char>, needle: Seq<char>, replacement: Seq<char>, cursor: int) -> (Seq<char>, nat)
    decreases t.len() - cursor,
    when 0 <= cursor <= t.len() && needle.len() > 0
{
    match first_match(t, needle, cursor, t.len() as int) {
        None => (t.subrange(cursor, t.len() as int), 0),
        Some(s) => {
            proof {
                lemma_first_match_bounds(t, needle, cursor, t.len() as int);
            }
            let e = s + needle.len();
            let (rest, c) = token_replace_from(t, needle, replacement, e);
            if ends_token(t, e) {
                (t.subrange(cursor, s) + replacement + rest, c + 1)
            } else {
                (t.subrange(cursor, s) + needle + rest, c)
            }
        },
    }
}

/// `&{old}` references (escaped) in an expression, replaced by `&{new}`.
pub open spec fn parameter_tokens(text: Seq<char>, old: Seq<char>, new: Seq<char>) -> (Seq<char>, nat) {
    token_replace_from(text, "&amp;"@ + escape_xml(old), "&amp;"@ + escape_xml(new), 0)
}

pub proof fn lemma_token_replace_count(t: Seq<char>, needle: Seq<char>, replacement: Seq<char>, cursor: int)
    requires
        0 <= cursor <= t.len(),
        needle.len() > 0,
        replacement.len() > 0,
    ensures
        token_replace_from(t, needle, replacement, cursor).1 <= token_replace_from(t, needle, replacement, cursor).0.len(),
        token_replace_from(t, needle, replacement, cursor).1 <= t.len() - cursor,
    decreases t.len() - cursor,
{
    lemma_first_match_bounds(t, needle, cursor, t.len() as int);
    match first_match(t, needle, cursor, t.len() as int) {
        None => {},
        Some(s) => {
            lemma_token_replace_count(t, needle, replacement, s + needle.len());
        },
    }
}

pub fn skd_edit_replace_parameter_tokens(text: &[char], old_name: &[char], new_name: &[char]) -> (r: (Vec<char>, usize))
    ensures
        (r.0@, r.1 as nat) == parameter_tokens(text@, old_name@, new_name@),
{
    proof {
        reveal_strlit("&amp;");
    }
    let needle = wrap_name("&amp;", old_name, "");
    let replacement = wrap_name("&amp;", new_name, "");
    proof {
        reveal_strlit("");
        assert(needle@ =~= "&amp;"@ + escape_xml(old_name@));
        assert(replacement@ =~= "&amp;"@ + escape_xml(new_name@));
    }
    let ghost target = token_replace_from(text@, needle@, replacement@, 0);
    let mut result: Vec<char> = Vec::new();
    let mut cursor: usize = 0;
    let mut count: usize = 0;
    loop
        invariant
            cursor <= text@.len(),
            needle@.len() > 0,
            needle@ == "&amp;"@ + escape_xml(old_name@),
            replacement@ == "&amp;"@ + escape_xml(new_name@),
            count <= cursor,
            target == token_replace_from(text@, needle@, replacement@, 0),
            target.0 == result@ + token_replace_from(text@, needle@, replacement@, cursor as int).0,
            target.1 == count + token_replace_from(text@, needle@, replacement@, cursor as int).1,
        decreases text.len() - cursor,
    {
        match find_in(text, &needle, cursor, text.len()) {
            None => {
                let tail = crate::text::slice_to_vec(text, cursor, text.len());
                push_chars(&mut result, &tail);
                return (result, count);
            },
            Some(s) => {
                proof {
                    lemma_first_match_bounds(text@, needle@, cursor as int, text@.len() as int);
                }
                let e = s + needle.len();
                let mid = crate::text::slice_to_vec(text, cursor, s);
                let ghost before = result@;
                push_chars(&mut result, &mid);
                let boundary = e >= text.len() || !(crate::external::is_alphanumeric(text[e]) || text[e] == '_');
                if boundary {
                    push_chars(&mut result, &replacement);
                    count = count + 1;
                } else {
                    push_chars(&mut result, &needle);
                }
                proof {
                    let (rest, c) = token_replace_from(text@, needle@, replacement@, e as int);
                    if boundary {
                        assert(result@ + rest =~= before + (text@.subrange(cursor as int, s as int) + replacement@ + rest));
                    } else {
                        assert(result@ + rest =~= before + (text@.subrange(cursor as int, s as int) + needle@ + rest));
                    }
                }
                cursor = e;
            },
        }
    }
}

/// From `cursor` over the root parameters (before the parameter limit of the
/// text as it is then): each `<expression>` whose `&old` references are
/// replaced; the final text and the number replaced.
pub open spec fn expression_refs_from(t: Seq<char>, old: Seq<char>, new: Seq<char>, cursor: int) -> (Seq<char>, nat)
    decreases t.len() - cursor,
{
    let limit = parameter_limit(t);
    if cursor < 0 || cursor >= limit || limit > t.len() {
        (t, 0)
    } else {
        match first_match(t, "<parameter"@, cursor, limit) {
            None => (t, 0),
            Some(s) => {
                proof {
                    lemma_first_match_bounds(t, "<parameter"@, cursor, limit);
                    lemma_element_end_bounds(t, s, limit, "parameter"@);
                }
                match element_end(t, s, limit, "parameter"@) {
                    None => (t, 0),
                    Some(e) => match child_text_range(t, (s, e), "expression"@) {
                        Err(_) => expression_refs_from(t, old, new, e),
                        Ok((a, b)) => {
                            proof {
                                lemma_child_text_range(t, (s, e), "expression"@);
                            }
                            let (rep, c) = parameter_tokens(t.subrange(a, b), old, new);
                            if c > 0 {
                                let (t3, c2) = expression_refs_from(spliced(t, a, b, rep), old, new, e + rep.len() - (b - a));
                                (t3, c + c2)
                            } else {
                                expression_refs_from(t, old, new, e)
                            }
                        },
                    },
                }
            },
        }
    }
}

pub fn skd_edit_update_parameter_expression_refs(xml_text: &mut Vec<char>, old_name: &[char], new_name: &[char]) -> (r: usize)
    ensures
        (final(xml_text)@, r as nat) == expression_refs_from(old(xml_text)@, old_name@, new_name@, 0),
{
    let ghost target = expression_refs_from(xml_text@, old_name@, new_name@, 0);
    let open = chars_of("<parameter");
    let item = chars_of("parameter");
    let expr = chars_of("expression");
    let mut updated: usize = 0;
    let mut cursor: usize = 0;
    loop
        invariant
            open@ == "<parameter"@,
            item@ == "parameter"@,
            expr@ == "expression"@,
            updated <= cursor,
            target == expression_refs_from(old(xml_text)@, old_name@, new_name@, 0),
            target.0 == expression_refs_from(xml_text@, old_name@, new_name@, cursor as int).0,
            target.1 == updated + expression_refs_from(xml_text@, old_name@, new_name@, cursor as int).1,
        decreases xml_text@.len() - cursor,
    {
        let limit = skd_edit_parameter_limit(xml_text);
        if cursor >= limit {
            return updated;
        }
        let s = match find_in(xml_text, &open, cursor, limit) {
            None => {
                return updated;
            },
            Some(s) => s,
        };
        proof {
            lemma_first_match_bounds(xml_text@, open@, cursor as int, limit as int);
        }
        let e = match skd_edit_matching_element_end(xml_text, s, limit, &item) {
            None => {
                return updated;
            },
            Some(e) => e,
        };
        match skd_edit_child_text_range(xml_text, (s, e), &expr) {
            Err(_) => {
                cursor = e;
            },
            Ok((a, b)) => {
                let current = crate::text::slice_to_vec(xml_text, a, b);
                let (rep, count) = skd_edit_replace_parameter_tokens(&current, old_name, new_name);
                if count > 0 {
                    proof {
                        reveal_strlit("&amp;");
                        lemma_token_replace_count(current@, "&amp;"@ + escape_xml(old_name@), "&amp;"@ + escape_xml(new_name@), 0);
                    }
                    let old_len = b - a;
                    splice(xml_text, a, b, &rep);
                    let n = xml_text.len();
                    updated = updated + count;
                    cursor = (e - old_len) + rep.len();
                } else {
                    cursor = e;
                }
            },
        }
    }
}

/// `<dcscor:parameter>old</dcscor:parameter>` references replaced everywhere;
/// the new text and their number.
pub open spec fn exact_data_parameter_refs(t: Seq<char>, old: Seq<char>, new: Seq<char>) -> (Seq<char>, nat) {
    let old_tag = "<dcscor:parameter>"@ + escape_xml(old) + "</dcscor:parameter>"@;
    let new_tag = "<dcscor:parameter>"@ + escape_xml(new) + "</dcscor:parameter>"@;
    let count = count_matches(t, old_tag);
    (if count > 0 {
        replace_all(t, old_tag, new_tag)
    } else {
        t
    }, count)
}

pub fn skd_edit_replace_exact_data_parameter_refs(xml_text: &mut Vec<char>, old_name: &[char], new_name: &[char]) -> (r: usize)
    ensures
        (final(xml_text)@, r as nat) == exact_data_parameter_refs(old(xml_text)@, old_name@, new_name@),
{
    proof {
        reveal_strlit("<dcscor:parameter>");
    }
    let old_tag = wrap_name("<dcscor:parameter>", old_name, "</dcscor:parameter>");
    let new_tag = wrap_name("<dcscor:parameter>", new_name, "</dcscor:parameter>");
    let count = count_chars(xml_text, &old_tag);
    if count > 0 {
        let replaced_text = replace_chars(xml_text, &old_tag, &new_tag);
        *xml_text = replaced_text;
    }
    count
}

/// `rename-parameter Old => New`: renames the root parameter and updates the
/// `&Old` references in parameter expressions and the data parameter
/// references; warns for a malformed value, equal names or an unknown name.
pub open spec fn rename_parameter(t: Seq<char>, value: Seq<char>) -> (Seq<char>, Seq<char>, Result<(), Seq<char>>) {
    match crate::text::split_once(value, "=>"@) {
        None => (t, "[WARN] rename-parameter expects \"OldName => NewName\", got: "@ + value + "\n"@, Ok(())),
        Some((a, b)) => {
            let old = crate::text::trim(a);
            let new = crate::text::trim(b);
            if old == new {
                (t, "[WARN] rename-parameter: old and new names are equal -- skipped\n"@, Ok(()))
            } else if !top_level_contains(t, "parameter"@, "name"@, old) {
                (t, "[WARN] Parameter \""@ + old + "\" not found -- skipped\n"@, Ok(()))
            } else {
                match item_by_child_from(t, parameter_limit(t), "parameter"@, "name"@, old, 0) {
                    None => (t, Seq::empty(), Err("Parameter \""@ + old + "\" not found"@)),
                    Some(r) => match replace_child_text(t, r, "name"@, new) {
                        Err(e) => (t, Seq::empty(), Err(e)),
                        Ok(t1) => {
                            let (t2, n1) = expression_refs_from(t1, old, new, 0);
                            let (t3, n2) = exact_data_parameter_refs(t2, old, new);
                            (
                                t3,
                                "[OK] Parameter renamed: \""@ + old + "\" => \""@ + new + "\" (expressions updated: "@ + nat_text(n1)
                                    + ", dataParameters updated: "@ + nat_text(n2) + ")\n"@,
                                Ok(()),
                            )
                        },
                    },
                }
            }
        },
    }
}

#[verifier::rlimit(40)]
pub fn skd_edit_rename_parameter(xml_text: &mut Vec<char>, value: &[char], stdout: &mut Vec<char>) -> (r: Result<(), Vec<char>>)
    ensures
        edited(r, final(xml_text)@, final(stdout)@.subrange(old(stdout)@.len() as int, final(stdout)@.len() as int), rename_parameter(old(xml_text)@, value@)),
        old(stdout)@.len() <= final(stdout)@.len(),
        final(stdout)@.subrange(0, old(stdout)@.len() as int) == old(stdout)@,
{
    let ghost out0 = stdout@;
    let ghost spec = rename_parameter(xml_text@, value@);
    let (a, b) = match crate::text::split_once_str(value, "=>") {
        None => {
            push_str(stdout, "[WARN] rename-parameter expects \"OldName => NewName\", got: ");
            push_chars(stdout, value);
            push_str(stdout, "\n");
            assert(stdout@.subrange(0, out0.len() as int) =~= out0);
            assert(stdout@.subrange(out0.len() as int, stdout@.len() as int) =~= spec.1);
            return Ok(());
        },
        Some(x) => x,
    };
    let old_name = crate::text::trim_chars(&a);
    let new_name = crate::text::trim_chars(&b);
    let param = chars_of("parameter");
    let name = chars_of("name");
    if crate::text::eq_chars(&old_name, &new_name) {
        push_str(stdout, "[WARN] rename-parameter: old and new names are equal -- skipped\n");
    } else if !skd_edit_top_level_contains(xml_text, &param, &name, &old_name) {
        push_str(stdout, "[WARN] Parameter \"");
        push_chars(stdout, &old_name);
        push_str(stdout, "\" not found -- skipped\n");
    } else {
        let limit = skd_edit_parameter_limit(xml_text);
        let range = match skd_edit_find_item_by_child(xml_text, (0, limit), &param, &name, &old_name) {
            None => {
                assert(stdout@.subrange(0, out0.len() as int) =~= out0);
                assert(stdout@.subrange(out0.len() as int, stdout@.len() as int) =~= spec.1);
                return Err(enclose("Parameter \"", &old_name, "\" not found"));
            },
            Some(x) => x,
        };
        match skd_edit_replace_child_text(xml_text, range, &name, &new_name) {
            Err(e) => {
                assert(stdout@.subrange(0, out0.len() as int) =~= out0);
                assert(stdout@.subrange(out0.len() as int, stdout@.len() as int) =~= spec.1);
                return Err(e);
            },
            Ok(()) => {},
        }
        let n1 = skd_edit_update_parameter_expression_refs(xml_text, &old_name, &new_name);
        let n2 = skd_edit_replace_exact_data_parameter_refs(xml_text, &old_name, &new_name);
        push_str(stdout, "[OK] Parameter renamed: \"");
        push_chars(stdout, &old_name);
        push_str(stdout, "\" => \"");
        push_chars(stdout, &new_name);
        push_str(stdout, "\" (expressions updated: ");
        push_chars(stdout, &usize_text(n1));
        push_str(stdout, ", dataParameters updated: ");
        push_chars(stdout, &usize_text(n2));
        push_str(stdout, ")\n");
    }
    assert(stdout@.subrange(0, out0.len() as int) =~= out0);
    assert(stdout@.subrange(out0.len() as int, stdout@.len() as int) =~= spec.1);
    Ok(())
}

/// The first index of `name` in `order`.
pub open spec fn position_in(order: Seq<Seq<char>>, name: Seq<char>) -> Option<int>
    decreases order.len(),
{
    if order.len() == 0 {
        None
    } else {
        match position_in(order.drop_last(), name) {
            Some(i) => Some(i),
            None => if order.last() == name {
                Some(order.len() - 1)
            } else {
                None
            },
        }
    }
}

/// The blocks whose name is first listed at position `k`, in document order.
pub open spec fn blocks_at(blocks: Seq<(Seq<char>, int, int, Seq<char>)>, order: Seq<Seq<char>>, k: int) -> Seq<Seq<char>> {
    blocks.filter(|b: (Seq<char>, int, int, Seq<char>)| position_in(order, b.0) == Some(k)).map_values(
        |b: (Seq<char>, int, int, Seq<char>)| b.3,
    )
}

/// The listed blocks in the order of the list (a stable sort by first
/// position), for the first `k` positions.
pub open spec fn listed_blocks(blocks: Seq<(Seq<char>, int, int, Seq<char>)>, order: Seq<Seq<char>>, k: int) -> Seq<Seq<char>>
    decreases k,
{
    if k <= 0 {
        Seq::empty()
    } else {
        listed_blocks(blocks, order, k - 1) + blocks_at(blocks, order, k - 1)
    }
}

/// The blocks whose name is not listed, in document order.
pub open spec fn unlisted_blocks(blocks: Seq<(Seq<char>, int, int, Seq<char>)>, order: Seq<Seq<char>>) -> Seq<Seq<char>> {
    blocks.filter(|b: (Seq<char>, int, int, Seq<char>)| position_in(order, b.0) is None).map_values(
        |b: (Seq<char>, int, int, Seq<char>)| b.3,
    )
}

/// `reorder-parameters A, B, …`: the root parameters rewritten in place, the
/// listed ones first in the order given, then the others as they were, joined
/// by a line break and the first parameter's indentation.
pub open spec fn reorder_parameters(t: Seq<char>, value: Seq<char>) -> (Seq<char>, Seq<char>) {
    let order = crate::text::trim_nonempty(crate::text::split(value, ","@));
    if order.len() == 0 {
        (t, "[WARN] reorder-parameters: empty list -- skipped\n"@)
    } else {
        let blocks = root_parameters_from(t, parameter_limit(t), 0);
        if blocks.len() == 0 {
            (t, "[WARN] reorder-parameters: no parameters in schema\n"@)
        } else {
            let all = listed_blocks(blocks, order, order.len() as int) + unlisted_blocks(blocks, order);
            let first = blocks[0].1;
            let last = blocks.last().2;
            (
                spliced(t, first, last, join(all, "\n"@ + line_indent(t, first))),
                "[OK] Parameters reordered ("@ + nat_text(all.len()) + " total, "@ + nat_text(order.len()) + " explicit)\n"@,
            )
        }
    }
}

fn position_in_exec(order: &Vec<Vec<char>>, name: &[char]) -> (r: Option<usize>)
    ensures
        opt_int(r) == position_in(views(order@), name@),
{
    let ghost o = views(order@);
    let mut i: usize = 0;
    while i < order.len()
        invariant
            i <= order@.len(),
            o == views(order@),
            position_in(o.take(i as int), name@) is None,
        decreases order.len() - i,
    {
        proof {
            assert(o.take(i + 1).drop_last() =~= o.take(i as int));
        }
        if crate::text::eq_chars(&order[i], name) {
            proof {
                lemma_position_prefix(o, name@, i + 1);
            }
            return Some(i);
        }
        i = i + 1;
    }
    assert(o.take(i as int) =~= o);
    None
}

pub proof fn lemma_position_prefix(o: Seq<Seq<char>>, name: Seq<char>, k: int)
    requires
        0 <= k <= o.len(),
        position_in(o.take(k), name) is Some,
    ensures
        position_in(o, name) == position_in(o.take(k), name),
    decreases o.len() - k,
{
    if k < o.len() {
        assert(o.take(k + 1).drop_last() =~= o.take(k));
        lemma_position_prefix(o, name, k + 1);
    } else {
        assert(o.take(k) =~= o);
    }
}

pub open spec fn block_views4(v: Seq<(Vec<char>, usize, usize, Vec<char>)>) -> Seq<(Seq<char>, int, int, Seq<char>)> {
    crate::skd_xml::parameter_block_views(v)
}

fn blocks_at_exec(blocks: &Vec<(Vec<char>, usize, usize, Vec<char>)>, order: &Vec<Vec<char>>, k: usize, out: &mut Vec<Vec<char>>)
    ensures
        views(final(out)@) == views(old(out)@) + blocks_at(block_views4(blocks@), views(order@), k as int),
{
    let ghost bs = block_views4(blocks@);
    let ghost pred = |b: (Seq<char>, int, int, Seq<char>)| position_in(views(order@), b.0) == Some(k as int);
    let ghost start = views(out@);
    let mut i: usize = 0;
    while i < blocks.len()
        invariant
            i <= blocks@.len(),
            bs == block_views4(blocks@),
            bs.len() == blocks@.len(),
            pred == (|b: (Seq<char>, int, int, Seq<char>)| position_in(views(order@), b.0) == Some(k as int)),
            views(out@) == start + bs.take(i as int).filter(pred).map_values(|b: (Seq<char>, int, int, Seq<char>)| b.3),
        decreases blocks.len() - i,
    {
        proof {
            reveal(Seq::filter);
            assert(bs.take(i + 1).drop_last() =~= bs.take(i as int));
            assert(bs.take(i + 1).last() == bs[i as int]);
        }
        let pos = position_in_exec(order, &blocks[i].0);
        let hit = match pos {
            Some(p) => p == k,
            None => false,
        };
        let ghost before = views(out@);
        if hit {
            let b = crate::text::to_vec(&blocks[i].3);
            crate::skd_fragments::push_line(out, b);
        }
        proof {
            assert(pred(bs[i as int]) == hit);
            assert(views(out@) =~= start + bs.take(i + 1).filter(pred).map_values(|b: (Seq<char>, int, int, Seq<char>)| b.3));
        }
        i = i + 1;
    }
    assert(bs.take(i as int) =~= bs);
}

fn unlisted_blocks_exec(blocks: &Vec<(Vec<char>, usize, usize, Vec<char>)>, order: &Vec<Vec<char>>, out: &mut Vec<Vec<char>>)
    ensures
        views(final(out)@) == views(old(out)@) + unlisted_blocks(block_views4(blocks@), views(order@)),
{
    let ghost bs = block_views4(blocks@);
    let ghost pred = |b: (Seq<char>, int, int, Seq<char>)| position_in(views(order@), b.0) is None;
    let ghost start = views(out@);
    let mut i: usize = 0;
    while i < blocks.len()
        invariant
            i <= blocks@.len(),
            bs == block_views4(blocks@),
            bs.len() == blocks@.len(),
            pred == (|b: (Seq<char>, int, int, Seq<char>)| position_in(views(order@), b.0) is None),
            views(out@) == start + bs.take(i as int).filter(pred).map_values(|b: (Seq<char>, int, int, Seq<char>)| b.3),
        decreases blocks.len() - i,
    {
        proof {
            reveal(Seq::filter);
            assert(bs.take(i + 1).drop_last() =~= bs.take(i as int));
            assert(bs.take(i + 1).last() == bs[i as int]);
        }
        let pos = position_in_exec(order, &blocks[i].0);
        if pos.is_none() {
            let b = crate::text::to_vec(&blocks[i].3);
            crate::skd_fragments::push_line(out, b);
        }
        proof {
            assert(views(out@) =~= start + bs.take(i + 1).filter(pred).map_values(|b: (Seq<char>, int, int, Seq<char>)| b.3));
        }
        i = i + 1;
    }
    assert(bs.take(i as int) =~= bs);
}

#[verifier::rlimit(40)]
pub fn skd_edit_reorder_parameters(xml_text: &mut Vec<char>, value: &[char], stdout: &mut Vec<char>) -> (r: Result<(), Vec<char>>)
    ensures
        r is Ok,
        (final(xml_text)@, final(stdout)@) == ({
            let (n, msg) = reorder_parameters(old(xml_text)@, value@);
            (n, old(stdout)@ + msg)
        }),
{
    proof {
        reveal_strlit(",");
    }
    let order = crate::text::split_trim_nonempty(value, ",");
    if order.len() == 0 {
        push_str(stdout, "[WARN] reorder-parameters: empty list -- skipped\n");
        return Ok(());
    }
    let limit = skd_edit_parameter_limit(xml_text);
    let blocks = crate::skd_xml::skd_edit_collect_root_parameter_blocks(xml_text, limit);
    if blocks.len() == 0 {
        push_str(stdout, "[WARN] reorder-parameters: no parameters in schema\n");
        return Ok(());
    }
    let mut all: Vec<Vec<char>> = Vec::new();
    let mut k: usize = 0;
    while k < order.len()
        invariant
            k <= order@.len(),
            views(all@) == listed_blocks(block_views4(blocks@), views(order@), k as int),
        decreases order.len() - k,
    {
        blocks_at_exec(&blocks, &order, k, &mut all);
        k = k + 1;
    }
    unlisted_blocks_exec(&blocks, &order, &mut all);
    let first = blocks[0].1;
    let last = blocks[blocks.len() - 1].2;
    proof {
        assert(block_views4(blocks@)[0].1 == first as int);
        assert(block_views4(blocks@).last().2 == last as int);
        assert(blocks@[0].1 < blocks@[blocks@.len() - 1].2);
    }
    let indent = skd_edit_line_indent(xml_text, first);
    let mut sep = chars_of("\n");
    push_chars(&mut sep, &indent);
    let joined = join_chars_sep(&all, &sep);
    splice(xml_text, first, last, &joined);
    push_str(stdout, "[OK] Parameters reordered (");
    push_chars(stdout, &usize_text(all.len()));
    push_str(stdout, " total, ");
    push_chars(stdout, &usize_text(order.len()));
    push_str(stdout, " explicit)\n");
    Ok(())
}

/// Pieces joined with a separator given as chars.
pub fn join_chars_sep(pieces: &Vec<Vec<char>>, sep: &[char]) -> (r: Vec<char>)
    ensures
        r@ == join(views(pieces@), sep@),
{
    let mut r: Vec<char> = Vec::new();
    let mut i: usize = 0;
    let ghost all = views(pieces@);
    while i < pieces.len()
        invariant
            i <= pieces@.len(),
            all == views(pieces@),
            r@ == join(all.take(i as int), sep@),
        decreases pieces.len() - i,
    {
        if i > 0 {
            push_chars(&mut r, sep);
        }
        push_chars(&mut r, &pieces[i]);
        proof {
            assert(all.take(i + 1).drop_last() =~= all.take(i as int));
            if i == 0 {
                assert(all.take(0) =~= Seq::<Seq<char>>::empty());
            }
        }
        i = i + 1;
    }
    assert(all.take(pieces.len() as int) =~= all);
    r
}

/// What `add-drilldown` did.
pub enum SkdEditDrilldownResult {
    Added,
    NoNamedTemplates,
    NoMatch,
}

/// `add-drilldown`: a root parameter `DrillDown{resource}` whose expression is
/// the resource, added before the root's end tag when the schema has templates,
/// mentions the resource and has no such parameter yet.
pub open spec fn add_drilldown(t: Seq<char>, resource: Seq<char>) -> (Seq<char>, SkdEditDrilldownResult) {
    if !contains(t, "<template>"@) {
        (t, SkdEditDrilldownResult::NoNamedTemplates)
    } else if !contains(t, resource) {
        (t, SkdEditDrilldownResult::NoMatch)
    } else {
        let marker = "DrillDown"@ + crate::skd_values::xml_identifier(resource);
        if contains(t, marker) {
            (t, SkdEditDrilldownResult::NoMatch)
        } else {
            let fragment = "\t<parameter>\n\t\t<name>"@ + escape_xml(marker) + "</name>\n\t\t<expression>"@ + escape_xml(resource)
                + "</expression>\n\t</parameter>"@;
            match insert_before_root_close(t, fragment) {
                Ok(n) => (n, SkdEditDrilldownResult::Added),
                Err(_) => (t, SkdEditDrilldownResult::NoMatch),
            }
        }
    }
}

pub fn skd_edit_add_drilldown(xml_text: &mut Vec<char>, resource: &[char]) -> (r: SkdEditDrilldownResult)
    ensures
        (final(xml_text)@, r) == add_drilldown(old(xml_text)@, resource@),
{
    if !crate::text::contains_str(xml_text, "<template>") {
        return SkdEditDrilldownResult::NoNamedTemplates;
    }
    if !contains_chars(xml_text, resource) {
        return SkdEditDrilldownResult::NoMatch;
    }
    let mut marker = chars_of("DrillDown");
    push_chars(&mut marker, &crate::skd_values::sanitize_xml_identifier(resource));
    if contains_chars(xml_text, &marker) {
        return SkdEditDrilldownResult::NoMatch;
    }
    let mut fragment = wrap_name("\t<parameter>\n\t\t<name>", &marker, "</name>\n\t\t<expression>");
    push_chars(&mut fragment, &escape_xml_exec(resource));
    push_str(&mut fragment, "</expression>\n\t</parameter>");
    match skd_edit_insert_before_root_close(xml_text, &fragment) {
        Ok(()) => SkdEditDrilldownResult::Added,
        Err(_) => SkdEditDrilldownResult::NoMatch,
    }
}

/// Removing every structure group from the variant's settings, first one
/// first; on failure, the text reached and the error.
pub open spec fn strip_structure(t: Seq<char>, variant: Seq<char>) -> Result<Seq<char>, (Seq<char>, Seq<char>)>
    decreases t.len(),
{
    match settings_content_range(t, variant) {
        Err(e) => Err((t, e)),
        Ok((s0, s1)) => {
            proof {
                lemma_settings_content_range(t, variant);
            }
            match first_match(t, "<dcsset:item xsi:type=\"dcsset:StructureItemGroup\""@, s0, s1) {
                None => Ok(t),
                Some(st) => {
                    proof {
                        lemma_first_match_bounds(t, "<dcsset:item xsi:type=\"dcsset:StructureItemGroup\""@, s0, s1);
                        lemma_dcsset_item_end_bounds(t, st, s1);
                    }
                    match dcsset_item_end(t, st, s1) {
                        None => Err((t, "No closing </dcsset:item> found for structure item"@)),
                        Some(end) => {
                            proof {
                                lemma_element_line_range(t, st, end);
                            }
                            let (a, b) = element_line_range(t, st, end);
                            strip_structure(spliced(t, a, b, Seq::empty()), variant)
                        },
                    }
                },
            }
        },
    }
}

/// The settings children a new structure goes before.
pub open spec fn structure_before_tags() -> Seq<Seq<char>> {
    seq![
        "dcsset:outputParameters"@,
        "dcsset:dataParameters"@,
        "dcsset:conditionalAppearance"@,
        "dcsset:order"@,
        "dcsset:filter"@,
        "dcsset:selection"@,
        "dcsset:item"@,
    ]
}

/// `set-structure`: the variant's structure groups replaced by the fragment,
/// inserted on its own line before the first of the usual settings children
/// (else before the end of the settings).
pub open spec fn replace_structure(t: Seq<char>, variant: Seq<char>, fragment: Seq<char>) -> Result<Seq<char>, (Seq<char>, Seq<char>)> {
    match strip_structure(t, variant) {
        Err(x) => Err(x),
        Ok(t1) => match settings_content_range(t1, variant) {
            Err(e) => Err((t1, e)),
            Ok(sc) => {
                let p0 = match first_child_pos(t1, sc, structure_before_tags(), 7) {
                    Some(p) => p,
                    None => sc.1,
                };
                let p = line_start(t1, p0);
                Ok(spliced(t1, p, p, fragment + "\n"@))
            },
        },
    }
}

pub fn skd_edit_replace_structure(xml_text: &mut Vec<char>, variant: &[char], fragment: &[char]) -> (r: Result<(), Vec<char>>)
    ensures
        match replace_structure(old(xml_text)@, variant@, fragment@) {
            Ok(n) => r is Ok && final(xml_text)@ == n,
            Err((n, e)) => r matches Err(x) && x@ == e && final(xml_text)@ == n,
        },
{
    let open = chars_of("<dcsset:item xsi:type=\"dcsset:StructureItemGroup\"");
    loop
        invariant
            open@ == "<dcsset:item xsi:type=\"dcsset:StructureItemGroup\""@,
            strip_structure(old(xml_text)@, variant@) == strip_structure(xml_text@, variant@),
        ensures
            strip_structure(old(xml_text)@, variant@) == Ok::<Seq<char>, (Seq<char>, Seq<char>)>(xml_text@),
        decreases xml_text@.len(),
    {
        let (s0, s1) = match skd_edit_settings_content_range(xml_text, variant) {
            Err(e) => {
                return Err(e);
            },
            Ok(x) => x,
        };
        let st = match find_in(xml_text, &open, s0, s1) {
            None => {
                break;
            },
            Some(st) => st,
        };
        proof {
            lemma_first_match_bounds(xml_text@, open@, s0 as int, s1 as int);
        }
        let end = match crate::skd_xml::skd_edit_matching_dcsset_item_end(xml_text, st, s1) {
            None => {
                return Err(chars_of("No closing </dcsset:item> found for structure item"));
            },
            Some(e) => e,
        };
        let (a, b) = skd_edit_element_line_range(xml_text, st, end);
        let empty: Vec<char> = Vec::new();
        assert(empty@ =~= Seq::<char>::empty());
        splice(xml_text, a, b, &empty);
    }
    let (s0, s1) = match skd_edit_settings_content_range(xml_text, variant) {
        Err(e) => {
            return Err(e);
        },
        Ok(x) => x,
    };
    let tags: &'static [&'static str] = &[
        "dcsset:outputParameters",
        "dcsset:dataParameters",
        "dcsset:conditionalAppearance",
        "dcsset:order",
        "dcsset:filter",
        "dcsset:selection",
        "dcsset:item",
    ];
    assert(lit_views(tags@) =~= structure_before_tags());
    let p0 = match crate::skd_xml::skd_edit_first_settings_child_pos(xml_text, (s0, s1), tags) {
        Some(p) => p,
        None => s1,
    };
    proof {
        lemma_first_child_pos(xml_text@, (s0 as int, s1 as int), structure_before_tags(), 7);
    }
    let p = skd_edit_line_start(xml_text, p0);
    let mut ins = crate::text::to_vec(fragment);
    push_str(&mut ins, "\n");
    splice(xml_text, p, p, &ins);
    Ok(())
}

/// Setting the grouping fields of the structure group named `name`: the new
/// text, `None` when there is no such group.
pub open spec fn replace_named_group_items(t: Seq<char>, variant: Seq<char>, name: Seq<char>, group_by: Seq<Seq<char>>) -> Result<Option<Seq<char>>, Seq<char>> {
    match named_structure_group(t, variant, name) {
        Err(e) => Err(e),
        Ok(None) => Ok(None),
        Ok(Some(g)) => match group_items_range(t, g) {
            Err(e) => Err(e),
            Ok(None) => {
                let p = match first_match(t, "</dcsset:name>"@, g.0, g.1) {
                    Some(q) => q + "</dcsset:name>"@.len(),
                    None => g.0,
                };
                Ok(Some(spliced(t, p, p, crate::skd_fragments::group_items_fragment(group_by, "\n\t\t\t\t"@))))
            },
            Ok(Some(x)) => {
                let gi = line_indent(t, x.0);
                let inner = crate::skd_fragments::group_items_inner(group_by, gi + "\t"@);
                if x.4 {
                    Ok(Some(spliced(t, x.0, x.3, "<dcsset:groupItems>\n"@ + inner + gi + "</dcsset:groupItems>"@)))
                } else {
                    Ok(Some(spliced(t, x.1, x.2, "\n"@ + inner + gi)))
                }
            },
        },
    }
}

pub fn skd_edit_replace_named_group_items(xml_text: &mut Vec<char>, variant: &[char], name: &[char], group_by: &[Vec<char>]) -> (r: Result<bool, Vec<char>>)
    ensures
        removal_done(r, old(xml_text)@, final(xml_text)@, replace_named_group_items(old(xml_text)@, variant@, name@, views(group_by@))),
{
    let g = match crate::skd_xml::skd_edit_find_named_structure_group(xml_text, variant, name) {
        Err(e) => {
            return Err(e);
        },
        Ok(None) => {
            return Ok(false);
        },
        Ok(Some(g)) => g,
    };
    match crate::skd_xml::skd_edit_find_group_items_range(xml_text, g) {
        Err(e) => Err(e),
        Ok(None) => {
            proof {
                reveal_strlit("</dcsset:name>");
            }
            let p = match find_str(xml_text, "</dcsset:name>", g.0, g.1) {
                Some(q) => {
                    proof {
                        lemma_first_match_bounds(xml_text@, "</dcsset:name>"@, g.0 as int, g.1 as int);
                    }
                    q + 14
                },
                None => g.0,
            };
            let ind = chars_of("\n\t\t\t\t");
            let frag = crate::skd_fragments::skd_edit_group_items_fragment(group_by, &ind);
            splice(xml_text, p, p, &frag);
            Ok(true)
        },
        Ok(Some(x)) => {
            let gi = skd_edit_line_indent(xml_text, x.start);
            let mut ci = crate::text::to_vec(&gi);
            push_str(&mut ci, "\t");
            let inner = crate::skd_fragments::skd_edit_group_items_inner_fragment(group_by, &ci);
            if x.self_closing {
                let mut rep = chars_of("<dcsset:groupItems>\n");
                push_chars(&mut rep, &inner);
                push_chars(&mut rep, &gi);
                push_str(&mut rep, "</dcsset:groupItems>");
                splice(xml_text, x.start, x.end, &rep);
            } else {
                let mut rep = chars_of("\n");
                push_chars(&mut rep, &inner);
                push_chars(&mut rep, &gi);
                splice(xml_text, x.open_end, x.close_start, &rep);
            }
            Ok(true)
        },
    }
}

/// The named groups of all structures, in order.
pub open spec fn all_structure_targets(items: Seq<crate::skd_values::SkdEditStructureItem>) -> Seq<(Seq<char>, Seq<Seq<char>>)>
    decreases items.len(),
{
    if items.len() == 0 {
        Seq::empty()
    } else {
        all_structure_targets(items.drop_last()) + crate::skd_xml::structure_targets(items.last())
    }
}

/// Applying each named group's new grouping fields in turn: the text and the
/// output reached, and the error if one stopped it.
pub open spec fn group_updates(t: Seq<char>, variant: Seq<char>, targets: Seq<(Seq<char>, Seq<Seq<char>>)>) -> (Seq<char>, Seq<char>, Result<(), Seq<char>>)
    decreases targets.len(),
{
    if targets.len() == 0 {
        (t, Seq::empty(), Ok(()))
    } else {
        let (name, group_by) = targets[0];
        match replace_named_group_items(t, variant, name, group_by) {
            Err(e) => (t, Seq::empty(), Err(e)),
            Ok(res) => {
                let (t1, msg) = match res {
                    Some(n) => (n, "[OK] Group \""@ + name + "\" groupItems updated: "@ + (if group_by.len() == 0 {
                        "details"@
                    } else {
                        join(group_by, ", "@)
                    }) + "\n"@),
                    None => (t, "[WARN] Group with @name=\""@ + name + "\" not found -- skipped\n"@),
                };
                let (t2, out, r) = group_updates(t1, variant, targets.drop_first());
                (t2, msg + out, r)
            },
        }
    }
}

/// `modify-structure`: new grouping fields for each named group; an error
/// when no group is named.
pub open spec fn modify_structure(t: Seq<char>, variant: Seq<char>, structures: Seq<crate::skd_values::SkdEditStructureItem>) -> (Seq<char>, Seq<char>, Result<(), Seq<char>>) {
    let targets = all_structure_targets(structures);
    if targets.len() == 0 {
        (t, Seq::empty(), Err("modify-structure requires @name= for at least one group: "@ + crate::skd_xml::structure_description(structures)))
    } else {
        group_updates(t, variant, targets)
    }
}

#[verifier::rlimit(40)]
pub fn skd_edit_modify_structure(xml_text: &mut Vec<char>, variant: &[char], structures: &[crate::skd_values::SkdEditStructureItem], stdout: &mut Vec<char>) -> (r: Result<(), Vec<char>>)
    ensures
        edited(r, final(xml_text)@, final(stdout)@.subrange(old(stdout)@.len() as int, final(stdout)@.len() as int), modify_structure(old(xml_text)@, variant@, structures@)),
        old(stdout)@.len() <= final(stdout)@.len(),
        final(stdout)@.subrange(0, old(stdout)@.len() as int) == old(stdout)@,
{
    let ghost out0 = stdout@;
    let mut targets: Vec<(Vec<char>, Vec<Vec<char>>)> = Vec::new();
    let mut i: usize = 0;
    while i < structures.len()
        invariant
            i <= structures@.len(),
            crate::skd_xml::target_views(targets@) == all_structure_targets(structures@.take(i as int)),
        decreases structures.len() - i,
    {
        crate::skd_xml::skd_edit_collect_structure_targets(&structures[i], &mut targets);
        assert(structures@.take(i + 1).drop_last() =~= structures@.take(i as int));
        i = i + 1;
    }
    assert(structures@.take(i as int) =~= structures@);
    let ghost tv = crate::skd_xml::target_views(targets@);
    if targets.len() == 0 {
        let mut e = chars_of("modify-structure requires @name= for at least one group: ");
        push_chars(&mut e, &crate::skd_xml::skd_edit_structure_description(structures));
        assert(stdout@.subrange(0, out0.len() as int) =~= out0);
        assert(stdout@.subrange(out0.len() as int, stdout@.len() as int) =~= Seq::<char>::empty());
        return Err(e);
    }
    let ghost target = group_updates(xml_text@, variant@, tv);
    let mut k: usize = 0;
    assert(tv.skip(0) =~= tv);
    while k < targets.len()
        invariant
            k <= targets@.len(),
            tv == crate::skd_xml::target_views(targets@),
            tv.len() == targets@.len(),
            tv == all_structure_targets(structures@),
            tv.len() > 0,
            out0 == old(stdout)@,
            out0.len() <= stdout@.len(),
            stdout@.subrange(0, out0.len() as int) == out0,
            target == group_updates(old(xml_text)@, variant@, tv),
            target.0 == group_updates(xml_text@, variant@, tv.skip(k as int)).0,
            target.2 == group_updates(xml_text@, variant@, tv.skip(k as int)).2,
            target.1 == stdout@.subrange(out0.len() as int, stdout@.len() as int) + group_updates(xml_text@, variant@, tv.skip(k as int)).1,
        decreases targets.len() - k,
    {
        proof {
            assert(tv.skip(k as int)[0] == tv[k as int]);
            assert(tv.skip(k as int).drop_first() =~= tv.skip(k + 1));
        }
        let ghost before = stdout@;
        match skd_edit_replace_named_group_items(xml_text, variant, &targets[k].0, &targets[k].1) {
            Err(e) => {
                assert(target.1 =~= stdout@.subrange(out0.len() as int, stdout@.len() as int));
                return Err(e);
            },
            Ok(true) => {
                push_str(stdout, "[OK] Group \"");
                push_chars(stdout, &targets[k].0);
                push_str(stdout, "\" groupItems updated: ");
                if targets[k].1.len() == 0 {
                    push_str(stdout, "details");
                } else {
                    push_chars(stdout, &crate::text::join_str(&targets[k].1, ", "));
                }
                push_str(stdout, "\n");
            },
            Ok(false) => {
                push_str(stdout, "[WARN] Group with @name=\"");
                push_chars(stdout, &targets[k].0);
                push_str(stdout, "\" not found -- skipped\n");
            },
        }
        proof {
            assert(stdout@.subrange(0, out0.len() as int) =~= out0);
            assert(stdout@.subrange(out0.len() as int, stdout@.len() as int) =~= before.subrange(out0.len() as int, before.len() as int) + stdout@.subrange(before.len() as int, stdout@.len() as int));
        }
        k = k + 1;
    }
    proof {
        assert(tv.skip(k as int) =~= Seq::<(Seq<char>, Seq<Seq<char>>)>::empty());
        assert(target.1 =~= stdout@.subrange(out0.len() as int, stdout@.len() as int));
    }
    Ok(())
}

/// `add-selection Field @group=G`: the field added to the selection of the
/// named structure group; `None` when the group or its selection is missing.
pub open spec fn insert_selection_into_group(t: Seq<char>, variant: Seq<char>, group_name: Seq<char>, field_name: Seq<char>) -> Result<Option<Seq<char>>, Seq<char>> {
    match named_structure_group(t, variant, group_name) {
        Err(e) => Err(e),
        Ok(None) => Ok(None),
        Ok(Some(g)) => match crate::skd_xml::prefixed_child_range(t, g, "dcsset:selection"@) {
            Err(e) => Err(e),
            Ok(None) => Ok(None),
            Ok(Some(x)) => {
                let indent = (if x.4 {
                    line_indent(t, x.0)
                } else {
                    line_indent(t, x.2)
                }) + "\t"@;
                Ok(Some(insert_into_element(t, x, "dcsset:selection"@, crate::skd_fragments::selection_fragment(field_name, indent))))
            },
        },
    }
}

pub fn skd_edit_insert_selection_into_group(xml_text: &mut Vec<char>, variant: &[char], group_name: &[char], field_name: &[char]) -> (r: Result<bool, Vec<char>>)
    ensures
        removal_done(r, old(xml_text)@, final(xml_text)@, insert_selection_into_group(old(xml_text)@, variant@, group_name@, field_name@)),
{
    let g = match crate::skd_xml::skd_edit_find_named_structure_group(xml_text, variant, group_name) {
        Err(e) => {
            return Err(e);
        },
        Ok(None) => {
            return Ok(false);
        },
        Ok(Some(g)) => g,
    };
    let selection = chars_of("dcsset:selection");
    let x = match crate::skd_xml::skd_edit_find_prefixed_child_range(xml_text, g, &selection) {
        Err(e) => {
            return Err(e);
        },
        Ok(None) => {
            return Ok(false);
        },
        Ok(Some(x)) => x,
    };
    let mut indent = if x.self_closing {
        skd_edit_line_indent(xml_text, x.start)
    } else {
        skd_edit_line_indent(xml_text, x.close_start)
    };
    push_str(&mut indent, "\t");
    let fragment = crate::skd_fragments::skd_edit_selection_fragment(field_name, &indent);
    skd_edit_insert_into_prefixed_range(xml_text, x, &selection, &fragment);
    Ok(true)
}

} // verus!
