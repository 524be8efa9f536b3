//! The overview of a spreadsheet template: its size and column sets, its named
//! areas with the parameters, texts and templates their rows hold, what lies
//! outside the areas, and counts, in pages of lines.
use vstd::prelude::*;
use crate::mxl::{template_placeholders, truncated_list};
use crate::numbers::{int_text, nat_text, parse_int};
use crate::skd_apply::without_boms;
use crate::text::{chars_of, contains, join, push_chars, push_str, views};
use crate::xml::{XmlElement, XmlNode, attribute_by_local_name, child_named, child_text, children_named, find_named, text_or_empty, xml_tree};

verus! {

/// Parameters, their detail parameters, texts and templates found in rows.
#[verifier::ext_equal]
pub struct Found {
    pub params: Seq<Seq<char>>,
    pub details: Seq<Seq<char>>,
    pub texts: Seq<Seq<char>>,
    pub templates: Seq<Seq<char>>,
}

pub open spec fn none_found() -> Found {
    Found { params: Seq::empty(), details: Seq::empty(), texts: Seq::empty(), templates: Seq::empty() }
}

/// What is found first in `a`, then in `b`.
pub open spec fn joined(a: Found, b: Found) -> Found {
    Found {
        params: a.params + b.params,
        details: a.details + b.details,
        texts: a.texts + b.texts,
        templates: a.templates + b.templates,
    }
}

/// What one cell group shows: its parameter (with its detail parameter), and
/// the placeholders of its text, or the text itself when texts are asked for.
pub open spec fn cell_found(group: XmlNode, with_text: bool) -> Found {
    match child_named(group, "c"@, None) {
        None => none_found(),
        Some(cell) => {
            let p = child_text(cell, "parameter"@, None);
            let d = child_text(cell, "detailParameter"@, None);
            let a = if p.len() > 0 {
                Found {
                    params: seq![p],
                    details: if d.len() > 0 {
                        seq![p + "->"@ + d]
                    } else {
                        Seq::empty()
                    },
                    ..none_found()
                }
            } else {
                none_found()
            };
            let b = match child_named(cell, "tl"@, None) {
                None => none_found(),
                Some(tl) => {
                    let content = match find_named(tl, "content"@, None) {
                        Some(n) => text_or_empty(n),
                        None => Seq::empty(),
                    };
                    let ph = template_placeholders(content);
                    if content.len() == 0 {
                        none_found()
                    } else if ph.len() > 0 {
                        Found {
                            params: ph.map_values(|x: Seq<char>| x + " [tpl]"@),
                            templates: if with_text {
                                seq![content]
                            } else {
                                Seq::empty()
                            },
                            ..none_found()
                        }
                    } else if with_text {
                        Found { texts: seq![content], ..none_found() }
                    } else {
                        none_found()
                    }
                },
            };
            joined(a, b)
        },
    }
}

/// What the cell groups of a row show, in order.
pub open spec fn groups_found(groups: Seq<XmlNode>, with_text: bool) -> Found
    decreases groups.len(),
{
    if groups.len() == 0 {
        none_found()
    } else {
        joined(groups_found(groups.drop_last(), with_text), cell_found(groups.last(), with_text))
    }
}

/// What a row item shows.
pub open spec fn row_found(item: XmlNode, with_text: bool) -> Found {
    match child_named(item, "row"@, None) {
        None => none_found(),
        Some(row) => groups_found(children_named(row, "c"@, None), with_text),
    }
}

/// The row items with an index, by index, in document order.
pub open spec fn indexed_rows(items: Seq<XmlNode>) -> Seq<(int, XmlNode)>
    decreases items.len(),
{
    if items.len() == 0 {
        Seq::empty()
    } else {
        let before = indexed_rows(items.drop_last());
        match parse_int(child_text(items.last(), "index"@, None)) {
            Some(i) => before.push((i, items.last())),
            None => before,
        }
    }
}

/// The first row item with index `r`.
pub open spec fn first_row(rows: Seq<(int, XmlNode)>, r: int, k: int) -> Option<XmlNode>
    decreases rows.len() - k,
{
    if k < 0 || k >= rows.len() {
        None
    } else if rows[k].0 == r {
        Some(rows[k].1)
    } else {
        first_row(rows, r, k + 1)
    }
}

/// What the rows `r..=end` show.
pub open spec fn range_found(rows: Seq<(int, XmlNode)>, r: int, end: int, with_text: bool) -> Found
    decreases end - r + 1,
{
    if r > end {
        none_found()
    } else {
        joined(
            match first_row(rows, r, 0) {
                Some(n) => row_found(n, with_text),
                None => none_found(),
            },
            range_found(rows, r + 1, end, with_text),
        )
    }
}

/// A named area of cells as the overview reads it.
pub struct AreaSpec {
    pub name: Seq<char>,
    pub kind: Seq<char>,
    pub begin_row: int,
    pub end_row: int,
    pub begin_col: int,
    pub end_col: int,
    pub columns_id: Option<Seq<char>>,
}

/// A number of a child, or 0.
pub open spec fn int_or_zero(n: XmlNode, name: Seq<char>) -> int {
    match parse_int(child_text(n, name, None)) {
        Some(v) => v,
        None => 0,
    }
}

pub open spec fn area_of(name: Seq<char>, area: XmlNode) -> AreaSpec {
    let id = child_text(area, "columnsID"@, None);
    AreaSpec {
        name,
        kind: child_text(area, "type"@, None),
        begin_row: int_or_zero(area, "beginRow"@),
        end_row: int_or_zero(area, "endRow"@),
        begin_col: int_or_zero(area, "beginColumn"@),
        end_col: int_or_zero(area, "endColumn"@),
        columns_id: if id.len() > 0 {
            Some(id)
        } else {
            None
        },
    }
}

pub open spec fn item_type(item: XmlNode) -> Seq<char> {
    match attribute_by_local_name(item, "type"@) {
        Some(t) => t,
        None => Seq::empty(),
    }
}

/// The named areas of cells, in document order.
pub open spec fn named_areas(items: Seq<XmlNode>) -> Seq<AreaSpec>
    decreases items.len(),
{
    if items.len() == 0 {
        Seq::empty()
    } else {
        let before = named_areas(items.drop_last());
        let item = items.last();
        if contains(item_type(item), "NamedItemCells"@) {
            match child_named(item, "area"@, None) {
                Some(area) => before.push(area_of(child_text(item, "name"@, None), area)),
                None => before,
            }
        } else {
            before
        }
    }
}

/// The named drawings, by name and drawing id, in document order.
pub open spec fn named_drawings(items: Seq<XmlNode>) -> Seq<(Seq<char>, Seq<char>)>
    decreases items.len(),
{
    if items.len() == 0 {
        Seq::empty()
    } else {
        let before = named_drawings(items.drop_last());
        let item = items.last();
        if !contains(item_type(item), "NamedItemCells"@) && contains(item_type(item), "NamedItemDrawing"@) {
            before.push((child_text(item, "name"@, None), child_text(item, "drawingID"@, None)))
        } else {
            before
        }
    }
}

/// Whether text `a` comes before `b` or equals it, char by char.
pub open spec fn text_le(a: Seq<char>, b: Seq<char>) -> bool
    decreases a.len(),
{
    if a.len() == 0 {
        true
    } else if b.len() == 0 {
        false
    } else if a[0] < b[0] {
        true
    } else if b[0] < a[0] {
        false
    } else {
        text_le(a.drop_first(), b.drop_first())
    }
}

/// The position an area sorts by: its first column for a column area, else
/// its first row.
pub open spec fn area_start(a: AreaSpec) -> int {
    if a.kind == "Columns"@ {
        a.begin_col
    } else {
        a.begin_row
    }
}

/// Whether area `a` sorts strictly after `b`.
pub open spec fn area_after(a: AreaSpec, b: AreaSpec) -> bool {
    area_start(a) > area_start(b) || (area_start(a) == area_start(b) && !text_le(a.name, b.name))
}

/// Where `x` goes in a sorted list so that it comes after its equals: before
/// the first entry after it.
pub open spec fn area_slot(sorted: Seq<AreaSpec>, x: AreaSpec, k: int) -> int
    decreases sorted.len() - k,
{
    if k < 0 || k >= sorted.len() {
        sorted.len() as int
    } else if area_after(sorted[k], x) {
        k
    } else {
        area_slot(sorted, x, k + 1)
    }
}

/// The areas sorted by position and name, equal ones in their order.
pub open spec fn sorted_areas(areas: Seq<AreaSpec>) -> Seq<AreaSpec>
    decreases areas.len(),
{
    if areas.len() == 0 {
        Seq::empty()
    } else {
        let s = sorted_areas(areas.drop_last());
        s.insert(area_slot(s, areas.last(), 0), areas.last())
    }
}

pub open spec fn row_slot(sorted: Seq<(int, XmlNode)>, key: int, k: int) -> int
    decreases sorted.len() - k,
{
    if k < 0 || k >= sorted.len() {
        sorted.len() as int
    } else if sorted[k].0 > key {
        k
    } else {
        row_slot(sorted, key, k + 1)
    }
}

/// The row items sorted by index, equal ones in their order.
pub open spec fn sorted_rows(rows: Seq<(int, XmlNode)>) -> Seq<(int, XmlNode)>
    decreases rows.len(),
{
    if rows.len() == 0 {
        Seq::empty()
    } else {
        let s = sorted_rows(rows.drop_last());
        s.insert(row_slot(s, rows.last().0, 0), rows.last())
    }
}

/// Whether an area with both bounds set covers row `r`.
pub open spec fn covered(areas: Seq<AreaSpec>, r: int) -> bool {
    exists|k: int|
        0 <= k < areas.len() && areas[k].begin_row != -1 && areas[k].end_row != -1 && areas[k].begin_row <= r
            <= #[trigger] areas[k].end_row
}

/// What the rows outside every area show, in the order of the sorted rows.
pub open spec fn outside_found(sorted: Seq<(int, XmlNode)>, areas: Seq<AreaSpec>, with_text: bool) -> Found
    decreases sorted.len(),
{
    if sorted.len() == 0 {
        none_found()
    } else {
        let before = outside_found(sorted.drop_last(), areas, with_text);
        if covered(areas, sorted.last().0) {
            before
        } else {
            joined(before, row_found(sorted.last().1, with_text))
        }
    }
}

/// What the rows of an area show: from its first row (or 0) to its last (or
/// the last row of the template).
pub open spec fn area_found(a: AreaSpec, rows: Seq<(int, XmlNode)>, height: int, with_text: bool) -> Found {
    range_found(
        rows,
        if a.begin_row == -1 {
            0
        } else {
            a.begin_row
        },
        if a.end_row == -1 {
            height - 1
        } else {
            a.end_row
        },
        with_text,
    )
}

/// A text padded with spaces to `n` chars.
pub open spec fn padded(t: Seq<char>, n: int) -> Seq<char> {
    if t.len() >= n {
        t
    } else {
        t + Seq::new((n - t.len()) as nat, |i: int| ' ')
    }
}

/// The size of the column set with `id`, if there is one.
pub open spec fn set_size_of(sets: Seq<(Seq<char>, int)>, id: Seq<char>, k: int) -> Option<int>
    decreases sets.len() - k,
{
    if k < 0 || k >= sets.len() {
        None
    } else if sets[k].0 == id {
        Some(sets[k].1)
    } else {
        set_size_of(sets, id, k + 1)
    }
}

/// The rows an area spans, as its line says.
pub open spec fn area_range(a: AreaSpec) -> Seq<char> {
    if a.kind == "Rows"@ {
        "rows "@ + int_text(a.begin_row) + "-"@ + int_text(a.end_row)
    } else if a.kind == "Columns"@ {
        "cols "@ + int_text(a.begin_col) + "-"@ + int_text(a.end_col)
    } else if a.kind == "Rectangle"@ {
        "rows "@ + int_text(a.begin_row) + "-"@ + int_text(a.end_row) + ", cols "@ + int_text(a.begin_col) + "-"@
            + int_text(a.end_col)
    } else {
        Seq::empty()
    }
}

pub open spec fn area_line(a: AreaSpec, found: Found, sets: Seq<(Seq<char>, int)>) -> Seq<char> {
    "  "@ + padded(a.name, 25) + " "@ + padded(a.kind, 12) + " "@ + area_range(a) + "  ("@ + nat_text(found.params.len())
        + " params)"@ + match a.columns_id {
        Some(id) => " [colset"@ + match set_size_of(sets, id, 0) {
            Some(s) => " "@ + int_text(s) + "cols"@,
            None => Seq::empty(),
        } + "]"@,
        None => Seq::empty(),
    }
}

/// The column sets with an id, and the size of the last one without.
pub open spec fn info_column_sets(cols: Seq<XmlNode>) -> (Seq<(Seq<char>, int)>, int)
    decreases cols.len(),
{
    if cols.len() == 0 {
        (Seq::empty(), 0)
    } else {
        let (sets, d) = info_column_sets(cols.drop_last());
        let c = cols.last();
        let id = child_text(c, "id"@, None);
        if id.len() == 0 {
            (sets, int_or_zero(c, "size"@))
        } else {
            (sets.push((id, int_or_zero(c, "size"@))), d)
        }
    }
}

pub open spec fn quoted(items: Seq<Seq<char>>) -> Seq<Seq<char>> {
    items.map_values(|t: Seq<char>| "\""@ + t + "\""@)
}

/// The first chars of an id, as a column set's line shows it.
pub open spec fn id_prefix(t: Seq<char>) -> Seq<char> {
    if t.len() > 8 {
        t.take(8)
    } else {
        t
    }
}

pub open spec fn set_lines(sets: Seq<(Seq<char>, int)>) -> Seq<Seq<char>> {
    sets.map_values(|s: (Seq<char>, int)| "    "@ + id_prefix(s.0) + "...: "@ + int_text(s.1) + " cols"@)
}

/// The head of the overview: name, support, size and column sets.
pub open spec fn head_lines(name: Seq<char>, support: Seq<char>, height: int, sets: Seq<(Seq<char>, int)>, default_cols: int) -> Seq<Seq<char>> {
    seq![
        "=== "@ + name + " ==="@,
        "Поддержка: "@ + support,
        "  Rows: "@ + int_text(height) + ", Columns: "@ + int_text(default_cols),
    ] + if sets.len() == 0 {
        seq!["  Column sets: 1 (default only)"@]
    } else {
        seq![
            "  Column sets: "@ + nat_text(sets.len() + 1) + " (default="@ + int_text(default_cols) + " cols + "@ + nat_text(
                sets.len(),
            ) + " additional)"@,
        ] + set_lines(sets)
    }
}

pub open spec fn area_lines(areas: Seq<AreaSpec>, founds: Seq<Found>, sets: Seq<(Seq<char>, int)>) -> Seq<Seq<char>>
    decreases areas.len(),
{
    if areas.len() == 0 || founds.len() != areas.len() {
        Seq::empty()
    } else {
        area_lines(areas.drop_last(), founds.drop_last(), sets).push(area_line(areas.last(), founds.last(), sets))
    }
}

pub open spec fn drawing_lines(ds: Seq<(Seq<char>, Seq<char>)>) -> Seq<Seq<char>> {
    ds.map_values(|d: (Seq<char>, Seq<char>)| "  "@ + padded(d.0, 25) + " Drawing      drawingID="@ + d.1)
}

/// The names of the areas of one kind, in order.
pub open spec fn kind_names(areas: Seq<AreaSpec>, kind: Seq<char>) -> Seq<Seq<char>>
    decreases areas.len(),
{
    if areas.len() == 0 {
        Seq::empty()
    } else if areas.last().kind == kind {
        kind_names(areas.drop_last(), kind).push(areas.last().name)
    } else {
        kind_names(areas.drop_last(), kind)
    }
}

/// Each row area with each column area.
pub open spec fn crossings(rs: Seq<Seq<char>>, cs: Seq<Seq<char>>) -> Seq<Seq<char>>
    decreases rs.len(),
{
    if rs.len() == 0 {
        Seq::empty()
    } else {
        crossings(rs.drop_last(), cs) + cs.map_values(|c: Seq<char>| "  "@ + rs.last() + "|"@ + c)
    }
}

pub open spec fn intersection_lines(areas: Seq<AreaSpec>) -> Seq<Seq<char>> {
    let rs = kind_names(areas, "Rows"@);
    let cs = kind_names(areas, "Columns"@);
    if rs.len() > 0 && cs.len() > 0 {
        seq![Seq::empty(), "--- Intersections (use with GetArea) ---"@] + crossings(rs, cs)
    } else {
        Seq::empty()
    }
}

/// The parameter lines of one area (or of what lies outside the areas).
pub open spec fn param_lines(label: Seq<char>, f: Found, max_params: nat) -> Seq<Seq<char>> {
    if f.params.len() > 0 {
        seq!["  "@ + label + ": "@ + truncated_list(f.params, max_params)] + if f.details.len() > 0 {
            seq!["    detail: "@ + truncated_list(f.details, max_params)]
        } else {
            Seq::empty()
        }
    } else {
        Seq::empty()
    }
}

pub open spec fn areas_param_lines(areas: Seq<AreaSpec>, founds: Seq<Found>, max_params: nat) -> Seq<Seq<char>>
    decreases areas.len(),
{
    if areas.len() == 0 || founds.len() != areas.len() {
        Seq::empty()
    } else {
        areas_param_lines(areas.drop_last(), founds.drop_last(), max_params) + param_lines(
            areas.last().name,
            founds.last(),
            max_params,
        )
    }
}

pub open spec fn any_params(founds: Seq<Found>) -> bool {
    exists|k: int| 0 <= k < founds.len() && #[trigger] founds[k].params.len() > 0
}

pub open spec fn params_section(areas: Seq<AreaSpec>, founds: Seq<Found>, outside: Found, max_params: nat) -> Seq<Seq<char>> {
    if any_params(founds) || outside.params.len() > 0 {
        seq![Seq::empty(), "--- Parameters by area ---"@] + areas_param_lines(areas, founds, max_params) + param_lines(
            "(outside areas)"@,
            outside,
            max_params,
        )
    } else {
        Seq::empty()
    }
}

/// The text lines of one area (or of what lies outside the areas).
pub open spec fn text_lines_of(label: Seq<char>, f: Found, max_params: nat) -> Seq<Seq<char>> {
    if f.texts.len() > 0 || f.templates.len() > 0 {
        seq!["  "@ + label + ":"@] + (if f.texts.len() > 0 {
            seq!["    Text: "@ + truncated_list(quoted(f.texts), max_params)]
        } else {
            Seq::empty()
        }) + if f.templates.len() > 0 {
            seq!["    Templates: "@ + truncated_list(quoted(f.templates), max_params)]
        } else {
            Seq::empty()
        }
    } else {
        Seq::empty()
    }
}

pub open spec fn areas_text_lines(areas: Seq<AreaSpec>, founds: Seq<Found>, max_params: nat) -> Seq<Seq<char>>
    decreases areas.len(),
{
    if areas.len() == 0 || founds.len() != areas.len() {
        Seq::empty()
    } else {
        areas_text_lines(areas.drop_last(), founds.drop_last(), max_params) + text_lines_of(
            areas.last().name,
            founds.last(),
            max_params,
        )
    }
}

pub open spec fn any_text(founds: Seq<Found>) -> bool {
    exists|k: int| 0 <= k < founds.len() && (#[trigger] founds[k].texts.len() > 0 || founds[k].templates.len() > 0)
}

pub open spec fn text_section(areas: Seq<AreaSpec>, founds: Seq<Found>, outside: Found, with_text: bool, max_params: nat) -> Seq<Seq<char>> {
    if with_text && (any_text(founds) || outside.texts.len() > 0 || outside.templates.len() > 0) {
        seq![Seq::empty(), "--- Text content ---"@] + areas_text_lines(areas, founds, max_params) + if outside.texts.len() > 0
            || outside.templates.len() > 0 {
            seq!["  (outside areas):"@] + (if outside.texts.len() > 0 {
                seq!["    Text: "@ + truncated_list(quoted(outside.texts), max_params)]
            } else {
                Seq::empty()
            }) + if outside.templates.len() > 0 {
                seq!["    Templates: "@ + truncated_list(quoted(outside.templates), max_params)]
            } else {
                Seq::empty()
            }
        } else {
            Seq::empty()
        }
    } else {
        Seq::empty()
    }
}

/// The height of a template: its `height`, or the number of its row items.
pub open spec fn info_height(root: XmlNode) -> int {
    match parse_int(child_text(root, "height"@, None)) {
        Some(v) => v,
        None => children_named(root, "rowsItem"@, None).len() as int,
    }
}

/// All lines of the overview of a template, before paging.
pub open spec fn info_lines(root: XmlNode, name: Seq<char>, support: Seq<char>, with_text: bool, max_params: nat) -> Seq<Seq<char>> {
    let (sets, default_cols) = info_column_sets(children_named(root, "columns"@, None));
    let height = info_height(root);
    let rows = indexed_rows(children_named(root, "rowsItem"@, None));
    let items = children_named(root, "namedItem"@, None);
    let areas = sorted_areas(named_areas(items));
    let founds = areas.map_values(|a: AreaSpec| area_found(a, rows, height, with_text));
    let outside = outside_found(sorted_rows(rows), areas, with_text);
    head_lines(name, support, height, sets, default_cols) + seq![Seq::empty(), "--- Named areas ---"@] + area_lines(
        areas,
        founds,
        sets,
    ) + drawing_lines(named_drawings(items)) + intersection_lines(areas) + params_section(areas, founds, outside, max_params)
        + text_section(areas, founds, outside, with_text, max_params) + seq![
        Seq::empty(),
        "--- Stats ---"@,
        "  Merges: "@ + nat_text(children_named(root, "merge"@, None).len()),
        "  Drawings: "@ + nat_text(children_named(root, "drawing"@, None).len()),
    ]
}

/// The printed page of lines: from `offset` on where it is positive (a note
/// where it is past the end), at most `limit` of them where it is not
/// negative, with a note on how to go on.
pub open spec fn info_page(lines: Seq<Seq<char>>, offset: int, limit: int) -> Seq<char> {
    let total = lines.len() as int;
    if offset > 0 && offset >= total {
        "[INFO] Offset "@ + int_text(offset) + " exceeds total lines ("@ + int_text(total) + "). Nothing to show.\n"@
    } else {
        let out = if offset > 0 {
            lines.skip(offset)
        } else {
            lines
        };
        if limit >= 0 && out.len() > limit {
            join(out.take(limit), "\n"@) + "\n\n[TRUNCATED] Shown "@ + int_text(limit) + " of "@ + int_text(total)
                + " lines. Use -Offset "@ + int_text(offset + limit) + " to continue.\n"@
        } else {
            join(out, "\n"@) + "\n"@
        }
    }
}

/// The overview of a template given as text: the parser's message for a text
/// that is not XML, else the printed page.
pub open spec fn mxl_info_result(
    text: Seq<char>,
    name: Seq<char>,
    support: Seq<char>,
    with_text: bool,
    max_params: nat,
    offset: int,
    limit: int,
) -> Result<Seq<char>, Seq<char>> {
    match xml_tree(without_boms(text)) {
        Err(e) => Err(e),
        Ok(root) => Ok(info_page(info_lines(root, name, support, with_text, max_params), offset, limit)),
    }
}

/// What is found in rows, as the code keeps it.
pub struct FoundLists {
    pub params: Vec<Vec<char>>,
    pub details: Vec<Vec<char>>,
    pub texts: Vec<Vec<char>>,
    pub templates: Vec<Vec<char>>,
}

impl FoundLists {
    pub open spec fn found(&self) -> Found {
        Found {
            params: views(self.params@),
            details: views(self.details@),
            texts: views(self.texts@),
            templates: views(self.templates@),
        }
    }

    fn new() -> (r: Self)
        ensures
            r.found() == none_found(),
    {
        let r = FoundLists { params: Vec::new(), details: Vec::new(), texts: Vec::new(), templates: Vec::new() };
        assert(r.found().params =~= Seq::<Seq<char>>::empty());
        assert(r.found().details =~= Seq::<Seq<char>>::empty());
        assert(r.found().texts =~= Seq::<Seq<char>>::empty());
        assert(r.found().templates =~= Seq::<Seq<char>>::empty());
        r
    }
}

fn push_lines(v: &mut Vec<Vec<char>>, items: &Vec<Vec<char>>)
    ensures
        views(final(v)@) == views(old(v)@) + views(items@),
{
    let ghost start = views(v@);
    let mut i: usize = 0;
    while i < items.len()
        invariant
            i <= items@.len(),
            start == views(old(v)@),
            views(v@) == start + views(items@).take(i as int),
        decreases items.len() - i,
    {
        crate::skd_fragments::push_line(v, crate::text::to_vec(&items[i]));
        assert(views(items@).take(i + 1) =~= views(items@).take(i as int).push(items@[i as int]@));
        i = i + 1;
    }
    assert(views(items@).take(i as int) =~= views(items@));
}

/// Adds what one cell group shows.
fn add_cell_found(acc: &mut FoundLists, group: &XmlElement, with_text: bool)
    ensures
        final(acc).found() == joined(old(acc).found(), cell_found(group@, with_text)),
{
    let cell = match crate::xml::child(group, "c", None) {
        Some(c) => c,
        None => {
            assert(acc.found() =~= joined(old(acc).found(), none_found()));
            return;
        },
    };
    let ghost f0 = acc.found();
    let p = crate::xml::child_text_of(cell, "parameter", None);
    let d = crate::xml::child_text_of(cell, "detailParameter", None);
    if p.len() > 0 {
        if d.len() > 0 {
            let mut pd = crate::text::to_vec(&p);
            push_str(&mut pd, "->");
            push_chars(&mut pd, &d);
            crate::skd_fragments::push_line(&mut acc.details, pd);
        }
        crate::skd_fragments::push_line(&mut acc.params, p);
    }
    let ghost f1 = acc.found();
    let ghost pv = p@;
    let ghost dv = d@;
    let ghost a = if pv.len() > 0 {
        Found {
            params: seq![pv],
            details: if dv.len() > 0 {
                seq![pv + "->"@ + dv]
            } else {
                Seq::empty()
            },
            ..none_found()
        }
    } else {
        none_found()
    };
    assert(f1 =~= joined(f0, a));
    match crate::xml::child(cell, "tl", None) {
        None => {},
        Some(tl) => {
            let content = match crate::xml::find_element(tl, "content", None) {
                Some(n) => crate::xml::text_of(n),
                None => Vec::new(),
            };
            if content.len() > 0 {
                let ph = crate::mxl::mxl_template_placeholders(&content);
                if ph.len() > 0 {
                    let ghost before = views(acc.params@);
                    let mut i: usize = 0;
                    while i < ph.len()
                        invariant
                            i <= ph@.len(),
                            views(acc.params@) == before + views(ph@).take(i as int).map_values(|x: Seq<char>| x + " [tpl]"@),
                            views(acc.details@) == f1.details,
                            views(acc.texts@) == f1.texts,
                            views(acc.templates@) == f1.templates,
                        decreases ph.len() - i,
                    {
                        let mut t = crate::text::to_vec(&ph[i]);
                        push_str(&mut t, " [tpl]");
                        crate::skd_fragments::push_line(&mut acc.params, t);
                        assert(views(ph@).take(i + 1).map_values(|x: Seq<char>| x + " [tpl]"@) =~= views(ph@).take(
                            i as int,
                        ).map_values(|x: Seq<char>| x + " [tpl]"@).push(ph@[i as int]@ + " [tpl]"@));
                        i = i + 1;
                    }
                    assert(views(ph@).take(i as int) =~= views(ph@));
                    if with_text {
                        crate::skd_fragments::push_line(&mut acc.templates, content);
                    }
                } else if with_text {
                    crate::skd_fragments::push_line(&mut acc.texts, content);
                }
            }
        },
    }
    let ghost b = match child_named(cell@, "tl"@, None) {
        None => none_found(),
        Some(tl) => {
            let content = match find_named(tl, "content"@, None) {
                Some(n) => text_or_empty(n),
                None => Seq::empty(),
            };
            let ph = template_placeholders(content);
            if content.len() == 0 {
                none_found()
            } else if ph.len() > 0 {
                Found {
                    params: ph.map_values(|x: Seq<char>| x + " [tpl]"@),
                    templates: if with_text {
                        seq![content]
                    } else {
                        Seq::empty()
                    },
                    ..none_found()
                }
            } else if with_text {
                Found { texts: seq![content], ..none_found() }
            } else {
                none_found()
            }
        },
    };
    assert(acc.found() =~= joined(f1, b));
    assert(joined(joined(f0, a), b) =~= joined(f0, joined(a, b)));
}

/// Adds what a row item shows.
fn add_row_found(acc: &mut FoundLists, item: &XmlElement, with_text: bool)
    ensures
        final(acc).found() == joined(old(acc).found(), row_found(item@, with_text)),
{
    let row = match crate::xml::child(item, "row", None) {
        Some(r) => r,
        None => {
            assert(acc.found() =~= joined(old(acc).found(), none_found()));
            return;
        },
    };
    let groups = crate::xml::children_with(row, "c", None);
    let ghost gs = children_named(row@, "c"@, None);
    let ghost f0 = acc.found();
    let mut k: usize = 0;
    assert(gs.take(0) =~= Seq::<XmlNode>::empty());
    assert(f0 =~= joined(f0, groups_found(gs.take(0), with_text)));
    while k < groups.len()
        invariant
            k <= groups@.len(),
            groups@.len() == gs.len(),
            forall|j: int| 0 <= j < groups@.len() ==> (#[trigger] groups@[j])@ == gs[j],
            acc.found() == joined(f0, groups_found(gs.take(k as int), with_text)),
        decreases groups.len() - k,
    {
        assert(gs.take(k + 1).drop_last() =~= gs.take(k as int));
        assert(gs.take(k + 1).last() == groups@[k as int]@);
        add_cell_found(acc, groups[k], with_text);
        assert(acc.found() =~= joined(f0, groups_found(gs.take(k + 1), with_text)));
        k = k + 1;
    }
    assert(gs.take(k as int) =~= gs);
}

pub open spec fn rows_view(v: Seq<(i64, &XmlElement)>) -> Seq<(int, XmlNode)> {
    v.map_values(|e: (i64, &XmlElement)| (e.0 as int, e.1@))
}

fn int_or_zero_exec(n: &XmlElement, name: &str) -> (r: i64)
    ensures
        r as int == int_or_zero(n@, name@),
{
    let t = crate::xml::child_text_of(n, name, None);
    match crate::numbers::parse_i64(&t) {
        Some(v) => v,
        None => 0,
    }
}

fn read_indexed_rows<'a>(root: &'a XmlElement) -> (r: Vec<(i64, &'a XmlElement)>)
    ensures
        rows_view(r@) == indexed_rows(children_named(root@, "rowsItem"@, None)),
{
    let items = crate::xml::children_with(root, "rowsItem", None);
    let ghost iv = children_named(root@, "rowsItem"@, None);
    let mut r: Vec<(i64, &'a XmlElement)> = Vec::new();
    let mut k: usize = 0;
    assert(iv.take(0) =~= Seq::<XmlNode>::empty());
    assert(rows_view(r@) =~= Seq::<(int, XmlNode)>::empty());
    while k < items.len()
        invariant
            k <= items@.len(),
            items@.len() == iv.len(),
            forall|j: int| 0 <= j < items@.len() ==> (#[trigger] items@[j])@ == iv[j],
            rows_view(r@) == indexed_rows(iv.take(k as int)),
        decreases items.len() - k,
    {
        assert(iv.take(k + 1).drop_last() =~= iv.take(k as int));
        assert(iv.take(k + 1).last() == items@[k as int]@);
        let t = crate::xml::child_text_of(items[k], "index", None);
        match crate::numbers::parse_i64(&t) {
            Some(i) => {
                let ghost before = r@;
                r.push((i, items[k]));
                assert(rows_view(r@) =~= rows_view(before).push((i as int, items@[k as int]@)));
            },
            None => {},
        }
        k = k + 1;
    }
    assert(iv.take(k as int) =~= iv);
    r
}

fn first_row_exec<'a>(rows: &Vec<(i64, &'a XmlElement)>, r: i128) -> (res: Option<&'a XmlElement>)
    ensures
        match first_row(rows_view(rows@), r as int, 0) {
            Some(n) => res matches Some(x) && x@ == n,
            None => res is None,
        },
{
    let ghost rv = rows_view(rows@);
    let mut k: usize = 0;
    while k < rows.len()
        invariant
            k <= rows@.len(),
            rv == rows_view(rows@),
            first_row(rv, r as int, 0) == first_row(rv, r as int, k as int),
        decreases rows.len() - k,
    {
        if rows[k].0 as i128 == r {
            return Some(rows[k].1);
        }
        k = k + 1;
    }
    None
}

/// Adds what the rows `from..=to` show.
fn add_range_found(acc: &mut FoundLists, rows: &Vec<(i64, &XmlElement)>, from: i128, to: i128, with_text: bool)
    requires
        i64::MIN - 1 <= from,
        to <= u64::MAX,
    ensures
        final(acc).found() == joined(old(acc).found(), range_found(rows_view(rows@), from as int, to as int, with_text)),
{
    let ghost rv = rows_view(rows@);
    let ghost f0 = acc.found();
    let mut r: i128 = from;
    if r > to {
        assert(acc.found() =~= joined(f0, none_found()));
        return;
    }
    while r <= to
        invariant
            from <= r <= to + 1,
            to <= u64::MAX,
            rv == rows_view(rows@),
            joined(acc.found(), range_found(rv, r as int, to as int, with_text)) == joined(
                f0,
                range_found(rv, from as int, to as int, with_text),
            ),
        decreases to + 1 - r,
    {
        let ghost fa = acc.found();
        let ghost here = match first_row(rv, r as int, 0) {
            Some(n) => row_found(n, with_text),
            None => none_found(),
        };
        match first_row_exec(rows, r) {
            Some(n) => add_row_found(acc, n, with_text),
            None => {
                assert(acc.found() =~= joined(fa, none_found()));
            },
        }
        assert(acc.found() == joined(fa, here));
        assert(joined(joined(fa, here), range_found(rv, r + 1, to as int, with_text)) =~= joined(
            fa,
            joined(here, range_found(rv, r + 1, to as int, with_text)),
        ));
        r = r + 1;
    }
    assert(range_found(rv, r as int, to as int, with_text) == none_found());
    assert(joined(acc.found(), none_found()) =~= acc.found());
}

/// A named area of cells as the code keeps it.
pub struct InfoArea {
    pub name: Vec<char>,
    pub kind: Vec<char>,
    pub begin_row: i64,
    pub end_row: i64,
    pub begin_col: i64,
    pub end_col: i64,
    pub columns_id: Option<Vec<char>>,
}

pub open spec fn area_view(a: InfoArea) -> AreaSpec {
    AreaSpec {
        name: a.name@,
        kind: a.kind@,
        begin_row: a.begin_row as int,
        end_row: a.end_row as int,
        begin_col: a.begin_col as int,
        end_col: a.end_col as int,
        columns_id: crate::xml::opt_view(a.columns_id),
    }
}

pub open spec fn areas_view(v: Seq<InfoArea>) -> Seq<AreaSpec> {
    v.map_values(|a: InfoArea| area_view(a))
}

pub open spec fn pairs_view(v: Seq<(Vec<char>, Vec<char>)>) -> Seq<(Seq<char>, Seq<char>)> {
    v.map_values(|p: (Vec<char>, Vec<char>)| (p.0@, p.1@))
}

fn read_area(name: Vec<char>, area: &XmlElement) -> (r: InfoArea)
    ensures
        area_view(r) == area_of(name@, area@),
{
    let id = crate::xml::child_text_of(area, "columnsID", None);
    InfoArea {
        name,
        kind: crate::xml::child_text_of(area, "type", None),
        begin_row: int_or_zero_exec(area, "beginRow"),
        end_row: int_or_zero_exec(area, "endRow"),
        begin_col: int_or_zero_exec(area, "beginColumn"),
        end_col: int_or_zero_exec(area, "endColumn"),
        columns_id: if id.len() > 0 {
            Some(id)
        } else {
            None
        },
    }
}

/// The named areas and drawings of a template, in document order.
fn read_named(root: &XmlElement) -> (r: (Vec<InfoArea>, Vec<(Vec<char>, Vec<char>)>))
    ensures
        areas_view(r.0@) == named_areas(children_named(root@, "namedItem"@, None)),
        pairs_view(r.1@) == named_drawings(children_named(root@, "namedItem"@, None)),
{
    let items = crate::xml::children_with(root, "namedItem", None);
    let ghost iv = children_named(root@, "namedItem"@, None);
    let mut areas: Vec<InfoArea> = Vec::new();
    let mut drawings: Vec<(Vec<char>, Vec<char>)> = Vec::new();
    let mut k: usize = 0;
    assert(iv.take(0) =~= Seq::<XmlNode>::empty());
    assert(areas_view(areas@) =~= Seq::<AreaSpec>::empty());
    assert(pairs_view(drawings@) =~= Seq::<(Seq<char>, Seq<char>)>::empty());
    while k < items.len()
        invariant
            k <= items@.len(),
            items@.len() == iv.len(),
            forall|j: int| 0 <= j < items@.len() ==> (#[trigger] items@[j])@ == iv[j],
            areas_view(areas@) == named_areas(iv.take(k as int)),
            pairs_view(drawings@) == named_drawings(iv.take(k as int)),
        decreases items.len() - k,
    {
        let item = items[k];
        assert(iv.take(k + 1).drop_last() =~= iv.take(k as int));
        assert(iv.take(k + 1).last() == item@);
        let ty = match crate::xml::attribute_local(item, "type") {
            Some(t) => t,
            None => Vec::new(),
        };
        assert(ty@ == item_type(item@));
        let name = crate::xml::child_text_of(item, "name", None);
        if crate::text::contains_str(&ty, "NamedItemCells") {
            match crate::xml::child(item, "area", None) {
                Some(area) => {
                    let ghost before = areas@;
                    let a = read_area(name, area);
                    areas.push(a);
                    assert(areas_view(areas@) =~= areas_view(before).push(area_view(a)));
                },
                None => {},
            }
        } else if crate::text::contains_str(&ty, "NamedItemDrawing") {
            let ghost before = drawings@;
            let id = crate::xml::child_text_of(item, "drawingID", None);
            let ghost pair = (name@, id@);
            drawings.push((name, id));
            assert(pairs_view(drawings@) =~= pairs_view(before).push(pair));
        }
        k = k + 1;
    }
    assert(iv.take(k as int) =~= iv);
    (areas, drawings)
}

fn text_le_exec(a: &[char], b: &[char]) -> (r: bool)
    ensures
        r == text_le(a@, b@),
{
    let mut i: usize = 0;
    assert(a@.skip(0) =~= a@);
    assert(b@.skip(0) =~= b@);
    while i < a.len() && i < b.len() && a[i] == b[i]
        invariant
            i <= a@.len(),
            i <= b@.len(),
            text_le(a@, b@) == text_le(a@.skip(i as int), b@.skip(i as int)),
        decreases a.len() - i,
    {
        assert(a@.skip(i as int).drop_first() =~= a@.skip(i + 1));
        assert(b@.skip(i as int).drop_first() =~= b@.skip(i + 1));
        i = i + 1;
    }
    if i == a.len() {
        assert(a@.skip(i as int).len() == 0);
        true
    } else if i == b.len() {
        assert(b@.skip(i as int).len() == 0);
        false
    } else {
        assert(a@.skip(i as int)[0] == a@[i as int]);
        assert(b@.skip(i as int)[0] == b@[i as int]);
        assert(a@[i as int] != b@[i as int]);
        a[i] < b[i]
    }
}

fn area_after_exec(a: &InfoArea, b: &InfoArea) -> (r: bool)
    ensures
        r == area_after(area_view(*a), area_view(*b)),
{
    let sa = if crate::text::eq_str(&a.kind, "Columns") { a.begin_col } else { a.begin_row };
    let sb = if crate::text::eq_str(&b.kind, "Columns") { b.begin_col } else { b.begin_row };
    sa > sb || (sa == sb && !text_le_exec(&a.name, &b.name))
}

fn sort_areas(areas: Vec<InfoArea>) -> (r: Vec<InfoArea>)
    ensures
        areas_view(r@) == sorted_areas(areas_view(areas@)),
{
    let ghost av = areas_view(areas@);
    assert(av.len() == areas@.len());
    assert(areas@.len() == areas.len());
    let mut input = areas;
    let mut sorted: Vec<InfoArea> = Vec::new();
    let mut k: usize = 0;
    assert(av.take(0) =~= Seq::<AreaSpec>::empty());
    assert(areas_view(sorted@) =~= Seq::<AreaSpec>::empty());
    assert(av.skip(0) =~= av);
    while input.len() > 0
        invariant
            k + input@.len() == av.len(),
            av.len() <= usize::MAX,
            areas_view(input@) == av.skip(k as int),
            areas_view(sorted@) == sorted_areas(av.take(k as int)),
        decreases input.len(),
    {
        let ghost before = input@;
        let x = input.remove(0);
        assert(input@ =~= before.subrange(1, before.len() as int));
        assert(areas_view(input@) =~= areas_view(before).subrange(1, before.len() as int));
        let ghost xs = area_view(x);
        assert(before[0] == x);
        assert(areas_view(before)[0] == xs);
        assert(xs == av[k as int]);
        assert(areas_view(input@) =~= av.skip(k + 1));
        assert(av.take(k + 1).drop_last() =~= av.take(k as int));
        let ghost sv = areas_view(sorted@);
        let mut p: usize = 0;
        while p < sorted.len() && !area_after_exec(&sorted[p], &x)
            invariant
                p <= sorted@.len(),
                sv == areas_view(sorted@),
                area_slot(sv, xs, 0) == area_slot(sv, xs, p as int),
                xs == area_view(x),
            decreases sorted.len() - p,
        {
            p = p + 1;
        }
        sorted.insert(p, x);
        assert(areas_view(sorted@) =~= sv.insert(p as int, xs));
        k = k + 1;
    }
    assert(av.take(k as int) =~= av);
    sorted
}

fn sort_rows<'a>(rows: &Vec<(i64, &'a XmlElement)>) -> (r: Vec<(i64, &'a XmlElement)>)
    ensures
        rows_view(r@) == sorted_rows(rows_view(rows@)),
{
    let ghost rv = rows_view(rows@);
    let mut sorted: Vec<(i64, &'a XmlElement)> = Vec::new();
    let mut k: usize = 0;
    assert(rv.take(0) =~= Seq::<(int, XmlNode)>::empty());
    assert(rows_view(sorted@) =~= Seq::<(int, XmlNode)>::empty());
    while k < rows.len()
        invariant
            k <= rows@.len(),
            rv == rows_view(rows@),
            rows_view(sorted@) == sorted_rows(rv.take(k as int)),
        decreases rows.len() - k,
    {
        let x = rows[k];
        assert(rv.take(k + 1).drop_last() =~= rv.take(k as int));
        assert(rv.take(k + 1).last() == (x.0 as int, x.1@));
        let ghost sv = rows_view(sorted@);
        let mut p: usize = 0;
        while p < sorted.len() && !(sorted[p].0 > x.0)
            invariant
                p <= sorted@.len(),
                sv == rows_view(sorted@),
                row_slot(sv, x.0 as int, 0) == row_slot(sv, x.0 as int, p as int),
            decreases sorted.len() - p,
        {
            p = p + 1;
        }
        sorted.insert(p, x);
        assert(rows_view(sorted@) =~= sv.insert(p as int, (x.0 as int, x.1@)));
        k = k + 1;
    }
    assert(rv.take(k as int) =~= rv);
    sorted
}

fn covered_exec(areas: &Vec<InfoArea>, r: i64) -> (b: bool)
    ensures
        b == covered(areas_view(areas@), r as int),
{
    let ghost av = areas_view(areas@);
    let mut k: usize = 0;
    while k < areas.len()
        invariant
            k <= areas@.len(),
            av == areas_view(areas@),
            forall|j: int|
                0 <= j < k ==> !(av[j].begin_row != -1 && av[j].end_row != -1 && av[j].begin_row <= r as int
                    <= #[trigger] av[j].end_row),
        decreases areas.len() - k,
    {
        let a = &areas[k];
        if a.begin_row != -1 && a.end_row != -1 && a.begin_row <= r && r <= a.end_row {
            assert(av[k as int].end_row == a.end_row);
            return true;
        }
        k = k + 1;
    }
    false
}

fn outside_found_exec(sorted: &Vec<(i64, &XmlElement)>, areas: &Vec<InfoArea>, with_text: bool) -> (r: FoundLists)
    ensures
        r.found() == outside_found(rows_view(sorted@), areas_view(areas@), with_text),
{
    let ghost sv = rows_view(sorted@);
    let mut acc = FoundLists::new();
    let mut k: usize = 0;
    assert(sv.take(0) =~= Seq::<(int, XmlNode)>::empty());
    while k < sorted.len()
        invariant
            k <= sorted@.len(),
            sv == rows_view(sorted@),
            acc.found() == outside_found(sv.take(k as int), areas_view(areas@), with_text),
        decreases sorted.len() - k,
    {
        assert(sv.take(k + 1).drop_last() =~= sv.take(k as int));
        assert(sv.take(k + 1).last() == (sorted@[k as int].0 as int, sorted@[k as int].1@));
        if !covered_exec(areas, sorted[k].0) {
            add_row_found(&mut acc, sorted[k].1, with_text);
        }
        k = k + 1;
    }
    assert(sv.take(k as int) =~= sv);
    acc
}

pub open spec fn sets_view(v: Seq<(Vec<char>, i64)>) -> Seq<(Seq<char>, int)> {
    v.map_values(|p: (Vec<char>, i64)| (p.0@, p.1 as int))
}

fn read_info_column_sets(root: &XmlElement) -> (r: (Vec<(Vec<char>, i64)>, i64))
    ensures
        (sets_view(r.0@), r.1 as int) == info_column_sets(children_named(root@, "columns"@, None)),
{
    let cols = crate::xml::children_with(root, "columns", None);
    let ghost cv = children_named(root@, "columns"@, None);
    let mut sets: Vec<(Vec<char>, i64)> = Vec::new();
    let mut d: i64 = 0;
    let mut k: usize = 0;
    assert(cv.take(0) =~= Seq::<XmlNode>::empty());
    assert(sets_view(sets@) =~= Seq::<(Seq<char>, int)>::empty());
    while k < cols.len()
        invariant
            k <= cols@.len(),
            cols@.len() == cv.len(),
            forall|j: int| 0 <= j < cols@.len() ==> (#[trigger] cols@[j])@ == cv[j],
            (sets_view(sets@), d as int) == info_column_sets(cv.take(k as int)),
        decreases cols.len() - k,
    {
        let c = cols[k];
        assert(cv.take(k + 1).drop_last() =~= cv.take(k as int));
        assert(cv.take(k + 1).last() == c@);
        let id = crate::xml::child_text_of(c, "id", None);
        let size = int_or_zero_exec(c, "size");
        if id.len() == 0 {
            d = size;
        } else {
            let ghost before = sets@;
            let ghost pair = (id@, size as int);
            sets.push((id, size));
            assert(sets_view(sets@) =~= sets_view(before).push(pair));
        }
        k = k + 1;
    }
    assert(cv.take(k as int) =~= cv);
    (sets, d)
}

pub open spec fn founds_view(v: Seq<FoundLists>) -> Seq<Found> {
    v.map_values(|f: FoundLists| f.found())
}

fn area_founds(areas: &Vec<InfoArea>, rows: &Vec<(i64, &XmlElement)>, height: i128, with_text: bool) -> (r: Vec<FoundLists>)
    requires
        i64::MIN <= height <= u64::MAX,
    ensures
        founds_view(r@) == areas_view(areas@).map_values(|a: AreaSpec| area_found(a, rows_view(rows@), height as int, with_text)),
{
    let ghost av = areas_view(areas@);
    let ghost f = |a: AreaSpec| area_found(a, rows_view(rows@), height as int, with_text);
    let mut r: Vec<FoundLists> = Vec::new();
    let mut k: usize = 0;
    while k < areas.len()
        invariant
            k <= areas@.len(),
            av == areas_view(areas@),
            i64::MIN <= height <= u64::MAX,
            f == (|a: AreaSpec| area_found(a, rows_view(rows@), height as int, with_text)),
            founds_view(r@) == av.take(k as int).map_values(f),
        decreases areas.len() - k,
    {
        let a = &areas[k];
        let from: i128 = if a.begin_row == -1 { 0 } else { a.begin_row as i128 };
        let to: i128 = if a.end_row == -1 { height - 1 } else { a.end_row as i128 };
        let mut acc = FoundLists::new();
        add_range_found(&mut acc, rows, from, to, with_text);
        assert(acc.found() =~= f(av[k as int]));
        let ghost before = r@;
        r.push(acc);
        assert(founds_view(r@) =~= founds_view(before).push(f(av[k as int])));
        assert(av.take(k + 1).map_values(f) =~= av.take(k as int).map_values(f).push(f(av[k as int])));
        k = k + 1;
    }
    assert(av.take(k as int) =~= av);
    r
}

fn padded_exec(t: &[char], n: usize) -> (r: Vec<char>)
    ensures
        r@ == padded(t@, n as int),
{
    let mut r = crate::text::to_vec(t);
    let ghost base = t@;
    while r.len() < n
        invariant
            base == t@,
            r@.len() >= base.len(),
            base.len() >= n ==> r@.len() == base.len(),
            base.len() < n ==> r@.len() <= n,
            r@ == base + Seq::new((r@.len() - base.len()) as nat, |i: int| ' '),
        decreases n - r.len(),
    {
        let ghost before = r@;
        r.push(' ');
        assert(r@ =~= base + Seq::new((r@.len() - base.len()) as nat, |i: int| ' '));
    }
    if t.len() >= n {
        assert(r@ =~= base);
    } else {
        assert(r@ =~= base + Seq::new((n - base.len()) as nat, |i: int| ' '));
    }
    r
}

fn push_head(lines: &mut Vec<Vec<char>>, name: &[char], support: &[char], height: i128, sets: &Vec<(Vec<char>, i64)>, default_cols: i64)
    ensures
        views(final(lines)@) == views(old(lines)@) + head_lines(name@, support@, height as int, sets_view(sets@), default_cols as int),
{
    let ghost start = views(lines@);
    let mut h = chars_of("=== ");
    push_chars(&mut h, name);
    push_str(&mut h, " ===");
    crate::skd_fragments::push_line(lines, h);
    let mut sp = chars_of("Поддержка: ");
    push_chars(&mut sp, support);
    crate::skd_fragments::push_line(lines, sp);
    let mut rc = chars_of("  Rows: ");
    push_chars(&mut rc, &crate::numbers::i128_text(height));
    push_str(&mut rc, ", Columns: ");
    push_chars(&mut rc, &crate::numbers::i64_text(default_cols));
    crate::skd_fragments::push_line(lines, rc);
    let ghost sv = sets_view(sets@);
    if sets.len() == 0 {
        crate::skd_fragments::push_line(lines, chars_of("  Column sets: 1 (default only)"));
    } else {
        let mut m = chars_of("  Column sets: ");
        push_chars(&mut m, &crate::numbers::u128_text(sets.len() as u128 + 1));
        push_str(&mut m, " (default=");
        push_chars(&mut m, &crate::numbers::i64_text(default_cols));
        push_str(&mut m, " cols + ");
        push_chars(&mut m, &crate::numbers::usize_text(sets.len()));
        push_str(&mut m, " additional)");
        crate::skd_fragments::push_line(lines, m);
        let ghost mid = views(lines@);
        let mut k: usize = 0;
        while k < sets.len()
            invariant
                k <= sets@.len(),
                sv == sets_view(sets@),
                views(lines@) == mid + set_lines(sv).take(k as int),
            decreases sets.len() - k,
        {
            let mut l = chars_of("    ");
            let p = crate::mxl::mxl_prefix(&sets[k].0, 8);
            assert(p@ =~= id_prefix(sv[k as int].0));
            push_chars(&mut l, &p);
            push_str(&mut l, "...: ");
            push_chars(&mut l, &crate::numbers::i64_text(sets[k].1));
            push_str(&mut l, " cols");
            crate::skd_fragments::push_line(lines, l);
            assert(set_lines(sv).take(k + 1) =~= set_lines(sv).take(k as int).push(set_lines(sv)[k as int]));
            k = k + 1;
        }
        assert(set_lines(sv).take(k as int) =~= set_lines(sv));
    }
    assert(views(lines@) =~= start + head_lines(name@, support@, height as int, sv, default_cols as int));
}

fn set_size_exec(sets: &Vec<(Vec<char>, i64)>, id: &[char]) -> (r: Option<i64>)
    ensures
        match set_size_of(sets_view(sets@), id@, 0) {
            Some(s) => r matches Some(x) && x as int == s,
            None => r is None,
        },
{
    let ghost sv = sets_view(sets@);
    let mut k: usize = 0;
    while k < sets.len()
        invariant
            k <= sets@.len(),
            sv == sets_view(sets@),
            set_size_of(sv, id@, 0) == set_size_of(sv, id@, k as int),
        decreases sets.len() - k,
    {
        if crate::text::eq_chars(&sets[k].0, id) {
            return Some(sets[k].1);
        }
        k = k + 1;
    }
    None
}

fn area_range_exec(a: &InfoArea) -> (r: Vec<char>)
    ensures
        r@ == area_range(area_view(*a)),
{
    let mut r: Vec<char> = Vec::new();
    if crate::text::eq_str(&a.kind, "Rows") {
        push_str(&mut r, "rows ");
        push_chars(&mut r, &crate::numbers::i64_text(a.begin_row));
        push_str(&mut r, "-");
        push_chars(&mut r, &crate::numbers::i64_text(a.end_row));
    } else if crate::text::eq_str(&a.kind, "Columns") {
        push_str(&mut r, "cols ");
        push_chars(&mut r, &crate::numbers::i64_text(a.begin_col));
        push_str(&mut r, "-");
        push_chars(&mut r, &crate::numbers::i64_text(a.end_col));
    } else if crate::text::eq_str(&a.kind, "Rectangle") {
        push_str(&mut r, "rows ");
        push_chars(&mut r, &crate::numbers::i64_text(a.begin_row));
        push_str(&mut r, "-");
        push_chars(&mut r, &crate::numbers::i64_text(a.end_row));
        push_str(&mut r, ", cols ");
        push_chars(&mut r, &crate::numbers::i64_text(a.begin_col));
        push_str(&mut r, "-");
        push_chars(&mut r, &crate::numbers::i64_text(a.end_col));
    }
    assert(r@ =~= area_range(area_view(*a)));
    r
}

fn area_line_exec(a: &InfoArea, found: &FoundLists, sets: &Vec<(Vec<char>, i64)>) -> (r: Vec<char>)
    ensures
        r@ == area_line(area_view(*a), found.found(), sets_view(sets@)),
{
    let mut r = chars_of("  ");
    push_chars(&mut r, &padded_exec(&a.name, 25));
    push_str(&mut r, " ");
    push_chars(&mut r, &padded_exec(&a.kind, 12));
    push_str(&mut r, " ");
    push_chars(&mut r, &area_range_exec(a));
    push_str(&mut r, "  (");
    push_chars(&mut r, &crate::numbers::usize_text(found.params.len()));
    push_str(&mut r, " params)");
    let ghost before = r@;
    match &a.columns_id {
        Some(id) => {
            push_str(&mut r, " [colset");
            match set_size_exec(sets, id) {
                Some(sz) => {
                    push_str(&mut r, " ");
                    push_chars(&mut r, &crate::numbers::i64_text(sz));
                    push_str(&mut r, "cols");
                },
                None => {},
            }
            push_str(&mut r, "]");
        },
        None => {},
    }
    proof {
        reveal_strlit("");
    }
    assert(r@ =~= area_line(area_view(*a), found.found(), sets_view(sets@)));
    r
}

fn push_area_lines(lines: &mut Vec<Vec<char>>, areas: &Vec<InfoArea>, founds: &Vec<FoundLists>, sets: &Vec<(Vec<char>, i64)>)
    requires
        areas@.len() == founds@.len(),
    ensures
        views(final(lines)@) == views(old(lines)@) + area_lines(areas_view(areas@), founds_view(founds@), sets_view(sets@)),
{
    let ghost av = areas_view(areas@);
    let ghost fv = founds_view(founds@);
    let ghost start = views(lines@);
    let mut k: usize = 0;
    assert(av.take(0) =~= Seq::<AreaSpec>::empty());
    assert(start =~= start + area_lines(av.take(0), fv.take(0), sets_view(sets@)));
    while k < areas.len()
        invariant
            k <= areas@.len(),
            areas@.len() == founds@.len(),
            av == areas_view(areas@),
            fv == founds_view(founds@),
            start == views(old(lines)@),
            views(lines@) == start + area_lines(av.take(k as int), fv.take(k as int), sets_view(sets@)),
        decreases areas.len() - k,
    {
        assert(av.take(k + 1).drop_last() =~= av.take(k as int));
        assert(fv.take(k + 1).drop_last() =~= fv.take(k as int));
        crate::skd_fragments::push_line(lines, area_line_exec(&areas[k], &founds[k], sets));
        assert(views(lines@) =~= start + area_lines(av.take(k + 1), fv.take(k + 1), sets_view(sets@)));
        k = k + 1;
    }
    assert(av.take(k as int) =~= av);
    assert(fv.take(k as int) =~= fv);
}

fn push_drawing_lines(lines: &mut Vec<Vec<char>>, ds: &Vec<(Vec<char>, Vec<char>)>)
    ensures
        views(final(lines)@) == views(old(lines)@) + drawing_lines(pairs_view(ds@)),
{
    let ghost dv = pairs_view(ds@);
    let ghost start = views(lines@);
    let mut k: usize = 0;
    while k < ds.len()
        invariant
            k <= ds@.len(),
            dv == pairs_view(ds@),
            start == views(old(lines)@),
            views(lines@) == start + drawing_lines(dv).take(k as int),
        decreases ds.len() - k,
    {
        let mut l = chars_of("  ");
        push_chars(&mut l, &padded_exec(&ds[k].0, 25));
        push_str(&mut l, " Drawing      drawingID=");
        push_chars(&mut l, &ds[k].1);
        crate::skd_fragments::push_line(lines, l);
        assert(drawing_lines(dv).take(k + 1) =~= drawing_lines(dv).take(k as int).push(drawing_lines(dv)[k as int]));
        k = k + 1;
    }
    assert(drawing_lines(dv).take(k as int) =~= drawing_lines(dv));
}

fn kind_names_exec(areas: &Vec<InfoArea>, kind: &str) -> (r: Vec<Vec<char>>)
    ensures
        views(r@) == kind_names(areas_view(areas@), kind@),
{
    let ghost av = areas_view(areas@);
    let mut r: Vec<Vec<char>> = Vec::new();
    let mut k: usize = 0;
    assert(av.take(0) =~= Seq::<AreaSpec>::empty());
    assert(views(r@) =~= Seq::<Seq<char>>::empty());
    while k < areas.len()
        invariant
            k <= areas@.len(),
            av == areas_view(areas@),
            views(r@) == kind_names(av.take(k as int), kind@),
        decreases areas.len() - k,
    {
        assert(av.take(k + 1).drop_last() =~= av.take(k as int));
        if crate::text::eq_str(&areas[k].kind, kind) {
            crate::skd_fragments::push_line(&mut r, crate::text::to_vec(&areas[k].name));
        }
        k = k + 1;
    }
    assert(av.take(k as int) =~= av);
    r
}

fn push_intersections(lines: &mut Vec<Vec<char>>, areas: &Vec<InfoArea>)
    ensures
        views(final(lines)@) == views(old(lines)@) + intersection_lines(areas_view(areas@)),
{
    let rs = kind_names_exec(areas, "Rows");
    let cs = kind_names_exec(areas, "Columns");
    let ghost rv = views(rs@);
    let ghost cv = views(cs@);
    let ghost start = views(lines@);
    if rs.len() > 0 && cs.len() > 0 {
        crate::skd_fragments::push_line(lines, Vec::new());
        crate::skd_fragments::push_line(lines, chars_of("--- Intersections (use with GetArea) ---"));
        let ghost mid = views(lines@);
        let mut i: usize = 0;
        assert(rv.take(0) =~= Seq::<Seq<char>>::empty());
        assert(mid =~= mid + crossings(rv.take(0), cv));
        while i < rs.len()
            invariant
                i <= rs@.len(),
                rv == views(rs@),
                cv == views(cs@),
                views(lines@) == mid + crossings(rv.take(i as int), cv),
            decreases rs.len() - i,
        {
            let ghost at = views(lines@);
            let ghost f = |c: Seq<char>| "  "@ + rv[i as int] + "|"@ + c;
            let mut j: usize = 0;
            while j < cs.len()
                invariant
                    j <= cs@.len(),
                    i < rs@.len(),
                    rv == views(rs@),
                    cv == views(cs@),
                    f == (|c: Seq<char>| "  "@ + rv[i as int] + "|"@ + c),
                    views(lines@) == at + cv.take(j as int).map_values(f),
                decreases cs.len() - j,
            {
                let mut l = chars_of("  ");
                push_chars(&mut l, &rs[i]);
                push_str(&mut l, "|");
                push_chars(&mut l, &cs[j]);
                crate::skd_fragments::push_line(lines, l);
                assert(cv.take(j + 1).map_values(f) =~= cv.take(j as int).map_values(f).push(f(cv[j as int])));
                j = j + 1;
            }
            assert(cv.take(j as int) =~= cv);
            assert(rv.take(i + 1).drop_last() =~= rv.take(i as int));
            assert(views(lines@) =~= mid + crossings(rv.take(i + 1), cv));
            i = i + 1;
        }
        assert(rv.take(i as int) =~= rv);
        proof {
            reveal_strlit("");
        }
    }
    assert(views(lines@) =~= start + intersection_lines(areas_view(areas@)));
}

fn push_param_lines(lines: &mut Vec<Vec<char>>, label: &[char], f: &FoundLists, max_params: usize)
    ensures
        views(final(lines)@) == views(old(lines)@) + param_lines(label@, f.found(), max_params as nat),
{
    let ghost start = views(lines@);
    if f.params.len() > 0 {
        let mut l = chars_of("  ");
        push_chars(&mut l, label);
        push_str(&mut l, ": ");
        push_chars(&mut l, &crate::mxl::truncate_mxl_list(&f.params, max_params));
        crate::skd_fragments::push_line(lines, l);
        if f.details.len() > 0 {
            let mut d = chars_of("    detail: ");
            push_chars(&mut d, &crate::mxl::truncate_mxl_list(&f.details, max_params));
            crate::skd_fragments::push_line(lines, d);
        }
    }
    assert(views(lines@) =~= start + param_lines(label@, f.found(), max_params as nat));
}

fn quoted_exec(items: &Vec<Vec<char>>) -> (r: Vec<Vec<char>>)
    ensures
        views(r@) == quoted(views(items@)),
{
    let ghost iv = views(items@);
    let mut r: Vec<Vec<char>> = Vec::new();
    let mut k: usize = 0;
    while k < items.len()
        invariant
            k <= items@.len(),
            iv == views(items@),
            views(r@) == quoted(iv).take(k as int),
        decreases items.len() - k,
    {
        let mut q = chars_of("\"");
        push_chars(&mut q, &items[k]);
        push_str(&mut q, "\"");
        crate::skd_fragments::push_line(&mut r, q);
        assert(quoted(iv).take(k + 1) =~= quoted(iv).take(k as int).push(quoted(iv)[k as int]));
        k = k + 1;
    }
    assert(quoted(iv).take(k as int) =~= quoted(iv));
    r
}

fn push_text_lines(lines: &mut Vec<Vec<char>>, label: &[char], f: &FoundLists, max_params: usize)
    ensures
        views(final(lines)@) == views(old(lines)@) + text_lines_of(label@, f.found(), max_params as nat),
{
    let ghost start = views(lines@);
    if f.texts.len() > 0 || f.templates.len() > 0 {
        let mut l = chars_of("  ");
        push_chars(&mut l, label);
        push_str(&mut l, ":");
        crate::skd_fragments::push_line(lines, l);
        if f.texts.len() > 0 {
            let mut t = chars_of("    Text: ");
            push_chars(&mut t, &crate::mxl::truncate_mxl_list(&quoted_exec(&f.texts), max_params));
            crate::skd_fragments::push_line(lines, t);
        }
        if f.templates.len() > 0 {
            let mut t = chars_of("    Templates: ");
            push_chars(&mut t, &crate::mxl::truncate_mxl_list(&quoted_exec(&f.templates), max_params));
            crate::skd_fragments::push_line(lines, t);
        }
    }
    assert(views(lines@) =~= start + text_lines_of(label@, f.found(), max_params as nat));
}

fn any_params_exec(founds: &Vec<FoundLists>) -> (b: bool)
    ensures
        b == any_params(founds_view(founds@)),
{
    let ghost fv = founds_view(founds@);
    let mut k: usize = 0;
    while k < founds.len()
        invariant
            k <= founds@.len(),
            fv == founds_view(founds@),
            forall|j: int| 0 <= j < k ==> !(#[trigger] fv[j].params.len() > 0),
        decreases founds.len() - k,
    {
        if founds[k].params.len() > 0 {
            assert(fv[k as int].params.len() > 0);
            return true;
        }
        k = k + 1;
    }
    false
}

fn any_text_exec(founds: &Vec<FoundLists>) -> (b: bool)
    ensures
        b == any_text(founds_view(founds@)),
{
    let ghost fv = founds_view(founds@);
    let mut k: usize = 0;
    while k < founds.len()
        invariant
            k <= founds@.len(),
            fv == founds_view(founds@),
            forall|j: int| 0 <= j < k ==> !(#[trigger] fv[j].texts.len() > 0 || fv[j].templates.len() > 0),
        decreases founds.len() - k,
    {
        if founds[k].texts.len() > 0 || founds[k].templates.len() > 0 {
            assert(fv[k as int].texts.len() > 0 || fv[k as int].templates.len() > 0);
            return true;
        }
        k = k + 1;
    }
    false
}

fn push_params_section(
    lines: &mut Vec<Vec<char>>,
    areas: &Vec<InfoArea>,
    founds: &Vec<FoundLists>,
    outside: &FoundLists,
    max_params: usize,
)
    requires
        areas@.len() == founds@.len(),
    ensures
        views(final(lines)@) == views(old(lines)@) + params_section(
            areas_view(areas@),
            founds_view(founds@),
            outside.found(),
            max_params as nat,
        ),
{
    let ghost av = areas_view(areas@);
    let ghost fv = founds_view(founds@);
    let ghost start = views(lines@);
    if any_params_exec(founds) || outside.params.len() > 0 {
        crate::skd_fragments::push_line(lines, Vec::new());
        crate::skd_fragments::push_line(lines, chars_of("--- Parameters by area ---"));
        let ghost mid = views(lines@);
        let mut k: usize = 0;
        assert(av.take(0) =~= Seq::<AreaSpec>::empty());
        assert(mid =~= mid + areas_param_lines(av.take(0), fv.take(0), max_params as nat));
        while k < areas.len()
            invariant
                k <= areas@.len(),
                areas@.len() == founds@.len(),
                av == areas_view(areas@),
                fv == founds_view(founds@),
                views(lines@) == mid + areas_param_lines(av.take(k as int), fv.take(k as int), max_params as nat),
            decreases areas.len() - k,
        {
            assert(av.take(k + 1).drop_last() =~= av.take(k as int));
            assert(fv.take(k + 1).drop_last() =~= fv.take(k as int));
            push_param_lines(lines, &areas[k].name, &founds[k], max_params);
            assert(views(lines@) =~= mid + areas_param_lines(av.take(k + 1), fv.take(k + 1), max_params as nat));
            k = k + 1;
        }
        assert(av.take(k as int) =~= av);
        assert(fv.take(k as int) =~= fv);
        push_param_lines(lines, &chars_of("(outside areas)"), outside, max_params);
        proof {
            reveal_strlit("");
        }
    }
    assert(views(lines@) =~= start + params_section(av, fv, outside.found(), max_params as nat));
}

fn push_text_section(
    lines: &mut Vec<Vec<char>>,
    areas: &Vec<InfoArea>,
    founds: &Vec<FoundLists>,
    outside: &FoundLists,
    with_text: bool,
    max_params: usize,
)
    requires
        areas@.len() == founds@.len(),
    ensures
        views(final(lines)@) == views(old(lines)@) + text_section(
            areas_view(areas@),
            founds_view(founds@),
            outside.found(),
            with_text,
            max_params as nat,
        ),
{
    let ghost av = areas_view(areas@);
    let ghost fv = founds_view(founds@);
    let ghost start = views(lines@);
    if with_text && (any_text_exec(founds) || outside.texts.len() > 0 || outside.templates.len() > 0) {
        crate::skd_fragments::push_line(lines, Vec::new());
        crate::skd_fragments::push_line(lines, chars_of("--- Text content ---"));
        let ghost mid = views(lines@);
        let mut k: usize = 0;
        assert(av.take(0) =~= Seq::<AreaSpec>::empty());
        assert(mid =~= mid + areas_text_lines(av.take(0), fv.take(0), max_params as nat));
        while k < areas.len()
            invariant
                k <= areas@.len(),
                areas@.len() == founds@.len(),
                av == areas_view(areas@),
                fv == founds_view(founds@),
                views(lines@) == mid + areas_text_lines(av.take(k as int), fv.take(k as int), max_params as nat),
            decreases areas.len() - k,
        {
            assert(av.take(k + 1).drop_last() =~= av.take(k as int));
            assert(fv.take(k + 1).drop_last() =~= fv.take(k as int));
            push_text_lines(lines, &areas[k].name, &founds[k], max_params);
            assert(views(lines@) =~= mid + areas_text_lines(av.take(k + 1), fv.take(k + 1), max_params as nat));
            k = k + 1;
        }
        assert(av.take(k as int) =~= av);
        assert(fv.take(k as int) =~= fv);
        let ghost before_out = views(lines@);
        push_text_lines(lines, &chars_of("(outside areas)"), outside, max_params);
        proof {
            reveal_strlit("");
            reveal_strlit("  ");
            reveal_strlit(":");
            reveal_strlit("(outside areas)");
            reveal_strlit("  (outside areas):");
            assert("  "@ + "(outside areas)"@ + ":"@ =~= "  (outside areas):"@);
        }
    }
    assert(views(lines@) =~= start + text_section(av, fv, outside.found(), with_text, max_params as nat));
}

fn info_height_exec(root: &XmlElement) -> (r: i128)
    ensures
        r as int == info_height(root@),
        i64::MIN <= r <= u64::MAX,
{
    let t = crate::xml::child_text_of(root, "height", None);
    match crate::numbers::parse_i64(&t) {
        Some(v) => v as i128,
        None => {
            let n = crate::xml::children_with(root, "rowsItem", None).len();
            n as i128
        },
    }
}

#[verifier::rlimit(80)]
#[verifier::spinoff_prover]
fn info_lines_exec(root: &XmlElement, name: &[char], support: &[char], with_text: bool, max_params: usize) -> (r: Vec<Vec<char>>)
    ensures
        views(r@) == info_lines(root@, name@, support@, with_text, max_params as nat),
{
    let (sets, default_cols) = read_info_column_sets(root);
    let height = info_height_exec(root);
    let rows = read_indexed_rows(root);
    let (named, drawings) = read_named(root);
    let areas = sort_areas(named);
    let founds = area_founds(&areas, &rows, height, with_text);
    let sorted = sort_rows(&rows);
    let outside = outside_found_exec(&sorted, &areas, with_text);
    let ghost items = children_named(root@, "namedItem"@, None);
    let ghost rv = indexed_rows(children_named(root@, "rowsItem"@, None));
    let ghost av = sorted_areas(named_areas(items));
    let ghost fv = av.map_values(|a: AreaSpec| area_found(a, rv, info_height(root@), with_text));
    assert(areas_view(areas@) == av);
    assert(founds_view(founds@) == fv);
    assert(outside.found() == outside_found(sorted_rows(rv), av, with_text));
    let mut lines: Vec<Vec<char>> = Vec::new();
    push_head(&mut lines, name, support, height, &sets, default_cols);
    crate::skd_fragments::push_line(&mut lines, Vec::new());
    crate::skd_fragments::push_line(&mut lines, chars_of("--- Named areas ---"));
    assert(founds@.len() == areas@.len()) by {
        assert(founds_view(founds@).len() == areas_view(areas@).len());
    }
    push_area_lines(&mut lines, &areas, &founds, &sets);
    push_drawing_lines(&mut lines, &drawings);
    push_intersections(&mut lines, &areas);
    push_params_section(&mut lines, &areas, &founds, &outside, max_params);
    push_text_section(&mut lines, &areas, &founds, &outside, with_text, max_params);
    crate::skd_fragments::push_line(&mut lines, Vec::new());
    crate::skd_fragments::push_line(&mut lines, chars_of("--- Stats ---"));
    let mut m = chars_of("  Merges: ");
    push_chars(&mut m, &crate::numbers::usize_text(crate::xml::children_with(root, "merge", None).len()));
    crate::skd_fragments::push_line(&mut lines, m);
    let mut d = chars_of("  Drawings: ");
    push_chars(&mut d, &crate::numbers::usize_text(crate::xml::children_with(root, "drawing", None).len()));
    crate::skd_fragments::push_line(&mut lines, d);
    proof {
        reveal_strlit("");
    }
    assert(views(lines@) =~= info_lines(root@, name@, support@, with_text, max_params as nat));
    lines
}

fn info_page_exec(lines: &Vec<Vec<char>>, offset: i64, limit: i64) -> (r: Vec<char>)
    ensures
        r@ == info_page(views(lines@), offset as int, limit as int),
{
    let ghost all = views(lines@);
    let total = lines.len();
    if offset > 0 && (offset as i128) >= (total as i128) {
        let mut m = chars_of("[INFO] Offset ");
        push_chars(&mut m, &crate::numbers::i128_text(offset as i128));
        push_str(&mut m, " exceeds total lines (");
        push_chars(&mut m, &crate::numbers::i128_text(total as i128));
        push_str(&mut m, "). Nothing to show.\n");
        return m;
    }
    let start: usize = if offset > 0 { offset as usize } else { 0 };
    let ghost out = if offset > 0 { all.skip(offset as int) } else { all };
    let truncate = limit >= 0 && ((total - start) as i128) > (limit as i128);
    let end: usize = if truncate { start + limit as usize } else { total };
    let mut shown: Vec<Vec<char>> = Vec::new();
    let mut i: usize = start;
    while i < end
        invariant
            start <= i <= end <= total,
            total == lines@.len(),
            all == views(lines@),
            views(shown@) == all.subrange(start as int, i as int),
        decreases end - i,
    {
        crate::skd_fragments::push_line(&mut shown, crate::text::to_vec(&lines[i]));
        assert(all.subrange(start as int, i + 1) =~= all.subrange(start as int, i as int).push(all[i as int]));
        i = i + 1;
    }
    let mut r = crate::text::join_str(&shown, "\n");
    if truncate {
        push_str(&mut r, "\n\n[TRUNCATED] Shown ");
        push_chars(&mut r, &crate::numbers::i128_text(limit as i128));
        push_str(&mut r, " of ");
        push_chars(&mut r, &crate::numbers::i128_text(total as i128));
        push_str(&mut r, " lines. Use -Offset ");
        let o: i128 = offset as i128;
        push_chars(&mut r, &crate::numbers::i128_text(o + limit as i128));
        push_str(&mut r, " to continue.\n");
        assert(all.subrange(start as int, end as int) =~= out.take(limit as int));
    } else {
        push_str(&mut r, "\n");
        assert(all.subrange(start as int, end as int) =~= out);
    }
    r
}

/// The overview of a parsed template as printed: a page of the lines of
/// `info_lines` (see `info_page`). `name` is the template's name, `support`
/// what its support line says.
pub fn mxl_info_tree(
    root: &XmlElement,
    name: &[char],
    support: &[char],
    with_text: bool,
    max_params: usize,
    offset: i64,
    limit: i64,
) -> (r: Vec<char>)
    ensures
        r@ == info_page(info_lines(root@, name@, support@, with_text, max_params as nat), offset as int, limit as int),
{
    let lines = info_lines_exec(root, name, support, with_text, max_params);
    info_page_exec(&lines, offset, limit)
}

/// The overview of a template given as text: the parser's message for a text
/// that is not XML, else the printed page (see `mxl_info_tree`).
pub fn mxl_info(
    text: &[char],
    name: &[char],
    support: &[char],
    with_text: bool,
    max_params: usize,
    offset: i64,
    limit: i64,
) -> (r: Result<Vec<char>, Vec<char>>)
    ensures
        match mxl_info_result(text@, name@, support@, with_text, max_params as nat, offset as int, limit as int) {
            Ok(t) => r matches Ok(v) && v@ == t,
            Err(e) => r matches Err(m) && m@ == e,
        },
{
    let body = crate::xml::strip_boms(text);
    let s = crate::external::string_of(&body);
    match crate::xml::xml_document(s.as_str()) {
        Ok(root) => Ok(mxl_info_tree(&root, name, support, with_text, max_params, offset, limit)),
        Err(e) => Err(e),
    }
}

} // verus!
