//! The check of a spreadsheet template: its size, its palettes and the
//! references into them, its areas, merges and drawings.
use vstd::prelude::*;
use crate::findings::{CheckReport, Finding, failures, finding_lines, passed, totals_line, warnings};
use crate::numbers::{int_text, nat_text, parse_int};
use crate::skd_apply::without_boms;
use crate::text::{chars_of, contains, join, push_chars, push_str, views};
use crate::xml::{XmlElement, XmlNode, attribute_by_local_name, child_named, child_text, children_named, xml_tree};

verus! {

/// The namespace of spreadsheet documents.
pub open spec fn ns_d() -> Option<Seq<char>> {
    Some("http://v8.1c.ru/8.2/data/spreadsheet"@)
}

/// The number a child holds, where it is there and holds one.
pub open spec fn int_of(n: XmlNode, name: Seq<char>) -> Option<int> {
    match child_named(n, name, ns_d()) {
        Some(c) => match c.text {
            Some(t) => parse_int(t),
            None => None,
        },
        None => None,
    }
}

pub open spec fn int_or(n: XmlNode, name: Seq<char>, d: int) -> int {
    match int_of(n, name) {
        Some(v) => v,
        None => d,
    }
}

pub open spec fn max(a: int, b: int) -> int {
    if a >= b {
        a
    } else {
        b
    }
}

/// The column sets of a template with an id, and their sizes.
pub open spec fn column_sets(cols: Seq<XmlNode>) -> Seq<(Seq<char>, int)>
    decreases cols.len(),
{
    if cols.len() == 0 {
        Seq::empty()
    } else {
        let c = cols.last();
        let id = child_text(c, "id"@, ns_d());
        if id.len() == 0 {
            column_sets(cols.drop_last())
        } else {
            column_sets(cols.drop_last()).push((id, int_or(c, "size"@, 0)))
        }
    }
}

/// The size of the last column set without an id, or 0.
pub open spec fn default_columns(cols: Seq<XmlNode>) -> int
    decreases cols.len(),
{
    if cols.len() == 0 {
        0
    } else if child_text(cols.last(), "id"@, ns_d()).len() == 0 {
        int_or(cols.last(), "size"@, 0)
    } else {
        default_columns(cols.drop_last())
    }
}

/// The size of the first column set with `id`, if there is one.
pub open spec fn set_size(sets: Seq<(Seq<char>, int)>, id: Seq<char>, i: int) -> Option<int>
    decreases sets.len() - i,
{
    if i < 0 || i >= sets.len() {
        None
    } else if sets[i].0 == id {
        Some(sets[i].1)
    } else {
        set_size(sets, id, i + 1)
    }
}

/// The largest row index given, or -1.
pub open spec fn max_row_index(rows: Seq<XmlNode>) -> int
    decreases rows.len(),
{
    if rows.len() == 0 {
        -1
    } else {
        match int_of(rows.last(), "index"@) {
            Some(v) => max(max_row_index(rows.drop_last()), v),
            None => max_row_index(rows.drop_last()),
        }
    }
}

/// The largest value of `name` over elements, or 0.
pub open spec fn max_ref(ns: Seq<XmlNode>, name: Seq<char>) -> int
    decreases ns.len(),
{
    if ns.len() == 0 {
        0
    } else {
        match int_of(ns.last(), name) {
            Some(v) => max(max_ref(ns.drop_last(), name), v),
            None => max_ref(ns.drop_last(), name),
        }
    }
}

/// The largest line index the formats refer to, or 0.
pub open spec fn max_line_ref(formats: Seq<XmlNode>) -> int {
    max(
        max(max(max(max_ref(formats, "leftBorder"@), max_ref(formats, "topBorder"@)), max_ref(formats, "rightBorder"@)), max_ref(formats, "bottomBorder"@)),
        max_ref(formats, "drawingBorder"@),
    )
}

/// Whether enough errors were found to stop.
pub open spec fn stopped(fs: Seq<Finding>, max_errors: nat) -> bool {
    failures(fs) > 0 && failures(fs) >= max_errors
}

/// The first chars of an id.
pub open spec fn prefix8(t: Seq<char>) -> Seq<char> {
    if t.len() > 8 {
        t.take(8)
    } else {
        t
    }
}

/// What the scan of rows keeps: the findings, the current row number, and the
/// largest cell format, row format and default-set column seen.
pub struct RowScan {
    pub fs: Seq<Finding>,
    pub row: int,
    pub max_cell: int,
    pub max_row: int,
    pub max_col: int,
}

/// The findings for the cell groups of a row from the `i`-th on.
pub open spec fn cells_findings(
    row: XmlNode,
    groups: Seq<XmlNode>,
    row_index: int,
    in_default_set: bool,
    col_count: int,
    format_count: int,
    st: RowScan,
) -> RowScan
    decreases groups.len(),
{
    if groups.len() == 0 {
        st
    } else {
        let before = cells_findings(row, groups.drop_last(), row_index, in_default_set, col_count, format_count, st);
        let g = groups.last();
        let a = match int_of(g, "i"@) {
            Some(col) => RowScan {
                max_col: if in_default_set && col > before.max_col {
                    col
                } else {
                    before.max_col
                },
                fs: if col_count > 0 && col >= col_count {
                    before.fs.push(
                        Finding::Failure(
                            "Row "@ + int_text(row_index) + ": column index "@ + int_text(col) + " >= column count ("@
                                + int_text(col_count) + ")"@,
                        ),
                    )
                } else {
                    before.fs
                },
                ..before
            },
            None => before,
        };
        match child_named(g, "c"@, ns_d()) {
            Some(cell) => match int_of(cell, "f"@) {
                Some(v) => RowScan {
                    max_cell: max(a.max_cell, v),
                    fs: if v > format_count {
                        a.fs.push(
                            Finding::Failure(
                                "Row "@ + int_text(row_index) + ": cell format index "@ + int_text(v)
                                    + " > format palette size ("@ + int_text(format_count) + ")"@,
                            ),
                        )
                    } else {
                        a.fs
                    },
                    ..a
                },
                None => a,
            },
            None => a,
        }
    }
}

/// One row of the scan.
pub open spec fn row_step(
    st: RowScan,
    item: XmlNode,
    sets: Seq<(Seq<char>, int)>,
    default_cols: int,
    format_count: int,
) -> RowScan {
    let row_index = match int_of(item, "index"@) {
        Some(v) => v,
        None => st.row,
    };
    match child_named(item, "row"@, ns_d()) {
        None => RowScan { row: row_index + 1, ..st },
        Some(row) => {
            let a = match int_of(row, "formatIndex"@) {
                Some(v) => RowScan {
                    max_row: max(st.max_row, v),
                    fs: if v > format_count {
                        st.fs.push(
                            Finding::Failure(
                                "Row "@ + int_text(row_index) + ": formatIndex="@ + int_text(v) + " > format palette size ("@
                                    + int_text(format_count) + ")"@,
                            ),
                        )
                    } else {
                        st.fs
                    },
                    ..st
                },
                None => st,
            };
            let id = child_text(row, "columnsID"@, ns_d());
            let b = if id.len() > 0 && set_size(sets, id, 0) is None {
                RowScan {
                    fs: a.fs.push(
                        Finding::Failure(
                            "Row "@ + int_text(row_index) + ": columnsID '"@ + prefix8(id) + "...' not found in column sets"@,
                        ),
                    ),
                    ..a
                }
            } else {
                a
            };
            let col_count = if id.len() > 0 {
                match set_size(sets, id, 0) {
                    Some(s) => s,
                    None => default_cols,
                }
            } else {
                default_cols
            };
            let c = cells_findings(
                row,
                children_named(row, "c"@, ns_d()),
                row_index,
                id.len() == 0,
                col_count,
                format_count,
                b,
            );
            RowScan { row: row_index + 1, ..c }
        },
    }
}

/// The scan of the rows from the `i`-th on, stopping once enough errors were
/// found.
pub open spec fn rows_scan(
    st: RowScan,
    rows: Seq<XmlNode>,
    i: int,
    sets: Seq<(Seq<char>, int)>,
    default_cols: int,
    format_count: int,
    max_errors: nat,
) -> RowScan
    decreases rows.len() - i,
{
    if i < 0 || i >= rows.len() || stopped(st.fs, max_errors) {
        st
    } else {
        rows_scan(row_step(st, rows[i], sets, default_cols, format_count), rows, i + 1, sets, default_cols, format_count, max_errors)
    }
}

/// The errors for the column formats of one column set.
pub open spec fn column_items_findings(items: Seq<XmlNode>, format_count: int) -> Seq<Finding>
    decreases items.len(),
{
    if items.len() == 0 {
        Seq::empty()
    } else {
        let item = items.last();
        column_items_findings(items.drop_last(), format_count) + match child_named(item, "column"@, ns_d()) {
            Some(column) => match int_of(column, "formatIndex"@) {
                Some(v) => if v > format_count {
                    let idx = child_text(item, "index"@, ns_d());
                    seq![
                        Finding::Failure(
                            "Column "@ + (if idx.len() == 0 {
                                "?"@
                            } else {
                                idx
                            }) + ": formatIndex="@ + int_text(v) + " > format palette size ("@ + int_text(format_count) + ")"@,
                        ),
                    ]
                } else {
                    Seq::empty()
                },
                None => Seq::empty(),
            },
            None => Seq::empty(),
        }
    }
}

/// The errors for one named area.
pub open spec fn named_findings(named: XmlNode, height: int, sets: Seq<(Seq<char>, int)>) -> Seq<Finding> {
    let name = child_text(named, "name"@, ns_d());
    match attribute_by_local_name(named, "type"@) {
        Some(t) if contains(t, "NamedItemCells"@) => match child_named(named, "area"@, ns_d()) {
            Some(area) => {
                let b = int_or(area, "beginRow"@, 0);
                let e = int_or(area, "endRow"@, 0);
                let id = child_text(area, "columnsID"@, ns_d());
                (if b != -1 && b >= height {
                    seq![Finding::Failure("Area '"@ + name + "': beginRow="@ + int_text(b) + " >= height="@ + int_text(height))]
                } else {
                    Seq::empty()
                }) + (if e != -1 && e >= height {
                    seq![Finding::Failure("Area '"@ + name + "': endRow="@ + int_text(e) + " >= height="@ + int_text(height))]
                } else {
                    Seq::empty()
                }) + if id.len() > 0 && set_size(sets, id, 0) is None {
                    seq![Finding::Failure("Area '"@ + name + "': columnsID '"@ + prefix8(id) + "...' not found"@)]
                } else {
                    Seq::empty()
                }
            },
            None => Seq::empty(),
        },
        _ => Seq::empty(),
    }
}

/// The errors for one merge.
pub open spec fn merge_findings(merge: XmlNode, height: int, sets: Seq<(Seq<char>, int)>) -> Seq<Finding> {
    let r = int_or(merge, "r"@, 0);
    let c = int_or(merge, "c"@, 0);
    let id = child_text(merge, "columnsID"@, ns_d());
    (if r != -1 && r >= height {
        seq![
            Finding::Failure(
                "Merge at row="@ + int_text(r) + ", col="@ + int_text(c) + ": row >= height ("@ + int_text(height) + ")"@,
            ),
        ]
    } else {
        Seq::empty()
    }) + (match int_of(merge, "h"@) {
        Some(h) => if r != -1 && r + h >= height {
            seq![
                Finding::Failure(
                    "Merge at row="@ + int_text(r) + ": extends to row "@ + int_text(r + h) + " >= height ("@
                        + int_text(height) + ")"@,
                ),
            ]
        } else {
            Seq::empty()
        },
        None => Seq::empty(),
    }) + if id.len() > 0 && set_size(sets, id, 0) is None {
        seq![
            Finding::Failure(
                "Merge at row="@ + int_text(r) + ", col="@ + int_text(c) + ": columnsID '"@ + prefix8(id) + "...' not found"@,
            ),
        ]
    } else {
        Seq::empty()
    }
}

/// The error for one drawing.
pub open spec fn drawing_findings(drawing: XmlNode, pictures: int) -> Seq<Finding> {
    match int_of(drawing, "pictureIndex"@) {
        Some(p) => if p > pictures {
            let id = child_text(drawing, "id"@, ns_d());
            seq![
                Finding::Failure(
                    "Drawing id="@ + (if id.len() == 0 {
                        "?"@
                    } else {
                        id
                    }) + ": pictureIndex="@ + int_text(p) + " > picture count ("@ + int_text(pictures) + ")"@,
                ),
            ]
        } else {
            Seq::empty()
        },
        None => Seq::empty(),
    }
}

/// Which part of a template a later check looks at.
pub enum Part {
    Columns,
    Named,
    Merge,
    Drawing,
}

/// The findings of one element of a later check.
pub open spec fn part_findings(
    part: Part,
    n: XmlNode,
    format_count: int,
    height: int,
    sets: Seq<(Seq<char>, int)>,
    pictures: int,
) -> Seq<Finding> {
    match part {
        Part::Columns => column_items_findings(children_named(n, "columnsItem"@, ns_d()), format_count),
        Part::Named => named_findings(n, height, sets),
        Part::Merge => merge_findings(n, height, sets),
        Part::Drawing => drawing_findings(n, pictures),
    }
}

/// The findings of a later check over elements from the `i`-th on, stopping
/// once enough errors were found.
pub open spec fn parts_scan(
    fs: Seq<Finding>,
    part: Part,
    ns: Seq<XmlNode>,
    i: int,
    format_count: int,
    height: int,
    sets: Seq<(Seq<char>, int)>,
    pictures: int,
    max_errors: nat,
) -> Seq<Finding>
    decreases ns.len() - i,
{
    if i < 0 || i >= ns.len() || stopped(fs, max_errors) {
        fs
    } else {
        parts_scan(
            fs + part_findings(part, ns[i], format_count, height, sets, pictures),
            part,
            ns,
            i + 1,
            format_count,
            height,
            sets,
            pictures,
            max_errors,
        )
    }
}

/// The findings on the palettes: the font and line indices the formats refer to.
pub open spec fn palette_findings(root: XmlNode) -> Seq<Finding> {
    let fonts = children_named(root, "font"@, None).len() as int;
    let lines = children_named(root, "line"@, ns_d()).len() as int;
    let formats = children_named(root, "format"@, None);
    let font_ref = max_ref(formats, "font"@);
    let line_ref = max_line_ref(formats);
    (if fonts > 0 {
        if font_ref < fonts {
            seq![Finding::Passed("Font refs: max="@ + int_text(font_ref) + ", palette size="@ + int_text(fonts))]
        } else {
            seq![Finding::Failure("Font index "@ + int_text(font_ref) + " exceeds palette size ("@ + int_text(fonts) + ")"@)]
        }
    } else if font_ref > 0 {
        seq![Finding::Failure("Font index "@ + int_text(font_ref) + " referenced but no fonts defined"@)]
    } else {
        Seq::empty()
    }) + if lines > 0 {
        if line_ref < lines {
            seq![Finding::Passed("Line/border refs: max="@ + int_text(line_ref) + ", palette size="@ + int_text(lines))]
        } else {
            seq![Finding::Failure("Line index "@ + int_text(line_ref) + " exceeds palette size ("@ + int_text(lines) + ")"@)]
        }
    } else if line_ref > 0 {
        seq![Finding::Failure("Line index "@ + int_text(line_ref) + " referenced but no lines defined"@)]
    } else {
        Seq::empty()
    }
}

/// The findings on the height of a template.
pub open spec fn height_findings(root: XmlNode) -> Seq<Finding> {
    let rows = children_named(root, "rowsItem"@, ns_d());
    let height = int_or(root, "height"@, 0);
    let expected = max_row_index(rows) + 1;
    seq![
        if height >= expected {
            Finding::Passed(
                "height ("@ + int_text(height) + ") >= max row index + 1 ("@ + int_text(expected) + "), rowsItem count="@
                    + nat_text(rows.len()),
            )
        } else {
            Finding::Failure(
                "height="@ + int_text(height) + " but max row index="@ + int_text(max_row_index(rows))
                    + " (need at least "@ + int_text(expected) + ")"@,
            )
        },
    ] + match int_of(root, "vgRows"@) {
        Some(vg) => if vg <= height {
            seq![Finding::Passed("vgRows ("@ + int_text(vg) + ") <= height ("@ + int_text(height) + ")"@)]
        } else {
            seq![Finding::Warning("vgRows ("@ + int_text(vg) + ") > height ("@ + int_text(height) + ")"@)]
        },
        None => Seq::empty(),
    }
}

/// The findings of the checks before the rows: the header, the size and row
/// count, the palettes.
pub open spec fn head_findings(root: XmlNode, name: Seq<char>) -> Seq<Finding> {
    seq![Finding::Line("=== Validation: Template."@ + name + " ==="@), Finding::Line(Seq::empty())]
        + height_findings(root) + palette_findings(root)
}

/// All findings of the check of a template's root element.
pub open spec fn template_findings(root: XmlNode, name: Seq<char>, max_errors: nat) -> Seq<Finding> {
    let cols = children_named(root, "columns"@, ns_d());
    let sets = column_sets(cols);
    let default_cols = default_columns(cols);
    let format_count = children_named(root, "format"@, None).len() as int;
    let pictures = children_named(root, "picture"@, ns_d()).len() as int;
    let height = int_or(root, "height"@, 0);
    let head = head_findings(root, name);
    let scan = rows_scan(
        RowScan { fs: head, row: 0, max_cell: 0, max_row: 0, max_col: 0 },
        children_named(root, "rowsItem"@, ns_d()),
        0,
        sets,
        default_cols,
        format_count,
        max_errors,
    );
    let f1 = scan.fs + if !stopped(scan.fs, max_errors) && scan.max_cell <= format_count && scan.max_row <= format_count {
        seq![
            Finding::Passed(
                "Format refs: max cell="@ + int_text(scan.max_cell) + ", max row="@ + int_text(scan.max_row)
                    + ", palette size="@ + int_text(format_count),
            ),
        ]
    } else {
        Seq::empty()
    };
    let f2 = parts_scan(f1, Part::Columns, cols, 0, format_count, height, sets, pictures, max_errors);
    let f3 = f2 + if !stopped(f2, max_errors) {
        seq![
            Finding::Passed(
                "Column indices: max in default set="@ + int_text(scan.max_col) + ", default column count="@
                    + int_text(default_cols),
            ),
        ]
    } else {
        Seq::empty()
    };
    let f4 = parts_scan(f3, Part::Named, children_named(root, "namedItem"@, ns_d()), 0, format_count, height, sets, pictures, max_errors);
    let f5 = parts_scan(f4, Part::Merge, children_named(root, "merge"@, ns_d()), 0, format_count, height, sets, pictures, max_errors);
    parts_scan(f5, Part::Drawing, children_named(root, "drawing"@, ns_d()), 0, format_count, height, sets, pictures, max_errors)
}

/// The result of checking a parsed template: whether no error was found, and
/// the report. `name` is the template's name in the report.
pub open spec fn template_report(root: XmlNode, name: Seq<char>, max_errors: nat, detailed: bool) -> (bool, Seq<char>) {
    let fs = template_findings(root, name, max_errors);
    (
        failures(fs) == 0,
        if failures(fs) == 0 && warnings(fs) == 0 && !detailed {
            "=== Validation OK: Template."@ + name + " ("@ + nat_text(passed(fs) + failures(fs) + warnings(fs))
                + " checks) ===\n"@
        } else {
            join(finding_lines(fs, detailed) + seq![Seq::empty(), totals_line(fs)], "\n"@) + "\n"@
        },
    )
}

/// The result of checking a template: the parser's error for a text that is
/// not XML, else the result of checking its root element.
pub open spec fn template_check(text: Seq<char>, name: Seq<char>, max_errors: nat, detailed: bool) -> Result<(bool, Seq<char>), Seq<char>> {
    match xml_tree(without_boms(text)) {
        Err(e) => Err(e),
        Ok(root) => Ok(template_report(root, name, max_errors, detailed)),
    }
}

fn int_child(n: &XmlElement, name: &str) -> (r: Option<i64>)
    ensures
        crate::numbers::opt_i64(r) == int_of(n@, name@),
{
    match crate::xml::child(n, name, Some("http://v8.1c.ru/8.2/data/spreadsheet")) {
        Some(c) => match &c.text {
            Some(t) => crate::numbers::parse_i64(t),
            None => None,
        },
        None => None,
    }
}

fn int_child_or(n: &XmlElement, name: &str, d: i64) -> (r: i64)
    ensures
        r == int_or(n@, name@, d as int),
{
    match int_child(n, name) {
        Some(v) => v,
        None => d,
    }
}

fn text_child(n: &XmlElement, name: &str) -> (r: Vec<char>)
    ensures
        r@ == child_text(n@, name@, ns_d()),
{
    crate::xml::child_text_of(n, name, Some("http://v8.1c.ru/8.2/data/spreadsheet"))
}

/// The column sets of a template, and the size of its default one.
fn read_column_sets(cols: &Vec<&XmlElement>, spec_cols: Ghost<Seq<XmlNode>>) -> (r: (Vec<(Vec<char>, i64)>, i64))
    requires
        cols@.len() == spec_cols@.len(),
        forall|k: int| 0 <= k < cols@.len() ==> (#[trigger] cols@[k])@ == spec_cols@[k],
    ensures
        r.0@.map_values(|p: (Vec<char>, i64)| (p.0@, p.1 as int)) == column_sets(spec_cols@),
        r.1 == default_columns(spec_cols@),
{
    let ghost sc = spec_cols@;
    let mut sets: Vec<(Vec<char>, i64)> = Vec::new();
    let mut default: i64 = 0;
    let mut i: usize = 0;
    assert(sc.take(0) =~= Seq::<XmlNode>::empty());
    assert(sets@.map_values(|p: (Vec<char>, i64)| (p.0@, p.1 as int)) =~= Seq::<(Seq<char>, int)>::empty());
    while i < cols.len()
        invariant
            i <= cols@.len(),
            sc == spec_cols@,
            cols@.len() == sc.len(),
            forall|k: int| 0 <= k < cols@.len() ==> (#[trigger] cols@[k])@ == sc[k],
            sets@.map_values(|p: (Vec<char>, i64)| (p.0@, p.1 as int)) == column_sets(sc.take(i as int)),
            default == default_columns(sc.take(i as int)),
        decreases cols.len() - i,
    {
        let c = cols[i];
        assert(sc.take(i + 1).drop_last() =~= sc.take(i as int));
        assert(sc.take(i + 1).last() == c@);
        let size = int_child_or(c, "size", 0);
        let id = text_child(c, "id");
        if id.len() == 0 {
            default = size;
        } else {
            let ghost before = sets@;
            sets.push((id, size));
            assert(sets@.map_values(|p: (Vec<char>, i64)| (p.0@, p.1 as int)) =~= before.map_values(
                |p: (Vec<char>, i64)| (p.0@, p.1 as int),
            ).push((id@, size as int)));
        }
        i = i + 1;
    }
    assert(sc.take(i as int) =~= sc);
    (sets, default)
}

fn find_set(sets: &Vec<(Vec<char>, i64)>, id: &[char]) -> (r: Option<i64>)
    ensures
        match set_size(sets@.map_values(|p: (Vec<char>, i64)| (p.0@, p.1 as int)), id@, 0) {
            Some(s) => r == Some(s as i64) && r.unwrap() as int == s,
            None => r is None,
        },
{
    let ghost m = sets@.map_values(|p: (Vec<char>, i64)| (p.0@, p.1 as int));
    let mut i: usize = 0;
    while i < sets.len()
        invariant
            i <= sets@.len(),
            m == sets@.map_values(|p: (Vec<char>, i64)| (p.0@, p.1 as int)),
            set_size(m, id@, 0) == set_size(m, id@, i as int),
        decreases sets.len() - i,
    {
        if crate::text::eq_chars(&sets[i].0, id) {
            return Some(sets[i].1);
        }
        i = i + 1;
    }
    None
}

fn max_row_index_exec(rows: &Vec<&XmlElement>, spec_rows: Ghost<Seq<XmlNode>>) -> (r: i64)
    requires
        rows@.len() == spec_rows@.len(),
        forall|k: int| 0 <= k < rows@.len() ==> (#[trigger] rows@[k])@ == spec_rows@[k],
    ensures
        r == max_row_index(spec_rows@),
{
    let ghost sr = spec_rows@;
    let mut m: i64 = -1;
    let mut i: usize = 0;
    assert(sr.take(0) =~= Seq::<XmlNode>::empty());
    while i < rows.len()
        invariant
            i <= rows@.len(),
            sr == spec_rows@,
            rows@.len() == sr.len(),
            forall|k: int| 0 <= k < rows@.len() ==> (#[trigger] rows@[k])@ == sr[k],
            m == max_row_index(sr.take(i as int)),
        decreases rows.len() - i,
    {
        assert(sr.take(i + 1).drop_last() =~= sr.take(i as int));
        assert(sr.take(i + 1).last() == rows@[i as int]@);
        match int_child(rows[i], "index") {
            Some(v) => {
                if v > m {
                    m = v;
                }
            },
            None => {},
        }
        i = i + 1;
    }
    assert(sr.take(i as int) =~= sr);
    m
}

fn max_ref_exec(ns: &Vec<&XmlElement>, spec_ns: Ghost<Seq<XmlNode>>, name: &str) -> (r: i64)
    requires
        ns@.len() == spec_ns@.len(),
        forall|k: int| 0 <= k < ns@.len() ==> (#[trigger] ns@[k])@ == spec_ns@[k],
    ensures
        r == max_ref(spec_ns@, name@),
{
    let ghost sn = spec_ns@;
    let mut m: i64 = 0;
    let mut i: usize = 0;
    assert(sn.take(0) =~= Seq::<XmlNode>::empty());
    while i < ns.len()
        invariant
            i <= ns@.len(),
            sn == spec_ns@,
            ns@.len() == sn.len(),
            forall|k: int| 0 <= k < ns@.len() ==> (#[trigger] ns@[k])@ == sn[k],
            m == max_ref(sn.take(i as int), name@),
        decreases ns.len() - i,
    {
        assert(sn.take(i + 1).drop_last() =~= sn.take(i as int));
        assert(sn.take(i + 1).last() == ns@[i as int]@);
        match int_child(ns[i], name) {
            Some(v) => {
                if v > m {
                    m = v;
                }
            },
            None => {},
        }
        i = i + 1;
    }
    assert(sn.take(i as int) =~= sn);
    m
}

fn num(n: i128) -> (r: Vec<char>)
    ensures
        r@ == int_text(n as int),
{
    crate::numbers::i128_text(n)
}

fn msg2(a: &str, x: i128, b: &str) -> (r: Vec<char>)
    ensures
        r@ == a@ + int_text(x as int) + b@,
{
    let mut r = chars_of(a);
    push_chars(&mut r, &num(x));
    push_str(&mut r, b);
    r
}

fn msg3(a: &str, x: i128, b: &str, y: i128, c: &str) -> (r: Vec<char>)
    ensures
        r@ == a@ + int_text(x as int) + b@ + int_text(y as int) + c@,
{
    let mut r = msg2(a, x, b);
    push_chars(&mut r, &num(y));
    push_str(&mut r, c);
    r
}

#[verifier::rlimit(40)]
fn check_height(report: &mut CheckReport, root: &XmlElement)
    requires
        old(report).wf(),
        passed(old(report).findings@) <= 4,
    ensures
        final(report).wf(),
        final(report).detailed == old(report).detailed,
        final(report).findings@ == old(report).findings@ + height_findings(root@),
        passed(final(report).findings@) <= passed(old(report).findings@) + 2,
{
    let rows = crate::xml::children_with(root, "rowsItem", Some("http://v8.1c.ru/8.2/data/spreadsheet"));
    let height = int_child_or(root, "height", 0);
    let max_idx = max_row_index_exec(&rows, Ghost(children_named(root@, "rowsItem"@, ns_d())));
    let expected: i128 = max_idx as i128 + 1;
    if height as i128 >= expected {
        let mut m = msg3("height (", height as i128, ") >= max row index + 1 (", expected, "), rowsItem count=");
        push_chars(&mut m, &crate::numbers::usize_text(rows.len()));
        crate::findings::pass_checked(report, &m);
    } else {
        let mut m = msg3("height=", height as i128, " but max row index=", max_idx as i128, " (need at least ");
        push_chars(&mut m, &num(expected));
        push_str(&mut m, ")");
        crate::findings::fail_checked(report, &m);
    }
    match int_child(root, "vgRows") {
        Some(vg) => {
            if vg <= height {
                crate::findings::pass_checked(report, &msg3("vgRows (", vg as i128, ") <= height (", height as i128, ")"));
            } else {
                crate::findings::warn_checked(report, &msg3("vgRows (", vg as i128, ") > height (", height as i128, ")"));
            }
        },
        None => {},
    }
    assert(report.findings@ =~= old(report).findings@ + height_findings(root@));
}

#[verifier::rlimit(40)]
fn check_palettes(report: &mut CheckReport, root: &XmlElement)
    requires
        old(report).wf(),
        passed(old(report).findings@) <= 8,
    ensures
        final(report).wf(),
        final(report).detailed == old(report).detailed,
        final(report).findings@ == old(report).findings@ + palette_findings(root@),
        passed(final(report).findings@) <= passed(old(report).findings@) + 2,
{
    let fonts = crate::xml::children_with(root, "font", None).len();
    let lines = crate::xml::children_with(root, "line", Some("http://v8.1c.ru/8.2/data/spreadsheet")).len();
    let formats = crate::xml::children_with(root, "format", None);
    let gf = Ghost(children_named(root@, "format"@, None));
    let font_ref = max_ref_exec(&formats, gf, "font");
    let l1 = max_ref_exec(&formats, gf, "leftBorder");
    let l2 = max_ref_exec(&formats, gf, "topBorder");
    let l3 = max_ref_exec(&formats, gf, "rightBorder");
    let l4 = max_ref_exec(&formats, gf, "bottomBorder");
    let l5 = max_ref_exec(&formats, gf, "drawingBorder");
    let a = if l1 >= l2 { l1 } else { l2 };
    let b = if a >= l3 { a } else { l3 };
    let c = if b >= l4 { b } else { l4 };
    let line_ref = if c >= l5 { c } else { l5 };
    let fonts_i = fonts as i128;
    let lines_i = lines as i128;
    let ghost start = report.findings@;
    if fonts > 0 {
        if (font_ref as i128) < fonts_i {
            crate::findings::pass_checked(report, &msg3("Font refs: max=", font_ref as i128, ", palette size=", fonts_i, ""));
        } else {
            crate::findings::fail_checked(report, &msg3("Font index ", font_ref as i128, " exceeds palette size (", fonts_i, ")"));
        }
    } else if font_ref > 0 {
        crate::findings::fail_checked(report, &msg2("Font index ", font_ref as i128, " referenced but no fonts defined"));
    }
    let ghost mid = report.findings@;
    if lines > 0 {
        if (line_ref as i128) < lines_i {
            crate::findings::pass_checked(report, &msg3("Line/border refs: max=", line_ref as i128, ", palette size=", lines_i, ""));
        } else {
            crate::findings::fail_checked(report, &msg3("Line index ", line_ref as i128, " exceeds palette size (", lines_i, ")"));
        }
    } else if line_ref > 0 {
        crate::findings::fail_checked(report, &msg2("Line index ", line_ref as i128, " referenced but no lines defined"));
    }
    proof {
        reveal_strlit("");
    }
    assert(report.findings@ =~= old(report).findings@ + palette_findings(root@));
}

fn check_head(report: &mut CheckReport, root: &XmlElement, name: &[char])
    requires
        old(report).wf(),
        old(report).findings@.len() == 0,
    ensures
        final(report).wf(),
        final(report).detailed == old(report).detailed,
        final(report).findings@ == head_findings(root@, name@),
        passed(final(report).findings@) <= 4,
{
    proof {
        crate::findings::lemma_counts_bounded(report.findings@);
    }
    let mut header = chars_of("=== Validation: Template.");
    push_chars(&mut header, name);
    push_str(&mut header, " ===");
    crate::findings::line_checked(report, &header);
    let empty: Vec<char> = Vec::new();
    crate::findings::line_checked(report, &empty);
    check_height(report, root);
    check_palettes(report, root);
    assert(empty@ =~= Seq::<char>::empty());
    assert(report.findings@ =~= head_findings(root@, name@));
}

/// The scan state of the exec code as a `RowScan`.
pub open spec fn scan_of(fs: Seq<Finding>, row: i128, max_cell: i64, max_row: i64, max_col: i64) -> RowScan {
    RowScan { fs, row: row as int, max_cell: max_cell as int, max_row: max_row as int, max_col: max_col as int }
}

pub open spec fn sets_view(sets: Seq<(Vec<char>, i64)>) -> Seq<(Seq<char>, int)> {
    sets.map_values(|p: (Vec<char>, i64)| (p.0@, p.1 as int))
}

#[verifier::rlimit(40)]
fn scan_cells(
    report: &mut CheckReport,
    row: &XmlElement,
    row_index: i128,
    in_default_set: bool,
    col_count: i64,
    format_count: usize,
    max_cell: i64,
    max_col: i64,
    Ghost(row_at): Ghost<int>,
    Ghost(max_row_at): Ghost<int>,
) -> (r: (i64, i64))
    requires
        old(report).wf(),
        passed(old(report).findings@) <= 64,
    ensures
        final(report).wf(),
        final(report).detailed == old(report).detailed,
        passed(final(report).findings@) == passed(old(report).findings@),
        ({
            let st = RowScan { fs: old(report).findings@, row: row_at, max_cell: max_cell as int, max_row: max_row_at, max_col: max_col as int };
            let out = cells_findings(
                row@,
                children_named(row@, "c"@, ns_d()),
                row_index as int,
                in_default_set,
                col_count as int,
                format_count as int,
                st,
            );
            &&& final(report).findings@ == out.fs
            &&& r.0 as int == out.max_cell
            &&& r.1 as int == out.max_col
            &&& out.row == row_at
            &&& out.max_row == max_row_at
        }),
{
    let groups = crate::xml::children_with(row, "c", Some("http://v8.1c.ru/8.2/data/spreadsheet"));
    let ghost gs = children_named(row@, "c"@, ns_d());
    let ghost st0 = RowScan { fs: report.findings@, row: row_at, max_cell: max_cell as int, max_row: max_row_at, max_col: max_col as int };
    let mut mc = max_cell;
    let mut mcol = max_col;
    let mut k: usize = 0;
    assert(gs.take(0) =~= Seq::<XmlNode>::empty());
    while k < groups.len()
        invariant
            k <= groups@.len(),
            groups@.len() == gs.len(),
            gs == children_named(row@, "c"@, ns_d()),
            forall|j: int| 0 <= j < groups@.len() ==> (#[trigger] groups@[j])@ == gs[j],
            report.wf(),
            report.detailed == old(report).detailed,
            passed(report.findings@) == passed(old(report).findings@),
            passed(old(report).findings@) <= 64,
            ({
                let out = cells_findings(row@, gs.take(k as int), row_index as int, in_default_set, col_count as int, format_count as int, st0);
                &&& report.findings@ == out.fs
                &&& mc as int == out.max_cell
                &&& mcol as int == out.max_col
                &&& out.row == st0.row
                &&& out.max_row == st0.max_row
            }),
        decreases groups.len() - k,
    {
        let g = groups[k];
        assert(gs.take(k + 1).drop_last() =~= gs.take(k as int));
        assert(gs.take(k + 1).last() == g@);
        match int_child(g, "i") {
            Some(col) => {
                if in_default_set && col > mcol {
                    mcol = col;
                }
                if col_count > 0 && col >= col_count {
                    let mut m = msg3("Row ", row_index, ": column index ", col as i128, " >= column count (");
                    push_chars(&mut m, &num(col_count as i128));
                    push_str(&mut m, ")");
                    crate::findings::fail_checked(report, &m);
                }
            },
            None => {},
        }
        match crate::xml::child(g, "c", Some("http://v8.1c.ru/8.2/data/spreadsheet")) {
            Some(cell) => match int_child(cell, "f") {
                Some(v) => {
                    if v > mc {
                        mc = v;
                    }
                    if (v as i128) > (format_count as i128) {
                        let mut m = msg3("Row ", row_index, ": cell format index ", v as i128, " > format palette size (");
                        push_chars(&mut m, &num(format_count as i128));
                        push_str(&mut m, ")");
                        crate::findings::fail_checked(report, &m);
                    }
                },
                None => {},
            },
            None => {},
        }
        k = k + 1;
    }
    assert(gs.take(k as int) =~= gs);
    (mc, mcol)
}

#[verifier::rlimit(40)]
fn scan_row(
    report: &mut CheckReport,
    item: &XmlElement,
    sets: &Vec<(Vec<char>, i64)>,
    default_cols: i64,
    format_count: usize,
    st: (i128, i64, i64, i64),
) -> (r: (i128, i64, i64, i64))
    requires
        old(report).wf(),
        passed(old(report).findings@) <= 64,
        i64::MIN <= st.0 <= i64::MAX + 0x1_0000_0000_0000_0000_0000,
    ensures
        final(report).wf(),
        final(report).detailed == old(report).detailed,
        passed(final(report).findings@) == passed(old(report).findings@),
        i64::MIN + 1 <= r.0 <= i64::MAX + 0x1_0000_0000_0000_0000_0000 + 1,
        r.0 <= (if st.0 > i64::MAX { st.0 } else { i64::MAX as i128 }) + 1,
        scan_of(final(report).findings@, r.0, r.1, r.2, r.3) == row_step(
            scan_of(old(report).findings@, st.0, st.1, st.2, st.3),
            item@,
            sets_view(sets@),
            default_cols as int,
            format_count as int,
        ),
{
    let (row0, max_cell0, max_row0, max_col0) = st;
    let row_index: i128 = match int_child(item, "index") {
        Some(v) => v as i128,
        None => row0,
    };
    let row = match crate::xml::child(item, "row", Some("http://v8.1c.ru/8.2/data/spreadsheet")) {
        Some(row) => row,
        None => {
            return (row_index + 1, max_cell0, max_row0, max_col0);
        },
    };
    let ghost st_s = scan_of(old(report).findings@, row0, max_cell0, max_row0, max_col0);
    let mut max_row = max_row0;
    match int_child(row, "formatIndex") {
        Some(v) => {
            if v > max_row {
                max_row = v;
            }
            if (v as i128) > (format_count as i128) {
                let mut m = msg3("Row ", row_index, ": formatIndex=", v as i128, " > format palette size (");
                push_chars(&mut m, &num(format_count as i128));
                push_str(&mut m, ")");
                crate::findings::fail_checked(report, &m);
            }
        },
        None => {},
    }
    let ghost a = match int_of(row@, "formatIndex"@) {
        Some(v) => RowScan {
            max_row: max(st_s.max_row, v),
            fs: if v > format_count {
                st_s.fs.push(
                    Finding::Failure(
                        "Row "@ + int_text(row_index as int) + ": formatIndex="@ + int_text(v) + " > format palette size ("@
                            + int_text(format_count as int) + ")"@,
                    ),
                )
            } else {
                st_s.fs
            },
            ..st_s
        },
        None => st_s,
    };
    assert(scan_of(report.findings@, row0, max_cell0, max_row, max_col0) == a);
    let id = text_child(row, "columnsID");
    let found = if id.len() > 0 {
        find_set(sets, &id)
    } else {
        None
    };
    if id.len() > 0 && found.is_none() {
        let mut m = msg2("Row ", row_index, ": columnsID '");
        let p = crate::mxl::mxl_prefix(&id, 8);
        assert(p@ =~= prefix8(id@));
        push_chars(&mut m, &p);
        push_str(&mut m, "...' not found in column sets");
        crate::findings::fail_checked(report, &m);
    }
    let col_count = match found {
        Some(s) => s,
        None => default_cols,
    };
    let ghost b = scan_of(report.findings@, row0, max_cell0, max_row, max_col0);
    let ghost sv = sets_view(sets@);
    assert(b == (if id@.len() > 0 && set_size(sv, id@, 0) is None {
        RowScan {
            fs: a.fs.push(
                Finding::Failure(
                    "Row "@ + int_text(row_index as int) + ": columnsID '"@ + prefix8(id@) + "...' not found in column sets"@,
                ),
            ),
            ..a
        }
    } else {
        a
    }));
    assert(col_count as int == (if id@.len() > 0 {
        match set_size(sv, id@, 0) {
            Some(s) => s,
            None => default_cols as int,
        }
    } else {
        default_cols as int
    }));
    let (mc, mcol) = scan_cells(
        report,
        row,
        row_index,
        id.len() == 0,
        col_count,
        format_count,
        max_cell0,
        max_col0,
        Ghost(row0 as int),
        Ghost(max_row as int),
    );
    let ghost c = cells_findings(
        row@,
        children_named(row@, "c"@, ns_d()),
        row_index as int,
        id@.len() == 0,
        col_count as int,
        format_count as int,
        b,
    );
    assert(report.findings@ == c.fs && mc as int == c.max_cell && mcol as int == c.max_col);
    assert(c.row == b.row && c.max_row == b.max_row);
    (row_index + 1, mc, max_row, mcol)
}

/// The scan of the rows of a template: the report gets the findings of
/// `rows_scan`, and the largest cell format, row format and default-set column
/// come back.
#[verifier::rlimit(40)]
fn scan_rows(
    report: &mut CheckReport,
    rows: &Vec<&XmlElement>,
    spec_rows: Ghost<Seq<XmlNode>>,
    sets: &Vec<(Vec<char>, i64)>,
    default_cols: i64,
    format_count: usize,
    max_errors: usize,
) -> (r: (i64, i64, i64))
    requires
        old(report).wf(),
        passed(old(report).findings@) <= 64,
        rows@.len() == spec_rows@.len(),
        forall|k: int| 0 <= k < rows@.len() ==> (#[trigger] rows@[k])@ == spec_rows@[k],
    ensures
        final(report).wf(),
        final(report).detailed == old(report).detailed,
        passed(final(report).findings@) == passed(old(report).findings@),
        ({
            let out = rows_scan(
                RowScan { fs: old(report).findings@, row: 0, max_cell: 0, max_row: 0, max_col: 0 },
                spec_rows@,
                0,
                sets_view(sets@),
                default_cols as int,
                format_count as int,
                max_errors as nat,
            );
            &&& final(report).findings@ == out.fs
            &&& r.0 as int == out.max_cell
            &&& r.1 as int == out.max_row
            &&& r.2 as int == out.max_col
        }),
{
    let ghost sr = spec_rows@;
    let ghost sv = sets_view(sets@);
    let ghost start = RowScan { fs: report.findings@, row: 0, max_cell: 0, max_row: 0, max_col: 0 };
    let mut st: (i128, i64, i64, i64) = (0, 0, 0, 0);
    let mut k: usize = 0;
    while k < rows.len() && !(report.errors > 0 && report.errors >= max_errors as u128)
        invariant
            k <= rows@.len(),
            rows@.len() == sr.len(),
            sr == spec_rows@,
            sv == sets_view(sets@),
            forall|j: int| 0 <= j < rows@.len() ==> (#[trigger] rows@[j])@ == sr[j],
            report.wf(),
            report.detailed == old(report).detailed,
            passed(report.findings@) == passed(old(report).findings@),
            passed(old(report).findings@) <= 64,
            i64::MIN <= st.0 <= i64::MAX + k,
            rows_scan(start, sr, 0, sv, default_cols as int, format_count as int, max_errors as nat) == rows_scan(
                scan_of(report.findings@, st.0, st.1, st.2, st.3),
                sr,
                k as int,
                sv,
                default_cols as int,
                format_count as int,
                max_errors as nat,
            ),
        decreases rows.len() - k,
    {
        st = scan_row(report, rows[k], sets, default_cols, format_count, st);
        k = k + 1;
    }
    (st.1, st.2, st.3)
}

/// The text of a child, or `?` where it is empty.
fn text_or_mark(t: Vec<char>) -> (r: Vec<char>)
    ensures
        r@ == (if t@.len() == 0 {
            "?"@
        } else {
            t@
        }),
{
    if t.len() == 0 {
        chars_of("?")
    } else {
        t
    }
}

/// Records the errors for the column formats of one column set.
#[verifier::rlimit(40)]
fn check_column_items(report: &mut CheckReport, cols: &XmlElement, format_count: usize)
    requires
        old(report).wf(),
        passed(old(report).findings@) <= 64,
    ensures
        final(report).wf(),
        final(report).detailed == old(report).detailed,
        passed(final(report).findings@) == passed(old(report).findings@),
        final(report).findings@ == old(report).findings@ + column_items_findings(
            children_named(cols@, "columnsItem"@, ns_d()),
            format_count as int,
        ),
{
    let items = crate::xml::children_with(cols, "columnsItem", Some("http://v8.1c.ru/8.2/data/spreadsheet"));
    let ghost its = children_named(cols@, "columnsItem"@, ns_d());
    let ghost start = report.findings@;
    let mut k: usize = 0;
    assert(its.take(0) =~= Seq::<XmlNode>::empty());
    assert(start =~= start + column_items_findings(its.take(0), format_count as int));
    while k < items.len()
        invariant
            k <= items@.len(),
            items@.len() == its.len(),
            forall|j: int| 0 <= j < items@.len() ==> (#[trigger] items@[j])@ == its[j],
            report.wf(),
            report.detailed == old(report).detailed,
            passed(report.findings@) == passed(old(report).findings@),
            passed(old(report).findings@) <= 64,
            start == old(report).findings@,
            report.findings@ == start + column_items_findings(its.take(k as int), format_count as int),
        decreases items.len() - k,
    {
        let item = items[k];
        assert(its.take(k + 1).drop_last() =~= its.take(k as int));
        assert(its.take(k + 1).last() == item@);
        let ghost before = report.findings@;
        match crate::xml::child(item, "column", Some("http://v8.1c.ru/8.2/data/spreadsheet")) {
            Some(column) => match int_child(column, "formatIndex") {
                Some(v) => {
                    if (v as i128) > (format_count as i128) {
                        let mut m = chars_of("Column ");
                        push_chars(&mut m, &text_or_mark(text_child(item, "index")));
                        let tail = msg3(": formatIndex=", v as i128, " > format palette size (", format_count as i128, ")");
                        push_chars(&mut m, &tail);
                        let ghost idx = child_text(item@, "index"@, ns_d());
                        assert(m@ =~= "Column "@ + (if idx.len() == 0 {
                            "?"@
                        } else {
                            idx
                        }) + ": formatIndex="@ + int_text(v as int) + " > format palette size ("@ + int_text(format_count as int)
                            + ")"@);
                        crate::findings::fail_checked(report, &m);
                    }
                },
                None => {},
            },
            None => {},
        }
        assert(report.findings@ =~= start + column_items_findings(its.take(k + 1), format_count as int));
        k = k + 1;
    }
    assert(its.take(k as int) =~= its);
}

/// Records the errors for one named area.
#[verifier::rlimit(40)]
fn check_named(report: &mut CheckReport, named: &XmlElement, height: i64, sets: &Vec<(Vec<char>, i64)>)
    requires
        old(report).wf(),
        passed(old(report).findings@) <= 64,
    ensures
        final(report).wf(),
        final(report).detailed == old(report).detailed,
        passed(final(report).findings@) == passed(old(report).findings@),
        final(report).findings@ == old(report).findings@ + named_findings(named@, height as int, sets_view(sets@)),
{
    let name = text_child(named, "name");
    let cells = match crate::xml::attribute_local(named, "type") {
        Some(t) => crate::text::contains_str(&t, "NamedItemCells"),
        None => false,
    };
    if !cells {
        assert(report.findings@ =~= old(report).findings@ + named_findings(named@, height as int, sets_view(sets@)));
        return;
    }
    let area = match crate::xml::child(named, "area", Some("http://v8.1c.ru/8.2/data/spreadsheet")) {
        Some(a) => a,
        None => {
            assert(report.findings@ =~= old(report).findings@ + named_findings(named@, height as int, sets_view(sets@)));
            return;
        },
    };
    let b = int_child_or(area, "beginRow", 0);
    let e = int_child_or(area, "endRow", 0);
    let ghost f0 = report.findings@;
    if b != -1 && b >= height {
        let mut m = chars_of("Area '");
        push_chars(&mut m, &name);
        push_chars(&mut m, &msg3("': beginRow=", b as i128, " >= height=", height as i128, ""));
        proof {
            reveal_strlit("");
        }
        assert(m@ =~= "Area '"@ + name@ + "': beginRow="@ + int_text(b as int) + " >= height="@ + int_text(height as int));
        crate::findings::fail_checked(report, &m);
    }
    let ghost f1 = report.findings@;
    if e != -1 && e >= height {
        let mut m = chars_of("Area '");
        push_chars(&mut m, &name);
        push_chars(&mut m, &msg3("': endRow=", e as i128, " >= height=", height as i128, ""));
        proof {
            reveal_strlit("");
        }
        assert(m@ =~= "Area '"@ + name@ + "': endRow="@ + int_text(e as int) + " >= height="@ + int_text(height as int));
        crate::findings::fail_checked(report, &m);
    }
    let ghost f2 = report.findings@;
    let id = text_child(area, "columnsID");
    if id.len() > 0 && find_set(sets, &id).is_none() {
        let mut m = chars_of("Area '");
        push_chars(&mut m, &name);
        push_str(&mut m, "': columnsID '");
        let p = crate::mxl::mxl_prefix(&id, 8);
        assert(p@ =~= prefix8(id@));
        push_chars(&mut m, &p);
        push_str(&mut m, "...' not found");
        crate::findings::fail_checked(report, &m);
    }
    proof {
        reveal_strlit("");
    }
    assert(report.findings@ =~= old(report).findings@ + named_findings(named@, height as int, sets_view(sets@)));
}

/// Records the errors for one merge.
#[verifier::rlimit(40)]
fn check_merge(report: &mut CheckReport, merge: &XmlElement, height: i64, sets: &Vec<(Vec<char>, i64)>)
    requires
        old(report).wf(),
        passed(old(report).findings@) <= 64,
    ensures
        final(report).wf(),
        final(report).detailed == old(report).detailed,
        passed(final(report).findings@) == passed(old(report).findings@),
        final(report).findings@ == old(report).findings@ + merge_findings(merge@, height as int, sets_view(sets@)),
{
    let r = int_child_or(merge, "r", 0);
    let c = int_child_or(merge, "c", 0);
    if r != -1 && r >= height {
        let mut m = msg3("Merge at row=", r as i128, ", col=", c as i128, ": row >= height (");
        push_chars(&mut m, &num(height as i128));
        push_str(&mut m, ")");
        crate::findings::fail_checked(report, &m);
    }
    match int_child(merge, "h") {
        Some(h) => {
            let end: i128 = r as i128 + h as i128;
            if r != -1 && end >= height as i128 {
                let mut m = msg3("Merge at row=", r as i128, ": extends to row ", end, " >= height (");
                push_chars(&mut m, &num(height as i128));
                push_str(&mut m, ")");
                crate::findings::fail_checked(report, &m);
            }
        },
        None => {},
    }
    let id = text_child(merge, "columnsID");
    if id.len() > 0 && find_set(sets, &id).is_none() {
        let mut m = msg3("Merge at row=", r as i128, ", col=", c as i128, ": columnsID '");
        let p = crate::mxl::mxl_prefix(&id, 8);
        assert(p@ =~= prefix8(id@));
        push_chars(&mut m, &p);
        push_str(&mut m, "...' not found");
        crate::findings::fail_checked(report, &m);
    }
    assert(report.findings@ =~= old(report).findings@ + merge_findings(merge@, height as int, sets_view(sets@)));
}

/// Records the error for one drawing.
fn check_drawing(report: &mut CheckReport, drawing: &XmlElement, pictures: usize)
    requires
        old(report).wf(),
        passed(old(report).findings@) <= 64,
    ensures
        final(report).wf(),
        final(report).detailed == old(report).detailed,
        passed(final(report).findings@) == passed(old(report).findings@),
        final(report).findings@ == old(report).findings@ + drawing_findings(drawing@, pictures as int),
{
    match int_child(drawing, "pictureIndex") {
        Some(p) => {
            if (p as i128) > (pictures as i128) {
                let mut m = chars_of("Drawing id=");
                push_chars(&mut m, &text_or_mark(text_child(drawing, "id")));
                push_chars(&mut m, &msg3(": pictureIndex=", p as i128, " > picture count (", pictures as i128, ")"));
                let ghost id = child_text(drawing@, "id"@, ns_d());
                assert(m@ =~= "Drawing id="@ + (if id.len() == 0 {
                    "?"@
                } else {
                    id
                }) + ": pictureIndex="@ + int_text(p as int) + " > picture count ("@ + int_text(pictures as int) + ")"@);
                crate::findings::fail_checked(report, &m);
            }
        },
        None => {},
    }
    assert(report.findings@ =~= old(report).findings@ + drawing_findings(drawing@, pictures as int));
}

/// The scan of one later check over its elements, stopping once enough errors
/// were found.
#[verifier::rlimit(40)]
fn scan_parts(
    report: &mut CheckReport,
    part: &Part,
    ns: &Vec<&XmlElement>,
    spec_ns: Ghost<Seq<XmlNode>>,
    format_count: usize,
    height: i64,
    sets: &Vec<(Vec<char>, i64)>,
    pictures: usize,
    max_errors: usize,
)
    requires
        old(report).wf(),
        passed(old(report).findings@) <= 64,
        ns@.len() == spec_ns@.len(),
        forall|k: int| 0 <= k < ns@.len() ==> (#[trigger] ns@[k])@ == spec_ns@[k],
    ensures
        final(report).wf(),
        final(report).detailed == old(report).detailed,
        passed(final(report).findings@) == passed(old(report).findings@),
        final(report).findings@ == parts_scan(
            old(report).findings@,
            *part,
            spec_ns@,
            0,
            format_count as int,
            height as int,
            sets_view(sets@),
            pictures as int,
            max_errors as nat,
        ),
{
    let ghost sn = spec_ns@;
    let ghost sv = sets_view(sets@);
    let ghost target = parts_scan(
        report.findings@,
        *part,
        sn,
        0,
        format_count as int,
        height as int,
        sv,
        pictures as int,
        max_errors as nat,
    );
    let mut k: usize = 0;
    while k < ns.len() && !(report.errors > 0 && report.errors >= max_errors as u128)
        invariant
            k <= ns@.len(),
            ns@.len() == sn.len(),
            sn == spec_ns@,
            sv == sets_view(sets@),
            forall|j: int| 0 <= j < ns@.len() ==> (#[trigger] ns@[j])@ == sn[j],
            report.wf(),
            report.detailed == old(report).detailed,
            passed(report.findings@) == passed(old(report).findings@),
            passed(old(report).findings@) <= 64,
            target == parts_scan(
                report.findings@,
                *part,
                sn,
                k as int,
                format_count as int,
                height as int,
                sv,
                pictures as int,
                max_errors as nat,
            ),
        decreases ns.len() - k,
    {
        let n = ns[k];
        match part {
            Part::Columns => check_column_items(report, n, format_count),
            Part::Named => check_named(report, n, height, sets),
            Part::Merge => check_merge(report, n, height, sets),
            Part::Drawing => check_drawing(report, n, pictures),
        }
        k = k + 1;
    }
}

/// The report of a finished check, ending with a line break.
fn finish_template(report: CheckReport, name: &[char]) -> (r: Vec<char>)
    requires
        report.wf(),
    ensures
        r@ == (if failures(report.findings@) == 0 && warnings(report.findings@) == 0 && !report.detailed {
            "=== Validation OK: Template."@ + name@ + " ("@ + nat_text(
                passed(report.findings@) + failures(report.findings@) + warnings(report.findings@),
            ) + " checks) ===\n"@
        } else {
            join(finding_lines(report.findings@, report.detailed) + seq![Seq::empty(), totals_line(report.findings@)], "\n"@)
                + "\n"@
        }),
{
    if report.errors == 0 && report.warnings == 0 && !report.detailed {
        let checks = crate::findings::checks_text(&report);
        let mut r = chars_of("=== Validation OK: Template.");
        push_chars(&mut r, name);
        push_str(&mut r, " (");
        push_chars(&mut r, &checks);
        push_str(&mut r, " checks) ===\n");
        return r;
    }
    let totals = crate::findings::totals_text(&report);
    let ghost fs = report.findings@;
    let ghost detailed = report.detailed;
    let mut all: Vec<Vec<char>> = Vec::new();
    crate::skd_fragments::push_lines(&mut all, report.lines);
    crate::skd_fragments::push_line(&mut all, Vec::new());
    crate::skd_fragments::push_line(&mut all, totals);
    proof {
        reveal_strlit("");
    }
    assert(views(all@) =~= finding_lines(fs, detailed) + seq![Seq::empty(), totals_line(fs)]);
    let mut r = crate::text::join_str(&all, "\n");
    push_str(&mut r, "\n");
    r
}

/// Checks a spreadsheet template given as text: a text that is not XML gives
/// the parser's message, else the result is that of `mxl_validate_tree` on its
/// root element.
pub fn mxl_validate(text: &[char], name: &[char], max_errors: usize, detailed: bool) -> (r: Result<(bool, Vec<char>), Vec<char>>)
    ensures
        match template_check(text@, name@, max_errors as nat, detailed) {
            Ok((ok, out)) => r matches Ok((b, o)) && b == ok && o@ == out,
            Err(e) => r matches Err(m) && m@ == e,
        },
{
    let body = crate::xml::strip_boms(text);
    let s = crate::external::string_of(&body);
    match crate::xml::xml_document(s.as_str()) {
        Ok(root) => Ok(mxl_validate_tree(&root, name, max_errors, detailed)),
        Err(e) => Err(e),
    }
}

/// Checks a parsed spreadsheet template: its size against its rows, the font,
/// line, format and picture indices against their palettes, the column sets
/// rows and areas name, and the rows its areas and merges reach. The check
/// stops once `max_errors` errors were found. `name` is the template's name in
/// the report. The result is whether no error was found, and the report.
pub fn mxl_validate_tree(root: &XmlElement, name: &[char], max_errors: usize, detailed: bool) -> (r: (bool, Vec<char>))
    ensures
        (r.0, r.1@) == template_report(root@, name@, max_errors as nat, detailed),
{
    let ns = Some("http://v8.1c.ru/8.2/data/spreadsheet");
    let mut report = CheckReport::new(detailed);
    check_head(&mut report, root, name);
    let cols = crate::xml::children_with(root, "columns", ns);
    let ghost scols = children_named(root@, "columns"@, ns_d());
    let (sets, default_cols) = read_column_sets(&cols, Ghost(scols));
    let format_count = crate::xml::children_with(root, "format", None).len();
    let pictures = crate::xml::children_with(root, "picture", ns).len();
    let height = int_child_or(root, "height", 0);
    let rows = crate::xml::children_with(root, "rowsItem", ns);
    let (max_cell, max_row, max_col) = scan_rows(
        &mut report,
        &rows,
        Ghost(children_named(root@, "rowsItem"@, ns_d())),
        &sets,
        default_cols,
        format_count,
        max_errors,
    );
    let ghost sets_s = column_sets(scols);
    let ghost fc = children_named(root@, "format"@, None).len() as int;
    let ghost scan = rows_scan(
        RowScan { fs: head_findings(root@, name@), row: 0, max_cell: 0, max_row: 0, max_col: 0 },
        children_named(root@, "rowsItem"@, ns_d()),
        0,
        sets_s,
        default_columns(scols),
        fc,
        max_errors as nat,
    );
    assert(sets_view(sets@) == sets_s);
    assert(format_count as int == fc);
    assert(report.findings@ == scan.fs);
    let halted = report.errors > 0 && report.errors >= max_errors as u128;
    if !halted && (max_cell as i128) <= (format_count as i128) && (max_row as i128) <= (format_count as i128) {
        let mut m = msg3("Format refs: max cell=", max_cell as i128, ", max row=", max_row as i128, ", palette size=");
        push_chars(&mut m, &num(format_count as i128));
        crate::findings::pass_checked(&mut report, &m);
    }
    let ghost f1 = scan.fs + if !stopped(scan.fs, max_errors as nat) && scan.max_cell <= fc && scan.max_row <= fc {
        seq![
            Finding::Passed(
                "Format refs: max cell="@ + int_text(scan.max_cell) + ", max row="@ + int_text(scan.max_row)
                    + ", palette size="@ + int_text(fc),
            ),
        ]
    } else {
        Seq::empty()
    };
    assert(report.findings@ =~= f1);
    scan_parts(&mut report, &Part::Columns, &cols, Ghost(scols), format_count, height, &sets, pictures, max_errors);
    let halted = report.errors > 0 && report.errors >= max_errors as u128;
    if !halted {
        let m = msg3(
            "Column indices: max in default set=",
            max_col as i128,
            ", default column count=",
            default_cols as i128,
            "",
        );
        proof {
            reveal_strlit("");
        }
        assert(m@ =~= "Column indices: max in default set="@ + int_text(max_col as int) + ", default column count="@
            + int_text(default_cols as int));
        crate::findings::pass_checked(&mut report, &m);
    }
    let ghost f2 = parts_scan(
        f1,
        Part::Columns,
        scols,
        0,
        fc,
        height as int,
        sets_s,
        pictures as int,
        max_errors as nat,
    );
    let ghost f3 = f2 + if !stopped(f2, max_errors as nat) {
        seq![
            Finding::Passed(
                "Column indices: max in default set="@ + int_text(scan.max_col) + ", default column count="@
                    + int_text(default_columns(scols)),
            ),
        ]
    } else {
        Seq::empty()
    };
    assert(report.findings@ =~= f3);
    let named = crate::xml::children_with(root, "namedItem", ns);
    scan_parts(
        &mut report,
        &Part::Named,
        &named,
        Ghost(children_named(root@, "namedItem"@, ns_d())),
        format_count,
        height,
        &sets,
        pictures,
        max_errors,
    );
    let merges = crate::xml::children_with(root, "merge", ns);
    scan_parts(
        &mut report,
        &Part::Merge,
        &merges,
        Ghost(children_named(root@, "merge"@, ns_d())),
        format_count,
        height,
        &sets,
        pictures,
        max_errors,
    );
    let drawings = crate::xml::children_with(root, "drawing", ns);
    scan_parts(
        &mut report,
        &Part::Drawing,
        &drawings,
        Ghost(children_named(root@, "drawing"@, ns_d())),
        format_count,
        height,
        &sets,
        pictures,
        max_errors,
    );
    assert(report.findings@ == template_findings(root@, name@, max_errors as nat));
    let ok = report.errors == 0;
    (ok, finish_template(report, name))
}

} // verus!
