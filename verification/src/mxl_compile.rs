//! Building a spreadsheet template from its JSON definition: the fonts, the
//! lines and formats its styles need, the column widths, and the rows of its
//! areas with their cells, merges and named areas.
use vstd::prelude::*;
use crate::mxl::{
    column_spec, emit_mxl_cell, emit_mxl_format, format_key, format_lines, key_position, mxl_format_key, parse_mxl_column_spec,
    register_index, cell_lines, CellView, FormatView, MxlCellInfo, MxlFormatProps, MxlFormatRegistry,
};
use crate::mxl_read::{key_slot, pairs_view, upsert};
use crate::numbers::{i64_text, int_text, nat_text, parse_int, usize_text};
use crate::skd_fragments::push_line;
use crate::text::{chars_of, eq_str, join, push_chars, push_str, split, trim, views};

verus! {

/// A font of the definition: the face and size where given, and which of its
/// flags are `true`.
pub struct MxlFontDef {
    pub face: Option<Vec<char>>,
    pub size: Option<i64>,
    pub bold: bool,
    pub italic: bool,
    pub underline: bool,
    pub strikeout: bool,
}

/// A style of the definition: the texts it gives, and whether `wrap` is `true`.
pub struct MxlStyleDef {
    pub font: Option<Vec<char>>,
    pub border: Option<Vec<char>>,
    pub border_width: Option<Vec<char>>,
    pub align: Option<Vec<char>>,
    pub valign: Option<Vec<char>>,
    pub wrap: bool,
    pub format: Option<Vec<char>>,
}

/// A cell of a row: its column, span and row span where given, its style,
/// whether its parameter, template and text are set (not empty, not false),
/// and those texts where they are texts.
pub struct MxlCellDef {
    pub col: Option<i64>,
    pub span: Option<i64>,
    pub rowspan: Option<i64>,
    pub style: Option<Vec<char>>,
    pub param_set: bool,
    pub template_set: bool,
    pub text_set: bool,
    pub param: Option<Vec<char>>,
    pub detail: Option<Vec<char>>,
    pub text: Option<Vec<char>>,
    pub template: Option<Vec<char>>,
}

/// A row given as an object: whether `empty` is set, its number where it is
/// one, the height, the row style, and the cells where they are a list.
pub struct MxlRowFields {
    pub empty_set: bool,
    pub empty: Option<i64>,
    pub height: Option<i64>,
    pub row_style: Option<Vec<char>>,
    pub cells: Option<Vec<MxlCellDef>>,
}

/// A row of an area: an object, a list (read as an empty object), or
/// anything else.
pub enum MxlRowDef {
    Fields(MxlRowFields),
    List,
    Other,
}

/// An area: its name and its rows where they are a list.
pub struct MxlAreaDef {
    pub name: Option<Vec<char>>,
    pub rows: Option<Vec<MxlRowDef>>,
}

/// A column width entry: its column list, its value as text, and, for a value
/// `Nx`, the width that `N` times the default width rounds to.
pub struct MxlColumnWidth {
    pub spec: Vec<char>,
    pub value: Vec<char>,
    pub scaled: i64,
}

/// A template definition: whether `columns` and `areas` are set (not empty),
/// the column count, the areas where they are a list, the default width, the
/// fonts and styles by name, the page, the column widths, and the default
/// width that floating-point arithmetic made of the page where it made one.
pub struct MxlDefinition {
    pub columns_set: bool,
    pub columns: Option<i64>,
    pub areas_set: bool,
    pub areas: Option<Vec<MxlAreaDef>>,
    pub default_width: Option<i64>,
    pub fonts: Option<Vec<(Vec<char>, MxlFontDef)>>,
    pub styles: Option<Vec<(Vec<char>, MxlStyleDef)>>,
    pub page: Option<Vec<char>>,
    pub column_widths: Option<Vec<MxlColumnWidth>>,
    pub page_default_width: Option<i64>,
}

pub open spec fn opt_text(o: Option<Vec<char>>) -> Option<Seq<char>> {
    match o {
        Some(v) => Some(v@),
        None => None,
    }
}

// ---------------------------------------------------------------- fonts

pub open spec fn font_list(d: MxlDefinition) -> Seq<(Vec<char>, MxlFontDef)> {
    match d.fonts {
        Some(f) => f@,
        None => Seq::empty(),
    }
}

pub open spec fn given_font_names(d: MxlDefinition) -> Seq<Seq<char>> {
    font_list(d).map_values(|e: (Vec<char>, MxlFontDef)| e.0@)
}

/// The font names in the order of their indices: the given ones, then
/// `default` where it is not given.
pub open spec fn font_names(d: MxlDefinition) -> Seq<Seq<char>> {
    if given_font_names(d).contains("default"@) {
        given_font_names(d)
    } else {
        given_font_names(d).push("default"@)
    }
}

pub open spec fn true_false(b: bool) -> Seq<char> {
    if b {
        "true"@
    } else {
        "false"@
    }
}

/// The line of a font; a font that is not given is Arial of size 10.
pub open spec fn font_line(f: Option<MxlFontDef>) -> Seq<char> {
    let (face, size, b, i, u, s) = match f {
        Some(x) => (
            match x.face {
                Some(t) => t@,
                None => "Arial"@,
            },
            match x.size {
                Some(n) => n as int,
                None => 10,
            },
            x.bold,
            x.italic,
            x.underline,
            x.strikeout,
        ),
        None => ("Arial"@, 10int, false, false, false, false),
    };
    "\t<font faceName=\""@ + face + "\" height=\""@ + int_text(size) + "\" bold=\""@ + true_false(b) + "\" italic=\""@
        + true_false(i) + "\" underline=\""@ + true_false(u) + "\" strikeout=\""@ + true_false(s)
        + "\" kind=\"Absolute\" scale=\"100\"/>"@
}

pub open spec fn font_lines(d: MxlDefinition) -> Seq<Seq<char>> {
    let given = font_list(d).map_values(|e: (Vec<char>, MxlFontDef)| font_line(Some(e.1)));
    if given_font_names(d).contains("default"@) {
        given
    } else {
        given.push(font_line(None))
    }
}

/// The index of the default font.
pub open spec fn default_font(d: MxlDefinition) -> int {
    match key_position(font_names(d), "default"@, 0) {
        Some(i) => i,
        None => 0,
    }
}

// ---------------------------------------------------------------- styles and lines

pub open spec fn style_list(d: MxlDefinition) -> Seq<(Vec<char>, MxlStyleDef)> {
    match d.styles {
        Some(s) => s@,
        None => Seq::empty(),
    }
}

/// A style draws borders: it names a border other than `none`.
pub open spec fn draws_border(st: MxlStyleDef) -> bool {
    match st.border {
        Some(b) => b@.len() > 0 && b@ != "none"@,
        None => false,
    }
}

pub open spec fn thick(st: MxlStyleDef) -> bool {
    opt_text(st.border_width) == Some("thick"@)
}

pub open spec fn has_thin(d: MxlDefinition) -> bool {
    exists|k: int| 0 <= k < style_list(d).len() && draws_border(#[trigger] style_list(d)[k].1) && !thick(style_list(d)[k].1)
}

pub open spec fn has_thick(d: MxlDefinition) -> bool {
    exists|k: int| 0 <= k < style_list(d).len() && draws_border(#[trigger] style_list(d)[k].1) && thick(style_list(d)[k].1)
}

pub open spec fn thin_index(d: MxlDefinition) -> i64 {
    if has_thin(d) {
        0i64
    } else {
        -1i64
    }
}

pub open spec fn thick_index(d: MxlDefinition) -> i64 {
    if has_thick(d) {
        if has_thin(d) {
            1i64
        } else {
            0i64
        }
    } else {
        -1i64
    }
}

pub open spec fn line_count(d: MxlDefinition) -> nat {
    (if has_thin(d) { 1nat } else { 0nat }) + (if has_thick(d) { 1nat } else { 0nat })
}

/// The style named `name`.
pub open spec fn style_named(d: MxlDefinition, name: Seq<char>) -> Option<MxlStyleDef> {
    match key_position(style_list(d).map_values(|e: (Vec<char>, MxlStyleDef)| e.0@), name, 0) {
        Some(k) => Some(style_list(d)[k].1),
        None => None,
    }
}

/// The borders after setting the sides listed in `sides` from the `i`-th on to
/// `line`.
pub open spec fn set_sides(b: (i64, i64, i64, i64), sides: Seq<Seq<char>>, line: i64, i: int) -> (i64, i64, i64, i64)
    decreases sides.len() - i,
{
    if 0 <= i < sides.len() {
        let s = trim(sides[i]);
        let b1 = if s == "all"@ {
            (line, line, line, line)
        } else if s == "left"@ {
            (line, b.1, b.2, b.3)
        } else if s == "top"@ {
            (b.0, line, b.2, b.3)
        } else if s == "right"@ {
            (b.0, b.1, line, b.3)
        } else if s == "bottom"@ {
            (b.0, b.1, b.2, line)
        } else {
            b
        };
        set_sides(b1, sides, line, i + 1)
    } else {
        b
    }
}

pub open spec fn align_text(a: Option<Vec<char>>) -> Seq<char> {
    match a {
        Some(t) => if t@ == "left"@ {
            "Left"@
        } else if t@ == "center"@ {
            "Center"@
        } else if t@ == "right"@ {
            "Right"@
        } else {
            Seq::empty()
        },
        None => Seq::empty(),
    }
}

pub open spec fn valign_text(a: Option<Vec<char>>) -> Seq<char> {
    match a {
        Some(t) => if t@ == "top"@ {
            "Top"@
        } else if t@ == "center"@ {
            "Center"@
        } else {
            Seq::empty()
        },
        None => Seq::empty(),
    }
}

/// The format of a cell of style `style` filled by `fill`: the default font and
/// no borders, or what the style gives.
pub open spec fn resolve_style(d: MxlDefinition, style: Seq<char>, fill: Seq<char>) -> FormatView {
    let base = FormatView {
        font_idx: Some(default_font(d) as i64),
        lb: Some(-1i64),
        tb: Some(-1i64),
        rb: Some(-1i64),
        bb: Some(-1i64),
        ha: Seq::empty(),
        va: Seq::empty(),
        wrap: false,
        fill_type: fill,
        number_format: Seq::empty(),
        width: None,
        height: None,
    };
    match if style.len() == 0 { None } else { style_named(d, style) } {
        None => base,
        Some(st) => {
            let font_idx = match st.font {
                Some(f) => match key_position(font_names(d), f@, 0) {
                    Some(i) => Some(i as i64),
                    None => base.font_idx,
                },
                None => base.font_idx,
            };
            let b = if draws_border(st) {
                let line = if thick(st) {
                    thick_index(d)
                } else {
                    thin_index(d)
                };
                match st.border {
                    Some(t) => set_sides((-1i64, -1i64, -1i64, -1i64), split(t@, ","@), line, 0),
                    None => (-1i64, -1i64, -1i64, -1i64),
                }
            } else {
                (-1i64, -1i64, -1i64, -1i64)
            };
            FormatView {
                font_idx,
                lb: Some(b.0),
                tb: Some(b.1),
                rb: Some(b.2),
                bb: Some(b.3),
                ha: align_text(st.align),
                va: valign_text(st.valign),
                wrap: st.wrap,
                number_format: match st.format {
                    Some(t) => t@,
                    None => Seq::empty(),
                },
                ..base
            }
        },
    }
}

/// How a cell is filled: by a parameter, a template or a text, in that order.
pub open spec fn fill_type(c: MxlCellDef) -> Seq<char> {
    if c.param_set {
        "Parameter"@
    } else if c.template_set {
        "Template"@
    } else if c.text_set {
        "Text"@
    } else {
        Seq::empty()
    }
}

// ---------------------------------------------------------------- formats

/// Registered formats, by key, in the order they were first registered.
pub open spec fn reg_keys(r: Seq<(Seq<char>, FormatView)>) -> Seq<Seq<char>> {
    r.map_values(|e: (Seq<char>, FormatView)| e.0)
}

/// The formats after registering `v`; a key that is there keeps its format.
pub open spec fn reg_add(r: Seq<(Seq<char>, FormatView)>, v: FormatView) -> Seq<(Seq<char>, FormatView)> {
    if key_position(reg_keys(r), format_key(v), 0) is Some {
        r
    } else {
        r.push((format_key(v), v))
    }
}

/// The index that registering `v` gives.
pub open spec fn reg_idx(r: Seq<(Seq<char>, FormatView)>, v: FormatView) -> int {
    register_index(reg_keys(r), format_key(v))
}

pub open spec fn plain_format() -> FormatView {
    FormatView {
        font_idx: None,
        lb: None,
        tb: None,
        rb: None,
        bb: None,
        ha: Seq::empty(),
        va: Seq::empty(),
        wrap: false,
        fill_type: Seq::empty(),
        number_format: Seq::empty(),
        width: None,
        height: None,
    }
}

pub open spec fn width_format(w: i64) -> FormatView {
    FormatView { width: Some(w), ..plain_format() }
}

pub open spec fn height_format(h: i64) -> FormatView {
    FormatView { height: Some(h), ..plain_format() }
}

// ---------------------------------------------------------------- widths

pub open spec fn width_list(d: MxlDefinition) -> Seq<MxlColumnWidth> {
    match d.column_widths {
        Some(w) => w@,
        None => Seq::empty(),
    }
}

/// The width of an entry: `Nx` scaled, else the number, else 0.
pub open spec fn entry_width(e: MxlColumnWidth) -> i64 {
    if crate::text::ends_with(e.value@, "x"@) {
        e.scaled
    } else {
        match parse_int(e.value@) {
            Some(v) => v as i64,
            None => 0,
        }
    }
}

/// The first entry from the `i`-th on whose column list is malformed.
pub open spec fn first_bad_spec(ws: Seq<MxlColumnWidth>, i: int) -> Option<Seq<char>>
    decreases ws.len() - i,
{
    if 0 <= i < ws.len() {
        if column_spec(ws[i].spec@) is None {
            Some(ws[i].spec@)
        } else {
            first_bad_spec(ws, i + 1)
        }
    } else {
        None
    }
}

pub open spec fn upsert_all(s: Seq<(int, int)>, cols: Seq<int>, w: int, j: int) -> Seq<(int, int)>
    decreases cols.len() - j,
{
    if 0 <= j < cols.len() {
        upsert_all(upsert(s, cols[j], w), cols, w, j + 1)
    } else {
        s
    }
}

/// The widths by column, in column order, after the first `i` entries; a
/// later entry replaces an earlier one.
pub open spec fn col_widths(ws: Seq<MxlColumnWidth>, i: int) -> Seq<(int, int)>
    decreases i,
{
    if i <= 0 || i > ws.len() {
        Seq::empty()
    } else {
        let before = col_widths(ws, i - 1);
        match column_spec(ws[i - 1].spec@) {
            Some(cols) => upsert_all(before, cols, entry_width(ws[i - 1]) as int, 0),
            None => before,
        }
    }
}

/// The default width: what the page made of it, else the given one, else 10.
pub open spec fn default_width(d: MxlDefinition) -> i64 {
    match (page_target(opt_text(d.page)), d.page_default_width) {
        (Some(_), Some(w)) => w,
        _ => match d.default_width {
            Some(w) => w,
            None => 10,
        },
    }
}

pub open spec fn all_digits(t: Seq<char>) -> bool {
    forall|i: int| 0 <= i < t.len() ==> crate::text::is_digit(#[trigger] t[i])
}

/// The width a page asks for: a number of digits, or a named A4 page.
pub open spec fn page_target(page: Option<Seq<char>>) -> Option<int> {
    match page {
        Some(p) => if all_digits(p) {
            match parse_int(p) {
                Some(v) => Some(v),
                None => None,
            }
        } else if p == "A4-landscape"@ {
            Some(780)
        } else if p == "A4-portrait"@ {
            Some(540)
        } else {
            None
        },
        None => None,
    }
}

/// The column formats: each width registered in column order, with its index.
pub open spec fn col_formats(r: Seq<(Seq<char>, FormatView)>, cw: Seq<(int, int)>, i: int) -> (Seq<(Seq<char>, FormatView)>, Seq<(int, int)>)
    decreases i,
{
    if i <= 0 || i > cw.len() {
        (r, Seq::empty())
    } else {
        let (r1, f) = col_formats(r, cw, i - 1);
        let v = width_format(cw[i - 1].1 as i64);
        (reg_add(r1, v), f.push((cw[i - 1].0, reg_idx(r1, v))))
    }
}

// ---------------------------------------------------------------- first pass: the formats of the rows

pub open spec fn cell_style(c: MxlCellDef, row_style: Option<Vec<char>>) -> Seq<char> {
    match c.style {
        Some(s) => s@,
        None => match row_style {
            Some(r) => r@,
            None => "default"@,
        },
    }
}

pub open spec fn cell_format(d: MxlDefinition, c: MxlCellDef, row_style: Option<Vec<char>>) -> FormatView {
    resolve_style(d, cell_style(c, row_style), fill_type(c))
}

pub open spec fn reg_cells(r: Seq<(Seq<char>, FormatView)>, d: MxlDefinition, cs: Seq<MxlCellDef>, row_style: Option<Vec<char>>, i: int) -> Seq<(Seq<char>, FormatView)>
    decreases i,
{
    if i <= 0 || i > cs.len() {
        r
    } else {
        reg_add(reg_cells(r, d, cs, row_style, i - 1), cell_format(d, cs[i - 1], row_style))
    }
}

/// The formats a row object needs, unless it is marked empty.
pub open spec fn reg_row(r: Seq<(Seq<char>, FormatView)>, d: MxlDefinition, f: MxlRowFields) -> Seq<(Seq<char>, FormatView)> {
    if f.empty_set {
        r
    } else {
        let r1 = match f.height {
            Some(h) => reg_add(r, height_format(h)),
            None => r,
        };
        let r2 = match f.row_style {
            Some(rs) => reg_add(r1, resolve_style(d, rs@, Seq::empty())),
            None => r1,
        };
        match f.cells {
            Some(cs) => reg_cells(r2, d, cs@, f.row_style, cs@.len() as int),
            None => r2,
        }
    }
}

pub open spec fn reg_rows(r: Seq<(Seq<char>, FormatView)>, d: MxlDefinition, rows: Seq<MxlRowDef>, i: int) -> Seq<(Seq<char>, FormatView)>
    decreases i,
{
    if i <= 0 || i > rows.len() {
        r
    } else {
        let r1 = reg_rows(r, d, rows, i - 1);
        match rows[i - 1] {
            MxlRowDef::Fields(f) => reg_row(r1, d, f),
            _ => r1,
        }
    }
}

pub open spec fn area_list(d: MxlDefinition) -> Seq<MxlAreaDef> {
    match d.areas {
        Some(a) => a@,
        None => Seq::empty(),
    }
}

pub open spec fn area_rows(a: MxlAreaDef) -> Seq<MxlRowDef> {
    match a.rows {
        Some(r) => r@,
        None => Seq::empty(),
    }
}

pub open spec fn reg_areas(r: Seq<(Seq<char>, FormatView)>, d: MxlDefinition, i: int) -> Seq<(Seq<char>, FormatView)>
    decreases i,
{
    if i <= 0 || i > area_list(d).len() {
        r
    } else {
        let r1 = reg_areas(r, d, i - 1);
        let rows = area_rows(area_list(d)[i - 1]);
        reg_rows(r1, d, rows, rows.len() as int)
    }
}

// ---------------------------------------------------------------- second pass: the rows

/// The state of writing the rows: the formats, the lines, the next row, the
/// merges as row, column, width and height.
pub struct Emit {
    pub reg: Seq<(Seq<char>, FormatView)>,
    pub lines: Seq<Seq<char>>,
    pub row: int,
    pub merges: Seq<(int, int, int, Option<int>)>,
}

/// The lines of `k` empty rows from row `g` on.
pub open spec fn empty_rows_lines(g: int, k: int) -> Seq<Seq<char>>
    decreases k,
{
    if k <= 0 {
        Seq::empty()
    } else {
        empty_rows_lines(g, k - 1) + seq![
            "\t<rowsItem>"@,
            "\t\t<index>"@ + int_text(g + k - 1) + "</index>"@,
            "\t\t<row>"@,
            "\t\t\t<empty>true</empty>"@,
            "\t\t</row>"@,
            "\t</rowsItem>"@,
        ]
    }
}

/// A cell list kept in column order, `x` placed after the cells of its column
/// or a lower one.
pub open spec fn insert_pos(s: Seq<CellView>, col: i64, k: int) -> int
    decreases s.len() - k,
{
    if k < 0 || k >= s.len() {
        s.len() as int
    } else if s[k].col > col {
        k
    } else {
        insert_pos(s, col, k + 1)
    }
}

pub open spec fn insert_sorted(s: Seq<CellView>, x: CellView) -> Seq<CellView> {
    s.insert(insert_pos(s, x.col, 0), x)
}

/// A row span `(first column, last column, first row, last row)` covers column
/// `c` on row `lrow` below its first row.
pub open spec fn span_covers(sp: (int, int, int, int), lrow: int, c: int) -> bool {
    lrow > sp.2 && lrow <= sp.3 && sp.0 <= c <= sp.1
}

pub open spec fn spans_cover(spans: Seq<(int, int, int, int)>, lrow: int, c: int) -> bool {
    exists|j: int| 0 <= j < spans.len() && span_covers(#[trigger] spans[j], lrow, c)
}

pub open spec fn cell_col(c: MxlCellDef) -> int {
    match c.col {
        Some(v) => v as int,
        None => 0,
    }
}

pub open spec fn cell_span(c: MxlCellDef) -> int {
    match c.span {
        Some(v) => v as int,
        None => 1,
    }
}

pub open spec fn cell_rowspan(c: MxlCellDef) -> int {
    match c.rowspan {
        Some(v) => v as int,
        None => 1,
    }
}

pub open spec fn cells_cover(cs: Seq<MxlCellDef>, c: int) -> bool {
    exists|j: int| 0 <= j < cs.len() && cell_col(#[trigger] cs[j]) <= c < cell_col(cs[j]) + cell_span(cs[j])
}

/// The state of a row's cells: formats, cells in column order, row spans,
/// merges.
pub struct RowCells {
    pub reg: Seq<(Seq<char>, FormatView)>,
    pub cells: Seq<CellView>,
    pub spans: Seq<(int, int, int, int)>,
    pub merges: Seq<(int, int, int, Option<int>)>,
}

/// The cells before the `i`-th of a row on row `g` (the `lrow`-th of its area).
pub open spec fn cells_fold(
    s: RowCells,
    d: MxlDefinition,
    cs: Seq<MxlCellDef>,
    row_style: Option<Vec<char>>,
    g: int,
    lrow: int,
    i: int,
) -> RowCells
    decreases i,
{
    if i <= 0 || i > cs.len() {
        s
    } else {
        let p = cells_fold(s, d, cs, row_style, g, lrow, i - 1);
        let c = cs[i - 1];
        let col = cell_col(c);
        let span = cell_span(c);
        let rsp = cell_rowspan(c);
        let v = cell_format(d, c, row_style);
        let info = CellView {
            col: (col - 1) as i64,
            format_idx: reg_idx(p.reg, v) as usize,
            param: opt_text(c.param),
            detail: opt_text(c.detail),
            text: opt_text(c.text),
            template: opt_text(c.template),
        };
        RowCells {
            reg: reg_add(p.reg, v),
            cells: insert_sorted(p.cells, info),
            spans: if rsp > 1 { p.spans.push((col, col + span - 1, lrow, lrow + rsp - 1)) } else { p.spans },
            merges: if span > 1 || rsp > 1 {
                p.merges.push((g, col - 1, span - 1, if rsp > 1 { Some(rsp - 1) } else { None }))
            } else {
                p.merges
            },
        }
    }
}

pub open spec fn gap_cell(c: int, idx: int) -> CellView {
    CellView { col: (c - 1) as i64, format_idx: idx as usize, param: None, detail: None, text: None, template: None }
}

/// The gap cells of columns `c..=cols` that no span and no cell covers.
pub open spec fn gaps_fold(
    cells: Seq<CellView>,
    spans: Seq<(int, int, int, int)>,
    cs: Seq<MxlCellDef>,
    lrow: int,
    idx: int,
    c: int,
    cols: int,
) -> Seq<CellView>
    decreases cols - c + 1,
{
    if c > cols {
        cells
    } else {
        let next = if !spans_cover(spans, lrow, c) && !cells_cover(cs, c) {
            insert_sorted(cells, gap_cell(c, idx))
        } else {
            cells
        };
        gaps_fold(next, spans, cs, lrow, idx, c + 1, cols)
    }
}

pub open spec fn cells_text(cells: Seq<CellView>) -> Seq<Seq<char>>
    decreases cells.len(),
{
    if cells.len() == 0 {
        Seq::empty()
    } else {
        cells_text(cells.drop_last()) + cell_lines(cells.last())
    }
}

pub open spec fn row_lines(g: int, fi: int, content: bool, cells: Seq<CellView>) -> Seq<Seq<char>> {
    seq!["\t<rowsItem>"@, "\t\t<index>"@ + int_text(g) + "</index>"@, "\t\t<row>"@] + (if fi > 0 {
        seq!["\t\t\t<formatIndex>"@ + int_text(fi) + "</formatIndex>"@]
    } else {
        Seq::empty()
    }) + (if content {
        cells_text(cells)
    } else {
        seq!["\t\t\t<empty>true</empty>"@]
    }) + seq!["\t\t</row>"@, "\t</rowsItem>"@]
}

pub open spec fn empty_fields() -> MxlRowFields {
    MxlRowFields { empty_set: false, empty: None, height: None, row_style: None, cells: None }
}

/// One row object of an area: `empty` rows, or a row with its cells, gap
/// cells of the row style, and its height format.
pub open spec fn row_step(e: Emit, spans: Seq<(int, int, int, int)>, lrow: int, d: MxlDefinition, f: MxlRowFields, cols: int) -> (Emit, Seq<(int, int, int, int)>, int) {
    match f.empty {
        Some(n) => {
            let k = if n > 0 { n as int } else { 0 };
            (Emit { lines: e.lines + empty_rows_lines(e.row, k), row: e.row + k, ..e }, spans, lrow + k)
        },
        None => {
            let fi = match f.height {
                Some(h) => match crate::mxl::format_index(reg_keys(e.reg), format_key(height_format(h))) {
                    Some(x) => x,
                    None => 0,
                },
                None => 0,
            };
            let (reg, content, cells, spans1, merges) = match f.cells {
                Some(cs) => if cs@.len() > 0 {
                    let p = cells_fold(RowCells { reg: e.reg, cells: Seq::empty(), spans, merges: e.merges }, d, cs@, f.row_style, e.row, lrow, cs@.len() as int);
                    match f.row_style {
                        Some(rs) => {
                            let v = resolve_style(d, rs@, Seq::empty());
                            (reg_add(p.reg, v), true, gaps_fold(p.cells, spans, cs@, lrow, reg_idx(p.reg, v), 1, cols), p.spans, p.merges)
                        },
                        None => (p.reg, true, p.cells, p.spans, p.merges),
                    }
                } else {
                    (e.reg, false, Seq::empty(), spans, e.merges)
                },
                None => match f.row_style {
                    Some(rs) => {
                        let v = resolve_style(d, rs@, Seq::empty());
                        (reg_add(e.reg, v), true, gaps_fold(Seq::empty(), spans, Seq::empty(), lrow, reg_idx(e.reg, v), 1, cols), spans, e.merges)
                    },
                    None => (e.reg, false, Seq::empty(), spans, e.merges),
                },
            };
            (Emit { reg, lines: e.lines + row_lines(e.row, fi, content, cells), row: e.row + 1, merges }, spans1, lrow + 1)
        },
    }
}

/// The rows before the `i`-th of an area.
pub open spec fn rows_fold(e: Emit, d: MxlDefinition, rows: Seq<MxlRowDef>, cols: int, i: int) -> (Emit, Seq<(int, int, int, int)>, int)
    decreases i,
{
    if i <= 0 || i > rows.len() {
        (e, Seq::empty(), 0)
    } else {
        let (e1, spans, lrow) = rows_fold(e, d, rows, cols, i - 1);
        match rows[i - 1] {
            MxlRowDef::Fields(f) => row_step(e1, spans, lrow, d, f, cols),
            _ => row_step(e1, spans, lrow, d, empty_fields(), cols),
        }
    }
}

/// The areas before the `i`-th, with the named area of each as name, first
/// and last row.
pub open spec fn areas_fold(e: Emit, d: MxlDefinition, cols: int, i: int) -> (Emit, Seq<(Seq<char>, int, int)>)
    decreases i,
{
    if i <= 0 || i > area_list(d).len() {
        (e, Seq::empty())
    } else {
        let (e1, named) = areas_fold(e, d, cols, i - 1);
        let a = area_list(d)[i - 1];
        let rows = area_rows(a);
        let (e2, _s, _l) = rows_fold(e1, d, rows, cols, rows.len() as int);
        let name = match a.name {
            Some(n) => n@,
            None => Seq::empty(),
        };
        (e2, named.push((name, e1.row, e2.row - 1)))
    }
}

/// Some area has a row that is neither an object nor a list.
pub open spec fn has_bad_row(d: MxlDefinition) -> bool {
    exists|i: int, j: int| 0 <= i < area_list(d).len() && 0 <= j < area_rows(area_list(d)[i]).len() && (#[trigger] area_rows(area_list(d)[i])[j]) is Other
}

// ---------------------------------------------------------------- the document

pub open spec fn document_head() -> Seq<Seq<char>> {
    seq![
        "<?xml version=\"1.0\" encoding=\"UTF-8\"?>"@,
        "<document xmlns=\"http://v8.1c.ru/8.2/data/spreadsheet\" xmlns:style=\"http://v8.1c.ru/8.1/data/ui/style\" xmlns:v8=\"http://v8.1c.ru/8.1/data/core\" xmlns:v8ui=\"http://v8.1c.ru/8.1/data/ui\" xmlns:xs=\"http://www.w3.org/2001/XMLSchema\" xmlns:xsi=\"http://www.w3.org/2001/XMLSchema-instance\">"@,
        "\t<languageSettings>"@,
        "\t\t<currentLanguage>ru</currentLanguage>"@,
        "\t\t<defaultLanguage>ru</defaultLanguage>"@,
        "\t\t<languageInfo>"@,
        "\t\t\t<id>ru</id>"@,
        "\t\t\t<code>\u{420}\u{443}\u{441}\u{441}\u{43a}\u{438}\u{439}</code>"@,
        "\t\t\t<description>\u{420}\u{443}\u{441}\u{441}\u{43a}\u{438}\u{439}</description>"@,
        "\t\t</languageInfo>"@,
        "\t</languageSettings>"@,
    ]
}

pub open spec fn column_item_lines(cf: Seq<(int, int)>, i: int) -> Seq<Seq<char>>
    decreases i,
{
    if i <= 0 || i > cf.len() {
        Seq::empty()
    } else {
        column_item_lines(cf, i - 1) + seq![
            "\t\t<columnsItem>"@,
            "\t\t\t<index>"@ + int_text(cf[i - 1].0 - 1) + "</index>"@,
            "\t\t\t<column>"@,
            "\t\t\t\t<formatIndex>"@ + int_text(cf[i - 1].1) + "</formatIndex>"@,
            "\t\t\t</column>"@,
            "\t\t</columnsItem>"@,
        ]
    }
}

pub open spec fn merge_lines(m: Seq<(int, int, int, Option<int>)>, i: int) -> Seq<Seq<char>>
    decreases i,
{
    if i <= 0 || i > m.len() {
        Seq::empty()
    } else {
        let x = m[i - 1];
        merge_lines(m, i - 1) + seq!["\t<merge>"@, "\t\t<r>"@ + int_text(x.0) + "</r>"@, "\t\t<c>"@ + int_text(x.1) + "</c>"@] + (match x.3 {
            Some(h) => seq!["\t\t<h>"@ + int_text(h) + "</h>"@],
            None => Seq::empty(),
        }) + seq!["\t\t<w>"@ + int_text(x.2) + "</w>"@, "\t</merge>"@]
    }
}

pub open spec fn named_lines(n: Seq<(Seq<char>, int, int)>, i: int) -> Seq<Seq<char>>
    decreases i,
{
    if i <= 0 || i > n.len() {
        Seq::empty()
    } else {
        named_lines(n, i - 1) + seq![
            "\t<namedItem xsi:type=\"NamedItemCells\">"@,
            "\t\t<name>"@ + n[i - 1].0 + "</name>"@,
            "\t\t<area>"@,
            "\t\t\t<type>Rows</type>"@,
            "\t\t\t<beginRow>"@ + int_text(n[i - 1].1) + "</beginRow>"@,
            "\t\t\t<endRow>"@ + int_text(n[i - 1].2) + "</endRow>"@,
            "\t\t\t<beginColumn>-1</beginColumn>"@,
            "\t\t\t<endColumn>-1</endColumn>"@,
            "\t\t</area>"@,
            "\t</namedItem>"@,
        ]
    }
}

pub open spec fn line_style_lines(width: Seq<char>) -> Seq<Seq<char>> {
    seq![
        "\t<line width=\""@ + width + "\" gap=\"false\">"@,
        "\t\t<v8ui:style xsi:type=\"v8ui:SpreadsheetDocumentCellLineType\">Solid</v8ui:style>"@,
        "\t</line>"@,
    ]
}

pub open spec fn formats_text(r: Seq<(Seq<char>, FormatView)>, i: int) -> Seq<Seq<char>>
    decreases i,
{
    if i <= 0 || i > r.len() {
        Seq::empty()
    } else {
        formats_text(r, i - 1) + format_lines(r[i - 1].1)
    }
}

pub open spec fn total_columns(d: MxlDefinition) -> int {
    match d.columns {
        Some(c) => c as int,
        None => 0,
    }
}

/// The formats registered before the rows are written: the default width,
/// the column widths, and those the rows need.
pub open spec fn first_pass(d: MxlDefinition) -> (Seq<(Seq<char>, FormatView)>, Seq<(int, int)>) {
    let r0 = reg_add(Seq::empty(), width_format(default_width(d)));
    let cw = col_widths(width_list(d), width_list(d).len() as int);
    let (r1, cf) = col_formats(r0, cw, cw.len() as int);
    (reg_areas(r1, d, area_list(d).len() as int), cf)
}

/// What writing the template makes: the lines, the named areas, the final
/// state.
pub open spec fn written(d: MxlDefinition) -> (Emit, Seq<(Seq<char>, int, int)>) {
    let (reg, cf) = first_pass(d);
    let head = document_head() + seq!["\t<columns>"@, "\t\t<size>"@ + int_text(total_columns(d)) + "</size>"@] + column_item_lines(cf, cf.len() as int)
        + seq!["\t</columns>"@];
    areas_fold(Emit { reg, lines: head, row: 0, merges: Seq::empty() }, d, total_columns(d), area_list(d).len() as int)
}

pub open spec fn document_lines(d: MxlDefinition) -> Seq<Seq<char>> {
    let (e, named) = written(d);
    e.lines + seq![
        "\t<templateMode>true</templateMode>"@,
        "\t<defaultFormatIndex>1</defaultFormatIndex>"@,
        "\t<height>"@ + int_text(e.row) + "</height>"@,
        "\t<vgRows>"@ + int_text(e.row) + "</vgRows>"@,
    ] + merge_lines(e.merges, e.merges.len() as int) + named_lines(named, named.len() as int) + (if has_thin(d) {
        line_style_lines("1"@)
    } else {
        Seq::empty()
    }) + (if has_thick(d) {
        line_style_lines("2"@)
    } else {
        Seq::empty()
    }) + font_lines(d) + formats_text(e.reg, e.reg.len() as int) + seq!["</document>"@]
}

/// Why a definition cannot be compiled, where it cannot.
pub open spec fn refusal(d: MxlDefinition) -> Option<Seq<char>> {
    if !d.columns_set {
        Some("Required field 'columns' is missing"@)
    } else if !d.areas_set {
        Some("Required field 'areas' is missing"@)
    } else {
        match first_bad_spec(width_list(d), 0) {
            Some(spec) => Some("invalid column spec: "@ + spec),
            None => if d.areas is None {
                Some("Required field 'areas' is missing"@)
            } else if has_bad_row(d) {
                Some("MXL row must be an object or array"@)
            } else {
                None
            },
        }
    }
}

/// The template of a definition, or why there is none.
pub open spec fn compiled_template(d: MxlDefinition) -> Result<Seq<char>, Seq<char>> {
    match refusal(d) {
        Some(e) => Err(e),
        None => Ok(join(document_lines(d), "\n"@) + "\n"@),
    }
}

/// The report of a compiled template written to `label`.
pub open spec fn compile_report(d: MxlDefinition, label: Seq<char>) -> Seq<char> {
    let (e, named) = written(d);
    "[OK] Compiled: "@ + label + "\n"@ + (match d.page {
        Some(p) => "     Page: "@ + p@ + " -> target "@ + int_text(match page_target(Some(p@)) {
            Some(t) => t,
            None => 0,
        }) + ", defaultWidth="@ + int_text(default_width(d) as int) + "\n"@,
        None => Seq::empty(),
    }) + "     Areas: "@ + nat_text(named.len()) + ", Rows: "@ + int_text(e.row) + ", Columns: "@ + int_text(total_columns(d)) + "\n"@
        + "     Fonts: "@ + nat_text(font_names(d).len()) + ", Lines: "@ + nat_text(line_count(d)) + ", Formats: "@ + nat_text(
        e.reg.len(),
    ) + "\n"@ + "     Merges: "@ + nat_text(e.merges.len()) + "\n"@
}

// ---------------------------------------------------------------- writing: fonts, styles, formats

pub open spec fn reg_view(entries: Seq<(Vec<char>, MxlFormatProps)>) -> Seq<(Seq<char>, FormatView)> {
    entries.map_values(|e: (Vec<char>, MxlFormatProps)| (e.0@, e.1@))
}

/// The registry holds each format under its key.
pub open spec fn keyed(entries: Seq<(Vec<char>, MxlFormatProps)>) -> bool {
    forall|k: int| 0 <= k < entries.len() ==> (#[trigger] entries[k]).0@ == format_key(entries[k].1@)
}

fn reg_add_exec(reg: &mut MxlFormatRegistry, props: MxlFormatProps) -> (r: usize)
    requires
        keyed(old(reg).entries@),
    ensures
        keyed(final(reg).entries@),
        reg_view(final(reg).entries@) == reg_add(reg_view(old(reg).entries@), props@),
        r as int == reg_idx(reg_view(old(reg).entries@), props@),
{
    let ghost v = props@;
    let ghost old_entries = reg.entries@;
    assert(crate::mxl::registry_keys(old_entries) =~= reg_keys(reg_view(old_entries)));
    let key = mxl_format_key(&props);
    let r = reg.register(key, props);
    proof {
        if key_position(reg_keys(reg_view(old_entries)), format_key(v), 0) is None {
            assert(reg_view(reg.entries@) =~= reg_view(old_entries).push((format_key(v), v)));
        }
    }
    r
}

fn font_names_exec(d: &MxlDefinition) -> (r: Vec<Vec<char>>)
    ensures
        views(r@) == font_names(*d),
{
    let mut names: Vec<Vec<char>> = Vec::new();
    let ghost given = given_font_names(*d);
    match &d.fonts {
        Some(f) => {
            let mut i: usize = 0;
            while i < f.len()
                invariant
                    i <= f@.len(),
                    given == f@.map_values(|e: (Vec<char>, MxlFontDef)| e.0@),
                    views(names@) == given.take(i as int),
                decreases f.len() - i,
            {
                push_line(&mut names, crate::text::to_vec(&f[i].0));
                assert(given.take(i + 1) =~= given.take(i as int).push(f@[i as int].0@));
                i = i + 1;
            }
            assert(given.take(i as int) =~= given);
        },
        None => {
            assert(given =~= Seq::<Seq<char>>::empty());
        },
    }
    if !crate::skd_check::has_text(&names, &chars_of("default")) {
        push_line(&mut names, chars_of("default"));
    }
    names
}

proof fn lemma_take_contains(g: Seq<Seq<char>>, i: int, x: Seq<char>)
    requires
        0 <= i < g.len(),
    ensures
        g.take(i + 1).contains(x) == (g.take(i).contains(x) || g[i] == x),
{
    let t1 = g.take(i + 1);
    let t0 = g.take(i);
    assert(t1 =~= t0.push(g[i]));
    if t1.contains(x) {
        let k = choose|k: int| 0 <= k < t1.len() && #[trigger] t1[k] == x;
        if k < i {
            assert(t0[k] == x);
        }
    }
    if t0.contains(x) {
        let k = choose|k: int| 0 <= k < t0.len() && #[trigger] t0[k] == x;
        assert(t1[k] == x);
    }
    if g[i] == x {
        assert(t1[i] == x);
    }
}

proof fn lemma_key_position_bound(keys: Seq<Seq<char>>, x: Seq<char>, from: int)
    requires
        0 <= from,
    ensures
        key_position(keys, x, from) matches Some(i) ==> from <= i < keys.len() && keys[i] == x,
    decreases keys.len() - from,
{
    if from < keys.len() && keys[from] != x {
        lemma_key_position_bound(keys, x, from + 1);
    }
}

fn position_exec(names: &Vec<Vec<char>>, x: &[char]) -> (r: Option<usize>)
    ensures
        crate::text::opt_int(r) == key_position(views(names@), x@, 0),
        r matches Some(i) ==> i < names@.len(),
{
    proof {
        lemma_key_position_bound(views(names@), x@, 0);
    }
    let ghost ns = views(names@);
    let mut i: usize = 0;
    while i < names.len()
        invariant
            i <= names@.len(),
            ns == views(names@),
            key_position(ns, x@, 0) == key_position(ns, x@, i as int),
        decreases names.len() - i,
    {
        if crate::text::eq_chars(&names[i], x) {
            return Some(i);
        }
        i = i + 1;
    }
    None
}

fn tf(b: bool) -> (r: &'static str)
    ensures
        r@ == true_false(b),
{
    if b {
        "true"
    } else {
        "false"
    }
}

fn font_line_exec(f: Option<&MxlFontDef>) -> (r: Vec<char>)
    ensures
        r@ == font_line(match f {
            Some(x) => Some(*x),
            None => None,
        }),
{
    let (face, size, b, i, u, s) = match f {
        Some(x) => (
            match &x.face {
                Some(t) => crate::text::to_vec(t),
                None => chars_of("Arial"),
            },
            match x.size {
                Some(n) => n,
                None => 10,
            },
            x.bold,
            x.italic,
            x.underline,
            x.strikeout,
        ),
        None => (chars_of("Arial"), 10i64, false, false, false, false),
    };
    let mut r = chars_of("\t<font faceName=\"");
    push_chars(&mut r, &face);
    push_str(&mut r, "\" height=\"");
    push_chars(&mut r, &i64_text(size));
    push_str(&mut r, "\" bold=\"");
    push_str(&mut r, tf(b));
    push_str(&mut r, "\" italic=\"");
    push_str(&mut r, tf(i));
    push_str(&mut r, "\" underline=\"");
    push_str(&mut r, tf(u));
    push_str(&mut r, "\" strikeout=\"");
    push_str(&mut r, tf(s));
    push_str(&mut r, "\" kind=\"Absolute\" scale=\"100\"/>");
    r
}

fn push_font_lines(lines: &mut Vec<Vec<char>>, d: &MxlDefinition)
    ensures
        views(final(lines)@) == views(old(lines)@) + font_lines(*d),
{
    let ghost start = views(lines@);
    let ghost fl = font_list(*d);
    let ghost given = fl.map_values(|e: (Vec<char>, MxlFontDef)| font_line(Some(e.1)));
    let mut has_default = false;
    match &d.fonts {
        Some(f) => {
            let mut i: usize = 0;
            while i < f.len()
                invariant
                    i <= f@.len(),
                    fl == f@,
                    given == fl.map_values(|e: (Vec<char>, MxlFontDef)| font_line(Some(e.1))),
                    views(lines@) == start + given.take(i as int),
                    has_default == given_font_names(*d).take(i as int).contains("default"@),
                    given_font_names(*d) == f@.map_values(|e: (Vec<char>, MxlFontDef)| e.0@),
                decreases f.len() - i,
            {
                push_line(lines, font_line_exec(Some(&f[i].1)));
                assert(given.take(i + 1) =~= given.take(i as int).push(font_line(Some(f@[i as int].1))));
                let is_default = crate::text::eq_str(&f[i].0, "default");
                proof {
                    lemma_take_contains(given_font_names(*d), i as int, "default"@);
                }
                has_default = has_default || is_default;
                i = i + 1;
            }
            assert(given.take(i as int) =~= given);
            assert(given_font_names(*d).take(i as int) =~= given_font_names(*d));
        },
        None => {
            assert(given =~= Seq::<Seq<char>>::empty());
            assert(given_font_names(*d) =~= Seq::<Seq<char>>::empty());
        },
    }
    if !has_default {
        push_line(lines, font_line_exec(None));
    }
}

fn style_flags(d: &MxlDefinition) -> (r: (bool, bool))
    ensures
        r.0 == has_thin(*d),
        r.1 == has_thick(*d),
{
    let mut thin = false;
    let mut thick_seen = false;
    match &d.styles {
        Some(st) => {
            let mut i: usize = 0;
            while i < st.len()
                invariant
                    i <= st@.len(),
                    style_list(*d) == st@,
                    thin == exists|k: int| 0 <= k < i && draws_border(#[trigger] style_list(*d)[k].1) && !thick(style_list(*d)[k].1),
                    thick_seen == exists|k: int| 0 <= k < i && draws_border(#[trigger] style_list(*d)[k].1) && thick(style_list(*d)[k].1),
                decreases st.len() - i,
            {
                let s = &st[i].1;
                let draws = match &s.border {
                    Some(b) => b.len() > 0 && !crate::text::eq_str(b, "none"),
                    None => false,
                };
                let is_thick = match &s.border_width {
                    Some(w) => crate::text::eq_str(w, "thick"),
                    None => false,
                };
                assert(draws == draws_border(style_list(*d)[i as int].1));
                assert(is_thick == thick(style_list(*d)[i as int].1));
                if draws && is_thick {
                    thick_seen = true;
                }
                if draws && !is_thick {
                    thin = true;
                }
                i = i + 1;
            }
        },
        None => {},
    }
    (thin, thick_seen)
}

/// What the writer needs of the definition besides the definition itself.
pub struct MxlContext {
    pub font_names: Vec<Vec<char>>,
    pub default_font: i64,
    pub thin: bool,
    pub thick: bool,
    pub thin_index: i64,
    pub thick_index: i64,
    pub style_names: Vec<Vec<char>>,
}

pub open spec fn context_ok(c: MxlContext, d: MxlDefinition) -> bool {
    &&& views(c.font_names@) == font_names(d)
    &&& c.default_font as int == default_font(d) as i64
    &&& c.thin == has_thin(d)
    &&& c.thick == has_thick(d)
    &&& c.thin_index == thin_index(d)
    &&& c.thick_index == thick_index(d)
    &&& views(c.style_names@) == style_list(d).map_values(|e: (Vec<char>, MxlStyleDef)| e.0@)
}

fn context_of(d: &MxlDefinition) -> (c: MxlContext)
    ensures
        context_ok(c, *d),
{
    let font_names = font_names_exec(d);
    let dfont = match position_exec(&font_names, &chars_of("default")) {
        Some(i) => i as i64,
        None => 0,
    };
    let (thin, thick_seen) = style_flags(d);
    let mut style_names: Vec<Vec<char>> = Vec::new();
    let ghost sn = style_list(*d).map_values(|e: (Vec<char>, MxlStyleDef)| e.0@);
    match &d.styles {
        Some(st) => {
            let mut i: usize = 0;
            while i < st.len()
                invariant
                    i <= st@.len(),
                    style_list(*d) == st@,
                    sn == style_list(*d).map_values(|e: (Vec<char>, MxlStyleDef)| e.0@),
                    views(style_names@) == sn.take(i as int),
                decreases st.len() - i,
            {
                push_line(&mut style_names, crate::text::to_vec(&st[i].0));
                assert(sn.take(i + 1) =~= sn.take(i as int).push(st@[i as int].0@));
                i = i + 1;
            }
            assert(sn.take(i as int) =~= sn);
        },
        None => {
            assert(sn =~= Seq::<Seq<char>>::empty());
        },
    }
    assert(dfont as int == default_font(*d) as i64);
    assert(views(style_names@) == sn);
    MxlContext {
        font_names,
        default_font: dfont,
        thin,
        thick: thick_seen,
        thin_index: if thin { 0 } else { -1 },
        thick_index: if thick_seen { if thin { 1 } else { 0 } } else { -1 },
        style_names,
    }
}

fn set_sides_exec(border: &[char], line: i64) -> (r: (i64, i64, i64, i64))
    ensures
        r == set_sides((-1i64, -1i64, -1i64, -1i64), split(border@, ","@), line, 0),
{
    proof {
        reveal_strlit(",");
    }
    let sides = crate::text::split_str(border, ",");
    let ghost sv = views(sides@);
    let mut b: (i64, i64, i64, i64) = (-1, -1, -1, -1);
    let mut i: usize = 0;
    while i < sides.len()
        invariant
            i <= sides@.len(),
            sv == views(sides@),
            sv == split(border@, ","@),
            set_sides(b, sv, line, i as int) == set_sides((-1i64, -1i64, -1i64, -1i64), sv, line, 0),
        decreases sides.len() - i,
    {
        let t = crate::text::trim_chars(&sides[i]);
        assert(t@ == trim(sv[i as int]));
        if eq_str(&t, "all") {
            b = (line, line, line, line);
        } else if eq_str(&t, "left") {
            b = (line, b.1, b.2, b.3);
        } else if eq_str(&t, "top") {
            b = (b.0, line, b.2, b.3);
        } else if eq_str(&t, "right") {
            b = (b.0, b.1, line, b.3);
        } else if eq_str(&t, "bottom") {
            b = (b.0, b.1, b.2, line);
        }
        i = i + 1;
    }
    b
}

fn align_exec(a: &Option<Vec<char>>) -> (r: Vec<char>)
    ensures
        r@ == align_text(*a),
{
    match a {
        Some(t) => if eq_str(t, "left") {
            chars_of("Left")
        } else if eq_str(t, "center") {
            chars_of("Center")
        } else if eq_str(t, "right") {
            chars_of("Right")
        } else {
            Vec::new()
        },
        None => Vec::new(),
    }
}

fn valign_exec(a: &Option<Vec<char>>) -> (r: Vec<char>)
    ensures
        r@ == valign_text(*a),
{
    match a {
        Some(t) => if eq_str(t, "top") {
            chars_of("Top")
        } else if eq_str(t, "center") {
            chars_of("Center")
        } else {
            Vec::new()
        },
        None => Vec::new(),
    }
}

/// The format of a cell of style `style` filled by `fill` (`mxl_resolve_style`).
pub fn mxl_resolve_style(d: &MxlDefinition, c: &MxlContext, style: &[char], fill: &[char]) -> (r: MxlFormatProps)
    requires
        context_ok(*c, *d),
    ensures
        r@ == resolve_style(*d, style@, fill@),
{
    let base_font: Option<i64> = Some(c.default_font);
    let found: Option<usize> = if style.len() == 0 {
        None
    } else {
        position_exec(&c.style_names, style)
    };
    match found {
        None => {
            let r = MxlFormatProps {
                font_idx: base_font,
                lb: Some(-1),
                tb: Some(-1),
                rb: Some(-1),
                bb: Some(-1),
                ha: Vec::new(),
                va: Vec::new(),
                wrap: false,
                fill_type: crate::text::to_vec(fill),
                number_format: Vec::new(),
                width: None,
                height: None,
            };
            assert(r@ =~= resolve_style(*d, style@, fill@));
            r
        },
        Some(k) => {
            let st = match &d.styles {
                Some(v) => &v[k].1,
                None => {
                    assert(false);
                    return MxlFormatProps {
                        font_idx: None, lb: None, tb: None, rb: None, bb: None, ha: Vec::new(), va: Vec::new(), wrap: false,
                        fill_type: Vec::new(), number_format: Vec::new(), width: None, height: None,
                    };
                },
            };
            assert(style_named(*d, style@) == Some(*st));
            let font_idx = match &st.font {
                Some(f) => match position_exec(&c.font_names, f) {
                    Some(i) => Some(i as i64),
                    None => base_font,
                },
                None => base_font,
            };
            let draws = match &st.border {
                Some(b) => b.len() > 0 && !eq_str(b, "none"),
                None => false,
            };
            let is_thick = match &st.border_width {
                Some(w) => eq_str(w, "thick"),
                None => false,
            };
            let b: (i64, i64, i64, i64) = if draws {
                let line = if is_thick { c.thick_index } else { c.thin_index };
                match &st.border {
                    Some(t) => set_sides_exec(t, line),
                    None => (-1, -1, -1, -1),
                }
            } else {
                (-1, -1, -1, -1)
            };
            let nf = match &st.format {
                Some(t) => crate::text::to_vec(t),
                None => Vec::new(),
            };
            let r = MxlFormatProps {
                font_idx,
                lb: Some(b.0),
                tb: Some(b.1),
                rb: Some(b.2),
                bb: Some(b.3),
                ha: align_exec(&st.align),
                va: valign_exec(&st.valign),
                wrap: st.wrap,
                fill_type: crate::text::to_vec(fill),
                number_format: nf,
                width: None,
                height: None,
            };
            assert(r@ =~= resolve_style(*d, style@, fill@));
            r
        },
    }
}

fn plain_props() -> (r: MxlFormatProps)
    ensures
        r@ == plain_format(),
{
    let r = MxlFormatProps {
        font_idx: None, lb: None, tb: None, rb: None, bb: None, ha: Vec::new(), va: Vec::new(), wrap: false,
        fill_type: Vec::new(), number_format: Vec::new(), width: None, height: None,
    };
    assert(r@ =~= plain_format());
    r
}

fn width_props(w: i64) -> (r: MxlFormatProps)
    ensures
        r@ == width_format(w),
{
    let mut r = plain_props();
    r.width = Some(w);
    assert(r@ =~= width_format(w));
    r
}

fn height_props(h: i64) -> (r: MxlFormatProps)
    ensures
        r@ == height_format(h),
{
    let mut r = plain_props();
    r.height = Some(h);
    assert(r@ =~= height_format(h));
    r
}

// ---------------------------------------------------------------- writing: widths and the first pass

fn entry_width_exec(e: &MxlColumnWidth) -> (r: i64)
    ensures
        r == entry_width(*e),
{
    if crate::text::ends_with_str(&e.value, "x") {
        e.scaled
    } else {
        match crate::numbers::parse_i64(&e.value) {
            Some(v) => v,
            None => 0,
        }
    }
}

/// The first malformed column list of the widths, if any.
fn first_bad_spec_exec(d: &MxlDefinition) -> (r: Option<Vec<char>>)
    ensures
        opt_text(r) == first_bad_spec(width_list(*d), 0),
{
    match &d.column_widths {
        Some(ws) => {
            let mut i: usize = 0;
            while i < ws.len()
                invariant
                    i <= ws@.len(),
                    width_list(*d) == ws@,
                    first_bad_spec(ws@, 0) == first_bad_spec(ws@, i as int),
                decreases ws.len() - i,
            {
                match parse_mxl_column_spec(&ws[i].spec) {
                    Ok(_) => {},
                    Err(_) => {
                        return Some(crate::text::to_vec(&ws[i].spec));
                    },
                }
                i = i + 1;
            }
            None
        },
        None => None,
    }
}

fn col_widths_exec(d: &MxlDefinition) -> (r: Vec<(i64, i64)>)
    requires
        first_bad_spec(width_list(*d), 0) is None,
    ensures
        pairs_view(r@) == col_widths(width_list(*d), width_list(*d).len() as int),
{
    let mut cw: Vec<(i64, i64)> = Vec::new();
    assert(pairs_view(cw@) =~= Seq::<(int, int)>::empty());
    match &d.column_widths {
        Some(ws) => {
            let mut i: usize = 0;
            while i < ws.len()
                invariant
                    i <= ws@.len(),
                    width_list(*d) == ws@,
                    first_bad_spec(ws@, 0) is None,
                    pairs_view(cw@) == col_widths(ws@, i as int),
                decreases ws.len() - i,
            {
                proof {
                    lemma_first_bad_none(ws@, 0, i as int);
                }
                let w = entry_width_exec(&ws[i]);
                match parse_mxl_column_spec(&ws[i].spec) {
                    Ok(cols) => {
                        let ghost before = pairs_view(cw@);
                        let ghost cv = crate::mxl::ints(cols@);
                        let mut j: usize = 0;
                        while j < cols.len()
                            invariant
                                j <= cols@.len(),
                                cv == crate::mxl::ints(cols@),
                                upsert_all(pairs_view(cw@), cv, w as int, j as int) == upsert_all(before, cv, w as int, 0),
                            decreases cols.len() - j,
                        {
                            crate::mxl_read::upsert_pair(&mut cw, cols[j], w);
                            j = j + 1;
                        }
                    },
                    Err(_) => {
                        assert(false);
                    },
                }
                i = i + 1;
            }
        },
        None => {},
    }
    cw
}

proof fn lemma_first_bad_none(ws: Seq<MxlColumnWidth>, from: int, i: int)
    requires
        0 <= from <= i < ws.len(),
        first_bad_spec(ws, from) is None,
    ensures
        column_spec(ws[i].spec@) is Some,
    decreases i - from,
{
    if from < i {
        lemma_first_bad_none(ws, from + 1, i);
    }
}

pub open spec fn index_view(v: Seq<(i64, usize)>) -> Seq<(int, int)> {
    v.map_values(|p: (i64, usize)| (p.0 as int, p.1 as int))
}

fn col_formats_exec(reg: &mut MxlFormatRegistry, cw: &Vec<(i64, i64)>) -> (r: Vec<(i64, usize)>)
    requires
        keyed(old(reg).entries@),
    ensures
        keyed(final(reg).entries@),
        (reg_view(final(reg).entries@), index_view(r@)) == col_formats(reg_view(old(reg).entries@), pairs_view(cw@), cw@.len() as int),
{
    let ghost r0 = reg_view(reg.entries@);
    let ghost cv = pairs_view(cw@);
    let mut f: Vec<(i64, usize)> = Vec::new();
    let mut i: usize = 0;
    assert(index_view(f@) =~= Seq::<(int, int)>::empty());
    while i < cw.len()
        invariant
            i <= cw@.len(),
            cv == pairs_view(cw@),
            keyed(reg.entries@),
            (reg_view(reg.entries@), index_view(f@)) == col_formats(r0, cv, i as int),
        decreases cw.len() - i,
    {
        let idx = reg_add_exec(reg, width_props(cw[i].1));
        let ghost before = f@;
        f.push((cw[i].0, idx));
        assert(index_view(f@) =~= index_view(before).push((cv[i as int].0, idx as int)));
        i = i + 1;
    }
    f
}

fn cell_style_exec(c: &MxlCellDef, row_style: &Option<Vec<char>>) -> (r: Vec<char>)
    ensures
        r@ == cell_style(*c, *row_style),
{
    match &c.style {
        Some(s) => crate::text::to_vec(s),
        None => match row_style {
            Some(r) => crate::text::to_vec(r),
            None => chars_of("default"),
        },
    }
}

fn fill_type_exec(c: &MxlCellDef) -> (r: &'static str)
    ensures
        r@ == fill_type(*c),
{
    proof {
        reveal_strlit("");
    }
    if c.param_set {
        "Parameter"
    } else if c.template_set {
        "Template"
    } else if c.text_set {
        "Text"
    } else {
        ""
    }
}

/// Registers the format of a cell and gives its index.
fn reg_cell_exec(reg: &mut MxlFormatRegistry, d: &MxlDefinition, ctx: &MxlContext, c: &MxlCellDef, row_style: &Option<Vec<char>>) -> (r: usize)
    requires
        keyed(old(reg).entries@),
        context_ok(*ctx, *d),
    ensures
        keyed(final(reg).entries@),
        reg_view(final(reg).entries@) == reg_add(reg_view(old(reg).entries@), cell_format(*d, *c, *row_style)),
        r as int == reg_idx(reg_view(old(reg).entries@), cell_format(*d, *c, *row_style)),
{
    let st = cell_style_exec(c, row_style);
    let fill = chars_of(fill_type_exec(c));
    let props = mxl_resolve_style(d, ctx, &st, &fill);
    reg_add_exec(reg, props)
}

fn reg_row_exec(reg: &mut MxlFormatRegistry, d: &MxlDefinition, ctx: &MxlContext, f: &MxlRowFields)
    requires
        keyed(old(reg).entries@),
        context_ok(*ctx, *d),
    ensures
        keyed(final(reg).entries@),
        reg_view(final(reg).entries@) == reg_row(reg_view(old(reg).entries@), *d, *f),
{
    if f.empty_set {
        return;
    }
    match f.height {
        Some(h) => {
            reg_add_exec(reg, height_props(h));
        },
        None => {},
    }
    match &f.row_style {
        Some(rs) => {
            let props = mxl_resolve_style(d, ctx, rs, &Vec::new());
            reg_add_exec(reg, props);
        },
        None => {},
    }
    let ghost r2 = reg_view(reg.entries@);
    match &f.cells {
        Some(cs) => {
            let mut i: usize = 0;
            while i < cs.len()
                invariant
                    i <= cs@.len(),
                    f.cells == Some(*cs),
                    keyed(reg.entries@),
                    context_ok(*ctx, *d),
                    reg_view(reg.entries@) == reg_cells(r2, *d, cs@, f.row_style, i as int),
                decreases cs.len() - i,
            {
                reg_cell_exec(reg, d, ctx, &cs[i], &f.row_style);
                i = i + 1;
            }
        },
        None => {},
    }
}

fn reg_areas_exec(reg: &mut MxlFormatRegistry, d: &MxlDefinition, ctx: &MxlContext)
    requires
        keyed(old(reg).entries@),
        context_ok(*ctx, *d),
    ensures
        keyed(final(reg).entries@),
        reg_view(final(reg).entries@) == reg_areas(reg_view(old(reg).entries@), *d, area_list(*d).len() as int),
{
    let ghost r0 = reg_view(reg.entries@);
    match &d.areas {
        Some(areas) => {
            let mut i: usize = 0;
            while i < areas.len()
                invariant
                    i <= areas@.len(),
                    area_list(*d) == areas@,
                    keyed(reg.entries@),
                    context_ok(*ctx, *d),
                    reg_view(reg.entries@) == reg_areas(r0, *d, i as int),
                decreases areas.len() - i,
            {
                let ghost r1 = reg_view(reg.entries@);
                match &areas[i].rows {
                    Some(rows) => {
                        let mut j: usize = 0;
                        while j < rows.len()
                            invariant
                                j <= rows@.len(),
                                area_rows(areas@[i as int]) == rows@,
                                keyed(reg.entries@),
                                context_ok(*ctx, *d),
                                reg_view(reg.entries@) == reg_rows(r1, *d, rows@, j as int),
                            decreases rows.len() - j,
                        {
                            match &rows[j] {
                                MxlRowDef::Fields(f) => reg_row_exec(reg, d, ctx, f),
                                _ => {},
                            }
                            j = j + 1;
                        }
                    },
                    None => {},
                }
                i = i + 1;
            }
        },
        None => {},
    }
}

// ---------------------------------------------------------------- sizes that fit

pub open spec fn small(v: int) -> bool {
    -0x1000_0000_0000_0000 <= v <= 0x1000_0000_0000_0000
}

pub open spec fn cell_in_range(c: MxlCellDef) -> bool {
    small(cell_col(c)) && small(cell_span(c)) && small(cell_rowspan(c))
}

pub open spec fn row_in_range(r: MxlRowDef) -> bool {
    match r {
        MxlRowDef::Fields(f) => match f.cells {
            Some(cs) => forall|j: int| 0 <= j < cs@.len() ==> cell_in_range(#[trigger] cs@[j]),
            None => true,
        },
        _ => true,
    }
}

/// How many rows a row of the definition makes.
pub open spec fn row_count(r: MxlRowDef) -> int {
    match r {
        MxlRowDef::Fields(f) => match f.empty {
            Some(n) => if n > 0 { n as int } else { 0 },
            None => 1,
        },
        _ => 1,
    }
}

pub open spec fn rows_total(rows: Seq<MxlRowDef>, i: int) -> int
    decreases i,
{
    if i <= 0 || i > rows.len() {
        0
    } else {
        rows_total(rows, i - 1) + row_count(rows[i - 1])
    }
}

pub open spec fn areas_total(d: MxlDefinition, i: int) -> int
    decreases i,
{
    if i <= 0 || i > area_list(d).len() {
        0
    } else {
        let rows = area_rows(area_list(d)[i - 1]);
        areas_total(d, i - 1) + rows_total(rows, rows.len() as int)
    }
}

/// The numbers of a definition stay where the writer's arithmetic holds them:
/// cell columns, spans and row spans within 2^60 either way, and at most 2^60
/// rows in all.
pub open spec fn mxl_definition_ok(d: MxlDefinition) -> bool {
    &&& forall|i: int, j: int|
        0 <= i < area_list(d).len() && 0 <= j < area_rows(area_list(d)[i]).len() ==> row_in_range(
            #[trigger] area_rows(area_list(d)[i])[j],
        )
    &&& areas_total(d, area_list(d).len() as int) <= 0x1000_0000_0000_0000
}

proof fn lemma_rows_total_nonneg(rows: Seq<MxlRowDef>, n: int)
    ensures
        0 <= rows_total(rows, n),
    decreases n,
{
    if n > 0 && n <= rows.len() {
        lemma_rows_total_nonneg(rows, n - 1);
    }
}

proof fn lemma_rows_total_grows(rows: Seq<MxlRowDef>, i: int, n: int)
    requires
        0 <= i <= n <= rows.len(),
    ensures
        0 <= rows_total(rows, i) <= rows_total(rows, n),
    decreases n,
{
    lemma_rows_total_nonneg(rows, i);
    if i < n {
        lemma_rows_total_grows(rows, i, n - 1);
    }
}

proof fn lemma_areas_total_nonneg(d: MxlDefinition, n: int)
    ensures
        0 <= areas_total(d, n),
    decreases n,
{
    if n > 0 && n <= area_list(d).len() {
        lemma_areas_total_nonneg(d, n - 1);
        let rows = area_rows(area_list(d)[n - 1]);
        lemma_rows_total_nonneg(rows, rows.len() as int);
    }
}

proof fn lemma_areas_total_grows(d: MxlDefinition, i: int, n: int)
    requires
        0 <= i <= n <= area_list(d).len(),
    ensures
        0 <= areas_total(d, i) <= areas_total(d, n),
    decreases n,
{
    lemma_areas_total_nonneg(d, i);
    if i < n {
        lemma_areas_total_grows(d, i, n - 1);
        let rows = area_rows(area_list(d)[n - 1]);
        lemma_rows_total_nonneg(rows, rows.len() as int);
    }
}

// ---------------------------------------------------------------- writing: the rows

pub open spec fn cell_views(v: Seq<MxlCellInfo>) -> Seq<CellView> {
    v.map_values(|c: MxlCellInfo| c@)
}

pub open spec fn span_view(v: Seq<(i64, i64, i64, i64)>) -> Seq<(int, int, int, int)> {
    v.map_values(|x: (i64, i64, i64, i64)| (x.0 as int, x.1 as int, x.2 as int, x.3 as int))
}

pub open spec fn merge_view(v: Seq<(i64, i64, i64, Option<i64>)>) -> Seq<(int, int, int, Option<int>)> {
    v.map_values(|x: (i64, i64, i64, Option<i64>)| (x.0 as int, x.1 as int, x.2 as int, match x.3 {
        Some(h) => Some(h as int),
        None => None,
    }))
}

fn insert_cell(cells: &mut Vec<MxlCellInfo>, x: MxlCellInfo)
    ensures
        cell_views(final(cells)@) == insert_sorted(cell_views(old(cells)@), x@),
{
    let ghost cv = cell_views(cells@);
    let mut k: usize = 0;
    while k < cells.len() && cells[k].col <= x.col
        invariant
            k <= cells@.len(),
            cv == cell_views(cells@),
            insert_pos(cv, x.col, 0) == insert_pos(cv, x.col, k as int),
        decreases cells.len() - k,
    {
        k = k + 1;
    }
    let ghost xv = x@;
    cells.insert(k, x);
    assert(cell_views(cells@) =~= cv.insert(k as int, xv));
}

fn opt_copy(o: &Option<Vec<char>>) -> (r: Option<Vec<char>>)
    ensures
        crate::mxl::opt_seq(r) == opt_text(*o),
{
    match o {
        Some(v) => Some(crate::text::to_vec(v)),
        None => None,
    }
}

fn spans_cover_exec(spans: &Vec<(i64, i64, i64, i64)>, lrow: i64, c: i64) -> (b: bool)
    ensures
        b == spans_cover(span_view(spans@), lrow as int, c as int),
{
    let ghost sv = span_view(spans@);
    let mut j: usize = 0;
    while j < spans.len()
        invariant
            j <= spans@.len(),
            sv == span_view(spans@),
            forall|m: int| 0 <= m < j ==> !span_covers(#[trigger] sv[m], lrow as int, c as int),
        decreases spans.len() - j,
    {
        let sp = spans[j];
        if lrow > sp.2 && lrow <= sp.3 && sp.0 <= c && c <= sp.1 {
            assert(span_covers(sv[j as int], lrow as int, c as int));
            return true;
        }
        j = j + 1;
    }
    false
}

fn cells_cover_exec(cs: &Vec<MxlCellDef>, c: i64) -> (b: bool)
    requires
        forall|j: int| 0 <= j < cs@.len() ==> cell_in_range(#[trigger] cs@[j]),
    ensures
        b == cells_cover(cs@, c as int),
{
    let mut j: usize = 0;
    while j < cs.len()
        invariant
            j <= cs@.len(),
            forall|q: int| 0 <= q < cs@.len() ==> cell_in_range(#[trigger] cs@[q]),
            forall|m: int| 0 <= m < j ==> !(cell_col(#[trigger] cs@[m]) <= c < cell_col(cs@[m]) + cell_span(cs@[m])),
        decreases cs.len() - j,
    {
        assert(cell_in_range(cs@[j as int]));
        let col: i64 = match cs[j].col {
            Some(v) => v,
            None => 0,
        };
        let span: i64 = match cs[j].span {
            Some(v) => v,
            None => 1,
        };
        if col <= c && c < col + span {
            return true;
        }
        j = j + 1;
    }
    false
}

/// Adds the gap cells of columns `1..=cols`.
fn gaps_exec(cells: &mut Vec<MxlCellInfo>, spans: &Vec<(i64, i64, i64, i64)>, cs: &Vec<MxlCellDef>, lrow: i64, idx: usize, cols: i64)
    requires
        forall|j: int| 0 <= j < cs@.len() ==> cell_in_range(#[trigger] cs@[j]),
    ensures
        cell_views(final(cells)@) == gaps_fold(cell_views(old(cells)@), span_view(spans@), cs@, lrow as int, idx as int, 1, cols as int),
{
    if cols < 1 {
        assert(gaps_fold(cell_views(cells@), span_view(spans@), cs@, lrow as int, idx as int, 1, cols as int) == cell_views(cells@));
        return;
    }
    let ghost target = gaps_fold(cell_views(cells@), span_view(spans@), cs@, lrow as int, idx as int, 1, cols as int);
    let mut c: i64 = 1;
    loop
        invariant
            1 <= c <= cols,
            forall|j: int| 0 <= j < cs@.len() ==> cell_in_range(#[trigger] cs@[j]),
            target == gaps_fold(cell_views(old(cells)@), span_view(spans@), cs@, lrow as int, idx as int, 1, cols as int),
            gaps_fold(cell_views(cells@), span_view(spans@), cs@, lrow as int, idx as int, c as int, cols as int) == target,
        decreases cols - c,
    {
        if !spans_cover_exec(spans, lrow, c) && !cells_cover_exec(cs, c) {
            let x = MxlCellInfo { col: c - 1, format_idx: idx, param: None, detail: None, text: None, template: None };
            assert(x@ == gap_cell(c as int, idx as int));
            insert_cell(cells, x);
        }
        if c >= cols {
            assert(gaps_fold(cell_views(cells@), span_view(spans@), cs@, lrow as int, idx as int, c + 1, cols as int) == cell_views(cells@));
            return;
        }
        c = c + 1;
    }
}

pub open spec fn row_cells_of(
    reg: Seq<(Vec<char>, MxlFormatProps)>,
    cells: Seq<MxlCellInfo>,
    spans: Seq<(i64, i64, i64, i64)>,
    merges: Seq<(i64, i64, i64, Option<i64>)>,
) -> RowCells {
    RowCells { reg: reg_view(reg), cells: cell_views(cells), spans: span_view(spans), merges: merge_view(merges) }
}

#[verifier::rlimit(40)]
fn cell_exec(
    reg: &mut MxlFormatRegistry,
    cells: &mut Vec<MxlCellInfo>,
    spans: &mut Vec<(i64, i64, i64, i64)>,
    merges: &mut Vec<(i64, i64, i64, Option<i64>)>,
    d: &MxlDefinition,
    ctx: &MxlContext,
    c: &MxlCellDef,
    row_style: &Option<Vec<char>>,
    g: i64,
    lrow: i64,
)
    requires
        keyed(old(reg).entries@),
        context_ok(*ctx, *d),
        cell_in_range(*c),
        0 <= g <= 0x1000_0000_0000_0000,
        0 <= lrow <= 0x1000_0000_0000_0000,
    ensures
        keyed(final(reg).entries@),
        ({
            let p = row_cells_of(old(reg).entries@, old(cells)@, old(spans)@, old(merges)@);
            let col = cell_col(*c);
            let span = cell_span(*c);
            let rsp = cell_rowspan(*c);
            let v = cell_format(*d, *c, *row_style);
            let info = CellView {
                col: (col - 1) as i64,
                format_idx: reg_idx(p.reg, v) as usize,
                param: opt_text(c.param),
                detail: opt_text(c.detail),
                text: opt_text(c.text),
                template: opt_text(c.template),
            };
            row_cells_of(final(reg).entries@, final(cells)@, final(spans)@, final(merges)@) == RowCells {
                reg: reg_add(p.reg, v),
                cells: insert_sorted(p.cells, info),
                spans: if rsp > 1 { p.spans.push((col, col + span - 1, lrow as int, lrow + rsp - 1)) } else { p.spans },
                merges: if span > 1 || rsp > 1 {
                    p.merges.push((g as int, col - 1, span - 1, if rsp > 1 { Some(rsp - 1) } else { None }))
                } else {
                    p.merges
                },
            }
        }),
{
    let col: i64 = match c.col {
        Some(v) => v,
        None => 0,
    };
    let span: i64 = match c.span {
        Some(v) => v,
        None => 1,
    };
    let rsp: i64 = match c.rowspan {
        Some(v) => v,
        None => 1,
    };
    let idx = reg_cell_exec(reg, d, ctx, c, row_style);
    let info = MxlCellInfo {
        col: col - 1,
        format_idx: idx,
        param: opt_copy(&c.param),
        detail: opt_copy(&c.detail),
        text: opt_copy(&c.text),
        template: opt_copy(&c.template),
    };
    insert_cell(cells, info);
    if rsp > 1 {
        let ghost before = spans@;
        spans.push((col, col + span - 1, lrow, lrow + rsp - 1));
        assert(span_view(spans@) =~= span_view(before).push((col as int, col + span - 1, lrow as int, lrow + rsp - 1)));
    }
    if span > 1 || rsp > 1 {
        let ghost before = merges@;
        let h: Option<i64> = if rsp > 1 { Some(rsp - 1) } else { None };
        merges.push((g, col - 1, span - 1, h));
        assert(merge_view(merges@) =~= merge_view(before).push(
            (g as int, col - 1, span - 1, if rsp > 1 { Some(rsp - 1) } else { None }),
        ));
    }
}

fn cells_exec(
    reg: &mut MxlFormatRegistry,
    cells: &mut Vec<MxlCellInfo>,
    spans: &mut Vec<(i64, i64, i64, i64)>,
    merges: &mut Vec<(i64, i64, i64, Option<i64>)>,
    d: &MxlDefinition,
    ctx: &MxlContext,
    cs: &Vec<MxlCellDef>,
    row_style: &Option<Vec<char>>,
    g: i64,
    lrow: i64,
)
    requires
        keyed(old(reg).entries@),
        context_ok(*ctx, *d),
        forall|j: int| 0 <= j < cs@.len() ==> cell_in_range(#[trigger] cs@[j]),
        0 <= g <= 0x1000_0000_0000_0000,
        0 <= lrow <= 0x1000_0000_0000_0000,
    ensures
        keyed(final(reg).entries@),
        row_cells_of(final(reg).entries@, final(cells)@, final(spans)@, final(merges)@) == cells_fold(
            row_cells_of(old(reg).entries@, old(cells)@, old(spans)@, old(merges)@),
            *d,
            cs@,
            *row_style,
            g as int,
            lrow as int,
            cs@.len() as int,
        ),
{
    let ghost s0 = row_cells_of(reg.entries@, cells@, spans@, merges@);
    let mut i: usize = 0;
    while i < cs.len()
        invariant
            i <= cs@.len(),
            keyed(reg.entries@),
            context_ok(*ctx, *d),
            forall|j: int| 0 <= j < cs@.len() ==> cell_in_range(#[trigger] cs@[j]),
            0 <= g <= 0x1000_0000_0000_0000,
            0 <= lrow <= 0x1000_0000_0000_0000,
            row_cells_of(reg.entries@, cells@, spans@, merges@) == cells_fold(s0, *d, cs@, *row_style, g as int, lrow as int, i as int),
        decreases cs.len() - i,
    {
        assert(cell_in_range(cs@[i as int]));
        cell_exec(reg, cells, spans, merges, d, ctx, &cs[i], row_style, g, lrow);
        i = i + 1;
    }
}

fn numbered(open: &str, n: i64, close: &str) -> (r: Vec<char>)
    ensures
        r@ == open@ + int_text(n as int) + close@,
{
    let mut r = chars_of(open);
    push_chars(&mut r, &i64_text(n));
    push_str(&mut r, close);
    r
}

fn numbered_usize(open: &str, n: usize, close: &str) -> (r: Vec<char>)
    ensures
        r@ == open@ + int_text(n as int) + close@,
{
    let mut r = chars_of(open);
    push_chars(&mut r, &usize_text(n));
    push_str(&mut r, close);
    r
}

fn emit_row_lines(lines: &mut Vec<Vec<char>>, g: i64, fi: usize, content: bool, cells: &Vec<MxlCellInfo>)
    ensures
        views(final(lines)@) == views(old(lines)@) + row_lines(g as int, fi as int, content, cell_views(cells@)),
{
    let ghost start = views(lines@);
    push_line(lines, chars_of("\t<rowsItem>"));
    push_line(lines, numbered("\t\t<index>", g, "</index>"));
    push_line(lines, chars_of("\t\t<row>"));
    if fi > 0 {
        push_line(lines, numbered_usize("\t\t\t<formatIndex>", fi, "</formatIndex>"));
    }
    let ghost a = views(lines@);
    let ghost cv = cell_views(cells@);
    if content {
        let mut i: usize = 0;
        while i < cells.len()
            invariant
                i <= cells@.len(),
                cv == cell_views(cells@),
                views(lines@) == a + cells_text(cv.take(i as int)),
            decreases cells.len() - i,
        {
            crate::mxl::emit_mxl_cell(lines, &cells[i]);
            assert(cv.take(i + 1).drop_last() =~= cv.take(i as int));
            assert(cv.take(i + 1).last() == cells@[i as int]@);
            i = i + 1;
        }
        assert(cv.take(i as int) =~= cv);
    } else {
        push_line(lines, chars_of("\t\t\t<empty>true</empty>"));
    }
    let ghost b = views(lines@);
    push_line(lines, chars_of("\t\t</row>"));
    push_line(lines, chars_of("\t</rowsItem>"));
    proof {
        if fi > 0 {
            assert(a =~= start + seq!["\t<rowsItem>"@, "\t\t<index>"@ + int_text(g as int) + "</index>"@, "\t\t<row>"@] + seq![
                "\t\t\t<formatIndex>"@ + int_text(fi as int) + "</formatIndex>"@,
            ]);
        } else {
            assert(a =~= start + seq!["\t<rowsItem>"@, "\t\t<index>"@ + int_text(g as int) + "</index>"@, "\t\t<row>"@] + Seq::<Seq<char>>::empty());
        }
        if content {
            assert(b =~= a + cells_text(cv));
        } else {
            assert(b =~= a + seq!["\t\t\t<empty>true</empty>"@]);
        }
        assert(views(lines@) =~= start + row_lines(g as int, fi as int, content, cv));
    }
}

fn emit_empty_rows(lines: &mut Vec<Vec<char>>, g: i64, k: i64)
    requires
        0 <= k,
        0 <= g,
        g + k <= 0x1000_0000_0000_0000,
    ensures
        views(final(lines)@) == views(old(lines)@) + empty_rows_lines(g as int, k as int),
{
    let ghost start = views(lines@);
    let mut j: i64 = 0;
    while j < k
        invariant
            0 <= j <= k,
            0 <= g,
            g + k <= 0x1000_0000_0000_0000,
            views(lines@) == start + empty_rows_lines(g as int, j as int),
        decreases k - j,
    {
        let ghost before = views(lines@);
        push_line(lines, chars_of("\t<rowsItem>"));
        push_line(lines, numbered("\t\t<index>", g + j, "</index>"));
        push_line(lines, chars_of("\t\t<row>"));
        push_line(lines, chars_of("\t\t\t<empty>true</empty>"));
        push_line(lines, chars_of("\t\t</row>"));
        push_line(lines, chars_of("\t</rowsItem>"));
        assert(views(lines@) =~= start + empty_rows_lines(g as int, j + 1));
        j = j + 1;
    }
}

pub open spec fn emit_of(reg: Seq<(Vec<char>, MxlFormatProps)>, lines: Seq<Vec<char>>, row: i64, merges: Seq<(i64, i64, i64, Option<i64>)>) -> Emit {
    Emit { reg: reg_view(reg), lines: views(lines), row: row as int, merges: merge_view(merges) }
}

#[verifier::rlimit(60)]
fn row_exec(
    lines: &mut Vec<Vec<char>>,
    reg: &mut MxlFormatRegistry,
    merges: &mut Vec<(i64, i64, i64, Option<i64>)>,
    spans: &mut Vec<(i64, i64, i64, i64)>,
    row: &mut i64,
    lrow: &mut i64,
    d: &MxlDefinition,
    ctx: &MxlContext,
    f: &MxlRowFields,
    cols: i64,
)
    requires
        keyed(old(reg).entries@),
        context_ok(*ctx, *d),
        row_in_range(MxlRowDef::Fields(*f)),
        0 <= *old(row),
        0 <= *old(lrow),
        *old(row) + row_count(MxlRowDef::Fields(*f)) <= 0x1000_0000_0000_0000,
        *old(lrow) + row_count(MxlRowDef::Fields(*f)) <= 0x1000_0000_0000_0000,
    ensures
        keyed(final(reg).entries@),
        (emit_of(final(reg).entries@, final(lines)@, *final(row), final(merges)@), span_view(final(spans)@), *final(lrow) as int) == row_step(
            emit_of(old(reg).entries@, old(lines)@, *old(row), old(merges)@),
            span_view(old(spans)@),
            *old(lrow) as int,
            *d,
            *f,
            cols as int,
        ),
{
    match f.empty {
        Some(n) => {
            let k: i64 = if n > 0 { n } else { 0 };
            emit_empty_rows(lines, *row, k);
            *row = *row + k;
            *lrow = *lrow + k;
            return;
        },
        None => {},
    }
    let fi: usize = match f.height {
        Some(h) => {
            let key = mxl_format_key(&height_props(h));
            assert(crate::mxl::registry_keys(reg.entries@) =~= reg_keys(reg_view(reg.entries@)));
            match reg.index_of(&key) {
                Some(x) => x,
                None => 0,
            }
        },
        None => 0,
    };
    let ghost spans0 = span_view(spans@);
    let mut cells: Vec<MxlCellInfo> = Vec::new();
    let mut content = false;
    match &f.cells {
        Some(cs) => {
            if cs.len() > 0 {
                content = true;
                let snapshot = copy_spans(spans);
                cells_exec(reg, &mut cells, spans, merges, d, ctx, cs, &f.row_style, *row, *lrow);
                match &f.row_style {
                    Some(rs) => {
                        let props = mxl_resolve_style(d, ctx, rs, &Vec::new());
                        let gi = reg_add_exec(reg, props);
                        gaps_exec(&mut cells, &snapshot, cs, *lrow, gi, cols);
                    },
                    None => {},
                }
            }
        },
        None => match &f.row_style {
            Some(rs) => {
                content = true;
                let props = mxl_resolve_style(d, ctx, rs, &Vec::new());
                let gi = reg_add_exec(reg, props);
                let none: Vec<MxlCellDef> = Vec::new();
                gaps_exec(&mut cells, spans, &none, *lrow, gi, cols);
                assert(none@ =~= Seq::<MxlCellDef>::empty());
            },
            None => {},
        },
    }
    assert(cell_views(Seq::<MxlCellInfo>::empty()) =~= Seq::<CellView>::empty());
    emit_row_lines(lines, *row, fi, content, &cells);
    *row = *row + 1;
    *lrow = *lrow + 1;
}

fn copy_spans(spans: &Vec<(i64, i64, i64, i64)>) -> (r: Vec<(i64, i64, i64, i64)>)
    ensures
        r@ == spans@,
{
    let mut r: Vec<(i64, i64, i64, i64)> = Vec::new();
    let mut i: usize = 0;
    while i < spans.len()
        invariant
            i <= spans@.len(),
            r@ == spans@.take(i as int),
        decreases spans.len() - i,
    {
        r.push(spans[i]);
        assert(spans@.take(i + 1) =~= spans@.take(i as int).push(spans@[i as int]));
        i = i + 1;
    }
    assert(spans@.take(i as int) =~= spans@);
    r
}

proof fn lemma_rows_fold_rows(e: Emit, d: MxlDefinition, rows: Seq<MxlRowDef>, cols: int, i: int)
    requires
        0 <= i <= rows.len(),
    ensures
        rows_fold(e, d, rows, cols, i).0.row == e.row + rows_total(rows, i),
        rows_fold(e, d, rows, cols, i).2 == rows_total(rows, i),
    decreases i,
{
    if i > 0 {
        lemma_rows_fold_rows(e, d, rows, cols, i - 1);
    }
}

pub open spec fn named_view(v: Seq<(Vec<char>, i64, i64)>) -> Seq<(Seq<char>, int, int)> {
    v.map_values(|x: (Vec<char>, i64, i64)| (x.0@, x.1 as int, x.2 as int))
}

#[verifier::rlimit(60)]
fn areas_exec(
    lines: &mut Vec<Vec<char>>,
    reg: &mut MxlFormatRegistry,
    merges: &mut Vec<(i64, i64, i64, Option<i64>)>,
    row: &mut i64,
    d: &MxlDefinition,
    ctx: &MxlContext,
    cols: i64,
) -> (named: Vec<(Vec<char>, i64, i64)>)
    requires
        keyed(old(reg).entries@),
        context_ok(*ctx, *d),
        mxl_definition_ok(*d),
        !has_bad_row(*d),
        *old(row) == 0,
    ensures
        keyed(final(reg).entries@),
        (emit_of(final(reg).entries@, final(lines)@, *final(row), final(merges)@), named_view(named@)) == areas_fold(
            emit_of(old(reg).entries@, old(lines)@, *old(row), old(merges)@),
            *d,
            cols as int,
            area_list(*d).len() as int,
        ),
{
    let ghost e0 = emit_of(reg.entries@, lines@, *row, merges@);
    let mut named: Vec<(Vec<char>, i64, i64)> = Vec::new();
    assert(named_view(named@) =~= Seq::<(Seq<char>, int, int)>::empty());
    let na: usize = match &d.areas {
        Some(a) => a.len(),
        None => 0,
    };
    let mut i: usize = 0;
    while i < na
        invariant
            i <= na,
            na == area_list(*d).len(),
            keyed(reg.entries@),
            context_ok(*ctx, *d),
            mxl_definition_ok(*d),
            !has_bad_row(*d),
            *row as int == areas_total(*d, i as int),
            (emit_of(reg.entries@, lines@, *row, merges@), named_view(named@)) == areas_fold(e0, *d, cols as int, i as int),
        decreases na - i,
    {
        let area = match &d.areas {
            Some(a) => &a[i],
            None => {
                assert(false);
                return named;
            },
        };
        assert(*area == area_list(*d)[i as int]);
        let ghost e1 = emit_of(reg.entries@, lines@, *row, merges@);
        let ghost rows_s = area_rows(*area);
        proof {
            lemma_areas_total_grows(*d, i + 1, area_list(*d).len() as int);
            lemma_areas_total_nonneg(*d, i as int);
            lemma_rows_total_nonneg(rows_s, rows_s.len() as int);
        }
        let start = *row;
        let mut spans: Vec<(i64, i64, i64, i64)> = Vec::new();
        let mut lrow: i64 = 0;
        assert(span_view(spans@) =~= Seq::<(int, int, int, int)>::empty());
        match &area.rows {
            Some(rows) => {
                assert(area_rows(area_list(*d)[i as int]) == rows@);
                let mut j: usize = 0;
                while j < rows.len()
                    invariant
                        j <= rows@.len(),
                        rows_s == rows@,
                        area_rows(area_list(*d)[i as int]) == rows@,
                        keyed(reg.entries@),
                        context_ok(*ctx, *d),
                        mxl_definition_ok(*d),
                        !has_bad_row(*d),
                        0 <= i < area_list(*d).len(),
                        *area == area_list(*d)[i as int],
                        start as int == areas_total(*d, i as int),
                        areas_total(*d, i as int) + rows_total(rows_s, rows_s.len() as int) <= 0x1000_0000_0000_0000,
                        0 <= areas_total(*d, i as int),
                        *row as int == start + rows_total(rows_s, j as int),
                        lrow as int == rows_total(rows_s, j as int),
                        (emit_of(reg.entries@, lines@, *row, merges@), span_view(spans@), lrow as int) == rows_fold(e1, *d, rows_s, cols as int, j as int),
                    decreases rows.len() - j,
                {
                    proof {
                        lemma_rows_total_grows(rows_s, j + 1, rows_s.len() as int);
                        lemma_rows_total_nonneg(rows_s, j as int);
                        assert(row_in_range(area_rows(area_list(*d)[i as int])[j as int]));
                        if rows_s[j as int] is Other {
                            assert(area_rows(area_list(*d)[i as int])[j as int] is Other);
                            assert(has_bad_row(*d));
                        }
                    }
                    match &rows[j] {
                        MxlRowDef::Fields(f) => {
                            row_exec(lines, reg, merges, &mut spans, row, &mut lrow, d, ctx, f, cols);
                        },
                        _ => {
                            let f = MxlRowFields { empty_set: false, empty: None, height: None, row_style: None, cells: None };
                            assert(f == empty_fields());
                            row_exec(lines, reg, merges, &mut spans, row, &mut lrow, d, ctx, &f, cols);
                        },
                    }
                    j = j + 1;
                }
            },
            None => {},
        }
        let name = match &area.name {
            Some(n) => crate::text::to_vec(n),
            None => Vec::new(),
        };
        let ghost before = named@;
        named.push((name, start, *row - 1));
        assert(named_view(named@) =~= named_view(before).push((opt_text(area.name).unwrap_or(Seq::empty()), start as int, *row - 1)));
        i = i + 1;
    }
    named
}

// ---------------------------------------------------------------- the whole template

/// The width a page asks for (`mxl_page_target`): a number of digits, or a
/// named A4 page.
pub fn mxl_page_target(page: &Option<Vec<char>>) -> (r: Option<i64>)
    ensures
        crate::numbers::opt_i64(r) == page_target(opt_text(*page)),
{
    match page {
        Some(p) => {
            let mut i: usize = 0;
            let mut digits = true;
            while i < p.len()
                invariant
                    i <= p@.len(),
                    digits == forall|k: int| 0 <= k < i ==> crate::text::is_digit(#[trigger] p@[k]),
                decreases p.len() - i,
            {
                let ch = p[i];
                if !('0' <= ch && ch <= '9') {
                    assert(!crate::text::is_digit(p@[i as int]));
                    digits = false;
                }
                i = i + 1;
            }
            if digits {
                crate::numbers::parse_i64(p)
            } else if eq_str(p, "A4-landscape") {
                Some(780)
            } else if eq_str(p, "A4-portrait") {
                Some(540)
            } else {
                None
            }
        },
        None => None,
    }
}

fn default_width_exec(d: &MxlDefinition) -> (r: i64)
    ensures
        r == default_width(*d),
{
    match (mxl_page_target(&d.page), d.page_default_width) {
        (Some(_), Some(w)) => w,
        _ => match d.default_width {
            Some(w) => w,
            None => 10,
        },
    }
}

/// Why a definition cannot be compiled, where it cannot: `columns` or
/// `areas` not set, a malformed column list, areas that are not a list, a row
/// that is neither an object nor a list.
pub fn mxl_compile_refusal(d: &MxlDefinition) -> (r: Option<Vec<char>>)
    ensures
        opt_text(r) == refusal(*d),
{
    if !d.columns_set {
        return Some(chars_of("Required field 'columns' is missing"));
    }
    if !d.areas_set {
        return Some(chars_of("Required field 'areas' is missing"));
    }
    match first_bad_spec_exec(d) {
        Some(spec) => {
            let mut m = chars_of("invalid column spec: ");
            push_chars(&mut m, &spec);
            return Some(m);
        },
        None => {},
    }
    match &d.areas {
        None => Some(chars_of("Required field 'areas' is missing")),
        Some(areas) => {
            let mut i: usize = 0;
            while i < areas.len()
                invariant
                    i <= areas@.len(),
                    area_list(*d) == areas@,
                    d.columns_set,
                    d.areas_set,
                    d.areas is Some,
                    first_bad_spec(width_list(*d), 0) is None,
                    forall|a: int, b: int| 0 <= a < i && 0 <= b < area_rows(area_list(*d)[a]).len() ==> !(#[trigger] area_rows(area_list(*d)[a])[b] is Other),
                decreases areas.len() - i,
            {
                match &areas[i].rows {
                    Some(rows) => {
                        let mut j: usize = 0;
                        while j < rows.len()
                            invariant
                                j <= rows@.len(),
                                i < areas@.len(),
                                d.columns_set,
                                d.areas_set,
                                d.areas is Some,
                                first_bad_spec(width_list(*d), 0) is None,
                                area_list(*d) == areas@,
                                area_rows(area_list(*d)[i as int]) == rows@,
                                forall|a: int, b: int| 0 <= a < i && 0 <= b < area_rows(area_list(*d)[a]).len() ==> !(#[trigger] area_rows(area_list(*d)[a])[b] is Other),
                                forall|b: int| 0 <= b < j ==> !(#[trigger] area_rows(area_list(*d)[i as int])[b] is Other),
                            decreases rows.len() - j,
                        {
                            match &rows[j] {
                                MxlRowDef::Other => {
                                    assert(area_rows(area_list(*d)[i as int])[j as int] is Other);
                                    assert(has_bad_row(*d));
                                    return Some(chars_of("MXL row must be an object or array"));
                                },
                                _ => {},
                            }
                            j = j + 1;
                        }
                    },
                    None => {},
                }
                i = i + 1;
            }
            None
        },
    }
}

fn emit_columns(lines: &mut Vec<Vec<char>>, cols: i64, cf: &Vec<(i64, usize)>)
    ensures
        views(final(lines)@) == views(old(lines)@) + seq!["\t<columns>"@, "\t\t<size>"@ + int_text(cols as int) + "</size>"@]
            + column_item_lines(index_view(cf@), cf@.len() as int) + seq!["\t</columns>"@],
{
    let ghost start = views(lines@);
    push_line(lines, chars_of("\t<columns>"));
    push_line(lines, numbered("\t\t<size>", cols, "</size>"));
    let ghost a = views(lines@);
    let ghost cv = index_view(cf@);
    let mut i: usize = 0;
    while i < cf.len()
        invariant
            i <= cf@.len(),
            cv == index_view(cf@),
            views(lines@) == a + column_item_lines(cv, i as int),
        decreases cf.len() - i,
    {
        let mut idx = chars_of("\t\t\t<index>");
        push_chars(&mut idx, &crate::numbers::i128_text(cf[i].0 as i128 - 1));
        push_str(&mut idx, "</index>");
        push_line(lines, chars_of("\t\t<columnsItem>"));
        push_line(lines, idx);
        push_line(lines, chars_of("\t\t\t<column>"));
        push_line(lines, numbered_usize("\t\t\t\t<formatIndex>", cf[i].1, "</formatIndex>"));
        push_line(lines, chars_of("\t\t\t</column>"));
        push_line(lines, chars_of("\t\t</columnsItem>"));
        assert(views(lines@) =~= a + column_item_lines(cv, i + 1));
        i = i + 1;
    }
    push_line(lines, chars_of("\t</columns>"));
    assert(views(lines@) =~= start + seq!["\t<columns>"@, "\t\t<size>"@ + int_text(cols as int) + "</size>"@]
        + column_item_lines(cv, cf@.len() as int) + seq!["\t</columns>"@]);
}

fn emit_merges(lines: &mut Vec<Vec<char>>, m: &Vec<(i64, i64, i64, Option<i64>)>)
    ensures
        views(final(lines)@) == views(old(lines)@) + merge_lines(merge_view(m@), m@.len() as int),
{
    let ghost start = views(lines@);
    let ghost mv = merge_view(m@);
    let mut i: usize = 0;
    while i < m.len()
        invariant
            i <= m@.len(),
            mv == merge_view(m@),
            views(lines@) == start + merge_lines(mv, i as int),
        decreases m.len() - i,
    {
        let ghost before = views(lines@);
        let x = m[i];
        push_line(lines, chars_of("\t<merge>"));
        push_line(lines, numbered("\t\t<r>", x.0, "</r>"));
        push_line(lines, numbered("\t\t<c>", x.1, "</c>"));
        match x.3 {
            Some(h) => push_line(lines, numbered("\t\t<h>", h, "</h>")),
            None => {},
        }
        push_line(lines, numbered("\t\t<w>", x.2, "</w>"));
        push_line(lines, chars_of("\t</merge>"));
        proof {
            let xv = mv[i as int];
            assert(views(lines@) =~= before + (seq!["\t<merge>"@, "\t\t<r>"@ + int_text(xv.0) + "</r>"@, "\t\t<c>"@ + int_text(xv.1) + "</c>"@] + (match xv.3 {
                Some(h) => seq!["\t\t<h>"@ + int_text(h) + "</h>"@],
                None => Seq::<Seq<char>>::empty(),
            }) + seq!["\t\t<w>"@ + int_text(xv.2) + "</w>"@, "\t</merge>"@]));
        }
        i = i + 1;
    }
}

fn emit_named(lines: &mut Vec<Vec<char>>, n: &Vec<(Vec<char>, i64, i64)>)
    ensures
        views(final(lines)@) == views(old(lines)@) + named_lines(named_view(n@), n@.len() as int),
{
    let ghost start = views(lines@);
    let ghost nv = named_view(n@);
    let mut i: usize = 0;
    while i < n.len()
        invariant
            i <= n@.len(),
            nv == named_view(n@),
            views(lines@) == start + named_lines(nv, i as int),
        decreases n.len() - i,
    {
        let ghost before = views(lines@);
        let mut name = chars_of("\t\t<name>");
        push_chars(&mut name, &n[i].0);
        push_str(&mut name, "</name>");
        push_line(lines, chars_of("\t<namedItem xsi:type=\"NamedItemCells\">"));
        push_line(lines, name);
        push_line(lines, chars_of("\t\t<area>"));
        push_line(lines, chars_of("\t\t\t<type>Rows</type>"));
        push_line(lines, numbered("\t\t\t<beginRow>", n[i].1, "</beginRow>"));
        push_line(lines, numbered("\t\t\t<endRow>", n[i].2, "</endRow>"));
        push_line(lines, chars_of("\t\t\t<beginColumn>-1</beginColumn>"));
        push_line(lines, chars_of("\t\t\t<endColumn>-1</endColumn>"));
        push_line(lines, chars_of("\t\t</area>"));
        push_line(lines, chars_of("\t</namedItem>"));
        assert(views(lines@) =~= start + named_lines(nv, i + 1));
        i = i + 1;
    }
}

fn emit_line_style(lines: &mut Vec<Vec<char>>, width: &str)
    ensures
        views(final(lines)@) == views(old(lines)@) + line_style_lines(width@),
{
    let ghost start = views(lines@);
    let mut head = chars_of("\t<line width=\"");
    push_str(&mut head, width);
    push_str(&mut head, "\" gap=\"false\">");
    push_line(lines, head);
    push_line(lines, chars_of("\t\t<v8ui:style xsi:type=\"v8ui:SpreadsheetDocumentCellLineType\">Solid</v8ui:style>"));
    push_line(lines, chars_of("\t</line>"));
    assert(views(lines@) =~= start + line_style_lines(width@));
}

fn emit_formats(lines: &mut Vec<Vec<char>>, reg: &MxlFormatRegistry)
    ensures
        views(final(lines)@) == views(old(lines)@) + formats_text(reg_view(reg.entries@), reg.entries@.len() as int),
{
    let ghost start = views(lines@);
    let ghost rv = reg_view(reg.entries@);
    let mut i: usize = 0;
    while i < reg.entries.len()
        invariant
            i <= reg.entries@.len(),
            rv == reg_view(reg.entries@),
            views(lines@) == start + formats_text(rv, i as int),
        decreases reg.entries.len() - i,
    {
        emit_mxl_format(lines, &reg.entries[i].1);
        i = i + 1;
    }
}

fn emit_head(lines: &mut Vec<Vec<char>>)
    ensures
        views(final(lines)@) == views(old(lines)@) + document_head(),
{
    let ghost start = views(lines@);
    push_line(lines, chars_of("<?xml version=\"1.0\" encoding=\"UTF-8\"?>"));
    push_line(lines, chars_of("<document xmlns=\"http://v8.1c.ru/8.2/data/spreadsheet\" xmlns:style=\"http://v8.1c.ru/8.1/data/ui/style\" xmlns:v8=\"http://v8.1c.ru/8.1/data/core\" xmlns:v8ui=\"http://v8.1c.ru/8.1/data/ui\" xmlns:xs=\"http://www.w3.org/2001/XMLSchema\" xmlns:xsi=\"http://www.w3.org/2001/XMLSchema-instance\">"));
    push_line(lines, chars_of("\t<languageSettings>"));
    push_line(lines, chars_of("\t\t<currentLanguage>ru</currentLanguage>"));
    push_line(lines, chars_of("\t\t<defaultLanguage>ru</defaultLanguage>"));
    push_line(lines, chars_of("\t\t<languageInfo>"));
    push_line(lines, chars_of("\t\t\t<id>ru</id>"));
    push_line(lines, chars_of("\t\t\t<code>\u{420}\u{443}\u{441}\u{441}\u{43a}\u{438}\u{439}</code>"));
    push_line(lines, chars_of("\t\t\t<description>\u{420}\u{443}\u{441}\u{441}\u{43a}\u{438}\u{439}</description>"));
    push_line(lines, chars_of("\t\t</languageInfo>"));
    push_line(lines, chars_of("\t</languageSettings>"));
    assert(views(lines@) =~= start + document_head());
}

/// The lines of the template of a definition that can be compiled, and its
/// report for `label`.
#[verifier::rlimit(60)]
fn compile_lines(d: &MxlDefinition, label: &[char]) -> (r: (Vec<Vec<char>>, Vec<char>))
    requires
        refusal(*d) is None,
        mxl_definition_ok(*d),
    ensures
        views(r.0@) == document_lines(*d),
        r.1@ == compile_report(*d, label@),
{
    let ctx = context_of(d);
    let mut reg = MxlFormatRegistry::new();
    assert(keyed(reg.entries@));
    assert(reg_view(reg.entries@) =~= Seq::<(Seq<char>, FormatView)>::empty());
    let dw = default_width_exec(d);
    reg_add_exec(&mut reg, width_props(dw));
    let cw = col_widths_exec(d);
    let cf = col_formats_exec(&mut reg, &cw);
    reg_areas_exec(&mut reg, d, &ctx);
    proof {
        let (fr, fcf) = first_pass(*d);
        assert(reg_view(reg.entries@) == fr);
        assert(index_view(cf@) == fcf);
    }
    let cols: i64 = match d.columns {
        Some(c) => c,
        None => 0,
    };
    let mut lines: Vec<Vec<char>> = Vec::new();
    emit_head(&mut lines);
    emit_columns(&mut lines, cols, &cf);
    let mut merges: Vec<(i64, i64, i64, Option<i64>)> = Vec::new();
    let mut row: i64 = 0;
    proof {
        assert(views(Seq::<Vec<char>>::empty()) =~= Seq::<Seq<char>>::empty());
        assert(merge_view(merges@) =~= Seq::<(int, int, int, Option<int>)>::empty());
        assert(views(lines@) =~= document_head() + seq!["\t<columns>"@, "\t\t<size>"@ + int_text(total_columns(*d)) + "</size>"@]
            + column_item_lines(first_pass(*d).1, first_pass(*d).1.len() as int) + seq!["\t</columns>"@]);
        assert(has_bad_row(*d) == false);
    }
    let named = areas_exec(&mut lines, &mut reg, &mut merges, &mut row, d, &ctx, cols);
    let ghost body = views(lines@);
    push_line(&mut lines, chars_of("\t<templateMode>true</templateMode>"));
    push_line(&mut lines, chars_of("\t<defaultFormatIndex>1</defaultFormatIndex>"));
    push_line(&mut lines, numbered("\t<height>", row, "</height>"));
    push_line(&mut lines, numbered("\t<vgRows>", row, "</vgRows>"));
    let ghost t1 = views(lines@);
    emit_merges(&mut lines, &merges);
    emit_named(&mut lines, &named);
    let ghost t2 = views(lines@);
    if ctx.thin {
        emit_line_style(&mut lines, "1");
    }
    let ghost t3 = views(lines@);
    if ctx.thick {
        emit_line_style(&mut lines, "2");
    }
    let ghost t4 = views(lines@);
    push_font_lines(&mut lines, d);
    emit_formats(&mut lines, &reg);
    push_line(&mut lines, chars_of("</document>"));
    proof {
        let (e, nm) = written(*d);
        assert(t1 =~= e.lines + seq![
            "\t<templateMode>true</templateMode>"@,
            "\t<defaultFormatIndex>1</defaultFormatIndex>"@,
            "\t<height>"@ + int_text(e.row) + "</height>"@,
            "\t<vgRows>"@ + int_text(e.row) + "</vgRows>"@,
        ]);
        if has_thin(*d) {
            assert(t3 =~= t2 + line_style_lines("1"@));
        } else {
            assert(t3 =~= t2 + Seq::<Seq<char>>::empty());
        }
        if has_thick(*d) {
            assert(t4 =~= t3 + line_style_lines("2"@));
        } else {
            assert(t4 =~= t3 + Seq::<Seq<char>>::empty());
        }
        assert(views(lines@) =~= document_lines(*d));
    }
    let mut rep = chars_of("[OK] Compiled: ");
    push_chars(&mut rep, label);
    push_str(&mut rep, "\n");
    let ghost r0 = rep@;
    match &d.page {
        Some(p) => {
            push_str(&mut rep, "     Page: ");
            push_chars(&mut rep, p);
            push_str(&mut rep, " -> target ");
            let t: i64 = match mxl_page_target(&d.page) {
                Some(t) => t,
                None => 0,
            };
            push_chars(&mut rep, &i64_text(t));
            push_str(&mut rep, ", defaultWidth=");
            push_chars(&mut rep, &i64_text(dw));
            push_str(&mut rep, "\n");
        },
        None => {},
    }
    let ghost r1 = rep@;
    push_str(&mut rep, "     Areas: ");
    push_chars(&mut rep, &usize_text(named.len()));
    push_str(&mut rep, ", Rows: ");
    push_chars(&mut rep, &i64_text(row));
    push_str(&mut rep, ", Columns: ");
    push_chars(&mut rep, &i64_text(cols));
    push_str(&mut rep, "\n");
    push_str(&mut rep, "     Fonts: ");
    push_chars(&mut rep, &usize_text(ctx.font_names.len()));
    push_str(&mut rep, ", Lines: ");
    let lc: usize = (if ctx.thin { 1 } else { 0 }) + (if ctx.thick { 1 } else { 0 });
    push_chars(&mut rep, &usize_text(lc));
    push_str(&mut rep, ", Formats: ");
    push_chars(&mut rep, &usize_text(reg.entries.len()));
    push_str(&mut rep, "\n");
    push_str(&mut rep, "     Merges: ");
    push_chars(&mut rep, &usize_text(merges.len()));
    push_str(&mut rep, "\n");
    proof {
        let (e, nm) = written(*d);
        assert(named@.len() == nm.len());
        assert(reg.entries@.len() == e.reg.len());
        assert(merges@.len() == e.merges.len());
        assert(views(ctx.font_names@).len() == ctx.font_names@.len());
        assert(r1 =~= "[OK] Compiled: "@ + label@ + "\n"@ + (match d.page {
            Some(p) => "     Page: "@ + p@ + " -> target "@ + int_text(match page_target(Some(p@)) {
                Some(t) => t,
                None => 0,
            }) + ", defaultWidth="@ + int_text(default_width(*d) as int) + "\n"@,
            None => Seq::<char>::empty(),
        }));
        assert(lc as nat == line_count(*d));
        assert(rep@ =~= compile_report(*d, label@));
    }
    (lines, rep)
}

/// The template of a definition (`compile_mxl`), or why it cannot be built.
pub fn mxl_compile(defn: &MxlDefinition) -> (r: Result<Vec<char>, Vec<char>>)
    requires
        mxl_definition_ok(*defn),
    ensures
        match compiled_template(*defn) {
            Ok(t) => r matches Ok(x) && x@ == t,
            Err(e) => r matches Err(x) && x@ == e,
        },
{
    match mxl_compile_with_report(defn, &Vec::new()) {
        Ok((t, _)) => Ok(t),
        Err(e) => Err(e),
    }
}

/// The template of a definition and the report of writing it to `label`, or
/// why it cannot be built.
pub fn mxl_compile_with_report(defn: &MxlDefinition, label: &[char]) -> (r: Result<(Vec<char>, Vec<char>), Vec<char>>)
    requires
        mxl_definition_ok(*defn),
    ensures
        match compiled_template(*defn) {
            Ok(t) => r matches Ok((x, rep)) && x@ == t && rep@ == compile_report(*defn, label@),
            Err(e) => r matches Err(x) && x@ == e,
        },
{
    match mxl_compile_refusal(defn) {
        Some(e) => Err(e),
        None => {
            let (lines, rep) = compile_lines(defn, label);
            let mut out = crate::text::join_str(&lines, "\n");
            push_str(&mut out, "\n");
            Ok((out, rep))
        },
    }
}

} // verus!
