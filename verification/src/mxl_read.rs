//! Reading a spreadsheet template for decompiling: its fonts, lines, formats,
//! column formats, merges, row areas and rows, as the decompiler takes them.
use vstd::prelude::*;
use crate::mxl_check::{int_of, int_or, ns_d};
use crate::mxl_decompile::{MxlDecompiledCell, MxlDecompiledRow, MxlNamedItem, MxlRawFont, MxlRawFormat, OrderedJson};
use crate::numbers::parse_int;
use crate::xml::{XmlElement, XmlNode, attribute, attribute_by_local_name, child_named, child_text, children_named, find_named, opt_view};

verus! {

/// The namespace of the texts of cells.
pub open spec fn ns_v8() -> Option<Seq<char>> {
    Some("http://v8.1c.ru/8.1/data/core"@)
}

pub open spec fn or_empty(o: Option<Seq<char>>) -> Seq<char> {
    match o {
        Some(v) => v,
        None => Seq::empty(),
    }
}

pub open spec fn opt_or(o: Option<int>, d: int) -> int {
    match o {
        Some(v) => v,
        None => d,
    }
}

/// A number held by an attribute, or 0.
pub open spec fn attr_int(n: XmlNode, name: Seq<char>) -> int {
    match attribute(n, name) {
        Some(v) => opt_or(parse_int(v), 0),
        None => 0,
    }
}

pub open spec fn attr_true(n: XmlNode, name: Seq<char>) -> bool {
    attribute(n, name) == Some("true"@)
}

/// A font read from its element.
pub open spec fn font_read(f: MxlRawFont, n: XmlNode) -> bool {
    &&& f.face@ == or_empty(attribute(n, "faceName"@))
    &&& f.size as int == attr_int(n, "height"@)
    &&& f.bold == attr_true(n, "bold"@)
    &&& f.italic == attr_true(n, "italic"@)
    &&& f.underline == attr_true(n, "underline"@)
    &&& f.strikeout == attr_true(n, "strikeout"@)
}

/// The text of the first `content` element at or under `n`, where it has one.
pub open spec fn content_text(n: XmlNode) -> Option<Seq<char>> {
    match find_named(n, "content"@, ns_v8()) {
        Some(c) => c.text,
        None => None,
    }
}

/// A format read from its element: unset indices are -1, unset sizes 0.
pub open spec fn format_read(f: MxlRawFormat, n: XmlNode) -> bool {
    &&& f.font_idx as int == opt_or(int_of(n, "font"@), -1)
    &&& f.lb as int == opt_or(int_of(n, "leftBorder"@), -1)
    &&& f.tb as int == opt_or(int_of(n, "topBorder"@), -1)
    &&& f.rb as int == opt_or(int_of(n, "rightBorder"@), -1)
    &&& f.bb as int == opt_or(int_of(n, "bottomBorder"@), -1)
    &&& f.width as int == opt_or(int_of(n, "width"@), 0)
    &&& f.height as int == opt_or(int_of(n, "height"@), 0)
    &&& f.ha@ == child_text(n, "horizontalAlignment"@, ns_d())
    &&& f.va@ == child_text(n, "verticalAlignment"@, ns_d())
    &&& f.wrap == (child_text(n, "textPlacement"@, ns_d()) == "Wrap"@)
    &&& f.fill_type@ == child_text(n, "fillType"@, ns_d())
    &&& f.data_format@ == match child_named(n, "format"@, ns_d()) {
        Some(c) => or_empty(content_text(c)),
        None => Seq::empty(),
    }
}

/// Where a key goes in a list sorted by key: the first entry whose key is not
/// below it.
pub open spec fn key_slot<V>(s: Seq<(int, V)>, key: int, k: int) -> int
    decreases s.len() - k,
{
    if k < 0 || k >= s.len() {
        s.len() as int
    } else if s[k].0 >= key {
        k
    } else {
        key_slot(s, key, k + 1)
    }
}

/// A list sorted by key with `key` set to `v`: the entry replaced where the key
/// is there, else added in its place.
pub open spec fn upsert<V>(s: Seq<(int, V)>, key: int, v: V) -> Seq<(int, V)> {
    let p = key_slot(s, key, 0);
    if p < s.len() && s[p].0 == key {
        s.update(p, (key, v))
    } else {
        s.insert(p, (key, v))
    }
}

pub open spec fn sorted_keys<V>(s: Seq<(int, V)>) -> bool {
    forall|a: int, b: int| 0 <= a < b < s.len() ==> s[a].0 < s[b].0
}

/// The column set of a template that the decompiler reads.
pub open spec fn columns_node(root: XmlNode) -> Option<XmlNode> {
    child_named(root, "columns"@, ns_d())
}

pub open spec fn total_columns(root: XmlNode) -> int {
    match columns_node(root) {
        Some(c) => int_or(c, "size"@, 0),
        None => 0,
    }
}

pub open spec fn column_items(root: XmlNode) -> Seq<XmlNode> {
    match columns_node(root) {
        Some(c) => children_named(c, "columnsItem"@, ns_d()),
        None => Seq::empty(),
    }
}

/// The format of each column, by column, in column order; a later item for a
/// column replaces an earlier one.
pub open spec fn column_formats(items: Seq<XmlNode>) -> Seq<(int, int)>
    decreases items.len(),
{
    if items.len() == 0 {
        Seq::empty()
    } else {
        let item = items.last();
        upsert(
            column_formats(items.drop_last()),
            int_or(item, "index"@, 0),
            match child_named(item, "column"@, ns_d()) {
                Some(c) => int_or(c, "formatIndex"@, 0),
                None => 0,
            },
        )
    }
}

/// The merges, one per cell, in the order their cells first come; a later
/// merge of a cell replaces an earlier one.
pub open spec fn merge_entry(m: XmlNode) -> ((int, int), (int, int)) {
    ((int_or(m, "r"@, 0), int_or(m, "c"@, 0)), (int_or(m, "w"@, 0), int_or(m, "h"@, 0)))
}

pub open spec fn merge_slot(s: Seq<((int, int), (int, int))>, key: (int, int), k: int) -> int
    decreases s.len() - k,
{
    if k < 0 || k >= s.len() {
        s.len() as int
    } else if s[k].0 == key {
        k
    } else {
        merge_slot(s, key, k + 1)
    }
}

pub open spec fn merges_read(ms: Seq<XmlNode>) -> Seq<((int, int), (int, int))>
    decreases ms.len(),
{
    if ms.len() == 0 {
        Seq::empty()
    } else {
        let s = merges_read(ms.drop_last());
        let e = merge_entry(ms.last());
        let p = merge_slot(s, e.0, 0);
        if p < s.len() {
            s.update(p, e)
        } else {
            s.push(e)
        }
    }
}

/// The named areas of rows: name, first and last row.
pub open spec fn areas_read(items: Seq<XmlNode>) -> Seq<(Seq<char>, int, int)>
    decreases items.len(),
{
    if items.len() == 0 {
        Seq::empty()
    } else {
        let before = areas_read(items.drop_last());
        let n = items.last();
        match child_named(n, "area"@, ns_d()) {
            Some(area) => if attribute_by_local_name(n, "type"@) == Some("NamedItemCells"@) && child_text(
                area,
                "type"@,
                ns_d(),
            ) == "Rows"@ {
                before.push((child_text(n, "name"@, ns_d()), int_or(area, "beginRow"@, 0), int_or(area, "endRow"@, 0)))
            } else {
                before
            },
            None => before,
        }
    }
}

/// A cell of a row: column, format, parameter, detail parameter, text.
pub type CellRead = (int, int, Option<Seq<char>>, Option<Seq<char>>, Option<Seq<char>>);

pub open spec fn non_empty(t: Seq<char>) -> Option<Seq<char>> {
    if t.len() > 0 {
        Some(t)
    } else {
        None
    }
}

pub open spec fn cell_read(col: int, cell: XmlNode) -> CellRead {
    (
        col,
        opt_or(int_of(cell, "f"@), 0),
        non_empty(child_text(cell, "parameter"@, ns_d())),
        non_empty(child_text(cell, "detailParameter"@, ns_d())),
        match child_named(cell, "tl"@, ns_d()) {
            Some(tl) => match content_text(tl) {
                Some(t) => non_empty(t),
                None => None,
            },
            None => None,
        },
    )
}

/// The cells of the cell groups of a row, each group at its given column or
/// the one after the group before; `None` where a column passes `i64::MAX`.
pub open spec fn cells_read(groups: Seq<XmlNode>) -> Option<(int, Seq<CellRead>)>
    decreases groups.len(),
{
    if groups.len() == 0 {
        Some((-1, Seq::empty()))
    } else {
        match cells_read(groups.drop_last()) {
            None => None,
            Some((col, cells)) => {
                let g = groups.last();
                let c = match int_of(g, "i"@) {
                    Some(i) => i,
                    None => col + 1,
                };
                if c > i64::MAX {
                    None
                } else {
                    match child_named(g, "c"@, ns_d()) {
                        Some(cell) => Some((c, cells.push(cell_read(c, cell)))),
                        None => Some((c, cells)),
                    }
                }
            },
        }
    }
}

/// A row: its format, its cells, whether it is marked empty.
pub type RowRead = (int, Seq<CellRead>, bool);

/// `v` set for the rows `from..=to`.
pub open spec fn upsert_range(s: Seq<(int, RowRead)>, from: int, to: int, v: RowRead) -> Seq<(int, RowRead)>
    decreases to - from + 1,
{
    if from > to {
        s
    } else {
        upsert_range(upsert(s, from, v), from + 1, to, v)
    }
}

/// The rows by index, in index order; an item with `indexTo` sets each row
/// of its range, a later item replaces an earlier one. `None` where a column
/// passes `i64::MAX`.
pub open spec fn rows_read(items: Seq<XmlNode>) -> Option<Seq<(int, RowRead)>>
    decreases items.len(),
{
    if items.len() == 0 {
        Some(Seq::empty())
    } else {
        match rows_read(items.drop_last()) {
            None => None,
            Some(s) => {
                let item = items.last();
                let idx = int_or(item, "index"@, 0);
                let to = opt_or(int_of(item, "indexTo"@), idx);
                match child_named(item, "row"@, ns_d()) {
                    None => Some(s),
                    Some(row) => {
                        let fmt = opt_or(int_of(row, "formatIndex"@), 0);
                        let empty = child_text(row, "empty"@, ns_d()) == "true"@;
                        if empty {
                            Some(upsert_range(s, idx, to, (fmt, Seq::empty(), true)))
                        } else {
                            match cells_read(children_named(row, "c"@, ns_d())) {
                                None => None,
                                Some((_, cells)) => Some(upsert_range(s, idx, to, (fmt, cells, false))),
                            }
                        }
                    },
                }
            },
        }
    }
}

fn attr_int_exec(n: &XmlElement, name: &str) -> (r: i64)
    ensures
        r as int == attr_int(n@, name@),
{
    match crate::xml::attribute_value(n, name) {
        Some(v) => match crate::numbers::parse_i64(&v) {
            Some(i) => i,
            None => 0,
        },
        None => 0,
    }
}

fn attr_true_exec(n: &XmlElement, name: &str) -> (r: bool)
    ensures
        r == attr_true(n@, name@),
{
    proof {
        reveal_strlit("true");
    }
    match crate::xml::attribute_value(n, name) {
        Some(v) => {
            let b = crate::text::eq_str(&v, "true");
            assert(b ==> v@ =~= "true"@);
            b
        },
        None => false,
    }
}

fn int_child_or(n: &XmlElement, name: &str, d: i64) -> (r: i64)
    ensures
        r as int == opt_or(int_of(n@, name@), d as int),
{
    let t = crate::xml::child(n, name, Some("http://v8.1c.ru/8.2/data/spreadsheet"));
    match t {
        Some(c) => match &c.text {
            Some(x) => match crate::numbers::parse_i64(x) {
                Some(v) => v,
                None => d,
            },
            None => d,
        },
        None => d,
    }
}

fn text_child(n: &XmlElement, name: &str) -> (r: Vec<char>)
    ensures
        r@ == child_text(n@, name@, ns_d()),
{
    crate::xml::child_text_of(n, name, Some("http://v8.1c.ru/8.2/data/spreadsheet"))
}

fn content_text_exec(n: &XmlElement) -> (r: Option<Vec<char>>)
    ensures
        opt_view(r) == content_text(n@),
{
    match crate::xml::find_element(n, "content", Some("http://v8.1c.ru/8.1/data/core")) {
        Some(c) => match &c.text {
            Some(t) => Some(crate::text::to_vec(t)),
            None => None,
        },
        None => None,
    }
}

fn read_font(n: &XmlElement) -> (r: MxlRawFont)
    ensures
        font_read(r, n@),
{
    MxlRawFont {
        face: match crate::xml::attribute_value(n, "faceName") {
            Some(v) => v,
            None => Vec::new(),
        },
        size: attr_int_exec(n, "height"),
        bold: attr_true_exec(n, "bold"),
        italic: attr_true_exec(n, "italic"),
        underline: attr_true_exec(n, "underline"),
        strikeout: attr_true_exec(n, "strikeout"),
    }
}

fn read_format(n: &XmlElement) -> (r: MxlRawFormat)
    ensures
        format_read(r, n@),
{
    proof {
        reveal_strlit("Wrap");
    }
    let placement = text_child(n, "textPlacement");
    let wrap = crate::text::eq_str(&placement, "Wrap");
    assert(wrap ==> placement@ =~= "Wrap"@);
    let data_format = match crate::xml::child(n, "format", Some("http://v8.1c.ru/8.2/data/spreadsheet")) {
        Some(c) => match content_text_exec(c) {
            Some(t) => t,
            None => Vec::new(),
        },
        None => Vec::new(),
    };
    MxlRawFormat {
        font_idx: int_child_or(n, "font", -1),
        lb: int_child_or(n, "leftBorder", -1),
        tb: int_child_or(n, "topBorder", -1),
        rb: int_child_or(n, "rightBorder", -1),
        bb: int_child_or(n, "bottomBorder", -1),
        width: int_child_or(n, "width", 0),
        height: int_child_or(n, "height", 0),
        ha: text_child(n, "horizontalAlignment"),
        va: text_child(n, "verticalAlignment"),
        wrap,
        fill_type: text_child(n, "fillType"),
        data_format,
    }
}

/// The fonts, line widths and formats of a template, in order.
fn read_palettes(root: &XmlElement) -> (r: (Vec<MxlRawFont>, Vec<i64>, Vec<MxlRawFormat>))
    ensures
        r.0@.len() == children_named(root@, "font"@, ns_d()).len(),
        forall|k: int| 0 <= k < r.0@.len() ==> font_read(#[trigger] r.0@[k], children_named(root@, "font"@, ns_d())[k]),
        r.1@.len() == children_named(root@, "line"@, ns_d()).len(),
        forall|k: int| 0 <= k < r.1@.len() ==> #[trigger] r.1@[k] as int == attr_int(children_named(root@, "line"@, ns_d())[k], "width"@),
        r.2@.len() == children_named(root@, "format"@, ns_d()).len(),
        forall|k: int| 0 <= k < r.2@.len() ==> format_read(#[trigger] r.2@[k], children_named(root@, "format"@, ns_d())[k]),
{
    let ns = Some("http://v8.1c.ru/8.2/data/spreadsheet");
    let fs = crate::xml::children_with(root, "font", ns);
    let mut fonts: Vec<MxlRawFont> = Vec::new();
    let mut k: usize = 0;
    while k < fs.len()
        invariant
            k <= fs@.len(),
            fs@.len() == children_named(root@, "font"@, ns_d()).len(),
            forall|j: int| 0 <= j < fs@.len() ==> (#[trigger] fs@[j])@ == children_named(root@, "font"@, ns_d())[j],
            fonts@.len() == k,
            forall|j: int| 0 <= j < k ==> font_read(#[trigger] fonts@[j], children_named(root@, "font"@, ns_d())[j]),
        decreases fs.len() - k,
    {
        fonts.push(read_font(fs[k]));
        k = k + 1;
    }
    let ls = crate::xml::children_with(root, "line", ns);
    let mut lines: Vec<i64> = Vec::new();
    let mut k: usize = 0;
    while k < ls.len()
        invariant
            k <= ls@.len(),
            ls@.len() == children_named(root@, "line"@, ns_d()).len(),
            forall|j: int| 0 <= j < ls@.len() ==> (#[trigger] ls@[j])@ == children_named(root@, "line"@, ns_d())[j],
            lines@.len() == k,
            forall|j: int| 0 <= j < k ==> #[trigger] lines@[j] as int == attr_int(children_named(root@, "line"@, ns_d())[j], "width"@),
        decreases ls.len() - k,
    {
        lines.push(attr_int_exec(ls[k], "width"));
        k = k + 1;
    }
    let ms = crate::xml::children_with(root, "format", ns);
    let mut formats: Vec<MxlRawFormat> = Vec::new();
    let mut k: usize = 0;
    while k < ms.len()
        invariant
            k <= ms@.len(),
            ms@.len() == children_named(root@, "format"@, ns_d()).len(),
            forall|j: int| 0 <= j < ms@.len() ==> (#[trigger] ms@[j])@ == children_named(root@, "format"@, ns_d())[j],
            formats@.len() == k,
            forall|j: int| 0 <= j < k ==> format_read(#[trigger] formats@[j], children_named(root@, "format"@, ns_d())[j]),
        decreases ms.len() - k,
    {
        formats.push(read_format(ms[k]));
        k = k + 1;
    }
    (fonts, lines, formats)
}

/// The slot of a key is where the keys below it end.
proof fn lemma_key_slot<V>(s: Seq<(int, V)>, key: int, k: int)
    requires
        sorted_keys(s),
        0 <= k <= s.len(),
        forall|j: int| 0 <= j < k ==> s[j].0 < key,
    ensures
        k <= key_slot(s, key, k) <= s.len(),
        forall|j: int| 0 <= j < key_slot(s, key, k) ==> s[j].0 < key,
        key_slot(s, key, k) < s.len() ==> s[key_slot(s, key, k)].0 >= key,
    decreases s.len() - k,
{
    if k < s.len() && s[k].0 < key {
        lemma_key_slot(s, key, k + 1);
    }
}

/// Setting a key keeps a list sorted by key.
pub proof fn lemma_upsert_sorted<V>(s: Seq<(int, V)>, key: int, v: V)
    requires
        sorted_keys(s),
    ensures
        sorted_keys(upsert(s, key, v)),
{
    lemma_key_slot(s, key, 0);
    let p = key_slot(s, key, 0);
    let r = upsert(s, key, v);
    if p < s.len() && s[p].0 == key {
        assert forall|a: int, b: int| 0 <= a < b < r.len() implies r[a].0 < r[b].0 by {
            assert(r[a].0 == s[a].0);
            assert(r[b].0 == s[b].0);
        }
    } else {
        assert forall|a: int, b: int| 0 <= a < b < r.len() implies r[a].0 < r[b].0 by {
            if a < p && b < p {
            } else if a < p && b == p {
            } else if a < p {
                assert(r[b] == s[b - 1]);
            } else if a == p {
                assert(r[b] == s[b - 1]);
                assert(s[p].0 >= key);
                if b - 1 > p {
                    assert(s[p].0 < s[b - 1].0);
                }
            } else {
                assert(r[a] == s[a - 1]);
                assert(r[b] == s[b - 1]);
            }
        }
    }
}

pub open spec fn pairs_view(v: Seq<(i64, i64)>) -> Seq<(int, int)> {
    v.map_values(|p: (i64, i64)| (p.0 as int, p.1 as int))
}

pub(crate) fn upsert_pair(v: &mut Vec<(i64, i64)>, key: i64, val: i64)
    ensures
        pairs_view(final(v)@) == upsert(pairs_view(old(v)@), key as int, val as int),
{
    let ghost sv = pairs_view(v@);
    let mut p: usize = 0;
    while p < v.len() && v[p].0 < key
        invariant
            p <= v@.len(),
            sv == pairs_view(v@),
            key_slot(sv, key as int, 0) == key_slot(sv, key as int, p as int),
        decreases v.len() - p,
    {
        p = p + 1;
    }
    if p < v.len() && v[p].0 == key {
        v.set(p, (key, val));
        assert(pairs_view(v@) =~= sv.update(p as int, (key as int, val as int)));
    } else {
        v.insert(p, (key, val));
        assert(pairs_view(v@) =~= sv.insert(p as int, (key as int, val as int)));
    }
}

/// The format of each column, in column order.
fn read_column_formats(root: &XmlElement) -> (r: (i64, Vec<(i64, i64)>))
    ensures
        r.0 as int == total_columns(root@),
        pairs_view(r.1@) == column_formats(column_items(root@)),
        sorted_keys(pairs_view(r.1@)),
{
    let ns = Some("http://v8.1c.ru/8.2/data/spreadsheet");
    let mut cols: Vec<(i64, i64)> = Vec::new();
    assert(pairs_view(cols@) =~= Seq::<(int, int)>::empty());
    match crate::xml::child(root, "columns", ns) {
        None => {
            assert(column_items(root@) =~= Seq::<XmlNode>::empty());
            (0, cols)
        },
        Some(c) => {
            let total = int_child_or(c, "size", 0);
            let items = crate::xml::children_with(c, "columnsItem", ns);
            let ghost iv = column_items(root@);
            assert(iv == children_named(c@, "columnsItem"@, ns_d()));
            let mut k: usize = 0;
            assert(iv.take(0) =~= Seq::<XmlNode>::empty());
            while k < items.len()
                invariant
                    k <= items@.len(),
                    items@.len() == iv.len(),
                    forall|j: int| 0 <= j < items@.len() ==> (#[trigger] items@[j])@ == iv[j],
                    pairs_view(cols@) == column_formats(iv.take(k as int)),
                    sorted_keys(pairs_view(cols@)),
                decreases items.len() - k,
            {
                let item = items[k];
                assert(iv.take(k + 1).drop_last() =~= iv.take(k as int));
                assert(iv.take(k + 1).last() == item@);
                let idx = int_child_or(item, "index", 0);
                let fmt = match crate::xml::child(item, "column", Some("http://v8.1c.ru/8.2/data/spreadsheet")) {
                    Some(col) => int_child_or(col, "formatIndex", 0),
                    None => 0,
                };
                proof {
                    lemma_upsert_sorted(pairs_view(cols@), idx as int, fmt as int);
                }
                upsert_pair(&mut cols, idx, fmt);
                k = k + 1;
            }
            assert(iv.take(k as int) =~= iv);
            (total, cols)
        },
    }
}

pub open spec fn merges_view(v: Seq<((i64, i64), (i64, i64))>) -> Seq<((int, int), (int, int))> {
    v.map_values(|m: ((i64, i64), (i64, i64))| ((m.0.0 as int, m.0.1 as int), (m.1.0 as int, m.1.1 as int)))
}

fn read_merges(root: &XmlElement) -> (r: Vec<((i64, i64), (i64, i64))>)
    ensures
        merges_view(r@) == merges_read(children_named(root@, "merge"@, ns_d())),
{
    let ms = crate::xml::children_with(root, "merge", Some("http://v8.1c.ru/8.2/data/spreadsheet"));
    let ghost mv = children_named(root@, "merge"@, ns_d());
    let mut r: Vec<((i64, i64), (i64, i64))> = Vec::new();
    let mut k: usize = 0;
    assert(mv.take(0) =~= Seq::<XmlNode>::empty());
    assert(merges_view(r@) =~= Seq::<((int, int), (int, int))>::empty());
    while k < ms.len()
        invariant
            k <= ms@.len(),
            ms@.len() == mv.len(),
            forall|j: int| 0 <= j < ms@.len() ==> (#[trigger] ms@[j])@ == mv[j],
            merges_view(r@) == merges_read(mv.take(k as int)),
        decreases ms.len() - k,
    {
        let m = ms[k];
        assert(mv.take(k + 1).drop_last() =~= mv.take(k as int));
        assert(mv.take(k + 1).last() == m@);
        let e = (
            (int_child_or(m, "r", 0), int_child_or(m, "c", 0)),
            (int_child_or(m, "w", 0), int_child_or(m, "h", 0)),
        );
        let ghost ev = ((e.0.0 as int, e.0.1 as int), (e.1.0 as int, e.1.1 as int));
        assert(ev == merge_entry(m@));
        let ghost sv = merges_view(r@);
        let mut p: usize = 0;
        while p < r.len() && !(r[p].0.0 == e.0.0 && r[p].0.1 == e.0.1)
            invariant
                p <= r@.len(),
                sv == merges_view(r@),
                merge_slot(sv, ev.0, 0) == merge_slot(sv, ev.0, p as int),
                ev == ((e.0.0 as int, e.0.1 as int), (e.1.0 as int, e.1.1 as int)),
            decreases r.len() - p,
        {
            assert(sv[p as int].0 == (r@[p as int].0.0 as int, r@[p as int].0.1 as int));
            p = p + 1;
        }
        if p < r.len() {
            assert(sv[p as int].0 == ev.0);
            r.set(p, e);
            assert(merges_view(r@) =~= sv.update(p as int, ev));
        } else {
            r.push(e);
            assert(merges_view(r@) =~= sv.push(ev));
        }
        k = k + 1;
    }
    assert(mv.take(k as int) =~= mv);
    r
}

pub open spec fn areas_view(v: Seq<MxlNamedItem>) -> Seq<(Seq<char>, int, int)> {
    v.map_values(|a: MxlNamedItem| (a.name@, a.begin_row as int, a.end_row as int))
}

fn read_areas(root: &XmlElement) -> (r: Vec<MxlNamedItem>)
    ensures
        areas_view(r@) == areas_read(children_named(root@, "namedItem"@, ns_d())),
{
    let ns = Some("http://v8.1c.ru/8.2/data/spreadsheet");
    let items = crate::xml::children_with(root, "namedItem", ns);
    let ghost iv = children_named(root@, "namedItem"@, ns_d());
    let mut r: Vec<MxlNamedItem> = Vec::new();
    let mut k: usize = 0;
    assert(iv.take(0) =~= Seq::<XmlNode>::empty());
    assert(areas_view(r@) =~= Seq::<(Seq<char>, int, int)>::empty());
    proof {
        reveal_strlit("NamedItemCells");
        reveal_strlit("Rows");
    }
    while k < items.len()
        invariant
            k <= items@.len(),
            items@.len() == iv.len(),
            forall|j: int| 0 <= j < items@.len() ==> (#[trigger] items@[j])@ == iv[j],
            areas_view(r@) == areas_read(iv.take(k as int)),
        decreases items.len() - k,
    {
        let n = items[k];
        assert(iv.take(k + 1).drop_last() =~= iv.take(k as int));
        assert(iv.take(k + 1).last() == n@);
        match crate::xml::child(n, "area", Some("http://v8.1c.ru/8.2/data/spreadsheet")) {
            Some(area) => {
                let ty = crate::xml::attribute_local(n, "type");
                let cells = match &ty {
                    Some(t) => crate::text::eq_str(t, "NamedItemCells"),
                    None => false,
                };
                assert(cells == (attribute_by_local_name(n@, "type"@) == Some("NamedItemCells"@))) by {
                    if let Some(t) = ty {
                        assert(cells ==> t@ =~= "NamedItemCells"@);
                    }
                }
                let at = text_child(area, "type");
                let rows_kind = crate::text::eq_str(&at, "Rows");
                assert(rows_kind == (at@ == "Rows"@)) by {
                    assert(rows_kind ==> at@ =~= "Rows"@);
                }
                assert(child_named(n@, "area"@, ns_d()) == Some(area@));
                if cells && rows_kind {
                    let ghost before = r@;
                    let item = MxlNamedItem {
                        name: text_child(n, "name"),
                        begin_row: int_child_or(area, "beginRow", 0),
                        end_row: int_child_or(area, "endRow", 0),
                    };
                    let ghost iv2 = (item.name@, item.begin_row as int, item.end_row as int);
                    r.push(item);
                    assert(areas_view(r@) =~= areas_view(before).push(iv2));
                }
            },
            None => {},
        }
        k = k + 1;
    }
    assert(iv.take(k as int) =~= iv);
    r
}

pub open spec fn cell_view(c: MxlDecompiledCell) -> CellRead {
    (c.col as int, c.format_idx as int, opt_view(c.param), opt_view(c.detail), opt_view(c.text))
}

pub open spec fn cells_view(v: Seq<MxlDecompiledCell>) -> Seq<CellRead> {
    v.map_values(|c: MxlDecompiledCell| cell_view(c))
}

pub open spec fn row_view(r: MxlDecompiledRow) -> RowRead {
    (r.format_idx as int, cells_view(r.cells@), r.empty)
}

pub open spec fn rows_view(v: Seq<(i64, MxlDecompiledRow)>) -> Seq<(int, RowRead)> {
    v.map_values(|e: (i64, MxlDecompiledRow)| (e.0 as int, row_view(e.1)))
}

fn non_empty_exec(t: Vec<char>) -> (r: Option<Vec<char>>)
    ensures
        opt_view(r) == non_empty(t@),
{
    if t.len() > 0 {
        Some(t)
    } else {
        None
    }
}

fn read_cell(col: i64, cell: &XmlElement) -> (r: MxlDecompiledCell)
    ensures
        cell_view(r) == cell_read(col as int, cell@),
{
    let text = match crate::xml::child(cell, "tl", Some("http://v8.1c.ru/8.2/data/spreadsheet")) {
        Some(tl) => match content_text_exec(tl) {
            Some(t) => non_empty_exec(t),
            None => None,
        },
        None => None,
    };
    MxlDecompiledCell {
        col,
        format_idx: int_child_or(cell, "f", 0),
        param: non_empty_exec(text_child(cell, "parameter")),
        detail: non_empty_exec(text_child(cell, "detailParameter")),
        text,
    }
}

proof fn lemma_cells_none_grows(gv: Seq<XmlNode>, k: int, n: int)
    requires
        0 <= k <= n <= gv.len(),
        cells_read(gv.take(k)) is None,
    ensures
        cells_read(gv.take(n)) is None,
    decreases n - k,
{
    if n > k {
        lemma_cells_none_grows(gv, k, n - 1);
        assert(gv.take(n).drop_last() =~= gv.take(n - 1));
    }
}

fn read_cells(row: &XmlElement) -> (r: Option<Vec<MxlDecompiledCell>>)
    ensures
        match cells_read(children_named(row@, "c"@, ns_d())) {
            None => r is None,
            Some((_, cs)) => r matches Some(v) && cells_view(v@) == cs,
        },
{
    let groups = crate::xml::children_with(row, "c", Some("http://v8.1c.ru/8.2/data/spreadsheet"));
    let ghost gv = children_named(row@, "c"@, ns_d());
    let mut cells: Vec<MxlDecompiledCell> = Vec::new();
    let mut col: i64 = -1;
    let mut k: usize = 0;
    assert(gv.take(0) =~= Seq::<XmlNode>::empty());
    assert(cells_view(cells@) =~= Seq::<CellRead>::empty());
    while k < groups.len()
        invariant
            k <= groups@.len(),
            groups@.len() == gv.len(),
            gv == children_named(row@, "c"@, ns_d()),
            forall|j: int| 0 <= j < groups@.len() ==> (#[trigger] groups@[j])@ == gv[j],
            cells_read(gv.take(k as int)) == Some((col as int, cells_view(cells@))),
        decreases groups.len() - k,
    {
        let g = groups[k];
        assert(gv.take(k + 1).drop_last() =~= gv.take(k as int));
        assert(gv.take(k + 1).last() == g@);
        let c: i64 = match crate::xml::child(g, "i", Some("http://v8.1c.ru/8.2/data/spreadsheet")) {
            Some(ie) => {
                let given = match &ie.text {
                    Some(x) => crate::numbers::parse_i64(x),
                    None => None,
                };
                match given {
                    Some(i) => i,
                    None => {
                        if col == i64::MAX {
                            proof {
                                assert(cells_read(gv.take(k + 1)) is None);
                                lemma_cells_none_grows(gv, k + 1, gv.len() as int);
                                assert(gv.take(gv.len() as int) =~= gv);
                            }
                            return None;
                        }
                        col + 1
                    },
                }
            },
            None => {
                if col == i64::MAX {
                    proof {
                        assert(cells_read(gv.take(k + 1)) is None);
                        lemma_cells_none_grows(gv, k + 1, gv.len() as int);
                        assert(gv.take(gv.len() as int) =~= gv);
                    }
                    return None;
                }
                col + 1
            },
        };
        match crate::xml::child(g, "c", Some("http://v8.1c.ru/8.2/data/spreadsheet")) {
            Some(cell) => {
                let ghost before = cells@;
                let x = read_cell(c, cell);
                cells.push(x);
                assert(cells_view(cells@) =~= cells_view(before).push(cell_view(x)));
            },
            None => {},
        }
        col = c;
        k = k + 1;
    }
    assert(gv.take(k as int) =~= gv);
    Some(cells)
}

fn copy_text(o: &Option<Vec<char>>) -> (r: Option<Vec<char>>)
    ensures
        opt_view(r) == opt_view(*o),
{
    match o {
        Some(t) => Some(crate::text::to_vec(t)),
        None => None,
    }
}

fn copy_row(r: &MxlDecompiledRow) -> (c: MxlDecompiledRow)
    ensures
        row_view(c) == row_view(*r),
{
    let mut cells: Vec<MxlDecompiledCell> = Vec::new();
    let mut k: usize = 0;
    while k < r.cells.len()
        invariant
            k <= r.cells@.len(),
            cells_view(cells@) == cells_view(r.cells@).take(k as int),
        decreases r.cells.len() - k,
    {
        let x = &r.cells[k];
        let y = MxlDecompiledCell {
            col: x.col,
            format_idx: x.format_idx,
            param: copy_text(&x.param),
            detail: copy_text(&x.detail),
            text: copy_text(&x.text),
        };
        let ghost before = cells@;
        cells.push(y);
        assert(cells_view(cells@) =~= cells_view(before).push(cell_view(y)));
        assert(cells_view(r.cells@).take(k + 1) =~= cells_view(r.cells@).take(k as int).push(cell_view(r.cells@[k as int])));
        k = k + 1;
    }
    assert(cells_view(r.cells@).take(k as int) =~= cells_view(r.cells@));
    MxlDecompiledRow { format_idx: r.format_idx, cells, empty: r.empty }
}

fn upsert_row(v: &mut Vec<(i64, MxlDecompiledRow)>, key: i64, row: MxlDecompiledRow)
    ensures
        rows_view(final(v)@) == upsert(rows_view(old(v)@), key as int, row_view(row)),
{
    let ghost sv = rows_view(v@);
    let ghost rv = row_view(row);
    let mut p: usize = 0;
    while p < v.len() && v[p].0 < key
        invariant
            p <= v@.len(),
            sv == rows_view(v@),
            key_slot(sv, key as int, 0) == key_slot(sv, key as int, p as int),
        decreases v.len() - p,
    {
        p = p + 1;
    }
    if p < v.len() && v[p].0 == key {
        v.set(p, (key, row));
        assert(rows_view(v@) =~= sv.update(p as int, (key as int, rv)));
    } else {
        v.insert(p, (key, row));
        assert(rows_view(v@) =~= sv.insert(p as int, (key as int, rv)));
    }
}

/// Sets a row for the indices `from..=to`.
fn upsert_row_range(v: &mut Vec<(i64, MxlDecompiledRow)>, from: i64, to: i64, row: &MxlDecompiledRow)
    requires
        sorted_keys(rows_view(old(v)@)),
    ensures
        rows_view(final(v)@) == upsert_range(rows_view(old(v)@), from as int, to as int, row_view(*row)),
        sorted_keys(rows_view(final(v)@)),
{
    let ghost target = upsert_range(rows_view(v@), from as int, to as int, row_view(*row));
    let mut r: i128 = from as i128;
    while r <= to as i128
        invariant
            from <= r <= to as i128 + 1 || r == from,
            r >= from,
            sorted_keys(rows_view(v@)),
            target == upsert_range(rows_view(v@), r as int, to as int, row_view(*row)),
        decreases to as i128 + 1 - r,
    {
        proof {
            lemma_upsert_sorted(rows_view(v@), r as int, row_view(*row));
        }
        upsert_row(v, r as i64, copy_row(row));
        r = r + 1;
    }
}

proof fn lemma_rows_none_grows(iv: Seq<XmlNode>, k: int, n: int)
    requires
        0 <= k <= n <= iv.len(),
        rows_read(iv.take(k)) is None,
    ensures
        rows_read(iv.take(n)) is None,
    decreases n - k,
{
    if n > k {
        lemma_rows_none_grows(iv, k, n - 1);
        assert(iv.take(n).drop_last() =~= iv.take(n - 1));
    }
}

/// The rows of a template by index, in index order, or `None` where a column
/// passes `i64::MAX`.
fn read_rows(root: &XmlElement) -> (r: Option<Vec<(i64, MxlDecompiledRow)>>)
    ensures
        match rows_read(children_named(root@, "rowsItem"@, ns_d())) {
            None => r is None,
            Some(s) => r matches Some(v) && rows_view(v@) == s && sorted_keys(s),
        },
{
    let items = crate::xml::children_with(root, "rowsItem", Some("http://v8.1c.ru/8.2/data/spreadsheet"));
    let ghost iv = children_named(root@, "rowsItem"@, ns_d());
    let mut rows: Vec<(i64, MxlDecompiledRow)> = Vec::new();
    let mut k: usize = 0;
    assert(iv.take(0) =~= Seq::<XmlNode>::empty());
    assert(rows_view(rows@) =~= Seq::<(int, RowRead)>::empty());
    while k < items.len()
        invariant
            k <= items@.len(),
            items@.len() == iv.len(),
            iv == children_named(root@, "rowsItem"@, ns_d()),
            forall|j: int| 0 <= j < items@.len() ==> (#[trigger] items@[j])@ == iv[j],
            rows_read(iv.take(k as int)) == Some(rows_view(rows@)),
            sorted_keys(rows_view(rows@)),
        decreases items.len() - k,
    {
        let item = items[k];
        assert(iv.take(k + 1).drop_last() =~= iv.take(k as int));
        assert(iv.take(k + 1).last() == item@);
        let idx = int_child_or(item, "index", 0);
        let to = int_child_or(item, "indexTo", idx);
        match crate::xml::child(item, "row", Some("http://v8.1c.ru/8.2/data/spreadsheet")) {
            None => {},
            Some(row) => {
                let fmt = int_child_or(row, "formatIndex", 0);
                let et = text_child(row, "empty");
                proof {
                    reveal_strlit("true");
                }
                let empty = crate::text::eq_str(&et, "true");
                assert(empty == (et@ == "true"@)) by {
                    assert(empty ==> et@ =~= "true"@);
                }
                if empty {
                    let value = MxlDecompiledRow { format_idx: fmt, cells: Vec::new(), empty: true };
                    assert(cells_view(value.cells@) =~= Seq::<CellRead>::empty());
                    upsert_row_range(&mut rows, idx, to, &value);
                } else {
                    match read_cells(row) {
                        None => {
                            proof {
                                assert(rows_read(iv.take(k + 1)) is None);
                                lemma_rows_none_grows(iv, k + 1, iv.len() as int);
                                assert(iv.take(iv.len() as int) =~= iv);
                            }
                            return None;
                        },
                        Some(cells) => {
                            let value = MxlDecompiledRow { format_idx: fmt, cells, empty: false };
                            upsert_row_range(&mut rows, idx, to, &value);
                        },
                    }
                }
            },
        }
        k = k + 1;
    }
    assert(iv.take(k as int) =~= iv);
    Some(rows)
}

/// What the decompiler is given, as read from a template.
pub struct DecompileInputs {
    pub total_columns: i64,
    pub col_formats: Vec<(i64, i64)>,
    pub default_fmt_idx: i64,
    pub fonts: Vec<MxlRawFont>,
    pub lines: Vec<i64>,
    pub formats: Vec<MxlRawFormat>,
    pub merges: Vec<((i64, i64), (i64, i64))>,
    pub areas: Vec<MxlNamedItem>,
    pub rows: Vec<(i64, MxlDecompiledRow)>,
}

/// The inputs are those a template holds.
pub open spec fn inputs_read(inp: DecompileInputs, root: XmlNode) -> bool {
    &&& inp.total_columns as int == total_columns(root)
    &&& pairs_view(inp.col_formats@) == column_formats(column_items(root))
    &&& inp.default_fmt_idx as int == int_or(root, "defaultFormatIndex"@, 0)
    &&& inp.fonts@.len() == children_named(root, "font"@, ns_d()).len()
    &&& (forall|k: int| 0 <= k < inp.fonts@.len() ==> font_read(#[trigger] inp.fonts@[k], children_named(root, "font"@, ns_d())[k]))
    &&& inp.lines@.len() == children_named(root, "line"@, ns_d()).len()
    &&& (forall|k: int|
        0 <= k < inp.lines@.len() ==> #[trigger] inp.lines@[k] as int == attr_int(children_named(root, "line"@, ns_d())[k], "width"@))
    &&& inp.formats@.len() == children_named(root, "format"@, ns_d()).len()
    &&& (forall|k: int| 0 <= k < inp.formats@.len() ==> format_read(#[trigger] inp.formats@[k], children_named(root, "format"@, ns_d())[k]))
    &&& merges_view(inp.merges@) == merges_read(children_named(root, "merge"@, ns_d()))
    &&& areas_view(inp.areas@) == areas_read(children_named(root, "namedItem"@, ns_d()))
    &&& rows_read(children_named(root, "rowsItem"@, ns_d())) == Some(rows_view(inp.rows@))
}

/// The JSON the decompiler makes of the inputs.
pub open spec fn inputs_json(inp: DecompileInputs) -> crate::mxl_decompile::JsonValue {
    let dw = crate::mxl_decompile::default_width(inp.formats@, inp.default_fmt_idx as int);
    let (font_names, font_defs) = crate::mxl_decompile::font_naming(inp.fonts@);
    let (style_names, style_defs, f2k) = crate::mxl_decompile::decompiled_styles(inp.rows@, inp.formats@, inp.lines@, font_names);
    let areas = inp.areas@.map_values(
        |a: MxlNamedItem|
            crate::mxl_decompile::area_json(
                a,
                crate::mxl_decompile::row_map(inp.rows@),
                crate::mxl_decompile::merge_lookup(inp.merges@),
                inp.formats@,
                inp.lines@,
                f2k,
                style_names,
            ),
    );
    crate::mxl_decompile::decompiled_json(
        inp.total_columns as int,
        dw,
        crate::mxl_decompile::width_fields(
            crate::mxl_decompile::width_groups(crate::mxl_decompile::column_widths(inp.col_formats@, inp.formats@, dw)),
        ),
        font_defs,
        style_defs,
        areas,
    )
}

pub open spec fn cols_fit(cols: Seq<(int, int)>) -> bool {
    forall|k: int| 0 <= k < cols.len() ==> #[trigger] cols[k].0 != i64::MAX
}

pub open spec fn areas_fit(areas: Seq<(Seq<char>, int, int)>) -> bool {
    forall|k: int| 0 <= k < areas.len() ==> i64::MIN <= #[trigger] areas[k].2 - areas[k].1 < i64::MAX
}

pub open spec fn rows_fit(rows: Seq<(int, RowRead)>) -> bool {
    forall|r: int, c: int| 0 <= r < rows.len() && 0 <= c < rows[r].1.1.len() ==> #[trigger] rows[r].1.1[c].0 != i64::MAX
}

pub open spec fn merges_fit(ms: Seq<((int, int), (int, int))>) -> bool {
    forall|k: int| 0 <= k < ms.len() ==> #[trigger] ms[k].1.0 != i64::MAX && ms[k].1.1 != i64::MAX
}

/// Why the read template cannot be decompiled, checked in this order: a
/// column, an area, a cell's column or a merge too large.
pub open spec fn limit_error(
    cols: Seq<(int, int)>,
    areas: Seq<(Seq<char>, int, int)>,
    rows: Seq<(int, RowRead)>,
    merges: Seq<((int, int), (int, int))>,
) -> Option<Seq<char>> {
    if !cols_fit(cols) {
        Some("column index out of range"@)
    } else if !areas_fit(areas) {
        Some("area too large"@)
    } else if !rows_fit(rows) {
        Some("column index out of range"@)
    } else if !merges_fit(merges) {
        Some("merge too large"@)
    } else {
        None
    }
}

fn cols_fit_exec(v: &Vec<(i64, i64)>) -> (b: bool)
    ensures
        b == cols_fit(pairs_view(v@)),
{
    let mut k: usize = 0;
    while k < v.len()
        invariant
            k <= v@.len(),
            forall|j: int| 0 <= j < k ==> #[trigger] pairs_view(v@)[j].0 != i64::MAX,
        decreases v.len() - k,
    {
        if v[k].0 == i64::MAX {
            assert(pairs_view(v@)[k as int].0 == i64::MAX);
            return false;
        }
        k = k + 1;
    }
    true
}

fn areas_fit_exec(v: &Vec<MxlNamedItem>) -> (b: bool)
    ensures
        b == areas_fit(areas_view(v@)),
{
    let mut k: usize = 0;
    while k < v.len()
        invariant
            k <= v@.len(),
            forall|j: int| 0 <= j < k ==> i64::MIN <= #[trigger] areas_view(v@)[j].2 - areas_view(v@)[j].1 < i64::MAX,
        decreases v.len() - k,
    {
        let d: i128 = v[k].end_row as i128 - v[k].begin_row as i128;
        assert(areas_view(v@)[k as int].2 - areas_view(v@)[k as int].1 == d);
        if !(i64::MIN as i128 <= d && d < i64::MAX as i128) {
            return false;
        }
        k = k + 1;
    }
    true
}

fn rows_fit_exec(v: &Vec<(i64, MxlDecompiledRow)>) -> (b: bool)
    ensures
        b == rows_fit(rows_view(v@)),
{
    let ghost rv = rows_view(v@);
    let mut r: usize = 0;
    while r < v.len()
        invariant
            r <= v@.len(),
            rv == rows_view(v@),
            forall|i: int, c: int| 0 <= i < r && 0 <= c < rv[i].1.1.len() ==> #[trigger] rv[i].1.1[c].0 != i64::MAX,
        decreases v.len() - r,
    {
        let cells = &v[r].1.cells;
        assert(rv[r as int].1.1 == cells_view(cells@));
        let mut c: usize = 0;
        while c < cells.len()
            invariant
                c <= cells@.len(),
                r < v@.len(),
                rv == rows_view(v@),
                rv[r as int].1.1 == cells_view(cells@),
                forall|i: int, j: int| 0 <= i < r && 0 <= j < rv[i].1.1.len() ==> #[trigger] rv[i].1.1[j].0 != i64::MAX,
                forall|j: int| 0 <= j < c ==> #[trigger] rv[r as int].1.1[j].0 != i64::MAX,
            decreases cells.len() - c,
        {
            assert(rv[r as int].1.1[c as int].0 == cells@[c as int].col);
            if cells[c].col == i64::MAX {
                return false;
            }
            c = c + 1;
        }
        r = r + 1;
    }
    true
}

fn merges_fit_exec(v: &Vec<((i64, i64), (i64, i64))>) -> (b: bool)
    ensures
        b == merges_fit(merges_view(v@)),
{
    let mut k: usize = 0;
    while k < v.len()
        invariant
            k <= v@.len(),
            forall|j: int| 0 <= j < k ==> #[trigger] merges_view(v@)[j].1.0 != i64::MAX && merges_view(v@)[j].1.1 != i64::MAX,
        decreases v.len() - k,
    {
        assert(merges_view(v@)[k as int].1 == (v@[k as int].1.0 as int, v@[k as int].1.1 as int));
        if v[k].1.0 == i64::MAX || v[k].1.1 == i64::MAX {
            return false;
        }
        k = k + 1;
    }
    true
}

/// How many rows, merges, row areas and fonts a decompiled template has.
pub struct DecompileCounts {
    pub rows: usize,
    pub merges: usize,
    pub areas: usize,
    pub fonts: usize,
}

/// The result of decompiling a parsed template: `column index overflow` where
/// a row's columns pass `i64::MAX`, else the first limit error of what was
/// read, else the JSON of what was read.
pub open spec fn decompile_done(r: Result<(OrderedJson, DecompileCounts), Vec<char>>, root: XmlNode) -> bool {
    match rows_read(children_named(root, "rowsItem"@, ns_d())) {
        None => r matches Err(m) && m@ == "column index overflow"@,
        Some(rows) => match limit_error(
            column_formats(column_items(root)),
            areas_read(children_named(root, "namedItem"@, ns_d())),
            rows,
            merges_read(children_named(root, "merge"@, ns_d())),
        ) {
            Some(e) => r matches Err(m) && m@ == e,
            None => r matches Ok((j, counts)) && exists|inp: DecompileInputs|
                #[trigger] inputs_read(inp, root) && crate::mxl_decompile::json_view(j) == inputs_json(inp) && counts.rows
                    == inp.rows@.len() && counts.merges == inp.merges@.len() && counts.areas == inp.areas@.len()
                    && counts.fonts == inp.fonts@.len(),
        },
    }
}

/// Decompiles a parsed template: reads its palettes, column formats, merges,
/// row areas and rows, checks their limits, and makes the JSON; with it come
/// the counts of what was read.
pub fn mxl_decompile_tree(root: &XmlElement) -> (r: Result<(OrderedJson, DecompileCounts), Vec<char>>)
    ensures
        decompile_done(r, root@),
{
    let (fonts, lines, formats) = read_palettes(root);
    let (total, cols) = read_column_formats(root);
    let default_fmt = int_child_or(root, "defaultFormatIndex", 0);
    let merges = read_merges(root);
    let areas = read_areas(root);
    let rows = match read_rows(root) {
        Some(r) => r,
        None => {
            return Err(crate::text::chars_of("column index overflow"));
        },
    };
    if !cols_fit_exec(&cols) {
        return Err(crate::text::chars_of("column index out of range"));
    }
    if !areas_fit_exec(&areas) {
        return Err(crate::text::chars_of("area too large"));
    }
    if !rows_fit_exec(&rows) {
        return Err(crate::text::chars_of("column index out of range"));
    }
    if !merges_fit_exec(&merges) {
        return Err(crate::text::chars_of("merge too large"));
    }
    proof {
        let pv = pairs_view(cols@);
        assert forall|a: int, b: int| 0 <= a < b < cols@.len() implies cols@[a].0 < cols@[b].0 by {
            assert(pv[a].0 < pv[b].0);
        }
        assert forall|k: int| 0 <= k < cols@.len() implies cols@[k].0 < i64::MAX by {
            assert(pv[k].0 != i64::MAX);
        }
        let av = areas_view(areas@);
        assert forall|a: int| 0 <= a < areas@.len() implies areas@[a].end_row - areas@[a].begin_row < i64::MAX by {
            assert(av[a].2 - av[a].1 < i64::MAX);
        }
        let rv = rows_view(rows@);
        assert forall|r: int, c: int| 0 <= r < rows@.len() && 0 <= c < rows@[r].1.cells@.len() implies rows@[r].1.cells@[c].col
            < i64::MAX by {
            assert(rv[r].1.1[c].0 != i64::MAX);
        }
        let mv = merges_view(merges@);
        assert forall|k: int| 0 <= k < merges@.len() implies merges@[k].1.0 < i64::MAX && merges@[k].1.1 < i64::MAX by {
            assert(mv[k].1.0 != i64::MAX && mv[k].1.1 != i64::MAX);
        }
    }
    let j = crate::mxl_decompile::mxl_decompile_json(total, &cols, default_fmt, &fonts, &lines, &formats, &merges, &areas, &rows);
    let counts = DecompileCounts { rows: rows.len(), merges: merges.len(), areas: areas.len(), fonts: fonts.len() };
    let inp = DecompileInputs {
        total_columns: total,
        col_formats: cols,
        default_fmt_idx: default_fmt,
        fonts,
        lines,
        formats,
        merges,
        areas,
        rows,
    };
    assert(inputs_read(inp, root@));
    assert(crate::mxl_decompile::json_view(j) == inputs_json(inp));
    Ok((j, counts))
}

/// Decompiles a template given as text: the parser's message for a text that
/// is not XML, else the result of `mxl_decompile_tree` on its root element.
pub fn mxl_decompile_text(text: &[char]) -> (r: Result<(OrderedJson, DecompileCounts), Vec<char>>)
    ensures
        match crate::xml::xml_tree(crate::skd_apply::without_boms(text@)) {
            Err(e) => r matches Err(m) && m@ == e,
            Ok(root) => decompile_done(r, root),
        },
{
    let body = crate::xml::strip_boms(text);
    let s = crate::external::string_of(&body);
    match crate::xml::xml_document(s.as_str()) {
        Ok(root) => mxl_decompile_tree(&root),
        Err(e) => Err(e),
    }
}

} // verus!
