//! Turning a spreadsheet template back into its JSON description: the fonts,
//! styles and areas it is made of, and the JSON text with its fields in order.
use vstd::prelude::*;
use crate::external::{json_quote, json_string, lowercase_of, to_lowercase};
use crate::numbers::{int_text, i64_text};
use crate::skd_fragments::push_line;
use crate::text::{chars_of, contains, contains_str, eq_chars, eq_str, join, join_str, push_chars, push_str, views};

verus! {

/// A font of a template as it is stored.
pub struct MxlRawFont {
    pub face: Vec<char>,
    pub size: i64,
    pub bold: bool,
    pub italic: bool,
    pub underline: bool,
    pub strikeout: bool,
}

/// A cell format of a template as it is stored; `-1` marks an unset index.
pub struct MxlRawFormat {
    pub font_idx: i64,
    pub lb: i64,
    pub tb: i64,
    pub rb: i64,
    pub bb: i64,
    pub width: i64,
    pub height: i64,
    pub ha: Vec<char>,
    pub va: Vec<char>,
    pub wrap: bool,
    pub fill_type: Vec<char>,
    pub data_format: Vec<char>,
}

/// A cell of a stored row: its column, format, and what it shows.
pub struct MxlDecompiledCell {
    pub col: i64,
    pub format_idx: i64,
    pub param: Option<Vec<char>>,
    pub detail: Option<Vec<char>>,
    pub text: Option<Vec<char>>,
}

/// A stored row: its format, its cells, and whether it is marked empty.
pub struct MxlDecompiledRow {
    pub format_idx: i64,
    pub cells: Vec<MxlDecompiledCell>,
    pub empty: bool,
}

/// A named area of rows.
pub struct MxlNamedItem {
    pub name: Vec<char>,
    pub begin_row: i64,
    pub end_row: i64,
}

/// A JSON value whose object fields keep the order they were added in.
pub enum OrderedJson {
    Obj(Vec<(Vec<char>, OrderedJson)>),
    Arr(Vec<OrderedJson>),
    Str(Vec<char>),
    Int(i64),
    Bool(bool),
}

/// The mathematical value of an `OrderedJson`.
pub enum JsonValue {
    Obj(Seq<(Seq<char>, JsonValue)>),
    Arr(Seq<JsonValue>),
    Str(Seq<char>),
    Int(int),
    Bool(bool),
}

pub open spec fn json_view(j: OrderedJson) -> JsonValue
    decreases j,
{
    match j {
        OrderedJson::Obj(f) => JsonValue::Obj(
            Seq::new(
                f@.len(),
                |i: int|
                    {
                        if 0 <= i < f@.len() {
                            proof {
                                assert(decreases_to!(j => f));
                                assert(decreases_to!(f => f@));
                                assert(decreases_to!(f@ => f@[i]));
                                assert(decreases_to!(f@[i] => f@[i].1));
                            }
                            (f@[i].0@, json_view(f@[i].1))
                        } else {
                            (Seq::empty(), JsonValue::Bool(false))
                        }
                    },
            ),
        ),
        OrderedJson::Arr(a) => JsonValue::Arr(
            Seq::new(
                a@.len(),
                |i: int|
                    {
                        if 0 <= i < a@.len() {
                            proof {
                                assert(decreases_to!(j => a));
                                assert(decreases_to!(a => a@));
                                assert(decreases_to!(a@ => a@[i]));
                            }
                            json_view(a@[i])
                        } else {
                            JsonValue::Bool(false)
                        }
                    },
            ),
        ),
        OrderedJson::Str(s) => JsonValue::Str(s@),
        OrderedJson::Int(i) => JsonValue::Int(i as int),
        OrderedJson::Bool(b) => JsonValue::Bool(b),
    }
}

impl View for OrderedJson {
    type V = JsonValue;

    open spec fn view(&self) -> JsonValue {
        json_view(*self)
    }
}

/// The values of object fields.
pub open spec fn field_views(f: Seq<(Vec<char>, OrderedJson)>) -> Seq<(Seq<char>, JsonValue)> {
    f.map_values(|e: (Vec<char>, OrderedJson)| (e.0@, json_view(e.1)))
}

/// The values of array items.
pub open spec fn item_views(a: Seq<OrderedJson>) -> Seq<JsonValue> {
    a.map_values(|e: OrderedJson| json_view(e))
}

pub proof fn lemma_obj_view(f: Vec<(Vec<char>, OrderedJson)>)
    ensures
        json_view(OrderedJson::Obj(f)) == JsonValue::Obj(field_views(f@)),
{
    if let JsonValue::Obj(x) = json_view(OrderedJson::Obj(f)) {
        assert(x =~= field_views(f@));
    }
}

pub proof fn lemma_arr_view(a: Vec<OrderedJson>)
    ensures
        json_view(OrderedJson::Arr(a)) == JsonValue::Arr(item_views(a@)),
{
    if let JsonValue::Arr(x) = json_view(OrderedJson::Arr(a)) {
        assert(x =~= item_views(a@));
    }
}

/// Appends a field to the fields of an object under construction.
fn push_field(fields: &mut Vec<(Vec<char>, OrderedJson)>, key: &str, value: OrderedJson)
    ensures
        field_views(final(fields)@) == field_views(old(fields)@).push((key@, value@)),
{
    let ghost v = value@;
    fields.push((chars_of(key), value));
    assert(field_views(fields@) =~= field_views(old(fields)@).push((key@, v)));
}

/// An object from its fields.
fn obj(fields: Vec<(Vec<char>, OrderedJson)>) -> (r: OrderedJson)
    ensures
        r@ == JsonValue::Obj(field_views(fields@)),
{
    proof {
        lemma_obj_view(fields);
    }
    OrderedJson::Obj(fields)
}

/// An array from its items.
fn arr(items: Vec<OrderedJson>) -> (r: OrderedJson)
    ensures
        r@ == JsonValue::Arr(item_views(items@)),
{
    proof {
        lemma_arr_view(items);
    }
    OrderedJson::Arr(items)
}

fn str_of(s: &str) -> (r: OrderedJson)
    ensures
        r@ == JsonValue::Str(s@),
{
    OrderedJson::Str(chars_of(s))
}

/// A copy of a JSON value.
pub fn json_copy(j: &OrderedJson) -> (r: OrderedJson)
    ensures
        r@ == j@,
    decreases j,
{
    match j {
        OrderedJson::Obj(f) => {
            let mut out: Vec<(Vec<char>, OrderedJson)> = Vec::new();
            let mut i: usize = 0;
            while i < f.len()
                invariant
                    i <= f@.len(),
                    *j == OrderedJson::Obj(*f),
                    field_views(out@) == field_views(f@).take(i as int),
                decreases f.len() - i,
            {
                proof {
                    assert(decreases_to!(*j => (*j)->Obj_0));
                    assert(decreases_to!(*f => f@));
                    assert(decreases_to!(f@ => f@[i as int]));
                    assert(decreases_to!(f@[i as int] => f@[i as int].1));
                }
                let v = json_copy(&f[i].1);
                let k = crate::text::to_vec(&f[i].0);
                let ghost before = out@;
                let ghost pair = (k@, v@);
                assert(pair == field_views(f@)[i as int]);
                out.push((k, v));
                assert(field_views(out@) =~= field_views(before).push(pair));
                assert(field_views(f@).take(i + 1) =~= field_views(f@).take(i as int).push(pair));
                i = i + 1;
            }
            assert(field_views(f@).take(i as int) =~= field_views(f@));
            proof {
                lemma_obj_view(*f);
            }
            obj(out)
        },
        OrderedJson::Arr(a) => {
            let mut out: Vec<OrderedJson> = Vec::new();
            let mut i: usize = 0;
            while i < a.len()
                invariant
                    i <= a@.len(),
                    *j == OrderedJson::Arr(*a),
                    item_views(out@) == item_views(a@).take(i as int),
                decreases a.len() - i,
            {
                proof {
                    assert(decreases_to!(*j => (*j)->Arr_0));
                    assert(decreases_to!(*a => a@));
                    assert(decreases_to!(a@ => a@[i as int]));
                }
                let v = json_copy(&a[i]);
                let ghost before = out@;
                let ghost x = v@;
                out.push(v);
                assert(item_views(out@) =~= item_views(before).push(x));
                assert(item_views(a@).take(i + 1) =~= item_views(a@).take(i as int).push(x));
                i = i + 1;
            }
            assert(item_views(a@).take(i as int) =~= item_views(a@));
            proof {
                lemma_arr_view(*a);
            }
            arr(out)
        },
        OrderedJson::Str(s) => OrderedJson::Str(crate::text::to_vec(s)),
        OrderedJson::Int(i) => OrderedJson::Int(*i),
        OrderedJson::Bool(b) => OrderedJson::Bool(*b),
    }
}

/// `n` spaces.
pub open spec fn spaces(n: nat) -> Seq<char> {
    Seq::new(n, |i: int| ' ')
}

/// The JSON text of a value indented by `indent` spaces: objects and arrays one
/// member a line, two spaces deeper, empty ones as `{}` and `[]`.
pub open spec fn render_value(v: JsonValue, indent: nat) -> Seq<char>
    decreases v, 1int, 0int,
{
    match v {
        JsonValue::Obj(fields) => if fields.len() == 0 {
            "{}"@
        } else {
            "{\n"@ + render_fields(v, indent + 2, 0) + spaces(indent) + "}"@
        },
        JsonValue::Arr(items) => if items.len() == 0 {
            "[]"@
        } else {
            "[\n"@ + render_items(v, indent + 2, 0) + spaces(indent) + "]"@
        },
        JsonValue::Str(s) => json_string(s),
        JsonValue::Int(i) => int_text(i),
        JsonValue::Bool(b) => if b {
            "true"@
        } else {
            "false"@
        },
    }
}

/// The lines of the fields of an object from the `i`-th on.
pub open spec fn render_fields(v: JsonValue, ci: nat, i: int) -> Seq<char>
    decreases v, 0int, (match v {
        JsonValue::Obj(fields) => fields.len() - i,
        _ => 0,
    }),
{
    match v {
        JsonValue::Obj(fields) => if i < 0 || i >= fields.len() {
            Seq::empty()
        } else {
            proof {
                assert(decreases_to!(v => fields));
                assert(decreases_to!(fields => fields[i]));
                assert(decreases_to!(fields[i] => fields[i].1));
            }
            spaces(ci) + json_string(fields[i].0) + ": "@ + render_value(fields[i].1, ci) + (if i + 1 != fields.len() {
                ","@
            } else {
                Seq::empty()
            }) + "\n"@ + render_fields(v, ci, i + 1)
        },
        _ => Seq::empty(),
    }
}

/// The lines of the items of an array from the `i`-th on.
pub open spec fn render_items(v: JsonValue, ci: nat, i: int) -> Seq<char>
    decreases v, 0int, (match v {
        JsonValue::Arr(items) => items.len() - i,
        _ => 0,
    }),
{
    match v {
        JsonValue::Arr(items) => if i < 0 || i >= items.len() {
            Seq::empty()
        } else {
            proof {
                assert(decreases_to!(v => items));
                assert(decreases_to!(items => items[i]));
            }
            spaces(ci) + render_value(items[i], ci) + (if i + 1 != items.len() {
                ","@
            } else {
                Seq::empty()
            }) + "\n"@ + render_items(v, ci, i + 1)
        },
        _ => Seq::empty(),
    }
}

fn push_pad(out: &mut Vec<char>, pad: &Vec<char>)
    ensures
        final(out)@ == old(out)@ + pad@,
{
    push_chars(out, pad);
}

fn render_into(out: &mut Vec<char>, value: &OrderedJson, pad: &Vec<char>, Ghost(indent): Ghost<nat>)
    requires
        pad@ == spaces(indent),
    ensures
        final(out)@ == old(out)@ + render_value(value@, indent),
    decreases value,
{
    let ghost start = out@;
    let ghost v = value@;
    match value {
        OrderedJson::Obj(fields) => {
            if fields.len() == 0 {
                push_str(out, "{}");
                return;
            }
            push_str(out, "{\n");
            let mut child_pad = crate::text::to_vec(pad);
            child_pad.push(' ');
            child_pad.push(' ');
            let ghost ci: nat = indent + 2;
            assert(child_pad@ =~= spaces(ci));
            proof {
                lemma_obj_view(*fields);
            }
            let mut i: usize = 0;
            while i < fields.len()
                invariant
                    i <= fields@.len(),
                    v == value@,
                    *value == OrderedJson::Obj(*fields),
                    child_pad@ == spaces(ci),
                    ci == indent + 2,
                    v == JsonValue::Obj(field_views(fields@)),
                    out@ + render_fields(v, ci, i as int) == start + "{\n"@ + render_fields(v, ci, 0),
                decreases fields.len() - i,
            {
                proof {
                    assert(decreases_to!(*value => (*value)->Obj_0));
                    assert(decreases_to!(*fields => fields@));
                    assert(decreases_to!(fields@ => fields@[i as int]));
                    assert(decreases_to!(fields@[i as int] => fields@[i as int].1));
                }
                let ghost before = out@;
                push_pad(out, &child_pad);
                let key = json_quote(&fields[i].0);
                push_chars(out, &key);
                push_str(out, ": ");
                render_into(out, &fields[i].1, &child_pad, Ghost(ci));
                if i + 1 != fields.len() {
                    push_str(out, ",");
                }
                push_str(out, "\n");
                proof {
                    assert(out@ + render_fields(v, ci, i + 1) =~= before + render_fields(v, ci, i as int));
                }
                i = i + 1;
            }
            push_pad(out, pad);
            push_str(out, "}");
            proof {
                lemma_obj_view(*fields);
                assert(out@ =~= start + render_value(v, indent));
            }
        },
        OrderedJson::Arr(items) => {
            if items.len() == 0 {
                push_str(out, "[]");
                return;
            }
            push_str(out, "[\n");
            let mut child_pad = crate::text::to_vec(pad);
            child_pad.push(' ');
            child_pad.push(' ');
            let ghost ci: nat = indent + 2;
            assert(child_pad@ =~= spaces(ci));
            proof {
                lemma_arr_view(*items);
            }
            let mut i: usize = 0;
            while i < items.len()
                invariant
                    i <= items@.len(),
                    *value == OrderedJson::Arr(*items),
                    child_pad@ == spaces(ci),
                    ci == indent + 2,
                    v == JsonValue::Arr(item_views(items@)),
                    out@ + render_items(v, ci, i as int) == start + "[\n"@ + render_items(v, ci, 0),
                decreases items.len() - i,
            {
                proof {
                    assert(decreases_to!(*value => (*value)->Arr_0));
                    assert(decreases_to!(*items => items@));
                    assert(decreases_to!(items@ => items@[i as int]));
                }
                let ghost before = out@;
                push_pad(out, &child_pad);
                render_into(out, &items[i], &child_pad, Ghost(ci));
                if i + 1 != items.len() {
                    push_str(out, ",");
                }
                push_str(out, "\n");
                proof {
                    assert(out@ + render_items(v, ci, i + 1) =~= before + render_items(v, ci, i as int));
                }
                i = i + 1;
            }
            push_pad(out, pad);
            push_str(out, "]");
            proof {
                assert(out@ =~= start + render_value(v, indent));
            }
        },
        OrderedJson::Str(s) => {
            let q = json_quote(s);
            push_chars(out, &q);
        },
        OrderedJson::Int(i) => {
            push_chars(out, &i64_text(*i));
        },
        OrderedJson::Bool(b) => {
            push_str(out, if *b { "true" } else { "false" });
        },
    }
}

/// The JSON text of a value.
pub fn render_ordered_json(value: &OrderedJson) -> (r: Vec<char>)
    ensures
        r@ == render_value(value@, 0),
{
    let mut out: Vec<char> = Vec::new();
    let pad: Vec<char> = Vec::new();
    assert(pad@ =~= spaces(0));
    render_into(&mut out, value, &pad, Ghost(0));
    assert(out@ =~= render_value(value@, 0));
    out
}

/// The JSON text of a value nested `indent` spaces deep.
pub fn render_ordered_json_at(value: &OrderedJson, indent: usize) -> (r: Vec<char>)
    ensures
        r@ == render_value(value@, indent as nat),
{
    let mut pad: Vec<char> = Vec::new();
    let mut k: usize = 0;
    while k < indent
        invariant
            k <= indent,
            pad@ == spaces(k as nat),
        decreases indent - k,
    {
        pad.push(' ');
        assert(pad@ =~= spaces((k + 1) as nat));
        k = k + 1;
    }
    let mut out: Vec<char> = Vec::new();
    render_into(&mut out, value, &pad, Ghost(indent as nat));
    assert(out@ =~= render_value(value@, indent as nat));
    out
}

/// The value is an object without fields.
pub open spec fn is_empty_object(v: JsonValue) -> bool {
    v matches JsonValue::Obj(f) && f.len() == 0
}

pub fn ordered_json_is_empty_object(value: &OrderedJson) -> (b: bool)
    ensures
        b == is_empty_object(value@),
{
    match value {
        OrderedJson::Obj(fields) => fields.len() == 0,
        _ => false,
    }
}

/// The format with a 1-based index, if there is one.
pub open spec fn format_at(formats: Seq<MxlRawFormat>, idx: int) -> Option<MxlRawFormat> {
    if 0 < idx <= formats.len() {
        Some(formats[idx - 1])
    } else {
        None
    }
}

pub fn mxl_decompile_format(formats: &[MxlRawFormat], idx: i64) -> (r: Option<&MxlRawFormat>)
    ensures
        r matches Some(f) ==> format_at(formats@, idx as int) == Some(*f),
        r is None <==> format_at(formats@, idx as int) is None,
{
    if idx <= 0 || (idx as u64) > (formats.len() as u64) {
        return None;
    }
    Some(&formats[(idx - 1) as usize])
}

pub open spec fn bool_text(b: bool) -> Seq<char> {
    if b {
        "true"@
    } else {
        "false"@
    }
}

fn push_bool(out: &mut Vec<char>, b: bool)
    ensures
        final(out)@ == old(out)@ + bool_text(b),
{
    push_str(out, if b { "true" } else { "false" });
}

/// The key under which equal fonts are named once.
pub open spec fn font_key(f: MxlRawFont) -> Seq<char> {
    f.face@ + "|"@ + int_text(f.size as int) + "|"@ + bool_text(f.bold) + "|"@ + bool_text(f.italic) + "|"@
        + bool_text(f.underline) + "|"@ + bool_text(f.strikeout)
}

pub fn mxl_decompile_font_key(font: &MxlRawFont) -> (r: Vec<char>)
    ensures
        r@ == font_key(*font),
{
    let mut r = crate::text::to_vec(&font.face);
    push_str(&mut r, "|");
    push_chars(&mut r, &i64_text(font.size));
    push_str(&mut r, "|");
    push_bool(&mut r, font.bold);
    push_str(&mut r, "|");
    push_bool(&mut r, font.italic);
    push_str(&mut r, "|");
    push_bool(&mut r, font.underline);
    push_str(&mut r, "|");
    push_bool(&mut r, font.strikeout);
    r
}

/// A `true` flag field, present only when the flag is set.
pub open spec fn flag_field(key: Seq<char>, b: bool) -> Seq<(Seq<char>, JsonValue)> {
    if b {
        seq![(key, JsonValue::Bool(true))]
    } else {
        Seq::empty()
    }
}

/// A font as JSON: face and size, then the style flags that are set.
pub open spec fn font_json(f: MxlRawFont) -> JsonValue {
    JsonValue::Obj(
        seq![("face"@, JsonValue::Str(f.face@)), ("size"@, JsonValue::Int(f.size as int))] + flag_field(
            "bold"@,
            f.bold,
        ) + flag_field("italic"@, f.italic) + flag_field("underline"@, f.underline) + flag_field(
            "strikeout"@,
            f.strikeout,
        ),
    )
}

fn push_flag(fields: &mut Vec<(Vec<char>, OrderedJson)>, key: &str, b: bool)
    ensures
        field_views(final(fields)@) == field_views(old(fields)@) + flag_field(key@, b),
{
    if b {
        push_field(fields, key, OrderedJson::Bool(true));
    } else {
        assert(field_views(fields@) =~= field_views(fields@) + flag_field(key@, b));
    }
}

pub fn mxl_decompile_font_json(font: &MxlRawFont) -> (r: OrderedJson)
    ensures
        r@ == font_json(*font),
{
    let mut fields: Vec<(Vec<char>, OrderedJson)> = Vec::new();
    push_field(&mut fields, "face", OrderedJson::Str(crate::text::to_vec(&font.face)));
    push_field(&mut fields, "size", OrderedJson::Int(font.size));
    let ghost a = field_views(fields@);
    push_flag(&mut fields, "bold", font.bold);
    push_flag(&mut fields, "italic", font.italic);
    push_flag(&mut fields, "underline", font.underline);
    push_flag(&mut fields, "strikeout", font.strikeout);
    let r = obj(fields);
    proof {
        if let JsonValue::Obj(x) = font_json(*font) {
            assert(field_views(fields@) =~= x);
        }
    }
    r
}

/// The width of the line with an index, `0` when there is none.
pub open spec fn line_width(raw_lines: Seq<i64>, idx: i64) -> int {
    if 0 <= idx < raw_lines.len() {
        raw_lines[idx as int] as int
    } else {
        0
    }
}

/// A side whose line is at least two wide.
pub open spec fn thick_side(raw_lines: Seq<i64>, idx: i64) -> bool {
    idx >= 0 && line_width(raw_lines, idx) >= 2
}

/// The bordered sides of a format, in the order top, bottom, left, right.
pub open spec fn border_sides(f: MxlRawFormat) -> Seq<Seq<char>> {
    (if f.tb >= 0 { seq!["top"@] } else { Seq::empty() }) + (if f.bb >= 0 {
        seq!["bottom"@]
    } else {
        Seq::empty()
    }) + (if f.lb >= 0 { seq!["left"@] } else { Seq::empty() }) + (if f.rb >= 0 {
        seq!["right"@]
    } else {
        Seq::empty()
    })
}

/// The borders of a format (`none`, `all`, or the sides joined with commas) and
/// whether any of its lines is thick.
pub open spec fn border_desc(f: MxlRawFormat, raw_lines: Seq<i64>) -> (Seq<char>, bool) {
    if f.lb < 0 && f.tb < 0 && f.rb < 0 && f.bb < 0 {
        ("none"@, false)
    } else {
        let thick = thick_side(raw_lines, f.lb) || thick_side(raw_lines, f.tb) || thick_side(raw_lines, f.rb)
            || thick_side(raw_lines, f.bb);
        if f.lb >= 0 && f.tb >= 0 && f.rb >= 0 && f.bb >= 0 {
            ("all"@, thick)
        } else {
            (join(border_sides(f), ","@), thick)
        }
    }
}

fn thick_side_exec(raw_lines: &[i64], idx: i64) -> (b: bool)
    ensures
        b == thick_side(raw_lines@, idx),
{
    if idx < 0 || (idx as u64) >= (raw_lines.len() as u64) {
        false
    } else {
        raw_lines[idx as usize] >= 2
    }
}

pub fn mxl_decompile_border_desc(format: &MxlRawFormat, raw_lines: &[i64]) -> (r: (Vec<char>, bool))
    ensures
        (r.0@, r.1) == border_desc(*format, raw_lines@),
{
    let lb = format.lb >= 0;
    let tb = format.tb >= 0;
    let rb = format.rb >= 0;
    let bb = format.bb >= 0;
    if !lb && !tb && !rb && !bb {
        return (chars_of("none"), false);
    }
    let thick = thick_side_exec(raw_lines, format.lb) || thick_side_exec(raw_lines, format.tb)
        || thick_side_exec(raw_lines, format.rb) || thick_side_exec(raw_lines, format.bb);
    if lb && tb && rb && bb {
        return (chars_of("all"), thick);
    }
    let mut sides: Vec<Vec<char>> = Vec::new();
    if tb {
        push_line(&mut sides, chars_of("top"));
    }
    let ghost a = views(sides@);
    if bb {
        push_line(&mut sides, chars_of("bottom"));
    }
    let ghost b = views(sides@);
    if lb {
        push_line(&mut sides, chars_of("left"));
    }
    let ghost c = views(sides@);
    if rb {
        push_line(&mut sides, chars_of("right"));
    }
    proof {
        assert(a =~= (if format.tb >= 0 { seq!["top"@] } else { Seq::<Seq<char>>::empty() }));
        assert(b =~= a + (if format.bb >= 0 { seq!["bottom"@] } else { Seq::<Seq<char>>::empty() }));
        assert(c =~= b + (if format.lb >= 0 { seq!["left"@] } else { Seq::<Seq<char>>::empty() }));
        assert(views(sides@) =~= border_sides(*format));
    }
    (join_str(&sides, ","), thick)
}

/// The index of a format's font, `0` when unset.
pub open spec fn font_index(f: MxlRawFormat) -> int {
    if f.font_idx >= 0 {
        f.font_idx as int
    } else {
        0
    }
}

/// The key under which equal cell styles are named once; `empty` for a cell
/// without a format.
pub open spec fn style_key(fo: Option<MxlRawFormat>, raw_lines: Seq<i64>) -> Seq<char> {
    match fo {
        None => "empty"@,
        Some(f) => {
            let (border, thick) = border_desc(f, raw_lines);
            "f="@ + int_text(font_index(f)) + "|b="@ + border + "|bw="@ + bool_text(thick) + "|ha="@ + f.ha@
                + "|va="@ + f.va@ + "|wr="@ + bool_text(f.wrap) + "|df="@ + f.data_format@
        },
    }
}

pub open spec fn opt_format(fo: Option<&MxlRawFormat>) -> Option<MxlRawFormat> {
    match fo {
        Some(f) => Some(*f),
        None => None,
    }
}

pub fn mxl_decompile_style_key(format: Option<&MxlRawFormat>, raw_lines: &[i64]) -> (r: Vec<char>)
    ensures
        r@ == style_key(opt_format(format), raw_lines@),
{
    let format = match format {
        Some(f) => f,
        None => return chars_of("empty"),
    };
    let font_idx: i64 = if format.font_idx >= 0 { format.font_idx } else { 0 };
    let (border, thick) = mxl_decompile_border_desc(format, raw_lines);
    let mut r = chars_of("f=");
    push_chars(&mut r, &i64_text(font_idx));
    push_str(&mut r, "|b=");
    push_chars(&mut r, &border);
    push_str(&mut r, "|bw=");
    push_bool(&mut r, thick);
    push_str(&mut r, "|ha=");
    push_chars(&mut r, &format.ha);
    push_str(&mut r, "|va=");
    push_chars(&mut r, &format.va);
    push_str(&mut r, "|wr=");
    push_bool(&mut r, format.wrap);
    push_str(&mut r, "|df=");
    push_chars(&mut r, &format.data_format);
    r
}

/// The name of the font with an index, if there is a font with that index.
pub open spec fn font_name_of(font_names: Seq<Seq<char>>, idx: int) -> Option<Seq<char>> {
    if 0 <= idx < font_names.len() {
        Some(font_names[idx])
    } else {
        None
    }
}

fn font_name_exec(font_names: &[Vec<char>], idx: i64) -> (r: Option<&Vec<char>>)
    ensures
        r matches Some(n) ==> font_name_of(views(font_names@), idx as int) == Some(n@),
        r is None <==> font_name_of(views(font_names@), idx as int) is None,
{
    if idx < 0 || (idx as u64) >= (font_names.len() as u64) {
        None
    } else {
        Some(&font_names[idx as usize])
    }
}

/// The font word of a style: the font's name unless it is the default.
pub open spec fn font_part(f: MxlRawFormat, font_names: Seq<Seq<char>>) -> Seq<Seq<char>> {
    match font_name_of(font_names, font_index(f)) {
        Some(n) => if n != "default"@ { seq![n] } else { Seq::empty() },
        None => Seq::empty(),
    }
}

/// The border word of a style.
pub open spec fn border_part(border: Seq<char>) -> Seq<Seq<char>> {
    if border == "none"@ {
        Seq::empty()
    } else if border == "all"@ {
        seq!["bordered"@]
    } else {
        seq!["border-"@ + border]
    }
}

/// The alignment words of a style.
pub open spec fn align_part(f: MxlRawFormat) -> Seq<Seq<char>> {
    (if f.ha@ == "Center"@ {
        seq!["center"@]
    } else if f.ha@ == "Right"@ {
        seq!["right"@]
    } else {
        Seq::empty()
    }) + (if f.va@ == "Center"@ {
        seq!["vcenter"@]
    } else if f.va@ == "Top"@ {
        seq!["vtop"@]
    } else {
        Seq::empty()
    })
}

/// The wrapping and data format words of a style.
pub open spec fn flag_part(f: MxlRawFormat) -> Seq<Seq<char>> {
    (if f.wrap { seq!["wrap"@] } else { Seq::empty() }) + (if f.data_format@.len() > 0 {
        seq!["fmt"@]
    } else {
        Seq::empty()
    })
}

/// The words a style name is made of: its font (unless the default), borders,
/// alignments, wrapping and data format.
pub open spec fn style_parts(f: MxlRawFormat, raw_lines: Seq<i64>, font_names: Seq<Seq<char>>) -> Seq<Seq<char>> {
    font_part(f, font_names) + border_part(border_desc(f, raw_lines).0) + align_part(f) + flag_part(f)
}

/// The name of a style: its words joined with `-`, `-thick` added for thick
/// lines not already named by a border word; `default` when there are none.
pub open spec fn style_name(f: MxlRawFormat, raw_lines: Seq<i64>, font_names: Seq<Seq<char>>) -> Seq<char> {
    let parts = style_parts(f, raw_lines, font_names);
    if parts.len() == 0 {
        "default"@
    } else {
        let name = join(parts, "-"@);
        if border_desc(f, raw_lines).1 && !contains(name, "bordered"@) && !contains(name, "border-"@) {
            name + "-thick"@
        } else {
            name
        }
    }
}

fn push_font_part(parts: &mut Vec<Vec<char>>, format: &MxlRawFormat, font_names: &[Vec<char>])
    ensures
        views(final(parts)@) == views(old(parts)@) + font_part(*format, views(font_names@)),
{
    let ghost s0 = views(parts@);
    let font_idx: i64 = if format.font_idx >= 0 { format.font_idx } else { 0 };
    if let Some(font_name) = font_name_exec(font_names, font_idx) {
        if !eq_str(font_name, "default") {
            push_line(parts, crate::text::to_vec(font_name));
        }
    }
    assert(views(parts@) =~= s0 + font_part(*format, views(font_names@)));
}

fn push_border_part(parts: &mut Vec<Vec<char>>, border: &[char])
    ensures
        views(final(parts)@) == views(old(parts)@) + border_part(border@),
{
    let ghost s0 = views(parts@);
    if !eq_str(border, "none") {
        if eq_str(border, "all") {
            push_line(parts, chars_of("bordered"));
        } else {
            let mut b = chars_of("border-");
            push_chars(&mut b, border);
            push_line(parts, b);
        }
    }
    assert(views(parts@) =~= s0 + border_part(border@));
}

fn push_align_part(parts: &mut Vec<Vec<char>>, format: &MxlRawFormat)
    ensures
        views(final(parts)@) == views(old(parts)@) + align_part(*format),
{
    let ghost s0 = views(parts@);
    if eq_str(&format.ha, "Center") {
        push_line(parts, chars_of("center"));
    } else if eq_str(&format.ha, "Right") {
        push_line(parts, chars_of("right"));
    }
    let ghost s1 = views(parts@);
    if eq_str(&format.va, "Center") {
        push_line(parts, chars_of("vcenter"));
    } else if eq_str(&format.va, "Top") {
        push_line(parts, chars_of("vtop"));
    }
    assert(views(parts@) =~= s0 + align_part(*format));
}

fn push_flag_part(parts: &mut Vec<Vec<char>>, format: &MxlRawFormat)
    ensures
        views(final(parts)@) == views(old(parts)@) + flag_part(*format),
{
    let ghost s0 = views(parts@);
    if format.wrap {
        push_line(parts, chars_of("wrap"));
    }
    if format.data_format.len() > 0 {
        push_line(parts, chars_of("fmt"));
    }
    assert(views(parts@) =~= s0 + flag_part(*format));
}

fn style_parts_exec(format: &MxlRawFormat, raw_lines: &[i64], font_names: &[Vec<char>]) -> (r: Vec<Vec<char>>)
    ensures
        views(r@) == style_parts(*format, raw_lines@, views(font_names@)),
{
    let mut parts: Vec<Vec<char>> = Vec::new();
    assert(views(parts@) =~= Seq::<Seq<char>>::empty());
    push_font_part(&mut parts, format, font_names);
    let (border, _) = mxl_decompile_border_desc(format, raw_lines);
    push_border_part(&mut parts, &border);
    push_align_part(&mut parts, format);
    push_flag_part(&mut parts, format);
    assert(views(parts@) =~= style_parts(*format, raw_lines@, views(font_names@)));
    parts
}

pub fn mxl_decompile_style_name(format: &MxlRawFormat, raw_lines: &[i64], font_names: &[Vec<char>]) -> (r: Vec<char>)
    ensures
        r@ == style_name(*format, raw_lines@, views(font_names@)),
{
    let parts = style_parts_exec(format, raw_lines, font_names);
    if parts.len() == 0 {
        return chars_of("default");
    }
    let (_, thick) = mxl_decompile_border_desc(format, raw_lines);
    let mut name = join_str(&parts, "-");
    if thick && !contains_str(&name, "bordered") && !contains_str(&name, "border-") {
        push_str(&mut name, "-thick");
    }
    name
}

pub open spec fn str_field(key: Seq<char>, value: Seq<char>) -> Seq<(Seq<char>, JsonValue)> {
    seq![(key, JsonValue::Str(value))]
}

/// The font and alignment fields of a style.
pub open spec fn style_head_fields(f: MxlRawFormat, font_names: Seq<Seq<char>>) -> Seq<(Seq<char>, JsonValue)> {
    (match font_name_of(font_names, font_index(f)) {
        Some(n) => if n != "default"@ { str_field("font"@, n) } else { Seq::empty() },
        None => Seq::empty(),
    }) + (if f.ha@ == "Left"@ {
        str_field("align"@, "left"@)
    } else if f.ha@ == "Center"@ {
        str_field("align"@, "center"@)
    } else if f.ha@ == "Right"@ {
        str_field("align"@, "right"@)
    } else {
        Seq::empty()
    }) + (if f.va@ == "Top"@ {
        str_field("valign"@, "top"@)
    } else if f.va@ == "Center"@ {
        str_field("valign"@, "center"@)
    } else {
        Seq::empty()
    })
}

/// The border, wrapping and data format fields of a style.
pub open spec fn style_tail_fields(f: MxlRawFormat, raw_lines: Seq<i64>) -> Seq<(Seq<char>, JsonValue)> {
    let (border, thick) = border_desc(f, raw_lines);
    (if border != "none"@ {
        str_field("border"@, border) + (if thick { str_field("borderWidth"@, "thick"@) } else { Seq::empty() })
    } else {
        Seq::empty()
    }) + flag_field("wrap"@, f.wrap) + (if f.data_format@.len() > 0 {
        str_field("format"@, f.data_format@)
    } else {
        Seq::empty()
    })
}

/// A style as JSON: the properties that differ from the defaults.
pub open spec fn style_json(f: MxlRawFormat, raw_lines: Seq<i64>, font_names: Seq<Seq<char>>) -> JsonValue {
    JsonValue::Obj(style_head_fields(f, font_names) + style_tail_fields(f, raw_lines))
}

fn push_str_field(fields: &mut Vec<(Vec<char>, OrderedJson)>, key: &str, value: &[char])
    ensures
        field_views(final(fields)@) == field_views(old(fields)@) + str_field(key@, value@),
{
    push_field(fields, key, OrderedJson::Str(crate::text::to_vec(value)));
    assert(field_views(old(fields)@).push((key@, JsonValue::Str(value@))) =~= field_views(old(fields)@) + str_field(key@, value@));
}

fn push_style_head(fields: &mut Vec<(Vec<char>, OrderedJson)>, format: &MxlRawFormat, font_names: &[Vec<char>])
    ensures
        field_views(final(fields)@) == field_views(old(fields)@) + style_head_fields(*format, views(font_names@)),
{
    let ghost s0 = field_views(fields@);
    let font_idx: i64 = if format.font_idx >= 0 { format.font_idx } else { 0 };
    if let Some(font_name) = font_name_exec(font_names, font_idx) {
        if !eq_str(font_name, "default") {
            push_str_field(fields, "font", font_name);
        }
    }
    let ghost s1 = field_views(fields@);
    if eq_str(&format.ha, "Left") {
        push_str_field(fields, "align", &chars_of("left"));
    } else if eq_str(&format.ha, "Center") {
        push_str_field(fields, "align", &chars_of("center"));
    } else if eq_str(&format.ha, "Right") {
        push_str_field(fields, "align", &chars_of("right"));
    }
    let ghost s2 = field_views(fields@);
    if eq_str(&format.va, "Top") {
        push_str_field(fields, "valign", &chars_of("top"));
    } else if eq_str(&format.va, "Center") {
        push_str_field(fields, "valign", &chars_of("center"));
    }
    proof {
        let f = *format;
        assert(s1 =~= s0 + (match font_name_of(views(font_names@), font_index(f)) {
            Some(n) => if n != "default"@ { str_field("font"@, n) } else { Seq::empty() },
            None => Seq::empty(),
        }));
        assert(field_views(fields@) =~= s0 + style_head_fields(f, views(font_names@)));
    }
}

fn push_style_tail(fields: &mut Vec<(Vec<char>, OrderedJson)>, format: &MxlRawFormat, raw_lines: &[i64])
    ensures
        field_views(final(fields)@) == field_views(old(fields)@) + style_tail_fields(*format, raw_lines@),
{
    let ghost s0 = field_views(fields@);
    let (border, thick) = mxl_decompile_border_desc(format, raw_lines);
    if !eq_str(&border, "none") {
        push_str_field(fields, "border", &border);
        if thick {
            push_str_field(fields, "borderWidth", &chars_of("thick"));
        }
    }
    let ghost s1 = field_views(fields@);
    push_flag(fields, "wrap", format.wrap);
    if format.data_format.len() > 0 {
        push_str_field(fields, "format", &format.data_format);
    }
    proof {
        let f = *format;
        assert(s1 =~= s0 + (if border@ != "none"@ {
            str_field("border"@, border@) + (if thick { str_field("borderWidth"@, "thick"@) } else { Seq::empty() })
        } else {
            Seq::empty()
        }));
        assert(field_views(fields@) =~= s0 + style_tail_fields(f, raw_lines@));
    }
}

pub fn mxl_decompile_style_json(format: &MxlRawFormat, raw_lines: &[i64], font_names: &[Vec<char>]) -> (r: OrderedJson)
    ensures
        r@ == style_json(*format, raw_lines@, views(font_names@)),
{
    let mut fields: Vec<(Vec<char>, OrderedJson)> = Vec::new();
    assert(field_views(fields@) =~= Seq::<(Seq<char>, JsonValue)>::empty());
    push_style_head(&mut fields, format, font_names);
    push_style_tail(&mut fields, format, raw_lines);
    assert(field_views(fields@) =~= style_head_fields(*format, views(font_names@)) + style_tail_fields(*format, raw_lines@));
    obj(fields)
}

/// The map of a list of key and value pairs; a later pair overrides an earlier
/// one with the same key (as inserting into a map does).
pub open spec fn int_key_map(s: Seq<(i64, Vec<char>)>) -> Map<int, Seq<char>>
    decreases s.len(),
{
    if s.len() == 0 {
        Map::empty()
    } else {
        int_key_map(s.drop_last()).insert(s.last().0 as int, s.last().1@)
    }
}

/// The map of a list of text pairs, later pairs overriding earlier ones.
pub open spec fn text_key_map(s: Seq<(Vec<char>, Vec<char>)>) -> Map<Seq<char>, Seq<char>>
    decreases s.len(),
{
    if s.len() == 0 {
        Map::empty()
    } else {
        text_key_map(s.drop_last()).insert(s.last().0@, s.last().1@)
    }
}

fn lookup_int_key(entries: &[(i64, Vec<char>)], key: i64) -> (r: Option<&Vec<char>>)
    ensures
        r matches Some(v) ==> int_key_map(entries@).contains_key(key as int) && int_key_map(entries@)[key as int] == v@,
        r is None ==> !int_key_map(entries@).contains_key(key as int),
{
    let mut i: usize = entries.len();
    assert(entries@.take(i as int) =~= entries@);
    while i > 0
        invariant
            i <= entries@.len(),
            int_key_map(entries@).contains_key(key as int) == int_key_map(entries@.take(i as int)).contains_key(key as int),
            int_key_map(entries@).contains_key(key as int) ==> int_key_map(entries@)[key as int] == int_key_map(entries@.take(i as int))[key as int],
        decreases i,
    {
        assert(entries@.take(i as int).drop_last() =~= entries@.take(i - 1));
        if entries[i - 1].0 == key {
            return Some(&entries[i - 1].1);
        }
        i = i - 1;
    }
    None
}

fn lookup_text_key<'a>(entries: &'a [(Vec<char>, Vec<char>)], key: &[char]) -> (r: Option<&'a Vec<char>>)
    ensures
        r matches Some(v) ==> text_key_map(entries@).contains_key(key@) && text_key_map(entries@)[key@] == v@,
        r is None ==> !text_key_map(entries@).contains_key(key@),
{
    let mut i: usize = entries.len();
    assert(entries@.take(i as int) =~= entries@);
    while i > 0
        invariant
            i <= entries@.len(),
            text_key_map(entries@).contains_key(key@) == text_key_map(entries@.take(i as int)).contains_key(key@),
            text_key_map(entries@).contains_key(key@) ==> text_key_map(entries@)[key@] == text_key_map(entries@.take(i as int))[key@],
        decreases i,
    {
        assert(entries@.take(i as int).drop_last() =~= entries@.take(i - 1));
        if eq_chars(&entries[i - 1].0, key) {
            return Some(&entries[i - 1].1);
        }
        i = i - 1;
    }
    None
}

/// The style name of a format: the name of its style key, `default` when it
/// has none.
pub open spec fn style_name_for(idx: int, format_to_style_key: Map<int, Seq<char>>, style_names: Map<Seq<char>, Seq<char>>) -> Seq<char> {
    if format_to_style_key.contains_key(idx) && style_names.contains_key(format_to_style_key[idx]) {
        style_names[format_to_style_key[idx]]
    } else {
        "default"@
    }
}

pub fn mxl_decompile_style_name_for_format(
    format_idx: i64,
    format_to_style_key: &[(i64, Vec<char>)],
    style_names: &[(Vec<char>, Vec<char>)],
) -> (r: Vec<char>)
    ensures
        r@ == style_name_for(format_idx as int, int_key_map(format_to_style_key@), text_key_map(style_names@)),
{
    match lookup_int_key(format_to_style_key, format_idx) {
        Some(key) => match lookup_text_key(style_names, key) {
            Some(name) => crate::text::to_vec(name),
            None => chars_of("default"),
        },
        None => chars_of("default"),
    }
}

/// What a run of `run` empty rows is written as: nothing, one empty row, or
/// one row that counts them.
pub open spec fn empty_run_rows(run: nat) -> Seq<JsonValue> {
    if run == 0 {
        Seq::empty()
    } else if run == 1 {
        seq![JsonValue::Obj(Seq::empty())]
    } else {
        seq![JsonValue::Obj(seq![("empty"@, JsonValue::Int(run as int))])]
    }
}

/// The rows with each run of empty rows (after `run` already seen) folded.
pub open spec fn compressed_rows(rows: Seq<JsonValue>, run: nat) -> Seq<JsonValue>
    decreases rows.len(),
{
    if rows.len() == 0 {
        empty_run_rows(run)
    } else if is_empty_object(rows[0]) {
        compressed_rows(rows.drop_first(), run + 1)
    } else {
        empty_run_rows(run) + seq![rows[0]] + compressed_rows(rows.drop_first(), 0)
    }
}

fn push_empty_run(result: &mut Vec<OrderedJson>, run: i64)
    requires
        run >= 0,
    ensures
        item_views(final(result)@) == item_views(old(result)@) + empty_run_rows(run as nat),
{
    let ghost s0 = item_views(result@);
    if run == 1 {
        result.push(obj(Vec::new()));
        proof {
            assert(field_views(Seq::<(Vec<char>, OrderedJson)>::empty()) =~= Seq::<(Seq<char>, JsonValue)>::empty());
        }
    } else if run > 1 {
        let mut fields: Vec<(Vec<char>, OrderedJson)> = Vec::new();
        push_field(&mut fields, "empty", OrderedJson::Int(run));
        assert(field_views(fields@) =~= seq![("empty"@, JsonValue::Int(run as int))]);
        result.push(obj(fields));
    }
    assert(item_views(result@) =~= s0 + empty_run_rows(run as nat));
}

pub fn mxl_decompile_compress_empty_rows(rows: Vec<OrderedJson>) -> (r: Vec<OrderedJson>)
    requires
        rows@.len() <= i64::MAX,
    ensures
        item_views(r@) == compressed_rows(item_views(rows@), 0),
{
    let ghost all = item_views(rows@);
    let mut result: Vec<OrderedJson> = Vec::new();
    let mut run: i64 = 0;
    let mut i: usize = 0;
    assert(all.subrange(0, all.len() as int) =~= all);
    assert(item_views(result@) =~= Seq::<JsonValue>::empty());
    while i < rows.len()
        invariant
            i <= rows@.len(),
            rows@.len() <= i64::MAX,
            0 <= run <= i,
            all == item_views(rows@),
            item_views(result@) + compressed_rows(all.subrange(i as int, all.len() as int), run as nat)
                == compressed_rows(all, 0),
        decreases rows.len() - i,
    {
        let ghost rest = all.subrange(i as int, all.len() as int);
        assert(rest.drop_first() =~= all.subrange(i + 1, all.len() as int));
        assert(rest[0] == rows@[i as int]@);
        if ordered_json_is_empty_object(&rows[i]) {
            run = run + 1;
        } else {
            let ghost before = item_views(result@);
            push_empty_run(&mut result, run);
            let ghost mid = item_views(result@);
            let row = json_copy(&rows[i]);
            result.push(row);
            assert(item_views(result@) =~= mid.push(rows@[i as int]@));
            assert(item_views(result@) + compressed_rows(rest.drop_first(), 0) =~= before + compressed_rows(rest, run as nat));
            run = 0;
        }
        i = i + 1;
    }
    let ghost before = item_views(result@);
    push_empty_run(&mut result, run);
    assert(all.subrange(i as int, all.len() as int) =~= Seq::<JsonValue>::empty());
    result
}

/// Columns in order with their widths, each column once and in increasing order
/// (as a map sorted by column gives them).
pub open spec fn increasing_columns(ws: Seq<(i64, i64)>) -> bool {
    forall|a: int, b: int| 0 <= a < b < ws.len() ==> ws[a].0 < ws[b].0
}

/// The first group with a width.
pub open spec fn group_position(groups: Seq<(int, Seq<int>)>, w: int, from: int) -> Option<int>
    decreases groups.len() - from,
{
    if from < 0 || from >= groups.len() {
        None
    } else if groups[from].0 == w {
        Some(from)
    } else {
        group_position(groups, w, from + 1)
    }
}

/// The columns grouped by width, the groups in the order their widths first
/// occur and the columns of a group in their order.
pub open spec fn width_groups(ws: Seq<(i64, i64)>) -> Seq<(int, Seq<int>)>
    decreases ws.len(),
{
    if ws.len() == 0 {
        Seq::empty()
    } else {
        let g = width_groups(ws.drop_last());
        let c = ws.last().0 as int;
        let w = ws.last().1 as int;
        match group_position(g, w, 0) {
            Some(k) => g.update(k, (w, g[k].1.push(c))),
            None => g.push((w, seq![c])),
        }
    }
}

/// The runs of consecutive columns, as first and last column.
pub open spec fn col_runs(cols: Seq<int>) -> Seq<(int, int)>
    decreases cols.len(),
{
    if cols.len() == 0 {
        Seq::empty()
    } else {
        let r = col_runs(cols.drop_last());
        let c = cols.last();
        if r.len() > 0 && c == r.last().1 + 1 {
            r.update(r.len() - 1, (r.last().0, c))
        } else {
            r.push((c, c))
        }
    }
}

/// `N` for a single column, `A-B` for a run.
pub open spec fn run_key(r: (int, int)) -> Seq<char> {
    if r.0 == r.1 {
        int_text(r.0)
    } else {
        int_text(r.0) + "-"@ + int_text(r.1)
    }
}

pub open spec fn run_fields(runs: Seq<(int, int)>, w: int) -> Seq<(Seq<char>, JsonValue)> {
    runs.map_values(|r: (int, int)| (run_key(r), JsonValue::Int(w)))
}

/// The width fields of the groups in order: one per run of columns.
pub open spec fn width_fields(groups: Seq<(int, Seq<int>)>) -> Seq<(Seq<char>, JsonValue)>
    decreases groups.len(),
{
    if groups.len() == 0 {
        Seq::empty()
    } else {
        width_fields(groups.drop_last()) + run_fields(col_runs(groups.last().1), groups.last().0)
    }
}

pub open spec fn group_view(g: Seq<(i64, Vec<i64>)>) -> Seq<(int, Seq<int>)> {
    g.map_values(|e: (i64, Vec<i64>)| (e.0 as int, ints(e.1@)))
}

pub open spec fn ints(s: Seq<i64>) -> Seq<int> {
    s.map_values(|x: i64| x as int)
}

fn copy_ints(v: &Vec<i64>) -> (r: Vec<i64>)
    ensures
        r@ == v@,
{
    let mut r: Vec<i64> = Vec::new();
    let mut i: usize = 0;
    while i < v.len()
        invariant
            i <= v@.len(),
            r@ == v@.take(i as int),
        decreases v.len() - i,
    {
        r.push(v[i]);
        assert(v@.take(i + 1) =~= v@.take(i as int).push(v@[i as int]));
        i = i + 1;
    }
    assert(v@.take(i as int) =~= v@);
    r
}

fn group_width_columns(widths: &[(i64, i64)]) -> (r: Vec<(i64, Vec<i64>)>)
    ensures
        group_view(r@) == width_groups(widths@),
{
    let mut groups: Vec<(i64, Vec<i64>)> = Vec::new();
    let mut i: usize = 0;
    while i < widths.len()
        invariant
            i <= widths@.len(),
            group_view(groups@) == width_groups(widths@.take(i as int)),
        decreases widths.len() - i,
    {
        let col = widths[i].0;
        let width = widths[i].1;
        let ghost g = group_view(groups@);
        proof {
            assert(widths@.take(i + 1).drop_last() =~= widths@.take(i as int));
            assert(widths@.take(i + 1).last() == widths@[i as int]);
        }
        let mut k: usize = 0;
        while k < groups.len() && groups[k].0 != width
            invariant
                k <= groups@.len(),
                g == group_view(groups@),
                group_position(g, width as int, 0) == group_position(g, width as int, k as int),
            decreases groups.len() - k,
        {
            k = k + 1;
        }
        if k < groups.len() {
            let mut cols = copy_ints(&groups[k].1);
            cols.push(col);
            let ghost nc = ints(cols@);
            assert(nc =~= g[k as int].1.push(col as int));
            groups.set(k, (width, cols));
            assert(group_view(groups@) =~= g.update(k as int, (width as int, g[k as int].1.push(col as int))));
        } else {
            let mut cols: Vec<i64> = Vec::new();
            cols.push(col);
            assert(ints(cols@) =~= seq![col as int]);
            groups.push((width, cols));
            assert(group_view(groups@) =~= g.push((width as int, seq![col as int])));
        }
        i = i + 1;
    }
    assert(widths@.take(i as int) =~= widths@);
    groups
}

fn run_key_exec(start: i64, last: i64) -> (r: Vec<char>)
    ensures
        r@ == run_key((start as int, last as int)),
{
    if start == last {
        i64_text(start)
    } else {
        let mut k = i64_text(start);
        push_str(&mut k, "-");
        push_chars(&mut k, &i64_text(last));
        k
    }
}

/// Appends the width fields of one group.
fn push_run_fields(result: &mut Vec<(Vec<char>, OrderedJson)>, width: i64, cols: &Vec<i64>)
    ensures
        field_views(final(result)@) == field_views(old(result)@) + run_fields(col_runs(ints(cols@)), width as int),
{
    let ghost s0 = field_views(result@);
    if cols.len() == 0 {
        assert(ints(cols@) =~= Seq::<int>::empty());
        assert(field_views(result@) =~= s0 + run_fields(col_runs(ints(cols@)), width as int));
        return;
    }
    let mut start = cols[0];
    let mut prev = cols[0];
    proof {
        let t = ints(cols@).take(1);
        assert(t.drop_last() =~= Seq::<int>::empty());
        assert(t.last() == start as int);
        assert(col_runs(Seq::<int>::empty()) == Seq::<(int, int)>::empty());
        assert(col_runs(t) =~= seq![(start as int, prev as int)]);
        assert(field_views(result@) =~= s0 + run_fields(col_runs(t).drop_last(), width as int));
    }
    let mut j: usize = 1;
    while j < cols.len()
        invariant
            1 <= j <= cols@.len(),
            field_views(result@) == s0 + run_fields(col_runs(ints(cols@).take(j as int)).drop_last(), width as int),
            col_runs(ints(cols@).take(j as int)).len() > 0,
            col_runs(ints(cols@).take(j as int)).last() == (start as int, prev as int),
        decreases cols.len() - j,
    {
        let col = cols[j];
        let ghost cs = ints(cols@);
        let ghost r0 = col_runs(cs.take(j as int));
        proof {
            assert(cs.take(j + 1).drop_last() =~= cs.take(j as int));
            assert(cs.take(j + 1).last() == col as int);
        }
        if prev < i64::MAX && col == prev + 1 {
            proof {
                assert(col_runs(cs.take(j + 1)).drop_last() =~= r0.drop_last());
            }
            prev = col;
        } else {
            let ghost before = field_views(result@);
            let key = run_key_exec(start, prev);
            push_field_key(result, key, width);
            proof {
                assert(col_runs(cs.take(j + 1)).drop_last() =~= r0);
                assert(run_fields(r0, width as int) =~= run_fields(r0.drop_last(), width as int).push(
                    (run_key((start as int, prev as int)), JsonValue::Int(width as int)),
                ));
                assert(field_views(result@) =~= s0 + run_fields(r0, width as int));
            }
            start = col;
            prev = col;
        }
        j = j + 1;
    }
    let ghost rl = col_runs(ints(cols@).take(j as int));
    let key = run_key_exec(start, prev);
    push_field_key(result, key, width);
    assert(ints(cols@).take(j as int) =~= ints(cols@));
    assert(run_fields(rl, width as int) =~= run_fields(rl.drop_last(), width as int).push(
        (run_key((start as int, prev as int)), JsonValue::Int(width as int)),
    ));
    assert(field_views(result@) =~= s0 + run_fields(col_runs(ints(cols@)), width as int));
}

fn push_field_key(result: &mut Vec<(Vec<char>, OrderedJson)>, key: Vec<char>, width: i64)
    ensures
        field_views(final(result)@) == field_views(old(result)@).push((key@, JsonValue::Int(width as int))),
{
    let ghost k = key@;
    result.push((key, OrderedJson::Int(width)));
    assert(field_views(result@) =~= field_views(old(result)@).push((k, JsonValue::Int(width as int))));
}

pub fn mxl_decompile_compress_widths(widths: &[(i64, i64)]) -> (r: Vec<(Vec<char>, OrderedJson)>)
    requires
        increasing_columns(widths@),
    ensures
        field_views(r@) == width_fields(width_groups(widths@)),
{
    let groups = group_width_columns(widths);
    let ghost gs = group_view(groups@);
    let mut result: Vec<(Vec<char>, OrderedJson)> = Vec::new();
    let mut i: usize = 0;
    while i < groups.len()
        invariant
            i <= groups@.len(),
            gs == group_view(groups@),
            field_views(result@) == width_fields(gs.take(i as int)),
        decreases groups.len() - i,
    {
        push_run_fields(&mut result, groups[i].0, &groups[i].1);
        proof {
            assert(gs.take(i + 1).drop_last() =~= gs.take(i as int));
            assert(gs.take(i + 1).last() == gs[i as int]);
        }
        i = i + 1;
    }
    assert(gs.take(i as int) =~= gs);
    result
}

/// The value of the first field with a key.
pub open spec fn find_field(fields: Seq<(Seq<char>, JsonValue)>, key: Seq<char>, from: int) -> Option<JsonValue>
    decreases fields.len() - from,
{
    if from < 0 || from >= fields.len() {
        None
    } else if fields[from].0 == key {
        Some(fields[from].1)
    } else {
        find_field(fields, key, from + 1)
    }
}

fn find_field_exec<'a>(fields: &'a Vec<(Vec<char>, OrderedJson)>, key: &str) -> (r: Option<&'a OrderedJson>)
    ensures
        r matches Some(x) ==> find_field(field_views(fields@), key@, 0) == Some(x@),
        r is None ==> find_field(field_views(fields@), key@, 0) is None,
{
    let ghost fv = field_views(fields@);
    let mut i: usize = 0;
    while i < fields.len()
        invariant
            i <= fields@.len(),
            fv == field_views(fields@),
            find_field(fv, key@, 0) == find_field(fv, key@, i as int),
        decreases fields.len() - i,
    {
        if eq_str(&fields[i].0, key) {
            return Some(&fields[i].1);
        }
        i = i + 1;
    }
    None
}

/// The text of the first field with a key, when it is a string.
pub open spec fn named_str(fields: Seq<(Seq<char>, JsonValue)>, key: Seq<char>) -> Seq<Seq<char>> {
    match find_field(fields, key, 0) {
        Some(JsonValue::Str(s)) => seq![s],
        _ => Seq::empty(),
    }
}

/// The styles the cells of a row name.
pub open spec fn cell_styles(cells: Seq<JsonValue>) -> Seq<Seq<char>>
    decreases cells.len(),
{
    if cells.len() == 0 {
        Seq::empty()
    } else {
        cell_styles(cells.drop_last()) + (match cells.last() {
            JsonValue::Obj(cf) => named_str(cf, "style"@),
            _ => Seq::empty(),
        })
    }
}

/// The styles one row names: its row style, then its cells' styles.
pub open spec fn row_style_names(row: JsonValue) -> Seq<Seq<char>> {
    match row {
        JsonValue::Obj(rf) => named_str(rf, "rowStyle"@) + (match find_field(rf, "cells"@, 0) {
            Some(JsonValue::Arr(cells)) => cell_styles(cells),
            _ => Seq::empty(),
        }),
        _ => Seq::empty(),
    }
}

/// The styles the rows of an area name.
pub open spec fn row_styles(rows: Seq<JsonValue>) -> Seq<Seq<char>>
    decreases rows.len(),
{
    if rows.len() == 0 {
        Seq::empty()
    } else {
        row_styles(rows.drop_last()) + row_style_names(rows.last())
    }
}

/// The styles the rows of an area object name.
pub open spec fn area_style_names(area: JsonValue) -> Seq<Seq<char>> {
    match area {
        JsonValue::Obj(af) => match find_field(af, "rows"@, 0) {
            Some(JsonValue::Arr(rows)) => row_styles(rows),
            _ => Seq::empty(),
        },
        _ => Seq::empty(),
    }
}

/// The styles the areas name, in order, with repetitions.
pub open spec fn area_styles(areas: Seq<JsonValue>) -> Seq<Seq<char>>
    decreases areas.len(),
{
    if areas.len() == 0 {
        Seq::empty()
    } else {
        area_styles(areas.drop_last()) + area_style_names(areas.last())
    }
}

proof fn lemma_singleton_to_set(a: Seq<char>)
    ensures
        seq![a].to_set() == Set::<Seq<char>>::empty().insert(a),
{
    assert forall|x: Seq<char>| seq![a].contains(x) <==> x == a by {
        if x == a {
            assert(seq![a][0] == x);
        }
    }
    assert(seq![a].to_set() =~= Set::<Seq<char>>::empty().insert(a));
}

/// Adds a text to a list of distinct texts unless it is there.
fn insert_unique(set: &mut Vec<Vec<char>>, s: &[char])
    requires
        views(old(set)@).no_duplicates(),
    ensures
        views(final(set)@).no_duplicates(),
        views(final(set)@).to_set() == views(old(set)@).to_set().insert(s@),
{
    let ghost v0 = views(set@);
    let mut i: usize = 0;
    while i < set.len()
        invariant
            i <= set@.len(),
            v0 == views(set@),
            v0.no_duplicates(),
            forall|k: int| 0 <= k < i ==> v0[k] != s@,
        decreases set.len() - i,
    {
        if eq_chars(&set[i], s) {
            assert(v0[i as int] == s@);
            assert(v0.contains(s@));
            assert(v0.to_set().insert(s@) =~= v0.to_set());
            return;
        }
        i = i + 1;
    }
    push_line(set, crate::text::to_vec(s));
    proof {
        assert(views(set@) =~= v0 + seq![s@]);
        lemma_to_set_concat(v0, seq![s@]);
        lemma_singleton_to_set(s@);
        assert(views(set@).to_set() =~= v0.to_set().insert(s@));
        assert forall|a: int, b: int| 0 <= a < b < views(set@).len() implies views(set@)[a] != views(set@)[b] by {
            if b == v0.len() {
                assert(views(set@)[b] == s@);
                assert(v0[a] != s@);
            }
        }
    }
}

/// Adds the texts of `names` that are not there yet.
proof fn lemma_to_set_concat(a: Seq<Seq<char>>, b: Seq<Seq<char>>)
    ensures
        (a + b).to_set() == a.to_set().union(b.to_set()),
{
    assert((a + b).to_set() =~= a.to_set().union(b.to_set())) by {
        assert forall|x: Seq<char>| (a + b).contains(x) <==> a.contains(x) || b.contains(x) by {
            if a.contains(x) {
                let k = choose|k: int| 0 <= k < a.len() && a[k] == x;
                assert((a + b)[k] == x);
            }
            if b.contains(x) {
                let k = choose|k: int| 0 <= k < b.len() && b[k] == x;
                assert((a + b)[a.len() + k] == x);
            }
            if (a + b).contains(x) {
                let k = choose|k: int| 0 <= k < (a + b).len() && (a + b)[k] == x;
                if k < a.len() {
                    assert(a[k] == x);
                } else {
                    assert(b[k - a.len()] == x);
                }
            }
        }
    }
}

fn insert_named_str(set: &mut Vec<Vec<char>>, fields: &Vec<(Vec<char>, OrderedJson)>, key: &str)
    requires
        views(old(set)@).no_duplicates(),
    ensures
        views(final(set)@).no_duplicates(),
        views(final(set)@).to_set() == views(old(set)@).to_set().union(named_str(field_views(fields@), key@).to_set()),
{
    let ghost v0 = views(set@);
    match find_field_exec(fields, key) {
        Some(OrderedJson::Str(style)) => {
            insert_unique(set, style);
            proof {
                lemma_singleton_to_set(style@);
            }
            assert(views(set@).to_set() =~= v0.to_set().union(named_str(field_views(fields@), key@).to_set()));
        },
        _ => {
            assert(named_str(field_views(fields@), key@).to_set() =~= Set::empty());
            assert(views(set@).to_set() =~= v0.to_set().union(Set::empty()));
        },
    }
}

fn insert_cell_styles(set: &mut Vec<Vec<char>>, cells: &Vec<OrderedJson>)
    requires
        views(old(set)@).no_duplicates(),
    ensures
        views(final(set)@).no_duplicates(),
        views(final(set)@).to_set() == views(old(set)@).to_set().union(cell_styles(item_views(cells@)).to_set()),
{
    let ghost v0 = views(set@);
    let ghost cv = item_views(cells@);
    let mut i: usize = 0;
    while i < cells.len()
        invariant
            i <= cells@.len(),
            cv == item_views(cells@),
            views(set@).no_duplicates(),
            views(set@).to_set() == v0.to_set().union(cell_styles(cv.take(i as int)).to_set()),
        decreases cells.len() - i,
    {
        let ghost before = views(set@);
        proof {
            assert(cv.take(i + 1).drop_last() =~= cv.take(i as int));
            assert(cv.take(i + 1).last() == cells@[i as int]@);
        }
        match &cells[i] {
            OrderedJson::Obj(cf) => {
                proof {
                    lemma_obj_view(*cf);
                }
                insert_named_str(set, cf, "style");
                proof {
                    lemma_to_set_concat(cell_styles(cv.take(i as int)), named_str(field_views(cf@), "style"@));
                    assert(views(set@).to_set() =~= v0.to_set().union(cell_styles(cv.take(i + 1)).to_set()));
                }
            },
            _ => {
                assert(cell_styles(cv.take(i + 1)) =~= cell_styles(cv.take(i as int)));
            },
        }
        i = i + 1;
    }
    assert(cv.take(i as int) =~= cv);
}

fn insert_row_styles(set: &mut Vec<Vec<char>>, row: &OrderedJson)
    requires
        views(old(set)@).no_duplicates(),
    ensures
        views(final(set)@).no_duplicates(),
        views(final(set)@).to_set() == views(old(set)@).to_set().union(row_style_names(row@).to_set()),
{
    let ghost v0 = views(set@);
    match row {
        OrderedJson::Obj(rf) => {
            proof {
                lemma_obj_view(*rf);
            }
            insert_named_str(set, rf, "rowStyle");
            let ghost v1 = views(set@);
            let ghost a = named_str(field_views(rf@), "rowStyle"@);
            match find_field_exec(rf, "cells") {
                Some(OrderedJson::Arr(cells)) => {
                    proof {
                        lemma_arr_view(*cells);
                    }
                    insert_cell_styles(set, cells);
                    proof {
                        lemma_to_set_concat(a, cell_styles(item_views(cells@)));
                        assert(views(set@).to_set() =~= v0.to_set().union(row_style_names(row@).to_set()));
                    }
                },
                _ => {
                    assert(row_style_names(row@) =~= a);
                },
            }
        },
        _ => {
            assert(row_style_names(row@).to_set() =~= Set::empty());
            assert(views(set@).to_set() =~= v0.to_set().union(Set::empty()));
        },
    }
}

fn insert_area_styles(set: &mut Vec<Vec<char>>, area: &OrderedJson)
    requires
        views(old(set)@).no_duplicates(),
    ensures
        views(final(set)@).no_duplicates(),
        views(final(set)@).to_set() == views(old(set)@).to_set().union(area_style_names(area@).to_set()),
{
    let ghost v0 = views(set@);
    if let OrderedJson::Obj(af) = area {
        proof {
            lemma_obj_view(*af);
        }
        if let Some(OrderedJson::Arr(rows)) = find_field_exec(af, "rows") {
            proof {
                lemma_arr_view(*rows);
            }
            let ghost rv = item_views(rows@);
            let mut i: usize = 0;
            while i < rows.len()
                invariant
                    i <= rows@.len(),
                    rv == item_views(rows@),
                    views(set@).no_duplicates(),
                    views(set@).to_set() == v0.to_set().union(row_styles(rv.take(i as int)).to_set()),
                decreases rows.len() - i,
            {
                proof {
                    assert(rv.take(i + 1).drop_last() =~= rv.take(i as int));
                    assert(rv.take(i + 1).last() == rows@[i as int]@);
                }
                insert_row_styles(set, &rows[i]);
                proof {
                    lemma_to_set_concat(row_styles(rv.take(i as int)), row_style_names(rows@[i as int]@));
                    assert(views(set@).to_set() =~= v0.to_set().union(row_styles(rv.take(i + 1)).to_set()));
                }
                i = i + 1;
            }
            assert(rv.take(i as int) =~= rv);
            return;
        }
    }
    assert(area_style_names(area@).to_set() =~= Set::empty());
    assert(views(set@).to_set() =~= v0.to_set().union(Set::empty()));
}

/// The styles that the areas name, each once.
pub fn mxl_decompile_used_styles(areas: &[OrderedJson]) -> (r: Vec<Vec<char>>)
    ensures
        views(r@).no_duplicates(),
        views(r@).to_set() == area_styles(item_views(areas@)).to_set(),
{
    let ghost av = item_views(areas@);
    let mut result: Vec<Vec<char>> = Vec::new();
    assert(views(result@) =~= Seq::<Seq<char>>::empty());
    assert(area_styles(av.take(0)).to_set() =~= Set::empty());
    assert(views(result@).to_set() =~= Set::empty());
    let mut i: usize = 0;
    while i < areas.len()
        invariant
            i <= areas@.len(),
            av == item_views(areas@),
            views(result@).no_duplicates(),
            views(result@).to_set() == area_styles(av.take(i as int)).to_set(),
        decreases areas.len() - i,
    {
        proof {
            assert(av.take(i + 1).drop_last() =~= av.take(i as int));
            assert(av.take(i + 1).last() == areas@[i as int]@);
        }
        insert_area_styles(&mut result, &areas[i]);
        proof {
            lemma_to_set_concat(area_styles(av.take(i as int)), area_style_names(areas@[i as int]@));
        }
        i = i + 1;
    }
    assert(av.take(i as int) =~= av);
    result
}

/// `base` with the number `k` appended.
pub open spec fn suffixed(base: Seq<char>, k: nat) -> Seq<char> {
    base + crate::numbers::nat_text(k)
}

/// `k` is the first number from 2 on whose suffixed name is not taken.
pub open spec fn first_free_suffix(base: Seq<char>, taken: Seq<Seq<char>>, k: nat) -> bool {
    &&& k >= 2
    &&& !taken.contains(suffixed(base, k))
    &&& forall|j: nat| 2 <= j < k ==> taken.contains(#[trigger] suffixed(base, j))
}

/// `base` when it is free, else `base` with the first free number from 2 on.
pub open spec fn unique_name(base: Seq<char>, taken: Seq<Seq<char>>) -> Seq<char> {
    if !taken.contains(base) {
        base
    } else {
        suffixed(base, choose|k: nat| first_free_suffix(base, taken, k))
    }
}

proof fn lemma_first_free_unique(base: Seq<char>, taken: Seq<Seq<char>>, k1: nat, k2: nat)
    requires
        first_free_suffix(base, taken, k1),
        first_free_suffix(base, taken, k2),
    ensures
        k1 == k2,
{
    if k1 < k2 {
        assert(taken.contains(suffixed(base, k1)));
    } else if k2 < k1 {
        assert(taken.contains(suffixed(base, k2)));
    }
}

/// With the names for `2..=k` all taken, there are at least `k - 1` taken names.
pub(crate) proof fn lemma_taken_suffixes_bound(base: Seq<char>, taken: Seq<Seq<char>>, k: nat)
    requires
        k >= 2,
        forall|j: nat| 2 <= j <= k ==> taken.contains(#[trigger] suffixed(base, j)),
    ensures
        k - 1 <= taken.len(),
{
    let x = vstd::set_lib::set_int_range(2, k as int + 1);
    let f = |j: int| suffixed(base, j as nat);
    vstd::set_lib::lemma_int_range(2, k as int + 1);
    assert(vstd::relations::injective_on(f, x)) by {
        assert forall|a: int, b: int| x.contains(a) && x.contains(b) && #[trigger] f(a) == #[trigger] f(b) implies a == b by {
            let ta = crate::numbers::nat_text(a as nat);
            let tb = crate::numbers::nat_text(b as nat);
            assert((base + ta).subrange(base.len() as int, (base + ta).len() as int) =~= ta);
            assert((base + tb).subrange(base.len() as int, (base + tb).len() as int) =~= tb);
            crate::numbers::lemma_nat_text_injective(a as nat, b as nat);
        }
    }
    let y = x.map(f);
    vstd::set_lib::lemma_map_size(x, y, f);
    assert(y.subset_of(taken.to_set())) by {
        assert forall|n: Seq<char>| y.contains(n) implies taken.to_set().contains(n) by {
            let a = choose|a: int| x.contains(a) && f(a) == n;
            assert(taken.contains(suffixed(base, a as nat)));
        }
    }
    vstd::seq_lib::seq_to_set_is_finite(taken);
    vstd::set_lib::lemma_len_subset(y, taken.to_set());
    taken.lemma_cardinality_of_set();
}

/// A name not in `taken`: `base` itself, or `base` with the first number from 2
/// on that gives a free name.
pub fn unique_name_exec(base: &[char], taken: &[Vec<char>]) -> (r: Vec<char>)
    ensures
        r@ == unique_name(base@, views(taken@)),
        !views(taken@).contains(r@),
{
    let ghost tv = views(taken@);
    if !contains_text(taken, base) {
        return crate::text::to_vec(base);
    }
    let mut k: u128 = 2;
    let count: usize = taken.len();
    assert(tv.len() == count);
    loop
        invariant
            2 <= k,
            k - 2 <= tv.len(),
            tv == views(taken@),
            tv.len() <= usize::MAX,
            tv.contains(base@),
            forall|j: nat| 2 <= j < k ==> tv.contains(#[trigger] suffixed(base@, j)),
        decreases tv.len() + 2 - k,
    {
        let mut name = crate::text::to_vec(base);
        push_chars(&mut name, &crate::numbers::u128_text(k));
        assert(name@ == suffixed(base@, k as nat));
        if !contains_text(taken, &name) {
            proof {
                assert(first_free_suffix(base@, tv, k as nat));
                let c = choose|c: nat| first_free_suffix(base@, tv, c);
                lemma_first_free_unique(base@, tv, c, k as nat);
            }
            return name;
        }
        proof {
            lemma_taken_suffixes_bound(base@, tv, k as nat);
        }
        k = k + 1;
    }
}

/// Whether a text is in a list.
fn contains_text(items: &[Vec<char>], t: &[char]) -> (b: bool)
    ensures
        b == views(items@).contains(t@),
{
    let mut i: usize = 0;
    while i < items.len()
        invariant
            i <= items@.len(),
            forall|k: int| 0 <= k < i ==> views(items@)[k] != t@,
        decreases items.len() - i,
    {
        if eq_chars(&items[i], t) {
            assert(views(items@)[i as int] == t@);
            return true;
        }
        i = i + 1;
    }
    false
}

/// The words of a font's descriptive name: its face (lower case, when it is
/// not the default face), size and style flags.
pub open spec fn font_name_parts(font: MxlRawFont, default: MxlRawFont) -> Seq<Seq<char>> {
    font_name_parts_given(font, default, lowercase_of(font.face@))
}

/// The parts of a font's name, given its face in lower case.
pub open spec fn font_name_parts_given(font: MxlRawFont, default: MxlRawFont, lowered_face: Seq<char>) -> Seq<Seq<char>> {
    (if font.face@.len() > 0 && font.face@ != default.face@ {
        seq![lowered_face]
    } else {
        Seq::empty()
    }) + seq![int_text(font.size as int)] + (if font.bold { seq!["bold"@] } else { Seq::empty() }) + (if font.italic {
        seq!["italic"@]
    } else {
        Seq::empty()
    }) + (if font.underline { seq!["underline"@] } else { Seq::empty() }) + (if font.strikeout {
        seq!["strikeout"@]
    } else {
        Seq::empty()
    })
}

/// The short name of a font that differs from the default one in a single
/// usual way, or empty.
pub open spec fn short_font_name(font: MxlRawFont, default: MxlRawFont) -> Seq<char> {
    if font.face@ == default.face@ && font.size == default.size {
        if font.bold && !default.bold && !font.italic && !font.underline && !font.strikeout {
            "bold"@
        } else if font.italic && !default.italic && !font.bold {
            "italic"@
        } else if font.underline && !default.underline && !font.bold && !font.italic {
            "underline"@
        } else {
            Seq::empty()
        }
    } else if font.face@ == default.face@ && font.size > default.size && font.bold {
        "header"@
    } else if font.face@ == default.face@ && font.size < default.size {
        "small"@
    } else {
        Seq::empty()
    }
}

/// The name a font is given before names are made unique.
pub open spec fn base_font_name(font: MxlRawFont, default: MxlRawFont) -> Seq<char> {
    base_font_name_given(font, default, lowercase_of(font.face@))
}

/// The base name of a font, given its face in lower case.
pub open spec fn base_font_name_given(font: MxlRawFont, default: MxlRawFont, lowered_face: Seq<char>) -> Seq<char> {
    let short = short_font_name(font, default);
    if short.len() == 0 {
        join(font_name_parts_given(font, default, lowered_face), "-"@)
    } else {
        short
    }
}

/// The names of definitions.
pub open spec fn def_names(defs: Seq<(Seq<char>, JsonValue)>) -> Seq<Seq<char>> {
    defs.map_values(|d: (Seq<char>, JsonValue)| d.0)
}

/// Naming the first `n` fonts: the name of each font by index, the font
/// definitions, and the names given to each distinct font key. The first font
/// is `default`; a font equal to an earlier one gets its name, any other one a
/// new definition under a name no definition has yet.
pub open spec fn named_fonts(fonts: Seq<MxlRawFont>, n: int) -> (Seq<Seq<char>>, Seq<(Seq<char>, JsonValue)>, Map<Seq<char>, Seq<char>>)
    decreases n,
{
    if n <= 0 || fonts.len() == 0 {
        (Seq::empty(), Seq::empty(), Map::empty())
    } else if n == 1 {
        (seq!["default"@], seq![("default"@, font_json(fonts[0]))], Map::empty().insert(font_key(fonts[0]), "default"@))
    } else {
        let (names, defs, keys) = named_fonts(fonts, n - 1);
        let font = fonts[n - 1];
        let key = font_key(font);
        if keys.contains_key(key) {
            (names.push(keys[key]), defs, keys)
        } else {
            let name = unique_name(base_font_name(font, fonts[0]), def_names(defs));
            (names.push(name), defs.push((name, font_json(font))), keys.insert(key, name))
        }
    }
}

/// The names of all fonts by index, and the font definitions.
pub open spec fn font_naming(fonts: Seq<MxlRawFont>) -> (Seq<Seq<char>>, Seq<(Seq<char>, JsonValue)>) {
    let (names, defs, _) = named_fonts(fonts, fonts.len() as int);
    (names, defs)
}

fn base_font_name_exec(font: &MxlRawFont, default: &MxlRawFont) -> (r: Vec<char>)
    ensures
        r@ == base_font_name(*font, *default),
{
    let lowered = to_lowercase(&font.face);
    mxl_decompile_font_base_name(font, default, &lowered)
}

/// The base name of a font against the default font, given the font's face in
/// lower case: a short name for one usual difference, else its parts joined.
pub fn mxl_decompile_font_base_name(font: &MxlRawFont, default: &MxlRawFont, lowered_face: &[char]) -> (r: Vec<char>)
    ensures
        r@ == base_font_name_given(*font, *default, lowered_face@),
{
    let same_face = eq_chars(&font.face, &default.face);
    let short: Option<&str> = if same_face && font.size == default.size {
        if font.bold && !default.bold && !font.italic && !font.underline && !font.strikeout {
            Some("bold")
        } else if font.italic && !default.italic && !font.bold {
            Some("italic")
        } else if font.underline && !default.underline && !font.bold && !font.italic {
            Some("underline")
        } else {
            None
        }
    } else if same_face && font.size > default.size && font.bold {
        Some("header")
    } else if same_face && font.size < default.size {
        Some("small")
    } else {
        None
    };
    proof {
        reveal_strlit("bold");
        reveal_strlit("italic");
        reveal_strlit("underline");
        reveal_strlit("header");
        reveal_strlit("small");
    }
    if let Some(name) = short {
        assert(name@ == short_font_name(*font, *default));
        return chars_of(name);
    }
    assert(short_font_name(*font, *default).len() == 0);
    let mut parts: Vec<Vec<char>> = Vec::new();
    if font.face.len() > 0 && !same_face {
        push_line(&mut parts, crate::text::to_vec(lowered_face));
    }
    let ghost a = views(parts@);
    push_line(&mut parts, i64_text(font.size));
    let ghost b = views(parts@);
    if font.bold {
        push_line(&mut parts, chars_of("bold"));
    }
    let ghost c = views(parts@);
    if font.italic {
        push_line(&mut parts, chars_of("italic"));
    }
    let ghost d = views(parts@);
    if font.underline {
        push_line(&mut parts, chars_of("underline"));
    }
    let ghost e = views(parts@);
    if font.strikeout {
        push_line(&mut parts, chars_of("strikeout"));
    }
    proof {
        let f = *font;
        assert(a =~= (if f.face@.len() > 0 && f.face@ != default.face@ {
            seq![lowered_face@]
        } else {
            Seq::<Seq<char>>::empty()
        }));
        assert(c =~= b + (if f.bold { seq!["bold"@] } else { Seq::<Seq<char>>::empty() }));
        assert(d =~= c + (if f.italic { seq!["italic"@] } else { Seq::<Seq<char>>::empty() }));
        assert(e =~= d + (if f.underline { seq!["underline"@] } else { Seq::<Seq<char>>::empty() }));
        assert(views(parts@) =~= font_name_parts_given(f, *default, lowered_face@));
    }
    join_str(&parts, "-")
}

pub fn mxl_decompile_name_fonts(raw_fonts: &[MxlRawFont]) -> (r: (Vec<Vec<char>>, Vec<(Vec<char>, OrderedJson)>))
    ensures
        (views(r.0@), field_views(r.1@)) == font_naming(raw_fonts@),
{
    let mut font_names: Vec<Vec<char>> = Vec::new();
    let mut font_defs: Vec<(Vec<char>, OrderedJson)> = Vec::new();
    if raw_fonts.len() == 0 {
        assert(views(font_names@) =~= Seq::<Seq<char>>::empty());
        assert(field_views(font_defs@) =~= Seq::<(Seq<char>, JsonValue)>::empty());
        return (font_names, font_defs);
    }
    let ghost fonts = raw_fonts@;
    push_line(&mut font_names, chars_of("default"));
    push_field(&mut font_defs, "default", mxl_decompile_font_json(&raw_fonts[0]));
    let mut def_list: Vec<Vec<char>> = Vec::new();
    push_line(&mut def_list, chars_of("default"));
    let mut key_map: Vec<(Vec<char>, Vec<char>)> = Vec::new();
    key_map.push((mxl_decompile_font_key(&raw_fonts[0]), chars_of("default")));
    proof {
        assert(views(font_names@) =~= seq!["default"@]);
        assert(field_views(font_defs@) =~= seq![("default"@, font_json(fonts[0]))]);
        assert(key_map@.len() == 1);
        assert(key_map@.drop_last() =~= Seq::<(Vec<char>, Vec<char>)>::empty());
        assert(key_map@.last().0@ == font_key(fonts[0]));
        assert(key_map@.last().1@ == "default"@);
        assert(text_key_map(Seq::<(Vec<char>, Vec<char>)>::empty()) == Map::<Seq<char>, Seq<char>>::empty());
        assert(text_key_map(key_map@) =~= Map::empty().insert(font_key(fonts[0]), "default"@));
        assert(views(def_list@) =~= def_names(field_views(font_defs@)));
    }
    let mut idx: usize = 1;
    while idx < raw_fonts.len()
        invariant
            1 <= idx <= raw_fonts@.len(),
            fonts == raw_fonts@,
            (views(font_names@), field_views(font_defs@), text_key_map(key_map@)) == named_fonts(fonts, idx as int),
            views(def_list@) == def_names(field_views(font_defs@)),
        decreases raw_fonts.len() - idx,
    {
        let font = &raw_fonts[idx];
        let key = mxl_decompile_font_key(font);
        match lookup_text_key(&key_map, &key) {
            Some(existing) => {
                push_line(&mut font_names, crate::text::to_vec(existing));
            },
            None => {
                let base = base_font_name_exec(font, &raw_fonts[0]);
                let name = unique_name_exec(&base, &def_list);
                push_line(&mut font_names, crate::text::to_vec(&name));
                let ghost dv = field_views(font_defs@);
                let json = mxl_decompile_font_json(font);
                let ghost jv = json@;
                font_defs.push((crate::text::to_vec(&name), json));
                assert(field_views(font_defs@) =~= dv.push((name@, jv)));
                push_line(&mut def_list, crate::text::to_vec(&name));
                assert(views(def_list@) =~= def_names(field_views(font_defs@)));
                let ghost km = key_map@;
                let ghost kv = key@;
                key_map.push((key, name));
                assert(key_map@.drop_last() =~= km);
            },
        }
        idx = idx + 1;
    }
    (font_names, font_defs)
}

/// The format indices of the cells of the rows, row by row.
pub open spec fn cell_format_indices(rows: Seq<(i64, MxlDecompiledRow)>) -> Seq<i64>
    decreases rows.len(),
{
    if rows.len() == 0 {
        Seq::empty()
    } else {
        cell_format_indices(rows.drop_last()) + rows.last().1.cells@.map_values(|c: MxlDecompiledCell| c.format_idx)
    }
}

/// The distinct style keys of the formats of the cells, each with the format it
/// was first seen with, and the style key of each format index that has a
/// format.
pub open spec fn style_key_scan(idxs: Seq<i64>, formats: Seq<MxlRawFormat>, raw_lines: Seq<i64>) -> (Seq<(Seq<char>, MxlRawFormat)>, Map<int, Seq<char>>)
    decreases idxs.len(),
{
    if idxs.len() == 0 {
        (Seq::empty(), Map::empty())
    } else {
        let (keys, m) = style_key_scan(idxs.drop_last(), formats, raw_lines);
        let idx = idxs.last() as int;
        match format_at(formats, idx) {
            Some(f) => {
                let k = style_key(Some(f), raw_lines);
                (
                    if keys.map_values(|e: (Seq<char>, MxlRawFormat)| e.0).contains(k) {
                        keys
                    } else {
                        keys.push((k, f))
                    },
                    m.insert(idx, k),
                )
            },
            None => (keys, m),
        }
    }
}

/// Naming the styles in order: each gets its descriptive name, made unique
/// among the definitions before it, and a definition.
pub open spec fn named_styles(keys: Seq<(Seq<char>, MxlRawFormat)>, raw_lines: Seq<i64>, font_names: Seq<Seq<char>>) -> (Map<Seq<char>, Seq<char>>, Seq<(Seq<char>, JsonValue)>)
    decreases keys.len(),
{
    if keys.len() == 0 {
        (Map::empty(), Seq::empty())
    } else {
        let (names, defs) = named_styles(keys.drop_last(), raw_lines, font_names);
        let (k, f) = keys.last();
        let name = unique_name(style_name(f, raw_lines, font_names), def_names(defs));
        (names.insert(k, name), defs.push((name, style_json(f, raw_lines, font_names))))
    }
}

/// The styles of the cells of the rows: the name of each style key, the style
/// definitions, and the style key of each format index.
pub open spec fn decompiled_styles(rows: Seq<(i64, MxlDecompiledRow)>, formats: Seq<MxlRawFormat>, raw_lines: Seq<i64>, font_names: Seq<Seq<char>>) -> (Map<Seq<char>, Seq<char>>, Seq<(Seq<char>, JsonValue)>, Map<int, Seq<char>>) {
    let (keys, m) = style_key_scan(cell_format_indices(rows), formats, raw_lines);
    let (names, defs) = named_styles(keys, raw_lines, font_names);
    (names, defs, m)
}

pub open spec fn key_list_view(keys: Seq<(Vec<char>, usize)>, formats: Seq<MxlRawFormat>) -> Seq<(Seq<char>, MxlRawFormat)> {
    keys.map_values(|e: (Vec<char>, usize)| (e.0@, formats[e.1 as int]))
}

/// Scans the cells of one row, continuing the scan of the cells `done`.
fn scan_row_styles(
    row: &MxlDecompiledRow,
    raw_formats: &[MxlRawFormat],
    raw_lines: &[i64],
    keys: &mut Vec<(Vec<char>, usize)>,
    format_keys: &mut Vec<(i64, Vec<char>)>,
    Ghost(done): Ghost<Seq<i64>>,
)
    requires
        forall|k: int| 0 <= k < old(keys)@.len() ==> old(keys)@[k].1 < raw_formats@.len(),
        (key_list_view(old(keys)@, raw_formats@), int_key_map(old(format_keys)@)) == style_key_scan(done, raw_formats@, raw_lines@),
    ensures
        forall|k: int| 0 <= k < final(keys)@.len() ==> final(keys)@[k].1 < raw_formats@.len(),
        (key_list_view(final(keys)@, raw_formats@), int_key_map(final(format_keys)@)) == style_key_scan(
            done + row.cells@.map_values(|c: MxlDecompiledCell| c.format_idx),
            raw_formats@,
            raw_lines@,
        ),
{
    let ghost cells = row.cells@.map_values(|c: MxlDecompiledCell| c.format_idx);
    let mut j: usize = 0;
    assert(done + cells.take(0) =~= done);
    while j < row.cells.len()
        invariant
            j <= row.cells@.len(),
            cells == row.cells@.map_values(|c: MxlDecompiledCell| c.format_idx),
            forall|k: int| 0 <= k < keys@.len() ==> keys@[k].1 < raw_formats@.len(),
            (key_list_view(keys@, raw_formats@), int_key_map(format_keys@)) == style_key_scan(
                done + cells.take(j as int),
                raw_formats@,
                raw_lines@,
            ),
        decreases row.cells.len() - j,
    {
        let idx = row.cells[j].format_idx;
        let ghost prev = done + cells.take(j as int);
        let ghost next = done + cells.take(j + 1);
        proof {
            assert(next.drop_last() =~= prev);
            assert(next.last() == idx);
        }
        let ghost scan0 = style_key_scan(prev, raw_formats@, raw_lines@);
        let format_count: usize = raw_formats.len();
        if let Some(format) = mxl_decompile_format(raw_formats, idx) {
            let pos: usize = (idx - 1) as usize;
            assert(pos as int == idx - 1);
            let key = mxl_decompile_style_key(Some(format), raw_lines);
            let ghost kv = key_list_view(keys@, raw_formats@);
            assert(*format == raw_formats@[pos as int]);
            let mut found = false;
            let mut k: usize = 0;
            while k < keys.len()
                invariant
                    k <= keys@.len(),
                    kv == key_list_view(keys@, raw_formats@),
                    !found ==> forall|m: int| 0 <= m < k ==> kv[m].0 != key@,
                    found ==> kv.map_values(|e: (Seq<char>, MxlRawFormat)| e.0).contains(key@),
                decreases keys.len() - k,
            {
                if !found && eq_chars(&keys[k].0, &key) {
                    found = true;
                    assert(kv.map_values(|e: (Seq<char>, MxlRawFormat)| e.0)[k as int] == key@);
                }
                k = k + 1;
            }
            if !found {
                let ghost names = kv.map_values(|e: (Seq<char>, MxlRawFormat)| e.0);
                assert(!names.contains(key@)) by {
                    if names.contains(key@) {
                        let m = choose|m: int| 0 <= m < names.len() && names[m] == key@;
                        assert(kv[m].0 == key@);
                    }
                }
                let copy = crate::text::to_vec(&key);
                keys.push((copy, pos));
                assert(key_list_view(keys@, raw_formats@) =~= kv.push((key@, raw_formats@[pos as int])));
            }
            let ghost fk = format_keys@;
            let ghost kk = key@;
            format_keys.push((idx, key));
            assert(format_keys@.drop_last() =~= fk);
            assert(int_key_map(format_keys@) == int_key_map(fk).insert(idx as int, kk));
            assert(style_key_scan(next, raw_formats@, raw_lines@) == (
                if kv.map_values(|e: (Seq<char>, MxlRawFormat)| e.0).contains(kk) {
                    kv
                } else {
                    kv.push((kk, raw_formats@[pos as int]))
                },
                int_key_map(fk).insert(idx as int, kk),
            ));
        } else {
            assert(style_key_scan(next, raw_formats@, raw_lines@) == scan0);
        }
        j = j + 1;
    }
    assert(cells.take(j as int) =~= cells);
}

/// Names the styles of the scanned keys in order.
fn name_styles(
    keys: &Vec<(Vec<char>, usize)>,
    raw_formats: &[MxlRawFormat],
    raw_lines: &[i64],
    font_names: &[Vec<char>],
) -> (r: (Vec<(Vec<char>, Vec<char>)>, Vec<(Vec<char>, OrderedJson)>))
    requires
        forall|k: int| 0 <= k < keys@.len() ==> keys@[k].1 < raw_formats@.len(),
    ensures
        (text_key_map(r.0@), field_views(r.1@)) == named_styles(key_list_view(keys@, raw_formats@), raw_lines@, views(font_names@)),
{
    let ghost kv = key_list_view(keys@, raw_formats@);
    let mut names: Vec<(Vec<char>, Vec<char>)> = Vec::new();
    let mut defs: Vec<(Vec<char>, OrderedJson)> = Vec::new();
    let mut def_list: Vec<Vec<char>> = Vec::new();
    assert(kv.take(0) =~= Seq::<(Seq<char>, MxlRawFormat)>::empty());
    assert(field_views(defs@) =~= Seq::<(Seq<char>, JsonValue)>::empty());
    assert(views(def_list@) =~= def_names(field_views(defs@)));
    let mut i: usize = 0;
    while i < keys.len()
        invariant
            i <= keys@.len(),
            kv == key_list_view(keys@, raw_formats@),
            forall|k: int| 0 <= k < keys@.len() ==> keys@[k].1 < raw_formats@.len(),
            (text_key_map(names@), field_views(defs@)) == named_styles(kv.take(i as int), raw_lines@, views(font_names@)),
            views(def_list@) == def_names(field_views(defs@)),
        decreases keys.len() - i,
    {
        proof {
            assert(kv.take(i + 1).drop_last() =~= kv.take(i as int));
            assert(kv.take(i + 1).last() == kv[i as int]);
        }
        let format = &raw_formats[keys[i].1];
        let base = mxl_decompile_style_name(format, raw_lines, font_names);
        let name = unique_name_exec(&base, &def_list);
        let ghost nm = names@;
        names.push((crate::text::to_vec(&keys[i].0), crate::text::to_vec(&name)));
        assert(names@.drop_last() =~= nm);
        let json = mxl_decompile_style_json(format, raw_lines, font_names);
        let ghost dv = field_views(defs@);
        let ghost jv = json@;
        defs.push((crate::text::to_vec(&name), json));
        assert(field_views(defs@) =~= dv.push((name@, jv)));
        push_line(&mut def_list, name);
        assert(views(def_list@) =~= def_names(field_views(defs@)));
        i = i + 1;
    }
    assert(kv.take(i as int) =~= kv);
    (names, defs)
}

pub fn mxl_decompile_styles(
    row_data: &[(i64, MxlDecompiledRow)],
    raw_formats: &[MxlRawFormat],
    raw_lines: &[i64],
    font_names: &[Vec<char>],
) -> (r: (Vec<(Vec<char>, Vec<char>)>, Vec<(Vec<char>, OrderedJson)>, Vec<(i64, Vec<char>)>))
    ensures
        (text_key_map(r.0@), field_views(r.1@), int_key_map(r.2@)) == decompiled_styles(
            row_data@,
            raw_formats@,
            raw_lines@,
            views(font_names@),
        ),
{
    let mut keys: Vec<(Vec<char>, usize)> = Vec::new();
    let mut format_keys: Vec<(i64, Vec<char>)> = Vec::new();
    let ghost rows = row_data@;
    assert(key_list_view(keys@, raw_formats@) =~= Seq::<(Seq<char>, MxlRawFormat)>::empty());
    assert(int_key_map(format_keys@) == Map::<int, Seq<char>>::empty());
    assert(rows.take(0) =~= Seq::<(i64, MxlDecompiledRow)>::empty());
    let mut i: usize = 0;
    while i < row_data.len()
        invariant
            i <= rows.len(),
            rows == row_data@,
            forall|k: int| 0 <= k < keys@.len() ==> keys@[k].1 < raw_formats@.len(),
            (key_list_view(keys@, raw_formats@), int_key_map(format_keys@)) == style_key_scan(
                cell_format_indices(rows.take(i as int)),
                raw_formats@,
                raw_lines@,
            ),
        decreases row_data.len() - i,
    {
        proof {
            assert(rows.take(i + 1).drop_last() =~= rows.take(i as int));
            assert(rows.take(i + 1).last() == rows[i as int]);
        }
        scan_row_styles(&row_data[i].1, raw_formats, raw_lines, &mut keys, &mut format_keys, Ghost(cell_format_indices(rows.take(i as int))));
        i = i + 1;
    }
    assert(rows.take(i as int) =~= rows);
    let (names, defs) = name_styles(&keys, raw_formats, raw_lines, font_names);
    (names, defs, format_keys)
}

/// The rows by index, a later row overriding an earlier one with the same index.
pub open spec fn row_map(rows: Seq<(i64, MxlDecompiledRow)>) -> Map<int, MxlDecompiledRow>
    decreases rows.len(),
{
    if rows.len() == 0 {
        Map::empty()
    } else {
        row_map(rows.drop_last()).insert(rows.last().0 as int, rows.last().1)
    }
}

/// The merges by row and column: how many more columns and rows they span.
pub open spec fn merge_lookup(merges: Seq<((i64, i64), (i64, i64))>) -> Map<(int, int), (int, int)>
    decreases merges.len(),
{
    if merges.len() == 0 {
        Map::empty()
    } else {
        merge_lookup(merges.drop_last()).insert(
            (merges.last().0.0 as int, merges.last().0.1 as int),
            (merges.last().1.0 as int, merges.last().1.1 as int),
        )
    }
}

/// A cell that is written out: it has a parameter or text, or starts a merge.
pub open spec fn kept_cell(c: MxlDecompiledCell, g: int, merges: Map<(int, int), (int, int)>) -> bool {
    c.param is Some || c.text is Some || merges.contains_key((g, c.col as int))
}

/// The distinct texts in order of first occurrence.
pub open spec fn distinct_texts(keys: Seq<Seq<char>>) -> Seq<Seq<char>>
    decreases keys.len(),
{
    if keys.len() == 0 {
        Seq::empty()
    } else {
        let d = distinct_texts(keys.drop_last());
        if d.contains(keys.last()) {
            d
        } else {
            d.push(keys.last())
        }
    }
}

/// The style keys of the cells of a row that are not written out.
pub open spec fn gap_keys(cells: Seq<MxlDecompiledCell>, g: int, merges: Map<(int, int), (int, int)>, formats: Seq<MxlRawFormat>, raw_lines: Seq<i64>) -> Seq<Seq<char>>
    decreases cells.len(),
{
    if cells.len() == 0 {
        Seq::empty()
    } else {
        gap_keys(cells.drop_last(), g, merges, formats, raw_lines) + (if kept_cell(cells.last(), g, merges) {
            Seq::empty()
        } else {
            seq![style_key(format_at(formats, cells.last().format_idx as int), raw_lines)]
        })
    }
}

/// The style of a row: when all the cells that are not written out share one
/// named style, its key and name.
pub open spec fn row_style(
    cells: Seq<MxlDecompiledCell>,
    g: int,
    merges: Map<(int, int), (int, int)>,
    formats: Seq<MxlRawFormat>,
    raw_lines: Seq<i64>,
    names: Map<Seq<char>, Seq<char>>,
) -> Option<(Seq<char>, Seq<char>)> {
    let d = distinct_texts(gap_keys(cells, g, merges, formats, raw_lines));
    if d.len() == 1 && names.contains_key(d[0]) {
        Some((d[0], names[d[0]]))
    } else {
        None
    }
}

/// `x` placed after every cell of `sorted` whose column is not greater.
pub open spec fn insert_by_col(sorted: Seq<MxlDecompiledCell>, x: MxlDecompiledCell) -> Seq<MxlDecompiledCell>
    decreases sorted.len(),
{
    if sorted.len() == 0 || sorted.last().col <= x.col {
        sorted.push(x)
    } else {
        insert_by_col(sorted.drop_last(), x).push(sorted.last())
    }
}

/// The cells sorted by column, cells with equal columns kept in their order
/// (a stable sort).
pub open spec fn sorted_by_col(cells: Seq<MxlDecompiledCell>) -> Seq<MxlDecompiledCell>
    decreases cells.len(),
{
    if cells.len() == 0 {
        Seq::empty()
    } else {
        insert_by_col(sorted_by_col(cells.drop_last()), cells.last())
    }
}

/// The cells of a row that are written out, in their order.
pub open spec fn kept_cells(cells: Seq<MxlDecompiledCell>, g: int, merges: Map<(int, int), (int, int)>) -> Seq<MxlDecompiledCell>
    decreases cells.len(),
{
    if cells.len() == 0 {
        Seq::empty()
    } else {
        kept_cells(cells.drop_last(), g, merges) + (if kept_cell(cells.last(), g, merges) {
            seq![cells.last()]
        } else {
            Seq::empty()
        })
    }
}

/// The span fields of a cell that starts a merge.
pub open spec fn merge_fields(c: MxlDecompiledCell, g: int, merges: Map<(int, int), (int, int)>) -> Seq<(Seq<char>, JsonValue)> {
    if merges.contains_key((g, c.col as int)) {
        let (w, h) = merges[(g, c.col as int)];
        (if w > 0 { seq![("span"@, JsonValue::Int(w + 1))] } else { Seq::empty() }) + (if h > 0 {
            seq![("rowspan"@, JsonValue::Int(h + 1))]
        } else {
            Seq::empty()
        })
    } else {
        Seq::empty()
    }
}

/// The style field of a cell: given unless the cell has the row's style, and
/// unless it is `default` in a row with a style.
pub open spec fn cell_style_field(
    c: MxlDecompiledCell,
    formats: Seq<MxlRawFormat>,
    raw_lines: Seq<i64>,
    rs: Option<(Seq<char>, Seq<char>)>,
    f2k: Map<int, Seq<char>>,
    names: Map<Seq<char>, Seq<char>>,
) -> Seq<(Seq<char>, JsonValue)> {
    let key = style_key(format_at(formats, c.format_idx as int), raw_lines);
    if rs matches Some((rk, _)) && rk == key {
        Seq::empty()
    } else {
        let name = style_name_for(c.format_idx as int, f2k, names);
        if name != "default"@ || rs is None {
            seq![("style"@, JsonValue::Str(name))]
        } else {
            Seq::empty()
        }
    }
}

/// The content fields of a cell: its parameter (and detail), else its text as a
/// template or as plain text.
pub open spec fn cell_content_fields(c: MxlDecompiledCell, formats: Seq<MxlRawFormat>) -> Seq<(Seq<char>, JsonValue)> {
    let fill = match format_at(formats, c.format_idx as int) {
        Some(f) => f.fill_type@,
        None => Seq::empty(),
    };
    match c.param {
        Some(p) => seq![("param"@, JsonValue::Str(p@))] + (match c.detail {
            Some(d) => seq![("detail"@, JsonValue::Str(d@))],
            None => Seq::empty(),
        }),
        None => match c.text {
            Some(t) => if fill == "Template"@ {
                seq![("template"@, JsonValue::Str(t@))]
            } else {
                seq![("text"@, JsonValue::Str(t@))]
            },
            None => Seq::empty(),
        },
    }
}

/// A written-out cell as JSON.
pub open spec fn cell_json(
    c: MxlDecompiledCell,
    g: int,
    merges: Map<(int, int), (int, int)>,
    formats: Seq<MxlRawFormat>,
    raw_lines: Seq<i64>,
    rs: Option<(Seq<char>, Seq<char>)>,
    f2k: Map<int, Seq<char>>,
    names: Map<Seq<char>, Seq<char>>,
) -> JsonValue {
    JsonValue::Obj(
        seq![("col"@, JsonValue::Int(c.col + 1))] + merge_fields(c, g, merges) + cell_style_field(c, formats, raw_lines, rs, f2k, names)
            + cell_content_fields(c, formats),
    )
}

fn lookup_merge(merges: &[((i64, i64), (i64, i64))], row: i64, col: i64) -> (r: Option<(i64, i64)>)
    ensures
        r matches Some((w, h)) ==> merge_lookup(merges@).contains_key((row as int, col as int))
            && merge_lookup(merges@)[(row as int, col as int)] == (w as int, h as int),
        r is None ==> !merge_lookup(merges@).contains_key((row as int, col as int)),
{
    let mut i: usize = merges.len();
    assert(merges@.take(i as int) =~= merges@);
    while i > 0
        invariant
            i <= merges@.len(),
            merge_lookup(merges@).contains_key((row as int, col as int)) == merge_lookup(merges@.take(i as int)).contains_key((row as int, col as int)),
            merge_lookup(merges@).contains_key((row as int, col as int)) ==> merge_lookup(merges@)[(row as int, col as int)]
                == merge_lookup(merges@.take(i as int))[(row as int, col as int)],
        decreases i,
    {
        assert(merges@.take(i as int).drop_last() =~= merges@.take(i - 1));
        if merges[i - 1].0.0 == row && merges[i - 1].0.1 == col {
            return Some(merges[i - 1].1);
        }
        i = i - 1;
    }
    None
}

fn push_int_field(fields: &mut Vec<(Vec<char>, OrderedJson)>, key: &str, v: i64)
    ensures
        field_views(final(fields)@) == field_views(old(fields)@).push((key@, JsonValue::Int(v as int))),
{
    push_field(fields, key, OrderedJson::Int(v));
}

/// Appends the span fields of a cell.
fn push_merge_fields(fields: &mut Vec<(Vec<char>, OrderedJson)>, c: &MxlDecompiledCell, g: i64, merges: &[((i64, i64), (i64, i64))])
    requires
        forall|k: int| 0 <= k < merges@.len() ==> merges@[k].1.0 < i64::MAX && merges@[k].1.1 < i64::MAX,
    ensures
        field_views(final(fields)@) == field_views(old(fields)@) + merge_fields(*c, g as int, merge_lookup(merges@)),
{
    let ghost s0 = field_views(fields@);
    proof {
        lemma_merge_lookup_bounded(merges@);
    }
    if let Some((w, h)) = lookup_merge(merges, g, c.col) {
        if w > 0 {
            push_int_field(fields, "span", w + 1);
        }
        let ghost s1 = field_views(fields@);
        if h > 0 {
            push_int_field(fields, "rowspan", h + 1);
        }
        assert(field_views(fields@) =~= s0 + merge_fields(*c, g as int, merge_lookup(merges@)));
    } else {
        assert(field_views(fields@) =~= s0 + merge_fields(*c, g as int, merge_lookup(merges@)));
    }
}

proof fn lemma_merge_lookup_bounded(merges: Seq<((i64, i64), (i64, i64))>)
    requires
        forall|k: int| 0 <= k < merges.len() ==> merges[k].1.0 < i64::MAX && merges[k].1.1 < i64::MAX,
    ensures
        forall|key: (int, int)| merge_lookup(merges).contains_key(key) ==> merge_lookup(merges)[key].0 < i64::MAX
            && merge_lookup(merges)[key].1 < i64::MAX,
    decreases merges.len(),
{
    if merges.len() > 0 {
        let d = merges.drop_last();
        assert forall|k: int| 0 <= k < d.len() implies d[k].1.0 < i64::MAX && d[k].1.1 < i64::MAX by {
            assert(d[k] == merges[k]);
        }
        lemma_merge_lookup_bounded(d);
        assert(merges.last() == merges[merges.len() - 1]);
        let m = merge_lookup(merges);
        let nk = (merges.last().0.0 as int, merges.last().0.1 as int);
        assert forall|key: (int, int)| m.contains_key(key) implies m[key].0 < i64::MAX && m[key].1 < i64::MAX by {
            if key != nk {
                assert(merge_lookup(d).contains_key(key));
            }
        }
    }
}

pub open spec fn opt_pair(rs: Option<(Vec<char>, Vec<char>)>) -> Option<(Seq<char>, Seq<char>)> {
    match rs {
        Some((a, b)) => Some((a@, b@)),
        None => None,
    }
}

fn push_cell_style(
    fields: &mut Vec<(Vec<char>, OrderedJson)>,
    c: &MxlDecompiledCell,
    raw_formats: &[MxlRawFormat],
    raw_lines: &[i64],
    rs: &Option<(Vec<char>, Vec<char>)>,
    format_to_style_key: &[(i64, Vec<char>)],
    style_names: &[(Vec<char>, Vec<char>)],
)
    ensures
        field_views(final(fields)@) == field_views(old(fields)@) + cell_style_field(
            *c,
            raw_formats@,
            raw_lines@,
            opt_pair(*rs),
            int_key_map(format_to_style_key@),
            text_key_map(style_names@),
        ),
{
    let ghost s0 = field_views(fields@);
    let key = mxl_decompile_style_key(mxl_decompile_format(raw_formats, c.format_idx), raw_lines);
    let same = match rs {
        Some((rk, _)) => eq_chars(rk, &key),
        None => false,
    };
    if !same {
        let name = mxl_decompile_style_name_for_format(c.format_idx, format_to_style_key, style_names);
        if !eq_str(&name, "default") || rs.is_none() {
            push_str_field(fields, "style", &name);
        }
    }
    assert(field_views(fields@) =~= s0 + cell_style_field(
        *c,
        raw_formats@,
        raw_lines@,
        opt_pair(*rs),
        int_key_map(format_to_style_key@),
        text_key_map(style_names@),
    ));
}

fn push_cell_content(fields: &mut Vec<(Vec<char>, OrderedJson)>, c: &MxlDecompiledCell, raw_formats: &[MxlRawFormat])
    ensures
        field_views(final(fields)@) == field_views(old(fields)@) + cell_content_fields(*c, raw_formats@),
{
    let ghost s0 = field_views(fields@);
    let fo = mxl_decompile_format(raw_formats, c.format_idx);
    proof {
        reveal_strlit("Template");
    }
    let template = match fo {
        Some(f) => {
            let b = eq_str(&f.fill_type, "Template");
            assert(format_at(raw_formats@, c.format_idx as int) == Some(*f));
            b
        },
        None => {
            proof {
                reveal_strlit("Template");
                assert("Template"@.len() == 8);
                assert(Seq::<char>::empty().len() == 0);
            }
            false
        },
    };
    proof {
        let fill = match format_at(raw_formats@, c.format_idx as int) {
            Some(f) => f.fill_type@,
            None => Seq::<char>::empty(),
        };
        assert(template == (fill == "Template"@));
    }
    match &c.param {
        Some(p) => {
            push_str_field(fields, "param", p);
            if let Some(d) = &c.detail {
                push_str_field(fields, "detail", d);
            }
        },
        None => {
            if let Some(t) = &c.text {
                if template {
                    push_str_field(fields, "template", t);
                } else {
                    push_str_field(fields, "text", t);
                }
            }
        },
    }
    assert(field_views(fields@) =~= s0 + cell_content_fields(*c, raw_formats@));
}

fn cell_json_exec(
    c: &MxlDecompiledCell,
    g: i64,
    merges: &[((i64, i64), (i64, i64))],
    raw_formats: &[MxlRawFormat],
    raw_lines: &[i64],
    rs: &Option<(Vec<char>, Vec<char>)>,
    format_to_style_key: &[(i64, Vec<char>)],
    style_names: &[(Vec<char>, Vec<char>)],
) -> (r: OrderedJson)
    requires
        c.col < i64::MAX,
        forall|k: int| 0 <= k < merges@.len() ==> merges@[k].1.0 < i64::MAX && merges@[k].1.1 < i64::MAX,
    ensures
        r@ == cell_json(
            *c,
            g as int,
            merge_lookup(merges@),
            raw_formats@,
            raw_lines@,
            opt_pair(*rs),
            int_key_map(format_to_style_key@),
            text_key_map(style_names@),
        ),
{
    let mut fields: Vec<(Vec<char>, OrderedJson)> = Vec::new();
    push_int_field(&mut fields, "col", c.col + 1);
    let ghost s0 = field_views(fields@);
    push_merge_fields(&mut fields, c, g, merges);
    push_cell_style(&mut fields, c, raw_formats, raw_lines, rs, format_to_style_key, style_names);
    push_cell_content(&mut fields, c, raw_formats);
    assert(field_views(fields@) =~= seq![("col"@, JsonValue::Int(c.col + 1))] + merge_fields(*c, g as int, merge_lookup(merges@))
        + cell_style_field(*c, raw_formats@, raw_lines@, opt_pair(*rs), int_key_map(format_to_style_key@), text_key_map(style_names@))
        + cell_content_fields(*c, raw_formats@));
    obj(fields)
}

fn kept_cell_exec(c: &MxlDecompiledCell, g: i64, merges: &[((i64, i64), (i64, i64))]) -> (b: bool)
    ensures
        b == kept_cell(*c, g as int, merge_lookup(merges@)),
{
    c.param.is_some() || c.text.is_some() || lookup_merge(merges, g, c.col).is_some()
}

/// The style of a row, computed from its cells that are not written out.
fn row_style_exec(
    cells: &Vec<MxlDecompiledCell>,
    g: i64,
    merges: &[((i64, i64), (i64, i64))],
    raw_formats: &[MxlRawFormat],
    raw_lines: &[i64],
    style_names: &[(Vec<char>, Vec<char>)],
) -> (r: Option<(Vec<char>, Vec<char>)>)
    ensures
        opt_pair(r) == row_style(cells@, g as int, merge_lookup(merges@), raw_formats@, raw_lines@, text_key_map(style_names@)),
{
    let ghost m = merge_lookup(merges@);
    let mut keys: Vec<Vec<char>> = Vec::new();
    let mut j: usize = 0;
    assert(cells@.take(0) =~= Seq::<MxlDecompiledCell>::empty());
    assert(views(keys@) =~= Seq::<Seq<char>>::empty());
    while j < cells.len()
        invariant
            j <= cells@.len(),
            m == merge_lookup(merges@),
            views(keys@) == distinct_texts(gap_keys(cells@.take(j as int), g as int, m, raw_formats@, raw_lines@)),
        decreases cells.len() - j,
    {
        proof {
            assert(cells@.take(j + 1).drop_last() =~= cells@.take(j as int));
            assert(cells@.take(j + 1).last() == cells@[j as int]);
        }
        let c = &cells[j];
        if !kept_cell_exec(c, g, merges) {
            let key = mxl_decompile_style_key(mxl_decompile_format(raw_formats, c.format_idx), raw_lines);
            let ghost gk = gap_keys(cells@.take(j as int), g as int, m, raw_formats@, raw_lines@);
            assert(gap_keys(cells@.take(j + 1), g as int, m, raw_formats@, raw_lines@) =~= gk.push(key@));
            assert(gk.push(key@).drop_last() =~= gk);
            if !contains_text(&keys, &key) {
                push_line(&mut keys, key);
            }
        } else {
            assert(gap_keys(cells@.take(j + 1), g as int, m, raw_formats@, raw_lines@) =~= gap_keys(
                cells@.take(j as int),
                g as int,
                m,
                raw_formats@,
                raw_lines@,
            ));
        }
        j = j + 1;
    }
    assert(cells@.take(j as int) =~= cells@);
    if keys.len() == 1 {
        match lookup_text_key(style_names, &keys[0]) {
            Some(name) => Some((crate::text::to_vec(&keys[0]), crate::text::to_vec(name))),
            None => None,
        }
    } else {
        None
    }
}

proof fn lemma_insert_by_col(s: Seq<MxlDecompiledCell>, x: MxlDecompiledCell, p: int)
    requires
        0 <= p <= s.len(),
        forall|k: int| p <= k < s.len() ==> s[k].col > x.col,
        p == 0 || s[p - 1].col <= x.col,
    ensures
        insert_by_col(s, x) == s.take(p).push(x) + s.skip(p),
    decreases s.len(),
{
    if s.len() == 0 {
        assert(s.take(p).push(x) + s.skip(p) =~= s.push(x));
    } else if s.last().col <= x.col {
        assert(p == s.len());
        assert(s.take(p).push(x) + s.skip(p) =~= s.push(x));
    } else {
        let d = s.drop_last();
        assert(p < s.len());
        lemma_insert_by_col(d, x, p);
        assert(d.take(p).push(x) + d.skip(p) + seq![s.last()] =~= s.take(p).push(x) + s.skip(p));
    }
}

/// The positions of the written-out cells of a row, sorted stably by column.
fn sorted_kept_positions(cells: &Vec<MxlDecompiledCell>, g: i64, merges: &[((i64, i64), (i64, i64))]) -> (r: Vec<usize>)
    ensures
        forall|k: int| 0 <= k < r@.len() ==> r@[k] < cells@.len(),
        r@.map_values(|i: usize| cells@[i as int]) == sorted_by_col(kept_cells(cells@, g as int, merge_lookup(merges@))),
{
    let ghost m = merge_lookup(merges@);
    let mut sorted: Vec<usize> = Vec::new();
    let mut j: usize = 0;
    assert(cells@.take(0) =~= Seq::<MxlDecompiledCell>::empty());
    assert(sorted@.map_values(|i: usize| cells@[i as int]) =~= Seq::<MxlDecompiledCell>::empty());
    while j < cells.len()
        invariant
            j <= cells@.len(),
            m == merge_lookup(merges@),
            forall|k: int| 0 <= k < sorted@.len() ==> sorted@[k] < cells@.len(),
            sorted@.map_values(|i: usize| cells@[i as int]) == sorted_by_col(kept_cells(cells@.take(j as int), g as int, m)),
        decreases cells.len() - j,
    {
        proof {
            assert(cells@.take(j + 1).drop_last() =~= cells@.take(j as int));
            assert(cells@.take(j + 1).last() == cells@[j as int]);
        }
        let ghost before = sorted@.map_values(|i: usize| cells@[i as int]);
        if kept_cell_exec(&cells[j], g, merges) {
            let x = &cells[j];
            let mut p: usize = sorted.len();
            while p > 0 && cells[sorted[p - 1]].col > x.col
                invariant
                    p <= sorted@.len(),
                    forall|k: int| 0 <= k < sorted@.len() ==> sorted@[k] < cells@.len(),
                    before == sorted@.map_values(|i: usize| cells@[i as int]),
                    forall|k: int| p <= k < before.len() ==> before[k].col > x.col,
                decreases p,
            {
                p = p - 1;
            }
            proof {
                lemma_insert_by_col(before, *x, p as int);
                assert(kept_cells(cells@.take(j + 1), g as int, m) =~= kept_cells(cells@.take(j as int), g as int, m).push(*x));
                assert(kept_cells(cells@.take(j + 1), g as int, m).drop_last() =~= kept_cells(cells@.take(j as int), g as int, m));
            }
            sorted.insert(p, j);
            assert(sorted@.map_values(|i: usize| cells@[i as int]) =~= before.take(p as int).push(*x) + before.skip(p as int));
        } else {
            assert(kept_cells(cells@.take(j + 1), g as int, m) =~= kept_cells(cells@.take(j as int), g as int, m));
        }
        j = j + 1;
    }
    assert(cells@.take(j as int) =~= cells@);
    sorted
}

/// The height field of a row whose format sets a height.
pub open spec fn height_field(row: MxlDecompiledRow, formats: Seq<MxlRawFormat>) -> Seq<(Seq<char>, JsonValue)> {
    match format_at(formats, row.format_idx as int) {
        Some(f) => if f.height > 0 { seq![("height"@, JsonValue::Int(f.height as int))] } else { Seq::empty() },
        None => Seq::empty(),
    }
}

/// The row style field of a row with a style other than `default`.
pub open spec fn row_style_field(rs: Option<(Seq<char>, Seq<char>)>) -> Seq<(Seq<char>, JsonValue)> {
    match rs {
        Some((_, n)) => if n != "default"@ { seq![("rowStyle"@, JsonValue::Str(n))] } else { Seq::empty() },
        None => Seq::empty(),
    }
}

/// The cells field of a row with written-out cells: those cells sorted by
/// column.
pub open spec fn cells_field(
    row: MxlDecompiledRow,
    g: int,
    merges: Map<(int, int), (int, int)>,
    formats: Seq<MxlRawFormat>,
    raw_lines: Seq<i64>,
    f2k: Map<int, Seq<char>>,
    names: Map<Seq<char>, Seq<char>>,
) -> Seq<(Seq<char>, JsonValue)> {
    let rs = row_style(row.cells@, g, merges, formats, raw_lines, names);
    let cells = sorted_by_col(kept_cells(row.cells@, g, merges));
    if cells.len() == 0 {
        Seq::empty()
    } else {
        seq![("cells"@, JsonValue::Arr(cells.map_values(|c: MxlDecompiledCell| cell_json(c, g, merges, formats, raw_lines, rs, f2k, names))))]
    }
}

/// A row of an area as JSON: an empty object for a missing or empty row,
/// else its height, row style and cells.
pub open spec fn row_json(
    g: int,
    rows: Map<int, MxlDecompiledRow>,
    merges: Map<(int, int), (int, int)>,
    formats: Seq<MxlRawFormat>,
    raw_lines: Seq<i64>,
    f2k: Map<int, Seq<char>>,
    names: Map<Seq<char>, Seq<char>>,
) -> JsonValue {
    if !rows.contains_key(g) || rows[g].empty {
        JsonValue::Obj(Seq::empty())
    } else {
        let row = rows[g];
        JsonValue::Obj(
            height_field(row, formats) + row_style_field(row_style(row.cells@, g, merges, formats, raw_lines, names))
                + cells_field(row, g, merges, formats, raw_lines, f2k, names),
        )
    }
}

/// An area as JSON: its name and its rows, runs of empty rows folded.
pub open spec fn area_json(
    area: MxlNamedItem,
    rows: Map<int, MxlDecompiledRow>,
    merges: Map<(int, int), (int, int)>,
    formats: Seq<MxlRawFormat>,
    raw_lines: Seq<i64>,
    f2k: Map<int, Seq<char>>,
    names: Map<Seq<char>, Seq<char>>,
) -> JsonValue {
    let count: nat = if area.begin_row <= area.end_row { (area.end_row - area.begin_row + 1) as nat } else { 0 };
    let values = Seq::new(count, |k: int| row_json(area.begin_row + k, rows, merges, formats, raw_lines, f2k, names));
    JsonValue::Obj(seq![("name"@, JsonValue::Str(area.name@)), ("rows"@, JsonValue::Arr(compressed_rows(values, 0)))])
}

/// The inputs the area decompiler can take without an arithmetic overflow:
/// columns and spans below `i64::MAX`, areas of at most `i64::MAX` rows.
pub open spec fn areas_input_ok(
    named_areas: Seq<MxlNamedItem>,
    row_data: Seq<(i64, MxlDecompiledRow)>,
    merges: Seq<((i64, i64), (i64, i64))>,
) -> bool {
    &&& forall|a: int| 0 <= a < named_areas.len() ==> named_areas[a].end_row - named_areas[a].begin_row < i64::MAX
    &&& forall|r: int, c: int| 0 <= r < row_data.len() && 0 <= c < row_data[r].1.cells@.len() ==> row_data[r].1.cells@[c].col < i64::MAX
    &&& forall|k: int| 0 <= k < merges.len() ==> merges[k].1.0 < i64::MAX && merges[k].1.1 < i64::MAX
}

fn lookup_row(rows: &[(i64, MxlDecompiledRow)], g: i64) -> (r: Option<usize>)
    ensures
        r matches Some(i) ==> i < rows@.len() && row_map(rows@).contains_key(g as int) && row_map(rows@)[g as int] == rows@[i as int].1,
        r is None ==> !row_map(rows@).contains_key(g as int),
{
    let mut i: usize = rows.len();
    assert(rows@.take(i as int) =~= rows@);
    while i > 0
        invariant
            i <= rows@.len(),
            row_map(rows@).contains_key(g as int) == row_map(rows@.take(i as int)).contains_key(g as int),
            row_map(rows@).contains_key(g as int) ==> row_map(rows@)[g as int] == row_map(rows@.take(i as int))[g as int],
        decreases i,
    {
        assert(rows@.take(i as int).drop_last() =~= rows@.take(i - 1));
        if rows[i - 1].0 == g {
            return Some(i - 1);
        }
        i = i - 1;
    }
    None
}

fn row_json_exec(
    row: &MxlDecompiledRow,
    g: i64,
    merges: &[((i64, i64), (i64, i64))],
    raw_formats: &[MxlRawFormat],
    raw_lines: &[i64],
    format_to_style_key: &[(i64, Vec<char>)],
    style_names: &[(Vec<char>, Vec<char>)],
) -> (r: OrderedJson)
    requires
        !row.empty,
        forall|c: int| 0 <= c < row.cells@.len() ==> row.cells@[c].col < i64::MAX,
        forall|k: int| 0 <= k < merges@.len() ==> merges@[k].1.0 < i64::MAX && merges@[k].1.1 < i64::MAX,
    ensures
        r@ == JsonValue::Obj(
            height_field(*row, raw_formats@) + row_style_field(
                row_style(row.cells@, g as int, merge_lookup(merges@), raw_formats@, raw_lines@, text_key_map(style_names@)),
            ) + cells_field(
                *row,
                g as int,
                merge_lookup(merges@),
                raw_formats@,
                raw_lines@,
                int_key_map(format_to_style_key@),
                text_key_map(style_names@),
            ),
        ),
{
    let ghost m = merge_lookup(merges@);
    let ghost f2k = int_key_map(format_to_style_key@);
    let ghost names = text_key_map(style_names@);
    let mut fields: Vec<(Vec<char>, OrderedJson)> = Vec::new();
    if let Some(f) = mxl_decompile_format(raw_formats, row.format_idx) {
        if f.height > 0 {
            push_int_field(&mut fields, "height", f.height);
        }
    }
    let ghost s1 = field_views(fields@);
    assert(s1 =~= height_field(*row, raw_formats@));
    let rs = row_style_exec(&row.cells, g, merges, raw_formats, raw_lines, style_names);
    if let Some((_, name)) = &rs {
        if !eq_str(name, "default") {
            push_str_field(&mut fields, "rowStyle", name);
        }
    }
    let ghost s2 = field_views(fields@);
    assert(s2 =~= s1 + row_style_field(opt_pair(rs)));
    let order = sorted_kept_positions(&row.cells, g, merges);
    let ghost sorted = sorted_by_col(kept_cells(row.cells@, g as int, m));
    let mut cells: Vec<OrderedJson> = Vec::new();
    let mut k: usize = 0;
    while k < order.len()
        invariant
            k <= order@.len(),
            forall|q: int| 0 <= q < order@.len() ==> order@[q] < row.cells@.len(),
            order@.map_values(|i: usize| row.cells@[i as int]) == sorted,
            forall|c: int| 0 <= c < row.cells@.len() ==> row.cells@[c].col < i64::MAX,
            forall|q: int| 0 <= q < merges@.len() ==> merges@[q].1.0 < i64::MAX && merges@[q].1.1 < i64::MAX,
            m == merge_lookup(merges@),
            f2k == int_key_map(format_to_style_key@),
            names == text_key_map(style_names@),
            item_views(cells@) == sorted.take(k as int).map_values(
                |c: MxlDecompiledCell| cell_json(c, g as int, m, raw_formats@, raw_lines@, opt_pair(rs), f2k, names),
            ),
        decreases order.len() - k,
    {
        let c = &row.cells[order[k]];
        assert(sorted[k as int] == *c);
        let j = cell_json_exec(c, g, merges, raw_formats, raw_lines, &rs, format_to_style_key, style_names);
        let ghost before = item_views(cells@);
        let ghost jv = j@;
        cells.push(j);
        assert(item_views(cells@) =~= before.push(jv));
        assert(sorted.take(k + 1).map_values(
            |c: MxlDecompiledCell| cell_json(c, g as int, m, raw_formats@, raw_lines@, opt_pair(rs), f2k, names),
        ) =~= before.push(jv));
        k = k + 1;
    }
    assert(sorted.take(k as int) =~= sorted);
    if cells.len() > 0 {
        let a = arr(cells);
        push_field(&mut fields, "cells", a);
    }
    assert(field_views(fields@) =~= s2 + cells_field(*row, g as int, m, raw_formats@, raw_lines@, f2k, names));
    obj(fields)
}

pub fn mxl_decompile_areas(
    named_areas: &[MxlNamedItem],
    row_data: &[(i64, MxlDecompiledRow)],
    raw_formats: &[MxlRawFormat],
    raw_lines: &[i64],
    merge_map: &[((i64, i64), (i64, i64))],
    style_names: &[(Vec<char>, Vec<char>)],
    format_to_style_key: &[(i64, Vec<char>)],
) -> (r: Vec<OrderedJson>)
    requires
        areas_input_ok(named_areas@, row_data@, merge_map@),
    ensures
        item_views(r@) == named_areas@.map_values(
            |a: MxlNamedItem|
                area_json(
                    a,
                    row_map(row_data@),
                    merge_lookup(merge_map@),
                    raw_formats@,
                    raw_lines@,
                    int_key_map(format_to_style_key@),
                    text_key_map(style_names@),
                ),
        ),
{
    let ghost rm = row_map(row_data@);
    let ghost m = merge_lookup(merge_map@);
    let ghost f2k = int_key_map(format_to_style_key@);
    let ghost names = text_key_map(style_names@);
    let ghost want = named_areas@.map_values(|a: MxlNamedItem| area_json(a, rm, m, raw_formats@, raw_lines@, f2k, names));
    let mut areas: Vec<OrderedJson> = Vec::new();
    let mut i: usize = 0;
    while i < named_areas.len()
        invariant
            i <= named_areas@.len(),
            areas_input_ok(named_areas@, row_data@, merge_map@),
            rm == row_map(row_data@),
            m == merge_lookup(merge_map@),
            f2k == int_key_map(format_to_style_key@),
            names == text_key_map(style_names@),
            want == named_areas@.map_values(|a: MxlNamedItem| area_json(a, rm, m, raw_formats@, raw_lines@, f2k, names)),
            item_views(areas@) == want.take(i as int),
        decreases named_areas.len() - i,
    {
        let area = &named_areas[i];
        let a = area_json_exec(area, row_data, raw_formats, raw_lines, merge_map, style_names, format_to_style_key);
        let ghost before = item_views(areas@);
        let ghost av = a@;
        areas.push(a);
        assert(item_views(areas@) =~= before.push(av));
        assert(want.take(i + 1) =~= want.take(i as int).push(want[i as int]));
        i = i + 1;
    }
    assert(want.take(i as int) =~= want);
    areas
}

fn area_json_exec(
    area: &MxlNamedItem,
    row_data: &[(i64, MxlDecompiledRow)],
    raw_formats: &[MxlRawFormat],
    raw_lines: &[i64],
    merge_map: &[((i64, i64), (i64, i64))],
    style_names: &[(Vec<char>, Vec<char>)],
    format_to_style_key: &[(i64, Vec<char>)],
) -> (r: OrderedJson)
    requires
        area.end_row - area.begin_row < i64::MAX,
        forall|r: int, c: int| 0 <= r < row_data@.len() && 0 <= c < row_data@[r].1.cells@.len() ==> row_data@[r].1.cells@[c].col < i64::MAX,
        forall|k: int| 0 <= k < merge_map@.len() ==> merge_map@[k].1.0 < i64::MAX && merge_map@[k].1.1 < i64::MAX,
    ensures
        r@ == area_json(
            *area,
            row_map(row_data@),
            merge_lookup(merge_map@),
            raw_formats@,
            raw_lines@,
            int_key_map(format_to_style_key@),
            text_key_map(style_names@),
        ),
{
    let ghost rm = row_map(row_data@);
    let ghost m = merge_lookup(merge_map@);
    let ghost f2k = int_key_map(format_to_style_key@);
    let ghost names = text_key_map(style_names@);
    let ghost count: nat = if area.begin_row <= area.end_row { (area.end_row - area.begin_row + 1) as nat } else { 0 };
    let ghost values = Seq::new(count, |k: int| row_json(area.begin_row + k, rm, m, raw_formats@, raw_lines@, f2k, names));
    let mut rows: Vec<OrderedJson> = Vec::new();
    if area.begin_row <= area.end_row {
        let mut g: i64 = area.begin_row;
        loop
            invariant_except_break
                item_views(rows@) == values.take(g - area.begin_row),
            invariant
                area.begin_row <= g <= area.end_row,
                area.end_row - area.begin_row < i64::MAX,
                count == area.end_row - area.begin_row + 1,
                values == Seq::new(count, |k: int| row_json(area.begin_row + k, rm, m, raw_formats@, raw_lines@, f2k, names)),
                rm == row_map(row_data@),
                m == merge_lookup(merge_map@),
                f2k == int_key_map(format_to_style_key@),
                names == text_key_map(style_names@),
                forall|r: int, c: int| 0 <= r < row_data@.len() && 0 <= c < row_data@[r].1.cells@.len() ==> row_data@[r].1.cells@[c].col < i64::MAX,
                forall|k: int| 0 <= k < merge_map@.len() ==> merge_map@[k].1.0 < i64::MAX && merge_map@[k].1.1 < i64::MAX,
            ensures
                item_views(rows@) == values.take(count as int),
            decreases area.end_row - g,
        {
            let ghost before = item_views(rows@);
            let ghost k = g - area.begin_row;
            let row_value = match lookup_row(row_data, g) {
                Some(ri) => {
                    let row = &row_data[ri].1;
                    if row.empty {
                        obj(Vec::new())
                    } else {
                        proof {
                            assert forall|c: int| 0 <= c < row.cells@.len() implies row.cells@[c].col < i64::MAX by {
                                assert(row_data@[ri as int].1.cells@[c].col < i64::MAX);
                            }
                        }
                        row_json_exec(row, g, merge_map, raw_formats, raw_lines, format_to_style_key, style_names)
                    }
                },
                None => obj(Vec::new()),
            };
            proof {
                assert(field_views(Seq::<(Vec<char>, OrderedJson)>::empty()) =~= Seq::<(Seq<char>, JsonValue)>::empty());
                assert(values[k] == row_json(g as int, rm, m, raw_formats@, raw_lines@, f2k, names));
                assert(row_value@ == values[k]);
            }
            rows.push(row_value);
            assert(item_views(rows@) =~= before.push(values[k]));
            assert(values.take(k + 1) =~= values.take(k).push(values[k]));
            if g == area.end_row {
                break;
            }
            g = g + 1;
        }
        assert(values.take(count as int) =~= values);
    } else {
        assert(item_views(rows@) =~= values);
    }
    assert(item_views(rows@) == values);
    let compressed = mxl_decompile_compress_empty_rows(rows);
    let mut fields: Vec<(Vec<char>, OrderedJson)> = Vec::new();
    push_str_field(&mut fields, "name", &area.name);
    push_field(&mut fields, "rows", arr(compressed));
    assert(field_views(fields@) =~= seq![("name"@, JsonValue::Str(area.name@)), ("rows"@, JsonValue::Arr(compressed_rows(values, 0)))]);
    obj(fields)
}

/// The width of the template's default format, `10` when it sets none.
pub open spec fn default_width(formats: Seq<MxlRawFormat>, default_fmt_idx: int) -> int {
    match format_at(formats, default_fmt_idx) {
        Some(f) => if f.width > 0 { f.width as int } else { 10 },
        None => 10,
    }
}

/// The widths of the columns (numbered from 1) whose format sets a width other
/// than the default one, in column order.
pub open spec fn column_widths(col_formats: Seq<(i64, i64)>, formats: Seq<MxlRawFormat>, dw: int) -> Seq<(i64, i64)>
    decreases col_formats.len(),
{
    if col_formats.len() == 0 {
        Seq::empty()
    } else {
        let rest = column_widths(col_formats.drop_last(), formats, dw);
        let (col0, fmt) = col_formats.last();
        match format_at(formats, fmt as int) {
            Some(f) => if f.width > 0 && f.width != dw {
                rest.push(((col0 + 1) as i64, f.width))
            } else {
                rest
            },
            None => rest,
        }
    }
}

/// The style definitions that are written: those some area uses, without an
/// empty `default` style.
pub open spec fn kept_style_defs(defs: Seq<(Seq<char>, JsonValue)>, used: Set<Seq<char>>) -> Seq<(Seq<char>, JsonValue)> {
    let drop_default = exists|i: int| 0 <= i < defs.len() && defs[i].0 == "default"@ && is_empty_object(#[trigger] defs[i].1);
    defs.filter(|d: (Seq<char>, JsonValue)| !(drop_default && d.0 == "default"@) && used.contains(d.0))
}

/// The JSON description of a template: its columns and default width, the
/// widths of other columns, its fonts, the styles its areas use, and its areas.
pub open spec fn decompiled_json(
    total_columns: int,
    dw: int,
    widths: Seq<(Seq<char>, JsonValue)>,
    font_defs: Seq<(Seq<char>, JsonValue)>,
    style_defs: Seq<(Seq<char>, JsonValue)>,
    areas: Seq<JsonValue>,
) -> JsonValue {
    JsonValue::Obj(
        seq![("columns"@, JsonValue::Int(total_columns)), ("defaultWidth"@, JsonValue::Int(dw))] + (if widths.len() > 0 {
            seq![("columnWidths"@, JsonValue::Obj(widths))]
        } else {
            Seq::empty()
        }) + seq![
            ("fonts"@, JsonValue::Obj(font_defs)),
            ("styles"@, JsonValue::Obj(kept_style_defs(style_defs, area_styles(areas).to_set()))),
            ("areas"@, JsonValue::Arr(areas)),
        ],
    )
}

fn default_width_exec(formats: &[MxlRawFormat], default_fmt_idx: i64) -> (r: i64)
    ensures
        r as int == default_width(formats@, default_fmt_idx as int),
{
    match mxl_decompile_format(formats, default_fmt_idx) {
        Some(f) => if f.width > 0 { f.width } else { 10 },
        None => 10,
    }
}

fn column_widths_exec(col_formats: &[(i64, i64)], formats: &[MxlRawFormat], dw: i64) -> (r: Vec<(i64, i64)>)
    requires
        increasing_columns(col_formats@),
        forall|k: int| 0 <= k < col_formats@.len() ==> col_formats@[k].0 < i64::MAX,
    ensures
        r@ == column_widths(col_formats@, formats@, dw as int),
        increasing_columns(r@),
        forall|k: int| 0 <= k < r@.len() ==> exists|j: int| 0 <= j < col_formats@.len() && (#[trigger] r@[k]).0 == (#[trigger] col_formats@[j]).0 + 1,
{
    let mut r: Vec<(i64, i64)> = Vec::new();
    let mut i: usize = 0;
    assert(col_formats@.take(0) =~= Seq::<(i64, i64)>::empty());
    while i < col_formats.len()
        invariant
            i <= col_formats@.len(),
            increasing_columns(col_formats@),
            forall|k: int| 0 <= k < col_formats@.len() ==> col_formats@[k].0 < i64::MAX,
            r@ == column_widths(col_formats@.take(i as int), formats@, dw as int),
            increasing_columns(r@),
            forall|k: int| 0 <= k < r@.len() ==> exists|j: int| 0 <= j < i && (#[trigger] r@[k]).0 == (#[trigger] col_formats@[j]).0 + 1,
        decreases col_formats.len() - i,
    {
        proof {
            assert(col_formats@.take(i + 1).drop_last() =~= col_formats@.take(i as int));
            assert(col_formats@.take(i + 1).last() == col_formats@[i as int]);
        }
        let (col0, fmt) = col_formats[i];
        if let Some(f) = mxl_decompile_format(formats, fmt) {
            if f.width > 0 && f.width != dw {
                let ghost before = r@;
                r.push((col0 + 1, f.width));
                proof {
                    assert forall|a: int, b: int| 0 <= a < b < r@.len() implies r@[a].0 < r@[b].0 by {
                        if b == before.len() {
                            let j = choose|j: int| 0 <= j < i && before[a].0 == col_formats@[j].0 + 1;
                            assert(col_formats@[j].0 < col_formats@[i as int].0);
                        }
                    }
                    assert forall|k: int| 0 <= k < r@.len() implies exists|j: int| 0 <= j < i + 1 && (#[trigger] r@[k]).0 == (#[trigger] col_formats@[j]).0 + 1 by {
                        if k < before.len() {
                            let j = choose|j: int| 0 <= j < i && before[k].0 == col_formats@[j].0 + 1;
                            assert(r@[k] == before[k]);
                        } else {
                            assert(r@[k].0 == col_formats@[i as int].0 + 1);
                        }
                    }
                }
            }
        }
        i = i + 1;
    }
    assert(col_formats@.take(i as int) =~= col_formats@);
    r
}

/// Keeps the style definitions that are written.
fn keep_style_defs(defs: Vec<(Vec<char>, OrderedJson)>, used: &Vec<Vec<char>>) -> (r: Vec<(Vec<char>, OrderedJson)>)
    ensures
        field_views(r@) == kept_style_defs(field_views(defs@), views(used@).to_set()),
{
    let ghost dv = field_views(defs@);
    let mut drop_default = false;
    let mut i: usize = 0;
    while i < defs.len()
        invariant
            i <= defs@.len(),
            dv == field_views(defs@),
            drop_default == exists|k: int| 0 <= k < i && dv[k].0 == "default"@ && is_empty_object(#[trigger] dv[k].1),
        decreases defs.len() - i,
    {
        if eq_str(&defs[i].0, "default") && ordered_json_is_empty_object(&defs[i].1) {
            assert(dv[i as int].0 == "default"@ && is_empty_object(dv[i as int].1));
            drop_default = true;
        }
        i = i + 1;
    }
    let ghost keep = |d: (Seq<char>, JsonValue)| !(drop_default && d.0 == "default"@) && views(used@).to_set().contains(d.0);
    let mut out: Vec<(Vec<char>, OrderedJson)> = Vec::new();
    let mut j: usize = 0;
    assert(dv.take(0).filter(keep) =~= Seq::<(Seq<char>, JsonValue)>::empty()) by {
        reveal(Seq::filter);
    }
    while j < defs.len()
        invariant
            j <= defs@.len(),
            dv == field_views(defs@),
            keep == (|d: (Seq<char>, JsonValue)| !(drop_default && d.0 == "default"@) && views(used@).to_set().contains(d.0)),
            field_views(out@) == dv.take(j as int).filter(keep),
        decreases defs.len() - j,
    {
        proof {
            reveal(Seq::filter);
            assert(dv.take(j + 1).drop_last() =~= dv.take(j as int));
            assert(dv.take(j + 1).last() == dv[j as int]);
        }
        let is_default = eq_str(&defs[j].0, "default");
        if !(drop_default && is_default) && contains_text(used, &defs[j].0) {
            let ghost before = field_views(out@);
            let name = crate::text::to_vec(&defs[j].0);
            let value = json_copy(&defs[j].1);
            let ghost pair = (name@, value@);
            out.push((name, value));
            assert(field_views(out@) =~= before.push(pair));
        }
        j = j + 1;
    }
    assert(dv.take(j as int) =~= dv);
    out
}

/// The JSON of a decompiled template. `col_formats` holds the format of each
/// column, by column, in column order; `rows` the rows by index, in index order.
pub fn mxl_decompile_json(
    total_columns: i64,
    col_formats: &[(i64, i64)],
    default_fmt_idx: i64,
    raw_fonts: &[MxlRawFont],
    raw_lines: &[i64],
    raw_formats: &[MxlRawFormat],
    merges: &[((i64, i64), (i64, i64))],
    named_areas: &[MxlNamedItem],
    rows: &[(i64, MxlDecompiledRow)],
) -> (r: OrderedJson)
    requires
        increasing_columns(col_formats@),
        forall|k: int| 0 <= k < col_formats@.len() ==> col_formats@[k].0 < i64::MAX,
        areas_input_ok(named_areas@, rows@, merges@),
    ensures
        ({
            let dw = default_width(raw_formats@, default_fmt_idx as int);
            let (font_names, font_defs) = font_naming(raw_fonts@);
            let (style_names, style_defs, f2k) = decompiled_styles(rows@, raw_formats@, raw_lines@, font_names);
            let areas = named_areas@.map_values(
                |a: MxlNamedItem| area_json(a, row_map(rows@), merge_lookup(merges@), raw_formats@, raw_lines@, f2k, style_names),
            );
            r@ == decompiled_json(
                total_columns as int,
                dw,
                width_fields(width_groups(column_widths(col_formats@, raw_formats@, dw))),
                font_defs,
                style_defs,
                areas,
            )
        }),
{
    let dw = default_width_exec(raw_formats, default_fmt_idx);
    let widths = column_widths_exec(col_formats, raw_formats, dw);
    let (font_names, font_defs) = mxl_decompile_name_fonts(raw_fonts);
    let (style_names, style_defs, f2k) = mxl_decompile_styles(rows, raw_formats, raw_lines, &font_names);
    let areas = mxl_decompile_areas(named_areas, rows, raw_formats, raw_lines, merges, &style_names, &f2k);
    let column_widths = mxl_decompile_compress_widths(&widths);
    let used = mxl_decompile_used_styles(&areas);
    let kept = keep_style_defs(style_defs, &used);
    let mut fields: Vec<(Vec<char>, OrderedJson)> = Vec::new();
    push_int_field(&mut fields, "columns", total_columns);
    push_int_field(&mut fields, "defaultWidth", dw);
    let ghost s0 = field_views(fields@);
    if column_widths.len() > 0 {
        push_field(&mut fields, "columnWidths", obj(column_widths));
    }
    let ghost s1 = field_views(fields@);
    push_field(&mut fields, "fonts", obj(font_defs));
    push_field(&mut fields, "styles", obj(kept));
    push_field(&mut fields, "areas", arr(areas));
    proof {
        assert(views(used@).to_set() == area_styles(item_views(areas@)).to_set());
    }
    assert(field_views(fields@) =~= seq![("columns"@, JsonValue::Int(total_columns as int)), ("defaultWidth"@, JsonValue::Int(dw as int))]
        + (if field_views(column_widths@).len() > 0 {
            seq![("columnWidths"@, JsonValue::Obj(field_views(column_widths@)))]
        } else {
            Seq::<(Seq<char>, JsonValue)>::empty()
        }) + seq![
            ("fonts"@, JsonValue::Obj(field_views(font_defs@))),
            ("styles"@, JsonValue::Obj(field_views(kept@))),
            ("areas"@, JsonValue::Arr(item_views(areas@))),
        ]);
    obj(fields)
}

} // verus!
