//! Building a data composition schema from its definition: the sources, the
//! data sets with their fields and value types, and a default settings variant.
use vstd::prelude::*;
use crate::skd_fragments::{
    default_settings_variant_lines, mltext_lines, push_line, skd_compile_emit_default_settings_variant,
    skd_compile_emit_mltext, skd_compile_emit_value_type, value_type_lines,
};
use crate::skd_values::{field_shorthand, resolve_type, skd_compile_parse_field_shorthand, skd_compile_resolve_type};
use crate::text::{chars_of, escape_xml, escape_xml_exec, join, join_str, push_chars, push_str, split, trim, trim_chars, views};
use crate::xml::opt_view;
use crate::numbers::{nat_text, usize_text};

verus! {

/// A value type as the definition gives it: a list of types, or a text of
/// types separated by `|`.
pub enum SkdTypeSpec {
    List(Vec<SkdTypeSpec>),
    Text(Vec<char>),
}

/// A field of a data set: the shorthand text where the definition gives a
/// text, else its data path, field, title and type where given.
pub struct SkdFieldDef {
    pub shorthand: Option<Vec<char>>,
    pub data_path: Option<Vec<char>>,
    pub field: Option<Vec<char>>,
    pub title: Option<Vec<char>>,
    pub type_spec: Option<SkdTypeSpec>,
}

/// A data set of the definition: its name, whether it has `items` or an
/// `objectName` key, and the values read from it (the query already read from
/// its file where it names one).
pub struct SkdDataSetDef {
    pub name: Option<Vec<char>>,
    pub has_items: bool,
    pub has_object_name: bool,
    pub object_name: Option<Vec<char>>,
    pub fields: Vec<SkdFieldDef>,
    pub source: Option<Vec<char>>,
    pub query: Option<Vec<char>>,
    pub auto_fill_fields: Option<bool>,
    pub items: Vec<SkdDataSetDef>,
}

/// A schema definition: its data sources as name and type where given, its
/// data sets where it has a list of them, and how many calculated fields,
/// totals, parameters and settings variants it lists.
pub struct SkdDefinition {
    pub data_sources: Option<Vec<(Option<Vec<char>>, Option<Vec<char>>)>>,
    pub data_sets: Option<Vec<SkdDataSetDef>>,
    pub calculated: usize,
    pub totals: usize,
    pub parameters: usize,
    pub variants: usize,
}

pub open spec fn or_empty(o: Option<Vec<char>>) -> Seq<char> {
    match o {
        Some(v) => v@,
        None => Seq::empty(),
    }
}

fn or_empty_exec(o: &Option<Vec<char>>) -> (r: Vec<char>)
    ensures
        r@ == or_empty(*o),
{
    match o {
        Some(v) => crate::text::to_vec(v),
        None => Vec::new(),
    }
}

// ---------------------------------------------------------------- types

/// The pieces of a text of types, each trimmed and resolved.
pub open spec fn resolved_pieces(p: Seq<Seq<char>>) -> Seq<Seq<char>> {
    p.map_values(|x: Seq<char>| resolve_type(trim(x)))
}

/// A value type as text: a list joins its non-empty members with `|`; a text
/// has each of its pieces resolved.
pub open spec fn type_text(t: SkdTypeSpec) -> Seq<char>
    decreases t, 1int, 0int,
{
    match t {
        SkdTypeSpec::List(v) => join(type_list(t, 0), "|"@),
        SkdTypeSpec::Text(s) => join(resolved_pieces(split(s@, "|"@)), "|"@),
    }
}

/// The non-empty texts of the members of a list from the `i`-th on.
pub open spec fn type_list(t: SkdTypeSpec, i: int) -> Seq<Seq<char>>
    decreases t, 0int, if t is List { t->List_0@.len() - i } else { 0 },
{
    match t {
        SkdTypeSpec::List(v) => if 0 <= i < v@.len() {
            proof {
                assert(decreases_to!(t => v));
                assert(decreases_to!(v => v@));
                assert(decreases_to!(v@ => v@[i]));
            }
            let x = type_text(v@[i]);
            let rest = type_list(t, i + 1);
            if x.len() > 0 {
                seq![x] + rest
            } else {
                rest
            }
        } else {
            Seq::empty()
        },
        SkdTypeSpec::Text(_) => Seq::empty(),
    }
}

pub fn skd_compile_type_value(t: &SkdTypeSpec) -> (r: Vec<char>)
    ensures
        r@ == type_text(*t),
    decreases *t, 1int, 0int,
{
    match t {
        SkdTypeSpec::List(v) => {
            let mut parts: Vec<Vec<char>> = Vec::new();
            let mut i: usize = 0;
            while i < v.len()
                invariant
                    i <= v@.len(),
                    *t == SkdTypeSpec::List(*v),
                    views(parts@) + type_list(*t, i as int) == type_list(*t, 0),
                decreases v.len() - i,
            {
                proof {
                    assert(decreases_to!(*t => *v));
                    assert(decreases_to!(*v => v@));
                    assert(decreases_to!(v@ => v@[i as int]));
                }
                let x = skd_compile_type_value(&v[i]);
                let ghost before = views(parts@);
                if x.len() > 0 {
                    push_line(&mut parts, x);
                    assert(before + (seq![x@] + type_list(*t, i + 1)) =~= views(parts@) + type_list(*t, i + 1));
                }
                i = i + 1;
            }
            assert(views(parts@) + type_list(*t, i as int) =~= views(parts@));
            join_str(&parts, "|")
        },
        SkdTypeSpec::Text(s) => {
            proof {
                reveal_strlit("|");
            }
            let pieces = crate::text::split_str(s, "|");
            let mut parts: Vec<Vec<char>> = Vec::new();
            let mut i: usize = 0;
            while i < pieces.len()
                invariant
                    i <= pieces@.len(),
                    views(parts@) == resolved_pieces(views(pieces@).take(i as int)),
                decreases pieces.len() - i,
            {
                let x = skd_compile_resolve_type(&trim_chars(&pieces[i]));
                push_line(&mut parts, x);
                assert(views(pieces@).take(i + 1) =~= views(pieces@).take(i as int).push(pieces@[i as int]@));
                assert(resolved_pieces(views(pieces@).take(i + 1)) =~= resolved_pieces(views(pieces@).take(i as int)).push(
                    resolve_type(trim(pieces@[i as int]@)),
                ));
                i = i + 1;
            }
            assert(views(pieces@).take(i as int) =~= views(pieces@));
            join_str(&parts, "|")
        },
    }
}

// ---------------------------------------------------------------- fields

/// The data path, field name, title and type of a field.
pub open spec fn field_parts(f: SkdFieldDef) -> (Seq<char>, Seq<char>, Seq<char>, Seq<char>) {
    match f.shorthand {
        Some(t) => {
            let p = field_shorthand(t@);
            (p.0, p.1, Seq::empty(), resolve_type(p.2))
        },
        None => {
            let dp = match f.data_path {
                Some(x) => x@,
                None => or_empty(f.field),
            };
            let name = match f.field {
                Some(x) => x@,
                None => dp,
            };
            let ty = match f.type_spec {
                Some(t) => type_text(t),
                None => Seq::empty(),
            };
            (dp, name, or_empty(f.title), ty)
        },
    }
}

/// The lines of a field.
pub open spec fn field_lines(f: SkdFieldDef, indent: Seq<char>) -> Seq<Seq<char>> {
    let (dp, name, title, ty) = field_parts(f);
    seq![
        indent + "<field xsi:type=\"DataSetFieldField\">"@,
        indent + "\t<dataPath>"@ + escape_xml(dp) + "</dataPath>"@,
        indent + "\t<field>"@ + escape_xml(name) + "</field>"@,
    ] + (if title.len() > 0 {
        mltext_lines(indent + "\t"@, "title"@, title)
    } else {
        Seq::empty()
    }) + (if ty.len() > 0 {
        seq![indent + "\t<valueType>"@] + value_type_lines(ty, indent + "\t\t"@) + seq![indent + "\t</valueType>"@]
    } else {
        Seq::empty()
    }) + seq![indent + "</field>"@]
}

fn field_parts_exec(f: &SkdFieldDef) -> (r: (Vec<char>, Vec<char>, Vec<char>, Vec<char>))
    ensures
        (r.0@, r.1@, r.2@, r.3@) == field_parts(*f),
{
    match &f.shorthand {
        Some(t) => {
            let p = skd_compile_parse_field_shorthand(t);
            let ty = skd_compile_resolve_type(&p.2);
            (p.0, p.1, Vec::new(), ty)
        },
        None => {
            let dp = match &f.data_path {
                Some(x) => crate::text::to_vec(x),
                None => or_empty_exec(&f.field),
            };
            let name = match &f.field {
                Some(x) => crate::text::to_vec(x),
                None => crate::text::to_vec(&dp),
            };
            let ty = match &f.type_spec {
                Some(t) => skd_compile_type_value(t),
                None => Vec::new(),
            };
            (dp, name, or_empty_exec(&f.title), ty)
        },
    }
}

fn wrapped(indent: &[char], open: &str, body: &[char], close: &str) -> (r: Vec<char>)
    ensures
        r@ == indent@ + open@ + body@ + close@,
{
    let mut r = crate::text::to_vec(indent);
    push_str(&mut r, open);
    push_chars(&mut r, body);
    push_str(&mut r, close);
    r
}

fn enclosed(open: &str, body: &[char], close: &str) -> (r: Vec<char>)
    ensures
        r@ == open@ + body@ + close@,
{
    let mut r = chars_of(open);
    push_chars(&mut r, body);
    push_str(&mut r, close);
    r
}

fn indented(indent: &[char], s: &str) -> (r: Vec<char>)
    ensures
        r@ == indent@ + s@,
{
    let mut r = crate::text::to_vec(indent);
    push_str(&mut r, s);
    r
}

pub fn skd_compile_emit_field(lines: &mut Vec<Vec<char>>, f: &SkdFieldDef, indent: &[char])
    ensures
        views(final(lines)@) == views(old(lines)@) + field_lines(*f, indent@),
{
    let ghost start = views(lines@);
    let (dp, name, title, ty) = field_parts_exec(f);
    push_line(lines, indented(indent, "<field xsi:type=\"DataSetFieldField\">"));
    push_line(lines, wrapped(indent, "\t<dataPath>", &escape_xml_exec(&dp), "</dataPath>"));
    push_line(lines, wrapped(indent, "\t<field>", &escape_xml_exec(&name), "</field>"));
    let ghost a = views(lines@);
    let inner = indented(indent, "\t");
    if title.len() > 0 {
        skd_compile_emit_mltext(lines, &inner, &chars_of("title"), &title);
    }
    let ghost b = views(lines@);
    if ty.len() > 0 {
        push_line(lines, indented(indent, "\t<valueType>"));
        skd_compile_emit_value_type(lines, &ty, &indented(indent, "\t\t"));
        push_line(lines, indented(indent, "\t</valueType>"));
    }
    let ghost c = views(lines@);
    push_line(lines, indented(indent, "</field>"));
    proof {
        let (dp_s, name_s, title_s, ty_s) = field_parts(*f);
        assert(a =~= start + seq![
            indent@ + "<field xsi:type=\"DataSetFieldField\">"@,
            indent@ + "\t<dataPath>"@ + escape_xml(dp_s) + "</dataPath>"@,
            indent@ + "\t<field>"@ + escape_xml(name_s) + "</field>"@,
        ]);
        if ty_s.len() > 0 {
            assert(c =~= b + (seq![indent@ + "\t<valueType>"@] + value_type_lines(ty_s, indent@ + "\t\t"@) + seq![indent@ + "\t</valueType>"@]));
        } else {
            assert(c =~= b + Seq::<Seq<char>>::empty());
        }
        if title_s.len() > 0 {
            assert(b =~= a + mltext_lines(indent@ + "\t"@, "title"@, title_s));
        } else {
            assert(b =~= a + Seq::<Seq<char>>::empty());
        }
        assert(views(lines@) =~= start + field_lines(*f, indent@));
    }
}

// ---------------------------------------------------------------- data sets

/// The lines of the fields from the `i`-th on.
pub open spec fn fields_lines(fs: Seq<SkdFieldDef>, indent: Seq<char>, i: int) -> Seq<Seq<char>>
    decreases fs.len() - i,
{
    if 0 <= i < fs.len() {
        field_lines(fs[i], indent) + fields_lines(fs, indent, i + 1)
    } else {
        Seq::empty()
    }
}

/// The kind of a data set: a union where it has items, an object where it
/// names one, else a query.
pub open spec fn set_kind(d: SkdDataSetDef) -> Seq<char> {
    if d.has_items {
        "DataSetUnion"@
    } else if d.has_object_name {
        "DataSetObject"@
    } else {
        "DataSetQuery"@
    }
}

/// The lines of a data set; a union holds its items one level deeper.
pub open spec fn set_lines(d: SkdDataSetDef, name: Seq<char>, indent: Seq<char>, dflt: Seq<char>) -> Seq<Seq<char>>
    decreases d, 1int, 0int,
{
    let kind = set_kind(d);
    let inner = indent + "\t"@;
    let head = seq![
        indent + "<dataSet xsi:type=\""@ + kind + "\">"@,
        inner + "<name>"@ + escape_xml(name) + "</name>"@,
    ] + fields_lines(d.fields@, inner, 0);
    let src = if !d.has_items {
        seq![inner + "<dataSource>"@ + escape_xml(match d.source { Some(x) => x@, None => dflt }) + "</dataSource>"@]
    } else {
        Seq::empty()
    };
    let body = if d.has_items {
        items_lines(d, inner, dflt, 0)
    } else if d.has_object_name {
        seq![inner + "<objectName>"@ + escape_xml(or_empty(d.object_name)) + "</objectName>"@]
    } else {
        seq![inner + "<query>"@ + escape_xml(or_empty(d.query)) + "</query>"@] + if d.auto_fill_fields == Some(false) {
            seq![inner + "<autoFillFields>false</autoFillFields>"@]
        } else {
            Seq::empty()
        }
    };
    head + src + body + seq![indent + "</dataSet>"@]
}

/// The lines of the items of a union from the `i`-th on.
pub open spec fn items_lines(d: SkdDataSetDef, indent: Seq<char>, dflt: Seq<char>, i: int) -> Seq<Seq<char>>
    decreases d, 0int, d.items@.len() - i,
{
    if 0 <= i < d.items@.len() {
        proof {
            assert(decreases_to!(d => d.items));
            assert(decreases_to!(d.items => d.items@));
            assert(decreases_to!(d.items@ => d.items@[i]));
        }
        set_lines(d.items@[i], or_empty(d.items@[i].name), indent, dflt) + items_lines(d, indent, dflt, i + 1)
    } else {
        Seq::empty()
    }
}

pub fn skd_compile_emit_data_set(lines: &mut Vec<Vec<char>>, d: &SkdDataSetDef, name: &[char], indent: &[char], dflt: &[char])
    ensures
        views(final(lines)@) == views(old(lines)@) + set_lines(*d, name@, indent@, dflt@),
    decreases *d, 1int, 0int,
{
    let ghost start = views(lines@);
    let kind: &str = if d.has_items {
        "DataSetUnion"
    } else if d.has_object_name {
        "DataSetObject"
    } else {
        "DataSetQuery"
    };
    let inner = indented(indent, "\t");
    let mut head = indented(indent, "<dataSet xsi:type=\"");
    push_str(&mut head, kind);
    push_str(&mut head, "\">");
    push_line(lines, head);
    push_line(lines, wrapped(&inner, "<name>", &escape_xml_exec(name), "</name>"));
    let ghost h0 = views(lines@);
    let mut i: usize = 0;
    while i < d.fields.len()
        invariant
            i <= d.fields@.len(),
            inner@ == indent@ + "\t"@,
            views(lines@) + fields_lines(d.fields@, inner@, i as int) == h0 + fields_lines(d.fields@, inner@, 0),
        decreases d.fields.len() - i,
    {
        let ghost before = views(lines@);
        skd_compile_emit_field(lines, &d.fields[i], &inner);
        assert(before + fields_lines(d.fields@, inner@, i as int) =~= views(lines@) + fields_lines(d.fields@, inner@, i + 1));
        i = i + 1;
    }
    assert(views(lines@) + fields_lines(d.fields@, inner@, i as int) =~= views(lines@));
    let ghost h1 = views(lines@);
    if !d.has_items {
        let src = match &d.source {
            Some(x) => crate::text::to_vec(x),
            None => crate::text::to_vec(dflt),
        };
        push_line(lines, wrapped(&inner, "<dataSource>", &escape_xml_exec(&src), "</dataSource>"));
    }
    let ghost h2 = views(lines@);
    if d.has_items {
        let mut j: usize = 0;
        while j < d.items.len()
            invariant
                j <= d.items@.len(),
                inner@ == indent@ + "\t"@,
                views(lines@) + items_lines(*d, inner@, dflt@, j as int) == h2 + items_lines(*d, inner@, dflt@, 0),
            decreases d.items.len() - j,
        {
            let ghost before = views(lines@);
            proof {
                assert(decreases_to!(*d => d.items));
                assert(decreases_to!(d.items => d.items@));
                assert(decreases_to!(d.items@ => d.items@[j as int]));
            }
            let item_name = or_empty_exec(&d.items[j].name);
            skd_compile_emit_data_set(lines, &d.items[j], &item_name, &inner, dflt);
            assert(before + items_lines(*d, inner@, dflt@, j as int) =~= views(lines@) + items_lines(*d, inner@, dflt@, j + 1));
            j = j + 1;
        }
        assert(views(lines@) + items_lines(*d, inner@, dflt@, j as int) =~= views(lines@));
    } else if d.has_object_name {
        push_line(lines, wrapped(&inner, "<objectName>", &escape_xml_exec(&or_empty_exec(&d.object_name)), "</objectName>"));
    } else {
        push_line(lines, wrapped(&inner, "<query>", &escape_xml_exec(&or_empty_exec(&d.query)), "</query>"));
        if d.auto_fill_fields == Some(false) {
            push_line(lines, indented(&inner, "<autoFillFields>false</autoFillFields>"));
        }
    }
    let ghost h3 = views(lines@);
    push_line(lines, indented(indent, "</dataSet>"));
    proof {
        let kind_s = set_kind(*d);
        assert(kind@ == kind_s);
        assert(h0 =~= start + seq![
            indent@ + "<dataSet xsi:type=\""@ + kind_s + "\">"@,
            (indent@ + "\t"@) + "<name>"@ + escape_xml(name@) + "</name>"@,
        ]);
        assert(views(lines@) =~= start + set_lines(*d, name@, indent@, dflt@));
    }
}

// ---------------------------------------------------------------- the schema

/// The data sources with a name, the type `Local` where none is given.
pub open spec fn source_pairs(items: Seq<(Option<Vec<char>>, Option<Vec<char>>)>, i: int) -> Seq<(Seq<char>, Seq<char>)>
    decreases items.len() - i,
{
    if 0 <= i < items.len() {
        let name = or_empty(items[i].0);
        let rest = source_pairs(items, i + 1);
        if name.len() == 0 {
            rest
        } else {
            seq![(name, match items[i].1 { Some(t) => t@, None => "Local"@ })] + rest
        }
    } else {
        Seq::empty()
    }
}

pub open spec fn default_source() -> Seq<char> {
    "ИсточникДанных1"@
}

/// The data sources of a definition, or one local default source.
pub open spec fn data_sources(defn: SkdDefinition) -> Seq<(Seq<char>, Seq<char>)> {
    let found = match defn.data_sources {
        Some(items) => source_pairs(items@, 0),
        None => Seq::empty(),
    };
    if found.len() > 0 {
        found
    } else {
        seq![(default_source(), "Local"@)]
    }
}

pub open spec fn source_lines(ds: Seq<(Seq<char>, Seq<char>)>, i: int) -> Seq<Seq<char>>
    decreases ds.len() - i,
{
    if 0 <= i < ds.len() {
        seq![
            "\t<dataSource>"@,
            "\t\t<name>"@ + escape_xml(ds[i].0) + "</name>"@,
            "\t\t<dataSourceType>"@ + escape_xml(ds[i].1) + "</dataSourceType>"@,
            "\t</dataSource>"@,
        ] + source_lines(ds, i + 1)
    } else {
        Seq::empty()
    }
}

/// The name of the `i`-th data set of the definition: its own, or a numbered
/// one where it has none.
pub open spec fn top_name(d: SkdDataSetDef, i: int) -> Seq<char> {
    if or_empty(d.name).len() == 0 {
        "НаборДанных"@ + nat_text((i + 1) as nat)
    } else {
        or_empty(d.name)
    }
}

pub open spec fn sets_lines(sets: Seq<SkdDataSetDef>, dflt: Seq<char>, i: int) -> Seq<Seq<char>>
    decreases sets.len() - i,
{
    if 0 <= i < sets.len() {
        set_lines(sets[i], top_name(sets[i], i), "\t"@, dflt) + sets_lines(sets, dflt, i + 1)
    } else {
        Seq::empty()
    }
}

pub open spec fn schema_head() -> Seq<Seq<char>> {
    seq![
        "<?xml version=\"1.0\" encoding=\"UTF-8\"?>"@,
        "<DataCompositionSchema xmlns=\"http://v8.1c.ru/8.1/data-composition-system/schema\" xmlns:dcscom=\"http://v8.1c.ru/8.1/data-composition-system/common\" xmlns:dcscor=\"http://v8.1c.ru/8.1/data-composition-system/core\" xmlns:dcsset=\"http://v8.1c.ru/8.1/data-composition-system/settings\" xmlns:v8=\"http://v8.1c.ru/8.1/data/core\" xmlns:v8ui=\"http://v8.1c.ru/8.1/data/ui\" xmlns:xs=\"http://www.w3.org/2001/XMLSchema\" xmlns:xsi=\"http://www.w3.org/2001/XMLSchema-instance\">"@,
    ]
}

/// The schema built from a definition, or why it cannot be: a definition
/// needs at least one data set.
pub open spec fn skd_compiled(defn: SkdDefinition) -> Result<Seq<char>, Seq<char>> {
    match defn.data_sets {
        Some(v) => if v@.len() > 0 {
            let ds = data_sources(defn);
            let lines = schema_head() + source_lines(ds, 0) + sets_lines(v@, ds[0].0, 0) + default_settings_variant_lines()
                + seq!["</DataCompositionSchema>"@];
            Ok(join(lines, "\n"@) + "\n"@)
        } else {
            Err("JSON must have at least one entry in 'dataSets'"@)
        },
        None => Err("JSON must have at least one entry in 'dataSets'"@),
    }
}

fn data_sources_exec(defn: &SkdDefinition) -> (r: Vec<(Vec<char>, Vec<char>)>)
    ensures
        r@.len() == data_sources(*defn).len(),
        forall|k: int| 0 <= k < r@.len() ==> (#[trigger] r@[k].0@, r@[k].1@) == data_sources(*defn)[k],
{
    let mut found: Vec<(Vec<char>, Vec<char>)> = Vec::new();
    let ghost all = match &defn.data_sources {
        Some(items) => source_pairs(items@, 0),
        None => Seq::<(Seq<char>, Seq<char>)>::empty(),
    };
    match &defn.data_sources {
        Some(items) => {
            let mut i: usize = items.len();
            while i > 0
                invariant
                    i <= items@.len(),
                    all == source_pairs(items@, 0),
                    found@.len() == source_pairs(items@, i as int).len(),
                    forall|k: int| 0 <= k < found@.len() ==> (#[trigger] found@[k].0@, found@[k].1@) == source_pairs(items@, i as int)[found@.len() - 1 - k],
                decreases i,
            {
                let name = or_empty_exec(&items[i - 1].0);
                if name.len() > 0 {
                    let t = match &items[i - 1].1 {
                        Some(t) => crate::text::to_vec(t),
                        None => chars_of("Local"),
                    };
                    found.push((name, t));
                }
                i = i - 1;
            }
        },
        None => {},
    }
    let mut r: Vec<(Vec<char>, Vec<char>)> = Vec::new();
    let mut k: usize = found.len();
    while k > 0
        invariant
            k <= found@.len(),
            found@.len() == all.len(),
            forall|m: int| 0 <= m < found@.len() ==> (#[trigger] found@[m].0@, found@[m].1@) == all[found@.len() - 1 - m],
            r@.len() == found@.len() - k,
            forall|m: int| 0 <= m < r@.len() ==> (#[trigger] r@[m].0@, r@[m].1@) == all[m],
        decreases k,
    {
        let p = (crate::text::to_vec(&found[k - 1].0), crate::text::to_vec(&found[k - 1].1));
        r.push(p);
        k = k - 1;
    }
    if r.len() == 0 {
        r.push((chars_of("ИсточникДанных1"), chars_of("Local")));
    }
    r
}

/// Builds the schema of a definition: its data sources (or one default
/// source), its data sets, where a data set of the list without a name gets a
/// numbered one, and a default settings variant. A definition without data
/// sets is refused.
pub fn skd_compile_xml(defn: &SkdDefinition) -> (r: Result<Vec<char>, Vec<char>>)
    ensures
        match skd_compiled(*defn) {
            Ok(t) => r matches Ok(x) && x@ == t,
            Err(e) => r matches Err(m) && m@ == e,
        },
{
    let sets = match &defn.data_sets {
        Some(v) => v,
        None => {
            return Err(chars_of("JSON must have at least one entry in 'dataSets'"));
        },
    };
    if sets.len() == 0 {
        return Err(chars_of("JSON must have at least one entry in 'dataSets'"));
    }
    let ds = data_sources_exec(defn);
    let ghost dss = data_sources(*defn);
    let mut lines: Vec<Vec<char>> = Vec::new();
    push_line(&mut lines, chars_of("<?xml version=\"1.0\" encoding=\"UTF-8\"?>"));
    push_line(&mut lines, chars_of("<DataCompositionSchema xmlns=\"http://v8.1c.ru/8.1/data-composition-system/schema\" xmlns:dcscom=\"http://v8.1c.ru/8.1/data-composition-system/common\" xmlns:dcscor=\"http://v8.1c.ru/8.1/data-composition-system/core\" xmlns:dcsset=\"http://v8.1c.ru/8.1/data-composition-system/settings\" xmlns:v8=\"http://v8.1c.ru/8.1/data/core\" xmlns:v8ui=\"http://v8.1c.ru/8.1/data/ui\" xmlns:xs=\"http://www.w3.org/2001/XMLSchema\" xmlns:xsi=\"http://www.w3.org/2001/XMLSchema-instance\">"));
    assert(views(lines@) =~= schema_head());
    let mut i: usize = 0;
    while i < ds.len()
        invariant
            i <= ds@.len(),
            ds@.len() == dss.len(),
            forall|k: int| 0 <= k < ds@.len() ==> (#[trigger] ds@[k].0@, ds@[k].1@) == dss[k],
            views(lines@) + source_lines(dss, i as int) == schema_head() + source_lines(dss, 0),
        decreases ds.len() - i,
    {
        let ghost before = views(lines@);
        assert((ds@[i as int].0@, ds@[i as int].1@) == dss[i as int]);
        push_line(&mut lines, chars_of("\t<dataSource>"));
        push_line(&mut lines, enclosed("\t\t<name>", &escape_xml_exec(&ds[i].0), "</name>"));
        push_line(&mut lines, enclosed("\t\t<dataSourceType>", &escape_xml_exec(&ds[i].1), "</dataSourceType>"));
        push_line(&mut lines, chars_of("\t</dataSource>"));
        assert(before + source_lines(dss, i as int) =~= views(lines@) + source_lines(dss, i + 1));
        i = i + 1;
    }
    assert(views(lines@) + source_lines(dss, i as int) =~= views(lines@));
    let ghost h1 = views(lines@);
    let dflt = crate::text::to_vec(&ds[0].0);
    assert(dflt@ == dss[0].0);
    let mut j: usize = 0;
    while j < sets.len()
        invariant
            j <= sets@.len(),
            dflt@ == dss[0].0,
            views(lines@) + sets_lines(sets@, dflt@, j as int) == h1 + sets_lines(sets@, dflt@, 0),
        decreases sets.len() - j,
    {
        let ghost before = views(lines@);
        let own = or_empty_exec(&sets[j].name);
        let name = if own.len() == 0 {
            let mut n = chars_of("НаборДанных");
            push_chars(&mut n, &usize_text(j + 1));
            n
        } else {
            own
        };
        assert(name@ == top_name(sets@[j as int], j as int));
        skd_compile_emit_data_set(&mut lines, &sets[j], &name, &chars_of("\t"), &dflt);
        assert(before + sets_lines(sets@, dflt@, j as int) =~= views(lines@) + sets_lines(sets@, dflt@, j + 1));
        j = j + 1;
    }
    assert(views(lines@) + sets_lines(sets@, dflt@, j as int) =~= views(lines@));
    skd_compile_emit_default_settings_variant(&mut lines);
    push_line(&mut lines, chars_of("</DataCompositionSchema>"));
    let mut out = join_str(&lines, "\n");
    push_str(&mut out, "\n");
    proof {
        assert(views(lines@) =~= schema_head() + source_lines(dss, 0) + sets_lines(sets@, dss[0].0, 0) + default_settings_variant_lines()
            + seq!["</DataCompositionSchema>"@]);
    }
    Ok(out)
}

// ---------------------------------------------------------------- summary

/// The number of fields of the data sets before the `i`-th, short of the
/// largest machine word.
pub open spec fn field_total(sets: Seq<SkdDataSetDef>, i: int) -> nat
    decreases i,
{
    if i <= 0 || i > sets.len() {
        0
    } else {
        let t = field_total(sets, i - 1) + sets[i - 1].fields@.len();
        if t <= usize::MAX {
            t as nat
        } else {
            usize::MAX as nat
        }
    }
}

/// The report of a built schema written to `label`, `size` bytes long.
pub open spec fn compile_summary(defn: SkdDefinition, label: Seq<char>, size: nat) -> Seq<char> {
    let sets = match defn.data_sets {
        Some(v) => v@,
        None => Seq::empty(),
    };
    "OK  "@ + label + "\n    DataSets: "@ + nat_text(sets.len()) + "  Fields: "@ + nat_text(field_total(sets, sets.len() as int))
        + "  Calculated: "@ + nat_text(defn.calculated as nat) + "  Totals: "@ + nat_text(defn.totals as nat) + "  Params: "@
        + nat_text(defn.parameters as nat) + "  Variants: "@ + nat_text(if defn.variants > 0 { defn.variants as nat } else { 1 })
        + "\n    Size: "@ + nat_text(size) + " bytes\n"@
}

pub fn skd_compile_summary(defn: &SkdDefinition, label: &[char], size: u64) -> (r: Vec<char>)
    ensures
        r@ == compile_summary(*defn, label@, size as nat),
{
    let ghost sets_s = match &defn.data_sets {
        Some(v) => v@,
        None => Seq::<SkdDataSetDef>::empty(),
    };
    let mut n_sets: usize = 0;
    let mut total: usize = 0;
    match &defn.data_sets {
        Some(v) => {
            n_sets = v.len();
            let mut i: usize = 0;
            while i < v.len()
                invariant
                    i <= v@.len(),
                    total == field_total(v@, i as int),
                decreases v.len() - i,
            {
                let f = v[i].fields.len();
                total = if total <= usize::MAX - f { total + f } else { usize::MAX };
                i = i + 1;
            }
        },
        None => {},
    }
    let variants: usize = if defn.variants > 0 { defn.variants } else { 1 };
    let mut r = chars_of("OK  ");
    push_chars(&mut r, label);
    push_str(&mut r, "\n    DataSets: ");
    push_chars(&mut r, &usize_text(n_sets));
    push_str(&mut r, "  Fields: ");
    push_chars(&mut r, &usize_text(total));
    push_str(&mut r, "  Calculated: ");
    push_chars(&mut r, &usize_text(defn.calculated));
    push_str(&mut r, "  Totals: ");
    push_chars(&mut r, &usize_text(defn.totals));
    push_str(&mut r, "  Params: ");
    push_chars(&mut r, &usize_text(defn.parameters));
    push_str(&mut r, "  Variants: ");
    push_chars(&mut r, &usize_text(variants));
    push_str(&mut r, "\n    Size: ");
    push_chars(&mut r, &crate::numbers::u64_text(size));
    push_str(&mut r, " bytes\n");
    r
}

} // verus!
