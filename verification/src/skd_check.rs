//! The checks of a data composition schema, each stated as what it adds to the
//! report, and the whole check of a schema text.
use vstd::prelude::*;
use crate::skd_fragments::push_line;
use crate::skd_report::{tagged, SkdValidationReporter};
use crate::text::{eq_str, is_one_of, is_one_of_exec, lit_views, push_chars, push_str, trim, trim_chars, views};
use crate::xml::{
    attribute_by_local_name, attribute_local, child, child_named, child_text, child_text_of, children_named,
    children_with, lemma_children_view, named, text_of, text_or_empty, XmlElement, XmlNode,
};
use crate::numbers::{nat_text, usize_text};

verus! {

/// The report of a check as a value: its lines, its counts, whether it has
/// stopped, and how it was set up.
pub struct Rep {
    pub lines: Seq<Seq<char>>,
    pub errors: nat,
    pub warnings: nat,
    pub oks: nat,
    pub stopped: bool,
    pub max: nat,
    pub detailed: bool,
}

pub open spec fn rep_of(r: SkdValidationReporter) -> Rep {
    Rep {
        lines: views(r.lines@),
        errors: r.errors as nat,
        warnings: r.warnings as nat,
        oks: r.ok_count as nat,
        stopped: r.stopped,
        max: r.max_errors as nat,
        detailed: r.detailed,
    }
}

/// The counts fit in a machine word together.
pub open spec fn rep_wf(r: SkdValidationReporter) -> bool {
    r.errors + r.warnings + r.ok_count <= usize::MAX
}

/// Whether one more finding can be counted.
pub open spec fn room(r: Rep) -> bool {
    r.errors + r.warnings + r.oks < usize::MAX
}

/// A passed check, its line kept in a detailed report.
pub open spec fn r_ok(r: Rep, m: Seq<char>) -> Rep {
    if room(r) {
        Rep {
            oks: r.oks + 1,
            lines: if r.detailed {
                r.lines.push("[OK]    "@ + m)
            } else {
                r.lines
            },
            ..r
        }
    } else {
        r
    }
}

/// An error; reaching the limit stops the check.
pub open spec fn r_err(r: Rep, m: Seq<char>) -> Rep {
    if room(r) {
        Rep { errors: r.errors + 1, lines: r.lines.push("[ERROR] "@ + m), stopped: r.stopped || r.errors + 1 >= r.max, ..r }
    } else {
        r
    }
}

/// A warning.
pub open spec fn r_warn(r: Rep, m: Seq<char>) -> Rep {
    if room(r) {
        Rep { warnings: r.warnings + 1, lines: r.lines.push("[WARN]  "@ + m), ..r }
    } else {
        r
    }
}

fn note_ok(r: &mut SkdValidationReporter, m: &[char])
    requires
        rep_wf(*old(r)),
    ensures
        rep_wf(*final(r)),
        rep_of(*final(r)) == r_ok(rep_of(*old(r)), m@),
{
    if r.errors + r.warnings + r.ok_count < usize::MAX {
        r.ok(m);
    }
}

fn note_err(r: &mut SkdValidationReporter, m: &[char])
    requires
        rep_wf(*old(r)),
    ensures
        rep_wf(*final(r)),
        rep_of(*final(r)) == r_err(rep_of(*old(r)), m@),
{
    if r.errors + r.warnings + r.ok_count < usize::MAX {
        r.error(m);
    }
}

fn note_warn(r: &mut SkdValidationReporter, m: &[char])
    requires
        rep_wf(*old(r)),
    ensures
        rep_wf(*final(r)),
        rep_of(*final(r)) == r_warn(rep_of(*old(r)), m@),
{
    if r.errors + r.warnings + r.ok_count < usize::MAX {
        r.warn(m);
    }
}

/// `a` + `b` + `c` as one message.
fn msg3(a: &str, b: &[char], c: &str) -> (m: Vec<char>)
    ensures
        m@ == a@ + b@ + c@,
{
    let mut m = tagged(a, b);
    push_str(&mut m, c);
    m
}

/// `a` + `b` + `c` + `d` as one message.
fn msg4(a: &str, b: &[char], c: &str, d: &[char]) -> (m: Vec<char>)
    ensures
        m@ == a@ + b@ + c@ + d@,
{
    let mut m = msg3(a, b, c);
    push_chars(&mut m, d);
    m
}

/// Whether `x` is among `items`.
pub(crate) fn has_text(items: &Vec<Vec<char>>, x: &[char]) -> (b: bool)
    ensures
        b == views(items@).contains(x@),
{
    let mut i: usize = 0;
    while i < items.len()
        invariant
            i <= items@.len(),
            forall|k: int| 0 <= k < i ==> views(items@)[k] != x@,
        decreases items.len() - i,
    {
        if crate::text::eq_chars(&items[i], x) {
            assert(views(items@)[i as int] == x@);
            return true;
        }
        i = i + 1;
    }
    false
}

/// The values of a list of elements.
pub open spec fn node_views(v: Seq<&XmlElement>) -> Seq<XmlNode> {
    v.map_values(|e: &XmlElement| e@)
}

/// A step over each node of a list, from the first to the `i`-th.
pub open spec fn fold_nodes<S>(nodes: Seq<XmlNode>, i: int, init: S, step: spec_fn(S, XmlNode) -> S) -> S
    decreases i,
{
    if i <= 0 {
        init
    } else {
        step(fold_nodes(nodes, i - 1, init, step), nodes[i - 1])
    }
}

pub open spec fn ns_schema() -> Option<Seq<char>> {
    Some("http://v8.1c.ru/8.1/data-composition-system/schema"@)
}

pub open spec fn ns_settings() -> Option<Seq<char>> {
    Some("http://v8.1c.ru/8.1/data-composition-system/settings"@)
}

/// The text of the child `name` in the schema namespace, or the empty text.
pub open spec fn schema_text(n: XmlNode, name: Seq<char>) -> Seq<char> {
    child_text(n, name, ns_schema())
}

// ---------------------------------------------------------------- data sources

/// One data source: its name must be there and new; an unknown type is noted.
pub open spec fn source_step(s: (Rep, Seq<Seq<char>>, bool), n: XmlNode) -> (Rep, Seq<Seq<char>>, bool) {
    let (r, seen, ok) = s;
    let name = schema_text(n, "name"@);
    let (r1, seen1, ok1) = if name.len() == 0 {
        (r_err(r, "DataSource has empty name"@), seen, false)
    } else if seen.contains(name) {
        (r_err(r, "Duplicate dataSource name: "@ + name), seen, false)
    } else {
        (r, seen.push(name), ok)
    };
    let r2 = match child_named(n, "dataSourceType"@, ns_schema()) {
        Some(t) => {
            let tt = text_or_empty(t);
            if tt == "Local"@ || tt == "External"@ {
                r1
            } else {
                r_warn(r1, "DataSource '"@ + name + "' has unusual type: "@ + tt)
            }
        },
        None => r1,
    };
    (r2, seen1, ok1)
}

/// The check of the data sources.
pub open spec fn check_sources(r: Rep, nodes: Seq<XmlNode>) -> Rep {
    if nodes.len() == 0 {
        r_warn(r, "No dataSource elements found (settings-only DCS?)"@)
    } else {
        let (r1, _seen, ok) = fold_nodes(nodes, nodes.len() as int, (r, Seq::empty(), true), |s, n| source_step(s, n));
        if ok {
            r_ok(r1, nat_text(nodes.len()) + " dataSource(s) found, names unique"@)
        } else {
            r1
        }
    }
}

pub fn skd_validate_data_sources(report: &mut SkdValidationReporter, nodes: &Vec<&XmlElement>)
    requires
        rep_wf(*old(report)),
    ensures
        rep_wf(*final(report)),
        rep_of(*final(report)) == check_sources(rep_of(*old(report)), node_views(nodes@)),
{
    let ghost ns = node_views(nodes@);
    let ghost r0 = rep_of(*report);
    if nodes.len() == 0 {
        note_warn(report, &crate::text::chars_of("No dataSource elements found (settings-only DCS?)"));
        return;
    }
    let mut seen: Vec<Vec<char>> = Vec::new();
    let mut ok = true;
    let mut i: usize = 0;
    while i < nodes.len()
        invariant
            i <= nodes@.len(),
            ns == node_views(nodes@),
            rep_wf(*report),
            (rep_of(*report), views(seen@), ok) == fold_nodes(ns, i as int, (r0, Seq::<Seq<char>>::empty(), true), |s, n| source_step(s, n)),
        decreases nodes.len() - i,
    {
        let n = nodes[i];
        assert(ns[i as int] == n@);
        let name = child_text_of(n, "name", Some("http://v8.1c.ru/8.1/data-composition-system/schema"));
        if name.len() == 0 {
            note_err(report, &crate::text::chars_of("DataSource has empty name"));
            ok = false;
        } else if has_text(&seen, &name) {
            note_err(report, &tagged("Duplicate dataSource name: ", &name));
            ok = false;
        } else {
            push_line(&mut seen, crate::text::to_vec(&name));
        }
        match child(n, "dataSourceType", Some("http://v8.1c.ru/8.1/data-composition-system/schema")) {
            Some(t) => {
                let tt = text_of(t);
                if !(eq_str(&tt, "Local") || eq_str(&tt, "External")) {
                    note_warn(report, &msg4("DataSource '", &name, "' has unusual type: ", &tt));
                }
            },
            None => {},
        }
        i = i + 1;
    }
    if ok {
        note_ok(report, &tagged_count(nodes.len(), " dataSource(s) found, names unique"));
    }
}

/// A count followed by `rest`.
fn tagged_count(n: usize, rest: &str) -> (m: Vec<char>)
    ensures
        m@ == nat_text(n as nat) + rest@,
{
    let mut m = usize_text(n);
    push_str(&mut m, rest);
    m
}

/// `text` of an optional node, or `dflt`.
pub open spec fn text_or(c: Option<XmlNode>, dflt: Seq<char>) -> Seq<char> {
    match c {
        Some(x) => text_or_empty(x),
        None => dflt,
    }
}

fn text_or_exec(c: Option<&XmlElement>, dflt: &str) -> (r: Vec<char>)
    ensures
        r@ == text_or(match c {
            Some(x) => Some(x@),
            None => None,
        }, dflt@),
{
    match c {
        Some(x) => text_of(x),
        None => crate::text::chars_of(dflt),
    }
}

/// The names of the nodes that have a `name` child, in order.
pub open spec fn name_step(s: Seq<Seq<char>>, n: XmlNode) -> Seq<Seq<char>> {
    match child_named(n, "name"@, ns_schema()) {
        Some(c) => s.push(text_or_empty(c)),
        None => s,
    }
}

pub open spec fn names_of(nodes: Seq<XmlNode>) -> Seq<Seq<char>> {
    fold_nodes(nodes, nodes.len() as int, Seq::<Seq<char>>::empty(), |s, n| name_step(s, n))
}

fn names_of_exec(nodes: &Vec<&XmlElement>) -> (r: Vec<Vec<char>>)
    ensures
        views(r@) == names_of(node_views(nodes@)),
{
    let ghost ns = node_views(nodes@);
    let mut r: Vec<Vec<char>> = Vec::new();
    let mut i: usize = 0;
    while i < nodes.len()
        invariant
            i <= nodes@.len(),
            ns == node_views(nodes@),
            views(r@) == fold_nodes(ns, i as int, Seq::<Seq<char>>::empty(), |s, n| name_step(s, n)),
        decreases nodes.len() - i,
    {
        assert(ns[i as int] == nodes[i as int]@);
        match child(nodes[i], "name", Some("http://v8.1c.ru/8.1/data-composition-system/schema")) {
            Some(c) => push_line(&mut r, text_of(c)),
            None => {},
        }
        i = i + 1;
    }
    r
}

// ---------------------------------------------------------------- data sets

pub open spec fn data_set_types() -> Seq<Seq<char>> {
    seq!["DataSetQuery"@, "DataSetObject"@, "DataSetUnion"@]
}

/// One data set: a new name, a type, a known source, a query or an object name.
pub open spec fn set_step(s: (Rep, Seq<Seq<char>>, bool), n: XmlNode, known: Seq<Seq<char>>) -> (Rep, Seq<Seq<char>>, bool) {
    let (r, seen, ok) = s;
    let xsi = match attribute_by_local_name(n, "type"@) {
        Some(v) => v,
        None => Seq::empty(),
    };
    let name_node = child_named(n, "name"@, ns_schema());
    let ds_name = text_or(name_node, "(unnamed)"@);
    let (r1, seen1, ok1) = if name_node is None || ds_name.len() == 0 {
        (r_err(r, "DataSet has empty name"@), seen, false)
    } else if seen.contains(ds_name) {
        (r_err(r, "Duplicate dataSet name: "@ + ds_name), seen, false)
    } else {
        (r, seen.push(ds_name), ok)
    };
    let (r2, ok2) = if xsi.len() == 0 {
        (r_err(r1, "DataSet '"@ + ds_name + "' missing xsi:type"@), false)
    } else if !is_one_of(xsi, data_set_types()) {
        (r_warn(r1, "DataSet '"@ + ds_name + "' has unusual xsi:type: "@ + xsi), ok1)
    } else {
        (r1, ok1)
    };
    let (r3, ok3) = if xsi != "DataSetUnion"@ {
        match child_named(n, "dataSource"@, ns_schema()) {
            Some(c) => {
                let src = text_or_empty(c);
                if src.len() > 0 && !known.contains(src) {
                    (r_err(r2, "DataSet '"@ + ds_name + "' references unknown dataSource: "@ + src), false)
                } else {
                    (r2, ok2)
                }
            },
            None => (r2, ok2),
        }
    } else {
        (r2, ok2)
    };
    let r4 = if xsi == "DataSetQuery"@ && trim(schema_text(n, "query"@)).len() == 0 {
        r_warn(r3, "DataSet '"@ + ds_name + "' (Query) has empty query"@)
    } else {
        r3
    };
    let (r5, ok5) = if xsi == "DataSetObject"@ && trim(schema_text(n, "objectName"@)).len() == 0 {
        (r_err(r4, "DataSet '"@ + ds_name + "' (Object) has empty objectName"@), false)
    } else {
        (r4, ok3)
    };
    (r5, seen1, ok5)
}

/// The check of the data sets against the known source names.
pub open spec fn check_sets(r: Rep, nodes: Seq<XmlNode>, known: Seq<Seq<char>>) -> Rep {
    if nodes.len() == 0 {
        r_warn(r, "No dataSet elements found (settings-only DCS?)"@)
    } else {
        let (r1, _seen, ok) = fold_nodes(nodes, nodes.len() as int, (r, Seq::empty(), true), |s, n| set_step(s, n, known));
        if ok {
            r_ok(r1, nat_text(nodes.len()) + " dataSet(s) found, names unique"@)
        } else {
            r1
        }
    }
}

fn lit_one_of(t: &[char], items: &[&'static str]) -> (b: bool)
    ensures
        b == is_one_of(t@, lit_views(items@)),
{
    is_one_of_exec(t, items)
}


#[verifier::rlimit(40)]
fn data_set_node(report: &mut SkdValidationReporter, seen: &mut Vec<Vec<char>>, ok: &mut bool, n: &XmlElement, known: &Vec<Vec<char>>)
    requires
        rep_wf(*old(report)),
    ensures
        rep_wf(*final(report)),
        (rep_of(*final(report)), views(final(seen)@), *final(ok)) == set_step(
            (rep_of(*old(report)), views(old(seen)@), *old(ok)),
            n@,
            views(known@),
        ),
{
    let types: [&'static str; 3] = ["DataSetQuery", "DataSetObject", "DataSetUnion"];
    proof {
        assert(lit_views(types@) =~= data_set_types());
    }
        let xsi = match attribute_local(n, "type") {
            Some(v) => v,
            None => Vec::new(),
        };
        let name_node = child(n, "name", Some("http://v8.1c.ru/8.1/data-composition-system/schema"));
        let ds_name = text_or_exec(name_node, "(unnamed)");
        if name_node.is_none() || ds_name.len() == 0 {
            note_err(report, &crate::text::chars_of("DataSet has empty name"));
            *ok = false;
        } else if has_text(&*seen, &ds_name) {
            note_err(report, &tagged("Duplicate dataSet name: ", &ds_name));
            *ok = false;
        } else {
            push_line(seen, crate::text::to_vec(&ds_name));
        }
        if xsi.len() == 0 {
            note_err(report, &msg3("DataSet '", &ds_name, "' missing xsi:type"));
            *ok = false;
        } else if !lit_one_of(&xsi, &types) {
            note_warn(report, &msg4("DataSet '", &ds_name, "' has unusual xsi:type: ", &xsi));
        }
        if !eq_str(&xsi, "DataSetUnion") {
            match child(n, "dataSource", Some("http://v8.1c.ru/8.1/data-composition-system/schema")) {
                Some(c) => {
                    let src = text_of(c);
                    if src.len() > 0 && !has_text(known, &src) {
                        note_err(report, &msg4("DataSet '", &ds_name, "' references unknown dataSource: ", &src));
                        *ok = false;
                    }
                },
                None => {},
            }
        }
        if eq_str(&xsi, "DataSetQuery") {
            let q = trim_chars(&child_text_of(n, "query", Some("http://v8.1c.ru/8.1/data-composition-system/schema")));
            if q.len() == 0 {
                note_warn(report, &msg3("DataSet '", &ds_name, "' (Query) has empty query"));
            }
        }
        if eq_str(&xsi, "DataSetObject") {
            let o = trim_chars(&child_text_of(n, "objectName", Some("http://v8.1c.ru/8.1/data-composition-system/schema")));
            if o.len() == 0 {
                note_err(report, &msg3("DataSet '", &ds_name, "' (Object) has empty objectName"));
                *ok = false;
            }
        }
}

pub fn skd_validate_data_sets(report: &mut SkdValidationReporter, nodes: &Vec<&XmlElement>, known: &Vec<Vec<char>>)
    requires
        rep_wf(*old(report)),
    ensures
        rep_wf(*final(report)),
        rep_of(*final(report)) == check_sets(rep_of(*old(report)), node_views(nodes@), views(known@)),
{
    let ghost ns = node_views(nodes@);
    let ghost kn = views(known@);
    let ghost r0 = rep_of(*report);
    if nodes.len() == 0 {
        note_warn(report, &crate::text::chars_of("No dataSet elements found (settings-only DCS?)"));
        return;
    }
    let mut seen: Vec<Vec<char>> = Vec::new();
    let mut ok = true;
    let mut i: usize = 0;
    while i < nodes.len()
        invariant
            i <= nodes@.len(),
            ns == node_views(nodes@),
            kn == views(known@),
            rep_wf(*report),
            (rep_of(*report), views(seen@), ok) == fold_nodes(ns, i as int, (r0, Seq::<Seq<char>>::empty(), true), |s, x| set_step(s, x, kn)),
        decreases nodes.len() - i,
    {
        assert(ns[i as int] == nodes[i as int]@);
        data_set_node(report, &mut seen, &mut ok, nodes[i], known);
        i = i + 1;
    }
    if ok {
        note_ok(report, &tagged_count(nodes.len(), " dataSet(s) found, names unique"));
    }
}

// ---------------------------------------------------------------- fields of a data set

/// One field of a data set: a data path, noted when repeated, and a field name.
pub open spec fn field_step(s: (Rep, Seq<Seq<char>>, bool), f: XmlNode, ds_name: Seq<char>) -> (Rep, Seq<Seq<char>>, bool) {
    let (r, seen, ok) = s;
    let path = schema_text(f, "dataPath"@);
    if path.len() == 0 {
        (r_err(r, "DataSet '"@ + ds_name + "': field has empty dataPath"@), seen, false)
    } else {
        let (r1, seen1) = if seen.contains(path) {
            (r_warn(r, "DataSet '"@ + ds_name + "': duplicate dataPath '"@ + path + "'"@), seen)
        } else {
            (r, seen.push(path))
        };
        let r2 = if schema_text(f, "field"@).len() == 0 {
            r_warn(r1, "DataSet '"@ + ds_name + "': field '"@ + path + "' has empty <field> element"@)
        } else {
            r1
        };
        (r2, seen1, ok)
    }
}

/// The check of the fields of a data set, then of its nested items; a set
/// without fields is not looked into.
pub open spec fn check_fields(r: Rep, ds: XmlNode, ds_name: Seq<char>) -> Rep
    decreases ds, ds.children.len() + 1,
{
    let fields = children_named(ds, "field"@, ns_schema());
    if fields.len() == 0 {
        r
    } else {
        let (r1, _s, ok) = fold_nodes(fields, fields.len() as int, (r, Seq::empty(), true), |s, f| field_step(s, f, ds_name));
        let r2 = if ok {
            r_ok(r1, "DataSet \""@ + ds_name + "\": "@ + nat_text(fields.len()) + " fields, dataPath unique"@)
        } else {
            r1
        };
        check_item_fields(r2, ds, 0)
    }
}

/// The check of the nested items of a data set, from the `i`-th child on.
pub open spec fn check_item_fields(r: Rep, ds: XmlNode, i: int) -> Rep
    decreases ds, ds.children.len() - i,
{
    if 0 <= i < ds.children.len() {
        proof {
            assert(decreases_to!(ds => ds.children));
            assert(decreases_to!(ds.children => ds.children[i]));
        }
        let c = ds.children[i];
        let r1 = if named(c, "item"@, ns_schema()) {
            check_fields(r, c, text_or(child_named(c, "name"@, ns_schema()), "(unnamed item)"@))
        } else {
            r
        };
        check_item_fields(r1, ds, i + 1)
    } else {
        r
    }
}

fn field_node(report: &mut SkdValidationReporter, seen: &mut Vec<Vec<char>>, ok: &mut bool, f: &XmlElement, ds_name: &[char])
    requires
        rep_wf(*old(report)),
    ensures
        rep_wf(*final(report)),
        (rep_of(*final(report)), views(final(seen)@), *final(ok)) == field_step(
            (rep_of(*old(report)), views(old(seen)@), *old(ok)),
            f@,
            ds_name@,
        ),
{
    let path = child_text_of(f, "dataPath", Some("http://v8.1c.ru/8.1/data-composition-system/schema"));
    if path.len() == 0 {
        note_err(report, &msg3("DataSet '", ds_name, "': field has empty dataPath"));
        *ok = false;
        return;
    }
    if has_text(&*seen, &path) {
        let mut m = msg4("DataSet '", ds_name, "': duplicate dataPath '", &path);
        push_str(&mut m, "'");
        note_warn(report, &m);
    } else {
        push_line(seen, crate::text::to_vec(&path));
    }
    if child_text_of(f, "field", Some("http://v8.1c.ru/8.1/data-composition-system/schema")).len() == 0 {
        let mut m = msg4("DataSet '", ds_name, "': field '", &path);
        push_str(&mut m, "' has empty <field> element");
        note_warn(report, &m);
    }
}

pub fn skd_validate_data_set_fields(report: &mut SkdValidationReporter, ds: &XmlElement, ds_name: &[char])
    requires
        rep_wf(*old(report)),
    ensures
        rep_wf(*final(report)),
        rep_of(*final(report)) == check_fields(rep_of(*old(report)), ds@, ds_name@),
    decreases ds@, ds@.children.len() + 1,
{
    let ghost fs = children_named(ds@, "field"@, ns_schema());
    let fields = children_with(ds, "field", Some("http://v8.1c.ru/8.1/data-composition-system/schema"));
    if fields.len() == 0 {
        return;
    }
    let ghost r0 = rep_of(*report);
    let mut seen: Vec<Vec<char>> = Vec::new();
    let mut ok = true;
    let mut i: usize = 0;
    while i < fields.len()
        invariant
            i <= fields@.len(),
            fields@.len() == fs.len(),
            forall|k: int| 0 <= k < fields@.len() ==> (#[trigger] fields@[k])@ == fs[k],
            rep_wf(*report),
            (rep_of(*report), views(seen@), ok) == fold_nodes(fs, i as int, (r0, Seq::<Seq<char>>::empty(), true), |s, f| field_step(s, f, ds_name@)),
        decreases fields.len() - i,
    {
        assert(fields@[i as int]@ == fs[i as int]);
        field_node(report, &mut seen, &mut ok, fields[i], ds_name);
        i = i + 1;
    }
    if ok {
        let mut m = tagged("DataSet \"", ds_name);
        push_str(&mut m, "\": ");
        push_chars(&mut m, &usize_text(fields.len()));
        push_str(&mut m, " fields, dataPath unique");
        note_ok(report, &m);
    }
    let ghost r2 = rep_of(*report);
    proof {
        lemma_children_view(*ds);
    }
    let mut j: usize = 0;
    while j < ds.children.len()
        invariant
            j <= ds.children@.len(),
            ds@.children == crate::xml::element_views(ds.children@),
            ds@.children.len() == ds.children@.len(),
            rep_wf(*report),
            check_item_fields(rep_of(*report), ds@, j as int) == check_item_fields(r2, ds@, 0),
        decreases ds.children.len() - j,
    {
        let c = &ds.children[j];
        assert(c@ == ds@.children[j as int]);
        if crate::xml::is_named(c, "item", Some("http://v8.1c.ru/8.1/data-composition-system/schema")) {
            let name = text_or_exec(child(c, "name", Some("http://v8.1c.ru/8.1/data-composition-system/schema")), "(unnamed item)");
            proof {
                assert(decreases_to!(ds@ => ds@.children));
                assert(decreases_to!(ds@.children => ds@.children[j as int]));
            }
            skd_validate_data_set_fields(report, c, &name);
        }
        j = j + 1;
    }
}

// ---------------------------------------------------------------- links

/// One link: known data sets on both ends and both expressions.
pub open spec fn link_step(s: (Rep, bool), l: XmlNode, sets: Seq<Seq<char>>) -> (Rep, bool) {
    let (r, ok) = s;
    let src = schema_text(l, "sourceDataSet"@);
    let (r1, ok1) = if src.len() > 0 && !sets.contains(src) {
        (r_err(r, "DataSetLink: sourceDataSet '"@ + src + "' not found"@), false)
    } else {
        (r, ok)
    };
    let dst = schema_text(l, "destinationDataSet"@);
    let (r2, ok2) = if dst.len() > 0 && !sets.contains(dst) {
        (r_err(r1, "DataSetLink: destinationDataSet '"@ + dst + "' not found"@), false)
    } else {
        (r1, ok1)
    };
    let (r3, ok3) = if trim(schema_text(l, "sourceExpression"@)).len() == 0 {
        (r_err(r2, "DataSetLink: empty sourceExpression"@), false)
    } else {
        (r2, ok2)
    };
    if trim(schema_text(l, "destinationExpression"@)).len() == 0 {
        (r_err(r3, "DataSetLink: empty destinationExpression"@), false)
    } else {
        (r3, ok3)
    }
}

/// The check of the links between data sets.
pub open spec fn check_links(r: Rep, nodes: Seq<XmlNode>, sets: Seq<Seq<char>>) -> Rep {
    if nodes.len() == 0 {
        r
    } else {
        let (r1, ok) = fold_nodes(nodes, nodes.len() as int, (r, true), |s, l| link_step(s, l, sets));
        if ok {
            r_ok(r1, nat_text(nodes.len()) + " dataSetLink(s): references valid"@)
        } else {
            r1
        }
    }
}

fn link_node(report: &mut SkdValidationReporter, ok: &mut bool, l: &XmlElement, sets: &Vec<Vec<char>>)
    requires
        rep_wf(*old(report)),
    ensures
        rep_wf(*final(report)),
        (rep_of(*final(report)), *final(ok)) == link_step((rep_of(*old(report)), *old(ok)), l@, views(sets@)),
{
    let src = child_text_of(l, "sourceDataSet", Some("http://v8.1c.ru/8.1/data-composition-system/schema"));
    if src.len() > 0 && !has_text(sets, &src) {
        note_err(report, &msg3("DataSetLink: sourceDataSet '", &src, "' not found"));
        *ok = false;
    }
    let dst = child_text_of(l, "destinationDataSet", Some("http://v8.1c.ru/8.1/data-composition-system/schema"));
    if dst.len() > 0 && !has_text(sets, &dst) {
        note_err(report, &msg3("DataSetLink: destinationDataSet '", &dst, "' not found"));
        *ok = false;
    }
    if trim_chars(&child_text_of(l, "sourceExpression", Some("http://v8.1c.ru/8.1/data-composition-system/schema"))).len() == 0 {
        note_err(report, &crate::text::chars_of("DataSetLink: empty sourceExpression"));
        *ok = false;
    }
    if trim_chars(&child_text_of(l, "destinationExpression", Some("http://v8.1c.ru/8.1/data-composition-system/schema"))).len() == 0 {
        note_err(report, &crate::text::chars_of("DataSetLink: empty destinationExpression"));
        *ok = false;
    }
}

pub fn skd_validate_data_set_links(report: &mut SkdValidationReporter, nodes: &Vec<&XmlElement>, sets: &Vec<Vec<char>>)
    requires
        rep_wf(*old(report)),
    ensures
        rep_wf(*final(report)),
        rep_of(*final(report)) == check_links(rep_of(*old(report)), node_views(nodes@), views(sets@)),
{
    let ghost ns = node_views(nodes@);
    let ghost r0 = rep_of(*report);
    if nodes.len() == 0 {
        return;
    }
    let mut ok = true;
    let mut i: usize = 0;
    while i < nodes.len()
        invariant
            i <= nodes@.len(),
            ns == node_views(nodes@),
            rep_wf(*report),
            (rep_of(*report), ok) == fold_nodes(ns, i as int, (r0, true), |s, l| link_step(s, l, views(sets@))),
        decreases nodes.len() - i,
    {
        assert(ns[i as int] == nodes[i as int]@);
        link_node(report, &mut ok, nodes[i], sets);
        i = i + 1;
    }
    if ok {
        note_ok(report, &tagged_count(nodes.len(), " dataSetLink(s): references valid"));
    }
}

// ---------------------------------------------------------------- field paths of the data sets

/// The data paths of the fields among the children of `ds` from the `i`-th on,
/// each with the name of its data set, after `m`.
pub open spec fn collect_paths_from(m: Seq<(Seq<char>, Seq<char>)>, ds: XmlNode, name: Seq<char>, i: int) -> Seq<(Seq<char>, Seq<char>)>
    decreases ds.children.len() - i,
{
    if 0 <= i < ds.children.len() {
        let c = ds.children[i];
        let m1 = if named(c, "field"@, ns_schema()) {
            match child_named(c, "dataPath"@, ns_schema()) {
                Some(dp) => m.push((text_or_empty(dp), name)),
                None => m,
            }
        } else {
            m
        };
        collect_paths_from(m1, ds, name, i + 1)
    } else {
        m
    }
}

/// The data paths of a data set and of its named nested items, in the order
/// they are recorded.
pub open spec fn collect_fields(m: Seq<(Seq<char>, Seq<char>)>, ds: XmlNode, name: Seq<char>) -> Seq<(Seq<char>, Seq<char>)>
    decreases ds, ds.children.len() + 1,
{
    collect_items_from(collect_paths_from(m, ds, name, 0), ds, 0)
}

pub open spec fn collect_items_from(m: Seq<(Seq<char>, Seq<char>)>, ds: XmlNode, i: int) -> Seq<(Seq<char>, Seq<char>)>
    decreases ds, ds.children.len() - i,
{
    if 0 <= i < ds.children.len() {
        proof {
            assert(decreases_to!(ds => ds.children));
            assert(decreases_to!(ds.children => ds.children[i]));
        }
        let c = ds.children[i];
        let m1 = if named(c, "item"@, ns_schema()) {
            match child_named(c, "name"@, ns_schema()) {
                Some(nm) => collect_fields(m, c, text_or_empty(nm)),
                None => m,
            }
        } else {
            m
        };
        collect_items_from(m1, ds, i + 1)
    } else {
        m
    }
}

/// The data set recorded last for a data path.
pub open spec fn lookup_last(m: Seq<(Seq<char>, Seq<char>)>, path: Seq<char>) -> Option<Seq<char>>
    decreases m.len(),
{
    if m.len() == 0 {
        None
    } else if m.last().0 == path {
        Some(m.last().1)
    } else {
        lookup_last(m.drop_last(), path)
    }
}

/// The data paths of all named data sets.
pub open spec fn path_step(m: Seq<(Seq<char>, Seq<char>)>, ds: XmlNode) -> Seq<(Seq<char>, Seq<char>)> {
    match child_named(ds, "name"@, ns_schema()) {
        Some(nm) => collect_fields(m, ds, text_or_empty(nm)),
        None => m,
    }
}

pub open spec fn all_field_paths(sets: Seq<XmlNode>) -> Seq<(Seq<char>, Seq<char>)> {
    fold_nodes(sets, sets.len() as int, Seq::empty(), |m, ds| path_step(m, ds))
}

fn collect_fields_exec(m: &mut Vec<(Vec<char>, Vec<char>)>, ds: &XmlElement, name: &[char])
    ensures
        pair_views(final(m)@) == collect_fields(pair_views(old(m)@), ds@, name@),
    decreases ds@, ds@.children.len() + 1,
{
    proof {
        lemma_children_view(*ds);
    }
    let ghost m0 = pair_views(m@);
    let mut i: usize = 0;
    while i < ds.children.len()
        invariant
            i <= ds.children@.len(),
            ds@.children == crate::xml::element_views(ds.children@),
            ds@.children.len() == ds.children@.len(),
            collect_paths_from(pair_views(m@), ds@, name@, i as int) == collect_paths_from(m0, ds@, name@, 0),
        decreases ds.children.len() - i,
    {
        let c = &ds.children[i];
        assert(c@ == ds@.children[i as int]);
        if crate::xml::is_named(c, "field", Some("http://v8.1c.ru/8.1/data-composition-system/schema")) {
            match child(c, "dataPath", Some("http://v8.1c.ru/8.1/data-composition-system/schema")) {
                Some(dp) => {
                    let ghost before = m@;
                    m.push((text_of(dp), crate::text::to_vec(name)));
                    assert(pair_views(m@) =~= pair_views(before).push((text_or_empty(dp@), name@))) by {
                        assert(pair_views(m@) =~= pair_views(before).push((text_or_empty(dp@), name@)));
                    }
                },
                None => {},
            }
        }
        i = i + 1;
    }
    let ghost m1 = pair_views(m@);
    let mut j: usize = 0;
    while j < ds.children.len()
        invariant
            j <= ds.children@.len(),
            ds@.children == crate::xml::element_views(ds.children@),
            ds@.children.len() == ds.children@.len(),
            collect_items_from(pair_views(m@), ds@, j as int) == collect_items_from(m1, ds@, 0),
        decreases ds.children.len() - j,
    {
        let c = &ds.children[j];
        assert(c@ == ds@.children[j as int]);
        if crate::xml::is_named(c, "item", Some("http://v8.1c.ru/8.1/data-composition-system/schema")) {
            match child(c, "name", Some("http://v8.1c.ru/8.1/data-composition-system/schema")) {
                Some(nm) => {
                    let t = text_of(nm);
                    proof {
                        assert(decreases_to!(ds@ => ds@.children));
                        assert(decreases_to!(ds@.children => ds@.children[j as int]));
                    }
                    collect_fields_exec(m, c, &t);
                },
                None => {},
            }
        }
        j = j + 1;
    }
}

pub open spec fn pair_views(m: Seq<(Vec<char>, Vec<char>)>) -> Seq<(Seq<char>, Seq<char>)> {
    m.map_values(|p: (Vec<char>, Vec<char>)| (p.0@, p.1@))
}

fn all_field_paths_exec(sets: &Vec<&XmlElement>) -> (m: Vec<(Vec<char>, Vec<char>)>)
    ensures
        pair_views(m@) == all_field_paths(node_views(sets@)),
{
    let ghost ns = node_views(sets@);
    let mut m: Vec<(Vec<char>, Vec<char>)> = Vec::new();
    assert(pair_views(m@) =~= Seq::<(Seq<char>, Seq<char>)>::empty());
    let mut i: usize = 0;
    while i < sets.len()
        invariant
            i <= sets@.len(),
            ns == node_views(sets@),
            pair_views(m@) == fold_nodes(ns, i as int, Seq::<(Seq<char>, Seq<char>)>::empty(), |m, ds| path_step(m, ds)),
        decreases sets.len() - i,
    {
        assert(ns[i as int] == sets[i as int]@);
        match child(sets[i], "name", Some("http://v8.1c.ru/8.1/data-composition-system/schema")) {
            Some(nm) => {
                let t = text_of(nm);
                collect_fields_exec(&mut m, sets[i], &t);
            },
            None => {},
        }
        i = i + 1;
    }
    m
}

fn lookup_last_exec(m: &Vec<(Vec<char>, Vec<char>)>, path: &[char]) -> (r: Option<Vec<char>>)
    ensures
        crate::xml::opt_view(r) == lookup_last(pair_views(m@), path@),
{
    let mut k: usize = m.len();
    assert(pair_views(m@).take(k as int) =~= pair_views(m@));
    while k > 0
        invariant
            k <= m@.len(),
            lookup_last(pair_views(m@), path@) == lookup_last(pair_views(m@).take(k as int), path@),
        decreases k,
    {
        let ghost t = pair_views(m@).take(k as int);
        assert(t.drop_last() =~= pair_views(m@).take(k - 1));
        if crate::text::eq_chars(&m[k - 1].0, path) {
            return Some(crate::text::to_vec(&m[k - 1].1));
        }
        k = k - 1;
    }
    None
}

// ---------------------------------------------------------------- calculated fields

/// One calculated field: a new data path and an expression; shadowing a data
/// set field is noted.
pub open spec fn calc_step(s: (Rep, Seq<Seq<char>>, bool), c: XmlNode, m: Seq<(Seq<char>, Seq<char>)>) -> (Rep, Seq<Seq<char>>, bool) {
    let (r, seen, ok) = s;
    let path = schema_text(c, "dataPath"@);
    if path.len() == 0 {
        (r_err(r, "CalculatedField has empty dataPath"@), seen, false)
    } else {
        let (r1, seen1, ok1) = if seen.contains(path) {
            (r_err(r, "Duplicate calculatedField dataPath: "@ + path), seen, false)
        } else {
            (r, seen.push(path), ok)
        };
        let (r2, ok2) = if trim(schema_text(c, "expression"@)).len() == 0 {
            (r_err(r1, "CalculatedField '"@ + path + "' has empty expression"@), false)
        } else {
            (r1, ok1)
        };
        let r3 = match lookup_last(m, path) {
            Some(d) => r_warn(r2, "CalculatedField '"@ + path + "' shadows dataSet field in '"@ + d + "'"@),
            None => r2,
        };
        (r3, seen1, ok2)
    }
}

pub open spec fn check_calculated(r: Rep, nodes: Seq<XmlNode>, m: Seq<(Seq<char>, Seq<char>)>) -> Rep {
    if nodes.len() == 0 {
        r
    } else {
        let (r1, _s, ok) = fold_nodes(nodes, nodes.len() as int, (r, Seq::empty(), true), |s, c| calc_step(s, c, m));
        if ok {
            r_ok(r1, nat_text(nodes.len()) + " calculatedField(s): dataPath and expression valid"@)
        } else {
            r1
        }
    }
}

fn calc_node(report: &mut SkdValidationReporter, seen: &mut Vec<Vec<char>>, ok: &mut bool, c: &XmlElement, m: &Vec<(Vec<char>, Vec<char>)>)
    requires
        rep_wf(*old(report)),
    ensures
        rep_wf(*final(report)),
        (rep_of(*final(report)), views(final(seen)@), *final(ok)) == calc_step(
            (rep_of(*old(report)), views(old(seen)@), *old(ok)),
            c@,
            pair_views(m@),
        ),
{
    let path = child_text_of(c, "dataPath", Some("http://v8.1c.ru/8.1/data-composition-system/schema"));
    if path.len() == 0 {
        note_err(report, &crate::text::chars_of("CalculatedField has empty dataPath"));
        *ok = false;
        return;
    }
    if has_text(&*seen, &path) {
        note_err(report, &tagged("Duplicate calculatedField dataPath: ", &path));
        *ok = false;
    } else {
        push_line(seen, crate::text::to_vec(&path));
    }
    if trim_chars(&child_text_of(c, "expression", Some("http://v8.1c.ru/8.1/data-composition-system/schema"))).len() == 0 {
        note_err(report, &msg3("CalculatedField '", &path, "' has empty expression"));
        *ok = false;
    }
    match lookup_last_exec(m, &path) {
        Some(d) => {
            let mut w = msg4("CalculatedField '", &path, "' shadows dataSet field in '", &d);
            push_str(&mut w, "'");
            note_warn(report, &w);
        },
        None => {},
    }
}

pub fn skd_validate_calculated_fields(report: &mut SkdValidationReporter, nodes: &Vec<&XmlElement>, m: &Vec<(Vec<char>, Vec<char>)>)
    requires
        rep_wf(*old(report)),
    ensures
        rep_wf(*final(report)),
        rep_of(*final(report)) == check_calculated(rep_of(*old(report)), node_views(nodes@), pair_views(m@)),
{
    let ghost ns = node_views(nodes@);
    let ghost r0 = rep_of(*report);
    if nodes.len() == 0 {
        return;
    }
    let mut seen: Vec<Vec<char>> = Vec::new();
    let mut ok = true;
    let mut i: usize = 0;
    while i < nodes.len()
        invariant
            i <= nodes@.len(),
            ns == node_views(nodes@),
            rep_wf(*report),
            (rep_of(*report), views(seen@), ok) == fold_nodes(ns, i as int, (r0, Seq::<Seq<char>>::empty(), true), |s, c| calc_step(s, c, pair_views(m@))),
        decreases nodes.len() - i,
    {
        assert(ns[i as int] == nodes[i as int]@);
        calc_node(report, &mut seen, &mut ok, nodes[i], m);
        i = i + 1;
    }
    if ok {
        note_ok(report, &tagged_count(nodes.len(), " calculatedField(s): dataPath and expression valid"));
    }
}

// ---------------------------------------------------------------- totals, parameters, templates

/// One total field: a data path and an expression.
pub open spec fn total_step(s: (Rep, bool), t: XmlNode) -> (Rep, bool) {
    let (r, ok) = s;
    let path = schema_text(t, "dataPath"@);
    if path.len() == 0 {
        (r_err(r, "TotalField has empty dataPath"@), false)
    } else if trim(schema_text(t, "expression"@)).len() == 0 {
        (r_err(r, "TotalField '"@ + path + "' has empty expression"@), false)
    } else {
        (r, ok)
    }
}

pub open spec fn check_totals(r: Rep, nodes: Seq<XmlNode>) -> Rep {
    if nodes.len() == 0 {
        r
    } else {
        let (r1, ok) = fold_nodes(nodes, nodes.len() as int, (r, true), |s, t| total_step(s, t));
        if ok {
            r_ok(r1, nat_text(nodes.len()) + " totalField(s): dataPath and expression present"@)
        } else {
            r1
        }
    }
}

pub fn skd_validate_total_fields(report: &mut SkdValidationReporter, nodes: &Vec<&XmlElement>)
    requires
        rep_wf(*old(report)),
    ensures
        rep_wf(*final(report)),
        rep_of(*final(report)) == check_totals(rep_of(*old(report)), node_views(nodes@)),
{
    let ghost ns = node_views(nodes@);
    let ghost r0 = rep_of(*report);
    if nodes.len() == 0 {
        return;
    }
    let mut ok = true;
    let mut i: usize = 0;
    while i < nodes.len()
        invariant
            i <= nodes@.len(),
            ns == node_views(nodes@),
            rep_wf(*report),
            (rep_of(*report), ok) == fold_nodes(ns, i as int, (r0, true), |s, t| total_step(s, t)),
        decreases nodes.len() - i,
    {
        let t = nodes[i];
        assert(ns[i as int] == t@);
        let path = child_text_of(t, "dataPath", Some("http://v8.1c.ru/8.1/data-composition-system/schema"));
        if path.len() == 0 {
            note_err(report, &crate::text::chars_of("TotalField has empty dataPath"));
            ok = false;
        } else if trim_chars(&child_text_of(t, "expression", Some("http://v8.1c.ru/8.1/data-composition-system/schema"))).len() == 0 {
            note_err(report, &msg3("TotalField '", &path, "' has empty expression"));
            ok = false;
        }
        i = i + 1;
    }
    if ok {
        note_ok(report, &tagged_count(nodes.len(), " totalField(s): dataPath and expression present"));
    }
}

/// One named node whose name must be there and new.
pub open spec fn unique_step(s: (Rep, Seq<Seq<char>>, bool), n: XmlNode, empty_msg: Seq<char>, dup: Seq<char>) -> (Rep, Seq<Seq<char>>, bool) {
    let (r, seen, ok) = s;
    let name = schema_text(n, "name"@);
    if name.len() == 0 {
        (r_err(r, empty_msg), seen, false)
    } else if seen.contains(name) {
        (r_err(r, dup + name), seen, false)
    } else {
        (r, seen.push(name), ok)
    }
}

/// The check that named nodes have distinct names.
pub open spec fn check_unique(r: Rep, nodes: Seq<XmlNode>, empty_msg: Seq<char>, dup: Seq<char>, done: Seq<char>) -> Rep {
    if nodes.len() == 0 {
        r
    } else {
        let (r1, _s, ok) = fold_nodes(nodes, nodes.len() as int, (r, Seq::empty(), true), |s, n| unique_step(s, n, empty_msg, dup));
        if ok {
            r_ok(r1, nat_text(nodes.len()) + done)
        } else {
            r1
        }
    }
}

fn unique_names(report: &mut SkdValidationReporter, nodes: &Vec<&XmlElement>, empty_msg: &str, dup: &str, done: &str)
    requires
        rep_wf(*old(report)),
    ensures
        rep_wf(*final(report)),
        rep_of(*final(report)) == check_unique(rep_of(*old(report)), node_views(nodes@), empty_msg@, dup@, done@),
{
    let ghost ns = node_views(nodes@);
    let ghost r0 = rep_of(*report);
    if nodes.len() == 0 {
        return;
    }
    let mut seen: Vec<Vec<char>> = Vec::new();
    let mut ok = true;
    let mut i: usize = 0;
    while i < nodes.len()
        invariant
            i <= nodes@.len(),
            ns == node_views(nodes@),
            rep_wf(*report),
            (rep_of(*report), views(seen@), ok) == fold_nodes(ns, i as int, (r0, Seq::<Seq<char>>::empty(), true), |s, n| unique_step(s, n, empty_msg@, dup@)),
        decreases nodes.len() - i,
    {
        let n = nodes[i];
        assert(ns[i as int] == n@);
        let name = child_text_of(n, "name", Some("http://v8.1c.ru/8.1/data-composition-system/schema"));
        if name.len() == 0 {
            note_err(report, &crate::text::chars_of(empty_msg));
            ok = false;
        } else if has_text(&seen, &name) {
            note_err(report, &tagged(dup, &name));
            ok = false;
        } else {
            push_line(&mut seen, crate::text::to_vec(&name));
        }
        i = i + 1;
    }
    if ok {
        note_ok(report, &tagged_count(nodes.len(), done));
    }
}

pub open spec fn check_parameters(r: Rep, nodes: Seq<XmlNode>) -> Rep {
    check_unique(r, nodes, "Parameter has empty name"@, "Duplicate parameter name: "@, " parameter(s): names unique"@)
}

pub fn skd_validate_parameters(report: &mut SkdValidationReporter, nodes: &Vec<&XmlElement>)
    requires
        rep_wf(*old(report)),
    ensures
        rep_wf(*final(report)),
        rep_of(*final(report)) == check_parameters(rep_of(*old(report)), node_views(nodes@)),
{
    unique_names(report, nodes, "Parameter has empty name", "Duplicate parameter name: ", " parameter(s): names unique");
}

pub open spec fn check_templates(r: Rep, nodes: Seq<XmlNode>) -> Rep {
    check_unique(r, nodes, "Template has empty name"@, "Duplicate template name: "@, " template(s): names unique"@)
}

pub fn skd_validate_templates(report: &mut SkdValidationReporter, nodes: &Vec<&XmlElement>)
    requires
        rep_wf(*old(report)),
    ensures
        rep_wf(*final(report)),
        rep_of(*final(report)) == check_templates(rep_of(*old(report)), node_views(nodes@)),
{
    unique_names(report, nodes, "Template has empty name", "Duplicate template name: ", " template(s): names unique");
}

pub open spec fn group_template_types() -> Seq<Seq<char>> {
    seq!["Header"@, "Footer"@, "Overall"@, "OverallHeader"@, "OverallFooter"@]
}

/// One group template: a known template and a usual type.
pub open spec fn group_step(s: (Rep, bool), g: XmlNode, names: Seq<Seq<char>>) -> (Rep, bool) {
    let (r, ok) = s;
    let tref = schema_text(g, "template"@);
    let ttype = schema_text(g, "templateType"@);
    let (r1, ok1) = if tref.len() > 0 && !names.contains(tref) {
        (r_err(r, "GroupTemplate references unknown template: "@ + tref), false)
    } else {
        (r, ok)
    };
    if ttype.len() > 0 && !is_one_of(ttype, group_template_types()) {
        (r_warn(r1, "GroupTemplate has unusual templateType: "@ + ttype), ok1)
    } else {
        (r1, ok1)
    }
}

pub open spec fn check_group_templates(r: Rep, nodes: Seq<XmlNode>, names: Seq<Seq<char>>) -> Rep {
    if nodes.len() == 0 {
        r
    } else {
        let (r1, ok) = fold_nodes(nodes, nodes.len() as int, (r, true), |s, g| group_step(s, g, names));
        if ok {
            r_ok(r1, nat_text(nodes.len()) + " groupTemplate(s): references valid"@)
        } else {
            r1
        }
    }
}

pub fn skd_validate_group_templates(report: &mut SkdValidationReporter, nodes: &Vec<&XmlElement>, names: &Vec<Vec<char>>)
    requires
        rep_wf(*old(report)),
    ensures
        rep_wf(*final(report)),
        rep_of(*final(report)) == check_group_templates(rep_of(*old(report)), node_views(nodes@), views(names@)),
{
    let ghost ns = node_views(nodes@);
    let ghost r0 = rep_of(*report);
    if nodes.len() == 0 {
        return;
    }
    let types: [&'static str; 5] = ["Header", "Footer", "Overall", "OverallHeader", "OverallFooter"];
    proof {
        assert(lit_views(types@) =~= group_template_types());
    }
    let mut ok = true;
    let mut i: usize = 0;
    while i < nodes.len()
        invariant
            i <= nodes@.len(),
            ns == node_views(nodes@),
            lit_views(types@) == group_template_types(),
            rep_wf(*report),
            (rep_of(*report), ok) == fold_nodes(ns, i as int, (r0, true), |s, g| group_step(s, g, views(names@))),
        decreases nodes.len() - i,
    {
        let g = nodes[i];
        assert(ns[i as int] == g@);
        let tref = child_text_of(g, "template", Some("http://v8.1c.ru/8.1/data-composition-system/schema"));
        let ttype = child_text_of(g, "templateType", Some("http://v8.1c.ru/8.1/data-composition-system/schema"));
        if tref.len() > 0 && !has_text(names, &tref) {
            note_err(report, &tagged("GroupTemplate references unknown template: ", &tref));
            ok = false;
        }
        if ttype.len() > 0 && !lit_one_of(&ttype, &types) {
            note_warn(report, &tagged("GroupTemplate has unusual templateType: ", &ttype));
        }
        i = i + 1;
    }
    if ok {
        note_ok(report, &tagged_count(nodes.len(), " groupTemplate(s): references valid"));
    }
}

// ---------------------------------------------------------------- settings variants

/// The text of the child `name` in the settings namespace, or the empty text.
pub open spec fn settings_text(n: XmlNode, name: Seq<char>) -> Seq<char> {
    child_text(n, name, ns_settings())
}

/// The `xsi:type` of a node, or the empty text.
pub open spec fn type_of(n: XmlNode) -> Seq<char> {
    match attribute_by_local_name(n, "type"@) {
        Some(v) => v,
        None => Seq::empty(),
    }
}

fn type_of_exec(n: &XmlElement) -> (r: Vec<char>)
    ensures
        r@ == type_of(n@),
{
    match attribute_local(n, "type") {
        Some(v) => v,
        None => Vec::new(),
    }
}

pub open spec fn comparison_types() -> Seq<Seq<char>> {
    seq![
        "Equal"@, "NotEqual"@, "Greater"@, "GreaterOrEqual"@, "Less"@, "LessOrEqual"@, "InList"@, "NotInList"@,
        "InHierarchy"@, "InListByHierarchy"@, "Contains"@, "NotContains"@, "BeginsWith"@, "NotBeginsWith"@,
        "Filled"@, "NotFilled"@,
    ]
}

/// A comparison with an unknown comparison type is an error.
pub open spec fn comparison_check(r: Rep, it: XmlNode, v: Seq<char>) -> Rep {
    let ct = settings_text(it, "comparisonType"@);
    if ct.len() > 0 && !is_one_of(ct, comparison_types()) {
        r_err(r, "Variant '"@ + v + "' filter: invalid comparisonType '"@ + ct + "'"@)
    } else {
        r
    }
}

pub open spec fn nested_filter_step(r: Rep, it: XmlNode, v: Seq<char>) -> Rep {
    if type_of(it) == "dcsset:FilterItemComparison"@ {
        comparison_check(r, it, v)
    } else {
        r
    }
}

/// One filter item, once the check has not stopped: a comparison, or a group
/// with a usual type whose comparisons are checked one level down.
pub open spec fn filter_item_step(r: Rep, it: XmlNode, v: Seq<char>) -> Rep {
    if r.stopped {
        r
    } else if type_of(it) == "dcsset:FilterItemComparison"@ {
        comparison_check(r, it, v)
    } else if type_of(it) == "dcsset:FilterItemGroup"@ {
        let gt = settings_text(it, "groupType"@);
        let r1 = if gt.len() > 0 && !(gt == "AndGroup"@ || gt == "OrGroup"@ || gt == "NotGroup"@) {
            r_warn(r, "Variant '"@ + v + "' filter group: unusual groupType '"@ + gt + "'"@)
        } else {
            r
        };
        let nested = children_named(it, "item"@, ns_settings());
        fold_nodes(nested, nested.len() as int, r1, |r, x| nested_filter_step(r, x, v))
    } else {
        r
    }
}

pub open spec fn filter_block(r: Rep, f: XmlNode, v: Seq<char>) -> Rep {
    let items = children_named(f, "item"@, ns_settings());
    fold_nodes(items, items.len() as int, r, |r, it| filter_item_step(r, it, v))
}

/// The check of the filter items under `parent`.
pub open spec fn check_filter_items(r: Rep, parent: XmlNode, v: Seq<char>) -> Rep {
    let filters = children_named(parent, "filter"@, ns_settings());
    fold_nodes(filters, filters.len() as int, r, |r, f| filter_block(r, f, v))
}

/// One order item: a field ordered `Asc` or `Desc`.
pub open spec fn order_item_step(r: Rep, it: XmlNode, v: Seq<char>) -> Rep {
    let ot = settings_text(it, "orderType"@);
    if type_of(it) == "dcsset:OrderItemField"@ && ot.len() > 0 && !(ot == "Asc"@ || ot == "Desc"@) {
        r_warn(r, "Variant '"@ + v + "' order: invalid orderType '"@ + ot + "'"@)
    } else {
        r
    }
}

pub open spec fn order_block(r: Rep, o: XmlNode, v: Seq<char>) -> Rep {
    let items = children_named(o, "item"@, ns_settings());
    fold_nodes(items, items.len() as int, r, |r, it| order_item_step(r, it, v))
}

pub open spec fn check_order_items(r: Rep, parent: XmlNode, v: Seq<char>) -> Rep {
    let orders = children_named(parent, "order"@, ns_settings());
    fold_nodes(orders, orders.len() as int, r, |r, o| order_block(r, o, v))
}

pub open spec fn structure_types() -> Seq<Seq<char>> {
    seq![
        "dcsset:StructureItemGroup"@, "dcsset:StructureItemTable"@, "dcsset:StructureItemChart"@,
        "dcsset:StructureItemNestedObject"@,
    ]
}

/// A structure item, once the check has not stopped: a type, usual or noted,
/// the nested items, and a table's columns and rows.
pub open spec fn check_structure_item(r: Rep, it: XmlNode, v: Seq<char>) -> Rep
    decreases it, it.children.len() + 1,
{
    if r.stopped {
        r
    } else if type_of(it).len() == 0 {
        r_err(r, "Variant '"@ + v + "': structure item missing xsi:type"@)
    } else {
        let xsi = type_of(it);
        let r1 = if !is_one_of(xsi, structure_types()) {
            r_warn(r, "Variant '"@ + v + "': unusual structure item type '"@ + xsi + "'"@)
        } else {
            r
        };
        let r2 = check_nested_structure(r1, it, v, 0);
        if xsi == "dcsset:StructureItemTable"@ {
            let r3 = if children_named(it, "column"@, ns_settings()).len() == 0 {
                r_warn(r2, "Variant '"@ + v + "': table has no columns"@)
            } else {
                r2
            };
            if children_named(it, "row"@, ns_settings()).len() == 0 {
                r_warn(r3, "Variant '"@ + v + "': table has no rows"@)
            } else {
                r3
            }
        } else {
            r2
        }
    }
}

/// The nested structure items among the children of `it` from the `i`-th on.
pub open spec fn check_nested_structure(r: Rep, it: XmlNode, v: Seq<char>, i: int) -> Rep
    decreases it, it.children.len() - i,
{
    if 0 <= i < it.children.len() {
        proof {
            assert(decreases_to!(it => it.children));
            assert(decreases_to!(it.children => it.children[i]));
        }
        let c = it.children[i];
        let r1 = if named(c, "item"@, ns_settings()) {
            check_structure_item(r, c, v)
        } else {
            r
        };
        check_nested_structure(r1, it, v, i + 1)
    } else {
        r
    }
}

/// The check of one variant's settings, unless the check has stopped.
pub open spec fn check_settings(r: Rep, st: XmlNode, v: Seq<char>) -> Rep {
    if r.stopped {
        r
    } else {
        let r1 = check_filter_items(r, st, v);
        let r2 = check_order_items(r1, st, v);
        check_nested_structure(r2, st, v, 0)
    }
}

/// One variant, the `k`-th: a name and settings.
pub open spec fn variant_step(s: (Rep, bool, nat), vn: XmlNode) -> (Rep, bool, nat) {
    let (r, ok, k) = s;
    let name = settings_text(vn, "name"@);
    let (r1, ok1) = if name.len() == 0 {
        (r_err(r, "SettingsVariant #"@ + nat_text(k + 1) + " has empty name"@), false)
    } else {
        (r, ok)
    };
    match child_named(vn, "settings"@, ns_settings()) {
        Some(st) => (check_settings(r1, st, name), ok1, k + 1),
        None => (r_err(r1, "SettingsVariant '"@ + name + "' has no settings element"@), false, k + 1),
    }
}

pub open spec fn check_variants(r: Rep, nodes: Seq<XmlNode>) -> Rep {
    if nodes.len() == 0 {
        r_warn(r, "No settingsVariant elements found"@)
    } else {
        let (r1, ok, _k) = fold_nodes(nodes, nodes.len() as int, (r, true, 0nat), |s, vn| variant_step(s, vn));
        if ok {
            r_ok(r1, nat_text(nodes.len()) + " settingsVariant(s) found"@)
        } else {
            r1
        }
    }
}

fn comparison_check_exec(report: &mut SkdValidationReporter, it: &XmlElement, v: &[char])
    requires
        rep_wf(*old(report)),
    ensures
        rep_wf(*final(report)),
        rep_of(*final(report)) == comparison_check(rep_of(*old(report)), it@, v@),
{
    let types: [&'static str; 16] = [
        "Equal", "NotEqual", "Greater", "GreaterOrEqual", "Less", "LessOrEqual", "InList", "NotInList",
        "InHierarchy", "InListByHierarchy", "Contains", "NotContains", "BeginsWith", "NotBeginsWith",
        "Filled", "NotFilled",
    ];
    proof {
        assert(lit_views(types@) =~= comparison_types());
    }
    let ct = child_text_of(it, "comparisonType", Some("http://v8.1c.ru/8.1/data-composition-system/settings"));
    if ct.len() > 0 && !lit_one_of(&ct, &types) {
        let mut m = msg4("Variant '", v, "' filter: invalid comparisonType '", &ct);
        push_str(&mut m, "'");
        note_err(report, &m);
    }
}

fn filter_item_exec(report: &mut SkdValidationReporter, it: &XmlElement, v: &[char])
    requires
        rep_wf(*old(report)),
    ensures
        rep_wf(*final(report)),
        rep_of(*final(report)) == filter_item_step(rep_of(*old(report)), it@, v@),
{
    if report.stopped {
        return;
    }
    let xsi = type_of_exec(it);
    if eq_str(&xsi, "dcsset:FilterItemComparison") {
        comparison_check_exec(report, it, v);
    } else if eq_str(&xsi, "dcsset:FilterItemGroup") {
        let gt = child_text_of(it, "groupType", Some("http://v8.1c.ru/8.1/data-composition-system/settings"));
        if gt.len() > 0 && !(eq_str(&gt, "AndGroup") || eq_str(&gt, "OrGroup") || eq_str(&gt, "NotGroup")) {
            let mut m = msg4("Variant '", v, "' filter group: unusual groupType '", &gt);
            push_str(&mut m, "'");
            note_warn(report, &m);
        }
        let ghost r1 = rep_of(*report);
        let ghost fs = children_named(it@, "item"@, ns_settings());
        let nested = children_with(it, "item", Some("http://v8.1c.ru/8.1/data-composition-system/settings"));
        let mut i: usize = 0;
        while i < nested.len()
            invariant
                i <= nested@.len(),
                nested@.len() == fs.len(),
                forall|k: int| 0 <= k < nested@.len() ==> (#[trigger] nested@[k])@ == fs[k],
                rep_wf(*report),
                rep_of(*report) == fold_nodes(fs, i as int, r1, |r, x| nested_filter_step(r, x, v@)),
            decreases nested.len() - i,
        {
            assert(nested@[i as int]@ == fs[i as int]);
            if eq_str(&type_of_exec(nested[i]), "dcsset:FilterItemComparison") {
                comparison_check_exec(report, nested[i], v);
            }
            i = i + 1;
        }
    }
}

fn filter_block_exec(report: &mut SkdValidationReporter, f: &XmlElement, v: &[char])
    requires
        rep_wf(*old(report)),
    ensures
        rep_wf(*final(report)),
        rep_of(*final(report)) == filter_block(rep_of(*old(report)), f@, v@),
{
    let ghost r0 = rep_of(*report);
    let ghost fs = children_named(f@, "item"@, ns_settings());
    let items = children_with(f, "item", Some("http://v8.1c.ru/8.1/data-composition-system/settings"));
    let mut i: usize = 0;
    while i < items.len()
        invariant
            i <= items@.len(),
            items@.len() == fs.len(),
            forall|k: int| 0 <= k < items@.len() ==> (#[trigger] items@[k])@ == fs[k],
            rep_wf(*report),
            rep_of(*report) == fold_nodes(fs, i as int, r0, |r, it| filter_item_step(r, it, v@)),
        decreases items.len() - i,
    {
        assert(items@[i as int]@ == fs[i as int]);
        filter_item_exec(report, items[i], v);
        i = i + 1;
    }
}

fn filter_items_exec(report: &mut SkdValidationReporter, parent: &XmlElement, v: &[char])
    requires
        rep_wf(*old(report)),
    ensures
        rep_wf(*final(report)),
        rep_of(*final(report)) == check_filter_items(rep_of(*old(report)), parent@, v@),
{
    let ghost r0 = rep_of(*report);
    let ghost fs = children_named(parent@, "filter"@, ns_settings());
    let filters = children_with(parent, "filter", Some("http://v8.1c.ru/8.1/data-composition-system/settings"));
    let mut i: usize = 0;
    while i < filters.len()
        invariant
            i <= filters@.len(),
            filters@.len() == fs.len(),
            forall|k: int| 0 <= k < filters@.len() ==> (#[trigger] filters@[k])@ == fs[k],
            rep_wf(*report),
            rep_of(*report) == fold_nodes(fs, i as int, r0, |r, f| filter_block(r, f, v@)),
        decreases filters.len() - i,
    {
        assert(filters@[i as int]@ == fs[i as int]);
        filter_block_exec(report, filters[i], v);
        i = i + 1;
    }
}

fn order_block_exec(report: &mut SkdValidationReporter, o: &XmlElement, v: &[char])
    requires
        rep_wf(*old(report)),
    ensures
        rep_wf(*final(report)),
        rep_of(*final(report)) == order_block(rep_of(*old(report)), o@, v@),
{
    let ghost r0 = rep_of(*report);
    let ghost fs = children_named(o@, "item"@, ns_settings());
    let items = children_with(o, "item", Some("http://v8.1c.ru/8.1/data-composition-system/settings"));
    let mut i: usize = 0;
    while i < items.len()
        invariant
            i <= items@.len(),
            items@.len() == fs.len(),
            forall|k: int| 0 <= k < items@.len() ==> (#[trigger] items@[k])@ == fs[k],
            rep_wf(*report),
            rep_of(*report) == fold_nodes(fs, i as int, r0, |r, it| order_item_step(r, it, v@)),
        decreases items.len() - i,
    {
        let it = items[i];
        assert(it@ == fs[i as int]);
        let ot = child_text_of(it, "orderType", Some("http://v8.1c.ru/8.1/data-composition-system/settings"));
        if eq_str(&type_of_exec(it), "dcsset:OrderItemField") && ot.len() > 0 && !(eq_str(&ot, "Asc") || eq_str(&ot, "Desc")) {
            let mut m = msg4("Variant '", v, "' order: invalid orderType '", &ot);
            push_str(&mut m, "'");
            note_warn(report, &m);
        }
        i = i + 1;
    }
}

fn order_items_exec(report: &mut SkdValidationReporter, parent: &XmlElement, v: &[char])
    requires
        rep_wf(*old(report)),
    ensures
        rep_wf(*final(report)),
        rep_of(*final(report)) == check_order_items(rep_of(*old(report)), parent@, v@),
{
    let ghost r0 = rep_of(*report);
    let ghost fs = children_named(parent@, "order"@, ns_settings());
    let orders = children_with(parent, "order", Some("http://v8.1c.ru/8.1/data-composition-system/settings"));
    let mut i: usize = 0;
    while i < orders.len()
        invariant
            i <= orders@.len(),
            orders@.len() == fs.len(),
            forall|k: int| 0 <= k < orders@.len() ==> (#[trigger] orders@[k])@ == fs[k],
            rep_wf(*report),
            rep_of(*report) == fold_nodes(fs, i as int, r0, |r, o| order_block(r, o, v@)),
        decreases orders.len() - i,
    {
        assert(orders@[i as int]@ == fs[i as int]);
        order_block_exec(report, orders[i], v);
        i = i + 1;
    }
}

fn nested_structure_exec(report: &mut SkdValidationReporter, it: &XmlElement, v: &[char])
    requires
        rep_wf(*old(report)),
    ensures
        rep_wf(*final(report)),
        rep_of(*final(report)) == check_nested_structure(rep_of(*old(report)), it@, v@, 0),
    decreases it@, it@.children.len() + 1, 0int,
{
    proof {
        lemma_children_view(*it);
    }
    let ghost r0 = rep_of(*report);
    let mut j: usize = 0;
    while j < it.children.len()
        invariant
            j <= it.children@.len(),
            it@.children == crate::xml::element_views(it.children@),
            it@.children.len() == it.children@.len(),
            rep_wf(*report),
            check_nested_structure(rep_of(*report), it@, v@, j as int) == check_nested_structure(r0, it@, v@, 0),
        decreases it.children.len() - j,
    {
        let c = &it.children[j];
        assert(c@ == it@.children[j as int]);
        if crate::xml::is_named(c, "item", Some("http://v8.1c.ru/8.1/data-composition-system/settings")) {
            proof {
                assert(decreases_to!(it@ => it@.children));
                assert(decreases_to!(it@.children => it@.children[j as int]));
            }
            skd_check_structure_item(report, c, v);
        }
        j = j + 1;
    }
}

pub fn skd_check_structure_item(report: &mut SkdValidationReporter, it: &XmlElement, v: &[char])
    requires
        rep_wf(*old(report)),
    ensures
        rep_wf(*final(report)),
        rep_of(*final(report)) == check_structure_item(rep_of(*old(report)), it@, v@),
    decreases it@, it@.children.len() + 1, 1int,
{
    if report.stopped {
        return;
    }
    let xsi = type_of_exec(it);
    if xsi.len() == 0 {
        note_err(report, &msg3("Variant '", v, "': structure item missing xsi:type"));
        return;
    }
    let types: [&'static str; 4] = [
        "dcsset:StructureItemGroup", "dcsset:StructureItemTable", "dcsset:StructureItemChart",
        "dcsset:StructureItemNestedObject",
    ];
    proof {
        assert(lit_views(types@) =~= structure_types());
    }
    if !lit_one_of(&xsi, &types) {
        let mut m = msg4("Variant '", v, "': unusual structure item type '", &xsi);
        push_str(&mut m, "'");
        note_warn(report, &m);
    }
    nested_structure_exec(report, it, v);
    if eq_str(&xsi, "dcsset:StructureItemTable") {
        if children_with(it, "column", Some("http://v8.1c.ru/8.1/data-composition-system/settings")).len() == 0 {
            note_warn(report, &msg3("Variant '", v, "': table has no columns"));
        }
        if children_with(it, "row", Some("http://v8.1c.ru/8.1/data-composition-system/settings")).len() == 0 {
            note_warn(report, &msg3("Variant '", v, "': table has no rows"));
        }
    }
}

pub fn skd_check_settings(report: &mut SkdValidationReporter, st: &XmlElement, v: &[char])
    requires
        rep_wf(*old(report)),
    ensures
        rep_wf(*final(report)),
        rep_of(*final(report)) == check_settings(rep_of(*old(report)), st@, v@),
{
    if report.stopped {
        return;
    }
    filter_items_exec(report, st, v);
    order_items_exec(report, st, v);
    nested_structure_exec(report, st, v);
}

pub fn skd_validate_settings_variants(report: &mut SkdValidationReporter, nodes: &Vec<&XmlElement>)
    requires
        rep_wf(*old(report)),
    ensures
        rep_wf(*final(report)),
        rep_of(*final(report)) == check_variants(rep_of(*old(report)), node_views(nodes@)),
{
    let ghost ns = node_views(nodes@);
    let ghost r0 = rep_of(*report);
    if nodes.len() == 0 {
        note_warn(report, &crate::text::chars_of("No settingsVariant elements found"));
        return;
    }
    let mut ok = true;
    let mut i: usize = 0;
    while i < nodes.len()
        invariant
            i <= nodes@.len(),
            ns == node_views(nodes@),
            rep_wf(*report),
            (rep_of(*report), ok, i as nat) == fold_nodes(ns, i as int, (r0, true, 0nat), |s, vn| variant_step(s, vn)),
        decreases nodes.len() - i,
    {
        let vn = nodes[i];
        assert(ns[i as int] == vn@);
        let name = child_text_of(vn, "name", Some("http://v8.1c.ru/8.1/data-composition-system/settings"));
        if name.len() == 0 {
            let mut m = crate::text::chars_of("SettingsVariant #");
            push_chars(&mut m, &usize_text(i + 1));
            push_str(&mut m, " has empty name");
            note_err(report, &m);
            ok = false;
        }
        match child(vn, "settings", Some("http://v8.1c.ru/8.1/data-composition-system/settings")) {
            Some(st) => skd_check_settings(report, st, &name),
            None => {
                note_err(report, &msg3("SettingsVariant '", &name, "' has no settings element"));
                ok = false;
            },
        }
        i = i + 1;
    }
    if ok {
        note_ok(report, &tagged_count(nodes.len(), " settingsVariant(s) found"));
    }
}

// ---------------------------------------------------------------- walks over all elements

/// A step over `n` and every element under it, in document order.
pub open spec fn tree_fold<S>(n: XmlNode, s: S, step: spec_fn(S, XmlNode) -> S) -> S
    decreases n, n.children.len() + 1,
{
    tree_fold_from(n, step(s, n), step, 0)
}

pub open spec fn tree_fold_from<S>(n: XmlNode, s: S, step: spec_fn(S, XmlNode) -> S, i: int) -> S
    decreases n, n.children.len() - i,
{
    if 0 <= i < n.children.len() {
        proof {
            assert(decreases_to!(n => n.children));
            assert(decreases_to!(n.children => n.children[i]));
        }
        tree_fold_from(n, tree_fold(n.children[i], s, step), step, i + 1)
    } else {
        s
    }
}

/// One more, short of the largest machine word.
pub open spec fn sat_inc(c: nat) -> nat {
    if c < usize::MAX {
        c + 1
    } else {
        c
    }
}

fn sat_inc_exec(c: usize) -> (r: usize)
    ensures
        r == sat_inc(c as nat),
{
    if c < usize::MAX {
        c + 1
    } else {
        c
    }
}

// ---------------------------------------------------------------- values

pub open spec fn ns_core() -> Option<Seq<char>> {
    Some("http://v8.1c.ru/8.1/data-composition-system/core"@)
}

/// A `value` element of the schema or core namespace with a type.
pub open spec fn typed_value(n: XmlNode) -> bool {
    (named(n, "value"@, ns_schema()) || named(n, "value"@, ns_core())) && attribute_by_local_name(n, "type"@) is Some
}

/// One element: a typed value, counted; a design-time value must be a
/// reference path. An error that stops the check ends the walk.
pub open spec fn value_step(s: (Rep, nat, bool, bool), n: XmlNode) -> (Rep, nat, bool, bool) {
    let (r, checked, ok, halted) = s;
    if halted || !typed_value(n) {
        s
    } else {
        let text = text_or_empty(n);
        let stripped = trim(text);
        if type_of(n) == "dcscor:DesignTimeValue"@ {
            if stripped.len() == 0 || stripped == "_"@ {
                let r1 = r_err(
                    r,
                    "<value xsi:type=\"dcscor:DesignTimeValue\">"@ + text
                        + "</value> \u{2014} DesignTimeValue must be a reference path (e.g. \u{41f}\u{435}\u{440}\u{435}\u{447}\u{438}\u{441}\u{43b}\u{435}\u{43d}\u{438}\u{435}.X.Y), not '"@
                        + text + "'"@,
                );
                (r1, sat_inc(checked), false, r1.stopped)
            } else if !crate::skd_report::design_time_value_ref_shape(stripped) {
                (
                    r_warn(r, "<value xsi:type=\"dcscor:DesignTimeValue\">"@ + text + "</value> \u{2014} doesn't look like a typical ref path"@),
                    sat_inc(checked),
                    ok,
                    false,
                )
            } else {
                (r, sat_inc(checked), ok, false)
            }
        } else {
            (r, sat_inc(checked), ok, false)
        }
    }
}

/// The check of the typed values under the root.
pub open spec fn check_value_contents(r: Rep, root: XmlNode) -> Rep {
    let (r1, checked, ok, halted) = tree_fold(root, (r, 0nat, true, false), |s, n| value_step(s, n));
    if !halted && checked > 0 && ok {
        r_ok(r1, nat_text(checked) + " <value> element(s) with xsi:type: content OK"@)
    } else {
        r1
    }
}

fn value_node(report: &mut SkdValidationReporter, checked: &mut usize, ok: &mut bool, halted: &mut bool, n: &XmlElement)
    requires
        rep_wf(*old(report)),
    ensures
        rep_wf(*final(report)),
        (rep_of(*final(report)), *final(checked) as nat, *final(ok), *final(halted)) == value_step(
            (rep_of(*old(report)), *old(checked) as nat, *old(ok), *old(halted)),
            n@,
        ),
{
    if *halted {
        return;
    }
    let typed = (crate::xml::is_named(n, "value", Some("http://v8.1c.ru/8.1/data-composition-system/schema"))
        || crate::xml::is_named(n, "value", Some("http://v8.1c.ru/8.1/data-composition-system/core")))
        && attribute_local(n, "type").is_some();
    if !typed {
        return;
    }
    let text = text_of(n);
    let stripped = trim_chars(&text);
    *checked = sat_inc_exec(*checked);
    if eq_str(&type_of_exec(n), "dcscor:DesignTimeValue") {
        if stripped.len() == 0 || eq_str(&stripped, "_") {
            let mut m = tagged("<value xsi:type=\"dcscor:DesignTimeValue\">", &text);
            push_str(&mut m, "</value> \u{2014} DesignTimeValue must be a reference path (e.g. \u{41f}\u{435}\u{440}\u{435}\u{447}\u{438}\u{441}\u{43b}\u{435}\u{43d}\u{438}\u{435}.X.Y), not '");
            push_chars(&mut m, &text);
            push_str(&mut m, "'");
            note_err(report, &m);
            *ok = false;
            *halted = report.stopped;
        } else if !crate::skd_report::skd_validate_design_time_value_ref_shape(&stripped) {
            let mut m = tagged("<value xsi:type=\"dcscor:DesignTimeValue\">", &text);
            push_str(&mut m, "</value> \u{2014} doesn't look like a typical ref path");
            note_warn(report, &m);
        }
    }
}

fn value_walk(report: &mut SkdValidationReporter, checked: &mut usize, ok: &mut bool, halted: &mut bool, n: &XmlElement)
    requires
        rep_wf(*old(report)),
    ensures
        rep_wf(*final(report)),
        (rep_of(*final(report)), *final(checked) as nat, *final(ok), *final(halted)) == tree_fold(
            n@,
            (rep_of(*old(report)), *old(checked) as nat, *old(ok), *old(halted)),
            |s, x| value_step(s, x),
        ),
    decreases n@, n@.children.len() + 1,
{
    value_node(report, checked, ok, halted, n);
    proof {
        lemma_children_view(*n);
    }
    let ghost s1 = (rep_of(*report), *checked as nat, *ok, *halted);
    let mut i: usize = 0;
    while i < n.children.len()
        invariant
            i <= n.children@.len(),
            n@.children == crate::xml::element_views(n.children@),
            n@.children.len() == n.children@.len(),
            rep_wf(*report),
            tree_fold_from(n@, (rep_of(*report), *checked as nat, *ok, *halted), |s, x| value_step(s, x), i as int)
                == tree_fold_from(n@, s1, |s, x| value_step(s, x), 0),
        decreases n.children.len() - i,
    {
        let c = &n.children[i];
        assert(c@ == n@.children[i as int]);
        proof {
            assert(decreases_to!(n@ => n@.children));
            assert(decreases_to!(n@.children => n@.children[i as int]));
        }
        value_walk(report, checked, ok, halted, c);
        i = i + 1;
    }
}

pub fn skd_validate_value_contents(report: &mut SkdValidationReporter, root: &XmlElement)
    requires
        rep_wf(*old(report)),
    ensures
        rep_wf(*final(report)),
        rep_of(*final(report)) == check_value_contents(rep_of(*old(report)), root@),
{
    let mut checked: usize = 0;
    let mut ok = true;
    let mut halted = false;
    value_walk(report, &mut checked, &mut ok, &mut halted, root);
    if !halted && checked > 0 && ok {
        note_ok(report, &tagged_count(checked, " <value> element(s) with xsi:type: content OK"));
    }
}

// ---------------------------------------------------------------- value types

pub open spec fn ns_v8() -> Seq<char> {
    "http://v8.1c.ru/8.1/data/core"@
}

/// The URI bound to `prefix` among the namespaces in scope, from the `i`-th on.
pub open spec fn lookup_prefix_from(ns: Seq<(Option<Seq<char>>, Seq<char>)>, prefix: Seq<char>, i: int) -> Option<Seq<char>>
    decreases ns.len() - i,
{
    if i < 0 || i >= ns.len() {
        None
    } else if ns[i].0 == Some(prefix) {
        Some(ns[i].1)
    } else {
        lookup_prefix_from(ns, prefix, i + 1)
    }
}

fn lookup_prefix(e: &XmlElement, prefix: &[char]) -> (r: Option<Vec<char>>)
    ensures
        crate::xml::opt_view(r) == lookup_prefix_from(e@.namespaces, prefix@, 0),
{
    let ghost ns = e@.namespaces;
    assert(ns == crate::xml::scope_views(e.namespaces@));
    let mut i: usize = 0;
    while i < e.namespaces.len()
        invariant
            i <= e.namespaces@.len(),
            ns == crate::xml::scope_views(e.namespaces@),
            lookup_prefix_from(ns, prefix@, i as int) == lookup_prefix_from(ns, prefix@, 0),
        decreases e.namespaces.len() - i,
    {
        assert(ns[i as int] == (crate::xml::opt_view(e.namespaces@[i as int].0), e.namespaces@[i as int].1@));
        match &e.namespaces[i].0 {
            Some(p) => {
                if crate::text::eq_chars(p, prefix) {
                    return Some(crate::text::to_vec(&e.namespaces[i].1));
                }
            },
            None => {},
        }
        i = i + 1;
    }
    None
}

pub open spec fn valid_value_types() -> Seq<Seq<char>> {
    seq![
        "xs:decimal"@, "xs:string"@, "xs:dateTime"@, "xs:boolean"@, "v8:StandardPeriod"@, "v8:UUID"@, "v8:Null"@,
        "v8:Type"@, "v8:ValueStorage"@,
    ]
}

/// The state of the check inside one value type: the report, the types and
/// qualifiers met, whether all was well, and whether the check has ended.
pub open spec fn type_child(s: (Rep, Seq<Seq<char>>, Seq<Seq<char>>, bool, bool), c: XmlNode) -> (Rep, Seq<Seq<char>>, Seq<Seq<char>>, bool, bool) {
    let (r, types, quals, ok, halted) = s;
    let tt = trim(text_or_empty(c));
    if tt.len() == 0 {
        let r1 = r_err(r, "valueType: <v8:Type> is empty"@);
        (r1, types, quals, false, r1.stopped)
    } else {
        match crate::text::split_once(tt, ":"@) {
            None => {
                let r1 = r_err(
                    r,
                    "valueType: type '"@ + tt + "' has no namespace prefix (expected xs:/v8:/d5p1: \u{2014} e.g. xs:decimal not decimal)"@,
                );
                (r1, types, quals, false, r1.stopped)
            },
            Some((prefix, local)) => {
                let (r1, types1, ok1) = if prefix == "xs"@ || prefix == "v8"@ {
                    if !is_one_of(tt, valid_value_types()) {
                        (
                            r_err(
                                r,
                                "valueType: unknown type '"@ + tt
                                    + "' (allowed: xs:decimal/xs:string/xs:dateTime/xs:boolean/v8:StandardPeriod or <prefix>:*Ref.X)"@,
                            ),
                            types,
                            false,
                        )
                    } else {
                        (r, types.push(tt), ok)
                    }
                } else {
                    let bound = lookup_prefix_from(c.namespaces, prefix, 0);
                    if bound == Some("http://v8.1c.ru/8.1/data/enterprise/current-config"@) {
                        if !crate::skd_report::config_ref_type_shape(local) {
                            (r_err(r, "valueType: ref type '"@ + tt + "' must look like '<prefix>:<Kind>.<Name>' (e.g. d5p1:CatalogRef.X)"@), types, false)
                        } else {
                            (r, types.push(Seq::empty()), ok)
                        }
                    } else if bound == Some("http://v8.1c.ru/8.1/data/enterprise"@) {
                        if !crate::skd_report::system_type_shape(local) {
                            (r_err(r, "valueType: system type '"@ + tt + "' has unexpected local-name shape"@), types, false)
                        } else {
                            (r, types.push(Seq::empty()), ok)
                        }
                    } else {
                        let shown = match bound {
                            Some(u) => u,
                            None => "None"@,
                        };
                        (
                            r_err(r, "valueType: type '"@ + tt + "' uses prefix '"@ + prefix + "' bound to unexpected namespace '"@ + shown + "'"@),
                            types,
                            false,
                        )
                    }
                };
                (r1, types1, quals, ok1, r1.stopped)
            },
        }
    }
}

/// The trimmed text of the child `name` in the core namespace, where there is one.
pub open spec fn v8_text(c: XmlNode, name: Seq<char>) -> Option<Seq<char>> {
    match child_named(c, name, Some(ns_v8())) {
        Some(x) => Some(trim(text_or_empty(x))),
        None => None,
    }
}

/// A non-empty run of ASCII digits.
pub open spec fn nonneg_int(o: Option<Seq<char>>) -> bool {
    match o {
        Some(v) => v.len() > 0 && forall|i: int| 0 <= i < v.len() ==> crate::text::is_digit(#[trigger] v[i]),
        None => false,
    }
}

/// A present, non-empty value outside `allowed`.
pub open spec fn bad_choice(o: Option<Seq<char>>, allowed: Seq<Seq<char>>) -> bool {
    match o {
        Some(v) => v.len() > 0 && !is_one_of(v, allowed),
        None => false,
    }
}

pub open spec fn choice_text(o: Option<Seq<char>>) -> Seq<char> {
    match o {
        Some(v) => v,
        None => Seq::empty(),
    }
}

pub open spec fn qual_checks(r: Rep, ok: bool, c: XmlNode) -> (Rep, bool) {
    if c.name == "NumberQualifiers"@ {
        let (r1, ok1) = if !nonneg_int(v8_text(c, "Digits"@)) {
            (r_err(r, "v8:NumberQualifiers: <v8:Digits> missing or not a non-negative integer"@), false)
        } else {
            (r, ok)
        };
        let (r2, ok2) = if !nonneg_int(v8_text(c, "FractionDigits"@)) {
            (r_err(r1, "v8:NumberQualifiers: <v8:FractionDigits> missing or not a non-negative integer"@), false)
        } else {
            (r1, ok1)
        };
        let sign = v8_text(c, "AllowedSign"@);
        if bad_choice(sign, seq!["Any"@, "Nonnegative"@, "Negative"@]) {
            (
                r_err(
                    r2,
                    "v8:NumberQualifiers: <v8:AllowedSign>"@ + choice_text(sign)
                        + "</v8:AllowedSign> \u{2014} must be one of: Any, Nonnegative, Negative"@,
                ),
                false,
            )
        } else {
            (r2, ok2)
        }
    } else if c.name == "StringQualifiers"@ {
        let (r1, ok1) = if !nonneg_int(v8_text(c, "Length"@)) {
            (r_err(r, "v8:StringQualifiers: <v8:Length> missing or not a non-negative integer"@), false)
        } else {
            (r, ok)
        };
        let al = v8_text(c, "AllowedLength"@);
        if bad_choice(al, seq!["Variable"@, "Fixed"@]) {
            (
                r_err(r1, "v8:StringQualifiers: <v8:AllowedLength>"@ + choice_text(al) + "</v8:AllowedLength> \u{2014} must be one of: Variable, Fixed"@),
                false,
            )
        } else {
            (r1, ok1)
        }
    } else if c.name == "DateQualifiers"@ {
        let df = v8_text(c, "DateFractions"@);
        if bad_choice(df, seq!["Date"@, "DateTime"@, "Time"@]) {
            (
                r_err(r, "v8:DateQualifiers: <v8:DateFractions>"@ + choice_text(df) + "</v8:DateFractions> \u{2014} must be one of: Date, DateTime, Time"@),
                false,
            )
        } else {
            (r, ok)
        }
    } else {
        (r, ok)
    }
}

/// One child of a value type in the core namespace: a type or qualifiers.
pub open spec fn vt_child_step(s: (Rep, Seq<Seq<char>>, Seq<Seq<char>>, bool, bool), c: XmlNode) -> (Rep, Seq<Seq<char>>, Seq<Seq<char>>, bool, bool) {
    let (r, types, quals, ok, halted) = s;
    if halted || c.namespace != ns_v8() {
        s
    } else if c.name == "Type"@ {
        type_child(s, c)
    } else if crate::text::ends_with(c.name, "Qualifiers"@) {
        let (r1, ok1) = qual_checks(r, ok, c);
        (r1, types, quals.push("v8:"@ + c.name), ok1, r1.stopped)
    } else {
        s
    }
}

/// The type that qualifiers need.
pub open spec fn producer(q: Seq<char>) -> Option<Seq<char>> {
    if q == "v8:NumberQualifiers"@ {
        Some("xs:decimal"@)
    } else if q == "v8:StringQualifiers"@ {
        Some("xs:string"@)
    } else if q == "v8:DateQualifiers"@ {
        Some("xs:dateTime"@)
    } else {
        None
    }
}

/// The qualifiers up to the `i`-th, each needing its type.
pub open spec fn producers_fold(quals: Seq<Seq<char>>, i: int, s: (Rep, bool, bool), types: Seq<Seq<char>>) -> (Rep, bool, bool)
    decreases i,
{
    if i <= 0 {
        s
    } else {
        let (r, ok, halted) = producers_fold(quals, i - 1, s, types);
        let q = quals[i - 1];
        if halted {
            (r, ok, halted)
        } else {
            match producer(q) {
                Some(p) => if !types.contains(p) {
                    let r1 = r_err(r, "valueType: <"@ + q + "> has no matching <v8:Type>"@ + p + "</v8:Type> in this valueType"@);
                    (r1, false, r1.stopped)
                } else {
                    (r, ok, halted)
                },
                None => (r, ok, halted),
            }
        }
    }
}

/// One value type block, unless the check has ended.
pub open spec fn value_type_block(s: (Rep, bool, bool), vt: XmlNode) -> (Rep, bool, bool) {
    let (r, ok, halted) = s;
    if halted {
        s
    } else {
        let (r1, types, quals, ok1, h1) = fold_nodes(
            vt.children,
            vt.children.len() as int,
            (r, Seq::empty(), Seq::empty(), ok, false),
            |t, c| vt_child_step(t, c),
        );
        if h1 {
            (r1, ok1, true)
        } else {
            producers_fold(quals, quals.len() as int, (r1, ok1, false), types)
        }
    }
}

pub open spec fn vt_walk_step(s: (Rep, bool, bool, nat), n: XmlNode) -> (Rep, bool, bool, nat) {
    if named(n, "valueType"@, ns_schema()) {
        let (r, ok, h) = value_type_block((s.0, s.1, s.2), n);
        (r, ok, h, sat_inc(s.3))
    } else {
        s
    }
}

/// The check of the value types under the root.
pub open spec fn check_value_types(r: Rep, root: XmlNode) -> Rep {
    let (r1, ok, halted, count) = tree_fold(root, (r, true, false, 0nat), |s, n| vt_walk_step(s, n));
    if count > 0 && !halted && ok {
        r_ok(r1, nat_text(count) + " valueType block(s): structure and qualifiers OK"@)
    } else {
        r1
    }
}

fn v8_text_exec(c: &XmlElement, name: &str) -> (r: Option<Vec<char>>)
    ensures
        crate::xml::opt_view(r) == v8_text(c@, name@),
{
    match child(c, name, Some("http://v8.1c.ru/8.1/data/core")) {
        Some(x) => Some(trim_chars(&text_of(x))),
        None => None,
    }
}

fn nonneg_int_exec(o: &Option<Vec<char>>) -> (b: bool)
    ensures
        b == nonneg_int(crate::xml::opt_view(*o)),
{
    match o {
        Some(v) => {
            assert(crate::xml::opt_view(*o) == Some(v@));
            if v.len() == 0 {
                return false;
            }
            let mut i: usize = 0;
            while i < v.len()
                invariant
                    i <= v@.len(),
                    crate::xml::opt_view(*o) == Some(v@),
                    forall|k: int| 0 <= k < i ==> crate::text::is_digit(#[trigger] v@[k]),
                decreases v.len() - i,
            {
                let ch = v[i];
                if !('0' <= ch && ch <= '9') {
                    assert(!crate::text::is_digit(v@[i as int]));
                    assert(!(forall|k: int| 0 <= k < v@.len() ==> crate::text::is_digit(#[trigger] v@[k])));
                    return false;
                }
                i = i + 1;
            }
            true
        },
        None => false,
    }
}

fn bad_choice_exec(o: &Option<Vec<char>>, allowed: &[&'static str]) -> (b: bool)
    ensures
        b == bad_choice(crate::xml::opt_view(*o), lit_views(allowed@)),
{
    match o {
        Some(v) => v.len() > 0 && !lit_one_of(v, allowed),
        None => false,
    }
}

fn choice_text_exec(o: &Option<Vec<char>>) -> (r: Vec<char>)
    ensures
        r@ == choice_text(crate::xml::opt_view(*o)),
{
    match o {
        Some(v) => crate::text::to_vec(v),
        None => Vec::new(),
    }
}

#[verifier::rlimit(40)]
fn type_child_exec(report: &mut SkdValidationReporter, types: &mut Vec<Vec<char>>, ok: &mut bool, halted: &mut bool, c: &XmlElement, quals: &Vec<Vec<char>>)
    requires
        rep_wf(*old(report)),
    ensures
        rep_wf(*final(report)),
        (rep_of(*final(report)), views(final(types)@), views(quals@), *final(ok), *final(halted)) == type_child(
            (rep_of(*old(report)), views(old(types)@), views(quals@), *old(ok), *old(halted)),
            c@,
        ),
{
    let tt = trim_chars(&text_of(c));
    if tt.len() == 0 {
        note_err(report, &crate::text::chars_of("valueType: <v8:Type> is empty"));
        *ok = false;
        *halted = report.stopped;
        return;
    }
    match crate::text::split_once_str(&tt, ":") {
        None => {
            note_err(report, &msg3("valueType: type '", &tt, "' has no namespace prefix (expected xs:/v8:/d5p1: \u{2014} e.g. xs:decimal not decimal)"));
            *ok = false;
            *halted = report.stopped;
        },
        Some((prefix, local)) => {
            if eq_str(&prefix, "xs") || eq_str(&prefix, "v8") {
                let valid: [&'static str; 9] = [
                    "xs:decimal", "xs:string", "xs:dateTime", "xs:boolean", "v8:StandardPeriod", "v8:UUID", "v8:Null",
                    "v8:Type", "v8:ValueStorage",
                ];
                proof {
                    assert(lit_views(valid@) =~= valid_value_types());
                }
                if !lit_one_of(&tt, &valid) {
                    note_err(report, &msg3("valueType: unknown type '", &tt, "' (allowed: xs:decimal/xs:string/xs:dateTime/xs:boolean/v8:StandardPeriod or <prefix>:*Ref.X)"));
                    *ok = false;
                } else {
                    push_line(types, crate::text::to_vec(&tt));
                }
            } else {
                let bound = lookup_prefix(c, &prefix);
                let is_config = match &bound {
                    Some(u) => eq_str(u, "http://v8.1c.ru/8.1/data/enterprise/current-config"),
                    None => false,
                };
                let is_enterprise = match &bound {
                    Some(u) => eq_str(u, "http://v8.1c.ru/8.1/data/enterprise"),
                    None => false,
                };
                if is_config {
                    if !crate::skd_report::skd_validate_config_ref_type_shape(&local) {
                        note_err(report, &msg3("valueType: ref type '", &tt, "' must look like '<prefix>:<Kind>.<Name>' (e.g. d5p1:CatalogRef.X)"));
                        *ok = false;
                    } else {
                        push_line(types, Vec::new());
                    }
                } else if is_enterprise {
                    if !crate::skd_report::skd_validate_system_type_shape(&local) {
                        note_err(report, &msg3("valueType: system type '", &tt, "' has unexpected local-name shape"));
                        *ok = false;
                    } else {
                        push_line(types, Vec::new());
                    }
                } else {
                    let shown = match bound {
                        Some(u) => u,
                        None => crate::text::chars_of("None"),
                    };
                    let mut m = msg4("valueType: type '", &tt, "' uses prefix '", &prefix);
                    push_str(&mut m, "' bound to unexpected namespace '");
                    push_chars(&mut m, &shown);
                    push_str(&mut m, "'");
                    note_err(report, &m);
                    *ok = false;
                }
            }
            *halted = report.stopped;
        },
    }
}

#[verifier::rlimit(40)]
fn qual_checks_exec(report: &mut SkdValidationReporter, ok: &mut bool, c: &XmlElement)
    requires
        rep_wf(*old(report)),
    ensures
        rep_wf(*final(report)),
        (rep_of(*final(report)), *final(ok)) == qual_checks(rep_of(*old(report)), *old(ok), c@),
{
    if eq_str(&c.name, "NumberQualifiers") {
        if !nonneg_int_exec(&v8_text_exec(c, "Digits")) {
            note_err(report, &crate::text::chars_of("v8:NumberQualifiers: <v8:Digits> missing or not a non-negative integer"));
            *ok = false;
        }
        if !nonneg_int_exec(&v8_text_exec(c, "FractionDigits")) {
            note_err(report, &crate::text::chars_of("v8:NumberQualifiers: <v8:FractionDigits> missing or not a non-negative integer"));
            *ok = false;
        }
        let sign = v8_text_exec(c, "AllowedSign");
        let allowed: [&'static str; 3] = ["Any", "Nonnegative", "Negative"];
        proof {
            assert(lit_views(allowed@) =~= seq!["Any"@, "Nonnegative"@, "Negative"@]);
        }
        if bad_choice_exec(&sign, &allowed) {
            note_err(report, &msg3("v8:NumberQualifiers: <v8:AllowedSign>", &choice_text_exec(&sign), "</v8:AllowedSign> \u{2014} must be one of: Any, Nonnegative, Negative"));
            *ok = false;
        }
    } else if eq_str(&c.name, "StringQualifiers") {
        if !nonneg_int_exec(&v8_text_exec(c, "Length")) {
            note_err(report, &crate::text::chars_of("v8:StringQualifiers: <v8:Length> missing or not a non-negative integer"));
            *ok = false;
        }
        let al = v8_text_exec(c, "AllowedLength");
        let allowed: [&'static str; 2] = ["Variable", "Fixed"];
        proof {
            assert(lit_views(allowed@) =~= seq!["Variable"@, "Fixed"@]);
        }
        if bad_choice_exec(&al, &allowed) {
            note_err(report, &msg3("v8:StringQualifiers: <v8:AllowedLength>", &choice_text_exec(&al), "</v8:AllowedLength> \u{2014} must be one of: Variable, Fixed"));
            *ok = false;
        }
    } else if eq_str(&c.name, "DateQualifiers") {
        let df = v8_text_exec(c, "DateFractions");
        let allowed: [&'static str; 3] = ["Date", "DateTime", "Time"];
        proof {
            assert(lit_views(allowed@) =~= seq!["Date"@, "DateTime"@, "Time"@]);
        }
        if bad_choice_exec(&df, &allowed) {
            note_err(report, &msg3("v8:DateQualifiers: <v8:DateFractions>", &choice_text_exec(&df), "</v8:DateFractions> \u{2014} must be one of: Date, DateTime, Time"));
            *ok = false;
        }
    }
}

fn vt_child_exec(
    report: &mut SkdValidationReporter,
    types: &mut Vec<Vec<char>>,
    quals: &mut Vec<Vec<char>>,
    ok: &mut bool,
    halted: &mut bool,
    c: &XmlElement,
)
    requires
        rep_wf(*old(report)),
    ensures
        rep_wf(*final(report)),
        (rep_of(*final(report)), views(final(types)@), views(final(quals)@), *final(ok), *final(halted)) == vt_child_step(
            (rep_of(*old(report)), views(old(types)@), views(old(quals)@), *old(ok), *old(halted)),
            c@,
        ),
{
    if *halted || !crate::text::eq_str(&c.namespace, "http://v8.1c.ru/8.1/data/core") {
        return;
    }
    if eq_str(&c.name, "Type") {
        type_child_exec(report, types, ok, halted, c, &*quals);
    } else if crate::text::ends_with_str(&c.name, "Qualifiers") {
        qual_checks_exec(report, ok, c);
        push_line(quals, tagged("v8:", &c.name));
        *halted = report.stopped;
    }
}

fn value_type_block_exec(report: &mut SkdValidationReporter, ok: &mut bool, halted: &mut bool, vt: &XmlElement)
    requires
        rep_wf(*old(report)),
    ensures
        rep_wf(*final(report)),
        (rep_of(*final(report)), *final(ok), *final(halted)) == value_type_block((rep_of(*old(report)), *old(ok), *old(halted)), vt@),
{
    if *halted {
        return;
    }
    proof {
        lemma_children_view(*vt);
    }
    let ghost r0 = rep_of(*report);
    let ghost ok0 = *ok;
    let mut types: Vec<Vec<char>> = Vec::new();
    let mut quals: Vec<Vec<char>> = Vec::new();
    let mut h = false;
    let mut i: usize = 0;
    while i < vt.children.len()
        invariant
            i <= vt.children@.len(),
            vt@.children == crate::xml::element_views(vt.children@),
            vt@.children.len() == vt.children@.len(),
            rep_wf(*report),
            (rep_of(*report), views(types@), views(quals@), *ok, h) == fold_nodes(
                vt@.children,
                i as int,
                (r0, Seq::<Seq<char>>::empty(), Seq::<Seq<char>>::empty(), ok0, false),
                |t, c| vt_child_step(t, c),
            ),
        decreases vt.children.len() - i,
    {
        assert(vt.children@[i as int]@ == vt@.children[i as int]);
        vt_child_exec(report, &mut types, &mut quals, ok, &mut h, &vt.children[i]);
        i = i + 1;
    }
    if h {
        *halted = true;
        return;
    }
    let ghost s1 = (rep_of(*report), *ok, false);
    let mut j: usize = 0;
    while j < quals.len()
        invariant
            j <= quals@.len(),
            rep_wf(*report),
            (rep_of(*report), *ok, *halted) == producers_fold(views(quals@), j as int, s1, views(types@)),
        decreases quals.len() - j,
    {
        if !*halted {
            let q = &quals[j];
            let p: Option<&'static str> = if eq_str(q, "v8:NumberQualifiers") {
                Some("xs:decimal")
            } else if eq_str(q, "v8:StringQualifiers") {
                Some("xs:string")
            } else if eq_str(q, "v8:DateQualifiers") {
                Some("xs:dateTime")
            } else {
                None
            };
            match p {
                Some(pt) => {
                    let pv = crate::text::chars_of(pt);
                    if !has_text(&types, &pv) {
                        let mut m = msg3("valueType: <", q, "> has no matching <v8:Type>");
                        push_chars(&mut m, &pv);
                        push_str(&mut m, "</v8:Type> in this valueType");
                        note_err(report, &m);
                        *ok = false;
                        *halted = report.stopped;
                    }
                },
                None => {},
            }
        }
        j = j + 1;
    }
}

fn value_type_walk(report: &mut SkdValidationReporter, ok: &mut bool, halted: &mut bool, count: &mut usize, n: &XmlElement)
    requires
        rep_wf(*old(report)),
    ensures
        rep_wf(*final(report)),
        (rep_of(*final(report)), *final(ok), *final(halted), *final(count) as nat) == tree_fold(
            n@,
            (rep_of(*old(report)), *old(ok), *old(halted), *old(count) as nat),
            |s, x| vt_walk_step(s, x),
        ),
    decreases n@, n@.children.len() + 1,
{
    if crate::xml::is_named(n, "valueType", Some("http://v8.1c.ru/8.1/data-composition-system/schema")) {
        value_type_block_exec(report, ok, halted, n);
        *count = sat_inc_exec(*count);
    }
    proof {
        lemma_children_view(*n);
    }
    let ghost s1 = (rep_of(*report), *ok, *halted, *count as nat);
    let mut i: usize = 0;
    while i < n.children.len()
        invariant
            i <= n.children@.len(),
            n@.children == crate::xml::element_views(n.children@),
            n@.children.len() == n.children@.len(),
            rep_wf(*report),
            tree_fold_from(n@, (rep_of(*report), *ok, *halted, *count as nat), |s, x| vt_walk_step(s, x), i as int)
                == tree_fold_from(n@, s1, |s, x| vt_walk_step(s, x), 0),
        decreases n.children.len() - i,
    {
        let c = &n.children[i];
        assert(c@ == n@.children[i as int]);
        proof {
            assert(decreases_to!(n@ => n@.children));
            assert(decreases_to!(n@.children => n@.children[i as int]));
        }
        value_type_walk(report, ok, halted, count, c);
        i = i + 1;
    }
}

pub fn skd_validate_value_types(report: &mut SkdValidationReporter, root: &XmlElement)
    requires
        rep_wf(*old(report)),
    ensures
        rep_wf(*final(report)),
        rep_of(*final(report)) == check_value_types(rep_of(*old(report)), root@),
{
    let mut ok = true;
    let mut halted = false;
    let mut count: usize = 0;
    value_type_walk(report, &mut ok, &mut halted, &mut count, root);
    if count > 0 && !halted && ok {
        note_ok(report, &tagged_count(count, " valueType block(s): structure and qualifiers OK"));
    }
}

// ---------------------------------------------------------------- the whole check

pub open spec fn ns_schema_text() -> Seq<char> {
    "http://v8.1c.ru/8.1/data-composition-system/schema"@
}

/// The checks of a parsed schema in turn, each one only while the check has
/// not stopped: the root, the sources, the sets and their fields, the links,
/// calculated and total fields, parameters, templates, group templates,
/// settings variants, value types and values.
pub open spec fn check_tree(r: Rep, root: XmlNode) -> Rep {
    let sets = children_named(root, "dataSet"@, ns_schema());
    check_rest(fold_nodes(sets, sets.len() as int, check_head(r, root), |r, ds| set_fields_step(r, ds)), root)
}

/// The root, the sources and the sets.
pub open spec fn check_head(r: Rep, root: XmlNode) -> Rep {
    let r1 = if root.name != "DataCompositionSchema"@ {
        r_err(r, "Root element is '"@ + root.name + "', expected 'DataCompositionSchema'"@)
    } else {
        r_ok(r, "Root element: DataCompositionSchema"@)
    };
    let r2 = if root.namespace != ns_schema_text() {
        r_err(r1, "Default namespace is '"@ + root.namespace + "', expected '"@ + ns_schema_text() + "'"@)
    } else {
        r_ok(r1, "Default namespace correct"@)
    };
    let sources = children_named(root, "dataSource"@, ns_schema());
    let r3 = if r2.stopped { r2 } else { check_sources(r2, sources) };
    if r3.stopped { r3 } else { check_sets(r3, children_named(root, "dataSet"@, ns_schema()), names_of(sources)) }
}

/// The checks after the fields of the data sets.
pub open spec fn check_rest(r5: Rep, root: XmlNode) -> Rep {
    let sets = children_named(root, "dataSet"@, ns_schema());
    let templates = children_named(root, "template"@, ns_schema());
    let r6 = if r5.stopped { r5 } else { check_links(r5, children_named(root, "dataSetLink"@, ns_schema()), names_of(sets)) };
    let r7 = if r6.stopped { r6 } else { check_calculated(r6, children_named(root, "calculatedField"@, ns_schema()), all_field_paths(sets)) };
    let r8 = if r7.stopped { r7 } else { check_totals(r7, children_named(root, "totalField"@, ns_schema())) };
    let r9 = if r8.stopped { r8 } else { check_parameters(r8, children_named(root, "parameter"@, ns_schema())) };
    let r10 = if r9.stopped { r9 } else { check_templates(r9, templates) };
    let r11 = if r10.stopped { r10 } else { check_group_templates(r10, children_named(root, "groupTemplate"@, ns_schema()), names_of(templates)) };
    let r12 = if r11.stopped { r11 } else { check_variants(r11, children_named(root, "settingsVariant"@, ns_schema())) };
    let r13 = if r12.stopped { r12 } else { check_value_types(r12, root) };
    if r13.stopped { r13 } else { check_value_contents(r13, root) }
}

/// The fields of one data set, unless the check has stopped.
pub open spec fn set_fields_step(r: Rep, ds: XmlNode) -> Rep {
    if r.stopped {
        r
    } else {
        check_fields(r, ds, text_or(child_named(ds, "name"@, ns_schema()), "(unnamed)"@))
    }
}

/// A fresh report for the file `name`.
pub open spec fn rep_start(max: nat, detailed: bool, name: Seq<char>) -> Rep {
    Rep {
        lines: seq!["=== Validation: "@ + name + " ==="@, Seq::<char>::empty()],
        errors: 0,
        warnings: 0,
        oks: 0,
        stopped: false,
        max,
        detailed,
    }
}

/// The finished report of a parsed schema.
pub open spec fn skd_tree_report(root: XmlNode, name: Seq<char>, max: nat, detailed: bool) -> (bool, Seq<char>, Seq<Seq<char>>) {
    let r = check_tree(r_ok(rep_start(max, detailed, name), "XML parsed successfully"@), root);
    crate::skd_report::skd_report(r.lines, r.errors, r.warnings, r.oks, r.detailed, name)
}

/// The check of a schema text: whether it passed, the report, and its error
/// lines. A text that does not parse gets a report of that error alone.
pub open spec fn skd_check(text: Seq<char>, name: Seq<char>, max: nat, detailed: bool) -> (bool, Seq<char>, Seq<Seq<char>>) {
    match crate::xml::xml_tree(crate::skd_apply::without_boms(text)) {
        Ok(root) => skd_tree_report(root, name, max, detailed),
        Err(e) => {
            let r = r_err(rep_start(max, detailed, name), "XML parse failed: "@ + e);
            (false, crate::text::join(r.lines, "\n"@) + "\n"@, crate::skd_report::error_lines(r.lines))
        },
    }
}

fn schema_children<'a>(e: &'a XmlElement, name: &str) -> (r: Vec<&'a XmlElement>)
    ensures
        node_views(r@) == children_named(e@, name@, ns_schema()),
{
    let r = children_with(e, name, Some("http://v8.1c.ru/8.1/data-composition-system/schema"));
    assert(node_views(r@) =~= children_named(e@, name@, ns_schema()));
    r
}

fn head_checks(report: &mut SkdValidationReporter, root: &XmlElement)
    requires
        rep_wf(*old(report)),
    ensures
        rep_wf(*final(report)),
        rep_of(*final(report)) == check_head(rep_of(*old(report)), root@),
{
    if !eq_str(&root.name, "DataCompositionSchema") {
        note_err(report, &msg3("Root element is '", &root.name, "', expected 'DataCompositionSchema'"));
    } else {
        note_ok(report, &crate::text::chars_of("Root element: DataCompositionSchema"));
    }
    if !eq_str(&root.namespace, "http://v8.1c.ru/8.1/data-composition-system/schema") {
        let mut m = msg3("Default namespace is '", &root.namespace, "', expected '");
        push_str(&mut m, "http://v8.1c.ru/8.1/data-composition-system/schema");
        push_str(&mut m, "'");
        note_err(report, &m);
    } else {
        note_ok(report, &crate::text::chars_of("Default namespace correct"));
    }
    let sources = schema_children(root, "dataSource");
    if !report.stopped {
        skd_validate_data_sources(report, &sources);
    }
    if !report.stopped {
        let known = names_of_exec(&sources);
        skd_validate_data_sets(report, &schema_children(root, "dataSet"), &known);
    }
}

#[verifier::rlimit(40)]
fn rest_checks(report: &mut SkdValidationReporter, root: &XmlElement)
    requires
        rep_wf(*old(report)),
    ensures
        rep_wf(*final(report)),
        rep_of(*final(report)) == check_rest(rep_of(*old(report)), root@),
{
    let sets = schema_children(root, "dataSet");
    let templates = schema_children(root, "template");
    if !report.stopped {
        let set_names = names_of_exec(&sets);
        skd_validate_data_set_links(report, &schema_children(root, "dataSetLink"), &set_names);
    }
    if !report.stopped {
        let paths = all_field_paths_exec(&sets);
        skd_validate_calculated_fields(report, &schema_children(root, "calculatedField"), &paths);
    }
    if !report.stopped {
        skd_validate_total_fields(report, &schema_children(root, "totalField"));
    }
    if !report.stopped {
        skd_validate_parameters(report, &schema_children(root, "parameter"));
    }
    if !report.stopped {
        skd_validate_templates(report, &templates);
    }
    if !report.stopped {
        let template_names = names_of_exec(&templates);
        skd_validate_group_templates(report, &schema_children(root, "groupTemplate"), &template_names);
    }
    if !report.stopped {
        skd_validate_settings_variants(report, &schema_children(root, "settingsVariant"));
    }
    if !report.stopped {
        skd_validate_value_types(report, root);
    }
    if !report.stopped {
        skd_validate_value_contents(report, root);
    }
}

/// Checks a parsed data composition schema; `name` is the file's name in the
/// report. The check stops once `max_errors` errors were found. The result is
/// whether no error was found, the report, and its error lines.
pub fn skd_validate_tree(root: &XmlElement, name: &[char], max_errors: usize, detailed: bool) -> (r: (bool, Vec<char>, Vec<Vec<char>>))
    ensures
        (r.0, r.1@, views(r.2@)) == skd_tree_report(root@, name@, max_errors as nat, detailed),
{
    let mut report = SkdValidationReporter::new(max_errors, detailed, name);
    note_ok(&mut report, &crate::text::chars_of("XML parsed successfully"));
    head_checks(&mut report, root);
    let sets = schema_children(root, "dataSet");
    let ghost r4 = rep_of(report);
    let ghost ss = node_views(sets@);
    let mut i: usize = 0;
    while i < sets.len()
        invariant
            i <= sets@.len(),
            ss == node_views(sets@),
            rep_wf(report),
            rep_of(report) == fold_nodes(ss, i as int, r4, |r, ds| set_fields_step(r, ds)),
        decreases sets.len() - i,
    {
        assert(ss[i as int] == sets[i as int]@);
        if !report.stopped {
            let ds_name = text_or_exec(child(sets[i], "name", Some("http://v8.1c.ru/8.1/data-composition-system/schema")), "(unnamed)");
            skd_validate_data_set_fields(&mut report, sets[i], &ds_name);
        }
        i = i + 1;
    }
    rest_checks(&mut report, root);
    report.finalize(name)
}

/// Checks a data composition schema text (leading byte order marks are
/// skipped); `name` is the file's name in the report. A text that does not
/// parse is reported as that one error. The result is whether no error was
/// found, the report, and its error lines.
pub fn skd_validate(text: &[char], name: &[char], max_errors: usize, detailed: bool) -> (r: (bool, Vec<char>, Vec<Vec<char>>))
    ensures
        (r.0, r.1@, views(r.2@)) == skd_check(text@, name@, max_errors as nat, detailed),
{
    let body = crate::xml::strip_boms(text);
    let s = crate::external::string_of(&body);
    match crate::xml::xml_document(s.as_str()) {
        Ok(root) => skd_validate_tree(&root, name, max_errors, detailed),
        Err(e) => {
            let mut report = SkdValidationReporter::new(max_errors, detailed, name);
            note_err(&mut report, &tagged("XML parse failed: ", &e));
            let ghost lines = views(report.lines@);
            let mut errors: Vec<Vec<char>> = Vec::new();
            let mut i: usize = 0;
            while i < report.lines.len()
                invariant
                    i <= report.lines@.len(),
                    lines == views(report.lines@),
                    views(errors@) == crate::skd_report::error_lines(lines.take(i as int)),
                decreases report.lines.len() - i,
            {
                proof {
                    reveal(Seq::filter);
                    assert(lines.take(i + 1).drop_last() =~= lines.take(i as int));
                    assert(lines.take(i + 1).last() == report.lines@[i as int]@);
                }
                if crate::text::starts_with_str(&report.lines[i], "[ERROR] ") {
                    push_line(&mut errors, crate::text::to_vec(&report.lines[i]));
                }
                i = i + 1;
            }
            assert(lines.take(i as int) =~= lines);
            let mut out = crate::text::join_str(&report.lines, "\n");
            push_str(&mut out, "\n");
            (false, out, errors)
        },
    }
}

} // verus!
