//! Reports on a data composition schema: the map of its data sets' fields,
//! its links, and the page of report lines that is shown.
use vstd::prelude::*;
use crate::numbers::{nat_text, usize_text};
use crate::skd_check::ns_schema;
use crate::skd_fragments::push_line;
use crate::text::{chars_of, contains, contains_str, join, join_str, push_chars, push_str, to_vec, trim, trim_chars, views};
use crate::xml::{XmlElement, XmlNode, attribute_by_local_name, attribute_local, child, child_named, children_named, children_with, text_of, text_or_empty};

verus! {

/// The kind of a data set, read from its `xsi:type`.
pub open spec fn dataset_type(ds: XmlNode) -> Seq<char> {
    let t = match attribute_by_local_name(ds, "type"@) {
        Some(v) => v,
        None => Seq::empty(),
    };
    if contains(t, "DataSetQuery"@) {
        "Query"@
    } else if contains(t, "DataSetObject"@) {
        "Object"@
    } else if contains(t, "DataSetUnion"@) {
        "Union"@
    } else {
        "Unknown"@
    }
}

/// The kind of a data set: `Query`, `Object`, `Union` or `Unknown`.
pub fn skd_info_dataset_type(ds: &XmlElement) -> (r: Vec<char>)
    ensures
        r@ == dataset_type(ds@),
{
    let t = match attribute_local(ds, "type") {
        Some(v) => v,
        None => Vec::new(),
    };
    if contains_str(&t, "DataSetQuery") {
        chars_of("Query")
    } else if contains_str(&t, "DataSetObject") {
        chars_of("Object")
    } else if contains_str(&t, "DataSetUnion") {
        chars_of("Union")
    } else {
        chars_of("Unknown")
    }
}

/// The data paths of the fields that have one, trimmed, in order.
pub open spec fn paths_of(fields: Seq<XmlNode>) -> Seq<Seq<char>>
    decreases fields.len(),
{
    if fields.len() == 0 {
        Seq::empty()
    } else {
        let rest = paths_of(fields.drop_last());
        match child_named(fields.last(), "dataPath"@, ns_schema()) {
            Some(c) => rest.push(trim(text_or_empty(c))),
            None => rest,
        }
    }
}

/// A list of names cut to 97 characters and `...` where it is longer than 100.
pub open spec fn shortened(t: Seq<char>) -> Seq<char> {
    if t.len() > 100 {
        t.take(97) + "..."@
    } else {
        t
    }
}

/// The map line of one data set: its name, kind, number of fields and their
/// data paths.
pub open spec fn field_map_line(ds: XmlNode, indent: Seq<char>) -> Seq<char> {
    let paths = paths_of(children_named(ds, "field"@, ns_schema()));
    let name = match child_named(ds, "name"@, ns_schema()) {
        Some(c) => trim(text_or_empty(c)),
        None => Seq::empty(),
    };
    indent + name + " ["@ + dataset_type(ds) + "] ("@ + nat_text(paths.len()) + "): "@ + shortened(join(paths, ", "@))
}

/// The map line of one data set.
pub fn skd_info_field_map(ds: &XmlElement, indent: &str) -> (r: Vec<char>)
    ensures
        r@ == field_map_line(ds@, indent@),
{
    let fields = children_with(ds, "field", Some("http://v8.1c.ru/8.1/data-composition-system/schema"));
    let ghost fs = children_named(ds@, "field"@, ns_schema());
    let mut paths: Vec<Vec<char>> = Vec::new();
    let mut i: usize = 0;
    while i < fields.len()
        invariant
            i <= fields.len(),
            fields@.len() == fs.len(),
            forall|k: int| 0 <= k < fields@.len() ==> (#[trigger] fields@[k])@ == fs[k],
            views(paths@) == paths_of(fs.take(i as int)),
        decreases fields.len() - i,
    {
        proof {
            assert(fs.take(i + 1).drop_last() == fs.take(i as int));
            assert(fs.take(i + 1).last() == fields@[i as int]@);
        }
        match child(fields[i], "dataPath", Some("http://v8.1c.ru/8.1/data-composition-system/schema")) {
            Some(c) => {
                let p = trim_chars(&text_of(c));
                push_line(&mut paths, p);
            },
            None => {},
        }
        i = i + 1;
    }
    proof {
        assert(fs.take(fields.len() as int) == fs);
    }
    let name = match child(ds, "name", Some("http://v8.1c.ru/8.1/data-composition-system/schema")) {
        Some(c) => trim_chars(&text_of(c)),
        None => Vec::new(),
    };
    let list = join_str(&paths, ", ");
    let mut r = chars_of(indent);
    push_chars(&mut r, &name);
    push_str(&mut r, " [");
    push_chars(&mut r, &skd_info_dataset_type(ds));
    push_str(&mut r, "] (");
    push_chars(&mut r, &usize_text(paths.len()));
    push_str(&mut r, "): ");
    if list.len() > 100 {
        push_chars(&mut r, &crate::text::slice_to_vec(&list, 0, 97));
        push_str(&mut r, "...");
    } else {
        push_chars(&mut r, &list);
    }
    r
}

/// The lines of one data set in the map, with those of its parts when it is
/// a union.
pub open spec fn dataset_map_lines(ds: XmlNode) -> Seq<Seq<char>> {
    let head = seq![field_map_line(ds, Seq::empty())];
    if dataset_type(ds) == "Union"@ {
        head + children_named(ds, "item"@, ns_schema()).map_values(|c: XmlNode| field_map_line(c, "  "@))
    } else {
        head
    }
}

/// The map lines of the data sets in turn.
pub open spec fn map_lines(sets: Seq<XmlNode>) -> Seq<Seq<char>>
    decreases sets.len(),
{
    if sets.len() == 0 {
        Seq::empty()
    } else {
        map_lines(sets.drop_last()) + dataset_map_lines(sets.last())
    }
}

/// The `fields` report: a map line for each data set (and each part of a
/// union), then a hint.
pub open spec fn fields_report(root: XmlNode) -> Seq<Seq<char>> {
    seq!["=== Fields map ==="@] + map_lines(children_named(root, "dataSet"@, ns_schema())) + seq![
        Seq::empty(),
        "Use -Name <field> for details."@,
    ]
}

/// The `fields` report of a schema.
pub fn skd_info_fields(root: &XmlElement) -> (r: Vec<Vec<char>>)
    ensures
        views(r@) == fields_report(root@),
{
    let mut lines: Vec<Vec<char>> = Vec::new();
    push_line(&mut lines, chars_of("=== Fields map ==="));
    let sets = children_with(root, "dataSet", Some("http://v8.1c.ru/8.1/data-composition-system/schema"));
    let ghost ss = children_named(root@, "dataSet"@, ns_schema());
    let ghost head = seq!["=== Fields map ==="@];
    let mut i: usize = 0;
    while i < sets.len()
        invariant
            i <= sets.len(),
            sets@.len() == ss.len(),
            forall|k: int| 0 <= k < sets@.len() ==> (#[trigger] sets@[k])@ == ss[k],
            views(lines@) == head + map_lines(ss.take(i as int)),
        decreases sets.len() - i,
    {
        let ds = sets[i];
        let ghost before = views(lines@);
        push_line(&mut lines, skd_info_field_map(ds, ""));
        let ghost line = field_map_line(ds@, Seq::empty());
        proof {
            reveal_strlit("");
        }
        assert(views(lines@) == before.push(line));
        let kind = skd_info_dataset_type(ds);
        if crate::text::eq_str(&kind, "Union") {
            let items = children_with(ds, "item", Some("http://v8.1c.ru/8.1/data-composition-system/schema"));
            let ghost its = children_named(ds@, "item"@, ns_schema());
            let ghost mid = views(lines@);
            let mut j: usize = 0;
            while j < items.len()
                invariant
                    j <= items.len(),
                    items@.len() == its.len(),
                    forall|k: int| 0 <= k < items@.len() ==> (#[trigger] items@[k])@ == its[k],
                    views(lines@) == mid + its.take(j as int).map_values(|c: XmlNode| field_map_line(c, "  "@)),
                decreases items.len() - j,
            {
                push_line(&mut lines, skd_info_field_map(items[j], "  "));
                proof {
                    assert(its.take(j + 1).map_values(|c: XmlNode| field_map_line(c, "  "@)) =~= its.take(j as int).map_values(
                        |c: XmlNode| field_map_line(c, "  "@),
                    ).push(field_map_line(items@[j as int]@, "  "@)));
                }
                j = j + 1;
            }
            proof {
                assert(its.take(items.len() as int) == its);
                assert(views(lines@) =~= before + dataset_map_lines(ds@));
            }
        } else {
            assert(views(lines@) =~= before + dataset_map_lines(ds@));
        }
        proof {
            assert(ss.take(i + 1).drop_last() == ss.take(i as int));
            assert(ss.take(i + 1).last() == ds@);
            assert(views(lines@) =~= before + dataset_map_lines(ds@));
        }
        i = i + 1;
    }
    proof {
        assert(ss.take(sets.len() as int) == ss);
    }
    push_line(&mut lines, Vec::new());
    push_line(&mut lines, chars_of("Use -Name <field> for details."));
    lines
}

/// The `links` report: how many data set links the schema has.
pub open spec fn links_report(root: XmlNode) -> Seq<Seq<char>> {
    let n = children_named(root, "dataSetLink"@, ns_schema()).len();
    if n == 0 {
        seq!["(no links)"@]
    } else {
        seq!["=== Links ("@ + nat_text(n) + ") ==="@]
    }
}

/// The `links` report of a schema.
pub fn skd_info_links(root: &XmlElement) -> (r: Vec<Vec<char>>)
    ensures
        views(r@) == links_report(root@),
{
    let links = children_with(root, "dataSetLink", Some("http://v8.1c.ru/8.1/data-composition-system/schema"));
    let mut lines: Vec<Vec<char>> = Vec::new();
    if links.len() == 0 {
        push_line(&mut lines, chars_of("(no links)"));
    } else {
        let mut l = chars_of("=== Links (");
        push_chars(&mut l, &usize_text(links.len()));
        push_str(&mut l, ") ===");
        push_line(&mut lines, l);
    }
    lines
}

/// The `templates` report: how many templates, field templates and group
/// templates (with their headers and footers) the schema defines.
pub open spec fn templates_report(root: XmlNode) -> Seq<Seq<char>> {
    let n = children_named(root, "template"@, ns_schema()).len();
    let fields = children_named(root, "fieldTemplate"@, ns_schema()).len();
    let groups = children_named(root, "groupTemplate"@, ns_schema()).len() + children_named(
        root,
        "groupHeaderTemplate"@,
        ns_schema(),
    ).len() + children_named(root, "groupFooterTemplate"@, ns_schema()).len();
    seq![
        "=== Templates ("@ + nat_text(n) + " defined: "@ + nat_text(fields) + " field, "@ + nat_text(groups)
            + " group) ==="@,
    ]
}

/// The `templates` report of a schema.
pub fn skd_info_templates(root: &XmlElement) -> (r: Vec<Vec<char>>)
    ensures
        views(r@) == templates_report(root@),
{
    let ns = Some("http://v8.1c.ru/8.1/data-composition-system/schema");
    let n = children_with(root, "template", ns).len();
    let fields = children_with(root, "fieldTemplate", ns).len();
    let g1 = children_with(root, "groupTemplate", ns).len();
    let g2 = children_with(root, "groupHeaderTemplate", ns).len();
    let g3 = children_with(root, "groupFooterTemplate", ns).len();
    let mut l = chars_of("=== Templates (");
    push_chars(&mut l, &usize_text(n));
    push_str(&mut l, " defined: ");
    push_chars(&mut l, &usize_text(fields));
    push_str(&mut l, " field, ");
    push_chars(&mut l, &crate::numbers::u128_text(g1 as u128 + g2 as u128 + g3 as u128));
    push_str(&mut l, " group) ===");
    let mut lines: Vec<Vec<char>> = Vec::new();
    push_line(&mut lines, l);
    lines
}

/// The part of a report that is shown: the lines from `offset` on, at most
/// `limit` of them, with a note where more remain; a note alone where the
/// offset is past the end.
pub open spec fn report_page(lines: Seq<Seq<char>>, offset: nat, limit: nat) -> Seq<char> {
    let total = lines.len();
    if offset > 0 && offset >= total {
        "[INFO] Offset "@ + nat_text(offset) + " exceeds total lines ("@ + nat_text(total) + "). Nothing to show.\n"@
    } else {
        let rest = lines.skip(offset as int);
        if rest.len() > limit {
            join(rest.take(limit as int), "\n"@) + "\n\n[TRUNCATED] Shown "@ + nat_text(limit) + " of "@ + nat_text(total)
                + " lines. Use -Offset "@ + nat_text(offset + limit) + " to continue.\n"@
        } else {
            join(rest, "\n"@) + "\n"@
        }
    }
}

/// The shown part of a report's lines.
pub fn skd_info_page(lines: &Vec<Vec<char>>, offset: usize, limit: usize) -> (r: Vec<char>)
    requires
        offset + limit <= usize::MAX,
    ensures
        r@ == report_page(views(lines@), offset as nat, limit as nat),
{
    let total = lines.len();
    if offset > 0 && offset >= total {
        let mut r = chars_of("[INFO] Offset ");
        push_chars(&mut r, &usize_text(offset));
        push_str(&mut r, " exceeds total lines (");
        push_chars(&mut r, &usize_text(total));
        push_str(&mut r, "). Nothing to show.\n");
        return r;
    }
    let ghost all = views(lines@);
    let rest_len = total - offset;
    let shown = if rest_len > limit { limit } else { rest_len };
    let mut part: Vec<Vec<char>> = Vec::new();
    let mut i: usize = 0;
    while i < shown
        invariant
            i <= shown <= rest_len,
            rest_len == total - offset,
            total == lines@.len(),
            all == views(lines@),
            views(part@) == all.skip(offset as int).take(i as int),
        decreases shown - i,
    {
        push_line(&mut part, to_vec(&lines[offset + i]));
        proof {
            assert(all.skip(offset as int).take(i + 1) =~= all.skip(offset as int).take(i as int).push(all[offset + i]));
        }
        i = i + 1;
    }
    let mut r = join_str(&part, "\n");
    if rest_len > limit {
        push_str(&mut r, "\n\n[TRUNCATED] Shown ");
        push_chars(&mut r, &usize_text(limit));
        push_str(&mut r, " of ");
        push_chars(&mut r, &usize_text(total));
        push_str(&mut r, " lines. Use -Offset ");
        push_chars(&mut r, &usize_text(offset + limit));
        push_str(&mut r, " to continue.\n");
    } else {
        proof {
            assert(all.skip(offset as int).take(shown as int) =~= all.skip(offset as int));
        }
        push_str(&mut r, "\n");
    }
    r
}

} // verus!
