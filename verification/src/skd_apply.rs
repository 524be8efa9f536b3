//! One edit of a composition schema: the operation applied to one value, giving
//! the new text, the lines it reports and whether the file is to be saved even
//! when its text did not change.
use vstd::prelude::*;
use crate::numbers::nat_text;
use crate::skd_edit::{
    add_drilldown, add_field, add_top_level_fragment, clear_prefixed_container, dataset_label,
    dataset_label_exec, insert_before_first_root_child, insert_before_root_close,
    insert_or_create_settings_item, insert_prefixed_item, insert_selection_into_group, patch_query,
    remove_dataset_item, remove_item_by_child, remove_selection_field, rename_parameter,
    reorder_parameters, set_field_role, set_query, skd_edit_add_drilldown, skd_edit_add_field,
    skd_edit_add_top_level_fragment, skd_edit_clear_prefixed_container,
    skd_edit_insert_before_first_root_child, skd_edit_insert_before_root_close,
    skd_edit_insert_or_create_settings_item, skd_edit_insert_prefixed_item,
    skd_edit_insert_selection_into_group, skd_edit_patch_query, skd_edit_remove_dataset_item,
    skd_edit_remove_item_by_child, skd_edit_remove_prefixed_selection_field,
    skd_edit_remove_top_level_item, skd_edit_rename_parameter, skd_edit_reorder_parameters,
    skd_edit_set_field_role, skd_edit_set_query, variant_label, variant_label_exec,
    SkdEditDrilldownResult,
};
use crate::skd_fragments::{
    calc_field_lines, data_set_fragment, order_fragment, selection_fragment, total_fragment,
    variant_lines, skd_edit_calc_field_fragment, skd_edit_data_set_fragment, skd_edit_order_fragment,
    skd_edit_selection_fragment, skd_edit_total_fragment, skd_edit_variant_fragment,
};
use crate::skd_values::{
    calc_field, order_description, once_marker, selection_value, total_expression, variant_value,
    skd_edit_extract_once_marker, skd_edit_order_description, skd_edit_parse_calc_field,
    skd_edit_parse_selection_value, skd_edit_parse_variant, skd_edit_total_expression, SkdEditDataSet,
    opt_view,
};
use crate::skd_xml::{
    container_child_indent, first_data_source, skd_edit_first_data_source,
    skd_edit_settings_container_child_indent, skd_edit_top_level_contains, skd_edit_variant_exists,
    top_level_contains, variant_block_has_name,
};
use crate::text::{chars_of, join, lit_views, push_chars, push_str, split_once, split_once_str, split_trim_or_all, split_trim_or_all_str, to_vec};

verus! {

/// What one edit gives: the new text, the report lines it adds and whether the
/// file is saved even without a change; or the error that stops the edit.
pub type EditStep = Result<(Seq<char>, Seq<char>, bool), Seq<char>>;

/// The result of an edit function agrees with its specification.
pub open spec fn step_done(r: Result<(Vec<char>, Vec<char>, bool), Vec<char>>, s: EditStep) -> bool {
    match s {
        Ok((n, out, force)) => r matches Ok((a, b, c)) && a@ == n && b@ == out && c == force,
        Err(e) => r matches Err(x) && x@ == e,
    }
}

/// A report line: `a`, `b` and `c` one after the other.
fn line3(a: &str, b: &[char], c: &str) -> (r: Vec<char>)
    ensures
        r@ == a@ + b@ + c@,
{
    let mut r = chars_of(a);
    push_chars(&mut r, b);
    push_str(&mut r, c);
    r
}

/// A report line: `a`, `b`, `c`, `d` and `e` one after the other.
fn line5(a: &str, b: &[char], c: &str, d: &[char], e: &str) -> (r: Vec<char>)
    ensures
        r@ == a@ + b@ + c@ + d@ + e@,
{
    let mut r = chars_of(a);
    push_chars(&mut r, b);
    push_str(&mut r, c);
    push_chars(&mut r, d);
    push_str(&mut r, e);
    r
}

/// The indentation of a new item of a settings container, or a default one.
pub open spec fn item_indent(t: Seq<char>, variant: Seq<char>, container: Seq<char>, default: Seq<char>) -> Seq<char> {
    match container_child_indent(t, variant, container) {
        Ok(i) => i,
        Err(_) => default,
    }
}

fn item_indent_exec(t: &[char], variant: &[char], container: &str, default: &str) -> (r: Vec<char>)
    ensures
        r@ == item_indent(t@, variant@, container@, default@),
{
    let c = chars_of(container);
    match skd_edit_settings_container_child_indent(t, variant, &c) {
        Ok(i) => i,
        Err(_) => chars_of(default),
    }
}

/// `add-field`: a field added to a data set (and to the selection).
pub open spec fn add_field_step(t: Seq<char>, data_set: Seq<char>, variant: Seq<char>, value: Seq<char>, no_selection: bool) -> EditStep {
    let (n, out, res) = add_field(t, data_set, variant, value, no_selection);
    match res {
        Ok(()) => Ok((n, out, false)),
        Err(e) => Err(e),
    }
}

fn op_add_field(t: &[char], data_set: &[char], variant: &[char], value: &[char], no_selection: bool) -> (r: Result<(Vec<char>, Vec<char>, bool), Vec<char>>)
    ensures
        step_done(r, add_field_step(t@, data_set@, variant@, value@, no_selection)),
{
    let mut x = to_vec(t);
    let mut out: Vec<char> = Vec::new();
    let res = skd_edit_add_field(&mut x, data_set, variant, value, no_selection, &mut out);
    assert(out@.subrange(0, out@.len() as int) =~= out@);
    match res {
        Ok(()) => Ok((x, out, false)),
        Err(e) => Err(e),
    }
}

/// `add-total`: a total field `Name: Function(expression)` (the function
/// completed when it is missing).
pub open spec fn add_total_step(t: Seq<char>, value: Seq<char>) -> EditStep {
    let (key, e0) = split_trim_or_all(value, ":"@);
    let expression = total_expression(key, e0);
    match add_top_level_fragment(
        t,
        "totalField"@,
        "dataPath"@,
        key,
        total_fragment(key, expression),
        "[OK] TotalField \""@ + key + "\" = "@ + expression + " added\n"@,
    ) {
        Ok((n, msg)) => Ok((n, msg, false)),
        Err(e) => Err(e),
    }
}

fn op_add_total(t: &[char], value: &[char]) -> (r: Result<(Vec<char>, Vec<char>, bool), Vec<char>>)
    ensures
        step_done(r, add_total_step(t@, value@)),
{
    let (key, e0) = split_trim_or_all_str(value, ":");
    let expression = skd_edit_total_expression(&key, &e0);
    let fragment = skd_edit_total_fragment(&key, &expression);
    let msg = line5("[OK] TotalField \"", &key, "\" = ", &expression, " added\n");
    let mut x = to_vec(t);
    let mut out: Vec<char> = Vec::new();
    let item = chars_of("totalField");
    let child = chars_of("dataPath");
    match skd_edit_add_top_level_fragment(&mut x, &item, &child, &key, &fragment, &msg, &mut out) {
        Ok(()) => {
            assert(out@ =~= Seq::<char>::empty() + out@);
            Ok((x, out, false))
        },
        Err(e) => Err(e),
    }
}

/// `add-calculated-field`: a calculated field, also added to the selection of
/// the variant unless asked not to (a failure there is passed over).
pub open spec fn add_calculated_field_step(t: Seq<char>, variant: Seq<char>, value: Seq<char>, no_selection: bool) -> EditStep {
    let (dp, title, ty, ex) = calc_field(value);
    match add_top_level_fragment(
        t,
        "calculatedField"@,
        "dataPath"@,
        dp,
        join(calc_field_lines(dp, title, ty, ex, "\t"@), "\n"@),
        "[OK] CalculatedField \""@ + dp + "\" = "@ + ex + " added\n"@,
    ) {
        Err(e) => Err(e),
        Ok((t1, m1)) => if no_selection {
            Ok((t1, m1, false))
        } else {
            match insert_prefixed_item(t1, variant, "dcsset:selection"@, selection_fragment(dp, "\t\t\t"@)) {
                Ok(t2) => Ok((
                    t2,
                    m1 + "[OK] Field \""@ + dp + "\" added to selection of variant \""@ + variant_label(t2, variant) + "\"\n"@,
                    false,
                )),
                Err(_) => Ok((t1, m1, false)),
            }
        },
    }
}

fn op_add_calculated_field(t: &[char], variant: &[char], value: &[char], no_selection: bool) -> (r: Result<(Vec<char>, Vec<char>, bool), Vec<char>>)
    ensures
        step_done(r, add_calculated_field_step(t@, variant@, value@, no_selection)),
{
    let parsed = skd_edit_parse_calc_field(value);
    let tab = chars_of("\t");
    let fragment = skd_edit_calc_field_fragment(&parsed, &tab);
    let msg = line5("[OK] CalculatedField \"", &parsed.data_path, "\" = ", &parsed.expression, " added\n");
    let mut x = to_vec(t);
    let mut out: Vec<char> = Vec::new();
    let item = chars_of("calculatedField");
    let child = chars_of("dataPath");
    let ghost dp = parsed.data_path@;
    let ghost first = add_top_level_fragment(t@, "calculatedField"@, "dataPath"@, dp, fragment@, msg@);
    match skd_edit_add_top_level_fragment(&mut x, &item, &child, &parsed.data_path, &fragment, &msg, &mut out) {
        Err(e) => {
            assert(first is Err);
            return Err(e);
        },
        Ok(()) => {},
    }
    assert(out@ =~= Seq::<char>::empty() + out@);
    let ghost t1 = x@;
    let ghost m1 = out@;
    assert(first == Ok::<(Seq<char>, Seq<char>), Seq<char>>((t1, m1)));
    if !no_selection {
        let sel = skd_edit_selection_fragment(&parsed.data_path, &chars_of("\t\t\t"));
        let container = chars_of("dcsset:selection");
        let ok = skd_edit_insert_prefixed_item(&mut x, variant, &container, &sel).is_ok();
        if ok {
            let label = variant_label_exec(&x, variant);
            let line = line5("[OK] Field \"", &parsed.data_path, "\" added to selection of variant \"", &label, "\"\n");
            push_chars(&mut out, &line);
            assert(insert_prefixed_item(t1, variant@, "dcsset:selection"@, selection_fragment(dp, "\t\t\t"@)) == Ok::<Seq<char>, Seq<char>>(x@));
            assert(out@ =~= m1 + "[OK] Field \""@ + dp + "\" added to selection of variant \""@ + variant_label(x@, variant@) + "\"\n"@);
        } else {
            assert(insert_prefixed_item(t1, variant@, "dcsset:selection"@, selection_fragment(dp, "\t\t\t"@)) is Err);
            assert(x@ == t1);
        }
    }
    Ok((x, out, false))
}

/// `set-query`: the query of a data set replaced by a text.
pub open spec fn set_query_step(t: Seq<char>, data_set: Seq<char>, query: Seq<char>) -> EditStep {
    match set_query(t, data_set, query) {
        Err(e) => Err(e),
        Ok(n) => Ok((n, "[OK] Query replaced in dataset \""@ + dataset_label(n, data_set) + "\"\n"@, false)),
    }
}

/// Replaces the query of a data set with a query text (a query read from a file
/// is read by the caller).
pub fn skd_edit_replace_query(t: &[char], data_set: &[char], query: &[char]) -> (r: Result<(Vec<char>, Vec<char>, bool), Vec<char>>)
    ensures
        step_done(r, set_query_step(t@, data_set@, query@)),
{
    let mut x = to_vec(t);
    match skd_edit_set_query(&mut x, data_set, query) {
        Err(e) => Err(e),
        Ok(()) => {
            let label = dataset_label_exec(&x, data_set);
            Ok((x, line3("[OK] Query replaced in dataset \"", &label, "\"\n"), false))
        },
    }
}

/// `patch-query`: `old => new` replaced in the query of a data set (exactly
/// one occurrence with `@once`).
pub open spec fn patch_query_step(t: Seq<char>, data_set: Seq<char>, value: Seq<char>) -> EditStep {
    let (v, once) = once_marker(value);
    match split_once(v, " => "@) {
        None => Err("patch-query value must contain ' => ' separator: old => new"@),
        Some((old, new)) => match patch_query(t, data_set, old, new, once) {
            Err(e) => Err(e),
            Ok((n, count)) => Ok((
                n,
                "[OK] Query patched in dataset \""@ + dataset_label(n, data_set) + "\": replaced '"@ + old + "'"@ + (if once {
                    " (1 occurrence)"@
                } else {
                    " ("@ + nat_text(count) + " occurrence(s))"@
                }) + "\n"@,
                false,
            )),
        },
    }
}

fn op_patch_query(t: &[char], data_set: &[char], value: &[char]) -> (r: Result<(Vec<char>, Vec<char>, bool), Vec<char>>)
    requires
        t@.len() < usize::MAX,
    ensures
        step_done(r, patch_query_step(t@, data_set@, value@)),
{
    let (v, once) = skd_edit_extract_once_marker(value);
    let (old_text, new_text) = match split_once_str(&v, " => ") {
        Some(p) => p,
        None => return Err(chars_of("patch-query value must contain ' => ' separator: old => new")),
    };
    let mut x = to_vec(t);
    assert(split_once(v@, " => "@) == Some((old_text@, new_text@)));
    match skd_edit_patch_query(&mut x, data_set, &old_text, &new_text, once) {
        Err(e) => Err(e),
        Ok(count) => {
            assert(patch_query(t@, data_set@, old_text@, new_text@, once) matches Ok((n, c)) && n == x@ && c == count);
            let label = dataset_label_exec(&x, data_set);
            let mut line = line5("[OK] Query patched in dataset \"", &label, "\": replaced '", &old_text, "'");
            if once {
                push_str(&mut line, " (1 occurrence)");
            } else {
                push_str(&mut line, " (");
                push_chars(&mut line, &crate::numbers::usize_text(count));
                push_str(&mut line, " occurrence(s))");
            }
            push_str(&mut line, "\n");
            proof {
                let suffix = if once { " (1 occurrence)"@ } else { " ("@ + nat_text(count as nat) + " occurrence(s))"@ };
                assert(line@ =~= "[OK] Query patched in dataset \""@ + dataset_label(x@, data_set@) + "\": replaced '"@ + old_text@ + "'"@ + suffix + "\n"@);
                assert(once_marker(value@) == (v@, once));
                assert(patch_query_step(t@, data_set@, value@) == Ok::<(Seq<char>, Seq<char>, bool), Seq<char>>((x@, line@, false)));
            }
            Ok((x, line, false))
        },
    }
}

/// `clear-...`: a settings container emptied.
pub open spec fn clear_step(t: Seq<char>, variant: Seq<char>, container: Seq<char>, label: Seq<char>) -> EditStep {
    match clear_prefixed_container(t, variant, container) {
        Err(e) => Err(e),
        Ok(n) => Ok((n, "[OK] "@ + label + " cleared in variant \""@ + variant_label(n, variant) + "\"\n"@, false)),
    }
}

fn op_clear(t: &[char], variant: &[char], container: &str, label: &str) -> (r: Result<(Vec<char>, Vec<char>, bool), Vec<char>>)
    ensures
        step_done(r, clear_step(t@, variant@, container@, label@)),
{
    let mut x = to_vec(t);
    let c = chars_of(container);
    match skd_edit_clear_prefixed_container(&mut x, variant, &c) {
        Err(e) => Err(e),
        Ok(()) => {
            let vl = variant_label_exec(&x, variant);
            let mut line = chars_of("[OK] ");
            push_str(&mut line, label);
            push_str(&mut line, " cleared in variant \"");
            push_chars(&mut line, &vl);
            push_str(&mut line, "\"\n");
            Ok((x, line, false))
        },
    }
}

/// A field added to the selection of the variant itself.
pub open spec fn variant_selection_step(t: Seq<char>, variant: Seq<char>, field: Seq<char>) -> Result<(Seq<char>, Seq<char>), Seq<char>> {
    let indent = item_indent(t, variant, "dcsset:selection"@, "\t\t\t\t"@);
    match insert_or_create_settings_item(t, variant, "dcsset:selection"@, selection_fragment(field, indent)) {
        Err(e) => Err(e),
        Ok(n) => Ok((n, "[OK] Selection \""@ + field + "\" added to variant \""@ + variant_label(n, variant) + "\"\n"@)),
    }
}

fn variant_selection(x: &mut Vec<char>, variant: &[char], field: &[char]) -> (r: Result<Vec<char>, Vec<char>>)
    ensures
        match variant_selection_step(old(x)@, variant@, field@) {
            Ok((n, m)) => r matches Ok(msg) && msg@ == m && final(x)@ == n,
            Err(e) => r matches Err(y) && y@ == e,
        },
{
    let indent = item_indent_exec(x, variant, "dcsset:selection", "\t\t\t\t");
    let fragment = skd_edit_selection_fragment(field, &indent);
    let c = chars_of("dcsset:selection");
    match skd_edit_insert_or_create_settings_item(x, variant, &c, &fragment) {
        Err(e) => Err(e),
        Ok(()) => {
            let vl = variant_label_exec(x, variant);
            Ok(line5("[OK] Selection \"", field, "\" added to variant \"", &vl, "\"\n"))
        },
    }
}

/// `add-selection`: a field added to the selection of a named group
/// (`Field @group=Name`) or, without a group or when the group is missing, of
/// the variant.
pub open spec fn add_selection_step(t: Seq<char>, variant: Seq<char>, value: Seq<char>) -> EditStep {
    let (field, group) = selection_value(value);
    match group {
        Some(g) => match insert_selection_into_group(t, variant, g, field) {
            Err(e) => Err(e),
            Ok(Some(n)) => Ok((n, "[OK] Selection \""@ + field + "\" added to group \""@ + g + "\"\n"@, false)),
            Ok(None) => match variant_selection_step(t, variant, field) {
                Err(e) => Err(e),
                Ok((n, m)) => Ok((
                    n,
                    "[WARN] StructureItemGroup \""@ + g + "\" not found -- adding to variant level\n"@ + m,
                    false,
                )),
            },
        },
        None => match variant_selection_step(t, variant, field) {
            Err(e) => Err(e),
            Ok((n, m)) => Ok((n, m, false)),
        },
    }
}

fn op_add_selection(t: &[char], variant: &[char], value: &[char]) -> (r: Result<(Vec<char>, Vec<char>, bool), Vec<char>>)
    ensures
        step_done(r, add_selection_step(t@, variant@, value@)),
{
    let parsed = skd_edit_parse_selection_value(value);
    let mut x = to_vec(t);
    match &parsed.group {
        Some(g) => match skd_edit_insert_selection_into_group(&mut x, variant, g, &parsed.field) {
            Err(e) => Err(e),
            Ok(true) => Ok((x, line5("[OK] Selection \"", &parsed.field, "\" added to group \"", g, "\"\n"), false)),
            Ok(false) => {
                let mut out = line3("[WARN] StructureItemGroup \"", g, "\" not found -- adding to variant level\n");
                match variant_selection(&mut x, variant, &parsed.field) {
                    Err(e) => Err(e),
                    Ok(m) => {
                        push_chars(&mut out, &m);
                        Ok((x, out, false))
                    },
                }
            },
        },
        None => match variant_selection(&mut x, variant, &parsed.field) {
            Err(e) => Err(e),
            Ok(m) => Ok((x, m, false)),
        },
    }
}

/// `add-order`: an order item added to the variant.
pub open spec fn add_order_step(t: Seq<char>, variant: Seq<char>, value: Seq<char>) -> EditStep {
    let indent = item_indent(t, variant, "dcsset:order"@, "\t\t\t\t"@);
    match insert_or_create_settings_item(t, variant, "dcsset:order"@, order_fragment(value, indent)) {
        Err(e) => Err(e),
        Ok(n) => Ok((
            n,
            "[OK] Order \""@ + order_description(value) + "\" added to variant \""@ + variant_label(n, variant) + "\"\n"@,
            false,
        )),
    }
}

fn op_add_order(t: &[char], variant: &[char], value: &[char]) -> (r: Result<(Vec<char>, Vec<char>, bool), Vec<char>>)
    ensures
        step_done(r, add_order_step(t@, variant@, value@)),
{
    let indent = item_indent_exec(t, variant, "dcsset:order", "\t\t\t\t");
    let fragment = skd_edit_order_fragment(value, &indent);
    let desc = skd_edit_order_description(value);
    let mut x = to_vec(t);
    let c = chars_of("dcsset:order");
    match skd_edit_insert_or_create_settings_item(&mut x, variant, &c, &fragment) {
        Err(e) => Err(e),
        Ok(()) => {
            let vl = variant_label_exec(&x, variant);
            Ok((x, line5("[OK] Order \"", &desc, "\" added to variant \"", &vl, "\"\n"), false))
        },
    }
}

/// `add-dataSetLink`: a link between two data sets, added before the first
/// root element that comes after links.
pub open spec fn data_set_link_step(t: Seq<char>, link: crate::skd_values::SkdEditDataSetLink) -> EditStep {
    match insert_before_first_root_child(
        t,
        seq!["calculatedField"@, "totalField"@, "parameter"@, "template"@, "groupTemplate"@, "settingsVariant"@],
        join(crate::skd_fragments::data_set_link_lines(link, "\t"@), "\n"@),
    ) {
        Err(e) => Err(e),
        Ok(n) => Ok((
            n,
            "[OK] DataSetLink \""@ + link.source@ + " > "@ + link.dest@ + " on "@ + link.source_expr@ + " = "@ + link.dest_expr@
                + (if link.parameter@.len() > 0 { " [param "@ + link.parameter@ + "]"@ } else { Seq::empty() }) + "\" added\n"@,
            false,
        )),
    }
}

/// The link parsed from a value, as `data_set_link` gives its parts.
pub open spec fn link_parsed(l: crate::skd_values::SkdEditDataSetLink, value: Seq<char>) -> bool {
    crate::skd_values::data_set_link(value) == Ok::<_, Seq<char>>((l.source@, l.dest@, l.source_expr@, l.dest_expr@, l.parameter@))
}

/// The result of `add-dataSetLink`: the parse error, or the link added.
pub open spec fn add_data_set_link_done(r: Result<(Vec<char>, Vec<char>, bool), Vec<char>>, t: Seq<char>, value: Seq<char>) -> bool {
    match crate::skd_values::data_set_link(value) {
        Err(e) => r matches Err(x) && x@ == e,
        Ok(_) => exists|l: crate::skd_values::SkdEditDataSetLink| link_parsed(l, value) && step_done(r, #[trigger] data_set_link_step(t, l)),
    }
}

fn op_add_data_set_link(t: &[char], value: &[char]) -> (r: Result<(Vec<char>, Vec<char>, bool), Vec<char>>)
    ensures
        add_data_set_link_done(r, t@, value@),
{
    let link = match crate::skd_values::skd_edit_parse_data_set_link(value) {
        Ok(l) => l,
        Err(e) => return Err(e),
    };
    let fragment = crate::skd_fragments::skd_edit_data_set_link_fragment(&link, &chars_of("\t"));
    let mut x = to_vec(t);
    let before: [&'static str; 6] = ["calculatedField", "totalField", "parameter", "template", "groupTemplate", "settingsVariant"];
    proof {
        assert(lit_views(before@) =~= seq!["calculatedField"@, "totalField"@, "parameter"@, "template"@, "groupTemplate"@, "settingsVariant"@]);
    }
    match skd_edit_insert_before_first_root_child(&mut x, &before, &fragment) {
        Err(e) => {
            assert(step_done(Err::<(Vec<char>, Vec<char>, bool), Vec<char>>(e), data_set_link_step(t@, link)));
            Err(e)
        },
        Ok(()) => {
            let mut desc = chars_of("[OK] DataSetLink \"");
            push_chars(&mut desc, &link.source);
            push_str(&mut desc, " > ");
            push_chars(&mut desc, &link.dest);
            push_str(&mut desc, " on ");
            push_chars(&mut desc, &link.source_expr);
            push_str(&mut desc, " = ");
            push_chars(&mut desc, &link.dest_expr);
            let ghost d0 = desc@;
            if link.parameter.len() > 0 {
                push_str(&mut desc, " [param ");
                push_chars(&mut desc, &link.parameter);
                push_str(&mut desc, "]");
            }
            push_str(&mut desc, "\" added\n");
            let ghost l = link;
            assert(desc@ =~= "[OK] DataSetLink \""@ + l.source@ + " > "@ + l.dest@ + " on "@ + l.source_expr@ + " = "@ + l.dest_expr@
                + (if l.parameter@.len() > 0 { " [param "@ + l.parameter@ + "]"@ } else { Seq::<char>::empty() }) + "\" added\n"@);
            let r = Ok((x, desc, false));
            assert(step_done(r, data_set_link_step(t@, l)));
            r
        },
    }
}

/// `add-dataSet`: a query data set added unless one with its name exists; its
/// data source is the schema's first one (`ИсточникДанных1` when there is none).
pub open spec fn add_data_set_step(t: Seq<char>, name: Seq<char>, query: Seq<char>) -> EditStep {
    if top_level_contains(t, "dataSet"@, "name"@, name) {
        Ok((t, "[WARN] DataSet \""@ + name + "\" already exists -- skipped\n"@, false))
    } else {
        let source = match first_data_source(t) {
            Some(s) => s,
            None => "ИсточникДанных1"@,
        };
        match insert_before_first_root_child(
            t,
            seq!["dataSetLink"@, "calculatedField"@, "totalField"@, "parameter"@, "settingsVariant"@],
            data_set_fragment(name, query, source, "\t"@),
        ) {
            Err(e) => Err(e),
            Ok(n) => Ok((n, "[OK] DataSet \""@ + name + "\" added (dataSource="@ + source + ")\n"@, false)),
        }
    }
}

/// Adds a data set (its query already read when it named a file).
pub fn skd_edit_add_data_set(t: &[char], data_set: &SkdEditDataSet) -> (r: Result<(Vec<char>, Vec<char>, bool), Vec<char>>)
    ensures
        step_done(r, add_data_set_step(t@, data_set.name@, data_set.query@)),
{
    let item = chars_of("dataSet");
    let child = chars_of("name");
    if skd_edit_top_level_contains(t, &item, &child, &data_set.name) {
        return Ok((to_vec(t), line3("[WARN] DataSet \"", &data_set.name, "\" already exists -- skipped\n"), false));
    }
    let source = match skd_edit_first_data_source(t) {
        Some(s) => s,
        None => chars_of("ИсточникДанных1"),
    };
    let fragment = skd_edit_data_set_fragment(&data_set.name, &data_set.query, &source, &chars_of("\t"));
    let mut x = to_vec(t);
    let before: [&'static str; 5] = ["dataSetLink", "calculatedField", "totalField", "parameter", "settingsVariant"];
    proof {
        assert(lit_views(before@) =~= seq!["dataSetLink"@, "calculatedField"@, "totalField"@, "parameter"@, "settingsVariant"@]);
    }
    match skd_edit_insert_before_first_root_child(&mut x, &before, &fragment) {
        Err(e) => Err(e),
        Ok(()) => Ok((x, line5("[OK] DataSet \"", &data_set.name, "\" added (dataSource=", &source, ")\n"), false)),
    }
}

/// `add-variant`: a settings variant `Name [Presentation]` added unless it
/// exists.
pub open spec fn add_variant_step(t: Seq<char>, value: Seq<char>) -> EditStep {
    let (name, presentation) = variant_value(value);
    if variant_block_has_name(t, name) {
        Ok((t, "[WARN] Variant \""@ + name + "\" already exists -- skipped\n"@, false))
    } else {
        match insert_before_root_close(t, join(variant_lines(name, presentation, "\t"@), "\n"@)) {
            Err(e) => Err(e),
            Ok(n) => Ok((n, "[OK] Variant \""@ + name + "\" [\""@ + presentation + "\"] added\n"@, false)),
        }
    }
}

fn op_add_variant(t: &[char], value: &[char]) -> (r: Result<(Vec<char>, Vec<char>, bool), Vec<char>>)
    ensures
        step_done(r, add_variant_step(t@, value@)),
{
    let parsed = skd_edit_parse_variant(value);
    if skd_edit_variant_exists(t, &parsed.name) {
        return Ok((to_vec(t), line3("[WARN] Variant \"", &parsed.name, "\" already exists -- skipped\n"), false));
    }
    let fragment = skd_edit_variant_fragment(&parsed, &chars_of("\t"));
    let mut x = to_vec(t);
    match skd_edit_insert_before_root_close(&mut x, &fragment) {
        Err(e) => Err(e),
        Ok(()) => Ok((x, line5("[OK] Variant \"", &parsed.name, "\" [\"", &parsed.presentation, "\"] added\n"), false)),
    }
}

/// `add-drilldown`: a drill-down parameter for a resource; the file is saved
/// whatever came of it.
pub open spec fn add_drilldown_step(t: Seq<char>, value: Seq<char>) -> EditStep {
    let (n, res) = add_drilldown(t, value);
    Ok((
        n,
        match res {
            SkdEditDrilldownResult::Added => "[OK] DrillDown added for \""@ + value + "\"\n"@,
            SkdEditDrilldownResult::NoNamedTemplates => "[WARN] No named templates found in schema\n"@,
            SkdEditDrilldownResult::NoMatch => Seq::empty(),
        },
        true,
    ))
}

fn op_add_drilldown(t: &[char], value: &[char]) -> (r: Result<(Vec<char>, Vec<char>, bool), Vec<char>>)
    ensures
        step_done(r, add_drilldown_step(t@, value@)),
{
    let mut x = to_vec(t);
    let out = match skd_edit_add_drilldown(&mut x, value) {
        SkdEditDrilldownResult::Added => line3("[OK] DrillDown added for \"", value, "\"\n"),
        SkdEditDrilldownResult::NoNamedTemplates => chars_of("[WARN] No named templates found in schema\n"),
        SkdEditDrilldownResult::NoMatch => Vec::new(),
    };
    Ok((x, out, true))
}

/// A removed field or calculated field also removed from the variant's
/// selection, with a line when it was there.
pub open spec fn selection_removal(t: Seq<char>, variant: Seq<char>, value: Seq<char>, out: Seq<char>) -> EditStep {
    match remove_selection_field(t, variant, value) {
        Err(e) => Err(e),
        Ok(Some(n)) => Ok((
            n,
            out + "[OK] Field \""@ + value + "\" removed from selection of variant \""@ + variant_label(n, variant) + "\"\n"@,
            false,
        )),
        Ok(None) => Ok((t, out, false)),
    }
}

fn remove_from_selection(x: Vec<char>, variant: &[char], value: &[char], out: Vec<char>) -> (r: Result<(Vec<char>, Vec<char>, bool), Vec<char>>)
    ensures
        step_done(r, selection_removal(x@, variant@, value@, out@)),
{
    let mut x = x;
    let mut out = out;
    let ghost t0 = x@;
    let ghost o0 = out@;
    match skd_edit_remove_prefixed_selection_field(&mut x, variant, value) {
        Err(e) => Err(e),
        Ok(true) => {
            let vl = variant_label_exec(&x, variant);
            let line = line5("[OK] Field \"", value, "\" removed from selection of variant \"", &vl, "\"\n");
            push_chars(&mut out, &line);
            assert(out@ =~= o0 + "[OK] Field \""@ + value@ + "\" removed from selection of variant \""@ + variant_label(x@, variant@) + "\"\n"@);
            Ok((x, out, false))
        },
        Ok(false) => Ok((x, out, false)),
    }
}

/// `remove-field`: a field removed from a data set and from the selection.
pub open spec fn remove_field_step(t: Seq<char>, data_set: Seq<char>, variant: Seq<char>, value: Seq<char>) -> EditStep {
    match remove_dataset_item(t, data_set, "field"@, "dataPath"@, value) {
        Err(e) => Err(e),
        Ok(Some(n)) => selection_removal(
            n,
            variant,
            value,
            "[OK] Field \""@ + value + "\" removed from dataset \""@ + dataset_label(n, data_set) + "\"\n"@,
        ),
        Ok(None) => selection_removal(
            t,
            variant,
            value,
            "[WARN] Field \""@ + value + "\" not found in dataset \""@ + dataset_label(t, data_set) + "\"\n"@,
        ),
    }
}

fn op_remove_field(t: &[char], data_set: &[char], variant: &[char], value: &[char]) -> (r: Result<(Vec<char>, Vec<char>, bool), Vec<char>>)
    ensures
        step_done(r, remove_field_step(t@, data_set@, variant@, value@)),
{
    let mut x = to_vec(t);
    let item = chars_of("field");
    let child = chars_of("dataPath");
    match skd_edit_remove_dataset_item(&mut x, data_set, &item, &child, value) {
        Err(e) => Err(e),
        Ok(removed) => {
            let dl = dataset_label_exec(&x, data_set);
            let out = if removed {
                line5("[OK] Field \"", value, "\" removed from dataset \"", &dl, "\"\n")
            } else {
                line5("[WARN] Field \"", value, "\" not found in dataset \"", &dl, "\"\n")
            };
            remove_from_selection(x, variant, value, out)
        },
    }
}

/// `remove-...` of a root element (parameter, total field): removed, or a
/// warning that it is missing.
pub open spec fn remove_root_step(t: Seq<char>, item: Seq<char>, child: Seq<char>, label: Seq<char>, value: Seq<char>) -> Result<(Seq<char>, Seq<char>), Seq<char>> {
    match remove_item_by_child(t, (0, t.len() as int), item, child, value) {
        Err(e) => Err(e),
        Ok(Some(n)) => Ok((n, "[OK] "@ + label + " \""@ + value + "\" removed\n"@)),
        Ok(None) => Ok((t, "[WARN] "@ + label + " \""@ + value + "\" not found\n"@)),
    }
}

fn remove_root(t: &[char], item: &str, child: &str, label: &str, value: &[char]) -> (r: Result<(Vec<char>, Vec<char>), Vec<char>>)
    ensures
        match remove_root_step(t@, item@, child@, label@, value@) {
            Ok((n, m)) => r matches Ok((a, b)) && a@ == n && b@ == m,
            Err(e) => r matches Err(x) && x@ == e,
        },
{
    let mut x = to_vec(t);
    let i = chars_of(item);
    let c = chars_of(child);
    match skd_edit_remove_top_level_item(&mut x, &i, &c, value) {
        Err(e) => Err(e),
        Ok(removed) => {
            let mut line = chars_of("[OK] ");
            if !removed {
                line = chars_of("[WARN] ");
            }
            push_str(&mut line, label);
            push_str(&mut line, " \"");
            push_chars(&mut line, value);
            if removed {
                push_str(&mut line, "\" removed\n");
            } else {
                push_str(&mut line, "\" not found\n");
            }
            Ok((x, line))
        },
    }
}

/// `remove-parameter` / `remove-total`.
pub open spec fn remove_simple_step(t: Seq<char>, item: Seq<char>, child: Seq<char>, label: Seq<char>, value: Seq<char>) -> EditStep {
    match remove_root_step(t, item, child, label, value) {
        Err(e) => Err(e),
        Ok((n, m)) => Ok((n, m, false)),
    }
}

fn op_remove_simple(t: &[char], item: &str, child: &str, label: &str, value: &[char]) -> (r: Result<(Vec<char>, Vec<char>, bool), Vec<char>>)
    ensures
        step_done(r, remove_simple_step(t@, item@, child@, label@, value@)),
{
    match remove_root(t, item, child, label, value) {
        Err(e) => Err(e),
        Ok((x, m)) => Ok((x, m, false)),
    }
}

/// `remove-calculated-field`: removed from the root and from the selection.
pub open spec fn remove_calculated_field_step(t: Seq<char>, variant: Seq<char>, value: Seq<char>) -> EditStep {
    match remove_root_step(t, "calculatedField"@, "dataPath"@, "CalculatedField"@, value) {
        Err(e) => Err(e),
        Ok((n, m)) => selection_removal(n, variant, value, m),
    }
}

fn op_remove_calculated_field(t: &[char], variant: &[char], value: &[char]) -> (r: Result<(Vec<char>, Vec<char>, bool), Vec<char>>)
    ensures
        step_done(r, remove_calculated_field_step(t@, variant@, value@)),
{
    match remove_root(t, "calculatedField", "dataPath", "CalculatedField", value) {
        Err(e) => Err(e),
        Ok((x, m)) => remove_from_selection(x, variant, value, m),
    }
}

/// `remove-filter`: the filter item on a field removed from the variant.
pub open spec fn remove_filter_step(t: Seq<char>, variant: Seq<char>, value: Seq<char>) -> EditStep {
    match crate::skd_xml::prefixed_container_range(t, variant, "dcsset:filter"@) {
        Err(e) => Err(e),
        Ok(x) => match remove_item_by_child(t, (x.1, x.2), "dcsset:item"@, "dcsset:left"@, value) {
            Err(e) => Err(e),
            Ok(Some(n)) => Ok((
                n,
                "[OK] Filter for \""@ + value + "\" removed from variant \""@ + variant_label(n, variant) + "\"\n"@,
                false,
            )),
            Ok(None) => Ok((
                t,
                "[WARN] Filter for \""@ + value + "\" not found in variant \""@ + variant_label(t, variant) + "\"\n"@,
                false,
            )),
        },
    }
}

fn op_remove_filter(t: &[char], variant: &[char], value: &[char]) -> (r: Result<(Vec<char>, Vec<char>, bool), Vec<char>>)
    ensures
        step_done(r, remove_filter_step(t@, variant@, value@)),
{
    let c = chars_of("dcsset:filter");
    let range = match crate::skd_xml::skd_edit_prefixed_container_range(t, variant, &c) {
        Ok(x) => x,
        Err(e) => return Err(e),
    };
    let mut x = to_vec(t);
    let item = chars_of("dcsset:item");
    let child = chars_of("dcsset:left");
    match skd_edit_remove_item_by_child(&mut x, (range.open_end, range.close_start), &item, &child, value) {
        Err(e) => Err(e),
        Ok(removed) => {
            let vl = variant_label_exec(&x, variant);
            let line = if removed {
                line5("[OK] Filter for \"", value, "\" removed from variant \"", &vl, "\"\n")
            } else {
                line5("[WARN] Filter for \"", value, "\" not found in variant \"", &vl, "\"\n")
            };
            Ok((x, line, false))
        },
    }
}

/// An edit whose report lines come from the edit itself.
pub open spec fn reported_step(s: (Seq<char>, Seq<char>, Result<(), Seq<char>>)) -> EditStep {
    match s.2 {
        Ok(()) => Ok((s.0, s.1, false)),
        Err(e) => Err(e),
    }
}

fn op_set_field_role(t: &[char], data_set: &[char], value: &[char]) -> (r: Result<(Vec<char>, Vec<char>, bool), Vec<char>>)
    ensures
        step_done(r, reported_step(set_field_role(t@, data_set@, value@))),
{
    let mut x = to_vec(t);
    let mut out: Vec<char> = Vec::new();
    let res = skd_edit_set_field_role(&mut x, data_set, value, &mut out);
    assert(out@.subrange(0, out@.len() as int) =~= out@);
    match res {
        Ok(()) => Ok((x, out, false)),
        Err(e) => Err(e),
    }
}

fn op_rename_parameter(t: &[char], value: &[char]) -> (r: Result<(Vec<char>, Vec<char>, bool), Vec<char>>)
    ensures
        step_done(r, reported_step(rename_parameter(t@, value@))),
{
    let mut x = to_vec(t);
    let mut out: Vec<char> = Vec::new();
    let res = skd_edit_rename_parameter(&mut x, value, &mut out);
    assert(out@.subrange(0, out@.len() as int) =~= out@);
    match res {
        Ok(()) => Ok((x, out, false)),
        Err(e) => Err(e),
    }
}

pub open spec fn reorder_step(t: Seq<char>, value: Seq<char>) -> EditStep {
    let (n, out) = reorder_parameters(t, value);
    Ok((n, out, false))
}

fn op_reorder_parameters(t: &[char], value: &[char]) -> (r: Result<(Vec<char>, Vec<char>, bool), Vec<char>>)
    ensures
        step_done(r, reorder_step(t@, value@)),
{
    let mut x = to_vec(t);
    let mut out: Vec<char> = Vec::new();
    let _ = skd_edit_reorder_parameters(&mut x, value, &mut out);
    assert(out@ =~= Seq::<char>::empty() + out@);
    Ok((x, out, false))
}

/// A parameter parsed from an `add-parameter` value.
pub open spec fn parameter_parsed(r: crate::skd_values::SkdEditParameter, value: Seq<char>) -> bool {
    let (left, values, value_list_allowed) = crate::skd_values::parameter_sides(value);
    let (name_type, title) = crate::skd_values::bracket_title(left);
    let (name, param_type) = crate::skd_values::name_and_type(crate::skd_values::strip_markers(name_type));
    &&& r.name@ == name
    &&& r.title@ == title
    &&& r.param_type@ == param_type
    &&& crate::text::views(r.values@) == values
    &&& r.value_list_allowed == value_list_allowed
    &&& r.auto_dates == crate::text::contains(value, "@autoDates"@)
    &&& r.hidden == crate::text::contains(value, "@hidden"@)
    &&& r.always == crate::text::contains(value, "@always"@)
    &&& crate::skd_values::pair_views(r.available_values@) == crate::skd_values::available_values(value)
    &&& r.expression is None
}

/// The hidden date parameter that a period parameter `parent` brings along:
/// `ДатаНачала` or `ДатаОкончания`, computed from the period.
pub open spec fn auto_parameter(a: crate::skd_values::SkdEditParameter, parent: Seq<char>, suffix: Seq<char>, title: Seq<char>) -> bool {
    &&& a.name@ == suffix
    &&& a.title@ == title
    &&& a.param_type@ == "dateTime"@
    &&& crate::text::views(a.values@) == seq!["0001-01-01T00:00:00"@]
    &&& a.hidden
    &&& !a.always
    &&& !a.value_list_allowed
    &&& a.available_values@.len() == 0
    &&& !a.auto_dates
    &&& opt_view(a.expression) == Some("&"@ + parent + "."@ + suffix)
}

/// The text after adding a parameter quietly (left as it is when that fails).
pub open spec fn quietly_added(t: Seq<char>, a: crate::skd_values::SkdEditParameter) -> Seq<char> {
    match add_top_level_fragment(t, "parameter"@, "name"@, a.name@, join(crate::skd_fragments::parameter_lines(a, "\t"@), "\n"@), Seq::empty()) {
        Ok((n, _)) => n,
        Err(_) => t,
    }
}

/// `add-parameter`: a parameter added, and with `@autoDates` its two date
/// parameters after it.
pub open spec fn add_parameter_step(
    t: Seq<char>,
    p: crate::skd_values::SkdEditParameter,
    start: crate::skd_values::SkdEditParameter,
    end: crate::skd_values::SkdEditParameter,
) -> EditStep {
    match add_top_level_fragment(
        t,
        "parameter"@,
        "name"@,
        p.name@,
        join(crate::skd_fragments::parameter_lines(p, "\t"@), "\n"@),
        "[OK] Parameter \""@ + p.name@ + "\" added\n"@,
    ) {
        Err(e) => Err(e),
        Ok((t1, m1)) => if p.auto_dates {
            Ok((quietly_added(quietly_added(t1, start), end), m1 + "[OK] Auto-parameters \"ДатаНачала\", \"ДатаОкончания\" added\n"@, false))
        } else {
            Ok((t1, m1, false))
        },
    }
}

pub open spec fn add_parameter_done(r: Result<(Vec<char>, Vec<char>, bool), Vec<char>>, t: Seq<char>, value: Seq<char>) -> bool {
    exists|p: crate::skd_values::SkdEditParameter, a: crate::skd_values::SkdEditParameter, b: crate::skd_values::SkdEditParameter|
        parameter_parsed(p, value) && auto_parameter(a, p.name@, "ДатаНачала"@, "Начало периода"@) && auto_parameter(
            b,
            p.name@,
            "ДатаОкончания"@,
            "Конец периода"@,
        ) && step_done(r, #[trigger] add_parameter_step(t, p, a, b))
}

fn auto_date_parameter(parent: &[char], suffix: &str, title: &str) -> (a: crate::skd_values::SkdEditParameter)
    ensures
        auto_parameter(a, parent@, suffix@, title@),
{
    let mut values: Vec<Vec<char>> = Vec::new();
    crate::skd_fragments::push_line(&mut values, chars_of("0001-01-01T00:00:00"));
    let mut expression = chars_of("&");
    push_chars(&mut expression, parent);
    push_str(&mut expression, ".");
    push_str(&mut expression, suffix);
    assert(crate::text::views(values@) =~= seq!["0001-01-01T00:00:00"@]);
    assert(expression@ =~= "&"@ + parent@ + "."@ + suffix@);
    let available: Vec<(Vec<char>, Vec<char>)> = Vec::new();
    assert(available@.len() == 0);
    crate::skd_values::SkdEditParameter {
        name: chars_of(suffix),
        title: chars_of(title),
        param_type: chars_of("dateTime"),
        values,
        hidden: true,
        always: false,
        value_list_allowed: false,
        available_values: available,
        auto_dates: false,
        expression: Some(expression),
    }
}

fn add_quietly(x: &mut Vec<char>, a: &crate::skd_values::SkdEditParameter)
    ensures
        final(x)@ == quietly_added(old(x)@, *a),
{
    let fragment = crate::skd_fragments::skd_edit_parameter_fragment(a, &chars_of("\t"));
    let mut sink: Vec<char> = Vec::new();
    let item = chars_of("parameter");
    let child = chars_of("name");
    let empty: Vec<char> = Vec::new();
    let _ = skd_edit_add_top_level_fragment(x, &item, &child, &a.name, &fragment, &empty, &mut sink);
}

fn op_add_parameter(t: &[char], value: &[char]) -> (r: Result<(Vec<char>, Vec<char>, bool), Vec<char>>)
    ensures
        add_parameter_done(r, t@, value@),
{
    let p = crate::skd_values::skd_edit_parse_parameter(value);
    let a = auto_date_parameter(&p.name, "ДатаНачала", "Начало периода");
    let b = auto_date_parameter(&p.name, "ДатаОкончания", "Конец периода");
    let fragment = crate::skd_fragments::skd_edit_parameter_fragment(&p, &chars_of("\t"));
    let msg = line3("[OK] Parameter \"", &p.name, "\" added\n");
    let mut x = to_vec(t);
    let mut out: Vec<char> = Vec::new();
    let item = chars_of("parameter");
    let child = chars_of("name");
    let ghost spec = add_parameter_step(t@, p, a, b);
    match skd_edit_add_top_level_fragment(&mut x, &item, &child, &p.name, &fragment, &msg, &mut out) {
        Err(e) => {
            assert(step_done(Err(e), spec));
            return Err(e);
        },
        Ok(()) => {},
    }
    assert(out@ =~= Seq::<char>::empty() + out@);
    if p.auto_dates {
        add_quietly(&mut x, &a);
        add_quietly(&mut x, &b);
        push_str(&mut out, "[OK] Auto-parameters \"ДатаНачала\", \"ДатаОкончания\" added\n");
    }
    let r = Ok((x, out, false));
    assert(step_done(r, spec));
    r
}

/// A data parameter parsed from a value.
pub open spec fn data_parameter_parsed(r: crate::skd_values::SkdEditDataParameter, value: Seq<char>, user_setting_id: Seq<char>) -> bool {
    &&& r.use_flag == crate::skd_values::use_flag_of(value)
    &&& opt_view(r.user_setting_id) == (if crate::text::contains(value, "@user"@) {
        Some(user_setting_id)
    } else {
        None
    })
    &&& opt_view(r.view_mode) == (if crate::text::contains(value, "@quickAccess"@) {
        Some("QuickAccess"@)
    } else if crate::text::contains(value, "@normal"@) {
        Some("Normal"@)
    } else {
        None
    })
    &&& match split_once(crate::skd_values::data_parameter_cleaned(value), "="@) {
        Some((a, b)) => r.parameter@ == crate::text::trim(a) && opt_view(r.value) == Some(crate::text::trim(b)),
        None => r.parameter@ == crate::text::trim(crate::skd_values::data_parameter_cleaned(value)) && r.value is None,
    }
}

/// `add-filter`: a filter item added to the variant.
pub open spec fn add_filter_step(t: Seq<char>, variant: Seq<char>, f: crate::skd_values::SkdEditFilter) -> EditStep {
    let indent = item_indent(t, variant, "dcsset:filter"@, "\t\t\t"@);
    match insert_or_create_settings_item(t, variant, "dcsset:filter"@, join(crate::skd_fragments::filter_lines(f, indent), "\n"@)) {
        Err(e) => Err(e),
        Ok(n) => Ok((
            n,
            "[OK] Filter \""@ + f.field@ + " "@ + f.operator@ + "\" added to variant \""@ + variant_label(n, variant) + "\"\n"@,
            false,
        )),
    }
}

pub open spec fn add_filter_done(r: Result<(Vec<char>, Vec<char>, bool), Vec<char>>, t: Seq<char>, variant: Seq<char>, value: Seq<char>, id: Seq<char>) -> bool {
    exists|f: crate::skd_values::SkdEditFilter| crate::skd_values::filter_parsed(f, value, id) && step_done(r, #[trigger] add_filter_step(t, variant, f))
}

fn op_add_filter(t: &[char], variant: &[char], value: &[char], user_setting_id: &[char]) -> (r: Result<(Vec<char>, Vec<char>, bool), Vec<char>>)
    ensures
        add_filter_done(r, t@, variant@, value@, user_setting_id@),
{
    let f = crate::skd_values::skd_edit_parse_filter(value, user_setting_id);
    let indent = item_indent_exec(t, variant, "dcsset:filter", "\t\t\t");
    let fragment = crate::skd_fragments::skd_edit_filter_fragment(&f, &indent);
    let mut x = to_vec(t);
    let c = chars_of("dcsset:filter");
    let ghost spec = add_filter_step(t@, variant@, f);
    match skd_edit_insert_or_create_settings_item(&mut x, variant, &c, &fragment) {
        Err(e) => {
            assert(step_done(Err(e), spec));
            Err(e)
        },
        Ok(()) => {
            let vl = variant_label_exec(&x, variant);
            let mut line = line5("[OK] Filter \"", &f.field, " ", &f.operator, "\" added to variant \"");
            push_chars(&mut line, &vl);
            push_str(&mut line, "\"\n");
            let r = Ok((x, line, false));
            assert(step_done(r, spec));
            r
        },
    }
}

/// `add-dataParameter`: a data parameter item added to the variant.
pub open spec fn add_data_parameter_step(t: Seq<char>, variant: Seq<char>, p: crate::skd_values::SkdEditDataParameter) -> EditStep {
    let indent = item_indent(t, variant, "dcsset:dataParameters"@, "\t\t\t\t"@);
    match insert_or_create_settings_item(t, variant, "dcsset:dataParameters"@, join(crate::skd_fragments::data_parameter_lines(p, indent), "\n"@)) {
        Err(e) => Err(e),
        Ok(n) => Ok((
            n,
            "[OK] DataParameter \""@ + p.parameter@ + "\" added to variant \""@ + variant_label(n, variant) + "\"\n"@,
            false,
        )),
    }
}

pub open spec fn add_data_parameter_done(r: Result<(Vec<char>, Vec<char>, bool), Vec<char>>, t: Seq<char>, variant: Seq<char>, value: Seq<char>, id: Seq<char>) -> bool {
    exists|p: crate::skd_values::SkdEditDataParameter| data_parameter_parsed(p, value, id) && step_done(r, #[trigger] add_data_parameter_step(t, variant, p))
}

fn op_add_data_parameter(t: &[char], variant: &[char], value: &[char], user_setting_id: &[char]) -> (r: Result<(Vec<char>, Vec<char>, bool), Vec<char>>)
    ensures
        add_data_parameter_done(r, t@, variant@, value@, user_setting_id@),
{
    let p = crate::skd_values::skd_edit_parse_data_parameter(value, user_setting_id);
    let indent = item_indent_exec(t, variant, "dcsset:dataParameters", "\t\t\t\t");
    let fragment = crate::skd_fragments::skd_edit_data_parameter_fragment(&p, &indent);
    let mut x = to_vec(t);
    let c = chars_of("dcsset:dataParameters");
    let ghost spec = add_data_parameter_step(t@, variant@, p);
    match skd_edit_insert_or_create_settings_item(&mut x, variant, &c, &fragment) {
        Err(e) => {
            assert(step_done(Err(e), spec));
            Err(e)
        },
        Ok(()) => {
            let vl = variant_label_exec(&x, variant);
            let r = Ok((x, line5("[OK] DataParameter \"", &p.parameter, "\" added to variant \"", &vl, "\"\n"), false));
            assert(step_done(r, spec));
            r
        },
    }
}

/// A conditional appearance item parsed from a value.
pub open spec fn appearance_parsed(r: crate::skd_values::SkdEditConditionalAppearance, value: Seq<char>) -> bool {
    let (parameter, val, fields, conditions) = crate::skd_values::conditional_appearance(value);
    &&& r.parameter@ == parameter
    &&& r.value@ == val
    &&& crate::text::views(r.fields@) == fields
    &&& r.filters@.len() == conditions.len()
    &&& forall|i: int| 0 <= i < conditions.len() ==> crate::skd_values::filter_parsed(
        #[trigger] r.filters@[i],
        conditions[i],
        Seq::empty(),
    )
}

/// `add-conditionalAppearance`: an appearance item added to the variant.
pub open spec fn add_appearance_step(t: Seq<char>, variant: Seq<char>, ca: crate::skd_values::SkdEditConditionalAppearance) -> EditStep {
    let indent = item_indent(t, variant, "dcsset:conditionalAppearance"@, "\t\t\t\t"@);
    match insert_or_create_settings_item(
        t,
        variant,
        "dcsset:conditionalAppearance"@,
        join(crate::skd_fragments::conditional_appearance_lines(ca, indent), "\n"@),
    ) {
        Err(e) => Err(e),
        Ok(n) => Ok((
            n,
            "[OK] ConditionalAppearance \""@ + crate::skd_fragments::conditional_appearance_description(ca) + "\" added to variant \""@
                + variant_label(n, variant) + "\"\n"@,
            false,
        )),
    }
}

pub open spec fn add_appearance_done(r: Result<(Vec<char>, Vec<char>, bool), Vec<char>>, t: Seq<char>, variant: Seq<char>, value: Seq<char>) -> bool {
    exists|ca: crate::skd_values::SkdEditConditionalAppearance| appearance_parsed(ca, value) && step_done(r, #[trigger] add_appearance_step(t, variant, ca))
}

fn op_add_appearance(t: &[char], variant: &[char], value: &[char]) -> (r: Result<(Vec<char>, Vec<char>, bool), Vec<char>>)
    ensures
        add_appearance_done(r, t@, variant@, value@),
{
    let ca = crate::skd_values::skd_edit_parse_conditional_appearance(value);
    let indent = item_indent_exec(t, variant, "dcsset:conditionalAppearance", "\t\t\t\t");
    let fragment = crate::skd_fragments::skd_edit_conditional_appearance_fragment(&ca, &indent);
    let mut x = to_vec(t);
    let c = chars_of("dcsset:conditionalAppearance");
    let ghost spec = add_appearance_step(t@, variant@, ca);
    match skd_edit_insert_or_create_settings_item(&mut x, variant, &c, &fragment) {
        Err(e) => {
            assert(step_done(Err(e), spec));
            Err(e)
        },
        Ok(()) => {
            let desc = crate::skd_fragments::skd_edit_conditional_appearance_description(&ca);
            let vl = variant_label_exec(&x, variant);
            let r = Ok((x, line5("[OK] ConditionalAppearance \"", &desc, "\" added to variant \"", &vl, "\"\n"), false));
            assert(step_done(r, spec));
            r
        },
    }
}

/// `set-outputParameter`: an output parameter set in the variant, replacing
/// the item for the same key.
pub open spec fn output_parameter_step(t: Seq<char>, variant: Seq<char>, p: crate::skd_values::SkdEditOutputParameter) -> EditStep {
    let removal = match crate::skd_xml::prefixed_container_range(t, variant, "dcsset:outputParameters"@) {
        Ok(x) => match remove_item_by_child(t, (x.1, x.2), "dcscor:item"@, "dcscor:parameter"@, p.key@) {
            Err(e) => Err(e),
            Ok(Some(n)) => Ok((n, true)),
            Ok(None) => Ok((t, false)),
        },
        Err(_) => Ok((t, false)),
    };
    match removal {
        Err(e) => Err(e),
        Ok((t1, replaced)) => {
            let indent = item_indent(t1, variant, "dcsset:outputParameters"@, "\t\t\t\t"@);
            match insert_or_create_settings_item(
                t1,
                variant,
                "dcsset:outputParameters"@,
                join(crate::skd_fragments::output_parameter_lines(p, indent), "\n"@),
            ) {
                Err(e) => Err(e),
                Ok(n) => Ok((
                    n,
                    if replaced {
                        "[OK] Replaced outputParameter \""@ + p.key@ + "\" in variant \""@ + variant_label(n, variant) + "\"\n"@
                    } else {
                        "[OK] OutputParameter \""@ + p.key@ + "\" added to variant \""@ + variant_label(n, variant) + "\"\n"@
                    },
                    false,
                )),
            }
        },
    }
}

pub open spec fn output_parameter_done(r: Result<(Vec<char>, Vec<char>, bool), Vec<char>>, t: Seq<char>, variant: Seq<char>, value: Seq<char>) -> bool {
    match split_once(value, "="@) {
        None => r matches Err(x) && x@ == "outputParameter value must contain '='"@,
        Some((a, b)) => exists|p: crate::skd_values::SkdEditOutputParameter|
            p.key@ == crate::text::trim(a) && p.value@ == crate::text::trim(b) && step_done(r, #[trigger] output_parameter_step(t, variant, p)),
    }
}

fn op_output_parameter(t: &[char], variant: &[char], value: &[char]) -> (r: Result<(Vec<char>, Vec<char>, bool), Vec<char>>)
    ensures
        output_parameter_done(r, t@, variant@, value@),
{
    let p = match crate::skd_values::skd_edit_parse_output_parameter(value) {
        Ok(p) => p,
        Err(e) => return Err(e),
    };
    let ghost spec = output_parameter_step(t@, variant@, p);
    let mut x = to_vec(t);
    let mut replaced = false;
    let c = chars_of("dcsset:outputParameters");
    match crate::skd_xml::skd_edit_prefixed_container_range(&x, variant, &c) {
        Ok(range) => {
            let item = chars_of("dcscor:item");
            let child = chars_of("dcscor:parameter");
            match skd_edit_remove_item_by_child(&mut x, (range.open_end, range.close_start), &item, &child, &p.key) {
                Err(e) => {
                    assert(step_done(Err(e), spec));
                    return Err(e);
                },
                Ok(b) => {
                    replaced = b;
                },
            }
        },
        Err(_) => {},
    }
    let ghost t1 = x@;
    let indent = item_indent_exec(&x, variant, "dcsset:outputParameters", "\t\t\t\t");
    let fragment = crate::skd_fragments::skd_edit_output_parameter_fragment(&p, &indent);
    match skd_edit_insert_or_create_settings_item(&mut x, variant, &c, &fragment) {
        Err(e) => {
            assert(step_done(Err(e), spec));
            Err(e)
        },
        Ok(()) => {
            let vl = variant_label_exec(&x, variant);
            let line = if replaced {
                line5("[OK] Replaced outputParameter \"", &p.key, "\" in variant \"", &vl, "\"\n")
            } else {
                line5("[OK] OutputParameter \"", &p.key, "\" added to variant \"", &vl, "\"\n")
            };
            let r = Ok((x, line, false));
            assert(step_done(r, spec));
            r
        },
    }
}

/// A structure parsed from a value: one chain of nested groups, or nothing.
pub open spec fn structure_parsed(items: Seq<crate::skd_values::SkdEditStructureItem>, value: Seq<char>) -> bool {
    &&& crate::skd_values::structure_levels(value).len() == 0 ==> items.len() == 0
    &&& crate::skd_values::structure_levels(value).len() > 0 ==> items.len() == 1 && crate::skd_values::is_chain(
        items[0],
        crate::skd_values::structure_levels(value),
    )
}

/// `set-structure`: the structure of the variant replaced.
pub open spec fn set_structure_step(t: Seq<char>, variant: Seq<char>, value: Seq<char>, items: Seq<crate::skd_values::SkdEditStructureItem>) -> EditStep {
    match crate::skd_edit::replace_structure(t, variant, crate::skd_fragments::structure_fragments(items, "\t\t\t"@)) {
        Err((_, e)) => Err(e),
        Ok(n) => Ok((n, "[OK] Structure set in variant \""@ + variant_label(n, variant) + "\": "@ + value + "\n"@, false)),
    }
}

pub open spec fn set_structure_done(r: Result<(Vec<char>, Vec<char>, bool), Vec<char>>, t: Seq<char>, variant: Seq<char>, value: Seq<char>) -> bool {
    exists|items: Seq<crate::skd_values::SkdEditStructureItem>| structure_parsed(items, value) && step_done(r, #[trigger] set_structure_step(t, variant, value, items))
}

fn op_set_structure(t: &[char], variant: &[char], value: &[char]) -> (r: Result<(Vec<char>, Vec<char>, bool), Vec<char>>)
    ensures
        set_structure_done(r, t@, variant@, value@),
{
    let items = crate::skd_values::skd_edit_parse_structure(value);
    let ghost spec = set_structure_step(t@, variant@, value@, items@);
    let fragments = crate::skd_fragments::skd_edit_structure_fragments(&items, &chars_of("\t\t\t"));
    let mut x = to_vec(t);
    match crate::skd_edit::skd_edit_replace_structure(&mut x, variant, &fragments) {
        Err(e) => {
            assert(step_done(Err(e), spec));
            Err(e)
        },
        Ok(()) => {
            let vl = variant_label_exec(&x, variant);
            let mut line = line5("[OK] Structure set in variant \"", &vl, "\": ", value, "\n");
            let r = Ok((x, line, false));
            assert(step_done(r, spec));
            r
        },
    }
}

pub open spec fn modify_structure_done(r: Result<(Vec<char>, Vec<char>, bool), Vec<char>>, t: Seq<char>, variant: Seq<char>, value: Seq<char>) -> bool {
    exists|items: Seq<crate::skd_values::SkdEditStructureItem>| structure_parsed(items, value) && step_done(
        r,
        #[trigger] reported_step(crate::skd_edit::modify_structure(t, variant, items)),
    )
}

fn op_modify_structure(t: &[char], variant: &[char], value: &[char]) -> (r: Result<(Vec<char>, Vec<char>, bool), Vec<char>>)
    ensures
        modify_structure_done(r, t@, variant@, value@),
{
    let items = crate::skd_values::skd_edit_parse_structure(value);
    let ghost spec = reported_step(crate::skd_edit::modify_structure(t@, variant@, items@));
    let mut x = to_vec(t);
    let mut out: Vec<char> = Vec::new();
    let res = crate::skd_edit::skd_edit_modify_structure(&mut x, variant, &items, &mut out);
    assert(out@.subrange(0, out@.len() as int) =~= out@);
    match res {
        Ok(()) => {
            let r = Ok((x, out, false));
            assert(step_done(r, spec));
            r
        },
        Err(e) => {
            assert(step_done(Err(e), spec));
            Err(e)
        },
    }
}

/// A field parsed from a `modify-field` value.
pub open spec fn field_parsed(r: crate::skd_values::SkdEditField, value: Seq<char>) -> bool {
    let (text, title) = crate::skd_values::field_title_split(value);
    let (data_path, field_type) = crate::skd_values::name_and_type(crate::skd_values::strip_markers(text));
    &&& crate::skd_values::field_view(r) == crate::skd_values::parsed_field(value)
    &&& r.title@ == title
    &&& crate::text::views(r.roles@) == crate::skd_values::marked_with(crate::text::words(text), '@')
    &&& crate::text::views(r.restrict@) == crate::skd_values::marked_with(crate::text::words(text), '#')
    &&& r.data_path@ == data_path
    &&& r.field@ == data_path
    &&& r.field_type@ == field_type
}

/// `modify-field`: a field of a data set rewritten, or a warning that it is
/// missing.
pub open spec fn modify_field_step(t: Seq<char>, data_set: Seq<char>, f: crate::skd_values::SkdEditField) -> EditStep {
    match crate::skd_edit::replace_dataset_field(t, data_set, f) {
        Err((_, e)) => Err(e),
        Ok(Some(n)) => Ok((
            n,
            "[OK] Field \""@ + f.data_path@ + "\" modified in dataset \""@ + dataset_label(n, data_set) + "\"\n"@,
            false,
        )),
        Ok(None) => Ok((
            t,
            "[WARN] Field \""@ + f.data_path@ + "\" not found in dataset \""@ + dataset_label(t, data_set) + "\"\n"@,
            false,
        )),
    }
}

pub open spec fn modify_field_done(r: Result<(Vec<char>, Vec<char>, bool), Vec<char>>, t: Seq<char>, data_set: Seq<char>, value: Seq<char>) -> bool {
    exists|f: crate::skd_values::SkdEditField| field_parsed(f, value) && step_done(r, #[trigger] modify_field_step(t, data_set, f))
}

fn op_modify_field(t: &[char], data_set: &[char], value: &[char]) -> (r: Result<(Vec<char>, Vec<char>, bool), Vec<char>>)
    ensures
        modify_field_done(r, t@, data_set@, value@),
{
    let f = crate::skd_values::skd_edit_parse_field(value);
    let ghost spec = modify_field_step(t@, data_set@, f);
    let mut x = to_vec(t);
    match crate::skd_edit::skd_edit_replace_dataset_field(&mut x, data_set, &f) {
        Err(e) => {
            assert(step_done(Err(e), spec));
            Err(e)
        },
        Ok(found) => {
            let dl = dataset_label_exec(&x, data_set);
            let line = if found {
                line5("[OK] Field \"", &f.data_path, "\" modified in dataset \"", &dl, "\"\n")
            } else {
                line5("[WARN] Field \"", &f.data_path, "\" not found in dataset \"", &dl, "\"\n")
            };
            let r = Ok((x, line, false));
            assert(step_done(r, spec));
            r
        },
    }
}

/// An edit that reports its own lines and says whether to save.
pub open spec fn flagged_step(s: (Seq<char>, Seq<char>, Result<bool, Seq<char>>)) -> EditStep {
    match s.2 {
        Ok(b) => Ok((s.0, s.1, b)),
        Err(e) => Err(e),
    }
}

pub open spec fn modify_filter_done(r: Result<(Vec<char>, Vec<char>, bool), Vec<char>>, t: Seq<char>, variant: Seq<char>, value: Seq<char>, id: Seq<char>) -> bool {
    exists|f: crate::skd_values::SkdEditFilter| crate::skd_values::filter_parsed(f, value, id) && step_done(
        r,
        #[trigger] flagged_step(crate::skd_edit::modify_filter(t, variant, f)),
    )
}

fn op_modify_filter(t: &[char], variant: &[char], value: &[char], user_setting_id: &[char]) -> (r: Result<(Vec<char>, Vec<char>, bool), Vec<char>>)
    ensures
        modify_filter_done(r, t@, variant@, value@, user_setting_id@),
{
    let f = crate::skd_values::skd_edit_parse_filter(value, user_setting_id);
    let ghost spec = flagged_step(crate::skd_edit::modify_filter(t@, variant@, f));
    let mut x = to_vec(t);
    let mut out: Vec<char> = Vec::new();
    let res = crate::skd_edit::skd_edit_modify_filter(&mut x, variant, &f, &mut out);
    assert(out@.subrange(0, out@.len() as int) =~= out@);
    match res {
        Ok(b) => {
            let r = Ok((x, out, b));
            assert(step_done(r, spec));
            r
        },
        Err(e) => {
            assert(step_done(Err(e), spec));
            Err(e)
        },
    }
}

pub open spec fn modify_data_parameter_done(r: Result<(Vec<char>, Vec<char>, bool), Vec<char>>, t: Seq<char>, variant: Seq<char>, value: Seq<char>, id: Seq<char>) -> bool {
    exists|p: crate::skd_values::SkdEditDataParameter| data_parameter_parsed(p, value, id) && step_done(
        r,
        #[trigger] flagged_step(crate::skd_edit::modify_data_parameter(t, variant, p)),
    )
}

fn op_modify_data_parameter(t: &[char], variant: &[char], value: &[char], user_setting_id: &[char]) -> (r: Result<(Vec<char>, Vec<char>, bool), Vec<char>>)
    ensures
        modify_data_parameter_done(r, t@, variant@, value@, user_setting_id@),
{
    let p = crate::skd_values::skd_edit_parse_data_parameter(value, user_setting_id);
    let ghost spec = flagged_step(crate::skd_edit::modify_data_parameter(t@, variant@, p));
    let mut x = to_vec(t);
    let mut out: Vec<char> = Vec::new();
    let res = crate::skd_edit::skd_edit_modify_data_parameter(&mut x, variant, &p, &mut out);
    assert(out@.subrange(0, out@.len() as int) =~= out@);
    match res {
        Ok(b) => {
            let r = Ok((x, out, b));
            assert(step_done(r, spec));
            r
        },
        Err(e) => {
            assert(step_done(Err(e), spec));
            Err(e)
        },
    }
}

/// A parameter patch parsed from a `modify-parameter` value.
pub open spec fn patch_parsed(r: crate::skd_values::SkdEditParameterPatch, value: Seq<char>) -> bool {
    let (parts, title, available) = crate::skd_values::parameter_patch_parts(value);
    let (values, pairs) = crate::skd_values::patch_scan(parts, 1, None, Seq::empty());
    &&& r.hidden == crate::text::contains(value, "@hidden"@)
    &&& r.always == crate::text::contains(value, "@always"@)
    &&& r.title@ == title
    &&& crate::skd_values::pair_views(r.available_values@) == available
    &&& r.name@ == (if parts.len() > 0 {
        parts[0]
    } else {
        Seq::empty()
    })
    &&& crate::skd_values::pair_views(r.simple_pairs@) == pairs
    &&& match (r.values, values) {
        (Some(v), Some(w)) => crate::text::views(v@) == w,
        (None, None) => true,
        _ => false,
    }
}

pub open spec fn modify_parameter_done(r: Result<(Vec<char>, Vec<char>, bool), Vec<char>>, t: Seq<char>, value: Seq<char>) -> bool {
    exists|p: crate::skd_values::SkdEditParameterPatch| patch_parsed(p, value) && step_done(
        r,
        #[trigger] reported_step(crate::skd_parameter::modify_parameter(t, p)),
    )
}

fn op_modify_parameter(t: &[char], value: &[char]) -> (r: Result<(Vec<char>, Vec<char>, bool), Vec<char>>)
    ensures
        modify_parameter_done(r, t@, value@),
{
    let p = crate::skd_values::skd_edit_parse_parameter_patch(value);
    let ghost spec = reported_step(crate::skd_parameter::modify_parameter(t@, p));
    let mut x = to_vec(t);
    let mut out: Vec<char> = Vec::new();
    let res = crate::skd_parameter::skd_edit_modify_parameter(&mut x, &p, &mut out);
    assert(out@ =~= Seq::<char>::empty() + out@);
    match res {
        Ok(()) => {
            let r = Ok((x, out, false));
            assert(step_done(r, spec));
            r
        },
        Err(e) => {
            assert(step_done(Err(e), spec));
            Err(e)
        },
    }
}

/// One operation of the schema editor applied to one value: what each
/// operation does is the specification of its step above; an operation the
/// editor does not know is an error. `id` is the identifier given to a user
/// setting marked `@user`.
pub open spec fn edit_value_done(
    r: Result<(Vec<char>, Vec<char>, bool), Vec<char>>,
    t: Seq<char>,
    op: Seq<char>,
    value: Seq<char>,
    data_set: Seq<char>,
    variant: Seq<char>,
    no_selection: bool,
    id: Seq<char>,
) -> bool {
    if op == "add-field"@ {
        step_done(r, add_field_step(t, data_set, variant, value, no_selection))
    } else if op == "add-total"@ {
        step_done(r, add_total_step(t, value))
    } else if op == "add-calculated-field"@ {
        step_done(r, add_calculated_field_step(t, variant, value, no_selection))
    } else if op == "add-parameter"@ {
        add_parameter_done(r, t, value)
    } else if op == "add-filter"@ {
        add_filter_done(r, t, variant, value, id)
    } else if op == "add-dataParameter"@ {
        add_data_parameter_done(r, t, variant, value, id)
    } else if op == "set-query"@ {
        step_done(r, set_query_step(t, data_set, value))
    } else if op == "patch-query"@ {
        step_done(r, patch_query_step(t, data_set, value))
    } else if op == "clear-selection"@ {
        step_done(r, clear_step(t, variant, "dcsset:selection"@, "Selection"@))
    } else if op == "clear-order"@ {
        step_done(r, clear_step(t, variant, "dcsset:order"@, "Order"@))
    } else if op == "clear-filter"@ {
        step_done(r, clear_step(t, variant, "dcsset:filter"@, "Filter"@))
    } else if op == "clear-conditionalAppearance"@ {
        step_done(r, clear_step(t, variant, "dcsset:conditionalAppearance"@, "ConditionalAppearance"@))
    } else if op == "add-selection"@ {
        step_done(r, add_selection_step(t, variant, value))
    } else if op == "add-order"@ {
        step_done(r, add_order_step(t, variant, value))
    } else if op == "add-dataSetLink"@ {
        add_data_set_link_done(r, t, value)
    } else if op == "add-dataSet"@ {
        step_done(r, add_data_set_step(t, crate::skd_values::data_set_parts(value).0, crate::skd_values::data_set_parts(value).1))
    } else if op == "add-variant"@ {
        step_done(r, add_variant_step(t, value))
    } else if op == "add-conditionalAppearance"@ {
        add_appearance_done(r, t, variant, value)
    } else if op == "add-drilldown"@ {
        step_done(r, add_drilldown_step(t, value))
    } else if op == "set-outputParameter"@ {
        output_parameter_done(r, t, variant, value)
    } else if op == "set-structure"@ {
        set_structure_done(r, t, variant, value)
    } else if op == "modify-structure"@ {
        modify_structure_done(r, t, variant, value)
    } else if op == "remove-field"@ {
        step_done(r, remove_field_step(t, data_set, variant, value))
    } else if op == "remove-parameter"@ {
        step_done(r, remove_simple_step(t, "parameter"@, "name"@, "Parameter"@, value))
    } else if op == "modify-field"@ {
        modify_field_done(r, t, data_set, value)
    } else if op == "set-field-role"@ {
        step_done(r, reported_step(set_field_role(t, data_set, value)))
    } else if op == "modify-filter"@ {
        modify_filter_done(r, t, variant, value, id)
    } else if op == "modify-dataParameter"@ {
        modify_data_parameter_done(r, t, variant, value, id)
    } else if op == "modify-parameter"@ {
        modify_parameter_done(r, t, value)
    } else if op == "rename-parameter"@ {
        step_done(r, reported_step(rename_parameter(t, value)))
    } else if op == "reorder-parameters"@ {
        step_done(r, reorder_step(t, value))
    } else if op == "remove-total"@ {
        step_done(r, remove_simple_step(t, "totalField"@, "dataPath"@, "TotalField"@, value))
    } else if op == "remove-calculated-field"@ {
        step_done(r, remove_calculated_field_step(t, variant, value))
    } else if op == "remove-filter"@ {
        step_done(r, remove_filter_step(t, variant, value))
    } else {
        r matches Err(x) && x@ == "native skd-edit does not support Operation '"@ + op + "' yet"@
    }
}

/// Applies one operation of the schema editor to one value of the text. A
/// query (of `set-query` or `add-dataSet`) is taken as written here; a query
/// naming a file is read by the caller, which then calls
/// `skd_edit_replace_query` or `skd_edit_add_data_set`.
#[verifier::rlimit(60)]
pub fn skd_edit_apply_value(
    t: &[char],
    operation: &[char],
    value: &[char],
    data_set: &[char],
    variant: &[char],
    no_selection: bool,
    user_setting_id: &[char],
) -> (r: Result<(Vec<char>, Vec<char>, bool), Vec<char>>)
    requires
        t@.len() < usize::MAX,
    ensures
        edit_value_done(r, t@, operation@, value@, data_set@, variant@, no_selection, user_setting_id@),
{
    if crate::text::eq_str(operation, "add-field") {
        op_add_field(t, data_set, variant, value, no_selection)
    } else if crate::text::eq_str(operation, "add-total") {
        op_add_total(t, value)
    } else if crate::text::eq_str(operation, "add-calculated-field") {
        op_add_calculated_field(t, variant, value, no_selection)
    } else if crate::text::eq_str(operation, "add-parameter") {
        op_add_parameter(t, value)
    } else if crate::text::eq_str(operation, "add-filter") {
        op_add_filter(t, variant, value, user_setting_id)
    } else if crate::text::eq_str(operation, "add-dataParameter") {
        op_add_data_parameter(t, variant, value, user_setting_id)
    } else if crate::text::eq_str(operation, "set-query") {
        skd_edit_replace_query(t, data_set, value)
    } else if crate::text::eq_str(operation, "patch-query") {
        op_patch_query(t, data_set, value)
    } else if crate::text::eq_str(operation, "clear-selection") {
        op_clear(t, variant, "dcsset:selection", "Selection")
    } else if crate::text::eq_str(operation, "clear-order") {
        op_clear(t, variant, "dcsset:order", "Order")
    } else if crate::text::eq_str(operation, "clear-filter") {
        op_clear(t, variant, "dcsset:filter", "Filter")
    } else if crate::text::eq_str(operation, "clear-conditionalAppearance") {
        op_clear(t, variant, "dcsset:conditionalAppearance", "ConditionalAppearance")
    } else if crate::text::eq_str(operation, "add-selection") {
        op_add_selection(t, variant, value)
    } else if crate::text::eq_str(operation, "add-order") {
        op_add_order(t, variant, value)
    } else if crate::text::eq_str(operation, "add-dataSetLink") {
        op_add_data_set_link(t, value)
    } else if crate::text::eq_str(operation, "add-dataSet") {
        skd_edit_add_data_set(t, &crate::skd_values::skd_edit_parse_data_set(value))
    } else if crate::text::eq_str(operation, "add-variant") {
        op_add_variant(t, value)
    } else if crate::text::eq_str(operation, "add-conditionalAppearance") {
        op_add_appearance(t, variant, value)
    } else if crate::text::eq_str(operation, "add-drilldown") {
        op_add_drilldown(t, value)
    } else if crate::text::eq_str(operation, "set-outputParameter") {
        op_output_parameter(t, variant, value)
    } else if crate::text::eq_str(operation, "set-structure") {
        op_set_structure(t, variant, value)
    } else if crate::text::eq_str(operation, "modify-structure") {
        op_modify_structure(t, variant, value)
    } else if crate::text::eq_str(operation, "remove-field") {
        op_remove_field(t, data_set, variant, value)
    } else if crate::text::eq_str(operation, "remove-parameter") {
        op_remove_simple(t, "parameter", "name", "Parameter", value)
    } else if crate::text::eq_str(operation, "modify-field") {
        op_modify_field(t, data_set, value)
    } else if crate::text::eq_str(operation, "set-field-role") {
        op_set_field_role(t, data_set, value)
    } else if crate::text::eq_str(operation, "modify-filter") {
        op_modify_filter(t, variant, value, user_setting_id)
    } else if crate::text::eq_str(operation, "modify-dataParameter") {
        op_modify_data_parameter(t, variant, value, user_setting_id)
    } else if crate::text::eq_str(operation, "modify-parameter") {
        op_modify_parameter(t, value)
    } else if crate::text::eq_str(operation, "rename-parameter") {
        op_rename_parameter(t, value)
    } else if crate::text::eq_str(operation, "reorder-parameters") {
        op_reorder_parameters(t, value)
    } else if crate::text::eq_str(operation, "remove-total") {
        op_remove_simple(t, "totalField", "dataPath", "TotalField", value)
    } else if crate::text::eq_str(operation, "remove-calculated-field") {
        op_remove_calculated_field(t, variant, value)
    } else if crate::text::eq_str(operation, "remove-filter") {
        op_remove_filter(t, variant, value)
    } else {
        let mut e = chars_of("native skd-edit does not support Operation '");
        push_chars(&mut e, operation);
        push_str(&mut e, "' yet");
        Err(e)
    }
}

/// The text without the byte order marks it starts with.
pub open spec fn without_boms(t: Seq<char>) -> Seq<char>
    decreases t.len(),
{
    if t.len() > 0 && t[0] == '\u{feff}' {
        without_boms(t.drop_first())
    } else {
        t
    }
}

/// A schema text ready to edit: without leading byte order marks, whether its
/// lines end in CR LF; or the error for a text that is not XML.
pub open spec fn prepared_text(raw: Seq<char>) -> Result<(Seq<char>, bool), Seq<char>> {
    let t = without_boms(raw);
    match crate::xml::xml_parse_error(t) {
        Some(e) => Err("[ERROR] XML parse error: "@ + e),
        None => Ok((t, crate::text::contains(t, "\r\n"@))),
    }
}

pub fn skd_edit_prepare_text(raw: &[char]) -> (r: Result<(Vec<char>, bool), Vec<char>>)
    ensures
        match prepared_text(raw@) {
            Ok((t, crlf)) => r matches Ok((a, b)) && a@ == t && b == crlf,
            Err(e) => r matches Err(x) && x@ == e,
        },
{
    let mut k: usize = 0;
    assert(raw@.skip(0) =~= raw@);
    while k < raw.len() && raw[k] == '\u{feff}'
        invariant
            k <= raw@.len(),
            without_boms(raw@) == without_boms(raw@.skip(k as int)),
        decreases raw.len() - k,
    {
        assert(raw@.skip(k as int).drop_first() =~= raw@.skip(k + 1));
        k = k + 1;
    }
    let text = crate::text::slice_to_vec(raw, k, raw.len());
    assert(text@ =~= raw@.skip(k as int));
    match crate::xml::check_xml(&text) {
        Some(e) => {
            let mut msg = chars_of("[ERROR] XML parse error: ");
            push_chars(&mut msg, &e);
            Err(msg)
        },
        None => {
            let crlf = crate::text::contains_str(&text, "\r\n");
            Ok((text, crlf))
        },
    }
}

/// The first occurrence of `p` replaced by `r` (`str::replacen` with one).
pub open spec fn replace_first(t: Seq<char>, p: Seq<char>, r: Seq<char>) -> Seq<char> {
    match crate::text::first_match(t, p, 0, t.len() as int) {
        Some(i) => t.take(i) + r + t.skip(i + p.len()),
        None => t,
    }
}

/// The text to save after an edit, or `None` when nothing changed and saving
/// was not asked for: the encoding name in lower case, the original line
/// endings throughout, and a final line end.
pub open spec fn saved_text(t: Seq<char>, original: Seq<char>, crlf: bool, force: bool) -> Option<Seq<char>> {
    if !force && t == original {
        None
    } else {
        let t1 = replace_first(t, "encoding=\"UTF-8\""@, "encoding=\"utf-8\""@);
        let t2 = if crlf {
            crate::text::replace_all(crate::text::replace_all(t1, "\r\n"@, "\n"@), "\n"@, "\r\n"@)
        } else {
            crate::text::replace_all(t1, "\r\n"@, "\n"@)
        };
        Some(if crate::text::ends_with(t2, "\n"@) {
            t2
        } else {
            t2 + (if crlf { "\r\n"@ } else { "\n"@ })
        })
    }
}

pub fn skd_edit_saved_text(t: &[char], original: &[char], crlf: bool, force: bool) -> (r: Option<Vec<char>>)
    ensures
        crate::skd_xml::opt_seq(r) == saved_text(t@, original@, crlf, force),
{
    if !force && crate::text::eq_chars(t, original) {
        return None;
    }
    proof {
        reveal_strlit("encoding=\"UTF-8\"");
        reveal_strlit("\r\n");
        reveal_strlit("\n");
    }
    let pat = chars_of("encoding=\"UTF-8\"");
    let t1 = match crate::text::find_in(t, &pat, 0, t.len()) {
        Some(i) => {
            proof {
                crate::text::lemma_first_match_bounds(t@, pat@, 0, t@.len() as int);
            }
            let mut v = crate::text::slice_to_vec(t, 0, i);
            push_str(&mut v, "encoding=\"utf-8\"");
            let rest = crate::text::slice_to_vec(t, i + pat.len(), t.len());
            push_chars(&mut v, &rest);
            assert(v@ =~= t@.take(i as int) + "encoding=\"utf-8\""@ + t@.skip(i + pat@.len()));
            v
        },
        None => to_vec(t),
    };
    let mut t2 = if crlf {
        let a = crate::text::replace_str(&t1, "\r\n", "\n");
        crate::text::replace_str(&a, "\n", "\r\n")
    } else {
        crate::text::replace_str(&t1, "\r\n", "\n")
    };
    if !crate::text::ends_with_str(&t2, "\n") {
        push_str(&mut t2, if crlf { "\r\n" } else { "\n" });
    }
    Some(t2)
}

/// The first occurrence of `p` replaced by `r`.
pub fn replace_first_exec(t: &[char], p: &[char], r: &[char]) -> (res: Vec<char>)
    ensures
        res@ == replace_first(t@, p@, r@),
{
    match crate::text::find_in(t, p, 0, t.len()) {
        Some(i) => {
            proof {
                crate::text::lemma_first_match_bounds(t@, p@, 0, t@.len() as int);
            }
            let mut v = crate::text::slice_to_vec(t, 0, i);
            push_chars(&mut v, r);
            let rest = crate::text::slice_to_vec(t, i + p.len(), t.len());
            push_chars(&mut v, &rest);
            assert(v@ =~= t@.take(i as int) + r@ + t@.skip(i + p@.len()));
            v
        },
        None => to_vec(t),
    }
}

/// One value of an edit as the caller hands it over: a value for the
/// operation, a query text already read (`set-query`), a data set whose query
/// was read (`add-dataSet`), or the message of a query file that could not be
/// read.
pub enum EditInput {
    Value(Vec<char>),
    Query(Vec<char>),
    DataSet(SkdEditDataSet),
    Unreadable(Vec<char>),
}

/// What one value of an edit gives on a text.
#[verifier::opaque]
pub open spec fn input_holds(
    r: Result<(Vec<char>, Vec<char>, bool), Vec<char>>,
    t: Seq<char>,
    op: Seq<char>,
    input: EditInput,
    data_set: Seq<char>,
    variant: Seq<char>,
    no_selection: bool,
    id: Seq<char>,
) -> bool {
    match input {
        EditInput::Value(v) => edit_value_done(r, t, op, v@, data_set, variant, no_selection, id),
        EditInput::Query(q) => step_done(r, set_query_step(t, data_set, q@)),
        EditInput::DataSet(d) => step_done(r, add_data_set_step(t, d.name@, d.query@)),
        EditInput::Unreadable(m) => r matches Err(x) && x@ == m@,
    }
}

/// Applies one value of an edit to a text.
fn apply_input(
    t: &[char],
    operation: &[char],
    input: &EditInput,
    data_set: &[char],
    variant: &[char],
    no_selection: bool,
    user_setting_id: &[char],
) -> (r: Result<(Vec<char>, Vec<char>, bool), Vec<char>>)
    requires
        t@.len() < usize::MAX,
    ensures
        input_holds(r, t@, operation@, *input, data_set@, variant@, no_selection, user_setting_id@),
{
    reveal(input_holds);
    match input {
        EditInput::Value(v) => skd_edit_apply_value(t, operation, v, data_set, variant, no_selection, user_setting_id),
        EditInput::Query(q) => skd_edit_replace_query(t, data_set, q),
        EditInput::DataSet(d) => skd_edit_add_data_set(t, d),
        EditInput::Unreadable(m) => Err(to_vec(m)),
    }
}

/// The text before the `i`-th value of a run: the prepared text, or what the
/// value before gave.
pub open spec fn text_before(t0: Seq<char>, done: Seq<(Vec<char>, Vec<char>, bool)>, i: int) -> Seq<char> {
    if i == 0 {
        t0
    } else {
        done[i - 1].0@
    }
}

/// Each value done so far gave its result on the text the one before left.
pub open spec fn run_holds(
    t0: Seq<char>,
    done: Seq<(Vec<char>, Vec<char>, bool)>,
    inputs: Seq<EditInput>,
    op: Seq<char>,
    data_set: Seq<char>,
    variant: Seq<char>,
    no_selection: bool,
    id: Seq<char>,
) -> bool {
    &&& done.len() <= inputs.len()
    &&& forall|i: int|
        0 <= i < done.len() ==> #[trigger] input_holds(
            Ok(done[i]),
            text_before(t0, done, i),
            op,
            inputs[i],
            data_set,
            variant,
            no_selection,
            id,
        )
}

/// The report lines of the values done, one after the other.
pub open spec fn run_output(done: Seq<(Vec<char>, Vec<char>, bool)>) -> Seq<char>
    decreases done.len(),
{
    if done.len() == 0 {
        Seq::empty()
    } else {
        run_output(done.drop_last()) + done.last().1@
    }
}

/// Whether some value done asks for the file to be written though its text is
/// unchanged.
pub open spec fn run_forced(done: Seq<(Vec<char>, Vec<char>, bool)>) -> bool
    decreases done.len(),
{
    if done.len() == 0 {
        false
    } else {
        run_forced(done.drop_last()) || done.last().2
    }
}

/// What a run of an edit gives: see `skd_edit_run`.
pub open spec fn run_done(
    r: Result<(Option<Vec<char>>, Vec<char>), Vec<char>>,
    raw: Seq<char>,
    inputs: Seq<EditInput>,
    operation: Seq<char>,
    data_set: Seq<char>,
    variant: Seq<char>,
    no_selection: bool,
    user_setting_id: Seq<char>,
) -> bool {
    match prepared_text(raw) {
        Err(pe) => r matches Err(e) && e@ == pe,
        Ok((t0, crlf)) => match r {
            Ok((saved, out)) => exists|done: Seq<(Vec<char>, Vec<char>, bool)>|
                {
                    &&& #[trigger] run_holds(t0, done, inputs, operation, data_set, variant, no_selection, user_setting_id)
                    &&& done.len() == inputs.len()
                    &&& crate::skd_xml::opt_seq(saved) == saved_text(text_before(t0, done, done.len() as int), t0, crlf, run_forced(done))
                    &&& out@ == run_output(done) + if saved is None {
                        "[INFO] No changes -- file untouched\n"@
                    } else {
                        Seq::empty()
                    }
                },
            Err(e) => exists|done: Seq<(Vec<char>, Vec<char>, bool)>|
                {
                    &&& #[trigger] run_holds(t0, done, inputs, operation, data_set, variant, no_selection, user_setting_id)
                    &&& done.len() < inputs.len()
                    &&& (input_holds(
                        Err(e),
                        text_before(t0, done, done.len() as int),
                        operation,
                        inputs[done.len() as int],
                        data_set,
                        variant,
                        no_selection,
                        user_setting_id,
                    ) || text_before(t0, done, done.len() as int).len() == usize::MAX)
                },
        },
    }
}

/// Runs an edit over its values, each on the text the one before left. A text
/// that is not XML gives its error; so does the first value that fails, and
/// then no text comes back, though values before it succeeded. When every
/// value succeeded, the text to write comes back (none when nothing changed
/// and no value asked for a write), with the values' report lines and, when
/// nothing is to be written, a line that says so.
pub fn skd_edit_run(
    raw: &[char],
    operation: &[char],
    inputs: &Vec<EditInput>,
    data_set: &[char],
    variant: &[char],
    no_selection: bool,
    user_setting_id: &[char],
) -> (r: Result<(Option<Vec<char>>, Vec<char>), Vec<char>>)
    ensures
        run_done(r, raw@, inputs@, operation@, data_set@, variant@, no_selection, user_setting_id@),
{
    let (mut xml, crlf) = match skd_edit_prepare_text(raw) {
        Ok(p) => p,
        Err(e) => {
            return Err(e);
        },
    };
    let original = to_vec(&xml);
    let ghost t0 = xml@;
    let ghost mut done: Seq<(Vec<char>, Vec<char>, bool)> = Seq::empty();
    let mut force = false;
    let mut out: Vec<char> = Vec::new();
    let mut k: usize = 0;
    while k < inputs.len()
        invariant
            k <= inputs@.len(),
            done.len() == k,
            original@ == t0,
            prepared_text(raw@) == Ok::<(Seq<char>, bool), Seq<char>>((t0, crlf)),
            run_holds(t0, done, inputs@, operation@, data_set@, variant@, no_selection, user_setting_id@),
            xml@ == text_before(t0, done, k as int),
            out@ == run_output(done),
            force == run_forced(done),
        decreases inputs.len() - k,
    {
        if xml.len() == usize::MAX {
            assert(run_holds(t0, done, inputs@, operation@, data_set@, variant@, no_selection, user_setting_id@));
            return Err(chars_of("schema text too long"));
        }
        let step = apply_input(&xml, operation, &inputs[k], data_set, variant, no_selection, user_setting_id);
        match step {
            Ok((next, lines, f)) => {
                let ghost item = (next, lines, f);
                proof {
                    assert(input_holds(
                        Ok(item),
                        text_before(t0, done, k as int),
                        operation@,
                        inputs@[k as int],
                        data_set@,
                        variant@,
                        no_selection,
                        user_setting_id@,
                    ));
                    let ghost before = done;
                    done = done.push(item);
                    assert(done.drop_last() =~= before);
                    assert forall|i: int| 0 <= i < done.len() implies #[trigger] input_holds(
                        Ok(done[i]),
                        text_before(t0, done, i),
                        operation@,
                        inputs@[i],
                        data_set@,
                        variant@,
                        no_selection,
                        user_setting_id@,
                    ) by {
                        if i < before.len() {
                            assert(done[i] == before[i]);
                            assert(text_before(t0, done, i) == text_before(t0, before, i));
                        }
                    }
                }
                push_chars(&mut out, &lines);
                force = force || f;
                xml = next;
                k = k + 1;
            },
            Err(e) => {
                assert(run_holds(t0, done, inputs@, operation@, data_set@, variant@, no_selection, user_setting_id@));
                assert(done.len() < inputs@.len());
                assert(input_holds(
                    Err(e),
                    text_before(t0, done, done.len() as int),
                    operation@,
                    inputs@[done.len() as int],
                    data_set@,
                    variant@,
                    no_selection,
                    user_setting_id@,
                ));
                let r: Result<(Option<Vec<char>>, Vec<char>), Vec<char>> = Err(e);
                assert(run_done(r, raw@, inputs@, operation@, data_set@, variant@, no_selection, user_setting_id@));
                return r;
            },
        }
    }
    let saved = skd_edit_saved_text(&xml, &original, crlf, force);
    if saved.is_none() {
        push_str(&mut out, "[INFO] No changes -- file untouched\n");
    }
    assert(run_holds(t0, done, inputs@, operation@, data_set@, variant@, no_selection, user_setting_id@));
    Ok((saved, out))
}

} // verus!
