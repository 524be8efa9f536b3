//! The XML fragments the DCS editor and compiler write: each is a function of
//! the parsed value and an indentation prefix.
use vstd::prelude::*;
use crate::skd_values::{
    decimal_qualifiers, opt_view, resolve_type, skd_compile_decimal_qualifiers,
    skd_compile_resolve_type, skd_compile_string_length, string_length, SkdEditCalcField,
    total_expression, skd_edit_total_expression,
};
use crate::text::{
    chars_of, contains, escape_xml, escape_xml_exec, join, join_str, lemma_views_push, push_chars,
    push_str, split, split_trim_nonempty, trim, trim_nonempty, views, trim_chars,
};

verus! {

/// `a` followed by the literal `b`.
pub fn lit(a: &[char], b: &str) -> (r: Vec<char>)
    ensures
        r@ == a@ + b@,
{
    let mut r = crate::text::to_vec(a);
    push_str(&mut r, b);
    r
}

/// `a`, literal `b`, `c`, literal `d`: the common `{indent}<tag>{text}</tag>` shape.
pub fn wrap(a: &[char], b: &str, c: &[char], d: &str) -> (r: Vec<char>)
    ensures
        r@ == a@ + b@ + c@ + d@,
{
    let mut r = crate::text::to_vec(a);
    push_str(&mut r, b);
    push_chars(&mut r, c);
    push_str(&mut r, d);
    r
}

/// `{a}{b}{escape(c)}{d}`.
pub fn wrap_escaped(a: &[char], b: &str, c: &[char], d: &str) -> (r: Vec<char>)
    ensures
        r@ == a@ + b@ + escape_xml(c@) + d@,
{
    let e = escape_xml_exec(c);
    wrap(a, b, &e, d)
}

/// Appends a line.
pub fn push_line(lines: &mut Vec<Vec<char>>, line: Vec<char>)
    ensures
        views(final(lines)@) == views(old(lines)@).push(line@),
{
    proof {
        lemma_views_push(lines@, line);
    }
    lines.push(line);
}

/// Appends lines.
pub fn push_lines(lines: &mut Vec<Vec<char>>, more: Vec<Vec<char>>)
    ensures
        views(final(lines)@) == views(old(lines)@) + views(more@),
{
    let ghost start = views(lines@);
    let mut i: usize = 0;
    while i < more.len()
        invariant
            i <= more.len(),
            views(lines@) == start + views(more@).take(i as int),
        decreases more.len() - i,
    {
        let l = more[i].clone();
        push_line(lines, l);
        proof {
            assert(views(more@).take(i + 1) =~= views(more@).take(i as int).push(more@[i as int]@));
        }
        i = i + 1;
    }
    assert(views(more@).take(more.len() as int) =~= views(more@));
}

/// A localized text element: `<tag/>` when empty, else a `v8:LocalStringType`
/// with one Russian item.
pub open spec fn mltext_lines(indent: Seq<char>, tag: Seq<char>, text: Seq<char>) -> Seq<Seq<char>> {
    if text.len() == 0 {
        seq![indent + "<"@ + tag + "/>"@]
    } else {
        seq![
            indent + "<"@ + tag + " xsi:type=\"v8:LocalStringType\">"@,
            indent + "\t<v8:item>"@,
            indent + "\t\t<v8:lang>ru</v8:lang>"@,
            indent + "\t\t<v8:content>"@ + escape_xml(text) + "</v8:content>"@,
            indent + "\t</v8:item>"@,
            indent + "</"@ + tag + ">"@,
        ]
    }
}

pub fn skd_compile_emit_mltext(lines: &mut Vec<Vec<char>>, indent: &[char], tag: &[char], text: &[char])
    ensures
        views(final(lines)@) == views(old(lines)@) + mltext_lines(indent@, tag@, text@),
{
    let ghost start = views(lines@);
    if text.len() == 0 {
        push_line(lines, wrap(indent, "<", tag, "/>"));
        assert(views(lines@) =~= start + mltext_lines(indent@, tag@, text@));
        return;
    }
    push_line(lines, wrap(indent, "<", tag, " xsi:type=\"v8:LocalStringType\">"));
    push_line(lines, lit(indent, "\t<v8:item>"));
    push_line(lines, lit(indent, "\t\t<v8:lang>ru</v8:lang>"));
    push_line(lines, wrap_escaped(indent, "\t\t<v8:content>", text, "</v8:content>"));
    push_line(lines, lit(indent, "\t</v8:item>"));
    push_line(lines, wrap(indent, "</", tag, ">"));
    assert(views(lines@) =~= start + mltext_lines(indent@, tag@, text@));
}

/// The `v8:Type` lines of one resolved type name.
pub open spec fn single_value_type_lines(type_str: Seq<char>, indent: Seq<char>) -> Seq<Seq<char>> {
    let t = resolve_type(type_str);
    if t == "boolean"@ {
        seq![indent + "<v8:Type>xs:boolean</v8:Type>"@]
    } else if t == "StandardPeriod"@ {
        seq![indent + "<v8:Type>v8:StandardPeriod</v8:Type>"@]
    } else if string_length(t) is Some {
        seq![
            indent + "<v8:Type>xs:string</v8:Type>"@,
            indent + "<v8:StringQualifiers>"@,
            indent + "\t<v8:Length>"@ + string_length(t)->0 + "</v8:Length>"@,
            indent + "\t<v8:AllowedLength>Variable</v8:AllowedLength>"@,
            indent + "</v8:StringQualifiers>"@,
        ]
    } else if decimal_qualifiers(t) is Some {
        let (digits, fraction, sign) = decimal_qualifiers(t)->0;
        seq![
            indent + "<v8:Type>xs:decimal</v8:Type>"@,
            indent + "<v8:NumberQualifiers>"@,
            indent + "\t<v8:Digits>"@ + digits + "</v8:Digits>"@,
            indent + "\t<v8:FractionDigits>"@ + fraction + "</v8:FractionDigits>"@,
            indent + "\t<v8:AllowedSign>"@ + sign + "</v8:AllowedSign>"@,
            indent + "</v8:NumberQualifiers>"@,
        ]
    } else if t == "date"@ || t == "dateTime"@ {
        seq![
            indent + "<v8:Type>xs:dateTime</v8:Type>"@,
            indent + "<v8:DateQualifiers>"@,
            indent + "\t<v8:DateFractions>"@ + (if t == "date"@ {
                "Date"@
            } else {
                "DateTime"@
            }) + "</v8:DateFractions>"@,
            indent + "</v8:DateQualifiers>"@,
        ]
    } else if contains(t, "."@) {
        seq![
            indent
                + "<v8:Type xmlns:d5p1=\"http://v8.1c.ru/8.1/data/enterprise/current-config\">d5p1:"@
                + escape_xml(t) + "</v8:Type>"@,
        ]
    } else {
        seq![indent + "<v8:Type>"@ + escape_xml(t) + "</v8:Type>"@]
    }
}

pub fn skd_compile_emit_single_value_type(lines: &mut Vec<Vec<char>>, type_str: &[char], indent: &[char])
    ensures
        views(final(lines)@) == views(old(lines)@) + single_value_type_lines(type_str@, indent@),
{
    let ghost start = views(lines@);
    let t = skd_compile_resolve_type(type_str);
    if crate::text::eq_str(&t, "boolean") {
        push_line(lines, lit(indent, "<v8:Type>xs:boolean</v8:Type>"));
        assert(views(lines@) =~= start + single_value_type_lines(type_str@, indent@));
        return;
    }
    if crate::text::eq_str(&t, "StandardPeriod") {
        push_line(lines, lit(indent, "<v8:Type>v8:StandardPeriod</v8:Type>"));
        assert(views(lines@) =~= start + single_value_type_lines(type_str@, indent@));
        return;
    }
    if let Some(length) = skd_compile_string_length(&t) {
        push_line(lines, lit(indent, "<v8:Type>xs:string</v8:Type>"));
        push_line(lines, lit(indent, "<v8:StringQualifiers>"));
        push_line(lines, wrap(indent, "\t<v8:Length>", &length, "</v8:Length>"));
        push_line(lines, lit(indent, "\t<v8:AllowedLength>Variable</v8:AllowedLength>"));
        push_line(lines, lit(indent, "</v8:StringQualifiers>"));
        assert(views(lines@) =~= start + single_value_type_lines(type_str@, indent@));
        return;
    }
    if let Some((digits, fraction, sign)) = skd_compile_decimal_qualifiers(&t) {
        let sv = chars_of(sign);
        push_line(lines, lit(indent, "<v8:Type>xs:decimal</v8:Type>"));
        push_line(lines, lit(indent, "<v8:NumberQualifiers>"));
        push_line(lines, wrap(indent, "\t<v8:Digits>", &digits, "</v8:Digits>"));
        push_line(lines, wrap(indent, "\t<v8:FractionDigits>", &fraction, "</v8:FractionDigits>"));
        push_line(lines, wrap(indent, "\t<v8:AllowedSign>", &sv, "</v8:AllowedSign>"));
        push_line(lines, lit(indent, "</v8:NumberQualifiers>"));
        assert(views(lines@) =~= start + single_value_type_lines(type_str@, indent@));
        return;
    }
    let is_date = crate::text::eq_str(&t, "date");
    if is_date || crate::text::eq_str(&t, "dateTime") {
        let fractions = if is_date {
            chars_of("Date")
        } else {
            chars_of("DateTime")
        };
        push_line(lines, lit(indent, "<v8:Type>xs:dateTime</v8:Type>"));
        push_line(lines, lit(indent, "<v8:DateQualifiers>"));
        push_line(lines, wrap(indent, "\t<v8:DateFractions>", &fractions, "</v8:DateFractions>"));
        push_line(lines, lit(indent, "</v8:DateQualifiers>"));
        assert(views(lines@) =~= start + single_value_type_lines(type_str@, indent@));
        return;
    }
    if crate::text::contains_str(&t, ".") {
        push_line(
            lines,
            wrap_escaped(
                indent,
                "<v8:Type xmlns:d5p1=\"http://v8.1c.ru/8.1/data/enterprise/current-config\">d5p1:",
                &t,
                "</v8:Type>",
            ),
        );
    } else {
        push_line(lines, wrap_escaped(indent, "<v8:Type>", &t, "</v8:Type>"));
    }
    assert(views(lines@) =~= start + single_value_type_lines(type_str@, indent@));
}

/// The type lines of each `|`-separated part, in order.
pub open spec fn value_type_parts_lines(parts: Seq<Seq<char>>, indent: Seq<char>) -> Seq<Seq<char>>
    decreases parts.len(),
{
    if parts.len() == 0 {
        Seq::empty()
    } else {
        value_type_parts_lines(parts.drop_last(), indent) + single_value_type_lines(
            parts.last(),
            indent,
        )
    }
}

/// The `v8:Type` lines of a type spec `t1 | t2`.
pub open spec fn value_type_lines(type_spec: Seq<char>, indent: Seq<char>) -> Seq<Seq<char>> {
    value_type_parts_lines(trim_nonempty(split(type_spec, "|"@)), indent)
}

pub fn skd_compile_emit_value_type(lines: &mut Vec<Vec<char>>, type_spec: &[char], indent: &[char])
    ensures
        views(final(lines)@) == views(old(lines)@) + value_type_lines(type_spec@, indent@),
{
    proof {
        reveal_strlit("|");
    }
    let parts = split_trim_nonempty(type_spec, "|");
    let ghost start = views(lines@);
    let ghost ps = views(parts@);
    let mut i: usize = 0;
    while i < parts.len()
        invariant
            i <= parts.len(),
            ps == views(parts@),
            views(lines@) == start + value_type_parts_lines(ps.take(i as int), indent@),
        decreases parts.len() - i,
    {
        skd_compile_emit_single_value_type(lines, &parts[i], indent);
        proof {
            assert(ps.take(i + 1).drop_last() =~= ps.take(i as int));
        }
        i = i + 1;
    }
    assert(ps.take(parts.len() as int) =~= ps);
}

/// The default settings variant `Основной` of a compiled schema.
pub open spec fn default_settings_variant_lines() -> Seq<Seq<char>> {
    seq!["\t<settingsVariant>"@, "\t\t<dcsset:name>Основной</dcsset:name>"@] + mltext_lines(
        "\t\t"@,
        "dcsset:presentation"@,
        "Основной"@,
    ) + seq![
        "\t\t<dcsset:settings xmlns:style=\"http://v8.1c.ru/8.1/data/ui/style\" xmlns:sys=\"http://v8.1c.ru/8.1/data/ui/fonts/system\" xmlns:web=\"http://v8.1c.ru/8.1/data/ui/colors/web\" xmlns:win=\"http://v8.1c.ru/8.1/data/ui/colors/windows\">"@,
        "\t\t\t<dcsset:selection>"@,
        "\t\t\t\t<dcsset:item xsi:type=\"dcsset:SelectedItemAuto\"/>"@,
        "\t\t\t</dcsset:selection>"@,
        "\t\t\t<dcsset:item xsi:type=\"dcsset:StructureItemGroup\">"@,
        "\t\t\t\t<dcsset:order>"@,
        "\t\t\t\t\t<dcsset:item xsi:type=\"dcsset:OrderItemAuto\"/>"@,
        "\t\t\t\t</dcsset:order>"@,
        "\t\t\t\t<dcsset:selection>"@,
        "\t\t\t\t\t<dcsset:item xsi:type=\"dcsset:SelectedItemAuto\"/>"@,
        "\t\t\t\t</dcsset:selection>"@,
        "\t\t\t</dcsset:item>"@,
        "\t\t</dcsset:settings>"@,
        "\t</settingsVariant>"@,
    ]
}

pub fn push_lit(lines: &mut Vec<Vec<char>>, s: &str)
    ensures
        views(final(lines)@) == views(old(lines)@).push(s@),
{
    push_line(lines, chars_of(s));
}

pub fn skd_compile_emit_default_settings_variant(lines: &mut Vec<Vec<char>>)
    ensures
        views(final(lines)@) == views(old(lines)@) + default_settings_variant_lines(),
{
    let ghost start = views(lines@);
    push_lit(lines, "\t<settingsVariant>");
    push_lit(lines, "\t\t<dcsset:name>Основной</dcsset:name>");
    let ind = chars_of("\t\t");
    let tag = chars_of("dcsset:presentation");
    let txt = chars_of("Основной");
    proof {
        reveal_strlit("Основной");
    }
    skd_compile_emit_mltext(lines, &ind, &tag, &txt);
    push_lit(
        lines,
        "\t\t<dcsset:settings xmlns:style=\"http://v8.1c.ru/8.1/data/ui/style\" xmlns:sys=\"http://v8.1c.ru/8.1/data/ui/fonts/system\" xmlns:web=\"http://v8.1c.ru/8.1/data/ui/colors/web\" xmlns:win=\"http://v8.1c.ru/8.1/data/ui/colors/windows\">",
    );
    push_lit(lines, "\t\t\t<dcsset:selection>");
    push_lit(lines, "\t\t\t\t<dcsset:item xsi:type=\"dcsset:SelectedItemAuto\"/>");
    push_lit(lines, "\t\t\t</dcsset:selection>");
    push_lit(lines, "\t\t\t<dcsset:item xsi:type=\"dcsset:StructureItemGroup\">");
    push_lit(lines, "\t\t\t\t<dcsset:order>");
    push_lit(lines, "\t\t\t\t\t<dcsset:item xsi:type=\"dcsset:OrderItemAuto\"/>");
    push_lit(lines, "\t\t\t\t</dcsset:order>");
    push_lit(lines, "\t\t\t\t<dcsset:selection>");
    push_lit(lines, "\t\t\t\t\t<dcsset:item xsi:type=\"dcsset:SelectedItemAuto\"/>");
    push_lit(lines, "\t\t\t\t</dcsset:selection>");
    push_lit(lines, "\t\t\t</dcsset:item>");
    push_lit(lines, "\t\t</dcsset:settings>");
    push_lit(lines, "\t</settingsVariant>");
    assert(views(lines@) =~= start + default_settings_variant_lines());
}

/// The `totalField` element for a data path and expression.
pub open spec fn total_fragment(data_path: Seq<char>, expression: Seq<char>) -> Seq<char> {
    "\t<totalField>\n\t\t<dataPath>"@ + escape_xml(data_path) + "</dataPath>\n\t\t<expression>"@
        + escape_xml(total_expression(data_path, expression)) + "</expression>\n\t</totalField>"@
}

pub fn skd_edit_total_fragment(data_path: &[char], expression: &[char]) -> (r: Vec<char>)
    ensures
        r@ == total_fragment(data_path@, expression@),
{
    let e = skd_edit_total_expression(data_path, expression);
    let mut r = chars_of("\t<totalField>\n\t\t<dataPath>");
    let dp = escape_xml_exec(data_path);
    push_chars(&mut r, &dp);
    push_str(&mut r, "</dataPath>\n\t\t<expression>");
    let ee = escape_xml_exec(&e);
    push_chars(&mut r, &ee);
    push_str(&mut r, "</expression>\n\t</totalField>");
    r
}

/// The lines of a `calculatedField` element.
pub open spec fn calc_field_lines(
    data_path: Seq<char>,
    title: Seq<char>,
    field_type: Seq<char>,
    expression: Seq<char>,
    indent: Seq<char>,
) -> Seq<Seq<char>> {
    seq![
        indent + "<calculatedField>"@,
        indent + "\t<dataPath>"@ + escape_xml(data_path) + "</dataPath>"@,
        indent + "\t<expression>"@ + escape_xml(expression) + "</expression>"@,
    ] + (if title.len() > 0 {
        mltext_lines(indent + "\t"@, "title"@, title)
    } else {
        Seq::empty()
    }) + (if field_type.len() > 0 {
        seq![indent + "\t<valueType>"@] + value_type_lines(field_type, indent + "\t\t"@) + seq![
            indent + "\t</valueType>"@,
        ]
    } else {
        Seq::empty()
    }) + seq![indent + "</calculatedField>"@]
}

/// `{indent}{suffix}` as a new vector.
pub fn indent_plus(indent: &[char], suffix: &str) -> (r: Vec<char>)
    ensures
        r@ == indent@ + suffix@,
{
    lit(indent, suffix)
}

/// Appends the `valueType` element of a type spec.
pub fn push_value_type_block(lines: &mut Vec<Vec<char>>, field_type: &[char], indent: &[char])
    ensures
        views(final(lines)@) == views(old(lines)@) + (seq![indent@ + "\t<valueType>"@] + value_type_lines(
            field_type@,
            indent@ + "\t\t"@,
        ) + seq![indent@ + "\t</valueType>"@]),
{
    let ghost start = views(lines@);
    push_line(lines, lit(indent, "\t<valueType>"));
    let inner = indent_plus(indent, "\t\t");
    skd_compile_emit_value_type(lines, field_type, &inner);
    push_line(lines, lit(indent, "\t</valueType>"));
    assert(views(lines@) =~= start + (seq![indent@ + "\t<valueType>"@] + value_type_lines(
        field_type@,
        indent@ + "\t\t"@,
    ) + seq![indent@ + "\t</valueType>"@]));
}

pub fn skd_edit_calc_field_fragment(field: &SkdEditCalcField, indent: &[char]) -> (r: Vec<char>)
    ensures
        r@ == join(
            calc_field_lines(field.data_path@, field.title@, field.field_type@, field.expression@, indent@),
            "\n"@,
        ),
{
    let mut lines: Vec<Vec<char>> = Vec::new();
    push_line(&mut lines, lit(indent, "<calculatedField>"));
    push_line(&mut lines, wrap_escaped(indent, "\t<dataPath>", &field.data_path, "</dataPath>"));
    push_line(&mut lines, wrap_escaped(indent, "\t<expression>", &field.expression, "</expression>"));
    let ghost a = views(lines@);
    if field.title.len() > 0 {
        let ind = indent_plus(indent, "\t");
        let tag = chars_of("title");
        skd_compile_emit_mltext(&mut lines, &ind, &tag, &field.title);
    }
    let ghost b = views(lines@);
    if field.field_type.len() > 0 {
        push_value_type_block(&mut lines, &field.field_type, indent);
    }
    let ghost c = views(lines@);
    push_line(&mut lines, lit(indent, "</calculatedField>"));
    proof {
        reveal_strlit("title");
        assert(views(lines@) =~= calc_field_lines(
            field.data_path@,
            field.title@,
            field.field_type@,
            field.expression@,
            indent@,
        ));
    }
    join_str(&lines, "\n")
}


/// The XML type of a parameter value element, by the declared type and then by
/// the value's shape.
pub open spec fn parameter_value_xsi_type(declared: Seq<char>, value: Seq<char>) -> Seq<char> {
    if crate::text::starts_with(declared, "date"@) {
        "xs:dateTime"@
    } else if declared == "boolean"@ {
        "xs:boolean"@
    } else if crate::text::starts_with(declared, "decimal"@) {
        "xs:decimal"@
    } else if crate::text::starts_with(declared, "string"@) {
        "xs:string"@
    } else if crate::text::starts_with_any(declared, crate::skd_values::design_time_type_prefixes()) {
        "dcscor:DesignTimeValue"@
    } else if crate::skd_values::is_date_time_literal_spec(value) {
        "xs:dateTime"@
    } else if value == "true"@ || value == "false"@ {
        "xs:boolean"@
    } else if crate::text::starts_with_any(value, crate::skd_values::design_time_value_prefixes()) {
        "dcscor:DesignTimeValue"@
    } else {
        "xs:string"@
    }
}

/// The lines of one parameter value element `<tag …>`: nil for an empty value, a
/// standard period for a `StandardPeriod` parameter, else typed text.
pub open spec fn parameter_value_lines(declared_type: Seq<char>, value: Seq<char>, indent: Seq<char>, tag: Seq<char>) -> Seq<Seq<char>> {
    let declared = crate::skd_values::normalize_declared_type(declared_type);
    if crate::skd_values::is_empty_value(value) {
        seq![indent + "<"@ + tag + " xsi:nil=\"true\"/>"@]
    } else if declared == "StandardPeriod"@ {
        seq![
            indent + "<"@ + tag + " xsi:type=\"v8:StandardPeriod\">"@,
            indent + "\t<v8:variant xsi:type=\"v8:StandardPeriodVariant\">"@ + escape_xml(value)
                + "</v8:variant>"@,
            indent + "\t<v8:startDate>0001-01-01T00:00:00</v8:startDate>"@,
            indent + "\t<v8:endDate>0001-01-01T00:00:00</v8:endDate>"@,
            indent + "</"@ + tag + ">"@,
        ]
    } else {
        seq![
            indent + "<"@ + tag + " xsi:type=\""@ + parameter_value_xsi_type(declared, value) + "\">"@
                + escape_xml(value) + "</"@ + tag + ">"@,
        ]
    }
}

pub fn skd_edit_parameter_value_lines(declared_type: &[char], value: &[char], indent: &[char], tag_name: &[char]) -> (r: Vec<Vec<char>>)
    ensures
        views(r@) == parameter_value_lines(declared_type@, value@, indent@, tag_name@),
{
    let declared = crate::skd_values::skd_edit_normalize_declared_type(declared_type);
    let mut r: Vec<Vec<char>> = Vec::new();
    if crate::skd_values::skd_edit_is_empty_value(value) {
        push_line(&mut r, wrap(indent, "<", tag_name, " xsi:nil=\"true\"/>"));
        assert(views(r@) =~= parameter_value_lines(declared_type@, value@, indent@, tag_name@));
        return r;
    }
    if crate::text::eq_str(&declared, "StandardPeriod") {
        push_line(&mut r, wrap(indent, "<", tag_name, " xsi:type=\"v8:StandardPeriod\">"));
        push_line(
            &mut r,
            wrap_escaped(indent, "\t<v8:variant xsi:type=\"v8:StandardPeriodVariant\">", value, "</v8:variant>"),
        );
        push_line(&mut r, lit(indent, "\t<v8:startDate>0001-01-01T00:00:00</v8:startDate>"));
        push_line(&mut r, lit(indent, "\t<v8:endDate>0001-01-01T00:00:00</v8:endDate>"));
        push_line(&mut r, wrap(indent, "</", tag_name, ">"));
        assert(views(r@) =~= parameter_value_lines(declared_type@, value@, indent@, tag_name@));
        return r;
    }
    let xsi_type: &'static str = if crate::text::starts_with_str(&declared, "date") {
        "xs:dateTime"
    } else if crate::text::eq_str(&declared, "boolean") {
        "xs:boolean"
    } else if crate::text::starts_with_str(&declared, "decimal") {
        "xs:decimal"
    } else if crate::text::starts_with_str(&declared, "string") {
        "xs:string"
    } else if crate::skd_values::skd_edit_is_design_time_type(&declared) {
        "dcscor:DesignTimeValue"
    } else if crate::skd_values::date_time_literal(value) {
        "xs:dateTime"
    } else if crate::text::eq_str(value, "true") || crate::text::eq_str(value, "false") {
        "xs:boolean"
    } else if crate::skd_values::skd_edit_is_design_time_value(value) {
        "dcscor:DesignTimeValue"
    } else {
        "xs:string"
    };
    let mut line = wrap(indent, "<", tag_name, " xsi:type=\"");
    push_str(&mut line, xsi_type);
    push_str(&mut line, "\">");
    let ev = escape_xml_exec(value);
    push_chars(&mut line, &ev);
    push_str(&mut line, "</");
    push_chars(&mut line, tag_name);
    push_str(&mut line, ">");
    push_line(&mut r, line);
    assert(views(r@) =~= parameter_value_lines(declared_type@, value@, indent@, tag_name@));
    r
}

/// The value lines of each value, in order.
pub open spec fn values_lines(declared: Seq<char>, values: Seq<Seq<char>>, indent: Seq<char>) -> Seq<Seq<char>>
    decreases values.len(),
{
    if values.len() == 0 {
        Seq::empty()
    } else {
        values_lines(declared, values.drop_last(), indent) + parameter_value_lines(
            declared,
            values.last(),
            indent,
            "value"@,
        )
    }
}

/// The `availableValue` elements of each (value, presentation) pair, in order.
pub open spec fn available_values_lines(declared: Seq<char>, items: Seq<(Seq<char>, Seq<char>)>, indent: Seq<char>) -> Seq<Seq<char>>
    decreases items.len(),
{
    if items.len() == 0 {
        Seq::empty()
    } else {
        available_values_lines(declared, items.drop_last(), indent) + seq![indent + "<availableValue>"@]
            + parameter_value_lines(declared, items.last().0, indent + "\t"@, "value"@) + (if items.last().1.len() > 0 {
            mltext_lines(indent + "\t"@, "presentation"@, items.last().1)
        } else {
            Seq::empty()
        }) + seq![indent + "</availableValue>"@]
    }
}

pub fn push_values_lines(lines: &mut Vec<Vec<char>>, declared: &[char], values: &Vec<Vec<char>>, indent: &[char])
    ensures
        views(final(lines)@) == views(old(lines)@) + values_lines(declared@, views(values@), indent@),
{
    let ghost start = views(lines@);
    let ghost vs = views(values@);
    let tag = chars_of("value");
    proof {
        reveal_strlit("value");
    }
    let mut i: usize = 0;
    while i < values.len()
        invariant
            i <= values.len(),
            vs == views(values@),
            tag@ == "value"@,
            views(lines@) == start + values_lines(declared@, vs.take(i as int), indent@),
        decreases values.len() - i,
    {
        let more = skd_edit_parameter_value_lines(declared, &values[i], indent, &tag);
        push_lines(lines, more);
        proof {
            assert(vs.take(i + 1).drop_last() =~= vs.take(i as int));
        }
        i = i + 1;
    }
    assert(vs.take(values.len() as int) =~= vs);
}

pub fn push_available_values_lines(
    lines: &mut Vec<Vec<char>>,
    declared: &[char],
    items: &Vec<(Vec<char>, Vec<char>)>,
    indent: &[char],
)
    ensures
        views(final(lines)@) == views(old(lines)@) + available_values_lines(
            declared@,
            crate::skd_values::pair_views(items@),
            indent@,
        ),
{
    let ghost start = views(lines@);
    let ghost ps = crate::skd_values::pair_views(items@);
    let tag = chars_of("value");
    let ptag = chars_of("presentation");
    proof {
        reveal_strlit("value");
        reveal_strlit("presentation");
    }
    let inner = indent_plus(indent, "\t");
    let mut i: usize = 0;
    while i < items.len()
        invariant
            i <= items.len(),
            ps == crate::skd_values::pair_views(items@),
            tag@ == "value"@,
            ptag@ == "presentation"@,
            inner@ == indent@ + "\t"@,
            views(lines@) == start + available_values_lines(declared@, ps.take(i as int), indent@),
        decreases items.len() - i,
    {
        let ghost before = views(lines@);
        push_line(lines, lit(indent, "<availableValue>"));
        let more = skd_edit_parameter_value_lines(declared, &items[i].0, &inner, &tag);
        push_lines(lines, more);
        if items[i].1.len() > 0 {
            skd_compile_emit_mltext(lines, &inner, &ptag, &items[i].1);
        }
        push_line(lines, lit(indent, "</availableValue>"));
        proof {
            assert(ps.take(i + 1).drop_last() =~= ps.take(i as int));
            assert(ps.take(i + 1).last() == (items@[i as int].0@, items@[i as int].1@));
            assert(views(lines@) =~= start + available_values_lines(declared@, ps.take(i + 1), indent@));
        }
        i = i + 1;
    }
    assert(ps.take(items.len() as int) =~= ps);
}

/// The lines of a `parameter` element.
pub open spec fn parameter_lines(p: crate::skd_values::SkdEditParameter, indent: Seq<char>) -> Seq<Seq<char>> {
    let i1 = indent + "\t"@;
    seq![indent + "<parameter>"@, i1 + "<name>"@ + escape_xml(p.name@) + "</name>"@] + (if p.title@.len() > 0 {
        mltext_lines(i1, "title"@, p.title@)
    } else {
        Seq::empty()
    }) + (if p.param_type@.len() > 0 {
        seq![indent + "\t<valueType>"@] + value_type_lines(p.param_type@, indent + "\t\t"@) + seq![
            indent + "\t</valueType>"@,
        ]
    } else {
        Seq::empty()
    }) + values_lines(p.param_type@, views(p.values@), i1) + (if p.value_list_allowed {
        seq![i1 + "<valueListAllowed>true</valueListAllowed>"@]
    } else {
        Seq::empty()
    }) + (if p.hidden {
        seq![i1 + "<useRestriction>true</useRestriction>"@, i1 + "<availableAsField>false</availableAsField>"@]
    } else {
        Seq::empty()
    }) + (if p.always {
        seq![i1 + "<use>Always</use>"@]
    } else {
        Seq::empty()
    }) + (match p.expression {
        Some(e) => seq![i1 + "<expression>"@ + escape_xml(e@) + "</expression>"@],
        None => Seq::empty(),
    }) + available_values_lines(p.param_type@, crate::skd_values::pair_views(p.available_values@), i1)
        + seq![indent + "</parameter>"@]
}

#[verifier::rlimit(50)]
pub fn skd_edit_parameter_fragment(param: &crate::skd_values::SkdEditParameter, indent: &[char]) -> (r: Vec<char>)
    ensures
        r@ == join(parameter_lines(*param, indent@), "\n"@),
{
    let i1 = indent_plus(indent, "\t");
    let ghost p = *param;
    let ghost i1v = indent@ + "\t"@;
    let mut lines: Vec<Vec<char>> = Vec::new();
    push_line(&mut lines, lit(indent, "<parameter>"));
    push_line(&mut lines, wrap_escaped(&i1, "<name>", &param.name, "</name>"));
    let ghost part0 = seq![indent@ + "<parameter>"@, i1v + "<name>"@ + escape_xml(p.name@) + "</name>"@];
    assert(views(lines@) =~= part0);
    let ghost part1 = if p.title@.len() > 0 {
        mltext_lines(i1v, "title"@, p.title@)
    } else {
        Seq::empty()
    };
    if param.title.len() > 0 {
        let tag = chars_of("title");
        proof {
            reveal_strlit("title");
        }
        skd_compile_emit_mltext(&mut lines, &i1, &tag, &param.title);
    }
    assert(views(lines@) =~= part0 + part1);
    let ghost part2 = if p.param_type@.len() > 0 {
        seq![indent@ + "\t<valueType>"@] + value_type_lines(p.param_type@, indent@ + "\t\t"@) + seq![
            indent@ + "\t</valueType>"@,
        ]
    } else {
        Seq::empty()
    };
    if param.param_type.len() > 0 {
        push_value_type_block(&mut lines, &param.param_type, indent);
    }
    assert(views(lines@) =~= part0 + part1 + part2);
    let ghost part3 = values_lines(p.param_type@, views(p.values@), i1v);
    push_values_lines(&mut lines, &param.param_type, &param.values, &i1);
    let ghost part4 = if p.value_list_allowed {
        seq![i1v + "<valueListAllowed>true</valueListAllowed>"@]
    } else {
        Seq::empty()
    };
    if param.value_list_allowed {
        push_line(&mut lines, lit(&i1, "<valueListAllowed>true</valueListAllowed>"));
    }
    assert(views(lines@) =~= part0 + part1 + part2 + part3 + part4);
    let ghost part5 = if p.hidden {
        seq![i1v + "<useRestriction>true</useRestriction>"@, i1v + "<availableAsField>false</availableAsField>"@]
    } else {
        Seq::empty()
    };
    if param.hidden {
        push_line(&mut lines, lit(&i1, "<useRestriction>true</useRestriction>"));
        push_line(&mut lines, lit(&i1, "<availableAsField>false</availableAsField>"));
    }
    assert(views(lines@) =~= part0 + part1 + part2 + part3 + part4 + part5);
    let ghost part6 = if p.always {
        seq![i1v + "<use>Always</use>"@]
    } else {
        Seq::empty()
    };
    if param.always {
        push_line(&mut lines, lit(&i1, "<use>Always</use>"));
    }
    assert(views(lines@) =~= part0 + part1 + part2 + part3 + part4 + part5 + part6);
    let ghost part7 = match p.expression {
        Some(e) => seq![i1v + "<expression>"@ + escape_xml(e@) + "</expression>"@],
        None => Seq::empty(),
    };
    match &param.expression {
        Some(expr) => {
            push_line(&mut lines, wrap_escaped(&i1, "<expression>", expr, "</expression>"));
        },
        None => {},
    }
    assert(views(lines@) =~= part0 + part1 + part2 + part3 + part4 + part5 + part6 + part7);
    let ghost part8 = available_values_lines(p.param_type@, crate::skd_values::pair_views(p.available_values@), i1v);
    push_available_values_lines(&mut lines, &param.param_type, &param.available_values, &i1);
    push_line(&mut lines, lit(indent, "</parameter>"));
    assert(views(lines@) =~= part0 + part1 + part2 + part3 + part4 + part5 + part6 + part7 + part8 + seq![
        indent@ + "</parameter>"@,
    ]);
    join_str(&lines, "\n")
}

/// The lines of a filter comparison item in a settings filter.
pub open spec fn filter_lines(f: crate::skd_values::SkdEditFilter, indent: Seq<char>) -> Seq<Seq<char>> {
    seq![indent + "<dcsset:item xsi:type=\"dcsset:FilterItemComparison\">"@] + (if f.use_flag == Some(false) {
        seq![indent + "\t<dcsset:use>false</dcsset:use>"@]
    } else {
        Seq::empty()
    }) + seq![
        indent + "\t<dcsset:left xsi:type=\"dcscor:Field\">"@ + escape_xml(f.field@) + "</dcsset:left>"@,
        indent + "\t<dcsset:comparisonType>"@ + escape_xml(f.operator@) + "</dcsset:comparisonType>"@,
    ] + (if f.value@.len() > 0 {
        seq![
            indent + "\t<dcsset:right xsi:type=\""@ + f.value_type@ + "\">"@ + escape_xml(f.value@)
                + "</dcsset:right>"@,
        ]
    } else {
        Seq::empty()
    }) + (match f.view_mode {
        Some(v) => seq![indent + "\t<dcsset:viewMode>"@ + escape_xml(v@) + "</dcsset:viewMode>"@],
        None => Seq::empty(),
    }) + (match f.user_setting_id {
        Some(u) => seq![indent + "\t<dcsset:userSettingID>"@ + escape_xml(u@) + "</dcsset:userSettingID>"@],
        None => Seq::empty(),
    }) + seq![indent + "</dcsset:item>"@]
}

/// The `dcsset:right` line of a filter with a right side.
pub fn filter_right_line(f: &crate::skd_values::SkdEditFilter, indent: &[char]) -> (r: Vec<char>)
    ensures
        r@ == indent@ + "\t<dcsset:right xsi:type=\""@ + f.value_type@ + "\">"@ + escape_xml(f.value@)
            + "</dcsset:right>"@,
{
    let mut line = wrap(indent, "\t<dcsset:right xsi:type=\"", &f.value_type, "\">");
    let ev = escape_xml_exec(&f.value);
    push_chars(&mut line, &ev);
    push_str(&mut line, "</dcsset:right>");
    line
}

pub fn skd_edit_filter_fragment(filter: &crate::skd_values::SkdEditFilter, indent: &[char]) -> (r: Vec<char>)
    ensures
        r@ == join(filter_lines(*filter, indent@), "\n"@),
{
    let mut lines: Vec<Vec<char>> = Vec::new();
    push_line(&mut lines, lit(indent, "<dcsset:item xsi:type=\"dcsset:FilterItemComparison\">"));
    let ghost a = views(lines@);
    if filter.use_flag == Some(false) {
        push_line(&mut lines, lit(indent, "\t<dcsset:use>false</dcsset:use>"));
    }
    let ghost b = views(lines@);
    push_line(
        &mut lines,
        wrap_escaped(indent, "\t<dcsset:left xsi:type=\"dcscor:Field\">", &filter.field, "</dcsset:left>"),
    );
    push_line(
        &mut lines,
        wrap_escaped(indent, "\t<dcsset:comparisonType>", &filter.operator, "</dcsset:comparisonType>"),
    );
    let ghost c = views(lines@);
    if filter.value.len() > 0 {
        push_line(&mut lines, filter_right_line(filter, indent));
    }
    let ghost d = views(lines@);
    match &filter.view_mode {
        Some(v) => push_line(&mut lines, wrap_escaped(indent, "\t<dcsset:viewMode>", v, "</dcsset:viewMode>")),
        None => {},
    }
    let ghost e = views(lines@);
    match &filter.user_setting_id {
        Some(u) => push_line(
            &mut lines,
            wrap_escaped(indent, "\t<dcsset:userSettingID>", u, "</dcsset:userSettingID>"),
        ),
        None => {},
    }
    push_line(&mut lines, lit(indent, "</dcsset:item>"));
    assert(views(lines@) =~= filter_lines(*filter, indent@));
    join_str(&lines, "\n")
}


/// The lines of a settings value element `<tag …>` one level below `indent`.
pub open spec fn settings_value_lines(tag: Seq<char>, value: Seq<char>, indent: Seq<char>) -> Seq<Seq<char>> {
    if crate::skd_values::is_empty_value(value) {
        seq![indent + "\t<"@ + tag + " xsi:nil=\"true\"/>"@]
    } else if crate::text::is_one_of(value, crate::skd_values::standard_period_variants()) {
        seq![
            indent + "\t<"@ + tag + " xsi:type=\"v8:StandardPeriod\">"@,
            indent + "\t\t<v8:variant xsi:type=\"v8:StandardPeriodVariant\">"@ + escape_xml(value)
                + "</v8:variant>"@,
            indent + "\t\t<v8:startDate>0001-01-01T00:00:00</v8:startDate>"@,
            indent + "\t\t<v8:endDate>0001-01-01T00:00:00</v8:endDate>"@,
            indent + "\t</"@ + tag + ">"@,
        ]
    } else {
        let value_type = if crate::skd_values::is_date_time_literal_spec(value) {
            "xs:dateTime"@
        } else if value == "true"@ || value == "false"@ {
            "xs:boolean"@
        } else {
            "xs:string"@
        };
        seq![
            indent + "\t<"@ + tag + " xsi:type=\""@ + value_type + "\">"@ + escape_xml(value) + "</"@
                + tag + ">"@,
        ]
    }
}

pub fn skd_edit_settings_value_lines(tag_name: &[char], value: &[char], indent: &[char]) -> (r: Vec<Vec<char>>)
    ensures
        views(r@) == settings_value_lines(tag_name@, value@, indent@),
{
    let mut r: Vec<Vec<char>> = Vec::new();
    if crate::skd_values::skd_edit_is_empty_value(value) {
        push_line(&mut r, wrap(indent, "\t<", tag_name, " xsi:nil=\"true\"/>"));
        assert(views(r@) =~= settings_value_lines(tag_name@, value@, indent@));
        return r;
    }
    if crate::skd_values::skd_edit_is_standard_period_variant(value) {
        push_line(&mut r, wrap(indent, "\t<", tag_name, " xsi:type=\"v8:StandardPeriod\">"));
        push_line(
            &mut r,
            wrap_escaped(indent, "\t\t<v8:variant xsi:type=\"v8:StandardPeriodVariant\">", value, "</v8:variant>"),
        );
        push_line(&mut r, lit(indent, "\t\t<v8:startDate>0001-01-01T00:00:00</v8:startDate>"));
        push_line(&mut r, lit(indent, "\t\t<v8:endDate>0001-01-01T00:00:00</v8:endDate>"));
        push_line(&mut r, wrap(indent, "\t</", tag_name, ">"));
        assert(views(r@) =~= settings_value_lines(tag_name@, value@, indent@));
        return r;
    }
    let value_type: &'static str = if crate::skd_values::date_time_literal(value) {
        "xs:dateTime"
    } else if crate::text::eq_str(value, "true") || crate::text::eq_str(value, "false") {
        "xs:boolean"
    } else {
        "xs:string"
    };
    let mut line = wrap(indent, "\t<", tag_name, " xsi:type=\"");
    push_str(&mut line, value_type);
    push_str(&mut line, "\">");
    let ev = escape_xml_exec(value);
    push_chars(&mut line, &ev);
    push_str(&mut line, "</");
    push_chars(&mut line, tag_name);
    push_str(&mut line, ">");
    push_line(&mut r, line);
    assert(views(r@) =~= settings_value_lines(tag_name@, value@, indent@));
    r
}

/// The lines of a data parameter item in settings.
pub open spec fn data_parameter_lines(p: crate::skd_values::SkdEditDataParameter, indent: Seq<char>) -> Seq<Seq<char>> {
    seq![indent + "<dcscor:item xsi:type=\"dcsset:SettingsParameterValue\">"@] + (if p.use_flag == Some(false) {
        seq![indent + "\t<dcscor:use>false</dcscor:use>"@]
    } else {
        Seq::empty()
    }) + seq![indent + "\t<dcscor:parameter>"@ + escape_xml(p.parameter@) + "</dcscor:parameter>"@] + (match p.value {
        Some(v) => settings_value_lines("dcscor:value"@, v@, indent),
        None => Seq::empty(),
    }) + (match p.view_mode {
        Some(v) => seq![indent + "\t<dcsset:viewMode>"@ + escape_xml(v@) + "</dcsset:viewMode>"@],
        None => Seq::empty(),
    }) + (match p.user_setting_id {
        Some(u) => seq![indent + "\t<dcsset:userSettingID>"@ + escape_xml(u@) + "</dcsset:userSettingID>"@],
        None => Seq::empty(),
    }) + seq![indent + "</dcscor:item>"@]
}

pub fn skd_edit_data_parameter_fragment(param: &crate::skd_values::SkdEditDataParameter, indent: &[char]) -> (r: Vec<char>)
    ensures
        r@ == join(data_parameter_lines(*param, indent@), "\n"@),
{
    let mut lines: Vec<Vec<char>> = Vec::new();
    push_line(&mut lines, lit(indent, "<dcscor:item xsi:type=\"dcsset:SettingsParameterValue\">"));
    let ghost a = views(lines@);
    if param.use_flag == Some(false) {
        push_line(&mut lines, lit(indent, "\t<dcscor:use>false</dcscor:use>"));
    }
    let ghost b = views(lines@);
    push_line(
        &mut lines,
        wrap_escaped(indent, "\t<dcscor:parameter>", &param.parameter, "</dcscor:parameter>"),
    );
    let ghost c = views(lines@);
    match &param.value {
        Some(v) => {
            let tag = chars_of("dcscor:value");
            proof {
                reveal_strlit("dcscor:value");
            }
            let more = skd_edit_settings_value_lines(&tag, v, indent);
            push_lines(&mut lines, more);
        },
        None => {},
    }
    let ghost d = views(lines@);
    match &param.view_mode {
        Some(v) => push_line(&mut lines, wrap_escaped(indent, "\t<dcsset:viewMode>", v, "</dcsset:viewMode>")),
        None => {},
    }
    let ghost e = views(lines@);
    match &param.user_setting_id {
        Some(u) => push_line(
            &mut lines,
            wrap_escaped(indent, "\t<dcsset:userSettingID>", u, "</dcsset:userSettingID>"),
        ),
        None => {},
    }
    push_line(&mut lines, lit(indent, "</dcscor:item>"));
    assert(views(lines@) =~= data_parameter_lines(*param, indent@));
    join_str(&lines, "\n")
}

/// The lines of a `dataSetLink` element.
pub open spec fn data_set_link_lines(l: crate::skd_values::SkdEditDataSetLink, indent: Seq<char>) -> Seq<Seq<char>> {
    seq![
        indent + "<dataSetLink>"@,
        indent + "\t<sourceDataSet>"@ + escape_xml(l.source@) + "</sourceDataSet>"@,
        indent + "\t<destinationDataSet>"@ + escape_xml(l.dest@) + "</destinationDataSet>"@,
        indent + "\t<sourceExpression>"@ + escape_xml(l.source_expr@) + "</sourceExpression>"@,
        indent + "\t<destinationExpression>"@ + escape_xml(l.dest_expr@) + "</destinationExpression>"@,
    ] + (if l.parameter@.len() > 0 {
        seq![indent + "\t<parameter>"@ + escape_xml(l.parameter@) + "</parameter>"@]
    } else {
        Seq::empty()
    }) + seq![indent + "</dataSetLink>"@]
}

pub fn skd_edit_data_set_link_fragment(link: &crate::skd_values::SkdEditDataSetLink, indent: &[char]) -> (r: Vec<char>)
    ensures
        r@ == join(data_set_link_lines(*link, indent@), "\n"@),
{
    let mut lines: Vec<Vec<char>> = Vec::new();
    push_line(&mut lines, lit(indent, "<dataSetLink>"));
    push_line(&mut lines, wrap_escaped(indent, "\t<sourceDataSet>", &link.source, "</sourceDataSet>"));
    push_line(&mut lines, wrap_escaped(indent, "\t<destinationDataSet>", &link.dest, "</destinationDataSet>"));
    push_line(&mut lines, wrap_escaped(indent, "\t<sourceExpression>", &link.source_expr, "</sourceExpression>"));
    push_line(
        &mut lines,
        wrap_escaped(indent, "\t<destinationExpression>", &link.dest_expr, "</destinationExpression>"),
    );
    let ghost a = views(lines@);
    if link.parameter.len() > 0 {
        push_line(&mut lines, wrap_escaped(indent, "\t<parameter>", &link.parameter, "</parameter>"));
    }
    push_line(&mut lines, lit(indent, "</dataSetLink>"));
    assert(views(lines@) =~= data_set_link_lines(*link, indent@));
    join_str(&lines, "\n")
}

/// A query `dataSet` element with its name, data source and query text.
pub open spec fn data_set_fragment(name: Seq<char>, query: Seq<char>, source: Seq<char>, indent: Seq<char>) -> Seq<char> {
    indent + "<dataSet xsi:type=\"DataSetQuery\">\n"@ + indent + "\t<name>"@ + escape_xml(name) + "</name>\n"@
        + indent + "\t<dataSource>"@ + escape_xml(source) + "</dataSource>\n"@ + indent + "\t<query>"@
        + escape_xml(query) + "</query>\n"@ + indent + "</dataSet>"@
}

pub fn skd_edit_data_set_fragment(name: &[char], query: &[char], source: &[char], indent: &[char]) -> (r: Vec<char>)
    ensures
        r@ == data_set_fragment(name@, query@, source@, indent@),
{
    let mut r = lit(indent, "<dataSet xsi:type=\"DataSetQuery\">\n");
    push_chars(&mut r, indent);
    push_str(&mut r, "\t<name>");
    let e = escape_xml_exec(name);
    push_chars(&mut r, &e);
    push_str(&mut r, "</name>\n");
    push_chars(&mut r, indent);
    push_str(&mut r, "\t<dataSource>");
    let e = escape_xml_exec(source);
    push_chars(&mut r, &e);
    push_str(&mut r, "</dataSource>\n");
    push_chars(&mut r, indent);
    push_str(&mut r, "\t<query>");
    let e = escape_xml_exec(query);
    push_chars(&mut r, &e);
    push_str(&mut r, "</query>\n");
    push_chars(&mut r, indent);
    push_str(&mut r, "</dataSet>");
    r
}

/// The lines of a new settings variant with automatic selection and order.
pub open spec fn variant_lines(name: Seq<char>, presentation: Seq<char>, indent: Seq<char>) -> Seq<Seq<char>> {
    seq![indent + "<settingsVariant>"@, indent + "\t<dcsset:name>"@ + escape_xml(name) + "</dcsset:name>"@]
        + mltext_lines(indent + "\t"@, "dcsset:presentation"@, presentation) + seq![
        indent + "\t<dcsset:settings xmlns:style=\"http://v8.1c.ru/8.1/data/ui/style\" xmlns:sys=\"http://v8.1c.ru/8.1/data/ui/fonts/system\" xmlns:web=\"http://v8.1c.ru/8.1/data/ui/colors/web\" xmlns:win=\"http://v8.1c.ru/8.1/data/ui/colors/windows\">"@,
        indent + "\t\t<dcsset:selection>"@,
        indent + "\t\t\t<dcsset:item xsi:type=\"dcsset:SelectedItemAuto\"/>"@,
        indent + "\t\t</dcsset:selection>"@,
        indent + "\t\t<dcsset:item xsi:type=\"dcsset:StructureItemGroup\">"@,
        indent + "\t\t\t<dcsset:groupItems/>"@,
        indent + "\t\t\t<dcsset:order>"@,
        indent + "\t\t\t\t<dcsset:item xsi:type=\"dcsset:OrderItemAuto\"/>"@,
        indent + "\t\t\t</dcsset:order>"@,
        indent + "\t\t\t<dcsset:selection>"@,
        indent + "\t\t\t\t<dcsset:item xsi:type=\"dcsset:SelectedItemAuto\"/>"@,
        indent + "\t\t\t</dcsset:selection>"@,
        indent + "\t\t</dcsset:item>"@,
        indent + "\t</dcsset:settings>"@,
        indent + "</settingsVariant>"@,
    ]
}

pub fn skd_edit_variant_fragment(variant: &crate::skd_values::SkdEditVariant, indent: &[char]) -> (r: Vec<char>)
    ensures
        r@ == join(variant_lines(variant.name@, variant.presentation@, indent@), "\n"@),
{
    let mut lines: Vec<Vec<char>> = Vec::new();
    push_line(&mut lines, lit(indent, "<settingsVariant>"));
    push_line(&mut lines, wrap_escaped(indent, "\t<dcsset:name>", &variant.name, "</dcsset:name>"));
    let i1 = indent_plus(indent, "\t");
    let tag = chars_of("dcsset:presentation");
    skd_compile_emit_mltext(&mut lines, &i1, &tag, &variant.presentation);
    push_line(
        &mut lines,
        lit(
            indent,
            "\t<dcsset:settings xmlns:style=\"http://v8.1c.ru/8.1/data/ui/style\" xmlns:sys=\"http://v8.1c.ru/8.1/data/ui/fonts/system\" xmlns:web=\"http://v8.1c.ru/8.1/data/ui/colors/web\" xmlns:win=\"http://v8.1c.ru/8.1/data/ui/colors/windows\">",
        ),
    );
    push_line(&mut lines, lit(indent, "\t\t<dcsset:selection>"));
    push_line(&mut lines, lit(indent, "\t\t\t<dcsset:item xsi:type=\"dcsset:SelectedItemAuto\"/>"));
    push_line(&mut lines, lit(indent, "\t\t</dcsset:selection>"));
    push_line(&mut lines, lit(indent, "\t\t<dcsset:item xsi:type=\"dcsset:StructureItemGroup\">"));
    push_line(&mut lines, lit(indent, "\t\t\t<dcsset:groupItems/>"));
    push_line(&mut lines, lit(indent, "\t\t\t<dcsset:order>"));
    push_line(&mut lines, lit(indent, "\t\t\t\t<dcsset:item xsi:type=\"dcsset:OrderItemAuto\"/>"));
    push_line(&mut lines, lit(indent, "\t\t\t</dcsset:order>"));
    push_line(&mut lines, lit(indent, "\t\t\t<dcsset:selection>"));
    push_line(&mut lines, lit(indent, "\t\t\t\t<dcsset:item xsi:type=\"dcsset:SelectedItemAuto\"/>"));
    push_line(&mut lines, lit(indent, "\t\t\t</dcsset:selection>"));
    push_line(&mut lines, lit(indent, "\t\t</dcsset:item>"));
    push_line(&mut lines, lit(indent, "\t</dcsset:settings>"));
    push_line(&mut lines, lit(indent, "</settingsVariant>"));
    proof {
        reveal_strlit("dcsset:presentation");
    }
    assert(views(lines@) =~= variant_lines(variant.name@, variant.presentation@, indent@));
    join_str(&lines, "\n")
}

/// The lines of a filter comparison inside a conditional appearance (no use
/// flag, view mode or user setting).
pub open spec fn filter_comparison_lines(f: crate::skd_values::SkdEditFilter, indent: Seq<char>) -> Seq<Seq<char>> {
    seq![
        indent + "<dcsset:item xsi:type=\"dcsset:FilterItemComparison\">"@,
        indent + "\t<dcsset:left xsi:type=\"dcscor:Field\">"@ + escape_xml(f.field@) + "</dcsset:left>"@,
        indent + "\t<dcsset:comparisonType>"@ + escape_xml(f.operator@) + "</dcsset:comparisonType>"@,
    ] + (if f.value@.len() > 0 {
        seq![
            indent + "\t<dcsset:right xsi:type=\""@ + f.value_type@ + "\">"@ + escape_xml(f.value@)
                + "</dcsset:right>"@,
        ]
    } else {
        Seq::empty()
    }) + seq![indent + "</dcsset:item>"@]
}

pub fn skd_edit_emit_filter_comparison(
    lines: &mut Vec<Vec<char>>,
    filter: &crate::skd_values::SkdEditFilter,
    indent: &[char],
)
    ensures
        views(final(lines)@) == views(old(lines)@) + filter_comparison_lines(*filter, indent@),
{
    let ghost start = views(lines@);
    push_line(lines, lit(indent, "<dcsset:item xsi:type=\"dcsset:FilterItemComparison\">"));
    push_line(
        lines,
        wrap_escaped(indent, "\t<dcsset:left xsi:type=\"dcscor:Field\">", &filter.field, "</dcsset:left>"),
    );
    push_line(
        lines,
        wrap_escaped(indent, "\t<dcsset:comparisonType>", &filter.operator, "</dcsset:comparisonType>"),
    );
    let ghost a = views(lines@);
    if filter.value.len() > 0 {
        push_line(lines, filter_right_line(filter, indent));
    }
    push_line(lines, lit(indent, "</dcsset:item>"));
    assert(views(lines@) =~= start + filter_comparison_lines(*filter, indent@));
}

/// The value element of a conditional appearance: a colour, a boolean, a
/// localized text for `Формат`/`Текст`/`Заголовок`, or a string.
pub open spec fn appearance_value_lines(parameter: Seq<char>, value: Seq<char>, indent: Seq<char>) -> Seq<Seq<char>> {
    if crate::text::starts_with(value, "web:"@) || crate::text::starts_with(value, "style:"@)
        || crate::text::starts_with(value, "win:"@) {
        seq![indent + "<dcscor:value xsi:type=\"v8ui:Color\">"@ + escape_xml(value) + "</dcscor:value>"@]
    } else if value == "true"@ || value == "false"@ {
        seq![indent + "<dcscor:value xsi:type=\"xs:boolean\">"@ + escape_xml(value) + "</dcscor:value>"@]
    } else if parameter == "Формат"@ || parameter == "Текст"@ || parameter == "Заголовок"@ {
        seq![
            indent + "<dcscor:value xsi:type=\"v8:LocalStringType\">"@,
            indent + "\t<v8:item>"@,
            indent + "\t\t<v8:lang>ru</v8:lang>"@,
            indent + "\t\t<v8:content>"@ + escape_xml(value) + "</v8:content>"@,
            indent + "\t</v8:item>"@,
            indent + "</dcscor:value>"@,
        ]
    } else {
        seq![indent + "<dcscor:value xsi:type=\"xs:string\">"@ + escape_xml(value) + "</dcscor:value>"@]
    }
}

pub fn skd_edit_conditional_appearance_value_lines(parameter: &[char], value: &[char], indent: &[char]) -> (r: Vec<Vec<char>>)
    ensures
        views(r@) == appearance_value_lines(parameter@, value@, indent@),
{
    let mut r: Vec<Vec<char>> = Vec::new();
    if crate::text::starts_with_str(value, "web:") || crate::text::starts_with_str(value, "style:")
        || crate::text::starts_with_str(value, "win:") {
        push_line(&mut r, wrap_escaped(indent, "<dcscor:value xsi:type=\"v8ui:Color\">", value, "</dcscor:value>"));
    } else if crate::text::eq_str(value, "true") || crate::text::eq_str(value, "false") {
        push_line(&mut r, wrap_escaped(indent, "<dcscor:value xsi:type=\"xs:boolean\">", value, "</dcscor:value>"));
    } else if crate::text::eq_str(parameter, "Формат") || crate::text::eq_str(parameter, "Текст")
        || crate::text::eq_str(parameter, "Заголовок") {
        push_line(&mut r, lit(indent, "<dcscor:value xsi:type=\"v8:LocalStringType\">"));
        push_line(&mut r, lit(indent, "\t<v8:item>"));
        push_line(&mut r, lit(indent, "\t\t<v8:lang>ru</v8:lang>"));
        push_line(&mut r, wrap_escaped(indent, "\t\t<v8:content>", value, "</v8:content>"));
        push_line(&mut r, lit(indent, "\t</v8:item>"));
        push_line(&mut r, lit(indent, "</dcscor:value>"));
    } else {
        push_line(&mut r, wrap_escaped(indent, "<dcscor:value xsi:type=\"xs:string\">", value, "</dcscor:value>"));
    }
    assert(views(r@) =~= appearance_value_lines(parameter@, value@, indent@));
    r
}

/// The selection lines of a conditional appearance for its fields.
pub open spec fn appearance_fields_lines(fields: Seq<Seq<char>>, indent: Seq<char>) -> Seq<Seq<char>>
    decreases fields.len(),
{
    if fields.len() == 0 {
        Seq::empty()
    } else {
        appearance_fields_lines(fields.drop_last(), indent) + seq![
            indent + "\t\t<dcsset:item>"@,
            indent + "\t\t\t<dcsset:field>"@ + escape_xml(fields.last()) + "</dcsset:field>"@,
            indent + "\t\t</dcsset:item>"@,
        ]
    }
}

/// The filter comparisons of a list of filters, in order.
pub open spec fn comparisons_lines(filters: Seq<crate::skd_values::SkdEditFilter>, indent: Seq<char>) -> Seq<Seq<char>>
    decreases filters.len(),
{
    if filters.len() == 0 {
        Seq::empty()
    } else {
        comparisons_lines(filters.drop_last(), indent) + filter_comparison_lines(filters.last(), indent)
    }
}

/// The lines of a conditional appearance item.
pub open spec fn conditional_appearance_lines(item: crate::skd_values::SkdEditConditionalAppearance, indent: Seq<char>) -> Seq<Seq<char>> {
    let fields = views(item.fields@);
    let filters = item.filters@;
    seq![indent + "<dcsset:item>"@] + (if fields.len() == 0 {
        seq![indent + "\t<dcsset:selection/>"@]
    } else {
        seq![indent + "\t<dcsset:selection>"@] + appearance_fields_lines(fields, indent) + seq![
            indent + "\t</dcsset:selection>"@,
        ]
    }) + (if filters.len() == 0 {
        seq![indent + "\t<dcsset:filter/>"@]
    } else if filters.len() >= 2 {
        seq![
            indent + "\t<dcsset:filter>"@,
            indent + "\t\t<dcsset:item xsi:type=\"dcsset:FilterItemGroup\">"@,
            indent + "\t\t\t<dcsset:groupType>OrGroup</dcsset:groupType>"@,
        ] + comparisons_lines(filters, indent + "\t\t\t"@) + seq![
            indent + "\t\t</dcsset:item>"@,
            indent + "\t</dcsset:filter>"@,
        ]
    } else {
        seq![indent + "\t<dcsset:filter>"@] + filter_comparison_lines(filters[0], indent + "\t\t"@)
            + seq![indent + "\t</dcsset:filter>"@]
    }) + seq![
        indent + "\t<dcsset:appearance>"@,
        indent + "\t\t<dcscor:item xsi:type=\"dcsset:SettingsParameterValue\">"@,
        indent + "\t\t\t<dcscor:parameter>"@ + escape_xml(item.parameter@) + "</dcscor:parameter>"@,
    ] + appearance_value_lines(item.parameter@, item.value@, indent + "\t\t\t"@) + seq![
        indent + "\t\t</dcscor:item>"@,
        indent + "\t</dcsset:appearance>"@,
        indent + "</dcsset:item>"@,
    ]
}

/// The selection part of a conditional appearance.
pub open spec fn appearance_selection_part(fields: Seq<Seq<char>>, indent: Seq<char>) -> Seq<Seq<char>> {
    if fields.len() == 0 {
        seq![indent + "\t<dcsset:selection/>"@]
    } else {
        seq![indent + "\t<dcsset:selection>"@] + appearance_fields_lines(fields, indent) + seq![
            indent + "\t</dcsset:selection>"@,
        ]
    }
}

/// The filter part of a conditional appearance: one comparison, or an `OrGroup` of several.
pub open spec fn appearance_filter_part(filters: Seq<crate::skd_values::SkdEditFilter>, indent: Seq<char>) -> Seq<Seq<char>> {
    if filters.len() == 0 {
        seq![indent + "\t<dcsset:filter/>"@]
    } else if filters.len() >= 2 {
        seq![
            indent + "\t<dcsset:filter>"@,
            indent + "\t\t<dcsset:item xsi:type=\"dcsset:FilterItemGroup\">"@,
            indent + "\t\t\t<dcsset:groupType>OrGroup</dcsset:groupType>"@,
        ] + comparisons_lines(filters, indent + "\t\t\t"@) + seq![
            indent + "\t\t</dcsset:item>"@,
            indent + "\t</dcsset:filter>"@,
        ]
    } else {
        seq![indent + "\t<dcsset:filter>"@] + filter_comparison_lines(filters[0], indent + "\t\t"@)
            + seq![indent + "\t</dcsset:filter>"@]
    }
}

fn push_appearance_selection(lines: &mut Vec<Vec<char>>, fields: &Vec<Vec<char>>, indent: &[char])
    ensures
        views(final(lines)@) == views(old(lines)@) + appearance_selection_part(views(fields@), indent@),
{
    let ghost start = views(lines@);
    let ghost fs = views(fields@);
    if fields.len() == 0 {
        push_line(lines, lit(indent, "\t<dcsset:selection/>"));
        return;
    }
    push_line(lines, lit(indent, "\t<dcsset:selection>"));
    let ghost before = views(lines@);
    let mut i: usize = 0;
    while i < fields.len()
        invariant
            i <= fields.len(),
            fs == views(fields@),
            views(lines@) == before + appearance_fields_lines(fs.take(i as int), indent@),
        decreases fields.len() - i,
    {
        push_line(lines, lit(indent, "\t\t<dcsset:item>"));
        push_line(lines, wrap_escaped(indent, "\t\t\t<dcsset:field>", &fields[i], "</dcsset:field>"));
        push_line(lines, lit(indent, "\t\t</dcsset:item>"));
        proof {
            assert(fs.take(i + 1).drop_last() =~= fs.take(i as int));
            assert(views(lines@) =~= before + appearance_fields_lines(fs.take(i + 1), indent@));
        }
        i = i + 1;
    }
    assert(fs.take(fields.len() as int) =~= fs);
    push_line(lines, lit(indent, "\t</dcsset:selection>"));
    assert(views(lines@) =~= start + appearance_selection_part(fs, indent@));
}

fn push_appearance_filter(lines: &mut Vec<Vec<char>>, filters: &Vec<crate::skd_values::SkdEditFilter>, indent: &[char])
    ensures
        views(final(lines)@) == views(old(lines)@) + appearance_filter_part(filters@, indent@),
{
    let ghost start = views(lines@);
    if filters.len() == 0 {
        push_line(lines, lit(indent, "\t<dcsset:filter/>"));
        return;
    }
    push_line(lines, lit(indent, "\t<dcsset:filter>"));
    if filters.len() >= 2 {
        push_line(lines, lit(indent, "\t\t<dcsset:item xsi:type=\"dcsset:FilterItemGroup\">"));
        push_line(lines, lit(indent, "\t\t\t<dcsset:groupType>OrGroup</dcsset:groupType>"));
        let i3 = indent_plus(indent, "\t\t\t");
        let ghost before = views(lines@);
        let mut i: usize = 0;
        while i < filters.len()
            invariant
                i <= filters.len(),
                i3@ == indent@ + "\t\t\t"@,
                views(lines@) == before + comparisons_lines(filters@.take(i as int), i3@),
            decreases filters.len() - i,
        {
            skd_edit_emit_filter_comparison(lines, &filters[i], &i3);
            proof {
                assert(filters@.take(i + 1).drop_last() =~= filters@.take(i as int));
            }
            i = i + 1;
        }
        assert(filters@.take(filters.len() as int) =~= filters@);
        push_line(lines, lit(indent, "\t\t</dcsset:item>"));
    } else {
        let i2 = indent_plus(indent, "\t\t");
        skd_edit_emit_filter_comparison(lines, &filters[0], &i2);
    }
    push_line(lines, lit(indent, "\t</dcsset:filter>"));
    assert(views(lines@) =~= start + appearance_filter_part(filters@, indent@));
}

pub fn skd_edit_conditional_appearance_fragment(
    item: &crate::skd_values::SkdEditConditionalAppearance,
    indent: &[char],
) -> (r: Vec<char>)
    ensures
        r@ == join(conditional_appearance_lines(*item, indent@), "\n"@),
{
    let ghost it = *item;
    let mut lines: Vec<Vec<char>> = Vec::new();
    push_line(&mut lines, lit(indent, "<dcsset:item>"));
    push_appearance_selection(&mut lines, &item.fields, indent);
    push_appearance_filter(&mut lines, &item.filters, indent);
    let ghost mid = views(lines@);
    push_line(&mut lines, lit(indent, "\t<dcsset:appearance>"));
    push_line(&mut lines, lit(indent, "\t\t<dcscor:item xsi:type=\"dcsset:SettingsParameterValue\">"));
    push_line(
        &mut lines,
        wrap_escaped(indent, "\t\t\t<dcscor:parameter>", &item.parameter, "</dcscor:parameter>"),
    );
    let i3 = indent_plus(indent, "\t\t\t");
    let more = skd_edit_conditional_appearance_value_lines(&item.parameter, &item.value, &i3);
    push_lines(&mut lines, more);
    push_line(&mut lines, lit(indent, "\t\t</dcscor:item>"));
    push_line(&mut lines, lit(indent, "\t</dcsset:appearance>"));
    push_line(&mut lines, lit(indent, "</dcsset:item>"));
    assert(conditional_appearance_lines(it, indent@) =~= seq![indent@ + "<dcsset:item>"@]
        + appearance_selection_part(views(it.fields@), indent@) + appearance_filter_part(it.filters@, indent@)
        + seq![
        indent@ + "\t<dcsset:appearance>"@,
        indent@ + "\t\t<dcscor:item xsi:type=\"dcsset:SettingsParameterValue\">"@,
        indent@ + "\t\t\t<dcscor:parameter>"@ + escape_xml(it.parameter@) + "</dcscor:parameter>"@,
    ] + appearance_value_lines(it.parameter@, it.value@, indent@ + "\t\t\t"@) + seq![
        indent@ + "\t\t</dcscor:item>"@,
        indent@ + "\t</dcsset:appearance>"@,
        indent@ + "</dcsset:item>"@,
    ]);
    assert(views(lines@) =~= conditional_appearance_lines(it, indent@));
    join_str(&lines, "\n")
}

/// The one-line description of a conditional appearance item.
pub open spec fn conditional_appearance_description(item: crate::skd_values::SkdEditConditionalAppearance) -> Seq<char> {
    let base = item.parameter@ + " = "@ + item.value@;
    let with_filter = if item.filters@.len() >= 2 {
        base + " when OrGroup("@ + crate::numbers::nat_text(item.filters@.len()) + " conditions)"@
    } else if item.filters@.len() == 1 {
        base + " when "@ + item.filters@[0].field@ + " "@ + item.filters@[0].operator@
    } else {
        base
    };
    if item.fields@.len() > 0 {
        with_filter + " for "@ + join(views(item.fields@), ", "@)
    } else {
        with_filter
    }
}

pub fn skd_edit_conditional_appearance_description(item: &crate::skd_values::SkdEditConditionalAppearance) -> (r: Vec<char>)
    ensures
        r@ == conditional_appearance_description(*item),
{
    let mut desc = crate::text::to_vec(&item.parameter);
    push_str(&mut desc, " = ");
    push_chars(&mut desc, &item.value);
    if item.filters.len() >= 2 {
        push_str(&mut desc, " when OrGroup(");
        push_chars(&mut desc, &crate::numbers::usize_text(item.filters.len()));
        push_str(&mut desc, " conditions)");
    } else if item.filters.len() == 1 {
        push_str(&mut desc, " when ");
        push_chars(&mut desc, &item.filters[0].field);
        push_str(&mut desc, " ");
        push_chars(&mut desc, &item.filters[0].operator);
    }
    if item.fields.len() > 0 {
        push_str(&mut desc, " for ");
        push_chars(&mut desc, &join_str(&item.fields, ", "));
    }
    desc
}

/// The lines of an output parameter item; a title (`Заголовок`) is a localized
/// string, other values as settings values.
pub open spec fn output_parameter_lines(item: crate::skd_values::SkdEditOutputParameter, indent: Seq<char>) -> Seq<Seq<char>> {
    seq![
        indent + "<dcscor:item xsi:type=\"dcsset:SettingsParameterValue\">"@,
        indent + "\t<dcscor:parameter>"@ + escape_xml(item.key@) + "</dcscor:parameter>"@,
    ] + (if item.key@ == "Заголовок"@ {
        seq![
            indent + "\t<dcscor:value xsi:type=\"v8:LocalStringType\">"@,
            indent + "\t\t<v8:item>"@,
            indent + "\t\t\t<v8:lang>ru</v8:lang>"@,
            indent + "\t\t\t<v8:content>"@ + escape_xml(item.value@) + "</v8:content>"@,
            indent + "\t\t</v8:item>"@,
            indent + "\t</dcscor:value>"@,
        ]
    } else {
        settings_value_lines("dcscor:value"@, item.value@, indent)
    }) + seq![indent + "</dcscor:item>"@]
}

pub fn skd_edit_output_parameter_fragment(item: &crate::skd_values::SkdEditOutputParameter, indent: &[char]) -> (r: Vec<char>)
    ensures
        r@ == join(output_parameter_lines(*item, indent@), "\n"@),
{
    let mut lines: Vec<Vec<char>> = Vec::new();
    push_line(&mut lines, lit(indent, "<dcscor:item xsi:type=\"dcsset:SettingsParameterValue\">"));
    push_line(&mut lines, wrap_escaped(indent, "\t<dcscor:parameter>", &item.key, "</dcscor:parameter>"));
    let ghost a = views(lines@);
    if crate::text::eq_str(&item.key, "Заголовок") {
        push_line(&mut lines, lit(indent, "\t<dcscor:value xsi:type=\"v8:LocalStringType\">"));
        push_line(&mut lines, lit(indent, "\t\t<v8:item>"));
        push_line(&mut lines, lit(indent, "\t\t\t<v8:lang>ru</v8:lang>"));
        push_line(&mut lines, wrap_escaped(indent, "\t\t\t<v8:content>", &item.value, "</v8:content>"));
        push_line(&mut lines, lit(indent, "\t\t</v8:item>"));
        push_line(&mut lines, lit(indent, "\t</dcscor:value>"));
    } else {
        let tag = chars_of("dcscor:value");
        let more = skd_edit_settings_value_lines(&tag, &item.value, indent);
        push_lines(&mut lines, more);
    }
    let ghost b = views(lines@);
    push_line(&mut lines, lit(indent, "</dcscor:item>"));
    proof {
        assert(a =~= seq![
            indent@ + "<dcscor:item xsi:type=\"dcsset:SettingsParameterValue\">"@,
            indent@ + "\t<dcscor:parameter>"@ + escape_xml(item.key@) + "</dcscor:parameter>"@,
        ]);
        assert(views(lines@) =~= output_parameter_lines(*item, indent@));
    }
    join_str(&lines, "\n")
}

/// The lines of one grouping field item.
pub open spec fn group_item_field_lines(field: Seq<char>, indent: Seq<char>) -> Seq<Seq<char>> {
    seq![
        indent + "<dcsset:item xsi:type=\"dcsset:GroupItemField\">"@,
        indent + "\t<dcsset:field>"@ + escape_xml(field) + "</dcsset:field>"@,
        indent + "\t<dcsset:groupType>Items</dcsset:groupType>"@,
        indent + "\t<dcsset:periodAdditionType>None</dcsset:periodAdditionType>"@,
        indent + "\t<dcsset:periodAdditionBegin xsi:type=\"xs:dateTime\">0001-01-01T00:00:00</dcsset:periodAdditionBegin>"@,
        indent + "\t<dcsset:periodAdditionEnd xsi:type=\"xs:dateTime\">0001-01-01T00:00:00</dcsset:periodAdditionEnd>"@,
        indent + "</dcsset:item>"@,
    ]
}

pub fn skd_edit_group_item_field_fragment(field: &[char], indent: &[char]) -> (r: Vec<char>)
    ensures
        r@ == join(group_item_field_lines(field@, indent@), "\n"@),
{
    let mut lines: Vec<Vec<char>> = Vec::new();
    push_line(&mut lines, lit(indent, "<dcsset:item xsi:type=\"dcsset:GroupItemField\">"));
    push_line(&mut lines, wrap_escaped(indent, "\t<dcsset:field>", field, "</dcsset:field>"));
    push_line(&mut lines, lit(indent, "\t<dcsset:groupType>Items</dcsset:groupType>"));
    push_line(&mut lines, lit(indent, "\t<dcsset:periodAdditionType>None</dcsset:periodAdditionType>"));
    push_line(&mut lines, lit(indent, "\t<dcsset:periodAdditionBegin xsi:type=\"xs:dateTime\">0001-01-01T00:00:00</dcsset:periodAdditionBegin>"));
    push_line(&mut lines, lit(indent, "\t<dcsset:periodAdditionEnd xsi:type=\"xs:dateTime\">0001-01-01T00:00:00</dcsset:periodAdditionEnd>"));
    push_line(&mut lines, lit(indent, "</dcsset:item>"));
    assert(views(lines@) =~= group_item_field_lines(field@, indent@));
    join_str(&lines, "\n")
}

/// Each grouping field's item followed by a line break.
pub open spec fn group_items_inner(group_by: Seq<Seq<char>>, indent: Seq<char>) -> Seq<char>
    decreases group_by.len(),
{
    if group_by.len() == 0 {
        Seq::empty()
    } else {
        group_items_inner(group_by.drop_last(), indent) + join(group_item_field_lines(group_by.last(), indent), "\n"@)
            + "\n"@
    }
}

pub fn skd_edit_group_items_inner_fragment(group_by: &[Vec<char>], indent: &[char]) -> (r: Vec<char>)
    ensures
        r@ == group_items_inner(views(group_by@), indent@),
{
    let mut r: Vec<char> = Vec::new();
    let mut i: usize = 0;
    while i < group_by.len()
        invariant
            i <= group_by@.len(),
            r@ == group_items_inner(views(group_by@).take(i as int), indent@),
        decreases group_by.len() - i,
    {
        let f = skd_edit_group_item_field_fragment(&group_by[i], indent);
        push_chars(&mut r, &f);
        push_str(&mut r, "\n");
        proof {
            assert(views(group_by@).take(i + 1).drop_last() =~= views(group_by@).take(i as int));
        }
        i = i + 1;
    }
    assert(views(group_by@).take(i as int) =~= views(group_by@));
    r
}

/// The `<dcsset:groupItems>` element for the fields: self-closing when empty.
pub open spec fn group_items_fragment(group_by: Seq<Seq<char>>, indent: Seq<char>) -> Seq<char> {
    if group_by.len() == 0 {
        indent + "<dcsset:groupItems/>"@
    } else {
        indent + "<dcsset:groupItems>\n"@ + group_items_inner(group_by, indent + "\t"@) + indent
            + "</dcsset:groupItems>"@
    }
}

pub fn skd_edit_group_items_fragment(group_by: &[Vec<char>], indent: &[char]) -> (r: Vec<char>)
    ensures
        r@ == group_items_fragment(views(group_by@), indent@),
{
    if group_by.len() == 0 {
        return lit(indent, "<dcsset:groupItems/>");
    }
    let mut r = lit(indent, "<dcsset:groupItems>\n");
    let inner_indent = lit(indent, "\t");
    push_chars(&mut r, &skd_edit_group_items_inner_fragment(group_by, &inner_indent));
    push_chars(&mut r, indent);
    push_str(&mut r, "</dcsset:groupItems>");
    r
}

/// The lines of a structure group, its nested groups one tab deeper.
pub open spec fn structure_item_lines(item: crate::skd_values::SkdEditStructureItem, indent: Seq<char>) -> Seq<Seq<char>>
    decreases item, 1int, 0int,
{
    seq![indent + "<dcsset:item xsi:type=\"dcsset:StructureItemGroup\">"@] + (match item.name {
        Some(n) => seq![indent + "\t<dcsset:name>"@ + escape_xml(n@) + "</dcsset:name>"@],
        None => Seq::empty(),
    }) + (if item.group_by@.len() == 0 {
        seq![indent + "\t<dcsset:groupItems/>"@]
    } else {
        seq![indent + "\t<dcsset:groupItems>"@] + views(item.group_by@).map_values(
            |f: Seq<char>| join(group_item_field_lines(f, indent + "\t\t"@), "\n"@),
        ) + seq![indent + "\t</dcsset:groupItems>"@]
    }) + seq![
        indent + "\t<dcsset:order>"@,
        indent + "\t\t<dcsset:item xsi:type=\"dcsset:OrderItemAuto\"/>"@,
        indent + "\t</dcsset:order>"@,
        indent + "\t<dcsset:selection>"@,
        indent + "\t\t<dcsset:item xsi:type=\"dcsset:SelectedItemAuto\"/>"@,
        indent + "\t</dcsset:selection>"@,
    ] + child_item_lines(item, indent + "\t"@, 0) + seq![indent + "</dcsset:item>"@]
}

/// The fragments of the children of `item` from the `i`-th on, one line each.
pub open spec fn child_item_lines(item: crate::skd_values::SkdEditStructureItem, indent: Seq<char>, i: int) -> Seq<Seq<char>>
    decreases item, 0int, item.children@.len() - i,
{
    if i < 0 || i >= item.children@.len() {
        Seq::empty()
    } else {
        proof {
            assert(decreases_to!(item => item.children));
            assert(decreases_to!(item.children => item.children@));
            assert(decreases_to!(item.children@ => item.children@[i]));
        }
        seq![join(structure_item_lines(item.children@[i], indent), "\n"@)] + child_item_lines(item, indent, i + 1)
    }
}

pub fn skd_edit_structure_item_fragment(item: &crate::skd_values::SkdEditStructureItem, indent: &[char]) -> (r: Vec<char>)
    ensures
        r@ == join(structure_item_lines(*item, indent@), "\n"@),
    decreases item, 1int, 0int,
{
    let mut lines: Vec<Vec<char>> = Vec::new();
    push_line(&mut lines, lit(indent, "<dcsset:item xsi:type=\"dcsset:StructureItemGroup\">"));
    let ghost a = views(lines@);
    match &item.name {
        Some(n) => push_line(&mut lines, wrap_escaped(indent, "\t<dcsset:name>", n, "</dcsset:name>")),
        None => {},
    }
    let ghost b = views(lines@);
    if item.group_by.len() == 0 {
        push_line(&mut lines, lit(indent, "\t<dcsset:groupItems/>"));
    } else {
        push_line(&mut lines, lit(indent, "\t<dcsset:groupItems>"));
        let field_indent = lit(indent, "\t\t");
        let ghost c0 = views(lines@);
        let mut k: usize = 0;
        while k < item.group_by.len()
            invariant
                k <= item.group_by@.len(),
                field_indent@ == indent@ + "\t\t"@,
                views(lines@) == c0 + views(item.group_by@).take(k as int).map_values(
                    |f: Seq<char>| join(group_item_field_lines(f, indent@ + "\t\t"@), "\n"@),
                ),
            decreases item.group_by@.len() - k,
        {
            let f = skd_edit_group_item_field_fragment(&item.group_by[k], &field_indent);
            push_line(&mut lines, f);
            proof {
                assert(views(item.group_by@).take(k + 1).map_values(
                    |f: Seq<char>| join(group_item_field_lines(f, indent@ + "\t\t"@), "\n"@),
                ) =~= views(item.group_by@).take(k as int).map_values(
                    |f: Seq<char>| join(group_item_field_lines(f, indent@ + "\t\t"@), "\n"@),
                ).push(join(group_item_field_lines(views(item.group_by@)[k as int], indent@ + "\t\t"@), "\n"@)));
            }
            k = k + 1;
        }
        assert(views(item.group_by@).take(k as int) =~= views(item.group_by@));
        push_line(&mut lines, lit(indent, "\t</dcsset:groupItems>"));
    }
    let ghost c = views(lines@);
    push_line(&mut lines, lit(indent, "\t<dcsset:order>"));
    push_line(&mut lines, lit(indent, "\t\t<dcsset:item xsi:type=\"dcsset:OrderItemAuto\"/>"));
    push_line(&mut lines, lit(indent, "\t</dcsset:order>"));
    push_line(&mut lines, lit(indent, "\t<dcsset:selection>"));
    push_line(&mut lines, lit(indent, "\t\t<dcsset:item xsi:type=\"dcsset:SelectedItemAuto\"/>"));
    push_line(&mut lines, lit(indent, "\t</dcsset:selection>"));
    let ghost d = views(lines@);
    let child_indent = lit(indent, "\t");
    push_child_item_lines(&mut lines, item, &child_indent, 0);
    let ghost e = views(lines@);
    push_line(&mut lines, lit(indent, "</dcsset:item>"));
    proof {
        assert(views(lines@) =~= structure_item_lines(*item, indent@));
    }
    join_str(&lines, "\n")
}

fn push_child_item_lines(lines: &mut Vec<Vec<char>>, item: &crate::skd_values::SkdEditStructureItem, indent: &[char], i: usize)
    ensures
        views(final(lines)@) == views(old(lines)@) + child_item_lines(*item, indent@, i as int),
    decreases item, 0int, item.children@.len() - i,
{
    if i >= item.children.len() {
        assert(views(lines@) =~= views(lines@) + Seq::<Seq<char>>::empty());
        return;
    }
    let ghost start = views(lines@);
    proof {
        assert(decreases_to!(item => item.children));
        assert(decreases_to!(item.children => item.children@));
        assert(decreases_to!(item.children@ => item.children@[i as int]));
    }
    let f = skd_edit_structure_item_fragment(&item.children[i], indent);
    push_line(lines, f);
    push_child_item_lines(lines, item, indent, i + 1);
    assert(views(lines@) =~= start + child_item_lines(*item, indent@, i as int));
}

/// The structures' fragments, one after the other.
pub open spec fn structure_fragments(items: Seq<crate::skd_values::SkdEditStructureItem>, indent: Seq<char>) -> Seq<char> {
    join(items.map_values(|x: crate::skd_values::SkdEditStructureItem| join(structure_item_lines(x, indent), "\n"@)), "\n"@)
}

pub fn skd_edit_structure_fragments(structures: &[crate::skd_values::SkdEditStructureItem], indent: &[char]) -> (r: Vec<char>)
    ensures
        r@ == structure_fragments(structures@, indent@),
{
    let ghost all = structures@.map_values(|x: crate::skd_values::SkdEditStructureItem| join(structure_item_lines(x, indent@), "\n"@));
    let mut parts: Vec<Vec<char>> = Vec::new();
    let mut i: usize = 0;
    while i < structures.len()
        invariant
            i <= structures@.len(),
            all == structures@.map_values(|x: crate::skd_values::SkdEditStructureItem| join(structure_item_lines(x, indent@), "\n"@)),
            views(parts@) == all.take(i as int),
        decreases structures.len() - i,
    {
        let f = skd_edit_structure_item_fragment(&structures[i], indent);
        push_line(&mut parts, f);
        assert(all.take(i + 1) =~= all.take(i as int).push(all[i as int]));
        i = i + 1;
    }
    assert(all.take(i as int) =~= all);
    join_str(&parts, "\n")
}

/// The lines of the role flags, in order (`period` gives two lines).
pub open spec fn role_flag_lines(roles: Seq<Seq<char>>, indent: Seq<char>) -> Seq<Seq<char>>
    decreases roles.len(),
{
    if roles.len() == 0 {
        Seq::empty()
    } else {
        role_flag_lines(roles.drop_last(), indent) + (if roles.last() == "period"@ {
            seq![
                indent + "\t<dcscom:periodNumber>1</dcscom:periodNumber>"@,
                indent + "\t<dcscom:periodType>Main</dcscom:periodType>"@,
            ]
        } else {
            seq![indent + "\t<dcscom:"@ + roles.last() + ">true</dcscom:"@ + roles.last() + ">"@]
        })
    }
}

/// The `<role>` element of a field's roles; empty for no roles.
pub open spec fn field_role_fragment(roles: Seq<Seq<char>>, indent: Seq<char>) -> Seq<char> {
    if roles.len() == 0 {
        Seq::empty()
    } else {
        join(seq![indent + "<role>"@] + role_flag_lines(roles, indent) + seq![indent + "</role>"@], "\n"@)
    }
}

pub fn skd_edit_field_role_fragment(roles: &[Vec<char>], indent: &[char]) -> (r: Vec<char>)
    ensures
        r@ == field_role_fragment(views(roles@), indent@),
{
    if roles.len() == 0 {
        return Vec::new();
    }
    let mut lines: Vec<Vec<char>> = Vec::new();
    push_line(&mut lines, lit(indent, "<role>"));
    let ghost a = views(lines@);
    let mut i: usize = 0;
    while i < roles.len()
        invariant
            i <= roles@.len(),
            views(lines@) == a + role_flag_lines(views(roles@).take(i as int), indent@),
        decreases roles.len() - i,
    {
        proof {
            assert(views(roles@).take(i + 1).drop_last() =~= views(roles@).take(i as int));
            assert(views(roles@).take(i + 1).last() == roles@[i as int]@);
        }
        let ghost before = views(lines@);
        if crate::text::eq_str(&roles[i], "period") {
            push_line(&mut lines, lit(indent, "\t<dcscom:periodNumber>1</dcscom:periodNumber>"));
            push_line(&mut lines, lit(indent, "\t<dcscom:periodType>Main</dcscom:periodType>"));
        } else {
            let mut l = lit(indent, "\t<dcscom:");
            push_chars(&mut l, &roles[i]);
            push_str(&mut l, ">true</dcscom:");
            push_chars(&mut l, &roles[i]);
            push_str(&mut l, ">");
            push_line(&mut lines, l);
        }
        assert(views(lines@) =~= a + role_flag_lines(views(roles@).take(i + 1), indent@));
        i = i + 1;
    }
    assert(views(roles@).take(i as int) =~= views(roles@));
    push_line(&mut lines, lit(indent, "</role>"));
    assert(views(lines@) =~= seq![indent@ + "<role>"@] + role_flag_lines(views(roles@), indent@) + seq![indent@ + "</role>"@]);
    join_str(&lines, "\n")
}

/// The use-restriction tag a marker stands for.
pub open spec fn restriction_tag(item: Seq<char>) -> Option<Seq<char>> {
    if item == "noField"@ {
        Some("field"@)
    } else if item == "noFilter"@ || item == "noCondition"@ {
        Some("condition"@)
    } else if item == "noGroup"@ {
        Some("group"@)
    } else if item == "noOrder"@ {
        Some("order"@)
    } else {
        None
    }
}

/// The restriction lines of the markers that stand for a tag.
pub open spec fn restriction_lines(items: Seq<Seq<char>>, indent: Seq<char>) -> Seq<Seq<char>>
    decreases items.len(),
{
    if items.len() == 0 {
        Seq::empty()
    } else {
        restriction_lines(items.drop_last(), indent) + match restriction_tag(items.last()) {
            Some(tag) => seq![indent + "\t<"@ + tag + ">true</"@ + tag + ">"@],
            None => Seq::empty(),
        }
    }
}

/// The `<useRestriction>` element; empty when no marker stands for a tag.
pub open spec fn field_restriction_fragment(restrict: Seq<Seq<char>>, indent: Seq<char>) -> Seq<char> {
    let body = restriction_lines(restrict, indent);
    if body.len() == 0 {
        Seq::empty()
    } else {
        join(seq![indent + "<useRestriction>"@] + body + seq![indent + "</useRestriction>"@], "\n"@)
    }
}

fn restriction_tag_exec(item: &[char]) -> (r: Option<&'static str>)
    ensures
        crate::skd_values::opt_str(r) == restriction_tag(item@),
{
    if crate::text::eq_str(item, "noField") {
        Some("field")
    } else if crate::text::eq_str(item, "noFilter") || crate::text::eq_str(item, "noCondition") {
        Some("condition")
    } else if crate::text::eq_str(item, "noGroup") {
        Some("group")
    } else if crate::text::eq_str(item, "noOrder") {
        Some("order")
    } else {
        None
    }
}

pub fn skd_edit_field_restriction_fragment(restrict: &[Vec<char>], indent: &[char]) -> (r: Vec<char>)
    ensures
        r@ == field_restriction_fragment(views(restrict@), indent@),
{
    if restrict.len() == 0 {
        return Vec::new();
    }
    let mut lines: Vec<Vec<char>> = Vec::new();
    push_line(&mut lines, lit(indent, "<useRestriction>"));
    let ghost a = views(lines@);
    let mut i: usize = 0;
    while i < restrict.len()
        invariant
            i <= restrict@.len(),
            views(lines@) == a + restriction_lines(views(restrict@).take(i as int), indent@),
        decreases restrict.len() - i,
    {
        proof {
            assert(views(restrict@).take(i + 1).drop_last() =~= views(restrict@).take(i as int));
            assert(views(restrict@).take(i + 1).last() == restrict@[i as int]@);
        }
        match restriction_tag_exec(&restrict[i]) {
            Some(tag) => {
                let mut l = lit(indent, "\t<");
                push_str(&mut l, tag);
                push_str(&mut l, ">true</");
                push_str(&mut l, tag);
                push_str(&mut l, ">");
                push_line(&mut lines, l);
            },
            None => {},
        }
        assert(views(lines@) =~= a + restriction_lines(views(restrict@).take(i + 1), indent@));
        i = i + 1;
    }
    assert(views(restrict@).take(i as int) =~= views(restrict@));
    assert(views(lines@).len() == 1 + restriction_lines(views(restrict@), indent@).len());
    if lines.len() <= 1 {
        return Vec::new();
    }
    push_line(&mut lines, lit(indent, "</useRestriction>"));
    assert(views(lines@) =~= seq![indent@ + "<useRestriction>"@] + restriction_lines(views(restrict@), indent@) + seq![indent@ + "</useRestriction>"@]);
    join_str(&lines, "\n")
}

/// The lines of a data set field (the restriction and role fragments are one
/// entry each).
pub open spec fn field_spec_lines(field: crate::skd_values::FieldSpec, indent: Seq<char>) -> Seq<Seq<char>> {
    let inner = indent + "\t"@;
    let restriction = field_restriction_fragment(field.restrict, inner);
    let role = field_role_fragment(field.roles, inner);
    seq![
        indent + "<field xsi:type=\"DataSetFieldField\">"@,
        inner + "<dataPath>"@ + escape_xml(field.data_path) + "</dataPath>"@,
        inner + "<field>"@ + escape_xml(field.field) + "</field>"@,
    ] + (if field.title.len() > 0 {
        mltext_lines(inner, "title"@, field.title)
    } else {
        Seq::empty()
    }) + (if restriction.len() > 0 {
        seq![restriction]
    } else {
        Seq::empty()
    }) + (if role.len() > 0 {
        seq![role]
    } else {
        Seq::empty()
    }) + (if field.field_type.len() > 0 {
        seq![inner + "<valueType>"@] + value_type_lines(field.field_type, indent + "\t\t"@) + seq![
            inner + "</valueType>"@,
        ]
    } else {
        Seq::empty()
    }) + seq![indent + "</field>"@]
}

/// The lines of a data set field.
pub open spec fn field_lines(field: crate::skd_values::SkdEditField, indent: Seq<char>) -> Seq<Seq<char>> {
    field_spec_lines(crate::skd_values::field_view(field), indent)
}

#[verifier::rlimit(40)]
pub fn skd_edit_emit_field(lines: &mut Vec<Vec<char>>, field: &crate::skd_values::SkdEditField, indent: &[char])
    ensures
        views(final(lines)@) == views(old(lines)@) + field_lines(*field, indent@),
{
    let ghost start = views(lines@);
    let inner = lit(indent, "\t");
    push_line(lines, lit(indent, "<field xsi:type=\"DataSetFieldField\">"));
    push_line(lines, wrap_escaped(&inner, "<dataPath>", &field.data_path, "</dataPath>"));
    push_line(lines, wrap_escaped(&inner, "<field>", &field.field, "</field>"));
    let ghost a = views(lines@);
    if field.title.len() > 0 {
        let title = chars_of("title");
        skd_compile_emit_mltext(lines, &inner, &title, &field.title);
    }
    let ghost b = views(lines@);
    let restriction = skd_edit_field_restriction_fragment(&field.restrict, &inner);
    if restriction.len() > 0 {
        push_line(lines, restriction);
    }
    let ghost c = views(lines@);
    let role = skd_edit_field_role_fragment(&field.roles, &inner);
    if role.len() > 0 {
        push_line(lines, role);
    }
    let ghost d = views(lines@);
    if field.field_type.len() > 0 {
        push_line(lines, lit(&inner, "<valueType>"));
        let deeper = lit(indent, "\t\t");
        skd_compile_emit_value_type(lines, &field.field_type, &deeper);
        push_line(lines, lit(&inner, "</valueType>"));
    }
    let ghost e = views(lines@);
    push_line(lines, lit(indent, "</field>"));
    proof {
        assert(views(lines@) =~= start + field_lines(*field, indent@));
    }
}

/// `Folder(Title: A, B)` as (title, items); `None` for other values.
pub open spec fn folder_parts(field_name: Seq<char>) -> Option<(Seq<char>, Seq<Seq<char>>)> {
    if field_name.len() >= 8 && crate::text::starts_with(field_name, "Folder("@) && field_name.last() == ')' {
        let inner = field_name.subrange(7, field_name.len() - 1);
        let (title, raw) = match crate::text::split_once(inner, ":"@) {
            Some((a, b)) => (trim(a), b),
            None => (Seq::empty(), inner),
        };
        Some((title, trim_nonempty(split(raw, ","@))))
    } else {
        None
    }
}

/// The lines of a selection folder.
pub open spec fn folder_lines(title: Seq<char>, items: Seq<Seq<char>>, indent: Seq<char>) -> Seq<Seq<char>> {
    seq![indent + "<dcsset:item xsi:type=\"dcsset:SelectedItemFolder\">"@] + (if title.len() > 0 {
        seq![
            indent + "\t<dcsset:lwsTitle>"@,
            indent + "\t\t<v8:item>"@,
            indent + "\t\t\t<v8:lang>ru</v8:lang>"@,
            indent + "\t\t\t<v8:content>"@ + escape_xml(title) + "</v8:content>"@,
            indent + "\t\t</v8:item>"@,
            indent + "\t</dcsset:lwsTitle>"@,
        ]
    } else {
        Seq::empty()
    }) + folder_item_lines(items, indent) + seq![
        indent + "\t<dcsset:placement>Auto</dcsset:placement>"@,
        indent + "</dcsset:item>"@,
    ]
}

/// Three lines per folder item.
pub open spec fn folder_item_lines(items: Seq<Seq<char>>, indent: Seq<char>) -> Seq<Seq<char>>
    decreases items.len(),
{
    if items.len() == 0 {
        Seq::empty()
    } else {
        folder_item_lines(items.drop_last(), indent) + seq![
            indent + "\t<dcsset:item xsi:type=\"dcsset:SelectedItemField\">"@,
            indent + "\t\t<dcsset:field>"@ + escape_xml(items.last()) + "</dcsset:field>"@,
            indent + "\t</dcsset:item>"@,
        ]
    }
}

/// The selection item for a field: the automatic item, a folder of fields, or
/// one field.
pub open spec fn selection_fragment(field_name: Seq<char>, indent: Seq<char>) -> Seq<char> {
    if field_name == "Auto"@ {
        indent + "<dcsset:item xsi:type=\"dcsset:SelectedItemAuto\"/>"@
    } else {
        match folder_parts(field_name) {
            Some((title, items)) => join(folder_lines(title, items, indent), "\n"@),
            None => join(
                seq![
                    indent + "<dcsset:item xsi:type=\"dcsset:SelectedItemField\">"@,
                    indent + "\t<dcsset:field>"@ + escape_xml(field_name) + "</dcsset:field>"@,
                    indent + "</dcsset:item>"@,
                ],
                "\n"@,
            ),
        }
    }
}

pub fn skd_edit_selection_fragment(field_name: &[char], indent: &[char]) -> (r: Vec<char>)
    ensures
        r@ == selection_fragment(field_name@, indent@),
{
    if crate::text::eq_str(field_name, "Auto") {
        return lit(indent, "<dcsset:item xsi:type=\"dcsset:SelectedItemAuto\"/>");
    }
    proof {
        reveal_strlit("Folder(");
        reveal_strlit(":");
        reveal_strlit(",");
    }
    if field_name.len() >= 8 && crate::text::starts_with_str(field_name, "Folder(") && field_name[field_name.len() - 1] == ')' {
        let inner = crate::text::slice_to_vec(field_name, 7, field_name.len() - 1);
        let (title, raw) = match crate::text::split_once_str(&inner, ":") {
            Some((a, b)) => (crate::text::trim_chars(&a), b),
            None => (Vec::new(), inner.clone()),
        };
        assert(inner@ == field_name@.subrange(7, field_name@.len() - 1));
        let items = split_trim_nonempty(&raw, ",");
        let mut lines: Vec<Vec<char>> = Vec::new();
        push_line(&mut lines, lit(indent, "<dcsset:item xsi:type=\"dcsset:SelectedItemFolder\">"));
        let ghost a = views(lines@);
        if title.len() > 0 {
            push_line(&mut lines, lit(indent, "\t<dcsset:lwsTitle>"));
            push_line(&mut lines, lit(indent, "\t\t<v8:item>"));
            push_line(&mut lines, lit(indent, "\t\t\t<v8:lang>ru</v8:lang>"));
            push_line(&mut lines, wrap_escaped(indent, "\t\t\t<v8:content>", &title, "</v8:content>"));
            push_line(&mut lines, lit(indent, "\t\t</v8:item>"));
            push_line(&mut lines, lit(indent, "\t</dcsset:lwsTitle>"));
        }
        let ghost b = views(lines@);
        let mut i: usize = 0;
        while i < items.len()
            invariant
                i <= items@.len(),
                views(lines@) == b + folder_item_lines(views(items@).take(i as int), indent@),
            decreases items.len() - i,
        {
            push_line(&mut lines, lit(indent, "\t<dcsset:item xsi:type=\"dcsset:SelectedItemField\">"));
            push_line(&mut lines, wrap_escaped(indent, "\t\t<dcsset:field>", &items[i], "</dcsset:field>"));
            push_line(&mut lines, lit(indent, "\t</dcsset:item>"));
            proof {
                assert(views(items@).take(i + 1).drop_last() =~= views(items@).take(i as int));
                assert(views(lines@) =~= b + folder_item_lines(views(items@).take(i + 1), indent@));
            }
            i = i + 1;
        }
        assert(views(items@).take(i as int) =~= views(items@));
        push_line(&mut lines, lit(indent, "\t<dcsset:placement>Auto</dcsset:placement>"));
        push_line(&mut lines, lit(indent, "</dcsset:item>"));
        proof {
            assert(views(lines@) =~= folder_lines(title@, views(items@), indent@));
        }
        return join_str(&lines, "\n");
    }
    let mut lines: Vec<Vec<char>> = Vec::new();
    push_line(&mut lines, lit(indent, "<dcsset:item xsi:type=\"dcsset:SelectedItemField\">"));
    push_line(&mut lines, wrap_escaped(indent, "\t<dcsset:field>", field_name, "</dcsset:field>"));
    push_line(&mut lines, lit(indent, "</dcsset:item>"));
    proof {
        assert(views(lines@) =~= seq![
            indent@ + "<dcsset:item xsi:type=\"dcsset:SelectedItemField\">"@,
            indent@ + "\t<dcsset:field>"@ + escape_xml(field_name@) + "</dcsset:field>"@,
            indent@ + "</dcsset:item>"@,
        ]);
    }
    join_str(&lines, "\n")
}

/// The order item for a value: the automatic item, or a field with its
/// direction.
pub open spec fn order_fragment(value: Seq<char>, indent: Seq<char>) -> Seq<char> {
    let v = trim(value);
    if v == "Auto"@ {
        indent + "<dcsset:item xsi:type=\"dcsset:OrderItemAuto\"/>"@
    } else {
        let ws = crate::text::words(v);
        let field = if ws.len() > 0 {
            ws[0]
        } else {
            v
        };
        let direction = if ws.len() > 1 && crate::text::eq_ignore_ascii_case(ws[1], "desc"@) {
            "Desc"@
        } else {
            "Asc"@
        };
        join(
            seq![
                indent + "<dcsset:item xsi:type=\"dcsset:OrderItemField\">"@,
                indent + "\t<dcsset:field>"@ + escape_xml(field) + "</dcsset:field>"@,
                indent + "\t<dcsset:orderType>"@ + direction + "</dcsset:orderType>"@,
                indent + "</dcsset:item>"@,
            ],
            "\n"@,
        )
    }
}

pub fn skd_edit_order_fragment(value: &[char], indent: &[char]) -> (r: Vec<char>)
    ensures
        r@ == order_fragment(value@, indent@),
{
    let v = trim_chars(value);
    if crate::text::eq_str(&v, "Auto") {
        return lit(indent, "<dcsset:item xsi:type=\"dcsset:OrderItemAuto\"/>");
    }
    let (field, direction) = crate::skd_values::order_field_direction(&v);
    let mut lines: Vec<Vec<char>> = Vec::new();
    push_line(&mut lines, lit(indent, "<dcsset:item xsi:type=\"dcsset:OrderItemField\">"));
    push_line(&mut lines, wrap_escaped(indent, "\t<dcsset:field>", &field, "</dcsset:field>"));
    let mut l = lit(indent, "\t<dcsset:orderType>");
    push_str(&mut l, direction);
    push_str(&mut l, "</dcsset:orderType>");
    push_line(&mut lines, l);
    push_line(&mut lines, lit(indent, "</dcsset:item>"));
    proof {
        let ws = crate::text::words(v@);
        let fv = if ws.len() > 0 {
            ws[0]
        } else {
            v@
        };
        let dv = if ws.len() > 1 && crate::text::eq_ignore_ascii_case(ws[1], "desc"@) {
            "Desc"@
        } else {
            "Asc"@
        };
        assert(views(lines@) =~= seq![
            indent@ + "<dcsset:item xsi:type=\"dcsset:OrderItemField\">"@,
            indent@ + "\t<dcsset:field>"@ + escape_xml(fv) + "</dcsset:field>"@,
            indent@ + "\t<dcsset:orderType>"@ + dv + "</dcsset:orderType>"@,
            indent@ + "</dcsset:item>"@,
        ]);
    }
    join_str(&lines, "\n")
}

} // verus!
