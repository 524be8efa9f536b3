//! Parsing of the compact value notation that the DCS editor accepts
//! (`Name [Title]: type = expression @marker`, filter expressions, lists).
use vstd::prelude::*;
use crate::external::{lowercase_of, to_lowercase};
use crate::text::{
    chars_of, contains, contains_str, eq_str, first_match, find_str, is_one_of, is_one_of_exec,
    join, join_str, lemma_first_match_bounds, lit_views, opt_int, push_chars, push_str,
    slice_to_vec, split, split_once, split_once_str, split_trim_nonempty, starts_with,
    starts_with_str, trim, trim_chars, trim_nonempty, trim_range, views, words,
    split_whitespace, ends_with, ends_with_str, lemma_views_push, to_vec,
};

verus! {

/// The operations whose value is taken whole rather than split into a list.
pub open spec fn takes_whole_value(operation: Seq<char>) -> bool {
    operation == "set-query"@ || operation == "set-structure"@ || operation == "modify-structure"@
        || operation == "add-dataSet"@
}

/// How an operation's value splits into the items it applies to: whole for the
/// query and structure operations, on `,` for drill-downs without `;;`, and on
/// `;;` otherwise; items are trimmed and empty ones dropped.
pub open spec fn split_values(operation: Seq<char>, value: Seq<char>) -> Seq<Seq<char>> {
    if takes_whole_value(operation) {
        seq![value]
    } else if operation == "add-drilldown"@ && !contains(value, ";;"@) {
        trim_nonempty(split(value, ","@))
    } else {
        trim_nonempty(split(value, ";;"@))
    }
}

pub fn skd_edit_split_values(operation: &[char], value: &[char]) -> (r: Vec<Vec<char>>)
    ensures
        views(r@) == split_values(operation@, value@),
{
    if eq_str(operation, "set-query") || eq_str(operation, "set-structure") || eq_str(
        operation,
        "modify-structure",
    ) || eq_str(operation, "add-dataSet") {
        let mut r: Vec<Vec<char>> = Vec::new();
        let v = to_vec(value);
        r.push(v);
        proof {
            assert(views(r@) =~= seq![value@]);
        }
        return r;
    }
    proof {
        reveal_strlit(",");
        reveal_strlit(";;");
    }
    if eq_str(operation, "add-drilldown") && !contains_str(value, ";;") {
        return split_trim_nonempty(value, ",");
    }
    split_trim_nonempty(value, ";;")
}

/// The aggregate function names that a total field may give alone.
pub open spec fn aggregate_names() -> Seq<Seq<char>> {
    seq![
        "Сумма"@,
        "Количество"@,
        "Минимум"@,
        "Максимум"@,
        "Среднее"@,
        "Sum"@,
        "Count"@,
        "Min"@,
        "Max"@,
        "Avg"@,
        "Minimum"@,
        "Maximum"@,
        "Average"@,
    ]
}

/// The expression of a total field: `Сумма(path)` when none is given, `F(path)`
/// when only an aggregate name `F` is given, else the expression as written.
pub open spec fn total_expression(data_path: Seq<char>, expression: Seq<char>) -> Seq<char> {
    let e = trim(expression);
    if e.len() == 0 {
        "Сумма("@ + data_path + ")"@
    } else if is_one_of(e, aggregate_names()) {
        e + "("@ + data_path + ")"@
    } else {
        e
    }
}

pub fn skd_edit_total_expression(data_path: &[char], expression: &[char]) -> (r: Vec<char>)
    ensures
        r@ == total_expression(data_path@, expression@),
{
    let e = trim_chars(expression);
    if e.len() == 0 {
        let mut r: Vec<char> = Vec::new();
        push_str(&mut r, "Сумма(");
        push_chars(&mut r, data_path);
        push_str(&mut r, ")");
        return r;
    }
    let names: &'static [&'static str] = &[
        "Сумма",
        "Количество",
        "Минимум",
        "Максимум",
        "Среднее",
        "Sum",
        "Count",
        "Min",
        "Max",
        "Avg",
        "Minimum",
        "Maximum",
        "Average",
    ];
    assert(lit_views(names@) =~= aggregate_names());
    if is_one_of_exec(&e, names) {
        let mut r = e;
        push_str(&mut r, "(");
        push_chars(&mut r, data_path);
        push_str(&mut r, ")");
        return r;
    }
    e
}

/// A `[Title]` cut out of a value: the value without it (trimmed) and the
/// trimmed title; when there is no `[` before a `]`, the trimmed value and no title.
pub open spec fn bracket_title(value: Seq<char>) -> (Seq<char>, Seq<char>) {
    match (first_match(value, "["@, 0, value.len() as int), first_match(value, "]"@, 0, value.len() as int)) {
        (Some(open), Some(close)) => if close > open {
            (
                trim(value.subrange(0, open) + value.subrange(close + 1, value.len() as int)),
                trim(value.subrange(open + 1, close)),
            )
        } else {
            (trim(value), Seq::empty())
        },
        _ => (trim(value), Seq::empty()),
    }
}

pub fn skd_edit_extract_bracket_title(value: &[char]) -> (r: (Vec<char>, Vec<char>))
    ensures
        (r.0@, r.1@) == bracket_title(value@),
{
    proof {
        reveal_strlit("[");
        reveal_strlit("]");
    }
    let open = find_str(value, "[", 0, value.len());
    let close = find_str(value, "]", 0, value.len());
    proof {
        lemma_first_match_bounds(value@, "["@, 0, value@.len() as int);
        lemma_first_match_bounds(value@, "]"@, 0, value@.len() as int);
    }
    match (open, close) {
        (Some(o), Some(c)) => {
            if c > o {
                let title = trim_range(value, o + 1, c);
                let mut rest = slice_to_vec(value, 0, o);
                let tail = slice_to_vec(value, c + 1, value.len());
                push_chars(&mut rest, &tail);
                let text = trim_chars(&rest);
                return (text, title);
            }
            (trim_chars(value), Vec::new())
        },
        _ => (trim_chars(value), Vec::new()),
    }
}

/// The words of a text that are not `@marker`s or `#restrictions`.
pub open spec fn unmarked(ws: Seq<Seq<char>>) -> Seq<Seq<char>>
    decreases ws.len(),
{
    if ws.len() == 0 {
        Seq::empty()
    } else if ws.last().len() > 0 && (ws.last()[0] == '@' || ws.last()[0] == '#') {
        unmarked(ws.drop_last())
    } else {
        unmarked(ws.drop_last()).push(ws.last())
    }
}

/// A value with its `@marker` and `#restriction` words removed, words joined by one space.
pub open spec fn strip_markers(value: Seq<char>) -> Seq<char> {
    join(unmarked(words(value)), " "@)
}

/// The words of a list that are not markers.
pub fn unmarked_exec(ws: &Vec<Vec<char>>) -> (r: Vec<Vec<char>>)
    ensures
        views(r@) == unmarked(views(ws@)),
{
    let mut r: Vec<Vec<char>> = Vec::new();
    let mut i: usize = 0;
    let ghost all = views(ws@);
    while i < ws.len()
        invariant
            i <= ws.len(),
            all == views(ws@),
            views(r@) == unmarked(all.take(i as int)),
        decreases ws.len() - i,
    {
        let w = &ws[i];
        proof {
            assert(all.take(i + 1).drop_last() =~= all.take(i as int));
            assert(all.take(i + 1).last() == w@);
        }
        if w.len() > 0 && (w[0] == '@' || w[0] == '#') {
        } else {
            let c = w.clone();
            proof {
                lemma_views_push(r@, c);
            }
            r.push(c);
        }
        i = i + 1;
    }
    assert(all.take(ws.len() as int) =~= all);
    r
}

pub fn skd_edit_strip_markers(value: &[char]) -> (r: Vec<char>)
    ensures
        r@ == strip_markers(value@),
{
    let ws = split_whitespace(value);
    let kept = unmarked_exec(&ws);
    join_str(&kept, " ")
}

/// The canonical type name for a short or Russian type name, compared in lower case.
pub open spec fn type_synonym(type_str: Seq<char>) -> Option<Seq<char>> {
    lowered_type_synonym(lowercase_of(type_str))
}

/// The type a lower-case synonym stands for.
pub open spec fn lowered_type_synonym(l: Seq<char>) -> Option<Seq<char>> {
    if l == "число"@ || l == "int"@ || l == "integer"@ || l == "number"@ || l == "num"@ {
        Some("decimal"@)
    } else if l == "bool"@ {
        Some("boolean"@)
    } else if l == "строка"@ || l == "str"@ {
        Some("string"@)
    } else if l == "булево"@ {
        Some("boolean"@)
    } else if l == "дата"@ {
        Some("date"@)
    } else if l == "датавремя"@ {
        Some("dateTime"@)
    } else if l == "стандартныйпериод"@ {
        Some("StandardPeriod"@)
    } else if l == "справочникссылка"@ {
        Some("CatalogRef"@)
    } else if l == "документссылка"@ {
        Some("DocumentRef"@)
    } else if l == "перечислениессылка"@ {
        Some("EnumRef"@)
    } else if l == "плансчетовссылка"@ {
        Some("ChartOfAccountsRef"@)
    } else if l == "планвидовхарактеристикссылка"@ {
        Some("ChartOfCharacteristicTypesRef"@)
    } else {
        None
    }
}

pub open spec fn opt_str(r: Option<&'static str>) -> Option<Seq<char>> {
    match r {
        Some(s) => Some(s@),
        None => None,
    }
}

pub fn skd_compile_type_synonym(type_str: &[char]) -> (r: Option<&'static str>)
    ensures
        opt_str(r) == type_synonym(type_str@),
{
    let l = to_lowercase(type_str);
    skd_lowered_type_synonym(&l)
}

/// The type a synonym already in lower case stands for.
pub fn skd_lowered_type_synonym(l: &[char]) -> (r: Option<&'static str>)
    ensures
        opt_str(r) == lowered_type_synonym(l@),
{
    if eq_str(l, "число") || eq_str(l, "int") || eq_str(l, "integer") || eq_str(l, "number")
        || eq_str(l, "num") {
        Some("decimal")
    } else if eq_str(l, "bool") {
        Some("boolean")
    } else if eq_str(l, "строка") || eq_str(l, "str") {
        Some("string")
    } else if eq_str(l, "булево") {
        Some("boolean")
    } else if eq_str(l, "дата") {
        Some("date")
    } else if eq_str(l, "датавремя") {
        Some("dateTime")
    } else if eq_str(l, "стандартныйпериод") {
        Some("StandardPeriod")
    } else if eq_str(l, "справочникссылка") {
        Some("CatalogRef")
    } else if eq_str(l, "документссылка") {
        Some("DocumentRef")
    } else if eq_str(l, "перечислениессылка") {
        Some("EnumRef")
    } else if eq_str(l, "плансчетовссылка") {
        Some("ChartOfAccountsRef")
    } else if eq_str(l, "планвидовхарактеристикссылка") {
        Some("ChartOfCharacteristicTypesRef")
    } else {
        None
    }
}

/// A type name with its synonyms resolved: `base(params)` when the base has a
/// synonym, `Prefix.Name` when the prefix has one, else the whole name.
pub open spec fn resolve_type(t: Seq<char>) -> Seq<char> {
    if t.len() == 0 {
        Seq::empty()
    } else {
        let paren = match first_match(t, "("@, 0, t.len() as int) {
            Some(open) => if ends_with(t, ")"@) {
                match type_synonym(trim(t.subrange(0, open))) {
                    Some(r) => Some(r + "("@ + t.subrange(open + 1, t.len() - 1) + ")"@),
                    None => None,
                }
            } else {
                None
            },
            None => None,
        };
        let dotted = match first_match(t, "."@, 0, t.len() as int) {
            Some(dot) => match type_synonym(t.subrange(0, dot)) {
                Some(r) => Some(r + t.subrange(dot, t.len() as int)),
                None => None,
            },
            None => None,
        };
        match paren {
            Some(x) => x,
            None => match dotted {
                Some(x) => x,
                None => match type_synonym(t) {
                    Some(r) => r,
                    None => t,
                },
            },
        }
    }
}

pub fn skd_compile_resolve_type(type_str: &[char]) -> (r: Vec<char>)
    ensures
        r@ == resolve_type(type_str@),
{
    let t = type_str;
    if t.len() == 0 {
        return Vec::new();
    }
    proof {
        reveal_strlit("(");
        reveal_strlit(")");
        reveal_strlit(".");
        lemma_first_match_bounds(t@, "("@, 0, t@.len() as int);
        lemma_first_match_bounds(t@, "."@, 0, t@.len() as int);
    }
    if let Some(open) = find_str(t, "(", 0, t.len()) {
        if ends_with_str(t, ")") {
            let base = trim_range(t, 0, open);
            if let Some(resolved) = skd_compile_type_synonym(&base) {
                let mut r = chars_of(resolved);
                push_str(&mut r, "(");
                proof {
                    assert(t@.subrange(open as int, open + 1)[0] == t@[open as int]);
                    assert(t@.subrange(t@.len() - 1, t@.len() as int)[0] == t@[t@.len() - 1]);
                }
                let params = slice_to_vec(t, open + 1, t.len() - 1);
                push_chars(&mut r, &params);
                push_str(&mut r, ")");
                return r;
            }
        }
    }
    if let Some(dot) = find_str(t, ".", 0, t.len()) {
        let prefix = slice_to_vec(t, 0, dot);
        if let Some(resolved) = skd_compile_type_synonym(&prefix) {
            let mut r = chars_of(resolved);
            let tail = slice_to_vec(t, dot, t.len());
            push_chars(&mut r, &tail);
            return r;
        }
    }
    match skd_compile_type_synonym(t) {
        Some(resolved) => chars_of(resolved),
        None => to_vec(t),
    }
}


/// Name, title, type and expression of a calculated field given as
/// `Name [Title]: type = expression`.
pub struct SkdEditCalcField {
    pub data_path: Vec<char>,
    pub title: Vec<char>,
    pub field_type: Vec<char>,
    pub expression: Vec<char>,
}

/// `Name: type` split into the trimmed name and the resolved type; without `:`,
/// the trimmed text and no type.
pub open spec fn name_and_type(t: Seq<char>) -> (Seq<char>, Seq<char>) {
    match split_once(t, ":"@) {
        Some((a, b)) => (trim(a), resolve_type(trim(b))),
        None => (trim(t), Seq::empty()),
    }
}

pub fn name_and_type_exec(t: &[char]) -> (r: (Vec<char>, Vec<char>))
    ensures
        (r.0@, r.1@) == name_and_type(t@),
{
    match split_once_str(t, ":") {
        Some((a, b)) => {
            let name = trim_chars(&a);
            let tb = trim_chars(&b);
            (name, skd_compile_resolve_type(&tb))
        },
        None => (trim_chars(t), Vec::new()),
    }
}

/// The parts of a calculated field value (data path, title, type, expression).
pub open spec fn calc_field(value: Seq<char>) -> (Seq<char>, Seq<char>, Seq<char>, Seq<char>) {
    let (left, expression) = crate::text::split_trim_or_all(value, "="@);
    let (name_type, title) = bracket_title(left);
    let (data_path, field_type) = name_and_type(strip_markers(name_type));
    (data_path, title, field_type, expression)
}

pub fn skd_edit_parse_calc_field(value: &[char]) -> (r: SkdEditCalcField)
    ensures
        (r.data_path@, r.title@, r.field_type@, r.expression@) == calc_field(value@),
{
    let (left, expression) = crate::text::split_trim_or_all_str(value, "=");
    let (name_type, title) = skd_edit_extract_bracket_title(&left);
    let name_type = skd_edit_strip_markers(&name_type);
    let (data_path, field_type) = name_and_type_exec(&name_type);
    SkdEditCalcField { data_path, title, field_type, expression }
}

/// Data path, field name and type of a field shorthand `Name: type @role #restriction`.
pub open spec fn field_shorthand(text: Seq<char>) -> (Seq<char>, Seq<char>, Seq<char>) {
    let value = trim(strip_markers(text));
    match split_once(value, ":"@) {
        Some((a, b)) => (trim(a), trim(a), resolve_type(trim(b))),
        None => (value, value, Seq::empty()),
    }
}

pub fn skd_compile_parse_field_shorthand(text: &[char]) -> (r: (Vec<char>, Vec<char>, Vec<char>))
    ensures
        (r.0@, r.1@, r.2@) == field_shorthand(text@),
{
    let stripped = skd_edit_strip_markers(text);
    let value = trim_chars(&stripped);
    match split_once_str(&value, ":") {
        Some((a, b)) => {
            let data_path = trim_chars(&a);
            let tb = trim_chars(&b);
            let field = data_path.clone();
            (data_path, field, skd_compile_resolve_type(&tb))
        },
        None => {
            let v2 = value.clone();
            (value, v2, Vec::new())
        },
    }
}

/// All chars of `t` are ASCII digits.
pub open spec fn all_digits(t: Seq<char>) -> bool {
    forall|i: int| 0 <= i < t.len() ==> crate::text::is_digit(#[trigger] t[i])
}

pub fn all_digits_exec(t: &[char]) -> (b: bool)
    ensures
        b == all_digits(t@),
{
    let mut i: usize = 0;
    while i < t.len()
        invariant
            i <= t.len(),
            forall|k: int| 0 <= k < i ==> crate::text::is_digit(#[trigger] t@[k]),
        decreases t.len() - i,
    {
        if !('0' <= t[i] && t[i] <= '9') {
            return false;
        }
        i = i + 1;
    }
    true
}

/// The length of a `string` or `string(N)` type: `0` for plain `string`, the
/// digits for `string(N)`; `None` for anything else.
pub open spec fn string_length(t: Seq<char>) -> Option<Seq<char>> {
    if t == "string"@ {
        Some("0"@)
    } else if t.len() >= 8 && starts_with(t, "string("@) && ends_with(t, ")"@) {
        let rest = t.subrange(7, t.len() - 1);
        if rest.len() > 0 && all_digits(rest) {
            Some(rest)
        } else {
            None
        }
    } else {
        None
    }
}

pub fn skd_compile_string_length(type_str: &[char]) -> (r: Option<Vec<char>>)
    ensures
        crate::external::opt_chars(r) == string_length(type_str@),
{
    if eq_str(type_str, "string") {
        return Some(chars_of("0"));
    }
    proof {
        reveal_strlit("string(");
        reveal_strlit(")");
    }
    if type_str.len() >= 8 && starts_with_str(type_str, "string(") && ends_with_str(type_str, ")") {
        let rest = slice_to_vec(type_str, 7, type_str.len() - 1);
        if rest.len() > 0 && all_digits_exec(&rest) {
            return Some(rest);
        }
        return None;
    }
    proof {
        // "string(" followed by ")" needs at least eight chars.
        if starts_with(type_str@, "string("@) && ends_with(type_str@, ")"@) && type_str@.len() < 8 {
            assert(type_str@.len() >= 7);
            if type_str@.len() == 7 {
                assert(type_str@.subrange(6, 7)[0] == type_str@[6]);
                assert(type_str@.subrange(0, 7)[6] == type_str@[6]);
            }
        }
    }
    None
}

/// Pieces, each trimmed.
pub open spec fn map_trim(pieces: Seq<Seq<char>>) -> Seq<Seq<char>> {
    pieces.map_values(|p: Seq<char>| trim(p))
}

/// Digits, fraction digits and sign of a `decimal` or `decimal(D, F, nonneg)` type.
pub open spec fn decimal_qualifiers(t: Seq<char>) -> Option<(Seq<char>, Seq<char>, Seq<char>)> {
    if t == "decimal"@ {
        Some(("10"@, "2"@, "Any"@))
    } else if t.len() >= 9 && starts_with(t, "decimal("@) && ends_with(t, ")"@) {
        let parts = map_trim(split(t.subrange(8, t.len() - 1), ","@));
        if parts[0].len() == 0 {
            None
        } else {
            let fraction = if parts.len() > 1 && parts[1].len() > 0 {
                parts[1]
            } else {
                "0"@
            };
            let sign = if is_one_of("nonneg"@, parts) || is_one_of("nonnegative"@, parts) {
                "Nonnegative"@
            } else {
                "Any"@
            };
            Some((parts[0], fraction, sign))
        }
    } else {
        None
    }
}

pub proof fn lemma_split_nonempty(t: Seq<char>, sep: Seq<char>, c: int)
    requires
        0 <= c <= t.len(),
        sep.len() > 0,
    ensures
        crate::text::split_from(t, sep, c).len() >= 1,
    decreases t.len() - c,
{
    lemma_first_match_bounds(t, sep, c, t.len() as int);
    match first_match(t, sep, c, t.len() as int) {
        None => {},
        Some(i) => {
            lemma_split_nonempty(t, sep, i + sep.len());
        },
    }
}

pub fn skd_compile_decimal_qualifiers(type_str: &[char]) -> (r: Option<(Vec<char>, Vec<char>, &'static str)>)
    ensures
        match r {
            Some((a, b, c)) => decimal_qualifiers(type_str@) == Some((a@, b@, c@)),
            None => decimal_qualifiers(type_str@) is None,
        },
{
    if eq_str(type_str, "decimal") {
        return Some((chars_of("10"), chars_of("2"), "Any"));
    }
    proof {
        reveal_strlit("decimal(");
        reveal_strlit(")");
        reveal_strlit(",");
    }
    if type_str.len() >= 9 && starts_with_str(type_str, "decimal(") && ends_with_str(type_str, ")") {
        let rest = slice_to_vec(type_str, 8, type_str.len() - 1);
        let raw = crate::text::split_str(&rest, ",");
        let mut parts: Vec<Vec<char>> = Vec::new();
        let mut i: usize = 0;
        let ghost target = map_trim(split(rest@, ","@));
        proof {
            lemma_split_nonempty(rest@, ","@, 0);
        }
        while i < raw.len()
            invariant
                i <= raw.len(),
                views(raw@) == split(rest@, ","@),
                target == map_trim(split(rest@, ","@)),
                views(parts@) == target.take(i as int),
            decreases raw.len() - i,
        {
            let p = trim_chars(&raw[i]);
            proof {
                lemma_views_push(parts@, p);
                assert(target.take(i + 1) =~= target.take(i as int).push(p@));
            }
            parts.push(p);
            i = i + 1;
        }
        assert(target.take(raw.len() as int) =~= target);
        if parts[0].len() == 0 {
            return None;
        }
        let fraction = if parts.len() > 1 && parts[1].len() > 0 {
            parts[1].clone()
        } else {
            chars_of("0")
        };
        let mut nonneg = false;
        let mut k: usize = 0;
        while k < parts.len()
            invariant
                k <= parts.len(),
                views(parts@) == target,
                nonneg == (exists|j: int| 0 <= j < k && (target[j] == "nonneg"@ || target[j] == "nonnegative"@)),
            decreases parts.len() - k,
        {
            let a = eq_str(&parts[k], "nonneg");
            let b = eq_str(&parts[k], "nonnegative");
            if a || b {
                nonneg = true;
            }
            proof {
                assert(target[k as int] == parts@[k as int]@);
            }
            k = k + 1;
        }
        proof {
            if nonneg {
                let j = choose|j: int| 0 <= j < parts.len() && (target[j] == "nonneg"@ || target[j] == "nonnegative"@);
                if target[j] == "nonneg"@ {
                    assert(is_one_of("nonneg"@, target));
                } else {
                    assert(is_one_of("nonnegative"@, target));
                }
            } else {
                assert(!is_one_of("nonneg"@, target));
                assert(!is_one_of("nonnegative"@, target));
            }
        }
        let sign: &'static str = if nonneg {
            "Nonnegative"
        } else {
            "Any"
        };
        let first = parts[0].clone();
        return Some((first, fraction, sign));
    }
    proof {
        if starts_with(type_str@, "decimal("@) && ends_with(type_str@, ")"@) && type_str@.len() == 8 {
            assert(type_str@.subrange(7, 8)[0] == type_str@[7]);
            assert(type_str@.subrange(0, 8)[7] == type_str@[7]);
        }
    }
    None
}


/// The filter operators in the order they are tried, as written in a value.
pub open spec fn filter_op_raw() -> Seq<Seq<char>> {
    seq![
        "notBeginsWith"@,
        "beginsWith"@,
        "inListByHierarchy"@,
        "inHierarchy"@,
        "notContains"@,
        "contains"@,
        "notFilled"@,
        "filled"@,
        "notIn"@,
        "in"@,
        "<>"@,
        ">="@,
        "<="@,
        "="@,
        ">"@,
        "<"@,
    ]
}

/// The comparison type each operator of `filter_op_raw` stands for.
pub open spec fn filter_op_mapped() -> Seq<Seq<char>> {
    seq![
        "NotBeginsWith"@,
        "BeginsWith"@,
        "InListByHierarchy"@,
        "InHierarchy"@,
        "NotContains"@,
        "Contains"@,
        "NotFilled"@,
        "Filled"@,
        "NotInList"@,
        "InList"@,
        "NotEqual"@,
        "GreaterOrEqual"@,
        "LessOrEqual"@,
        "Equal"@,
        "Greater"@,
        "Less"@,
    ]
}

/// Field, comparison type and right side of a filter expression `Field op value`,
/// trying the operators (each preceded by a space) in order; `Equal` with no right
/// side when none occurs.
pub open spec fn filter_expression_from(v: Seq<char>, k: int) -> (Seq<char>, Seq<char>, Seq<char>)
    decreases 16 - k,
{
    if k < 0 || k >= 16 {
        (trim(v), "Equal"@, Seq::empty())
    } else {
        let marker = " "@ + filter_op_raw()[k];
        match first_match(v, marker, 0, v.len() as int) {
            Some(pos) => (
                trim(v.subrange(0, pos)),
                filter_op_mapped()[k],
                trim(v.subrange(pos + marker.len(), v.len() as int)),
            ),
            None => filter_expression_from(v, k + 1),
        }
    }
}

pub open spec fn filter_expression(v: Seq<char>) -> (Seq<char>, Seq<char>, Seq<char>) {
    filter_expression_from(v, 0)
}

pub fn skd_edit_parse_filter_expression(value: &[char]) -> (r: (Vec<char>, Vec<char>, Vec<char>))
    ensures
        (r.0@, r.1@, r.2@) == filter_expression(value@),
{
    let raw: &'static [&'static str] = &[
        "notBeginsWith",
        "beginsWith",
        "inListByHierarchy",
        "inHierarchy",
        "notContains",
        "contains",
        "notFilled",
        "filled",
        "notIn",
        "in",
        "<>",
        ">=",
        "<=",
        "=",
        ">",
        "<",
    ];
    let mapped: &'static [&'static str] = &[
        "NotBeginsWith",
        "BeginsWith",
        "InListByHierarchy",
        "InHierarchy",
        "NotContains",
        "Contains",
        "NotFilled",
        "Filled",
        "NotInList",
        "InList",
        "NotEqual",
        "GreaterOrEqual",
        "LessOrEqual",
        "Equal",
        "Greater",
        "Less",
    ];
    assert(lit_views(raw@) =~= filter_op_raw());
    assert(lit_views(mapped@) =~= filter_op_mapped());
    let mut k: usize = 0;
    while k < 16
        invariant
            k <= 16,
            raw@.len() == 16,
            mapped@.len() == 16,
            lit_views(raw@) == filter_op_raw(),
            lit_views(mapped@) == filter_op_mapped(),
            filter_expression_from(value@, k as int) == filter_expression(value@),
        decreases 16 - k,
    {
        let mut marker = chars_of(" ");
        push_str(&mut marker, raw[k]);
        assert(raw@[k as int]@ == filter_op_raw()[k as int]);
        match crate::text::find_in(value, &marker, 0, value.len()) {
            Some(pos) => {
                proof {
                    lemma_first_match_bounds(value@, marker@, 0, value@.len() as int);
                }
                let field = trim_range(value, 0, pos);
                let right = trim_range(value, pos + marker.len(), value.len());
                let op = chars_of(mapped[k]);
                assert(mapped@[k as int]@ == filter_op_mapped()[k as int]);
                return (field, op, right);
            },
            None => {},
        }
        k = k + 1;
    }
    (trim_chars(value), chars_of("Equal"), Vec::new())
}

/// UTF-8 bytes 4 and 7 are `-` and byte 10 is `T`, in a text of at least 11 bytes.
pub open spec fn is_date_time_literal_spec(value: Seq<char>) -> bool {
    let b = vstd::utf8::encode_utf8(value);
    b.len() >= 11 && b[4] == 45u8 && b[7] == 45u8 && b[10] == 84u8
}

pub fn is_date_time_literal(value: &str) -> (b: bool)
    ensures
        b == is_date_time_literal_spec(value@),
{
    let bytes = value.as_bytes();
    bytes.len() >= 11 && bytes[4] == 45u8 && bytes[7] == 45u8 && bytes[10] == 84u8
}

/// `is_date_time_literal` on a char vector.
pub fn date_time_literal(value: &[char]) -> (b: bool)
    ensures
        b == is_date_time_literal_spec(value@),
{
    let s = crate::external::string_of(value);
    is_date_time_literal(s.as_str())
}

/// All chars are ASCII digits or `.`.
pub open spec fn all_decimal_chars(t: Seq<char>) -> bool {
    forall|i: int| 0 <= i < t.len() ==> (crate::text::is_digit(#[trigger] t[i]) || t[i] == '.')
}

/// Reference prefixes that mark a filter value as a design-time value.
pub open spec fn filter_ref_prefixes() -> Seq<Seq<char>> {
    seq![
        "Перечисление."@,
        "Справочник."@,
        "ПланСчетов."@,
        "Документ."@,
        "ПланВидовХарактеристик."@,
        "ПланВидовРасчета."@,
    ]
}

/// The value and XML type of a filter's right side.
pub open spec fn filter_value_type(v: Seq<char>) -> (Seq<char>, Seq<char>) {
    if v.len() == 0 || v == "_"@ {
        (Seq::empty(), "xs:string"@)
    } else if v == "true"@ || v == "false"@ {
        (v, "xs:boolean"@)
    } else if is_date_time_literal_spec(v) {
        (v, "xs:dateTime"@)
    } else if all_decimal_chars(v) {
        (v, "xs:decimal"@)
    } else if crate::text::starts_with_any(v, filter_ref_prefixes()) {
        (v, "dcscor:DesignTimeValue"@)
    } else {
        (v, "xs:string"@)
    }
}

pub fn skd_edit_filter_value_type(value: &[char]) -> (r: (Vec<char>, Vec<char>))
    ensures
        (r.0@, r.1@) == filter_value_type(value@),
{
    if value.len() == 0 || eq_str(value, "_") {
        return (Vec::new(), chars_of("xs:string"));
    }
    if eq_str(value, "true") || eq_str(value, "false") {
        return (to_vec(value), chars_of("xs:boolean"));
    }
    if date_time_literal(value) {
        return (to_vec(value), chars_of("xs:dateTime"));
    }
    let mut all = true;
    let mut i: usize = 0;
    while i < value.len()
        invariant
            i <= value.len(),
            all == (forall|k: int| 0 <= k < i ==> (crate::text::is_digit(#[trigger] value@[k]) || value@[k] == '.')),
        decreases value.len() - i,
    {
        if !(('0' <= value[i] && value[i] <= '9') || value[i] == '.') {
            all = false;
        }
        i = i + 1;
    }
    if all {
        return (to_vec(value), chars_of("xs:decimal"));
    }
    let prefixes: &'static [&'static str] = &[
        "Перечисление.",
        "Справочник.",
        "ПланСчетов.",
        "Документ.",
        "ПланВидовХарактеристик.",
        "ПланВидовРасчета.",
    ];
    assert(lit_views(prefixes@) =~= filter_ref_prefixes());
    if crate::text::starts_with_any_exec(value, prefixes) {
        return (to_vec(value), chars_of("dcscor:DesignTimeValue"));
    }
    (to_vec(value), chars_of("xs:string"))
}

/// A filter item to add or change: field, comparison, right side with its type,
/// and the optional use flag, user-setting id and view mode.
pub struct SkdEditFilter {
    pub field: Vec<char>,
    pub operator: Vec<char>,
    pub value: Vec<char>,
    pub value_type: Vec<char>,
    pub use_flag: Option<bool>,
    pub user_setting_id: Option<Vec<char>>,
    pub view_mode: Option<Vec<char>>,
}

/// `@off` gives `Some(false)`, else `@on` gives `Some(true)`, else none.
pub open spec fn use_flag_of(value: Seq<char>) -> Option<bool> {
    if contains(value, "@off"@) {
        Some(false)
    } else if contains(value, "@on"@) {
        Some(true)
    } else {
        None
    }
}

/// A filter value with its markers removed, in the order the editor removes them.
pub open spec fn filter_cleaned(value: Seq<char>) -> Seq<char> {
    crate::text::replace_all(
        crate::text::replace_all(
            crate::text::replace_all(
                crate::text::replace_all(
                    crate::text::replace_all(
                        crate::text::replace_all(value, "@off"@, Seq::empty()),
                        "@on"@,
                        Seq::empty(),
                    ),
                    "@user"@,
                    Seq::empty(),
                ),
                "@quickAccess"@,
                Seq::empty(),
            ),
            "@normal"@,
            Seq::empty(),
        ),
        "@inaccessible"@,
        Seq::empty(),
    )
}

/// The view mode a filter value asks for.
pub open spec fn filter_view_mode(value: Seq<char>) -> Option<Seq<char>> {
    if contains(value, "@quickAccess"@) {
        Some("QuickAccess"@)
    } else if contains(value, "@normal"@) {
        Some("Normal"@)
    } else if contains(value, "@inaccessible"@) {
        Some("Inaccessible"@)
    } else {
        None
    }
}

pub open spec fn opt_view(o: Option<Vec<char>>) -> Option<Seq<char>> {
    crate::external::opt_chars(o)
}

/// `f` is what a filter value parses to, with `id` as the fresh user-setting id.
pub open spec fn filter_parsed(f: SkdEditFilter, value: Seq<char>, id: Seq<char>) -> bool {
    let (field, operator, right) = filter_expression(filter_cleaned(value));
    &&& f.use_flag == use_flag_of(value)
    &&& opt_view(f.user_setting_id) == (if contains(value, "@user"@) {
        Some(id)
    } else {
        None
    })
    &&& opt_view(f.view_mode) == filter_view_mode(value)
    &&& f.field@ == field
    &&& f.operator@ == operator
    &&& (f.value@, f.value_type@) == filter_value_type(right)
}

pub fn skd_edit_use_flag(value: &[char]) -> (r: Option<bool>)
    ensures
        r == use_flag_of(value@),
{
    if contains_str(value, "@off") {
        Some(false)
    } else if contains_str(value, "@on") {
        Some(true)
    } else {
        None
    }
}

/// Parses `Field op value @off @user @quickAccess`. A user-setting id is asked for
/// by `@user`; `user_setting_id` is the fresh id to give it.
pub fn skd_edit_parse_filter(value: &[char], user_setting_id: &[char]) -> (r: SkdEditFilter)
    ensures
        filter_parsed(r, value@, user_setting_id@),
{
    let use_flag = skd_edit_use_flag(value);
    let user = if contains_str(value, "@user") {
        Some(to_vec(user_setting_id))
    } else {
        None
    };
    let view_mode = if contains_str(value, "@quickAccess") {
        Some(chars_of("QuickAccess"))
    } else if contains_str(value, "@normal") {
        Some(chars_of("Normal"))
    } else if contains_str(value, "@inaccessible") {
        Some(chars_of("Inaccessible"))
    } else {
        None
    };
    proof {
        reveal_strlit("@off");
        reveal_strlit("@on");
        reveal_strlit("@user");
        reveal_strlit("@quickAccess");
        reveal_strlit("@normal");
        reveal_strlit("@inaccessible");
        reveal_strlit("");
        assert(""@ =~= Seq::<char>::empty());
    }
    let c = crate::text::replace_str(value, "@off", "");
    let c = crate::text::replace_str(&c, "@on", "");
    let c = crate::text::replace_str(&c, "@user", "");
    let c = crate::text::replace_str(&c, "@quickAccess", "");
    let c = crate::text::replace_str(&c, "@normal", "");
    let c = crate::text::replace_str(&c, "@inaccessible", "");
    let (field, operator, right) = skd_edit_parse_filter_expression(&c);
    let (fv, vt) = skd_edit_filter_value_type(&right);
    SkdEditFilter {
        field,
        operator,
        value: fv,
        value_type: vt,
        use_flag,
        user_setting_id: user,
        view_mode,
    }
}

/// Whether a settings value stands for no value: blank, `_` or `null` in any case.
pub open spec fn is_empty_value(value: Seq<char>) -> bool {
    let t = trim(value);
    t.len() == 0 || t == "_"@ || crate::text::eq_ignore_ascii_case(t, "null"@)
}

pub fn skd_edit_is_empty_value(value: &[char]) -> (b: bool)
    ensures
        b == is_empty_value(value@),
{
    let t = trim_chars(value);
    t.len() == 0 || eq_str(&t, "_") || crate::text::eq_ignore_ascii_case_str(&t, "null")
}

/// The variants of a standard period.
pub open spec fn standard_period_variants() -> Seq<Seq<char>> {
    seq![
        "Custom"@,
        "Today"@,
        "ThisWeek"@,
        "ThisTenDays"@,
        "ThisMonth"@,
        "ThisQuarter"@,
        "ThisHalfYear"@,
        "ThisYear"@,
        "FromBeginningOfThisWeek"@,
        "FromBeginningOfThisTenDays"@,
        "FromBeginningOfThisMonth"@,
        "FromBeginningOfThisQuarter"@,
        "FromBeginningOfThisHalfYear"@,
        "FromBeginningOfThisYear"@,
        "LastWeek"@,
        "LastTenDays"@,
        "LastMonth"@,
        "LastQuarter"@,
        "LastHalfYear"@,
        "LastYear"@,
        "NextDay"@,
        "NextWeek"@,
        "NextTenDays"@,
        "NextMonth"@,
        "NextQuarter"@,
        "NextHalfYear"@,
        "NextYear"@,
        "TillEndOfThisWeek"@,
        "TillEndOfThisTenDays"@,
        "TillEndOfThisMonth"@,
        "TillEndOfThisQuarter"@,
        "TillEndOfThisHalfYear"@,
        "TillEndOfThisYear"@,
    ]
}

pub fn skd_edit_is_standard_period_variant(value: &[char]) -> (b: bool)
    ensures
        b == is_one_of(value@, standard_period_variants()),
{
    let items: &'static [&'static str] = &[
        "Custom",
        "Today",
        "ThisWeek",
        "ThisTenDays",
        "ThisMonth",
        "ThisQuarter",
        "ThisHalfYear",
        "ThisYear",
        "FromBeginningOfThisWeek",
        "FromBeginningOfThisTenDays",
        "FromBeginningOfThisMonth",
        "FromBeginningOfThisQuarter",
        "FromBeginningOfThisHalfYear",
        "FromBeginningOfThisYear",
        "LastWeek",
        "LastTenDays",
        "LastMonth",
        "LastQuarter",
        "LastHalfYear",
        "LastYear",
        "NextDay",
        "NextWeek",
        "NextTenDays",
        "NextMonth",
        "NextQuarter",
        "NextHalfYear",
        "NextYear",
        "TillEndOfThisWeek",
        "TillEndOfThisTenDays",
        "TillEndOfThisMonth",
        "TillEndOfThisQuarter",
        "TillEndOfThisHalfYear",
        "TillEndOfThisYear",
    ];
    assert(lit_views(items@) =~= standard_period_variants());
    is_one_of_exec(value, items)
}

/// Reference type prefixes whose values are design-time values.
pub open spec fn design_time_type_prefixes() -> Seq<Seq<char>> {
    seq![
        "CatalogRef."@,
        "DocumentRef."@,
        "EnumRef."@,
        "ChartOfAccountsRef."@,
        "ChartOfCharacteristicTypesRef."@,
        "ChartOfCalculationTypesRef."@,
        "BusinessProcessRef."@,
        "TaskRef."@,
        "InformationRegisterRef."@,
        "ExchangePlanRef."@,
    ]
}

pub fn skd_edit_is_design_time_type(value: &[char]) -> (b: bool)
    ensures
        b == crate::text::starts_with_any(value@, design_time_type_prefixes()),
{
    let items: &'static [&'static str] = &[
        "CatalogRef.",
        "DocumentRef.",
        "EnumRef.",
        "ChartOfAccountsRef.",
        "ChartOfCharacteristicTypesRef.",
        "ChartOfCalculationTypesRef.",
        "BusinessProcessRef.",
        "TaskRef.",
        "InformationRegisterRef.",
        "ExchangePlanRef.",
    ];
    assert(lit_views(items@) =~= design_time_type_prefixes());
    crate::text::starts_with_any_exec(value, items)
}

/// Object prefixes that mark a value as a design-time value.
pub open spec fn design_time_value_prefixes() -> Seq<Seq<char>> {
    seq![
        "Перечисление."@,
        "Справочник."@,
        "ПланСчетов."@,
        "Документ."@,
        "ПланВидовХарактеристик."@,
        "ПланВидовРасчета."@,
        "БизнесПроцесс."@,
        "Задача."@,
        "РегистрСведений."@,
        "ПланОбмена."@,
        "Catalog."@,
        "Document."@,
        "Enum."@,
        "ChartOfAccounts."@,
        "ChartOfCharacteristicTypes."@,
        "ChartOfCalculationTypes."@,
        "BusinessProcess."@,
        "Task."@,
        "InformationRegister."@,
        "ExchangePlan."@,
    ]
}

pub fn skd_edit_is_design_time_value(value: &[char]) -> (b: bool)
    ensures
        b == crate::text::starts_with_any(value@, design_time_value_prefixes()),
{
    let items: &'static [&'static str] = &[
        "Перечисление.",
        "Справочник.",
        "ПланСчетов.",
        "Документ.",
        "ПланВидовХарактеристик.",
        "ПланВидовРасчета.",
        "БизнесПроцесс.",
        "Задача.",
        "РегистрСведений.",
        "ПланОбмена.",
        "Catalog.",
        "Document.",
        "Enum.",
        "ChartOfAccounts.",
        "ChartOfCharacteristicTypes.",
        "ChartOfCalculationTypes.",
        "BusinessProcess.",
        "Task.",
        "InformationRegister.",
        "ExchangePlan.",
    ];
    assert(lit_views(items@) =~= design_time_value_prefixes());
    crate::text::starts_with_any_exec(value, items)
}


/// A data parameter setting: parameter name, optional value, use flag,
/// user-setting id and view mode.
pub struct SkdEditDataParameter {
    pub parameter: Vec<char>,
    pub value: Option<Vec<char>>,
    pub use_flag: Option<bool>,
    pub user_setting_id: Option<Vec<char>>,
    pub view_mode: Option<Vec<char>>,
}

/// A data parameter value with its markers removed, in the order the editor removes them.
pub open spec fn data_parameter_cleaned(value: Seq<char>) -> Seq<char> {
    crate::text::replace_all(
        crate::text::replace_all(
            crate::text::replace_all(
                crate::text::replace_all(
                    crate::text::replace_all(value, "@off"@, Seq::empty()),
                    "@on"@,
                    Seq::empty(),
                ),
                "@user"@,
                Seq::empty(),
            ),
            "@quickAccess"@,
            Seq::empty(),
        ),
        "@normal"@,
        Seq::empty(),
    )
}

/// Parses `Parameter = value @off @user @quickAccess`; `user_setting_id` is the
/// fresh id that `@user` asks for.
pub fn skd_edit_parse_data_parameter(value: &[char], user_setting_id: &[char]) -> (r: SkdEditDataParameter)
    ensures
        r.use_flag == use_flag_of(value@),
        opt_view(r.user_setting_id) == (if contains(value@, "@user"@) {
            Some(user_setting_id@)
        } else {
            None
        }),
        opt_view(r.view_mode) == (if contains(value@, "@quickAccess"@) {
            Some("QuickAccess"@)
        } else if contains(value@, "@normal"@) {
            Some("Normal"@)
        } else {
            None
        }),
        match split_once(data_parameter_cleaned(value@), "="@) {
            Some((a, b)) => r.parameter@ == trim(a) && opt_view(r.value) == Some(trim(b)),
            None => r.parameter@ == trim(data_parameter_cleaned(value@)) && r.value is None,
        },
{
    let use_flag = skd_edit_use_flag(value);
    let user = if contains_str(value, "@user") {
        Some(to_vec(user_setting_id))
    } else {
        None
    };
    let view_mode = if contains_str(value, "@quickAccess") {
        Some(chars_of("QuickAccess"))
    } else if contains_str(value, "@normal") {
        Some(chars_of("Normal"))
    } else {
        None
    };
    proof {
        reveal_strlit("@off");
        reveal_strlit("@on");
        reveal_strlit("@user");
        reveal_strlit("@quickAccess");
        reveal_strlit("@normal");
        reveal_strlit("");
        assert(""@ =~= Seq::<char>::empty());
    }
    let c = crate::text::replace_str(value, "@off", "");
    let c = crate::text::replace_str(&c, "@on", "");
    let c = crate::text::replace_str(&c, "@user", "");
    let c = crate::text::replace_str(&c, "@quickAccess", "");
    let c = crate::text::replace_str(&c, "@normal", "");
    let (parameter, val) = match split_once_str(&c, "=") {
        Some((a, b)) => (trim_chars(&a), Some(trim_chars(&b))),
        None => (trim_chars(&c), None),
    };
    SkdEditDataParameter { parameter, value: val, use_flag, user_setting_id: user, view_mode }
}

/// A declared type without its namespace prefix (`xs:`, `v8:`, or a `d…p…:` prefix).
pub open spec fn normalize_declared_type(value: Seq<char>) -> Seq<char> {
    let v = trim(value);
    if starts_with(v, "xs:"@) || starts_with(v, "v8:"@) {
        v.subrange(3, v.len() as int)
    } else {
        match split_once(v, ":"@) {
            Some((prefix, rest)) => if starts_with(prefix, "d"@) && contains(prefix, "p"@) {
                rest
            } else {
                v
            },
            None => v,
        }
    }
}

pub fn skd_edit_normalize_declared_type(value: &[char]) -> (r: Vec<char>)
    ensures
        r@ == normalize_declared_type(value@),
{
    let v = trim_chars(value);
    proof {
        reveal_strlit("xs:");
        reveal_strlit("v8:");
    }
    if starts_with_str(&v, "xs:") || starts_with_str(&v, "v8:") {
        return slice_to_vec(&v, 3, v.len());
    }
    if let Some((prefix, rest)) = split_once_str(&v, ":") {
        if starts_with_str(&prefix, "d") && contains_str(&prefix, "p") {
            return rest;
        }
    }
    v
}

/// A settings variant to add: name and presentation.
pub struct SkdEditVariant {
    pub name: Vec<char>,
    pub presentation: Vec<char>,
}

/// `Name [Presentation]`; the presentation defaults to the name.
pub open spec fn variant_value(value: Seq<char>) -> (Seq<char>, Seq<char>) {
    let (name, presentation) = bracket_title(value);
    let name = trim(name);
    (name, if presentation.len() == 0 {
        name
    } else {
        presentation
    })
}

pub fn skd_edit_parse_variant(value: &[char]) -> (r: SkdEditVariant)
    ensures
        (r.name@, r.presentation@) == variant_value(value@),
{
    let (name, presentation) = skd_edit_extract_bracket_title(value);
    let name = trim_chars(&name);
    let presentation = if presentation.len() == 0 {
        name.clone()
    } else {
        presentation
    };
    SkdEditVariant { name, presentation }
}

/// An output parameter setting: key and value.
pub struct SkdEditOutputParameter {
    pub key: Vec<char>,
    pub value: Vec<char>,
}

pub fn skd_edit_parse_output_parameter(value: &[char]) -> (r: Result<SkdEditOutputParameter, Vec<char>>)
    ensures
        match split_once(value@, "="@) {
            Some((a, b)) => r matches Ok(p) && p.key@ == trim(a) && p.value@ == trim(b),
            None => r matches Err(e) && e@ == "outputParameter value must contain '='"@,
        },
{
    match split_once_str(value, "=") {
        Some((a, b)) => Ok(SkdEditOutputParameter { key: trim_chars(&a), value: trim_chars(&b) }),
        None => Err(chars_of("outputParameter value must contain '='")),
    }
}

/// `t` with every trailing `c` removed (`str::trim_end_matches` on a char).
pub open spec fn trim_end_char(t: Seq<char>, c: char) -> Seq<char>
    decreases t.len(),
{
    if t.len() > 0 && t.last() == c {
        trim_end_char(t.drop_last(), c)
    } else {
        t
    }
}

pub fn trim_end_char_exec(t: &[char], c: char) -> (r: Vec<char>)
    ensures
        r@ == trim_end_char(t@, c),
{
    let mut e = t.len();
    assert(t@.subrange(0, t@.len() as int) =~= t@);
    while e > 0 && t[e - 1] == c
        invariant
            e <= t.len(),
            trim_end_char(t@.subrange(0, e as int), c) == trim_end_char(t@, c),
        decreases e,
    {
        assert(t@.subrange(0, e as int).drop_last() =~= t@.subrange(0, e - 1));
        e = e - 1;
    }
    proof {
        assert(t@.subrange(0, t@.len() as int) =~= t@);
    }
    slice_to_vec(t, 0, e)
}

/// A data set link: source and destination sets, their expressions, and a parameter.
pub struct SkdEditDataSetLink {
    pub source: Vec<char>,
    pub dest: Vec<char>,
    pub source_expr: Vec<char>,
    pub dest_expr: Vec<char>,
    pub parameter: Vec<char>,
}

/// The parts of `Source > Dest on SrcExpr = DestExpr [param P]`, or the message
/// for the first separator that is missing.
pub open spec fn data_set_link(value: Seq<char>) -> Result<(Seq<char>, Seq<char>, Seq<char>, Seq<char>, Seq<char>), Seq<char>> {
    match split_once(value, ">"@) {
        None => Err("dataSetLink value must contain '>'"@),
        Some((source, rest)) => match split_once(rest, " on "@) {
            None => Err("dataSetLink value must contain ' on '"@),
            Some((dest, rest)) => {
                let (expr, parameter) = match split_once(rest, "[param "@) {
                    Some((e, p)) => (trim(e), trim(trim_end_char(p, ']'))),
                    None => (trim(rest), Seq::empty()),
                };
                match split_once(expr, "="@) {
                    None => Err("dataSetLink expression must contain '='"@),
                    Some((se, de)) => Ok((trim(source), trim(dest), trim(se), trim(de), parameter)),
                }
            },
        },
    }
}

pub fn skd_edit_parse_data_set_link(value: &[char]) -> (r: Result<SkdEditDataSetLink, Vec<char>>)
    ensures
        match r {
            Ok(l) => data_set_link(value@) == Ok::<_, Seq<char>>(
                (l.source@, l.dest@, l.source_expr@, l.dest_expr@, l.parameter@),
            ),
            Err(e) => data_set_link(value@) == Err::<(Seq<char>, Seq<char>, Seq<char>, Seq<char>, Seq<char>), _>(e@),
        },
{
    let (source, rest) = match split_once_str(value, ">") {
        Some(p) => p,
        None => return Err(chars_of("dataSetLink value must contain '>'")),
    };
    let (dest, rest) = match split_once_str(&rest, " on ") {
        Some(p) => p,
        None => return Err(chars_of("dataSetLink value must contain ' on '")),
    };
    let (expr, parameter) = match split_once_str(&rest, "[param ") {
        Some((e, p)) => {
            let stripped = trim_end_char_exec(&p, ']');
            (trim_chars(&e), trim_chars(&stripped))
        },
        None => (trim_chars(&rest), Vec::new()),
    };
    match split_once_str(&expr, "=") {
        None => Err(chars_of("dataSetLink expression must contain '='")),
        Some((se, de)) => Ok(
            SkdEditDataSetLink {
                source: trim_chars(&source),
                dest: trim_chars(&dest),
                source_expr: trim_chars(&se),
                dest_expr: trim_chars(&de),
                parameter,
            },
        ),
    }
}

/// A value with one pair of matching outer quotes (`'…'` or `"…"`) removed, after trimming.
pub open spec fn strip_quotes(value: Seq<char>) -> Seq<char> {
    let v = trim(value);
    if v.len() >= 2 && ((v[0] == '\'' && v.last() == '\'') || (v[0] == '"' && v.last() == '"')) {
        v.subrange(1, v.len() - 1)
    } else {
        v
    }
}

pub fn skd_edit_strip_quotes(value: &[char]) -> (r: Vec<char>)
    ensures
        r@ == strip_quotes(value@),
{
    let v = trim_chars(value);
    let n = v.len();
    if n >= 2 && ((v[0] == '\'' && v[n - 1] == '\'') || (v[0] == '"' && v[n - 1] == '"')) {
        return slice_to_vec(&v, 1, n - 1);
    }
    v
}

/// Index of the first `:` of `v[i..]` that is outside quotes, scanning with quote state `q`.
pub open spec fn unquoted_colon_from(v: Seq<char>, i: int, q: Option<char>) -> Option<int>
    decreases v.len() - i,
{
    if i < 0 || i >= v.len() {
        None
    } else {
        let ch = v[i];
        match q {
            Some(a) => unquoted_colon_from(v, i + 1, if ch == a { None } else { q }),
            None => if ch == '\'' || ch == '"' {
                unquoted_colon_from(v, i + 1, Some(ch))
            } else if ch == ':' {
                Some(i)
            } else {
                unquoted_colon_from(v, i + 1, None)
            },
        }
    }
}

/// The text before and after the first `:` outside quotes.
pub open spec fn split_once_unquoted_colon(v: Seq<char>) -> Option<(Seq<char>, Seq<char>)> {
    match unquoted_colon_from(v, 0, None) {
        Some(i) => Some((v.subrange(0, i), v.subrange(i + 1, v.len() as int))),
        None => None,
    }
}

pub proof fn lemma_unquoted_colon_bounds(v: Seq<char>, i: int, q: Option<char>)
    ensures
        unquoted_colon_from(v, i, q) matches Some(k) ==> i <= k < v.len() && v[k] == ':',
    decreases v.len() - i,
{
    if i < 0 || i >= v.len() {
    } else {
        let ch = v[i];
        match q {
            Some(a) => lemma_unquoted_colon_bounds(v, i + 1, if ch == a { None } else { q }),
            None => if ch == '\'' || ch == '"' {
                lemma_unquoted_colon_bounds(v, i + 1, Some(ch));
            } else if ch == ':' {
            } else {
                lemma_unquoted_colon_bounds(v, i + 1, None);
            },
        }
    }
}

pub fn skd_edit_split_once_unquoted_colon(value: &[char]) -> (r: Option<(Vec<char>, Vec<char>)>)
    ensures
        crate::text::pair_view(r) == split_once_unquoted_colon(value@),
{
    let mut quote: Option<char> = None;
    let mut i: usize = 0;
    while i < value.len()
        invariant
            i <= value.len(),
            unquoted_colon_from(value@, i as int, quote) == unquoted_colon_from(value@, 0, None),
        decreases value.len() - i,
    {
        let ch = value[i];
        match quote {
            Some(a) => {
                if ch == a {
                    quote = None;
                }
            },
            None => {
                if ch == '\'' || ch == '"' {
                    quote = Some(ch);
                } else if ch == ':' {
                    let a = slice_to_vec(value, 0, i);
                    let b = slice_to_vec(value, i + 1, value.len());
                    return Some((a, b));
                }
            },
        }
        i = i + 1;
    }
    None
}

/// The pieces of a comma-separated list, scanning `v[i..]` with the current piece
/// `cur`, quote state `q` and pieces `acc` so far; commas inside quotes do not
/// split, quotes are kept, and a final empty piece is dropped.
pub open spec fn csv_scan(v: Seq<char>, i: int, cur: Seq<char>, q: Option<char>, acc: Seq<Seq<char>>) -> Seq<Seq<char>>
    decreases v.len() - i,
{
    if i < 0 || i >= v.len() {
        if cur.len() > 0 {
            acc.push(cur)
        } else {
            acc
        }
    } else {
        let ch = v[i];
        match q {
            Some(a) => csv_scan(v, i + 1, cur.push(ch), if ch == a { None } else { q }, acc),
            None => if ch == '\'' || ch == '"' {
                csv_scan(v, i + 1, cur.push(ch), Some(ch), acc)
            } else if ch == ',' {
                csv_scan(v, i + 1, Seq::empty(), None, acc.push(cur))
            } else {
                csv_scan(v, i + 1, cur.push(ch), None, acc)
            },
        }
    }
}

pub open spec fn split_quoted_csv(v: Seq<char>) -> Seq<Seq<char>> {
    csv_scan(v, 0, Seq::empty(), None, Seq::empty())
}

pub fn skd_edit_split_quoted_csv(value: &[char]) -> (r: Vec<Vec<char>>)
    ensures
        views(r@) == split_quoted_csv(value@),
{
    let mut result: Vec<Vec<char>> = Vec::new();
    let mut current: Vec<char> = Vec::new();
    let mut quote: Option<char> = None;
    let mut i: usize = 0;
    assert(views(result@) =~= Seq::<Seq<char>>::empty());
    while i < value.len()
        invariant
            i <= value.len(),
            csv_scan(value@, i as int, current@, quote, views(result@)) == split_quoted_csv(value@),
        decreases value.len() - i,
    {
        let ch = value[i];
        match quote {
            Some(a) => {
                current.push(ch);
                if ch == a {
                    quote = None;
                }
            },
            None => {
                if ch == '\'' || ch == '"' {
                    quote = Some(ch);
                    current.push(ch);
                } else if ch == ',' {
                    proof {
                        lemma_views_push(result@, current);
                    }
                    result.push(current);
                    current = Vec::new();
                } else {
                    current.push(ch);
                }
            },
        }
        i = i + 1;
    }
    if current.len() > 0 {
        proof {
            lemma_views_push(result@, current);
        }
        result.push(current);
    }
    result
}

/// The words of a text split at whitespace outside quotes, scanning `v[i..]`;
/// quotes are kept and empty words are never produced.
pub open spec fn ws_scan(v: Seq<char>, i: int, cur: Seq<char>, q: Option<char>, acc: Seq<Seq<char>>) -> Seq<Seq<char>>
    decreases v.len() - i,
{
    if i < 0 || i >= v.len() {
        if cur.len() > 0 {
            acc.push(cur)
        } else {
            acc
        }
    } else {
        let ch = v[i];
        match q {
            Some(a) => ws_scan(v, i + 1, cur.push(ch), if ch == a { None } else { q }, acc),
            None => if ch == '\'' || ch == '"' {
                ws_scan(v, i + 1, cur.push(ch), Some(ch), acc)
            } else if crate::text::is_ws(ch) {
                if cur.len() > 0 {
                    ws_scan(v, i + 1, Seq::empty(), None, acc.push(cur))
                } else {
                    ws_scan(v, i + 1, cur, None, acc)
                }
            } else {
                ws_scan(v, i + 1, cur.push(ch), None, acc)
            },
        }
    }
}

pub open spec fn split_quoted_whitespace(v: Seq<char>) -> Seq<Seq<char>> {
    ws_scan(v, 0, Seq::empty(), None, Seq::empty())
}

pub fn skd_edit_split_quoted_whitespace(value: &[char]) -> (r: Vec<Vec<char>>)
    ensures
        views(r@) == split_quoted_whitespace(value@),
{
    let mut result: Vec<Vec<char>> = Vec::new();
    let mut current: Vec<char> = Vec::new();
    let mut quote: Option<char> = None;
    let mut i: usize = 0;
    assert(views(result@) =~= Seq::<Seq<char>>::empty());
    while i < value.len()
        invariant
            i <= value.len(),
            ws_scan(value@, i as int, current@, quote, views(result@)) == split_quoted_whitespace(
                value@,
            ),
        decreases value.len() - i,
    {
        let ch = value[i];
        match quote {
            Some(a) => {
                current.push(ch);
                if ch == a {
                    quote = None;
                }
            },
            None => {
                if ch == '\'' || ch == '"' {
                    quote = Some(ch);
                    current.push(ch);
                } else if crate::text::is_whitespace(ch) {
                    if current.len() > 0 {
                        proof {
                            lemma_views_push(result@, current);
                        }
                        result.push(current);
                        current = Vec::new();
                    }
                } else {
                    current.push(ch);
                }
            },
        }
        i = i + 1;
    }
    if current.len() > 0 {
        proof {
            lemma_views_push(result@, current);
        }
        result.push(current);
    }
    result
}


/// Each piece with its quotes stripped, empty results dropped.
pub open spec fn unquoted_nonempty(pieces: Seq<Seq<char>>) -> Seq<Seq<char>>
    decreases pieces.len(),
{
    if pieces.len() == 0 {
        Seq::empty()
    } else if strip_quotes(pieces.last()).len() == 0 {
        unquoted_nonempty(pieces.drop_last())
    } else {
        unquoted_nonempty(pieces.drop_last()).push(strip_quotes(pieces.last()))
    }
}

/// The values of a list `a, 'b', "c"`; an empty text is one empty value.
pub open spec fn value_list(value: Seq<char>) -> Seq<Seq<char>> {
    if value.len() == 0 {
        seq![Seq::empty()]
    } else {
        unquoted_nonempty(split_quoted_csv(value))
    }
}

pub fn skd_edit_parse_value_list(value: &[char]) -> (r: Vec<Vec<char>>)
    ensures
        views(r@) == value_list(value@),
{
    let mut r: Vec<Vec<char>> = Vec::new();
    if value.len() == 0 {
        r.push(Vec::new());
        proof {
            assert(views(r@) =~= seq![Seq::<char>::empty()]);
        }
        return r;
    }
    let pieces = skd_edit_split_quoted_csv(value);
    let ghost all = views(pieces@);
    let mut i: usize = 0;
    while i < pieces.len()
        invariant
            i <= pieces.len(),
            all == views(pieces@),
            views(r@) == unquoted_nonempty(all.take(i as int)),
        decreases pieces.len() - i,
    {
        let item = skd_edit_strip_quotes(&pieces[i]);
        proof {
            assert(all.take(i + 1).drop_last() =~= all.take(i as int));
        }
        if item.len() > 0 {
            proof {
                lemma_views_push(r@, item);
            }
            r.push(item);
        }
        i = i + 1;
    }
    assert(all.take(pieces.len() as int) =~= all);
    r
}

/// One available value `value: presentation` with quotes stripped from both sides.
pub open spec fn available_value(item: Seq<char>) -> (Seq<char>, Seq<char>) {
    match split_once_unquoted_colon(item) {
        Some((l, r)) => (strip_quotes(l), strip_quotes(r)),
        None => (strip_quotes(item), Seq::empty()),
    }
}

/// The items after `availableValue=`, trimmed, without empty ones or `@markers`.
pub open spec fn available_items(pieces: Seq<Seq<char>>) -> Seq<Seq<char>>
    decreases pieces.len(),
{
    if pieces.len() == 0 {
        Seq::empty()
    } else {
        let t = trim(pieces.last());
        if t.len() == 0 || t[0] == '@' {
            available_items(pieces.drop_last())
        } else {
            available_items(pieces.drop_last()).push(t)
        }
    }
}

/// The available values listed after `availableValue=` in a parameter value.
pub open spec fn available_values(value: Seq<char>) -> Seq<(Seq<char>, Seq<char>)> {
    match split_once(value, "availableValue="@) {
        None => Seq::empty(),
        Some((_, tail)) => available_items(split_quoted_csv(tail)).map_values(
            |item: Seq<char>| available_value(item),
        ),
    }
}

pub open spec fn pair_views(v: Seq<(Vec<char>, Vec<char>)>) -> Seq<(Seq<char>, Seq<char>)> {
    v.map_values(|p: (Vec<char>, Vec<char>)| (p.0@, p.1@))
}

pub fn skd_edit_extract_available_values(value: &[char]) -> (r: Vec<(Vec<char>, Vec<char>)>)
    ensures
        pair_views(r@) == available_values(value@),
{
    let mut r: Vec<(Vec<char>, Vec<char>)> = Vec::new();
    let tail = match split_once_str(value, "availableValue=") {
        None => {
            assert(pair_views(r@) =~= Seq::<(Seq<char>, Seq<char>)>::empty());
            return r;
        },
        Some((_, t)) => t,
    };
    let pieces = skd_edit_split_quoted_csv(&tail);
    let ghost all = views(pieces@);
    let mut i: usize = 0;
    while i < pieces.len()
        invariant
            i <= pieces.len(),
            all == views(pieces@),
            pair_views(r@) == available_items(all.take(i as int)).map_values(
                |item: Seq<char>| available_value(item),
            ),
        decreases pieces.len() - i,
    {
        let item = trim_chars(&pieces[i]);
        proof {
            assert(all.take(i + 1).drop_last() =~= all.take(i as int));
        }
        if item.len() == 0 || item[0] == '@' {
        } else {
            let pair = match skd_edit_split_once_unquoted_colon(&item) {
                Some((l, rr)) => (skd_edit_strip_quotes(&l), skd_edit_strip_quotes(&rr)),
                None => (skd_edit_strip_quotes(&item), Vec::new()),
            };
            proof {
                let before = available_items(all.take(i as int));
                assert(available_items(all.take(i + 1)) == before.push(item@));
                assert(before.push(item@).map_values(|x: Seq<char>| available_value(x)) =~= before.map_values(
                    |x: Seq<char>| available_value(x),
                ).push(available_value(item@)));
                assert(pair_views(r@.push(pair)) =~= pair_views(r@).push((pair.0@, pair.1@)));
            }
            r.push(pair);
        }
        i = i + 1;
    }
    assert(all.take(pieces.len() as int) =~= all);
    r
}

/// The chars of a value that are alphanumeric or `_`.
pub open spec fn xml_identifier(value: Seq<char>) -> Seq<char> {
    value.filter(|c: char| crate::external::alphanumeric(c) || c == '_')
}

pub fn sanitize_xml_identifier(value: &[char]) -> (r: Vec<char>)
    ensures
        r@ == xml_identifier(value@),
{
    let mut r: Vec<char> = Vec::new();
    let mut i: usize = 0;
    while i < value.len()
        invariant
            i <= value.len(),
            r@ == xml_identifier(value@.take(i as int)),
        decreases value.len() - i,
    {
        let c = value[i];
        proof {
            assert(value@.take(i + 1).drop_last() =~= value@.take(i as int));
            reveal_with_fuel(Seq::filter, 1);
        }
        if crate::external::is_alphanumeric(c) || c == '_' {
            r.push(c);
        }
        i = i + 1;
    }
    assert(value@.take(value.len() as int) =~= value@);
    r
}

/// The words that start with `c`, with that char removed.
pub open spec fn marked_with(ws: Seq<Seq<char>>, c: char) -> Seq<Seq<char>>
    decreases ws.len(),
{
    if ws.len() == 0 {
        Seq::empty()
    } else if ws.last().len() > 0 && ws.last()[0] == c {
        marked_with(ws.drop_last(), c).push(ws.last().subrange(1, ws.last().len() as int))
    } else {
        marked_with(ws.drop_last(), c)
    }
}

pub fn marked_with_exec(ws: &Vec<Vec<char>>, c: char) -> (r: Vec<Vec<char>>)
    ensures
        views(r@) == marked_with(views(ws@), c),
{
    let mut r: Vec<Vec<char>> = Vec::new();
    let mut i: usize = 0;
    let ghost all = views(ws@);
    while i < ws.len()
        invariant
            i <= ws.len(),
            all == views(ws@),
            views(r@) == marked_with(all.take(i as int), c),
        decreases ws.len() - i,
    {
        let w = &ws[i];
        proof {
            assert(all.take(i + 1).drop_last() =~= all.take(i as int));
            assert(all.take(i + 1).last() == w@);
        }
        if w.len() > 0 && w[0] == c {
            let rest = slice_to_vec(w, 1, w.len());
            proof {
                lemma_views_push(r@, rest);
            }
            r.push(rest);
        }
        i = i + 1;
    }
    assert(all.take(ws.len() as int) =~= all);
    r
}

/// A field to add or change: data path, field name, title, type, roles and restrictions.
pub struct SkdEditField {
    pub data_path: Vec<char>,
    pub field: Vec<char>,
    pub title: Vec<char>,
    pub field_type: Vec<char>,
    pub roles: Vec<Vec<char>>,
    pub restrict: Vec<Vec<char>>,
}

/// A field value with its `[Title]` cut out (untrimmed), and the trimmed title.
pub open spec fn field_title_split(value: Seq<char>) -> (Seq<char>, Seq<char>) {
    match (first_match(value, "["@, 0, value.len() as int), first_match(value, "]"@, 0, value.len() as int)) {
        (Some(open), Some(close)) => if close > open {
            (
                value.subrange(0, open) + value.subrange(close + 1, value.len() as int),
                trim(value.subrange(open + 1, close)),
            )
        } else {
            (value, Seq::empty())
        },
        _ => (value, Seq::empty()),
    }
}

/// A data set field as plain values.
pub struct FieldSpec {
    pub data_path: Seq<char>,
    pub field: Seq<char>,
    pub title: Seq<char>,
    pub field_type: Seq<char>,
    pub roles: Seq<Seq<char>>,
    pub restrict: Seq<Seq<char>>,
}

pub open spec fn field_view(f: SkdEditField) -> FieldSpec {
    FieldSpec {
        data_path: f.data_path@,
        field: f.field@,
        title: f.title@,
        field_type: f.field_type@,
        roles: views(f.roles@),
        restrict: views(f.restrict@),
    }
}

/// The field a value such as `Path: type [Title] @role #noFilter` describes.
pub open spec fn parsed_field(value: Seq<char>) -> FieldSpec {
    let (text, title) = field_title_split(value);
    let (data_path, field_type) = name_and_type(strip_markers(text));
    FieldSpec {
        data_path,
        field: data_path,
        title,
        field_type,
        roles: marked_with(words(text), '@'),
        restrict: marked_with(words(text), '#'),
    }
}

pub fn skd_edit_parse_field(value: &[char]) -> (r: SkdEditField)
    ensures
        field_view(r) == parsed_field(value@),
        ({
            let (text, title) = field_title_split(value@);
            let (data_path, field_type) = name_and_type(strip_markers(text));
            &&& r.title@ == title
            &&& views(r.roles@) == marked_with(words(text), '@')
            &&& views(r.restrict@) == marked_with(words(text), '#')
            &&& r.data_path@ == data_path
            &&& r.field@ == data_path
            &&& r.field_type@ == field_type
        }),
{
    proof {
        reveal_strlit("[");
        reveal_strlit("]");
        lemma_first_match_bounds(value@, "["@, 0, value@.len() as int);
        lemma_first_match_bounds(value@, "]"@, 0, value@.len() as int);
    }
    let open = find_str(value, "[", 0, value.len());
    let close = find_str(value, "]", 0, value.len());
    let (text, title) = match (open, close) {
        (Some(o), Some(c)) => {
            if c > o {
                let title = trim_range(value, o + 1, c);
                let mut rest = slice_to_vec(value, 0, o);
                let tail = slice_to_vec(value, c + 1, value.len());
                push_chars(&mut rest, &tail);
                (rest, title)
            } else {
                (to_vec(value), Vec::new())
            }
        },
        _ => (to_vec(value), Vec::new()),
    };
    let ws = split_whitespace(&text);
    let roles = marked_with_exec(&ws, '@');
    let restrict = marked_with_exec(&ws, '#');
    let kept = unmarked_exec(&ws);
    let joined = join_str(&kept, " ");
    let (data_path, field_type) = name_and_type_exec(&joined);
    let field = data_path.clone();
    SkdEditField { data_path, field, title, field_type, roles, restrict }
}

/// The words other than `@once`, joined by one space, and whether `@once` was there.
pub open spec fn once_marker(value: Seq<char>) -> (Seq<char>, bool) {
    (
        join(words(value).filter(|w: Seq<char>| w != "@once"@), " "@),
        is_one_of("@once"@, words(value)),
    )
}

pub fn skd_edit_extract_once_marker(value: &[char]) -> (r: (Vec<char>, bool))
    ensures
        (r.0@, r.1) == once_marker(value@),
{
    let ws = split_whitespace(value);
    let ghost all = views(ws@);
    let mut kept: Vec<Vec<char>> = Vec::new();
    let mut once = false;
    let mut i: usize = 0;
    while i < ws.len()
        invariant
            i <= ws.len(),
            all == views(ws@),
            views(kept@) == all.take(i as int).filter(|w: Seq<char>| w != "@once"@),
            once == is_one_of("@once"@, all.take(i as int)),
        decreases ws.len() - i,
    {
        let w = &ws[i];
        proof {
            assert(all.take(i + 1).drop_last() =~= all.take(i as int));
            assert(all.take(i + 1).last() == w@);
            reveal_with_fuel(Seq::filter, 1);
        }
        if eq_str(w, "@once") {
            once = true;
            proof {
                assert(all.take(i + 1)[i as int] == "@once"@);
            }
        } else {
            let c = w.clone();
            proof {
                lemma_views_push(kept@, c);
                if is_one_of("@once"@, all.take(i + 1)) {
                    let j = choose|j: int| 0 <= j < i + 1 && "@once"@ == #[trigger] all.take(i + 1)[j];
                    assert(all.take(i as int)[j] == all.take(i + 1)[j]);
                }
            }
            kept.push(c);
        }
        proof {
            if once && !is_one_of("@once"@, all.take(i + 1)) {
                let j = choose|j: int| 0 <= j < i && "@once"@ == #[trigger] all.take(i as int)[j];
                assert(all.take(i + 1)[j] == all.take(i as int)[j]);
            }
        }
        i = i + 1;
    }
    assert(all.take(ws.len() as int) =~= all);
    (join_str(&kept, " "), once)
}


/// A selection to add: the field, and the named group to add it to if any.
pub struct SkdEditSelectionValue {
    pub field: Vec<char>,
    pub group: Option<Vec<char>>,
}

/// `Field @group=Name`: the trimmed field and the first word after the marker.
pub open spec fn selection_value(value: Seq<char>) -> (Seq<char>, Option<Seq<char>>) {
    let field = trim(value);
    match first_match(field, " @group="@, 0, field.len() as int) {
        None => (field, None),
        Some(marker) => {
            let tail = trim(field.subrange(marker + 8, field.len() as int));
            (
                trim(field.subrange(0, marker)),
                if words(tail).len() > 0 {
                    Some(words(tail)[0])
                } else {
                    None
                },
            )
        },
    }
}

pub fn skd_edit_parse_selection_value(value: &[char]) -> (r: SkdEditSelectionValue)
    ensures
        (r.field@, opt_view(r.group)) == selection_value(value@),
{
    let field = trim_chars(value);
    proof {
        reveal_strlit(" @group=");
        lemma_first_match_bounds(field@, " @group="@, 0, field@.len() as int);
    }
    match find_str(&field, " @group=", 0, field.len()) {
        None => SkdEditSelectionValue { field, group: None },
        Some(marker) => {
            let tail = trim_range(&field, marker + 8, field.len());
            let ws = split_whitespace(&tail);
            let group = if ws.len() > 0 {
                Some(ws[0].clone())
            } else {
                None
            };
            let f = trim_range(&field, 0, marker);
            SkdEditSelectionValue { field: f, group }
        },
    }
}

/// `Field [desc]` as the editor reports it: `Field Asc` or `Field Desc`, or `Auto`.
pub open spec fn order_description(value: Seq<char>) -> Seq<char> {
    let v = trim(value);
    if v == "Auto"@ {
        "Auto"@
    } else {
        let ws = words(v);
        let field = if ws.len() > 0 {
            ws[0]
        } else {
            v
        };
        let direction = if ws.len() > 1 && crate::text::eq_ignore_ascii_case(ws[1], "desc"@) {
            "Desc"@
        } else {
            "Asc"@
        };
        field + " "@ + direction
    }
}

/// The field and direction of an order value (`Field`, `Field desc`).
pub fn order_field_direction(v: &[char]) -> (r: (Vec<char>, &'static str))
    ensures
        ({
            let ws = words(v@);
            &&& r.0@ == (if ws.len() > 0 {
                ws[0]
            } else {
                v@
            })
            &&& r.1@ == (if ws.len() > 1 && crate::text::eq_ignore_ascii_case(ws[1], "desc"@) {
                "Desc"@
            } else {
                "Asc"@
            })
        }),
{
    let ws = split_whitespace(v);
    let field = if ws.len() > 0 {
        ws[0].clone()
    } else {
        to_vec(v)
    };
    let direction: &'static str = if ws.len() > 1 && crate::text::eq_ignore_ascii_case_str(&ws[1], "desc") {
        "Desc"
    } else {
        "Asc"
    };
    (field, direction)
}

pub fn skd_edit_order_description(value: &[char]) -> (r: Vec<char>)
    ensures
        r@ == order_description(value@),
{
    let v = trim_chars(value);
    if eq_str(&v, "Auto") {
        return chars_of("Auto");
    }
    let (mut field, direction) = order_field_direction(&v);
    push_str(&mut field, " ");
    push_str(&mut field, direction);
    field
}

/// A parameter to add: name, title, type, values, flags, available values and an
/// optional expression.
pub struct SkdEditParameter {
    pub name: Vec<char>,
    pub title: Vec<char>,
    pub param_type: Vec<char>,
    pub values: Vec<Vec<char>>,
    pub hidden: bool,
    pub always: bool,
    pub value_list_allowed: bool,
    pub available_values: Vec<(Vec<char>, Vec<char>)>,
    pub auto_dates: bool,
    pub expression: Option<Vec<char>>,
}

/// The part of a parameter value before `availableValue=`, without its flags.
pub open spec fn parameter_cleaned(value: Seq<char>) -> Seq<char> {
    let head = match split_once(value, "availableValue="@) {
        Some((a, _)) => a,
        None => value,
    };
    crate::text::replace_all(
        crate::text::replace_all(
            crate::text::replace_all(
                crate::text::replace_all(head, "@autoDates"@, Seq::empty()),
                "@hidden"@,
                Seq::empty(),
            ),
            "@always"@,
            Seq::empty(),
        ),
        "@valueList"@,
        Seq::empty(),
    )
}

/// The left side and values of `Name [Title]: type = v1, v2`; two or more values
/// make a value list.
pub open spec fn parameter_sides(value: Seq<char>) -> (Seq<char>, Seq<Seq<char>>, bool) {
    let cleaned = parameter_cleaned(value);
    match split_once(cleaned, "="@) {
        Some((l, r)) => (
            trim(l),
            value_list(trim(r)),
            contains(value, "@valueList"@) || value_list(trim(r)).len() >= 2,
        ),
        None => (trim(cleaned), Seq::empty(), contains(value, "@valueList"@)),
    }
}

pub fn skd_edit_parse_parameter(value: &[char]) -> (r: SkdEditParameter)
    ensures
        ({
            let (left, values, value_list_allowed) = parameter_sides(value@);
            let (name_type, title) = bracket_title(left);
            let (name, param_type) = name_and_type(strip_markers(name_type));
            &&& r.name@ == name
            &&& r.title@ == title
            &&& r.param_type@ == param_type
            &&& views(r.values@) == values
            &&& r.value_list_allowed == value_list_allowed
            &&& r.auto_dates == contains(value@, "@autoDates"@)
            &&& r.hidden == contains(value@, "@hidden"@)
            &&& r.always == contains(value@, "@always"@)
            &&& pair_views(r.available_values@) == available_values(value@)
            &&& r.expression is None
        }),
{
    let auto_dates = contains_str(value, "@autoDates");
    let hidden = contains_str(value, "@hidden");
    let always = contains_str(value, "@always");
    let vla = contains_str(value, "@valueList");
    let available = skd_edit_extract_available_values(value);
    let head = match split_once_str(value, "availableValue=") {
        Some((a, _)) => a,
        None => to_vec(value),
    };
    proof {
        reveal_strlit("@autoDates");
        reveal_strlit("@hidden");
        reveal_strlit("@always");
        reveal_strlit("@valueList");
        reveal_strlit("");
        assert(""@ =~= Seq::<char>::empty());
    }
    let c = crate::text::replace_str(&head, "@autoDates", "");
    let c = crate::text::replace_str(&c, "@hidden", "");
    let c = crate::text::replace_str(&c, "@always", "");
    let cleaned = crate::text::replace_str(&c, "@valueList", "");
    let (left, values, value_list_allowed) = match split_once_str(&cleaned, "=") {
        Some((l, rr)) => {
            let rt = trim_chars(&rr);
            let values = skd_edit_parse_value_list(&rt);
            let allowed = vla || values.len() >= 2;
            (trim_chars(&l), values, allowed)
        },
        None => {
            let empty: Vec<Vec<char>> = Vec::new();
            assert(views(empty@) =~= Seq::<Seq<char>>::empty());
            (trim_chars(&cleaned), empty, vla)
        },
    };
    let (name_type, title) = skd_edit_extract_bracket_title(&left);
    let name_type = skd_edit_strip_markers(&name_type);
    let (name, param_type) = name_and_type_exec(&name_type);
    SkdEditParameter {
        name,
        title,
        param_type,
        values,
        hidden,
        always,
        value_list_allowed,
        available_values: available,
        auto_dates,
        expression: None,
    }
}


/// A conditional appearance item: parameter and value, the fields it applies to
/// and the filters that select it.
pub struct SkdEditConditionalAppearance {
    pub parameter: Vec<char>,
    pub value: Vec<char>,
    pub fields: Vec<Vec<char>>,
    pub filters: Vec<SkdEditFilter>,
}

/// The parts of `Param = value when cond1 or cond2 for Field1, Field2`: parameter,
/// value, fields, and the condition texts.
pub open spec fn conditional_appearance(value: Seq<char>) -> (Seq<char>, Seq<char>, Seq<Seq<char>>, Seq<Seq<char>>) {
    let (head, fields) = match split_once(value, " for "@) {
        Some((l, r)) => (trim(l), trim_nonempty(split(r, ","@))),
        None => (trim(value), Seq::empty()),
    };
    let (head2, conditions) = match split_once(head, " when "@) {
        Some((l, r)) => (trim(l), trim_nonempty(split(r, " or "@))),
        None => (head, Seq::empty()),
    };
    let (parameter, val) = match split_once(head2, "="@) {
        Some((l, r)) => (trim(l), trim(r)),
        None => (head2, Seq::empty()),
    };
    (parameter, val, fields, conditions)
}

/// Conditions of a conditional appearance carry no user setting, so their filters
/// are parsed with an empty id.
pub fn skd_edit_parse_conditional_appearance(value: &[char]) -> (r: SkdEditConditionalAppearance)
    ensures
        ({
            let (parameter, val, fields, conditions) = conditional_appearance(value@);
            &&& r.parameter@ == parameter
            &&& r.value@ == val
            &&& views(r.fields@) == fields
            &&& r.filters@.len() == conditions.len()
            &&& forall|i: int| 0 <= i < conditions.len() ==> filter_parsed(
                #[trigger] r.filters@[i],
                conditions[i],
                Seq::empty(),
            )
        }),
{
    proof {
        reveal_strlit(",");
        reveal_strlit(" or ");
    }
    let (head, fields) = match split_once_str(value, " for ") {
        Some((l, rr)) => (trim_chars(&l), split_trim_nonempty(&rr, ",")),
        None => {
            let empty: Vec<Vec<char>> = Vec::new();
            assert(views(empty@) =~= Seq::<Seq<char>>::empty());
            (trim_chars(value), empty)
        },
    };
    let (head2, conditions) = match split_once_str(&head, " when ") {
        Some((l, rr)) => (trim_chars(&l), split_trim_nonempty(&rr, " or ")),
        None => {
            let empty: Vec<Vec<char>> = Vec::new();
            assert(views(empty@) =~= Seq::<Seq<char>>::empty());
            (head, empty)
        },
    };
    let mut filters: Vec<SkdEditFilter> = Vec::new();
    let no_id: Vec<char> = Vec::new();
    let mut i: usize = 0;
    while i < conditions.len()
        invariant
            i <= conditions.len(),
            no_id@ == Seq::<char>::empty(),
            filters@.len() == i,
            forall|k: int| 0 <= k < i ==> filter_parsed(#[trigger] filters@[k], conditions@[k]@, Seq::empty()),
        decreases conditions.len() - i,
    {
        let f = skd_edit_parse_filter(&conditions[i], &no_id);
        filters.push(f);
        i = i + 1;
    }
    let (parameter, val) = match split_once_str(&head2, "=") {
        Some((l, rr)) => (trim_chars(&l), trim_chars(&rr)),
        None => (head2, Vec::new()),
    };
    proof {
        assert forall|k: int| 0 <= k < conditions@.len() implies views(conditions@)[k] == conditions@[k]@ by {}
    }
    SkdEditConditionalAppearance { parameter, value: val, fields, filters }
}

/// A `@name=N` marker cut out of a structure segment: the rest of the segment
/// and the name (quoted with `"` or `'`, or up to the next whitespace).
pub open spec fn structure_name(segment: Seq<char>) -> (Seq<char>, Option<Seq<char>>) {
    match first_match(segment, "@name="@, 0, segment.len() as int) {
        None => (trim(segment), None),
        Some(marker) => {
            let before = crate::text::trim_end(segment.subrange(0, marker));
            let after = segment.subrange(marker + 6, segment.len() as int);
            let (name, consumed) = if after.len() > 0 && (after[0] == '"' || after[0] == '\'') {
                let rest = after.subrange(1, after.len() as int);
                match first_match(rest, seq![after[0]], 0, rest.len() as int) {
                    Some(end) => (rest.subrange(0, end), end + 2),
                    None => (rest, after.len() as int),
                }
            } else {
                let end = crate::text::skip_non_ws(after, 0, after.len() as int);
                (after.subrange(0, end), end)
            };
            let rest = crate::text::trim_start(after.subrange(consumed, after.len() as int));
            let cleaned = if rest.len() > 0 {
                if before.len() > 0 {
                    before + " "@ + rest
                } else {
                    rest
                }
            } else {
                before
            };
            (trim(cleaned), Some(trim(name)))
        },
    }
}

pub fn skd_edit_extract_structure_name(segment: &[char]) -> (r: (Vec<char>, Option<Vec<char>>))
    ensures
        (r.0@, opt_view(r.1)) == structure_name(segment@),
{
    proof {
        reveal_strlit("@name=");
        reveal_strlit(" ");
        lemma_first_match_bounds(segment@, "@name="@, 0, segment@.len() as int);
    }
    let marker = match find_str(segment, "@name=", 0, segment.len()) {
        None => return (trim_chars(segment), None),
        Some(m) => m,
    };
    let head = slice_to_vec(segment, 0, marker);
    let before = crate::text::trim_end_chars(&head);
    let after = slice_to_vec(segment, marker + 6, segment.len());
    let (name, consumed) = if after.len() > 0 && (after[0] == '"' || after[0] == '\'') {
        let rest = slice_to_vec(&after, 1, after.len());
        let mut q: Vec<char> = Vec::new();
        q.push(after[0]);
        assert(q@ =~= seq![after@[0]]);
        proof {
            lemma_first_match_bounds(rest@, q@, 0, rest@.len() as int);
        }
        match crate::text::find_in(&rest, &q, 0, rest.len()) {
            Some(end) => (slice_to_vec(&rest, 0, end), end + 2),
            None => (rest, after.len()),
        }
    } else {
        let mut end: usize = 0;
        while end < after.len() && !crate::text::is_whitespace(after[end])
            invariant
                end <= after.len(),
                crate::text::skip_non_ws(after@, 0, after@.len() as int) == crate::text::skip_non_ws(
                    after@,
                    end as int,
                    after@.len() as int,
                ),
            decreases after.len() - end,
        {
            end = end + 1;
        }
        (slice_to_vec(&after, 0, end), end)
    };
    let tail = slice_to_vec(&after, consumed, after.len());
    let rest = crate::text::trim_start_chars(&tail);
    let mut cleaned = before;
    if rest.len() > 0 {
        if cleaned.len() > 0 {
            push_str(&mut cleaned, " ");
        }
        push_chars(&mut cleaned, &rest);
    }
    (trim_chars(&cleaned), Some(trim_chars(&name)))
}


/// One level of a settings structure: an optional group name, the fields it
/// groups by (none for detail records) and the nested levels.
pub struct SkdEditStructureItem {
    pub name: Option<Vec<char>>,
    pub group_by: Vec<Vec<char>>,
    pub children: Vec<SkdEditStructureItem>,
}

/// Name and grouping fields of one `>`-separated segment: `details`/`детали`
/// group by nothing.
pub open spec fn structure_level(segment: Seq<char>) -> (Option<Seq<char>>, Seq<Seq<char>>) {
    let (seg, name) = structure_name(segment);
    (name, if crate::text::eq_ignore_ascii_case(seg, "details"@) || seg == "детали"@ {
        Seq::empty()
    } else {
        trim_nonempty(split(seg, ","@))
    })
}

/// The levels of `A, B @name=G > C > details`, outermost first.
pub open spec fn structure_levels(value: Seq<char>) -> Seq<(Option<Seq<char>>, Seq<Seq<char>>)> {
    trim_nonempty(split(value, ">"@)).map_values(|seg: Seq<char>| structure_level(seg))
}

/// `item` nests the levels in order, each the only child of the one before.
pub open spec fn is_chain(item: SkdEditStructureItem, levels: Seq<(Option<Seq<char>>, Seq<Seq<char>>)>) -> bool
    decreases levels.len(),
{
    &&& levels.len() >= 1
    &&& opt_view(item.name) == levels[0].0
    &&& views(item.group_by@) == levels[0].1
    &&& if levels.len() == 1 {
        item.children@.len() == 0
    } else {
        item.children@.len() == 1 && is_chain(item.children@[0], levels.drop_first())
    }
}

pub fn skd_edit_structure_level(segment: &[char]) -> (r: (Option<Vec<char>>, Vec<Vec<char>>))
    ensures
        (opt_view(r.0), views(r.1@)) == structure_level(segment@),
{
    let (seg, name) = skd_edit_extract_structure_name(segment);
    proof {
        reveal_strlit(",");
    }
    let group_by = if crate::text::eq_ignore_ascii_case_str(&seg, "details") || eq_str(&seg, "детали") {
        let empty: Vec<Vec<char>> = Vec::new();
        assert(views(empty@) =~= Seq::<Seq<char>>::empty());
        empty
    } else {
        split_trim_nonempty(&seg, ",")
    };
    (name, group_by)
}

/// Parses a structure: one item nesting the levels, or none for an empty value.
pub fn skd_edit_parse_structure(value: &[char]) -> (r: Vec<SkdEditStructureItem>)
    ensures
        structure_levels(value@).len() == 0 ==> r@.len() == 0,
        structure_levels(value@).len() > 0 ==> r@.len() == 1 && is_chain(r@[0], structure_levels(value@)),
{
    proof {
        reveal_strlit(">");
    }
    let segments = split_trim_nonempty(value, ">");
    let ghost levels = structure_levels(value@);
    let n = segments.len();
    assert(levels.len() == n);
    let mut innermost: Option<SkdEditStructureItem> = None;
    let mut i: usize = n;
    while i > 0
        invariant
            i <= n == segments@.len() == levels.len(),
            levels == views(segments@).map_values(|seg: Seq<char>| structure_level(seg)),
            i == n ==> innermost is None,
            i < n ==> (innermost matches Some(item) && is_chain(item, levels.subrange(i as int, n as int))),
        decreases i,
    {
        i = i - 1;
        let (name, group_by) = skd_edit_structure_level(&segments[i]);
        let mut children: Vec<SkdEditStructureItem> = Vec::new();
        let ghost inner = innermost;
        match innermost {
            Some(item) => {
                children.push(item);
            },
            None => {},
        }
        let item = SkdEditStructureItem { name, group_by, children };
        proof {
            let sub = levels.subrange(i as int, n as int);
            assert(sub[0] == levels[i as int]);
            assert(levels[i as int] == structure_level(views(segments@)[i as int]));
            if i + 1 < n {
                assert(sub.drop_first() =~= levels.subrange(i + 1, n as int));
            }
        }
        innermost = Some(item);
    }
    let mut r: Vec<SkdEditStructureItem> = Vec::new();
    match innermost {
        Some(item) => {
            proof {
                assert(levels.subrange(0, n as int) =~= levels);
            }
            r.push(item);
        },
        None => {},
    }
    r
}


/// Changes to an existing parameter: its name, a title, values, other
/// `key=value` children, available values and the `@hidden`/`@always` flags.
pub struct SkdEditParameterPatch {
    pub name: Vec<char>,
    pub title: Vec<char>,
    pub values: Option<Vec<Vec<char>>>,
    pub simple_pairs: Vec<(Vec<char>, Vec<char>)>,
    pub available_values: Vec<(Vec<char>, Vec<char>)>,
    pub hidden: bool,
    pub always: bool,
}

/// All chars are alphanumeric or `_`.
pub open spec fn is_identifier(t: Seq<char>) -> bool {
    forall|i: int| 0 <= i < t.len() ==> (crate::external::alphanumeric(#[trigger] t[i]) || t[i] == '_')
}

/// A token looks like `key=value` with an identifier key.
pub open spec fn looks_like_pair(token: Seq<char>) -> bool {
    match split_once(token, "="@) {
        Some((k, _)) => is_identifier(k),
        None => false,
    }
}

/// The raw value that starts with `raw` and takes in, space-separated, the tokens
/// from `j` on up to the next one that looks like a pair; and the index after them.
pub open spec fn absorb_value(parts: Seq<Seq<char>>, j: int, raw: Seq<char>) -> (Seq<char>, int)
    decreases parts.len() - j,
{
    if j < 0 || j >= parts.len() || looks_like_pair(parts[j]) {
        (raw, j)
    } else {
        absorb_value(parts, j + 1, raw + " "@ + parts[j])
    }
}

/// The values and simple pairs of the tokens from `i` on.
pub open spec fn patch_scan(
    parts: Seq<Seq<char>>,
    i: int,
    values: Option<Seq<Seq<char>>>,
    pairs: Seq<(Seq<char>, Seq<char>)>,
) -> (Option<Seq<Seq<char>>>, Seq<(Seq<char>, Seq<char>)>)
    decreases parts.len() - i,
{
    if i < 1 || i >= parts.len() {
        (values, pairs)
    } else {
        match split_once(parts[i], "="@) {
            None => patch_scan(parts, i + 1, values, pairs),
            Some((k, v)) => if k == "value"@ {
                let (raw, next) = absorb_value(parts, i + 1, v);
                proof {
                    lemma_absorb_bounds(parts, i + 1, v);
                }
                if next > i {
                    patch_scan(parts, next, Some(value_list(raw)), pairs)
                } else {
                    (values, pairs)
                }
            } else {
                patch_scan(parts, i + 1, values, pairs.push((k, strip_quotes(v))))
            },
        }
    }
}

pub proof fn lemma_absorb_bounds(parts: Seq<Seq<char>>, j: int, raw: Seq<char>)
    requires
        0 <= j <= parts.len(),
    ensures
        j <= absorb_value(parts, j, raw).1 <= parts.len(),
    decreases parts.len() - j,
{
    if j >= parts.len() || looks_like_pair(parts[j]) {
    } else {
        lemma_absorb_bounds(parts, j + 1, raw + " "@ + parts[j]);
    }
}

/// The parameter patch a value describes, as views.
pub open spec fn parameter_patch_parts(value: Seq<char>) -> (Seq<Seq<char>>, Seq<char>, Seq<(Seq<char>, Seq<char>)>) {
    let cleaned = crate::text::replace_all(
        crate::text::replace_all(value, "@hidden"@, Seq::empty()),
        "@always"@,
        Seq::empty(),
    );
    let (without_available, available) = match split_once(cleaned, "availableValue="@) {
        Some((head, tail)) => (trim(head), available_values("availableValue="@ + tail)),
        None => (trim(cleaned), Seq::empty()),
    };
    let (head, title) = bracket_title(without_available);
    (split_quoted_whitespace(head), title, available)
}

pub fn is_identifier_exec(t: &[char]) -> (b: bool)
    ensures
        b == is_identifier(t@),
{
    let mut i: usize = 0;
    while i < t.len()
        invariant
            i <= t.len(),
            forall|k: int| 0 <= k < i ==> (crate::external::alphanumeric(#[trigger] t@[k]) || t@[k] == '_'),
        decreases t.len() - i,
    {
        if !(crate::external::is_alphanumeric(t[i]) || t[i] == '_') {
            return false;
        }
        i = i + 1;
    }
    true
}

pub fn looks_like_pair_exec(token: &[char]) -> (b: bool)
    ensures
        b == looks_like_pair(token@),
{
    match split_once_str(token, "=") {
        Some((k, _)) => is_identifier_exec(&k),
        None => false,
    }
}

pub fn skd_edit_parse_parameter_patch(value: &[char]) -> (r: SkdEditParameterPatch)
    ensures
        ({
            let (parts, title, available) = parameter_patch_parts(value@);
            let (values, pairs) = patch_scan(parts, 1, None, Seq::empty());
            &&& r.hidden == contains(value@, "@hidden"@)
            &&& r.always == contains(value@, "@always"@)
            &&& r.title@ == title
            &&& pair_views(r.available_values@) == available
            &&& r.name@ == (if parts.len() > 0 {
                parts[0]
            } else {
                Seq::empty()
            })
            &&& pair_views(r.simple_pairs@) == pairs
            &&& match (r.values, values) {
                (Some(v), Some(w)) => views(v@) == w,
                (None, None) => true,
                _ => false,
            }
        }),
{
    let hidden = contains_str(value, "@hidden");
    let always = contains_str(value, "@always");
    proof {
        reveal_strlit("@hidden");
        reveal_strlit("@always");
        reveal_strlit("");
        assert(""@ =~= Seq::<char>::empty());
    }
    let c = crate::text::replace_str(value, "@hidden", "");
    let cleaned = crate::text::replace_str(&c, "@always", "");
    let (without_available, available) = match split_once_str(&cleaned, "availableValue=") {
        Some((head, tail)) => {
            let mut prefixed = chars_of("availableValue=");
            push_chars(&mut prefixed, &tail);
            (trim_chars(&head), skd_edit_extract_available_values(&prefixed))
        },
        None => {
            let empty: Vec<(Vec<char>, Vec<char>)> = Vec::new();
            assert(pair_views(empty@) =~= Seq::<(Seq<char>, Seq<char>)>::empty());
            (trim_chars(&cleaned), empty)
        },
    };
    let (head, title) = skd_edit_extract_bracket_title(&without_available);
    let parts = skd_edit_split_quoted_whitespace(&head);
    let ghost ps = views(parts@);
    let name = if parts.len() > 0 {
        parts[0].clone()
    } else {
        Vec::new()
    };
    let mut values: Option<Vec<Vec<char>>> = None;
    let mut pairs: Vec<(Vec<char>, Vec<char>)> = Vec::new();
    let mut i: usize = 1;
    let ghost target = patch_scan(ps, 1, None, Seq::empty());
    assert(pair_views(pairs@) =~= Seq::<(Seq<char>, Seq<char>)>::empty());
    while i < parts.len()
        invariant
            1 <= i,
            ps == views(parts@),
            patch_scan(ps, i as int, match values {
                Some(v) => Some(views(v@)),
                None => None,
            }, pair_views(pairs@)) == target,
        decreases parts.len() - i,
    {
        match split_once_str(&parts[i], "=") {
            None => {
                i = i + 1;
            },
            Some((k, v)) => {
                if eq_str(&k, "value") {
                    let mut raw = v;
                    let mut j = i + 1;
                    proof {
                        lemma_absorb_bounds(ps, j as int, raw@);
                    }
                    while j < parts.len() && !looks_like_pair_exec(&parts[j])
                        invariant
                            i < j <= parts.len(),
                            ps == views(parts@),
                            absorb_value(ps, j as int, raw@) == absorb_value(ps, i + 1, v@),
                        decreases parts.len() - j,
                    {
                        push_str(&mut raw, " ");
                        push_chars(&mut raw, &parts[j]);
                        j = j + 1;
                    }
                    let list = skd_edit_parse_value_list(&raw);
                    values = Some(list);
                    i = j;
                } else {
                    let sv = skd_edit_strip_quotes(&v);
                    proof {
                        assert(pair_views(pairs@.push((k, sv))) =~= pair_views(pairs@).push((k@, sv@)));
                    }
                    pairs.push((k, sv));
                    i = i + 1;
                }
            },
        }
    }
    SkdEditParameterPatch {
        name,
        title,
        values,
        simple_pairs: pairs,
        available_values: available,
        hidden,
        always,
    }
}

/// A query data set to add: its name and its query text.
pub struct SkdEditDataSet {
    pub name: Vec<char>,
    pub query: Vec<char>,
}

/// `Name: query` gives the trimmed name and query; a value without a colon is
/// the query of a data set named `НаборДанных`.
pub open spec fn data_set_parts(value: Seq<char>) -> (Seq<char>, Seq<char>) {
    match crate::text::split_once(value, ":"@) {
        Some((l, r)) => (crate::text::trim(l), crate::text::trim(r)),
        None => ("НаборДанных"@, crate::text::trim(value)),
    }
}

/// The data set of an edit value. A query of the form `@path` names a file
/// whose text is the query; reading it is left to the caller.
pub fn skd_edit_parse_data_set(value: &[char]) -> (r: SkdEditDataSet)
    ensures
        (r.name@, r.query@) == data_set_parts(value@),
{
    match crate::text::split_once_str(value, ":") {
        Some((l, r)) => SkdEditDataSet { name: crate::text::trim_chars(&l), query: crate::text::trim_chars(&r) },
        None => SkdEditDataSet { name: crate::text::chars_of("НаборДанных"), query: crate::text::trim_chars(value) },
    }
}

} // verus!
