//! Properties of the library that relate several of its functions or hold of
//! every input, each proved from the specifications the functions meet.
use vstd::prelude::*;
use crate::numbers::{digits_value, int_text, nat_text, only_digits, parse_int, digit_char};
use crate::text::{first_match, matches_at, split, split_once, starts_with, ends_with, trim, lemma_first_match_none};

verus! {

proof fn lemma_nat_text_digits(n: nat)
    ensures
        nat_text(n).len() > 0,
        only_digits(nat_text(n)),
        digits_value(nat_text(n)) == n,
    decreases n,
{
    if n < 10 {
        assert(digit_char(n as int) as int == 48 + n);
        assert(nat_text(n).drop_last() =~= Seq::<char>::empty());
        assert(digits_value(Seq::<char>::empty()) == 0);
        assert(nat_text(n).last() == digit_char(n as int));
        assert(digits_value(nat_text(n)) == 0 * 10 + (digit_char(n as int) as int - 48) as nat);
    } else {
        lemma_nat_text_digits(n / 10);
        let t = nat_text(n);
        assert(t.drop_last() =~= nat_text(n / 10));
        assert(t.last() == digit_char((n % 10) as int));
        assert(digit_char((n % 10) as int) as int == 48 + n % 10);
        assert(digits_value(t) == digits_value(t.drop_last()) * 10 + (t.last() as int - 48) as nat);
        assert(n == (n / 10) * 10 + n % 10);
        assert forall|i: int| 0 <= i < t.len() implies '0' <= #[trigger] t[i] && t[i] <= '9' by {
            if i < t.len() - 1 {
                assert(t[i] == nat_text(n / 10)[i]);
            }
        }
    }
}

/// Reading back the decimal text of a number gives the number: `parse_i64`
/// undoes `i64_text`.
pub proof fn law_parse_reads_back_text(i: i64)
    ensures
        parse_int(int_text(i as int)) == Some(i as int),
{
    if i < 0 {
        let n = (-(i as int)) as nat;
        lemma_nat_text_digits(n);
        let t = int_text(i as int);
        assert(t[0] == '-');
        assert(t.subrange(1, t.len() as int) =~= nat_text(n));
    } else {
        let n = i as nat;
        lemma_nat_text_digits(n);
        let t = int_text(i as int);
        assert(t == nat_text(n));
        assert('0' <= t[0] && t[0] <= '9');
    }
}

/// An edit that left the text as it was, without being asked to save, is not
/// saved; anything that is saved ends with a line end.
pub proof fn law_unchanged_text_is_not_saved(t: Seq<char>, original: Seq<char>, crlf: bool, force: bool)
    ensures
        crate::skd_apply::saved_text(t, t, crlf, false) is None,
        force ==> crate::skd_apply::saved_text(t, original, crlf, force) is Some,
        t != original ==> crate::skd_apply::saved_text(t, original, crlf, force) is Some,
        crate::skd_apply::saved_text(t, original, crlf, force) matches Some(s) ==> ends_with(s, "\n"@),
{
    reveal_strlit("\n");
    reveal_strlit("\r\n");
    if let Some(s) = crate::skd_apply::saved_text(t, original, crlf, force) {
        let t1 = crate::skd_apply::replace_first(t, "encoding=\"UTF-8\""@, "encoding=\"utf-8\""@);
        let t2 = if crlf {
            crate::text::replace_all(crate::text::replace_all(t1, "\r\n"@, "\n"@), "\n"@, "\r\n"@)
        } else {
            crate::text::replace_all(t1, "\r\n"@, "\n"@)
        };
        if !ends_with(t2, "\n"@) {
            let e = if crlf { "\r\n"@ } else { "\n"@ };
            assert((t2 + e).subrange((t2 + e).len() - 1, (t2 + e).len() as int) =~= "\n"@);
        }
    }
}

/// With `@once`, patching a query succeeds only when the text occurs exactly
/// once in it.
pub proof fn law_patch_once_replaces_one(t: Seq<char>, data_set: Seq<char>, old: Seq<char>, new: Seq<char>)
    ensures
        crate::skd_edit::patch_query(t, data_set, old, new, true) matches Ok((_, count)) ==> count == 1,
{
}

/// Renaming a parameter to its own name changes nothing.
pub proof fn law_rename_to_same_name_is_identity(t: Seq<char>, value: Seq<char>)
    requires
        split_once(value, "=>"@) matches Some((a, b)) && trim(a) == trim(b),
    ensures
        crate::skd_edit::rename_parameter(t, value).0 == t,
        crate::skd_edit::rename_parameter(t, value).2 is Ok,
{
}

/// A schema check passes exactly when it recorded no error, and the error lines
/// it returns are error lines.
pub proof fn law_report_passes_without_errors(
    lines: Seq<Seq<char>>,
    errors: nat,
    warnings: nat,
    ok_count: nat,
    detailed: bool,
    file_name: Seq<char>,
)
    ensures
        crate::skd_report::skd_report(lines, errors, warnings, ok_count, detailed, file_name).0 <==> errors == 0,
        forall|k: int| 0 <= k < crate::skd_report::skd_report(lines, errors, warnings, ok_count, detailed, file_name).2.len()
            ==> starts_with(#[trigger] crate::skd_report::skd_report(lines, errors, warnings, ok_count, detailed, file_name).2[k], "[ERROR] "@),
{
    let r = crate::skd_report::skd_report(lines, errors, warnings, ok_count, detailed, file_name);
    if !(errors == 0 && warnings == 0 && !detailed) {
        let all = lines + seq![
            Seq::empty(),
            "=== Result: "@ + nat_text(errors) + " errors, "@ + nat_text(warnings) + " warnings ("@ + nat_text(ok_count + errors + warnings)
                + " checks) ==="@,
        ];
        broadcast use vstd::seq_lib::group_filter_ensures;
        assert forall|k: int| 0 <= k < r.2.len() implies starts_with(#[trigger] r.2[k], "[ERROR] "@) by {
            assert(r.2 == all.filter(|l: Seq<char>| starts_with(l, "[ERROR] "@)));
        }
    }
}

/// Every placeholder a template names is non-empty and not a number.
pub proof fn law_placeholders_are_names(t: Seq<char>)
    ensures
        forall|k: int| 0 <= k < crate::mxl::template_placeholders(t).len() ==> (#[trigger] crate::mxl::template_placeholders(t)[k]).len() > 0
            && !crate::skd_values::all_digits(crate::mxl::template_placeholders(t)[k]),
    decreases t.len(),
{
    reveal_strlit("[");
    reveal_strlit("]");
    match first_match(t, "["@, 0, t.len() as int) {
        None => {},
        Some(s) => {
            crate::text::lemma_first_match_bounds(t, "["@, 0, t.len() as int);
            let after = t.subrange(s + 1, t.len() as int);
            match first_match(after, "]"@, 0, after.len() as int) {
                None => {},
                Some(e) => {
                    crate::text::lemma_first_match_bounds(after, "]"@, 0, after.len() as int);
                    let rest = after.subrange(e + 1, after.len() as int);
                    law_placeholders_are_names(rest);
                    let v = after.subrange(0, e);
                    let head: Seq<Seq<char>> = if v.len() > 0 && !crate::skd_values::all_digits(v) { seq![v] } else { Seq::empty() };
                    let all = crate::mxl::template_placeholders(t);
                    assert(all == head + crate::mxl::template_placeholders(rest));
                    assert forall|k: int| 0 <= k < all.len() implies (#[trigger] all[k]).len() > 0 && !crate::skd_values::all_digits(all[k]) by {
                        if k < head.len() {
                            assert(all[k] == v);
                        } else {
                            assert(all[k] == crate::mxl::template_placeholders(rest)[k - head.len()]);
                        }
                    }
                },
            }
        },
    }
}

/// A text of digits and `-` is its own trim and holds no comma.
proof fn lemma_digit_text(s: Seq<char>)
    requires
        s.len() > 0,
        forall|i: int| 0 <= i < s.len() ==> ('0' <= #[trigger] s[i] && s[i] <= '9') || s[i] == '-',
        '0' <= s[0] && s[0] <= '9',
        '0' <= s.last() && s.last() <= '9',
    ensures
        trim(s) == s,
        split(s, ","@) == seq![s],
{
    reveal_strlit(",");
    assert(!crate::text::is_ws(s[0]));
    assert(crate::text::skip_ws(s, 0, s.len() as int) == 0);
    assert(!crate::text::is_ws(s[s.len() - 1]));
    assert(crate::text::rskip_ws(s, 0, s.len() as int) == s.len());
    assert(s.subrange(0, s.len() as int) =~= s);
    assert forall|j: int| 0 <= j && j + 1 <= s.len() implies !matches_at(s, ","@, j) by {
        if matches_at(s, ","@, j) {
            assert(s.subrange(j, j + 1)[0] == ',');
            assert(s[j] == ',');
        }
    }
    lemma_first_match_none(s, ","@, 0, s.len() as int);
}

/// A column range `A-B` of non-negative columns lists the columns `A` to `B`,
/// and a single non-negative column `A` lists it alone.
pub proof fn law_column_range_lists_its_columns(a: i64, b: i64)
    requires
        a >= 0,
        b >= 0,
    ensures
        crate::mxl::column_spec(int_text(a as int) + "-"@ + int_text(b as int)) == Some(crate::mxl::int_range(a as int, b as int)),
        crate::mxl::column_spec(int_text(a as int)) == Some(seq![a as int]),
{
    reveal_strlit("-");
    let ta = int_text(a as int);
    let tb = int_text(b as int);
    lemma_nat_text_digits(a as nat);
    lemma_nat_text_digits(b as nat);
    law_parse_reads_back_text(a);
    law_parse_reads_back_text(b);
    let s = ta + "-"@ + tb;
    assert forall|i: int| 0 <= i < s.len() implies ('0' <= #[trigger] s[i] && s[i] <= '9') || s[i] == '-' by {
        if i < ta.len() {
            assert(s[i] == ta[i]);
        } else if i > ta.len() {
            assert(s[i] == tb[i - ta.len() - 1]);
        }
    }
    assert(s[0] == ta[0]);
    assert(s.last() == tb.last());
    lemma_digit_text(s);
    assert forall|j: int| 0 <= j && j + 1 <= ta.len() implies !matches_at(s, "-"@, j) by {
        if matches_at(s, "-"@, j) {
            assert(s.subrange(j, j + 1)[0] == '-');
            assert(s[j] == ta[j]);
        }
    }
    crate::text::lemma_first_match_none(s, "-"@, 0, ta.len() as int);
    assert(matches_at(s, "-"@, ta.len() as int)) by {
        assert(s.subrange(ta.len() as int, ta.len() as int + 1) =~= "-"@);
    }
    assert(first_match(s, "-"@, 0, s.len() as int) == Some(ta.len() as int)) by {
        lemma_first_match_prefix(s, "-"@, 0, ta.len() as int, s.len() as int);
    }
    assert(s.subrange(0, ta.len() as int) =~= ta);
    assert(s.subrange(ta.len() as int + 1, s.len() as int) =~= tb);
    assert(seq![s].drop_last() =~= Seq::<Seq<char>>::empty());
    assert(seq![s].last() == s);
    assert(split_once(s, "-"@) == Some((ta, tb)));
    assert(crate::mxl::column_part(s) == Some(crate::mxl::int_range(a as int, b as int)));
    assert(crate::mxl::column_parts(Seq::<Seq<char>>::empty()) == Some(Seq::<int>::empty()));
    assert(crate::mxl::column_parts(seq![s]) == Some(Seq::<int>::empty() + crate::mxl::int_range(a as int, b as int)));
    assert(Seq::<int>::empty() + crate::mxl::int_range(a as int, b as int) =~= crate::mxl::int_range(a as int, b as int));
    lemma_digit_text(ta);
    assert forall|j: int| 0 <= j && j + 1 <= ta.len() implies !matches_at(ta, "-"@, j) by {
        if matches_at(ta, "-"@, j) {
            assert(ta.subrange(j, j + 1)[0] == '-');
        }
    }
    crate::text::lemma_first_match_none(ta, "-"@, 0, ta.len() as int);
    assert(seq![ta].drop_last() =~= Seq::<Seq<char>>::empty());
    assert(seq![ta].last() == ta);
    assert(crate::mxl::column_part(ta) == Some(seq![a as int]));
    assert(Seq::<int>::empty() + seq![a as int] =~= seq![a as int]);
}

/// When nothing matches before `m` and the pattern matches at `m`, the first
/// match is at `m`.
proof fn lemma_first_match_prefix(t: Seq<char>, p: Seq<char>, from: int, m: int, to: int)
    requires
        0 <= from <= m,
        m + p.len() <= to,
        matches_at(t, p, m),
        forall|j: int| from <= j < m ==> !matches_at(t, p, j),
    ensures
        first_match(t, p, from, to) == Some(m),
    decreases m - from,
{
    if from < m {
        lemma_first_match_prefix(t, p, from + 1, m, to);
    }
}

proof fn lemma_free_suffix_exists(base: Seq<char>, taken: Seq<Seq<char>>, k: nat)
    requires
        k >= 2,
        forall|j: nat| 2 <= j < k ==> taken.contains(#[trigger] crate::mxl_decompile::suffixed(base, j)),
        k - 2 <= taken.len(),
    ensures
        exists|c: nat| crate::mxl_decompile::first_free_suffix(base, taken, c),
    decreases taken.len() + 2 - k,
{
    if !taken.contains(crate::mxl_decompile::suffixed(base, k)) {
        assert(crate::mxl_decompile::first_free_suffix(base, taken, k));
    } else {
        crate::mxl_decompile::lemma_taken_suffixes_bound(base, taken, k);
        lemma_free_suffix_exists(base, taken, k + 1);
    }
}

/// A name made unique is not among the names taken.
pub proof fn law_unique_name_is_new(base: Seq<char>, taken: Seq<Seq<char>>)
    ensures
        !taken.contains(crate::mxl_decompile::unique_name(base, taken)),
{
    if taken.contains(base) {
        lemma_free_suffix_exists(base, taken, 2);
    }
}

proof fn lemma_push_unique(names: Seq<Seq<char>>, x: Seq<char>)
    requires
        names.no_duplicates(),
        !names.contains(x),
    ensures
        names.push(x).no_duplicates(),
{
    assert forall|a: int, b: int| 0 <= a < b < names.push(x).len() implies names.push(x)[a] != names.push(x)[b] by {
        if b == names.len() {
            assert(names.push(x)[a] == names[a]);
        }
    }
}

/// The fonts of a template get distinct definition names, and every font is
/// given one of them (fonts equal to an earlier font share its name).
pub proof fn law_font_names_are_distinct(fonts: Seq<crate::mxl_decompile::MxlRawFont>, n: int)
    requires
        0 <= n <= fonts.len(),
    ensures
        crate::mxl_decompile::def_names(crate::mxl_decompile::named_fonts(fonts, n).1).no_duplicates(),
        forall|i: int| 0 <= i < crate::mxl_decompile::named_fonts(fonts, n).0.len() ==> crate::mxl_decompile::def_names(
            crate::mxl_decompile::named_fonts(fonts, n).1,
        ).contains(#[trigger] crate::mxl_decompile::named_fonts(fonts, n).0[i]),
        forall|k: Seq<char>| #[trigger] crate::mxl_decompile::named_fonts(fonts, n).2.contains_key(k) ==> crate::mxl_decompile::def_names(
            crate::mxl_decompile::named_fonts(fonts, n).1,
        ).contains(crate::mxl_decompile::named_fonts(fonts, n).2[k]),
    decreases n,
{
    let (names, defs, keys) = crate::mxl_decompile::named_fonts(fonts, n);
    let dn = crate::mxl_decompile::def_names(defs);
    if n <= 0 || fonts.len() == 0 {
    } else if n == 1 {
        assert(dn =~= seq!["default"@]);
        assert(dn[0] == "default"@);
    } else {
        law_font_names_are_distinct(fonts, n - 1);
        let (names0, defs0, keys0) = crate::mxl_decompile::named_fonts(fonts, n - 1);
        let dn0 = crate::mxl_decompile::def_names(defs0);
        let font = fonts[n - 1];
        let key = crate::mxl_decompile::font_key(font);
        if keys0.contains_key(key) {
            assert forall|i: int| 0 <= i < names.len() implies dn.contains(#[trigger] names[i]) by {
                if i < names0.len() {
                    assert(names[i] == names0[i]);
                }
            }
        } else {
            let name = crate::mxl_decompile::unique_name(crate::mxl_decompile::base_font_name(font, fonts[0]), dn0);
            law_unique_name_is_new(crate::mxl_decompile::base_font_name(font, fonts[0]), dn0);
            assert(dn =~= dn0.push(name));
            lemma_push_unique(dn0, name);
            assert forall|i: int| 0 <= i < names.len() implies dn.contains(#[trigger] names[i]) by {
                if i < names0.len() {
                    assert(names[i] == names0[i]);
                    let w = choose|w: int| 0 <= w < dn0.len() && dn0[w] == names0[i];
                    assert(dn[w] == dn0[w]);
                } else {
                    assert(dn[dn0.len() as int] == name);
                }
            }
            assert forall|k: Seq<char>| #[trigger] keys.contains_key(k) implies dn.contains(keys[k]) by {
                if k == key {
                    assert(dn[dn0.len() as int] == name);
                } else {
                    let w = choose|w: int| 0 <= w < dn0.len() && dn0[w] == keys0[k];
                    assert(dn[w] == dn0[w]);
                }
            }
        }
    }
}

/// The styles of a template get distinct definition names.
pub proof fn law_style_names_are_distinct(
    keys: Seq<(Seq<char>, crate::mxl_decompile::MxlRawFormat)>,
    raw_lines: Seq<i64>,
    font_names: Seq<Seq<char>>,
)
    ensures
        crate::mxl_decompile::def_names(crate::mxl_decompile::named_styles(keys, raw_lines, font_names).1).no_duplicates(),
    decreases keys.len(),
{
    if keys.len() > 0 {
        law_style_names_are_distinct(keys.drop_last(), raw_lines, font_names);
        let (names0, defs0) = crate::mxl_decompile::named_styles(keys.drop_last(), raw_lines, font_names);
        let dn0 = crate::mxl_decompile::def_names(defs0);
        let (k, f) = keys.last();
        let base = crate::mxl_decompile::style_name(f, raw_lines, font_names);
        let name = crate::mxl_decompile::unique_name(base, dn0);
        law_unique_name_is_new(base, dn0);
        lemma_push_unique(dn0, name);
        assert(crate::mxl_decompile::def_names(crate::mxl_decompile::named_styles(keys, raw_lines, font_names).1) =~= dn0.push(name));
    }
}

/// How many rows a written row stands for: a row `{"empty": n}` stands for
/// `n` empty rows, any other row for itself.
pub open spec fn rows_in(row: crate::mxl_decompile::JsonValue) -> int {
    match row {
        crate::mxl_decompile::JsonValue::Obj(f) => if f.len() == 1 && f[0].0 == "empty"@ && f[0].1 is Int {
            f[0].1->Int_0
        } else {
            1
        },
        _ => 1,
    }
}

/// How many rows the written rows stand for.
pub open spec fn rows_total(rows: Seq<crate::mxl_decompile::JsonValue>) -> int
    decreases rows.len(),
{
    if rows.len() == 0 {
        0
    } else {
        rows_total(rows.drop_last()) + rows_in(rows.last())
    }
}

proof fn lemma_rows_total_concat(a: Seq<crate::mxl_decompile::JsonValue>, b: Seq<crate::mxl_decompile::JsonValue>)
    ensures
        rows_total(a + b) == rows_total(a) + rows_total(b),
    decreases b.len(),
{
    if b.len() == 0 {
        assert(a + b =~= a);
    } else {
        lemma_rows_total_concat(a, b.drop_last());
        assert((a + b).drop_last() =~= a + b.drop_last());
        assert((a + b).last() == b.last());
    }
}

proof fn lemma_compressed_rows_total(rows: Seq<crate::mxl_decompile::JsonValue>, run: nat)
    requires
        forall|k: int| 0 <= k < rows.len() ==> rows_in(#[trigger] rows[k]) == 1,
    ensures
        rows_total(crate::mxl_decompile::compressed_rows(rows, run)) == run + rows.len(),
    decreases rows.len(),
{
    let e = crate::mxl_decompile::empty_run_rows(run);
    assert(rows_total(e) == run) by {
        reveal_strlit("empty");
        if run == 1 {
            assert(e.drop_last() =~= Seq::<crate::mxl_decompile::JsonValue>::empty());
            assert(e.last() == crate::mxl_decompile::JsonValue::Obj(Seq::empty()));
            assert(rows_in(e.last()) == 1);
            assert(rows_total(e.drop_last()) == 0);
        } else if run > 1 {
            assert(e.drop_last() =~= Seq::<crate::mxl_decompile::JsonValue>::empty());
            let f = seq![("empty"@, crate::mxl_decompile::JsonValue::Int(run as int))];
            assert(e.last() == crate::mxl_decompile::JsonValue::Obj(f));
            assert(f[0].0 == "empty"@);
            assert(rows_in(e.last()) == run);
            assert(rows_total(e.drop_last()) == 0);
        } else {
            assert(e =~= Seq::<crate::mxl_decompile::JsonValue>::empty());
        }
    }
    if rows.len() > 0 {
        let rest = rows.drop_first();
        assert forall|k: int| 0 <= k < rest.len() implies rows_in(#[trigger] rest[k]) == 1 by {
            assert(rest[k] == rows[k + 1]);
        }
        assert(rows_in(rows[0]) == 1);
        if crate::mxl_decompile::is_empty_object(rows[0]) {
            lemma_compressed_rows_total(rest, run + 1);
            assert(crate::mxl_decompile::compressed_rows(rows, run) == crate::mxl_decompile::compressed_rows(rest, run + 1));
        } else {
            lemma_compressed_rows_total(rest, 0);
            let head = seq![rows[0]];
            assert(head.drop_last() =~= Seq::<crate::mxl_decompile::JsonValue>::empty());
            assert(rows_total(head.drop_last()) == 0);
            assert(head.last() == rows[0]);
            assert(rows_total(head) == 1);
            lemma_rows_total_concat(e, head);
            lemma_rows_total_concat(e + head, crate::mxl_decompile::compressed_rows(rest, 0));
            assert(crate::mxl_decompile::compressed_rows(rows, run) == e + head + crate::mxl_decompile::compressed_rows(rest, 0));
        }
    } else {
        assert(crate::mxl_decompile::compressed_rows(rows, run) == e);
    }
}

/// Folding runs of empty rows keeps the number of rows an area stands for.
pub proof fn law_compressing_keeps_row_count(rows: Seq<crate::mxl_decompile::JsonValue>)
    requires
        forall|k: int| 0 <= k < rows.len() ==> rows_in(#[trigger] rows[k]) == 1,
    ensures
        rows_total(crate::mxl_decompile::compressed_rows(rows, 0)) == rows.len(),
{
    lemma_compressed_rows_total(rows, 0);
}

/// Registering a subsystem in its parent's text and registering it again: the
/// second time finds it registered and leaves the text as the first time left
/// it; a subsystem found registered leaves the text unchanged.
pub proof fn law_registration_is_idempotent(raw: Seq<char>, name: Seq<char>)
    ensures
        ({
            let (outcome, text) = crate::subsystem::registered_text(raw, name);
            &&& outcome is NotFound || outcome is Already ==> text == raw
            &&& outcome is Registered ==> crate::subsystem::registered_text(text, name) == (
                crate::subsystem::Registration::Already,
                text,
            )
        }),
{
    let tag = "<Subsystem>"@ + crate::text::escape_xml(name) + "</Subsystem>"@;
    let (outcome, text) = crate::subsystem::registered_text(raw, name);
    if outcome is Registered {
        if crate::text::contains(raw, "<ChildObjects/>"@) {
            let p = "<ChildObjects/>"@;
            let i = first_match(raw, p, 0, raw.len() as int)->0;
            crate::text::lemma_first_match_bounds(raw, p, 0, raw.len() as int);
            let head = "<ChildObjects>\n\t\t\t"@;
            let tail = "\n\t\t</ChildObjects>"@;
            assert(text =~= (raw.take(i) + head) + tag + (tail + raw.skip(i + p.len())));
            crate::text::lemma_contains_part(raw.take(i) + head, tag, tail + raw.skip(i + p.len()));
        } else {
            let p = "</ChildObjects>"@;
            let i = first_match(raw, p, 0, raw.len() as int)->0;
            crate::text::lemma_first_match_bounds(raw, p, 0, raw.len() as int);
            let head = "\t\t\t"@;
            let tail = "\n\t\t</ChildObjects>"@;
            assert(text =~= (raw.take(i) + head) + tag + (tail + raw.skip(i + p.len())));
            crate::text::lemma_contains_part(raw.take(i) + head, tag, tail + raw.skip(i + p.len()));
        }
    }
}

/// Registering a role in a configuration that has a role entry or an end of
/// `ChildObjects`, and registering it again: the second time finds it
/// registered and leaves the text as the first time left it.
pub proof fn law_role_registration_is_idempotent(raw: Seq<char>, name: Seq<char>)
    requires
        crate::role::last_pair_end(raw, "<Role>"@, "</Role>"@, 0) is Some || crate::text::contains(
            raw,
            "</ChildObjects>"@,
        ),
    ensures
        ({
            let (outcome, text) = crate::role_rights::role_registered_text(raw, name);
            &&& outcome is Already ==> text == raw
            &&& crate::role_rights::role_registered_text(text, name) == (
                crate::role_rights::RoleRegistration::Already,
                text,
            )
        }),
{
    let tag = "<Role>"@ + name + "</Role>"@;
    let (outcome, text) = crate::role_rights::role_registered_text(raw, name);
    if outcome is Added {
        match crate::role::last_pair_end(raw, "<Role>"@, "</Role>"@, 0) {
            Some(i) => {
                assert(text =~= (raw.take(i) + "\n\t\t\t"@) + tag + raw.skip(i));
                crate::text::lemma_contains_part(raw.take(i) + "\n\t\t\t"@, tag, raw.skip(i));
            },
            None => {
                let p = "</ChildObjects>"@;
                let r = "\t\t\t"@ + tag + "\n\t\t</ChildObjects>"@;
                reveal_strlit("</ChildObjects>");
                let i = first_match(raw, p, 0, raw.len() as int)->0;
                crate::text::lemma_first_match_bounds(raw, p, 0, raw.len() as int);
                let rest = crate::text::replace_from(raw, p, r, i + p.len());
                assert(text == raw.subrange(0, i) + r + rest);
                assert(text =~= (raw.subrange(0, i) + "\t\t\t"@) + tag + ("\n\t\t</ChildObjects>"@ + rest));
                crate::text::lemma_contains_part(raw.subrange(0, i) + "\t\t\t"@, tag, "\n\t\t</ChildObjects>"@ + rest);
            },
        }
    }
}


/// Whatever preset is asked for, with or without its `@`, every right that
/// `role_preset_rights` grants for an object kind is one the check of rights
/// files knows for that kind (an unknown preset grants none).
pub proof fn law_role_preset_rights_are_known(object_type: Seq<char>, preset_name: Seq<char>)
    ensures
        forall|j: int|
            crate::role::preset_rights(crate::role::strip_leading(preset_name, '@'), object_type) is Some
                && 0 <= j < crate::role::preset_rights(crate::role::strip_leading(preset_name, '@'), object_type).unwrap().len()
                ==> crate::role::known_rights(object_type).contains(
                #[trigger] crate::role::preset_rights(crate::role::strip_leading(preset_name, '@'), object_type).unwrap()[j],
            ),
{
    let p = crate::role::strip_leading(preset_name, '@');
    if crate::role::preset_rights(p, object_type) is Some {
        crate::role::law_presets_grant_known_rights(p, object_type);
    }
}


/// An empty list counts nothing.
proof fn lemma_empty_counts_nothing()
    ensures
        Seq::<Seq<char>>::empty().to_multiset() == vstd::multiset::Multiset::<Seq<char>>::empty(),
{
    broadcast use vstd::seq_lib::group_to_multiset_ensures;
    broadcast use vstd::multiset::lemma_multiset_empty_len;
    assert(Seq::<Seq<char>>::empty().to_multiset().len() == 0);
}

/// One element counted once.
proof fn lemma_single_counts_once(x: Seq<char>)
    ensures
        seq![x].to_multiset() == vstd::multiset::Multiset::<Seq<char>>::empty().insert(x),
{
    lemma_empty_counts_nothing();
    broadcast use vstd::seq_lib::group_to_multiset_ensures;
    assert(seq![x] =~= Seq::<Seq<char>>::empty().push(x));
}

/// A name's first position in a list is inside the list.
proof fn lemma_position_in_bounds(order: Seq<Seq<char>>, name: Seq<char>)
    ensures
        crate::skd_edit::position_in(order, name) matches Some(k) ==> 0 <= k < order.len(),
    decreases order.len(),
{
    if order.len() > 0 {
        lemma_position_in_bounds(order.drop_last(), name);
    }
}

pub open spec fn block_texts(blocks: Seq<(Seq<char>, int, int, Seq<char>)>) -> Seq<Seq<char>> {
    blocks.map_values(|b: (Seq<char>, int, int, Seq<char>)| b.3)
}

/// The blocks first listed at `k`, after one more block.
proof fn lemma_blocks_at_push(
    blocks: Seq<(Seq<char>, int, int, Seq<char>)>,
    b: (Seq<char>, int, int, Seq<char>),
    order: Seq<Seq<char>>,
    k: int,
)
    ensures
        crate::skd_edit::blocks_at(blocks.push(b), order, k) == crate::skd_edit::blocks_at(blocks, order, k) + if crate::skd_edit::position_in(
            order,
            b.0,
        ) == Some(k) {
            seq![b.3]
        } else {
            Seq::empty()
        },
{
    let pred = |x: (Seq<char>, int, int, Seq<char>)| crate::skd_edit::position_in(order, x.0) == Some(k);
    blocks.lemma_filter_push(b, pred);
    let f = |x: (Seq<char>, int, int, Seq<char>)| x.3;
    if pred(b) {
        assert(blocks.filter(pred).push(b).map_values(f) =~= blocks.filter(pred).map_values(f).push(b.3));
    }
    assert(crate::skd_edit::blocks_at(blocks.push(b), order, k) =~= crate::skd_edit::blocks_at(blocks, order, k) + if pred(b) {
        seq![b.3]
    } else {
        Seq::empty()
    });
}

/// The listed blocks up to `k`, after one more block.
proof fn lemma_listed_push(
    blocks: Seq<(Seq<char>, int, int, Seq<char>)>,
    b: (Seq<char>, int, int, Seq<char>),
    order: Seq<Seq<char>>,
    k: int,
)
    ensures
        crate::skd_edit::listed_blocks(blocks.push(b), order, k).to_multiset() == crate::skd_edit::listed_blocks(
            blocks,
            order,
            k,
        ).to_multiset().add(
            match crate::skd_edit::position_in(order, b.0) {
                Some(j) => if 0 <= j < k {
                    seq![b.3].to_multiset()
                } else {
                    Seq::<Seq<char>>::empty().to_multiset()
                },
                None => Seq::<Seq<char>>::empty().to_multiset(),
            },
        ),
    decreases k,
{
    broadcast use vstd::seq_lib::lemma_multiset_commutative;
    broadcast use vstd::multiset::group_multiset_axioms;
    if k <= 0 {
        lemma_empty_counts_nothing();
        assert(crate::skd_edit::listed_blocks(blocks, order, k) =~= Seq::<Seq<char>>::empty());
    } else {
        lemma_listed_push(blocks, b, order, k - 1);
        lemma_blocks_at_push(blocks, b, order, k - 1);
        lemma_empty_counts_nothing();
        lemma_single_counts_once(b.3);
        let e = Seq::<Seq<char>>::empty().to_multiset();
        let one = seq![b.3].to_multiset();
        let l0 = crate::skd_edit::listed_blocks(blocks, order, k - 1);
        let a0 = crate::skd_edit::blocks_at(blocks, order, k - 1);
        assert(crate::skd_edit::listed_blocks(blocks, order, k) == l0 + a0);
        assert(crate::skd_edit::listed_blocks(blocks.push(b), order, k) == crate::skd_edit::listed_blocks(blocks.push(b), order, k - 1)
            + crate::skd_edit::blocks_at(blocks.push(b), order, k - 1));
        assert(crate::skd_edit::listed_blocks(blocks.push(b), order, k).to_multiset() =~= crate::skd_edit::listed_blocks(
            blocks,
            order,
            k,
        ).to_multiset().add(
            match crate::skd_edit::position_in(order, b.0) {
                Some(j) => if 0 <= j < k {
                    one
                } else {
                    e
                },
                None => e,
            },
        ));
    }
}

/// Reordering parameters keeps each parameter block, as many times as it was
/// there: the blocks that `reorder_parameters` writes back (the listed ones in
/// the order of the list, then the others) are the blocks found, counted with
/// their repetitions.
pub proof fn law_reordered_parameters_are_a_permutation(
    blocks: Seq<(Seq<char>, int, int, Seq<char>)>,
    order: Seq<Seq<char>>,
)
    ensures
        (crate::skd_edit::listed_blocks(blocks, order, order.len() as int) + crate::skd_edit::unlisted_blocks(
            blocks,
            order,
        )).to_multiset() == block_texts(blocks).to_multiset(),
    decreases blocks.len(),
{
    broadcast use vstd::seq_lib::lemma_multiset_commutative;
    broadcast use vstd::seq_lib::to_multiset_build;
    broadcast use vstd::multiset::group_multiset_axioms;
    let n = order.len() as int;
    if blocks.len() == 0 {
        assert(blocks =~= Seq::<(Seq<char>, int, int, Seq<char>)>::empty());
        assert(crate::skd_edit::unlisted_blocks(blocks, order) =~= Seq::<Seq<char>>::empty());
        lemma_listed_empty(order, n);
        lemma_empty_counts_nothing();
        assert(block_texts(blocks) =~= Seq::<Seq<char>>::empty());
        assert((crate::skd_edit::listed_blocks(blocks, order, n) + crate::skd_edit::unlisted_blocks(blocks, order)) =~= Seq::<
            Seq<char>,
        >::empty());
    } else {
        let bp = blocks.drop_last();
        let b = blocks.last();
        assert(bp.push(b) =~= blocks);
        law_reordered_parameters_are_a_permutation(bp, order);
        lemma_listed_push(bp, b, order, n);
        lemma_position_in_bounds(order, b.0);
        let pred = |x: (Seq<char>, int, int, Seq<char>)| crate::skd_edit::position_in(order, x.0) is None;
        bp.lemma_filter_push(b, pred);
        let f = |x: (Seq<char>, int, int, Seq<char>)| x.3;
        if pred(b) {
            assert(bp.filter(pred).push(b).map_values(f) =~= bp.filter(pred).map_values(f).push(b.3));
        }
        assert(block_texts(blocks) =~= block_texts(bp).push(b.3));
        lemma_single_counts_once(b.3);
        lemma_empty_counts_nothing();
        if pred(b) {
            assert(crate::skd_edit::unlisted_blocks(blocks, order) =~= crate::skd_edit::unlisted_blocks(bp, order).push(b.3));
        } else {
            assert(crate::skd_edit::unlisted_blocks(blocks, order) =~= crate::skd_edit::unlisted_blocks(bp, order));
        }
        assert((crate::skd_edit::listed_blocks(blocks, order, n) + crate::skd_edit::unlisted_blocks(blocks, order)).to_multiset()
            =~= block_texts(blocks).to_multiset());
    }
}

proof fn lemma_listed_empty(order: Seq<Seq<char>>, k: int)
    ensures
        crate::skd_edit::listed_blocks(Seq::empty(), order, k) == Seq::<Seq<char>>::empty(),
    decreases k,
{
    if k > 0 {
        lemma_listed_empty(order, k - 1);
        let e = Seq::<(Seq<char>, int, int, Seq<char>)>::empty();
        assert(crate::skd_edit::blocks_at(e, order, k - 1) =~= Seq::<Seq<char>>::empty());
        assert(crate::skd_edit::listed_blocks(e, order, k) =~= Seq::<Seq<char>>::empty());
    }
}

/// Adding a content reference a second time changes neither the content nor
/// the count of added items: it only warns.
pub proof fn law_subsystem_add_content_twice(s: crate::subsystem_edit::ListStep, raw: Seq<char>)
    ensures
        ({
            let once = crate::subsystem_edit::add_content_step(s, raw);
            let twice = crate::subsystem_edit::add_content_step(once, raw);
            twice.0 == once.0 && twice.1 == once.1
        }),
{
    let item = crate::subsystem::normalized_content_ref(raw);
    let once = crate::subsystem_edit::add_content_step(s, raw);
    if !s.0.contains(item) {
        assert(once.0[once.0.len() - 1] == item);
    }
    assert(once.0.contains(item));
}

/// Adding a child subsystem a second time changes neither the list nor the
/// count of added items: it only warns.
pub proof fn law_subsystem_add_child_twice(s: crate::subsystem_edit::ListStep, child: Seq<char>)
    ensures
        ({
            let once = crate::subsystem_edit::add_child_step(s, child);
            let twice = crate::subsystem_edit::add_child_step(once, child);
            twice.0 == once.0 && twice.1 == once.1
        }),
{
    let once = crate::subsystem_edit::add_child_step(s, child);
    if !s.0.contains(child) {
        assert(once.0[once.0.len() - 1] == child);
    }
    assert(once.0.contains(child));
}

/// A child subsystem that was not in the list, added and then removed, leaves
/// the list as it was.
pub proof fn law_subsystem_add_then_remove_child(s: crate::subsystem_edit::ListStep, child: Seq<char>, done: Seq<char>, missing: Seq<char>)
    requires
        !s.0.contains(child),
    ensures
        crate::subsystem_edit::remove_step(crate::subsystem_edit::add_child_step(s, child), child, done, missing).0 == s.0,
{
    let l = s.0.push(child);
    assert forall|j: int| 0 <= j < s.0.len() implies l[j] != child by {
        assert(l[j] == s.0[j]);
    }
    crate::subsystem_edit::lemma_first_index(l, child, s.0.len() as int);
    assert(l.remove(s.0.len() as int) =~= s.0);
}

/// Operators that do not occur are passed over.
proof fn lemma_filter_skips_absent_from(value: Seq<char>, k: int, m: int)
    requires
        0 <= k <= m <= 16,
        forall|j: int| k <= j < m ==> !crate::text::contains(value, #[trigger] (" "@ + crate::skd_values::filter_op_raw()[j])),
    ensures
        crate::skd_values::filter_expression_from(value, k) == crate::skd_values::filter_expression_from(value, m),
    decreases m - k,
{
    if k < m {
        assert(!crate::text::contains(value, " "@ + crate::skd_values::filter_op_raw()[k]));
        lemma_filter_skips_absent_from(value, k + 1, m);
    }
}

/// A filter value `Field > value` in which no other operator occurs compares
/// with `Greater`, and `Field < value` with `Less`; the field is what stands
/// before the operator and the compared value what stands after it, trimmed.
pub proof fn law_filter_greater_and_less(value: Seq<char>)
    requires
        !crate::text::contains(value, " "@ + "notBeginsWith"@),
        !crate::text::contains(value, " "@ + "beginsWith"@),
        !crate::text::contains(value, " "@ + "inListByHierarchy"@),
        !crate::text::contains(value, " "@ + "inHierarchy"@),
        !crate::text::contains(value, " "@ + "notContains"@),
        !crate::text::contains(value, " "@ + "contains"@),
        !crate::text::contains(value, " "@ + "notFilled"@),
        !crate::text::contains(value, " "@ + "filled"@),
        !crate::text::contains(value, " "@ + "notIn"@),
        !crate::text::contains(value, " "@ + "in"@),
        !crate::text::contains(value, " "@ + "<>"@),
        !crate::text::contains(value, " "@ + ">="@),
        !crate::text::contains(value, " "@ + "<="@),
        !crate::text::contains(value, " "@ + "="@),
    ensures
        first_match(value, " "@ + ">"@, 0, value.len() as int) matches Some(p) ==> crate::skd_values::filter_expression(value) == (
            trim(value.subrange(0, p)),
            "Greater"@,
            trim(value.subrange(p + 2, value.len() as int)),
        ),
        ({
            let lt = first_match(value, " "@ + "<"@, 0, value.len() as int);
            first_match(value, " "@ + ">"@, 0, value.len() as int) is None && lt is Some
                ==> crate::skd_values::filter_expression(value) == (
                trim(value.subrange(0, lt->0)),
                "Less"@,
                trim(value.subrange(lt->0 + 2, value.len() as int)),
            )
        }),
{
    let ops = crate::skd_values::filter_op_raw();
    assert(ops[0] == "notBeginsWith"@);
    assert(ops[1] == "beginsWith"@);
    assert(ops[2] == "inListByHierarchy"@);
    assert(ops[3] == "inHierarchy"@);
    assert(ops[4] == "notContains"@);
    assert(ops[5] == "contains"@);
    assert(ops[6] == "notFilled"@);
    assert(ops[7] == "filled"@);
    assert(ops[8] == "notIn"@);
    assert(ops[9] == "in"@);
    assert(ops[10] == "<>"@);
    assert(ops[11] == ">="@);
    assert(ops[12] == "<="@);
    assert(ops[13] == "="@);
    assert(ops[14] == ">"@);
    assert(ops[15] == "<"@);
    assert forall|j: int| 0 <= j < 14 implies !crate::text::contains(value, #[trigger] (" "@ + ops[j])) by {
        if j == 0 {
        } else if j == 1 {
        } else if j == 2 {
        } else if j == 3 {
        } else if j == 4 {
        } else if j == 5 {
        } else if j == 6 {
        } else if j == 7 {
        } else if j == 8 {
        } else if j == 9 {
        } else if j == 10 {
        } else if j == 11 {
        } else if j == 12 {
        } else {
        }
    }
    lemma_filter_skips_absent_from(value, 0, 14);
    if first_match(value, " "@ + ">"@, 0, value.len() as int) is None {
        assert(crate::skd_values::filter_expression_from(value, 14) == crate::skd_values::filter_expression_from(value, 15));
    }
    reveal_strlit(" ");
    reveal_strlit(">");
    reveal_strlit("<");
    assert((" "@ + ">"@).len() == 2);
    assert((" "@ + "<"@).len() == 2);
}

/// With no word operator in a filter value, the comparison signs are read
/// longest first: `<>` is `NotEqual`, then `>=` is `GreaterOrEqual`, then `<=`
/// is `LessOrEqual`, then `=` is `Equal`.
pub proof fn law_filter_comparison_signs(value: Seq<char>)
    requires
        !crate::text::contains(value, " "@ + "notBeginsWith"@),
        !crate::text::contains(value, " "@ + "beginsWith"@),
        !crate::text::contains(value, " "@ + "inListByHierarchy"@),
        !crate::text::contains(value, " "@ + "inHierarchy"@),
        !crate::text::contains(value, " "@ + "notContains"@),
        !crate::text::contains(value, " "@ + "contains"@),
        !crate::text::contains(value, " "@ + "notFilled"@),
        !crate::text::contains(value, " "@ + "filled"@),
        !crate::text::contains(value, " "@ + "notIn"@),
        !crate::text::contains(value, " "@ + "in"@),
    ensures
        crate::text::contains(value, " "@ + "<>"@) ==> crate::skd_values::filter_expression(value).1 == "NotEqual"@,
        !crate::text::contains(value, " "@ + "<>"@) && crate::text::contains(value, " "@ + ">="@)
            ==> crate::skd_values::filter_expression(value).1 == "GreaterOrEqual"@,
        !crate::text::contains(value, " "@ + "<>"@) && !crate::text::contains(value, " "@ + ">="@)
            && crate::text::contains(value, " "@ + "<="@) ==> crate::skd_values::filter_expression(value).1 == "LessOrEqual"@,
        !crate::text::contains(value, " "@ + "<>"@) && !crate::text::contains(value, " "@ + ">="@)
            && !crate::text::contains(value, " "@ + "<="@) && crate::text::contains(value, " "@ + "="@)
            ==> crate::skd_values::filter_expression(value).1 == "Equal"@,
{
    let ops = crate::skd_values::filter_op_raw();
    assert(ops[0] == "notBeginsWith"@);
    assert(ops[1] == "beginsWith"@);
    assert(ops[2] == "inListByHierarchy"@);
    assert(ops[3] == "inHierarchy"@);
    assert(ops[4] == "notContains"@);
    assert(ops[5] == "contains"@);
    assert(ops[6] == "notFilled"@);
    assert(ops[7] == "filled"@);
    assert(ops[8] == "notIn"@);
    assert(ops[9] == "in"@);
    assert(ops[10] == "<>"@);
    assert(ops[11] == ">="@);
    assert(ops[12] == "<="@);
    assert(ops[13] == "="@);
    assert forall|j: int| 0 <= j < 10 implies !crate::text::contains(value, #[trigger] (" "@ + ops[j])) by {
        if j == 0 {
        } else if j == 1 {
        } else if j == 2 {
        } else if j == 3 {
        } else if j == 4 {
        } else if j == 5 {
        } else if j == 6 {
        } else if j == 7 {
        } else if j == 8 {
        } else {
        }
    }
    lemma_filter_skips_absent_from(value, 0, 10);
    if !crate::text::contains(value, " "@ + ops[10]) {
        assert(crate::skd_values::filter_expression_from(value, 10) == crate::skd_values::filter_expression_from(value, 11));
        if !crate::text::contains(value, " "@ + ops[11]) {
            assert(crate::skd_values::filter_expression_from(value, 11) == crate::skd_values::filter_expression_from(value, 12));
            if !crate::text::contains(value, " "@ + ops[12]) {
                assert(crate::skd_values::filter_expression_from(value, 12) == crate::skd_values::filter_expression_from(value, 13));
            }
        }
    }
}

/// The word operators of a filter value are tried in a fixed order, each
/// naming its comparison type: the first that occurs (after a space) decides.
pub proof fn law_filter_word_operators(value: Seq<char>)
    ensures
        crate::text::contains(value, " "@ + "notBeginsWith"@)
            ==> crate::skd_values::filter_expression(value).1 == "NotBeginsWith"@,
        !crate::text::contains(value, " "@ + "notBeginsWith"@) && crate::text::contains(value, " "@ + "beginsWith"@)
            ==> crate::skd_values::filter_expression(value).1 == "BeginsWith"@,
        !crate::text::contains(value, " "@ + "notBeginsWith"@) && !crate::text::contains(value, " "@ + "beginsWith"@) && crate::text::contains(value, " "@ + "inListByHierarchy"@)
            ==> crate::skd_values::filter_expression(value).1 == "InListByHierarchy"@,
        !crate::text::contains(value, " "@ + "notBeginsWith"@) && !crate::text::contains(value, " "@ + "beginsWith"@) && !crate::text::contains(value, " "@ + "inListByHierarchy"@) && crate::text::contains(value, " "@ + "inHierarchy"@)
            ==> crate::skd_values::filter_expression(value).1 == "InHierarchy"@,
        !crate::text::contains(value, " "@ + "notBeginsWith"@) && !crate::text::contains(value, " "@ + "beginsWith"@) && !crate::text::contains(value, " "@ + "inListByHierarchy"@) && !crate::text::contains(value, " "@ + "inHierarchy"@) && crate::text::contains(value, " "@ + "notContains"@)
            ==> crate::skd_values::filter_expression(value).1 == "NotContains"@,
        !crate::text::contains(value, " "@ + "notBeginsWith"@) && !crate::text::contains(value, " "@ + "beginsWith"@) && !crate::text::contains(value, " "@ + "inListByHierarchy"@) && !crate::text::contains(value, " "@ + "inHierarchy"@) && !crate::text::contains(value, " "@ + "notContains"@) && crate::text::contains(value, " "@ + "contains"@)
            ==> crate::skd_values::filter_expression(value).1 == "Contains"@,
        !crate::text::contains(value, " "@ + "notBeginsWith"@) && !crate::text::contains(value, " "@ + "beginsWith"@) && !crate::text::contains(value, " "@ + "inListByHierarchy"@) && !crate::text::contains(value, " "@ + "inHierarchy"@) && !crate::text::contains(value, " "@ + "notContains"@) && !crate::text::contains(value, " "@ + "contains"@) && crate::text::contains(value, " "@ + "notFilled"@)
            ==> crate::skd_values::filter_expression(value).1 == "NotFilled"@,
        !crate::text::contains(value, " "@ + "notBeginsWith"@) && !crate::text::contains(value, " "@ + "beginsWith"@) && !crate::text::contains(value, " "@ + "inListByHierarchy"@) && !crate::text::contains(value, " "@ + "inHierarchy"@) && !crate::text::contains(value, " "@ + "notContains"@) && !crate::text::contains(value, " "@ + "contains"@) && !crate::text::contains(value, " "@ + "notFilled"@) && crate::text::contains(value, " "@ + "filled"@)
            ==> crate::skd_values::filter_expression(value).1 == "Filled"@,
        !crate::text::contains(value, " "@ + "notBeginsWith"@) && !crate::text::contains(value, " "@ + "beginsWith"@) && !crate::text::contains(value, " "@ + "inListByHierarchy"@) && !crate::text::contains(value, " "@ + "inHierarchy"@) && !crate::text::contains(value, " "@ + "notContains"@) && !crate::text::contains(value, " "@ + "contains"@) && !crate::text::contains(value, " "@ + "notFilled"@) && !crate::text::contains(value, " "@ + "filled"@) && crate::text::contains(value, " "@ + "notIn"@)
            ==> crate::skd_values::filter_expression(value).1 == "NotInList"@,
        !crate::text::contains(value, " "@ + "notBeginsWith"@) && !crate::text::contains(value, " "@ + "beginsWith"@) && !crate::text::contains(value, " "@ + "inListByHierarchy"@) && !crate::text::contains(value, " "@ + "inHierarchy"@) && !crate::text::contains(value, " "@ + "notContains"@) && !crate::text::contains(value, " "@ + "contains"@) && !crate::text::contains(value, " "@ + "notFilled"@) && !crate::text::contains(value, " "@ + "filled"@) && !crate::text::contains(value, " "@ + "notIn"@) && crate::text::contains(value, " "@ + "in"@)
            ==> crate::skd_values::filter_expression(value).1 == "InList"@,
{
    let ops = crate::skd_values::filter_op_raw();
    assert(ops[0] == "notBeginsWith"@);
    assert(ops[1] == "beginsWith"@);
    assert(ops[2] == "inListByHierarchy"@);
    assert(ops[3] == "inHierarchy"@);
    assert(ops[4] == "notContains"@);
    assert(ops[5] == "contains"@);
    assert(ops[6] == "notFilled"@);
    assert(ops[7] == "filled"@);
    assert(ops[8] == "notIn"@);
    assert(ops[9] == "in"@);
    if forall|j: int| 0 <= j < 0 ==> !crate::text::contains(value, #[trigger] (" "@ + ops[j])) {
        lemma_filter_skips_absent_from(value, 0, 0);
    }
    if forall|j: int| 0 <= j < 1 ==> !crate::text::contains(value, #[trigger] (" "@ + ops[j])) {
        lemma_filter_skips_absent_from(value, 0, 1);
    }
    if forall|j: int| 0 <= j < 2 ==> !crate::text::contains(value, #[trigger] (" "@ + ops[j])) {
        lemma_filter_skips_absent_from(value, 0, 2);
    }
    if forall|j: int| 0 <= j < 3 ==> !crate::text::contains(value, #[trigger] (" "@ + ops[j])) {
        lemma_filter_skips_absent_from(value, 0, 3);
    }
    if forall|j: int| 0 <= j < 4 ==> !crate::text::contains(value, #[trigger] (" "@ + ops[j])) {
        lemma_filter_skips_absent_from(value, 0, 4);
    }
    if forall|j: int| 0 <= j < 5 ==> !crate::text::contains(value, #[trigger] (" "@ + ops[j])) {
        lemma_filter_skips_absent_from(value, 0, 5);
    }
    if forall|j: int| 0 <= j < 6 ==> !crate::text::contains(value, #[trigger] (" "@ + ops[j])) {
        lemma_filter_skips_absent_from(value, 0, 6);
    }
    if forall|j: int| 0 <= j < 7 ==> !crate::text::contains(value, #[trigger] (" "@ + ops[j])) {
        lemma_filter_skips_absent_from(value, 0, 7);
    }
    if forall|j: int| 0 <= j < 8 ==> !crate::text::contains(value, #[trigger] (" "@ + ops[j])) {
        lemma_filter_skips_absent_from(value, 0, 8);
    }
    if forall|j: int| 0 <= j < 9 ==> !crate::text::contains(value, #[trigger] (" "@ + ops[j])) {
        lemma_filter_skips_absent_from(value, 0, 9);
    }
}

/// A style whose `align` is `left`, `center` or `right` gives the cells that
/// use it the horizontal alignment `Left`, `Center` or `Right`; a `valign` of
/// `top` or `center` gives `Top` or `Center`.
pub proof fn law_mxl_style_alignment(d: crate::mxl_compile::MxlDefinition, style: Seq<char>, fill: Seq<char>)
    requires
        style.len() > 0,
    ensures
        crate::mxl_compile::style_named(d, style) is Some && crate::mxl_compile::style_named(d, style)->0.align is Some
            && crate::mxl_compile::style_named(d, style)->0.align->0@ == "left"@
            ==> crate::mxl_compile::resolve_style(d, style, fill).ha == "Left"@,
        crate::mxl_compile::style_named(d, style) is Some && crate::mxl_compile::style_named(d, style)->0.align is Some
            && crate::mxl_compile::style_named(d, style)->0.align->0@ == "center"@
            ==> crate::mxl_compile::resolve_style(d, style, fill).ha == "Center"@,
        crate::mxl_compile::style_named(d, style) is Some && crate::mxl_compile::style_named(d, style)->0.align is Some
            && crate::mxl_compile::style_named(d, style)->0.align->0@ == "right"@
            ==> crate::mxl_compile::resolve_style(d, style, fill).ha == "Right"@,
        crate::mxl_compile::style_named(d, style) is Some && crate::mxl_compile::style_named(d, style)->0.align is None
            ==> crate::mxl_compile::resolve_style(d, style, fill).ha == Seq::<char>::empty(),
        crate::mxl_compile::style_named(d, style) is Some && crate::mxl_compile::style_named(d, style)->0.valign is Some
            && crate::mxl_compile::style_named(d, style)->0.valign->0@ == "top"@
            ==> crate::mxl_compile::resolve_style(d, style, fill).va == "Top"@,
        crate::mxl_compile::style_named(d, style) is Some && crate::mxl_compile::style_named(d, style)->0.valign is Some
            && crate::mxl_compile::style_named(d, style)->0.valign->0@ == "center"@
            ==> crate::mxl_compile::resolve_style(d, style, fill).va == "Center"@,
{
    reveal_strlit("top");
    reveal_strlit("left");
    reveal_strlit("center");
    reveal_strlit("right");
    assert("left"@[0] == 'l' && "center"@[0] == 'c' && "right"@[0] == 'r' && "top"@[0] == 't');
}

/// Each Russian right name becomes its English platform name; any other name
/// is kept as written.
pub proof fn law_role_right_names_translate(name: Seq<char>)
    ensures
        ({
            let r = crate::role::lookup_from(name, crate::role::right_names_ru(), crate::role::right_names_en(), 0);
            &&& name == "Чтение"@ ==> r == "Read"@
            &&& name == "Добавление"@ ==> r == "Insert"@
            &&& name == "Изменение"@ ==> r == "Update"@
            &&& name == "Удаление"@ ==> r == "Delete"@
            &&& name == "Просмотр"@ ==> r == "View"@
            &&& name == "Редактирование"@ ==> r == "Edit"@
            &&& name == "ВводПоСтроке"@ ==> r == "InputByString"@
            &&& name == "Проведение"@ ==> r == "Posting"@
            &&& name == "ОтменаПроведения"@ ==> r == "UndoPosting"@
            &&& name == "Использование"@ ==> r == "Use"@
            &&& (name != "Чтение"@ && name != "Добавление"@ && name != "Изменение"@ && name != "Удаление"@
                && name != "Просмотр"@ && name != "Редактирование"@ && name != "ВводПоСтроке"@
                && name != "Проведение"@ && name != "ОтменаПроведения"@ && name != "Использование"@) ==> r == name
        }),
{
    reveal_strlit("Чтение");
    reveal_strlit("Добавление");
    reveal_strlit("Изменение");
    reveal_strlit("Удаление");
    reveal_strlit("Просмотр");
    reveal_strlit("Редактирование");
    reveal_strlit("ВводПоСтроке");
    reveal_strlit("Проведение");
    reveal_strlit("ОтменаПроведения");
    reveal_strlit("Использование");
    assert("Чтение"@.len() == 6 && "Чтение"@[0] == 'Ч');
    assert("Добавление"@.len() == 10 && "Добавление"@[0] == 'Д');
    assert("Изменение"@.len() == 9 && "Изменение"@[0] == 'И');
    assert("Удаление"@.len() == 8 && "Удаление"@[0] == 'У');
    assert("Просмотр"@.len() == 8 && "Просмотр"@[0] == 'П');
    assert("Редактирование"@.len() == 14 && "Редактирование"@[0] == 'Р');
    assert("ВводПоСтроке"@.len() == 12 && "ВводПоСтроке"@[0] == 'В');
    assert("Проведение"@.len() == 10 && "Проведение"@[0] == 'П');
    assert("ОтменаПроведения"@.len() == 16 && "ОтменаПроведения"@[0] == 'О');
    assert("Использование"@.len() == 13 && "Использование"@[0] == 'И');
    reveal_with_fuel(crate::role::lookup_from, 11);
}

/// A named cells area whose `endRow` is set (not -1) and not below the
/// template's height is reported, whatever its `beginRow` is.
pub proof fn law_mxl_area_end_row_checked(named: crate::xml::XmlNode, height: int, sets: Seq<(Seq<char>, int)>)
    requires
        crate::xml::attribute_by_local_name(named, "type"@) matches Some(t) && crate::text::contains(t, "NamedItemCells"@),
        crate::xml::child_named(named, "area"@, crate::mxl_check::ns_d()) matches Some(area)
            && crate::mxl_check::int_or(area, "endRow"@, 0) != -1 && crate::mxl_check::int_or(area, "endRow"@, 0) >= height,
    ensures
        crate::mxl_check::named_findings(named, height, sets).contains(
            crate::findings::Finding::Failure(
                "Area '"@ + crate::xml::child_text(named, "name"@, crate::mxl_check::ns_d()) + "': endRow="@
                    + int_text(crate::mxl_check::int_or(crate::xml::child_named(named, "area"@, crate::mxl_check::ns_d())->0, "endRow"@, 0))
                    + " >= height="@ + int_text(height),
            ),
        ),
{
    let area = crate::xml::child_named(named, "area"@, crate::mxl_check::ns_d())->0;
    let name = crate::xml::child_text(named, "name"@, crate::mxl_check::ns_d());
    let b = crate::mxl_check::int_or(area, "beginRow"@, 0);
    let e = crate::mxl_check::int_or(area, "endRow"@, 0);
    let f = crate::findings::Finding::Failure("Area '"@ + name + "': endRow="@ + int_text(e) + " >= height="@ + int_text(height));
    let first: Seq<crate::findings::Finding> = if b != -1 && b >= height {
        seq![crate::findings::Finding::Failure("Area '"@ + name + "': beginRow="@ + int_text(b) + " >= height="@ + int_text(height))]
    } else {
        Seq::empty()
    };
    let r = crate::mxl_check::named_findings(named, height, sets);
    assert(r[first.len() as int] == f);
}

/// A named cells area whose `beginRow` is set (not -1) and not below the
/// template's height is reported, whatever its `endRow` is.
pub proof fn law_mxl_area_begin_row_checked(named: crate::xml::XmlNode, height: int, sets: Seq<(Seq<char>, int)>)
    requires
        crate::xml::attribute_by_local_name(named, "type"@) matches Some(t) && crate::text::contains(t, "NamedItemCells"@),
        crate::xml::child_named(named, "area"@, crate::mxl_check::ns_d()) matches Some(area)
            && crate::mxl_check::int_or(area, "beginRow"@, 0) != -1 && crate::mxl_check::int_or(area, "beginRow"@, 0) >= height,
    ensures
        crate::mxl_check::named_findings(named, height, sets).contains(
            crate::findings::Finding::Failure(
                "Area '"@ + crate::xml::child_text(named, "name"@, crate::mxl_check::ns_d()) + "': beginRow="@
                    + int_text(crate::mxl_check::int_or(crate::xml::child_named(named, "area"@, crate::mxl_check::ns_d())->0, "beginRow"@, 0))
                    + " >= height="@ + int_text(height),
            ),
        ),
{
    let area = crate::xml::child_named(named, "area"@, crate::mxl_check::ns_d())->0;
    let name = crate::xml::child_text(named, "name"@, crate::mxl_check::ns_d());
    let b = crate::mxl_check::int_or(area, "beginRow"@, 0);
    let f = crate::findings::Finding::Failure("Area '"@ + name + "': beginRow="@ + int_text(b) + " >= height="@ + int_text(height));
    let r = crate::mxl_check::named_findings(named, height, sets);
    assert(r[0] == f);
}

/// Each of the three flag properties whose value is present and neither
/// `true` nor `false` gets a check-5 failure that names it and its value.
pub proof fn law_subsystem_flags_checked(props: crate::xml::XmlNode, prop: Seq<char>)
    requires
        prop == "IncludeHelpInContents"@ || prop == "IncludeInCommandInterface"@ || prop == "UseOneCommand"@,
        crate::subsystem::property_value(props, prop) matches Some(v) && v != "true"@ && v != "false"@,
    ensures
        crate::subsystem::flags_findings(props).contains(
            crate::findings::Finding::Failure(
                "5. Boolean property "@ + prop + " = \""@ + crate::subsystem::property_value(props, prop)->0
                    + "\" (expected true/false)"@,
            ),
        ),        !crate::subsystem::flags_findings(props).contains(crate::findings::Finding::Passed("5. Boolean properties: valid"@)),
{
    reveal(crate::subsystem::flags_findings);
    let f1 = crate::subsystem::flag_findings(props, "IncludeHelpInContents"@);
    let f2 = crate::subsystem::flag_findings(props, "IncludeInCommandInterface"@);
    let f3 = crate::subsystem::flag_findings(props, "UseOneCommand"@);
    let bad = f1 + f2 + f3;
    let v = crate::subsystem::property_value(props, prop)->0;
    let f = crate::findings::Finding::Failure("5. Boolean property "@ + prop + " = \""@ + v + "\" (expected true/false)"@);
    if prop == "IncludeHelpInContents"@ {
        assert(bad[0] == f);
    } else if prop == "IncludeInCommandInterface"@ {
        assert(bad[f1.len() as int] == f);
    } else {
        assert(bad[(f1.len() + f2.len()) as int] == f);
    }
}

/// When each of the three flag properties is missing, `true` or `false`,
/// check 5 passes with nothing else to say.
pub proof fn law_subsystem_valid_flags_pass(props: crate::xml::XmlNode)
    requires
        forall|p: Seq<char>|
            (p == "IncludeHelpInContents"@ || p == "IncludeInCommandInterface"@ || p == "UseOneCommand"@)
                ==> (#[trigger] crate::subsystem::property_value(props, p) matches Some(v) ==> v == "true"@ || v == "false"@),
    ensures
        crate::subsystem::flags_findings(props) == seq![crate::findings::Finding::Passed("5. Boolean properties: valid"@)],
{
    reveal(crate::subsystem::flags_findings);
    assert(crate::subsystem::property_value(props, "IncludeHelpInContents"@) == crate::subsystem::property_value(props, "IncludeHelpInContents"@));
    assert(crate::subsystem::property_value(props, "IncludeInCommandInterface"@) == crate::subsystem::property_value(props, "IncludeInCommandInterface"@));
    assert(crate::subsystem::property_value(props, "UseOneCommand"@) == crate::subsystem::property_value(props, "UseOneCommand"@));
}

} // verus!
