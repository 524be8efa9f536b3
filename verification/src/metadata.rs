//! Shapes of the values that metadata files hold: UUIDs, names, and lists
//! without repeats.
use vstd::prelude::*;
use crate::text::to_vec;

verus! {

/// A hexadecimal digit in either case.
pub open spec fn is_hex(c: char) -> bool {
    ('0' <= c && c <= '9') || ('a' <= c && c <= 'f') || ('A' <= c && c <= 'F')
}

/// A UUID in its text form: 36 chars, hyphens at positions 8, 13, 18 and 23,
/// hexadecimal digits elsewhere.
pub open spec fn is_uuid(t: Seq<char>) -> bool {
    t.len() == 36 && forall|i: int|
        0 <= i < 36 ==> if i == 8 || i == 13 || i == 18 || i == 23 {
            #[trigger] t[i] == '-'
        } else {
            is_hex(t[i])
        }
}

/// Whether a text is a UUID in its text form.
pub fn is_valid_uuid(t: &[char]) -> (b: bool)
    ensures
        b == is_uuid(t@),
{
    if t.len() != 36 {
        return false;
    }
    let mut i: usize = 0;
    while i < 36
        invariant
            t@.len() == 36,
            i <= 36,
            forall|k: int|
                0 <= k < i ==> if k == 8 || k == 13 || k == 18 || k == 23 {
                    #[trigger] t@[k] == '-'
                } else {
                    is_hex(t@[k])
                },
        decreases 36 - i,
    {
        let c = t[i];
        let ok = if i == 8 || i == 13 || i == 18 || i == 23 {
            c == '-'
        } else {
            ('0' <= c && c <= '9') || ('a' <= c && c <= 'f') || ('A' <= c && c <= 'F')
        };
        if !ok {
            return false;
        }
        i = i + 1;
    }
    true
}

/// A letter of the Latin or Russian alphabet, or `_`.
pub open spec fn is_name_start(c: char) -> bool {
    ('A' <= c && c <= 'Z') || ('a' <= c && c <= 'z') || ('А' <= c && c <= 'я') || c == 'Ё' || c == 'ё'
        || c == '_'
}

/// A char that may follow the first one in a name.
pub open spec fn is_name_char(c: char) -> bool {
    is_name_start(c) || ('0' <= c && c <= '9')
}

/// A name of the platform: a letter or `_`, then letters, digits and `_`.
pub open spec fn is_1c_name(t: Seq<char>) -> bool {
    t.len() > 0 && is_name_start(t[0]) && forall|i: int| 1 <= i < t.len() ==> is_name_char(#[trigger] t[i])
}

/// Whether a text is a name of the platform.
pub fn is_1c_identifier(t: &[char]) -> (b: bool)
    ensures
        b == is_1c_name(t@),
{
    if t.len() == 0 {
        return false;
    }
    let c = t[0];
    if !(('A' <= c && c <= 'Z') || ('a' <= c && c <= 'z') || ('А' <= c && c <= 'я') || c == 'Ё' || c
        == 'ё' || c == '_') {
        return false;
    }
    let mut i: usize = 1;
    while i < t.len()
        invariant
            1 <= i <= t@.len(),
            forall|k: int| 1 <= k < i ==> is_name_char(#[trigger] t@[k]),
        decreases t.len() - i,
    {
        let c = t[i];
        if !(('A' <= c && c <= 'Z') || ('a' <= c && c <= 'z') || ('А' <= c && c <= 'я') || c == 'Ё'
            || c == 'ё' || c == '_' || ('0' <= c && c <= '9')) {
            return false;
        }
        i = i + 1;
    }
    true
}

/// The items that occur more than once, each once, in the order in which they
/// occur for the second time.
pub open spec fn duplicates_upto(items: Seq<Seq<char>>, n: int) -> Seq<Seq<char>>
    decreases n,
{
    if n <= 0 || n > items.len() {
        Seq::empty()
    } else {
        let before = duplicates_upto(items, n - 1);
        let x = items[n - 1];
        if items.take(n - 1).contains(x) && !before.contains(x) {
            before.push(x)
        } else {
            before
        }
    }
}

pub open spec fn duplicates(items: Seq<Seq<char>>) -> Seq<Seq<char>> {
    duplicates_upto(items, items.len() as int)
}

fn contains_text(items: &Vec<Vec<char>>, n: usize, x: &[char]) -> (b: bool)
    requires
        n <= items@.len(),
    ensures
        b == crate::text::views(items@).take(n as int).contains(x@),
{
    let ghost v = crate::text::views(items@).take(n as int);
    let mut i: usize = 0;
    while i < n
        invariant
            i <= n <= items@.len(),
            v == crate::text::views(items@).take(n as int),
            forall|k: int| 0 <= k < i ==> v[k] != x@,
        decreases n - i,
    {
        if crate::text::eq_chars(&items[i], x) {
            assert(v[i as int] == x@);
            return true;
        }
        i = i + 1;
    }
    false
}

/// The items of a list that occur more than once, in the order of their second
/// occurrence.
pub fn duplicates_preserve_order(items: &Vec<Vec<char>>) -> (r: Vec<Vec<char>>)
    ensures
        crate::text::views(r@) == duplicates(crate::text::views(items@)),
{
    let ghost all = crate::text::views(items@);
    let mut r: Vec<Vec<char>> = Vec::new();
    let mut i: usize = 0;
    while i < items.len()
        invariant
            i <= items@.len(),
            all == crate::text::views(items@),
            crate::text::views(r@) == duplicates_upto(all, i as int),
        decreases items.len() - i,
    {
        let x = &items[i];
        assert(all.take(i as int) == crate::text::views(items@).take(i as int));
        let seen = contains_text(items, i, x);
        let already = contains_text(&r, r.len(), x);
        assert(crate::text::views(r@).take(r@.len() as int) =~= crate::text::views(r@));
        if seen && !already {
            let ghost before = r@;
            r.push(to_vec(x));
            assert(crate::text::views(r@) =~= crate::text::views(before).push(x@));
        }
        i = i + 1;
    }
    r
}

/// End of the tag that opens at `m`: its first `>`, or the end of the text.
pub open spec fn tag_end(t: Seq<char>, m: int) -> int {
    match crate::text::first_match(t, ">"@, m, t.len() as int) {
        Some(g) => g,
        None => t.len() as int,
    }
}

/// The format version a configuration file declares: the value of the
/// `version` attribute inside its first `<MetaDataObject` tag, up to the next
/// `"`; none where the tag or the attribute is missing.
pub open spec fn format_version(t: Seq<char>) -> Option<Seq<char>> {
    let key = "version=\""@;
    match crate::text::first_match(t, "<MetaDataObject"@, 0, t.len() as int) {
        Some(m) => match crate::text::first_match(t, key, m, tag_end(t, m)) {
            Some(s) => match crate::text::first_match(t, "\""@, s + key.len(), t.len() as int) {
                Some(e) => Some(t.subrange(s + key.len(), e)),
                None => None,
            },
            None => None,
        },
        None => None,
    }
}

/// Reads the format version out of a configuration file's text.
pub fn format_version_of(t: &[char]) -> (r: Option<Vec<char>>)
    ensures
        match format_version(t@) {
            Some(v) => r matches Some(x) && x@ == v,
            None => r is None,
        },
{
    let key = crate::text::chars_of("version=\"");
    let quote = crate::text::chars_of("\"");
    let Some(m) = crate::text::find_str(t, "<MetaDataObject", 0, t.len()) else {
        return None;
    };
    proof {
        crate::text::lemma_first_match_bounds(t@, "<MetaDataObject"@, 0, t.len() as int);
    }
    let end = match crate::text::find_str(t, ">", m, t.len()) {
        Some(g) => g,
        None => t.len(),
    };
    proof {
        crate::text::lemma_first_match_bounds(t@, ">"@, m as int, t.len() as int);
    }
    let Some(s) = crate::text::find_in(t, &key, m, end) else {
        return None;
    };
    proof {
        crate::text::lemma_first_match_bounds(t@, key@, m as int, end as int);
    }
    let from = s + key.len();
    match crate::text::find_in(t, &quote, from, t.len()) {
        Some(e) => {
            proof {
                crate::text::lemma_first_match_bounds(t@, quote@, from as int, t.len() as int);
            }
            Some(crate::text::slice_to_vec(t, from, e))
        },
        None => None,
    }
}

} // verus!
