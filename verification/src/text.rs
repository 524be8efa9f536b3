//! Character-sequence model of text and the verified search primitives the
//! editors are built from. Text is held as `Vec<char>`; its view is the
//! `Seq<char>` that `str` has in vstd, so positions are character indices.
use vstd::prelude::*;

verus! {

broadcast use vstd::string::group_string_axioms;

/// `p` occurs in `t` starting at index `i`.
pub open spec fn matches_at(t: Seq<char>, p: Seq<char>, i: int) -> bool {
    0 <= i && i + p.len() <= t.len() && t.subrange(i, i + p.len()) == p
}

/// First index `i` with `from <= i` and `i + p.len() <= to` where `p` occurs.
pub open spec fn first_match(t: Seq<char>, p: Seq<char>, from: int, to: int) -> Option<int>
    decreases to - from + 1,
{
    if from < 0 || from + p.len() > to {
        None
    } else if matches_at(t, p, from) {
        Some(from)
    } else {
        first_match(t, p, from + 1, to)
    }
}

/// Last index `i` with `from <= i` and `i + p.len() <= to` where `p` occurs.
pub open spec fn last_match(t: Seq<char>, p: Seq<char>, from: int, to: int) -> Option<int>
    decreases to - from + 1,
{
    if from < 0 || from + p.len() > to {
        None
    } else if matches_at(t, p, to - p.len()) {
        Some(to - p.len())
    } else {
        last_match(t, p, from, to - 1)
    }
}

/// `p` occurs somewhere in `t`.
pub open spec fn contains(t: Seq<char>, p: Seq<char>) -> bool {
    first_match(t, p, 0, t.len() as int) is Some
}

pub open spec fn starts_with(t: Seq<char>, p: Seq<char>) -> bool {
    matches_at(t, p, 0)
}

pub open spec fn ends_with(t: Seq<char>, p: Seq<char>) -> bool {
    matches_at(t, p, t.len() - p.len())
}

pub open spec fn opt_int(r: Option<usize>) -> Option<int> {
    match r {
        Some(i) => Some(i as int),
        None => None,
    }
}

pub proof fn lemma_first_match_bounds(t: Seq<char>, p: Seq<char>, from: int, to: int)
    ensures
        first_match(t, p, from, to) matches Some(i) ==> from <= i && i + p.len() <= to
            && matches_at(t, p, i),
        first_match(t, p, from, to) matches Some(i) ==> forall|j: int|
            from <= j < i ==> !matches_at(t, p, j),
    decreases to - from + 1,
{
    if from < 0 || from + p.len() > to {
    } else if matches_at(t, p, from) {
    } else {
        lemma_first_match_bounds(t, p, from + 1, to);
    }
}

pub proof fn lemma_last_match_bounds(t: Seq<char>, p: Seq<char>, from: int, to: int)
    ensures
        last_match(t, p, from, to) matches Some(i) ==> from <= i && i + p.len() <= to
            && matches_at(t, p, i),
    decreases to - from + 1,
{
    if from < 0 || from + p.len() > to {
    } else if matches_at(t, p, to - p.len()) {
    } else {
        lemma_last_match_bounds(t, p, from, to - 1);
    }
}

/// When no occurrence starts in `[from, to - p.len()]`, there is none.
pub proof fn lemma_first_match_none(t: Seq<char>, p: Seq<char>, from: int, to: int)
    requires
        forall|j: int| from <= j && j + p.len() <= to ==> !matches_at(t, p, j),
    ensures
        first_match(t, p, from, to) is None,
    decreases to - from + 1,
{
    if from < 0 || from + p.len() > to {
    } else {
        lemma_first_match_none(t, p, from + 1, to);
    }
}

/// Collects the characters of a string slice.
pub fn chars_of(s: &str) -> (res: Vec<char>)
    ensures
        res@ == s@,
{
    let mut res: Vec<char> = Vec::new();
    for c in it: s.chars()
        invariant
            res@ == it.seq().take(it.index() as int),
            it.seq() == s@,
    {
        res.push(c);
    }
    res
}

/// Appends the characters of `s` to `v`.
pub fn push_str(v: &mut Vec<char>, s: &str)
    ensures
        final(v)@ == old(v)@ + s@,
{
    let ghost start = v@;
    for c in it: s.chars()
        invariant
            v@ == start + it.seq().take(it.index() as int),
            it.seq() == s@,
    {
        v.push(c);
    }
}

/// Appends the characters of `s` to `v`.
pub fn push_chars(v: &mut Vec<char>, s: &[char])
    ensures
        final(v)@ == old(v)@ + s@,
{
    let ghost start = v@;
    let mut i: usize = 0;
    while i < s.len()
        invariant
            i <= s.len(),
            v@ == start + s@.take(i as int),
        decreases s.len() - i,
    {
        v.push(s[i]);
        i = i + 1;
        assert(s@.take(i as int) == s@.take(i - 1) + seq![s@[i - 1]]);
    }
    assert(s@.take(s.len() as int) == s@);
}

/// A copy of `s[from..to]`.
pub fn slice_to_vec(s: &[char], from: usize, to: usize) -> (res: Vec<char>)
    requires
        from <= to <= s.len(),
    ensures
        res@ == s@.subrange(from as int, to as int),
{
    let mut res: Vec<char> = Vec::new();
    let mut i: usize = from;
    while i < to
        invariant
            from <= i <= to <= s.len(),
            res@ == s@.subrange(from as int, i as int),
        decreases to - i,
    {
        res.push(s[i]);
        i = i + 1;
        assert(s@.subrange(from as int, i as int) == s@.subrange(from as int, i - 1) + seq![
            s@[i - 1],
        ]);
    }
    res
}

/// Whether `p` occurs in `t` at index `i`.
pub fn matches_at_exec(t: &[char], p: &[char], i: usize) -> (b: bool)
    ensures
        b == matches_at(t@, p@, i as int),
{
    if i > t.len() || p.len() > t.len() - i {
        return false;
    }
    let mut k: usize = 0;
    while k < p.len()
        invariant
            i + p.len() <= t.len(),
            k <= p.len(),
            forall|j: int| 0 <= j < k ==> t@[i + j] == p@[j],
        decreases p.len() - k,
    {
        if t[i + k] != p[k] {
            assert(t@.subrange(i as int, i + p.len())[k as int] != p@[k as int]);
            return false;
        }
        k = k + 1;
    }
    assert(t@.subrange(i as int, i + p.len()) =~= p@);
    true
}

/// `t[from..to].find(p)`, as an absolute index.
pub fn find_in(t: &[char], p: &[char], from: usize, to: usize) -> (r: Option<usize>)
    requires
        to <= t.len(),
    ensures
        opt_int(r) == first_match(t@, p@, from as int, to as int),
{
    let mut i: usize = from;
    while i <= to && p.len() <= to - i
        invariant
            from <= i,
            to <= t.len(),
            first_match(t@, p@, from as int, to as int) == first_match(
                t@,
                p@,
                i as int,
                to as int,
            ),
        decreases to - i + 1,
    {
        if matches_at_exec(t, p, i) {
            return Some(i);
        }
        proof {
            if p.len() == 0 {
                assert(t@.subrange(i as int, i as int) =~= p@);
            }
        }
        i = i + 1;
    }
    None
}

/// `t[from..to].rfind(p)`, as an absolute index.
pub fn rfind_in(t: &[char], p: &[char], from: usize, to: usize) -> (r: Option<usize>)
    requires
        to <= t.len(),
    ensures
        opt_int(r) == last_match(t@, p@, from as int, to as int),
{
    let mut e: usize = to;
    while e >= from && p.len() <= e - from
        invariant
            e <= to <= t.len(),
            last_match(t@, p@, from as int, to as int) == last_match(
                t@,
                p@,
                from as int,
                e as int,
            ),
        decreases e,
    {
        if matches_at_exec(t, p, e - p.len()) {
            return Some(e - p.len());
        }
        proof {
            if p.len() == 0 {
                assert(t@.subrange(e as int, e as int) =~= p@);
            }
        }
        if e == 0 {
            return None;
        }
        e = e - 1;
    }
    None
}

/// `t[from..to].find(p)` for a literal pattern.
pub fn find_str(t: &[char], p: &str, from: usize, to: usize) -> (r: Option<usize>)
    requires
        to <= t.len(),
    ensures
        opt_int(r) == first_match(t@, p@, from as int, to as int),
{
    let pv = chars_of(p);
    find_in(t, &pv, from, to)
}

/// Whether `p` occurs in `t`.
pub fn contains_chars(t: &[char], p: &[char]) -> (b: bool)
    ensures
        b == contains(t@, p@),
{
    find_in(t, p, 0, t.len()).is_some()
}

/// Whether the literal `p` occurs in `t`.
pub fn contains_str(t: &[char], p: &str) -> (b: bool)
    ensures
        b == contains(t@, p@),
{
    find_str(t, p, 0, t.len()).is_some()
}

/// Whether `t` begins with the literal `p`.
pub fn starts_with_str(t: &[char], p: &str) -> (b: bool)
    ensures
        b == starts_with(t@, p@),
{
    let pv = chars_of(p);
    matches_at_exec(t, &pv, 0)
}

/// Whether `t` ends with the literal `p`.
pub fn ends_with_str(t: &[char], p: &str) -> (b: bool)
    ensures
        b == ends_with(t@, p@),
{
    let pv = chars_of(p);
    if pv.len() > t.len() {
        return false;
    }
    matches_at_exec(t, &pv, t.len() - pv.len())
}

/// Whether `t` equals the literal `s`.
pub fn eq_str(t: &[char], s: &str) -> (b: bool)
    ensures
        b == (t@ == s@),
{
    let sv = chars_of(s);
    if sv.len() != t.len() {
        return false;
    }
    let b = matches_at_exec(t, &sv, 0);
    assert(b ==> t@.subrange(0, t@.len() as int) == t@);
    assert(!b ==> t@ != sv@) by {
        if t@ == sv@ {
            assert(t@.subrange(0, t@.len() as int) =~= t@);
        }
    }
    b
}

/// Whether two character sequences are equal.
pub fn eq_chars(t: &[char], s: &[char]) -> (b: bool)
    ensures
        b == (t@ == s@),
{
    if s.len() != t.len() {
        return false;
    }
    let b = matches_at_exec(t, s, 0);
    assert(b ==> t@.subrange(0, t@.len() as int) == t@);
    assert(!b ==> t@ != s@) by {
        if t@ == s@ {
            assert(t@.subrange(0, t@.len() as int) =~= t@);
        }
    }
    b
}


/// The Unicode `White_Space` property, which `char::is_whitespace` tests.
pub open spec fn is_ws(c: char) -> bool {
    let u = c as u32;
    (0x09 <= u <= 0x0d) || u == 0x20 || u == 0x85 || u == 0xa0 || u == 0x1680 || (0x2000 <= u
        <= 0x200a) || u == 0x2028 || u == 0x2029 || u == 0x202f || u == 0x205f || u == 0x3000
}

/// `char::is_whitespace`.
pub fn is_whitespace(c: char) -> (b: bool)
    ensures
        b == is_ws(c),
{
    let u = c as u32;
    (0x09 <= u && u <= 0x0d) || u == 0x20 || u == 0x85 || u == 0xa0 || u == 0x1680 || (0x2000 <= u
        && u <= 0x200a) || u == 0x2028 || u == 0x2029 || u == 0x202f || u == 0x205f || u == 0x3000
}

/// First index at or after `i` (and before `e`) that is not whitespace, or `e`.
pub open spec fn skip_ws(t: Seq<char>, i: int, e: int) -> int
    decreases e - i,
{
    if i < e && is_ws(t[i]) {
        skip_ws(t, i + 1, e)
    } else {
        i
    }
}

/// Last end at or before `e` (and after `s`) whose preceding char is not whitespace, or `s`.
pub open spec fn rskip_ws(t: Seq<char>, s: int, e: int) -> int
    decreases e - s,
{
    if s < e && is_ws(t[e - 1]) {
        rskip_ws(t, s, e - 1)
    } else {
        e
    }
}

pub proof fn lemma_skip_ws(t: Seq<char>, i: int, e: int)
    requires
        i <= e,
    ensures
        i <= skip_ws(t, i, e) <= e,
        forall|k: int| i <= k < skip_ws(t, i, e) ==> is_ws(t[k]),
        skip_ws(t, i, e) < e ==> !is_ws(t[skip_ws(t, i, e)]),
    decreases e - i,
{
    if i < e && is_ws(t[i]) {
        lemma_skip_ws(t, i + 1, e);
    }
}

pub proof fn lemma_rskip_ws(t: Seq<char>, s: int, e: int)
    requires
        s <= e,
    ensures
        s <= rskip_ws(t, s, e) <= e,
        forall|k: int| rskip_ws(t, s, e) <= k < e ==> is_ws(t[k]),
        rskip_ws(t, s, e) > s ==> !is_ws(t[rskip_ws(t, s, e) - 1]),
    decreases e - s,
{
    if s < e && is_ws(t[e - 1]) {
        lemma_rskip_ws(t, s, e - 1);
    }
}

/// `str::trim_start`.
pub open spec fn trim_start(t: Seq<char>) -> Seq<char> {
    t.subrange(skip_ws(t, 0, t.len() as int), t.len() as int)
}

/// `str::trim_end`.
pub open spec fn trim_end(t: Seq<char>) -> Seq<char> {
    t.subrange(0, rskip_ws(t, 0, t.len() as int))
}

/// `str::trim`.
pub open spec fn trim(t: Seq<char>) -> Seq<char> {
    let s = skip_ws(t, 0, t.len() as int);
    t.subrange(s, rskip_ws(t, s, t.len() as int))
}

/// Index of the first non-whitespace char at or after `i`, before `e`.
pub fn skip_ws_exec(t: &[char], i: usize, e: usize) -> (r: usize)
    requires
        i <= e <= t.len(),
    ensures
        r as int == skip_ws(t@, i as int, e as int),
{
    let mut k = i;
    while k < e && is_whitespace(t[k])
        invariant
            i <= k <= e <= t.len(),
            skip_ws(t@, i as int, e as int) == skip_ws(t@, k as int, e as int),
        decreases e - k,
    {
        k = k + 1;
    }
    k
}

/// End of `t[s..e]` with trailing whitespace removed.
pub fn rskip_ws_exec(t: &[char], s: usize, e: usize) -> (r: usize)
    requires
        s <= e <= t.len(),
    ensures
        r as int == rskip_ws(t@, s as int, e as int),
{
    let mut k = e;
    while k > s && is_whitespace(t[k - 1])
        invariant
            s <= k <= e <= t.len(),
            rskip_ws(t@, s as int, e as int) == rskip_ws(t@, s as int, k as int),
        decreases k,
    {
        k = k - 1;
    }
    k
}

/// `str::trim`, as a copy.
pub fn trim_chars(t: &[char]) -> (r: Vec<char>)
    ensures
        r@ == trim(t@),
{
    let s = skip_ws_exec(t, 0, t.len());
    proof {
        lemma_skip_ws(t@, 0, t@.len() as int);
    }
    let e = rskip_ws_exec(t, s, t.len());
    proof {
        lemma_rskip_ws(t@, s as int, t@.len() as int);
    }
    slice_to_vec(t, s, e)
}

/// `t[from..to].trim()`, as a copy.
pub fn trim_range(t: &[char], from: usize, to: usize) -> (r: Vec<char>)
    requires
        from <= to <= t.len(),
    ensures
        r@ == trim(t@.subrange(from as int, to as int)),
{
    let v = slice_to_vec(t, from, to);
    trim_chars(&v)
}

/// `str::trim_end`, as a copy.
pub fn trim_end_chars(t: &[char]) -> (r: Vec<char>)
    ensures
        r@ == trim_end(t@),
{
    let e = rskip_ws_exec(t, 0, t.len());
    proof {
        lemma_rskip_ws(t@, 0, t@.len() as int);
    }
    slice_to_vec(t, 0, e)
}

/// `str::trim_start`, as a copy.
pub fn trim_start_chars(t: &[char]) -> (r: Vec<char>)
    ensures
        r@ == trim_start(t@),
{
    let s = skip_ws_exec(t, 0, t.len());
    proof {
        lemma_skip_ws(t@, 0, t@.len() as int);
    }
    slice_to_vec(t, s, t.len())
}

/// `str::split_once` on a pattern: the text before and after its first occurrence.
pub open spec fn split_once(t: Seq<char>, p: Seq<char>) -> Option<(Seq<char>, Seq<char>)> {
    match first_match(t, p, 0, t.len() as int) {
        Some(i) => Some((t.subrange(0, i), t.subrange(i + p.len(), t.len() as int))),
        None => None,
    }
}

pub open spec fn pair_view(r: Option<(Vec<char>, Vec<char>)>) -> Option<(Seq<char>, Seq<char>)> {
    match r {
        Some((a, b)) => Some((a@, b@)),
        None => None,
    }
}

/// `str::split_once` on a literal pattern.
pub fn split_once_str(t: &[char], p: &str) -> (r: Option<(Vec<char>, Vec<char>)>)
    ensures
        pair_view(r) == split_once(t@, p@),
{
    let pv = chars_of(p);
    match find_in(t, &pv, 0, t.len()) {
        Some(i) => {
            proof {
                lemma_first_match_bounds(t@, pv@, 0, t@.len() as int);
            }
            let a = slice_to_vec(t, 0, i);
            let b = slice_to_vec(t, i + pv.len(), t.len());
            Some((a, b))
        },
        None => None,
    }
}

/// `split_once` followed by trimming both halves; with no separator, the whole
/// text trimmed and an empty right side.
pub open spec fn split_trim_or_all(t: Seq<char>, p: Seq<char>) -> (Seq<char>, Seq<char>) {
    match split_once(t, p) {
        Some((a, b)) => (trim(a), trim(b)),
        None => (trim(t), Seq::empty()),
    }
}

/// `value.split_once(p).map(|(l, r)| (l.trim(), r.trim())).unwrap_or((value.trim(), ""))`.
pub fn split_trim_or_all_str(t: &[char], p: &str) -> (r: (Vec<char>, Vec<char>))
    ensures
        (r.0@, r.1@) == split_trim_or_all(t@, p@),
{
    match split_once_str(t, p) {
        Some((a, b)) => (trim_chars(&a), trim_chars(&b)),
        None => (trim_chars(t), Vec::new()),
    }
}

/// XML character escaping of one char.
pub open spec fn escape_char(c: char) -> Seq<char> {
    if c == '&' {
        "&amp;"@
    } else if c == '<' {
        "&lt;"@
    } else if c == '>' {
        "&gt;"@
    } else if c == '"' {
        "&quot;"@
    } else {
        seq![c]
    }
}

/// XML escaping of a text: `&`, `<`, `>` and `"` become entities.
pub open spec fn escape_xml(t: Seq<char>) -> Seq<char>
    decreases t.len(),
{
    if t.len() == 0 {
        Seq::empty()
    } else {
        escape_xml(t.drop_last()) + escape_char(t.last())
    }
}

/// XML escaping of a text.
pub fn escape_xml_exec(t: &[char]) -> (r: Vec<char>)
    ensures
        r@ == escape_xml(t@),
{
    let mut r: Vec<char> = Vec::new();
    let mut i: usize = 0;
    while i < t.len()
        invariant
            i <= t.len(),
            r@ == escape_xml(t@.take(i as int)),
        decreases t.len() - i,
    {
        let c = t[i];
        if c == '&' {
            push_str(&mut r, "&amp;");
        } else if c == '<' {
            push_str(&mut r, "&lt;");
        } else if c == '>' {
            push_str(&mut r, "&gt;");
        } else if c == '"' {
            push_str(&mut r, "&quot;");
        } else {
            r.push(c);
        }
        assert(t@.take(i + 1).drop_last() =~= t@.take(i as int));
        i = i + 1;
    }
    assert(t@.take(t.len() as int) =~= t@);
    r
}


/// The views of a vector of texts.
pub open spec fn views(v: Seq<Vec<char>>) -> Seq<Seq<char>> {
    v.map_values(|x: Vec<char>| x@)
}

pub proof fn lemma_views_push(v: Seq<Vec<char>>, x: Vec<char>)
    ensures
        views(v.push(x)) == views(v).push(x@),
{
    assert(views(v.push(x)) =~= views(v).push(x@));
}

/// The pieces of `t[c..]` separated by `sep` (`str::split`).
pub open spec fn split_from(t: Seq<char>, sep: Seq<char>, c: int) -> Seq<Seq<char>>
    decreases t.len() - c,
    when 0 <= c <= t.len() && sep.len() > 0
{
    match first_match(t, sep, c, t.len() as int) {
        None => seq![t.subrange(c, t.len() as int)],
        Some(i) => {
            proof {
                lemma_first_match_bounds(t, sep, c, t.len() as int);
            }
            seq![t.subrange(c, i)] + split_from(t, sep, i + sep.len())
        },
    }
}

/// `str::split` on a non-empty separator.
pub open spec fn split(t: Seq<char>, sep: Seq<char>) -> Seq<Seq<char>> {
    split_from(t, sep, 0)
}

/// Pieces trimmed, empty ones dropped.
pub open spec fn trim_nonempty(pieces: Seq<Seq<char>>) -> Seq<Seq<char>>
    decreases pieces.len(),
{
    if pieces.len() == 0 {
        Seq::empty()
    } else if trim(pieces[0]).len() == 0 {
        trim_nonempty(pieces.drop_first())
    } else {
        seq![trim(pieces[0])] + trim_nonempty(pieces.drop_first())
    }
}

pub proof fn lemma_trim_nonempty_cons(x: Seq<char>, rest: Seq<Seq<char>>)
    ensures
        trim_nonempty(seq![x] + rest) == (if trim(x).len() == 0 {
            Seq::<Seq<char>>::empty()
        } else {
            seq![trim(x)]
        }) + trim_nonempty(rest),
{
    assert((seq![x] + rest).drop_first() =~= rest);
    assert((seq![x] + rest)[0] == x);
    if trim(x).len() == 0 {
        assert(Seq::<Seq<char>>::empty() + trim_nonempty(rest) =~= trim_nonempty(rest));
    }
}

/// `str::split` on a literal separator.
pub fn split_str(t: &[char], sep: &str) -> (r: Vec<Vec<char>>)
    requires
        sep@.len() > 0,
    ensures
        views(r@) == split(t@, sep@),
{
    let sv = chars_of(sep);
    let mut r: Vec<Vec<char>> = Vec::new();
    let mut c: usize = 0;
    loop
        invariant
            c <= t.len(),
            sv@ == sep@,
            sv@.len() > 0,
            views(r@) + split_from(t@, sv@, c as int) == split(t@, sv@),
        decreases t.len() - c,
    {
        match find_in(t, &sv, c, t.len()) {
            None => {
                let piece = slice_to_vec(t, c, t.len());
                proof {
                    lemma_views_push(r@, piece);
                }
                r.push(piece);
                return r;
            },
            Some(i) => {
                proof {
                    lemma_first_match_bounds(t@, sv@, c as int, t@.len() as int);
                }
                let piece = slice_to_vec(t, c, i);
                proof {
                    lemma_views_push(r@, piece);
                    assert(views(r@.push(piece)) + split_from(t@, sv@, i + sv@.len()) =~= views(r@)
                        + split_from(t@, sv@, c as int));
                }
                r.push(piece);
                c = i + sv.len();
            },
        }
    }
}

/// `t.split(sep).map(str::trim).filter(|x| !x.is_empty())`.
pub fn split_trim_nonempty(t: &[char], sep: &str) -> (r: Vec<Vec<char>>)
    requires
        sep@.len() > 0,
    ensures
        views(r@) == trim_nonempty(split(t@, sep@)),
{
    let pieces = split_str(t, sep);
    trim_nonempty_exec(&pieces)
}

/// Trims each piece and drops the empty ones.
pub fn trim_nonempty_exec(pieces: &Vec<Vec<char>>) -> (r: Vec<Vec<char>>)
    ensures
        views(r@) == trim_nonempty(views(pieces@)),
{
    let mut r: Vec<Vec<char>> = Vec::new();
    let mut i: usize = pieces.len();
    let ghost full = views(pieces@);
    // Build from the back so that the recursive definition unfolds at the front.
    let mut acc: Vec<Vec<char>> = Vec::new();
    while i > 0
        invariant
            i <= pieces.len(),
            full == views(pieces@),
            views(acc@) == trim_nonempty(full.subrange(i as int, full.len() as int)).reverse(),
        decreases i,
    {
        i = i - 1;
        let piece = trim_chars(&pieces[i]);
        proof {
            assert(full.subrange(i as int, full.len() as int) =~= seq![full[i as int]]
                + full.subrange(i + 1, full.len() as int));
            lemma_trim_nonempty_cons(full[i as int], full.subrange(i + 1, full.len() as int));
        }
        if piece.len() > 0 {
            proof {
                lemma_views_push(acc@, piece);
                assert((seq![piece@] + trim_nonempty(full.subrange(i + 1, full.len() as int))).reverse()
                    =~= trim_nonempty(full.subrange(i + 1, full.len() as int)).reverse().push(piece@));
            }
            acc.push(piece);
        } else {
            proof {
                assert(Seq::<Seq<char>>::empty() + trim_nonempty(full.subrange(i + 1, full.len() as int))
                    =~= trim_nonempty(full.subrange(i + 1, full.len() as int)));
            }
        }
    }
    assert(full.subrange(0, full.len() as int) =~= full);
    let mut j: usize = acc.len();
    while j > 0
        invariant
            j <= acc.len(),
            views(acc@) == trim_nonempty(full).reverse(),
            views(r@) =~= views(acc@).subrange(j as int, acc@.len() as int).reverse(),
        decreases j,
    {
        j = j - 1;
        let x = acc[j].clone();
        proof {
            lemma_views_push(r@, x);
            assert(views(acc@).subrange(j as int, acc@.len() as int).reverse() =~= views(acc@).subrange(
                j + 1,
                acc@.len() as int,
            ).reverse().push(views(acc@)[j as int]));
        }
        r.push(x);
    }
    assert(views(acc@).subrange(0, acc@.len() as int) =~= views(acc@));
    assert(trim_nonempty(full).reverse().reverse() =~= trim_nonempty(full));
    r
}


/// First index at or after `i` (before `e`) that is whitespace, or `e`.
pub open spec fn skip_non_ws(t: Seq<char>, i: int, e: int) -> int
    decreases e - i,
{
    if i < e && !is_ws(t[i]) {
        skip_non_ws(t, i + 1, e)
    } else {
        i
    }
}

pub proof fn lemma_skip_non_ws(t: Seq<char>, i: int, e: int)
    requires
        i <= e,
    ensures
        i <= skip_non_ws(t, i, e) <= e,
        forall|k: int| i <= k < skip_non_ws(t, i, e) ==> !is_ws(t[k]),
        skip_non_ws(t, i, e) < e ==> is_ws(t[skip_non_ws(t, i, e)]),
    decreases e - i,
{
    if i < e && !is_ws(t[i]) {
        lemma_skip_non_ws(t, i + 1, e);
    }
}

/// The whitespace-separated words of `t[c..]` (`str::split_whitespace`).
pub open spec fn words_from(t: Seq<char>, c: int) -> Seq<Seq<char>>
    decreases t.len() - c,
    when 0 <= c <= t.len()
{
    let s = skip_ws(t, c, t.len() as int);
    proof {
        lemma_skip_ws(t, c, t.len() as int);
    }
    if s >= t.len() {
        Seq::empty()
    } else {
        let e = skip_non_ws(t, s, t.len() as int);
        proof {
            lemma_skip_non_ws(t, s, t.len() as int);
            lemma_skip_non_ws(t, s + 1, t.len() as int);
        }
        seq![t.subrange(s, e)] + words_from(t, e)
    }
}

/// `str::split_whitespace`.
pub open spec fn words(t: Seq<char>) -> Seq<Seq<char>> {
    words_from(t, 0)
}

pub proof fn lemma_skip_non_ws_step(t: Seq<char>, s: int, e: int)
    requires
        s < e <= t.len(),
        !is_ws(t[s]),
    ensures
        skip_non_ws(t, s, e) == skip_non_ws(t, s + 1, e),
        skip_non_ws(t, s, e) > s,
{
    lemma_skip_non_ws(t, s + 1, e);
}

/// `str::split_whitespace`.
pub fn split_whitespace(t: &[char]) -> (r: Vec<Vec<char>>)
    ensures
        views(r@) == words(t@),
{
    let mut r: Vec<Vec<char>> = Vec::new();
    let mut c: usize = 0;
    loop
        invariant
            c <= t.len(),
            views(r@) + words_from(t@, c as int) == words(t@),
        decreases t.len() - c,
    {
        let s = skip_ws_exec(t, c, t.len());
        proof {
            lemma_skip_ws(t@, c as int, t@.len() as int);
        }
        if s >= t.len() {
            assert(views(r@) + words_from(t@, c as int) =~= views(r@));
            return r;
        }
        let mut e = s;
        while e < t.len() && !is_whitespace(t[e])
            invariant
                s <= e <= t.len(),
                skip_non_ws(t@, s as int, t@.len() as int) == skip_non_ws(
                    t@,
                    e as int,
                    t@.len() as int,
                ),
            decreases t.len() - e,
        {
            e = e + 1;
        }
        proof {
            lemma_skip_non_ws_step(t@, s as int, t@.len() as int);
        }
        let piece = slice_to_vec(t, s, e);
        proof {
            lemma_views_push(r@, piece);
            assert(views(r@.push(piece)) + words_from(t@, e as int) =~= views(r@) + words_from(
                t@,
                c as int,
            ));
        }
        r.push(piece);
        c = e;
    }
}

/// Pieces joined with a separator (`[T]::join`).
pub open spec fn join(pieces: Seq<Seq<char>>, sep: Seq<char>) -> Seq<char>
    decreases pieces.len(),
{
    if pieces.len() == 0 {
        Seq::empty()
    } else if pieces.len() == 1 {
        pieces[0]
    } else {
        join(pieces.drop_last(), sep) + sep + pieces.last()
    }
}

/// Pieces joined with a literal separator.
pub fn join_str(pieces: &[Vec<char>], sep: &str) -> (r: Vec<char>)
    ensures
        r@ == join(views(pieces@), sep@),
{
    let mut r: Vec<char> = Vec::new();
    let mut i: usize = 0;
    let ghost all = views(pieces@);
    while i < pieces.len()
        invariant
            i <= pieces.len(),
            all == views(pieces@),
            r@ == join(all.take(i as int), sep@),
        decreases pieces.len() - i,
    {
        if i > 0 {
            push_str(&mut r, sep);
        }
        push_chars(&mut r, &pieces[i]);
        proof {
            assert(all.take(i + 1).drop_last() =~= all.take(i as int));
            if i == 0 {
                assert(all.take(0) =~= Seq::<Seq<char>>::empty());
            }
        }
        i = i + 1;
    }
    assert(all.take(pieces.len() as int) =~= all);
    r
}

/// `t[c..]` with each occurrence of `p` replaced by `r` (`str::replace`).
pub open spec fn replace_from(t: Seq<char>, p: Seq<char>, r: Seq<char>, c: int) -> Seq<char>
    decreases t.len() - c,
    when 0 <= c <= t.len() && p.len() > 0
{
    match first_match(t, p, c, t.len() as int) {
        None => t.subrange(c, t.len() as int),
        Some(i) => {
            proof {
                lemma_first_match_bounds(t, p, c, t.len() as int);
            }
            t.subrange(c, i) + r + replace_from(t, p, r, i + p.len())
        },
    }
}

/// `str::replace` on a non-empty pattern.
pub open spec fn replace_all(t: Seq<char>, p: Seq<char>, r: Seq<char>) -> Seq<char> {
    replace_from(t, p, r, 0)
}

/// Number of non-overlapping occurrences of `p` in `t[c..]` (`str::matches().count()`).
pub open spec fn count_from(t: Seq<char>, p: Seq<char>, c: int) -> nat
    decreases t.len() - c,
    when 0 <= c <= t.len() && p.len() > 0
{
    match first_match(t, p, c, t.len() as int) {
        None => 0,
        Some(i) => {
            proof {
                lemma_first_match_bounds(t, p, c, t.len() as int);
            }
            1 + count_from(t, p, i + p.len())
        },
    }
}

pub open spec fn count_matches(t: Seq<char>, p: Seq<char>) -> nat {
    count_from(t, p, 0)
}

/// `str::replace` on a non-empty pattern.
pub fn replace_chars(t: &[char], p: &[char], r: &[char]) -> (res: Vec<char>)
    requires
        p@.len() > 0,
    ensures
        res@ == replace_all(t@, p@, r@),
{
    let mut res: Vec<char> = Vec::new();
    let mut c: usize = 0;
    loop
        invariant
            c <= t.len(),
            p@.len() > 0,
            res@ + replace_from(t@, p@, r@, c as int) == replace_all(t@, p@, r@),
        decreases t.len() - c,
    {
        match find_in(t, p, c, t.len()) {
            None => {
                let ghost before = res@;
                let tail = slice_to_vec(t, c, t.len());
                push_chars(&mut res, &tail);
                return res;
            },
            Some(i) => {
                proof {
                    lemma_first_match_bounds(t@, p@, c as int, t@.len() as int);
                }
                let ghost before = res@;
                let mid = slice_to_vec(t, c, i);
                push_chars(&mut res, &mid);
                push_chars(&mut res, r);
                assert(res@ + replace_from(t@, p@, r@, i + p@.len()) =~= before + replace_from(
                    t@,
                    p@,
                    r@,
                    c as int,
                ));
                c = i + p.len();
            },
        }
    }
}

/// `str::replace` with literal pattern and replacement.
pub fn replace_str(t: &[char], p: &str, r: &str) -> (res: Vec<char>)
    requires
        p@.len() > 0,
    ensures
        res@ == replace_all(t@, p@, r@),
{
    let pv = chars_of(p);
    let rv = chars_of(r);
    replace_chars(t, &pv, &rv)
}

/// `str::matches(p).count()` on a non-empty pattern.
pub fn count_chars(t: &[char], p: &[char]) -> (n: usize)
    requires
        p@.len() > 0,
    ensures
        n as nat == count_matches(t@, p@),
{
    let mut n: usize = 0;
    let mut c: usize = 0;
    loop
        invariant
            c <= t.len(),
            p@.len() > 0,
            n <= c,
            n + count_from(t@, p@, c as int) == count_matches(t@, p@),
        decreases t.len() - c,
    {
        match find_in(t, p, c, t.len()) {
            None => {
                return n;
            },
            Some(i) => {
                proof {
                    lemma_first_match_bounds(t@, p@, c as int, t@.len() as int);
                }
                n = n + 1;
                c = i + p.len();
            },
        }
    }
}

/// Whether `c` is an ASCII decimal digit.
pub open spec fn is_digit(c: char) -> bool {
    '0' <= c <= '9'
}

/// Whether `c` is an ASCII letter.
pub open spec fn is_ascii_alpha(c: char) -> bool {
    ('a' <= c <= 'z') || ('A' <= c <= 'Z')
}

/// ASCII lower case of one char.
pub open spec fn ascii_lower(c: char) -> char {
    if 'A' <= c <= 'Z' {
        ((c as u32) + 32) as char
    } else {
        c
    }
}

/// `str::eq_ignore_ascii_case`.
pub open spec fn eq_ignore_ascii_case(a: Seq<char>, b: Seq<char>) -> bool {
    a.len() == b.len() && forall|i: int| 0 <= i < a.len() ==> ascii_lower(a[i]) == ascii_lower(b[i])
}

pub fn ascii_lower_exec(c: char) -> (r: char)
    ensures
        r == ascii_lower(c),
{
    if 'A' <= c && c <= 'Z' {
        let u: u8 = (c as u32) as u8 + 32;
        u as char
    } else {
        c
    }
}

/// `str::eq_ignore_ascii_case` against a literal.
pub fn eq_ignore_ascii_case_str(a: &[char], b: &str) -> (r: bool)
    ensures
        r == eq_ignore_ascii_case(a@, b@),
{
    let bv = chars_of(b);
    if a.len() != bv.len() {
        return false;
    }
    let mut i: usize = 0;
    while i < a.len()
        invariant
            i <= a.len() == bv@.len(),
            bv@ == b@,
            forall|k: int| 0 <= k < i ==> ascii_lower(a@[k]) == ascii_lower(bv@[k]),
        decreases a.len() - i,
    {
        if ascii_lower_exec(a[i]) != ascii_lower_exec(bv[i]) {
            return false;
        }
        i = i + 1;
    }
    true
}


/// The views of a sequence of string literals.
pub open spec fn lit_views(s: Seq<&'static str>) -> Seq<Seq<char>> {
    s.map_values(|x: &'static str| x@)
}

/// Some text of the list starts `t`.
pub open spec fn starts_with_any(t: Seq<char>, prefixes: Seq<Seq<char>>) -> bool {
    exists|i: int| 0 <= i < prefixes.len() && starts_with(t, #[trigger] prefixes[i])
}

/// Whether some literal of the list starts `t`.
pub fn starts_with_any_exec(t: &[char], prefixes: &[&'static str]) -> (b: bool)
    ensures
        b == starts_with_any(t@, lit_views(prefixes@)),
{
    let mut i: usize = 0;
    while i < prefixes.len()
        invariant
            i <= prefixes.len(),
            forall|k: int| 0 <= k < i ==> !starts_with(t@, #[trigger] lit_views(prefixes@)[k]),
        decreases prefixes.len() - i,
    {
        if starts_with_str(t, prefixes[i]) {
            assert(starts_with(t@, lit_views(prefixes@)[i as int]));
            return true;
        }
        i = i + 1;
    }
    false
}

/// Some text of the list equals `t`.
pub open spec fn is_one_of(t: Seq<char>, items: Seq<Seq<char>>) -> bool {
    exists|i: int| 0 <= i < items.len() && t == #[trigger] items[i]
}

/// Whether `t` equals some literal of the list.
pub fn is_one_of_exec(t: &[char], items: &[&'static str]) -> (b: bool)
    ensures
        b == is_one_of(t@, lit_views(items@)),
{
    let mut i: usize = 0;
    while i < items.len()
        invariant
            i <= items.len(),
            forall|k: int| 0 <= k < i ==> t@ != #[trigger] lit_views(items@)[k],
        decreases items.len() - i,
    {
        if eq_str(t, items[i]) {
            assert(t@ == lit_views(items@)[i as int]);
            return true;
        }
        i = i + 1;
    }
    false
}

/// A copy of `t` as a vector.
pub fn to_vec(t: &[char]) -> (r: Vec<char>)
    ensures
        r@ == t@,
{
    slice_to_vec(t, 0, t.len())
}

/// A copy of a list of texts.
pub fn copy_texts(v: &Vec<Vec<char>>) -> (r: Vec<Vec<char>>)
    ensures
        views(r@) == views(v@),
{
    let mut r: Vec<Vec<char>> = Vec::new();
    let mut i: usize = 0;
    while i < v.len()
        invariant
            i <= v.len(),
            views(r@) == views(v@).take(i as int),
        decreases v.len() - i,
    {
        let x = to_vec(&v[i]);
        proof {
            lemma_views_push(r@, x);
            assert(views(v@).take(i + 1) =~= views(v@).take(i as int).push(x@));
        }
        r.push(x);
        i = i + 1;
    }
    assert(views(v@).take(i as int) =~= views(v@));
    r
}

/// `t` with `t[s..e]` replaced by `r`.
pub open spec fn spliced(t: Seq<char>, s: int, e: int, r: Seq<char>) -> Seq<char> {
    t.subrange(0, s) + r + t.subrange(e, t.len() as int)
}

/// Replaces `t[s..e]` by `r` (`String::replace_range`; with `s == e`,
/// `String::insert_str`).
pub fn splice(t: &mut Vec<char>, s: usize, e: usize, r: &[char])
    requires
        s <= e <= old(t)@.len(),
    ensures
        final(t)@ == spliced(old(t)@, s as int, e as int, r@),
{
    let mut out = slice_to_vec(t, 0, s);
    push_chars(&mut out, r);
    let tail = slice_to_vec(t, e, t.len());
    push_chars(&mut out, &tail);
    *t = out;
}

/// `str::replace` with an empty pattern: `r` before each char and at the end.
pub open spec fn interleave(t: Seq<char>, r: Seq<char>) -> Seq<char>
    decreases t.len(),
{
    if t.len() == 0 {
        r
    } else {
        interleave(t.drop_last(), r) + seq![t.last()] + r
    }
}

pub fn interleave_exec(t: &[char], r: &[char]) -> (res: Vec<char>)
    ensures
        res@ == interleave(t@, r@),
{
    let mut res = crate::text::to_vec(r);
    let mut i: usize = 0;
    while i < t.len()
        invariant
            i <= t@.len(),
            res@ == interleave(t@.take(i as int), r@),
        decreases t.len() - i,
    {
        res.push(t[i]);
        push_chars(&mut res, r);
        assert(t@.take(i + 1).drop_last() =~= t@.take(i as int));
        i = i + 1;
    }
    assert(t@.take(i as int) =~= t@);
    res
}

/// One more element taken before filtering adds it to the result where it
/// passes the filter.
pub proof fn lemma_filter_take_step<A>(s: Seq<A>, p: spec_fn(A) -> bool, i: int)
    requires
        0 <= i < s.len(),
    ensures
        s.take(i + 1).filter(p) == (if p(s[i]) {
            s.take(i).filter(p).push(s[i])
        } else {
            s.take(i).filter(p)
        }),
{
    reveal(Seq::filter);
    assert(s.take(i + 1).drop_last() =~= s.take(i));
    assert(s.take(i + 1).last() == s[i]);
}

/// Filtering nothing gives nothing.
pub proof fn lemma_filter_empty<A>(s: Seq<A>, p: spec_fn(A) -> bool)
    ensures
        s.take(0).filter(p) == Seq::<A>::empty(),
{
    reveal(Seq::filter);
    assert(s.take(0) =~= Seq::<A>::empty());
}

/// An occurrence of `p` at `k`, within `[from, to)`, is found by the search.
pub proof fn lemma_match_found(t: Seq<char>, p: Seq<char>, from: int, to: int, k: int)
    requires
        0 <= from <= k,
        k + p.len() <= to,
        matches_at(t, p, k),
    ensures
        first_match(t, p, from, to) is Some,
    decreases k - from,
{
    if !matches_at(t, p, from) {
        lemma_match_found(t, p, from + 1, to, k);
    }
}

/// A text contains every part of it.
pub proof fn lemma_contains_part(a: Seq<char>, p: Seq<char>, b: Seq<char>)
    ensures
        contains(a + p + b, p),
{
    let t = a + p + b;
    assert(t.subrange(a.len() as int, (a.len() + p.len()) as int) =~= p);
    lemma_match_found(t, p, 0, t.len() as int, a.len() as int);
}

} // verus!
