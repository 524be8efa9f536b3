//! Parsed XML documents as trees of elements, and the queries the checks and
//! reports of this library make of them.
use vstd::prelude::*;
use crate::text::{chars_of, eq_chars, eq_str};
use roxmltree::Document;

verus! {

/// A node as the parser reports it, in document order: how many nodes stand
/// above it and itself (`.0`), its local name (`.1`, empty unless it is an
/// element) and namespace (`.2`), its attributes as namespace, local name and
/// value (`.3`), the text of its first child where that child is text (`.4`),
/// and the namespaces in scope as prefix and URI (`.5`).
pub struct XmlRecord(
    pub usize,
    pub String,
    pub Option<String>,
    pub Vec<(Option<String>, String, String)>,
    pub Option<String>,
    pub Vec<(Option<String>, String)>,
);

/// What `roxmltree::Document::parse` makes of a text: the message of its error,
/// or its nodes in document order.
pub uninterp spec fn xml_records(text: Seq<char>) -> Result<Vec<XmlRecord>, String>;

/// `roxmltree::Document::parse` with the default options, its nodes read out
/// one record each in document order, or its error as text. The result is stated
/// to depend on the text alone; which texts parse, and what is read out of them,
/// is not stated.
#[verifier::external_body]
pub(crate) fn parse_xml_records(text: &str) -> (r: Result<Vec<XmlRecord>, String>)
    ensures
        r == xml_records(text@),
{
    Document::parse(text).map_err(|e| e.to_string()).map(|doc|
        doc.descendants().map(|n| XmlRecord(
            n.ancestors().count(),
            n.tag_name().name().into(),
            n.tag_name().namespace().map(Into::into),
            n.attributes().map(|a| (a.namespace().map(Into::into), a.name().into(), a.value().into())).collect(),
            n.text().map(String::from),
            n.namespaces().map(|s| (s.name().map(Into::into), s.uri().into())).collect(),
        )).collect())
}

/// The error message for a text that does not parse as XML, or `None`.
pub open spec fn xml_parse_error(text: Seq<char>) -> Option<Seq<char>> {
    match xml_records(text) {
        Ok(_) => None,
        Err(e) => Some(e@),
    }
}

/// Whether a text parses as XML, and if not, the message of the error.
pub fn check_xml(text: &[char]) -> (r: Option<Vec<char>>)
    ensures
        match xml_parse_error(text@) {
            Some(e) => r matches Some(m) && m@ == e,
            None => r is None,
        },
{
    let s = crate::external::string_of(text);
    match parse_xml_records(s.as_str()) {
        Ok(_) => None,
        Err(e) => Some(chars_of(e.as_str())),
    }
}

/// An attribute of an element.
pub struct XmlAttribute {
    pub namespace: Vec<char>,
    pub name: Vec<char>,
    pub value: Vec<char>,
}

/// An element with the elements in it, in document order, and the namespaces
/// in scope on it as prefix (none for the default one) and URI.
pub struct XmlElement {
    pub name: Vec<char>,
    pub namespace: Vec<char>,
    pub attributes: Vec<XmlAttribute>,
    pub text: Option<Vec<char>>,
    pub children: Vec<XmlElement>,
    pub namespaces: Vec<(Option<Vec<char>>, Vec<char>)>,
}

/// The mathematical value of an element.
pub struct XmlNode {
    pub name: Seq<char>,
    pub namespace: Seq<char>,
    pub attributes: Seq<(Seq<char>, Seq<char>, Seq<char>)>,
    pub text: Option<Seq<char>>,
    pub children: Seq<XmlNode>,
    pub namespaces: Seq<(Option<Seq<char>>, Seq<char>)>,
}

pub open spec fn opt_view(t: Option<Vec<char>>) -> Option<Seq<char>> {
    match t {
        Some(v) => Some(v@),
        None => None,
    }
}

pub open spec fn attribute_views(a: Seq<XmlAttribute>) -> Seq<(Seq<char>, Seq<char>, Seq<char>)> {
    a.map_values(|x: XmlAttribute| (x.namespace@, x.name@, x.value@))
}

pub open spec fn scope_views(a: Seq<(Option<Vec<char>>, Vec<char>)>) -> Seq<(Option<Seq<char>>, Seq<char>)> {
    a.map_values(|x: (Option<Vec<char>>, Vec<char>)| (opt_view(x.0), x.1@))
}

pub open spec fn element_view(e: XmlElement) -> XmlNode
    decreases e,
{
    XmlNode {
        name: e.name@,
        namespace: e.namespace@,
        attributes: attribute_views(e.attributes@),
        text: opt_view(e.text),
        children: Seq::new(
            e.children@.len(),
            |i: int|
                {
                    if 0 <= i < e.children@.len() {
                        proof {
                            assert(decreases_to!(e => e.children));
                            assert(decreases_to!(e.children => e.children@));
                            assert(decreases_to!(e.children@ => e.children@[i]));
                        }
                        element_view(e.children@[i])
                    } else {
                        empty_node()
                    }
                },
        ),
        namespaces: scope_views(e.namespaces@),
    }
}

impl View for XmlElement {
    type V = XmlNode;

    open spec fn view(&self) -> XmlNode {
        element_view(*self)
    }
}

/// The values of a sequence of elements.
pub open spec fn element_views(s: Seq<XmlElement>) -> Seq<XmlNode> {
    s.map_values(|e: XmlElement| element_view(e))
}

pub proof fn lemma_children_view(e: XmlElement)
    ensures
        e@.children == element_views(e.children@),
        e@.children.len() == e.children@.len(),
{
    assert(e@.children =~= element_views(e.children@));
}

/// An element with no name, attributes, text, children or namespaces.
pub open spec fn empty_node() -> XmlNode {
    XmlNode {
        name: Seq::empty(),
        namespace: Seq::empty(),
        attributes: Seq::empty(),
        text: None,
        children: Seq::empty(),
        namespaces: Seq::empty(),
    }
}

/// A text that may be absent, as text (empty where absent).
pub open spec fn string_or_empty(o: Option<String>) -> Seq<char> {
    match o {
        Some(t) => t@,
        None => Seq::empty(),
    }
}

pub open spec fn record_attribute_views(a: Seq<(Option<String>, String, String)>) -> Seq<(Seq<char>, Seq<char>, Seq<char>)> {
    a.map_values(|x: (Option<String>, String, String)| (string_or_empty(x.0), x.1@, x.2@))
}

pub open spec fn opt_string_view(o: Option<String>) -> Option<Seq<char>> {
    match o {
        Some(t) => Some(t@),
        None => None,
    }
}

pub open spec fn record_scope_views(a: Seq<(Option<String>, String)>) -> Seq<(Option<Seq<char>>, Seq<char>)> {
    a.map_values(|x: (Option<String>, String)| (opt_string_view(x.0), x.1@))
}

/// Record `j` stands inside record `i`: every record after `i` up to `j` is
/// deeper than `i`.
pub open spec fn inside(recs: Seq<XmlRecord>, i: int, j: int) -> bool {
    0 <= i < j < recs.len() && forall|m: int| i < m <= j ==> #[trigger] recs[m].0 > recs[i].0
}

/// Record `j` is an element directly inside record `i`. Only elements have a
/// name.
pub open spec fn child_record(recs: Seq<XmlRecord>, i: int, j: int) -> bool {
    inside(recs, i, j) && recs[j].0 == recs[i].0 + 1 && recs[j].1@.len() > 0
}

/// The element of record `i`, with the elements directly inside it as its
/// children.
pub open spec fn node_at(recs: Seq<XmlRecord>, i: int) -> XmlNode
    decreases recs.len() - i, 1int, 0int,
{
    if 0 <= i < recs.len() {
        XmlNode {
            name: recs[i].1@,
            namespace: string_or_empty(recs[i].2),
            attributes: record_attribute_views(recs[i].3@),
            text: opt_string_view(recs[i].4),
            children: children_upto(recs, i, recs.len() as int),
            namespaces: record_scope_views(recs[i].5@),
        }
    } else {
        empty_node()
    }
}

/// The children of record `i` among the records before `j`.
pub open spec fn children_upto(recs: Seq<XmlRecord>, i: int, j: int) -> Seq<XmlNode>
    decreases recs.len() - i, 0int, j - i,
{
    if 0 <= i && i + 1 < j && j <= recs.len() {
        let before = children_upto(recs, i, j - 1);
        if child_record(recs, i, j - 1) {
            before.push(node_at(recs, j - 1))
        } else {
            before
        }
    } else {
        Seq::empty()
    }
}

/// The first record from `k` on that is an element, or the number of records.
pub open spec fn first_element(recs: Seq<XmlRecord>, k: int) -> int
    decreases recs.len() - k,
{
    if k < 0 || k >= recs.len() {
        recs.len() as int
    } else if recs[k].1@.len() > 0 {
        k
    } else {
        first_element(recs, k + 1)
    }
}

/// The root element of a parsed document: its first element.
pub open spec fn root_of(recs: Seq<XmlRecord>) -> XmlNode {
    let k = first_element(recs, 0);
    if k < recs.len() {
        node_at(recs, k)
    } else {
        empty_node()
    }
}

/// A text parsed as XML: the root element, or the message of the error.
pub open spec fn xml_tree(text: Seq<char>) -> Result<XmlNode, Seq<char>> {
    match xml_records(text) {
        Ok(recs) => Ok(root_of(recs@)),
        Err(e) => Err(e@),
    }
}

fn string_chars(s: &String) -> (r: Vec<char>)
    ensures
        r@ == s@,
{
    chars_of(s.as_str())
}

fn opt_string_chars(s: &Option<String>) -> (r: Vec<char>)
    ensures
        r@ == string_or_empty(*s),
{
    match s {
        Some(t) => string_chars(t),
        None => Vec::new(),
    }
}

fn record_attributes(a: &Vec<(Option<String>, String, String)>) -> (r: Vec<XmlAttribute>)
    ensures
        attribute_views(r@) == record_attribute_views(a@),
{
    let mut r: Vec<XmlAttribute> = Vec::new();
    let mut i: usize = 0;
    while i < a.len()
        invariant
            i <= a@.len(),
            attribute_views(r@) == record_attribute_views(a@.take(i as int)),
        decreases a.len() - i,
    {
        let x = XmlAttribute { namespace: opt_string_chars(&a[i].0), name: string_chars(&a[i].1), value: string_chars(&a[i].2) };
        let ghost before = r@;
        r.push(x);
        assert(attribute_views(r@) =~= attribute_views(before).push((x.namespace@, x.name@, x.value@)));
        assert(a@.take(i + 1) =~= a@.take(i as int).push(a@[i as int]));
        assert(record_attribute_views(a@.take(i + 1)) =~= record_attribute_views(a@.take(i as int)).push(
            (string_or_empty(a@[i as int].0), a@[i as int].1@, a@[i as int].2@),
        ));
        i = i + 1;
    }
    assert(a@.take(i as int) =~= a@);
    r
}

fn record_scopes(a: &Vec<(Option<String>, String)>) -> (r: Vec<(Option<Vec<char>>, Vec<char>)>)
    ensures
        scope_views(r@) == record_scope_views(a@),
{
    let mut r: Vec<(Option<Vec<char>>, Vec<char>)> = Vec::new();
    let mut i: usize = 0;
    while i < a.len()
        invariant
            i <= a@.len(),
            scope_views(r@) == record_scope_views(a@.take(i as int)),
        decreases a.len() - i,
    {
        let prefix = match &a[i].0 {
            Some(t) => Some(string_chars(t)),
            None => None,
        };
        let x = (prefix, string_chars(&a[i].1));
        let ghost before = r@;
        r.push(x);
        assert(scope_views(r@) =~= scope_views(before).push((opt_view(x.0), x.1@)));
        assert(a@.take(i + 1) =~= a@.take(i as int).push(a@[i as int]));
        assert(record_scope_views(a@.take(i + 1)) =~= record_scope_views(a@.take(i as int)).push(
            (opt_string_view(a@[i as int].0), a@[i as int].1@),
        ));
        i = i + 1;
    }
    assert(a@.take(i as int) =~= a@);
    r
}

/// Past a record that is not inside record `i`, no more children of `i` come.
proof fn lemma_children_end(recs: Seq<XmlRecord>, i: int, j: int, k: int)
    requires
        0 <= i < j < k <= recs.len(),
        recs[j].0 <= recs[i].0,
    ensures
        children_upto(recs, i, k) == children_upto(recs, i, j),
    decreases k,
{
    assert(!inside(recs, i, k - 1));
    if k - 1 > j {
        lemma_children_end(recs, i, j, k - 1);
    }
}

fn build_element(recs: &Vec<XmlRecord>, i: usize) -> (r: XmlElement)
    requires
        i < recs@.len(),
    ensures
        r@ == node_at(recs@, i as int),
    decreases recs@.len() - i, 1int, 0int,
{
    let rec = &recs[i];
    let n = recs.len();
    assert(i < n);
    let mut children: Vec<XmlElement> = Vec::new();
    let mut j: usize = i + 1;
    assert(children_upto(recs@, i as int, j as int) =~= Seq::<XmlNode>::empty());
    while j < recs.len() && recs[j].0 > recs[i].0
        invariant_except_break
            i < j <= recs@.len(),
            forall|m: int| i < m < j ==> #[trigger] recs@[m].0 > recs@[i as int].0,
            element_views(children@) == children_upto(recs@, i as int, j as int),
        ensures
            i < j <= recs@.len(),
            element_views(children@) == children_upto(recs@, i as int, j as int),
            j < recs@.len() ==> recs@[j as int].0 <= recs@[i as int].0,
        decreases recs@.len() - j,
    {
        assert(inside(recs@, i as int, j as int));
        let ghost before = children@;
        if recs[j].0 - 1 == recs[i].0 && !recs[j].1.as_str().is_empty() {
            let c = build_element(recs, j);
            children.push(c);
            assert(element_views(children@) =~= element_views(before).push(c@));
        }
        j = j + 1;
    }
    if j < recs.len() {
        proof {
            lemma_children_end(recs@, i as int, j as int, recs@.len() as int);
        }
    }
    let text = match &rec.4 {
        Some(t) => Some(string_chars(t)),
        None => None,
    };
    let r = XmlElement {
        name: string_chars(&rec.1),
        namespace: opt_string_chars(&rec.2),
        attributes: record_attributes(&rec.3),
        text,
        children,
        namespaces: record_scopes(&rec.5),
    };
    proof {
        lemma_children_view(r);
        assert(r@.text == node_at(recs@, i as int).text);
        assert(r@ =~= node_at(recs@, i as int));
    }
    r
}

/// A text parsed as XML into its root element, or the message of the parser's
/// error.
pub fn xml_document(text: &str) -> (r: Result<XmlElement, Vec<char>>)
    ensures
        match xml_tree(text@) {
            Ok(n) => r matches Ok(e) && e@ == n,
            Err(m) => r matches Err(x) && x@ == m,
        },
{
    match parse_xml_records(text) {
        Ok(recs) => {
            let mut k: usize = 0;
            while k < recs.len() && recs[k].1.as_str().is_empty()
                invariant
                    k <= recs@.len(),
                    first_element(recs@, k as int) == first_element(recs@, 0),
                decreases recs@.len() - k,
            {
                k = k + 1;
            }
            if k < recs.len() {
                Ok(build_element(&recs, k))
            } else {
                let e = XmlElement {
                    name: Vec::new(),
                    namespace: Vec::new(),
                    attributes: Vec::new(),
                    text: None,
                    children: Vec::new(),
                    namespaces: Vec::new(),
                };
                proof {
                    lemma_children_view(e);
                    assert(e@.attributes =~= Seq::<(Seq<char>, Seq<char>, Seq<char>)>::empty());
                    assert(e@.children =~= Seq::<XmlNode>::empty());
                    assert(e@.namespaces =~= Seq::<(Option<Seq<char>>, Seq<char>)>::empty());
                    assert(e@.name =~= Seq::<char>::empty());
                    assert(e@.namespace =~= Seq::<char>::empty());
                }
                Ok(e)
            }
        },
        Err(m) => Err(string_chars(&m)),
    }
}

/// Whether an element has the local name `name` and, where `ns` is given, the
/// namespace `ns`.
pub open spec fn named(n: XmlNode, name: Seq<char>, ns: Option<Seq<char>>) -> bool {
    n.name == name && match ns {
        Some(u) => n.namespace == u,
        None => true,
    }
}

pub open spec fn opt_str(ns: Option<&str>) -> Option<Seq<char>> {
    match ns {
        Some(u) => Some(u@),
        None => None,
    }
}

/// The position of the first element from `i` on in `s` that is named so.
pub open spec fn first_named_from(s: Seq<XmlNode>, name: Seq<char>, ns: Option<Seq<char>>, i: int) -> Option<int>
    decreases s.len() - i,
{
    if i < 0 || i >= s.len() {
        None
    } else if named(s[i], name, ns) {
        Some(i)
    } else {
        first_named_from(s, name, ns, i + 1)
    }
}

pub proof fn lemma_first_named_from(s: Seq<XmlNode>, name: Seq<char>, ns: Option<Seq<char>>, i: int)
    requires
        0 <= i,
    ensures
        match first_named_from(s, name, ns, i) {
            Some(k) => i <= k < s.len() && named(s[k], name, ns) && forall|m: int|
                i <= m < k ==> !named(#[trigger] s[m], name, ns),
            None => forall|m: int| i <= m < s.len() ==> !named(#[trigger] s[m], name, ns),
        },
    decreases s.len() - i,
{
    if i < s.len() && !named(s[i], name, ns) {
        lemma_first_named_from(s, name, ns, i + 1);
    }
}

/// The first child of `n` named so.
pub open spec fn child_named(n: XmlNode, name: Seq<char>, ns: Option<Seq<char>>) -> Option<XmlNode> {
    match first_named_from(n.children, name, ns, 0) {
        Some(k) => Some(n.children[k]),
        None => None,
    }
}

/// The test for an element named so.
pub open spec fn named_pred(name: Seq<char>, ns: Option<Seq<char>>) -> spec_fn(XmlNode) -> bool {
    |c: XmlNode| named(c, name, ns)
}

/// The children of `n` named so, in order.
pub open spec fn children_named(n: XmlNode, name: Seq<char>, ns: Option<Seq<char>>) -> Seq<XmlNode> {
    n.children.filter(named_pred(name, ns))
}

/// The text of an element, or the empty text (`text().unwrap_or("")`).
pub open spec fn text_or_empty(n: XmlNode) -> Seq<char> {
    match n.text {
        Some(t) => t,
        None => Seq::empty(),
    }
}

/// The text of the first child named so, or the empty text where there is no
/// such child or it has no text.
pub open spec fn child_text(n: XmlNode, name: Seq<char>, ns: Option<Seq<char>>) -> Seq<char> {
    match child_named(n, name, ns) {
        Some(c) => text_or_empty(c),
        None => Seq::empty(),
    }
}

/// The position of the first attribute from `i` on whose local name is `name`,
/// in namespace `ns` where one is given.
pub open spec fn attribute_from(
    a: Seq<(Seq<char>, Seq<char>, Seq<char>)>,
    name: Seq<char>,
    ns: Option<Seq<char>>,
    i: int,
) -> Option<Seq<char>>
    decreases a.len() - i,
{
    if i < 0 || i >= a.len() {
        None
    } else if a[i].1 == name && match ns {
        Some(u) => a[i].0 == u,
        None => true,
    } {
        Some(a[i].2)
    } else {
        attribute_from(a, name, ns, i + 1)
    }
}

/// The value of the attribute `name` without a namespace (`attribute(name)`).
pub open spec fn attribute(n: XmlNode, name: Seq<char>) -> Option<Seq<char>> {
    attribute_from(n.attributes, name, Some(Seq::empty()), 0)
}

/// The value of the first attribute with the local name `name`, whatever its
/// namespace.
pub open spec fn attribute_by_local_name(n: XmlNode, name: Seq<char>) -> Option<Seq<char>> {
    attribute_from(n.attributes, name, None, 0)
}

/// The first element named so at or under `n`, in document order.
pub open spec fn find_named(n: XmlNode, name: Seq<char>, ns: Option<Seq<char>>) -> Option<XmlNode>
    decreases n, n.children.len() + 1,
{
    if named(n, name, ns) {
        Some(n)
    } else {
        find_named_in(n, name, ns, 0)
    }
}

/// The first element named so under the children of `n` from the `i`-th on.
pub open spec fn find_named_in(n: XmlNode, name: Seq<char>, ns: Option<Seq<char>>, i: int) -> Option<XmlNode>
    decreases n, n.children.len() - i,
{
    if 0 <= i < n.children.len() {
        proof {
            assert(decreases_to!(n => n.children));
            assert(decreases_to!(n.children => n.children[i]));
        }
        match find_named(n.children[i], name, ns) {
            Some(f) => Some(f),
            None => find_named_in(n, name, ns, i + 1),
        }
    } else {
        None
    }
}

/// Whether an element has the local name `name` and, where `ns` is given, the
/// namespace `ns`.
pub fn is_named(e: &XmlElement, name: &str, ns: Option<&str>) -> (b: bool)
    ensures
        b == named(e@, name@, opt_str(ns)),
{
    if !eq_str(&e.name, name) {
        return false;
    }
    match ns {
        Some(u) => eq_str(&e.namespace, u),
        None => true,
    }
}

/// The position of the first child named so.
pub fn child_index(e: &XmlElement, name: &str, ns: Option<&str>) -> (r: Option<usize>)
    ensures
        r is Some <==> first_named_from(e@.children, name@, opt_str(ns), 0) is Some,
        r matches Some(k) ==> first_named_from(e@.children, name@, opt_str(ns), 0) == Some(k as int)
            && k < e.children@.len(),
{
    proof {
        lemma_children_view(*e);
    }
    let mut i: usize = 0;
    while i < e.children.len()
        invariant
            i <= e.children@.len(),
            e@.children == element_views(e.children@),
            first_named_from(e@.children, name@, opt_str(ns), 0) == first_named_from(
                e@.children,
                name@,
                opt_str(ns),
                i as int,
            ),
        decreases e.children.len() - i,
    {
        if is_named(&e.children[i], name, ns) {
            return Some(i);
        }
        i = i + 1;
    }
    None
}

/// The first child named so.
pub fn child<'a>(e: &'a XmlElement, name: &str, ns: Option<&str>) -> (r: Option<&'a XmlElement>)
    ensures
        match child_named(e@, name@, opt_str(ns)) {
            Some(c) => r matches Some(x) && x@ == c,
            None => r is None,
        },
{
    proof {
        lemma_children_view(*e);
    }
    match child_index(e, name, ns) {
        Some(k) => Some(&e.children[k]),
        None => None,
    }
}

/// The text of an element, or the empty text.
pub fn text_of(e: &XmlElement) -> (r: Vec<char>)
    ensures
        r@ == text_or_empty(e@),
{
    match &e.text {
        Some(t) => crate::text::to_vec(t),
        None => Vec::new(),
    }
}

/// The text of the first child named so, or the empty text.
pub fn child_text_of(e: &XmlElement, name: &str, ns: Option<&str>) -> (r: Vec<char>)
    ensures
        r@ == child_text(e@, name@, opt_str(ns)),
{
    match child(e, name, ns) {
        Some(c) => text_of(c),
        None => Vec::new(),
    }
}

fn attribute_lookup(e: &XmlElement, name: &str, ns: Option<&str>) -> (r: Option<Vec<char>>)
    ensures
        opt_view(r) == attribute_from(e@.attributes, name@, opt_str(ns), 0),
{
    let ghost a = e@.attributes;
    assert(a == attribute_views(e.attributes@));
    let mut i: usize = 0;
    while i < e.attributes.len()
        invariant
            i <= e.attributes@.len(),
            a == attribute_views(e.attributes@),
            attribute_from(a, name@, opt_str(ns), 0) == attribute_from(a, name@, opt_str(ns), i as int),
        decreases e.attributes.len() - i,
    {
        let x = &e.attributes[i];
        let ns_ok = match ns {
            Some(u) => eq_str(&x.namespace, u),
            None => true,
        };
        if eq_str(&x.name, name) && ns_ok {
            return Some(crate::text::to_vec(&x.value));
        }
        i = i + 1;
    }
    None
}

/// The value of the attribute `name` without a namespace.
pub fn attribute_value(e: &XmlElement, name: &str) -> (r: Option<Vec<char>>)
    ensures
        opt_view(r) == attribute(e@, name@),
{
    proof {
        reveal_strlit("");
    }
    assert(""@ =~= Seq::<char>::empty());
    attribute_lookup(e, name, Some(""))
}

/// The value of the first attribute with the local name `name`.
pub fn attribute_local(e: &XmlElement, name: &str) -> (r: Option<Vec<char>>)
    ensures
        opt_view(r) == attribute_by_local_name(e@, name@),
{
    attribute_lookup(e, name, None)
}

/// The first element named so at or under `e`, in document order.
pub fn find_element<'a>(e: &'a XmlElement, name: &str, ns: Option<&str>) -> (r: Option<&'a XmlElement>)
    ensures
        match find_named(e@, name@, opt_str(ns)) {
            Some(f) => r matches Some(x) && x@ == f,
            None => r is None,
        },
    decreases e,
{
    if is_named(e, name, ns) {
        return Some(e);
    }
    proof {
        lemma_children_view(*e);
    }
    let mut i: usize = 0;
    while i < e.children.len()
        invariant
            i <= e.children@.len(),
            e@.children == element_views(e.children@),
            !named(e@, name@, opt_str(ns)),
            find_named(e@, name@, opt_str(ns)) == find_named_in(e@, name@, opt_str(ns), i as int),
        decreases e.children.len() - i,
    {
        proof {
            assert(decreases_to!(*e => (*e).children));
            assert(decreases_to!((*e).children => (*e).children@));
            assert(decreases_to!((*e).children@ => (*e).children@[i as int]));
        }
        match find_element(&e.children[i], name, ns) {
            Some(f) => {
                return Some(f);
            },
            None => {},
        }
        i = i + 1;
    }
    None
}

/// The text without the byte order marks it starts with.
pub fn strip_boms(t: &[char]) -> (r: Vec<char>)
    ensures
        r@ == crate::skd_apply::without_boms(t@),
{
    let mut k: usize = 0;
    assert(t@.skip(0) =~= t@);
    while k < t.len() && t[k] == '\u{feff}'
        invariant
            k <= t@.len(),
            crate::skd_apply::without_boms(t@) == crate::skd_apply::without_boms(t@.skip(k as int)),
        decreases t.len() - k,
    {
        assert(t@.skip(k as int).drop_first() =~= t@.skip(k + 1));
        k = k + 1;
    }
    let r = crate::text::slice_to_vec(t, k, t.len());
    assert(r@ =~= t@.skip(k as int));
    r
}

/// The children named so, in order.
pub fn children_with<'a>(e: &'a XmlElement, name: &str, ns: Option<&str>) -> (r: Vec<&'a XmlElement>)
    ensures
        r@.len() == children_named(e@, name@, opt_str(ns)).len(),
        forall|k: int| 0 <= k < r@.len() ==> (#[trigger] r@[k])@ == children_named(e@, name@, opt_str(ns))[k],
{
    proof {
        lemma_children_view(*e);
    }
    let ghost p = named_pred(name@, opt_str(ns));
    proof {
        crate::text::lemma_filter_empty(e@.children, p);
    }
    let mut r: Vec<&'a XmlElement> = Vec::new();
    let mut i: usize = 0;
    while i < e.children.len()
        invariant
            i <= e.children@.len(),
            e@.children == element_views(e.children@),
            p == named_pred(name@, opt_str(ns)),
            r@.len() == e@.children.take(i as int).filter(p).len(),
            forall|k: int| 0 <= k < r@.len() ==> (#[trigger] r@[k])@ == e@.children.take(i as int).filter(p)[k],
        decreases e.children.len() - i,
    {
        proof {
            crate::text::lemma_filter_take_step(e@.children, p, i as int);
        }
        if is_named(&e.children[i], name, ns) {
            r.push(&e.children[i]);
        }
        i = i + 1;
    }
    assert(e@.children.take(i as int) =~= e@.children);
    r
}

} // verus!
