//! The overview of a role's rights file: its properties, the rights it grants
//! and denies grouped by object kind, its restrictions and templates, in pages
//! of lines.
use vstd::prelude::*;
use crate::numbers::{int_text, nat_text};
use crate::skd_apply::without_boms;
use crate::text::{chars_of, first_match, join, push_chars, push_str, views};
use crate::xml::{XmlElement, XmlNode, attribute, child_text, children_named, find_named, named, text_or_empty, xml_tree};

verus! {

/// The namespace of rights files.
pub open spec fn roles_ns() -> Option<Seq<char>> {
    Some("http://v8.1c.ru/8.2/roles"@)
}

/// The text of the last of `children` named so, or the empty text.
pub open spec fn last_text(children: Seq<XmlNode>, name: Seq<char>, ns: Option<Seq<char>>) -> Seq<char>
    decreases children.len(),
{
    if children.len() == 0 {
        Seq::empty()
    } else if named(children.last(), name, ns) {
        text_or_empty(children.last())
    } else {
        last_text(children.drop_last(), name, ns)
    }
}

/// A right as the overview reads it: its name, its value, and whether it has
/// a restriction.
pub open spec fn right_entry(r: XmlNode) -> (Seq<char>, Seq<char>, bool) {
    (
        last_text(r.children, "name"@, None),
        last_text(r.children, "value"@, None),
        children_named(r, "restrictionByCondition"@, None).len() > 0,
    )
}

/// The rights of an object with a name and a value, in order.
pub open spec fn object_rights(rights: Seq<XmlNode>) -> Seq<(Seq<char>, Seq<char>, bool)>
    decreases rights.len(),
{
    if rights.len() == 0 {
        Seq::empty()
    } else {
        let e = right_entry(rights.last());
        if e.0.len() > 0 && e.1.len() > 0 {
            object_rights(rights.drop_last()).push(e)
        } else {
            object_rights(rights.drop_last())
        }
    }
}

/// The objects of one kind with their rights, each right by name and whether
/// it is restricted.
pub type ObjectRights = Seq<(Seq<char>, Seq<(Seq<char>, bool)>)>;

/// Groups of objects by kind, in the order the kinds first came.
pub type RightGroups = Seq<(Seq<char>, ObjectRights)>;

/// The position of the first entry keyed `key`, from the `i`-th on.
pub open spec fn object_index(objects: ObjectRights, key: Seq<char>, i: int) -> Option<int>
    decreases objects.len() - i,
{
    if i < 0 || i >= objects.len() {
        None
    } else if objects[i].0 == key {
        Some(i)
    } else {
        object_index(objects, key, i + 1)
    }
}

pub open spec fn group_index(groups: RightGroups, key: Seq<char>, i: int) -> Option<int>
    decreases groups.len() - i,
{
    if i < 0 || i >= groups.len() {
        None
    } else if groups[i].0 == key {
        Some(i)
    } else {
        group_index(groups, key, i + 1)
    }
}

/// A right added under its object, and the object under its kind, each made
/// where it is not there yet.
pub open spec fn add_object_right(objects: ObjectRights, short: Seq<char>, right: (Seq<char>, bool)) -> ObjectRights {
    match object_index(objects, short, 0) {
        Some(i) => objects.update(i, (short, objects[i].1.push(right))),
        None => objects.push((short, seq![right])),
    }
}

pub open spec fn add_group_right(groups: RightGroups, kind: Seq<char>, short: Seq<char>, right: (Seq<char>, bool)) -> RightGroups {
    match group_index(groups, kind, 0) {
        Some(i) => groups.update(i, (kind, add_object_right(groups[i].1, short, right))),
        None => groups.push((kind, seq![(short, seq![right])])),
    }
}

/// What the scan of objects keeps: the allowed and the denied rights, the
/// restricted rights, and the counts of allowed and denied rights.
pub struct InfoScan {
    pub allowed: RightGroups,
    pub denied: RightGroups,
    pub rls: Seq<Seq<char>>,
    pub total_allowed: nat,
    pub total_denied: nat,
}

/// The scan of the rights of one object from kind and short name.
pub open spec fn scan_rights(st: InfoScan, kind: Seq<char>, short: Seq<char>, rights: Seq<(Seq<char>, Seq<char>, bool)>) -> InfoScan
    decreases rights.len(),
{
    if rights.len() == 0 {
        st
    } else {
        let before = scan_rights(st, kind, short, rights.drop_last());
        let r = rights.last();
        if r.1 == "true"@ {
            InfoScan {
                allowed: add_group_right(before.allowed, kind, short, (r.0, r.2)),
                rls: if r.2 {
                    before.rls.push(kind + "."@ + short + " ("@ + r.0 + ")"@)
                } else {
                    before.rls
                },
                total_allowed: before.total_allowed + 1,
                ..before
            }
        } else {
            InfoScan {
                denied: add_group_right(before.denied, kind, short, (r.0, false)),
                total_denied: before.total_denied + 1,
                ..before
            }
        }
    }
}

/// The scan of one object: skipped without a name, a right, or a dot in its
/// name.
pub open spec fn scan_object(st: InfoScan, o: XmlNode) -> InfoScan {
    let name = last_text(o.children, "name"@, roles_ns());
    let rights = object_rights(children_named(o, "right"@, roles_ns()));
    match first_match(name, "."@, 0, name.len() as int) {
        Some(d) => if rights.len() > 0 {
            scan_rights(st, name.take(d), name.skip(d + 1), rights)
        } else {
            st
        },
        None => st,
    }
}

pub open spec fn scan_objects(objects: Seq<XmlNode>) -> InfoScan
    decreases objects.len(),
{
    if objects.len() == 0 {
        InfoScan { allowed: Seq::empty(), denied: Seq::empty(), rls: Seq::empty(), total_allowed: 0, total_denied: 0 }
    } else {
        scan_object(scan_objects(objects.drop_last()), objects.last())
    }
}

/// A template name without its parameter list.
pub open spec fn template_name(t: Seq<char>) -> Seq<char> {
    match first_match(t, "("@, 0, t.len() as int) {
        Some(p) => if p > 0 {
            t.take(p)
        } else {
            t
        },
        None => t,
    }
}

/// The names of the templates, in order.
pub open spec fn template_names(ts: Seq<XmlNode>) -> Seq<Seq<char>>
    decreases ts.len(),
{
    if ts.len() == 0 {
        Seq::empty()
    } else {
        template_names(ts.drop_last()) + children_named(ts.last(), "name"@, None).map_values(
            |n: XmlNode| template_name(text_or_empty(n)),
        )
    }
}

/// The rights of one object on a line.
pub open spec fn rights_text(rights: Seq<(Seq<char>, bool)>) -> Seq<char> {
    join(rights.map_values(|r: (Seq<char>, bool)| if r.1 { r.0 + " [RLS]"@ } else { r.0 }), ", "@)
}

/// The lines of the objects of one kind.
pub open spec fn object_lines(objects: ObjectRights) -> Seq<Seq<char>> {
    objects.map_values(|o: (Seq<char>, Seq<(Seq<char>, bool)>)| "    "@ + o.0 + ": "@ + rights_text(o.1))
}

/// The lines of groups of rights: each kind with its count, its objects, and
/// an empty line.
pub open spec fn group_lines(groups: RightGroups) -> Seq<Seq<char>>
    decreases groups.len(),
{
    if groups.len() == 0 {
        Seq::empty()
    } else {
        let g = groups.last();
        group_lines(groups.drop_last()) + seq!["  "@ + g.0 + " ("@ + nat_text(g.1.len()) + "):"@] + object_lines(g.1)
            + seq![Seq::<char>::empty()]
    }
}

/// The first lines of the overview: the role, its support, its properties.
pub open spec fn head_lines(root: XmlNode, name: Seq<char>, synonym: Seq<char>, support: Seq<char>) -> Seq<Seq<char>> {
    let or_empty = |o: Option<Seq<char>>|
        match o {
            Some(v) => v,
            None => Seq::<char>::empty(),
        };
    seq![
        "=== Role: "@ + name + (if synonym.len() > 0 {
            " --- \""@ + synonym + "\""@
        } else {
            Seq::empty()
        }) + " ==="@,
        "Поддержка: "@ + support,
        Seq::empty(),
        "Properties: setForNewObjects="@ + or_empty(attribute(root, "setForNewObjects"@)) + ", setForAttributesByDefault="@
            + or_empty(attribute(root, "setForAttributesByDefault"@)) + ", independentRightsOfChildObjects="@ + or_empty(
            attribute(root, "independentRightsOfChildObjects"@),
        ),
        Seq::empty(),
    ]
}

/// The lines of the allowed and the denied rights.
pub open spec fn rights_lines(scan: InfoScan, show_denied: bool) -> Seq<Seq<char>> {
    (if scan.allowed.len() > 0 {
        seq!["Allowed rights:"@, Seq::empty()] + group_lines(scan.allowed)
    } else {
        seq!["(no allowed rights)"@, Seq::empty()]
    }) + (if show_denied && scan.denied.len() > 0 {
        seq!["Denied rights:"@, Seq::empty()] + group_lines(scan.denied)
    } else if scan.total_denied > 0 {
        seq!["Denied: "@ + nat_text(scan.total_denied) + " rights (use -ShowDenied to list)"@, Seq::empty()]
    } else {
        Seq::empty()
    })
}

/// The last lines: restrictions, templates and totals.
pub open spec fn tail_lines(scan: InfoScan, templates: Seq<Seq<char>>) -> Seq<Seq<char>> {
    (if scan.rls.len() > 0 {
        seq!["RLS: "@ + nat_text(scan.rls.len()) + " restrictions"@]
    } else {
        Seq::empty()
    }) + (if templates.len() > 0 {
        seq!["Templates: "@ + join(templates, ", "@)]
    } else {
        Seq::empty()
    }) + seq![
        Seq::empty(),
        "---"@,
        "Total: "@ + nat_text(scan.total_allowed) + " allowed, "@ + nat_text(scan.total_denied) + " denied"@,
    ]
}

/// All lines of the overview of a rights file, before paging.
pub open spec fn info_lines(root: XmlNode, name: Seq<char>, synonym: Seq<char>, support: Seq<char>, show_denied: bool) -> Seq<Seq<char>> {
    let scan = scan_objects(children_named(root, "object"@, roles_ns()));
    let templates = template_names(children_named(root, "restrictionTemplate"@, roles_ns()));
    head_lines(root, name, synonym, support) + rights_lines(scan, show_denied) + tail_lines(scan, templates)
}

/// One page of lines: from `offset` on where it is positive (a note where it
/// is past the end), at most `limit` of them where it is positive, with a note
/// on how to go on.
pub open spec fn page(lines: Seq<Seq<char>>, offset: int, limit: int) -> Seq<Seq<char>> {
    let total = lines.len() as int;
    if offset > 0 && offset >= total {
        seq!["[INFO] Offset "@ + int_text(offset) + " exceeds total lines ("@ + int_text(total) + "). Nothing to show."@]
    } else {
        let out = if offset > 0 {
            lines.skip(offset)
        } else {
            lines
        };
        if limit > 0 && out.len() > limit {
            out.take(limit) + seq![
                Seq::empty(),
                "[TRUNCATED] Shown "@ + int_text(limit) + " of "@ + int_text(total) + " lines. Use -Offset "@ + int_text(
                    offset + limit,
                ) + " to continue."@,
            ]
        } else {
            out
        }
    }
}

/// The overview of a rights file given as text: the parser's message for a
/// text that is not XML, else a page of its lines.
pub open spec fn role_info_result(
    rights: Seq<char>,
    name: Seq<char>,
    synonym: Seq<char>,
    support: Seq<char>,
    show_denied: bool,
    offset: int,
    limit: int,
) -> Result<Seq<Seq<char>>, Seq<char>> {
    match xml_tree(without_boms(rights)) {
        Err(e) => Err(e),
        Ok(root) => Ok(page(info_lines(root, name, synonym, support, show_denied), offset, limit)),
    }
}

fn last_text_of(e: &XmlElement, name: &str, ns: Option<&str>) -> (r: Vec<char>)
    ensures
        r@ == last_text(e@.children, name@, crate::xml::opt_str(ns)),
{
    proof {
        crate::xml::lemma_children_view(*e);
    }
    let ghost cs = e@.children;
    let mut r: Vec<char> = Vec::new();
    let mut i: usize = 0;
    assert(cs.take(0) =~= Seq::<XmlNode>::empty());
    while i < e.children.len()
        invariant
            i <= e.children@.len(),
            cs == e@.children,
            cs == crate::xml::element_views(e.children@),
            r@ == last_text(cs.take(i as int), name@, crate::xml::opt_str(ns)),
        decreases e.children.len() - i,
    {
        assert(cs.take(i + 1).drop_last() =~= cs.take(i as int));
        assert(cs.take(i + 1).last() == e.children@[i as int]@);
        if crate::xml::is_named(&e.children[i], name, ns) {
            r = crate::xml::text_of(&e.children[i]);
        }
        i = i + 1;
    }
    assert(cs.take(i as int) =~= cs);
    r
}

/// The exec form of object rights.
pub open spec fn entries_view(v: Seq<(Vec<char>, Vec<char>, bool)>) -> Seq<(Seq<char>, Seq<char>, bool)> {
    v.map_values(|e: (Vec<char>, Vec<char>, bool)| (e.0@, e.1@, e.2))
}

fn read_object_rights(o: &XmlElement) -> (r: Vec<(Vec<char>, Vec<char>, bool)>)
    ensures
        entries_view(r@) == object_rights(children_named(o@, "right"@, roles_ns())),
{
    let rights = crate::xml::children_with(o, "right", Some("http://v8.1c.ru/8.2/roles"));
    let ghost rs = children_named(o@, "right"@, roles_ns());
    let mut r: Vec<(Vec<char>, Vec<char>, bool)> = Vec::new();
    let mut i: usize = 0;
    assert(rs.take(0) =~= Seq::<XmlNode>::empty());
    assert(entries_view(r@) =~= Seq::<(Seq<char>, Seq<char>, bool)>::empty());
    while i < rights.len()
        invariant
            i <= rights@.len(),
            rights@.len() == rs.len(),
            forall|j: int| 0 <= j < rights@.len() ==> (#[trigger] rights@[j])@ == rs[j],
            entries_view(r@) == object_rights(rs.take(i as int)),
        decreases rights.len() - i,
    {
        let x = rights[i];
        assert(rs.take(i + 1).drop_last() =~= rs.take(i as int));
        assert(rs.take(i + 1).last() == x@);
        let n = last_text_of(x, "name", None);
        let v = last_text_of(x, "value", None);
        let rls = crate::xml::children_with(x, "restrictionByCondition", None).len() > 0;
        if n.len() > 0 && v.len() > 0 {
            let ghost before = r@;
            r.push((n, v, rls));
            assert(entries_view(r@) =~= entries_view(before).push((n@, v@, rls)));
        }
        i = i + 1;
    }
    assert(rs.take(i as int) =~= rs);
    r
}

/// The exec form of groups of rights.
pub open spec fn rights_view(v: Seq<(Vec<char>, bool)>) -> Seq<(Seq<char>, bool)> {
    v.map_values(|r: (Vec<char>, bool)| (r.0@, r.1))
}

pub open spec fn objects_view(v: Seq<(Vec<char>, Vec<(Vec<char>, bool)>)>) -> ObjectRights {
    v.map_values(|o: (Vec<char>, Vec<(Vec<char>, bool)>)| (o.0@, rights_view(o.1@)))
}

pub open spec fn groups_view(v: Seq<(Vec<char>, Vec<(Vec<char>, Vec<(Vec<char>, bool)>)>)>) -> RightGroups {
    v.map_values(|g: (Vec<char>, Vec<(Vec<char>, Vec<(Vec<char>, bool)>)>)| (g.0@, objects_view(g.1@)))
}

fn add_object_right_exec(objects: &mut Vec<(Vec<char>, Vec<(Vec<char>, bool)>)>, short: &[char], right: (Vec<char>, bool))
    ensures
        objects_view(final(objects)@) == add_object_right(objects_view(old(objects)@), short@, (right.0@, right.1)),
{
    let ghost ov = objects_view(objects@);
    let mut i: usize = 0;
    while i < objects.len()
        invariant
            i <= objects@.len(),
            ov == objects_view(objects@),
            ov == objects_view(old(objects)@),
            object_index(ov, short@, 0) == object_index(ov, short@, i as int),
        decreases objects.len() - i,
    {
        if crate::text::eq_chars(&objects[i].0, short) {
            assert(ov[i as int].0 == short@);
            assert(object_index(ov, short@, i as int) == Some(i as int));
            let (k, mut rs) = objects.remove(i);
            let ghost before = rights_view(rs@);
            let ghost rv = (right.0@, right.1);
            rs.push(right);
            assert(rights_view(rs@) =~= before.push(rv));
            let ghost old_objects = objects@;
            objects.insert(i, (k, rs));
            assert(objects_view(objects@) =~= ov.update(i as int, (short@, ov[i as int].1.push(rv))));
            assert(add_object_right(ov, short@, rv) == ov.update(i as int, (short@, ov[i as int].1.push(rv))));
            assert(ov == objects_view(old(objects)@));
            assert(objects_view(objects@) == add_object_right(ov, short@, rv));
            return;
        }
        i = i + 1;
    }
    let ghost rv = (right.0@, right.1);
    let mut one: Vec<(Vec<char>, bool)> = Vec::new();
    one.push(right);
    assert(rights_view(one@) =~= seq![rv]);
    objects.push((crate::text::to_vec(short), one));
    assert(objects_view(objects@) =~= ov.push((short@, seq![rv])));
}

fn add_group_right_exec(
    groups: &mut Vec<(Vec<char>, Vec<(Vec<char>, Vec<(Vec<char>, bool)>)>)>,
    kind: &[char],
    short: &[char],
    right: (Vec<char>, bool),
)
    ensures
        groups_view(final(groups)@) == add_group_right(groups_view(old(groups)@), kind@, short@, (right.0@, right.1)),
{
    let ghost gv = groups_view(groups@);
    let ghost rv = (right.0@, right.1);
    let mut i: usize = 0;
    while i < groups.len()
        invariant
            i <= groups@.len(),
            gv == groups_view(groups@),
            gv == groups_view(old(groups)@),
            rv == (right.0@, right.1),
            group_index(gv, kind@, 0) == group_index(gv, kind@, i as int),
        decreases groups.len() - i,
    {
        if crate::text::eq_chars(&groups[i].0, kind) {
            assert(gv[i as int].0 == kind@);
            assert(group_index(gv, kind@, i as int) == Some(i as int));
            let ghost old_groups = groups@;
            let (k, mut objs) = groups.remove(i);
            assert(k@ == kind@);
            assert(objects_view(objs@) == gv[i as int].1);
            let ghost before_objs = objects_view(objs@);
            add_object_right_exec(&mut objs, short, right);
            assert(objects_view(objs@) == add_object_right(before_objs, short@, rv));
            let ghost new_entry = (k@, objects_view(objs@));
            groups.insert(i, (k, objs));
            assert(groups_view(groups@)[i as int] == new_entry);
            assert(groups_view(groups@) =~= gv.update(i as int, (kind@, add_object_right(gv[i as int].1, short@, rv))));
            return;
        }
        i = i + 1;
    }
    let mut one: Vec<(Vec<char>, Vec<(Vec<char>, bool)>)> = Vec::new();
    add_object_right_exec(&mut one, short, right);
    assert(objects_view(Seq::<(Vec<char>, Vec<(Vec<char>, bool)>)>::empty()) =~= Seq::<(Seq<char>, Seq<(Seq<char>, bool)>)>::empty());
    assert(objects_view(one@) =~= seq![(short@, seq![rv])]);
    groups.push((crate::text::to_vec(kind), one));
    assert(groups_view(groups@) =~= gv.push((kind@, seq![(short@, seq![rv])])));
}

/// The scan of objects as the code keeps it.
pub struct ScanState {
    pub allowed: Vec<(Vec<char>, Vec<(Vec<char>, Vec<(Vec<char>, bool)>)>)>,
    pub denied: Vec<(Vec<char>, Vec<(Vec<char>, Vec<(Vec<char>, bool)>)>)>,
    pub rls: Vec<Vec<char>>,
    pub total_allowed: u128,
    pub total_denied: u128,
}

impl ScanState {
    pub open spec fn scan(&self) -> InfoScan {
        InfoScan {
            allowed: groups_view(self.allowed@),
            denied: groups_view(self.denied@),
            rls: views(self.rls@),
            total_allowed: self.total_allowed as nat,
            total_denied: self.total_denied as nat,
        }
    }
}

fn scan_rights_exec(st: &mut ScanState, kind: &[char], short: &[char], rights: &Vec<(Vec<char>, Vec<char>, bool)>)
    requires
        old(st).total_allowed + old(st).total_denied + rights@.len() < u128::MAX,
    ensures
        final(st).scan() == scan_rights(old(st).scan(), kind@, short@, entries_view(rights@)),
        final(st).total_allowed + final(st).total_denied == old(st).total_allowed + old(st).total_denied + rights@.len(),
{
    let ghost s0 = st.scan();
    let ghost es = entries_view(rights@);
    let mut j: usize = 0;
    assert(es.take(0) =~= Seq::<(Seq<char>, Seq<char>, bool)>::empty());
    while j < rights.len()
        invariant
            j <= rights@.len(),
            es == entries_view(rights@),
            s0 == old(st).scan(),
            st.scan() == scan_rights(s0, kind@, short@, es.take(j as int)),
            st.total_allowed + st.total_denied == old(st).total_allowed + old(st).total_denied + j,
            old(st).total_allowed + old(st).total_denied + rights@.len() < u128::MAX,
        decreases rights.len() - j,
    {
        assert(es.take(j + 1).drop_last() =~= es.take(j as int));
        assert(es.take(j + 1).last() == es[j as int]);
        let (name, value, rls) = (&rights[j].0, &rights[j].1, rights[j].2);
        if crate::text::eq_str(value, "true") {
            st.total_allowed = st.total_allowed + 1;
            if rls {
                let mut m = crate::text::to_vec(kind);
                push_str(&mut m, ".");
                push_chars(&mut m, short);
                push_str(&mut m, " (");
                push_chars(&mut m, name);
                push_str(&mut m, ")");
                crate::skd_fragments::push_line(&mut st.rls, m);
            }
            add_group_right_exec(&mut st.allowed, kind, short, (crate::text::to_vec(name), rls));
        } else {
            st.total_denied = st.total_denied + 1;
            add_group_right_exec(&mut st.denied, kind, short, (crate::text::to_vec(name), false));
        }
        j = j + 1;
    }
    assert(es.take(j as int) =~= es);
}

proof fn lemma_count_room(k: int, n: int)
    requires
        0 <= k < 0x1_0000_0000_0000_0000,
        0 <= n < 0x1_0000_0000_0000_0000,
    ensures
        (k + 1) * 0x1_0000_0000_0000_0000 <= 0x1_0000_0000_0000_0000 * 0x1_0000_0000_0000_0000,
        k * 0x1_0000_0000_0000_0000 + n < (k + 1) * 0x1_0000_0000_0000_0000,
{
    assert((k + 1) * 0x1_0000_0000_0000_0000 <= 0x1_0000_0000_0000_0000 * 0x1_0000_0000_0000_0000) by (nonlinear_arith)
        requires
            0 <= k < 0x1_0000_0000_0000_0000,
    ;
    assert(k * 0x1_0000_0000_0000_0000 + n < (k + 1) * 0x1_0000_0000_0000_0000) by (nonlinear_arith)
        requires
            0 <= n < 0x1_0000_0000_0000_0000,
    ;
}

fn scan_objects_exec(root: &XmlElement) -> (r: ScanState)
    ensures
        r.scan() == scan_objects(children_named(root@, "object"@, roles_ns())),
{
    let objects = crate::xml::children_with(root, "object", Some("http://v8.1c.ru/8.2/roles"));
    let ghost os = children_named(root@, "object"@, roles_ns());
    let mut st = ScanState { allowed: Vec::new(), denied: Vec::new(), rls: Vec::new(), total_allowed: 0, total_denied: 0 };
    assert(groups_view(st.allowed@) =~= Seq::<(Seq<char>, ObjectRights)>::empty());
    assert(views(st.rls@) =~= Seq::<Seq<char>>::empty());
    assert(os.take(0) =~= Seq::<XmlNode>::empty());
    let mut k: usize = 0;
    while k < objects.len()
        invariant
            k <= objects@.len(),
            objects@.len() == os.len(),
            forall|j: int| 0 <= j < objects@.len() ==> (#[trigger] objects@[j])@ == os[j],
            st.scan() == scan_objects(os.take(k as int)),
            st.total_allowed + st.total_denied <= k * 0x1_0000_0000_0000_0000,
        decreases objects.len() - k,
    {
        let o = objects[k];
        assert(os.take(k + 1).drop_last() =~= os.take(k as int));
        assert(os.take(k + 1).last() == o@);
        let name = last_text_of(o, "name", Some("http://v8.1c.ru/8.2/roles"));
        let rights = read_object_rights(o);
        proof {
            lemma_count_room(k as int, rights.len() as int);
        }
        match crate::text::find_str(&name, ".", 0, name.len()) {
            Some(d) => {
                proof {
                    reveal_strlit(".");
                    crate::text::lemma_first_match_bounds(name@, "."@, 0, name@.len() as int);
                }
                if rights.len() > 0 {
                    let kind = crate::text::slice_to_vec(&name, 0, d);
                    let short = crate::text::slice_to_vec(&name, d + 1, name.len());
                    assert(kind@ =~= name@.take(d as int));
                    assert(short@ =~= name@.skip(d + 1));
                    scan_rights_exec(&mut st, &kind, &short, &rights);
                }
            },
            None => {},
        }
        k = k + 1;
    }
    assert(os.take(k as int) =~= os);
    st
}

fn template_names_exec(root: &XmlElement) -> (r: Vec<Vec<char>>)
    ensures
        views(r@) == template_names(children_named(root@, "restrictionTemplate"@, roles_ns())),
{
    let ts = crate::xml::children_with(root, "restrictionTemplate", Some("http://v8.1c.ru/8.2/roles"));
    let ghost tv = children_named(root@, "restrictionTemplate"@, roles_ns());
    let mut r: Vec<Vec<char>> = Vec::new();
    let mut k: usize = 0;
    assert(tv.take(0) =~= Seq::<XmlNode>::empty());
    assert(views(r@) =~= Seq::<Seq<char>>::empty());
    while k < ts.len()
        invariant
            k <= ts@.len(),
            ts@.len() == tv.len(),
            forall|j: int| 0 <= j < ts@.len() ==> (#[trigger] ts@[j])@ == tv[j],
            views(r@) == template_names(tv.take(k as int)),
        decreases ts.len() - k,
    {
        let t = ts[k];
        assert(tv.take(k + 1).drop_last() =~= tv.take(k as int));
        assert(tv.take(k + 1).last() == t@);
        let names = crate::xml::children_with(t, "name", None);
        let ghost nv = children_named(t@, "name"@, None);
        let ghost start = views(r@);
        let mut j: usize = 0;
        while j < names.len()
            invariant
                j <= names@.len(),
                names@.len() == nv.len(),
                forall|i: int| 0 <= i < names@.len() ==> (#[trigger] names@[i])@ == nv[i],
                views(r@) == start + nv.take(j as int).map_values(|n: XmlNode| template_name(text_or_empty(n))),
            decreases names.len() - j,
        {
            let full = crate::xml::text_of(names[j]);
            proof {
                reveal_strlit("(");
                crate::text::lemma_first_match_bounds(full@, "("@, 0, full@.len() as int);
            }
            let short = match crate::text::find_str(&full, "(", 0, full.len()) {
                Some(p) => if p > 0 {
                    crate::text::slice_to_vec(&full, 0, p)
                } else {
                    full
                },
                None => full,
            };
            assert(short@ =~= template_name(text_or_empty(nv[j as int])));
            let ghost before = views(r@);
            crate::skd_fragments::push_line(&mut r, short);
            assert(nv.take(j + 1).map_values(|n: XmlNode| template_name(text_or_empty(n))) =~= nv.take(j as int).map_values(
                |n: XmlNode| template_name(text_or_empty(n)),
            ).push(template_name(text_or_empty(nv[j as int]))));
            j = j + 1;
        }
        assert(nv.take(j as int) =~= nv);
        assert(views(r@) =~= template_names(tv.take(k + 1)));
        k = k + 1;
    }
    assert(tv.take(k as int) =~= tv);
    r
}

fn rights_text_exec(rights: &Vec<(Vec<char>, bool)>) -> (r: Vec<char>)
    ensures
        r@ == rights_text(rights_view(rights@)),
{
    let ghost rv = rights_view(rights@);
    let ghost f = |r: (Seq<char>, bool)| if r.1 { r.0 + " [RLS]"@ } else { r.0 };
    let mut pieces: Vec<Vec<char>> = Vec::new();
    let mut i: usize = 0;
    while i < rights.len()
        invariant
            i <= rights@.len(),
            rv == rights_view(rights@),
            f == (|r: (Seq<char>, bool)| if r.1 { r.0 + " [RLS]"@ } else { r.0 }),
            views(pieces@) == rv.take(i as int).map_values(f),
        decreases rights.len() - i,
    {
        let mut p = crate::text::to_vec(&rights[i].0);
        if rights[i].1 {
            push_str(&mut p, " [RLS]");
        }
        let ghost before = views(pieces@);
        crate::skd_fragments::push_line(&mut pieces, p);
        assert(rv.take(i + 1).map_values(f) =~= rv.take(i as int).map_values(f).push(f(rv[i as int])));
        i = i + 1;
    }
    assert(rv.take(i as int) =~= rv);
    crate::text::join_str(&pieces, ", ")
}

fn push_group_lines(lines: &mut Vec<Vec<char>>, groups: &Vec<(Vec<char>, Vec<(Vec<char>, Vec<(Vec<char>, bool)>)>)>)
    ensures
        views(final(lines)@) == views(old(lines)@) + group_lines(groups_view(groups@)),
{
    let ghost gv = groups_view(groups@);
    let ghost start = views(lines@);
    let mut k: usize = 0;
    assert(gv.take(0) =~= Seq::<(Seq<char>, ObjectRights)>::empty());
    assert(start =~= start + group_lines(gv.take(0)));
    while k < groups.len()
        invariant
            k <= groups@.len(),
            gv == groups_view(groups@),
            start == views(old(lines)@),
            views(lines@) == start + group_lines(gv.take(k as int)),
        decreases groups.len() - k,
    {
        assert(gv.take(k + 1).drop_last() =~= gv.take(k as int));
        let g = &groups[k];
        let ghost gk = gv[k as int];
        assert(gv.take(k + 1).last() == gk);
        let ghost ov = objects_view(g.1@);
        let mut head = chars_of("  ");
        push_chars(&mut head, &g.0);
        push_str(&mut head, " (");
        push_chars(&mut head, &crate::numbers::usize_text(g.1.len()));
        push_str(&mut head, "):");
        let ghost mid = views(lines@);
        crate::skd_fragments::push_line(lines, head);
        let mut j: usize = 0;
        let ghost h = views(lines@);
        assert(ov.take(0).map_values(|o: (Seq<char>, Seq<(Seq<char>, bool)>)| "    "@ + o.0 + ": "@ + rights_text(o.1)) =~= Seq::<Seq<char>>::empty());
        while j < g.1.len()
            invariant
                j <= g.1@.len(),
                ov == objects_view(g.1@),
                views(lines@) == h + object_lines(ov.take(j as int)),
            decreases g.1.len() - j,
        {
            let mut l = chars_of("    ");
            push_chars(&mut l, &g.1[j].0);
            push_str(&mut l, ": ");
            push_chars(&mut l, &rights_text_exec(&g.1[j].1));
            crate::skd_fragments::push_line(lines, l);
            assert(object_lines(ov.take(j + 1)) =~= object_lines(ov.take(j as int)).push("    "@ + ov[j as int].0 + ": "@ + rights_text(ov[j as int].1)));
            j = j + 1;
        }
        assert(ov.take(j as int) =~= ov);
        crate::skd_fragments::push_line(lines, Vec::new());
        proof {
            reveal_strlit("");
        }
        assert(views(lines@) =~= start + group_lines(gv.take(k + 1)));
        k = k + 1;
    }
    assert(gv.take(k as int) =~= gv);
}

fn attr_or_empty(e: &XmlElement, name: &str) -> (r: Vec<char>)
    ensures
        r@ == (match attribute(e@, name@) {
            Some(v) => v,
            None => Seq::<char>::empty(),
        }),
{
    match crate::xml::attribute_value(e, name) {
        Some(v) => v,
        None => Vec::new(),
    }
}

fn push_text(lines: &mut Vec<Vec<char>>, s: &str)
    ensures
        views(final(lines)@) == views(old(lines)@).push(s@),
{
    crate::skd_fragments::push_line(lines, chars_of(s));
}

fn head_lines_exec(root: &XmlElement, name: &[char], synonym: &[char], support: &[char]) -> (r: Vec<Vec<char>>)
    ensures
        views(r@) == head_lines(root@, name@, synonym@, support@),
{
    let mut lines: Vec<Vec<char>> = Vec::new();
    let mut header = chars_of("=== Role: ");
    push_chars(&mut header, name);
    if synonym.len() > 0 {
        push_str(&mut header, " --- \"");
        push_chars(&mut header, synonym);
        push_str(&mut header, "\"");
    }
    push_str(&mut header, " ===");
    proof {
        reveal_strlit("");
    }
    assert(header@ =~= "=== Role: "@ + name@ + (if synonym@.len() > 0 {
        " --- \""@ + synonym@ + "\""@
    } else {
        Seq::empty()
    }) + " ==="@);
    crate::skd_fragments::push_line(&mut lines, header);
    let mut sup = chars_of("Поддержка: ");
    push_chars(&mut sup, support);
    crate::skd_fragments::push_line(&mut lines, sup);
    crate::skd_fragments::push_line(&mut lines, Vec::new());
    let mut props = chars_of("Properties: setForNewObjects=");
    push_chars(&mut props, &attr_or_empty(root, "setForNewObjects"));
    push_str(&mut props, ", setForAttributesByDefault=");
    push_chars(&mut props, &attr_or_empty(root, "setForAttributesByDefault"));
    push_str(&mut props, ", independentRightsOfChildObjects=");
    push_chars(&mut props, &attr_or_empty(root, "independentRightsOfChildObjects"));
    let ghost or_empty = |o: Option<Seq<char>>|
        match o {
            Some(v) => v,
            None => Seq::<char>::empty(),
        };
    assert(props@ =~= "Properties: setForNewObjects="@ + or_empty(attribute(root@, "setForNewObjects"@))
        + ", setForAttributesByDefault="@ + or_empty(attribute(root@, "setForAttributesByDefault"@))
        + ", independentRightsOfChildObjects="@ + or_empty(attribute(root@, "independentRightsOfChildObjects"@)));
    crate::skd_fragments::push_line(&mut lines, props);
    crate::skd_fragments::push_line(&mut lines, Vec::new());
    assert(views(lines@) =~= head_lines(root@, name@, synonym@, support@));
    lines
}

fn push_rights_lines(lines: &mut Vec<Vec<char>>, scan: &ScanState, show_denied: bool)
    ensures
        views(final(lines)@) == views(old(lines)@) + rights_lines(scan.scan(), show_denied),
{
    proof {
        reveal_strlit("");
    }
    if scan.allowed.len() > 0 {
        push_text(lines, "Allowed rights:");
        crate::skd_fragments::push_line(lines, Vec::new());
        push_group_lines(lines, &scan.allowed);
    } else {
        push_text(lines, "(no allowed rights)");
        crate::skd_fragments::push_line(lines, Vec::new());
    }
    let ghost mid = views(lines@);
    if show_denied && scan.denied.len() > 0 {
        push_text(lines, "Denied rights:");
        crate::skd_fragments::push_line(lines, Vec::new());
        push_group_lines(lines, &scan.denied);
    } else if scan.total_denied > 0 {
        let mut m = chars_of("Denied: ");
        push_chars(&mut m, &crate::numbers::u128_text(scan.total_denied));
        push_str(&mut m, " rights (use -ShowDenied to list)");
        crate::skd_fragments::push_line(lines, m);
        crate::skd_fragments::push_line(lines, Vec::new());
    }
    assert(views(lines@) =~= views(old(lines)@) + rights_lines(scan.scan(), show_denied));
}

fn push_tail_lines(lines: &mut Vec<Vec<char>>, scan: &ScanState, templates: &Vec<Vec<char>>)
    ensures
        views(final(lines)@) == views(old(lines)@) + tail_lines(scan.scan(), views(templates@)),
{
    proof {
        reveal_strlit("");
    }
    if scan.rls.len() > 0 {
        let mut m = chars_of("RLS: ");
        push_chars(&mut m, &crate::numbers::usize_text(scan.rls.len()));
        push_str(&mut m, " restrictions");
        crate::skd_fragments::push_line(lines, m);
    }
    if templates.len() > 0 {
        let mut m = chars_of("Templates: ");
        push_chars(&mut m, &crate::text::join_str(templates, ", "));
        crate::skd_fragments::push_line(lines, m);
    }
    crate::skd_fragments::push_line(lines, Vec::new());
    push_text(lines, "---");
    let mut total = chars_of("Total: ");
    push_chars(&mut total, &crate::numbers::u128_text(scan.total_allowed));
    push_str(&mut total, " allowed, ");
    push_chars(&mut total, &crate::numbers::u128_text(scan.total_denied));
    push_str(&mut total, " denied");
    crate::skd_fragments::push_line(lines, total);
    assert(views(lines@) =~= views(old(lines)@) + tail_lines(scan.scan(), views(templates@)));
}

fn info_lines_exec(root: &XmlElement, name: &[char], synonym: &[char], support: &[char], show_denied: bool) -> (r: Vec<Vec<char>>)
    ensures
        views(r@) == info_lines(root@, name@, synonym@, support@, show_denied),
{
    let scan = scan_objects_exec(root);
    let templates = template_names_exec(root);
    let mut lines = head_lines_exec(root, name, synonym, support);
    push_rights_lines(&mut lines, &scan, show_denied);
    push_tail_lines(&mut lines, &scan, &templates);
    lines
}

fn page_exec(lines: Vec<Vec<char>>, offset: i64, limit: i64) -> (r: Vec<Vec<char>>)
    ensures
        views(r@) == page(views(lines@), offset as int, limit as int),
{
    let total = lines.len();
    if offset > 0 && (offset as i128) >= (total as i128) {
        let mut m = chars_of("[INFO] Offset ");
        push_chars(&mut m, &crate::numbers::i128_text(offset as i128));
        push_str(&mut m, " exceeds total lines (");
        push_chars(&mut m, &crate::numbers::i128_text(total as i128));
        push_str(&mut m, "). Nothing to show.");
        let mut r: Vec<Vec<char>> = Vec::new();
        crate::skd_fragments::push_line(&mut r, m);
        assert(views(r@) =~= page(views(lines@), offset as int, limit as int));
        return r;
    }
    let start: usize = if offset > 0 { offset as usize } else { 0 };
    let ghost all = views(lines@);
    let mut out: Vec<Vec<char>> = Vec::new();
    let end: usize = if limit > 0 && ((total - start) as i128) > (limit as i128) { start + limit as usize } else { total };
    let mut i: usize = start;
    while i < end
        invariant
            start <= i <= end <= total,
            total == lines@.len(),
            all == views(lines@),
            views(out@) == all.subrange(start as int, i as int),
        decreases end - i,
    {
        crate::skd_fragments::push_line(&mut out, crate::text::to_vec(&lines[i]));
        assert(all.subrange(start as int, i + 1) =~= all.subrange(start as int, i as int).push(all[i as int]));
        i = i + 1;
    }
    if end < total {
        crate::skd_fragments::push_line(&mut out, Vec::new());
        let mut m = chars_of("[TRUNCATED] Shown ");
        push_chars(&mut m, &crate::numbers::i128_text(limit as i128));
        push_str(&mut m, " of ");
        push_chars(&mut m, &crate::numbers::i128_text(total as i128));
        push_str(&mut m, " lines. Use -Offset ");
        let o: i128 = if offset > 0 { offset as i128 } else { offset as i128 };
        push_chars(&mut m, &crate::numbers::i128_text(o + limit as i128));
        push_str(&mut m, " to continue.");
        crate::skd_fragments::push_line(&mut out, m);
        proof {
            reveal_strlit("");
        }
    }
    assert(views(out@) =~= page(views(lines@), offset as int, limit as int));
    out
}

/// The overview of a parsed rights file: a page of its lines (see
/// `info_lines` and `page`). `name` and `synonym` are the role's, `support`
/// what the support line says.
pub fn role_info_tree(
    root: &XmlElement,
    name: &[char],
    synonym: &[char],
    support: &[char],
    show_denied: bool,
    offset: i64,
    limit: i64,
) -> (r: Vec<Vec<char>>)
    ensures
        views(r@) == page(info_lines(root@, name@, synonym@, support@, show_denied), offset as int, limit as int),
{
    page_exec(info_lines_exec(root, name, synonym, support, show_denied), offset, limit)
}

/// The overview of a rights file given as text: the parser's message for a
/// text that is not XML, else a page of its lines.
pub fn role_info(
    rights: &[char],
    name: &[char],
    synonym: &[char],
    support: &[char],
    show_denied: bool,
    offset: i64,
    limit: i64,
) -> (r: Result<Vec<Vec<char>>, Vec<char>>)
    ensures
        match role_info_result(rights@, name@, synonym@, support@, show_denied, offset as int, limit as int) {
            Ok(lines) => r matches Ok(v) && views(v@) == lines,
            Err(e) => r matches Err(m) && m@ == e,
        },
{
    let body = crate::xml::strip_boms(rights);
    let s = crate::external::string_of(&body);
    match crate::xml::xml_document(s.as_str()) {
        Ok(root) => Ok(role_info_tree(&root, name, synonym, support, show_denied, offset, limit)),
        Err(e) => Err(e),
    }
}

/// The Russian text of a synonym: the content of its first item in Russian.
pub open spec fn ru_item(items: Seq<XmlNode>) -> Option<Seq<char>>
    decreases items.len(),
{
    if items.len() == 0 {
        None
    } else if child_text(items[0], "lang"@, None) == "ru"@ {
        Some(child_text(items[0], "content"@, None))
    } else {
        ru_item(items.drop_first())
    }
}

/// The synonym one block of properties gives: that of its last synonym with a
/// Russian item.
pub open spec fn props_synonym(synonyms: Seq<XmlNode>) -> Seq<char>
    decreases synonyms.len(),
{
    if synonyms.len() == 0 {
        Seq::empty()
    } else {
        match ru_item(children_named(synonyms.last(), "item"@, None)) {
            Some(c) => c,
            None => props_synonym(synonyms.drop_last()),
        }
    }
}

/// The first non-empty name and synonym of blocks of properties.
pub open spec fn first_name(props: Seq<XmlNode>) -> Seq<char>
    decreases props.len(),
{
    if props.len() == 0 {
        Seq::empty()
    } else if child_text(props[0], "Name"@, None).len() > 0 {
        child_text(props[0], "Name"@, None)
    } else {
        first_name(props.drop_first())
    }
}

pub open spec fn first_synonym(props: Seq<XmlNode>) -> Seq<char>
    decreases props.len(),
{
    if props.len() == 0 {
        Seq::empty()
    } else if props_synonym(children_named(props[0], "Synonym"@, None)).len() > 0 {
        props_synonym(children_named(props[0], "Synonym"@, None))
    } else {
        first_synonym(props.drop_first())
    }
}

/// The name and synonym of a role from its metadata file: those of the first
/// `Role` element; the folder's name where the file is missing, is not XML or
/// gives no name.
pub open spec fn role_names(meta: Option<Seq<char>>, folder: Seq<char>) -> (Seq<char>, Seq<char>) {
    let (n, syn) = match meta {
        None => (Seq::<char>::empty(), Seq::<char>::empty()),
        Some(t) => match xml_tree(without_boms(t)) {
            Err(_) => (Seq::<char>::empty(), Seq::<char>::empty()),
            Ok(root) => match find_named(root, "Role"@, None) {
                None => (Seq::<char>::empty(), Seq::<char>::empty()),
                Some(role) => {
                    let props = children_named(role, "Properties"@, None);
                    (first_name(props), first_synonym(props))
                },
            },
        },
    };
    (if n.len() == 0 {
        folder
    } else {
        n
    }, syn)
}

fn ru_item_exec(items: &Vec<&XmlElement>, Ghost(iv): Ghost<Seq<XmlNode>>) -> (r: Option<Vec<char>>)
    requires
        items@.len() == iv.len(),
        forall|j: int| 0 <= j < items@.len() ==> (#[trigger] items@[j])@ == iv[j],
    ensures
        crate::xml::opt_view(r) == ru_item(iv),
{
    let mut k: usize = 0;
    assert(iv.skip(0) =~= iv);
    while k < items.len()
        invariant
            k <= items@.len(),
            items@.len() == iv.len(),
            forall|j: int| 0 <= j < items@.len() ==> (#[trigger] items@[j])@ == iv[j],
            ru_item(iv) == ru_item(iv.skip(k as int)),
        decreases items.len() - k,
    {
        assert(iv.skip(k as int)[0] == iv[k as int]);
        assert(iv.skip(k as int).drop_first() =~= iv.skip(k + 1));
        let lang = crate::xml::child_text_of(items[k], "lang", None);
        if crate::text::eq_str(&lang, "ru") {
            return Some(crate::xml::child_text_of(items[k], "content", None));
        }
        k = k + 1;
    }
    None
}

fn props_synonym_exec(p: &XmlElement) -> (r: Vec<char>)
    ensures
        r@ == props_synonym(children_named(p@, "Synonym"@, None)),
{
    let syns = crate::xml::children_with(p, "Synonym", None);
    let ghost sv = children_named(p@, "Synonym"@, None);
    let mut r: Vec<char> = Vec::new();
    let mut k: usize = 0;
    assert(sv.take(0) =~= Seq::<XmlNode>::empty());
    while k < syns.len()
        invariant
            k <= syns@.len(),
            syns@.len() == sv.len(),
            forall|j: int| 0 <= j < syns@.len() ==> (#[trigger] syns@[j])@ == sv[j],
            r@ == props_synonym(sv.take(k as int)),
        decreases syns.len() - k,
    {
        assert(sv.take(k + 1).drop_last() =~= sv.take(k as int));
        assert(sv.take(k + 1).last() == syns@[k as int]@);
        let items = crate::xml::children_with(syns[k], "item", None);
        match ru_item_exec(&items, Ghost(children_named(syns@[k as int]@, "item"@, None))) {
            Some(c) => {
                r = c;
            },
            None => {},
        }
        k = k + 1;
    }
    assert(sv.take(k as int) =~= sv);
    r
}

/// The name and synonym of a role from its metadata file, where there is one
/// (see `role_names`).
pub fn role_info_names(meta: &Option<Vec<char>>, folder: &[char]) -> (r: (Vec<char>, Vec<char>))
    ensures
        (r.0@, r.1@) == role_names(crate::xml::opt_view(*meta), folder@),
{
    let mut name: Vec<char> = Vec::new();
    let mut synonym: Vec<char> = Vec::new();
    match meta {
        Some(t) => {
            let body = crate::xml::strip_boms(t);
            let s = crate::external::string_of(&body);
            match crate::xml::xml_document(s.as_str()) {
                Ok(root) => match crate::xml::find_element(&root, "Role", None) {
                    Some(role) => {
                        let props = crate::xml::children_with(role, "Properties", None);
                        let ghost pv = children_named(role@, "Properties"@, None);
                        let mut k: usize = 0;
                        assert(pv.skip(0) =~= pv);
                        while k < props.len()
                            invariant
                                k <= props@.len(),
                                props@.len() == pv.len(),
                                forall|j: int| 0 <= j < props@.len() ==> (#[trigger] props@[j])@ == pv[j],
                                name@.len() == 0 ==> first_name(pv) == first_name(pv.skip(k as int)),
                                name@.len() > 0 ==> name@ == first_name(pv),
                                synonym@.len() == 0 ==> first_synonym(pv) == first_synonym(pv.skip(k as int)),
                                synonym@.len() > 0 ==> synonym@ == first_synonym(pv),
                            decreases props.len() - k,
                        {
                            assert(pv.skip(k as int)[0] == pv[k as int]);
                            assert(pv.skip(k as int).drop_first() =~= pv.skip(k + 1));
                            if name.len() == 0 {
                                name = crate::xml::child_text_of(props[k], "Name", None);
                            }
                            if synonym.len() == 0 {
                                synonym = props_synonym_exec(props[k]);
                            }
                            k = k + 1;
                        }
                        assert(pv.skip(k as int) =~= Seq::<XmlNode>::empty());
                    },
                    None => {},
                },
                Err(_) => {},
            }
        },
        None => {},
    }
    if name.len() == 0 {
        name = crate::text::to_vec(folder);
    }
    (name, synonym)
}

} // verus!
