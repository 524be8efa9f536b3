//! The rights of a role: reading the entries of a role definition, and writing
//! the rights file and the registration of a new role.
use vstd::prelude::*;
use crate::numbers::{nat_text, usize_text};
use crate::role::{
    lookup_from, object_type_of, preset_rights, preset_warning, right_names_en, right_names_ru, role_object_type,
    role_preset_rights, strip_leading, translate_role_object_name, translate_role_right_name,
    translated_object_name,
};
use crate::skd_fragments::{push_line, wrap, wrap_escaped};
use crate::text::{
    contains, replace_all, chars_of, eq_chars, eq_str, escape_xml, join, join_str, push_chars, push_str, split, split_once, split_once_str,
    split_trim_nonempty, starts_with, starts_with_str, to_vec, trim, trim_chars, trim_nonempty, views,
};

verus! {

/// A right of an object in a role: its name, `true` or `false`, and the row
/// restriction condition where there is one.
pub struct RoleRight {
    pub name: Vec<char>,
    pub value: Vec<char>,
    pub condition: Option<Vec<char>>,
}

/// An object of a role with its rights, in order.
pub struct RoleObject {
    pub name: Vec<char>,
    pub rights: Vec<RoleRight>,
}

/// The value of a right.
pub struct RightModel {
    pub name: Seq<char>,
    pub value: Seq<char>,
    pub condition: Option<Seq<char>>,
}

/// The value of an object of a role.
pub struct ObjectModel {
    pub name: Seq<char>,
    pub rights: Seq<RightModel>,
}

pub open spec fn right_model(r: RoleRight) -> RightModel {
    RightModel {
        name: r.name@,
        value: r.value@,
        condition: match r.condition {
            Some(c) => Some(c@),
            None => None,
        },
    }
}

pub open spec fn rights_model(rs: Seq<RoleRight>) -> Seq<RightModel> {
    rs.map_values(|r: RoleRight| right_model(r))
}

pub open spec fn object_model(o: RoleObject) -> ObjectModel {
    ObjectModel { name: o.name@, rights: rights_model(o.rights@) }
}

pub open spec fn objects_model(os: Seq<RoleObject>) -> Seq<ObjectModel> {
    os.map_values(|o: RoleObject| object_model(o))
}

/// The value a definition gives a right in a table of rights.
pub enum RightFlag {
    Bool(bool),
    Text(Vec<char>),
    Other,
}

/// The rights an object entry of a definition lists: none, a list of names, or
/// a table from names to values.
pub enum RoleRightsSpec {
    Absent,
    List(Vec<Vec<char>>),
    Flags(Vec<(Vec<char>, RightFlag)>),
}

/// An object entry of a role definition given as a table: its name, preset,
/// rights and row restriction conditions (right name and condition), each as
/// written.
pub struct RoleObjectSpec {
    pub name: Option<Vec<char>>,
    pub preset: Option<Vec<char>>,
    pub rights: RoleRightsSpec,
    pub rls: Vec<(Vec<char>, Vec<char>)>,
}

/// An object entry of a role definition: a line `Object.Name: rights`, a
/// table, or something else.
pub enum RoleObjectEntry {
    Text(Vec<char>),
    Object(RoleObjectSpec),
    Other,
}

/// A right name in English.
pub open spec fn translated_right(name: Seq<char>) -> Seq<char> {
    lookup_from(name, right_names_ru(), right_names_en(), 0)
}

/// The rights a preset gives an object kind (none where it gives nothing).
pub open spec fn preset_names(object_type: Seq<char>, preset: Seq<char>) -> Seq<Seq<char>> {
    match preset_rights(strip_leading(preset, '@'), object_type) {
        Some(l) => l,
        None => Seq::empty(),
    }
}

/// The warning for a preset that gives an object kind nothing.
pub open spec fn preset_stderr(object_type: Seq<char>, preset: Seq<char>) -> Seq<char> {
    match preset_rights(strip_leading(preset, '@'), object_type) {
        Some(_) => Seq::empty(),
        None => preset_warning(strip_leading(preset, '@'), object_type),
    }
}

/// A granted right without a condition.
pub open spec fn granted(name: Seq<char>) -> RightModel {
    RightModel { name, value: "true"@, condition: None }
}

/// The position of the first right named `name` from the `i`-th on.
pub open spec fn position_from(rs: Seq<RightModel>, name: Seq<char>, i: int) -> Option<int>
    decreases rs.len() - i,
{
    if i < 0 || i >= rs.len() {
        None
    } else if rs[i].name == name {
        Some(i)
    } else {
        position_from(rs, name, i + 1)
    }
}

/// The position of the right named `name`.
pub open spec fn position_of(rs: Seq<RightModel>, name: Seq<char>) -> Option<int> {
    position_from(rs, name, 0)
}

pub proof fn lemma_position_from(rs: Seq<RightModel>, name: Seq<char>, i: int)
    requires
        0 <= i,
    ensures
        position_from(rs, name, i) matches Some(k) ==> i <= k < rs.len() && rs[k].name == name,
    decreases rs.len() - i,
{
    if i < rs.len() && rs[i].name != name {
        lemma_position_from(rs, name, i + 1);
    }
}

/// The rights with `name` set to `value` and no condition: in place where it
/// is listed, else at the end.
pub open spec fn upsert(rs: Seq<RightModel>, name: Seq<char>, value: Seq<char>) -> Seq<RightModel> {
    match position_of(rs, name) {
        Some(i) => rs.update(i, RightModel { name, value, condition: None }),
        None => rs.push(RightModel { name, value, condition: None }),
    }
}

/// The rights with each of `names` granted in turn.
pub open spec fn with_names(rs: Seq<RightModel>, names: Seq<Seq<char>>) -> Seq<RightModel>
    decreases names.len(),
{
    if names.len() == 0 {
        rs
    } else {
        upsert(with_names(rs, names.drop_last()), names.last(), "true"@)
    }
}

/// Whether a table value grants the right.
pub open spec fn flag_grants(f: RightFlag) -> bool {
    match f {
        RightFlag::Bool(b) => b,
        RightFlag::Text(t) => t@ == "True"@ || t@ == "true"@,
        RightFlag::Other => false,
    }
}

/// The rights with each right of a table set in turn.
pub open spec fn with_flags(rs: Seq<RightModel>, flags: Seq<(Vec<char>, RightFlag)>) -> Seq<RightModel>
    decreases flags.len(),
{
    if flags.len() == 0 {
        rs
    } else {
        upsert(
            with_flags(rs, flags.drop_last()),
            translated_right(flags.last().0@),
            if flag_grants(flags.last().1) {
                "true"@
            } else {
                "false"@
            },
        )
    }
}

/// The rights with the row restriction conditions applied, and the warnings
/// for conditions on rights that are not listed.
pub open spec fn with_conditions(
    rs: Seq<RightModel>,
    rls: Seq<(Seq<char>, Seq<char>)>,
    object_name: Seq<char>,
) -> (Seq<RightModel>, Seq<char>)
    decreases rls.len(),
{
    if rls.len() == 0 {
        (rs, Seq::empty())
    } else {
        let (before, warnings) = with_conditions(rs, rls.drop_last(), object_name);
        let name = translated_right(rls.last().0);
        match position_of(before, name) {
            Some(i) => (
                before.update(i, RightModel { name: before[i].name, value: before[i].value, condition: Some(rls.last().1) }),
                warnings,
            ),
            None => (
                before,
                warnings + "WARNING: "@ + object_name + ": RLS for '"@ + name + "' but this right is not in the rights list\n"@,
            ),
        }
    }
}

pub open spec fn pair_views(v: Seq<(Vec<char>, Vec<char>)>) -> Seq<(Seq<char>, Seq<char>)> {
    v.map_values(|p: (Vec<char>, Vec<char>)| (p.0@, p.1@))
}

/// The object a line `Object.Name: rights` stands for, and the warnings it
/// gives.
pub open spec fn text_entry(text: Seq<char>) -> (Option<ObjectModel>, Seq<char>) {
    match split_once(text, ":"@) {
        None => (
            None,
            "WARNING: Invalid string '"@ + text
                + "' -- expected 'Object.Name: @preset' or 'Object.Name: Right1, Right2'\n"@,
        ),
        Some((head, tail)) => {
            let name = translated_object_name(trim(head));
            let kind = object_type_of(name);
            if starts_with(trim(tail), "@"@) {
                (
                    Some(ObjectModel { name, rights: preset_names(kind, trim(tail)).map_values(|n: Seq<char>| granted(n)) }),
                    preset_stderr(kind, trim(tail)),
                )
            } else {
                (
                    Some(
                        ObjectModel {
                            name,
                            rights: trim_nonempty(split(tail, ","@)).map_values(
                                |n: Seq<char>| granted(translated_right(n)),
                            ),
                        },
                    ),
                    Seq::empty(),
                )
            }
        },
    }
}

/// The rights a table entry lists before its conditions.
pub open spec fn listed_rights(kind: Seq<char>, preset: Option<Vec<char>>, rights: RoleRightsSpec) -> Seq<RightModel> {
    let from_preset = match preset {
        Some(p) => with_names(Seq::empty(), preset_names(kind, p@)),
        None => Seq::empty(),
    };
    match rights {
        RoleRightsSpec::Absent => from_preset,
        RoleRightsSpec::List(l) => with_names(from_preset, views(l@).map_values(|n: Seq<char>| translated_right(n))),
        RoleRightsSpec::Flags(f) => with_flags(from_preset, f@),
    }
}

/// The object a table entry stands for, and the warnings it gives.
pub open spec fn spec_entry(s: RoleObjectSpec) -> (Option<ObjectModel>, Seq<char>) {
    match s.name {
        Some(n) if n@.len() > 0 => {
            let name = translated_object_name(n@);
            let kind = object_type_of(name);
            let warn = match s.preset {
                Some(p) => preset_stderr(kind, p@),
                None => Seq::empty(),
            };
            let (rights, more) = with_conditions(listed_rights(kind, s.preset, s.rights), pair_views(s.rls@), name);
            (Some(ObjectModel { name, rights }), warn + more)
        },
        _ => (None, "WARNING: Object entry missing 'name' field\n"@),
    }
}

/// The object an entry of a definition stands for, and the warnings it gives.
pub open spec fn entry_object(e: RoleObjectEntry) -> (Option<ObjectModel>, Seq<char>) {
    match e {
        RoleObjectEntry::Text(t) => text_entry(t@),
        RoleObjectEntry::Object(s) => spec_entry(s),
        RoleObjectEntry::Other => (None, "WARNING: Object entry missing 'name' field\n"@),
    }
}

pub open spec fn opt_object(o: Option<RoleObject>) -> Option<ObjectModel> {
    match o {
        Some(x) => Some(object_model(x)),
        None => None,
    }
}

fn copy_right(r: &RoleRight) -> (c: RoleRight)
    ensures
        right_model(c) == right_model(*r),
{
    RoleRight {
        name: to_vec(&r.name),
        value: to_vec(&r.value),
        condition: match &r.condition {
            Some(t) => Some(to_vec(t)),
            None => None,
        },
    }
}

fn position_in(rs: &Vec<RoleRight>, name: &[char]) -> (r: Option<usize>)
    ensures
        r is Some <==> position_of(rights_model(rs@), name@) is Some,
        r matches Some(k) ==> position_of(rights_model(rs@), name@) == Some(k as int) && k < rs@.len(),
{
    let ghost m = rights_model(rs@);
    let mut i: usize = 0;
    while i < rs.len()
        invariant
            i <= rs@.len(),
            m == rights_model(rs@),
            position_from(m, name@, 0) == position_from(m, name@, i as int),
        decreases rs.len() - i,
    {
        if eq_chars(&rs[i].name, name) {
            return Some(i);
        }
        i = i + 1;
    }
    None
}

fn upsert_right(rs: &mut Vec<RoleRight>, name: Vec<char>, value: &str)
    ensures
        rights_model(final(rs)@) == upsert(rights_model(old(rs)@), name@, value@),
{
    let ghost m = rights_model(rs@);
    let entry = RoleRight { name: to_vec(&name), value: chars_of(value), condition: None };
    match position_in(rs, &name) {
        Some(i) => {
            rs.set(i, entry);
            assert(rights_model(rs@) =~= m.update(i as int, RightModel { name: name@, value: value@, condition: None }));
        },
        None => {
            rs.push(entry);
            assert(rights_model(rs@) =~= m.push(RightModel { name: name@, value: value@, condition: None }));
        },
    }
}

fn grant_all(rs: &mut Vec<RoleRight>, names: &Vec<Vec<char>>)
    ensures
        rights_model(final(rs)@) == with_names(rights_model(old(rs)@), views(names@)),
{
    let ghost start = rights_model(rs@);
    let mut i: usize = 0;
    while i < names.len()
        invariant
            i <= names@.len(),
            rights_model(rs@) == with_names(start, views(names@).take(i as int)),
        decreases names.len() - i,
    {
        assert(views(names@).take(i + 1).drop_last() =~= views(names@).take(i as int));
        upsert_right(rs, to_vec(&names[i]), "true");
        i = i + 1;
    }
    assert(views(names@).take(i as int) =~= views(names@));
}

fn translated_all(names: &Vec<Vec<char>>) -> (r: Vec<Vec<char>>)
    ensures
        views(r@) == views(names@).map_values(|n: Seq<char>| translated_right(n)),
{
    let mut r: Vec<Vec<char>> = Vec::new();
    let mut i: usize = 0;
    while i < names.len()
        invariant
            i <= names@.len(),
            views(r@) == views(names@).take(i as int).map_values(|n: Seq<char>| translated_right(n)),
        decreases names.len() - i,
    {
        let t = translate_role_right_name(&names[i]);
        let ghost tv = t@;
        push_line(&mut r, t);
        assert(views(names@).take(i + 1).map_values(|n: Seq<char>| translated_right(n)) =~= views(names@).take(
            i as int,
        ).map_values(|n: Seq<char>| translated_right(n)).push(tv));
        i = i + 1;
    }
    assert(views(names@).take(i as int) =~= views(names@));
    r
}

fn flag_grants_exec(f: &RightFlag) -> (b: bool)
    ensures
        b == flag_grants(*f),
{
    match f {
        RightFlag::Bool(b) => *b,
        RightFlag::Text(t) => eq_str(t, "True") || eq_str(t, "true"),
        RightFlag::Other => false,
    }
}

fn set_flags(rs: &mut Vec<RoleRight>, flags: &Vec<(Vec<char>, RightFlag)>)
    ensures
        rights_model(final(rs)@) == with_flags(rights_model(old(rs)@), flags@),
{
    let ghost start = rights_model(rs@);
    let mut i: usize = 0;
    while i < flags.len()
        invariant
            i <= flags@.len(),
            rights_model(rs@) == with_flags(start, flags@.take(i as int)),
        decreases flags.len() - i,
    {
        assert(flags@.take(i + 1).drop_last() =~= flags@.take(i as int));
        let name = translate_role_right_name(&flags[i].0);
        if flag_grants_exec(&flags[i].1) {
            upsert_right(rs, name, "true");
        } else {
            upsert_right(rs, name, "false");
        }
        i = i + 1;
    }
    assert(flags@.take(i as int) =~= flags@);
}

fn apply_conditions(rs: &mut Vec<RoleRight>, rls: &Vec<(Vec<char>, Vec<char>)>, object_name: &[char], stderr: &mut Vec<char>)
    ensures
        ({
            let (m, w) = with_conditions(rights_model(old(rs)@), pair_views(rls@), object_name@);
            rights_model(final(rs)@) == m && final(stderr)@ == old(stderr)@ + w
        }),
{
    let ghost start = rights_model(rs@);
    let ghost err0 = stderr@;
    let ghost all = pair_views(rls@);
    let mut i: usize = 0;
    while i < rls.len()
        invariant
            i <= rls@.len(),
            all == pair_views(rls@),
            rights_model(rs@) == with_conditions(start, all.take(i as int), object_name@).0,
            stderr@ == err0 + with_conditions(start, all.take(i as int), object_name@).1,
        decreases rls.len() - i,
    {
        assert(all.take(i + 1).drop_last() =~= all.take(i as int));
        assert(all.take(i + 1).last() == (rls@[i as int].0@, rls@[i as int].1@));
        let name = translate_role_right_name(&rls[i].0);
        let ghost before = rights_model(rs@);
        match position_in(rs, &name) {
            Some(k) => {
                let old_right = copy_right(&rs[k]);
                let entry = RoleRight { name: old_right.name, value: old_right.value, condition: Some(to_vec(&rls[i].1)) };
                rs.set(k, entry);
                assert(rights_model(rs@) =~= before.update(
                    k as int,
                    RightModel { name: before[k as int].name, value: before[k as int].value, condition: Some(rls@[i as int].1@) },
                ));
            },
            None => {
                push_str(stderr, "WARNING: ");
                push_chars(stderr, object_name);
                push_str(stderr, ": RLS for '");
                push_chars(stderr, &name);
                push_str(stderr, "' but this right is not in the rights list\n");
            },
        }
        i = i + 1;
    }
    assert(all.take(i as int) =~= all);
}

fn granted_rights(names: &Vec<Vec<char>>) -> (r: Vec<RoleRight>)
    ensures
        rights_model(r@) == views(names@).map_values(|n: Seq<char>| granted(n)),
{
    let mut r: Vec<RoleRight> = Vec::new();
    let mut i: usize = 0;
    while i < names.len()
        invariant
            i <= names@.len(),
            rights_model(r@) == views(names@).take(i as int).map_values(|n: Seq<char>| granted(n)),
        decreases names.len() - i,
    {
        let x = RoleRight { name: to_vec(&names[i]), value: chars_of("true"), condition: None };
        let ghost before = r@;
        r.push(x);
        assert(rights_model(r@) =~= rights_model(before).push(granted(names@[i as int]@)));
        assert(views(names@).take(i + 1).map_values(|n: Seq<char>| granted(n)) =~= views(names@).take(i as int).map_values(
            |n: Seq<char>| granted(n),
        ).push(granted(names@[i as int]@)));
        i = i + 1;
    }
    assert(views(names@).take(i as int) =~= views(names@));
    r
}

fn parse_text_entry(text: &[char], stderr: &mut Vec<char>) -> (r: Option<RoleObject>)
    ensures
        opt_object(r) == text_entry(text@).0,
        final(stderr)@ == old(stderr)@ + text_entry(text@).1,
{
    match split_once_str(text, ":") {
        None => {
            push_str(stderr, "WARNING: Invalid string '");
            push_chars(stderr, text);
            push_str(stderr, "' -- expected 'Object.Name: @preset' or 'Object.Name: Right1, Right2'\n");
            None
        },
        Some((head, tail)) => {
            assert(split_once(text@, ":"@) == Some((head@, tail@)));
            let name = translate_role_object_name(&trim_chars(&head));
            let kind = role_object_type(&name);
            let rt = trim_chars(&tail);
            if starts_with_str(&rt, "@") {
                let ghost e0 = stderr@;
                let names = role_preset_rights(&kind, &rt, stderr);
                assert(views(names@) =~= preset_names(kind@, rt@));
                let rights = granted_rights(&names);
                assert(stderr@ =~= e0 + preset_stderr(kind@, rt@));
                Some(RoleObject { name, rights })
            } else {
                proof {
                    reveal_strlit(",");
                }
                let pieces = split_trim_nonempty(&tail, ",");
                let names = translated_all(&pieces);
                let rights = granted_rights(&names);
                assert(views(names@).map_values(|n: Seq<char>| granted(n)) =~= trim_nonempty(split(tail@, ","@)).map_values(
                    |n: Seq<char>| granted(translated_right(n)),
                ));
                assert(stderr@ =~= old(stderr)@ + Seq::<char>::empty());
                Some(RoleObject { name, rights })
            }
        },
    }
}

fn parse_spec_entry(s: &RoleObjectSpec, stderr: &mut Vec<char>) -> (r: Option<RoleObject>)
    ensures
        opt_object(r) == spec_entry(*s).0,
        final(stderr)@ == old(stderr)@ + spec_entry(*s).1,
{
    let raw = match &s.name {
        Some(n) => {
            if n.len() > 0 {
                n
            } else {
                push_str(stderr, "WARNING: Object entry missing 'name' field\n");
                return None;
            }
        },
        None => {
            push_str(stderr, "WARNING: Object entry missing 'name' field\n");
            return None;
        },
    };
    let name = translate_role_object_name(raw);
    let kind = role_object_type(&name);
    let ghost e0 = stderr@;
    let mut rights: Vec<RoleRight> = Vec::new();
    assert(rights_model(rights@) =~= Seq::<RightModel>::empty());
    match &s.preset {
        Some(p) => {
            let names = role_preset_rights(&kind, p, stderr);
            assert(views(names@) =~= preset_names(kind@, p@));
            grant_all(&mut rights, &names);
        },
        None => {},
    }
    let ghost e1 = stderr@;
    match &s.rights {
        RoleRightsSpec::Absent => {},
        RoleRightsSpec::List(l) => {
            let names = translated_all(l);
            grant_all(&mut rights, &names);
        },
        RoleRightsSpec::Flags(f) => {
            set_flags(&mut rights, f);
        },
    }
    assert(rights_model(rights@) == listed_rights(kind@, s.preset, s.rights));
    apply_conditions(&mut rights, &s.rls, &name, stderr);
    assert(stderr@ =~= old(stderr)@ + spec_entry(*s).1);
    Some(RoleObject { name, rights })
}

/// Reads an object entry of a role definition: the object with its rights in
/// order, each listed once, or `None` for an entry without a name; warnings go
/// to `stderr`.
pub fn parse_role_object_entry(entry: &RoleObjectEntry, stderr: &mut Vec<char>) -> (r: Option<RoleObject>)
    ensures
        opt_object(r) == entry_object(*entry).0,
        final(stderr)@ == old(stderr)@ + entry_object(*entry).1,
{
    match entry {
        RoleObjectEntry::Text(t) => parse_text_entry(t, stderr),
        RoleObjectEntry::Object(s) => parse_spec_entry(s, stderr),
        RoleObjectEntry::Other => {
            push_str(stderr, "WARNING: Object entry missing 'name' field\n");
            None
        },
    }
}

/// A role definition: its name, synonym (where given) and comment, its object
/// entries, its three flags as the text of their values (where given), and its
/// restriction templates as name and condition.
pub struct RoleDefinition {
    pub name: Vec<char>,
    pub synonym: Option<Vec<char>>,
    pub comment: Vec<char>,
    pub objects: Vec<RoleObjectEntry>,
    pub set_for_new_objects: Option<Vec<char>>,
    pub set_for_attributes_by_default: Option<Vec<char>>,
    pub independent_rights_of_child_objects: Option<Vec<char>>,
    pub templates: Vec<(Vec<char>, Vec<char>)>,
}

/// The objects the entries stand for, in order, and the warnings they give.
pub open spec fn parsed_entries(es: Seq<RoleObjectEntry>) -> (Seq<ObjectModel>, Seq<char>)
    decreases es.len(),
{
    if es.len() == 0 {
        (Seq::empty(), Seq::empty())
    } else {
        let (objects, warnings) = parsed_entries(es.drop_last());
        let (o, w) = entry_object(es.last());
        (
            match o {
                Some(x) => objects.push(x),
                None => objects,
            },
            warnings + w,
        )
    }
}

/// The lines of one right in the rights file.
pub open spec fn right_lines(r: RightModel) -> Seq<Seq<char>> {
    seq![
        "        <right>"@,
        "            <name>"@ + r.name + "</name>"@,
        "            <value>"@ + r.value + "</value>"@,
    ] + match r.condition {
        Some(c) => seq![
            "            <restrictionByCondition>"@,
            "                <condition>"@ + escape_xml(c) + "</condition>"@,
            "            </restrictionByCondition>"@,
        ],
        None => Seq::empty(),
    } + seq!["        </right>"@]
}

/// The lines of rights, in order.
pub open spec fn rights_lines(rs: Seq<RightModel>) -> Seq<Seq<char>>
    decreases rs.len(),
{
    if rs.len() == 0 {
        Seq::empty()
    } else {
        rights_lines(rs.drop_last()) + right_lines(rs.last())
    }
}

/// The lines of one object in the rights file.
pub open spec fn object_lines(o: ObjectModel) -> Seq<Seq<char>> {
    seq!["    <object>"@, "        <name>"@ + o.name + "</name>"@] + rights_lines(o.rights) + seq!["    </object>"@]
}

/// The lines of objects, in order.
pub open spec fn objects_lines(os: Seq<ObjectModel>) -> Seq<Seq<char>>
    decreases os.len(),
{
    if os.len() == 0 {
        Seq::empty()
    } else {
        objects_lines(os.drop_last()) + object_lines(os.last())
    }
}

/// The lines of restriction templates, in order.
pub open spec fn templates_lines(ts: Seq<(Seq<char>, Seq<char>)>) -> Seq<Seq<char>>
    decreases ts.len(),
{
    if ts.len() == 0 {
        Seq::empty()
    } else {
        templates_lines(ts.drop_last()) + seq![
            "    <restrictionTemplate>"@,
            "        <name>"@ + escape_xml(ts.last().0) + "</name>"@,
            "        <condition>"@ + escape_xml(ts.last().1) + "</condition>"@,
            "    </restrictionTemplate>"@,
        ]
    }
}

/// The number of rights of objects.
pub open spec fn rights_total(os: Seq<ObjectModel>) -> nat
    decreases os.len(),
{
    if os.len() == 0 {
        0
    } else {
        rights_total(os.drop_last()) + os.last().rights.len()
    }
}

/// The rights file of a role.
pub open spec fn rights_file(
    format_version: Seq<char>,
    set_for_new: Seq<char>,
    set_for_attributes: Seq<char>,
    independent: Seq<char>,
    objects: Seq<ObjectModel>,
    templates: Seq<(Seq<char>, Seq<char>)>,
) -> Seq<char> {
    join(
        seq![
            "<?xml version=\"1.0\" encoding=\"UTF-8\"?>"@,
            "<Rights xmlns=\"http://v8.1c.ru/8.2/roles\""@,
            "        xmlns:xs=\"http://www.w3.org/2001/XMLSchema\""@,
            "        xmlns:xsi=\"http://www.w3.org/2001/XMLSchema-instance\""@,
            "        xsi:type=\"Rights\" version=\""@ + format_version + "\">"@,
            "    <setForNewObjects>"@ + set_for_new + "</setForNewObjects>"@,
            "    <setForAttributesByDefault>"@ + set_for_attributes + "</setForAttributesByDefault>"@,
            "    <independentRightsOfChildObjects>"@ + independent + "</independentRightsOfChildObjects>"@,
        ] + objects_lines(objects) + templates_lines(templates) + seq!["</Rights>"@],
        "\n"@,
    ) + "\n"@
}

/// A compiled role: its metadata file, its rights file, the warnings, and the
/// numbers of objects, rights and templates.
pub struct RoleCompiled {
    pub metadata_xml: Vec<char>,
    pub rights_xml: Vec<char>,
    pub stderr: Vec<char>,
    pub objects: usize,
    pub rights: u128,
    pub templates: usize,
}

/// What compiling a role definition gives, with `uid` as the role's UUID.
pub open spec fn compiled_role(d: RoleDefinition, format_version: Seq<char>, uid: Seq<char>) -> Result<
    (Seq<char>, Seq<char>, Seq<char>, nat, nat, nat),
    Seq<char>,
> {
    if d.name@.len() == 0 {
        Err("JSON must have 'name' field (role programmatic name)"@)
    } else {
        let (objects, warnings) = parsed_entries(d.objects@);
        let synonym = match d.synonym {
            Some(s) => s@,
            None => d.name@,
        };
        Ok(
            (
                join(
                    crate::role::role_metadata_lines(d.name@, synonym, d.comment@, format_version, uid),
                    "\n"@,
                ) + "\n"@,
                rights_file(
                    format_version,
                    crate::subsystem::flag_text(d.set_for_new_objects, "false"@),
                    crate::subsystem::flag_text(d.set_for_attributes_by_default, "true"@),
                    crate::subsystem::flag_text(d.independent_rights_of_child_objects, "false"@),
                    objects,
                    pair_views(d.templates@),
                ),
                warnings,
                objects.len(),
                rights_total(objects),
                d.templates@.len(),
            ),
        )
    }
}

fn parse_entries(es: &Vec<RoleObjectEntry>, stderr: &mut Vec<char>) -> (r: Vec<RoleObject>)
    ensures
        objects_model(r@) == parsed_entries(es@).0,
        final(stderr)@ == old(stderr)@ + parsed_entries(es@).1,
{
    let ghost e0 = stderr@;
    let mut r: Vec<RoleObject> = Vec::new();
    let mut i: usize = 0;
    assert(es@.take(0) =~= Seq::<RoleObjectEntry>::empty());
    assert(objects_model(r@) =~= Seq::<ObjectModel>::empty());
    assert(e0 =~= e0 + Seq::<char>::empty());
    while i < es.len()
        invariant
            i <= es@.len(),
            objects_model(r@) == parsed_entries(es@.take(i as int)).0,
            stderr@ == e0 + parsed_entries(es@.take(i as int)).1,
        decreases es.len() - i,
    {
        assert(es@.take(i + 1).drop_last() =~= es@.take(i as int));
        let ghost before = r@;
        let ghost e1 = stderr@;
        match parse_role_object_entry(&es[i], stderr) {
            Some(o) => {
                let ghost om = object_model(o);
                r.push(o);
                assert(objects_model(r@) =~= objects_model(before).push(om));
            },
            None => {},
        }
        assert(stderr@ =~= e0 + parsed_entries(es@.take(i + 1)).1);
        i = i + 1;
    }
    assert(es@.take(i as int) =~= es@);
    r
}

fn push_right_lines(lines: &mut Vec<Vec<char>>, r: &RoleRight)
    ensures
        views(final(lines)@) == views(old(lines)@) + right_lines(right_model(*r)),
{
    let ghost start = views(lines@);
    let empty: Vec<char> = Vec::new();
    push_line(lines, chars_of("        <right>"));
    push_line(lines, wrap(&empty, "            <name>", &r.name, "</name>"));
    push_line(lines, wrap(&empty, "            <value>", &r.value, "</value>"));
    match &r.condition {
        Some(c) => {
            push_line(lines, chars_of("            <restrictionByCondition>"));
            push_line(lines, wrap_escaped(&empty, "                <condition>", c, "</condition>"));
            push_line(lines, chars_of("            </restrictionByCondition>"));
        },
        None => {},
    }
    push_line(lines, chars_of("        </right>"));
    assert(empty@ =~= Seq::<char>::empty());
    assert(views(lines@) =~= start + right_lines(right_model(*r)));
}

fn push_object_lines(lines: &mut Vec<Vec<char>>, o: &RoleObject) -> (n: usize)
    ensures
        views(final(lines)@) == views(old(lines)@) + object_lines(object_model(*o)),
        n == o.rights@.len(),
{
    let ghost start = views(lines@);
    let empty: Vec<char> = Vec::new();
    push_line(lines, chars_of("    <object>"));
    push_line(lines, wrap(&empty, "        <name>", &o.name, "</name>"));
    let ghost mid = views(lines@);
    let ghost rm = rights_model(o.rights@);
    let mut i: usize = 0;
    while i < o.rights.len()
        invariant
            i <= o.rights@.len(),
            rm == rights_model(o.rights@),
            views(lines@) == mid + rights_lines(rm.take(i as int)),
        decreases o.rights.len() - i,
    {
        assert(rm.take(i + 1).drop_last() =~= rm.take(i as int));
        push_right_lines(lines, &o.rights[i]);
        assert(views(lines@) =~= mid + rights_lines(rm.take(i + 1)));
        i = i + 1;
    }
    assert(rm.take(i as int) =~= rm);
    push_line(lines, chars_of("    </object>"));
    assert(empty@ =~= Seq::<char>::empty());
    assert(views(lines@) =~= start + object_lines(object_model(*o)));
    o.rights.len()
}

fn rights_xml(
    format_version: &[char],
    set_for_new: &[char],
    set_for_attributes: &[char],
    independent: &[char],
    objects: &Vec<RoleObject>,
    templates: &Vec<(Vec<char>, Vec<char>)>,
) -> (r: (Vec<char>, u128))
    ensures
        r.0@ == rights_file(
            format_version@,
            set_for_new@,
            set_for_attributes@,
            independent@,
            objects_model(objects@),
            pair_views(templates@),
        ),
        r.1 == rights_total(objects_model(objects@)),
{
    let empty: Vec<char> = Vec::new();
    let mut lines: Vec<Vec<char>> = Vec::new();
    push_line(&mut lines, chars_of("<?xml version=\"1.0\" encoding=\"UTF-8\"?>"));
    push_line(&mut lines, chars_of("<Rights xmlns=\"http://v8.1c.ru/8.2/roles\""));
    push_line(&mut lines, chars_of("        xmlns:xs=\"http://www.w3.org/2001/XMLSchema\""));
    push_line(&mut lines, chars_of("        xmlns:xsi=\"http://www.w3.org/2001/XMLSchema-instance\""));
    push_line(&mut lines, wrap(&empty, "        xsi:type=\"Rights\" version=\"", format_version, "\">"));
    push_line(&mut lines, wrap(&empty, "    <setForNewObjects>", set_for_new, "</setForNewObjects>"));
    push_line(&mut lines, wrap(&empty, "    <setForAttributesByDefault>", set_for_attributes, "</setForAttributesByDefault>"));
    push_line(
        &mut lines,
        wrap(&empty, "    <independentRightsOfChildObjects>", independent, "</independentRightsOfChildObjects>"),
    );
    let ghost head = views(lines@);
    let ghost om = objects_model(objects@);
    let mut total: u128 = 0;
    let mut i: usize = 0;
    while i < objects.len()
        invariant
            i <= objects@.len(),
            om == objects_model(objects@),
            views(lines@) == head + objects_lines(om.take(i as int)),
            total == rights_total(om.take(i as int)),
            total <= i * 0x1_0000_0000_0000_0000,
        decreases objects.len() - i,
    {
        assert(om.take(i + 1).drop_last() =~= om.take(i as int));
        let n = push_object_lines(&mut lines, &objects[i]);
        assert(views(lines@) =~= head + objects_lines(om.take(i + 1)));
        assert(om[i as int].rights.len() == n);
        total = total + n as u128;
        i = i + 1;
    }
    assert(om.take(i as int) =~= om);
    assert(empty@ =~= Seq::<char>::empty());
    let ghost mid = views(lines@);
    let ghost tv = pair_views(templates@);
    let mut k: usize = 0;
    while k < templates.len()
        invariant
            k <= templates@.len(),
            tv == pair_views(templates@),
            empty@ == Seq::<char>::empty(),
            views(lines@) == mid + templates_lines(tv.take(k as int)),
        decreases templates.len() - k,
    {
        assert(tv.take(k + 1).drop_last() =~= tv.take(k as int));
        push_line(&mut lines, chars_of("    <restrictionTemplate>"));
        push_line(&mut lines, wrap_escaped(&empty, "        <name>", &templates[k].0, "</name>"));
        push_line(&mut lines, wrap_escaped(&empty, "        <condition>", &templates[k].1, "</condition>"));
        push_line(&mut lines, chars_of("    </restrictionTemplate>"));
        assert(empty@ =~= Seq::<char>::empty());
        assert(views(lines@) =~= mid + templates_lines(tv.take(k + 1)));
        k = k + 1;
    }
    assert(tv.take(k as int) =~= tv);
    push_line(&mut lines, chars_of("</Rights>"));
    assert(views(lines@) =~= seq![
        "<?xml version=\"1.0\" encoding=\"UTF-8\"?>"@,
        "<Rights xmlns=\"http://v8.1c.ru/8.2/roles\""@,
        "        xmlns:xs=\"http://www.w3.org/2001/XMLSchema\""@,
        "        xmlns:xsi=\"http://www.w3.org/2001/XMLSchema-instance\""@,
        "        xsi:type=\"Rights\" version=\""@ + format_version@ + "\">"@,
        "    <setForNewObjects>"@ + set_for_new@ + "</setForNewObjects>"@,
        "    <setForAttributesByDefault>"@ + set_for_attributes@ + "</setForAttributesByDefault>"@,
        "    <independentRightsOfChildObjects>"@ + independent@ + "</independentRightsOfChildObjects>"@,
    ] + objects_lines(om) + templates_lines(tv) + seq!["</Rights>"@]);
    let mut text = join_str(&lines, "\n");
    push_str(&mut text, "\n");
    (text, total)
}

/// Compiles a role definition into its metadata and rights files, with `uid`
/// as the role's UUID.
pub fn role_compile(d: &RoleDefinition, format_version: &[char], uid: &[char]) -> (r: Result<RoleCompiled, Vec<char>>)
    ensures
        match compiled_role(*d, format_version@, uid@) {
            Ok((meta, rights, warnings, n_objects, n_rights, n_templates)) => r matches Ok(c) && c.metadata_xml@ == meta
                && c.rights_xml@ == rights && c.stderr@ == warnings && c.objects == n_objects && c.rights == n_rights
                && c.templates == n_templates,
            Err(e) => r matches Err(m) && m@ == e,
        },
{
    if d.name.len() == 0 {
        return Err(chars_of("JSON must have 'name' field (role programmatic name)"));
    }
    let synonym = match &d.synonym {
        Some(s) => to_vec(s),
        None => to_vec(&d.name),
    };
    let mut stderr: Vec<char> = Vec::new();
    let objects = parse_entries(&d.objects, &mut stderr);
    assert(stderr@ =~= parsed_entries(d.objects@).1);
    let sfno = crate::subsystem::flag_value(&d.set_for_new_objects, "false");
    let sfab = crate::subsystem::flag_value(&d.set_for_attributes_by_default, "true");
    let irco = crate::subsystem::flag_value(&d.independent_rights_of_child_objects, "false");
    let (rights_text, total) = rights_xml(format_version, &sfno, &sfab, &irco, &objects, &d.templates);
    let meta = crate::role::role_metadata_xml(&d.name, &synonym, &d.comment, format_version, uid);
    Ok(RoleCompiled {
        metadata_xml: meta,
        rights_xml: rights_text,
        stderr,
        objects: objects.len(),
        rights: total,
        templates: d.templates.len(),
    })
}

/// How registering a role in the configuration went.
pub enum RoleRegistration {
    Already,
    Added,
}

/// Registering role `name` in the configuration text: after the last
/// `<Role>…</Role>` entry, or else before each end of `ChildObjects`.
pub open spec fn role_registered_text(raw: Seq<char>, name: Seq<char>) -> (RoleRegistration, Seq<char>) {
    let tag = "<Role>"@ + name + "</Role>"@;
    if contains(raw, tag) {
        (RoleRegistration::Already, raw)
    } else {
        match crate::role::last_pair_end(raw, "<Role>"@, "</Role>"@, 0) {
            Some(i) => (RoleRegistration::Added, raw.take(i) + "\n\t\t\t"@ + tag + raw.skip(i)),
            None => (
                RoleRegistration::Added,
                replace_all(raw, "</ChildObjects>"@, "\t\t\t"@ + tag + "\n\t\t</ChildObjects>"@),
            ),
        }
    }
}

proof fn lemma_last_pair_end_le(t: Seq<char>, open: Seq<char>, close: Seq<char>, s: int)
    requires
        0 <= s <= t.len(),
        close.len() > 0,
    ensures
        crate::role::last_pair_end(t, open, close, s) matches Some(i) ==> s <= i <= t.len(),
    decreases t.len() - s,
{
    match crate::text::first_match(t, open, s, t.len() as int) {
        None => {},
        Some(st) => {
            crate::text::lemma_first_match_bounds(t, open, s, t.len() as int);
            match crate::text::first_match(t, close, st, t.len() as int) {
                None => {},
                Some(e) => {
                    crate::text::lemma_first_match_bounds(t, close, st, t.len() as int);
                    lemma_last_pair_end_le(t, open, close, e + close.len());
                },
            }
        },
    }
}

/// Registers role `name` in the configuration text.
pub fn role_register(raw: &[char], name: &[char]) -> (r: (RoleRegistration, Vec<char>))
    ensures
        (r.0, r.1@) == role_registered_text(raw@, name@),
{
    let empty: Vec<char> = Vec::new();
    let tag = wrap(&empty, "<Role>", name, "</Role>");
    assert(empty@ =~= Seq::<char>::empty());
    if crate::text::contains_chars(raw, &tag) {
        return (RoleRegistration::Already, to_vec(raw));
    }
    match crate::role::last_xml_role_end(raw) {
        Some(i) => {
            proof {
                reveal_strlit("</Role>");
                lemma_last_pair_end_le(raw@, "<Role>"@, "</Role>"@, 0);
            }
            let mut t = crate::text::slice_to_vec(raw, 0, i);
            push_str(&mut t, "\n\t\t\t");
            push_chars(&mut t, &tag);
            let rest = crate::text::slice_to_vec(raw, i, raw.len());
            push_chars(&mut t, &rest);
            (RoleRegistration::Added, t)
        },
        None => {
            let mut rep = chars_of("\t\t\t");
            push_chars(&mut rep, &tag);
            push_str(&mut rep, "\n\t\t</ChildObjects>");
            proof {
                reveal_strlit("</ChildObjects>");
            }
            (RoleRegistration::Added, crate::text::replace_chars(raw, &chars_of("</ChildObjects>"), &rep))
        },
    }
}

/// The UUID of the role described by an existing metadata file, where it is
/// one to keep: a valid UUID that is not an all-zero placeholder.
pub open spec fn reusable_uuid(text: Seq<char>) -> Option<Seq<char>> {
    match crate::xml::xml_tree(crate::skd_apply::without_boms(text)) {
        Ok(root) => reusable_tree_uuid(root),
        Err(_) => None,
    }
}

/// The UUID to keep from a parsed metadata file of a role.
pub open spec fn reusable_tree_uuid(root: crate::xml::XmlNode) -> Option<Seq<char>> {
    match crate::xml::find_named(root, "Role"@, None) {
        Some(role) => match crate::xml::attribute(role, "uuid"@) {
            Some(u) => if crate::metadata::is_uuid(u) && !starts_with(u, "00000000-0000-0000-"@) {
                Some(u)
            } else {
                None
            },
            None => None,
        },
        None => None,
    }
}

/// The UUID to keep from an existing metadata file of a role.
pub fn reusable_existing_role_uuid(text: &[char]) -> (r: Option<Vec<char>>)
    ensures
        crate::xml::opt_view(r) == reusable_uuid(text@),
{
    let body = crate::xml::strip_boms(text);
    let s = crate::external::string_of(&body);
    match crate::xml::xml_document(s.as_str()) {
        Ok(root) => reusable_role_uuid_tree(&root),
        Err(_) => None,
    }
}

/// The UUID to keep from a parsed metadata file of a role.
pub fn reusable_role_uuid_tree(root: &crate::xml::XmlElement) -> (r: Option<Vec<char>>)
    ensures
        crate::xml::opt_view(r) == reusable_tree_uuid(root@),
{
    match crate::xml::find_element(root, "Role", None) {
        Some(role) => match crate::xml::attribute_value(role, "uuid") {
            Some(u) => {
                if crate::metadata::is_valid_uuid(&u) && !crate::role::is_placeholder_uuid(&u) {
                    Some(u)
                } else {
                    None
                }
            },
            None => None,
        },
        None => None,
    }
}

/// What compiling a role reports: the summary and the registration line, or,
/// where there is no configuration to register in, a warning instead.
pub open spec fn role_compile_messages(
    name: Seq<char>,
    uid: Seq<char>,
    metadata_path: Seq<char>,
    rights_path: Seq<char>,
    objects: nat,
    rights: nat,
    templates: nat,
    registration: Option<RoleRegistration>,
    config_path: Seq<char>,
) -> (Seq<char>, Seq<char>) {
    let summary = "[OK] Role '"@ + name + "' compiled\n     UUID: "@ + uid + "\n     Metadata: "@ + metadata_path
        + "\n     Rights:   "@ + rights_path + "\n     Objects: "@ + nat_text(objects) + ", Rights: "@
        + nat_text(rights) + ", Templates: "@ + nat_text(templates) + "\n"@;
    match registration {
        Some(RoleRegistration::Added) => (
            summary + "     Configuration.xml: <Role>"@ + name + "</Role> added to ChildObjects\n"@,
            Seq::empty(),
        ),
        Some(RoleRegistration::Already) => (
            summary + "     Configuration.xml: <Role>"@ + name + "</Role> already registered\n"@,
            Seq::empty(),
        ),
        None => (
            summary,
            "WARNING: Configuration.xml not found at "@ + config_path + " -- register manually\n"@,
        ),
    }
}

/// The report of a compiled role.
pub fn role_compile_report(
    name: &[char],
    uid: &[char],
    metadata_path: &[char],
    rights_path: &[char],
    compiled: &RoleCompiled,
    registration: &Option<RoleRegistration>,
    config_path: &[char],
) -> (r: (Vec<char>, Vec<char>))
    ensures
        (r.0@, r.1@) == role_compile_messages(
            name@,
            uid@,
            metadata_path@,
            rights_path@,
            compiled.objects as nat,
            compiled.rights as nat,
            compiled.templates as nat,
            *registration,
            config_path@,
        ),
{
    let mut out = chars_of("[OK] Role '");
    push_chars(&mut out, name);
    push_str(&mut out, "' compiled\n     UUID: ");
    push_chars(&mut out, uid);
    push_str(&mut out, "\n     Metadata: ");
    push_chars(&mut out, metadata_path);
    push_str(&mut out, "\n     Rights:   ");
    push_chars(&mut out, rights_path);
    push_str(&mut out, "\n     Objects: ");
    push_chars(&mut out, &usize_text(compiled.objects));
    push_str(&mut out, ", Rights: ");
    push_chars(&mut out, &crate::numbers::u128_text(compiled.rights));
    push_str(&mut out, ", Templates: ");
    push_chars(&mut out, &usize_text(compiled.templates));
    push_str(&mut out, "\n");
    let mut err: Vec<char> = Vec::new();
    match registration {
        Some(RoleRegistration::Added) => {
            push_str(&mut out, "     Configuration.xml: <Role>");
            push_chars(&mut out, name);
            push_str(&mut out, "</Role> added to ChildObjects\n");
        },
        Some(RoleRegistration::Already) => {
            push_str(&mut out, "     Configuration.xml: <Role>");
            push_chars(&mut out, name);
            push_str(&mut out, "</Role> already registered\n");
        },
        None => {
            push_str(&mut err, "WARNING: Configuration.xml not found at ");
            push_chars(&mut err, config_path);
            push_str(&mut err, " -- register manually\n");
        },
    }
    (out, err)
}

} // verus!
