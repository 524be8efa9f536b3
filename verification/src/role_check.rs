//! The check of a role: its rights file, its metadata file, and its entry in
//! the configuration.
use vstd::prelude::*;
use crate::findings::{CheckReport, Finding, failures, finding_lines, passed, warnings};
use crate::metadata::{is_uuid, is_valid_uuid};
use crate::numbers::{nat_text, usize_text};
use crate::role::{known_rights, first_similar, object_type_of, role_report_text};
use crate::skd_apply::without_boms;
use crate::subsystem::{md, or_empty, read_view};
use crate::text::{chars_of, contains, count_matches, eq_str, first_match, join, lit_views, push_chars, push_str, views};
use crate::xml::{
    XmlElement, XmlNode, attribute, child_named, child_text, children_named, find_named, named, text_or_empty, xml_tree,
};

verus! {

/// The namespace of rights files.
pub open spec fn roles_ns() -> Option<Seq<char>> {
    Some("http://v8.1c.ru/8.2/roles"@)
}

/// The text of the last child of `n` in the rights namespace with the local
/// name `name`, or the empty text; from the `i`-th child on, `found` is the
/// text so far.
pub open spec fn last_text_from(n: XmlNode, name: Seq<char>, i: int, found: Seq<char>) -> Seq<char>
    decreases n.children.len() - i,
{
    if i < 0 || i >= n.children.len() {
        found
    } else if named(n.children[i], name, roles_ns()) {
        last_text_from(n, name, i + 1, text_or_empty(n.children[i]))
    } else {
        last_text_from(n, name, i + 1, found)
    }
}

/// The text of the last child in the rights namespace named `name`.
pub open spec fn last_text(n: XmlNode, name: Seq<char>) -> Seq<char> {
    last_text_from(n, name, 0, Seq::empty())
}

/// The warnings for the row restrictions of a right from its `i`-th child on,
/// `name` being the right's name as read so far.
pub open spec fn right_rls_from(obj_name: Seq<char>, right: XmlNode, i: int, name: Seq<char>) -> Seq<Finding>
    decreases right.children.len() - i,
{
    if i < 0 || i >= right.children.len() {
        Seq::empty()
    } else {
        let c = right.children[i];
        let next_name = if named(c, "name"@, roles_ns()) {
            text_or_empty(c)
        } else {
            name
        };
        let here = if named(c, "restrictionByCondition"@, roles_ns()) && child_text(c, "condition"@, roles_ns()).len()
            == 0 {
            seq![Finding::Warning(obj_name + ": RLS condition for '"@ + name + "' is empty"@)]
        } else {
            Seq::empty()
        };
        here + right_rls_from(obj_name, right, i + 1, next_name)
    }
}

/// The number of row restrictions of a right.
pub open spec fn rls_count(right: XmlNode) -> nat {
    children_named(right, "restrictionByCondition"@, roles_ns()).len()
}

/// The rights a nested object (a command, a channel, another part) admits.
pub open spec fn nested_rights(obj_name: Seq<char>) -> Seq<Seq<char>> {
    if contains(obj_name, ".Command."@) {
        seq!["View"@]
    } else if contains(obj_name, ".IntegrationServiceChannel."@) {
        seq!["Use"@]
    } else {
        seq!["View"@, "Edit"@]
    }
}

/// The warning for a right a nested object does not admit.
pub open spec fn nested_warning(obj_name: Seq<char>, right: Seq<char>) -> Seq<char> {
    if contains(obj_name, ".Command."@) {
        obj_name + ": '"@ + right + "' not valid for commands (only: View)"@
    } else if contains(obj_name, ".IntegrationServiceChannel."@) {
        obj_name + ": '"@ + right + "' not valid for channels (only: Use)"@
    } else {
        obj_name + ": '"@ + right + "' not valid for nested objects (only: View, Edit)"@
    }
}

/// Whether an object name names a part of an object (two or more dots).
pub open spec fn is_nested(obj_name: Seq<char>) -> bool {
    count_matches(obj_name, "."@) >= 2
}

/// The findings for one right of an object.
pub open spec fn right_findings(obj_name: Seq<char>, right: XmlNode) -> Seq<Finding> {
    let name = last_text(right, "name"@);
    let value = last_text(right, "value"@);
    let rls = right_rls_from(obj_name, right, 0, Seq::empty());
    rls + if name.len() == 0 {
        seq![Finding::Failure(obj_name + ": <right> without <name>"@)]
    } else if value != "true"@ && value != "false"@ {
        seq![Finding::Failure(obj_name + ": right '"@ + name + "' has invalid value '"@ + value + "'"@)]
    } else if is_nested(obj_name) {
        if nested_rights(obj_name).contains(name) {
            Seq::empty()
        } else {
            seq![Finding::Warning(nested_warning(obj_name, name))]
        }
    } else {
        let valid = known_rights(object_type_of(obj_name));
        if valid.len() == 0 || valid.contains(name) {
            Seq::empty()
        } else {
            let similar = first_similar(name, valid);
            seq![
                Finding::Warning(
                    obj_name + ": unknown right '"@ + name + "'."@ + if similar.len() == 0 {
                        Seq::empty()
                    } else {
                        " Did you mean: "@ + join(similar, ", "@) + "?"@
                    },
                ),
            ]
        }
    }
}

/// Whether a right is counted: it has a name and a `true` or `false` value.
pub open spec fn right_counted(right: XmlNode) -> bool {
    let value = last_text(right, "value"@);
    last_text(right, "name"@).len() > 0 && (value == "true"@ || value == "false"@)
}

/// The findings for the rights of an object, in order.
pub open spec fn rights_findings(obj_name: Seq<char>, rights: Seq<XmlNode>) -> Seq<Finding>
    decreases rights.len(),
{
    if rights.len() == 0 {
        Seq::empty()
    } else {
        rights_findings(obj_name, rights.drop_last()) + right_findings(obj_name, rights.last())
    }
}

/// The counted rights of objects with names, and their row restrictions.
pub open spec fn counted_rights(rights: Seq<XmlNode>) -> nat
    decreases rights.len(),
{
    if rights.len() == 0 {
        0
    } else {
        counted_rights(rights.drop_last()) + if right_counted(rights.last()) {
            1nat
        } else {
            0nat
        }
    }
}

pub open spec fn rls_total(rights: Seq<XmlNode>) -> nat
    decreases rights.len(),
{
    if rights.len() == 0 {
        0
    } else {
        rls_total(rights.drop_last()) + rls_count(rights.last())
    }
}

/// The findings for one object of a rights file.
pub open spec fn object_findings(obj: XmlNode) -> Seq<Finding> {
    let name = child_text(obj, "name"@, roles_ns());
    if name.len() == 0 {
        seq![Finding::Failure("Object without <name>"@)]
    } else {
        let kind = object_type_of(name);
        (if !is_nested(name) && known_rights(kind).len() == 0 {
            seq![Finding::Warning(name + ": unknown object type '"@ + kind + "'"@)]
        } else {
            Seq::empty()
        }) + rights_findings(name, children_named(obj, "right"@, roles_ns()))
    }
}

/// The counted rights of an object.
pub open spec fn object_rights(obj: XmlNode) -> nat {
    if child_text(obj, "name"@, roles_ns()).len() == 0 {
        0
    } else {
        counted_rights(children_named(obj, "right"@, roles_ns()))
    }
}

/// The row restrictions of an object.
pub open spec fn object_rls(obj: XmlNode) -> nat {
    if child_text(obj, "name"@, roles_ns()).len() == 0 {
        0
    } else {
        rls_total(children_named(obj, "right"@, roles_ns()))
    }
}

/// The findings for objects, in order.
pub open spec fn objects_findings(objs: Seq<XmlNode>) -> Seq<Finding>
    decreases objs.len(),
{
    if objs.len() == 0 {
        Seq::empty()
    } else {
        objects_findings(objs.drop_last()) + object_findings(objs.last())
    }
}

pub open spec fn objects_rights(objs: Seq<XmlNode>) -> nat
    decreases objs.len(),
{
    if objs.len() == 0 {
        0
    } else {
        objects_rights(objs.drop_last()) + object_rights(objs.last())
    }
}

pub open spec fn objects_rls(objs: Seq<XmlNode>) -> nat
    decreases objs.len(),
{
    if objs.len() == 0 {
        0
    } else {
        objects_rls(objs.drop_last()) + object_rls(objs.last())
    }
}

/// A template name without its parameter list.
pub open spec fn short_template_name(name: Seq<char>) -> Seq<char> {
    match first_match(name, "("@, 0, name.len() as int) {
        Some(i) => if i > 0 {
            name.take(i)
        } else {
            name
        },
        None => name,
    }
}

/// The findings for one restriction template.
pub open spec fn template_findings(t: XmlNode) -> Seq<Finding> {
    let name = last_text(t, "name"@);
    (if name.len() == 0 {
        seq![Finding::Warning("Restriction template without <name>"@)]
    } else {
        Seq::empty()
    }) + if last_text(t, "condition"@).len() == 0 {
        seq![Finding::Warning("Template '"@ + name + "': empty <condition>"@)]
    } else {
        Seq::empty()
    }
}

pub open spec fn templates_findings(ts: Seq<XmlNode>) -> Seq<Finding>
    decreases ts.len(),
{
    if ts.len() == 0 {
        Seq::empty()
    } else {
        templates_findings(ts.drop_last()) + template_findings(ts.last())
    }
}

/// The test for a template with a name.
pub open spec fn has_name() -> spec_fn(XmlNode) -> bool {
    |t: XmlNode| last_text(t, "name"@).len() > 0
}

/// The short names of the templates with names.
pub open spec fn template_names(ts: Seq<XmlNode>) -> Seq<Seq<char>> {
    ts.filter(has_name()).map_values(|t: XmlNode| short_template_name(last_text(t, "name"@)))
}

/// The findings for the root element and the global flags.
pub open spec fn root_findings(root: XmlNode) -> Seq<Finding> {
    let ns = "http://v8.1c.ru/8.2/roles"@;
    (if root.name != "Rights"@ {
        seq![Finding::Failure("Root element is '"@ + root.name + "', expected 'Rights'"@)]
    } else if root.namespace != ns {
        seq![Finding::Warning("Namespace is '"@ + root.namespace + "', expected 'http://v8.1c.ru/8.2/roles'"@)]
    } else {
        seq![Finding::Passed("Root element: <Rights> with correct namespace"@)]
    }) + flag_findings(root, "setForNewObjects"@) + flag_findings(root, "setForAttributesByDefault"@)
        + flag_findings(root, "independentRightsOfChildObjects"@) + if child_named(root, "setForNewObjects"@, roles_ns())
        is Some && child_named(root, "setForAttributesByDefault"@, roles_ns()) is Some && child_named(
        root,
        "independentRightsOfChildObjects"@,
        roles_ns(),
    ) is Some {
        seq![Finding::Passed("3 global flags present"@)]
    } else {
        Seq::empty()
    }
}

/// The finding for one global flag.
pub open spec fn flag_findings(root: XmlNode, flag: Seq<char>) -> Seq<Finding> {
    match child_named(root, flag, roles_ns()) {
        Some(n) => if text_or_empty(n) != "true"@ && text_or_empty(n) != "false"@ {
            seq![Finding::Warning(flag + " = '"@ + text_or_empty(n) + "' (expected 'true' or 'false')"@)]
        } else {
            Seq::empty()
        },
        None => seq![Finding::Warning("Missing global flag: "@ + flag)],
    }
}

/// A count as it is reported: counts beyond the largest `u128` are reported as
/// that number.
pub open spec fn capped(n: nat) -> nat {
    if n > u128::MAX {
        u128::MAX as nat
    } else {
        n
    }
}

/// The findings for the rights file of a role.
pub open spec fn rights_file_findings(root: XmlNode) -> Seq<Finding> {
    let objs = children_named(root, "object"@, roles_ns());
    let ts = children_named(root, "restrictionTemplate"@, roles_ns());
    root_findings(root) + objects_findings(objs) + seq![
        Finding::Passed(nat_text(objs.len()) + " objects, "@ + nat_text(objects_rights(objs)) + " rights"@),
    ] + (if objects_rls(objs) > 0 {
        seq![Finding::Passed(nat_text(capped(objects_rls(objs))) + " RLS restrictions"@)]
    } else {
        Seq::empty()
    }) + if ts.len() > 0 {
        templates_findings(ts) + seq![
            Finding::Passed(nat_text(ts.len()) + " templates: "@ + join(template_names(ts), ", "@)),
        ]
    } else {
        Seq::empty()
    }
}

/// The findings for the metadata file of a role, and the name it gives.
pub open spec fn metadata_findings(meta: Option<Result<Seq<char>, Seq<char>>>) -> (Seq<Finding>, Seq<char>) {
    match meta {
        None => (Seq::empty(), Seq::empty()),
        Some(Err(e)) => (seq![Finding::Line(Seq::empty()), Finding::Failure("Metadata XML parse error: "@ + e)], Seq::empty()),
        Some(Ok(text)) => match xml_tree(without_boms(text)) {
            Err(e) => (seq![Finding::Line(Seq::empty()), Finding::Failure("Metadata XML parse error: "@ + e)], Seq::empty()),
            Ok(root) => match find_named(root, "Role"@, None) {
                None => (seq![Finding::Line(Seq::empty()), Finding::Failure("Metadata: <Role> element not found"@)], Seq::empty()),
                Some(role) => {
                    let uuid = or_empty(attribute(role, "uuid"@));
                    let first = if is_uuid(uuid) {
                        Finding::Passed("Metadata: UUID valid ("@ + uuid + ")"@)
                    } else {
                        Finding::Failure("Metadata: invalid UUID format '"@ + uuid + "'"@)
                    };
                    let (second, name) = match find_named(role, "Name"@, None) {
                        Some(n) => match n.text {
                            Some(t) => if t.len() > 0 {
                                (Finding::Passed("Metadata: Name = "@ + t), t)
                            } else {
                                (Finding::Failure("Metadata: <Name> is empty or missing"@), Seq::empty())
                            },
                            None => (Finding::Failure("Metadata: <Name> is empty or missing"@), Seq::empty()),
                        },
                        None => (Finding::Failure("Metadata: <Name> is empty or missing"@), Seq::empty()),
                    };
                    let third = match find_named(role, "Synonym"@, None) {
                        Some(s) => if s.children.len() > 0 {
                            Finding::Passed("Metadata: Synonym present"@)
                        } else {
                            Finding::Warning("Metadata: <Synonym> is empty"@)
                        },
                        None => Finding::Warning("Metadata: <Synonym> is empty"@),
                    };
                    (seq![Finding::Line(Seq::empty()), first, second, third], name)
                },
            },
        },
    }
}

/// The first `ChildObjects` of the configuration at or under `n`, in document
/// order; `inside` tells whether `n` stands in a configuration element.
pub open spec fn config_children(n: XmlNode, inside: bool) -> Option<XmlNode>
    decreases n, n.children.len() + 1,
{
    let here = inside || named(n, "Configuration"@, md());
    if named(n, "ChildObjects"@, md()) && here {
        Some(n)
    } else {
        config_children_in(n, here, 0)
    }
}

pub open spec fn config_children_in(n: XmlNode, inside: bool, i: int) -> Option<XmlNode>
    decreases n, n.children.len() - i,
{
    if 0 <= i < n.children.len() {
        proof {
            assert(decreases_to!(n => n.children));
            assert(decreases_to!(n.children => n.children[i]));
        }
        match config_children(n.children[i], inside) {
            Some(f) => Some(f),
            None => config_children_in(n, inside, i + 1),
        }
    } else {
        None
    }
}

/// Whether a `ChildObjects` element lists role `name`.
pub open spec fn lists_role(co: XmlNode, name: Seq<char>) -> bool {
    exists|i: int| 0 <= i < co.children.len() && named(#[trigger] co.children[i], "Role"@, md())
        && text_or_empty(co.children[i]) == name
}

/// The findings for the entry of role `name` in the configuration.
pub open spec fn config_findings(config: Option<Result<Seq<char>, Seq<char>>>, name: Seq<char>) -> Seq<Finding> {
    match config {
        None => Seq::empty(),
        Some(Err(e)) => seq![Finding::Line(Seq::empty()), Finding::Warning("Configuration.xml: parse error — "@ + e)],
        Some(Ok(text)) => match xml_tree(without_boms(text)) {
            Err(e) => seq![Finding::Line(Seq::empty()), Finding::Warning("Configuration.xml: parse error — "@ + e)],
            Ok(root) => match config_children(root, false) {
                None => seq![Finding::Line(Seq::empty())],
                Some(co) => if lists_role(co, name) {
                    seq![Finding::Line(Seq::empty()), Finding::Passed("Configuration.xml: <Role>"@ + name + "</Role> registered"@)]
                } else {
                    seq![
                        Finding::Line(Seq::empty()),
                        Finding::Warning("Configuration.xml: <Role>"@ + name + "</Role> NOT found in ChildObjects"@),
                    ]
                },
            },
        },
    }
}

/// The result of checking a role: whether no error was found, and the report.
/// `rights` is the rights file (`None` where it does not exist) at
/// `rights_path`; `meta` and `config` are the metadata file and the
/// configuration where they exist, or the error reading them; `role_dir` is
/// the name of the role's directory.
pub open spec fn role_check(
    rights: Option<Seq<char>>,
    rights_path: Seq<char>,
    meta: Option<Result<Seq<char>, Seq<char>>>,
    config: Option<Result<Seq<char>, Seq<char>>>,
    role_dir: Seq<char>,
    detailed: bool,
) -> (bool, Seq<char>) {
    match rights {
        None => (false, "[ERROR] File not found: "@ + rights_path),
        Some(text) => match xml_tree(without_boms(text)) {
            Err(e) => (false, "[ERROR] XML parse error: "@ + e),
            Ok(root) => role_tree_check(root, meta, config, role_dir, detailed),
        },
    }
}

/// The result of checking a parsed rights file, its metadata file and the
/// configuration: whether no error was found, and the report.
pub open spec fn role_tree_check(
    root: XmlNode,
    meta: Option<Result<Seq<char>, Seq<char>>>,
    config: Option<Result<Seq<char>, Seq<char>>>,
    role_dir: Seq<char>,
    detailed: bool,
) -> (bool, Seq<char>) {
    let (mf, meta_name) = metadata_findings(meta);
    let name = if meta_name.len() > 0 {
        meta_name
    } else {
        role_dir
    };
    let fs = seq![Finding::Passed("XML well-formed"@)] + rights_file_findings(root) + mf + config_findings(config, name);
    (failures(fs) == 0, role_report_text(finding_lines(fs, detailed), failures(fs), warnings(fs), passed(fs), detailed, name))
}

fn text3(a: &str, b: &[char], c: &str) -> (r: Vec<char>)
    ensures
        r@ == a@ + b@ + c@,
{
    let mut r = chars_of(a);
    push_chars(&mut r, b);
    push_str(&mut r, c);
    r
}

fn last_text_exec(n: &XmlElement, name: &str) -> (r: Vec<char>)
    ensures
        r@ == last_text(n@, name@),
{
    proof {
        crate::xml::lemma_children_view(*n);
    }
    let mut cur: Vec<char> = Vec::new();
    let mut i: usize = 0;
    assert(cur@ =~= Seq::<char>::empty());
    while i < n.children.len()
        invariant
            i <= n.children@.len(),
            n@.children == crate::xml::element_views(n.children@),
            last_text(n@, name@) == last_text_from(n@, name@, i as int, cur@),
        decreases n.children.len() - i,
    {
        if crate::xml::is_named(&n.children[i], name, Some("http://v8.1c.ru/8.2/roles")) {
            cur = crate::xml::text_of(&n.children[i]);
        }
        i = i + 1;
    }
    cur
}

fn is_one_of_texts(t: &[char], items: &[&'static str]) -> (b: bool)
    ensures
        b == lit_views(items@).contains(t@),
{
    let r = crate::text::is_one_of_exec(t, items);
    proof {
        if r {
            let k = choose|k: int| 0 <= k < lit_views(items@).len() && t@ == #[trigger] lit_views(items@)[k];
            assert(lit_views(items@)[k] == t@);
        } else {
            assert(!lit_views(items@).contains(t@)) by {
                if lit_views(items@).contains(t@) {
                    let k = choose|k: int| 0 <= k < lit_views(items@).len() && lit_views(items@)[k] == t@;
                    assert(t@ == lit_views(items@)[k]);
                }
            }
        }
    }
    r
}

fn right_verdict(report: &mut CheckReport, obj_name: &[char], name: &[char], value: &[char])
    requires
        old(report).wf(),
        passed(old(report).findings@) <= 64,
    ensures
        final(report).wf(),
        final(report).detailed == old(report).detailed,
        passed(final(report).findings@) == passed(old(report).findings@),
        final(report).findings@ == old(report).findings@ + if name@.len() == 0 {
            seq![Finding::Failure(obj_name@ + ": <right> without <name>"@)]
        } else if value@ != "true"@ && value@ != "false"@ {
            seq![Finding::Failure(obj_name@ + ": right '"@ + name@ + "' has invalid value '"@ + value@ + "'"@)]
        } else if is_nested(obj_name@) {
            if nested_rights(obj_name@).contains(name@) {
                Seq::empty()
            } else {
                seq![Finding::Warning(nested_warning(obj_name@, name@))]
            }
        } else {
            let valid = known_rights(object_type_of(obj_name@));
            if valid.len() == 0 || valid.contains(name@) {
                Seq::empty()
            } else {
                let similar = first_similar(name@, valid);
                seq![
                    Finding::Warning(
                        obj_name@ + ": unknown right '"@ + name@ + "'."@ + if similar.len() == 0 {
                            Seq::empty()
                        } else {
                            " Did you mean: "@ + join(similar, ", "@) + "?"@
                        },
                    ),
                ]
            }
        },
{
    let ghost start = report.findings@;
    if name.len() == 0 {
        proof {
            reveal_strlit("");
        }
        assert(""@ + obj_name@ + ": <right> without <name>"@ =~= obj_name@ + ": <right> without <name>"@);
        crate::findings::fail_checked(report, &text3("", obj_name, ": <right> without <name>"));
    } else if !eq_str(value, "true") && !eq_str(value, "false") {
        let mut m = text3("", obj_name, ": right '");
        push_chars(&mut m, name);
        push_str(&mut m, "' has invalid value '");
        push_chars(&mut m, value);
        push_str(&mut m, "'");
        proof {
            reveal_strlit("");
        }
        assert(m@ =~= obj_name@ + ": right '"@ + name@ + "' has invalid value '"@ + value@ + "'"@);
        crate::findings::fail_checked(report, &m);
    } else {
        proof {
            reveal_strlit(".");
        }
        let dots = crate::text::count_chars(obj_name, &chars_of("."));
        if dots >= 2 {
            let is_command = crate::text::contains_str(obj_name, ".Command.");
            let is_channel = crate::text::contains_str(obj_name, ".IntegrationServiceChannel.");
            let valid: &'static [&'static str] = if is_command {
                &["View"]
            } else if is_channel {
                &["Use"]
            } else {
                &["View", "Edit"]
            };
            assert(lit_views(valid@) =~= nested_rights(obj_name@));
            if !is_one_of_texts(name, valid) {
                let m = if is_command {
                    let mut m = text3("", obj_name, ": '");
                    push_chars(&mut m, name);
                    push_str(&mut m, "' not valid for commands (only: View)");
                    m
                } else if is_channel {
                    let mut m = text3("", obj_name, ": '");
                    push_chars(&mut m, name);
                    push_str(&mut m, "' not valid for channels (only: Use)");
                    m
                } else {
                    let mut m = text3("", obj_name, ": '");
                    push_chars(&mut m, name);
                    push_str(&mut m, "' not valid for nested objects (only: View, Edit)");
                    m
                };
                proof {
                    reveal_strlit("");
                }
                assert(m@ =~= nested_warning(obj_name@, name@));
                crate::findings::warn_checked(report, &m);
            }
        } else {
            let kind = crate::role::role_validate_object_type(obj_name);
            let valid = crate::role::role_validate_known_rights(&kind);
            if valid.len() > 0 && !is_one_of_texts(name, valid) {
                let similar = crate::role::role_validate_find_similar(name, valid);
                let mut m = text3("", obj_name, ": unknown right '");
                push_chars(&mut m, name);
                push_str(&mut m, "'.");
                if similar.len() > 0 {
                    push_str(&mut m, " Did you mean: ");
                    push_chars(&mut m, &crate::text::join_str(&similar, ", "));
                    push_str(&mut m, "?");
                }
                proof {
                    reveal_strlit("");
                    let similar_v = first_similar(name@, known_rights(object_type_of(obj_name@)));
                    assert(m@ =~= obj_name@ + ": unknown right '"@ + name@ + "'."@ + if similar_v.len() == 0 {
                        Seq::<char>::empty()
                    } else {
                        " Did you mean: "@ + join(similar_v, ", "@) + "?"@
                    });
                }
                crate::findings::warn_checked(report, &m);
            }
        }
    }
    assert(report.findings@ =~= start + if name@.len() == 0 {
        seq![Finding::Failure(obj_name@ + ": <right> without <name>"@)]
    } else if value@ != "true"@ && value@ != "false"@ {
        seq![Finding::Failure(obj_name@ + ": right '"@ + name@ + "' has invalid value '"@ + value@ + "'"@)]
    } else if is_nested(obj_name@) {
        if nested_rights(obj_name@).contains(name@) {
            Seq::empty()
        } else {
            seq![Finding::Warning(nested_warning(obj_name@, name@))]
        }
    } else {
        let valid = known_rights(object_type_of(obj_name@));
        if valid.len() == 0 || valid.contains(name@) {
            Seq::empty()
        } else {
            let similar = first_similar(name@, valid);
            seq![
                Finding::Warning(
                    obj_name@ + ": unknown right '"@ + name@ + "'."@ + if similar.len() == 0 {
                        Seq::empty()
                    } else {
                        " Did you mean: "@ + join(similar, ", "@) + "?"@
                    },
                ),
            ]
        }
    });
}

/// The test for a row restriction child.
pub open spec fn rls_pred() -> spec_fn(XmlNode) -> bool {
    crate::xml::named_pred("restrictionByCondition"@, roles_ns())
}

proof fn lemma_rls_count(right: XmlNode)
    ensures
        rls_count(right) == right.children.filter(rls_pred()).len(),
        rls_count(right) <= right.children.len(),
{
    right.children.lemma_filter_len(rls_pred());
}

fn check_right(report: &mut CheckReport, obj_name: &[char], right: &XmlElement) -> (r: (bool, usize))
    requires
        old(report).wf(),
        passed(old(report).findings@) <= 64,
    ensures
        final(report).wf(),
        final(report).detailed == old(report).detailed,
        passed(final(report).findings@) == passed(old(report).findings@),
        final(report).findings@ == old(report).findings@ + right_findings(obj_name@, right@),
        r.0 == right_counted(right@),
        r.1 == rls_count(right@),
{
    proof {
        crate::xml::lemma_children_view(*right);
        crate::text::lemma_filter_empty(right@.children, rls_pred());
        lemma_rls_count(right@);
    }
    let ghost start = report.findings@;
    let ghost done: Seq<Finding> = Seq::empty();
    let mut cur: Vec<char> = Vec::new();
    let mut rls: usize = 0;
    let mut i: usize = 0;
    assert(cur@ =~= Seq::<char>::empty());
    assert(right_rls_from(obj_name@, right@, 0, Seq::empty()) =~= done + right_rls_from(obj_name@, right@, 0, cur@));
    while i < right.children.len()
        invariant
            i <= right.children@.len(),
            right@.children == crate::xml::element_views(right.children@),
            report.wf(),
            report.detailed == old(report).detailed,
            passed(report.findings@) == passed(old(report).findings@),
            passed(old(report).findings@) <= 64,
            start == old(report).findings@,
            report.findings@ == start + done,
            right_rls_from(obj_name@, right@, 0, Seq::empty()) == done + right_rls_from(obj_name@, right@, i as int, cur@),
            last_text(right@, "name"@) == last_text_from(right@, "name"@, i as int, cur@),
            rls == right@.children.take(i as int).filter(rls_pred()).len(),
            rls <= i,
        decreases right.children.len() - i,
    {
        let c = &right.children[i];
        proof {
            crate::text::lemma_filter_take_step(right@.children, rls_pred(), i as int);
        }
        let ghost before = report.findings@;
        if crate::xml::is_named(c, "restrictionByCondition", Some("http://v8.1c.ru/8.2/roles")) {
            rls = rls + 1;
            let cond = crate::xml::child_text_of(c, "condition", Some("http://v8.1c.ru/8.2/roles"));
            if cond.len() == 0 {
                let mut m = text3("", obj_name, ": RLS condition for '");
                push_chars(&mut m, &cur);
                push_str(&mut m, "' is empty");
                proof {
                    reveal_strlit("");
                }
                assert(m@ =~= obj_name@ + ": RLS condition for '"@ + cur@ + "' is empty"@);
                crate::findings::warn_checked(report, &m);
            }
        }
        let ghost here = report.findings@.skip(before.len() as int);
        assert(report.findings@ =~= before + here);
        proof {
            done = done + here;
        }
        assert(report.findings@ =~= start + done);
        if crate::xml::is_named(c, "name", Some("http://v8.1c.ru/8.2/roles")) {
            cur = crate::xml::text_of(c);
        }
        assert(right_rls_from(obj_name@, right@, 0, Seq::empty()) =~= done + right_rls_from(obj_name@, right@, i + 1, cur@));
        i = i + 1;
    }
    assert(right@.children.take(i as int) =~= right@.children);
    let value = last_text_exec(right, "value");
    let ghost mid = report.findings@;
    right_verdict(report, obj_name, &cur, &value);
    assert(report.findings@ =~= old(report).findings@ + right_findings(obj_name@, right@));
    let counted = cur.len() > 0 && (eq_str(&value, "true") || eq_str(&value, "false"));
    (counted, rls)
}

proof fn lemma_rights_step(obj_name: Seq<char>, rights: Seq<XmlNode>, x: XmlNode)
    ensures
        rights_findings(obj_name, rights.push(x)) == rights_findings(obj_name, rights) + right_findings(obj_name, x),
        counted_rights(rights.push(x)) == counted_rights(rights) + if right_counted(x) {
            1nat
        } else {
            0nat
        },
        rls_total(rights.push(x)) == rls_total(rights) + rls_count(x),
{
    assert(rights.push(x).drop_last() =~= rights);
}

proof fn lemma_counted_bound(rights: Seq<XmlNode>)
    ensures
        counted_rights(rights) <= rights.len(),
    decreases rights.len(),
{
    if rights.len() > 0 {
        lemma_counted_bound(rights.drop_last());
    }
}

fn check_object(report: &mut CheckReport, obj: &XmlElement) -> (r: (u128, u128))
    requires
        old(report).wf(),
        passed(old(report).findings@) <= 64,
    ensures
        final(report).wf(),
        final(report).detailed == old(report).detailed,
        passed(final(report).findings@) == passed(old(report).findings@),
        final(report).findings@ == old(report).findings@ + object_findings(obj@),
        r.0 == object_rights(obj@),
        r.1 == object_rls(obj@),
        r.0 <= obj@.children.len(),
{
    proof {
        crate::xml::lemma_children_view(*obj);
    }
    let name = crate::xml::child_text_of(obj, "name", Some("http://v8.1c.ru/8.2/roles"));
    if name.len() == 0 {
        crate::findings::fail_checked(report, &chars_of("Object without <name>"));
        assert(report.findings@ =~= old(report).findings@ + object_findings(obj@));
        return (0, 0);
    }
    let kind = crate::role::role_validate_object_type(&name);
    proof {
        reveal_strlit(".");
    }
    let dots = crate::text::count_chars(&name, &chars_of("."));
    if dots < 2 && crate::role::role_validate_known_rights(&kind).len() == 0 {
        let mut m = text3("", &name, ": unknown object type '");
        push_chars(&mut m, &kind);
        push_str(&mut m, "'");
        proof {
            reveal_strlit("");
        }
        assert(m@ =~= name@ + ": unknown object type '"@ + kind@ + "'"@);
        crate::findings::warn_checked(report, &m);
    }
    let ghost head = report.findings@;
    let ghost p = crate::xml::named_pred("right"@, roles_ns());
    proof {
        crate::text::lemma_filter_empty(obj@.children, p);
    }
    let mut counted: u128 = 0;
    let mut rls: u128 = 0;
    let mut i: usize = 0;
    while i < obj.children.len()
        invariant
            i <= obj.children@.len(),
            obj@.children == crate::xml::element_views(obj.children@),
            p == crate::xml::named_pred("right"@, roles_ns()),
            report.wf(),
            report.detailed == old(report).detailed,
            passed(report.findings@) == passed(old(report).findings@),
            passed(old(report).findings@) <= 64,
            report.findings@ == head + rights_findings(name@, obj@.children.take(i as int).filter(p)),
            counted == counted_rights(obj@.children.take(i as int).filter(p)),
            rls == rls_total(obj@.children.take(i as int).filter(p)),
            counted <= i,
            rls <= i * 0x1_0000_0000_0000_0000,
        decreases obj.children.len() - i,
    {
        let c = &obj.children[i];
        let ghost prev = obj@.children.take(i as int).filter(p);
        proof {
            crate::text::lemma_filter_take_step(obj@.children, p, i as int);
            lemma_rights_step(name@, prev, c@);
            lemma_counted_bound(prev);
        }
        if crate::xml::is_named(c, "right", Some("http://v8.1c.ru/8.2/roles")) {
            let (ok, n) = check_right(report, &name, c);
            proof {
                crate::xml::lemma_children_view(*c);
                lemma_rls_count(c@);
            }
            if ok {
                counted = counted + 1;
            }
            rls = rls + n as u128;
            assert(report.findings@ =~= head + rights_findings(name@, obj@.children.take(i + 1).filter(p)));
        }
        i = i + 1;
    }
    assert(obj@.children.take(i as int) =~= obj@.children);
    assert(report.findings@ =~= old(report).findings@ + object_findings(obj@));
    (counted, rls)
}

proof fn lemma_objects_step(objs: Seq<XmlNode>, x: XmlNode)
    ensures
        objects_findings(objs.push(x)) == objects_findings(objs) + object_findings(x),
        objects_rights(objs.push(x)) == objects_rights(objs) + object_rights(x),
        objects_rls(objs.push(x)) == objects_rls(objs) + object_rls(x),
{
    assert(objs.push(x).drop_last() =~= objs);
}

fn check_objects(report: &mut CheckReport, root: &XmlElement) -> (r: (usize, u128, u128))
    requires
        old(report).wf(),
        passed(old(report).findings@) <= 64,
    ensures
        final(report).wf(),
        final(report).detailed == old(report).detailed,
        passed(final(report).findings@) == passed(old(report).findings@),
        final(report).findings@ == old(report).findings@ + objects_findings(children_named(root@, "object"@, roles_ns())),
        r.0 == children_named(root@, "object"@, roles_ns()).len(),
        r.1 == objects_rights(children_named(root@, "object"@, roles_ns())),
        r.2 == capped(objects_rls(children_named(root@, "object"@, roles_ns()))),
{
    proof {
        crate::xml::lemma_children_view(*root);
    }
    let ghost head = report.findings@;
    let ghost p = crate::xml::named_pred("object"@, roles_ns());
    proof {
        crate::text::lemma_filter_empty(root@.children, p);
    }
    let mut count: usize = 0;
    let mut rights: u128 = 0;
    let mut rls: u128 = 0;
    let mut i: usize = 0;
    while i < root.children.len()
        invariant
            i <= root.children@.len(),
            root@.children == crate::xml::element_views(root.children@),
            p == crate::xml::named_pred("object"@, roles_ns()),
            report.wf(),
            report.detailed == old(report).detailed,
            passed(report.findings@) == passed(old(report).findings@),
            passed(old(report).findings@) <= 64,
            report.findings@ == head + objects_findings(root@.children.take(i as int).filter(p)),
            count == root@.children.take(i as int).filter(p).len(),
            count <= i,
            rights == objects_rights(root@.children.take(i as int).filter(p)),
            rights <= i * 0x1_0000_0000_0000_0000,
            rls == capped(objects_rls(root@.children.take(i as int).filter(p))),
        decreases root.children.len() - i,
    {
        let c = &root.children[i];
        let ghost prev = root@.children.take(i as int).filter(p);
        proof {
            crate::text::lemma_filter_take_step(root@.children, p, i as int);
            lemma_objects_step(prev, c@);
        }
        if crate::xml::is_named(c, "object", Some("http://v8.1c.ru/8.2/roles")) {
            let (n, k) = check_object(report, c);
            let cl = c.children.len();
            proof {
                crate::xml::lemma_children_view(*c);
            }
            assert(n <= cl);
            count = count + 1;
            rights = rights + n;
            rls = if rls > u128::MAX - k {
                u128::MAX
            } else {
                rls + k
            };
            assert(report.findings@ =~= head + objects_findings(root@.children.take(i + 1).filter(p)));
        }
        i = i + 1;
    }
    assert(root@.children.take(i as int) =~= root@.children);
    (count, rights, rls)
}

fn short_name_exec(name: &[char]) -> (r: Vec<char>)
    ensures
        r@ == short_template_name(name@),
{
    match crate::text::find_str(name, "(", 0, name.len()) {
        Some(i) => {
            proof {
                reveal_strlit("(");
                crate::text::lemma_first_match_bounds(name@, "("@, 0, name@.len() as int);
            }
            if i > 0 {
                crate::text::slice_to_vec(name, 0, i)
            } else {
                crate::text::to_vec(name)
            }
        },
        None => crate::text::to_vec(name),
    }
}

proof fn lemma_templates_step(ts: Seq<XmlNode>, x: XmlNode)
    ensures
        templates_findings(ts.push(x)) == templates_findings(ts) + template_findings(x),
{
    assert(ts.push(x).drop_last() =~= ts);
}

fn check_templates(report: &mut CheckReport, root: &XmlElement)
    requires
        old(report).wf(),
        passed(old(report).findings@) <= 60,
    ensures
        final(report).wf(),
        final(report).detailed == old(report).detailed,
        passed(final(report).findings@) <= passed(old(report).findings@) + 1,
        final(report).findings@ == old(report).findings@ + ({
            let ts = children_named(root@, "restrictionTemplate"@, roles_ns());
            if ts.len() > 0 {
                templates_findings(ts) + seq![
                    Finding::Passed(nat_text(ts.len()) + " templates: "@ + join(template_names(ts), ", "@)),
                ]
            } else {
                Seq::empty()
            }
        }),
{
    proof {
        crate::xml::lemma_children_view(*root);
    }
    let ghost head = report.findings@;
    let ghost p = crate::xml::named_pred("restrictionTemplate"@, roles_ns());
    let ghost q = has_name();
    proof {
        crate::text::lemma_filter_empty(root@.children, p);
        crate::text::lemma_filter_empty(Seq::<XmlNode>::empty(), q);
        assert(Seq::<XmlNode>::empty().take(0) =~= Seq::<XmlNode>::empty());
    }
    let mut count: usize = 0;
    let mut names: Vec<Vec<char>> = Vec::new();
    let mut i: usize = 0;
    while i < root.children.len()
        invariant
            i <= root.children@.len(),
            root@.children == crate::xml::element_views(root.children@),
            p == crate::xml::named_pred("restrictionTemplate"@, roles_ns()),
            q == has_name(),
            report.wf(),
            report.detailed == old(report).detailed,
            passed(report.findings@) == passed(old(report).findings@),
            passed(old(report).findings@) <= 60,
            report.findings@ == head + templates_findings(root@.children.take(i as int).filter(p)),
            count == root@.children.take(i as int).filter(p).len(),
            count <= i,
            views(names@) == template_names(root@.children.take(i as int).filter(p)),
        decreases root.children.len() - i,
    {
        let c = &root.children[i];
        let ghost prev = root@.children.take(i as int).filter(p);
        proof {
            crate::text::lemma_filter_take_step(root@.children, p, i as int);
            lemma_templates_step(prev, c@);
        }
        if crate::xml::is_named(c, "restrictionTemplate", Some("http://v8.1c.ru/8.2/roles")) {
            let name = last_text_exec(c, "name");
            let cond = last_text_exec(c, "condition");
            proof {
                crate::text::lemma_filter_take_step(prev.push(c@), q, prev.len() as int);
                assert(prev.push(c@).take(prev.len() as int) =~= prev);
                assert(prev.push(c@).take((prev.len() + 1) as int) =~= prev.push(c@));
                assert(prev.take(prev.len() as int) =~= prev);
            }
            if name.len() == 0 {
                crate::findings::warn_checked(report, &chars_of("Restriction template without <name>"));
            } else {
                let short = short_name_exec(&name);
                let ghost nv = names@;
                let ghost sv = short@;
                crate::skd_fragments::push_line(&mut names, short);
                assert(prev.push(c@).filter(q).map_values(|t: XmlNode| short_template_name(last_text(t, "name"@))) =~= prev.filter(q).map_values(
                    |t: XmlNode| short_template_name(last_text(t, "name"@)),
                ).push(sv));
            }
            if cond.len() == 0 {
                let m = text3("Template '", &name, "': empty <condition>");
                crate::findings::warn_checked(report, &m);
            }
            count = count + 1;
            assert(report.findings@ =~= head + templates_findings(root@.children.take(i + 1).filter(p)));
        }
        i = i + 1;
    }
    assert(root@.children.take(i as int) =~= root@.children);
    let ghost ts = children_named(root@, "restrictionTemplate"@, roles_ns());
    assert(root@.children.filter(p) == ts);
    if count > 0 {
        let mut m = usize_text(count);
        push_str(&mut m, " templates: ");
        push_chars(&mut m, &crate::text::join_str(&names, ", "));
        crate::findings::pass_checked(report, &m);
    }
    assert(report.findings@ =~= old(report).findings@ + if ts.len() > 0 {
        templates_findings(ts) + seq![
            Finding::Passed(nat_text(ts.len()) + " templates: "@ + join(template_names(ts), ", "@)),
        ]
    } else {
        Seq::empty()
    });
}

fn check_flag(report: &mut CheckReport, root: &XmlElement, flag: &str) -> (found: bool)
    requires
        old(report).wf(),
        passed(old(report).findings@) <= 64,
    ensures
        final(report).wf(),
        final(report).detailed == old(report).detailed,
        passed(final(report).findings@) == passed(old(report).findings@),
        final(report).findings@ == old(report).findings@ + flag_findings(root@, flag@),
        found == child_named(root@, flag@, roles_ns()) is Some,
{
    match crate::xml::child(root, flag, Some("http://v8.1c.ru/8.2/roles")) {
        Some(n) => {
            let v = crate::xml::text_of(n);
            if !eq_str(&v, "true") && !eq_str(&v, "false") {
                let mut m = text3("", &chars_of(flag), " = '");
                push_chars(&mut m, &v);
                push_str(&mut m, "' (expected 'true' or 'false')");
                proof {
                    reveal_strlit("");
                }
                assert(m@ =~= flag@ + " = '"@ + v@ + "' (expected 'true' or 'false')"@);
                crate::findings::warn_checked(report, &m);
            }
            assert(report.findings@ =~= old(report).findings@ + flag_findings(root@, flag@));
            true
        },
        None => {
            let mut m = chars_of("Missing global flag: ");
            push_str(&mut m, flag);
            crate::findings::warn_checked(report, &m);
            assert(report.findings@ =~= old(report).findings@ + flag_findings(root@, flag@));
            false
        },
    }
}

#[verifier::rlimit(50)]
fn check_root(report: &mut CheckReport, root: &XmlElement)
    requires
        old(report).wf(),
        passed(old(report).findings@) <= 8,
    ensures
        final(report).wf(),
        final(report).detailed == old(report).detailed,
        passed(final(report).findings@) <= passed(old(report).findings@) + 2,
        final(report).findings@ == old(report).findings@ + root_findings(root@),
{
    let ghost start = report.findings@;
    if !eq_str(&root.name, "Rights") {
        crate::findings::fail_checked(report, &text3("Root element is '", &root.name, "', expected 'Rights'"));
    } else if !eq_str(&root.namespace, "http://v8.1c.ru/8.2/roles") {
        crate::findings::warn_checked(
            report,
            &text3("Namespace is '", &root.namespace, "', expected 'http://v8.1c.ru/8.2/roles'"),
        );
    } else {
        crate::findings::pass_checked(report, &chars_of("Root element: <Rights> with correct namespace"));
    }
    let ghost a = report.findings@;
    let f1 = check_flag(report, root, "setForNewObjects");
    let f2 = check_flag(report, root, "setForAttributesByDefault");
    let f3 = check_flag(report, root, "independentRightsOfChildObjects");
    if f1 && f2 && f3 {
        crate::findings::pass_checked(report, &chars_of("3 global flags present"));
    }
    assert(report.findings@ =~= start + root_findings(root@));
}

#[verifier::rlimit(30)]
fn check_rights_file(report: &mut CheckReport, root: &XmlElement)
    requires
        old(report).wf(),
        passed(old(report).findings@) <= 1,
    ensures
        final(report).wf(),
        final(report).detailed == old(report).detailed,
        passed(final(report).findings@) <= passed(old(report).findings@) + 6,
        final(report).findings@ == old(report).findings@ + rights_file_findings(root@),
{
    let ghost start = report.findings@;
    check_root(report, root);
    let ghost a = report.findings@;
    let (n, rights, rls) = check_objects(report, root);
    let ghost b = report.findings@;
    let mut m = usize_text(n);
    push_str(&mut m, " objects, ");
    push_chars(&mut m, &crate::numbers::u128_text(rights));
    push_str(&mut m, " rights");
    crate::findings::pass_checked(report, &m);
    if rls > 0 {
        let mut m2 = crate::numbers::u128_text(rls);
        push_str(&mut m2, " RLS restrictions");
        crate::findings::pass_checked(report, &m2);
    }
    let ghost c = report.findings@;
    check_templates(report, root);
    proof {
        let objs = children_named(root@, "object"@, roles_ns());
        assert(capped(objects_rls(objs)) > 0 <==> objects_rls(objs) > 0);
    }
    assert(report.findings@ =~= start + rights_file_findings(root@));
}

fn check_metadata(report: &mut CheckReport, meta: &Option<Result<Vec<char>, Vec<char>>>) -> (name: Vec<char>)
    requires
        old(report).wf(),
        passed(old(report).findings@) <= 8,
    ensures
        final(report).wf(),
        final(report).detailed == old(report).detailed,
        passed(final(report).findings@) <= passed(old(report).findings@) + 3,
        final(report).findings@ == old(report).findings@ + metadata_findings(read_view(*meta)).0,
        name@ == metadata_findings(read_view(*meta)).1,
{
    let empty: Vec<char> = Vec::new();
    match meta {
        None => {
            assert(report.findings@ =~= old(report).findings@ + Seq::<Finding>::empty());
            Vec::new()
        },
        Some(Err(e)) => {
            crate::findings::line_checked(report, &empty);
            let mut m = chars_of("Metadata XML parse error: ");
            push_chars(&mut m, e);
            crate::findings::fail_checked(report, &m);
            assert(empty@ =~= Seq::<char>::empty());
            assert(report.findings@ =~= old(report).findings@ + metadata_findings(read_view(*meta)).0);
            Vec::new()
        },
        Some(Ok(text)) => {
            crate::findings::line_checked(report, &empty);
            assert(empty@ =~= Seq::<char>::empty());
            let body = crate::xml::strip_boms(text);
            let s = crate::external::string_of(&body);
            let root = match crate::xml::xml_document(s.as_str()) {
                Ok(root) => root,
                Err(e) => {
                    let mut m = chars_of("Metadata XML parse error: ");
                    push_chars(&mut m, &e);
                    crate::findings::fail_checked(report, &m);
                    assert(report.findings@ =~= old(report).findings@ + metadata_findings(read_view(*meta)).0);
                    return Vec::new();
                },
            };
            let role = match crate::xml::find_element(&root, "Role", None) {
                Some(role) => role,
                None => {
                    crate::findings::fail_checked(report, &chars_of("Metadata: <Role> element not found"));
                    assert(report.findings@ =~= old(report).findings@ + metadata_findings(read_view(*meta)).0);
                    return Vec::new();
                },
            };
            let uuid = match crate::xml::attribute_value(role, "uuid") {
                Some(u) => u,
                None => Vec::new(),
            };
            if is_valid_uuid(&uuid) {
                crate::findings::pass_checked(report, &text3("Metadata: UUID valid (", &uuid, ")"));
            } else {
                crate::findings::fail_checked(report, &text3("Metadata: invalid UUID format '", &uuid, "'"));
            }
            let mut name: Vec<char> = Vec::new();
            match crate::xml::find_element(role, "Name", None) {
                Some(n) => match &n.text {
                    Some(t) => {
                        if t.len() > 0 {
                            let mut m = chars_of("Metadata: Name = ");
                            push_chars(&mut m, t);
                            crate::findings::pass_checked(report, &m);
                            name = crate::text::to_vec(t);
                        } else {
                            crate::findings::fail_checked(report, &chars_of("Metadata: <Name> is empty or missing"));
                        }
                    },
                    None => {
                        crate::findings::fail_checked(report, &chars_of("Metadata: <Name> is empty or missing"));
                    },
                },
                None => {
                    crate::findings::fail_checked(report, &chars_of("Metadata: <Name> is empty or missing"));
                },
            }
            match crate::xml::find_element(role, "Synonym", None) {
                Some(syn) => {
                    proof {
                        crate::xml::lemma_children_view(*syn);
                    }
                    if syn.children.len() > 0 {
                        crate::findings::pass_checked(report, &chars_of("Metadata: Synonym present"));
                    } else {
                        crate::findings::warn_checked(report, &chars_of("Metadata: <Synonym> is empty"));
                    }
                },
                None => {
                    crate::findings::warn_checked(report, &chars_of("Metadata: <Synonym> is empty"));
                },
            }
            assert(report.findings@ =~= old(report).findings@ + metadata_findings(read_view(*meta)).0);
            name
        },
    }
}

fn find_config_children<'a>(e: &'a XmlElement, inside: bool) -> (r: Option<&'a XmlElement>)
    ensures
        match config_children(e@, inside) {
            Some(f) => r matches Some(x) && x@ == f,
            None => r is None,
        },
    decreases e,
{
    let here = inside || crate::xml::is_named(e, "Configuration", Some("http://v8.1c.ru/8.3/MDClasses"));
    if crate::xml::is_named(e, "ChildObjects", Some("http://v8.1c.ru/8.3/MDClasses")) && here {
        return Some(e);
    }
    proof {
        crate::xml::lemma_children_view(*e);
    }
    let mut i: usize = 0;
    while i < e.children.len()
        invariant
            i <= e.children@.len(),
            e@.children == crate::xml::element_views(e.children@),
            here == (inside || named(e@, "Configuration"@, md())),
            !(named(e@, "ChildObjects"@, md()) && here),
            config_children(e@, inside) == config_children_in(e@, here, i as int),
        decreases e.children.len() - i,
    {
        proof {
            assert(decreases_to!(*e => (*e).children));
            assert(decreases_to!((*e).children => (*e).children@));
            assert(decreases_to!((*e).children@ => (*e).children@[i as int]));
        }
        match find_config_children(&e.children[i], here) {
            Some(f) => {
                return Some(f);
            },
            None => {},
        }
        i = i + 1;
    }
    None
}

fn lists_role_exec(co: &XmlElement, name: &[char]) -> (b: bool)
    ensures
        b == lists_role(co@, name@),
{
    proof {
        crate::xml::lemma_children_view(*co);
    }
    let mut i: usize = 0;
    while i < co.children.len()
        invariant
            i <= co.children@.len(),
            co@.children == crate::xml::element_views(co.children@),
            forall|k: int|
                0 <= k < i ==> !(named(#[trigger] co@.children[k], "Role"@, md()) && text_or_empty(co@.children[k])
                    == name@),
        decreases co.children.len() - i,
    {
        let c = &co.children[i];
        if crate::xml::is_named(c, "Role", Some("http://v8.1c.ru/8.3/MDClasses")) && crate::text::eq_chars(
            &crate::xml::text_of(c),
            name,
        ) {
            assert(named(co@.children[i as int], "Role"@, md()) && text_or_empty(co@.children[i as int]) == name@);
            return true;
        }
        i = i + 1;
    }
    false
}

fn check_config(report: &mut CheckReport, config: &Option<Result<Vec<char>, Vec<char>>>, name: &[char])
    requires
        old(report).wf(),
        passed(old(report).findings@) <= 16,
    ensures
        final(report).wf(),
        final(report).detailed == old(report).detailed,
        final(report).findings@ == old(report).findings@ + config_findings(read_view(*config), name@),
{
    let empty: Vec<char> = Vec::new();
    match config {
        None => {
            assert(report.findings@ =~= old(report).findings@ + Seq::<Finding>::empty());
        },
        Some(Err(e)) => {
            crate::findings::line_checked(report, &empty);
            let mut m = chars_of("Configuration.xml: parse error — ");
            push_chars(&mut m, e);
            crate::findings::warn_checked(report, &m);
            assert(empty@ =~= Seq::<char>::empty());
            assert(report.findings@ =~= old(report).findings@ + config_findings(read_view(*config), name@));
        },
        Some(Ok(text)) => {
            crate::findings::line_checked(report, &empty);
            assert(empty@ =~= Seq::<char>::empty());
            let body = crate::xml::strip_boms(text);
            let s = crate::external::string_of(&body);
            match crate::xml::xml_document(s.as_str()) {
                Ok(root) => match find_config_children(&root, false) {
                    Some(co) => {
                        if lists_role_exec(co, name) {
                            crate::findings::pass_checked(report, &text3("Configuration.xml: <Role>", name, "</Role> registered"));
                        } else {
                            crate::findings::warn_checked(
                                report,
                                &text3("Configuration.xml: <Role>", name, "</Role> NOT found in ChildObjects"),
                            );
                        }
                    },
                    None => {},
                },
                Err(e) => {
                    let mut m = chars_of("Configuration.xml: parse error — ");
                    push_chars(&mut m, &e);
                    crate::findings::warn_checked(report, &m);
                },
            }
            assert(report.findings@ =~= old(report).findings@ + config_findings(read_view(*config), name@));
        },
    }
}

fn finish_role(report: CheckReport, name: &[char]) -> (r: Vec<char>)
    requires
        report.wf(),
    ensures
        r@ == role_report_text(
            finding_lines(report.findings@, report.detailed),
            failures(report.findings@),
            warnings(report.findings@),
            passed(report.findings@),
            report.detailed,
            name@,
        ),
{
    let checks = crate::findings::checks_text(&report);
    if report.errors == 0 && report.warnings == 0 && !report.detailed {
        let mut r = text3("=== Validation OK: Role.", name, " (");
        push_chars(&mut r, &checks);
        push_str(&mut r, " checks) ===");
        return r;
    }
    let totals = crate::findings::totals_text(&report);
    let ghost fs = report.findings@;
    let ghost lines = views(report.lines@);
    let mut all: Vec<Vec<char>> = Vec::new();
    crate::skd_fragments::push_line(&mut all, text3("=== Validation: Role.", name, " ==="));
    crate::skd_fragments::push_lines(&mut all, report.lines);
    crate::skd_fragments::push_line(&mut all, Vec::new());
    crate::skd_fragments::push_line(&mut all, totals);
    proof {
        reveal_strlit("");
    }
    assert(views(all@) =~= seq!["=== Validation: Role."@ + name@ + " ==="@] + lines + seq![
        Seq::empty(),
        "=== Result: "@ + nat_text(failures(fs)) + " errors, "@ + nat_text(warnings(fs)) + " warnings ("@
            + nat_text(passed(fs) + failures(fs) + warnings(fs)) + " checks) ==="@,
    ]);
    crate::text::join_str(&all, "\n")
}

/// Checks a role. `rights` is its rights file (`None` where there is none) at
/// `rights_path`; `metadata` and `configuration` are its metadata file and the
/// configuration, or the error reading them, where they exist; `role_dir` is
/// the name of the role's directory. Gives whether no error was found, and the
/// report.
pub fn role_validate(
    rights: &Option<Vec<char>>,
    rights_path: &[char],
    metadata: &Option<Result<Vec<char>, Vec<char>>>,
    configuration: &Option<Result<Vec<char>, Vec<char>>>,
    role_dir: &[char],
    detailed: bool,
) -> (r: (bool, Vec<char>))
    ensures
        (r.0, r.1@) == role_check(
            crate::xml::opt_view(*rights),
            rights_path@,
            read_view(*metadata),
            read_view(*configuration),
            role_dir@,
            detailed,
        ),
{
    let text = match rights {
        Some(t) => t,
        None => {
            let mut m = chars_of("[ERROR] File not found: ");
            push_chars(&mut m, rights_path);
            return (false, m);
        },
    };
    let body = crate::xml::strip_boms(text);
    let s = crate::external::string_of(&body);
    let root = match crate::xml::xml_document(s.as_str()) {
        Ok(root) => root,
        Err(e) => {
            let mut m = chars_of("[ERROR] XML parse error: ");
            push_chars(&mut m, &e);
            return (false, m);
        },
    };
    role_validate_tree(&root, metadata, configuration, role_dir, detailed)
}

/// Checks a parsed rights file: its rights, restrictions and templates, the
/// role's metadata file and its registration in the configuration (each read
/// or not found, or unreadable, by the caller).
pub fn role_validate_tree(
    root: &XmlElement,
    metadata: &Option<Result<Vec<char>, Vec<char>>>,
    configuration: &Option<Result<Vec<char>, Vec<char>>>,
    role_dir: &[char],
    detailed: bool,
) -> (r: (bool, Vec<char>))
    ensures
        (r.0, r.1@) == role_tree_check(root@, read_view(*metadata), read_view(*configuration), role_dir@, detailed),
{
    let mut report = CheckReport::new(detailed);
    crate::findings::pass_checked(&mut report, &chars_of("XML well-formed"));
    check_rights_file(&mut report, root);
    let meta_name = check_metadata(&mut report, metadata);
    let name = if meta_name.len() > 0 {
        meta_name
    } else {
        crate::text::to_vec(role_dir)
    };
    check_config(&mut report, configuration, &name);
    let ok = report.errors == 0;
    let ghost fs = report.findings@;
    assert(fs =~= seq![Finding::Passed("XML well-formed"@)] + rights_file_findings(root@) + metadata_findings(
        read_view(*metadata),
    ).0 + config_findings(read_view(*configuration), name@));
    (ok, finish_role(report, &name))
}

} // verus!
