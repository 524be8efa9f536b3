//! The command interface of a subsystem as report lines: which commands are
//! shown or hidden, where they are placed, and their order by group.
use vstd::prelude::*;
use crate::skd_check::{has_text, node_views};
use crate::skd_fragments::push_line;
use crate::text::{chars_of, push_chars, push_str, views};
use crate::xml::{attribute, child, child_named, child_text, child_text_of, children_named, children_with, find_named, XmlElement, XmlNode};
use crate::numbers::{nat_text, usize_text};

verus! {

pub open spec fn ci_ns() -> Option<Seq<char>> {
    Some("http://v8.1c.ru/8.3/xcf/extrnprops"@)
}

/// The `name` attribute of a command, or the empty text.
pub open spec fn command_name(c: XmlNode) -> Seq<char> {
    match attribute(c, "name"@) {
        Some(v) => v,
        None => Seq::empty(),
    }
}

/// A command is hidden where the first `Common` element at or under it says
/// `false`.
pub open spec fn hidden(c: XmlNode) -> bool {
    match find_named(c, "Common"@, None) {
        Some(x) => x.text == Some("false"@),
        None => false,
    }
}

/// The commands of a section of the root, where the root has that section.
pub open spec fn section_commands(root: XmlNode, section: Seq<char>) -> Option<Seq<XmlNode>> {
    match child_named(root, section, ci_ns()) {
        Some(s) => Some(children_named(s, "Command"@, ci_ns())),
        None => None,
    }
}

/// Each name as an indented item line.
pub open spec fn item_lines(names: Seq<Seq<char>>) -> Seq<Seq<char>> {
    names.map_values(|n: Seq<char>| "    "@ + n)
}

/// The names of the commands before the `i`-th that are hidden (or shown).
pub open spec fn names_where(cmds: Seq<XmlNode>, want_hidden: bool, i: int) -> Seq<Seq<char>>
    decreases i,
{
    if i <= 0 || i > cmds.len() {
        Seq::empty()
    } else {
        let before = names_where(cmds, want_hidden, i - 1);
        if hidden(cmds[i - 1]) == want_hidden {
            before.push(command_name(cmds[i - 1]))
        } else {
            before
        }
    }
}

pub open spec fn hidden_names(cmds: Seq<XmlNode>) -> Seq<Seq<char>> {
    names_where(cmds, true, cmds.len() as int)
}

pub open spec fn shown_names(cmds: Seq<XmlNode>) -> Seq<Seq<char>> {
    names_where(cmds, false, cmds.len() as int)
}

/// The visibility block: the count, the hidden and the shown commands.
pub open spec fn visibility_lines(root: XmlNode) -> Seq<Seq<char>> {
    match section_commands(root, "CommandsVisibility"@) {
        Some(cmds) => {
            let h = hidden_names(cmds);
            let s = shown_names(cmds);
            seq!["\u{412}\u{438}\u{434}\u{438}\u{43c}\u{43e}\u{441}\u{442}\u{44c} ("@ + nat_text(h.len() + s.len()) + "):"@]
                + (if h.len() > 0 {
                seq!["  \u{421}\u{41a}\u{420}\u{42b}\u{422}\u{41e} ("@ + nat_text(h.len()) + "):"@] + item_lines(h)
            } else {
                Seq::empty()
            }) + (if s.len() > 0 {
                seq!["  \u{41f}\u{41e}\u{41a}\u{410}\u{417}\u{410}\u{41d}\u{41e} ("@ + nat_text(s.len()) + "):"@] + item_lines(s)
            } else {
                Seq::empty()
            }) + seq![Seq::empty()]
        },
        None => Seq::empty(),
    }
}

/// A text, or `?` where it is empty.
pub open spec fn or_unknown(t: Seq<char>) -> Seq<char> {
    if t.len() == 0 {
        "?"@
    } else {
        t
    }
}

pub open spec fn placement_line(c: XmlNode) -> Seq<char> {
    "  "@ + command_name(c) + " \u{2192} "@ + or_unknown(child_text(c, "CommandGroup"@, ci_ns())) + " ("@ + or_unknown(
        child_text(c, "Placement"@, ci_ns()),
    ) + ")"@
}

/// The placement block, where there are placed commands.
pub open spec fn placement_lines(root: XmlNode) -> Seq<Seq<char>> {
    match section_commands(root, "CommandsPlacement"@) {
        Some(cmds) => if cmds.len() > 0 {
            seq!["\u{420}\u{430}\u{437}\u{43c}\u{435}\u{449}\u{435}\u{43d}\u{438}\u{435} ("@ + nat_text(cmds.len()) + "):"@]
                + cmds.map_values(|c: XmlNode| placement_line(c)) + seq![Seq::empty()]
        } else {
            Seq::empty()
        },
        None => Seq::empty(),
    }
}

pub open spec fn group_of(c: XmlNode) -> Seq<char> {
    or_unknown(child_text(c, "CommandGroup"@, ci_ns()))
}

/// The groups of the commands before the `i`-th, in the order they first come.
pub open spec fn groups_upto(cmds: Seq<XmlNode>, i: int) -> Seq<Seq<char>>
    decreases i,
{
    if i <= 0 {
        Seq::empty()
    } else {
        let g = groups_upto(cmds, i - 1);
        if g.contains(group_of(cmds[i - 1])) {
            g
        } else {
            g.push(group_of(cmds[i - 1]))
        }
    }
}

/// The names of the commands before the `i`-th in group `g`.
pub open spec fn names_in_group(cmds: Seq<XmlNode>, g: Seq<char>, i: int) -> Seq<Seq<char>>
    decreases i,
{
    if i <= 0 || i > cmds.len() {
        Seq::empty()
    } else {
        let before = names_in_group(cmds, g, i - 1);
        if group_of(cmds[i - 1]) == g {
            before.push(command_name(cmds[i - 1]))
        } else {
            before
        }
    }
}

/// The lines of the groups from the `k`-th on, each with its commands.
pub open spec fn group_block_lines(cmds: Seq<XmlNode>, groups: Seq<Seq<char>>, k: int) -> Seq<Seq<char>>
    decreases groups.len() - k,
{
    if 0 <= k < groups.len() {
        let g = groups[k];
        seq!["  ["@ + g + "]:"@] + item_lines(names_in_group(cmds, g, cmds.len() as int)) + group_block_lines(cmds, groups, k + 1)
    } else {
        Seq::empty()
    }
}

/// The order block, where there are commands in order.
pub open spec fn order_lines(root: XmlNode) -> Seq<Seq<char>> {
    match section_commands(root, "CommandsOrder"@) {
        Some(cmds) => if cmds.len() > 0 {
            seq!["\u{41f}\u{43e}\u{440}\u{44f}\u{434}\u{43e}\u{43a} \u{43a}\u{43e}\u{43c}\u{430}\u{43d}\u{434} ("@ + nat_text(cmds.len()) + "):"@]
                + group_block_lines(cmds, groups_upto(cmds, cmds.len() as int), 0) + seq![Seq::empty()]
        } else {
            Seq::empty()
        },
        None => Seq::empty(),
    }
}

/// The report of a parsed command interface of the subsystem `name`.
pub open spec fn ci_report(root: XmlNode, name: Seq<char>) -> Seq<Seq<char>> {
    seq!["\u{41a}\u{43e}\u{43c}\u{430}\u{43d}\u{434}\u{43d}\u{44b}\u{439} \u{438}\u{43d}\u{442}\u{435}\u{440}\u{444}\u{435}\u{439}\u{441}: "@ + name, Seq::empty()]
        + visibility_lines(root) + placement_lines(root) + order_lines(root)
}

/// Every command is either hidden or shown.
proof fn lemma_names_split(cmds: Seq<XmlNode>, i: int)
    requires
        0 <= i <= cmds.len(),
    ensures
        names_where(cmds, true, i).len() + names_where(cmds, false, i).len() == i,
    decreases i,
{
    if i > 0 {
        lemma_names_split(cmds, i - 1);
    }
}

fn command_name_exec(c: &XmlElement) -> (r: Vec<char>)
    ensures
        r@ == command_name(c@),
{
    match crate::xml::attribute_value(c, "name") {
        Some(v) => v,
        None => Vec::new(),
    }
}

fn hidden_exec(c: &XmlElement) -> (b: bool)
    ensures
        b == hidden(c@),
{
    match crate::xml::find_element(c, "Common", None) {
        Some(x) => match &x.text {
            Some(t) => crate::text::eq_str(t, "false"),
            None => false,
        },
        None => false,
    }
}

fn items_exec(lines: &mut Vec<Vec<char>>, names: &Vec<Vec<char>>)
    ensures
        views(final(lines)@) == views(old(lines)@) + item_lines(views(names@)),
{
    let ghost start = views(lines@);
    let mut i: usize = 0;
    while i < names.len()
        invariant
            i <= names@.len(),
            views(lines@) == start + item_lines(views(names@).take(i as int)),
        decreases names.len() - i,
    {
        let mut l = chars_of("    ");
        push_chars(&mut l, &names[i]);
        push_line(lines, l);
        assert(views(names@).take(i + 1) =~= views(names@).take(i as int).push(names@[i as int]@));
        assert(item_lines(views(names@).take(i + 1)) =~= item_lines(views(names@).take(i as int)).push("    "@ + names@[i as int]@));
        i = i + 1;
    }
    assert(views(names@).take(i as int) =~= views(names@));
}

fn counted(head: &str, n: usize) -> (r: Vec<char>)
    ensures
        r@ == head@ + nat_text(n as nat) + "):"@,
{
    let mut r = chars_of(head);
    push_chars(&mut r, &usize_text(n));
    push_str(&mut r, "):");
    r
}

fn visibility_exec(lines: &mut Vec<Vec<char>>, root: &XmlElement)
    ensures
        views(final(lines)@) == views(old(lines)@) + visibility_lines(root@),
{
    let ghost start = views(lines@);
    match child(root, "CommandsVisibility", Some("http://v8.1c.ru/8.3/xcf/extrnprops")) {
        Some(sec) => {
            let cmds = children_with(sec, "Command", Some("http://v8.1c.ru/8.3/xcf/extrnprops"));
            let ghost cs = children_named(sec@, "Command"@, ci_ns());
            let mut hid: Vec<Vec<char>> = Vec::new();
            let mut shown: Vec<Vec<char>> = Vec::new();
            let mut i: usize = 0;
            while i < cmds.len()
                invariant
                    i <= cmds@.len(),
                    cmds@.len() == cs.len(),
                    forall|k: int| 0 <= k < cmds@.len() ==> (#[trigger] cmds@[k])@ == cs[k],
                    views(hid@) == names_where(cs, true, i as int),
                    views(shown@) == names_where(cs, false, i as int),
                decreases cmds.len() - i,
            {
                assert(cmds@[i as int]@ == cs[i as int]);
                let name = command_name_exec(cmds[i]);
                if hidden_exec(cmds[i]) {
                    push_line(&mut hid, name);
                } else {
                    push_line(&mut shown, name);
                }
                i = i + 1;
            }
            proof {
                lemma_names_split(cs, cs.len() as int);
            }
            push_line(lines, counted("\u{412}\u{438}\u{434}\u{438}\u{43c}\u{43e}\u{441}\u{442}\u{44c} (", cmds.len()));
            let ghost a = views(lines@);
            if hid.len() > 0 {
                push_line(lines, counted("  \u{421}\u{41a}\u{420}\u{42b}\u{422}\u{41e} (", hid.len()));
                items_exec(lines, &hid);
            }
            let ghost b = views(lines@);
            if shown.len() > 0 {
                push_line(lines, counted("  \u{41f}\u{41e}\u{41a}\u{410}\u{417}\u{410}\u{41d}\u{41e} (", shown.len()));
                items_exec(lines, &shown);
            }
            let ghost c = views(lines@);
            push_line(lines, Vec::new());
            proof {
                let h = hidden_names(cs);
                let sh = shown_names(cs);
                if h.len() > 0 {
                    assert(b =~= a + (seq!["  \u{421}\u{41a}\u{420}\u{42b}\u{422}\u{41e} ("@ + nat_text(h.len()) + "):"@] + item_lines(h)));
                } else {
                    assert(b =~= a + Seq::<Seq<char>>::empty());
                }
                if sh.len() > 0 {
                    assert(c =~= b + (seq!["  \u{41f}\u{41e}\u{41a}\u{410}\u{417}\u{410}\u{41d}\u{41e} ("@ + nat_text(sh.len()) + "):"@] + item_lines(sh)));
                } else {
                    assert(c =~= b + Seq::<Seq<char>>::empty());
                }
                assert(views(lines@) =~= start + visibility_lines(root@));
            }
        },
        None => {},
    }
}

fn placement_exec(lines: &mut Vec<Vec<char>>, root: &XmlElement)
    ensures
        views(final(lines)@) == views(old(lines)@) + placement_lines(root@),
{
    let ghost start = views(lines@);
    match child(root, "CommandsPlacement", Some("http://v8.1c.ru/8.3/xcf/extrnprops")) {
        Some(sec) => {
            let cmds = children_with(sec, "Command", Some("http://v8.1c.ru/8.3/xcf/extrnprops"));
            let ghost cs = children_named(sec@, "Command"@, ci_ns());
            if cmds.len() == 0 {
                return;
            }
            push_line(lines, counted("\u{420}\u{430}\u{437}\u{43c}\u{435}\u{449}\u{435}\u{43d}\u{438}\u{435} (", cmds.len()));
            let ghost a = views(lines@);
            let mut i: usize = 0;
            while i < cmds.len()
                invariant
                    i <= cmds@.len(),
                    cmds@.len() == cs.len(),
                    forall|k: int| 0 <= k < cmds@.len() ==> (#[trigger] cmds@[k])@ == cs[k],
                    views(lines@) == a + cs.take(i as int).map_values(|c: XmlNode| placement_line(c)),
                decreases cmds.len() - i,
            {
                let c = cmds[i];
                assert(c@ == cs[i as int]);
                let group = child_text_of(c, "CommandGroup", Some("http://v8.1c.ru/8.3/xcf/extrnprops"));
                let place = child_text_of(c, "Placement", Some("http://v8.1c.ru/8.3/xcf/extrnprops"));
                let mut l = chars_of("  ");
                push_chars(&mut l, &command_name_exec(c));
                push_str(&mut l, " \u{2192} ");
                if group.len() == 0 {
                    push_str(&mut l, "?");
                } else {
                    push_chars(&mut l, &group);
                }
                push_str(&mut l, " (");
                if place.len() == 0 {
                    push_str(&mut l, "?");
                } else {
                    push_chars(&mut l, &place);
                }
                push_str(&mut l, ")");
                assert(l@ == placement_line(cs[i as int]));
                push_line(lines, l);
                assert(cs.take(i + 1) =~= cs.take(i as int).push(cs[i as int]));
                assert(cs.take(i + 1).map_values(|c: XmlNode| placement_line(c)) =~= cs.take(i as int).map_values(
                    |c: XmlNode| placement_line(c),
                ).push(placement_line(cs[i as int])));
                i = i + 1;
            }
            assert(cs.take(i as int) =~= cs);
            push_line(lines, Vec::new());
            assert(views(lines@) =~= start + placement_lines(root@));
        },
        None => {},
    }
}

fn group_of_exec(c: &XmlElement) -> (r: Vec<char>)
    ensures
        r@ == group_of(c@),
{
    let g = child_text_of(c, "CommandGroup", Some("http://v8.1c.ru/8.3/xcf/extrnprops"));
    if g.len() == 0 {
        chars_of("?")
    } else {
        g
    }
}

fn order_exec(lines: &mut Vec<Vec<char>>, root: &XmlElement)
    ensures
        views(final(lines)@) == views(old(lines)@) + order_lines(root@),
{
    let ghost start = views(lines@);
    match child(root, "CommandsOrder", Some("http://v8.1c.ru/8.3/xcf/extrnprops")) {
        Some(sec) => {
            let cmds = children_with(sec, "Command", Some("http://v8.1c.ru/8.3/xcf/extrnprops"));
            let ghost cs = children_named(sec@, "Command"@, ci_ns());
            if cmds.len() == 0 {
                return;
            }
            let mut groups: Vec<Vec<char>> = Vec::new();
            let mut pairs: Vec<(Vec<char>, Vec<char>)> = Vec::new();
            let mut i: usize = 0;
            while i < cmds.len()
                invariant
                    i <= cmds@.len(),
                    cmds@.len() == cs.len(),
                    forall|k: int| 0 <= k < cmds@.len() ==> (#[trigger] cmds@[k])@ == cs[k],
                    views(groups@) == groups_upto(cs, i as int),
                    pairs@.len() == i,
                    forall|k: int| 0 <= k < i ==> (#[trigger] pairs@[k]).0@ == group_of(cs[k]) && pairs@[k].1@ == command_name(cs[k]),
                decreases cmds.len() - i,
            {
                assert(cmds@[i as int]@ == cs[i as int]);
                let g = group_of_exec(cmds[i]);
                if !has_text(&groups, &g) {
                    push_line(&mut groups, crate::text::to_vec(&g));
                }
                pairs.push((g, command_name_exec(cmds[i])));
                i = i + 1;
            }
            push_line(lines, counted("\u{41f}\u{43e}\u{440}\u{44f}\u{434}\u{43e}\u{43a} \u{43a}\u{43e}\u{43c}\u{430}\u{43d}\u{434} (", cmds.len()));
            let ghost a = views(lines@);
            let ghost gs = groups_upto(cs, cs.len() as int);
            let mut k: usize = 0;
            while k < groups.len()
                invariant
                    k <= groups@.len(),
                    views(groups@) == gs,
                    pairs@.len() == cs.len(),
                    forall|m: int| 0 <= m < cs.len() ==> (#[trigger] pairs@[m]).0@ == group_of(cs[m]) && pairs@[m].1@ == command_name(cs[m]),
                    views(lines@) + group_block_lines(cs, gs, k as int) == a + group_block_lines(cs, gs, 0),
                decreases groups.len() - k,
            {
                let ghost before = views(lines@);
                let g = &groups[k];
                let mut head = chars_of("  [");
                push_chars(&mut head, g);
                push_str(&mut head, "]:");
                push_line(lines, head);
                let mut names: Vec<Vec<char>> = Vec::new();
                let mut m: usize = 0;
                while m < pairs.len()
                    invariant
                        m <= pairs@.len(),
                        pairs@.len() == cs.len(),
                        forall|q: int| 0 <= q < cs.len() ==> (#[trigger] pairs@[q]).0@ == group_of(cs[q]) && pairs@[q].1@ == command_name(cs[q]),
                        views(names@) == names_in_group(cs, g@, m as int),
                    decreases pairs.len() - m,
                {
                    assert(pairs@[m as int].0@ == group_of(cs[m as int]));
                    if crate::text::eq_chars(&pairs[m].0, g) {
                        push_line(&mut names, crate::text::to_vec(&pairs[m].1));
                    }
                    m = m + 1;
                }
                items_exec(lines, &names);
                assert(before + group_block_lines(cs, gs, k as int) =~= views(lines@) + group_block_lines(cs, gs, k + 1));
                k = k + 1;
            }
            assert(views(lines@) + group_block_lines(cs, gs, k as int) =~= views(lines@));
            push_line(lines, Vec::new());
            assert(views(lines@) =~= start + order_lines(root@));
        },
        None => {},
    }
}

/// The command interface report of the subsystem `name` from its parsed
/// command interface.
pub fn subsystem_info_ci_tree(root: &XmlElement, name: &[char]) -> (r: Vec<Vec<char>>)
    ensures
        views(r@) == ci_report(root@, name@),
{
    let mut lines: Vec<Vec<char>> = Vec::new();
    let mut head = chars_of("\u{41a}\u{43e}\u{43c}\u{430}\u{43d}\u{434}\u{43d}\u{44b}\u{439} \u{438}\u{43d}\u{442}\u{435}\u{440}\u{444}\u{435}\u{439}\u{441}: ");
    push_chars(&mut head, name);
    push_line(&mut lines, head);
    push_line(&mut lines, Vec::new());
    visibility_exec(&mut lines, root);
    placement_exec(&mut lines, root);
    order_exec(&mut lines, root);
    lines
}

/// The command interface report of the subsystem `name`: a note where it has
/// no command interface file (`path` is where it was looked for), the error of
/// a file that is not XML, else the report of its contents.
pub open spec fn ci_lines(name: Seq<char>, file: Option<Seq<char>>, path: Seq<char>) -> Result<Seq<Seq<char>>, Seq<char>> {
    match file {
        None => Ok(seq![
            "\u{41a}\u{43e}\u{43c}\u{430}\u{43d}\u{434}\u{43d}\u{44b}\u{439} \u{438}\u{43d}\u{442}\u{435}\u{440}\u{444}\u{435}\u{439}\u{441}: "@ + name,
            Seq::empty(),
            "\u{424}\u{430}\u{439}\u{43b} CommandInterface.xml \u{43d}\u{435} \u{43d}\u{430}\u{439}\u{434}\u{435}\u{43d}."@,
            "\u{41f}\u{443}\u{442}\u{44c}: "@ + path,
        ]),
        Some(t) => match crate::xml::xml_tree(crate::skd_apply::without_boms(t)) {
            Ok(root) => Ok(ci_report(root, name)),
            Err(e) => Err("XML parse error in "@ + path + ": "@ + e),
        },
    }
}

pub fn subsystem_info_ci_lines(name: &[char], file: &Option<Vec<char>>, path: &[char]) -> (r: Result<Vec<Vec<char>>, Vec<char>>)
    ensures
        match ci_lines(name@, crate::xml::opt_view(*file), path@) {
            Ok(l) => r matches Ok(v) && views(v@) == l,
            Err(e) => r matches Err(m) && m@ == e,
        },
{
    match file {
        None => {
            let mut lines: Vec<Vec<char>> = Vec::new();
            let mut head = chars_of("\u{41a}\u{43e}\u{43c}\u{430}\u{43d}\u{434}\u{43d}\u{44b}\u{439} \u{438}\u{43d}\u{442}\u{435}\u{440}\u{444}\u{435}\u{439}\u{441}: ");
            push_chars(&mut head, name);
            push_line(&mut lines, head);
            push_line(&mut lines, Vec::new());
            push_line(&mut lines, chars_of("\u{424}\u{430}\u{439}\u{43b} CommandInterface.xml \u{43d}\u{435} \u{43d}\u{430}\u{439}\u{434}\u{435}\u{43d}."));
            let mut p = chars_of("\u{41f}\u{443}\u{442}\u{44c}: ");
            push_chars(&mut p, path);
            push_line(&mut lines, p);
            Ok(lines)
        },
        Some(t) => {
            let body = crate::xml::strip_boms(t);
            let s = crate::external::string_of(&body);
            match crate::xml::xml_document(s.as_str()) {
                Ok(root) => Ok(subsystem_info_ci_tree(&root, name)),
                Err(e) => {
                    let mut m = chars_of("XML parse error in ");
                    push_chars(&mut m, path);
                    push_str(&mut m, ": ");
                    push_chars(&mut m, &e);
                    Err(m)
                },
            }
        },
    }
}

} // verus!
