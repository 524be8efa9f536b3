//! Editing a subsystem held as a model: its content, its child subsystems and
//! its properties, with one report line for each step and counters of what
//! changed.
use vstd::prelude::*;
use crate::external::{lowercase_of, to_lowercase};
use crate::numbers::usize_text;
use crate::subsystem::{normalize_subsystem_content_ref, normalized_content_ref};
use crate::text::{eq_chars, eq_str, push_chars, push_str, to_vec, views};

verus! {

/// A subsystem file as the editor holds it.
pub struct SubsystemEditModel {
    pub version: Vec<char>,
    pub uuid: Vec<char>,
    pub name: Vec<char>,
    pub synonym: Vec<char>,
    pub comment: Vec<char>,
    pub include_help: Vec<char>,
    pub include_ci: Vec<char>,
    pub use_one_command: Vec<char>,
    pub explanation: Vec<char>,
    pub picture: Vec<char>,
    pub content: Vec<Vec<char>>,
    pub children: Vec<Vec<char>>,
}

/// How many items an edit added, removed and modified.
pub struct SubsystemEditCounters {
    pub added: usize,
    pub removed: usize,
    pub modified: usize,
}

/// The model as values.
pub struct EditModelView {
    pub version: Seq<char>,
    pub uuid: Seq<char>,
    pub name: Seq<char>,
    pub synonym: Seq<char>,
    pub comment: Seq<char>,
    pub include_help: Seq<char>,
    pub include_ci: Seq<char>,
    pub use_one_command: Seq<char>,
    pub explanation: Seq<char>,
    pub picture: Seq<char>,
    pub content: Seq<Seq<char>>,
    pub children: Seq<Seq<char>>,
}

impl View for SubsystemEditModel {
    type V = EditModelView;

    open spec fn view(&self) -> EditModelView {
        EditModelView {
            version: self.version@,
            uuid: self.uuid@,
            name: self.name@,
            synonym: self.synonym@,
            comment: self.comment@,
            include_help: self.include_help@,
            include_ci: self.include_ci@,
            use_one_command: self.use_one_command@,
            explanation: self.explanation@,
            picture: self.picture@,
            content: views(self.content@),
            children: views(self.children@),
        }
    }
}

/// A list, a count and the report so far.
pub type ListStep = (Seq<Seq<char>>, int, Seq<char>);

/// Where `x` first occurs in `s`.
pub open spec fn first_index(s: Seq<Seq<char>>, x: Seq<char>) -> Option<int>
    decreases s.len(),
{
    if s.len() == 0 {
        None
    } else if s[0] == x {
        Some(0)
    } else {
        match first_index(s.drop_first(), x) {
            Some(k) => Some(k + 1),
            None => None,
        }
    }
}

/// The first index is the first place where `x` stands.
pub proof fn lemma_first_index(s: Seq<Seq<char>>, x: Seq<char>, i: int)
    requires
        0 <= i <= s.len(),
        forall|j: int| 0 <= j < i ==> s[j] != x,
    ensures
        i < s.len() && s[i] == x ==> first_index(s, x) == Some(i),
        i == s.len() ==> first_index(s, x) is None,
    decreases s.len(),
{
    if s.len() > 0 && i > 0 {
        let t = s.drop_first();
        assert forall|j: int| 0 <= j < i - 1 implies t[j] != x by {
            assert(t[j] == s[j + 1]);
        }
        lemma_first_index(t, x, i - 1);
        if i < s.len() {
            assert(t[i - 1] == s[i]);
        }
    }
}

/// One content reference added: normalized, and skipped where the content
/// already holds it.
pub open spec fn add_content_step(s: ListStep, raw: Seq<char>) -> ListStep {
    let item = normalized_content_ref(raw);
    let out = if item != raw {
        s.2 + "[NORM] Content: "@ + raw + " -> "@ + item + "\n"@
    } else {
        s.2
    };
    if s.0.contains(item) {
        (s.0, s.1, out + "[WARN] Content already contains: "@ + item + "\n"@)
    } else {
        (s.0.push(item), s.1 + 1, out + "[INFO] Added content: "@ + item + "\n"@)
    }
}

/// The content references added one after another.
pub open spec fn add_content_all(s: ListStep, raws: Seq<Seq<char>>) -> ListStep
    decreases raws.len(),
{
    if raws.len() == 0 {
        s
    } else {
        add_content_step(add_content_all(s, raws.drop_last()), raws.last())
    }
}

/// One item removed from a list where it occurs (its first occurrence), with
/// the line that says so or the warning that it is not there.
pub open spec fn remove_step(s: ListStep, item: Seq<char>, done: Seq<char>, missing: Seq<char>) -> ListStep {
    match first_index(s.0, item) {
        Some(k) => (s.0.remove(k), s.1 + 1, s.2 + done + item + "\n"@),
        None => (s.0, s.1, s.2 + missing + item + "\n"@),
    }
}

/// The content items removed one after another.
pub open spec fn remove_content_all(s: ListStep, items: Seq<Seq<char>>) -> ListStep
    decreases items.len(),
{
    if items.len() == 0 {
        s
    } else {
        remove_step(
            remove_content_all(s, items.drop_last()),
            items.last(),
            "[INFO] Removed content: "@,
            "[WARN] Content item not found: "@,
        )
    }
}

/// A child subsystem added where it is not there yet.
pub open spec fn add_child_step(s: ListStep, child: Seq<char>) -> ListStep {
    if s.0.contains(child) {
        (s.0, s.1, s.2 + "[WARN] ChildObjects already contains: "@ + child + "\n"@)
    } else {
        (s.0.push(child), s.1 + 1, s.2 + "[INFO] Added child subsystem: "@ + child + "\n"@)
    }
}

/// The model with another content list.
pub open spec fn with_content(m: EditModelView, c: Seq<Seq<char>>) -> EditModelView {
    EditModelView { content: c, ..m }
}

/// The model with another list of child subsystems.
pub open spec fn with_children(m: EditModelView, c: Seq<Seq<char>>) -> EditModelView {
    EditModelView { children: c, ..m }
}

/// Whether `x` occurs in `v`, and where first.
fn first_index_exec(v: &Vec<Vec<char>>, x: &[char]) -> (r: Option<usize>)
    ensures
        match r {
            Some(k) => first_index(views(v@), x@) == Some(k as int),
            None => first_index(views(v@), x@) is None,
        },
{
    let ghost s = views(v@);
    let mut i: usize = 0;
    while i < v.len()
        invariant
            i <= v.len(),
            s == views(v@),
            forall|j: int| 0 <= j < i ==> s[j] != x@,
        decreases v.len() - i,
    {
        if eq_chars(&v[i], x) {
            proof {
                lemma_first_index(s, x@, i as int);
            }
            return Some(i);
        }
        i = i + 1;
    }
    proof {
        lemma_first_index(s, x@, i as int);
    }
    None
}

/// Whether `x` occurs in `v`.
fn holds(v: &Vec<Vec<char>>, x: &[char]) -> (b: bool)
    ensures
        b == views(v@).contains(x@),
{
    let r = first_index_exec(v, x);
    proof {
        let s = views(v@);
        if r is None {
            assert forall|j: int| 0 <= j < s.len() implies s[j] != x@ by {
                if s[j] == x@ {
                    lemma_first_index_finds(s, x@, j);
                }
            }
        } else {
            lemma_first_index_at(s, x@);
            assert(s[r->0 as int] == x@);
        }
    }
    r.is_some()
}

/// Where `x` occurs, the first index is found.
proof fn lemma_first_index_finds(s: Seq<Seq<char>>, x: Seq<char>, j: int)
    requires
        0 <= j < s.len(),
        s[j] == x,
    ensures
        first_index(s, x) is Some,
    decreases s.len(),
{
    if j > 0 && s[0] != x {
        assert(s.drop_first()[j - 1] == s[j]);
        lemma_first_index_finds(s.drop_first(), x, j - 1);
    }
}

/// The first index holds `x`.
proof fn lemma_first_index_at(s: Seq<Seq<char>>, x: Seq<char>)
    ensures
        first_index(s, x) matches Some(k) ==> 0 <= k < s.len() && s[k] == x,
    decreases s.len(),
{
    if s.len() > 0 && s[0] != x {
        lemma_first_index_at(s.drop_first(), x);
    }
}

/// Adds content references: each is normalized (with a `[NORM]` line where it
/// changes), skipped with a warning where the content already holds it, and
/// appended otherwise.
pub fn subsystem_edit_add_content(
    model: &mut SubsystemEditModel,
    items: &Vec<Vec<char>>,
    counters: &mut SubsystemEditCounters,
    out: &mut Vec<char>,
)
    requires
        old(counters).added + items.len() <= usize::MAX,
    ensures
        ({
            let r = add_content_all((old(model)@.content, old(counters).added as int, old(out)@), views(items@));
            &&& final(model)@ == with_content(old(model)@, r.0)
            &&& final(counters).added == r.1
            &&& final(out)@ == r.2
        }),
        final(counters).removed == old(counters).removed,
        final(counters).modified == old(counters).modified,
{
    let ghost m0 = model@;
    let ghost s0: ListStep = (model@.content, counters.added as int, out@);
    let mut i: usize = 0;
    while i < items.len()
        invariant
            i <= items.len(),
            s0.1 + items.len() <= usize::MAX,
            counters.added <= s0.1 + i,
            ({
                let r = add_content_all(s0, views(items@).take(i as int));
                &&& model@ == with_content(m0, r.0)
                &&& counters.added == r.1
                &&& out@ == r.2
            }),
            counters.removed == old(counters).removed,
            counters.modified == old(counters).modified,
        decreases items.len() - i,
    {
        let raw = &items[i];
        let item = normalize_subsystem_content_ref(raw);
        if !eq_chars(&item, raw) {
            push_str(out, "[NORM] Content: ");
            push_chars(out, raw);
            push_str(out, " -> ");
            push_chars(out, &item);
            push_str(out, "\n");
        }
        if holds(&model.content, &item) {
            push_str(out, "[WARN] Content already contains: ");
            push_chars(out, &item);
            push_str(out, "\n");
        } else {
            let ghost before = model.content@;
            model.content.push(to_vec(&item));
            proof {
                crate::text::lemma_views_push(before, model.content@.last());
                assert(model.content@ == before.push(model.content@.last()));
            }
            counters.added = counters.added + 1;
            push_str(out, "[INFO] Added content: ");
            push_chars(out, &item);
            push_str(out, "\n");
        }
        proof {
            assert(views(items@).take(i + 1).drop_last() == views(items@).take(i as int));
        }
        i = i + 1;
    }
    proof {
        assert(views(items@).take(items.len() as int) == views(items@));
    }
}

/// The text of an optional text.
pub open spec fn opt_text(t: Option<Vec<char>>) -> Option<Seq<char>> {
    match t {
        Some(v) => Some(v@),
        None => None,
    }
}

/// The line that reports a property set to a text (or cleared, for the
/// synonym and the explanation).
pub open spec fn quoted_set_line(n: Seq<char>, value: Seq<char>, clearable: bool) -> Seq<char> {
    if clearable && value.len() == 0 {
        "[INFO] Cleared "@ + n + "\n"@
    } else {
        "[INFO] Set "@ + n + " = \""@ + value + "\"\n"@
    }
}

/// A property set on the model, with its report line; the three flags are
/// kept in lower case. Another name, or none, is refused.
pub open spec fn set_property(m: EditModelView, name: Option<Seq<char>>, value: Seq<char>) -> Result<(EditModelView, Seq<char>), Seq<char>> {
    match name {
        None => Err("set-property requires {name, value}"@),
        Some(n) => {
            let flag_line = "[INFO] Set "@ + n + " = "@ + value + "\n"@;
            if n == "IncludeInCommandInterface"@ {
                Ok((EditModelView { include_ci: lowercase_of(value), ..m }, flag_line))
            } else if n == "UseOneCommand"@ {
                Ok((EditModelView { use_one_command: lowercase_of(value), ..m }, flag_line))
            } else if n == "IncludeHelpInContents"@ {
                Ok((EditModelView { include_help: lowercase_of(value), ..m }, flag_line))
            } else if n == "Synonym"@ {
                Ok((EditModelView { synonym: value, ..m }, quoted_set_line(n, value, true)))
            } else if n == "Explanation"@ {
                Ok((EditModelView { explanation: value, ..m }, quoted_set_line(n, value, true)))
            } else if n == "Comment"@ {
                Ok((EditModelView { comment: value, ..m }, quoted_set_line(n, value, false)))
            } else if n == "Picture"@ {
                Ok((EditModelView { picture: value, ..m }, quoted_set_line(n, value, false)))
            } else if n == "Name"@ {
                Ok((EditModelView { name: value, ..m }, quoted_set_line(n, value, false)))
            } else {
                Err("Property '"@ + n + "' not found in Properties"@)
            }
        },
    }
}

/// Removes the first occurrence of `item` from `list`, counting it and
/// reporting it with `done`, or reports it with `missing`.
fn remove_reported(list: &mut Vec<Vec<char>>, item: &[char], count: &mut usize, out: &mut Vec<char>, done: &str, missing: &str)
    requires
        *old(count) < usize::MAX,
    ensures
        (views(final(list)@), *final(count) as int, final(out)@) == remove_step(
            (views(old(list)@), *old(count) as int, old(out)@),
            item@,
            done@,
            missing@,
        ),
{
    let ghost before = list@;
    match first_index_exec(list, item) {
        Some(k) => {
            proof {
                lemma_first_index_at(views(before), item@);
            }
            list.remove(k);
            proof {
                assert(views(list@) =~= views(before).remove(k as int));
            }
            *count = *count + 1;
            push_str(out, done);
            push_chars(out, item);
            push_str(out, "\n");
            proof {
                assert(views(list@) == views(before).remove(k as int));
            }
        },
        None => {
            push_str(out, missing);
            push_chars(out, item);
            push_str(out, "\n");
        },
    }
}

/// Removes content items (as written, not normalized): each first occurrence
/// goes, and a missing one is reported.
pub fn subsystem_edit_remove_content(
    model: &mut SubsystemEditModel,
    items: &Vec<Vec<char>>,
    counters: &mut SubsystemEditCounters,
    out: &mut Vec<char>,
)
    requires
        old(counters).removed + items.len() <= usize::MAX,
    ensures
        ({
            let r = remove_content_all((old(model)@.content, old(counters).removed as int, old(out)@), views(items@));
            &&& final(model)@ == with_content(old(model)@, r.0)
            &&& final(counters).removed == r.1
            &&& final(out)@ == r.2
        }),
        final(counters).added == old(counters).added,
        final(counters).modified == old(counters).modified,
{
    let ghost m0 = model@;
    let ghost s0: ListStep = (model@.content, counters.removed as int, out@);
    let mut i: usize = 0;
    while i < items.len()
        invariant
            i <= items.len(),
            s0.1 + items.len() <= usize::MAX,
            counters.removed <= s0.1 + i,
            ({
                let r = remove_content_all(s0, views(items@).take(i as int));
                &&& model@ == with_content(m0, r.0)
                &&& counters.removed == r.1
                &&& out@ == r.2
            }),
            counters.added == old(counters).added,
            counters.modified == old(counters).modified,
        decreases items.len() - i,
    {
        remove_reported(
            &mut model.content,
            &items[i],
            &mut counters.removed,
            out,
            "[INFO] Removed content: ",
            "[WARN] Content item not found: ",
        );
        proof {
            assert(views(items@).take(i + 1).drop_last() == views(items@).take(i as int));
            reveal_strlit("[INFO] Removed content: ");
        }
        i = i + 1;
    }
    proof {
        assert(views(items@).take(items.len() as int) == views(items@));
    }
}

/// Adds a child subsystem to the list where it is not there yet; says whether
/// it was added (its directory and stub file are then the caller's to write).
pub fn subsystem_edit_add_child(
    model: &mut SubsystemEditModel,
    child: &[char],
    counters: &mut SubsystemEditCounters,
    out: &mut Vec<char>,
) -> (added: bool)
    requires
        old(counters).added < usize::MAX,
    ensures
        ({
            let r = add_child_step((old(model)@.children, old(counters).added as int, old(out)@), child@);
            &&& final(model)@ == with_children(old(model)@, r.0)
            &&& final(counters).added == r.1
            &&& final(out)@ == r.2
        }),
        added == !old(model)@.children.contains(child@),
        final(counters).removed == old(counters).removed,
        final(counters).modified == old(counters).modified,
{
    if holds(&model.children, child) {
        push_str(out, "[WARN] ChildObjects already contains: ");
        push_chars(out, child);
        push_str(out, "\n");
        return false;
    }
    let ghost before = model.children@;
    model.children.push(to_vec(child));
    proof {
        crate::text::lemma_views_push(before, model.children@.last());
        assert(model.children@ == before.push(model.children@.last()));
    }
    counters.added = counters.added + 1;
    push_str(out, "[INFO] Added child subsystem: ");
    push_chars(out, child);
    push_str(out, "\n");
    true
}

/// Removes a child subsystem from the list, or reports that it is not there.
pub fn subsystem_edit_remove_child(
    model: &mut SubsystemEditModel,
    child: &[char],
    counters: &mut SubsystemEditCounters,
    out: &mut Vec<char>,
)
    requires
        old(counters).removed < usize::MAX,
    ensures
        ({
            let r = remove_step(
                (old(model)@.children, old(counters).removed as int, old(out)@),
                child@,
                "[INFO] Removed child subsystem: "@,
                "[WARN] Child subsystem not found: "@,
            );
            &&& final(model)@ == with_children(old(model)@, r.0)
            &&& final(counters).removed == r.1
            &&& final(out)@ == r.2
        }),
        final(counters).added == old(counters).added,
        final(counters).modified == old(counters).modified,
{
    remove_reported(
        &mut model.children,
        child,
        &mut counters.removed,
        out,
        "[INFO] Removed child subsystem: ",
        "[WARN] Child subsystem not found: ",
    );
}

/// Appends the report line of a property set to a text.
fn push_quoted_set_line(out: &mut Vec<char>, n: &[char], value: &[char], clearable: bool)
    ensures
        final(out)@ == old(out)@ + quoted_set_line(n@, value@, clearable),
{
    if clearable && value.len() == 0 {
        push_str(out, "[INFO] Cleared ");
        push_chars(out, n);
        push_str(out, "\n");
    } else {
        push_str(out, "[INFO] Set ");
        push_chars(out, n);
        push_str(out, " = \"");
        push_chars(out, value);
        push_str(out, "\"\n");
    }
}

/// Sets one property of the model by its name (the three flags in lower
/// case), counting it as modified and reporting it; a missing or unknown name
/// is refused and nothing changes.
pub fn subsystem_edit_set_property(
    model: &mut SubsystemEditModel,
    name: &Option<Vec<char>>,
    value: &[char],
    counters: &mut SubsystemEditCounters,
    out: &mut Vec<char>,
) -> (r: Result<(), Vec<char>>)
    requires
        old(counters).modified < usize::MAX,
    ensures
        match set_property(old(model)@, opt_text(*name), value@) {
            Ok((m, line)) => {
                &&& r is Ok
                &&& final(model)@ == m
                &&& final(counters).modified == old(counters).modified + 1
                &&& final(out)@ == old(out)@ + line
            },
            Err(e) => {
                &&& r matches Err(x) && x@ == e
                &&& final(model)@ == old(model)@
                &&& final(counters).modified == old(counters).modified
                &&& final(out)@ == old(out)@
            },
        },
        final(counters).added == old(counters).added,
        final(counters).removed == old(counters).removed,
{
    let n = match name {
        Some(n) => n,
        None => {
            return Err(crate::text::chars_of("set-property requires {name, value}"));
        },
    };
    let flag = eq_str(n, "IncludeInCommandInterface") || eq_str(n, "UseOneCommand") || eq_str(
        n,
        "IncludeHelpInContents",
    );
    if flag {
        let lower = to_lowercase(value);
        if eq_str(n, "IncludeInCommandInterface") {
            model.include_ci = lower;
        } else if eq_str(n, "UseOneCommand") {
            model.use_one_command = lower;
        } else {
            model.include_help = lower;
        }
        push_str(out, "[INFO] Set ");
        push_chars(out, n);
        push_str(out, " = ");
        push_chars(out, value);
        push_str(out, "\n");
    } else if eq_str(n, "Synonym") {
        model.synonym = to_vec(value);
        push_quoted_set_line(out, n, value, true);
    } else if eq_str(n, "Explanation") {
        model.explanation = to_vec(value);
        push_quoted_set_line(out, n, value, true);
    } else if eq_str(n, "Comment") {
        model.comment = to_vec(value);
        push_quoted_set_line(out, n, value, false);
    } else if eq_str(n, "Picture") {
        model.picture = to_vec(value);
        push_quoted_set_line(out, n, value, false);
    } else if eq_str(n, "Name") {
        model.name = to_vec(value);
        push_quoted_set_line(out, n, value, false);
    } else {
        let mut e = crate::text::chars_of("Property '");
        push_chars(&mut e, n);
        push_str(&mut e, "' not found in Properties");
        return Err(e);
    }
    counters.modified = counters.modified + 1;
    Ok(())
}

/// The summary that closes an edit's report.
pub open spec fn edit_summary(name: Seq<char>, added: nat, removed: nat, modified: nat) -> Seq<char> {
    "\n=== subsystem-edit summary ===\n"@ + "  Subsystem: "@ + name + "\n"@ + "  Added:     "@
        + crate::numbers::nat_text(added) + "\n"@ + "  Removed:   "@ + crate::numbers::nat_text(removed) + "\n"@
        + "  Modified:  "@ + crate::numbers::nat_text(modified) + "\n"@
}

/// Writes the summary that closes an edit's report.
pub fn subsystem_edit_summary(name: &[char], counters: &SubsystemEditCounters) -> (r: Vec<char>)
    ensures
        r@ == edit_summary(name@, counters.added as nat, counters.removed as nat, counters.modified as nat),
{
    let mut r: Vec<char> = Vec::new();
    push_str(&mut r, "\n=== subsystem-edit summary ===\n");
    push_str(&mut r, "  Subsystem: ");
    push_chars(&mut r, name);
    push_str(&mut r, "\n");
    push_str(&mut r, "  Added:     ");
    push_chars(&mut r, &usize_text(counters.added));
    push_str(&mut r, "\n");
    push_str(&mut r, "  Removed:   ");
    push_chars(&mut r, &usize_text(counters.removed));
    push_str(&mut r, "\n");
    push_str(&mut r, "  Modified:  ");
    push_chars(&mut r, &usize_text(counters.modified));
    push_str(&mut r, "\n");
    assert(r@ =~= edit_summary(name@, counters.added as nat, counters.removed as nat, counters.modified as nat));
    r
}

/// An operation's value, read in each of the ways an operation may need it:
/// as a list of texts, as one text, and as a property's name and value (a
/// reading that failed holds its error).
pub struct SubsystemEditValue {
    pub list: Result<Vec<Vec<char>>, Vec<char>>,
    pub text: Vec<char>,
    pub property: Result<(Option<Vec<char>>, Vec<char>), Vec<char>>,
}

/// The readings of an operation's value as values.
pub struct EditValueView {
    pub list: Result<Seq<Seq<char>>, Seq<char>>,
    pub text: Seq<char>,
    pub property: Result<(Option<Seq<char>>, Seq<char>), Seq<char>>,
}

impl View for SubsystemEditValue {
    type V = EditValueView;

    open spec fn view(&self) -> EditValueView {
        EditValueView {
            list: match self.list {
                Ok(l) => Ok(views(l@)),
                Err(e) => Err(e@),
            },
            text: self.text@,
            property: match self.property {
                Ok((n, v)) => Ok((opt_text(n), v@)),
                Err(e) => Err(e@),
            },
        }
    }
}

/// How many texts the list reading holds.
pub open spec fn list_len(v: EditValueView) -> int {
    match v.list {
        Ok(l) => l.len() as int,
        Err(_) => 0,
    }
}

/// The counters as values: added, removed, modified.
pub type Counts = (int, int, int);

/// One operation applied to the model: the model, the counters and the report
/// after it, and whether a child subsystem was added (whose files are then to
/// be written). An unknown operation, a value that cannot be read as the
/// operation needs, and a refused property are errors.
pub open spec fn edit_apply(m: EditModelView, c: Counts, out: Seq<char>, op: Seq<char>, v: EditValueView) -> Result<(EditModelView, Counts, Seq<char>, bool), Seq<char>> {
    if op == "add-content"@ {
        match v.list {
            Err(e) => Err(e),
            Ok(l) => {
                let r = add_content_all((m.content, c.0, out), l);
                Ok((with_content(m, r.0), (r.1, c.1, c.2), r.2, false))
            },
        }
    } else if op == "remove-content"@ {
        match v.list {
            Err(e) => Err(e),
            Ok(l) => {
                let r = remove_content_all((m.content, c.1, out), l);
                Ok((with_content(m, r.0), (c.0, r.1, c.2), r.2, false))
            },
        }
    } else if op == "add-child"@ {
        let r = add_child_step((m.children, c.0, out), v.text);
        Ok((with_children(m, r.0), (r.1, c.1, c.2), r.2, !m.children.contains(v.text)))
    } else if op == "remove-child"@ {
        let r = remove_step(
            (m.children, c.1, out),
            v.text,
            "[INFO] Removed child subsystem: "@,
            "[WARN] Child subsystem not found: "@,
        );
        Ok((with_children(m, r.0), (c.0, r.1, c.2), r.2, false))
    } else if op == "set-property"@ {
        match v.property {
            Err(e) => Err(e),
            Ok((n, value)) => match set_property(m, n, value) {
                Err(e) => Err(e),
                Ok((m1, line)) => Ok((m1, (c.0, c.1, c.2 + 1), out + line, false)),
            },
        }
    } else {
        Err("Unknown operation: "@ + op)
    }
}

/// Applies one operation to the model; says whether a child subsystem was
/// added. On an error the model may hold what the operation did before it.
pub fn subsystem_edit_apply(
    model: &mut SubsystemEditModel,
    op: &[char],
    value: &SubsystemEditValue,
    counters: &mut SubsystemEditCounters,
    out: &mut Vec<char>,
) -> (r: Result<bool, Vec<char>>)
    requires
        old(counters).added + list_len(value@) < usize::MAX,
        old(counters).removed + list_len(value@) < usize::MAX,
        old(counters).modified < usize::MAX,
    ensures
        match edit_apply(
            old(model)@,
            (old(counters).added as int, old(counters).removed as int, old(counters).modified as int),
            old(out)@,
            op@,
            value@,
        ) {
            Ok((m, c, o, child)) => {
                &&& r == Ok::<bool, Vec<char>>(child)
                &&& final(model)@ == m
                &&& (final(counters).added as int, final(counters).removed as int, final(counters).modified as int) == c
                &&& final(out)@ == o
            },
            Err(e) => r matches Err(x) && x@ == e,
        },
{
    if eq_str(op, "add-content") {
        match &value.list {
            Err(e) => Err(to_vec(e)),
            Ok(l) => {
                subsystem_edit_add_content(model, l, counters, out);
                Ok(false)
            },
        }
    } else if eq_str(op, "remove-content") {
        match &value.list {
            Err(e) => Err(to_vec(e)),
            Ok(l) => {
                subsystem_edit_remove_content(model, l, counters, out);
                Ok(false)
            },
        }
    } else if eq_str(op, "add-child") {
        let added = subsystem_edit_add_child(model, &value.text, counters, out);
        Ok(added)
    } else if eq_str(op, "remove-child") {
        subsystem_edit_remove_child(model, &value.text, counters, out);
        Ok(false)
    } else if eq_str(op, "set-property") {
        match &value.property {
            Err(e) => Err(to_vec(e)),
            Ok((n, v)) => match subsystem_edit_set_property(model, n, v, counters, out) {
                Ok(()) => Ok(false),
                Err(e) => Err(e),
            },
        }
    } else {
        let mut e = crate::text::chars_of("Unknown operation: ");
        push_chars(&mut e, op);
        Err(e)
    }
}

} // verus!
