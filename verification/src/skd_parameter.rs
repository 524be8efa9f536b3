//! `modify-parameter`: changes to a root parameter of a schema, applied one
//! after the other, each on the text the previous one left.
use vstd::prelude::*;
use crate::skd_edit::{
    has_child_element, insert_parameter_child_fragment, remove_children_by_name,
    replace_or_insert_parameter_child, skd_edit_insert_parameter_child_fragment,
    skd_edit_remove_parameter_children_by_name, skd_edit_replace_or_insert_parameter_child_fragment,
};
use crate::skd_fragments::{mltext_lines, parameter_value_lines, push_line, push_lines, skd_compile_emit_mltext, skd_edit_parameter_value_lines};
use crate::skd_values::{pair_views, SkdEditParameterPatch};
use crate::skd_xml::{
    child_element_range, enclose, parameter_declared_type, parameter_range,
    skd_edit_child_element_range, skd_edit_parameter_declared_type, skd_edit_parameter_range,
};
use crate::text::{chars_of, escape_xml, escape_xml_exec, join, join_str, lit_views, push_chars, push_str, views};
use crate::numbers::{nat_text, usize_text};

verus! {

/// The state after some steps: the text, the output they added, and whether
/// one failed (then nothing after it runs).
pub open spec fn then(prev: (Seq<char>, Seq<char>, Result<(), Seq<char>>), next: (Seq<char>, Seq<char>, Result<(), Seq<char>>)) -> (Seq<char>, Seq<char>, Result<(), Seq<char>>) {
    (next.0, prev.1 + next.1, next.2)
}

/// The error of a parameter lost between steps.
pub open spec fn lost(name: Seq<char>) -> Seq<char> {
    "Parameter \""@ + name + "\" not found"@
}

/// Names of parameter children, for where new children go.
pub open spec fn title_before() -> Seq<Seq<char>> {
    seq![
        "valueType"@,
        "value"@,
        "useRestriction"@,
        "availableAsField"@,
        "availableValue"@,
        "denyIncompleteValues"@,
        "use"@,
        "expression"@,
    ]
}

pub open spec fn value_before() -> Seq<Seq<char>> {
    seq![
        "useRestriction"@,
        "availableAsField"@,
        "valueListAllowed"@,
        "availableValue"@,
        "denyIncompleteValues"@,
        "use"@,
        "expression"@,
    ]
}

pub open spec fn list_before() -> Seq<Seq<char>> {
    seq!["availableValue"@, "denyIncompleteValues"@, "use"@, "expression"@]
}

pub open spec fn available_before() -> Seq<Seq<char>> {
    seq!["denyIncompleteValues"@, "use"@, "expression"@]
}

pub open spec fn restriction_before() -> Seq<Seq<char>> {
    seq!["availableAsField"@, "availableValue"@, "denyIncompleteValues"@, "use"@, "expression"@]
}

/// Setting the title.
pub open spec fn title_step(t: Seq<char>, name: Seq<char>, title: Seq<char>) -> (Seq<char>, Seq<char>, Result<(), Seq<char>>) {
    match parameter_range(t, name) {
        None => (t, Seq::empty(), Err(lost(name))),
        Some(r) => (
            replace_or_insert_parameter_child(t, r, "title"@, join(mltext_lines("\t\t"@, "title"@, title), "\n"@), title_before()),
            "[OK] Parameter \""@ + name + "\": title set to \""@ + title + "\"\n"@,
            Ok(()),
        ),
    }
}

/// The value lines of each value, one after the other.
pub open spec fn values_lines(declared: Seq<char>, values: Seq<Seq<char>>) -> Seq<Seq<char>>
    decreases values.len(),
{
    if values.len() == 0 {
        Seq::empty()
    } else {
        values_lines(declared, values.drop_last()) + parameter_value_lines(declared, values.last(), "\t\t"@, "value"@)
    }
}

/// Setting the values: the old `<value>` children go, the new ones come before
/// the usual followers; with two or more values the list is allowed.
pub open spec fn values_step(t: Seq<char>, name: Seq<char>, values: Seq<Seq<char>>) -> (Seq<char>, Seq<char>, Result<(), Seq<char>>) {
    match parameter_range(t, name) {
        None => (t, Seq::empty(), Err(lost(name))),
        Some(r1) => {
            let declared = parameter_declared_type(t, r1);
            let existed = has_child_element(t, r1, "value"@);
            let t1 = remove_children_by_name(t, r1, "value"@);
            match parameter_range(t1, name) {
                None => (t1, Seq::empty(), Err(lost(name))),
                Some(r2) => {
                    let t2 = insert_parameter_child_fragment(t1, r2, join(values_lines(declared, values), "\n"@), value_before());
                    if values.len() >= 2 {
                        match parameter_range(t2, name) {
                            None => (t2, Seq::empty(), Err(lost(name))),
                            Some(r3) => (
                                replace_or_insert_parameter_child(t2, r3, "valueListAllowed"@, "\t\t<valueListAllowed>true</valueListAllowed>"@, list_before()),
                                "[OK] Parameter \""@ + name + "\": value set to list of "@ + nat_text(values.len()) + " item(s)\n"@,
                                Ok(()),
                            ),
                        }
                    } else {
                        (
                            t2,
                            "[OK] Parameter \""@ + name + "\": value "@ + (if existed {
                                "updated"@
                            } else {
                                "added"@
                            }) + " to "@ + (if values.len() > 0 {
                                values[0]
                            } else {
                                Seq::empty()
                            }) + "\n"@,
                            Ok(()),
                        )
                    }
                },
            }
        },
    }
}

/// Setting one simple child `key` to `value`.
pub open spec fn pair_step(t: Seq<char>, name: Seq<char>, key: Seq<char>, value: Seq<char>) -> (Seq<char>, Seq<char>, Result<(), Seq<char>>) {
    match parameter_range(t, name) {
        None => (t, Seq::empty(), Err(lost(name))),
        Some(r) => {
            let existed = child_element_range(t, r, key) is Some;
            let before = if key == "denyIncompleteValues"@ {
                seq!["use"@]
            } else {
                Seq::empty()
            };
            (
                replace_or_insert_parameter_child(t, r, key, "\t\t<"@ + key + ">"@ + escape_xml(value) + "</"@ + key + ">"@, before),
                "[OK] Parameter \""@ + name + "\": "@ + (if existed {
                    key + " updated to "@ + value
                } else {
                    key + "="@ + value + " added"@
                }) + "\n"@,
                Ok(()),
            )
        },
    }
}

/// The simple children set one after the other.
pub open spec fn pairs_steps(t: Seq<char>, name: Seq<char>, pairs: Seq<(Seq<char>, Seq<char>)>) -> (Seq<char>, Seq<char>, Result<(), Seq<char>>)
    decreases pairs.len(),
{
    if pairs.len() == 0 {
        (t, Seq::empty(), Ok(()))
    } else {
        let first = pair_step(t, name, pairs[0].0, pairs[0].1);
        if first.2 is Err {
            first
        } else {
            then(first, pairs_steps(first.0, name, pairs.drop_first()))
        }
    }
}

/// The lines of one available value.
pub open spec fn available_value_block(declared: Seq<char>, value: Seq<char>, presentation: Seq<char>) -> Seq<char> {
    join(
        seq!["\t\t<availableValue>"@] + parameter_value_lines(declared, value, "\t\t\t"@, "value"@) + (if presentation.len() > 0 {
            mltext_lines("\t\t\t"@, "presentation"@, presentation)
        } else {
            Seq::empty()
        }) + seq!["\t\t</availableValue>"@],
        "\n"@,
    )
}

/// Setting the available values: the old ones go, the new ones come before
/// the usual followers.
pub open spec fn available_step(t: Seq<char>, name: Seq<char>, items: Seq<(Seq<char>, Seq<char>)>) -> (Seq<char>, Seq<char>, Result<(), Seq<char>>) {
    match parameter_range(t, name) {
        None => (t, Seq::empty(), Err(lost(name))),
        Some(r1) => {
            let declared = parameter_declared_type(t, r1);
            let t1 = remove_children_by_name(t, r1, "availableValue"@);
            match parameter_range(t1, name) {
                None => (t1, Seq::empty(), Err(lost(name))),
                Some(r2) => (
                    insert_parameter_child_fragment(
                        t1,
                        r2,
                        join(items.map_values(|x: (Seq<char>, Seq<char>)| available_value_block(declared, x.0, x.1)), "\n"@),
                        available_before(),
                    ),
                    "[OK] Parameter \""@ + name + "\": availableValue set to "@ + nat_text(items.len()) + " item(s)\n"@,
                    Ok(()),
                ),
            }
        },
    }
}

/// `@hidden`: not available as a field, and restricted.
pub open spec fn hidden_step(t: Seq<char>, name: Seq<char>) -> (Seq<char>, Seq<char>, Result<(), Seq<char>>) {
    match parameter_range(t, name) {
        None => (t, Seq::empty(), Err(lost(name))),
        Some(r1) => {
            let t1 = replace_or_insert_parameter_child(t, r1, "availableAsField"@, "\t\t<availableAsField>false</availableAsField>"@, list_before());
            match parameter_range(t1, name) {
                None => (t1, Seq::empty(), Err(lost(name))),
                Some(r2) => (
                    replace_or_insert_parameter_child(t1, r2, "useRestriction"@, "\t\t<useRestriction>true</useRestriction>"@, restriction_before()),
                    "[OK] Parameter \""@ + name + "\": @hidden applied\n"@,
                    Ok(()),
                ),
            }
        },
    }
}

/// `@always`: the parameter is always used.
pub open spec fn always_step(t: Seq<char>, name: Seq<char>) -> (Seq<char>, Seq<char>, Result<(), Seq<char>>) {
    match parameter_range(t, name) {
        None => (t, Seq::empty(), Err(lost(name))),
        Some(r) => (
            replace_or_insert_parameter_child(t, r, "use"@, "\t\t<use>Always</use>"@, Seq::empty()),
            "[OK] Parameter \""@ + name + "\": @always applied\n"@,
            Ok(()),
        ),
    }
}

/// A step that runs only while nothing has failed.
pub open spec fn and_then(prev: (Seq<char>, Seq<char>, Result<(), Seq<char>>), run: bool, step: (Seq<char>, Seq<char>, Result<(), Seq<char>>)) -> (Seq<char>, Seq<char>, Result<(), Seq<char>>) {
    if prev.2 is Err || !run {
        prev
    } else {
        then(prev, step)
    }
}

/// `modify-parameter`: the patch's title, values, simple children, available
/// values and flags applied in that order; a warning when the parameter is
/// missing.
pub open spec fn modify_parameter(t: Seq<char>, p: SkdEditParameterPatch) -> (Seq<char>, Seq<char>, Result<(), Seq<char>>) {
    let name = p.name@;
    if parameter_range(t, name) is None {
        (t, "[WARN] Parameter \""@ + name + "\" not found -- skipped\n"@, Ok(()))
    } else {
        let s0 = (t, Seq::<char>::empty(), Ok::<(), Seq<char>>(()));
        let s1 = and_then(s0, p.title@.len() > 0, title_step(s0.0, name, p.title@));
        let s2 = and_then(s1, p.values is Some, values_step(s1.0, name, views(p.values->0@)));
        let s3 = and_then(s2, true, pairs_steps(s2.0, name, pair_views(p.simple_pairs@)));
        let s4 = and_then(s3, p.available_values@.len() > 0, available_step(s3.0, name, pair_views(p.available_values@)));
        let s5 = and_then(s4, p.hidden, hidden_step(s4.0, name));
        and_then(s5, p.always, always_step(s5.0, name))
    }
}

/// Whether a step changed the text and output as its specification says.
pub open spec fn stepped(r: Result<(), Vec<char>>, text: Seq<char>, before_out: Seq<char>, out: Seq<char>, spec: (Seq<char>, Seq<char>, Result<(), Seq<char>>)) -> bool {
    &&& text == spec.0
    &&& out == before_out + spec.1
    &&& match spec.2 {
        Ok(()) => r is Ok,
        Err(e) => r matches Err(x) && x@ == e,
    }
}

fn lost_exec(name: &[char]) -> (r: Vec<char>)
    ensures
        r@ == lost(name@),
{
    enclose("Parameter \"", name, "\" not found")
}

fn title_step_exec(xml_text: &mut Vec<char>, name: &[char], title: &[char], stdout: &mut Vec<char>) -> (r: Result<(), Vec<char>>)
    ensures
        stepped(r, final(xml_text)@, old(stdout)@, final(stdout)@, title_step(old(xml_text)@, name@, title@)),
{
    let range = match skd_edit_parameter_range(xml_text, name) {
        None => {
            return Err(lost_exec(name));
        },
        Some(r) => r,
    };
    let mut lines: Vec<Vec<char>> = Vec::new();
    let ind = chars_of("\t\t");
    let tag = chars_of("title");
    skd_compile_emit_mltext(&mut lines, &ind, &tag, title);
    assert(views(lines@) =~= mltext_lines("\t\t"@, "title"@, title@));
    let frag = join_str(&lines, "\n");
    let before: &'static [&'static str] = &[
        "valueType",
        "value",
        "useRestriction",
        "availableAsField",
        "availableValue",
        "denyIncompleteValues",
        "use",
        "expression",
    ];
    assert(lit_views(before@) =~= title_before());
    skd_edit_replace_or_insert_parameter_child_fragment(xml_text, range, &tag, &frag, before);
    push_str(stdout, "[OK] Parameter \"");
    push_chars(stdout, name);
    push_str(stdout, "\": title set to \"");
    push_chars(stdout, title);
    push_str(stdout, "\"\n");
    assert(stdout@ =~= old(stdout)@ + title_step(old(xml_text)@, name@, title@).1);
    Ok(())
}

fn values_lines_exec(declared: &[char], values: &Vec<Vec<char>>) -> (r: Vec<Vec<char>>)
    ensures
        views(r@) == values_lines(declared@, views(values@)),
{
    let ind = chars_of("\t\t");
    let tag = chars_of("value");
    let mut lines: Vec<Vec<char>> = Vec::new();
    let mut i: usize = 0;
    while i < values.len()
        invariant
            i <= values@.len(),
            ind@ == "\t\t"@,
            tag@ == "value"@,
            views(lines@) == values_lines(declared@, views(values@).take(i as int)),
        decreases values.len() - i,
    {
        let more = skd_edit_parameter_value_lines(declared, &values[i], &ind, &tag);
        push_lines(&mut lines, more);
        assert(views(values@).take(i + 1).drop_last() =~= views(values@).take(i as int));
        i = i + 1;
    }
    assert(views(values@).take(i as int) =~= views(values@));
    lines
}

#[verifier::rlimit(40)]
fn values_step_exec(xml_text: &mut Vec<char>, name: &[char], values: &Vec<Vec<char>>, stdout: &mut Vec<char>) -> (r: Result<(), Vec<char>>)
    ensures
        stepped(r, final(xml_text)@, old(stdout)@, final(stdout)@, values_step(old(xml_text)@, name@, views(values@))),
{
    let r1 = match skd_edit_parameter_range(xml_text, name) {
        None => {
            return Err(lost_exec(name));
        },
        Some(r) => r,
    };
    let declared = skd_edit_parameter_declared_type(xml_text, r1);
    let value_tag = chars_of("value");
    let existed = skd_edit_remove_parameter_children_by_name(xml_text, r1, &value_tag);
    let r2 = match skd_edit_parameter_range(xml_text, name) {
        None => {
            return Err(lost_exec(name));
        },
        Some(r) => r,
    };
    let lines = values_lines_exec(&declared, values);
    let frag = join_str(&lines, "\n");
    let before: &'static [&'static str] = &[
        "useRestriction",
        "availableAsField",
        "valueListAllowed",
        "availableValue",
        "denyIncompleteValues",
        "use",
        "expression",
    ];
    assert(lit_views(before@) =~= value_before());
    skd_edit_insert_parameter_child_fragment(xml_text, r2, &frag, before);
    if values.len() >= 2 {
        let r3 = match skd_edit_parameter_range(xml_text, name) {
            None => {
                return Err(lost_exec(name));
            },
            Some(r) => r,
        };
        let list_tag = chars_of("valueListAllowed");
        let line = chars_of("\t\t<valueListAllowed>true</valueListAllowed>");
        let b: &'static [&'static str] = &["availableValue", "denyIncompleteValues", "use", "expression"];
        assert(lit_views(b@) =~= list_before());
        skd_edit_replace_or_insert_parameter_child_fragment(xml_text, r3, &list_tag, &line, b);
        push_str(stdout, "[OK] Parameter \"");
        push_chars(stdout, name);
        push_str(stdout, "\": value set to list of ");
        push_chars(stdout, &usize_text(values.len()));
        push_str(stdout, " item(s)\n");
        assert(stdout@ =~= old(stdout)@ + values_step(old(xml_text)@, name@, views(values@)).1);
    } else {
        push_str(stdout, "[OK] Parameter \"");
        push_chars(stdout, name);
        push_str(stdout, "\": value ");
        if existed {
            push_str(stdout, "updated");
        } else {
            push_str(stdout, "added");
        }
        push_str(stdout, " to ");
        if values.len() > 0 {
            push_chars(stdout, &values[0]);
        }
        push_str(stdout, "\n");
        proof {
            if values.len() == 0 {
                assert(stdout@ =~= old(stdout)@ + values_step(old(xml_text)@, name@, views(values@)).1);
            } else {
                assert(stdout@ =~= old(stdout)@ + values_step(old(xml_text)@, name@, views(values@)).1);
            }
        }
    }
    Ok(())
}

fn pair_step_exec(xml_text: &mut Vec<char>, name: &[char], key: &[char], value: &[char], stdout: &mut Vec<char>) -> (r: Result<(), Vec<char>>)
    ensures
        stepped(r, final(xml_text)@, old(stdout)@, final(stdout)@, pair_step(old(xml_text)@, name@, key@, value@)),
{
    let range = match skd_edit_parameter_range(xml_text, name) {
        None => {
            return Err(lost_exec(name));
        },
        Some(r) => r,
    };
    let existed = skd_edit_child_element_range(xml_text, range, key).is_some();
    let before: &'static [&'static str] = if crate::text::eq_str(key, "denyIncompleteValues") {
        let b: &'static [&'static str] = &["use"];
        assert(lit_views(b@) =~= seq!["use"@]);
        b
    } else {
        let b: &'static [&'static str] = &[];
        assert(lit_views(b@) =~= Seq::<Seq<char>>::empty());
        b
    };
    let mut line = enclose("\t\t<", key, ">");
    push_chars(&mut line, &escape_xml_exec(value));
    push_chars(&mut line, &enclose("</", key, ">"));
    assert(line@ =~= "\t\t<"@ + key@ + ">"@ + escape_xml(value@) + "</"@ + key@ + ">"@);
    skd_edit_replace_or_insert_parameter_child_fragment(xml_text, range, key, &line, before);
    push_str(stdout, "[OK] Parameter \"");
    push_chars(stdout, name);
    push_str(stdout, "\": ");
    if existed {
        push_chars(stdout, key);
        push_str(stdout, " updated to ");
        push_chars(stdout, value);
    } else {
        push_chars(stdout, key);
        push_str(stdout, "=");
        push_chars(stdout, value);
        push_str(stdout, " added");
    }
    push_str(stdout, "\n");
    assert(stdout@ =~= old(stdout)@ + pair_step(old(xml_text)@, name@, key@, value@).1);
    Ok(())
}

fn pairs_steps_exec(xml_text: &mut Vec<char>, name: &[char], pairs: &Vec<(Vec<char>, Vec<char>)>, stdout: &mut Vec<char>) -> (r: Result<(), Vec<char>>)
    ensures
        stepped(r, final(xml_text)@, old(stdout)@, final(stdout)@, pairs_steps(old(xml_text)@, name@, pair_views(pairs@))),
{
    let ghost all = pair_views(pairs@);
    let ghost target = pairs_steps(xml_text@, name@, all);
    assert(all.skip(0) =~= all);
    let mut i: usize = 0;
    while i < pairs.len()
        invariant
            i <= pairs@.len(),
            all == pair_views(pairs@),
            all.len() == pairs@.len(),
            target == pairs_steps(old(xml_text)@, name@, all),
            target.0 == pairs_steps(xml_text@, name@, all.skip(i as int)).0,
            target.2 == pairs_steps(xml_text@, name@, all.skip(i as int)).2,
            target.1 == stdout@.subrange(old(stdout)@.len() as int, stdout@.len() as int) + pairs_steps(xml_text@, name@, all.skip(i as int)).1,
            old(stdout)@.len() <= stdout@.len(),
            stdout@.subrange(0, old(stdout)@.len() as int) == old(stdout)@,
        decreases pairs.len() - i,
    {
        proof {
            assert(all.skip(i as int)[0] == all[i as int]);
            assert(all.skip(i as int).drop_first() =~= all.skip(i + 1));
        }
        let ghost before_out = stdout@;
        let ghost pre = xml_text@;
        let step = pair_step_exec(xml_text, name, &pairs[i].0, &pairs[i].1, stdout);
        let ghost first = pair_step(pre, name@, all[i as int].0, all[i as int].1);
        assert(pairs_steps(pre, name@, all.skip(i as int)) == (if first.2 is Err {
            first
        } else {
            then(first, pairs_steps(first.0, name@, all.skip(i + 1)))
        }));
        proof {
            assert(stdout@.subrange(0, old(stdout)@.len() as int) =~= old(stdout)@);
            assert(stdout@.subrange(old(stdout)@.len() as int, stdout@.len() as int) =~= before_out.subrange(old(stdout)@.len() as int, before_out.len() as int) + stdout@.subrange(before_out.len() as int, stdout@.len() as int));
        }
        match step {
            Err(e) => {
                proof {
                    assert(first.2 is Err);
                    assert(target.1 =~= stdout@.subrange(old(stdout)@.len() as int, stdout@.len() as int));
                    assert(stdout@ =~= old(stdout)@ + stdout@.subrange(old(stdout)@.len() as int, stdout@.len() as int));
                }
                return Err(e);
            },
            Ok(()) => {},
        }
        i = i + 1;
    }
    proof {
        assert(all.skip(i as int) =~= Seq::<(Seq<char>, Seq<char>)>::empty());
        assert(target.1 =~= stdout@.subrange(old(stdout)@.len() as int, stdout@.len() as int));
        assert(stdout@ =~= old(stdout)@ + stdout@.subrange(old(stdout)@.len() as int, stdout@.len() as int));
    }
    Ok(())
}

fn available_block_exec(declared: &[char], value: &[char], presentation: &[char]) -> (r: Vec<char>)
    ensures
        r@ == available_value_block(declared@, value@, presentation@),
{
    let mut lines: Vec<Vec<char>> = Vec::new();
    push_line(&mut lines, chars_of("\t\t<availableValue>"));
    let ind = chars_of("\t\t\t");
    let tag = chars_of("value");
    let more = skd_edit_parameter_value_lines(declared, value, &ind, &tag);
    push_lines(&mut lines, more);
    let ghost a = views(lines@);
    if presentation.len() > 0 {
        let ptag = chars_of("presentation");
        skd_compile_emit_mltext(&mut lines, &ind, &ptag, presentation);
    }
    push_line(&mut lines, chars_of("\t\t</availableValue>"));
    assert(views(lines@) =~= seq!["\t\t<availableValue>"@] + parameter_value_lines(declared@, value@, "\t\t\t"@, "value"@) + (if presentation@.len() > 0 {
        mltext_lines("\t\t\t"@, "presentation"@, presentation@)
    } else {
        Seq::empty()
    }) + seq!["\t\t</availableValue>"@]);
    join_str(&lines, "\n")
}

#[verifier::rlimit(40)]
fn available_step_exec(xml_text: &mut Vec<char>, name: &[char], items: &Vec<(Vec<char>, Vec<char>)>, stdout: &mut Vec<char>) -> (r: Result<(), Vec<char>>)
    ensures
        stepped(r, final(xml_text)@, old(stdout)@, final(stdout)@, available_step(old(xml_text)@, name@, pair_views(items@))),
{
    let r1 = match skd_edit_parameter_range(xml_text, name) {
        None => {
            return Err(lost_exec(name));
        },
        Some(r) => r,
    };
    let declared = skd_edit_parameter_declared_type(xml_text, r1);
    let tag = chars_of("availableValue");
    let _ = skd_edit_remove_parameter_children_by_name(xml_text, r1, &tag);
    let r2 = match skd_edit_parameter_range(xml_text, name) {
        None => {
            return Err(lost_exec(name));
        },
        Some(r) => r,
    };
    let ghost pv = pair_views(items@);
    let mut blocks: Vec<Vec<char>> = Vec::new();
    let mut i: usize = 0;
    while i < items.len()
        invariant
            i <= items@.len(),
            pv == pair_views(items@),
            views(blocks@) == pv.take(i as int).map_values(|x: (Seq<char>, Seq<char>)| available_value_block(declared@, x.0, x.1)),
        decreases items.len() - i,
    {
        let b = available_block_exec(&declared, &items[i].0, &items[i].1);
        push_line(&mut blocks, b);
        assert(pv.take(i + 1).map_values(|x: (Seq<char>, Seq<char>)| available_value_block(declared@, x.0, x.1)) =~= pv.take(i as int).map_values(|x: (Seq<char>, Seq<char>)| available_value_block(declared@, x.0, x.1)).push(available_value_block(declared@, pv[i as int].0, pv[i as int].1)));
        i = i + 1;
    }
    assert(pv.take(i as int) =~= pv);
    let frag = join_str(&blocks, "\n");
    let before: &'static [&'static str] = &["denyIncompleteValues", "use", "expression"];
    assert(lit_views(before@) =~= available_before());
    skd_edit_insert_parameter_child_fragment(xml_text, r2, &frag, before);
    push_str(stdout, "[OK] Parameter \"");
    push_chars(stdout, name);
    push_str(stdout, "\": availableValue set to ");
    push_chars(stdout, &usize_text(items.len()));
    push_str(stdout, " item(s)\n");
    assert(stdout@ =~= old(stdout)@ + available_step(old(xml_text)@, name@, pair_views(items@)).1);
    Ok(())
}

fn hidden_step_exec(xml_text: &mut Vec<char>, name: &[char], stdout: &mut Vec<char>) -> (r: Result<(), Vec<char>>)
    ensures
        stepped(r, final(xml_text)@, old(stdout)@, final(stdout)@, hidden_step(old(xml_text)@, name@)),
{
    let r1 = match skd_edit_parameter_range(xml_text, name) {
        None => {
            return Err(lost_exec(name));
        },
        Some(r) => r,
    };
    let b1: &'static [&'static str] = &["availableValue", "denyIncompleteValues", "use", "expression"];
    assert(lit_views(b1@) =~= list_before());
    skd_edit_replace_or_insert_parameter_child_fragment(xml_text, r1, &chars_of("availableAsField"), &chars_of("\t\t<availableAsField>false</availableAsField>"), b1);
    let r2 = match skd_edit_parameter_range(xml_text, name) {
        None => {
            return Err(lost_exec(name));
        },
        Some(r) => r,
    };
    let b2: &'static [&'static str] = &["availableAsField", "availableValue", "denyIncompleteValues", "use", "expression"];
    assert(lit_views(b2@) =~= restriction_before());
    skd_edit_replace_or_insert_parameter_child_fragment(xml_text, r2, &chars_of("useRestriction"), &chars_of("\t\t<useRestriction>true</useRestriction>"), b2);
    push_str(stdout, "[OK] Parameter \"");
    push_chars(stdout, name);
    push_str(stdout, "\": @hidden applied\n");
    assert(stdout@ =~= old(stdout)@ + hidden_step(old(xml_text)@, name@).1);
    Ok(())
}

fn always_step_exec(xml_text: &mut Vec<char>, name: &[char], stdout: &mut Vec<char>) -> (r: Result<(), Vec<char>>)
    ensures
        stepped(r, final(xml_text)@, old(stdout)@, final(stdout)@, always_step(old(xml_text)@, name@)),
{
    let range = match skd_edit_parameter_range(xml_text, name) {
        None => {
            return Err(lost_exec(name));
        },
        Some(r) => r,
    };
    let b: &'static [&'static str] = &[];
    assert(lit_views(b@) =~= Seq::<Seq<char>>::empty());
    skd_edit_replace_or_insert_parameter_child_fragment(xml_text, range, &chars_of("use"), &chars_of("\t\t<use>Always</use>"), b);
    push_str(stdout, "[OK] Parameter \"");
    push_chars(stdout, name);
    push_str(stdout, "\": @always applied\n");
    assert(stdout@ =~= old(stdout)@ + always_step(old(xml_text)@, name@).1);
    Ok(())
}

pub proof fn lemma_then_out(out0: Seq<char>, a: Seq<char>, b: Seq<char>)
    ensures
        out0 + (a + b) == (out0 + a) + b,
{
    assert(out0 + (a + b) =~= (out0 + a) + b);
}

#[verifier::rlimit(60)]
#[verifier::spinoff_prover]
pub fn skd_edit_modify_parameter(xml_text: &mut Vec<char>, patch: &SkdEditParameterPatch, stdout: &mut Vec<char>) -> (r: Result<(), Vec<char>>)
    ensures
        stepped(r, final(xml_text)@, old(stdout)@, final(stdout)@, modify_parameter(old(xml_text)@, *patch)),
{
    let ghost t0 = xml_text@;
    let ghost out0 = stdout@;
    if skd_edit_parameter_range(xml_text, &patch.name).is_none() {
        push_str(stdout, "[WARN] Parameter \"");
        push_chars(stdout, &patch.name);
        push_str(stdout, "\" not found -- skipped\n");
        assert(stdout@ =~= out0 + modify_parameter(t0, *patch).1);
        return Ok(());
    }
    let ghost name = patch.name@;
    let ghost s0 = (t0, Seq::<char>::empty(), Ok::<(), Seq<char>>(()));
    let ghost s1 = and_then(s0, patch.title@.len() > 0, title_step(s0.0, name, patch.title@));
    assert(out0 + s0.1 =~= out0);
    if patch.title.len() > 0 {
        let r = title_step_exec(xml_text, &patch.name, &patch.title, stdout);
        proof {
            lemma_then_out(out0, s0.1, title_step(s0.0, name, patch.title@).1);
        }
        if r.is_err() {
            return r;
        }
    }
    assert(xml_text@ == s1.0 && stdout@ == out0 + s1.1 && s1.2 is Ok);
    let ghost s2 = and_then(s1, patch.values is Some, values_step(s1.0, name, views(patch.values->0@)));
    match &patch.values {
        Some(values) => {
            let r = values_step_exec(xml_text, &patch.name, values, stdout);
            proof {
                lemma_then_out(out0, s1.1, values_step(s1.0, name, views(values@)).1);
            }
            if r.is_err() {
                return r;
            }
        },
        None => {},
    }
    assert(xml_text@ == s2.0 && stdout@ == out0 + s2.1 && s2.2 is Ok);
    let ghost s3 = and_then(s2, true, pairs_steps(s2.0, name, pair_views(patch.simple_pairs@)));
    let r = pairs_steps_exec(xml_text, &patch.name, &patch.simple_pairs, stdout);
    proof {
        lemma_then_out(out0, s2.1, pairs_steps(s2.0, name, pair_views(patch.simple_pairs@)).1);
    }
    if r.is_err() {
        return r;
    }
    assert(xml_text@ == s3.0 && stdout@ == out0 + s3.1 && s3.2 is Ok);
    let ghost s4 = and_then(s3, patch.available_values@.len() > 0, available_step(s3.0, name, pair_views(patch.available_values@)));
    if patch.available_values.len() > 0 {
        let r = available_step_exec(xml_text, &patch.name, &patch.available_values, stdout);
        proof {
            lemma_then_out(out0, s3.1, available_step(s3.0, name, pair_views(patch.available_values@)).1);
        }
        if r.is_err() {
            return r;
        }
    }
    assert(xml_text@ == s4.0 && stdout@ == out0 + s4.1 && s4.2 is Ok);
    let ghost s5 = and_then(s4, patch.hidden, hidden_step(s4.0, name));
    if patch.hidden {
        let r = hidden_step_exec(xml_text, &patch.name, stdout);
        proof {
            lemma_then_out(out0, s4.1, hidden_step(s4.0, name).1);
        }
        if r.is_err() {
            return r;
        }
    }
    assert(xml_text@ == s5.0 && stdout@ == out0 + s5.1 && s5.2 is Ok);
    if patch.always {
        let r = always_step_exec(xml_text, &patch.name, stdout);
        proof {
            lemma_then_out(out0, s5.1, always_step(s5.0, name).1);
        }
        return r;
    }
    Ok(())
}

} // verus!
