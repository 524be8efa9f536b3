use unica_coder::subsystem_edit::{
    subsystem_edit_add_child, subsystem_edit_add_content, subsystem_edit_apply, subsystem_edit_remove_child,
    subsystem_edit_remove_content, subsystem_edit_set_property, subsystem_edit_summary, SubsystemEditCounters,
    SubsystemEditModel, SubsystemEditValue,
};

fn chars(s: &str) -> Vec<char> {
    s.chars().collect()
}

fn text(v: &[char]) -> String {
    v.iter().collect()
}

fn texts(v: &[Vec<char>]) -> Vec<String> {
    v.iter().map(|t| text(t)).collect()
}

fn model() -> SubsystemEditModel {
    SubsystemEditModel {
        version: chars("2.17"),
        uuid: chars("00000000-0000-0000-0000-000000000001"),
        name: chars("Sales"),
        synonym: chars("Продажи"),
        comment: Vec::new(),
        include_help: chars("true"),
        include_ci: chars("true"),
        use_one_command: chars("false"),
        explanation: Vec::new(),
        picture: Vec::new(),
        content: vec![chars("Catalog.Goods")],
        children: vec![chars("Orders")],
    }
}

fn counters() -> SubsystemEditCounters {
    SubsystemEditCounters { added: 0, removed: 0, modified: 0 }
}

#[test]
fn add_content_normalizes_and_skips_what_is_there() {
    let mut m = model();
    let mut c = counters();
    let mut out = Vec::new();
    let items = vec![chars("Catalogs.Goods"), chars("Document.Invoice"), chars("Документ.Invoice")];
    subsystem_edit_add_content(&mut m, &items, &mut c, &mut out);
    assert_eq!(texts(&m.content), vec!["Catalog.Goods", "Document.Invoice"]);
    assert_eq!(c.added, 1);
    assert_eq!(
        text(&out),
        "[NORM] Content: Catalogs.Goods -> Catalog.Goods\n\
         [WARN] Content already contains: Catalog.Goods\n\
         [INFO] Added content: Document.Invoice\n\
         [NORM] Content: Документ.Invoice -> Document.Invoice\n\
         [WARN] Content already contains: Document.Invoice\n"
    );
}

#[test]
fn add_content_twice_changes_nothing_the_second_time() {
    let mut m = model();
    let mut c = counters();
    let mut out = Vec::new();
    let items = vec![chars("Report.Sales")];
    subsystem_edit_add_content(&mut m, &items, &mut c, &mut out);
    let after_first = texts(&m.content);
    subsystem_edit_add_content(&mut m, &items, &mut c, &mut out);
    assert_eq!(texts(&m.content), after_first);
    assert_eq!(c.added, 1);
    assert!(text(&out).ends_with("[WARN] Content already contains: Report.Sales\n"));
}

#[test]
fn remove_content_takes_items_as_written() {
    let mut m = model();
    let mut c = counters();
    let mut out = Vec::new();
    subsystem_edit_remove_content(&mut m, &vec![chars("Catalogs.Goods"), chars("Catalog.Goods")], &mut c, &mut out);
    assert!(m.content.is_empty());
    assert_eq!(c.removed, 1);
    assert_eq!(
        text(&out),
        "[WARN] Content item not found: Catalogs.Goods\n[INFO] Removed content: Catalog.Goods\n"
    );
}

#[test]
fn child_added_then_removed_leaves_the_list_as_it_was() {
    let mut m = model();
    let mut c = counters();
    let mut out = Vec::new();
    assert!(subsystem_edit_add_child(&mut m, &chars("Returns"), &mut c, &mut out));
    assert_eq!(texts(&m.children), vec!["Orders", "Returns"]);
    assert!(!subsystem_edit_add_child(&mut m, &chars("Returns"), &mut c, &mut out));
    subsystem_edit_remove_child(&mut m, &chars("Returns"), &mut c, &mut out);
    subsystem_edit_remove_child(&mut m, &chars("Missing"), &mut c, &mut out);
    assert_eq!(texts(&m.children), vec!["Orders"]);
    assert_eq!((c.added, c.removed), (1, 1));
    assert_eq!(
        text(&out),
        "[INFO] Added child subsystem: Returns\n\
         [WARN] ChildObjects already contains: Returns\n\
         [INFO] Removed child subsystem: Returns\n\
         [WARN] Child subsystem not found: Missing\n"
    );
}

#[test]
fn set_property_writes_flags_in_lower_case_and_refuses_unknown_names() {
    let mut m = model();
    let mut c = counters();
    let mut out = Vec::new();
    assert!(subsystem_edit_set_property(&mut m, &Some(chars("UseOneCommand")), &chars("True"), &mut c, &mut out).is_ok());
    assert_eq!(text(&m.use_one_command), "true");
    assert!(subsystem_edit_set_property(&mut m, &Some(chars("Synonym")), &[], &mut c, &mut out).is_ok());
    assert_eq!(text(&m.synonym), "");
    assert!(subsystem_edit_set_property(&mut m, &Some(chars("Comment")), &chars("Note"), &mut c, &mut out).is_ok());
    assert_eq!(text(&m.comment), "Note");
    assert_eq!(c.modified, 3);
    assert_eq!(
        text(&out),
        "[INFO] Set UseOneCommand = True\n[INFO] Cleared Synonym\n[INFO] Set Comment = \"Note\"\n"
    );
    let err = subsystem_edit_set_property(&mut m, &Some(chars("Color")), &chars("red"), &mut c, &mut out).unwrap_err();
    assert_eq!(text(&err), "Property 'Color' not found in Properties");
    let err = subsystem_edit_set_property(&mut m, &None, &chars("red"), &mut c, &mut out).unwrap_err();
    assert_eq!(text(&err), "set-property requires {name, value}");
    assert_eq!(c.modified, 3);
}

#[test]
fn summary_counts_the_changes() {
    let c = SubsystemEditCounters { added: 2, removed: 0, modified: 11 };
    assert_eq!(
        text(&subsystem_edit_summary(&chars("Sales"), &c)),
        "\n=== subsystem-edit summary ===\n  Subsystem: Sales\n  Added:     2\n  Removed:   0\n  Modified:  11\n"
    );
}

fn value(list: Result<Vec<Vec<char>>, Vec<char>>, t: &str) -> SubsystemEditValue {
    SubsystemEditValue { list, text: chars(t), property: Err(chars("value must be a JSON object")) }
}

#[test]
fn apply_dispatches_by_operation_and_refuses_unknown_ones() {
    let mut m = model();
    let mut c = counters();
    let mut out = Vec::new();
    let v = value(Ok(vec![chars("Catalog.Items")]), "Returns");
    assert_eq!(subsystem_edit_apply(&mut m, &chars("add-content"), &v, &mut c, &mut out), Ok(false));
    assert_eq!(subsystem_edit_apply(&mut m, &chars("add-child"), &v, &mut c, &mut out), Ok(true));
    assert_eq!(subsystem_edit_apply(&mut m, &chars("add-child"), &v, &mut c, &mut out), Ok(false));
    assert_eq!(texts(&m.content), vec!["Catalog.Goods", "Catalog.Items"]);
    assert_eq!(texts(&m.children), vec!["Orders", "Returns"]);
    assert_eq!(c.added, 2);
    let err = subsystem_edit_apply(&mut m, &chars("rename"), &v, &mut c, &mut out).unwrap_err();
    assert_eq!(text(&err), "Unknown operation: rename");
    let err = subsystem_edit_apply(&mut m, &chars("set-property"), &v, &mut c, &mut out).unwrap_err();
    assert_eq!(text(&err), "value must be a JSON object");
    let bad = value(Err(chars("failed to parse value list: EOF")), "");
    let err = subsystem_edit_apply(&mut m, &chars("remove-content"), &bad, &mut c, &mut out).unwrap_err();
    assert_eq!(text(&err), "failed to parse value list: EOF");
}
