use unica_coder::skd_info::{skd_info_dataset_type, skd_info_fields, skd_info_links, skd_info_page, skd_info_templates};
use unica_coder::xml::xml_document;

fn chars(s: &str) -> Vec<char> {
    s.chars().collect()
}

fn text(v: &[char]) -> String {
    v.iter().collect()
}

fn lines(v: &[Vec<char>]) -> Vec<String> {
    v.iter().map(|l| text(l)).collect()
}

const SCHEMA: &str = "<DataCompositionSchema xmlns=\"http://v8.1c.ru/8.1/data-composition-system/schema\" xmlns:xsi=\"http://www.w3.org/2001/XMLSchema-instance\">\
<dataSet xsi:type=\"DataSetQuery\"><name> Sales </name>\
<field xsi:type=\"DataSetFieldField\"><dataPath> Amount </dataPath><field>Amount</field></field>\
<field xsi:type=\"DataSetFieldField\"><field>NoPath</field></field>\
<field xsi:type=\"DataSetFieldField\"><dataPath>Quantity</dataPath></field></dataSet>\
<dataSet xsi:type=\"DataSetUnion\"><name>All</name>\
<item xsi:type=\"DataSetQuery\"><name>Part</name><field><dataPath>Code</dataPath></field></item></dataSet>\
<dataSetLink><sourceDataSet>Sales</sourceDataSet></dataSetLink>\
</DataCompositionSchema>";

#[test]
fn fields_map_lists_each_data_set_and_union_part() {
    let root = xml_document(SCHEMA).ok().unwrap();
    assert_eq!(
        lines(&skd_info_fields(&root)),
        vec![
            "=== Fields map ===",
            "Sales [Query] (2): Amount, Quantity",
            "All [Union] (0): ",
            "  Part [Query] (1): Code",
            "",
            "Use -Name <field> for details.",
        ]
    );
}

#[test]
fn long_field_lists_are_shortened() {
    let mut body = String::from("<DataCompositionSchema xmlns=\"http://v8.1c.ru/8.1/data-composition-system/schema\"><dataSet><name>S</name>");
    for i in 0..30 {
        body.push_str(&format!("<field><dataPath>Field{i:02}</dataPath></field>"));
    }
    body.push_str("</dataSet></DataCompositionSchema>");
    let root = xml_document(&body).ok().unwrap();
    let report = lines(&skd_info_fields(&root));
    let line = &report[1];
    assert!(line.starts_with("S [Unknown] (30): Field00, Field01"));
    assert!(line.ends_with("..."));
    assert_eq!(line.chars().count(), "S [Unknown] (30): ".chars().count() + 100);
}

#[test]
fn data_set_kind_is_read_from_its_type() {
    let root = xml_document(SCHEMA).ok().unwrap();
    let kinds: Vec<String> = root.children.iter().filter(|c| c.name == chars("dataSet")).map(|c| text(&skd_info_dataset_type(c))).collect();
    assert_eq!(kinds, vec!["Query", "Union"]);
}

#[test]
fn links_are_counted() {
    let root = xml_document(SCHEMA).ok().unwrap();
    assert_eq!(lines(&skd_info_links(&root)), vec!["=== Links (1) ==="]);
    let bare = xml_document("<DataCompositionSchema xmlns=\"http://v8.1c.ru/8.1/data-composition-system/schema\"/>").ok().unwrap();
    assert_eq!(lines(&skd_info_links(&bare)), vec!["(no links)"]);
}

#[test]
fn pages_show_a_window_of_lines() {
    let report: Vec<Vec<char>> = ["a", "b", "c", "d"].iter().map(|s| chars(s)).collect();
    assert_eq!(text(&skd_info_page(&report, 0, 150)), "a\nb\nc\nd\n");
    assert_eq!(
        text(&skd_info_page(&report, 1, 2)),
        "b\nc\n\n[TRUNCATED] Shown 2 of 4 lines. Use -Offset 3 to continue.\n"
    );
    assert_eq!(text(&skd_info_page(&report, 2, 5)), "c\nd\n");
    assert_eq!(
        text(&skd_info_page(&report, 4, 5)),
        "[INFO] Offset 4 exceeds total lines (4). Nothing to show.\n"
    );
    assert_eq!(text(&skd_info_page(&Vec::new(), 0, 5)), "\n");
}

#[test]
fn templates_are_counted_by_kind() {
    let root = xml_document(
        "<DataCompositionSchema xmlns=\"http://v8.1c.ru/8.1/data-composition-system/schema\">\
<template/><template/><fieldTemplate/><groupTemplate/><groupHeaderTemplate/><groupFooterTemplate/>\
</DataCompositionSchema>",
    )
    .ok()
    .unwrap();
    assert_eq!(
        lines(&skd_info_templates(&root)),
        vec!["=== Templates (2 defined: 1 field, 3 group) ==="]
    );
}
