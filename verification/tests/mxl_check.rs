use unica_coder::mxl_check::mxl_validate;
use unica_coder::xml::XmlElement;

fn chars(s: &str) -> Vec<char> {
    s.chars().collect()
}

fn text(v: &[char]) -> String {
    v.iter().collect()
}

const VALID: &str = "\u{feff}<?xml version=\"1.0\" encoding=\"UTF-8\"?>\
<document xmlns=\"http://v8.1c.ru/8.2/data/spreadsheet\">\
<columns><size>2</size></columns>\
<rowsItem><index>0</index><row><c><i>0</i><c><f>1</f></c></c></row></rowsItem>\
<height>1</height>\
<vgRows>1</vgRows>\
<font/>\
<format><font>0</font></format>\
</document>";

const BROKEN: &str = "<document xmlns=\"http://v8.1c.ru/8.2/data/spreadsheet\" \
xmlns:xsi=\"http://www.w3.org/2001/XMLSchema-instance\">\
<columns><id>abc</id><size>2</size></columns>\
<columns><size>3</size></columns>\
<rowsItem><index>4</index><row><columnsID>zzzzzzzzzz12</columnsID><formatIndex>5</formatIndex>\
<c><i>7</i><c><f>9</f></c></c></row></rowsItem>\
<rowsItem><row><c><i>3</i></c></row></rowsItem>\
<height>2</height>\
<merge><r>1</r><c>0</c><h>3</h></merge>\
<drawing><id>d1</id><pictureIndex>2</pictureIndex></drawing>\
<namedItem xsi:type=\"NamedItemCells\"><name>Шапка</name>\
<area><beginRow>5</beginRow><endRow>-1</endRow><columnsID>abc</columnsID></area></namedItem>\
</document>";

#[test]
fn mxl_validate_reports_a_clean_template_briefly() {
    let r = mxl_validate(&chars(VALID), &chars("Invoice"), 20, false).unwrap();
    assert!(r.0);
    assert_eq!(text(&r.1), "=== Validation OK: Template.Invoice (5 checks) ===\n");
}

#[test]
fn mxl_validate_lists_every_check_when_detailed() {
    let r = mxl_validate(&chars(VALID), &chars("Invoice"), 20, true).unwrap();
    assert!(r.0);
    let expected = [
        "=== Validation: Template.Invoice ===",
        "",
        "[OK]    height (1) >= max row index + 1 (1), rowsItem count=1",
        "[OK]    vgRows (1) <= height (1)",
        "[OK]    Font refs: max=0, palette size=1",
        "[OK]    Format refs: max cell=1, max row=0, palette size=1",
        "[OK]    Column indices: max in default set=0, default column count=2",
        "",
        "=== Result: 0 errors, 0 warnings (5 checks) ===",
    ]
    .join("\n")
        + "\n";
    assert_eq!(text(&r.1), expected);
}

#[test]
fn mxl_validate_reports_each_broken_reference() {
    let r = mxl_validate(&chars(BROKEN), &chars("Invoice"), 20, false).unwrap();
    assert!(!r.0);
    let expected = [
        "=== Validation: Template.Invoice ===",
        "",
        "[ERROR] height=2 but max row index=4 (need at least 5)",
        "[ERROR] Row 4: formatIndex=5 > format palette size (0)",
        "[ERROR] Row 4: columnsID 'zzzzzzzz...' not found in column sets",
        "[ERROR] Row 4: column index 7 >= column count (3)",
        "[ERROR] Row 4: cell format index 9 > format palette size (0)",
        "[ERROR] Row 5: column index 3 >= column count (3)",
        "[ERROR] Area 'Шапка': beginRow=5 >= height=2",
        "[ERROR] Merge at row=1: extends to row 4 >= height (2)",
        "[ERROR] Drawing id=d1: pictureIndex=2 > picture count (0)",
        "",
        "=== Result: 9 errors, 0 warnings (10 checks) ===",
    ]
    .join("\n")
        + "\n";
    assert_eq!(text(&r.1), expected);
}

#[test]
fn mxl_validate_stops_after_enough_errors() {
    let r = mxl_validate(&chars(BROKEN), &chars("Invoice"), 2, false).unwrap();
    assert!(!r.0);
    let expected = [
        "=== Validation: Template.Invoice ===",
        "",
        "[ERROR] height=2 but max row index=4 (need at least 5)",
        "[ERROR] Row 4: formatIndex=5 > format palette size (0)",
        "[ERROR] Row 4: columnsID 'zzzzzzzz...' not found in column sets",
        "[ERROR] Row 4: column index 7 >= column count (3)",
        "[ERROR] Row 4: cell format index 9 > format palette size (0)",
        "",
        "=== Result: 5 errors, 0 warnings (5 checks) ===",
    ]
    .join("\n")
        + "\n";
    assert_eq!(text(&r.1), expected);
}

#[test]
fn mxl_validate_warns_on_a_tall_visible_area() {
    let doc = "<document xmlns=\"http://v8.1c.ru/8.2/data/spreadsheet\"><height>1</height><vgRows>3</vgRows></document>";
    let r = mxl_validate(&chars(doc), &chars("T"), 20, false).unwrap();
    assert!(r.0);
    let expected = [
        "=== Validation: Template.T ===",
        "",
        "[WARN]  vgRows (3) > height (1)",
        "",
        "=== Result: 0 errors, 1 warnings (4 checks) ===",
    ]
    .join("\n")
        + "\n";
    assert_eq!(text(&r.1), expected);
}

#[test]
fn mxl_validate_refuses_text_that_is_not_xml() {
    assert!(mxl_validate(&chars("<document>"), &chars("T"), 20, false).is_err());
}

#[test]
fn mxl_validate_tree_checks_a_built_document() {
    let ns = chars("http://v8.1c.ru/8.2/data/spreadsheet");
    let leaf = |name: &str, text: &str| XmlElement {
        name: chars(name),
        namespace: ns.clone(),
        attributes: Vec::new(),
        text: Some(chars(text)),
        children: Vec::new(),
        namespaces: Vec::new(),
    };
    let root = XmlElement {
        name: chars("document"),
        namespace: ns.clone(),
        attributes: Vec::new(),
        text: None,
        children: vec![leaf("height", "1"), leaf("vgRows", "3")],
        namespaces: Vec::new(),
    };
    let (ok, report) = unica_coder::mxl_check::mxl_validate_tree(&root, &chars("T"), 20, false);
    assert!(ok);
    assert!(text(&report).contains("[WARN]  vgRows (3) > height (1)"));
}
