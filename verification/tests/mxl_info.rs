use unica_coder::mxl_info::mxl_info;

fn chars(s: &str) -> Vec<char> {
    s.chars().collect()
}

fn text(v: &[char]) -> String {
    v.iter().collect()
}

const DOC: &str = "\u{feff}<document xmlns=\"http://v8.1c.ru/8.2/data/spreadsheet\" \
xmlns:xsi=\"http://www.w3.org/2001/XMLSchema-instance\" xmlns:v8=\"http://v8.1c.ru/8.1/data/core\">\
<columns><size>4</size></columns>\
<columns><id>abcdefghijk</id><size>2</size></columns>\
<rowsItem><index>0</index><row><c><c><parameter>Номер</parameter><detailParameter>Док</detailParameter></c></c></row></rowsItem>\
<rowsItem><index>1</index><row><c><i>1</i><c><tl><v8:item><v8:lang>ru</v8:lang><v8:content>Итого [Сумма]</v8:content></v8:item></tl></c></c></row></rowsItem>\
<rowsItem><index>3</index><row><c><c><parameter>Подвал</parameter></c></c></row></rowsItem>\
<height>4</height>\
<namedItem xsi:type=\"NamedItemCells\"><name>Шапка</name><area><type>Rows</type><beginRow>0</beginRow><endRow>1</endRow>\
<beginColumn>-1</beginColumn><endColumn>-1</endColumn></area></namedItem>\
<namedItem xsi:type=\"NamedItemCells\"><name>Колонка</name><area><type>Columns</type><beginRow>-1</beginRow><endRow>-1</endRow>\
<beginColumn>0</beginColumn><endColumn>0</endColumn><columnsID>abcdefghijk</columnsID></area></namedItem>\
<namedItem xsi:type=\"NamedItemDrawing\"><name>Лого</name><drawingID>1</drawingID></namedItem>\
<merge><r>0</r><c>0</c><w>1</w></merge>\
</document>";

fn expected(with_text: bool) -> Vec<String> {
    let mut v = vec![
        "=== Макет ===".to_string(),
        "Поддержка: x".to_string(),
        "  Rows: 4, Columns: 4".to_string(),
        "  Column sets: 2 (default=4 cols + 1 additional)".to_string(),
        "    abcdefgh...: 2 cols".to_string(),
        String::new(),
        "--- Named areas ---".to_string(),
        format!("  {:<25} {:<12} cols 0-0  (3 params) [colset 2cols]", "Колонка", "Columns"),
        format!("  {:<25} {:<12} rows 0-1  (2 params)", "Шапка", "Rows"),
        format!("  {:<25} Drawing      drawingID=1", "Лого"),
        String::new(),
        "--- Intersections (use with GetArea) ---".to_string(),
        "  Шапка|Колонка".to_string(),
        String::new(),
        "--- Parameters by area ---".to_string(),
        "  Колонка: Номер, Сумма [tpl], Подвал".to_string(),
        "    detail: Номер->Док".to_string(),
        "  Шапка: Номер, Сумма [tpl]".to_string(),
        "    detail: Номер->Док".to_string(),
        "  (outside areas): Подвал".to_string(),
    ];
    if with_text {
        v.push(String::new());
        v.push("--- Text content ---".to_string());
        v.push("  Колонка:".to_string());
        v.push("    Templates: \"Итого [Сумма]\"".to_string());
        v.push("  Шапка:".to_string());
        v.push("    Templates: \"Итого [Сумма]\"".to_string());
    }
    v.push(String::new());
    v.push("--- Stats ---".to_string());
    v.push("  Merges: 1".to_string());
    v.push("  Drawings: 0".to_string());
    v
}

#[test]
fn mxl_info_describes_areas_and_parameters() {
    let out = mxl_info(&chars(DOC), &chars("Макет"), &chars("x"), false, 10, 0, 150).unwrap();
    assert_eq!(text(&out), expected(false).join("\n") + "\n");
}

#[test]
fn mxl_info_lists_texts_on_request() {
    let out = mxl_info(&chars(DOC), &chars("Макет"), &chars("x"), true, 10, 0, 150).unwrap();
    assert_eq!(text(&out), expected(true).join("\n") + "\n");
}

#[test]
fn mxl_info_shortens_long_lists() {
    let out = mxl_info(&chars(DOC), &chars("Макет"), &chars("x"), false, 1, 0, 150).unwrap();
    assert!(text(&out).contains("  Колонка: Номер, ... (+2)\n"));
}

#[test]
fn mxl_info_pages_its_lines() {
    let total = expected(false).len();
    let out = mxl_info(&chars(DOC), &chars("Макет"), &chars("x"), false, 10, 0, 3).unwrap();
    assert_eq!(
        text(&out),
        format!(
            "=== Макет ===\nПоддержка: x\n  Rows: 4, Columns: 4\n\n[TRUNCATED] Shown 3 of {total} lines. Use -Offset 3 to continue.\n"
        )
    );
    let out = mxl_info(&chars(DOC), &chars("Макет"), &chars("x"), false, 10, 100, 150).unwrap();
    assert_eq!(text(&out), format!("[INFO] Offset 100 exceeds total lines ({total}). Nothing to show.\n"));
    let out = mxl_info(&chars(DOC), &chars("Макет"), &chars("x"), false, 10, total as i64 - 2, 150).unwrap();
    assert_eq!(text(&out), "  Merges: 1\n  Drawings: 0\n");
}

#[test]
fn mxl_info_refuses_text_that_is_not_xml() {
    assert!(mxl_info(&chars("<document>"), &[], &[], false, 10, 0, 150).is_err());
}
