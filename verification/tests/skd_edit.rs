use unica_coder::skd_apply::{
    skd_edit_add_data_set, skd_edit_prepare_text, skd_edit_replace_query, skd_edit_run, skd_edit_saved_text, EditInput,
};
use unica_coder::skd_values::{skd_edit_parse_data_set, skd_edit_split_values};

fn chars(s: &str) -> Vec<char> {
    s.chars().collect()
}

fn text(v: &[char]) -> String {
    v.iter().collect()
}

struct Outcome {
    ok: bool,
    stdout: String,
    error: String,
    saved: Option<String>,
}

const USER_SETTING: &str = "11111111-2222-3333-4444-555555555555";

fn edit(xml: &str, operation: &str, value: &str, variant: &str) -> Outcome {
    let inputs: Vec<EditInput> =
        skd_edit_split_values(&chars(operation), &chars(value)).into_iter().map(EditInput::Value).collect();
    match skd_edit_run(&chars(xml), &chars(operation), &inputs, &[], &chars(variant), false, &chars(USER_SETTING)) {
        Ok((saved, out)) => Outcome { ok: true, stdout: text(&out), error: String::new(), saved: saved.map(|s| text(&s)) },
        Err(e) => Outcome { ok: false, stdout: String::new(), error: text(&e), saved: None },
    }
}

fn base_skd_xml() -> &'static str {
    r#"<?xml version="1.0" encoding="UTF-8"?>
<DataCompositionSchema xmlns="http://v8.1c.ru/8.1/data-composition-system/schema"
		xmlns:dcscom="http://v8.1c.ru/8.1/data-composition-system/common"
		xmlns:dcscor="http://v8.1c.ru/8.1/data-composition-system/core"
		xmlns:dcsset="http://v8.1c.ru/8.1/data-composition-system/settings"
		xmlns:v8="http://v8.1c.ru/8.1/data/core"
		xmlns:v8ui="http://v8.1c.ru/8.1/data/ui"
		xmlns:xs="http://www.w3.org/2001/XMLSchema"
		xmlns:xsi="http://www.w3.org/2001/XMLSchema-instance">
	<dataSource>
		<name>ИсточникДанных1</name>
		<dataSourceType>Local</dataSourceType>
	</dataSource>
	<dataSet xsi:type="DataSetQuery">
		<name>НаборДанных1</name>
		<field xsi:type="DataSetFieldField">
			<dataPath>Amount</dataPath>
			<field>Amount</field>
		</field>
		<dataSource>ИсточникДанных1</dataSource>
		<query>ВЫБРАТЬ Amount КАК Amount</query>
	</dataSet>
	<settingsVariant>
		<dcsset:name>Основной</dcsset:name>
		<dcsset:settings>
			<dcsset:selection>
			</dcsset:selection>
			<dcsset:filter>
			</dcsset:filter>
			<dcsset:order>
			</dcsset:order>
			<dcsset:item xsi:type="dcsset:StructureItemGroup">
				<dcsset:selection>
					<dcsset:item xsi:type="dcsset:SelectedItemAuto"/>
				</dcsset:selection>
			</dcsset:item>
		</dcsset:settings>
	</settingsVariant>
</DataCompositionSchema>
"#
}

fn two_variant_skd_xml() -> String {
    base_skd_xml().replace(
        "</settingsVariant>\n</DataCompositionSchema>",
        "</settingsVariant>\n\t<settingsVariant>\n\t\t<dcsset:name>Дополнительный</dcsset:name>\n\t\t<dcsset:settings>\n\t\t\t<dcsset:selection>\n\t\t\t</dcsset:selection>\n\t\t</dcsset:settings>\n\t</settingsVariant>\n</DataCompositionSchema>",
    )
}

fn parameter_skd_xml() -> String {
    base_skd_xml()
        .replace(
            "\t<settingsVariant>",
            "\t<parameter>\n\t\t<name>Период</name>\n\t\t<expression>&amp;Период</expression>\n\t</parameter>\n\t<parameter>\n\t\t<name>ПериодОтчетаДокумента</name>\n\t\t<expression>&amp;ПериодОтчетаДокумента</expression>\n\t</parameter>\n\t<settingsVariant>",
        )
        .replace(
            "\t\t\t<dcsset:selection>",
            "\t\t\t<dcsset:dataParameters>\n\t\t\t\t<dcsset:item>\n\t\t\t\t\t<dcscor:parameter>Период</dcscor:parameter>\n\t\t\t\t</dcsset:item>\n\t\t\t\t<dcsset:item>\n\t\t\t\t\t<dcscor:parameter>ПериодОтчетаДокумента</dcscor:parameter>\n\t\t\t\t</dcsset:item>\n\t\t\t</dcsset:dataParameters>\n\t\t\t<dcsset:selection>",
        )
}

fn variant_block(xml_text: &str, name: &str) -> String {
    let marker = format!("<dcsset:name>{name}</dcsset:name>");
    let name_pos = xml_text.find(&marker).unwrap_or_else(|| panic!("{name} not found"));
    let start = xml_text[..name_pos].rfind("<settingsVariant>").unwrap();
    let end = xml_text[name_pos..].find("</settingsVariant>").unwrap() + name_pos + "</settingsVariant>".len();
    xml_text[start..end].to_string()
}

#[test]
fn native_skd_edit_accepts_documented_operations_without_script_fallback() {
    let operations = [
        ("add-field", "Quantity: decimal(10,0)"),
        ("add-total", "Amount: Сумма(Amount)"),
        ("add-calculated-field", "Margin: decimal(10,2) = Amount - Cost"),
        ("add-parameter", "Период [Период]: StandardPeriod = LastMonth @autoDates"),
        ("add-filter", "Amount > 0 @user"),
        ("add-dataParameter", "Период = LastMonth @user"),
        ("add-order", "Amount desc"),
        ("add-selection", "Quantity"),
        ("add-dataSetLink", "НаборДанных1 > Доп on Amount = Amount [param LinkParam]"),
        ("add-dataSet", "Доп: ВЫБРАТЬ 1 КАК Amount"),
        ("add-variant", "Alt [Alt presentation]"),
        ("add-conditionalAppearance", "ЦветТекста = web:Red when Amount < 0 for Amount"),
        ("add-drilldown", "Amount"),
        ("set-query", "ВЫБРАТЬ 2 КАК Amount"),
        ("patch-query", "2 => 3"),
        ("set-outputParameter", "Заголовок = Test"),
        ("set-structure", "Amount > details @name=Данные"),
        ("modify-field", "Quantity [Qty]: decimal(15,2)"),
        ("modify-filter", "Amount >= 1 @off"),
        ("modify-dataParameter", "Период = ThisMonth @off"),
        ("modify-parameter", "Период [Period title] value=ThisYear @hidden @always"),
        ("modify-structure", "Quantity > details @name=Данные"),
        ("set-field-role", "Quantity dimension"),
        ("rename-parameter", "Период => ПериодОтчета"),
        ("reorder-parameters", "ПериодОтчета, ДатаНачала, ДатаОкончания"),
        ("clear-selection", "*"),
        ("clear-order", "*"),
        ("clear-filter", "*"),
        ("clear-conditionalAppearance", "*"),
        ("remove-field", "Quantity"),
        ("remove-total", "Amount"),
        ("remove-calculated-field", "Margin"),
        ("remove-parameter", "ПериодОтчета"),
        ("remove-filter", "Amount"),
    ];
    let mut current = base_skd_xml().to_string();
    for (operation, value) in operations {
        let outcome = edit(&current, operation, value, "");
        assert!(outcome.ok, "{operation} failed: {}", outcome.error);
        if let Some(updated) = outcome.saved {
            roxmltree::Document::parse(&updated)
                .unwrap_or_else(|err| panic!("{operation} left invalid XML: {err}\n{updated}"));
            current = updated;
        }
    }
}

#[test]
fn native_skd_edit_structure_preserves_nested_named_groups() {
    let outcome = edit(base_skd_xml(), "set-structure", "Amount @name=G1 > Quantity @name=G2 > details", "");
    assert!(outcome.ok, "{}", outcome.error);
    let first = outcome.saved.unwrap();
    let outcome = edit(&first, "modify-structure", "Price @name=G2", "");
    assert!(outcome.ok, "{}", outcome.error);
    let updated = outcome.saved.unwrap();
    assert!(updated.contains("<dcsset:name>G1</dcsset:name>"), "{updated}");
    assert!(updated.contains("<dcsset:name>G2</dcsset:name>"), "{updated}");
    assert!(updated.contains("xsi:type=\"dcsset:GroupItemField\""), "{updated}");
    assert!(updated.contains("<dcsset:groupType>Items</dcsset:groupType>"), "{updated}");
    assert!(updated.contains("<dcsset:field>Amount</dcsset:field>"), "{updated}");
    assert!(updated.contains("<dcsset:field>Price</dcsset:field>"), "{updated}");
    assert!(!updated.contains("<dcsset:field>Quantity</dcsset:field>"), "{updated}");
}

#[test]
fn native_skd_edit_scopes_settings_changes_to_requested_variant() {
    let outcome = edit(&two_variant_skd_xml(), "add-selection", "Amount", "Дополнительный");
    assert!(outcome.ok, "{}", outcome.error);
    let updated = outcome.saved.unwrap();
    let primary = variant_block(&updated, "Основной");
    let secondary = variant_block(&updated, "Дополнительный");
    assert!(!primary.contains("<dcsset:field>Amount</dcsset:field>"), "{primary}");
    assert!(secondary.contains("<dcsset:field>Amount</dcsset:field>"), "{secondary}");
}

#[test]
fn native_skd_edit_patch_query_honors_once_marker() {
    let xml = base_skd_xml().replace("ВЫБРАТЬ Amount КАК Amount", "ВЫБРАТЬ Code КАК Code");
    let outcome = edit(&xml, "patch-query", "Code => ItemCode @once", "");
    assert!(!outcome.ok);
    assert!(outcome.error.contains("@once: expected 1 occurrence"), "{}", outcome.error);
    assert!(outcome.saved.is_none());
}

#[test]
fn native_skd_edit_rename_parameter_uses_token_boundaries() {
    let outcome = edit(&parameter_skd_xml(), "rename-parameter", "Период => ПериодОтчета", "");
    assert!(outcome.ok, "{}", outcome.error);
    let updated = outcome.saved.unwrap();
    assert!(updated.contains("<name>ПериодОтчета</name>"), "{updated}");
    assert!(updated.contains("<expression>&amp;ПериодОтчета</expression>"), "{updated}");
    assert!(updated.contains("<expression>&amp;ПериодОтчетаДокумента</expression>"), "{updated}");
    assert!(updated.contains("<dcscor:parameter>ПериодОтчета</dcscor:parameter>"), "{updated}");
    assert!(updated.contains("<dcscor:parameter>ПериодОтчетаДокумента</dcscor:parameter>"), "{updated}");
}

#[test]
fn native_skd_edit_noop_leaves_file_untouched() {
    let outcome = edit(base_skd_xml(), "remove-filter", "MissingField", "");
    assert!(outcome.ok, "{}", outcome.error);
    assert!(outcome.saved.is_none());
    assert!(outcome.stdout.contains("[INFO] No changes -- file untouched"), "{}", outcome.stdout);
    assert!(outcome.stdout.contains("[WARN] Filter for \"MissingField\" not found in variant \"Основной\""), "{}", outcome.stdout);
}

#[test]
fn unknown_operation_is_an_error() {
    let outcome = edit(base_skd_xml(), "frobnicate", "x", "");
    assert!(!outcome.ok);
    assert_eq!(outcome.error, "native skd-edit does not support Operation 'frobnicate' yet");
}

#[test]
fn text_that_is_not_xml_is_refused_before_editing() {
    let r = skd_edit_prepare_text(&chars("<a><b></a>"));
    let e = r.err().expect("not XML");
    let e = text(&e);
    assert!(e.starts_with("[ERROR] XML parse error: "), "{e}");
    assert!(e.len() > "[ERROR] XML parse error: ".len());
}

#[test]
fn prepared_text_drops_byte_order_marks_and_finds_line_ends() {
    let (t, crlf) = skd_edit_prepare_text(&chars("\u{feff}\u{feff}<a/>\r\n")).unwrap();
    assert_eq!(text(&t), "<a/>\r\n");
    assert!(crlf);
    let (t, crlf) = skd_edit_prepare_text(&chars("<a/>\n")).unwrap();
    assert_eq!(text(&t), "<a/>\n");
    assert!(!crlf);
}

#[test]
fn saved_text_normalises_encoding_and_line_ends() {
    let t = chars("<?xml version=\"1.0\" encoding=\"UTF-8\"?>\n<a/>");
    let original = chars("x");
    let saved = skd_edit_saved_text(&t, &original, true, false).unwrap();
    assert_eq!(text(&saved), "<?xml version=\"1.0\" encoding=\"utf-8\"?>\r\n<a/>\r\n");
    let saved = skd_edit_saved_text(&chars("a\r\nb"), &original, false, false).unwrap();
    assert_eq!(text(&saved), "a\nb\n");
    assert!(skd_edit_saved_text(&t, &t, true, false).is_none());
    assert!(skd_edit_saved_text(&t, &t, false, true).is_some());
}

#[test]
fn add_total_completes_the_function_and_reports_it() {
    let outcome = edit(base_skd_xml(), "add-total", "Amount", "");
    assert!(outcome.ok, "{}", outcome.error);
    assert_eq!(outcome.stdout, "[OK] TotalField \"Amount\" = Сумма(Amount) added\n");
    let updated = outcome.saved.unwrap();
    assert!(updated.contains("\t<totalField>\n\t\t<dataPath>Amount</dataPath>\n\t\t<expression>Сумма(Amount)</expression>\n\t</totalField>"), "{updated}");
    let again = edit(&updated, "add-total", "Amount", "");
    assert_eq!(again.stdout, "[WARN] totalField \"Amount\" already exists -- skipped\n[INFO] No changes -- file untouched\n");
}

#[test]
fn patch_query_without_separator_is_refused() {
    let outcome = edit(base_skd_xml(), "patch-query", "Amount", "");
    assert!(!outcome.ok);
    assert_eq!(outcome.error, "patch-query value must contain ' => ' separator: old => new");
}

#[test]
fn patch_query_counts_occurrences() {
    let outcome = edit(base_skd_xml(), "patch-query", "Amount => Total", "");
    assert!(outcome.ok, "{}", outcome.error);
    assert_eq!(outcome.stdout, "[OK] Query patched in dataset \"НаборДанных1\": replaced 'Amount' (2 occurrence(s))\n");
    assert!(outcome.saved.unwrap().contains("<query>ВЫБРАТЬ Total КАК Total</query>"));
}

#[test]
fn output_parameter_without_equals_is_refused() {
    let outcome = edit(base_skd_xml(), "set-outputParameter", "Заголовок", "");
    assert!(!outcome.ok);
    assert_eq!(outcome.error, "outputParameter value must contain '='");
}

#[test]
fn data_set_read_from_a_file_is_added_with_its_query() {
    let (t, _) = skd_edit_prepare_text(&chars(base_skd_xml())).unwrap();
    let mut data_set = skd_edit_parse_data_set(&chars("Доп: @query.txt"));
    assert_eq!(text(&data_set.name), "Доп");
    assert_eq!(text(&data_set.query), "@query.txt");
    data_set.query = chars("ВЫБРАТЬ 1");
    let (n, out, force) = skd_edit_add_data_set(&t, &data_set).unwrap();
    assert!(!force);
    assert_eq!(text(&out), "[OK] DataSet \"Доп\" added (dataSource=ИсточникДанных1)\n");
    assert!(text(&n).contains("<name>Доп</name>\n\t\t<dataSource>ИсточникДанных1</dataSource>\n\t\t<query>ВЫБРАТЬ 1</query>"));
    let plain = skd_edit_parse_data_set(&chars("  ВЫБРАТЬ 2  "));
    assert_eq!(text(&plain.name), "НаборДанных");
    assert_eq!(text(&plain.query), "ВЫБРАТЬ 2");
    let (n, out, _) = skd_edit_replace_query(&t, &[], &chars("ВЫБРАТЬ 3")).unwrap();
    assert_eq!(text(&out), "[OK] Query replaced in dataset \"НаборДанных1\"\n");
    assert!(text(&n).contains("<query>ВЫБРАТЬ 3</query>"));
}

#[test]
fn skd_edit_run_keeps_nothing_when_a_later_value_fails() {
    let inputs = vec![
        EditInput::Query(chars("ВЫБРАТЬ 1")),
        EditInput::Unreadable(chars("Query file not found: q.txt (searched: q.txt)")),
    ];
    let r = skd_edit_run(&chars(base_skd_xml()), &chars("set-query"), &inputs, &[], &[], false, &chars(USER_SETTING));
    assert_eq!(r.err().map(|e| text(&e)), Some("Query file not found: q.txt (searched: q.txt)".to_string()));
}

#[test]
fn skd_edit_run_applies_each_value_in_turn() {
    let inputs = vec![EditInput::Query(chars("ВЫБРАТЬ 2"))];
    let (saved, out) =
        skd_edit_run(&chars(base_skd_xml()), &chars("set-query"), &inputs, &[], &[], false, &chars(USER_SETTING)).unwrap();
    assert!(text(&saved.unwrap()).contains("ВЫБРАТЬ 2"));
    assert!(text(&out).starts_with("[OK] Query replaced in dataset"));
}
