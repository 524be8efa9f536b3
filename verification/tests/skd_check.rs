use unica_coder::skd_check::skd_validate;

fn chars(s: &str) -> Vec<char> {
    s.chars().collect()
}

fn text(v: &[char]) -> String {
    v.iter().collect()
}

fn schema(body: &str) -> String {
    format!(
        "\u{feff}<?xml version=\"1.0\" encoding=\"UTF-8\"?>\n<DataCompositionSchema xmlns=\"http://v8.1c.ru/8.1/data-composition-system/schema\" xmlns:dcsset=\"http://v8.1c.ru/8.1/data-composition-system/settings\" xmlns:v8=\"http://v8.1c.ru/8.1/data/core\" xmlns:xs=\"http://www.w3.org/2001/XMLSchema\" xmlns:xsi=\"http://www.w3.org/2001/XMLSchema-instance\">{body}</DataCompositionSchema>"
    )
}

const BASE: &str = "<dataSource><name>DS</name><dataSourceType>Local</dataSourceType></dataSource>\
<dataSet xsi:type=\"DataSetQuery\"><name>Set</name><dataSource>DS</dataSource><query>SELECT 1</query></dataSet>\
<settingsVariant><dcsset:name>Main</dcsset:name><dcsset:settings/></settingsVariant>";

#[test]
fn skd_validate_passes_a_small_schema() {
    let (ok, report, errors) = skd_validate(&chars(&schema(BASE)), &chars("T.xml"), 20, false);
    assert!(ok);
    assert_eq!(text(&report), "=== Validation OK: T.xml (6 checks) ===\n");
    assert!(errors.is_empty());
}

#[test]
fn skd_validate_reports_text_that_is_not_xml() {
    let (ok, report, errors) = skd_validate(&chars("<DataCompositionSchema>"), &chars("T.xml"), 20, false);
    assert!(!ok);
    let report = text(&report);
    assert!(report.starts_with("=== Validation: T.xml ===\n\n[ERROR] XML parse failed: "));
    assert!(report.ends_with('\n'));
    assert_eq!(errors.len(), 1);
    assert!(text(&errors[0]).starts_with("[ERROR] XML parse failed: "));
}

#[test]
fn skd_validate_finds_duplicate_sources_and_unknown_references() {
    let body = "<dataSource><name>DS</name></dataSource><dataSource><name>DS</name></dataSource>\
<dataSet xsi:type=\"DataSetQuery\"><name>Set</name><dataSource>Other</dataSource><query>SELECT 1</query></dataSet>\
<settingsVariant><dcsset:name>Main</dcsset:name><dcsset:settings/></settingsVariant>";
    let (ok, report, errors) = skd_validate(&chars(&schema(body)), &chars("T.xml"), 20, false);
    assert!(!ok);
    let report = text(&report);
    assert!(report.contains("[ERROR] Duplicate dataSource name: DS\n"));
    assert!(report.contains("[ERROR] DataSet 'Set' references unknown dataSource: Other\n"));
    assert!(report.ends_with("=== Result: 2 errors, 0 warnings (6 checks) ===\n"));
    assert_eq!(errors.len(), 2);
}

#[test]
fn skd_validate_reads_prefixes_bound_in_scope() {
    let good = format!(
        "{BASE}<parameter><name>P</name><valueType><v8:Type xmlns:d5p1=\"http://v8.1c.ru/8.1/data/enterprise/current-config\">d5p1:CatalogRef.Items</v8:Type></valueType></parameter>"
    );
    let (ok, report, _) = skd_validate(&chars(&schema(&good)), &chars("T.xml"), 20, true);
    assert!(ok);
    assert!(text(&report).contains("[OK]    1 valueType block(s): structure and qualifiers OK\n"));
    let bad = format!("{BASE}<parameter><name>P</name><valueType><v8:Type>d5p1:CatalogRef.Items</v8:Type></valueType></parameter>");
    let (ok, report, _) = skd_validate(&chars(&schema(&bad)), &chars("T.xml"), 20, false);
    assert!(!ok);
    assert!(text(&report).contains(
        "[ERROR] valueType: type 'd5p1:CatalogRef.Items' uses prefix 'd5p1' bound to unexpected namespace 'None'\n"
    ));
}

#[test]
fn skd_validate_checks_qualifiers_against_types() {
    let body = format!(
        "{BASE}<parameter><name>P</name><valueType><v8:Type>xs:string</v8:Type><v8:NumberQualifiers><v8:Digits>10</v8:Digits><v8:FractionDigits>x</v8:FractionDigits></v8:NumberQualifiers></valueType></parameter>"
    );
    let (ok, report, _) = skd_validate(&chars(&schema(&body)), &chars("T.xml"), 20, false);
    assert!(!ok);
    let report = text(&report);
    assert!(report.contains("[ERROR] v8:NumberQualifiers: <v8:FractionDigits> missing or not a non-negative integer\n"));
    assert!(report.contains("[ERROR] valueType: <v8:NumberQualifiers> has no matching <v8:Type>xs:decimal</v8:Type> in this valueType\n"));
}

#[test]
fn skd_validate_stops_at_the_error_limit() {
    let body = "<dataSource><name></name></dataSource><dataSource><name></name></dataSource>";
    let (ok, report, errors) = skd_validate(&chars(&schema(body)), &chars("T.xml"), 1, false);
    assert!(!ok);
    assert_eq!(errors.len(), 2);
    let report = text(&report);
    assert!(report.ends_with("=== Result: 2 errors, 0 warnings (5 checks) ===\n"));
    assert!(!report.contains("No dataSet elements found"));
}

#[test]
fn skd_validate_reports_a_wrong_root() {
    let (ok, report, _) = skd_validate(&chars("<Other/>"), &chars("T.xml"), 20, false);
    assert!(!ok);
    let report = text(&report);
    assert!(report.contains("[ERROR] Root element is 'Other', expected 'DataCompositionSchema'\n"));
    assert!(report.contains("[ERROR] Default namespace is '', expected 'http://v8.1c.ru/8.1/data-composition-system/schema'\n"));
}

const BASE_SKD_XML: &str = "<?xml version=\"1.0\" encoding=\"UTF-8\"?>
<DataCompositionSchema xmlns=\"http://v8.1c.ru/8.1/data-composition-system/schema\"
\t\txmlns:dcscom=\"http://v8.1c.ru/8.1/data-composition-system/common\"
\t\txmlns:dcscor=\"http://v8.1c.ru/8.1/data-composition-system/core\"
\t\txmlns:dcsset=\"http://v8.1c.ru/8.1/data-composition-system/settings\"
\t\txmlns:v8=\"http://v8.1c.ru/8.1/data/core\"
\t\txmlns:v8ui=\"http://v8.1c.ru/8.1/data/ui\"
\t\txmlns:xs=\"http://www.w3.org/2001/XMLSchema\"
\t\txmlns:xsi=\"http://www.w3.org/2001/XMLSchema-instance\">
\t<dataSource>
\t\t<name>ИсточникДанных1</name>
\t\t<dataSourceType>Local</dataSourceType>
\t</dataSource>
\t<dataSet xsi:type=\"DataSetQuery\">
\t\t<name>НаборДанных1</name>
\t\t<field xsi:type=\"DataSetFieldField\">
\t\t\t<dataPath>Amount</dataPath>
\t\t\t<field>Amount</field>
\t\t</field>
\t\t<dataSource>ИсточникДанных1</dataSource>
\t\t<query>ВЫБРАТЬ Amount КАК Amount</query>
\t</dataSet>
\t<settingsVariant>
\t\t<dcsset:name>Основной</dcsset:name>
\t\t<dcsset:settings>
\t\t\t<dcsset:selection>
\t\t\t</dcsset:selection>
\t\t\t<dcsset:filter>
\t\t\t</dcsset:filter>
\t\t\t<dcsset:order>
\t\t\t</dcsset:order>
\t\t\t<dcsset:item xsi:type=\"dcsset:StructureItemGroup\">
\t\t\t\t<dcsset:selection>
\t\t\t\t\t<dcsset:item xsi:type=\"dcsset:SelectedItemAuto\"/>
\t\t\t\t</dcsset:selection>
\t\t\t</dcsset:item>
\t\t</dcsset:settings>
\t</settingsVariant>
</DataCompositionSchema>
";

#[test]
fn native_skd_validate_rejects_ref_type_bound_to_unexpected_namespace() {
    let xml = BASE_SKD_XML.replace(
        "<field>Amount</field>",
        "<field>Amount</field>\n\t\t\t<valueType>\n\t\t\t\t<v8:Type xmlns:bad=\"http://example.com\">bad:CatalogRef.X</v8:Type>\n\t\t\t</valueType>",
    );
    let (ok, report, _) = skd_validate(&chars(&xml), &chars("Template.xml"), 20, false);
    let stdout = text(&report);
    assert!(!ok, "{stdout}");
    assert!(
        stdout.contains("uses prefix 'bad' bound to unexpected namespace 'http://example.com'"),
        "{stdout}"
    );
}
