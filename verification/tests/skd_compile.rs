use unica_coder::skd_compile::{skd_compile_summary, skd_compile_type_value, skd_compile_xml, SkdDataSetDef, SkdDefinition, SkdFieldDef, SkdTypeSpec};

fn chars(s: &str) -> Vec<char> {
    s.chars().collect()
}

fn text(v: &[char]) -> String {
    v.iter().collect()
}

fn query_set(name: Option<&str>, fields: Vec<SkdFieldDef>) -> SkdDataSetDef {
    SkdDataSetDef {
        name: name.map(chars),
        has_items: false,
        has_object_name: false,
        object_name: None,
        fields,
        source: None,
        query: Some(chars("SELECT 1 AS A")),
        auto_fill_fields: Some(false),
        items: Vec::new(),
    }
}

fn shorthand(s: &str) -> SkdFieldDef {
    SkdFieldDef { shorthand: Some(chars(s)), data_path: None, field: None, title: None, type_spec: None }
}

fn definition(sets: Option<Vec<SkdDataSetDef>>) -> SkdDefinition {
    SkdDefinition { data_sources: None, data_sets: sets, calculated: 0, totals: 2, parameters: 1, variants: 0 }
}

#[test]
fn skd_compile_names_unnamed_sets_and_uses_the_default_source() {
    let defn = definition(Some(vec![query_set(None, vec![shorthand("Name")])]));
    let xml = text(&skd_compile_xml(&defn).unwrap());
    let expected_part = "\t<dataSource>\n\t\t<name>ИсточникДанных1</name>\n\t\t<dataSourceType>Local</dataSourceType>\n\t</dataSource>\n\
\t<dataSet xsi:type=\"DataSetQuery\">\n\t\t<name>НаборДанных1</name>\n\
\t\t<field xsi:type=\"DataSetFieldField\">\n\t\t\t<dataPath>Name</dataPath>\n\t\t\t<field>Name</field>\n\t\t</field>\n\
\t\t<dataSource>ИсточникДанных1</dataSource>\n\t\t<query>SELECT 1 AS A</query>\n\t\t<autoFillFields>false</autoFillFields>\n\t</dataSet>\n";
    assert!(xml.starts_with("<?xml version=\"1.0\" encoding=\"UTF-8\"?>\n<DataCompositionSchema "));
    assert!(xml.contains(expected_part));
    assert!(xml.ends_with("\t</settingsVariant>\n</DataCompositionSchema>\n"));
}

#[test]
fn skd_compile_refuses_a_definition_without_data_sets() {
    let err = skd_compile_xml(&definition(Some(Vec::new()))).unwrap_err();
    assert_eq!(text(&err), "JSON must have at least one entry in 'dataSets'");
    assert!(skd_compile_xml(&definition(None)).is_err());
}

#[test]
fn skd_compile_nests_union_items_and_escapes_names() {
    let mut union = query_set(Some("U"), Vec::new());
    union.has_items = true;
    union.query = None;
    union.items = vec![query_set(Some("A&B"), Vec::new())];
    let xml = text(&skd_compile_xml(&definition(Some(vec![union]))).unwrap());
    assert!(xml.contains("\t<dataSet xsi:type=\"DataSetUnion\">\n\t\t<name>U</name>\n\t\t<dataSet xsi:type=\"DataSetQuery\">\n\t\t\t<name>A&amp;B</name>\n"));
    assert!(!xml.contains("\t\t<dataSource>ИсточникДанных1</dataSource>\n\t\t<dataSet"));
}

#[test]
fn skd_compile_summary_counts_the_definition() {
    let defn = definition(Some(vec![query_set(Some("S"), vec![shorthand("A"), shorthand("B")])]));
    assert_eq!(
        text(&skd_compile_summary(&defn, &chars("out.xml"), 1234)),
        "OK  out.xml\n    DataSets: 1  Fields: 2  Calculated: 0  Totals: 2  Params: 1  Variants: 1\n    Size: 1234 bytes\n"
    );
}

#[test]
fn skd_compile_type_value_joins_non_empty_members() {
    let t = SkdTypeSpec::List(vec![SkdTypeSpec::Text(chars("")), SkdTypeSpec::Text(chars("xs:string"))]);
    let single = text(&skd_compile_type_value(&SkdTypeSpec::Text(chars("xs:string"))));
    let joined = text(&skd_compile_type_value(&t));
    assert!(!single.is_empty());
    assert_eq!(joined, single);
}
