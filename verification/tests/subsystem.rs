use unica_coder::metadata::format_version_of;
use unica_coder::subsystem::{
    normalize_subsystem_content_ref, split_camel_case, subsystem_compile, subsystem_content_type,
    subsystem_known_plural_types, subsystem_register, subsystem_stub_xml, subsystem_validate, Registration,
    SubsystemDefinition,
};

fn chars(s: &str) -> Vec<char> {
    s.chars().collect()
}

fn text(v: &[char]) -> String {
    v.iter().collect()
}

const GOOD: &str = "\u{feff}<?xml version=\"1.0\" encoding=\"UTF-8\"?>
<MetaDataObject xmlns=\"http://v8.1c.ru/8.3/MDClasses\" xmlns:v8=\"http://v8.1c.ru/8.1/data/core\" xmlns:xr=\"http://v8.1c.ru/8.3/xcf/readable\" xmlns:xsi=\"http://www.w3.org/2001/XMLSchema-instance\" version=\"2.17\">
\t<Subsystem uuid=\"0f3b1c2d-1234-4abc-8def-0123456789ab\">
\t\t<Properties>
\t\t\t<Name>Продажи</Name>
\t\t\t<Synonym><v8:item><v8:lang>ru</v8:lang><v8:content>Продажи</v8:content></v8:item></Synonym>
\t\t\t<Comment/>
\t\t\t<IncludeHelpInContents>true</IncludeHelpInContents>
\t\t\t<IncludeInCommandInterface>true</IncludeInCommandInterface>
\t\t\t<UseOneCommand>false</UseOneCommand>
\t\t\t<Explanation/>
\t\t\t<Picture/>
\t\t\t<Content><xr:Item xsi:type=\"xr:MDObjectRef\">Catalog.Товары</xr:Item></Content>
\t\t</Properties>
\t\t<ChildObjects/>
\t</Subsystem>
</MetaDataObject>
";

#[test]
fn content_kinds_become_singular_english() {
    assert_eq!(subsystem_content_type(&chars("Catalogs")), Some("Catalog"));
    assert_eq!(subsystem_content_type(&chars("Справочники")), Some("Catalog"));
    assert_eq!(subsystem_content_type(&chars("РегистрРасчёта")), Some("CalculationRegister"));
    assert_eq!(subsystem_content_type(&chars("Catalog")), None);
    assert_eq!(text(&normalize_subsystem_content_ref(&chars("Documents.Заказ"))), "Document.Заказ");
    assert_eq!(text(&normalize_subsystem_content_ref(&chars("Документ.Заказ.Форма"))), "Document.Заказ.Форма");
    assert_eq!(text(&normalize_subsystem_content_ref(&chars("Catalog.Items"))), "Catalog.Items");
    assert_eq!(text(&normalize_subsystem_content_ref(&chars("NoDot"))), "NoDot");
    assert_eq!(subsystem_known_plural_types().len(), 42);
    assert!(subsystem_known_plural_types().contains(&"IntegrationServices"));
}

#[test]
fn camel_case_names_read_as_phrases() {
    assert_eq!(text(&split_camel_case(&chars("ЗаказыКлиентов"))), "Заказы клиентов");
    assert_eq!(text(&split_camel_case(&chars("SalesOrders"))), "Sales orders");
    assert_eq!(text(&split_camel_case(&chars("A"))), "A");
}

#[test]
fn a_well_formed_subsystem_passes() {
    let (ok, report) = subsystem_validate(&chars(GOOD), &[], &None, false);
    assert!(ok);
    assert_eq!(text(&report), "=== Validation OK: Subsystem.Продажи (11 checks) ===");
}

#[test]
fn a_detailed_report_lists_each_check_with_crlf() {
    let (ok, report) = subsystem_validate(&chars(GOOD), &[], &Some(Ok(chars("<a/>"))), true);
    assert!(ok);
    let expected = [
        "=== Validation: Subsystem.Продажи ===",
        "",
        "[OK]    1. Root structure: MetaDataObject/Subsystem, uuid=0f3b1c2d-1234-4abc-8def-0123456789ab, version 2.17",
        "[OK]    2. Properties: all 9 required properties present",
        "",
        "=== Validation: Subsystem.Продажи ===",
        "[OK]    3. Name: \"Продажи\" - valid identifier",
        "[OK]    4. Synonym: \"Продажи\" (1 lang(s))",
        "[OK]    5. Boolean properties: valid",
        "[OK]    6. Content: 1 items, all valid MDObjectRef format",
        "[OK]    7. Content: no duplicates",
        "[OK]    8. ChildObjects: empty (leaf subsystem)",
        "[OK]    11. CommandInterface: exists, well-formed",
        "[OK]    12. Picture: empty (not set)",
        "[OK]    13. UseOneCommand: false (no constraint)",
        "",
        "=== Result: 0 errors, 0 warnings (11 checks) ===",
    ]
    .join("\r\n")
        + "\r\n";
    assert_eq!(text(&report), expected);
}

#[test]
fn content_and_children_problems_are_reported() {
    let xml = GOOD
        .replace(
            "<Content><xr:Item xsi:type=\"xr:MDObjectRef\">Catalog.Товары</xr:Item></Content>",
            "<Content><xr:Item xsi:type=\"xr:MDObjectRef\">Catalogs.Товары</xr:Item><xr:Item>bad item</xr:Item><xr:Item xsi:type=\"xr:MDObjectRef\">Catalogs.Товары</xr:Item></Content>",
        )
        .replace("<UseOneCommand>false</UseOneCommand>", "<UseOneCommand>true</UseOneCommand>")
        .replace(
            "<ChildObjects/>",
            "<ChildObjects><Subsystem>Дочерняя</Subsystem><Subsystem>Вторая</Subsystem><Subsystem>Дочерняя</Subsystem></ChildObjects>",
        );
    let files = vec![chars("Дочерняя.xml")];
    let (ok, report) = subsystem_validate(&chars(&xml), &files, &Some(Err(chars("denied"))), false);
    assert!(!ok);
    let expected = [
        "=== Validation: Subsystem.Продажи ===",
        "",
        "",
        "=== Validation: Subsystem.Продажи ===",
        "[ERROR] 6. Content item \"Catalogs.Товары\": uses plural form \"Catalogs\" (platform requires singular, e.g. Catalog not Catalogs)",
        "[ERROR] 6. Content item \"bad item\": xsi:type=\"\" (expected xr:MDObjectRef)",
        "[ERROR] 6. Content item \"bad item\": invalid format (expected Type.Name or UUID)",
        "[ERROR] 6. Content item \"Catalogs.Товары\": uses plural form \"Catalogs\" (platform requires singular, e.g. Catalog not Catalogs)",
        "[WARN]  7. Content: duplicates found: Catalogs.Товары",
        "[ERROR] 9. ChildObjects: duplicates: Дочерняя",
        "[WARN]  10. ChildObjects files: missing: Вторая",
        "[WARN]  11. CommandInterface: exists but NOT well-formed: denied",
        "[WARN]  13. UseOneCommand: true but Content has 3 items (expected 1)",
        "",
        "=== Result: 5 errors, 4 warnings (16 checks) ===",
    ]
    .join("\r\n")
        + "\r\n";
    assert_eq!(text(&report), expected);
}

#[test]
fn broken_files_stop_the_check_early() {
    let (ok, report) = subsystem_validate(&chars("<MetaDataObject>"), &[], &None, false);
    assert!(!ok);
    let report = text(&report);
    assert!(report.starts_with("[ERROR] 1. XML parse error: "), "{report}");
    assert!(report.ends_with("\r\n\r\n=== Result: 1 errors, 0 warnings (1 checks) ===\r\n"), "{report}");
    let (ok, report) = subsystem_validate(&chars("<Other xmlns=\"http://v8.1c.ru/8.3/MDClasses\"/>"), &[], &None, false);
    assert!(!ok);
    assert_eq!(
        text(&report),
        "[ERROR] 1. Root structure: expected MetaDataObject/Subsystem, not found\r\n\r\n=== Result: 1 errors, 0 warnings (1 checks) ===\r\n"
    );
}

fn definition(name: &str) -> SubsystemDefinition {
    SubsystemDefinition {
        name: chars(name),
        synonym: Vec::new(),
        comment: Vec::new(),
        include_in_command_interface: None,
        use_one_command: Some(chars("True")),
        explanation: chars("Для <менеджеров>"),
        picture: Vec::new(),
        uuid: Vec::new(),
        content: vec![chars("Catalogs.Товары"), chars("Document.Заказ")],
        children: vec![chars("Отчеты")],
    }
}

#[test]
fn compiling_a_definition_writes_the_metadata_file() {
    let fresh = chars("11111111-2222-3333-4444-555555555555");
    let compiled = match subsystem_compile(&definition("ПродажиТоваров"), &chars("2.17"), &fresh) {
        Ok(c) => c,
        Err(e) => panic!("{}", text(&e)),
    };
    assert_eq!(text(&compiled.uuid), "11111111-2222-3333-4444-555555555555");
    assert_eq!(
        text(&compiled.messages),
        "[NORM] Content: Catalogs.Товары -> Catalog.Товары\n[INFO] Normalized 1 content reference(s) to singular English form\n"
    );
    let xml = text(&compiled.xml);
    assert!(xml.starts_with("<?xml version=\"1.0\" encoding=\"UTF-8\"?>\n<MetaDataObject xmlns=\"http://v8.1c.ru/8.3/MDClasses\""));
    assert!(xml.contains(" version=\"2.17\">\n\t<Subsystem uuid=\"11111111-2222-3333-4444-555555555555\">\n"));
    assert!(xml.contains("\t\t\t<Name>ПродажиТоваров</Name>\n\t\t\t<Synonym>\n\t\t\t\t<v8:item>\n\t\t\t\t\t<v8:lang>ru</v8:lang>\n\t\t\t\t\t<v8:content>Продажи товаров</v8:content>\n"));
    assert!(xml.contains("\t\t\t<Comment/>\n\t\t\t<IncludeHelpInContents>true</IncludeHelpInContents>\n\t\t\t<IncludeInCommandInterface>true</IncludeInCommandInterface>\n\t\t\t<UseOneCommand>true</UseOneCommand>\n"));
    assert!(xml.contains("<v8:content>Для &lt;менеджеров&gt;</v8:content>"));
    assert!(xml.contains("\t\t\t<Picture/>\n\t\t\t<Content>\n\t\t\t\t<xr:Item xsi:type=\"xr:MDObjectRef\">Catalog.Товары</xr:Item>\n\t\t\t\t<xr:Item xsi:type=\"xr:MDObjectRef\">Document.Заказ</xr:Item>\n\t\t\t</Content>\n"));
    assert!(xml.ends_with("\t\t<ChildObjects>\n\t\t\t<Subsystem>Отчеты</Subsystem>\n\t\t</ChildObjects>\n\t</Subsystem>\n</MetaDataObject>\n"));
    let (ok, _) = subsystem_validate(&compiled.xml, &[chars("Отчеты.xml")], &None, false);
    assert!(ok);
}

#[test]
fn an_explicit_uuid_is_kept_and_a_name_is_required() {
    let mut d = definition("Склад");
    d.uuid = chars("aaaaaaaa-bbbb-cccc-dddd-eeeeeeeeeeee");
    let compiled = subsystem_compile(&d, &chars("2.17"), &chars("x")).ok().unwrap();
    assert_eq!(text(&compiled.uuid), "aaaaaaaa-bbbb-cccc-dddd-eeeeeeeeeeee");
    let err = subsystem_compile(&definition(""), &chars("2.17"), &chars("x")).err().unwrap();
    assert_eq!(text(&err), "JSON must have 'name' field");
}

#[test]
fn child_stubs_are_empty_subsystems() {
    let xml = text(&subsystem_stub_xml(&chars("Отчеты"), &chars("2.17"), &chars("u-1")));
    assert!(xml.contains("\t<Subsystem uuid=\"u-1\">\n\t\t<Properties>\n\t\t\t<Name>Отчеты</Name>\n\t\t\t<Synonym/>\n"));
    assert!(xml.ends_with("\t\t\t<Content/>\n\t\t</Properties>\n\t\t<ChildObjects/>\n\t</Subsystem>\n</MetaDataObject>\n"));
}

#[test]
fn registering_twice_changes_the_parent_once() {
    let parent = chars("<Configuration>\n\t\t<ChildObjects/>\n</Configuration>");
    let (outcome, first) = subsystem_register(&parent, &chars("Продажи"));
    assert!(matches!(outcome, Registration::Registered));
    assert_eq!(
        text(&first),
        "<Configuration>\n\t\t<ChildObjects>\n\t\t\t<Subsystem>Продажи</Subsystem>\n\t\t</ChildObjects>\n</Configuration>"
    );
    let (outcome, second) = subsystem_register(&first, &chars("Продажи"));
    assert!(matches!(outcome, Registration::Already));
    assert_eq!(second, first);
    let (outcome, third) = subsystem_register(&first, &chars("Склад"));
    assert!(matches!(outcome, Registration::Registered));
    assert!(text(&third).contains("<Subsystem>Продажи</Subsystem>\n\t\t\t\t\t<Subsystem>Склад</Subsystem>\n\t\t</ChildObjects>"));
    let (outcome, same) = subsystem_register(&chars("<Configuration/>"), &chars("X"));
    assert!(matches!(outcome, Registration::NotFound));
    assert_eq!(text(&same), "<Configuration/>");
}

#[test]
fn subsystem_stub_children_keeps_each_name_once() {
    let names = vec![chars("Б"), chars("А"), chars("Б"), chars("В"), chars("А")];
    let r: Vec<String> = unica_coder::subsystem::subsystem_stub_children(&names).iter().map(|v| text(v)).collect();
    assert_eq!(r, vec!["Б", "А", "В"]);
}

#[test]
fn format_version_is_read_from_the_metadata_object_tag() {
    let config = "<?xml version=\"1.0\" encoding=\"UTF-8\"?>\n<MetaDataObject xmlns=\"http://v8.1c.ru/8.3/MDClasses\" version=\"2.16\">\n<Configuration/>";
    assert_eq!(format_version_of(&chars(config)).map(|v| text(&v)), Some("2.16".to_string()));
    assert_eq!(format_version_of(&chars("<?xml version=\"1.0\"?><Configuration/>")), None);
    assert_eq!(format_version_of(&chars("<MetaDataObject xmlns=\"x\"><Child version=\"3\"/>")), None);
    assert_eq!(format_version_of(&chars("<MetaDataObject version=\"2.17")), None);
}

fn bare_definition(name: &str, uuid: &str, children: &[&str]) -> SubsystemDefinition {
    SubsystemDefinition {
        name: chars(name),
        synonym: Vec::new(),
        comment: Vec::new(),
        include_in_command_interface: None,
        use_one_command: None,
        explanation: Vec::new(),
        picture: Vec::new(),
        uuid: chars(uuid),
        content: Vec::new(),
        children: children.iter().map(|c| chars(c)).collect(),
    }
}

fn subsystem_uuid(xml: &str) -> String {
    let marker = "<Subsystem uuid=\"";
    let start = xml.find(marker).unwrap() + marker.len();
    let end = xml[start..].find('"').unwrap() + start;
    xml[start..end].to_string()
}

#[test]
fn compile_subsystem_preserves_explicit_uuid() {
    let explicit_uuid = "11111111-2222-3333-4444-555555555555";
    let compiled = subsystem_compile(
        &bare_definition("ExplicitUuidSubsystem", explicit_uuid, &[]),
        &chars("2.17"),
        &chars("aaaaaaaa-bbbb-cccc-dddd-eeeeeeeeeeee"),
    );
    let compiled = match compiled {
        Ok(c) => c,
        Err(e) => panic!("{:?}", text(&e)),
    };
    assert_eq!(subsystem_uuid(&text(&compiled.xml)), explicit_uuid);
}

#[test]
fn compile_subsystem_generates_unique_uuid_when_missing() {
    let mut uuids = Vec::new();
    for (name, fresh) in [
        ("GeneratedUuidA", "0a1b2c3d-0000-4000-8000-000000000001"),
        ("GeneratedUuidB", "0a1b2c3d-0000-4000-8000-000000000002"),
    ] {
        let compiled = match subsystem_compile(&bare_definition(name, "", &[]), &chars("2.17"), &chars(fresh)) {
            Ok(c) => c,
            Err(e) => panic!("{:?}", text(&e)),
        };
        uuids.push(subsystem_uuid(&text(&compiled.xml)));
    }
    assert_ne!(uuids[0], uuids[1]);
}

#[test]
fn compile_subsystem_generates_unique_child_stub_uuid_when_missing() {
    let mut uuids = Vec::new();
    for (parent, child, fresh) in [
        ("GeneratedParentA", "GeneratedChildA", "0a1b2c3d-0000-4000-8000-00000000000a"),
        ("GeneratedParentB", "GeneratedChildB", "0a1b2c3d-0000-4000-8000-00000000000b"),
    ] {
        let compiled = subsystem_compile(
            &bare_definition(parent, "", &[child]),
            &chars("2.17"),
            &chars("0a1b2c3d-0000-4000-8000-0000000000ff"),
        );
        assert!(compiled.is_ok(), "{:?}", compiled.err().map(|e| text(&e)));
        let stub = text(&subsystem_stub_xml(&chars(child), &chars("2.17"), &chars(fresh)));
        uuids.push(subsystem_uuid(&stub));
    }
    assert_ne!(uuids[0], uuids[1]);
}
