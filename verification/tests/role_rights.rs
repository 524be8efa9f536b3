use unica_coder::role_check::role_validate;
use unica_coder::role_rights::{
    parse_role_object_entry, reusable_existing_role_uuid, role_compile, role_compile_report, role_register,
    RightFlag, RoleDefinition, RoleObject, RoleObjectEntry, RoleObjectSpec, RoleRegistration, RoleRightsSpec,
};

fn chars(s: &str) -> Vec<char> {
    s.chars().collect()
}

fn text(v: &[char]) -> String {
    v.iter().collect()
}

fn rights_of(o: &RoleObject) -> Vec<(String, String, Option<String>)> {
    o.rights.iter().map(|r| (text(&r.name), text(&r.value), r.condition.as_ref().map(|c| text(c)))).collect()
}

fn granted(name: &str) -> (String, String, Option<String>) {
    (name.to_string(), "true".to_string(), None)
}

#[test]
fn a_text_entry_lists_translated_rights() {
    let mut err = Vec::new();
    let o = parse_role_object_entry(&RoleObjectEntry::Text(chars("Справочник.Товары: Чтение, , Просмотр")), &mut err)
        .unwrap();
    assert_eq!(text(&o.name), "Catalog.Товары");
    assert_eq!(rights_of(&o), vec![granted("Read"), granted("View")]);
    assert!(err.is_empty());
}

#[test]
fn a_text_entry_can_name_a_preset() {
    let mut err = Vec::new();
    let o = parse_role_object_entry(&RoleObjectEntry::Text(chars("Catalog.Items: @view")), &mut err).unwrap();
    assert_eq!(rights_of(&o), vec![granted("Read"), granted("View"), granted("InputByString")]);
    assert!(err.is_empty());
    let o = parse_role_object_entry(&RoleObjectEntry::Text(chars("Catalog.Items: @nothing")), &mut err).unwrap();
    assert!(o.rights.is_empty());
    assert_eq!(text(&err), "WARNING: Unknown preset '@nothing'. Known: @view, @edit\n");
}

#[test]
fn entries_without_names_are_skipped_with_a_warning() {
    let mut err = Vec::new();
    assert!(parse_role_object_entry(&RoleObjectEntry::Text(chars("no colon here")), &mut err).is_none());
    assert!(parse_role_object_entry(&RoleObjectEntry::Other, &mut err).is_none());
    let spec = RoleObjectSpec { name: Some(Vec::new()), preset: None, rights: RoleRightsSpec::Absent, rls: Vec::new() };
    assert!(parse_role_object_entry(&RoleObjectEntry::Object(spec), &mut err).is_none());
    assert_eq!(
        text(&err),
        "WARNING: Invalid string 'no colon here' -- expected 'Object.Name: @preset' or 'Object.Name: Right1, Right2'\n\
         WARNING: Object entry missing 'name' field\n\
         WARNING: Object entry missing 'name' field\n"
    );
}

#[test]
fn table_entries_list_each_right_once_in_first_order() {
    let mut err = Vec::new();
    let spec = RoleObjectSpec {
        name: Some(chars("Документ.Заказ")),
        preset: Some(chars("@view")),
        rights: RoleRightsSpec::Flags(vec![
            (chars("Изменение"), RightFlag::Text(chars("True"))),
            (chars("Read"), RightFlag::Bool(false)),
            (chars("Delete"), RightFlag::Other),
        ]),
        rls: vec![(chars("Чтение"), chars("WHERE 1")), (chars("Posting"), chars("x"))],
    };
    let o = parse_role_object_entry(&RoleObjectEntry::Object(spec), &mut err).unwrap();
    assert_eq!(text(&o.name), "Document.Заказ");
    assert_eq!(
        rights_of(&o),
        vec![
            ("Read".to_string(), "false".to_string(), Some("WHERE 1".to_string())),
            granted("View"),
            granted("InputByString"),
            granted("Update"),
            ("Delete".to_string(), "false".to_string(), None),
        ]
    );
    assert_eq!(text(&err), "WARNING: Document.Заказ: RLS for 'Posting' but this right is not in the rights list\n");
}

fn definition() -> RoleDefinition {
    RoleDefinition {
        name: chars("Менеджер"),
        synonym: None,
        comment: Vec::new(),
        objects: vec![
            RoleObjectEntry::Text(chars("Catalog.Items: Read, View")),
            RoleObjectEntry::Object(RoleObjectSpec {
                name: Some(chars("Document.Order")),
                preset: None,
                rights: RoleRightsSpec::List(vec![chars("Read")]),
                rls: vec![(chars("Read"), chars("a < b"))],
            }),
            RoleObjectEntry::Other,
        ],
        set_for_new_objects: None,
        set_for_attributes_by_default: Some(chars("False")),
        independent_rights_of_child_objects: None,
        templates: vec![(chars("Own(Field)"), chars("#If x & y"))],
    }
}

#[test]
fn compiling_a_role_writes_both_files() {
    let c = role_compile(&definition(), &chars("2.17"), &chars("1f0e0d0c-0b0a-0908-0706-050403020100")).ok().unwrap();
    assert_eq!((c.objects, c.rights, c.templates), (2, 3, 1));
    assert_eq!(text(&c.stderr), "WARNING: Object entry missing 'name' field\n");
    let rights = text(&c.rights_xml);
    let expected = [
        "<?xml version=\"1.0\" encoding=\"UTF-8\"?>",
        "<Rights xmlns=\"http://v8.1c.ru/8.2/roles\"",
        "        xmlns:xs=\"http://www.w3.org/2001/XMLSchema\"",
        "        xmlns:xsi=\"http://www.w3.org/2001/XMLSchema-instance\"",
        "        xsi:type=\"Rights\" version=\"2.17\">",
        "    <setForNewObjects>false</setForNewObjects>",
        "    <setForAttributesByDefault>false</setForAttributesByDefault>",
        "    <independentRightsOfChildObjects>false</independentRightsOfChildObjects>",
        "    <object>",
        "        <name>Catalog.Items</name>",
        "        <right>",
        "            <name>Read</name>",
        "            <value>true</value>",
        "        </right>",
        "        <right>",
        "            <name>View</name>",
        "            <value>true</value>",
        "        </right>",
        "    </object>",
        "    <object>",
        "        <name>Document.Order</name>",
        "        <right>",
        "            <name>Read</name>",
        "            <value>true</value>",
        "            <restrictionByCondition>",
        "                <condition>a &lt; b</condition>",
        "            </restrictionByCondition>",
        "        </right>",
        "    </object>",
        "    <restrictionTemplate>",
        "        <name>Own(Field)</name>",
        "        <condition>#If x &amp; y</condition>",
        "    </restrictionTemplate>",
        "</Rights>",
    ]
    .join("\n")
        + "\n";
    assert_eq!(rights, expected);
    let meta = text(&c.metadata_xml);
    assert!(meta.contains("    <Role uuid=\"1f0e0d0c-0b0a-0908-0706-050403020100\">\n"));
    assert!(meta.contains("<v8:content>Менеджер</v8:content>"));
    let err = role_compile(&RoleDefinition { name: Vec::new(), ..definition() }, &chars("2.17"), &chars("u"))
        .err()
        .unwrap();
    assert_eq!(text(&err), "JSON must have 'name' field (role programmatic name)");
}

#[test]
fn the_compile_report_names_the_files_and_the_registration() {
    let c = role_compile(&definition(), &chars("2.17"), &chars("u-1")).ok().unwrap();
    let (out, err) = role_compile_report(
        &chars("Менеджер"),
        &chars("u-1"),
        &chars("/r/Менеджер.xml"),
        &chars("/r/Менеджер/Ext/Rights.xml"),
        &c,
        &Some(RoleRegistration::Added),
        &chars("/Configuration.xml"),
    );
    assert_eq!(
        text(&out),
        "[OK] Role 'Менеджер' compiled\n     UUID: u-1\n     Metadata: /r/Менеджер.xml\n     Rights:   /r/Менеджер/Ext/Rights.xml\n     Objects: 2, Rights: 3, Templates: 1\n     Configuration.xml: <Role>Менеджер</Role> added to ChildObjects\n"
    );
    assert!(err.is_empty());
    let (_, err) = role_compile_report(&chars("R"), &chars("u"), &chars("m"), &chars("r"), &c, &None, &chars("/c.xml"));
    assert_eq!(text(&err), "WARNING: Configuration.xml not found at /c.xml -- register manually\n");
}

#[test]
fn roles_are_registered_after_the_last_role_once() {
    let config = chars("<ChildObjects>\n\t\t\t<Role>A</Role>\n\t\t\t<Catalog>X</Catalog>\n\t\t</ChildObjects>");
    let (outcome, first) = role_register(&config, &chars("B"));
    assert!(matches!(outcome, RoleRegistration::Added));
    assert_eq!(
        text(&first),
        "<ChildObjects>\n\t\t\t<Role>A</Role>\n\t\t\t<Role>B</Role>\n\t\t\t<Catalog>X</Catalog>\n\t\t</ChildObjects>"
    );
    let (outcome, second) = role_register(&first, &chars("B"));
    assert!(matches!(outcome, RoleRegistration::Already));
    assert_eq!(second, first);
    let (_, third) = role_register(&chars("<ChildObjects>\n\t\t</ChildObjects>"), &chars("C"));
    assert_eq!(text(&third), "<ChildObjects>\n\t\t\t\t\t<Role>C</Role>\n\t\t</ChildObjects>");
}

#[test]
fn existing_role_uuids_are_reused_unless_placeholders() {
    let meta = "<MetaDataObject><Role uuid=\"1f0e0d0c-0b0a-0908-0706-050403020100\"/></MetaDataObject>";
    assert_eq!(text(&reusable_existing_role_uuid(&chars(meta)).unwrap()), "1f0e0d0c-0b0a-0908-0706-050403020100");
    let placeholder = "<Role uuid=\"00000000-0000-0000-0000-000000000001\"/>";
    assert!(reusable_existing_role_uuid(&chars(placeholder)).is_none());
    assert!(reusable_existing_role_uuid(&chars("<Role uuid=\"bad\"/>")).is_none());
    assert!(reusable_existing_role_uuid(&chars("not xml")).is_none());
}

#[test]
fn a_compiled_role_passes_its_check() {
    let c = role_compile(&definition(), &chars("2.17"), &chars("1f0e0d0c-0b0a-0908-0706-050403020100")).ok().unwrap();
    let config = chars(
        "<MetaDataObject xmlns=\"http://v8.1c.ru/8.3/MDClasses\"><Configuration><ChildObjects><Role>Менеджер</Role></ChildObjects></Configuration></MetaDataObject>",
    );
    let (ok, report) = role_validate(
        &Some(c.rights_xml.clone()),
        &chars("Rights.xml"),
        &Some(Ok(c.metadata_xml.clone())),
        &Some(Ok(config)),
        &chars("Менеджер"),
        false,
    );
    assert!(ok);
    assert_eq!(text(&report), "=== Validation OK: Role.Менеджер (10 checks) ===");
}

#[test]
fn role_problems_are_reported() {
    let rights = "<Rights xmlns=\"http://v8.1c.ru/8.2/roles\">
<setForNewObjects>maybe</setForNewObjects>
<setForAttributesByDefault>true</setForAttributesByDefault>
<object><name>Catalog.Items</name>
  <right><name>Rea</name><value>true</value></right>
  <right><value>true</value></right>
  <right><name>Read</name><value>yes</value></right>
  <right><restrictionByCondition><condition/></restrictionByCondition><name>Read</name><value>true</value></right>
</object>
<object><name>Catalog.Items.Command.Open</name><right><name>Edit</name><value>true</value></right></object>
<object><name>Gadget.X</name><right><name>Read</name><value>false</value></right></object>
<object><right><name>Read</name><value>true</value></right></object>
<restrictionTemplate><name>T(P)</name></restrictionTemplate>
</Rights>";
    let (ok, report) = role_validate(&Some(chars(rights)), &chars("x"), &None, &None, &chars("Продавец"), true);
    assert!(!ok);
    let expected = [
        "=== Validation: Role.Продавец ===",
        "[OK]    XML well-formed",
        "[OK]    Root element: <Rights> with correct namespace",
        "[WARN]  setForNewObjects = 'maybe' (expected 'true' or 'false')",
        "[WARN]  Missing global flag: independentRightsOfChildObjects",
        "[WARN]  Catalog.Items: unknown right 'Rea'. Did you mean: Read, ReadDataHistory, ReadDataHistoryOfMissingData?",
        "[ERROR] Catalog.Items: <right> without <name>",
        "[ERROR] Catalog.Items: right 'Read' has invalid value 'yes'",
        "[WARN]  Catalog.Items: RLS condition for '' is empty",
        "[WARN]  Catalog.Items.Command.Open: 'Edit' not valid for commands (only: View)",
        "[WARN]  Gadget.X: unknown object type 'Gadget'",
        "[ERROR] Object without <name>",
        "[OK]    4 objects, 4 rights",
        "[OK]    1 RLS restrictions",
        "[WARN]  Template 'T(P)': empty <condition>",
        "[OK]    1 templates: T",
        "",
        "=== Result: 3 errors, 7 warnings (15 checks) ===",
    ]
    .join("\n");
    assert_eq!(text(&report), expected);
}

#[test]
fn missing_or_broken_rights_files_stop_the_check() {
    let (ok, report) = role_validate(&None, &chars("/a/Rights.xml"), &None, &None, &chars("R"), false);
    assert!(!ok);
    assert_eq!(text(&report), "[ERROR] File not found: /a/Rights.xml");
    let (ok, report) = role_validate(&Some(chars("<Rights>")), &chars("x"), &None, &None, &chars("R"), false);
    assert!(!ok);
    assert!(text(&report).starts_with("[ERROR] XML parse error: "));
}
