use unica_coder::role_info::{role_info, role_info_names};

fn chars(s: &str) -> Vec<char> {
    s.chars().collect()
}

fn texts(v: &[Vec<char>]) -> Vec<String> {
    v.iter().map(|l| l.iter().collect()).collect()
}

const RIGHTS: &str = "\u{feff}<Rights xmlns=\"http://v8.1c.ru/8.2/roles\" setForNewObjects=\"false\" \
setForAttributesByDefault=\"true\" independentRightsOfChildObjects=\"false\">\
<object><name>Catalog.Товары</name>\
<right><name>Read</name><value>true</value></right>\
<right><name>Update</name><value>true</value><restrictionByCondition><condition>x</condition></restrictionByCondition></right>\
<right><name>Delete</name><value>false</value></right></object>\
<object><name>Document.Заказ</name><right><name>Read</name><value>true</value></right></object>\
<object><name>Catalog.Склады</name><right><name>Read</name><value>true</value></right></object>\
<object><name>Broken</name><right><name>Read</name><value>true</value></right></object>\
<restrictionTemplate><name>ДляОбъекта(Поле)</name><condition>c</condition></restrictionTemplate>\
</Rights>";

fn full() -> Vec<&'static str> {
    vec![
        "=== Role: Менеджер --- \"Менеджер продаж\" ===",
        "Поддержка: x",
        "",
        "Properties: setForNewObjects=false, setForAttributesByDefault=true, independentRightsOfChildObjects=false",
        "",
        "Allowed rights:",
        "",
        "  Catalog (2):",
        "    Товары: Read, Update [RLS]",
        "    Склады: Read",
        "",
        "  Document (1):",
        "    Заказ: Read",
        "",
        "Denied: 1 rights (use -ShowDenied to list)",
        "",
        "RLS: 1 restrictions",
        "Templates: ДляОбъекта",
        "",
        "---",
        "Total: 4 allowed, 1 denied",
    ]
}

#[test]
fn role_info_groups_rights_by_kind() {
    let lines = role_info(&chars(RIGHTS), &chars("Менеджер"), &chars("Менеджер продаж"), &chars("x"), false, 0, 150).unwrap();
    assert_eq!(texts(&lines), full());
}

#[test]
fn role_info_lists_denied_rights_on_request() {
    let lines = role_info(&chars(RIGHTS), &chars("R"), &[], &chars("x"), true, 0, 0).unwrap();
    let t = texts(&lines);
    assert_eq!(t[0], "=== Role: R ===");
    let at = t.iter().position(|l| l == "Denied rights:").unwrap();
    assert_eq!(t[at + 2], "  Catalog (1):");
    assert_eq!(t[at + 3], "    Товары: Delete");
}

#[test]
fn role_info_pages_its_lines() {
    let lines = role_info(&chars(RIGHTS), &chars("Менеджер"), &chars("Менеджер продаж"), &chars("x"), false, 0, 5).unwrap();
    let mut expected: Vec<String> = full()[..5].iter().map(|s| s.to_string()).collect();
    expected.push(String::new());
    expected.push("[TRUNCATED] Shown 5 of 21 lines. Use -Offset 5 to continue.".to_string());
    assert_eq!(texts(&lines), expected);
    let lines = role_info(&chars(RIGHTS), &chars("Менеджер"), &chars("Менеджер продаж"), &chars("x"), false, 19, 150).unwrap();
    assert_eq!(texts(&lines), vec!["---", "Total: 4 allowed, 1 denied"]);
    let lines = role_info(&chars(RIGHTS), &chars("Менеджер"), &chars("Менеджер продаж"), &chars("x"), false, 100, 150).unwrap();
    assert_eq!(texts(&lines), vec!["[INFO] Offset 100 exceeds total lines (21). Nothing to show."]);
}

#[test]
fn role_info_refuses_text_that_is_not_xml() {
    assert!(role_info(&chars("<Rights>"), &[], &[], &[], false, 0, 150).is_err());
}

#[test]
fn role_info_names_come_from_the_metadata_file() {
    let meta = "<MetaDataObject xmlns=\"http://v8.1c.ru/8.3/MDClasses\" xmlns:v8=\"http://v8.1c.ru/8.1/data/core\">\
<Role uuid=\"0f3b1c2d-1234-4abc-8def-0123456789ab\"><Properties><Name>Менеджер</Name>\
<Synonym><v8:item><v8:lang>en</v8:lang><v8:content>Manager</v8:content></v8:item>\
<v8:item><v8:lang>ru</v8:lang><v8:content>Менеджер продаж</v8:content></v8:item></Synonym>\
</Properties></Role></MetaDataObject>";
    let (n, s) = role_info_names(&Some(chars(meta)), &chars("Folder"));
    assert_eq!(n.iter().collect::<String>(), "Менеджер");
    assert_eq!(s.iter().collect::<String>(), "Менеджер продаж");
    let (n, s) = role_info_names(&None, &chars("Folder"));
    assert_eq!(n.iter().collect::<String>(), "Folder");
    assert!(s.is_empty());
}
