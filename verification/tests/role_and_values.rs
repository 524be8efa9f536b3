use unica_coder::role::{
    is_placeholder_uuid, role_object_type, role_preset_rights, role_validate_find_similar, role_validate_object_type,
    translate_role_object_name,
};
use unica_coder::skd_values::{
    date_time_literal, sanitize_xml_identifier, skd_compile_resolve_type, skd_compile_type_synonym,
    skd_edit_split_values, skd_edit_total_expression,
};

fn chars(s: &str) -> Vec<char> {
    s.chars().collect()
}

fn text(v: &[char]) -> String {
    v.iter().collect()
}

fn texts(v: &[Vec<char>]) -> Vec<String> {
    v.iter().map(|x| text(x)).collect()
}

#[test]
fn object_type_is_the_part_before_the_dot() {
    assert_eq!(text(&role_object_type(&chars("Catalog.Items"))), "Catalog");
    assert_eq!(text(&role_object_type(&chars("Configuration"))), "Configuration");
    assert_eq!(text(&role_validate_object_type(&chars("Document.A.B"))), "Document");
}

#[test]
fn placeholder_uuids_start_with_zero_groups() {
    assert!(is_placeholder_uuid(&chars("00000000-0000-0000-0000-000000000001")));
    assert!(!is_placeholder_uuid(&chars("10000000-0000-0000-0000-000000000001")));
}

#[test]
fn similar_names_compare_in_lower_case_and_stop_at_three() {
    let found = role_validate_find_similar(&chars("READ"), &["Read", "ReadOnly", "View", "InteractiveRead", "Reader"]);
    assert_eq!(texts(&found), vec!["Read", "ReadOnly", "InteractiveRead"]);
    let found = role_validate_find_similar(&chars("ПРОСМОТР"), &["Просмотр", "Изменение"]);
    assert_eq!(texts(&found), vec!["Просмотр"]);
}

#[test]
fn russian_object_names_are_translated_part_by_part() {
    assert_eq!(text(&translate_role_object_name(&chars("Справочник.Номенклатура"))), "Catalog.Номенклатура");
    assert_eq!(text(&translate_role_object_name(&chars("Catalog.Items"))), "Catalog.Items");
}

#[test]
fn presets_give_rights_or_a_warning() {
    let mut stderr = Vec::new();
    let rights = role_preset_rights(&chars("Catalog"), &chars("@view"), &mut stderr);
    assert_eq!(texts(&rights), vec!["Read", "View", "InputByString"]);
    assert!(stderr.is_empty());
    let rights = role_preset_rights(&chars("Catalog"), &chars("@delete"), &mut stderr);
    assert!(rights.is_empty());
    assert_eq!(text(&stderr), "WARNING: Unknown preset '@delete'. Known: @view, @edit\n");
}

#[test]
fn type_synonyms_ignore_case() {
    assert_eq!(skd_compile_type_synonym(&chars("ЧИСЛО")), Some("decimal"));
    assert_eq!(skd_compile_type_synonym(&chars("Bool")), Some("boolean"));
    assert_eq!(skd_compile_type_synonym(&chars("decimal")), None);
    assert_eq!(text(&skd_compile_resolve_type(&chars("Число(10,2)"))), "decimal(10,2)");
    assert_eq!(text(&skd_compile_resolve_type(&chars("СправочникСсылка.Товары"))), "CatalogRef.Товары");
    assert_eq!(text(&skd_compile_resolve_type(&chars("string"))), "string");
}

#[test]
fn identifiers_keep_letters_digits_and_underscores() {
    assert_eq!(text(&sanitize_xml_identifier(&chars("Сумма Итого_1-x"))), "СуммаИтого_1x");
}

#[test]
fn date_time_literals_are_recognised_by_shape() {
    assert!(date_time_literal(&chars("2024-01-01T00:00:00")));
    assert!(!date_time_literal(&chars("2024-01-01")));
    assert!(!date_time_literal(&chars("2024/01/01T00")));
}

#[test]
fn total_expression_completes_aggregate_names() {
    assert_eq!(text(&skd_edit_total_expression(&chars("Amount"), &chars(""))), "Сумма(Amount)");
    assert_eq!(text(&skd_edit_total_expression(&chars("Amount"), &chars(" Max "))), "Max(Amount)");
    assert_eq!(text(&skd_edit_total_expression(&chars("Amount"), &chars("Сумма(X)"))), "Сумма(X)");
}

#[test]
fn edit_values_split_on_double_semicolons() {
    let v = skd_edit_split_values(&chars("add-field"), &chars("A ;; B;;  ;; C"));
    assert_eq!(texts(&v), vec!["A", "B", "C"]);
    let v = skd_edit_split_values(&chars("add-drilldown"), &chars("A, B"));
    assert_eq!(texts(&v), vec!["A", "B"]);
}

#[test]
fn lowered_type_synonyms_name_their_types() {
    assert_eq!(unica_coder::skd_values::skd_lowered_type_synonym(&"датавремя".chars().collect::<Vec<_>>()), Some("dateTime"));
    assert_eq!(unica_coder::skd_values::skd_lowered_type_synonym(&"ДатаВремя".chars().collect::<Vec<_>>()), None);
    assert_eq!(unica_coder::skd_values::skd_compile_type_synonym(&"ДатаВремя".chars().collect::<Vec<_>>()), Some("dateTime"));
}
