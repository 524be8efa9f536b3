//! Role rights: the rights each metadata object kind admits, presets, the
//! Russian-to-English name tables, and the role description file.
use vstd::prelude::*;
use crate::external::{lowercase_of, to_lowercase};
use crate::skd_fragments::{push_line, push_lines, wrap, wrap_escaped};
use crate::numbers::{nat_text, usize_text};
use crate::text::{
    chars_of, contains, contains_chars, first_match, lemma_first_match_bounds, lit_views,
    split_once, split_once_str, starts_with, starts_with_str, to_vec, views, lemma_views_push, eq_str, join, join_str, split, split_str, is_one_of, is_one_of_exec, push_chars, push_str, find_in, opt_int, escape_xml,
};

verus! {

/// The part of an object name before its first `.`, or the whole name.
pub open spec fn object_type_of(name: Seq<char>) -> Seq<char> {
    match split_once(name, "."@) {
        Some((head, _)) => head,
        None => name,
    }
}

/// The object kind of a rights entry name (`Catalog.Items` gives `Catalog`).
pub fn role_validate_object_type(name: &[char]) -> (r: Vec<char>)
    ensures
        r@ == object_type_of(name@),
{
    match split_once_str(name, ".") {
        Some((head, _)) => head,
        None => to_vec(name),
    }
}

/// The object kind of an object name (`Catalog.Items` gives `Catalog`).
pub fn role_object_type(object_name: &[char]) -> (r: Vec<char>)
    ensures
        r@ == object_type_of(object_name@),
{
    role_validate_object_type(object_name)
}

/// Whether a uuid is one of the all-zero placeholders.
pub fn is_placeholder_uuid(value: &[char]) -> (b: bool)
    ensures
        b == starts_with(value@, "00000000-0000-0000-"@),
{
    starts_with_str(value, "00000000-0000-0000-")
}

/// Whether `item` is like the (lower-cased) needle: one of the two lower-cased
/// texts contains the other.
pub open spec fn is_similar(needle_lower: Seq<char>, item: Seq<char>) -> bool {
    contains(needle_lower, lowercase_of(item)) || contains(lowercase_of(item), needle_lower)
}

/// The items like the needle, in their order.
pub open spec fn similar_items(needle: Seq<char>, items: Seq<Seq<char>>) -> Seq<Seq<char>> {
    items.filter(|x: Seq<char>| is_similar(lowercase_of(needle), x))
}

/// At most the first three of the similar items.
pub open spec fn first_similar(needle: Seq<char>, items: Seq<Seq<char>>) -> Seq<Seq<char>> {
    let all = similar_items(needle, items);
    if all.len() > 3 {
        all.take(3)
    } else {
        all
    }
}

/// Suggestions for an unknown right: the first three known rights whose lower
/// case contains, or is contained in, the lower case of `needle`.
pub fn role_validate_find_similar(needle: &[char], haystack: &[&'static str]) -> (r: Vec<Vec<char>>)
    ensures
        views(r@) == first_similar(needle@, lit_views(haystack@)),
{
    let needle_lower = to_lowercase(needle);
    let ghost items = lit_views(haystack@);
    let ghost pred = |x: Seq<char>| is_similar(lowercase_of(needle@), x);
    let mut result: Vec<Vec<char>> = Vec::new();
    let mut i: usize = 0;
    while i < haystack.len()
        invariant
            i <= haystack.len(),
            items == lit_views(haystack@),
            items.len() == haystack@.len(),
            needle_lower@ == lowercase_of(needle@),
            pred == (|x: Seq<char>| is_similar(lowercase_of(needle@), x)),
            views(result@) == items.take(i as int).filter(pred),
            result@.len() < 3,
        decreases haystack.len() - i,
    {
        let item = chars_of(haystack[i]);
        let item_lower = to_lowercase(&item);
        let hit = contains_chars(&needle_lower, &item_lower) || contains_chars(&item_lower, &needle_lower);
        proof {
            reveal(Seq::filter);
            assert(items.take(i + 1).drop_last() =~= items.take(i as int));
            assert(items.take(i + 1).last() == item@);
            assert(hit == pred(item@));
        }
        if hit {
            proof {
                lemma_views_push(result@, item);
            }
            result.push(item);
        }
        assert(views(result@) == items.take(i + 1).filter(pred));
        if result.len() >= 3 {
            proof {
                assert(items =~= items.take(i + 1) + items.skip(i + 1));
                Seq::filter_distributes_over_add(items.take(i + 1), items.skip(i + 1), pred);
                let all = items.filter(pred);
                assert(all.take(3) =~= views(result@));
                if all.len() <= 3 {
                    assert(all =~= views(result@));
                }
            }
            return result;
        }
        i = i + 1;
    }
    assert(items.take(i as int) =~= items);
    result
}

/// The entry of `vals` paired with the first key from index `i` on that equals
/// `name`, or `name` itself when no key does.
pub open spec fn lookup_from(name: Seq<char>, keys: Seq<Seq<char>>, vals: Seq<Seq<char>>, i: int) -> Seq<char>
    decreases keys.len() - i,
{
    if i < 0 || i >= keys.len() {
        name
    } else if keys[i] == name {
        vals[i]
    } else {
        lookup_from(name, keys, vals, i + 1)
    }
}

/// Looks `name` up in a two-column literal table; names not in it stay as they are.
pub fn lookup_exec(name: &[char], keys: &[&'static str], vals: &[&'static str]) -> (r: Vec<char>)
    requires
        keys@.len() == vals@.len(),
    ensures
        r@ == lookup_from(name@, lit_views(keys@), lit_views(vals@), 0),
{
    let ghost ks = lit_views(keys@);
    let ghost vs = lit_views(vals@);
    let mut i: usize = 0;
    while i < keys.len()
        invariant
            i <= keys.len(),
            keys@.len() == vals@.len(),
            ks == lit_views(keys@),
            vs == lit_views(vals@),
            lookup_from(name@, ks, vs, 0) == lookup_from(name@, ks, vs, i as int),
        decreases keys.len() - i,
    {
        if eq_str(name, keys[i]) {
            return chars_of(vals[i]);
        }
        i = i + 1;
    }
    to_vec(name)
}

/// Russian names of object kinds and their parts.
pub open spec fn object_names_ru() -> Seq<Seq<char>> {
    seq![
        "Справочник"@, "Документ"@, "РегистрСведений"@, "РегистрНакопления"@,
        "РегистрБухгалтерии"@, "РегистрРасчета"@, "Константа"@, "ПланСчетов"@,
        "ПланВидовХарактеристик"@, "ПланВидовРасчета"@, "ПланОбмена"@, "БизнесПроцесс"@,
        "Задача"@, "Обработка"@, "Отчет"@, "ОбщаяФорма"@, "ОбщаяКоманда"@, "Подсистема"@,
        "КритерийОтбора"@, "ЖурналДокументов"@, "Последовательность"@, "ВебСервис"@,
        "HTTPСервис"@, "СервисИнтеграции"@, "ПараметрСеанса"@, "ОбщийРеквизит"@,
        "Конфигурация"@, "Перечисление"@, "Реквизит"@, "СтандартныйРеквизит"@,
        "ТабличнаяЧасть"@, "Измерение"@, "Ресурс"@, "Команда"@, "РеквизитАдресации"@,
    ]
}

/// The English names paired with `object_names_ru`.
pub open spec fn object_names_en() -> Seq<Seq<char>> {
    seq![
        "Catalog"@, "Document"@, "InformationRegister"@, "AccumulationRegister"@,
        "AccountingRegister"@, "CalculationRegister"@, "Constant"@, "ChartOfAccounts"@,
        "ChartOfCharacteristicTypes"@, "ChartOfCalculationTypes"@, "ExchangePlan"@,
        "BusinessProcess"@, "Task"@, "DataProcessor"@, "Report"@, "CommonForm"@,
        "CommonCommand"@, "Subsystem"@, "FilterCriterion"@, "DocumentJournal"@, "Sequence"@,
        "WebService"@, "HTTPService"@, "IntegrationService"@, "SessionParameter"@,
        "CommonAttribute"@, "Configuration"@, "Enum"@, "Attribute"@, "StandardAttribute"@,
        "TabularSection"@, "Dimension"@, "Resource"@, "Command"@, "AddressingAttribute"@,
    ]
}

/// One segment of an object name in English.
pub open spec fn translate_segment(part: Seq<char>) -> Seq<char> {
    lookup_from(part, object_names_ru(), object_names_en(), 0)
}

/// An object name with each `.`-separated segment translated to English.
pub open spec fn translated_object_name(name: Seq<char>) -> Seq<char> {
    join(split(name, "."@).map_values(|p: Seq<char>| translate_segment(p)), "."@)
}

/// Translates the Russian segments of a dotted object name (`Справочник.Товары`
/// gives `Catalog.Товары`); other segments are kept.
pub fn translate_role_object_name(name: &[char]) -> (r: Vec<char>)
    ensures
        r@ == translated_object_name(name@),
{
    let keys: &'static [&'static str] = &[
        "Справочник", "Документ", "РегистрСведений", "РегистрНакопления",
        "РегистрБухгалтерии", "РегистрРасчета", "Константа", "ПланСчетов",
        "ПланВидовХарактеристик", "ПланВидовРасчета", "ПланОбмена", "БизнесПроцесс",
        "Задача", "Обработка", "Отчет", "ОбщаяФорма", "ОбщаяКоманда", "Подсистема",
        "КритерийОтбора", "ЖурналДокументов", "Последовательность", "ВебСервис",
        "HTTPСервис", "СервисИнтеграции", "ПараметрСеанса", "ОбщийРеквизит",
        "Конфигурация", "Перечисление", "Реквизит", "СтандартныйРеквизит",
        "ТабличнаяЧасть", "Измерение", "Ресурс", "Команда", "РеквизитАдресации",
    ];
    let vals: &'static [&'static str] = &[
        "Catalog", "Document", "InformationRegister", "AccumulationRegister",
        "AccountingRegister", "CalculationRegister", "Constant", "ChartOfAccounts",
        "ChartOfCharacteristicTypes", "ChartOfCalculationTypes", "ExchangePlan",
        "BusinessProcess", "Task", "DataProcessor", "Report", "CommonForm",
        "CommonCommand", "Subsystem", "FilterCriterion", "DocumentJournal", "Sequence",
        "WebService", "HTTPService", "IntegrationService", "SessionParameter",
        "CommonAttribute", "Configuration", "Enum", "Attribute", "StandardAttribute",
        "TabularSection", "Dimension", "Resource", "Command", "AddressingAttribute",
    ];
    assert(lit_views(keys@) =~= object_names_ru());
    assert(lit_views(vals@) =~= object_names_en());
    proof {
        reveal_strlit(".");
    }
    let parts = split_str(name, ".");
    let ghost ps = views(parts@);
    let mut out: Vec<Vec<char>> = Vec::new();
    let mut i: usize = 0;
    while i < parts.len()
        invariant
            i <= parts.len(),
            ps == views(parts@),
            ps == split(name@, "."@),
            lit_views(keys@) == object_names_ru(),
            lit_views(vals@) == object_names_en(),
            keys@.len() == vals@.len(),
            views(out@) == ps.take(i as int).map_values(|p: Seq<char>| translate_segment(p)),
        decreases parts.len() - i,
    {
        let t = lookup_exec(&parts[i], keys, vals);
        proof {
            lemma_views_push(out@, t);
            assert(ps.take(i + 1).map_values(|p: Seq<char>| translate_segment(p)) =~= ps.take(
                i as int,
            ).map_values(|p: Seq<char>| translate_segment(p)).push(t@));
        }
        out.push(t);
        i = i + 1;
    }
    assert(ps.take(i as int) =~= ps);
    join_str(&out, ".")
}

/// Russian right names.
pub open spec fn right_names_ru() -> Seq<Seq<char>> {
    seq![
        "Чтение"@, "Добавление"@, "Изменение"@, "Удаление"@, "Просмотр"@,
        "Редактирование"@, "ВводПоСтроке"@, "Проведение"@, "ОтменаПроведения"@,
        "Использование"@,
    ]
}

/// The English names paired with `right_names_ru`.
pub open spec fn right_names_en() -> Seq<Seq<char>> {
    seq![
        "Read"@, "Insert"@, "Update"@, "Delete"@, "View"@, "Edit"@, "InputByString"@,
        "Posting"@, "UndoPosting"@, "Use"@,
    ]
}

/// A right name in English: the Russian names of the table are translated,
/// others are kept.
pub fn translate_role_right_name(name: &[char]) -> (r: Vec<char>)
    ensures
        r@ == lookup_from(name@, right_names_ru(), right_names_en(), 0),
{
    let keys: &'static [&'static str] = &[
        "Чтение", "Добавление", "Изменение", "Удаление", "Просмотр",
        "Редактирование", "ВводПоСтроке", "Проведение", "ОтменаПроведения",
        "Использование",
    ];
    let vals: &'static [&'static str] = &[
        "Read", "Insert", "Update", "Delete", "View", "Edit", "InputByString",
        "Posting", "UndoPosting", "Use",
    ];
    assert(lit_views(keys@) =~= right_names_ru());
    assert(lit_views(vals@) =~= right_names_en());
    lookup_exec(name, keys, vals)
}

/// The rights of Configuration objects.
pub open spec fn configuration_rights() -> Seq<Seq<char>> {
    seq![
        "Administration"@,
        "DataAdministration"@,
        "UpdateDataBaseConfiguration"@,
        "ConfigurationExtensionsAdministration"@,
        "ActiveUsers"@,
        "EventLog"@,
        "ExclusiveMode"@,
        "ThinClient"@,
        "ThickClient"@,
        "WebClient"@,
        "MobileClient"@,
        "ExternalConnection"@,
        "Automation"@,
        "Output"@,
        "SaveUserData"@,
        "TechnicalSpecialistMode"@,
        "InteractiveOpenExtDataProcessors"@,
        "InteractiveOpenExtReports"@,
        "AnalyticsSystemClient"@,
        "CollaborationSystemInfoBaseRegistration"@,
        "MainWindowModeNormal"@,
        "MainWindowModeWorkplace"@,
        "MainWindowModeEmbeddedWorkplace"@,
        "MainWindowModeFullscreenWorkplace"@,
        "MainWindowModeKiosk"@,
    ]
}

/// The rights of Catalog objects.
pub open spec fn catalog_rights() -> Seq<Seq<char>> {
    seq![
        "Read"@,
        "Insert"@,
        "Update"@,
        "Delete"@,
        "View"@,
        "Edit"@,
        "InputByString"@,
        "InteractiveInsert"@,
        "InteractiveSetDeletionMark"@,
        "InteractiveClearDeletionMark"@,
        "InteractiveDelete"@,
        "InteractiveDeleteMarked"@,
        "InteractiveDeletePredefinedData"@,
        "InteractiveSetDeletionMarkPredefinedData"@,
        "InteractiveClearDeletionMarkPredefinedData"@,
        "InteractiveDeleteMarkedPredefinedData"@,
        "ReadDataHistory"@,
        "ViewDataHistory"@,
        "UpdateDataHistory"@,
        "UpdateDataHistoryOfMissingData"@,
        "ReadDataHistoryOfMissingData"@,
        "UpdateDataHistorySettings"@,
        "UpdateDataHistoryVersionComment"@,
        "EditDataHistoryVersionComment"@,
        "SwitchToDataHistoryVersion"@,
    ]
}

/// The rights of Document objects.
pub open spec fn document_rights() -> Seq<Seq<char>> {
    seq![
        "Read"@,
        "Insert"@,
        "Update"@,
        "Delete"@,
        "View"@,
        "Edit"@,
        "InputByString"@,
        "Posting"@,
        "UndoPosting"@,
        "InteractiveInsert"@,
        "InteractiveSetDeletionMark"@,
        "InteractiveClearDeletionMark"@,
        "InteractiveDelete"@,
        "InteractiveDeleteMarked"@,
        "InteractivePosting"@,
        "InteractivePostingRegular"@,
        "InteractiveUndoPosting"@,
        "InteractiveChangeOfPosted"@,
        "ReadDataHistory"@,
        "ViewDataHistory"@,
        "UpdateDataHistory"@,
        "UpdateDataHistoryOfMissingData"@,
        "ReadDataHistoryOfMissingData"@,
        "UpdateDataHistorySettings"@,
        "UpdateDataHistoryVersionComment"@,
        "EditDataHistoryVersionComment"@,
        "SwitchToDataHistoryVersion"@,
    ]
}

/// The rights of InformationRegister objects.
pub open spec fn information_register_rights() -> Seq<Seq<char>> {
    seq![
        "Read"@,
        "Update"@,
        "View"@,
        "Edit"@,
        "TotalsControl"@,
        "ReadDataHistory"@,
        "ViewDataHistory"@,
        "UpdateDataHistory"@,
        "UpdateDataHistoryOfMissingData"@,
        "ReadDataHistoryOfMissingData"@,
        "UpdateDataHistorySettings"@,
        "UpdateDataHistoryVersionComment"@,
        "EditDataHistoryVersionComment"@,
        "SwitchToDataHistoryVersion"@,
    ]
}

/// The rights of AccumulationRegister and AccountingRegister objects.
pub open spec fn accumulation_register_rights() -> Seq<Seq<char>> {
    seq![
        "Read"@,
        "Update"@,
        "View"@,
        "Edit"@,
        "TotalsControl"@,
    ]
}

/// The rights of CalculationRegister objects.
pub open spec fn calculation_register_rights() -> Seq<Seq<char>> {
    seq![
        "Read"@,
        "View"@,
    ]
}

/// The rights of Constant objects.
pub open spec fn constant_rights() -> Seq<Seq<char>> {
    seq![
        "Read"@,
        "Update"@,
        "View"@,
        "Edit"@,
        "ReadDataHistory"@,
        "ViewDataHistory"@,
        "UpdateDataHistory"@,
        "UpdateDataHistorySettings"@,
        "UpdateDataHistoryVersionComment"@,
        "EditDataHistoryVersionComment"@,
        "SwitchToDataHistoryVersion"@,
    ]
}

/// The rights of ChartOfAccounts objects.
pub open spec fn chart_of_accounts_rights() -> Seq<Seq<char>> {
    seq![
        "Read"@,
        "Insert"@,
        "Update"@,
        "Delete"@,
        "View"@,
        "Edit"@,
        "InputByString"@,
        "InteractiveInsert"@,
        "InteractiveSetDeletionMark"@,
        "InteractiveClearDeletionMark"@,
        "InteractiveDelete"@,
        "InteractiveDeletePredefinedData"@,
        "InteractiveSetDeletionMarkPredefinedData"@,
        "InteractiveClearDeletionMarkPredefinedData"@,
        "InteractiveDeleteMarkedPredefinedData"@,
        "ReadDataHistory"@,
        "ReadDataHistoryOfMissingData"@,
        "UpdateDataHistory"@,
        "UpdateDataHistoryOfMissingData"@,
        "UpdateDataHistorySettings"@,
        "UpdateDataHistoryVersionComment"@,
    ]
}

/// The rights of ChartOfCharacteristicTypes objects.
pub open spec fn chart_of_characteristic_types_rights() -> Seq<Seq<char>> {
    seq![
        "Read"@,
        "Insert"@,
        "Update"@,
        "Delete"@,
        "View"@,
        "Edit"@,
        "InputByString"@,
        "InteractiveInsert"@,
        "InteractiveSetDeletionMark"@,
        "InteractiveClearDeletionMark"@,
        "InteractiveDelete"@,
        "InteractiveDeleteMarked"@,
        "InteractiveDeletePredefinedData"@,
        "InteractiveSetDeletionMarkPredefinedData"@,
        "InteractiveClearDeletionMarkPredefinedData"@,
        "InteractiveDeleteMarkedPredefinedData"@,
        "ReadDataHistory"@,
        "ViewDataHistory"@,
        "UpdateDataHistory"@,
        "ReadDataHistoryOfMissingData"@,
        "UpdateDataHistoryOfMissingData"@,
        "UpdateDataHistorySettings"@,
        "UpdateDataHistoryVersionComment"@,
        "EditDataHistoryVersionComment"@,
        "SwitchToDataHistoryVersion"@,
    ]
}

/// The rights of ChartOfCalculationTypes objects.
pub open spec fn chart_of_calculation_types_rights() -> Seq<Seq<char>> {
    seq![
        "Read"@,
        "Insert"@,
        "Update"@,
        "Delete"@,
        "View"@,
        "Edit"@,
        "InputByString"@,
        "InteractiveInsert"@,
        "InteractiveSetDeletionMark"@,
        "InteractiveClearDeletionMark"@,
        "InteractiveDelete"@,
        "InteractiveDeletePredefinedData"@,
        "InteractiveSetDeletionMarkPredefinedData"@,
        "InteractiveClearDeletionMarkPredefinedData"@,
        "InteractiveDeleteMarkedPredefinedData"@,
    ]
}

/// The rights of ExchangePlan objects.
pub open spec fn exchange_plan_rights() -> Seq<Seq<char>> {
    seq![
        "Read"@,
        "Insert"@,
        "Update"@,
        "Delete"@,
        "View"@,
        "Edit"@,
        "InputByString"@,
        "InteractiveInsert"@,
        "InteractiveSetDeletionMark"@,
        "InteractiveClearDeletionMark"@,
        "InteractiveDelete"@,
        "InteractiveDeleteMarked"@,
        "ReadDataHistory"@,
        "ViewDataHistory"@,
        "UpdateDataHistory"@,
        "ReadDataHistoryOfMissingData"@,
        "UpdateDataHistoryOfMissingData"@,
        "UpdateDataHistorySettings"@,
        "UpdateDataHistoryVersionComment"@,
        "EditDataHistoryVersionComment"@,
        "SwitchToDataHistoryVersion"@,
    ]
}

/// The rights of BusinessProcess objects.
pub open spec fn business_process_rights() -> Seq<Seq<char>> {
    seq![
        "Read"@,
        "Insert"@,
        "Update"@,
        "Delete"@,
        "View"@,
        "Edit"@,
        "InputByString"@,
        "Start"@,
        "InteractiveInsert"@,
        "InteractiveSetDeletionMark"@,
        "InteractiveClearDeletionMark"@,
        "InteractiveDelete"@,
        "InteractiveActivate"@,
        "InteractiveStart"@,
    ]
}

/// The rights of Task objects.
pub open spec fn task_rights() -> Seq<Seq<char>> {
    seq![
        "Read"@,
        "Insert"@,
        "Update"@,
        "Delete"@,
        "View"@,
        "Edit"@,
        "InputByString"@,
        "Execute"@,
        "InteractiveInsert"@,
        "InteractiveSetDeletionMark"@,
        "InteractiveClearDeletionMark"@,
        "InteractiveDelete"@,
        "InteractiveActivate"@,
        "InteractiveExecute"@,
    ]
}

/// The rights of DataProcessor and Report objects.
pub open spec fn data_processor_rights() -> Seq<Seq<char>> {
    seq![
        "Use"@,
        "View"@,
    ]
}

/// The rights of CommonForm and CommonCommand and Subsystem and FilterCriterion objects.
pub open spec fn common_form_rights() -> Seq<Seq<char>> {
    seq![
        "View"@,
    ]
}

/// The rights of DocumentJournal objects.
pub open spec fn document_journal_rights() -> Seq<Seq<char>> {
    seq![
        "Read"@,
        "View"@,
    ]
}

/// The rights of Sequence objects.
pub open spec fn sequence_rights() -> Seq<Seq<char>> {
    seq![
        "Read"@,
        "Update"@,
    ]
}

/// The rights of WebService and HTTPService and IntegrationService objects.
pub open spec fn web_service_rights() -> Seq<Seq<char>> {
    seq![
        "Use"@,
    ]
}

/// The rights of SessionParameter objects.
pub open spec fn session_parameter_rights() -> Seq<Seq<char>> {
    seq![
        "Get"@,
        "Set"@,
    ]
}

/// The rights of CommonAttribute objects.
pub open spec fn common_attribute_rights() -> Seq<Seq<char>> {
    seq![
        "View"@,
        "Edit"@,
    ]
}

/// The rights an object kind admits; empty for kinds not listed.
pub open spec fn known_rights(object_type: Seq<char>) -> Seq<Seq<char>> {
    if object_type == "Configuration"@ {
        configuration_rights()
    } else if object_type == "Catalog"@ {
        catalog_rights()
    } else if object_type == "Document"@ {
        document_rights()
    } else if object_type == "InformationRegister"@ {
        information_register_rights()
    } else if object_type == "AccumulationRegister"@ || object_type == "AccountingRegister"@ {
        accumulation_register_rights()
    } else if object_type == "CalculationRegister"@ {
        calculation_register_rights()
    } else if object_type == "Constant"@ {
        constant_rights()
    } else if object_type == "ChartOfAccounts"@ {
        chart_of_accounts_rights()
    } else if object_type == "ChartOfCharacteristicTypes"@ {
        chart_of_characteristic_types_rights()
    } else if object_type == "ChartOfCalculationTypes"@ {
        chart_of_calculation_types_rights()
    } else if object_type == "ExchangePlan"@ {
        exchange_plan_rights()
    } else if object_type == "BusinessProcess"@ {
        business_process_rights()
    } else if object_type == "Task"@ {
        task_rights()
    } else if object_type == "DataProcessor"@ || object_type == "Report"@ {
        data_processor_rights()
    } else if object_type == "CommonForm"@ || object_type == "CommonCommand"@ || object_type == "Subsystem"@ || object_type == "FilterCriterion"@ {
        common_form_rights()
    } else if object_type == "DocumentJournal"@ {
        document_journal_rights()
    } else if object_type == "Sequence"@ {
        sequence_rights()
    } else if object_type == "WebService"@ || object_type == "HTTPService"@ || object_type == "IntegrationService"@ {
        web_service_rights()
    } else if object_type == "SessionParameter"@ {
        session_parameter_rights()
    } else if object_type == "CommonAttribute"@ {
        common_attribute_rights()
    } else {
        Seq::empty()
    }
}

/// The rights known for an object kind, in the order the platform lists them.
pub fn role_validate_known_rights(object_type: &[char]) -> (r: &'static [&'static str])
    ensures
        lit_views(r@) == known_rights(object_type@),
{
    if eq_str(object_type, "Configuration") {
        let r: &'static [&'static str] = &[
            "Administration",
            "DataAdministration",
            "UpdateDataBaseConfiguration",
            "ConfigurationExtensionsAdministration",
            "ActiveUsers",
            "EventLog",
            "ExclusiveMode",
            "ThinClient",
            "ThickClient",
            "WebClient",
            "MobileClient",
            "ExternalConnection",
            "Automation",
            "Output",
            "SaveUserData",
            "TechnicalSpecialistMode",
            "InteractiveOpenExtDataProcessors",
            "InteractiveOpenExtReports",
            "AnalyticsSystemClient",
            "CollaborationSystemInfoBaseRegistration",
            "MainWindowModeNormal",
            "MainWindowModeWorkplace",
            "MainWindowModeEmbeddedWorkplace",
            "MainWindowModeFullscreenWorkplace",
            "MainWindowModeKiosk",
        ];
        assert(lit_views(r@) =~= configuration_rights());
        return r;
    }
    if eq_str(object_type, "Catalog") {
        let r: &'static [&'static str] = &[
            "Read",
            "Insert",
            "Update",
            "Delete",
            "View",
            "Edit",
            "InputByString",
            "InteractiveInsert",
            "InteractiveSetDeletionMark",
            "InteractiveClearDeletionMark",
            "InteractiveDelete",
            "InteractiveDeleteMarked",
            "InteractiveDeletePredefinedData",
            "InteractiveSetDeletionMarkPredefinedData",
            "InteractiveClearDeletionMarkPredefinedData",
            "InteractiveDeleteMarkedPredefinedData",
            "ReadDataHistory",
            "ViewDataHistory",
            "UpdateDataHistory",
            "UpdateDataHistoryOfMissingData",
            "ReadDataHistoryOfMissingData",
            "UpdateDataHistorySettings",
            "UpdateDataHistoryVersionComment",
            "EditDataHistoryVersionComment",
            "SwitchToDataHistoryVersion",
        ];
        assert(lit_views(r@) =~= catalog_rights());
        return r;
    }
    if eq_str(object_type, "Document") {
        let r: &'static [&'static str] = &[
            "Read",
            "Insert",
            "Update",
            "Delete",
            "View",
            "Edit",
            "InputByString",
            "Posting",
            "UndoPosting",
            "InteractiveInsert",
            "InteractiveSetDeletionMark",
            "InteractiveClearDeletionMark",
            "InteractiveDelete",
            "InteractiveDeleteMarked",
            "InteractivePosting",
            "InteractivePostingRegular",
            "InteractiveUndoPosting",
            "InteractiveChangeOfPosted",
            "ReadDataHistory",
            "ViewDataHistory",
            "UpdateDataHistory",
            "UpdateDataHistoryOfMissingData",
            "ReadDataHistoryOfMissingData",
            "UpdateDataHistorySettings",
            "UpdateDataHistoryVersionComment",
            "EditDataHistoryVersionComment",
            "SwitchToDataHistoryVersion",
        ];
        assert(lit_views(r@) =~= document_rights());
        return r;
    }
    if eq_str(object_type, "InformationRegister") {
        let r: &'static [&'static str] = &[
            "Read",
            "Update",
            "View",
            "Edit",
            "TotalsControl",
            "ReadDataHistory",
            "ViewDataHistory",
            "UpdateDataHistory",
            "UpdateDataHistoryOfMissingData",
            "ReadDataHistoryOfMissingData",
            "UpdateDataHistorySettings",
            "UpdateDataHistoryVersionComment",
            "EditDataHistoryVersionComment",
            "SwitchToDataHistoryVersion",
        ];
        assert(lit_views(r@) =~= information_register_rights());
        return r;
    }
    if eq_str(object_type, "AccumulationRegister") || eq_str(object_type, "AccountingRegister") {
        let r: &'static [&'static str] = &[
            "Read",
            "Update",
            "View",
            "Edit",
            "TotalsControl",
        ];
        assert(lit_views(r@) =~= accumulation_register_rights());
        return r;
    }
    if eq_str(object_type, "CalculationRegister") {
        let r: &'static [&'static str] = &[
            "Read",
            "View",
        ];
        assert(lit_views(r@) =~= calculation_register_rights());
        return r;
    }
    if eq_str(object_type, "Constant") {
        let r: &'static [&'static str] = &[
            "Read",
            "Update",
            "View",
            "Edit",
            "ReadDataHistory",
            "ViewDataHistory",
            "UpdateDataHistory",
            "UpdateDataHistorySettings",
            "UpdateDataHistoryVersionComment",
            "EditDataHistoryVersionComment",
            "SwitchToDataHistoryVersion",
        ];
        assert(lit_views(r@) =~= constant_rights());
        return r;
    }
    if eq_str(object_type, "ChartOfAccounts") {
        let r: &'static [&'static str] = &[
            "Read",
            "Insert",
            "Update",
            "Delete",
            "View",
            "Edit",
            "InputByString",
            "InteractiveInsert",
            "InteractiveSetDeletionMark",
            "InteractiveClearDeletionMark",
            "InteractiveDelete",
            "InteractiveDeletePredefinedData",
            "InteractiveSetDeletionMarkPredefinedData",
            "InteractiveClearDeletionMarkPredefinedData",
            "InteractiveDeleteMarkedPredefinedData",
            "ReadDataHistory",
            "ReadDataHistoryOfMissingData",
            "UpdateDataHistory",
            "UpdateDataHistoryOfMissingData",
            "UpdateDataHistorySettings",
            "UpdateDataHistoryVersionComment",
        ];
        assert(lit_views(r@) =~= chart_of_accounts_rights());
        return r;
    }
    if eq_str(object_type, "ChartOfCharacteristicTypes") {
        let r: &'static [&'static str] = &[
            "Read",
            "Insert",
            "Update",
            "Delete",
            "View",
            "Edit",
            "InputByString",
            "InteractiveInsert",
            "InteractiveSetDeletionMark",
            "InteractiveClearDeletionMark",
            "InteractiveDelete",
            "InteractiveDeleteMarked",
            "InteractiveDeletePredefinedData",
            "InteractiveSetDeletionMarkPredefinedData",
            "InteractiveClearDeletionMarkPredefinedData",
            "InteractiveDeleteMarkedPredefinedData",
            "ReadDataHistory",
            "ViewDataHistory",
            "UpdateDataHistory",
            "ReadDataHistoryOfMissingData",
            "UpdateDataHistoryOfMissingData",
            "UpdateDataHistorySettings",
            "UpdateDataHistoryVersionComment",
            "EditDataHistoryVersionComment",
            "SwitchToDataHistoryVersion",
        ];
        assert(lit_views(r@) =~= chart_of_characteristic_types_rights());
        return r;
    }
    if eq_str(object_type, "ChartOfCalculationTypes") {
        let r: &'static [&'static str] = &[
            "Read",
            "Insert",
            "Update",
            "Delete",
            "View",
            "Edit",
            "InputByString",
            "InteractiveInsert",
            "InteractiveSetDeletionMark",
            "InteractiveClearDeletionMark",
            "InteractiveDelete",
            "InteractiveDeletePredefinedData",
            "InteractiveSetDeletionMarkPredefinedData",
            "InteractiveClearDeletionMarkPredefinedData",
            "InteractiveDeleteMarkedPredefinedData",
        ];
        assert(lit_views(r@) =~= chart_of_calculation_types_rights());
        return r;
    }
    if eq_str(object_type, "ExchangePlan") {
        let r: &'static [&'static str] = &[
            "Read",
            "Insert",
            "Update",
            "Delete",
            "View",
            "Edit",
            "InputByString",
            "InteractiveInsert",
            "InteractiveSetDeletionMark",
            "InteractiveClearDeletionMark",
            "InteractiveDelete",
            "InteractiveDeleteMarked",
            "ReadDataHistory",
            "ViewDataHistory",
            "UpdateDataHistory",
            "ReadDataHistoryOfMissingData",
            "UpdateDataHistoryOfMissingData",
            "UpdateDataHistorySettings",
            "UpdateDataHistoryVersionComment",
            "EditDataHistoryVersionComment",
            "SwitchToDataHistoryVersion",
        ];
        assert(lit_views(r@) =~= exchange_plan_rights());
        return r;
    }
    if eq_str(object_type, "BusinessProcess") {
        let r: &'static [&'static str] = &[
            "Read",
            "Insert",
            "Update",
            "Delete",
            "View",
            "Edit",
            "InputByString",
            "Start",
            "InteractiveInsert",
            "InteractiveSetDeletionMark",
            "InteractiveClearDeletionMark",
            "InteractiveDelete",
            "InteractiveActivate",
            "InteractiveStart",
        ];
        assert(lit_views(r@) =~= business_process_rights());
        return r;
    }
    if eq_str(object_type, "Task") {
        let r: &'static [&'static str] = &[
            "Read",
            "Insert",
            "Update",
            "Delete",
            "View",
            "Edit",
            "InputByString",
            "Execute",
            "InteractiveInsert",
            "InteractiveSetDeletionMark",
            "InteractiveClearDeletionMark",
            "InteractiveDelete",
            "InteractiveActivate",
            "InteractiveExecute",
        ];
        assert(lit_views(r@) =~= task_rights());
        return r;
    }
    if eq_str(object_type, "DataProcessor") || eq_str(object_type, "Report") {
        let r: &'static [&'static str] = &[
            "Use",
            "View",
        ];
        assert(lit_views(r@) =~= data_processor_rights());
        return r;
    }
    if eq_str(object_type, "CommonForm") || eq_str(object_type, "CommonCommand") || eq_str(object_type, "Subsystem") || eq_str(object_type, "FilterCriterion") {
        let r: &'static [&'static str] = &[
            "View",
        ];
        assert(lit_views(r@) =~= common_form_rights());
        return r;
    }
    if eq_str(object_type, "DocumentJournal") {
        let r: &'static [&'static str] = &[
            "Read",
            "View",
        ];
        assert(lit_views(r@) =~= document_journal_rights());
        return r;
    }
    if eq_str(object_type, "Sequence") {
        let r: &'static [&'static str] = &[
            "Read",
            "Update",
        ];
        assert(lit_views(r@) =~= sequence_rights());
        return r;
    }
    if eq_str(object_type, "WebService") || eq_str(object_type, "HTTPService") || eq_str(object_type, "IntegrationService") {
        let r: &'static [&'static str] = &[
            "Use",
        ];
        assert(lit_views(r@) =~= web_service_rights());
        return r;
    }
    if eq_str(object_type, "SessionParameter") {
        let r: &'static [&'static str] = &[
            "Get",
            "Set",
        ];
        assert(lit_views(r@) =~= session_parameter_rights());
        return r;
    }
    if eq_str(object_type, "CommonAttribute") {
        let r: &'static [&'static str] = &[
            "View",
            "Edit",
        ];
        assert(lit_views(r@) =~= common_attribute_rights());
        return r;
    }
    let r: &'static [&'static str] = &[];
    assert(lit_views(r@) =~= Seq::<Seq<char>>::empty());
    r
}

/// The kinds the `@view` preset gives Read, View, InputByString.
pub open spec fn view_reference_kinds() -> Seq<Seq<char>> {
    seq![
        "Catalog"@,
        "ExchangePlan"@,
        "Document"@,
        "ChartOfAccounts"@,
        "ChartOfCharacteristicTypes"@,
        "ChartOfCalculationTypes"@,
        "BusinessProcess"@,
        "Task"@,
    ]
}

pub open spec fn view_reference_rights() -> Seq<Seq<char>> {
    seq![
        "Read"@,
        "View"@,
        "InputByString"@,
    ]
}

/// The kinds the `@view` preset gives Read, View.
pub open spec fn view_register_kinds() -> Seq<Seq<char>> {
    seq![
        "InformationRegister"@,
        "AccumulationRegister"@,
        "AccountingRegister"@,
        "CalculationRegister"@,
        "Constant"@,
        "DocumentJournal"@,
    ]
}

pub open spec fn view_register_rights() -> Seq<Seq<char>> {
    seq![
        "Read"@,
        "View"@,
    ]
}

/// The kinds the `@view` preset gives View.
pub open spec fn view_interface_kinds() -> Seq<Seq<char>> {
    seq![
        "CommonForm"@,
        "CommonCommand"@,
        "Subsystem"@,
        "FilterCriterion"@,
    ]
}

pub open spec fn view_interface_rights() -> Seq<Seq<char>> {
    seq![
        "View"@,
    ]
}

/// The kinds the `@view` preset gives Use, View.
pub open spec fn view_processor_kinds() -> Seq<Seq<char>> {
    seq![
        "DataProcessor"@,
        "Report"@,
    ]
}

pub open spec fn view_processor_rights() -> Seq<Seq<char>> {
    seq![
        "Use"@,
        "View"@,
    ]
}

/// The kinds the `@view` preset gives ThinClient, WebClient, Output, SaveUserData, MainWindowModeNormal.
pub open spec fn view_configuration_kinds() -> Seq<Seq<char>> {
    seq![
        "Configuration"@,
    ]
}

pub open spec fn view_configuration_rights() -> Seq<Seq<char>> {
    seq![
        "ThinClient"@,
        "WebClient"@,
        "Output"@,
        "SaveUserData"@,
        "MainWindowModeNormal"@,
    ]
}

/// The kinds the `@edit` preset gives Read, Insert, Update, Delete, View, Edit, InputByString, InteractiveInsert, InteractiveSetDeletionMark, InteractiveClearDeletionMark.
pub open spec fn edit_reference_kinds() -> Seq<Seq<char>> {
    seq![
        "Catalog"@,
        "ExchangePlan"@,
        "ChartOfAccounts"@,
        "ChartOfCharacteristicTypes"@,
        "ChartOfCalculationTypes"@,
    ]
}

pub open spec fn edit_reference_rights() -> Seq<Seq<char>> {
    seq![
        "Read"@,
        "Insert"@,
        "Update"@,
        "Delete"@,
        "View"@,
        "Edit"@,
        "InputByString"@,
        "InteractiveInsert"@,
        "InteractiveSetDeletionMark"@,
        "InteractiveClearDeletionMark"@,
    ]
}

/// The kinds the `@edit` preset gives Read, Insert, Update, Delete, View, Edit, InputByString, Posting, UndoPosting, InteractiveInsert, InteractiveSetDeletionMark, InteractiveClearDeletionMark, InteractivePosting, InteractivePostingRegular, InteractiveUndoPosting, InteractiveChangeOfPosted.
pub open spec fn edit_document_kinds() -> Seq<Seq<char>> {
    seq![
        "Document"@,
    ]
}

pub open spec fn edit_document_rights() -> Seq<Seq<char>> {
    seq![
        "Read"@,
        "Insert"@,
        "Update"@,
        "Delete"@,
        "View"@,
        "Edit"@,
        "InputByString"@,
        "Posting"@,
        "UndoPosting"@,
        "InteractiveInsert"@,
        "InteractiveSetDeletionMark"@,
        "InteractiveClearDeletionMark"@,
        "InteractivePosting"@,
        "InteractivePostingRegular"@,
        "InteractiveUndoPosting"@,
        "InteractiveChangeOfPosted"@,
    ]
}

/// The kinds the `@edit` preset gives Read, Update, View, Edit.
pub open spec fn edit_register_kinds() -> Seq<Seq<char>> {
    seq![
        "InformationRegister"@,
        "AccumulationRegister"@,
        "AccountingRegister"@,
        "Constant"@,
    ]
}

pub open spec fn edit_register_rights() -> Seq<Seq<char>> {
    seq![
        "Read"@,
        "Update"@,
        "View"@,
        "Edit"@,
    ]
}

/// The kinds the `@edit` preset gives Get, Set.
pub open spec fn edit_session_parameter_kinds() -> Seq<Seq<char>> {
    seq![
        "SessionParameter"@,
    ]
}

pub open spec fn edit_session_parameter_rights() -> Seq<Seq<char>> {
    seq![
        "Get"@,
        "Set"@,
    ]
}

/// The kinds the `@edit` preset gives View, Edit.
pub open spec fn edit_common_attribute_kinds() -> Seq<Seq<char>> {
    seq![
        "CommonAttribute"@,
    ]
}

pub open spec fn edit_common_attribute_rights() -> Seq<Seq<char>> {
    seq![
        "View"@,
        "Edit"@,
    ]
}

/// The kinds the `@view` preset gives Get.
pub open spec fn view_session_parameter_kinds() -> Seq<Seq<char>> {
    seq![
        "SessionParameter"@,
    ]
}

pub open spec fn view_session_parameter_rights() -> Seq<Seq<char>> {
    seq![
        "Get"@,
    ]
}

/// The kinds the `@view` preset gives View.
pub open spec fn view_common_attribute_kinds() -> Seq<Seq<char>> {
    seq![
        "CommonAttribute"@,
    ]
}

pub open spec fn view_common_attribute_rights() -> Seq<Seq<char>> {
    seq![
        "View"@,
    ]
}

/// The kinds the `@view` preset gives Read.
pub open spec fn view_sequence_kinds() -> Seq<Seq<char>> {
    seq![
        "Sequence"@,
    ]
}

pub open spec fn view_sequence_rights() -> Seq<Seq<char>> {
    seq![
        "Read"@,
    ]
}

/// The kinds the `@edit` preset gives Read, Update.
pub open spec fn edit_sequence_kinds() -> Seq<Seq<char>> {
    seq![
        "Sequence"@,
    ]
}

pub open spec fn edit_sequence_rights() -> Seq<Seq<char>> {
    seq![
        "Read"@,
        "Update"@,
    ]
}

/// The kinds the `@edit` preset gives Read, View.
pub open spec fn edit_document_journal_kinds() -> Seq<Seq<char>> {
    seq![
        "DocumentJournal"@,
    ]
}

pub open spec fn edit_document_journal_rights() -> Seq<Seq<char>> {
    seq![
        "Read"@,
        "View"@,
    ]
}

/// The rights a preset (`view` or `edit`) gives an object kind; `None` where
/// the pair is not defined.
pub open spec fn preset_rights(preset: Seq<char>, object_type: Seq<char>) -> Option<Seq<Seq<char>>> {
    if preset == "view"@ && is_one_of(object_type, view_reference_kinds()) {
        Some(view_reference_rights())
    } else if preset == "view"@ && is_one_of(object_type, view_register_kinds()) {
        Some(view_register_rights())
    } else if preset == "view"@ && is_one_of(object_type, view_interface_kinds()) {
        Some(view_interface_rights())
    } else if preset == "view"@ && is_one_of(object_type, view_processor_kinds()) {
        Some(view_processor_rights())
    } else if preset == "view"@ && is_one_of(object_type, view_configuration_kinds()) {
        Some(view_configuration_rights())
    } else if preset == "edit"@ && is_one_of(object_type, edit_reference_kinds()) {
        Some(edit_reference_rights())
    } else if preset == "edit"@ && is_one_of(object_type, edit_document_kinds()) {
        Some(edit_document_rights())
    } else if preset == "edit"@ && is_one_of(object_type, edit_register_kinds()) {
        Some(edit_register_rights())
    } else if preset == "edit"@ && is_one_of(object_type, edit_session_parameter_kinds()) {
        Some(edit_session_parameter_rights())
    } else if preset == "edit"@ && is_one_of(object_type, edit_common_attribute_kinds()) {
        Some(edit_common_attribute_rights())
    } else if preset == "view"@ && is_one_of(object_type, view_session_parameter_kinds()) {
        Some(view_session_parameter_rights())
    } else if preset == "view"@ && is_one_of(object_type, view_common_attribute_kinds()) {
        Some(view_common_attribute_rights())
    } else if preset == "view"@ && is_one_of(object_type, view_sequence_kinds()) {
        Some(view_sequence_rights())
    } else if preset == "edit"@ && is_one_of(object_type, edit_sequence_kinds()) {
        Some(edit_sequence_rights())
    } else if preset == "edit"@ && is_one_of(object_type, edit_document_journal_kinds()) {
        Some(edit_document_journal_rights())
    } else {
        None
    }
}

/// `t` without its leading run of `c` (`str::trim_start_matches`).
pub open spec fn strip_leading(t: Seq<char>, c: char) -> Seq<char>
    decreases t.len(),
{
    if t.len() > 0 && t[0] == c {
        strip_leading(t.drop_first(), c)
    } else {
        t
    }
}

pub fn strip_leading_exec(t: &[char], c: char) -> (r: Vec<char>)
    ensures
        r@ == strip_leading(t@, c),
{
    let mut i: usize = 0;
    assert(t@.subrange(0, t@.len() as int) =~= t@);
    while i < t.len() && t[i] == c
        invariant
            i <= t.len(),
            strip_leading(t@, c) == strip_leading(t@.subrange(i as int, t@.len() as int), c),
        decreases t.len() - i,
    {
        assert(t@.subrange(i as int, t@.len() as int).drop_first() =~= t@.subrange(i + 1, t@.len() as int));
        i = i + 1;
    }
    crate::text::slice_to_vec(t, i, t.len())
}

/// The warning written for a preset that gives no rights.
pub open spec fn preset_warning(preset: Seq<char>, object_type: Seq<char>) -> Seq<char> {
    if preset == "view"@ || preset == "edit"@ {
        "WARNING: Preset '@"@ + preset + "' not defined for type '"@ + object_type
            + "'. Available: none\n"@
    } else {
        "WARNING: Unknown preset '@"@ + preset + "'. Known: @view, @edit\n"@
    }
}

/// The texts of a literal list.
pub fn literal_texts(items: &[&'static str]) -> (r: Vec<Vec<char>>)
    ensures
        views(r@) == lit_views(items@),
{
    let mut r: Vec<Vec<char>> = Vec::new();
    let mut i: usize = 0;
    while i < items.len()
        invariant
            i <= items.len(),
            views(r@) == lit_views(items@).take(i as int),
        decreases items.len() - i,
    {
        let t = chars_of(items[i]);
        proof {
            lemma_views_push(r@, t);
            assert(lit_views(items@).take(i + 1) =~= lit_views(items@).take(i as int).push(t@));
        }
        r.push(t);
        i = i + 1;
    }
    assert(lit_views(items@).take(i as int) =~= lit_views(items@));
    r
}

/// The literal list of a preset for a kind, if the pair is defined.
fn preset_list(preset: &[char], object_type: &[char]) -> (r: Option<&'static [&'static str]>)
    ensures
        match preset_rights(preset@, object_type@) {
            Some(l) => r is Some && lit_views(r->0@) == l,
            None => r is None,
        },
{
    let view = eq_str(preset, "view");
    let edit = eq_str(preset, "edit");

    let kinds: &'static [&'static str] = &[
        "Catalog",
        "ExchangePlan",
        "Document",
        "ChartOfAccounts",
        "ChartOfCharacteristicTypes",
        "ChartOfCalculationTypes",
        "BusinessProcess",
        "Task",
    ];
    assert(lit_views(kinds@) =~= view_reference_kinds());
    if view && is_one_of_exec(object_type, kinds) {
        let r: &'static [&'static str] = &[
            "Read",
            "View",
            "InputByString",
        ];
        assert(lit_views(r@) =~= view_reference_rights());
        return Some(r);
    }
    let kinds: &'static [&'static str] = &[
        "InformationRegister",
        "AccumulationRegister",
        "AccountingRegister",
        "CalculationRegister",
        "Constant",
        "DocumentJournal",
    ];
    assert(lit_views(kinds@) =~= view_register_kinds());
    if view && is_one_of_exec(object_type, kinds) {
        let r: &'static [&'static str] = &[
            "Read",
            "View",
        ];
        assert(lit_views(r@) =~= view_register_rights());
        return Some(r);
    }
    let kinds: &'static [&'static str] = &[
        "CommonForm",
        "CommonCommand",
        "Subsystem",
        "FilterCriterion",
    ];
    assert(lit_views(kinds@) =~= view_interface_kinds());
    if view && is_one_of_exec(object_type, kinds) {
        let r: &'static [&'static str] = &[
            "View",
        ];
        assert(lit_views(r@) =~= view_interface_rights());
        return Some(r);
    }
    let kinds: &'static [&'static str] = &[
        "DataProcessor",
        "Report",
    ];
    assert(lit_views(kinds@) =~= view_processor_kinds());
    if view && is_one_of_exec(object_type, kinds) {
        let r: &'static [&'static str] = &[
            "Use",
            "View",
        ];
        assert(lit_views(r@) =~= view_processor_rights());
        return Some(r);
    }
    let kinds: &'static [&'static str] = &[
        "Configuration",
    ];
    assert(lit_views(kinds@) =~= view_configuration_kinds());
    if view && is_one_of_exec(object_type, kinds) {
        let r: &'static [&'static str] = &[
            "ThinClient",
            "WebClient",
            "Output",
            "SaveUserData",
            "MainWindowModeNormal",
        ];
        assert(lit_views(r@) =~= view_configuration_rights());
        return Some(r);
    }
    let kinds: &'static [&'static str] = &[
        "Catalog",
        "ExchangePlan",
        "ChartOfAccounts",
        "ChartOfCharacteristicTypes",
        "ChartOfCalculationTypes",
    ];
    assert(lit_views(kinds@) =~= edit_reference_kinds());
    if edit && is_one_of_exec(object_type, kinds) {
        let r: &'static [&'static str] = &[
            "Read",
            "Insert",
            "Update",
            "Delete",
            "View",
            "Edit",
            "InputByString",
            "InteractiveInsert",
            "InteractiveSetDeletionMark",
            "InteractiveClearDeletionMark",
        ];
        assert(lit_views(r@) =~= edit_reference_rights());
        return Some(r);
    }
    let kinds: &'static [&'static str] = &[
        "Document",
    ];
    assert(lit_views(kinds@) =~= edit_document_kinds());
    if edit && is_one_of_exec(object_type, kinds) {
        let r: &'static [&'static str] = &[
            "Read",
            "Insert",
            "Update",
            "Delete",
            "View",
            "Edit",
            "InputByString",
            "Posting",
            "UndoPosting",
            "InteractiveInsert",
            "InteractiveSetDeletionMark",
            "InteractiveClearDeletionMark",
            "InteractivePosting",
            "InteractivePostingRegular",
            "InteractiveUndoPosting",
            "InteractiveChangeOfPosted",
        ];
        assert(lit_views(r@) =~= edit_document_rights());
        return Some(r);
    }
    let kinds: &'static [&'static str] = &[
        "InformationRegister",
        "AccumulationRegister",
        "AccountingRegister",
        "Constant",
    ];
    assert(lit_views(kinds@) =~= edit_register_kinds());
    if edit && is_one_of_exec(object_type, kinds) {
        let r: &'static [&'static str] = &[
            "Read",
            "Update",
            "View",
            "Edit",
        ];
        assert(lit_views(r@) =~= edit_register_rights());
        return Some(r);
    }
    let kinds: &'static [&'static str] = &[
        "SessionParameter",
    ];
    assert(lit_views(kinds@) =~= edit_session_parameter_kinds());
    if edit && is_one_of_exec(object_type, kinds) {
        let r: &'static [&'static str] = &[
            "Get",
            "Set",
        ];
        assert(lit_views(r@) =~= edit_session_parameter_rights());
        return Some(r);
    }
    let kinds: &'static [&'static str] = &[
        "CommonAttribute",
    ];
    assert(lit_views(kinds@) =~= edit_common_attribute_kinds());
    if edit && is_one_of_exec(object_type, kinds) {
        let r: &'static [&'static str] = &[
            "View",
            "Edit",
        ];
        assert(lit_views(r@) =~= edit_common_attribute_rights());
        return Some(r);
    }
    let kinds: &'static [&'static str] = &[
        "SessionParameter",
    ];
    assert(lit_views(kinds@) =~= view_session_parameter_kinds());
    if view && is_one_of_exec(object_type, kinds) {
        let r: &'static [&'static str] = &[
            "Get",
        ];
        assert(lit_views(r@) =~= view_session_parameter_rights());
        return Some(r);
    }
    let kinds: &'static [&'static str] = &[
        "CommonAttribute",
    ];
    assert(lit_views(kinds@) =~= view_common_attribute_kinds());
    if view && is_one_of_exec(object_type, kinds) {
        let r: &'static [&'static str] = &[
            "View",
        ];
        assert(lit_views(r@) =~= view_common_attribute_rights());
        return Some(r);
    }
    let kinds: &'static [&'static str] = &[
        "Sequence",
    ];
    assert(lit_views(kinds@) =~= view_sequence_kinds());
    if view && is_one_of_exec(object_type, kinds) {
        let r: &'static [&'static str] = &[
            "Read",
        ];
        assert(lit_views(r@) =~= view_sequence_rights());
        return Some(r);
    }
    let kinds: &'static [&'static str] = &[
        "Sequence",
    ];
    assert(lit_views(kinds@) =~= edit_sequence_kinds());
    if edit && is_one_of_exec(object_type, kinds) {
        let r: &'static [&'static str] = &[
            "Read",
            "Update",
        ];
        assert(lit_views(r@) =~= edit_sequence_rights());
        return Some(r);
    }
    let kinds: &'static [&'static str] = &[
        "DocumentJournal",
    ];
    assert(lit_views(kinds@) =~= edit_document_journal_kinds());
    if edit && is_one_of_exec(object_type, kinds) {
        let r: &'static [&'static str] = &[
            "Read",
            "View",
        ];
        assert(lit_views(r@) =~= edit_document_journal_rights());
        return Some(r);
    }
    None
}

/// The rights of a preset (`@view`, `@edit`; leading `@`s are dropped) for an
/// object kind. Where the preset gives nothing for the kind, or is unknown, the
/// result is empty and a warning line is appended to `stderr`.
pub fn role_preset_rights(object_type: &[char], preset_name: &[char], stderr: &mut Vec<char>) -> (r: Vec<Vec<char>>)
    ensures
        ({
            let p = strip_leading(preset_name@, '@');
            match preset_rights(p, object_type@) {
                Some(l) => views(r@) == l && final(stderr)@ == old(stderr)@,
                None => r@.len() == 0 && final(stderr)@ == old(stderr)@ + preset_warning(p, object_type@),
            }
        }),
{
    let preset = strip_leading_exec(preset_name, '@');
    match preset_list(&preset, object_type) {
        Some(l) => literal_texts(l),
        None => {
            if eq_str(&preset, "view") || eq_str(&preset, "edit") {
                push_str(stderr, "WARNING: Preset '@");
                push_chars(stderr, &preset);
                push_str(stderr, "' not defined for type '");
                push_chars(stderr, object_type);
                push_str(stderr, "'. Available: none\n");
            } else {
                push_str(stderr, "WARNING: Unknown preset '@");
                push_chars(stderr, &preset);
                push_str(stderr, "'. Known: @view, @edit\n");
            }
            Vec::new()
        },
    }
}

/// Scanning from `s`: the end of the last `open … close` pair, where each pair
/// starts at the first `open` after the previous pair and ends at the first
/// `close` after that `open`.
pub open spec fn last_pair_end(t: Seq<char>, open: Seq<char>, close: Seq<char>, s: int) -> Option<int>
    decreases t.len() - s,
    when 0 <= s <= t.len() && close.len() > 0
{
    match first_match(t, open, s, t.len() as int) {
        None => None,
        Some(st) => match first_match(t, close, st, t.len() as int) {
            None => None,
            Some(e) => {
                proof {
                    lemma_first_match_bounds(t, open, s, t.len() as int);
                    lemma_first_match_bounds(t, close, st, t.len() as int);
                }
                match last_pair_end(t, open, close, e + close.len()) {
                    Some(x) => Some(x),
                    None => Some(e + close.len()),
                }
            },
        },
    }
}

pub open spec fn or_else(a: Option<int>, b: Option<int>) -> Option<int> {
    match a {
        Some(x) => Some(x),
        None => b,
    }
}

/// The position just after the last `<Role>…</Role>` element of a text, where
/// new role entries are inserted.
pub fn last_xml_role_end(text: &[char]) -> (r: Option<usize>)
    ensures
        opt_int(r) == last_pair_end(text@, "<Role>"@, "</Role>"@, 0),
{
    let open = chars_of("<Role>");
    let close = chars_of("</Role>");
    proof {
        reveal_strlit("</Role>");
    }
    let mut s: usize = 0;
    let mut last: Option<usize> = None;
    loop
        invariant
            s <= text.len(),
            open@ == "<Role>"@,
            close@ == "</Role>"@,
            close@.len() > 0,
            last_pair_end(text@, open@, close@, 0) == or_else(
                last_pair_end(text@, open@, close@, s as int),
                opt_int(last),
            ),
        decreases text.len() - s,
    {
        match find_in(text, &open, s, text.len()) {
            None => {
                return last;
            },
            Some(st) => {
                proof {
                    lemma_first_match_bounds(text@, open@, s as int, text@.len() as int);
                }
                match find_in(text, &close, st, text.len()) {
                    None => {
                        return last;
                    },
                    Some(e) => {
                        proof {
                            lemma_first_match_bounds(text@, close@, st as int, text@.len() as int);
                        }
                        let end = e + close.len();
                        last = Some(end);
                        s = end;
                    },
                }
            },
        }
    }
}

/// The opening lines of a metadata object file: the XML declaration and the
/// namespaces of the root element.
pub open spec fn metadata_header_lines() -> Seq<Seq<char>> {
    seq![
        "<?xml version=\"1.0\" encoding=\"UTF-8\"?>"@,
        "<MetaDataObject xmlns=\"http://v8.1c.ru/8.3/MDClasses\""@,
        "        xmlns:app=\"http://v8.1c.ru/8.2/managed-application/core\""@,
        "        xmlns:cfg=\"http://v8.1c.ru/8.1/data/enterprise/current-config\""@,
        "        xmlns:cmi=\"http://v8.1c.ru/8.2/managed-application/cmi\""@,
        "        xmlns:ent=\"http://v8.1c.ru/8.1/data/enterprise\""@,
        "        xmlns:lf=\"http://v8.1c.ru/8.2/managed-application/logform\""@,
        "        xmlns:style=\"http://v8.1c.ru/8.1/data/ui/style\""@,
        "        xmlns:sys=\"http://v8.1c.ru/8.1/data/ui/fonts/system\""@,
        "        xmlns:v8=\"http://v8.1c.ru/8.1/data/core\""@,
        "        xmlns:v8ui=\"http://v8.1c.ru/8.1/data/ui\""@,
        "        xmlns:web=\"http://v8.1c.ru/8.1/data/ui/colors/web\""@,
        "        xmlns:win=\"http://v8.1c.ru/8.1/data/ui/colors/windows\""@,
        "        xmlns:xen=\"http://v8.1c.ru/8.3/xcf/enums\""@,
        "        xmlns:xpr=\"http://v8.1c.ru/8.3/xcf/predef\""@,
        "        xmlns:xr=\"http://v8.1c.ru/8.3/xcf/readable\""@,
        "        xmlns:xs=\"http://www.w3.org/2001/XMLSchema\""@,
        "        xmlns:xsi=\"http://www.w3.org/2001/XMLSchema-instance\""@,
    ]
}

fn push_metadata_header(lines: &mut Vec<Vec<char>>)
    ensures
        views(final(lines)@) == views(old(lines)@) + metadata_header_lines(),
{
    let ghost start = views(lines@);
    push_line(lines, chars_of("<?xml version=\"1.0\" encoding=\"UTF-8\"?>"));
    push_line(lines, chars_of("<MetaDataObject xmlns=\"http://v8.1c.ru/8.3/MDClasses\""));
    push_line(lines, chars_of("        xmlns:app=\"http://v8.1c.ru/8.2/managed-application/core\""));
    push_line(lines, chars_of("        xmlns:cfg=\"http://v8.1c.ru/8.1/data/enterprise/current-config\""));
    push_line(lines, chars_of("        xmlns:cmi=\"http://v8.1c.ru/8.2/managed-application/cmi\""));
    push_line(lines, chars_of("        xmlns:ent=\"http://v8.1c.ru/8.1/data/enterprise\""));
    push_line(lines, chars_of("        xmlns:lf=\"http://v8.1c.ru/8.2/managed-application/logform\""));
    push_line(lines, chars_of("        xmlns:style=\"http://v8.1c.ru/8.1/data/ui/style\""));
    push_line(lines, chars_of("        xmlns:sys=\"http://v8.1c.ru/8.1/data/ui/fonts/system\""));
    push_line(lines, chars_of("        xmlns:v8=\"http://v8.1c.ru/8.1/data/core\""));
    push_line(lines, chars_of("        xmlns:v8ui=\"http://v8.1c.ru/8.1/data/ui\""));
    push_line(lines, chars_of("        xmlns:web=\"http://v8.1c.ru/8.1/data/ui/colors/web\""));
    push_line(lines, chars_of("        xmlns:win=\"http://v8.1c.ru/8.1/data/ui/colors/windows\""));
    push_line(lines, chars_of("        xmlns:xen=\"http://v8.1c.ru/8.3/xcf/enums\""));
    push_line(lines, chars_of("        xmlns:xpr=\"http://v8.1c.ru/8.3/xcf/predef\""));
    push_line(lines, chars_of("        xmlns:xr=\"http://v8.1c.ru/8.3/xcf/readable\""));
    push_line(lines, chars_of("        xmlns:xs=\"http://www.w3.org/2001/XMLSchema\""));
    push_line(lines, chars_of("        xmlns:xsi=\"http://www.w3.org/2001/XMLSchema-instance\""));
    assert(views(lines@) =~= start + metadata_header_lines());
}

/// The lines of a role's metadata description.
pub open spec fn role_metadata_lines(
    role_name: Seq<char>,
    synonym: Seq<char>,
    comment: Seq<char>,
    format_version: Seq<char>,
    uid: Seq<char>,
) -> Seq<Seq<char>> {
    metadata_header_lines() + seq![
        "        version=\""@ + format_version + "\">"@,
        "    <Role uuid=\""@ + uid + "\">"@,
        "        <Properties>"@,
        "            <Name>"@ + role_name + "</Name>"@,
        "            <Synonym>"@,
        "                <v8:item>"@,
        "                    <v8:lang>ru</v8:lang>"@,
        "                    <v8:content>"@ + escape_xml(synonym) + "</v8:content>"@,
        "                </v8:item>"@,
        "            </Synonym>"@,
    ] + (if comment.len() == 0 {
        seq!["            <Comment/>"@]
    } else {
        seq!["            <Comment>"@ + escape_xml(comment) + "</Comment>"@]
    }) + seq!["        </Properties>"@, "    </Role>"@, "</MetaDataObject>"@]
}

/// The metadata file of a new role: the lines joined by newlines, with a final
/// newline.
pub fn role_metadata_xml(
    role_name: &[char],
    synonym: &[char],
    comment: &[char],
    format_version: &[char],
    uid: &[char],
) -> (r: Vec<char>)
    ensures
        r@ == join(role_metadata_lines(role_name@, synonym@, comment@, format_version@, uid@), "\n"@)
            + "\n"@,
{
    let mut lines: Vec<Vec<char>> = Vec::new();
    push_metadata_header(&mut lines);
    let ghost part0 = views(lines@);
    let empty: Vec<char> = Vec::new();
    push_line(&mut lines, wrap(&empty, "        version=\"", format_version, "\">"));
    push_line(&mut lines, wrap(&empty, "    <Role uuid=\"", uid, "\">"));
    push_line(&mut lines, chars_of("        <Properties>"));
    push_line(&mut lines, wrap(&empty, "            <Name>", role_name, "</Name>"));
    push_line(&mut lines, chars_of("            <Synonym>"));
    push_line(&mut lines, chars_of("                <v8:item>"));
    push_line(&mut lines, chars_of("                    <v8:lang>ru</v8:lang>"));
    push_line(&mut lines, wrap_escaped(&empty, "                    <v8:content>", synonym, "</v8:content>"));
    push_line(&mut lines, chars_of("                </v8:item>"));
    push_line(&mut lines, chars_of("            </Synonym>"));
    let ghost part1 = views(lines@);
    if comment.len() == 0 {
        push_line(&mut lines, chars_of("            <Comment/>"));
    } else {
        push_line(&mut lines, wrap_escaped(&empty, "            <Comment>", comment, "</Comment>"));
    }
    let ghost part2 = views(lines@);
    push_line(&mut lines, chars_of("        </Properties>"));
    push_line(&mut lines, chars_of("    </Role>"));
    push_line(&mut lines, chars_of("</MetaDataObject>"));
    proof {
        assert(empty@ =~= Seq::<char>::empty());
        assert(part1 =~= metadata_header_lines() + seq![
            "        version=\""@ + format_version@ + "\">"@,
            "    <Role uuid=\""@ + uid@ + "\">"@,
            "        <Properties>"@,
            "            <Name>"@ + role_name@ + "</Name>"@,
            "            <Synonym>"@,
            "                <v8:item>"@,
            "                    <v8:lang>ru</v8:lang>"@,
            "                    <v8:content>"@ + escape_xml(synonym@) + "</v8:content>"@,
            "                </v8:item>"@,
            "            </Synonym>"@,
        ]);
        assert(views(lines@) =~= role_metadata_lines(role_name@, synonym@, comment@, format_version@, uid@));
    }
    let mut r = join_str(&lines, "\n");
    push_str(&mut r, "\n");
    r
}

/// The findings of a role check, collected as report lines.
pub struct RoleValidationReport {
    pub lines: Vec<Vec<char>>,
    pub errors: usize,
    pub warnings: usize,
    pub ok_count: usize,
    pub detailed: bool,
}

/// A passed check is shown only in a detailed report.
pub open spec fn after_ok(lines: Seq<Seq<char>>, detailed: bool, msg: Seq<char>) -> Seq<Seq<char>> {
    if detailed {
        lines.push("[OK]    "@ + msg)
    } else {
        lines
    }
}

/// The text of a finished role report.
pub open spec fn role_report_text(
    lines: Seq<Seq<char>>,
    errors: nat,
    warnings: nat,
    ok_count: nat,
    detailed: bool,
    role_name: Seq<char>,
) -> Seq<char> {
    let checks = ok_count + errors + warnings;
    if errors == 0 && warnings == 0 && !detailed {
        "=== Validation OK: Role."@ + role_name + " ("@ + nat_text(checks) + " checks) ==="@
    } else {
        join(
            seq!["=== Validation: Role."@ + role_name + " ==="@] + lines + seq![
                Seq::empty(),
                "=== Result: "@ + nat_text(errors) + " errors, "@ + nat_text(warnings)
                    + " warnings ("@ + nat_text(checks) + " checks) ==="@,
            ],
            "\n"@,
        )
    }
}

/// `prefix` followed by `msg`.
fn tagged(prefix: &str, msg: &[char]) -> (r: Vec<char>)
    ensures
        r@ == prefix@ + msg@,
{
    let mut r = chars_of(prefix);
    push_chars(&mut r, msg);
    r
}

impl RoleValidationReport {
    pub fn new(detailed: bool) -> (r: Self)
        ensures
            r.lines@.len() == 0,
            r.errors == 0,
            r.warnings == 0,
            r.ok_count == 0,
            r.detailed == detailed,
    {
        RoleValidationReport { lines: Vec::new(), errors: 0, warnings: 0, ok_count: 0, detailed }
    }

    /// Counts a passed check; its line is kept only in a detailed report.
    pub fn ok(&mut self, msg: &[char])
        requires
            old(self).ok_count < usize::MAX,
        ensures
            final(self).ok_count == old(self).ok_count + 1,
            final(self).errors == old(self).errors,
            final(self).warnings == old(self).warnings,
            final(self).detailed == old(self).detailed,
            views(final(self).lines@) == after_ok(views(old(self).lines@), old(self).detailed, msg@),
    {
        self.ok_count = self.ok_count + 1;
        if self.detailed {
            let line = tagged("[OK]    ", msg);
            push_line(&mut self.lines, line);
        }
    }

    /// Counts a warning and records its line.
    pub fn warn(&mut self, msg: &[char])
        requires
            old(self).warnings < usize::MAX,
        ensures
            final(self).warnings == old(self).warnings + 1,
            final(self).errors == old(self).errors,
            final(self).ok_count == old(self).ok_count,
            final(self).detailed == old(self).detailed,
            views(final(self).lines@) == views(old(self).lines@).push("[WARN]  "@ + msg@),
    {
        self.warnings = self.warnings + 1;
        let line = tagged("[WARN]  ", msg);
        push_line(&mut self.lines, line);
    }

    /// Counts an error and records its line.
    pub fn error(&mut self, msg: &[char])
        requires
            old(self).errors < usize::MAX,
        ensures
            final(self).errors == old(self).errors + 1,
            final(self).warnings == old(self).warnings,
            final(self).ok_count == old(self).ok_count,
            final(self).detailed == old(self).detailed,
            views(final(self).lines@) == views(old(self).lines@).push("[ERROR] "@ + msg@),
    {
        self.errors = self.errors + 1;
        let line = tagged("[ERROR] ", msg);
        push_line(&mut self.lines, line);
    }

    /// The report text: a one-line success when nothing was found and the
    /// report is not detailed, else the header, the lines and the totals.
    pub fn finish(self, role_name: &[char]) -> (r: Vec<char>)
        requires
            self.ok_count + self.errors + self.warnings <= usize::MAX,
        ensures
            r@ == role_report_text(
                views(self.lines@),
                self.errors as nat,
                self.warnings as nat,
                self.ok_count as nat,
                self.detailed,
                role_name@,
            ),
    {
        let checks: usize = self.ok_count + self.errors + self.warnings;
        let checks_text = usize_text(checks);
        if self.errors == 0 && self.warnings == 0 && !self.detailed {
            let mut r = chars_of("=== Validation OK: Role.");
            push_chars(&mut r, role_name);
            push_str(&mut r, " (");
            push_chars(&mut r, &checks_text);
            push_str(&mut r, " checks) ===");
            return r;
        }
        let mut all: Vec<Vec<char>> = Vec::new();
        let header = wrap(&chars_of("=== Validation: Role."), "", role_name, " ===");
        push_line(&mut all, header);
        push_lines(&mut all, self.lines);
        push_line(&mut all, Vec::new());
        let mut total = chars_of("=== Result: ");
        push_chars(&mut total, &usize_text(self.errors));
        push_str(&mut total, " errors, ");
        push_chars(&mut total, &usize_text(self.warnings));
        push_str(&mut total, " warnings (");
        push_chars(&mut total, &checks_text);
        push_str(&mut total, " checks) ===");
        push_line(&mut all, total);
        proof {
            reveal_strlit("");
        }
        assert(views(all@) =~= seq!["=== Validation: Role."@ + role_name@ + " ==="@] + views(
            self.lines@,
        ) + seq![
            Seq::empty(),
            "=== Result: "@ + nat_text(self.errors as nat) + " errors, "@ + nat_text(
                self.warnings as nat,
            ) + " warnings ("@ + nat_text(checks as nat) + " checks) ==="@,
        ]);
        join_str(&all, "\n")
    }
}

} // verus!

verus! {

/// The names of the object kinds, told apart by their lengths and first
/// letters.
proof fn lemma_kind_names()
    ensures
        "Configuration"@.len() == 13,
        "Configuration"@[0] == 'C',
        "Configuration"@[1] == 'o',
        "Configuration"@[2] == 'n',
        "Catalog"@.len() == 7,
        "Catalog"@[0] == 'C',
        "Catalog"@[1] == 'a',
        "Catalog"@[2] == 't',
        "Document"@.len() == 8,
        "Document"@[0] == 'D',
        "Document"@[1] == 'o',
        "Document"@[2] == 'c',
        "InformationRegister"@.len() == 19,
        "InformationRegister"@[0] == 'I',
        "InformationRegister"@[1] == 'n',
        "InformationRegister"@[2] == 'f',
        "AccumulationRegister"@.len() == 20,
        "AccumulationRegister"@[0] == 'A',
        "AccumulationRegister"@[1] == 'c',
        "AccumulationRegister"@[2] == 'c',
        "AccountingRegister"@.len() == 18,
        "AccountingRegister"@[0] == 'A',
        "AccountingRegister"@[1] == 'c',
        "AccountingRegister"@[2] == 'c',
        "CalculationRegister"@.len() == 19,
        "CalculationRegister"@[0] == 'C',
        "CalculationRegister"@[1] == 'a',
        "CalculationRegister"@[2] == 'l',
        "Constant"@.len() == 8,
        "Constant"@[0] == 'C',
        "Constant"@[1] == 'o',
        "Constant"@[2] == 'n',
        "ChartOfAccounts"@.len() == 15,
        "ChartOfAccounts"@[0] == 'C',
        "ChartOfAccounts"@[1] == 'h',
        "ChartOfAccounts"@[2] == 'a',
        "ChartOfCharacteristicTypes"@.len() == 26,
        "ChartOfCharacteristicTypes"@[0] == 'C',
        "ChartOfCharacteristicTypes"@[1] == 'h',
        "ChartOfCharacteristicTypes"@[2] == 'a',
        "ChartOfCalculationTypes"@.len() == 23,
        "ChartOfCalculationTypes"@[0] == 'C',
        "ChartOfCalculationTypes"@[1] == 'h',
        "ChartOfCalculationTypes"@[2] == 'a',
        "ExchangePlan"@.len() == 12,
        "ExchangePlan"@[0] == 'E',
        "ExchangePlan"@[1] == 'x',
        "ExchangePlan"@[2] == 'c',
        "BusinessProcess"@.len() == 15,
        "BusinessProcess"@[0] == 'B',
        "BusinessProcess"@[1] == 'u',
        "BusinessProcess"@[2] == 's',
        "Task"@.len() == 4,
        "Task"@[0] == 'T',
        "Task"@[1] == 'a',
        "Task"@[2] == 's',
        "DataProcessor"@.len() == 13,
        "DataProcessor"@[0] == 'D',
        "DataProcessor"@[1] == 'a',
        "DataProcessor"@[2] == 't',
        "Report"@.len() == 6,
        "Report"@[0] == 'R',
        "Report"@[1] == 'e',
        "Report"@[2] == 'p',
        "CommonForm"@.len() == 10,
        "CommonForm"@[0] == 'C',
        "CommonForm"@[1] == 'o',
        "CommonForm"@[2] == 'm',
        "CommonCommand"@.len() == 13,
        "CommonCommand"@[0] == 'C',
        "CommonCommand"@[1] == 'o',
        "CommonCommand"@[2] == 'm',
        "Subsystem"@.len() == 9,
        "Subsystem"@[0] == 'S',
        "Subsystem"@[1] == 'u',
        "Subsystem"@[2] == 'b',
        "FilterCriterion"@.len() == 15,
        "FilterCriterion"@[0] == 'F',
        "FilterCriterion"@[1] == 'i',
        "FilterCriterion"@[2] == 'l',
        "DocumentJournal"@.len() == 15,
        "DocumentJournal"@[0] == 'D',
        "DocumentJournal"@[1] == 'o',
        "DocumentJournal"@[2] == 'c',
        "Sequence"@.len() == 8,
        "Sequence"@[0] == 'S',
        "Sequence"@[1] == 'e',
        "Sequence"@[2] == 'q',
        "WebService"@.len() == 10,
        "WebService"@[0] == 'W',
        "WebService"@[1] == 'e',
        "WebService"@[2] == 'b',
        "HTTPService"@.len() == 11,
        "HTTPService"@[0] == 'H',
        "HTTPService"@[1] == 'T',
        "HTTPService"@[2] == 'T',
        "IntegrationService"@.len() == 18,
        "IntegrationService"@[0] == 'I',
        "IntegrationService"@[1] == 'n',
        "IntegrationService"@[2] == 't',
        "SessionParameter"@.len() == 16,
        "SessionParameter"@[0] == 'S',
        "SessionParameter"@[1] == 'e',
        "SessionParameter"@[2] == 's',
        "CommonAttribute"@.len() == 15,
        "CommonAttribute"@[0] == 'C',
        "CommonAttribute"@[1] == 'o',
        "CommonAttribute"@[2] == 'm',
{
    reveal_strlit("Configuration");
    reveal_strlit("Catalog");
    reveal_strlit("Document");
    reveal_strlit("InformationRegister");
    reveal_strlit("AccumulationRegister");
    reveal_strlit("AccountingRegister");
    reveal_strlit("CalculationRegister");
    reveal_strlit("Constant");
    reveal_strlit("ChartOfAccounts");
    reveal_strlit("ChartOfCharacteristicTypes");
    reveal_strlit("ChartOfCalculationTypes");
    reveal_strlit("ExchangePlan");
    reveal_strlit("BusinessProcess");
    reveal_strlit("Task");
    reveal_strlit("DataProcessor");
    reveal_strlit("Report");
    reveal_strlit("CommonForm");
    reveal_strlit("CommonCommand");
    reveal_strlit("Subsystem");
    reveal_strlit("FilterCriterion");
    reveal_strlit("DocumentJournal");
    reveal_strlit("Sequence");
    reveal_strlit("WebService");
    reveal_strlit("HTTPService");
    reveal_strlit("IntegrationService");
    reveal_strlit("SessionParameter");
    reveal_strlit("CommonAttribute");
}

/// Each right of one preset group is known for each kind of the group.
proof fn lemma_view_reference_known(t: Seq<char>)
    requires
        crate::text::is_one_of(t, view_reference_kinds()),
    ensures
        forall|j: int| 0 <= j < view_reference_rights().len() ==> known_rights(t).contains(#[trigger] view_reference_rights()[j]),
{
    broadcast use vstd::seq_lib::group_seq_properties;
    lemma_kind_names();
}

/// Each right of one preset group is known for each kind of the group.
proof fn lemma_view_register_known(t: Seq<char>)
    requires
        crate::text::is_one_of(t, view_register_kinds()),
    ensures
        forall|j: int| 0 <= j < view_register_rights().len() ==> known_rights(t).contains(#[trigger] view_register_rights()[j]),
{
    broadcast use vstd::seq_lib::group_seq_properties;
    lemma_kind_names();
}

/// Each right of one preset group is known for each kind of the group.
proof fn lemma_view_interface_known(t: Seq<char>)
    requires
        crate::text::is_one_of(t, view_interface_kinds()),
    ensures
        forall|j: int| 0 <= j < view_interface_rights().len() ==> known_rights(t).contains(#[trigger] view_interface_rights()[j]),
{
    broadcast use vstd::seq_lib::group_seq_properties;
    lemma_kind_names();
}

/// Each right of one preset group is known for each kind of the group.
proof fn lemma_view_processor_known(t: Seq<char>)
    requires
        crate::text::is_one_of(t, view_processor_kinds()),
    ensures
        forall|j: int| 0 <= j < view_processor_rights().len() ==> known_rights(t).contains(#[trigger] view_processor_rights()[j]),
{
    broadcast use vstd::seq_lib::group_seq_properties;
    lemma_kind_names();
}

/// Each right of one preset group is known for each kind of the group.
proof fn lemma_view_configuration_known(t: Seq<char>)
    requires
        crate::text::is_one_of(t, view_configuration_kinds()),
    ensures
        forall|j: int| 0 <= j < view_configuration_rights().len() ==> known_rights(t).contains(#[trigger] view_configuration_rights()[j]),
{
    broadcast use vstd::seq_lib::group_seq_properties;
    lemma_kind_names();
}

/// Each right of one preset group is known for each kind of the group.
proof fn lemma_edit_reference_known(t: Seq<char>)
    requires
        crate::text::is_one_of(t, edit_reference_kinds()),
    ensures
        forall|j: int| 0 <= j < edit_reference_rights().len() ==> known_rights(t).contains(#[trigger] edit_reference_rights()[j]),
{
    broadcast use vstd::seq_lib::group_seq_properties;
    lemma_kind_names();
}

/// Each right of one preset group is known for each kind of the group.
proof fn lemma_edit_document_known(t: Seq<char>)
    requires
        crate::text::is_one_of(t, edit_document_kinds()),
    ensures
        forall|j: int| 0 <= j < edit_document_rights().len() ==> known_rights(t).contains(#[trigger] edit_document_rights()[j]),
{
    broadcast use vstd::seq_lib::group_seq_properties;
    lemma_kind_names();
}

/// Each right of one preset group is known for each kind of the group.
proof fn lemma_edit_register_known(t: Seq<char>)
    requires
        crate::text::is_one_of(t, edit_register_kinds()),
    ensures
        forall|j: int| 0 <= j < edit_register_rights().len() ==> known_rights(t).contains(#[trigger] edit_register_rights()[j]),
{
    broadcast use vstd::seq_lib::group_seq_properties;
    lemma_kind_names();
}

/// Each right of one preset group is known for each kind of the group.
proof fn lemma_edit_session_parameter_known(t: Seq<char>)
    requires
        crate::text::is_one_of(t, edit_session_parameter_kinds()),
    ensures
        forall|j: int| 0 <= j < edit_session_parameter_rights().len() ==> known_rights(t).contains(#[trigger] edit_session_parameter_rights()[j]),
{
    broadcast use vstd::seq_lib::group_seq_properties;
    lemma_kind_names();
}

/// Each right of one preset group is known for each kind of the group.
proof fn lemma_edit_common_attribute_known(t: Seq<char>)
    requires
        crate::text::is_one_of(t, edit_common_attribute_kinds()),
    ensures
        forall|j: int| 0 <= j < edit_common_attribute_rights().len() ==> known_rights(t).contains(#[trigger] edit_common_attribute_rights()[j]),
{
    broadcast use vstd::seq_lib::group_seq_properties;
    lemma_kind_names();
}

/// Each right of one preset group is known for each kind of the group.
proof fn lemma_view_session_parameter_known(t: Seq<char>)
    requires
        crate::text::is_one_of(t, view_session_parameter_kinds()),
    ensures
        forall|j: int| 0 <= j < view_session_parameter_rights().len() ==> known_rights(t).contains(#[trigger] view_session_parameter_rights()[j]),
{
    broadcast use vstd::seq_lib::group_seq_properties;
    lemma_kind_names();
}

/// Each right of one preset group is known for each kind of the group.
proof fn lemma_view_common_attribute_known(t: Seq<char>)
    requires
        crate::text::is_one_of(t, view_common_attribute_kinds()),
    ensures
        forall|j: int| 0 <= j < view_common_attribute_rights().len() ==> known_rights(t).contains(#[trigger] view_common_attribute_rights()[j]),
{
    broadcast use vstd::seq_lib::group_seq_properties;
    lemma_kind_names();
}

/// Each right of one preset group is known for each kind of the group.
proof fn lemma_view_sequence_known(t: Seq<char>)
    requires
        crate::text::is_one_of(t, view_sequence_kinds()),
    ensures
        forall|j: int| 0 <= j < view_sequence_rights().len() ==> known_rights(t).contains(#[trigger] view_sequence_rights()[j]),
{
    broadcast use vstd::seq_lib::group_seq_properties;
    lemma_kind_names();
}

/// Each right of one preset group is known for each kind of the group.
proof fn lemma_edit_sequence_known(t: Seq<char>)
    requires
        crate::text::is_one_of(t, edit_sequence_kinds()),
    ensures
        forall|j: int| 0 <= j < edit_sequence_rights().len() ==> known_rights(t).contains(#[trigger] edit_sequence_rights()[j]),
{
    broadcast use vstd::seq_lib::group_seq_properties;
    lemma_kind_names();
}

/// Each right of one preset group is known for each kind of the group.
proof fn lemma_edit_document_journal_known(t: Seq<char>)
    requires
        crate::text::is_one_of(t, edit_document_journal_kinds()),
    ensures
        forall|j: int| 0 <= j < edit_document_journal_rights().len() ==> known_rights(t).contains(#[trigger] edit_document_journal_rights()[j]),
{
    broadcast use vstd::seq_lib::group_seq_properties;
    lemma_kind_names();
}

/// A preset grants, for an object kind, only rights that the check of rights
/// files knows for that kind.
pub proof fn law_presets_grant_known_rights(preset: Seq<char>, object_type: Seq<char>)
    requires
        preset_rights(preset, object_type) is Some,
    ensures
        forall|j: int|
            0 <= j < preset_rights(preset, object_type).unwrap().len() ==> known_rights(object_type).contains(
                #[trigger] preset_rights(preset, object_type).unwrap()[j],
            ),
{
    if preset == "view"@ && crate::text::is_one_of(object_type, view_reference_kinds()) {
        lemma_view_reference_known(object_type);
    } else if preset == "view"@ && crate::text::is_one_of(object_type, view_register_kinds()) {
        lemma_view_register_known(object_type);
    } else if preset == "view"@ && crate::text::is_one_of(object_type, view_interface_kinds()) {
        lemma_view_interface_known(object_type);
    } else if preset == "view"@ && crate::text::is_one_of(object_type, view_processor_kinds()) {
        lemma_view_processor_known(object_type);
    } else if preset == "view"@ && crate::text::is_one_of(object_type, view_configuration_kinds()) {
        lemma_view_configuration_known(object_type);
    } else if preset == "edit"@ && crate::text::is_one_of(object_type, edit_reference_kinds()) {
        lemma_edit_reference_known(object_type);
    } else if preset == "edit"@ && crate::text::is_one_of(object_type, edit_document_kinds()) {
        lemma_edit_document_known(object_type);
    } else if preset == "edit"@ && crate::text::is_one_of(object_type, edit_register_kinds()) {
        lemma_edit_register_known(object_type);
    } else if preset == "edit"@ && crate::text::is_one_of(object_type, edit_session_parameter_kinds()) {
        lemma_edit_session_parameter_known(object_type);
    } else if preset == "edit"@ && crate::text::is_one_of(object_type, edit_common_attribute_kinds()) {
        lemma_edit_common_attribute_known(object_type);
    } else if preset == "view"@ && crate::text::is_one_of(object_type, view_session_parameter_kinds()) {
        lemma_view_session_parameter_known(object_type);
    } else if preset == "view"@ && crate::text::is_one_of(object_type, view_common_attribute_kinds()) {
        lemma_view_common_attribute_known(object_type);
    } else if preset == "view"@ && crate::text::is_one_of(object_type, view_sequence_kinds()) {
        lemma_view_sequence_known(object_type);
    } else if preset == "edit"@ && crate::text::is_one_of(object_type, edit_sequence_kinds()) {
        lemma_edit_sequence_known(object_type);
    } else if preset == "edit"@ && crate::text::is_one_of(object_type, edit_document_journal_kinds()) {
        lemma_edit_document_journal_known(object_type);
    }
}

} // verus!
