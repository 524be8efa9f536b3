//! Subsystems: the references to objects they hold, the check of a subsystem
//! file, and the files written for a new subsystem.
use vstd::prelude::*;
use crate::findings::{CheckReport, Finding, checks_text, clean, failures, finding_lines, totals_line, passed, warnings};
use crate::numbers::{nat_text, usize_text};
use crate::skd_fragments::{push_line, wrap, wrap_escaped};
use crate::external::{lowercase_of, to_lowercase};
use crate::text::{contains, escape_xml, chars_of, eq_str, join, join_str, lit_views, push_chars, push_str, split_once, split_once_str, starts_with, to_vec, trim, trim_chars, views, is_one_of_exec, lemma_filter_take_step, lemma_filter_empty};
use crate::xml::{XmlElement, XmlNode, attribute_local, attribute_value, child, child_index, child_text_of, is_named, named_pred, text_of, attribute, attribute_by_local_name, child_named, child_text, children_named, text_or_empty, xml_parse_error, xml_tree};
use crate::metadata::{duplicates, duplicates_preserve_order, is_1c_identifier, is_1c_name, is_uuid, is_valid_uuid};
use crate::skd_apply::{replace_first, replace_first_exec, without_boms};

verus! {

/// The spellings of object kinds that a subsystem's content may use: the English
/// plurals and the Russian singular and plural names.
pub open spec fn content_type_keys() -> Seq<Seq<char>> {
    seq![
        "Catalogs"@, "Справочник"@, "Каталог"@, "Справочники"@,
        "Documents"@, "Документ"@, "Документы"@, "Enums"@,
        "Перечисление"@, "Перечисления"@, "Constants"@, "Константа"@,
        "Константы"@, "Reports"@, "Отчёт"@, "Отчет"@,
        "Отчёты"@, "Отчеты"@, "DataProcessors"@, "Обработка"@,
        "Обработки"@, "InformationRegisters"@, "РегистрСведений"@, "РегистрыСведений"@,
        "AccumulationRegisters"@, "РегистрНакопления"@, "РегистрыНакопления"@, "AccountingRegisters"@,
        "РегистрБухгалтерии"@, "РегистрыБухгалтерии"@, "CalculationRegisters"@, "РегистрРасчёта"@,
        "РегистрРасчета"@, "РегистрыРасчёта"@, "РегистрыРасчета"@, "ChartsOfAccounts"@,
        "ПланСчетов"@, "ПланыСчетов"@, "ChartsOfCharacteristicTypes"@, "ПланВидовХарактеристик"@,
        "ПланыВидовХарактеристик"@, "ChartsOfCalculationTypes"@, "ПланВидовРасчёта"@, "ПланВидовРасчета"@,
        "ПланыВидовРасчёта"@, "ПланыВидовРасчета"@, "BusinessProcesses"@, "БизнесПроцесс"@,
        "БизнесПроцессы"@, "Tasks"@, "Задача"@, "Задачи"@,
        "ExchangePlans"@, "ПланОбмена"@, "ПланыОбмена"@, "DocumentJournals"@,
        "ЖурналДокументов"@, "ЖурналыДокументов"@, "CommonModules"@, "ОбщийМодуль"@,
        "ОбщиеМодули"@, "CommonCommands"@, "ОбщаяКоманда"@, "ОбщиеКоманды"@,
        "CommonForms"@, "ОбщаяФорма"@, "ОбщиеФормы"@, "CommonPictures"@,
        "ОбщаяКартинка"@, "ОбщиеКартинки"@, "CommonTemplates"@, "ОбщийМакет"@,
        "ОбщиеМакеты"@, "CommonAttributes"@, "ОбщийРеквизит"@, "ОбщиеРеквизиты"@,
        "CommandGroups"@, "ГруппаКоманд"@, "ГруппыКоманд"@, "Roles"@,
        "Роль"@, "Роли"@, "SessionParameters"@, "ПараметрСеанса"@,
        "ПараметрыСеанса"@, "FilterCriteria"@, "КритерийОтбора"@, "КритерииОтбора"@,
        "XDTOPackages"@, "ПакетXDTO"@, "ПакетыXDTO"@, "WebServices"@,
        "ВебСервис"@, "ВебСервисы"@, "HTTPServices"@, "HTTPСервис"@,
        "HTTPСервисы"@, "WSReferences"@, "WSСсылка"@, "WSСсылки"@,
        "EventSubscriptions"@, "ПодпискаНаСобытие"@, "ПодпискиНаСобытия"@, "ScheduledJobs"@,
        "РегламентноеЗадание"@, "РегламентныеЗадания"@, "SettingsStorages"@, "ХранилищеНастроек"@,
        "ХранилищаНастроек"@, "FunctionalOptions"@, "ФункциональнаяОпция"@, "ФункциональныеОпции"@,
        "FunctionalOptionsParameters"@, "ПараметрФункциональныхОпций"@, "DefinedTypes"@, "ОпределяемыйТип"@,
        "ОпределяемыеТипы"@, "DocumentNumerators"@, "НумераторДокументов"@, "Sequences"@,
        "Последовательность"@, "Subsystems"@, "Подсистема"@, "Подсистемы"@,
        "StyleItems"@, "ЭлементСтиля"@, "ЭлементыСтиля"@, "IntegrationServices"@,
        "СервисИнтеграции"@, "СервисыИнтеграции"@,
    ]
}

/// The singular English kind for each spelling of `content_type_keys`.
pub open spec fn content_type_values() -> Seq<Seq<char>> {
    seq![
        "Catalog"@, "Catalog"@, "Catalog"@, "Catalog"@,
        "Document"@, "Document"@, "Document"@, "Enum"@,
        "Enum"@, "Enum"@, "Constant"@, "Constant"@,
        "Constant"@, "Report"@, "Report"@, "Report"@,
        "Report"@, "Report"@, "DataProcessor"@, "DataProcessor"@,
        "DataProcessor"@, "InformationRegister"@, "InformationRegister"@, "InformationRegister"@,
        "AccumulationRegister"@, "AccumulationRegister"@, "AccumulationRegister"@, "AccountingRegister"@,
        "AccountingRegister"@, "AccountingRegister"@, "CalculationRegister"@, "CalculationRegister"@,
        "CalculationRegister"@, "CalculationRegister"@, "CalculationRegister"@, "ChartOfAccounts"@,
        "ChartOfAccounts"@, "ChartOfAccounts"@, "ChartOfCharacteristicTypes"@, "ChartOfCharacteristicTypes"@,
        "ChartOfCharacteristicTypes"@, "ChartOfCalculationTypes"@, "ChartOfCalculationTypes"@, "ChartOfCalculationTypes"@,
        "ChartOfCalculationTypes"@, "ChartOfCalculationTypes"@, "BusinessProcess"@, "BusinessProcess"@,
        "BusinessProcess"@, "Task"@, "Task"@, "Task"@,
        "ExchangePlan"@, "ExchangePlan"@, "ExchangePlan"@, "DocumentJournal"@,
        "DocumentJournal"@, "DocumentJournal"@, "CommonModule"@, "CommonModule"@,
        "CommonModule"@, "CommonCommand"@, "CommonCommand"@, "CommonCommand"@,
        "CommonForm"@, "CommonForm"@, "CommonForm"@, "CommonPicture"@,
        "CommonPicture"@, "CommonPicture"@, "CommonTemplate"@, "CommonTemplate"@,
        "CommonTemplate"@, "CommonAttribute"@, "CommonAttribute"@, "CommonAttribute"@,
        "CommandGroup"@, "CommandGroup"@, "CommandGroup"@, "Role"@,
        "Role"@, "Role"@, "SessionParameter"@, "SessionParameter"@,
        "SessionParameter"@, "FilterCriterion"@, "FilterCriterion"@, "FilterCriterion"@,
        "XDTOPackage"@, "XDTOPackage"@, "XDTOPackage"@, "WebService"@,
        "WebService"@, "WebService"@, "HTTPService"@, "HTTPService"@,
        "HTTPService"@, "WSReference"@, "WSReference"@, "WSReference"@,
        "EventSubscription"@, "EventSubscription"@, "EventSubscription"@, "ScheduledJob"@,
        "ScheduledJob"@, "ScheduledJob"@, "SettingsStorage"@, "SettingsStorage"@,
        "SettingsStorage"@, "FunctionalOption"@, "FunctionalOption"@, "FunctionalOption"@,
        "FunctionalOptionsParameter"@, "FunctionalOptionsParameter"@, "DefinedType"@, "DefinedType"@,
        "DefinedType"@, "DocumentNumerator"@, "DocumentNumerator"@, "Sequence"@,
        "Sequence"@, "Subsystem"@, "Subsystem"@, "Subsystem"@,
        "StyleItem"@, "StyleItem"@, "StyleItem"@, "IntegrationService"@,
        "IntegrationService"@, "IntegrationService"@,
    ]
}

/// The value paired with the first key from `i` on that equals `name`.
pub open spec fn lookup_opt(name: Seq<char>, keys: Seq<Seq<char>>, vals: Seq<Seq<char>>, i: int) -> Option<Seq<char>>
    decreases keys.len() - i,
{
    if i < 0 || i >= keys.len() {
        None
    } else if keys[i] == name {
        Some(vals[i])
    } else {
        lookup_opt(name, keys, vals, i + 1)
    }
}

/// The singular English kind a spelling stands for, if it is a known one.
pub open spec fn content_type(type_part: Seq<char>) -> Option<Seq<char>> {
    lookup_opt(type_part, content_type_keys(), content_type_values(), 0)
}

/// The singular English kind for a plural or Russian spelling of an object kind.
pub fn subsystem_content_type(type_part: &[char]) -> (r: Option<&'static str>)
    ensures
        match content_type(type_part@) {
            Some(v) => r matches Some(s) && s@ == v,
            None => r is None,
        },
{
    let keys: &'static [&'static str] = &[
        "Catalogs", "Справочник", "Каталог", "Справочники",
        "Documents", "Документ", "Документы", "Enums",
        "Перечисление", "Перечисления", "Constants", "Константа",
        "Константы", "Reports", "Отчёт", "Отчет",
        "Отчёты", "Отчеты", "DataProcessors", "Обработка",
        "Обработки", "InformationRegisters", "РегистрСведений", "РегистрыСведений",
        "AccumulationRegisters", "РегистрНакопления", "РегистрыНакопления", "AccountingRegisters",
        "РегистрБухгалтерии", "РегистрыБухгалтерии", "CalculationRegisters", "РегистрРасчёта",
        "РегистрРасчета", "РегистрыРасчёта", "РегистрыРасчета", "ChartsOfAccounts",
        "ПланСчетов", "ПланыСчетов", "ChartsOfCharacteristicTypes", "ПланВидовХарактеристик",
        "ПланыВидовХарактеристик", "ChartsOfCalculationTypes", "ПланВидовРасчёта", "ПланВидовРасчета",
        "ПланыВидовРасчёта", "ПланыВидовРасчета", "BusinessProcesses", "БизнесПроцесс",
        "БизнесПроцессы", "Tasks", "Задача", "Задачи",
        "ExchangePlans", "ПланОбмена", "ПланыОбмена", "DocumentJournals",
        "ЖурналДокументов", "ЖурналыДокументов", "CommonModules", "ОбщийМодуль",
        "ОбщиеМодули", "CommonCommands", "ОбщаяКоманда", "ОбщиеКоманды",
        "CommonForms", "ОбщаяФорма", "ОбщиеФормы", "CommonPictures",
        "ОбщаяКартинка", "ОбщиеКартинки", "CommonTemplates", "ОбщийМакет",
        "ОбщиеМакеты", "CommonAttributes", "ОбщийРеквизит", "ОбщиеРеквизиты",
        "CommandGroups", "ГруппаКоманд", "ГруппыКоманд", "Roles",
        "Роль", "Роли", "SessionParameters", "ПараметрСеанса",
        "ПараметрыСеанса", "FilterCriteria", "КритерийОтбора", "КритерииОтбора",
        "XDTOPackages", "ПакетXDTO", "ПакетыXDTO", "WebServices",
        "ВебСервис", "ВебСервисы", "HTTPServices", "HTTPСервис",
        "HTTPСервисы", "WSReferences", "WSСсылка", "WSСсылки",
        "EventSubscriptions", "ПодпискаНаСобытие", "ПодпискиНаСобытия", "ScheduledJobs",
        "РегламентноеЗадание", "РегламентныеЗадания", "SettingsStorages", "ХранилищеНастроек",
        "ХранилищаНастроек", "FunctionalOptions", "ФункциональнаяОпция", "ФункциональныеОпции",
        "FunctionalOptionsParameters", "ПараметрФункциональныхОпций", "DefinedTypes", "ОпределяемыйТип",
        "ОпределяемыеТипы", "DocumentNumerators", "НумераторДокументов", "Sequences",
        "Последовательность", "Subsystems", "Подсистема", "Подсистемы",
        "StyleItems", "ЭлементСтиля", "ЭлементыСтиля", "IntegrationServices",
        "СервисИнтеграции", "СервисыИнтеграции",
    ];
    let vals: &'static [&'static str] = &[
        "Catalog", "Catalog", "Catalog", "Catalog",
        "Document", "Document", "Document", "Enum",
        "Enum", "Enum", "Constant", "Constant",
        "Constant", "Report", "Report", "Report",
        "Report", "Report", "DataProcessor", "DataProcessor",
        "DataProcessor", "InformationRegister", "InformationRegister", "InformationRegister",
        "AccumulationRegister", "AccumulationRegister", "AccumulationRegister", "AccountingRegister",
        "AccountingRegister", "AccountingRegister", "CalculationRegister", "CalculationRegister",
        "CalculationRegister", "CalculationRegister", "CalculationRegister", "ChartOfAccounts",
        "ChartOfAccounts", "ChartOfAccounts", "ChartOfCharacteristicTypes", "ChartOfCharacteristicTypes",
        "ChartOfCharacteristicTypes", "ChartOfCalculationTypes", "ChartOfCalculationTypes", "ChartOfCalculationTypes",
        "ChartOfCalculationTypes", "ChartOfCalculationTypes", "BusinessProcess", "BusinessProcess",
        "BusinessProcess", "Task", "Task", "Task",
        "ExchangePlan", "ExchangePlan", "ExchangePlan", "DocumentJournal",
        "DocumentJournal", "DocumentJournal", "CommonModule", "CommonModule",
        "CommonModule", "CommonCommand", "CommonCommand", "CommonCommand",
        "CommonForm", "CommonForm", "CommonForm", "CommonPicture",
        "CommonPicture", "CommonPicture", "CommonTemplate", "CommonTemplate",
        "CommonTemplate", "CommonAttribute", "CommonAttribute", "CommonAttribute",
        "CommandGroup", "CommandGroup", "CommandGroup", "Role",
        "Role", "Role", "SessionParameter", "SessionParameter",
        "SessionParameter", "FilterCriterion", "FilterCriterion", "FilterCriterion",
        "XDTOPackage", "XDTOPackage", "XDTOPackage", "WebService",
        "WebService", "WebService", "HTTPService", "HTTPService",
        "HTTPService", "WSReference", "WSReference", "WSReference",
        "EventSubscription", "EventSubscription", "EventSubscription", "ScheduledJob",
        "ScheduledJob", "ScheduledJob", "SettingsStorage", "SettingsStorage",
        "SettingsStorage", "FunctionalOption", "FunctionalOption", "FunctionalOption",
        "FunctionalOptionsParameter", "FunctionalOptionsParameter", "DefinedType", "DefinedType",
        "DefinedType", "DocumentNumerator", "DocumentNumerator", "Sequence",
        "Sequence", "Subsystem", "Subsystem", "Subsystem",
        "StyleItem", "StyleItem", "StyleItem", "IntegrationService",
        "IntegrationService", "IntegrationService",
    ];
    assert(lit_views(keys@) =~= content_type_keys());
    assert(lit_views(vals@) =~= content_type_values());
    let mut i: usize = 0;
    while i < keys.len()
        invariant
            i <= keys.len(),
            keys@.len() == vals@.len(),
            lit_views(keys@) == content_type_keys(),
            lit_views(vals@) == content_type_values(),
            content_type(type_part@) == lookup_opt(type_part@, content_type_keys(), content_type_values(), i as int),
        decreases keys.len() - i,
    {
        if eq_str(type_part, keys[i]) {
            return Some(vals[i]);
        }
        i = i + 1;
    }
    None
}

/// A content reference with its kind in singular English: the part before the
/// first `.` is replaced where it is a known spelling.
pub open spec fn normalized_content_ref(raw: Seq<char>) -> Seq<char> {
    match split_once(raw, "."@) {
        Some((type_part, name_part)) => match content_type(type_part) {
            Some(t) => t + "."@ + name_part,
            None => type_part + "."@ + name_part,
        },
        None => raw,
    }
}

/// Writes the kind of a content reference in singular English
/// (`Catalogs.Goods` and `Справочник.Goods` give `Catalog.Goods`).
pub fn normalize_subsystem_content_ref(raw: &[char]) -> (r: Vec<char>)
    ensures
        r@ == normalized_content_ref(raw@),
{
    match split_once_str(raw, ".") {
        Some((type_part, name_part)) => {
            let mut r = match subsystem_content_type(&type_part) {
                Some(t) => chars_of(t),
                None => type_part,
            };
            push_str(&mut r, ".");
            push_chars(&mut r, &name_part);
            r
        },
        None => to_vec(raw),
    }
}

/// The plural English kinds, which content references may not use.
pub open spec fn plural_types() -> Seq<Seq<char>> {
    seq![
        "Catalogs"@, "Documents"@, "Enums"@, "Constants"@,
        "Reports"@, "DataProcessors"@, "InformationRegisters"@, "AccumulationRegisters"@,
        "AccountingRegisters"@, "CalculationRegisters"@, "ChartsOfAccounts"@, "ChartsOfCharacteristicTypes"@,
        "ChartsOfCalculationTypes"@, "BusinessProcesses"@, "Tasks"@, "ExchangePlans"@,
        "DocumentJournals"@, "CommonModules"@, "CommonCommands"@, "CommonForms"@,
        "CommonPictures"@, "CommonTemplates"@, "CommonAttributes"@, "CommandGroups"@,
        "Roles"@, "SessionParameters"@, "FilterCriteria"@, "XDTOPackages"@,
        "WebServices"@, "HTTPServices"@, "WSReferences"@, "EventSubscriptions"@,
        "ScheduledJobs"@, "SettingsStorages"@, "FunctionalOptions"@, "FunctionalOptionsParameters"@,
        "DefinedTypes"@, "DocumentNumerators"@, "Sequences"@, "Subsystems"@,
        "StyleItems"@, "IntegrationServices"@,
    ]
}

/// The plural English kinds of objects.
pub fn subsystem_known_plural_types() -> (r: &'static [&'static str])
    ensures
        lit_views(r@) == plural_types(),
{
    let r: &'static [&'static str] = &[
        "Catalogs", "Documents", "Enums", "Constants",
        "Reports", "DataProcessors", "InformationRegisters", "AccumulationRegisters",
        "AccountingRegisters", "CalculationRegisters", "ChartsOfAccounts", "ChartsOfCharacteristicTypes",
        "ChartsOfCalculationTypes", "BusinessProcesses", "Tasks", "ExchangePlans",
        "DocumentJournals", "CommonModules", "CommonCommands", "CommonForms",
        "CommonPictures", "CommonTemplates", "CommonAttributes", "CommandGroups",
        "Roles", "SessionParameters", "FilterCriteria", "XDTOPackages",
        "WebServices", "HTTPServices", "WSReferences", "EventSubscriptions",
        "ScheduledJobs", "SettingsStorages", "FunctionalOptions", "FunctionalOptionsParameters",
        "DefinedTypes", "DocumentNumerators", "Sequences", "Subsystems",
        "StyleItems", "IntegrationServices",
    ];
    assert(lit_views(r@) =~= plural_types());
    r
}

/// A Latin letter.
pub open spec fn is_ascii_letter(c: char) -> bool {
    ('A' <= c && c <= 'Z') || ('a' <= c && c <= 'z')
}

/// A reference to an object by kind and name: Latin letters, a `.`, and a name.
pub open spec fn is_content_ref(t: Seq<char>) -> bool {
    match split_once(t, "."@) {
        Some((kind, name)) => kind.len() > 0 && (forall|i: int|
            0 <= i < kind.len() ==> is_ascii_letter(#[trigger] kind[i])) && is_1c_name(name),
        None => false,
    }
}

/// Whether a text is a reference to an object by kind and name.
pub fn is_subsystem_content_ref(t: &[char]) -> (b: bool)
    ensures
        b == is_content_ref(t@),
{
    match split_once_str(t, ".") {
        Some((kind, name)) => {
            assert(split_once(t@, "."@) == Some((kind@, name@)));
            if kind.len() == 0 {
                return false;
            }
            let mut i: usize = 0;
            while i < kind.len()
                invariant
                    i <= kind@.len(),
                    split_once(t@, "."@) == Some((kind@, name@)),
                    forall|k: int| 0 <= k < i ==> is_ascii_letter(#[trigger] kind@[k]),
                decreases kind.len() - i,
            {
                let c = kind[i];
                if !(('A' <= c && c <= 'Z') || ('a' <= c && c <= 'z')) {
                    assert(!is_ascii_letter(kind@[i as int]));
                    return false;
                }
                i = i + 1;
            }
            is_1c_identifier(&name)
        },
        None => false,
    }
}

/// The namespace of metadata objects.
pub open spec fn md() -> Option<Seq<char>> {
    Some("http://v8.1c.ru/8.3/MDClasses"@)
}

pub open spec fn or_empty(t: Option<Seq<char>>) -> Seq<char> {
    match t {
        Some(v) => v,
        None => Seq::empty(),
    }
}

/// The properties every subsystem has.
pub open spec fn required_properties() -> Seq<Seq<char>> {
    seq![
        "Name"@, "Synonym"@, "Comment"@, "IncludeHelpInContents"@, "IncludeInCommandInterface"@,
        "UseOneCommand"@, "Explanation"@, "Picture"@, "Content"@,
    ]
}

/// The test for a property that `props` lacks.
pub open spec fn lacks(props: XmlNode) -> spec_fn(Seq<char>) -> bool {
    |p: Seq<char>| child_named(props, p, md()) is None
}

/// The required properties that `props` lacks.
pub open spec fn missing_properties(props: XmlNode) -> Seq<Seq<char>> {
    required_properties().filter(lacks(props))
}

/// The text of the first `content` child of the first language item that has
/// a non-empty one, from the `i`-th item on.
pub open spec fn first_content(items: Seq<XmlNode>, i: int) -> Seq<char>
    decreases items.len() - i,
{
    if i < 0 || i >= items.len() {
        Seq::empty()
    } else if child_text(items[i], "content"@, None).len() > 0 {
        child_text(items[i], "content"@, None)
    } else {
        first_content(items, i + 1)
    }
}

/// Check 4: the synonym has language items.
#[verifier::opaque]
pub open spec fn synonym_findings(props: XmlNode) -> Seq<Finding> {
    match child_named(props, "Synonym"@, md()) {
        Some(syn) => {
            let items = children_named(syn, "item"@, None);
            if items.len() > 0 {
                seq![
                    Finding::Passed(
                        "4. Synonym: \""@ + first_content(items, 0) + "\" ("@ + nat_text(items.len())
                            + " lang(s))"@,
                    ),
                ]
            } else {
                seq![Finding::Warning("4. Synonym: element exists but no v8:item children"@)]
            }
        },
        None => seq![Finding::Warning("4. Synonym: empty or missing"@)],
    }
}

/// The trimmed text of a property, where it is present.
pub open spec fn property_value(props: XmlNode, prop: Seq<char>) -> Option<Seq<char>> {
    match child_named(props, prop, md()) {
        Some(n) => Some(trim(text_or_empty(n))),
        None => None,
    }
}

/// The flag properties of a subsystem.
pub open spec fn flag_properties() -> Seq<Seq<char>> {
    seq!["IncludeHelpInContents"@, "IncludeInCommandInterface"@, "UseOneCommand"@]
}

/// The error for a flag property that is present and neither `true` nor `false`.
pub open spec fn flag_findings(props: XmlNode, prop: Seq<char>) -> Seq<Finding> {
    match property_value(props, prop) {
        Some(v) => if v != "true"@ && v != "false"@ {
            seq![
                Finding::Failure(
                    "5. Boolean property "@ + prop + " = \""@ + v + "\" (expected true/false)"@,
                ),
            ]
        } else {
            Seq::empty()
        },
        None => Seq::empty(),
    }
}

/// Check 5: the flags are `true` or `false`.
#[verifier::opaque]
pub open spec fn flags_findings(props: XmlNode) -> Seq<Finding> {
    let bad = flag_findings(props, "IncludeHelpInContents"@) + flag_findings(props, "IncludeInCommandInterface"@)
        + flag_findings(props, "UseOneCommand"@);
    if bad.len() == 0 {
        seq![Finding::Passed("5. Boolean properties: valid"@)]
    } else {
        bad
    }
}

/// The items of the content of a subsystem.
pub open spec fn content_items(props: XmlNode) -> Seq<XmlNode> {
    match child_named(props, "Content"@, md()) {
        Some(c) => children_named(c, "Item"@, None),
        None => Seq::empty(),
    }
}

/// The trimmed text of an element.
pub open spec fn trimmed_text(n: XmlNode) -> Seq<char> {
    trim(text_or_empty(n))
}

/// The errors for one content item: its type, its shape, a plural kind.
pub open spec fn content_item_findings(item: XmlNode) -> Seq<Finding> {
    let t = trimmed_text(item);
    let ty = or_empty(attribute_by_local_name(item, "type"@));
    (if ty != "xr:MDObjectRef"@ {
        seq![
            Finding::Failure(
                "6. Content item \""@ + t + "\": xsi:type=\""@ + ty + "\" (expected xr:MDObjectRef)"@,
            ),
        ]
    } else {
        Seq::empty()
    }) + (if !is_content_ref(t) && !is_uuid(t) {
        seq![Finding::Failure("6. Content item \""@ + t + "\": invalid format (expected Type.Name or UUID)"@)]
    } else {
        Seq::empty()
    }) + match split_once(t, "."@) {
        Some((prefix, _)) => if plural_types().contains(prefix) {
            seq![
                Finding::Failure(
                    "6. Content item \""@ + t + "\": uses plural form \""@ + prefix
                        + "\" (platform requires singular, e.g. Catalog not Catalogs)"@,
                ),
            ]
        } else {
            Seq::empty()
        },
        None => Seq::empty(),
    }
}

/// The errors for content items, in order.
pub open spec fn items_findings(items: Seq<XmlNode>) -> Seq<Finding>
    decreases items.len(),
{
    if items.len() == 0 {
        Seq::empty()
    } else {
        items_findings(items.drop_last()) + content_item_findings(items.last())
    }
}

/// Check 6: the content items are object references.
#[verifier::opaque]
pub open spec fn content_findings(props: XmlNode) -> Seq<Finding> {
    let items = content_items(props);
    if items.len() == 0 {
        seq![Finding::Passed("6. Content: empty (no items)"@)]
    } else if items_findings(items).len() == 0 {
        seq![Finding::Passed("6. Content: "@ + nat_text(items.len()) + " items, all valid MDObjectRef format"@)]
    } else {
        items_findings(items)
    }
}

/// The trimmed text of an element, as a function.
pub open spec fn trimmed_fn() -> spec_fn(XmlNode) -> Seq<char> {
    |n: XmlNode| trimmed_text(n)
}

/// The texts of the content items.
pub open spec fn content_texts(props: XmlNode) -> Seq<Seq<char>> {
    content_items(props).map_values(trimmed_fn())
}

/// Check 7: no content item is listed twice.
#[verifier::opaque]
pub open spec fn content_duplicates_findings(texts: Seq<Seq<char>>) -> Seq<Finding> {
    if texts.len() == 0 {
        Seq::empty()
    } else if duplicates(texts).len() == 0 {
        seq![Finding::Passed("7. Content: no duplicates"@)]
    } else {
        seq![Finding::Warning("7. Content: duplicates found: "@ + join(duplicates(texts), ", "@))]
    }
}

/// The elements under `ChildObjects`.
pub open spec fn child_entries(sub: XmlNode) -> Seq<XmlNode> {
    match child_named(sub, "ChildObjects"@, md()) {
        Some(c) => c.children,
        None => Seq::empty(),
    }
}

/// The error for one entry of `ChildObjects`.
pub open spec fn child_entry_findings(e: XmlNode) -> Seq<Finding> {
    if e.name != "Subsystem"@ {
        seq![Finding::Failure("8. ChildObjects: unexpected element <"@ + e.name + ">"@)]
    } else if trimmed_text(e).len() == 0 {
        seq![Finding::Failure("8. ChildObjects: empty <Subsystem> element"@)]
    } else {
        Seq::empty()
    }
}

/// Whether an entry of `ChildObjects` names a child subsystem.
pub open spec fn names_child(e: XmlNode) -> bool {
    e.name == "Subsystem"@ && trimmed_text(e).len() > 0
}

/// The errors for the entries of `ChildObjects`, in order.
pub open spec fn entries_findings(entries: Seq<XmlNode>) -> Seq<Finding>
    decreases entries.len(),
{
    if entries.len() == 0 {
        Seq::empty()
    } else {
        entries_findings(entries.drop_last()) + child_entry_findings(entries.last())
    }
}

/// The test for an entry that names a child subsystem.
pub open spec fn child_pred() -> spec_fn(XmlNode) -> bool {
    |e: XmlNode| names_child(e)
}

/// The names of the child subsystems.
pub open spec fn child_names(sub: XmlNode) -> Seq<Seq<char>> {
    child_entries(sub).filter(child_pred()).map_values(trimmed_fn())
}

/// Check 8: `ChildObjects` lists child subsystems by name.
pub open spec fn children_findings(sub: XmlNode) -> Seq<Finding> {
    let entries = child_entries(sub);
    if entries.len() == 0 {
        seq![Finding::Passed("8. ChildObjects: empty (leaf subsystem)"@)]
    } else if entries_findings(entries).len() == 0 {
        seq![Finding::Passed("8. ChildObjects: "@ + nat_text(child_names(sub).len()) + " entries, all non-empty"@)]
    } else {
        entries_findings(entries)
    }
}

/// The test for a child subsystem whose file is not among `files`.
pub open spec fn file_missing(files: Seq<Seq<char>>) -> spec_fn(Seq<char>) -> bool {
    |n: Seq<char>| !files.contains(n + ".xml"@)
}

/// The child subsystems whose files are not among `files`.
pub open spec fn missing_child_files(names: Seq<Seq<char>>, files: Seq<Seq<char>>) -> Seq<Seq<char>> {
    names.filter(file_missing(files))
}

/// Checks 9 and 10: no child is listed twice, and each has its file.
pub open spec fn child_files_findings(names: Seq<Seq<char>>, files: Seq<Seq<char>>) -> Seq<Finding> {
    if names.len() == 0 {
        Seq::empty()
    } else {
        (if duplicates(names).len() == 0 {
            seq![Finding::Passed("9. ChildObjects: no duplicates"@)]
        } else {
            seq![Finding::Failure("9. ChildObjects: duplicates: "@ + join(duplicates(names), ", "@))]
        }) + (if missing_child_files(names, files).len() == 0 {
            seq![Finding::Passed("10. ChildObjects files: all "@ + nat_text(names.len()) + " files exist"@)]
        } else {
            seq![
                Finding::Warning(
                    "10. ChildObjects files: missing: "@ + join(missing_child_files(names, files), ", "@),
                ),
            ]
        })
    }
}

/// Check 11: the command interface file, where there is one, is XML; `ci` is
/// its text or the error reading it.
pub open spec fn command_interface_findings(ci: Option<Result<Seq<char>, Seq<char>>>) -> Seq<Finding> {
    match ci {
        None => seq![Finding::Passed("11. CommandInterface: not present"@)],
        Some(Err(e)) => seq![Finding::Warning("11. CommandInterface: exists but NOT well-formed: "@ + e)],
        Some(Ok(t)) => match xml_parse_error(without_boms(t)) {
            None => seq![Finding::Passed("11. CommandInterface: exists, well-formed"@)],
            Some(e) => seq![Finding::Warning("11. CommandInterface: exists but NOT well-formed: "@ + e)],
        },
    }
}

/// Check 12: the picture refers to a common picture.
pub open spec fn picture_findings(props: XmlNode) -> Seq<Finding> {
    match child_named(props, "Picture"@, md()) {
        Some(pic) => if pic.children.len() == 0 {
            seq![Finding::Passed("12. Picture: empty (not set)"@)]
        } else {
            match child_named(pic, "Ref"@, None) {
                Some(r) => {
                    let t = text_or_empty(r);
                    if starts_with(t, "CommonPicture."@) {
                        seq![Finding::Passed("12. Picture: "@ + t)]
                    } else {
                        seq![Finding::Warning("12. Picture: \""@ + t + "\" (expected CommonPicture.XXX)"@)]
                    }
                },
                None => seq![Finding::Warning("12. Picture: has children but no xr:Ref content"@)],
            }
        },
        None => seq![Finding::Passed("12. Picture: empty (not set)"@)],
    }
}

/// Check 13: a subsystem shown as one command holds exactly one item.
pub open spec fn one_command_findings(props: XmlNode) -> Seq<Finding> {
    if or_empty(property_value(props, "UseOneCommand"@)) == "true"@ {
        if content_items(props).len() == 1 {
            seq![Finding::Passed("13. UseOneCommand: true, Content has exactly 1 item"@)]
        } else {
            seq![
                Finding::Warning(
                    "13. UseOneCommand: true but Content has "@ + nat_text(content_items(props).len())
                        + " items (expected 1)"@,
                ),
            ]
        }
    } else {
        seq![Finding::Passed("13. UseOneCommand: false (no constraint)"@)]
    }
}

/// The name of a subsystem as its file states it.
pub open spec fn subsystem_name(props: XmlNode) -> Seq<char> {
    trim(child_text(props, "Name"@, md()))
}

/// Check 3: the name is a name of the platform.
#[verifier::opaque]
pub open spec fn name_findings(name: Seq<char>) -> Seq<Finding> {
    if name.len() > 0 && is_1c_name(name) {
        seq![Finding::Passed("3. Name: \""@ + name + "\" - valid identifier"@)]
    } else if name.len() == 0 {
        seq![Finding::Failure("3. Name: empty"@)]
    } else {
        seq![Finding::Failure("3. Name: \""@ + name + "\" - invalid identifier"@)]
    }
}

/// The report header for a subsystem.
pub open spec fn subsystem_header(name: Seq<char>) -> Seq<char> {
    "=== Validation: Subsystem."@ + name + " ==="@
}

/// The result of check 2.
#[verifier::opaque]
pub open spec fn presence_findings(props: XmlNode) -> Seq<Finding> {
    if missing_properties(props).len() == 0 {
        seq![Finding::Passed("2. Properties: all 9 required properties present"@)]
    } else {
        seq![Finding::Failure("2. Properties: missing: "@ + join(missing_properties(props), ", "@))]
    }
}

/// Checks 2 to 7, on the properties, with the header lines after check 2.
pub open spec fn own_findings(props: XmlNode) -> Seq<Finding> {
    let name = subsystem_name(props);
    presence_findings(props) + seq![Finding::Line(Seq::empty()), Finding::Line(subsystem_header(name))]
        + name_findings(name) + synonym_findings(props) + flags_findings(props) + content_findings(props)
        + content_duplicates_findings(content_texts(props))
}

/// Checks 8 to 13, on the children, the files beside the subsystem, and the
/// picture and command settings.
pub open spec fn related_findings(
    sub: XmlNode,
    props: XmlNode,
    files: Seq<Seq<char>>,
    ci: Option<Result<Seq<char>, Seq<char>>>,
) -> Seq<Finding> {
    children_findings(sub) + child_files_findings(child_names(sub), files) + command_interface_findings(ci)
        + picture_findings(props) + one_command_findings(props)
}

/// Checks 2 to 13 on the properties and children of a subsystem.
pub open spec fn properties_findings(sub: XmlNode, props: XmlNode, files: Seq<Seq<char>>, ci: Option<Result<Seq<char>, Seq<char>>>) -> Seq<Finding> {
    own_findings(props) + related_findings(sub, props, files, ci)
}

/// The check of a subsystem file: its findings, the lines put before them, and
/// the name the report gives.
pub open spec fn subsystem_check(
    text: Seq<char>,
    files: Seq<Seq<char>>,
    ci: Option<Result<Seq<char>, Seq<char>>>,
) -> (Seq<Finding>, Seq<Seq<char>>, Seq<char>) {
    match xml_tree(without_boms(text)) {
        Err(e) => (seq![Finding::Failure("1. XML parse error: "@ + e)], Seq::empty(), Seq::empty()),
        Ok(root) => subsystem_tree_check(root, files, ci),
    }
}

/// The findings of checking a parsed subsystem file, its report's header
/// lines and the subsystem's name.
pub open spec fn subsystem_tree_check(
    root: XmlNode,
    files: Seq<Seq<char>>,
    ci: Option<Result<Seq<char>, Seq<char>>>,
) -> (Seq<Finding>, Seq<Seq<char>>, Seq<char>) {
    match child_named(root, "Subsystem"@, md()) {
        None => (
            seq![Finding::Failure("1. Root structure: expected MetaDataObject/Subsystem, not found"@)],
            Seq::empty(),
            Seq::empty(),
        ),
        Some(sub) => {
            let uuid = or_empty(attribute(sub, "uuid"@));
            let first = if uuid.len() > 0 && is_uuid(uuid) {
                Finding::Passed(
                    "1. Root structure: MetaDataObject/Subsystem, uuid="@ + uuid + ", version "@
                        + or_empty(attribute(root, "version"@)),
                )
            } else {
                Finding::Failure("1. Root structure: invalid or missing uuid"@)
            };
            match child_named(sub, "Properties"@, md()) {
                None => (
                    seq![first, Finding::Failure("2. Properties: <Properties> element not found"@)],
                    Seq::empty(),
                    Seq::empty(),
                ),
                Some(props) => {
                    let name = subsystem_name(props);
                    (
                        seq![first] + properties_findings(sub, props, files, ci),
                        seq![subsystem_header(name), Seq::empty()],
                        name,
                    )
                },
            }
        },
    }
}

/// The text of a subsystem report: a one-line success where there is nothing
/// to show, else the lines and the totals, each ending in CR LF.
pub open spec fn subsystem_report(fs: Seq<Finding>, prefix: Seq<Seq<char>>, name: Seq<char>, detailed: bool) -> Seq<char> {
    if clean(fs) && !detailed {
        "=== Validation OK: Subsystem."@ + name + " ("@ + nat_text(passed(fs) + failures(fs) + warnings(fs))
            + " checks) ==="@
    } else {
        join(prefix + finding_lines(fs, detailed) + seq![Seq::empty(), totals_line(fs)], "\r\n"@) + "\r\n"@
    }
}

/// Room left in a report for the findings of one more check.
pub open spec fn has_room(report: &CheckReport) -> bool {
    report.wf() && report.findings@.len() <= 100 * usize::MAX
}

/// What a check may add to a report.
pub open spec fn grew_by(old_report: &CheckReport, new_report: &CheckReport, added: Seq<Finding>) -> bool {
    &&& new_report.wf()
    &&& new_report.detailed == old_report.detailed
    &&& new_report.findings@ == old_report.findings@ + added
    &&& added.len() <= 4 * usize::MAX + 4
}

fn text3(a: &str, b: &[char], c: &str) -> (r: Vec<char>)
    ensures
        r@ == a@ + b@ + c@,
{
    let mut r = chars_of(a);
    push_chars(&mut r, b);
    push_str(&mut r, c);
    r
}

proof fn lemma_first_content_push(items: Seq<XmlNode>, x: XmlNode)
    ensures
        first_content(items.push(x), 0) == if first_content(items, 0).len() > 0 {
            first_content(items, 0)
        } else {
            child_text(x, "content"@, None)
        },
{
    lemma_first_content_push_from(items, x, 0);
}

proof fn lemma_first_content_push_from(items: Seq<XmlNode>, x: XmlNode, j: int)
    requires
        0 <= j <= items.len(),
    ensures
        first_content(items.push(x), j) == if first_content(items, j).len() > 0 {
            first_content(items, j)
        } else {
            child_text(x, "content"@, None)
        },
    decreases items.len() - j,
{
    if j < items.len() {
        assert(items.push(x)[j] == items[j]);
        lemma_first_content_push_from(items, x, j + 1);
    } else {
        assert(items.push(x)[j] == x);
        assert(first_content(items.push(x), j + 1) == Seq::<char>::empty());
    }
}

fn check_synonym(report: &mut CheckReport, props: &XmlElement)
    requires
        has_room(old(report)),
    ensures
        grew_by(old(report), final(report), synonym_findings(props@)),
{
    proof {
        reveal(synonym_findings);
    }
    match child(props, "Synonym", Some("http://v8.1c.ru/8.3/MDClasses")) {
        Some(syn) => {
            proof {
                crate::xml::lemma_children_view(*syn);
                lemma_filter_empty(syn@.children, named_pred("item"@, None));
            }
            let mut count: usize = 0;
            let mut first: Vec<char> = Vec::new();
            let mut i: usize = 0;
            while i < syn.children.len()
                invariant
                    i <= syn.children@.len(),
                    syn@.children == crate::xml::element_views(syn.children@),
                    count == syn@.children.take(i as int).filter(named_pred("item"@, None)).len(),
                    first@ == first_content(syn@.children.take(i as int).filter(named_pred("item"@, None)), 0),
                decreases syn.children.len() - i,
            {
                let c = &syn.children[i];
                proof {
                    lemma_filter_take_step(syn@.children, named_pred("item"@, None), i as int);
                }
                if is_named(c, "item", None) {
                    let ghost prev = syn@.children.take(i as int).filter(named_pred("item"@, None));
                    proof {
                        lemma_first_content_push(prev, c@);
                    }
                    if first.len() == 0 {
                        let t = child_text_of(c, "content", None);
                        if t.len() > 0 {
                            first = t;
                        }
                    }
                    count = count + 1;
                }
                i = i + 1;
            }
            assert(syn@.children.take(i as int) =~= syn@.children);
            if count > 0 {
                let mut m = text3("4. Synonym: \"", &first, "\" (");
                push_chars(&mut m, &usize_text(count));
                push_str(&mut m, " lang(s))");
                report.ok(&m);
            } else {
                report.warn(&chars_of("4. Synonym: element exists but no v8:item children"));
            }
        },
        None => {
            report.warn(&chars_of("4. Synonym: empty or missing"));
        },
    }
    assert(report.findings@ =~= old(report).findings@ + synonym_findings(props@));
}

fn property_value_of(props: &XmlElement, prop: &str) -> (r: Option<Vec<char>>)
    ensures
        crate::xml::opt_view(r) == property_value(props@, prop@),
{
    match child(props, prop, Some("http://v8.1c.ru/8.3/MDClasses")) {
        Some(n) => Some(trim_chars(&text_of(n))),
        None => None,
    }
}

fn check_flag(report: &mut CheckReport, props: &XmlElement, prop: &str) -> (bad: bool)
    requires
        old(report).wf(),
        old(report).findings@.len() + 8 < u128::MAX,
    ensures
        grew_by(old(report), final(report), flag_findings(props@, prop@)),
        bad == (flag_findings(props@, prop@).len() > 0),
        final(report).findings@.len() <= old(report).findings@.len() + 1,
{
    let r = match property_value_of(props, prop) {
        Some(v) => {
            if !eq_str(&v, "true") && !eq_str(&v, "false") {
                let mut m = text3("5. Boolean property ", &chars_of(prop), " = \"");
                push_chars(&mut m, &v);
                push_str(&mut m, "\" (expected true/false)");
                report.error(&m);
                true
            } else {
                false
            }
        },
        None => false,
    };
    assert(report.findings@ =~= old(report).findings@ + flag_findings(props@, prop@));
    r
}

fn check_flags(report: &mut CheckReport, props: &XmlElement)
    requires
        has_room(old(report)),
    ensures
        grew_by(old(report), final(report), flags_findings(props@)),
{
    proof {
        reveal(flags_findings);
    }
    let b1 = check_flag(report, props, "IncludeHelpInContents");
    let b2 = check_flag(report, props, "IncludeInCommandInterface");
    let b3 = check_flag(report, props, "UseOneCommand");
    if !b1 && !b2 && !b3 {
        report.ok(&chars_of("5. Boolean properties: valid"));
    }
    assert(report.findings@ =~= old(report).findings@ + flags_findings(props@));
}

fn check_content_item(report: &mut CheckReport, item: &XmlElement) -> (r: (Vec<char>, bool))
    requires
        old(report).wf(),
        old(report).findings@.len() + 8 < u128::MAX,
    ensures
        grew_by(old(report), final(report), content_item_findings(item@)),
        content_item_findings(item@).len() <= 3,
        r.0@ == trimmed_text(item@),
        r.1 == (content_item_findings(item@).len() > 0),
{
    let t = trim_chars(&text_of(item));
    let ty = match attribute_local(item, "type") {
        Some(v) => v,
        None => Vec::new(),
    };
    let mut bad = false;
    if !eq_str(&ty, "xr:MDObjectRef") {
        let mut m = text3("6. Content item \"", &t, "\": xsi:type=\"");
        push_chars(&mut m, &ty);
        push_str(&mut m, "\" (expected xr:MDObjectRef)");
        report.error(&m);
        bad = true;
    }
    if !is_subsystem_content_ref(&t) && !is_valid_uuid(&t) {
        report.error(&text3("6. Content item \"", &t, "\": invalid format (expected Type.Name or UUID)"));
        bad = true;
    }
    match split_once_str(&t, ".") {
        Some((prefix, rest)) => {
            assert(split_once(t@, "."@) == Some((prefix@, rest@)));
            let plurals = subsystem_known_plural_types();
            if is_one_of_exec(&prefix, plurals) {
                proof {
                    let k = choose|k: int| 0 <= k < lit_views(plurals@).len() && prefix@ == #[trigger] lit_views(plurals@)[k];
                    assert(plural_types()[k] == prefix@);
                }
                let mut m = text3("6. Content item \"", &t, "\": uses plural form \"");
                push_chars(&mut m, &prefix);
                push_str(&mut m, "\" (platform requires singular, e.g. Catalog not Catalogs)");
                report.error(&m);
                bad = true;
            } else {
                assert(!plural_types().contains(prefix@)) by {
                    if plural_types().contains(prefix@) {
                        let k = choose|k: int| 0 <= k < plural_types().len() && plural_types()[k] == prefix@;
                        assert(lit_views(plurals@)[k] == prefix@);
                    }
                }
            }
        },
        None => {},
    }
    assert(report.findings@ =~= old(report).findings@ + content_item_findings(item@));
    (t, bad)
}

proof fn lemma_items_findings_push(items: Seq<XmlNode>, x: XmlNode)
    ensures
        items_findings(items.push(x)) == items_findings(items) + content_item_findings(x),
{
    assert(items.push(x).drop_last() =~= items);
}

proof fn lemma_items_findings_bound(items: Seq<XmlNode>)
    ensures
        items_findings(items).len() <= 3 * items.len(),
    decreases items.len(),
{
    if items.len() > 0 {
        lemma_items_findings_bound(items.drop_last());
    }
}

fn check_content(report: &mut CheckReport, props: &XmlElement) -> (texts: Vec<Vec<char>>)
    requires
        has_room(old(report)),
    ensures
        grew_by(old(report), final(report), content_findings(props@)),
        views(texts@) == content_texts(props@),
{
    proof {
        reveal(content_findings);
    }
    let ghost start = report.findings@;
    let mut texts: Vec<Vec<char>> = Vec::new();
    match child(props, "Content", Some("http://v8.1c.ru/8.3/MDClasses")) {
        Some(c) => {
            let ghost p = named_pred("Item"@, None);
            proof {
                crate::xml::lemma_children_view(*c);
                lemma_filter_empty(c@.children, p);
            }
            let mut count: usize = 0;
            let mut bad = false;
            let mut i: usize = 0;
            while i < c.children.len()
                invariant
                    i <= c.children@.len(),
                    c@.children == crate::xml::element_views(c.children@),
                    p == named_pred("Item"@, None),
                    report.wf(),
                    report.detailed == old(report).detailed,
                    start == old(report).findings@,
                    start.len() <= 100 * usize::MAX,
                    report.findings@ == start + items_findings(c@.children.take(i as int).filter(p)),
                    count == c@.children.take(i as int).filter(p).len(),
                    count <= i,
                    bad == (items_findings(c@.children.take(i as int).filter(p)).len() > 0),
                    views(texts@) == c@.children.take(i as int).filter(p).map_values(trimmed_fn()),
                decreases c.children.len() - i,
            {
                let item = &c.children[i];
                let ghost prev = c@.children.take(i as int).filter(p);
                proof {
                    lemma_filter_take_step(c@.children, p, i as int);
                    lemma_items_findings_bound(prev);
                }
                if is_named(item, "Item", None) {
                    let (t, item_bad) = check_content_item(report, item);
                    proof {
                        lemma_items_findings_push(prev, item@);
                    }
                    if item_bad {
                        bad = true;
                    }
                    proof {
                        if !bad {
                            assert(items_findings(prev.push(item@)).len() == 0);
                        }
                    }
                    let ghost tv = views(texts@);
                    push_line(&mut texts, t);
                    assert(prev.push(item@).map_values(trimmed_fn()) =~= prev.map_values(trimmed_fn()).push(t@));
                    count = count + 1;
                    assert(report.findings@ =~= start + items_findings(prev.push(item@)));
                }
                i = i + 1;
            }
            assert(c@.children.take(i as int) =~= c@.children);
            if count == 0 {
                report.ok(&chars_of("6. Content: empty (no items)"));
            } else if !bad {
                let mut m = chars_of("6. Content: ");
                push_chars(&mut m, &usize_text(count));
                push_str(&mut m, " items, all valid MDObjectRef format");
                report.ok(&m);
            }
            proof {
                lemma_items_findings_bound(content_items(props@));
            }
        },
        None => {
            report.ok(&chars_of("6. Content: empty (no items)"));
            assert(content_items(props@) =~= Seq::<XmlNode>::empty());
        },
    }
    assert(report.findings@ =~= old(report).findings@ + content_findings(props@));
    texts
}

fn check_content_duplicates(report: &mut CheckReport, texts: &Vec<Vec<char>>)
    requires
        has_room(old(report)),
    ensures
        grew_by(old(report), final(report), content_duplicates_findings(views(texts@))),
{
    proof {
        reveal(content_duplicates_findings);
    }
    if texts.len() > 0 {
        let d = duplicates_preserve_order(texts);
        if d.len() == 0 {
            report.ok(&chars_of("7. Content: no duplicates"));
        } else {
            let mut m = chars_of("7. Content: duplicates found: ");
            push_chars(&mut m, &join_str(&d, ", "));
            report.warn(&m);
        }
    }
    assert(report.findings@ =~= old(report).findings@ + content_duplicates_findings(views(texts@)));
}

proof fn lemma_entries_findings_push(entries: Seq<XmlNode>, x: XmlNode)
    ensures
        entries_findings(entries.push(x)) == entries_findings(entries) + child_entry_findings(x),
{
    assert(entries.push(x).drop_last() =~= entries);
}

proof fn lemma_entries_findings_bound(entries: Seq<XmlNode>)
    ensures
        entries_findings(entries).len() <= entries.len(),
    decreases entries.len(),
{
    if entries.len() > 0 {
        lemma_entries_findings_bound(entries.drop_last());
    }
}

fn check_children(report: &mut CheckReport, sub: &XmlElement) -> (names: Vec<Vec<char>>)
    requires
        has_room(old(report)),
    ensures
        grew_by(old(report), final(report), children_findings(sub@)),
        views(names@) == child_names(sub@),
{
    let ghost start = report.findings@;
    let mut names: Vec<Vec<char>> = Vec::new();
    match child(sub, "ChildObjects", Some("http://v8.1c.ru/8.3/MDClasses")) {
        Some(co) => {
            let ghost p = child_pred();
            proof {
                crate::xml::lemma_children_view(*co);
                lemma_filter_empty(co@.children, p);
                assert(co@.children.take(0) =~= Seq::<XmlNode>::empty());
            }
            let mut bad = false;
            let mut i: usize = 0;
            while i < co.children.len()
                invariant
                    i <= co.children@.len(),
                    co@.children == crate::xml::element_views(co.children@),
                    p == child_pred(),
                    report.wf(),
                    report.detailed == old(report).detailed,
                    start == old(report).findings@,
                    start.len() <= 100 * usize::MAX,
                    report.findings@ == start + entries_findings(co@.children.take(i as int)),
                    bad == (entries_findings(co@.children.take(i as int)).len() > 0),
                    views(names@) == co@.children.take(i as int).filter(p).map_values(trimmed_fn()),
                decreases co.children.len() - i,
            {
                let e = &co.children[i];
                let ghost prev = co@.children.take(i as int);
                proof {
                    lemma_filter_take_step(co@.children, p, i as int);
                    lemma_entries_findings_push(prev, e@);
                    lemma_entries_findings_bound(prev);
                    assert(co@.children.take(i + 1) =~= prev.push(e@));
                }
                let ghost fprev = prev.filter(p);
                if !eq_str(&e.name, "Subsystem") {
                    report.error(&text3("8. ChildObjects: unexpected element <", &e.name, ">"));
                    bad = true;
                } else {
                    let t = trim_chars(&text_of(e));
                    if t.len() == 0 {
                        report.error(&chars_of("8. ChildObjects: empty <Subsystem> element"));
                        bad = true;
                    } else {
                        push_line(&mut names, t);
                        assert(fprev.push(e@).map_values(trimmed_fn()) =~= fprev.map_values(trimmed_fn()).push(t@));
                    }
                }
                assert(report.findings@ =~= start + entries_findings(co@.children.take(i + 1)));
                i = i + 1;
            }
            assert(co@.children.take(i as int) =~= co@.children);
            if co.children.len() == 0 {
                report.ok(&chars_of("8. ChildObjects: empty (leaf subsystem)"));
            } else if !bad {
                let mut m = chars_of("8. ChildObjects: ");
                push_chars(&mut m, &usize_text(names.len()));
                push_str(&mut m, " entries, all non-empty");
                report.ok(&m);
            }
            proof {
                lemma_entries_findings_bound(co@.children);
            }
        },
        None => {
            report.ok(&chars_of("8. ChildObjects: empty (leaf subsystem)"));
            assert(child_entries(sub@) =~= Seq::<XmlNode>::empty());
            proof {
                lemma_filter_empty(Seq::<XmlNode>::empty(), child_pred());
            }
            assert(Seq::<XmlNode>::empty().take(0) =~= Seq::<XmlNode>::empty());
        },
    }
    assert(report.findings@ =~= old(report).findings@ + children_findings(sub@));
    names
}

fn contains_file(files: &[Vec<char>], name: &[char]) -> (b: bool)
    ensures
        b == views(files@).contains(name@),
{
    let mut i: usize = 0;
    while i < files.len()
        invariant
            i <= files@.len(),
            forall|k: int| 0 <= k < i ==> views(files@)[k] != name@,
        decreases files.len() - i,
    {
        if crate::text::eq_chars(&files[i], name) {
            assert(views(files@)[i as int] == name@);
            return true;
        }
        i = i + 1;
    }
    false
}

fn check_child_files(report: &mut CheckReport, names: &Vec<Vec<char>>, files: &[Vec<char>])
    requires
        has_room(old(report)),
    ensures
        grew_by(old(report), final(report), child_files_findings(views(names@), views(files@))),
{
    if names.len() > 0 {
        let d = duplicates_preserve_order(names);
        if d.len() == 0 {
            report.ok(&chars_of("9. ChildObjects: no duplicates"));
        } else {
            let mut m = chars_of("9. ChildObjects: duplicates: ");
            push_chars(&mut m, &join_str(&d, ", "));
            report.error(&m);
        }
        let ghost all = views(names@);
        let ghost p = file_missing(views(files@));
        proof {
            lemma_filter_empty(all, p);
        }
        let mut missing: Vec<Vec<char>> = Vec::new();
        let mut i: usize = 0;
        while i < names.len()
            invariant
                i <= names@.len(),
                all == views(names@),
                p == file_missing(views(files@)),
                views(missing@) == all.take(i as int).filter(p),
            decreases names.len() - i,
        {
            proof {
                lemma_filter_take_step(all, p, i as int);
            }
            let mut f = to_vec(&names[i]);
            push_str(&mut f, ".xml");
            if !contains_file(files, &f) {
                push_line(&mut missing, to_vec(&names[i]));
            }
            i = i + 1;
        }
        assert(all.take(i as int) =~= all);
        if missing.len() == 0 {
            let mut m = chars_of("10. ChildObjects files: all ");
            push_chars(&mut m, &usize_text(names.len()));
            push_str(&mut m, " files exist");
            report.ok(&m);
        } else {
            let mut m = chars_of("10. ChildObjects files: missing: ");
            push_chars(&mut m, &join_str(&missing, ", "));
            report.warn(&m);
        }
    }
    assert(report.findings@ =~= old(report).findings@ + child_files_findings(views(names@), views(files@)));
}

/// The text of a file, or the error reading it, as values.
pub open spec fn read_view(r: Option<Result<Vec<char>, Vec<char>>>) -> Option<Result<Seq<char>, Seq<char>>> {
    match r {
        Some(Ok(t)) => Some(Ok(t@)),
        Some(Err(e)) => Some(Err(e@)),
        None => None,
    }
}

fn check_command_interface(report: &mut CheckReport, ci: &Option<Result<Vec<char>, Vec<char>>>)
    requires
        has_room(old(report)),
    ensures
        grew_by(old(report), final(report), command_interface_findings(read_view(*ci))),
{
    match ci {
        None => {
            report.ok(&chars_of("11. CommandInterface: not present"));
        },
        Some(Err(e)) => {
            let mut m = chars_of("11. CommandInterface: exists but NOT well-formed: ");
            push_chars(&mut m, e);
            report.warn(&m);
        },
        Some(Ok(t)) => {
            let body = crate::xml::strip_boms(t);
            match crate::xml::check_xml(&body) {
                None => {
                    report.ok(&chars_of("11. CommandInterface: exists, well-formed"));
                },
                Some(e) => {
                    let mut m = chars_of("11. CommandInterface: exists but NOT well-formed: ");
                    push_chars(&mut m, &e);
                    report.warn(&m);
                },
            }
        },
    }
    assert(report.findings@ =~= old(report).findings@ + command_interface_findings(read_view(*ci)));
}

fn check_picture(report: &mut CheckReport, props: &XmlElement)
    requires
        has_room(old(report)),
    ensures
        grew_by(old(report), final(report), picture_findings(props@)),
{
    match child(props, "Picture", Some("http://v8.1c.ru/8.3/MDClasses")) {
        Some(pic) => {
            proof {
                crate::xml::lemma_children_view(*pic);
            }
            if pic.children.len() == 0 {
                report.ok(&chars_of("12. Picture: empty (not set)"));
            } else {
                match child(pic, "Ref", None) {
                    Some(r) => {
                        let t = text_of(r);
                        if crate::text::starts_with_str(&t, "CommonPicture.") {
                            let mut m = chars_of("12. Picture: ");
                            push_chars(&mut m, &t);
                            report.ok(&m);
                        } else {
                            report.warn(&text3("12. Picture: \"", &t, "\" (expected CommonPicture.XXX)"));
                        }
                    },
                    None => {
                        report.warn(&chars_of("12. Picture: has children but no xr:Ref content"));
                    },
                }
            }
        },
        None => {
            report.ok(&chars_of("12. Picture: empty (not set)"));
        },
    }
    assert(report.findings@ =~= old(report).findings@ + picture_findings(props@));
}

fn check_one_command(report: &mut CheckReport, props: &XmlElement, items: usize)
    requires
        has_room(old(report)),
        items == content_items(props@).len(),
    ensures
        grew_by(old(report), final(report), one_command_findings(props@)),
{
    let v = match property_value_of(props, "UseOneCommand") {
        Some(v) => v,
        None => Vec::new(),
    };
    if eq_str(&v, "true") {
        if items == 1 {
            report.ok(&chars_of("13. UseOneCommand: true, Content has exactly 1 item"));
        } else {
            let mut m = chars_of("13. UseOneCommand: true but Content has ");
            push_chars(&mut m, &usize_text(items));
            push_str(&mut m, " items (expected 1)");
            report.warn(&m);
        }
    } else {
        report.ok(&chars_of("13. UseOneCommand: false (no constraint)"));
    }
    assert(report.findings@ =~= old(report).findings@ + one_command_findings(props@));
}

fn check_properties_present(report: &mut CheckReport, props: &XmlElement)
    requires
        has_room(old(report)),
    ensures
        grew_by(old(report), final(report), presence_findings(props@)),
{
    proof {
        reveal(presence_findings);
    }
    let required: &'static [&'static str] = &[
        "Name", "Synonym", "Comment", "IncludeHelpInContents", "IncludeInCommandInterface",
        "UseOneCommand", "Explanation", "Picture", "Content",
    ];
    assert(lit_views(required@) =~= required_properties());
    let ghost p = lacks(props@);
    proof {
        lemma_filter_empty(required_properties(), p);
    }
    let mut missing: Vec<Vec<char>> = Vec::new();
    let mut i: usize = 0;
    while i < required.len()
        invariant
            i <= required@.len(),
            lit_views(required@) == required_properties(),
            p == lacks(props@),
            views(missing@) == required_properties().take(i as int).filter(p),
        decreases required.len() - i,
    {
        proof {
            lemma_filter_take_step(required_properties(), p, i as int);
        }
        if child_index(props, required[i], Some("http://v8.1c.ru/8.3/MDClasses")).is_none() {
            push_line(&mut missing, chars_of(required[i]));
        }
        i = i + 1;
    }
    assert(required_properties().take(i as int) =~= required_properties());
    if missing.len() == 0 {
        report.ok(&chars_of("2. Properties: all 9 required properties present"));
    } else {
        let mut m = chars_of("2. Properties: missing: ");
        push_chars(&mut m, &join_str(&missing, ", "));
        report.error(&m);
    }
    assert(report.findings@ =~= old(report).findings@ + presence_findings(props@));
}

fn check_name(report: &mut CheckReport, name: &[char])
    requires
        has_room(old(report)),
    ensures
        grew_by(old(report), final(report), name_findings(name@)),
{
    proof {
        reveal(name_findings);
    }
    if name.len() > 0 && is_1c_identifier(name) {
        report.ok(&text3("3. Name: \"", name, "\" - valid identifier"));
    } else if name.len() == 0 {
        report.error(&chars_of("3. Name: empty"));
    } else {
        report.error(&text3("3. Name: \"", name, "\" - invalid identifier"));
    }
    assert(report.findings@ =~= old(report).findings@ + name_findings(name@));
}

fn finish_report(report: CheckReport, prefix: Vec<Vec<char>>, name: &[char]) -> (r: Vec<char>)
    requires
        report.wf(),
    ensures
        r@ == subsystem_report(report.findings@, views(prefix@), name@, report.detailed),
{
    let checks = checks_text(&report);
    if report.errors == 0 && report.warnings == 0 && !report.detailed {
        let mut r = text3("=== Validation OK: Subsystem.", name, " (");
        push_chars(&mut r, &checks);
        push_str(&mut r, " checks) ===");
        return r;
    }
    let totals = crate::findings::totals_text(&report);
    let mut all = prefix;
    let ghost fs = report.findings@;
    let ghost detailed = report.detailed;
    let ghost lines = views(report.lines@);
    let ghost pv = views(all@);
    crate::skd_fragments::push_lines(&mut all, report.lines);
    push_line(&mut all, Vec::new());
    push_line(&mut all, totals);
    proof {
        reveal_strlit("");
    }
    assert(views(all@) =~= pv + finding_lines(fs, detailed) + seq![Seq::empty(), totals_line(fs)]);
    let mut r = join_str(&all, "\r\n");
    push_str(&mut r, "\r\n");
    r
}

#[verifier::rlimit(40)]
fn check_own(report: &mut CheckReport, props: &XmlElement) -> (r: (Vec<char>, usize))
    requires
        old(report).wf(),
        old(report).findings@.len() <= 1,
    ensures
        final(report).wf(),
        final(report).detailed == old(report).detailed,
        final(report).findings@ == old(report).findings@ + own_findings(props@),
        final(report).findings@.len() <= 30 * usize::MAX,
        r.0@ == subsystem_name(props@),
        r.1 == content_items(props@).len(),
{
    let ghost f0 = report.findings@;
    check_properties_present(report, props);
    let ghost f1 = report.findings@;
    let name = trim_chars(&child_text_of(props, "Name", Some("http://v8.1c.ru/8.3/MDClasses")));
    let header = text3("=== Validation: Subsystem.", &name, " ===");
    let empty: Vec<char> = Vec::new();
    report.out(&empty);
    report.out(&header);
    let ghost f2 = report.findings@;
    assert(f2 =~= f1 + seq![Finding::Line(Seq::empty()), Finding::Line(subsystem_header(name@))]);
    check_name(report, &name);
    let ghost f3 = report.findings@;
    check_synonym(report, props);
    let ghost f4 = report.findings@;
    check_flags(report, props);
    let ghost f5 = report.findings@;
    let texts = check_content(report, props);
    let ghost f6 = report.findings@;
    check_content_duplicates(report, &texts);
    assert(report.findings@ =~= f0 + own_findings(props@));
    proof {
        assert(content_texts(props@).len() == content_items(props@).len());
    }
    (name, texts.len())
}

#[verifier::rlimit(40)]
fn check_related(
    report: &mut CheckReport,
    sub: &XmlElement,
    props: &XmlElement,
    child_files: &[Vec<char>],
    command_interface: &Option<Result<Vec<char>, Vec<char>>>,
    items: usize,
)
    requires
        old(report).wf(),
        old(report).findings@.len() <= 30 * usize::MAX,
        items == content_items(props@).len(),
    ensures
        final(report).wf(),
        final(report).detailed == old(report).detailed,
        final(report).findings@ == old(report).findings@ + related_findings(
            sub@,
            props@,
            views(child_files@),
            read_view(*command_interface),
        ),
{
    let ghost f0 = report.findings@;
    let names = check_children(report, sub);
    let ghost f1 = report.findings@;
    check_child_files(report, &names, child_files);
    let ghost f2 = report.findings@;
    check_command_interface(report, command_interface);
    let ghost f3 = report.findings@;
    check_picture(report, props);
    let ghost f4 = report.findings@;
    check_one_command(report, props, items);
    assert(report.findings@ =~= f0 + related_findings(
        sub@,
        props@,
        views(child_files@),
        read_view(*command_interface),
    ));
}

/// Checks a subsystem file. `text` is the file, `child_files` the names of the
/// files beside its child subsystems, and `command_interface` the text of its
/// command interface file or the error reading it, where that file exists.
/// Gives whether no error was found, and the report.
pub fn subsystem_validate(
    text: &[char],
    child_files: &[Vec<char>],
    command_interface: &Option<Result<Vec<char>, Vec<char>>>,
    detailed: bool,
) -> (r: (bool, Vec<char>))
    ensures
        ({
            let (fs, prefix, name) = subsystem_check(text@, views(child_files@), read_view(*command_interface));
            r.0 == (failures(fs) == 0) && r.1@ == subsystem_report(fs, prefix, name, detailed)
        }),
{
    let mut report = CheckReport::new(detailed);
    let body = crate::xml::strip_boms(text);
    let s = crate::external::string_of(&body);
    let root = match crate::xml::xml_document(s.as_str()) {
        Ok(root) => root,
        Err(e) => {
            let mut m = chars_of("1. XML parse error: ");
            push_chars(&mut m, &e);
            report.error(&m);
            let ok = report.errors == 0;
            assert(report.findings@ =~= seq![Finding::Failure("1. XML parse error: "@ + e@)]);
            return (ok, finish_report(report, Vec::new(), &[]));
        },
    };
    subsystem_validate_tree(&root, child_files, command_interface, detailed)
}

/// Checks a parsed subsystem file, as `subsystem_validate` does after parsing.
pub fn subsystem_validate_tree(
    root: &XmlElement,
    child_files: &[Vec<char>],
    command_interface: &Option<Result<Vec<char>, Vec<char>>>,
    detailed: bool,
) -> (r: (bool, Vec<char>))
    ensures
        ({
            let (fs, prefix, name) = subsystem_tree_check(root@, views(child_files@), read_view(*command_interface));
            r.0 == (failures(fs) == 0) && r.1@ == subsystem_report(fs, prefix, name, detailed)
        }),
{
    let mut report = CheckReport::new(detailed);
    let sub = match child(root, "Subsystem", Some("http://v8.1c.ru/8.3/MDClasses")) {
        Some(sub) => sub,
        None => {
            report.error(&chars_of("1. Root structure: expected MetaDataObject/Subsystem, not found"));
            let ok = report.errors == 0;
            assert(report.findings@ =~= seq![Finding::Failure("1. Root structure: expected MetaDataObject/Subsystem, not found"@)]);
            return (ok, finish_report(report, Vec::new(), &[]));
        },
    };
    let uuid = match attribute_value(sub, "uuid") {
        Some(v) => v,
        None => Vec::new(),
    };
    if uuid.len() > 0 && is_valid_uuid(&uuid) {
        let version = match attribute_value(root, "version") {
            Some(v) => v,
            None => Vec::new(),
        };
        let mut m = text3("1. Root structure: MetaDataObject/Subsystem, uuid=", &uuid, ", version ");
        push_chars(&mut m, &version);
        report.ok(&m);
    } else {
        report.error(&chars_of("1. Root structure: invalid or missing uuid"));
    }
    let ghost first = report.findings@[0];
    assert(report.findings@ =~= seq![first]);
    let props = match child(sub, "Properties", Some("http://v8.1c.ru/8.3/MDClasses")) {
        Some(props) => props,
        None => {
            report.error(&chars_of("2. Properties: <Properties> element not found"));
            let ok = report.errors == 0;
            assert(report.findings@ =~= seq![first, Finding::Failure("2. Properties: <Properties> element not found"@)]);
            return (ok, finish_report(report, Vec::new(), &[]));
        },
    };
    let ghost f1 = report.findings@;
    let (name, items) = check_own(&mut report, props);
    check_related(&mut report, sub, props, child_files, command_interface, items);
    assert(report.findings@ =~= f1 + properties_findings(sub@, props@, views(child_files@), read_view(*command_interface)));
    let ok = report.errors == 0;
    let header = text3("=== Validation: Subsystem.", &name, " ===");
    let mut prefix: Vec<Vec<char>> = Vec::new();
    push_line(&mut prefix, header);
    push_line(&mut prefix, Vec::new());
    proof {
        reveal_strlit("");
    }
    assert(views(prefix@) =~= seq![subsystem_header(name@), Seq::<char>::empty()]);
    (ok, finish_report(report, prefix, &name))
}

/// The namespaces line of a metadata file, with its format version.
pub open spec fn metadata_root_line(format_version: Seq<char>) -> Seq<char> {
    "<MetaDataObject xmlns=\"http://v8.1c.ru/8.3/MDClasses\" xmlns:app=\"http://v8.1c.ru/8.2/managed-application/core\" xmlns:cfg=\"http://v8.1c.ru/8.1/data/enterprise/current-config\" xmlns:cmi=\"http://v8.1c.ru/8.2/managed-application/cmi\" xmlns:ent=\"http://v8.1c.ru/8.1/data/enterprise\" xmlns:lf=\"http://v8.1c.ru/8.2/managed-application/logform\" xmlns:style=\"http://v8.1c.ru/8.1/data/ui/style\" xmlns:sys=\"http://v8.1c.ru/8.1/data/ui/fonts/system\" xmlns:v8=\"http://v8.1c.ru/8.1/data/core\" xmlns:v8ui=\"http://v8.1c.ru/8.1/data/ui\" xmlns:web=\"http://v8.1c.ru/8.1/data/ui/colors/web\" xmlns:win=\"http://v8.1c.ru/8.1/data/ui/colors/windows\" xmlns:xen=\"http://v8.1c.ru/8.3/xcf/enums\" xmlns:xpr=\"http://v8.1c.ru/8.3/xcf/predef\" xmlns:xr=\"http://v8.1c.ru/8.3/xcf/readable\" xmlns:xs=\"http://www.w3.org/2001/XMLSchema\" xmlns:xsi=\"http://www.w3.org/2001/XMLSchema-instance\" version=\""@
        + format_version + "\">"@
}

fn metadata_root_text(format_version: &[char]) -> (r: Vec<char>)
    ensures
        r@ == metadata_root_line(format_version@),
{
    text3(
        "<MetaDataObject xmlns=\"http://v8.1c.ru/8.3/MDClasses\" xmlns:app=\"http://v8.1c.ru/8.2/managed-application/core\" xmlns:cfg=\"http://v8.1c.ru/8.1/data/enterprise/current-config\" xmlns:cmi=\"http://v8.1c.ru/8.2/managed-application/cmi\" xmlns:ent=\"http://v8.1c.ru/8.1/data/enterprise\" xmlns:lf=\"http://v8.1c.ru/8.2/managed-application/logform\" xmlns:style=\"http://v8.1c.ru/8.1/data/ui/style\" xmlns:sys=\"http://v8.1c.ru/8.1/data/ui/fonts/system\" xmlns:v8=\"http://v8.1c.ru/8.1/data/core\" xmlns:v8ui=\"http://v8.1c.ru/8.1/data/ui\" xmlns:web=\"http://v8.1c.ru/8.1/data/ui/colors/web\" xmlns:win=\"http://v8.1c.ru/8.1/data/ui/colors/windows\" xmlns:xen=\"http://v8.1c.ru/8.3/xcf/enums\" xmlns:xpr=\"http://v8.1c.ru/8.3/xcf/predef\" xmlns:xr=\"http://v8.1c.ru/8.3/xcf/readable\" xmlns:xs=\"http://www.w3.org/2001/XMLSchema\" xmlns:xsi=\"http://www.w3.org/2001/XMLSchema-instance\" version=\"",
        format_version,
        "\">",
    )
}

/// A multi-language text property of a metadata object: an empty element for
/// an empty text, else one Russian item.
pub open spec fn md_mltext_lines(indent: Seq<char>, tag: Seq<char>, text: Seq<char>) -> Seq<Seq<char>> {
    if text.len() == 0 {
        seq![indent + "<"@ + tag + "/>"@]
    } else {
        seq![
            indent + "<"@ + tag + ">"@,
            indent + "\t<v8:item>"@,
            indent + "\t\t<v8:lang>ru</v8:lang>"@,
            indent + "\t\t<v8:content>"@ + escape_xml(text) + "</v8:content>"@,
            indent + "\t</v8:item>"@,
            indent + "</"@ + tag + ">"@,
        ]
    }
}

fn push_md_mltext(lines: &mut Vec<Vec<char>>, indent: &str, tag: &str, text: &[char])
    ensures
        views(final(lines)@) == views(old(lines)@) + md_mltext_lines(indent@, tag@, text@),
{
    let ind = chars_of(indent);
    let t = chars_of(tag);
    let ghost start = views(lines@);
    if text.len() == 0 {
        let mut head = chars_of(indent);
        push_str(&mut head, "<");
        push_chars(&mut head, &t);
        push_str(&mut head, "/>");
        push_line(lines, head);
        assert(views(lines@) =~= start + md_mltext_lines(indent@, tag@, text@));
    } else {
        push_line(lines, wrap(&ind, "<", &t, ">"));
        push_line(lines, wrap(&ind, "\t<v8:item>", &[], ""));
        push_line(lines, wrap(&ind, "\t\t<v8:lang>ru</v8:lang>", &[], ""));
        push_line(lines, wrap_escaped(&ind, "\t\t<v8:content>", text, "</v8:content>"));
        push_line(lines, wrap(&ind, "\t</v8:item>", &[], ""));
        push_line(lines, wrap(&ind, "</", &t, ">"));
        proof {
            reveal_strlit("");
        }
        assert(views(lines@) =~= start + md_mltext_lines(indent@, tag@, text@));
    }
}

/// A lower-case letter of the Latin or Russian alphabet.
pub open spec fn is_lower_letter(c: char) -> bool {
    ('a' <= c && c <= 'z') || ('а' <= c && c <= 'я') || c == 'ё'
}

/// An upper-case letter of the Latin or Russian alphabet.
pub open spec fn is_upper_letter(c: char) -> bool {
    ('A' <= c && c <= 'Z') || ('А' <= c && c <= 'Я') || c == 'Ё'
}

/// A name with a space put wherever a lower-case letter is followed by an
/// upper-case one.
pub open spec fn spaced_words(t: Seq<char>) -> Seq<char>
    decreases t.len(),
{
    if t.len() == 0 {
        Seq::empty()
    } else {
        let before = spaced_words(t.drop_last());
        if t.len() >= 2 && is_lower_letter(t[t.len() - 2]) && is_upper_letter(t.last()) {
            before + seq![' ', t.last()]
        } else {
            before.push(t.last())
        }
    }
}

/// The words of a name in camel case as a phrase: spaces between the words, the
/// first letter kept, the rest in lower case (`ЗаказыКлиентов` gives
/// `Заказы клиентов`).
pub open spec fn camel_phrase(name: Seq<char>) -> Seq<char> {
    let s = spaced_words(name);
    if s.len() > 1 {
        seq![s[0]] + lowercase_of(s.drop_first())
    } else {
        s
    }
}

/// The words of a name in camel case as a phrase.
pub fn split_camel_case(name: &[char]) -> (r: Vec<char>)
    ensures
        r@ == camel_phrase(name@),
{
    let mut s: Vec<char> = Vec::new();
    let mut i: usize = 0;
    assert(name@.take(0) =~= Seq::<char>::empty());
    while i < name.len()
        invariant
            i <= name@.len(),
            s@ == spaced_words(name@.take(i as int)),
        decreases name.len() - i,
    {
        let c = name[i];
        assert(name@.take(i + 1).drop_last() =~= name@.take(i as int));
        if i >= 1 {
            let p = name[i - 1];
            if (('a' <= p && p <= 'z') || ('а' <= p && p <= 'я') || p == 'ё') && (('A' <= c && c <= 'Z')
                || ('А' <= c && c <= 'Я') || c == 'Ё') {
                s.push(' ');
            }
        }
        s.push(c);
        i = i + 1;
    }
    assert(name@.take(i as int) =~= name@);
    if s.len() > 1 {
        let rest = crate::text::slice_to_vec(&s, 1, s.len());
        let lower = to_lowercase(&rest);
        let mut r: Vec<char> = Vec::new();
        r.push(s[0]);
        push_chars(&mut r, &lower);
        assert(rest@ =~= s@.drop_first());
        assert(r@ =~= seq![s@[0]] + lowercase_of(s@.drop_first()));
        r
    } else {
        s
    }
}

/// What a subsystem definition gives: every text as written, empty where it is
/// absent; the two flags as the text of their values, where given.
pub struct SubsystemDefinition {
    pub name: Vec<char>,
    pub synonym: Vec<char>,
    pub comment: Vec<char>,
    pub include_in_command_interface: Option<Vec<char>>,
    pub use_one_command: Option<Vec<char>>,
    pub explanation: Vec<char>,
    pub picture: Vec<char>,
    pub uuid: Vec<char>,
    pub content: Vec<Vec<char>>,
    pub children: Vec<Vec<char>>,
}

/// The text of a flag: its value in lower case, or the default.
pub open spec fn flag_text(v: Option<Vec<char>>, default: Seq<char>) -> Seq<char> {
    match v {
        Some(t) => lowercase_of(t@),
        None => default,
    }
}

/// The `[NORM]` lines for the content references that normalizing changes.
pub open spec fn normalization_notes(raw: Seq<Seq<char>>) -> Seq<char>
    decreases raw.len(),
{
    if raw.len() == 0 {
        Seq::empty()
    } else {
        let x = raw.last();
        normalization_notes(raw.drop_last()) + if normalized_content_ref(x) != x {
            "[NORM] Content: "@ + x + " -> "@ + normalized_content_ref(x) + "\n"@
        } else {
            Seq::empty()
        }
    }
}

/// How many content references normalizing changes.
pub open spec fn normalized_count(raw: Seq<Seq<char>>) -> nat
    decreases raw.len(),
{
    if raw.len() == 0 {
        0
    } else {
        normalized_count(raw.drop_last()) + if normalized_content_ref(raw.last()) != raw.last() {
            1nat
        } else {
            0nat
        }
    }
}

/// The messages about normalized content references.
pub open spec fn normalization_messages(raw: Seq<Seq<char>>) -> Seq<char> {
    normalization_notes(raw) + if normalized_count(raw) > 0 {
        "[INFO] Normalized "@ + nat_text(normalized_count(raw))
            + " content reference(s) to singular English form\n"@
    } else {
        Seq::empty()
    }
}

/// The lines of a subsystem's metadata file.
pub open spec fn subsystem_file_lines(
    name: Seq<char>,
    synonym: Seq<char>,
    comment: Seq<char>,
    include_in_ci: Seq<char>,
    use_one_command: Seq<char>,
    explanation: Seq<char>,
    picture: Seq<char>,
    uuid: Seq<char>,
    content: Seq<Seq<char>>,
    children: Seq<Seq<char>>,
    format_version: Seq<char>,
) -> Seq<Seq<char>> {
    seq![
        "<?xml version=\"1.0\" encoding=\"UTF-8\"?>"@,
        metadata_root_line(format_version),
        "\t<Subsystem uuid=\""@ + escape_xml(uuid) + "\">"@,
        "\t\t<Properties>"@,
        "\t\t\t<Name>"@ + escape_xml(name) + "</Name>"@,
    ] + md_mltext_lines("\t\t\t"@, "Synonym"@, synonym) + (if comment.len() == 0 {
        seq!["\t\t\t<Comment/>"@]
    } else {
        seq!["\t\t\t<Comment>"@ + escape_xml(comment) + "</Comment>"@]
    }) + seq![
        "\t\t\t<IncludeHelpInContents>true</IncludeHelpInContents>"@,
        "\t\t\t<IncludeInCommandInterface>"@ + include_in_ci + "</IncludeInCommandInterface>"@,
        "\t\t\t<UseOneCommand>"@ + use_one_command + "</UseOneCommand>"@,
    ] + md_mltext_lines("\t\t\t"@, "Explanation"@, explanation) + (if picture.len() == 0 {
        seq!["\t\t\t<Picture/>"@]
    } else {
        seq![
            "\t\t\t<Picture>"@,
            "\t\t\t\t<xr:Ref>"@ + picture + "</xr:Ref>"@,
            "\t\t\t\t<xr:LoadTransparent>false</xr:LoadTransparent>"@,
            "\t\t\t</Picture>"@,
        ]
    }) + (if content.len() == 0 {
        seq!["\t\t\t<Content/>"@]
    } else {
        seq!["\t\t\t<Content>"@] + content.map_values(
            |c: Seq<char>| "\t\t\t\t<xr:Item xsi:type=\"xr:MDObjectRef\">"@ + escape_xml(c) + "</xr:Item>"@,
        ) + seq!["\t\t\t</Content>"@]
    }) + seq!["\t\t</Properties>"@] + (if children.len() == 0 {
        seq!["\t\t<ChildObjects/>"@]
    } else {
        seq!["\t\t<ChildObjects>"@] + children.map_values(
            |c: Seq<char>| "\t\t\t<Subsystem>"@ + escape_xml(c) + "</Subsystem>"@,
        ) + seq!["\t\t</ChildObjects>"@]
    }) + seq!["\t</Subsystem>"@, "</MetaDataObject>"@]
}

/// A compiled subsystem: its metadata file, its UUID, its content references
/// and the messages about them.
pub struct SubsystemCompiled {
    pub xml: Vec<char>,
    pub uuid: Vec<char>,
    pub content: Vec<Vec<char>>,
    pub messages: Vec<char>,
}

/// What compiling a definition gives: the error for a definition without a
/// name, else the file, the UUID, the content and the messages. `fresh_uuid`
/// is used where the definition gives no UUID.
pub open spec fn compiled_subsystem(
    d: SubsystemDefinition,
    format_version: Seq<char>,
    fresh_uuid: Seq<char>,
) -> Result<(Seq<char>, Seq<char>, Seq<Seq<char>>, Seq<char>), Seq<char>> {
    if d.name@.len() == 0 {
        Err("JSON must have 'name' field"@)
    } else {
        let content = views(d.content@).map_values(|c: Seq<char>| normalized_content_ref(c));
        let uuid = if d.uuid@.len() > 0 {
            d.uuid@
        } else {
            fresh_uuid
        };
        let synonym = if d.synonym@.len() > 0 {
            d.synonym@
        } else {
            camel_phrase(d.name@)
        };
        let lines = subsystem_file_lines(
            d.name@,
            synonym,
            d.comment@,
            flag_text(d.include_in_command_interface, "true"@),
            flag_text(d.use_one_command, "false"@),
            d.explanation@,
            d.picture@,
            uuid,
            content,
            views(d.children@),
            format_version,
        );
        Ok((join(lines, "\n"@) + "\n"@, uuid, content, normalization_messages(views(d.content@))))
    }
}

fn push_wrapped_items(lines: &mut Vec<Vec<char>>, items: &Vec<Vec<char>>, before: &str, after: &str)
    ensures
        views(final(lines)@) == views(old(lines)@) + views(items@).map_values(
            |c: Seq<char>| before@ + escape_xml(c) + after@,
        ),
{
    let ghost start = views(lines@);
    let ghost f = |c: Seq<char>| before@ + escape_xml(c) + after@;
    let mut i: usize = 0;
    while i < items.len()
        invariant
            i <= items@.len(),
            f == |c: Seq<char>| before@ + escape_xml(c) + after@,
            views(lines@) == start + views(items@).take(i as int).map_values(f),
        decreases items.len() - i,
    {
        let empty: Vec<char> = Vec::new();
        let line = wrap_escaped(&empty, before, &items[i], after);
        push_line(lines, line);
        assert(views(items@).take(i + 1).map_values(f) =~= views(items@).take(i as int).map_values(f).push(
            f(items@[i as int]@),
        ));
        assert(views(lines@) =~= start + views(items@).take(i + 1).map_values(f));
        i = i + 1;
    }
    assert(views(items@).take(i as int) =~= views(items@));
}

fn normalize_content(raw: &Vec<Vec<char>>) -> (r: (Vec<Vec<char>>, Vec<char>))
    ensures
        views(r.0@) == views(raw@).map_values(|c: Seq<char>| normalized_content_ref(c)),
        r.1@ == normalization_messages(views(raw@)),
{
    let ghost all = views(raw@);
    let mut out: Vec<Vec<char>> = Vec::new();
    let mut notes: Vec<char> = Vec::new();
    let mut count: usize = 0;
    let mut i: usize = 0;
    while i < raw.len()
        invariant
            i <= raw@.len(),
            all == views(raw@),
            views(out@) == all.take(i as int).map_values(|c: Seq<char>| normalized_content_ref(c)),
            notes@ == normalization_notes(all.take(i as int)),
            count == normalized_count(all.take(i as int)),
            count <= i,
        decreases raw.len() - i,
    {
        let x = &raw[i];
        let n = normalize_subsystem_content_ref(x);
        assert(all.take(i + 1).drop_last() =~= all.take(i as int));
        assert(all.take(i + 1).last() == x@);
        if !crate::text::eq_chars(&n, x) {
            push_str(&mut notes, "[NORM] Content: ");
            push_chars(&mut notes, x);
            push_str(&mut notes, " -> ");
            push_chars(&mut notes, &n);
            push_str(&mut notes, "\n");
            count = count + 1;
        }
        let ghost nv = n@;
        push_line(&mut out, n);
        assert(all.take(i + 1).map_values(|c: Seq<char>| normalized_content_ref(c)) =~= all.take(i as int).map_values(
            |c: Seq<char>| normalized_content_ref(c),
        ).push(nv));
        i = i + 1;
    }
    assert(all.take(i as int) =~= all);
    if count > 0 {
        push_str(&mut notes, "[INFO] Normalized ");
        push_chars(&mut notes, &usize_text(count));
        push_str(&mut notes, " content reference(s) to singular English form\n");
    }
    (out, notes)
}

/// The text of a flag: its value in lower case, or the default.
pub fn flag_value(v: &Option<Vec<char>>, default: &str) -> (r: Vec<char>)
    ensures
        r@ == flag_text(*v, default@),
{
    match v {
        Some(t) => to_lowercase(t),
        None => chars_of(default),
    }
}

#[verifier::rlimit(40)]
fn subsystem_lines(
    name: &[char],
    synonym: &[char],
    comment: &[char],
    include_in_ci: &[char],
    use_one_command: &[char],
    explanation: &[char],
    picture: &[char],
    uuid: &[char],
    content: &Vec<Vec<char>>,
    children: &Vec<Vec<char>>,
    format_version: &[char],
) -> (lines: Vec<Vec<char>>)
    ensures
        views(lines@) == subsystem_file_lines(
            name@,
            synonym@,
            comment@,
            include_in_ci@,
            use_one_command@,
            explanation@,
            picture@,
            uuid@,
            views(content@),
            views(children@),
            format_version@,
        ),
{
    let empty: Vec<char> = Vec::new();
    let mut lines: Vec<Vec<char>> = Vec::new();
    push_line(&mut lines, chars_of("<?xml version=\"1.0\" encoding=\"UTF-8\"?>"));
    push_line(&mut lines, metadata_root_text(format_version));
    push_line(&mut lines, wrap_escaped(&empty, "\t<Subsystem uuid=\"", uuid, "\">"));
    push_line(&mut lines, chars_of("\t\t<Properties>"));
    push_line(&mut lines, wrap_escaped(&empty, "\t\t\t<Name>", name, "</Name>"));
    let ghost a = views(lines@);
    push_md_mltext(&mut lines, "\t\t\t", "Synonym", synonym);
    let ghost b = views(lines@);
    if comment.len() == 0 {
        push_line(&mut lines, chars_of("\t\t\t<Comment/>"));
    } else {
        push_line(&mut lines, wrap_escaped(&empty, "\t\t\t<Comment>", comment, "</Comment>"));
    }
    let ghost c = views(lines@);
    push_line(&mut lines, chars_of("\t\t\t<IncludeHelpInContents>true</IncludeHelpInContents>"));
    push_line(&mut lines, wrap(&empty, "\t\t\t<IncludeInCommandInterface>", include_in_ci, "</IncludeInCommandInterface>"));
    push_line(&mut lines, wrap(&empty, "\t\t\t<UseOneCommand>", use_one_command, "</UseOneCommand>"));
    let ghost d = views(lines@);
    push_md_mltext(&mut lines, "\t\t\t", "Explanation", explanation);
    let ghost e = views(lines@);
    if picture.len() == 0 {
        push_line(&mut lines, chars_of("\t\t\t<Picture/>"));
    } else {
        push_line(&mut lines, chars_of("\t\t\t<Picture>"));
        push_line(&mut lines, wrap(&empty, "\t\t\t\t<xr:Ref>", picture, "</xr:Ref>"));
        push_line(&mut lines, chars_of("\t\t\t\t<xr:LoadTransparent>false</xr:LoadTransparent>"));
        push_line(&mut lines, chars_of("\t\t\t</Picture>"));
    }
    let ghost f = views(lines@);
    if content.len() == 0 {
        push_line(&mut lines, chars_of("\t\t\t<Content/>"));
    } else {
        push_line(&mut lines, chars_of("\t\t\t<Content>"));
        push_wrapped_items(&mut lines, content, "\t\t\t\t<xr:Item xsi:type=\"xr:MDObjectRef\">", "</xr:Item>");
        push_line(&mut lines, chars_of("\t\t\t</Content>"));
    }
    let ghost g = views(lines@);
    push_line(&mut lines, chars_of("\t\t</Properties>"));
    if children.len() == 0 {
        push_line(&mut lines, chars_of("\t\t<ChildObjects/>"));
    } else {
        push_line(&mut lines, chars_of("\t\t<ChildObjects>"));
        push_wrapped_items(&mut lines, children, "\t\t\t<Subsystem>", "</Subsystem>");
        push_line(&mut lines, chars_of("\t\t</ChildObjects>"));
    }
    let ghost h = views(lines@);
    push_line(&mut lines, chars_of("\t</Subsystem>"));
    push_line(&mut lines, chars_of("</MetaDataObject>"));
    proof {
        assert(empty@ =~= Seq::<char>::empty());
        assert(views(lines@) =~= subsystem_file_lines(
            name@,
            synonym@,
            comment@,
            include_in_ci@,
            use_one_command@,
            explanation@,
            picture@,
            uuid@,
            views(content@),
            views(children@),
            format_version@,
        ));
    }
    lines
}

/// Compiles a subsystem definition into its metadata file. `fresh_uuid` is the
/// UUID for a definition that gives none.
pub fn subsystem_compile(d: &SubsystemDefinition, format_version: &[char], fresh_uuid: &[char]) -> (r: Result<SubsystemCompiled, Vec<char>>)
    ensures
        match compiled_subsystem(*d, format_version@, fresh_uuid@) {
            Ok((xml, uuid, content, messages)) => r matches Ok(c) && c.xml@ == xml && c.uuid@ == uuid
                && views(c.content@) == content && c.messages@ == messages,
            Err(e) => r matches Err(m) && m@ == e,
        },
{
    if d.name.len() == 0 {
        return Err(chars_of("JSON must have 'name' field"));
    }
    let (content, messages) = normalize_content(&d.content);
    let uuid = if d.uuid.len() > 0 {
        to_vec(&d.uuid)
    } else {
        to_vec(fresh_uuid)
    };
    let synonym = if d.synonym.len() > 0 {
        to_vec(&d.synonym)
    } else {
        split_camel_case(&d.name)
    };
    let ci = flag_value(&d.include_in_command_interface, "true");
    let one = flag_value(&d.use_one_command, "false");
    let lines = subsystem_lines(
        &d.name,
        &synonym,
        &d.comment,
        &ci,
        &one,
        &d.explanation,
        &d.picture,
        &uuid,
        &content,
        &d.children,
        format_version,
    );
    let mut xml = join_str(&lines, "\n");
    push_str(&mut xml, "\n");
    Ok(SubsystemCompiled { xml, uuid, content, messages })
}

/// The lines of the metadata file of a new, empty child subsystem.
pub open spec fn stub_lines(child: Seq<char>, format_version: Seq<char>, uuid: Seq<char>) -> Seq<Seq<char>> {
    seq![
        "<?xml version=\"1.0\" encoding=\"UTF-8\"?>"@,
        metadata_root_line(format_version),
        "\t<Subsystem uuid=\""@ + uuid + "\">"@,
        "\t\t<Properties>"@,
        "\t\t\t<Name>"@ + escape_xml(child) + "</Name>"@,
        "\t\t\t<Synonym/>"@,
        "\t\t\t<Comment/>"@,
        "\t\t\t<IncludeHelpInContents>true</IncludeHelpInContents>"@,
        "\t\t\t<IncludeInCommandInterface>true</IncludeInCommandInterface>"@,
        "\t\t\t<UseOneCommand>false</UseOneCommand>"@,
        "\t\t\t<Explanation/>"@,
        "\t\t\t<Picture/>"@,
        "\t\t\t<Content/>"@,
        "\t\t</Properties>"@,
        "\t\t<ChildObjects/>"@,
        "\t</Subsystem>"@,
        "</MetaDataObject>"@,
    ]
}

/// The metadata file of a new, empty child subsystem.
pub fn subsystem_stub_xml(child: &[char], format_version: &[char], uuid: &[char]) -> (r: Vec<char>)
    ensures
        r@ == join(stub_lines(child@, format_version@, uuid@), "\n"@) + "\n"@,
{
    let empty: Vec<char> = Vec::new();
    let mut lines: Vec<Vec<char>> = Vec::new();
    push_line(&mut lines, chars_of("<?xml version=\"1.0\" encoding=\"UTF-8\"?>"));
    push_line(&mut lines, metadata_root_text(format_version));
    push_line(&mut lines, wrap(&empty, "\t<Subsystem uuid=\"", uuid, "\">"));
    push_line(&mut lines, chars_of("\t\t<Properties>"));
    push_line(&mut lines, wrap_escaped(&empty, "\t\t\t<Name>", child, "</Name>"));
    push_line(&mut lines, chars_of("\t\t\t<Synonym/>"));
    push_line(&mut lines, chars_of("\t\t\t<Comment/>"));
    push_line(&mut lines, chars_of("\t\t\t<IncludeHelpInContents>true</IncludeHelpInContents>"));
    push_line(&mut lines, chars_of("\t\t\t<IncludeInCommandInterface>true</IncludeInCommandInterface>"));
    push_line(&mut lines, chars_of("\t\t\t<UseOneCommand>false</UseOneCommand>"));
    push_line(&mut lines, chars_of("\t\t\t<Explanation/>"));
    push_line(&mut lines, chars_of("\t\t\t<Picture/>"));
    push_line(&mut lines, chars_of("\t\t\t<Content/>"));
    push_line(&mut lines, chars_of("\t\t</Properties>"));
    push_line(&mut lines, chars_of("\t\t<ChildObjects/>"));
    push_line(&mut lines, chars_of("\t</Subsystem>"));
    push_line(&mut lines, chars_of("</MetaDataObject>"));
    assert(empty@ =~= Seq::<char>::empty());
    assert(views(lines@) =~= stub_lines(child@, format_version@, uuid@));
    let mut r = join_str(&lines, "\n");
    push_str(&mut r, "\n");
    r
}

/// How registering a subsystem in its parent file went.
pub enum Registration {
    Already,
    Registered,
    NotFound,
}

/// Registering subsystem `name` in the `ChildObjects` of its parent's text: the
/// outcome and the new text.
pub open spec fn registered_text(raw: Seq<char>, name: Seq<char>) -> (Registration, Seq<char>) {
    let tag = "<Subsystem>"@ + escape_xml(name) + "</Subsystem>"@;
    if contains(raw, tag) {
        (Registration::Already, raw)
    } else if contains(raw, "<ChildObjects/>"@) {
        (
            Registration::Registered,
            replace_first(raw, "<ChildObjects/>"@, "<ChildObjects>\n\t\t\t"@ + tag + "\n\t\t</ChildObjects>"@),
        )
    } else if contains(raw, "</ChildObjects>"@) {
        (Registration::Registered, replace_first(raw, "</ChildObjects>"@, "\t\t\t"@ + tag + "\n\t\t</ChildObjects>"@))
    } else {
        (Registration::NotFound, raw)
    }
}

/// Registers subsystem `name` in the `ChildObjects` of its parent's text.
pub fn subsystem_register(raw: &[char], name: &[char]) -> (r: (Registration, Vec<char>))
    ensures
        (r.0, r.1@) == registered_text(raw@, name@),
{
    let empty: Vec<char> = Vec::new();
    let tag = wrap_escaped(&empty, "<Subsystem>", name, "</Subsystem>");
    assert(empty@ =~= Seq::<char>::empty());
    if crate::text::contains_chars(raw, &tag) {
        return (Registration::Already, to_vec(raw));
    }
    if crate::text::contains_str(raw, "<ChildObjects/>") {
        let mut rep = chars_of("<ChildObjects>\n\t\t\t");
        push_chars(&mut rep, &tag);
        push_str(&mut rep, "\n\t\t</ChildObjects>");
        return (Registration::Registered, replace_first_exec(raw, &chars_of("<ChildObjects/>"), &rep));
    }
    if crate::text::contains_str(raw, "</ChildObjects>") {
        let mut rep = chars_of("\t\t\t");
        push_chars(&mut rep, &tag);
        push_str(&mut rep, "\n\t\t</ChildObjects>");
        return (Registration::Registered, replace_first_exec(raw, &chars_of("</ChildObjects>"), &rep));
    }
    (Registration::NotFound, to_vec(raw))
}

/// The names of `s`, each once, in the order they first come.
pub open spec fn distinct_in_order(s: Seq<Seq<char>>) -> Seq<Seq<char>>
    decreases s.len(),
{
    if s.len() == 0 {
        Seq::empty()
    } else {
        let p = distinct_in_order(s.drop_last());
        if p.contains(s.last()) {
            p
        } else {
            p.push(s.last())
        }
    }
}

/// The child subsystems of a definition that get a file: each name once, in
/// the order the names first come.
pub fn subsystem_stub_children(children: &[Vec<char>]) -> (r: Vec<Vec<char>>)
    ensures
        views(r@) == distinct_in_order(views(children@)),
{
    let ghost cv = views(children@);
    let mut r: Vec<Vec<char>> = Vec::new();
    let mut i: usize = 0;
    assert(cv.take(0) =~= Seq::<Seq<char>>::empty());
    assert(views(r@) =~= Seq::<Seq<char>>::empty());
    while i < children.len()
        invariant
            i <= children@.len(),
            cv == views(children@),
            views(r@) == distinct_in_order(cv.take(i as int)),
        decreases children.len() - i,
    {
        assert(cv.take(i + 1).drop_last() =~= cv.take(i as int));
        assert(cv.take(i + 1).last() == children@[i as int]@);
        let ghost rv = views(r@);
        let mut seen = false;
        let mut j: usize = 0;
        while j < r.len()
            invariant
                j <= r@.len(),
                i < children@.len(),
                rv == views(r@),
                seen == (exists|k: int| 0 <= k < j && #[trigger] rv[k] == children@[i as int]@),
            decreases r.len() - j,
        {
            assert(rv[j as int] == r@[j as int]@);
            if crate::text::eq_chars(&r[j], &children[i]) {
                seen = true;
            }
            j = j + 1;
        }
        assert(seen == rv.contains(children@[i as int]@));
        if !seen {
            push_line(&mut r, crate::text::to_vec(&children[i]));
        }
        i = i + 1;
    }
    assert(cv.take(i as int) =~= cv);
    r
}

} // verus!
