use unica_coder::subsystem_info::subsystem_info_ci_lines;

fn chars(s: &str) -> Vec<char> {
    s.chars().collect()
}

fn lines(v: &[Vec<char>]) -> Vec<String> {
    v.iter().map(|l| l.iter().collect()).collect()
}

const CI: &str = "<CommandInterface xmlns=\"http://v8.1c.ru/8.3/xcf/extrnprops\" xmlns:xr=\"http://v8.1c.ru/8.3/xcf/readable\">\
<CommandsVisibility>\
<Command name=\"Catalog.A.StandardCommand.Open\"><Visibility><xr:Common>false</xr:Common></Visibility></Command>\
<Command name=\"Catalog.B.StandardCommand.Open\"><Visibility><xr:Common>true</xr:Common></Visibility></Command>\
</CommandsVisibility>\
<CommandsPlacement>\
<Command name=\"Report.R.Command.Run\"><CommandGroup>NavigationPanelOrdinary</CommandGroup><Placement>Auto</Placement></Command>\
<Command name=\"Report.S.Command.Run\"><Placement>Auto</Placement></Command>\
</CommandsPlacement>\
<CommandsOrder>\
<Command name=\"X\"><CommandGroup>G1</CommandGroup></Command>\
<Command name=\"Y\"><CommandGroup>G2</CommandGroup></Command>\
<Command name=\"Z\"><CommandGroup>G1</CommandGroup></Command>\
</CommandsOrder>\
</CommandInterface>";

#[test]
fn subsystem_info_ci_lines_reports_each_section() {
    let out = subsystem_info_ci_lines(&chars("Sales"), &Some(chars(CI)), &chars("ci.xml")).unwrap();
    let expected = vec![
        "Командный интерфейс: Sales",
        "",
        "Видимость (2):",
        "  СКРЫТО (1):",
        "    Catalog.A.StandardCommand.Open",
        "  ПОКАЗАНО (1):",
        "    Catalog.B.StandardCommand.Open",
        "",
        "Размещение (2):",
        "  Report.R.Command.Run → NavigationPanelOrdinary (Auto)",
        "  Report.S.Command.Run → ? (Auto)",
        "",
        "Порядок команд (3):",
        "  [G1]:",
        "    X",
        "    Z",
        "  [G2]:",
        "    Y",
        "",
    ];
    assert_eq!(lines(&out), expected);
}

#[test]
fn subsystem_info_ci_lines_notes_a_missing_file() {
    let out = subsystem_info_ci_lines(&chars("Sales"), &None, &chars("/x/Ext/CommandInterface.xml")).unwrap();
    assert_eq!(
        lines(&out),
        vec![
            "Командный интерфейс: Sales",
            "",
            "Файл CommandInterface.xml не найден.",
            "Путь: /x/Ext/CommandInterface.xml",
        ]
    );
}

#[test]
fn subsystem_info_ci_lines_refuses_text_that_is_not_xml() {
    let err = subsystem_info_ci_lines(&chars("Sales"), &Some(chars("<a>")), &chars("ci.xml")).unwrap_err();
    assert!(err.iter().collect::<String>().starts_with("XML parse error in ci.xml: "));
}
