use unica_coder::mxl::{
    emit_mxl_cell, emit_mxl_format, emit_mxl_text, mxl_format_key, mxl_prefix, mxl_template_placeholders,
    non_empty_string, parse_mxl_column_spec, truncate_mxl_list, MxlCellInfo, MxlFormatProps, MxlFormatRegistry,
    MxlValidationReporter,
};
use unica_coder::numbers::{i64_text, parse_i64};

fn chars(s: &str) -> Vec<char> {
    s.chars().collect()
}

fn text(v: &[char]) -> String {
    v.iter().collect()
}

fn texts(v: &[Vec<char>]) -> Vec<String> {
    v.iter().map(|x| text(x)).collect()
}

fn props(ha: &str) -> MxlFormatProps {
    MxlFormatProps {
        font_idx: Some(0),
        lb: None,
        tb: Some(1),
        rb: None,
        bb: Some(-1),
        ha: chars(ha),
        va: Vec::new(),
        wrap: true,
        fill_type: chars("Text"),
        number_format: Vec::new(),
        width: Some(12),
        height: None,
    }
}

#[test]
fn reporter_counts_and_stops_at_the_error_limit() {
    let mut r = MxlValidationReporter::new(2, false);
    r.ok(&chars("fine"));
    r.warn(&chars("odd"));
    r.error(&chars("bad"));
    assert!(!r.stopped);
    r.error(&chars("worse"));
    assert!(r.stopped);
    assert_eq!((r.ok_count, r.warnings, r.errors), (1, 1, 2));
    assert_eq!(texts(&r.lines), vec!["[WARN]  odd", "[ERROR] bad", "[ERROR] worse"]);
    let mut d = MxlValidationReporter::new(5, true);
    d.ok(&chars("fine"));
    assert_eq!(texts(&d.lines), vec!["[OK]    fine"]);
}

#[test]
fn non_empty_string_drops_only_empty_text() {
    assert_eq!(non_empty_string(chars("a")).map(|v| text(&v)), Some("a".to_string()));
    assert!(non_empty_string(Vec::new()).is_none());
}

#[test]
fn prefix_counts_chars() {
    assert_eq!(text(&mxl_prefix(&chars("Привет"), 3)), "При");
    assert_eq!(text(&mxl_prefix(&chars("ab"), 10)), "ab");
}

#[test]
fn placeholders_skip_numbers_and_empty_brackets() {
    let p = mxl_template_placeholders(&chars("Итого [Сумма] из [1] и [] [Кол-во] [неоконч"));
    assert_eq!(texts(&p), vec!["Сумма", "Кол-во"]);
    assert!(mxl_template_placeholders(&chars("no brackets")).is_empty());
}

#[test]
fn truncated_list_counts_the_rest() {
    let items = vec![chars("a"), chars("b"), chars("c")];
    assert_eq!(text(&truncate_mxl_list(&items, 3)), "a, b, c");
    assert_eq!(text(&truncate_mxl_list(&items, 1)), "a, ... (+2)");
    assert_eq!(text(&truncate_mxl_list(&items, 0)), ", ... (+3)");
}

#[test]
fn registry_reads_back_what_was_registered() {
    let mut reg = MxlFormatRegistry::new();
    let a = reg.register(chars("k1"), props("Left"));
    let b = reg.register(chars("k2"), props("Right"));
    let again = reg.register(chars("k1"), props("Center"));
    assert_eq!((a, b, again), (1, 2, 1));
    assert_eq!(reg.index_of(&chars("k1")), Some(1));
    assert_eq!(reg.index_of(&chars("k2")), Some(2));
    assert_eq!(reg.index_of(&chars("k3")), None);
    assert_eq!(reg.entries.len(), 2);
    assert_eq!(text(&reg.entries[0].1.ha), "Left");
}

#[test]
fn column_spec_lists_ranges_and_single_columns() {
    assert_eq!(parse_mxl_column_spec(&chars("1,3-5, 7")).unwrap(), vec![1, 3, 4, 5, 7]);
    assert_eq!(parse_mxl_column_spec(&chars("5-3")).unwrap(), Vec::<i64>::new());
    assert_eq!(parse_mxl_column_spec(&chars("2-2")).unwrap(), vec![2]);
    let e = parse_mxl_column_spec(&chars("1,x")).unwrap_err();
    assert_eq!(text(&e), "invalid column spec: 1,x");
    assert!(parse_mxl_column_spec(&chars("-5")).is_err());
    assert!(parse_mxl_column_spec(&chars("")).is_err());
}

#[test]
fn parse_reads_back_decimal_text() {
    for v in [0i64, 7, -7, 1234567890, i64::MAX, i64::MIN] {
        assert_eq!(parse_i64(&i64_text(v)), Some(v));
    }
    assert_eq!(parse_i64(&chars("+42")), Some(42));
    assert_eq!(parse_i64(&chars("9223372036854775808")), None);
    assert_eq!(parse_i64(&chars("-9223372036854775809")), None);
    assert_eq!(parse_i64(&chars("-")), None);
    assert_eq!(parse_i64(&chars(" 1")), None);
}

#[test]
fn format_key_lists_every_property() {
    assert_eq!(
        text(&mxl_format_key(&props("Left"))),
        "f=0|lb=-1|tb=1|rb=-1|bb=-1|ha=Left|va=|wr=True|ft=Text|nf=|w=12|h=-1"
    );
}

#[test]
fn emitted_cell_has_parameter_detail_and_text() {
    let mut lines = vec![chars("start")];
    let cell = MxlCellInfo {
        col: 3,
        format_idx: 2,
        param: Some(chars("P")),
        detail: Some(chars("D")),
        text: Some(chars("a<b")),
        template: None,
    };
    emit_mxl_cell(&mut lines, &cell);
    assert_eq!(
        texts(&lines),
        vec![
            "start",
            "\t\t\t<c>",
            "\t\t\t\t<i>3</i>",
            "\t\t\t\t<c>",
            "\t\t\t\t\t<f>2</f>",
            "\t\t\t\t\t<parameter>P</parameter>",
            "\t\t\t\t\t<detailParameter>D</detailParameter>",
            "\t\t\t\t\t<tl>",
            "\t\t\t\t\t\t<v8:item>",
            "\t\t\t\t\t\t\t<v8:lang>ru</v8:lang>",
            "\t\t\t\t\t\t\t<v8:content>a&lt;b</v8:content>",
            "\t\t\t\t\t\t</v8:item>",
            "\t\t\t\t\t</tl>",
            "\t\t\t\t</c>",
            "\t\t\t</c>",
        ]
    );
    let mut only_text = Vec::new();
    emit_mxl_text(&mut only_text, &chars("x"));
    assert_eq!(only_text.len(), 6);
}

#[test]
fn emitted_format_keeps_only_set_properties() {
    let mut lines = Vec::new();
    let mut p = props("Center");
    p.number_format = chars("ЧДЦ=2");
    emit_mxl_format(&mut lines, &p);
    assert_eq!(
        texts(&lines),
        vec![
            "\t<format>",
            "\t\t<font>0</font>",
            "\t\t<topBorder>1</topBorder>",
            "\t\t<width>12</width>",
            "\t\t<horizontalAlignment>Center</horizontalAlignment>",
            "\t\t<textPlacement>Wrap</textPlacement>",
            "\t\t<fillType>Text</fillType>",
            "\t\t<format>",
            "\t\t\t<v8:item>",
            "\t\t\t\t<v8:lang>ru</v8:lang>",
            "\t\t\t\t<v8:content>ЧДЦ=2</v8:content>",
            "\t\t\t</v8:item>",
            "\t\t</format>",
            "\t</format>",
        ]
    );
}
