use unica_coder::mxl_compile::{
    mxl_compile, mxl_compile_refusal, mxl_compile_with_report, mxl_page_target, MxlAreaDef, MxlCellDef, MxlColumnWidth,
    MxlDefinition, MxlFontDef, MxlRowDef, MxlRowFields, MxlStyleDef,
};

fn chars(s: &str) -> Vec<char> {
    s.chars().collect()
}

fn text(v: &[char]) -> String {
    v.iter().collect()
}

fn cell(col: i64, span: Option<i64>, style: Option<&str>, body: Option<&str>) -> MxlCellDef {
    MxlCellDef {
        col: Some(col),
        span,
        rowspan: None,
        style: style.map(chars),
        param_set: false,
        template_set: false,
        text_set: body.is_some(),
        param: None,
        detail: None,
        text: body.map(chars),
        template: None,
    }
}

fn fields(cells: Option<Vec<MxlCellDef>>, row_style: Option<&str>) -> MxlRowDef {
    MxlRowDef::Fields(MxlRowFields { empty_set: false, empty: None, height: None, row_style: row_style.map(chars), cells })
}

fn definition(areas: Vec<MxlAreaDef>) -> MxlDefinition {
    MxlDefinition {
        columns_set: true,
        columns: Some(3),
        areas_set: true,
        areas: Some(areas),
        default_width: None,
        fonts: Some(vec![(
            chars("bold"),
            MxlFontDef { face: Some(chars("Arial")), size: Some(10), bold: true, italic: false, underline: false, strikeout: false },
        )]),
        styles: Some(vec![(
            chars("b"),
            MxlStyleDef {
                font: Some(chars("bold")),
                border: Some(chars("all")),
                border_width: None,
                align: None,
                valign: None,
                wrap: false,
                format: None,
            },
        )]),
        page: None,
        column_widths: None,
        page_default_width: None,
    }
}

fn header() -> MxlAreaDef {
    MxlAreaDef { name: Some(chars("Header")), rows: Some(vec![fields(Some(vec![cell(1, Some(2), Some("b"), Some("Hi"))]), Some("b"))]) }
}

#[test]
fn mxl_compile_writes_cells_gaps_merges_and_formats() {
    let (xml, report) = mxl_compile_with_report(&definition(vec![header()]), &chars("out.mxl")).unwrap();
    let xml = text(&xml);
    assert!(xml.starts_with("<?xml version=\"1.0\" encoding=\"UTF-8\"?>\n<document "));
    assert!(xml.contains("\t<columns>\n\t\t<size>3</size>\n\t</columns>\n\t<rowsItem>\n\t\t<index>0</index>\n\t\t<row>\n\t\t\t<c>\n\t\t\t\t<i>0</i>\n\t\t\t\t<c>\n\t\t\t\t\t<f>3</f>\n"));
    assert!(xml.contains("\t\t\t<c>\n\t\t\t\t<i>2</i>\n\t\t\t\t<c>\n\t\t\t\t\t<f>2</f>\n\t\t\t\t</c>\n\t\t\t</c>\n\t\t</row>\n"));
    assert!(xml.contains("\t<templateMode>true</templateMode>\n\t<defaultFormatIndex>1</defaultFormatIndex>\n\t<height>1</height>\n\t<vgRows>1</vgRows>\n\t<merge>\n\t\t<r>0</r>\n\t\t<c>0</c>\n\t\t<w>1</w>\n\t</merge>\n"));
    assert!(xml.contains("\t\t<name>Header</name>\n\t\t<area>\n\t\t\t<type>Rows</type>\n\t\t\t<beginRow>0</beginRow>\n\t\t\t<endRow>0</endRow>\n"));
    assert!(xml.contains("\t<line width=\"1\" gap=\"false\">\n"));
    assert!(xml.contains("\t<font faceName=\"Arial\" height=\"10\" bold=\"true\" italic=\"false\" underline=\"false\" strikeout=\"false\" kind=\"Absolute\" scale=\"100\"/>\n\t<font faceName=\"Arial\" height=\"10\" bold=\"false\""));
    assert!(xml.contains("\t<format>\n\t\t<width>10</width>\n\t</format>\n\t<format>\n\t\t<font>0</font>\n\t\t<leftBorder>0</leftBorder>\n\t\t<topBorder>0</topBorder>\n\t\t<rightBorder>0</rightBorder>\n\t\t<bottomBorder>0</bottomBorder>\n\t</format>\n"));
    assert!(xml.ends_with("</document>\n"));
    assert_eq!(
        text(&report),
        "[OK] Compiled: out.mxl\n     Areas: 1, Rows: 1, Columns: 3\n     Fonts: 2, Lines: 1, Formats: 3\n     Merges: 1\n"
    );
}

#[test]
fn mxl_compile_refuses_missing_fields_and_bad_specs() {
    let mut d = definition(vec![header()]);
    d.columns_set = false;
    assert_eq!(text(&mxl_compile(&d).unwrap_err()), "Required field 'columns' is missing");
    let mut d = definition(vec![header()]);
    d.areas_set = false;
    assert_eq!(text(&mxl_compile_refusal(&d).unwrap()), "Required field 'areas' is missing");
    let mut d = definition(vec![header()]);
    d.column_widths = Some(vec![MxlColumnWidth { spec: chars("a-b"), value: chars("5"), scaled: 0 }]);
    assert_eq!(text(&mxl_compile(&d).unwrap_err()), "invalid column spec: a-b");
    let d = definition(vec![MxlAreaDef { name: None, rows: Some(vec![MxlRowDef::Other]) }]);
    assert_eq!(text(&mxl_compile(&d).unwrap_err()), "MXL row must be an object or array");
}

#[test]
fn mxl_compile_writes_empty_rows_and_column_widths() {
    let mut d = definition(vec![MxlAreaDef {
        name: Some(chars("Gap")),
        rows: Some(vec![MxlRowDef::Fields(MxlRowFields { empty_set: true, empty: Some(2), height: None, row_style: None, cells: None }), MxlRowDef::List]),
    }]);
    d.column_widths = Some(vec![MxlColumnWidth { spec: chars("2-3"), value: chars("25"), scaled: 0 }]);
    let xml = text(&mxl_compile(&d).unwrap());
    assert!(xml.contains("\t\t<columnsItem>\n\t\t\t<index>1</index>\n\t\t\t<column>\n\t\t\t\t<formatIndex>2</formatIndex>\n\t\t\t</column>\n\t\t</columnsItem>\n\t\t<columnsItem>\n\t\t\t<index>2</index>"));
    assert!(xml.contains("\t<rowsItem>\n\t\t<index>1</index>\n\t\t<row>\n\t\t\t<empty>true</empty>\n\t\t</row>\n\t</rowsItem>\n\t<rowsItem>\n\t\t<index>2</index>\n\t\t<row>\n\t\t\t<empty>true</empty>"));
    assert!(xml.contains("\t<height>3</height>"));
    assert!(xml.contains("\t\t\t<beginRow>0</beginRow>\n\t\t\t<endRow>2</endRow>"));
}

#[test]
fn mxl_page_target_reads_numbers_and_a4_pages() {
    assert_eq!(mxl_page_target(&Some(chars("600"))), Some(600));
    assert_eq!(mxl_page_target(&Some(chars("A4-landscape"))), Some(780));
    assert_eq!(mxl_page_target(&Some(chars("A4-portrait"))), Some(540));
    assert_eq!(mxl_page_target(&Some(chars("A5"))), None);
    assert_eq!(mxl_page_target(&Some(chars(""))), None);
    assert_eq!(mxl_page_target(&None), None);
}
