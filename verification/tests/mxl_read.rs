use unica_coder::mxl_decompile::{
    mxl_decompile_json, render_ordered_json, MxlDecompiledCell, MxlDecompiledRow, MxlNamedItem, MxlRawFont,
    MxlRawFormat,
};
use unica_coder::mxl_read::mxl_decompile_text;

fn chars(s: &str) -> Vec<char> {
    s.chars().collect()
}

fn text(v: &[char]) -> String {
    v.iter().collect()
}

const DOC: &str = "\u{feff}<document xmlns=\"http://v8.1c.ru/8.2/data/spreadsheet\" \
xmlns:xsi=\"http://www.w3.org/2001/XMLSchema-instance\" xmlns:v8=\"http://v8.1c.ru/8.1/data/core\">\
<columns><size>2</size><columnsItem><index>1</index><column><formatIndex>1</formatIndex></column></columnsItem>\
<columnsItem><index>0</index><column><formatIndex>1</formatIndex></column></columnsItem></columns>\
<rowsItem><index>0</index><indexTo>1</indexTo><row><c><c><f>1</f><parameter>Номер</parameter></c></c>\
<c><c><f>1</f><tl><v8:item><v8:lang>ru</v8:lang><v8:content>Итого</v8:content></v8:item></tl></c></c></row></rowsItem>\
<namedItem xsi:type=\"NamedItemCells\"><name>Шапка</name><area><type>Rows</type><beginRow>0</beginRow><endRow>1</endRow></area></namedItem>\
<namedItem xsi:type=\"NamedItemCells\"><name>Колонки</name><area><type>Columns</type><beginRow>-1</beginRow><endRow>-1</endRow></area></namedItem>\
<merge><r>0</r><c>0</c><w>1</w><h>0</h></merge>\
<font faceName=\"Arial\" height=\"10\"/>\
<format><font>0</font><width>20</width><horizontalAlignment>Center</horizontalAlignment></format>\
</document>";

fn by_hand() -> String {
    let fonts = vec![MxlRawFont { face: chars("Arial"), size: 10, bold: false, italic: false, underline: false, strikeout: false }];
    let formats = vec![MxlRawFormat {
        font_idx: 0,
        lb: -1,
        tb: -1,
        rb: -1,
        bb: -1,
        width: 20,
        height: 0,
        ha: chars("Center"),
        va: Vec::new(),
        wrap: false,
        fill_type: Vec::new(),
        data_format: Vec::new(),
    }];
    let cells = || {
        vec![
            MxlDecompiledCell { col: 0, format_idx: 1, param: Some(chars("Номер")), detail: None, text: None },
            MxlDecompiledCell { col: 1, format_idx: 1, param: None, detail: None, text: Some(chars("Итого")) },
        ]
    };
    let rows = vec![
        (0, MxlDecompiledRow { format_idx: 0, cells: cells(), empty: false }),
        (1, MxlDecompiledRow { format_idx: 0, cells: cells(), empty: false }),
    ];
    let areas = vec![MxlNamedItem { name: chars("Шапка"), begin_row: 0, end_row: 1 }];
    let json = mxl_decompile_json(2, &[(0, 1), (1, 1)], 0, &fonts, &[], &formats, &[((0, 0), (1, 0))], &areas, &rows);
    text(&render_ordered_json(&json))
}

#[test]
fn mxl_decompile_text_reads_what_the_decompiler_takes() {
    let (json, counts) = mxl_decompile_text(&chars(DOC)).unwrap();
    assert_eq!(text(&render_ordered_json(&json)), by_hand());
    assert_eq!((counts.rows, counts.merges, counts.areas, counts.fonts), (2, 1, 1, 1));
}

#[test]
fn mxl_decompile_text_refuses_a_column_past_the_limit() {
    let doc = "<document xmlns=\"http://v8.1c.ru/8.2/data/spreadsheet\"><rowsItem><index>0</index><row>\
<c><i>9223372036854775807</i></c><c><c><f>0</f></c></c></row></rowsItem></document>";
    assert_eq!(mxl_decompile_text(&chars(doc)).err().map(|e| text(&e)), Some("column index overflow".to_string()));
    let doc = "<document xmlns=\"http://v8.1c.ru/8.2/data/spreadsheet\"><merge><r>0</r><c>0</c>\
<w>9223372036854775807</w></merge></document>";
    assert_eq!(mxl_decompile_text(&chars(doc)).err().map(|e| text(&e)), Some("merge too large".to_string()));
}

#[test]
fn mxl_decompile_text_refuses_text_that_is_not_xml() {
    assert!(mxl_decompile_text(&chars("<document>")).is_err());
}
