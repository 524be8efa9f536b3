use unica_coder::mxl_decompile::{
    json_copy, mxl_decompile_areas, mxl_decompile_border_desc, mxl_decompile_compress_empty_rows,
    mxl_decompile_compress_widths, mxl_decompile_font_json, mxl_decompile_font_key, mxl_decompile_format,
    mxl_decompile_name_fonts, mxl_decompile_style_json, mxl_decompile_style_key, mxl_decompile_style_name,
    mxl_decompile_style_name_for_format, mxl_decompile_styles, mxl_decompile_used_styles, ordered_json_is_empty_object,
    render_ordered_json, render_ordered_json_at, unique_name_exec, MxlDecompiledCell, MxlDecompiledRow, MxlNamedItem,
    MxlRawFont, MxlRawFormat, OrderedJson,
};

fn chars(s: &str) -> Vec<char> {
    s.chars().collect()
}

fn text(v: &[char]) -> String {
    v.iter().collect()
}

fn texts(v: &[Vec<char>]) -> Vec<String> {
    v.iter().map(|x| text(x)).collect()
}

fn font(face: &str, size: i64, bold: bool, italic: bool) -> MxlRawFont {
    MxlRawFont { face: chars(face), size, bold, italic, underline: false, strikeout: false }
}

fn format(font_idx: i64, borders: [i64; 4], ha: &str) -> MxlRawFormat {
    MxlRawFormat {
        font_idx,
        lb: borders[0],
        tb: borders[1],
        rb: borders[2],
        bb: borders[3],
        width: 0,
        height: 0,
        ha: chars(ha),
        va: Vec::new(),
        wrap: false,
        fill_type: Vec::new(),
        data_format: Vec::new(),
    }
}

fn obj(fields: Vec<(&str, OrderedJson)>) -> OrderedJson {
    OrderedJson::Obj(fields.into_iter().map(|(k, v)| (chars(k), v)).collect())
}

fn s(v: &str) -> OrderedJson {
    OrderedJson::Str(chars(v))
}

fn render(j: &OrderedJson) -> String {
    text(&render_ordered_json(j))
}

fn cell(col: i64, format_idx: i64, param: Option<&str>, text_value: Option<&str>) -> MxlDecompiledCell {
    MxlDecompiledCell { col, format_idx, param: param.map(chars), detail: None, text: text_value.map(chars) }
}

#[test]
fn rendering_escapes_strings_as_json_does() {
    let j = obj(vec![("a\"b", s("line\nbreak\t\u{1}\\")), ("n", OrderedJson::Int(-5)), ("ok", OrderedJson::Bool(true))]);
    assert_eq!(render(&j), "{\n  \"a\\\"b\": \"line\\nbreak\\t\\u0001\\\\\",\n  \"n\": -5,\n  \"ok\": true\n}");
    assert_eq!(render(&obj(vec![])), "{}");
    assert_eq!(render(&OrderedJson::Arr(vec![])), "[]");
    let nested = OrderedJson::Arr(vec![obj(vec![("x", OrderedJson::Int(1))]), s("Ж")]);
    assert_eq!(render(&nested), "[\n  {\n    \"x\": 1\n  },\n  \"Ж\"\n]");
    assert_eq!(text(&render_ordered_json_at(&nested, 2)), "[\n    {\n      \"x\": 1\n    },\n    \"Ж\"\n  ]");
    assert_eq!(render(&json_copy(&nested)), render(&nested));
    assert!(ordered_json_is_empty_object(&obj(vec![])));
    assert!(!ordered_json_is_empty_object(&OrderedJson::Arr(vec![])));
}

#[test]
fn format_index_is_one_based() {
    let formats = vec![format(0, [-1; 4], "Left"), format(1, [-1; 4], "Right")];
    assert_eq!(text(&mxl_decompile_format(&formats, 2).unwrap().ha), "Right");
    assert!(mxl_decompile_format(&formats, 0).is_none());
    assert!(mxl_decompile_format(&formats, 3).is_none());
    assert!(mxl_decompile_format(&formats, -1).is_none());
}

#[test]
fn font_key_and_json() {
    let f = font("Arial", 10, true, false);
    assert_eq!(text(&mxl_decompile_font_key(&f)), "Arial|10|true|false|false|false");
    assert_eq!(render(&mxl_decompile_font_json(&f)), "{\n  \"face\": \"Arial\",\n  \"size\": 10,\n  \"bold\": true\n}");
}

#[test]
fn fonts_are_named_by_how_they_differ() {
    let fonts = vec![
        font("Arial", 10, false, false),
        font("Arial", 10, true, false),
        font("Arial", 10, true, false),
        font("Arial", 14, true, false),
        font("Arial", 8, false, false),
        font("Courier New", 10, false, true),
        font("Arial", 8, false, true),
    ];
    let (names, defs) = mxl_decompile_name_fonts(&fonts);
    assert_eq!(texts(&names), vec!["default", "bold", "bold", "header", "small", "courier new-10-italic", "small2"]);
    let def_names: Vec<String> = defs.iter().map(|(k, _)| text(k)).collect();
    assert_eq!(def_names, vec!["default", "bold", "header", "small", "courier new-10-italic", "small2"]);
    let (names, defs) = mxl_decompile_name_fonts(&[]);
    assert!(names.is_empty() && defs.is_empty());
}

#[test]
fn unique_names_get_the_first_free_number() {
    let taken = vec![chars("a"), chars("a2"), chars("a3")];
    assert_eq!(text(&unique_name_exec(&chars("a"), &taken)), "a4");
    assert_eq!(text(&unique_name_exec(&chars("b"), &taken)), "b");
}

#[test]
fn borders_are_described_by_side() {
    let lines = vec![1, 2];
    assert_eq!(mxl_decompile_border_desc(&format(0, [-1; 4], ""), &lines), (chars("none"), false));
    assert_eq!(mxl_decompile_border_desc(&format(0, [0, 0, 0, 0], ""), &lines), (chars("all"), false));
    assert_eq!(mxl_decompile_border_desc(&format(0, [0, 1, -1, -1], ""), &lines), (chars("top,left"), true));
    assert_eq!(mxl_decompile_border_desc(&format(0, [-1, -1, 5, 0], ""), &lines), (chars("bottom,right"), false));
}

#[test]
fn style_key_name_and_json() {
    let lines = vec![1, 2];
    let font_names = vec![chars("default"), chars("bold")];
    let f = format(1, [1, 1, 1, 1], "Center");
    assert_eq!(text(&mxl_decompile_style_key(Some(&f), &lines)), "f=1|b=all|bw=true|ha=Center|va=|wr=false|df=");
    assert_eq!(text(&mxl_decompile_style_key(None, &lines)), "empty");
    assert_eq!(text(&mxl_decompile_style_name(&f, &lines, &font_names)), "bold-bordered-center");
    let thick_top = format(0, [-1, 1, -1, -1], "");
    assert_eq!(text(&mxl_decompile_style_name(&thick_top, &lines, &font_names)), "border-top");
    assert_eq!(text(&mxl_decompile_style_name(&format(-1, [-1; 4], ""), &lines, &font_names)), "default");
    let mut wrapped = format(0, [-1; 4], "");
    wrapped.wrap = true;
    wrapped.data_format = chars("ЧДЦ=2");
    assert_eq!(text(&mxl_decompile_style_name(&wrapped, &lines, &font_names)), "wrap-fmt");
    assert_eq!(
        render(&mxl_decompile_style_json(&f, &lines, &font_names)),
        "{\n  \"font\": \"bold\",\n  \"align\": \"center\",\n  \"border\": \"all\",\n  \"borderWidth\": \"thick\"\n}"
    );
}

#[test]
fn style_name_of_a_format_goes_through_its_key() {
    let f2k = vec![(3, chars("k")), (3, chars("k2"))];
    let names = vec![(chars("k2"), chars("bold"))];
    assert_eq!(text(&mxl_decompile_style_name_for_format(3, &f2k, &names)), "bold");
    assert_eq!(text(&mxl_decompile_style_name_for_format(4, &f2k, &names)), "default");
}

#[test]
fn runs_of_empty_rows_are_folded() {
    let rows = vec![obj(vec![]), obj(vec![]), obj(vec![("x", OrderedJson::Int(1))]), obj(vec![]), obj(vec![("y", OrderedJson::Int(2))]), obj(vec![]), obj(vec![]), obj(vec![])];
    let out = mxl_decompile_compress_empty_rows(rows);
    let rendered: Vec<String> = out.iter().map(render).collect();
    assert_eq!(rendered, vec!["{\n  \"empty\": 2\n}", "{\n  \"x\": 1\n}", "{}", "{\n  \"y\": 2\n}", "{\n  \"empty\": 3\n}"]);
}

#[test]
fn widths_are_grouped_into_column_runs() {
    let widths = vec![(1, 20), (2, 20), (3, 15), (4, 20), (5, 20), (7, 20)];
    let out = mxl_decompile_compress_widths(&widths);
    let fields: Vec<(String, String)> = out.iter().map(|(k, v)| (text(k), render(v))).collect();
    assert_eq!(
        fields,
        vec![
            ("1-2".to_string(), "20".to_string()),
            ("4-5".to_string(), "20".to_string()),
            ("7".to_string(), "20".to_string()),
            ("3".to_string(), "15".to_string()),
        ]
    );
}

#[test]
fn styles_used_by_areas_are_collected_once() {
    let area = obj(vec![
        ("name", s("A")),
        (
            "rows",
            OrderedJson::Arr(vec![
                obj(vec![("rowStyle", s("r1")), ("cells", OrderedJson::Arr(vec![obj(vec![("col", OrderedJson::Int(1)), ("style", s("c1"))])]))]),
                obj(vec![("cells", OrderedJson::Arr(vec![obj(vec![("style", s("r1"))]), obj(vec![("style", OrderedJson::Int(1))])]))]),
            ]),
        ),
    ]);
    let mut used = texts(&mxl_decompile_used_styles(&[area]));
    used.sort();
    assert_eq!(used, vec!["c1", "r1"]);
}

#[test]
fn areas_describe_their_rows_cells_and_styles() {
    let raw_lines = vec![1];
    let mut tall = format(0, [-1; 4], "");
    tall.height = 30;
    let mut template = format(0, [0, 0, 0, 0], "Center");
    template.fill_type = chars("Template");
    let formats = vec![format(0, [-1; 4], ""), tall, template];
    let font_names = vec![chars("default")];
    let rows = vec![
        (0, MxlDecompiledRow { format_idx: 2, cells: vec![cell(2, 3, None, Some("Итого [Сумма]")), cell(0, 1, Some("Имя"), None), cell(1, 1, None, None)], empty: false }),
        (2, MxlDecompiledRow { format_idx: 0, cells: Vec::new(), empty: true }),
    ];
    let merges = vec![((0, 0), (1, 0))];
    let (style_names, style_defs, f2k) = mxl_decompile_styles(&rows, &formats, &raw_lines, &font_names);
    let def_names: Vec<String> = style_defs.iter().map(|(k, _)| text(k)).collect();
    assert_eq!(def_names, vec!["bordered-center", "default"]);
    assert_eq!(style_names.len(), 2);
    assert_eq!(f2k.len(), 3);
    let areas = vec![MxlNamedItem { name: chars("Шапка"), begin_row: 0, end_row: 3 }];
    let out = mxl_decompile_areas(&areas, &rows, &formats, &raw_lines, &merges, &style_names, &f2k);
    assert_eq!(out.len(), 1);
    assert_eq!(
        render(&out[0]),
        "{\n  \"name\": \"Шапка\",\n  \"rows\": [\n    {\n      \"height\": 30,\n      \"cells\": [\n        {\n          \"col\": 1,\n          \"span\": 2,\n          \"param\": \"Имя\"\n        },\n        {\n          \"col\": 3,\n          \"style\": \"bordered-center\",\n          \"template\": \"Итого [Сумма]\"\n        }\n      ]\n    },\n    {\n      \"empty\": 3\n    }\n  ]\n}"
    );
}

#[test]
fn font_base_names_use_the_lowered_face() {
    let default = font("Arial", 10, false, false);
    let other = font("Times New Roman", 12, true, false);
    let name = unica_coder::mxl_decompile::mxl_decompile_font_base_name(&other, &default, &chars("times new roman"));
    assert_eq!(text(&name), "times new roman-12-bold");
}
