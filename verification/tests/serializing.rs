// Headers and values of records: which fields get a column, where their
// headers and values go, and what happens to values without a place.

use rust_xlsxwriter::error::XlsxError;
use rust_xlsxwriter::format::Format;
use rust_xlsxwriter::number::Number;
use rust_xlsxwriter::serializer::{
    find_custom, select_fields, CustomSerializeField, SerializeFieldOptions, SerializerHeader,
    SerializerState,
};
use rust_xlsxwriter::workbook::{PackagePart, Workbook};
use rust_xlsxwriter::worksheet::Worksheet;

fn part<'a>(parts: &'a [PackagePart], name: &str) -> &'a str {
    match parts.iter().find(|part| part.name == name) {
        Some(part) => part.content.as_str(),
        None => panic!("the package has no part {}", name),
    }
}

// The rows of the worksheet, and its shared strings.
fn rows_and_strings(worksheet: Worksheet) -> (String, String) {
    let mut workbook = Workbook::new();
    workbook.push_worksheet(worksheet);
    let parts = workbook.assemble().unwrap().parts;
    let xml = part(&parts, "xl/worksheets/sheet1.xml");
    let start = xml.find("<sheetData").unwrap();
    let end = xml.find("</sheetData>").map(|i| i + "</sheetData>".len()).unwrap_or(start + 12);
    let strings = match parts.iter().find(|part| part.name == "xl/sharedStrings.xml") {
        Some(part) => {
            let from = part.content.find("<si>").unwrap();
            part.content[from..].trim_end_matches("</sst>").to_string()
        }
        None => String::new(),
    };
    (xml[start..end].to_string(), strings)
}

// The header of a record type with the fields `a`, `b` and `c`.
fn abc() -> SerializerHeader {
    let mut header = SerializerHeader::new();
    header.serialize_struct("Record");
    header.serialize_field("a");
    header.serialize_field("b");
    header.serialize_field("c");
    header
}

// One record of the type: a number for each field.
fn record(worksheet: &mut Worksheet, a: i32, b: i32, c: i32) -> Result<(), XlsxError> {
    worksheet.serialize_struct("Record", 3)?;
    worksheet.serialize_field("a")?;
    worksheet.serialize_i32(a)?;
    worksheet.serialize_field("b")?;
    worksheet.serialize_i32(b)?;
    worksheet.serialize_field("c")?;
    worksheet.serialize_i32(c)
}

#[test]
fn headers_in_declared_order_and_records_in_consecutive_rows() {
    let mut worksheet = Worksheet::new();
    worksheet.serialize_headers(2, 1, &abc()).unwrap();
    record(&mut worksheet, 1, 2, 3).unwrap();
    record(&mut worksheet, 4, 5, 6).unwrap();
    record(&mut worksheet, 7, 8, 9).unwrap();
    let (rows, strings) = rows_and_strings(worksheet);
    assert_eq!(
        rows,
        "<sheetData><row r=\"3\"><c r=\"B3\" t=\"s\"><v>0</v></c><c r=\"C3\" t=\"s\"><v>1</v></c>\
         <c r=\"D3\" t=\"s\"><v>2</v></c></row>\
         <row r=\"4\"><c r=\"B4\"><v>1</v></c><c r=\"C4\"><v>2</v></c><c r=\"D4\"><v>3</v></c></row>\
         <row r=\"5\"><c r=\"B5\"><v>4</v></c><c r=\"C5\"><v>5</v></c><c r=\"D5\"><v>6</v></c></row>\
         <row r=\"6\"><c r=\"B6\"><v>7</v></c><c r=\"C6\"><v>8</v></c><c r=\"D6\"><v>9</v></c></row>\
         </sheetData>"
    );
    assert_eq!(strings, "<si><t>a</t></si><si><t>b</t></si><si><t>c</t></si>");
}

#[test]
fn custom_headers_only_reorder_and_restrict() {
    let options = SerializeFieldOptions::new()
        .set_custom_headers(&vec![CustomSerializeField::new("c"), CustomSerializeField::new("a")])
        .use_custom_headers_only(true);
    let mut worksheet = Worksheet::new();
    worksheet.serialize_headers_with_options(0, 0, &abc(), &options).unwrap();
    record(&mut worksheet, 1, 2, 3).unwrap();
    record(&mut worksheet, 4, 5, 6).unwrap();
    let (rows, strings) = rows_and_strings(worksheet);
    assert_eq!(
        rows,
        "<sheetData><row r=\"1\"><c r=\"A1\" t=\"s\"><v>0</v></c><c r=\"B1\" t=\"s\"><v>1</v></c></row>\
         <row r=\"2\"><c r=\"A2\"><v>3</v></c><c r=\"B2\"><v>1</v></c></row>\
         <row r=\"3\"><c r=\"A3\"><v>6</v></c><c r=\"B3\"><v>4</v></c></row></sheetData>"
    );
    assert_eq!(strings, "<si><t>c</t></si><si><t>a</t></si>");
}

#[test]
fn custom_headers_are_merged_over_the_declared_fields() {
    let bold = Format::new().set_bold();
    let italic = Format::new().set_italic();
    let money = Format::new().set_num_format("0.00");
    let options = SerializeFieldOptions::new()
        .set_header_format(&bold)
        .set_custom_headers(&vec![
            CustomSerializeField::new("c").rename("Cost").set_value_format(&money),
            CustomSerializeField::new("b").skip(true),
            CustomSerializeField::new("a").set_header_format(&italic).set_column_format(&italic),
            CustomSerializeField::new("z").rename("Unknown"),
        ]);
    let mut worksheet = Worksheet::new();
    worksheet.serialize_headers_with_options(0, 0, &abc(), &options).unwrap();
    record(&mut worksheet, 1, 2, 3).unwrap();
    assert_eq!(worksheet.format_count(), 4);
    let (rows, strings) = rows_and_strings(worksheet);
    // `a` then `c`: the skipped field leaves no gap. The header of `a` has
    // its own format, that of `c` the format of the record type. The value
    // of `a` takes the format of its column, that of `c` its value format.
    assert_eq!(
        rows,
        "<sheetData><row r=\"1\"><c r=\"A1\" s=\"1\" t=\"s\"><v>0</v></c>\
         <c r=\"B1\" s=\"2\" t=\"s\"><v>1</v></c></row>\
         <row r=\"2\"><c r=\"A2\" s=\"1\"><v>1</v></c><c r=\"B2\" s=\"3\"><v>3</v></c></row>\
         </sheetData>"
    );
    assert_eq!(strings, "<si><t>a</t></si><si><t>Cost</t></si>");
}

#[test]
fn later_custom_header_for_a_field_wins() {
    let customs = vec![
        CustomSerializeField::new("a").rename("first"),
        CustomSerializeField::new("b").rename("other"),
        CustomSerializeField::new("a").rename("second"),
    ];
    assert_eq!(find_custom(&customs, "a").header_name, "second");
    assert_eq!(find_custom(&customs, "b").header_name, "other");
    assert_eq!(find_custom(&customs, "c").header_name, "c");
    assert_eq!(find_custom(&customs, "A").header_name, "A");
    assert_eq!(find_custom(&Vec::new(), "a").field_name, "a");

    let options = SerializeFieldOptions::new().set_custom_headers(&customs);
    let names: Vec<String> =
        select_fields(&abc(), &options).iter().map(|f| f.header_name.clone()).collect();
    assert_eq!(names, ["second", "other", "c"]);
    let options = options.use_custom_headers_only(true);
    let names: Vec<String> =
        select_fields(&abc(), &options).iter().map(|f| f.header_name.clone()).collect();
    assert_eq!(names, ["first", "other", "second"]);
}

#[test]
fn values_without_a_place_are_dropped() {
    let mut worksheet = Worksheet::new();
    // No headers are registered at all.
    assert_eq!(record(&mut worksheet, 1, 2, 3), Ok(()));
    worksheet.serialize_headers(0, 0, &abc()).unwrap();
    // Another record type, and a field that the type does not have.
    worksheet.serialize_struct("Other", 1).unwrap();
    worksheet.serialize_field("a").unwrap();
    assert_eq!(worksheet.serialize_i32(5), Ok(()));
    worksheet.serialize_struct("Record", 1).unwrap();
    worksheet.serialize_field("d").unwrap();
    assert_eq!(worksheet.serialize_str("dropped"), Ok(()));
    assert_eq!(worksheet.serialize_bytes(&[1, 2]), Ok(()));
    assert_eq!(worksheet.serialize_unit_variant("E", 0, "V"), Ok(()));
    let (rows, strings) = rows_and_strings(worksheet);
    assert_eq!(
        rows,
        "<sheetData><row r=\"1\"><c r=\"A1\" t=\"s\"><v>0</v></c><c r=\"B1\" t=\"s\"><v>1</v></c>\
         <c r=\"C1\" t=\"s\"><v>2</v></c></row></sheetData>"
    );
    assert_eq!(strings, "<si><t>a</t></si><si><t>b</t></si><si><t>c</t></si>");
}

#[test]
fn every_kind_of_value_is_written() {
    let mut header = SerializerHeader::new();
    header.serialize_struct("Kinds");
    header.serialize_str("v");
    assert_eq!(header.struct_name, "Kinds");
    assert_eq!(header.field_names, ["v"]);

    let mut worksheet = Worksheet::new();
    let options = SerializeFieldOptions::new().hide_headers(true);
    worksheet.serialize_headers_with_options(0, 0, &header, &options).unwrap();
    worksheet.serialize_struct("Kinds", 1).unwrap();
    worksheet.serialize_field("v").unwrap();
    worksheet.serialize_bool(true).unwrap();
    worksheet.serialize_i8(-8).unwrap();
    worksheet.serialize_u8(8).unwrap();
    worksheet.serialize_i16(-16).unwrap();
    worksheet.serialize_u16(16).unwrap();
    worksheet.serialize_i32(-32).unwrap();
    worksheet.serialize_u32(32).unwrap();
    worksheet.serialize_i64(-64).unwrap();
    worksheet.serialize_u64(64).unwrap();
    worksheet.serialize_number(Number::parse("1.5").unwrap()).unwrap();
    worksheet.serialize_str("text").unwrap();
    worksheet.serialize_char('c').unwrap();
    worksheet.serialize_none().unwrap();
    worksheet.serialize_unit().unwrap();
    worksheet.serialize_unit_struct("Unit").unwrap();
    worksheet.serialize_tuple_variant("Tuple").unwrap();
    worksheet.serialize_struct_variant("Struct").unwrap();
    let (rows, strings) = rows_and_strings(worksheet);
    assert_eq!(
        rows,
        "<sheetData><row r=\"1\"><c r=\"A1\" t=\"b\"><v>1</v></c></row>\
         <row r=\"2\"><c r=\"A2\"><v>-8</v></c></row><row r=\"3\"><c r=\"A3\"><v>8</v></c></row>\
         <row r=\"4\"><c r=\"A4\"><v>-16</v></c></row><row r=\"5\"><c r=\"A5\"><v>16</v></c></row>\
         <row r=\"6\"><c r=\"A6\"><v>-32</v></c></row><row r=\"7\"><c r=\"A7\"><v>32</v></c></row>\
         <row r=\"8\"><c r=\"A8\"><v>-64</v></c></row><row r=\"9\"><c r=\"A9\"><v>64</v></c></row>\
         <row r=\"10\"><c r=\"A10\"><v>1.5</v></c></row>\
         <row r=\"11\"><c r=\"A11\" t=\"s\"><v>0</v></c></row>\
         <row r=\"12\"><c r=\"A12\" t=\"s\"><v>1</v></c></row>\
         <row r=\"16\"><c r=\"A16\" t=\"s\"><v>2</v></c></row>\
         <row r=\"17\"><c r=\"A17\" t=\"s\"><v>3</v></c></row></sheetData>"
    );
    assert_eq!(
        strings,
        "<si><t>text</t></si><si><t>c</t></si><si><t>Tuple</t></si><si><t>Struct</t></si>"
    );
}

#[test]
fn absent_values_are_formatted_blanks() {
    let money = Format::new().set_num_format("0.00");
    let options = SerializeFieldOptions::new()
        .hide_headers(true)
        .set_custom_headers(&vec![CustomSerializeField::new("a").set_value_format(&money)]);
    let mut worksheet = Worksheet::new();
    worksheet.serialize_headers_with_options(0, 0, &abc(), &options).unwrap();
    worksheet.serialize_struct("Record", 3).unwrap();
    worksheet.serialize_field("a").unwrap();
    worksheet.serialize_none().unwrap();
    worksheet.serialize_i32(1).unwrap();
    worksheet.serialize_field("b").unwrap();
    worksheet.serialize_none().unwrap();
    worksheet.serialize_i32(2).unwrap();
    let (rows, _) = rows_and_strings(worksheet);
    assert_eq!(
        rows,
        "<sheetData><row r=\"1\"><c r=\"A1\" s=\"1\"/></row>\
         <row r=\"2\"><c r=\"A2\" s=\"1\"><v>1</v></c><c r=\"B2\"><v>2</v></c></row></sheetData>"
    );
}

#[test]
fn headers_are_checked_before_anything_is_written() {
    let mut worksheet = Worksheet::new();
    assert_eq!(worksheet.serialize_headers(1_048_576, 0, &abc()), Err(XlsxError::RowColumnLimitError));
    assert_eq!(worksheet.serialize_headers(0, 16_384, &abc()), Err(XlsxError::RowColumnLimitError));
    // The third column would lie outside the grid.
    assert_eq!(worksheet.serialize_headers(0, 16_382, &abc()), Err(XlsxError::RowColumnLimitError));
    let options = SerializeFieldOptions::new().set_custom_headers(&vec![
        CustomSerializeField::new("a").set_column_width_pixels(50),
        CustomSerializeField::new("c").rename(&"x".repeat(32_768)),
    ]);
    assert_eq!(
        worksheet.serialize_headers_with_options(0, 0, &abc(), &options),
        Err(XlsxError::MaxStringLengthExceeded)
    );
    // Hidden headers are not written, so their length does not matter.
    let hidden = options.hide_headers(true);
    let mut other = Worksheet::new();
    assert_eq!(other.serialize_headers_with_options(0, 0, &abc(), &hidden), Ok(()));

    record(&mut worksheet, 1, 2, 3).unwrap();
    let mut workbook = Workbook::new();
    workbook.push_worksheet(worksheet);
    let parts = workbook.assemble().unwrap().parts;
    let xml = part(&parts, "xl/worksheets/sheet1.xml");
    assert!(xml.contains("<sheetData/>"));
    assert!(!xml.contains("<cols>"));
    assert_eq!(worksheet_fits(16_381), Ok(()));
}

// Registers the three headers at the given column of the first row.
fn worksheet_fits(col: u16) -> Result<(), XlsxError> {
    Worksheet::new().serialize_headers(0, col, &abc())
}

#[test]
fn values_past_the_last_row_are_refused_one_by_one() {
    let mut header = SerializerHeader::new();
    header.serialize_struct("Tail");
    header.serialize_field("v");
    let mut worksheet = Worksheet::new();
    worksheet.serialize_headers(1_048_574, 0, &header).unwrap();
    worksheet.serialize_struct("Tail", 1).unwrap();
    worksheet.serialize_field("v").unwrap();
    assert_eq!(worksheet.serialize_u8(1), Ok(()));
    assert_eq!(worksheet.serialize_u8(2), Err(XlsxError::RowColumnLimitError));
    assert_eq!(worksheet.serialize_str("x"), Err(XlsxError::RowColumnLimitError));
    let mut other = Worksheet::new();
    other.serialize_headers(0, 0, &header).unwrap();
    other.serialize_struct("Tail", 1).unwrap();
    other.serialize_field("v").unwrap();
    assert_eq!(other.serialize_str(&"x".repeat(32_768)), Err(XlsxError::MaxStringLengthExceeded));
    // The refused value took its row all the same.
    other.serialize_u8(3).unwrap();
    let (rows, _) = rows_and_strings(other);
    assert!(rows.ends_with("<row r=\"3\"><c r=\"A3\"><v>3</v></c></row></sheetData>"));
}

#[test]
fn registering_again_moves_the_record_type() {
    let mut worksheet = Worksheet::new();
    worksheet.serialize_headers(0, 0, &abc()).unwrap();
    record(&mut worksheet, 1, 2, 3).unwrap();
    let options = SerializeFieldOptions::new()
        .hide_headers(true)
        .set_custom_headers(&vec![CustomSerializeField::new("b")])
        .use_custom_headers_only(true);
    worksheet.serialize_headers_with_options(4, 5, &abc(), &options).unwrap();
    record(&mut worksheet, 4, 5, 6).unwrap();
    let (rows, _) = rows_and_strings(worksheet);
    assert!(rows.ends_with(
        "<row r=\"2\"><c r=\"A2\"><v>1</v></c><c r=\"B2\"><v>2</v></c><c r=\"C2\"><v>3</v></c></row>\
         <row r=\"5\"><c r=\"F5\"><v>5</v></c></row></sheetData>"
    ));
}

#[test]
fn serializer_state_hands_out_places() {
    let mut state = SerializerState::new();
    assert_eq!(state.current_state().map(|place| (place.0, place.1)), Err(()));

    let mut worksheet = Worksheet::new();
    let bold = Format::new().set_bold();
    worksheet.serialize_headers_with_format(3, 2, &abc(), &bold).unwrap();
    record(&mut worksheet, 1, 2, 3).unwrap();
    let (rows, _) = rows_and_strings(worksheet);
    assert!(rows.starts_with(
        "<sheetData><row r=\"4\"><c r=\"C4\" s=\"1\" t=\"s\"><v>0</v></c>\
         <c r=\"D4\" s=\"1\" t=\"s\"><v>1</v></c><c r=\"E4\" s=\"1\" t=\"s\"><v>2</v></c></row>\
         <row r=\"5\"><c r=\"C5\"><v>1</v></c>"
    ));
}

#[test]
fn field_options() {
    let bold = Format::new().set_bold();
    let field = CustomSerializeField::new("cost");
    assert_eq!(field.field_name, "cost");
    assert_eq!(field.header_name, "cost");
    assert!(field.header_format.is_none() && field.column_format.is_none());
    assert!(field.value_format.is_none() && field.pixel_width.is_none());
    assert!(!field.skip);
    assert_eq!((field.row, field.col), (0, 0));
    let field = field
        .rename("Price")
        .set_header_format(&bold)
        .set_column_format(&bold)
        .set_value_format(&bold)
        .set_column_width_pixels(80)
        .skip(true);
    assert_eq!(field.field_name, "cost");
    assert_eq!(field.header_name, "Price");
    assert!(field.header_format.is_some() && field.column_format.is_some());
    assert!(field.value_format.is_some());
    assert_eq!(field.pixel_width, Some(80));
    assert!(field.skip);
    let copy = field.duplicate();
    assert_eq!(copy.header_name, "Price");

    let options = SerializeFieldOptions::new();
    assert!(options.header_format.is_none() && options.custom_headers.is_empty());
    assert!(!options.hide_headers && !options.use_custom_headers_only);
    let options = options
        .set_header_format(&bold)
        .hide_headers(true)
        .use_custom_headers_only(true)
        .set_custom_headers(&vec![field]);
    assert!(options.header_format.is_some());
    assert!(options.hide_headers && options.use_custom_headers_only);
    assert_eq!(options.custom_headers.len(), 1);
}

#[test]
fn default_options_are_the_new_options() {
    let header = SerializerHeader {
        struct_name: "Record".to_string(),
        field_names: vec!["a".to_string(), "b".to_string()],
    };
    let by_default = select_fields(&header, &SerializeFieldOptions::default());
    let by_new = select_fields(&header, &SerializeFieldOptions::new());
    assert_eq!(by_default.len(), 2);
    assert_eq!(by_default.len(), by_new.len());
    for (left, right) in by_default.iter().zip(by_new.iter()) {
        assert_eq!(left.field_name, right.field_name);
        assert_eq!(left.header_name, right.header_name);
        assert_eq!(left.skip, right.skip);
    }
    assert_eq!(by_default[0].field_name, "a");
    assert_eq!(by_default[1].field_name, "b");
}

#[test]
fn a_new_state_has_no_place_for_a_value() {
    let mut state = SerializerState::new();
    assert!(state.current_state().is_err());
    state.set_current_struct("Record");
    state.set_current_field("a");
    assert!(state.current_state().is_err());
}
