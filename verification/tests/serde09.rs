// Records written without a header row: the values begin at the anchor.

use rust_xlsxwriter::error::XlsxError;
use rust_xlsxwriter::number::Number;
use rust_xlsxwriter::serializer::{CustomSerializeField, SerializeFieldOptions, SerializerHeader};
use rust_xlsxwriter::workbook::{PackagePart, Workbook};
use rust_xlsxwriter::worksheet::Worksheet;

fn part<'a>(parts: &'a [PackagePart], name: &str) -> &'a str {
    match parts.iter().find(|part| part.name == name) {
        Some(part) => part.content.as_str(),
        None => panic!("the package has no part {}", name),
    }
}

// The worksheet part around the dimension, the column settings, the rows
// and what follows the rows.
fn worksheet_xml(selected: bool, dimension: &str, cols: &str, rows: &str, tail: &str) -> String {
    format!(
        "<?xml version=\"1.0\" encoding=\"UTF-8\" standalone=\"yes\"?>\n\
         <worksheet xmlns=\"http://schemas.openxmlformats.org/spreadsheetml/2006/main\" \
         xmlns:r=\"http://schemas.openxmlformats.org/officeDocument/2006/relationships\">\
         <dimension ref=\"{}\"/>\
         <sheetViews><sheetView {}workbookViewId=\"0\"/></sheetViews>\
         <sheetFormatPr defaultRowHeight=\"15\"/>\
         {}<sheetData>{}</sheetData>{}</worksheet>",
        dimension,
        if selected { "tabSelected=\"1\" " } else { "" },
        cols,
        rows,
        tail
    )
}

const MARGINS: &str = "<pageMargins left=\"0.7\" right=\"0.7\" top=\"0.75\" bottom=\"0.75\" \
                       header=\"0.3\" footer=\"0.3\"/>";

fn assert_package(case: &str, workbook: &Workbook) {
    let parts = workbook.assemble().unwrap().parts;
    let rows = "<row r=\"1\"><c r=\"A1\"><v>123</v></c><c r=\"B1\" t=\"b\"><v>1</v></c></row>\
                <row r=\"2\"><c r=\"A2\"><v>456</v></c><c r=\"B2\" t=\"b\"><v>0</v></c></row>\
                <row r=\"3\"><c r=\"A3\"><v>789</v></c><c r=\"B3\" t=\"b\"><v>1</v></c></row>";
    assert_eq!(
        part(&parts, "xl/worksheets/sheet1.xml"),
        worksheet_xml(true, "A1:B3", "", rows, MARGINS),
        "{}",
        case
    );
    // No cell holds a text, so the package has no shared strings.
    assert!(parts.iter().all(|part| part.name != "xl/sharedStrings.xml"), "{}", case);
}

// A record with a sequence of numbers and a sequence of truth values.
struct MyStruct {
    col1: Vec<u16>,
    col2: Vec<bool>,
}

// What a derived description of the record hands to a serializer.
fn serialize(data: &MyStruct, worksheet: &mut Worksheet) -> Result<(), XlsxError> {
    worksheet.serialize_struct("MyStruct", 2)?;
    worksheet.serialize_field("col1")?;
    for value in &data.col1 {
        worksheet.serialize_u16(*value)?;
    }
    worksheet.serialize_field("col2")?;
    for value in &data.col2 {
        worksheet.serialize_bool(*value)?;
    }
    Ok(())
}

// Test case for serialization. First test isn't serialized.
fn create_new_xlsx_file_1() -> Result<Workbook, XlsxError> {
    let mut workbook = Workbook::new();
    let worksheet = workbook.add_worksheet();

    // Not serialized.
    worksheet.write_number(0, 0, Number::from_i64(123))?;
    worksheet.write_number(1, 0, Number::from_i64(456))?;
    worksheet.write_number(2, 0, Number::from_i64(789))?;
    worksheet.write_boolean(0, 1, true)?;
    worksheet.write_boolean(1, 1, false)?;
    worksheet.write_boolean(2, 1, true)?;

    Ok(workbook)
}

// Test case for serialization. Hidden headers.
fn create_new_xlsx_file_2() -> Result<Workbook, XlsxError> {
    let mut workbook = Workbook::new();
    let worksheet = workbook.add_worksheet();

    let data = MyStruct {
        col1: vec![123, 456, 789],
        col2: vec![true, false, true],
    };

    let custom_headers = vec![
        CustomSerializeField::new("col1"),
        CustomSerializeField::new("col2"),
    ];
    let header_options = SerializeFieldOptions::new()
        .set_custom_headers(&custom_headers)
        .hide_headers(true);

    let mut header = SerializerHeader::new();
    header.serialize_struct("MyStruct");
    header.serialize_field("col1");
    header.serialize_field("col2");

    worksheet.serialize_headers_with_options(0, 0, &header, &header_options)?;
    serialize(&data, worksheet)?;

    Ok(workbook)
}

#[test]
fn test_serde09_1() {
    assert_package("serde09", &create_new_xlsx_file_1().unwrap());
}

#[test]
fn test_serde09_2() {
    assert_package("serde09", &create_new_xlsx_file_2().unwrap());
}
