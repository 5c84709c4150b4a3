// Records whose fields hold sequences: each value of a sequence goes one row
// further down in the column of its field.

use rust_xlsxwriter::error::XlsxError;
use rust_xlsxwriter::number::Number;
use rust_xlsxwriter::serializer::SerializerHeader;
use rust_xlsxwriter::workbook::{PackagePart, Workbook};
use rust_xlsxwriter::worksheet::Worksheet;

fn part<'a>(parts: &'a [PackagePart], name: &str) -> &'a str {
    match parts.iter().find(|part| part.name == name) {
        Some(part) => part.content.as_str(),
        None => panic!("the package has no part {}", name),
    }
}

// The worksheet part around the dimension, the column settings, the rows
// and what follows the rows.
fn worksheet_xml(selected: bool, dimension: &str, cols: &str, rows: &str, tail: &str) -> String {
    format!(
        "<?xml version=\"1.0\" encoding=\"UTF-8\" standalone=\"yes\"?>\n\
         <worksheet xmlns=\"http://schemas.openxmlformats.org/spreadsheetml/2006/main\" \
         xmlns:r=\"http://schemas.openxmlformats.org/officeDocument/2006/relationships\">\
         <dimension ref=\"{}\"/>\
         <sheetViews><sheetView {}workbookViewId=\"0\"/></sheetViews>\
         <sheetFormatPr defaultRowHeight=\"15\"/>\
         {}<sheetData>{}</sheetData>{}</worksheet>",
        dimension,
        if selected { "tabSelected=\"1\" " } else { "" },
        cols,
        rows,
        tail
    )
}

const MARGINS: &str = "<pageMargins left=\"0.7\" right=\"0.7\" top=\"0.75\" bottom=\"0.75\" \
                       header=\"0.3\" footer=\"0.3\"/>";

// The shared-strings part for the texts `texts`, to which `count` cells
// refer.
fn shared_strings_xml(count: usize, texts: &[&str]) -> String {
    let mut items = String::new();
    for text in texts {
        items.push_str(&format!("<si><t>{}</t></si>", text));
    }
    format!(
        "<?xml version=\"1.0\" encoding=\"UTF-8\" standalone=\"yes\"?>\n\
         <sst xmlns=\"http://schemas.openxmlformats.org/spreadsheetml/2006/main\" \
         count=\"{}\" uniqueCount=\"{}\">{}</sst>",
        count,
        texts.len(),
        items
    )
}

fn assert_package(case: &str, workbook: &Workbook) {
    let parts = workbook.assemble().unwrap().parts;
    let rows = "<row r=\"1\"><c r=\"A1\" t=\"s\"><v>0</v></c><c r=\"B1\" t=\"s\"><v>1</v></c>\
                <c r=\"D1\" t=\"s\"><v>0</v></c><c r=\"E1\" t=\"s\"><v>1</v></c></row>\
                <row r=\"2\"><c r=\"A2\"><v>123</v></c><c r=\"B2\" t=\"b\"><v>1</v></c>\
                <c r=\"D2\"><v>1</v></c><c r=\"E2\"><v>6</v></c></row>\
                <row r=\"3\"><c r=\"A3\"><v>456</v></c><c r=\"B3\" t=\"b\"><v>0</v></c>\
                <c r=\"D3\"><v>2</v></c><c r=\"E3\"><v>7</v></c></row>\
                <row r=\"4\"><c r=\"A4\"><v>789</v></c><c r=\"B4\" t=\"b\"><v>1</v></c></row>";
    assert_eq!(
        part(&parts, "xl/worksheets/sheet1.xml"),
        worksheet_xml(true, "A1:E4", "", rows, MARGINS),
        "{}",
        case
    );
    assert_eq!(
        part(&parts, "xl/sharedStrings.xml"),
        shared_strings_xml(4, &["col1", "col2"]),
        "{}",
        case
    );
}

// A record with a sequence of numbers and a sequence of truth values.
struct MyStruct1 {
    col1: Vec<u16>,
    col2: Vec<bool>,
}

// A record with two sequences of numbers.
struct MyStruct2 {
    col1: Vec<u8>,
    col2: Vec<u8>,
}

// The header of a record type with the fields `col1` and `col2`.
fn header(name: &str) -> SerializerHeader {
    let mut header = SerializerHeader::new();
    header.serialize_struct(name);
    header.serialize_field("col1");
    header.serialize_field("col2");
    header
}

// What a derived description of the record hands to a serializer.
fn serialize_1(data: &MyStruct1, worksheet: &mut Worksheet) -> Result<(), XlsxError> {
    worksheet.serialize_struct("MyStruct1", 2)?;
    worksheet.serialize_field("col1")?;
    for value in &data.col1 {
        worksheet.serialize_u16(*value)?;
    }
    worksheet.serialize_field("col2")?;
    for value in &data.col2 {
        worksheet.serialize_bool(*value)?;
    }
    Ok(())
}

// What a derived description of the record hands to a serializer.
fn serialize_2(data: &MyStruct2, worksheet: &mut Worksheet) -> Result<(), XlsxError> {
    worksheet.serialize_struct("MyStruct2", 2)?;
    worksheet.serialize_field("col1")?;
    for value in &data.col1 {
        worksheet.serialize_u8(*value)?;
    }
    worksheet.serialize_field("col2")?;
    for value in &data.col2 {
        worksheet.serialize_u8(*value)?;
    }
    Ok(())
}

// Test case for serialization. First test isn't serialized.
fn create_new_xlsx_file_1() -> Result<Workbook, XlsxError> {
    let mut workbook = Workbook::new();
    let worksheet = workbook.add_worksheet();

    // Not serialized.
    worksheet.write_string(0, 0, "col1")?;
    worksheet.write_number(1, 0, Number::from_i64(123))?;
    worksheet.write_number(2, 0, Number::from_i64(456))?;
    worksheet.write_number(3, 0, Number::from_i64(789))?;
    worksheet.write_string(0, 1, "col2")?;
    worksheet.write_boolean(1, 1, true)?;
    worksheet.write_boolean(2, 1, false)?;
    worksheet.write_boolean(3, 1, true)?;

    worksheet.write_string(0, 3, "col1")?;
    worksheet.write_number(1, 3, Number::from_i64(1))?;
    worksheet.write_number(2, 3, Number::from_i64(2))?;
    worksheet.write_string(0, 4, "col2")?;
    worksheet.write_number(1, 4, Number::from_i64(6))?;
    worksheet.write_number(2, 4, Number::from_i64(7))?;

    Ok(workbook)
}

// Test case for serialization. Two record types, one after the other.
fn create_new_xlsx_file_2() -> Result<Workbook, XlsxError> {
    let mut workbook = Workbook::new();
    let worksheet = workbook.add_worksheet();

    let data1 = MyStruct1 {
        col1: vec![123, 456, 789],
        col2: vec![true, false, true],
    };

    worksheet.serialize_headers(0, 0, &header("MyStruct1"))?;
    serialize_1(&data1, worksheet)?;

    let data2 = MyStruct2 {
        col1: vec![1, 2],
        col2: vec![6, 7],
    };

    worksheet.serialize_headers(0, 3, &header("MyStruct2"))?;
    serialize_2(&data2, worksheet)?;

    Ok(workbook)
}

// Test case for serialization. Two record types, headers first.
fn create_new_xlsx_file_3() -> Result<Workbook, XlsxError> {
    let mut workbook = Workbook::new();
    let worksheet = workbook.add_worksheet();

    let data1 = MyStruct1 {
        col1: vec![123, 456, 789],
        col2: vec![true, false, true],
    };

    let data2 = MyStruct2 {
        col1: vec![1, 2],
        col2: vec![6, 7],
    };

    worksheet.serialize_headers(0, 0, &header("MyStruct1"))?;
    worksheet.serialize_headers(0, 3, &header("MyStruct2"))?;

    serialize_1(&data1, worksheet)?;
    serialize_2(&data2, worksheet)?;

    Ok(workbook)
}

#[test]
fn test_serde05_1() {
    assert_package("serde05", &create_new_xlsx_file_1().unwrap());
}

#[test]
fn test_serde05_2() {
    assert_package("serde05", &create_new_xlsx_file_2().unwrap());
}

#[test]
fn test_serde05_3() {
    assert_package("serde05", &create_new_xlsx_file_3().unwrap());
}
