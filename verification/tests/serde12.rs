// Records whose options set the width of a column.

use rust_xlsxwriter::error::XlsxError;
use rust_xlsxwriter::number::Number;
use rust_xlsxwriter::serializer::{CustomSerializeField, SerializeFieldOptions, SerializerHeader};
use rust_xlsxwriter::workbook::{PackagePart, Workbook};
use rust_xlsxwriter::worksheet::Worksheet;

fn part<'a>(parts: &'a [PackagePart], name: &str) -> &'a str {
    match parts.iter().find(|part| part.name == name) {
        Some(part) => part.content.as_str(),
        None => panic!("the package has no part {}", name),
    }
}

// The worksheet part around the dimension, the column settings, the rows
// and what follows the rows.
fn worksheet_xml(selected: bool, dimension: &str, cols: &str, rows: &str, tail: &str) -> String {
    format!(
        "<?xml version=\"1.0\" encoding=\"UTF-8\" standalone=\"yes\"?>\n\
         <worksheet xmlns=\"http://schemas.openxmlformats.org/spreadsheetml/2006/main\" \
         xmlns:r=\"http://schemas.openxmlformats.org/officeDocument/2006/relationships\">\
         <dimension ref=\"{}\"/>\
         <sheetViews><sheetView {}workbookViewId=\"0\"/></sheetViews>\
         <sheetFormatPr defaultRowHeight=\"15\"/>\
         {}<sheetData>{}</sheetData>{}</worksheet>",
        dimension,
        if selected { "tabSelected=\"1\" " } else { "" },
        cols,
        rows,
        tail
    )
}

const MARGINS: &str = "<pageMargins left=\"0.7\" right=\"0.7\" top=\"0.75\" bottom=\"0.75\" \
                       header=\"0.3\" footer=\"0.3\"/>";

// The shared-strings part for the texts `texts`, to which `count` cells
// refer.
fn shared_strings_xml(count: usize, texts: &[&str]) -> String {
    let mut items = String::new();
    for text in texts {
        items.push_str(&format!("<si><t>{}</t></si>", text));
    }
    format!(
        "<?xml version=\"1.0\" encoding=\"UTF-8\" standalone=\"yes\"?>\n\
         <sst xmlns=\"http://schemas.openxmlformats.org/spreadsheetml/2006/main\" \
         count=\"{}\" uniqueCount=\"{}\">{}</sst>",
        count,
        texts.len(),
        items
    )
}

fn assert_package(case: &str, workbook: &Workbook) {
    let parts = workbook.assemble().unwrap().parts;
    let cols = "<cols><col min=\"2\" max=\"2\" width=\"14.28515625\" customWidth=\"1\"/></cols>";
    let rows = "<row r=\"1\"><c r=\"A1\" t=\"s\"><v>0</v></c><c r=\"B1\" t=\"s\"><v>1</v></c>\
                <c r=\"C1\" t=\"s\"><v>2</v></c></row>\
                <row r=\"2\"><c r=\"A2\"><v>1</v></c><c r=\"B2\"><v>4</v></c>\
                <c r=\"C2\"><v>7</v></c></row>\
                <row r=\"3\"><c r=\"A3\"><v>2</v></c><c r=\"B3\"><v>5</v></c>\
                <c r=\"C3\"><v>8</v></c></row>\
                <row r=\"4\"><c r=\"A4\"><v>3</v></c><c r=\"B4\"><v>6</v></c>\
                <c r=\"C4\"><v>9</v></c></row>";
    let tail = format!("{}<pageSetup paperSize=\"9\" orientation=\"portrait\"/>", MARGINS);
    assert_eq!(
        part(&parts, "xl/worksheets/sheet1.xml"),
        worksheet_xml(true, "A1:C4", cols, rows, &tail),
        "{}",
        case
    );
    assert_eq!(
        part(&parts, "xl/sharedStrings.xml"),
        shared_strings_xml(3, &["col1", "col2", "col3"]),
        "{}",
        case
    );
}

// The width of a column in pixels, for a width in characters of the
// default font: a character is 7 pixels wide and a cell has 5 pixels of
// padding; below one character the width is a part of 12 pixels.
fn pixels(width: f64) -> u16 {
    if width < 1.0 {
        (width * 12.0).round() as u16
    } else {
        (width * 7.0).round() as u16 + 5
    }
}

// A record with three numbers.
struct MyStruct {
    col1: u8,
    col2: u8,
    col3: u8,
}

// The header of the record type.
fn header() -> SerializerHeader {
    let mut header = SerializerHeader::new();
    header.serialize_struct("MyStruct");
    header.serialize_field("col1");
    header.serialize_field("col2");
    header.serialize_field("col3");
    header
}

// What a derived description of the record hands to a serializer.
fn serialize(data: &MyStruct, worksheet: &mut Worksheet) -> Result<(), XlsxError> {
    worksheet.serialize_struct("MyStruct", 3)?;
    worksheet.serialize_field("col1")?;
    worksheet.serialize_u8(data.col1)?;
    worksheet.serialize_field("col2")?;
    worksheet.serialize_u8(data.col2)?;
    worksheet.serialize_field("col3")?;
    worksheet.serialize_u8(data.col3)
}

// Test case for serialization. First test isn't serialized.
fn create_new_xlsx_file_1() -> Result<Workbook, XlsxError> {
    let mut workbook = Workbook::new();
    let worksheet = workbook.add_worksheet();
    worksheet.set_paper_size(9);

    worksheet.set_column_width_pixels(1, pixels(13.57))?;

    // Not serialized.
    worksheet.write_string(0, 0, "col1")?;
    worksheet.write_number(1, 0, Number::from_i64(1))?;
    worksheet.write_number(2, 0, Number::from_i64(2))?;
    worksheet.write_number(3, 0, Number::from_i64(3))?;
    worksheet.write_string(0, 1, "col2")?;
    worksheet.write_number(1, 1, Number::from_i64(4))?;
    worksheet.write_number(2, 1, Number::from_i64(5))?;
    worksheet.write_number(3, 1, Number::from_i64(6))?;
    worksheet.write_string(0, 2, "col3")?;
    worksheet.write_number(1, 2, Number::from_i64(7))?;
    worksheet.write_number(2, 2, Number::from_i64(8))?;
    worksheet.write_number(3, 2, Number::from_i64(9))?;

    Ok(workbook)
}

// The three records of the test cases.
fn records() -> [MyStruct; 3] {
    [
        MyStruct {
            col1: 1,
            col2: 4,
            col3: 7,
        },
        MyStruct {
            col1: 2,
            col2: 5,
            col3: 8,
        },
        MyStruct {
            col1: 3,
            col2: 6,
            col3: 9,
        },
    ]
}

// Test case for serialization. Width in characters.
fn create_new_xlsx_file_2() -> Result<Workbook, XlsxError> {
    let mut workbook = Workbook::new();
    let worksheet = workbook.add_worksheet();
    worksheet.set_paper_size(9);

    let [data1, data2, data3] = records();

    let header_options = SerializeFieldOptions::new().set_custom_headers(&vec![
        CustomSerializeField::new("col2").set_column_width_pixels(pixels(13.57)),
    ]);

    worksheet.serialize_headers_with_options(0, 0, &header(), &header_options)?;

    serialize(&data1, worksheet)?;
    serialize(&data2, worksheet)?;
    serialize(&data3, worksheet)?;

    Ok(workbook)
}

// Test case for serialization. Width in pixels.
fn create_new_xlsx_file_3() -> Result<Workbook, XlsxError> {
    let mut workbook = Workbook::new();
    let worksheet = workbook.add_worksheet();
    worksheet.set_paper_size(9);

    let [data1, data2, data3] = records();

    let header_options = SerializeFieldOptions::new()
        .set_custom_headers(&vec![CustomSerializeField::new("col2").set_column_width_pixels(100)]);

    worksheet.serialize_headers_with_options(0, 0, &header(), &header_options)?;

    serialize(&data1, worksheet)?;
    serialize(&data2, worksheet)?;
    serialize(&data3, worksheet)?;

    Ok(workbook)
}

#[test]
fn test_serde12_1() {
    assert_package("serde12", &create_new_xlsx_file_1().unwrap());
}

#[test]
fn test_serde12_2() {
    assert_package("serde12", &create_new_xlsx_file_2().unwrap());
}

#[test]
fn test_serde12_3() {
    assert_package("serde12", &create_new_xlsx_file_3().unwrap());
}
