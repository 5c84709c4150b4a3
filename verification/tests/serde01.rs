// Records with two numeric fields, written to a worksheet field by field,
// give the same package as the same cells written one by one.

use rust_xlsxwriter::error::XlsxError;
use rust_xlsxwriter::number::Number;
use rust_xlsxwriter::serializer::SerializerHeader;
use rust_xlsxwriter::workbook::{PackagePart, Workbook};
use rust_xlsxwriter::worksheet::Worksheet;

const SHEET: &str = "<?xml version=\"1.0\" encoding=\"UTF-8\" standalone=\"yes\"?>\n<worksheet xmlns=\"http://schemas.openxmlformats.org/spreadsheetml/2006/main\" xmlns:r=\"http://schemas.openxmlformats.org/officeDocument/2006/relationships\"><dimension ref=\"A1:B2\"/><sheetViews><sheetView tabSelected=\"1\" workbookViewId=\"0\"/></sheetViews><sheetFormatPr defaultRowHeight=\"15\"/><sheetData><row r=\"1\"><c r=\"A1\" t=\"s\"><v>0</v></c><c r=\"B1\" t=\"s\"><v>1</v></c></row><row r=\"2\"><c r=\"A2\"><v>1</v></c><c r=\"B2\"><v>-1</v></c></row></sheetData><pageMargins left=\"0.7\" right=\"0.7\" top=\"0.75\" bottom=\"0.75\" header=\"0.3\" footer=\"0.3\"/></worksheet>";

const STRINGS: &str = "<?xml version=\"1.0\" encoding=\"UTF-8\" standalone=\"yes\"?>\n<sst xmlns=\"http://schemas.openxmlformats.org/spreadsheetml/2006/main\" count=\"2\" uniqueCount=\"2\"><si><t>col1</t></si><si><t>col2</t></si></sst>";

fn part<'a>(parts: &'a [PackagePart], name: &str) -> &'a str {
    match parts.iter().find(|part| part.name == name) {
        Some(part) => part.content.as_str(),
        None => panic!("the package has no part {}", name),
    }
}

fn assert_package(case: &str, workbook: &Workbook) {
    let parts = workbook.assemble().unwrap().parts;
    assert_eq!(part(&parts, "xl/worksheets/sheet1.xml"), SHEET, "{}", case);
    assert_eq!(part(&parts, "xl/sharedStrings.xml"), STRINGS, "{}", case);
    assert_eq!(parts.len(), 9, "{}", case);
}

// The header of `struct MyStruct { col1, col2 }`.
fn my_struct_header() -> SerializerHeader {
    let mut header = SerializerHeader::new();
    header.serialize_struct("MyStruct");
    header.serialize_field("col1");
    header.serialize_field("col2");
    header
}

// Test case for serialization. First test isn't serialized.
fn create_new_xlsx_file_1() -> Result<Workbook, XlsxError> {
    let mut workbook = Workbook::new();
    let worksheet = workbook.add_worksheet();

    // Not serialized.
    worksheet.write_string(0, 0, "col1")?;
    worksheet.write_number(1, 0, Number::from_i64(1))?;
    worksheet.write_string(0, 1, "col2")?;
    worksheet.write_number(1, 1, Number::from_i64(-1))?;

    Ok(workbook)
}

// A number of a cell from a floating-point value.
fn number(value: f64) -> Number {
    Number::parse(&format!("{}", value)).unwrap()
}

// A record with two fields. i8/u8.
struct MyStruct2 {
    col1: u8,
    col2: i8,
}

// What a derived description of the record hands to a serializer: the name
// of the type, then each field with its value, in the order of declaration.
fn serialize_2(data: &MyStruct2, worksheet: &mut Worksheet) -> Result<(), XlsxError> {
    worksheet.serialize_struct("MyStruct", 2)?;
    worksheet.serialize_field("col1")?;
    worksheet.serialize_u8(data.col1)?;
    worksheet.serialize_field("col2")?;
    worksheet.serialize_i8(data.col2)
}

// Test case for serialization. i8/u8.
fn create_new_xlsx_file_2() -> Result<Workbook, XlsxError> {
    let mut workbook = Workbook::new();
    let worksheet = workbook.add_worksheet();

    let data = MyStruct2 { col1: 1, col2: -1 };

    worksheet.serialize_headers(0, 0, &my_struct_header())?;
    serialize_2(&data, worksheet)?;

    Ok(workbook)
}

// A record with two fields. i16/u16.
struct MyStruct3 {
    col1: u16,
    col2: i16,
}

// What a derived description of the record hands to a serializer: the name
// of the type, then each field with its value, in the order of declaration.
fn serialize_3(data: &MyStruct3, worksheet: &mut Worksheet) -> Result<(), XlsxError> {
    worksheet.serialize_struct("MyStruct", 2)?;
    worksheet.serialize_field("col1")?;
    worksheet.serialize_u16(data.col1)?;
    worksheet.serialize_field("col2")?;
    worksheet.serialize_i16(data.col2)
}

// Test case for serialization. i16/u16.
fn create_new_xlsx_file_3() -> Result<Workbook, XlsxError> {
    let mut workbook = Workbook::new();
    let worksheet = workbook.add_worksheet();

    let data = MyStruct3 { col1: 1, col2: -1 };

    worksheet.serialize_headers(0, 0, &my_struct_header())?;
    serialize_3(&data, worksheet)?;

    Ok(workbook)
}

// A record with two fields. i32/u32.
struct MyStruct4 {
    col1: u32,
    col2: i32,
}

// What a derived description of the record hands to a serializer: the name
// of the type, then each field with its value, in the order of declaration.
fn serialize_4(data: &MyStruct4, worksheet: &mut Worksheet) -> Result<(), XlsxError> {
    worksheet.serialize_struct("MyStruct", 2)?;
    worksheet.serialize_field("col1")?;
    worksheet.serialize_u32(data.col1)?;
    worksheet.serialize_field("col2")?;
    worksheet.serialize_i32(data.col2)
}

// Test case for serialization. i32/u32.
fn create_new_xlsx_file_4() -> Result<Workbook, XlsxError> {
    let mut workbook = Workbook::new();
    let worksheet = workbook.add_worksheet();

    let data = MyStruct4 { col1: 1, col2: -1 };

    worksheet.serialize_headers(0, 0, &my_struct_header())?;
    serialize_4(&data, worksheet)?;

    Ok(workbook)
}

// A record with two fields. f32.
struct MyStruct5 {
    col1: f32,
    col2: f32,
}

// What a derived description of the record hands to a serializer: the name
// of the type, then each field with its value, in the order of declaration.
fn serialize_5(data: &MyStruct5, worksheet: &mut Worksheet) -> Result<(), XlsxError> {
    worksheet.serialize_struct("MyStruct", 2)?;
    worksheet.serialize_field("col1")?;
    worksheet.serialize_number(number(data.col1 as f64))?;
    worksheet.serialize_field("col2")?;
    worksheet.serialize_number(number(data.col2 as f64))
}

// Test case for serialization. f32.
fn create_new_xlsx_file_5() -> Result<Workbook, XlsxError> {
    let mut workbook = Workbook::new();
    let worksheet = workbook.add_worksheet();

    let data = MyStruct5 {
        col1: 1.0,
        col2: -1.0,
    };

    worksheet.serialize_headers(0, 0, &my_struct_header())?;
    serialize_5(&data, worksheet)?;

    Ok(workbook)
}

// A record with two fields. f64.
struct MyStruct6 {
    col1: f64,
    col2: f32,
}

// What a derived description of the record hands to a serializer: the name
// of the type, then each field with its value, in the order of declaration.
fn serialize_6(data: &MyStruct6, worksheet: &mut Worksheet) -> Result<(), XlsxError> {
    worksheet.serialize_struct("MyStruct", 2)?;
    worksheet.serialize_field("col1")?;
    worksheet.serialize_number(number(data.col1))?;
    worksheet.serialize_field("col2")?;
    worksheet.serialize_number(number(data.col2 as f64))
}

// Test case for serialization. f64.
fn create_new_xlsx_file_6() -> Result<Workbook, XlsxError> {
    let mut workbook = Workbook::new();
    let worksheet = workbook.add_worksheet();

    let data = MyStruct6 {
        col1: 1.0,
        col2: -1.0,
    };

    worksheet.serialize_headers(0, 0, &my_struct_header())?;
    serialize_6(&data, worksheet)?;

    Ok(workbook)
}

// A record with two fields. i64/u64.
struct MyStruct7 {
    col1: u64,
    col2: i64,
}

// What a derived description of the record hands to a serializer: the name
// of the type, then each field with its value, in the order of declaration.
fn serialize_7(data: &MyStruct7, worksheet: &mut Worksheet) -> Result<(), XlsxError> {
    worksheet.serialize_struct("MyStruct", 2)?;
    worksheet.serialize_field("col1")?;
    worksheet.serialize_u64(data.col1)?;
    worksheet.serialize_field("col2")?;
    worksheet.serialize_i64(data.col2)
}

// Test case for serialization. i64/u64.
fn create_new_xlsx_file_7() -> Result<Workbook, XlsxError> {
    let mut workbook = Workbook::new();
    let worksheet = workbook.add_worksheet();

    let data = MyStruct7 { col1: 1, col2: -1 };

    worksheet.serialize_headers(0, 0, &my_struct_header())?;
    serialize_7(&data, worksheet)?;

    Ok(workbook)
}

// Test case for serialization. The header comes from the type alone: its
// name and the names of its fields, as a description of the type gives
// them.
fn create_new_xlsx_file_8() -> Result<Workbook, XlsxError> {
    let mut workbook = Workbook::new();
    let worksheet = workbook.add_worksheet();

    let name: &'static str = "MyStruct";
    let fields: &'static [&'static str] = &["col1", "col2"];

    let data = MyStruct2 { col1: 1, col2: -1 };

    let header = SerializerHeader {
        struct_name: name.to_string(),
        field_names: fields.iter().map(|&s| s.to_string()).collect(),
    };
    worksheet.serialize_headers(0, 0, &header)?;
    serialize_2(&data, worksheet)?;

    Ok(workbook)
}

#[test]
fn test_serde01_1() {
    assert_package("serde01", &create_new_xlsx_file_1().unwrap());
}

#[test]
fn test_serde01_2() {
    assert_package("serde01", &create_new_xlsx_file_2().unwrap());
}

#[test]
fn test_serde01_3() {
    assert_package("serde01", &create_new_xlsx_file_3().unwrap());
}

#[test]
fn test_serde01_4() {
    assert_package("serde01", &create_new_xlsx_file_4().unwrap());
}

#[test]
fn test_serde01_5() {
    assert_package("serde01", &create_new_xlsx_file_5().unwrap());
}

#[test]
fn test_serde01_6() {
    assert_package("serde01", &create_new_xlsx_file_6().unwrap());
}

#[test]
fn test_serde01_7() {
    assert_package("serde01", &create_new_xlsx_file_7().unwrap());
}

#[test]
fn test_serde01_8() {
    assert_package("serde01", &create_new_xlsx_file_8().unwrap());
}
