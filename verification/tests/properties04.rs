// Properties of a document's own making.

use rust_xlsxwriter::custom::assemble_custom;
use rust_xlsxwriter::error::XlsxError;
use rust_xlsxwriter::number::Number;
use rust_xlsxwriter::properties::{DocProperties, ExcelDateTime, PropertyValue};
use rust_xlsxwriter::workbook::{Package, Workbook};

fn part<'a>(package: &'a Package, name: &str) -> &'a str {
    match package.parts.iter().find(|part| part.name == name) {
        Some(part) => part.content.as_str(),
        None => panic!("the package has no part {}", name),
    }
}

// A number for a floating-point value.
fn number(value: f64) -> PropertyValue {
    PropertyValue::Real(Number::parse(&format!("{}", value)).unwrap())
}

// The width of a column in pixels, for a width in characters of the
// default font.
fn pixels(width: f64) -> u16 {
    if width < 1.0 {
        (width * 12.0).round() as u16
    } else {
        (width * 7.0).round() as u16 + 5
    }
}

// The workbook of both test cases, with the given date.
fn workbook_with(date: ExcelDateTime) -> Result<Workbook, XlsxError> {
    let mut workbook = Workbook::new();

    let properties = DocProperties::new()
        .set_custom_property("Checked by", PropertyValue::Text("Adam".to_string()))
        .set_custom_property("Date completed", PropertyValue::DateTime(date))
        .set_custom_property("Document number", PropertyValue::Integer(12345))
        .set_custom_property("Reference", number(1.2345))
        .set_custom_property("Source", PropertyValue::Bool(true))
        .set_custom_property("Status", PropertyValue::Bool(false))
        .set_custom_property("Department", PropertyValue::Text("Finance".to_string()))
        .set_custom_property("Group", number(1.2345678901234));

    workbook.set_properties(properties);

    let worksheet = workbook.add_worksheet();

    worksheet.set_column_width_pixels(0, pixels(70.0))?;
    worksheet.write_string(
        0,
        0,
        r#"Select 'Office Button -> Prepare -> Properties' to see the file properties."#,
    )?;

    Ok(workbook)
}

// Test case to demonstrate custom properties, with a date from year, month
// and day.
fn create_new_xlsx_file_1() -> Result<Workbook, XlsxError> {
    let date = ExcelDateTime::from_ymd(2016, 12, 12)?.and_hms(23, 0, 0)?;
    workbook_with(date)
}

// Test case to demonstrate custom properties, with a date from its parts.
fn create_new_xlsx_file_2() -> Result<Workbook, XlsxError> {
    let date = ExcelDateTime { year: 2016, month: 12, day: 12, hour: 23, min: 0, sec: 0 };
    workbook_with(date)
}

fn assert_package(case: &str, workbook: &Workbook) {
    // Saved twice.
    let package = workbook.assemble().unwrap();
    let again = workbook.assemble().unwrap();
    for (a, b) in package.parts.iter().zip(again.parts.iter()) {
        assert_eq!((&a.name, &a.content), (&b.name, &b.content), "{}", case);
    }

    let property = |pid: u32, name: &str, value: &str| {
        format!(
            "<property fmtid=\"{{D5CDD505-2E9C-101B-9397-08002B2CF9AE}}\" pid=\"{}\" \
             name=\"{}\">{}</property>",
            pid, name, value
        )
    };
    let expected = format!(
        "<?xml version=\"1.0\" encoding=\"UTF-8\" standalone=\"yes\"?>\n\
         <Properties \
         xmlns=\"http://schemas.openxmlformats.org/officeDocument/2006/custom-properties\" \
         xmlns:vt=\"http://schemas.openxmlformats.org/officeDocument/2006/docPropsVTypes\">\
         {}{}{}{}{}{}{}{}</Properties>",
        property(2, "Checked by", "<vt:lpwstr>Adam</vt:lpwstr>"),
        property(3, "Date completed", "<vt:filetime>2016-12-12T23:00:00Z</vt:filetime>"),
        property(4, "Document number", "<vt:i4>12345</vt:i4>"),
        property(5, "Reference", "<vt:r8>1.2345</vt:r8>"),
        property(6, "Source", "<vt:bool>true</vt:bool>"),
        property(7, "Status", "<vt:bool>false</vt:bool>"),
        property(8, "Department", "<vt:lpwstr>Finance</vt:lpwstr>"),
        property(9, "Group", "<vt:r8>1.2345678901234</vt:r8>"),
    );
    assert_eq!(part(&package, "docProps/custom.xml"), expected, "{}", case);
    assert!(
        part(&package, "_rels/.rels").ends_with(
            "<Relationship Id=\"rId4\" Type=\"http://schemas.openxmlformats.org/officeDocument/\
             2006/relationships/custom-properties\" Target=\"docProps/custom.xml\"/>\
             </Relationships>"
        ),
        "{}",
        case
    );
    assert!(
        part(&package, "[Content_Types].xml").contains(
            "<Override PartName=\"/docProps/custom.xml\" ContentType=\"application/\
             vnd.openxmlformats-officedocument.custom-properties+xml\"/>\
             <Override PartName=\"/xl/styles.xml\""
        ),
        "{}",
        case
    );
    let sheet = part(&package, "xl/worksheets/sheet1.xml");
    assert!(
        sheet.contains(
            "<cols><col min=\"1\" max=\"1\" width=\"70.7109375\" customWidth=\"1\"/></cols>\
             <sheetData><row r=\"1\"><c r=\"A1\" t=\"s\"><v>0</v></c></row></sheetData>"
        ),
        "{}",
        case
    );
    assert!(
        part(&package, "xl/sharedStrings.xml").ends_with(
            "<si><t>Select &apos;Office Button -&gt; Prepare -&gt; Properties&apos; to see the \
             file properties.</t></si></sst>"
        ),
        "{}",
        case
    );
    let names: Vec<&str> = package.parts.iter().map(|part| part.name.as_str()).collect();
    assert_eq!(names[2..5], ["docProps/app.xml", "docProps/core.xml", "docProps/custom.xml"]);
}

#[test]
fn test_properties04_1() {
    assert_package("properties04", &create_new_xlsx_file_1().unwrap());
}

#[test]
fn test_properties04_2() {
    assert_package("properties04", &create_new_xlsx_file_2().unwrap());
}

#[test]
fn dates_exist() {
    assert!(ExcelDateTime::from_ymd(2024, 2, 29).is_ok());
    assert!(ExcelDateTime::from_ymd(2000, 2, 29).is_ok());
    assert!(ExcelDateTime::from_ymd(1900, 1, 1).is_ok());
    assert!(ExcelDateTime::from_ymd(9999, 12, 31).is_ok());
    for (year, month, day) in [
        (2023, 2, 29),
        (2100, 2, 29),
        (1900, 2, 29),
        (1899, 12, 31),
        (10000, 1, 1),
        (2024, 0, 1),
        (2024, 13, 1),
        (2024, 1, 0),
        (2024, 1, 32),
        (2024, 4, 31),
        (2024, 6, 31),
        (2024, 9, 31),
        (2024, 11, 31),
    ] {
        assert_eq!(
            ExcelDateTime::from_ymd(year, month, day),
            Err(XlsxError::DateTimeRangeError),
            "{}-{}-{}",
            year,
            month,
            day
        );
    }
    for month in [1, 3, 5, 7, 8, 10, 12] {
        assert!(ExcelDateTime::from_ymd(2023, month, 31).is_ok());
    }
    let date = ExcelDateTime::from_ymd(2024, 3, 5).unwrap();
    assert_eq!(date.to_iso_string(), "2024-03-05T00:00:00Z");
    assert_eq!(date.and_hms(23, 59, 59).unwrap().to_iso_string(), "2024-03-05T23:59:59Z");
    assert_eq!(date.and_hms(1, 2, 3).unwrap().to_iso_string(), "2024-03-05T01:02:03Z");
    assert_eq!(date.and_hms(24, 0, 0), Err(XlsxError::DateTimeRangeError));
    assert_eq!(date.and_hms(0, 60, 0), Err(XlsxError::DateTimeRangeError));
    assert_eq!(date.and_hms(0, 0, 60), Err(XlsxError::DateTimeRangeError));
}

#[test]
fn document_without_custom_properties_has_no_part_for_them() {
    let package = Workbook::new().assemble().unwrap();
    assert!(package.parts.iter().all(|part| part.name != "docProps/custom.xml"));
    assert!(!part(&package, "[Content_Types].xml").contains("custom"));
    assert!(!part(&package, "_rels/.rels").contains("rId4"));
    let properties = DocProperties::new()
        .set_custom_property("Negative", PropertyValue::Integer(i32::MIN))
        .set_custom_property("A & B", PropertyValue::Text("<c>".to_string()));
    assert!(assemble_custom(&properties).contains(
        "pid=\"2\" name=\"Negative\"><vt:i4>-2147483648</vt:i4></property>"
    ));
    assert!(assemble_custom(&properties).contains(
        "pid=\"3\" name=\"A &amp; B\"><vt:lpwstr>&lt;c&gt;</vt:lpwstr></property>"
    ));
}
