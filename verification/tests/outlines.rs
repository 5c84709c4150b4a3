// Groups of rows and columns.

use rust_xlsxwriter::error::XlsxError;
use rust_xlsxwriter::number::Number;
use rust_xlsxwriter::workbook::{PackagePart, Workbook};
use rust_xlsxwriter::worksheet::Worksheet;

const HEAD: &str = "<?xml version=\"1.0\" encoding=\"UTF-8\" standalone=\"yes\"?>\n\
     <worksheet xmlns=\"http://schemas.openxmlformats.org/spreadsheetml/2006/main\" \
     xmlns:r=\"http://schemas.openxmlformats.org/officeDocument/2006/relationships\">";
const VIEWS: &str =
    "<sheetViews><sheetView tabSelected=\"1\" workbookViewId=\"0\"/></sheetViews>";
const MARGINS: &str = "<pageMargins left=\"0.7\" right=\"0.7\" top=\"0.75\" bottom=\"0.75\" \
     header=\"0.3\" footer=\"0.3\"/>";

fn part<'a>(parts: &'a [PackagePart], name: &str) -> &'a str {
    match parts.iter().find(|part| part.name == name) {
        Some(part) => part.content.as_str(),
        None => panic!("the package has no part {}", name),
    }
}

fn sheet_xml(worksheet: Worksheet) -> String {
    let mut workbook = Workbook::new();
    workbook.push_worksheet(worksheet);
    let parts = workbook.assemble().unwrap().parts;
    part(&parts, "xl/worksheets/sheet1.xml").to_string()
}

#[test]
fn grouped_rows_carry_their_level() {
    let mut worksheet = Worksheet::new();
    worksheet.write_number(0, 0, Number::from_u64(1)).unwrap();
    worksheet.write_number(2, 0, Number::from_u64(3)).unwrap();
    worksheet.group_rows(1, 3).unwrap();
    worksheet.group_rows(2, 2).unwrap();
    assert_eq!(worksheet.row_outline_level(), 2);
    assert_eq!(worksheet.col_outline_level(), 0);
    assert_eq!(
        sheet_xml(worksheet),
        format!(
            "{}<dimension ref=\"A1:A3\"/>{}\
             <sheetFormatPr defaultRowHeight=\"15\" outlineLevelRow=\"2\"/><sheetData>\
             <row r=\"1\"><c r=\"A1\"><v>1</v></c></row>\
             <row r=\"2\" outlineLevel=\"1\"/>\
             <row r=\"3\" outlineLevel=\"2\"><c r=\"A3\"><v>3</v></c></row>\
             <row r=\"4\" outlineLevel=\"1\"/></sheetData>{}</worksheet>",
            HEAD, VIEWS, MARGINS
        )
    );
}

#[test]
fn grouped_columns_carry_their_level() {
    let mut worksheet = Worksheet::new();
    worksheet.set_column_width_pixels(2, 100).unwrap();
    worksheet.set_column_hidden(3).unwrap();
    worksheet.group_columns(1, 3).unwrap();
    worksheet.group_columns(3, 4).unwrap();
    worksheet.group_columns(3, 3).unwrap();
    assert_eq!(worksheet.row_outline_level(), 0);
    assert_eq!(worksheet.col_outline_level(), 3);
    assert_eq!(
        sheet_xml(worksheet),
        format!(
            "{}<dimension ref=\"A1\"/>{}\
             <sheetFormatPr defaultRowHeight=\"15\" outlineLevelCol=\"3\"/><cols>\
             <col min=\"2\" max=\"2\" width=\"9.140625\" outlineLevel=\"1\"/>\
             <col min=\"3\" max=\"3\" width=\"14.28515625\" customWidth=\"1\" \
             outlineLevel=\"1\"/>\
             <col min=\"4\" max=\"4\" width=\"9.140625\" hidden=\"1\" outlineLevel=\"3\"/>\
             <col min=\"5\" max=\"5\" width=\"9.140625\" outlineLevel=\"1\"/></cols>\
             <sheetData/>{}</worksheet>",
            HEAD, VIEWS, MARGINS
        )
    );
}

#[test]
fn rows_and_columns_are_grouped_side_by_side() {
    let mut worksheet = Worksheet::new();
    worksheet.group_rows(0, 0).unwrap();
    worksheet.group_columns(0, 0).unwrap();
    assert!(sheet_xml(worksheet).contains(
        "<sheetFormatPr defaultRowHeight=\"15\" outlineLevelRow=\"1\" outlineLevelCol=\"1\"/>"
    ));
}

#[test]
fn an_eighth_group_is_refused() {
    let mut worksheet = Worksheet::new();
    for _ in 0..7 {
        worksheet.group_rows(5, 5).unwrap();
        worksheet.group_columns(2, 2).unwrap();
    }
    worksheet.group_rows(0, 4).unwrap();
    worksheet.group_columns(0, 1).unwrap();
    assert_eq!(worksheet.group_rows(0, 5), Err(XlsxError::MaxGroupLevelExceeded));
    assert_eq!(worksheet.group_rows(5, 9), Err(XlsxError::MaxGroupLevelExceeded));
    assert_eq!(worksheet.group_columns(1, 3), Err(XlsxError::MaxGroupLevelExceeded));
    assert_eq!(worksheet.row_outline_level(), 7);
    assert_eq!(worksheet.col_outline_level(), 7);
    let xml = sheet_xml(worksheet);
    assert!(xml.contains(
        "<sheetData><row r=\"1\" outlineLevel=\"1\"/><row r=\"2\" outlineLevel=\"1\"/>\
         <row r=\"3\" outlineLevel=\"1\"/><row r=\"4\" outlineLevel=\"1\"/>\
         <row r=\"5\" outlineLevel=\"1\"/><row r=\"6\" outlineLevel=\"7\"/></sheetData>"
    ));
    assert!(xml.contains(
        "<cols><col min=\"1\" max=\"1\" width=\"9.140625\" outlineLevel=\"1\"/>\
         <col min=\"2\" max=\"2\" width=\"9.140625\" outlineLevel=\"1\"/>\
         <col min=\"3\" max=\"3\" width=\"9.140625\" outlineLevel=\"7\"/></cols>"
    ));
}

#[test]
fn groups_outside_the_grid_are_refused() {
    let mut worksheet = Worksheet::new();
    assert_eq!(worksheet.group_rows(0, 1_048_576), Err(XlsxError::RowColumnLimitError));
    assert_eq!(worksheet.group_rows(1_048_576, 0), Err(XlsxError::RowColumnLimitError));
    assert_eq!(worksheet.group_rows(3, 2), Err(XlsxError::RowColumnOrderError));
    assert_eq!(worksheet.group_columns(0, 16_384), Err(XlsxError::RowColumnLimitError));
    assert_eq!(worksheet.group_columns(16_384, 0), Err(XlsxError::RowColumnLimitError));
    assert_eq!(worksheet.group_columns(3, 2), Err(XlsxError::RowColumnOrderError));
    assert_eq!(worksheet.group_rows(1_048_575, 1_048_575), Ok(()));
    assert_eq!(worksheet.group_columns(16_383, 16_383), Ok(()));
    let xml = sheet_xml(worksheet);
    assert!(xml.contains("<row r=\"1048576\" outlineLevel=\"1\"/>"));
    assert!(xml.contains("<col min=\"16384\" max=\"16384\" width=\"9.140625\" outlineLevel=\"1\"/>"));
}
