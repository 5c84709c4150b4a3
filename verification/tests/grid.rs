// The grid of a worksheet: writes, limits, formats, settings of rows and
// columns, merged ranges and the worksheet part.

use rust_xlsxwriter::error::XlsxError;
use rust_xlsxwriter::format::Format;
use rust_xlsxwriter::number::Number;
use rust_xlsxwriter::shared_strings::SharedStringTable;
use rust_xlsxwriter::utility::{COL_MAX, ROW_MAX};
use rust_xlsxwriter::workbook::{PackagePart, Workbook};
use rust_xlsxwriter::worksheet::{check_sheet_name, Formula, Worksheet};

fn part<'a>(parts: &'a [PackagePart], name: &str) -> &'a str {
    match parts.iter().find(|part| part.name == name) {
        Some(part) => part.content.as_str(),
        None => panic!("the package has no part {}", name),
    }
}

// The worksheet part of a worksheet that stands alone in a workbook.
fn sheet_xml(worksheet: Worksheet) -> String {
    let mut workbook = Workbook::new();
    workbook.push_worksheet(worksheet);
    let parts = workbook.assemble().unwrap().parts;
    part(&parts, "xl/worksheets/sheet1.xml").to_string()
}

// The rows of a worksheet part.
fn sheet_data(xml: &str) -> &str {
    let start = xml.find("<sheetData").unwrap();
    let end = xml.find("</sheetData>").map(|i| i + "</sheetData>".len());
    match end {
        Some(end) => &xml[start..end],
        None => "<sheetData/>",
    }
}

#[test]
fn written_values_stand_in_the_worksheet_part() {
    let mut worksheet = Worksheet::new();
    worksheet.write_number(3, 2, Number::parse("-12.375").unwrap()).unwrap();
    worksheet.write_string(3, 4, "text").unwrap();
    worksheet.write_boolean(7, 0, true).unwrap();
    worksheet.write_boolean(7, 1, false).unwrap();
    let xml = sheet_xml(worksheet);
    assert!(xml.contains("<c r=\"C4\"><v>-12.375</v></c>"));
    assert!(xml.contains("<c r=\"E4\" t=\"s\"><v>0</v></c>"));
    assert!(xml.contains("<c r=\"A8\" t=\"b\"><v>1</v></c>"));
    assert!(xml.contains("<c r=\"B8\" t=\"b\"><v>0</v></c>"));
    assert!(xml.contains("<dimension ref=\"A4:E8\"/>"));
}

#[test]
fn rows_and_cells_are_written_in_ascending_order() {
    let mut worksheet = Worksheet::new();
    worksheet.write_number(5, 3, Number::from_i64(53)).unwrap();
    worksheet.write_number(0, 9, Number::from_i64(9)).unwrap();
    worksheet.write_number(5, 1, Number::from_i64(51)).unwrap();
    worksheet.write_number(2, 0, Number::from_i64(20)).unwrap();
    worksheet.write_number(0, 0, Number::from_i64(0)).unwrap();
    worksheet.write_number(5, 2, Number::from_i64(52)).unwrap();
    let xml = sheet_xml(worksheet);
    assert_eq!(
        sheet_data(&xml),
        "<sheetData>\
         <row r=\"1\"><c r=\"A1\"><v>0</v></c><c r=\"J1\"><v>9</v></c></row>\
         <row r=\"3\"><c r=\"A3\"><v>20</v></c></row>\
         <row r=\"6\"><c r=\"B6\"><v>51</v></c><c r=\"C6\"><v>52</v></c>\
         <c r=\"D6\"><v>53</v></c></row>\
         </sheetData>"
    );
}

#[test]
fn last_write_wins() {
    let mut worksheet = Worksheet::new();
    worksheet.write_string(0, 0, "first").unwrap();
    worksheet.write_number(0, 0, Number::from_i64(2)).unwrap();
    worksheet.write_boolean(1, 0, true).unwrap();
    worksheet.write_string(1, 0, "last").unwrap();
    let xml = sheet_xml(worksheet);
    assert_eq!(
        sheet_data(&xml),
        "<sheetData><row r=\"1\"><c r=\"A1\"><v>2</v></c></row>\
         <row r=\"2\"><c r=\"A2\" t=\"s\"><v>0</v></c></row></sheetData>"
    );
}

#[test]
fn write_without_format_keeps_the_format_of_the_cell() {
    let bold = Format::new().set_bold();
    let mut worksheet = Worksheet::new();
    worksheet.write_blank(0, 0, &bold).unwrap();
    worksheet.write_number(0, 0, Number::from_i64(7)).unwrap();
    worksheet.write_number_with_format(1, 0, Number::from_i64(8), &bold).unwrap();
    worksheet.write_boolean(1, 0, false).unwrap();
    let italic = Format::new().set_italic();
    worksheet.write_string_with_format(1, 0, "again", &italic).unwrap();
    let xml = sheet_xml(worksheet);
    assert_eq!(
        sheet_data(&xml),
        "<sheetData><row r=\"1\"><c r=\"A1\" s=\"1\"><v>7</v></c></row>\
         <row r=\"2\"><c r=\"A2\" s=\"2\" t=\"s\"><v>0</v></c></row></sheetData>"
    );
}

#[test]
fn cells_without_format_take_the_format_of_row_or_column() {
    let bold = Format::new().set_bold();
    let italic = Format::new().set_italic();
    let underlined = Format::new().set_underline(rust_xlsxwriter::format::FormatUnderline::Single);
    let mut worksheet = Worksheet::new();
    worksheet.set_column_format(1, &bold).unwrap();
    worksheet.set_row_format(2, &italic).unwrap();
    worksheet.write_number(0, 1, Number::from_i64(1)).unwrap();
    worksheet.write_number(2, 1, Number::from_i64(2)).unwrap();
    worksheet.write_number_with_format(2, 2, Number::from_i64(3), &underlined).unwrap();
    worksheet.write_number(0, 0, Number::from_i64(4)).unwrap();
    let xml = sheet_xml(worksheet);
    assert_eq!(
        sheet_data(&xml),
        "<sheetData><row r=\"1\"><c r=\"A1\"><v>4</v></c><c r=\"B1\" s=\"1\"><v>1</v></c></row>\
         <row r=\"3\" s=\"2\" customFormat=\"1\"><c r=\"B3\" s=\"2\"><v>2</v></c>\
         <c r=\"C3\" s=\"3\"><v>3</v></c></row></sheetData>"
    );
    assert!(xml.contains("<cols><col min=\"2\" max=\"2\" width=\"9.140625\" style=\"1\"/></cols>"));
}

#[test]
fn bounds_rejection() {
    let mut worksheet = Worksheet::new();
    assert_eq!(
        worksheet.write_number(1_048_576, 0, Number::from_i64(1)),
        Err(XlsxError::RowColumnLimitError)
    );
    assert_eq!(worksheet.write_number(1_048_575, 0, Number::from_i64(1)), Ok(()));
    assert_eq!(worksheet.write_string(0, 16_384, "x"), Err(XlsxError::RowColumnLimitError));
    assert_eq!(worksheet.write_string(0, 16_383, "x"), Ok(()));
    assert_eq!(worksheet.write_boolean(ROW_MAX, COL_MAX, true), Err(XlsxError::RowColumnLimitError));
    assert_eq!(
        worksheet.write_formula(u32::MAX, 0, &Formula::new("=1")),
        Err(XlsxError::RowColumnLimitError)
    );
    assert_eq!(
        worksheet.write_blank(0, u16::MAX, &Format::new()),
        Err(XlsxError::RowColumnLimitError)
    );
    assert_eq!(worksheet.set_column_width_pixels(16_384, 10), Err(XlsxError::RowColumnLimitError));
    assert_eq!(worksheet.set_column_hidden(16_384), Err(XlsxError::RowColumnLimitError));
    assert_eq!(
        worksheet.set_column_format(16_384, &Format::new()),
        Err(XlsxError::RowColumnLimitError)
    );
    assert_eq!(worksheet.set_row_height_pixels(1_048_576, 10), Err(XlsxError::RowColumnLimitError));
    assert_eq!(worksheet.set_row_hidden(1_048_576), Err(XlsxError::RowColumnLimitError));
    assert_eq!(
        worksheet.set_row_format(1_048_576, &Format::new()),
        Err(XlsxError::RowColumnLimitError)
    );
    // Nothing but the two cells at the limits was written.
    let xml = sheet_xml(worksheet);
    assert_eq!(
        sheet_data(&xml),
        "<sheetData><row r=\"1\"><c r=\"XFD1\" t=\"s\"><v>0</v></c></row>\
         <row r=\"1048576\"><c r=\"A1048576\"><v>1</v></c></row></sheetData>"
    );
    assert!(xml.contains("<dimension ref=\"A1:XFD1048576\"/>"));
}

#[test]
fn text_length_is_limited() {
    let mut worksheet = Worksheet::new();
    let longest = "é".repeat(32_767);
    let too_long = "é".repeat(32_768);
    assert_eq!(worksheet.write_string(0, 0, &longest), Ok(()));
    assert_eq!(worksheet.write_string(1, 0, &too_long), Err(XlsxError::MaxStringLengthExceeded));
    // A cell outside the grid is reported first.
    assert_eq!(
        worksheet.write_string(ROW_MAX, 0, &too_long),
        Err(XlsxError::RowColumnLimitError)
    );
    let xml = sheet_xml(worksheet);
    assert!(xml.contains("<dimension ref=\"A1\"/>"));
}

#[test]
fn empty_text_is_a_blank_cell_or_nothing() {
    let bold = Format::new().set_bold();
    let mut worksheet = Worksheet::new();
    worksheet.write_string(0, 0, "").unwrap();
    worksheet.write_string_with_format(0, 1, "", &bold).unwrap();
    worksheet.write_string(1, 0, "kept").unwrap();
    worksheet.write_string(1, 0, "").unwrap();
    let xml = sheet_xml(worksheet);
    assert_eq!(
        sheet_data(&xml),
        "<sheetData><row r=\"1\"><c r=\"B1\" s=\"1\"/></row>\
         <row r=\"2\"><c r=\"A2\" t=\"s\"><v>0</v></c></row></sheetData>"
    );
}

#[test]
fn merge_overlap_rejection() {
    let format = Format::new();
    let mut worksheet = Worksheet::new();
    assert_eq!(worksheet.merge_range(0, 0, 2, 2, "first", &format), Ok(()));
    assert_eq!(
        worksheet.merge_range(1, 1, 3, 3, "second", &format),
        Err(XlsxError::MergeRangeOverlaps)
    );
    // Sharing one corner cell is an overlap; lying side by side is none.
    assert_eq!(
        worksheet.merge_range(2, 2, 4, 4, "corner", &format),
        Err(XlsxError::MergeRangeOverlaps)
    );
    assert_eq!(worksheet.merge_range(0, 3, 2, 4, "beside", &format), Ok(()));
    assert_eq!(worksheet.merge_range(3, 0, 3, 2, "below", &format), Ok(()));
    let xml = sheet_xml(worksheet);
    assert!(xml.contains(
        "<mergeCells count=\"3\"><mergeCell ref=\"A1:C3\"/><mergeCell ref=\"D1:E3\"/>\
         <mergeCell ref=\"A4:C4\"/></mergeCells>"
    ));
    // The refused ranges wrote nothing.
    assert!(!xml.contains("r=\"B2\""));
    assert!(!xml.contains("r=\"C3\""));
}

#[test]
fn merge_range_errors() {
    let format = Format::new();
    let mut worksheet = Worksheet::new();
    assert_eq!(
        worksheet.merge_range(0, 0, 0, 0, "single", &format),
        Err(XlsxError::MergeRangeSingleCell)
    );
    assert_eq!(
        worksheet.merge_range(0, 0, ROW_MAX, 1, "outside", &format),
        Err(XlsxError::RowColumnLimitError)
    );
    assert_eq!(
        worksheet.merge_range(2, 0, 1, 1, "backwards", &format),
        Err(XlsxError::RowColumnOrderError)
    );
    assert_eq!(
        worksheet.merge_range(0, 3, 1, 2, "backwards", &format),
        Err(XlsxError::RowColumnOrderError)
    );
    assert_eq!(
        worksheet.merge_range(0, 0, 1, 1, &"x".repeat(32_768), &format),
        Err(XlsxError::MaxStringLengthExceeded)
    );
    let xml = sheet_xml(worksheet);
    assert!(!xml.contains("mergeCell"));
    assert_eq!(sheet_data(&xml), "<sheetData/>");
}

#[test]
fn autofilter_range_is_checked() {
    let mut worksheet = Worksheet::new();
    assert_eq!(worksheet.autofilter(0, 0, ROW_MAX, 3), Err(XlsxError::RowColumnLimitError));
    assert_eq!(worksheet.autofilter(5, 0, 4, 3), Err(XlsxError::RowColumnOrderError));
    assert_eq!(worksheet.autofilter(0, 0, 50, 3), Ok(()));
    worksheet.set_name("Sales 'East'").unwrap();
    let mut workbook = Workbook::new();
    workbook.push_worksheet(worksheet);
    let parts = workbook.assemble().unwrap().parts;
    assert!(part(&parts, "xl/worksheets/sheet1.xml").contains("<autoFilter ref=\"A1:D51\"/>"));
    assert!(part(&parts, "xl/workbook.xml").contains(
        "<definedNames><definedName name=\"_xlnm._FilterDatabase\" localSheetId=\"0\" \
         hidden=\"1\">&apos;Sales &apos;&apos;East&apos;&apos;&apos;!$A$1:$D$51</definedName>\
         </definedNames>"
    ));
}

#[test]
fn row_and_column_settings() {
    let mut worksheet = Worksheet::new();
    worksheet.set_row_height_pixels(0, 41).unwrap();
    worksheet.set_row_height_pixels(1, 20).unwrap();
    worksheet.set_row_height_pixels(2, 0).unwrap();
    worksheet.set_row_hidden(3).unwrap();
    worksheet.set_column_width_pixels(0, 64).unwrap();
    worksheet.set_column_width_pixels(2, 7).unwrap();
    worksheet.set_column_width_pixels(4, 3).unwrap();
    worksheet.set_column_width_pixels(3, 255 * 7 + 5).unwrap();
    worksheet.set_column_hidden(2).unwrap();
    worksheet.set_column_hidden(16_383).unwrap();
    let xml = sheet_xml(worksheet);
    assert!(xml.contains(
        "<cols><col min=\"1\" max=\"1\" width=\"9.140625\" customWidth=\"1\"/>\
         <col min=\"3\" max=\"3\" width=\"1\" hidden=\"1\" customWidth=\"1\"/>\
         <col min=\"4\" max=\"4\" width=\"255.7109375\" customWidth=\"1\"/>\
         <col min=\"5\" max=\"5\" width=\"0.42578125\" customWidth=\"1\"/>\
         <col min=\"16384\" max=\"16384\" width=\"9.140625\" hidden=\"1\"/></cols>"
    ));
    assert_eq!(
        sheet_data(&xml),
        "<sheetData><row r=\"1\" ht=\"30.75\" customHeight=\"1\"/>\
         <row r=\"2\" ht=\"15\" customHeight=\"1\"/>\
         <row r=\"3\" ht=\"0\" customHeight=\"1\"/>\
         <row r=\"4\" hidden=\"1\"/></sheetData>"
    );
}

#[test]
fn formulas_lose_the_leading_equals_sign() {
    let formula = Formula::new("=SUM(A1:A3)");
    assert_eq!(formula.formula, "SUM(A1:A3)");
    assert_eq!(formula.result, "");
    assert_eq!(Formula::new("SUM(A1:A3)").formula, "SUM(A1:A3)");
    assert_eq!(Formula::new("==1").formula, "=1");
    assert_eq!(Formula::new("=").formula, "");
    assert_eq!(Formula::new("").formula, "");
    assert_eq!(Formula::new("=1").set_result("1").result, "1");
}

#[test]
fn formula_results() {
    let mut worksheet = Worksheet::new();
    worksheet.write_formula(0, 0, &Formula::new("=A2&\"<>\"")).unwrap();
    worksheet.write_number(1, 0, Number::from_i64(5)).unwrap();
    // A result is set for formulas only.
    worksheet.set_formula_result(0, 0, "5<>");
    worksheet.set_formula_result(1, 0, "6");
    worksheet.set_formula_result(9, 9, "7");
    worksheet.set_formula_result_default("");
    worksheet.write_formula(2, 0, &Formula::new("=NOW()")).unwrap();
    let xml = sheet_xml(worksheet);
    assert_eq!(
        sheet_data(&xml),
        "<sheetData><row r=\"1\"><c r=\"A1\"><f>A2&amp;&quot;&lt;&gt;&quot;</f>\
         <v>5&lt;&gt;</v></c></row>\
         <row r=\"2\"><c r=\"A2\"><v>5</v></c></row>\
         <row r=\"3\"><c r=\"A3\"><f>NOW()</f><v></v></c></row></sheetData>"
    );
}

#[test]
fn sheet_names_are_checked() {
    assert_eq!(check_sheet_name(""), Err(XlsxError::SheetnameCannotBeBlank));
    assert_eq!(check_sheet_name(&"x".repeat(32)), Err(XlsxError::SheetnameLengthExceeded));
    assert_eq!(check_sheet_name(&"ü".repeat(31)), Ok(()));
    for name in ["a[b", "a]b", "a:b", "a*b", "a?b", "a/b", "a\\b"] {
        assert_eq!(check_sheet_name(name), Err(XlsxError::SheetnameContainsInvalidCharacter));
    }
    assert_eq!(check_sheet_name("Sheet 1 (a-b)"), Ok(()));

    let mut worksheet = Worksheet::new();
    assert_eq!(worksheet.name(), "");
    assert_eq!(worksheet.set_name("Data"), Ok(()));
    assert_eq!(worksheet.set_name("Da:ta"), Err(XlsxError::SheetnameContainsInvalidCharacter));
    assert_eq!(worksheet.set_name(""), Err(XlsxError::SheetnameCannotBeBlank));
    assert_eq!(worksheet.name(), "Data");
}

#[test]
fn worksheet_part_needs_its_tables() {
    let bold = Format::new().set_bold();
    let mut worksheet = Worksheet::new();
    worksheet.write_string_with_format(0, 0, "text", &bold).unwrap();
    assert_eq!(worksheet.format_count(), 2);

    let mut strings = SharedStringTable::new();
    assert_eq!(
        worksheet.assemble_xml_file(&strings, &vec![0, 1], true),
        Err(XlsxError::UnknownSharedString)
    );
    worksheet.collect_strings(&mut strings);
    assert_eq!(
        worksheet.assemble_xml_file(&strings, &vec![0], true),
        Err(XlsxError::UnknownFormat)
    );
    let xml = worksheet.assemble_xml_file(&strings, &vec![0, 5], false).unwrap();
    assert!(xml.contains("<sheetView workbookViewId=\"0\"/>"));
    assert!(xml.contains("<c r=\"A1\" s=\"5\" t=\"s\"><v>0</v></c>"));
}

#[test]
fn dimension_is_the_smallest_range_of_the_cells() {
    let mut worksheet = Worksheet::new();
    let range = worksheet.dimension();
    assert_eq!((range.first_row, range.first_col, range.last_row, range.last_col), (0, 0, 0, 0));
    worksheet.set_row_height_pixels(20, 30).unwrap();
    worksheet.write_number(4, 7, Number::from_i64(1)).unwrap();
    let range = worksheet.dimension();
    assert_eq!((range.first_row, range.first_col, range.last_row, range.last_col), (4, 7, 4, 7));
    worksheet.write_number(9, 2, Number::from_i64(1)).unwrap();
    worksheet.write_number(6, 11, Number::from_i64(1)).unwrap();
    worksheet.write_number(2, 5, Number::from_i64(1)).unwrap();
    let range = worksheet.dimension();
    assert_eq!((range.first_row, range.first_col, range.last_row, range.last_col), (2, 2, 9, 11));
}

#[test]
fn booleans_take_a_format() {
    let mut worksheet = Worksheet::new();
    let bold = Format::new().set_bold();
    worksheet.write_boolean_with_format(0, 0, true, &bold).unwrap();
    worksheet.write_boolean_with_format(0, 1, false, &bold).unwrap();
    worksheet.write_boolean(0, 2, true).unwrap();
    assert_eq!(
        worksheet.write_boolean_with_format(ROW_MAX, 0, true, &bold),
        Err(XlsxError::RowColumnLimitError)
    );
    let xml = sheet_xml(worksheet);
    assert_eq!(
        sheet_data(&xml),
        "<sheetData><row r=\"1\"><c r=\"A1\" s=\"1\" t=\"b\"><v>1</v></c>\
         <c r=\"B1\" s=\"1\" t=\"b\"><v>0</v></c><c r=\"C1\" t=\"b\"><v>1</v></c></row>\
         </sheetData>"
    );
}

#[test]
fn repeated_names_are_found() {
    let names = |names: &[&str]| names.iter().map(|name| name.to_string()).collect::<Vec<_>>();
    assert!(!Worksheet::any_duplicate(&names(&[])));
    assert!(!Worksheet::any_duplicate(&names(&["a"])));
    assert!(!Worksheet::any_duplicate(&names(&["a", "A", "b", ""])));
    assert!(Worksheet::any_duplicate(&names(&["a", "b", "c", "b"])));
    assert!(Worksheet::any_duplicate(&names(&["", "b", ""])));
    assert!(Worksheet::any_duplicate(&names(&["x", "x"])));
}

#[test]
fn names_of_worksheets_differ_by_more_than_case() {
    let mut workbook = Workbook::new();
    workbook.add_worksheet().set_name("Data").unwrap();
    workbook.add_worksheet().set_name("data2").unwrap();
    assert!(workbook.assemble().is_ok());
    workbook.add_worksheet().set_name("DATA").unwrap();
    assert_eq!(workbook.assemble().err(), Some(XlsxError::SheetnameReused));
}
