// Formulas, document properties and print options.

use rust_xlsxwriter::error::XlsxError;
use rust_xlsxwriter::format::Format;
use rust_xlsxwriter::properties::DocProperties;
use rust_xlsxwriter::workbook::{PackagePart, Workbook};
use rust_xlsxwriter::worksheet::Formula;

fn part<'a>(parts: &'a [PackagePart], name: &str) -> &'a str {
    match parts.iter().find(|part| part.name == name) {
        Some(part) => part.content.as_str(),
        None => panic!("the package has no part {}", name),
    }
}

// The worksheet part around the dimension, the column settings, the rows
// and what follows the rows.
fn worksheet_xml(selected: bool, dimension: &str, cols: &str, rows: &str, tail: &str) -> String {
    format!(
        "<?xml version=\"1.0\" encoding=\"UTF-8\" standalone=\"yes\"?>\n\
         <worksheet xmlns=\"http://schemas.openxmlformats.org/spreadsheetml/2006/main\" \
         xmlns:r=\"http://schemas.openxmlformats.org/officeDocument/2006/relationships\">\
         <dimension ref=\"{}\"/>\
         <sheetViews><sheetView {}workbookViewId=\"0\"/></sheetViews>\
         <sheetFormatPr defaultRowHeight=\"15\"/>\
         {}<sheetData>{}</sheetData>{}</worksheet>",
        dimension,
        if selected { "tabSelected=\"1\" " } else { "" },
        cols,
        rows,
        tail
    )
}

const MARGINS: &str = "<pageMargins left=\"0.7\" right=\"0.7\" top=\"0.75\" bottom=\"0.75\" \
                       header=\"0.3\" footer=\"0.3\"/>";

fn assert_formulas(case: &str, workbook: &Workbook) {
    let parts = workbook.assemble().unwrap().parts;
    let rows1 = "<row r=\"1\"><c r=\"A1\"><f>1+2+3-6</f><v>0</v></c></row>\
                 <row r=\"2\"><c r=\"A2\"><f>SIN(0)</f><v>0</v></c></row>\
                 <row r=\"3\"><c r=\"A3\" s=\"1\"><f>SIN(0)</f><v>0</v></c></row>\
                 <row r=\"4\"><c r=\"A4\"><f>1+1</f><v>2</v></c></row>\
                 <row r=\"5\"><c r=\"A5\" s=\"1\"><f>1+1</f><v>2</v></c></row>";
    let rows2 = "<row r=\"1\"><c r=\"A1\"><f>2</f><v>2</v></c></row>\
                 <row r=\"2\"><c r=\"A2\"><f>1+1</f><v>2</v></c></row>";
    assert_eq!(
        part(&parts, "xl/worksheets/sheet1.xml"),
        worksheet_xml(true, "A1:A5", "", rows1, MARGINS),
        "{}",
        case
    );
    assert_eq!(
        part(&parts, "xl/worksheets/sheet2.xml"),
        worksheet_xml(false, "A1:A2", "", rows2, MARGINS),
        "{}",
        case
    );
    assert!(parts.iter().all(|part| part.name != "xl/sharedStrings.xml"), "{}", case);
}

// Test case to demonstrate writing formulas, with the results set
// afterwards.
fn create_new_xlsx_file_1() -> Result<Workbook, XlsxError> {
    let mut workbook = Workbook::new();
    let worksheet = workbook.add_worksheet();
    let format1 = Format::new().set_bold();

    worksheet.write_formula(0, 0, &Formula::new("=1+2+3-6"))?;
    worksheet.write_formula(1, 0, &Formula::new("=SIN(0)"))?;
    worksheet.write_formula_with_format(2, 0, &Formula::new("SIN(0)"), &format1)?; // No equals sign.
    worksheet.write_formula(3, 0, &Formula::new("=1+1"))?;
    worksheet.set_formula_result(3, 0, "2");
    worksheet.write_formula_with_format(4, 0, &Formula::new("1+1"), &format1)?;
    worksheet.set_formula_result(4, 0, "2");

    let worksheet = workbook.add_worksheet();
    worksheet.set_formula_result_default("2");
    worksheet.write_formula(0, 0, &Formula::new("=2"))?;
    worksheet.write_formula(1, 0, &Formula::new("=1+1"))?;

    Ok(workbook)
}

// Test case to demonstrate writing formulas, with the results set on the
// formulas.
fn create_new_xlsx_file_2() -> Result<Workbook, XlsxError> {
    let mut workbook = Workbook::new();
    let worksheet = workbook.add_worksheet();
    let format1 = Format::new().set_bold();

    worksheet.write_formula(0, 0, &Formula::new("=1+2+3-6"))?;
    worksheet.write_formula(1, 0, &Formula::new(&"=SIN(0)".to_string()))?; // Uses String type.
    worksheet.write_formula_with_format(2, 0, &Formula::new("SIN(0)"), &format1)?; // No equals sign.
    worksheet.write_formula(3, 0, &Formula::new("=1+1").set_result("2"))?;
    worksheet.write_formula_with_format(4, 0, &Formula::new("1+1").set_result("2"), &format1)?;

    let worksheet = workbook.add_worksheet();
    worksheet.set_formula_result_default("2");
    worksheet.write_formula(0, 0, &Formula::new("=2"))?;
    worksheet.write_formula(1, 0, &Formula::new("=1+1"))?;

    Ok(workbook)
}

#[test]
fn bootstrap35_write_formula() {
    assert_formulas("bootstrap35", &create_new_xlsx_file_1().unwrap());
}

#[test]
fn bootstrap35_write_formula_generic() {
    assert_formulas("bootstrap35", &create_new_xlsx_file_2().unwrap());
}

// Test case to demonstrate setting the document properties.
fn create_bootstrap56() -> Result<Workbook, XlsxError> {
    let mut workbook = Workbook::new();

    let properties = DocProperties::new().set_author("Juan García Madero");
    workbook.set_properties(properties);

    Ok(workbook)
}

#[test]
fn bootstrap56_doc_properties() {
    let case = "bootstrap56";
    let workbook = create_bootstrap56().unwrap();
    let parts = workbook.assemble().unwrap().parts;

    assert_eq!(
        part(&parts, "docProps/core.xml"),
        "<?xml version=\"1.0\" encoding=\"UTF-8\" standalone=\"yes\"?>\n\
         <cp:coreProperties \
         xmlns:cp=\"http://schemas.openxmlformats.org/package/2006/metadata/core-properties\" \
         xmlns:dc=\"http://purl.org/dc/elements/1.1/\" \
         xmlns:dcterms=\"http://purl.org/dc/terms/\" \
         xmlns:dcmitype=\"http://purl.org/dc/dcmitype/\" \
         xmlns:xsi=\"http://www.w3.org/2001/XMLSchema-instance\">\
         <dc:creator>Juan García Madero</dc:creator>\
         <cp:lastModifiedBy>Juan García Madero</cp:lastModifiedBy>\
         <dcterms:created xsi:type=\"dcterms:W3CDTF\">1970-01-01T00:00:00Z</dcterms:created>\
         <dcterms:modified xsi:type=\"dcterms:W3CDTF\">1970-01-01T00:00:00Z</dcterms:modified>\
         </cp:coreProperties>",
        "{}",
        case
    );
    assert_eq!(
        part(&parts, "docProps/app.xml"),
        "<?xml version=\"1.0\" encoding=\"UTF-8\" standalone=\"yes\"?>\n\
         <Properties \
         xmlns=\"http://schemas.openxmlformats.org/officeDocument/2006/extended-properties\" \
         xmlns:vt=\"http://schemas.openxmlformats.org/officeDocument/2006/docPropsVTypes\">\
         <Application>Microsoft Excel</Application><DocSecurity>0</DocSecurity>\
         <ScaleCrop>false</ScaleCrop><HeadingPairs><vt:vector size=\"2\" baseType=\"variant\">\
         <vt:variant><vt:lpstr>Worksheets</vt:lpstr></vt:variant>\
         <vt:variant><vt:i4>1</vt:i4></vt:variant></vt:vector></HeadingPairs>\
         <TitlesOfParts><vt:vector size=\"1\" baseType=\"lpstr\"><vt:lpstr>Sheet1</vt:lpstr>\
         </vt:vector></TitlesOfParts><Company></Company><LinksUpToDate>false</LinksUpToDate>\
         <SharedDoc>false</SharedDoc><HyperlinksChanged>false</HyperlinksChanged>\
         <AppVersion>12.0000</AppVersion></Properties>",
        "{}",
        case
    );
    // A workbook without worksheets is packed with one empty worksheet.
    assert_eq!(
        part(&parts, "xl/worksheets/sheet1.xml"),
        worksheet_xml(true, "A1", "", "", MARGINS).replace("<sheetData></sheetData>", "<sheetData/>"),
        "{}",
        case
    );
}

// Test to demonstrate the print options.
fn create_print_options05() -> Result<Workbook, XlsxError> {
    let mut workbook = Workbook::new();

    let worksheet = workbook.add_worksheet();

    worksheet.set_print_gridlines(true);
    worksheet.set_print_center_horizontally(true);
    worksheet.set_print_center_vertically(true);
    worksheet.set_print_headings(true);

    worksheet.write_string(0, 0, "Foo")?;

    Ok(workbook)
}

#[test]
fn test_print_options05() {
    let case = "print_options05";
    let workbook = create_print_options05().unwrap();
    let parts = workbook.assemble().unwrap().parts;

    let rows = "<row r=\"1\"><c r=\"A1\" t=\"s\"><v>0</v></c></row>";
    let tail = format!(
        "<printOptions horizontalCentered=\"1\" verticalCentered=\"1\" headings=\"1\" \
         gridLines=\"1\"/>{}",
        MARGINS
    );
    assert_eq!(
        part(&parts, "xl/worksheets/sheet1.xml"),
        worksheet_xml(true, "A1", "", rows, &tail),
        "{}",
        case
    );
}

// Test to demonstrate a print area of a whole column.
fn create_print_area05() -> Result<Workbook, XlsxError> {
    let mut workbook = Workbook::new();

    let worksheet = workbook.add_worksheet();

    worksheet.write_string(0, 0, "Foo")?;
    worksheet.set_print_area(0, 0, 1_048_575, 0)?;

    Ok(workbook)
}

#[test]
fn test_print_area05() {
    let case = "print_area05";
    let workbook = create_print_area05().unwrap();
    let parts = workbook.assemble().unwrap().parts;

    let rows = "<row r=\"1\"><c r=\"A1\" t=\"s\"><v>0</v></c></row>";
    assert_eq!(
        part(&parts, "xl/worksheets/sheet1.xml"),
        worksheet_xml(true, "A1", "", rows, MARGINS),
        "{}",
        case
    );
    assert_eq!(
        part(&parts, "xl/workbook.xml"),
        "<?xml version=\"1.0\" encoding=\"UTF-8\" standalone=\"yes\"?>\n\
         <workbook xmlns=\"http://schemas.openxmlformats.org/spreadsheetml/2006/main\" \
         xmlns:r=\"http://schemas.openxmlformats.org/officeDocument/2006/relationships\">\
         <fileVersion appName=\"xl\" lastEdited=\"4\" lowestEdited=\"4\" rupBuild=\"4505\"/>\
         <workbookPr/><bookViews><workbookView xWindow=\"240\" yWindow=\"15\" \
         windowWidth=\"16095\" windowHeight=\"9660\"/></bookViews><sheets>\
         <sheet name=\"Sheet1\" sheetId=\"1\" r:id=\"rId1\"/></sheets><definedNames>\
         <definedName name=\"_xlnm.Print_Area\" localSheetId=\"0\">\
         &apos;Sheet1&apos;!$A:$A</definedName></definedNames>\
         <calcPr calcId=\"124519\" fullCalcOnLoad=\"1\"/></workbook>",
        "{}",
        case
    );
}

#[test]
fn print_areas_are_named_by_their_shape() {
    let mut workbook = Workbook::new();
    let worksheet = workbook.add_worksheet();
    worksheet.set_print_area(0, 0, 9, 3).unwrap();
    worksheet.autofilter(0, 0, 9, 3).unwrap();
    let worksheet = workbook.add_worksheet();
    worksheet.set_print_area(2, 0, 5, 16_383).unwrap();
    let worksheet = workbook.add_worksheet();
    worksheet.set_print_area(0, 1, 1_048_575, 3).unwrap();
    // The whole worksheet is printed anyway.
    let worksheet = workbook.add_worksheet();
    worksheet.set_print_area(0, 0, 4, 4).unwrap();
    worksheet.set_print_area(0, 0, 1_048_575, 16_383).unwrap();
    assert_eq!(worksheet.print_area(), None);
    assert_eq!(
        worksheet.set_print_area(0, 0, 1_048_576, 0),
        Err(XlsxError::RowColumnLimitError)
    );
    assert_eq!(worksheet.set_print_area(3, 0, 2, 0), Err(XlsxError::RowColumnOrderError));
    let parts = workbook.assemble().unwrap().parts;
    assert!(part(&parts, "xl/workbook.xml").contains(
        "<definedNames>\
         <definedName name=\"_xlnm._FilterDatabase\" localSheetId=\"0\" hidden=\"1\">\
         &apos;Sheet1&apos;!$A$1:$D$10</definedName>\
         <definedName name=\"_xlnm.Print_Area\" localSheetId=\"0\">\
         &apos;Sheet1&apos;!$A$1:$D$10</definedName>\
         <definedName name=\"_xlnm.Print_Area\" localSheetId=\"1\">\
         &apos;Sheet2&apos;!$3:$6</definedName>\
         <definedName name=\"_xlnm.Print_Area\" localSheetId=\"2\">\
         &apos;Sheet3&apos;!$B:$D</definedName></definedNames>"
    ));
}
