// Formulas that fill a range.

use rust_xlsxwriter::error::XlsxError;
use rust_xlsxwriter::workbook::{Package, Workbook};
use rust_xlsxwriter::worksheet::{Formula, Worksheet};

fn part<'a>(package: &'a Package, name: &str) -> &'a str {
    match package.parts.iter().find(|part| part.name == name) {
        Some(part) => part.content.as_str(),
        None => panic!("the package has no part {}", name),
    }
}

const RELATIONSHIPS: &str = "http://schemas.openxmlformats.org/officeDocument/2006/relationships";

// Test case to demonstrate a dynamic formula, given as a text.
fn create_new_xlsx_file_1() -> Result<Workbook, XlsxError> {
    let mut workbook = Workbook::new();

    let worksheet = workbook.add_worksheet();

    let formula: &str = "=AVERAGE(TIMEVALUE(B1:B2))";
    worksheet.write_dynamic_array_formula(0, 0, 0, 0, &Formula::new(formula))?;
    worksheet.write_string(0, 1, "12:00")?;
    worksheet.write_string(1, 1, "12:00")?;

    Ok(workbook)
}

// Test case to demonstrate a dynamic formula, given as a formula.
fn create_new_xlsx_file_2() -> Result<Workbook, XlsxError> {
    let mut workbook = Workbook::new();

    let worksheet = workbook.add_worksheet();

    worksheet.write_dynamic_array_formula(
        0,
        0,
        0,
        0,
        &Formula::new("=AVERAGE(TIMEVALUE(B1:B2))"),
    )?;
    worksheet.write_string(0, 1, "12:00")?;
    worksheet.write_string(1, 1, "12:00")?;

    Ok(workbook)
}

fn assert_package(case: &str, workbook: &Workbook) {
    let package = workbook.assemble().unwrap();
    assert_eq!(
        part(&package, "xl/worksheets/sheet1.xml"),
        format!(
            "<?xml version=\"1.0\" encoding=\"UTF-8\" standalone=\"yes\"?>\n\
             <worksheet xmlns=\"http://schemas.openxmlformats.org/spreadsheetml/2006/main\" \
             xmlns:r=\"{}\"><dimension ref=\"A1:B2\"/>\
             <sheetViews><sheetView tabSelected=\"1\" workbookViewId=\"0\"/></sheetViews>\
             <sheetFormatPr defaultRowHeight=\"15\"/><sheetData>\
             <row r=\"1\"><c r=\"A1\" cm=\"1\"><f t=\"array\" ref=\"A1\">\
             AVERAGE(TIMEVALUE(B1:B2))</f><v>0</v></c><c r=\"B1\" t=\"s\"><v>0</v></c></row>\
             <row r=\"2\"><c r=\"B2\" t=\"s\"><v>0</v></c></row></sheetData>\
             <pageMargins left=\"0.7\" right=\"0.7\" top=\"0.75\" bottom=\"0.75\" \
             header=\"0.3\" footer=\"0.3\"/></worksheet>",
            RELATIONSHIPS
        ),
        "{}",
        case
    );
    assert_eq!(
        part(&package, "xl/metadata.xml"),
        "<?xml version=\"1.0\" encoding=\"UTF-8\" standalone=\"yes\"?>\n\
         <metadata xmlns=\"http://schemas.openxmlformats.org/spreadsheetml/2006/main\" \
         xmlns:xda=\"http://schemas.microsoft.com/office/spreadsheetml/2017/dynamicarray\">\
         <metadataTypes count=\"1\"><metadataType name=\"XLDAPR\" \
         minSupportedVersion=\"120000\" copy=\"1\" pasteAll=\"1\" pasteValues=\"1\" merge=\"1\" \
         splitFirst=\"1\" rowColShift=\"1\" clearFormats=\"1\" clearComments=\"1\" assign=\"1\" \
         coerce=\"1\" cellMeta=\"1\"/></metadataTypes><futureMetadata name=\"XLDAPR\" \
         count=\"1\"><bk><extLst><ext uri=\"{bdbb8cdc-fa1e-496e-a857-3c3f30c029c3}\">\
         <xda:dynamicArrayProperties fDynamic=\"1\" fCollapsed=\"0\"/></ext></extLst></bk>\
         </futureMetadata><cellMetadata count=\"1\"><bk><rc t=\"1\" v=\"0\"/></bk>\
         </cellMetadata></metadata>",
        "{}",
        case
    );
    assert!(
        part(&package, "xl/_rels/workbook.xml.rels").ends_with(&format!(
            "<Relationship Id=\"rId2\" Type=\"{}/styles\" Target=\"styles.xml\"/>\
             <Relationship Id=\"rId3\" Type=\"{}/sharedStrings\" Target=\"sharedStrings.xml\"/>\
             <Relationship Id=\"rId4\" Type=\"{}/sheetMetadata\" Target=\"metadata.xml\"/>\
             </Relationships>",
            RELATIONSHIPS, RELATIONSHIPS, RELATIONSHIPS
        )),
        "{}",
        case
    );
    assert!(
        part(&package, "[Content_Types].xml").ends_with(
            "<Override PartName=\"/xl/sharedStrings.xml\" ContentType=\"application/\
             vnd.openxmlformats-officedocument.spreadsheetml.sharedStrings+xml\"/>\
             <Override PartName=\"/xl/metadata.xml\" ContentType=\"application/\
             vnd.openxmlformats-officedocument.spreadsheetml.sheetMetadata+xml\"/></Types>"
        ),
        "{}",
        case
    );
    assert!(
        part(&package, "xl/sharedStrings.xml")
            .ends_with("count=\"2\" uniqueCount=\"1\"><si><t>12:00</t></si></sst>"),
        "{}",
        case
    );
}

#[test]
fn test_dynamic_array01() {
    assert_package("dynamic_array01", &create_new_xlsx_file_1().unwrap());
}

#[test]
fn test_dynamic_array01_formula() {
    assert_package("dynamic_array01", &create_new_xlsx_file_2().unwrap());
}

#[test]
fn array_formulas_name_their_range() {
    let mut worksheet = Worksheet::new();
    worksheet
        .write_array_formula(0, 0, 2, 0, &Formula::new("{=SUM(B1:C1*B2:C2)}").set_result("9"))
        .unwrap();
    assert!(!worksheet.uses_dynamic_arrays());
    assert_eq!(
        worksheet.write_array_formula(0, 0, 1_048_576, 0, &Formula::new("=1")),
        Err(XlsxError::RowColumnLimitError)
    );
    assert_eq!(
        worksheet.write_dynamic_array_formula(3, 0, 2, 0, &Formula::new("=1")),
        Err(XlsxError::RowColumnOrderError)
    );
    assert!(!worksheet.uses_dynamic_arrays());
    let mut workbook = Workbook::new();
    workbook.push_worksheet(worksheet);
    let package = workbook.assemble().unwrap();
    assert!(part(&package, "xl/worksheets/sheet1.xml").contains(
        "<sheetData><row r=\"1\"><c r=\"A1\"><f t=\"array\" ref=\"A1:A3\">SUM(B1:C1*B2:C2)</f>\
         <v>9</v></c></row></sheetData>"
    ));
    assert!(package.parts.iter().all(|part| part.name != "xl/metadata.xml"));
    assert!(!part(&package, "xl/_rels/workbook.xml.rels").contains("metadata"));
    assert!(part(&package, "xl/_rels/workbook.xml.rels").ends_with(&format!(
        "<Relationship Id=\"rId2\" Type=\"{}/styles\" Target=\"styles.xml\"/></Relationships>",
        RELATIONSHIPS
    )));
}

#[test]
fn formulas_lose_braces_and_equals_sign() {
    assert_eq!(Formula::new("{=SUM(A1:A3)}").formula, "SUM(A1:A3)");
    assert_eq!(Formula::new("{SUM(A1:A3)}").formula, "SUM(A1:A3)");
    assert_eq!(Formula::new("{=}").formula, "");
    assert_eq!(Formula::new("{}").formula, "");
    // Braces are dropped in pairs only.
    assert_eq!(Formula::new("=SUM(A1:A3)}").formula, "SUM(A1:A3)}");
    assert_eq!(Formula::new("{").formula, "{");
    assert_eq!(Formula::new("}").formula, "}");
    assert_eq!(Formula::new("{=").formula, "{=");
    assert_eq!(Formula::new("={1,2}").formula, "{1,2}");
    assert_eq!(Formula::new("=A1&\"}\"").formula, "A1&\"}\"");
}
