// Formats in the format table and in the styles part.

use rust_xlsxwriter::error::XlsxError;
use rust_xlsxwriter::format::{Color, Format, FormatPattern};
use rust_xlsxwriter::number::Number;
use rust_xlsxwriter::workbook::{PackagePart, Workbook};

fn part<'a>(parts: &'a [PackagePart], name: &str) -> &'a str {
    match parts.iter().find(|part| part.name == name) {
        Some(part) => part.content.as_str(),
        None => panic!("the package has no part {}", name),
    }
}

// The worksheet part around the dimension, the column settings, the rows
// and what follows the rows.
fn worksheet_xml(selected: bool, dimension: &str, cols: &str, rows: &str, tail: &str) -> String {
    format!(
        "<?xml version=\"1.0\" encoding=\"UTF-8\" standalone=\"yes\"?>\n\
         <worksheet xmlns=\"http://schemas.openxmlformats.org/spreadsheetml/2006/main\" \
         xmlns:r=\"http://schemas.openxmlformats.org/officeDocument/2006/relationships\">\
         <dimension ref=\"{}\"/>\
         <sheetViews><sheetView {}workbookViewId=\"0\"/></sheetViews>\
         <sheetFormatPr defaultRowHeight=\"15\"/>\
         {}<sheetData>{}</sheetData>{}</worksheet>",
        dimension,
        if selected { "tabSelected=\"1\" " } else { "" },
        cols,
        rows,
        tail
    )
}

const MARGINS: &str = "<pageMargins left=\"0.7\" right=\"0.7\" top=\"0.75\" bottom=\"0.75\" \
                       header=\"0.3\" footer=\"0.3\"/>";

// The shared-strings part for the texts `texts`, to which `count` cells
// refer.
fn shared_strings_xml(count: usize, texts: &[&str]) -> String {
    let mut items = String::new();
    for text in texts {
        items.push_str(&format!("<si><t>{}</t></si>", text));
    }
    format!(
        "<?xml version=\"1.0\" encoding=\"UTF-8\" standalone=\"yes\"?>\n\
         <sst xmlns=\"http://schemas.openxmlformats.org/spreadsheetml/2006/main\" \
         count=\"{}\" uniqueCount=\"{}\">{}</sst>",
        count,
        texts.len(),
        items
    )
}

// The styles part around its tables of number formats, fonts, fills and
// borders, and the entries of the formats after the default format.
fn styles_xml(num_formats: &str, fonts: &[&str], fills: &[&str], xfs: &[&str]) -> String {
    let mut font_items = String::from(
        "<font><sz val=\"11\"/><name val=\"Calibri\"/><family val=\"2\"/>\
         <scheme val=\"minor\"/></font>",
    );
    for font in fonts {
        font_items.push_str(font);
    }
    let mut fill_items = String::from(
        "<fill><patternFill patternType=\"none\"/></fill>\
         <fill><patternFill patternType=\"gray125\"/></fill>",
    );
    for fill in fills {
        fill_items.push_str(fill);
    }
    let mut xf_items =
        String::from("<xf numFmtId=\"0\" fontId=\"0\" fillId=\"0\" borderId=\"0\" xfId=\"0\"/>");
    for xf in xfs {
        xf_items.push_str(xf);
    }
    format!(
        "<?xml version=\"1.0\" encoding=\"UTF-8\" standalone=\"yes\"?>\n\
         <styleSheet xmlns=\"http://schemas.openxmlformats.org/spreadsheetml/2006/main\">\
         {}<fonts count=\"{}\">{}</fonts><fills count=\"{}\">{}</fills>\
         <borders count=\"1\"><border><left/><right/><top/><bottom/><diagonal/></border></borders>\
         <cellStyleXfs count=\"1\"><xf numFmtId=\"0\" fontId=\"0\" fillId=\"0\" borderId=\"0\"/>\
         </cellStyleXfs><cellXfs count=\"{}\">{}</cellXfs>\
         <cellStyles count=\"1\"><cellStyle name=\"Normal\" xfId=\"0\" builtinId=\"0\"/>\
         </cellStyles><dxfs count=\"0\"/>\
         <tableStyles count=\"0\" defaultTableStyle=\"TableStyleMedium9\" \
         defaultPivotStyle=\"PivotStyleLight16\"/></styleSheet>",
        num_formats,
        fonts.len() + 1,
        font_items,
        fills.len() + 2,
        fill_items,
        xfs.len() + 1,
        xf_items
    )
}

// Test case to demonstrate creating a basic file with some string cell data.
fn create_bootstrap18() -> Result<Workbook, XlsxError> {
    let mut workbook = Workbook::new();

    let format1 = Format::new().set_bold();
    let format2 = Format::new().set_italic();

    let worksheet = workbook.add_worksheet();
    worksheet.write_string_with_format(0, 0, "Hello", &format1)?;
    worksheet.write_string_with_format(1, 0, "World", &format2)?;

    let worksheet = workbook.add_worksheet();
    worksheet.write_string_with_format(0, 0, "Hello", &format2)?;
    worksheet.write_string_with_format(1, 0, "World", &format1)?;

    Ok(workbook)
}

#[test]
fn bootstrap18_duplicate_formats_in_different_order() {
    let case = "bootstrap18";
    let workbook = create_bootstrap18().unwrap();
    let parts = workbook.assemble().unwrap().parts;

    let rows1 = "<row r=\"1\"><c r=\"A1\" s=\"1\" t=\"s\"><v>0</v></c></row>\
                 <row r=\"2\"><c r=\"A2\" s=\"2\" t=\"s\"><v>1</v></c></row>";
    let rows2 = "<row r=\"1\"><c r=\"A1\" s=\"2\" t=\"s\"><v>0</v></c></row>\
                 <row r=\"2\"><c r=\"A2\" s=\"1\" t=\"s\"><v>1</v></c></row>";
    assert_eq!(
        part(&parts, "xl/worksheets/sheet1.xml"),
        worksheet_xml(true, "A1:A2", "", rows1, MARGINS),
        "{}",
        case
    );
    assert_eq!(
        part(&parts, "xl/worksheets/sheet2.xml"),
        worksheet_xml(false, "A1:A2", "", rows2, MARGINS),
        "{}",
        case
    );
    assert_eq!(
        part(&parts, "xl/sharedStrings.xml"),
        shared_strings_xml(4, &["Hello", "World"]),
        "{}",
        case
    );
    let bold = "<font><b/><sz val=\"11\"/><name val=\"Calibri\"/><family val=\"2\"/>\
                <scheme val=\"minor\"/></font>";
    let italic = "<font><i/><sz val=\"11\"/><name val=\"Calibri\"/><family val=\"2\"/>\
                  <scheme val=\"minor\"/></font>";
    assert_eq!(
        part(&parts, "xl/styles.xml"),
        styles_xml(
            "",
            &[bold, italic],
            &[],
            &[
                "<xf numFmtId=\"0\" fontId=\"1\" fillId=\"0\" borderId=\"0\" xfId=\"0\" \
                 applyFont=\"1\"/>",
                "<xf numFmtId=\"0\" fontId=\"2\" fillId=\"0\" borderId=\"0\" xfId=\"0\" \
                 applyFont=\"1\"/>",
            ]
        ),
        "{}",
        case
    );
}

// Test to demonstrate number formats.
fn create_format19() -> Result<Workbook, XlsxError> {
    let mut workbook = Workbook::new();

    let worksheet = workbook.add_worksheet();

    let format1 = Format::new().set_num_format("hh:mm;@");
    let format2 = Format::new()
        .set_num_format("hh:mm;@")
        .set_background_color(Color::Yellow);

    worksheet.write_number_with_format(0, 0, Number::from_i64(1), &format1)?;
    worksheet.write_number_with_format(1, 0, Number::from_i64(2), &format2)?;

    Ok(workbook)
}

#[test]
fn test_format19() {
    let case = "format19";
    let workbook = create_format19().unwrap();
    let parts = workbook.assemble().unwrap().parts;

    let rows = "<row r=\"1\"><c r=\"A1\" s=\"1\"><v>1</v></c></row>\
                <row r=\"2\"><c r=\"A2\" s=\"2\"><v>2</v></c></row>";
    assert_eq!(
        part(&parts, "xl/worksheets/sheet1.xml"),
        worksheet_xml(true, "A1:A2", "", rows, MARGINS),
        "{}",
        case
    );
    assert_eq!(
        part(&parts, "xl/styles.xml"),
        styles_xml(
            "<numFmts count=\"1\"><numFmt numFmtId=\"164\" formatCode=\"hh:mm;@\"/></numFmts>",
            &[],
            &["<fill><patternFill patternType=\"solid\"><fgColor rgb=\"FFFFFF00\"/>\
               <bgColor indexed=\"64\"/></patternFill></fill>"],
            &[
                "<xf numFmtId=\"164\" fontId=\"0\" fillId=\"0\" borderId=\"0\" xfId=\"0\" \
                 applyNumberFormat=\"1\"/>",
                "<xf numFmtId=\"164\" fontId=\"0\" fillId=\"2\" borderId=\"0\" xfId=\"0\" \
                 applyNumberFormat=\"1\" applyFill=\"1\"/>",
            ]
        ),
        "{}",
        case
    );
}

// Test to demonstrate automatic colours and a patterned fill.
fn create_format21() -> Result<Workbook, XlsxError> {
    let mut workbook = Workbook::new();

    let worksheet = workbook.add_worksheet();

    let format1 = Format::new()
        .set_font_color(Color::Automatic)
        .set_foreground_color(Color::Automatic)
        .set_background_color(Color::Red)
        .set_pattern(FormatPattern::DarkVertical);

    worksheet.write_string_with_format(0, 0, "Foo", &format1)?;

    Ok(workbook)
}

#[test]
fn test_format21() {
    let case = "format21";
    let workbook = create_format21().unwrap();
    let parts = workbook.assemble().unwrap().parts;

    let rows = "<row r=\"1\"><c r=\"A1\" s=\"1\" t=\"s\"><v>0</v></c></row>";
    assert_eq!(
        part(&parts, "xl/worksheets/sheet1.xml"),
        worksheet_xml(true, "A1", "", rows, MARGINS),
        "{}",
        case
    );
    assert_eq!(
        part(&parts, "xl/styles.xml"),
        styles_xml(
            "",
            &["<font><sz val=\"11\"/><color auto=\"1\"/><name val=\"Calibri\"/>\
               <family val=\"2\"/><scheme val=\"minor\"/></font>"],
            &["<fill><patternFill patternType=\"darkVertical\"><fgColor auto=\"1\"/>\
               <bgColor rgb=\"FFFF0000\"/></patternFill></fill>"],
            &["<xf numFmtId=\"0\" fontId=\"1\" fillId=\"2\" borderId=\"0\" xfId=\"0\" \
               applyFont=\"1\" applyFill=\"1\"/>"]
        ),
        "{}",
        case
    );
}

// Test to demonstrate a font with a character set and without a family.
fn create_format13() -> Result<Workbook, XlsxError> {
    let mut workbook = Workbook::new();

    let format1 = Format::new()
        .set_font_name("B Nazanin")
        .set_font_family(0)
        .set_font_charset(178);

    let worksheet = workbook.add_worksheet();

    worksheet.write_string_with_format(0, 0, "Foo", &format1)?;

    Ok(workbook)
}

#[test]
fn format13_font_charset() {
    let case = "format13";
    let workbook = create_format13().unwrap();
    let parts = workbook.assemble().unwrap().parts;

    let rows = "<row r=\"1\"><c r=\"A1\" s=\"1\" t=\"s\"><v>0</v></c></row>";
    assert_eq!(
        part(&parts, "xl/worksheets/sheet1.xml"),
        worksheet_xml(true, "A1", "", rows, MARGINS),
        "{}",
        case
    );
    assert_eq!(
        part(&parts, "xl/styles.xml"),
        styles_xml(
            "",
            &["<font><sz val=\"11\"/><name val=\"B Nazanin\"/><charset val=\"178\"/></font>"],
            &[],
            &["<xf numFmtId=\"0\" fontId=\"1\" fillId=\"0\" borderId=\"0\" xfId=\"0\" \
               applyFont=\"1\"/>"]
        ),
        "{}",
        case
    );
    assert_eq!(part(&parts, "xl/sharedStrings.xml"), shared_strings_xml(1, &["Foo"]), "{}", case);
}

#[test]
fn the_default_format_is_the_new_format() {
    let format = Format::default();
    assert!(format.is_default());
    assert!(Format::new().is_default());
    assert!(!Format::default().set_bold().is_default());
    let mut workbook = Workbook::new();
    let worksheet = workbook.add_worksheet();
    worksheet.write_number_with_format(0, 0, Number::from_u64(1), &format).unwrap();
    assert_eq!(worksheet.format_count(), 1);
    let parts = workbook.assemble().unwrap().parts;
    assert!(part(&parts, "xl/worksheets/sheet1.xml").contains("<c r=\"A1\"><v>1</v></c>"));
}
