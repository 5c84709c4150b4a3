// The tables of a workbook: formats, shared strings, names of worksheets,
// numerals and references, and the writer of XML.

use rust_xlsxwriter::core_properties::Core;
use rust_xlsxwriter::error::XlsxError;
use rust_xlsxwriter::format::{
    Color, Fill, Format, FormatAlign, FormatBorder, FormatPattern, FormatVerticalAlign,
};
use rust_xlsxwriter::number::Number;
use rust_xlsxwriter::properties::DocProperties;
use rust_xlsxwriter::registry::{Descriptor, Registry};
use rust_xlsxwriter::shared_strings::SharedStringTable;
use rust_xlsxwriter::styles::assemble_styles;
use rust_xlsxwriter::utility::{
    decimal_string, push_cell_ref, push_column_name, push_decimal, push_range_ref,
};
use rust_xlsxwriter::workbook::{PackagePart, Workbook};
use rust_xlsxwriter::worksheet::Worksheet;
use rust_xlsxwriter::worksheet_xml::{col_width_string, row_height_string};
use rust_xlsxwriter::xmlwriter::{escape_attribute, escape_data, XMLWriter};

fn part<'a>(parts: &'a [PackagePart], name: &str) -> &'a str {
    match parts.iter().find(|part| part.name == name) {
        Some(part) => part.content.as_str(),
        None => panic!("the package has no part {}", name),
    }
}

#[test]
fn equal_formats_share_one_position() {
    let mut registry: Registry<Format> = Registry::new();
    let bold = Format::new().set_bold();
    let same = Format::new().set_bold();
    let other = Format::new().set_bold().set_italic();
    assert_eq!(registry.register(&Format::new()), 0);
    assert_eq!(registry.register(&bold), 1);
    assert_eq!(registry.register(&other), 2);
    assert_eq!(registry.register(&same), 1);
    assert_eq!(registry.register(&bold), 1);
    assert_eq!(registry.len(), 3);
    assert!(bold.same(&same));
    assert!(!bold.same(&other));
    assert_eq!(registry.index_of(&other), Some(2));
    assert_eq!(registry.index_of(&Format::new().set_italic()), None);
    assert_eq!(registry.position_of(&Format::new().set_italic()), 3);
    assert!(registry.get(2).same(&other));
}

#[test]
fn distinct_formats_get_positions_in_the_order_of_registration() {
    let formats = vec![
        Format::new(),
        Format::new().set_italic(),
        Format::new().set_num_format("0.00"),
        Format::new().set_num_format("0.000"),
        Format::new().set_font_name("Arial"),
        Format::new().set_font_size(12),
        Format::new().set_font_color(Color::Red),
        Format::new().set_font_color(Color::RGB(0xFF0001)),
        Format::new().set_border(FormatBorder::Thin),
        Format::new().set_border_color(Color::Blue),
        Format::new().set_align(FormatAlign::Center),
        Format::new().set_vertical_align(FormatVerticalAlign::Top),
        Format::new().set_text_wrap(),
        Format::new().set_unlocked(),
        Format::new().set_hidden(),
        Format::new().set_pattern(FormatPattern::Solid),
        Format::new().set_foreground_color(Color::Green),
        Format::new().set_background_color(Color::Green),
        Format::new().set_font_strikethrough(),
    ];
    let mut registry: Registry<Format> = Registry::new();
    for (position, format) in formats.iter().enumerate() {
        assert_eq!(registry.register(format), position);
    }
    for (position, format) in formats.iter().enumerate() {
        assert_eq!(registry.register(format), position);
    }
    assert_eq!(registry.len(), formats.len());
}

#[test]
fn default_format() {
    assert!(Format::new().is_default());
    assert!(!Format::new().set_bold().is_default());
    let format = Format::new();
    assert_eq!(format.font.name, "Calibri");
    assert_eq!(format.font.style.size, 11);
    assert!(format.protection.locked);
    assert_eq!(format.num_format, "");
}

#[test]
fn fills_are_stated_as_the_styles_part_needs_them() {
    let plain = Fill {
        pattern: FormatPattern::NoPattern,
        foreground_color: Color::Default,
        background_color: Color::Default,
    };
    assert_eq!(plain.normalized(), plain);
    // A lone background colour is the colour of a solid fill.
    let fill = Fill { background_color: Color::Yellow, ..plain };
    assert_eq!(
        fill.normalized(),
        Fill { pattern: FormatPattern::Solid, foreground_color: Color::Yellow, ..plain }
    );
    // A lone foreground colour gets the solid pattern.
    let fill = Fill { foreground_color: Color::Red, ..plain };
    assert_eq!(fill.normalized(), Fill { pattern: FormatPattern::Solid, ..fill });
    // A solid fill with both colours has them swapped.
    let fill = Fill {
        pattern: FormatPattern::Solid,
        foreground_color: Color::Red,
        background_color: Color::Blue,
    };
    assert_eq!(
        fill.normalized(),
        Fill {
            pattern: FormatPattern::Solid,
            foreground_color: Color::Blue,
            background_color: Color::Red,
        }
    );
    // Any other pattern stays as it is.
    let fill = Fill {
        pattern: FormatPattern::DarkGrid,
        foreground_color: Color::Red,
        background_color: Color::Blue,
    };
    assert_eq!(fill.normalized(), fill);
    let fill = Fill { pattern: FormatPattern::LightUp, background_color: Color::Blue, ..plain };
    assert_eq!(fill.normalized(), fill);
}

#[test]
fn colours_have_parts() {
    assert_eq!(Color::Red.rgb(), 0xFF0000);
    assert_eq!(Color::Orange.rgb(), 0xFF6600);
    assert_eq!(Color::RGB(0x123456).rgb(), 0x123456);
    assert_eq!(Color::RGB(0xFF123456).rgb(), 0x123456);
    assert_eq!(Color::Default.rgb(), 0);
    assert!(!Color::Default.is_set());
    assert!(Color::Automatic.is_set());
    assert!(Color::Black.is_set());
}

#[test]
fn styles_part_lists_each_part_of_a_format_once() {
    let mut registry: Registry<Format> = Registry::new();
    registry.register(&Format::new());
    registry.register(
        &Format::new()
            .set_font_name("Arial")
            .set_font_size(9)
            .set_font_color(Color::RGB(0x0A0B0C))
            .set_underline(rust_xlsxwriter::format::FormatUnderline::Double)
            .set_border(FormatBorder::Thin)
            .set_border_color(Color::Red),
    );
    registry.register(
        &Format::new()
            .set_border(FormatBorder::Thin)
            .set_border_color(Color::Red)
            .set_align(FormatAlign::Center)
            .set_vertical_align(FormatVerticalAlign::Top)
            .set_text_wrap()
            .set_unlocked()
            .set_hidden()
            .set_num_format("0.0"),
    );
    let xml = assemble_styles(&registry);
    assert!(xml.contains("<numFmts count=\"1\"><numFmt numFmtId=\"164\" formatCode=\"0.0\"/></numFmts>"));
    assert!(xml.contains(
        "<fonts count=\"2\"><font><sz val=\"11\"/><name val=\"Calibri\"/><family val=\"2\"/>\
         <scheme val=\"minor\"/></font><font><u val=\"double\"/><sz val=\"9\"/>\
         <color rgb=\"FF0A0B0C\"/><name val=\"Arial\"/><family val=\"2\"/></font></fonts>"
    ));
    assert!(xml.contains(
        "<borders count=\"2\"><border><left/><right/><top/><bottom/><diagonal/></border>\
         <border><left style=\"thin\"><color rgb=\"FFFF0000\"/></left>\
         <right style=\"thin\"><color rgb=\"FFFF0000\"/></right>\
         <top style=\"thin\"><color rgb=\"FFFF0000\"/></top>\
         <bottom style=\"thin\"><color rgb=\"FFFF0000\"/></bottom><diagonal/></border></borders>"
    ));
    assert!(xml.contains(
        "<cellXfs count=\"3\"><xf numFmtId=\"0\" fontId=\"0\" fillId=\"0\" borderId=\"0\" \
         xfId=\"0\"/><xf numFmtId=\"0\" fontId=\"1\" fillId=\"0\" borderId=\"1\" xfId=\"0\" \
         applyFont=\"1\" applyBorder=\"1\"/><xf numFmtId=\"164\" fontId=\"0\" fillId=\"0\" \
         borderId=\"1\" xfId=\"0\" applyNumberFormat=\"1\" applyBorder=\"1\" \
         applyAlignment=\"1\" applyProtection=\"1\"><alignment horizontal=\"center\" \
         vertical=\"top\" wrapText=\"1\"/><protection locked=\"0\" hidden=\"1\"/></xf></cellXfs>"
    ));
}

#[test]
fn border_without_colour_is_automatic() {
    let mut registry: Registry<Format> = Registry::new();
    registry.register(&Format::new().set_border(FormatBorder::Double));
    let xml = assemble_styles(&registry);
    assert!(xml.contains("<left style=\"double\"><color auto=\"1\"/></left>"));
}

#[test]
fn same_text_is_interned_once() {
    let mut table = SharedStringTable::new();
    assert_eq!(table.intern(&"alpha".to_string()), 0);
    assert_eq!(table.intern(&"beta".to_string()), 1);
    assert_eq!(table.intern(&"alpha".to_string()), 0);
    assert_eq!(table.intern(&"Alpha".to_string()), 2);
    assert_eq!(table.intern(&"beta".to_string()), 1);
    assert_eq!(table.unique_count(), 3);
    assert_eq!(table.index_of(&"Alpha".to_string()), Some(2));
    assert_eq!(table.index_of(&"gamma".to_string()), None);
    assert_eq!(
        table.assemble_xml_file(),
        "<?xml version=\"1.0\" encoding=\"UTF-8\" standalone=\"yes\"?>\n\
         <sst xmlns=\"http://schemas.openxmlformats.org/spreadsheetml/2006/main\" count=\"5\" \
         uniqueCount=\"3\"><si><t>alpha</t></si><si><t>beta</t></si><si><t>Alpha</t></si></sst>"
    );
}

#[test]
fn shared_strings_follow_the_order_of_the_cells() {
    let mut workbook = Workbook::new();
    let worksheet = workbook.add_worksheet();
    worksheet.write_string(5, 0, "late").unwrap();
    worksheet.write_string(0, 1, "second").unwrap();
    worksheet.write_string(0, 0, "first").unwrap();
    worksheet.write_string(2, 0, "second").unwrap();
    let worksheet = workbook.add_worksheet();
    worksheet.write_string(0, 0, "late").unwrap();
    worksheet.write_string(1, 0, " spaced ").unwrap();
    let parts = workbook.assemble().unwrap().parts;
    assert_eq!(
        part(&parts, "xl/sharedStrings.xml"),
        "<?xml version=\"1.0\" encoding=\"UTF-8\" standalone=\"yes\"?>\n\
         <sst xmlns=\"http://schemas.openxmlformats.org/spreadsheetml/2006/main\" count=\"6\" \
         uniqueCount=\"4\"><si><t>first</t></si><si><t>second</t></si><si><t>late</t></si>\
         <si><t xml:space=\"preserve\"> spaced </t></si></sst>"
    );
    let sheet1 = part(&parts, "xl/worksheets/sheet1.xml");
    assert!(sheet1.contains("<c r=\"A1\" t=\"s\"><v>0</v></c><c r=\"B1\" t=\"s\"><v>1</v></c>"));
    assert!(sheet1.contains("<c r=\"A3\" t=\"s\"><v>1</v></c>"));
    assert!(sheet1.contains("<c r=\"A6\" t=\"s\"><v>2</v></c>"));
    let sheet2 = part(&parts, "xl/worksheets/sheet2.xml");
    assert!(sheet2.contains("<c r=\"A1\" t=\"s\"><v>2</v></c>"));
    assert!(sheet2.contains("<c r=\"A2\" t=\"s\"><v>3</v></c>"));
}

#[test]
fn assembling_twice_gives_the_same_package() {
    let mut workbook = Workbook::new();
    let bold = Format::new().set_bold();
    let worksheet = workbook.add_worksheet();
    worksheet.write_string_with_format(0, 0, "Hello", &bold).unwrap();
    worksheet.write_number(1, 0, Number::from_i64(5)).unwrap();
    worksheet.set_column_width_pixels(0, 120).unwrap();
    worksheet.merge_range(3, 0, 4, 1, "merged", &bold).unwrap();
    workbook.add_worksheet().write_boolean(0, 0, true).unwrap();
    workbook.set_properties(DocProperties::new().set_title("Twice"));

    let first = workbook.assemble().unwrap();
    let second = workbook.assemble().unwrap();
    assert_eq!(first.parts.len(), second.parts.len());
    for (a, b) in first.parts.iter().zip(second.parts.iter()) {
        assert_eq!(a.name, b.name);
        assert_eq!(a.content, b.content);
    }
    assert!(first.media.is_empty() && second.media.is_empty());
    let names: Vec<&str> = first.parts.iter().map(|part| part.name.as_str()).collect();
    assert_eq!(
        names,
        [
            "[Content_Types].xml",
            "_rels/.rels",
            "docProps/app.xml",
            "docProps/core.xml",
            "xl/_rels/workbook.xml.rels",
            "xl/styles.xml",
            "xl/workbook.xml",
            "xl/sharedStrings.xml",
            "xl/worksheets/sheet1.xml",
            "xl/worksheets/sheet2.xml",
        ]
    );
}

#[test]
fn package_parts_refer_to_each_other() {
    let mut workbook = Workbook::new();
    workbook.add_worksheet().write_string(0, 0, "x").unwrap();
    let mut second = Worksheet::new();
    second.set_name("Totals & more").unwrap();
    workbook.push_worksheet(second);
    assert_eq!(workbook.worksheet_count(), 2);
    assert_eq!(workbook.worksheet(1).name(), "Totals & more");
    let parts = workbook.assemble().unwrap().parts;
    assert_eq!(
        part(&parts, "_rels/.rels"),
        "<?xml version=\"1.0\" encoding=\"UTF-8\" standalone=\"yes\"?>\n\
         <Relationships xmlns=\"http://schemas.openxmlformats.org/package/2006/relationships\">\
         <Relationship Id=\"rId1\" Type=\"http://schemas.openxmlformats.org/officeDocument/2006/\
         relationships/officeDocument\" Target=\"xl/workbook.xml\"/>\
         <Relationship Id=\"rId2\" Type=\"http://schemas.openxmlformats.org/package/2006/\
         relationships/metadata/core-properties\" Target=\"docProps/core.xml\"/>\
         <Relationship Id=\"rId3\" Type=\"http://schemas.openxmlformats.org/officeDocument/2006/\
         relationships/extended-properties\" Target=\"docProps/app.xml\"/></Relationships>"
    );
    assert_eq!(
        part(&parts, "xl/_rels/workbook.xml.rels"),
        "<?xml version=\"1.0\" encoding=\"UTF-8\" standalone=\"yes\"?>\n\
         <Relationships xmlns=\"http://schemas.openxmlformats.org/package/2006/relationships\">\
         <Relationship Id=\"rId1\" Type=\"http://schemas.openxmlformats.org/officeDocument/2006/\
         relationships/worksheet\" Target=\"worksheets/sheet1.xml\"/>\
         <Relationship Id=\"rId2\" Type=\"http://schemas.openxmlformats.org/officeDocument/2006/\
         relationships/worksheet\" Target=\"worksheets/sheet2.xml\"/>\
         <Relationship Id=\"rId3\" Type=\"http://schemas.openxmlformats.org/officeDocument/2006/\
         relationships/styles\" Target=\"styles.xml\"/>\
         <Relationship Id=\"rId4\" Type=\"http://schemas.openxmlformats.org/officeDocument/2006/\
         relationships/sharedStrings\" Target=\"sharedStrings.xml\"/></Relationships>"
    );
    assert_eq!(
        part(&parts, "xl/workbook.xml"),
        "<?xml version=\"1.0\" encoding=\"UTF-8\" standalone=\"yes\"?>\n\
         <workbook xmlns=\"http://schemas.openxmlformats.org/spreadsheetml/2006/main\" \
         xmlns:r=\"http://schemas.openxmlformats.org/officeDocument/2006/relationships\">\
         <fileVersion appName=\"xl\" lastEdited=\"4\" lowestEdited=\"4\" rupBuild=\"4505\"/>\
         <workbookPr/><bookViews><workbookView xWindow=\"240\" yWindow=\"15\" \
         windowWidth=\"16095\" windowHeight=\"9660\"/></bookViews><sheets>\
         <sheet name=\"Sheet1\" sheetId=\"1\" r:id=\"rId1\"/>\
         <sheet name=\"Totals &amp; more\" sheetId=\"2\" r:id=\"rId2\"/></sheets>\
         <calcPr calcId=\"124519\" fullCalcOnLoad=\"1\"/></workbook>"
    );
    assert_eq!(
        part(&parts, "[Content_Types].xml"),
        "<?xml version=\"1.0\" encoding=\"UTF-8\" standalone=\"yes\"?>\n\
         <Types xmlns=\"http://schemas.openxmlformats.org/package/2006/content-types\">\
         <Default Extension=\"rels\" \
         ContentType=\"application/vnd.openxmlformats-package.relationships+xml\"/>\
         <Default Extension=\"xml\" ContentType=\"application/xml\"/>\
         <Override PartName=\"/docProps/app.xml\" ContentType=\"application/\
         vnd.openxmlformats-officedocument.extended-properties+xml\"/>\
         <Override PartName=\"/docProps/core.xml\" \
         ContentType=\"application/vnd.openxmlformats-package.core-properties+xml\"/>\
         <Override PartName=\"/xl/styles.xml\" ContentType=\"application/\
         vnd.openxmlformats-officedocument.spreadsheetml.styles+xml\"/>\
         <Override PartName=\"/xl/workbook.xml\" ContentType=\"application/\
         vnd.openxmlformats-officedocument.spreadsheetml.sheet.main+xml\"/>\
         <Override PartName=\"/xl/worksheets/sheet1.xml\" ContentType=\"application/\
         vnd.openxmlformats-officedocument.spreadsheetml.worksheet+xml\"/>\
         <Override PartName=\"/xl/worksheets/sheet2.xml\" ContentType=\"application/\
         vnd.openxmlformats-officedocument.spreadsheetml.worksheet+xml\"/>\
         <Override PartName=\"/xl/sharedStrings.xml\" ContentType=\"application/\
         vnd.openxmlformats-officedocument.spreadsheetml.sharedStrings+xml\"/></Types>"
    );
    assert!(part(&parts, "docProps/app.xml").contains(
        "<vt:i4>2</vt:i4></vt:variant></vt:vector></HeadingPairs><TitlesOfParts>\
         <vt:vector size=\"2\" baseType=\"lpstr\"><vt:lpstr>Sheet1</vt:lpstr>\
         <vt:lpstr>Totals &amp; more</vt:lpstr></vt:vector></TitlesOfParts>"
    ));
}

#[test]
fn worksheet_names_are_unique_ignoring_case() {
    let mut workbook = Workbook::new();
    workbook.add_worksheet().set_name("Data").unwrap();
    workbook.add_worksheet().set_name("DATA").unwrap();
    assert!(matches!(workbook.assemble(), Err(XlsxError::SheetnameReused)));

    let mut workbook = Workbook::new();
    workbook.add_worksheet().set_name("Data").unwrap();
    workbook.add_worksheet().set_name("Data2").unwrap();
    workbook.add_worksheet().set_name("data 1").unwrap();
    assert!(workbook.assemble().is_ok());

    // A default name can meet a name that was chosen.
    let mut workbook = Workbook::new();
    workbook.add_worksheet().set_name("sheet2").unwrap();
    workbook.add_worksheet();
    assert!(matches!(workbook.assemble(), Err(XlsxError::SheetnameReused)));

    let mut workbook = Workbook::new();
    workbook.add_worksheet().set_name("Straße").unwrap();
    workbook.add_worksheet().set_name("STRASSE").unwrap();
    workbook.add_worksheet().set_name("ÉCOLE").unwrap();
    assert!(workbook.assemble().is_ok());
    workbook.add_worksheet().set_name("école").unwrap();
    assert!(matches!(workbook.assemble(), Err(XlsxError::SheetnameReused)));
}

#[test]
fn worksheets_can_be_taken_out_and_put_back() {
    let mut workbook = Workbook::new();
    workbook.add_worksheet();
    workbook.add_worksheet();
    let mut replacement = Worksheet::new();
    replacement.set_name("New").unwrap();
    let previous = workbook.replace_worksheet(0, replacement);
    assert_eq!(previous.name(), "Sheet1");
    assert_eq!(workbook.worksheet(0).name(), "New");
    // A worksheet without a name cannot go into a package.
    workbook.replace_worksheet(1, Worksheet::new());
    assert!(matches!(workbook.assemble(), Err(XlsxError::SheetnameCannotBeBlank)));
}

#[test]
fn document_properties() {
    let properties = DocProperties::new()
        .set_title("Title & more")
        .set_subject("Subject")
        .set_author("Author")
        .set_manager("Manager")
        .set_company("Company")
        .set_category("Category")
        .set_keywords("one, two")
        .set_comment("A <comment>")
        .set_status("Draft")
        .set_hyperlink_base("https://example.com/")
        .set_creation_datetime("2024-02-29T12:30:00Z");
    let mut core = Core::new();
    core.properties = properties.duplicate();
    core.assemble_xml_file();
    let xml = core.writer.read_to_string();
    assert_eq!(xml, Core::assemble(&properties));
    assert!(xml.ends_with(
        "<dc:title>Title &amp; more</dc:title><dc:subject>Subject</dc:subject>\
         <dc:creator>Author</dc:creator><cp:keywords>one, two</cp:keywords>\
         <dc:description>A &lt;comment&gt;</dc:description>\
         <cp:lastModifiedBy>Author</cp:lastModifiedBy>\
         <dcterms:created xsi:type=\"dcterms:W3CDTF\">2024-02-29T12:30:00Z</dcterms:created>\
         <dcterms:modified xsi:type=\"dcterms:W3CDTF\">2024-02-29T12:30:00Z</dcterms:modified>\
         <cp:category>Category</cp:category><cp:contentStatus>Draft</cp:contentStatus>\
         </cp:coreProperties>"
    ));

    let mut workbook = Workbook::new();
    workbook.set_properties(properties);
    let parts = workbook.assemble().unwrap().parts;
    assert!(part(&parts, "docProps/app.xml").contains(
        "</TitlesOfParts><Manager>Manager</Manager><Company>Company</Company>\
         <LinksUpToDate>false</LinksUpToDate><SharedDoc>false</SharedDoc>\
         <HyperlinkBase>https://example.com/</HyperlinkBase>"
    ));
}

#[test]
fn core_part_is_written_piece_by_piece() {
    let mut core = Core::new();
    core.properties = DocProperties::new().set_title("T").set_author("A");
    core.write_dc_title();
    core.write_dc_subject();
    core.write_dc_creator();
    core.write_cp_keywords();
    core.write_dc_description();
    core.write_cp_last_modified_by();
    core.write_cp_category();
    core.write_cp_content_status();
    assert_eq!(
        core.writer.read_to_string(),
        "<dc:title>T</dc:title><dc:creator>A</dc:creator><cp:lastModifiedBy>A</cp:lastModifiedBy>"
    );
    core.writer.reset();
    core.write_dcterms_created();
    core.write_dcterms_modified();
    assert_eq!(
        core.writer.read_to_string(),
        "<dcterms:created xsi:type=\"dcterms:W3CDTF\">1970-01-01T00:00:00Z</dcterms:created>\
         <dcterms:modified xsi:type=\"dcterms:W3CDTF\">1970-01-01T00:00:00Z</dcterms:modified>"
    );
    core.writer.reset();
    core.write_cp_core_properties();
    assert!(core.writer.read_to_string().starts_with("<cp:coreProperties xmlns:cp=\"http://"));
}

#[test]
fn numerals() {
    assert_eq!(decimal_string(0), "0");
    assert_eq!(decimal_string(7), "7");
    assert_eq!(decimal_string(10), "10");
    assert_eq!(decimal_string(1_048_576), "1048576");
    assert_eq!(decimal_string(u64::MAX), "18446744073709551615");
    let mut text = String::from("n=");
    push_decimal(&mut text, u128::MAX);
    assert_eq!(text, "n=340282366920938463463374607431768211455");

    assert_eq!(Number::from_i64(0).as_str(), "0");
    assert_eq!(Number::from_i64(-1).as_str(), "-1");
    assert_eq!(Number::from_i64(i64::MAX).as_str(), "9223372036854775807");
    assert_eq!(Number::from_i64(i64::MIN).as_str(), "-9223372036854775808");
    assert_eq!(Number::from_u64(u64::MAX).as_str(), "18446744073709551615");
    assert_eq!(Number::from_u64(12).duplicate().as_str(), "12");
}

#[test]
fn numerals_are_recognised() {
    for text in ["0", "7", "-7", "12.5", "-0.125", "007", "1.0", "100000000000000000000000"] {
        assert_eq!(Number::parse(text).map(|n| n.as_str().to_string()), Some(text.to_string()));
    }
    for text in [
        "", "-", ".", "-.", "1.", ".5", "-.5", "1..2", "1.2.3", "--1", "1-", "+1", "1e5", "1E5",
        " 1", "1 ", "NaN", "inf", "-inf", "0x10", "1,5", "１",
    ] {
        assert!(Number::parse(text).is_none(), "{:?}", text);
    }
    assert_eq!(Number::parse(&format!("{}", 0.1f64 + 0.2f64)).unwrap().as_str(), "0.30000000000000004");
    assert!(Number::parse(&format!("{}", f64::NAN)).is_none());
    assert!(Number::parse(&format!("{}", f64::INFINITY)).is_none());
}

#[test]
fn references() {
    let mut text = String::new();
    for col in [0u16, 1, 25, 26, 27, 51, 52, 701, 702, 703, 16_383] {
        push_column_name(&mut text, col);
        text.push(' ');
    }
    assert_eq!(text, "A B Z AA AB AZ BA ZZ AAA AAB XFD ");

    let mut text = String::new();
    push_cell_ref(&mut text, 0, 0);
    text.push(' ');
    push_cell_ref(&mut text, 1_048_575, 16_383);
    text.push(' ');
    push_range_ref(&mut text, 0, 0, 9, 3);
    text.push(' ');
    push_range_ref(&mut text, 4, 4, 4, 4);
    assert_eq!(text, "A1 XFD1048576 A1:D10 E5");
}

#[test]
fn sizes_are_written_as_numerals() {
    assert_eq!(col_width_string(64), "9.140625");
    assert_eq!(col_width_string(100), "14.28515625");
    assert_eq!(col_width_string(0), "0");
    assert_eq!(col_width_string(7), "1");
    assert_eq!(col_width_string(12), "1.7109375");
    assert_eq!(col_width_string(1790), "255.7109375");
    assert_eq!(col_width_string(u16::MAX), "9362.140625");
    assert_eq!(row_height_string(20), "15");
    assert_eq!(row_height_string(41), "30.75");
    assert_eq!(row_height_string(1), "0.75");
    assert_eq!(row_height_string(2), "1.5");
    assert_eq!(row_height_string(3), "2.25");
    assert_eq!(row_height_string(0), "0");
    assert_eq!(row_height_string(u16::MAX), "49151.25");
    // The same numerals as the floating-point computation gives.
    for pixels in [5u16, 64, 77, 100, 333, 1790] {
        let width = ((pixels as f64) / 7.0 * 256.0).trunc() / 256.0;
        assert_eq!(col_width_string(pixels), format!("{}", width));
        assert_eq!(row_height_string(pixels), format!("{}", pixels as f64 * 0.75));
    }
}

#[test]
fn text_is_escaped() {
    let mut text = String::new();
    escape_data(&mut text, "a & b < c > d \" e ' f\u{1}\u{8}\tg\nh\ri\u{1F}é\u{7F}");
    assert_eq!(text, "a &amp; b &lt; c &gt; d &quot; e &apos; f\tg\nh\rié\u{7F}");
    let mut text = String::new();
    escape_attribute(&mut text, "a & b < c > d \" e ' f\u{1}\u{8}\tg\nh\ri\u{1F}é");
    assert_eq!(text, "a &amp; b &lt; c &gt; d &quot; e &apos; f\tg&#xA;h\rié");
}

#[test]
fn elements_are_written() {
    let mut writer = XMLWriter::new();
    writer.xml_declaration();
    writer.xml_start_tag("a", &vec![("x", "1".to_string()), ("y", "<2>".to_string())]);
    writer.xml_start_tag_only("b");
    writer.xml_empty_tag("c", &vec![("z", "\"q\"".to_string())]);
    writer.xml_empty_tag_only("d");
    writer.xml_data_element("e", "1 < 2", &vec![("k", "v".to_string())]);
    writer.xml_data_element_only("f", "R&D");
    writer.xml_raw_string("<raw/>");
    writer.xml_end_tag("b");
    writer.xml_end_tag("a");
    assert_eq!(
        writer.read_to_string(),
        "<?xml version=\"1.0\" encoding=\"UTF-8\" standalone=\"yes\"?>\n\
         <a x=\"1\" y=\"&lt;2&gt;\"><b><c z=\"&quot;q&quot;\"/><d/>\
         <e k=\"v\">1 &lt; 2</e><f>R&amp;D</f><raw/></b></a>"
    );
    writer.reset();
    assert_eq!(writer.read_to_string(), "");
}

#[test]
fn errors_have_messages() {
    let errors = [
        XlsxError::RowColumnLimitError,
        XlsxError::RowColumnOrderError,
        XlsxError::MaxStringLengthExceeded,
        XlsxError::MergeRangeSingleCell,
        XlsxError::MergeRangeOverlaps,
        XlsxError::SheetnameCannotBeBlank,
        XlsxError::SheetnameLengthExceeded,
        XlsxError::SheetnameContainsInvalidCharacter,
        XlsxError::SheetnameReused,
        XlsxError::UnknownImageType,
        XlsxError::ImageDimensionError,
        XlsxError::UnknownFormat,
        XlsxError::UnknownSharedString,
    ];
    let mut messages: Vec<String> = errors.iter().map(|error| error.message()).collect();
    assert!(messages.iter().all(|message| !message.is_empty()));
    messages.sort();
    messages.dedup();
    assert_eq!(messages.len(), errors.len());
    assert_eq!(
        XlsxError::MaxStringLengthExceeded.message(),
        "String exceeds the limit of 32,767 characters"
    );
}

#[test]
fn a_new_core_has_no_property_set() {
    let core = Core::new();
    assert_eq!(core.writer.read_to_string(), "");
    let properties = &core.properties;
    for text in [
        &properties.title,
        &properties.subject,
        &properties.author,
        &properties.manager,
        &properties.company,
        &properties.category,
        &properties.keywords,
        &properties.comment,
        &properties.status,
        &properties.hyperlink_base,
    ] {
        assert_eq!(text, "");
    }
    assert_eq!(properties.creation_time, "1970-01-01T00:00:00Z");
    assert!(properties.custom_properties.is_empty());
}
