//! The parts of a package that tie the others together: the content types,
//! the relationships, the workbook part and the application properties.

use vstd::prelude::*;
use vstd::string::*;
use crate::properties::DocProperties;
use crate::table::{table_target, table_target_text};
use crate::utility::{
    column_name_text, decimal_string, decimal_text, lemma_append_2, lemma_append_3, lemma_append_4,
    lemma_append_5, push_char, push_column_name, push_decimal, ColNum, RowNum,
};
use crate::worksheet::{CellRange, HyperlinkView, LinkKind, Worksheet, WorksheetView};
use crate::worksheet_xml::{external_links_among, relationships_before_tables};
use crate::xmlwriter::{
    attributes_view, data_element_text, declaration_text, empty_tag_text, end_tag_text,
    start_tag_text, Attribute, XMLWriter,
};

verus! {

/// The name of the part of the `number`-th worksheet, counted from one,
/// below the directory of the workbook.
pub open spec fn sheet_target_text(number: nat) -> Seq<char> {
    "worksheets/sheet"@ + decimal_text(number) + ".xml"@
}

/// The name of the part of the `number`-th worksheet in the package.
pub open spec fn sheet_part_name_text(number: nat) -> Seq<char> {
    "xl/"@ + sheet_target_text(number)
}

/// The name of the part of the `number`-th worksheet below the directory of
/// the workbook.
pub fn sheet_target(number: u128) -> (name: String)
    ensures
        name@ == sheet_target_text(number as nat),
{
    let mut name = "worksheets/sheet".to_owned();
    push_decimal(&mut name, number);
    name.append(".xml");
    name
}

/// The name of the part of the `number`-th worksheet in the package.
pub fn sheet_part_name(number: u128) -> (name: String)
    ensures
        name@ == sheet_part_name_text(number as nat),
{
    let mut name = "xl/".to_owned();
    let target = sheet_target(number);
    name.append(target.as_str());
    name
}

/// The identifier of the `number`-th relationship of a part.
pub open spec fn relationship_id_text(number: nat) -> Seq<char> {
    "rId"@ + decimal_text(number)
}

/// The identifier of the `number`-th relationship of a part.
pub fn relationship_id(number: u128) -> (id: String)
    ensures
        id@ == relationship_id_text(number as nat),
{
    let mut id = "rId".to_owned();
    push_decimal(&mut id, number);
    id
}

/// The kind of a relationship: the address of the schema for document
/// relationships, and the name of the kind.
pub open spec fn relationship_type_text(kind: Seq<char>) -> Seq<char> {
    "http://schemas.openxmlformats.org/officeDocument/2006/relationships"@ + kind
}

/// The element of a relationship.
pub open spec fn relationship_text(number: nat, kind: Seq<char>, target: Seq<char>) -> Seq<char> {
    empty_tag_text(
        "Relationship"@,
        seq![
            ("Id"@, relationship_id_text(number)),
            ("Type"@, kind),
            ("Target"@, target),
        ],
    )
}

/// Writes the element of a relationship.
pub fn write_relationship(writer: &mut XMLWriter, number: u128, kind: String, target: String)
    ensures
        final(writer)@ == old(writer)@ + relationship_text(number as nat, kind@, target@),
{
    let attributes: Vec<Attribute> = vec![
        ("Id", relationship_id(number)),
        ("Type", kind),
        ("Target", target),
    ];
    proof {
        assert(attributes_view(attributes@) =~= seq![
            ("Id"@, relationship_id_text(number as nat)),
            ("Type"@, kind@),
            ("Target"@, target@),
        ]);
    }
    writer.xml_empty_tag("Relationship", &attributes);
}

/// The kind of a document relationship as a string.
pub fn relationship_type(kind: &str) -> (text: String)
    ensures
        text@ == relationship_type_text(kind@),
{
    let mut text = "http://schemas.openxmlformats.org/officeDocument/2006/relationships".to_owned();
    text.append(kind);
    text
}

/// The namespace of the relationships of a package.
pub open spec fn relationships_namespace() -> Seq<(Seq<char>, Seq<char>)> {
    seq![("xmlns"@, "http://schemas.openxmlformats.org/package/2006/relationships"@)]
}

/// Writes the start of a relationships part.
pub fn write_relationships_start(writer: &mut XMLWriter)
    ensures
        final(writer)@ == old(writer)@ + declaration_text() + start_tag_text(
            "Relationships"@,
            relationships_namespace(),
        ),
{
    writer.xml_declaration();
    let attributes: Vec<Attribute> = vec![
        ("xmlns", "http://schemas.openxmlformats.org/package/2006/relationships".to_owned()),
    ];
    proof {
        assert(attributes_view(attributes@) =~= relationships_namespace());
    }
    writer.xml_start_tag("Relationships", &attributes);
}

/// What a package holds, as far as the parts that tie it together need to
/// know.
#[derive(Clone, Copy, Debug, PartialEq, Eq, Structural)]
pub struct PackageSummary {
    /// The number of worksheets.
    pub sheets: usize,
    /// Whether a cell holds a text.
    pub has_strings: bool,
    /// Which formats the images have.
    pub image_types: ImageTypes,
    /// The number of drawings.
    pub drawings: usize,
    /// Whether a cell holds a formula that fills a range of its own
    /// accord.
    pub has_metadata: bool,
    /// Whether the document has properties of its own making.
    pub has_custom_properties: bool,
    /// The number of tables.
    pub tables: u128,
}

/// Which formats the images of a package have.
#[derive(Clone, Copy, Debug, PartialEq, Eq, Structural)]
pub struct ImageTypes {
    pub png: bool,
    pub jpeg: bool,
    pub gif: bool,
    pub bmp: bool,
}

/// The relationship of the package to the custom properties, where the
/// document has some.
pub open spec fn custom_relationship_text(has_custom_properties: bool) -> Seq<char> {
    if has_custom_properties {
        relationship_text(4, relationship_type_text("/custom-properties"@), "docProps/custom.xml"@)
    } else {
        Seq::<char>::empty()
    }
}

/// The relationships of the package: the workbook, the core properties,
/// the application properties, and the custom properties where the
/// document has some.
#[verifier::opaque]
pub open spec fn root_relationships_xml_text(has_custom_properties: bool) -> Seq<char> {
    Seq::<char>::empty() + declaration_text() + start_tag_text(
        "Relationships"@,
        relationships_namespace(),
    ) + relationship_text(1, relationship_type_text("/officeDocument"@), "xl/workbook.xml"@)
        + relationship_text(
        2,
        "http://schemas.openxmlformats.org/package/2006/relationships/metadata/core-properties"@,
        "docProps/core.xml"@,
    ) + relationship_text(3, relationship_type_text("/extended-properties"@), "docProps/app.xml"@)
        + custom_relationship_text(has_custom_properties) + end_tag_text("Relationships"@)
}

/// The relationships part of the package, `_rels/.rels`.
pub fn assemble_root_relationships(has_custom_properties: bool) -> (text: String)
    ensures
        text@ == root_relationships_xml_text(has_custom_properties),
{
    proof {
        reveal(root_relationships_xml_text);
    }
    let mut writer = XMLWriter::new();
    write_relationships_start(&mut writer);
    write_relationship(
        &mut writer,
        1,
        relationship_type("/officeDocument"),
        "xl/workbook.xml".to_owned(),
    );
    write_relationship(
        &mut writer,
        2,
        "http://schemas.openxmlformats.org/package/2006/relationships/metadata/core-properties".to_owned(),
        "docProps/core.xml".to_owned(),
    );
    write_relationship(
        &mut writer,
        3,
        relationship_type("/extended-properties"),
        "docProps/app.xml".to_owned(),
    );
    let ghost body = writer@;
    if has_custom_properties {
        write_relationship(
            &mut writer,
            4,
            relationship_type("/custom-properties"),
            "docProps/custom.xml".to_owned(),
        );
    }
    proof {
        assert(writer@ =~= body + custom_relationship_text(has_custom_properties));
    }
    writer.xml_end_tag("Relationships");
    writer.read_to_string()
}

/// The relationships of the first `count` worksheets, in order.
pub open spec fn sheet_relationships_text(count: nat) -> Seq<char>
    decreases count,
{
    if count == 0 {
        Seq::<char>::empty()
    } else {
        sheet_relationships_text((count - 1) as nat) + relationship_text(
            count,
            relationship_type_text("/worksheet"@),
            sheet_target_text(count),
        )
    }
}

/// The relationships that follow those of the worksheets: the styles, the
/// shared strings where the workbook has some, and the metadata of cells
/// where the workbook has some.
pub open spec fn table_relationships_text(summary: PackageSummary) -> Seq<char> {
    let sheets = summary.sheets as nat;
    relationship_text(sheets + 1, relationship_type_text("/styles"@), "styles.xml"@) + (
    if summary.has_strings {
        relationship_text(
            sheets + 2,
            relationship_type_text("/sharedStrings"@),
            "sharedStrings.xml"@,
        )
    } else {
        Seq::<char>::empty()
    }) + (if summary.has_metadata {
        relationship_text(
            sheets + 2 + (if summary.has_strings {
                1nat
            } else {
                0nat
            }),
            relationship_type_text("/sheetMetadata"@),
            "metadata.xml"@,
        )
    } else {
        Seq::<char>::empty()
    })
}

/// The relationships of the workbook part: one for each worksheet, then
/// the styles, the shared strings and the metadata of cells.
#[verifier::opaque]
pub open spec fn workbook_relationships_xml_text(summary: PackageSummary) -> Seq<char> {
    Seq::<char>::empty() + declaration_text() + start_tag_text(
        "Relationships"@,
        relationships_namespace(),
    ) + sheet_relationships_text(summary.sheets as nat) + table_relationships_text(summary)
        + end_tag_text("Relationships"@)
}

/// Writes the relationships that follow those of the worksheets.
fn write_table_relationships(writer: &mut XMLWriter, summary: &PackageSummary)
    ensures
        final(writer)@ == old(writer)@ + table_relationships_text(*summary),
{
    let ghost empty = Seq::<char>::empty();
    let mut number: u128 = summary.sheets as u128 + 1;
    write_relationship(writer, number, relationship_type("/styles"), "styles.xml".to_owned());
    number = number + 1;
    let ghost a = writer@;
    if summary.has_strings {
        write_relationship(
            writer,
            number,
            relationship_type("/sharedStrings"),
            "sharedStrings.xml".to_owned(),
        );
        number = number + 1;
    }
    let ghost strings = if summary.has_strings {
        relationship_text(
            (summary.sheets + 2) as nat,
            relationship_type_text("/sharedStrings"@),
            "sharedStrings.xml"@,
        )
    } else {
        empty
    };
    let ghost b = writer@;
    proof {
        assert(b =~= a + strings);
    }
    if summary.has_metadata {
        write_relationship(
            writer,
            number,
            relationship_type("/sheetMetadata"),
            "metadata.xml".to_owned(),
        );
    }
    let ghost metadata = if summary.has_metadata {
        relationship_text(
            (summary.sheets + 2 + (if summary.has_strings {
                1nat
            } else {
                0nat
            })) as nat,
            relationship_type_text("/sheetMetadata"@),
            "metadata.xml"@,
        )
    } else {
        empty
    };
    proof {
        assert(writer@ =~= b + metadata);
        lemma_append_3(
            old(writer)@,
            relationship_text(
                (summary.sheets + 1) as nat,
                relationship_type_text("/styles"@),
                "styles.xml"@,
            ),
            strings,
            metadata,
        );
    }
}

/// The relationships part of the workbook, `xl/_rels/workbook.xml.rels`.
pub fn assemble_workbook_relationships(summary: &PackageSummary) -> (text: String)
    ensures
        text@ == workbook_relationships_xml_text(*summary),
{
    proof {
        reveal(workbook_relationships_xml_text);
    }
    let sheets = summary.sheets;
    let mut writer = XMLWriter::new();
    write_relationships_start(&mut writer);
    let ghost start = writer@;
    let mut i: usize = 0;
    proof {
        assert(writer@ =~= start + sheet_relationships_text(0));
    }
    while i < sheets
        invariant
            i <= sheets,
            writer@ == start + sheet_relationships_text(i as nat),
        decreases sheets - i,
    {
        write_relationship(
            &mut writer,
            i as u128 + 1,
            relationship_type("/worksheet"),
            sheet_target(i as u128 + 1),
        );
        proof {
            lemma_append_2(
                start,
                sheet_relationships_text(i as nat),
                relationship_text(
                    (i + 1) as nat,
                    relationship_type_text("/worksheet"@),
                    sheet_target_text((i + 1) as nat),
                ),
            );
        }
        i += 1;
    }
    write_table_relationships(&mut writer, summary);
    writer.xml_end_tag("Relationships");
    writer.read_to_string()
}

/// The element that gives the content type of the parts with the extension
/// `extension`.
pub open spec fn default_type_text(extension: Seq<char>, content_type: Seq<char>) -> Seq<char> {
    empty_tag_text("Default"@, seq![("Extension"@, extension), ("ContentType"@, content_type)])
}

/// The element that gives the content type of the part `part`.
pub open spec fn override_type_text(part: Seq<char>, content_type: Seq<char>) -> Seq<char> {
    empty_tag_text("Override"@, seq![("PartName"@, part), ("ContentType"@, content_type)])
}

/// Writes the element that gives the content type of an extension.
fn write_default_type(writer: &mut XMLWriter, extension: &str, content_type: &str)
    ensures
        final(writer)@ == old(writer)@ + default_type_text(extension@, content_type@),
{
    let attributes: Vec<Attribute> = vec![
        ("Extension", extension.to_owned()),
        ("ContentType", content_type.to_owned()),
    ];
    proof {
        assert(attributes_view(attributes@) =~= seq![
            ("Extension"@, extension@),
            ("ContentType"@, content_type@),
        ]);
    }
    writer.xml_empty_tag("Default", &attributes);
}

/// Writes the element that gives the content type of a part.
fn write_override_type(writer: &mut XMLWriter, part: String, content_type: &str)
    ensures
        final(writer)@ == old(writer)@ + override_type_text(part@, content_type@),
{
    let attributes: Vec<Attribute> = vec![
        ("PartName", part),
        ("ContentType", content_type.to_owned()),
    ];
    proof {
        assert(attributes_view(attributes@) =~= seq![
            ("PartName"@, part@),
            ("ContentType"@, content_type@),
        ]);
    }
    writer.xml_empty_tag("Override", &attributes);
}

/// The types of the extensions `rels` and `xml`, after the root element.
pub open spec fn content_types_defaults_text() -> Seq<char> {
    Seq::<char>::empty() + declaration_text() + start_tag_text(
        "Types"@,
        seq![("xmlns"@, "http://schemas.openxmlformats.org/package/2006/content-types"@)],
    ) + default_type_text(
        "rels"@,
        "application/vnd.openxmlformats-package.relationships+xml"@,
    ) + default_type_text("xml"@, "application/xml"@)
}

/// The types of the properties of the document: the application
/// properties, the core properties, and the custom properties where the
/// document has some.
pub open spec fn content_types_properties_text(has_custom_properties: bool) -> Seq<char> {
    override_type_text(
        "/docProps/app.xml"@,
        "application/vnd.openxmlformats-officedocument.extended-properties+xml"@,
    ) + override_type_text(
        "/docProps/core.xml"@,
        "application/vnd.openxmlformats-package.core-properties+xml"@,
    ) + (if has_custom_properties {
        override_type_text(
            "/docProps/custom.xml"@,
            "application/vnd.openxmlformats-officedocument.custom-properties+xml"@,
        )
    } else {
        Seq::<char>::empty()
    })
}

/// The types of the styles and of the workbook.
pub open spec fn content_types_fixed_text() -> Seq<char> {
    override_type_text(
        "/xl/styles.xml"@,
        "application/vnd.openxmlformats-officedocument.spreadsheetml.styles+xml"@,
    ) + override_type_text(
        "/xl/workbook.xml"@,
        "application/vnd.openxmlformats-officedocument.spreadsheetml.sheet.main+xml"@,
    )
}

/// The beginning of the content types: the root element, the types of the
/// extensions, and the types of the parts that every package has.
pub open spec fn content_types_head_text(summary: PackageSummary) -> Seq<char> {
    content_types_defaults_text() + image_types_text(summary.image_types)
        + content_types_properties_text(summary.has_custom_properties)
        + content_types_fixed_text()
}

/// The content types of the first `count` worksheets, in order.
pub open spec fn sheet_types_text(count: nat) -> Seq<char>
    decreases count,
{
    if count == 0 {
        Seq::<char>::empty()
    } else {
        sheet_types_text((count - 1) as nat) + override_type_text(
            "/"@ + sheet_part_name_text(count),
            "application/vnd.openxmlformats-officedocument.spreadsheetml.worksheet+xml"@,
        )
    }
}

/// The content types of the extensions of the image files of a package.
pub open spec fn image_types_text(types: ImageTypes) -> Seq<char> {
    (if types.png {
        default_type_text("png"@, "image/png"@)
    } else {
        Seq::<char>::empty()
    }) + (if types.jpeg {
        default_type_text("jpeg"@, "image/jpeg"@)
    } else {
        Seq::<char>::empty()
    }) + (if types.gif {
        default_type_text("gif"@, "image/gif"@)
    } else {
        Seq::<char>::empty()
    }) + (if types.bmp {
        default_type_text("bmp"@, "image/bmp"@)
    } else {
        Seq::<char>::empty()
    })
}

/// The name of the part of the `number`-th drawing of a package, counted
/// from one.
pub open spec fn drawing_part_name_text(number: nat) -> Seq<char> {
    "xl/drawings/drawing"@ + decimal_text(number) + ".xml"@
}

/// The name of the part of the `number`-th drawing of a package.
pub fn drawing_part_name(number: u128) -> (name: String)
    ensures
        name@ == drawing_part_name_text(number as nat),
{
    let mut name = "xl/drawings/drawing".to_owned();
    push_decimal(&mut name, number);
    name.append(".xml");
    name
}

/// The content types of the first `count` drawings, in order.
pub open spec fn drawing_types_text(count: nat) -> Seq<char>
    decreases count,
{
    if count == 0 {
        Seq::<char>::empty()
    } else {
        drawing_types_text((count - 1) as nat) + override_type_text(
            "/"@ + drawing_part_name_text(count),
            "application/vnd.openxmlformats-officedocument.drawing+xml"@,
        )
    }
}

/// The content types of the first `count` tables, in order.
pub open spec fn table_types_text(count: nat) -> Seq<char>
    decreases count,
{
    if count == 0 {
        Seq::<char>::empty()
    } else {
        table_types_text((count - 1) as nat) + override_type_text(
            "/"@ + crate::table::table_part_name_text(count),
            "application/vnd.openxmlformats-officedocument.spreadsheetml.table+xml"@,
        )
    }
}

/// The end of the content types: the types of the shared strings and of
/// the metadata of cells, where the workbook has some, and the end tag.
pub open spec fn content_types_tail_text(summary: PackageSummary) -> Seq<char> {
    (if summary.has_strings {
        override_type_text(
            "/xl/sharedStrings.xml"@,
            "application/vnd.openxmlformats-officedocument.spreadsheetml.sharedStrings+xml"@,
        )
    } else {
        Seq::<char>::empty()
    }) + (if summary.has_metadata {
        override_type_text(
            "/xl/metadata.xml"@,
            "application/vnd.openxmlformats-officedocument.spreadsheetml.sheetMetadata+xml"@,
        )
    } else {
        Seq::<char>::empty()
    }) + end_tag_text("Types"@)
}

/// The content types of a package: the types of the extensions, the types
/// of the parts that every package has, those of the worksheets, those of
/// the drawings, and those of the shared strings and the metadata of
/// cells.
#[verifier::opaque]
pub open spec fn content_types_xml_text(summary: PackageSummary) -> Seq<char> {
    content_types_head_text(summary) + sheet_types_text(summary.sheets as nat)
        + drawing_types_text(summary.drawings as nat) + table_types_text(summary.tables as nat)
        + content_types_tail_text(summary)
}

/// Writes the types of the extensions `rels` and `xml`, after the root
/// element.
fn write_content_types_defaults(writer: &mut XMLWriter)
    ensures
        final(writer)@ == old(writer)@ + declaration_text() + start_tag_text(
            "Types"@,
            seq![("xmlns"@, "http://schemas.openxmlformats.org/package/2006/content-types"@)],
        ) + default_type_text(
            "rels"@,
            "application/vnd.openxmlformats-package.relationships+xml"@,
        ) + default_type_text("xml"@, "application/xml"@),
{
    writer.xml_declaration();
    let attributes: Vec<Attribute> = vec![
        ("xmlns", "http://schemas.openxmlformats.org/package/2006/content-types".to_owned()),
    ];
    proof {
        assert(attributes_view(attributes@) =~= seq![
            ("xmlns"@, "http://schemas.openxmlformats.org/package/2006/content-types"@),
        ]);
    }
    writer.xml_start_tag("Types", &attributes);
    write_default_type(writer, "rels", "application/vnd.openxmlformats-package.relationships+xml");
    write_default_type(writer, "xml", "application/xml");
}

/// Writes the content types of the extensions of the image files.
fn write_image_types(writer: &mut XMLWriter, types: &ImageTypes)
    ensures
        final(writer)@ == old(writer)@ + image_types_text(*types),
{
    let ghost empty = Seq::<char>::empty();
    if types.png {
        write_default_type(writer, "png", "image/png");
    }
    let ghost a = writer@;
    proof {
        assert(a =~= old(writer)@ + (if types.png {
            default_type_text("png"@, "image/png"@)
        } else {
            empty
        }));
    }
    if types.jpeg {
        write_default_type(writer, "jpeg", "image/jpeg");
    }
    let ghost b = writer@;
    proof {
        assert(b =~= a + (if types.jpeg {
            default_type_text("jpeg"@, "image/jpeg"@)
        } else {
            empty
        }));
    }
    if types.gif {
        write_default_type(writer, "gif", "image/gif");
    }
    let ghost c = writer@;
    proof {
        assert(c =~= b + (if types.gif {
            default_type_text("gif"@, "image/gif"@)
        } else {
            empty
        }));
    }
    if types.bmp {
        write_default_type(writer, "bmp", "image/bmp");
    }
    proof {
        assert(writer@ =~= c + (if types.bmp {
            default_type_text("bmp"@, "image/bmp"@)
        } else {
            empty
        }));
        lemma_append_4(
            old(writer)@,
            if types.png {
                default_type_text("png"@, "image/png"@)
            } else {
                empty
            },
            if types.jpeg {
                default_type_text("jpeg"@, "image/jpeg"@)
            } else {
                empty
            },
            if types.gif {
                default_type_text("gif"@, "image/gif"@)
            } else {
                empty
            },
            if types.bmp {
                default_type_text("bmp"@, "image/bmp"@)
            } else {
                empty
            },
        );
    }
}

/// Writes the types of the properties of the document.
fn write_content_types_properties(writer: &mut XMLWriter, has_custom_properties: bool)
    ensures
        final(writer)@ == old(writer)@ + content_types_properties_text(has_custom_properties),
{
    write_override_type(
        writer,
        "/docProps/app.xml".to_owned(),
        "application/vnd.openxmlformats-officedocument.extended-properties+xml",
    );
    write_override_type(
        writer,
        "/docProps/core.xml".to_owned(),
        "application/vnd.openxmlformats-package.core-properties+xml",
    );
    let ghost middle = writer@;
    if has_custom_properties {
        write_override_type(
            writer,
            "/docProps/custom.xml".to_owned(),
            "application/vnd.openxmlformats-officedocument.custom-properties+xml",
        );
    }
    proof {
        let custom = if has_custom_properties {
            override_type_text(
                "/docProps/custom.xml"@,
                "application/vnd.openxmlformats-officedocument.custom-properties+xml"@,
            )
        } else {
            Seq::<char>::empty()
        };
        assert(writer@ =~= middle + custom);
        lemma_append_3(
            old(writer)@,
            override_type_text(
                "/docProps/app.xml"@,
                "application/vnd.openxmlformats-officedocument.extended-properties+xml"@,
            ),
            override_type_text(
                "/docProps/core.xml"@,
                "application/vnd.openxmlformats-package.core-properties+xml"@,
            ),
            custom,
        );
    }
}

/// Writes the types of the styles and of the workbook.
fn write_content_types_fixed(writer: &mut XMLWriter)
    ensures
        final(writer)@ == old(writer)@ + content_types_fixed_text(),
{
    write_override_type(
        writer,
        "/xl/styles.xml".to_owned(),
        "application/vnd.openxmlformats-officedocument.spreadsheetml.styles+xml",
    );
    write_override_type(
        writer,
        "/xl/workbook.xml".to_owned(),
        "application/vnd.openxmlformats-officedocument.spreadsheetml.sheet.main+xml",
    );
    proof {
        lemma_append_2(
            old(writer)@,
            override_type_text(
                "/xl/styles.xml"@,
                "application/vnd.openxmlformats-officedocument.spreadsheetml.styles+xml"@,
            ),
            override_type_text(
                "/xl/workbook.xml"@,
                "application/vnd.openxmlformats-officedocument.spreadsheetml.sheet.main+xml"@,
            ),
        );
    }
}

/// Writes the content types of the worksheets.
fn write_sheet_types(writer: &mut XMLWriter, sheets: usize)
    ensures
        final(writer)@ == old(writer)@ + sheet_types_text(sheets as nat),
{
    let ghost start = writer@;
    let mut i: usize = 0;
    proof {
        assert(writer@ =~= start + sheet_types_text(0));
    }
    while i < sheets
        invariant
            i <= sheets,
            writer@ == start + sheet_types_text(i as nat),
        decreases sheets - i,
    {
        let mut part = "/".to_owned();
        let name = sheet_part_name(i as u128 + 1);
        part.append(name.as_str());
        write_override_type(
            writer,
            part,
            "application/vnd.openxmlformats-officedocument.spreadsheetml.worksheet+xml",
        );
        proof {
            lemma_append_2(
                start,
                sheet_types_text(i as nat),
                override_type_text(
                    "/"@ + sheet_part_name_text((i + 1) as nat),
                    "application/vnd.openxmlformats-officedocument.spreadsheetml.worksheet+xml"@,
                ),
            );
        }
        i += 1;
    }
}

/// Writes the content types of the drawings.
fn write_drawing_types(writer: &mut XMLWriter, drawings: usize)
    ensures
        final(writer)@ == old(writer)@ + drawing_types_text(drawings as nat),
{
    let ghost start = writer@;
    let mut i: usize = 0;
    proof {
        assert(writer@ =~= start + drawing_types_text(0));
    }
    while i < drawings
        invariant
            i <= drawings,
            writer@ == start + drawing_types_text(i as nat),
        decreases drawings - i,
    {
        let mut part = "/".to_owned();
        let name = drawing_part_name(i as u128 + 1);
        part.append(name.as_str());
        write_override_type(
            writer,
            part,
            "application/vnd.openxmlformats-officedocument.drawing+xml",
        );
        proof {
            lemma_append_2(
                start,
                drawing_types_text(i as nat),
                override_type_text(
                    "/"@ + drawing_part_name_text((i + 1) as nat),
                    "application/vnd.openxmlformats-officedocument.drawing+xml"@,
                ),
            );
        }
        i += 1;
    }
}

/// Writes the content types of the tables.
fn write_table_types(writer: &mut XMLWriter, tables: u128)
    ensures
        final(writer)@ == old(writer)@ + table_types_text(tables as nat),
{
    let ghost start = writer@;
    let mut i: u128 = 0;
    proof {
        assert(writer@ =~= start + table_types_text(0));
    }
    while i < tables
        invariant
            i <= tables,
            writer@ == start + table_types_text(i as nat),
        decreases tables - i,
    {
        let mut part = "/".to_owned();
        let name = crate::table::table_part_name(i + 1);
        part.append(name.as_str());
        write_override_type(
            writer,
            part,
            "application/vnd.openxmlformats-officedocument.spreadsheetml.table+xml",
        );
        proof {
            lemma_append_2(
                start,
                table_types_text(i as nat),
                override_type_text(
                    "/"@ + crate::table::table_part_name_text((i + 1) as nat),
                    "application/vnd.openxmlformats-officedocument.spreadsheetml.table+xml"@,
                ),
            );
        }
        i += 1;
    }
}

/// Writes the end of the content types.
fn write_content_types_tail(writer: &mut XMLWriter, summary: &PackageSummary)
    ensures
        final(writer)@ == old(writer)@ + content_types_tail_text(*summary),
{
    if summary.has_strings {
        write_override_type(
            writer,
            "/xl/sharedStrings.xml".to_owned(),
            "application/vnd.openxmlformats-officedocument.spreadsheetml.sharedStrings+xml",
        );
    }
    let ghost middle = writer@;
    let ghost strings = if summary.has_strings {
        override_type_text(
            "/xl/sharedStrings.xml"@,
            "application/vnd.openxmlformats-officedocument.spreadsheetml.sharedStrings+xml"@,
        )
    } else {
        Seq::<char>::empty()
    };
    proof {
        assert(middle =~= old(writer)@ + strings);
    }
    if summary.has_metadata {
        write_override_type(
            writer,
            "/xl/metadata.xml".to_owned(),
            "application/vnd.openxmlformats-officedocument.spreadsheetml.sheetMetadata+xml",
        );
    }
    let ghost metadata = if summary.has_metadata {
        override_type_text(
            "/xl/metadata.xml"@,
            "application/vnd.openxmlformats-officedocument.spreadsheetml.sheetMetadata+xml"@,
        )
    } else {
        Seq::<char>::empty()
    };
    proof {
        assert(writer@ =~= middle + metadata);
    }
    writer.xml_end_tag("Types");
    proof {
        lemma_append_3(old(writer)@, strings, metadata, end_tag_text("Types"@));
    }
}

/// The content-types part of the package, `[Content_Types].xml`.
pub fn assemble_content_types(summary: &PackageSummary) -> (text: String)
    ensures
        text@ == content_types_xml_text(*summary),
{
    proof {
        reveal(content_types_xml_text);
    }
    let mut writer = XMLWriter::new();
    write_content_types_defaults(&mut writer);
    let ghost a = writer@;
    write_image_types(&mut writer, &summary.image_types);
    write_content_types_properties(&mut writer, summary.has_custom_properties);
    write_content_types_fixed(&mut writer);
    proof {
        assert(a == content_types_defaults_text());
        lemma_append_3(
            a,
            image_types_text(summary.image_types),
            content_types_properties_text(summary.has_custom_properties),
            content_types_fixed_text(),
        );
    }
    write_sheet_types(&mut writer, summary.sheets);
    write_drawing_types(&mut writer, summary.drawings);
    write_table_types(&mut writer, summary.tables);
    write_content_types_tail(&mut writer, summary);
    writer.read_to_string()
}

/// The element of a relationship to an address outside the package.
pub open spec fn external_relationship_text(number: nat, kind: Seq<char>, target: Seq<char>) -> Seq<
    char,
> {
    empty_tag_text(
        "Relationship"@,
        seq![
            ("Id"@, relationship_id_text(number)),
            ("Type"@, kind),
            ("Target"@, target),
            ("TargetMode"@, "External"@),
        ],
    )
}

/// The relationships of a worksheet part to the addresses of the first
/// `count` of the links `links`: one for each link that leads outside the
/// workbook, in order.
pub open spec fn link_relationships_text(links: Seq<HyperlinkView>, count: int) -> Seq<char>
    decreases count,
{
    if count <= 0 {
        Seq::<char>::empty()
    } else if links[count - 1].kind == LinkKind::External {
        link_relationships_text(links, count - 1) + external_relationship_text(
            external_links_among(links, count),
            relationship_type_text("/hyperlink"@),
            links[count - 1].target,
        )
    } else {
        link_relationships_text(links, count - 1)
    }
}

/// The target of the relationship of a worksheet part to the `number`-th
/// drawing of the package, counted from one.
pub open spec fn drawing_target_text(number: nat) -> Seq<char> {
    "../drawings/drawing"@ + decimal_text(number) + ".xml"@
}

/// The relationship of a worksheet part to its drawing, which follows the
/// relationships of the links; nothing where the worksheet has no drawing.
pub open spec fn drawing_relationship_text(links: Seq<HyperlinkView>, drawing: Option<nat>) -> Seq<
    char,
> {
    match drawing {
        Some(number) => relationship_text(
            external_links_among(links, links.len() as int) + 1,
            relationship_type_text("/drawing"@),
            drawing_target_text(number),
        ),
        None => Seq::<char>::empty(),
    }
}

/// The relationships of a worksheet part to its first `count` tables,
/// which follow the other relationships. The first table of the worksheet
/// is the `first`-th table of the package, counted from one.
pub open spec fn table_relationships_of(view: WorksheetView, first: nat, count: int) -> Seq<char>
    decreases count,
{
    if count <= 0 {
        Seq::<char>::empty()
    } else {
        table_relationships_of(view, first, count - 1) + relationship_text(
            (relationships_before_tables(view) + count) as nat,
            relationship_type_text("/table"@),
            table_target_text((first + count - 1) as nat),
        )
    }
}

/// The relationships part of the worksheet `view`, whose images, if it has
/// some, are in the drawing `drawing` of the package, and whose first
/// table, if it has one, is the table `first_table` of the package: the
/// relationships to the addresses of the links, to the drawing, and to the
/// tables.
#[verifier::opaque]
pub open spec fn sheet_relationships_xml_text(
    view: WorksheetView,
    drawing: Option<nat>,
    first_table: nat,
) -> Seq<char> {
    Seq::<char>::empty() + declaration_text() + start_tag_text(
        "Relationships"@,
        relationships_namespace(),
    ) + link_relationships_text(view.hyperlinks, view.hyperlinks.len() as int)
        + drawing_relationship_text(view.hyperlinks, drawing) + table_relationships_of(
        view,
        first_table,
        view.tables.len() as int,
    ) + end_tag_text("Relationships"@)
}

/// Writes the relationships of a worksheet part to the addresses of its
/// links.
fn write_link_relationships(writer: &mut XMLWriter, worksheet: &Worksheet) -> (externals: usize)
    ensures
        final(writer)@ == old(writer)@ + link_relationships_text(
            worksheet@.hyperlinks,
            worksheet@.hyperlinks.len() as int,
        ),
        externals == external_links_among(
            worksheet@.hyperlinks,
            worksheet@.hyperlinks.len() as int,
        ),
{
    let ghost links = worksheet@.hyperlinks;
    let ghost start = writer@;
    let count = worksheet.link_count();
    let mut externals: usize = 0;
    let mut i: usize = 0;
    proof {
        assert(writer@ =~= start + link_relationships_text(links, 0));
    }
    while i < count
        invariant
            i <= count,
            count == links.len(),
            links == worksheet@.hyperlinks,
            externals <= i,
            externals == external_links_among(links, i as int),
            writer@ == start + link_relationships_text(links, i as int),
        decreases count - i,
    {
        let link = worksheet.link_at(i);
        match link.kind {
            LinkKind::External => {
                externals += 1;
                let attributes: Vec<Attribute> = vec![
                    ("Id", relationship_id(externals as u128)),
                    ("Type", relationship_type("/hyperlink")),
                    ("Target", link.target.clone()),
                    ("TargetMode", "External".to_owned()),
                ];
                proof {
                    assert(attributes_view(attributes@) =~= seq![
                        ("Id"@, relationship_id_text(externals as nat)),
                        ("Type"@, relationship_type_text("/hyperlink"@)),
                        ("Target"@, links[i as int].target),
                        ("TargetMode"@, "External"@),
                    ]);
                }
                writer.xml_empty_tag("Relationship", &attributes);
                proof {
                    lemma_append_2(
                        start,
                        link_relationships_text(links, i as int),
                        external_relationship_text(
                            external_links_among(links, i + 1),
                            relationship_type_text("/hyperlink"@),
                            links[i as int].target,
                        ),
                    );
                }
            },
            LinkKind::Internal => {},
        }
        i += 1;
    }
    externals
}

/// Writes the relationships of a worksheet part to its tables.
fn write_table_relationships_of(
    writer: &mut XMLWriter,
    worksheet: &Worksheet,
    first_table: u128,
)
    requires
        first_table + worksheet@.tables.len() <= u128::MAX,
    ensures
        final(writer)@ == old(writer)@ + table_relationships_of(
            worksheet@,
            first_table as nat,
            worksheet@.tables.len() as int,
        ),
{
    let ghost view = worksheet@;
    let ghost start = writer@;
    let before = worksheet.relationship_count_before_tables();
    let count = worksheet.table_count();
    let mut i: usize = 0;
    proof {
        assert(writer@ =~= start + table_relationships_of(view, first_table as nat, 0));
    }
    while i < count
        invariant
            i <= count,
            count == view.tables.len(),
            view == worksheet@,
            before == relationships_before_tables(view),
            before <= 0x1_0000_0000_0000_0000,
            first_table + count <= u128::MAX,
            writer@ == start + table_relationships_of(view, first_table as nat, i as int),
        decreases count - i,
    {
        write_relationship(
            writer,
            before + i as u128 + 1,
            relationship_type("/table"),
            table_target(first_table + i as u128),
        );
        proof {
            lemma_append_2(
                start,
                table_relationships_of(view, first_table as nat, i as int),
                relationship_text(
                    (relationships_before_tables(view) + i + 1) as nat,
                    relationship_type_text("/table"@),
                    table_target_text((first_table + i) as nat),
                ),
            );
        }
        i += 1;
    }
}

/// The relationships part of the worksheet, whose images, if it has some,
/// are in the drawing `drawing` of the package, and whose first table, if
/// it has one, is the table `first_table` of the package.
pub fn assemble_sheet_relationships(
    worksheet: &Worksheet,
    drawing: Option<u128>,
    first_table: u128,
) -> (text: String)
    requires
        first_table + worksheet@.tables.len() <= u128::MAX,
    ensures
        text@ == sheet_relationships_xml_text(
            worksheet@,
            match drawing {
                Some(number) => Some(number as nat),
                None => None,
            },
            first_table as nat,
        ),
{
    proof {
        reveal(sheet_relationships_xml_text);
    }
    let mut writer = XMLWriter::new();
    write_relationships_start(&mut writer);
    let externals = write_link_relationships(&mut writer, worksheet);
    let ghost body = writer@;
    match drawing {
        Some(number) => {
            let mut target = "../drawings/drawing".to_owned();
            push_decimal(&mut target, number);
            target.append(".xml");
            write_relationship(
                &mut writer,
                externals as u128 + 1,
                relationship_type("/drawing"),
                target,
            );
        },
        None => {
            proof {
                assert(writer@ =~= body + Seq::<char>::empty());
            }
        },
    }
    write_table_relationships_of(&mut writer, worksheet, first_table);
    writer.xml_end_tag("Relationships");
    writer.read_to_string()
}

/// The name of the relationships part of the `number`-th worksheet,
/// counted from one.
pub open spec fn sheet_relationships_name_text(number: nat) -> Seq<char> {
    "xl/worksheets/_rels/sheet"@ + decimal_text(number) + ".xml.rels"@
}

/// The name of the relationships part of the `number`-th worksheet.
pub fn sheet_relationships_name(number: u128) -> (name: String)
    ensures
        name@ == sheet_relationships_name_text(number as nat),
{
    let mut name = "xl/worksheets/_rels/sheet".to_owned();
    push_decimal(&mut name, number);
    name.append(".xml.rels");
    name
}

/// The name of the relationships part of the `number`-th drawing, counted
/// from one.
pub open spec fn drawing_relationships_name_text(number: nat) -> Seq<char> {
    "xl/drawings/_rels/drawing"@ + decimal_text(number) + ".xml.rels"@
}

/// The name of the relationships part of the `number`-th drawing.
pub fn drawing_relationships_name(number: u128) -> (name: String)
    ensures
        name@ == drawing_relationships_name_text(number as nat),
{
    let mut name = "xl/drawings/_rels/drawing".to_owned();
    push_decimal(&mut name, number);
    name.append(".xml.rels");
    name
}

/// The plain values of the worksheets `sheets`.
pub open spec fn sheet_views(sheets: Seq<Worksheet>) -> Seq<WorksheetView> {
    Seq::new(sheets.len(), |i: int| sheets[i]@)
}

/// The beginning of the application properties: the root element, the
/// application, and the two settings that follow it.
pub open spec fn app_head_text() -> Seq<char> {
    Seq::<char>::empty() + declaration_text() + start_tag_text(
        "Properties"@,
        seq![
            (
                "xmlns"@,
                "http://schemas.openxmlformats.org/officeDocument/2006/extended-properties"@,
            ),
            ("xmlns:vt"@, "http://schemas.openxmlformats.org/officeDocument/2006/docPropsVTypes"@),
        ],
    ) + data_element_text("Application"@, "Microsoft Excel"@, Seq::empty()) + data_element_text(
        "DocSecurity"@,
        "0"@,
        Seq::empty(),
    ) + data_element_text("ScaleCrop"@, "false"@, Seq::empty())
}

/// The attributes of a vector of `size` entries of the type `base`.
pub open spec fn vector_attributes(size: nat, base: Seq<char>) -> Seq<(Seq<char>, Seq<char>)> {
    seq![("size"@, decimal_text(size)), ("baseType"@, base)]
}

/// The element that says that the package holds `sheets` worksheets.
pub open spec fn heading_pairs_text(sheets: nat) -> Seq<char> {
    start_tag_text("HeadingPairs"@, Seq::empty()) + start_tag_text(
        "vt:vector"@,
        vector_attributes(2, "variant"@),
    ) + start_tag_text("vt:variant"@, Seq::empty()) + data_element_text(
        "vt:lpstr"@,
        "Worksheets"@,
        Seq::empty(),
    ) + end_tag_text("vt:variant"@) + start_tag_text("vt:variant"@, Seq::empty())
        + data_element_text("vt:i4"@, decimal_text(sheets), Seq::empty()) + end_tag_text(
        "vt:variant"@,
    ) + end_tag_text("vt:vector"@) + end_tag_text("HeadingPairs"@)
}

/// The elements of the names of the worksheets `views`, in order.
pub open spec fn title_items_text(views: Seq<WorksheetView>) -> Seq<char>
    decreases views.len(),
{
    if views.len() == 0 {
        Seq::<char>::empty()
    } else {
        title_items_text(views.drop_last()) + data_element_text(
            "vt:lpstr"@,
            views.last().name,
            Seq::empty(),
        )
    }
}

/// The element that lists the names of the worksheets.
pub open spec fn titles_of_parts_text(views: Seq<WorksheetView>) -> Seq<char> {
    start_tag_text("TitlesOfParts"@, Seq::empty()) + start_tag_text(
        "vt:vector"@,
        vector_attributes(views.len(), "lpstr"@),
    ) + title_items_text(views) + end_tag_text("vt:vector"@) + end_tag_text("TitlesOfParts"@)
}

/// The elements for the manager, where one is set, and the company, and
/// the settings that follow them.
pub open spec fn app_people_text(properties: DocProperties) -> Seq<char> {
    crate::core_properties::optional_element_text("Manager"@, properties.manager@)
        + data_element_text("Company"@, properties.company@, Seq::empty()) + data_element_text(
        "LinksUpToDate"@,
        "false"@,
        Seq::empty(),
    ) + data_element_text("SharedDoc"@, "false"@, Seq::empty())
}

/// The element for the base of the hyperlinks, where one is set, and the
/// settings that close the part.
pub open spec fn app_settings_text(properties: DocProperties) -> Seq<char> {
    crate::core_properties::optional_element_text("HyperlinkBase"@, properties.hyperlink_base@)
        + data_element_text("HyperlinksChanged"@, "false"@, Seq::empty()) + data_element_text(
        "AppVersion"@,
        "12.0000"@,
        Seq::empty(),
    ) + end_tag_text("Properties"@)
}

/// The end of the application properties: the manager, where one is set;
/// the company; the base of the hyperlinks, where one is set; and the
/// settings that close the part.
pub open spec fn app_tail_text(properties: DocProperties) -> Seq<char> {
    app_people_text(properties) + app_settings_text(properties)
}

/// The application properties of a package with the worksheets `views`.
#[verifier::opaque]
pub open spec fn app_xml_text(views: Seq<WorksheetView>, properties: DocProperties) -> Seq<char> {
    app_head_text() + heading_pairs_text(views.len()) + titles_of_parts_text(views) + app_tail_text(
        properties,
    )
}

/// Writes the beginning of the application properties.
fn write_app_head(writer: &mut XMLWriter)
    ensures
        final(writer)@ == old(writer)@ + declaration_text() + start_tag_text(
            "Properties"@,
            seq![
                (
                    "xmlns"@,
                    "http://schemas.openxmlformats.org/officeDocument/2006/extended-properties"@,
                ),
                (
                    "xmlns:vt"@,
                    "http://schemas.openxmlformats.org/officeDocument/2006/docPropsVTypes"@,
                ),
            ],
        ) + data_element_text("Application"@, "Microsoft Excel"@, Seq::empty())
            + data_element_text("DocSecurity"@, "0"@, Seq::empty()) + data_element_text(
            "ScaleCrop"@,
            "false"@,
            Seq::empty(),
        ),
{
    writer.xml_declaration();
    let attributes: Vec<Attribute> = vec![
        (
            "xmlns",
            "http://schemas.openxmlformats.org/officeDocument/2006/extended-properties".to_owned(),
        ),
        (
            "xmlns:vt",
            "http://schemas.openxmlformats.org/officeDocument/2006/docPropsVTypes".to_owned(),
        ),
    ];
    proof {
        assert(attributes_view(attributes@) =~= seq![
            (
                "xmlns"@,
                "http://schemas.openxmlformats.org/officeDocument/2006/extended-properties"@,
            ),
            ("xmlns:vt"@, "http://schemas.openxmlformats.org/officeDocument/2006/docPropsVTypes"@),
        ]);
    }
    writer.xml_start_tag("Properties", &attributes);
    writer.xml_data_element_only("Application", "Microsoft Excel");
    writer.xml_data_element_only("DocSecurity", "0");
    writer.xml_data_element_only("ScaleCrop", "false");
}

/// The attributes of a vector.
fn vector_attributes_of(size: usize, base: &str) -> (attributes: Vec<Attribute<'static>>)
    ensures
        attributes_view(attributes@) == vector_attributes(size as nat, base@),
{
    let attributes: Vec<Attribute<'static>> = vec![
        ("size", decimal_string(size as u64)),
        ("baseType", base.to_owned()),
    ];
    proof {
        assert(attributes_view(attributes@) =~= vector_attributes(size as nat, base@));
    }
    attributes
}

/// Writes the element that says how many worksheets the package holds.
fn write_heading_pairs(writer: &mut XMLWriter, sheets: usize)
    ensures
        final(writer)@ == old(writer)@ + heading_pairs_text(sheets as nat),
{
    let ghost start = writer@;
    writer.xml_start_tag_only("HeadingPairs");
    let attributes = vector_attributes_of(2, "variant");
    writer.xml_start_tag("vt:vector", &attributes);
    writer.xml_start_tag_only("vt:variant");
    writer.xml_data_element_only("vt:lpstr", "Worksheets");
    writer.xml_end_tag("vt:variant");
    let ghost first = writer@;
    proof {
        lemma_append_5(
            start,
            start_tag_text("HeadingPairs"@, Seq::empty()),
            start_tag_text("vt:vector"@, vector_attributes(2, "variant"@)),
            start_tag_text("vt:variant"@, Seq::empty()),
            data_element_text("vt:lpstr"@, "Worksheets"@, Seq::empty()),
            end_tag_text("vt:variant"@),
        );
    }
    writer.xml_start_tag_only("vt:variant");
    let number = decimal_string(sheets as u64);
    writer.xml_data_element_only("vt:i4", number.as_str());
    writer.xml_end_tag("vt:variant");
    writer.xml_end_tag("vt:vector");
    writer.xml_end_tag("HeadingPairs");
    proof {
        let head = start_tag_text("HeadingPairs"@, Seq::empty()) + start_tag_text(
            "vt:vector"@,
            vector_attributes(2, "variant"@),
        ) + start_tag_text("vt:variant"@, Seq::empty()) + data_element_text(
            "vt:lpstr"@,
            "Worksheets"@,
            Seq::empty(),
        ) + end_tag_text("vt:variant"@);
        assert(first == start + head);
        lemma_append_5(
            first,
            start_tag_text("vt:variant"@, Seq::empty()),
            data_element_text("vt:i4"@, decimal_text(sheets as nat), Seq::empty()),
            end_tag_text("vt:variant"@),
            end_tag_text("vt:vector"@),
            end_tag_text("HeadingPairs"@),
        );
        assert(writer@ =~= start + heading_pairs_text(sheets as nat));
    }
}

/// Writes the element that lists the names of the worksheets.
fn write_titles_of_parts(writer: &mut XMLWriter, sheets: &Vec<Worksheet>)
    ensures
        final(writer)@ == old(writer)@ + titles_of_parts_text(sheet_views(sheets@)),
{
    let ghost start = writer@;
    let ghost views = sheet_views(sheets@);
    writer.xml_start_tag_only("TitlesOfParts");
    let attributes = vector_attributes_of(sheets.len(), "lpstr");
    writer.xml_start_tag("vt:vector", &attributes);
    let ghost inner = writer@;
    let mut i: usize = 0;
    proof {
        assert(views.take(0) =~= Seq::<WorksheetView>::empty());
        assert(writer@ =~= inner + title_items_text(views.take(0)));
    }
    while i < sheets.len()
        invariant
            i <= sheets.len(),
            views == sheet_views(sheets@),
            writer@ == inner + title_items_text(views.take(i as int)),
        decreases sheets.len() - i,
    {
        let name = sheets[i].name();
        writer.xml_data_element_only("vt:lpstr", name.as_str());
        proof {
            assert(views.take(i + 1).drop_last() =~= views.take(i as int));
            assert(views.take(i + 1).last() == views[i as int]);
            lemma_append_2(
                inner,
                title_items_text(views.take(i as int)),
                data_element_text("vt:lpstr"@, views[i as int].name, Seq::empty()),
            );
        }
        i += 1;
    }
    proof {
        assert(views.take(views.len() as int) =~= views);
    }
    writer.xml_end_tag("vt:vector");
    writer.xml_end_tag("TitlesOfParts");
    proof {
        lemma_append_5(
            start,
            start_tag_text("TitlesOfParts"@, Seq::empty()),
            start_tag_text("vt:vector"@, vector_attributes(views.len(), "lpstr"@)),
            title_items_text(views),
            end_tag_text("vt:vector"@),
            end_tag_text("TitlesOfParts"@),
        );
    }
}

/// Writes an element that is written only where its text is not empty.
fn write_optional_element(writer: &mut XMLWriter, tag: &str, data: &str)
    ensures
        final(writer)@ == old(writer)@ + crate::core_properties::optional_element_text(
            tag@,
            data@,
        ),
{
    if !data.is_empty() {
        writer.xml_data_element_only(tag, data);
    }
    proof {
        assert(writer@ =~= old(writer)@ + crate::core_properties::optional_element_text(
            tag@,
            data@,
        ));
    }
}

/// Writes the elements for the manager and the company, and the settings
/// that follow them.
fn write_app_people(writer: &mut XMLWriter, properties: &DocProperties)
    ensures
        final(writer)@ == old(writer)@ + app_people_text(*properties),
{
    write_optional_element(writer, "Manager", properties.manager.as_str());
    writer.xml_data_element_only("Company", properties.company.as_str());
    writer.xml_data_element_only("LinksUpToDate", "false");
    writer.xml_data_element_only("SharedDoc", "false");
    proof {
        lemma_append_4(
            old(writer)@,
            crate::core_properties::optional_element_text("Manager"@, properties.manager@),
            data_element_text("Company"@, properties.company@, Seq::empty()),
            data_element_text("LinksUpToDate"@, "false"@, Seq::empty()),
            data_element_text("SharedDoc"@, "false"@, Seq::empty()),
        );
    }
}

/// Writes the element for the base of the hyperlinks, and the settings that
/// close the part.
fn write_app_settings(writer: &mut XMLWriter, properties: &DocProperties)
    ensures
        final(writer)@ == old(writer)@ + app_settings_text(*properties),
{
    write_optional_element(writer, "HyperlinkBase", properties.hyperlink_base.as_str());
    writer.xml_data_element_only("HyperlinksChanged", "false");
    writer.xml_data_element_only("AppVersion", "12.0000");
    writer.xml_end_tag("Properties");
    proof {
        lemma_append_4(
            old(writer)@,
            crate::core_properties::optional_element_text(
                "HyperlinkBase"@,
                properties.hyperlink_base@,
            ),
            data_element_text("HyperlinksChanged"@, "false"@, Seq::empty()),
            data_element_text("AppVersion"@, "12.0000"@, Seq::empty()),
            end_tag_text("Properties"@),
        );
    }
}

/// Writes the end of the application properties.
fn write_app_tail(writer: &mut XMLWriter, properties: &DocProperties)
    ensures
        final(writer)@ == old(writer)@ + app_tail_text(*properties),
{
    write_app_people(writer, properties);
    write_app_settings(writer, properties);
    proof {
        lemma_append_2(
            old(writer)@,
            app_people_text(*properties),
            app_settings_text(*properties),
        );
    }
}

/// The application-properties part of the package, `docProps/app.xml`.
pub fn assemble_app(sheets: &Vec<Worksheet>, properties: &DocProperties) -> (text: String)
    ensures
        text@ == app_xml_text(sheet_views(sheets@), *properties),
{
    proof {
        reveal(app_xml_text);
    }
    let mut writer = XMLWriter::new();
    write_app_head(&mut writer);
    proof {
        assert(writer@ == app_head_text());
    }
    write_heading_pairs(&mut writer, sheets.len());
    write_titles_of_parts(&mut writer, sheets);
    write_app_tail(&mut writer, properties);
    writer.read_to_string()
}

/// The name of a worksheet as a formula names it: between apostrophes,
/// with each apostrophe of the name written twice.
pub open spec fn quoted_name_text(name: Seq<char>) -> Seq<char> {
    seq!['\''] + doubled_quotes_text(name) + seq!['\'']
}

/// The text `name` with each apostrophe written twice.
pub open spec fn doubled_quotes_text(name: Seq<char>) -> Seq<char>
    decreases name.len(),
{
    if name.len() == 0 {
        Seq::<char>::empty()
    } else if name.last() == '\'' {
        doubled_quotes_text(name.drop_last()) + seq!['\'', '\'']
    } else {
        doubled_quotes_text(name.drop_last()).push(name.last())
    }
}

/// The reference of a cell that does not move with the formula: a `$`
/// before the column and before the row.
pub open spec fn absolute_cell_text(row: RowNum, col: ColNum) -> Seq<char> {
    seq!['$'] + column_name_text(col as nat) + seq!['$'] + decimal_text((row + 1) as nat)
}

/// The reference of a range as a formula names it, with each part fixed:
/// whole columns by their letters, whole rows by their numbers, and any
/// other range by its corner cells.
pub open spec fn absolute_range_text(range: CellRange) -> Seq<char> {
    if range.first_row == 0 && range.last_row == crate::utility::ROW_MAX - 1 {
        seq!['$'] + column_name_text(range.first_col as nat) + seq![':', '$'] + column_name_text(
            range.last_col as nat,
        )
    } else if range.first_col == 0 && range.last_col == crate::utility::COL_MAX - 1 {
        seq!['$'] + decimal_text((range.first_row + 1) as nat) + seq![':', '$'] + decimal_text(
            (range.last_row + 1) as nat,
        )
    } else {
        absolute_cell_text(range.first_row, range.first_col) + seq![':'] + absolute_cell_text(
            range.last_row,
            range.last_col,
        )
    }
}

/// The reference of a range of the worksheet `name` as a formula names
/// it.
pub open spec fn sheet_range_text(name: Seq<char>, range: CellRange) -> Seq<char> {
    quoted_name_text(name) + seq!['!'] + absolute_range_text(range)
}

/// Appends the reference of a cell that does not move with the formula.
fn push_absolute_cell(out: &mut String, row: RowNum, col: ColNum)
    ensures
        final(out)@ == old(out)@ + absolute_cell_text(row, col),
{
    push_char(out, '$');
    push_column_name(out, col);
    push_char(out, '$');
    push_decimal(out, row as u128 + 1);
    proof {
        assert(out@ =~= old(out)@ + absolute_cell_text(row, col));
    }
}

/// Appends the reference of a range as a formula names it.
fn push_absolute_range(out: &mut String, range: &CellRange)
    ensures
        final(out)@ == old(out)@ + absolute_range_text(*range),
{
    if range.first_row == 0 && range.last_row == crate::utility::ROW_MAX - 1 {
        push_char(out, '$');
        push_column_name(out, range.first_col);
        push_char(out, ':');
        push_char(out, '$');
        push_column_name(out, range.last_col);
    } else if range.first_col == 0 && range.last_col == crate::utility::COL_MAX - 1 {
        push_char(out, '$');
        push_decimal(out, range.first_row as u128 + 1);
        push_char(out, ':');
        push_char(out, '$');
        push_decimal(out, range.last_row as u128 + 1);
    } else {
        push_absolute_cell(out, range.first_row, range.first_col);
        push_char(out, ':');
        push_absolute_cell(out, range.last_row, range.last_col);
    }
    proof {
        assert(out@ =~= old(out)@ + absolute_range_text(*range));
    }
}

/// The reference of a range of the worksheet `name` as a formula names it.
pub fn sheet_range(name: &str, range: &CellRange) -> (text: String)
    ensures
        text@ == sheet_range_text(name@, *range),
{
    let mut text = String::new();
    push_char(&mut text, '\'');
    let ghost start = text@;
    proof {
        broadcast use vstd::string::group_string_axioms;

        assert(name@.take(0) =~= Seq::<char>::empty());
        assert(text@ =~= start + doubled_quotes_text(name@.take(0)));
    }
    for c in it: name.chars()
        invariant
            it.seq() == name@,
            text@ == start + doubled_quotes_text(name@.take(it.index() as int)),
    {
        proof {
            let i = it.index();
            assert(name@.take(i + 1).drop_last() =~= name@.take(i));
            assert(name@.take(i + 1).last() == c);
        }
        if c == '\'' {
            push_char(&mut text, '\'');
            push_char(&mut text, '\'');
        } else {
            push_char(&mut text, c);
        }
        proof {
            let i = it.index();
            assert(text@ =~= start + doubled_quotes_text(name@.take(i + 1)));
        }
    }
    proof {
        assert(name@.take(name@.len() as int) =~= name@);
    }
    push_char(&mut text, '\'');
    push_char(&mut text, '!');
    proof {
        assert(text@ =~= quoted_name_text(name@) + seq!['!']);
    }
    push_absolute_range(&mut text, range);
    text
}

/// The beginning of the workbook part: the root element, the version of
/// the file, the properties of the workbook and its window.
pub open spec fn workbook_head_text() -> Seq<char> {
    Seq::<char>::empty() + declaration_text() + start_tag_text(
        "workbook"@,
        crate::worksheet_xml::worksheet_namespaces(),
    ) + empty_tag_text(
        "fileVersion"@,
        seq![
            ("appName"@, "xl"@),
            ("lastEdited"@, "4"@),
            ("lowestEdited"@, "4"@),
            ("rupBuild"@, "4505"@),
        ],
    ) + empty_tag_text("workbookPr"@, Seq::empty()) + start_tag_text("bookViews"@, Seq::empty())
        + empty_tag_text(
        "workbookView"@,
        seq![
            ("xWindow"@, "240"@),
            ("yWindow"@, "15"@),
            ("windowWidth"@, "16095"@),
            ("windowHeight"@, "9660"@),
        ],
    ) + end_tag_text("bookViews"@)
}

/// The element of the `number`-th worksheet, counted from one, in the list
/// of the workbook.
pub open spec fn sheet_item_text(name: Seq<char>, number: nat) -> Seq<char> {
    empty_tag_text(
        "sheet"@,
        seq![
            ("name"@, name),
            ("sheetId"@, decimal_text(number)),
            ("r:id"@, relationship_id_text(number)),
        ],
    )
}

/// The elements of the worksheets `views` in the list of the workbook, in
/// order.
pub open spec fn sheet_items_text(views: Seq<WorksheetView>) -> Seq<char>
    decreases views.len(),
{
    if views.len() == 0 {
        Seq::<char>::empty()
    } else {
        sheet_items_text(views.drop_last()) + sheet_item_text(views.last().name, views.len())
    }
}

/// A name that the workbook defines for a range of the worksheet at
/// `index`, counted from zero.
pub open spec fn defined_name_text(
    name: Seq<char>,
    hidden: bool,
    view: WorksheetView,
    index: nat,
    range: CellRange,
) -> Seq<char> {
    data_element_text(
        "definedName"@,
        sheet_range_text(view.name, range),
        if hidden {
            seq![("name"@, name), ("localSheetId"@, decimal_text(index)), ("hidden"@, "1"@)]
        } else {
            seq![("name"@, name), ("localSheetId"@, decimal_text(index))]
        },
    )
}

/// The name that a formula gives to the filtered range of the worksheet at
/// `index`, counted from zero; nothing where the worksheet has no filter.
pub open spec fn filter_name_text(view: WorksheetView, index: nat) -> Seq<char> {
    match view.autofilter {
        Some(range) => defined_name_text("_xlnm._FilterDatabase"@, true, view, index, range),
        None => Seq::<char>::empty(),
    }
}

/// The name of the range of the worksheet at `index` that is printed;
/// nothing where the whole worksheet is printed.
pub open spec fn print_area_name_text(view: WorksheetView, index: nat) -> Seq<char> {
    match view.print_area {
        Some(range) => defined_name_text("_xlnm.Print_Area"@, false, view, index, range),
        None => Seq::<char>::empty(),
    }
}

/// The names of the ranges of the worksheets `views`, in order: for each
/// worksheet the filtered range and the printed range.
pub open spec fn filter_names_text(views: Seq<WorksheetView>) -> Seq<char>
    decreases views.len(),
{
    if views.len() == 0 {
        Seq::<char>::empty()
    } else {
        filter_names_text(views.drop_last()) + (filter_name_text(
            views.last(),
            (views.len() - 1) as nat,
        ) + print_area_name_text(views.last(), (views.len() - 1) as nat))
    }
}

/// Whether one of the worksheets `views` has a filter or a range that is
/// printed.
pub open spec fn has_filter(views: Seq<WorksheetView>) -> bool {
    exists|i: int|
        0 <= i < views.len() && ((#[trigger] views[i]).autofilter is Some
            || views[i].print_area is Some)
}

/// The element for the names that the workbook defines; nothing where no
/// worksheet has a range with a name.
pub open spec fn defined_names_text(views: Seq<WorksheetView>) -> Seq<char> {
    if has_filter(views) {
        start_tag_text("definedNames"@, Seq::empty()) + filter_names_text(views) + end_tag_text(
            "definedNames"@,
        )
    } else {
        Seq::<char>::empty()
    }
}

/// The end of the workbook part: the setting for the calculation, and the
/// end tag.
pub open spec fn workbook_tail_text() -> Seq<char> {
    empty_tag_text("calcPr"@, seq![("calcId"@, "124519"@), ("fullCalcOnLoad"@, "1"@)])
        + end_tag_text("workbook"@)
}

/// The workbook part for the worksheets `views`.
#[verifier::opaque]
pub open spec fn workbook_xml_text(views: Seq<WorksheetView>) -> Seq<char> {
    workbook_head_text() + (start_tag_text("sheets"@, Seq::empty()) + sheet_items_text(views)
        + end_tag_text("sheets"@)) + defined_names_text(views) + workbook_tail_text()
}

/// Writes the beginning of the workbook part.
fn write_workbook_head(writer: &mut XMLWriter)
    ensures
        final(writer)@ == old(writer)@ + declaration_text() + start_tag_text(
            "workbook"@,
            crate::worksheet_xml::worksheet_namespaces(),
        ) + empty_tag_text(
            "fileVersion"@,
            seq![
                ("appName"@, "xl"@),
                ("lastEdited"@, "4"@),
                ("lowestEdited"@, "4"@),
                ("rupBuild"@, "4505"@),
            ],
        ) + empty_tag_text("workbookPr"@, Seq::empty()) + start_tag_text(
            "bookViews"@,
            Seq::empty(),
        ) + empty_tag_text(
            "workbookView"@,
            seq![
                ("xWindow"@, "240"@),
                ("yWindow"@, "15"@),
                ("windowWidth"@, "16095"@),
                ("windowHeight"@, "9660"@),
            ],
        ) + end_tag_text("bookViews"@),
{
    writer.xml_declaration();
    let attributes: Vec<Attribute> = vec![
        ("xmlns", "http://schemas.openxmlformats.org/spreadsheetml/2006/main".to_owned()),
        (
            "xmlns:r",
            "http://schemas.openxmlformats.org/officeDocument/2006/relationships".to_owned(),
        ),
    ];
    proof {
        assert(attributes_view(attributes@) =~= crate::worksheet_xml::worksheet_namespaces());
    }
    writer.xml_start_tag("workbook", &attributes);
    let attributes: Vec<Attribute> = vec![
        ("appName", "xl".to_owned()),
        ("lastEdited", "4".to_owned()),
        ("lowestEdited", "4".to_owned()),
        ("rupBuild", "4505".to_owned()),
    ];
    proof {
        assert(attributes_view(attributes@) =~= seq![
            ("appName"@, "xl"@),
            ("lastEdited"@, "4"@),
            ("lowestEdited"@, "4"@),
            ("rupBuild"@, "4505"@),
        ]);
    }
    writer.xml_empty_tag("fileVersion", &attributes);
    writer.xml_empty_tag_only("workbookPr");
    writer.xml_start_tag_only("bookViews");
    let attributes: Vec<Attribute> = vec![
        ("xWindow", "240".to_owned()),
        ("yWindow", "15".to_owned()),
        ("windowWidth", "16095".to_owned()),
        ("windowHeight", "9660".to_owned()),
    ];
    proof {
        assert(attributes_view(attributes@) =~= seq![
            ("xWindow"@, "240"@),
            ("yWindow"@, "15"@),
            ("windowWidth"@, "16095"@),
            ("windowHeight"@, "9660"@),
        ]);
    }
    writer.xml_empty_tag("workbookView", &attributes);
    writer.xml_end_tag("bookViews");
}

/// Writes the list of the worksheets.
fn write_sheets(writer: &mut XMLWriter, sheets: &Vec<Worksheet>)
    ensures
        final(writer)@ == old(writer)@ + (start_tag_text("sheets"@, Seq::empty())
            + sheet_items_text(sheet_views(sheets@)) + end_tag_text("sheets"@)),
{
    let ghost start = writer@;
    let ghost views = sheet_views(sheets@);
    writer.xml_start_tag_only("sheets");
    let ghost inner = writer@;
    let mut i: usize = 0;
    proof {
        assert(views.take(0) =~= Seq::<WorksheetView>::empty());
        assert(writer@ =~= inner + sheet_items_text(views.take(0)));
    }
    while i < sheets.len()
        invariant
            i <= sheets.len(),
            views == sheet_views(sheets@),
            writer@ == inner + sheet_items_text(views.take(i as int)),
        decreases sheets.len() - i,
    {
        let attributes: Vec<Attribute> = vec![
            ("name", sheets[i].name()),
            ("sheetId", decimal_string(i as u64 + 1)),
            ("r:id", relationship_id(i as u128 + 1)),
        ];
        proof {
            assert(attributes_view(attributes@) =~= seq![
                ("name"@, views[i as int].name),
                ("sheetId"@, decimal_text((i + 1) as nat)),
                ("r:id"@, relationship_id_text((i + 1) as nat)),
            ]);
        }
        writer.xml_empty_tag("sheet", &attributes);
        proof {
            assert(views.take(i + 1).drop_last() =~= views.take(i as int));
            assert(views.take(i + 1).last() == views[i as int]);
            lemma_append_2(
                inner,
                sheet_items_text(views.take(i as int)),
                sheet_item_text(views[i as int].name, (i + 1) as nat),
            );
        }
        i += 1;
    }
    proof {
        assert(views.take(views.len() as int) =~= views);
    }
    writer.xml_end_tag("sheets");
    proof {
        lemma_append_3(
            start,
            start_tag_text("sheets"@, Seq::empty()),
            sheet_items_text(views),
            end_tag_text("sheets"@),
        );
    }
}

/// Whether one of the worksheets has a filter or a range that is printed.
fn any_filter(sheets: &Vec<Worksheet>) -> (found: bool)
    ensures
        found == has_filter(sheet_views(sheets@)),
{
    let ghost views = sheet_views(sheets@);
    let mut i: usize = 0;
    while i < sheets.len()
        invariant
            i <= sheets.len(),
            views == sheet_views(sheets@),
            forall|k: int|
                0 <= k < i ==> (#[trigger] views[k]).autofilter is None && views[k].print_area
                    is None,
        decreases sheets.len() - i,
    {
        let filtered = sheets[i].autofilter_range().is_some();
        let printed = sheets[i].print_area().is_some();
        if filtered || printed {
            proof {
                assert(views[i as int].autofilter is Some || views[i as int].print_area is Some);
            }
            return true;
        }
        i += 1;
    }
    false
}

/// Writes a name that the workbook defines for a range of a worksheet.
fn write_defined_name(
    writer: &mut XMLWriter,
    name: &str,
    hidden: bool,
    sheet: &Worksheet,
    index: usize,
    range: &CellRange,
)
    ensures
        final(writer)@ == old(writer)@ + defined_name_text(
            name@,
            hidden,
            sheet@,
            index as nat,
            *range,
        ),
{
    let sheet_name = sheet.name();
    let reference = sheet_range(sheet_name.as_str(), range);
    let mut attributes: Vec<Attribute> = Vec::new();
    attributes.push(("name", name.to_owned()));
    attributes.push(("localSheetId", decimal_string(index as u64)));
    if hidden {
        attributes.push(("hidden", "1".to_owned()));
    }
    proof {
        assert(attributes_view(attributes@) =~= (if hidden {
            seq![
                ("name"@, name@),
                ("localSheetId"@, decimal_text(index as nat)),
                ("hidden"@, "1"@),
            ]
        } else {
            seq![("name"@, name@), ("localSheetId"@, decimal_text(index as nat))]
        }));
    }
    writer.xml_data_element("definedName", reference.as_str(), &attributes);
}

/// Writes the names of the ranges of one worksheet.
fn write_sheet_names(writer: &mut XMLWriter, sheet: &Worksheet, index: usize)
    ensures
        final(writer)@ == old(writer)@ + (filter_name_text(sheet@, index as nat)
            + print_area_name_text(sheet@, index as nat)),
{
    match sheet.autofilter_range() {
        Some(range) => {
            write_defined_name(writer, "_xlnm._FilterDatabase", true, sheet, index, &range);
        },
        None => {
            proof {
                assert(writer@ =~= old(writer)@ + Seq::<char>::empty());
            }
        },
    }
    let ghost middle = writer@;
    match sheet.print_area() {
        Some(range) => {
            write_defined_name(writer, "_xlnm.Print_Area", false, sheet, index, &range);
        },
        None => {
            proof {
                assert(writer@ =~= middle + Seq::<char>::empty());
            }
        },
    }
    proof {
        lemma_append_2(
            old(writer)@,
            filter_name_text(sheet@, index as nat),
            print_area_name_text(sheet@, index as nat),
        );
    }
}

/// Writes the element for the names that the workbook defines.
fn write_defined_names(writer: &mut XMLWriter, sheets: &Vec<Worksheet>)
    ensures
        final(writer)@ == old(writer)@ + defined_names_text(sheet_views(sheets@)),
{
    let ghost start = writer@;
    let ghost views = sheet_views(sheets@);
    if !any_filter(sheets) {
        proof {
            assert(writer@ =~= start + defined_names_text(views));
        }
        return ;
    }
    writer.xml_start_tag_only("definedNames");
    let ghost inner = writer@;
    let mut i: usize = 0;
    proof {
        assert(views.take(0) =~= Seq::<WorksheetView>::empty());
        assert(writer@ =~= inner + filter_names_text(views.take(0)));
    }
    while i < sheets.len()
        invariant
            i <= sheets.len(),
            views == sheet_views(sheets@),
            writer@ == inner + filter_names_text(views.take(i as int)),
        decreases sheets.len() - i,
    {
        write_sheet_names(writer, &sheets[i], i);
        proof {
            assert(views.take(i + 1).drop_last() =~= views.take(i as int));
            assert(views.take(i + 1).last() == views[i as int]);
            lemma_append_2(
                inner,
                filter_names_text(views.take(i as int)),
                filter_name_text(views[i as int], i as nat) + print_area_name_text(
                    views[i as int],
                    i as nat,
                ),
            );
        }
        i += 1;
    }
    proof {
        assert(views.take(views.len() as int) =~= views);
    }
    writer.xml_end_tag("definedNames");
    proof {
        lemma_append_3(
            start,
            start_tag_text("definedNames"@, Seq::empty()),
            filter_names_text(views),
            end_tag_text("definedNames"@),
        );
    }
}

/// The workbook part of the package, `xl/workbook.xml`.
pub fn assemble_workbook(sheets: &Vec<Worksheet>) -> (text: String)
    ensures
        text@ == workbook_xml_text(sheet_views(sheets@)),
{
    proof {
        reveal(workbook_xml_text);
    }
    let mut writer = XMLWriter::new();
    write_workbook_head(&mut writer);
    proof {
        assert(writer@ == workbook_head_text());
    }
    write_sheets(&mut writer, sheets);
    write_defined_names(&mut writer, sheets);
    let ghost body = writer@;
    let attributes: Vec<Attribute> = vec![
        ("calcId", "124519".to_owned()),
        ("fullCalcOnLoad", "1".to_owned()),
    ];
    proof {
        assert(attributes_view(attributes@) =~= seq![
            ("calcId"@, "124519"@),
            ("fullCalcOnLoad"@, "1"@),
        ]);
    }
    writer.xml_empty_tag("calcPr", &attributes);
    writer.xml_end_tag("workbook");
    proof {
        lemma_append_2(
            body,
            empty_tag_text("calcPr"@, seq![("calcId"@, "124519"@), ("fullCalcOnLoad"@, "1"@)]),
            end_tag_text("workbook"@),
        );
    }
    writer.read_to_string()
}

/// The part for the metadata of cells, `xl/metadata.xml`. It declares one
/// kind of metadata, that of dynamic formulas, to which the cells of such
/// formulas refer.
pub open spec fn metadata_xml_text() -> Seq<char> {
    "<?xml version=\"1.0\" encoding=\"UTF-8\" standalone=\"yes\"?>\n<metadata xmlns=\"http://schemas.openxmlformats.org/spreadsheetml/2006/main\" xmlns:xda=\"http://schemas.microsoft.com/office/spreadsheetml/2017/dynamicarray\"><metadataTypes count=\"1\"><metadataType name=\"XLDAPR\" minSupportedVersion=\"120000\" copy=\"1\" pasteAll=\"1\" pasteValues=\"1\" merge=\"1\" splitFirst=\"1\" rowColShift=\"1\" clearFormats=\"1\" clearComments=\"1\" assign=\"1\" coerce=\"1\" cellMeta=\"1\"/></metadataTypes><futureMetadata name=\"XLDAPR\" count=\"1\"><bk><extLst><ext uri=\"{bdbb8cdc-fa1e-496e-a857-3c3f30c029c3}\"><xda:dynamicArrayProperties fDynamic=\"1\" fCollapsed=\"0\"/></ext></extLst></bk></futureMetadata><cellMetadata count=\"1\"><bk><rc t=\"1\" v=\"0\"/></bk></cellMetadata></metadata>"@
}

/// The part for the metadata of cells.
pub fn assemble_metadata() -> (text: String)
    ensures
        text@ == metadata_xml_text(),
{
    "<?xml version=\"1.0\" encoding=\"UTF-8\" standalone=\"yes\"?>\n<metadata xmlns=\"http://schemas.openxmlformats.org/spreadsheetml/2006/main\" xmlns:xda=\"http://schemas.microsoft.com/office/spreadsheetml/2017/dynamicarray\"><metadataTypes count=\"1\"><metadataType name=\"XLDAPR\" minSupportedVersion=\"120000\" copy=\"1\" pasteAll=\"1\" pasteValues=\"1\" merge=\"1\" splitFirst=\"1\" rowColShift=\"1\" clearFormats=\"1\" clearComments=\"1\" assign=\"1\" coerce=\"1\" cellMeta=\"1\"/></metadataTypes><futureMetadata name=\"XLDAPR\" count=\"1\"><bk><extLst><ext uri=\"{bdbb8cdc-fa1e-496e-a857-3c3f30c029c3}\"><xda:dynamicArrayProperties fDynamic=\"1\" fCollapsed=\"0\"/></ext></extLst></bk></futureMetadata><cellMetadata count=\"1\"><bk><rc t=\"1\" v=\"0\"/></bk></cellMetadata></metadata>".to_owned()
}

} // verus!
