//! A workbook: its worksheets and properties, and the assembly of the
//! package that holds them.
//!
//! Assembling a workbook leaves it as it is: the package is a function of
//! the workbook, so assembling twice gives the same package twice.

use vstd::prelude::*;
use vstd::string::*;
use crate::core_properties::{core_xml_text, Core};
use crate::custom::{assemble_custom, custom_xml_text};
use crate::drawing::{
    assemble_drawing, assemble_drawing_relationships, drawing_relationships_xml_text,
    drawing_xml_text, media_part_name, media_part_name_text,
};
use crate::error::XlsxError;
use crate::format::{default_format, Format, FormatView};
use crate::image::{Media, MediaView, XlsxImageType};
use crate::number::{is_digit, lemma_decimal_text_digits};
use crate::packager::{
    app_xml_text, assemble_app, assemble_content_types, assemble_metadata,
    assemble_root_relationships, assemble_sheet_relationships, assemble_workbook,
    assemble_workbook_relationships, content_types_xml_text, drawing_part_name,
    drawing_part_name_text, drawing_relationships_name, drawing_relationships_name_text,
    metadata_xml_text, root_relationships_xml_text, sheet_part_name, sheet_part_name_text,
    sheet_relationships_name, sheet_relationships_name_text, sheet_relationships_xml_text,
    sheet_views, workbook_relationships_xml_text, workbook_xml_text, ImageTypes, PackageSummary,
};
use crate::properties::{custom_properties_view, DocProperties};
use crate::registry::{first_index_of, registered, Descriptor, Registry};
use crate::shared_strings::{shared_strings_xml_text, SharedStringTable};
use crate::styles::{assemble_styles, styles_xml_text};
use crate::table::{assemble_table, table_part_name, table_part_name_text, table_xml_text};
use crate::utility::{decimal_text, lemma_decimal_text_len, power_of_ten, push_decimal};
use crate::worksheet::{
    empty_worksheet, has_duplicate, is_invalid_sheet_name_char, sheet_name_error, PlacedImageView,
    Worksheet, WorksheetView,
};
use crate::worksheet_xml::{
    extends, external_links_among, strings_counted, strings_interned, strings_known,
    worksheet_xml_text,
};

verus! {

/// One part of a package: its name in the package and its content.
pub struct PackagePart {
    pub name: String,
    pub content: String,
}

/// A part of a package as a plain value.
pub struct PackagePartView {
    pub name: Seq<char>,
    pub content: Seq<char>,
}

impl View for PackagePart {
    type V = PackagePartView;

    open spec fn view(&self) -> PackagePartView {
        PackagePartView { name: self.name@, content: self.content@ }
    }
}

/// The parts `parts` as plain values.
pub open spec fn parts_view(parts: Seq<PackagePart>) -> Seq<PackagePartView> {
    Seq::new(parts.len(), |i: int| parts[i]@)
}

/// One image file of a package: its name in the package and its bytes.
pub struct MediaPart {
    pub name: String,
    pub data: Vec<u8>,
}

/// An image file of a package as a plain value.
pub struct MediaPartView {
    pub name: Seq<char>,
    pub data: Seq<u8>,
}

impl View for MediaPart {
    type V = MediaPartView;

    open spec fn view(&self) -> MediaPartView {
        MediaPartView { name: self.name@, data: self.data@ }
    }
}

/// The image files `media` as plain values.
pub open spec fn media_view(media: Seq<MediaPart>) -> Seq<MediaPartView> {
    Seq::new(media.len(), |i: int| media[i]@)
}

/// A package: its parts of text, and its image files.
pub struct Package {
    pub parts: Vec<PackagePart>,
    pub media: Vec<MediaPart>,
}

/// A package as a plain value.
pub struct PackageView {
    pub parts: Seq<PackagePartView>,
    pub media: Seq<MediaPartView>,
}

impl View for Package {
    type V = PackageView;

    open spec fn view(&self) -> PackageView {
        PackageView { parts: parts_view(self.parts@), media: media_view(self.media@) }
    }
}

/// The lower-case form of a text, as the standard library computes it.
pub uninterp spec fn lowercase_text(text: Seq<char>) -> Seq<char>;

/// The lower-case form of a text.
///
/// Trusted: this is `str::to_lowercase` of the standard library, which
/// returns the lower-case equivalent of the text as a new string. The
/// result depends on the text alone.
#[verifier::external_body]
fn to_lowercase(text: &str) -> (lower: String)
    ensures
        lower@ == lowercase_text(text@),
{
    text.to_lowercase()
}

/// Whether two of the names `names` are the same name, ignoring case.
pub open spec fn names_clash(names: Seq<Seq<char>>) -> bool {
    exists|i: int, j: int|
        0 <= i < j < names.len() && lowercase_text(#[trigger] names[i]) == lowercase_text(
            #[trigger] names[j],
        )
}

/// The names of the worksheets `views`.
pub open spec fn sheet_names(views: Seq<WorksheetView>) -> Seq<Seq<char>> {
    Seq::new(views.len(), |i: int| views[i].name)
}

/// The name that a worksheet gets when it is added as the `number`-th
/// worksheet without a name of its own.
pub open spec fn default_sheet_name_text(number: nat) -> Seq<char> {
    "Sheet"@ + decimal_text(number)
}

/// The default name of a worksheet is a name that a worksheet can have.
pub proof fn lemma_default_sheet_name(number: nat)
    requires
        number <= 0x1_0000_0000_0000_0000,
    ensures
        default_sheet_name_text(number).len() > 0,
        sheet_name_error(default_sheet_name_text(number)) is None,
{
    let name = default_sheet_name_text(number);
    let digits = decimal_text(number);
    reveal_strlit("Sheet");
    assert(number < power_of_ten(20)) by {
        reveal_with_fuel(power_of_ten, 21);
    }
    lemma_decimal_text_len(number, 20);
    lemma_decimal_text_digits(number);
    assert(name.len() == 5 + digits.len());
    assert forall|i: int| 0 <= i < name.len() implies !is_invalid_sheet_name_char(
        #[trigger] name[i],
    ) by {
        if i < 5 {
            assert(name[i] == "Sheet"@[i]);
        } else {
            assert(name[i] == digits[i - 5]);
            assert(is_digit(digits[i - 5]));
        }
    }
}

/// The shared-string table after the texts of the worksheets `views` are
/// interned, worksheet by worksheet.
pub open spec fn workbook_strings(views: Seq<WorksheetView>) -> Seq<Seq<char>>
    decreases views.len(),
{
    if views.len() == 0 {
        Seq::empty()
    } else {
        strings_interned(views.last(), workbook_strings(views.drop_last()))
    }
}

/// The number of references to texts in the worksheets `views`.
pub open spec fn workbook_string_count(views: Seq<WorksheetView>) -> usize
    decreases views.len(),
{
    if views.len() == 0 {
        0
    } else {
        strings_counted(views.last(), workbook_string_count(views.drop_last()))
    }
}

/// The format table `formats` after the formats `added` are registered, in
/// order.
pub open spec fn formats_registered(formats: Seq<FormatView>, added: Seq<FormatView>) -> Seq<
    FormatView,
>
    decreases added.len(),
{
    if added.len() == 0 {
        formats
    } else {
        registered(formats_registered(formats, added.drop_last()), added.last())
    }
}

/// The format table of the workbook: the default format, and then the
/// formats of the worksheets `views`, worksheet by worksheet, each format
/// once.
pub open spec fn workbook_formats(views: Seq<WorksheetView>) -> Seq<FormatView>
    decreases views.len(),
{
    if views.len() == 0 {
        seq![default_format()]
    } else {
        formats_registered(workbook_formats(views.drop_last()), views.last().formats)
    }
}

/// For each position in the format table of a worksheet, the position of
/// the format in the format table `formats` of the workbook.
pub open spec fn xf_positions(formats: Seq<FormatView>, view: WorksheetView) -> Seq<usize> {
    Seq::new(view.formats.len(), |i: int| first_index_of(formats, view.formats[i]) as usize)
}

/// The image files `media` after the images `images` are registered, in
/// order, each file once.
pub open spec fn images_registered(media: Seq<MediaView>, images: Seq<PlacedImageView>) -> Seq<
    MediaView,
>
    decreases images.len(),
{
    if images.len() == 0 {
        media
    } else {
        registered(images_registered(media, images.drop_last()), images.last().media)
    }
}

/// The image files of the workbook: those of the images of the worksheets
/// `views`, worksheet by worksheet, each file once.
pub open spec fn workbook_media(views: Seq<WorksheetView>) -> Seq<MediaView>
    decreases views.len(),
{
    if views.len() == 0 {
        Seq::empty()
    } else {
        images_registered(workbook_media(views.drop_last()), views.last().images)
    }
}

/// For each image of a worksheet, the position of its file among the image
/// files `media` of the workbook.
pub open spec fn media_positions(media: Seq<MediaView>, view: WorksheetView) -> Seq<usize> {
    Seq::new(view.images.len(), |i: int| first_index_of(media, view.images[i].media) as usize)
}

/// The number of worksheets among the first `count` of `views` that hold
/// an image, and so have a drawing.
pub open spec fn drawings_among(views: Seq<WorksheetView>, count: int) -> nat
    decreases count,
{
    if count <= 0 {
        0
    } else {
        drawings_among(views, count - 1) + (if views[count - 1].images.len() > 0 {
            1nat
        } else {
            0nat
        })
    }
}

/// Whether one of the image files `media` has the format `image_type`.
pub open spec fn uses_image_type(media: Seq<MediaView>, image_type: XlsxImageType) -> bool {
    exists|i: int| 0 <= i < media.len() && (#[trigger] media[i]).image_type == image_type
}

/// Which formats the image files `media` have.
pub open spec fn image_types_of(media: Seq<MediaView>) -> ImageTypes {
    ImageTypes {
        png: uses_image_type(media, XlsxImageType::Png),
        jpeg: uses_image_type(media, XlsxImageType::Jpg),
        gif: uses_image_type(media, XlsxImageType::Gif),
        bmp: uses_image_type(media, XlsxImageType::Bmp),
    }
}

/// Whether the worksheet part has relationships: the worksheet has a link
/// that leads outside the workbook, an image, or a table.
pub open spec fn has_relationships(view: WorksheetView) -> bool {
    external_links_among(view.hyperlinks, view.hyperlinks.len() as int) > 0 || view.images.len()
        > 0 || view.tables.len() > 0
}

/// The relationships part of the worksheet at `index`, where the worksheet
/// part has relationships.
pub open spec fn relationship_parts_of(views: Seq<WorksheetView>, index: int) -> Seq<
    PackagePartView,
> {
    if has_relationships(views[index]) {
        seq![
            PackagePartView {
                name: sheet_relationships_name_text((index + 1) as nat),
                content: sheet_relationships_xml_text(
                    views[index],
                    if views[index].images.len() > 0 {
                        Some(drawings_among(views, index + 1))
                    } else {
                        None
                    },
                    tables_among(views, index) + 1,
                ),
            },
        ]
    } else {
        Seq::empty()
    }
}

/// The parts that the worksheet at `index` has for its images: the drawing,
/// and the relationships of the drawing to the image files. A worksheet
/// without images has none of them.
pub open spec fn image_parts_of(views: Seq<WorksheetView>, index: int) -> Seq<PackagePartView> {
    if views[index].images.len() == 0 {
        Seq::empty()
    } else {
        let number = drawings_among(views, index + 1);
        seq![
            PackagePartView {
                name: drawing_part_name_text(number),
                content: drawing_xml_text(views[index]),
            },
            PackagePartView {
                name: drawing_relationships_name_text(number),
                content: drawing_relationships_xml_text(
                    views[index].images,
                    media_positions(workbook_media(views), views[index]),
                ),
            },
        ]
    }
}

/// The parts of the tables of the worksheet at `index`. The tables are
/// numbered through the package, worksheet by worksheet.
pub open spec fn table_parts_of(views: Seq<WorksheetView>, index: int) -> Seq<PackagePartView> {
    Seq::new(
        views[index].tables.len(),
        |j: int|
            PackagePartView {
                name: table_part_name_text((tables_among(views, index) + j + 1) as nat),
                content: table_xml_text(
                    views[index].tables[j],
                    (tables_among(views, index) + j + 1) as nat,
                ),
            },
    )
}

/// The parts that the worksheet at `index` has beside the worksheet part:
/// its relationships, the parts for its images, and the parts of its
/// tables.
pub open spec fn drawing_parts_of(views: Seq<WorksheetView>, index: int) -> Seq<PackagePartView> {
    relationship_parts_of(views, index) + image_parts_of(views, index) + table_parts_of(
        views,
        index,
    )
}

/// The parts that the first `count` worksheets have beside the worksheet
/// parts.
pub open spec fn drawing_parts(views: Seq<WorksheetView>, count: int) -> Seq<PackagePartView>
    decreases count,
{
    if count <= 0 {
        Seq::empty()
    } else {
        drawing_parts(views, count - 1) + drawing_parts_of(views, count - 1)
    }
}

/// The image files `media` as files of the package: the `i`-th file,
/// counted from one, has the name `image` with its number and the
/// extension of its format.
pub open spec fn media_parts(media: Seq<MediaView>) -> Seq<MediaPartView> {
    Seq::new(
        media.len(),
        |i: int|
            MediaPartView {
                name: media_part_name_text((i + 1) as nat, media[i].image_type),
                data: media[i].data,
            },
    )
}

/// The part of the worksheet at `index`, counted from zero, of a workbook
/// with the worksheets `views`. The first worksheet is the selected one.
pub open spec fn sheet_part(views: Seq<WorksheetView>, index: int) -> PackagePartView {
    PackagePartView {
        name: sheet_part_name_text((index + 1) as nat),
        content: worksheet_xml_text(
            views[index],
            workbook_strings(views),
            xf_positions(workbook_formats(views), views[index]),
            index == 0,
        ),
    }
}

/// What the package of the worksheets `views` with the properties
/// `properties` holds.
pub open spec fn summary_of(views: Seq<WorksheetView>, properties: DocProperties) -> PackageSummary {
    PackageSummary {
        sheets: views.len() as usize,
        has_strings: workbook_strings(views).len() > 0,
        image_types: image_types_of(workbook_media(views)),
        drawings: drawings_among(views, views.len() as int) as usize,
        has_metadata: uses_dynamic_arrays(views),
        has_custom_properties: properties.custom_properties@.len() > 0,
        tables: tables_among(views, views.len() as int) as u128,
    }
}

/// The number of tables in the first `count` worksheets of `views`.
pub open spec fn tables_among(views: Seq<WorksheetView>, count: int) -> nat
    decreases count,
{
    if count <= 0 {
        0
    } else {
        tables_among(views, count - 1) + views[count - 1].tables.len()
    }
}

/// Whether a dynamic formula was written in one of the worksheets `views`.
pub open spec fn uses_dynamic_arrays(views: Seq<WorksheetView>) -> bool {
    exists|i: int| 0 <= i < views.len() && (#[trigger] views[i]).uses_dynamic_arrays
}

/// The part for the metadata of cells, where a worksheet uses dynamic
/// formulas.
pub open spec fn metadata_parts(views: Seq<WorksheetView>) -> Seq<PackagePartView> {
    if uses_dynamic_arrays(views) {
        seq![PackagePartView { name: "xl/metadata.xml"@, content: metadata_xml_text() }]
    } else {
        Seq::empty()
    }
}

/// The parts for the properties of the document: the application
/// properties, the core properties, and the custom properties where the
/// document has some.
pub open spec fn property_parts(views: Seq<WorksheetView>, properties: DocProperties) -> Seq<
    PackagePartView,
> {
    seq![
        PackagePartView { name: "docProps/app.xml"@, content: app_xml_text(views, properties) },
        PackagePartView { name: "docProps/core.xml"@, content: core_xml_text(properties) },
    ] + (if properties.custom_properties@.len() > 0 {
        seq![
            PackagePartView {
                name: "docProps/custom.xml"@,
                content: custom_xml_text(custom_properties_view(properties.custom_properties@)),
            },
        ]
    } else {
        Seq::empty()
    })
}

/// The parts of the package that come before the worksheets.
pub open spec fn leading_parts(views: Seq<WorksheetView>, properties: DocProperties) -> Seq<
    PackagePartView,
> {
    let summary = summary_of(views, properties);
    seq![
        PackagePartView { name: "[Content_Types].xml"@, content: content_types_xml_text(summary) },
        PackagePartView {
            name: "_rels/.rels"@,
            content: root_relationships_xml_text(summary.has_custom_properties),
        },
    ] + property_parts(views, properties) + seq![
        PackagePartView {
            name: "xl/_rels/workbook.xml.rels"@,
            content: workbook_relationships_xml_text(summary),
        },
        PackagePartView {
            name: "xl/styles.xml"@,
            content: styles_xml_text(workbook_formats(views)),
        },
        PackagePartView { name: "xl/workbook.xml"@, content: workbook_xml_text(views) },
    ] + metadata_parts(views)
}

/// The part of the shared strings, where the workbook has some.
pub open spec fn strings_parts(views: Seq<WorksheetView>) -> Seq<PackagePartView> {
    if workbook_strings(views).len() > 0 {
        seq![
            PackagePartView {
                name: "xl/sharedStrings.xml"@,
                content: shared_strings_xml_text(
                    workbook_strings(views),
                    workbook_string_count(views),
                ),
            },
        ]
    } else {
        Seq::empty()
    }
}

/// The package of a workbook with the worksheets `views` and the properties
/// `properties`: the parts that tie the package together, the shared
/// strings, the worksheets in order, and the drawings; and the image
/// files.
pub open spec fn package_of(views: Seq<WorksheetView>, properties: DocProperties) -> PackageView {
    PackageView {
        parts: leading_parts(views, properties) + strings_parts(views) + Seq::new(
            views.len(),
            |i: int| sheet_part(views, i),
        ) + drawing_parts(views, views.len() as int),
        media: media_parts(workbook_media(views)),
    }
}

/// Whether every worksheet of `sheets` is in order.
pub open spec fn sheets_wf(sheets: Seq<Worksheet>) -> bool {
    forall|i: int| 0 <= i < sheets.len() ==> (#[trigger] sheets[i]).wf()
}

/// Whether one of the worksheets `views` has no name.
pub open spec fn has_blank_name(views: Seq<WorksheetView>) -> bool {
    exists|i: int| 0 <= i < views.len() && (#[trigger] views[i]).name.len() == 0
}

/// Why the worksheets `views` cannot go into one package, if they cannot:
/// a worksheet has no name, or two worksheets have the same name, ignoring
/// case.
pub open spec fn package_error(views: Seq<WorksheetView>) -> Option<XlsxError> {
    if has_blank_name(views) {
        Some(XlsxError::SheetnameCannotBeBlank)
    } else if names_clash(sheet_names(views)) {
        Some(XlsxError::SheetnameReused)
    } else {
        None
    }
}

/// A table that holds the texts of a worksheet still holds them after it
/// has grown.
pub proof fn lemma_known_strings_stay(
    view: WorksheetView,
    before: Seq<Seq<char>>,
    after: Seq<Seq<char>>,
)
    requires
        strings_known(view, before),
        extends(before, after),
    ensures
        strings_known(view, after),
{
    assert forall|k: (crate::utility::RowNum, crate::utility::ColNum)| #[trigger]
        view.cells.contains_key(k) implies (view.cells[k].value matches crate::worksheet::CellValueView::String(
        text,
    ) ==> after.contains(text)) by {
        match view.cells[k].value {
            crate::worksheet::CellValueView::String(text) => {
                assert(before.contains(text));
            },
            _ => {},
        }
    }
}

/// Whether `result` is what the assembly of the worksheets `views` with the
/// properties `properties` gives: the error that `package_error` names, or
/// else the package that `package_of` describes.
pub open spec fn is_package(
    views: Seq<WorksheetView>,
    properties: DocProperties,
    result: Result<Package, XlsxError>,
) -> bool {
    match package_error(views) {
        Some(e) => result == Err::<Package, XlsxError>(e),
        None => result matches Ok(package) && package@ == package_of(views, properties),
    }
}

/// Assembling a workbook twice gives the same outcome twice: the same
/// error, or packages with the same parts and the same image files, name
/// for name, character for character and byte for byte.
pub proof fn lemma_assembly_is_repeatable(
    views: Seq<WorksheetView>,
    properties: DocProperties,
    first: Result<Package, XlsxError>,
    second: Result<Package, XlsxError>,
)
    requires
        is_package(views, properties, first),
        is_package(views, properties, second),
    ensures
        first is Ok <==> second is Ok,
        first matches Err(e) ==> second == Err::<Package, XlsxError>(e),
        first matches Ok(package) ==> package@ == second->Ok_0@,
{
}

/// Checks the names of the worksheets.
#[verifier::loop_isolation(false)]
pub fn check_names(sheets: &Vec<Worksheet>) -> (result: Result<(), XlsxError>)
    ensures
        match package_error(sheet_views(sheets@)) {
            Some(e) => result == Err::<(), XlsxError>(e),
            None => result is Ok,
        },
{
    let ghost views = sheet_views(sheets@);
    let ghost names = sheet_names(views);
    let mut lower: Vec<String> = Vec::new();
    let mut i: usize = 0;
    while i < sheets.len()
        invariant
            i <= sheets.len(),
            lower@.len() == i,
            forall|k: int| 0 <= k < i ==> (#[trigger] views[k]).name.len() != 0,
            forall|k: int| 0 <= k < i ==> (#[trigger] lower@[k])@ == lowercase_text(names[k]),
        decreases sheets.len() - i,
    {
        let name = sheets[i].name();
        if name.as_str().is_empty() {
            proof {
                assert(views[i as int].name.len() == 0);
            }
            return Err(XlsxError::SheetnameCannotBeBlank);
        }
        lower.push(to_lowercase(name.as_str()));
        i += 1;
    }
    let found = Worksheet::any_duplicate(&lower);
    proof {
        let lowered = crate::serializer::names_view(lower@);
        if has_duplicate(lowered) {
            let (a, b) = choose|a: int, b: int|
                0 <= a < b < lowered.len() && #[trigger] lowered[a] == #[trigger] lowered[b];
            assert(lowercase_text(names[a]) == lowercase_text(names[b]));
        }
        if names_clash(names) {
            let (a, b) = choose|a: int, b: int|
                0 <= a < b < names.len() && lowercase_text(#[trigger] names[a]) == lowercase_text(
                    #[trigger] names[b],
                );
            assert(lowered[a] == lowered[b]);
        }
    }
    if found {
        Err(XlsxError::SheetnameReused)
    } else {
        Ok(())
    }
}

/// The shared-string table of the worksheets.
pub fn collect_workbook_strings(sheets: &Vec<Worksheet>) -> (table: SharedStringTable)
    requires
        sheets_wf(sheets@),
    ensures
        table.wf(),
        table.strings() == workbook_strings(sheet_views(sheets@)),
        table.count() == workbook_string_count(sheet_views(sheets@)),
        forall|i: int|
            0 <= i < sheets@.len() ==> strings_known(
                #[trigger] sheet_views(sheets@)[i],
                table.strings(),
            ),
{
    let ghost views = sheet_views(sheets@);
    let mut table = SharedStringTable::new();
    let mut i: usize = 0;
    proof {
        assert(views.take(0) =~= Seq::<WorksheetView>::empty());
    }
    while i < sheets.len()
        invariant
            i <= sheets.len(),
            views == sheet_views(sheets@),
            sheets_wf(sheets@),
            table.wf(),
            table.strings() == workbook_strings(views.take(i as int)),
            table.count() == workbook_string_count(views.take(i as int)),
            forall|k: int| 0 <= k < i ==> strings_known(#[trigger] views[k], table.strings()),
        decreases sheets.len() - i,
    {
        let ghost before = table.strings();
        proof {
            assert(sheets@[i as int].wf());
            assert(views.take(i + 1).drop_last() =~= views.take(i as int));
            assert(views.take(i + 1).last() == views[i as int]);
        }
        sheets[i].collect_strings(&mut table);
        proof {
            assert forall|k: int| 0 <= k < i + 1 implies strings_known(
                #[trigger] views[k],
                table.strings(),
            ) by {
                if k < i {
                    lemma_known_strings_stay(views[k], before, table.strings());
                }
            }
        }
        i += 1;
    }
    proof {
        assert(views.take(views.len() as int) =~= views);
    }
    table
}

/// The format table of the worksheets.
pub fn collect_workbook_formats(sheets: &Vec<Worksheet>) -> (formats: Registry<Format>)
    ensures
        formats.wf(),
        formats.entries() == workbook_formats(sheet_views(sheets@)),
{
    let ghost views = sheet_views(sheets@);
    let mut formats: Registry<Format> = Registry::new();
    let default = Format::new();
    formats.register(&default);
    let mut i: usize = 0;
    proof {
        assert(views.take(0) =~= Seq::<WorksheetView>::empty());
        assert(formats.entries() =~= seq![default_format()]);
    }
    while i < sheets.len()
        invariant
            i <= sheets.len(),
            views == sheet_views(sheets@),
            formats.wf(),
            formats.entries() == workbook_formats(views.take(i as int)),
        decreases sheets.len() - i,
    {
        let sheet = &sheets[i];
        let ghost local = sheet@.formats;
        let ghost start = formats.entries();
        let count = sheet.format_count();
        let mut j: usize = 0;
        proof {
            assert(views.take(i + 1).drop_last() =~= views.take(i as int));
            assert(views.take(i + 1).last() == views[i as int]);
            assert(local.take(0) =~= Seq::<FormatView>::empty());
        }
        while j < count
            invariant
                j <= count,
                count == local.len(),
                local == sheet@.formats,
                formats.wf(),
                formats.entries() == formats_registered(start, local.take(j as int)),
            decreases count - j,
        {
            proof {
                assert(local.take(j + 1).drop_last() =~= local.take(j as int));
                assert(local.take(j + 1).last() == local[j as int]);
            }
            formats.register(sheet.format_at(j));
            j += 1;
        }
        proof {
            assert(local.take(count as int) =~= local);
        }
        i += 1;
    }
    proof {
        assert(views.take(views.len() as int) =~= views);
    }
    formats
}

/// For each position in the format table of `sheet`, the position of the
/// format in the format table `formats` of the workbook.
pub fn sheet_xf_positions(formats: &Registry<Format>, sheet: &Worksheet) -> (xf: Vec<usize>)
    ensures
        xf@ == xf_positions(formats.entries(), sheet@),
{
    let mut xf: Vec<usize> = Vec::new();
    let count = sheet.format_count();
    let mut j: usize = 0;
    while j < count
        invariant
            j <= count,
            count == sheet@.formats.len(),
            xf@.len() == j,
            forall|k: int|
                0 <= k < j ==> xf@[k] == first_index_of(formats.entries(), sheet@.formats[k]),
        decreases count - j,
    {
        xf.push(formats.position_of(sheet.format_at(j)));
        j += 1;
    }
    proof {
        assert(xf@ =~= xf_positions(formats.entries(), sheet@));
    }
    xf
}

/// A part with the name `name` and the content `content`.
fn part(name: &str, content: String) -> (part: PackagePart)
    ensures
        part@ == (PackagePartView { name: name@, content: content@ }),
{
    PackagePart { name: name.to_owned(), content }
}

/// The parts of the package that come before the worksheets, and the part
/// of the shared strings.
fn assemble_leading_parts(
    sheets: &Vec<Worksheet>,
    properties: &DocProperties,
    strings: &SharedStringTable,
    formats: &Registry<Format>,
    summary: &PackageSummary,
) -> (parts: Vec<PackagePart>)
    requires
        strings.strings() == workbook_strings(sheet_views(sheets@)),
        strings.count() == workbook_string_count(sheet_views(sheets@)),
        formats.entries() == workbook_formats(sheet_views(sheets@)),
        *summary == summary_of(sheet_views(sheets@), *properties),
    ensures
        parts_view(parts@) == leading_parts(sheet_views(sheets@), *properties) + strings_parts(
            sheet_views(sheets@),
        ),
{
    let has_strings = strings.unique_count() > 0;
    let mut parts: Vec<PackagePart> = Vec::new();
    parts.push(part("[Content_Types].xml", assemble_content_types(summary)));
    parts.push(
        part("_rels/.rels", assemble_root_relationships(summary.has_custom_properties)),
    );
    let ghost head = parts_view(parts@);
    parts.push(part("docProps/app.xml", assemble_app(sheets, properties)));
    parts.push(part("docProps/core.xml", Core::assemble(properties)));
    if summary.has_custom_properties {
        parts.push(part("docProps/custom.xml", assemble_custom(properties)));
    }
    let ghost middle = parts_view(parts@);
    proof {
        assert(middle =~= head + property_parts(sheet_views(sheets@), *properties));
    }
    parts.push(part("xl/_rels/workbook.xml.rels", assemble_workbook_relationships(summary)));
    parts.push(part("xl/styles.xml", assemble_styles(formats)));
    parts.push(part("xl/workbook.xml", assemble_workbook(sheets)));
    if summary.has_metadata {
        parts.push(part("xl/metadata.xml", assemble_metadata()));
    }
    proof {
        assert(parts_view(parts@) =~= leading_parts(sheet_views(sheets@), *properties));
    }
    if has_strings {
        parts.push(part("xl/sharedStrings.xml", strings.assemble_xml_file()));
    }
    proof {
        assert(parts_view(parts@) =~= leading_parts(sheet_views(sheets@), *properties)
            + strings_parts(sheet_views(sheets@)));
    }
    parts
}

/// The image files of the worksheets.
pub fn collect_workbook_media(sheets: &Vec<Worksheet>) -> (media: Registry<Media>)
    ensures
        media.wf(),
        media.entries() == workbook_media(sheet_views(sheets@)),
{
    let ghost views = sheet_views(sheets@);
    let mut media: Registry<Media> = Registry::new();
    let mut i: usize = 0;
    proof {
        assert(views.take(0) =~= Seq::<WorksheetView>::empty());
    }
    while i < sheets.len()
        invariant
            i <= sheets.len(),
            views == sheet_views(sheets@),
            media.wf(),
            media.entries() == workbook_media(views.take(i as int)),
        decreases sheets.len() - i,
    {
        let sheet = &sheets[i];
        let ghost images = sheet@.images;
        let ghost start = media.entries();
        let count = sheet.image_count();
        let mut j: usize = 0;
        proof {
            assert(views.take(i + 1).drop_last() =~= views.take(i as int));
            assert(views.take(i + 1).last() == views[i as int]);
            assert(images.take(0) =~= Seq::<PlacedImageView>::empty());
        }
        while j < count
            invariant
                j <= count,
                count == images.len(),
                images == sheet@.images,
                media.wf(),
                media.entries() == images_registered(start, images.take(j as int)),
            decreases count - j,
        {
            proof {
                assert(images.take(j + 1).drop_last() =~= images.take(j as int));
                assert(images.take(j + 1).last() == images[j as int]);
            }
            let file = sheet.image_at(j).image.to_media();
            media.register(&file);
            j += 1;
        }
        proof {
            assert(images.take(count as int) =~= images);
        }
        i += 1;
    }
    proof {
        assert(views.take(views.len() as int) =~= views);
    }
    media
}

/// Which formats the image files have.
pub fn image_types(media: &Registry<Media>) -> (types: ImageTypes)
    ensures
        types == image_types_of(media.entries()),
{
    let ghost files = media.entries();
    let mut types = ImageTypes { png: false, jpeg: false, gif: false, bmp: false };
    let mut i: usize = 0;
    while i < media.len()
        invariant
            i <= media.entries().len(),
            files == media.entries(),
            types.png == uses_image_type(files.take(i as int), XlsxImageType::Png),
            types.jpeg == uses_image_type(files.take(i as int), XlsxImageType::Jpg),
            types.gif == uses_image_type(files.take(i as int), XlsxImageType::Gif),
            types.bmp == uses_image_type(files.take(i as int), XlsxImageType::Bmp),
        decreases files.len() - i,
    {
        let kind = media.get(i).image_type;
        proof {
            lemma_uses_image_type(files, i as int, XlsxImageType::Png);
            lemma_uses_image_type(files, i as int, XlsxImageType::Jpg);
            lemma_uses_image_type(files, i as int, XlsxImageType::Gif);
            lemma_uses_image_type(files, i as int, XlsxImageType::Bmp);
        }
        match kind {
            XlsxImageType::Png => {
                types.png = true;
            },
            XlsxImageType::Jpg => {
                types.jpeg = true;
            },
            XlsxImageType::Gif => {
                types.gif = true;
            },
            XlsxImageType::Bmp => {
                types.bmp = true;
            },
            XlsxImageType::Unknown => {},
        }
        i += 1;
    }
    proof {
        assert(files.take(files.len() as int) =~= files);
    }
    types
}

/// One more image file adds its own format to the formats in use, and no
/// other.
pub proof fn lemma_uses_image_type(media: Seq<MediaView>, count: int, image_type: XlsxImageType)
    requires
        0 <= count < media.len(),
    ensures
        uses_image_type(media.take(count + 1), image_type) == (uses_image_type(
            media.take(count),
            image_type,
        ) || media[count].image_type == image_type),
{
    let shorter = media.take(count);
    let longer = media.take(count + 1);
    if uses_image_type(longer, image_type) {
        let i = choose|i: int| 0 <= i < longer.len() && (#[trigger] longer[i]).image_type == image_type;
        if i < count {
            assert(shorter[i].image_type == image_type);
        }
    }
    if uses_image_type(shorter, image_type) {
        let i = choose|i: int|
            0 <= i < shorter.len() && (#[trigger] shorter[i]).image_type == image_type;
        assert(longer[i].image_type == image_type);
    }
    if media[count].image_type == image_type {
        assert(longer[count].image_type == image_type);
    }
}

/// Whether a dynamic formula was written in one of the worksheets.
pub fn any_dynamic_arrays(sheets: &Vec<Worksheet>) -> (found: bool)
    ensures
        found == uses_dynamic_arrays(sheet_views(sheets@)),
{
    let ghost views = sheet_views(sheets@);
    let mut i: usize = 0;
    while i < sheets.len()
        invariant
            i <= sheets.len(),
            views == sheet_views(sheets@),
            forall|k: int| 0 <= k < i ==> !(#[trigger] views[k]).uses_dynamic_arrays,
        decreases sheets.len() - i,
    {
        if sheets[i].uses_dynamic_arrays() {
            proof {
                assert(views[i as int].uses_dynamic_arrays);
            }
            return true;
        }
        i += 1;
    }
    false
}

/// The number of tables in the worksheets.
pub fn count_tables(sheets: &Vec<Worksheet>) -> (count: u128)
    ensures
        count == tables_among(sheet_views(sheets@), sheets@.len() as int),
{
    let ghost views = sheet_views(sheets@);
    let mut count: u128 = 0;
    let mut i: usize = 0;
    while i < sheets.len()
        invariant
            i <= sheets.len(),
            views == sheet_views(sheets@),
            count == tables_among(views, i as int),
            count <= i * 0x1_0000_0000_0000_0000,
        decreases sheets.len() - i,
    {
        count = count + sheets[i].table_count() as u128;
        i += 1;
    }
    count
}

/// The number of worksheets that hold an image.
pub fn count_drawings(sheets: &Vec<Worksheet>) -> (count: usize)
    ensures
        count == drawings_among(sheet_views(sheets@), sheets@.len() as int),
{
    let ghost views = sheet_views(sheets@);
    let mut count: usize = 0;
    let mut i: usize = 0;
    while i < sheets.len()
        invariant
            i <= sheets.len(),
            views == sheet_views(sheets@),
            count <= i,
            count == drawings_among(views, i as int),
        decreases sheets.len() - i,
    {
        if sheets[i].image_count() > 0 {
            count += 1;
        }
        i += 1;
    }
    count
}

/// For each image of `sheet`, the position of its file among the image
/// files `media` of the workbook.
pub fn sheet_media_positions(media: &Registry<Media>, sheet: &Worksheet) -> (positions: Vec<usize>)
    ensures
        positions@ == media_positions(media.entries(), sheet@),
{
    let mut positions: Vec<usize> = Vec::new();
    let count = sheet.image_count();
    let mut j: usize = 0;
    while j < count
        invariant
            j <= count,
            count == sheet@.images.len(),
            positions@.len() == j,
            forall|k: int|
                0 <= k < j ==> positions@[k] == first_index_of(
                    media.entries(),
                    sheet@.images[k].media,
                ),
        decreases count - j,
    {
        let file = sheet.image_at(j).image.to_media();
        positions.push(media.position_of(&file));
        j += 1;
    }
    proof {
        assert(positions@ =~= media_positions(media.entries(), sheet@));
    }
    positions
}

/// The parts of the worksheets.
fn assemble_sheet_parts(
    sheets: &Vec<Worksheet>,
    strings: &SharedStringTable,
    formats: &Registry<Format>,
    parts: &mut Vec<PackagePart>,
) -> (result: Result<(), XlsxError>)
    requires
        sheets_wf(sheets@),
        strings.strings() == workbook_strings(sheet_views(sheets@)),
        formats.entries() == workbook_formats(sheet_views(sheets@)),
        forall|k: int|
            0 <= k < sheets@.len() ==> strings_known(
                #[trigger] sheet_views(sheets@)[k],
                strings.strings(),
            ),
    ensures
        result is Ok,
        parts_view(final(parts)@) == parts_view(old(parts)@) + Seq::new(
            sheets@.len(),
            |i: int| sheet_part(sheet_views(sheets@), i),
        ),
{
    let ghost views = sheet_views(sheets@);
    let ghost head = parts_view(parts@);
    let mut i: usize = 0;
    while i < sheets.len()
        invariant
            i <= sheets.len(),
            views == sheet_views(sheets@),
            sheets_wf(sheets@),
            strings.strings() == workbook_strings(views),
            formats.entries() == workbook_formats(views),
            forall|k: int| 0 <= k < sheets@.len() ==> strings_known(#[trigger] views[k], strings.strings()),
            parts@.len() == head.len() + i,
            forall|k: int| 0 <= k < head.len() ==> (#[trigger] parts@[k])@ == head[k],
            forall|k: int| 0 <= k < i ==> (#[trigger] parts@[head.len() + k])@ == sheet_part(views, k),
        decreases sheets.len() - i,
    {
        let sheet = &sheets[i];
        proof {
            assert(sheets@[i as int].wf());
            assert(strings_known(views[i as int], strings.strings()));
        }
        let xf = sheet_xf_positions(formats, sheet);
        match sheet.assemble_xml_file(strings, &xf, i == 0) {
            Ok(content) => {
                let name = sheet_part_name(i as u128 + 1);
                parts.push(PackagePart { name, content });
            },
            Err(e) => {
                // The tables were collected from these worksheets.
                return Err(e);
            },
        }
        i += 1;
    }
    proof {
        let sheet_parts = Seq::new(views.len(), |k: int| sheet_part(views, k));
        let expected = head + sheet_parts;
        assert(parts_view(parts@).len() == expected.len());
        assert forall|k: int| 0 <= k < expected.len() implies parts_view(parts@)[k]
            == expected[k] by {
            if k < head.len() {
                assert(parts@[k]@ == head[k]);
            } else {
                assert(parts@[head.len() + (k - head.len())]@ == sheet_part(views, k - head.len()));
                assert(expected[k] == sheet_parts[k - head.len()]);
            }
        }
        assert(parts_view(parts@) =~= expected);
    }
    Ok(())
}

/// The parts that the worksheets have for their images.
fn assemble_drawing_parts(
    sheets: &Vec<Worksheet>,
    media: &Registry<Media>,
    parts: &mut Vec<PackagePart>,
)
    requires
        sheets_wf(sheets@),
        media.entries() == workbook_media(sheet_views(sheets@)),
    ensures
        parts_view(final(parts)@) == parts_view(old(parts)@) + drawing_parts(
            sheet_views(sheets@),
            sheets@.len() as int,
        ),
{
    let ghost views = sheet_views(sheets@);
    let ghost head = parts_view(parts@);
    let mut drawings: usize = 0;
    let mut tables: u128 = 0;
    let mut i: usize = 0;
    proof {
        assert(parts_view(parts@) =~= head + drawing_parts(views, 0));
    }
    while i < sheets.len()
        invariant
            i <= sheets.len(),
            views == sheet_views(sheets@),
            sheets_wf(sheets@),
            media.entries() == workbook_media(views),
            drawings <= i,
            drawings == drawings_among(views, i as int),
            tables == tables_among(views, i as int),
            tables <= i * 0x1_0000_0000_0000_0000,
            parts_view(parts@) == head + drawing_parts(views, i as int),
        decreases sheets.len() - i,
    {
        let sheet = &sheets[i];
        let ghost before = parts_view(parts@);
        proof {
            assert(sheets@[i as int].wf());
        }
        let has_images = sheet.image_count() > 0;
        if has_images {
            drawings += 1;
        }
        let number = drawings as u128;
        let table_count = sheet.table_count();
        proof {
            assert(tables + 1 + table_count <= u128::MAX) by (nonlinear_arith)
                requires
                    tables <= i * 0x1_0000_0000_0000_0000,
                    i < 0xFFFF_FFFF_FFFF_FFFF,
                    table_count <= 0xFFFF_FFFF_FFFF_FFFF,
                    u128::MAX == 0xFFFF_FFFF_FFFF_FFFF_FFFF_FFFF_FFFF_FFFF,
            ;
        }
        if sheet.external_link_count() > 0 || has_images || table_count > 0 {
            let drawing = if has_images {
                Some(number)
            } else {
                None
            };
            parts.push(
                PackagePart {
                    name: sheet_relationships_name(i as u128 + 1),
                    content: assemble_sheet_relationships(sheet, drawing, tables + 1),
                },
            );
        }
        let ghost middle = parts_view(parts@);
        proof {
            assert(middle =~= before + relationship_parts_of(views, i as int));
        }
        if has_images {
            let positions = sheet_media_positions(media, sheet);
            parts.push(
                PackagePart { name: drawing_part_name(number), content: assemble_drawing(sheet) },
            );
            parts.push(
                PackagePart {
                    name: drawing_relationships_name(number),
                    content: assemble_drawing_relationships(sheet, &positions),
                },
            );
        }
        let ghost with_images = parts_view(parts@);
        proof {
            assert(with_images =~= middle + image_parts_of(views, i as int));
        }
        let mut j: usize = 0;
        while j < table_count
            invariant
                j <= table_count,
                table_count == views[i as int].tables.len(),
                i < sheets.len(),
                views == sheet_views(sheets@),
                sheet == &sheets@[i as int],
                sheet.wf(),
                tables == tables_among(views, i as int),
                tables <= i * 0x1_0000_0000_0000_0000,
                parts@.len() == with_images.len() + j,
                forall|k: int|
                    0 <= k < with_images.len() ==> (#[trigger] parts@[k])@ == with_images[k],
                forall|k: int|
                    0 <= k < j ==> (#[trigger] parts@[with_images.len() + k])@ == table_parts_of(
                        views,
                        i as int,
                    )[k],
            decreases table_count - j,
        {
            let number = tables + j as u128 + 1;
            parts.push(
                PackagePart {
                    name: table_part_name(number),
                    content: assemble_table(sheet.table_at(j), number),
                },
            );
            j += 1;
        }
        proof {
            let expected = with_images + table_parts_of(views, i as int);
            assert(parts_view(parts@).len() == expected.len());
            assert forall|k: int| 0 <= k < expected.len() implies parts_view(parts@)[k]
                == expected[k] by {
                if k < with_images.len() {
                    assert(parts@[k]@ == with_images[k]);
                } else {
                    assert(parts@[with_images.len() + (k - with_images.len())]@ == table_parts_of(
                        views,
                        i as int,
                    )[k - with_images.len()]);
                }
            }
            assert(parts_view(parts@) =~= expected);
            assert(parts_view(parts@) =~= before + drawing_parts_of(views, i as int));
            assert(parts_view(parts@) =~= head + drawing_parts(views, i + 1));
        }
        tables = tables + table_count as u128;
        i += 1;
    }
}

/// The image files as files of the package.
fn assemble_media_parts(media: &Registry<Media>) -> (files: Vec<MediaPart>)
    ensures
        media_view(files@) == media_parts(media.entries()),
{
    let mut files: Vec<MediaPart> = Vec::new();
    let mut i: usize = 0;
    while i < media.len()
        invariant
            i <= media.entries().len(),
            files@.len() == i,
            forall|k: int|
                0 <= k < i ==> (#[trigger] files@[k])@ == media_parts(media.entries())[k],
        decreases media.entries().len() - i,
    {
        let file = media.get(i).duplicate();
        files.push(
            MediaPart { name: media_part_name(i as u128 + 1, file.image_type), data: file.data },
        );
        i += 1;
    }
    proof {
        assert(media_view(files@) =~= media_parts(media.entries()));
    }
    files
}

/// The package of the worksheets `sheets` and the properties `properties`.
///
/// Fails with `SheetnameCannotBeBlank` where a worksheet has no name, and
/// with `SheetnameReused` where two worksheets have the same name, ignoring
/// case. It fails for no other reason: every text of a cell is in the
/// shared-string table that is assembled with the worksheets, and every
/// format of a worksheet is in the format table.
pub fn assemble_package(sheets: &Vec<Worksheet>, properties: &DocProperties) -> (result: Result<
    Package,
    XlsxError,
>)
    requires
        sheets_wf(sheets@),
    ensures
        is_package(sheet_views(sheets@), *properties, result),
{
    match check_names(sheets) {
        Err(e) => {
            return Err(e);
        },
        Ok(_) => {},
    }
    let ghost views = sheet_views(sheets@);
    let strings = collect_workbook_strings(sheets);
    let formats = collect_workbook_formats(sheets);
    let media = collect_workbook_media(sheets);
    let summary = PackageSummary {
        sheets: sheets.len(),
        has_strings: strings.unique_count() > 0,
        image_types: image_types(&media),
        drawings: count_drawings(sheets),
        has_metadata: any_dynamic_arrays(sheets),
        has_custom_properties: properties.custom_properties.len() > 0,
        tables: count_tables(sheets),
    };
    let mut parts = assemble_leading_parts(sheets, properties, &strings, &formats, &summary);
    match assemble_sheet_parts(sheets, &strings, &formats, &mut parts) {
        Err(e) => {
            return Err(e);
        },
        Ok(_) => {},
    }
    assemble_drawing_parts(sheets, &media, &mut parts);
    let files = assemble_media_parts(&media);
    Ok(Package { parts, media: files })
}

/// A workbook.
pub struct Workbook {
    worksheets: Vec<Worksheet>,
    properties: DocProperties,
}

impl Workbook {
    /// The worksheets of the workbook, in order.
    pub closed spec fn sheets(&self) -> Seq<Worksheet> {
        self.worksheets@
    }

    /// The worksheets of the workbook as plain values.
    pub open spec fn views(&self) -> Seq<WorksheetView> {
        sheet_views(self.sheets())
    }

    /// The properties of the workbook.
    pub closed spec fn properties(&self) -> DocProperties {
        self.properties
    }

    /// Every worksheet is in order.
    pub open spec fn wf(&self) -> bool {
        forall|i: int| 0 <= i < self.sheets().len() ==> (#[trigger] self.sheets()[i]).wf()
    }

    /// A workbook without worksheets, with default properties.
    pub fn new() -> (workbook: Workbook)
        ensures
            workbook.wf(),
            workbook.sheets() == Seq::<Worksheet>::empty(),
    {
        Workbook { worksheets: Vec::new(), properties: DocProperties::new() }
    }

    /// The number of worksheets.
    pub fn worksheet_count(&self) -> (count: usize)
        ensures
            count == self.sheets().len(),
    {
        self.worksheets.len()
    }

    /// Adds `worksheet` as the last worksheet. A worksheet without a name
    /// gets the name `Sheet` with its number, counted from one.
    pub fn push_worksheet(&mut self, worksheet: Worksheet)
        requires
            old(self).wf(),
            worksheet.wf(),
        ensures
            final(self).wf(),
            final(self).properties() == old(self).properties(),
            final(self).sheets().len() == old(self).sheets().len() + 1,
            forall|i: int|
                0 <= i < old(self).sheets().len() ==> final(self).sheets()[i] == old(
                    self,
                ).sheets()[i],
            final(self).sheets().last().serializer() == worksheet.serializer(),
            final(self).sheets().last()@ == (WorksheetView {
                name: if worksheet@.name.len() == 0 {
                    default_sheet_name_text(old(self).sheets().len() + 1)
                } else {
                    worksheet@.name
                },
                ..worksheet@
            }),
    {
        let mut worksheet = worksheet;
        let name = worksheet.name();
        if name.as_str().is_empty() {
            let mut name = "Sheet".to_owned();
            push_decimal(&mut name, self.worksheets.len() as u128 + 1);
            proof {
                lemma_default_sheet_name((self.worksheets.len() + 1) as nat);
            }
            worksheet.set_default_name(name);
        }
        self.worksheets.push(worksheet);
    }

    /// Adds an empty worksheet as the last worksheet, under the name
    /// `Sheet` with its number, counted from one, and hands it out to be
    /// filled.
    pub fn add_worksheet(&mut self) -> (worksheet: &mut Worksheet)
        requires
            old(self).wf(),
        ensures
            worksheet.wf(),
            worksheet@ == (WorksheetView {
                name: default_sheet_name_text(old(self).sheets().len() + 1),
                ..empty_worksheet()
            }),
            final(self).properties() == old(self).properties(),
            final(self).sheets() == old(self).sheets().push(*final(worksheet)),
    {
        self.push_worksheet(Worksheet::new());
        let last = self.worksheets.len() - 1;
        proof {
            assert(self.worksheets@.update(last as int, self.worksheets@[last as int])
                =~= self.worksheets@);
        }
        &mut self.worksheets[last]
    }

    /// The worksheet at `index`, counted from zero.
    pub fn worksheet(&self, index: usize) -> (worksheet: &Worksheet)
        requires
            index < self.sheets().len(),
        ensures
            *worksheet == self.sheets()[index as int],
    {
        &self.worksheets[index]
    }

    /// Takes the worksheet at `index`, counted from zero, out of the
    /// workbook, to change it and to put it back with `replace_worksheet`.
    pub fn replace_worksheet(&mut self, index: usize, worksheet: Worksheet) -> (previous: Worksheet)
        requires
            old(self).wf(),
            worksheet.wf(),
            index < old(self).sheets().len(),
        ensures
            final(self).wf(),
            final(self).properties() == old(self).properties(),
            final(self).sheets() == old(self).sheets().update(index as int, worksheet),
            previous == old(self).sheets()[index as int],
            previous.wf(),
    {
        let mut worksheet = worksheet;
        core::mem::swap(&mut self.worksheets[index], &mut worksheet);
        worksheet
    }

    /// The worksheets that go into the package: those of the workbook, or,
    /// for a workbook without worksheets, one empty worksheet under the
    /// default name.
    pub open spec fn package_views(&self) -> Seq<WorksheetView> {
        if self.views().len() == 0 {
            seq![WorksheetView { name: default_sheet_name_text(1), ..empty_worksheet() }]
        } else {
            self.views()
        }
    }

    /// The package of the workbook. The workbook stays as it is.
    ///
    /// Fails with `SheetnameCannotBeBlank` where a worksheet has no name, and
    /// with `SheetnameReused` where two worksheets have the same name, ignoring
    /// case.
    pub fn assemble(&self) -> (result: Result<Package, XlsxError>)
        requires
            self.wf(),
        ensures
            is_package(self.package_views(), self.properties(), result),
    {
        if self.worksheets.len() == 0 {
            let mut sheets: Vec<Worksheet> = Vec::new();
            let mut sheet = Worksheet::new();
            let mut name = "Sheet".to_owned();
            push_decimal(&mut name, 1);
            proof {
                lemma_default_sheet_name(1);
            }
            sheet.set_default_name(name);
            sheets.push(sheet);
            proof {
                assert(sheet_views(sheets@) =~= self.package_views());
            }
            assemble_package(&sheets, &self.properties)
        } else {
            proof {
                assert(sheet_views(self.worksheets@) =~= self.package_views());
            }
            assemble_package(&self.worksheets, &self.properties)
        }
    }

    /// Sets the properties of the workbook.
    pub fn set_properties(&mut self, properties: DocProperties)
        requires
            old(self).wf(),
        ensures
            final(self).wf(),
            final(self).sheets() == old(self).sheets(),
            final(self).properties() == properties,
    {
        self.properties = properties;
        proof {
            assert(self.sheets() == old(self).sheets());
        }
    }
}

} // verus!
