//! The drawing part of a worksheet: where its images lie on the grid, and
//! the part that says so.
//!
//! An image is anchored at a cell, at a distance from the upper left
//! corner of that cell. Where it begins and ends on the grid follows from
//! the widths of the columns and the heights of the rows as they are when
//! the part is written: a column or row without a size of its own has the
//! default size, and a hidden one has no size.

use vstd::prelude::*;
use vstd::string::*;
use crate::image::XlsxImageType;
use crate::packager::{
    relationship_id, relationship_id_text, relationship_text, relationship_type,
    relationship_type_text, relationships_namespace, write_relationship, write_relationships_start,
};
use crate::utility::{
    decimal_string, decimal_text, lemma_append_2, lemma_append_3, lemma_append_4, lemma_append_5,
    push_decimal, ColNum, RowNum, COL_MAX, ROW_MAX,
};
use crate::worksheet::{PlacedImage, PlacedImageView, Worksheet, WorksheetView, EMU_PER_PIXEL};
use crate::xmlwriter::{
    attributes_view, data_element_text, declaration_text, empty_tag_text, end_tag_text,
    start_tag_text, Attribute, XMLWriter,
};

verus! {

/// The width of a column as it is shown, in EMU.
pub open spec fn col_size(view: WorksheetView, col: int) -> nat {
    (Worksheet::col_pixels(view, col as ColNum) * EMU_PER_PIXEL) as nat
}

/// The height of a row as it is shown, in EMU.
pub open spec fn row_size(view: WorksheetView, row: int) -> nat {
    (Worksheet::row_pixels(view, row as RowNum) * EMU_PER_PIXEL) as nat
}

/// The column in which the point lies that is `offset` EMU to the right of
/// the left edge of column `col`, and what is left of the offset inside
/// that column. A point past the last column lies in the last column.
pub open spec fn locate_col(view: WorksheetView, col: int, offset: nat) -> (int, nat)
    decreases COL_MAX - col,
{
    if col < 0 || col >= COL_MAX - 1 || offset < col_size(view, col) {
        (col, offset)
    } else {
        locate_col(view, col + 1, (offset - col_size(view, col)) as nat)
    }
}

/// The row in which the point lies that is `offset` EMU below the upper
/// edge of row `row`, and what is left of the offset inside that row. A
/// point past the last row lies in the last row.
pub open spec fn locate_row(view: WorksheetView, row: int, offset: nat) -> (int, nat)
    decreases ROW_MAX - row,
{
    if row < 0 || row >= ROW_MAX - 1 || offset < row_size(view, row) {
        (row, offset)
    } else {
        locate_row(view, row + 1, (offset - row_size(view, row)) as nat)
    }
}

/// The width of the columns before column `col`, in EMU.
pub open spec fn cols_before(view: WorksheetView, col: int) -> nat
    decreases col,
{
    if col <= 0 {
        0
    } else {
        cols_before(view, col - 1) + col_size(view, col - 1)
    }
}

/// The height of the rows before row `row`, in EMU.
pub open spec fn rows_before(view: WorksheetView, row: int) -> nat
    decreases row,
{
    if row <= 0 {
        0
    } else {
        rows_before(view, row - 1) + row_size(view, row - 1)
    }
}

/// Where an image lies on the grid: the cell in which it begins and the
/// cell in which it ends, each with the distance from the upper left corner
/// of the cell, and the distance of the image from the upper left corner of
/// the worksheet. All distances are in EMU.
#[derive(Clone, Copy, Debug, PartialEq, Eq, Structural)]
pub struct Anchor {
    pub from_col: ColNum,
    pub from_col_offset: u128,
    pub from_row: RowNum,
    pub from_row_offset: u128,
    pub to_col: ColNum,
    pub to_col_offset: u128,
    pub to_row: RowNum,
    pub to_row_offset: u128,
    pub x: u128,
    pub y: u128,
}

/// Where the image `image` lies on the grid of the worksheet `view`.
///
/// The image begins at its distance from the corner of its cell; where
/// that distance is larger than the cell, it begins in a cell further right
/// or further down. It ends as far from its beginning as it is wide and
/// high.
pub open spec fn anchor_of(view: WorksheetView, image: PlacedImageView) -> Anchor {
    let from_col = locate_col(view, image.col as int, (image.x_offset * EMU_PER_PIXEL) as nat);
    let from_row = locate_row(view, image.row as int, (image.y_offset * EMU_PER_PIXEL) as nat);
    let to_col = locate_col(view, from_col.0, (from_col.1 + image.width) as nat);
    let to_row = locate_row(view, from_row.0, (from_row.1 + image.height) as nat);
    Anchor {
        from_col: from_col.0 as ColNum,
        from_col_offset: from_col.1 as u128,
        from_row: from_row.0 as RowNum,
        from_row_offset: from_row.1 as u128,
        to_col: to_col.0 as ColNum,
        to_col_offset: to_col.1 as u128,
        to_row: to_row.0 as RowNum,
        to_row_offset: to_row.1 as u128,
        x: (cols_before(view, from_col.0) + from_col.1) as u128,
        y: (rows_before(view, from_row.0) + from_row.1) as u128,
    }
}

/// A point is located at or after the column from which it is sought, in
/// the grid, and no further from the edge of its column than it was from
/// the edge of that column.
pub proof fn lemma_locate_col(view: WorksheetView, col: int, offset: nat)
    requires
        0 <= col < COL_MAX,
    ensures
        col <= locate_col(view, col, offset).0 < COL_MAX,
        locate_col(view, col, offset).1 <= offset,
    decreases COL_MAX - col,
{
    if col >= COL_MAX - 1 || offset < col_size(view, col) {
    } else {
        lemma_locate_col(view, col + 1, (offset - col_size(view, col)) as nat);
    }
}

/// A point is located at or after the row from which it is sought, in the
/// grid, and no further from the edge of its row than it was from the edge
/// of that row.
pub proof fn lemma_locate_row(view: WorksheetView, row: int, offset: nat)
    requires
        0 <= row < ROW_MAX,
    ensures
        row <= locate_row(view, row, offset).0 < ROW_MAX,
        locate_row(view, row, offset).1 <= offset,
    decreases ROW_MAX - row,
{
    if row >= ROW_MAX - 1 || offset < row_size(view, row) {
    } else {
        lemma_locate_row(view, row + 1, (offset - row_size(view, row)) as nat);
    }
}

/// A length in pixels as a length in EMU.
pub fn pixels_to_emu(pixels: u16) -> (emu: u128)
    ensures
        emu == pixels * EMU_PER_PIXEL,
        emu <= 0xFFFF * EMU_PER_PIXEL,
{
    pixels as u128 * 9525
}

/// The column in which a point lies, and what is left of its offset.
pub fn find_col(worksheet: &Worksheet, col: ColNum, offset: u128) -> (place: (ColNum, u128))
    requires
        worksheet.wf(),
        col < COL_MAX,
    ensures
        place.0 as int == locate_col(worksheet@, col as int, offset as nat).0,
        place.1 as nat == locate_col(worksheet@, col as int, offset as nat).1,
        col <= place.0 < COL_MAX,
        place.1 <= offset,
{
    let mut current = col;
    let mut left = offset;
    proof {
        lemma_locate_col(worksheet@, col as int, offset as nat);
    }
    loop
        invariant
            worksheet.wf(),
            col <= current < COL_MAX,
            left <= offset,
            locate_col(worksheet@, current as int, left as nat) == locate_col(
                worksheet@,
                col as int,
                offset as nat,
            ),
        ensures
            current as int == locate_col(worksheet@, col as int, offset as nat).0,
            left as nat == locate_col(worksheet@, col as int, offset as nat).1,
            col <= current < COL_MAX,
            left <= offset,
        decreases COL_MAX - current,
    {
        let size = pixels_to_emu(worksheet.column_pixels(current));
        if current >= COL_MAX - 1 || left < size {
            break ;
        }
        left = left - size;
        current = current + 1;
    }
    (current, left)
}

/// The row in which a point lies, and what is left of its offset.
pub fn find_row(worksheet: &Worksheet, row: RowNum, offset: u128) -> (place: (RowNum, u128))
    requires
        worksheet.wf(),
        row < ROW_MAX,
    ensures
        place.0 as int == locate_row(worksheet@, row as int, offset as nat).0,
        place.1 as nat == locate_row(worksheet@, row as int, offset as nat).1,
        row <= place.0 < ROW_MAX,
        place.1 <= offset,
{
    let mut current = row;
    let mut left = offset;
    loop
        invariant
            worksheet.wf(),
            row <= current < ROW_MAX,
            left <= offset,
            locate_row(worksheet@, current as int, left as nat) == locate_row(
                worksheet@,
                row as int,
                offset as nat,
            ),
        ensures
            current as int == locate_row(worksheet@, row as int, offset as nat).0,
            left as nat == locate_row(worksheet@, row as int, offset as nat).1,
            row <= current < ROW_MAX,
            left <= offset,
        decreases ROW_MAX - current,
    {
        let size = pixels_to_emu(worksheet.row_height_pixels(current));
        if current >= ROW_MAX - 1 || left < size {
            break ;
        }
        left = left - size;
        current = current + 1;
    }
    (current, left)
}

/// The width of the columns before column `col`, in EMU.
pub fn width_before(worksheet: &Worksheet, col: ColNum) -> (width: u128)
    requires
        worksheet.wf(),
    ensures
        width as nat == cols_before(worksheet@, col as int),
        width <= col * 0x1_0000 * EMU_PER_PIXEL,
{
    let mut width: u128 = 0;
    let mut current: ColNum = 0;
    while current < col
        invariant
            worksheet.wf(),
            current <= col,
            width as nat == cols_before(worksheet@, current as int),
            width <= current * 0x1_0000 * EMU_PER_PIXEL,
        decreases col - current,
    {
        width = width + pixels_to_emu(worksheet.column_pixels(current));
        current = current + 1;
    }
    width
}

/// The height of the rows before row `row`, in EMU.
pub fn height_before(worksheet: &Worksheet, row: RowNum) -> (height: u128)
    requires
        worksheet.wf(),
    ensures
        height as nat == rows_before(worksheet@, row as int),
        height <= row * 0x1_0000 * EMU_PER_PIXEL,
{
    let mut height: u128 = 0;
    let mut current: RowNum = 0;
    while current < row
        invariant
            worksheet.wf(),
            current <= row,
            height as nat == rows_before(worksheet@, current as int),
            height <= current * 0x1_0000 * EMU_PER_PIXEL,
        decreases row - current,
    {
        height = height + pixels_to_emu(worksheet.row_height_pixels(current));
        current = current + 1;
    }
    height
}

/// Where the image `image` lies on the grid of the worksheet.
pub fn place_image(worksheet: &Worksheet, image: &PlacedImage) -> (anchor: Anchor)
    requires
        worksheet.wf(),
        Worksheet::in_grid(image.row, image.col),
    ensures
        anchor == anchor_of(worksheet@, image@),
{
    let x_offset: u128 = image.x_offset as u128 * 9525;
    let y_offset: u128 = image.y_offset as u128 * 9525;
    assert(x_offset <= 0xFFFF_FFFF * 9525 && y_offset <= 0xFFFF_FFFF * 9525);
    let from_col = find_col(worksheet, image.col, x_offset);
    let from_row = find_row(worksheet, image.row, y_offset);
    assert(from_col.1 <= 0xFFFF_FFFF * 9525 && from_row.1 <= 0xFFFF_FFFF * 9525);
    let to_col = find_col(worksheet, from_col.0, from_col.1 + image.width as u128);
    let to_row = find_row(worksheet, from_row.0, from_row.1 + image.height as u128);
    let x = width_before(worksheet, from_col.0) + from_col.1;
    let y = height_before(worksheet, from_row.0) + from_row.1;
    Anchor {
        from_col: from_col.0,
        from_col_offset: from_col.1,
        from_row: from_row.0,
        from_row_offset: from_row.1,
        to_col: to_col.0,
        to_col_offset: to_col.1,
        to_row: to_row.0,
        to_row_offset: to_row.1,
        x,
        y,
    }
}

/// The element of one corner of an image: the cell, counted from zero,
/// and the distance from the upper left corner of the cell.
pub open spec fn marker_text(
    tag: Seq<char>,
    col: ColNum,
    col_offset: u128,
    row: RowNum,
    row_offset: u128,
) -> Seq<char> {
    start_tag_text(tag, Seq::empty()) + (data_element_text(
        "xdr:col"@,
        decimal_text(col as nat),
        Seq::empty(),
    ) + data_element_text("xdr:colOff"@, decimal_text(col_offset as nat), Seq::empty())
        + data_element_text("xdr:row"@, decimal_text(row as nat), Seq::empty())
        + data_element_text("xdr:rowOff"@, decimal_text(row_offset as nat), Seq::empty()))
        + end_tag_text(tag)
}

/// The attributes that name the `number`-th picture of a drawing, counted
/// from one: an identifier, a name, and the alternative text where the
/// image has one.
pub open spec fn picture_attributes(number: nat, alt_text: Seq<char>) -> Seq<
    (Seq<char>, Seq<char>),
> {
    if alt_text.len() == 0 {
        seq![("id"@, decimal_text(number + 1)), ("name"@, "Picture "@ + decimal_text(number))]
    } else {
        seq![
            ("id"@, decimal_text(number + 1)),
            ("name"@, "Picture "@ + decimal_text(number)),
            ("descr"@, alt_text),
        ]
    }
}

/// The element that names the `number`-th picture of a drawing.
pub open spec fn picture_name_text(number: nat, alt_text: Seq<char>) -> Seq<char> {
    start_tag_text("xdr:nvPicPr"@, Seq::empty()) + (empty_tag_text(
        "xdr:cNvPr"@,
        picture_attributes(number, alt_text),
    ) + start_tag_text("xdr:cNvPicPr"@, Seq::empty()) + empty_tag_text(
        "a:picLocks"@,
        seq![("noChangeAspect"@, "1"@)],
    ) + end_tag_text("xdr:cNvPicPr"@)) + end_tag_text("xdr:nvPicPr"@)
}

/// The element that fills the `number`-th picture with its image, by the
/// relationship of the drawing to the image.
pub open spec fn picture_fill_text(number: nat) -> Seq<char> {
    start_tag_text("xdr:blipFill"@, Seq::empty()) + (empty_tag_text(
        "a:blip"@,
        seq![
            ("xmlns:r"@, relationship_type_text(Seq::empty())),
            ("r:embed"@, relationship_id_text(number)),
        ],
    ) + start_tag_text("a:stretch"@, Seq::empty()) + empty_tag_text("a:fillRect"@, Seq::empty())
        + end_tag_text("a:stretch"@)) + end_tag_text("xdr:blipFill"@)
}

/// The element for the shape of a picture: its distance from the upper
/// left corner of the worksheet, its size, and its rectangular outline.
pub open spec fn picture_shape_text(anchor: Anchor, width: u64, height: u64) -> Seq<char> {
    start_tag_text("xdr:spPr"@, Seq::empty()) + (start_tag_text("a:xfrm"@, Seq::empty())
        + empty_tag_text(
        "a:off"@,
        seq![("x"@, decimal_text(anchor.x as nat)), ("y"@, decimal_text(anchor.y as nat))],
    ) + empty_tag_text(
        "a:ext"@,
        seq![("cx"@, decimal_text(width as nat)), ("cy"@, decimal_text(height as nat))],
    ) + end_tag_text("a:xfrm"@)) + (start_tag_text("a:prstGeom"@, seq![("prst"@, "rect"@)])
        + empty_tag_text("a:avLst"@, Seq::empty()) + end_tag_text("a:prstGeom"@)) + end_tag_text(
        "xdr:spPr"@,
    )
}

/// The element of the `number`-th image of a drawing: where it lies, and
/// the picture.
#[verifier::opaque]
pub open spec fn anchor_text(view: WorksheetView, image: PlacedImageView, number: nat) -> Seq<
    char,
> {
    let anchor = anchor_of(view, image);
    start_tag_text("xdr:twoCellAnchor"@, seq![("editAs"@, "oneCell"@)]) + (marker_text(
        "xdr:from"@,
        anchor.from_col,
        anchor.from_col_offset,
        anchor.from_row,
        anchor.from_row_offset,
    ) + marker_text(
        "xdr:to"@,
        anchor.to_col,
        anchor.to_col_offset,
        anchor.to_row,
        anchor.to_row_offset,
    )) + (start_tag_text("xdr:pic"@, Seq::empty()) + picture_name_text(number, image.alt_text)
        + picture_fill_text(number) + picture_shape_text(anchor, image.width, image.height)
        + end_tag_text("xdr:pic"@)) + (empty_tag_text("xdr:clientData"@, Seq::empty())
        + end_tag_text("xdr:twoCellAnchor"@))
}

/// The elements of the images `images`, in order.
pub open spec fn anchor_items_text(view: WorksheetView, images: Seq<PlacedImageView>) -> Seq<char>
    decreases images.len(),
{
    if images.len() == 0 {
        Seq::<char>::empty()
    } else {
        anchor_items_text(view, images.drop_last()) + anchor_text(
            view,
            images.last(),
            images.len(),
        )
    }
}

/// The namespaces that the root element of a drawing declares.
pub open spec fn drawing_namespaces() -> Seq<(Seq<char>, Seq<char>)> {
    seq![
        ("xmlns:xdr"@, "http://schemas.openxmlformats.org/drawingml/2006/spreadsheetDrawing"@),
        ("xmlns:a"@, "http://schemas.openxmlformats.org/drawingml/2006/main"@),
    ]
}

/// The drawing part of a worksheet: its images in the order of their
/// insertion.
#[verifier::opaque]
pub open spec fn drawing_xml_text(view: WorksheetView) -> Seq<char> {
    Seq::<char>::empty() + declaration_text() + start_tag_text("xdr:wsDr"@, drawing_namespaces())
        + anchor_items_text(view, view.images) + end_tag_text("xdr:wsDr"@)
}

/// The name of the part of the `number`-th image of a package, counted
/// from one, as a drawing refers to it.
pub open spec fn media_target_text(number: nat, image_type: XlsxImageType) -> Seq<char> {
    "../media/image"@ + decimal_text(number) + "."@ + image_type.extension_text()
}

/// The name of the part of the `number`-th image of a package.
pub open spec fn media_part_name_text(number: nat, image_type: XlsxImageType) -> Seq<char> {
    "xl/media/image"@ + decimal_text(number) + "."@ + image_type.extension_text()
}

/// The relationships of a drawing to its images: the `i`-th relationship
/// leads to the image of the package at `positions[i]`.
pub open spec fn image_relationships_text(images: Seq<PlacedImageView>, positions: Seq<usize>) -> Seq<
    char,
>
    decreases images.len(),
{
    if images.len() == 0 {
        Seq::<char>::empty()
    } else {
        image_relationships_text(images.drop_last(), positions) + relationship_text(
            images.len(),
            relationship_type_text("/image"@),
            media_target_text(
                (positions[images.len() - 1] + 1) as nat,
                images.last().media.image_type,
            ),
        )
    }
}

/// The relationships part of a drawing.
#[verifier::opaque]
pub open spec fn drawing_relationships_xml_text(
    images: Seq<PlacedImageView>,
    positions: Seq<usize>,
) -> Seq<char> {
    Seq::<char>::empty() + declaration_text() + start_tag_text(
        "Relationships"@,
        relationships_namespace(),
    ) + image_relationships_text(images, positions) + end_tag_text("Relationships"@)
}

/// Writes an element whose content is a number.
fn write_number_element(writer: &mut XMLWriter, tag: &str, number: u128)
    ensures
        final(writer)@ == old(writer)@ + data_element_text(
            tag@,
            decimal_text(number as nat),
            Seq::empty(),
        ),
{
    let mut text = String::new();
    push_decimal(&mut text, number);
    proof {
        assert(text@ =~= decimal_text(number as nat));
    }
    writer.xml_data_element_only(tag, text.as_str());
}

/// Writes the element of one corner of an image.
fn write_marker(
    writer: &mut XMLWriter,
    tag: &str,
    col: ColNum,
    col_offset: u128,
    row: RowNum,
    row_offset: u128,
)
    ensures
        final(writer)@ == old(writer)@ + marker_text(tag@, col, col_offset, row, row_offset),
{
    writer.xml_start_tag_only(tag);
    let ghost inner = writer@;
    write_number_element(writer, "xdr:col", col as u128);
    write_number_element(writer, "xdr:colOff", col_offset);
    write_number_element(writer, "xdr:row", row as u128);
    write_number_element(writer, "xdr:rowOff", row_offset);
    proof {
        lemma_append_4(
            inner,
            data_element_text("xdr:col"@, decimal_text(col as nat), Seq::empty()),
            data_element_text("xdr:colOff"@, decimal_text(col_offset as nat), Seq::empty()),
            data_element_text("xdr:row"@, decimal_text(row as nat), Seq::empty()),
            data_element_text("xdr:rowOff"@, decimal_text(row_offset as nat), Seq::empty()),
        );
    }
    let ghost body = data_element_text("xdr:col"@, decimal_text(col as nat), Seq::empty())
        + data_element_text("xdr:colOff"@, decimal_text(col_offset as nat), Seq::empty())
        + data_element_text("xdr:row"@, decimal_text(row as nat), Seq::empty())
        + data_element_text("xdr:rowOff"@, decimal_text(row_offset as nat), Seq::empty());
    writer.xml_end_tag(tag);
    proof {
        lemma_append_3(old(writer)@, start_tag_text(tag@, Seq::empty()), body, end_tag_text(tag@));
    }
}

/// A number as a string.
fn wide_decimal_string(number: u128) -> (text: String)
    ensures
        text@ == decimal_text(number as nat),
{
    let mut text = String::new();
    push_decimal(&mut text, number);
    proof {
        assert(text@ =~= decimal_text(number as nat));
    }
    text
}

/// Writes the element that names a picture.
fn write_picture_name(writer: &mut XMLWriter, number: usize, alt_text: &str)
    ensures
        final(writer)@ == old(writer)@ + picture_name_text(number as nat, alt_text@),
{
    writer.xml_start_tag_only("xdr:nvPicPr");
    let ghost inner = writer@;
    let mut name = "Picture ".to_owned();
    push_decimal(&mut name, number as u128);
    let mut attributes: Vec<Attribute> = Vec::new();
    attributes.push(("id", wide_decimal_string(number as u128 + 1)));
    attributes.push(("name", name));
    if !alt_text.is_empty() {
        attributes.push(("descr", alt_text.to_owned()));
    }
    proof {
        assert(attributes_view(attributes@) =~= picture_attributes(number as nat, alt_text@));
    }
    writer.xml_empty_tag("xdr:cNvPr", &attributes);
    writer.xml_start_tag_only("xdr:cNvPicPr");
    let attributes: Vec<Attribute> = vec![("noChangeAspect", "1".to_owned())];
    proof {
        assert(attributes_view(attributes@) =~= seq![("noChangeAspect"@, "1"@)]);
    }
    writer.xml_empty_tag("a:picLocks", &attributes);
    writer.xml_end_tag("xdr:cNvPicPr");
    let ghost body = empty_tag_text("xdr:cNvPr"@, picture_attributes(number as nat, alt_text@))
        + start_tag_text("xdr:cNvPicPr"@, Seq::empty()) + empty_tag_text(
        "a:picLocks"@,
        seq![("noChangeAspect"@, "1"@)],
    ) + end_tag_text("xdr:cNvPicPr"@);
    proof {
        lemma_append_4(
            inner,
            empty_tag_text("xdr:cNvPr"@, picture_attributes(number as nat, alt_text@)),
            start_tag_text("xdr:cNvPicPr"@, Seq::empty()),
            empty_tag_text("a:picLocks"@, seq![("noChangeAspect"@, "1"@)]),
            end_tag_text("xdr:cNvPicPr"@),
        );
    }
    writer.xml_end_tag("xdr:nvPicPr");
    proof {
        lemma_append_3(
            old(writer)@,
            start_tag_text("xdr:nvPicPr"@, Seq::empty()),
            body,
            end_tag_text("xdr:nvPicPr"@),
        );
    }
}

/// Writes the element that fills a picture with its image.
fn write_picture_fill(writer: &mut XMLWriter, number: usize)
    ensures
        final(writer)@ == old(writer)@ + picture_fill_text(number as nat),
{
    writer.xml_start_tag_only("xdr:blipFill");
    let ghost inner = writer@;
    let attributes: Vec<Attribute> = vec![
        ("xmlns:r", relationship_type("")),
        ("r:embed", relationship_id(number as u128)),
    ];
    proof {
        reveal_strlit("");
        assert(""@ =~= Seq::<char>::empty());
        assert(attributes_view(attributes@) =~= seq![
            ("xmlns:r"@, relationship_type_text(Seq::empty())),
            ("r:embed"@, relationship_id_text(number as nat)),
        ]);
    }
    writer.xml_empty_tag("a:blip", &attributes);
    writer.xml_start_tag_only("a:stretch");
    writer.xml_empty_tag_only("a:fillRect");
    writer.xml_end_tag("a:stretch");
    let ghost body = empty_tag_text(
        "a:blip"@,
        seq![
            ("xmlns:r"@, relationship_type_text(Seq::empty())),
            ("r:embed"@, relationship_id_text(number as nat)),
        ],
    ) + start_tag_text("a:stretch"@, Seq::empty()) + empty_tag_text("a:fillRect"@, Seq::empty())
        + end_tag_text("a:stretch"@);
    proof {
        lemma_append_4(
            inner,
            empty_tag_text(
                "a:blip"@,
                seq![
                    ("xmlns:r"@, relationship_type_text(Seq::empty())),
                    ("r:embed"@, relationship_id_text(number as nat)),
                ],
            ),
            start_tag_text("a:stretch"@, Seq::empty()),
            empty_tag_text("a:fillRect"@, Seq::empty()),
            end_tag_text("a:stretch"@),
        );
    }
    writer.xml_end_tag("xdr:blipFill");
    proof {
        lemma_append_3(
            old(writer)@,
            start_tag_text("xdr:blipFill"@, Seq::empty()),
            body,
            end_tag_text("xdr:blipFill"@),
        );
    }
}

/// Writes the element for the position and the size of a picture.
fn write_picture_transform(writer: &mut XMLWriter, anchor: &Anchor, width: u64, height: u64)
    ensures
        final(writer)@ == old(writer)@ + (start_tag_text("a:xfrm"@, Seq::empty()) + empty_tag_text(
            "a:off"@,
            seq![("x"@, decimal_text(anchor.x as nat)), ("y"@, decimal_text(anchor.y as nat))],
        ) + empty_tag_text(
            "a:ext"@,
            seq![("cx"@, decimal_text(width as nat)), ("cy"@, decimal_text(height as nat))],
        ) + end_tag_text("a:xfrm"@)),
{
    writer.xml_start_tag_only("a:xfrm");
    let attributes: Vec<Attribute> = vec![
        ("x", wide_decimal_string(anchor.x)),
        ("y", wide_decimal_string(anchor.y)),
    ];
    proof {
        assert(attributes_view(attributes@) =~= seq![
            ("x"@, decimal_text(anchor.x as nat)),
            ("y"@, decimal_text(anchor.y as nat)),
        ]);
    }
    writer.xml_empty_tag("a:off", &attributes);
    let attributes: Vec<Attribute> = vec![
        ("cx", decimal_string(width)),
        ("cy", decimal_string(height)),
    ];
    proof {
        assert(attributes_view(attributes@) =~= seq![
            ("cx"@, decimal_text(width as nat)),
            ("cy"@, decimal_text(height as nat)),
        ]);
    }
    writer.xml_empty_tag("a:ext", &attributes);
    writer.xml_end_tag("a:xfrm");
    proof {
        lemma_append_4(
            old(writer)@,
            start_tag_text("a:xfrm"@, Seq::empty()),
            empty_tag_text(
                "a:off"@,
                seq![("x"@, decimal_text(anchor.x as nat)), ("y"@, decimal_text(anchor.y as nat))],
            ),
            empty_tag_text(
                "a:ext"@,
                seq![("cx"@, decimal_text(width as nat)), ("cy"@, decimal_text(height as nat))],
            ),
            end_tag_text("a:xfrm"@),
        );
    }
}

/// Writes the element for the outline of a picture.
fn write_picture_outline(writer: &mut XMLWriter)
    ensures
        final(writer)@ == old(writer)@ + (start_tag_text("a:prstGeom"@, seq![("prst"@, "rect"@)])
            + empty_tag_text("a:avLst"@, Seq::empty()) + end_tag_text("a:prstGeom"@)),
{
    let attributes: Vec<Attribute> = vec![("prst", "rect".to_owned())];
    proof {
        assert(attributes_view(attributes@) =~= seq![("prst"@, "rect"@)]);
    }
    writer.xml_start_tag("a:prstGeom", &attributes);
    writer.xml_empty_tag_only("a:avLst");
    writer.xml_end_tag("a:prstGeom");
    proof {
        lemma_append_3(
            old(writer)@,
            start_tag_text("a:prstGeom"@, seq![("prst"@, "rect"@)]),
            empty_tag_text("a:avLst"@, Seq::empty()),
            end_tag_text("a:prstGeom"@),
        );
    }
}

/// Writes the element for the shape of a picture.
fn write_picture_shape(writer: &mut XMLWriter, anchor: &Anchor, width: u64, height: u64)
    ensures
        final(writer)@ == old(writer)@ + picture_shape_text(*anchor, width, height),
{
    writer.xml_start_tag_only("xdr:spPr");
    write_picture_transform(writer, anchor, width, height);
    write_picture_outline(writer);
    writer.xml_end_tag("xdr:spPr");
    proof {
        lemma_append_4(
            old(writer)@,
            start_tag_text("xdr:spPr"@, Seq::empty()),
            start_tag_text("a:xfrm"@, Seq::empty()) + empty_tag_text(
                "a:off"@,
                seq![("x"@, decimal_text(anchor.x as nat)), ("y"@, decimal_text(anchor.y as nat))],
            ) + empty_tag_text(
                "a:ext"@,
                seq![("cx"@, decimal_text(width as nat)), ("cy"@, decimal_text(height as nat))],
            ) + end_tag_text("a:xfrm"@),
            start_tag_text("a:prstGeom"@, seq![("prst"@, "rect"@)]) + empty_tag_text(
                "a:avLst"@,
                Seq::empty(),
            ) + end_tag_text("a:prstGeom"@),
            end_tag_text("xdr:spPr"@),
        );
    }
}

/// Writes the two corners of an image.
fn write_markers(writer: &mut XMLWriter, anchor: &Anchor)
    ensures
        final(writer)@ == old(writer)@ + (marker_text(
            "xdr:from"@,
            anchor.from_col,
            anchor.from_col_offset,
            anchor.from_row,
            anchor.from_row_offset,
        ) + marker_text(
            "xdr:to"@,
            anchor.to_col,
            anchor.to_col_offset,
            anchor.to_row,
            anchor.to_row_offset,
        )),
{
    write_marker(
        writer,
        "xdr:from",
        anchor.from_col,
        anchor.from_col_offset,
        anchor.from_row,
        anchor.from_row_offset,
    );
    write_marker(
        writer,
        "xdr:to",
        anchor.to_col,
        anchor.to_col_offset,
        anchor.to_row,
        anchor.to_row_offset,
    );
    proof {
        lemma_append_2(
            old(writer)@,
            marker_text(
                "xdr:from"@,
                anchor.from_col,
                anchor.from_col_offset,
                anchor.from_row,
                anchor.from_row_offset,
            ),
            marker_text(
                "xdr:to"@,
                anchor.to_col,
                anchor.to_col_offset,
                anchor.to_row,
                anchor.to_row_offset,
            ),
        );
    }
}

/// Writes the picture of an image.
fn write_picture(
    writer: &mut XMLWriter,
    image: &PlacedImage,
    anchor: &Anchor,
    number: usize,
)
    ensures
        final(writer)@ == old(writer)@ + (start_tag_text("xdr:pic"@, Seq::empty())
            + picture_name_text(number as nat, image@.alt_text) + picture_fill_text(number as nat)
            + picture_shape_text(*anchor, image.width, image.height) + end_tag_text("xdr:pic"@)),
{
    writer.xml_start_tag_only("xdr:pic");
    write_picture_name(writer, number, image.image.alt_text().as_str());
    write_picture_fill(writer, number);
    write_picture_shape(writer, anchor, image.width, image.height);
    writer.xml_end_tag("xdr:pic");
    proof {
        lemma_append_5(
            old(writer)@,
            start_tag_text("xdr:pic"@, Seq::empty()),
            picture_name_text(number as nat, image@.alt_text),
            picture_fill_text(number as nat),
            picture_shape_text(*anchor, image.width, image.height),
            end_tag_text("xdr:pic"@),
        );
    }
}

/// Writes the element of the `number`-th image of a drawing.
fn write_anchor(writer: &mut XMLWriter, worksheet: &Worksheet, image: &PlacedImage, number: usize)
    requires
        worksheet.wf(),
        Worksheet::in_grid(image.row, image.col),
    ensures
        final(writer)@ == old(writer)@ + anchor_text(worksheet@, image@, number as nat),
{
    proof {
        reveal(anchor_text);
    }
    let anchor = place_image(worksheet, image);
    let attributes: Vec<Attribute> = vec![("editAs", "oneCell".to_owned())];
    proof {
        assert(attributes_view(attributes@) =~= seq![("editAs"@, "oneCell"@)]);
    }
    writer.xml_start_tag("xdr:twoCellAnchor", &attributes);
    write_markers(writer, &anchor);
    write_picture(writer, image, &anchor, number);
    let ghost before_end = writer@;
    writer.xml_empty_tag_only("xdr:clientData");
    writer.xml_end_tag("xdr:twoCellAnchor");
    proof {
        lemma_append_2(
            before_end,
            empty_tag_text("xdr:clientData"@, Seq::empty()),
            end_tag_text("xdr:twoCellAnchor"@),
        );
        lemma_append_4(
            old(writer)@,
            start_tag_text("xdr:twoCellAnchor"@, seq![("editAs"@, "oneCell"@)]),
            marker_text(
                "xdr:from"@,
                anchor.from_col,
                anchor.from_col_offset,
                anchor.from_row,
                anchor.from_row_offset,
            ) + marker_text(
                "xdr:to"@,
                anchor.to_col,
                anchor.to_col_offset,
                anchor.to_row,
                anchor.to_row_offset,
            ),
            start_tag_text("xdr:pic"@, Seq::empty()) + picture_name_text(
                number as nat,
                image@.alt_text,
            ) + picture_fill_text(number as nat) + picture_shape_text(
                anchor,
                image.width,
                image.height,
            ) + end_tag_text("xdr:pic"@),
            empty_tag_text("xdr:clientData"@, Seq::empty()) + end_tag_text("xdr:twoCellAnchor"@),
        );
    }
}

/// The drawing part of the worksheet.
pub fn assemble_drawing(worksheet: &Worksheet) -> (text: String)
    requires
        worksheet.wf(),
    ensures
        text@ == drawing_xml_text(worksheet@),
{
    proof {
        reveal(drawing_xml_text);
        worksheet.lemma_wf();
    }
    let ghost view = worksheet@;
    let ghost images = view.images;
    let mut writer = XMLWriter::new();
    writer.xml_declaration();
    let attributes: Vec<Attribute> = vec![
        (
            "xmlns:xdr",
            "http://schemas.openxmlformats.org/drawingml/2006/spreadsheetDrawing".to_owned(),
        ),
        ("xmlns:a", "http://schemas.openxmlformats.org/drawingml/2006/main".to_owned()),
    ];
    proof {
        assert(attributes_view(attributes@) =~= drawing_namespaces());
    }
    writer.xml_start_tag("xdr:wsDr", &attributes);
    let ghost start = writer@;
    let count = worksheet.image_count();
    let mut i: usize = 0;
    proof {
        assert(images.take(0) =~= Seq::<PlacedImageView>::empty());
        assert(writer@ =~= start + anchor_items_text(view, images.take(0)));
    }
    while i < count
        invariant
            i <= count,
            count == images.len(),
            worksheet.wf(),
            view == worksheet@,
            images == view.images,
            forall|k: int|
                0 <= k < images.len() ==> Worksheet::in_grid(
                    (#[trigger] images[k]).row,
                    images[k].col,
                ),
            writer@ == start + anchor_items_text(view, images.take(i as int)),
        decreases count - i,
    {
        let image = worksheet.image_at(i);
        proof {
            assert(Worksheet::in_grid(images[i as int].row, images[i as int].col));
            assert(images.take(i + 1).drop_last() =~= images.take(i as int));
            assert(images.take(i + 1).last() == images[i as int]);
        }
        write_anchor(&mut writer, worksheet, image, i + 1);
        proof {
            lemma_append_2(
                start,
                anchor_items_text(view, images.take(i as int)),
                anchor_text(view, images[i as int], (i + 1) as nat),
            );
        }
        i += 1;
    }
    proof {
        assert(images.take(count as int) =~= images);
    }
    writer.xml_end_tag("xdr:wsDr");
    writer.read_to_string()
}

/// The name of the part of the `number`-th image of a package as a drawing
/// refers to it.
pub fn media_target(number: u128, image_type: XlsxImageType) -> (name: String)
    ensures
        name@ == media_target_text(number as nat, image_type),
{
    let mut name = "../media/image".to_owned();
    push_decimal(&mut name, number);
    name.append(".");
    let extension = image_type.extension();
    name.append(extension.as_str());
    name
}

/// The name of the part of the `number`-th image of a package.
pub fn media_part_name(number: u128, image_type: XlsxImageType) -> (name: String)
    ensures
        name@ == media_part_name_text(number as nat, image_type),
{
    let mut name = "xl/media/image".to_owned();
    push_decimal(&mut name, number);
    name.append(".");
    let extension = image_type.extension();
    name.append(extension.as_str());
    name
}

/// The relationships part of the drawing of the worksheet, where the image
/// at `i` is the image of the package at `positions[i]`.
pub fn assemble_drawing_relationships(worksheet: &Worksheet, positions: &Vec<usize>) -> (text:
    String)
    requires
        positions@.len() == worksheet@.images.len(),
    ensures
        text@ == drawing_relationships_xml_text(worksheet@.images, positions@),
{
    proof {
        reveal(drawing_relationships_xml_text);
    }
    let ghost images = worksheet@.images;
    let mut writer = XMLWriter::new();
    write_relationships_start(&mut writer);
    let ghost start = writer@;
    let count = worksheet.image_count();
    let mut i: usize = 0;
    proof {
        assert(images.take(0) =~= Seq::<PlacedImageView>::empty());
        assert(writer@ =~= start + image_relationships_text(images.take(0), positions@));
    }
    while i < count
        invariant
            i <= count,
            count == images.len(),
            positions@.len() == count,
            images == worksheet@.images,
            writer@ == start + image_relationships_text(images.take(i as int), positions@),
        decreases count - i,
    {
        let image = worksheet.image_at(i);
        proof {
            assert(images.take(i + 1).drop_last() =~= images.take(i as int));
            assert(images.take(i + 1).last() == images[i as int]);
        }
        write_relationship(
            &mut writer,
            i as u128 + 1,
            relationship_type("/image"),
            media_target(positions[i] as u128 + 1, image.image.image_type()),
        );
        proof {
            lemma_append_2(
                start,
                image_relationships_text(images.take(i as int), positions@),
                relationship_text(
                    (i + 1) as nat,
                    relationship_type_text("/image"@),
                    media_target_text(
                        (positions@[i as int] + 1) as nat,
                        images[i as int].media.image_type,
                    ),
                ),
            );
        }
        i += 1;
    }
    proof {
        assert(images.take(count as int) =~= images);
    }
    writer.xml_end_tag("Relationships");
    writer.read_to_string()
}

} // verus!
