//! The styles part of a package: the format table of a workbook written out
//! as XML.
//!
//! The part lists fonts, fills, borders and number formats once each, in
//! the order of their first use, and then one entry for each format that
//! refers to them by position.

use vstd::prelude::*;
use vstd::string::*;
use crate::format::{
    Alignment, Border, Color, Fill, Font, FontStyle, FontView, Format, FormatAlign, FormatBorder,
    FormatPattern, FormatUnderline, FormatVerticalAlign, FormatView, Protection,
};
use crate::registry::{first_index_of, registered, Descriptor, Registry};
use crate::utility::{
    decimal_string, decimal_string_of_sum, decimal_text, lemma_append_2, lemma_append_3,
    lemma_append_4, push_char,
};
use crate::worksheet_xml::optional_attributes;
use crate::xmlwriter::{
    attributes_view, declaration_text, empty_tag_text, end_tag_text, start_tag_text, Attribute,
    XMLWriter,
};

verus! {

/// The character for a hexadecimal digit `d` in `0 ..= 15`, in upper case.
pub open spec fn hex_char(d: int) -> char {
    if d < 10 {
        ((48 + d) as u8) as char
    } else {
        ((55 + d) as u8) as char
    }
}

/// The `digits` lowest hexadecimal digits of `value`, highest first.
pub open spec fn hex_text(value: nat, digits: nat) -> Seq<char>
    decreases digits,
{
    if digits == 0 {
        Seq::<char>::empty()
    } else {
        hex_text(value / 16, (digits - 1) as nat).push(hex_char((value % 16) as int))
    }
}

/// Appends the `digits` lowest hexadecimal digits of `value`.
pub fn push_hex(out: &mut String, value: u32, digits: u8)
    ensures
        final(out)@ == old(out)@ + hex_text(value as nat, digits as nat),
    decreases digits,
{
    if digits > 0 {
        push_hex(out, value / 16, digits - 1);
        let d: u8 = (value % 16) as u8;
        let c = if d < 10 {
            (48u8 + d) as char
        } else {
            (55u8 + d) as char
        };
        push_char(out, c);
    }
    proof {
        assert(out@ =~= old(out)@ + hex_text(value as nat, digits as nat));
    }
}

/// A colour as the styles part names it: opaque, by its red, green and blue
/// parts.
pub open spec fn argb_text(color: Color) -> Seq<char> {
    "FF"@ + hex_text(color.rgb_value() as nat, 6)
}

/// The attribute of an element that names a colour: the automatic colour
/// as such, any other by its parts.
pub open spec fn color_attributes(color: Color) -> Seq<(Seq<char>, Seq<char>)> {
    if color == Color::Automatic {
        seq![("auto"@, "1"@)]
    } else {
        seq![("rgb"@, argb_text(color))]
    }
}

/// The attribute of an element that names a colour.
fn color_attributes_of(color: Color) -> (attributes: Vec<Attribute<'static>>)
    ensures
        attributes_view(attributes@) == color_attributes(color),
{
    let attributes: Vec<Attribute<'static>> = match color {
        Color::Automatic => vec![("auto", "1".to_owned())],
        _ => {
            let mut text = "FF".to_owned();
            push_hex(&mut text, color.rgb(), 6);
            proof {
                assert(text@ =~= argb_text(color));
            }
            vec![("rgb", text)]
        },
    };
    proof {
        assert(attributes_view(attributes@) =~= color_attributes(color));
    }
    attributes
}

/// The attribute `val` with the value `value`.
pub open spec fn val_attributes(value: Seq<char>) -> Seq<(Seq<char>, Seq<char>)> {
    seq![("val"@, value)]
}

/// An element that is written only where `present` holds.
pub open spec fn optional_text(present: bool, text: Seq<char>) -> Seq<char> {
    if present {
        text
    } else {
        Seq::<char>::empty()
    }
}

/// The element for the line under the text.
pub open spec fn underline_text(underline: FormatUnderline) -> Seq<char> {
    match underline {
        FormatUnderline::NoUnderline => Seq::<char>::empty(),
        FormatUnderline::Single => empty_tag_text("u"@, Seq::empty()),
        FormatUnderline::Double => empty_tag_text("u"@, val_attributes("double"@)),
        FormatUnderline::SingleAccounting => empty_tag_text(
            "u"@,
            val_attributes("singleAccounting"@),
        ),
        FormatUnderline::DoubleAccounting => empty_tag_text(
            "u"@,
            val_attributes("doubleAccounting"@),
        ),
    }
}

/// The element for the colour of a font; nothing where none is chosen.
pub open spec fn font_color_text(color: Color) -> Seq<char> {
    if color == Color::Default {
        Seq::<char>::empty()
    } else {
        empty_tag_text("color"@, color_attributes(color))
    }
}

/// The elements for the marks of a font: bold, italic, struck through,
/// underlined.
pub open spec fn font_marks_text(style: FontStyle) -> Seq<char> {
    optional_text(style.bold, empty_tag_text("b"@, Seq::empty())) + optional_text(
        style.italic,
        empty_tag_text("i"@, Seq::empty()),
    ) + optional_text(style.strikethrough, empty_tag_text("strike"@, Seq::empty()))
        + underline_text(style.underline)
}

/// The elements for the size, the colour and the name of a font.
pub open spec fn font_face_text(font: FontView) -> Seq<char> {
    empty_tag_text("sz"@, val_attributes(decimal_text(font.style.size as nat))) + font_color_text(
        font.style.color,
    ) + empty_tag_text("name"@, val_attributes(font.name))
}

/// The elements for the family, the character set and the scheme of a
/// font. A family or character set that is left open is not written. The
/// default font belongs to the minor scheme; a font of another name belongs
/// to no scheme.
pub open spec fn font_kind_text(font: FontView) -> Seq<char> {
    optional_text(
        font.style.family != 0,
        empty_tag_text("family"@, val_attributes(decimal_text(font.style.family as nat))),
    ) + optional_text(
        font.style.charset != 0,
        empty_tag_text("charset"@, val_attributes(decimal_text(font.style.charset as nat))),
    ) + optional_text(
        font.name == crate::format::default_font_name(),
        empty_tag_text("scheme"@, val_attributes("minor"@)),
    )
}

/// The elements for the properties of a font other than its marks.
pub open spec fn font_properties_text(font: FontView) -> Seq<char> {
    font_face_text(font) + font_kind_text(font)
}

/// The element of a font.
pub open spec fn font_text(font: FontView) -> Seq<char> {
    start_tag_text("font"@, Seq::empty()) + font_marks_text(font.style) + font_properties_text(
        font,
    ) + end_tag_text("font"@)
}

/// Whether the element of a fill names a colour: a foreground or
/// background colour is chosen, or the fill is solid.
pub open spec fn fill_has_colors(fill: Fill) -> bool {
    fill.foreground_color != Color::Default || fill.background_color != Color::Default
        || fill.pattern == FormatPattern::Solid
}

/// The elements for the colours of a fill. A solid fill without a
/// background colour names the colour of the system as its background.
pub open spec fn fill_colors_text(fill: Fill) -> Seq<char> {
    optional_text(
        fill.foreground_color != Color::Default,
        empty_tag_text("fgColor"@, color_attributes(fill.foreground_color)),
    ) + (if fill.background_color != Color::Default {
        empty_tag_text("bgColor"@, color_attributes(fill.background_color))
    } else if fill.pattern == FormatPattern::Solid {
        empty_tag_text("bgColor"@, seq![("indexed"@, "64"@)])
    } else {
        Seq::<char>::empty()
    })
}

/// The attribute that names the pattern of a fill.
pub open spec fn pattern_attributes(fill: Fill) -> Seq<(Seq<char>, Seq<char>)> {
    seq![("patternType"@, fill.pattern.name_text())]
}

/// The element of a fill, which is given as the part states it (see
/// `Fill::effective`).
pub open spec fn fill_text(fill: Fill) -> Seq<char> {
    start_tag_text("fill"@, Seq::empty()) + (if fill_has_colors(fill) {
        start_tag_text("patternFill"@, pattern_attributes(fill)) + fill_colors_text(fill)
            + end_tag_text("patternFill"@)
    } else {
        empty_tag_text("patternFill"@, pattern_attributes(fill))
    }) + end_tag_text("fill"@)
}

/// The element of one side of a border: empty where the side has no line,
/// else the line with its colour, the automatic colour where none is
/// chosen.
pub open spec fn border_side_text(side: Seq<char>, line: FormatBorder, color: Color) -> Seq<char> {
    if line == FormatBorder::NoBorder {
        empty_tag_text(side, Seq::empty())
    } else {
        start_tag_text(side, seq![("style"@, line.name_text())]) + empty_tag_text(
            "color"@,
            if color == Color::Default {
                color_attributes(Color::Automatic)
            } else {
                color_attributes(color)
            },
        ) + end_tag_text(side)
    }
}

/// The element of a border.
pub open spec fn border_text(border: Border) -> Seq<char> {
    start_tag_text("border"@, Seq::empty()) + border_side_text(
        "left"@,
        border.left,
        border.left_color,
    ) + border_side_text("right"@, border.right, border.right_color) + border_side_text(
        "top"@,
        border.top,
        border.top_color,
    ) + border_side_text("bottom"@, border.bottom, border.bottom_color) + empty_tag_text(
        "diagonal"@,
        Seq::empty(),
    ) + end_tag_text("border"@)
}

/// The number that names the first number format of a workbook's own.
pub const FIRST_CUSTOM_NUM_FORMAT: usize = 164;

/// The element of the `index`-th number format of a workbook's own.
pub open spec fn num_format_text(index: nat, code: Seq<char>) -> Seq<char> {
    empty_tag_text(
        "numFmt"@,
        seq![("numFmtId"@, decimal_text(FIRST_CUSTOM_NUM_FORMAT as nat + index)), ("formatCode"@, code)],
    )
}

/// The fill without pattern, which every workbook lists first.
pub open spec fn no_fill() -> Fill {
    Fill {
        pattern: FormatPattern::NoPattern,
        foreground_color: Color::Default,
        background_color: Color::Default,
    }
}

/// The grey fill, which every workbook lists second.
pub open spec fn gray_fill() -> Fill {
    Fill {
        pattern: FormatPattern::Gray125,
        foreground_color: Color::Default,
        background_color: Color::Default,
    }
}

/// The tables of a styles part.
pub struct StyleTablesView {
    pub num_formats: Seq<Seq<char>>,
    pub fonts: Seq<FontView>,
    pub fills: Seq<Fill>,
    pub borders: Seq<Border>,
}

/// The tables before any format is listed: the two fills that every
/// workbook lists, and nothing else.
pub open spec fn initial_tables() -> StyleTablesView {
    StyleTablesView {
        num_formats: Seq::empty(),
        fonts: Seq::empty(),
        fills: seq![no_fill(), gray_fill()],
        borders: Seq::empty(),
    }
}

/// The tables after the parts of `format` are listed, each where an equal
/// one is not listed yet. The general number format is not listed.
pub open spec fn tables_with(tables: StyleTablesView, format: FormatView) -> StyleTablesView {
    StyleTablesView {
        num_formats: if format.num_format.len() == 0 {
            tables.num_formats
        } else {
            registered(tables.num_formats, format.num_format)
        },
        fonts: registered(tables.fonts, format.font),
        fills: registered(tables.fills, format.fill.effective()),
        borders: registered(tables.borders, format.border),
    }
}

/// The tables of the formats `formats`, listed in order.
pub open spec fn tables_of(formats: Seq<FormatView>) -> StyleTablesView
    decreases formats.len(),
{
    if formats.len() == 0 {
        initial_tables()
    } else {
        tables_with(tables_of(formats.drop_last()), formats.last())
    }
}

/// The number that names the number format of `format`: 0 for the general
/// format, else the number of the format in the table of the workbook's
/// own.
pub open spec fn num_format_id(tables: StyleTablesView, format: FormatView) -> nat {
    if format.num_format.len() == 0 {
        0
    } else {
        (FIRST_CUSTOM_NUM_FORMAT + first_index_of(tables.num_formats, format.num_format)) as nat
    }
}

/// The default alignment.
pub open spec fn default_alignment() -> Alignment {
    Alignment {
        horizontal: FormatAlign::General,
        vertical: FormatVerticalAlign::Bottom,
        text_wrap: false,
    }
}

/// The default protection.
pub open spec fn default_protection() -> Protection {
    Protection { locked: true, hidden: false }
}

/// The attributes of the entry of a format: the positions of its parts in
/// the tables, and for each part that is not the first of its table a flag
/// that says that the part applies.
pub open spec fn xf_attributes(tables: StyleTablesView, format: FormatView) -> Seq<
    (Seq<char>, Seq<char>),
> {
    let num_format = num_format_id(tables, format);
    let font = first_index_of(tables.fonts, format.font);
    let fill = first_index_of(tables.fills, format.fill.effective());
    let border = first_index_of(tables.borders, format.border);
    seq![
        ("numFmtId"@, decimal_text(num_format)),
        ("fontId"@, decimal_text(font as nat)),
        ("fillId"@, decimal_text(fill as nat)),
        ("borderId"@, decimal_text(border as nat)),
        ("xfId"@, "0"@),
    ] + optional_attributes(num_format != 0, seq![("applyNumberFormat"@, "1"@)])
        + optional_attributes(font != 0, seq![("applyFont"@, "1"@)]) + optional_attributes(
        fill != 0,
        seq![("applyFill"@, "1"@)],
    ) + optional_attributes(border != 0, seq![("applyBorder"@, "1"@)]) + optional_attributes(
        format.alignment != default_alignment(),
        seq![("applyAlignment"@, "1"@)],
    ) + optional_attributes(format.protection != default_protection(), seq![("applyProtection"@, "1"@)])
}

/// The attributes of the element for an alignment: each property that is
/// not the default.
pub open spec fn alignment_attributes(alignment: Alignment) -> Seq<(Seq<char>, Seq<char>)> {
    optional_attributes(
        alignment.horizontal != FormatAlign::General,
        seq![("horizontal"@, alignment.horizontal.name_text())],
    ) + optional_attributes(
        alignment.vertical != FormatVerticalAlign::Bottom,
        seq![("vertical"@, alignment.vertical.name_text())],
    ) + optional_attributes(alignment.text_wrap, seq![("wrapText"@, "1"@)])
}

/// The attributes of the element for a protection: each property that is
/// not the default.
pub open spec fn protection_attributes(protection: Protection) -> Seq<(Seq<char>, Seq<char>)> {
    optional_attributes(!protection.locked, seq![("locked"@, "0"@)]) + optional_attributes(
        protection.hidden,
        seq![("hidden"@, "1"@)],
    )
}

/// The entry of a format.
pub open spec fn xf_text(tables: StyleTablesView, format: FormatView) -> Seq<char> {
    let attributes = xf_attributes(tables, format);
    let alignment = format.alignment != default_alignment();
    let protection = format.protection != default_protection();
    if !alignment && !protection {
        empty_tag_text("xf"@, attributes)
    } else {
        start_tag_text("xf"@, attributes) + optional_text(
            alignment,
            empty_tag_text("alignment"@, alignment_attributes(format.alignment)),
        ) + optional_text(
            protection,
            empty_tag_text("protection"@, protection_attributes(format.protection)),
        ) + end_tag_text("xf"@)
    }
}

/// The elements of the number formats `codes` from position `from` on.
pub open spec fn num_format_items_text(codes: Seq<Seq<char>>) -> Seq<char>
    decreases codes.len(),
{
    if codes.len() == 0 {
        Seq::<char>::empty()
    } else {
        num_format_items_text(codes.drop_last()) + num_format_text(
            (codes.len() - 1) as nat,
            codes.last(),
        )
    }
}

/// The elements of the fonts `fonts`, in order.
pub open spec fn font_items_text(fonts: Seq<FontView>) -> Seq<char>
    decreases fonts.len(),
{
    if fonts.len() == 0 {
        Seq::<char>::empty()
    } else {
        font_items_text(fonts.drop_last()) + font_text(fonts.last())
    }
}

/// The elements of the fills `fills`, in order.
pub open spec fn fill_items_text(fills: Seq<Fill>) -> Seq<char>
    decreases fills.len(),
{
    if fills.len() == 0 {
        Seq::<char>::empty()
    } else {
        fill_items_text(fills.drop_last()) + fill_text(fills.last())
    }
}

/// The elements of the borders `borders`, in order.
pub open spec fn border_items_text(borders: Seq<Border>) -> Seq<char>
    decreases borders.len(),
{
    if borders.len() == 0 {
        Seq::<char>::empty()
    } else {
        border_items_text(borders.drop_last()) + border_text(borders.last())
    }
}

/// The entries of the formats `formats`, in order.
pub open spec fn xf_items_text(tables: StyleTablesView, formats: Seq<FormatView>) -> Seq<char>
    decreases formats.len(),
{
    if formats.len() == 0 {
        Seq::<char>::empty()
    } else {
        xf_items_text(tables, formats.drop_last()) + xf_text(tables, formats.last())
    }
}

/// The attribute `count` with the number `count`.
pub open spec fn count_attributes(count: nat) -> Seq<(Seq<char>, Seq<char>)> {
    seq![("count"@, decimal_text(count))]
}

/// A table of the styles part: the element `tag` with the number of its
/// entries, around the entries.
pub open spec fn counted_table_text(tag: Seq<char>, count: nat, items: Seq<char>) -> Seq<char> {
    start_tag_text(tag, count_attributes(count)) + items + end_tag_text(tag)
}

/// The tables of the part: number formats, where the workbook has its own;
/// fonts; fills; borders.
pub open spec fn style_tables_text(tables: StyleTablesView) -> Seq<char> {
    optional_text(
        tables.num_formats.len() > 0,
        counted_table_text(
            "numFmts"@,
            tables.num_formats.len(),
            num_format_items_text(tables.num_formats),
        ),
    ) + counted_table_text("fonts"@, tables.fonts.len(), font_items_text(tables.fonts))
        + counted_table_text("fills"@, tables.fills.len(), fill_items_text(tables.fills))
        + counted_table_text("borders"@, tables.borders.len(), border_items_text(tables.borders))
}

/// The entry of the one cell style, `Normal`, on which every format is
/// based.
pub open spec fn cell_style_xfs_text() -> Seq<char> {
    counted_table_text(
        "cellStyleXfs"@,
        1,
        empty_tag_text(
            "xf"@,
            seq![
                ("numFmtId"@, "0"@),
                ("fontId"@, "0"@),
                ("fillId"@, "0"@),
                ("borderId"@, "0"@),
            ],
        ),
    )
}

/// The end of the part: the one cell style, no differential formats, and
/// the default table styles.
pub open spec fn styles_tail_text() -> Seq<char> {
    counted_table_text(
        "cellStyles"@,
        1,
        empty_tag_text(
            "cellStyle"@,
            seq![("name"@, "Normal"@), ("xfId"@, "0"@), ("builtinId"@, "0"@)],
        ),
    ) + empty_tag_text("dxfs"@, count_attributes(0)) + empty_tag_text(
        "tableStyles"@,
        seq![
            ("count"@, "0"@),
            ("defaultTableStyle"@, "TableStyleMedium9"@),
            ("defaultPivotStyle"@, "PivotStyleLight16"@),
        ],
    ) + end_tag_text("styleSheet"@)
}

/// The styles part for the format table `formats`.
#[verifier::opaque]
pub open spec fn styles_xml_text(formats: Seq<FormatView>) -> Seq<char> {
    let tables = tables_of(formats);
    declaration_text() + start_tag_text(
        "styleSheet"@,
        seq![("xmlns"@, "http://schemas.openxmlformats.org/spreadsheetml/2006/main"@)],
    ) + style_tables_text(tables) + cell_style_xfs_text() + counted_table_text(
        "cellXfs"@,
        formats.len(),
        xf_items_text(tables, formats),
    ) + styles_tail_text()
}

/// Writes the element for the line under the text.
fn write_underline(writer: &mut XMLWriter, underline: FormatUnderline)
    ensures
        final(writer)@ == old(writer)@ + underline_text(underline),
{
    match underline {
        FormatUnderline::NoUnderline => {
            proof {
                assert(writer@ =~= old(writer)@ + underline_text(underline));
            }
        },
        FormatUnderline::Single => {
            writer.xml_empty_tag_only("u");
        },
        FormatUnderline::Double => {
            let attributes: Vec<Attribute> = vec![("val", "double".to_owned())];
            proof {
                assert(attributes_view(attributes@) =~= val_attributes("double"@));
            }
            writer.xml_empty_tag("u", &attributes);
        },
        FormatUnderline::SingleAccounting => {
            let attributes: Vec<Attribute> = vec![("val", "singleAccounting".to_owned())];
            proof {
                assert(attributes_view(attributes@) =~= val_attributes("singleAccounting"@));
            }
            writer.xml_empty_tag("u", &attributes);
        },
        FormatUnderline::DoubleAccounting => {
            let attributes: Vec<Attribute> = vec![("val", "doubleAccounting".to_owned())];
            proof {
                assert(attributes_view(attributes@) =~= val_attributes("doubleAccounting"@));
            }
            writer.xml_empty_tag("u", &attributes);
        },
    }
}

/// Writes an element whose one attribute is `val`.
fn write_val(writer: &mut XMLWriter, tag: &str, value: String)
    ensures
        final(writer)@ == old(writer)@ + empty_tag_text(tag@, val_attributes(value@)),
{
    let attributes: Vec<Attribute> = vec![("val", value)];
    proof {
        assert(attributes_view(attributes@) =~= val_attributes(value@));
    }
    writer.xml_empty_tag(tag, &attributes);
}

/// Writes the elements for the marks of a font.
fn write_font_marks(writer: &mut XMLWriter, style: &FontStyle)
    ensures
        final(writer)@ == old(writer)@ + font_marks_text(*style),
{
    if style.bold {
        writer.xml_empty_tag_only("b");
    }
    let ghost a = writer@;
    proof {
        assert(a =~= old(writer)@ + optional_text(style.bold, empty_tag_text("b"@, Seq::empty())));
    }
    if style.italic {
        writer.xml_empty_tag_only("i");
    }
    let ghost b = writer@;
    proof {
        assert(b =~= a + optional_text(style.italic, empty_tag_text("i"@, Seq::empty())));
    }
    if style.strikethrough {
        writer.xml_empty_tag_only("strike");
    }
    let ghost c = writer@;
    proof {
        assert(c =~= b + optional_text(
            style.strikethrough,
            empty_tag_text("strike"@, Seq::empty()),
        ));
    }
    write_underline(writer, style.underline);
    proof {
        assert(writer@ =~= old(writer)@ + font_marks_text(*style));
    }
}

/// Writes the element for the colour of a font.
fn write_font_color(writer: &mut XMLWriter, color: Color)
    ensures
        final(writer)@ == old(writer)@ + font_color_text(color),
{
    match color {
        Color::Default => {
            proof {
                assert(writer@ =~= old(writer)@ + font_color_text(color));
            }
        },
        _ => {
            let attributes = color_attributes_of(color);
            writer.xml_empty_tag("color", &attributes);
        },
    }
}

/// Writes the elements for the family, the character set and the scheme
/// of a font.
fn write_font_kind(writer: &mut XMLWriter, font: &Font)
    ensures
        final(writer)@ == old(writer)@ + font_kind_text(font@),
{
    if font.style.family != 0 {
        write_val(writer, "family", decimal_string(font.style.family as u64));
    }
    let ghost a = writer@;
    proof {
        assert(a =~= old(writer)@ + optional_text(
            font@.style.family != 0,
            empty_tag_text("family"@, val_attributes(decimal_text(font@.style.family as nat))),
        ));
    }
    if font.style.charset != 0 {
        write_val(writer, "charset", decimal_string(font.style.charset as u64));
    }
    let ghost b = writer@;
    proof {
        assert(b =~= a + optional_text(
            font@.style.charset != 0,
            empty_tag_text("charset"@, val_attributes(decimal_text(font@.style.charset as nat))),
        ));
    }
    let default_name = "Calibri".to_owned();
    if font.name == default_name {
        write_val(writer, "scheme", "minor".to_owned());
    }
    proof {
        assert(writer@ =~= b + optional_text(
            font@.name == crate::format::default_font_name(),
            empty_tag_text("scheme"@, val_attributes("minor"@)),
        ));
        lemma_append_3(
            old(writer)@,
            optional_text(
                font@.style.family != 0,
                empty_tag_text("family"@, val_attributes(decimal_text(font@.style.family as nat))),
            ),
            optional_text(
                font@.style.charset != 0,
                empty_tag_text(
                    "charset"@,
                    val_attributes(decimal_text(font@.style.charset as nat)),
                ),
            ),
            optional_text(
                font@.name == crate::format::default_font_name(),
                empty_tag_text("scheme"@, val_attributes("minor"@)),
            ),
        );
    }
}

/// Writes the elements for the properties of a font other than its marks.
fn write_font_properties(writer: &mut XMLWriter, font: &Font)
    ensures
        final(writer)@ == old(writer)@ + font_properties_text(font@),
{
    write_val(writer, "sz", decimal_string(font.style.size as u64));
    write_font_color(writer, font.style.color);
    write_val(writer, "name", font.name.clone());
    proof {
        lemma_append_3(
            old(writer)@,
            empty_tag_text("sz"@, val_attributes(decimal_text(font@.style.size as nat))),
            font_color_text(font@.style.color),
            empty_tag_text("name"@, val_attributes(font@.name)),
        );
    }
    write_font_kind(writer, font);
    proof {
        lemma_append_2(old(writer)@, font_face_text(font@), font_kind_text(font@));
    }
}

/// Writes the element of a font.
pub fn write_font(writer: &mut XMLWriter, font: &Font)
    ensures
        final(writer)@ == old(writer)@ + font_text(font@),
{
    writer.xml_start_tag_only("font");
    write_font_marks(writer, &font.style);
    write_font_properties(writer, font);
    writer.xml_end_tag("font");
    proof {
        lemma_append_4(
            old(writer)@,
            start_tag_text("font"@, Seq::empty()),
            font_marks_text(font.style),
            font_properties_text(font@),
            end_tag_text("font"@),
        );
    }
}

/// Writes the elements for the colours of a fill.
fn write_fill_colors(writer: &mut XMLWriter, fill: &Fill)
    ensures
        final(writer)@ == old(writer)@ + fill_colors_text(*fill),
{
    if fill.foreground_color.is_set() {
        let attributes = color_attributes_of(fill.foreground_color);
        writer.xml_empty_tag("fgColor", &attributes);
    }
    let ghost a = writer@;
    proof {
        assert(a =~= old(writer)@ + optional_text(
            fill.foreground_color != Color::Default,
            empty_tag_text("fgColor"@, color_attributes(fill.foreground_color)),
        ));
    }
    if fill.background_color.is_set() {
        let attributes = color_attributes_of(fill.background_color);
        writer.xml_empty_tag("bgColor", &attributes);
    } else if fill.pattern == FormatPattern::Solid {
        let attributes: Vec<Attribute> = vec![("indexed", "64".to_owned())];
        proof {
            assert(attributes_view(attributes@) =~= seq![("indexed"@, "64"@)]);
        }
        writer.xml_empty_tag("bgColor", &attributes);
    }
    proof {
        assert(writer@ =~= old(writer)@ + fill_colors_text(*fill));
    }
}

/// Writes the element of a fill, which is given as the part states it.
pub fn write_fill(writer: &mut XMLWriter, fill: &Fill)
    ensures
        final(writer)@ == old(writer)@ + fill_text(*fill),
{
    writer.xml_start_tag_only("fill");
    let ghost a = writer@;
    let pattern: Vec<Attribute> = vec![("patternType", fill.pattern.name().to_owned())];
    proof {
        assert(attributes_view(pattern@) =~= pattern_attributes(*fill));
    }
    if fill.foreground_color.is_set() || fill.background_color.is_set() || fill.pattern
        == FormatPattern::Solid {
        writer.xml_start_tag("patternFill", &pattern);
        write_fill_colors(writer, fill);
        writer.xml_end_tag("patternFill");
        proof {
            assert(writer@ =~= a + (start_tag_text("patternFill"@, pattern_attributes(*fill))
                + fill_colors_text(*fill) + end_tag_text("patternFill"@)));
        }
    } else {
        writer.xml_empty_tag("patternFill", &pattern);
    }
    writer.xml_end_tag("fill");
    proof {
        assert(writer@ =~= old(writer)@ + fill_text(*fill));
    }
}

/// Writes the element of one side of a border.
fn write_border_side(writer: &mut XMLWriter, side: &str, line: FormatBorder, color: Color)
    ensures
        final(writer)@ == old(writer)@ + border_side_text(side@, line, color),
{
    match line {
        FormatBorder::NoBorder => {
            writer.xml_empty_tag_only(side);
        },
        _ => {
            let attributes: Vec<Attribute> = vec![("style", line.name().to_owned())];
            proof {
                assert(attributes_view(attributes@) =~= seq![("style"@, line.name_text())]);
            }
            writer.xml_start_tag(side, &attributes);
            let shown = match color {
                Color::Default => Color::Automatic,
                _ => color,
            };
            let attributes = color_attributes_of(shown);
            writer.xml_empty_tag("color", &attributes);
            writer.xml_end_tag(side);
        },
    }
    proof {
        assert(writer@ =~= old(writer)@ + border_side_text(side@, line, color));
    }
}

/// Writes the element of a border.
pub fn write_border(writer: &mut XMLWriter, border: &Border)
    ensures
        final(writer)@ == old(writer)@ + border_text(*border),
{
    writer.xml_start_tag_only("border");
    write_border_side(writer, "left", border.left, border.left_color);
    write_border_side(writer, "right", border.right, border.right_color);
    write_border_side(writer, "top", border.top, border.top_color);
    write_border_side(writer, "bottom", border.bottom, border.bottom_color);
    writer.xml_empty_tag_only("diagonal");
    writer.xml_end_tag("border");
    proof {
        assert(writer@ =~= old(writer)@ + border_text(*border));
    }
}

/// The tables of a styles part.
pub struct StyleTables {
    num_formats: Registry<String>,
    fonts: Registry<Font>,
    fills: Registry<Fill>,
    borders: Registry<Border>,
}

impl View for StyleTables {
    type V = StyleTablesView;

    closed spec fn view(&self) -> StyleTablesView {
        StyleTablesView {
            num_formats: self.num_formats.entries(),
            fonts: self.fonts.entries(),
            fills: self.fills.entries(),
            borders: self.borders.entries(),
        }
    }
}

impl StyleTables {
    /// No table holds an entry twice.
    pub closed spec fn wf(&self) -> bool {
        self.num_formats.wf() && self.fonts.wf() && self.fills.wf() && self.borders.wf()
    }

    /// The tables of the formats of `formats`, listed in order.
    pub fn new(formats: &Registry<Format>) -> (tables: StyleTables)
        ensures
            tables.wf(),
            tables@ == tables_of(formats.entries()),
    {
        let mut tables = StyleTables {
            num_formats: Registry::new(),
            fonts: Registry::new(),
            fills: Registry::new(),
            borders: Registry::new(),
        };
        let none = Fill {
            pattern: FormatPattern::NoPattern,
            foreground_color: Color::Default,
            background_color: Color::Default,
        };
        let gray = Fill {
            pattern: FormatPattern::Gray125,
            foreground_color: Color::Default,
            background_color: Color::Default,
        };
        tables.fills.register(&none);
        tables.fills.register(&gray);
        let ghost all = formats.entries();
        proof {
            assert(tables.fills.entries() =~= seq![no_fill(), gray_fill()]);
            assert(all.take(0) =~= Seq::<FormatView>::empty());
        }
        let count = formats.len();
        let mut i: usize = 0;
        while i < count
            invariant
                i <= count,
                count == all.len(),
                all == formats.entries(),
                tables.wf(),
                tables@ == tables_of(all.take(i as int)),
            decreases count - i,
        {
            let format = formats.get(i);
            proof {
                assert(all.take(i + 1).drop_last() =~= all.take(i as int));
                assert(all.take(i + 1).last() == format@);
            }
            if !format.num_format.as_str().is_empty() {
                tables.num_formats.register(&format.num_format);
            }
            tables.fonts.register(&format.font);
            let fill = format.fill.normalized();
            tables.fills.register(&fill);
            tables.borders.register(&format.border);
            i += 1;
        }
        proof {
            assert(all.take(count as int) =~= all);
        }
        tables
    }

    /// Writes the table of the number formats, where there is one.
    fn write_num_formats(&self, writer: &mut XMLWriter)
        ensures
            final(writer)@ == old(writer)@ + optional_text(
                self@.num_formats.len() > 0,
                counted_table_text(
                    "numFmts"@,
                    self@.num_formats.len(),
                    num_format_items_text(self@.num_formats),
                ),
            ),
    {
        let count = self.num_formats.len();
        if count == 0 {
            proof {
                assert(writer@ =~= old(writer)@ + Seq::<char>::empty());
            }
            return ;
        }
        let attributes: Vec<Attribute> = vec![("count", decimal_string(count as u64))];
        proof {
            assert(attributes_view(attributes@) =~= count_attributes(count as nat));
        }
        writer.xml_start_tag("numFmts", &attributes);
        let ghost inner = writer@;
        let ghost codes = self.num_formats.entries();
        let mut i: usize = 0;
        proof {
            assert(codes.take(0) =~= Seq::<Seq<char>>::empty());
            assert(writer@ =~= inner + num_format_items_text(codes.take(0)));
        }
        while i < count
            invariant
                i <= count,
                count == codes.len(),
                codes == self.num_formats.entries(),
                writer@ == inner + num_format_items_text(codes.take(i as int)),
            decreases count - i,
        {
            let ghost before = writer@;
            let attributes: Vec<Attribute> = vec![
                ("numFmtId", decimal_string_of_sum(FIRST_CUSTOM_NUM_FORMAT, i)),
                ("formatCode", self.num_formats.get(i).clone()),
            ];
            proof {
                assert(attributes_view(attributes@) =~= seq![
                    ("numFmtId"@, decimal_text(FIRST_CUSTOM_NUM_FORMAT as nat + i as nat)),
                    ("formatCode"@, codes[i as int]),
                ]);
            }
            writer.xml_empty_tag("numFmt", &attributes);
            proof {
                assert(codes.take(i + 1).drop_last() =~= codes.take(i as int));
                assert(codes.take(i + 1).last() == codes[i as int]);
                assert(writer@ == before + num_format_text(i as nat, codes[i as int]));
                assert(writer@ =~= inner + num_format_items_text(codes.take(i + 1)));
            }
            i += 1;
        }
        proof {
            assert(codes.take(count as int) =~= codes);
        }
        writer.xml_end_tag("numFmts");
        proof {
            assert(writer@ =~= old(writer)@ + counted_table_text(
                "numFmts"@,
                self@.num_formats.len(),
                num_format_items_text(self@.num_formats),
            ));
        }
    }

    /// Writes the table of the fonts.
    fn write_fonts(&self, writer: &mut XMLWriter)
        ensures
            final(writer)@ == old(writer)@ + counted_table_text(
                "fonts"@,
                self@.fonts.len(),
                font_items_text(self@.fonts),
            ),
    {
        let count = self.fonts.len();
        let attributes: Vec<Attribute> = vec![("count", decimal_string(count as u64))];
        proof {
            assert(attributes_view(attributes@) =~= count_attributes(count as nat));
        }
        writer.xml_start_tag("fonts", &attributes);
        let ghost inner = writer@;
        let ghost fonts = self.fonts.entries();
        let mut i: usize = 0;
        proof {
            assert(fonts.take(0) =~= Seq::<FontView>::empty());
            assert(writer@ =~= inner + font_items_text(fonts.take(0)));
        }
        while i < count
            invariant
                i <= count,
                count == fonts.len(),
                fonts == self.fonts.entries(),
                writer@ == inner + font_items_text(fonts.take(i as int)),
            decreases count - i,
        {
            write_font(writer, self.fonts.get(i));
            proof {
                assert(fonts.take(i + 1).drop_last() =~= fonts.take(i as int));
                assert(fonts.take(i + 1).last() == fonts[i as int]);
                assert(writer@ =~= inner + font_items_text(fonts.take(i + 1)));
            }
            i += 1;
        }
        proof {
            assert(fonts.take(count as int) =~= fonts);
        }
        writer.xml_end_tag("fonts");
        proof {
            assert(writer@ =~= old(writer)@ + counted_table_text(
                "fonts"@,
                self@.fonts.len(),
                font_items_text(self@.fonts),
            ));
        }
    }

    /// Writes the table of the fills.
    fn write_fills(&self, writer: &mut XMLWriter)
        ensures
            final(writer)@ == old(writer)@ + counted_table_text(
                "fills"@,
                self@.fills.len(),
                fill_items_text(self@.fills),
            ),
    {
        let count = self.fills.len();
        let attributes: Vec<Attribute> = vec![("count", decimal_string(count as u64))];
        proof {
            assert(attributes_view(attributes@) =~= count_attributes(count as nat));
        }
        writer.xml_start_tag("fills", &attributes);
        let ghost inner = writer@;
        let ghost fills = self.fills.entries();
        let mut i: usize = 0;
        proof {
            assert(fills.take(0) =~= Seq::<Fill>::empty());
            assert(writer@ =~= inner + fill_items_text(fills.take(0)));
        }
        while i < count
            invariant
                i <= count,
                count == fills.len(),
                fills == self.fills.entries(),
                writer@ == inner + fill_items_text(fills.take(i as int)),
            decreases count - i,
        {
            write_fill(writer, self.fills.get(i));
            proof {
                assert(fills.take(i + 1).drop_last() =~= fills.take(i as int));
                assert(fills.take(i + 1).last() == fills[i as int]);
                assert(writer@ =~= inner + fill_items_text(fills.take(i + 1)));
            }
            i += 1;
        }
        proof {
            assert(fills.take(count as int) =~= fills);
        }
        writer.xml_end_tag("fills");
        proof {
            assert(writer@ =~= old(writer)@ + counted_table_text(
                "fills"@,
                self@.fills.len(),
                fill_items_text(self@.fills),
            ));
        }
    }

    /// Writes the table of the borders.
    fn write_borders(&self, writer: &mut XMLWriter)
        ensures
            final(writer)@ == old(writer)@ + counted_table_text(
                "borders"@,
                self@.borders.len(),
                border_items_text(self@.borders),
            ),
    {
        let count = self.borders.len();
        let attributes: Vec<Attribute> = vec![("count", decimal_string(count as u64))];
        proof {
            assert(attributes_view(attributes@) =~= count_attributes(count as nat));
        }
        writer.xml_start_tag("borders", &attributes);
        let ghost inner = writer@;
        let ghost borders = self.borders.entries();
        let mut i: usize = 0;
        proof {
            assert(borders.take(0) =~= Seq::<Border>::empty());
            assert(writer@ =~= inner + border_items_text(borders.take(0)));
        }
        while i < count
            invariant
                i <= count,
                count == borders.len(),
                borders == self.borders.entries(),
                writer@ == inner + border_items_text(borders.take(i as int)),
            decreases count - i,
        {
            write_border(writer, self.borders.get(i));
            proof {
                assert(borders.take(i + 1).drop_last() =~= borders.take(i as int));
                assert(borders.take(i + 1).last() == borders[i as int]);
                assert(writer@ =~= inner + border_items_text(borders.take(i + 1)));
            }
            i += 1;
        }
        proof {
            assert(borders.take(count as int) =~= borders);
        }
        writer.xml_end_tag("borders");
        proof {
            assert(writer@ =~= old(writer)@ + counted_table_text(
                "borders"@,
                self@.borders.len(),
                border_items_text(self@.borders),
            ));
        }
    }

    /// Writes the tables.
    pub fn write_tables(&self, writer: &mut XMLWriter)
        ensures
            final(writer)@ == old(writer)@ + style_tables_text(self@),
    {
        self.write_num_formats(writer);
        self.write_fonts(writer);
        self.write_fills(writer);
        self.write_borders(writer);
        proof {
            assert(writer@ =~= old(writer)@ + style_tables_text(self@));
        }
    }

    /// Writes the entries of the formats of `formats`.
    pub fn write_cell_xfs(&self, writer: &mut XMLWriter, formats: &Registry<Format>)
        ensures
            final(writer)@ == old(writer)@ + counted_table_text(
                "cellXfs"@,
                formats.entries().len(),
                xf_items_text(self@, formats.entries()),
            ),
    {
        let ghost all = formats.entries();
        let count = formats.len();
        let attributes: Vec<Attribute> = vec![("count", decimal_string(count as u64))];
        proof {
            assert(attributes_view(attributes@) =~= count_attributes(count as nat));
        }
        writer.xml_start_tag("cellXfs", &attributes);
        let ghost inner = writer@;
        let mut i: usize = 0;
        proof {
            assert(all.take(0) =~= Seq::<FormatView>::empty());
            assert(writer@ =~= inner + xf_items_text(self@, all.take(0)));
        }
        while i < count
            invariant
                i <= count,
                count == all.len(),
                all == formats.entries(),
                writer@ == inner + xf_items_text(self@, all.take(i as int)),
            decreases count - i,
        {
            self.write_xf(writer, formats.get(i));
            proof {
                assert(all.take(i + 1).drop_last() =~= all.take(i as int));
                assert(all.take(i + 1).last() == all[i as int]);
                assert(writer@ =~= inner + xf_items_text(self@, all.take(i + 1)));
            }
            i += 1;
        }
        proof {
            assert(all.take(count as int) =~= all);
        }
        writer.xml_end_tag("cellXfs");
        proof {
            assert(writer@ =~= old(writer)@ + counted_table_text(
                "cellXfs"@,
                all.len(),
                xf_items_text(self@, all),
            ));
        }
    }

    /// The attributes of the entry of a format.
    fn xf_attributes_of(&self, format: &Format) -> (attributes: Vec<Attribute<'static>>)
        ensures
            attributes_view(attributes@) == xf_attributes(self@, format@),
    {
        let font = self.fonts.position_of(&format.font);
        let fill_value = format.fill.normalized();
        let fill = self.fills.position_of(&fill_value);
        let border = self.borders.position_of(&format.border);
        let custom = !format.num_format.as_str().is_empty();
        let num_format = if custom {
            decimal_string_of_sum(
                FIRST_CUSTOM_NUM_FORMAT,
                self.num_formats.position_of(&format.num_format),
            )
        } else {
            decimal_string(0)
        };
        let mut attributes: Vec<Attribute<'static>> = Vec::new();
        attributes.push(("numFmtId", num_format));
        attributes.push(("fontId", decimal_string(font as u64)));
        attributes.push(("fillId", decimal_string(fill as u64)));
        attributes.push(("borderId", decimal_string(border as u64)));
        attributes.push(("xfId", "0".to_owned()));
        let ghost mut expected = seq![
            ("numFmtId"@, decimal_text(num_format_id(self@, format@))),
            ("fontId"@, decimal_text(font as nat)),
            ("fillId"@, decimal_text(fill as nat)),
            ("borderId"@, decimal_text(border as nat)),
            ("xfId"@, "0"@),
        ];
        proof {
            reveal_strlit("0");
            assert("0"@ =~= decimal_text(0)) by {
                assert("0"@.len() == 1);
                assert("0"@[0] == '0');
            }
            assert(attributes_view(attributes@) =~= expected);
        }
        if custom {
            attributes.push(("applyNumberFormat", "1".to_owned()));
            proof {
                expected = expected + seq![("applyNumberFormat"@, "1"@)];
                assert(attributes_view(attributes@) =~= expected);
            }
        }
        if font != 0 {
            attributes.push(("applyFont", "1".to_owned()));
            proof {
                expected = expected + seq![("applyFont"@, "1"@)];
                assert(attributes_view(attributes@) =~= expected);
            }
        }
        if fill != 0 {
            attributes.push(("applyFill", "1".to_owned()));
            proof {
                expected = expected + seq![("applyFill"@, "1"@)];
                assert(attributes_view(attributes@) =~= expected);
            }
        }
        if border != 0 {
            attributes.push(("applyBorder", "1".to_owned()));
            proof {
                expected = expected + seq![("applyBorder"@, "1"@)];
                assert(attributes_view(attributes@) =~= expected);
            }
        }
        if !is_default_alignment(&format.alignment) {
            attributes.push(("applyAlignment", "1".to_owned()));
            proof {
                expected = expected + seq![("applyAlignment"@, "1"@)];
                assert(attributes_view(attributes@) =~= expected);
            }
        }
        if !is_default_protection(&format.protection) {
            attributes.push(("applyProtection", "1".to_owned()));
            proof {
                expected = expected + seq![("applyProtection"@, "1"@)];
                assert(attributes_view(attributes@) =~= expected);
            }
        }
        proof {
            assert(expected =~= xf_attributes(self@, format@));
        }
        attributes
    }

    /// Writes the entry of a format.
    pub fn write_xf(&self, writer: &mut XMLWriter, format: &Format)
        ensures
            final(writer)@ == old(writer)@ + xf_text(self@, format@),
    {
        let attributes = self.xf_attributes_of(format);
        let alignment = !is_default_alignment(&format.alignment);
        let protection = !is_default_protection(&format.protection);
        if !alignment && !protection {
            writer.xml_empty_tag("xf", &attributes);
        } else {
            writer.xml_start_tag("xf", &attributes);
            if alignment {
                let attributes = alignment_attributes_of(&format.alignment);
                writer.xml_empty_tag("alignment", &attributes);
            }
            if protection {
                let attributes = protection_attributes_of(&format.protection);
                writer.xml_empty_tag("protection", &attributes);
            }
            writer.xml_end_tag("xf");
        }
        proof {
            assert(writer@ =~= old(writer)@ + xf_text(self@, format@));
        }
    }
}

/// Whether `alignment` is the default alignment.
fn is_default_alignment(alignment: &Alignment) -> (r: bool)
    ensures
        r == (*alignment == default_alignment()),
{
    alignment.horizontal == FormatAlign::General && alignment.vertical
        == FormatVerticalAlign::Bottom && !alignment.text_wrap
}

/// Whether `protection` is the default protection.
fn is_default_protection(protection: &Protection) -> (r: bool)
    ensures
        r == (*protection == default_protection()),
{
    protection.locked && !protection.hidden
}

/// The attributes of the element for an alignment.
fn alignment_attributes_of(alignment: &Alignment) -> (attributes: Vec<Attribute<'static>>)
    ensures
        attributes_view(attributes@) == alignment_attributes(*alignment),
{
    let mut attributes: Vec<Attribute<'static>> = Vec::new();
    let ghost mut expected = Seq::<(Seq<char>, Seq<char>)>::empty();
    proof {
        assert(attributes_view(attributes@) =~= expected);
    }
    if alignment.horizontal != FormatAlign::General {
        attributes.push(("horizontal", alignment.horizontal.name().to_owned()));
        proof {
            expected = expected + seq![("horizontal"@, alignment.horizontal.name_text())];
            assert(attributes_view(attributes@) =~= expected);
        }
    }
    if alignment.vertical != FormatVerticalAlign::Bottom {
        attributes.push(("vertical", alignment.vertical.name().to_owned()));
        proof {
            expected = expected + seq![("vertical"@, alignment.vertical.name_text())];
            assert(attributes_view(attributes@) =~= expected);
        }
    }
    if alignment.text_wrap {
        attributes.push(("wrapText", "1".to_owned()));
        proof {
            expected = expected + seq![("wrapText"@, "1"@)];
            assert(attributes_view(attributes@) =~= expected);
        }
    }
    proof {
        assert(expected =~= alignment_attributes(*alignment));
    }
    attributes
}

/// The attributes of the element for a protection.
fn protection_attributes_of(protection: &Protection) -> (attributes: Vec<Attribute<'static>>)
    ensures
        attributes_view(attributes@) == protection_attributes(*protection),
{
    let mut attributes: Vec<Attribute<'static>> = Vec::new();
    let ghost mut expected = Seq::<(Seq<char>, Seq<char>)>::empty();
    proof {
        assert(attributes_view(attributes@) =~= expected);
    }
    if !protection.locked {
        attributes.push(("locked", "0".to_owned()));
        proof {
            expected = expected + seq![("locked"@, "0"@)];
            assert(attributes_view(attributes@) =~= expected);
        }
    }
    if protection.hidden {
        attributes.push(("hidden", "1".to_owned()));
        proof {
            expected = expected + seq![("hidden"@, "1"@)];
            assert(attributes_view(attributes@) =~= expected);
        }
    }
    proof {
        assert(expected =~= protection_attributes(*protection));
    }
    attributes
}

/// The styles part of the package for the format table `formats`.
pub fn assemble_styles(formats: &Registry<Format>) -> (text: String)
    ensures
        text@ == styles_xml_text(formats.entries()),
{
    proof {
        reveal(styles_xml_text);
    }
    let tables = StyleTables::new(formats);
    let mut writer = XMLWriter::new();
    writer.xml_declaration();
    let attributes: Vec<Attribute> = vec![
        ("xmlns", "http://schemas.openxmlformats.org/spreadsheetml/2006/main".to_owned()),
    ];
    proof {
        assert(attributes_view(attributes@) =~= seq![
            ("xmlns"@, "http://schemas.openxmlformats.org/spreadsheetml/2006/main"@),
        ]);
    }
    writer.xml_start_tag("styleSheet", &attributes);
    tables.write_tables(&mut writer);
    write_cell_style_xfs(&mut writer);
    tables.write_cell_xfs(&mut writer, formats);
    write_styles_tail(&mut writer);
    let text = writer.read_to_string();
    proof {
        assert(text@ =~= styles_xml_text(formats.entries()));
    }
    text
}

/// Writes the entry of the one cell style on which every format is based.
fn write_cell_style_xfs(writer: &mut XMLWriter)
    ensures
        final(writer)@ == old(writer)@ + cell_style_xfs_text(),
{
    let attributes: Vec<Attribute> = vec![("count", "1".to_owned())];
    proof {
        reveal_strlit("1");
        assert("1"@ =~= decimal_text(1)) by {
            assert("1"@.len() == 1);
            assert("1"@[0] == '1');
        }
        assert(attributes_view(attributes@) =~= count_attributes(1));
    }
    writer.xml_start_tag("cellStyleXfs", &attributes);
    let attributes: Vec<Attribute> = vec![
        ("numFmtId", "0".to_owned()),
        ("fontId", "0".to_owned()),
        ("fillId", "0".to_owned()),
        ("borderId", "0".to_owned()),
    ];
    proof {
        assert(attributes_view(attributes@) =~= seq![
            ("numFmtId"@, "0"@),
            ("fontId"@, "0"@),
            ("fillId"@, "0"@),
            ("borderId"@, "0"@),
        ]);
    }
    writer.xml_empty_tag("xf", &attributes);
    writer.xml_end_tag("cellStyleXfs");
    proof {
        assert(writer@ =~= old(writer)@ + cell_style_xfs_text());
    }
}

/// Writes the end of the styles part.
fn write_styles_tail(writer: &mut XMLWriter)
    ensures
        final(writer)@ == old(writer)@ + styles_tail_text(),
{
    let attributes: Vec<Attribute> = vec![("count", "1".to_owned())];
    proof {
        reveal_strlit("1");
        assert("1"@ =~= decimal_text(1)) by {
            assert("1"@.len() == 1);
            assert("1"@[0] == '1');
        }
        assert(attributes_view(attributes@) =~= count_attributes(1));
    }
    writer.xml_start_tag("cellStyles", &attributes);
    let attributes: Vec<Attribute> = vec![
        ("name", "Normal".to_owned()),
        ("xfId", "0".to_owned()),
        ("builtinId", "0".to_owned()),
    ];
    proof {
        assert(attributes_view(attributes@) =~= seq![
            ("name"@, "Normal"@),
            ("xfId"@, "0"@),
            ("builtinId"@, "0"@),
        ]);
    }
    writer.xml_empty_tag("cellStyle", &attributes);
    writer.xml_end_tag("cellStyles");
    let attributes: Vec<Attribute> = vec![("count", decimal_string(0))];
    proof {
        assert(attributes_view(attributes@) =~= count_attributes(0));
    }
    writer.xml_empty_tag("dxfs", &attributes);
    let attributes: Vec<Attribute> = vec![
        ("count", "0".to_owned()),
        ("defaultTableStyle", "TableStyleMedium9".to_owned()),
        ("defaultPivotStyle", "PivotStyleLight16".to_owned()),
    ];
    proof {
        assert(attributes_view(attributes@) =~= seq![
            ("count"@, "0"@),
            ("defaultTableStyle"@, "TableStyleMedium9"@),
            ("defaultPivotStyle"@, "PivotStyleLight16"@),
        ]);
    }
    writer.xml_empty_tag("tableStyles", &attributes);
    writer.xml_end_tag("styleSheet");
    proof {
        assert(writer@ =~= old(writer)@ + styles_tail_text());
    }
}

} // verus!
