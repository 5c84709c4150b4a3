//! The worksheet part of a package: a worksheet written out as XML.
//!
//! The part is a function of the worksheet as a plain value, of the
//! shared-string table and of the positions of the worksheet's formats in
//! the workbook's format table. Rows are written in ascending order, and the
//! cells of a row in ascending order of their columns.

use vstd::prelude::*;
use vstd::string::*;
use crate::conditional_format::{conditional_formats_text, write_conditional_format};
use crate::error::XlsxError;
use crate::packager::{relationship_id, relationship_id_text};
use crate::registry::first_index_of;
use crate::shared_strings::SharedStringTable;
use crate::sorted_map::ascending_keys;
use crate::utility::{
    cell_ref_text, decimal_string, decimal_text, is_power_of_ten, lemma_append_2, lemma_append_3,
    lemma_append_4, lemma_append_5, push_cell_ref, push_range_ref, push_scaled, range_ref_text, scaled_text, ColNum,
    RowNum, COL_MAX, ROW_MAX,
};
use crate::worksheet::{
    links_view as links_view_of, row_wf, CellRange, CellValue, CellValueView, ColOptions,
    HyperlinkView, LinkKind, PageSetup, RowOptions, Worksheet, WorksheetView,
};
use crate::xmlwriter::{
    attributes_view, data_element_text, declaration_text, empty_tag_text, end_tag_text,
    start_tag_text, Attribute, XMLWriter,
};

verus! {

/// The attributes of a cell that say where it is and which style it has:
/// the A1 reference and, for a style other than the default, its position
/// in the workbook's format table.
pub open spec fn reference_attributes(row: RowNum, col: ColNum, style: usize) -> Seq<
    (Seq<char>, Seq<char>),
> {
    if style == 0 {
        seq![("r"@, cell_ref_text(row as nat, col as nat))]
    } else {
        seq![("r"@, cell_ref_text(row as nat, col as nat)), ("s"@, decimal_text(style as nat))]
    }
}

/// The element of a cell.
///
/// A number is written as its numeral. A text is written as its position in
/// the shared-string table, with the type `s`. A truth value is written as
/// `1` or `0`, with the type `b`. A formula is written with the result that
/// it shows; a formula that fills a range names the range, and a dynamic
/// one refers to the metadata of cells. A blank cell has no content.
pub open spec fn cell_text(
    row: RowNum,
    col: ColNum,
    value: CellValueView,
    style: usize,
    strings: Seq<Seq<char>>,
) -> Seq<char> {
    let reference = reference_attributes(row, col, style);
    match value {
        CellValueView::Number(numeral) => start_tag_text("c"@, reference) + data_element_text(
            "v"@,
            numeral,
            Seq::empty(),
        ) + end_tag_text("c"@),
        CellValueView::String(text) => start_tag_text("c"@, reference.push(("t"@, "s"@)))
            + data_element_text(
            "v"@,
            decimal_text(first_index_of(strings, text) as nat),
            Seq::empty(),
        ) + end_tag_text("c"@),
        CellValueView::Boolean(truth) => start_tag_text("c"@, reference.push(("t"@, "b"@)))
            + data_element_text("v"@, if truth {
            "1"@
        } else {
            "0"@
        }, Seq::empty()) + end_tag_text("c"@),
        CellValueView::Formula { formula, result } => start_tag_text("c"@, reference)
            + data_element_text("f"@, formula, Seq::empty()) + data_element_text(
            "v"@,
            result,
            Seq::empty(),
        ) + end_tag_text("c"@),
        CellValueView::ArrayFormula { formula, result, range, dynamic } => start_tag_text(
            "c"@,
            if dynamic {
                reference.push(("cm"@, "1"@))
            } else {
                reference
            },
        ) + data_element_text("f"@, formula, array_attributes(range)) + data_element_text(
            "v"@,
            result,
            Seq::empty(),
        ) + end_tag_text("c"@),
        CellValueView::Blank => empty_tag_text("c"@, reference),
    }
}

/// The attributes of the formula of a cell that fills the range `range`.
pub open spec fn array_attributes(range: CellRange) -> Seq<(Seq<char>, Seq<char>)> {
    seq![
        ("t"@, "array"@),
        (
            "ref"@,
            range_ref_text(
                range.first_row as nat,
                range.first_col as nat,
                range.last_row as nat,
                range.last_col as nat,
            ),
        ),
    ]
}

/// The position, in the format table of the worksheet, of the format that
/// applies to the cell at `(row, col)`: its own format, or else that of its
/// row, or else that of its column.
pub open spec fn effective_xf(view: WorksheetView, row: RowNum, col: ColNum) -> usize {
    let own = view.cells[(row, col)].xf_index;
    if own != 0 {
        own
    } else if Worksheet::row_options(view, row).xf_index != 0 {
        Worksheet::row_options(view, row).xf_index
    } else {
        Worksheet::col_options(view, col).xf_index
    }
}

/// The height of a row of `pixels` pixels in points, as a numeral: three
/// quarters of a point for each pixel.
pub open spec fn row_height_text(pixels: u16) -> Seq<char> {
    scaled_text((pixels * 3) as nat, 4, 25, 10)
}

/// The width of a column of `pixels` pixels in character widths, as a
/// numeral: a character is 7 pixels wide, and the width is cut to a
/// multiple of 1/256.
pub open spec fn col_width_text(pixels: u16) -> Seq<char> {
    scaled_text((pixels * 256 / 7) as nat, 256, 390625, 10_000_000)
}

/// The part of the attributes of a row or column that names a style.
pub open spec fn optional_attributes(present: bool, attributes: Seq<(Seq<char>, Seq<char>)>) -> Seq<
    (Seq<char>, Seq<char>),
> {
    if present {
        attributes
    } else {
        Seq::empty()
    }
}

/// The attributes of a row: its number counted from one, its style, its
/// height, and whether it is hidden.
pub open spec fn row_attributes(row: RowNum, options: RowOptions, style: usize) -> Seq<
    (Seq<char>, Seq<char>),
> {
    seq![("r"@, decimal_text((row + 1) as nat))] + optional_attributes(
        style != 0,
        seq![("s"@, decimal_text(style as nat)), ("customFormat"@, "1"@)],
    ) + optional_attributes(options.custom_height, seq![("ht"@, row_height_text(options.height))])
        + optional_attributes(options.hidden, seq![("hidden"@, "1"@)]) + optional_attributes(
        options.custom_height,
        seq![("customHeight"@, "1"@)],
    ) + outline_attributes(options.level)
}

/// The attribute for the number of groups that a row or a column belongs
/// to; nothing where it belongs to none.
pub open spec fn outline_attributes(level: u8) -> Seq<(Seq<char>, Seq<char>)> {
    optional_attributes(level > 0, seq![("outlineLevel"@, decimal_text(level as nat))])
}

/// The columns of the cells of row `row`.
pub open spec fn row_columns(view: WorksheetView, row: RowNum) -> Set<u32> {
    Set::new(|c: u32| c <= u16::MAX && view.cells.contains_key((row, c as u16)))
}

/// The elements of the cells of row `row` in the columns `columns`, in
/// order.
pub open spec fn row_cells_text(
    view: WorksheetView,
    strings: Seq<Seq<char>>,
    xf: Seq<usize>,
    row: RowNum,
    columns: Seq<u32>,
) -> Seq<char>
    decreases columns.len(),
{
    if columns.len() == 0 {
        Seq::<char>::empty()
    } else {
        let col = columns.last() as ColNum;
        row_cells_text(view, strings, xf, row, columns.drop_last()) + cell_text(
            row,
            col,
            view.cells[(row, col)].value,
            xf[effective_xf(view, row, col) as int],
            strings,
        )
    }
}

/// The element of row `row`: its cells in ascending order of their
/// columns.
pub open spec fn row_text(
    view: WorksheetView,
    strings: Seq<Seq<char>>,
    xf: Seq<usize>,
    row: RowNum,
) -> Seq<char> {
    let columns = ascending_keys(row_columns(view, row));
    let attributes = row_attributes(row, view.rows[row], xf[view.rows[row].xf_index as int]);
    if columns.len() == 0 {
        empty_tag_text("row"@, attributes)
    } else {
        start_tag_text("row"@, attributes) + row_cells_text(view, strings, xf, row, columns)
            + end_tag_text("row"@)
    }
}

/// The elements of the rows `rows`, in order.
pub open spec fn rows_text(
    view: WorksheetView,
    strings: Seq<Seq<char>>,
    xf: Seq<usize>,
    rows: Seq<u32>,
) -> Seq<char>
    decreases rows.len(),
{
    if rows.len() == 0 {
        Seq::<char>::empty()
    } else {
        rows_text(view, strings, xf, rows.drop_last()) + row_text(view, strings, xf, rows.last())
    }
}

/// The element that holds the rows of the worksheet, in ascending order.
pub open spec fn sheet_data_text(view: WorksheetView, strings: Seq<Seq<char>>, xf: Seq<usize>) -> Seq<
    char,
> {
    let rows = ascending_keys(view.rows.dom());
    if rows.len() == 0 {
        empty_tag_text("sheetData"@, Seq::empty())
    } else {
        start_tag_text("sheetData"@, Seq::empty()) + rows_text(view, strings, xf, rows)
            + end_tag_text("sheetData"@)
    }
}

/// Whether the table `strings` holds the text of every cell of the
/// worksheet that holds a text.
pub open spec fn strings_known(view: WorksheetView, strings: Seq<Seq<char>>) -> bool {
    forall|k: (RowNum, ColNum)| #[trigger]
        view.cells.contains_key(k) ==> (view.cells[k].value matches CellValueView::String(text)
            ==> strings.contains(text))
}

/// Whether the table `after` holds every text that the table `before`
/// holds.
pub open spec fn extends(before: Seq<Seq<char>>, after: Seq<Seq<char>>) -> bool {
    forall|text: Seq<char>| before.contains(text) ==> after.contains(text)
}

/// The table `strings` after the texts of the cells of row `row` in the
/// columns `columns` are interned, in order.
pub open spec fn cells_interned(
    view: WorksheetView,
    strings: Seq<Seq<char>>,
    row: RowNum,
    columns: Seq<u32>,
) -> Seq<Seq<char>>
    decreases columns.len(),
{
    if columns.len() == 0 {
        strings
    } else {
        let before = cells_interned(view, strings, row, columns.drop_last());
        match view.cells[(row, columns.last() as ColNum)].value {
            CellValueView::String(text) => crate::registry::registered(before, text),
            _ => before,
        }
    }
}

/// The table `strings` after the texts of the cells of the rows `rows` are
/// interned, row by row, and in each row in ascending order of the
/// columns.
pub open spec fn rows_interned(view: WorksheetView, strings: Seq<Seq<char>>, rows: Seq<u32>) -> Seq<
    Seq<char>,
>
    decreases rows.len(),
{
    if rows.len() == 0 {
        strings
    } else {
        cells_interned(
            view,
            rows_interned(view, strings, rows.drop_last()),
            rows.last(),
            ascending_keys(row_columns(view, rows.last())),
        )
    }
}

/// The table `strings` after the texts of the worksheet are interned, in
/// the order in which the worksheet part lists its cells.
pub open spec fn strings_interned(view: WorksheetView, strings: Seq<Seq<char>>) -> Seq<Seq<char>> {
    rows_interned(view, strings, ascending_keys(view.rows.dom()))
}

/// The number of references to texts after those of the cells of row `row`
/// in the columns `columns` are counted.
pub open spec fn cells_counted(view: WorksheetView, count: usize, row: RowNum, columns: Seq<u32>) -> usize
    decreases columns.len(),
{
    if columns.len() == 0 {
        count
    } else {
        let before = cells_counted(view, count, row, columns.drop_last());
        match view.cells[(row, columns.last() as ColNum)].value {
            CellValueView::String(text) => crate::shared_strings::counted(before),
            _ => before,
        }
    }
}

/// The number of references to texts after those of the rows `rows` are
/// counted.
pub open spec fn rows_counted(view: WorksheetView, count: usize, rows: Seq<u32>) -> usize
    decreases rows.len(),
{
    if rows.len() == 0 {
        count
    } else {
        cells_counted(
            view,
            rows_counted(view, count, rows.drop_last()),
            rows.last(),
            ascending_keys(row_columns(view, rows.last())),
        )
    }
}

/// The number of references to texts after those of the worksheet are
/// counted.
pub open spec fn strings_counted(view: WorksheetView, count: usize) -> usize {
    rows_counted(view, count, ascending_keys(view.rows.dom()))
}

/// The attributes of a cell that say where it is and which style it has.
fn reference_attributes_of(row: RowNum, col: ColNum, style: usize) -> (attributes: Vec<
    Attribute<'static>,
>)
    ensures
        attributes_view(attributes@) == reference_attributes(row, col, style),
{
    let mut reference = String::new();
    push_cell_ref(&mut reference, row, col);
    proof {
        assert(reference@ =~= cell_ref_text(row as nat, col as nat));
    }
    let mut attributes: Vec<Attribute<'static>> = Vec::new();
    attributes.push(("r", reference));
    if style != 0 {
        attributes.push(("s", decimal_string(style as u64)));
    }
    proof {
        assert(attributes_view(attributes@) =~= reference_attributes(row, col, style));
    }
    attributes
}

/// Writes the element of a cell that holds a value.
fn write_value_cell(writer: &mut XMLWriter, attributes: &Vec<Attribute>, value: &str)
    ensures
        final(writer)@ == old(writer)@ + (start_tag_text("c"@, attributes_view(attributes@))
            + data_element_text("v"@, value@, Seq::empty()) + end_tag_text("c"@)),
{
    writer.xml_start_tag("c", attributes);
    writer.xml_data_element_only("v", value);
    writer.xml_end_tag("c");
    proof {
        lemma_append_3(
            old(writer)@,
            start_tag_text("c"@, attributes_view(attributes@)),
            data_element_text("v"@, value@, Seq::empty()),
            end_tag_text("c"@),
        );
    }
}

/// Writes the element of a cell that holds a formula and its result.
fn write_formula_cell(
    writer: &mut XMLWriter,
    attributes: &Vec<Attribute>,
    formula: &str,
    formula_attributes: &Vec<Attribute>,
    result: &str,
)
    ensures
        final(writer)@ == old(writer)@ + (start_tag_text("c"@, attributes_view(attributes@))
            + data_element_text("f"@, formula@, attributes_view(formula_attributes@))
            + data_element_text("v"@, result@, Seq::empty()) + end_tag_text("c"@)),
{
    writer.xml_start_tag("c", attributes);
    writer.xml_data_element("f", formula, formula_attributes);
    writer.xml_data_element_only("v", result);
    writer.xml_end_tag("c");
    proof {
        lemma_append_4(
            old(writer)@,
            start_tag_text("c"@, attributes_view(attributes@)),
            data_element_text("f"@, formula@, attributes_view(formula_attributes@)),
            data_element_text("v"@, result@, Seq::empty()),
            end_tag_text("c"@),
        );
    }
}

/// The attributes of the formula of a cell that fills the range `range`.
fn array_attributes_of(range: &CellRange) -> (attributes: Vec<Attribute<'static>>)
    ensures
        attributes_view(attributes@) == array_attributes(*range),
{
    let mut range_text = String::new();
    push_range_ref(
        &mut range_text,
        range.first_row,
        range.first_col,
        range.last_row,
        range.last_col,
    );
    proof {
        assert(range_text@ =~= range_ref_text(
            range.first_row as nat,
            range.first_col as nat,
            range.last_row as nat,
            range.last_col as nat,
        ));
    }
    let attributes: Vec<Attribute<'static>> = vec![("t", "array".to_owned()), ("ref", range_text)];
    proof {
        assert(attributes_view(attributes@) =~= array_attributes(*range));
    }
    attributes
}

/// Writes the element of a cell. A text that the table `strings` does not
/// hold cannot be written: then nothing is written.
pub fn write_cell(
    writer: &mut XMLWriter,
    row: RowNum,
    col: ColNum,
    value: &CellValue,
    style: usize,
    strings: &SharedStringTable,
) -> (known: bool)
    ensures
        known == !(value@ matches CellValueView::String(text) && !strings.strings().contains(text)),
        known ==> final(writer)@ == old(writer)@ + cell_text(
            row,
            col,
            value@,
            style,
            strings.strings(),
        ),
        !known ==> final(writer)@ == old(writer)@,
{
    let mut attributes = reference_attributes_of(row, col, style);
    let ghost reference = reference_attributes(row, col, style);
    match value {
        CellValue::Number(number) => {
            write_value_cell(writer, &attributes, number.as_str());
        },
        CellValue::String(text) => {
            match strings.index_of(text) {
                None => {
                    return false;
                },
                Some(index) => {
                    attributes.push(("t", "s".to_owned()));
                    proof {
                        assert(attributes_view(attributes@) =~= reference.push(("t"@, "s"@)));
                    }
                    let position = decimal_string(index as u64);
                    write_value_cell(writer, &attributes, position.as_str());
                },
            }
        },
        CellValue::Boolean(truth) => {
            attributes.push(("t", "b".to_owned()));
            proof {
                assert(attributes_view(attributes@) =~= reference.push(("t"@, "b"@)));
            }
            if *truth {
                write_value_cell(writer, &attributes, "1");
            } else {
                write_value_cell(writer, &attributes, "0");
            }
        },
        CellValue::Formula { formula, result } => {
            let plain: Vec<Attribute> = Vec::new();
            proof {
                assert(attributes_view(plain@) =~= Seq::empty());
            }
            write_formula_cell(writer, &attributes, formula.as_str(), &plain, result.as_str());
        },
        CellValue::ArrayFormula { formula, result, range, dynamic } => {
            if *dynamic {
                attributes.push(("cm", "1".to_owned()));
                proof {
                    assert(attributes_view(attributes@) =~= reference.push(("cm"@, "1"@)));
                }
            }
            let formula_attributes = array_attributes_of(range);
            write_formula_cell(
                writer,
                &attributes,
                formula.as_str(),
                &formula_attributes,
                result.as_str(),
            );
        },
        CellValue::Blank => {
            writer.xml_empty_tag("c", &attributes);
        },
    }
    true
}

/// The height of a row in points, as a numeral.
pub fn row_height_string(pixels: u16) -> (text: String)
    ensures
        text@ == row_height_text(pixels),
{
    let mut text = String::new();
    proof {
        reveal_with_fuel(is_power_of_ten, 3);
    }
    push_scaled(&mut text, pixels as u64 * 3, 4, 25, 10);
    proof {
        assert(text@ =~= row_height_text(pixels));
    }
    text
}

/// The width of a column in character widths, as a numeral.
pub fn col_width_string(pixels: u16) -> (text: String)
    ensures
        text@ == col_width_text(pixels),
{
    let mut text = String::new();
    proof {
        reveal_with_fuel(is_power_of_ten, 9);
    }
    push_scaled(&mut text, pixels as u64 * 256 / 7, 256, 390625, 10_000_000);
    proof {
        assert(text@ =~= col_width_text(pixels));
    }
    text
}

/// The attributes of a row.
fn row_attributes_of(row: RowNum, options: &RowOptions, style: usize) -> (attributes: Vec<
    Attribute<'static>,
>)
    requires
        row < ROW_MAX,
    ensures
        attributes_view(attributes@) == row_attributes(row, *options, style),
{
    let mut attributes: Vec<Attribute<'static>> = Vec::new();
    attributes.push(("r", decimal_string(row as u64 + 1)));
    let ghost mut expected = seq![("r"@, decimal_text((row + 1) as nat))];
    proof {
        assert(attributes_view(attributes@) =~= expected);
    }
    if style != 0 {
        attributes.push(("s", decimal_string(style as u64)));
        attributes.push(("customFormat", "1".to_owned()));
        proof {
            expected = expected + seq![("s"@, decimal_text(style as nat)), ("customFormat"@, "1"@)];
            assert(attributes_view(attributes@) =~= expected);
        }
    }
    if options.custom_height {
        attributes.push(("ht", row_height_string(options.height)));
        proof {
            expected = expected + seq![("ht"@, row_height_text(options.height))];
            assert(attributes_view(attributes@) =~= expected);
        }
    }
    if options.hidden {
        attributes.push(("hidden", "1".to_owned()));
        proof {
            expected = expected + seq![("hidden"@, "1"@)];
            assert(attributes_view(attributes@) =~= expected);
        }
    }
    if options.custom_height {
        attributes.push(("customHeight", "1".to_owned()));
        proof {
            expected = expected + seq![("customHeight"@, "1"@)];
            assert(attributes_view(attributes@) =~= expected);
        }
    }
    if options.level > 0 {
        attributes.push(("outlineLevel", decimal_string(options.level as u64)));
        proof {
            expected = expected + seq![("outlineLevel"@, decimal_text(options.level as nat))];
            assert(attributes_view(attributes@) =~= expected);
        }
    }
    proof {
        assert(expected =~= row_attributes(row, *options, style));
    }
    attributes
}

/// The columns that hold a setting.
pub open spec fn set_columns(view: WorksheetView) -> Set<u32> {
    Set::new(|c: u32| c <= u16::MAX && view.columns.contains_key(c as u16))
}

/// The attributes of a column: its number counted from one as first and
/// last column of the element, its width, its style, and whether it is
/// hidden.
pub open spec fn col_attributes(col: ColNum, options: ColOptions, style: usize) -> Seq<
    (Seq<char>, Seq<char>),
> {
    seq![
        ("min"@, decimal_text((col + 1) as nat)),
        ("max"@, decimal_text((col + 1) as nat)),
        ("width"@, col_width_text(options.width)),
    ] + optional_attributes(style != 0, seq![("style"@, decimal_text(style as nat))])
        + optional_attributes(options.hidden, seq![("hidden"@, "1"@)]) + optional_attributes(
        options.custom_width,
        seq![("customWidth"@, "1"@)],
    ) + outline_attributes(options.level)
}

/// The elements of the columns `columns`, in order.
pub open spec fn col_items_text(view: WorksheetView, xf: Seq<usize>, columns: Seq<u32>) -> Seq<
    char,
>
    decreases columns.len(),
{
    if columns.len() == 0 {
        Seq::<char>::empty()
    } else {
        let col = columns.last() as ColNum;
        col_items_text(view, xf, columns.drop_last()) + empty_tag_text(
            "col"@,
            col_attributes(col, view.columns[col], xf[view.columns[col].xf_index as int]),
        )
    }
}

/// The element for the settings of the columns, in ascending order; nothing
/// where no column has a setting.
pub open spec fn cols_text(view: WorksheetView, xf: Seq<usize>) -> Seq<char> {
    let columns = ascending_keys(set_columns(view));
    if columns.len() == 0 {
        Seq::<char>::empty()
    } else {
        start_tag_text("cols"@, Seq::empty()) + col_items_text(view, xf, columns) + end_tag_text(
            "cols"@,
        )
    }
}

/// Whether `range` is the smallest range that holds every cell of the
/// worksheet: every cell lies in it, and a cell lies on each of its edges.
pub open spec fn is_bounding(view: WorksheetView, range: CellRange) -> bool {
    &&& forall|k: (RowNum, ColNum)| #[trigger]
        view.cells.contains_key(k) ==> range.contains(k.0, k.1)
    &&& exists|k: (RowNum, ColNum)| #[trigger]
        view.cells.contains_key(k) && k.0 == range.first_row
    &&& exists|k: (RowNum, ColNum)| #[trigger] view.cells.contains_key(k) && k.0 == range.last_row
    &&& exists|k: (RowNum, ColNum)| #[trigger]
        view.cells.contains_key(k) && k.1 == range.first_col
    &&& exists|k: (RowNum, ColNum)| #[trigger] view.cells.contains_key(k) && k.1 == range.last_col
}

/// Whether the worksheet holds no cell.
pub open spec fn has_no_cell(view: WorksheetView) -> bool {
    forall|k: (RowNum, ColNum)| !view.cells.contains_key(k)
}

/// The dimension of the worksheet: the smallest range that holds every
/// cell, or the first cell alone where the worksheet holds no cell.
pub open spec fn dimension_of(view: WorksheetView) -> CellRange {
    if has_no_cell(view) {
        CellRange { first_row: 0, first_col: 0, last_row: 0, last_col: 0 }
    } else {
        choose|range: CellRange| is_bounding(view, range)
    }
}

/// A worksheet has one smallest range at most.
pub proof fn lemma_bounding_is_unique(view: WorksheetView, a: CellRange, b: CellRange)
    requires
        is_bounding(view, a),
        is_bounding(view, b),
    ensures
        a == b,
{
    let k = choose|k: (RowNum, ColNum)| #[trigger]
        view.cells.contains_key(k) && k.0 == a.first_row;
    assert(b.contains(k.0, k.1));
    let k = choose|k: (RowNum, ColNum)| #[trigger]
        view.cells.contains_key(k) && k.0 == b.first_row;
    assert(a.contains(k.0, k.1));
    let k = choose|k: (RowNum, ColNum)| #[trigger] view.cells.contains_key(k) && k.0 == a.last_row;
    assert(b.contains(k.0, k.1));
    let k = choose|k: (RowNum, ColNum)| #[trigger] view.cells.contains_key(k) && k.0 == b.last_row;
    assert(a.contains(k.0, k.1));
    let k = choose|k: (RowNum, ColNum)| #[trigger]
        view.cells.contains_key(k) && k.1 == a.first_col;
    assert(b.contains(k.0, k.1));
    let k = choose|k: (RowNum, ColNum)| #[trigger]
        view.cells.contains_key(k) && k.1 == b.first_col;
    assert(a.contains(k.0, k.1));
    let k = choose|k: (RowNum, ColNum)| #[trigger] view.cells.contains_key(k) && k.1 == a.last_col;
    assert(b.contains(k.0, k.1));
    let k = choose|k: (RowNum, ColNum)| #[trigger] view.cells.contains_key(k) && k.1 == b.last_col;
    assert(a.contains(k.0, k.1));
}

/// The attribute that names a range.
pub open spec fn ref_attributes(range: CellRange) -> Seq<(Seq<char>, Seq<char>)> {
    seq![
        (
            "ref"@,
            range_ref_text(
                range.first_row as nat,
                range.first_col as nat,
                range.last_row as nat,
                range.last_col as nat,
            ),
        ),
    ]
}

/// The namespaces that the root element declares.
pub open spec fn worksheet_namespaces() -> Seq<(Seq<char>, Seq<char>)> {
    seq![
        ("xmlns"@, "http://schemas.openxmlformats.org/spreadsheetml/2006/main"@),
        ("xmlns:r"@, "http://schemas.openxmlformats.org/officeDocument/2006/relationships"@),
    ]
}

/// The attributes of the view of the worksheet: whether its tab is the
/// selected one, and the workbook view to which it belongs.
pub open spec fn sheet_view_attributes(selected: bool) -> Seq<(Seq<char>, Seq<char>)> {
    if selected {
        seq![("tabSelected"@, "1"@), ("workbookViewId"@, "0"@)]
    } else {
        seq![("workbookViewId"@, "0"@)]
    }
}

/// The element for the views of the worksheet.
pub open spec fn sheet_views_text(selected: bool) -> Seq<char> {
    start_tag_text("sheetViews"@, Seq::empty()) + empty_tag_text(
        "sheetView"@,
        sheet_view_attributes(selected),
    ) + end_tag_text("sheetViews"@)
}

/// Whether `level` is the largest among the levels `levels`, or zero
/// where there is none.
pub open spec fn is_top_level(levels: Set<u8>, level: u8) -> bool {
    &&& forall|other: u8| #[trigger] levels.contains(other) ==> other <= level
    &&& level == 0 || levels.contains(level)
}

/// The largest among the levels `levels`, or zero where there is none.
pub open spec fn top_level(levels: Set<u8>) -> u8 {
    choose|level: u8| is_top_level(levels, level)
}

/// A set of levels has one largest level.
pub proof fn lemma_top_level_is_unique(levels: Set<u8>, a: u8, b: u8)
    requires
        is_top_level(levels, a),
        is_top_level(levels, b),
    ensures
        a == b,
{
}

/// The numbers of groups that the rows of the worksheet belong to.
pub open spec fn row_levels(view: WorksheetView) -> Set<u8> {
    Set::new(
        |level: u8|
            exists|row: RowNum| #[trigger]
                view.rows.contains_key(row) && view.rows[row].level == level,
    )
}

/// The numbers of groups that the columns of the worksheet belong to.
pub open spec fn col_levels(view: WorksheetView) -> Set<u8> {
    Set::new(
        |level: u8|
            exists|col: ColNum| #[trigger]
                view.columns.contains_key(col) && view.columns[col].level == level,
    )
}

/// The attributes of the element for the format of the worksheet: the
/// default height of rows, 15 points, and the largest number of groups
/// that a row belongs to, and a column, where there are groups.
pub open spec fn sheet_format_attributes(view: WorksheetView) -> Seq<(Seq<char>, Seq<char>)> {
    seq![("defaultRowHeight"@, "15"@)] + optional_attributes(
        top_level(row_levels(view)) > 0,
        seq![("outlineLevelRow"@, decimal_text(top_level(row_levels(view)) as nat))],
    ) + optional_attributes(
        top_level(col_levels(view)) > 0,
        seq![("outlineLevelCol"@, decimal_text(top_level(col_levels(view)) as nat))],
    )
}

/// The element for the format of the worksheet.
pub open spec fn sheet_format_text(view: WorksheetView) -> Seq<char> {
    empty_tag_text("sheetFormatPr"@, sheet_format_attributes(view))
}

/// The element for the filter of the worksheet; nothing where it has none.
pub open spec fn autofilter_text(view: WorksheetView) -> Seq<char> {
    match view.autofilter {
        Some(range) => empty_tag_text("autoFilter"@, ref_attributes(range)),
        None => Seq::<char>::empty(),
    }
}

/// The elements of the merged ranges `merges`, in order.
pub open spec fn merge_items_text(merges: Seq<CellRange>) -> Seq<char>
    decreases merges.len(),
{
    if merges.len() == 0 {
        Seq::<char>::empty()
    } else {
        merge_items_text(merges.drop_last()) + empty_tag_text(
            "mergeCell"@,
            ref_attributes(merges.last()),
        )
    }
}

/// The element for the merged ranges, in the order of merging; nothing
/// where no range is merged.
pub open spec fn merges_text(view: WorksheetView) -> Seq<char> {
    if view.merges.len() == 0 {
        Seq::<char>::empty()
    } else {
        start_tag_text("mergeCells"@, seq![("count"@, decimal_text(view.merges.len()))])
            + merge_items_text(view.merges) + end_tag_text("mergeCells"@)
    }
}

/// The attributes of the print options that are switched on.
pub open spec fn print_options_attributes(page: PageSetup) -> Seq<(Seq<char>, Seq<char>)> {
    optional_attributes(page.center_horizontally, seq![("horizontalCentered"@, "1"@)])
        + optional_attributes(page.center_vertically, seq![("verticalCentered"@, "1"@)])
        + optional_attributes(page.print_headings, seq![("headings"@, "1"@)])
        + optional_attributes(page.print_gridlines, seq![("gridLines"@, "1"@)])
}

/// The element for the print options; nothing where none is switched on.
pub open spec fn print_options_text(page: PageSetup) -> Seq<char> {
    if print_options_attributes(page).len() == 0 {
        Seq::<char>::empty()
    } else {
        empty_tag_text("printOptions"@, print_options_attributes(page))
    }
}

/// The element for the page margins, in inches.
pub open spec fn page_margins_text() -> Seq<char> {
    empty_tag_text(
        "pageMargins"@,
        seq![
            ("left"@, "0.7"@),
            ("right"@, "0.7"@),
            ("top"@, "0.75"@),
            ("bottom"@, "0.75"@),
            ("header"@, "0.3"@),
            ("footer"@, "0.3"@),
        ],
    )
}

/// The element for the paper; nothing where no paper size is chosen.
pub open spec fn page_setup_text(page: PageSetup) -> Seq<char> {
    if page.paper_size == 0 {
        Seq::<char>::empty()
    } else {
        empty_tag_text(
            "pageSetup"@,
            seq![
                ("paperSize"@, decimal_text(page.paper_size as nat)),
                ("orientation"@, "portrait"@),
            ],
        )
    }
}

/// The beginning of the worksheet part: the declaration, the start tag of
/// the root element, the dimension, the views and the default row height.
pub open spec fn worksheet_head_text(view: WorksheetView, selected: bool) -> Seq<char> {
    declaration_text() + start_tag_text("worksheet"@, worksheet_namespaces()) + empty_tag_text(
        "dimension"@,
        ref_attributes(dimension_of(view)),
    ) + sheet_views_text(selected) + sheet_format_text(view)
}

/// The number of links among the first `count` of `links` that lead
/// outside the workbook. Each of them has a relationship of the worksheet
/// part, numbered in this order.
pub open spec fn external_links_among(links: Seq<HyperlinkView>, count: int) -> nat
    decreases count,
{
    if count <= 0 {
        0
    } else {
        external_links_among(links, count - 1) + (if links[count - 1].kind == LinkKind::External {
            1nat
        } else {
            0nat
        })
    }
}

/// The attributes of the element of a link: its cell, and either the
/// relationship that holds its address, numbered `number`, or its place in
/// the workbook.
pub open spec fn hyperlink_attributes(link: HyperlinkView, number: nat) -> Seq<
    (Seq<char>, Seq<char>),
> {
    match link.kind {
        LinkKind::External => seq![
            ("ref"@, cell_ref_text(link.row as nat, link.col as nat)),
            ("r:id"@, relationship_id_text(number)),
        ],
        LinkKind::Internal => seq![
            ("ref"@, cell_ref_text(link.row as nat, link.col as nat)),
            ("location"@, link.target),
            ("display"@, link.target),
        ],
    }
}

/// The elements of the first `count` of the links `links`, in order.
pub open spec fn hyperlink_items_text(links: Seq<HyperlinkView>, count: int) -> Seq<char>
    decreases count,
{
    if count <= 0 {
        Seq::<char>::empty()
    } else {
        hyperlink_items_text(links, count - 1) + empty_tag_text(
            "hyperlink"@,
            hyperlink_attributes(links[count - 1], external_links_among(links, count)),
        )
    }
}

/// The element for the links of the worksheet; nothing where it has none.
pub open spec fn hyperlinks_text(view: WorksheetView) -> Seq<char> {
    if view.hyperlinks.len() == 0 {
        Seq::<char>::empty()
    } else {
        start_tag_text("hyperlinks"@, Seq::empty()) + hyperlink_items_text(
            view.hyperlinks,
            view.hyperlinks.len() as int,
        ) + end_tag_text("hyperlinks"@)
    }
}

/// The element that refers to the drawing of the worksheet, by the
/// relationship of the worksheet part that follows those of the links;
/// nothing where the worksheet holds no image.
pub open spec fn drawing_reference_text(view: WorksheetView) -> Seq<char> {
    if view.images.len() == 0 {
        Seq::<char>::empty()
    } else {
        empty_tag_text(
            "drawing"@,
            seq![
                (
                    "r:id"@,
                    relationship_id_text(
                        external_links_among(view.hyperlinks, view.hyperlinks.len() as int) + 1,
                    ),
                ),
            ],
        )
    }
}

/// The number of relationships of the worksheet part that come before
/// those of the tables: those of the links that lead outside the workbook,
/// and that of the drawing.
pub open spec fn relationships_before_tables(view: WorksheetView) -> nat {
    external_links_among(view.hyperlinks, view.hyperlinks.len() as int) + (if view.images.len()
        > 0 {
        1nat
    } else {
        0nat
    })
}

/// The elements that refer to the first `count` tables of the worksheet,
/// each by its relationship of the worksheet part.
pub open spec fn table_part_items_text(view: WorksheetView, count: int) -> Seq<char>
    decreases count,
{
    if count <= 0 {
        Seq::<char>::empty()
    } else {
        table_part_items_text(view, count - 1) + empty_tag_text(
            "tablePart"@,
            seq![
                (
                    "r:id"@,
                    relationship_id_text((relationships_before_tables(view) + count) as nat),
                ),
            ],
        )
    }
}

/// The element that refers to the tables of the worksheet; nothing where
/// the worksheet has no table.
pub open spec fn table_parts_text(view: WorksheetView) -> Seq<char> {
    if view.tables.len() == 0 {
        Seq::<char>::empty()
    } else {
        start_tag_text("tableParts"@, seq![("count"@, decimal_text(view.tables.len()))])
            + table_part_items_text(view, view.tables.len() as int) + end_tag_text("tableParts"@)
    }
}

/// The elements for the rules that colour cells by their values, in the
/// order in which the rules were added.
pub open spec fn rules_text(view: WorksheetView) -> Seq<char> {
    conditional_formats_text(view.conditional_formats, view.conditional_formats.len() as int)
}

/// The end of the worksheet part: the filter, the merged ranges, the rules
/// that colour cells, the links, the print options, the page margins, the
/// paper, the references to the drawing and to the tables, and the end tag
/// of the root element.
pub open spec fn worksheet_tail_text(view: WorksheetView) -> Seq<char> {
    autofilter_text(view) + (merges_text(view) + rules_text(view) + hyperlinks_text(view)) + (print_options_text(
        view.page_setup,
    ) + page_margins_text() + page_setup_text(view.page_setup)) + (drawing_reference_text(view)
        + table_parts_text(view)) + end_tag_text("worksheet"@)
}

/// The worksheet part: beginning, column settings, rows, end.
///
/// `strings` is the shared-string table of the workbook, `xf` gives for
/// each position in the format table of the worksheet the position in the
/// format table of the workbook, and `selected` says whether the tab of the
/// worksheet is the selected one.
#[verifier::opaque]
pub open spec fn worksheet_xml_text(
    view: WorksheetView,
    strings: Seq<Seq<char>>,
    xf: Seq<usize>,
    selected: bool,
) -> Seq<char> {
    worksheet_head_text(view, selected) + cols_text(view, xf) + sheet_data_text(view, strings, xf)
        + worksheet_tail_text(view)
}

/// Why the worksheet part cannot be written, if it cannot: `xf` does not
/// reach every format of the worksheet, or a cell holds a text that
/// `strings` does not hold.
pub open spec fn assemble_error(view: WorksheetView, strings: Seq<Seq<char>>, xf: Seq<usize>) -> Option<
    XlsxError,
> {
    if xf.len() < view.formats.len() {
        Some(XlsxError::UnknownFormat)
    } else if !strings_known(view, strings) {
        Some(XlsxError::UnknownSharedString)
    } else {
        None
    }
}

/// The attribute that names a range.
fn ref_attributes_of(range: &CellRange) -> (attributes: Vec<Attribute<'static>>)
    ensures
        attributes_view(attributes@) == ref_attributes(*range),
{
    let mut reference = String::new();
    push_range_ref(
        &mut reference,
        range.first_row,
        range.first_col,
        range.last_row,
        range.last_col,
    );
    proof {
        assert(reference@ =~= range_ref_text(
            range.first_row as nat,
            range.first_col as nat,
            range.last_row as nat,
            range.last_col as nat,
        ));
    }
    let attributes: Vec<Attribute<'static>> = vec![("ref", reference)];
    proof {
        assert(attributes_view(attributes@) =~= ref_attributes(*range));
    }
    attributes
}

/// The attributes of a column.
fn col_attributes_of(col: ColNum, options: &ColOptions, style: usize) -> (attributes: Vec<
    Attribute<'static>,
>)
    ensures
        attributes_view(attributes@) == col_attributes(col, *options, style),
{
    let mut attributes: Vec<Attribute<'static>> = Vec::new();
    attributes.push(("min", decimal_string(col as u64 + 1)));
    attributes.push(("max", decimal_string(col as u64 + 1)));
    attributes.push(("width", col_width_string(options.width)));
    let ghost mut expected = seq![
        ("min"@, decimal_text((col + 1) as nat)),
        ("max"@, decimal_text((col + 1) as nat)),
        ("width"@, col_width_text(options.width)),
    ];
    proof {
        assert(attributes_view(attributes@) =~= expected);
    }
    if style != 0 {
        attributes.push(("style", decimal_string(style as u64)));
        proof {
            expected = expected + seq![("style"@, decimal_text(style as nat))];
            assert(attributes_view(attributes@) =~= expected);
        }
    }
    if options.hidden {
        attributes.push(("hidden", "1".to_owned()));
        proof {
            expected = expected + seq![("hidden"@, "1"@)];
            assert(attributes_view(attributes@) =~= expected);
        }
    }
    if options.custom_width {
        attributes.push(("customWidth", "1".to_owned()));
        proof {
            expected = expected + seq![("customWidth"@, "1"@)];
            assert(attributes_view(attributes@) =~= expected);
        }
    }
    if options.level > 0 {
        attributes.push(("outlineLevel", decimal_string(options.level as u64)));
        proof {
            expected = expected + seq![("outlineLevel"@, decimal_text(options.level as nat))];
            assert(attributes_view(attributes@) =~= expected);
        }
    }
    proof {
        assert(expected =~= col_attributes(col, *options, style));
    }
    attributes
}

/// The attributes of the print options that are switched on.
fn print_options_attributes_of(page: &PageSetup) -> (attributes: Vec<Attribute<'static>>)
    ensures
        attributes_view(attributes@) == print_options_attributes(*page),
{
    let mut attributes: Vec<Attribute<'static>> = Vec::new();
    let ghost mut expected = Seq::<(Seq<char>, Seq<char>)>::empty();
    proof {
        assert(attributes_view(attributes@) =~= expected);
    }
    if page.center_horizontally {
        attributes.push(("horizontalCentered", "1".to_owned()));
        proof {
            expected = expected + seq![("horizontalCentered"@, "1"@)];
            assert(attributes_view(attributes@) =~= expected);
        }
    }
    if page.center_vertically {
        attributes.push(("verticalCentered", "1".to_owned()));
        proof {
            expected = expected + seq![("verticalCentered"@, "1"@)];
            assert(attributes_view(attributes@) =~= expected);
        }
    }
    if page.print_headings {
        attributes.push(("headings", "1".to_owned()));
        proof {
            expected = expected + seq![("headings"@, "1"@)];
            assert(attributes_view(attributes@) =~= expected);
        }
    }
    if page.print_gridlines {
        attributes.push(("gridLines", "1".to_owned()));
        proof {
            expected = expected + seq![("gridLines"@, "1"@)];
            assert(attributes_view(attributes@) =~= expected);
        }
    }
    proof {
        assert(expected =~= print_options_attributes(*page));
    }
    attributes
}

impl Worksheet {
    /// The rows of the table of rows are the rows of the plain value, and
    /// the cells of each row are the cells of the plain value in that row.
    pub(crate) proof fn lemma_listings(&self)
        requires
            self.wf(),
        ensures
            self.rows.keys() == ascending_keys(self@.rows.dom()),
            self.columns.keys() == ascending_keys(set_columns(self@)),
            forall|r: u32| #[trigger]
                self.rows@.contains_key(r) ==> self.rows@[r].cells.keys() == ascending_keys(
                    row_columns(self@, r),
                ),
    {
        self.lemma_view();
        self.rows.lemma_keys_listing();
        assert(self@.rows.dom() =~= self.rows@.dom());
        self.columns.lemma_keys_listing();
        assert(set_columns(self@) =~= self.columns@.dom()) by {
            assert forall|c: u32| set_columns(self@).contains(c) == self.columns@.dom().contains(
                c,
            ) by {
                if self.columns@.contains_key(c) {
                    assert(c < COL_MAX);
                    assert((c as u16) as u32 == c);
                }
            }
        }
        assert forall|r: u32| #[trigger] self.rows@.contains_key(r) implies self.rows@[r].cells.keys()
            == ascending_keys(row_columns(self@, r)) by {
            let row = self.rows@[r];
            assert(row_wf(row, self.formats.entries().len()));
            row.cells.lemma_keys_listing();
            assert(row_columns(self@, r) =~= row.cells@.dom()) by {
                assert forall|c: u32| row_columns(self@, r).contains(c) == row.cells@.dom().contains(
                    c,
                ) by {
                    if row.cells@.contains_key(c) {
                        assert(c < COL_MAX);
                        assert((c as u16) as u32 == c);
                    }
                }
            }
        }
    }

    /// The dimension of the worksheet: the smallest range that holds every
    /// cell, or the first cell alone where the worksheet holds no cell.
    pub fn dimension(&self) -> (range: CellRange)
        requires
            self.wf(),
        ensures
            range == dimension_of(self@),
    {
        proof {
            self.lemma_view();
            self.rows.lemma_keys();
        }
        let ghost view = self@;
        let ghost rows = self.rows.keys();
        let count = self.rows.len();
        let mut found = false;
        let mut range = CellRange { first_row: 0, first_col: 0, last_row: 0, last_col: 0 };
        let ghost mut top: (RowNum, ColNum) = (0, 0);
        let ghost mut bottom: (RowNum, ColNum) = (0, 0);
        let ghost mut left: (RowNum, ColNum) = (0, 0);
        let ghost mut right: (RowNum, ColNum) = (0, 0);
        let mut i: usize = 0;
        while i < count
            invariant
                i <= count,
                count == rows.len(),
                rows == self.rows.keys(),
                self.wf(),
                self.parts_wf(),
                self.rows.keys_are_ordered(),
                view == self@,
                view == self.parts_view(),
                !found ==> range == (CellRange {
                    first_row: 0,
                    first_col: 0,
                    last_row: 0,
                    last_col: 0,
                }),
                !found ==> forall|k: int, c: ColNum|
                    0 <= k < i ==> !#[trigger] view.cells.contains_key((rows[k], c)),
                found ==> {
                    &&& forall|k: int, c: ColNum|
                        0 <= k < i && #[trigger] view.cells.contains_key((rows[k], c))
                            ==> range.contains(rows[k], c)
                    &&& view.cells.contains_key(top) && top.0 == range.first_row
                    &&& view.cells.contains_key(bottom) && bottom.0 == range.last_row
                    &&& view.cells.contains_key(left) && left.1 == range.first_col
                    &&& view.cells.contains_key(right) && right.1 == range.last_col
                    &&& i > 0
                    &&& exists|k: int| 0 <= k < i && rows[k] == range.last_row
                },
            decreases count - i,
        {
            let number = self.rows.key_at(i);
            let row = self.rows.value_at(i);
            let cells = row.cells.len();
            proof {
                assert(row_wf(*row, self.formats.entries().len()));
                row.cells.lemma_keys();
            }
            let ghost columns = row.cells.keys();
            if cells > 0 {
                let low = row.cells.key_at(0);
                let high = row.cells.key_at(cells - 1);
                proof {
                    assert(low < COL_MAX && high < COL_MAX);
                    assert(view.cells.contains_key((number, low as u16)));
                    assert(view.cells.contains_key((number, high as u16)));
                    assert forall|c: ColNum| #[trigger]
                        view.cells.contains_key((number, c)) implies low <= c <= high by {
                        assert(row.cells@.contains_key(c as u32));
                        let p = choose|p: int|
                            0 <= p < columns.len() && #[trigger] columns[p] == c as u32;
                        if 0 < p {
                            assert(columns[0] < columns[p]);
                        }
                        if p < cells - 1 {
                            assert(columns[p] < columns[cells - 1]);
                        }
                    }
                }
                if !found {
                    range.first_row = number;
                    range.first_col = low as u16;
                    range.last_col = high as u16;
                    found = true;
                    proof {
                        top = (number, low as u16);
                        left = (number, low as u16);
                        right = (number, high as u16);
                    }
                } else {
                    if (low as u16) < range.first_col {
                        range.first_col = low as u16;
                        proof {
                            left = (number, low as u16);
                        }
                    }
                    if (high as u16) > range.last_col {
                        range.last_col = high as u16;
                        proof {
                            right = (number, high as u16);
                        }
                    }
                    proof {
                        let k = choose|k: int| 0 <= k < i && rows[k] == range.last_row;
                        assert(rows[k] < rows[i as int]);
                        assert(top.0 <= range.last_row);
                    }
                }
                range.last_row = number;
                proof {
                    bottom = (number, low as u16);
                    assert forall|k: int, c: ColNum|
                        0 <= k < i + 1 && #[trigger] view.cells.contains_key(
                            (rows[k], c),
                        ) implies range.contains(rows[k], c) by {
                        if k < i {
                            assert(rows[k] < rows[i as int]);
                        }
                    }
                    assert(rows[i as int] == range.last_row);
                }
            } else {
                proof {
                    assert forall|c: ColNum| !#[trigger] view.cells.contains_key((number, c)) by {
                        if view.cells.contains_key((number, c)) {
                            assert(row.cells@.contains_key(c as u32));
                        }
                    }
                    if found {
                        let k = choose|k: int| 0 <= k < i && rows[k] == range.last_row;
                        assert(0 <= k < i + 1 && rows[k] == range.last_row);
                    }
                }
            }
            i += 1;
        }
        proof {
            if found {
                assert forall|k: (RowNum, ColNum)| #[trigger]
                    view.cells.contains_key(k) implies range.contains(k.0, k.1) by {
                    assert(self.rows@.contains_key(k.0));
                    let p = choose|p: int| 0 <= p < rows.len() && #[trigger] rows[p] == k.0;
                    assert(view.cells.contains_key((rows[p], k.1)));
                }
                assert(is_bounding(view, range));
                assert(!has_no_cell(view));
                lemma_bounding_is_unique(view, range, dimension_of(view));
            } else {
                assert forall|k: (RowNum, ColNum)| !view.cells.contains_key(k) by {
                    if view.cells.contains_key(k) {
                        assert(self.rows@.contains_key(k.0));
                        let p = choose|p: int| 0 <= p < rows.len() && #[trigger] rows[p] == k.0;
                        assert(view.cells.contains_key((rows[p], k.1)));
                    }
                }
            }
        }
        range
    }

    /// Writes the element for the merged ranges.
    pub(crate) fn write_merges(&self, writer: &mut XMLWriter)
        ensures
            final(writer)@ == old(writer)@ + merges_text(self@),
    {
        proof {
            self.lemma_view();
        }
        let count = self.merges.len();
        let ghost merges = self.merges@;
        if count == 0 {
            proof {
                assert(writer@ =~= old(writer)@ + merges_text(self@));
            }
            return ;
        }
        let attributes: Vec<Attribute> = vec![("count", decimal_string(count as u64))];
        proof {
            assert(attributes_view(attributes@) =~= seq![("count"@, decimal_text(merges.len()))]);
        }
        writer.xml_start_tag("mergeCells", &attributes);
        let ghost start = writer@;
        let mut i: usize = 0;
        proof {
            assert(merges.take(0) =~= Seq::<CellRange>::empty());
            assert(writer@ =~= start + merge_items_text(merges.take(0)));
        }
        while i < count
            invariant
                i <= count,
                count == merges.len(),
                merges == self.merges@,
                writer@ == start + merge_items_text(merges.take(i as int)),
            decreases count - i,
        {
            let attributes = ref_attributes_of(&self.merges[i]);
            writer.xml_empty_tag("mergeCell", &attributes);
            proof {
                assert(merges.take(i + 1).drop_last() =~= merges.take(i as int));
                assert(merges.take(i + 1).last() == merges[i as int]);
                assert(writer@ =~= start + merge_items_text(merges.take(i + 1)));
            }
            i += 1;
        }
        proof {
            assert(merges.take(count as int) =~= merges);
        }
        writer.xml_end_tag("mergeCells");
        proof {
            assert(writer@ =~= old(writer)@ + merges_text(self@));
        }
    }

    /// Writes the beginning of the worksheet part.
    pub(crate) fn write_head(&self, writer: &mut XMLWriter, selected: bool)
        requires
            self.wf(),
        ensures
            final(writer)@ == old(writer)@ + worksheet_head_text(self@, selected),
    {
        writer.xml_declaration();

        let namespaces: Vec<Attribute> = vec![
            ("xmlns", "http://schemas.openxmlformats.org/spreadsheetml/2006/main".to_owned()),
            (
                "xmlns:r",
                "http://schemas.openxmlformats.org/officeDocument/2006/relationships".to_owned(),
            ),
        ];
        proof {
            assert(attributes_view(namespaces@) =~= worksheet_namespaces());
        }
        writer.xml_start_tag("worksheet", &namespaces);

        let dimension = self.dimension();
        let attributes = ref_attributes_of(&dimension);
        writer.xml_empty_tag("dimension", &attributes);

        writer.xml_start_tag_only("sheetViews");
        let mut attributes: Vec<Attribute> = Vec::new();
        if selected {
            attributes.push(("tabSelected", "1".to_owned()));
        }
        attributes.push(("workbookViewId", "0".to_owned()));
        proof {
            assert(attributes_view(attributes@) =~= sheet_view_attributes(selected));
        }
        writer.xml_empty_tag("sheetView", &attributes);
        writer.xml_end_tag("sheetViews");

        let attributes = self.sheet_format_attributes_of();
        writer.xml_empty_tag("sheetFormatPr", &attributes);
        proof {
            assert(writer@ =~= old(writer)@ + worksheet_head_text(self@, selected));
        }
    }

    /// The largest number of groups that a row of the worksheet belongs to.
    pub fn row_outline_level(&self) -> (level: u8)
        requires
            self.wf(),
        ensures
            level == top_level(row_levels(self@)),
    {
        proof {
            self.lemma_view();
            self.rows.lemma_keys();
        }
        let ghost view = self@;
        let ghost rows = self.rows.keys();
        let count = self.rows.len();
        let mut level: u8 = 0;
        let mut i: usize = 0;
        while i < count
            invariant
                i <= count,
                count == rows.len(),
                rows == self.rows.keys(),
                self.rows.keys_are_ordered(),
                self.parts_wf(),
                view == self.parts_view(),
                forall|k: int| 0 <= k < i ==> view.rows[#[trigger] rows[k]].level <= level,
                level == 0 || row_levels(view).contains(level),
            decreases count - i,
        {
            let number = self.rows.key_at(i);
            let row = self.rows.value_at(i);
            proof {
                assert(view.rows.contains_key(number));
                assert(view.rows[number] == row.options);
            }
            if row.options.level > level {
                level = row.options.level;
            }
            i += 1;
        }
        proof {
            assert forall|other: u8| #[trigger] row_levels(view).contains(other) implies other
                <= level by {
                let r = choose|r: RowNum| #[trigger]
                    view.rows.contains_key(r) && view.rows[r].level == other;
                assert(self.rows@.contains_key(r));
                let k = choose|k: int| 0 <= k < rows.len() && #[trigger] rows[k] == r;
                assert(view.rows[rows[k]].level <= level);
            }
            assert(is_top_level(row_levels(view), level));
            lemma_top_level_is_unique(row_levels(view), level, top_level(row_levels(view)));
        }
        level
    }

    /// The largest number of groups that a column of the worksheet belongs
    /// to.
    pub fn col_outline_level(&self) -> (level: u8)
        requires
            self.wf(),
        ensures
            level == top_level(col_levels(self@)),
    {
        proof {
            self.lemma_view();
            self.columns.lemma_keys();
        }
        let ghost view = self@;
        let ghost columns = self.columns.keys();
        let count = self.columns.len();
        let mut level: u8 = 0;
        let mut i: usize = 0;
        while i < count
            invariant
                i <= count,
                count == columns.len(),
                columns == self.columns.keys(),
                self.columns.keys_are_ordered(),
                self.parts_wf(),
                view == self.parts_view(),
                forall|k: int|
                    0 <= k < i ==> view.columns[(#[trigger] columns[k]) as ColNum].level <= level,
                level == 0 || col_levels(view).contains(level),
            decreases count - i,
        {
            let number = self.columns.key_at(i);
            let options = self.columns.value_at(i);
            proof {
                assert(self.columns@.contains_key(number));
                assert(number < COL_MAX);
                assert(view.columns.contains_key(number as ColNum));
                assert(view.columns[number as ColNum] == *options);
            }
            if options.level > level {
                level = options.level;
            }
            i += 1;
        }
        proof {
            assert forall|other: u8| #[trigger] col_levels(view).contains(other) implies other
                <= level by {
                let c = choose|c: ColNum| #[trigger]
                    view.columns.contains_key(c) && view.columns[c].level == other;
                assert(self.columns@.contains_key(c as u32));
                let k = choose|k: int| 0 <= k < columns.len() && #[trigger] columns[k] == c as u32;
                assert(view.columns[columns[k] as ColNum].level <= level);
            }
            assert(is_top_level(col_levels(view), level));
            lemma_top_level_is_unique(col_levels(view), level, top_level(col_levels(view)));
        }
        level
    }

    /// The attributes of the element for the format of the worksheet.
    fn sheet_format_attributes_of(&self) -> (attributes: Vec<Attribute<'static>>)
        requires
            self.wf(),
        ensures
            attributes_view(attributes@) == sheet_format_attributes(self@),
    {
        let rows = self.row_outline_level();
        let columns = self.col_outline_level();
        let mut attributes: Vec<Attribute<'static>> = Vec::new();
        attributes.push(("defaultRowHeight", "15".to_owned()));
        let ghost mut expected = seq![("defaultRowHeight"@, "15"@)];
        proof {
            assert(attributes_view(attributes@) =~= expected);
        }
        if rows > 0 {
            attributes.push(("outlineLevelRow", decimal_string(rows as u64)));
            proof {
                expected = expected + seq![("outlineLevelRow"@, decimal_text(rows as nat))];
                assert(attributes_view(attributes@) =~= expected);
            }
        }
        if columns > 0 {
            attributes.push(("outlineLevelCol", decimal_string(columns as u64)));
            proof {
                expected = expected + seq![("outlineLevelCol"@, decimal_text(columns as nat))];
                assert(attributes_view(attributes@) =~= expected);
            }
        }
        proof {
            assert(expected =~= sheet_format_attributes(self@));
        }
        attributes
    }

    /// Writes the elements for the printing of the worksheet.
    pub(crate) fn write_page(&self, writer: &mut XMLWriter)
        ensures
            final(writer)@ == old(writer)@ + print_options_text(self@.page_setup)
                + page_margins_text() + page_setup_text(self@.page_setup),
    {
        proof {
            self.lemma_view();
        }
        let attributes = print_options_attributes_of(&self.page_setup);
        if attributes.len() > 0 {
            writer.xml_empty_tag("printOptions", &attributes);
        }
        proof {
            assert(attributes_view(attributes@).len() == attributes@.len());
            assert(writer@ =~= old(writer)@ + print_options_text(self@.page_setup));
        }

        let attributes: Vec<Attribute> = vec![
            ("left", "0.7".to_owned()),
            ("right", "0.7".to_owned()),
            ("top", "0.75".to_owned()),
            ("bottom", "0.75".to_owned()),
            ("header", "0.3".to_owned()),
            ("footer", "0.3".to_owned()),
        ];
        proof {
            assert(attributes_view(attributes@) =~= seq![
                ("left"@, "0.7"@),
                ("right"@, "0.7"@),
                ("top"@, "0.75"@),
                ("bottom"@, "0.75"@),
                ("header"@, "0.3"@),
                ("footer"@, "0.3"@),
            ]);
        }
        writer.xml_empty_tag("pageMargins", &attributes);

        let ghost before_setup = writer@;
        if self.page_setup.paper_size != 0 {
            let attributes: Vec<Attribute> = vec![
                ("paperSize", decimal_string(self.page_setup.paper_size as u64)),
                ("orientation", "portrait".to_owned()),
            ];
            proof {
                assert(attributes_view(attributes@) =~= seq![
                    ("paperSize"@, decimal_text(self.page_setup.paper_size as nat)),
                    ("orientation"@, "portrait"@),
                ]);
            }
            writer.xml_empty_tag("pageSetup", &attributes);
        }
        proof {
            assert(writer@ =~= before_setup + page_setup_text(self@.page_setup));
            assert(writer@ =~= old(writer)@ + print_options_text(self@.page_setup)
                + page_margins_text() + page_setup_text(self@.page_setup));
        }
    }

    /// The number of links that lead outside the workbook.
    pub fn external_link_count(&self) -> (count: usize)
        ensures
            count == external_links_among(self@.hyperlinks, self@.hyperlinks.len() as int),
    {
        proof {
            self.lemma_view();
        }
        let ghost links = self@.hyperlinks;
        let mut count: usize = 0;
        let mut i: usize = 0;
        while i < self.hyperlinks.len()
            invariant
                i <= self.hyperlinks@.len(),
                links == links_view_of(self.hyperlinks@),
                count <= i,
                count == external_links_among(links, i as int),
            decreases self.hyperlinks.len() - i,
        {
            if self.hyperlinks[i].kind == LinkKind::External {
                count += 1;
            }
            i += 1;
        }
        count
    }

    /// Writes the element for the links.
    pub(crate) fn write_hyperlinks(&self, writer: &mut XMLWriter)
        ensures
            final(writer)@ == old(writer)@ + hyperlinks_text(self@),
    {
        proof {
            self.lemma_view();
        }
        let ghost links = self@.hyperlinks;
        let count = self.hyperlinks.len();
        if count == 0 {
            proof {
                assert(writer@ =~= old(writer)@ + hyperlinks_text(self@));
            }
            return ;
        }
        writer.xml_start_tag_only("hyperlinks");
        let ghost start = writer@;
        let mut externals: usize = 0;
        let mut i: usize = 0;
        proof {
            assert(writer@ =~= start + hyperlink_items_text(links, 0));
        }
        while i < count
            invariant
                i <= count,
                count == links.len(),
                links == links_view_of(self.hyperlinks@),
                externals <= i,
                externals == external_links_among(links, i as int),
                writer@ == start + hyperlink_items_text(links, i as int),
            decreases count - i,
        {
            let link = &self.hyperlinks[i];
            let mut reference = String::new();
            push_cell_ref(&mut reference, link.row, link.col);
            proof {
                assert(reference@ =~= cell_ref_text(link.row as nat, link.col as nat));
            }
            let mut attributes: Vec<Attribute> = Vec::new();
            attributes.push(("ref", reference));
            match link.kind {
                LinkKind::External => {
                    externals += 1;
                    attributes.push(("r:id", relationship_id(externals as u128)));
                },
                LinkKind::Internal => {
                    attributes.push(("location", link.target.clone()));
                    attributes.push(("display", link.target.clone()));
                },
            }
            proof {
                assert(attributes_view(attributes@) =~= hyperlink_attributes(
                    links[i as int],
                    external_links_among(links, i + 1),
                ));
            }
            writer.xml_empty_tag("hyperlink", &attributes);
            proof {
                lemma_append_2(
                    start,
                    hyperlink_items_text(links, i as int),
                    empty_tag_text(
                        "hyperlink"@,
                        hyperlink_attributes(links[i as int], external_links_among(links, i + 1)),
                    ),
                );
            }
            i += 1;
        }
        writer.xml_end_tag("hyperlinks");
        proof {
            lemma_append_3(
                old(writer)@,
                start_tag_text("hyperlinks"@, Seq::empty()),
                hyperlink_items_text(links, links.len() as int),
                end_tag_text("hyperlinks"@),
            );
        }
    }

    /// The number of relationships of the worksheet part that come before
    /// those of the tables.
    pub fn relationship_count_before_tables(&self) -> (count: u128)
        ensures
            count == relationships_before_tables(self@),
            count <= 0x1_0000_0000_0000_0000,
    {
        proof {
            self.lemma_view();
        }
        let externals = self.external_link_count() as u128;
        if self.images.len() > 0 {
            externals + 1
        } else {
            externals
        }
    }

    /// Writes the element that refers to the tables.
    pub(crate) fn write_table_parts(&self, writer: &mut XMLWriter)
        ensures
            final(writer)@ == old(writer)@ + table_parts_text(self@),
    {
        proof {
            self.lemma_view();
        }
        let ghost view = self@;
        let count = self.tables.len();
        if count == 0 {
            proof {
                assert(writer@ =~= old(writer)@ + table_parts_text(self@));
            }
            return ;
        }
        let attributes: Vec<Attribute> = vec![("count", decimal_string(count as u64))];
        proof {
            assert(attributes_view(attributes@) =~= seq![("count"@, decimal_text(count as nat))]);
        }
        writer.xml_start_tag("tableParts", &attributes);
        let ghost start = writer@;
        let before = self.relationship_count_before_tables();
        let mut i: usize = 0;
        proof {
            assert(writer@ =~= start + table_part_items_text(view, 0));
        }
        while i < count
            invariant
                i <= count,
                count == view.tables.len(),
                view == self@,
                before == relationships_before_tables(view),
                before <= 0x1_0000_0000_0000_0000,
                writer@ == start + table_part_items_text(view, i as int),
            decreases count - i,
        {
            let attributes: Vec<Attribute> = vec![
                ("r:id", relationship_id(before + i as u128 + 1)),
            ];
            proof {
                assert(attributes_view(attributes@) =~= seq![
                    (
                        "r:id"@,
                        relationship_id_text((relationships_before_tables(view) + i + 1) as nat),
                    ),
                ]);
            }
            writer.xml_empty_tag("tablePart", &attributes);
            proof {
                lemma_append_2(
                    start,
                    table_part_items_text(view, i as int),
                    empty_tag_text(
                        "tablePart"@,
                        seq![
                            (
                                "r:id"@,
                                relationship_id_text(
                                    (relationships_before_tables(view) + i + 1) as nat,
                                ),
                            ),
                        ],
                    ),
                );
            }
            i += 1;
        }
        writer.xml_end_tag("tableParts");
        proof {
            lemma_append_3(
                old(writer)@,
                start_tag_text("tableParts"@, seq![("count"@, decimal_text(view.tables.len()))]),
                table_part_items_text(view, view.tables.len() as int),
                end_tag_text("tableParts"@),
            );
        }
    }

    /// Writes the elements for the rules that colour cells by their values.
    pub(crate) fn write_rules(&self, writer: &mut XMLWriter)
        ensures
            final(writer)@ == old(writer)@ + rules_text(self@),
    {
        let ghost formats = self@.conditional_formats;
        let count = self.conditional_format_count();
        let mut i: usize = 0;
        proof {
            assert(writer@ =~= old(writer)@ + conditional_formats_text(formats, 0));
        }
        while i < count
            invariant
                i <= count,
                count == formats.len(),
                formats == self@.conditional_formats,
                writer@ == old(writer)@ + conditional_formats_text(formats, i as int),
            decreases count - i,
        {
            write_conditional_format(writer, self.conditional_format_at(i), i as u128 + 1);
            proof {
                lemma_append_2(
                    old(writer)@,
                    conditional_formats_text(formats, i as int),
                    crate::conditional_format::conditional_format_text(
                        formats[i as int],
                        (i + 1) as nat,
                    ),
                );
            }
            i += 1;
        }
    }

    /// Writes the end of the worksheet part.
    pub(crate) fn write_tail(&self, writer: &mut XMLWriter)
        ensures
            final(writer)@ == old(writer)@ + worksheet_tail_text(self@),
    {
        proof {
            self.lemma_view();
        }
        match &self.autofilter {
            Some(range) => {
                let attributes = ref_attributes_of(range);
                writer.xml_empty_tag("autoFilter", &attributes);
            },
            None => {},
        }
        proof {
            assert(writer@ =~= old(writer)@ + autofilter_text(self@));
        }
        let ghost before_merges = writer@;
        self.write_merges(writer);
        self.write_rules(writer);
        self.write_hyperlinks(writer);
        proof {
            lemma_append_3(
                before_merges,
                merges_text(self@),
                rules_text(self@),
                hyperlinks_text(self@),
            );
        }
        let ghost before_page = writer@;
        self.write_page(writer);
        proof {
            lemma_append_3(
                before_page,
                print_options_text(self@.page_setup),
                page_margins_text(),
                page_setup_text(self@.page_setup),
            );
        }
        let ghost before_drawing = writer@;
        if self.images.len() > 0 {
            let number = self.external_link_count();
            let attributes: Vec<Attribute> = vec![("r:id", relationship_id(number as u128 + 1))];
            proof {
                assert(attributes_view(attributes@) =~= seq![
                    (
                        "r:id"@,
                        relationship_id_text(
                            external_links_among(self@.hyperlinks, self@.hyperlinks.len() as int)
                                + 1,
                        ),
                    ),
                ]);
            }
            writer.xml_empty_tag("drawing", &attributes);
        }
        proof {
            assert(writer@ =~= before_drawing + drawing_reference_text(self@));
        }
        self.write_table_parts(writer);
        proof {
            lemma_append_2(before_drawing, drawing_reference_text(self@), table_parts_text(self@));
        }
        writer.xml_end_tag("worksheet");
        proof {
            lemma_append_5(
                old(writer)@,
                autofilter_text(self@),
                merges_text(self@) + rules_text(self@) + hyperlinks_text(self@),
                print_options_text(self@.page_setup) + page_margins_text() + page_setup_text(
                    self@.page_setup,
                ),
                drawing_reference_text(self@) + table_parts_text(self@),
                end_tag_text("worksheet"@),
            );
        }
    }

    /// The worksheet part of the package.
    ///
    /// `strings` is the shared-string table of the workbook, `xf` gives for
    /// each position in the format table of the worksheet the position in
    /// the format table of the workbook, and `selected` says whether the
    /// tab of the worksheet is the selected one.
    ///
    /// Fails with `UnknownFormat` where `xf` does not reach every format of
    /// the worksheet, and with `UnknownSharedString` where a cell holds a
    /// text that `strings` does not hold.
    pub fn assemble_xml_file(
        &self,
        strings: &SharedStringTable,
        xf: &Vec<usize>,
        selected: bool,
    ) -> (result: Result<String, XlsxError>)
        requires
            self.wf(),
        ensures
            match assemble_error(self@, strings.strings(), xf@) {
                Some(e) => result == Err::<String, XlsxError>(e),
                None => result matches Ok(text) && text@ == worksheet_xml_text(
                    self@,
                    strings.strings(),
                    xf@,
                    selected,
                ),
            },
    {
        proof {
            reveal(worksheet_xml_text);
        }
        proof {
            self.lemma_view();
        }
        if xf.len() < self.formats.len() {
            return Err(XlsxError::UnknownFormat);
        }
        let mut writer = XMLWriter::new();
        self.write_head(&mut writer, selected);
        self.write_cols(&mut writer, xf);
        let known = self.write_sheet_data(&mut writer, strings, xf);
        if !known {
            return Err(XlsxError::UnknownSharedString);
        }
        self.write_tail(&mut writer);
        let text = writer.read_to_string();
        proof {
            assert(text@ =~= worksheet_xml_text(self@, strings.strings(), xf@, selected));
        }
        Ok(text)
    }

    /// Interns the texts of the cells of the worksheet, in the order in
    /// which the worksheet part lists its cells.
    pub fn collect_strings(&self, table: &mut SharedStringTable)
        requires
            self.wf(),
            old(table).wf(),
        ensures
            final(table).wf(),
            final(table).strings() == strings_interned(self@, old(table).strings()),
            final(table).count() == strings_counted(self@, old(table).count()),
            extends(old(table).strings(), final(table).strings()),
            strings_known(self@, final(table).strings()),
    {
        proof {
            self.lemma_view();
            self.lemma_listings();
            self.rows.lemma_keys();
        }
        let ghost view = self@;
        let ghost rows = self.rows.keys();
        let ghost start = table.strings();
        let ghost start_count = table.count();
        let count = self.rows.len();
        let mut i: usize = 0;
        proof {
            assert(rows.take(0) =~= Seq::<u32>::empty());
        }
        while i < count
            invariant
                i <= count,
                count == rows.len(),
                rows == self.rows.keys(),
                self.wf(),
                self.parts_wf(),
                view == self@,
                view == self.parts_view(),
                self.rows.keys_are_ordered(),
                forall|r: u32| #[trigger]
                    self.rows@.contains_key(r) ==> self.rows@[r].cells.keys() == ascending_keys(
                        row_columns(view, r),
                    ),
                table.wf(),
                table.strings() == rows_interned(view, start, rows.take(i as int)),
                table.count() == rows_counted(view, start_count, rows.take(i as int)),
                extends(start, table.strings()),
                forall|k: int, c: ColNum|
                    0 <= k < i && #[trigger] view.cells.contains_key((rows[k], c)) ==> (view.cells[(
                        rows[k],
                        c,
                    )].value matches CellValueView::String(text) ==> table.strings().contains(text)),
            decreases count - i,
        {
            let number = self.rows.key_at(i);
            let row = self.rows.value_at(i);
            proof {
                assert(row_wf(*row, self.formats.entries().len()));
                row.cells.lemma_keys();
                assert(rows.take(i + 1).drop_last() =~= rows.take(i as int));
                assert(rows.take(i + 1).last() == number);
            }
            let ghost columns = row.cells.keys();
            let ghost row_start = table.strings();
            let ghost row_start_count = table.count();
            let cells = row.cells.len();
            let mut j: usize = 0;
            proof {
                assert(columns.take(0) =~= Seq::<u32>::empty());
            }
            while j < cells
                invariant
                    j <= cells,
                    cells == columns.len(),
                    columns == row.cells.keys(),
                    row.cells.wf(),
                    row.cells.keys_are_ordered(),
                    self.rows@.contains_key(number),
                    self.rows@[number] == *row,
                    row_wf(*row, self.formats.entries().len()),
                    view == self.parts_view(),
                    table.wf(),
                    table.strings() == cells_interned(view, row_start, number, columns.take(j as int)),
                    table.count() == cells_counted(
                        view,
                        row_start_count,
                        number,
                        columns.take(j as int),
                    ),
                    extends(row_start, table.strings()),
                    forall|k: int|
                        0 <= k < j ==> (row.cells@[#[trigger] columns[k]].value@ matches CellValueView::String(
                            text,
                        ) ==> table.strings().contains(text)),
                decreases cells - j,
            {
                let col = row.cells.key_at(j);
                let cell = row.cells.value_at(j);
                let ghost before = table.strings();
                proof {
                    assert(col < COL_MAX);
                    assert(view.cells[(number, col as u16)] == cell@);
                    assert(columns.take(j + 1).drop_last() =~= columns.take(j as int));
                    assert(columns.take(j + 1).last() == col);
                }
                match &cell.value {
                    CellValue::String(text) => {
                        table.intern(text);
                        proof {
                            lemma_registered_extends(before, text@);
                        }
                    },
                    _ => {},
                }
                j += 1;
            }
            proof {
                assert(columns.take(cells as int) =~= columns);
                assert forall|k: int, c: ColNum|
                    0 <= k < i + 1 && #[trigger] view.cells.contains_key(
                        (rows[k], c),
                    ) implies (view.cells[(rows[k], c)].value matches CellValueView::String(text)
                    ==> table.strings().contains(text)) by {
                    if k == i {
                        assert(row.cells@.contains_key(c as u32));
                        let p = choose|p: int|
                            0 <= p < columns.len() && #[trigger] columns[p] == c as u32;
                        assert(row.cells@[columns[p]].value@ == view.cells[(rows[k], c)].value);
                    }
                }
            }
            i += 1;
        }
        proof {
            assert(rows.take(count as int) =~= rows);
            assert forall|k: (RowNum, ColNum)| #[trigger] view.cells.contains_key(k) implies (
            view.cells[k].value matches CellValueView::String(text) ==> table.strings().contains(
                text,
            )) by {
                assert(self.rows@.contains_key(k.0));
                let p = choose|p: int| 0 <= p < rows.len() && #[trigger] rows[p] == k.0;
                assert(view.cells.contains_key((rows[p], k.1)));
            }
        }
    }

    /// Writes the element for the settings of the columns.
    pub(crate) fn write_cols(&self, writer: &mut XMLWriter, xf: &Vec<usize>)
        requires
            self.wf(),
            xf@.len() >= self@.formats.len(),
        ensures
            final(writer)@ == old(writer)@ + cols_text(self@, xf@),
    {
        proof {
            self.lemma_view();
            self.lemma_listings();
        }
        let ghost columns = self.columns.keys();
        let count = self.columns.len();
        if count == 0 {
            proof {
                assert(writer@ =~= old(writer)@ + cols_text(self@, xf@));
            }
            return ;
        }
        writer.xml_start_tag_only("cols");
        let ghost start = writer@;
        let mut i: usize = 0;
        proof {
            assert(columns.take(0) =~= Seq::<u32>::empty());
            assert(writer@ =~= start + col_items_text(self@, xf@, columns.take(0)));
        }
        while i < count
            invariant
                i <= count,
                count == columns.len(),
                columns == self.columns.keys(),
                self.wf(),
                self.parts_wf(),
                self@ == self.parts_view(),
                xf@.len() >= self@.formats.len(),
                writer@ == start + col_items_text(self@, xf@, columns.take(i as int)),
            decreases count - i,
        {
            let ghost before = writer@;
            let key = self.columns.key_at(i);
            let options = self.columns.value_at(i);
            proof {
                assert(key < COL_MAX);
                assert(self@.columns[key as u16] == *options);
            }
            let style = xf[options.xf_index];
            let attributes = col_attributes_of(key as u16, options, style);
            writer.xml_empty_tag("col", &attributes);
            proof {
                assert(columns.take(i + 1).drop_last() =~= columns.take(i as int));
                assert(columns.take(i + 1).last() == key);
                assert(writer@ =~= start + col_items_text(self@, xf@, columns.take(i + 1)));
            }
            i += 1;
        }
        proof {
            assert(columns.take(count as int) =~= columns);
        }
        writer.xml_end_tag("cols");
        proof {
            assert(writer@ =~= old(writer)@ + cols_text(self@, xf@));
        }
    }

    /// Writes the element of one row. A text that the table `strings` does
    /// not hold cannot be written: then the element is left unfinished.
    pub(crate) fn write_row(
        &self,
        writer: &mut XMLWriter,
        strings: &SharedStringTable,
        xf: &Vec<usize>,
        index: usize,
    ) -> (known: bool)
        requires
            self.wf(),
            xf@.len() >= self@.formats.len(),
            index < self.rows.keys().len(),
        ensures
            known == (forall|c: ColNum| #[trigger]
                self@.cells.contains_key((self.rows.keys()[index as int], c)) ==> (self@.cells[(
                    self.rows.keys()[index as int],
                    c,
                )].value matches CellValueView::String(text) ==> strings.strings().contains(text))),
            known ==> final(writer)@ == old(writer)@ + row_text(
                self@,
                strings.strings(),
                xf@,
                self.rows.keys()[index as int],
            ),
    {
        proof {
            self.lemma_view();
            self.lemma_listings();
        }
        let number = self.rows.key_at(index);
        let row = self.rows.value_at(index);
        proof {
            assert(row_wf(*row, self.formats.entries().len()));
            assert(self@.rows[number] == row.options);
        }
        let ghost columns = row.cells.keys();
        let ghost view = self@;
        let ghost texts = strings.strings();
        let count = row.cells.len();
        let row_style = xf[row.options.xf_index];
        let attributes = row_attributes_of(number, &row.options, row_style);
        if count == 0 {
            writer.xml_empty_tag("row", &attributes);
            proof {
                assert forall|c: ColNum| #[trigger] self@.cells.contains_key((number, c)) implies (
                self@.cells[(number, c)].value matches CellValueView::String(text)
                    ==> strings.strings().contains(text)) by {
                    row.cells.lemma_keys();
                    assert(row.cells@.contains_key(c as u32));
                }
            }
            return true;
        }
        writer.xml_start_tag("row", &attributes);
        let ghost start = writer@;
        let column_style = 0usize;
        let mut j: usize = 0;
        proof {
            assert(columns.take(0) =~= Seq::<u32>::empty());
            assert(writer@ =~= start + row_cells_text(view, texts, xf@, number, columns.take(0)));
        }
        while j < count
            invariant
                j <= count,
                count == columns.len(),
                columns == row.cells.keys(),
                row.cells.wf(),
                self.wf(),
                self.parts_wf(),
                view == self@,
                view == self.parts_view(),
                texts == strings.strings(),
                self.rows@.contains_key(number),
                index < self.rows.keys().len(),
                number == self.rows.keys()[index as int],
                self.rows@[number] == *row,
                row_wf(*row, self.formats.entries().len()),
                xf@.len() >= view.formats.len(),
                writer@ == start + row_cells_text(view, texts, xf@, number, columns.take(j as int)),
                forall|k: int|
                    0 <= k < j ==> (row.cells@[#[trigger] columns[k]].value@ matches CellValueView::String(
                        text,
                    ) ==> texts.contains(text)),
            decreases count - j,
        {
            let col = row.cells.key_at(j);
            let cell = row.cells.value_at(j);
            proof {
                assert(col < COL_MAX);
                assert(view.cells.contains_key((number, col as u16)));
                assert(view.cells[(number, col as u16)] == cell@);
            }
            let local = if cell.xf_index != 0 {
                cell.xf_index
            } else if row.options.xf_index != 0 {
                row.options.xf_index
            } else {
                match self.columns.get(col) {
                    Some(options) => options.xf_index,
                    None => 0,
                }
            };
            proof {
                assert(local == effective_xf(view, number, col as u16));
                assert(local < view.formats.len());
            }
            let style = xf[local];
            let known = write_cell(writer, number, col as u16, &cell.value, style, strings);
            if !known {
                proof {
                    let c = col as u16;
                    assert(self@.cells.contains_key((number, c)));
                    assert(self@.cells[(number, c)].value == cell.value@);
                }
                return false;
            }
            proof {
                assert(columns.take(j + 1).drop_last() =~= columns.take(j as int));
                assert(columns.take(j + 1).last() == col);
                assert(writer@ =~= start + row_cells_text(
                    view,
                    texts,
                    xf@,
                    number,
                    columns.take(j + 1),
                ));
            }
            j += 1;
        }
        proof {
            assert(columns.take(count as int) =~= columns);
            assert forall|c: ColNum| #[trigger] self@.cells.contains_key((number, c)) implies (
            self@.cells[(number, c)].value matches CellValueView::String(text)
                ==> strings.strings().contains(text)) by {
                row.cells.lemma_keys();
                assert(row.cells@.contains_key(c as u32));
                let k = choose|k: int| 0 <= k < columns.len() && #[trigger] columns[k] == c as u32;
                assert(row.cells@[columns[k]].value@ == self@.cells[(number, c)].value);
            }
        }
        writer.xml_end_tag("row");
        proof {
            assert(writer@ =~= old(writer)@ + row_text(view, texts, xf@, number));
        }
        true
    }

    /// Writes the element that holds the rows. A text that the table
    /// `strings` does not hold cannot be written: then the element is left
    /// unfinished.
    pub(crate) fn write_sheet_data(
        &self,
        writer: &mut XMLWriter,
        strings: &SharedStringTable,
        xf: &Vec<usize>,
    ) -> (known: bool)
        requires
            self.wf(),
            xf@.len() >= self@.formats.len(),
        ensures
            known == strings_known(self@, strings.strings()),
            known ==> final(writer)@ == old(writer)@ + sheet_data_text(
                self@,
                strings.strings(),
                xf@,
            ),
    {
        proof {
            self.lemma_view();
            self.lemma_listings();
        }
        let ghost rows = self.rows.keys();
        let ghost view = self@;
        let ghost texts = strings.strings();
        let count = self.rows.len();
        if count == 0 {
            writer.xml_empty_tag_only("sheetData");
            proof {
                assert forall|k: (RowNum, ColNum)| #[trigger] view.cells.contains_key(k) implies (
                view.cells[k].value matches CellValueView::String(text) ==> texts.contains(text)) by {
                    self.rows.lemma_keys();
                    assert(self.rows@.contains_key(k.0));
                }
            }
            return true;
        }
        writer.xml_start_tag_only("sheetData");
        let ghost start = writer@;
        let mut i: usize = 0;
        proof {
            assert(rows.take(0) =~= Seq::<u32>::empty());
            assert(writer@ =~= start + rows_text(view, texts, xf@, rows.take(0)));
        }
        while i < count
            invariant
                i <= count,
                count == rows.len(),
                rows == self.rows.keys(),
                self.wf(),
                view == self@,
                texts == strings.strings(),
                xf@.len() >= view.formats.len(),
                writer@ == start + rows_text(view, texts, xf@, rows.take(i as int)),
                forall|k: int, c: ColNum|
                    0 <= k < i && #[trigger] view.cells.contains_key((rows[k], c)) ==> (view.cells[(
                        rows[k],
                        c,
                    )].value matches CellValueView::String(text) ==> texts.contains(text)),
            decreases count - i,
        {
            let known = self.write_row(writer, strings, xf, i);
            if !known {
                proof {
                    let r = rows[i as int];
                    let c = choose|c: ColNum| #[trigger]
                        view.cells.contains_key((r, c)) && !(view.cells[(
                            r,
                            c,
                        )].value matches CellValueView::String(text) ==> texts.contains(text));
                    assert(view.cells.contains_key((r, c)));
                }
                return false;
            }
            proof {
                assert(rows.take(i + 1).drop_last() =~= rows.take(i as int));
                assert(rows.take(i + 1).last() == rows[i as int]);
                assert(writer@ =~= start + rows_text(view, texts, xf@, rows.take(i + 1)));
            }
            i += 1;
        }
        proof {
            assert(rows.take(count as int) =~= rows);
            assert forall|k: (RowNum, ColNum)| #[trigger] view.cells.contains_key(k) implies (
            view.cells[k].value matches CellValueView::String(text) ==> texts.contains(text)) by {
                self.rows.lemma_keys();
                assert(self.rows@.contains_key(k.0));
                let p = choose|p: int| 0 <= p < rows.len() && #[trigger] rows[p] == k.0;
                assert(view.cells.contains_key((rows[p], k.1)));
            }
        }
        writer.xml_end_tag("sheetData");
        proof {
            assert(writer@ =~= old(writer)@ + sheet_data_text(view, texts, xf@));
        }
        true
    }
}

/// The text `element` between the texts `head` and `tail`.
pub open spec fn framed(head: Seq<char>, element: Seq<char>, tail: Seq<char>) -> Seq<char> {
    head + element + tail
}

/// Whether the text `whole` holds the text `element` as one piece.
pub open spec fn holds_text(whole: Seq<char>, element: Seq<char>) -> bool {
    exists|head: Seq<char>, tail: Seq<char>| #[trigger] framed(head, element, tail) == whole
}

/// A text that holds a piece holds every piece of that piece, and a text
/// around a piece holds the piece.
pub proof fn lemma_holds_text(whole: Seq<char>, middle: Seq<char>, element: Seq<char>)
    requires
        holds_text(middle, element),
        holds_text(whole, middle),
    ensures
        holds_text(whole, element),
{
    let (h1, t1) = choose|head: Seq<char>, tail: Seq<char>| #[trigger]
        framed(head, element, tail) == middle;
    let (h2, t2) = choose|head: Seq<char>, tail: Seq<char>| #[trigger]
        framed(head, middle, tail) == whole;
    assert(framed(h2 + h1, element, t1 + t2) =~= whole);
}

/// The elements of the cells of a row hold the element of each of these
/// cells.
pub proof fn lemma_row_cells_text_holds(
    view: WorksheetView,
    strings: Seq<Seq<char>>,
    xf: Seq<usize>,
    row: RowNum,
    columns: Seq<u32>,
    position: int,
)
    requires
        0 <= position < columns.len(),
    ensures
        holds_text(
            row_cells_text(view, strings, xf, row, columns),
            cell_text(
                row,
                columns[position] as ColNum,
                view.cells[(row, columns[position] as ColNum)].value,
                xf[effective_xf(view, row, columns[position] as ColNum) as int],
                strings,
            ),
        ),
    decreases columns.len(),
{
    let whole = row_cells_text(view, strings, xf, row, columns);
    let front = row_cells_text(view, strings, xf, row, columns.drop_last());
    let last_col = columns.last() as ColNum;
    let last = cell_text(
        row,
        last_col,
        view.cells[(row, last_col)].value,
        xf[effective_xf(view, row, last_col) as int],
        strings,
    );
    if position == columns.len() - 1 {
        assert(framed(front, last, Seq::<char>::empty()) =~= whole);
    } else {
        lemma_row_cells_text_holds(view, strings, xf, row, columns.drop_last(), position);
        assert(framed(Seq::<char>::empty(), front, last) =~= whole);
        lemma_holds_text(
            whole,
            front,
            cell_text(
                row,
                columns[position] as ColNum,
                view.cells[(row, columns[position] as ColNum)].value,
                xf[effective_xf(view, row, columns[position] as ColNum) as int],
                strings,
            ),
        );
    }
}

/// The elements of rows hold the element of each of these rows.
pub proof fn lemma_rows_text_holds(
    view: WorksheetView,
    strings: Seq<Seq<char>>,
    xf: Seq<usize>,
    rows: Seq<u32>,
    position: int,
)
    requires
        0 <= position < rows.len(),
    ensures
        holds_text(
            rows_text(view, strings, xf, rows),
            row_text(view, strings, xf, rows[position]),
        ),
    decreases rows.len(),
{
    let whole = rows_text(view, strings, xf, rows);
    let front = rows_text(view, strings, xf, rows.drop_last());
    let last = row_text(view, strings, xf, rows.last());
    if position == rows.len() - 1 {
        assert(framed(front, last, Seq::<char>::empty()) =~= whole);
    } else {
        lemma_rows_text_holds(view, strings, xf, rows.drop_last(), position);
        assert(framed(Seq::<char>::empty(), front, last) =~= whole);
        lemma_holds_text(whole, front, row_text(view, strings, xf, rows[position]));
    }
}

/// Every cell that a worksheet holds is written: the worksheet part holds
/// the element of the cell, which states the position of the cell and
/// exactly what the cell holds (see `cell_text`).
pub proof fn lemma_cell_is_written(
    worksheet: Worksheet,
    strings: Seq<Seq<char>>,
    xf: Seq<usize>,
    selected: bool,
    row: RowNum,
    col: ColNum,
)
    requires
        worksheet.wf(),
        worksheet@.cells.contains_key((row, col)),
    ensures
        holds_text(
            worksheet_xml_text(worksheet@, strings, xf, selected),
            cell_text(
                row,
                col,
                worksheet@.cells[(row, col)].value,
                xf[effective_xf(worksheet@, row, col) as int],
                strings,
            ),
        ),
{
    reveal(worksheet_xml_text);
    let view = worksheet@;
    worksheet.lemma_view();
    worksheet.lemma_listings();
    worksheet.rows.lemma_keys();
    let rows = worksheet.rows.keys();
    assert(worksheet.rows@.contains_key(row));
    let p = choose|p: int| 0 <= p < rows.len() && #[trigger] rows[p] == row;
    let row_data = worksheet.rows@[row];
    assert(row_wf(row_data, worksheet.formats.entries().len()));
    row_data.cells.lemma_keys();
    let columns = row_data.cells.keys();
    assert(row_data.cells@.contains_key(col as u32));
    let q = choose|q: int| 0 <= q < columns.len() && #[trigger] columns[q] == col as u32;
    assert(columns[q] as ColNum == col);

    let element = cell_text(
        row,
        col,
        view.cells[(row, col)].value,
        xf[effective_xf(view, row, col) as int],
        strings,
    );
    let cells = row_cells_text(view, strings, xf, row, columns);
    lemma_row_cells_text_holds(view, strings, xf, row, columns, q);

    let attributes = row_attributes(row, view.rows[row], xf[view.rows[row].xf_index as int]);
    let row_element = row_text(view, strings, xf, row);
    assert(framed(start_tag_text("row"@, attributes), cells, end_tag_text("row"@))
        =~= row_element);
    lemma_holds_text(row_element, cells, element);

    let all_rows = rows_text(view, strings, xf, rows);
    lemma_rows_text_holds(view, strings, xf, rows, p);
    lemma_holds_text(all_rows, row_element, element);

    let data = sheet_data_text(view, strings, xf);
    assert(framed(start_tag_text("sheetData"@, Seq::empty()), all_rows, end_tag_text("sheetData"@))
        =~= data);
    lemma_holds_text(data, all_rows, element);

    let part = worksheet_xml_text(view, strings, xf, selected);
    assert(framed(
        worksheet_head_text(view, selected) + cols_text(view, xf),
        data,
        worksheet_tail_text(view),
    ) =~= part);
    lemma_holds_text(part, data, element);
}

/// What is written at a cell of the grid stands in the worksheet part: the
/// part holds the element of the cell with exactly the value that was
/// written. A number stands as its numeral, a text as its position in the
/// shared-string table, a truth value as `1` or `0` (see `cell_text`).
pub proof fn lemma_written_value_is_in_part(
    before: WorksheetView,
    after: Worksheet,
    row: RowNum,
    col: ColNum,
    value: CellValueView,
    format: Option<crate::format::FormatView>,
    strings: Seq<Seq<char>>,
    xf: Seq<usize>,
    selected: bool,
)
    requires
        after.wf(),
        Worksheet::in_grid(row, col),
        after@ == Worksheet::with_cell(before, row, col, value, format),
    ensures
        holds_text(
            worksheet_xml_text(after@, strings, xf, selected),
            cell_text(row, col, value, xf[effective_xf(after@, row, col) as int], strings),
        ),
{
    lemma_cell_is_written(after, strings, xf, selected, row, col);
}

/// A table holds after a registration what it held before, and the text
/// that was registered.
pub proof fn lemma_registered_extends(strings: Seq<Seq<char>>, text: Seq<char>)
    ensures
        extends(strings, crate::registry::registered(strings, text)),
        crate::registry::registered(strings, text).contains(text),
{
    let after = crate::registry::registered(strings, text);
    assert forall|t: Seq<char>| strings.contains(t) implies after.contains(t) by {
        let k = choose|k: int| 0 <= k < strings.len() && strings[k] == t;
        assert(after[k] == t);
    }
    if !strings.contains(text) {
        assert(after[strings.len() as int] == text);
    }
}

} // verus!
