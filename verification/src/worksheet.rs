//! The grid model of a worksheet: its cells, the settings of its rows and
//! columns, and what is attached to ranges of cells.
//!
//! Cells are stored sparsely, by row and column. A write at a cell replaces
//! what the cell held. Every row, column and range is checked against the
//! limits of the grid when it is given, and a call that breaks a limit
//! changes nothing.

use vstd::prelude::*;
use vstd::string::*;
use crate::conditional_format::{ConditionalFormat, PlacedConditionalFormat};
use crate::error::XlsxError;
use crate::format::{default_format, Format, FormatView};
use crate::image::{DensityUnit, Image, MediaView, Resolution};
use crate::number::Number;
use crate::registry::{first_index_of, lemma_first_index_of, registered, Descriptor, Registry};
use crate::serializer::{names_view, SerializerState};
use crate::sorted_map::SortedMap;
use crate::utility::{
    begins_with, decimal_text, has_prefix, push_decimal, skip_chars, str_equal, ColNum, RowNum,
    COL_MAX, MAX_STRING_LEN, MAX_URL_LEN, ROW_MAX,
};

verus! {

/// What a cell holds.
#[derive(Debug)]
pub enum CellValue {
    /// Nothing: the cell is there to carry a format.
    Blank,
    Boolean(bool),
    Number(Number),
    String(String),
    /// A formula without the leading `=`, and the result that the worksheet
    /// shows until the formula is calculated anew.
    Formula { formula: String, result: String },
    /// A formula that fills the range `range`, of which this cell is the
    /// first. A dynamic formula fills the range of its own accord.
    ArrayFormula { formula: String, result: String, range: CellRange, dynamic: bool },
}

/// What a cell holds, as a plain value.
pub enum CellValueView {
    Blank,
    Boolean(bool),
    Number(Seq<char>),
    String(Seq<char>),
    Formula { formula: Seq<char>, result: Seq<char> },
    ArrayFormula { formula: Seq<char>, result: Seq<char>, range: CellRange, dynamic: bool },
}

impl View for CellValue {
    type V = CellValueView;

    open spec fn view(&self) -> CellValueView {
        match self {
            CellValue::Blank => CellValueView::Blank,
            CellValue::Boolean(b) => CellValueView::Boolean(*b),
            CellValue::Number(n) => CellValueView::Number(n@),
            CellValue::String(s) => CellValueView::String(s@),
            CellValue::Formula { formula, result } => CellValueView::Formula {
                formula: formula@,
                result: result@,
            },
            CellValue::ArrayFormula { formula, result, range, dynamic } => CellValueView::ArrayFormula {
                formula: formula@,
                result: result@,
                range: *range,
                dynamic: *dynamic,
            },
        }
    }
}

impl CellValue {
    /// A number is a numeral, a text is no longer than a cell may hold, and
    /// the range of a formula lies in the grid.
    pub open spec fn wf(&self) -> bool {
        match self {
            CellValue::Number(n) => n.wf(),
            CellValue::String(s) => s@.len() <= MAX_STRING_LEN,
            CellValue::ArrayFormula { formula, result, range, dynamic } => range.wf(),
            _ => true,
        }
    }
}

/// A formula for a cell.
#[derive(Clone, Debug)]
pub struct Formula {
    /// The formula without the leading `=`.
    pub formula: String,
    /// The result that the worksheet shows until the formula is calculated
    /// anew; the empty text leaves it to the worksheet.
    pub result: String,
}

/// The text `text` without the character `c` that may stand before it.
pub open spec fn without_first(text: Seq<char>, c: char) -> Seq<char> {
    if text.len() > 0 && text[0] == c {
        text.skip(1)
    } else {
        text
    }
}

/// The text `text` without the braces in which it may stand.
pub open spec fn without_braces(text: Seq<char>) -> Seq<char> {
    if text.len() >= 2 && text[0] == '{' && text.last() == '}' {
        text.subrange(1, text.len() - 1)
    } else {
        text
    }
}

/// A formula as the worksheet part holds it: without the braces in which
/// it may stand, and without the `=` that may stand before it.
pub open spec fn formula_text(formula: Seq<char>) -> Seq<char> {
    without_first(without_braces(formula), '=')
}

impl Formula {
    /// The formula `formula`, which may begin with `=` and may stand in
    /// braces, without a result of its own.
    pub fn new(formula: &str) -> (f: Formula)
        ensures
            f.formula@ == formula_text(formula@),
            f.result@ == Seq::<char>::empty(),
    {
        let length = formula.unicode_len();
        let mut from: usize = 0;
        let mut to: usize = length;
        if length >= 2 && formula.get_char(0) == '{' && formula.get_char(length - 1) == '}' {
            from = 1;
            to = length - 1;
        }
        proof {
            assert(formula@.subrange(from as int, to as int) =~= without_braces(formula@));
        }
        let ghost unbraced = formula@.subrange(from as int, to as int);
        if from < to && formula.get_char(from) == '=' {
            proof {
                assert(unbraced[0] == formula@[from as int]);
            }
            from = from + 1;
        }
        proof {
            assert(formula@.subrange(from as int, to as int) =~= without_first(unbraced, '='));
        }
        Formula { formula: formula.substring_char(from, to).to_owned(), result: String::new() }
    }

    /// Sets the result that the worksheet shows for the formula.
    pub fn set_result(self, result: &str) -> (f: Formula)
        ensures
            f.formula@ == self.formula@,
            f.result@ == result@,
    {
        Formula { formula: self.formula, result: result.to_owned() }
    }

    /// The result that a worksheet with the default result `default` shows
    /// for the formula.
    pub open spec fn shown_result(&self, default: Seq<char>) -> Seq<char> {
        if self.result@.len() == 0 {
            default
        } else {
            self.result@
        }
    }
}

/// A cell: what it holds and the position of its format in the format table
/// of the worksheet. Position 0 is the default format and stands for "no
/// format of its own".
#[derive(Debug)]
pub struct Cell {
    pub value: CellValue,
    pub xf_index: usize,
}

/// A cell as a plain value.
pub struct CellView {
    pub value: CellValueView,
    pub xf_index: usize,
}

impl View for Cell {
    type V = CellView;

    open spec fn view(&self) -> CellView {
        CellView { value: self.value@, xf_index: self.xf_index }
    }
}

/// The settings of a row.
#[derive(Clone, Copy, Debug, PartialEq, Eq, Structural)]
pub struct RowOptions {
    /// Whether the row has a height of its own.
    pub custom_height: bool,
    /// The height in pixels, where the row has one of its own.
    pub height: u16,
    /// The position of the format of the row in the format table.
    pub xf_index: usize,
    pub hidden: bool,
    /// The number of groups that the row belongs to, one within the other.
    pub level: u8,
}

/// The settings of a column.
#[derive(Clone, Copy, Debug, PartialEq, Eq, Structural)]
pub struct ColOptions {
    /// Whether the column has a width of its own.
    pub custom_width: bool,
    /// The width in pixels, where the column has one of its own.
    pub width: u16,
    /// The position of the format of the column in the format table.
    pub xf_index: usize,
    pub hidden: bool,
    /// The number of groups that the column belongs to, one within the
    /// other.
    pub level: u8,
}

/// The largest number of groups, one within the other, that a row or a
/// column can belong to.
pub const MAX_OUTLINE_LEVEL: u8 = 7;

/// The height of a row without a height of its own, in pixels.
pub const DEFAULT_ROW_HEIGHT: u16 = 20;

/// The width of a column without a width of its own, in pixels.
pub const DEFAULT_COL_WIDTH: u16 = 64;

/// The settings of a row for which nothing was chosen.
pub open spec fn default_row_options() -> RowOptions {
    RowOptions {
        custom_height: false,
        height: DEFAULT_ROW_HEIGHT,
        xf_index: 0,
        hidden: false,
        level: 0,
    }
}

/// The settings of a column for which nothing was chosen.
pub open spec fn default_col_options() -> ColOptions {
    ColOptions {
        custom_width: false,
        width: DEFAULT_COL_WIDTH,
        xf_index: 0,
        hidden: false,
        level: 0,
    }
}

/// A rectangle of cells, by its first and last row and column.
#[derive(Clone, Copy, Debug, PartialEq, Eq, Structural)]
pub struct CellRange {
    pub first_row: RowNum,
    pub first_col: ColNum,
    pub last_row: RowNum,
    pub last_col: ColNum,
}

impl CellRange {
    /// The range lies inside the grid and does not run backwards.
    pub open spec fn wf(&self) -> bool {
        self.first_row <= self.last_row < ROW_MAX && self.first_col <= self.last_col < COL_MAX
    }

    /// Whether the cell at `(row, col)` lies in the range.
    pub open spec fn contains(&self, row: RowNum, col: ColNum) -> bool {
        self.first_row <= row <= self.last_row && self.first_col <= col <= self.last_col
    }

    /// Whether the two ranges share a cell.
    pub open spec fn overlaps(&self, other: CellRange) -> bool {
        self.first_row <= other.last_row && other.first_row <= self.last_row && self.first_col
            <= other.last_col && other.first_col <= self.last_col
    }

    /// Whether the two ranges share a cell.
    pub fn intersects(&self, other: &CellRange) -> (r: bool)
        ensures
            r == self.overlaps(*other),
    {
        self.first_row <= other.last_row && other.first_row <= self.last_row && self.first_col
            <= other.last_col && other.first_col <= self.last_col
    }
}

/// Two ranges that lie in the grid share a cell exactly when some cell lies
/// in both.
pub proof fn lemma_overlap_is_shared_cell(a: CellRange, b: CellRange)
    requires
        a.wf(),
        b.wf(),
    ensures
        a.overlaps(b) <==> exists|row: RowNum, col: ColNum|
            a.contains(row, col) && b.contains(row, col),
{
    if a.overlaps(b) {
        let row = if a.first_row >= b.first_row {
            a.first_row
        } else {
            b.first_row
        };
        let col = if a.first_col >= b.first_col {
            a.first_col
        } else {
            b.first_col
        };
        assert(a.contains(row, col) && b.contains(row, col));
    }
}

/// Whether no two ranges of `ranges` share a cell.
pub open spec fn pairwise_disjoint(ranges: Seq<CellRange>) -> bool {
    forall|i: int, j: int|
        0 <= i < ranges.len() && 0 <= j < ranges.len() && i != j ==> !ranges[i].overlaps(ranges[j])
}

/// How a worksheet is laid out on paper.
#[derive(Clone, Copy, Debug, PartialEq, Eq, Structural)]
pub struct PageSetup {
    /// The paper size by its number in the file format; 0 leaves it to the
    /// printer.
    pub paper_size: u8,
    pub print_gridlines: bool,
    pub print_headings: bool,
    pub center_horizontally: bool,
    pub center_vertically: bool,
}

/// The layout for which nothing was chosen.
pub open spec fn default_page_setup() -> PageSetup {
    PageSetup {
        paper_size: 0,
        print_gridlines: false,
        print_headings: false,
        center_horizontally: false,
        center_vertically: false,
    }
}

/// Where a link leads.
#[derive(Clone, Copy, Debug, PartialEq, Eq, Structural)]
pub enum LinkKind {
    /// To an address outside the workbook.
    External,
    /// To a place in the workbook, such as `Sheet2!A1`.
    Internal,
}

/// A link at a cell.
pub struct Hyperlink {
    pub row: RowNum,
    pub col: ColNum,
    pub kind: LinkKind,
    /// The address, or the place in the workbook.
    pub target: String,
}

/// A link at a cell as a plain value.
pub struct HyperlinkView {
    pub row: RowNum,
    pub col: ColNum,
    pub kind: LinkKind,
    pub target: Seq<char>,
}

impl View for Hyperlink {
    type V = HyperlinkView;

    open spec fn view(&self) -> HyperlinkView {
        HyperlinkView { row: self.row, col: self.col, kind: self.kind, target: self.target@ }
    }
}

/// The links `links` as plain values.
pub open spec fn links_view(links: Seq<Hyperlink>) -> Seq<HyperlinkView> {
    Seq::new(links.len(), |i: int| links[i]@)
}

/// Whether `url` is an address outside the workbook: it begins with one of
/// the schemes `http://`, `https://`, `ftp://`, `mailto:` and `file://`.
pub open spec fn is_external_url(url: Seq<char>) -> bool {
    begins_with(url, "http://"@) || begins_with(url, "https://"@) || begins_with(url, "ftp://"@)
        || begins_with(url, "mailto:"@) || begins_with(url, "file://"@)
}

/// Whether `url` is a place in the workbook: it begins with `internal:`.
pub open spec fn is_internal_url(url: Seq<char>) -> bool {
    begins_with(url, "internal:"@)
}

/// The link that `url` stands for at the cell at `(row, col)`: a place in
/// the workbook, named after `internal:`, or else an address.
pub open spec fn link_of(row: RowNum, col: ColNum, url: Seq<char>) -> HyperlinkView {
    if is_internal_url(url) {
        HyperlinkView {
            row,
            col,
            kind: LinkKind::Internal,
            target: url.skip("internal:"@.len() as int),
        }
    } else {
        HyperlinkView { row, col, kind: LinkKind::External, target: url }
    }
}

/// The links of `links` that are not at the cell at `(row, col)`, in
/// order.
pub open spec fn links_without(links: Seq<HyperlinkView>, row: RowNum, col: ColNum) -> Seq<
    HyperlinkView,
>
    decreases links.len(),
{
    if links.len() == 0 {
        Seq::empty()
    } else if links[0].row == row && links[0].col == col {
        links_without(links.drop_first(), row, col)
    } else {
        seq![links[0]] + links_without(links.drop_first(), row, col)
    }
}

/// The options of a table: the names of its columns, whether it has a row
/// of headers, whether the headers have a filter, and the name of its
/// style.
pub struct Table {
    /// The names of the columns from left to right. A column without a
    /// name, or with an empty one, is named `Column` with its number.
    pub columns: Vec<String>,
    pub header_row: bool,
    pub autofilter: bool,
    pub style: String,
}

/// The name of the style of a table for which none is chosen.
pub open spec fn default_table_style() -> Seq<char> {
    "TableStyleMedium9"@
}

impl Table {
    /// The options of a table for which nothing is chosen: columns named by
    /// their numbers, a row of headers with a filter, and the default style.
    pub fn new() -> (table: Table)
        ensures
            table.columns@.len() == 0,
            table.header_row,
            table.autofilter,
            table.style@ == default_table_style(),
    {
        Table {
            columns: Vec::new(),
            header_row: true,
            autofilter: true,
            style: "TableStyleMedium9".to_owned(),
        }
    }

    /// Sets the names of the columns, from left to right.
    pub fn set_columns(self, columns: &Vec<String>) -> (table: Table)
        ensures
            names_view(table.columns@) == names_view(columns@),
            table.header_row == self.header_row,
            table.autofilter == self.autofilter,
            table.style == self.style,
    {
        let mut names: Vec<String> = Vec::new();
        let mut i: usize = 0;
        while i < columns.len()
            invariant
                i <= columns.len(),
                names@.len() == i,
                forall|k: int| 0 <= k < i ==> (#[trigger] names@[k])@ == columns@[k]@,
            decreases columns.len() - i,
        {
            names.push(columns[i].clone());
            i += 1;
        }
        proof {
            assert(names_view(names@) =~= names_view(columns@));
        }
        Table { columns: names, header_row: self.header_row, autofilter: self.autofilter, style: self.style }
    }

    /// Shows or hides the row of headers.
    pub fn set_header_row(self, enable: bool) -> (table: Table)
        ensures
            table == (Table { header_row: enable, ..self }),
    {
        Table { header_row: enable, ..self }
    }

    /// Gives the headers a filter, or takes it away.
    pub fn set_autofilter(self, enable: bool) -> (table: Table)
        ensures
            table == (Table { autofilter: enable, ..self }),
    {
        Table { autofilter: enable, ..self }
    }

    /// Sets the name of the style.
    pub fn set_style(self, style: &str) -> (table: Table)
        ensures
            table.style@ == style@,
            table == (Table { style: table.style, ..self }),
    {
        Table { style: style.to_owned(), ..self }
    }
}

/// A table at its place in a worksheet.
pub struct PlacedTable {
    pub range: CellRange,
    /// The names of the columns, one for each column of the range.
    pub columns: Vec<String>,
    pub header_row: bool,
    pub autofilter: bool,
    pub style: String,
}

/// A table at its place in a worksheet, as a plain value.
pub struct PlacedTableView {
    pub range: CellRange,
    pub columns: Seq<Seq<char>>,
    pub header_row: bool,
    pub autofilter: bool,
    pub style: Seq<char>,
}

impl View for PlacedTable {
    type V = PlacedTableView;

    open spec fn view(&self) -> PlacedTableView {
        PlacedTableView {
            range: self.range,
            columns: names_view(self.columns@),
            header_row: self.header_row,
            autofilter: self.autofilter,
            style: self.style@,
        }
    }
}

/// The tables `tables` as plain values.
pub open spec fn tables_view(tables: Seq<PlacedTable>) -> Seq<PlacedTableView> {
    Seq::new(tables.len(), |i: int| tables[i]@)
}

/// The name of the column at `index`, counted from zero, of a table whose
/// options name the columns `names`: the name given for it, or `Column`
/// with its number where none is given.
pub open spec fn table_column_name(names: Seq<Seq<char>>, index: int) -> Seq<char> {
    if 0 <= index < names.len() && names[index].len() > 0 {
        names[index]
    } else {
        "Column"@ + decimal_text((index + 1) as nat)
    }
}

/// The names of the `count` columns of a table whose options name the
/// columns `names`.
pub open spec fn table_column_names(names: Seq<Seq<char>>, count: int) -> Seq<Seq<char>> {
    Seq::new(count as nat, |i: int| table_column_name(names, i))
}

/// Whether the ranges of one of the tables `tables` shares a cell with
/// `range`.
pub open spec fn overlaps_table(tables: Seq<PlacedTableView>, range: CellRange) -> bool {
    exists|i: int| 0 <= i < tables.len() && (#[trigger] tables[i]).range.overlaps(range)
}

/// The size of one pixel in the unit of drawings (EMU).
pub const EMU_PER_PIXEL: u64 = 9525;

/// An image at its place in a worksheet.
pub struct PlacedImage {
    /// The cell at whose upper left corner the image is anchored.
    pub row: RowNum,
    pub col: ColNum,
    /// The distance of the image from that corner, in pixels.
    pub x_offset: u32,
    pub y_offset: u32,
    /// The size at which the image is shown, in EMU.
    pub width: u64,
    pub height: u64,
    pub image: Image,
}

/// An image at its place in a worksheet, as a plain value.
pub struct PlacedImageView {
    pub row: RowNum,
    pub col: ColNum,
    pub x_offset: u32,
    pub y_offset: u32,
    pub width: u64,
    pub height: u64,
    pub media: MediaView,
    pub alt_text: Seq<char>,
}

impl View for PlacedImage {
    type V = PlacedImageView;

    open spec fn view(&self) -> PlacedImageView {
        PlacedImageView {
            row: self.row,
            col: self.col,
            x_offset: self.x_offset,
            y_offset: self.y_offset,
            width: self.width,
            height: self.height,
            media: self.image.media(),
            alt_text: self.image.alt_text_view(),
        }
    }
}

/// The images `images` as plain values.
pub open spec fn images_view(images: Seq<PlacedImage>) -> Seq<PlacedImageView> {
    Seq::new(images.len(), |i: int| images[i]@)
}

/// The quotient of `numerator` by `denominator`, rounded to the nearest
/// whole number, and the largest number of 64 bits where it is larger.
pub open spec fn rounded_quotient(numerator: nat, denominator: nat) -> u64 {
    if denominator == 0 {
        0
    } else if (numerator + denominator / 2) / denominator > u64::MAX {
        u64::MAX
    } else {
        ((numerator + denominator / 2) / denominator) as u64
    }
}

/// The extent in EMU at which `pixels` pixels of an image of the resolution
/// `resolution` are shown: the pixels fill as many inches as the resolution
/// says, and an inch is 96 pixels of the worksheet. A resolution of zero is
/// taken as 96 pixels per inch.
pub open spec fn shown_extent(pixels: u32, resolution: Resolution) -> u64 {
    let shown = (pixels * 96 * EMU_PER_PIXEL) as nat;
    if resolution.value == 0 {
        rounded_quotient(shown, 96)
    } else {
        match resolution.unit {
            DensityUnit::Inch => rounded_quotient(shown, resolution.value as nat),
            DensityUnit::Centimeter => rounded_quotient(
                shown * 100,
                (resolution.value * 254) as nat,
            ),
            DensityUnit::Meter => rounded_quotient(
                shown * 10000,
                (resolution.value * 254) as nat,
            ),
        }
    }
}

/// The quotient of `numerator` by `denominator`, rounded to the nearest
/// whole number.
fn divide_rounded(numerator: u128, denominator: u128) -> (quotient: u64)
    requires
        numerator <= 0x1_0000_0000_0000_0000_0000_0000,
        denominator <= 0x1_0000_0000_0000_0000,
    ensures
        quotient == rounded_quotient(numerator as nat, denominator as nat),
{
    if denominator == 0 {
        0
    } else {
        let rounded = (numerator + denominator / 2) / denominator;
        if rounded > u64::MAX as u128 {
            u64::MAX
        } else {
            rounded as u64
        }
    }
}

/// The extent in EMU at which `pixels` pixels of an image of the resolution
/// `resolution` are shown.
pub fn extent_of(pixels: u32, resolution: Resolution) -> (extent: u64)
    ensures
        extent == shown_extent(pixels, resolution),
{
    let shown: u128 = pixels as u128 * 96 * EMU_PER_PIXEL as u128;
    if resolution.value == 0 {
        divide_rounded(shown, 96)
    } else {
        match resolution.unit {
            DensityUnit::Inch => divide_rounded(shown, resolution.value as u128),
            DensityUnit::Centimeter => divide_rounded(shown * 100, resolution.value as u128 * 254),
            DensityUnit::Meter => divide_rounded(shown * 10000, resolution.value as u128 * 254),
        }
    }
}

/// A row: its cells by column, and its settings.
pub struct Row {
    pub cells: SortedMap<Cell>,
    pub options: RowOptions,
}

/// A worksheet as a plain value.
pub struct WorksheetView {
    pub name: Seq<char>,
    /// The cells that were written, by row and column.
    pub cells: Map<(RowNum, ColNum), CellView>,
    /// The settings of the rows that hold a cell or a setting.
    pub rows: Map<RowNum, RowOptions>,
    /// The settings of the columns that hold a setting.
    pub columns: Map<ColNum, ColOptions>,
    /// The format table: position 0 holds the default format.
    pub formats: Seq<FormatView>,
    /// The merged ranges in the order of merging.
    pub merges: Seq<CellRange>,
    pub autofilter: Option<CellRange>,
    /// The result that a formula shows where none was given with it.
    pub default_result: Seq<char>,
    pub page_setup: PageSetup,
    /// The images in the order of their insertion.
    pub images: Seq<PlacedImageView>,
    /// The links, one for a cell at most, in the order of their writing.
    pub hyperlinks: Seq<HyperlinkView>,
    /// The range that is printed, where it is not the whole worksheet.
    pub print_area: Option<CellRange>,
    /// Whether a dynamic formula was written.
    pub uses_dynamic_arrays: bool,
    /// The tables in the order in which they were added.
    pub tables: Seq<PlacedTableView>,
    /// The rules that colour cells by their values, in the order in which
    /// they were added.
    pub conditional_formats: Seq<PlacedConditionalFormat>,
}

/// The worksheet without a name, without cells and without settings. Its
/// format table holds the default format, and its formulas show `0` until
/// they are calculated.
pub open spec fn empty_worksheet() -> WorksheetView {
    WorksheetView {
        name: Seq::<char>::empty(),
        cells: Map::<(RowNum, ColNum), CellView>::empty(),
        rows: Map::<RowNum, RowOptions>::empty(),
        columns: Map::<ColNum, ColOptions>::empty(),
        formats: seq![default_format()],
        merges: Seq::<CellRange>::empty(),
        autofilter: None,
        default_result: "0"@,
        page_setup: default_page_setup(),
        images: Seq::<PlacedImageView>::empty(),
        hyperlinks: Seq::<HyperlinkView>::empty(),
        print_area: None,
        uses_dynamic_arrays: false,
        tables: Seq::<PlacedTableView>::empty(),
        conditional_formats: Seq::<PlacedConditionalFormat>::empty(),
    }
}

/// A worksheet.
pub struct Worksheet {
    pub(crate) name: String,
    pub(crate) rows: SortedMap<Row>,
    pub(crate) columns: SortedMap<ColOptions>,
    pub(crate) formats: Registry<Format>,
    pub(crate) merges: Vec<CellRange>,
    pub(crate) autofilter: Option<CellRange>,
    pub(crate) default_result: String,
    pub(crate) page_setup: PageSetup,
    pub(crate) images: Vec<PlacedImage>,
    pub(crate) hyperlinks: Vec<Hyperlink>,
    pub(crate) print_area: Option<CellRange>,
    pub(crate) uses_dynamic_arrays: bool,
    pub(crate) tables: Vec<PlacedTable>,
    pub(crate) conditional_formats: Vec<PlacedConditionalFormat>,
    pub(crate) serializer_state: SerializerState,
}

/// The cells of `rows` by row and column.
pub open spec fn cells_of(rows: Map<u32, Row>) -> Map<(RowNum, ColNum), CellView> {
    Map::new(
        |k: (RowNum, ColNum)| rows.contains_key(k.0) && rows[k.0].cells@.contains_key(k.1 as u32),
        |k: (RowNum, ColNum)| rows[k.0].cells@[k.1 as u32]@,
    )
}

/// The settings of `rows` by row.
pub open spec fn row_options_of(rows: Map<u32, Row>) -> Map<RowNum, RowOptions> {
    Map::new(|r: RowNum| rows.contains_key(r), |r: RowNum| rows[r].options)
}

/// The settings of `columns` by column.
pub open spec fn col_options_of(columns: Map<u32, ColOptions>) -> Map<ColNum, ColOptions> {
    Map::new(|c: ColNum| columns.contains_key(c as u32), |c: ColNum| columns[c as u32])
}

/// The row is in order, and its cells and its format are within the limits
/// of the grid and of a format table of `formats` entries.
pub open spec fn row_wf(row: Row, formats: nat) -> bool {
    &&& row.cells.wf()
    &&& row.options.xf_index < formats
    &&& row.options.level <= MAX_OUTLINE_LEVEL
    &&& forall|c: u32| #[trigger]
        row.cells@.contains_key(c) ==> c < COL_MAX && row.cells@[c].xf_index < formats
            && row.cells@[c].value.wf()
}

impl View for Worksheet {
    type V = WorksheetView;

    closed spec fn view(&self) -> WorksheetView {
        self.parts_view()
    }
}

impl Worksheet {
    /// The worksheet as a plain value, from its parts.
    pub(crate) open spec fn parts_view(&self) -> WorksheetView {
        WorksheetView {
            name: self.name@,
            cells: cells_of(self.rows@),
            rows: row_options_of(self.rows@),
            columns: col_options_of(self.columns@),
            formats: self.formats.entries(),
            merges: self.merges@,
            autofilter: self.autofilter,
            default_result: self.default_result@,
            page_setup: self.page_setup,
            images: images_view(self.images@),
            hyperlinks: links_view(self.hyperlinks@),
            print_area: self.print_area,
            uses_dynamic_arrays: self.uses_dynamic_arrays,
            tables: tables_view(self.tables@),
            conditional_formats: self.conditional_formats@,
        }
    }

    /// The view is made of the parts, and the worksheet is in order when
    /// its parts are.
    pub(crate) proof fn lemma_view(&self)
        ensures
            self@ == self.parts_view(),
            self.wf() == self.parts_wf(),
    {
    }

    /// Where the values of serialized records go.
    pub closed spec fn serializer(&self) -> SerializerState {
        self.serializer_state
    }

    /// The parts are in order and refer to each other soundly: every row
    /// and column lies in the grid, every format position refers to an
    /// entry of the format table, the format table begins with the default
    /// format, no two merged ranges share a cell, and the name, if the
    /// worksheet has one, is a name that a worksheet can have.
    pub closed spec fn wf(&self) -> bool {
        self.parts_wf()
    }

    /// What `wf` says of the parts.
    pub(crate) open spec fn parts_wf(&self) -> bool {
        &&& self.rows.wf()
        &&& forall|r: u32| #[trigger]
            self.rows@.contains_key(r) ==> r < ROW_MAX && row_wf(
                self.rows@[r],
                self.formats.entries().len(),
            )
        &&& self.columns.wf()
        &&& forall|c: u32| #[trigger]
            self.columns@.contains_key(c) ==> c < COL_MAX && self.columns@[c].xf_index
                < self.formats.entries().len() && self.columns@[c].level <= MAX_OUTLINE_LEVEL
        &&& self.formats.wf()
        &&& self.formats.entries().len() > 0
        &&& self.formats.entries()[0] == default_format()
        &&& forall|i: int| 0 <= i < self.merges@.len() ==> (#[trigger] self.merges@[i]).wf()
        &&& pairwise_disjoint(self.merges@)
        &&& (self.autofilter matches Some(range) ==> range.wf())
        &&& self.serializer_state.wf()
        &&& (self.name@.len() == 0 || sheet_name_error(self.name@) is None)
        &&& forall|i: int|
            0 <= i < self.images@.len() ==> Self::in_grid(
                (#[trigger] self.images@[i]).row,
                self.images@[i].col,
            )
        &&& forall|i: int|
            0 <= i < self.hyperlinks@.len() ==> Self::in_grid(
                (#[trigger] self.hyperlinks@[i]).row,
                self.hyperlinks@[i].col,
            )
        &&& (self.print_area matches Some(range) ==> range.wf())
        &&& forall|i: int|
            0 <= i < self.tables@.len() ==> table_wf((#[trigger] self.tables@[i])@)
        &&& forall|i: int|
            0 <= i < self.conditional_formats@.len() ==> (#[trigger] self.conditional_formats@[i]).range.wf()
    }

    /// What `wf` says of the plain value: every cell lies in the grid and
    /// refers to an entry of the format table, as does every row and column;
    /// every cell lies in a row of the table of rows; and the merged ranges
    /// lie in the grid and share no cell.
    pub open spec fn view_wf(view: WorksheetView) -> bool {
        &&& view.formats.len() > 0
        &&& view.formats[0] == default_format()
        &&& view.formats.no_duplicates()
        &&& forall|k: (RowNum, ColNum)| #[trigger]
            view.cells.contains_key(k) ==> k.0 < ROW_MAX && k.1 < COL_MAX
                && view.cells[k].xf_index < view.formats.len() && view.rows.contains_key(k.0)
        &&& forall|r: RowNum| #[trigger]
            view.rows.contains_key(r) ==> r < ROW_MAX && view.rows[r].xf_index
                < view.formats.len() && view.rows[r].level <= MAX_OUTLINE_LEVEL
        &&& forall|c: ColNum| #[trigger]
            view.columns.contains_key(c) ==> c < COL_MAX && view.columns[c].xf_index
                < view.formats.len() && view.columns[c].level <= MAX_OUTLINE_LEVEL
        &&& forall|i: int| 0 <= i < view.merges.len() ==> (#[trigger] view.merges[i]).wf()
        &&& pairwise_disjoint(view.merges)
        &&& (view.autofilter matches Some(range) ==> range.wf())
        &&& (view.name.len() == 0 || sheet_name_error(view.name) is None)
        &&& forall|i: int|
            0 <= i < view.images.len() ==> Self::in_grid(
                (#[trigger] view.images[i]).row,
                view.images[i].col,
            )
        &&& forall|i: int|
            0 <= i < view.hyperlinks.len() ==> Self::in_grid(
                (#[trigger] view.hyperlinks[i]).row,
                view.hyperlinks[i].col,
            )
        &&& (view.print_area matches Some(range) ==> range.wf())
        &&& forall|i: int| 0 <= i < view.tables.len() ==> table_wf(#[trigger] view.tables[i])
        &&& forall|i: int|
            0 <= i < view.conditional_formats.len() ==> (#[trigger] view.conditional_formats[i]).range.wf()
    }

    /// A worksheet that is in order has a plain value that is in order.
    pub proof fn lemma_wf(&self)
        requires
            self.wf(),
        ensures
            Self::view_wf(self@),
    {
        let view = self@;
        assert forall|k: (RowNum, ColNum)| #[trigger] view.cells.contains_key(k) implies k.0
            < ROW_MAX && k.1 < COL_MAX && view.cells[k].xf_index < view.formats.len()
            && view.rows.contains_key(k.0) by {
            assert(self.rows@.contains_key(k.0));
            assert(self.rows@[k.0].cells@.contains_key(k.1 as u32));
        }
        assert forall|r: RowNum| #[trigger] view.rows.contains_key(r) implies r < ROW_MAX
            && view.rows[r].xf_index < view.formats.len() && view.rows[r].level
            <= MAX_OUTLINE_LEVEL by {
            assert(self.rows@.contains_key(r));
        }
        assert forall|c: ColNum| #[trigger] view.columns.contains_key(c) implies c < COL_MAX
            && view.columns[c].xf_index < view.formats.len() && view.columns[c].level
            <= MAX_OUTLINE_LEVEL by {
            assert(self.columns@.contains_key(c as u32));
        }
        assert forall|i: int| 0 <= i < view.images.len() implies Self::in_grid(
            (#[trigger] view.images[i]).row,
            view.images[i].col,
        ) by {
            assert(Self::in_grid(self.images@[i].row, self.images@[i].col));
        }
        assert forall|i: int| 0 <= i < view.hyperlinks.len() implies Self::in_grid(
            (#[trigger] view.hyperlinks[i]).row,
            view.hyperlinks[i].col,
        ) by {
            assert(Self::in_grid(self.hyperlinks@[i].row, self.hyperlinks@[i].col));
        }
        assert forall|i: int| 0 <= i < view.tables.len() implies table_wf(
            #[trigger] view.tables[i],
        ) by {
            assert(table_wf(self.tables@[i]@));
        }
    }

    /// An empty worksheet without a name.
    pub fn new() -> (worksheet: Worksheet)
        ensures
            worksheet.wf(),
            worksheet@ == empty_worksheet(),
            worksheet.serializer().fields() == Map::<
                (Seq<char>, Seq<char>),
                crate::serializer::CustomSerializeFieldView,
            >::empty(),
            worksheet.serializer().current_struct_name() == Seq::<char>::empty(),
            worksheet.serializer().current_field_name() == Seq::<char>::empty(),
    {
        let mut formats: Registry<Format> = Registry::new();
        let default = Format::new();
        formats.register(&default);
        let worksheet = Worksheet {
            name: String::new(),
            rows: SortedMap::new(),
            columns: SortedMap::new(),
            formats,
            merges: Vec::new(),
            autofilter: None,
            default_result: "0".to_owned(),
            page_setup: PageSetup {
                paper_size: 0,
                print_gridlines: false,
                print_headings: false,
                center_horizontally: false,
                center_vertically: false,
            },
            images: Vec::new(),
            hyperlinks: Vec::new(),
            print_area: None,
            uses_dynamic_arrays: false,
            tables: Vec::new(),
            conditional_formats: Vec::new(),
            serializer_state: SerializerState::new(),
        };
        proof {
            assert(worksheet.formats.entries() =~= seq![default_format()]);
            assert(worksheet@.cells =~= Map::<(RowNum, ColNum), CellView>::empty());
            assert(worksheet@.rows =~= Map::<RowNum, RowOptions>::empty());
            assert(worksheet@.columns =~= Map::<ColNum, ColOptions>::empty());
            assert(worksheet@.merges =~= Seq::<CellRange>::empty());
            assert(worksheet@.images =~= Seq::<PlacedImageView>::empty());
            assert(worksheet@.hyperlinks =~= Seq::<HyperlinkView>::empty());
            assert(worksheet@.tables =~= Seq::<PlacedTableView>::empty());
        }
        worksheet
    }

    /// Whether the cell at `(row, col)` lies in the grid.
    pub open spec fn in_grid(row: RowNum, col: ColNum) -> bool {
        row < ROW_MAX && col < COL_MAX
    }

    /// The position in the format table of the format of a cell that is
    /// written with or without a format. A format given with the write
    /// gets the position at which the table holds it or will hold it. A
    /// write without a format keeps the format that the cell has, and a new
    /// cell gets position 0.
    pub open spec fn written_xf(
        view: WorksheetView,
        row: RowNum,
        col: ColNum,
        format: Option<FormatView>,
    ) -> usize {
        match format {
            Some(f) => first_index_of(view.formats, f) as usize,
            None => if view.cells.contains_key((row, col)) {
                view.cells[(row, col)].xf_index
            } else {
                0
            },
        }
    }

    /// The format table after a write with or without a format.
    pub open spec fn written_formats(view: WorksheetView, format: Option<FormatView>) -> Seq<
        FormatView,
    > {
        match format {
            Some(f) => registered(view.formats, f),
            None => view.formats,
        }
    }

    /// The worksheet after `value` is written at `(row, col)`: the cell
    /// holds `value`, whatever it held before; every other cell is as it
    /// was; the row is in the table of rows; and the format, if one is
    /// given, is in the format table.
    pub open spec fn with_cell(
        view: WorksheetView,
        row: RowNum,
        col: ColNum,
        value: CellValueView,
        format: Option<FormatView>,
    ) -> WorksheetView {
        WorksheetView {
            cells: view.cells.insert(
                (row, col),
                CellView { value, xf_index: Self::written_xf(view, row, col, format) },
            ),
            rows: if view.rows.contains_key(row) {
                view.rows
            } else {
                view.rows.insert(row, default_row_options())
            },
            formats: Self::written_formats(view, format),
            ..view
        }
    }

    /// Writes `value` at `(row, col)`, with `format` if one is given.
    ///
    /// Fails with `RowColumnLimitError`, and changes nothing, where the cell
    /// lies outside the grid.
    pub fn store_cell(
        &mut self,
        row: RowNum,
        col: ColNum,
        value: CellValue,
        format: Option<&Format>,
    ) -> (result: Result<(), XlsxError>)
        requires
            old(self).wf(),
            value.wf(),
        ensures
            final(self).wf(),
            final(self).serializer() == old(self).serializer(),
            Self::in_grid(row, col) ==> result is Ok && final(self)@ == Self::with_cell(
                old(self)@,
                row,
                col,
                value@,
                format_ref_view(format),
            ),
            !Self::in_grid(row, col) ==> result == Err::<(), XlsxError>(
                XlsxError::RowColumnLimitError,
            ) && final(self)@ == old(self)@,
    {
        if row >= ROW_MAX || col >= COL_MAX {
            return Err(XlsxError::RowColumnLimitError);
        }
        let ghost formats_before = self.formats.entries();
        let xf_index = match format {
            Some(f) => {
                proof {
                    lemma_first_index_of(formats_before, f@);
                }
                self.formats.register(f)
            },
            None => match self.rows.get(row) {
                Some(r) => match r.cells.get(col as u32) {
                    Some(c) => c.xf_index,
                    None => 0,
                },
                None => 0,
            },
        };
        let ghost formats_after = self.formats.entries();
        proof {
            assert(formats_after.len() >= formats_before.len());
            assert(forall|i: int| 0 <= i < formats_before.len() ==> formats_after[i] == formats_before[i]);
            assert(xf_index < formats_after.len());
        }
        let mut row_data = match self.rows.remove(row) {
            Some(r) => r,
            None => Row {
                cells: SortedMap::new(),
                options: RowOptions {
                    custom_height: false,
                    height: DEFAULT_ROW_HEIGHT,
                    xf_index: 0,
                    hidden: false,
                    level: 0,
                },
            },
        };
        let ghost cells_before = row_data.cells@;
        let ghost new_cell = Cell { value, xf_index };
        row_data.cells.insert(col as u32, Cell { value, xf_index });
        proof {
            assert(row_wf(row_data, formats_after.len())) by {
                assert forall|c: u32| #[trigger] row_data.cells@.contains_key(c) implies c < COL_MAX
                    && row_data.cells@[c].xf_index < formats_after.len()
                    && row_data.cells@[c].value.wf() by {
                    if c != col as u32 {
                        assert(cells_before.contains_key(c));
                        if old(self).rows@.contains_key(row) {
                            assert(row_wf(old(self).rows@[row], formats_before.len()));
                        }
                    }
                }
                if old(self).rows@.contains_key(row) {
                    assert(row_wf(old(self).rows@[row], formats_before.len()));
                }
            }
        }
        self.rows.insert(row, row_data);
        proof {
            assert forall|r: u32| #[trigger] self.rows@.contains_key(r) implies r < ROW_MAX && row_wf(
                self.rows@[r],
                formats_after.len(),
            ) by {
                if r != row {
                    assert(old(self).rows@.contains_key(r));
                    assert(row_wf(old(self).rows@[r], formats_before.len()));
                }
            }
            assert forall|c: u32| #[trigger] self.columns@.contains_key(c) implies c < COL_MAX
                && self.columns@[c].xf_index < formats_after.len() by {
                assert(old(self).columns@.contains_key(c));
            }
            let expected = Self::with_cell(old(self)@, row, col, value@, format_ref_view(format));
            assert(self@.cells =~= expected.cells) by {
                assert forall|k: (RowNum, ColNum)| self@.cells.contains_key(k)
                    == expected.cells.contains_key(k) by {
                    if k.0 == row {
                        assert(self.rows@[row].cells@ == cells_before.insert(col as u32, new_cell));
                    }
                }
                assert forall|k: (RowNum, ColNum)| self@.cells.contains_key(k) implies self@.cells[k]
                    == expected.cells[k] by {
                    if k.0 == row {
                        assert(self.rows@[row].cells@ == cells_before.insert(col as u32, new_cell));
                    }
                }
            }
            assert(self@.rows =~= expected.rows);
            assert(self@.formats =~= expected.formats);
        }
        Ok(())
    }

    /// Writes a number at `(row, col)`. The cell keeps the format that it
    /// has.
    ///
    /// Fails with `RowColumnLimitError`, and changes nothing, where the cell
    /// lies outside the grid.
    pub fn write_number(&mut self, row: RowNum, col: ColNum, number: Number) -> (result: Result<
        (),
        XlsxError,
    >)
        requires
            old(self).wf(),
            number.wf(),
        ensures
            final(self).wf(),
            final(self).serializer() == old(self).serializer(),
            Self::in_grid(row, col) ==> result is Ok && final(self)@ == Self::with_cell(
                old(self)@,
                row,
                col,
                CellValueView::Number(number@),
                None,
            ),
            !Self::in_grid(row, col) ==> result == Err::<(), XlsxError>(
                XlsxError::RowColumnLimitError,
            ) && final(self)@ == old(self)@,
    {
        self.store_cell(row, col, CellValue::Number(number), None)
    }

    /// Writes a number at `(row, col)` and gives the cell the format
    /// `format`.
    ///
    /// Fails with `RowColumnLimitError`, and changes nothing, where the cell
    /// lies outside the grid.
    pub fn write_number_with_format(
        &mut self,
        row: RowNum,
        col: ColNum,
        number: Number,
        format: &Format,
    ) -> (result: Result<(), XlsxError>)
        requires
            old(self).wf(),
            number.wf(),
        ensures
            final(self).wf(),
            final(self).serializer() == old(self).serializer(),
            Self::in_grid(row, col) ==> result is Ok && final(self)@ == Self::with_cell(
                old(self)@,
                row,
                col,
                CellValueView::Number(number@),
                Some(format@),
            ),
            !Self::in_grid(row, col) ==> result == Err::<(), XlsxError>(
                XlsxError::RowColumnLimitError,
            ) && final(self)@ == old(self)@,
    {
        self.store_cell(row, col, CellValue::Number(number), Some(format))
    }

    /// What a write of the text `string` at `(row, col)` is refused with,
    /// if it is refused: a cell outside the grid comes first, then a text
    /// that is too long.
    pub open spec fn string_error(row: RowNum, col: ColNum, string: Seq<char>) -> Option<
        XlsxError,
    > {
        if !Self::in_grid(row, col) {
            Some(XlsxError::RowColumnLimitError)
        } else if string.len() > MAX_STRING_LEN {
            Some(XlsxError::MaxStringLengthExceeded)
        } else {
            None
        }
    }

    /// The worksheet after the text `string` is written at `(row, col)`.
    /// An empty text means a cell without content: with a format the cell
    /// becomes a blank cell that carries the format, and without one
    /// nothing is written.
    pub open spec fn with_string(
        view: WorksheetView,
        row: RowNum,
        col: ColNum,
        string: Seq<char>,
        format: Option<FormatView>,
    ) -> WorksheetView {
        if string.len() > 0 {
            Self::with_cell(view, row, col, CellValueView::String(string), format)
        } else if format is Some {
            Self::with_cell(view, row, col, CellValueView::Blank, format)
        } else {
            view
        }
    }

    /// Writes a text at `(row, col)`, with `format` if one is given; without
    /// one the cell keeps the format that it has. An empty text is written
    /// as a blank cell where a format is given, and not at all where none
    /// is.
    ///
    /// Fails, and changes nothing, with `RowColumnLimitError` where the cell
    /// lies outside the grid, and with `MaxStringLengthExceeded` where the
    /// text has more than 32,767 characters.
    pub fn store_string(
        &mut self,
        row: RowNum,
        col: ColNum,
        string: &str,
        format: Option<&Format>,
    ) -> (result: Result<(), XlsxError>)
        requires
            old(self).wf(),
        ensures
            final(self).wf(),
            final(self).serializer() == old(self).serializer(),
            match Self::string_error(row, col, string@) {
                Some(e) => result == Err::<(), XlsxError>(e) && final(self)@ == old(self)@,
                None => result is Ok && final(self)@ == Self::with_string(
                    old(self)@,
                    row,
                    col,
                    string@,
                    format_ref_view(format),
                ),
            },
    {
        if row >= ROW_MAX || col >= COL_MAX {
            return Err(XlsxError::RowColumnLimitError);
        }
        let length = string.unicode_len();
        if length > MAX_STRING_LEN {
            return Err(XlsxError::MaxStringLengthExceeded);
        }
        if length > 0 {
            self.store_cell(row, col, CellValue::String(string.to_owned()), format)
        } else {
            match format {
                Some(f) => self.store_cell(row, col, CellValue::Blank, Some(f)),
                None => Ok(()),
            }
        }
    }

    /// Writes a text at `(row, col)`. The cell keeps the format that it
    /// has.
    ///
    /// Fails, and changes nothing, with `RowColumnLimitError` where the cell
    /// lies outside the grid, and with `MaxStringLengthExceeded` where the
    /// text has more than 32,767 characters.
    pub fn write_string(&mut self, row: RowNum, col: ColNum, string: &str) -> (result: Result<
        (),
        XlsxError,
    >)
        requires
            old(self).wf(),
        ensures
            final(self).wf(),
            final(self).serializer() == old(self).serializer(),
            match Self::string_error(row, col, string@) {
                Some(e) => result == Err::<(), XlsxError>(e) && final(self)@ == old(self)@,
                None => result is Ok && final(self)@ == Self::with_string(
                    old(self)@,
                    row,
                    col,
                    string@,
                    None,
                ),
            },
    {
        self.store_string(row, col, string, None)
    }

    /// Writes a text at `(row, col)` and gives the cell the format
    /// `format`.
    ///
    /// Fails, and changes nothing, with `RowColumnLimitError` where the cell
    /// lies outside the grid, and with `MaxStringLengthExceeded` where the
    /// text has more than 32,767 characters.
    pub fn write_string_with_format(
        &mut self,
        row: RowNum,
        col: ColNum,
        string: &str,
        format: &Format,
    ) -> (result: Result<(), XlsxError>)
        requires
            old(self).wf(),
        ensures
            final(self).wf(),
            final(self).serializer() == old(self).serializer(),
            match Self::string_error(row, col, string@) {
                Some(e) => result == Err::<(), XlsxError>(e) && final(self)@ == old(self)@,
                None => result is Ok && final(self)@ == Self::with_string(
                    old(self)@,
                    row,
                    col,
                    string@,
                    Some(format@),
                ),
            },
    {
        self.store_string(row, col, string, Some(format))
    }

    /// Writes a truth value at `(row, col)`. The cell keeps the format that
    /// it has.
    ///
    /// Fails with `RowColumnLimitError`, and changes nothing, where the cell
    /// lies outside the grid.
    pub fn write_boolean(&mut self, row: RowNum, col: ColNum, boolean: bool) -> (result: Result<
        (),
        XlsxError,
    >)
        requires
            old(self).wf(),
        ensures
            final(self).wf(),
            final(self).serializer() == old(self).serializer(),
            Self::in_grid(row, col) ==> result is Ok && final(self)@ == Self::with_cell(
                old(self)@,
                row,
                col,
                CellValueView::Boolean(boolean),
                None,
            ),
            !Self::in_grid(row, col) ==> result == Err::<(), XlsxError>(
                XlsxError::RowColumnLimitError,
            ) && final(self)@ == old(self)@,
    {
        self.store_cell(row, col, CellValue::Boolean(boolean), None)
    }

    /// Writes a truth value at `(row, col)` and gives the cell the format
    /// `format`.
    ///
    /// Fails with `RowColumnLimitError`, and changes nothing, where the cell
    /// lies outside the grid.
    pub fn write_boolean_with_format(
        &mut self,
        row: RowNum,
        col: ColNum,
        boolean: bool,
        format: &Format,
    ) -> (result: Result<(), XlsxError>)
        requires
            old(self).wf(),
        ensures
            final(self).wf(),
            final(self).serializer() == old(self).serializer(),
            Self::in_grid(row, col) ==> result is Ok && final(self)@ == Self::with_cell(
                old(self)@,
                row,
                col,
                CellValueView::Boolean(boolean),
                Some(format@),
            ),
            !Self::in_grid(row, col) ==> result == Err::<(), XlsxError>(
                XlsxError::RowColumnLimitError,
            ) && final(self)@ == old(self)@,
    {
        self.store_cell(row, col, CellValue::Boolean(boolean), Some(format))
    }

    /// Writes a cell without content at `(row, col)`, to carry the format
    /// `format`.
    ///
    /// Fails with `RowColumnLimitError`, and changes nothing, where the cell
    /// lies outside the grid.
    pub fn write_blank(&mut self, row: RowNum, col: ColNum, format: &Format) -> (result: Result<
        (),
        XlsxError,
    >)
        requires
            old(self).wf(),
        ensures
            final(self).wf(),
            final(self).serializer() == old(self).serializer(),
            Self::in_grid(row, col) ==> result is Ok && final(self)@ == Self::with_cell(
                old(self)@,
                row,
                col,
                CellValueView::Blank,
                Some(format@),
            ),
            !Self::in_grid(row, col) ==> result == Err::<(), XlsxError>(
                XlsxError::RowColumnLimitError,
            ) && final(self)@ == old(self)@,
    {
        self.store_cell(row, col, CellValue::Blank, Some(format))
    }

    /// Writes the formula `formula` at `(row, col)`, with `format` if one
    /// is given. The formula shows the default result of the worksheet
    /// until a result is set for it.
    ///
    /// Fails with `RowColumnLimitError`, and changes nothing, where the cell
    /// lies outside the grid.
    pub fn store_formula(
        &mut self,
        row: RowNum,
        col: ColNum,
        formula: &Formula,
        format: Option<&Format>,
    ) -> (result: Result<(), XlsxError>)
        requires
            old(self).wf(),
        ensures
            final(self).wf(),
            final(self).serializer() == old(self).serializer(),
            Self::in_grid(row, col) ==> result is Ok && final(self)@ == Self::with_cell(
                old(self)@,
                row,
                col,
                CellValueView::Formula {
                    formula: formula.formula@,
                    result: formula.shown_result(old(self)@.default_result),
                },
                format_ref_view(format),
            ),
            !Self::in_grid(row, col) ==> result == Err::<(), XlsxError>(
                XlsxError::RowColumnLimitError,
            ) && final(self)@ == old(self)@,
    {
        let result = if formula.result.as_str().is_empty() {
            self.default_result.clone()
        } else {
            formula.result.clone()
        };
        self.store_cell(
            row,
            col,
            CellValue::Formula { formula: formula.formula.clone(), result },
            format,
        )
    }

    /// Writes a formula at `(row, col)`. The cell keeps the format that it
    /// has.
    ///
    /// Fails with `RowColumnLimitError`, and changes nothing, where the cell
    /// lies outside the grid.
    pub fn write_formula(&mut self, row: RowNum, col: ColNum, formula: &Formula) -> (result:
        Result<(), XlsxError>)
        requires
            old(self).wf(),
        ensures
            final(self).wf(),
            final(self).serializer() == old(self).serializer(),
            Self::in_grid(row, col) ==> result is Ok && final(self)@ == Self::with_cell(
                old(self)@,
                row,
                col,
                CellValueView::Formula {
                    formula: formula.formula@,
                    result: formula.shown_result(old(self)@.default_result),
                },
                None,
            ),
            !Self::in_grid(row, col) ==> result == Err::<(), XlsxError>(
                XlsxError::RowColumnLimitError,
            ) && final(self)@ == old(self)@,
    {
        self.store_formula(row, col, formula, None)
    }

    /// Writes a formula at `(row, col)` and gives the cell the format
    /// `format`.
    ///
    /// Fails with `RowColumnLimitError`, and changes nothing, where the cell
    /// lies outside the grid.
    pub fn write_formula_with_format(
        &mut self,
        row: RowNum,
        col: ColNum,
        formula: &Formula,
        format: &Format,
    ) -> (result: Result<(), XlsxError>)
        requires
            old(self).wf(),
        ensures
            final(self).wf(),
            final(self).serializer() == old(self).serializer(),
            Self::in_grid(row, col) ==> result is Ok && final(self)@ == Self::with_cell(
                old(self)@,
                row,
                col,
                CellValueView::Formula {
                    formula: formula.formula@,
                    result: formula.shown_result(old(self)@.default_result),
                },
                Some(format@),
            ),
            !Self::in_grid(row, col) ==> result == Err::<(), XlsxError>(
                XlsxError::RowColumnLimitError,
            ) && final(self)@ == old(self)@,
    {
        self.store_formula(row, col, formula, Some(format))
    }

    /// The worksheet after a formula that fills `range` is written at the
    /// first cell of the range. A dynamic formula marks the worksheet as
    /// one that uses such formulas.
    pub open spec fn with_array_formula(
        view: WorksheetView,
        range: CellRange,
        formula: Formula,
        dynamic: bool,
        format: Option<FormatView>,
    ) -> WorksheetView {
        WorksheetView {
            uses_dynamic_arrays: view.uses_dynamic_arrays || dynamic,
            ..Self::with_cell(
                view,
                range.first_row,
                range.first_col,
                CellValueView::ArrayFormula {
                    formula: formula.formula@,
                    result: formula.shown_result(view.default_result),
                    range,
                    dynamic,
                },
                format,
            )
        }
    }

    /// Writes a formula that fills a range, at the first cell of the
    /// range, with `format` if one is given. The other cells of the range
    /// are left as they are.
    ///
    /// Fails, and changes nothing, with `RowColumnLimitError` where the
    /// range leaves the grid, and with `RowColumnOrderError` where it runs
    /// backwards.
    pub fn store_array_formula(
        &mut self,
        range: CellRange,
        formula: &Formula,
        dynamic: bool,
        format: Option<&Format>,
    ) -> (result: Result<(), XlsxError>)
        requires
            old(self).wf(),
        ensures
            final(self).wf(),
            final(self).serializer() == old(self).serializer(),
            match Self::range_error(range) {
                Some(e) => result == Err::<(), XlsxError>(e) && final(self)@ == old(self)@,
                None => result is Ok && final(self)@ == Self::with_array_formula(
                    old(self)@,
                    range,
                    *formula,
                    dynamic,
                    format_ref_view(format),
                ),
            },
    {
        match Self::check_range(&range) {
            Err(e) => {
                return Err(e);
            },
            Ok(_) => {},
        }
        let result = if formula.result.as_str().is_empty() {
            self.default_result.clone()
        } else {
            formula.result.clone()
        };
        let stored = self.store_cell(
            range.first_row,
            range.first_col,
            CellValue::ArrayFormula { formula: formula.formula.clone(), result, range, dynamic },
            format,
        );
        if dynamic {
            self.uses_dynamic_arrays = true;
        }
        stored
    }

    /// Writes a formula that fills the range from `(first_row, first_col)`
    /// to `(last_row, last_col)`, at the first cell of the range.
    ///
    /// Fails, and changes nothing, with `RowColumnLimitError` where the
    /// range leaves the grid, and with `RowColumnOrderError` where it runs
    /// backwards.
    pub fn write_array_formula(
        &mut self,
        first_row: RowNum,
        first_col: ColNum,
        last_row: RowNum,
        last_col: ColNum,
        formula: &Formula,
    ) -> (result: Result<(), XlsxError>)
        requires
            old(self).wf(),
        ensures
            final(self).wf(),
            final(self).serializer() == old(self).serializer(),
            match Self::range_error(CellRange { first_row, first_col, last_row, last_col }) {
                Some(e) => result == Err::<(), XlsxError>(e) && final(self)@ == old(self)@,
                None => result is Ok && final(self)@ == Self::with_array_formula(
                    old(self)@,
                    CellRange { first_row, first_col, last_row, last_col },
                    *formula,
                    false,
                    None,
                ),
            },
    {
        self.store_array_formula(
            CellRange { first_row, first_col, last_row, last_col },
            formula,
            false,
            None,
        )
    }

    /// Writes a dynamic formula, which fills the range from
    /// `(first_row, first_col)` to `(last_row, last_col)` of its own accord,
    /// at the first cell of the range.
    ///
    /// Fails, and changes nothing, with `RowColumnLimitError` where the
    /// range leaves the grid, and with `RowColumnOrderError` where it runs
    /// backwards.
    pub fn write_dynamic_array_formula(
        &mut self,
        first_row: RowNum,
        first_col: ColNum,
        last_row: RowNum,
        last_col: ColNum,
        formula: &Formula,
    ) -> (result: Result<(), XlsxError>)
        requires
            old(self).wf(),
        ensures
            final(self).wf(),
            final(self).serializer() == old(self).serializer(),
            match Self::range_error(CellRange { first_row, first_col, last_row, last_col }) {
                Some(e) => result == Err::<(), XlsxError>(e) && final(self)@ == old(self)@,
                None => result is Ok && final(self)@ == Self::with_array_formula(
                    old(self)@,
                    CellRange { first_row, first_col, last_row, last_col },
                    *formula,
                    true,
                    None,
                ),
            },
    {
        self.store_array_formula(
            CellRange { first_row, first_col, last_row, last_col },
            formula,
            true,
            None,
        )
    }

    /// Whether a dynamic formula was written.
    pub fn uses_dynamic_arrays(&self) -> (flag: bool)
        ensures
            flag == self@.uses_dynamic_arrays,
    {
        self.uses_dynamic_arrays
    }

    /// The worksheet after a result is set for the formula at
    /// `(row, col)`: a cell that holds a formula shows the new result, and
    /// nothing else changes.
    pub open spec fn with_formula_result(
        view: WorksheetView,
        row: RowNum,
        col: ColNum,
        result: Seq<char>,
    ) -> WorksheetView {
        if view.cells.contains_key((row, col)) {
            match view.cells[(row, col)].value {
                CellValueView::Formula { formula, result: _ } => WorksheetView {
                    cells: view.cells.insert(
                        (row, col),
                        CellView {
                            value: CellValueView::Formula { formula, result },
                            xf_index: view.cells[(row, col)].xf_index,
                        },
                    ),
                    ..view
                },
                _ => view,
            }
        } else {
            view
        }
    }

    /// Sets the result that the formula at `(row, col)` shows. A cell that
    /// holds no formula is left as it is.
    pub fn set_formula_result(&mut self, row: RowNum, col: ColNum, result: &str)
        requires
            old(self).wf(),
        ensures
            final(self).wf(),
            final(self).serializer() == old(self).serializer(),
            final(self)@ == Self::with_formula_result(old(self)@, row, col, result@),
    {
        let is_formula = match self.rows.get(row) {
            Some(r) => match r.cells.get(col as u32) {
                Some(c) => match &c.value {
                    CellValue::Formula { formula, result } => true,
                    _ => false,
                },
                None => false,
            },
            None => false,
        };
        if !is_formula {
            return ;
        }
        proof {
            self.lemma_wf();
            assert(self.rows@.contains_key(row));
            assert(row_wf(self.rows@[row], self.formats.entries().len()));
        }
        let ghost formats = self.formats.entries().len();
        let Some(mut row_data) = self.rows.remove(row) else {
            return ;
        };
        let ghost cells_before = row_data.cells@;
        let Some(cell) = row_data.cells.remove(col as u32) else {
            return ;
        };
        let xf_index = cell.xf_index;
        let value = match cell.value {
            CellValue::Formula { formula, result: _ } => CellValue::Formula {
                formula,
                result: result.to_owned(),
            },
            other => other,
        };
        let ghost new_cell = Cell { value, xf_index };
        row_data.cells.insert(col as u32, Cell { value, xf_index });
        proof {
            assert(row_data.cells@ =~= cells_before.insert(col as u32, new_cell));
            assert(row_wf(row_data, formats)) by {
                assert forall|c: u32| #[trigger] row_data.cells@.contains_key(c) implies c < COL_MAX
                    && row_data.cells@[c].xf_index < formats && row_data.cells@[c].value.wf() by {
                    assert(cells_before.contains_key(c));
                }
            }
        }
        self.rows.insert(row, row_data);
        proof {
            assert forall|r: u32| #[trigger] self.rows@.contains_key(r) implies r < ROW_MAX && row_wf(
                self.rows@[r],
                formats,
            ) by {
                if r != row {
                    assert(old(self).rows@.contains_key(r));
                }
            }
            let expected = Self::with_formula_result(old(self)@, row, col, result@);
            assert(self@.cells =~= expected.cells) by {
                assert forall|k: (RowNum, ColNum)| self@.cells.contains_key(k)
                    == expected.cells.contains_key(k) by {
                    if k.0 == row {
                        assert(self.rows@[row].cells@ == cells_before.insert(col as u32, new_cell));
                    }
                }
                assert forall|k: (RowNum, ColNum)| self@.cells.contains_key(k) implies self@.cells[k]
                    == expected.cells[k] by {
                    if k.0 == row {
                        assert(self.rows@[row].cells@ == cells_before.insert(col as u32, new_cell));
                    }
                }
            }
            assert(self@.rows =~= expected.rows);
        }
    }

    /// Sets the result that formulas written from now on show where none
    /// is given with them.
    pub fn set_formula_result_default(&mut self, result: &str)
        requires
            old(self).wf(),
        ensures
            final(self).wf(),
            final(self).serializer() == old(self).serializer(),
            final(self)@ == (WorksheetView { default_result: result@, ..old(self)@ }),
    {
        self.default_result = result.to_owned();
    }

    /// The settings of column `col`, set or not.
    pub open spec fn col_options(view: WorksheetView, col: ColNum) -> ColOptions {
        if view.columns.contains_key(col) {
            view.columns[col]
        } else {
            default_col_options()
        }
    }

    /// The settings of row `row`, set or not.
    pub open spec fn row_options(view: WorksheetView, row: RowNum) -> RowOptions {
        if view.rows.contains_key(row) {
            view.rows[row]
        } else {
            default_row_options()
        }
    }

    /// The worksheet after the width of column `col` is set.
    pub open spec fn with_column_width(view: WorksheetView, col: ColNum, width: u16) -> WorksheetView {
        WorksheetView {
            columns: view.columns.insert(
                col,
                ColOptions { custom_width: true, width, ..Self::col_options(view, col) },
            ),
            ..view
        }
    }

    /// The worksheet after the format of column `col` is set: the format is
    /// in the format table, and the column refers to it.
    pub open spec fn with_column_format(
        view: WorksheetView,
        col: ColNum,
        format: FormatView,
    ) -> WorksheetView {
        WorksheetView {
            columns: view.columns.insert(
                col,
                ColOptions {
                    xf_index: first_index_of(view.formats, format) as usize,
                    ..Self::col_options(view, col)
                },
            ),
            formats: registered(view.formats, format),
            ..view
        }
    }

    /// Replaces the settings of a column.
    fn store_col_options(&mut self, col: ColNum, options: ColOptions)
        requires
            old(self).wf(),
            col < COL_MAX,
            options.xf_index < old(self)@.formats.len(),
            options.level <= MAX_OUTLINE_LEVEL,
        ensures
            final(self).wf(),
            final(self).serializer() == old(self).serializer(),
            final(self)@ == (WorksheetView {
                columns: old(self)@.columns.insert(col, options),
                ..old(self)@
            }),
    {
        self.columns.insert(col as u32, options);
        proof {
            assert forall|c: u32| #[trigger] self.columns@.contains_key(c) implies c < COL_MAX
                && self.columns@[c].xf_index < self.formats.entries().len()
                && self.columns@[c].level <= MAX_OUTLINE_LEVEL by {
                if c != col as u32 {
                    assert(old(self).columns@.contains_key(c));
                }
            }
            assert(self@.columns =~= old(self)@.columns.insert(col, options)) by {
                assert forall|c: ColNum| self@.columns.contains_key(c) == old(
                    self,
                )@.columns.insert(col, options).contains_key(c) by {}
            }
        }
    }

    /// The settings of a column as they stand.
    fn load_col_options(&self, col: ColNum) -> (options: ColOptions)
        requires
            self.wf(),
        ensures
            options == Self::col_options(self@, col),
            options.xf_index < self@.formats.len(),
            options.level <= MAX_OUTLINE_LEVEL,
    {
        match self.columns.get(col as u32) {
            Some(options) => *options,
            None => ColOptions {
                custom_width: false,
                width: DEFAULT_COL_WIDTH,
                xf_index: 0,
                hidden: false,
                level: 0,
            },
        }
    }

    /// Sets the width of a column in pixels.
    ///
    /// Fails with `RowColumnLimitError`, and changes nothing, where the
    /// column lies outside the grid.
    pub fn set_column_width_pixels(&mut self, col: ColNum, width: u16) -> (result: Result<
        (),
        XlsxError,
    >)
        requires
            old(self).wf(),
        ensures
            final(self).wf(),
            final(self).serializer() == old(self).serializer(),
            col < COL_MAX ==> result is Ok && final(self)@ == Self::with_column_width(
                old(self)@,
                col,
                width,
            ),
            col >= COL_MAX ==> result == Err::<(), XlsxError>(XlsxError::RowColumnLimitError)
                && final(self)@ == old(self)@,
    {
        if col >= COL_MAX {
            return Err(XlsxError::RowColumnLimitError);
        }
        let mut options = self.load_col_options(col);
        options.custom_width = true;
        options.width = width;
        self.store_col_options(col, options);
        Ok(())
    }

    /// Hides a column.
    ///
    /// Fails with `RowColumnLimitError`, and changes nothing, where the
    /// column lies outside the grid.
    pub fn set_column_hidden(&mut self, col: ColNum) -> (result: Result<(), XlsxError>)
        requires
            old(self).wf(),
        ensures
            final(self).wf(),
            final(self).serializer() == old(self).serializer(),
            col < COL_MAX ==> result is Ok && final(self)@ == (WorksheetView {
                columns: old(self)@.columns.insert(
                    col,
                    ColOptions { hidden: true, ..Self::col_options(old(self)@, col) },
                ),
                ..old(self)@
            }),
            col >= COL_MAX ==> result == Err::<(), XlsxError>(XlsxError::RowColumnLimitError)
                && final(self)@ == old(self)@,
    {
        if col >= COL_MAX {
            return Err(XlsxError::RowColumnLimitError);
        }
        let mut options = self.load_col_options(col);
        options.hidden = true;
        self.store_col_options(col, options);
        Ok(())
    }

    /// Sets the format of a column: the format of the cells of the column
    /// that have no format of their own.
    ///
    /// Fails with `RowColumnLimitError`, and changes nothing, where the
    /// column lies outside the grid.
    pub fn set_column_format(&mut self, col: ColNum, format: &Format) -> (result: Result<
        (),
        XlsxError,
    >)
        requires
            old(self).wf(),
        ensures
            final(self).wf(),
            final(self).serializer() == old(self).serializer(),
            col < COL_MAX ==> result is Ok && final(self)@ == Self::with_column_format(
                old(self)@,
                col,
                format@,
            ),
            col >= COL_MAX ==> result == Err::<(), XlsxError>(XlsxError::RowColumnLimitError)
                && final(self)@ == old(self)@,
    {
        if col >= COL_MAX {
            return Err(XlsxError::RowColumnLimitError);
        }
        let mut options = self.load_col_options(col);
        options.xf_index = self.register_format(format);
        self.store_col_options(col, options);
        Ok(())
    }

    /// Puts a format into the format table and gives its position.
    fn register_format(&mut self, format: &Format) -> (index: usize)
        requires
            old(self).wf(),
        ensures
            final(self).wf(),
            final(self).serializer() == old(self).serializer(),
            final(self)@ == (WorksheetView {
                formats: registered(old(self)@.formats, format@),
                ..old(self)@
            }),
            index == first_index_of(old(self)@.formats, format@),
            index < final(self)@.formats.len(),
            final(self)@.formats.len() >= old(self)@.formats.len(),
    {
        let ghost before = self.formats.entries();
        let index = self.formats.register(format);
        proof {
            let after = self.formats.entries();
            assert(after.len() >= before.len());
            assert(forall|i: int| 0 <= i < before.len() ==> after[i] == before[i]);
            assert forall|r: u32| #[trigger] self.rows@.contains_key(r) implies r < ROW_MAX && row_wf(
                self.rows@[r],
                after.len(),
            ) by {
                assert(row_wf(old(self).rows@[r], before.len()));
            }
        }
        index
    }

    /// Replaces the settings of a row.
    fn store_row_options(&mut self, row: RowNum, options: RowOptions)
        requires
            old(self).wf(),
            row < ROW_MAX,
            options.xf_index < old(self)@.formats.len(),
            options.level <= MAX_OUTLINE_LEVEL,
        ensures
            final(self).wf(),
            final(self).serializer() == old(self).serializer(),
            final(self)@ == (WorksheetView {
                rows: old(self)@.rows.insert(row, options),
                ..old(self)@
            }),
    {
        let ghost formats = self.formats.entries().len();
        let mut row_data = match self.rows.remove(row) {
            Some(r) => r,
            None => Row {
                cells: SortedMap::new(),
                options: RowOptions {
                    custom_height: false,
                    height: DEFAULT_ROW_HEIGHT,
                    xf_index: 0,
                    hidden: false,
                    level: 0,
                },
            },
        };
        proof {
            if old(self).rows@.contains_key(row) {
                assert(row_wf(old(self).rows@[row], formats));
            }
        }
        row_data.options = options;
        self.rows.insert(row, row_data);
        proof {
            assert forall|r: u32| #[trigger] self.rows@.contains_key(r) implies r < ROW_MAX && row_wf(
                self.rows@[r],
                formats,
            ) by {
                if r != row {
                    assert(old(self).rows@.contains_key(r));
                }
            }
            assert(self@.cells =~= old(self)@.cells) by {
                assert forall|k: (RowNum, ColNum)| self@.cells.contains_key(k) == old(
                    self,
                )@.cells.contains_key(k) by {}
            }
            assert(self@.rows =~= old(self)@.rows.insert(row, options));
        }
    }

    /// The settings of a row as they stand.
    fn load_row_options(&self, row: RowNum) -> (options: RowOptions)
        requires
            self.wf(),
        ensures
            options == Self::row_options(self@, row),
            options.xf_index < self@.formats.len(),
            options.level <= MAX_OUTLINE_LEVEL,
    {
        match self.rows.get(row) {
            Some(r) => {
                proof {
                    assert(row_wf(self.rows@[row], self.formats.entries().len()));
                }
                r.options
            },
            None => RowOptions {
                custom_height: false,
                height: DEFAULT_ROW_HEIGHT,
                xf_index: 0,
                hidden: false,
                level: 0,
            },
        }
    }

    /// Sets the height of a row in pixels.
    ///
    /// Fails with `RowColumnLimitError`, and changes nothing, where the row
    /// lies outside the grid.
    pub fn set_row_height_pixels(&mut self, row: RowNum, height: u16) -> (result: Result<
        (),
        XlsxError,
    >)
        requires
            old(self).wf(),
        ensures
            final(self).wf(),
            final(self).serializer() == old(self).serializer(),
            row < ROW_MAX ==> result is Ok && final(self)@ == (WorksheetView {
                rows: old(self)@.rows.insert(
                    row,
                    RowOptions { custom_height: true, height, ..Self::row_options(old(self)@, row) },
                ),
                ..old(self)@
            }),
            row >= ROW_MAX ==> result == Err::<(), XlsxError>(XlsxError::RowColumnLimitError)
                && final(self)@ == old(self)@,
    {
        if row >= ROW_MAX {
            return Err(XlsxError::RowColumnLimitError);
        }
        let mut options = self.load_row_options(row);
        options.custom_height = true;
        options.height = height;
        self.store_row_options(row, options);
        Ok(())
    }

    /// Hides a row.
    ///
    /// Fails with `RowColumnLimitError`, and changes nothing, where the row
    /// lies outside the grid.
    pub fn set_row_hidden(&mut self, row: RowNum) -> (result: Result<(), XlsxError>)
        requires
            old(self).wf(),
        ensures
            final(self).wf(),
            final(self).serializer() == old(self).serializer(),
            row < ROW_MAX ==> result is Ok && final(self)@ == (WorksheetView {
                rows: old(self)@.rows.insert(
                    row,
                    RowOptions { hidden: true, ..Self::row_options(old(self)@, row) },
                ),
                ..old(self)@
            }),
            row >= ROW_MAX ==> result == Err::<(), XlsxError>(XlsxError::RowColumnLimitError)
                && final(self)@ == old(self)@,
    {
        if row >= ROW_MAX {
            return Err(XlsxError::RowColumnLimitError);
        }
        let mut options = self.load_row_options(row);
        options.hidden = true;
        self.store_row_options(row, options);
        Ok(())
    }

    /// Sets the format of a row: the format of the cells of the row that
    /// have no format of their own.
    ///
    /// Fails with `RowColumnLimitError`, and changes nothing, where the row
    /// lies outside the grid.
    pub fn set_row_format(&mut self, row: RowNum, format: &Format) -> (result: Result<
        (),
        XlsxError,
    >)
        requires
            old(self).wf(),
        ensures
            final(self).wf(),
            final(self).serializer() == old(self).serializer(),
            row < ROW_MAX ==> result is Ok && final(self)@ == (WorksheetView {
                rows: old(self)@.rows.insert(
                    row,
                    RowOptions {
                        xf_index: first_index_of(old(self)@.formats, format@) as usize,
                        ..Self::row_options(old(self)@, row)
                    },
                ),
                formats: registered(old(self)@.formats, format@),
                ..old(self)@
            }),
            row >= ROW_MAX ==> result == Err::<(), XlsxError>(XlsxError::RowColumnLimitError)
                && final(self)@ == old(self)@,
    {
        if row >= ROW_MAX {
            return Err(XlsxError::RowColumnLimitError);
        }
        let mut options = self.load_row_options(row);
        options.xf_index = self.register_format(format);
        self.store_row_options(row, options);
        Ok(())
    }

    /// Adds a rule that colours the cells of a range by their values. The
    /// rule ranks after the rules added before.
    ///
    /// Fails, and changes nothing, where the range leaves the grid
    /// (`RowColumnLimitError`) or runs backwards (`RowColumnOrderError`).
    pub fn add_conditional_format(
        &mut self,
        first_row: RowNum,
        first_col: ColNum,
        last_row: RowNum,
        last_col: ColNum,
        rule: &ConditionalFormat,
    ) -> (result: Result<(), XlsxError>)
        requires
            old(self).wf(),
        ensures
            final(self).wf(),
            final(self).serializer() == old(self).serializer(),
            match Self::range_error(CellRange { first_row, first_col, last_row, last_col }) {
                Some(error) => result == Err::<(), XlsxError>(error) && final(self)@ == old(
                    self,
                )@,
                None => result is Ok && final(self)@ == (WorksheetView {
                    conditional_formats: old(self)@.conditional_formats.push(
                        PlacedConditionalFormat {
                            range: CellRange { first_row, first_col, last_row, last_col },
                            rule: *rule,
                        },
                    ),
                    ..old(self)@
                }),
            },
    {
        let range = CellRange { first_row, first_col, last_row, last_col };
        match Self::check_range(&range) {
            Err(error) => Err(error),
            Ok(()) => {
                self.conditional_formats.push(PlacedConditionalFormat { range, rule: *rule });
                Ok(())
            },
        }
    }

    /// The number of rules that colour cells by their values.
    pub fn conditional_format_count(&self) -> (count: usize)
        ensures
            count == self@.conditional_formats.len(),
    {
        self.conditional_formats.len()
    }

    /// The rule at `index`, in the order in which the rules were added.
    pub fn conditional_format_at(&self, index: usize) -> (format: &PlacedConditionalFormat)
        requires
            index < self@.conditional_formats.len(),
        ensures
            *format == self@.conditional_formats[index as int],
    {
        &self.conditional_formats[index]
    }

    /// What grouping the rows from `first` to `last` is refused with, if it
    /// is refused. In this order: a row lies outside the grid; the rows run
    /// backwards; one of the rows belongs to seven groups already.
    pub open spec fn group_rows_error(view: WorksheetView, first: RowNum, last: RowNum) -> Option<
        XlsxError,
    > {
        if first >= ROW_MAX || last >= ROW_MAX {
            Some(XlsxError::RowColumnLimitError)
        } else if first > last {
            Some(XlsxError::RowColumnOrderError)
        } else if exists|row: RowNum|
            first <= row <= last && (#[trigger] Self::row_options(view, row)).level
                >= MAX_OUTLINE_LEVEL {
            Some(XlsxError::MaxGroupLevelExceeded)
        } else {
            None
        }
    }

    /// The worksheet after the rows from `first` up to, and without, `end`
    /// are put in a group: each of them belongs to one group more than
    /// before, and nothing else changes.
    pub open spec fn with_grouped_rows(view: WorksheetView, first: RowNum, end: int) -> WorksheetView {
        WorksheetView {
            rows: Map::new(
                |row: RowNum| view.rows.contains_key(row) || first <= row < end,
                |row: RowNum|
                    if first <= row < end {
                        RowOptions {
                            level: (Self::row_options(view, row).level + 1) as u8,
                            ..Self::row_options(view, row)
                        }
                    } else {
                        view.rows[row]
                    },
            ),
            ..view
        }
    }

    /// Puts the rows from `first_row` to `last_row` in a group, which may
    /// lie within a group made before or hold one.
    ///
    /// Fails, and changes nothing, as `group_rows_error` says.
    pub fn group_rows(&mut self, first_row: RowNum, last_row: RowNum) -> (result: Result<
        (),
        XlsxError,
    >)
        requires
            old(self).wf(),
        ensures
            final(self).wf(),
            final(self).serializer() == old(self).serializer(),
            match Self::group_rows_error(old(self)@, first_row, last_row) {
                Some(error) => result == Err::<(), XlsxError>(error) && final(self)@ == old(
                    self,
                )@,
                None => result is Ok && final(self)@ == Self::with_grouped_rows(
                    old(self)@,
                    first_row,
                    last_row + 1,
                ),
            },
    {
        if first_row >= ROW_MAX || last_row >= ROW_MAX {
            return Err(XlsxError::RowColumnLimitError);
        }
        if first_row > last_row {
            return Err(XlsxError::RowColumnOrderError);
        }
        let mut row = first_row;
        while row <= last_row
            invariant
                first_row <= row <= last_row + 1,
                last_row < ROW_MAX,
                self.wf(),
                *self == *old(self),
                forall|r: RowNum|
                    first_row <= r < row ==> (#[trigger] Self::row_options(self@, r)).level
                        < MAX_OUTLINE_LEVEL,
            decreases last_row + 1 - row,
        {
            let options = self.load_row_options(row);
            if options.level >= MAX_OUTLINE_LEVEL {
                return Err(XlsxError::MaxGroupLevelExceeded);
            }
            row += 1;
        }
        let mut row = first_row;
        proof {
            assert(self@.rows =~= Self::with_grouped_rows(old(self)@, first_row, row as int).rows);
        }
        while row <= last_row
            invariant
                first_row <= row <= last_row + 1,
                last_row < ROW_MAX,
                self.wf(),
                self.serializer() == old(self).serializer(),
                self@ == Self::with_grouped_rows(old(self)@, first_row, row as int),
                forall|r: RowNum|
                    first_row <= r <= last_row ==> (#[trigger] Self::row_options(old(self)@, r)).level
                        < MAX_OUTLINE_LEVEL,
            decreases last_row + 1 - row,
        {
            let ghost before = self@;
            let mut options = self.load_row_options(row);
            proof {
                assert(options == Self::row_options(old(self)@, row));
            }
            options.level = options.level + 1;
            self.store_row_options(row, options);
            proof {
                assert(self@.rows =~= Self::with_grouped_rows(
                    old(self)@,
                    first_row,
                    row + 1,
                ).rows);
            }
            row += 1;
        }
        Ok(())
    }

    /// What grouping the columns from `first` to `last` is refused with, if
    /// it is refused. In this order: a column lies outside the grid; the
    /// columns run backwards; one of the columns belongs to seven groups
    /// already.
    pub open spec fn group_columns_error(
        view: WorksheetView,
        first: ColNum,
        last: ColNum,
    ) -> Option<XlsxError> {
        if first >= COL_MAX || last >= COL_MAX {
            Some(XlsxError::RowColumnLimitError)
        } else if first > last {
            Some(XlsxError::RowColumnOrderError)
        } else if exists|col: ColNum|
            first <= col <= last && (#[trigger] Self::col_options(view, col)).level
                >= MAX_OUTLINE_LEVEL {
            Some(XlsxError::MaxGroupLevelExceeded)
        } else {
            None
        }
    }

    /// The worksheet after the columns from `first` up to, and without,
    /// `end` are put in a group: each of them belongs to one group more than
    /// before, and nothing else changes.
    pub open spec fn with_grouped_columns(
        view: WorksheetView,
        first: ColNum,
        end: int,
    ) -> WorksheetView {
        WorksheetView {
            columns: Map::new(
                |col: ColNum| view.columns.contains_key(col) || first <= col < end,
                |col: ColNum|
                    if first <= col < end {
                        ColOptions {
                            level: (Self::col_options(view, col).level + 1) as u8,
                            ..Self::col_options(view, col)
                        }
                    } else {
                        view.columns[col]
                    },
            ),
            ..view
        }
    }

    /// Puts the columns from `first_col` to `last_col` in a group, which may
    /// lie within a group made before or hold one.
    ///
    /// Fails, and changes nothing, as `group_columns_error` says.
    pub fn group_columns(&mut self, first_col: ColNum, last_col: ColNum) -> (result: Result<
        (),
        XlsxError,
    >)
        requires
            old(self).wf(),
        ensures
            final(self).wf(),
            final(self).serializer() == old(self).serializer(),
            match Self::group_columns_error(old(self)@, first_col, last_col) {
                Some(error) => result == Err::<(), XlsxError>(error) && final(self)@ == old(
                    self,
                )@,
                None => result is Ok && final(self)@ == Self::with_grouped_columns(
                    old(self)@,
                    first_col,
                    last_col + 1,
                ),
            },
    {
        if first_col >= COL_MAX || last_col >= COL_MAX {
            return Err(XlsxError::RowColumnLimitError);
        }
        if first_col > last_col {
            return Err(XlsxError::RowColumnOrderError);
        }
        let mut col = first_col;
        while col <= last_col
            invariant
                first_col <= col <= last_col + 1,
                last_col < COL_MAX,
                self.wf(),
                *self == *old(self),
                forall|c: ColNum|
                    first_col <= c < col ==> (#[trigger] Self::col_options(self@, c)).level
                        < MAX_OUTLINE_LEVEL,
            decreases last_col + 1 - col,
        {
            let options = self.load_col_options(col);
            if options.level >= MAX_OUTLINE_LEVEL {
                return Err(XlsxError::MaxGroupLevelExceeded);
            }
            col += 1;
        }
        let mut col = first_col;
        proof {
            assert(self@.columns =~= Self::with_grouped_columns(
                old(self)@,
                first_col,
                col as int,
            ).columns);
        }
        while col <= last_col
            invariant
                first_col <= col <= last_col + 1,
                last_col < COL_MAX,
                self.wf(),
                self.serializer() == old(self).serializer(),
                self@ == Self::with_grouped_columns(old(self)@, first_col, col as int),
                forall|c: ColNum|
                    first_col <= c <= last_col ==> (#[trigger] Self::col_options(old(self)@, c)).level
                        < MAX_OUTLINE_LEVEL,
            decreases last_col + 1 - col,
        {
            let mut options = self.load_col_options(col);
            proof {
                assert(options == Self::col_options(old(self)@, col));
            }
            options.level = options.level + 1;
            self.store_col_options(col, options);
            proof {
                assert(self@.columns =~= Self::with_grouped_columns(
                    old(self)@,
                    first_col,
                    col + 1,
                ).columns);
            }
            col += 1;
        }
        Ok(())
    }

    /// What a range is refused with, if it is refused: a range that leaves
    /// the grid comes first, then one that runs backwards.
    pub open spec fn range_error(range: CellRange) -> Option<XlsxError> {
        if range.first_row >= ROW_MAX || range.last_row >= ROW_MAX || range.first_col >= COL_MAX
            || range.last_col >= COL_MAX {
            Some(XlsxError::RowColumnLimitError)
        } else if range.first_row > range.last_row || range.first_col > range.last_col {
            Some(XlsxError::RowColumnOrderError)
        } else {
            None
        }
    }

    /// Checks a range against the grid.
    pub fn check_range(range: &CellRange) -> (result: Result<(), XlsxError>)
        ensures
            match Self::range_error(*range) {
                Some(e) => result == Err::<(), XlsxError>(e),
                None => result is Ok && range.wf(),
            },
    {
        if range.first_row >= ROW_MAX || range.last_row >= ROW_MAX || range.first_col >= COL_MAX
            || range.last_col >= COL_MAX {
            Err(XlsxError::RowColumnLimitError)
        } else if range.first_row > range.last_row || range.first_col > range.last_col {
            Err(XlsxError::RowColumnOrderError)
        } else {
            Ok(())
        }
    }

    /// Whether `range` shares a cell with one of `merges`.
    pub open spec fn overlaps_any(merges: Seq<CellRange>, range: CellRange) -> bool {
        exists|i: int| 0 <= i < merges.len() && (#[trigger] merges[i]).overlaps(range)
    }

    /// What the merging of `range`, with the text `string` in its first
    /// cell, is refused with, if it is refused. In this order: the range
    /// leaves the grid; it runs backwards; it is a single cell; it shares a
    /// cell with a range merged before; the text is too long.
    pub open spec fn merge_error(view: WorksheetView, range: CellRange, string: Seq<char>) -> Option<
        XlsxError,
    > {
        if Self::range_error(range) is Some {
            Self::range_error(range)
        } else if range.first_row == range.last_row && range.first_col == range.last_col {
            Some(XlsxError::MergeRangeSingleCell)
        } else if Self::overlaps_any(view.merges, range) {
            Some(XlsxError::MergeRangeOverlaps)
        } else if string.len() > MAX_STRING_LEN {
            Some(XlsxError::MaxStringLengthExceeded)
        } else {
            None
        }
    }

    /// Merges the cells of a range into one cell that holds the text
    /// `string` in the format `format`.
    ///
    /// Fails, and changes nothing, where `merge_error` names an error; among
    /// them `MergeRangeOverlaps` where the range shares a cell with a range
    /// merged before.
    #[verifier::loop_isolation(false)]
    pub fn merge_range(
        &mut self,
        first_row: RowNum,
        first_col: ColNum,
        last_row: RowNum,
        last_col: ColNum,
        string: &str,
        format: &Format,
    ) -> (result: Result<(), XlsxError>)
        requires
            old(self).wf(),
        ensures
            final(self).wf(),
            final(self).serializer() == old(self).serializer(),
            match Self::merge_error(
                old(self)@,
                CellRange { first_row, first_col, last_row, last_col },
                string@,
            ) {
                Some(e) => result == Err::<(), XlsxError>(e) && final(self)@ == old(self)@,
                None => result is Ok && final(self)@ == (WorksheetView {
                    merges: old(self)@.merges.push(
                        CellRange { first_row, first_col, last_row, last_col },
                    ),
                    ..Self::with_string(old(self)@, first_row, first_col, string@, Some(format@))
                }),
            },
    {
        let range = CellRange { first_row, first_col, last_row, last_col };
        match Self::check_range(&range) {
            Err(e) => {
                return Err(e);
            },
            Ok(_) => {},
        }
        if first_row == last_row && first_col == last_col {
            return Err(XlsxError::MergeRangeSingleCell);
        }
        let mut i: usize = 0;
        while i < self.merges.len()
            invariant
                i <= self.merges@.len(),
                *self == *old(self),
                self.wf(),
                forall|j: int| 0 <= j < i ==> !(#[trigger] self.merges@[j]).overlaps(range),
            decreases self.merges.len() - i,
        {
            if self.merges[i].intersects(&range) {
                proof {
                    assert(self@.merges[i as int].overlaps(range));
                }
                return Err(XlsxError::MergeRangeOverlaps);
            }
            i += 1;
        }
        if string.unicode_len() > MAX_STRING_LEN {
            return Err(XlsxError::MaxStringLengthExceeded);
        }
        let stored = self.store_string(first_row, first_col, string, Some(format));
        let ghost merges_before = self.merges@;
        self.merges.push(range);
        proof {
            assert forall|i: int, j: int|
                0 <= i < self.merges@.len() && 0 <= j < self.merges@.len() && i
                    != j implies !self.merges@[i].overlaps(self.merges@[j]) by {
                if i < merges_before.len() && j < merges_before.len() {
                    assert(!merges_before[i].overlaps(merges_before[j]));
                } else if i < merges_before.len() {
                    assert(!merges_before[i].overlaps(range));
                } else {
                    assert(!merges_before[j].overlaps(range));
                }
            }
        }
        Ok(())
    }

    /// Puts a filter over the columns of a range, whose first row holds the
    /// headers.
    ///
    /// Fails, and changes nothing, with `RowColumnLimitError` where the
    /// range leaves the grid, and with `RowColumnOrderError` where it runs
    /// backwards.
    pub fn autofilter(
        &mut self,
        first_row: RowNum,
        first_col: ColNum,
        last_row: RowNum,
        last_col: ColNum,
    ) -> (result: Result<(), XlsxError>)
        requires
            old(self).wf(),
        ensures
            final(self).wf(),
            final(self).serializer() == old(self).serializer(),
            match Self::range_error(CellRange { first_row, first_col, last_row, last_col }) {
                Some(e) => result == Err::<(), XlsxError>(e) && final(self)@ == old(self)@,
                None => result is Ok && final(self)@ == (WorksheetView {
                    autofilter: Some(CellRange { first_row, first_col, last_row, last_col }),
                    ..old(self)@
                }),
            },
    {
        let range = CellRange { first_row, first_col, last_row, last_col };
        match Self::check_range(&range) {
            Err(e) => {
                return Err(e);
            },
            Ok(_) => {},
        }
        self.autofilter = Some(range);
        Ok(())
    }

    /// What the writing of the link `url` with the text `text` at
    /// `(row, col)` is refused with, if it is refused. In this order: the
    /// cell lies outside the grid; the link begins with none of the known
    /// schemes; the link is too long; the text is too long.
    pub open spec fn url_error(row: RowNum, col: ColNum, url: Seq<char>, text: Seq<char>) -> Option<
        XlsxError,
    > {
        if !Self::in_grid(row, col) {
            Some(XlsxError::RowColumnLimitError)
        } else if !is_external_url(url) && !is_internal_url(url) {
            Some(XlsxError::UnknownUrlType)
        } else if url.len() > MAX_URL_LEN {
            Some(XlsxError::MaxUrlLengthExceeded)
        } else if text.len() > MAX_STRING_LEN {
            Some(XlsxError::MaxStringLengthExceeded)
        } else {
            None
        }
    }

    /// The worksheet after the link `url` is written at `(row, col)` with
    /// the text `text` in the format `format`: the cell holds the text, and
    /// the link is the one link of the cell.
    pub open spec fn with_url(
        view: WorksheetView,
        row: RowNum,
        col: ColNum,
        url: Seq<char>,
        text: Seq<char>,
        format: FormatView,
    ) -> WorksheetView {
        WorksheetView {
            hyperlinks: links_without(view.hyperlinks, row, col).push(link_of(row, col, url)),
            ..Self::with_string(view, row, col, text, Some(format))
        }
    }

    /// The format of a link for which none is given.
    pub open spec fn link_format() -> FormatView {
        FormatView {
            font: crate::format::FontView {
                style: crate::format::FontStyle {
                    underline: crate::format::FormatUnderline::Single,
                    color: crate::format::Color::RGB(0x0563C1),
                    ..default_format().font.style
                },
                ..default_format().font
            },
            ..default_format()
        }
    }

    /// Writes a link at `(row, col)`. The cell shows the address, or the
    /// place in the workbook, in the format of links.
    ///
    /// Fails, and changes nothing, where `url_error` names an error.
    pub fn write_url(&mut self, row: RowNum, col: ColNum, url: &str) -> (result: Result<
        (),
        XlsxError,
    >)
        requires
            old(self).wf(),
        ensures
            final(self).wf(),
            final(self).serializer() == old(self).serializer(),
            match Self::url_error(row, col, url@, link_of(row, col, url@).target) {
                Some(e) => result == Err::<(), XlsxError>(e) && final(self)@ == old(self)@,
                None => result is Ok && final(self)@ == Self::with_url(
                    old(self)@,
                    row,
                    col,
                    url@,
                    link_of(row, col, url@).target,
                    Self::link_format(),
                ),
            },
    {
        let format = Format::new().set_hyperlink();
        self.store_url(row, col, url, None, &format)
    }

    /// Writes a link at `(row, col)`. The cell shows the text `text` in the
    /// format of links.
    ///
    /// Fails, and changes nothing, where `url_error` names an error.
    pub fn write_url_with_text(&mut self, row: RowNum, col: ColNum, url: &str, text: &str) -> (result:
        Result<(), XlsxError>)
        requires
            old(self).wf(),
        ensures
            final(self).wf(),
            final(self).serializer() == old(self).serializer(),
            match Self::url_error(row, col, url@, text@) {
                Some(e) => result == Err::<(), XlsxError>(e) && final(self)@ == old(self)@,
                None => result is Ok && final(self)@ == Self::with_url(
                    old(self)@,
                    row,
                    col,
                    url@,
                    text@,
                    Self::link_format(),
                ),
            },
    {
        let format = Format::new().set_hyperlink();
        self.store_url(row, col, url, Some(text), &format)
    }

    /// Writes a link at `(row, col)`. The cell shows the address, or the
    /// place in the workbook, in the format `format`.
    ///
    /// Fails, and changes nothing, where `url_error` names an error.
    pub fn write_url_with_format(
        &mut self,
        row: RowNum,
        col: ColNum,
        url: &str,
        format: &Format,
    ) -> (result: Result<(), XlsxError>)
        requires
            old(self).wf(),
        ensures
            final(self).wf(),
            final(self).serializer() == old(self).serializer(),
            match Self::url_error(row, col, url@, link_of(row, col, url@).target) {
                Some(e) => result == Err::<(), XlsxError>(e) && final(self)@ == old(self)@,
                None => result is Ok && final(self)@ == Self::with_url(
                    old(self)@,
                    row,
                    col,
                    url@,
                    link_of(row, col, url@).target,
                    format@,
                ),
            },
    {
        self.store_url(row, col, url, None, format)
    }

    /// Writes a link at `(row, col)`, which shows the text `text` or, where
    /// none is given, the address or the place in the workbook.
    ///
    /// Fails, and changes nothing, where `url_error` names an error.
    pub fn store_url(
        &mut self,
        row: RowNum,
        col: ColNum,
        url: &str,
        text: Option<&str>,
        format: &Format,
    ) -> (result: Result<(), XlsxError>)
        requires
            old(self).wf(),
        ensures
            final(self).wf(),
            final(self).serializer() == old(self).serializer(),
            match Self::url_error(row, col, url@, shown_text(text, link_of(row, col, url@).target)) {
                Some(e) => result == Err::<(), XlsxError>(e) && final(self)@ == old(self)@,
                None => result is Ok && final(self)@ == Self::with_url(
                    old(self)@,
                    row,
                    col,
                    url@,
                    shown_text(text, link_of(row, col, url@).target),
                    format@,
                ),
            },
    {
        if row >= ROW_MAX || col >= COL_MAX {
            return Err(XlsxError::RowColumnLimitError);
        }
        let internal = has_prefix(url, "internal:");
        let external = has_prefix(url, "http://") || has_prefix(url, "https://") || has_prefix(
            url,
            "ftp://",
        ) || has_prefix(url, "mailto:") || has_prefix(url, "file://");
        if !internal && !external {
            return Err(XlsxError::UnknownUrlType);
        }
        if url.unicode_len() > MAX_URL_LEN {
            return Err(XlsxError::MaxUrlLengthExceeded);
        }
        let link = if internal {
            Hyperlink {
                row,
                col,
                kind: LinkKind::Internal,
                target: skip_chars(url, "internal:".unicode_len()),
            }
        } else {
            Hyperlink { row, col, kind: LinkKind::External, target: url.to_owned() }
        };
        let shown = match text {
            Some(t) => t.to_owned(),
            None => link.target.clone(),
        };
        match self.store_string(row, col, shown.as_str(), Some(format)) {
            Err(e) => {
                return Err(e);
            },
            Ok(_) => {},
        }
        self.remove_link(row, col);
        let ghost before = self.hyperlinks@;
        let ghost added = link@;
        self.hyperlinks.push(link);
        proof {
            assert(links_view(self.hyperlinks@) =~= links_view(before).push(added));
            assert forall|i: int| 0 <= i < self.hyperlinks@.len() implies Self::in_grid(
                (#[trigger] self.hyperlinks@[i]).row,
                self.hyperlinks@[i].col,
            ) by {
                if i < before.len() {
                    assert(Self::in_grid(before[i].row, before[i].col));
                }
            }
        }
        Ok(())
    }

    /// Takes the links at the cell at `(row, col)` away.
    fn remove_link(&mut self, row: RowNum, col: ColNum)
        requires
            old(self).wf(),
        ensures
            final(self).wf(),
            final(self).serializer() == old(self).serializer(),
            final(self)@ == (WorksheetView {
                hyperlinks: links_without(old(self)@.hyperlinks, row, col),
                ..old(self)@
            }),
    {
        let ghost earlier = links_view(self.hyperlinks@);
        let mut i: usize = 0;
        proof {
            assert(links_view(self.hyperlinks@).take(0) =~= Seq::<HyperlinkView>::empty());
            assert(links_view(self.hyperlinks@).skip(0) =~= earlier);
            assert(Seq::<HyperlinkView>::empty() + links_without(earlier, row, col)
                =~= links_without(earlier, row, col));
        }
        while i < self.hyperlinks.len()
            invariant
                i <= self.hyperlinks@.len(),
                self.wf(),
                self.serializer() == old(self).serializer(),
                self@ == (WorksheetView { hyperlinks: links_view(self.hyperlinks@), ..old(self)@ }),
                links_without(earlier, row, col) == links_view(self.hyperlinks@).take(i as int)
                    + links_without(links_view(self.hyperlinks@).skip(i as int), row, col),
            decreases self.hyperlinks.len() - i,
        {
            let ghost current = links_view(self.hyperlinks@);
            let ghost rest = current.skip(i as int);
            proof {
                assert(rest[0] == current[i as int]);
                assert(rest.drop_first() =~= current.skip(i + 1));
            }
            if self.hyperlinks[i].row == row && self.hyperlinks[i].col == col {
                let ghost links = self.hyperlinks@;
                self.hyperlinks.remove(i);
                proof {
                    let after = links_view(self.hyperlinks@);
                    assert(after =~= current.remove(i as int));
                    assert(after.take(i as int) =~= current.take(i as int));
                    assert(after.skip(i as int) =~= current.skip(i + 1));
                    assert forall|k: int| 0 <= k < self.hyperlinks@.len() implies Self::in_grid(
                        (#[trigger] self.hyperlinks@[k]).row,
                        self.hyperlinks@[k].col,
                    ) by {
                        if k < i {
                            assert(Self::in_grid(links[k].row, links[k].col));
                        } else {
                            assert(Self::in_grid(links[k + 1].row, links[k + 1].col));
                        }
                    }
                }
            } else {
                proof {
                    assert(current.take(i + 1) =~= current.take(i as int) + seq![current[i as int]]);
                    assert(current.take(i as int) + (seq![current[i as int]] + links_without(
                        current.skip(i + 1),
                        row,
                        col,
                    )) =~= current.take(i + 1) + links_without(current.skip(i + 1), row, col));
                }
                i += 1;
            }
        }
        proof {
            let current = links_view(self.hyperlinks@);
            assert(current.take(current.len() as int) =~= current);
            assert(current.skip(current.len() as int) =~= Seq::<HyperlinkView>::empty());
            assert(current + Seq::<HyperlinkView>::empty() =~= current);
        }
    }

    /// The number of links in the worksheet.
    pub fn link_count(&self) -> (count: usize)
        ensures
            count == self@.hyperlinks.len(),
    {
        self.hyperlinks.len()
    }

    /// The link at `index` in the order of writing.
    pub fn link_at(&self, index: usize) -> (link: &Hyperlink)
        requires
            index < self@.hyperlinks.len(),
        ensures
            link@ == self@.hyperlinks[index as int],
    {
        &self.hyperlinks[index]
    }

    /// The worksheet after the names `names` are written as the headers of
    /// a table, from `(row, col)` on to the right.
    pub open spec fn with_table_headers(
        view: WorksheetView,
        row: RowNum,
        col: ColNum,
        names: Seq<Seq<char>>,
    ) -> WorksheetView
        decreases names.len(),
    {
        if names.len() == 0 {
            view
        } else {
            Self::with_string(
                Self::with_table_headers(view, row, col, names.drop_last()),
                row,
                (col + names.len() - 1) as ColNum,
                names.last(),
                None,
            )
        }
    }

    /// Writing the headers of a table leaves the tables of the worksheet as
    /// they are.
    pub proof fn lemma_table_headers_keep_tables(
        view: WorksheetView,
        row: RowNum,
        col: ColNum,
        names: Seq<Seq<char>>,
    )
        ensures
            Self::with_table_headers(view, row, col, names).tables == view.tables,
        decreases names.len(),
    {
        if names.len() > 0 {
            Self::lemma_table_headers_keep_tables(view, row, col, names.drop_last());
        }
    }

    /// The names of the columns of a table with the options `table` over
    /// the range `range`.
    pub open spec fn table_names(range: CellRange, table: Table) -> Seq<Seq<char>> {
        table_column_names(names_view(table.columns@), range.last_col - range.first_col + 1)
    }

    /// Whether one of the names `names` is too long for a cell.
    pub open spec fn has_long_name(names: Seq<Seq<char>>) -> bool {
        exists|i: int| 0 <= i < names.len() && (#[trigger] names[i]).len() > MAX_STRING_LEN
    }

    /// What the adding of a table with the options `table` over the range
    /// `range` is refused with, if it is refused. In this order: the range
    /// leaves the grid; it runs backwards; the table has a row of headers
    /// and no row below it; the range shares a cell with a table added
    /// before; two columns have the same name; the name of a column is too
    /// long for the cell of its header.
    pub open spec fn table_error(view: WorksheetView, range: CellRange, table: Table) -> Option<
        XlsxError,
    > {
        if Self::range_error(range) is Some {
            Self::range_error(range)
        } else if table.header_row && range.first_row == range.last_row {
            Some(XlsxError::TableError)
        } else if overlaps_table(view.tables, range) {
            Some(XlsxError::TableRangeOverlaps)
        } else if has_duplicate(Self::table_names(range, table)) {
            Some(XlsxError::TableError)
        } else if table.header_row && Self::has_long_name(Self::table_names(range, table)) {
            Some(XlsxError::MaxStringLengthExceeded)
        } else {
            None
        }
    }

    /// The worksheet after a table with the options `table` is added over
    /// the range `range`: the worksheet holds the table, and the cells of
    /// its first row hold the names of its columns, where the table has a
    /// row of headers.
    pub open spec fn with_table(view: WorksheetView, range: CellRange, table: Table) -> WorksheetView {
        let names = Self::table_names(range, table);
        let written = if table.header_row {
            Self::with_table_headers(view, range.first_row, range.first_col, names)
        } else {
            view
        };
        WorksheetView {
            tables: view.tables.push(
                PlacedTableView {
                    range,
                    columns: names,
                    header_row: table.header_row,
                    autofilter: table.autofilter,
                    style: table.style@,
                },
            ),
            ..written
        }
    }

    /// The names of the columns of a table with the options `table` over
    /// the range `range`.
    fn name_columns(range: &CellRange, table: &Table) -> (names: Vec<String>)
        requires
            range.wf(),
        ensures
            names_view(names@) == Self::table_names(*range, *table),
    {
        let width: usize = (range.last_col - range.first_col) as usize + 1;
        let ghost given = names_view(table.columns@);
        let mut names: Vec<String> = Vec::new();
        let mut i: usize = 0;
        while i < width
            invariant
                i <= width,
                width == range.last_col - range.first_col + 1,
                given == names_view(table.columns@),
                names@.len() == i,
                forall|k: int| 0 <= k < i ==> (#[trigger] names@[k])@ == table_column_name(given, k),
            decreases width - i,
        {
            if i < table.columns.len() && !table.columns[i].as_str().is_empty() {
                names.push(table.columns[i].clone());
            } else {
                let mut name = "Column".to_owned();
                push_decimal(&mut name, i as u128 + 1);
                names.push(name);
            }
            i += 1;
        }
        proof {
            assert(names_view(names@) =~= Self::table_names(*range, *table));
        }
        names
    }

    /// Whether two of the names are the same.
    #[verifier::loop_isolation(false)]
    pub fn any_duplicate(names: &Vec<String>) -> (found: bool)
        ensures
            found == has_duplicate(names_view(names@)),
    {
        let ghost all = names_view(names@);
        let mut i: usize = 0;
        while i < names.len()
            invariant
                i <= names@.len(),
                forall|a: int, b: int|
                    0 <= a < b < all.len() && a < i ==> #[trigger] all[a] != #[trigger] all[b],
            decreases names.len() - i,
        {
            let mut j: usize = i + 1;
            while j < names.len()
                invariant
                    i < j <= names@.len(),
                    forall|b: int| i < b < j ==> all[i as int] != #[trigger] all[b],
                decreases names.len() - j,
            {
                if str_equal(names[i].as_str(), names[j].as_str()) {
                    proof {
                        assert(all[i as int] == all[j as int]);
                    }
                    return true;
                }
                j += 1;
            }
            i += 1;
        }
        false
    }

    /// Whether one of the names is too long for a cell.
    #[verifier::loop_isolation(false)]
    fn any_long_name(names: &Vec<String>) -> (found: bool)
        ensures
            found == Self::has_long_name(names_view(names@)),
    {
        let ghost all = names_view(names@);
        let mut i: usize = 0;
        while i < names.len()
            invariant
                i <= names@.len(),
                forall|k: int| 0 <= k < i ==> (#[trigger] all[k]).len() <= MAX_STRING_LEN,
            decreases names.len() - i,
        {
            if names[i].as_str().unicode_len() > MAX_STRING_LEN {
                proof {
                    assert(all[i as int].len() > MAX_STRING_LEN);
                }
                return true;
            }
            i += 1;
        }
        false
    }

    /// Writes the names `names` as the headers of a table, from
    /// `(row, col)` on to the right.
    fn write_table_headers(&mut self, row: RowNum, col: ColNum, names: &Vec<String>)
        requires
            old(self).wf(),
            row < ROW_MAX,
            col + names@.len() <= COL_MAX,
            !Self::has_long_name(names_view(names@)),
        ensures
            final(self).wf(),
            final(self).serializer() == old(self).serializer(),
            final(self)@ == Self::with_table_headers(old(self)@, row, col, names_view(names@)),
    {
        let ghost all = names_view(names@);
        let mut i: usize = 0;
        proof {
            assert(all.take(0) =~= Seq::<Seq<char>>::empty());
        }
        while i < names.len()
            invariant
                i <= names@.len(),
                all == names_view(names@),
                row < ROW_MAX,
                col + names@.len() <= COL_MAX,
                !Self::has_long_name(all),
                self.wf(),
                self.serializer() == old(self).serializer(),
                self@ == Self::with_table_headers(old(self)@, row, col, all.take(i as int)),
            decreases names.len() - i,
        {
            proof {
                assert(all.take(i + 1).drop_last() =~= all.take(i as int));
                assert(all.take(i + 1).last() == all[i as int]);
                assert(all[i as int].len() <= MAX_STRING_LEN);
            }
            let _ = self.store_string(row, col + i as u16, names[i].as_str(), None);
            i += 1;
        }
        proof {
            assert(all.take(all.len() as int) =~= all);
        }
    }

    /// Adds a table with the options `table` over the range from
    /// `(first_row, first_col)` to `(last_row, last_col)`. Where the table
    /// has a row of headers, the names of its columns are written into the
    /// cells of its first row.
    ///
    /// Fails, and changes nothing, where `table_error` names an error; among
    /// them `TableRangeOverlaps` where the range shares a cell with a table
    /// added before.
    #[verifier::loop_isolation(false)]
    pub fn add_table(
        &mut self,
        first_row: RowNum,
        first_col: ColNum,
        last_row: RowNum,
        last_col: ColNum,
        table: &Table,
    ) -> (result: Result<(), XlsxError>)
        requires
            old(self).wf(),
        ensures
            final(self).wf(),
            final(self).serializer() == old(self).serializer(),
            match Self::table_error(
                old(self)@,
                CellRange { first_row, first_col, last_row, last_col },
                *table,
            ) {
                Some(e) => result == Err::<(), XlsxError>(e) && final(self)@ == old(self)@,
                None => result is Ok && final(self)@ == Self::with_table(
                    old(self)@,
                    CellRange { first_row, first_col, last_row, last_col },
                    *table,
                ),
            },
    {
        let range = CellRange { first_row, first_col, last_row, last_col };
        match Self::check_range(&range) {
            Err(e) => {
                return Err(e);
            },
            Ok(_) => {},
        }
        if table.header_row && first_row == last_row {
            return Err(XlsxError::TableError);
        }
        let mut i: usize = 0;
        while i < self.tables.len()
            invariant
                i <= self.tables@.len(),
                forall|k: int| 0 <= k < i ==> !(#[trigger] self@.tables[k]).range.overlaps(range),
            decreases self.tables.len() - i,
        {
            if self.tables[i].range.intersects(&range) {
                proof {
                    assert(self@.tables[i as int].range.overlaps(range));
                }
                return Err(XlsxError::TableRangeOverlaps);
            }
            i += 1;
        }
        let names = Self::name_columns(&range, table);
        if Self::any_duplicate(&names) {
            return Err(XlsxError::TableError);
        }
        if table.header_row {
            if Self::any_long_name(&names) {
                return Err(XlsxError::MaxStringLengthExceeded);
            }
            self.write_table_headers(first_row, first_col, &names);
        }
        let placed = PlacedTable {
            range,
            columns: names,
            header_row: table.header_row,
            autofilter: table.autofilter,
            style: table.style.clone(),
        };
        let ghost before = self.tables@;
        let ghost added = placed@;
        self.tables.push(placed);
        proof {
            Self::lemma_table_headers_keep_tables(
                old(self)@,
                first_row,
                first_col,
                Self::table_names(range, *table),
            );
            assert(tables_view(self.tables@) =~= tables_view(before).push(added));
            assert forall|k: int| 0 <= k < self.tables@.len() implies table_wf(
                (#[trigger] self.tables@[k])@,
            ) by {
                if k < before.len() {
                    assert(table_wf(before[k]@));
                }
            }
        }
        Ok(())
    }

    /// The number of tables in the worksheet.
    pub fn table_count(&self) -> (count: usize)
        ensures
            count == self@.tables.len(),
    {
        self.tables.len()
    }

    /// The table at `index` in the order in which the tables were added.
    pub fn table_at(&self, index: usize) -> (table: &PlacedTable)
        requires
            self.wf(),
            index < self@.tables.len(),
        ensures
            table@ == self@.tables[index as int],
            table_wf(table@),
    {
        &self.tables[index]
    }

    /// The worksheet after an image is placed in it.
    pub open spec fn with_image(view: WorksheetView, image: PlacedImageView) -> WorksheetView {
        WorksheetView { images: view.images.push(image), ..view }
    }

    /// Places an image at the upper left corner of the cell at
    /// `(row, col)`, shown at the size that its pixels and its resolution
    /// give.
    ///
    /// Fails with `RowColumnLimitError`, and changes nothing, where the cell
    /// lies outside the grid.
    pub fn insert_image(&mut self, row: RowNum, col: ColNum, image: &Image) -> (result: Result<
        (),
        XlsxError,
    >)
        requires
            old(self).wf(),
        ensures
            final(self).wf(),
            final(self).serializer() == old(self).serializer(),
            Self::in_grid(row, col) ==> result is Ok && final(self)@ == Self::with_image(
                old(self)@,
                PlacedImageView {
                    row,
                    col,
                    x_offset: 0,
                    y_offset: 0,
                    width: shown_extent(image.metadata().width, image.metadata().width_dpi),
                    height: shown_extent(image.metadata().height, image.metadata().height_dpi),
                    media: image.media(),
                    alt_text: image.alt_text_view(),
                },
            ),
            !Self::in_grid(row, col) ==> result == Err::<(), XlsxError>(
                XlsxError::RowColumnLimitError,
            ) && final(self)@ == old(self)@,
    {
        self.insert_image_with_offset(row, col, image, 0, 0)
    }

    /// Places an image at the cell at `(row, col)`, `x_offset` pixels to the
    /// right of and `y_offset` pixels below its upper left corner, shown at
    /// the size that its pixels and its resolution give.
    ///
    /// Fails with `RowColumnLimitError`, and changes nothing, where the cell
    /// lies outside the grid.
    pub fn insert_image_with_offset(
        &mut self,
        row: RowNum,
        col: ColNum,
        image: &Image,
        x_offset: u32,
        y_offset: u32,
    ) -> (result: Result<(), XlsxError>)
        requires
            old(self).wf(),
        ensures
            final(self).wf(),
            final(self).serializer() == old(self).serializer(),
            Self::in_grid(row, col) ==> result is Ok && final(self)@ == Self::with_image(
                old(self)@,
                PlacedImageView {
                    row,
                    col,
                    x_offset,
                    y_offset,
                    width: shown_extent(image.metadata().width, image.metadata().width_dpi),
                    height: shown_extent(image.metadata().height, image.metadata().height_dpi),
                    media: image.media(),
                    alt_text: image.alt_text_view(),
                },
            ),
            !Self::in_grid(row, col) ==> result == Err::<(), XlsxError>(
                XlsxError::RowColumnLimitError,
            ) && final(self)@ == old(self)@,
    {
        let width = extent_of(image.width(), image.width_dpi());
        let height = extent_of(image.height(), image.height_dpi());
        self.insert_image_with_size(row, col, image, x_offset, y_offset, width, height)
    }

    /// Places an image at the cell at `(row, col)`, at the given distance
    /// in pixels from its upper left corner, shown at the given size in
    /// EMU.
    ///
    /// Fails with `RowColumnLimitError`, and changes nothing, where the cell
    /// lies outside the grid.
    pub fn insert_image_with_size(
        &mut self,
        row: RowNum,
        col: ColNum,
        image: &Image,
        x_offset: u32,
        y_offset: u32,
        width: u64,
        height: u64,
    ) -> (result: Result<(), XlsxError>)
        requires
            old(self).wf(),
        ensures
            final(self).wf(),
            final(self).serializer() == old(self).serializer(),
            Self::in_grid(row, col) ==> result is Ok && final(self)@ == Self::with_image(
                old(self)@,
                PlacedImageView {
                    row,
                    col,
                    x_offset,
                    y_offset,
                    width,
                    height,
                    media: image.media(),
                    alt_text: image.alt_text_view(),
                },
            ),
            !Self::in_grid(row, col) ==> result == Err::<(), XlsxError>(
                XlsxError::RowColumnLimitError,
            ) && final(self)@ == old(self)@,
    {
        if row >= ROW_MAX || col >= COL_MAX {
            return Err(XlsxError::RowColumnLimitError);
        }
        let placed = PlacedImage {
            row,
            col,
            x_offset,
            y_offset,
            width,
            height,
            image: image.duplicate(),
        };
        let ghost before = self.images@;
        let ghost added = placed@;
        self.images.push(placed);
        proof {
            assert(images_view(self.images@) =~= images_view(before).push(added));
            assert forall|i: int| 0 <= i < self.images@.len() implies Self::in_grid(
                (#[trigger] self.images@[i]).row,
                self.images@[i].col,
            ) by {
                if i < before.len() {
                    assert(Self::in_grid(before[i].row, before[i].col));
                }
            }
        }
        Ok(())
    }

    /// The number of images in the worksheet.
    pub fn image_count(&self) -> (count: usize)
        ensures
            count == self@.images.len(),
    {
        self.images.len()
    }

    /// The image at `index` in the order of insertion.
    pub fn image_at(&self, index: usize) -> (placed: &PlacedImage)
        requires
            index < self@.images.len(),
        ensures
            placed@ == self@.images[index as int],
    {
        &self.images[index]
    }

    /// The width of a column as it is shown, in pixels: nothing for a
    /// hidden column, else the width of its own or the default width.
    pub open spec fn col_pixels(view: WorksheetView, col: ColNum) -> u16 {
        if Self::col_options(view, col).hidden {
            0
        } else if Self::col_options(view, col).custom_width {
            Self::col_options(view, col).width
        } else {
            DEFAULT_COL_WIDTH
        }
    }

    /// The height of a row as it is shown, in pixels: nothing for a hidden
    /// row, else the height of its own or the default height.
    pub open spec fn row_pixels(view: WorksheetView, row: RowNum) -> u16 {
        if Self::row_options(view, row).hidden {
            0
        } else if Self::row_options(view, row).custom_height {
            Self::row_options(view, row).height
        } else {
            DEFAULT_ROW_HEIGHT
        }
    }

    /// The width of a column as it is shown, in pixels.
    pub fn column_pixels(&self, col: ColNum) -> (pixels: u16)
        requires
            self.wf(),
        ensures
            pixels == Self::col_pixels(self@, col),
    {
        let options = self.load_col_options(col);
        if options.hidden {
            0
        } else if options.custom_width {
            options.width
        } else {
            DEFAULT_COL_WIDTH
        }
    }

    /// The height of a row as it is shown, in pixels.
    pub fn row_height_pixels(&self, row: RowNum) -> (pixels: u16)
        requires
            self.wf(),
        ensures
            pixels == Self::row_pixels(self@, row),
    {
        let options = self.load_row_options(row);
        if options.hidden {
            0
        } else if options.custom_height {
            options.height
        } else {
            DEFAULT_ROW_HEIGHT
        }
    }

    /// The range that is printed when `range` is set as the range to
    /// print: the range itself, or nothing where the range is the whole
    /// worksheet, which is printed anyway.
    pub open spec fn printed_range(range: CellRange) -> Option<CellRange> {
        if range.first_row == 0 && range.first_col == 0 && range.last_row == ROW_MAX - 1
            && range.last_col == COL_MAX - 1 {
            None
        } else {
            Some(range)
        }
    }

    /// Sets the range that is printed.
    ///
    /// Fails, and changes nothing, with `RowColumnLimitError` where the
    /// range leaves the grid, and with `RowColumnOrderError` where it runs
    /// backwards.
    pub fn set_print_area(
        &mut self,
        first_row: RowNum,
        first_col: ColNum,
        last_row: RowNum,
        last_col: ColNum,
    ) -> (result: Result<(), XlsxError>)
        requires
            old(self).wf(),
        ensures
            final(self).wf(),
            final(self).serializer() == old(self).serializer(),
            match Self::range_error(CellRange { first_row, first_col, last_row, last_col }) {
                Some(e) => result == Err::<(), XlsxError>(e) && final(self)@ == old(self)@,
                None => result is Ok && final(self)@ == (WorksheetView {
                    print_area: Self::printed_range(
                        CellRange { first_row, first_col, last_row, last_col },
                    ),
                    ..old(self)@
                }),
            },
    {
        let range = CellRange { first_row, first_col, last_row, last_col };
        match Self::check_range(&range) {
            Err(e) => {
                return Err(e);
            },
            Ok(_) => {},
        }
        if first_row == 0 && first_col == 0 && last_row == ROW_MAX - 1 && last_col == COL_MAX - 1 {
            self.print_area = None;
        } else {
            self.print_area = Some(range);
        }
        Ok(())
    }

    /// The range that is printed, where it is not the whole worksheet.
    pub fn print_area(&self) -> (range: Option<CellRange>)
        ensures
            range == self@.print_area,
    {
        self.print_area
    }

    /// Sets the paper size, by its number in the file format.
    pub fn set_paper_size(&mut self, paper_size: u8)
        requires
            old(self).wf(),
        ensures
            final(self).wf(),
            final(self).serializer() == old(self).serializer(),
            final(self)@ == (WorksheetView {
                page_setup: PageSetup { paper_size, ..old(self)@.page_setup },
                ..old(self)@
            }),
    {
        self.page_setup.paper_size = paper_size;
    }

    /// Has the gridlines printed, or not.
    pub fn set_print_gridlines(&mut self, enable: bool)
        requires
            old(self).wf(),
        ensures
            final(self).wf(),
            final(self).serializer() == old(self).serializer(),
            final(self)@ == (WorksheetView {
                page_setup: PageSetup { print_gridlines: enable, ..old(self)@.page_setup },
                ..old(self)@
            }),
    {
        self.page_setup.print_gridlines = enable;
    }

    /// Has the row and column headings printed, or not.
    pub fn set_print_headings(&mut self, enable: bool)
        requires
            old(self).wf(),
        ensures
            final(self).wf(),
            final(self).serializer() == old(self).serializer(),
            final(self)@ == (WorksheetView {
                page_setup: PageSetup { print_headings: enable, ..old(self)@.page_setup },
                ..old(self)@
            }),
    {
        self.page_setup.print_headings = enable;
    }

    /// Centres the printed worksheet between left and right, or not.
    pub fn set_print_center_horizontally(&mut self, enable: bool)
        requires
            old(self).wf(),
        ensures
            final(self).wf(),
            final(self).serializer() == old(self).serializer(),
            final(self)@ == (WorksheetView {
                page_setup: PageSetup { center_horizontally: enable, ..old(self)@.page_setup },
                ..old(self)@
            }),
    {
        self.page_setup.center_horizontally = enable;
    }

    /// Centres the printed worksheet between top and bottom, or not.
    pub fn set_print_center_vertically(&mut self, enable: bool)
        requires
            old(self).wf(),
        ensures
            final(self).wf(),
            final(self).serializer() == old(self).serializer(),
            final(self)@ == (WorksheetView {
                page_setup: PageSetup { center_vertically: enable, ..old(self)@.page_setup },
                ..old(self)@
            }),
    {
        self.page_setup.center_vertically = enable;
    }

    /// The name of the worksheet.
    pub fn name(&self) -> (name: String)
        ensures
            name@ == self@.name,
    {
        self.name.clone()
    }

    /// Gives a worksheet without a name the name `name`, which is a name
    /// that every worksheet can have.
    pub(crate) fn set_default_name(&mut self, name: String)
        requires
            old(self).wf(),
            name@.len() > 0,
        ensures
            final(self).wf(),
            final(self).serializer() == old(self).serializer(),
            sheet_name_error(name@) is None ==> final(self)@ == (WorksheetView {
                name: name@,
                ..old(self)@
            }),
            sheet_name_error(name@) is Some ==> final(self)@ == old(self)@,
    {
        match check_sheet_name(name.as_str()) {
            Ok(_) => {
                self.name = name;
            },
            Err(_) => {},
        }
    }

    /// The number of formats in the format table of the worksheet.
    pub fn format_count(&self) -> (count: usize)
        ensures
            count == self@.formats.len(),
    {
        self.formats.len()
    }

    /// The format at `index` in the format table of the worksheet.
    pub fn format_at(&self, index: usize) -> (format: &Format)
        requires
            index < self@.formats.len(),
        ensures
            format@ == self@.formats[index as int],
    {
        self.formats.get(index)
    }

    /// The range over which the worksheet has a filter, if it has one.
    pub fn autofilter_range(&self) -> (range: Option<CellRange>)
        ensures
            range == self@.autofilter,
    {
        self.autofilter
    }

    /// Sets the name of the worksheet.
    ///
    /// Fails, and changes nothing, where `sheet_name_error` names an error:
    /// the name is empty, is longer than 31 characters, or holds one of the
    /// characters `[ ] : * ? / \`.
    pub fn set_name(&mut self, name: &str) -> (result: Result<(), XlsxError>)
        requires
            old(self).wf(),
        ensures
            final(self).wf(),
            final(self).serializer() == old(self).serializer(),
            match sheet_name_error(name@) {
                Some(e) => result == Err::<(), XlsxError>(e) && final(self)@ == old(self)@,
                None => result is Ok && final(self)@ == (WorksheetView {
                    name: name@,
                    ..old(self)@
                }),
            },
    {
        match check_sheet_name(name) {
            Err(e) => Err(e),
            Ok(_) => {
                self.name = name.to_owned();
                Ok(())
            },
        }
    }

    /// Takes `name` as the record type whose values arrive.
    pub(crate) fn set_serializer_struct(&mut self, name: &str)
        requires
            old(self).wf(),
        ensures
            final(self).wf(),
            final(self)@ == old(self)@,
            final(self).serializer().wf(),
            final(self).serializer().fields() == old(self).serializer().fields(),
            final(self).serializer().current_struct_name() == name@,
            final(self).serializer().current_field_name() == old(
                self,
            ).serializer().current_field_name(),
    {
        self.serializer_state.set_current_struct(name);
    }

    /// Takes `key` as the field whose value arrives next.
    pub(crate) fn set_serializer_field(&mut self, key: &str)
        requires
            old(self).wf(),
        ensures
            final(self).wf(),
            final(self)@ == old(self)@,
            final(self).serializer().wf(),
            final(self).serializer().fields() == old(self).serializer().fields(),
            final(self).serializer().current_struct_name() == old(
                self,
            ).serializer().current_struct_name(),
            final(self).serializer().current_field_name() == key@,
    {
        self.serializer_state.set_current_field(key);
    }

    /// Registers the fields of the record type `name`.
    pub(crate) fn register_serializer_struct(
        &mut self,
        name: &str,
        fields: crate::string_map::StringMap<crate::serializer::CustomSerializeField>,
    )
        requires
            old(self).wf(),
            fields.wf(),
        ensures
            final(self).wf(),
            final(self)@ == old(self)@,
            final(self).serializer().wf(),
            final(self).serializer().fields() == crate::serializer::with_struct(
                old(self).serializer().fields(),
                name@,
                crate::serializer::table_view(fields@),
            ),
            final(self).serializer().current_key() == old(self).serializer().current_key(),
    {
        self.serializer_state.register_struct(name, fields);
    }

    /// The place of the next value of the current field; see
    /// `SerializerState::current_state`.
    pub(crate) fn serializer_current_state(&mut self) -> (result: Result<
        (RowNum, ColNum, Option<Format>),
        (),
    >)
        requires
            old(self).wf(),
        ensures
            final(self).wf(),
            final(self)@ == old(self)@,
            final(self).serializer().wf(),
            final(self).serializer().current_key() == old(self).serializer().current_key(),
            result is Ok <==> old(self).serializer().fields().contains_key(
                old(self).serializer().current_key(),
            ),
            result is Err ==> final(self).serializer().fields() == old(self).serializer().fields(),
            result matches Ok(place) ==> {
                let field = old(self).serializer().fields()[old(self).serializer().current_key()];
                &&& place.0 == field.row
                &&& place.1 == field.col
                &&& crate::serializer::format_option_view(place.2) == field.value_format
                &&& final(self).serializer().fields() == old(self).serializer().fields().insert(
                    old(self).serializer().current_key(),
                    crate::serializer::CustomSerializeFieldView {
                        row: crate::serializer::next_row(field.row),
                        ..field
                    },
                )
            },
    {
        self.serializer_state.current_state()
    }

    /// A worksheet that is in order keeps its serializer state in order.
    pub proof fn lemma_serializer_wf(&self)
        requires
            self.wf(),
        ensures
            self.serializer().wf(),
    {
    }
}

/// The table lies in the grid, and has one name for each of its columns.
pub open spec fn table_wf(table: PlacedTableView) -> bool {
    table.range.wf() && table.columns.len() == table.range.last_col - table.range.first_col + 1
}

/// Whether two of the names `names` are the same.
pub open spec fn has_duplicate(names: Seq<Seq<char>>) -> bool {
    exists|i: int, j: int| 0 <= i < j < names.len() && #[trigger] names[i] == #[trigger] names[j]
}

/// The text that a link shows: the text given for it, or else its target.
pub open spec fn shown_text(text: Option<&str>, target: Seq<char>) -> Seq<char> {
    match text {
        Some(t) => t@,
        None => target,
    }
}

/// Whether `c` may not stand in the name of a worksheet.
pub open spec fn is_invalid_sheet_name_char(c: char) -> bool {
    c == '[' || c == ']' || c == ':' || c == '*' || c == '?' || c == '/' || c == '\\'
}

/// Why `name` cannot be the name of a worksheet, if it cannot: it is empty,
/// or longer than 31 characters, or holds a character that a name may not
/// hold.
pub open spec fn sheet_name_error(name: Seq<char>) -> Option<XlsxError> {
    if name.len() == 0 {
        Some(XlsxError::SheetnameCannotBeBlank)
    } else if name.len() > 31 {
        Some(XlsxError::SheetnameLengthExceeded)
    } else if exists|i: int| 0 <= i < name.len() && is_invalid_sheet_name_char(#[trigger] name[i]) {
        Some(XlsxError::SheetnameContainsInvalidCharacter)
    } else {
        None
    }
}

/// Checks whether `name` can be the name of a worksheet.
#[verifier::loop_isolation(false)]
pub fn check_sheet_name(name: &str) -> (result: Result<(), XlsxError>)
    ensures
        match sheet_name_error(name@) {
            Some(e) => result == Err::<(), XlsxError>(e),
            None => result is Ok,
        },
{
    let length = name.unicode_len();
    if length == 0 {
        return Err(XlsxError::SheetnameCannotBeBlank);
    }
    if length > 31 {
        return Err(XlsxError::SheetnameLengthExceeded);
    }
    let mut i: usize = 0;
    while i < length
        invariant
            i <= length,
            length == name@.len(),
            forall|j: int| 0 <= j < i ==> !is_invalid_sheet_name_char(#[trigger] name@[j]),
        decreases length - i,
    {
        let c = name.get_char(i);
        if c == '[' || c == ']' || c == ':' || c == '*' || c == '?' || c == '/' || c == '\\' {
            proof {
                assert(is_invalid_sheet_name_char(name@[i as int]));
            }
            return Err(XlsxError::SheetnameContainsInvalidCharacter);
        }
        i += 1;
    }
    Ok(())
}

/// A format given by reference, or none, as a plain value.
pub open spec fn format_ref_view(format: Option<&Format>) -> Option<FormatView> {
    match format {
        Some(f) => Some(f@),
        None => None,
    }
}

} // verus!
