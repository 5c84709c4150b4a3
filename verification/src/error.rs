//! The errors that the library reports.

use vstd::prelude::*;
use vstd::string::*;

verus! {

/// Why an operation on a workbook, a worksheet or an image was refused.
#[derive(Clone, Copy, Debug, PartialEq, Eq, Structural)]
pub enum XlsxError {
    /// A row or column lies outside the grid.
    RowColumnLimitError,
    /// A range runs backwards: its first row or column lies after its last.
    RowColumnOrderError,
    /// A text is longer than a cell may hold.
    MaxStringLengthExceeded,
    /// A date or a time of day does not exist, or lies outside the years
    /// 1900 to 9999.
    DateTimeRangeError,
    /// A link is longer than 2080 characters.
    MaxUrlLengthExceeded,
    /// A link begins with none of the known schemes.
    UnknownUrlType,
    /// A range to merge holds a single cell.
    MergeRangeSingleCell,
    /// A range to merge shares a cell with a range merged before.
    MergeRangeOverlaps,
    /// A table has no row below its headers, or two of its columns have
    /// the same name.
    TableError,
    /// A table shares a cell with a table added before.
    TableRangeOverlaps,
    /// A row or a column would belong to more than seven groups, one
    /// within the other.
    MaxGroupLevelExceeded,
    /// A worksheet name is empty.
    SheetnameCannotBeBlank,
    /// A worksheet name is longer than 31 characters.
    SheetnameLengthExceeded,
    /// A worksheet name holds one of the characters `[ ] : * ? / \`.
    SheetnameContainsInvalidCharacter,
    /// A worksheet name is already in use in the workbook, ignoring case.
    SheetnameReused,
    /// The bytes of an image begin with no known signature.
    UnknownImageType,
    /// An image has a width or height of zero, or none could be read.
    ImageDimensionError,
    /// A cell or a row or column setting refers to a format that the
    /// registry does not hold.
    UnknownFormat,
    /// A cell refers to a text that the shared-string table does not hold.
    UnknownSharedString,
}

impl XlsxError {
    /// A sentence that describes the error.
    pub fn message(&self) -> (text: String)
        ensures
            text@ == self.message_text(),
    {
        match self {
            XlsxError::RowColumnLimitError => "Row or column exceeds the worksheet limits".to_owned(),
            XlsxError::RowColumnOrderError => "First row or column of a range lies after the last".to_owned(),
            XlsxError::MaxStringLengthExceeded => "String exceeds the limit of 32,767 characters".to_owned(),
            XlsxError::DateTimeRangeError => "Date or time is out of range".to_owned(),
            XlsxError::MaxUrlLengthExceeded => "URL exceeds the limit of 2080 characters".to_owned(),
            XlsxError::UnknownUrlType => "URL begins with none of the known schemes".to_owned(),
            XlsxError::MergeRangeSingleCell => "A merge range cannot be a single cell".to_owned(),
            XlsxError::MergeRangeOverlaps => "Merge range overlaps a previous merge range".to_owned(),
            XlsxError::TableError => "Table needs a row below its headers and columns of distinct names".to_owned(),
            XlsxError::TableRangeOverlaps => "Table range overlaps a previous table range".to_owned(),
            XlsxError::MaxGroupLevelExceeded => "Rows and columns cannot be grouped more than 7 levels deep".to_owned(),
            XlsxError::SheetnameCannotBeBlank => "Worksheet name cannot be blank".to_owned(),
            XlsxError::SheetnameLengthExceeded => "Worksheet name exceeds the limit of 31 characters".to_owned(),
            XlsxError::SheetnameContainsInvalidCharacter => "Worksheet name cannot contain the characters [ ] : * ? / \\".to_owned(),
            XlsxError::SheetnameReused => "Worksheet name is already in use in the workbook".to_owned(),
            XlsxError::UnknownImageType => "Unknown image type: expected PNG, JPEG, GIF or BMP".to_owned(),
            XlsxError::ImageDimensionError => "Image has a width or height of zero".to_owned(),
            XlsxError::UnknownFormat => "Reference to a format that is not registered".to_owned(),
            XlsxError::UnknownSharedString => "Reference to a string that is not in the shared-string table".to_owned(),
        }
    }

    /// The text that `message` returns.
    pub open spec fn message_text(&self) -> Seq<char> {
        match self {
            XlsxError::RowColumnLimitError => "Row or column exceeds the worksheet limits"@,
            XlsxError::RowColumnOrderError => "First row or column of a range lies after the last"@,
            XlsxError::MaxStringLengthExceeded => "String exceeds the limit of 32,767 characters"@,
            XlsxError::DateTimeRangeError => "Date or time is out of range"@,
            XlsxError::MaxUrlLengthExceeded => "URL exceeds the limit of 2080 characters"@,
            XlsxError::UnknownUrlType => "URL begins with none of the known schemes"@,
            XlsxError::MergeRangeSingleCell => "A merge range cannot be a single cell"@,
            XlsxError::MergeRangeOverlaps => "Merge range overlaps a previous merge range"@,
            XlsxError::TableError => "Table needs a row below its headers and columns of distinct names"@,
            XlsxError::TableRangeOverlaps => "Table range overlaps a previous table range"@,
            XlsxError::MaxGroupLevelExceeded => "Rows and columns cannot be grouped more than 7 levels deep"@,
            XlsxError::SheetnameCannotBeBlank => "Worksheet name cannot be blank"@,
            XlsxError::SheetnameLengthExceeded => "Worksheet name exceeds the limit of 31 characters"@,
            XlsxError::SheetnameContainsInvalidCharacter => "Worksheet name cannot contain the characters [ ] : * ? / \\"@,
            XlsxError::SheetnameReused => "Worksheet name is already in use in the workbook"@,
            XlsxError::UnknownImageType => "Unknown image type: expected PNG, JPEG, GIF or BMP"@,
            XlsxError::ImageDimensionError => "Image has a width or height of zero"@,
            XlsxError::UnknownFormat => "Reference to a format that is not registered"@,
            XlsxError::UnknownSharedString => "Reference to a string that is not in the shared-string table"@,
        }
    }
}

} // verus!
