//! Writing records to a worksheet: the headers of a record type, the
//! options of its fields, and the place at which the next value of each
//! field goes.
//!
//! A record type is known by its name and the names of its fields, in the
//! order of declaration. Registering its headers at an anchor cell gives
//! each field a column and a next row. After that every value that arrives
//! for a field is written at the field's column and next row, and the next
//! row moves down by one.

use vstd::prelude::*;
use vstd::string::*;
use crate::error::XlsxError;
use crate::format::{Format, FormatView};
use crate::number::{integer_text, Number};
use crate::registry::Descriptor;
use crate::string_map::StringMap;
use crate::utility::{push_char, str_equal, ColNum, RowNum, COL_MAX, MAX_STRING_LEN, ROW_MAX};
use crate::worksheet::{CellValue, CellValueView, Worksheet, WorksheetView};

verus! {

/// An optional format as a plain value.
pub open spec fn format_option_view(format: Option<Format>) -> Option<FormatView> {
    match format {
        Some(f) => Some(f@),
        None => None,
    }
}

/// A copy of an optional format.
pub fn duplicate_format_option(format: &Option<Format>) -> (copy: Option<Format>)
    ensures
        format_option_view(copy) == format_option_view(*format),
{
    match format {
        Some(f) => Some(f.duplicate()),
        None => None,
    }
}

/// The options of one field of a record type: the header that stands for
/// it, its formats, and, once its headers are registered, its column and
/// the row of its next value.
#[derive(Clone)]
pub struct CustomSerializeField {
    pub field_name: String,
    pub header_name: String,
    pub header_format: Option<Format>,
    pub column_format: Option<Format>,
    pub value_format: Option<Format>,
    pub skip: bool,
    pub row: RowNum,
    pub col: ColNum,
    pub pixel_width: Option<u16>,
}

/// The options of a field as a plain value.
pub struct CustomSerializeFieldView {
    pub field_name: Seq<char>,
    pub header_name: Seq<char>,
    pub header_format: Option<FormatView>,
    pub column_format: Option<FormatView>,
    pub value_format: Option<FormatView>,
    pub skip: bool,
    pub row: RowNum,
    pub col: ColNum,
    pub pixel_width: Option<u16>,
}

impl View for CustomSerializeField {
    type V = CustomSerializeFieldView;

    open spec fn view(&self) -> CustomSerializeFieldView {
        CustomSerializeFieldView {
            field_name: self.field_name@,
            header_name: self.header_name@,
            header_format: format_option_view(self.header_format),
            column_format: format_option_view(self.column_format),
            value_format: format_option_view(self.value_format),
            skip: self.skip,
            row: self.row,
            col: self.col,
            pixel_width: self.pixel_width,
        }
    }
}

/// The options of a field for which nothing was chosen: the header is the
/// name of the field, there is no format and no width, the field is not
/// skipped, and it has no place yet.
pub open spec fn default_field(field_name: Seq<char>) -> CustomSerializeFieldView {
    CustomSerializeFieldView {
        field_name,
        header_name: field_name,
        header_format: None,
        column_format: None,
        value_format: None,
        skip: false,
        row: 0,
        col: 0,
        pixel_width: None,
    }
}

impl CustomSerializeField {
    /// The default options of the field `field_name`.
    pub fn new(field_name: &str) -> (field: CustomSerializeField)
        ensures
            field@ == default_field(field_name@),
    {
        let field_name = field_name.to_owned();
        let header_name = field_name.clone();

        CustomSerializeField {
            field_name,
            header_name,
            header_format: None,
            column_format: None,
            value_format: None,
            skip: false,
            row: 0,
            col: 0,
            pixel_width: None,
        }
    }

    /// Sets the header that stands for the field.
    pub fn rename(self, name: &str) -> (field: CustomSerializeField)
        ensures
            field@ == (CustomSerializeFieldView { header_name: name@, ..self@ }),
    {
        let mut field = self;
        field.header_name = name.to_owned();
        field
    }

    /// Sets the format of the header cell of the field.
    pub fn set_header_format(self, format: &Format) -> (field: CustomSerializeField)
        ensures
            field@ == (CustomSerializeFieldView { header_format: Some(format@), ..self@ }),
    {
        let mut field = self;
        field.header_format = Some(format.duplicate());
        field
    }

    /// Sets the format of the column of the field.
    pub fn set_column_format(self, format: &Format) -> (field: CustomSerializeField)
        ensures
            field@ == (CustomSerializeFieldView { column_format: Some(format@), ..self@ }),
    {
        let mut field = self;
        field.column_format = Some(format.duplicate());
        field
    }

    /// Sets the format of the cells that hold the values of the field.
    pub fn set_value_format(self, format: &Format) -> (field: CustomSerializeField)
        ensures
            field@ == (CustomSerializeFieldView { value_format: Some(format@), ..self@ }),
    {
        let mut field = self;
        field.value_format = Some(format.duplicate());
        field
    }

    /// Leaves the field out of the worksheet, or takes it in again.
    pub fn skip(self, enable: bool) -> (field: CustomSerializeField)
        ensures
            field@ == (CustomSerializeFieldView { skip: enable, ..self@ }),
    {
        let mut field = self;
        field.skip = enable;
        field
    }

    /// Sets the width of the column of the field, in pixels.
    pub fn set_column_width_pixels(self, width: u16) -> (field: CustomSerializeField)
        ensures
            field@ == (CustomSerializeFieldView { pixel_width: Some(width), ..self@ }),
    {
        let mut field = self;
        field.pixel_width = Some(width);
        field
    }

    /// A copy of the options.
    pub fn duplicate(&self) -> (field: CustomSerializeField)
        ensures
            field@ == self@,
    {
        CustomSerializeField {
            field_name: self.field_name.clone(),
            header_name: self.header_name.clone(),
            header_format: duplicate_format_option(&self.header_format),
            column_format: duplicate_format_option(&self.column_format),
            value_format: duplicate_format_option(&self.value_format),
            skip: self.skip,
            row: self.row,
            col: self.col,
            pixel_width: self.pixel_width,
        }
    }
}

/// The fields of a list of options as plain values.
pub open spec fn fields_view(fields: Seq<CustomSerializeField>) -> Seq<CustomSerializeFieldView> {
    Seq::new(fields.len(), |i: int| fields[i]@)
}

/// A copy of a list of options.
pub fn duplicate_fields(fields: &Vec<CustomSerializeField>) -> (copy: Vec<CustomSerializeField>)
    ensures
        fields_view(copy@) == fields_view(fields@),
{
    let mut copy: Vec<CustomSerializeField> = Vec::new();
    let mut i: usize = 0;
    while i < fields.len()
        invariant
            i <= fields.len(),
            copy@.len() == i,
            forall|j: int| 0 <= j < i ==> copy@[j]@ == fields@[j]@,
        decreases fields.len() - i,
    {
        copy.push(fields[i].duplicate());
        i += 1;
    }
    proof {
        assert(fields_view(copy@) =~= fields_view(fields@));
    }
    copy
}

/// The options of a record type: the format of its headers, whether the
/// headers are written, and the options of single fields.
#[derive(Clone)]
pub struct SerializeFieldOptions {
    pub struct_name: String,
    pub header_format: Option<Format>,
    pub hide_headers: bool,
    pub custom_headers: Vec<CustomSerializeField>,
    pub use_custom_headers_only: bool,
}

/// The options of a record type as a plain value.
pub struct SerializeFieldOptionsView {
    pub struct_name: Seq<char>,
    pub header_format: Option<FormatView>,
    pub hide_headers: bool,
    pub custom_headers: Seq<CustomSerializeFieldView>,
    pub use_custom_headers_only: bool,
}

impl View for SerializeFieldOptions {
    type V = SerializeFieldOptionsView;

    open spec fn view(&self) -> SerializeFieldOptionsView {
        SerializeFieldOptionsView {
            struct_name: self.struct_name@,
            header_format: format_option_view(self.header_format),
            hide_headers: self.hide_headers,
            custom_headers: fields_view(self.custom_headers@),
            use_custom_headers_only: self.use_custom_headers_only,
        }
    }
}

/// The options of a record type for which nothing was chosen: headers are
/// written without format, and every field of the type is written under
/// its own name.
pub open spec fn default_field_options() -> SerializeFieldOptionsView {
    SerializeFieldOptionsView {
        struct_name: Seq::<char>::empty(),
        header_format: None,
        hide_headers: false,
        custom_headers: Seq::<CustomSerializeFieldView>::empty(),
        use_custom_headers_only: false,
    }
}

impl Default for SerializeFieldOptions {
    /// The default options.
    fn default() -> (options: SerializeFieldOptions)
        ensures
            options@ == default_field_options(),
    {
        SerializeFieldOptions::new()
    }
}

impl SerializeFieldOptions {
    /// The default options.
    pub fn new() -> (options: SerializeFieldOptions)
        ensures
            options@ == default_field_options(),
    {
        let options = SerializeFieldOptions {
            struct_name: String::new(),
            header_format: None,
            hide_headers: false,
            custom_headers: Vec::new(),
            use_custom_headers_only: false,
        };
        proof {
            assert(options@.custom_headers =~= Seq::<CustomSerializeFieldView>::empty());
        }
        options
    }

    /// Sets the format of the header cells.
    pub fn set_header_format(self, format: &Format) -> (options: SerializeFieldOptions)
        ensures
            options@ == (SerializeFieldOptionsView { header_format: Some(format@), ..self@ }),
    {
        let mut options = self;
        options.header_format = Some(format.duplicate());
        options
    }

    /// Leaves the header row out, or takes it in again.
    pub fn hide_headers(self, enable: bool) -> (options: SerializeFieldOptions)
        ensures
            options@ == (SerializeFieldOptionsView { hide_headers: enable, ..self@ }),
    {
        let mut options = self;
        options.hide_headers = enable;
        options
    }

    /// Sets the options of single fields.
    pub fn set_custom_headers(self, custom_headers: &Vec<CustomSerializeField>) -> (options:
        SerializeFieldOptions)
        ensures
            options@ == (SerializeFieldOptionsView {
                custom_headers: fields_view(custom_headers@),
                ..self@
            }),
    {
        let mut options = self;
        options.custom_headers = duplicate_fields(custom_headers);
        options
    }

    /// Writes only the fields that have options of their own, in the order
    /// of these options; or, with `false`, every field of the type in the
    /// order of declaration.
    pub fn use_custom_headers_only(self, enable: bool) -> (options: SerializeFieldOptions)
        ensures
            options@ == (SerializeFieldOptionsView { use_custom_headers_only: enable, ..self@ }),
    {
        let mut options = self;
        options.use_custom_headers_only = enable;
        options
    }
}

/// A record type: its name and the names of its fields in the order of
/// declaration.
pub struct SerializerHeader {
    pub struct_name: String,
    pub field_names: Vec<String>,
}

/// Texts as plain values.
pub open spec fn names_view(names: Seq<String>) -> Seq<Seq<char>> {
    Seq::new(names.len(), |i: int| names[i]@)
}

impl SerializerHeader {
    /// A record type without a name and without fields.
    pub fn new() -> (header: SerializerHeader)
        ensures
            header.struct_name@ == Seq::<char>::empty(),
            header.field_names@ == Seq::<String>::empty(),
    {
        SerializerHeader { struct_name: String::new(), field_names: Vec::new() }
    }

    /// Takes the name of the record type.
    pub fn serialize_struct(&mut self, name: &str)
        ensures
            final(self).struct_name@ == name@,
            final(self).field_names == old(self).field_names,
    {
        self.struct_name = name.to_owned();
    }

    /// Takes the name of the next field.
    pub fn serialize_field(&mut self, key: &str)
        ensures
            final(self).struct_name == old(self).struct_name,
            names_view(final(self).field_names@) == names_view(old(self).field_names@).push(key@),
    {
        self.serialize_str(key);
    }

    /// Takes the name of the next field.
    pub fn serialize_str(&mut self, data: &str)
        ensures
            final(self).struct_name == old(self).struct_name,
            names_view(final(self).field_names@) == names_view(old(self).field_names@).push(
                data@,
            ),
    {
        self.field_names.push(data.to_owned());
        proof {
            assert(names_view(self.field_names@) =~= names_view(old(self).field_names@).push(
                data@,
            ));
        }
    }
}

/// A table of fields as plain values.
pub open spec fn table_view(fields: Map<Seq<char>, CustomSerializeField>) -> Map<
    Seq<char>,
    CustomSerializeFieldView,
> {
    Map::new(|name: Seq<char>| fields.contains_key(name), |name: Seq<char>| fields[name]@)
}

/// The registered fields after the record type `name` is registered with
/// the fields `table`: the type has exactly the fields of `table`, and the
/// fields of every other type are as they were.
pub open spec fn with_struct(
    fields: Map<(Seq<char>, Seq<char>), CustomSerializeFieldView>,
    name: Seq<char>,
    table: Map<Seq<char>, CustomSerializeFieldView>,
) -> Map<(Seq<char>, Seq<char>), CustomSerializeFieldView> {
    Map::new(
        |k: (Seq<char>, Seq<char>)|
            if k.0 == name {
                table.contains_key(k.1)
            } else {
                fields.contains_key(k)
            },
        |k: (Seq<char>, Seq<char>)|
            if k.0 == name {
                table[k.1]
            } else {
                fields[k]
            },
    )
}

/// Where the values of the fields go: for each record type whose headers
/// are registered, the options of its fields; and the record type and the
/// field whose value is to arrive next.
pub struct SerializerState {
    pub(crate) structs: StringMap<StringMap<CustomSerializeField>>,
    pub(crate) current_struct: String,
    pub(crate) current_field: String,
}

/// The row after `row`; the last row that can be counted stays as it is.
pub open spec fn next_row(row: RowNum) -> RowNum {
    if row < u32::MAX {
        (row + 1) as RowNum
    } else {
        row
    }
}

impl SerializerState {
    /// The fields of every registered record type, by the name of the type
    /// and the name of the field.
    pub closed spec fn fields(&self) -> Map<(Seq<char>, Seq<char>), CustomSerializeFieldView> {
        Map::new(
            |k: (Seq<char>, Seq<char>)|
                self.structs@.contains_key(k.0) && self.structs@[k.0]@.contains_key(k.1),
            |k: (Seq<char>, Seq<char>)| self.structs@[k.0]@[k.1]@,
        )
    }

    /// The name of the record type whose values arrive.
    pub closed spec fn current_struct_name(&self) -> Seq<char> {
        self.current_struct@
    }

    /// The name of the field whose value arrives next.
    pub closed spec fn current_field_name(&self) -> Seq<char> {
        self.current_field@
    }

    /// The name of the current record type and field, as the key of
    /// `fields`.
    pub open spec fn current_key(&self) -> (Seq<char>, Seq<char>) {
        (self.current_struct_name(), self.current_field_name())
    }

    /// No name is held twice.
    pub closed spec fn wf(&self) -> bool {
        &&& self.structs.wf()
        &&& forall|name: Seq<char>| #[trigger]
            self.structs@.contains_key(name) ==> self.structs@[name].wf()
    }

    /// A state without record types.
    pub fn new() -> (state: SerializerState)
        ensures
            state.wf(),
            state.fields() == Map::<(Seq<char>, Seq<char>), CustomSerializeFieldView>::empty(),
            state.current_struct_name() == Seq::<char>::empty(),
            state.current_field_name() == Seq::<char>::empty(),
    {
        let state = SerializerState {
            structs: StringMap::new(),
            current_struct: String::new(),
            current_field: String::new(),
        };
        proof {
            assert(state.fields() =~= Map::<
                (Seq<char>, Seq<char>),
                CustomSerializeFieldView,
            >::empty());
        }
        state
    }

    /// Takes `name` as the record type whose values arrive.
    pub fn set_current_struct(&mut self, name: &str)
        requires
            old(self).wf(),
        ensures
            final(self).wf(),
            final(self).fields() == old(self).fields(),
            final(self).current_struct_name() == name@,
            final(self).current_field_name() == old(self).current_field_name(),
    {
        self.current_struct = name.to_owned();
    }

    /// Takes `key` as the field whose value arrives next.
    pub fn set_current_field(&mut self, key: &str)
        requires
            old(self).wf(),
        ensures
            final(self).wf(),
            final(self).fields() == old(self).fields(),
            final(self).current_struct_name() == old(self).current_struct_name(),
            final(self).current_field_name() == key@,
    {
        self.current_field = key.to_owned();
    }

    /// Registers the fields of the record type `name`, in place of those
    /// that were registered under that name.
    pub fn register_struct(&mut self, name: &str, fields: StringMap<CustomSerializeField>)
        requires
            old(self).wf(),
            fields.wf(),
        ensures
            final(self).wf(),
            final(self).fields() == with_struct(old(self).fields(), name@, table_view(fields@)),
            final(self).current_key() == old(self).current_key(),
    {
        self.structs.insert(name.to_owned(), fields);
        proof {
            assert(self.fields() =~= with_struct(old(self).fields(), name@, table_view(fields@)));
        }
    }

    /// The place of the next value of the current field, and the format of
    /// its cell; the next row of the field moves down by one.
    ///
    /// Fails, and changes nothing, where the current record type has no
    /// registered headers or does not hold the current field.
    pub fn current_state(&mut self) -> (result: Result<(RowNum, ColNum, Option<Format>), ()>)
        requires
            old(self).wf(),
        ensures
            final(self).wf(),
            final(self).current_key() == old(self).current_key(),
            result is Ok <==> old(self).fields().contains_key(old(self).current_key()),
            result is Err ==> final(self).fields() == old(self).fields(),
            result matches Ok(place) ==> {
                let field = old(self).fields()[old(self).current_key()];
                &&& place.0 == field.row
                &&& place.1 == field.col
                &&& format_option_view(place.2) == field.value_format
                &&& final(self).fields() == old(self).fields().insert(
                    old(self).current_key(),
                    CustomSerializeFieldView { row: next_row(field.row), ..field },
                )
            },
    {
        let ghost struct_name = self.current_struct@;
        let ghost field_name = self.current_field@;
        let ghost before = self.structs@;
        let Some(mut fields) = self.structs.remove(self.current_struct.as_str()) else {
            proof {
                assert(self.structs@ =~= before);
                assert(self.fields() =~= old(self).fields());
            }
            return Err(());
        };
        let ghost fields_before = fields@;
        let Some(mut field) = fields.remove(self.current_field.as_str()) else {
            proof {
                assert(fields@ =~= fields_before);
            }
            self.structs.insert(self.current_struct.clone(), fields);
            proof {
                assert(self.fields() =~= old(self).fields());
            }
            return Err(());
        };

        let row = field.row;
        let col = field.col;
        let value_format = duplicate_format_option(&field.value_format);
        let ghost found = field@;

        if field.row < u32::MAX {
            field.row += 1;
        }

        fields.insert(self.current_field.clone(), field);
        self.structs.insert(self.current_struct.clone(), fields);
        proof {
            assert(self.fields() =~= old(self).fields().insert(
                old(self).current_key(),
                CustomSerializeFieldView { row: next_row(found.row), ..found },
            ));
        }

        Ok((row, col, value_format))
    }
}

/// The options of the field `name` among `custom`: the last entry for the
/// field, or the default options where there is none.
pub open spec fn custom_for(custom: Seq<CustomSerializeFieldView>, name: Seq<char>) -> CustomSerializeFieldView
    decreases custom.len(),
{
    if custom.len() == 0 {
        default_field(name)
    } else if custom.last().field_name == name {
        custom.last()
    } else {
        custom_for(custom.drop_last(), name)
    }
}

/// The fields that stand for a record type before skipping. By default
/// they are the fields of the type in the order of declaration, each with
/// its custom options where it has some. With "custom headers only" they
/// are the custom entries themselves, in their own order.
pub open spec fn candidate_fields(
    names: Seq<Seq<char>>,
    options: SerializeFieldOptionsView,
) -> Seq<CustomSerializeFieldView> {
    if options.use_custom_headers_only {
        options.custom_headers
    } else {
        Seq::new(names.len(), |i: int| custom_for(options.custom_headers, names[i]))
    }
}

/// The fields of `fields` that are not skipped, in order.
pub open spec fn unskipped(fields: Seq<CustomSerializeFieldView>) -> Seq<CustomSerializeFieldView>
    decreases fields.len(),
{
    if fields.len() == 0 {
        Seq::empty()
    } else if fields.last().skip {
        unskipped(fields.drop_last())
    } else {
        unskipped(fields.drop_last()).push(fields.last())
    }
}

/// The fields that get a column, from left to right.
pub open spec fn selected_fields(names: Seq<Seq<char>>, options: SerializeFieldOptionsView) -> Seq<
    CustomSerializeFieldView,
> {
    unskipped(candidate_fields(names, options))
}

/// The row of the first value of a record type whose headers are
/// registered at `row`: the row below the headers, or `row` itself where
/// the headers are hidden.
pub open spec fn first_data_row(row: RowNum, hide_headers: bool) -> RowNum {
    if hide_headers || row == u32::MAX {
        row
    } else {
        (row + 1) as RowNum
    }
}

/// The selected fields with their places: the `i`-th field gets the `i`-th
/// column from `col` on, and the first data row.
pub open spec fn placed_fields(
    selected: Seq<CustomSerializeFieldView>,
    row: RowNum,
    col: ColNum,
    hide_headers: bool,
) -> Seq<CustomSerializeFieldView> {
    Seq::new(
        selected.len(),
        |i: int|
            CustomSerializeFieldView {
                row: first_data_row(row, hide_headers),
                col: (col + i) as ColNum,
                ..selected[i]
            },
    )
}

/// The table of `fields` by the name of the field; of two fields with one
/// name the later one stays.
pub open spec fn field_table(fields: Seq<CustomSerializeFieldView>) -> Map<
    Seq<char>,
    CustomSerializeFieldView,
>
    decreases fields.len(),
{
    if fields.len() == 0 {
        Map::empty()
    } else {
        field_table(fields.drop_last()).insert(fields.last().field_name, fields.last())
    }
}

/// The format of the header cell of a field: its own, or else that of the
/// record type.
pub open spec fn header_format_of(
    field: CustomSerializeFieldView,
    header_format: Option<FormatView>,
) -> Option<FormatView> {
    match field.header_format {
        Some(f) => Some(f),
        None => header_format,
    }
}

/// The worksheet after the header of one field is set up at `(row, col)`:
/// the column gets the width and the format of the field, where it has
/// them, and the header is written unless headers are hidden.
pub open spec fn with_header(
    view: WorksheetView,
    row: RowNum,
    col: ColNum,
    field: CustomSerializeFieldView,
    header_format: Option<FormatView>,
    hide_headers: bool,
) -> WorksheetView {
    let sized = match field.pixel_width {
        Some(width) => Worksheet::with_column_width(view, col, width),
        None => view,
    };
    let formatted = match field.column_format {
        Some(format) => Worksheet::with_column_format(sized, col, format),
        None => sized,
    };
    if hide_headers {
        formatted
    } else {
        Worksheet::with_string(
            formatted,
            row,
            col,
            field.header_name,
            header_format_of(field, header_format),
        )
    }
}

/// The worksheet after the headers of `fields` are set up from `(row, col)`
/// on, one column to the right for each field.
pub open spec fn with_headers(
    view: WorksheetView,
    row: RowNum,
    col: ColNum,
    fields: Seq<CustomSerializeFieldView>,
    header_format: Option<FormatView>,
    hide_headers: bool,
) -> WorksheetView
    decreases fields.len(),
{
    if fields.len() == 0 {
        view
    } else {
        with_header(
            with_headers(view, row, col, fields.drop_last(), header_format, hide_headers),
            row,
            (col + fields.len() - 1) as ColNum,
            fields.last(),
            header_format,
            hide_headers,
        )
    }
}

/// What the registration of headers is refused with, if it is refused: the
/// anchor or one of the columns lies outside the grid, or a header that is
/// to be written is too long for a cell.
pub open spec fn headers_error(
    row: RowNum,
    col: ColNum,
    selected: Seq<CustomSerializeFieldView>,
    hide_headers: bool,
) -> Option<XlsxError> {
    if row >= ROW_MAX || col >= COL_MAX || col + selected.len() > COL_MAX {
        Some(XlsxError::RowColumnLimitError)
    } else if !hide_headers && exists|i: int|
        0 <= i < selected.len() && (#[trigger] selected[i]).header_name.len() > MAX_STRING_LEN {
        Some(XlsxError::MaxStringLengthExceeded)
    } else {
        None
    }
}

/// Where no field is skipped, every field is selected.
pub proof fn lemma_unskipped_keeps_all(fields: Seq<CustomSerializeFieldView>)
    requires
        forall|i: int| 0 <= i < fields.len() ==> !(#[trigger] fields[i]).skip,
    ensures
        unskipped(fields) == fields,
    decreases fields.len(),
{
    if fields.len() == 0 {
        assert(unskipped(fields) =~= fields);
    } else {
        assert(!fields[fields.len() - 1].skip);
        assert forall|i: int| 0 <= i < fields.drop_last().len() implies !(
        #[trigger] fields.drop_last()[i]).skip by {
            assert(!fields[i].skip);
        }
        lemma_unskipped_keeps_all(fields.drop_last());
        assert(fields.drop_last().push(fields.last()) =~= fields);
    }
}

/// Without custom options the fields of a record type stand in the order of
/// their declaration, each under its own name: the `i`-th field of the type
/// is the `i`-th selected field, with default options.
pub proof fn lemma_default_selection(names: Seq<Seq<char>>)
    ensures
        selected_fields(names, default_field_options()) == Seq::new(
            names.len(),
            |i: int| default_field(names[i]),
        ),
{
    let candidates = candidate_fields(names, default_field_options());
    assert(candidates =~= Seq::new(names.len(), |i: int| default_field(names[i])));
    lemma_unskipped_keeps_all(candidates);
}

/// With "custom headers only", and no custom entry skipped, exactly the
/// custom entries are selected, in their own order, whatever fields the
/// record type declares.
pub proof fn lemma_custom_selection(names: Seq<Seq<char>>, options: SerializeFieldOptionsView)
    requires
        options.use_custom_headers_only,
        forall|i: int|
            0 <= i < options.custom_headers.len() ==> !(#[trigger] options.custom_headers[i]).skip,
    ensures
        selected_fields(names, options) == options.custom_headers,
{
    lemma_unskipped_keeps_all(options.custom_headers);
}

/// The selected fields get the columns from the anchor on, from left to
/// right, and all begin at the first data row.
pub proof fn lemma_placed_fields(
    selected: Seq<CustomSerializeFieldView>,
    row: RowNum,
    col: ColNum,
    hide_headers: bool,
    i: int,
)
    requires
        0 <= i < selected.len(),
    ensures
        placed_fields(selected, row, col, hide_headers)[i].field_name == selected[i].field_name,
        placed_fields(selected, row, col, hide_headers)[i].col == (col + i) as ColNum,
        placed_fields(selected, row, col, hide_headers)[i].row == first_data_row(
            row,
            hide_headers,
        ),
{
}

/// The table of fields holds a name exactly when one of the fields has
/// it.
pub proof fn lemma_field_table_names(fields: Seq<CustomSerializeFieldView>, name: Seq<char>)
    ensures
        field_table(fields).contains_key(name) <==> exists|i: int|
            0 <= i < fields.len() && (#[trigger] fields[i]).field_name == name,
    decreases fields.len(),
{
    if fields.len() > 0 {
        lemma_field_table_names(fields.drop_last(), name);
        if field_table(fields).contains_key(name) {
            if fields.last().field_name == name {
                assert(fields[fields.len() - 1].field_name == name);
            } else {
                let i = choose|i: int|
                    0 <= i < fields.drop_last().len() && (#[trigger] fields.drop_last()[i]).field_name
                        == name;
                assert(fields[i].field_name == name);
            }
        }
        if exists|i: int| 0 <= i < fields.len() && (#[trigger] fields[i]).field_name == name {
            let i = choose|i: int| 0 <= i < fields.len() && (#[trigger] fields[i]).field_name == name;
            if i < fields.len() - 1 {
                assert(fields.drop_last()[i].field_name == name);
            }
        }
    }
}

/// A field that is not selected has no place: after the registration of
/// the headers the record type does not hold it, so its values are
/// dropped.
pub proof fn lemma_unselected_field_has_no_place(
    fields: Map<(Seq<char>, Seq<char>), CustomSerializeFieldView>,
    struct_name: Seq<char>,
    selected: Seq<CustomSerializeFieldView>,
    row: RowNum,
    col: ColNum,
    hide_headers: bool,
    name: Seq<char>,
)
    requires
        forall|i: int| 0 <= i < selected.len() ==> (#[trigger] selected[i]).field_name != name,
    ensures
        !with_struct(
            fields,
            struct_name,
            field_table(placed_fields(selected, row, col, hide_headers)),
        ).contains_key((struct_name, name)),
{
    let placed = placed_fields(selected, row, col, hide_headers);
    lemma_field_table_names(placed, name);
    if field_table(placed).contains_key(name) {
        let i = choose|i: int| 0 <= i < placed.len() && (#[trigger] placed[i]).field_name == name;
        assert(selected[i].field_name == name);
    }
}

/// Setting up the header of one field changes no cell but the one at its
/// place.
pub proof fn lemma_header_keeps_other_cells(
    view: WorksheetView,
    row: RowNum,
    col: ColNum,
    field: CustomSerializeFieldView,
    header_format: Option<FormatView>,
    hide_headers: bool,
    key: (RowNum, ColNum),
)
    requires
        key != (row, col),
    ensures
        with_header(view, row, col, field, header_format, hide_headers).cells.contains_key(key)
            == view.cells.contains_key(key),
        view.cells.contains_key(key) ==> with_header(
            view,
            row,
            col,
            field,
            header_format,
            hide_headers,
        ).cells[key].value == view.cells[key].value,
{
}

/// The headers are written in the row of the anchor, from the column of
/// the anchor on: the cell of the `i`-th selected field holds the header of
/// that field.
pub proof fn lemma_headers_are_written(
    view: WorksheetView,
    row: RowNum,
    col: ColNum,
    fields: Seq<CustomSerializeFieldView>,
    header_format: Option<FormatView>,
    i: int,
)
    requires
        0 <= i < fields.len(),
        col + fields.len() <= COL_MAX,
        fields[i].header_name.len() > 0,
    ensures
        with_headers(view, row, col, fields, header_format, false).cells.contains_key(
            (row, (col + i) as ColNum),
        ),
        with_headers(view, row, col, fields, header_format, false).cells[(
            row,
            (col + i) as ColNum,
        )].value == CellValueView::String(fields[i].header_name),
    decreases fields.len(),
{
    let front = with_headers(view, row, col, fields.drop_last(), header_format, false);
    let last_col = (col + fields.len() - 1) as ColNum;
    if i < fields.len() - 1 {
        lemma_headers_are_written(view, row, col, fields.drop_last(), header_format, i);
        lemma_header_keeps_other_cells(
            front,
            row,
            last_col,
            fields.last(),
            header_format,
            false,
            (row, (col + i) as ColNum),
        );
    }
}

/// The values of a field fill consecutive rows: where a value has arrived
/// for a registered field, the next value of the field goes to the same
/// column, one row further down.
pub proof fn lemma_values_fill_consecutive_rows(
    before: Worksheet,
    after: Worksheet,
    result: Result<(), XlsxError>,
    value: CellValueView,
)
    requires
        value_arrived(before, after, result, value),
        before.serializer().fields().contains_key(before.serializer().current_key()),
        before.serializer().fields()[before.serializer().current_key()].row < u32::MAX,
    ensures
        after.serializer().fields().contains_key(after.serializer().current_key()),
        after.serializer().fields()[after.serializer().current_key()].col
            == before.serializer().fields()[before.serializer().current_key()].col,
        after.serializer().fields()[after.serializer().current_key()].row
            == before.serializer().fields()[before.serializer().current_key()].row + 1,
{
}

/// The options of the field `name` among `custom`.
pub fn find_custom(custom: &Vec<CustomSerializeField>, name: &str) -> (field: CustomSerializeField)
    ensures
        field@ == custom_for(fields_view(custom@), name@),
{
    let ghost all = fields_view(custom@);
    let mut i: usize = custom.len();
    proof {
        assert(all.take(i as int) =~= all);
    }
    while i > 0
        invariant
            i <= custom.len(),
            all == fields_view(custom@),
            custom_for(all, name@) == custom_for(all.take(i as int), name@),
        decreases i,
    {
        i -= 1;
        proof {
            assert(all.take(i + 1).drop_last() =~= all.take(i as int));
            assert(all.take(i + 1).last() == custom@[i as int]@);
        }
        if str_equal(custom[i].field_name.as_str(), name) {
            return custom[i].duplicate();
        }
    }
    CustomSerializeField::new(name)
}

/// The fields that get a column, from left to right.
pub fn select_fields(header: &SerializerHeader, options: &SerializeFieldOptions) -> (selected: Vec<
    CustomSerializeField,
>)
    ensures
        fields_view(selected@) == selected_fields(names_view(header.field_names@), options@),
{
    let ghost names = names_view(header.field_names@);
    let ghost candidates = candidate_fields(names, options@);
    let mut selected: Vec<CustomSerializeField> = Vec::new();
    proof {
        assert(candidates.take(0) =~= Seq::<CustomSerializeFieldView>::empty());
        assert(fields_view(selected@) =~= unskipped(candidates.take(0)));
    }
    if options.use_custom_headers_only {
        let mut i: usize = 0;
        while i < options.custom_headers.len()
            invariant
                i <= options.custom_headers.len(),
                candidates == fields_view(options.custom_headers@),
                fields_view(selected@) == unskipped(candidates.take(i as int)),
            decreases options.custom_headers.len() - i,
        {
            let ghost before = fields_view(selected@);
            proof {
                assert(candidates.take(i + 1).drop_last() =~= candidates.take(i as int));
                assert(candidates.take(i + 1).last() == options.custom_headers@[i as int]@);
            }
            if !options.custom_headers[i].skip {
                selected.push(options.custom_headers[i].duplicate());
                proof {
                    assert(fields_view(selected@) =~= before.push(
                        options.custom_headers@[i as int]@,
                    ));
                }
            }
            i += 1;
        }
        proof {
            assert(candidates.take(candidates.len() as int) =~= candidates);
        }
    } else {
        let mut i: usize = 0;
        while i < header.field_names.len()
            invariant
                i <= header.field_names.len(),
                names == names_view(header.field_names@),
                candidates == Seq::new(
                    names.len(),
                    |k: int| custom_for(fields_view(options.custom_headers@), names[k]),
                ),
                fields_view(selected@) == unskipped(candidates.take(i as int)),
            decreases header.field_names.len() - i,
        {
            let ghost before = fields_view(selected@);
            let field = find_custom(&options.custom_headers, header.field_names[i].as_str());
            proof {
                assert(candidates.take(i + 1).drop_last() =~= candidates.take(i as int));
                assert(candidates.take(i + 1).last() == field@);
            }
            if !field.skip {
                let ghost added = field@;
                selected.push(field);
                proof {
                    assert(fields_view(selected@) =~= before.push(added));
                }
            }
            i += 1;
        }
        proof {
            assert(candidates.take(candidates.len() as int) =~= candidates);
        }
    }
    selected
}

/// What the arrival of a value for the current field does to a worksheet.
///
/// Where the current record type and field are registered, the value is
/// written at the column and the next row of the field, in the value format
/// of the field if it has one, and the next row of the field moves down by
/// one, whether or not the write succeeds. The write fails, and leaves the
/// cells as they were, where the place lies outside the grid or the value
/// is a text too long for a cell. Where the record type or the field is not
/// registered, the value is dropped and nothing changes.
pub open spec fn value_arrived(
    before: Worksheet,
    after: Worksheet,
    result: Result<(), XlsxError>,
    value: CellValueView,
) -> bool {
    let key = before.serializer().current_key();
    let fields = before.serializer().fields();
    &&& after.serializer().current_key() == key
    &&& if fields.contains_key(key) {
        let field = fields[key];
        &&& after.serializer().fields() == fields.insert(
            key,
            CustomSerializeFieldView { row: next_row(field.row), ..field },
        )
        &&& match value_error(field.row, field.col, value) {
            Some(e) => result == Err::<(), XlsxError>(e) && after@ == before@,
            None => result is Ok && after@ == with_value(
                before@,
                field.row,
                field.col,
                value,
                field.value_format,
            ),
        }
    } else {
        &&& result is Ok
        &&& after@ == before@
        &&& after.serializer().fields() == fields
    }
}

/// What the write of `value` at `(row, col)` is refused with, if it is
/// refused.
pub open spec fn value_error(row: RowNum, col: ColNum, value: CellValueView) -> Option<XlsxError> {
    match value {
        CellValueView::String(s) => Worksheet::string_error(row, col, s),
        _ => if Worksheet::in_grid(row, col) {
            None
        } else {
            Some(XlsxError::RowColumnLimitError)
        },
    }
}

/// The worksheet after `value` is written at `(row, col)`; for a text see
/// `Worksheet::with_string`.
pub open spec fn with_value(
    view: WorksheetView,
    row: RowNum,
    col: ColNum,
    value: CellValueView,
    format: Option<FormatView>,
) -> WorksheetView {
    match value {
        CellValueView::String(s) => Worksheet::with_string(view, row, col, s, format),
        _ => Worksheet::with_cell(view, row, col, value, format),
    }
}

/// An optional format by reference.
fn format_option_ref(format: &Option<Format>) -> (r: Option<&Format>)
    ensures
        crate::worksheet::format_ref_view(r) == format_option_view(*format),
{
    match format {
        Some(f) => Some(f),
        None => None,
    }
}

impl Worksheet {
    /// Registers the headers of a record type at the anchor `(row, col)`
    /// with default options: every field of the type gets a column, in the
    /// order of declaration, and its name is written as its header.
    pub fn serialize_headers(&mut self, row: RowNum, col: ColNum, header: &SerializerHeader) -> (result:
        Result<(), XlsxError>)
        requires
            old(self).wf(),
        ensures
            final(self).wf(),
            headers_registered(
                *old(self),
                *final(self),
                result,
                row,
                col,
                header.struct_name@,
                names_view(header.field_names@),
                default_field_options(),
            ),
    {
        let options = SerializeFieldOptions::new();
        self.serialize_headers_with_options(row, col, header, &options)
    }

    /// Registers the headers of a record type at the anchor `(row, col)`
    /// and writes them in the format `format`.
    pub fn serialize_headers_with_format(
        &mut self,
        row: RowNum,
        col: ColNum,
        header: &SerializerHeader,
        format: &Format,
    ) -> (result: Result<(), XlsxError>)
        requires
            old(self).wf(),
        ensures
            final(self).wf(),
            headers_registered(
                *old(self),
                *final(self),
                result,
                row,
                col,
                header.struct_name@,
                names_view(header.field_names@),
                SerializeFieldOptionsView { header_format: Some(format@), ..default_field_options() },
            ),
    {
        let options = SerializeFieldOptions::new().set_header_format(format);
        self.serialize_headers_with_options(row, col, header, &options)
    }

    /// Registers the headers of a record type at the anchor `(row, col)`
    /// with the options `options`.
    ///
    /// The selected fields get the columns from `col` on, from left to
    /// right. Each column gets the width and the format of its field, each
    /// header is written in row `row` unless headers are hidden, and the
    /// values of each field will go below, from the first data row on.
    /// Fields that were registered for the same record type before are
    /// forgotten.
    ///
    /// Fails, and changes nothing, where `headers_error` names an error.
    #[verifier::loop_isolation(false)]
    pub fn serialize_headers_with_options(
        &mut self,
        row: RowNum,
        col: ColNum,
        header: &SerializerHeader,
        options: &SerializeFieldOptions,
    ) -> (result: Result<(), XlsxError>)
        requires
            old(self).wf(),
        ensures
            final(self).wf(),
            headers_registered(
                *old(self),
                *final(self),
                result,
                row,
                col,
                header.struct_name@,
                names_view(header.field_names@),
                options@,
            ),
    {
        let selected = select_fields(header, options);
        let ghost chosen = fields_view(selected@);
        let hide = options.hide_headers;
        let ghost header_format = options@.header_format;
        let ghost placed = placed_fields(chosen, row, col, hide);
        let count = selected.len();

        if row >= ROW_MAX || col >= COL_MAX || count > (COL_MAX - col) as usize {
            return Err(XlsxError::RowColumnLimitError);
        }
        if !hide {
            let mut i: usize = 0;
            while i < count
                invariant
                    i <= count,
                    forall|j: int| 0 <= j < i ==> (#[trigger] chosen[j]).header_name.len()
                        <= MAX_STRING_LEN,
                decreases count - i,
            {
                if selected[i].header_name.as_str().unicode_len() > MAX_STRING_LEN {
                    proof {
                        assert(chosen[i as int].header_name.len() > MAX_STRING_LEN);
                    }
                    return Err(XlsxError::MaxStringLengthExceeded);
                }
                i += 1;
            }
        }
        proof {
            self.lemma_serializer_wf();
        }

        let data_row = if hide {
            row
        } else {
            row + 1
        };
        let mut table: StringMap<CustomSerializeField> = StringMap::new();
        let mut i: usize = 0;
        proof {
            assert(chosen.take(0) =~= Seq::<CustomSerializeFieldView>::empty());
            assert(placed.take(0) =~= Seq::<CustomSerializeFieldView>::empty());
            assert(table_view(table@) =~= field_table(placed.take(0)));
        }
        while i < count
            invariant
                i <= count,
                self.wf(),
                self.serializer() == old(self).serializer(),
                self@ == with_headers(old(self)@, row, col, chosen.take(i as int), header_format, hide),
                table.wf(),
                table_view(table@) == field_table(placed.take(i as int)),
            decreases count - i,
        {
            let column: ColNum = col + i as u16;
            let mut field = selected[i].duplicate();
            let ghost before = self@;
            proof {
                assert(chosen.take(i + 1).drop_last() =~= chosen.take(i as int));
                assert(chosen.take(i + 1).last() == chosen[i as int]);
                assert(placed.take(i + 1).drop_last() =~= placed.take(i as int));
                assert(placed.take(i + 1).last() == placed[i as int]);
            }
            match field.pixel_width {
                Some(width) => {
                    let _ = self.set_column_width_pixels(column, width);
                },
                None => {},
            }
            match &field.column_format {
                Some(format) => {
                    let _ = self.set_column_format(column, format);
                },
                None => {},
            }
            if !hide {
                let format = match &field.header_format {
                    Some(f) => Some(f),
                    None => format_option_ref(&options.header_format),
                };
                let _ = self.store_string(row, column, field.header_name.as_str(), format);
            }
            proof {
                assert(self@ == with_header(before, row, column, chosen[i as int], header_format, hide));
            }
            field.row = data_row;
            field.col = column;
            let ghost table_before = table@;
            let ghost stored = field;
            table.insert(field.field_name.clone(), field);
            proof {
                assert(stored@ == placed[i as int]);
                assert(table_view(table@) =~= table_view(table_before).insert(
                    stored@.field_name,
                    stored@,
                ));
            }
            i += 1;
        }
        proof {
            assert(chosen.take(count as int) =~= chosen);
            assert(placed.take(count as int) =~= placed);
        }
        self.register_serializer_struct(header.struct_name.as_str(), table);
        Ok(())
    }

    /// Writes `value` at the place of the next value of the current field.
    pub fn serialize_to_worksheet_cell(&mut self, value: CellValue) -> (result: Result<
        (),
        XlsxError,
    >)
        requires
            old(self).wf(),
            value.wf(),
            !(value is String),
        ensures
            final(self).wf(),
            value_arrived(*old(self), *final(self), result, value@),
    {
        let Ok((row, col, value_format)) = self.serializer_current_state() else {
            return Ok(());
        };
        self.store_cell(row, col, value, format_option_ref(&value_format))
    }

    /// Takes a truth value for the current field.
    pub fn serialize_bool(&mut self, data: bool) -> (result: Result<(), XlsxError>)
        requires
            old(self).wf(),
        ensures
            final(self).wf(),
            value_arrived(*old(self), *final(self), result, CellValueView::Boolean(data)),
    {
        self.serialize_to_worksheet_cell(CellValue::Boolean(data))
    }

    /// Takes a number for the current field.
    pub fn serialize_number(&mut self, data: Number) -> (result: Result<(), XlsxError>)
        requires
            old(self).wf(),
            data.wf(),
        ensures
            final(self).wf(),
            value_arrived(*old(self), *final(self), result, CellValueView::Number(data@)),
    {
        self.serialize_to_worksheet_cell(CellValue::Number(data))
    }

    /// Takes an integer for the current field.
    pub fn serialize_i8(&mut self, data: i8) -> (result: Result<(), XlsxError>)
        requires
            old(self).wf(),
        ensures
            final(self).wf(),
            value_arrived(
                *old(self),
                *final(self),
                result,
                CellValueView::Number(integer_text(data as int)),
            ),
    {
        self.serialize_number(Number::from_i64(data as i64))
    }

    /// Takes an integer for the current field.
    pub fn serialize_u8(&mut self, data: u8) -> (result: Result<(), XlsxError>)
        requires
            old(self).wf(),
        ensures
            final(self).wf(),
            value_arrived(
                *old(self),
                *final(self),
                result,
                CellValueView::Number(integer_text(data as int)),
            ),
    {
        self.serialize_number(Number::from_u64(data as u64))
    }

    /// Takes an integer for the current field.
    pub fn serialize_i16(&mut self, data: i16) -> (result: Result<(), XlsxError>)
        requires
            old(self).wf(),
        ensures
            final(self).wf(),
            value_arrived(
                *old(self),
                *final(self),
                result,
                CellValueView::Number(integer_text(data as int)),
            ),
    {
        self.serialize_number(Number::from_i64(data as i64))
    }

    /// Takes an integer for the current field.
    pub fn serialize_u16(&mut self, data: u16) -> (result: Result<(), XlsxError>)
        requires
            old(self).wf(),
        ensures
            final(self).wf(),
            value_arrived(
                *old(self),
                *final(self),
                result,
                CellValueView::Number(integer_text(data as int)),
            ),
    {
        self.serialize_number(Number::from_u64(data as u64))
    }

    /// Takes an integer for the current field.
    pub fn serialize_i32(&mut self, data: i32) -> (result: Result<(), XlsxError>)
        requires
            old(self).wf(),
        ensures
            final(self).wf(),
            value_arrived(
                *old(self),
                *final(self),
                result,
                CellValueView::Number(integer_text(data as int)),
            ),
    {
        self.serialize_number(Number::from_i64(data as i64))
    }

    /// Takes an integer for the current field.
    pub fn serialize_u32(&mut self, data: u32) -> (result: Result<(), XlsxError>)
        requires
            old(self).wf(),
        ensures
            final(self).wf(),
            value_arrived(
                *old(self),
                *final(self),
                result,
                CellValueView::Number(integer_text(data as int)),
            ),
    {
        self.serialize_number(Number::from_u64(data as u64))
    }

    /// Takes an integer for the current field.
    pub fn serialize_i64(&mut self, data: i64) -> (result: Result<(), XlsxError>)
        requires
            old(self).wf(),
        ensures
            final(self).wf(),
            value_arrived(
                *old(self),
                *final(self),
                result,
                CellValueView::Number(integer_text(data as int)),
            ),
    {
        self.serialize_number(Number::from_i64(data))
    }

    /// Takes an integer for the current field.
    pub fn serialize_u64(&mut self, data: u64) -> (result: Result<(), XlsxError>)
        requires
            old(self).wf(),
        ensures
            final(self).wf(),
            value_arrived(
                *old(self),
                *final(self),
                result,
                CellValueView::Number(integer_text(data as int)),
            ),
    {
        self.serialize_number(Number::from_u64(data))
    }

    /// Takes a text for the current field.
    pub fn serialize_str(&mut self, data: &str) -> (result: Result<(), XlsxError>)
        requires
            old(self).wf(),
        ensures
            final(self).wf(),
            value_arrived(*old(self), *final(self), result, CellValueView::String(data@)),
    {
        let Ok((row, col, value_format)) = self.serializer_current_state() else {
            return Ok(());
        };
        self.store_string(row, col, data, format_option_ref(&value_format))
    }

    /// Takes a character for the current field, as a text of one character.
    pub fn serialize_char(&mut self, data: char) -> (result: Result<(), XlsxError>)
        requires
            old(self).wf(),
        ensures
            final(self).wf(),
            value_arrived(*old(self), *final(self), result, CellValueView::String(seq![data])),
    {
        let mut text = String::new();
        push_char(&mut text, data);
        proof {
            assert(text@ =~= seq![data]);
        }
        self.serialize_str(text.as_str())
    }

    /// Takes bytes for the current field. Bytes have no place in a
    /// worksheet: nothing is written.
    pub fn serialize_bytes(&mut self, data: &[u8]) -> (result: Result<(), XlsxError>)
        requires
            old(self).wf(),
        ensures
            final(self).wf(),
            result is Ok,
            *final(self) == *old(self),
    {
        Ok(())
    }

    /// Takes an absent value for the current field, as an empty text: the
    /// cell becomes a blank cell where the field has a value format, and is
    /// left alone else.
    pub fn serialize_none(&mut self) -> (result: Result<(), XlsxError>)
        requires
            old(self).wf(),
        ensures
            final(self).wf(),
            value_arrived(
                *old(self),
                *final(self),
                result,
                CellValueView::String(Seq::<char>::empty()),
            ),
    {
        let result = self.serialize_str("");
        proof {
            reveal_strlit("");
            assert(""@ =~= Seq::<char>::empty());
        }
        result
    }

    /// Takes the unit value for the current field, as an absent value.
    pub fn serialize_unit(&mut self) -> (result: Result<(), XlsxError>)
        requires
            old(self).wf(),
        ensures
            final(self).wf(),
            value_arrived(
                *old(self),
                *final(self),
                result,
                CellValueView::String(Seq::<char>::empty()),
            ),
    {
        self.serialize_none()
    }

    /// Takes a value of a type without fields for the current field, as an
    /// absent value.
    pub fn serialize_unit_struct(&mut self, name: &str) -> (result: Result<(), XlsxError>)
        requires
            old(self).wf(),
        ensures
            final(self).wf(),
            value_arrived(
                *old(self),
                *final(self),
                result,
                CellValueView::String(Seq::<char>::empty()),
            ),
    {
        self.serialize_none()
    }

    /// Takes a variant without content for the current field. Nothing is
    /// written.
    pub fn serialize_unit_variant(&mut self, name: &str, variant_index: u32, variant: &str) -> (result:
        Result<(), XlsxError>)
        requires
            old(self).wf(),
        ensures
            final(self).wf(),
            result is Ok,
            *final(self) == *old(self),
    {
        Ok(())
    }

    /// Begins a record of the type `name`: its fields arrive next.
    pub fn serialize_struct(&mut self, name: &str, len: usize) -> (result: Result<(), XlsxError>)
        requires
            old(self).wf(),
        ensures
            final(self).wf(),
            result is Ok,
            final(self)@ == old(self)@,
            final(self).serializer().fields() == old(self).serializer().fields(),
            final(self).serializer().current_struct_name() == name@,
            final(self).serializer().current_field_name() == old(
                self,
            ).serializer().current_field_name(),
    {
        self.set_serializer_struct(name);
        Ok(())
    }

    /// Begins the field `key` of the current record: its value arrives
    /// next, or its values where the field holds a sequence.
    pub fn serialize_field(&mut self, key: &str) -> (result: Result<(), XlsxError>)
        requires
            old(self).wf(),
        ensures
            final(self).wf(),
            result is Ok,
            final(self)@ == old(self)@,
            final(self).serializer().fields() == old(self).serializer().fields(),
            final(self).serializer().current_struct_name() == old(
                self,
            ).serializer().current_struct_name(),
            final(self).serializer().current_field_name() == key@,
    {
        self.set_serializer_field(key);
        Ok(())
    }

    /// Begins a variant that holds a tuple: the name of the variant is
    /// taken as a text for the current field.
    pub fn serialize_tuple_variant(&mut self, variant: &str) -> (result: Result<(), XlsxError>)
        requires
            old(self).wf(),
        ensures
            final(self).wf(),
            value_arrived(*old(self), *final(self), result, CellValueView::String(variant@)),
    {
        self.serialize_str(variant)
    }

    /// Begins a variant that holds fields: the name of the variant is taken
    /// as a text for the current field.
    pub fn serialize_struct_variant(&mut self, variant: &str) -> (result: Result<(), XlsxError>)
        requires
            old(self).wf(),
        ensures
            final(self).wf(),
            value_arrived(*old(self), *final(self), result, CellValueView::String(variant@)),
    {
        self.serialize_str(variant)
    }
}

/// What the registration of the headers of a record type does to a
/// worksheet; see `Worksheet::serialize_headers_with_options`.
pub open spec fn headers_registered(
    before: Worksheet,
    after: Worksheet,
    result: Result<(), XlsxError>,
    row: RowNum,
    col: ColNum,
    struct_name: Seq<char>,
    field_names: Seq<Seq<char>>,
    options: SerializeFieldOptionsView,
) -> bool {
    let selected = selected_fields(field_names, options);
    &&& after.serializer().current_key() == before.serializer().current_key()
    &&& match headers_error(row, col, selected, options.hide_headers) {
        Some(e) => {
            &&& result == Err::<(), XlsxError>(e)
            &&& after@ == before@
            &&& after.serializer().fields() == before.serializer().fields()
        },
        None => {
            &&& result is Ok
            &&& after@ == with_headers(
                before@,
                row,
                col,
                selected,
                options.header_format,
                options.hide_headers,
            )
            &&& after.serializer().fields() == with_struct(
                before.serializer().fields(),
                struct_name,
                field_table(placed_fields(selected, row, col, options.hide_headers)),
            )
        },
    }
}

} // verus!
