//! The table parts of a package: each table of a worksheet written out as
//! XML.

use vstd::prelude::*;
use vstd::string::*;
use crate::styles::{count_attributes, counted_table_text};
use crate::utility::{
    decimal_text, lemma_append_2, lemma_append_3, push_decimal, push_range_ref, range_ref_text,
};
use crate::worksheet::{PlacedTable, PlacedTableView};
use crate::worksheet_xml::optional_attributes;
use crate::xmlwriter::{
    attributes_view, declaration_text, empty_tag_text, end_tag_text, start_tag_text, Attribute,
    XMLWriter,
};

verus! {

/// The name of the `number`-th table of a package, counted from one.
pub open spec fn table_name_text(number: nat) -> Seq<char> {
    "Table"@ + decimal_text(number)
}

/// The name of the part of the `number`-th table of a package.
pub open spec fn table_part_name_text(number: nat) -> Seq<char> {
    "xl/tables/table"@ + decimal_text(number) + ".xml"@
}

/// The name of the part of the `number`-th table of a package as a
/// worksheet refers to it.
pub open spec fn table_target_text(number: nat) -> Seq<char> {
    "../tables/table"@ + decimal_text(number) + ".xml"@
}

/// The name of the part of the `number`-th table of a package.
pub fn table_part_name(number: u128) -> (name: String)
    ensures
        name@ == table_part_name_text(number as nat),
{
    let mut name = "xl/tables/table".to_owned();
    push_decimal(&mut name, number);
    name.append(".xml");
    name
}

/// The name of the part of the `number`-th table of a package as a
/// worksheet refers to it.
pub fn table_target(number: u128) -> (name: String)
    ensures
        name@ == table_target_text(number as nat),
{
    let mut name = "../tables/table".to_owned();
    push_decimal(&mut name, number);
    name.append(".xml");
    name
}

/// The range of a table as the table part names it.
pub open spec fn table_ref_text(table: PlacedTableView) -> Seq<char> {
    range_ref_text(
        table.range.first_row as nat,
        table.range.first_col as nat,
        table.range.last_row as nat,
        table.range.last_col as nat,
    )
}

/// The attributes of the root element of the `number`-th table: its
/// number, its name, its range, and whether it has a row of headers.
pub open spec fn table_attributes(table: PlacedTableView, number: nat) -> Seq<
    (Seq<char>, Seq<char>),
> {
    seq![
        ("xmlns"@, "http://schemas.openxmlformats.org/spreadsheetml/2006/main"@),
        ("id"@, decimal_text(number)),
        ("name"@, table_name_text(number)),
        ("displayName"@, table_name_text(number)),
        ("ref"@, table_ref_text(table)),
    ] + optional_attributes(!table.header_row, seq![("headerRowCount"@, "0"@)]) + seq![
        ("totalsRowShown"@, "0"@),
    ]
}

/// The element for the filter of the headers; nothing where the table has
/// no row of headers or no filter.
pub open spec fn table_filter_text(table: PlacedTableView) -> Seq<char> {
    if table.header_row && table.autofilter {
        empty_tag_text("autoFilter"@, seq![("ref"@, table_ref_text(table))])
    } else {
        Seq::<char>::empty()
    }
}

/// The elements of the first `count` columns `columns`, in order.
pub open spec fn table_column_items_text(columns: Seq<Seq<char>>, count: int) -> Seq<char>
    decreases count,
{
    if count <= 0 {
        Seq::<char>::empty()
    } else {
        table_column_items_text(columns, count - 1) + empty_tag_text(
            "tableColumn"@,
            seq![("id"@, decimal_text(count as nat)), ("name"@, columns[count - 1])],
        )
    }
}

/// The element for the style of a table: its name, and rows shown in
/// bands.
pub open spec fn table_style_text(style: Seq<char>) -> Seq<char> {
    empty_tag_text(
        "tableStyleInfo"@,
        seq![
            ("name"@, style),
            ("showFirstColumn"@, "0"@),
            ("showLastColumn"@, "0"@),
            ("showRowStripes"@, "1"@),
            ("showColumnStripes"@, "0"@),
        ],
    )
}

/// The part of the `number`-th table of a package.
#[verifier::opaque]
pub open spec fn table_xml_text(table: PlacedTableView, number: nat) -> Seq<char> {
    Seq::<char>::empty() + declaration_text() + start_tag_text(
        "table"@,
        table_attributes(table, number),
    ) + table_filter_text(table) + counted_table_text(
        "tableColumns"@,
        table.columns.len(),
        table_column_items_text(table.columns, table.columns.len() as int),
    ) + table_style_text(table.style) + end_tag_text("table"@)
}

/// The range of a table as the table part names it.
fn table_ref(table: &PlacedTable) -> (text: String)
    ensures
        text@ == table_ref_text(table@),
{
    let mut text = String::new();
    push_range_ref(
        &mut text,
        table.range.first_row,
        table.range.first_col,
        table.range.last_row,
        table.range.last_col,
    );
    proof {
        assert(text@ =~= table_ref_text(table@));
    }
    text
}

/// A number as a string.
fn number_string(number: u128) -> (text: String)
    ensures
        text@ == decimal_text(number as nat),
{
    let mut text = String::new();
    push_decimal(&mut text, number);
    proof {
        assert(text@ =~= decimal_text(number as nat));
    }
    text
}

/// The attributes of the root element of a table.
fn table_attributes_of(table: &PlacedTable, number: u128) -> (attributes: Vec<Attribute<'static>>)
    ensures
        attributes_view(attributes@) == table_attributes(table@, number as nat),
{
    let mut name = "Table".to_owned();
    push_decimal(&mut name, number);
    let mut attributes: Vec<Attribute<'static>> = Vec::new();
    attributes.push(
        ("xmlns", "http://schemas.openxmlformats.org/spreadsheetml/2006/main".to_owned()),
    );
    attributes.push(("id", number_string(number)));
    attributes.push(("name", name.clone()));
    attributes.push(("displayName", name));
    attributes.push(("ref", table_ref(table)));
    let ghost mut expected = seq![
        ("xmlns"@, "http://schemas.openxmlformats.org/spreadsheetml/2006/main"@),
        ("id"@, decimal_text(number as nat)),
        ("name"@, table_name_text(number as nat)),
        ("displayName"@, table_name_text(number as nat)),
        ("ref"@, table_ref_text(table@)),
    ];
    proof {
        assert(attributes_view(attributes@) =~= expected);
    }
    if !table.header_row {
        attributes.push(("headerRowCount", "0".to_owned()));
        proof {
            expected = expected + seq![("headerRowCount"@, "0"@)];
            assert(attributes_view(attributes@) =~= expected);
        }
    }
    attributes.push(("totalsRowShown", "0".to_owned()));
    proof {
        expected = expected + seq![("totalsRowShown"@, "0"@)];
        assert(attributes_view(attributes@) =~= expected);
        assert(expected =~= table_attributes(table@, number as nat));
    }
    attributes
}

/// Writes the element for the columns of a table.
fn write_table_columns(writer: &mut XMLWriter, table: &PlacedTable)
    ensures
        final(writer)@ == old(writer)@ + counted_table_text(
            "tableColumns"@,
            table@.columns.len(),
            table_column_items_text(table@.columns, table@.columns.len() as int),
        ),
{
    let ghost columns = table@.columns;
    let count = table.columns.len();
    let attributes: Vec<Attribute> = vec![("count", number_string(count as u128))];
    proof {
        assert(attributes_view(attributes@) =~= count_attributes(count as nat));
    }
    writer.xml_start_tag("tableColumns", &attributes);
    let ghost inner = writer@;
    let mut i: usize = 0;
    proof {
        assert(writer@ =~= inner + table_column_items_text(columns, 0));
    }
    while i < count
        invariant
            i <= count,
            count == columns.len(),
            columns == table@.columns,
            writer@ == inner + table_column_items_text(columns, i as int),
        decreases count - i,
    {
        let attributes: Vec<Attribute> = vec![
            ("id", number_string(i as u128 + 1)),
            ("name", table.columns[i].clone()),
        ];
        proof {
            assert(attributes_view(attributes@) =~= seq![
                ("id"@, decimal_text((i + 1) as nat)),
                ("name"@, columns[i as int]),
            ]);
        }
        writer.xml_empty_tag("tableColumn", &attributes);
        proof {
            lemma_append_2(
                inner,
                table_column_items_text(columns, i as int),
                empty_tag_text(
                    "tableColumn"@,
                    seq![("id"@, decimal_text((i + 1) as nat)), ("name"@, columns[i as int])],
                ),
            );
        }
        i += 1;
    }
    writer.xml_end_tag("tableColumns");
    proof {
        lemma_append_3(
            old(writer)@,
            start_tag_text("tableColumns"@, count_attributes(count as nat)),
            table_column_items_text(columns, count as int),
            end_tag_text("tableColumns"@),
        );
    }
}

/// Writes the element for the style of a table.
fn write_table_style(writer: &mut XMLWriter, table: &PlacedTable)
    ensures
        final(writer)@ == old(writer)@ + table_style_text(table@.style),
{
    let attributes: Vec<Attribute> = vec![
        ("name", table.style.clone()),
        ("showFirstColumn", "0".to_owned()),
        ("showLastColumn", "0".to_owned()),
        ("showRowStripes", "1".to_owned()),
        ("showColumnStripes", "0".to_owned()),
    ];
    proof {
        assert(attributes_view(attributes@) =~= seq![
            ("name"@, table@.style),
            ("showFirstColumn"@, "0"@),
            ("showLastColumn"@, "0"@),
            ("showRowStripes"@, "1"@),
            ("showColumnStripes"@, "0"@),
        ]);
    }
    writer.xml_empty_tag("tableStyleInfo", &attributes);
}

/// The part of the table, which is the `number`-th table of the package.
pub fn assemble_table(table: &PlacedTable, number: u128) -> (text: String)
    ensures
        text@ == table_xml_text(table@, number as nat),
{
    proof {
        reveal(table_xml_text);
    }
    let mut writer = XMLWriter::new();
    writer.xml_declaration();
    let attributes = table_attributes_of(table, number);
    writer.xml_start_tag("table", &attributes);
    let ghost before_filter = writer@;
    if table.header_row && table.autofilter {
        let attributes: Vec<Attribute> = vec![("ref", table_ref(table))];
        proof {
            assert(attributes_view(attributes@) =~= seq![("ref"@, table_ref_text(table@))]);
        }
        writer.xml_empty_tag("autoFilter", &attributes);
    }
    proof {
        assert(writer@ =~= before_filter + table_filter_text(table@));
    }
    write_table_columns(&mut writer, table);
    write_table_style(&mut writer, table);
    writer.xml_end_tag("table");
    writer.read_to_string()
}

} // verus!
