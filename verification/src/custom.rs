//! The custom-properties part of a package, `docProps/custom.xml`: the
//! properties of a document's own making.

use vstd::prelude::*;
use vstd::string::*;
use crate::number::{integer_text, Number};
use crate::properties::{
    custom_properties_view, CustomProperty, CustomPropertyView, DocProperties, PropertyValue,
    PropertyValueView,
};
use crate::utility::{decimal_string_of_sum, decimal_text, lemma_append_2, lemma_append_3};
use crate::xmlwriter::{
    attributes_view, data_element_text, declaration_text, end_tag_text, start_tag_text, Attribute,
    XMLWriter,
};

verus! {

/// The element of the value of a property: a text, a date and time, a whole
/// number, a number, or a truth value.
pub open spec fn property_value_text(value: PropertyValueView) -> Seq<char> {
    match value {
        PropertyValueView::Text(text) => data_element_text("vt:lpwstr"@, text, Seq::empty()),
        PropertyValueView::DateTime(date) => data_element_text(
            "vt:filetime"@,
            date.iso_text(),
            Seq::empty(),
        ),
        PropertyValueView::Integer(n) => data_element_text(
            "vt:i4"@,
            integer_text(n as int),
            Seq::empty(),
        ),
        PropertyValueView::Real(numeral) => data_element_text("vt:r8"@, numeral, Seq::empty()),
        PropertyValueView::Bool(truth) => data_element_text("vt:bool"@, if truth {
            "true"@
        } else {
            "false"@
        }, Seq::empty()),
    }
}

/// The attributes of the element of the `number`-th property, counted from
/// one: the identifier of the set of properties, the identifier of the
/// property, which begins at two, and the name.
pub open spec fn property_attributes(number: nat, name: Seq<char>) -> Seq<(Seq<char>, Seq<char>)> {
    seq![
        ("fmtid"@, "{D5CDD505-2E9C-101B-9397-08002B2CF9AE}"@),
        ("pid"@, decimal_text(number + 1)),
        ("name"@, name),
    ]
}

/// The element of the `number`-th property.
pub open spec fn property_text(property: CustomPropertyView, number: nat) -> Seq<char> {
    start_tag_text("property"@, property_attributes(number, property.name)) + property_value_text(
        property.value,
    ) + end_tag_text("property"@)
}

/// The elements of the properties `properties`, in order.
pub open spec fn property_items_text(properties: Seq<CustomPropertyView>) -> Seq<char>
    decreases properties.len(),
{
    if properties.len() == 0 {
        Seq::<char>::empty()
    } else {
        property_items_text(properties.drop_last()) + property_text(
            properties.last(),
            properties.len(),
        )
    }
}

/// The namespaces that the root element declares.
pub open spec fn custom_namespaces() -> Seq<(Seq<char>, Seq<char>)> {
    seq![
        ("xmlns"@, "http://schemas.openxmlformats.org/officeDocument/2006/custom-properties"@),
        ("xmlns:vt"@, "http://schemas.openxmlformats.org/officeDocument/2006/docPropsVTypes"@),
    ]
}

/// The custom-properties part for the properties `properties`.
#[verifier::opaque]
pub open spec fn custom_xml_text(properties: Seq<CustomPropertyView>) -> Seq<char> {
    Seq::<char>::empty() + declaration_text() + start_tag_text("Properties"@, custom_namespaces())
        + property_items_text(properties) + end_tag_text("Properties"@)
}

/// Writes the element of the value of a property.
fn write_property_value(writer: &mut XMLWriter, value: &PropertyValue)
    ensures
        final(writer)@ == old(writer)@ + property_value_text(value@),
{
    match value {
        PropertyValue::Text(text) => {
            writer.xml_data_element_only("vt:lpwstr", text.as_str());
        },
        PropertyValue::DateTime(date) => {
            let text = date.to_iso_string();
            writer.xml_data_element_only("vt:filetime", text.as_str());
        },
        PropertyValue::Integer(n) => {
            let number = Number::from_i64(*n as i64);
            writer.xml_data_element_only("vt:i4", number.as_str());
        },
        PropertyValue::Real(number) => {
            writer.xml_data_element_only("vt:r8", number.as_str());
        },
        PropertyValue::Bool(truth) => {
            if *truth {
                writer.xml_data_element_only("vt:bool", "true");
            } else {
                writer.xml_data_element_only("vt:bool", "false");
            }
        },
    }
}

/// Writes the element of the `number`-th property.
fn write_property(writer: &mut XMLWriter, property: &CustomProperty, number: usize)
    ensures
        final(writer)@ == old(writer)@ + property_text(property@, number as nat),
{
    let attributes: Vec<Attribute> = vec![
        ("fmtid", "{D5CDD505-2E9C-101B-9397-08002B2CF9AE}".to_owned()),
        ("pid", decimal_string_of_sum(number, 1)),
        ("name", property.name.clone()),
    ];
    proof {
        assert(attributes_view(attributes@) =~= property_attributes(number as nat, property@.name));
    }
    writer.xml_start_tag("property", &attributes);
    write_property_value(writer, &property.value);
    writer.xml_end_tag("property");
    proof {
        lemma_append_3(
            old(writer)@,
            start_tag_text("property"@, property_attributes(number as nat, property@.name)),
            property_value_text(property@.value),
            end_tag_text("property"@),
        );
    }
}

/// The custom-properties part of a package with the properties
/// `properties`.
pub fn assemble_custom(properties: &DocProperties) -> (text: String)
    ensures
        text@ == custom_xml_text(custom_properties_view(properties.custom_properties@)),
{
    proof {
        reveal(custom_xml_text);
    }
    let ghost all = custom_properties_view(properties.custom_properties@);
    let mut writer = XMLWriter::new();
    writer.xml_declaration();
    let attributes: Vec<Attribute> = vec![
        (
            "xmlns",
            "http://schemas.openxmlformats.org/officeDocument/2006/custom-properties".to_owned(),
        ),
        (
            "xmlns:vt",
            "http://schemas.openxmlformats.org/officeDocument/2006/docPropsVTypes".to_owned(),
        ),
    ];
    proof {
        assert(attributes_view(attributes@) =~= custom_namespaces());
    }
    writer.xml_start_tag("Properties", &attributes);
    let ghost start = writer@;
    let count = properties.custom_properties.len();
    let mut i: usize = 0;
    proof {
        assert(all.take(0) =~= Seq::<CustomPropertyView>::empty());
        assert(writer@ =~= start + property_items_text(all.take(0)));
    }
    while i < count
        invariant
            i <= count,
            count == all.len(),
            all == custom_properties_view(properties.custom_properties@),
            writer@ == start + property_items_text(all.take(i as int)),
        decreases count - i,
    {
        write_property(&mut writer, &properties.custom_properties[i], i + 1);
        proof {
            assert(all.take(i + 1).drop_last() =~= all.take(i as int));
            assert(all.take(i + 1).last() == all[i as int]);
            lemma_append_2(
                start,
                property_items_text(all.take(i as int)),
                property_text(all[i as int], (i + 1) as nat),
            );
        }
        i += 1;
    }
    proof {
        assert(all.take(count as int) =~= all);
    }
    writer.xml_end_tag("Properties");
    writer.read_to_string()
}

} // verus!
