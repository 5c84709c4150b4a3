//! The shared-string table of a workbook.
//!
//! Every distinct text of the cells of a workbook is held once, in the order
//! of its first occurrence, and cells refer to a text by its position.

use vstd::prelude::*;
use vstd::string::*;
use crate::registry::{first_index_of, registered, Registry};
use crate::utility::decimal_string;
use crate::xmlwriter::{
    attributes_view, data_element_text, declaration_text, end_tag_text, start_tag_text, Attribute,
    XMLWriter,
};

verus! {

/// The texts of a workbook, each once, and the number of cells that refer
/// to them.
pub struct SharedStringTable {
    strings: Registry<String>,
    count: usize,
}

/// The number after `count`; the largest number that can be counted stays
/// as it is.
pub open spec fn counted(count: usize) -> usize {
    if count < usize::MAX {
        (count + 1) as usize
    } else {
        count
    }
}

/// Whether a text begins or ends with white space, which a reader drops
/// unless the element says otherwise.
pub open spec fn has_outer_space(text: Seq<char>) -> bool {
    text.len() > 0 && (is_space_char(text[0]) || is_space_char(text.last()))
}

/// Whether `c` is a space, a tab, a line feed or a carriage return.
pub open spec fn is_space_char(c: char) -> bool {
    c == ' ' || c == '\t' || c == '\n' || c == '\r'
}

/// The attribute that keeps the white space of a text.
pub open spec fn preserve_attributes() -> Seq<(Seq<char>, Seq<char>)> {
    seq![("xml:space"@, "preserve"@)]
}

/// The element of one text of the table.
pub open spec fn string_item_text(text: Seq<char>) -> Seq<char> {
    start_tag_text("si"@, Seq::empty()) + data_element_text(
        "t"@,
        text,
        if has_outer_space(text) {
            preserve_attributes()
        } else {
            Seq::empty()
        },
    ) + end_tag_text("si"@)
}

/// The elements of the texts `strings`, in order.
pub open spec fn string_items_text(strings: Seq<Seq<char>>) -> Seq<char>
    decreases strings.len(),
{
    if strings.len() == 0 {
        Seq::<char>::empty()
    } else {
        string_items_text(strings.drop_last()) + string_item_text(strings.last())
    }
}

/// The attributes of the root element: the namespace, the number of
/// references and the number of texts.
pub open spec fn table_attributes(count: usize, unique: nat) -> Seq<(Seq<char>, Seq<char>)> {
    seq![
        ("xmlns"@, "http://schemas.openxmlformats.org/spreadsheetml/2006/main"@),
        ("count"@, crate::utility::decimal_text(count as nat)),
        ("uniqueCount"@, crate::utility::decimal_text(unique)),
    ]
}

/// The shared-strings part for the texts `strings`, to which `count` cells
/// refer.
#[verifier::opaque]
pub open spec fn shared_strings_xml_text(strings: Seq<Seq<char>>, count: usize) -> Seq<char> {
    declaration_text() + start_tag_text("sst"@, table_attributes(count, strings.len()))
        + string_items_text(strings) + end_tag_text("sst"@)
}

/// Interning a text twice gives the same position twice, and the second
/// time the table stays as it is. The texts stand in the order of their
/// first occurrence: interning a new text appends it.
pub proof fn lemma_intern_twice(strings: Seq<Seq<char>>, text: Seq<char>)
    requires
        strings.no_duplicates(),
    ensures
        first_index_of(registered(strings, text), text) == first_index_of(strings, text),
        registered(registered(strings, text), text) == registered(strings, text),
        !strings.contains(text) ==> registered(strings, text) == strings.push(text),
        strings.contains(text) ==> registered(strings, text) == strings,
{
    crate::registry::lemma_register_is_idempotent(strings, text);
}

impl SharedStringTable {
    /// The texts of the table in the order of their first occurrence.
    pub closed spec fn strings(&self) -> Seq<Seq<char>> {
        self.strings.entries()
    }

    /// The number of references that were counted.
    pub closed spec fn count(&self) -> usize {
        self.count
    }

    /// No text is held twice.
    pub closed spec fn wf(&self) -> bool {
        self.strings.wf()
    }

    /// A table that is in order holds no text twice.
    pub proof fn lemma_wf(&self)
        requires
            self.wf(),
        ensures
            self.strings().no_duplicates(),
    {
    }

    /// An empty table.
    pub fn new() -> (table: SharedStringTable)
        ensures
            table.wf(),
            table.strings() == Seq::<Seq<char>>::empty(),
            table.count() == 0,
    {
        SharedStringTable { strings: Registry::new(), count: 0 }
    }

    /// The number of texts.
    pub fn unique_count(&self) -> (n: usize)
        ensures
            n == self.strings().len(),
    {
        self.strings.len()
    }

    /// Counts a reference to `text` and gives the position of `text`: the
    /// position at which the table holds it, or, for a new text, the
    /// position at the end.
    pub fn intern(&mut self, text: &String) -> (index: usize)
        requires
            old(self).wf(),
        ensures
            final(self).wf(),
            final(self).strings() == registered(old(self).strings(), text@),
            final(self).count() == counted(old(self).count()),
            index == first_index_of(old(self).strings(), text@),
            index < final(self).strings().len(),
            final(self).strings()[index as int] == text@,
    {
        if self.count < usize::MAX {
            self.count += 1;
        }
        self.strings.register(text)
    }

    /// The position of `text`, if the table holds it.
    pub fn index_of(&self, text: &String) -> (found: Option<usize>)
        ensures
            found is Some <==> self.strings().contains(text@),
            found matches Some(index) ==> index == first_index_of(self.strings(), text@),
    {
        self.strings.index_of(text)
    }

    /// The shared-strings part of the package.
    pub fn assemble_xml_file(&self) -> (text: String)
        ensures
            text@ == shared_strings_xml_text(self.strings(), self.count()),
    {
        proof {
            reveal(shared_strings_xml_text);
        }
        let mut writer = XMLWriter::new();
        writer.xml_declaration();
        let attributes: Vec<Attribute> = vec![
            ("xmlns", "http://schemas.openxmlformats.org/spreadsheetml/2006/main".to_owned()),
            ("count", decimal_string(self.count as u64)),
            ("uniqueCount", decimal_string(self.strings.len() as u64)),
        ];
        proof {
            assert(attributes_view(attributes@) =~= table_attributes(
                self.count(),
                self.strings().len(),
            ));
        }
        writer.xml_start_tag("sst", &attributes);
        let ghost start = writer@;
        let ghost all = self.strings();
        let mut i: usize = 0;
        proof {
            assert(all.take(0) =~= Seq::<Seq<char>>::empty());
            assert(writer@ =~= start + string_items_text(all.take(0)));
        }
        while i < self.strings.len()
            invariant
                i <= self.strings.entries().len(),
                all == self.strings(),
                all == self.strings.entries(),
                writer@ == start + string_items_text(all.take(i as int)),
            decreases all.len() - i,
        {
            let ghost before = writer@;
            let text = self.strings.get(i).as_str();
            let length = text.unicode_len();
            let preserve = length > 0 && (is_space(text.get_char(0)) || is_space(
                text.get_char(length - 1),
            ));
            writer.xml_start_tag_only("si");
            if preserve {
                let attributes: Vec<Attribute> = vec![("xml:space", "preserve".to_owned())];
                proof {
                    assert(attributes_view(attributes@) =~= preserve_attributes());
                }
                writer.xml_data_element("t", text, &attributes);
            } else {
                writer.xml_data_element_only("t", text);
            }
            writer.xml_end_tag("si");
            proof {
                assert(all.take(i + 1).drop_last() =~= all.take(i as int));
                assert(all.take(i + 1).last() == all[i as int]);
                assert(writer@ =~= before + string_item_text(all[i as int]));
                assert(writer@ =~= start + string_items_text(all.take(i + 1)));
            }
            i += 1;
        }
        proof {
            assert(all.take(all.len() as int) =~= all);
        }
        writer.xml_end_tag("sst");
        let text = writer.read_to_string();
        proof {
            assert(text@ =~= shared_strings_xml_text(self.strings(), self.count()));
        }
        text
    }
}

/// Whether `c` is a space, a tab, a line feed or a carriage return.
fn is_space(c: char) -> (r: bool)
    ensures
        r == is_space_char(c),
{
    c == ' ' || c == '\t' || c == '\n' || c == '\r'
}

} // verus!
