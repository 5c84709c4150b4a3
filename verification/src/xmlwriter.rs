//! A streaming writer of XML text into an in-memory buffer.
//!
//! The writer appends tags, attributes and escaped character data. It does
//! not check that tags nest: that is left to the functions that assemble a
//! document part.

use vstd::prelude::*;
use vstd::string::*;
use crate::utility::push_char;

verus! {

/// An attribute of an element: its name and its value before escaping.
pub type Attribute<'a> = (&'a str, String);

/// Whether `c` is a control character that an XML document may not hold:
/// the characters below U+0020 other than tab, line feed and carriage return.
pub open spec fn is_restricted_char(c: char) -> bool {
    (c as u32) < 0x20 && c != '\t' && c != '\n' && c != '\r'
}

/// What character data holds in place of `c`: an entity for each of
/// `& < > " '`, nothing for a restricted control character, else `c`.
pub open spec fn escape_data_char(c: char) -> Seq<char> {
    if c == '&' {
        "&amp;"@
    } else if c == '<' {
        "&lt;"@
    } else if c == '>' {
        "&gt;"@
    } else if c == '"' {
        "&quot;"@
    } else if c == '\'' {
        "&apos;"@
    } else if is_restricted_char(c) {
        Seq::<char>::empty()
    } else {
        seq![c]
    }
}

/// What an attribute value holds in place of `c`: as in character data, but
/// a line feed is written as a character reference so that it survives
/// attribute-value normalisation.
pub open spec fn escape_attribute_char(c: char) -> Seq<char> {
    if c == '\n' {
        "&#xA;"@
    } else {
        escape_data_char(c)
    }
}

/// Character data for the text `s`: each character escaped in turn.
pub open spec fn escape_data_text(s: Seq<char>) -> Seq<char>
    decreases s.len(),
{
    if s.len() == 0 {
        Seq::<char>::empty()
    } else {
        escape_data_text(s.drop_last()) + escape_data_char(s.last())
    }
}

/// An attribute value for the text `s`: each character escaped in turn.
pub open spec fn escape_attribute_text(s: Seq<char>) -> Seq<char>
    decreases s.len(),
{
    if s.len() == 0 {
        Seq::<char>::empty()
    } else {
        escape_attribute_text(s.drop_last()) + escape_attribute_char(s.last())
    }
}

/// One attribute inside a tag: a space, the name, and the quoted value.
pub open spec fn attribute_text(name: Seq<char>, value: Seq<char>) -> Seq<char> {
    " "@ + name + "=\""@ + escape_attribute_text(value) + "\""@
}

/// The attributes of a tag, in order.
pub open spec fn attributes_text(attributes: Seq<(Seq<char>, Seq<char>)>) -> Seq<char>
    decreases attributes.len(),
{
    if attributes.len() == 0 {
        Seq::<char>::empty()
    } else {
        attributes_text(attributes.drop_last()) + attribute_text(
            attributes.last().0,
            attributes.last().1,
        )
    }
}

/// Names and values of a list of attributes as plain sequences.
pub open spec fn attributes_view(attributes: Seq<Attribute>) -> Seq<(Seq<char>, Seq<char>)> {
    Seq::new(attributes.len(), |i: int| (attributes[i].0@, attributes[i].1@))
}

/// The XML declaration that opens every document part.
pub open spec fn declaration_text() -> Seq<char> {
    "<?xml version=\"1.0\" encoding=\"UTF-8\" standalone=\"yes\"?>\n"@
}

/// A start tag with attributes.
pub open spec fn start_tag_text(tag: Seq<char>, attributes: Seq<(Seq<char>, Seq<char>)>) -> Seq<
    char,
> {
    "<"@ + tag + attributes_text(attributes) + ">"@
}

/// An end tag.
pub open spec fn end_tag_text(tag: Seq<char>) -> Seq<char> {
    "</"@ + tag + ">"@
}

/// An element without content.
pub open spec fn empty_tag_text(tag: Seq<char>, attributes: Seq<(Seq<char>, Seq<char>)>) -> Seq<
    char,
> {
    "<"@ + tag + attributes_text(attributes) + "/>"@
}

/// An element whose content is the escaped text `data`.
pub open spec fn data_element_text(
    tag: Seq<char>,
    data: Seq<char>,
    attributes: Seq<(Seq<char>, Seq<char>)>,
) -> Seq<char> {
    start_tag_text(tag, attributes) + escape_data_text(data) + end_tag_text(tag)
}

/// Appends the character data for `s`.
pub fn escape_data(out: &mut String, s: &str)
    ensures
        final(out)@ == old(out)@ + escape_data_text(s@),
{
    let ghost start = out@;
    proof {
        broadcast use vstd::string::group_string_axioms;

        assert(s@.take(0) =~= Seq::<char>::empty());
        assert(out@ =~= start + escape_data_text(s@.take(0)));
    }
    for c in it: s.chars()
        invariant
            it.seq() == s@,
            out@ == start + escape_data_text(s@.take(it.index() as int)),
    {
        let ghost before = out@;
        if c == '&' {
            out.append("&amp;");
        } else if c == '<' {
            out.append("&lt;");
        } else if c == '>' {
            out.append("&gt;");
        } else if c == '"' {
            out.append("&quot;");
        } else if c == '\'' {
            out.append("&apos;");
        } else if (c as u32) < 0x20 && c != '\t' && c != '\n' && c != '\r' {
        } else {
            push_char(out, c);
        }
        proof {
            let i = it.index();
            assert(s@.take(i + 1).drop_last() =~= s@.take(i));
            assert(s@.take(i + 1).last() == c);
            assert(out@ =~= before + escape_data_char(c));
            assert(out@ =~= start + escape_data_text(s@.take(i + 1)));
        }
    }
    proof {
        assert(s@.take(s@.len() as int) =~= s@);
    }
}

/// Appends the attribute value for `s`.
pub fn escape_attribute(out: &mut String, s: &str)
    ensures
        final(out)@ == old(out)@ + escape_attribute_text(s@),
{
    let ghost start = out@;
    proof {
        broadcast use vstd::string::group_string_axioms;

        assert(s@.take(0) =~= Seq::<char>::empty());
        assert(out@ =~= start + escape_attribute_text(s@.take(0)));
    }
    for c in it: s.chars()
        invariant
            it.seq() == s@,
            out@ == start + escape_attribute_text(s@.take(it.index() as int)),
    {
        let ghost before = out@;
        if c == '\n' {
            out.append("&#xA;");
        } else if c == '&' {
            out.append("&amp;");
        } else if c == '<' {
            out.append("&lt;");
        } else if c == '>' {
            out.append("&gt;");
        } else if c == '"' {
            out.append("&quot;");
        } else if c == '\'' {
            out.append("&apos;");
        } else if (c as u32) < 0x20 && c != '\t' && c != '\r' {
        } else {
            push_char(out, c);
        }
        proof {
            let i = it.index();
            assert(s@.take(i + 1).drop_last() =~= s@.take(i));
            assert(s@.take(i + 1).last() == c);
            assert(out@ =~= before + escape_attribute_char(c));
            assert(out@ =~= start + escape_attribute_text(s@.take(i + 1)));
        }
    }
    proof {
        assert(s@.take(s@.len() as int) =~= s@);
    }
}

/// Appends the attributes of a tag, in order.
pub fn push_attributes(out: &mut String, attributes: &Vec<Attribute>)
    ensures
        final(out)@ == old(out)@ + attributes_text(attributes_view(attributes@)),
{
    let ghost start = out@;
    let ghost all = attributes_view(attributes@);
    let mut i: usize = 0;
    proof {
        assert(all.take(0) =~= Seq::<(Seq<char>, Seq<char>)>::empty());
        assert(out@ =~= start + attributes_text(all.take(0)));
    }
    while i < attributes.len()
        invariant
            i <= attributes.len(),
            all == attributes_view(attributes@),
            out@ == start + attributes_text(all.take(i as int)),
        decreases attributes.len() - i,
    {
        let ghost before = out@;
        out.append(" ");
        out.append(attributes[i].0);
        out.append("=\"");
        escape_attribute(out, attributes[i].1.as_str());
        out.append("\"");
        proof {
            assert(all.take(i + 1).drop_last() =~= all.take(i as int));
            assert(all.take(i + 1).last() == all[i as int]);
            assert(out@ =~= before + attribute_text(all[i as int].0, all[i as int].1));
            assert(out@ =~= start + attributes_text(all.take(i + 1)));
        }
        i += 1;
    }
    proof {
        assert(all.take(all.len() as int) =~= all);
    }
}

/// The buffer of one document part.
pub struct XMLWriter {
    xmlfile: String,
}

impl View for XMLWriter {
    type V = Seq<char>;

    /// The text written so far.
    closed spec fn view(&self) -> Seq<char> {
        self.xmlfile@
    }
}

impl XMLWriter {
    /// A writer that holds no text yet.
    pub fn new() -> (writer: XMLWriter)
        ensures
            writer@ == Seq::<char>::empty(),
    {
        XMLWriter { xmlfile: String::new() }
    }

    /// A copy of the text written so far.
    pub fn read_to_string(&self) -> (text: String)
        ensures
            text@ == self@,
    {
        self.xmlfile.clone()
    }

    /// Discards the text written so far.
    pub fn reset(&mut self)
        ensures
            final(self)@ == Seq::<char>::empty(),
    {
        self.xmlfile = String::new();
    }

    /// Writes the XML declaration.
    pub fn xml_declaration(&mut self)
        ensures
            final(self)@ == old(self)@ + declaration_text(),
    {
        self.xmlfile.append("<?xml version=\"1.0\" encoding=\"UTF-8\" standalone=\"yes\"?>\n");
    }

    /// Writes a start tag with attributes.
    pub fn xml_start_tag(&mut self, tag: &str, attributes: &Vec<Attribute>)
        ensures
            final(self)@ == old(self)@ + start_tag_text(tag@, attributes_view(attributes@)),
    {
        self.xmlfile.append("<");
        self.xmlfile.append(tag);
        push_attributes(&mut self.xmlfile, attributes);
        self.xmlfile.append(">");
        proof {
            assert(self@ =~= old(self)@ + start_tag_text(tag@, attributes_view(attributes@)));
        }
    }

    /// Writes a start tag without attributes.
    pub fn xml_start_tag_only(&mut self, tag: &str)
        ensures
            final(self)@ == old(self)@ + start_tag_text(tag@, Seq::empty()),
    {
        self.xmlfile.append("<");
        self.xmlfile.append(tag);
        self.xmlfile.append(">");
        proof {
            assert(self@ =~= old(self)@ + start_tag_text(tag@, Seq::empty()));
        }
    }

    /// Writes an end tag.
    pub fn xml_end_tag(&mut self, tag: &str)
        ensures
            final(self)@ == old(self)@ + end_tag_text(tag@),
    {
        self.xmlfile.append("</");
        self.xmlfile.append(tag);
        self.xmlfile.append(">");
        proof {
            assert(self@ =~= old(self)@ + end_tag_text(tag@));
        }
    }

    /// Writes an element without content, with attributes.
    pub fn xml_empty_tag(&mut self, tag: &str, attributes: &Vec<Attribute>)
        ensures
            final(self)@ == old(self)@ + empty_tag_text(tag@, attributes_view(attributes@)),
    {
        self.xmlfile.append("<");
        self.xmlfile.append(tag);
        push_attributes(&mut self.xmlfile, attributes);
        self.xmlfile.append("/>");
        proof {
            assert(self@ =~= old(self)@ + empty_tag_text(tag@, attributes_view(attributes@)));
        }
    }

    /// Writes an element without content or attributes.
    pub fn xml_empty_tag_only(&mut self, tag: &str)
        ensures
            final(self)@ == old(self)@ + empty_tag_text(tag@, Seq::empty()),
    {
        self.xmlfile.append("<");
        self.xmlfile.append(tag);
        self.xmlfile.append("/>");
        proof {
            assert(self@ =~= old(self)@ + empty_tag_text(tag@, Seq::empty()));
        }
    }

    /// Writes an element with attributes whose content is the text `data`,
    /// escaped.
    pub fn xml_data_element(&mut self, tag: &str, data: &str, attributes: &Vec<Attribute>)
        ensures
            final(self)@ == old(self)@ + data_element_text(
                tag@,
                data@,
                attributes_view(attributes@),
            ),
    {
        self.xmlfile.append("<");
        self.xmlfile.append(tag);
        push_attributes(&mut self.xmlfile, attributes);
        self.xmlfile.append(">");
        escape_data(&mut self.xmlfile, data);
        self.xmlfile.append("</");
        self.xmlfile.append(tag);
        self.xmlfile.append(">");
        proof {
            assert(self@ =~= old(self)@ + data_element_text(
                tag@,
                data@,
                attributes_view(attributes@),
            ));
        }
    }

    /// Writes an element without attributes whose content is the text
    /// `data`, escaped.
    pub fn xml_data_element_only(&mut self, tag: &str, data: &str)
        ensures
            final(self)@ == old(self)@ + data_element_text(tag@, data@, Seq::empty()),
    {
        self.xmlfile.append("<");
        self.xmlfile.append(tag);
        self.xmlfile.append(">");
        escape_data(&mut self.xmlfile, data);
        self.xmlfile.append("</");
        self.xmlfile.append(tag);
        self.xmlfile.append(">");
        proof {
            assert(self@ =~= old(self)@ + data_element_text(tag@, data@, Seq::empty()));
        }
    }

    /// Writes text that is already well-formed XML, unchanged.
    pub fn xml_raw_string(&mut self, text: &str)
        ensures
            final(self)@ == old(self)@ + text@,
    {
        self.xmlfile.append(text);
    }
}

} // verus!
