//! The core-properties part of a package, `docProps/core.xml`.

use vstd::prelude::*;
use vstd::string::*;
use crate::properties::DocProperties;
use crate::utility::{lemma_append_2, lemma_append_4, lemma_append_5};
use crate::xmlwriter::{
    attributes_view, data_element_text, declaration_text, end_tag_text, start_tag_text, Attribute,
    XMLWriter,
};

verus! {

/// The writer of the core-properties part.
pub struct Core {
    pub writer: XMLWriter,
    pub properties: DocProperties,
}

/// The namespaces that the root element declares.
pub open spec fn core_namespaces() -> Seq<(Seq<char>, Seq<char>)> {
    seq![
        ("xmlns:cp"@, "http://schemas.openxmlformats.org/package/2006/metadata/core-properties"@),
        ("xmlns:dc"@, "http://purl.org/dc/elements/1.1/"@),
        ("xmlns:dcterms"@, "http://purl.org/dc/terms/"@),
        ("xmlns:dcmitype"@, "http://purl.org/dc/dcmitype/"@),
        ("xmlns:xsi"@, "http://www.w3.org/2001/XMLSchema-instance"@),
    ]
}

/// The attribute that marks the content of an element as a date and time.
pub open spec fn w3cdtf_attributes() -> Seq<(Seq<char>, Seq<char>)> {
    seq![("xsi:type"@, "dcterms:W3CDTF"@)]
}

/// An element that is written only where its text is not empty.
pub open spec fn optional_element_text(tag: Seq<char>, data: Seq<char>) -> Seq<char> {
    if data.len() == 0 {
        Seq::<char>::empty()
    } else {
        data_element_text(tag, data, Seq::empty())
    }
}

/// The first elements inside the root element: title, subject, creator,
/// keywords and description. The author stands as creator.
pub open spec fn core_first_elements_text(p: DocProperties) -> Seq<char> {
    optional_element_text("dc:title"@, p.title@) + optional_element_text(
        "dc:subject"@,
        p.subject@,
    ) + data_element_text("dc:creator"@, p.author@, Seq::empty()) + optional_element_text(
        "cp:keywords"@,
        p.keywords@,
    ) + optional_element_text("dc:description"@, p.comment@)
}

/// The last elements inside the root element: last modifier, the two
/// dates, category and status. The author stands as last modifier, the
/// time of creation as both dates.
pub open spec fn core_last_elements_text(p: DocProperties) -> Seq<char> {
    data_element_text("cp:lastModifiedBy"@, p.author@, Seq::empty()) + data_element_text(
        "dcterms:created"@,
        p.creation_time@,
        w3cdtf_attributes(),
    ) + data_element_text("dcterms:modified"@, p.creation_time@, w3cdtf_attributes())
        + optional_element_text("cp:category"@, p.category@) + optional_element_text(
        "cp:contentStatus"@,
        p.status@,
    )
}

/// The elements inside the root element, in the order of the schema.
pub open spec fn core_elements_text(p: DocProperties) -> Seq<char> {
    core_first_elements_text(p) + core_last_elements_text(p)
}

/// The whole part: declaration, root element, the elements, end tag.
#[verifier::opaque]
pub open spec fn core_xml_text(p: DocProperties) -> Seq<char> {
    declaration_text() + start_tag_text("cp:coreProperties"@, core_namespaces())
        + core_elements_text(p) + end_tag_text("cp:coreProperties"@)
}

impl Core {
    /// A writer with an empty buffer and no property set: every text of
    /// the properties is empty, the document has no property of its own
    /// making, and the time of creation is the default.
    pub fn new() -> (core: Core)
        ensures
            core.writer@ == Seq::<char>::empty(),
            core.properties.title@.len() == 0,
            core.properties.subject@.len() == 0,
            core.properties.author@.len() == 0,
            core.properties.manager@.len() == 0,
            core.properties.company@.len() == 0,
            core.properties.category@.len() == 0,
            core.properties.keywords@.len() == 0,
            core.properties.comment@.len() == 0,
            core.properties.status@.len() == 0,
            core.properties.hyperlink_base@.len() == 0,
            core.properties.creation_time@ == crate::properties::default_creation_time(),
            core.properties.custom_properties@.len() == 0,
    {
        let writer = XMLWriter::new();
        Core { writer, properties: DocProperties::new() }
    }

    /// The core-properties part of a package with the properties
    /// `properties`.
    pub fn assemble(properties: &DocProperties) -> (text: String)
        ensures
            text@ == core_xml_text(*properties),
    {
        proof {
            reveal(core_xml_text);
        }
        let mut core = Core { writer: XMLWriter::new(), properties: properties.duplicate() };
        core.assemble_xml_file();
        let text = core.writer.read_to_string();
        proof {
            assert(text@ =~= core_xml_text(core.properties));
            assert(core_xml_text(core.properties) == core_xml_text(*properties));
        }
        text
    }

    /// Writes the whole part.
    pub fn assemble_xml_file(&mut self)
        ensures
            final(self).properties == old(self).properties,
            final(self).writer@ == old(self).writer@ + core_xml_text(old(self).properties),
    {
        proof {
            reveal(core_xml_text);
        }
        let ghost p = self.properties;
        let ghost start = self.writer@;
        self.writer.xml_declaration();
        self.write_cp_core_properties();
        let ghost head = self.writer@;
        self.write_dc_title();
        self.write_dc_subject();
        self.write_dc_creator();
        self.write_cp_keywords();
        self.write_dc_description();
        let ghost middle = self.writer@;
        proof {
            lemma_append_5(
                head,
                optional_element_text("dc:title"@, p.title@),
                optional_element_text("dc:subject"@, p.subject@),
                data_element_text("dc:creator"@, p.author@, Seq::empty()),
                optional_element_text("cp:keywords"@, p.keywords@),
                optional_element_text("dc:description"@, p.comment@),
            );
            assert(middle == head + core_first_elements_text(p));
        }
        self.write_cp_last_modified_by();
        self.write_dcterms_created();
        self.write_dcterms_modified();
        self.write_cp_category();
        self.write_cp_content_status();
        let ghost body = self.writer@;
        proof {
            lemma_append_5(
                middle,
                data_element_text("cp:lastModifiedBy"@, p.author@, Seq::empty()),
                data_element_text("dcterms:created"@, p.creation_time@, w3cdtf_attributes()),
                data_element_text("dcterms:modified"@, p.creation_time@, w3cdtf_attributes()),
                optional_element_text("cp:category"@, p.category@),
                optional_element_text("cp:contentStatus"@, p.status@),
            );
            assert(body == middle + core_last_elements_text(p));
            lemma_append_2(head, core_first_elements_text(p), core_last_elements_text(p));
            assert(body == head + core_elements_text(p));
        }
        self.writer.xml_end_tag("cp:coreProperties");
        proof {
            lemma_append_4(
                start,
                declaration_text(),
                start_tag_text("cp:coreProperties"@, core_namespaces()),
                core_elements_text(p),
                end_tag_text("cp:coreProperties"@),
            );
        }
    }

    /// Writes the start tag of the root element.
    pub fn write_cp_core_properties(&mut self)
        ensures
            final(self).properties == old(self).properties,
            final(self).writer@ == old(self).writer@ + start_tag_text(
                "cp:coreProperties"@,
                core_namespaces(),
            ),
    {
        let xmlns_cp =
            "http://schemas.openxmlformats.org/package/2006/metadata/core-properties".to_owned();
        let xmlns_dc = "http://purl.org/dc/elements/1.1/".to_owned();
        let xmlns_dcterms = "http://purl.org/dc/terms/".to_owned();
        let xmlns_dcmitype = "http://purl.org/dc/dcmitype/".to_owned();
        let xmlns_xsi = "http://www.w3.org/2001/XMLSchema-instance".to_owned();

        let attributes: Vec<Attribute> = vec![
            ("xmlns:cp", xmlns_cp),
            ("xmlns:dc", xmlns_dc),
            ("xmlns:dcterms", xmlns_dcterms),
            ("xmlns:dcmitype", xmlns_dcmitype),
            ("xmlns:xsi", xmlns_xsi),
        ];
        proof {
            assert(attributes_view(attributes@) =~= core_namespaces());
        }

        self.writer.xml_start_tag("cp:coreProperties", &attributes);
    }

    /// Writes the title, if it is set.
    pub fn write_dc_title(&mut self)
        ensures
            final(self).properties == old(self).properties,
            final(self).writer@ == old(self).writer@ + optional_element_text(
                "dc:title"@,
                old(self).properties.title@,
            ),
    {
        if !self.properties.title.as_str().is_empty() {
            self.writer.xml_data_element_only("dc:title", self.properties.title.as_str());
        }
        proof {
            assert(self.writer@ =~= old(self).writer@ + optional_element_text(
                "dc:title"@,
                old(self).properties.title@,
            ));
        }
    }

    /// Writes the subject, if it is set.
    pub fn write_dc_subject(&mut self)
        ensures
            final(self).properties == old(self).properties,
            final(self).writer@ == old(self).writer@ + optional_element_text(
                "dc:subject"@,
                old(self).properties.subject@,
            ),
    {
        if !self.properties.subject.as_str().is_empty() {
            self.writer.xml_data_element_only("dc:subject", self.properties.subject.as_str());
        }
        proof {
            assert(self.writer@ =~= old(self).writer@ + optional_element_text(
                "dc:subject"@,
                old(self).properties.subject@,
            ));
        }
    }

    /// Writes the author as the creator of the document.
    pub fn write_dc_creator(&mut self)
        ensures
            final(self).properties == old(self).properties,
            final(self).writer@ == old(self).writer@ + data_element_text(
                "dc:creator"@,
                old(self).properties.author@,
                Seq::empty(),
            ),
    {
        self.writer.xml_data_element_only("dc:creator", self.properties.author.as_str());
    }

    /// Writes the keywords, if they are set.
    pub fn write_cp_keywords(&mut self)
        ensures
            final(self).properties == old(self).properties,
            final(self).writer@ == old(self).writer@ + optional_element_text(
                "cp:keywords"@,
                old(self).properties.keywords@,
            ),
    {
        if !self.properties.keywords.as_str().is_empty() {
            self.writer.xml_data_element_only("cp:keywords", self.properties.keywords.as_str());
        }
        proof {
            assert(self.writer@ =~= old(self).writer@ + optional_element_text(
                "cp:keywords"@,
                old(self).properties.keywords@,
            ));
        }
    }

    /// Writes the comment as the description, if it is set.
    pub fn write_dc_description(&mut self)
        ensures
            final(self).properties == old(self).properties,
            final(self).writer@ == old(self).writer@ + optional_element_text(
                "dc:description"@,
                old(self).properties.comment@,
            ),
    {
        if !self.properties.comment.as_str().is_empty() {
            self.writer.xml_data_element_only("dc:description", self.properties.comment.as_str());
        }
        proof {
            assert(self.writer@ =~= old(self).writer@ + optional_element_text(
                "dc:description"@,
                old(self).properties.comment@,
            ));
        }
    }

    /// Writes the author as the one who last modified the document.
    pub fn write_cp_last_modified_by(&mut self)
        ensures
            final(self).properties == old(self).properties,
            final(self).writer@ == old(self).writer@ + data_element_text(
                "cp:lastModifiedBy"@,
                old(self).properties.author@,
                Seq::empty(),
            ),
    {
        self.writer.xml_data_element_only("cp:lastModifiedBy", self.properties.author.as_str());
    }

    /// Writes the time of creation.
    pub fn write_dcterms_created(&mut self)
        ensures
            final(self).properties == old(self).properties,
            final(self).writer@ == old(self).writer@ + data_element_text(
                "dcterms:created"@,
                old(self).properties.creation_time@,
                w3cdtf_attributes(),
            ),
    {
        let attributes: Vec<Attribute> = vec![("xsi:type", "dcterms:W3CDTF".to_owned())];
        let datetime = self.properties.creation_time.clone();
        proof {
            assert(attributes_view(attributes@) =~= w3cdtf_attributes());
        }

        self.writer.xml_data_element("dcterms:created", datetime.as_str(), &attributes);
    }

    /// Writes the time of creation as the time of the last change.
    pub fn write_dcterms_modified(&mut self)
        ensures
            final(self).properties == old(self).properties,
            final(self).writer@ == old(self).writer@ + data_element_text(
                "dcterms:modified"@,
                old(self).properties.creation_time@,
                w3cdtf_attributes(),
            ),
    {
        let attributes: Vec<Attribute> = vec![("xsi:type", "dcterms:W3CDTF".to_owned())];
        let datetime = self.properties.creation_time.clone();
        proof {
            assert(attributes_view(attributes@) =~= w3cdtf_attributes());
        }

        self.writer.xml_data_element("dcterms:modified", datetime.as_str(), &attributes);
    }

    /// Writes the category, if it is set.
    pub fn write_cp_category(&mut self)
        ensures
            final(self).properties == old(self).properties,
            final(self).writer@ == old(self).writer@ + optional_element_text(
                "cp:category"@,
                old(self).properties.category@,
            ),
    {
        if !self.properties.category.as_str().is_empty() {
            self.writer.xml_data_element_only("cp:category", self.properties.category.as_str());
        }
        proof {
            assert(self.writer@ =~= old(self).writer@ + optional_element_text(
                "cp:category"@,
                old(self).properties.category@,
            ));
        }
    }

    /// Writes the status, if it is set.
    pub fn write_cp_content_status(&mut self)
        ensures
            final(self).properties == old(self).properties,
            final(self).writer@ == old(self).writer@ + optional_element_text(
                "cp:contentStatus"@,
                old(self).properties.status@,
            ),
    {
        if !self.properties.status.as_str().is_empty() {
            self.writer.xml_data_element_only("cp:contentStatus", self.properties.status.as_str());
        }
        proof {
            assert(self.writer@ =~= old(self).writer@ + optional_element_text(
                "cp:contentStatus"@,
                old(self).properties.status@,
            ));
        }
    }
}

} // verus!
