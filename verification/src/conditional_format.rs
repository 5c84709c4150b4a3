//! Rules that colour the cells of a range by their values, and the elements
//! that a worksheet part holds for them.

use vstd::prelude::*;
use vstd::string::*;
use crate::format::Color;
use crate::styles::{argb_text, push_hex};
use crate::utility::{
    decimal_text, lemma_append_2, lemma_append_3, lemma_append_4, lemma_append_5, push_decimal,
    push_range_ref, range_ref_text,
};
use crate::worksheet::CellRange;
use crate::xmlwriter::{
    attributes_view, empty_tag_text, end_tag_text, start_tag_text, Attribute, XMLWriter,
};

verus! {

/// A rule that colours each cell of a range by where its value lies among
/// the values of the range: from one colour for the lowest value to another
/// for the highest, with or without a third for the value in the middle.
#[derive(Clone, Copy, Debug, PartialEq, Eq, Structural)]
pub enum ConditionalFormat {
    TwoColorScale { minimum: Color, maximum: Color },
    ThreeColorScale { minimum: Color, midpoint: Color, maximum: Color },
}

/// Whether a colour has red, green and blue parts of its own.
pub open spec fn is_plain_color(color: Color) -> bool {
    color != Color::Default && color != Color::Automatic
}

impl ConditionalFormat {
    /// The colour of the lowest value.
    pub open spec fn minimum(&self) -> Color {
        match self {
            ConditionalFormat::TwoColorScale { minimum, .. } => *minimum,
            ConditionalFormat::ThreeColorScale { minimum, .. } => *minimum,
        }
    }

    /// The colour of the highest value.
    pub open spec fn maximum(&self) -> Color {
        match self {
            ConditionalFormat::TwoColorScale { maximum, .. } => *maximum,
            ConditionalFormat::ThreeColorScale { maximum, .. } => *maximum,
        }
    }

    /// The rule with the colour `color` for the lowest value.
    pub open spec fn with_minimum(&self, color: Color) -> ConditionalFormat {
        match self {
            ConditionalFormat::TwoColorScale { maximum, .. } => ConditionalFormat::TwoColorScale {
                minimum: color,
                maximum: *maximum,
            },
            ConditionalFormat::ThreeColorScale {
                midpoint,
                maximum,
                ..
            } => ConditionalFormat::ThreeColorScale {
                minimum: color,
                midpoint: *midpoint,
                maximum: *maximum,
            },
        }
    }

    /// The rule with the colour `color` for the value in the middle; a rule
    /// of two colours has none and stays as it is.
    pub open spec fn with_midpoint(&self, color: Color) -> ConditionalFormat {
        match self {
            ConditionalFormat::TwoColorScale { .. } => *self,
            ConditionalFormat::ThreeColorScale {
                minimum,
                maximum,
                ..
            } => ConditionalFormat::ThreeColorScale {
                minimum: *minimum,
                midpoint: color,
                maximum: *maximum,
            },
        }
    }

    /// The rule with the colour `color` for the highest value.
    pub open spec fn with_maximum(&self, color: Color) -> ConditionalFormat {
        match self {
            ConditionalFormat::TwoColorScale { minimum, .. } => ConditionalFormat::TwoColorScale {
                minimum: *minimum,
                maximum: color,
            },
            ConditionalFormat::ThreeColorScale {
                minimum,
                midpoint,
                ..
            } => ConditionalFormat::ThreeColorScale {
                minimum: *minimum,
                midpoint: *midpoint,
                maximum: color,
            },
        }
    }

    /// A rule of two colours: from light yellow for the lowest value to
    /// green for the highest.
    pub fn two_color_scale() -> (rule: ConditionalFormat)
        ensures
            rule == (ConditionalFormat::TwoColorScale {
                minimum: Color::RGB(0xFFEF9C),
                maximum: Color::RGB(0x63BE7B),
            }),
    {
        ConditionalFormat::TwoColorScale {
            minimum: Color::RGB(0xFFEF9C),
            maximum: Color::RGB(0x63BE7B),
        }
    }

    /// A rule of three colours: from red for the lowest value over yellow
    /// for the value in the middle to green for the highest.
    pub fn three_color_scale() -> (rule: ConditionalFormat)
        ensures
            rule == (ConditionalFormat::ThreeColorScale {
                minimum: Color::RGB(0xF8696B),
                midpoint: Color::RGB(0xFFEB84),
                maximum: Color::RGB(0x63BE7B),
            }),
    {
        ConditionalFormat::ThreeColorScale {
            minimum: Color::RGB(0xF8696B),
            midpoint: Color::RGB(0xFFEB84),
            maximum: Color::RGB(0x63BE7B),
        }
    }

    /// Sets the colour of the lowest value. A colour without parts of its
    /// own changes nothing.
    pub fn set_minimum_color(self, color: Color) -> (rule: ConditionalFormat)
        ensures
            rule == if is_plain_color(color) {
                self.with_minimum(color)
            } else {
                self
            },
    {
        match color {
            Color::Default | Color::Automatic => self,
            _ => match self {
                ConditionalFormat::TwoColorScale {
                    maximum,
                    ..
                } => ConditionalFormat::TwoColorScale { minimum: color, maximum },
                ConditionalFormat::ThreeColorScale {
                    midpoint,
                    maximum,
                    ..
                } => ConditionalFormat::ThreeColorScale { minimum: color, midpoint, maximum },
            },
        }
    }

    /// Sets the colour of the value in the middle. A colour without parts
    /// of its own changes nothing, and neither does any colour in a rule of
    /// two colours.
    pub fn set_midpoint_color(self, color: Color) -> (rule: ConditionalFormat)
        ensures
            rule == if is_plain_color(color) {
                self.with_midpoint(color)
            } else {
                self
            },
    {
        match color {
            Color::Default | Color::Automatic => self,
            _ => match self {
                ConditionalFormat::TwoColorScale { .. } => self,
                ConditionalFormat::ThreeColorScale {
                    minimum,
                    maximum,
                    ..
                } => ConditionalFormat::ThreeColorScale { minimum, midpoint: color, maximum },
            },
        }
    }

    /// Sets the colour of the highest value. A colour without parts of its
    /// own changes nothing.
    pub fn set_maximum_color(self, color: Color) -> (rule: ConditionalFormat)
        ensures
            rule == if is_plain_color(color) {
                self.with_maximum(color)
            } else {
                self
            },
    {
        match color {
            Color::Default | Color::Automatic => self,
            _ => match self {
                ConditionalFormat::TwoColorScale {
                    minimum,
                    ..
                } => ConditionalFormat::TwoColorScale { minimum, maximum: color },
                ConditionalFormat::ThreeColorScale {
                    minimum,
                    midpoint,
                    ..
                } => ConditionalFormat::ThreeColorScale { minimum, midpoint, maximum: color },
            },
        }
    }
}

/// A rule with the range whose cells it colours.
#[derive(Clone, Copy, Debug, PartialEq, Eq, Structural)]
pub struct PlacedConditionalFormat {
    pub range: CellRange,
    pub rule: ConditionalFormat,
}

/// The element for a point of a scale that is found among the values: the
/// lowest or the highest.
pub open spec fn scale_point_text(kind: Seq<char>) -> Seq<char> {
    empty_tag_text("cfvo"@, seq![("type"@, kind)])
}

/// The element for the point in the middle of a scale: the value below
/// which half of the values lie.
pub open spec fn scale_midpoint_text() -> Seq<char> {
    empty_tag_text("cfvo"@, seq![("type"@, "percentile"@), ("val"@, "50"@)])
}

/// The element for a colour of a scale.
pub open spec fn scale_color_text(color: Color) -> Seq<char> {
    empty_tag_text("color"@, seq![("rgb"@, argb_text(color))])
}

/// The elements for the points of the scale of a rule, lowest first.
pub open spec fn scale_points_text(rule: ConditionalFormat) -> Seq<char> {
    match rule {
        ConditionalFormat::TwoColorScale { .. } => scale_point_text("min"@) + scale_point_text(
            "max"@,
        ),
        ConditionalFormat::ThreeColorScale { .. } => scale_point_text("min"@)
            + scale_midpoint_text() + scale_point_text("max"@),
    }
}

/// The elements for the colours of the scale of a rule, in the order of
/// its points.
pub open spec fn scale_colors_text(rule: ConditionalFormat) -> Seq<char> {
    match rule {
        ConditionalFormat::TwoColorScale { minimum, maximum } => scale_color_text(minimum)
            + scale_color_text(maximum),
        ConditionalFormat::ThreeColorScale { minimum, midpoint, maximum } => scale_color_text(
            minimum,
        ) + scale_color_text(midpoint) + scale_color_text(maximum),
    }
}

/// The element for the scale of a rule.
pub open spec fn color_scale_text(rule: ConditionalFormat) -> Seq<char> {
    start_tag_text("colorScale"@, Seq::empty()) + scale_points_text(rule) + scale_colors_text(
        rule,
    ) + end_tag_text("colorScale"@)
}

/// The attributes of the element of a rule: its kind, and its rank among
/// the rules of the worksheet.
pub open spec fn rule_attributes(priority: nat) -> Seq<(Seq<char>, Seq<char>)> {
    seq![("type"@, "colorScale"@), ("priority"@, decimal_text(priority))]
}

/// The attribute that names the range of a rule.
pub open spec fn rule_range_attributes(range: CellRange) -> Seq<(Seq<char>, Seq<char>)> {
    seq![
        (
            "sqref"@,
            range_ref_text(
                range.first_row as nat,
                range.first_col as nat,
                range.last_row as nat,
                range.last_col as nat,
            ),
        ),
    ]
}

/// The element for a rule and its range, where the rule has the rank
/// `priority` among the rules of the worksheet.
pub open spec fn conditional_format_text(format: PlacedConditionalFormat, priority: nat) -> Seq<
    char,
> {
    start_tag_text("conditionalFormatting"@, rule_range_attributes(format.range)) + start_tag_text(
        "cfRule"@,
        rule_attributes(priority),
    ) + color_scale_text(format.rule) + end_tag_text("cfRule"@) + end_tag_text(
        "conditionalFormatting"@,
    )
}

/// The elements for the first `count` rules `formats`, in order. The rank
/// of a rule is its position, counted from one: a rule that was added
/// earlier goes before one that was added later.
pub open spec fn conditional_formats_text(
    formats: Seq<PlacedConditionalFormat>,
    count: int,
) -> Seq<char>
    decreases count,
{
    if count <= 0 {
        Seq::<char>::empty()
    } else {
        conditional_formats_text(formats, count - 1) + conditional_format_text(
            formats[count - 1],
            count as nat,
        )
    }
}

/// Writes the element for a point of a scale that is found among the
/// values.
fn write_scale_point(writer: &mut XMLWriter, kind: &str)
    ensures
        final(writer)@ == old(writer)@ + scale_point_text(kind@),
{
    let attributes: Vec<Attribute> = vec![("type", kind.to_owned())];
    proof {
        assert(attributes_view(attributes@) =~= seq![("type"@, kind@)]);
    }
    writer.xml_empty_tag("cfvo", &attributes);
}

/// Writes the element for a colour of a scale.
fn write_scale_color(writer: &mut XMLWriter, color: Color)
    ensures
        final(writer)@ == old(writer)@ + scale_color_text(color),
{
    let mut text = "FF".to_owned();
    push_hex(&mut text, color.rgb(), 6);
    let attributes: Vec<Attribute> = vec![("rgb", text)];
    proof {
        assert(attributes_view(attributes@) =~= seq![("rgb"@, argb_text(color))]);
    }
    writer.xml_empty_tag("color", &attributes);
}

/// Writes the elements for the points of the scale of a rule.
fn write_scale_points(writer: &mut XMLWriter, rule: &ConditionalFormat)
    ensures
        final(writer)@ == old(writer)@ + scale_points_text(*rule),
{
    write_scale_point(writer, "min");
    match rule {
        ConditionalFormat::TwoColorScale { .. } => {
            write_scale_point(writer, "max");
            proof {
                lemma_append_2(old(writer)@, scale_point_text("min"@), scale_point_text("max"@));
            }
        },
        ConditionalFormat::ThreeColorScale { .. } => {
            let attributes: Vec<Attribute> = vec![
                ("type", "percentile".to_owned()),
                ("val", "50".to_owned()),
            ];
            proof {
                assert(attributes_view(attributes@) =~= seq![
                    ("type"@, "percentile"@),
                    ("val"@, "50"@),
                ]);
            }
            writer.xml_empty_tag("cfvo", &attributes);
            write_scale_point(writer, "max");
            proof {
                lemma_append_3(
                    old(writer)@,
                    scale_point_text("min"@),
                    scale_midpoint_text(),
                    scale_point_text("max"@),
                );
            }
        },
    }
}

/// Writes the elements for the colours of the scale of a rule.
fn write_scale_colors(writer: &mut XMLWriter, rule: &ConditionalFormat)
    ensures
        final(writer)@ == old(writer)@ + scale_colors_text(*rule),
{
    match rule {
        ConditionalFormat::TwoColorScale { minimum, maximum } => {
            write_scale_color(writer, *minimum);
            write_scale_color(writer, *maximum);
            proof {
                lemma_append_2(
                    old(writer)@,
                    scale_color_text(*minimum),
                    scale_color_text(*maximum),
                );
            }
        },
        ConditionalFormat::ThreeColorScale { minimum, midpoint, maximum } => {
            write_scale_color(writer, *minimum);
            write_scale_color(writer, *midpoint);
            write_scale_color(writer, *maximum);
            proof {
                lemma_append_3(
                    old(writer)@,
                    scale_color_text(*minimum),
                    scale_color_text(*midpoint),
                    scale_color_text(*maximum),
                );
            }
        },
    }
}

/// Writes the element for the scale of a rule.
fn write_color_scale(writer: &mut XMLWriter, rule: &ConditionalFormat)
    ensures
        final(writer)@ == old(writer)@ + color_scale_text(*rule),
{
    writer.xml_start_tag_only("colorScale");
    write_scale_points(writer, rule);
    write_scale_colors(writer, rule);
    writer.xml_end_tag("colorScale");
    proof {
        lemma_append_4(
            old(writer)@,
            start_tag_text("colorScale"@, Seq::empty()),
            scale_points_text(*rule),
            scale_colors_text(*rule),
            end_tag_text("colorScale"@),
        );
    }
}

/// Writes the element for a rule and its range, where the rule has the rank
/// `priority` among the rules of the worksheet.
pub fn write_conditional_format(
    writer: &mut XMLWriter,
    format: &PlacedConditionalFormat,
    priority: u128,
)
    ensures
        final(writer)@ == old(writer)@ + conditional_format_text(*format, priority as nat),
{
    let mut reference = String::new();
    push_range_ref(
        &mut reference,
        format.range.first_row,
        format.range.first_col,
        format.range.last_row,
        format.range.last_col,
    );
    let attributes: Vec<Attribute> = vec![("sqref", reference)];
    proof {
        assert(attributes_view(attributes@) =~= rule_range_attributes(format.range));
    }
    writer.xml_start_tag("conditionalFormatting", &attributes);
    let mut rank = String::new();
    push_decimal(&mut rank, priority);
    let attributes: Vec<Attribute> = vec![("type", "colorScale".to_owned()), ("priority", rank)];
    proof {
        assert(attributes_view(attributes@) =~= rule_attributes(priority as nat));
    }
    writer.xml_start_tag("cfRule", &attributes);
    write_color_scale(writer, &format.rule);
    writer.xml_end_tag("cfRule");
    writer.xml_end_tag("conditionalFormatting");
    proof {
        lemma_append_5(
            old(writer)@,
            start_tag_text("conditionalFormatting"@, rule_range_attributes(format.range)),
            start_tag_text("cfRule"@, rule_attributes(priority as nat)),
            color_scale_text(format.rule),
            end_tag_text("cfRule"@),
            end_tag_text("conditionalFormatting"@),
        );
    }
}

} // verus!
