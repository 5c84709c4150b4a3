//! Cell formats: the font, fill, border, alignment, protection and number
//! format of a cell, row or column.
//!
//! A format is a plain bundle of properties. Two formats are the same format
//! when all their properties are equal; nothing else identifies a format.

use vstd::prelude::*;
use vstd::string::*;
use crate::registry::Descriptor;

verus! {

/// A colour of a font, a fill or a border.
#[derive(Clone, Copy, Debug, PartialEq, Eq, Structural)]
pub enum Color {
    /// No colour chosen: the application's default for the place.
    Default,
    /// The colour that the application picks by itself.
    Automatic,
    /// A colour by its red, green and blue parts, as `0xRRGGBB`.
    RGB(u32),
    Black,
    Blue,
    Brown,
    Cyan,
    Gray,
    Green,
    Lime,
    Magenta,
    Navy,
    Orange,
    Pink,
    Purple,
    Red,
    Silver,
    White,
    Yellow,
}

impl Color {
    /// The red, green and blue parts of the colour as `0xRRGGBB`. The parts
    /// of `RGB` above 24 bits are dropped. `Default` and `Automatic` have
    /// no parts of their own and give black.
    pub open spec fn rgb_value(&self) -> u32 {
        match self {
            Color::Default => 0x000000,
            Color::Automatic => 0x000000,
            Color::RGB(value) => (*value % 0x100_0000) as u32,
            Color::Black => 0x000000,
            Color::Blue => 0x0000FF,
            Color::Brown => 0x800000,
            Color::Cyan => 0x00FFFF,
            Color::Gray => 0x808080,
            Color::Green => 0x008000,
            Color::Lime => 0x00FF00,
            Color::Magenta => 0xFF00FF,
            Color::Navy => 0x000080,
            Color::Orange => 0xFF6600,
            Color::Pink => 0xFF00FF,
            Color::Purple => 0x800080,
            Color::Red => 0xFF0000,
            Color::Silver => 0xC0C0C0,
            Color::White => 0xFFFFFF,
            Color::Yellow => 0xFFFF00,
        }
    }

    /// The red, green and blue parts of the colour as `0xRRGGBB`.
    pub fn rgb(&self) -> (value: u32)
        ensures
            value == self.rgb_value(),
            value < 0x100_0000,
    {
        match self {
            Color::Default => 0x000000,
            Color::Automatic => 0x000000,
            Color::RGB(value) => *value % 0x100_0000,
            Color::Black => 0x000000,
            Color::Blue => 0x0000FF,
            Color::Brown => 0x800000,
            Color::Cyan => 0x00FFFF,
            Color::Gray => 0x808080,
            Color::Green => 0x008000,
            Color::Lime => 0x00FF00,
            Color::Magenta => 0xFF00FF,
            Color::Navy => 0x000080,
            Color::Orange => 0xFF6600,
            Color::Pink => 0xFF00FF,
            Color::Purple => 0x800080,
            Color::Red => 0xFF0000,
            Color::Silver => 0xC0C0C0,
            Color::White => 0xFFFFFF,
            Color::Yellow => 0xFFFF00,
        }
    }

    /// Whether a colour was chosen.
    pub fn is_set(&self) -> (set: bool)
        ensures
            set == (*self != Color::Default),
    {
        match self {
            Color::Default => false,
            _ => true,
        }
    }
}

/// The pattern of a fill.
#[derive(Clone, Copy, Debug, PartialEq, Eq, Structural)]
pub enum FormatPattern {
    NoPattern,
    Solid,
    MediumGray,
    DarkGray,
    LightGray,
    DarkHorizontal,
    DarkVertical,
    DarkDown,
    DarkUp,
    DarkGrid,
    DarkTrellis,
    LightHorizontal,
    LightVertical,
    LightDown,
    LightUp,
    LightGrid,
    LightTrellis,
    Gray125,
    Gray0625,
}

impl FormatPattern {
    /// The name of the pattern in the styles part.
    pub open spec fn name_text(&self) -> Seq<char> {
        match self {
            FormatPattern::NoPattern => "none"@,
            FormatPattern::Solid => "solid"@,
            FormatPattern::MediumGray => "mediumGray"@,
            FormatPattern::DarkGray => "darkGray"@,
            FormatPattern::LightGray => "lightGray"@,
            FormatPattern::DarkHorizontal => "darkHorizontal"@,
            FormatPattern::DarkVertical => "darkVertical"@,
            FormatPattern::DarkDown => "darkDown"@,
            FormatPattern::DarkUp => "darkUp"@,
            FormatPattern::DarkGrid => "darkGrid"@,
            FormatPattern::DarkTrellis => "darkTrellis"@,
            FormatPattern::LightHorizontal => "lightHorizontal"@,
            FormatPattern::LightVertical => "lightVertical"@,
            FormatPattern::LightDown => "lightDown"@,
            FormatPattern::LightUp => "lightUp"@,
            FormatPattern::LightGrid => "lightGrid"@,
            FormatPattern::LightTrellis => "lightTrellis"@,
            FormatPattern::Gray125 => "gray125"@,
            FormatPattern::Gray0625 => "gray0625"@,
        }
    }

    /// The name of the pattern in the styles part.
    pub fn name(&self) -> (name: &'static str)
        ensures
            name@ == self.name_text(),
    {
        match self {
            FormatPattern::NoPattern => "none",
            FormatPattern::Solid => "solid",
            FormatPattern::MediumGray => "mediumGray",
            FormatPattern::DarkGray => "darkGray",
            FormatPattern::LightGray => "lightGray",
            FormatPattern::DarkHorizontal => "darkHorizontal",
            FormatPattern::DarkVertical => "darkVertical",
            FormatPattern::DarkDown => "darkDown",
            FormatPattern::DarkUp => "darkUp",
            FormatPattern::DarkGrid => "darkGrid",
            FormatPattern::DarkTrellis => "darkTrellis",
            FormatPattern::LightHorizontal => "lightHorizontal",
            FormatPattern::LightVertical => "lightVertical",
            FormatPattern::LightDown => "lightDown",
            FormatPattern::LightUp => "lightUp",
            FormatPattern::LightGrid => "lightGrid",
            FormatPattern::LightTrellis => "lightTrellis",
            FormatPattern::Gray125 => "gray125",
            FormatPattern::Gray0625 => "gray0625",
        }
    }
}

/// The line of a border.
#[derive(Clone, Copy, Debug, PartialEq, Eq, Structural)]
pub enum FormatBorder {
    NoBorder,
    Thin,
    Medium,
    Dashed,
    Dotted,
    Thick,
    Double,
    Hair,
    MediumDashed,
    DashDot,
    MediumDashDot,
    DashDotDot,
    MediumDashDotDot,
    SlantDashDot,
}

impl FormatBorder {
    /// The name of the line in the styles part.
    pub open spec fn name_text(&self) -> Seq<char> {
        match self {
            FormatBorder::NoBorder => "none"@,
            FormatBorder::Thin => "thin"@,
            FormatBorder::Medium => "medium"@,
            FormatBorder::Dashed => "dashed"@,
            FormatBorder::Dotted => "dotted"@,
            FormatBorder::Thick => "thick"@,
            FormatBorder::Double => "double"@,
            FormatBorder::Hair => "hair"@,
            FormatBorder::MediumDashed => "mediumDashed"@,
            FormatBorder::DashDot => "dashDot"@,
            FormatBorder::MediumDashDot => "mediumDashDot"@,
            FormatBorder::DashDotDot => "dashDotDot"@,
            FormatBorder::MediumDashDotDot => "mediumDashDotDot"@,
            FormatBorder::SlantDashDot => "slantDashDot"@,
        }
    }

    /// The name of the line in the styles part.
    pub fn name(&self) -> (name: &'static str)
        ensures
            name@ == self.name_text(),
    {
        match self {
            FormatBorder::NoBorder => "none",
            FormatBorder::Thin => "thin",
            FormatBorder::Medium => "medium",
            FormatBorder::Dashed => "dashed",
            FormatBorder::Dotted => "dotted",
            FormatBorder::Thick => "thick",
            FormatBorder::Double => "double",
            FormatBorder::Hair => "hair",
            FormatBorder::MediumDashed => "mediumDashed",
            FormatBorder::DashDot => "dashDot",
            FormatBorder::MediumDashDot => "mediumDashDot",
            FormatBorder::DashDotDot => "dashDotDot",
            FormatBorder::MediumDashDotDot => "mediumDashDotDot",
            FormatBorder::SlantDashDot => "slantDashDot",
        }
    }
}

/// How the content of a cell is placed across the cell.
#[derive(Clone, Copy, Debug, PartialEq, Eq, Structural)]
pub enum FormatAlign {
    General,
    Left,
    Center,
    Right,
    Fill,
    Justify,
    CenterAcross,
    Distributed,
}

impl FormatAlign {
    /// The name of the alignment in the styles part.
    pub open spec fn name_text(&self) -> Seq<char> {
        match self {
            FormatAlign::General => "general"@,
            FormatAlign::Left => "left"@,
            FormatAlign::Center => "center"@,
            FormatAlign::Right => "right"@,
            FormatAlign::Fill => "fill"@,
            FormatAlign::Justify => "justify"@,
            FormatAlign::CenterAcross => "centerContinuous"@,
            FormatAlign::Distributed => "distributed"@,
        }
    }

    /// The name of the alignment in the styles part.
    pub fn name(&self) -> (name: &'static str)
        ensures
            name@ == self.name_text(),
    {
        match self {
            FormatAlign::General => "general",
            FormatAlign::Left => "left",
            FormatAlign::Center => "center",
            FormatAlign::Right => "right",
            FormatAlign::Fill => "fill",
            FormatAlign::Justify => "justify",
            FormatAlign::CenterAcross => "centerContinuous",
            FormatAlign::Distributed => "distributed",
        }
    }
}

/// How the content of a cell is placed between the top and the bottom of
/// the cell.
#[derive(Clone, Copy, Debug, PartialEq, Eq, Structural)]
pub enum FormatVerticalAlign {
    Bottom,
    Top,
    Center,
    Justify,
    Distributed,
}

impl FormatVerticalAlign {
    /// The name of the alignment in the styles part.
    pub open spec fn name_text(&self) -> Seq<char> {
        match self {
            FormatVerticalAlign::Bottom => "bottom"@,
            FormatVerticalAlign::Top => "top"@,
            FormatVerticalAlign::Center => "center"@,
            FormatVerticalAlign::Justify => "justify"@,
            FormatVerticalAlign::Distributed => "distributed"@,
        }
    }

    /// The name of the alignment in the styles part.
    pub fn name(&self) -> (name: &'static str)
        ensures
            name@ == self.name_text(),
    {
        match self {
            FormatVerticalAlign::Bottom => "bottom",
            FormatVerticalAlign::Top => "top",
            FormatVerticalAlign::Center => "center",
            FormatVerticalAlign::Justify => "justify",
            FormatVerticalAlign::Distributed => "distributed",
        }
    }
}

/// The line under the text of a cell.
#[derive(Clone, Copy, Debug, PartialEq, Eq, Structural)]
pub enum FormatUnderline {
    NoUnderline,
    Single,
    Double,
    SingleAccounting,
    DoubleAccounting,
}

/// The properties of a font other than its name.
#[derive(Clone, Copy, Debug, PartialEq, Eq, Structural)]
pub struct FontStyle {
    pub bold: bool,
    pub italic: bool,
    pub underline: FormatUnderline,
    pub strikethrough: bool,
    pub color: Color,
    /// The size in points.
    pub size: u16,
    /// The family of the font by its number in the file format; 0 leaves
    /// it open.
    pub family: u8,
    /// The character set of the font by its number in the file format; 0
    /// leaves it open.
    pub charset: u8,
}

/// The fill of a cell.
#[derive(Clone, Copy, Debug, PartialEq, Eq, Structural)]
pub struct Fill {
    pub pattern: FormatPattern,
    pub foreground_color: Color,
    pub background_color: Color,
}

impl Fill {
    /// The fill as the styles part states it.
    ///
    /// With a solid pattern the application takes the foreground colour as
    /// the colour of the cell, so a solid fill with both colours has them
    /// swapped. A colour without a pattern is meant as a solid fill: a lone
    /// background colour becomes the foreground colour of a solid fill, and
    /// a lone foreground colour gets the solid pattern.
    pub open spec fn effective(&self) -> Fill {
        let plain = self.pattern == FormatPattern::NoPattern || self.pattern == FormatPattern::Solid;
        if self.pattern == FormatPattern::Solid && self.foreground_color != Color::Default
            && self.background_color != Color::Default {
            Fill {
                pattern: FormatPattern::Solid,
                foreground_color: self.background_color,
                background_color: self.foreground_color,
            }
        } else if plain && self.background_color != Color::Default && self.foreground_color
            == Color::Default {
            Fill {
                pattern: FormatPattern::Solid,
                foreground_color: self.background_color,
                background_color: Color::Default,
            }
        } else if plain && self.background_color == Color::Default && self.foreground_color
            != Color::Default {
            Fill { pattern: FormatPattern::Solid, ..*self }
        } else {
            *self
        }
    }

    /// The fill as the styles part states it.
    pub fn normalized(&self) -> (fill: Fill)
        ensures
            fill == self.effective(),
    {
        let plain = self.pattern == FormatPattern::NoPattern || self.pattern == FormatPattern::Solid;
        if self.pattern == FormatPattern::Solid && self.foreground_color.is_set()
            && self.background_color.is_set() {
            Fill {
                pattern: FormatPattern::Solid,
                foreground_color: self.background_color,
                background_color: self.foreground_color,
            }
        } else if plain && self.background_color.is_set() && !self.foreground_color.is_set() {
            Fill {
                pattern: FormatPattern::Solid,
                foreground_color: self.background_color,
                background_color: Color::Default,
            }
        } else if plain && !self.background_color.is_set() && self.foreground_color.is_set() {
            Fill {
                pattern: FormatPattern::Solid,
                foreground_color: self.foreground_color,
                background_color: self.background_color,
            }
        } else {
            *self
        }
    }
}

/// The border of a cell: one line and one colour for each side.
#[derive(Clone, Copy, Debug, PartialEq, Eq, Structural)]
pub struct Border {
    pub left: FormatBorder,
    pub right: FormatBorder,
    pub top: FormatBorder,
    pub bottom: FormatBorder,
    pub left_color: Color,
    pub right_color: Color,
    pub top_color: Color,
    pub bottom_color: Color,
}

/// The placement of the content in a cell.
#[derive(Clone, Copy, Debug, PartialEq, Eq, Structural)]
pub struct Alignment {
    pub horizontal: FormatAlign,
    pub vertical: FormatVerticalAlign,
    pub text_wrap: bool,
}

/// The protection of a cell in a protected worksheet.
#[derive(Clone, Copy, Debug, PartialEq, Eq, Structural)]
pub struct Protection {
    pub locked: bool,
    pub hidden: bool,
}

/// A font: its name and its other properties.
#[derive(Clone, Debug)]
pub struct Font {
    pub name: String,
    pub style: FontStyle,
}

/// A font as a plain value.
pub struct FontView {
    pub name: Seq<char>,
    pub style: FontStyle,
}

impl View for Font {
    type V = FontView;

    open spec fn view(&self) -> FontView {
        FontView { name: self.name@, style: self.style }
    }
}

impl Descriptor for Font {
    fn same(&self, other: &Self) -> (r: bool) {
        self.name == other.name && self.style == other.style
    }

    fn duplicate(&self) -> (copy: Self) {
        Font { name: self.name.clone(), style: self.style }
    }
}

impl Descriptor for Fill {
    fn same(&self, other: &Self) -> (r: bool) {
        *self == *other
    }

    fn duplicate(&self) -> (copy: Self) {
        *self
    }
}

impl View for Fill {
    type V = Fill;

    open spec fn view(&self) -> Fill {
        *self
    }
}

impl Descriptor for Border {
    fn same(&self, other: &Self) -> (r: bool) {
        *self == *other
    }

    fn duplicate(&self) -> (copy: Self) {
        *self
    }
}

impl View for Border {
    type V = Border;

    open spec fn view(&self) -> Border {
        *self
    }
}

/// The format of a cell, a row or a column.
#[derive(Clone, Debug)]
pub struct Format {
    pub font: Font,
    pub fill: Fill,
    pub border: Border,
    pub alignment: Alignment,
    pub protection: Protection,
    /// The number format as the application writes it, such as `0.00`; the
    /// empty text stands for the general format.
    pub num_format: String,
}

/// A format as a plain value.
pub struct FormatView {
    pub font: FontView,
    pub fill: Fill,
    pub border: Border,
    pub alignment: Alignment,
    pub protection: Protection,
    pub num_format: Seq<char>,
}

impl View for Format {
    type V = FormatView;

    open spec fn view(&self) -> FormatView {
        FormatView {
            font: self.font@,
            fill: self.fill,
            border: self.border,
            alignment: self.alignment,
            protection: self.protection,
            num_format: self.num_format@,
        }
    }
}

impl Descriptor for Format {
    fn same(&self, other: &Self) -> (r: bool) {
        self.font.same(&other.font) && self.fill == other.fill && self.border == other.border
            && self.alignment == other.alignment && self.protection == other.protection
            && self.num_format == other.num_format
    }

    fn duplicate(&self) -> (copy: Self) {
        Format {
            font: self.font.duplicate(),
            fill: self.fill,
            border: self.border,
            alignment: self.alignment,
            protection: self.protection,
            num_format: self.num_format.clone(),
        }
    }
}

/// The name of the default font.
pub open spec fn default_font_name() -> Seq<char> {
    "Calibri"@
}

/// The format of a cell for which nothing was chosen: the default font at
/// 11 points, of the family 2 (the fonts without serifs), no fill, no border, general alignment and number format,
/// locked and not hidden.
pub open spec fn default_format() -> FormatView {
    FormatView {
        font: FontView {
            name: default_font_name(),
            style: FontStyle {
                bold: false,
                italic: false,
                underline: FormatUnderline::NoUnderline,
                strikethrough: false,
                color: Color::Default,
                size: 11,
                family: 2,
                charset: 0,
            },
        },
        fill: Fill {
            pattern: FormatPattern::NoPattern,
            foreground_color: Color::Default,
            background_color: Color::Default,
        },
        border: Border {
            left: FormatBorder::NoBorder,
            right: FormatBorder::NoBorder,
            top: FormatBorder::NoBorder,
            bottom: FormatBorder::NoBorder,
            left_color: Color::Default,
            right_color: Color::Default,
            top_color: Color::Default,
            bottom_color: Color::Default,
        },
        alignment: Alignment {
            horizontal: FormatAlign::General,
            vertical: FormatVerticalAlign::Bottom,
            text_wrap: false,
        },
        protection: Protection { locked: true, hidden: false },
        num_format: Seq::<char>::empty(),
    }
}

impl Default for Format {
    /// The default format.
    fn default() -> (format: Format)
        ensures
            format@ == default_format(),
    {
        Format::new()
    }
}

impl Format {
    /// The default format.
    pub fn new() -> (format: Format)
        ensures
            format@ == default_format(),
    {
        Format {
            font: Font {
                name: "Calibri".to_owned(),
                style: FontStyle {
                    bold: false,
                    italic: false,
                    underline: FormatUnderline::NoUnderline,
                    strikethrough: false,
                    color: Color::Default,
                    size: 11,
                    family: 2,
                    charset: 0,
                },
            },
            fill: Fill {
                pattern: FormatPattern::NoPattern,
                foreground_color: Color::Default,
                background_color: Color::Default,
            },
            border: Border {
                left: FormatBorder::NoBorder,
                right: FormatBorder::NoBorder,
                top: FormatBorder::NoBorder,
                bottom: FormatBorder::NoBorder,
                left_color: Color::Default,
                right_color: Color::Default,
                top_color: Color::Default,
                bottom_color: Color::Default,
            },
            alignment: Alignment {
                horizontal: FormatAlign::General,
                vertical: FormatVerticalAlign::Bottom,
                text_wrap: false,
            },
            protection: Protection { locked: true, hidden: false },
            num_format: String::new(),
        }
    }

    /// Whether this is the default format.
    pub fn is_default(&self) -> (r: bool)
        ensures
            r == (self@ == default_format()),
    {
        let default = Format::new();
        self.same(&default)
    }

    /// Makes the font bold.
    pub fn set_bold(self) -> (format: Format)
        ensures
            format@ == (FormatView {
                font: FontView { style: FontStyle { bold: true, ..self@.font.style }, ..self@.font },
                ..self@
            }),
    {
        let mut format = self;
        format.font.style.bold = true;
        format
    }

    /// Makes the font italic.
    pub fn set_italic(self) -> (format: Format)
        ensures
            format@ == (FormatView {
                font: FontView {
                    style: FontStyle { italic: true, ..self@.font.style },
                    ..self@.font
                },
                ..self@
            }),
    {
        let mut format = self;
        format.font.style.italic = true;
        format
    }

    /// Sets the line under the text.
    pub fn set_underline(self, underline: FormatUnderline) -> (format: Format)
        ensures
            format@ == (FormatView {
                font: FontView { style: FontStyle { underline, ..self@.font.style }, ..self@.font },
                ..self@
            }),
    {
        let mut format = self;
        format.font.style.underline = underline;
        format
    }

    /// Strikes the text through.
    pub fn set_font_strikethrough(self) -> (format: Format)
        ensures
            format@ == (FormatView {
                font: FontView {
                    style: FontStyle { strikethrough: true, ..self@.font.style },
                    ..self@.font
                },
                ..self@
            }),
    {
        let mut format = self;
        format.font.style.strikethrough = true;
        format
    }

    /// Sets the colour of the font.
    pub fn set_font_color(self, color: Color) -> (format: Format)
        ensures
            format@ == (FormatView {
                font: FontView { style: FontStyle { color, ..self@.font.style }, ..self@.font },
                ..self@
            }),
    {
        let mut format = self;
        format.font.style.color = color;
        format
    }

    /// Makes the text look like a link: underlined, in the blue of links.
    pub fn set_hyperlink(self) -> (format: Format)
        ensures
            format@ == (FormatView {
                font: FontView {
                    style: FontStyle {
                        underline: FormatUnderline::Single,
                        color: Color::RGB(0x0563C1),
                        ..self@.font.style
                    },
                    ..self@.font
                },
                ..self@
            }),
    {
        let mut format = self;
        format.font.style.underline = FormatUnderline::Single;
        format.font.style.color = Color::RGB(0x0563C1);
        format
    }

    /// Sets the size of the font in points.
    pub fn set_font_size(self, size: u16) -> (format: Format)
        ensures
            format@ == (FormatView {
                font: FontView { style: FontStyle { size, ..self@.font.style }, ..self@.font },
                ..self@
            }),
    {
        let mut format = self;
        format.font.style.size = size;
        format
    }

    /// Sets the family of the font, by its number in the file format.
    pub fn set_font_family(self, family: u8) -> (format: Format)
        ensures
            format@ == (FormatView {
                font: FontView { style: FontStyle { family, ..self@.font.style }, ..self@.font },
                ..self@
            }),
    {
        let mut format = self;
        format.font.style.family = family;
        format
    }

    /// Sets the character set of the font, by its number in the file
    /// format.
    pub fn set_font_charset(self, charset: u8) -> (format: Format)
        ensures
            format@ == (FormatView {
                font: FontView { style: FontStyle { charset, ..self@.font.style }, ..self@.font },
                ..self@
            }),
    {
        let mut format = self;
        format.font.style.charset = charset;
        format
    }

    /// Sets the name of the font.
    pub fn set_font_name(self, name: &str) -> (format: Format)
        ensures
            format@ == (FormatView { font: FontView { name: name@, ..self@.font }, ..self@ }),
    {
        let mut format = self;
        format.font.name = name.to_owned();
        format
    }

    /// Sets the number format, as the application writes it.
    pub fn set_num_format(self, num_format: &str) -> (format: Format)
        ensures
            format@ == (FormatView { num_format: num_format@, ..self@ }),
    {
        let mut format = self;
        format.num_format = num_format.to_owned();
        format
    }

    /// Sets the pattern of the fill.
    pub fn set_pattern(self, pattern: FormatPattern) -> (format: Format)
        ensures
            format@ == (FormatView { fill: Fill { pattern, ..self@.fill }, ..self@ }),
    {
        let mut format = self;
        format.fill.pattern = pattern;
        format
    }

    /// Sets the foreground colour of the fill.
    pub fn set_foreground_color(self, color: Color) -> (format: Format)
        ensures
            format@ == (FormatView { fill: Fill { foreground_color: color, ..self@.fill }, ..self@ }),
    {
        let mut format = self;
        format.fill.foreground_color = color;
        format
    }

    /// Sets the background colour of the fill.
    pub fn set_background_color(self, color: Color) -> (format: Format)
        ensures
            format@ == (FormatView { fill: Fill { background_color: color, ..self@.fill }, ..self@ }),
    {
        let mut format = self;
        format.fill.background_color = color;
        format
    }

    /// Sets the line of all four sides of the border.
    pub fn set_border(self, border: FormatBorder) -> (format: Format)
        ensures
            format@ == (FormatView {
                border: Border {
                    left: border,
                    right: border,
                    top: border,
                    bottom: border,
                    ..self@.border
                },
                ..self@
            }),
    {
        let mut format = self;
        format.border.left = border;
        format.border.right = border;
        format.border.top = border;
        format.border.bottom = border;
        format
    }

    /// Sets the colour of all four sides of the border.
    pub fn set_border_color(self, color: Color) -> (format: Format)
        ensures
            format@ == (FormatView {
                border: Border {
                    left_color: color,
                    right_color: color,
                    top_color: color,
                    bottom_color: color,
                    ..self@.border
                },
                ..self@
            }),
    {
        let mut format = self;
        format.border.left_color = color;
        format.border.right_color = color;
        format.border.top_color = color;
        format.border.bottom_color = color;
        format
    }

    /// Sets the placement of the content across the cell.
    pub fn set_align(self, align: FormatAlign) -> (format: Format)
        ensures
            format@ == (FormatView {
                alignment: Alignment { horizontal: align, ..self@.alignment },
                ..self@
            }),
    {
        let mut format = self;
        format.alignment.horizontal = align;
        format
    }

    /// Sets the placement of the content between top and bottom.
    pub fn set_vertical_align(self, align: FormatVerticalAlign) -> (format: Format)
        ensures
            format@ == (FormatView {
                alignment: Alignment { vertical: align, ..self@.alignment },
                ..self@
            }),
    {
        let mut format = self;
        format.alignment.vertical = align;
        format
    }

    /// Lets the text wrap inside the cell.
    pub fn set_text_wrap(self) -> (format: Format)
        ensures
            format@ == (FormatView {
                alignment: Alignment { text_wrap: true, ..self@.alignment },
                ..self@
            }),
    {
        let mut format = self;
        format.alignment.text_wrap = true;
        format
    }

    /// Leaves the cell open to changes in a protected worksheet.
    pub fn set_unlocked(self) -> (format: Format)
        ensures
            format@ == (FormatView {
                protection: Protection { locked: false, ..self@.protection },
                ..self@
            }),
    {
        let mut format = self;
        format.protection.locked = false;
        format
    }

    /// Hides the formula of the cell in a protected worksheet.
    pub fn set_hidden(self) -> (format: Format)
        ensures
            format@ == (FormatView {
                protection: Protection { hidden: true, ..self@.protection },
                ..self@
            }),
    {
        let mut format = self;
        format.protection.hidden = true;
        format
    }
}

} // verus!
