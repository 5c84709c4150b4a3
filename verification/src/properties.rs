//! The properties of a document: who wrote it, what it is about, and when
//! it was made.

use vstd::prelude::*;
use vstd::string::*;
use crate::error::XlsxError;
use crate::number::Number;
use crate::utility::{digit_char, push_char};

verus! {

/// Whether `year` is a leap year of the Gregorian calendar.
pub open spec fn is_leap_year(year: int) -> bool {
    (year % 4 == 0 && year % 100 != 0) || year % 400 == 0
}

/// The number of days of the month `month` of the year `year`.
pub open spec fn days_in_month(year: int, month: int) -> int {
    if month == 2 {
        if is_leap_year(year) {
            29
        } else {
            28
        }
    } else if month == 4 || month == 6 || month == 9 || month == 11 {
        30
    } else {
        31
    }
}

/// Whether the day `day` of the month `month` of the year `year` exists and
/// lies in the years 1900 to 9999.
pub open spec fn is_date(year: int, month: int, day: int) -> bool {
    1900 <= year <= 9999 && 1 <= month <= 12 && 1 <= day <= days_in_month(year, month)
}

/// Whether `hour:min:sec` is a time of day.
pub open spec fn is_time(hour: int, min: int, sec: int) -> bool {
    0 <= hour < 24 && 0 <= min < 60 && 0 <= sec < 60
}

/// The last two digits of a number.
pub open spec fn two_digit_text(n: int) -> Seq<char> {
    seq![digit_char(n / 10 % 10), digit_char(n % 10)]
}

/// The last four digits of a number.
pub open spec fn four_digit_text(n: int) -> Seq<char> {
    two_digit_text(n / 100 % 100) + two_digit_text(n % 100)
}

/// A date and a time of day, in universal time.
#[derive(Clone, Copy, Debug, PartialEq, Eq, Structural)]
pub struct ExcelDateTime {
    pub year: u16,
    pub month: u8,
    pub day: u8,
    pub hour: u8,
    pub min: u8,
    pub sec: u8,
}

/// Appends the last two digits of a number.
fn push_two_digits(out: &mut String, n: u8)
    ensures
        final(out)@ == old(out)@ + two_digit_text(n as int),
{
    push_char(out, (48u8 + n / 10 % 10) as char);
    push_char(out, (48u8 + n % 10) as char);
    proof {
        assert(out@ =~= old(out)@ + two_digit_text(n as int));
    }
}

impl ExcelDateTime {
    /// The date exists, and the time is a time of day.
    pub open spec fn wf(&self) -> bool {
        is_date(self.year as int, self.month as int, self.day as int) && is_time(
            self.hour as int,
            self.min as int,
            self.sec as int,
        )
    }

    /// The date and time in the form `2010-01-01T00:00:00Z`.
    pub open spec fn iso_text(&self) -> Seq<char> {
        four_digit_text(self.year as int) + seq!['-'] + two_digit_text(self.month as int) + seq![
            '-',
        ] + two_digit_text(self.day as int) + seq!['T'] + two_digit_text(self.hour as int) + seq![
            ':',
        ] + two_digit_text(self.min as int) + seq![':'] + two_digit_text(self.sec as int) + seq![
            'Z',
        ]
    }

    /// The beginning of the day `day` of the month `month` of the year
    /// `year`.
    ///
    /// Fails with `DateTimeRangeError` where the day does not exist or the
    /// year lies outside 1900 to 9999.
    pub fn from_ymd(year: u16, month: u8, day: u8) -> (result: Result<ExcelDateTime, XlsxError>)
        ensures
            result is Ok <==> is_date(year as int, month as int, day as int),
            result matches Ok(date) ==> date == (ExcelDateTime {
                year,
                month,
                day,
                hour: 0,
                min: 0,
                sec: 0,
            }) && date.wf(),
            result matches Err(e) ==> e == XlsxError::DateTimeRangeError,
    {
        if year < 1900 || year > 9999 || month < 1 || month > 12 || day < 1 {
            return Err(XlsxError::DateTimeRangeError);
        }
        let leap = (year % 4 == 0 && year % 100 != 0) || year % 400 == 0;
        let days: u8 = if month == 2 {
            if leap {
                29
            } else {
                28
            }
        } else if month == 4 || month == 6 || month == 9 || month == 11 {
            30
        } else {
            31
        };
        if day > days {
            return Err(XlsxError::DateTimeRangeError);
        }
        Ok(ExcelDateTime { year, month, day, hour: 0, min: 0, sec: 0 })
    }

    /// The same day at the time `hour:min:sec`.
    ///
    /// Fails with `DateTimeRangeError` where this is no time of day.
    pub fn and_hms(self, hour: u8, min: u8, sec: u8) -> (result: Result<ExcelDateTime, XlsxError>)
        ensures
            result is Ok <==> is_time(hour as int, min as int, sec as int),
            result matches Ok(date) ==> date == (ExcelDateTime { hour, min, sec, ..self }),
            result matches Err(e) ==> e == XlsxError::DateTimeRangeError,
    {
        if hour >= 24 || min >= 60 || sec >= 60 {
            return Err(XlsxError::DateTimeRangeError);
        }
        Ok(ExcelDateTime { year: self.year, month: self.month, day: self.day, hour, min, sec })
    }

    /// The date and time in the form `2010-01-01T00:00:00Z`.
    pub fn to_iso_string(&self) -> (text: String)
        ensures
            text@ == self.iso_text(),
    {
        let mut text = String::new();
        push_two_digits(&mut text, (self.year / 100 % 100) as u8);
        push_two_digits(&mut text, (self.year % 100) as u8);
        push_char(&mut text, '-');
        push_two_digits(&mut text, self.month);
        push_char(&mut text, '-');
        push_two_digits(&mut text, self.day);
        push_char(&mut text, 'T');
        push_two_digits(&mut text, self.hour);
        push_char(&mut text, ':');
        push_two_digits(&mut text, self.min);
        push_char(&mut text, ':');
        push_two_digits(&mut text, self.sec);
        push_char(&mut text, 'Z');
        proof {
            assert(text@ =~= self.iso_text());
        }
        text
    }
}

/// The value of a property of a document's own making.
#[derive(Clone, Debug)]
pub enum PropertyValue {
    Text(String),
    DateTime(ExcelDateTime),
    Integer(i32),
    Real(Number),
    Bool(bool),
}

/// The value of a property as a plain value.
pub enum PropertyValueView {
    Text(Seq<char>),
    DateTime(ExcelDateTime),
    Integer(i32),
    Real(Seq<char>),
    Bool(bool),
}

impl View for PropertyValue {
    type V = PropertyValueView;

    open spec fn view(&self) -> PropertyValueView {
        match self {
            PropertyValue::Text(text) => PropertyValueView::Text(text@),
            PropertyValue::DateTime(date) => PropertyValueView::DateTime(*date),
            PropertyValue::Integer(n) => PropertyValueView::Integer(*n),
            PropertyValue::Real(n) => PropertyValueView::Real(n@),
            PropertyValue::Bool(b) => PropertyValueView::Bool(*b),
        }
    }
}

impl PropertyValue {
    /// A copy of the value.
    pub fn duplicate(&self) -> (copy: PropertyValue)
        ensures
            copy@ == self@,
    {
        match self {
            PropertyValue::Text(text) => PropertyValue::Text(text.clone()),
            PropertyValue::DateTime(date) => PropertyValue::DateTime(*date),
            PropertyValue::Integer(n) => PropertyValue::Integer(*n),
            PropertyValue::Real(n) => PropertyValue::Real(n.duplicate()),
            PropertyValue::Bool(b) => PropertyValue::Bool(*b),
        }
    }
}

/// A property of a document's own making: its name and its value.
#[derive(Clone, Debug)]
pub struct CustomProperty {
    pub name: String,
    pub value: PropertyValue,
}

/// A property of a document's own making as a plain value.
pub struct CustomPropertyView {
    pub name: Seq<char>,
    pub value: PropertyValueView,
}

impl View for CustomProperty {
    type V = CustomPropertyView;

    open spec fn view(&self) -> CustomPropertyView {
        CustomPropertyView { name: self.name@, value: self.value@ }
    }
}

/// The properties `properties` as plain values.
pub open spec fn custom_properties_view(properties: Seq<CustomProperty>) -> Seq<CustomPropertyView> {
    Seq::new(properties.len(), |i: int| properties[i]@)
}

/// The properties that a workbook carries in its metadata parts. An empty
/// text stands for a property that is not set.
#[derive(Clone, Debug)]
pub struct DocProperties {
    pub title: String,
    pub subject: String,
    pub author: String,
    pub manager: String,
    pub company: String,
    pub category: String,
    pub keywords: String,
    pub comment: String,
    pub status: String,
    pub hyperlink_base: String,
    /// The time of creation in the form `2010-01-01T00:00:00Z`.
    pub creation_time: String,
    /// The properties of the document's own making, in the order in which
    /// they were set.
    pub custom_properties: Vec<CustomProperty>,
}

/// The time of creation of a document whose properties leave it open.
pub open spec fn default_creation_time() -> Seq<char> {
    "1970-01-01T00:00:00Z"@
}

impl DocProperties {
    /// Properties of which none is set; the time of creation is the default.
    pub fn new() -> (properties: DocProperties)
        ensures
            properties.title@.len() == 0,
            properties.subject@.len() == 0,
            properties.author@.len() == 0,
            properties.manager@.len() == 0,
            properties.company@.len() == 0,
            properties.category@.len() == 0,
            properties.keywords@.len() == 0,
            properties.comment@.len() == 0,
            properties.status@.len() == 0,
            properties.hyperlink_base@.len() == 0,
            properties.creation_time@ == default_creation_time(),
            properties.custom_properties@.len() == 0,
    {
        DocProperties {
            title: String::new(),
            subject: String::new(),
            author: String::new(),
            manager: String::new(),
            company: String::new(),
            category: String::new(),
            keywords: String::new(),
            comment: String::new(),
            status: String::new(),
            hyperlink_base: String::new(),
            creation_time: "1970-01-01T00:00:00Z".to_owned(),
            custom_properties: Vec::new(),
        }
    }

    /// A copy of the properties.
    pub fn duplicate(&self) -> (properties: DocProperties)
        ensures
            properties.title@ == self.title@,
            properties.subject@ == self.subject@,
            properties.author@ == self.author@,
            properties.manager@ == self.manager@,
            properties.company@ == self.company@,
            properties.category@ == self.category@,
            properties.keywords@ == self.keywords@,
            properties.comment@ == self.comment@,
            properties.status@ == self.status@,
            properties.hyperlink_base@ == self.hyperlink_base@,
            properties.creation_time@ == self.creation_time@,
            custom_properties_view(properties.custom_properties@) == custom_properties_view(
                self.custom_properties@,
            ),
    {
        let mut custom: Vec<CustomProperty> = Vec::new();
        let mut i: usize = 0;
        while i < self.custom_properties.len()
            invariant
                i <= self.custom_properties@.len(),
                custom@.len() == i,
                forall|k: int| 0 <= k < i ==> (#[trigger] custom@[k])@ == self.custom_properties@[k]@,
            decreases self.custom_properties.len() - i,
        {
            custom.push(
                CustomProperty {
                    name: self.custom_properties[i].name.clone(),
                    value: self.custom_properties[i].value.duplicate(),
                },
            );
            i += 1;
        }
        proof {
            assert(custom_properties_view(custom@) =~= custom_properties_view(
                self.custom_properties@,
            ));
        }
        DocProperties {
            title: self.title.clone(),
            subject: self.subject.clone(),
            author: self.author.clone(),
            manager: self.manager.clone(),
            company: self.company.clone(),
            category: self.category.clone(),
            keywords: self.keywords.clone(),
            comment: self.comment.clone(),
            status: self.status.clone(),
            hyperlink_base: self.hyperlink_base.clone(),
            creation_time: self.creation_time.clone(),
            custom_properties: custom,
        }
    }

    /// Adds a property of the document's own making.
    pub fn set_custom_property(self, name: &str, value: PropertyValue) -> (properties:
        DocProperties)
        ensures
            custom_properties_view(properties.custom_properties@) == custom_properties_view(
                self.custom_properties@,
            ).push(CustomPropertyView { name: name@, value: value@ }),
            properties == (DocProperties {
                custom_properties: properties.custom_properties,
                ..self
            }),
    {
        let mut properties = self;
        let ghost before = properties.custom_properties@;
        properties.custom_properties.push(CustomProperty { name: name.to_owned(), value });
        proof {
            assert(custom_properties_view(properties.custom_properties@)
                =~= custom_properties_view(before).push(
                CustomPropertyView { name: name@, value: value@ },
            ));
        }
        properties
    }

    /// Sets the title of the document.
    pub fn set_title(self, title: &str) -> (properties: DocProperties)
        ensures
            properties.title@ == title@,
            properties == (DocProperties { title: properties.title, ..self }),
    {
        DocProperties { title: title.to_owned(), ..self }
    }

    /// Sets the subject of the document.
    pub fn set_subject(self, subject: &str) -> (properties: DocProperties)
        ensures
            properties.subject@ == subject@,
            properties == (DocProperties { subject: properties.subject, ..self }),
    {
        DocProperties { subject: subject.to_owned(), ..self }
    }

    /// Sets the author of the document.
    pub fn set_author(self, author: &str) -> (properties: DocProperties)
        ensures
            properties.author@ == author@,
            properties == (DocProperties { author: properties.author, ..self }),
    {
        DocProperties { author: author.to_owned(), ..self }
    }

    /// Sets the manager named in the document.
    pub fn set_manager(self, manager: &str) -> (properties: DocProperties)
        ensures
            properties.manager@ == manager@,
            properties == (DocProperties { manager: properties.manager, ..self }),
    {
        DocProperties { manager: manager.to_owned(), ..self }
    }

    /// Sets the company named in the document.
    pub fn set_company(self, company: &str) -> (properties: DocProperties)
        ensures
            properties.company@ == company@,
            properties == (DocProperties { company: properties.company, ..self }),
    {
        DocProperties { company: company.to_owned(), ..self }
    }

    /// Sets the category of the document.
    pub fn set_category(self, category: &str) -> (properties: DocProperties)
        ensures
            properties.category@ == category@,
            properties == (DocProperties { category: properties.category, ..self }),
    {
        DocProperties { category: category.to_owned(), ..self }
    }

    /// Sets the keywords of the document.
    pub fn set_keywords(self, keywords: &str) -> (properties: DocProperties)
        ensures
            properties.keywords@ == keywords@,
            properties == (DocProperties { keywords: properties.keywords, ..self }),
    {
        DocProperties { keywords: keywords.to_owned(), ..self }
    }

    /// Sets the comment of the document.
    pub fn set_comment(self, comment: &str) -> (properties: DocProperties)
        ensures
            properties.comment@ == comment@,
            properties == (DocProperties { comment: properties.comment, ..self }),
    {
        DocProperties { comment: comment.to_owned(), ..self }
    }

    /// Sets the status of the document.
    pub fn set_status(self, status: &str) -> (properties: DocProperties)
        ensures
            properties.status@ == status@,
            properties == (DocProperties { status: properties.status, ..self }),
    {
        DocProperties { status: status.to_owned(), ..self }
    }

    /// Sets the base address for the hyperlinks of the document.
    pub fn set_hyperlink_base(self, hyperlink_base: &str) -> (properties: DocProperties)
        ensures
            properties.hyperlink_base@ == hyperlink_base@,
            properties == (DocProperties { hyperlink_base: properties.hyperlink_base, ..self }),
    {
        DocProperties { hyperlink_base: hyperlink_base.to_owned(), ..self }
    }

    /// Sets the time of creation, in the form `2010-01-01T00:00:00Z`.
    pub fn set_creation_datetime(self, creation_time: &str) -> (properties: DocProperties)
        ensures
            properties.creation_time@ == creation_time@,
            properties == (DocProperties { creation_time: properties.creation_time, ..self }),
    {
        DocProperties { creation_time: creation_time.to_owned(), ..self }
    }
}

} // verus!
