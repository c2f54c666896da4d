//! EXIF metadata: the fields this program reads, the text they are turned
//! into, and the date, camera model and GPS entries of [`ExifData`].

use vstd::prelude::*;

use chrono::Datelike;
use vstd::utf8::{decode_utf8, valid_utf8};

use crate::calendar::{month_name_of, two_digits, valid_calendar_date, year_text};
use crate::models::ExifData;
use crate::text::{decode_utf8_text, trim_white_space, trimmed};

verus! {

/// The EXIF tags this program reads from the primary image.
#[derive(Debug, Clone, Copy, PartialEq, Eq, Structural)]
pub enum ExifTag {
    DateTime,
    Model,
    GpsLatitude,
    GpsLongitude,
}

/// The value of an EXIF field, as far as this program reads it: the parts
/// of an ASCII field as raw bytes, or, for any other field type, the text
/// that the EXIF reader's `Debug` rendering gives.
#[derive(Debug)]
pub enum ExifValue {
    Ascii(Vec<Vec<u8>>),
    Other(String),
}

/// The value of field `tag` of the primary image in the EXIF data that
/// kamadak-exif finds in the image file `bytes`: `None` when no EXIF
/// container can be read from them, `Some(None)` when the field is absent.
pub uninterp spec fn exif_primary_field(bytes: Seq<u8>, tag: ExifTag) -> Option<Option<ExifValue>>;

/// kamadak-exif's `Reader::read_from_container` on the file contents, then
/// `Exif::get_field(tag, In::PRIMARY)`. The contract names the result, a
/// function of the bytes and the tag; what the reader finds in which image
/// format is not restated.
#[verifier::external_body]
fn read_primary_field(bytes: &[u8], tag: ExifTag) -> (r: Option<Option<ExifValue>>)
    ensures
        r == exif_primary_field(bytes@, tag),
{
    let reader = exif::Reader::new();
    let Ok(found) = reader.read_from_container(&mut std::io::Cursor::new(bytes)) else {
        return None;
    };
    let tag = match tag {
        ExifTag::DateTime => exif::Tag::DateTime,
        ExifTag::Model => exif::Tag::Model,
        ExifTag::GpsLatitude => exif::Tag::GPSLatitude,
        ExifTag::GpsLongitude => exif::Tag::GPSLongitude,
    };
    match found.get_field(tag, exif::In::PRIMARY).map(|field| &field.value) {
        Some(exif::Value::Ascii(parts)) => Some(Some(ExifValue::Ascii(parts.clone()))),
        Some(other) => Some(Some(ExifValue::Other(format!("{other:?}")))),
        None => Some(None),
    }
}

/// The text of the ASCII parts that are well-formed UTF-8, in order; the
/// others are left out.
pub open spec fn decoded_parts(parts: Seq<Vec<u8>>) -> Seq<char>
    decreases parts.len(),
{
    if parts.len() == 0 {
        seq![]
    } else {
        let rest = decoded_parts(parts.drop_last());
        let last = parts.last()@;
        if valid_utf8(last) {
            rest + decode_utf8(last)
        } else {
            rest
        }
    }
}

/// The text of an EXIF value.
pub open spec fn field_text(value: ExifValue) -> Seq<char> {
    match value {
        ExifValue::Ascii(parts) => decoded_parts(parts@),
        ExifValue::Other(rendered) => rendered@,
    }
}

/// Turns an EXIF value into text: the parts of an ASCII value that are
/// valid UTF-8, joined; the rendering of any other value.
pub fn field_to_string(value: &ExifValue) -> (r: String)
    ensures
        r@ == field_text(*value),
{
    match value {
        ExifValue::Ascii(parts) => {
            let mut out = String::new();
            let n = parts.len();
            let mut i: usize = 0;
            while i < n
                invariant
                    n == parts@.len(),
                    i <= n,
                    out@ == decoded_parts(parts@.take(i as int)),
                decreases n - i,
            {
                assert(parts@.take(i + 1).drop_last() =~= parts@.take(i as int));
                if let Some(text) = decode_utf8_text(parts[i].as_slice()) {
                    out.append(text.as_str());
                }
                i = i + 1;
            }
            assert(parts@.take(n as int) =~= parts@);
            out
        },
        ExifValue::Other(rendered) => rendered.clone(),
    }
}


/// The calendar date (year, month, day) of the date and time that chrono's
/// `NaiveDateTime::parse_from_str` reads from `text` by `pattern`, or
/// `None` when the text does not match.
pub uninterp spec fn parsed_calendar_date(text: Seq<char>, pattern: Seq<char>) -> Option<(i32, u32, u32)>;

/// chrono's `NaiveDateTime::parse_from_str`, keeping the date. The contract
/// names the result, a function of the text and the pattern, and states the
/// one fact callers need: a parsed date is a valid calendar date, as every
/// `NaiveDate` is.
#[verifier::external_body]
fn parse_calendar_date(text: &str, pattern: &str) -> (r: Option<(i32, u32, u32)>)
    ensures
        r == parsed_calendar_date(text@, pattern@),
        r matches Some((y, m, d)) ==> valid_calendar_date(y, m, d),
{
    match chrono::NaiveDateTime::parse_from_str(text, pattern) {
        Ok(parsed) => Some((parsed.year(), parsed.month(), parsed.day())),
        Err(_) => None,
    }
}

/// The parts of a date that a folder name is made of.
#[derive(Debug, Clone, Copy, PartialEq, Eq, Structural)]
pub enum DateField {
    /// `%Y`, the year.
    Year,
    /// `%m`, the month number.
    Month,
    /// `%d`, the day of the month.
    Day,
    /// `%B`, the English month name.
    MonthName,
}

/// chrono's `NaiveDate::from_ymd_opt` followed by `format` with `%Y`, `%m`,
/// `%d` or `%B`. The contract states what chrono's formatting code writes:
/// the year in four zero-padded digits from 0 to 9999 and otherwise with a
/// sign and at least four digits, month and day in two digits, and the
/// English month name. The date must be valid, so that `from_ymd_opt`
/// yields a date.
#[verifier::external_body]
fn format_date_field(year: i32, month: u32, day: u32, field: DateField) -> (r: String)
    requires
        valid_calendar_date(year, month, day),
    ensures
        field == DateField::Year ==> r@ == year_text(year as int),
        field == DateField::Month ==> r@ == two_digits(month as int),
        field == DateField::Day ==> r@ == two_digits(day as int),
        field == DateField::MonthName ==> r@ == month_name_of(month as int),
{
    let pattern = match field {
        DateField::Year => "%Y",
        DateField::Month => "%m",
        DateField::Day => "%d",
        DateField::MonthName => "%B",
    };
    chrono::NaiveDate::from_ymd_opt(year, month, day).unwrap().format(pattern).to_string()
}

/// The layout of the EXIF DateTime field, `YYYY:MM:DD HH:MM:SS`.
pub open spec fn exif_date_time_pattern() -> Seq<char> {
    "%Y:%m:%d %H:%M:%S"@
}

/// The date fields that a DateTime text gives: year, month, day and month
/// name, and the warning text. A text that parses (once white space around
/// it is dropped) gives its own date, the year in four digits, month and day
/// in two, the English month name, and no warning; one that does not gives
/// 2000-01-01 and, as warning, the text without surrounding white space.
pub open spec fn date_fields_of(text: Seq<char>) -> (
    Seq<char>,
    Seq<char>,
    Seq<char>,
    Seq<char>,
    Option<Seq<char>>,
) {
    let t = trimmed(text);
    match parsed_calendar_date(t, exif_date_time_pattern()) {
        Some((y, m, d)) => (
            year_text(y as int),
            two_digits(m as int),
            two_digits(d as int),
            month_name_of(m as int),
            None,
        ),
        None => ("2000"@, "01"@, "01"@, month_name_of(1), Some(t)),
    }
}

/// The text an optional string holds.
pub open spec fn text_of(s: Option<String>) -> Option<Seq<char>> {
    match s {
        Some(s) => Some(s@),
        None => None,
    }
}

/// The date fields of `data` hang together: year, month, day and month
/// name are all present or all absent; the month is two digits naming a
/// month from 1 to 12, and the month name is that month's English name; the
/// day is two digits from 01 to 31; and a date warning comes with the
/// 2000-01-01 fallback.
pub open spec fn dates_consistent(data: ExifData) -> bool {
    &&& (data.year is Some <==> data.month is Some)
    &&& (data.month is Some <==> data.day is Some)
    &&& (data.day is Some <==> data.month_name is Some)
    &&& data.month matches Some(m) ==> exists|k: int|
        1 <= k <= 12 && m@ == #[trigger] two_digits(k) && text_of(data.month_name) == Some(
            month_name_of(k),
        )
    &&& data.day matches Some(d) ==> exists|k: int| 1 <= k <= 31 && d@ == #[trigger] two_digits(k)
    &&& data.date_warning is Some ==> {
        &&& text_of(data.year) == Some("2000"@)
        &&& text_of(data.month) == Some("01"@)
        &&& text_of(data.day) == Some("01"@)
        &&& text_of(data.month_name) == Some("January"@)
    }
}

/// Whether `data` is what the four EXIF values give: the date fields from
/// DateTime, the camera model as the Model text without surrounding white
/// space, latitude and longitude as their texts.
pub open spec fn describes(
    data: ExifData,
    date_time: Option<ExifValue>,
    model: Option<ExifValue>,
    latitude: Option<ExifValue>,
    longitude: Option<ExifValue>,
) -> bool {
    &&& match date_time {
        None => {
            &&& data.year is None
            &&& data.month is None
            &&& data.day is None
            &&& data.month_name is None
            &&& data.date_warning is None
        },
        Some(v) => {
            let (y, m, d, mn, w) = date_fields_of(field_text(v));
            &&& text_of(data.year) == Some(y)
            &&& text_of(data.month) == Some(m)
            &&& text_of(data.day) == Some(d)
            &&& text_of(data.month_name) == Some(mn)
            &&& text_of(data.date_warning) == w
        },
    }
    &&& text_of(data.camera_model) == match model {
        Some(v) => Some(trimmed(field_text(v))),
        None => None,
    }
    &&& text_of(data.gps_lat) == match latitude {
        Some(v) => Some(field_text(v)),
        None => None,
    }
    &&& text_of(data.gps_lon) == match longitude {
        Some(v) => Some(field_text(v)),
        None => None,
    }
}

/// Metadata described by four EXIF values holds a field exactly when its
/// EXIF value is there: a camera model exactly when there is a Model value
/// (none is made up when it is missing), latitude and longitude exactly when
/// theirs are there, and year, month, day and month name exactly when there
/// is a DateTime value.
pub proof fn lemma_fields_present_exactly_when_read(
    data: ExifData,
    date_time: Option<ExifValue>,
    model: Option<ExifValue>,
    latitude: Option<ExifValue>,
    longitude: Option<ExifValue>,
)
    requires
        describes(data, date_time, model, latitude, longitude),
    ensures
        data.camera_model is Some <==> model is Some,
        data.gps_lat is Some <==> latitude is Some,
        data.gps_lon is Some <==> longitude is Some,
        data.year is Some <==> date_time is Some,
        data.month is Some <==> date_time is Some,
        data.day is Some <==> date_time is Some,
        data.month_name is Some <==> date_time is Some,
        date_time is None ==> data.date_warning is None,
{
}

/// Fills the date fields from the text of a DateTime field: a text that
/// reads as `YYYY:MM:DD HH:MM:SS` gives its year, month, day and month name;
/// any other gives 2000-01-01 and keeps the text as a warning.
fn fill_date(data: &mut ExifData, raw: &str)
    ensures
        ({
            let (y, m, d, mn, w) = date_fields_of(raw@);
            &&& text_of(final(data).year) == Some(y)
            &&& text_of(final(data).month) == Some(m)
            &&& text_of(final(data).day) == Some(d)
            &&& text_of(final(data).month_name) == Some(mn)
            &&& text_of(final(data).date_warning) == w
        }),
        dates_consistent(*final(data)),
        final(data).camera_model == old(data).camera_model,
        final(data).gps_lat == old(data).gps_lat,
        final(data).gps_lon == old(data).gps_lon,
{
    let text = trim_white_space(raw);
    match parse_calendar_date(text, "%Y:%m:%d %H:%M:%S") {
        Some((y, m, d)) => {
            data.year = Some(format_date_field(y, m, d, DateField::Year));
            data.month = Some(format_date_field(y, m, d, DateField::Month));
            data.day = Some(format_date_field(y, m, d, DateField::Day));
            data.month_name = Some(format_date_field(y, m, d, DateField::MonthName));
            data.date_warning = None;
        },
        None => {
            proof {
                reveal_strlit("01");
                assert("01"@ =~= two_digits(1));
            }
            data.year = Some(String::from_str("2000"));
            data.month = Some(String::from_str("01"));
            data.day = Some(String::from_str("01"));
            data.month_name = Some(format_date_field(2000, 1, 1, DateField::MonthName));
            data.date_warning = Some(String::from_str(text));
        },
    }
}

/// Builds the metadata from the four EXIF values read from an image.
pub fn exif_data_from_values(
    date_time: Option<ExifValue>,
    model: Option<ExifValue>,
    latitude: Option<ExifValue>,
    longitude: Option<ExifValue>,
) -> (r: ExifData)
    ensures
        describes(r, date_time, model, latitude, longitude),
        dates_consistent(r),
        r.camera_model is Some <==> model is Some,
        r.gps_lat is Some <==> latitude is Some,
        r.gps_lon is Some <==> longitude is Some,
        r.year is Some <==> date_time is Some,
        r.month_name is Some <==> date_time is Some,
{
    let mut data = ExifData::default();
    if let Some(v) = &date_time {
        let raw = field_to_string(v);
        fill_date(&mut data, raw.as_str());
    }
    if let Some(v) = &model {
        let raw = field_to_string(v);
        data.camera_model = Some(String::from_str(trim_white_space(raw.as_str())));
    }
    if let Some(v) = &latitude {
        data.gps_lat = Some(field_to_string(v));
    }
    if let Some(v) = &longitude {
        data.gps_lon = Some(field_to_string(v));
    }
    data
}

/// The field value when the EXIF data was read and holds the field.
pub open spec fn present(read: Option<Option<ExifValue>>) -> Option<ExifValue> {
    match read {
        Some(Some(v)) => Some(v),
        _ => None,
    }
}

fn take_present(read: Option<Option<ExifValue>>) -> (r: Option<ExifValue>)
    ensures
        r == present(read),
{
    match read {
        Some(Some(v)) => Some(v),
        _ => None,
    }
}

/// Extracts the EXIF metadata of an image from its file contents.
///
/// Contents without an EXIF container (a JFIF JPEG, a PNG without EXIF, a
/// text file) give metadata with every field absent; otherwise the fields
/// are those that DateTime, Model, GPSLatitude and GPSLongitude give.
pub fn exif_from_bytes(bytes: &[u8]) -> (r: ExifData)
    ensures
        exif_primary_field(bytes@, ExifTag::DateTime) is None ==> r.is_empty(),
        exif_primary_field(bytes@, ExifTag::DateTime) is Some ==> describes(
            r,
            present(exif_primary_field(bytes@, ExifTag::DateTime)),
            present(exif_primary_field(bytes@, ExifTag::Model)),
            present(exif_primary_field(bytes@, ExifTag::GpsLatitude)),
            present(exif_primary_field(bytes@, ExifTag::GpsLongitude)),
        ),
        dates_consistent(r),
        r.camera_model is Some <==> (exif_primary_field(bytes@, ExifTag::DateTime) is Some
            && exif_primary_field(bytes@, ExifTag::Model) matches Some(Some(_))),
        r.gps_lat is Some <==> (exif_primary_field(bytes@, ExifTag::DateTime) is Some
            && exif_primary_field(bytes@, ExifTag::GpsLatitude) matches Some(Some(_))),
        r.gps_lon is Some <==> (exif_primary_field(bytes@, ExifTag::DateTime) is Some
            && exif_primary_field(bytes@, ExifTag::GpsLongitude) matches Some(Some(_))),
        r.year is Some <==> exif_primary_field(bytes@, ExifTag::DateTime) matches Some(Some(_)),
{
    match read_primary_field(bytes, ExifTag::DateTime) {
        None => ExifData::default(),
        Some(date_time) => {
            let model = take_present(read_primary_field(bytes, ExifTag::Model));
            let latitude = take_present(read_primary_field(bytes, ExifTag::GpsLatitude));
            let longitude = take_present(read_primary_field(bytes, ExifTag::GpsLongitude));
            exif_data_from_values(date_time, model, latitude, longitude)
        },
    }
}

} // verus!
