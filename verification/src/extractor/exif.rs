//! What is recorded for the EXIF data of an image, and for which triplets
//! the data is asked for.

use crate::db::triplet_tree::entry;
use crate::db::{Attribute, DatabaseView, Entity, Value, ValueView};
use crate::handle::Handle;
use crate::text::{
    capitalized, decimal, from_utf8, padded, starts_with, to_decimal, to_padded,
    uppercase_first_letter,
};
use vstd::prelude::*;
use vstd::string::{StringExecFns, StringSliceAdditionalSpecFns};
use vstd::utf8::{decode_utf8, valid_utf8};

verus! {

/// The extractor that records what the EXIF data of an image says.
pub struct ExifExtractor;

/// A point in time as EXIF gives it.
#[derive(Debug, Clone, Copy, PartialEq, Eq, Structural)]
pub struct Timestamp {
    pub year: u16,
    pub month: u8,
    pub day: u8,
    pub hour: u8,
    pub minute: u8,
    pub second: u8,
}

/// What was read from the EXIF data of an image. Coordinates and altitude
/// stand as the text that is to be stored.
#[derive(Debug)]
pub struct ExifData {
    pub width: Option<u32>,
    pub height: Option<u32>,
    pub timestamp: Option<Timestamp>,
    pub lat: Option<String>,
    pub lng: Option<String>,
    pub alt: Option<String>,
    pub camera: Option<(String, String)>,
}

/// The mathematical content of [`ExifData`].
pub struct ExifDataView {
    pub width: Option<u32>,
    pub height: Option<u32>,
    pub timestamp: Option<Timestamp>,
    pub lat: Option<Seq<char>>,
    pub lng: Option<Seq<char>>,
    pub alt: Option<Seq<char>>,
    pub camera: Option<(Seq<char>, Seq<char>)>,
}

pub open spec fn text_view(text: Option<String>) -> Option<Seq<char>> {
    match text {
        Some(text) => Some(text@),
        None => None,
    }
}

impl View for ExifData {
    type V = ExifDataView;

    open spec fn view(&self) -> ExifDataView {
        ExifDataView {
            width: self.width,
            height: self.height,
            timestamp: self.timestamp,
            lat: text_view(self.lat),
            lng: text_view(self.lng),
            alt: text_view(self.alt),
            camera: match self.camera {
                Some((make, model)) => Some((make@, model@)),
                None => None,
            },
        }
    }
}

impl Default for ExifData {
    fn default() -> (data: Self)
        ensures
            data@ == (ExifDataView {
                width: None,
                height: None,
                timestamp: None,
                lat: None,
                lng: None,
                alt: None,
                camera: None,
            }),
    {
        ExifData {
            width: None,
            height: None,
            timestamp: None,
            lat: None,
            lng: None,
            alt: None,
            camera: None,
        }
    }
}

/// A quotient of two whole numbers, as EXIF stores a fraction.
#[derive(Debug, Clone, Copy, PartialEq, Eq, Structural)]
pub struct Rational {
    pub num: u32,
    pub denom: u32,
}

/// An angle in degrees, minutes and seconds.
#[derive(Debug, Clone, Copy, PartialEq, Eq, Structural)]
pub struct Degrees {
    pub degrees: Rational,
    pub minutes: Rational,
    pub seconds: Rational,
}

/// The fields of the primary image that the extractor reads, each with the
/// values that it holds; a field that is absent or of another type is left
/// out.
#[derive(Debug)]
pub struct RawExif {
    pub pixel_x_dimension: Option<Vec<u32>>,
    pub pixel_y_dimension: Option<Vec<u32>>,
    pub date_time_original: Option<Vec<Vec<u8>>>,
    pub gps_latitude: Option<Vec<Rational>>,
    pub gps_longitude: Option<Vec<Rational>>,
    pub gps_altitude: Option<Vec<Rational>>,
    pub make: Option<Vec<Vec<u8>>>,
    pub model: Option<Vec<Vec<u8>>>,
}

/// What the fields say, before coordinates and altitude are turned into
/// text.
#[derive(Debug)]
pub struct ExifFacts {
    pub width: Option<u32>,
    pub height: Option<u32>,
    pub timestamp: Option<Timestamp>,
    pub position: Option<(Degrees, Degrees)>,
    pub altitude: Option<Rational>,
    pub camera: Option<(String, String)>,
}

/// Whether the bytes from `from` up to `to` are decimal digits.
pub open spec fn digits_at(ascii: Seq<u8>, from: int, to: int) -> bool {
    forall|i: int| from <= i < to ==> 0x30 <= #[trigger] ascii[i] <= 0x39
}

/// The number that two decimal digits stand for.
pub open spec fn two_digits(ascii: Seq<u8>, at: int) -> int {
    (ascii[at] - 0x30) * 10 + (ascii[at + 1] - 0x30)
}

/// The number that four decimal digits stand for.
pub open spec fn four_digits(ascii: Seq<u8>, at: int) -> int {
    two_digits(ascii, at) * 100 + two_digits(ascii, at + 2)
}

/// The point in time that the bytes of a date and time give. They hold, in
/// their first nineteen bytes, `YYYY:MM:DD HH:MM:SS` in decimal digits; what
/// follows is not looked at, and neither is the range of the numbers.
pub open spec fn datetime_of(ascii: Seq<u8>) -> Option<Timestamp> {
    if ascii.len() >= 19 && ascii[4] == 0x3A && ascii[7] == 0x3A && ascii[10] == 0x20 && ascii[13]
        == 0x3A && ascii[16] == 0x3A && digits_at(ascii, 0, 4) && digits_at(ascii, 5, 7)
        && digits_at(ascii, 8, 10) && digits_at(ascii, 11, 13) && digits_at(ascii, 14, 16)
        && digits_at(ascii, 17, 19) {
        Some(
            Timestamp {
                year: four_digits(ascii, 0) as u16,
                month: two_digits(ascii, 5) as u8,
                day: two_digits(ascii, 8) as u8,
                hour: two_digits(ascii, 11) as u8,
                minute: two_digits(ascii, 14) as u8,
                second: two_digits(ascii, 17) as u8,
            },
        )
    } else {
        None
    }
}

/// `exif::DateTime::from_ascii`; of the date and time found, the six numbers
/// down to the second. It asks for nineteen bytes with the five delimiters in
/// their places and digits between them; a blank value has no digits.
#[verifier::external_body]
fn parse_datetime(ascii: &[u8]) -> (timestamp: Option<Timestamp>)
    ensures
        timestamp == datetime_of(ascii@),
{
    exif::DateTime::from_ascii(ascii).ok().map(
        |t| Timestamp {
            year: t.year,
            month: t.month,
            day: t.day,
            hour: t.hour,
            minute: t.minute,
            second: t.second,
        },
    )
}

/// The number of a field that holds exactly one number.
pub open spec fn single_long(values: Option<Vec<u32>>) -> Option<u32> {
    match values {
        Some(values) => if values.len() == 1 {
            Some(values[0])
        } else {
            None
        },
        None => None,
    }
}

/// The text of a field that holds exactly one string of valid UTF-8.
pub open spec fn single_ascii(values: Option<Vec<Vec<u8>>>) -> Option<Seq<char>> {
    match values {
        Some(values) => if values.len() == 1 && valid_utf8(values[0]@) {
            Some(decode_utf8(values[0]@))
        } else {
            None
        },
        None => None,
    }
}

/// The angle of a field that holds exactly three fractions.
pub open spec fn angle(values: Option<Vec<Rational>>) -> Option<Degrees> {
    match values {
        Some(values) => if values.len() == 3 {
            Some(Degrees { degrees: values[0], minutes: values[1], seconds: values[2] })
        } else {
            None
        },
        None => None,
    }
}

/// The fraction of a field that holds exactly one fraction.
pub open spec fn single_rational(values: Option<Vec<Rational>>) -> Option<Rational> {
    match values {
        Some(values) => if values.len() == 1 {
            Some(values[0])
        } else {
            None
        },
        None => None,
    }
}

/// The point in time that a field gives: the field holds one string, and the
/// string is a date and time.
pub open spec fn time_of(values: Option<Vec<Vec<u8>>>) -> Option<Timestamp> {
    match single_ascii(values) {
        Some(text) => datetime_of(vstd::utf8::encode_utf8(text)),
        None => None,
    }
}

/// The number of a field that holds exactly one number.
pub fn long_to_u32(values: &Vec<u32>) -> (number: Option<u32>)
    ensures
        number == if values.len() == 1 {
            Some(values[0])
        } else {
            None::<u32>
        },
{
    if values.len() == 1 {
        Some(values[0])
    } else {
        None
    }
}

/// The text of a field that holds exactly one string, where the string is
/// valid UTF-8.
pub fn ascii_to_str(values: &Vec<Vec<u8>>) -> (text: Option<String>)
    ensures
        match text {
            Some(text) => values.len() == 1 && valid_utf8(values[0]@) && text@ == decode_utf8(
                values[0]@,
            ),
            None => values.len() != 1 || !valid_utf8(values[0]@),
        },
{
    if values.len() == 1 {
        from_utf8(values[0].clone())
    } else {
        None
    }
}

/// The angle of a field that holds exactly three fractions: degrees, minutes
/// and seconds.
pub fn coord_to_degrees(values: &Vec<Rational>) -> (found: Option<Degrees>)
    ensures
        found == angle(Some(*values)),
{
    if values.len() == 3 {
        Some(Degrees { degrees: values[0], minutes: values[1], seconds: values[2] })
    } else {
        None
    }
}

/// The point in time as it is stored: date and time of day in digits, with
/// hundredths of a second that are always zero, in universal time.
pub open spec fn timestamp_text(t: Timestamp) -> Seq<char> {
    padded(t.year as nat, 4) + "-"@ + padded(t.month as nat, 2) + "-"@ + padded(t.day as nat, 2)
        + "T"@ + padded(t.hour as nat, 2) + ":"@ + padded(t.minute as nat, 2) + ":"@ + padded(
        t.second as nat,
        2,
    ) + ".00Z"@
}

/// The point in time as it is stored: see [`timestamp_text`].
pub fn format_timestamp(timestamp: &Timestamp) -> (text: String)
    ensures
        text@ == timestamp_text(*timestamp),
{
    let mut text = to_padded(timestamp.year as u64, 4);
    text.append("-");
    text.append(to_padded(timestamp.month as u64, 2).as_str());
    text.append("-");
    text.append(to_padded(timestamp.day as u64, 2).as_str());
    text.append("T");
    text.append(to_padded(timestamp.hour as u64, 2).as_str());
    text.append(":");
    text.append(to_padded(timestamp.minute as u64, 2).as_str());
    text.append(":");
    text.append(to_padded(timestamp.second as u64, 2).as_str());
    text.append(".00Z");
    text
}

/// The database after `value` was stored for the entity under the attribute,
/// where there is a value to store.
pub open spec fn with_data(
    db: DatabaseView,
    entity: Seq<char>,
    attribute: Seq<char>,
    value: Option<Seq<char>>,
) -> DatabaseView {
    match value {
        Some(value) => db.insert(entity, attribute, ValueView::Data(value)),
        None => db,
    }
}

/// The database after the camera of an image was stored: the make of the
/// model, unless a make is stored for it already, and the model as the camera
/// of the image.
pub open spec fn with_camera(db: DatabaseView, entity: Seq<char>, camera: Option<(Seq<char>, Seq<char>)>) -> DatabaseView {
    match camera {
        Some((make, model)) => {
            let known = if entry(db.eav, model, "device/manufacturer"@).len() == 0 {
                db.insert(model, "device/manufacturer"@, ValueView::Data(capitalized(make)))
            } else {
                db
            };
            known.insert(entity, "image/camera"@, ValueView::Reference(model))
        },
        None => db,
    }
}

/// The database after what the EXIF data says was stored for the entity.
/// Latitude and longitude are stored only where both are given.
pub open spec fn recorded(db: DatabaseView, entity: Seq<char>, data: ExifDataView) -> DatabaseView {
    let db = with_data(
        db,
        entity,
        "image/width"@,
        match data.width {
            Some(width) => Some(decimal(width as nat)),
            None => None,
        },
    );
    let db = with_data(
        db,
        entity,
        "image/height"@,
        match data.height {
            Some(height) => Some(decimal(height as nat)),
            None => None,
        },
    );
    let db = with_data(
        db,
        entity,
        "time/creation"@,
        match data.timestamp {
            Some(timestamp) => Some(timestamp_text(timestamp)),
            None => None,
        },
    );
    let db = if data.lat is Some && data.lng is Some {
        with_data(with_data(db, entity, "location/latitude"@, data.lat), entity, "location/longitude"@, data.lng)
    } else {
        db
    };
    let db = with_data(db, entity, "location/altitude"@, data.alt);
    with_camera(db, entity, data.camera)
}

fn field_text(values: &Option<Vec<Vec<u8>>>) -> (text: Option<String>)
    ensures
        text_view(text) == single_ascii(*values),
{
    match values {
        Some(values) => ascii_to_str(values),
        None => None,
    }
}

impl ExifExtractor {
    /// What the fields say. Width and height are given by fields of one
    /// number; the time by a field of one string that holds a date and time;
    /// the position where latitude and longitude are both given, each by
    /// three fractions; the altitude by a field of one fraction; the camera
    /// where make and model are both given, each by one string.
    pub fn interpret(raw: &RawExif) -> (facts: ExifFacts)
        ensures
            facts.width == single_long(raw.pixel_x_dimension),
            facts.height == single_long(raw.pixel_y_dimension),
            facts.timestamp == time_of(raw.date_time_original),
            facts.position == match (angle(raw.gps_latitude), angle(raw.gps_longitude)) {
                (Some(lat), Some(lng)) => Some((lat, lng)),
                _ => None,
            },
            facts.altitude == single_rational(raw.gps_altitude),
            match facts.camera {
                Some((make, model)) => single_ascii(raw.make) == Some(make@) && single_ascii(raw.model)
                    == Some(model@),
                None => single_ascii(raw.make) is None || single_ascii(raw.model) is None,
            },
    {
        let width = match &raw.pixel_x_dimension {
            Some(values) => long_to_u32(values),
            None => None,
        };
        let height = match &raw.pixel_y_dimension {
            Some(values) => long_to_u32(values),
            None => None,
        };
        let timestamp = match field_text(&raw.date_time_original) {
            Some(text) => parse_datetime(text.as_str().as_bytes()),
            None => None,
        };
        let latitude = match &raw.gps_latitude {
            Some(values) => coord_to_degrees(values),
            None => None,
        };
        let longitude = match &raw.gps_longitude {
            Some(values) => coord_to_degrees(values),
            None => None,
        };
        // Both coordinates or none.
        let position = match (latitude, longitude) {
            (Some(lat), Some(lng)) => Some((lat, lng)),
            _ => None,
        };
        let altitude = match &raw.gps_altitude {
            Some(values) => if values.len() == 1 {
                Some(values[0])
            } else {
                None
            },
            None => None,
        };
        let camera = match (field_text(&raw.make), field_text(&raw.model)) {
            (Some(make), Some(model)) => Some((make, model)),
            _ => None,
        };
        ExifFacts { width, height, timestamp, position, altitude, camera }
    }

    /// Whether a triplet asks for the EXIF data of its entity: it gives the
    /// MIME type of the entity, and the type is that of an image.
    pub fn applies(attribute: &Attribute, value: &Value) -> (wanted: bool)
        ensures
            wanted == (attribute@ == "type/mime"@ && (value@ matches ValueView::Data(mime)
                && "image"@.is_prefix_of(mime))),
    {
        if *attribute == Attribute::from("type/mime") {
            match value {
                Value::Data(mime) => starts_with(mime.as_str(), "image"),
                Value::Reference(_) => false,
            }
        } else {
            false
        }
    }

    /// Stores for the entity what the EXIF data says.
    pub fn record(handle: &mut Handle, entity: &Entity, data: ExifData)
        ensures
            final(handle)@ == recorded(old(handle)@, entity@, data@),
            old(handle).wf() ==> final(handle).wf(),
    {
        if let Some(width) = data.width {
            handle.insert(entity.clone(), Attribute::from("image/width"), Value::Data(to_decimal(width as u64)));
        }
        if let Some(height) = data.height {
            handle.insert(
                entity.clone(),
                Attribute::from("image/height"),
                Value::Data(to_decimal(height as u64)),
            );
        }
        if let Some(timestamp) = data.timestamp {
            handle.insert(
                entity.clone(),
                Attribute::from("time/creation"),
                Value::Data(format_timestamp(&timestamp)),
            );
        }
        if let (Some(lat), Some(lng)) = (data.lat, data.lng) {
            handle.insert(entity.clone(), Attribute::from("location/latitude"), Value::Data(lat));
            handle.insert(entity.clone(), Attribute::from("location/longitude"), Value::Data(lng));
        }
        if let Some(alt) = data.alt {
            handle.insert(entity.clone(), Attribute::from("location/altitude"), Value::Data(alt));
        }
        if let Some((make, model)) = data.camera {
            let camera = Entity::from(model);
            let makes = handle.get(&camera, &Attribute::from("device/manufacturer"));
            if makes.len() == 0 {
                handle.insert(
                    camera.clone(),
                    Attribute::from("device/manufacturer"),
                    Value::Data(uppercase_first_letter(make.as_str())),
                );
            }
            handle.insert(entity.clone(), Attribute::from("image/camera"), Value::Reference(camera));
        }
    }
}

} // verus!
