use firn::db::{Attribute, Database, Entity, Value};
use firn::extractor::blob::BlobLoader;
use firn::extractor::exif::{
    ascii_to_str, coord_to_degrees, format_timestamp, long_to_u32, Degrees, ExifData,
    ExifExtractor, Rational, RawExif, Timestamp,
};
use firn::extractor::geonames::{FeatureClass, GeoNames};
use firn::extractor::mime::{heic, MimeInfer};
use firn::handle::Handle;
use std::path::PathBuf;

fn handle() -> Handle {
    let (db, _) = Database::new();
    Handle::new(db, PathBuf::from("data/storage"))
}

fn values(handle: &Handle, entity: &str, attribute: &str) -> Vec<String> {
    handle.get(&entity.into(), &attribute.into()).iter().map(|v| v.to_text()).collect()
}

#[test]
fn mime_attribute() {
    assert_eq!(MimeInfer::attribute(), Attribute::from("type/mime"));
}

#[test]
fn heic_matcher() {
    let mut buf = [0u8; 32];
    assert!(!heic(&buf));
    buf[4..12].copy_from_slice(b"ftypheic");
    assert!(heic(&buf));
    assert!(heic(&buf[..12]));
    buf[11] = b'x';
    assert!(!heic(&buf));
    assert!(!heic(&[]));
    assert!(!heic(b"ftyphei"));
    // The brand must stand from the fifth byte on.
    assert!(!heic(b"ftypheic0000"));
}

#[test]
fn classify_by_the_first_bytes() {
    let mut jpeg = [0u8; 32];
    jpeg[..4].copy_from_slice(&[0xFF, 0xD8, 0xFF, 0xE0]);
    assert_eq!(MimeInfer::classify(&jpeg), "image/jpeg");

    let mut png = [0u8; 32];
    png[..8].copy_from_slice(&[0x89, b'P', b'N', b'G', 0x0D, 0x0A, 0x1A, 0x0A]);
    assert_eq!(MimeInfer::classify(&png), "image/png");

    let mut container = [0u8; 32];
    container[4..12].copy_from_slice(b"ftypheic");
    assert_eq!(MimeInfer::classify(&container), "image/heic");

    assert_eq!(MimeInfer::classify(&[0u8; 32]), "application/octet-stream");
    assert_eq!(MimeInfer::classify(&[]), "application/octet-stream");
}

#[test]
fn mime_or_default() {
    assert_eq!(MimeInfer::or_default(Some("image/gif".to_string())), "image/gif");
    assert_eq!(MimeInfer::or_default(None), "application/octet-stream");
}

#[test]
fn mime_is_wanted_once_for_blobs() {
    let mut handle = handle();
    handle.insert("note".into(), "text/label".into(), "no blob".into());
    assert!(!MimeInfer::wants(&handle, &"note".into()));
    assert!(!MimeInfer::wants(&handle, &"unknown".into()));

    BlobLoader::record(&mut handle, "a.jpg".to_string(), 1234);
    assert_eq!(values(&handle, "a.jpg", "blob/size"), vec!["1234"]);
    assert!(MimeInfer::wants(&handle, &"a.jpg".into()));

    let mut jpeg = [0u8; 32];
    jpeg[..4].copy_from_slice(&[0xFF, 0xD8, 0xFF, 0xE0]);
    MimeInfer::record(&mut handle, &"a.jpg".into(), &jpeg);
    assert_eq!(values(&handle, "a.jpg", "type/mime"), vec!["image/jpeg"]);
    assert!(!MimeInfer::wants(&handle, &"a.jpg".into()));
}

#[test]
fn blob_loader_holds_its_directory() {
    let loader = BlobLoader(PathBuf::from("data/storage"));
    assert_eq!(loader.0, PathBuf::from("data/storage"));
}

#[test]
fn exif_applies_to_images() {
    let mime = Attribute::from("type/mime");
    assert!(ExifExtractor::applies(&mime, &"image/jpeg".into()));
    assert!(ExifExtractor::applies(&mime, &"image".into()));
    assert!(!ExifExtractor::applies(&mime, &"video/mp4".into()));
    assert!(!ExifExtractor::applies(&mime, &"imag".into()));
    assert!(!ExifExtractor::applies(&mime, &Value::Reference("image/jpeg".into())));
    assert!(!ExifExtractor::applies(&"blob/size".into(), &"image/jpeg".into()));
}

#[test]
fn exif_fields() {
    assert_eq!(long_to_u32(&vec![4032]), Some(4032));
    assert_eq!(long_to_u32(&vec![]), None);
    assert_eq!(long_to_u32(&vec![1, 2]), None);
    assert_eq!(ascii_to_str(&vec![b"Canon".to_vec()]), Some("Canon".to_string()));
    assert_eq!(ascii_to_str(&vec![]), None);
    assert_eq!(ascii_to_str(&vec![b"a".to_vec(), b"b".to_vec()]), None);
    assert_eq!(ascii_to_str(&vec![vec![0xFF, 0xFE]]), None);
}

#[test]
fn timestamp_format() {
    let t = Timestamp { year: 2018, month: 4, day: 16, hour: 9, minute: 5, second: 7 };
    assert_eq!(format_timestamp(&t), "2018-04-16T09:05:07.00Z");
    let t = Timestamp { year: 0, month: 0, day: 0, hour: 0, minute: 0, second: 0 };
    assert_eq!(format_timestamp(&t), "0000-00-00T00:00:00.00Z");
    let t = Timestamp { year: 65535, month: 12, day: 31, hour: 23, minute: 59, second: 59 };
    assert_eq!(format_timestamp(&t), "65535-12-31T23:59:59.00Z");
}

#[test]
fn exif_record_stores_what_is_given() {
    let mut handle = handle();
    let data = ExifData {
        width: Some(4032),
        height: Some(3024),
        timestamp: Some(Timestamp { year: 2018, month: 4, day: 16, hour: 9, minute: 5, second: 7 }),
        lat: Some("53.4".to_string()),
        lng: Some("10.3".to_string()),
        alt: Some("12.5".to_string()),
        camera: Some(("APPLE".to_string(), "iPhone 8".to_string())),
    };
    ExifExtractor::record(&mut handle, &"a.jpg".into(), data);

    assert_eq!(values(&handle, "a.jpg", "image/width"), vec!["4032"]);
    assert_eq!(values(&handle, "a.jpg", "image/height"), vec!["3024"]);
    assert_eq!(values(&handle, "a.jpg", "time/creation"), vec!["2018-04-16T09:05:07.00Z"]);
    assert_eq!(values(&handle, "a.jpg", "location/latitude"), vec!["53.4"]);
    assert_eq!(values(&handle, "a.jpg", "location/longitude"), vec!["10.3"]);
    assert_eq!(values(&handle, "a.jpg", "location/altitude"), vec!["12.5"]);
    assert_eq!(values(&handle, "a.jpg", "image/camera"), vec!["Ref(iPhone 8)"]);
    assert_eq!(values(&handle, "iPhone 8", "device/manufacturer"), vec!["Apple"]);
    assert_eq!(handle.len(), 8);

    // The make of a known camera is not stored again.
    let data = ExifData {
        camera: Some(("other".to_string(), "iPhone 8".to_string())),
        ..ExifData::default()
    };
    ExifExtractor::record(&mut handle, &"b.jpg".into(), data);
    assert_eq!(values(&handle, "iPhone 8", "device/manufacturer"), vec!["Apple"]);
    assert_eq!(values(&handle, "b.jpg", "image/camera"), vec!["Ref(iPhone 8)"]);
}

#[test]
fn exif_record_needs_both_coordinates() {
    let mut handle = handle();
    let data = ExifData { lat: Some("53.4".to_string()), ..ExifData::default() };
    ExifExtractor::record(&mut handle, &"a.jpg".into(), data);
    let data = ExifData { lng: Some("10.3".to_string()), ..ExifData::default() };
    ExifExtractor::record(&mut handle, &"a.jpg".into(), data);
    ExifExtractor::record(&mut handle, &"a.jpg".into(), ExifData::default());
    assert_eq!(handle.len(), 0);
}

#[test]
fn feature_class_letters() {
    let all = [
        (FeatureClass::A, "A"),
        (FeatureClass::H, "H"),
        (FeatureClass::L, "L"),
        (FeatureClass::P, "P"),
        (FeatureClass::R, "R"),
        (FeatureClass::S, "S"),
        (FeatureClass::T, "T"),
        (FeatureClass::U, "U"),
        (FeatureClass::V, "V"),
        (FeatureClass::Other, "X"),
    ];
    for (class, letter) in all.iter() {
        assert_eq!(class.to_string(), *letter);
        assert_eq!(class.is_kept(), *letter == "A" || *letter == "P");
    }
}

#[test]
fn gazetteer_keeps_places_and_areas() {
    let mut names = GeoNames::new();
    assert!(names.add(1, "Germany".to_string(), FeatureClass::A));
    assert!(names.add(2, "Geesthacht".to_string(), FeatureClass::P));
    assert!(!names.add(3, "Elbe".to_string(), FeatureClass::H));
    assert_eq!(names.len(), 2);
    assert_eq!(names.get(2).unwrap().name, "Geesthacht");
    assert_eq!(names.get(2).unwrap().parent, None);
    assert!(names.get(3).is_none());

    names.link(1, 2);
    assert_eq!(names.get(2).unwrap().parent, Some(1));
    assert_eq!(names.get(2).unwrap().name, "Geesthacht");
    // An unknown parent or child changes nothing.
    names.link(9, 1);
    names.link(1, 9);
    assert_eq!(names.get(1).unwrap().parent, None);
    assert_eq!(names.len(), 2);
}

#[test]
fn geoname_entities() {
    assert_eq!(GeoNames::entity_of(2911298), Entity::from("geoname:2911298"));
    assert_eq!(GeoNames::entity_of(-5), Entity::from("geoname:-5"));
    assert_eq!(GeoNames::referenced_geoname(&Value::Reference("geoname:2911298".into())), Some(2911298));
    assert_eq!(GeoNames::referenced_geoname(&Value::Reference("geoname:-5".into())), Some(-5));
    assert_eq!(GeoNames::referenced_geoname(&Value::Reference("geoname:".into())), None);
    assert_eq!(GeoNames::referenced_geoname(&Value::Reference("geoname:x1".into())), None);
    assert_eq!(GeoNames::referenced_geoname(&Value::Reference("place:1".into())), None);
    assert_eq!(GeoNames::referenced_geoname(&Value::from("geoname:1")), None);
    assert_eq!(
        GeoNames::referenced_geoname(&Value::Reference("geoname:99999999999999999999".into())),
        None
    );
    // A sign may stand before the digits, and zeros may lead them.
    let id = |text: &str| GeoNames::referenced_geoname(&Value::Reference(text.into()));
    assert_eq!(id("geoname:+7"), Some(7));
    assert_eq!(id("geoname:007"), Some(7));
    assert_eq!(id("geoname:-0"), Some(0));
    assert_eq!(id("geoname:-9223372036854775808"), Some(i64::MIN));
    assert_eq!(id("geoname:9223372036854775807"), Some(i64::MAX));
    assert_eq!(id("geoname:9223372036854775808"), None);
    assert_eq!(id("geoname:-9223372036854775809"), None);
    // A sign alone, two signs, blanks, marks and other digits are no number.
    assert_eq!(id("geoname:-"), None);
    assert_eq!(id("geoname:+"), None);
    assert_eq!(id("geoname:--1"), None);
    assert_eq!(id("geoname:1-"), None);
    assert_eq!(id("geoname: 1"), None);
    assert_eq!(id("geoname:1 "), None);
    assert_eq!(id("geoname:1_0"), None);
    assert_eq!(id("geoname:\u{0663}"), None);
    // What stands for a place refers to it.
    for place in [0, 1, -1, 2911298, i64::MIN, i64::MAX] {
        let entity = GeoNames::entity_of(place);
        assert_eq!(GeoNames::referenced_geoname(&Value::Reference(entity)), Some(place));
    }
}

#[test]
fn coordinates_are_recognised() {
    assert!(GeoNames::is_coordinate(&"location/latitude".into()));
    assert!(GeoNames::is_coordinate(&"location/longitude".into()));
    assert!(!GeoNames::is_coordinate(&"location/altitude".into()));
}

#[test]
fn geoname_is_described_once() {
    let mut names = GeoNames::new();
    names.add(1, "Germany".to_string(), FeatureClass::A);
    names.add(2, "Geesthacht".to_string(), FeatureClass::P);
    names.link(1, 2);
    let mut handle = handle();

    names.handle_geoname(&mut handle, "geoname:2".into(), 2);
    assert_eq!(values(&handle, "geoname:2", "text/label"), vec!["Geesthacht"]);
    assert_eq!(values(&handle, "geoname:2", "relation/parent"), vec!["Ref(geoname:1)"]);

    // The label is stored once; the parent is stored at every call.
    names.handle_geoname(&mut handle, "geoname:2".into(), 2);
    assert_eq!(values(&handle, "geoname:2", "text/label"), vec!["Geesthacht"]);
    assert_eq!(values(&handle, "geoname:2", "relation/parent").len(), 2);

    names.handle_geoname(&mut handle, "geoname:1".into(), 1);
    assert_eq!(values(&handle, "geoname:1", "text/label"), vec!["Germany"]);
    assert_eq!(values(&handle, "geoname:1", "relation/parent").len(), 0);

    names.handle_geoname(&mut handle, "geoname:7".into(), 7);
    assert_eq!(handle.len(), 3);
}

#[test]
fn pending_coordinates_of_an_entity() {
    let mut handle = handle();
    let image = Entity::from("a.jpg");
    assert_eq!(GeoNames::pending_coordinates(&handle, &image), None);

    handle.insert(image.clone(), "location/latitude".into(), "53.4".into());
    assert_eq!(GeoNames::pending_coordinates(&handle, &image), None);

    handle.insert(image.clone(), "location/longitude".into(), "10.3".into());
    handle.insert(image.clone(), "location/longitude".into(), "11.0".into());
    assert_eq!(
        GeoNames::pending_coordinates(&handle, &image),
        Some(("53.4".to_string(), "10.3".to_string()))
    );

    GeoNames::locate(&mut handle, image.clone(), 2911298);
    assert_eq!(values(&handle, "a.jpg", "location/geoname"), vec!["Ref(geoname:2911298)"]);
    assert_eq!(GeoNames::pending_coordinates(&handle, &image), None);

    // A coordinate that is a reference is no coordinate.
    let other = Entity::from("b.jpg");
    handle.insert(other.clone(), "location/latitude".into(), Value::Reference("x".into()));
    handle.insert(other.clone(), "location/longitude".into(), "10.3".into());
    assert_eq!(GeoNames::pending_coordinates(&handle, &other), None);
}

fn raw() -> RawExif {
    RawExif {
        pixel_x_dimension: None,
        pixel_y_dimension: None,
        date_time_original: None,
        gps_latitude: None,
        gps_longitude: None,
        gps_altitude: None,
        make: None,
        model: None,
    }
}

fn q(num: u32, denom: u32) -> Rational {
    Rational { num, denom }
}

#[test]
fn interpret_complete_fields() {
    let fields = RawExif {
        pixel_x_dimension: Some(vec![4032]),
        pixel_y_dimension: Some(vec![3024]),
        date_time_original: Some(vec![b"2018:04:16 09:05:07".to_vec()]),
        gps_latitude: Some(vec![q(53, 1), q(26, 1), q(1234, 100)]),
        gps_longitude: Some(vec![q(10, 1), q(22, 1), q(0, 1)]),
        gps_altitude: Some(vec![q(125, 10)]),
        make: Some(vec![b"Apple".to_vec()]),
        model: Some(vec![b"iPhone 8".to_vec()]),
    };
    let facts = ExifExtractor::interpret(&fields);
    assert_eq!(facts.width, Some(4032));
    assert_eq!(facts.height, Some(3024));
    assert_eq!(
        facts.timestamp,
        Some(Timestamp { year: 2018, month: 4, day: 16, hour: 9, minute: 5, second: 7 })
    );
    assert_eq!(
        facts.position,
        Some((
            Degrees { degrees: q(53, 1), minutes: q(26, 1), seconds: q(1234, 100) },
            Degrees { degrees: q(10, 1), minutes: q(22, 1), seconds: q(0, 1) },
        ))
    );
    assert_eq!(facts.altitude, Some(q(125, 10)));
    assert_eq!(facts.camera, Some(("Apple".to_string(), "iPhone 8".to_string())));
}

#[test]
fn date_and_time_by_position() {
    let at = |text: &[u8]| {
        ExifExtractor::interpret(&RawExif { date_time_original: Some(vec![text.to_vec()]), ..raw() })
            .timestamp
    };
    assert_eq!(
        at(b"0001:02:03 04:05:06"),
        Some(Timestamp { year: 1, month: 2, day: 3, hour: 4, minute: 5, second: 6 })
    );
    assert_eq!(
        at(b"9999:99:99 99:99:99"),
        Some(Timestamp { year: 9999, month: 99, day: 99, hour: 99, minute: 99, second: 99 })
    );
    // Eighteen bytes are too few; a wrong delimiter and a missing digit fail.
    assert_eq!(at(b"2018:04:16 09:05:0"), None);
    assert_eq!(at(b"2018:04:16T09:05:07"), None);
    assert_eq!(at(b"2018:04:16 09:05.07"), None);
    assert_eq!(at(b"2018:04:16 09:05: 7"), None);
    assert_eq!(at(b" 018:04:16 09:05:07"), None);
    assert_eq!(at(b"2018:+4:16 09:05:07"), None);
    assert_eq!(at(b"                   "), None);
    assert_eq!(at(b""), None);
}

#[test]
fn interpret_wants_whole_fields() {
    let facts = ExifExtractor::interpret(&raw());
    assert_eq!(facts.width, None);
    assert_eq!(facts.timestamp, None);
    assert_eq!(facts.position, None);
    assert_eq!(facts.altitude, None);
    assert_eq!(facts.camera, None);

    let fields = RawExif {
        pixel_x_dimension: Some(vec![1, 2]),
        pixel_y_dimension: Some(vec![]),
        // The range of the numbers is not looked at; the format is.
        date_time_original: Some(vec![b"2018-04-16 09:05:07".to_vec()]),
        // A latitude without a longitude is no position.
        gps_latitude: Some(vec![q(53, 1), q(26, 1), q(0, 1)]),
        gps_longitude: Some(vec![q(10, 1), q(22, 1)]),
        gps_altitude: Some(vec![q(1, 1), q(2, 1)]),
        // A make without a model is no camera.
        make: Some(vec![b"Apple".to_vec()]),
        model: Some(vec![b"a".to_vec(), b"b".to_vec()]),
    };
    let facts = ExifExtractor::interpret(&fields);
    assert_eq!(facts.width, None);
    assert_eq!(facts.height, None);
    assert_eq!(facts.timestamp, None);
    assert_eq!(facts.position, None);
    assert_eq!(facts.altitude, None);
    assert_eq!(facts.camera, None);

    let fields = RawExif {
        date_time_original: Some(vec![b"2018:13:40 25:61:61 and more".to_vec()]),
        ..raw()
    };
    assert_eq!(
        ExifExtractor::interpret(&fields).timestamp,
        Some(Timestamp { year: 2018, month: 13, day: 40, hour: 25, minute: 61, second: 61 })
    );
    let fields = RawExif { date_time_original: Some(vec![b"    :  :     :  :  ".to_vec()]), ..raw() };
    assert_eq!(ExifExtractor::interpret(&fields).timestamp, None);
}

#[test]
fn coordinates_have_three_parts() {
    assert_eq!(
        coord_to_degrees(&vec![q(1, 2), q(3, 4), q(5, 6)]),
        Some(Degrees { degrees: q(1, 2), minutes: q(3, 4), seconds: q(5, 6) })
    );
    assert_eq!(coord_to_degrees(&vec![q(1, 2), q(3, 4)]), None);
    assert_eq!(coord_to_degrees(&vec![]), None);
}
