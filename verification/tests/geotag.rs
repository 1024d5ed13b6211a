use plugin_panoramic::fraction::{Fraction, Rational};
use plugin_panoramic::geotag::{
    altitude, angle, read_geotag, status, FieldStatus, FieldValue, GeoTag, TagReport, GPS_ALTITUDE,
    GPS_LATITUDE, GPS_LONGITUDE,
};

fn q(num: u32, denom: u32) -> Rational {
    Rational { num, denom }
}

fn value(f: &Fraction) -> f64 {
    f.num as f64 / f.den as f64
}

fn rationals(list: &[(u32, u32)]) -> exif::Value {
    exif::Value::Rational(list.iter().map(|&(n, d)| exif::Rational { num: n, denom: d }).collect())
}

fn gps(tag: exif::Tag, value: exif::Value) -> exif::Field {
    exif::Field { tag, ifd_num: exif::In::PRIMARY, value }
}

fn tiff(fields: &[exif::Field]) -> Vec<u8> {
    let mut writer = exif::experimental::Writer::new();
    for field in fields {
        writer.push_field(field);
    }
    let mut out = std::io::Cursor::new(Vec::new());
    writer.write(&mut out, false).unwrap();
    out.into_inner()
}

fn jpeg(fields: &[exif::Field]) -> Vec<u8> {
    let body = tiff(fields);
    let len = (2 + 6 + body.len()) as u16;
    let mut out = vec![0xff, 0xd8, 0xff, 0xe1];
    out.extend_from_slice(&len.to_be_bytes());
    out.extend_from_slice(b"Exif\0\0");
    out.extend_from_slice(&body);
    out.extend_from_slice(&[0xff, 0xd9]);
    out
}

const ZERO: Fraction = Fraction { num: 0, den: 1 };

#[test]
fn field_numbers() {
    assert_eq!((GPS_LATITUDE, GPS_LONGITUDE, GPS_ALTITUDE), (2, 4, 6));
    assert_eq!(exif::Tag::GPSLatitude, exif::Tag(exif::Context::Gps, GPS_LATITUDE));
    assert_eq!(exif::Tag::GPSLongitude, exif::Tag(exif::Context::Gps, GPS_LONGITUDE));
    assert_eq!(exif::Tag::GPSAltitude, exif::Tag(exif::Context::Gps, GPS_ALTITUDE));
}

#[test]
fn altitude_is_the_first_rational() {
    let field = FieldValue::Rationals(vec![q(12345, 100), q(1, 0)]);
    assert_eq!(altitude(&field), Some(Fraction { num: 12345, den: 100 }));
}

#[test]
fn altitude_of_a_field_that_is_no_number_is_none() {
    assert_eq!(altitude(&FieldValue::Missing), None);
    assert_eq!(altitude(&FieldValue::Other), None);
    assert_eq!(altitude(&FieldValue::Rationals(vec![])), None);
    assert_eq!(altitude(&FieldValue::Rationals(vec![q(5, 0)])), None);
}

#[test]
fn angle_takes_the_first_three_rationals() {
    let field = FieldValue::Rationals(vec![q(10, 1), q(30, 1), q(0, 1), q(9, 0)]);
    assert_eq!(angle(&field), Some(Fraction { num: 37800, den: 3600 }));
}

#[test]
fn angle_of_fewer_than_three_rationals_is_none() {
    assert_eq!(angle(&FieldValue::Rationals(vec![q(10, 1), q(30, 1)])), None);
    assert_eq!(angle(&FieldValue::Rationals(vec![q(10, 1)])), None);
    assert_eq!(angle(&FieldValue::Rationals(vec![])), None);
    assert_eq!(angle(&FieldValue::Missing), None);
    assert_eq!(angle(&FieldValue::Other), None);
    assert_eq!(angle(&FieldValue::Rationals(vec![q(10, 1), q(30, 0), q(0, 1)])), None);
}

#[test]
fn status_tells_missing_from_broken() {
    let some = Some(ZERO);
    assert_eq!(status(&FieldValue::Missing, &None), FieldStatus::Missing);
    assert_eq!(status(&FieldValue::Other, &None), FieldStatus::Broken);
    assert_eq!(status(&FieldValue::Rationals(vec![]), &None), FieldStatus::Broken);
    assert_eq!(status(&FieldValue::Rationals(vec![q(1, 1)]), &some), FieldStatus::Converted);
}

#[test]
fn absent_tag_is_all_zero() {
    let tag = GeoTag::absent();
    assert_eq!(tag.lonlat, vec![ZERO, ZERO, ZERO]);
    assert_eq!(
        tag.report,
        TagReport {
            container: false,
            longitude: FieldStatus::Missing,
            latitude: FieldStatus::Missing,
            altitude: FieldStatus::Missing,
        }
    );
}

#[test]
fn from_fields_puts_longitude_first() {
    let lon = FieldValue::Rationals(vec![q(121, 1), q(30, 1), q(0, 1)]);
    let lat = FieldValue::Rationals(vec![q(31, 1), q(15, 1), q(0, 1)]);
    let alt = FieldValue::Rationals(vec![q(45, 2)]);
    let tag = GeoTag::from_fields(&lon, &lat, &alt);
    assert_eq!(tag.lonlat.len(), 3);
    assert_eq!(value(&tag.lonlat[0]), 121.5);
    assert_eq!(value(&tag.lonlat[1]), 31.25);
    assert_eq!(value(&tag.lonlat[2]), 22.5);
    assert_eq!(
        tag.report,
        TagReport {
            container: true,
            longitude: FieldStatus::Converted,
            latitude: FieldStatus::Converted,
            altitude: FieldStatus::Converted,
        }
    );
}

#[test]
fn from_fields_leaves_a_bad_field_at_zero_and_keeps_the_others() {
    let lon = FieldValue::Rationals(vec![q(121, 1), q(30, 0), q(0, 1)]);
    let lat = FieldValue::Rationals(vec![q(31, 1), q(15, 1), q(0, 1)]);
    let tag = GeoTag::from_fields(&lon, &lat, &FieldValue::Missing);
    assert_eq!(tag.lonlat[0], ZERO);
    assert_eq!(value(&tag.lonlat[1]), 31.25);
    assert_eq!(tag.lonlat[2], ZERO);
    assert_eq!(tag.report.longitude, FieldStatus::Broken);
    assert_eq!(tag.report.latitude, FieldStatus::Converted);
    assert_eq!(tag.report.altitude, FieldStatus::Missing);
    assert!(tag.report.container);
}

#[test]
fn file_without_container_has_the_location_zero() {
    for bytes in [&b""[..], &b"not an image"[..], &[0xff, 0xd8, 0xff, 0xd9][..]] {
        let tag = read_geotag(bytes);
        assert_eq!(tag, GeoTag::absent());
        assert_eq!(tag.lonlat.iter().map(value).collect::<Vec<f64>>(), vec![0.0, 0.0, 0.0]);
    }
}

#[test]
fn truncated_container_has_the_location_zero() {
    let bytes = tiff(&[gps(exif::Tag::GPSLatitude, rationals(&[(10, 1), (30, 1), (0, 1)]))]);
    let tag = read_geotag(&bytes[..bytes.len() - 5]);
    assert_eq!(tag, GeoTag::absent());
}

#[test]
fn only_latitude_present() {
    let bytes = tiff(&[gps(exif::Tag::GPSLatitude, rationals(&[(10, 1), (30, 1), (0, 1)]))]);
    let tag = read_geotag(&bytes);
    assert_eq!(tag.lonlat, vec![ZERO, Fraction { num: 37800, den: 3600 }, ZERO]);
    assert_eq!(tag.lonlat.iter().map(value).collect::<Vec<f64>>(), vec![0.0, 10.5, 0.0]);
    assert_eq!(
        tag.report,
        TagReport {
            container: true,
            longitude: FieldStatus::Missing,
            latitude: FieldStatus::Converted,
            altitude: FieldStatus::Missing,
        }
    );
}

#[test]
fn all_three_fields_present() {
    let bytes = tiff(&[
        gps(exif::Tag::GPSAltitude, rationals(&[(8848, 10)])),
        gps(exif::Tag::GPSLongitude, rationals(&[(86, 1), (55, 1), (30, 1)])),
        gps(exif::Tag::GPSLatitude, rationals(&[(27, 1), (59, 1), (15, 1)])),
    ]);
    let tag = read_geotag(&bytes);
    assert_eq!(
        tag.lonlat,
        vec![
            Fraction { num: 3600 * 86 + 60 * 55 + 30, den: 3600 },
            Fraction { num: 3600 * 27 + 60 * 59 + 15, den: 3600 },
            Fraction { num: 8848, den: 10 },
        ]
    );
    assert!(tag.report.container);
    assert_eq!(tag.report.longitude, FieldStatus::Converted);
    assert_eq!(tag.report.latitude, FieldStatus::Converted);
    assert_eq!(tag.report.altitude, FieldStatus::Converted);
}

#[test]
fn location_in_a_jpeg_file() {
    let bytes = jpeg(&[
        gps(exif::Tag::GPSLongitude, rationals(&[(2, 1), (17, 1), (4025, 100)])),
        gps(exif::Tag::GPSLatitude, rationals(&[(48, 1), (51, 1), (2950, 100)])),
    ]);
    let tag = read_geotag(&bytes);
    assert!(tag.report.container);
    assert!((value(&tag.lonlat[0]) - (2.0 + 17.0 / 60.0 + 40.25 / 3600.0)).abs() < 1e-12);
    assert!((value(&tag.lonlat[1]) - (48.0 + 51.0 / 60.0 + 29.5 / 3600.0)).abs() < 1e-12);
    assert_eq!(tag.lonlat[2], ZERO);
    assert_eq!(tag.report.altitude, FieldStatus::Missing);
}

#[test]
fn field_of_another_type_is_broken() {
    let bytes = tiff(&[
        gps(exif::Tag::GPSAltitude, exif::Value::Short(vec![100])),
        gps(exif::Tag::GPSLatitude, rationals(&[(10, 1), (30, 1)])),
        gps(exif::Tag::GPSLongitude, rationals(&[(10, 1), (30, 1), (0, 0)])),
    ]);
    let tag = read_geotag(&bytes);
    assert_eq!(tag.lonlat, vec![ZERO, ZERO, ZERO]);
    assert_eq!(
        tag.report,
        TagReport {
            container: true,
            longitude: FieldStatus::Broken,
            latitude: FieldStatus::Broken,
            altitude: FieldStatus::Broken,
        }
    );
}

#[test]
fn fields_of_the_thumbnail_and_of_other_groups_do_not_count() {
    let mut of_thumbnail = gps(exif::Tag::GPSLatitude, rationals(&[(10, 1), (30, 1), (0, 1)]));
    of_thumbnail.ifd_num = exif::In::THUMBNAIL;
    let bytes = tiff(&[
        of_thumbnail,
        exif::Field {
            tag: exif::Tag(exif::Context::Tiff, 0x11a),
            ifd_num: exif::In::PRIMARY,
            value: rationals(&[(72, 1)]),
        },
    ]);
    let tag = read_geotag(&bytes);
    assert_eq!(tag.lonlat, vec![ZERO, ZERO, ZERO]);
    assert!(tag.report.container);
    assert_eq!(tag.report.latitude, FieldStatus::Missing);
}
