//! Where a panorama was taken: longitude, latitude and altitude as exact
//! numbers, read from the metadata container of the image file.

use vstd::prelude::*;
use crate::fraction::{decimal_degrees, dms_fraction, Fraction, Rational};

verus! {

/// Number of the latitude field among the GPS fields.
pub const GPS_LATITUDE: u16 = 2;

/// Number of the longitude field among the GPS fields.
pub const GPS_LONGITUDE: u16 = 4;

/// Number of the altitude field among the GPS fields.
pub const GPS_ALTITUDE: u16 = 6;

/// What a container holds under one field number, as a mathematical value.
pub enum Stored {
    /// No such field.
    Missing,
    /// A field whose value is no list of unsigned rationals.
    Other,
    /// A field with these unsigned rationals.
    Rationals(Seq<Rational>),
}

/// What a container holds under one field number.
#[derive(Clone, Debug, PartialEq, Eq)]
pub enum FieldValue {
    /// No such field.
    Missing,
    /// A field whose value is no list of unsigned rationals.
    Other,
    /// A field with these unsigned rationals.
    Rationals(Vec<Rational>),
}

impl View for FieldValue {
    type V = Stored;

    open spec fn view(&self) -> Stored {
        match self {
            FieldValue::Missing => Stored::Missing,
            FieldValue::Other => Stored::Other,
            FieldValue::Rationals(v) => Stored::Rationals(v@),
        }
    }
}

/// What became of one component of the location.
#[derive(Clone, Copy, Debug, PartialEq, Eq, Structural)]
pub enum FieldStatus {
    /// The field was there and gave the component its value.
    Converted,
    /// The container has no such field; the component is 0.
    Missing,
    /// The field is there and cannot be read as a number; the component
    /// is 0.
    Broken,
}

/// The altitude that a field gives: its first rational, which must have a
/// denominator other than 0.
pub open spec fn altitude_of(field: Stored) -> Option<Fraction> {
    match field {
        Stored::Rationals(v) => if v.len() >= 1 && v[0].denom != 0 {
            Some(Fraction { num: v[0].num as u128, den: v[0].denom as u128 })
        } else {
            None
        },
        _ => None,
    }
}

/// The angle that a field gives: its first three rationals as degrees,
/// minutes and seconds, each of which must have a denominator other than 0.
pub open spec fn angle_of(field: Stored) -> Option<Fraction> {
    match field {
        Stored::Rationals(v) => if v.len() >= 3 && v[0].denom != 0 && v[1].denom != 0
            && v[2].denom != 0 {
            Some(dms_fraction(v[0], v[1], v[2]))
        } else {
            None
        },
        _ => None,
    }
}

/// The value of a component: what its field gave, or 0.
pub open spec fn component(value: Option<Fraction>) -> Fraction {
    match value {
        Some(f) => f,
        None => Fraction::spec_zero(),
    }
}

/// What became of a component, given its field and what the field gave.
pub open spec fn status_of(field: Stored, value: Option<Fraction>) -> FieldStatus {
    if field is Missing {
        FieldStatus::Missing
    } else if value is Some {
        FieldStatus::Converted
    } else {
        FieldStatus::Broken
    }
}

/// The altitude that a field gives, if it gives one.
pub fn altitude(field: &FieldValue) -> (out: Option<Fraction>)
    ensures
        out == altitude_of(field@),
        out matches Some(f) ==> f.wf(),
{
    match field {
        FieldValue::Rationals(v) => {
            if v.len() >= 1 && v[0].denom != 0 {
                Some(Fraction { num: v[0].num as u128, den: v[0].denom as u128 })
            } else {
                None
            }
        },
        _ => None,
    }
}

/// The angle in degrees that a field gives, if it gives one.
pub fn angle(field: &FieldValue) -> (out: Option<Fraction>)
    ensures
        out == angle_of(field@),
        out matches Some(f) ==> f.wf(),
{
    match field {
        FieldValue::Rationals(v) => {
            if v.len() >= 3 {
                decimal_degrees(v[0], v[1], v[2])
            } else {
                None
            }
        },
        _ => None,
    }
}

/// What became of a component.
pub fn status(field: &FieldValue, value: &Option<Fraction>) -> (out: FieldStatus)
    ensures
        out == status_of(field@, *value),
{
    match field {
        FieldValue::Missing => FieldStatus::Missing,
        _ => match value {
            Some(_) => FieldStatus::Converted,
            None => FieldStatus::Broken,
        },
    }
}

/// How the components of a location were come by.
#[derive(Clone, Copy, Debug, PartialEq, Eq, Structural)]
pub struct TagReport {
    /// Whether the file had a metadata container that could be read.
    pub container: bool,
    /// What became of the longitude.
    pub longitude: FieldStatus,
    /// What became of the latitude.
    pub latitude: FieldStatus,
    /// What became of the altitude.
    pub altitude: FieldStatus,
}

/// The location of a panorama, and how it was come by.
#[derive(Clone, Debug, PartialEq, Eq)]
pub struct GeoTag {
    /// Longitude and latitude in degrees and altitude in metres, in this
    /// order.
    pub lonlat: Vec<Fraction>,
    /// How the three were come by.
    pub report: TagReport,
}

/// Longitude, latitude and altitude, in this order, as three fields give
/// them.
pub open spec fn lonlat_of(longitude: Stored, latitude: Stored, altitude: Stored) -> Seq<
    Fraction,
> {
    seq![
        component(angle_of(longitude)),
        component(angle_of(latitude)),
        component(altitude_of(altitude)),
    ]
}

/// A location, and how it was come by, as a mathematical value.
pub struct Location {
    /// Longitude, latitude and altitude, in this order.
    pub lonlat: Seq<Fraction>,
    /// How the three were come by.
    pub report: TagReport,
}

impl Location {
    /// There are three components, each with a denominator other than 0.
    pub open spec fn wf(self) -> bool {
        &&& self.lonlat.len() == 3
        &&& forall|i: int| 0 <= i < 3 ==> (#[trigger] self.lonlat[i]).wf()
    }

    /// The location is what the three fields of a container give.
    pub open spec fn is_from(self, longitude: Stored, latitude: Stored, altitude: Stored) -> bool {
        &&& self.lonlat =~= lonlat_of(longitude, latitude, altitude)
        &&& self.report == (TagReport {
            container: true,
            longitude: status_of(longitude, angle_of(longitude)),
            latitude: status_of(latitude, angle_of(latitude)),
            altitude: status_of(altitude, altitude_of(altitude)),
        })
    }

    /// The location is that of a file without a container: all three
    /// components are 0.
    pub open spec fn is_absent(self) -> bool {
        &&& self.lonlat =~= seq![Fraction::spec_zero(), Fraction::spec_zero(), Fraction::spec_zero()]
        &&& self.report == (TagReport {
            container: false,
            longitude: FieldStatus::Missing,
            latitude: FieldStatus::Missing,
            altitude: FieldStatus::Missing,
        })
    }
}

impl View for GeoTag {
    type V = Location;

    open spec fn view(&self) -> Location {
        Location { lonlat: self.lonlat@, report: self.report }
    }
}

impl GeoTag {
    /// The tag of a file without a metadata container.
    pub fn absent() -> (tag: GeoTag)
        ensures
            tag@.wf(),
            tag@.is_absent(),
    {
        let mut lonlat: Vec<Fraction> = Vec::new();
        lonlat.push(Fraction::zero());
        lonlat.push(Fraction::zero());
        lonlat.push(Fraction::zero());
        GeoTag {
            lonlat,
            report: TagReport {
                container: false,
                longitude: FieldStatus::Missing,
                latitude: FieldStatus::Missing,
                altitude: FieldStatus::Missing,
            },
        }
    }

    /// The tag that the three fields of a container give. A field that is
    /// missing or cannot be read leaves its component at 0 and touches no
    /// other.
    pub fn from_fields(longitude: &FieldValue, latitude: &FieldValue, altitude: &FieldValue) -> (tag:
        GeoTag)
        ensures
            tag@.wf(),
            tag@.is_from(longitude@, latitude@, altitude@),
    {
        let lon = angle(longitude);
        let lat = angle(latitude);
        let alt = self::altitude(altitude);
        let mut lonlat: Vec<Fraction> = Vec::new();
        lonlat.push(
            match lon {
                Some(f) => f,
                None => Fraction::zero(),
            },
        );
        lonlat.push(
            match lat {
                Some(f) => f,
                None => Fraction::zero(),
            },
        );
        lonlat.push(
            match alt {
                Some(f) => f,
                None => Fraction::zero(),
            },
        );
        GeoTag {
            lonlat,
            report: TagReport {
                container: true,
                longitude: status(longitude, &lon),
                latitude: status(latitude, &lat),
                altitude: status(altitude, &alt),
            },
        }
    }
}

/// `exif::Exif`, the parsed metadata of a file. It is carried from the
/// call that parses to the calls that look fields up, and never looked
/// into here.
#[verifier::external_type_specification]
#[verifier::external_body]
pub struct ExExif(exif::Exif);

/// `exif::Error`, the reason why metadata could not be parsed. Nothing is
/// read from it: a file whose metadata cannot be parsed is treated like one
/// without metadata.
#[verifier::external_type_specification]
#[verifier::external_body]
pub struct ExExifError(exif::Error);

/// The GPS fields that parsed metadata holds for the primary image, by
/// field number: the rationals of a field that is stored as unsigned
/// rationals, `None` for a field of another type.
pub uninterp spec fn gps_fields(exif: exif::Exif) -> Map<u16, Option<Seq<Rational>>>;

/// The GPS fields that the metadata container in the bytes of a file holds
/// for the primary image; `None` if the bytes hold no container that can
/// be read.
pub uninterp spec fn container_gps_fields(container: Seq<u8>) -> Option<
    Map<u16, Option<Seq<Rational>>>,
>;

/// What `fields` holds under `number`.
pub open spec fn stored(fields: Map<u16, Option<Seq<Rational>>>, number: u16) -> Stored {
    if !fields.dom().contains(number) {
        Stored::Missing
    } else {
        match fields[number] {
            Some(v) => Stored::Rationals(v),
            None => Stored::Other,
        }
    }
}

/// Calls `exif::Reader::read_from_container` on the bytes of a file.
/// Trusted: what it returns depends on the bytes alone, so that the GPS
/// fields of the metadata it gives, or its failure, are what
/// `container_gps_fields` names for these bytes.
#[verifier::external_body]
fn read_container(container: &[u8]) -> (out: Result<exif::Exif, exif::Error>)
    ensures
        match out {
            Ok(exif) => container_gps_fields(container@) == Some(gps_fields(exif)),
            Err(_) => container_gps_fields(container@) is None,
        },
{
    exif::Reader::new().read_from_container(&mut std::io::Cursor::new(container))
}

/// Calls `exif::Exif::get_field` for the GPS field `number` of the primary
/// image and copies out what it finds. Trusted: the result is what
/// `gps_fields` holds under that number.
#[verifier::external_body]
fn gps_field(exif: &exif::Exif, number: u16) -> (out: FieldValue)
    ensures
        out@ == stored(gps_fields(*exif), number),
{
    match exif.get_field(exif::Tag(exif::Context::Gps, number), exif::In::PRIMARY) {
        None => FieldValue::Missing,
        Some(field) => match field.value {
            exif::Value::Rational(ref v) => FieldValue::Rationals(
                v.iter().map(|r| Rational { num: r.num, denom: r.denom }).collect(),
            ),
            _ => FieldValue::Other,
        },
    }
}

/// Whether `tag` is the location that a file with these GPS fields has.
pub open spec fn tag_matches(tag: Location, fields: Option<Map<u16, Option<Seq<Rational>>>>) -> bool {
    match fields {
        Some(m) => tag.is_from(
            stored(m, GPS_LONGITUDE),
            stored(m, GPS_LATITUDE),
            stored(m, GPS_ALTITUDE),
        ),
        None => tag.is_absent(),
    }
}

/// Reads the location from the bytes of an image file. A file without a
/// metadata container that can be read has the location 0, 0, 0; so has,
/// for each component by itself, one whose field is missing or cannot be
/// read as a number.
pub fn read_geotag(container: &[u8]) -> (tag: GeoTag)
    ensures
        tag@.wf(),
        tag_matches(tag@, container_gps_fields(container@)),
        container_gps_fields(container@) is None ==> tag.lonlat@ == seq![
            Fraction::spec_zero(),
            Fraction::spec_zero(),
            Fraction::spec_zero(),
        ],
{
    match read_container(container) {
        Ok(exif) => {
            let longitude = gps_field(&exif, GPS_LONGITUDE);
            let latitude = gps_field(&exif, GPS_LATITUDE);
            let altitude = gps_field(&exif, GPS_ALTITUDE);
            GeoTag::from_fields(&longitude, &latitude, &altitude)
        },
        Err(_) => GeoTag::absent(),
    }
}

} // verus!
