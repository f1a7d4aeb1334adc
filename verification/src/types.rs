//! Values that lookups take and return.

use vstd::prelude::*;

verus! {

/// An IP address as a number: the octets read most significant first.
#[derive(Clone, Copy, Debug, PartialEq, Eq, Structural)]
pub enum IpAddress {
    /// An IPv4 address.
    V4(u32),
    /// An IPv6 address.
    V6(u128),
}

/// The database formats.
#[derive(Clone, Copy, Debug, PartialEq, Eq, Structural)]
pub enum DatabaseType {
    /// The classic IPv4 database with pointer-chased records.
    QQwry,
    /// The IPv6 sibling of the classic database.
    ZXIPv6Wry,
    /// The MaxMind city database.
    GeoIP2,
    /// The fixed-record IPv4 database with translation tables.
    IPIP,
    /// The ip2region database.
    IP2Region,
    /// The DB-IP database.
    DBIP,
    /// The IP2Location database.
    IP2Location,
    /// The CDN provider patterns.
    CDN,
}

/// The view of an optional string.
pub open spec fn text_of(s: Option<String>) -> Option<Seq<char>> {
    match s {
        Some(t) => Some(t@),
        None => None,
    }
}

/// A copy of an optional string.
pub fn copy_text(s: &Option<String>) -> (r: Option<String>)
    ensures
        text_of(r) == text_of(*s),
{
    match s {
        Some(t) => Some(t.clone()),
        None => None,
    }
}

/// What a geolocation lookup found, as mathematical values.
pub ghost struct GeoRecord {
    pub ip: IpAddress,
    pub country: Option<Seq<char>>,
    pub region: Option<Seq<char>>,
    pub city: Option<Seq<char>>,
    pub isp: Option<Seq<char>>,
    pub country_code: Option<Seq<char>>,
    pub timezone: Option<Seq<char>>,
    pub latitude: Option<i32>,
    pub longitude: Option<i32>,
}

/// What a geolocation lookup found.
#[derive(Clone, Debug)]
pub struct GeoLocation {
    /// The address that was looked up.
    pub ip: IpAddress,
    pub country: Option<String>,
    pub region: Option<String>,
    pub city: Option<String>,
    pub isp: Option<String>,
    /// Two-letter country code.
    pub country_code: Option<String>,
    /// IANA time zone name.
    pub timezone: Option<String>,
    /// Latitude in millionths of a degree.
    pub latitude: Option<i32>,
    /// Longitude in millionths of a degree.
    pub longitude: Option<i32>,
}

impl View for GeoLocation {
    type V = GeoRecord;

    open spec fn view(&self) -> GeoRecord {
        GeoRecord {
            ip: self.ip,
            country: text_of(self.country),
            region: text_of(self.region),
            city: text_of(self.city),
            isp: text_of(self.isp),
            country_code: text_of(self.country_code),
            timezone: text_of(self.timezone),
            latitude: self.latitude,
            longitude: self.longitude,
        }
    }
}

impl GeoLocation {
    /// A copy with the same contents.
    pub fn duplicate(&self) -> (r: GeoLocation)
        ensures
            r@ == self@,
    {
        GeoLocation {
            ip: self.ip,
            country: copy_text(&self.country),
            region: copy_text(&self.region),
            city: copy_text(&self.city),
            isp: copy_text(&self.isp),
            country_code: copy_text(&self.country_code),
            timezone: copy_text(&self.timezone),
            latitude: self.latitude,
            longitude: self.longitude,
        }
    }
}

/// What a CDN lookup found, as mathematical values.
pub ghost struct CdnRecord {
    pub domain: Seq<char>,
    pub provider: Seq<char>,
    pub description: Option<Seq<char>>,
}

/// What a CDN lookup found.
#[derive(Clone, Debug)]
pub struct CdnProvider {
    /// The domain that was asked about, as it was written.
    pub domain: String,
    /// Display name of the provider.
    pub provider: String,
    /// Free text or a link.
    pub description: Option<String>,
}

impl View for CdnProvider {
    type V = CdnRecord;

    open spec fn view(&self) -> CdnRecord {
        CdnRecord {
            domain: self.domain@,
            provider: self.provider@,
            description: text_of(self.description),
        }
    }
}

impl CdnProvider {
    /// A copy with the same contents.
    pub fn duplicate(&self) -> (r: CdnProvider)
        ensures
            r@ == self@,
    {
        CdnProvider {
            domain: self.domain.clone(),
            provider: self.provider.clone(),
            description: copy_text(&self.description),
        }
    }
}

/// `Some` of a text that has characters, `None` of an empty one.
pub open spec fn non_empty(s: Seq<char>) -> Option<Seq<char>> {
    if s.len() > 0 {
        Some(s)
    } else {
        None
    }
}

} // verus!
