//! The MaxMind city database.
//!
//! Its reader is kept outside the library; the handle here records under
//! which name the database goes and whether its reader has been opened.
//! What the reader finds is handed over as a record of plain values, from
//! which the answer is made here.

use crate::error::NaliError;
use crate::types::{copy_text, text_of, DatabaseType, GeoLocation, GeoRecord, IpAddress};
use vstd::prelude::*;

verus! {

/// Names by language, as mathematical values.
pub type NamesView = Seq<(Seq<char>, Seq<char>)>;

/// The names of a vector, as mathematical values.
pub open spec fn names_view(v: Seq<(String, String)>) -> NamesView {
    Seq::new(v.len(), |i: int| (v[i].0@, v[i].1@))
}

/// What the reader found for an address: names by language, codes, and
/// coordinates in millionths of a degree.
#[derive(Clone, Debug)]
pub struct CityRecord {
    /// The names of the country: language and name.
    pub country_names: Vec<(String, String)>,
    /// The ISO code of the country.
    pub country_code: Option<String>,
    /// The names of the city.
    pub city_names: Vec<(String, String)>,
    /// The names of each subdivision, from the largest to the smallest.
    pub subdivisions: Vec<Vec<(String, String)>>,
    /// IANA time zone name.
    pub time_zone: Option<String>,
    pub latitude: Option<i32>,
    pub longitude: Option<i32>,
}

/// The name in `language`, from `from` on.
pub open spec fn name_in(names: NamesView, language: Seq<char>, from: int) -> Option<Seq<char>>
    decreases names.len() - from,
{
    if from < 0 || from >= names.len() {
        None
    } else if names[from].0 == language {
        Some(names[from].1)
    } else {
        name_in(names, language, from + 1)
    }
}

/// The name that is shown: the Chinese one, else the English one.
pub open spec fn shown_name(names: NamesView) -> Option<Seq<char>> {
    match name_in(names, "zh-CN"@, 0) {
        Some(n) => Some(n),
        None => name_in(names, "en"@, 0),
    }
}

/// The answer made of a record: the shown names of the country, of the
/// smallest subdivision and of the city, the country code, the time zone
/// and the coordinates. The format names no provider.
pub open spec fn record_answer(ip: IpAddress, record: CityRecord) -> GeoRecord {
    GeoRecord {
        ip: ip,
        country: shown_name(names_view(record.country_names@)),
        region: if record.subdivisions@.len() > 0 {
            shown_name(names_view(record.subdivisions@.last()@))
        } else {
            None
        },
        city: shown_name(names_view(record.city_names@)),
        isp: None,
        country_code: text_of(record.country_code),
        timezone: text_of(record.time_zone),
        latitude: record.latitude,
        longitude: record.longitude,
    }
}

/// Finds the name in `language`.
fn find_name(names: &Vec<(String, String)>, language: &str) -> (r: Option<String>)
    ensures
        text_of(r) == name_in(names_view(names@), language@, 0),
{
    let wanted: String = language.to_owned();
    let mut i: usize = 0;
    while i < names.len()
        invariant
            i <= names@.len(),
            wanted@ == language@,
            name_in(names_view(names@), language@, i as int) == name_in(
                names_view(names@),
                language@,
                0,
            ),
        decreases names@.len() - i,
    {
        if names[i].0 == wanted {
            return Some(names[i].1.clone());
        }
        i = i + 1;
    }
    None
}

/// Picks the name that is shown: the Chinese one, else the English one.
pub fn pick_name(names: &Vec<(String, String)>) -> (r: Option<String>)
    ensures
        text_of(r) == shown_name(names_view(names@)),
{
    match find_name(names, "zh-CN") {
        Some(n) => Some(n),
        None => find_name(names, "en"),
    }
}

/// Makes the answer of what the reader found for `ip`.
pub fn location_from_record(ip: IpAddress, record: &CityRecord) -> (geo: GeoLocation)
    ensures
        geo@ == record_answer(ip, *record),
{
    let region: Option<String> = if record.subdivisions.len() > 0 {
        pick_name(&record.subdivisions[record.subdivisions.len() - 1])
    } else {
        None
    };
    GeoLocation {
        ip,
        country: pick_name(&record.country_names),
        region,
        city: pick_name(&record.city_names),
        isp: None,
        country_code: copy_text(&record.country_code),
        timezone: copy_text(&record.time_zone),
        latitude: record.latitude,
        longitude: record.longitude,
    }
}

/// The handle of a MaxMind city database.
pub struct GeoIP2Database {
    name: String,
    loaded: bool,
}

impl GeoIP2Database {
    /// Whether the reader has been opened.
    pub closed spec fn loaded(&self) -> bool {
        self.loaded
    }

    /// The logical name.
    pub closed spec fn name_text(&self) -> Seq<char> {
        self.name@
    }

    /// An empty handle.
    pub fn new() -> (db: Self)
        ensures
            !db.loaded(),
            db.name_text() == "geoip2"@,
    {
        Self { name: "geoip2".to_owned(), loaded: false }
    }

    /// The logical name.
    pub fn name(&self) -> (n: &str)
        ensures
            n@ == self.name_text(),
    {
        self.name.as_str()
    }

    /// The format.
    pub fn database_type(&self) -> (t: DatabaseType)
        ensures
            t == DatabaseType::GeoIP2,
    {
        DatabaseType::GeoIP2
    }

    /// The format holds IPv4 ranges.
    pub fn supports_ipv4(&self) -> (b: bool)
        ensures
            b,
    {
        true
    }

    /// The format holds IPv6 ranges.
    pub fn supports_ipv6(&self) -> (b: bool)
        ensures
            b,
    {
        true
    }

    /// The format holds no CDN patterns.
    pub fn supports_cdn(&self) -> (b: bool)
        ensures
            !b,
    {
        false
    }

    /// Whether the reader has been opened.
    pub fn is_loaded(&self) -> (b: bool)
        ensures
            b == self.loaded(),
    {
        self.loaded
    }

    /// Records that the reader of the file at `file_path` has been opened.
    pub fn load_from_file(&mut self, _file_path: &str) -> (r: Result<(), NaliError>)
        ensures
            r is Ok,
            final(self).loaded(),
            final(self).name_text() == old(self).name_text(),
    {
        self.loaded = true;
        Ok(())
    }
}

} // verus!
