//! The ip2region database: a pass-through that answers every lookup with the same
//! demonstration record.

use crate::error::NaliError;
use crate::types::{CdnProvider, DatabaseType, GeoLocation, GeoRecord, IpAddress};
use vstd::prelude::*;

verus! {

/// The ip2region database.
pub struct IP2RegionDatabase {
    name: String,
    loaded: bool,
}

impl IP2RegionDatabase {
    /// Whether a file has been loaded.
    pub closed spec fn loaded(&self) -> bool {
        self.loaded
    }

    /// The logical name.
    pub closed spec fn name_text(&self) -> Seq<char> {
        self.name@
    }

    /// The record that answers every lookup, for the address asked.
    pub open spec fn answer(ip: IpAddress) -> GeoRecord {
        GeoRecord {
            ip: ip,
            country: Some("China"@),
            region: Some("Beijing"@),
            city: Some("Beijing"@),
            isp: Some("China Unicom"@),
            country_code: Some("CN"@),
            timezone: Some("Asia/Shanghai"@),
            latitude: Some(39_904_200i32),
            longitude: Some(116_407_400i32),
        }
    }

    /// Whether `r` is what a lookup of the address `ip` returns: always the
    /// demonstration record.
    pub open spec fn ip_answer(ip: IpAddress, r: Result<Option<GeoLocation>, NaliError>) -> bool {
        r matches Ok(Some(geo)) && geo@ == Self::answer(ip)
    }

    /// An empty handle.
    pub fn new() -> (db: Self)
        ensures
            !db.loaded(),
            db.name_text() == "ip2region"@,
    {
        Self { name: "ip2region".to_owned(), loaded: false }
    }

    /// The logical name.
    pub fn name(&self) -> (n: &str)
        ensures
            n@ == self.name_text(),
    {
        self.name.as_str()
    }

    /// The format.
    pub fn database_type(&self) -> (t: DatabaseType)
        ensures
            t == DatabaseType::IP2Region,
    {
        DatabaseType::IP2Region
    }

    /// IPv4 lookups are answered.
    pub fn supports_ipv4(&self) -> (b: bool)
        ensures
            b,
    {
        true
    }

    /// IPv6 is not announced.
    pub fn supports_ipv6(&self) -> (b: bool)
        ensures
            !b,
    {
        false
    }

    /// The format holds no CDN patterns.
    pub fn supports_cdn(&self) -> (b: bool)
        ensures
            !b,
    {
        false
    }

    /// Whether a file has been loaded.
    pub fn is_loaded(&self) -> (b: bool)
        ensures
            b == self.loaded(),
    {
        self.loaded
    }

    /// Answers with the demonstration record, whatever the address.
    pub fn lookup_ip(&self, ip: IpAddress) -> (r: Result<Option<GeoLocation>, NaliError>)
        ensures
            Self::ip_answer(ip, r),
    {
        Ok(
            Some(
                GeoLocation {
                    ip,
                    country: Some("China".to_owned()),
                    region: Some("Beijing".to_owned()),
                    city: Some("Beijing".to_owned()),
                    isp: Some("China Unicom".to_owned()),
                    country_code: Some("CN".to_owned()),
                    timezone: Some("Asia/Shanghai".to_owned()),
                    latitude: Some(39_904_200),
                    longitude: Some(116_407_400),
                },
            ),
        )
    }

    /// The format holds no CDN patterns: the answer is always `None`.
    pub fn lookup_cdn(&self, _domain: &str) -> (r: Result<Option<CdnProvider>, NaliError>)
        ensures
            r matches Ok(None),
    {
        Ok(None)
    }

    /// Marks the handle as loaded; the file is not read.
    pub fn load_from_file(&mut self, _file_path: &str) -> (r: Result<(), NaliError>)
        ensures
            r is Ok,
            final(self).loaded(),
            final(self).name_text() == old(self).name_text(),
    {
        self.loaded = true;
        Ok(())
    }
}

} // verus!
