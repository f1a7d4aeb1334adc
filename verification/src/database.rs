//! One handle type over all database formats.

use crate::cdn::CDNDatabase;
use crate::dbip::DBIPDatabase;
use crate::error::NaliError;
use crate::geoip2::GeoIP2Database;
use crate::ip2location::IP2LocationDatabase;
use crate::ip2region::IP2RegionDatabase;
use crate::ipip::IPIPDatabase;
use crate::qqwry::QQwryDatabase;
use crate::text::utf8_text;
use crate::types::{CdnProvider, DatabaseType, GeoLocation, IpAddress};
use crate::zxipv6::ZXIPv6Database;
use vstd::prelude::*;

verus! {

/// A database of one of the formats.
pub enum DatabaseHandle {
    QQwry(QQwryDatabase),
    ZXIPv6Wry(ZXIPv6Database),
    GeoIP2(GeoIP2Database),
    IPIP(IPIPDatabase),
    IP2Region(IP2RegionDatabase),
    DBIP(DBIPDatabase),
    IP2Location(IP2LocationDatabase),
    CDN(CDNDatabase),
}

impl DatabaseHandle {
    /// The format of the handle.
    pub open spec fn kind(&self) -> DatabaseType {
        match self {
            DatabaseHandle::QQwry(_) => DatabaseType::QQwry,
            DatabaseHandle::ZXIPv6Wry(_) => DatabaseType::ZXIPv6Wry,
            DatabaseHandle::GeoIP2(_) => DatabaseType::GeoIP2,
            DatabaseHandle::IPIP(_) => DatabaseType::IPIP,
            DatabaseHandle::IP2Region(_) => DatabaseType::IP2Region,
            DatabaseHandle::DBIP(_) => DatabaseType::DBIP,
            DatabaseHandle::IP2Location(_) => DatabaseType::IP2Location,
            DatabaseHandle::CDN(_) => DatabaseType::CDN,
        }
    }

    /// Whether the handle has been loaded.
    pub open spec fn loaded(&self) -> bool {
        match self {
            DatabaseHandle::QQwry(db) => db.loaded(),
            DatabaseHandle::ZXIPv6Wry(db) => db.loaded(),
            DatabaseHandle::GeoIP2(db) => db.loaded(),
            DatabaseHandle::IPIP(db) => db.loaded(),
            DatabaseHandle::IP2Region(db) => db.loaded(),
            DatabaseHandle::DBIP(db) => db.loaded(),
            DatabaseHandle::IP2Location(db) => db.loaded(),
            DatabaseHandle::CDN(db) => db.loaded(),
        }
    }

    /// The format of the handle.
    pub fn database_type(&self) -> (t: DatabaseType)
        ensures
            t == self.kind(),
    {
        match self {
            DatabaseHandle::QQwry(db) => db.database_type(),
            DatabaseHandle::ZXIPv6Wry(db) => db.database_type(),
            DatabaseHandle::GeoIP2(db) => db.database_type(),
            DatabaseHandle::IPIP(db) => db.database_type(),
            DatabaseHandle::IP2Region(db) => db.database_type(),
            DatabaseHandle::DBIP(db) => db.database_type(),
            DatabaseHandle::IP2Location(db) => db.database_type(),
            DatabaseHandle::CDN(db) => db.database_type(),
        }
    }

    /// Whether the handle has been loaded.
    pub fn is_loaded(&self) -> (b: bool)
        ensures
            b == self.loaded(),
    {
        match self {
            DatabaseHandle::QQwry(db) => db.is_loaded(),
            DatabaseHandle::ZXIPv6Wry(db) => db.is_loaded(),
            DatabaseHandle::GeoIP2(db) => db.is_loaded(),
            DatabaseHandle::IPIP(db) => db.is_loaded(),
            DatabaseHandle::IP2Region(db) => db.is_loaded(),
            DatabaseHandle::DBIP(db) => db.is_loaded(),
            DatabaseHandle::IP2Location(db) => db.is_loaded(),
            DatabaseHandle::CDN(db) => db.is_loaded(),
        }
    }

    /// Whether the handle answers IPv4 lookups.
    pub fn supports_ipv4(&self) -> (b: bool)
        ensures
            b == !(self is ZXIPv6Wry || self is CDN),
    {
        match self {
            DatabaseHandle::QQwry(db) => db.supports_ipv4(),
            DatabaseHandle::ZXIPv6Wry(db) => db.supports_ipv4(),
            DatabaseHandle::GeoIP2(db) => db.supports_ipv4(),
            DatabaseHandle::IPIP(db) => db.supports_ipv4(),
            DatabaseHandle::IP2Region(db) => db.supports_ipv4(),
            DatabaseHandle::DBIP(db) => db.supports_ipv4(),
            DatabaseHandle::IP2Location(db) => db.supports_ipv4(),
            DatabaseHandle::CDN(db) => db.supports_ipv4(),
        }
    }

    /// Whether the handle answers IPv6 lookups.
    pub fn supports_ipv6(&self) -> (b: bool)
        ensures
            b == match self {
                DatabaseHandle::ZXIPv6Wry(_) => true,
                DatabaseHandle::GeoIP2(_) => true,
                DatabaseHandle::IPIP(db) => db.ipv6(),
                _ => false,
            },
    {
        match self {
            DatabaseHandle::QQwry(db) => db.supports_ipv6(),
            DatabaseHandle::ZXIPv6Wry(db) => db.supports_ipv6(),
            DatabaseHandle::GeoIP2(db) => db.supports_ipv6(),
            DatabaseHandle::IPIP(db) => db.supports_ipv6(),
            DatabaseHandle::IP2Region(db) => db.supports_ipv6(),
            DatabaseHandle::DBIP(db) => db.supports_ipv6(),
            DatabaseHandle::IP2Location(db) => db.supports_ipv6(),
            DatabaseHandle::CDN(db) => db.supports_ipv6(),
        }
    }

    /// Whether the handle answers CDN lookups.
    pub fn supports_cdn(&self) -> (b: bool)
        ensures
            b == (self is CDN),
    {
        match self {
            DatabaseHandle::QQwry(db) => db.supports_cdn(),
            DatabaseHandle::ZXIPv6Wry(db) => db.supports_cdn(),
            DatabaseHandle::GeoIP2(db) => db.supports_cdn(),
            DatabaseHandle::IPIP(db) => db.supports_cdn(),
            DatabaseHandle::IP2Region(db) => db.supports_cdn(),
            DatabaseHandle::DBIP(db) => db.supports_cdn(),
            DatabaseHandle::IP2Location(db) => db.supports_cdn(),
            DatabaseHandle::CDN(db) => db.supports_cdn(),
        }
    }

    /// Whether lookups are answered by a reader kept outside the library.
    pub fn served_outside(&self) -> (b: bool)
        ensures
            b == (self is GeoIP2),
    {
        match self {
            DatabaseHandle::GeoIP2(_) => true,
            _ => false,
        }
    }

    /// Whether the handle holds nothing yet.
    pub open spec fn pristine(&self) -> bool {
        &&& !self.loaded()
        &&& self matches DatabaseHandle::CDN(db) ==> db.is_empty()
    }

    /// Whether the handle holds what the file `data` gives to a handle of
    /// its format.
    pub open spec fn holds_file(&self, data: Seq<u8>) -> bool {
        match self {
            DatabaseHandle::QQwry(db) => db.holds_file(data),
            DatabaseHandle::ZXIPv6Wry(db) => db.holds_file(data),
            DatabaseHandle::GeoIP2(db) => db.loaded(),
            DatabaseHandle::IPIP(db) => db.holds_file(data),
            DatabaseHandle::IP2Region(db) => db.loaded(),
            DatabaseHandle::DBIP(db) => db.loaded(),
            DatabaseHandle::IP2Location(db) => db.loaded(),
            DatabaseHandle::CDN(db) => db.holds_source(vstd::utf8::decode_utf8(data)),
        }
    }

    /// Whether a handle of format `t` can be loaded from `data`.
    pub open spec fn loadable(t: DatabaseType, data: Seq<u8>) -> bool {
        match t {
            DatabaseType::QQwry => crate::qqwry::valid_header(data),
            DatabaseType::ZXIPv6Wry => crate::zxipv6::valid_file(data),
            DatabaseType::IPIP => crate::ipip::valid_file(data),
            DatabaseType::CDN => vstd::utf8::valid_utf8(data) && crate::cdn::source_entries(
                vstd::utf8::decode_utf8(data),
            ) is Some,
            _ => true,
        }
    }

    /// Whether `e` is the failure of loading a handle of format `t` from
    /// `data`: bytes that are no text, or text that is no source document,
    /// for the CDN matcher; a bad header for the binary formats.
    pub open spec fn load_failure(t: DatabaseType, data: Seq<u8>, e: NaliError) -> bool {
        match t {
            DatabaseType::CDN => if vstd::utf8::valid_utf8(data) {
                e is YamlError
            } else {
                e is IoError
            },
            _ => e is ParseError,
        }
    }

    /// Loads the contents of the database file at `file_path` into the
    /// handle.
    ///
    /// The binary formats take the bytes as they are; the pass-through
    /// formats and the handle of an outside reader only mark themselves
    /// loaded; the CDN matcher takes them as UTF-8 text and fails with
    /// `IoError` where they are none. On failure the handle stays as it
    /// was.
    pub fn load(&mut self, data: Vec<u8>, file_path: &str) -> (r: Result<(), NaliError>)
        ensures
            final(self).kind() == old(self).kind(),
            r is Ok ==> final(self).loaded(),
            r is Ok && (old(self).pristine() || !(*old(self) is CDN)) ==> final(self).holds_file(
                data@,
            ),
            r is Err ==> *final(self) == *old(self),
            r is Ok <==> Self::loadable(old(self).kind(), data@),
            r matches Err(e) ==> Self::load_failure(old(self).kind(), data@, e),
    {
        match self {
            DatabaseHandle::QQwry(db) => db.load_from_file(file_path, data),
            DatabaseHandle::ZXIPv6Wry(db) => db.load_from_file(file_path, data),
            DatabaseHandle::GeoIP2(db) => db.load_from_file(file_path),
            DatabaseHandle::IPIP(db) => db.load_from_file(file_path, data),
            DatabaseHandle::IP2Region(db) => db.load_from_file(file_path),
            DatabaseHandle::DBIP(db) => db.load_from_file(file_path),
            DatabaseHandle::IP2Location(db) => db.load_from_file(file_path),
            DatabaseHandle::CDN(db) => {
                match utf8_text(data) {
                    Some(text) => db.load_from_file(file_path, text.as_str()),
                    None => Err(NaliError::IoError("stream did not contain valid UTF-8".to_owned())),
                }
            },
        }
    }

    /// Whether `r` is what a lookup of the address `ip` returns: what the
    /// format of the handle answers; the handle of an outside reader and
    /// the CDN matcher hold no ranges and answer `None`.
    pub open spec fn ip_answer(&self, ip: IpAddress, r: Result<Option<GeoLocation>, NaliError>) -> bool {
        match self {
            DatabaseHandle::QQwry(db) => db.ip_answer(ip, r),
            DatabaseHandle::ZXIPv6Wry(db) => db.ip_answer(ip, r),
            DatabaseHandle::GeoIP2(_) => r matches Ok(None),
            DatabaseHandle::IPIP(db) => db.ip_answer(ip, r),
            DatabaseHandle::IP2Region(_) => IP2RegionDatabase::ip_answer(ip, r),
            DatabaseHandle::DBIP(_) => DBIPDatabase::ip_answer(ip, r),
            DatabaseHandle::IP2Location(_) => IP2LocationDatabase::ip_answer(ip, r),
            DatabaseHandle::CDN(_) => r matches Ok(None),
        }
    }

    /// Whether `r` is what a lookup of `domain` returns: what the CDN
    /// matcher answers; any other handle answers `None`.
    pub open spec fn cdn_answer(&self, domain: Seq<char>, r: Result<Option<CdnProvider>, NaliError>) -> bool {
        match self {
            DatabaseHandle::CDN(db) => db.cdn_answer(domain, r),
            _ => r matches Ok(None),
        }
    }

    /// Looks an address up in the handle.
    pub fn lookup_ip(&self, ip: IpAddress) -> (r: Result<Option<GeoLocation>, NaliError>)
        ensures
            self.ip_answer(ip, r),
    {
        match self {
            DatabaseHandle::QQwry(db) => db.lookup_ip(ip),
            DatabaseHandle::ZXIPv6Wry(db) => db.lookup_ip(ip),
            DatabaseHandle::GeoIP2(_) => Ok(None),
            DatabaseHandle::IPIP(db) => db.lookup_ip(ip),
            DatabaseHandle::IP2Region(db) => db.lookup_ip(ip),
            DatabaseHandle::DBIP(db) => db.lookup_ip(ip),
            DatabaseHandle::IP2Location(db) => db.lookup_ip(ip),
            DatabaseHandle::CDN(db) => db.lookup_ip(ip),
        }
    }

    /// Looks a domain up in the handle: only the CDN matcher answers.
    pub fn lookup_cdn(&self, domain: &str) -> (r: Result<Option<CdnProvider>, NaliError>)
        ensures
            self.cdn_answer(domain@, r),
    {
        match self {
            DatabaseHandle::CDN(db) => db.lookup_cdn(domain),
            _ => Ok(None),
        }
    }
}

/// Makes empty handles.
pub struct DatabaseFactory;

impl DatabaseFactory {
    /// An empty handle of the given format.
    pub fn create(db_type: DatabaseType) -> (h: DatabaseHandle)
        ensures
            h.kind() == db_type,
            h.pristine(),
    {
        match db_type {
            DatabaseType::QQwry => DatabaseHandle::QQwry(QQwryDatabase::new()),
            DatabaseType::ZXIPv6Wry => DatabaseHandle::ZXIPv6Wry(ZXIPv6Database::new()),
            DatabaseType::GeoIP2 => DatabaseHandle::GeoIP2(GeoIP2Database::new()),
            DatabaseType::IPIP => DatabaseHandle::IPIP(IPIPDatabase::new()),
            DatabaseType::IP2Region => DatabaseHandle::IP2Region(IP2RegionDatabase::new()),
            DatabaseType::DBIP => DatabaseHandle::DBIP(DBIPDatabase::new()),
            DatabaseType::IP2Location => DatabaseHandle::IP2Location(IP2LocationDatabase::new()),
            DatabaseType::CDN => DatabaseHandle::CDN(CDNDatabase::new()),
        }
    }
}

} // verus!
