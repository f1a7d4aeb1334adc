//! The IPv6 database of the classic family.
//!
//! The file opens with the magic tag `IPDB`. Byte 6 gives the width of the
//! offset field of an index entry, byte 7 the width of its address field;
//! bytes 8 to 15 give the number of records and bytes 16 to 23 the offset of
//! the index, both little-endian. The index ends eleven bytes per record
//! behind its start. Only the first 64 bits of an address are indexed.
//! Records are stored as in the classic IPv4 database; text is UTF-8.

use crate::bytes::{le_value, read_u64_le};
use crate::error::NaliError;
use crate::index::{lookup, search_index, IndexLayout};
use crate::qqwry::{clean, cleaned, some_if_filled};
use crate::reader::{decode, Reader};
use crate::text::{utf8_lossy, utf8_lossy_text};
use crate::types::{non_empty, CdnProvider, DatabaseType, GeoLocation, GeoRecord, IpAddress};
use vstd::prelude::*;

pub use crate::bytes::bytes3_to_u32;

verus! {

/// Bytes of the header.
pub const HEADER_LEN: usize = 24;

/// Bytes that the header counts per record when it places the index end.
pub const RECORD_STRIDE: u64 = 11;

/// 2 to the power 64: what the indexed half of an address is multiplied by.
pub const HIGH_HALF: u128 = 0x1_0000_0000_0000_0000;

/// Whether `data` opens with the magic tag.
pub open spec fn has_magic(data: Seq<u8>) -> bool {
    &&& data.len() >= 4
    &&& data[0] == 0x49
    &&& data[1] == 0x50
    &&& data[2] == 0x44
    &&& data[3] == 0x42
}

/// The index start that the header of `data` gives.
pub open spec fn header_start(data: Seq<u8>) -> nat {
    le_value(data, 16, 8)
}

/// The index end that follows from the header of `data`.
pub open spec fn header_end(data: Seq<u8>) -> nat {
    le_value(data, 16, 8) + le_value(data, 8, 8) * 11
}

/// Whether `data` is a database file: it carries the magic tag and a whole
/// header, and its index is not empty and ends inside the file.
pub open spec fn valid_file(data: Seq<u8>) -> bool {
    &&& has_magic(data)
    &&& data.len() >= HEADER_LEN
    &&& header_start(data) < header_end(data)
    &&& header_end(data) <= data.len()
}

/// Whether `data` is a database file.
pub fn check_file(data: &[u8]) -> (ok: bool)
    ensures
        ok == valid_file(data@),
{
    if data.len() < 4 {
        return false;
    }
    if data[0] != 0x49 || data[1] != 0x50 || data[2] != 0x44 || data[3] != 0x42 {
        return false;
    }
    if data.len() < HEADER_LEN {
        return false;
    }
    let start: u64 = read_u64_le(data, 16);
    let counts: u64 = read_u64_le(data, 8);
    let end: u128 = (start as u128) + (counts as u128) * (RECORD_STRIDE as u128);
    if (start as u128) >= end || (data.len() as u128) < end {
        return false;
    }
    true
}

/// A file cut short of the index end that its header declares is no
/// database file.
pub proof fn lemma_truncated_file_invalid(data: Seq<u8>)
    requires
        data.len() < header_end(data),
    ensures
        !valid_file(data),
{
}

/// The index of a database with the given header fields.
pub open spec fn layout(start: u64, end: u64, off_len: u8, ip_len: u8) -> IndexLayout {
    IndexLayout {
        start: start as usize,
        end: end as usize,
        stride: (off_len + ip_len) as usize,
        key_width: 8,
        payload_offset: ip_len as usize,
    }
}

/// The answer made of the decoded country and area of a record: each
/// cleaned, and left out where nothing remains. The format carries nothing
/// else; the address shown is the indexed half followed by zeros.
pub open spec fn answer_from_text(ip: u64, country: Seq<char>, area: Seq<char>) -> GeoRecord {
    GeoRecord {
        ip: IpAddress::V6((ip * HIGH_HALF) as u128),
        country: non_empty(cleaned(country)),
        region: None,
        city: None,
        isp: non_empty(cleaned(area)),
        country_code: None,
        timezone: None,
        latitude: None,
        longitude: None,
    }
}

/// The answer made of the country and area bytes of a record, which are
/// UTF-8 text.
pub open spec fn answer(ip: u64, country: Seq<u8>, area: Seq<u8>) -> GeoRecord {
    answer_from_text(ip, utf8_lossy_text(country), utf8_lossy_text(area))
}

/// Makes the answer of the decoded country and area of a record.
pub fn location_from_text(ip: u64, country: &str, area: &str) -> (geo: GeoLocation)
    ensures
        geo@ == answer_from_text(ip, country@, area@),
{
    GeoLocation {
        ip: IpAddress::V6((ip as u128) * HIGH_HALF),
        country: some_if_filled(clean(country)),
        region: None,
        city: None,
        isp: some_if_filled(clean(area)),
        country_code: None,
        timezone: None,
        latitude: None,
        longitude: None,
    }
}

/// The IPv6 database.
pub struct ZXIPv6Database {
    name: String,
    loaded: bool,
    data: Vec<u8>,
    idx_start: u64,
    idx_end: u64,
    off_len: u8,
    ip_len: u8,
}

impl ZXIPv6Database {
    /// A loaded handle holds a file whose index ends inside it.
    #[verifier::type_invariant]
    spec fn header_checked(self) -> bool {
        self.loaded ==> self.idx_start < self.idx_end && self.idx_end <= self.data@.len()
    }

    /// Whether a file has been loaded.
    pub closed spec fn loaded(&self) -> bool {
        self.loaded
    }

    /// The bytes of the loaded file.
    pub closed spec fn bytes(&self) -> Seq<u8> {
        self.data@
    }

    /// The index of the loaded file.
    pub closed spec fn index(&self) -> IndexLayout {
        layout(self.idx_start, self.idx_end, self.off_len, self.ip_len)
    }

    /// The logical name.
    pub closed spec fn name_text(&self) -> Seq<char> {
        self.name@
    }

    /// The country and area bytes of the record that answers the address
    /// half `ip`: the index gives the offset at which the record starts.
    pub open spec fn record_bytes(&self, ip: u64) -> Option<(Seq<u8>, Seq<u8>)> {
        match lookup(self.index(), self.bytes(), ip as nat) {
            Some(offset) => decode(self.bytes(), offset as int),
            None => None,
        }
    }

    /// Whether the handle holds the file `data`, with the index that the
    /// header of `data` describes.
    pub open spec fn holds_file(&self, data: Seq<u8>) -> bool {
        &&& self.loaded()
        &&& self.bytes() == data
        &&& self.index() == layout(
            header_start(data) as u64,
            header_end(data) as u64,
            data[6],
            data[7],
        )
    }

    /// Whether `r` is what a lookup of the address half `ip` returns.
    ///
    /// An empty handle answers `None`. A loaded one answers with the record
    /// that the index and the decoder give; it fails with
    /// `DatabaseCorrupted` where the index region is not a whole number of
    /// entries and with `ParseError` where the search or the decoder leaves
    /// the file.
    pub open spec fn ipv6_answer(&self, ip: u64, r: Result<Option<GeoLocation>, NaliError>) -> bool {
        match r {
            Ok(None) => !self.loaded(),
            Ok(Some(geo)) => {
                &&& self.loaded()
                &&& self.record_bytes(ip) matches Some(pair)
                &&& geo@ == answer(ip, pair.0, pair.1)
            },
            Err(NaliError::DatabaseCorrupted(_)) => self.loaded() && !self.index().well_formed(),
            Err(NaliError::ParseError(_)) => self.loaded() && self.index().well_formed()
                && self.record_bytes(ip) is None,
            Err(_) => false,
        }
    }

    /// Whether `r` is what a lookup of the address `ip` returns: an IPv6
    /// address is looked up by its first 64 bits, an IPv4 address is never
    /// found.
    pub open spec fn ip_answer(&self, ip: IpAddress, r: Result<Option<GeoLocation>, NaliError>) -> bool {
        match ip {
            IpAddress::V4(_) => r matches Ok(None),
            IpAddress::V6(a) => self.ipv6_answer((a / HIGH_HALF) as u64, r),
        }
    }

    /// An empty handle.
    pub fn new() -> (db: Self)
        ensures
            !db.loaded(),
            db.name_text() == "zxipv6wry"@,
    {
        Self {
            name: "zxipv6wry".to_owned(),
            loaded: false,
            data: Vec::new(),
            idx_start: 0,
            idx_end: 0,
            off_len: 0,
            ip_len: 0,
        }
    }

    /// The logical name.
    pub fn name(&self) -> (n: &str)
        ensures
            n@ == self.name_text(),
    {
        self.name.as_str()
    }

    /// The format.
    pub fn database_type(&self) -> (t: DatabaseType)
        ensures
            t == DatabaseType::ZXIPv6Wry,
    {
        DatabaseType::ZXIPv6Wry
    }

    /// The format holds no IPv4 ranges.
    pub fn supports_ipv4(&self) -> (b: bool)
        ensures
            !b,
    {
        false
    }

    /// IPv6 is what this format holds.
    pub fn supports_ipv6(&self) -> (b: bool)
        ensures
            b,
    {
        true
    }

    /// The format holds no CDN patterns.
    pub fn supports_cdn(&self) -> (b: bool)
        ensures
            !b,
    {
        false
    }

    /// Whether a file has been loaded.
    pub fn is_loaded(&self) -> (b: bool)
        ensures
            b == self.loaded(),
    {
        self.loaded
    }

    /// Takes the contents `data` of the database file at `file_path`.
    ///
    /// Fails with `ParseError`, and leaves the handle as it was, unless
    /// `data` is a database file.
    pub fn load_from_file(&mut self, _file_path: &str, data: Vec<u8>) -> (r: Result<(), NaliError>)
        ensures
            match r {
                Ok(()) => {
                    &&& valid_file(data@)
                    &&& final(self).holds_file(data@)
                    &&& final(self).name_text() == old(self).name_text()
                },
                Err(e) => !valid_file(data@) && e is ParseError && *final(self) == *old(self),
            },
    {
        if !check_file(data.as_slice()) {
            return Err(NaliError::parse("Invalid ZX IPv6 database: file validation failed"));
        }
        let _len: usize = data.len();
        let off_len: u8 = data[6];
        let ip_len: u8 = data[7];
        let counts: u64 = read_u64_le(data.as_slice(), 8);
        let idx_start: u64 = read_u64_le(data.as_slice(), 16);
        let idx_end: u64 = idx_start + counts * RECORD_STRIDE;
        self.loaded = false;
        self.off_len = off_len;
        self.ip_len = ip_len;
        self.idx_start = idx_start;
        self.idx_end = idx_end;
        self.data = data;
        self.loaded = true;
        Ok(())
    }

    /// Finds the offset of the record whose range holds the address half
    /// `ip`.
    ///
    /// An empty handle gives `ParseError`. An index region that is not a
    /// whole number of entries gives `DatabaseCorrupted`; an entry that the
    /// search has to read outside the file gives `ParseError`.
    pub fn search_index(&self, ip: u64) -> (r: Result<u32, NaliError>)
        ensures
            match r {
                Ok(v) => self.loaded() && self.index().well_formed() && lookup(
                    self.index(),
                    self.bytes(),
                    ip as nat,
                ) == Some(v as nat),
                Err(NaliError::DatabaseCorrupted(_)) => self.loaded()
                    && !self.index().well_formed(),
                Err(NaliError::ParseError(_)) => !self.loaded() || (self.index().well_formed()
                    && lookup(self.index(), self.bytes(), ip as nat) is None),
                Err(_) => false,
            },
            r matches Ok(v) ==> v < 0x100_0000,
    {
        if !self.loaded {
            return Err(NaliError::parse("Database not loaded"));
        }
        proof {
            use_type_invariant(self);
        }
        let _len: usize = self.data.len();
        let index = IndexLayout {
            start: self.idx_start as usize,
            end: self.idx_end as usize,
            stride: self.off_len as usize + self.ip_len as usize,
            key_width: 8,
            payload_offset: self.ip_len as usize,
        };
        search_index(self.data.as_slice(), &index, ip)
    }

    /// Looks the first 64 bits of an IPv6 address up.
    ///
    /// An empty handle answers `None`. Otherwise the index gives the record,
    /// the decoder its country and area, and the answer holds both as text,
    /// cleaned of the trademark token and of surrounding white space.
    pub fn lookup_ipv6(&self, ip: u64) -> (r: Result<Option<GeoLocation>, NaliError>)
        ensures
            self.ipv6_answer(ip, r),
    {
        if !self.loaded {
            return Ok(None);
        }
        let offset: u32 = self.search_index(ip)?;
        let mut reader = Reader::new(self.data.as_slice());
        let (country_bytes, area_bytes) = reader.parse(offset)?;
        let country: String = utf8_lossy(country_bytes.as_slice());
        let area: String = utf8_lossy(area_bytes.as_slice());
        Ok(Some(location_from_text(ip, country.as_str(), area.as_str())))
    }

    /// Looks an address up: the first 64 bits of an IPv6 address in the
    /// index, an IPv4 address nowhere.
    pub fn lookup_ip(&self, ip: IpAddress) -> (r: Result<Option<GeoLocation>, NaliError>)
        ensures
            self.ip_answer(ip, r),
    {
        match ip {
            IpAddress::V4(_) => Ok(None),
            IpAddress::V6(a) => self.lookup_ipv6((a / HIGH_HALF) as u64),
        }
    }

    /// The format holds no CDN patterns: the answer is always `None`.
    pub fn lookup_cdn(&self, _domain: &str) -> (r: Result<Option<CdnProvider>, NaliError>)
        ensures
            r matches Ok(None),
    {
        Ok(None)
    }
}

} // verus!
