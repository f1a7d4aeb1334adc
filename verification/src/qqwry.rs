//! The classic IPv4 database.
//!
//! The file opens with two little-endian 32-bit offsets: that of the first
//! and that of the last index entry. An index entry is seven bytes: a 32-bit
//! key, the first address of a range, and a three-byte offset of the record
//! of that range. A record starts with the last address of its range, four
//! bytes, followed by the country and the area, stored as the pointer-chasing
//! decoder reads them. Text is GBK.

use crate::bytes::{le_value, read_u32_le};
use crate::error::NaliError;
use crate::index::{lookup, search_index, IndexLayout};
use crate::reader::{decode, Reader};
use crate::text::{
    chars_of, gbk_text, gbk_to_utf8, remove_all, string_of, trim, trimmed, without,
    GBK_INPUT_LIMIT,
};
use crate::types::{non_empty, CdnProvider, DatabaseType, GeoLocation, GeoRecord, IpAddress};
use vstd::prelude::*;

pub use crate::bytes::bytes3_to_u32;

verus! {

/// Bytes of one index entry.
pub const ENTRY_LEN: usize = 7;

/// Bytes of the key at the head of an index entry.
pub const KEY_LEN: usize = 4;

/// The token that the database's maintainers put in place of text they do
/// not have.
pub open spec fn trademark() -> Seq<char> {
    "CZ88.NET"@
}

/// `s` without the trademark token and without surrounding white space.
pub open spec fn cleaned(s: Seq<char>) -> Seq<char> {
    trimmed(without(s, trademark()))
}

/// Takes the trademark token and surrounding white space off `s`.
pub fn clean(s: &str) -> (r: String)
    ensures
        r@ == cleaned(s@),
{
    let chars: Vec<char> = chars_of(s);
    let token: Vec<char> = chars_of("CZ88.NET");
    let kept: Vec<char> = remove_all(chars.as_slice(), token.as_slice());
    let kept: Vec<char> = trim(kept.as_slice());
    string_of(kept.as_slice())
}

/// `Some` of a string that has characters, `None` of an empty one.
pub fn some_if_filled(s: String) -> (r: Option<String>)
    ensures
        crate::types::text_of(r) == non_empty(s@),
{
    if s.as_str().unicode_len() > 0 {
        Some(s)
    } else {
        None
    }
}

/// The index of a database whose header gave `start` and `end`.
pub open spec fn layout(start: u32, end: u32) -> IndexLayout {
    IndexLayout {
        start: start as usize,
        end: end as usize,
        stride: ENTRY_LEN,
        key_width: KEY_LEN,
        payload_offset: KEY_LEN,
    }
}

/// Whether `data` opens with a header that a database can be loaded from:
/// eight bytes, a first entry before the last, and the last entry inside the
/// file.
pub open spec fn valid_header(data: Seq<u8>) -> bool {
    &&& data.len() >= 8
    &&& le_value(data, 0, 4) < le_value(data, 4, 4)
    &&& data.len() >= le_value(data, 4, 4) + ENTRY_LEN
}

/// A file cut short of the last index entry that its header declares has no
/// valid header.
pub proof fn lemma_truncated_file_invalid(data: Seq<u8>)
    requires
        data.len() < le_value(data, 4, 4) + ENTRY_LEN,
    ensures
        !valid_header(data),
{
}

/// The country and area bytes of the record that answers `ip`: the index
/// gives the record's offset, and the strings start four bytes into it.
pub open spec fn record_bytes(data: Seq<u8>, start: u32, end: u32, ip: u32) -> Option<
    (Seq<u8>, Seq<u8>),
> {
    match lookup(layout(start, end), data, ip as nat) {
        Some(offset) => decode(data, (offset + 4) as int),
        None => None,
    }
}

/// The answer made of the decoded country and area of a record: each
/// cleaned, and left out where nothing remains. The format carries neither
/// region nor city nor coordinates; country code and time zone are those of
/// the database's home.
pub open spec fn answer_from_text(ip: u32, country: Seq<char>, area: Seq<char>) -> GeoRecord {
    GeoRecord {
        ip: IpAddress::V4(ip),
        country: non_empty(cleaned(country)),
        region: None,
        city: None,
        isp: non_empty(cleaned(area)),
        country_code: Some("CN"@),
        timezone: Some("Asia/Shanghai"@),
        latitude: None,
        longitude: None,
    }
}

/// The answer made of the country and area bytes of a record, which are
/// GBK text.
pub open spec fn answer(ip: u32, country: Seq<u8>, area: Seq<u8>) -> GeoRecord {
    answer_from_text(ip, trimmed(gbk_text(country)), trimmed(gbk_text(area)))
}

/// Makes the answer of the decoded country and area of a record.
pub fn location_from_text(ip: u32, country: &str, area: &str) -> (geo: GeoLocation)
    ensures
        geo@ == answer_from_text(ip, country@, area@),
{
    GeoLocation {
        ip: IpAddress::V4(ip),
        country: some_if_filled(clean(country)),
        region: None,
        city: None,
        isp: some_if_filled(clean(area)),
        country_code: Some("CN".to_owned()),
        timezone: Some("Asia/Shanghai".to_owned()),
        latitude: None,
        longitude: None,
    }
}

/// The classic IPv4 database.
pub struct QQwryDatabase {
    name: String,
    loaded: bool,
    data: Vec<u8>,
    idx_start: u32,
    idx_end: u32,
}

impl QQwryDatabase {
    /// A loaded handle holds a file whose header was found valid.
    #[verifier::type_invariant]
    spec fn header_checked(self) -> bool {
        self.loaded ==> self.idx_start < self.idx_end
    }

    /// Whether a file has been loaded.
    pub closed spec fn loaded(&self) -> bool {
        self.loaded
    }

    /// The bytes of the loaded file.
    pub closed spec fn bytes(&self) -> Seq<u8> {
        self.data@
    }

    /// Offset of the first index entry.
    pub closed spec fn index_start(&self) -> u32 {
        self.idx_start
    }

    /// Offset of the last index entry.
    pub closed spec fn index_end(&self) -> u32 {
        self.idx_end
    }

    /// The logical name.
    pub closed spec fn name_text(&self) -> Seq<char> {
        self.name@
    }

    /// Whether the handle holds the file `data`, with the index where the
    /// header of `data` places it.
    pub open spec fn holds_file(&self, data: Seq<u8>) -> bool {
        &&& self.loaded()
        &&& self.bytes() == data
        &&& self.index_start() == le_value(data, 0, 4)
        &&& self.index_end() == le_value(data, 4, 4)
    }

    /// Whether `r` is what a lookup of the IPv4 address `ip` returns.
    ///
    /// An empty handle answers `None`. A loaded one answers with the record
    /// that the index and the decoder give; it fails with
    /// `DatabaseCorrupted` where the index region is not a whole number of
    /// entries, with `ParseError` where the search or the decoder leaves the
    /// file, and with `EncodingError` where a string is too long to decode.
    pub open spec fn ipv4_answer(&self, ip: u32, r: Result<Option<GeoLocation>, NaliError>) -> bool {
        let index = layout(self.index_start(), self.index_end());
        let found = record_bytes(self.bytes(), self.index_start(), self.index_end(), ip);
        match r {
            Ok(None) => !self.loaded(),
            Ok(Some(geo)) => {
                &&& self.loaded()
                &&& found matches Some(pair)
                &&& pair.0.len() <= GBK_INPUT_LIMIT
                &&& pair.1.len() <= GBK_INPUT_LIMIT
                &&& geo@ == answer(ip, pair.0, pair.1)
            },
            Err(NaliError::DatabaseCorrupted(_)) => self.loaded() && !index.well_formed(),
            Err(NaliError::ParseError(_)) => self.loaded() && index.well_formed() && found
                is None,
            Err(NaliError::EncodingError(_)) => {
                &&& self.loaded()
                &&& found matches Some(pair)
                &&& (pair.0.len() > GBK_INPUT_LIMIT || pair.1.len() > GBK_INPUT_LIMIT)
            },
            Err(_) => false,
        }
    }

    /// Whether `r` is what a lookup of the address `ip` returns: an IPv6
    /// address is never found.
    pub open spec fn ip_answer(&self, ip: IpAddress, r: Result<Option<GeoLocation>, NaliError>) -> bool {
        match ip {
            IpAddress::V4(v4) => self.ipv4_answer(v4, r),
            IpAddress::V6(_) => r matches Ok(None),
        }
    }

    /// An empty handle.
    pub fn new() -> (db: Self)
        ensures
            !db.loaded(),
            db.name_text() == "qqwry"@,
    {
        Self {
            name: "qqwry".to_owned(),
            loaded: false,
            data: Vec::new(),
            idx_start: 0,
            idx_end: 0,
        }
    }

    /// The logical name.
    pub fn name(&self) -> (n: &str)
        ensures
            n@ == self.name_text(),
    {
        self.name.as_str()
    }

    /// The format.
    pub fn database_type(&self) -> (t: DatabaseType)
        ensures
            t == DatabaseType::QQwry,
    {
        DatabaseType::QQwry
    }

    /// IPv4 is what this format holds.
    pub fn supports_ipv4(&self) -> (b: bool)
        ensures
            b,
    {
        true
    }

    /// The format holds no IPv6 ranges.
    pub fn supports_ipv6(&self) -> (b: bool)
        ensures
            !b,
    {
        false
    }

    /// The format holds no CDN patterns.
    pub fn supports_cdn(&self) -> (b: bool)
        ensures
            !b,
    {
        false
    }

    /// Whether a file has been loaded.
    pub fn is_loaded(&self) -> (b: bool)
        ensures
            b == self.loaded(),
    {
        self.loaded
    }

    /// Takes the contents `data` of the database file at `file_path`.
    ///
    /// Fails with `ParseError`, and leaves the handle as it was, unless the
    /// header is valid: the file has eight bytes, the first index entry lies
    /// before the last, and the last lies inside the file.
    pub fn load_from_file(&mut self, _file_path: &str, data: Vec<u8>) -> (r: Result<(), NaliError>)
        ensures
            match r {
                Ok(()) => {
                    &&& valid_header(data@)
                    &&& final(self).holds_file(data@)
                    &&& final(self).name_text() == old(self).name_text()
                },
                Err(e) => !valid_header(data@) && e is ParseError && *final(self) == *old(self),
            },
    {
        if data.len() < 8 {
            return Err(NaliError::parse("Invalid QQwry database: file too small"));
        }
        let idx_start: u32 = read_u32_le(data.as_slice(), 0);
        let idx_end: u32 = read_u32_le(data.as_slice(), 4);
        if idx_start >= idx_end || (data.len() as u64) < (idx_end as u64) + (ENTRY_LEN as u64) {
            return Err(NaliError::parse("Invalid QQwry database: header validation failed"));
        }
        self.loaded = false;
        self.idx_start = idx_start;
        self.idx_end = idx_end;
        self.data = data;
        self.loaded = true;
        Ok(())
    }

    /// How many index entries the header announces; 0 for an empty handle.
    pub fn record_count(&self) -> (n: u32)
        ensures
            n == if self.loaded() {
                (self.index_end() - self.index_start()) / 7 + 1
            } else {
                0
            },
    {
        proof {
            use_type_invariant(self);
        }
        if self.loaded {
            (self.idx_end - self.idx_start) / 7 + 1
        } else {
            0
        }
    }

    /// Finds the offset of the record whose range holds `ip`.
    ///
    /// An empty handle gives `ParseError`. An index region that is not a
    /// whole number of entries gives `DatabaseCorrupted`; an entry that the
    /// search has to read outside the file gives `ParseError`.
    pub fn search_index(&self, ip: u32) -> (r: Result<u32, NaliError>)
        ensures
            match r {
                Ok(v) => self.loaded() && layout(
                    self.index_start(),
                    self.index_end(),
                ).well_formed() && lookup(
                    layout(self.index_start(), self.index_end()),
                    self.bytes(),
                    ip as nat,
                ) == Some(v as nat),
                Err(NaliError::DatabaseCorrupted(_)) => self.loaded() && !layout(
                    self.index_start(),
                    self.index_end(),
                ).well_formed(),
                Err(NaliError::ParseError(_)) => !self.loaded() || (layout(
                    self.index_start(),
                    self.index_end(),
                ).well_formed() && lookup(
                    layout(self.index_start(), self.index_end()),
                    self.bytes(),
                    ip as nat,
                ) is None),
                Err(_) => false,
            },
            r matches Ok(v) ==> v < 0x100_0000,
    {
        if !self.loaded {
            return Err(NaliError::parse("Database not loaded"));
        }
        let index = IndexLayout {
            start: self.idx_start as usize,
            end: self.idx_end as usize,
            stride: ENTRY_LEN,
            key_width: KEY_LEN,
            payload_offset: KEY_LEN,
        };
        search_index(self.data.as_slice(), &index, ip as u64)
    }

    /// Looks an IPv4 address up.
    ///
    /// An empty handle answers `None`. Otherwise the index gives the record,
    /// the decoder its country and area, and the answer holds both as text,
    /// cleaned of the trademark token and of surrounding white space.
    pub fn lookup_ipv4(&self, ip: u32) -> (r: Result<Option<GeoLocation>, NaliError>)
        ensures
            self.ipv4_answer(ip, r),
    {
        if !self.loaded {
            return Ok(None);
        }
        let offset: u32 = self.search_index(ip)?;
        let mut reader = Reader::new(self.data.as_slice());
        let (country_bytes, area_bytes) = reader.parse(offset + 4)?;
        let country: String = gbk_to_utf8(country_bytes.as_slice())?;
        let area: String = gbk_to_utf8(area_bytes.as_slice())?;
        Ok(Some(location_from_text(ip, country.as_str(), area.as_str())))
    }

    /// Looks an address up: an IPv4 address in the index, an IPv6 address
    /// nowhere.
    pub fn lookup_ip(&self, ip: IpAddress) -> (r: Result<Option<GeoLocation>, NaliError>)
        ensures
            self.ip_answer(ip, r),
    {
        match ip {
            IpAddress::V4(v4) => self.lookup_ipv4(v4),
            IpAddress::V6(_) => Ok(None),
        }
    }

    /// The format holds no CDN patterns: the answer is always `None`.
    pub fn lookup_cdn(&self, _domain: &str) -> (r: Result<Option<CdnProvider>, NaliError>)
        ensures
            r matches Ok(None),
    {
        Ok(None)
    }
}

} // verus!
