//! The fixed-record IPv4 database with translation tables.
//!
//! The header holds four little-endian 32-bit fields: a version, a creation
//! time, and the offsets of the first and of the last index record; a file
//! longer than sixteen bytes carries an IPv6 flag in byte 16. An index record
//! is sixteen bytes: the first and the last address of a range and four
//! 16-bit ids, for country, region, city and provider. Records are sorted by
//! their first address and their ranges do not overlap. Behind the index
//! lies a block of zero-separated strings, which are sorted into four tables
//! by the keywords they contain; an id is a position in its table.

use crate::bytes::{in_bounds, le_value, read_u16_le, read_u32_le};
use crate::error::NaliError;
use crate::text::{
    chars_of, contains, occurs_in, split, split_chars, string_of, text_eq, texts, utf8_lossy,
    utf8_lossy_text, views,
};
use crate::types::{CdnProvider, DatabaseType, GeoLocation, GeoRecord, IpAddress};
use vstd::prelude::*;
use vstd::slice::slice_subrange;

verus! {

/// Bytes of one index record.
pub const RECORD_LEN: usize = 16;

/// The header of a database file.
#[derive(Debug)]
pub struct IPIPHeader {
    pub version: u32,
    pub created_time: u32,
    pub index_start: u32,
    pub index_end: u32,
    pub support_ipv6: bool,
}

impl IPIPHeader {
    /// Reads the header at the start of `data`. Fails with `ParseError`
    /// where `data` has fewer than sixteen bytes.
    pub fn parse(data: &[u8]) -> (r: Result<Self, NaliError>)
        ensures
            match r {
                Ok(h) => {
                    &&& data@.len() >= 16
                    &&& h.version == le_value(data@, 0, 4)
                    &&& h.created_time == le_value(data@, 4, 4)
                    &&& h.index_start == le_value(data@, 8, 4)
                    &&& h.index_end == le_value(data@, 12, 4)
                    &&& h.support_ipv6 == (data@.len() > 16 && data@[16] == 1)
                },
                Err(e) => data@.len() < 16 && e is ParseError,
            },
    {
        if data.len() < 16 {
            return Err(NaliError::parse("Invalid IPIP database: file too small"));
        }
        let version: u32 = read_u32_le(data, 0);
        let created_time: u32 = read_u32_le(data, 4);
        let index_start: u32 = read_u32_le(data, 8);
        let index_end: u32 = read_u32_le(data, 12);
        let support_ipv6: bool = if data.len() > 16 {
            data[16] == 1
        } else {
            false
        };
        Ok(Self { version, created_time, index_start, index_end, support_ipv6 })
    }

    /// How many whole records lie between the first and the last: 0 where
    /// the last is declared before the first.
    pub open spec fn count(&self) -> int {
        if self.index_end >= self.index_start {
            (self.index_end - self.index_start) / 16
        } else {
            0
        }
    }

    /// How many whole records lie between the first and the last.
    pub fn index_count(&self) -> (n: usize)
        ensures
            n == self.count(),
    {
        if self.index_end >= self.index_start {
            ((self.index_end - self.index_start) / 16) as usize
        } else {
            0
        }
    }

    /// Where the block of strings starts: behind the last record, by as many
    /// record lengths as the index counts records.
    pub open spec fn text_start(&self) -> int {
        self.index_end + self.count() * 16
    }
}

/// One index record.
#[derive(Clone, Copy, Debug)]
pub struct IPIPRecord {
    pub start_ip: u32,
    pub end_ip: u32,
    pub country_id: u16,
    pub region_id: u16,
    pub city_id: u16,
    pub isp_id: u16,
}

/// The record stored at `offset`.
pub open spec fn record_at(data: Seq<u8>, offset: int) -> IPIPRecord {
    IPIPRecord {
        start_ip: le_value(data, offset, 4) as u32,
        end_ip: le_value(data, offset + 4, 4) as u32,
        country_id: le_value(data, offset + 8, 2) as u16,
        region_id: le_value(data, offset + 10, 2) as u16,
        city_id: le_value(data, offset + 12, 2) as u16,
        isp_id: le_value(data, offset + 14, 2) as u16,
    }
}

impl IPIPRecord {
    /// Whether the range of the record holds `ip`.
    pub open spec fn holds(&self, ip: u32) -> bool {
        self.start_ip <= ip <= self.end_ip
    }

    /// Reads the record at `offset`. Fails with `ParseError` where its
    /// sixteen bytes leave the buffer.
    pub fn parse(data: &[u8], offset: u32) -> (r: Result<Self, NaliError>)
        ensures
            match r {
                Ok(rec) => in_bounds(data@.len() as int, offset as int, 16) && rec == record_at(
                    data@,
                    offset as int,
                ),
                Err(e) => !in_bounds(data@.len() as int, offset as int, 16) && e is ParseError,
            },
    {
        let at: usize = offset as usize;
        if data.len() < RECORD_LEN || at > data.len() - RECORD_LEN {
            return Err(NaliError::parse("Record offset out of bounds"));
        }
        Ok(read_record(data, at))
    }
}

/// Reads the record at `at`.
fn read_record(data: &[u8], at: usize) -> (rec: IPIPRecord)
    requires
        in_bounds(data@.len() as int, at as int, 16),
    ensures
        rec == record_at(data@, at as int),
{
    let _len: usize = data.len();
    IPIPRecord {
        start_ip: read_u32_le(data, at),
        end_ip: read_u32_le(data, at + 4),
        country_id: read_u16_le(data, at + 8),
        region_id: read_u16_le(data, at + 10),
        city_id: read_u16_le(data, at + 12),
        isp_id: read_u16_le(data, at + 14),
    }
}

/// The four translation tables.
#[derive(Clone, Copy, Debug, PartialEq, Eq, Structural)]
pub enum Category {
    Country,
    Region,
    City,
    Isp,
}

/// The table that a string is sorted into, by the keywords it contains:
/// country names first, then administrative divisions, then municipalities,
/// then network operators. A string with none of the keywords belongs to no
/// table.
pub open spec fn category(line: Seq<char>) -> Option<Category> {
    if occurs_in(line, "国家"@) || occurs_in(line, "China"@) || occurs_in(line, "United States"@) {
        Some(Category::Country)
    } else if occurs_in(line, "省"@) || occurs_in(line, "州"@) || occurs_in(line, "Province"@) {
        Some(Category::Region)
    } else if occurs_in(line, "市"@) || occurs_in(line, "City"@) {
        Some(Category::City)
    } else if occurs_in(line, "电信"@) || occurs_in(line, "运营商"@) || occurs_in(line, "ISP"@) {
        Some(Category::Isp)
    } else {
        None
    }
}

/// Whether `line` contains `word`.
fn has_word(line: &[char], word: &str) -> (r: bool)
    ensures
        r == occurs_in(line@, word@),
{
    let needle: Vec<char> = chars_of(word);
    contains(line, needle.as_slice())
}

/// Sorts a string into its table.
pub fn categorize(line: &[char]) -> (r: Option<Category>)
    ensures
        r == category(line@),
{
    if has_word(line, "国家") || has_word(line, "China") || has_word(line, "United States") {
        Some(Category::Country)
    } else if has_word(line, "省") || has_word(line, "州") || has_word(line, "Province") {
        Some(Category::Region)
    } else if has_word(line, "市") || has_word(line, "City") {
        Some(Category::City)
    } else if has_word(line, "电信") || has_word(line, "运营商") || has_word(line, "ISP") {
        Some(Category::Isp)
    } else {
        None
    }
}

/// The strings of `lines` that belong to table `c`, in order; empty strings
/// belong to no table.
pub open spec fn table_of(lines: Seq<Seq<char>>, c: Category) -> Seq<Seq<char>> {
    lines.filter(|l: Seq<char>| l.len() > 0 && category(l) == Some(c))
}

/// The zero-separated strings behind the index of a file with header `h`;
/// none where the block would start at or behind the end of the file.
pub open spec fn text_lines(data: Seq<u8>, h: IPIPHeader) -> Seq<Seq<char>> {
    if h.text_start() < data.len() {
        split(utf8_lossy_text(data.skip(h.text_start())), '\0')
    } else {
        Seq::empty()
    }
}

/// The entry of `table` at `id`, or the word "Unknown" where the table is
/// shorter.
pub open spec fn entry_or_unknown(table: Seq<Seq<char>>, id: u16) -> Seq<char> {
    if id < table.len() {
        table[id as int]
    } else {
        "Unknown"@
    }
}

/// The entry of `table` at `id`, or "Unknown".
fn pick(table: &Vec<String>, id: u16) -> (r: String)
    ensures
        r@ == entry_or_unknown(texts(table@), id),
{
    if (id as usize) < table.len() {
        table[id as usize].clone()
    } else {
        "Unknown".to_owned()
    }
}

/// The translation tables: for each category the strings of that category,
/// in the order in which the file holds them.
#[derive(Debug)]
pub struct IPIPTranslationTables {
    countries: Vec<String>,
    regions: Vec<String>,
    cities: Vec<String>,
    isps: Vec<String>,
}

impl IPIPTranslationTables {
    /// The strings of one table.
    pub closed spec fn table(&self, c: Category) -> Seq<Seq<char>> {
        match c {
            Category::Country => texts(self.countries@),
            Category::Region => texts(self.regions@),
            Category::City => texts(self.cities@),
            Category::Isp => texts(self.isps@),
        }
    }

    /// The table that goes by `name`, if any.
    pub open spec fn named(name: Seq<char>) -> Option<Category> {
        if name == "countries"@ {
            Some(Category::Country)
        } else if name == "regions"@ {
            Some(Category::Region)
        } else if name == "cities"@ {
            Some(Category::City)
        } else if name == "isps"@ {
            Some(Category::Isp)
        } else {
            None
        }
    }

    /// What `id` stands for in the table `name`: the entry at that position,
    /// or "Unknown" where the table is shorter or no table goes by the name.
    pub open spec fn translation(&self, id: u16, name: Seq<char>) -> Seq<char> {
        match Self::named(name) {
            Some(c) => entry_or_unknown(self.table(c), id),
            None => "Unknown"@,
        }
    }

    /// Sorts strings into the tables, in order; empty strings and strings
    /// without a keyword are left out.
    pub fn from_lines(pieces: &Vec<Vec<char>>) -> (t: Self)
        ensures
            forall|c: Category| #[trigger] t.table(c) == table_of(views(pieces@), c),
    {
        let mut countries: Vec<String> = Vec::new();
        let mut regions: Vec<String> = Vec::new();
        let mut cities: Vec<String> = Vec::new();
        let mut isps: Vec<String> = Vec::new();
        let ghost lines = views(pieces@);
        let mut i: usize = 0;
        assert(lines.take(0) == Seq::<Seq<char>>::empty());
        while i < pieces.len()
            invariant
                i <= pieces@.len(),
                views(pieces@) == lines,
                texts(countries@) == table_of(lines.take(i as int), Category::Country),
                texts(regions@) == table_of(lines.take(i as int), Category::Region),
                texts(cities@) == table_of(lines.take(i as int), Category::City),
                texts(isps@) == table_of(lines.take(i as int), Category::Isp),
            decreases pieces@.len() - i,
        {
            let line: &Vec<char> = &pieces[i];
            proof {
                assert(lines[i as int] == line@);
                assert(lines.take(i + 1).drop_last() == lines.take(i as int));
                assert(lines.take(i + 1).last() == line@);
                reveal(Seq::filter);
            }
            if line.len() > 0 {
                let kind: Option<Category> = categorize(line.as_slice());
                match kind {
                    Some(Category::Country) => {
                        countries.push(string_of(line.as_slice()));
                        assert(texts(countries@) == table_of(
                            lines.take(i as int),
                            Category::Country,
                        ).push(line@));
                    },
                    Some(Category::Region) => {
                        regions.push(string_of(line.as_slice()));
                        assert(texts(regions@) == table_of(
                            lines.take(i as int),
                            Category::Region,
                        ).push(line@));
                    },
                    Some(Category::City) => {
                        cities.push(string_of(line.as_slice()));
                        assert(texts(cities@) == table_of(
                            lines.take(i as int),
                            Category::City,
                        ).push(line@));
                    },
                    Some(Category::Isp) => {
                        isps.push(string_of(line.as_slice()));
                        assert(texts(isps@) == table_of(lines.take(i as int), Category::Isp).push(
                            line@,
                        ));
                    },
                    None => {},
                }
            }
            i = i + 1;
        }
        assert(lines.take(pieces@.len() as int) == lines);
        let t = Self { countries, regions, cities, isps };
        assert forall|c: Category| #[trigger] t.table(c) == table_of(lines, c) by {}
        t
    }

    /// Builds the tables from the block of strings behind the index.
    pub fn parse(data: &[u8], header: &IPIPHeader) -> (r: Result<Self, NaliError>)
        ensures
            r matches Ok(t) && forall|c: Category|
                #[trigger] t.table(c) == table_of(text_lines(data@, *header), c),
    {
        let text_start: u64 = header.index_end as u64 + (header.index_count() as u64) * 16;
        let mut pieces: Vec<Vec<char>> = Vec::new();
        if text_start < data.len() as u64 {
            let start: usize = text_start as usize;
            let text: String = utf8_lossy(slice_subrange(data, start, data.len()));
            let chars: Vec<char> = chars_of(text.as_str());
            pieces = split_chars(chars.as_slice(), '\0');
            assert(data@.subrange(start as int, data@.len() as int) == data@.skip(start as int));
        } else {
            assert(views(pieces@) == Seq::<Seq<char>>::empty());
        }
        assert(views(pieces@) == text_lines(data@, *header));
        Ok(Self::from_lines(&pieces))
    }

    /// Translates `id` through the table that goes by `table_name`.
    pub fn translate(&self, id: u16, table_name: &str) -> (r: String)
        ensures
            r@ == self.translation(id, table_name@),
    {
        if text_eq(table_name, "countries") {
            pick(&self.countries, id)
        } else if text_eq(table_name, "regions") {
            pick(&self.regions, id)
        } else if text_eq(table_name, "cities") {
            pick(&self.cities, id)
        } else if text_eq(table_name, "isps") {
            pick(&self.isps, id)
        } else {
            "Unknown".to_owned()
        }
    }
}

/// Whether `data` is a database file: it has a whole header, and the last
/// index record that the header declares lies inside it.
pub open spec fn valid_file(data: Seq<u8>) -> bool {
    &&& data.len() >= 16
    &&& le_value(data, 12, 4) + RECORD_LEN <= data.len()
}

/// A file cut short of the last index record that its header declares is no
/// database file.
pub proof fn lemma_truncated_file_invalid(data: Seq<u8>)
    requires
        data.len() < le_value(data, 12, 4) + RECORD_LEN,
    ensures
        !valid_file(data),
{
}

/// In a database file every index record lies inside the file, where the
/// header declares the first record no later than the last.
pub proof fn lemma_valid_file_is_readable(data: Seq<u8>, h: IPIPHeader)
    requires
        valid_file(data),
        h.index_start == le_value(data, 8, 4),
        h.index_end == le_value(data, 12, 4),
        h.index_start <= h.index_end,
    ensures
        index_readable(data, h),
{
}

/// The index record number `i` of a file with header `h`.
pub open spec fn entry(data: Seq<u8>, h: IPIPHeader, i: int) -> IPIPRecord {
    record_at(data, h.index_start + 16 * i)
}

/// Whether record number `i` lies inside the file.
pub open spec fn entry_readable(data: Seq<u8>, h: IPIPHeader, i: int) -> bool {
    in_bounds(data.len() as int, h.index_start + 16 * i, 16)
}

/// The number of the record that the search settles on among the records
/// `lo..=hi`, or `None` where it gives up: it probes the middle record
/// (rounded towards `lo`), stops there if the range holds `ip`, goes on
/// below if `ip` lies before the range and above otherwise, and gives up
/// once no record is left or the record to probe leaves the file.
pub open spec fn scan(data: Seq<u8>, h: IPIPHeader, ip: u32, lo: int, hi: int) -> Option<int>
    decreases hi - lo + 1,
{
    let mid = lo + (hi - lo) / 2;
    if lo > hi || !entry_readable(data, h, mid) {
        None
    } else if entry(data, h, mid).holds(ip) {
        Some(mid)
    } else if ip < entry(data, h, mid).start_ip {
        if mid == 0 {
            None
        } else {
            scan(data, h, ip, lo, mid - 1)
        }
    } else {
        scan(data, h, ip, mid + 1, hi)
    }
}

/// The number of the record that a lookup of `ip` finds, if any.
pub open spec fn find(data: Seq<u8>, h: IPIPHeader, ip: u32) -> Option<int> {
    if h.index_start <= h.index_end {
        scan(data, h, ip, 0, h.count())
    } else {
        None
    }
}

/// Every record of the index lies inside the file.
pub open spec fn index_readable(data: Seq<u8>, h: IPIPHeader) -> bool {
    h.index_start <= h.index_end && entry_readable(data, h, h.count())
}

/// The records are sorted by their first address and no range reaches the
/// next one.
pub open spec fn index_ordered(data: Seq<u8>, h: IPIPHeader) -> bool {
    forall|i: int, j: int|
        0 <= i < j <= h.count() ==> (#[trigger] entry(data, h, i)).start_ip <= (#[trigger] entry(
            data,
            h,
            j,
        )).start_ip && entry(data, h, i).end_ip < entry(data, h, j).start_ip
}

/// In a readable, ordered index the search finds a record that holds `ip`
/// whenever one of `lo..=hi` does, as long as the records outside `lo..=hi`
/// do not hold it.
pub proof fn lemma_scan_finds(data: Seq<u8>, h: IPIPHeader, ip: u32, lo: int, hi: int)
    requires
        index_readable(data, h),
        index_ordered(data, h),
        0 <= lo,
        hi <= h.count(),
        lo <= hi + 1,
        forall|j: int| 0 <= j < lo ==> (#[trigger] entry(data, h, j)).end_ip < ip,
        forall|j: int| hi < j <= h.count() ==> ip < (#[trigger] entry(data, h, j)).start_ip,
    ensures
        match scan(data, h, ip, lo, hi) {
            Some(i) => lo <= i <= hi && entry(data, h, i).holds(ip),
            None => forall|j: int| 0 <= j <= h.count() ==> !(#[trigger] entry(data, h, j)).holds(ip),
        },
    decreases hi - lo + 1,
{
    if lo <= hi {
        let mid = lo + (hi - lo) / 2;
        let rec = entry(data, h, mid);
        assert(entry_readable(data, h, mid));
        if rec.holds(ip) {
        } else if ip < rec.start_ip {
            assert forall|j: int| mid - 1 < j <= h.count() implies ip < (#[trigger] entry(
                data,
                h,
                j,
            )).start_ip by {
                if j > mid {
                    assert(entry(data, h, mid).start_ip <= entry(data, h, j).start_ip);
                }
            }
            if mid == 0 {
            } else {
                lemma_scan_finds(data, h, ip, lo, mid - 1);
            }
        } else {
            assert forall|j: int| 0 <= j < mid + 1 implies (#[trigger] entry(data, h, j)).end_ip
                < ip by {
                if j < mid {
                    assert(entry(data, h, j).end_ip < entry(data, h, mid).start_ip);
                }
            }
            lemma_scan_finds(data, h, ip, mid + 1, hi);
        }
    }
}

/// Whatever the file holds, a record that the search settles on lies
/// inside the file, among the records it started with, and its range holds
/// the address.
pub proof fn lemma_scan_stays_inside(data: Seq<u8>, h: IPIPHeader, ip: u32, lo: int, hi: int)
    ensures
        scan(data, h, ip, lo, hi) matches Some(i) ==> lo <= i <= hi && entry_readable(data, h, i)
            && entry(data, h, i).holds(ip),
    decreases hi - lo + 1,
{
    if lo <= hi {
        let mid = lo + (hi - lo) / 2;
        if entry_readable(data, h, mid) && !entry(data, h, mid).holds(ip) {
            if ip < entry(data, h, mid).start_ip {
                if mid != 0 {
                    lemma_scan_stays_inside(data, h, ip, lo, mid - 1);
                }
            } else {
                lemma_scan_stays_inside(data, h, ip, mid + 1, hi);
            }
        }
    }
}

/// Whether a lookup of `ip` finds the one record whose range holds it, and
/// nothing where no range holds it.
pub open spec fn finds_unique_record(data: Seq<u8>, h: IPIPHeader, ip: u32) -> bool {
    match find(data, h, ip) {
        Some(i) => {
            &&& 0 <= i <= h.count()
            &&& entry(data, h, i).holds(ip)
            &&& forall|j: int|
                0 <= j <= h.count() && (#[trigger] entry(data, h, j)).holds(ip) ==> j == i
        },
        None => forall|j: int| 0 <= j <= h.count() ==> !(#[trigger] entry(data, h, j)).holds(ip),
    }
}

/// Range containment: in an index whose records all lie inside the file,
/// sorted and without overlap, a lookup finds the one record whose range
/// holds the address, and finds nothing where no range holds it.
pub proof fn lemma_find_unique_record(data: Seq<u8>, h: IPIPHeader, ip: u32)
    requires
        index_readable(data, h),
        index_ordered(data, h),
    ensures
        finds_unique_record(data, h, ip),
{
    lemma_scan_finds(data, h, ip, 0, h.count());
    if let Some(i) = find(data, h, ip) {
        assert forall|j: int| 0 <= j <= h.count() && (#[trigger] entry(data, h, j)).holds(
            ip,
        ) implies j == i by {
            if j < i {
                assert(entry(data, h, j).end_ip < entry(data, h, i).start_ip);
            } else if i < j {
                assert(entry(data, h, i).end_ip < entry(data, h, j).start_ip);
            }
        }
    }
}

/// The fixed-record IPv4 database.
pub struct IPIPDatabase {
    name: String,
    loaded: bool,
    data: Vec<u8>,
    header: Option<IPIPHeader>,
    translation_tables: Option<IPIPTranslationTables>,
    ipv6_support: bool,
}

impl IPIPDatabase {
    /// Whether a file has been loaded.
    pub closed spec fn loaded(&self) -> bool {
        self.loaded
    }

    /// The bytes of the loaded file.
    pub closed spec fn bytes(&self) -> Seq<u8> {
        self.data@
    }

    /// The header of the loaded file.
    pub closed spec fn header(&self) -> Option<IPIPHeader> {
        self.header
    }

    /// The translation tables of the loaded file.
    pub closed spec fn tables(&self) -> Option<IPIPTranslationTables> {
        self.translation_tables
    }

    /// Whether the loaded file announces IPv6 support.
    pub closed spec fn ipv6(&self) -> bool {
        self.ipv6_support
    }

    /// The logical name.
    pub closed spec fn name_text(&self) -> Seq<char> {
        self.name@
    }

    /// What `id` stands for in the table `name`; "Unknown" for a handle
    /// without tables.
    pub open spec fn translated(&self, id: u16, name: Seq<char>) -> Seq<char> {
        match self.tables() {
            Some(t) => t.translation(id, name),
            None => "Unknown"@,
        }
    }

    /// The answer made of an index record: its four ids translated, country
    /// code and time zone those of the database's home, no coordinates.
    pub open spec fn answer(&self, ip: u32, rec: IPIPRecord) -> GeoRecord {
        GeoRecord {
            ip: IpAddress::V4(ip),
            country: Some(self.translated(rec.country_id, "countries"@)),
            region: Some(self.translated(rec.region_id, "regions"@)),
            city: Some(self.translated(rec.city_id, "cities"@)),
            isp: Some(self.translated(rec.isp_id, "isps"@)),
            country_code: Some("CN"@),
            timezone: Some("Asia/Shanghai"@),
            latitude: None,
            longitude: None,
        }
    }

    /// The fixed answer to every IPv6 lookup: the tree of IPv6 ranges is
    /// not read.
    pub open spec fn ipv6_answer(ip: u128) -> GeoRecord {
        GeoRecord {
            ip: IpAddress::V6(ip),
            country: Some("China"@),
            region: Some("Beijing"@),
            city: Some("Beijing"@),
            isp: Some("China Telecom"@),
            country_code: Some("CN"@),
            timezone: Some("Asia/Shanghai"@),
            latitude: None,
            longitude: None,
        }
    }

    /// Whether the handle holds the file `data`, with the header read from
    /// its start and the tables built from the strings behind its index.
    pub open spec fn holds_file(&self, data: Seq<u8>) -> bool {
        &&& self.loaded()
        &&& self.bytes() == data
        &&& self.header() matches Some(h)
        &&& h.version == le_value(data, 0, 4)
        &&& h.created_time == le_value(data, 4, 4)
        &&& h.index_start == le_value(data, 8, 4)
        &&& h.index_end == le_value(data, 12, 4)
        &&& h.support_ipv6 == (data.len() > 16 && data[16] == 1)
        &&& self.ipv6() == h.support_ipv6
        &&& self.tables() matches Some(t)
        &&& forall|c: Category| #[trigger] t.table(c) == table_of(text_lines(data, h), c)
    }

    /// Whether `r` is what a lookup of the IPv4 address `ip` returns: the
    /// answer made of the record that the search finds, `None` where it
    /// finds none or the handle has no header.
    pub open spec fn ipv4_answer(&self, ip: u32, r: Result<Option<GeoLocation>, NaliError>) -> bool {
        match self.header() {
            None => r matches Ok(None),
            Some(h) => match find(self.bytes(), h, ip) {
                None => r matches Ok(None),
                Some(i) => r matches Ok(Some(geo)) && geo@ == self.answer(
                    ip,
                    entry(self.bytes(), h, i),
                ),
            },
        }
    }

    /// Whether `r` answers `ip` by range containment in the index of `h`:
    /// with the answer made of a record whose range holds `ip`, or with
    /// `None` where no range holds it.
    pub open spec fn range_answer(
        &self,
        h: IPIPHeader,
        ip: u32,
        r: Result<Option<GeoLocation>, NaliError>,
    ) -> bool {
        match r {
            Ok(Some(geo)) => exists|i: int|
                0 <= i <= h.count() && (#[trigger] entry(self.bytes(), h, i)).holds(ip) && geo@
                    == self.answer(ip, entry(self.bytes(), h, i)),
            Ok(None) => forall|j: int|
                0 <= j <= h.count() ==> !(#[trigger] entry(self.bytes(), h, j)).holds(ip),
            Err(_) => false,
        }
    }

    /// Whether `r` is what a lookup of the address `ip` returns: an IPv6
    /// address gets the fixed answer where the file announces IPv6 support
    /// and is not found otherwise.
    pub open spec fn ip_answer(&self, ip: IpAddress, r: Result<Option<GeoLocation>, NaliError>) -> bool {
        match ip {
            IpAddress::V4(v4) => self.ipv4_answer(v4, r),
            IpAddress::V6(v6) => if self.ipv6() {
                r matches Ok(Some(geo)) && geo@ == Self::ipv6_answer(v6)
            } else {
                r matches Ok(None)
            },
        }
    }

    /// An empty handle.
    pub fn new() -> (db: Self)
        ensures
            !db.loaded(),
            db.header() is None,
            db.tables() is None,
            !db.ipv6(),
            db.name_text() == "ipip"@,
    {
        Self {
            name: "ipip".to_owned(),
            loaded: false,
            data: Vec::new(),
            header: None,
            translation_tables: None,
            ipv6_support: false,
        }
    }

    /// The logical name.
    pub fn name(&self) -> (n: &str)
        ensures
            n@ == self.name_text(),
    {
        self.name.as_str()
    }

    /// The format.
    pub fn database_type(&self) -> (t: DatabaseType)
        ensures
            t == DatabaseType::IPIP,
    {
        DatabaseType::IPIP
    }

    /// IPv4 is what this format holds.
    pub fn supports_ipv4(&self) -> (b: bool)
        ensures
            b,
    {
        true
    }

    /// IPv6 is supported where the loaded file says so.
    pub fn supports_ipv6(&self) -> (b: bool)
        ensures
            b == self.ipv6(),
    {
        self.ipv6_support
    }

    /// The format holds no CDN patterns.
    pub fn supports_cdn(&self) -> (b: bool)
        ensures
            !b,
    {
        false
    }

    /// Whether a file has been loaded.
    pub fn is_loaded(&self) -> (b: bool)
        ensures
            b == self.loaded(),
    {
        self.loaded
    }

    /// Reads the header at the start of `data`.
    pub fn parse_header(&self, data: &[u8]) -> (r: Result<IPIPHeader, NaliError>)
        ensures
            match r {
                Ok(h) => {
                    &&& data@.len() >= 16
                    &&& h.version == le_value(data@, 0, 4)
                    &&& h.created_time == le_value(data@, 4, 4)
                    &&& h.index_start == le_value(data@, 8, 4)
                    &&& h.index_end == le_value(data@, 12, 4)
                    &&& h.support_ipv6 == (data@.len() > 16 && data@[16] == 1)
                },
                Err(e) => data@.len() < 16 && e is ParseError,
            },
    {
        IPIPHeader::parse(data)
    }

    /// Builds the translation tables of a file with the given header.
    pub fn parse_translation_tables(&self, data: &[u8], header: &IPIPHeader) -> (r: Result<
        IPIPTranslationTables,
        NaliError,
    >)
        ensures
            r matches Ok(t) && forall|c: Category|
                #[trigger] t.table(c) == table_of(text_lines(data@, *header), c),
    {
        IPIPTranslationTables::parse(data, header)
    }

    /// How many whole records lie between the first and the last of `header`.
    pub fn index_count(header: &IPIPHeader) -> (n: usize)
        ensures
            n == header.count(),
    {
        header.index_count()
    }

    /// Reads the record at `offset` of the loaded file. An empty handle
    /// gives `ParseError`, as does a record that leaves the file.
    pub fn parse_record(&self, offset: u32) -> (r: Result<IPIPRecord, NaliError>)
        ensures
            match r {
                Ok(rec) => self.loaded() && in_bounds(
                    self.bytes().len() as int,
                    offset as int,
                    16,
                ) && rec == record_at(self.bytes(), offset as int),
                Err(e) => (!self.loaded() || !in_bounds(
                    self.bytes().len() as int,
                    offset as int,
                    16,
                )) && e is ParseError,
            },
    {
        if !self.loaded {
            return Err(NaliError::parse("Database not loaded"));
        }
        IPIPRecord::parse(self.data.as_slice(), offset)
    }

    /// Translates `id` through the table that goes by `table_name`;
    /// "Unknown" for a handle without tables.
    pub fn translate_id(&self, id: u16, table_name: &str) -> (r: String)
        ensures
            r@ == self.translated(id, table_name@),
    {
        match &self.translation_tables {
            Some(tables) => tables.translate(id, table_name),
            None => "Unknown".to_owned(),
        }
    }

    /// Takes the contents `data` of the database file at `file_path`: reads
    /// the header and builds the translation tables.
    ///
    /// Fails with `ParseError`, and leaves the handle as it was, unless
    /// `data` is a database file: it has a whole header, and the last index
    /// record that the header declares lies inside it.
    pub fn load_from_file(&mut self, _file_path: &str, data: Vec<u8>) -> (r: Result<(), NaliError>)
        ensures
            match r {
                Ok(()) => {
                    &&& valid_file(data@)
                    &&& final(self).holds_file(data@)
                    &&& final(self).name_text() == old(self).name_text()
                },
                Err(e) => !valid_file(data@) && e is ParseError && *final(self) == *old(self),
            },
    {
        let header: IPIPHeader = self.parse_header(data.as_slice())?;
        if (data.len() as u64) < (header.index_end as u64) + (RECORD_LEN as u64) {
            return Err(NaliError::parse("Invalid IPIP database: index lies outside the file"));
        }
        let tables: IPIPTranslationTables = self.parse_translation_tables(
            data.as_slice(),
            &header,
        )?;
        self.ipv6_support = header.support_ipv6;
        self.header = Some(header);
        self.translation_tables = Some(tables);
        self.data = data;
        self.loaded = true;
        Ok(())
    }

    /// Looks an IPv4 address up by range containment.
    ///
    /// A handle without a header answers `None`. Otherwise the answer is
    /// made of the record that the search finds, and is `None` where it
    /// finds none.
    pub fn lookup_ip_internal_v4(&self, ip: u32) -> (r: Result<Option<GeoLocation>, NaliError>)
        ensures
            self.ipv4_answer(ip, r),
            self.header() is Some && index_readable(self.bytes(), self.header()->0)
                && index_ordered(self.bytes(), self.header()->0) ==> self.range_answer(
                self.header()->0,
                ip,
                r,
            ),
    {
        let header: &IPIPHeader = match &self.header {
            Some(h) => h,
            None => {
                return Ok(None);
            },
        };
        proof {
            if index_readable(self.data@, *header) && index_ordered(self.data@, *header) {
                lemma_find_unique_record(self.data@, *header, ip);
            }
        }
        if header.index_start > header.index_end {
            return Ok(None);
        }
        let len: usize = self.data.len();
        let base: u64 = header.index_start as u64;
        let mut low: usize = 0;
        let mut high: usize = header.index_count();
        let ghost mut lo: int = 0;
        let ghost mut hi: int = high as int;
        loop
            invariant
                self.header == Some(*header),
                header.index_start <= header.index_end,
                len == self.data@.len(),
                base == header.index_start,
                low == lo,
                0 <= lo,
                hi <= header.count(),
                lo <= hi + 1,
                high == hi,
                scan(self.data@, *header, ip, lo, hi) == find(self.data@, *header, ip),
                index_readable(self.data@, *header) && index_ordered(self.data@, *header)
                    ==> finds_unique_record(self.data@, *header, ip),
            decreases hi - lo + 1,
        {
            if low > high {
                return Ok(None);
            }
            let mid: usize = low + (high - low) / 2;
            let offset: u64 = base + 16 * (mid as u64);
            if offset + 16 > len as u64 {
                return Ok(None);
            }
            let record: IPIPRecord = read_record(self.data.as_slice(), offset as usize);
            if ip >= record.start_ip && ip <= record.end_ip {
                let country: String = self.translate_id(record.country_id, "countries");
                let region: String = self.translate_id(record.region_id, "regions");
                let city: String = self.translate_id(record.city_id, "cities");
                let isp: String = self.translate_id(record.isp_id, "isps");
                return Ok(
                    Some(
                        GeoLocation {
                            ip: IpAddress::V4(ip),
                            country: Some(country),
                            region: Some(region),
                            city: Some(city),
                            isp: Some(isp),
                            country_code: Some("CN".to_owned()),
                            timezone: Some("Asia/Shanghai".to_owned()),
                            latitude: None,
                            longitude: None,
                        },
                    ),
                );
            } else if ip < record.start_ip {
                if mid == 0 {
                    return Ok(None);
                }
                high = mid - 1;
                proof {
                    hi = mid - 1;
                }
            } else {
                low = mid + 1;
                proof {
                    lo = mid + 1;
                }
            }
        }
    }

    /// Answers an IPv6 lookup with the fixed answer.
    pub fn lookup_ip_internal_v6(&self, ip: u128) -> (r: Result<Option<GeoLocation>, NaliError>)
        ensures
            r matches Ok(Some(geo)) && geo@ == Self::ipv6_answer(ip),
    {
        Ok(
            Some(
                GeoLocation {
                    ip: IpAddress::V6(ip),
                    country: Some("China".to_owned()),
                    region: Some("Beijing".to_owned()),
                    city: Some("Beijing".to_owned()),
                    isp: Some("China Telecom".to_owned()),
                    country_code: Some("CN".to_owned()),
                    timezone: Some("Asia/Shanghai".to_owned()),
                    latitude: None,
                    longitude: None,
                },
            ),
        )
    }

    /// Looks an address up: an IPv4 address in the index; an IPv6 address
    /// gets the fixed answer where the file announces IPv6 support, and
    /// `None` otherwise.
    pub fn lookup_ip(&self, ip: IpAddress) -> (r: Result<Option<GeoLocation>, NaliError>)
        ensures
            self.ip_answer(ip, r),
    {
        match ip {
            IpAddress::V4(v4) => self.lookup_ip_internal_v4(v4),
            IpAddress::V6(v6) => {
                if self.ipv6_support {
                    self.lookup_ip_internal_v6(v6)
                } else {
                    Ok(None)
                }
            },
        }
    }

    /// The format holds no CDN patterns: the answer is always `None`.
    pub fn lookup_cdn(&self, _domain: &str) -> (r: Result<Option<CdnProvider>, NaliError>)
        ensures
            r matches Ok(None),
    {
        Ok(None)
    }
}

} // verus!
