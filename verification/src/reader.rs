//! The pointer-chasing record decoder shared by the two pointer-based formats.
//!
//! A record holds a country string and an area string. Either may be stored
//! in place, as bytes up to a zero byte, or elsewhere, behind a one-byte
//! redirect mode and a three-byte little-endian offset. The decoder walks a
//! cursor over the buffer; the cursor remembers one earlier position, so that
//! one jump can be undone.

use crate::bytes::{in_bounds, le_value, read_u24_le};
use crate::error::NaliError;
use vstd::prelude::*;
use vstd::slice::slice_subrange;
use vstd::slice::slice_to_vec;

verus! {

/// Mode byte of a full redirect: the whole record continues at an offset.
pub const REDIRECT_MODE_1: u8 = 0x01;

/// Mode byte of a partial redirect: only the country is stored at an offset.
pub const REDIRECT_MODE_2: u8 = 0x02;

/// The first position at or after `pos` that holds a zero byte, or the length
/// of the buffer where none follows.
pub open spec fn string_end(data: Seq<u8>, pos: int) -> int
    decreases data.len() - pos,
{
    if pos < 0 || pos >= data.len() || data[pos] == 0 {
        pos
    } else {
        string_end(data, pos + 1)
    }
}

/// The bytes from `pos` up to the next zero byte or the end of the buffer.
pub open spec fn string_at(data: Seq<u8>, pos: int) -> Seq<u8> {
    data.subrange(pos, string_end(data, pos))
}

/// Whether a byte is one of the two redirect modes.
pub open spec fn is_redirect(b: u8) -> bool {
    b == REDIRECT_MODE_1 || b == REDIRECT_MODE_2
}

/// The area string whose field starts at `pos`, or `None` where decoding it
/// leaves the buffer.
///
/// A redirect mode byte is followed by an offset: offset 0 stands for the
/// empty string, any other offset for the string stored there. Any other
/// first byte belongs to the string itself, stored in place.
pub open spec fn area_at(data: Seq<u8>, pos: int) -> Option<Seq<u8>> {
    if !in_bounds(data.len() as int, pos, 1) {
        None
    } else if is_redirect(data[pos]) {
        if !in_bounds(data.len() as int, pos + 1, 3) {
            None
        } else {
            let target = le_value(data, pos + 1, 3) as int;
            if target == 0 {
                Some(Seq::empty())
            } else if target > data.len() {
                None
            } else {
                Some(string_at(data, target))
            }
        }
    } else {
        Some(string_at(data, pos))
    }
}

/// Where the cursor and its remembered position stand after the area field
/// at `pos` was decoded.
pub open spec fn cursor_after_area(data: Seq<u8>, pos: int) -> (int, int) {
    if is_redirect(data[pos]) {
        (le_value(data, pos + 1, 3) as int, pos + 4)
    } else {
        (pos, pos)
    }
}

/// Where the area field of the record at `pos` starts, following at most
/// `hops` full redirects; `None` where the record leaves the buffer or the
/// redirects do not end.
pub open spec fn area_field(data: Seq<u8>, pos: int, hops: nat) -> Option<int>
    decreases hops,
{
    if !in_bounds(data.len() as int, pos, 1) {
        None
    } else if data[pos] == REDIRECT_MODE_1 {
        if hops == 0 || !in_bounds(data.len() as int, pos + 1, 3) {
            None
        } else {
            area_field(data, le_value(data, pos + 1, 3) as int, (hops - 1) as nat)
        }
    } else if data[pos] == REDIRECT_MODE_2 {
        if !in_bounds(data.len() as int, pos + 1, 3) || le_value(data, pos + 1, 3) > data.len() {
            None
        } else {
            Some(pos + 4)
        }
    } else if string_end(data, pos) >= usize::MAX {
        None
    } else {
        Some(string_end(data, pos) + 1)
    }
}

/// The country and area of the record at `pos`, following at most `hops`
/// full redirects; `None` where decoding leaves the buffer or the redirects
/// do not end.
///
/// Mode 1 moves the whole record to an offset. Mode 2 takes the country from
/// an offset and the area from the field behind the offset. Any other first
/// byte starts a country stored in place, with the area field behind its
/// terminator.
pub open spec fn record_at(data: Seq<u8>, pos: int, hops: nat) -> Option<(Seq<u8>, Seq<u8>)>
    decreases hops,
{
    if !in_bounds(data.len() as int, pos, 1) {
        None
    } else if data[pos] == REDIRECT_MODE_1 {
        if hops == 0 || !in_bounds(data.len() as int, pos + 1, 3) {
            None
        } else {
            record_at(data, le_value(data, pos + 1, 3) as int, (hops - 1) as nat)
        }
    } else if data[pos] == REDIRECT_MODE_2 {
        if !in_bounds(data.len() as int, pos + 1, 3) || le_value(data, pos + 1, 3) > data.len() {
            None
        } else {
            match area_at(data, pos + 4) {
                Some(area) => Some((string_at(data, le_value(data, pos + 1, 3) as int), area)),
                None => None,
            }
        }
    } else if string_end(data, pos) >= usize::MAX {
        None
    } else {
        match area_at(data, string_end(data, pos) + 1) {
            Some(area) => Some((string_at(data, pos), area)),
            None => None,
        }
    }
}

/// The record at `pos`, with as many full redirects allowed as the buffer
/// has bytes: a longer chain visits a position twice and never ends.
pub open spec fn decode(data: Seq<u8>, pos: int) -> Option<(Seq<u8>, Seq<u8>)> {
    record_at(data, pos, data.len())
}

/// Whether a full redirect with its offset field stands at `p`.
pub open spec fn redirects(data: Seq<u8>, p: int) -> bool {
    &&& in_bounds(data.len() as int, p, 1)
    &&& data[p] == REDIRECT_MODE_1
    &&& in_bounds(data.len() as int, p + 1, 3)
}

/// Where `k` full redirects lead from `pos`.
pub open spec fn after_hops(data: Seq<u8>, pos: int, k: nat) -> int
    decreases k,
{
    if k == 0 {
        pos
    } else {
        le_value(data, after_hops(data, pos, (k - 1) as nat) + 1, 3) as int
    }
}

/// Whether the first `k` positions on the way from `pos` hold full
/// redirects.
pub open spec fn redirects_for(data: Seq<u8>, pos: int, k: nat) -> bool {
    forall|j: nat| j < k ==> redirects(data, #[trigger] after_hops(data, pos, j))
}

/// Following `k` full redirects uses up `k` of the hops allowed.
proof fn lemma_follow(data: Seq<u8>, pos: int, k: nat, hops: nat)
    requires
        redirects_for(data, pos, k),
        k <= hops,
    ensures
        record_at(data, pos, hops) == record_at(
            data,
            after_hops(data, pos, k),
            (hops - k) as nat,
        ),
    decreases k,
{
    if k > 0 {
        let before = (k - 1) as nat;
        assert(redirects_for(data, pos, before));
        lemma_follow(data, pos, before, hops);
        assert(redirects(data, after_hops(data, pos, before)));
    }
}

/// What stands at a position without a full redirect does not depend on
/// the hops allowed.
proof fn lemma_chain_end(data: Seq<u8>, p: int, a: nat, b: nat)
    requires
        !redirects(data, p),
    ensures
        record_at(data, p, a) == record_at(data, p, b),
{
}

/// Once a position comes again, the way repeats.
proof fn lemma_way_repeats(data: Seq<u8>, pos: int, i: nat, j: nat, m: nat)
    requires
        after_hops(data, pos, i) == after_hops(data, pos, j),
    ensures
        after_hops(data, pos, i + m) == after_hops(data, pos, j + m),
    decreases m,
{
    if m > 0 {
        lemma_way_repeats(data, pos, i, j, (m - 1) as nat);
    }
}

/// On a way that comes back to a position, full redirects never end.
proof fn lemma_cycle_goes_on(data: Seq<u8>, pos: int, i: nat, j: nat, k: nat)
    requires
        i < j,
        after_hops(data, pos, i) == after_hops(data, pos, j),
        redirects_for(data, pos, j),
    ensures
        redirects(data, after_hops(data, pos, k)),
    decreases k,
{
    if k >= j {
        let m = (k - j) as nat;
        lemma_way_repeats(data, pos, i, j, m);
        lemma_cycle_goes_on(data, pos, i, j, i + m);
    }
}

/// Among more positions than the buffer has bytes, all of them inside the
/// buffer, one comes twice.
proof fn lemma_position_comes_twice(data: Seq<u8>, pos: int) -> (r: (nat, nat))
    requires
        redirects_for(data, pos, data.len() + 1),
    ensures
        r.0 < r.1 <= data.len(),
        after_hops(data, pos, r.0) == after_hops(data, pos, r.1),
{
    let n = data.len();
    let way = Seq::new(n + 1, |k: int| after_hops(data, pos, k as nat));
    if way.no_duplicates() {
        way.unique_seq_to_set();
        vstd::set_lib::lemma_int_range(0, n as int);
        assert(way.to_set().subset_of(vstd::set_lib::set_int_range(0, n as int))) by {
            assert forall|v: int| way.to_set().contains(v) implies vstd::set_lib::set_int_range(
                0,
                n as int,
            ).contains(v) by {
                let k = choose|k: int| 0 <= k < way.len() && way[k] == v;
                assert(redirects(data, after_hops(data, pos, k as nat)));
            }
        }
        vstd::set_lib::lemma_len_subset(
            way.to_set(),
            vstd::set_lib::set_int_range(0, n as int),
        );
        assert(false);
    }
    let (a, b) = choose|a: int, b: int|
        0 <= a < way.len() && 0 <= b < way.len() && a != b && way[a] == way[b];
    if a < b {
        (a as nat, b as nat)
    } else {
        (b as nat, a as nat)
    }
}

/// From `k` redirects on, the record is the same whether `hops` or as many
/// hops as the buffer has bytes are allowed.
proof fn lemma_hops_from(data: Seq<u8>, pos: int, k: nat, hops: nat)
    requires
        k <= data.len() <= hops,
        redirects_for(data, pos, k),
    ensures
        record_at(data, pos, hops) == record_at(data, pos, data.len()),
    decreases data.len() - k,
{
    let here = after_hops(data, pos, k);
    if !redirects(data, here) {
        lemma_follow(data, pos, k, hops);
        lemma_follow(data, pos, k, data.len());
        lemma_chain_end(data, here, (hops - k) as nat, (data.len() - k) as nat);
    } else if k < data.len() {
        assert(redirects_for(data, pos, k + 1)) by {
            assert forall|j: nat| j < k + 1 implies redirects(
                data,
                #[trigger] after_hops(data, pos, j),
            ) by {}
        }
        lemma_hops_from(data, pos, k + 1, hops);
    } else {
        assert(redirects_for(data, pos, data.len() + 1)) by {
            assert forall|j: nat| j < data.len() + 1 implies redirects(
                data,
                #[trigger] after_hops(data, pos, j),
            ) by {}
        }
        let (i, j) = lemma_position_comes_twice(data, pos);
        assert(redirects_for(data, pos, j));
        assert(redirects_for(data, pos, hops)) by {
            assert forall|m: nat| m < hops implies redirects(
                data,
                #[trigger] after_hops(data, pos, m),
            ) by {
                lemma_cycle_goes_on(data, pos, i, j, m);
            }
        }
        lemma_cycle_goes_on(data, pos, i, j, hops);
        lemma_cycle_goes_on(data, pos, i, j, data.len());
        lemma_follow(data, pos, hops, hops);
        lemma_follow(data, pos, data.len(), data.len());
    }
}

/// The limit on full redirects loses nothing: with as many hops allowed as
/// the buffer has bytes, a record decodes as it does with any greater
/// number. A chain that uses up the limit has come back to a position and
/// never ends.
pub proof fn lemma_hops_suffice(data: Seq<u8>, pos: int, hops: nat)
    requires
        hops >= data.len(),
    ensures
        record_at(data, pos, hops) == decode(data, pos),
{
    lemma_hops_from(data, pos, 0, hops);
}

/// `string_end` stays inside the buffer and stops at the first zero byte.
pub proof fn lemma_string_end(data: Seq<u8>, pos: int)
    requires
        0 <= pos <= data.len(),
    ensures
        pos <= string_end(data, pos) <= data.len(),
        string_end(data, pos) < data.len() ==> data[string_end(data, pos)] == 0,
        forall|i: int| pos <= i < string_end(data, pos) ==> data[i] != 0,
    decreases data.len() - pos,
{
    if pos < data.len() && data[pos] != 0 {
        lemma_string_end(data, pos + 1);
    }
}

/// Whether `text`, followed by a zero byte, is stored in `data` at `pos`.
pub open spec fn stored_at(data: Seq<u8>, pos: int, text: Seq<u8>) -> bool {
    &&& 0 <= pos
    &&& pos + text.len() < data.len()
    &&& data.subrange(pos, pos + text.len()) == text
    &&& data[pos + text.len()] == 0
    &&& forall|i: int| 0 <= i < text.len() ==> text[i] != 0
}

/// A string stored at `pos` is what `string_at` reads there.
pub proof fn lemma_stored_string(data: Seq<u8>, pos: int, text: Seq<u8>)
    requires
        stored_at(data, pos, text),
    ensures
        string_end(data, pos) == pos + text.len(),
        string_at(data, pos) == text,
    decreases text.len(),
{
    if text.len() > 0 {
        assert(data[pos] == data.subrange(pos, pos + text.len())[0]);
        let rest = text.subrange(1, text.len() as int);
        assert(data.subrange(pos + 1, pos + 1 + rest.len()) =~= rest) by {
            assert forall|i: int| 0 <= i < rest.len() implies data[pos + 1 + i] == rest[i] by {
                assert(data[pos + 1 + i] == data.subrange(pos, pos + text.len())[i + 1]);
            }
        }
        lemma_stored_string(data, pos + 1, rest);
    }
}

/// A record stored in place decodes to what was stored: the country, a zero
/// byte, the area, a zero byte, where neither string starts with a redirect
/// mode byte.
pub proof fn lemma_literal_record(data: Seq<u8>, pos: int, country: Seq<u8>, area: Seq<u8>)
    requires
        data.len() <= usize::MAX,
        stored_at(data, pos, country),
        stored_at(data, pos + country.len() + 1, area),
        country.len() > 0 ==> !is_redirect(country[0]),
        area.len() > 0 ==> !is_redirect(area[0]),
    ensures
        decode(data, pos) == Some((country, area)),
{
    lemma_stored_string(data, pos, country);
    lemma_stored_string(data, pos + country.len() + 1, area);
    let field = pos + country.len() + 1;
    assert(data[pos] == if country.len() > 0 {
        country[0]
    } else {
        0u8
    }) by {
        if country.len() > 0 {
            assert(data[pos] == data.subrange(pos, pos + country.len())[0]);
        }
    }
    assert(data[field] == if area.len() > 0 {
        area[0]
    } else {
        0u8
    }) by {
        if area.len() > 0 {
            assert(data[field] == data.subrange(field, field + area.len())[0]);
        }
    }
}

/// A full redirect decodes exactly as the record it points to, read
/// directly, where that record is not a full redirect itself.
pub proof fn lemma_full_redirect(data: Seq<u8>, pos: int)
    requires
        in_bounds(data.len() as int, pos, 4),
        data[pos] == REDIRECT_MODE_1,
        le_value(data, pos + 1, 3) < data.len() ==> data[le_value(data, pos + 1, 3) as int]
            != REDIRECT_MODE_1,
    ensures
        decode(data, pos) == decode(data, le_value(data, pos + 1, 3) as int),
{
    let target = le_value(data, pos + 1, 3) as int;
    assert(record_at(data, pos, data.len()) == record_at(
        data,
        target,
        (data.len() - 1) as nat,
    ));
    assert(record_at(data, target, (data.len() - 1) as nat) == record_at(
        data,
        target,
        data.len(),
    ));
}

/// A partial redirect whose offset leads to the string `country` and whose
/// area is stored behind the offset field as the string `area` decodes to
/// that pair.
pub proof fn lemma_partial_redirect(data: Seq<u8>, pos: int, country: Seq<u8>, area: Seq<u8>)
    requires
        in_bounds(data.len() as int, pos, 4),
        data[pos] == REDIRECT_MODE_2,
        stored_at(data, le_value(data, pos + 1, 3) as int, country),
        stored_at(data, pos + 4, area),
        area.len() > 0 ==> !is_redirect(area[0]),
    ensures
        decode(data, pos) == Some((country, area)),
{
    lemma_stored_string(data, le_value(data, pos + 1, 3) as int, country);
    lemma_stored_string(data, pos + 4, area);
    assert(data[pos + 4] == if area.len() > 0 {
        area[0]
    } else {
        0u8
    }) by {
        if area.len() > 0 {
            assert(data[pos + 4] == data.subrange(pos + 4, pos + 4 + area.len())[0]);
        }
    }
}

/// A cursor over an immutable byte buffer.
pub struct Reader<'a> {
    data: &'a [u8],
    pos: usize,
    last_pos: usize,
}

impl<'a> Reader<'a> {
    /// The buffer under the cursor.
    pub closed spec fn buffer(&self) -> Seq<u8> {
        self.data@
    }

    /// The current position.
    pub closed spec fn position(&self) -> int {
        self.pos as int
    }

    /// The remembered position, to which `seek_back` returns.
    pub closed spec fn previous(&self) -> int {
        self.last_pos as int
    }

    /// A cursor at the start of `data`.
    pub fn new(data: &'a [u8]) -> (r: Self)
        ensures
            r.buffer() == data@,
            r.position() == 0,
            r.previous() == 0,
    {
        Self { data, pos: 0, last_pos: 0 }
    }

    /// The current position.
    pub fn pos(&self) -> (p: usize)
        ensures
            p == self.position(),
    {
        self.pos
    }

    /// Moves to `offset` and remembers the position left.
    pub fn seek_abs(&mut self, offset: u32)
        ensures
            final(self).buffer() == old(self).buffer(),
            final(self).position() == offset,
            final(self).previous() == old(self).position(),
    {
        self.last_pos = self.pos;
        self.pos = offset as usize;
    }

    /// Returns to the remembered position.
    pub fn seek_back(&mut self)
        ensures
            final(self).buffer() == old(self).buffer(),
            final(self).position() == old(self).previous(),
            final(self).previous() == old(self).previous(),
    {
        self.pos = self.last_pos;
    }

    /// Reads the byte under the cursor and steps over it, remembering where
    /// it stood. Fails where the cursor is outside the buffer.
    pub fn read_mode(&mut self) -> (r: Result<u8, NaliError>)
        ensures
            final(self).buffer() == old(self).buffer(),
            match r {
                Ok(b) => {
                    &&& old(self).position() < old(self).buffer().len()
                    &&& b == old(self).buffer()[old(self).position()]
                    &&& final(self).position() == old(self).position() + 1
                    &&& final(self).previous() == old(self).position()
                },
                Err(e) => {
                    &&& old(self).position() >= old(self).buffer().len()
                    &&& e is ParseError
                    &&& *final(self) == *old(self)
                },
            },
    {
        if self.pos >= self.data.len() {
            return Err(NaliError::parse("record lies outside the database"));
        }
        let mode: u8 = self.data[self.pos];
        self.last_pos = self.pos;
        self.pos = self.pos + 1;
        Ok(mode)
    }

    /// Reads the three-byte little-endian offset under the cursor and steps
    /// over it. With `follow`, the position behind the offset is remembered
    /// and the cursor jumps to the offset read; without, the position of the
    /// offset is remembered. Fails where the three bytes leave the buffer.
    pub fn read_offset(&mut self, follow: bool) -> (r: Result<u32, NaliError>)
        ensures
            final(self).buffer() == old(self).buffer(),
            ({
                let data = old(self).buffer();
                let at = old(self).position();
                match r {
                    Ok(v) => {
                        &&& in_bounds(data.len() as int, at, 3)
                        &&& v == le_value(data, at, 3)
                        &&& final(self).position() == if follow {
                            v as int
                        } else {
                            at + 3
                        }
                        &&& final(self).previous() == if follow {
                            at + 3
                        } else {
                            at
                        }
                    },
                    Err(e) => {
                        &&& !in_bounds(data.len() as int, at, 3)
                        &&& e is ParseError
                        &&& *final(self) == *old(self)
                    },
                }
            }),
    {
        let len: usize = self.data.len();
        if len < 3 || self.pos > len - 3 {
            return Err(NaliError::parse("offset field lies outside the database"));
        }
        let offset: u32 = read_u24_le(self.data, self.pos);
        self.last_pos = self.pos;
        self.pos = self.pos + 3;
        if follow {
            self.last_pos = self.pos;
            self.pos = offset as usize;
        }
        Ok(offset)
    }

    /// Returns the bytes from the cursor up to the next zero byte or the end
    /// of the buffer. With `advance`, the cursor moves behind the terminator
    /// and remembers where it stood. Fails where the cursor is beyond the end
    /// of the buffer, or where the position behind the terminator cannot be
    /// represented.
    pub fn read_string(&mut self, advance: bool) -> (r: Result<Vec<u8>, NaliError>)
        ensures
            final(self).buffer() == old(self).buffer(),
            ({
                let data = old(self).buffer();
                let at = old(self).position();
                match r {
                    Ok(s) => {
                        &&& at <= data.len()
                        &&& s@ == string_at(data, at)
                        &&& advance ==> final(self).position() == string_end(data, at) + 1
                            && final(self).previous() == at
                        &&& !advance ==> *final(self) == *old(self)
                    },
                    Err(e) => {
                        &&& at > data.len() || (advance && string_end(data, at) >= usize::MAX)
                        &&& e is ParseError
                        &&& *final(self) == *old(self)
                    },
                }
            }),
    {
        let len: usize = self.data.len();
        let start: usize = self.pos;
        if start > len {
            return Err(NaliError::parse("string lies outside the database"));
        }
        let mut end: usize = start;
        while end < len && self.data[end] != 0
            invariant
                start <= end <= len,
                len == self.data@.len(),
                string_end(self.data@, end as int) == string_end(self.data@, start as int),
            decreases len - end,
        {
            end = end + 1;
        }
        if advance {
            if end == usize::MAX {
                return Err(NaliError::parse("string reaches the end of the address space"));
            }
            self.last_pos = self.pos;
            self.pos = end + 1;
        }
        Ok(slice_to_vec(slice_subrange(self.data, start, end)))
    }

    /// Decodes the country of a partial redirect: follows the offset under
    /// the cursor, reads the string there, and returns to just behind the
    /// offset field.
    pub fn parse_redirect_mode2(&mut self) -> (r: Result<Vec<u8>, NaliError>)
        ensures
            final(self).buffer() == old(self).buffer(),
            ({
                let data = old(self).buffer();
                let at = old(self).position();
                match r {
                    Ok(s) => {
                        &&& in_bounds(data.len() as int, at, 3)
                        &&& le_value(data, at, 3) <= data.len()
                        &&& s@ == string_at(data, le_value(data, at, 3) as int)
                        &&& final(self).position() == at + 3
                        &&& final(self).previous() == at + 3
                    },
                    Err(e) => {
                        &&& !in_bounds(data.len() as int, at, 3) || le_value(data, at, 3)
                            > data.len()
                        &&& e is ParseError
                    },
                }
            }),
    {
        let _target: u32 = self.read_offset(true)?;
        let s: Vec<u8> = self.read_string(false)?;
        self.seek_back();
        Ok(s)
    }

    /// Decodes the area field under the cursor.
    pub fn read_area(&mut self) -> (r: Result<Vec<u8>, NaliError>)
        ensures
            final(self).buffer() == old(self).buffer(),
            ({
                let data = old(self).buffer();
                let at = old(self).position();
                match r {
                    Ok(s) => {
                        &&& area_at(data, at) == Some(s@)
                        &&& (final(self).position(), final(self).previous()) == cursor_after_area(
                            data,
                            at,
                        )
                    },
                    Err(e) => area_at(data, at) is None && e is ParseError,
                }
            }),
    {
        let mode: u8 = self.read_mode()?;
        if mode == REDIRECT_MODE_1 || mode == REDIRECT_MODE_2 {
            let offset: u32 = self.read_offset(true)?;
            if offset == 0 {
                return Ok(Vec::new());
            }
        } else {
            self.seek_back();
        }
        self.read_string(false)
    }

    /// Decodes the record at `offset`, or at the cursor where `offset` is 0,
    /// and returns its country and area bytes.
    ///
    /// Fails with `ParseError` where decoding leaves the buffer, and where
    /// more full redirects follow one another than the buffer has bytes.
    pub fn parse(&mut self, offset: u32) -> (r: Result<(Vec<u8>, Vec<u8>), NaliError>)
        ensures
            final(self).buffer() == old(self).buffer(),
            ({
                let data = old(self).buffer();
                let start = if offset != 0 {
                    offset as int
                } else {
                    old(self).position()
                };
                match r {
                    Ok(pair) => {
                        &&& decode(data, start) == Some((pair.0@, pair.1@))
                        &&& area_field(data, start, data.len()) matches Some(field)
                        &&& (final(self).position(), final(self).previous()) == cursor_after_area(
                            data,
                            field,
                        )
                    },
                    Err(e) => decode(data, start) is None && e is ParseError,
                }
            }),
    {
        if offset != 0 {
            self.seek_abs(offset);
        }
        let ghost start: int = self.pos as int;
        let len: usize = self.data.len();
        let mut hops: usize = len;
        let mut mode: u8 = self.read_mode()?;
        while mode == REDIRECT_MODE_1
            invariant
                self.data@ == old(self).data@,
                start == if offset != 0 {
                    offset as int
                } else {
                    old(self).pos as int
                },
                len == self.data@.len(),
                hops <= len,
                self.pos >= 1,
                self.pos - 1 < len,
                mode == self.data@[self.pos - 1],
                self.last_pos == self.pos - 1,
                record_at(self.data@, self.pos - 1, hops as nat) == decode(self.data@, start),
                area_field(self.data@, self.pos - 1, hops as nat) == area_field(
                    self.data@,
                    start,
                    len as nat,
                ),
            decreases hops,
        {
            if hops == 0 {
                return Err(NaliError::parse("redirects do not end"));
            }
            let ghost at: int = self.pos - 1;
            let target: u32 = self.read_offset(true)?;
            hops = hops - 1;
            assert(record_at(self.data@, at, (hops + 1) as nat) == record_at(
                self.data@,
                target as int,
                hops as nat,
            ));
            assert(area_field(self.data@, at, (hops + 1) as nat) == area_field(
                self.data@,
                target as int,
                hops as nat,
            ));
            mode = self.read_mode()?;
        }
        if mode == REDIRECT_MODE_2 {
            let country: Vec<u8> = self.parse_redirect_mode2()?;
            let area: Vec<u8> = self.read_area()?;
            Ok((country, area))
        } else {
            self.seek_back();
            let country: Vec<u8> = self.read_string(true)?;
            let area: Vec<u8> = self.read_area()?;
            Ok((country, area))
        }
    }
}

} // verus!
