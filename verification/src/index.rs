//! Binary search over a packed, sorted index.
//!
//! An index is a run of fixed-stride entries inside a byte buffer. Each entry
//! starts with a little-endian key and carries a three-byte little-endian
//! payload. The region is given by the offsets of its first and of its last
//! entry. A key stands for the start of a range that reaches to the next key,
//! so the entry that answers a target is the one with the greatest key not
//! above the target.

use crate::bytes::{in_bounds, le_value, read_u24_le, read_u32_le, read_u64_le};
use crate::error::NaliError;
use vstd::prelude::*;

verus! {

/// Where an index lies in a buffer and how its entries are cut.
#[derive(Clone, Copy, Debug)]
pub struct IndexLayout {
    /// Offset of the first entry.
    pub start: usize,
    /// Offset of the last entry.
    pub end: usize,
    /// Bytes from one entry to the next.
    pub stride: usize,
    /// Bytes of the key at the head of an entry: 4 or 8.
    pub key_width: usize,
    /// Offset of the three-byte payload inside an entry.
    pub payload_offset: usize,
}

impl IndexLayout {
    /// The region holds a whole number of entries, at least two.
    pub open spec fn well_formed(&self) -> bool {
        &&& self.stride > 0
        &&& self.start < self.end
        &&& (self.end - self.start) % (self.stride as int) == 0
        &&& (self.key_width == 4 || self.key_width == 8)
    }

    /// Index of the last entry; entries are numbered from 0.
    pub open spec fn last(&self) -> int {
        (self.end - self.start) / (self.stride as int)
    }

    /// Offset of entry `i`.
    pub open spec fn offset(&self, i: int) -> int {
        self.start + i * self.stride
    }

    /// Whether the key of entry `i` lies inside `data`.
    pub open spec fn key_readable(&self, data: Seq<u8>, i: int) -> bool {
        in_bounds(data.len() as int, self.offset(i), self.key_width as int)
    }

    /// Whether the payload of entry `i` lies inside `data`.
    pub open spec fn payload_readable(&self, data: Seq<u8>, i: int) -> bool {
        in_bounds(data.len() as int, self.offset(i) + self.payload_offset, 3)
    }

    /// The key of entry `i`.
    pub open spec fn key(&self, data: Seq<u8>, i: int) -> nat {
        le_value(data, self.offset(i), self.key_width as nat)
    }

    /// The payload of entry `i`.
    pub open spec fn payload(&self, data: Seq<u8>, i: int) -> nat {
        le_value(data, self.offset(i) + self.payload_offset, 3)
    }

    /// Every entry of the region can be read in full.
    pub open spec fn readable(&self, data: Seq<u8>) -> bool {
        forall|i: int|
            0 <= i <= self.last() ==> #[trigger] self.key_readable(data, i)
                && self.payload_readable(data, i)
    }

    /// Keys never decrease from one entry to the next.
    pub open spec fn sorted(&self, data: Seq<u8>) -> bool {
        forall|i: int, j: int|
            0 <= i <= j <= self.last() ==> self.key(data, i) <= self.key(data, j)
    }

    /// Entry `i` answers `target`: its key is the greatest key not above the
    /// target, or it is the first entry and every key is above the target.
    pub open spec fn answers(&self, data: Seq<u8>, target: nat, i: int) -> bool {
        &&& 0 <= i <= self.last()
        &&& if self.key(data, 0) > target {
            i == 0
        } else {
            &&& self.key(data, i) <= target
            &&& forall|j: int|
                0 <= j <= self.last() && self.key(data, j) <= target ==> self.key(data, j)
                    <= self.key(data, i)
        }
    }
}

/// How a search ends: at an entry, or at a field that leaves the buffer.
pub enum Probe {
    /// The search settled on this entry.
    Entry(int),
    /// A key or payload that the search had to read lies outside the buffer.
    OutOfBounds,
}

/// The entry that the search settles on when it starts with the candidates
/// `lo..=hi`, following the midpoint rule: halve towards `lo`, stop on an
/// exact hit, and once two candidates are left take the upper one if its key
/// is not above the target.
pub open spec fn probe(layout: IndexLayout, data: Seq<u8>, target: nat, lo: int, hi: int) -> Probe
    decreases hi - lo,
{
    let mid = lo + (hi - lo) / 2;
    if lo >= hi || !layout.key_readable(data, mid) {
        Probe::OutOfBounds
    } else if hi - lo == 1 {
        if !layout.key_readable(data, hi) {
            Probe::OutOfBounds
        } else if target >= layout.key(data, hi) {
            Probe::Entry(hi)
        } else {
            Probe::Entry(mid)
        }
    } else if layout.key(data, mid) > target {
        probe(layout, data, target, lo, mid)
    } else if layout.key(data, mid) < target {
        probe(layout, data, target, mid, hi)
    } else {
        Probe::Entry(mid)
    }
}

/// What a lookup returns: the payload of the entry the search settles on.
pub open spec fn lookup(layout: IndexLayout, data: Seq<u8>, target: nat) -> Option<nat> {
    match probe(layout, data, target, 0, layout.last()) {
        Probe::Entry(i) => if layout.payload_readable(data, i) {
            Some(layout.payload(data, i))
        } else {
            None
        },
        Probe::OutOfBounds => None,
    }
}

/// In a readable, sorted region the search settles on an entry that answers
/// the target, whatever sub-range it has narrowed to, as long as the keys
/// outside the sub-range lie on the proper side of the target.
pub proof fn lemma_probe_answers(
    layout: IndexLayout,
    data: Seq<u8>,
    target: nat,
    lo: int,
    hi: int,
)
    requires
        layout.well_formed(),
        layout.readable(data),
        layout.sorted(data),
        0 <= lo < hi <= layout.last(),
        lo == 0 || layout.key(data, lo) < target,
        hi == layout.last() || layout.key(data, hi) > target,
    ensures
        probe(layout, data, target, lo, hi) matches Probe::Entry(i) && layout.answers(
            data,
            target,
            i,
        ),
    decreases hi - lo,
{
    let mid = lo + (hi - lo) / 2;
    assert(layout.key_readable(data, mid));
    assert(layout.key_readable(data, hi));
    if hi - lo == 1 {
    } else if layout.key(data, mid) > target {
        lemma_probe_answers(layout, data, target, lo, mid);
    } else if layout.key(data, mid) < target {
        lemma_probe_answers(layout, data, target, mid, hi);
    } else {
    }
}

/// The greatest-key-below rule: in a well-formed region whose entries can all
/// be read and whose keys are sorted, a lookup returns the payload of an
/// entry whose key is the greatest key not above the target (of the first
/// entry where every key is above it).
pub proof fn lemma_lookup_greatest_key_below(layout: IndexLayout, data: Seq<u8>, target: nat)
    requires
        layout.well_formed(),
        layout.readable(data),
        layout.sorted(data),
    ensures
        probe(layout, data, target, 0, layout.last()) matches Probe::Entry(i) && layout.answers(
            data,
            target,
            i,
        ) && lookup(layout, data, target) == Some(layout.payload(data, i)),
{
    lemma_last_positive(layout);
    lemma_probe_answers(layout, data, target, 0, layout.last());
    let i = probe(layout, data, target, 0, layout.last())->Entry_0;
    assert(layout.key_readable(data, i));
}

/// A well-formed region has a last entry after its first.
pub proof fn lemma_last_positive(layout: IndexLayout)
    requires
        layout.well_formed(),
    ensures
        layout.last() >= 1,
        layout.start + layout.last() * layout.stride == layout.end,
{
    let d = layout.end - layout.start;
    let s = layout.stride as int;
    assert(d == s * (d / s) + d % s) by (nonlinear_arith)
        requires
            s > 0,
    ;
    assert(d / s >= 1) by (nonlinear_arith)
        requires
            s > 0,
            d > 0,
            d == s * (d / s),
    ;
    assert((d / s) * s == s * (d / s)) by (nonlinear_arith);
}

/// Multiplying and dividing by the stride cancel, and offsets grow with the
/// entry number.
proof fn lemma_offsets(layout: IndexLayout, i: int, j: int)
    requires
        layout.stride > 0,
        0 <= i <= j,
    ensures
        layout.offset(i) <= layout.offset(j),
        (layout.offset(j) - layout.offset(i)) / (layout.stride as int) == j - i,
        layout.offset(i) + ((j - i) / 2) * layout.stride == layout.offset(i + (j - i) / 2),
{
    let s = layout.stride as int;
    let d = j - i;
    assert(j * s - i * s == d * s) by (nonlinear_arith)
        requires
            d == j - i,
    ;
    assert(d * s >= 0 && (d * s) / s == d) by (nonlinear_arith)
        requires
            s > 0,
            d >= 0,
    ;
    assert(i * s + (d / 2) * s == (i + d / 2) * s) by (nonlinear_arith);
}

/// Whether `width` bytes at `at + extra` lie inside a buffer of `len` bytes.
fn fits(len: usize, at: usize, extra: usize, width: usize) -> (b: bool)
    ensures
        b == in_bounds(len as int, at + extra, width as int),
{
    (at as u128) + (extra as u128) + (width as u128) <= (len as u128)
}

/// Reads the key at offset `at`, four or eight bytes wide.
fn read_key(data: &[u8], at: usize, key_width: usize) -> (k: u64)
    requires
        key_width == 4 || key_width == 8,
        in_bounds(data@.len() as int, at as int, key_width as int),
    ensures
        k == le_value(data@, at as int, key_width as nat),
{
    if key_width == 4 {
        read_u32_le(data, at) as u64
    } else {
        read_u64_le(data, at)
    }
}

/// Looks `target` up in the index that `layout` describes inside `data` and
/// returns the payload of the entry that the search settles on.
///
/// The search keeps a low and a high entry, probes the entry-aligned midpoint
/// (rounded towards the low end), returns at once on an exact hit, and once
/// the two are neighbours takes the high one if its key is not above the
/// target and the low one otherwise.
///
/// A layout that is not well formed is reported as `DatabaseCorrupted`; a
/// key or payload that the search has to read outside the buffer is reported
/// as `ParseError`.
pub fn search_index(data: &[u8], layout: &IndexLayout, target: u64) -> (r: Result<u32, NaliError>)
    ensures
        match r {
            Ok(v) => layout.well_formed() && lookup(*layout, data@, target as nat) == Some(
                v as nat,
            ),
            Err(NaliError::DatabaseCorrupted(_)) => !layout.well_formed(),
            Err(NaliError::ParseError(_)) => layout.well_formed() && lookup(
                *layout,
                data@,
                target as nat,
            ) is None,
            Err(_) => false,
        },
        r matches Ok(v) ==> v < 0x100_0000,
        layout.well_formed() && layout.readable(data@) && layout.sorted(data@) ==> r is Ok
            && exists|i: int|
            #[trigger] layout.answers(data@, target as nat, i) && r->Ok_0 == layout.payload(
                data@,
                i,
            ),
{
    let stride: usize = layout.stride;
    let key_width: usize = layout.key_width;
    if stride == 0 || layout.start >= layout.end || (layout.end - layout.start) % stride != 0 || (
    key_width != 4 && key_width != 8) {
        return Err(NaliError::corrupted("index region is not a whole number of entries"));
    }
    let len: usize = data.len();
    let mut low: usize = layout.start;
    let mut high: usize = layout.end;
    let ghost mut lo: int = 0;
    let ghost mut hi: int = layout.last();
    proof {
        lemma_last_positive(*layout);
        if layout.readable(data@) && layout.sorted(data@) {
            lemma_lookup_greatest_key_below(*layout, data@, target as nat);
        }
    }
    let mut found: usize = layout.start;
    loop
        invariant_except_break
            layout.well_formed(),
            stride == layout.stride,
            key_width == layout.key_width,
            len == data@.len(),
            0 <= lo < hi <= layout.last(),
            low == layout.offset(lo),
            high == layout.offset(hi),
            probe(*layout, data@, target as nat, lo, hi) == probe(
                *layout,
                data@,
                target as nat,
                0,
                layout.last(),
            ),
            layout.readable(data@) && layout.sorted(data@) ==> probe(
                *layout,
                data@,
                target as nat,
                0,
                layout.last(),
            ) is Entry,
        ensures
            layout.well_formed(),
            len == data@.len(),
            exists|i: int|
                found == layout.offset(i) && probe(
                    *layout,
                    data@,
                    target as nat,
                    0,
                    layout.last(),
                ) == Probe::Entry(i),
        decreases hi - lo,
    {
        let ghost m: int = lo + (hi - lo) / 2;
        proof {
            lemma_offsets(*layout, lo, hi);
            lemma_offsets(*layout, lo, m);
            lemma_offsets(*layout, m, hi);
        }
        let half: usize = (high - low) / stride / 2;
        assert(half * stride == layout.offset(m) - low) by (nonlinear_arith)
            requires
                half == m - lo,
                low == layout.start + lo * stride,
                layout.offset(m) == layout.start + m * stride,
        ;
        let mid: usize = low + half * stride;
        if !fits(len, mid, 0, key_width) {
            return Err(NaliError::parse("index key lies outside the database"));
        }
        let mid_key: u64 = read_key(data, mid, key_width);
        if high - low == stride {
            assert(hi - lo == 1) by (nonlinear_arith)
                requires
                    (high - low) / (stride as int) == hi - lo,
                    high - low == stride,
                    stride > 0,
            ;
            if !fits(len, high, 0, key_width) {
                return Err(NaliError::parse("index key lies outside the database"));
            }
            let high_key: u64 = read_key(data, high, key_width);
            if target >= high_key {
                found = high;
                assert(found == layout.offset(hi));
            } else {
                found = mid;
                assert(found == layout.offset(m));
            }
            break ;
        }
        proof {
            assert(hi - lo != 1) by {
                assert(layout.offset(lo + 1) == layout.offset(lo) + layout.stride)
                    by (nonlinear_arith);
            }
        }
        if mid_key > target {
            high = mid;
            proof {
                hi = m;
            }
        } else if mid_key < target {
            low = mid;
            proof {
                lo = m;
            }
        } else {
            found = mid;
            assert(found == layout.offset(m));
            break ;
        }
    }
    if !fits(len, found, layout.payload_offset, 3) {
        return Err(NaliError::parse("index payload lies outside the database"));
    }
    Ok(read_u24_le(data, found + layout.payload_offset))
}

} // verus!
