//! Text as sequences of characters.

use crate::error::NaliError;
use vstd::prelude::*;

verus! {

/// What `String::push` does: it appends one character.
pub assume_specification[ String::push ](s: &mut String, c: char)
    ensures
        final(s)@ == old(s)@.push(c),
;

/// The text that the GBK decoder of `encoding_rs` makes of `bytes`.
pub uninterp spec fn gbk_text(bytes: Seq<u8>) -> Seq<char>;

/// The text that lossy UTF-8 decoding makes of `bytes`.
pub uninterp spec fn utf8_lossy_text(bytes: Seq<u8>) -> Seq<char>;

/// The lowercase form of `s`.
pub uninterp spec fn lowercase(s: Seq<char>) -> Seq<char>;

/// The longest input handed to the GBK decoder. The decoder reserves up to
/// three bytes of output for each byte of input and one more, and panics
/// where that is more than a string can hold, which is half the address
/// space.
pub const GBK_INPUT_LIMIT: usize = usize::MAX / 8;

/// Calls `encoding_rs::GBK.decode`, which decodes the whole input, replaces
/// malformed sequences, and honours a byte order mark. The result depends on
/// the bytes alone; the contract gives it the name `gbk_text`. Inputs for
/// which the decoder's output buffer could not be reserved are left out.
#[verifier::external_body]
fn gbk_decode(data: &[u8]) -> (r: String)
    requires
        data@.len() <= GBK_INPUT_LIMIT,
    ensures
        r@ == gbk_text(data@),
{
    encoding_rs::GBK.decode(data).0.into_owned()
}

/// Calls `String::from_utf8_lossy`, which decodes UTF-8 and replaces each
/// invalid sequence with U+FFFD. The result depends on the bytes alone; the
/// contract gives it the name `utf8_lossy_text`.
#[verifier::external_body]
pub(crate) fn utf8_lossy(data: &[u8]) -> (r: String)
    ensures
        r@ == utf8_lossy_text(data@),
{
    String::from_utf8_lossy(data).into_owned()
}

/// Calls `String::from_utf8`, which turns bytes that are valid UTF-8 into
/// the text they encode and refuses any other bytes.
#[verifier::external_body]
pub(crate) fn utf8_text(data: Vec<u8>) -> (r: Option<String>)
    ensures
        r is Some == vstd::utf8::valid_utf8(data@),
        r matches Some(s) ==> s@ == vstd::utf8::decode_utf8(data@),
{
    String::from_utf8(data).ok()
}

/// Calls `str::to_lowercase`, which returns the lowercase equivalent of the
/// text as Unicode defines it. The result depends on the text alone; the
/// contract gives it the name `lowercase`.
#[verifier::external_body]
pub(crate) fn to_lowercase(s: &str) -> (r: String)
    ensures
        r@ == lowercase(s@),
{
    s.to_lowercase()
}

/// The characters of `s`, in order.
pub fn chars_of(s: &str) -> (v: Vec<char>)
    ensures
        v@ == s@,
{
    let mut v: Vec<char> = Vec::new();
    for c in it: s.chars()
        invariant
            v@ == it.seq().take(it.index() as int),
            it.seq() == s@,
    {
        v.push(c);
    }
    v
}

/// The string made of the characters of `v`, in order.
pub fn string_of(v: &[char]) -> (s: String)
    ensures
        s@ == v@,
{
    let mut s: String = String::new();
    let mut i: usize = 0;
    while i < v.len()
        invariant
            i <= v@.len(),
            s@ == v@.take(i as int),
        decreases v@.len() - i,
    {
        s.push(v[i]);
        i = i + 1;
    }
    s
}

/// Whether two runs of characters are equal.
pub fn same_chars(a: &[char], b: &[char]) -> (r: bool)
    ensures
        r == (a@ == b@),
{
    if a.len() != b.len() {
        return false;
    }
    let mut i: usize = 0;
    while i < a.len()
        invariant
            a@.len() == b@.len(),
            i <= a@.len(),
            a@.take(i as int) == b@.take(i as int),
        decreases a@.len() - i,
    {
        if a[i] != b[i] {
            return false;
        }
        assert(a@.take(i + 1) == a@.take(i as int).push(a@[i as int]));
        assert(b@.take(i + 1) == b@.take(i as int).push(b@[i as int]));
        i = i + 1;
    }
    assert(a@.take(a@.len() as int) == a@);
    assert(b@.take(b@.len() as int) == b@);
    true
}

/// Whether `needle` stands in `hay` at position `at`.
pub open spec fn occurs_at(hay: Seq<char>, at: int, needle: Seq<char>) -> bool {
    0 <= at && at + needle.len() <= hay.len() && hay.subrange(at, at + needle.len()) == needle
}

/// Whether `needle` stands somewhere in `hay`.
pub open spec fn occurs_in(hay: Seq<char>, needle: Seq<char>) -> bool {
    exists|at: int| occurs_at(hay, at, needle)
}

/// Whether `needle` stands in `hay` at position `at`.
pub fn matches_at(hay: &[char], at: usize, needle: &[char]) -> (r: bool)
    ensures
        r == occurs_at(hay@, at as int, needle@),
{
    let n: usize = needle.len();
    if at > hay.len() || n > hay.len() - at {
        return false;
    }
    let total: usize = hay.len();
    let mut i: usize = 0;
    while i < n
        invariant
            n == needle@.len(),
            total == hay@.len(),
            at + n <= hay@.len(),
            i <= n,
            hay@.subrange(at as int, at + i) == needle@.take(i as int),
        decreases n - i,
    {
        if hay[at + i] != needle[i] {
            assert(hay@.subrange(at as int, at + n)[i as int] != needle@[i as int]);
            return false;
        }
        assert(hay@.subrange(at as int, at + i + 1) == hay@.subrange(at as int, at + i).push(
            hay@[at + i],
        ));
        assert(needle@.take(i + 1) == needle@.take(i as int).push(needle@[i as int]));
        i = i + 1;
    }
    assert(needle@.take(n as int) == needle@);
    true
}

/// Whether `needle` stands somewhere in `hay`.
pub fn contains(hay: &[char], needle: &[char]) -> (r: bool)
    ensures
        r == occurs_in(hay@, needle@),
{
    if needle.len() > hay.len() {
        return false;
    }
    let last: usize = hay.len() - needle.len();
    let mut at: usize = 0;
    loop
        invariant
            last == hay@.len() - needle@.len(),
            at <= last,
            forall|k: int| 0 <= k < at ==> !occurs_at(hay@, k, needle@),
        decreases last - at,
    {
        if matches_at(hay, at, needle) {
            return true;
        }
        if at == last {
            return false;
        }
        at = at + 1;
    }
}

/// `s` with every occurrence of `token` taken out, scanning from the left.
pub open spec fn without(s: Seq<char>, token: Seq<char>) -> Seq<char>
    decreases s.len(),
{
    if token.len() == 0 || s.len() < token.len() {
        s
    } else if occurs_at(s, 0, token) {
        without(s.skip(token.len() as int), token)
    } else {
        seq![s[0]] + without(s.skip(1), token)
    }
}

/// A copy of `s`.
pub fn copy_chars(s: &[char]) -> (r: Vec<char>)
    ensures
        r@ == s@,
{
    let mut out: Vec<char> = Vec::new();
    let mut i: usize = 0;
    while i < s.len()
        invariant
            i <= s@.len(),
            out@ == s@.take(i as int),
        decreases s@.len() - i,
    {
        out.push(s[i]);
        i = i + 1;
    }
    out
}

/// Takes every occurrence of `token` out of `s`, scanning from the left.
pub fn remove_all(s: &[char], token: &[char]) -> (r: Vec<char>)
    ensures
        r@ == without(s@, token@),
{
    let n: usize = token.len();
    if n == 0 {
        return copy_chars(s);
    }
    let mut out: Vec<char> = Vec::new();
    let mut i: usize = 0;
    assert(s@.skip(0) == s@);
    while i < s.len()
        invariant
            n == token@.len(),
            n > 0,
            i <= s@.len(),
            out@ + without(s@.skip(i as int), token@) == without(s@, token@),
        decreases s@.len() - i,
    {
        let ghost rest = s@.skip(i as int);
        if matches_at(s, i, token) {
            assert(occurs_at(rest, 0, token@)) by {
                assert(rest.subrange(0, n as int) == s@.subrange(i as int, i + n));
            }
            assert(rest.skip(n as int) == s@.skip(i + n));
            i = i + n;
        } else {
            assert(rest.skip(1) == s@.skip(i + 1));
            assert(without(rest, token@) == seq![s@[i as int]] + without(s@.skip(i + 1), token@))
                by {
                if rest.len() >= n {
                    assert(!occurs_at(rest, 0, token@)) by {
                        assert(rest.subrange(0, n as int) == s@.subrange(i as int, i + n));
                    }
                } else {
                    assert(rest == seq![s@[i as int]] + rest.skip(1));
                }
            }
            let ghost before = out@;
            out.push(s[i]);
            assert(out@ + without(s@.skip(i + 1), token@) == before + (seq![s@[i as int]]
                + without(s@.skip(i + 1), token@)));
            i = i + 1;
        }
    }
    assert(s@.skip(s@.len() as int) == Seq::<char>::empty());
    out
}

/// Whether `c` is white space: a character with the Unicode property
/// White_Space.
pub open spec fn is_space(c: char) -> bool {
    let v = c as u32;
    (0x09 <= v <= 0x0D) || v == 0x20 || v == 0x85 || v == 0xA0 || v == 0x1680 || (0x2000 <= v
        <= 0x200A) || v == 0x2028 || v == 0x2029 || v == 0x202F || v == 0x205F || v == 0x3000
}

/// Whether `c` is white space.
pub fn is_whitespace(c: char) -> (r: bool)
    ensures
        r == is_space(c),
{
    let v: u32 = c as u32;
    (0x09 <= v && v <= 0x0D) || v == 0x20 || v == 0x85 || v == 0xA0 || v == 0x1680 || (0x2000 <= v
        && v <= 0x200A) || v == 0x2028 || v == 0x2029 || v == 0x202F || v == 0x205F || v == 0x3000
}

/// `s` without its leading white space.
pub open spec fn trim_start(s: Seq<char>) -> Seq<char>
    decreases s.len(),
{
    if s.len() > 0 && is_space(s[0]) {
        trim_start(s.skip(1))
    } else {
        s
    }
}

/// `s` without its trailing white space.
pub open spec fn trim_end(s: Seq<char>) -> Seq<char>
    decreases s.len(),
{
    if s.len() > 0 && is_space(s.last()) {
        trim_end(s.drop_last())
    } else {
        s
    }
}

/// `s` without leading and trailing white space.
pub open spec fn trimmed(s: Seq<char>) -> Seq<char> {
    trim_end(trim_start(s))
}

/// Takes leading and trailing white space off `s`.
pub fn trim(s: &[char]) -> (r: Vec<char>)
    ensures
        r@ == trimmed(s@),
{
    let len: usize = s.len();
    let mut a: usize = 0;
    assert(s@.skip(0) == s@);
    while a < len && is_whitespace(s[a])
        invariant
            len == s@.len(),
            a <= len,
            trim_start(s@.skip(a as int)) == trim_start(s@),
        decreases len - a,
    {
        assert(s@.skip(a as int).skip(1) == s@.skip(a + 1));
        a = a + 1;
    }
    let mut b: usize = len;
    assert(s@.subrange(a as int, len as int) == s@.skip(a as int));
    while b > a && is_whitespace(s[b - 1])
        invariant
            len == s@.len(),
            a <= b <= len,
            trim_end(s@.subrange(a as int, b as int)) == trimmed(s@),
        decreases b - a,
    {
        assert(s@.subrange(a as int, b as int).drop_last() == s@.subrange(a as int, b - 1));
        b = b - 1;
    }
    let mut out: Vec<char> = Vec::new();
    let mut i: usize = a;
    while i < b
        invariant
            a <= i <= b <= s@.len(),
            out@ == s@.subrange(a as int, i as int),
        decreases b - i,
    {
        out.push(s[i]);
        i = i + 1;
    }
    out
}

/// How many characters of `s` stand before the first `sep`; the length of
/// `s` where it holds none.
pub open spec fn first_sep(s: Seq<char>, sep: char) -> int
    decreases s.len(),
{
    if s.len() == 0 || s[0] == sep {
        0
    } else {
        1 + first_sep(s.skip(1), sep)
    }
}

/// The pieces of `s` between occurrences of `sep`. A text without `sep` is
/// one piece; two adjacent separators enclose an empty piece.
pub open spec fn split(s: Seq<char>, sep: char) -> Seq<Seq<char>>
    decreases s.len(),
{
    let k = first_sep(s, sep);
    if 0 <= k < s.len() {
        seq![s.take(k)] + split(s.skip(k + 1), sep)
    } else {
        seq![s]
    }
}

/// `first_sep` is the position of the first separator.
pub proof fn lemma_first_sep(s: Seq<char>, sep: char, k: int)
    requires
        0 <= k <= s.len(),
        forall|j: int| 0 <= j < k ==> s[j] != sep,
        k == s.len() || s[k] == sep,
    ensures
        first_sep(s, sep) == k,
    decreases s.len(),
{
    if k > 0 {
        lemma_first_sep(s.skip(1), sep, k - 1);
    }
}

/// The views of a vector of character vectors.
pub open spec fn views(v: Seq<Vec<char>>) -> Seq<Seq<char>> {
    Seq::new(v.len(), |i: int| v[i]@)
}

/// Cuts `s` at every occurrence of `sep`.
pub fn split_chars(s: &[char], sep: char) -> (r: Vec<Vec<char>>)
    ensures
        views(r@) == split(s@, sep),
{
    let mut pieces: Vec<Vec<char>> = Vec::new();
    let mut piece: Vec<char> = Vec::new();
    let ghost mut start: int = 0;
    let mut i: usize = 0;
    assert(s@.skip(0) == s@);
    assert(views(pieces@) == Seq::<Seq<char>>::empty());
    while i < s.len()
        invariant
            0 <= start <= i <= s@.len(),
            piece@ == s@.subrange(start, i as int),
            forall|j: int| start <= j < i ==> s@[j] != sep,
            views(pieces@) + split(s@.skip(start), sep) == split(s@, sep),
        decreases s@.len() - i,
    {
        if s[i] == sep {
            proof {
                let rest = s@.skip(start);
                lemma_first_sep(rest, sep, i - start);
                assert(rest.take(i - start) == piece@);
                assert(rest.skip(i - start + 1) == s@.skip(i + 1));
                assert(views(pieces@.push(piece)) == views(pieces@) + seq![piece@]);
            }
            pieces.push(piece);
            piece = Vec::new();
            proof {
                start = i + 1;
            }
        } else {
            piece.push(s[i]);
        }
        i = i + 1;
    }
    proof {
        let rest = s@.skip(start);
        lemma_first_sep(rest, sep, s@.len() - start);
        assert(rest == piece@);
        assert(views(pieces@.push(piece)) == views(pieces@) + seq![piece@]);
    }
    pieces.push(piece);
    pieces
}

/// The pieces of `parts` from `from` on, written one after another with
/// `sep` between them.
pub open spec fn joined(parts: Seq<Seq<char>>, sep: Seq<char>, from: int) -> Seq<char>
    decreases parts.len() - from,
{
    if from < 0 || from >= parts.len() {
        Seq::empty()
    } else if from == parts.len() - 1 {
        parts[from]
    } else {
        parts[from] + sep + joined(parts, sep, from + 1)
    }
}

/// Appends the characters of `tail` to `out`.
pub fn append_chars(out: &mut Vec<char>, tail: &[char])
    ensures
        final(out)@ == old(out)@ + tail@,
{
    let mut i: usize = 0;
    while i < tail.len()
        invariant
            i <= tail@.len(),
            out@ == old(out)@ + tail@.take(i as int),
        decreases tail@.len() - i,
    {
        out.push(tail[i]);
        assert(tail@.take(i + 1) == tail@.take(i as int).push(tail@[i as int]));
        i = i + 1;
    }
    assert(tail@.take(tail@.len() as int) == tail@);
}

/// Writes the pieces of `parts` from `from` on one after another, with
/// `sep` between them.
pub fn join_chars(parts: &Vec<Vec<char>>, sep: &[char], from: usize) -> (r: Vec<char>)
    ensures
        r@ == joined(views(parts@), sep@, from as int),
{
    let mut out: Vec<char> = Vec::new();
    if from >= parts.len() {
        return out;
    }
    let n: usize = parts.len();
    let mut i: usize = from;
    while i < n - 1
        invariant
            n == parts@.len(),
            from <= i <= n - 1,
            out@ + joined(views(parts@), sep@, i as int) == joined(
                views(parts@),
                sep@,
                from as int,
            ),
        decreases n - i,
    {
        let ghost before = out@;
        append_chars(&mut out, parts[i].as_slice());
        append_chars(&mut out, sep);
        assert(out@ + joined(views(parts@), sep@, i + 1) == before + (parts@[i as int]@ + sep@
            + joined(views(parts@), sep@, i + 1)));
        i = i + 1;
    }
    append_chars(&mut out, parts[i].as_slice());
    out
}

/// Decodes GBK bytes to text and takes surrounding white space off.
///
/// Malformed sequences become replacement characters. An input longer than
/// `GBK_INPUT_LIMIT` bytes, an eighth of the address space, cannot be
/// decoded into a string and is refused with `EncodingError`.
pub fn gbk_to_utf8(data: &[u8]) -> (r: Result<String, NaliError>)
    ensures
        match r {
            Ok(s) => data@.len() <= GBK_INPUT_LIMIT && s@ == trimmed(gbk_text(data@)),
            Err(e) => data@.len() > GBK_INPUT_LIMIT && e is EncodingError,
        },
{
    if data.len() > GBK_INPUT_LIMIT {
        return Err(NaliError::encoding("input too long for the GBK decoder"));
    }
    let decoded: String = gbk_decode(data);
    let chars: Vec<char> = chars_of(decoded.as_str());
    let kept: Vec<char> = trim(chars.as_slice());
    Ok(string_of(kept.as_slice()))
}

/// The views of a vector of strings.
pub open spec fn texts(v: Seq<String>) -> Seq<Seq<char>> {
    Seq::new(v.len(), |i: int| v[i]@)
}

/// Whether two strings hold the same text.
pub fn text_eq(a: &str, b: &str) -> (r: bool)
    ensures
        r == (a@ == b@),
{
    let x: Vec<char> = chars_of(a);
    let y: Vec<char> = chars_of(b);
    same_chars(x.as_slice(), y.as_slice())
}

} // verus!
