//! The CDN matcher: which provider a domain belongs to.
//!
//! The source is a mapping from patterns to providers. A pattern with `*` or
//! `?` is a wildcard and becomes an anchored regular expression; a pattern
//! with one of `[`, `+`, `(`, `{` is a regular expression as it stands; any
//! other pattern is a domain, matched exactly in lowercase. A query tries
//! the exact domains first, with the queried domain and with its last two
//! labels, and then the regular expressions in the order they were loaded.

use crate::error::NaliError;
use crate::text::{
    chars_of, join_chars, joined, lowercase, split, split_chars, string_of, texts, to_lowercase,
};
use crate::types::{copy_text, text_of, CdnProvider, CdnRecord, DatabaseType, GeoLocation, IpAddress};
use vstd::prelude::*;

verus! {

/// A compiled regular expression of the `regex` crate.
#[verifier::external_type_specification]
#[verifier::external_body]
pub struct ExRegex(regex::Regex);

/// The pattern that a compiled regular expression was made from.
pub uninterp spec fn regex_source(r: regex::Regex) -> Seq<char>;

/// Whether a compiled regular expression was built by `Regex::new`, that
/// is, from its pattern alone, with no option set on a builder.
pub uninterp spec fn regex_built_plain(r: regex::Regex) -> bool;

/// Whether `pattern` compiles as a regular expression.
pub uninterp spec fn regex_compiles(pattern: Seq<char>) -> bool;

/// Whether the regular expression `pattern` matches somewhere in `text`.
pub uninterp spec fn regex_matches(pattern: Seq<char>, text: Seq<char>) -> bool;

/// Calls `regex::Regex::new`, which compiles a pattern with the default
/// options or refuses it as invalid or too large. Whether it compiles
/// depends on the pattern alone, and the compiled expression keeps the
/// pattern it was made from.
#[verifier::external_body]
pub(crate) fn compile(pattern: &str) -> (r: Option<regex::Regex>)
    ensures
        r is Some == regex_compiles(pattern@),
        r matches Some(re) ==> regex_source(re) == pattern@ && regex_built_plain(re),
{
    regex::Regex::new(pattern).ok()
}

/// Calls `regex::Regex::is_match`, which says whether the expression matches
/// anywhere in the text. For an expression built by `Regex::new` the answer
/// depends on the pattern and the text alone; an expression built with
/// other options is not admitted.
#[verifier::external_body]
fn is_match(re: &regex::Regex, text: &str) -> (b: bool)
    requires
        regex_built_plain(*re),
    ensures
        b == regex_matches(regex_source(*re), text@),
{
    re.is_match(text)
}

/// The fields of one pattern in the source, as mathematical values.
pub type FieldsView = Seq<(Seq<char>, Option<Seq<char>>)>;

/// The rows of the source, as mathematical values: each pattern with its
/// fields.
pub type RowsView = Seq<(Seq<char>, FieldsView)>;

/// What `serde_yaml` reads from a document as a mapping from strings to
/// mappings from strings to optional strings, ordered by key; `None` where
/// the document is no such mapping.
pub uninterp spec fn yaml_table(content: Seq<char>) -> Option<RowsView>;

/// The fields of a vector, as mathematical values.
pub open spec fn fields_view(v: Seq<(String, Option<String>)>) -> FieldsView {
    Seq::new(v.len(), |i: int| (v[i].0@, text_of(v[i].1)))
}

/// The rows of a vector, as mathematical values.
pub open spec fn rows_view(v: Seq<(String, Vec<(String, Option<String>)>)>) -> RowsView {
    Seq::new(v.len(), |i: int| (v[i].0@, fields_view(v[i].1@)))
}

/// Calls `serde_yaml::from_str` for a sorted map from strings to sorted maps
/// from strings to optional strings, and hands the maps out as vectors in
/// key order. What it reads depends on the document alone; the contract
/// gives it the name `yaml_table`. Nothing is said of the error text.
#[verifier::external_body]
fn yaml_rows(content: &str) -> (r: Result<Vec<(String, Vec<(String, Option<String>)>)>, String>)
    ensures
        match r {
            Ok(rows) => yaml_table(content@) == Some(rows_view(rows@)),
            Err(_) => yaml_table(content@) is None,
        },
{
    serde_yaml::from_str::<
        std::collections::BTreeMap<String, std::collections::BTreeMap<String, Option<String>>>,
    >(content)
        .map(|m| m.into_iter().map(|(k, v)| (k, v.into_iter().collect())).collect())
        .map_err(|e| e.to_string())
}

/// What a wildcard character or a literal character becomes in a regular
/// expression: `*` any run of characters, `?` any one character, a
/// character with a meaning in regular expressions itself behind a
/// backslash, any other character itself.
pub open spec fn translated(c: char) -> Seq<char> {
    if c == '*' {
        seq!['.', '*']
    } else if c == '?' {
        seq!['.']
    } else if c == '.' || c == '\\' || c == '+' || c == '^' || c == '$' || c == '(' || c == ')'
        || c == '[' || c == ']' || c == '{' || c == '}' || c == '|' {
        seq!['\\', c]
    } else {
        seq![c]
    }
}

/// The translations of the characters of `p`, one after another.
pub open spec fn translated_all(p: Seq<char>) -> Seq<char>
    decreases p.len(),
{
    if p.len() == 0 {
        Seq::empty()
    } else {
        translated_all(p.drop_last()) + translated(p.last())
    }
}

/// The anchored regular expression that stands for the wildcard `p`.
pub open spec fn wildcard_regex(p: Seq<char>) -> Seq<char> {
    seq!['^'] + translated_all(p) + seq!['$']
}

/// Turns a wildcard pattern into an anchored regular expression.
pub fn wildcard_to_regex(pattern: &str) -> (r: String)
    ensures
        r@ == wildcard_regex(pattern@),
{
    let p: Vec<char> = chars_of(pattern);
    let mut out: Vec<char> = Vec::new();
    out.push('^');
    let mut i: usize = 0;
    while i < p.len()
        invariant
            i <= p@.len(),
            out@ == seq!['^'] + translated_all(p@.take(i as int)),
        decreases p@.len() - i,
    {
        let c: char = p[i];
        proof {
            assert(p@.take(i + 1).drop_last() == p@.take(i as int));
            assert(p@.take(i + 1).last() == c);
        }
        if c == '*' {
            out.push('.');
            out.push('*');
        } else if c == '?' {
            out.push('.');
        } else if c == '.' || c == '\\' || c == '+' || c == '^' || c == '$' || c == '(' || c
            == ')' || c == '[' || c == ']' || c == '{' || c == '}' || c == '|' {
            out.push('\\');
            out.push(c);
        } else {
            out.push(c);
        }
        assert(out@ == seq!['^'] + (translated_all(p@.take(i as int)) + translated(c)));
        i = i + 1;
    }
    assert(p@.take(p@.len() as int) == p@);
    out.push('$');
    string_of(out.as_slice())
}

/// The exact domains that a query for `domain` tries: the domain itself
/// and, where it has two labels or more, its last two labels joined by a
/// dot, all in lowercase.
pub open spec fn base_domains(domain: Seq<char>) -> Seq<Seq<char>> {
    let parts = split(domain, '.');
    if parts.len() >= 2 {
        seq![lowercase(domain), lowercase(joined(parts, seq!['.'], parts.len() - 2))]
    } else {
        seq![lowercase(domain)]
    }
}

/// Lists the exact domains that a query for `domain` tries.
pub fn extract_base_domain(domain: &str) -> (r: Vec<String>)
    ensures
        texts(r@) == base_domains(domain@),
{
    let mut candidates: Vec<String> = Vec::new();
    candidates.push(to_lowercase(domain));
    let chars: Vec<char> = chars_of(domain);
    let parts: Vec<Vec<char>> = split_chars(chars.as_slice(), '.');
    if parts.len() >= 2 {
        let mut dot: Vec<char> = Vec::new();
        dot.push('.');
        let base: Vec<char> = join_chars(&parts, dot.as_slice(), parts.len() - 2);
        let base: String = string_of(base.as_slice());
        candidates.push(to_lowercase(base.as_str()));
    }
    candidates
}

/// A provider, as mathematical values.
pub ghost struct EntryView {
    pub name: Seq<char>,
    pub link: Option<Seq<char>>,
}

/// A provider: its display name and, optionally, a link.
#[derive(Clone, Debug)]
pub struct CdnEntry {
    pub name: String,
    pub link: Option<String>,
}

impl View for CdnEntry {
    type V = EntryView;

    open spec fn view(&self) -> EntryView {
        EntryView { name: self.name@, link: text_of(self.link) }
    }
}

impl CdnEntry {
    /// A copy with the same contents.
    pub fn duplicate(&self) -> (r: CdnEntry)
        ensures
            r@ == self@,
    {
        CdnEntry { name: self.name.clone(), link: copy_text(&self.link) }
    }
}

/// A compiled pattern with the provider it stands for. The regular
/// expression is always one that `Regex::new` built.
pub struct CdnPattern {
    regex: regex::Regex,
    entry: CdnEntry,
}

impl CdnPattern {
    /// The expression was built from its pattern alone.
    #[verifier::type_invariant]
    spec fn built_plain(self) -> bool {
        regex_built_plain(self.regex)
    }

    /// The regular expression that the pattern was compiled from.
    pub closed spec fn source(&self) -> Seq<char> {
        regex_source(self.regex)
    }

    /// The provider that the pattern stands for.
    pub closed spec fn provider(&self) -> CdnEntry {
        self.entry
    }

    /// Compiles `pattern` and joins it with its provider; `None` where the
    /// pattern does not compile.
    pub fn new(pattern: &str, entry: CdnEntry) -> (r: Option<Self>)
        ensures
            r is Some == regex_compiles(pattern@),
            r matches Some(p) ==> p.source() == pattern@ && p.provider() == entry,
    {
        match compile(pattern) {
            Some(regex) => Some(CdnPattern { regex, entry }),
            None => None,
        }
    }

    /// The provider that the pattern stands for.
    pub fn entry(&self) -> (e: &CdnEntry)
        ensures
            *e == self.provider(),
    {
        &self.entry
    }

    /// Whether the pattern matches somewhere in `text`.
    pub fn is_match(&self, text: &str) -> (b: bool)
        ensures
            b == regex_matches(self.source(), text@),
    {
        proof {
            use_type_invariant(self);
        }
        is_match(&self.regex, text)
    }
}

/// The position of the first pattern of `patterns`, from `from` on, that
/// matches `domain`.
pub open spec fn first_match(patterns: Seq<CdnPattern>, domain: Seq<char>, from: int) -> Option<
    int,
>
    decreases patterns.len() - from,
{
    if from < 0 || from >= patterns.len() {
        None
    } else if regex_matches(patterns[from].source(), domain) {
        Some(from)
    } else {
        first_match(patterns, domain, from + 1)
    }
}

/// Finds the first pattern that matches `domain` and returns its provider.
pub fn match_regex<'a>(domain: &str, regex_matches: &'a [CdnPattern]) -> (r: Option<&'a CdnEntry>)
    ensures
        match first_match(regex_matches@, domain@, 0) {
            Some(i) => r matches Some(e) && *e == regex_matches@[i].provider(),
            None => r is None,
        },
{
    let mut i: usize = 0;
    while i < regex_matches.len()
        invariant
            i <= regex_matches@.len(),
            first_match(regex_matches@, domain@, i as int) == first_match(
                regex_matches@,
                domain@,
                0,
            ),
        decreases regex_matches@.len() - i,
    {
        if regex_matches[i].is_match(domain) {
            return Some(regex_matches[i].entry());
        }
        i = i + 1;
    }
    None
}

/// How a pattern is matched.
#[derive(Clone, Copy, Debug, PartialEq, Eq, Structural)]
pub enum PatternKind {
    /// With `*` or `?`: translated to an anchored regular expression.
    Wildcard,
    /// With `[`, `+`, `(` or `{`: a regular expression as it stands.
    Regex,
    /// Anything else: a domain, matched exactly in lowercase.
    Exact,
}

/// The one kind that a pattern falls under.
pub open spec fn kind_of(pattern: Seq<char>) -> PatternKind {
    if pattern.contains('*') || pattern.contains('?') {
        PatternKind::Wildcard
    } else if pattern.contains('[') || pattern.contains('+') || pattern.contains('(')
        || pattern.contains('{') {
        PatternKind::Regex
    } else {
        PatternKind::Exact
    }
}

/// Whether `c` occurs in `s`.
fn has_char(s: &[char], c: char) -> (r: bool)
    ensures
        r == s@.contains(c),
{
    let mut i: usize = 0;
    while i < s.len()
        invariant
            i <= s@.len(),
            forall|j: int| 0 <= j < i ==> s@[j] != c,
        decreases s@.len() - i,
    {
        if s[i] == c {
            return true;
        }
        i = i + 1;
    }
    false
}

/// Says how a pattern is matched.
pub fn classify(pattern: &str) -> (k: PatternKind)
    ensures
        k == kind_of(pattern@),
{
    let p: Vec<char> = chars_of(pattern);
    if has_char(p.as_slice(), '*') || has_char(p.as_slice(), '?') {
        PatternKind::Wildcard
    } else if has_char(p.as_slice(), '[') || has_char(p.as_slice(), '+') || has_char(
        p.as_slice(),
        '(',
    ) || has_char(p.as_slice(), '{') {
        PatternKind::Regex
    } else {
        PatternKind::Exact
    }
}

/// An exact domain with its provider, as mathematical values.
pub type ExactView = (Seq<char>, EntryView);

/// The position of `key` among the exact domains, from `from` on.
pub open spec fn position_of(exact: Seq<ExactView>, key: Seq<char>, from: int) -> Option<int>
    decreases exact.len() - from,
{
    if from < 0 || from >= exact.len() {
        None
    } else if exact[from].0 == key {
        Some(from)
    } else {
        position_of(exact, key, from + 1)
    }
}

/// The provider stored under the exact domain `key`, if any.
pub open spec fn exact_entry(exact: Seq<ExactView>, key: Seq<char>) -> Option<EntryView> {
    match position_of(exact, key, 0) {
        Some(i) => Some(exact[i].1),
        None => None,
    }
}

/// The exact domains after `entry` was stored under `key`: it takes the
/// place of an entry stored under the same key, or comes last.
pub open spec fn stored(exact: Seq<ExactView>, key: Seq<char>, entry: EntryView) -> Seq<
    ExactView,
> {
    match position_of(exact, key, 0) {
        Some(i) => exact.update(i, (key, entry)),
        None => exact.push((key, entry)),
    }
}

/// A compiled pattern with its provider, as mathematical values.
pub type PatternView = (Seq<char>, EntryView);

/// What the matcher holds, as mathematical values.
pub ghost struct MatcherView {
    /// The exact domains, each once.
    pub exact: Seq<ExactView>,
    /// The regular expressions in the order they were loaded.
    pub patterns: Seq<PatternView>,
}

/// The matcher after one more pattern was loaded. A wildcard is translated
/// and compiled, a regular expression is compiled as it stands, and either
/// is dropped where it does not compile; a domain is stored in lowercase.
pub open spec fn with_pattern(m: MatcherView, pattern: Seq<char>, entry: EntryView) -> MatcherView {
    match kind_of(pattern) {
        PatternKind::Wildcard => if regex_compiles(wildcard_regex(pattern)) {
            MatcherView { exact: m.exact, patterns: m.patterns.push((wildcard_regex(pattern), entry)) }
        } else {
            m
        },
        PatternKind::Regex => if regex_compiles(pattern) {
            MatcherView { exact: m.exact, patterns: m.patterns.push((pattern, entry)) }
        } else {
            m
        },
        PatternKind::Exact => MatcherView {
            exact: stored(m.exact, lowercase(pattern), entry),
            patterns: m.patterns,
        },
    }
}

/// A pattern without wildcard characters and without characters of regular
/// expressions is stored as an exact domain, in lowercase, and never adds
/// to the compiled patterns.
pub proof fn lemma_plain_pattern_stays_exact(m: MatcherView, pattern: Seq<char>, entry: EntryView)
    requires
        !pattern.contains('*'),
        !pattern.contains('?'),
        !pattern.contains('['),
        !pattern.contains('+'),
        !pattern.contains('('),
        !pattern.contains('{'),
    ensures
        kind_of(pattern) == PatternKind::Exact,
        with_pattern(m, pattern, entry).patterns == m.patterns,
        with_pattern(m, pattern, entry).exact == stored(m.exact, lowercase(pattern), entry),
{
}

/// The matcher after the first `n` of `entries` were loaded, in order.
pub open spec fn with_patterns(m: MatcherView, entries: Seq<(Seq<char>, EntryView)>, n: int) -> MatcherView
    decreases n,
{
    if n <= 0 {
        m
    } else {
        with_pattern(with_patterns(m, entries, n - 1), entries[n - 1].0, entries[n - 1].1)
    }
}

/// The provider of the first of `candidates`, from `from` on, that is an
/// exact domain.
pub open spec fn first_exact(exact: Seq<ExactView>, candidates: Seq<Seq<char>>, from: int) -> Option<
    EntryView,
>
    decreases candidates.len() - from,
{
    if from < 0 || from >= candidates.len() {
        None
    } else {
        match exact_entry(exact, candidates[from]) {
            Some(e) => Some(e),
            None => first_exact(exact, candidates, from + 1),
        }
    }
}

/// The provider of the first pattern, from `from` on, that matches `domain`.
pub open spec fn first_pattern(patterns: Seq<PatternView>, domain: Seq<char>, from: int) -> Option<
    EntryView,
>
    decreases patterns.len() - from,
{
    if from < 0 || from >= patterns.len() {
        None
    } else if regex_matches(patterns[from].0, domain) {
        Some(patterns[from].1)
    } else {
        first_pattern(patterns, domain, from + 1)
    }
}

/// The provider that answers a query already in lowercase: the exact
/// domain equal to it; else the first of its base domains that is an exact
/// domain; else the first pattern that matches it.
pub open spec fn resolve_lowered(m: MatcherView, d: Seq<char>) -> Option<EntryView> {
    match exact_entry(m.exact, d) {
        Some(e) => Some(e),
        None => match first_exact(m.exact, base_domains(d), 0) {
            Some(e) => Some(e),
            None => first_pattern(m.patterns, d, 0),
        },
    }
}

/// The provider that answers a query for `domain`: the one that answers
/// the query in lowercase.
pub open spec fn resolve(m: MatcherView, domain: Seq<char>) -> Option<EntryView> {
    resolve_lowered(m, lowercase(domain))
}

/// The answer to a query for `domain` that `entry` resolves: the domain as
/// it was asked, the provider's name, and its link as description.
pub open spec fn provider(domain: Seq<char>, entry: EntryView) -> CdnRecord {
    CdnRecord { domain: domain, provider: entry.name, description: entry.link }
}

/// The exact domains of a vector, as mathematical values.
pub open spec fn exact_view(v: Seq<(String, CdnEntry)>) -> Seq<ExactView> {
    Seq::new(v.len(), |i: int| (v[i].0@, v[i].1@))
}

/// The patterns of a vector, as mathematical values.
pub open spec fn patterns_view(v: Seq<CdnPattern>) -> Seq<PatternView> {
    Seq::new(v.len(), |i: int| (v[i].source(), v[i].provider()@))
}

/// The CDN matcher.
pub struct CDNDatabase {
    name: String,
    loaded: bool,
    exact_matches: Vec<(String, CdnEntry)>,
    regex_matches: Vec<CdnPattern>,
}

impl View for CDNDatabase {
    type V = MatcherView;

    closed spec fn view(&self) -> MatcherView {
        MatcherView {
            exact: exact_view(self.exact_matches@),
            patterns: patterns_view(self.regex_matches@),
        }
    }
}

/// Whether no exact domain occurs twice.
pub open spec fn keys_once(exact: Seq<ExactView>) -> bool {
    forall|i: int, j: int| 0 <= i < j < exact.len() ==> exact[i].0 != exact[j].0
}

/// The position found holds the key; where none is found, no position
/// holds it.
pub proof fn lemma_position_of(exact: Seq<ExactView>, key: Seq<char>, from: int)
    requires
        0 <= from,
    ensures
        match position_of(exact, key, from) {
            Some(i) => from <= i < exact.len() && exact[i].0 == key,
            None => forall|k: int| from <= k < exact.len() ==> exact[k].0 != key,
        },
    decreases exact.len() - from,
{
    if from < exact.len() && exact[from].0 != key {
        lemma_position_of(exact, key, from + 1);
    }
}

/// Storing an entry keeps every exact domain single.
pub proof fn lemma_stored_keeps_keys_once(exact: Seq<ExactView>, key: Seq<char>, entry: EntryView)
    requires
        keys_once(exact),
    ensures
        keys_once(stored(exact, key, entry)),
{
    lemma_position_of(exact, key, 0);
}

impl CDNDatabase {
    /// The matcher is well formed: no exact domain is held twice. An empty
    /// matcher is, and loading keeps it so.
    pub open spec fn well_formed(&self) -> bool {
        keys_once(self@.exact)
    }

    /// Whether a source has been loaded.
    pub closed spec fn loaded(&self) -> bool {
        self.loaded
    }

    /// The logical name.
    pub closed spec fn name_text(&self) -> Seq<char> {
        self.name@
    }

    /// Whether the matcher holds the patterns of the source document
    /// `content`, and nothing else.
    pub open spec fn holds_source(&self, content: Seq<char>) -> bool {
        &&& self.loaded()
        &&& source_entries(content) matches Some(entries)
        &&& self@ == with_patterns(
            MatcherView { exact: Seq::empty(), patterns: Seq::empty() },
            entries,
            entries.len() as int,
        )
    }

    /// Whether the matcher holds nothing.
    pub open spec fn is_empty(&self) -> bool {
        self@ == (MatcherView { exact: Seq::empty(), patterns: Seq::empty() })
    }

    /// Whether `r` is what a lookup of `domain` returns: the provider that
    /// resolves it, `None` where none does, and `DatabaseNotLoaded` where
    /// the matcher was not loaded.
    pub open spec fn cdn_answer(&self, domain: Seq<char>, r: Result<Option<CdnProvider>, NaliError>) -> bool {
        match r {
            Ok(Some(p)) => {
                &&& self.loaded()
                &&& resolve(self@, domain) matches Some(e)
                &&& p@ == provider(domain, e)
            },
            Ok(None) => self.loaded() && resolve(self@, domain) is None,
            Err(e) => {
                &&& !self.loaded()
                &&& e matches NaliError::DatabaseNotLoaded(n)
                &&& n@ == "cdn"@
            },
        }
    }

    /// An empty matcher.
    pub fn new() -> (db: Self)
        ensures
            !db.loaded(),
            db.is_empty(),
            db.well_formed(),
            db.name_text() == "cdn"@,
    {
        let db = Self {
            name: "cdn".to_owned(),
            loaded: false,
            exact_matches: Vec::new(),
            regex_matches: Vec::new(),
        };
        assert(db@.exact == Seq::<ExactView>::empty());
        assert(db@.patterns == Seq::<PatternView>::empty());
        db
    }

    /// The logical name.
    pub fn name(&self) -> (n: &str)
        ensures
            n@ == self.name_text(),
    {
        self.name.as_str()
    }

    /// The format.
    pub fn database_type(&self) -> (t: DatabaseType)
        ensures
            t == DatabaseType::CDN,
    {
        DatabaseType::CDN
    }

    /// The matcher holds no IPv4 ranges.
    pub fn supports_ipv4(&self) -> (b: bool)
        ensures
            !b,
    {
        false
    }

    /// The matcher holds no IPv6 ranges.
    pub fn supports_ipv6(&self) -> (b: bool)
        ensures
            !b,
    {
        false
    }

    /// CDN patterns are what the matcher holds.
    pub fn supports_cdn(&self) -> (b: bool)
        ensures
            b,
    {
        true
    }

    /// Whether a source has been loaded.
    pub fn is_loaded(&self) -> (b: bool)
        ensures
            b == self.loaded(),
    {
        self.loaded
    }

    /// How many exact domains the matcher holds.
    pub fn exact_count(&self) -> (n: usize)
        ensures
            n == self@.exact.len(),
    {
        self.exact_matches.len()
    }

    /// How many compiled patterns the matcher holds.
    pub fn pattern_count(&self) -> (n: usize)
        ensures
            n == self@.patterns.len(),
    {
        self.regex_matches.len()
    }

    /// The position of the exact domain `key`.
    fn find_exact(&self, key: &String) -> (r: Option<usize>)
        ensures
            match r {
                Some(i) => position_of(self@.exact, key@, 0) == Some(i as int) && i
                    < self.exact_matches@.len(),
                None => position_of(self@.exact, key@, 0) is None,
            },
    {
        let mut i: usize = 0;
        while i < self.exact_matches.len()
            invariant
                i <= self.exact_matches@.len(),
                position_of(self@.exact, key@, i as int) == position_of(self@.exact, key@, 0),
            decreases self.exact_matches@.len() - i,
        {
            if self.exact_matches[i].0 == *key {
                return Some(i);
            }
            i = i + 1;
        }
        None
    }

    /// The provider stored under the exact domain `key`.
    fn get_exact(&self, key: &String) -> (r: Option<&CdnEntry>)
        ensures
            match r {
                Some(e) => exact_entry(self@.exact, key@) == Some(e@),
                None => exact_entry(self@.exact, key@) is None,
            },
    {
        match self.find_exact(key) {
            Some(i) => Some(&self.exact_matches[i].1),
            None => None,
        }
    }

    /// Stores `entry` under the exact domain `key`, in place of an entry
    /// stored under the same key.
    pub fn insert_exact(&mut self, key: String, entry: CdnEntry)
        ensures
            old(self).well_formed() ==> final(self).well_formed(),
            final(self)@.exact == stored(old(self)@.exact, key@, entry@),
            final(self)@.patterns == old(self)@.patterns,
            final(self).loaded() == old(self).loaded(),
            final(self).name_text() == old(self).name_text(),
    {
        proof {
            if self.well_formed() {
                lemma_stored_keeps_keys_once(self@.exact, key@, entry@);
            }
        }
        match self.find_exact(&key) {
            Some(i) => {
                self.exact_matches.set(i, (key, entry));
            },
            None => {
                self.exact_matches.push((key, entry));
            },
        }
        assert(self@.exact == stored(old(self)@.exact, key@, entry@));
    }

    /// Loads one pattern with its provider.
    pub fn add_pattern(&mut self, pattern: &str, entry: CdnEntry)
        ensures
            old(self).well_formed() ==> final(self).well_formed(),
            final(self)@ == with_pattern(old(self)@, pattern@, entry@),
            final(self).loaded() == old(self).loaded(),
            final(self).name_text() == old(self).name_text(),
    {
        match classify(pattern) {
            PatternKind::Wildcard => {
                let source: String = wildcard_to_regex(pattern);
                match CdnPattern::new(source.as_str(), entry) {
                    Some(compiled) => {
                        self.regex_matches.push(compiled);
                        assert(final(self)@.patterns == old(self)@.patterns.push(
                            (wildcard_regex(pattern@), entry@),
                        ));
                    },
                    None => {},
                }
            },
            PatternKind::Regex => {
                match CdnPattern::new(pattern, entry) {
                    Some(compiled) => {
                        self.regex_matches.push(compiled);
                        assert(final(self)@.patterns == old(self)@.patterns.push(
                            (pattern@, entry@),
                        ));
                    },
                    None => {},
                }
            },
            PatternKind::Exact => {
                self.insert_exact(to_lowercase(pattern), entry);
            },
        }
    }

    /// Loads patterns with their providers, in order.
    pub fn load_entries(&mut self, entries: Vec<(String, CdnEntry)>)
        ensures
            old(self).well_formed() ==> final(self).well_formed(),
            final(self)@ == with_patterns(
                old(self)@,
                exact_view(entries@),
                entries@.len() as int,
            ),
            final(self).loaded() == old(self).loaded(),
            final(self).name_text() == old(self).name_text(),
    {
        let mut i: usize = 0;
        while i < entries.len()
            invariant
                i <= entries@.len(),
                old(self).well_formed() ==> self.well_formed(),
                self@ == with_patterns(old(self)@, exact_view(entries@), i as int),
                self.loaded() == old(self).loaded(),
                self.name_text() == old(self).name_text(),
            decreases entries@.len() - i,
        {
            let entry: CdnEntry = entries[i].1.duplicate();
            self.add_pattern(entries[i].0.as_str(), entry);
            i = i + 1;
        }
    }

    /// Marks the matcher as loaded.
    pub fn mark_loaded(&mut self)
        ensures
            old(self).well_formed() ==> final(self).well_formed(),
            final(self)@ == old(self)@,
            final(self).loaded(),
            final(self).name_text() == old(self).name_text(),
    {
        self.loaded = true;
    }

    /// The matcher answers no IP lookup: the answer is always `None`.
    pub fn lookup_ip(&self, _ip: IpAddress) -> (r: Result<Option<GeoLocation>, NaliError>)
        ensures
            r matches Ok(None),
    {
        Ok(None)
    }

    /// Resolves a query that is already in lowercase, and answers with the
    /// domain as it was asked; `None` where no provider resolves it.
    pub fn lookup_lowered(&self, asked: &str, lowered: &String) -> (r: Option<CdnProvider>)
        ensures
            match r {
                Some(p) => resolve_lowered(self@, lowered@) matches Some(e) && p@ == provider(
                    asked@,
                    e,
                ),
                None => resolve_lowered(self@, lowered@) is None,
            },
    {
        if let Some(entry) = self.get_exact(lowered) {
            return Some(answer(asked, entry));
        }
        let candidates: Vec<String> = extract_base_domain(lowered.as_str());
        let ghost wanted = base_domains(lowered@);
        let mut i: usize = 0;
        while i < candidates.len()
            invariant
                i <= candidates@.len(),
                exact_entry(self@.exact, lowered@) is None,
                wanted == base_domains(lowered@),
                texts(candidates@) == wanted,
                first_exact(self@.exact, wanted, i as int) == first_exact(self@.exact, wanted, 0),
            decreases candidates@.len() - i,
        {
            assert(wanted[i as int] == candidates@[i as int]@);
            if let Some(entry) = self.get_exact(&candidates[i]) {
                return Some(answer(asked, entry));
            }
            i = i + 1;
        }
        proof {
            lemma_first_pattern(self.regex_matches@, lowered@, 0);
        }
        match match_regex(lowered.as_str(), self.regex_matches.as_slice()) {
            Some(entry) => Some(answer(asked, entry)),
            None => None,
        }
    }

    /// Says which provider `domain` belongs to.
    ///
    /// A matcher that was not loaded fails with `DatabaseNotLoaded`.
    /// Otherwise the query is resolved in lowercase: by the exact domains,
    /// then by the base domains of the query, then by the patterns in the
    /// order they were loaded. The answer names the domain as it was asked.
    pub fn lookup_cdn(&self, domain: &str) -> (r: Result<Option<CdnProvider>, NaliError>)
        ensures
            self.cdn_answer(domain@, r),
    {
        if !self.loaded {
            return Err(NaliError::DatabaseNotLoaded("cdn".to_owned()));
        }
        let domain_lower: String = to_lowercase(domain);
        Ok(self.lookup_lowered(domain, &domain_lower))
    }
}

/// The first matching pattern of a vector is the first matching pattern of
/// its view.
proof fn lemma_first_pattern(patterns: Seq<CdnPattern>, domain: Seq<char>, from: int)
    requires
        0 <= from <= patterns.len(),
    ensures
        first_pattern(patterns_view(patterns), domain, from) == match first_match(
            patterns,
            domain,
            from,
        ) {
            Some(i) => Some(patterns[i].provider()@),
            None => None,
        },
    decreases patterns.len() - from,
{
    if from < patterns.len() {
        lemma_first_pattern(patterns, domain, from + 1);
    }
}

/// Builds the answer to a query for `domain` that `entry` resolves.
fn answer(domain: &str, entry: &CdnEntry) -> (p: CdnProvider)
    ensures
        p@ == provider(domain@, entry@),
{
    CdnProvider {
        domain: domain.to_owned(),
        provider: entry.name.clone(),
        description: copy_text(&entry.link),
    }
}

/// The value of the field `key`, from `from` on.
pub open spec fn field(fields: FieldsView, key: Seq<char>, from: int) -> Option<Option<Seq<char>>>
    decreases fields.len() - from,
{
    if from < 0 || from >= fields.len() {
        None
    } else if fields[from].0 == key {
        Some(fields[from].1)
    } else {
        field(fields, key, from + 1)
    }
}

/// The provider that the fields of a pattern describe: a `name` is
/// required, a `link` is optional, other fields are skipped.
pub open spec fn entry_of(fields: FieldsView) -> Option<EntryView> {
    match field(fields, "name"@, 0) {
        Some(Some(name)) => Some(
            EntryView {
                name: name,
                link: match field(fields, "link"@, 0) {
                    Some(link) => link,
                    None => None,
                },
            },
        ),
        _ => None,
    }
}

/// The patterns of the first `n` rows with their providers; `None` where
/// one of the rows describes no provider.
pub open spec fn entries_of(rows: RowsView, n: int) -> Option<Seq<(Seq<char>, EntryView)>>
    decreases n,
{
    if n <= 0 {
        Some(Seq::empty())
    } else {
        match (entries_of(rows, n - 1), entry_of(rows[n - 1].1)) {
            (Some(entries), Some(entry)) => Some(entries.push((rows[n - 1].0, entry))),
            _ => None,
        }
    }
}

/// The patterns of a source document with their providers; `None` where
/// the document is no mapping of the expected shape.
pub open spec fn source_entries(content: Seq<char>) -> Option<Seq<(Seq<char>, EntryView)>> {
    match yaml_table(content) {
        Some(rows) => entries_of(rows, rows.len() as int),
        None => None,
    }
}

/// Finds the value of the field `key`.
fn get_field(fields: &Vec<(String, Option<String>)>, key: &str) -> (r: Option<Option<String>>)
    ensures
        match r {
            Some(v) => field(fields_view(fields@), key@, 0) == Some(text_of(v)),
            None => field(fields_view(fields@), key@, 0) is None,
        },
{
    let wanted: String = key.to_owned();
    let mut i: usize = 0;
    while i < fields.len()
        invariant
            i <= fields@.len(),
            wanted@ == key@,
            field(fields_view(fields@), key@, i as int) == field(fields_view(fields@), key@, 0),
        decreases fields@.len() - i,
    {
        if fields[i].0 == wanted {
            return Some(copy_text(&fields[i].1));
        }
        i = i + 1;
    }
    None
}

/// Builds the provider that the fields of a pattern describe.
pub fn entry_from_fields(fields: &Vec<(String, Option<String>)>) -> (r: Option<CdnEntry>)
    ensures
        match r {
            Some(e) => entry_of(fields_view(fields@)) == Some(e@),
            None => entry_of(fields_view(fields@)) is None,
        },
{
    match get_field(fields, "name") {
        Some(Some(name)) => {
            let link: Option<String> = match get_field(fields, "link") {
                Some(l) => l,
                None => None,
            };
            Some(CdnEntry { name, link })
        },
        _ => None,
    }
}

impl CDNDatabase {
    /// Loads the patterns of a source document.
    ///
    /// Fails with `YamlError`, and leaves the matcher as it was, where the
    /// document is no mapping from patterns to providers with a name.
    pub fn parse_yaml(&mut self, content: &str) -> (r: Result<(), NaliError>)
        ensures
            old(self).well_formed() ==> final(self).well_formed(),
            final(self).loaded() == old(self).loaded(),
            final(self).name_text() == old(self).name_text(),
            match r {
                Ok(()) => source_entries(content@) matches Some(entries) && final(self)@
                    == with_patterns(old(self)@, entries, entries.len() as int),
                Err(e) => source_entries(content@) is None && e is YamlError && *final(self)
                    == *old(self),
            },
    {
        let rows = match yaml_rows(content) {
            Ok(rows) => rows,
            Err(text) => {
                return Err(NaliError::YamlError(text));
            },
        };
        let mut entries: Vec<(String, CdnEntry)> = Vec::new();
        let mut i: usize = 0;
        while i < rows.len()
            invariant
                i <= rows@.len(),
                *self == *old(self),
                yaml_table(content@) == Some(rows_view(rows@)),
                entries_of(rows_view(rows@), i as int) == Some(exact_view(entries@)),
            decreases rows@.len() - i,
        {
            match entry_from_fields(&rows[i].1) {
                Some(entry) => {
                    entries.push((rows[i].0.clone(), entry));
                },
                None => {
                    proof {
                        lemma_entries_stay_none(rows_view(rows@), i + 1, rows@.len() as int);
                    }
                    return Err(
                        NaliError::YamlError("a pattern has no provider name".to_owned()),
                    );
                },
            }
            i = i + 1;
        }
        self.load_entries(entries);
        Ok(())
    }

    /// Loads the source document `content` read from the file at
    /// `file_path`, and marks the matcher as loaded.
    ///
    /// Fails with `YamlError`, and leaves the matcher as it was, where the
    /// document is no mapping from patterns to providers with a name.
    pub fn load_from_file(&mut self, _file_path: &str, content: &str) -> (r: Result<(), NaliError>)
        ensures
            old(self).well_formed() ==> final(self).well_formed(),
            final(self).name_text() == old(self).name_text(),
            match r {
                Ok(()) => {
                    &&& final(self).loaded()
                    &&& source_entries(content@) matches Some(entries)
                    &&& final(self)@ == with_patterns(old(self)@, entries, entries.len() as int)
                },
                Err(e) => {
                    &&& source_entries(content@) is None
                    &&& e is YamlError
                    &&& *final(self) == *old(self)
                },
            },
    {
        self.parse_yaml(content)?;
        self.mark_loaded();
        Ok(())
    }
}

/// Once a row describes no provider, no longer run of rows has entries.
proof fn lemma_entries_stay_none(rows: RowsView, n: int, m: int)
    requires
        n <= m,
        entries_of(rows, n) is None,
    ensures
        entries_of(rows, m) is None,
    decreases m - n,
{
    if n < m {
        lemma_entries_stay_none(rows, n, m - 1);
    }
}

} // verus!
