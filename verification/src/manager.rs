//! The registry: which databases are loaded, and what was answered before.
//!
//! A query is first looked for in the cache. Then the configured database
//! for the kind of query is chosen by its logical name. If it is not yet in
//! the registry, the caller is told to load it; the registry decides from
//! whether the file exists whether it is to be read or provisioned first.
//! Loaded once, a database stays for good. Answers are cached, also the
//! answer "not found"; failures are not.

use crate::config::{info_views, position_by_name, AppConfig};
use crate::database::{DatabaseFactory, DatabaseHandle};
use crate::error::NaliError;
use crate::text::{append_chars, chars_of, string_of, text_eq};
use crate::types::{CdnProvider, CdnRecord, DatabaseType, GeoLocation, GeoRecord, IpAddress};
use vstd::prelude::*;

verus! {

/// What a cached answer was asked for.
#[derive(Debug)]
pub enum CacheKey {
    Ip(IpAddress),
    Cdn(String),
}

/// What a cached answer was asked for, as mathematical values.
pub ghost enum KeyView {
    Ip(IpAddress),
    Cdn(Seq<char>),
}

/// A cached answer.
#[derive(Debug)]
pub enum CachedResult {
    GeoLocation(Option<GeoLocation>),
    CdnProvider(Option<CdnProvider>),
}

/// A cached answer, as mathematical values.
pub ghost enum CachedView {
    Geo(Option<GeoRecord>),
    Cdn(Option<CdnRecord>),
}

/// The view of an optional geolocation answer.
pub open spec fn geo_view(g: Option<GeoLocation>) -> Option<GeoRecord> {
    match g {
        Some(x) => Some(x@),
        None => None,
    }
}

/// The view of an optional CDN answer.
pub open spec fn cdn_view(c: Option<CdnProvider>) -> Option<CdnRecord> {
    match c {
        Some(x) => Some(x@),
        None => None,
    }
}

impl View for CacheKey {
    type V = KeyView;

    open spec fn view(&self) -> KeyView {
        match self {
            CacheKey::Ip(ip) => KeyView::Ip(*ip),
            CacheKey::Cdn(d) => KeyView::Cdn(d@),
        }
    }
}

impl View for CachedResult {
    type V = CachedView;

    open spec fn view(&self) -> CachedView {
        match self {
            CachedResult::GeoLocation(g) => CachedView::Geo(geo_view(*g)),
            CachedResult::CdnProvider(c) => CachedView::Cdn(cdn_view(*c)),
        }
    }
}

/// The cache as mathematical values: keys with their answers, each key once.
pub type CacheView = Seq<(KeyView, CachedView)>;

/// The position of `key` in the cache, from `from` on.
pub open spec fn position_of_key(cache: CacheView, key: KeyView, from: int) -> Option<int>
    decreases cache.len() - from,
{
    if from < 0 || from >= cache.len() {
        None
    } else if cache[from].0 == key {
        Some(from)
    } else {
        position_of_key(cache, key, from + 1)
    }
}

/// The cache after `value` was stored under `key`: it takes the place of
/// an answer stored under the same key, or comes last.
pub open spec fn cache_with(cache: CacheView, key: KeyView, value: CachedView) -> CacheView {
    match position_of_key(cache, key, 0) {
        Some(i) => cache.update(i, (key, value)),
        None => cache.push((key, value)),
    }
}

/// The position of `name` among the loaded databases, from `from` on.
pub open spec fn position_of_name(names: Seq<Seq<char>>, name: Seq<char>, from: int) -> Option<int>
    decreases names.len() - from,
{
    if from < 0 || from >= names.len() {
        None
    } else if names[from] == name {
        Some(from)
    } else {
        position_of_name(names, name, from + 1)
    }
}

/// The format that a logical database name stands for.
pub open spec fn type_of_name(name: Seq<char>) -> Option<DatabaseType> {
    if name == "qqwry"@ || name == "chunzhen"@ {
        Some(DatabaseType::QQwry)
    } else if name == "zxipv6wry"@ || name == "zxipv6"@ {
        Some(DatabaseType::ZXIPv6Wry)
    } else if name == "geoip"@ || name == "geoip2"@ || name == "geolite"@ {
        Some(DatabaseType::GeoIP2)
    } else if name == "ipip"@ {
        Some(DatabaseType::IPIP)
    } else if name == "ip2region"@ {
        Some(DatabaseType::IP2Region)
    } else if name == "dbip"@ {
        Some(DatabaseType::DBIP)
    } else if name == "ip2location"@ {
        Some(DatabaseType::IP2Location)
    } else if name == "cdn"@ {
        Some(DatabaseType::CDN)
    } else {
        None
    }
}

/// What is to be done before a database can be used.
#[derive(Debug)]
pub enum LoadPlan {
    /// Nothing: the database is in the registry.
    AlreadyLoaded,
    /// The file is there: read it and hand its contents to `install`.
    ReadFile,
    /// The file is missing and has sources: provision it, then read it.
    Download,
    /// The file is missing and cannot be provisioned.
    Fail(NaliError),
}

/// What the registry says to a geolocation query.
#[derive(Debug)]
pub enum IpStep {
    /// The answer, from the cache or from the database.
    Done(Result<Option<GeoLocation>, NaliError>),
    /// The database of this name and format is to be loaded first.
    Load { name: String, db_type: DatabaseType },
    /// The database of this name is read outside the library: its answer
    /// is to be handed to `record_ip`.
    Outside { name: String },
}

/// What the registry finds for a geolocation query without changing.
#[derive(Debug)]
pub enum IpLookup {
    /// The answer was in the cache.
    Cached(Option<GeoLocation>),
    /// The database was asked; its answer is not yet in the cache.
    Answered(Result<Option<GeoLocation>, NaliError>),
    /// The database of this name and format is to be loaded first.
    Load { name: String, db_type: DatabaseType },
    /// The database of this name is read outside the library.
    Outside { name: String },
}

/// What the registry finds for a CDN query without changing.
#[derive(Debug)]
pub enum CdnLookup {
    /// The answer was in the cache.
    Cached(Option<CdnProvider>),
    /// The matcher was asked; its answer is not yet in the cache.
    Answered(Result<Option<CdnProvider>, NaliError>),
    /// The matcher of this name is to be loaded first.
    Load { name: String, db_type: DatabaseType },
}

/// Whether no key occurs twice in the cache.
pub open spec fn cache_keys_once(cache: CacheView) -> bool {
    forall|i: int, j: int| 0 <= i < j < cache.len() ==> cache[i].0 != cache[j].0
}

/// Whether no name occurs twice.
pub open spec fn names_once(names: Seq<Seq<char>>) -> bool {
    forall|i: int, j: int| 0 <= i < j < names.len() ==> names[i] != names[j]
}

/// What the registry says to a CDN query.
#[derive(Debug)]
pub enum CdnStep {
    /// The answer, from the cache or from the matcher.
    Done(Result<Option<CdnProvider>, NaliError>),
    /// The matcher of this name is to be loaded first.
    Load { name: String, db_type: DatabaseType },
}

/// The names of a vector of named handles.
pub open spec fn names_of(v: Seq<(String, DatabaseHandle)>) -> Seq<Seq<char>> {
    Seq::new(v.len(), |i: int| v[i].0@)
}

/// The handles of a vector of named handles.
pub open spec fn handles_of(v: Seq<(String, DatabaseHandle)>) -> Seq<DatabaseHandle> {
    Seq::new(v.len(), |i: int| v[i].1)
}

/// The cache of a vector of keys and answers.
pub open spec fn cache_of(v: Seq<(CacheKey, CachedResult)>) -> CacheView {
    Seq::new(v.len(), |i: int| (v[i].0@, v[i].1@))
}

/// The registry of loaded databases, with the cache of answers.
pub struct DatabaseManager {
    config: AppConfig,
    databases: Vec<(String, DatabaseHandle)>,
    query_cache: Vec<(CacheKey, CachedResult)>,
}

impl DatabaseManager {
    /// The configuration snapshot.
    pub closed spec fn configuration(&self) -> AppConfig {
        self.config
    }

    /// The logical names of the loaded databases.
    pub closed spec fn names(&self) -> Seq<Seq<char>> {
        names_of(self.databases@)
    }

    /// The loaded databases, in the order of `names`.
    pub closed spec fn handles(&self) -> Seq<DatabaseHandle> {
        handles_of(self.databases@)
    }

    /// The cached answers.
    pub closed spec fn cache(&self) -> CacheView {
        cache_of(self.query_cache@)
    }

    /// The registry is well formed: no database name and no cache key is
    /// held twice. An empty registry is, and every method keeps it so.
    pub open spec fn well_formed(&self) -> bool {
        names_once(self.names()) && cache_keys_once(self.cache())
    }

    /// Whether a database is loaded under `name`.
    pub open spec fn has(&self, name: Seq<char>) -> bool {
        position_of_name(self.names(), name, 0) is Some
    }

    /// Whether two registries hold the same databases under the same
    /// configuration.
    pub open spec fn same_databases(&self, other: &Self) -> bool {
        &&& self.configuration() == other.configuration()
        &&& self.names() == other.names()
        &&& self.handles() == other.handles()
    }

    /// Whether two registries are alike in all that queries depend on.
    pub open spec fn same(&self, other: &Self) -> bool {
        self.same_databases(other) && self.cache() == other.cache()
    }

    /// The logical name of the database that answers queries for `ip`.
    pub open spec fn ip_database(&self, ip: IpAddress) -> Seq<char> {
        match ip {
            IpAddress::V4(_) => self.configuration().database.ipv4_database@,
            IpAddress::V6(_) => self.configuration().database.ipv6_database@,
        }
    }

    /// What is to be done before the database `name` can be used, given
    /// whether its file exists.
    pub open spec fn plan(&self, name: Seq<char>, file_exists: bool, p: LoadPlan) -> bool {
        if self.has(name) {
            p is AlreadyLoaded
        } else if file_exists {
            p is ReadFile
        } else {
            match position_by_name(info_views(self.configuration().database.databases@), name, 0) {
                Some(i) => if self.configuration().database.databases@[i].download_urls@.len() > 0 {
                    p is Download
                } else {
                    p matches LoadPlan::Fail(e) && e is DatabaseNotFound
                },
                None => p matches LoadPlan::Fail(e) && e is DatabaseNotFound,
            }
        }
    }

    /// An empty registry under `config`.
    pub fn new(config: AppConfig) -> (m: Self)
        ensures
            m.configuration() == config,
            m.names().len() == 0,
            m.handles().len() == 0,
            m.cache().len() == 0,
            m.well_formed(),
    {
        Self { config, databases: Vec::new(), query_cache: Vec::new() }
    }

    /// The configuration snapshot.
    pub fn config(&self) -> (c: &AppConfig)
        ensures
            *c == self.configuration(),
    {
        &self.config
    }

    /// Says which format a logical database name stands for. Fails with
    /// `DatabaseNotFound` for a name that stands for none.
    pub fn get_database_type(&self, name: &str) -> (r: Result<DatabaseType, NaliError>)
        ensures
            match r {
                Ok(t) => type_of_name(name@) == Some(t),
                Err(e) => type_of_name(name@) is None && e is DatabaseNotFound,
            },
    {
        if text_eq(name, "qqwry") || text_eq(name, "chunzhen") {
            Ok(DatabaseType::QQwry)
        } else if text_eq(name, "zxipv6wry") || text_eq(name, "zxipv6") {
            Ok(DatabaseType::ZXIPv6Wry)
        } else if text_eq(name, "geoip") || text_eq(name, "geoip2") || text_eq(name, "geolite") {
            Ok(DatabaseType::GeoIP2)
        } else if text_eq(name, "ipip") {
            Ok(DatabaseType::IPIP)
        } else if text_eq(name, "ip2region") {
            Ok(DatabaseType::IP2Region)
        } else if text_eq(name, "dbip") {
            Ok(DatabaseType::DBIP)
        } else if text_eq(name, "ip2location") {
            Ok(DatabaseType::IP2Location)
        } else if text_eq(name, "cdn") {
            Ok(DatabaseType::CDN)
        } else {
            Err(NaliError::DatabaseNotFound(message("Unknown database type: ", name, "")))
        }
    }

    /// The position of the database loaded under `name`.
    fn find_database(&self, name: &String) -> (r: Option<usize>)
        ensures
            match r {
                Some(i) => position_of_name(self.names(), name@, 0) == Some(i as int) && i
                    < self.databases@.len(),
                None => position_of_name(self.names(), name@, 0) is None,
            },
    {
        let mut i: usize = 0;
        while i < self.databases.len()
            invariant
                i <= self.databases@.len(),
                position_of_name(self.names(), name@, i as int) == position_of_name(
                    self.names(),
                    name@,
                    0,
                ),
            decreases self.databases@.len() - i,
        {
            if self.databases[i].0 == *name {
                return Some(i);
            }
            i = i + 1;
        }
        None
    }

    /// Whether a database is loaded under `name`.
    pub fn is_loaded(&self, name: &str) -> (b: bool)
        ensures
            b == self.has(name@),
    {
        let wanted: String = name.to_owned();
        self.find_database(&wanted).is_some()
    }

    /// Decides what is to be done before the database `name` can be used.
    ///
    /// A database in the registry needs nothing, whether or not its file
    /// still exists. Otherwise a file that exists is to be read. A missing
    /// file is to be provisioned where the configuration knows the database
    /// and lists sources for it; where it lists none, or does not know the
    /// database, the plan fails with `DatabaseNotFound`.
    pub fn get_or_load_database(&self, name: &str, path: &str, file_exists: bool) -> (p: LoadPlan)
        ensures
            self.plan(name@, file_exists, p),
    {
        if self.is_loaded(name) {
            return LoadPlan::AlreadyLoaded;
        }
        if file_exists {
            return LoadPlan::ReadFile;
        }
        match self.config.find_database(name) {
            Some(i) => {
                if self.config.database.databases[i].download_urls.len() > 0 {
                    LoadPlan::Download
                } else {
                    LoadPlan::Fail(
                        NaliError::DatabaseNotFound(
                            message(
                                "Database file not found and cannot be auto-downloaded: ",
                                path,
                                "\nHint: Please run the update command to download it by hand",
                            ),
                        ),
                    )
                }
            },
            None => LoadPlan::Fail(
                NaliError::DatabaseNotFound(message("Database file not found: ", path, "")),
            ),
        }
    }

    /// Puts the database `name` of format `db_type` into the registry,
    /// loaded from the contents `data` of the file at `path`.
    ///
    /// A database already in the registry stays as it is and nothing is
    /// loaded. Where loading fails, the registry stays as it was and the
    /// failure is returned.
    pub fn install(&mut self, name: &str, db_type: DatabaseType, data: Vec<u8>, path: &str) -> (r:
        Result<(), NaliError>)
        ensures
            final(self).configuration() == old(self).configuration(),
            final(self).cache() == old(self).cache(),
            old(self).well_formed() ==> final(self).well_formed(),
            old(self).has(name@) ==> r is Ok && final(self).same(old(self)),
            !old(self).has(name@) ==> (r is Ok <==> DatabaseHandle::loadable(db_type, data@)),
            r is Err ==> final(self).same(old(self)),
            r matches Err(e) ==> DatabaseHandle::load_failure(db_type, data@, e),
            !old(self).has(name@) && r is Ok ==> {
                &&& final(self).names() == old(self).names().push(name@)
                &&& final(self).handles().len() == old(self).handles().len() + 1
                &&& final(self).handles().take(old(self).handles().len() as int) == old(
                    self,
                ).handles()
                &&& final(self).handles().last().kind() == db_type
                &&& final(self).handles().last().holds_file(data@)
            },
            r is Ok ==> final(self).has(name@),
    {
        let key: String = name.to_owned();
        if self.find_database(&key).is_some() {
            return Ok(());
        }
        let mut handle: DatabaseHandle = DatabaseFactory::create(db_type);
        handle.load(data, path)?;
        self.databases.push((key, handle));
        proof {
            assert(final(self).names() == old(self).names().push(name@));
            assert(final(self).handles().take(old(self).handles().len() as int) == old(
                self,
            ).handles());
            lemma_pushed_name_found(old(self).names(), name@, 0);
            lemma_position_of_name(old(self).names(), name@, 0);
        }
        Ok(())
    }

    /// The position of `key` in the cache.
    fn find_cached(&self, key: &CacheKey) -> (r: Option<usize>)
        ensures
            match r {
                Some(i) => position_of_key(self.cache(), key@, 0) == Some(i as int) && i
                    < self.query_cache@.len(),
                None => position_of_key(self.cache(), key@, 0) is None,
            },
    {
        let mut i: usize = 0;
        while i < self.query_cache.len()
            invariant
                i <= self.query_cache@.len(),
                position_of_key(self.cache(), key@, i as int) == position_of_key(
                    self.cache(),
                    key@,
                    0,
                ),
            decreases self.query_cache@.len() - i,
        {
            if same_key(&self.query_cache[i].0, key) {
                return Some(i);
            }
            i = i + 1;
        }
        None
    }

    /// Stores `value` under `key` in the cache.
    fn put(&mut self, key: CacheKey, value: CachedResult)
        ensures
            final(self).cache() == cache_with(old(self).cache(), key@, value@),
            final(self).same_databases(old(self)),
            old(self).well_formed() ==> final(self).well_formed(),
    {
        proof {
            lemma_position_of_key(self.cache(), key@, 0);
        }
        match self.find_cached(&key) {
            Some(i) => {
                self.query_cache.set(i, (key, value));
            },
            None => {
                self.query_cache.push((key, value));
            },
        }
        assert(self.cache() == cache_with(old(self).cache(), key@, value@));
    }

    /// Whether `step` is what the registry says to a query for `ip`, and
    /// `after` the registry it leaves.
    ///
    /// A cached answer is returned as it is. Otherwise the configured
    /// database for the address family is chosen: a name that stands for no
    /// format fails with `DatabaseNotFound`; a database not yet in the
    /// registry is to be loaded; one that is read outside the library is to
    /// be asked there; any other is looked up, and its answer is cached
    /// unless it is a failure.
    pub open spec fn ip_step(&self, after: &Self, ip: IpAddress, step: IpStep) -> bool {
        let key = KeyView::Ip(ip);
        let name = self.ip_database(ip);
        match position_of_key(self.cache(), key, 0) {
            Some(k) if self.cache()[k].1 is Geo => {
                &&& after.same(self)
                &&& step matches IpStep::Done(Ok(g))
                &&& geo_view(g) == self.cache()[k].1->Geo_0
            },
            _ => {
                &&& after.same_databases(self)
                &&& match type_of_name(name) {
                    None => {
                        &&& after.cache() == self.cache()
                        &&& step matches IpStep::Done(Err(e))
                        &&& e is DatabaseNotFound
                    },
                    Some(t) => match position_of_name(self.names(), name, 0) {
                        None => {
                            &&& after.cache() == self.cache()
                            &&& step matches IpStep::Load { name: n, db_type }
                            &&& n@ == name
                            &&& db_type == t
                        },
                        Some(i) => if self.handles()[i] is GeoIP2 {
                            &&& after.cache() == self.cache()
                            &&& step matches IpStep::Outside { name: n }
                            &&& n@ == name
                        } else {
                            &&& step matches IpStep::Done(r)
                            &&& self.handles()[i].ip_answer(ip, r)
                            &&& after.cache() == match r {
                                Ok(g) => cache_with(self.cache(), key, CachedView::Geo(geo_view(g))),
                                Err(_) => self.cache(),
                            }
                        },
                    },
                }
            },
        }
    }

    /// Whether `found` is what the registry finds for a query for `ip`.
    ///
    /// A cached answer is found as it is. Otherwise the configured database
    /// for the address family is chosen: a name that stands for no format
    /// fails with `DatabaseNotFound`; a database not yet in the registry is
    /// to be loaded; one that is read outside the library is to be asked
    /// there; any other is looked up.
    pub open spec fn ip_lookup(&self, ip: IpAddress, found: IpLookup) -> bool {
        let key = KeyView::Ip(ip);
        let name = self.ip_database(ip);
        match position_of_key(self.cache(), key, 0) {
            Some(k) if self.cache()[k].1 is Geo => {
                &&& found matches IpLookup::Cached(g)
                &&& geo_view(g) == self.cache()[k].1->Geo_0
            },
            _ => match type_of_name(name) {
                None => found matches IpLookup::Answered(Err(e)) && e is DatabaseNotFound,
                Some(t) => match position_of_name(self.names(), name, 0) {
                    None => {
                        &&& found matches IpLookup::Load { name: n, db_type }
                        &&& n@ == name
                        &&& db_type == t
                    },
                    Some(i) => if self.handles()[i] is GeoIP2 {
                        found matches IpLookup::Outside { name: n } && n@ == name
                    } else {
                        found matches IpLookup::Answered(r) && self.handles()[i].ip_answer(ip, r)
                    },
                },
            },
        }
    }

    /// Looks for the answer to a geolocation query: in the cache, then in
    /// the database. The registry is only read; an answer of the database
    /// is to be handed to `record_ip`.
    pub fn lookup_ip(&self, ip: IpAddress) -> (found: IpLookup)
        ensures
            self.ip_lookup(ip, found),
    {
        let key = CacheKey::Ip(ip);
        if let Some(k) = self.find_cached(&key) {
            if let CachedResult::GeoLocation(cached) = &self.query_cache[k].1 {
                return IpLookup::Cached(copy_geo(cached));
            }
        }
        let name: String = match ip {
            IpAddress::V4(_) => self.config.database.ipv4_database.clone(),
            IpAddress::V6(_) => self.config.database.ipv6_database.clone(),
        };
        let db_type: DatabaseType = match self.get_database_type(name.as_str()) {
            Ok(t) => t,
            Err(e) => {
                return IpLookup::Answered(Err(e));
            },
        };
        let at: usize = match self.find_database(&name) {
            Some(i) => i,
            None => {
                return IpLookup::Load { name, db_type };
            },
        };
        assert(self.handles()[at as int] == self.databases@[at as int].1);
        if self.databases[at].1.served_outside() {
            return IpLookup::Outside { name };
        }
        IpLookup::Answered(self.databases[at].1.lookup_ip(ip))
    }

    /// Answers a geolocation query as far as the registry can, and caches
    /// an answer of the database.
    pub fn query_ip(&mut self, ip: IpAddress) -> (step: IpStep)
        ensures
            old(self).ip_step(final(self), ip, step),
            old(self).well_formed() ==> final(self).well_formed(),
    {
        match self.lookup_ip(ip) {
            IpLookup::Cached(found) => IpStep::Done(Ok(found)),
            IpLookup::Answered(Ok(found)) => {
                self.put(CacheKey::Ip(ip), CachedResult::GeoLocation(copy_geo(&found)));
                IpStep::Done(Ok(found))
            },
            IpLookup::Answered(Err(e)) => IpStep::Done(Err(e)),
            IpLookup::Load { name, db_type } => IpStep::Load { name, db_type },
            IpLookup::Outside { name } => IpStep::Outside { name },
        }
    }

    /// Caches the answer that a reader outside the library gave to a query
    /// for `ip`.
    pub fn record_ip(&mut self, ip: IpAddress, answer: &Option<GeoLocation>)
        ensures
            final(self).same_databases(old(self)),
            old(self).well_formed() ==> final(self).well_formed(),
            final(self).cache() == cache_with(
                old(self).cache(),
                KeyView::Ip(ip),
                CachedView::Geo(geo_view(*answer)),
            ),
    {
        self.put(CacheKey::Ip(ip), CachedResult::GeoLocation(copy_geo(answer)));
    }

    /// Caches the answer that the matcher gave to a query for `domain`.
    pub fn record_cdn(&mut self, domain: &str, answer: &Option<CdnProvider>)
        ensures
            final(self).same_databases(old(self)),
            old(self).well_formed() ==> final(self).well_formed(),
            final(self).cache() == cache_with(
                old(self).cache(),
                KeyView::Cdn(domain@),
                CachedView::Cdn(cdn_view(*answer)),
            ),
    {
        self.put(CacheKey::Cdn(domain.to_owned()), CachedResult::CdnProvider(copy_cdn(answer)));
    }

    /// Whether `step` is what the registry says to a query for `domain`,
    /// and `after` the registry it leaves.
    ///
    /// A cached answer is returned as it is. Otherwise the configured CDN
    /// database is to be loaded if it is not yet in the registry; else it
    /// is looked up, and its answer is cached unless it is a failure.
    pub open spec fn cdn_step(&self, after: &Self, domain: Seq<char>, step: CdnStep) -> bool {
        let key = KeyView::Cdn(domain);
        let name = self.configuration().database.cdn_database@;
        match position_of_key(self.cache(), key, 0) {
            Some(k) if self.cache()[k].1 is Cdn => {
                &&& after.same(self)
                &&& step matches CdnStep::Done(Ok(c))
                &&& cdn_view(c) == self.cache()[k].1->Cdn_0
            },
            _ => {
                &&& after.same_databases(self)
                &&& match position_of_name(self.names(), name, 0) {
                    None => {
                        &&& after.cache() == self.cache()
                        &&& step matches CdnStep::Load { name: n, db_type }
                        &&& n@ == name
                        &&& db_type == DatabaseType::CDN
                    },
                    Some(i) => {
                        &&& step matches CdnStep::Done(r)
                        &&& self.handles()[i].cdn_answer(domain, r)
                        &&& after.cache() == match r {
                            Ok(c) => cache_with(self.cache(), key, CachedView::Cdn(cdn_view(c))),
                            Err(_) => self.cache(),
                        }
                    },
                }
            },
        }
    }

    /// Whether `found` is what the registry finds for a query for `domain`.
    ///
    /// A cached answer is found as it is. Otherwise the configured CDN
    /// database is to be loaded if it is not yet in the registry; else it
    /// is looked up.
    pub open spec fn cdn_lookup(&self, domain: Seq<char>, found: CdnLookup) -> bool {
        let key = KeyView::Cdn(domain);
        let name = self.configuration().database.cdn_database@;
        match position_of_key(self.cache(), key, 0) {
            Some(k) if self.cache()[k].1 is Cdn => {
                &&& found matches CdnLookup::Cached(c)
                &&& cdn_view(c) == self.cache()[k].1->Cdn_0
            },
            _ => match position_of_name(self.names(), name, 0) {
                None => {
                    &&& found matches CdnLookup::Load { name: n, db_type }
                    &&& n@ == name
                    &&& db_type == DatabaseType::CDN
                },
                Some(i) => found matches CdnLookup::Answered(r) && self.handles()[i].cdn_answer(
                    domain,
                    r,
                ),
            },
        }
    }

    /// Looks for the answer to a CDN query: in the cache, then in the
    /// matcher. The registry is only read; an answer of the matcher is to
    /// be handed to `record_cdn`.
    pub fn lookup_cdn(&self, domain: &str) -> (found: CdnLookup)
        ensures
            self.cdn_lookup(domain@, found),
    {
        let key = CacheKey::Cdn(domain.to_owned());
        if let Some(k) = self.find_cached(&key) {
            if let CachedResult::CdnProvider(cached) = &self.query_cache[k].1 {
                return CdnLookup::Cached(copy_cdn(cached));
            }
        }
        let name: String = self.config.database.cdn_database.clone();
        let at: usize = match self.find_database(&name) {
            Some(i) => i,
            None => {
                return CdnLookup::Load { name, db_type: DatabaseType::CDN };
            },
        };
        assert(self.handles()[at as int] == self.databases@[at as int].1);
        CdnLookup::Answered(self.databases[at].1.lookup_cdn(domain))
    }

    /// Answers a CDN query as far as the registry can, and caches an answer
    /// of the matcher.
    pub fn query_cdn(&mut self, domain: &str) -> (step: CdnStep)
        ensures
            old(self).cdn_step(final(self), domain@, step),
            old(self).well_formed() ==> final(self).well_formed(),
    {
        match self.lookup_cdn(domain) {
            CdnLookup::Cached(found) => CdnStep::Done(Ok(found)),
            CdnLookup::Answered(Ok(found)) => {
                self.put(CacheKey::Cdn(domain.to_owned()), CachedResult::CdnProvider(copy_cdn(&found)));
                CdnStep::Done(Ok(found))
            },
            CdnLookup::Answered(Err(e)) => CdnStep::Done(Err(e)),
            CdnLookup::Load { name, db_type } => CdnStep::Load { name, db_type },
        }
    }

    /// Forgets every cached answer; the databases stay.
    pub fn clear_cache(&mut self)
        ensures
            final(self).same_databases(old(self)),
            final(self).cache().len() == 0,
            old(self).well_formed() ==> final(self).well_formed(),
    {
        self.query_cache.clear();
    }

    /// How many databases are loaded and how many answers are cached.
    pub fn cache_stats(&self) -> (n: (usize, usize))
        ensures
            n.0 == self.names().len(),
            n.1 == self.cache().len(),
    {
        (self.databases.len(), self.query_cache.len())
    }
}

/// Loading is done once: a database in the registry needs no file to be
/// read and nothing to be provisioned, whatever has become of its file.
pub proof fn lemma_loaded_database_needs_no_io(
    m: DatabaseManager,
    name: Seq<char>,
    file_exists: bool,
    p: LoadPlan,
)
    requires
        m.has(name),
        m.plan(name, file_exists, p),
    ensures
        p is AlreadyLoaded,
{
}

/// A key is found where it stands first.
proof fn lemma_position_found(cache: CacheView, key: KeyView, from: int, at: int)
    requires
        0 <= from <= at < cache.len(),
        cache[at].0 == key,
        forall|k: int| from <= k < at ==> cache[k].0 != key,
    ensures
        position_of_key(cache, key, from) == Some(at),
    decreases at - from,
{
    if from < at {
        lemma_position_found(cache, key, from + 1, at);
    }
}

/// The position found holds the key, and no earlier position does; where
/// none is found, no position holds it.
proof fn lemma_position_of_key(cache: CacheView, key: KeyView, from: int)
    requires
        0 <= from,
    ensures
        match position_of_key(cache, key, from) {
            Some(i) => from <= i < cache.len() && cache[i].0 == key && forall|k: int|
                from <= k < i ==> cache[k].0 != key,
            None => forall|k: int| from <= k < cache.len() ==> cache[k].0 != key,
        },
    decreases cache.len() - from,
{
    if from < cache.len() && cache[from].0 != key {
        lemma_position_of_key(cache, key, from + 1);
    }
}

/// What was stored under a key is what is found under it.
pub proof fn lemma_stored_answer_is_found(cache: CacheView, key: KeyView, value: CachedView)
    ensures
        position_of_key(cache_with(cache, key, value), key, 0) matches Some(i) && cache_with(
            cache,
            key,
            value,
        )[i].1 == value,
{
    lemma_position_of_key(cache, key, 0);
    let after = cache_with(cache, key, value);
    match position_of_key(cache, key, 0) {
        Some(i) => {
            lemma_position_found(after, key, 0, i);
        },
        None => {
            lemma_position_found(after, key, 0, cache.len() as int);
        },
    }
}

/// An answer is given once: when a query for `ip` has been answered, the
/// same query is answered again with the same answer, from the cache, and
/// the registry stays as it is.
pub proof fn lemma_answer_repeats(
    before: DatabaseManager,
    between: DatabaseManager,
    after: DatabaseManager,
    ip: IpAddress,
    first: IpStep,
    second: IpStep,
)
    requires
        before.ip_step(&between, ip, first),
        first matches IpStep::Done(Ok(_)),
        between.ip_step(&after, ip, second),
    ensures
        after.same(&between),
        first matches IpStep::Done(Ok(g)) && second matches IpStep::Done(Ok(h)) && geo_view(h)
            == geo_view(g),
{
    let key = KeyView::Ip(ip);
    let g = first->Done_0->Ok_0;
    lemma_stored_answer_is_found(before.cache(), key, CachedView::Geo(geo_view(g)));
}

/// A CDN answer is given once: when a query for `domain` has been answered,
/// the same query is answered again with the same answer, from the cache,
/// and the registry stays as it is.
pub proof fn lemma_cdn_answer_repeats(
    before: DatabaseManager,
    between: DatabaseManager,
    after: DatabaseManager,
    domain: Seq<char>,
    first: CdnStep,
    second: CdnStep,
)
    requires
        before.cdn_step(&between, domain, first),
        first matches CdnStep::Done(Ok(_)),
        between.cdn_step(&after, domain, second),
    ensures
        after.same(&between),
        first matches CdnStep::Done(Ok(c)) && second matches CdnStep::Done(Ok(d)) && cdn_view(d)
            == cdn_view(c),
{
    let key = KeyView::Cdn(domain);
    let c = first->Done_0->Ok_0;
    lemma_stored_answer_is_found(before.cache(), key, CachedView::Cdn(cdn_view(c)));
}

/// Where no position is found for a name, no position holds it.
proof fn lemma_position_of_name(names: Seq<Seq<char>>, name: Seq<char>, from: int)
    requires
        0 <= from,
    ensures
        position_of_name(names, name, from) is None ==> forall|k: int|
            from <= k < names.len() ==> names[k] != name,
    decreases names.len() - from,
{
    if from < names.len() && names[from] != name {
        lemma_position_of_name(names, name, from + 1);
    }
}

/// A name pushed behind names that do not hold it is found.
proof fn lemma_pushed_name_found(names: Seq<Seq<char>>, name: Seq<char>, from: int)
    requires
        0 <= from <= names.len(),
    ensures
        position_of_name(names.push(name), name, from) is Some,
    decreases names.len() - from,
{
    if from < names.len() {
        if names.push(name)[from] != name {
            lemma_pushed_name_found(names, name, from + 1);
        }
    }
}

/// Whether two cache keys are equal.
fn same_key(a: &CacheKey, b: &CacheKey) -> (r: bool)
    ensures
        r == (a@ == b@),
{
    match (a, b) {
        (CacheKey::Ip(x), CacheKey::Ip(y)) => *x == *y,
        (CacheKey::Cdn(x), CacheKey::Cdn(y)) => *x == *y,
        _ => false,
    }
}

/// A copy of an optional geolocation answer.
fn copy_geo(g: &Option<GeoLocation>) -> (r: Option<GeoLocation>)
    ensures
        geo_view(r) == geo_view(*g),
{
    match g {
        Some(x) => Some(x.duplicate()),
        None => None,
    }
}

/// A copy of an optional CDN answer.
fn copy_cdn(c: &Option<CdnProvider>) -> (r: Option<CdnProvider>)
    ensures
        cdn_view(r) == cdn_view(*c),
{
    match c {
        Some(x) => Some(x.duplicate()),
        None => None,
    }
}

/// The text `head`, `middle`, `tail`, one after another.
fn message(head: &str, middle: &str, tail: &str) -> (r: String)
    ensures
        r@ == head@ + middle@ + tail@,
{
    let mut out: Vec<char> = chars_of(head);
    let m: Vec<char> = chars_of(middle);
    let t: Vec<char> = chars_of(tail);
    append_chars(&mut out, m.as_slice());
    append_chars(&mut out, t.as_slice());
    string_of(out.as_slice())
}

} // verus!
