//! The configuration snapshot that the registry reads.
//!
//! It names the database to use for each kind of query and says, for each
//! logical database name, which file holds it and from where the file can
//! be provisioned.

use crate::text::{append_chars, chars_of, matches_at, occurs_at, string_of, texts};
use vstd::prelude::*;

verus! {

/// One database, as mathematical values.
pub ghost struct DatabaseInfoView {
    pub name: Seq<char>,
    pub name_alias: Seq<Seq<char>>,
    pub format: Seq<char>,
    pub file: Seq<char>,
    pub languages: Seq<Seq<char>>,
    pub types: Seq<Seq<char>>,
    pub download_urls: Seq<Seq<char>>,
}

/// One database: its names, its file, and where the file comes from.
#[derive(Clone, Debug)]
pub struct DatabaseInfo {
    pub name: String,
    pub name_alias: Vec<String>,
    pub format: String,
    pub file: String,
    pub languages: Vec<String>,
    pub types: Vec<String>,
    /// Provisioning sources, in the order in which they are tried.
    pub download_urls: Vec<String>,
}

impl View for DatabaseInfo {
    type V = DatabaseInfoView;

    open spec fn view(&self) -> DatabaseInfoView {
        DatabaseInfoView {
            name: self.name@,
            name_alias: texts(self.name_alias@),
            format: self.format@,
            file: self.file@,
            languages: texts(self.languages@),
            types: texts(self.types@),
            download_urls: texts(self.download_urls@),
        }
    }
}

impl DatabaseInfoView {
    /// Whether the database goes by `name`: as its name or as an alias.
    pub open spec fn goes_by(self, name: Seq<char>) -> bool {
        self.name == name || self.name_alias.contains(name)
    }
}

/// Which databases to use, and where they are.
#[derive(Clone, Debug)]
pub struct DatabaseConfig {
    /// Logical name of the database for IPv4 queries.
    pub ipv4_database: String,
    /// Logical name of the database for IPv6 queries.
    pub ipv6_database: String,
    /// Logical name of the database for CDN queries.
    pub cdn_database: String,
    /// Output language.
    pub language: String,
    /// Files set by hand: logical name and path.
    pub database_paths: Vec<(String, String)>,
    /// The known databases.
    pub databases: Vec<DatabaseInfo>,
}

impl DatabaseConfig {
    /// The configuration is well formed: no logical name has two paths set
    /// by hand. Where one has, the first path counts.
    pub open spec fn well_formed(&self) -> bool {
        forall|i: int, j: int|
            0 <= i < j < self.database_paths@.len() ==> self.database_paths@[i].0@
                != self.database_paths@[j].0@
    }
}

/// How answers are written.
#[derive(Clone, Copy, Debug)]
pub struct OutputConfig {
    pub enable_colors: bool,
    pub json: bool,
    pub use_gbk: bool,
}

/// Settings of the whole program.
#[derive(Clone, Debug)]
pub struct GlobalConfig {
    pub verbose: bool,
    pub config_path: Option<String>,
    pub work_dir: Option<String>,
}

/// The configuration.
#[derive(Clone, Debug)]
pub struct AppConfig {
    pub database: DatabaseConfig,
    pub output: OutputConfig,
    pub global: GlobalConfig,
}

/// Where the file of a database is.
#[derive(Debug)]
pub enum DatabasePath {
    /// At a path set by hand; a leading `~/` stands for the home directory.
    Custom(String),
    /// In the data directory, under this file name.
    DataFile(String),
}

/// The views of the known databases.
pub open spec fn info_views(v: Seq<DatabaseInfo>) -> Seq<DatabaseInfoView> {
    Seq::new(v.len(), |i: int| v[i]@)
}

/// The position of the first database, from `from` on, that goes by `name`.
pub open spec fn position_by_name(infos: Seq<DatabaseInfoView>, name: Seq<char>, from: int) -> Option<
    int,
>
    decreases infos.len() - from,
{
    if from < 0 || from >= infos.len() {
        None
    } else if infos[from].goes_by(name) {
        Some(from)
    } else {
        position_by_name(infos, name, from + 1)
    }
}

/// The position of the first path set by hand for `name`, from `from` on.
pub open spec fn position_of_path(paths: Seq<(String, String)>, name: Seq<char>, from: int) -> Option<
    int,
>
    decreases paths.len() - from,
{
    if from < 0 || from >= paths.len() {
        None
    } else if paths[from].0@ == name {
        Some(from)
    } else {
        position_of_path(paths, name, from + 1)
    }
}

/// The default for switches that are on unless set otherwise.
pub fn default_true() -> (b: bool)
    ensures
        b,
{
    true
}

/// A vector of one string.
fn one(a: &str) -> (v: Vec<String>)
    ensures
        texts(v@) == seq![a@],
{
    let mut v: Vec<String> = Vec::new();
    v.push(a.to_owned());
    v
}

/// The views of the databases known by default: the classic IPv4 database,
/// its IPv6 sibling, which comes in an archive, and the CDN patterns, which
/// have three sources.
pub open spec fn default_database_views() -> Seq<DatabaseInfoView> {
    seq![
        DatabaseInfoView {
            name: "qqwry"@,
            name_alias: seq!["chunzhen"@],
            format: "qqwry"@,
            file: "qqwry.dat"@,
            languages: seq!["zh-CN"@],
            types: seq!["IPv4"@],
            download_urls: seq![
                "https://github.com/metowolf/qqwry.dat/releases/latest/download/qqwry.dat"@,
            ],
        },
        DatabaseInfoView {
            name: "zxipv6wry"@,
            name_alias: seq!["zxipv6"@],
            format: "ipdb"@,
            file: "zxipv6wry.db"@,
            languages: seq!["zh-CN"@],
            types: seq!["IPv6"@],
            download_urls: seq!["https://ip.zxinc.org/ip.7z"@],
        },
        DatabaseInfoView {
            name: "cdn"@,
            name_alias: Seq::empty(),
            format: "yaml"@,
            file: "cdn.yml"@,
            languages: seq!["zh-CN"@],
            types: seq!["CDN"@],
            download_urls: seq![
                "https://cdn.jsdelivr.net/gh/4ft35t/cdn/src/cdn.yml"@,
                "https://raw.githubusercontent.com/4ft35t/cdn/master/src/cdn.yml"@,
                "https://raw.githubusercontent.com/SukkaLab/cdn/master/src/cdn.yml"@,
            ],
        },
    ]
}

/// The databases known by default.
pub fn default_databases() -> (v: Vec<DatabaseInfo>)
    ensures
        info_views(v@) == default_database_views(),
{
    let mut v: Vec<DatabaseInfo> = Vec::new();
    v.push(
        DatabaseInfo {
            name: "qqwry".to_owned(),
            name_alias: one("chunzhen"),
            format: "qqwry".to_owned(),
            file: "qqwry.dat".to_owned(),
            languages: one("zh-CN"),
            types: one("IPv4"),
            download_urls: one(
                "https://github.com/metowolf/qqwry.dat/releases/latest/download/qqwry.dat",
            ),
        },
    );
    v.push(
        DatabaseInfo {
            name: "zxipv6wry".to_owned(),
            name_alias: one("zxipv6"),
            format: "ipdb".to_owned(),
            file: "zxipv6wry.db".to_owned(),
            languages: one("zh-CN"),
            types: one("IPv6"),
            download_urls: one("https://ip.zxinc.org/ip.7z"),
        },
    );
    let mut cdn_urls: Vec<String> = Vec::new();
    cdn_urls.push("https://cdn.jsdelivr.net/gh/4ft35t/cdn/src/cdn.yml".to_owned());
    cdn_urls.push("https://raw.githubusercontent.com/4ft35t/cdn/master/src/cdn.yml".to_owned());
    cdn_urls.push("https://raw.githubusercontent.com/SukkaLab/cdn/master/src/cdn.yml".to_owned());
    assert(texts(cdn_urls@) == seq![
        "https://cdn.jsdelivr.net/gh/4ft35t/cdn/src/cdn.yml"@,
        "https://raw.githubusercontent.com/4ft35t/cdn/master/src/cdn.yml"@,
        "https://raw.githubusercontent.com/SukkaLab/cdn/master/src/cdn.yml"@,
    ]);
    let no_alias: Vec<String> = Vec::new();
    assert(texts(no_alias@) == Seq::<Seq<char>>::empty());
    v.push(
        DatabaseInfo {
            name: "cdn".to_owned(),
            name_alias: no_alias,
            format: "yaml".to_owned(),
            file: "cdn.yml".to_owned(),
            languages: one("zh-CN"),
            types: one("CDN"),
            download_urls: cdn_urls,
        },
    );
    assert(info_views(v@) == default_database_views());
    v
}

impl Default for OutputConfig {
    /// Colours on, plain text, UTF-8 input.
    fn default() -> (c: Self)
        ensures
            c.enable_colors,
            !c.json,
            !c.use_gbk,
    {
        Self { enable_colors: default_true(), json: false, use_gbk: false }
    }
}

impl Default for GlobalConfig {
    /// Quiet, with no paths set.
    fn default() -> (c: Self)
        ensures
            !c.verbose,
            c.config_path is None,
            c.work_dir is None,
    {
        Self { verbose: false, config_path: None, work_dir: None }
    }
}

impl Default for DatabaseConfig {
    /// The classic databases, Chinese output, no paths set by hand, and the
    /// databases known by default.
    fn default() -> (c: Self)
        ensures
            c.ipv4_database@ == "qqwry"@,
            c.ipv6_database@ == "zxipv6wry"@,
            c.cdn_database@ == "cdn"@,
            c.language@ == "zh-CN"@,
            c.database_paths@.len() == 0,
            c.well_formed(),
            info_views(c.databases@) == default_database_views(),
    {
        Self {
            ipv4_database: "qqwry".to_owned(),
            ipv6_database: "zxipv6wry".to_owned(),
            cdn_database: "cdn".to_owned(),
            language: "zh-CN".to_owned(),
            database_paths: Vec::new(),
            databases: default_databases(),
        }
    }
}

impl Default for AppConfig {
    /// The defaults of each part.
    fn default() -> (c: Self)
        ensures
            c.database.ipv4_database@ == "qqwry"@,
            c.database.ipv6_database@ == "zxipv6wry"@,
            c.database.cdn_database@ == "cdn"@,
            c.database.language@ == "zh-CN"@,
            c.database.database_paths@.len() == 0,
            info_views(c.database.databases@) == default_database_views(),
            c.output.enable_colors,
            !c.output.json,
            !c.output.use_gbk,
            !c.global.verbose,
            c.global.config_path is None,
            c.global.work_dir is None,
    {
        Self {
            database: DatabaseConfig::default(),
            output: OutputConfig::default(),
            global: GlobalConfig::default(),
        }
    }
}

/// Whether `name` is among `names`.
pub fn has_name(names: &Vec<String>, name: &String) -> (r: bool)
    ensures
        r == texts(names@).contains(name@),
{
    let mut i: usize = 0;
    while i < names.len()
        invariant
            i <= names@.len(),
            forall|j: int| 0 <= j < i ==> texts(names@)[j] != name@,
        decreases names@.len() - i,
    {
        if names[i] == *name {
            assert(texts(names@)[i as int] == name@);
            return true;
        }
        i = i + 1;
    }
    false
}

/// The rest of a path that starts with `~/`: what is to be looked for
/// under the home directory.
pub open spec fn home_rest(path: Seq<char>) -> Option<Seq<char>> {
    if occurs_at(path, 0, seq!['~', '/']) {
        Some(path.skip(2))
    } else {
        None
    }
}

/// Splits a leading `~/` off a path.
pub fn home_relative(path: &str) -> (r: Option<String>)
    ensures
        text_of_option(r) == home_rest(path@),
{
    let p: Vec<char> = chars_of(path);
    let mut tilde: Vec<char> = Vec::new();
    tilde.push('~');
    tilde.push('/');
    assert(tilde@ == seq!['~', '/']);
    if matches_at(p.as_slice(), 0, tilde.as_slice()) {
        let mut rest: Vec<char> = Vec::new();
        let mut i: usize = 2;
        while i < p.len()
            invariant
                2 <= i <= p@.len(),
                rest@ == p@.subrange(2, i as int),
            decreases p@.len() - i,
        {
            rest.push(p[i]);
            i = i + 1;
        }
        assert(p@.subrange(2, p@.len() as int) == p@.skip(2));
        Some(string_of(rest.as_slice()))
    } else {
        None
    }
}

/// The view of an optional string.
pub open spec fn text_of_option(s: Option<String>) -> Option<Seq<char>> {
    crate::types::text_of(s)
}

/// Where the file of a database is, as mathematical values.
pub ghost enum PathView {
    Custom(Seq<char>),
    DataFile(Seq<char>),
}

impl View for DatabasePath {
    type V = PathView;

    open spec fn view(&self) -> PathView {
        match self {
            DatabasePath::Custom(p) => PathView::Custom(p@),
            DatabasePath::DataFile(f) => PathView::DataFile(f@),
        }
    }
}

impl AppConfig {
    /// Where the file of the database `name` is: at the path set by hand
    /// for it, else in the data directory under the file name of the known
    /// database that goes by `name`, else in the data directory under
    /// `name` with the extension `.dat`.
    pub open spec fn path_of(&self, name: Seq<char>) -> PathView {
        match position_of_path(self.database.database_paths@, name, 0) {
            Some(i) => PathView::Custom(self.database.database_paths@[i].1@),
            None => match position_by_name(info_views(self.database.databases@), name, 0) {
                Some(i) => PathView::DataFile(self.database.databases@[i].file@),
                None => PathView::DataFile(name + ".dat"@),
            },
        }
    }

    /// Finds the known database that goes by `name`.
    pub fn find_database(&self, name: &str) -> (r: Option<usize>)
        ensures
            match r {
                Some(i) => position_by_name(info_views(self.database.databases@), name@, 0)
                    == Some(i as int) && i < self.database.databases@.len(),
                None => position_by_name(info_views(self.database.databases@), name@, 0) is None,
            },
    {
        let wanted: String = name.to_owned();
        let mut i: usize = 0;
        while i < self.database.databases.len()
            invariant
                i <= self.database.databases@.len(),
                wanted@ == name@,
                position_by_name(info_views(self.database.databases@), name@, i as int)
                    == position_by_name(info_views(self.database.databases@), name@, 0),
            decreases self.database.databases@.len() - i,
        {
            let db: &DatabaseInfo = &self.database.databases[i];
            assert(info_views(self.database.databases@)[i as int] == db@);
            if db.name == wanted || has_name(&db.name_alias, &wanted) {
                return Some(i);
            }
            i = i + 1;
        }
        None
    }

    /// Says where the file of the database `name` is.
    pub fn get_database_path(&self, name: &str) -> (r: DatabasePath)
        ensures
            r@ == self.path_of(name@),
    {
        let wanted: String = name.to_owned();
        let mut i: usize = 0;
        while i < self.database.database_paths.len()
            invariant
                i <= self.database.database_paths@.len(),
                wanted@ == name@,
                position_of_path(self.database.database_paths@, name@, i as int)
                    == position_of_path(self.database.database_paths@, name@, 0),
            decreases self.database.database_paths@.len() - i,
        {
            if self.database.database_paths[i].0 == wanted {
                return DatabasePath::Custom(self.database.database_paths[i].1.clone());
            }
            i = i + 1;
        }
        match self.find_database(name) {
            Some(k) => DatabasePath::DataFile(self.database.databases[k].file.clone()),
            None => {
                let mut file: Vec<char> = chars_of(name);
                let ext: Vec<char> = chars_of(".dat");
                append_chars(&mut file, ext.as_slice());
                DatabasePath::DataFile(string_of(file.as_slice()))
            },
        }
    }
}

} // verus!
