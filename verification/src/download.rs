//! What is to be fetched to provision a database.
//!
//! The transfers themselves are made outside the library; here the sources
//! are chosen and the rules on archives are kept.

use crate::config::{info_views, position_by_name, AppConfig, DatabaseInfo, DatabasePath};
use crate::error::NaliError;
use crate::text::{chars_of, matches_at, occurs_at, text_eq, texts};
use vstd::prelude::*;

verus! {

/// How a database is provisioned.
#[derive(Debug)]
pub enum DownloadPlan {
    /// The sources are tried in order until one of them delivers the file.
    TryEach { urls: Vec<String>, dest: DatabasePath },
    /// Every source is fetched and what they deliver is merged into one
    /// file; later sources override earlier ones.
    Merge { urls: Vec<String>, dest: DatabasePath },
}

/// Whether `url` names a 7z archive.
pub open spec fn names_archive(url: Seq<char>) -> bool {
    url.len() >= 3 && occurs_at(url, url.len() - 3, ".7z"@)
}

/// Whether `url` names a 7z archive, which is to be unpacked behind the
/// transfer.
pub fn is_archive(url: &str) -> (b: bool)
    ensures
        b == names_archive(url@),
{
    let u: Vec<char> = chars_of(url);
    let ext: Vec<char> = chars_of(".7z");
    proof {
        reveal_strlit(".7z");
    }
    if u.len() < 3 {
        return false;
    }
    matches_at(u.as_slice(), u.len() - 3, ext.as_slice())
}

/// The file that holds the database inside its archive, for the databases
/// that come in one.
pub open spec fn member_of(db_name: Seq<char>) -> Option<Seq<char>> {
    if db_name == "zxipv6wry"@ || db_name == "zxipv6"@ {
        Some("ipv6wry.db"@)
    } else {
        None
    }
}

/// Says which file of an archive holds the database `db_name`. Fails with
/// `ParseError` for a database that does not come in an archive.
pub fn archive_member(db_name: &str) -> (r: Result<String, NaliError>)
    ensures
        match r {
            Ok(f) => member_of(db_name@) == Some(f@),
            Err(e) => member_of(db_name@) is None && e is ParseError,
        },
{
    if text_eq(db_name, "zxipv6wry") || text_eq(db_name, "zxipv6") {
        Ok("ipv6wry.db".to_owned())
    } else {
        Err(NaliError::parse("Unknown 7z database type"))
    }
}

/// A copy of a vector of strings.
fn copy_strings(v: &Vec<String>) -> (r: Vec<String>)
    ensures
        texts(r@) == texts(v@),
{
    let mut out: Vec<String> = Vec::new();
    let mut i: usize = 0;
    while i < v.len()
        invariant
            i <= v@.len(),
            texts(out@) == texts(v@).take(i as int),
        decreases v@.len() - i,
    {
        out.push(v[i].clone());
        assert(texts(out@) == texts(v@).take(i as int).push(v@[i as int]@));
        i = i + 1;
    }
    assert(texts(v@).take(v@.len() as int) == texts(v@));
    out
}

/// Decides how the database `db_name` is provisioned.
///
/// Fails with `DatabaseNotFound` where the configuration knows no database
/// of that name, and with `DownloadError` where it lists no sources for
/// it. The sources of the CDN database are merged; those of any other
/// database are tried in order. The file goes where the configuration
/// places the database.
pub fn download_plan(config: &AppConfig, db_name: &str) -> (r: Result<DownloadPlan, NaliError>)
    ensures
        match position_by_name(info_views(config.database.databases@), db_name@, 0) {
            None => r matches Err(e) && e is DatabaseNotFound,
            Some(i) => {
                let info: DatabaseInfo = config.database.databases@[i];
                if info.download_urls@.len() == 0 {
                    r matches Err(e) && e is DownloadError
                } else if db_name@ == "cdn"@ {
                    &&& r matches Ok(DownloadPlan::Merge { urls, dest })
                    &&& texts(urls@) == texts(info.download_urls@)
                    &&& dest@ == config.path_of(info.name@)
                } else {
                    &&& r matches Ok(DownloadPlan::TryEach { urls, dest })
                    &&& texts(urls@) == texts(info.download_urls@)
                    &&& dest@ == config.path_of(info.name@)
                }
            },
        },
{
    let at: usize = match config.find_database(db_name) {
        Some(i) => i,
        None => {
            return Err(NaliError::DatabaseNotFound("Database not found".to_owned()));
        },
    };
    let info: &DatabaseInfo = &config.database.databases[at];
    if info.download_urls.len() == 0 {
        return Err(NaliError::DownloadError("No download URL configured".to_owned()));
    }
    let dest: DatabasePath = config.get_database_path(info.name.as_str());
    let urls: Vec<String> = copy_strings(&info.download_urls);
    if text_eq(db_name, "cdn") {
        Ok(DownloadPlan::Merge { urls, dest })
    } else {
        Ok(DownloadPlan::TryEach { urls, dest })
    }
}

/// Whether a database is left out when all databases are provisioned at
/// once: the CDN database is.
pub fn skipped_in_bulk(name: &str) -> (b: bool)
    ensures
        b == (name@ == "cdn"@),
{
    text_eq(name, "cdn")
}

/// How provisioning all databases ends: well where none failed, with
/// `DownloadError` where some did.
pub fn bulk_outcome(failed: usize) -> (r: Result<(), NaliError>)
    ensures
        match r {
            Ok(()) => failed == 0,
            Err(e) => failed > 0 && e is DownloadError,
        },
{
    if failed > 0 {
        Err(NaliError::DownloadError("some databases failed to download".to_owned()))
    } else {
        Ok(())
    }
}

} // verus!
