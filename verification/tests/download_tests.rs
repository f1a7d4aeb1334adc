use nali_rs::config::{AppConfig, DatabasePath};
use nali_rs::download::{
    archive_member, bulk_outcome, download_plan, is_archive, skipped_in_bulk, DownloadPlan,
};
use nali_rs::error::NaliError;

#[test]
fn archives_are_told_by_their_extension() {
    assert!(is_archive("https://ip.zxinc.org/ip.7z"));
    assert!(is_archive(".7z"));
    assert!(!is_archive("https://host/file.7z.txt"));
    assert!(!is_archive("7z"));
    assert!(!is_archive(""));
}

#[test]
fn archive_members() {
    assert_eq!(archive_member("zxipv6wry").unwrap(), "ipv6wry.db");
    assert_eq!(archive_member("zxipv6").unwrap(), "ipv6wry.db");
    assert!(matches!(archive_member("qqwry"), Err(NaliError::ParseError(_))));
}

#[test]
fn plans() {
    let mut config = AppConfig::default();
    match download_plan(&config, "chunzhen").unwrap() {
        DownloadPlan::TryEach { urls, dest } => {
            assert_eq!(urls.len(), 1);
            assert!(matches!(dest, DatabasePath::DataFile(f) if f == "qqwry.dat"));
        },
        other => panic!("unexpected: {:?}", other),
    }
    match download_plan(&config, "cdn").unwrap() {
        DownloadPlan::Merge { urls, dest } => {
            assert_eq!(urls.len(), 3);
            assert!(matches!(dest, DatabasePath::DataFile(f) if f == "cdn.yml"));
        },
        other => panic!("unexpected: {:?}", other),
    }
    assert!(matches!(download_plan(&config, "ipip"), Err(NaliError::DatabaseNotFound(_))));
    config.database.databases[1].download_urls.clear();
    assert!(matches!(download_plan(&config, "zxipv6"), Err(NaliError::DownloadError(_))));
}

#[test]
fn bulk_rules() {
    assert!(skipped_in_bulk("cdn"));
    assert!(!skipped_in_bulk("qqwry"));
    assert!(bulk_outcome(0).is_ok());
    assert!(matches!(bulk_outcome(2), Err(NaliError::DownloadError(_))));
}
