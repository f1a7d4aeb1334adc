use nali_rs::config::{
    default_databases, default_true, home_relative, AppConfig, DatabasePath,
};

#[test]
fn test_default_config() {
    let config = AppConfig::default();
    assert_eq!(config.database.ipv4_database, "qqwry");
    assert_eq!(config.database.ipv6_database, "zxipv6wry");
    assert!(config.output.enable_colors);
}

#[test]
fn defaults_in_full() {
    let config = AppConfig::default();
    assert_eq!(config.database.cdn_database, "cdn");
    assert_eq!(config.database.language, "zh-CN");
    assert!(config.database.database_paths.is_empty());
    assert!(!config.output.json);
    assert!(!config.output.use_gbk);
    assert!(!config.global.verbose);
    assert!(config.global.config_path.is_none());
    assert!(config.global.work_dir.is_none());
    assert!(default_true());
    let dbs = default_databases();
    assert_eq!(dbs.len(), 3);
    assert_eq!(dbs[0].name, "qqwry");
    assert_eq!(dbs[0].name_alias, vec!["chunzhen"]);
    assert_eq!(dbs[0].file, "qqwry.dat");
    assert_eq!(dbs[0].download_urls.len(), 1);
    assert_eq!(dbs[1].name, "zxipv6wry");
    assert_eq!(dbs[1].format, "ipdb");
    assert_eq!(dbs[1].download_urls, vec!["https://ip.zxinc.org/ip.7z"]);
    assert_eq!(dbs[2].name, "cdn");
    assert!(dbs[2].name_alias.is_empty());
    assert_eq!(dbs[2].types, vec!["CDN"]);
    assert_eq!(dbs[2].download_urls.len(), 3);
}

fn path_text(p: DatabasePath) -> String {
    match p {
        DatabasePath::Custom(s) => format!("custom:{}", s),
        DatabasePath::DataFile(s) => format!("data:{}", s),
    }
}

#[test]
fn database_paths() {
    let mut config = AppConfig::default();
    assert_eq!(path_text(config.get_database_path("qqwry")), "data:qqwry.dat");
    assert_eq!(path_text(config.get_database_path("chunzhen")), "data:qqwry.dat");
    assert_eq!(path_text(config.get_database_path("zxipv6")), "data:zxipv6wry.db");
    assert_eq!(path_text(config.get_database_path("cdn")), "data:cdn.yml");
    assert_eq!(path_text(config.get_database_path("ipip")), "data:ipip.dat");
    config.database.database_paths.push(("qqwry".to_string(), "~/db/q.dat".to_string()));
    assert_eq!(path_text(config.get_database_path("qqwry")), "custom:~/db/q.dat");
    assert_eq!(path_text(config.get_database_path("chunzhen")), "data:qqwry.dat");
    assert_eq!(config.find_database("zxipv6"), Some(1));
    assert_eq!(config.find_database("nope"), None);
}

#[test]
fn home_relative_paths() {
    assert_eq!(home_relative("~/test").as_deref(), Some("test"));
    assert_eq!(home_relative("~/").as_deref(), Some(""));
    assert_eq!(home_relative("~"), None);
    assert_eq!(home_relative("/abs/~/x"), None);
    assert_eq!(home_relative("~user/x"), None);
}
