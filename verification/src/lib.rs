//! Offline IP geolocation and CDN provider lookup.
//!
//! The crate decodes three binary database formats (a classic IPv4 database
//! with pointer-chased records, its IPv6 sibling, and a fixed-record IPv4
//! database with translation tables), matches domains against CDN provider
//! patterns, and keeps a registry of loaded databases with a query cache.
//! Every function carries a contract over a mathematical model of the bytes
//! it reads.

pub mod bytes;
pub mod cdn;
pub mod config;
pub mod database;
pub mod dbip;
pub mod download;
pub mod entity;
pub mod error;
pub mod finder;
pub mod formatter;
pub mod geoip2;
pub mod index;
pub mod ip2location;
pub mod ip2region;
pub mod ipip;
pub mod manager;
pub mod parser;
pub mod qqwry;
pub mod reader;
pub mod text;
pub mod types;
pub mod zxipv6;

pub use cdn::{CDNDatabase, CdnEntry};
pub use config::AppConfig;
pub use database::{DatabaseFactory, DatabaseHandle};
pub use dbip::DBIPDatabase;
pub use error::NaliError;
pub use geoip2::GeoIP2Database;
pub use ip2location::IP2LocationDatabase;
pub use ip2region::IP2RegionDatabase;
pub use ipip::IPIPDatabase;
pub use manager::DatabaseManager;
pub use qqwry::QQwryDatabase;
pub use types::{CdnProvider, DatabaseType, GeoLocation, IpAddress};
pub use zxipv6::ZXIPv6Database;
