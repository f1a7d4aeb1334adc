//! The error type shared by all databases.

use crate::text::{append_chars, chars_of, string_of};
use vstd::prelude::*;

verus! {

/// What can go wrong while loading or querying a database.
#[derive(Debug)]
pub enum NaliError {
    /// A logical database, or the file behind it, is absent.
    DatabaseNotFound(String),
    /// The text is no IP address.
    InvalidIp(String),
    /// The text is no domain name.
    InvalidDomain(String),
    /// A header is too small, a magic tag is wrong, or an offset leaves the buffer.
    ParseError(String),
    /// A handle was queried before it was loaded.
    DatabaseNotLoaded(String),
    /// An index invariant is violated in a way that was detected.
    DatabaseCorrupted(String),
    /// The configuration cannot be used.
    ConfigError(String),
    /// A network request failed.
    NetworkError(String),
    /// Provisioning a database file failed.
    DownloadError(String),
    /// Reading or writing a file failed.
    IoError(String),
    /// Bytes could not be turned into text.
    EncodingError(String),
    /// A pattern is no regular expression.
    RegexError(String),
    /// A document is no YAML mapping of the expected shape.
    YamlError(String),
    /// A document is no JSON of the expected shape.
    JsonError(String),
    /// An offset lies outside a buffer of the given size.
    IndexOutOfBounds(usize, usize),
    /// Anything else.
    Other(String),
}

/// The character of a decimal digit.
pub open spec fn digit(d: nat) -> char {
    if d == 0 {
        '0'
    } else if d == 1 {
        '1'
    } else if d == 2 {
        '2'
    } else if d == 3 {
        '3'
    } else if d == 4 {
        '4'
    } else if d == 5 {
        '5'
    } else if d == 6 {
        '6'
    } else if d == 7 {
        '7'
    } else if d == 8 {
        '8'
    } else {
        '9'
    }
}

/// The decimal digits of `n`, without leading zeros.
pub open spec fn decimal(n: nat) -> Seq<char>
    decreases n,
{
    if n < 10 {
        seq![digit(n)]
    } else {
        decimal(n / 10).push(digit(n % 10))
    }
}

/// The character of the decimal digit `d`.
fn digit_char(d: usize) -> (c: char)
    requires
        d < 10,
    ensures
        c == digit(d as nat),
{
    if d == 0 {
        '0'
    } else if d == 1 {
        '1'
    } else if d == 2 {
        '2'
    } else if d == 3 {
        '3'
    } else if d == 4 {
        '4'
    } else if d == 5 {
        '5'
    } else if d == 6 {
        '6'
    } else if d == 7 {
        '7'
    } else if d == 8 {
        '8'
    } else {
        '9'
    }
}

/// Appends the decimal digits of `n`.
fn push_decimal(out: &mut Vec<char>, n: usize)
    ensures
        final(out)@ == old(out)@ + decimal(n as nat),
    decreases n,
{
    if n >= 10 {
        push_decimal(out, n / 10);
    }
    out.push(digit_char(n % 10));
    assert(out@ == old(out)@ + decimal(n as nat));
}

/// The text `head`, then `tail`.
fn headed(head: &str, tail: &str) -> (r: String)
    ensures
        r@ == head@ + tail@,
{
    let mut out: Vec<char> = chars_of(head);
    let t: Vec<char> = chars_of(tail);
    append_chars(&mut out, t.as_slice());
    string_of(out.as_slice())
}

impl NaliError {
    /// The error as a line of text: what kind of failure it is, then what
    /// it carries.
    pub open spec fn description(&self) -> Seq<char> {
        match self {
            NaliError::DatabaseNotFound(m) => "Database not found: "@ + m@,
            NaliError::InvalidIp(m) => "Invalid IP address: "@ + m@,
            NaliError::InvalidDomain(m) => "Invalid domain: "@ + m@,
            NaliError::ParseError(m) => "Database parse error: "@ + m@,
            NaliError::DatabaseNotLoaded(m) => "Database not loaded: "@ + m@,
            NaliError::DatabaseCorrupted(m) => "Database corrupted: "@ + m@,
            NaliError::ConfigError(m) => "Configuration error: "@ + m@,
            NaliError::NetworkError(m) => "Network error: "@ + m@,
            NaliError::DownloadError(m) => "Download failed: "@ + m@,
            NaliError::IoError(m) => "File I/O error: "@ + m@,
            NaliError::EncodingError(m) => "Encoding conversion error: "@ + m@,
            NaliError::RegexError(m) => "Regex error: "@ + m@,
            NaliError::YamlError(m) => "YAML parse error: "@ + m@,
            NaliError::JsonError(m) => "JSON parse error: "@ + m@,
            NaliError::IndexOutOfBounds(offset, size) => "Index out of bounds: offset="@ + decimal(
                *offset as nat,
            ) + ", size="@ + decimal(*size as nat),
            NaliError::Other(m) => "Other error: "@ + m@,
        }
    }

    /// Writes the error as a line of text.
    pub fn describe(&self) -> (r: String)
        ensures
            r@ == self.description(),
    {
        match self {
            NaliError::DatabaseNotFound(m) => headed("Database not found: ", m.as_str()),
            NaliError::InvalidIp(m) => headed("Invalid IP address: ", m.as_str()),
            NaliError::InvalidDomain(m) => headed("Invalid domain: ", m.as_str()),
            NaliError::ParseError(m) => headed("Database parse error: ", m.as_str()),
            NaliError::DatabaseNotLoaded(m) => headed("Database not loaded: ", m.as_str()),
            NaliError::DatabaseCorrupted(m) => headed("Database corrupted: ", m.as_str()),
            NaliError::ConfigError(m) => headed("Configuration error: ", m.as_str()),
            NaliError::NetworkError(m) => headed("Network error: ", m.as_str()),
            NaliError::DownloadError(m) => headed("Download failed: ", m.as_str()),
            NaliError::IoError(m) => headed("File I/O error: ", m.as_str()),
            NaliError::EncodingError(m) => headed("Encoding conversion error: ", m.as_str()),
            NaliError::RegexError(m) => headed("Regex error: ", m.as_str()),
            NaliError::YamlError(m) => headed("YAML parse error: ", m.as_str()),
            NaliError::JsonError(m) => headed("JSON parse error: ", m.as_str()),
            NaliError::IndexOutOfBounds(offset, size) => {
                let mut out: Vec<char> = chars_of("Index out of bounds: offset=");
                push_decimal(&mut out, *offset);
                let sep: Vec<char> = chars_of(", size=");
                append_chars(&mut out, sep.as_slice());
                push_decimal(&mut out, *size);
                string_of(out.as_slice())
            },
            NaliError::Other(m) => headed("Other error: ", m.as_str()),
        }
    }

    /// A `ParseError` carrying `msg`.
    pub fn parse(msg: &str) -> (e: NaliError)
        ensures
            e matches NaliError::ParseError(m) && m@ == msg@,
    {
        NaliError::ParseError(msg.to_owned())
    }

    /// A `ConfigError` carrying `msg`.
    pub fn config(msg: &str) -> (e: NaliError)
        ensures
            e matches NaliError::ConfigError(m) && m@ == msg@,
    {
        NaliError::ConfigError(msg.to_owned())
    }

    /// A `NetworkError` carrying `msg`.
    pub fn network(msg: &str) -> (e: NaliError)
        ensures
            e matches NaliError::NetworkError(m) && m@ == msg@,
    {
        NaliError::NetworkError(msg.to_owned())
    }

    /// An `EncodingError` carrying `msg`.
    pub fn encoding(msg: &str) -> (e: NaliError)
        ensures
            e matches NaliError::EncodingError(m) && m@ == msg@,
    {
        NaliError::EncodingError(msg.to_owned())
    }

    /// A `DatabaseCorrupted` carrying `msg`.
    pub fn corrupted(msg: &str) -> (e: NaliError)
        ensures
            e matches NaliError::DatabaseCorrupted(m) && m@ == msg@,
    {
        NaliError::DatabaseCorrupted(msg.to_owned())
    }
}

} // verus!
