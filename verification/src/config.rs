//! Server configuration: defaults, values read from a configuration file,
//! and where host and port come from.

use vstd::prelude::*;
use crate::text::{parse_unsigned, parse_unsigned_spec};

verus! {

/// Top-level configuration, mirrors `collapse.toml`.
#[derive(Debug)]
pub struct AppConfig {
    pub server: ServerConfig,
    pub storage: StorageConfig,
    pub upload: UploadConfig,
    pub static_files: StaticConfig,
}

/// Where the server listens.
#[derive(Debug)]
pub struct ServerConfig {
    pub host: String,
    pub port: u16,
}

/// Where uploads and archives are kept.
#[derive(Debug)]
pub struct StorageConfig {
    pub input_dir: String,
    pub output_dir: String,
}

/// Limits on uploads.
#[derive(Debug)]
pub struct UploadConfig {
    pub max_size_mb: usize,
}

/// Where the frontend's files are served from.
#[derive(Debug)]
pub struct StaticConfig {
    pub dir: String,
}

/// Default host: all interfaces.
pub open spec fn default_host() -> Seq<char> {
    "0.0.0.0"@
}

/// Default port.
pub open spec fn default_port() -> u16 {
    8000
}

/// Default directory of uploads.
pub open spec fn default_input_dir() -> Seq<char> {
    "storage/input"@
}

/// Default directory of archives.
pub open spec fn default_output_dir() -> Seq<char> {
    "storage/output"@
}

/// Default upload limit in MiB.
pub open spec fn default_max_size_mb() -> usize {
    500
}

/// Default directory of static files.
pub open spec fn default_static_dir() -> Seq<char> {
    "static"@
}

impl Default for ServerConfig {
    fn default() -> (r: Self)
        ensures
            r.host@ == default_host(),
            r.port == default_port(),
    {
        ServerConfig { host: "0.0.0.0".to_owned(), port: 8000 }
    }
}

impl Default for StorageConfig {
    fn default() -> (r: Self)
        ensures
            r.input_dir@ == default_input_dir(),
            r.output_dir@ == default_output_dir(),
    {
        StorageConfig { input_dir: "storage/input".to_owned(), output_dir: "storage/output".to_owned() }
    }
}

impl Default for UploadConfig {
    fn default() -> (r: Self)
        ensures
            r.max_size_mb == default_max_size_mb(),
    {
        UploadConfig { max_size_mb: 500 }
    }
}

impl Default for StaticConfig {
    fn default() -> (r: Self)
        ensures
            r.dir@ == default_static_dir(),
    {
        StaticConfig { dir: "static".to_owned() }
    }
}

/// Whether `c` holds every default.
pub open spec fn is_default_config(c: AppConfig) -> bool {
    &&& c.server.host@ == default_host()
    &&& c.server.port == default_port()
    &&& c.storage.input_dir@ == default_input_dir()
    &&& c.storage.output_dir@ == default_output_dir()
    &&& c.upload.max_size_mb == default_max_size_mb()
    &&& c.static_files.dir@ == default_static_dir()
}

impl Default for AppConfig {
    fn default() -> (r: Self)
        ensures
            is_default_config(r),
    {
        AppConfig {
            server: ServerConfig::default(),
            storage: StorageConfig::default(),
            upload: UploadConfig::default(),
            static_files: StaticConfig::default(),
        }
    }
}

/// The values a configuration file sets; every field it leaves out is
/// `None` and takes its default.
#[derive(Debug)]
pub struct ConfigValues {
    pub host: Option<String>,
    pub port: Option<u16>,
    pub input_dir: Option<String>,
    pub output_dir: Option<String>,
    pub max_size_mb: Option<usize>,
    pub static_dir: Option<String>,
}

/// The characters of `v`, or `d` when it is absent.
pub open spec fn text_or(v: Option<String>, d: Seq<char>) -> Seq<char> {
    match v {
        Some(s) => s@,
        None => d,
    }
}

/// `v`, or `d` when it is absent.
pub open spec fn value_or<T>(v: Option<T>, d: T) -> T {
    match v {
        Some(x) => x,
        None => d,
    }
}

fn string_or(v: Option<String>, d: &str) -> (r: String)
    ensures
        r@ == text_or(v, d@),
{
    match v {
        Some(s) => s,
        None => d.to_owned(),
    }
}

/// `c` holds each value that `values` sets and the default for each one it
/// leaves out.
pub open spec fn described_by(c: AppConfig, values: ConfigValues) -> bool {
    &&& c.server.host@ == text_or(values.host, default_host())
    &&& c.server.port == value_or(values.port, default_port())
    &&& c.storage.input_dir@ == text_or(values.input_dir, default_input_dir())
    &&& c.storage.output_dir@ == text_or(values.output_dir, default_output_dir())
    &&& c.upload.max_size_mb == value_or(values.max_size_mb, default_max_size_mb())
    &&& c.static_files.dir@ == text_or(values.static_dir, default_static_dir())
}

impl AppConfig {
    /// The configuration a file describes: each value it sets, and the
    /// default for each one it leaves out.
    pub fn from_values(values: ConfigValues) -> (r: Self)
        ensures
            described_by(r, values),
    {
        proof {
            reveal_strlit("0.0.0.0");
            reveal_strlit("storage/input");
            reveal_strlit("storage/output");
            reveal_strlit("static");
        }
        AppConfig {
            server: ServerConfig {
                host: string_or(values.host, "0.0.0.0"),
                port: match values.port {
                    Some(p) => p,
                    None => 8000,
                },
            },
            storage: StorageConfig {
                input_dir: string_or(values.input_dir, "storage/input"),
                output_dir: string_or(values.output_dir, "storage/output"),
            },
            upload: UploadConfig {
                max_size_mb: match values.max_size_mb {
                    Some(m) => m,
                    None => 500,
                },
            },
            static_files: StaticConfig { dir: string_or(values.static_dir, "static") },
        }
    }

    /// Max upload size in bytes.
    pub fn max_upload_bytes(&self) -> (r: usize)
        requires
            self.upload.max_size_mb * 1048576 <= usize::MAX,
        ensures
            r == self.upload.max_size_mb * 1048576,
    {
        self.upload.max_size_mb * 1024 * 1024
    }
}

/// The host to bind: the command line's, else a non-empty `COLLAPSE_HOST`,
/// else the configured one.
pub open spec fn resolve_host_spec(cli: Option<String>, env: Option<String>, configured: Seq<char>) -> Seq<char> {
    match cli {
        Some(h) => h@,
        None => match env {
            Some(e) => if e@.len() > 0 { e@ } else { configured },
            None => configured,
        },
    }
}

/// The port to bind: the command line's, else `COLLAPSE_PORT` when it is a
/// non-empty valid port number, else the configured one.
pub open spec fn resolve_port_spec(cli: Option<u16>, env: Option<String>, configured: u16) -> u16 {
    match cli {
        Some(p) => p,
        None => match env {
            Some(e) => if e@.len() > 0 && parse_unsigned_spec(e@, u16::MAX as nat) is Some {
                parse_unsigned_spec(e@, u16::MAX as nat)->0 as u16
            } else {
                configured
            },
            None => configured,
        },
    }
}

/// Chooses the host: command line over environment over configuration.
pub fn resolve_host(cli: Option<String>, env: Option<String>, configured: String) -> (r: String)
    ensures
        r@ == resolve_host_spec(cli, env, configured@),
{
    match cli {
        Some(h) => h,
        None => match env {
            Some(e) => if e.as_str().unicode_len() > 0 { e } else { configured },
            None => configured,
        },
    }
}

/// Chooses the port: command line over environment over configuration.
pub fn resolve_port(cli: Option<u16>, env: Option<String>, configured: u16) -> (r: u16)
    ensures
        r == resolve_port_spec(cli, env, configured),
{
    match cli {
        Some(p) => p,
        None => match env {
            Some(e) => {
                if e.as_str().unicode_len() > 0 {
                    match parse_unsigned(e.as_str(), 65535) {
                        Some(p) => p as u16,
                        None => configured,
                    }
                } else {
                    configured
                }
            },
            None => configured,
        },
    }
}

/// A file that sets nothing gives the default configuration.
pub proof fn lemma_empty_file_gives_defaults(values: ConfigValues, c: AppConfig)
    requires
        values.host is None,
        values.port is None,
        values.input_dir is None,
        values.output_dir is None,
        values.max_size_mb is None,
        values.static_dir is None,
        described_by(c, values),
    ensures
        is_default_config(c),
{
}

} // verus!
