//! The server's configuration: what the command line and the YAML file give.
use vstd::prelude::*;

use vstd::string::StrSliceExecFns;

verus! {

/// How much the server logs.
#[derive(Debug, Clone, Copy, PartialEq, Eq, Structural)]
pub enum LogLevel {
    Error,
    Warn,
    Info,
    Debug,
    Trace,
}

/// The command line: the configuration file, and how much to log.
#[derive(Debug)]
pub struct CliConfig {
    pub config: String,
    pub level: LogLevel,
}

/// Why the configuration cannot be used.
#[derive(Debug)]
pub enum ConfigError {
    /// The root directory is a file (its path).
    RootFolderIsAFile(String),
    /// The root directory is not an absolute path (its path).
    RootPathNotAbsolute(String),
}

/// The configuration file: where to listen, the certificate and key, the
/// directory served, the file served for a directory, and where to log.
#[derive(Debug)]
pub struct Config {
    pub ip: String,
    pub port: u16,
    pub cert_path: String,
    pub key_path: String,
    pub root_dir: String,
    pub default_file: Option<String>,
    pub log_file: Option<String>,
}

/// Whether a path is absolute by the Unix rule: it begins with `/`.
pub open spec fn is_absolute_path(path: Seq<char>) -> bool {
    path.len() > 0 && path[0] == '/'
}

/// Whether a path is relative, as `std::path::Path::is_relative` says on
/// Unix, the platform the server runs on: it does not begin with the root `/`.
fn path_is_relative(path: &str) -> (r: bool)
    ensures
        r == !is_absolute_path(path@),
{
    if path.unicode_len() == 0 {
        return true;
    }
    path.get_char(0) != '/'
}

/// The file served for a directory when the configuration names none.
pub open spec fn default_file_of(c: Config) -> Seq<char> {
    match c.default_file {
        Some(f) => f@,
        None => "index.html"@,
    }
}

impl Config {
    /// The file served for a directory: the one configured, or `index.html`.
    pub fn get_default_file(&self) -> (r: &str)
        ensures
            r@ == default_file_of(*self),
    {
        match &self.default_file {
            Some(f) => f.as_str(),
            None => "index.html",
        }
    }

    /// The checks on a configuration once read: `RootFolderIsAFile` when the
    /// root directory is a file (`root_is_file`, as the file system says),
    /// else `RootPathNotAbsolute` when it is not an absolute path, else the
    /// configuration itself.
    pub fn check(self, root_is_file: bool) -> (r: Result<Config, ConfigError>)
        ensures
            root_is_file ==> (r matches Err(ConfigError::RootFolderIsAFile(p)) && p@ == self.root_dir@),
            !root_is_file && !is_absolute_path(self.root_dir@) ==> (r matches Err(
                ConfigError::RootPathNotAbsolute(p),
            ) && p@ == self.root_dir@),
            !root_is_file && is_absolute_path(self.root_dir@) ==> r == Ok::<Config, ConfigError>(self),
    {
        if root_is_file {
            return Err(ConfigError::RootFolderIsAFile(self.root_dir));
        }
        if path_is_relative(self.root_dir.as_str()) {
            return Err(ConfigError::RootPathNotAbsolute(self.root_dir));
        }
        Ok(self)
    }
}

} // verus!
