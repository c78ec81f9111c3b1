//! Errors an operator can act on.

use vstd::prelude::*;
use vstd::string::*;

verus! {

/// A failure the operator is expected to resolve, as opposed to a defect.
#[derive(Debug)]
pub enum ExpectedError {
    /// No config file stands at `path`.
    ConfigFileMissing { path: String },
    /// The config at `path` breaks a rule, stated in `message`.
    ConfigUnparseable { path: String, message: String },
    /// The database at `path` could not be opened.
    DatabaseOpenFailed { path: String, message: String },
}

/// The origin recorded for rules that span the whole config.
pub const CONFIG_ORIGIN: &'static str = "<config>";

/// Whether `error` rejects the config at `path` for the reason `message`.
pub open spec fn unparseable(error: ExpectedError, path: Seq<char>, message: Seq<char>) -> bool {
    error matches ExpectedError::ConfigUnparseable { path: p, message: m } && p@ == path && m@
        == message
}

/// Whether `error` rejects the config for the reason `message`.
pub open spec fn rejects(error: ExpectedError, message: Seq<char>) -> bool {
    unparseable(error, CONFIG_ORIGIN@, message)
}

impl ExpectedError {
    /// The error for a config file that is not there.
    pub fn config_file_missing(path: &str) -> (r: Self)
        ensures
            r matches ExpectedError::ConfigFileMissing { path: p } && p@ == path@,
    {
        ExpectedError::ConfigFileMissing { path: path.to_owned() }
    }

    /// The error for a config that breaks a rule.
    pub fn config_unparseable(path: &str, message: String) -> (r: Self)
        ensures
            unparseable(r, path@, message@),
    {
        ExpectedError::ConfigUnparseable { path: path.to_owned(), message }
    }

    /// The error for a database that could not be opened.
    pub fn database_open_failed(path: &str, message: String) -> (r: Self)
        ensures
            r matches ExpectedError::DatabaseOpenFailed { path: p, message: m } && p@ == path@
                && m@ == message@,
    {
        ExpectedError::DatabaseOpenFailed { path: path.to_owned(), message }
    }

    /// What the operator reads.
    pub open spec fn text_view(&self) -> Seq<char> {
        match self {
            ExpectedError::ConfigFileMissing { path } => "config file not found: "@ + path@,
            ExpectedError::ConfigUnparseable { path, message } => path@ + ": "@ + message@,
            ExpectedError::DatabaseOpenFailed { path, message } => path@
                + ": database could not be opened: "@ + message@,
        }
    }

    /// What the operator reads.
    pub fn text(&self) -> (r: String)
        ensures
            r@ == self.text_view(),
    {
        match self {
            ExpectedError::ConfigFileMissing { path } => "config file not found: ".to_owned().concat(
                path.as_str(),
            ),
            ExpectedError::ConfigUnparseable { path, message } => path.clone().concat(": ").concat(
                message.as_str(),
            ),
            ExpectedError::DatabaseOpenFailed { path, message } => path.clone().concat(
                ": database could not be opened: ",
            ).concat(message.as_str()),
        }
    }
}

/// The error for a config that breaks a rule.
pub fn fail(message: String) -> (r: ExpectedError)
    ensures
        rejects(r, message@),
{
    ExpectedError::config_unparseable(CONFIG_ORIGIN, message)
}

} // verus!
