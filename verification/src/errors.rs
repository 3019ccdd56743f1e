//! The error kinds the library reports.
//!
//! Every failure is a tagged value, propagated to the caller and shown
//! as a single descriptive line; nothing panics.

use vstd::prelude::*;
use vstd::string::StringExecFns;

verus! {

/// Every way an operation can fail, ordered roughly by severity of the
/// last kinds: a failed restoration leaves the repository on the
/// substituted identity.
#[derive(Debug)]
pub enum AuthorsError {
    /// No enclosing repository was found.
    NotARepository,
    /// The active identity is incomplete: the named configuration key
    /// is absent or empty.
    MissingField { key: String },
    /// The configuration file at `path` exists but is malformed;
    /// `message` is the parser's description of what went wrong.
    ConfigParse { path: String, message: String },
    /// The file or repository configuration at `path` could not be
    /// read or written; `message` carries the underlying cause.
    ConfigIo { path: String, message: String },
    /// No identity is stored under `id` in the file at `path`.
    NotFound { id: String, path: String },
    /// The command could not be spawned at all.
    ProcessSpawn { message: String },
    /// The command ran but did not exit cleanly.  Reported, never
    /// fatal to a run-as flow.
    ProcessExit { message: String },
    /// Restoring the prior identity failed after the command: the
    /// repository is left on the substituted identity.
    RestoreFailed { message: String },
}

/// The exact descriptive line reported for an error.
pub open spec fn error_message(e: &AuthorsError) -> Seq<char> {
    match e {
        AuthorsError::NotARepository => "not a git repository"@,
        AuthorsError::MissingField { key } => "missing or empty git config value '"@ + key@ + "'"@,
        AuthorsError::ConfigParse { path, message } => "tried to parse invalid config file at '"@
            + path@ + "': '"@ + message@ + "'"@,
        AuthorsError::ConfigIo { path, message } => "config i/o error at '"@ + path@ + "': "@ + message@,
        AuthorsError::NotFound { id, path } => "config file '"@ + path@
            + "' does not contain any authors identified by '"@ + id@ + "'"@,
        AuthorsError::ProcessSpawn { message } => "unable to run cmd: "@ + message@,
        AuthorsError::ProcessExit { message } => "cmd failed: "@ + message@,
        AuthorsError::RestoreFailed { message } => "failed to restore the previous author: "@ + message@,
    }
}

impl AuthorsError {
    /// The single line a front end prints for this error.
    pub fn message(&self) -> (r: String)
        ensures
            r@ == error_message(self),
    {
        match self {
            AuthorsError::NotARepository => String::from_str("not a git repository"),
            AuthorsError::MissingField { key } => {
                let mut s = String::from_str("missing or empty git config value '");
                s.append(key.as_str());
                s.append("'");
                proof {
                    assert(s@ =~= error_message(self));
                }
                s
            },
            AuthorsError::ConfigParse { path, message } => {
                let mut s = String::from_str("tried to parse invalid config file at '");
                s.append(path.as_str());
                s.append("': '");
                s.append(message.as_str());
                s.append("'");
                proof {
                    assert(s@ =~= error_message(self));
                }
                s
            },
            AuthorsError::ConfigIo { path, message } => {
                let mut s = String::from_str("config i/o error at '");
                s.append(path.as_str());
                s.append("': ");
                s.append(message.as_str());
                proof {
                    assert(s@ =~= error_message(self));
                }
                s
            },
            AuthorsError::NotFound { id, path } => {
                let mut s = String::from_str("config file '");
                s.append(path.as_str());
                s.append("' does not contain any authors identified by '");
                s.append(id.as_str());
                s.append("'");
                proof {
                    assert(s@ =~= error_message(self));
                }
                s
            },
            AuthorsError::ProcessSpawn { message } => {
                let mut s = String::from_str("unable to run cmd: ");
                s.append(message.as_str());
                proof {
                    assert(s@ =~= error_message(self));
                }
                s
            },
            AuthorsError::ProcessExit { message } => {
                let mut s = String::from_str("cmd failed: ");
                s.append(message.as_str());
                proof {
                    assert(s@ =~= error_message(self));
                }
                s
            },
            AuthorsError::RestoreFailed { message } => {
                let mut s = String::from_str("failed to restore the previous author: ");
                s.append(message.as_str());
                proof {
                    assert(s@ =~= error_message(self));
                }
                s
            },
        }
    }
}

} // verus!
