//! The decisions behind each subcommand: what each one does with the
//! resolved configuration, the store, and the repository identity.
//! Reading the filesystem, printing, and spawning the child process
//! stay with the front end; everything here is a function from plain
//! values to plain values.

use vstd::prelude::*;
use vstd::string::StringExecFns;
use crate::author::Author;
use crate::config::{AuthorsConfig, Resolution};
use crate::codec::ser;
use crate::errors::AuthorsError;
use crate::git_config::{GitConfig, set_author, name_key, email_key};
use crate::switcher::RunAsSession;

verus! {

/// What the `get` subcommand shows.
pub enum GetReport {
    /// No configuration file anywhere up the chain: only the current
    /// author is shown, with an explicit indication — not an error.
    NoConfigFile { current: Author },
    /// The discovered store, shown after the current author.
    WithStore { current: Author, config: AuthorsConfig, path: String },
}

/// The `get` subcommand: the current author, and the stored authors
/// where a configuration file was found.  A missing file is not an
/// error; a malformed one is.
pub fn get(author: Author, res: Resolution) -> (r: Result<GetReport, AuthorsError>)
    ensures
        match res {
            Resolution::NoFile { .. } => (r matches Ok(GetReport::NoConfigFile { current })
                && current@ == author@),
            Resolution::Found { config, path, .. } => (r matches Ok(
                GetReport::WithStore { current, config: c, path: p },
            ) && current@ == author@ && c == config && p@ == path@),
            Resolution::ParseFailed { path, message, .. } => (r matches Err(
                AuthorsError::ConfigParse { path: p, message: m },
            ) && p@ == path@ && m@ == message@),
        },
{
    match res {
        Resolution::NoFile { .. } => Ok(GetReport::NoConfigFile { current: author }),
        Resolution::Found { config, path, .. } => Ok(
            GetReport::WithStore { current: author, config, path },
        ),
        Resolution::ParseFailed { path, message, .. } => Err(
            AuthorsError::ConfigParse { path, message },
        ),
    }
}

/// The `set` subcommand: look `id` up in the discovered store and make
/// it the active identity of the current repository.  Requires a
/// configuration file; fails on an unknown identifier, naming the id
/// and the file.
pub fn set(res: Resolution, id: &String, git: &mut GitConfig) -> (r: Result<Author, AuthorsError>)
    requires
        res matches Resolution::Found { config, .. } ==> config.wf(),
    ensures
        match res {
            Resolution::NoFile { intended } => (r matches Err(
                AuthorsError::ConfigIo { path: p, .. },
            ) && p@ == intended@ && final(git).local_writes() == old(git).local_writes()),
            Resolution::ParseFailed { path, message, .. } => (r matches Err(
                AuthorsError::ConfigParse { path: p, message: m },
            ) && p@ == path@ && m@ == message@ && final(git).local_writes() == old(
                git,
            ).local_writes()),
            Resolution::Found { config, path, .. } => {
                &&& (r matches Ok(a) ==> config.as_map().contains_key(id@) && a@
                    == config.as_map()[id@] && final(git).local_writes() == old(
                    git,
                ).local_writes().insert(name_key(), config.as_map()[id@].name).insert(
                    email_key(),
                    config.as_map()[id@].email,
                ))
                &&& (!config.as_map().contains_key(id@) <==> (r matches Err(
                    AuthorsError::NotFound { id: eid, path: ep },
                ) && eid@ == id@ && ep@ == path@))
                &&& (!config.as_map().contains_key(id@) ==> final(git).local_writes() == old(
                    git,
                ).local_writes())
                &&& (config.as_map().contains_key(id@) ==> (r matches Err(e) ==> e is ConfigIo))
                &&& (config.as_map().contains_key(id@) && r is Err ==> (final(git).local_writes()
                    == old(git).local_writes() || final(git).local_writes() == old(
                    git,
                ).local_writes().insert(name_key(), config.as_map()[id@].name)))
                &&& (r matches Err(e) ==> (e is NotFound || e is ConfigIo))
            },
        },
{
    match res {
        Resolution::NoFile { intended } => Err(
            AuthorsError::ConfigIo {
                path: intended,
                message: String::from_str("no config file found"),
            },
        ),
        Resolution::ParseFailed { path, message, .. } => Err(
            AuthorsError::ConfigParse { path, message },
        ),
        Resolution::Found { config, path, .. } => {
            let author = match config.get(id) {
                Some(a) => a.clone(),
                None => {
                    return Err(AuthorsError::NotFound { id: id.clone(), path });
                },
            };
            match set_author(git, &author) {
                Ok(_) => Ok(author),
                Err(e) => Err(e),
            }
        },
    }
}

/// The `add` subcommand: insert or overwrite `id` in the discovered
/// store — or in a fresh store at the intended location where no file
/// exists yet — and hand back the store to persist and the path to
/// write it to.
pub fn add(res: Resolution, id: String, author: Author) -> (r: Result<
    (AuthorsConfig, String),
    AuthorsError,
>)
    requires
        res matches Resolution::Found { config, .. } ==> config.wf(),
    ensures
        match res {
            Resolution::NoFile { intended } => (r matches Ok((c, p)) && c.wf() && c.as_map()
                == Map::<Seq<char>, crate::author::AuthorView>::empty().insert(id@, author@) && p@
                == intended@),
            Resolution::Found { config, path, .. } => (r matches Ok((c, p)) && c.wf() && c.as_map()
                == config.as_map().insert(id@, author@) && p@ == path@),
            Resolution::ParseFailed { path, message, .. } => (r matches Err(
                AuthorsError::ConfigParse { path: p, message: m },
            ) && p@ == path@ && m@ == message@),
        },
{
    match res {
        Resolution::NoFile { intended } => {
            let mut config = AuthorsConfig::new();
            config.add(id, author);
            Ok((config, intended))
        },
        Resolution::Found { config, path, .. } => {
            let mut config = config;
            config.add(id, author);
            Ok((config, path))
        },
        Resolution::ParseFailed { path, message, .. } => Err(
            AuthorsError::ConfigParse { path, message },
        ),
    }
}

/// The `remove` subcommand: take `id` out of the discovered store and
/// hand back the store to persist and the path to write it to.  On an
/// unknown identifier nothing is handed back — the file stays exactly
/// as it is — and the error names the id and the file.
pub fn remove(res: Resolution, id: &String) -> (r: Result<(AuthorsConfig, String), AuthorsError>)
    requires
        res matches Resolution::Found { config, .. } ==> config.wf(),
    ensures
        match res {
            Resolution::NoFile { intended } => (r matches Err(
                AuthorsError::ConfigIo { path: p, .. },
            ) && p@ == intended@),
            Resolution::ParseFailed { path, message, .. } => (r matches Err(
                AuthorsError::ConfigParse { path: p, message: m },
            ) && p@ == path@ && m@ == message@),
            Resolution::Found { config, path, .. } => {
                if config.as_map().contains_key(id@) {
                    r matches Ok((c, p)) && c.wf() && c.as_map() == config.as_map().remove(id@)
                        && p@ == path@
                } else {
                    r matches Err(AuthorsError::NotFound { id: eid, path: ep }) && eid@ == id@
                        && ep@ == path@
                }
            },
        },
{
    match res {
        Resolution::NoFile { intended } => Err(
            AuthorsError::ConfigIo {
                path: intended,
                message: String::from_str("no config file found"),
            },
        ),
        Resolution::ParseFailed { path, message, .. } => Err(
            AuthorsError::ConfigParse { path, message },
        ),
        Resolution::Found { config, path, .. } => {
            let mut config = config;
            match config.remove(id) {
                Some(_) => Ok((config, path)),
                None => Err(AuthorsError::NotFound { id: id.clone(), path }),
            }
        },
    }
}

/// The `doas` subcommand, up to the point where the command runs: look
/// `id` up, fix the session — target and the prior identity to
/// restore — and apply the target to the repository.  A session is
/// handed back exactly when the target was applied; on every error
/// path before the apply, nothing has been written.
pub fn doas(res: Resolution, id: &String, prior: &Author, git: &mut GitConfig) -> (r: Result<
    RunAsSession,
    AuthorsError,
>)
    requires
        res matches Resolution::Found { config, .. } ==> config.wf(),
    ensures
        match res {
            Resolution::NoFile { intended } => (r matches Err(
                AuthorsError::ConfigIo { path: p, .. },
            ) && p@ == intended@ && final(git).local_writes() == old(git).local_writes()),
            Resolution::ParseFailed { path, message, .. } => (r matches Err(
                AuthorsError::ConfigParse { path: p, message: m },
            ) && p@ == path@ && m@ == message@ && final(git).local_writes() == old(
                git,
            ).local_writes()),
            Resolution::Found { config, path, .. } => {
                &&& (r matches Ok(s) ==> config.as_map().contains_key(id@) && s.target@
                    == config.as_map()[id@] && s.prior@ == prior@ && final(git).local_writes()
                    == old(git).local_writes().insert(
                    name_key(),
                    config.as_map()[id@].name,
                ).insert(email_key(), config.as_map()[id@].email))
                &&& (!config.as_map().contains_key(id@) <==> (r matches Err(
                    AuthorsError::NotFound { id: eid, path: ep },
                ) && eid@ == id@ && ep@ == path@))
                &&& (!config.as_map().contains_key(id@) ==> final(git).local_writes() == old(
                    git,
                ).local_writes())
                &&& (config.as_map().contains_key(id@) ==> (r matches Err(e) ==> e is ConfigIo))
                &&& (config.as_map().contains_key(id@) && r is Err ==> (final(git).local_writes()
                    == old(git).local_writes() || final(git).local_writes() == old(
                    git,
                ).local_writes().insert(name_key(), prior@.name) || final(git).local_writes()
                    == old(git).local_writes().insert(name_key(), config.as_map()[id@].name)))
                &&& (r matches Err(e) ==> (e is NotFound || e is ConfigIo))
            },
        },
{
    match res {
        Resolution::NoFile { intended } => Err(
            AuthorsError::ConfigIo {
                path: intended,
                message: String::from_str("no config file found"),
            },
        ),
        Resolution::ParseFailed { path, message, .. } => Err(
            AuthorsError::ConfigParse { path, message },
        ),
        Resolution::Found { config, path, .. } => {
            let session = match RunAsSession::begin(&config, id, prior, &path) {
                Ok(s) => s,
                Err(e) => {
                    return Err(e);
                },
            };
            match session.apply(git) {
                Ok(_) => Ok(session),
                Err(e) => Err(e),
            }
        },
    }
}

/// The `copy-config` subcommand: the exact text to write at the
/// destination — the discovered store, re-serialized.  Requires a
/// readable, parseable file.
pub fn copy_config(res: Resolution) -> (r: Result<String, AuthorsError>)
    ensures
        match res {
            Resolution::NoFile { intended } => (r matches Err(
                AuthorsError::ConfigIo { path: p, .. },
            ) && p@ == intended@),
            Resolution::ParseFailed { path, message, .. } => (r matches Err(
                AuthorsError::ConfigParse { path: p, message: m },
            ) && p@ == path@ && m@ == message@),
            Resolution::Found { config, .. } => (r matches Ok(text) && text@ == ser(
                config.entries(),
            )),
        },
{
    match res {
        Resolution::NoFile { intended } => Err(
            AuthorsError::ConfigIo {
                path: intended,
                message: String::from_str("no config file found"),
            },
        ),
        Resolution::ParseFailed { path, message, .. } => Err(
            AuthorsError::ConfigParse { path, message },
        ),
        Resolution::Found { config, .. } => Ok(config.to_toml()),
    }
}

} // verus!
