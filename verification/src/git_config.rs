//! Access to the version-control tool's layered configuration: the
//! active identity is read from the effective (merged) scope and
//! written to the local (repository) scope only, so an override stays
//! confined to the current repository.
//!
//! All calls into the outside library stand behind small trusted
//! wrappers.  What this process has successfully written through a
//! handle is tracked in a ghost map (`local_writes`): relying on the
//! write call recording exactly the key and value it is given, that
//! map mirrors the keys this handle set in the local scope.  Nothing
//! is promised of what other processes put there.

use vstd::prelude::*;
use vstd::string::StringExecFns;
use crate::author::Author;
use crate::errors::AuthorsError;

verus! {

#[verifier::external_type_specification]
#[verifier::external_body]
pub struct ExRepository(git2::Repository);

#[verifier::external_type_specification]
#[verifier::external_body]
pub struct ExConfig(git2::Config);

#[verifier::external_type_specification]
#[verifier::external_body]
pub struct ExGitError(git2::Error);

/// Relies on git2::Repository::open_from_env: finds and opens the
/// enclosing repository, erring outside one.
#[verifier::external_body]
fn repo_open_from_env() -> (r: Result<git2::Repository, git2::Error>) {
    git2::Repository::open_from_env()
}

/// Relies on git2::Repository::config: the repository's configuration,
/// global and system levels included.
#[verifier::external_body]
fn repo_config(repo: &git2::Repository) -> (r: Result<git2::Config, git2::Error>) {
    repo.config()
}

/// Relies on git2::Config::open_level: narrows a configuration handle
/// to its local (repository) level, where writes are then confined.
#[verifier::external_body]
fn config_open_local(cfg: &git2::Config) -> (r: Result<git2::Config, git2::Error>) {
    cfg.open_level(git2::ConfigLevel::Local)
}

/// Relies on git2::Config::get_string: the value of a key in the
/// effective configuration, an error where it is unset or unreadable.
#[verifier::external_body]
fn config_get_string(cfg: &git2::Config, key: &str) -> (r: Result<String, git2::Error>) {
    cfg.get_string(key)
}

/// Relies on git2::Config::set_str: on success, the configuration
/// level this handle was opened at now records exactly `value` under
/// `key`; on an error nothing is recorded.
#[verifier::external_body]
fn config_set_str(cfg: &mut git2::Config, key: &str, value: &str) -> (r: Result<
    (),
    git2::Error,
>) {
    cfg.set_str(key, value)
}

/// Relies on git2::Error::message: a human-readable description of the
/// error.
#[verifier::external_body]
fn git_error_message(e: &git2::Error) -> (r: String) {
    e.message().to_owned()
}

/// The two configuration keys the active identity lives under.
pub enum GitConfigKey {
    Name,
    Email,
}

/// The key the author's name lives under.
pub open spec fn name_key() -> Seq<char> {
    "user.name"@
}

/// The key the author's e-mail address lives under.
pub open spec fn email_key() -> Seq<char> {
    "user.email"@
}

/// The configuration key's name, as the version-control tool spells
/// it.
pub open spec fn key_name(key: &GitConfigKey) -> Seq<char> {
    match key {
        GitConfigKey::Name => name_key(),
        GitConfigKey::Email => email_key(),
    }
}

/// The configuration key's name, as the version-control tool spells it.
fn key_to_git_config_key(key: &GitConfigKey) -> (r: &'static str)
    ensures
        r@ == key_name(key),
{
    match key {
        GitConfigKey::Name => "user.name",
        GitConfigKey::Email => "user.email",
    }
}

/// The enclosing repository's configuration: the effective scope for
/// reads, the local scope for writes, and the record of what this
/// handle has successfully written there.
pub struct GitConfig {
    global: git2::Config,
    local: git2::Config,
    written: Ghost<Map<Seq<char>, Seq<char>>>,
}

impl GitConfig {
    /// What this handle has successfully written into the local
    /// scope: each key mapped to the last value whose write returned
    /// success.  Relying on the write call's recording exactly what it
    /// is given, these keys now hold these values in the local scope.
    pub closed spec fn local_writes(&self) -> Map<Seq<char>, Seq<char>> {
        self.written@
    }

    /// Opens the enclosing repository's configuration.  Outside a
    /// repository this fails, with `NotARepository`; a fresh handle
    /// has written nothing.
    pub fn new() -> (r: Result<GitConfig, AuthorsError>)
        ensures
            r matches Ok(g) ==> g.local_writes() == Map::<Seq<char>, Seq<char>>::empty(),
            r matches Err(e) ==> (e is NotARepository || e is ConfigIo),
    {
        let repo = match repo_open_from_env() {
            Ok(repo) => repo,
            Err(_) => {
                return Err(AuthorsError::NotARepository);
            },
        };
        let global = match repo_config(&repo) {
            Ok(c) => c,
            Err(e) => {
                return Err(
                    AuthorsError::ConfigIo {
                        path: String::from_str("git config"),
                        message: git_error_message(&e),
                    },
                );
            },
        };
        let local = match config_open_local(&global) {
            Ok(c) => c,
            Err(e) => {
                return Err(
                    AuthorsError::ConfigIo {
                        path: String::from_str("git config (local)"),
                        message: git_error_message(&e),
                    },
                );
            },
        };
        Ok(GitConfig { global, local, written: Ghost(Map::empty()) })
    }

    /// Reads a key from the effective configuration.  An unset key is a
    /// missing field of the active identity.
    pub fn get(&self, key: &GitConfigKey) -> (r: Result<String, AuthorsError>)
        ensures
            r matches Err(e) ==> (e matches AuthorsError::MissingField { key: k } && k@ == key_name(
                key,
            )),
    {
        let name = key_to_git_config_key(key);
        match config_get_string(&self.global, name) {
            Ok(s) => Ok(s),
            Err(_) => Err(AuthorsError::MissingField { key: name.to_owned() }),
        }
    }

    /// Writes a key into the local scope only, so the override stays
    /// confined to the current repository.  On success the write is
    /// recorded; on failure nothing is, and the error names the key
    /// and the value.
    pub fn set(&mut self, key: &GitConfigKey, value: &str) -> (r: Result<(), AuthorsError>)
        ensures
            r is Ok ==> final(self).local_writes() == old(self).local_writes().insert(
                key_name(key),
                value@,
            ),
            r is Err ==> final(self).local_writes() == old(self).local_writes(),
            r matches Err(e) ==> (e matches AuthorsError::ConfigIo { path: p, message: m } && p@
                == key_name(key) && (exists|cause: Seq<char>|
                m@ == "tried to set value '"@ + value@ + "': "@ + cause)),
    {
        let name = key_to_git_config_key(key);
        match config_set_str(&mut self.local, name, value) {
            Ok(u) => {
                self.written = Ghost(self.written@.insert(key_name(key), value@));
                Ok(u)
            },
            Err(e) => {
                let cause = git_error_message(&e);
                let mut m = String::from_str("tried to set value '");
                m.append(value);
                m.append("': ");
                m.append(cause.as_str());
                proof {
                    assert(m@ =~= "tried to set value '"@ + value@ + "': "@ + cause@);
                }
                Err(AuthorsError::ConfigIo { path: name.to_owned(), message: m })
            },
        }
    }
}

/// The active identity decided from the two values read: both fields
/// must be non-empty; the first missing one is named — `user.name`
/// before `user.email`.
pub fn author_from_values(name: String, email: String) -> (r: Result<Author, AuthorsError>)
    ensures
        r is Ok <==> name@.len() > 0 && email@.len() > 0,
        r matches Ok(a) ==> a@.name == name@ && a@.email == email@,
        name@.len() == 0 ==> (r matches Err(AuthorsError::MissingField { key }) && key@
            == name_key()),
        name@.len() > 0 && email@.len() == 0 ==> (r matches Err(
            AuthorsError::MissingField { key },
        ) && key@ == email_key()),
{
    if name.as_str().is_empty() {
        return Err(AuthorsError::MissingField { key: String::from_str("user.name") });
    }
    if email.as_str().is_empty() {
        return Err(AuthorsError::MissingField { key: String::from_str("user.email") });
    }
    Ok(Author { name, email })
}

/// The active identity, read from the effective configuration and
/// decided by [`author_from_values`]: both fields must be present and
/// non-empty; a partially configured active identity is an error, not
/// a default.
pub fn current_author(config: &GitConfig) -> (r: Result<Author, AuthorsError>)
    ensures
        r matches Ok(a) ==> a@.name.len() > 0 && a@.email.len() > 0,
        r matches Err(e) ==> (e matches AuthorsError::MissingField { key } && (key@ == name_key()
            || key@ == email_key())),
{
    let name = match config.get(&GitConfigKey::Name) {
        Ok(s) => s,
        Err(e) => {
            return Err(e);
        },
    };
    let email = match config.get(&GitConfigKey::Email) {
        Ok(s) => s,
        Err(e) => {
            return Err(e);
        },
    };
    author_from_values(name, email)
}

/// Writes both fields of `author` into the local scope: the name
/// first, then the email; the first failure is returned.  On success
/// both keys are recorded with the author's values; a failure leaves
/// the record unchanged or — when only the email write failed — with
/// the name already written.
pub fn set_author(config: &mut GitConfig, author: &Author) -> (r: Result<(), AuthorsError>)
    ensures
        r is Ok ==> final(config).local_writes() == old(config).local_writes().insert(
            name_key(),
            author@.name,
        ).insert(email_key(), author@.email),
        r is Err ==> (final(config).local_writes() == old(config).local_writes()
            || final(config).local_writes() == old(config).local_writes().insert(
            name_key(),
            author@.name,
        )),
        r matches Err(e) ==> e is ConfigIo,
{
    match config.set(&GitConfigKey::Name, author.name.as_str()) {
        Ok(_) => {},
        Err(e) => {
            return Err(e);
        },
    }
    config.set(&GitConfigKey::Email, author.email.as_str())
}

} // verus!
