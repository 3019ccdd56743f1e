//! The scoped identity substitution: apply a stored identity, run a
//! command, and restore the prior identity — whatever the command did.
//!
//! The one correctness contract of this module: the identity handed
//! back for restoration is the prior identity for *every* command
//! outcome, so the active identity never remains on the substituted
//! value past the end of a run-as flow while this process lives.

use vstd::prelude::*;
use crate::author::{Author, AuthorView};
use crate::config::AuthorsConfig;
use crate::errors::AuthorsError;
use crate::git_config::{GitConfig, GitConfigKey, set_author, name_key, email_key};

verus! {

/// How the child command ended, as reported by the process runner.
pub enum CmdOutcome {
    /// The command list was empty; nothing was run.
    EmptyCommand,
    /// The child could not be spawned at all; `message` says why.
    SpawnFailed { message: String },
    /// The child ran and exited cleanly.
    ExitedOk,
    /// The child ran and exited with a failure status, or could not be
    /// waited for; `message` describes it.
    ExitedErr { message: String },
}

/// The result of a whole run-as flow, by severity.
pub enum RunAsReport {
    /// The command ran and exited cleanly; the prior identity was
    /// restored.
    Done,
    /// The command failed or never ran; the prior identity was still
    /// restored.  Reported, not fatal.
    CommandFailed(AuthorsError),
    /// The restoration write itself failed: the repository is left on
    /// the substituted identity.  The most severe outcome.
    RestoreFailed(AuthorsError),
}

/// One run-as flow: the identity to apply and the identity to restore,
/// fixed once at the start so no later failure can change them.
pub struct RunAsSession {
    pub target: Author,
    pub prior: Author,
}

/// The identity a session restores after the command: the prior
/// identity, whatever the outcome was.
pub open spec fn restore_decision(s: &RunAsSession, outcome: &CmdOutcome) -> AuthorView {
    s.prior@
}

/// A write to the repository configuration leaves exactly the written
/// identity active, whatever was active before.
pub open spec fn active_after_write(active: AuthorView, written: AuthorView) -> AuthorView {
    written
}

impl RunAsSession {
    /// Fixes the target (looked up in the store) and the identity to
    /// restore (the caller's already-resolved prior identity, not
    /// re-read here).  Fails exactly on an unknown identifier.
    pub fn begin(config: &AuthorsConfig, id: &String, prior: &Author, path: &String) -> (r: Result<
        RunAsSession,
        AuthorsError,
    >)
        requires
            config.wf(),
        ensures
            r is Ok <==> config.as_map().contains_key(id@),
            r matches Ok(s) ==> s.target@ == config.as_map()[id@] && s.prior@ == prior@,
            r matches Err(e) ==> (e matches AuthorsError::NotFound { id: eid, path: ep } && eid@
                == id@ && ep@ == path@),
    {
        match config.get(id) {
            Some(a) => Ok(RunAsSession { target: a.clone(), prior: prior.clone() }),
            None => Err(AuthorsError::NotFound { id: id.clone(), path: path.clone() }),
        }
    }

    /// The identity to apply before the command runs.
    pub fn target(&self) -> (a: &Author)
        ensures
            a@ == self.target@,
    {
        &self.target
    }

    /// The identity to restore once the command has finished: the
    /// prior identity, for every outcome — exit failure, spawn
    /// failure, or no command at all.
    pub fn restore_target(&self, outcome: &CmdOutcome) -> (a: &Author)
        ensures
            a@ == restore_decision(self, outcome),
            a@ == self.prior@,
    {
        &self.prior
    }

    /// Applies the target identity to the repository's local scope.
    /// On failure the command must not be run, and the identity is
    /// left unapplied: a half-applied name is written back to the
    /// prior name, so only where that recovery write itself fails can
    /// the target's name remain.
    pub fn apply(&self, git: &mut GitConfig) -> (r: Result<(), AuthorsError>)
        ensures
            r is Ok ==> final(git).local_writes() == old(git).local_writes().insert(
                name_key(),
                self.target@.name,
            ).insert(email_key(), self.target@.email),
            r is Err ==> (final(git).local_writes() == old(git).local_writes()
                || final(git).local_writes() == old(git).local_writes().insert(
                name_key(),
                self.prior@.name,
            ) || final(git).local_writes() == old(git).local_writes().insert(
                name_key(),
                self.target@.name,
            )),
            r matches Err(e) ==> e is ConfigIo,
    {
        match git.set(&GitConfigKey::Name, self.target.name.as_str()) {
            Ok(_) => {},
            Err(e) => {
                return Err(e);
            },
        }
        match git.set(&GitConfigKey::Email, self.target.email.as_str()) {
            Ok(u) => Ok(u),
            Err(e) => {
                // The name is half-applied: write the prior name back,
                // so a failure leaves the effective identity where it
                // was whenever this recovery write goes through.
                match git.set(&GitConfigKey::Name, self.prior.name.as_str()) {
                    Ok(_) => {
                        proof {
                            assert(old(git).local_writes().insert(
                                name_key(),
                                self.target@.name,
                            ).insert(name_key(), self.prior@.name) =~= old(
                                git,
                            ).local_writes().insert(name_key(), self.prior@.name));
                        }
                    },
                    Err(_) => {},
                }
                Err(e)
            },
        }
    }

    /// Unconditionally writes the restore decision — the prior
    /// identity — back, whatever `outcome` was: on success both keys
    /// are recorded with the prior identity's values.
    pub fn restore(&self, outcome: &CmdOutcome, git: &mut GitConfig) -> (r: Result<
        (),
        AuthorsError,
    >)
        ensures
            r is Ok ==> final(git).local_writes() == old(git).local_writes().insert(
                name_key(),
                self.prior@.name,
            ).insert(email_key(), self.prior@.email),
            r is Err ==> (final(git).local_writes() == old(git).local_writes()
                || final(git).local_writes() == old(git).local_writes().insert(
                name_key(),
                self.prior@.name,
            )),
            r matches Err(e) ==> e is ConfigIo,
    {
        set_author(git, self.restore_target(outcome))
    }

    /// The combined result: a failed restoration outranks everything; a failed
    /// command is reported but was not allowed to stop the
    /// restoration; otherwise the flow is done.
    pub fn finish(&self, outcome: &CmdOutcome, restore_result: Result<(), AuthorsError>) -> (r:
        RunAsReport)
        ensures
            restore_result matches Err(e) ==> (r matches RunAsReport::RestoreFailed(f) && (
            f matches AuthorsError::RestoreFailed { message: m } && m@ == crate::errors::error_message(
                &e,
            ))),
            restore_result is Ok ==> match outcome {
                CmdOutcome::ExitedOk => r is Done,
                CmdOutcome::EmptyCommand => (r matches RunAsReport::CommandFailed(e) && e
                    is ProcessSpawn),
                CmdOutcome::SpawnFailed { message } => (r matches RunAsReport::CommandFailed(e) && (
                e matches AuthorsError::ProcessSpawn { message: m } && m@ == message@)),
                CmdOutcome::ExitedErr { message } => (r matches RunAsReport::CommandFailed(e) && (
                e matches AuthorsError::ProcessExit { message: m } && m@ == message@)),
            },
    {
        match restore_result {
            Err(e) => RunAsReport::RestoreFailed(
                AuthorsError::RestoreFailed { message: e.message() },
            ),
            Ok(_) => match outcome {
                CmdOutcome::ExitedOk => RunAsReport::Done,
                CmdOutcome::EmptyCommand => RunAsReport::CommandFailed(
                    AuthorsError::ProcessSpawn { message: String::from_str("empty command") },
                ),
                CmdOutcome::SpawnFailed { message } => RunAsReport::CommandFailed(
                    AuthorsError::ProcessSpawn { message: message.clone() },
                ),
                CmdOutcome::ExitedErr { message } => RunAsReport::CommandFailed(
                    AuthorsError::ProcessExit { message: message.clone() },
                ),
            },
        }
    }
}

/// The program to spawn: the first element of a non-empty command
/// list; an empty list runs nothing.
pub fn command_program(cmd: &Vec<String>) -> (r: Option<&String>)
    ensures
        r is Some <==> cmd@.len() > 0,
        r matches Some(p) ==> p@ == cmd@[0]@,
{
    if cmd.len() == 0 {
        None
    } else {
        Some(&cmd[0])
    }
}

/// However the command ends, the identity active after a run-as flow
/// is the identity that was active before it: applying the target and
/// then the restore decision leaves the prior identity active, for
/// every starting value and every outcome.
pub proof fn lemma_run_as_restores_prior(
    active0: AuthorView,
    s: RunAsSession,
    outcome: CmdOutcome,
)
    ensures
        active_after_write(
            active_after_write(active0, s.target@),
            restore_decision(&s, &outcome),
        ) == s.prior@,
{
}

} // verus!
