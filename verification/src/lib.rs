//! Named author identities for a version-control repository: a store
//! of name/email pairs kept in a configuration file found by walking
//! the working directory's ancestors, applied to the repository's
//! local configuration, and substituted for the length of one command
//! with a guaranteed decision to restore the prior identity.

pub mod args;
pub mod author;
pub mod codec;
pub mod commands;
pub mod config;
pub mod errors;
pub mod git_config;
pub mod switcher;
