use git_authors::args::{args, Args, Commands};
use git_authors::author::Author;
use git_authors::config::AuthorsConfig;
use git_authors::errors::AuthorsError;
use git_authors::git_config::author_from_values;
use git_authors::switcher::{command_program, CmdOutcome, RunAsReport, RunAsSession};

fn author(name: &str, email: &str) -> Author {
    Author { name: name.to_string(), email: email.to_string() }
}

fn argv(words: &[&str]) -> Vec<String> {
    words.iter().map(|w| w.to_string()).collect()
}

fn store_with_tph() -> AuthorsConfig {
    let mut c = AuthorsConfig::new();
    c.add("tph".to_string(), author("Theis", "t@example.org"));
    c
}

#[test]
fn begin_fixes_target_and_prior() {
    let c = store_with_tph();
    let prior = author("Work", "w@example.org");
    let path = "/x/.git-authors.toml".to_string();
    let s = RunAsSession::begin(&c, &"tph".to_string(), &prior, &path).expect("id is stored");
    assert_eq!(s.target().name, "Theis");
    assert_eq!(s.prior.name, "Work");
}

#[test]
fn begin_unknown_id_names_id_and_path() {
    let c = store_with_tph();
    let prior = author("Work", "w@example.org");
    let path = "/x/.git-authors.toml".to_string();
    match RunAsSession::begin(&c, &"ghost".to_string(), &prior, &path) {
        Err(AuthorsError::NotFound { id, path }) => {
            assert_eq!(id, "ghost");
            assert_eq!(path, "/x/.git-authors.toml");
        }
        _ => panic!("expected the unknown id to be reported"),
    }
}

#[test]
fn restore_target_is_prior_for_every_outcome() {
    let c = store_with_tph();
    let prior = author("Work", "w@example.org");
    let path = "/x/.git-authors.toml".to_string();
    let s = RunAsSession::begin(&c, &"tph".to_string(), &prior, &path).expect("id is stored");
    let outcomes = vec![
        CmdOutcome::EmptyCommand,
        CmdOutcome::SpawnFailed { message: "no such file".to_string() },
        CmdOutcome::ExitedOk,
        CmdOutcome::ExitedErr { message: "exit status: 1".to_string() },
    ];
    for outcome in &outcomes {
        let restore = s.restore_target(outcome);
        assert_eq!(restore.name, "Work");
        assert_eq!(restore.email, "w@example.org");
    }
}

#[test]
fn run_as_failing_command_still_restores_prior() {
    // Store holds tph; the prior active identity is Work; the command
    // is `false`, which exits non-zero.  The active identity is
    // simulated with a plain value, written exactly as a front end
    // would write it.
    let c = store_with_tph();
    let prior = author("Work", "w@example.org");
    let path = "/x/.git-authors.toml".to_string();
    let s = RunAsSession::begin(&c, &"tph".to_string(), &prior, &path).expect("id is stored");

    let mut active = author("Work", "w@example.org");
    assert_eq!(active.name, "Work");
    active = s.target().clone();
    assert_eq!(active.name, "Theis");

    // `false` ran and exited non-zero.
    let outcome = CmdOutcome::ExitedErr { message: "exit status: 1".to_string() };
    active = s.restore_target(&outcome).clone();

    assert_eq!(active.name, "Work");
    assert_eq!(active.email, "w@example.org");
    match s.finish(&outcome, Ok(())) {
        RunAsReport::CommandFailed(AuthorsError::ProcessExit { .. }) => {}
        _ => panic!("a failing command is reported, non-fatally"),
    }
}

#[test]
fn run_as_spawn_failure_still_restores_prior() {
    let c = store_with_tph();
    let prior = author("Work", "w@example.org");
    let path = "/x/.git-authors.toml".to_string();
    let s = RunAsSession::begin(&c, &"tph".to_string(), &prior, &path).expect("id is stored");

    let mut active = s.target().clone();
    assert_eq!(active.name, "Theis");
    let outcome = CmdOutcome::SpawnFailed { message: "command not found".to_string() };
    active = s.restore_target(&outcome).clone();

    assert_eq!(active.name, "Work");
    match s.finish(&outcome, Ok(())) {
        RunAsReport::CommandFailed(AuthorsError::ProcessSpawn { .. }) => {}
        _ => panic!("a spawn failure is reported, non-fatally"),
    }
}

#[test]
fn finish_clean_exit_is_done() {
    let s = RunAsSession { target: author("T", "t@x"), prior: author("P", "p@x") };
    assert!(matches!(s.finish(&CmdOutcome::ExitedOk, Ok(())), RunAsReport::Done));
}

#[test]
fn finish_empty_command_is_spawn_error() {
    let s = RunAsSession { target: author("T", "t@x"), prior: author("P", "p@x") };
    assert!(matches!(
        s.finish(&CmdOutcome::EmptyCommand, Ok(())),
        RunAsReport::CommandFailed(AuthorsError::ProcessSpawn { .. })
    ));
}

#[test]
fn finish_restore_failure_outranks_command_failure() {
    let s = RunAsSession { target: author("T", "t@x"), prior: author("P", "p@x") };
    let outcome = CmdOutcome::ExitedErr { message: "exit status: 1".to_string() };
    let write_failed = Err(AuthorsError::ConfigIo {
        path: "user.name".to_string(),
        message: "locked".to_string(),
    });
    match s.finish(&outcome, write_failed) {
        RunAsReport::RestoreFailed(AuthorsError::RestoreFailed { .. }) => {}
        _ => panic!("a failed restoration is the most severe outcome"),
    }
}

#[test]
fn command_program_is_first_word() {
    assert_eq!(command_program(&argv(&["git", "status"])).unwrap(), "git");
    assert!(command_program(&argv(&[])).is_none());
}

#[test]
fn args_default_is_no_command() {
    let a = args(&argv(&[])).expect("empty line is the default");
    assert!(!a.verbose);
    assert!(a.command.is_none());
}

#[test]
fn args_verbose_flag_before_subcommand() {
    let a = args(&argv(&["-v", "get"])).expect("parses");
    assert!(a.verbose);
    assert!(matches!(a.command, Some(Commands::Get)));
    let b = args(&argv(&["--verbose"])).expect("parses");
    assert!(b.verbose);
    assert!(b.command.is_none());
}

#[test]
fn args_set_takes_one_id() {
    let a = args(&argv(&["set", "tph"])).expect("parses");
    match a.command {
        Some(Commands::SetActive { id }) => assert_eq!(id, "tph"),
        _ => panic!("expected set"),
    }
    assert!(args(&argv(&["set"])).is_err());
    assert!(args(&argv(&["set", "a", "b"])).is_err());
}

#[test]
fn args_add_takes_id_name_email() {
    let a = args(&argv(&["add", "tph", "Theis", "t@example.org"])).expect("parses");
    match a.command {
        Some(Commands::Add { id, name, email }) => {
            assert_eq!(id, "tph");
            assert_eq!(name, "Theis");
            assert_eq!(email, "t@example.org");
        }
        _ => panic!("expected add"),
    }
    assert!(args(&argv(&["add", "tph"])).is_err());
}

#[test]
fn args_doas_takes_whole_remainder() {
    let a = args(&argv(&["doas", "tph", "git", "commit", "-m", "x"])).expect("parses");
    match a.command {
        Some(Commands::Doas { id, cmd }) => {
            assert_eq!(id, "tph");
            assert_eq!(cmd, vec!["git", "commit", "-m", "x"]);
        }
        _ => panic!("expected doas"),
    }
    assert!(args(&argv(&["doas"])).is_err());
}

#[test]
fn args_copy_config_destination_is_optional() {
    let a = args(&argv(&["copy-config"])).expect("parses");
    assert!(matches!(a.command, Some(Commands::CopyConfig { destination: None })));
    let b = args(&argv(&["copy-config", "/tmp"])).expect("parses");
    match b.command {
        Some(Commands::CopyConfig { destination: Some(d) }) => assert_eq!(d, "/tmp"),
        _ => panic!("expected a destination"),
    }
    assert!(args(&argv(&["copy-config", "a", "b"])).is_err());
}

#[test]
fn args_unknown_subcommand_is_rejected() {
    assert!(args(&argv(&["frobnicate"])).is_err());
}

#[test]
fn error_messages_are_single_descriptive_lines() {
    assert_eq!(
        AuthorsError::NotARepository.message(),
        "not a git repository"
    );
    assert_eq!(
        AuthorsError::MissingField { key: "user.name".to_string() }.message(),
        "missing or empty git config value 'user.name'"
    );
    assert_eq!(
        AuthorsError::NotFound { id: "tph".to_string(), path: "/x".to_string() }.message(),
        "config file '/x' does not contain any authors identified by 'tph'"
    );
    assert_eq!(
        AuthorsError::ConfigParse { path: "/x".to_string(), message: "bad line".to_string() }
            .message(),
        "tried to parse invalid config file at '/x': 'bad line'"
    );
    assert_eq!(
        AuthorsError::RestoreFailed { message: "locked".to_string() }.message(),
        "failed to restore the previous author: locked"
    );
}

#[test]
fn author_display_lines_are_exact() {
    let a = author("Theis", "t@example.org");
    assert_eq!(a.name_line(), "     name: 'Theis'");
    assert_eq!(a.mail_line(), "     mail: 't@example.org'");
    assert_eq!(a.display(), "name  -> 'Theis'\nemail -> 't@example.org'");
}

#[test]
fn full_args(){
    let a = args(&argv(&["-v", "doas", "tph", "false"])).expect("parses");
    assert!(a.verbose);
    match a.command {
        Some(Commands::Doas { id, cmd }) => {
            assert_eq!(id, "tph");
            assert_eq!(cmd, vec!["false"]);
        }
        _ => panic!("expected doas"),
    }
}

#[test]
fn author_from_values_accepts_both_non_empty() {
    let a = author_from_values("Theis".to_string(), "t@example.org".to_string())
        .expect("both fields present");
    assert_eq!(a.name, "Theis");
    assert_eq!(a.email, "t@example.org");
}

#[test]
fn author_from_values_rejects_empty_name_first() {
    match author_from_values("".to_string(), "t@example.org".to_string()) {
        Err(AuthorsError::MissingField { key }) => assert_eq!(key, "user.name"),
        _ => panic!("an empty name is a missing field"),
    }
    match author_from_values("".to_string(), "".to_string()) {
        Err(AuthorsError::MissingField { key }) => assert_eq!(key, "user.name"),
        _ => panic!("the name is named first when both are empty"),
    }
}

#[test]
fn author_from_values_rejects_empty_email() {
    match author_from_values("Theis".to_string(), "".to_string()) {
        Err(AuthorsError::MissingField { key }) => assert_eq!(key, "user.email"),
        _ => panic!("an empty email is a missing field"),
    }
}
