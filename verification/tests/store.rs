use git_authors::author::Author;
use git_authors::commands;
use git_authors::config::{AuthorsConfig, Probe, Resolution, config_file_name, resolve_config};
use git_authors::errors::AuthorsError;

fn author(name: &str, email: &str) -> Author {
    Author { name: name.to_string(), email: email.to_string() }
}

fn probe(path: &str, content: Option<&str>) -> Probe {
    Probe { path: path.to_string(), content: content.map(|s| s.to_string()) }
}

#[test]
fn config_file_name_is_fixed() {
    assert_eq!(config_file_name(), ".git-authors.toml");
}

#[test]
fn add_then_get_returns_exact_fields() {
    let mut c = AuthorsConfig::new();
    c.add("tph".to_string(), author("Theis Pieter Hollebeek", "tph@example.org"));
    let a = c.get(&"tph".to_string()).expect("stored author");
    assert_eq!(a.name, "Theis Pieter Hollebeek");
    assert_eq!(a.email, "tph@example.org");
}

#[test]
fn add_then_get_keeps_empty_fields() {
    let mut c = AuthorsConfig::new();
    c.add("empty".to_string(), author("", ""));
    let a = c.get(&"empty".to_string()).expect("stored author");
    assert_eq!(a.name, "");
    assert_eq!(a.email, "");
}

#[test]
fn add_overwrites_last_write_wins() {
    let mut c = AuthorsConfig::new();
    c.add("id".to_string(), author("First", "first@example.org"));
    c.add("id".to_string(), author("Second", "second@example.org"));
    let a = c.get(&"id".to_string()).expect("stored author");
    assert_eq!(a.name, "Second");
    assert_eq!(c.identities.len(), 1);
}

#[test]
fn get_unknown_id_is_none() {
    let c = AuthorsConfig::new();
    assert!(c.get(&"missing".to_string()).is_none());
}

#[test]
fn to_toml_exact_text() {
    let mut c = AuthorsConfig::new();
    c.add("tph".to_string(), author("Theis", "t@example.org"));
    assert_eq!(c.to_toml(), "\"tph\" = { name = \"Theis\", email = \"t@example.org\" }\n");
}

#[test]
fn to_toml_escapes_special_characters() {
    let mut c = AuthorsConfig::new();
    c.add("q".to_string(), author("a\"b\\c", "x\ny"));
    assert_eq!(c.to_toml(), "\"q\" = { name = \"a\\\"b\\\\c\", email = \"x\\ny\" }\n");
}

#[test]
fn round_trip_keeps_every_field_and_order() {
    let mut c = AuthorsConfig::new();
    c.add("one".to_string(), author("First Person", "first@example.org"));
    c.add("two".to_string(), author("Qu\"ote \\ Back", "tab\there"));
    c.add("three".to_string(), author("", ""));
    let text = c.to_toml();
    let back = AuthorsConfig::parse_toml(&text).expect("round trip parses");
    assert_eq!(back.identities.len(), 3);
    for i in 0..3 {
        assert_eq!(back.identities[i].0, c.identities[i].0);
        assert_eq!(back.identities[i].1.name, c.identities[i].1.name);
        assert_eq!(back.identities[i].1.email, c.identities[i].1.email);
    }
}

#[test]
fn parse_tolerates_blank_lines_and_comments() {
    let text = "# stored authors\n\n   \t\n\"a\" = { name = \"A\", email = \"a@x\" }\n  # trailing comment\n";
    let c = AuthorsConfig::parse_toml(text).expect("parses");
    assert_eq!(c.identities.len(), 1);
    assert_eq!(c.get(&"a".to_string()).unwrap().name, "A");
}

#[test]
fn parse_rejects_duplicate_keys() {
    let text = "\"a\" = { name = \"A\", email = \"a@x\" }\n\"a\" = { name = \"B\", email = \"b@x\" }\n";
    assert_eq!(
        AuthorsConfig::parse_toml(text).unwrap_err(),
        "duplicate identifier 'a'"
    );
}

#[test]
fn parse_rejects_malformed_line() {
    assert_eq!(
        AuthorsConfig::parse_toml("nonsense\n").unwrap_err(),
        "malformed entry 'nonsense'"
    );
    assert!(AuthorsConfig::parse_toml("\"a\" = { name = \"A\" }\n").is_err());
    assert!(AuthorsConfig::parse_toml("\"a\" = { name = \"A\", email = \"a@x\" } trailing\n").is_err());
    assert!(AuthorsConfig::parse_toml("\"a\" = { name = \"A\\z\", email = \"a@x\" }\n").is_err());
}

#[test]
fn parse_accepts_empty_document() {
    let c = AuthorsConfig::parse_toml("").expect("empty text is an empty store");
    assert_eq!(c.identities.len(), 0);
}

#[test]
fn remove_unknown_id_leaves_store_unchanged() {
    let mut c = AuthorsConfig::new();
    c.add("tph".to_string(), author("Theis", "t@example.org"));
    let before = c.to_toml();
    assert!(c.remove(&"other".to_string()).is_none());
    assert_eq!(c.to_toml(), before);
}

#[test]
fn remove_known_id_takes_it_out() {
    let mut c = AuthorsConfig::new();
    c.add("a".to_string(), author("A", "a@x"));
    c.add("b".to_string(), author("B", "b@x"));
    let gone = c.remove(&"a".to_string()).expect("was stored");
    assert_eq!(gone.name, "A");
    assert!(c.get(&"a".to_string()).is_none());
    assert!(c.get(&"b".to_string()).is_some());
}

#[test]
fn resolve_finds_distant_ancestor() {
    let probes = vec![
        probe("/deep/nested/dir/.git-authors.toml", None),
        probe("/deep/nested/.git-authors.toml", None),
        probe("/deep/.git-authors.toml", Some("\"a\" = { name = \"A\", email = \"a@x\" }\n")),
        probe("/.git-authors.toml", Some("\"b\" = { name = \"B\", email = \"b@x\" }\n")),
    ];
    match resolve_config(&probes) {
        Resolution::Found { index, path, config } => {
            assert_eq!(index, 2);
            assert_eq!(path, "/deep/.git-authors.toml");
            assert!(config.get(&"a".to_string()).is_some());
        }
        _ => panic!("expected the nearest existing file to win"),
    }
}

#[test]
fn resolve_stops_on_nearer_unparseable_file() {
    let probes = vec![
        probe("/deep/nested/.git-authors.toml", None),
        probe("/deep/.git-authors.toml", Some("broken ===\n")),
        probe("/.git-authors.toml", Some("\"b\" = { name = \"B\", email = \"b@x\" }\n")),
    ];
    match resolve_config(&probes) {
        Resolution::ParseFailed { index, path, message } => {
            assert_eq!(index, 1);
            assert_eq!(path, "/deep/.git-authors.toml");
            assert_eq!(message, "malformed entry 'broken ==='");
        }
        _ => panic!("resolution must fail on the nearer broken file, not search on"),
    }
}

#[test]
fn resolve_without_any_file_gives_intended_location() {
    let probes = vec![
        probe("/work/dir/.git-authors.toml", None),
        probe("/work/.git-authors.toml", None),
        probe("/.git-authors.toml", None),
    ];
    match resolve_config(&probes) {
        Resolution::NoFile { intended } => assert_eq!(intended, "/work/dir/.git-authors.toml"),
        _ => panic!("no probe holds a file"),
    }
}

#[test]
fn get_without_config_file_reports_current_author_only() {
    let res = Resolution::NoFile { intended: "/work/.git-authors.toml".to_string() };
    match commands::get(author("Work", "w@example.org"), res) {
        Ok(commands::GetReport::NoConfigFile { current }) => {
            assert_eq!(current.name, "Work");
            assert_eq!(current.email, "w@example.org");
        }
        _ => panic!("a missing config file is an indication, not an error"),
    }
}

#[test]
fn get_with_malformed_file_is_a_parse_error() {
    let res = Resolution::ParseFailed {
        index: 0,
        path: "/x/.git-authors.toml".to_string(),
        message: "malformed entry 'nonsense'".to_string(),
    };
    match commands::get(author("Work", "w@example.org"), res) {
        Err(AuthorsError::ConfigParse { path, message }) => {
            assert_eq!(path, "/x/.git-authors.toml");
            assert_eq!(message, "malformed entry 'nonsense'");
        }
        _ => panic!("expected a parse error"),
    }
}

#[test]
fn remove_command_on_unknown_id_names_id_and_path() {
    let mut store = AuthorsConfig::new();
    store.add("tph".to_string(), author("Theis", "t@example.org"));
    let text_before = store.to_toml();
    let res = Resolution::Found {
        index: 0,
        path: "/x/.git-authors.toml".to_string(),
        config: store,
    };
    match commands::remove(res, &"ghost".to_string()) {
        Err(AuthorsError::NotFound { id, path }) => {
            assert_eq!(id, "ghost");
            assert_eq!(path, "/x/.git-authors.toml");
        }
        _ => panic!("expected the unknown id to be reported"),
    }
    // Nothing was handed back to persist: the file's text stays what it was.
    let mut again = AuthorsConfig::new();
    again.add("tph".to_string(), author("Theis", "t@example.org"));
    assert_eq!(again.to_toml(), text_before);
}

#[test]
fn remove_command_without_file_is_io_error() {
    let res = Resolution::NoFile { intended: "/w/.git-authors.toml".to_string() };
    match commands::remove(res, &"tph".to_string()) {
        Err(AuthorsError::ConfigIo { path, .. }) => assert_eq!(path, "/w/.git-authors.toml"),
        _ => panic!("expected an i/o error naming the intended path"),
    }
}

#[test]
fn add_command_creates_fresh_store_without_file() {
    let res = Resolution::NoFile { intended: "/w/.git-authors.toml".to_string() };
    let (store, path) = commands::add(res, "tph".to_string(), author("Theis", "t@example.org"))
        .expect("a fresh store is created");
    assert_eq!(path, "/w/.git-authors.toml");
    assert_eq!(store.get(&"tph".to_string()).unwrap().email, "t@example.org");
}

#[test]
fn add_command_overwrites_in_existing_store() {
    let mut store = AuthorsConfig::new();
    store.add("tph".to_string(), author("Old", "old@example.org"));
    let res = Resolution::Found {
        index: 0,
        path: "/x/.git-authors.toml".to_string(),
        config: store,
    };
    let (store, _path) = commands::add(res, "tph".to_string(), author("New", "new@example.org"))
        .expect("overwrite succeeds");
    assert_eq!(store.get(&"tph".to_string()).unwrap().name, "New");
    assert_eq!(store.identities.len(), 1);
}

#[test]
fn copy_config_hands_back_exact_text() {
    let mut store = AuthorsConfig::new();
    store.add("tph".to_string(), author("Theis", "t@example.org"));
    let expected = store.to_toml();
    let res = Resolution::Found {
        index: 0,
        path: "/x/.git-authors.toml".to_string(),
        config: store,
    };
    assert_eq!(commands::copy_config(res).expect("file found"), expected);
}

#[test]
fn copy_config_without_file_is_io_error() {
    let res = Resolution::NoFile { intended: "/w/.git-authors.toml".to_string() };
    assert!(matches!(
        commands::copy_config(res),
        Err(AuthorsError::ConfigIo { .. })
    ));
}
