use contain::config::ContainConfig;
use contain::error::ContainError;
use contain::lists::{select_in_schemes, select_known, sort_dedup};
use contain::runner::{list_schemes, run_contained, run_not_contained};
use contain::runner::validate_config as validate_config_with;
use contain::runner::SchemeEntry;
use contain::text::{holds, lies_in_scheme, lies_in_some_scheme, precedes};

fn list(items: &[&str]) -> Vec<String> {
    items.iter().map(|s| s.to_string()).collect()
}

fn config() -> ContainConfig {
    ContainConfig {
        pass_schemes: list(&["rand", "null", "rand", "gone"]),
        sandbox_schemes: list(&["file", "tcp", "file", "lost"]),
        files: list(&["tcp:x", "file:/b", "file:/a", "file:/b", "lost:/c", "null:"]),
        dirs: list(&["file:/z", "filet:/y"]),
        rofiles: list(&["/plain", "file"]),
        rodirs: list(&["tcp:", "file:", "tcp:"]),
        root: None,
    }
}

/// An error with more to it than a number.
type Failure = (&'static str, String);

fn failure(kind: &'static str) -> Failure {
    (kind, format!("{}: nul byte found in provided data", kind))
}

fn validate_config(
    config: ContainConfig,
    schemes: &Vec<String>,
) -> Result<ContainConfig, ContainError<Failure>> {
    validate_config_with(config, schemes)
}

fn schemes() -> Vec<String> {
    list(&["null", "file", "rand", "tcp", "event"])
}

#[test]
fn validation_sorts_dedups_and_drops() {
    let out = validate_config(config(), &schemes()).unwrap();
    assert_eq!(out.pass_schemes, list(&["null", "rand"]));
    assert_eq!(out.sandbox_schemes, list(&["file", "tcp"]));
    assert_eq!(out.files, list(&["file:/a", "file:/b", "tcp:x"]));
    assert_eq!(out.dirs, list(&["file:/z"]));
    assert_eq!(out.rofiles, list(&[]));
    assert_eq!(out.rodirs, list(&["file:", "tcp:"]));
    assert_eq!(out.root, None);
}

#[test]
fn validation_agrees_with_std() {
    let items = list(&["b", "a", "\u{e9}", "e", "", "b", "aa", "\u{10000}", "\u{ffff}", "Z", "a"]);
    let mut expected = items.clone();
    expected.sort();
    expected.dedup();
    assert_eq!(sort_dedup(&items), expected);
    for a in items.iter() {
        for b in items.iter() {
            assert_eq!(precedes(a, b), a < b);
        }
    }
}

#[test]
fn prefixes_agree_with_std() {
    let paths = list(&["file:/a", "file:", "file", "fil", "", ":", "\u{e9}:x", "e:x", "file::"]);
    let names = list(&["file", "", "fil", "\u{e9}", "e", "file:", "files"]);
    for path in paths.iter() {
        for name in names.iter() {
            assert_eq!(lies_in_scheme(path, name), path.starts_with(&format!("{}:", name)));
        }
    }
}

#[test]
fn validation_is_idempotent() {
    let once = validate_config(config(), &schemes()).unwrap();
    let again = validate_config(config(), &schemes()).unwrap();
    let twice = validate_config(again, &schemes()).unwrap();
    assert_eq!(once, twice);
}

#[test]
fn validation_ignores_order() {
    let mut other = config();
    other.pass_schemes.reverse();
    other.sandbox_schemes.reverse();
    other.files.reverse();
    other.files.push("file:/a".to_string());
    other.dirs.reverse();
    let mut known = schemes();
    known.reverse();
    assert_eq!(
        validate_config(other, &known).unwrap(),
        validate_config(config(), &schemes()).unwrap()
    );
}

#[test]
fn validation_only_removes() {
    let before = config();
    let out = validate_config(config(), &schemes()).unwrap();
    assert!(out.files.iter().all(|f| before.files.contains(f)));
    assert!(out.rodirs.iter().all(|d| before.rodirs.contains(d)));
    assert!(out.pass_schemes.iter().all(|s| before.pass_schemes.contains(s)));
}

#[test]
fn validated_paths_are_sandboxed() {
    let mut with_root = config();
    with_root.root = Some("file:/home".to_string());
    let out = validate_config(with_root, &schemes()).unwrap();
    assert_eq!(out.root, Some("file:/home".to_string()));
    assert!(lies_in_some_scheme(out.root.as_ref().unwrap(), &out.sandbox_schemes));
    assert!(out.files.iter().all(|f| lies_in_some_scheme(f, &out.sandbox_schemes)));
}

#[test]
fn root_outside_the_sandbox_is_an_error() {
    for root in ["null:/x", "lost:/x", "file", "/file:"] {
        let mut with_root = config();
        with_root.root = Some(root.to_string());
        assert_eq!(validate_config(with_root, &schemes()), Err(ContainError::ConfigError));
    }
}

#[test]
fn nothing_is_known_without_schemes() {
    let out = validate_config(config(), &vec![]).unwrap();
    assert!(out.pass_schemes.is_empty());
    assert!(out.sandbox_schemes.is_empty());
    assert!(out.files.is_empty());
    assert!(out.rodirs.is_empty());
}

#[test]
fn selections() {
    let known = list(&["a", "b"]);
    assert!(holds(&known, &"b".to_string()));
    assert!(!holds(&known, &"c".to_string()));
    assert_eq!(select_known(&list(&["c", "b", "a", "b"]), &known), list(&["a", "b"]));
    assert_eq!(select_in_schemes(&list(&["c:", "b:2", "b:1"]), &known), list(&["b:1", "b:2"]));
}

#[test]
fn scheme_names_are_listed_in_order() {
    let entries = vec![
        SchemeEntry::Name("tcp".to_string()),
        SchemeEntry::Unreadable,
        SchemeEntry::Name("file".to_string()),
    ];
    assert_eq!(list_schemes::<Failure>(Ok(entries)), Ok(list(&["tcp", "file"])));
    assert_eq!(list_schemes::<Failure>(Ok(vec![])), Ok(vec![]));
}

#[test]
fn the_first_failure_ends_the_listing() {
    let entries = vec![
        SchemeEntry::Name("tcp".to_string()),
        SchemeEntry::Failed(failure("first")),
        SchemeEntry::Unreadable,
        SchemeEntry::Failed(failure("later")),
    ];
    assert_eq!(list_schemes(Ok(entries)), Err(ContainError::IoError(failure("first"))));
    assert_eq!(list_schemes(Err(failure("whole"))), Err(ContainError::IoError(failure("whole"))));
}

#[test]
fn a_contained_run_starts_from_the_validated_configuration() {
    let entries: Vec<SchemeEntry<Failure>> =
        schemes().into_iter().map(|name| SchemeEntry::Name(name)).collect();
    assert_eq!(run_contained(config(), Ok(entries)), validate_config(config(), &schemes()));
    assert_eq!(
        run_contained(config(), Err(failure("listing"))),
        Err(ContainError::IoError(failure("listing")))
    );
    let mut with_root = config();
    with_root.root = Some("file:/".to_string());
    assert_eq!(run_contained::<Failure>(with_root, Ok(vec![])), Err(ContainError::ConfigError));
}

#[test]
fn plain_runs_report_the_exit_code() {
    assert_eq!(run_not_contained::<Failure>(Ok(Some(0))), Ok(0));
    assert_eq!(run_not_contained::<Failure>(Ok(Some(42))), Ok(42));
    assert_eq!(run_not_contained::<Failure>(Ok(None)), Ok(1));
    assert_eq!(
        run_not_contained(Err(failure("spawn"))),
        Err(ContainError::IoError(failure("spawn")))
    );
}

#[test]
fn errors_of_the_standard_library_are_kept_whole() {
    let kind = std::io::ErrorKind::InvalidInput;
    let error = std::io::Error::new(kind, "nul byte found in provided data");
    match run_not_contained(Err(error)) {
        Err(ContainError::IoError(e)) => {
            assert_eq!(e.kind(), kind);
            assert_eq!(e.raw_os_error(), None);
            assert_eq!(e.to_string(), "nul byte found in provided data");
        }
        other => panic!("{:?}", other),
    }
}

#[test]
fn validation_is_monotone() {
    let fewer = validate_config(config(), &list(&["file", "rand"])).unwrap();
    let more = validate_config(config(), &schemes()).unwrap();
    assert_eq!(fewer.pass_schemes, list(&["rand"]));
    assert_eq!(fewer.sandbox_schemes, list(&["file"]));
    assert_eq!(fewer.files, list(&["file:/a", "file:/b"]));
    assert_eq!(fewer.rodirs, list(&["file:"]));
    assert!(fewer.pass_schemes.iter().all(|t| more.pass_schemes.contains(t)));
    assert!(fewer.sandbox_schemes.iter().all(|t| more.sandbox_schemes.contains(t)));
    assert!(fewer.files.iter().all(|t| more.files.contains(t)));
    assert!(fewer.dirs.iter().all(|t| more.dirs.contains(t)));
    assert!(fewer.rodirs.iter().all(|t| more.rodirs.contains(t)));
    for known in [list(&["file"]), schemes()] {
        let mut with_root = config();
        with_root.root = Some("file:/home".to_string());
        assert!(validate_config(with_root, &known).is_ok());
    }
}

#[test]
fn passed_schemes_stand_alone() {
    let mut other = config();
    other.pass_schemes = list(&["tcp", "event", "file"]);
    let mut out = validate_config(other, &schemes()).unwrap();
    assert_eq!(out.pass_schemes, list(&["event", "file", "tcp"]));
    out.pass_schemes = list(&["null", "rand"]);
    assert_eq!(Ok(out), validate_config(config(), &schemes()));
}
