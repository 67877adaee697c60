use latest_version::extract::extract_version;
use latest_version::rank::{find_latest_version, strict_version};
use latest_version::search::{
    executables_or_fallback, find_latest_command, next_probe, search_dirs, version_flag, ProbeStep,
};
use latest_version::{ExecutableInfo, LatestVersionError};

fn info(path: &str, version: &str) -> ExecutableInfo {
    ExecutableInfo { path: path.to_string(), version: version.to_string() }
}

fn winner(list: &[(&str, &str)]) -> String {
    let infos = list.iter().map(|(p, v)| info(p, v)).collect();
    find_latest_version(infos).unwrap().path
}

#[test]
fn triple_taken_over_numbers_around_it() {
    assert_eq!(extract_version("gcc 9 (build 4.5) 12.2.0 patch 7"), Some("12.2.0".to_string()));
}

#[test]
fn triple_preferred_to_earlier_pair() {
    assert_eq!(extract_version("api 2.5, release 1.2.3"), Some("1.2.3".to_string()));
}

#[test]
fn leftmost_triple_wins() {
    assert_eq!(extract_version("1.2.3.4 and 5.6.7"), Some("1.2.3".to_string()));
}

#[test]
fn triple_kept_verbatim() {
    assert_eq!(extract_version("tool 007.01.2"), Some("007.01.2".to_string()));
}

#[test]
fn pair_gets_zero_patch() {
    assert_eq!(extract_version("v1.22 beta"), Some("1.22.0".to_string()));
}

#[test]
fn lone_dot_is_not_a_pair() {
    assert_eq!(extract_version("release 4. then .5"), Some("4.0.0".to_string()));
}

#[test]
fn no_digits_no_version() {
    assert_eq!(extract_version("no version here"), None);
    assert_eq!(extract_version(""), None);
}

#[test]
fn strict_reading() {
    assert_eq!(strict_version("1.2.3"), Some((1, 2, 3)));
    assert_eq!(strict_version("18446744073709551615.0.0"), Some((u64::MAX, 0, 0)));
    assert_eq!(strict_version("18446744073709551616.0.0"), None);
    assert_eq!(strict_version("01.2.3"), None);
    assert_eq!(strict_version("1.2.3-alpha"), None);
    assert_eq!(strict_version("1.2.3+build"), None);
    assert_eq!(strict_version("1.2"), None);
    assert_eq!(strict_version("1.8.0_302"), None);
}

#[test]
fn ranking_ignores_order_of_strict_versions() {
    let a = ("/a", "2.10.0");
    let b = ("/b", "2.9.9");
    let c = ("/c", "1.99.0");
    assert_eq!(winner(&[a, b, c]), "/a");
    assert_eq!(winner(&[b, c, a]), "/a");
    assert_eq!(winner(&[c, a, b]), "/a");
    assert_eq!(winner(&[c, b, a]), "/a");
}

#[test]
fn ranking_tie_keeps_first() {
    assert_eq!(winner(&[("/first", "3.1.4"), ("/second", "3.1.4")]), "/first");
    assert_eq!(winner(&[("/x", "1.0.0"), ("/first", "3.1.4"), ("/second", "3.1.4")]), "/first");
}

#[test]
fn strict_beats_non_strict() {
    assert_eq!(winner(&[("/old", "99.0.0_1"), ("/new", "1.0.0")]), "/new");
}

#[test]
fn lenient_comparison_between_non_strict() {
    assert_eq!(winner(&[("/a", "1.8.0_302"), ("/b", "1.8.0_312")]), "/b");
    assert_eq!(winner(&[("/a", "1.8.0_312"), ("/b", "1.8.0_302")]), "/a");
}

#[test]
fn ranking_empty_fails() {
    match find_latest_version(Vec::new()) {
        Err(LatestVersionError::VersionExtractionError(d)) => {
            assert_eq!(d, "No valid versions found")
        }
        other => panic!("unexpected {:?}", other),
    }
}

#[test]
fn error_messages() {
    let e = LatestVersionError::CommandNotFound("python".to_string());
    assert_eq!(e.message(), "Command not found: python");
    let e = LatestVersionError::CommandExecutionError("/bin/x".to_string(), "denied".to_string());
    assert_eq!(e.message(), "Failed to execute command /bin/x: denied");
    let e = LatestVersionError::VersionExtractionError("nothing".to_string());
    assert_eq!(e.message(), "Version extraction failed: nothing");
    let e = LatestVersionError::PathFindingError("unset".to_string());
    assert_eq!(e.message(), "Failed to find executable paths");
}

#[test]
fn search_dirs_skip_empty_segments() {
    assert_eq!(search_dirs("/usr/bin::/bin:", ':'), vec!["/usr/bin".to_string(), "/bin".to_string()]);
    assert_eq!(search_dirs("", ':'), Vec::<String>::new());
    assert_eq!(search_dirs(":::", ':'), Vec::<String>::new());
    assert_eq!(search_dirs("C:\\bin;D:\\x", ';'), vec!["C:\\bin".to_string(), "D:\\x".to_string()]);
}

#[test]
fn fallback_only_when_nothing_found() {
    let found = vec!["/a/x".to_string()];
    assert_eq!(executables_or_fallback("x", found.clone(), Some("/b/x".to_string())).unwrap(), found);
    assert_eq!(
        executables_or_fallback("x", Vec::new(), Some("/b/x".to_string())).unwrap(),
        vec!["/b/x".to_string()]
    );
    match executables_or_fallback("x", Vec::new(), None) {
        Err(LatestVersionError::CommandNotFound(c)) => assert_eq!(c, "x"),
        other => panic!("unexpected {:?}", other),
    }
}

#[test]
fn flags_in_order() {
    assert_eq!(version_flag(0), "--version");
    assert_eq!(version_flag(1), "-v");
    assert_eq!(version_flag(2), "-V");
    assert_eq!(version_flag(3), "version");
}

#[test]
fn probe_steps() {
    match next_probe("/bin/py", 0, Ok("Python 3.12.1\n".to_string())) {
        ProbeStep::Found(i) => {
            assert_eq!(i.path, "/bin/py");
            assert_eq!(i.version, "3.12.1");
        }
        _ => panic!("expected a version"),
    }
    assert!(matches!(next_probe("/bin/py", 0, Ok("usage".to_string())), ProbeStep::Retry(1)));
    assert!(matches!(next_probe("/bin/py", 1, Err("gone".to_string())), ProbeStep::Retry(2)));
    match next_probe("/bin/py", 0, Err("denied".to_string())) {
        ProbeStep::GiveUp(LatestVersionError::CommandExecutionError(p, w)) => {
            assert_eq!(p, "/bin/py");
            assert_eq!(w, "denied");
        }
        _ => panic!("expected an execution error"),
    }
    match next_probe("/bin/py", 3, Ok("usage".to_string())) {
        ProbeStep::GiveUp(LatestVersionError::VersionExtractionError(d)) => {
            assert_eq!(d, "No version information found")
        }
        _ => panic!("expected an extraction error"),
    }
}

#[test]
fn latest_command_skips_failed_probes() {
    let probed = vec![None, Some(info("/a/py", "3.9.1")), None, Some(info("/b/py", "3.12.0"))];
    let w = find_latest_command("py", probed).unwrap();
    assert_eq!(w.path, "/b/py");
    assert_eq!(w.version, "3.12.0");
}

#[test]
fn latest_command_without_versions_names_command() {
    match find_latest_command("py", vec![None, None]) {
        Err(e) => assert_eq!(
            e.message(),
            "Version extraction failed: No version information found for command 'py'"
        ),
        Ok(_) => panic!("expected an error"),
    }
}

#[test]
fn unicode_digits_count_as_digits() {
    // Arabic-Indic one, two, three, four, five.
    let one = "\u{661}";
    let two = "\u{662}";
    let three = "\u{663}";
    let triple = format!("{}.{}.{}", one, two, three);
    assert_eq!(extract_version(&triple), Some(triple.clone()));
    let with_pair = format!("{} \u{664}.\u{665}", triple);
    assert_eq!(extract_version(&with_pair), Some(triple.clone()));
    assert_eq!(extract_version(&format!("{}.{}", one, two)), Some(format!("{}.{}.0", one, two)));
    assert_eq!(extract_version(&format!("v{}", three)), Some(format!("{}.0.0", three)));
    let mixed = format!("1.{}.3", two);
    assert_eq!(extract_version(&mixed), Some(mixed.clone()));
}

#[test]
fn other_numerals_are_not_digits() {
    // Roman numeral twelve and superscript two are numbers but not decimal digits.
    assert_eq!(extract_version("release \u{216B} x\u{b2}"), None);
}

#[test]
fn unicode_digits_are_not_strict() {
    assert_eq!(strict_version("\u{661}.\u{662}.\u{663}"), None);
}
