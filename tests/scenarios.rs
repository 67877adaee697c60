use latest_version::extract::extract_version;
use latest_version::rank::find_latest_version;
use latest_version::ExecutableInfo;

fn info(path: &str, version: &str) -> ExecutableInfo {
    ExecutableInfo { path: path.to_string(), version: version.to_string() }
}

#[test]
fn lib_test_semantic_version_parsing() {
    let output = "Python 3.11.4";
    let version = extract_version(output);
    assert_eq!(version, Some("3.11.4".to_string()));
}

#[test]
fn lib_test_major_minor_version_parsing() {
    let output = "Node.js v18.16.0";
    let version = extract_version(output);
    assert_eq!(version, Some("18.16.0".to_string()));
}

#[test]
fn lib_test_major_version_parsing() {
    let output = "Git version 2";
    let version = extract_version(output);
    assert_eq!(version, Some("2.0.0".to_string()));
}

#[test]
fn lib_test_version_comparison() {
    let info1 = info("/usr/bin/python3", "3.10.0");
    let info2 = info("/usr/local/bin/python3", "3.11.0");
    let latest = find_latest_version(vec![info1, info2]).unwrap();
    assert_eq!(latest.path, "/usr/local/bin/python3");
    assert_eq!(latest.version, "3.11.0");
}

#[test]
fn lib_test_fallback_version_comparison() {
    let info1 = info("/usr/bin/java", "1.8.0_302");
    let info2 = info("/usr/local/bin/java", "11.0.16");
    let latest = find_latest_version(vec![info1, info2]).unwrap();
    assert_eq!(latest.path, "/usr/local/bin/java");
    assert_eq!(latest.version, "11.0.16");
}

#[test]
fn tests_test_semantic_version_parsing() {
    let output = "Python 3.11.4";
    let version = extract_version(output);
    assert_eq!(version, Some("3.11.4".to_string()));
}

#[test]
fn tests_test_major_minor_version_parsing() {
    let output = "Node.js v18.16.0";
    let version = extract_version(output);
    assert_eq!(version, Some("18.16.0".to_string()));
}

#[test]
fn tests_test_major_version_parsing() {
    let output = "Git version 2";
    let version = extract_version(output);
    assert_eq!(version, Some("2.0.0".to_string()));
}

#[test]
fn tests_test_version_comparison() {
    let info1 = info("/usr/bin/python3", "3.10.0");
    let info2 = info("/usr/local/bin/python3", "3.11.0");
    let latest = find_latest_version(vec![info1, info2]).unwrap();
    assert_eq!(latest.path, "/usr/local/bin/python3");
    assert_eq!(latest.version, "3.11.0");
}

#[test]
fn tests_test_fallback_version_comparison() {
    let info1 = info("/usr/bin/java", "1.8.0_302");
    let info2 = info("/usr/local/bin/java", "11.0.16");
    let latest = find_latest_version(vec![info1, info2]).unwrap();
    assert_eq!(latest.path, "/usr/local/bin/java");
    assert_eq!(latest.version, "11.0.16");
}
