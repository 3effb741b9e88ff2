use tagcm::cmd::update::{find_latest_version, update_available, DownloadBinary, Semver};

#[test]
fn test_semver_greater() {
    let v1 = Semver::new("v0.1.0").unwrap();
    let v2 = Semver::new("v0.1.1").unwrap();
    let v3 = Semver::new("v0.2.0").unwrap();
    let v4 = Semver::new("v1.0.0").unwrap();

    assert!(v1 < v2);
    assert!(v2 < v3);
    assert!(v3 < v4);
    assert!(v1 < v4);
}

#[test]
fn test_semver_is_same() {
    let v1 = Semver::new("v0.1.0").unwrap();
    let v2 = Semver::new("v0.1.0").unwrap();
    assert!(v1 == v2);

    let v3 = Semver::new("v0.1.1").unwrap();
    assert!(v1 != v3);
}

#[test]
fn test_semver_invalid() {
    let v1 = Semver::new("v0.1").unwrap_err();
    let v2 = Semver::new("v0.1.0.0").unwrap_err();
    let v3 = Semver::new("v0.").unwrap_err();
    let v4 = Semver::new("va.b.c").unwrap_err();

    assert_eq!(v1.message(), "invalid version");
    assert_eq!(v2.message(), "invalid version");
    assert_eq!(v3.message(), "invalid version");

    assert_eq!(v4.message(), "invalid version digits");
}

#[test]
fn test_semver_fields() {
    let v = Semver::new("v10.2.33").unwrap();
    assert_eq!(v.major, 10);
    assert_eq!(v.minor, 2);
    assert_eq!(v.patch, 33);
}

#[test]
fn test_semver_without_marker() {
    let v = Semver::new("1.2.3").unwrap();
    assert_eq!(v, Semver { major: 1, minor: 2, patch: 3 });
}

#[test]
fn test_semver_overflow_is_invalid() {
    let e = Semver::new("v1.2.99999999999999999999").unwrap_err();
    assert_eq!(e.message(), "invalid version digits");
}

#[test]
fn test_version_string() {
    let v = Semver::new("v10.0.3").unwrap();
    assert_eq!(v.version_string(), "v10.0.3");
}

#[test]
fn test_download_binary() {
    DownloadBinary::new("linux", "x86_64").unwrap();
}

#[test]
fn test_download_binary_names() {
    let d = DownloadBinary::new("macos", "aarch64").unwrap();
    assert_eq!(d.get_url(), "tagcm-aarch64-apple-darwin.tar.gz");
    assert_eq!(d.get_binary_name(), "tagcm-aarch64-apple-darwin");

    let d = DownloadBinary::new("linux", "x86_64").unwrap();
    assert_eq!(d.get_url(), "tagcm-x86_64-unknown-linux-gnu.tar.gz");
    assert_eq!(d.get_binary_name(), "tagcm-x86_64-unknown-linux-gnu");

    let d = DownloadBinary::new("windows", "x86_64").unwrap();
    assert_eq!(d.get_url(), "tagcm-x86_64-pc-windows-msvc.exe.tar.gz");
    assert_eq!(d.get_binary_name(), "tagcm-x86_64-pc-windows-msvc");

    assert!(DownloadBinary::new("plan9", "x86_64").is_err());
}

#[test]
fn test_find_latest_version() {
    let text = "{\"tag_name\": \"v1.2.3\", \"name\": \"release v1.2.3\"}";
    let v = find_latest_version(text).unwrap();
    assert_eq!(v, Semver { major: 1, minor: 2, patch: 3 });
}

#[test]
fn test_find_latest_version_picks_first_marker() {
    let v = find_latest_version("old v0.9.1, new v1.0.0").unwrap();
    assert_eq!(v, Semver { major: 0, minor: 9, patch: 1 });
}

#[test]
fn test_find_latest_version_none_without_marker() {
    assert!(find_latest_version("no version marker here").is_none());
}

#[test]
fn test_update_available() {
    let current = Semver::new("v0.1.0").unwrap();
    let latest = Semver::new("v0.2.0").unwrap();
    assert!(update_available(&current, &latest));
    assert!(!update_available(&latest, &current));
    assert!(!update_available(&current, &current));
}
