use edge_runtime::tarball::{
    check_tarball_checksum, is_within, plan_entry, same_path, verify_tarball_integrity,
    CreatedDirs, DistIntegrity, EntryAction, IntegrityError, RenameAction, RenameAttempt,
    RenameRetries, TarEntryKind, TarballExtractionMode,
};

const DATA: &[u8] = b"hello world";
const SHA512_B64: &str =
    "MJ7MSJwS1utMxA9QyQLytNDtd+5RGnx6m808qG1M2G+YndNbxf9JlnDaNCVbRbDP2DDoH2Bdz33FVC6TrpzXbw==";
const SHA1_B64: &str = "Kq5sNclPz7QV2+lfQIuc6R7oRu0=";
const SHA1_HEX: &str = "2aae6c35c94fcfb415dbe95f408b9ce91ee846ed";

fn integrity(algorithm: &str, hash: &str) -> DistIntegrity {
    DistIntegrity::Integrity { algorithm: algorithm.to_string(), base64_hash: hash.to_string() }
}

fn path(parts: &[&str]) -> Vec<String> {
    parts.iter().map(|s| s.to_string()).collect()
}

#[test]
fn sha512_integrity_matches() {
    assert!(verify_tarball_integrity("pkg@1.0.0", DATA, &integrity("sha512", SHA512_B64)).is_ok());
}

#[test]
fn sha1_integrity_matches() {
    assert!(verify_tarball_integrity("pkg@1.0.0", DATA, &integrity("sha1", SHA1_B64)).is_ok());
}

#[test]
fn legacy_hex_integrity_matches() {
    let i = DistIntegrity::LegacySha1Hex(SHA1_HEX.to_string());
    assert!(verify_tarball_integrity("pkg@1.0.0", DATA, &i).is_ok());
}

#[test]
fn checksum_mismatch_reports_both() {
    match verify_tarball_integrity("pkg@1.0.0", b"other", &integrity("sha1", SHA1_B64)) {
        Err(IntegrityError::ChecksumMismatch { package, expected, actual }) => {
            assert_eq!(package, "pkg@1.0.0");
            assert_eq!(expected, SHA1_B64);
            assert_ne!(actual, SHA1_B64);
        }
        _ => panic!("expected a checksum mismatch"),
    }
}

#[test]
fn legacy_hex_mismatch_gives_hex_actual() {
    let i = DistIntegrity::LegacySha1Hex("00".to_string());
    match verify_tarball_integrity("p", DATA, &i) {
        Err(IntegrityError::ChecksumMismatch { actual, .. }) => assert_eq!(actual, SHA1_HEX),
        _ => panic!("expected a checksum mismatch"),
    }
}

#[test]
fn sha512_mismatch_gives_base64_actual() {
    match verify_tarball_integrity("p", DATA, &integrity("sha512", "x")) {
        Err(IntegrityError::ChecksumMismatch { actual, .. }) => assert_eq!(actual, SHA512_B64),
        _ => panic!("expected a checksum mismatch"),
    }
}

#[test]
fn unknown_hash_function_refused() {
    match verify_tarball_integrity("p", DATA, &integrity("md5", "abc")) {
        Err(IntegrityError::UnsupportedHashFunction { package, hash_kind }) => {
            assert_eq!(package, "p");
            assert_eq!(hash_kind, "md5");
        }
        _ => panic!("expected an unsupported hash function"),
    }
    // algorithm names are case sensitive
    assert!(matches!(
        verify_tarball_integrity("p", DATA, &integrity("SHA512", SHA512_B64)),
        Err(IntegrityError::UnsupportedHashFunction { .. })
    ));
}

#[test]
fn unknown_integrity_refused() {
    let i = DistIntegrity::UnknownIntegrity("nodash".to_string());
    match verify_tarball_integrity("p", DATA, &i) {
        Err(IntegrityError::UnsupportedIntegrityKind { package, integrity }) => {
            assert_eq!(package, "p");
            assert_eq!(integrity, "nodash");
        }
        _ => panic!("expected an unsupported integrity"),
    }
}

#[test]
fn checksum_compare_is_exact() {
    assert!(check_tarball_checksum("p", "abc".to_string(), "abc").is_ok());
    assert!(check_tarball_checksum("p", "abc".to_string(), "abd").is_err());
    assert!(check_tarball_checksum("p", "abc".to_string(), "abc ").is_err());
}

#[test]
fn extraction_mode_temp_dir() {
    assert!(TarballExtractionMode::SiblingTempDir.uses_temp_dir());
    assert!(!TarballExtractionMode::Overwrite.uses_temp_dir());
}

#[test]
fn rename_retries_then_gives_up() {
    let mut r = RenameRetries::new();
    let mut sleeps = vec![];
    loop {
        match r.next(RenameAttempt::Failed) {
            RenameAction::RetryAfter { sleep_ms } => sleeps.push(sleep_ms),
            RenameAction::CleanupAndFail => break,
            other => panic!("unexpected {:?}", other),
        }
    }
    assert_eq!(sleeps, vec![20, 40, 60, 80, 100]);
}

#[test]
fn rename_success_and_existing_destination() {
    let mut r = RenameRetries::new();
    assert_eq!(r.next(RenameAttempt::Failed), RenameAction::RetryAfter { sleep_ms: 20 });
    assert_eq!(r.next(RenameAttempt::Renamed), RenameAction::Done);
    let mut r = RenameRetries::new();
    assert_eq!(r.next(RenameAttempt::DestinationExists), RenameAction::CleanupAndSucceed);
}

#[test]
fn plan_file_entry_drops_first_component() {
    let out = path(&["/", "cache", "pkg"]);
    let p = plan_entry(&out, &path(&["package", "lib", "index.js"]), TarEntryKind::Regular).unwrap();
    assert_eq!(p.absolute, path(&["/", "cache", "pkg", "lib", "index.js"]));
    assert_eq!(p.dir, path(&["/", "cache", "pkg", "lib"]));
    assert_eq!(p.action, EntryAction::Unpack);
}

#[test]
fn plan_directory_and_links() {
    let out = path(&["/", "o"]);
    let d = plan_entry(&out, &path(&["package", "src"]), TarEntryKind::Directory).unwrap();
    assert_eq!(d.dir, path(&["/", "o", "src"]));
    assert_eq!(d.action, EntryAction::Ignore);
    let l = plan_entry(&out, &path(&["package", "a"]), TarEntryKind::Symlink).unwrap();
    assert_eq!(l.action, EntryAction::WarnLink);
    let h = plan_entry(&out, &path(&["package", "b"]), TarEntryKind::Link).unwrap();
    assert_eq!(h.action, EntryAction::WarnLink);
    let x = plan_entry(&out, &path(&["package", "c"]), TarEntryKind::Other).unwrap();
    assert_eq!(x.action, EntryAction::Ignore);
    assert!(plan_entry(&out, &path(&["pax_global_header"]), TarEntryKind::XGlobalHeader).is_none());
}

#[test]
fn plan_top_level_file_lands_beside_output() {
    // a file entry with a single component maps onto the output folder
    // itself, whose parent lies outside it
    let out = path(&["/", "o"]);
    let p = plan_entry(&out, &path(&["package"]), TarEntryKind::Regular).unwrap();
    assert_eq!(p.absolute, out);
    assert_eq!(p.dir, path(&["/"]));
    assert!(!is_within(&p.dir, &out));
}

#[test]
fn within_checks_components() {
    let root = path(&["/", "out"]);
    assert!(is_within(&path(&["/", "out"]), &root));
    assert!(is_within(&path(&["/", "out", "a"]), &root));
    assert!(!is_within(&path(&["/", "outside"]), &root));
    assert!(!is_within(&path(&["/"]), &root));
    assert!(!is_within(&path(&["/", "etc", "passwd"]), &root));
}

#[test]
fn created_dirs_reports_new_once() {
    let mut dirs = CreatedDirs::new();
    assert!(dirs.insert(path(&["/", "a"])));
    assert!(dirs.insert(path(&["/", "b"])));
    assert!(!dirs.insert(path(&["/", "a"])));
    assert!(same_path(&path(&["x", "y"]), &path(&["x", "y"])));
    assert!(!same_path(&path(&["x", "y"]), &path(&["x"])));
}

use edge_runtime::tarball::{dist_integrity, verify_dist_tarball, DistInfo};

fn dist(shasum: &str, integrity: Option<&str>) -> DistInfo {
    DistInfo { shasum: shasum.to_string(), integrity: integrity.map(|s| s.to_string()) }
}

#[test]
fn dist_integrity_splits_at_first_dash() {
    match dist_integrity(&dist("abc", Some("sha512-AB-CD=="))) {
        DistIntegrity::Integrity { algorithm, base64_hash } => {
            assert_eq!(algorithm, "sha512");
            assert_eq!(base64_hash, "AB-CD==");
        }
        _ => panic!("expected an integrity"),
    }
    match dist_integrity(&dist("abc", Some("-x"))) {
        DistIntegrity::Integrity { algorithm, base64_hash } => {
            assert_eq!(algorithm, "");
            assert_eq!(base64_hash, "x");
        }
        _ => panic!("expected an integrity"),
    }
}

#[test]
fn dist_integrity_without_dash_or_string() {
    assert!(matches!(
        dist_integrity(&dist("abc", Some("nodash"))),
        DistIntegrity::UnknownIntegrity(s) if s == "nodash"
    ));
    assert!(matches!(
        dist_integrity(&dist("abc", None)),
        DistIntegrity::LegacySha1Hex(s) if s == "abc"
    ));
}

#[test]
fn dist_tarball_checks() {
    let sha512 = format!("sha512-{}", SHA512_B64);
    assert!(verify_dist_tarball("p", DATA, &dist("", Some(&sha512))).is_ok());
    assert!(verify_dist_tarball("p", DATA, &dist(SHA1_HEX, None)).is_ok());
    assert!(matches!(
        verify_dist_tarball("p", b"x", &dist(SHA1_HEX, None)),
        Err(IntegrityError::ChecksumMismatch { .. })
    ));
    assert!(matches!(
        verify_dist_tarball("p", DATA, &dist(SHA1_HEX, Some("nodash"))),
        Err(IntegrityError::UnsupportedIntegrityKind { .. })
    ));
}
