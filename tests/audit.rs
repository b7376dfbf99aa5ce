use periodic_audit::audit::{
    vulnerable_from,
    auditor_args, enumerate_binaries, record_audit, AuditorOutput, DirEntryInfo, ListingError,
    PathKind, ProbedPath,
};
use periodic_audit::report::Report;

fn probe(path: &str, kind: PathKind) -> ProbedPath {
    ProbedPath { path: path.to_string(), kind }
}

fn dir_entry(path: &str, is_file: bool, mode: u32) -> DirEntryInfo {
    DirEntryInfo { path: path.to_string(), is_file, mode: Some(mode) }
}

fn bins(v: &[&str]) -> Vec<String> {
    v.iter().map(|s| s.to_string()).collect()
}

fn output(stdout: &str, stderr: &str) -> AuditorOutput {
    AuditorOutput {
        stdout: stdout.as_bytes().to_vec(),
        stderr: stderr.as_bytes().to_vec(),
        exit_code: Some(1),
    }
}

#[test]
fn enumerate_directory_keeps_only_executable_files() {
    let mut r = Report::new("S".to_string());
    let probes = vec![probe(
        "/d",
        PathKind::Directory(vec![
            dir_entry("/d/exe", true, 0o755),
            dir_entry("/d/data", true, 0o644),
            dir_entry("/d/sub", false, 0o755),
        ]),
    )];
    let got = enumerate_binaries(&mut r, &probes).unwrap();
    assert_eq!(got, bins(&["/d/exe"]));
    assert!(r.messages().is_empty());
    assert!(!r.failed());
}

#[test]
fn enumerate_warnings_files_and_order() {
    let mut r = Report::new("S".to_string());
    let probes = vec![
        probe("/missing", PathKind::Missing),
        probe("/x", PathKind::File),
        probe("/odd", PathKind::StatFailed("denied".to_string())),
        probe("/d", PathKind::Directory(vec![dir_entry("/d/y", true, 0o100)])),
        probe("/x", PathKind::File),
    ];
    let got = enumerate_binaries(&mut r, &probes).unwrap();
    assert_eq!(got, bins(&["/x", "/d/y", "/x"]));
    assert_eq!(
        r.messages(),
        [
            "WARNING: '/missing' does not exist; skipped.".to_string(),
            "WARNING: Failed to stat path '/odd': denied; skipped.".to_string(),
        ]
    );
}

#[test]
fn enumerate_nothing_left_warns() {
    let mut r = Report::new("S".to_string());
    let got = enumerate_binaries(&mut r, &vec![probe("/m", PathKind::Missing)]).unwrap();
    assert!(got.is_empty());
    assert_eq!(r.messages().len(), 2);
    assert_eq!(
        r.messages()[1],
        "WARNING: No existing paths to audit; cargo-audit skipped."
    );
    assert!(!r.failed());
}

#[test]
fn enumerate_listing_failure_fails_attempt() {
    let mut r = Report::new("S".to_string());
    let probes = vec![
        probe("/x", PathKind::File),
        probe("/d", PathKind::ListingFailed(ListingError::Stat("gone".to_string()))),
        probe("/m", PathKind::Missing),
    ];
    assert!(enumerate_binaries(&mut r, &probes).is_none());
    assert!(r.failed());
    assert_eq!(
        r.messages(),
        ["Error stating directory entry in '/d': gone".to_string()]
    );
}

#[test]
fn auditor_args_with_and_without_db() {
    let b = bins(&["/a", "/b"]);
    assert_eq!(
        auditor_args(None, &b),
        bins(&["audit", "--deny", "warnings", "--format", "json", "bin", "/a", "/b"])
    );
    assert_eq!(
        auditor_args(Some("/db"), &b),
        bins(&["audit", "--deny", "warnings", "--format", "json", "--db", "/db", "bin", "/a", "/b"])
    );
}

#[test]
fn record_audit_count_mismatch_adds_no_entry() {
    let mut r = Report::new("S".to_string());
    let ok = record_audit(
        &mut r,
        &bins(&["/a", "/b"]),
        "cargo-audit",
        Ok(output(r#"{"vulnerabilities":{"found":true}}"#, "")),
        false,
    );
    assert!(!ok);
    assert!(r.failed());
    assert!(r.entries().is_empty());
    assert_eq!(
        r.messages(),
        ["cargo-audit returned 1 JSON object(s) but 2 binary(ies) were audited".to_string()]
    );
}

#[test]
fn record_audit_success_correlates_by_position() {
    let mut r = Report::new("S".to_string());
    let stdout = "{\"vulnerabilities\":{\"found\":false}}\n{\"vulnerabilities\":{\"found\":true,\"count\":1}}\n";
    let ok = record_audit(
        &mut r,
        &bins(&["/a", "/b"]),
        "cargo-audit",
        Ok(output(stdout, "  warning text \n")),
        true,
    );
    assert!(ok);
    assert!(!r.failed());
    let e = r.entries();
    assert_eq!(e.len(), 2);
    assert_eq!(e[0].path, "/a");
    assert!(!e[0].vulnerable);
    assert_eq!(e[0].json, "{\"vulnerabilities\":{\"found\":false}}");
    assert_eq!(e[1].path, "/b");
    assert!(e[1].vulnerable);
    assert_ne!(e[1].json_pretty, e[1].json);
    assert!(e[1].json_pretty.contains("\n  \"vulnerabilities\": {"));
    assert!(r.vulnerable());
    assert_eq!(
        r.messages(),
        [
            "cargo-audit exited with code 1".to_string(),
            "cargo-audit stderr:\n  warning text \n".to_string(),
        ]
    );
}

#[test]
fn record_audit_missing_flag_is_not_vulnerable() {
    let mut r = Report::new("S".to_string());
    let ok = record_audit(
        &mut r,
        &bins(&["/a", "/b"]),
        "cargo-audit",
        Ok(output("{}{\"vulnerabilities\":{\"found\":\"yes\"}}", " \n")),
        false,
    );
    assert!(ok);
    assert!(!r.entries()[0].vulnerable);
    assert!(!r.entries()[1].vulnerable);
    assert!(r.messages().is_empty());
}

#[test]
fn record_audit_bad_json_adds_no_entry() {
    let mut r = Report::new("S".to_string());
    let ok = record_audit(
        &mut r,
        &bins(&["/a", "/b"]),
        "cargo-audit",
        Ok(output("{}{\"a\":}", "")),
        false,
    );
    assert!(!ok);
    assert!(r.failed());
    assert!(r.entries().is_empty());
    assert_eq!(r.messages().len(), 1);
    assert!(r.messages()[0].starts_with("Parse cargo-audit JSON output: "));
}

#[test]
fn record_audit_split_error_and_spawn_error() {
    let mut r = Report::new("S".to_string());
    assert!(!record_audit(&mut r, &bins(&["/a"]), "x", Ok(output("{", "")), false));
    assert_eq!(
        r.messages(),
        ["Split cargo-audit JSON output: Mismatched braces in JSON data.".to_string()]
    );
    let mut r = Report::new("S".to_string());
    assert!(!record_audit(&mut r, &bins(&["/a"]), "/bin/ca", Err("not found".to_string()), false));
    assert!(r.failed());
    assert_eq!(
        r.messages(),
        ["Error executing cargo-audit (/bin/ca): not found".to_string()]
    );
}

#[test]
fn record_audit_rejects_non_utf8_output() {
    let mut r = Report::new("S".to_string());
    let out = AuditorOutput { stdout: vec![0xff, 0xfe], stderr: vec![], exit_code: None };
    assert!(!record_audit(&mut r, &bins(&["/a"]), "x", Ok(out), true));
    assert!(r.failed());
    assert_eq!(r.messages().len(), 1);
    assert!(r.messages()[0].starts_with("Parse cargo-audit stdout as UTF-8: "));
}

#[test]
fn record_audit_signal_exit_message() {
    let mut r = Report::new("S".to_string());
    let out = AuditorOutput { stdout: b"{}".to_vec(), stderr: vec![], exit_code: None };
    assert!(record_audit(&mut r, &bins(&["/a"]), "x", Ok(out), true));
    assert_eq!(r.messages(), ["cargo-audit exited due to signal".to_string()]);
    let mut r = Report::new("S".to_string());
    let out = AuditorOutput { stdout: b"{}".to_vec(), stderr: vec![], exit_code: Some(-3) };
    assert!(record_audit(&mut r, &bins(&["/a"]), "x", Ok(out), true));
    assert_eq!(r.messages(), ["cargo-audit exited with code -3".to_string()]);
}

#[test]
fn enumerate_listing_open_and_entry_failures() {
    let mut r = Report::new("S".to_string());
    let probes = vec![probe("/d", PathKind::ListingFailed(ListingError::Open("denied".to_string())))];
    assert!(enumerate_binaries(&mut r, &probes).is_none());
    assert_eq!(r.messages(), ["Error reading directory '/d': denied".to_string()]);
    let mut r = Report::new("S".to_string());
    let probes = vec![
        probe("/m", PathKind::Missing),
        probe("/e", PathKind::ListingFailed(ListingError::Entry("io".to_string()))),
    ];
    assert!(enumerate_binaries(&mut r, &probes).is_none());
    assert!(r.failed());
    assert_eq!(
        r.messages(),
        [
            "WARNING: '/m' does not exist; skipped.".to_string(),
            "Error reading directory entry in '/e': io".to_string(),
        ]
    );
}

#[test]
fn enumerate_without_permission_bits_keeps_regular_files() {
    let mut r = Report::new("S".to_string());
    let probes = vec![probe(
        "/d",
        PathKind::Directory(vec![
            DirEntryInfo { path: "/d/a".to_string(), is_file: true, mode: None },
            DirEntryInfo { path: "/d/s".to_string(), is_file: false, mode: None },
        ]),
    )];
    assert_eq!(enumerate_binaries(&mut r, &probes).unwrap(), bins(&["/d/a"]));
}

#[test]
fn record_audit_rejects_non_utf8_stderr() {
    let mut r = Report::new("S".to_string());
    let out = AuditorOutput { stdout: b"{}".to_vec(), stderr: vec![0xc3], exit_code: Some(0) };
    assert!(!record_audit(&mut r, &bins(&["/a"]), "x", Ok(out), false));
    assert!(r.failed());
    assert!(r.entries().is_empty());
    assert_eq!(r.messages().len(), 1);
    assert!(r.messages()[0].starts_with("Parse cargo-audit stderr as UTF-8: "));
}

#[test]
fn vulnerable_only_when_found_is_true() {
    assert!(vulnerable_from(Some(true)));
    assert!(!vulnerable_from(Some(false)));
    assert!(!vulnerable_from(None));
}

#[test]
fn record_audit_single_executable_succeeds() {
    let mut r = Report::new("S".to_string());
    let probes = vec![probe(
        "/d",
        PathKind::Directory(vec![
            dir_entry("/d/x", true, 0o755),
            dir_entry("/d/y", true, 0o644),
            dir_entry("/d/sub", false, 0o755),
        ]),
    )];
    let b = enumerate_binaries(&mut r, &probes).unwrap();
    assert_eq!(b, bins(&["/d/x"]));
    assert!(record_audit(&mut r, &b, "x", Ok(output("{\"vulnerabilities\":{\"found\":false}}", "")), false));
    assert!(!r.failed());
    assert_eq!(r.entries().len(), 1);
    assert_eq!(r.entries()[0].path, "/d/x");
    assert!(r.messages().is_empty());
}
