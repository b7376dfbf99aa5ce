use periodic_audit::report::{Report, ReportEntry};

fn entry(path: &str, vulnerable: bool) -> ReportEntry {
    ReportEntry {
        path: path.to_string(),
        vulnerable,
        json: "{}".to_string(),
        json_pretty: format!("{{\n  \"path\": \"{path}\"\n}}"),
    }
}

#[test]
fn report_vulnerable_iff_some_entry_is() {
    let mut r = Report::new("T".to_string());
    assert!(!r.vulnerable());
    r.add(entry("/bin/a", false));
    assert!(!r.vulnerable());
    r.add(entry("/bin/b", true));
    assert!(r.vulnerable());
    r.add(entry("/bin/c", false));
    assert!(r.vulnerable());
}

#[test]
fn report_new_is_empty() {
    let r = Report::new("2026-01-01T00:00:00+00:00".to_string());
    assert!(r.entries().is_empty());
    assert!(r.messages().is_empty());
    assert!(!r.failed());
    assert!(!r.vulnerable());
}

#[test]
fn report_render_normal() {
    let mut r = Report::new("2026-01-01T00:00:00+00:00".to_string());
    r.add(entry("/bin/a", false));
    r.add(entry("/bin/b", true));
    r.add_message("note".to_string());
    let expected = "[2026-01-01T00:00:00+00:00] Audit results:\n  /bin/a: Ok\n  /bin/b: VULNERABLE\n\nnote\n\n\n/bin/b:\n{\n  \"path\": \"/bin/b\"\n}\n";
    assert_eq!(r.render(), expected);
}

#[test]
fn report_render_failed_omits_entries_and_details() {
    let mut r = Report::new("S".to_string());
    r.add(entry("/bin/b", true));
    r.add_message("first".to_string());
    let f = r.fail("broken".to_string());
    assert!(f.failed());
    assert!(!r.failed());
    assert_eq!(f.entries(), r.entries());
    assert_eq!(f.messages(), ["first".to_string(), "broken".to_string()]);
    assert_eq!(f.render(), "[S] Audit FAILED.\nfirst\nbroken\n");
}

#[test]
fn report_render_empty() {
    let r = Report::new("S".to_string());
    assert_eq!(r.render(), "[S] Audit results:\n\n");
}
