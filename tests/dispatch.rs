use periodic_audit::config::{
    Config, ConfigCargoAudit, ConfigReportCommand, ConfigReportFile, ConfigReportMail, ConfigWatch,
};
use periodic_audit::dispatch::{
    enabled_channels, file_payload, mail_subject, overall_success, Channel, PoolAction, SendPool,
};
use periodic_audit::report::{Report, ReportEntry};

fn entry(vulnerable: bool) -> ReportEntry {
    ReportEntry {
        path: "/bin/a".to_string(),
        vulnerable,
        json: "{}".to_string(),
        json_pretty: "{}".to_string(),
    }
}

#[test]
fn subject_prefix_by_outcome() {
    let mut r = Report::new("S".to_string());
    assert_eq!(mail_subject(&r, "subj"), "subj");
    r.add(entry(true));
    assert_eq!(mail_subject(&r, "subj"), "[VULNERABILITIES FOUND] subj");
    let f = r.fail("x".to_string());
    assert_eq!(mail_subject(&f, "subj"), "[AUDIT FAILED] subj");
}

#[test]
fn file_payload_appends_separator() {
    assert_eq!(
        file_payload("text"),
        "text\n\n\n==========================================================\n\n"
    );
}

fn config(mail: Option<bool>, file: Option<bool>, command: Option<bool>) -> Config {
    Config {
        watch: ConfigWatch { paths: vec!["/foo".to_string()] },
        cargo_audit: ConfigCargoAudit {
            exe: "/usr/bin/cargo-audit".to_string(),
            debug: None,
            tries: None,
            db: None,
        },
        report_mail: mail.map(|d| ConfigReportMail {
            disabled: Some(d),
            relay: None,
            subject: "s".to_string(),
            from: "a@example.com".to_string(),
            to: vec![],
            max_concurrency: None,
        }),
        report_file: file.map(|d| ConfigReportFile {
            disabled: Some(d),
            append: None,
            path: "/tmp/r".to_string(),
        }),
        report_command: command.map(|d| ConfigReportCommand { disabled: Some(d), exe: "/bin/cat".to_string() }),
    }
}

#[test]
fn channels_enabled_when_present_and_not_disabled() {
    assert_eq!(enabled_channels(&config(None, None, None)), vec![]);
    assert_eq!(
        enabled_channels(&config(Some(false), Some(false), Some(false))),
        vec![Channel::Mail, Channel::File, Channel::Command]
    );
    assert_eq!(
        enabled_channels(&config(Some(true), Some(false), Some(true))),
        vec![Channel::File]
    );
}

#[test]
fn overall_success_needs_every_channel() {
    let r = Report::new("S".to_string());
    assert!(overall_success(&r, &vec![]));
    assert!(overall_success(&r, &vec![true, true]));
    assert!(!overall_success(&r, &vec![true, false]));
    let f = r.fail("x".to_string());
    assert!(!overall_success(&f, &vec![true]));
}

#[test]
fn mail_zero_recipients_sends_nothing() {
    let mut p = SendPool::new(0, 1);
    assert_eq!(p.next(), PoolAction::Done(true));
    assert_eq!(p.in_flight(), 0);
}

/// Drives a pool with a transport whose sends complete only after every
/// startable send has been started, and records the largest number in
/// flight.
fn drive(total: usize, limit: usize, fail: &[usize]) -> (usize, Vec<usize>, bool) {
    let mut p = SendPool::new(total, limit);
    let mut in_flight: Vec<usize> = Vec::new();
    let mut order = Vec::new();
    let mut peak = 0;
    loop {
        match p.next() {
            PoolAction::Start(i) => {
                in_flight.push(i);
                order.push(i);
                peak = peak.max(in_flight.len());
                assert!(p.in_flight() <= limit);
            }
            PoolAction::Wait => {
                let done = in_flight.remove(0);
                p.complete(!fail.contains(&done));
            }
            PoolAction::Done(ok) => {
                assert!(in_flight.is_empty());
                assert_eq!(order, (0..total).collect::<Vec<_>>());
                return (peak, order, ok);
            }
        }
    }
}

#[test]
fn mail_concurrency_never_exceeds_limit() {
    assert_eq!(drive(10, 3, &[]).0, 3);
    assert_eq!(drive(10, 1, &[]).0, 1);
    assert_eq!(drive(2, 4, &[]).0, 2);
    assert!(drive(5, 2, &[]).2);
    assert!(!drive(5, 2, &[3]).2);
}
