use periodic_audit::config::{
    Config, ConfigCargoAudit, ConfigReportCommand, ConfigReportFile, ConfigReportMail, ConfigWatch,
    Opts,
};

#[test]
fn config_defaults() {
    let ca = ConfigCargoAudit { exe: "/usr/bin/cargo-audit".to_string(), debug: None, tries: None, db: None };
    assert_eq!(ca.exe(), "/usr/bin/cargo-audit");
    assert!(!ca.debug());
    assert_eq!(ca.tries(), 5);
    assert!(ca.db().is_none());
    let rm = ConfigReportMail {
        disabled: None,
        relay: None,
        subject: "full subj".to_string(),
        from: "noreply@example.com".to_string(),
        to: vec!["one@example.com".to_string()],
        max_concurrency: None,
    };
    assert!(!rm.disabled());
    assert_eq!(rm.max_concurrency(), 1);
    assert!(rm.relay().is_none());
    assert_eq!(rm.subject(), "full subj");
    assert_eq!(rm.from(), "noreply@example.com");
    assert_eq!(rm.to(), ["one@example.com".to_string()]);
    let rf = ConfigReportFile { disabled: None, append: None, path: "/var/log/periodic-audit.log".to_string() };
    assert!(!rf.disabled());
    assert!(!rf.append());
    assert_eq!(rf.path(), "/var/log/periodic-audit.log");
    let rc = ConfigReportCommand { disabled: None, exe: "/usr/local/bin/report-handler".to_string() };
    assert!(!rc.disabled());
    assert_eq!(rc.exe(), "/usr/local/bin/report-handler");
}

#[test]
fn config_non_defaults() {
    let ca = ConfigCargoAudit {
        exe: "/usr/local/bin/cargo-audit".to_string(),
        debug: Some(true),
        tries: Some(10),
        db: Some("/var/lib/cargo-audit/db".to_string()),
    };
    assert!(ca.debug());
    assert_eq!(ca.tries(), 10);
    assert_eq!(ca.db(), Some("/var/lib/cargo-audit/db"));
    let rm = ConfigReportMail {
        disabled: Some(true),
        relay: Some("smtp://smtp.example.com:587".to_string()),
        subject: "s".to_string(),
        from: "f".to_string(),
        to: vec![],
        max_concurrency: Some(4),
    };
    assert!(rm.disabled());
    assert_eq!(rm.max_concurrency(), 4);
    assert_eq!(rm.relay(), Some("smtp://smtp.example.com:587"));
    let conf = Config {
        watch: ConfigWatch { paths: vec!["/foo".to_string(), "/bar/biz".to_string()] },
        cargo_audit: ca,
        report_mail: Some(rm),
        report_file: Some(ConfigReportFile { disabled: Some(true), append: Some(true), path: "/p".to_string() }),
        report_command: None,
    };
    assert_eq!(conf.watch().paths(), ["/foo".to_string(), "/bar/biz".to_string()]);
    assert_eq!(conf.cargo_audit().tries(), 10);
    assert!(conf.report_mail().unwrap().disabled());
    assert!(conf.report_file().unwrap().append());
    assert!(conf.report_command().is_none());
}

#[test]
fn default_config_path_and_override() {
    assert_eq!(Config::get_default_path(), "/etc/periodic-audit/periodic-audit.conf");
    let o = Opts { config: None, no_systemd: false, version: false };
    assert_eq!(o.get_config(), "/etc/periodic-audit/periodic-audit.conf");
    let o = Opts { config: Some("/x.conf".to_string()), no_systemd: true, version: false };
    assert_eq!(o.get_config(), "/x.conf");
}

#[test]
fn config_path_under_prefix() {
    assert_eq!(Config::path_under("/usr/local"), "/usr/local/etc/periodic-audit/periodic-audit.conf");
    assert_eq!(Config::path_under("/opt/"), "/opt/etc/periodic-audit/periodic-audit.conf");
    assert_eq!(Config::path_under(""), "etc/periodic-audit/periodic-audit.conf");
    let o = Opts { config: None, no_systemd: false, version: false };
    assert_eq!(o.get_config_under("/usr"), "/usr/etc/periodic-audit/periodic-audit.conf");
    let o = Opts { config: Some("/x.conf".to_string()), no_systemd: false, version: false };
    assert_eq!(o.get_config_under("/usr"), "/x.conf");
}
