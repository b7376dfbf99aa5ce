//! The configuration the engine runs with, and the command-line options
//! that locate it. Reading and decoding the configuration file is the
//! caller's part.
use vstd::prelude::*;
use vstd::string::StrSliceExecFns;
use crate::text::push_str;

verus! {

/// The paths to audit.
#[derive(Debug, Clone)]
pub struct ConfigWatch {
    pub paths: Vec<String>,
}

impl ConfigWatch {
    pub fn paths(&self) -> (r: &[String])
        ensures
            r@ == self.paths@,
    {
        self.paths.as_slice()
    }
}

/// How to run the auditor.
#[derive(Debug, Clone)]
pub struct ConfigCargoAudit {
    pub exe: String,
    pub debug: Option<bool>,
    pub tries: Option<usize>,
    pub db: Option<String>,
}

/// The number of attempts when none is configured.
pub const DEFAULT_TRIES: usize = 5;

impl ConfigCargoAudit {
    pub fn exe(&self) -> (r: &str)
        ensures
            r@ == self.exe@,
    {
        self.exe.as_str()
    }

    /// Off unless configured.
    pub fn debug(&self) -> (r: bool)
        ensures
            r == (self.debug == Some(true)),
    {
        match self.debug {
            Some(d) => d,
            None => false,
        }
    }

    /// `DEFAULT_TRIES` unless configured.
    pub fn tries(&self) -> (r: usize)
        ensures
            r == match self.tries {
                Some(t) => t,
                None => DEFAULT_TRIES,
            },
    {
        match self.tries {
            Some(t) => t,
            None => DEFAULT_TRIES,
        }
    }

    pub fn db(&self) -> (r: Option<&str>)
        ensures
            match self.db {
                Some(d) => r is Some && r->Some_0@ == d@,
                None => r is None,
            },
    {
        match &self.db {
            Some(d) => Some(d.as_str()),
            None => None,
        }
    }
}

/// Delivery of the report by mail.
#[derive(Debug, Clone)]
pub struct ConfigReportMail {
    pub disabled: Option<bool>,
    pub relay: Option<String>,
    pub subject: String,
    pub from: String,
    pub to: Vec<String>,
    pub max_concurrency: Option<usize>,
}

/// Mails in flight at once when no limit is configured.
pub const DEFAULT_MAX_CONCURRENCY: usize = 1;

impl ConfigReportMail {
    /// Enabled unless configured otherwise.
    pub fn disabled(&self) -> (r: bool)
        ensures
            r == (self.disabled == Some(true)),
    {
        match self.disabled {
            Some(d) => d,
            None => false,
        }
    }

    pub fn relay(&self) -> (r: Option<&str>)
        ensures
            match self.relay {
                Some(d) => r is Some && r->Some_0@ == d@,
                None => r is None,
            },
    {
        match &self.relay {
            Some(d) => Some(d.as_str()),
            None => None,
        }
    }

    pub fn subject(&self) -> (r: &str)
        ensures
            r@ == self.subject@,
    {
        self.subject.as_str()
    }

    pub fn from(&self) -> (r: &str)
        ensures
            r@ == self.from@,
    {
        self.from.as_str()
    }

    pub fn to(&self) -> (r: &[String])
        ensures
            r@ == self.to@,
    {
        self.to.as_slice()
    }

    /// `DEFAULT_MAX_CONCURRENCY` unless configured.
    pub fn max_concurrency(&self) -> (r: usize)
        ensures
            r == match self.max_concurrency {
                Some(m) => m,
                None => DEFAULT_MAX_CONCURRENCY,
            },
    {
        match self.max_concurrency {
            Some(m) => m,
            None => DEFAULT_MAX_CONCURRENCY,
        }
    }
}

/// Delivery of the report into a file.
#[derive(Debug, Clone)]
pub struct ConfigReportFile {
    pub disabled: Option<bool>,
    pub append: Option<bool>,
    pub path: String,
}

impl ConfigReportFile {
    /// Enabled unless configured otherwise.
    pub fn disabled(&self) -> (r: bool)
        ensures
            r == (self.disabled == Some(true)),
    {
        match self.disabled {
            Some(d) => d,
            None => false,
        }
    }

    /// The file is truncated unless configured otherwise.
    pub fn append(&self) -> (r: bool)
        ensures
            r == (self.append == Some(true)),
    {
        match self.append {
            Some(a) => a,
            None => false,
        }
    }

    pub fn path(&self) -> (r: &str)
        ensures
            r@ == self.path@,
    {
        self.path.as_str()
    }
}

/// Delivery of the report to the standard input of a command.
#[derive(Debug, Clone)]
pub struct ConfigReportCommand {
    pub disabled: Option<bool>,
    pub exe: String,
}

impl ConfigReportCommand {
    /// Enabled unless configured otherwise.
    pub fn disabled(&self) -> (r: bool)
        ensures
            r == (self.disabled == Some(true)),
    {
        match self.disabled {
            Some(d) => d,
            None => false,
        }
    }

    pub fn exe(&self) -> (r: &str)
        ensures
            r@ == self.exe@,
    {
        self.exe.as_str()
    }
}

/// The whole configuration.
#[derive(Debug, Clone)]
pub struct Config {
    pub watch: ConfigWatch,
    pub cargo_audit: ConfigCargoAudit,
    pub report_mail: Option<ConfigReportMail>,
    pub report_file: Option<ConfigReportFile>,
    pub report_command: Option<ConfigReportCommand>,
}

/// The configuration file's location below an installation prefix.
pub open spec fn config_path_under(prefix: Seq<char>) -> Seq<char> {
    prefix + (if prefix.len() > 0 && prefix.last() != '/' {
        "/"@
    } else {
        Seq::empty()
    }) + "etc/periodic-audit/periodic-audit.conf"@
}

/// Where the configuration is read from unless the command line or the
/// build says otherwise.
pub open spec fn default_config_path() -> Seq<char> {
    config_path_under("/"@)
}

impl Config {
    pub fn watch(&self) -> (r: &ConfigWatch)
        ensures
            r == &self.watch,
    {
        &self.watch
    }

    pub fn cargo_audit(&self) -> (r: &ConfigCargoAudit)
        ensures
            r == &self.cargo_audit,
    {
        &self.cargo_audit
    }

    pub fn report_mail(&self) -> (r: Option<&ConfigReportMail>)
        ensures
            match self.report_mail {
                Some(m) => r == Some(&m),
                None => r is None,
            },
    {
        match &self.report_mail {
            Some(m) => Some(m),
            None => None,
        }
    }

    pub fn report_file(&self) -> (r: Option<&ConfigReportFile>)
        ensures
            match self.report_file {
                Some(m) => r == Some(&m),
                None => r is None,
            },
    {
        match &self.report_file {
            Some(m) => Some(m),
            None => None,
        }
    }

    pub fn report_command(&self) -> (r: Option<&ConfigReportCommand>)
        ensures
            match self.report_command {
                Some(m) => r == Some(&m),
                None => r is None,
            },
    {
        match &self.report_command {
            Some(m) => Some(m),
            None => None,
        }
    }

    /// The configuration file's default location.
    pub fn get_default_path() -> (r: String)
        ensures
            r@ == default_config_path(),
    {
        Self::path_under("/")
    }

    /// The configuration file's location below `prefix`, joined as a path:
    /// a separator is added unless the prefix is empty or ends in one.
    pub fn path_under(prefix: &str) -> (r: String)
        ensures
            r@ == config_path_under(prefix@),
    {
        let mut p = String::new();
        push_str(&mut p, prefix);
        let n = prefix.unicode_len();
        if n > 0 && prefix.get_char(n - 1) != '/' {
            push_str(&mut p, "/");
        }
        push_str(&mut p, "etc/periodic-audit/periodic-audit.conf");
        assert(p@ =~= config_path_under(prefix@));
        p
    }
}

/// The command-line options.
#[derive(Debug, Clone)]
pub struct Opts {
    /// Overrides the configuration file's location.
    pub config: Option<String>,
    /// No readiness notification to the service manager.
    pub no_systemd: bool,
    /// Print the version and exit.
    pub version: bool,
}

impl Opts {
    /// The configuration path from the command line, or the default.
    pub fn get_config(&self) -> (r: String)
        ensures
            r@ == match self.config {
                Some(c) => c@,
                None => default_config_path(),
            },
    {
        self.get_config_under("/")
    }

    /// The configuration path from the command line, or its location below
    /// the installation `prefix` that the build chose.
    pub fn get_config_under(&self, prefix: &str) -> (r: String)
        ensures
            r@ == match self.config {
                Some(c) => c@,
                None => config_path_under(prefix@),
            },
    {
        match &self.config {
            Some(c) => c.clone(),
            None => Config::path_under(prefix),
        }
    }
}

} // verus!
