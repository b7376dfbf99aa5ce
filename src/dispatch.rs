//! Delivery of a finished report: what each channel sends, which channels
//! are enabled, the bounded number of mails in flight, and the overall
//! outcome. Sending itself is the caller's part.
use vstd::prelude::*;
use crate::config::Config;
use crate::report::{any_vulnerable, Report, ReportModel};
use crate::text::push_str;

verus! {

/// The subject prefix that classifies a report: failed, vulnerable, or
/// none.
pub open spec fn subject_prefix(r: ReportModel) -> Seq<char> {
    if r.failed {
        "[AUDIT FAILED] "@
    } else if any_vulnerable(r.entries) {
        "[VULNERABILITIES FOUND] "@
    } else {
        Seq::empty()
    }
}

/// The subject of every mail of `report`: the configured `subject` after
/// the report's prefix.
pub fn mail_subject(report: &Report, subject: &str) -> (r: String)
    ensures
        r@ == subject_prefix(report@) + subject@,
{
    let mut s = String::new();
    if report.failed() {
        push_str(&mut s, "[AUDIT FAILED] ");
    } else if report.vulnerable() {
        push_str(&mut s, "[VULNERABILITIES FOUND] ");
    }
    push_str(&mut s, subject);
    assert(s@ =~= subject_prefix(report@) + subject@);
    s
}

/// What the file channel writes for a rendered report: the text, then a
/// separator line that sets it apart from the next one.
pub open spec fn file_record(text: Seq<char>) -> Seq<char> {
    text + "\n\n\n==========================================================\n\n"@
}

pub fn file_payload(text: &str) -> (r: String)
    ensures
        r@ == file_record(text@),
{
    let mut s = String::new();
    push_str(&mut s, text);
    push_str(&mut s, "\n\n\n==========================================================\n\n");
    assert(s@ =~= file_record(text@));
    s
}

/// A kind of delivery.
#[derive(Debug, Clone, Copy, PartialEq, Eq)]
pub enum Channel {
    Mail,
    File,
    Command,
}

pub open spec fn mail_enabled(c: Config) -> bool {
    c.report_mail is Some && c.report_mail->Some_0.disabled != Some(true)
}

pub open spec fn file_enabled(c: Config) -> bool {
    c.report_file is Some && c.report_file->Some_0.disabled != Some(true)
}

pub open spec fn command_enabled(c: Config) -> bool {
    c.report_command is Some && c.report_command->Some_0.disabled != Some(true)
}

/// The channels that are configured and not disabled, in a fixed order.
pub open spec fn enabled_spec(c: Config) -> Seq<Channel> {
    (if mail_enabled(c) {
        seq![Channel::Mail]
    } else {
        Seq::empty()
    }) + (if file_enabled(c) {
        seq![Channel::File]
    } else {
        Seq::empty()
    }) + (if command_enabled(c) {
        seq![Channel::Command]
    } else {
        Seq::empty()
    })
}

/// The channels that a report is delivered over.
pub fn enabled_channels(config: &Config) -> (r: Vec<Channel>)
    ensures
        r@ == enabled_spec(*config),
{
    let mut v: Vec<Channel> = Vec::new();
    match config.report_mail() {
        Some(m) => {
            if !m.disabled() {
                v.push(Channel::Mail);
            }
        },
        None => {},
    }
    let ghost a = v@;
    match config.report_file() {
        Some(f) => {
            if !f.disabled() {
                v.push(Channel::File);
            }
        },
        None => {},
    }
    let ghost b = v@;
    match config.report_command() {
        Some(c) => {
            if !c.disabled() {
                v.push(Channel::Command);
            }
        },
        None => {},
    }
    assert(v@ =~= enabled_spec(*config));
    v
}

/// The run succeeded: the final report is not failed and every enabled
/// channel delivered it.
pub fn overall_success(report: &Report, delivered: &Vec<bool>) -> (r: bool)
    ensures
        r == (!report@.failed && forall|i: int| 0 <= i < delivered@.len() ==> #[trigger] delivered@[i]),
{
    if report.failed() {
        return false;
    }
    let mut i: usize = 0;
    while i < delivered.len()
        invariant
            i <= delivered@.len(),
            forall|k: int| 0 <= k < i ==> #[trigger] delivered@[k],
        decreases delivered@.len() - i,
    {
        if !delivered[i] {
            return false;
        }
        i += 1;
    }
    true
}

/// What to do next with a batch of sends.
#[derive(Debug, Clone, Copy, PartialEq, Eq)]
pub enum PoolAction {
    /// Start sending the item with this index.
    Start(usize),
    /// Wait for a send in flight to complete.
    Wait,
    /// All sends completed; whether every one succeeded.
    Done(bool),
}

/// A send pool as plain values.
pub struct PoolModel {
    /// Items to send.
    pub total: nat,
    /// Most sends in flight at once.
    pub limit: nat,
    /// Sends started; items are started in index order.
    pub started: nat,
    /// Sends completed.
    pub finished: nat,
    /// Sends that completed with an error.
    pub failures: nat,
}

/// The next action in state `m`, and the state after it.
pub open spec fn next_spec(m: PoolModel) -> (PoolAction, PoolModel) {
    if m.started < m.total && m.started - m.finished < m.limit {
        (PoolAction::Start(m.started as usize), PoolModel { started: m.started + 1, ..m })
    } else if m.started > m.finished {
        (PoolAction::Wait, m)
    } else {
        (PoolAction::Done(m.failures == 0), m)
    }
}

/// The state after a send in flight completes, `ok` or with an error.
pub open spec fn complete_spec(m: PoolModel, ok: bool) -> PoolModel {
    PoolModel {
        finished: m.finished + 1,
        failures: if ok {
            m.failures
        } else {
            m.failures + 1
        },
        ..m
    }
}

/// The states a pool can be in: at least one send may be in flight, and no
/// more than `limit` are.
pub open spec fn pool_consistent(m: PoolModel) -> bool {
    &&& 1 <= m.limit
    &&& m.finished <= m.started <= m.total
    &&& m.started - m.finished <= m.limit
    &&& m.failures <= m.finished
}

/// A new pool is consistent, and every action and every completion keeps it
/// so: however the sends are scheduled, no more than the limit are ever in
/// flight at once.
pub proof fn pool_never_exceeds_limit(m: PoolModel, ok: bool)
    ensures
        m.limit >= 1 ==> pool_consistent(PoolModel { started: 0, finished: 0, failures: 0, ..m }),
        pool_consistent(m) ==> pool_consistent(next_spec(m).1),
        pool_consistent(m) && m.started > m.finished ==> pool_consistent(complete_spec(m, ok)),
{
}

/// Schedules `total` sends with at most `limit` in flight at once, like a
/// counting permit: a send starts only while fewer than `limit` are in
/// flight.
pub struct SendPool {
    total: usize,
    limit: usize,
    started: usize,
    finished: usize,
    failures: usize,
}

impl View for SendPool {
    type V = PoolModel;

    closed spec fn view(&self) -> PoolModel {
        PoolModel {
            total: self.total as nat,
            limit: self.limit as nat,
            started: self.started as nat,
            finished: self.finished as nat,
            failures: self.failures as nat,
        }
    }
}

impl SendPool {
    #[verifier::type_invariant]
    spec fn inv(self) -> bool {
        pool_consistent(self@)
    }

    /// A pool for `total` sends, at most `max_in_flight` at once.
    pub fn new(total: usize, max_in_flight: usize) -> (r: Self)
        requires
            max_in_flight >= 1,
        ensures
            r@ == (PoolModel {
                total: total as nat,
                limit: max_in_flight as nat,
                started: 0,
                finished: 0,
                failures: 0,
            }),
    {
        SendPool { total, limit: max_in_flight, started: 0, finished: 0, failures: 0 }
    }

    /// Sends in flight.
    pub fn in_flight(&self) -> (r: usize)
        ensures
            r == self@.started - self@.finished,
            r <= self@.limit,
    {
        proof {
            use_type_invariant(self);
        }
        self.started - self.finished
    }

    /// The next action: start the next item while the bound allows, else
    /// wait while sends are in flight, else report the outcome.
    pub fn next(&mut self) -> (r: PoolAction)
        ensures
            (r, final(self)@) == next_spec(old(self)@),
            final(self)@.started - final(self)@.finished <= final(self)@.limit,
    {
        proof {
            use_type_invariant(&*self);
        }
        if self.started < self.total && self.started - self.finished < self.limit {
            let i = self.started;
            *self = SendPool { started: i + 1, ..*self };
            proof {
                use_type_invariant(&*self);
            }
            PoolAction::Start(i)
        } else if self.started > self.finished {
            PoolAction::Wait
        } else {
            PoolAction::Done(self.failures == 0)
        }
    }

    /// Records that a send in flight completed, `ok` or with an error.
    pub fn complete(&mut self, ok: bool)
        requires
            old(self)@.started > old(self)@.finished,
        ensures
            final(self)@ == complete_spec(old(self)@, ok),
            final(self)@.started - final(self)@.finished <= final(self)@.limit,
    {
        proof {
            use_type_invariant(&*self);
        }
        let failures = if ok {
            self.failures
        } else {
            self.failures + 1
        };
        *self = SendPool { finished: self.finished + 1, failures, ..*self };
    }
}

/// A pool with nothing to send starts no send and reports success at once.
pub proof fn empty_pool_sends_nothing(limit: nat)
    requires
        limit >= 1,
    ensures
        next_spec(PoolModel { total: 0, limit, started: 0, finished: 0, failures: 0 }).0
            == PoolAction::Done(true),
{
}

} // verus!
