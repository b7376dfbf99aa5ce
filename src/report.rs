//! The report of one audit attempt: the audited binaries' results, the
//! diagnostic messages, the failure flag, and the text that is delivered.
use vstd::prelude::*;
use crate::text::push_str;

verus! {

/// The result of auditing one binary.
#[derive(Debug, Clone, PartialEq, Eq, Hash, Default)]
pub struct ReportEntry {
    /// The audited executable.
    pub path: String,
    /// The auditor found at least one vulnerability in it.
    pub vulnerable: bool,
    /// The auditor's JSON result, verbatim.
    pub json: String,
    /// The same result, pretty-printed.
    pub json_pretty: String,
}

/// A `ReportEntry` as plain values.
pub struct EntryModel {
    pub path: Seq<char>,
    pub vulnerable: bool,
    pub json: Seq<char>,
    pub json_pretty: Seq<char>,
}

impl View for ReportEntry {
    type V = EntryModel;

    open spec fn view(&self) -> EntryModel {
        EntryModel {
            path: self.path@,
            vulnerable: self.vulnerable,
            json: self.json@,
            json_pretty: self.json_pretty@,
        }
    }
}

/// The views of a sequence of entries.
pub open spec fn entry_views(v: Seq<ReportEntry>) -> Seq<EntryModel> {
    v.map_values(|e: ReportEntry| e@)
}

/// The views of a sequence of strings.
pub open spec fn text_views(v: Seq<String>) -> Seq<Seq<char>> {
    v.map_values(|s: String| s@)
}

/// A `Report` as plain values.
pub struct ReportModel {
    /// When the attempt started, as text.
    pub stamp: Seq<char>,
    pub entries: Seq<EntryModel>,
    pub messages: Seq<Seq<char>>,
    pub failed: bool,
}

/// Some entry is vulnerable.
pub open spec fn any_vulnerable(entries: Seq<EntryModel>) -> bool {
    exists|i: int| 0 <= i < entries.len() && (#[trigger] entries[i]).vulnerable
}

/// A report without entries is never vulnerable.
pub proof fn empty_report_not_vulnerable(r: ReportModel)
    requires
        r.entries.len() == 0,
    ensures
        !any_vulnerable(r.entries),
{
}

/// The summary line of one entry.
pub open spec fn entry_line(e: EntryModel) -> Seq<char> {
    "  "@ + e.path + ": "@ + (if e.vulnerable {
        "VULNERABLE"@
    } else {
        "Ok"@
    }) + "\n"@
}

pub open spec fn entry_lines(es: Seq<EntryModel>) -> Seq<char>
    decreases es.len(),
{
    if es.len() == 0 {
        Seq::empty()
    } else {
        entry_lines(es.drop_last()) + entry_line(es.last())
    }
}

pub open spec fn message_lines(ms: Seq<Seq<char>>) -> Seq<char>
    decreases ms.len(),
{
    if ms.len() == 0 {
        Seq::empty()
    } else {
        message_lines(ms.drop_last()) + ms.last() + "\n"@
    }
}

/// The detail block of one entry: its path and its pretty-printed result,
/// for vulnerable entries only.
pub open spec fn entry_detail(e: EntryModel) -> Seq<char> {
    if e.vulnerable {
        "\n\n"@ + e.path + ":\n"@ + e.json_pretty + "\n"@
    } else {
        Seq::empty()
    }
}

pub open spec fn entry_details(es: Seq<EntryModel>) -> Seq<char>
    decreases es.len(),
{
    if es.len() == 0 {
        Seq::empty()
    } else {
        entry_details(es.drop_last()) + entry_detail(es.last())
    }
}

/// The delivered text of a report: a header, one line per entry unless the
/// attempt failed, the messages, and the details of vulnerable entries
/// unless the attempt failed.
pub open spec fn rendered(r: ReportModel) -> Seq<char> {
    if r.failed {
        "["@ + r.stamp + "] Audit FAILED.\n"@ + message_lines(r.messages)
    } else {
        "["@ + r.stamp + "] Audit results:\n"@ + entry_lines(r.entries) + "\n"@ + message_lines(
            r.messages,
        ) + entry_details(r.entries)
    }
}

/// The outcome of one audit attempt. Entries and messages are only ever
/// appended.
#[derive(Debug, Clone, Default)]
pub struct Report {
    stamp: String,
    entries: Vec<ReportEntry>,
    messages: Vec<String>,
    failed: bool,
}

impl View for Report {
    type V = ReportModel;

    closed spec fn view(&self) -> ReportModel {
        ReportModel {
            stamp: self.stamp@,
            entries: entry_views(self.entries@),
            messages: text_views(self.messages@),
            failed: self.failed,
        }
    }
}

pub(crate) fn copy_entry(e: &ReportEntry) -> (r: ReportEntry)
    ensures
        r@ == e@,
{
    ReportEntry {
        path: e.path.clone(),
        vulnerable: e.vulnerable,
        json: e.json.clone(),
        json_pretty: e.json_pretty.clone(),
    }
}

impl Report {
    /// An empty report whose attempt started at `stamp`.
    pub fn new(stamp: String) -> (r: Self)
        ensures
            r@ == (ReportModel {
                stamp: stamp@,
                entries: Seq::empty(),
                messages: Seq::empty(),
                failed: false,
            }),
    {
        let r = Self { stamp, entries: Vec::new(), messages: Vec::new(), failed: false };
        assert(entry_views(r.entries@) =~= Seq::empty());
        assert(text_views(r.messages@) =~= Seq::empty());
        r
    }

    /// Appends the result of one binary.
    pub fn add(&mut self, entry: ReportEntry)
        ensures
            final(self)@ == (ReportModel { entries: old(self)@.entries.push(entry@), ..old(self)@ }),
    {
        self.entries.push(entry);
        assert(entry_views(self.entries@) =~= entry_views(old(self).entries@).push(entry@));
    }

    /// Appends a diagnostic message.
    pub fn add_message(&mut self, msg: String)
        ensures
            final(self)@ == (ReportModel {
                messages: old(self)@.messages.push(msg@),
                ..old(self)@
            }),
    {
        self.messages.push(msg);
        assert(text_views(self.messages@) =~= text_views(old(self).messages@).push(msg@));
    }

    /// Marks the attempt as failed and records why.
    pub(crate) fn record_failure(&mut self, msg: String)
        ensures
            final(self)@ == (ReportModel {
                messages: old(self)@.messages.push(msg@),
                failed: true,
                ..old(self)@
            }),
    {
        self.failed = true;
        self.add_message(msg);
    }

    /// The entries, in the order they were added.
    pub fn entries(&self) -> (r: &[ReportEntry])
        ensures
            entry_views(r@) == self@.entries,
    {
        self.entries.as_slice()
    }

    /// The messages, in the order they were added.
    pub fn messages(&self) -> (r: &[String])
        ensures
            text_views(r@) == self@.messages,
    {
        self.messages.as_slice()
    }

    /// The attempt hit an unrecoverable error.
    pub fn failed(&self) -> (r: bool)
        ensures
            r == self@.failed,
    {
        self.failed
    }

    /// A copy of this report, marked as failed, with `message` appended.
    pub fn fail(&self, message: String) -> (r: Self)
        ensures
            r@ == (ReportModel {
                messages: self@.messages.push(message@),
                failed: true,
                ..self@
            }),
    {
        let mut entries: Vec<ReportEntry> = Vec::new();
        let mut i: usize = 0;
        while i < self.entries.len()
            invariant
                i <= self.entries@.len(),
                entries@.len() == i,
                forall|k: int| 0 <= k < i ==> (#[trigger] entries@[k])@ == self.entries@[k]@,
            decreases self.entries@.len() - i,
        {
            entries.push(copy_entry(&self.entries[i]));
            i += 1;
        }
        assert(entry_views(entries@) =~= entry_views(self.entries@));
        let mut messages: Vec<String> = Vec::new();
        let mut j: usize = 0;
        while j < self.messages.len()
            invariant
                j <= self.messages@.len(),
                messages@.len() == j,
                forall|k: int| 0 <= k < j ==> (#[trigger] messages@[k])@ == self.messages@[k]@,
            decreases self.messages@.len() - j,
        {
            messages.push(self.messages[j].clone());
            j += 1;
        }
        assert(text_views(messages@) =~= text_views(self.messages@));
        let mut r = Report { stamp: self.stamp.clone(), entries, messages, failed: false };
        r.record_failure(message);
        r
    }

    /// Some entry is vulnerable; never true of a report without entries.
    pub fn vulnerable(&self) -> (r: bool)
        ensures
            r == any_vulnerable(self@.entries),
    {
        let mut i: usize = 0;
        while i < self.entries.len()
            invariant
                i <= self.entries@.len(),
                forall|k: int| 0 <= k < i ==> !(#[trigger] self.entries@[k]).vulnerable,
            decreases self.entries@.len() - i,
        {
            if self.entries[i].vulnerable {
                assert(self@.entries[i as int].vulnerable);
                return true;
            }
            i += 1;
        }
        assert forall|k: int| 0 <= k < self@.entries.len() implies !(
        #[trigger] self@.entries[k]).vulnerable by {
            assert(self@.entries[k] == self.entries@[k]@);
        }
        false
    }

    /// The text that every delivery channel receives.
    pub fn render(&self) -> (r: String)
        ensures
            r@ == rendered(self@),
    {
        let mut out = String::new();
        push_str(&mut out, "[");
        push_str(&mut out, self.stamp.as_str());
        if self.failed {
            push_str(&mut out, "] Audit FAILED.\n");
        } else {
            push_str(&mut out, "] Audit results:\n");
            let ghost head = out@;
            let mut i: usize = 0;
            while i < self.entries.len()
                invariant
                    i <= self.entries@.len(),
                    out@ == head + entry_lines(entry_views(self.entries@.take(i as int))),
                decreases self.entries@.len() - i,
            {
                let e = &self.entries[i];
                push_str(&mut out, "  ");
                push_str(&mut out, e.path.as_str());
                push_str(&mut out, ": ");
                if e.vulnerable {
                    push_str(&mut out, "VULNERABLE");
                } else {
                    push_str(&mut out, "Ok");
                }
                push_str(&mut out, "\n");
                proof {
                    let es = entry_views(self.entries@.take(i + 1));
                    assert(es.drop_last() =~= entry_views(self.entries@.take(i as int)));
                    assert(es.last() == e@);
                    assert(out@ =~= head + entry_lines(es));
                }
                i += 1;
            }
            assert(self.entries@.take(i as int) =~= self.entries@);
            push_str(&mut out, "\n");
        }
        let ghost head = out@;
        let mut j: usize = 0;
        while j < self.messages.len()
            invariant
                j <= self.messages@.len(),
                out@ == head + message_lines(text_views(self.messages@.take(j as int))),
            decreases self.messages@.len() - j,
        {
            push_str(&mut out, self.messages[j].as_str());
            push_str(&mut out, "\n");
            proof {
                let ms = text_views(self.messages@.take(j + 1));
                assert(ms.drop_last() =~= text_views(self.messages@.take(j as int)));
                assert(ms.last() == self.messages@[j as int]@);
                assert(out@ =~= head + message_lines(ms));
            }
            j += 1;
        }
        assert(self.messages@.take(j as int) =~= self.messages@);
        if !self.failed {
            let ghost head = out@;
            let mut i: usize = 0;
            while i < self.entries.len()
                invariant
                    i <= self.entries@.len(),
                    out@ == head + entry_details(entry_views(self.entries@.take(i as int))),
                decreases self.entries@.len() - i,
            {
                let e = &self.entries[i];
                if e.vulnerable {
                    push_str(&mut out, "\n\n");
                    push_str(&mut out, e.path.as_str());
                    push_str(&mut out, ":\n");
                    push_str(&mut out, e.json_pretty.as_str());
                    push_str(&mut out, "\n");
                }
                proof {
                    let es = entry_views(self.entries@.take(i + 1));
                    assert(es.drop_last() =~= entry_views(self.entries@.take(i as int)));
                    assert(es.last() == e@);
                    assert(out@ =~= head + entry_details(es));
                }
                i += 1;
            }
            assert(self.entries@.take(i as int) =~= self.entries@);
        }
        proof {
            if self.failed {
                assert(out@ =~= rendered(self@));
            } else {
                assert(out@ =~= rendered(self@));
            }
        }
        out
    }
}

} // verus!
