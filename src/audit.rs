//! One audit attempt: choosing the binaries to audit from the configured
//! paths, the auditor's command line, and turning the auditor's output into
//! report entries. Reading the file system and running the auditor are left
//! to the caller, which hands in what it found.
use vstd::prelude::*;
use vstd::utf8::{decode_utf8, valid_utf8};
use crate::report::{copy_entry, Report, ReportEntry, ReportModel};
use crate::split::{split_json_parts, split_spec, views, SplitError};
use crate::text::{
    all_space, decimal, has_content, push_decimal, push_signed_decimal, push_str, signed_decimal,
    starts_with, utf8_text,
};

verus! {

/// Permission bits that make a file executable by its owner, its group or
/// others.
pub const EXECUTABLE_BITS: u32 = 0o111;

/// One entry of a watched directory.
#[derive(Debug, Clone, PartialEq, Eq)]
pub struct DirEntryInfo {
    pub path: String,
    /// The entry is a regular file.
    pub is_file: bool,
    /// Its permission bits, where the platform has them.
    pub mode: Option<u32>,
}

/// Why a watched directory could not be listed.
#[derive(Debug, Clone, PartialEq, Eq)]
pub enum ListingError {
    /// The directory could not be opened.
    Open(String),
    /// An entry could not be read.
    Entry(String),
    /// An entry's metadata could not be read.
    Stat(String),
}

/// What the file system showed for one watched path.
#[derive(Debug, Clone, PartialEq, Eq)]
pub enum PathKind {
    /// The path does not exist.
    Missing,
    /// Its metadata could not be read, for the reason given.
    StatFailed(String),
    /// It is not a directory.
    File,
    /// It is a directory with these entries.
    Directory(Vec<DirEntryInfo>),
    /// It is a directory that could not be listed.
    ListingFailed(ListingError),
}

/// A watched path and what the file system showed for it.
#[derive(Debug, Clone, PartialEq, Eq)]
pub struct ProbedPath {
    pub path: String,
    pub kind: PathKind,
}

/// A directory entry is audited when it is an executable regular file.
pub open spec fn is_candidate(e: DirEntryInfo) -> bool {
    e.is_file && match e.mode {
        Some(m) => m & EXECUTABLE_BITS != 0,
        None => true,
    }
}

pub open spec fn dir_candidates(es: Seq<DirEntryInfo>) -> Seq<Seq<char>>
    decreases es.len(),
{
    if es.len() == 0 {
        Seq::empty()
    } else if is_candidate(es.last()) {
        dir_candidates(es.drop_last()).push(es.last().path@)
    } else {
        dir_candidates(es.drop_last())
    }
}

/// The binaries that one watched path contributes: the path itself when it
/// is not a directory, the executable regular files of a directory.
pub open spec fn path_candidates(p: ProbedPath) -> Seq<Seq<char>> {
    match p.kind {
        PathKind::File => seq![p.path@],
        PathKind::Directory(es) => dir_candidates(es@),
        _ => Seq::empty(),
    }
}

/// The binaries of all watched paths, in order, duplicates kept.
pub open spec fn candidates(ps: Seq<ProbedPath>) -> Seq<Seq<char>>
    decreases ps.len(),
{
    if ps.len() == 0 {
        Seq::empty()
    } else {
        candidates(ps.drop_last()) + path_candidates(ps.last())
    }
}

/// The warning that a watched path gives, if any.
pub open spec fn path_warnings(p: ProbedPath) -> Seq<Seq<char>> {
    match p.kind {
        PathKind::Missing => seq!["WARNING: '"@ + p.path@ + "' does not exist; skipped."@],
        PathKind::StatFailed(e) => seq![
            "WARNING: Failed to stat path '"@ + p.path@ + "': "@ + e@ + "; skipped."@,
        ],
        _ => Seq::empty(),
    }
}

pub open spec fn warnings(ps: Seq<ProbedPath>) -> Seq<Seq<char>>
    decreases ps.len(),
{
    if ps.len() == 0 {
        Seq::empty()
    } else {
        warnings(ps.drop_last()) + path_warnings(ps.last())
    }
}

pub open spec fn listing_failed(p: ProbedPath) -> bool {
    p.kind is ListingFailed
}

/// The failure message of a directory that could not be listed.
pub open spec fn listing_message(p: ProbedPath) -> Seq<char> {
    match p.kind {
        PathKind::ListingFailed(ListingError::Open(e)) => "Error reading directory '"@ + p.path@
            + "': "@ + e@,
        PathKind::ListingFailed(ListingError::Entry(e)) => "Error reading directory entry in '"@
            + p.path@ + "': "@ + e@,
        PathKind::ListingFailed(ListingError::Stat(e)) => "Error stating directory entry in '"@
            + p.path@ + "': "@ + e@,
        _ => Seq::empty(),
    }
}

/// The index of the first directory that could not be listed, or the
/// number of paths when there is none.
pub open spec fn first_listing_failure(ps: Seq<ProbedPath>) -> nat
    decreases ps.len(),
{
    if ps.len() == 0 {
        0
    } else if listing_failed(ps[0]) {
        0
    } else {
        1 + first_listing_failure(ps.drop_first())
    }
}

proof fn lemma_first_listing_failure(ps: Seq<ProbedPath>)
    ensures
        first_listing_failure(ps) <= ps.len(),
        forall|i: int| 0 <= i < first_listing_failure(ps) ==> !listing_failed(#[trigger] ps[i]),
        first_listing_failure(ps) < ps.len() ==> listing_failed(ps[first_listing_failure(ps) as int]),
    decreases ps.len(),
{
    if ps.len() > 0 && !listing_failed(ps[0]) {
        let t = ps.drop_first();
        lemma_first_listing_failure(t);
        assert forall|i: int| 0 <= i < first_listing_failure(ps) implies !listing_failed(
            #[trigger] ps[i],
        ) by {
            if i > 0 {
                assert(ps[i] == t[i - 1]);
            }
        }
    }
}

/// The warning given when no binary is left to audit.
pub open spec fn nothing_to_audit() -> Seq<char> {
    "WARNING: No existing paths to audit; cargo-audit skipped."@
}

fn listing_text(p: &ProbedPath, e: &ListingError) -> (r: String)
    requires
        p.kind == PathKind::ListingFailed(*e),
    ensures
        r@ == listing_message(*p),
{
    let mut m = String::new();
    match e {
        ListingError::Open(t) => {
            push_str(&mut m, "Error reading directory '");
            push_str(&mut m, p.path.as_str());
            push_str(&mut m, "': ");
            push_str(&mut m, t.as_str());
        },
        ListingError::Entry(t) => {
            push_str(&mut m, "Error reading directory entry in '");
            push_str(&mut m, p.path.as_str());
            push_str(&mut m, "': ");
            push_str(&mut m, t.as_str());
        },
        ListingError::Stat(t) => {
            push_str(&mut m, "Error stating directory entry in '");
            push_str(&mut m, p.path.as_str());
            push_str(&mut m, "': ");
            push_str(&mut m, t.as_str());
        },
    }
    m
}

/// Chooses the binaries to audit from the watched paths, in order.
/// A missing or unreadable path is skipped with a warning; a directory
/// contributes its executable regular files; any other path is taken as it
/// is. A directory that cannot be listed fails the attempt: the report is
/// marked failed and nothing is returned. When no binary is left, a warning
/// says so.
pub fn enumerate_binaries(report: &mut Report, probes: &Vec<ProbedPath>) -> (r: Option<
    Vec<String>,
>)
    ensures
        final(report)@.stamp == old(report)@.stamp,
        final(report)@.entries == old(report)@.entries,
        first_listing_failure(probes@) < probes@.len() ==> {
            &&& r is None
            &&& final(report)@.failed
            &&& final(report)@.messages == old(report)@.messages + warnings(
                probes@.take(first_listing_failure(probes@) as int),
            ).push(listing_message(probes@[first_listing_failure(probes@) as int]))
        },
        first_listing_failure(probes@) == probes@.len() ==> {
            &&& r is Some
            &&& views(r->Some_0@) == candidates(probes@)
            &&& final(report)@.failed == old(report)@.failed
            &&& final(report)@.messages == old(report)@.messages + warnings(probes@) + if candidates(
                probes@,
            ).len() == 0 {
                seq![nothing_to_audit()]
            } else {
                Seq::empty()
            }
        },
{
    proof {
        lemma_first_listing_failure(probes@);
    }
    let ghost pre = report@;
    let mut bins: Vec<String> = Vec::new();
    let mut i: usize = 0;
    while i < probes.len()
        invariant
            i <= probes@.len(),
            pre == old(report)@,
            forall|j: int| 0 <= j < i ==> !listing_failed(#[trigger] probes@[j]),
            report@ == (ReportModel { messages: pre.messages + warnings(probes@.take(i as int)), ..pre }),
            views(bins@) == candidates(probes@.take(i as int)),
            first_listing_failure(probes@) <= probes@.len(),
            forall|j: int|
                0 <= j < first_listing_failure(probes@) ==> !listing_failed(#[trigger] probes@[j]),
            first_listing_failure(probes@) < probes@.len() ==> listing_failed(
                probes@[first_listing_failure(probes@) as int],
            ),
        decreases probes@.len() - i,
    {
        let p = &probes[i];
        let ghost next = probes@.take(i + 1);
        assert(next.drop_last() =~= probes@.take(i as int));
        assert(next.last() == *p);
        match &p.kind {
            PathKind::Missing => {
                let mut m = String::new();
                push_str(&mut m, "WARNING: '");
                push_str(&mut m, p.path.as_str());
                push_str(&mut m, "' does not exist; skipped.");
                report.add_message(m);
                assert(views(bins@) =~= candidates(next));
            },
            PathKind::StatFailed(e) => {
                let mut m = String::new();
                push_str(&mut m, "WARNING: Failed to stat path '");
                push_str(&mut m, p.path.as_str());
                push_str(&mut m, "': ");
                push_str(&mut m, e.as_str());
                push_str(&mut m, "; skipped.");
                report.add_message(m);
                assert(views(bins@) =~= candidates(next));
            },
            PathKind::File => {
                bins.push(p.path.clone());
                assert(views(bins@) =~= candidates(next));
            },
            PathKind::Directory(es) => {
                let ghost before = views(bins@);
                let mut j: usize = 0;
                while j < es.len()
                    invariant
                        j <= es@.len(),
                        views(bins@) == before + dir_candidates(es@.take(j as int)),
                    decreases es@.len() - j,
                {
                    let e = &es[j];
                    let ghost enext = es@.take(j + 1);
                    assert(enext.drop_last() =~= es@.take(j as int));
                    assert(enext.last() == *e);
                    let selected = match e.mode {
                        Some(m) => e.is_file && m & EXECUTABLE_BITS != 0,
                        None => e.is_file,
                    };
                    assert(selected == is_candidate(*e));
                    let ghost vb = views(bins@);
                    if selected {
                        bins.push(e.path.clone());
                        assert(views(bins@) =~= vb.push(e.path@));
                    }
                    assert(views(bins@) =~= before + dir_candidates(enext));
                    j += 1;
                }
                assert(es@.take(j as int) =~= es@);
                assert(views(bins@) =~= candidates(next));
            },
            PathKind::ListingFailed(e) => {
                assert(first_listing_failure(probes@) == i) by {
                    if first_listing_failure(probes@) > i {
                        assert(!listing_failed(probes@[i as int]));
                    }
                }
                let m = listing_text(p, e);
                report.record_failure(m);
                return None;
            },
        }
        assert(report@.messages =~= pre.messages + warnings(next));
        i += 1;
    }
    assert(probes@.take(i as int) =~= probes@);
    assert(first_listing_failure(probes@) == probes@.len()) by {
        if first_listing_failure(probes@) < probes@.len() {
            assert(!listing_failed(probes@[first_listing_failure(probes@) as int]));
        }
    }
    if bins.len() == 0 {
        let mut m = String::new();
        push_str(&mut m, "WARNING: No existing paths to audit; cargo-audit skipped.");
        report.add_message(m);
    } else {
        assert(report@.messages =~= pre.messages + warnings(probes@) + Seq::empty());
    }
    Some(bins)
}

/// The auditor's arguments: JSON output that denies warnings, the
/// vulnerability database when one is configured, then the binaries.
pub open spec fn auditor_args_spec(db: Option<Seq<char>>, bins: Seq<Seq<char>>) -> Seq<Seq<char>> {
    seq!["audit"@, "--deny"@, "warnings"@, "--format"@, "json"@] + match db {
        Some(d) => seq!["--db"@, d],
        None => Seq::empty(),
    } + seq!["bin"@] + bins
}

fn push_arg(args: &mut Vec<String>, a: &str)
    ensures
        views(final(args)@) == views(old(args)@).push(a@),
{
    args.push(a.to_owned());
    assert(views(args@) =~= views(old(args)@).push(a@));
}

/// The arguments with which the auditor is run on `bins`.
pub fn auditor_args(db: Option<&str>, bins: &Vec<String>) -> (r: Vec<String>)
    ensures
        views(r@) == auditor_args_spec(
            match db {
                Some(d) => Some(d@),
                None => None,
            },
            views(bins@),
        ),
{
    let mut args: Vec<String> = Vec::new();
    push_arg(&mut args, "audit");
    push_arg(&mut args, "--deny");
    push_arg(&mut args, "warnings");
    push_arg(&mut args, "--format");
    push_arg(&mut args, "json");
    match db {
        Some(d) => {
            push_arg(&mut args, "--db");
            push_arg(&mut args, d);
        },
        None => {},
    }
    push_arg(&mut args, "bin");
    let ghost head = views(args@);
    let mut i: usize = 0;
    while i < bins.len()
        invariant
            i <= bins@.len(),
            views(args@) == head + views(bins@.take(i as int)),
        decreases bins@.len() - i,
    {
        let ghost prev = views(args@);
        args.push(bins[i].clone());
        assert(views(args@) =~= prev.push(bins@[i as int]@));
        assert(views(bins@.take(i + 1)) =~= views(bins@.take(i as int)).push(bins@[i as int]@));
        assert(views(args@) =~= head + views(bins@.take(i + 1)));
        i += 1;
    }
    assert(bins@.take(i as int) =~= bins@);
    assert(views(args@) =~= auditor_args_spec(
        match db {
            Some(d) => Some(d@),
            None => None,
        },
        views(bins@),
    ));
    args
}

#[verifier::external_type_specification]
#[verifier::external_body]
pub struct ExJsonValue(serde_json::Value);

#[verifier::external_type_specification]
#[verifier::external_body]
pub struct ExJsonError(serde_json::Error);

/// `text` is one well-formed JSON document.
pub uninterp spec fn json_decodes(text: Seq<char>) -> bool;

/// Relies on `serde_json::from_str`: decodes one JSON document; whether it
/// succeeds depends on the text alone.
#[verifier::external_body]
fn decode_json(text: &str) -> (r: Result<serde_json::Value, serde_json::Error>)
    ensures
        r is Ok <==> json_decodes(text@),
{
    serde_json::from_str(text)
}

/// Relies on `serde_json::to_string_pretty`: the value printed with
/// indentation. It fails only for a failing `Serialize` impl or a map with
/// keys that are not strings, neither of which a `Value` has.
#[verifier::external_body]
fn pretty_json(v: &serde_json::Value) -> (r: Result<String, serde_json::Error>)
    ensures
        r is Ok,
{
    serde_json::to_string_pretty(v)
}

/// Relies on the `Display` impl of `serde_json::Error`: its description.
#[verifier::external_body]
fn json_error_text(e: &serde_json::Error) -> (r: String) {
    e.to_string()
}

pub assume_specification<'a>[ serde_json::Value::pointer ](
    v: &'a serde_json::Value,
    pointer: &str,
) -> Option<&'a serde_json::Value>;

pub assume_specification[ serde_json::Value::as_bool ](v: &serde_json::Value) -> Option<bool>;

/// Whether a binary is vulnerable, from the boolean found at the auditor's
/// `vulnerabilities.found`, if any: false where that field is absent or not
/// a boolean.
pub fn vulnerable_from(found: Option<bool>) -> (r: bool)
    ensures
        r == (found == Some(true)),
{
    match found {
        Some(b) => b,
        None => false,
    }
}

/// The boolean at `vulnerabilities.found`, if the field is there and is a
/// boolean.
fn found_field(v: &serde_json::Value) -> Option<bool> {
    match v.pointer("/vulnerabilities/found") {
        Some(f) => f.as_bool(),
        None => None,
    }
}

/// The message prefix of a part that is not valid JSON.
pub open spec fn decode_failure_prefix() -> Seq<char> {
    "Parse cargo-audit JSON output: "@
}

/// The entry of the binary `path` from its JSON result `part`, or the
/// failure message.
fn decode_entry(path: &String, part: &String) -> (r: Result<ReportEntry, String>)
    ensures
        match r {
            Ok(e) => e.path@ == path@ && e.json@ == part@ && json_decodes(part@),
            Err(m) => !json_decodes(part@) && starts_with(m@, decode_failure_prefix()),
        },
{
    match decode_json(part.as_str()) {
        Ok(v) => match pretty_json(&v) {
            Ok(json_pretty) => Ok(
                ReportEntry {
                    path: path.clone(),
                    vulnerable: vulnerable_from(found_field(&v)),
                    json: part.clone(),
                    json_pretty,
                },
            ),
            Err(e) => {
                let mut m = String::new();
                push_str(&mut m, "Format cargo-audit JSON output: ");
                push_str(&mut m, json_error_text(&e).as_str());
                Err(m)
            },
        },
        Err(e) => {
            let mut m = String::new();
            push_str(&mut m, "Parse cargo-audit JSON output: ");
            let ghost head = m@;
            push_str(&mut m, json_error_text(&e).as_str());
            assert(m@.subrange(0, head.len() as int) =~= head);
            Err(m)
        },
    }
}

/// What running the auditor produced.
#[derive(Debug, Clone, PartialEq, Eq)]
pub struct AuditorOutput {
    pub stdout: Vec<u8>,
    pub stderr: Vec<u8>,
    /// The exit code; none when a signal ended the process.
    pub exit_code: Option<i32>,
}

/// The diagnostic line on how the auditor exited.
pub open spec fn exit_message(code: Option<i32>) -> Seq<char> {
    match code {
        Some(c) => "cargo-audit exited with code "@ + signed_decimal(c as int),
        None => "cargo-audit exited due to signal"@,
    }
}

/// The failure message of a run that could not be started.
pub open spec fn spawn_message(exe: Seq<char>, err: Seq<char>) -> Seq<char> {
    "Error executing cargo-audit ("@ + exe + "): "@ + err
}

/// The failure message of output that does not split into objects.
pub open spec fn split_message(e: SplitError) -> Seq<char> {
    "Split cargo-audit JSON output: "@ + e.message_spec()
}

/// The failure message of output whose object count differs from the
/// number of audited binaries.
pub open spec fn mismatch_message(parts: nat, bins: nat) -> Seq<char> {
    "cargo-audit returned "@ + decimal(parts) + " JSON object(s) but "@ + decimal(bins)
        + " binary(ies) were audited"@
}

/// The message prefix of error output that is not UTF-8.
pub open spec fn stderr_failure_prefix() -> Seq<char> {
    "Parse cargo-audit stderr as UTF-8: "@
}

/// The diagnostic message that carries the auditor's error output.
pub open spec fn stderr_message(text: Seq<char>) -> Seq<char> {
    "cargo-audit stderr:\n"@ + text
}

/// The messages added before the output is interpreted.
pub open spec fn debug_messages(debug: bool, code: Option<i32>) -> Seq<Seq<char>> {
    if debug {
        seq![exit_message(code)]
    } else {
        Seq::empty()
    }
}

/// Records in `report` what one run of the auditor on `bins` produced, and
/// returns whether the attempt succeeded.
///
/// The auditor's standard output must be UTF-8 text that splits into one
/// JSON object per binary, each of which decodes; the i-th object is the
/// result of the i-th binary. Then one entry per binary is appended, and
/// non-blank error output is kept as a message. Otherwise the report is
/// marked failed, with a message saying why, and no entry is appended. With
/// `debug`, how the auditor exited is recorded first.
pub fn record_audit(
    report: &mut Report,
    bins: &Vec<String>,
    exe: &str,
    run: Result<AuditorOutput, String>,
    debug: bool,
) -> (ok: bool)
    ensures
        final(report)@.stamp == old(report)@.stamp,
        ok ==> final(report)@.failed == old(report)@.failed,
        !ok ==> final(report)@.failed && final(report)@.entries == old(report)@.entries,
        run is Err ==> !ok && final(report)@.messages == old(report)@.messages.push(
            spawn_message(exe@, run->Err_0@),
        ),
        run is Ok ==> ({
            let out = run->Ok_0;
            let dbg = debug_messages(debug, out.exit_code);
            let text = decode_utf8(out.stdout@);
            let pre = old(report)@;
            let post = final(report)@;
            &&& !valid_utf8(out.stdout@) ==> !ok && post.messages.len() == pre.messages.len() + 1
                && post.messages.drop_last() == pre.messages && starts_with(
                post.messages.last(),
                "Parse cargo-audit stdout as UTF-8: "@,
            )
            &&& valid_utf8(out.stdout@) ==> match split_spec(text) {
                Err(e) => !ok && post.messages == pre.messages + dbg + seq![split_message(e)],
                Ok(parts) => if parts.len() != bins@.len() {
                    &&& !ok
                    &&& post.messages == pre.messages + dbg + seq![
                        mismatch_message(parts.len(), bins@.len() as nat),
                    ]
                } else {
                    &&& (exists|i: int| 0 <= i < parts.len() && !json_decodes(#[trigger] parts[i]))
                        ==> !ok && starts_with(post.messages.last(), decode_failure_prefix())
                    &&& (forall|i: int| 0 <= i < parts.len() ==> json_decodes(#[trigger] parts[i]))
                        ==> (ok <==> valid_utf8(out.stderr@))
                    &&& !valid_utf8(out.stderr@) && (forall|i: int|
                        0 <= i < parts.len() ==> json_decodes(#[trigger] parts[i])) ==> starts_with(
                        post.messages.last(),
                        stderr_failure_prefix(),
                    )
                    &&& !ok ==> post.messages.len() == pre.messages.len() + dbg.len() + 1
                        && post.messages.drop_last() == pre.messages + dbg
                    &&& ok ==> {
                        &&& valid_utf8(out.stderr@)
                        &&& forall|i: int| 0 <= i < parts.len() ==> json_decodes(#[trigger] parts[i])
                        &&& post.entries.len() == pre.entries.len() + bins@.len()
                        &&& post.entries.take(pre.entries.len() as int) == pre.entries
                        &&& forall|i: int|
                            0 <= i < bins@.len() ==> (#[trigger] post.entries[pre.entries.len() + i]).path
                                == bins@[i]@ && post.entries[pre.entries.len() + i].json == parts[i]
                        &&& post.messages == pre.messages + dbg + if all_space(
                            decode_utf8(out.stderr@),
                        ) {
                            Seq::<Seq<char>>::empty()
                        } else {
                            seq![stderr_message(decode_utf8(out.stderr@))]
                        }
                    }
                },
            }
        }),
{
    let out = match run {
        Ok(out) => out,
        Err(e) => {
            let mut m = String::new();
            push_str(&mut m, "Error executing cargo-audit (");
            push_str(&mut m, exe);
            push_str(&mut m, "): ");
            push_str(&mut m, e.as_str());
            report.record_failure(m);
            return false;
        },
    };
    let ghost pre = report@;
    let ghost out0 = out;
    let stdout = match utf8_text(out.stdout) {
        Ok(t) => t,
        Err(e) => {
            let mut m = String::new();
            push_str(&mut m, "Parse cargo-audit stdout as UTF-8: ");
            let ghost head = m@;
            push_str(&mut m, e.as_str());
            assert(m@.subrange(0, head.len() as int) =~= head);
            report.record_failure(m);
            assert(report@.messages.drop_last() =~= pre.messages);
            return false;
        },
    };
    if debug {
        let mut m = String::new();
        match out.exit_code {
            Some(code) => {
                push_str(&mut m, "cargo-audit exited with code ");
                push_signed_decimal(&mut m, code);
            },
            None => {
                push_str(&mut m, "cargo-audit exited due to signal");
            },
        }
        report.add_message(m);
    }
    let ghost dbg = debug_messages(debug, out0.exit_code);
    assert(report@.messages =~= pre.messages + dbg);
    let parts = match split_json_parts(stdout.as_str(), bins.len()) {
        Ok(parts) => parts,
        Err(e) => {
            let mut m = String::new();
            push_str(&mut m, "Split cargo-audit JSON output: ");
            push_str(&mut m, e.message().as_str());
            report.record_failure(m);
            assert(report@.messages =~= pre.messages + dbg + seq![split_message(e)]);
            return false;
        },
    };
    if parts.len() != bins.len() {
        let mut m = String::new();
        push_str(&mut m, "cargo-audit returned ");
        push_decimal(&mut m, parts.len() as u64);
        push_str(&mut m, " JSON object(s) but ");
        push_decimal(&mut m, bins.len() as u64);
        push_str(&mut m, " binary(ies) were audited");
        report.record_failure(m);
        assert(report@.messages =~= pre.messages + dbg + seq![
            mismatch_message(parts@.len(), bins@.len() as nat),
        ]);
        return false;
    }
    let ghost pv = views(parts@);
    let mut entries: Vec<ReportEntry> = Vec::new();
    let mut i: usize = 0;
    while i < parts.len()
        invariant
            i <= parts@.len() == bins@.len(),
            pv == views(parts@),
            pre == old(report)@,
            valid_utf8(out0.stdout@),
            split_spec(decode_utf8(out0.stdout@)) == Ok::<Seq<Seq<char>>, SplitError>(pv),
            dbg == debug_messages(debug, out0.exit_code),
            run == Ok::<AuditorOutput, String>(out0),
            report@ == (ReportModel { messages: pre.messages + dbg, ..pre }),
            entries@.len() == i,
            forall|k: int| 0 <= k < i ==> json_decodes(#[trigger] pv[k]),
            forall|k: int|
                0 <= k < i ==> (#[trigger] entries@[k]).path@ == bins@[k]@ && entries@[k].json@
                    == pv[k],
        decreases parts@.len() - i,
    {
        match decode_entry(&bins[i], &parts[i]) {
            Ok(e) => {
                entries.push(e);
            },
            Err(m) => {
                assert(parts@[i as int]@ == pv[i as int]);
                assert(!json_decodes(pv[i as int]));
                report.record_failure(m);
                assert(report@.messages.drop_last() =~= pre.messages + dbg);
                assert(starts_with(report@.messages.last(), decode_failure_prefix()));
                return false;
            },
        }
        i += 1;
    }
    let stderr = match utf8_text(out.stderr) {
        Ok(t) => t,
        Err(e) => {
            let mut m = String::new();
            push_str(&mut m, "Parse cargo-audit stderr as UTF-8: ");
            let ghost head = m@;
            push_str(&mut m, e.as_str());
            assert(m@.subrange(0, head.len() as int) =~= head);
            report.record_failure(m);
            assert(report@.messages.drop_last() =~= pre.messages + dbg);
            return false;
        },
    };
    let ghost before = report@.entries;
    let mut j: usize = 0;
    while j < entries.len()
        invariant
            j <= entries@.len() == bins@.len(),
            before == pre.entries,
            pv == views(parts@),
            forall|k: int| 0 <= k < pv.len() ==> json_decodes(#[trigger] pv[k]),
            forall|k: int|
                0 <= k < entries@.len() ==> (#[trigger] entries@[k]).path@ == bins@[k]@ && entries@[k].json@
                    == pv[k],
            pre == old(report)@,
            valid_utf8(out0.stdout@),
            split_spec(decode_utf8(out0.stdout@)) == Ok::<Seq<Seq<char>>, SplitError>(pv),
            dbg == debug_messages(debug, out0.exit_code),
            run == Ok::<AuditorOutput, String>(out0),
            report@ == (ReportModel {
                messages: pre.messages + dbg,
                entries: report@.entries,
                ..pre
            }),
            report@.entries.len() == before.len() + j,
            report@.entries.take(before.len() as int) == before,
            forall|k: int|
                0 <= k < j ==> (#[trigger] report@.entries[before.len() + k]) == entries@[k]@,
        decreases entries@.len() - j,
    {
        let e = copy_entry(&entries[j]);
        report.add(e);
        assert(report@.entries.take(before.len() as int) =~= before);
        j += 1;
    }
    if has_content(stderr.as_str()) {
        let mut m = String::new();
        push_str(&mut m, "cargo-audit stderr:\n");
        push_str(&mut m, stderr.as_str());
        report.add_message(m);
    }
    true
}

} // verus!
