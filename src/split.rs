//! Splitting a stream of concatenated JSON object literals into the
//! individual objects, by brace depth outside of quoted strings.
use vstd::prelude::*;
use crate::text::{
    all_space, char_is_space, chars_of, is_space, lemma_space_not_special, lemma_trim_end_at,
    lemma_trim_range, lemma_trim_space_prefix, lemma_trim_start_at, push_char, trim,
};

verus! {

/// The scanner's state before a character: the brace depth, whether the scan
/// is inside a quoted string, and whether the next character is escaped.
pub struct ScanState {
    pub depth: int,
    pub in_string: bool,
    pub escape: bool,
}

/// The state at the start of the input, and after each emitted object.
pub open spec fn initial_state() -> ScanState {
    ScanState { depth: 0, in_string: false, escape: false }
}

/// The state after reading `c` in state `st`.
pub open spec fn step(st: ScanState, c: char) -> ScanState {
    if st.escape {
        ScanState { escape: false, ..st }
    } else if c == '\\' {
        ScanState { escape: st.in_string, ..st }
    } else if c == '"' {
        ScanState { in_string: !st.in_string, ..st }
    } else if c == '{' && !st.in_string {
        ScanState { depth: st.depth + 1, ..st }
    } else if c == '}' && !st.in_string {
        ScanState { depth: st.depth - 1, ..st }
    } else {
        st
    }
}

/// Reading `c` in state `st` brings the brace depth from one back to zero,
/// which ends an object.
pub open spec fn closes(st: ScanState, c: char) -> bool {
    !st.escape && !st.in_string && c == '}' && st.depth == 1
}

/// The outcome of scanning a prefix: the state reached, the objects emitted
/// so far (trimmed), and where the text of the next object starts.
pub struct Scan {
    pub state: ScanState,
    pub parts: Seq<Seq<char>>,
    pub start: int,
}

/// Scanning `s` from the left.
pub open spec fn scan(s: Seq<char>) -> Scan
    decreases s.len(),
{
    if s.len() == 0 {
        Scan { state: initial_state(), parts: Seq::empty(), start: 0 }
    } else {
        let prev = scan(s.drop_last());
        let c = s.last();
        if closes(prev.state, c) {
            Scan {
                state: step(prev.state, c),
                parts: prev.parts.push(trim(s.subrange(prev.start, s.len() as int))),
                start: s.len() as int,
            }
        } else {
            Scan { state: step(prev.state, c), ..prev }
        }
    }
}

/// Why a stream could not be split.
#[derive(Debug, Clone, Copy, PartialEq, Eq)]
pub enum SplitError {
    /// The input ends right after a backslash inside a string.
    TrailingBackslash,
    /// The input ends inside a quoted string.
    UnterminatedString,
    /// The input ends with a nonzero brace depth.
    MismatchedBraces,
    /// Non-whitespace text follows the last object.
    TrailingGarbage,
}

impl SplitError {
    /// A sentence describing the error.
    pub fn message(&self) -> (r: String)
        ensures
            r@ == self.message_spec(),
    {
        match self {
            SplitError::TrailingBackslash => "Trailing backslash in JSON data.".to_owned(),
            SplitError::UnterminatedString => "Unterminated string in JSON data.".to_owned(),
            SplitError::MismatchedBraces => "Mismatched braces in JSON data.".to_owned(),
            SplitError::TrailingGarbage => "Trailing garbage at end of JSON data.".to_owned(),
        }
    }

    pub open spec fn message_spec(&self) -> Seq<char> {
        match self {
            SplitError::TrailingBackslash => "Trailing backslash in JSON data."@,
            SplitError::UnterminatedString => "Unterminated string in JSON data."@,
            SplitError::MismatchedBraces => "Mismatched braces in JSON data."@,
            SplitError::TrailingGarbage => "Trailing garbage at end of JSON data."@,
        }
    }
}

/// The objects of the stream `s`, in order, or the reason it cannot be split.
pub open spec fn split_spec(s: Seq<char>) -> Result<Seq<Seq<char>>, SplitError> {
    let sc = scan(s);
    if sc.state.escape {
        Err(SplitError::TrailingBackslash)
    } else if sc.state.in_string {
        Err(SplitError::UnterminatedString)
    } else if sc.state.depth != 0 {
        Err(SplitError::MismatchedBraces)
    } else if !all_space(s.subrange(sc.start, s.len() as int)) {
        Err(SplitError::TrailingGarbage)
    } else {
        Ok(sc.parts)
    }
}

/// The views of a vector of strings.
pub open spec fn views(v: Seq<String>) -> Seq<Seq<char>> {
    v.map_values(|s: String| s@)
}

/// The text of `cs[a..b)` without leading and trailing whitespace.
fn trimmed(cs: &Vec<char>, a: usize, b: usize) -> (r: String)
    requires
        a <= b <= cs@.len(),
    ensures
        r@ == trim(cs@.subrange(a as int, b as int)),
{
    let mut lo = a;
    while lo < b && char_is_space(cs[lo])
        invariant
            a <= lo <= b <= cs@.len(),
            forall|i: int| a <= i < lo ==> is_space(#[trigger] cs@[i]),
        decreases b - lo,
    {
        lo += 1;
    }
    let mut hi = b;
    while hi > lo && char_is_space(cs[hi - 1])
        invariant
            a <= lo <= hi <= b <= cs@.len(),
            forall|i: int| hi <= i < b ==> is_space(#[trigger] cs@[i]),
        decreases hi - lo,
    {
        hi -= 1;
    }
    proof {
        lemma_trim_range(cs@, a as int, lo as int, hi as int, b as int);
    }
    let mut r = String::new();
    let mut i = lo;
    while i < hi
        invariant
            lo <= i <= hi <= cs@.len(),
            r@ == cs@.subrange(lo as int, i as int),
        decreases hi - i,
    {
        push_char(&mut r, cs[i]);
        assert(cs@.subrange(lo as int, i + 1) =~= cs@.subrange(lo as int, i as int).push(cs@[i as int]));
        i += 1;
    }
    r
}

/// Splits `input`, the concatenation of zero or more JSON object literals
/// separated by optional whitespace, into the object literals, each without
/// surrounding whitespace. An object ends where a `}` outside of a string
/// brings the brace depth back to zero; a backslash inside a string escapes
/// the next character. `expected_nr_parts` only sizes the result.
pub fn split_json_parts(input: &str, expected_nr_parts: usize) -> (r: Result<Vec<String>, SplitError>)
    ensures
        match r {
            Ok(parts) => split_spec(input@) == Ok::<Seq<Seq<char>>, SplitError>(views(parts@)),
            Err(e) => split_spec(input@) == Err::<Seq<Seq<char>>, SplitError>(e),
        },
{
    let cs = chars_of(input);
    let n = cs.len();
    let mut parts: Vec<String> = Vec::with_capacity(expected_nr_parts);
    let mut start: usize = 0;
    let mut opened: usize = 0;
    let mut closed: usize = 0;
    let mut in_string = false;
    let mut escape = false;
    let mut i: usize = 0;
    while i < n
        invariant
            n == cs@.len(),
            cs@ == input@,
            i <= n,
            opened <= i,
            closed <= i,
            start <= i,
            scan(cs@.take(i as int)).state == (ScanState {
                depth: opened - closed,
                in_string,
                escape,
            }),
            scan(cs@.take(i as int)).start == start,
            scan(cs@.take(i as int)).parts == views(parts@),
        decreases n - i,
    {
        let c = cs[i];
        let ghost prefix = cs@.take(i + 1);
        assert(prefix.drop_last() =~= cs@.take(i as int));
        assert(prefix.last() == c);
        if escape {
            escape = false;
        } else if c == '\\' {
            escape = in_string;
        } else if c == '"' {
            in_string = !in_string;
        } else if c == '{' && !in_string {
            opened += 1;
        } else if c == '}' && !in_string {
            let ends = closed + 1 == opened;
            closed += 1;
            if ends {
                let part = trimmed(&cs, start, i + 1);
                assert(prefix.subrange(start as int, i + 1) =~= cs@.subrange(start as int, i + 1));
                parts.push(part);
                assert(views(parts@) =~= scan(prefix).parts);
                start = i + 1;
            }
        }
        i += 1;
    }
    assert(cs@.take(n as int) =~= cs@);
    if escape {
        return Err(SplitError::TrailingBackslash);
    }
    if in_string {
        return Err(SplitError::UnterminatedString);
    }
    if opened != closed {
        return Err(SplitError::MismatchedBraces);
    }
    let mut k = start;
    while k < n
        invariant
            start <= k <= n == cs@.len(),
            cs@ == input@,
            scan(input@).start == start,
            scan(input@).state == initial_state(),
            forall|j: int| start <= j < k ==> is_space(#[trigger] cs@[j]),
        decreases n - k,
    {
        if !char_is_space(cs[k]) {
            let ghost rest = cs@.subrange(start as int, n as int);
            assert(rest[k - start] == cs@[k as int]);
            assert(!all_space(rest));
            assert(split_spec(input@) == Err::<Seq<Seq<char>>, SplitError>(SplitError::TrailingGarbage));
            return Err(SplitError::TrailingGarbage);
        }
        k += 1;
    }
    assert(all_space(cs@.subrange(start as int, n as int))) by {
        assert forall|j: int| 0 <= j < n - start implies is_space(
            #[trigger] cs@.subrange(start as int, n as int)[j],
        ) by {
            assert(cs@.subrange(start as int, n as int)[j] == cs@[start + j]);
        }
    }
    Ok(parts)
}

/// A JSON object literal as far as the splitter reads it: it opens with `{`,
/// its braces outside of strings close only at its last character, and it
/// leaves no string or escape open. Every JSON object literal is one.
pub open spec fn is_object_literal(o: Seq<char>) -> bool {
    &&& o.len() > 0
    &&& o[0] == '{'
    &&& scan(o).state == initial_state()
    &&& forall|j: int| 1 <= j < o.len() ==> (#[trigger] scan(o.take(j))).state.depth > 0
}

/// `gaps[0] + objs[0] + gaps[1] + ... + objs[n - 1]`.
pub open spec fn interleave(objs: Seq<Seq<char>>, gaps: Seq<Seq<char>>, n: nat) -> Seq<char>
    decreases n,
{
    if n == 0 {
        Seq::empty()
    } else {
        interleave(objs, gaps, (n - 1) as nat) + (gaps[n - 1] + objs[n - 1])
    }
}

/// The object literals `objs` separated, preceded and followed by the
/// whitespace runs `gaps`.
pub open spec fn concatenation(objs: Seq<Seq<char>>, gaps: Seq<Seq<char>>) -> Seq<char> {
    interleave(objs, gaps, objs.len()) + gaps[objs.len() as int]
}

proof fn lemma_scan_space(w: Seq<char>)
    requires
        all_space(w),
    ensures
        scan(w) == (Scan { state: initial_state(), parts: Seq::empty(), start: 0 }),
    decreases w.len(),
{
    if w.len() > 0 {
        assert(all_space(w.drop_last())) by {
            assert forall|i: int| 0 <= i < w.len() - 1 implies is_space(#[trigger] w.drop_last()[i]) by {
                assert(w.drop_last()[i] == w[i]);
            }
        }
        lemma_scan_space(w.drop_last());
        lemma_space_not_special(w.last());
    }
}

/// Text that follows a completed object scans as if read on its own.
proof fn lemma_scan_append(a: Seq<char>, b: Seq<char>)
    requires
        scan(a).state == initial_state(),
        scan(a).start == a.len(),
    ensures
        scan(a + b) == (Scan {
            state: scan(b).state,
            parts: scan(a).parts + scan(b).parts,
            start: a.len() + scan(b).start,
        }),
    decreases b.len(),
{
    if b.len() == 0 {
        assert(a + b =~= a);
        assert(scan(a).parts + scan(b).parts =~= scan(a).parts);
    } else {
        let b0 = b.drop_last();
        assert((a + b).drop_last() =~= a + b0);
        lemma_scan_append(a, b0);
        lemma_scan_tail(b0);
        let pb = scan(b0);
        if closes(pb.state, b.last()) {
            assert((a + b).subrange(a.len() + pb.start, (a + b).len() as int) =~= b.subrange(
                pb.start,
                b.len() as int,
            ));
            assert(scan(a).parts + scan(b).parts =~= (scan(a).parts + pb.parts).push(
                trim(b.subrange(pb.start, b.len() as int)),
            ));
        }
    }
}

/// Leading whitespace changes neither the state nor the emitted objects.
proof fn lemma_scan_space_prefix(w: Seq<char>, x: Seq<char>)
    requires
        all_space(w),
    ensures
        scan(w + x).state == scan(x).state,
        scan(w + x).parts == scan(x).parts,
        scan(w + x).start == if scan(x).parts.len() == 0 {
            0
        } else {
            w.len() + scan(x).start
        },
    decreases x.len(),
{
    if x.len() == 0 {
        assert(w + x =~= w);
        lemma_scan_space(w);
    } else {
        let x0 = x.drop_last();
        assert((w + x).drop_last() =~= w + x0);
        lemma_scan_space_prefix(w, x0);
        lemma_scan_tail(x0);
        let px = scan(x0);
        if closes(px.state, x.last()) {
            if px.parts.len() == 0 {
                lemma_scan_tail(x0);
                assert(x0.subrange(px.start, x0.len() as int) =~= x0);
                assert((w + x).subrange(0, (w + x).len() as int) =~= w + x.subrange(
                    0,
                    x.len() as int,
                ));
                lemma_trim_space_prefix(w, x.subrange(0, x.len() as int));
            } else {
                assert((w + x).subrange(w.len() + px.start, (w + x).len() as int) =~= x.subrange(
                    px.start,
                    x.len() as int,
                ));
            }
        }
    }
}

/// The next object starts within the text, and before the first object
/// closes it starts at the beginning.
proof fn lemma_scan_tail(s: Seq<char>)
    ensures
        0 <= scan(s).start <= s.len(),
        scan(s).parts.len() == 0 ==> scan(s).start == 0,
    decreases s.len(),
{
    if s.len() > 0 {
        lemma_scan_tail(s.drop_last());
    }
}

/// No proper prefix of an object literal emits anything.
proof fn lemma_object_prefix(o: Seq<char>, j: int)
    requires
        is_object_literal(o),
        1 <= j < o.len(),
    ensures
        scan(o.take(j)).parts.len() == 0,
        scan(o.take(j)).start == 0,
    decreases j,
{
    assert(o.take(j).drop_last() =~= o.take(j - 1));
    assert(o.take(j).last() == o[j - 1]);
    if j == 1 {
        assert(o.take(0) =~= Seq::<char>::empty());
        assert(scan(Seq::<char>::empty()).state == initial_state());
    } else {
        lemma_object_prefix(o, j - 1);
        if closes(scan(o.take(j - 1)).state, o[j - 1]) {
            assert(scan(o.take(j)).state.depth > 0);
        }
    }
}

/// One object literal scans to exactly itself.
proof fn lemma_scan_object(o: Seq<char>)
    requires
        is_object_literal(o),
    ensures
        scan(o) == (Scan { state: initial_state(), parts: seq![o], start: o.len() as int }),
{
    let n = o.len() as int;
    assert(o.take(1).drop_last() =~= Seq::<char>::empty());
    assert(o.take(n) =~= o);
    if n > 1 {
        lemma_object_prefix(o, n - 1);
    }
    if n == 1 {
        assert(o.drop_last() =~= Seq::<char>::empty());
        assert(scan(Seq::<char>::empty()).state == initial_state());
        assert(o.last() == '{');
        assert(scan(o).state.depth == 1);
    }
    let p = o.take(n - 1);
    assert(o.drop_last() =~= p);
    assert(scan(p).state.depth > 0);
    assert(closes(scan(p).state, o.last()));
    assert(o.subrange(0, n) =~= o);
    assert(!is_space(o[0])) by {
        if is_space(o[0]) {
            lemma_space_not_special(o[0]);
        }
    }
    assert(!is_space(o.last())) by {
        if is_space(o.last()) {
            lemma_space_not_special(o.last());
        }
    }
    lemma_trim_range(o, 0, 0, n, n);
    assert(o.subrange(0, n) =~= o);
    assert(scan(o).parts =~= seq![o]);
}

/// A whitespace run after a completed object adds nothing.
proof fn lemma_scan_space_suffix(a: Seq<char>, w: Seq<char>)
    requires
        scan(a).state == initial_state(),
        all_space(w),
    ensures
        scan(a + w) == (Scan { state: initial_state(), parts: scan(a).parts, start: scan(a).start }),
    decreases w.len(),
{
    if w.len() == 0 {
        assert(a + w =~= a);
    } else {
        let w0 = w.drop_last();
        assert((a + w).drop_last() =~= a + w0);
        assert(all_space(w0)) by {
            assert forall|i: int| 0 <= i < w0.len() implies is_space(#[trigger] w0[i]) by {
                assert(w0[i] == w[i]);
            }
        }
        lemma_scan_space_suffix(a, w0);
        lemma_space_not_special(w.last());
    }
}

proof fn lemma_scan_interleave(objs: Seq<Seq<char>>, gaps: Seq<Seq<char>>, n: nat)
    requires
        n <= objs.len(),
        n <= gaps.len(),
        forall|k: int| 0 <= k < objs.len() ==> is_object_literal(#[trigger] objs[k]),
        forall|k: int| 0 <= k < gaps.len() ==> all_space(#[trigger] gaps[k]),
    ensures
        scan(interleave(objs, gaps, n)) == (Scan {
            state: initial_state(),
            parts: objs.take(n as int),
            start: interleave(objs, gaps, n).len() as int,
        }),
    decreases n,
{
    if n == 0 {
        assert(objs.take(0) =~= Seq::<Seq<char>>::empty());
    } else {
        let m = (n - 1) as nat;
        lemma_scan_interleave(objs, gaps, m);
        let g = gaps[m as int];
        let o = objs[m as int];
        lemma_scan_object(o);
        lemma_scan_space_prefix(g, o);
        lemma_scan_append(interleave(objs, gaps, m), g + o);
        assert(objs.take(m as int).push(o) =~= objs.take(n as int));
        assert(objs.take(m as int) + seq![o] =~= objs.take(n as int));
    }
}

/// Splitting whitespace-separated object literals gives back exactly those
/// objects, in order.
pub proof fn split_of_concatenation(objs: Seq<Seq<char>>, gaps: Seq<Seq<char>>)
    requires
        gaps.len() == objs.len() + 1,
        forall|k: int| 0 <= k < objs.len() ==> is_object_literal(#[trigger] objs[k]),
        forall|k: int| 0 <= k < gaps.len() ==> all_space(#[trigger] gaps[k]),
    ensures
        split_spec(concatenation(objs, gaps)) == Ok::<Seq<Seq<char>>, SplitError>(objs),
{
    let n = objs.len();
    let a = interleave(objs, gaps, n);
    let w = gaps[n as int];
    lemma_scan_interleave(objs, gaps, n);
    assert(objs.take(n as int) =~= objs);
    lemma_scan_space_suffix(a, w);
    let s = a + w;
    assert(s.subrange(a.len() as int, s.len() as int) =~= w);
}

/// A single object literal with whitespace around it splits into that
/// object, which is the trimmed input.
pub proof fn split_of_single_object(lead: Seq<char>, o: Seq<char>, trail: Seq<char>)
    requires
        is_object_literal(o),
        all_space(lead),
        all_space(trail),
    ensures
        split_spec(lead + o + trail) == Ok::<Seq<Seq<char>>, SplitError>(seq![o]),
        trim(lead + o + trail) == o,
{
    let objs = seq![o];
    let gaps = seq![lead, trail];
    split_of_concatenation(objs, gaps);
    assert(interleave(objs, gaps, 0) =~= Seq::<char>::empty());
    assert(concatenation(objs, gaps) =~= lead + o + trail);
    lemma_scan_object(o);
    let s = lead + o + trail;
    let lo = lead.len() as int;
    let hi = lo + o.len();
    assert forall|i: int| 0 <= i < lo implies is_space(#[trigger] s[i]) by {
        assert(s[i] == lead[i]);
    }
    assert forall|i: int| hi <= i < s.len() implies is_space(#[trigger] s[i]) by {
        assert(s[i] == trail[i - hi]);
    }
    assert(s[lo] == o[0]);
    assert(s[hi - 1] == o.last());
    assert(!is_space(o[0])) by {
        if is_space(o[0]) {
            lemma_space_not_special(o[0]);
        }
    }
    assert(scan(o.drop_last()).state.depth == 1);
    assert(!is_space(o.last())) by {
        if is_space(o.last()) {
            lemma_space_not_special(o.last());
        }
    }
    lemma_trim_range(s, 0, lo, hi, s.len() as int);
    assert(s.subrange(0, s.len() as int) =~= s);
    assert(s.subrange(lo, hi) =~= o);
}

/// The text since the last emitted object scans, on its own, to the same
/// state without emitting anything.
proof fn lemma_scan_rest(s: Seq<char>)
    ensures
        scan(s.subrange(scan(s).start, s.len() as int)) == (Scan {
            state: scan(s).state,
            parts: Seq::empty(),
            start: 0,
        }),
    decreases s.len(),
{
    lemma_scan_tail(s);
    if s.len() > 0 {
        let s0 = s.drop_last();
        let prev = scan(s0);
        lemma_scan_rest(s0);
        lemma_scan_tail(s0);
        if closes(prev.state, s.last()) {
            assert(s.subrange(s.len() as int, s.len() as int) =~= Seq::<char>::empty());
        } else {
            let t = s.subrange(prev.start, s.len() as int);
            assert(t.drop_last() =~= s0.subrange(prev.start, s0.len() as int));
            assert(t.last() == s.last());
        }
    }
}

/// The number of whitespace characters that `s` starts with.
spec fn leading_spaces(s: Seq<char>) -> nat
    decreases s.len(),
{
    if s.len() > 0 && is_space(s[0]) {
        1 + leading_spaces(s.drop_first())
    } else {
        0
    }
}

proof fn lemma_leading_spaces(s: Seq<char>)
    ensures
        leading_spaces(s) <= s.len(),
        forall|i: int| 0 <= i < leading_spaces(s) ==> is_space(#[trigger] s[i]),
        leading_spaces(s) == s.len() || !is_space(s[leading_spaces(s) as int]),
    decreases s.len(),
{
    if s.len() > 0 && is_space(s[0]) {
        let t = s.drop_first();
        lemma_leading_spaces(t);
        assert forall|i: int| 0 <= i < leading_spaces(s) implies is_space(#[trigger] s[i]) by {
            if i > 0 {
                assert(s[i] == t[i - 1]);
            }
        }
    }
}

/// A segment that closes exactly at its end, trimmed, splits into itself.
proof fn lemma_resplit_segment(t: Seq<char>)
    requires
        t.len() > 0,
        !is_space(t.last()),
        scan(t) == (Scan { state: initial_state(), parts: seq![trim(t)], start: t.len() as int }),
    ensures
        split_spec(trim(t)) == Ok::<Seq<Seq<char>>, SplitError>(seq![trim(t)]),
{
    lemma_leading_spaces(t);
    let k = leading_spaces(t) as int;
    let n = t.len() as int;
    assert(k < n);
    let w = t.take(k);
    let p = t.subrange(k, n);
    lemma_trim_start_at(t, k);
    assert forall|i: int| p.len() <= i < p.len() implies is_space(#[trigger] p[i]) by {}
    assert(p.last() == t.last());
    lemma_trim_end_at(p, p.len() as int);
    assert(p.subrange(0, p.len() as int) =~= p);
    assert(trim(t) == p);
    assert(all_space(w)) by {
        assert forall|i: int| 0 <= i < w.len() implies is_space(#[trigger] w[i]) by {
            assert(w[i] == t[i]);
        }
    }
    assert(t =~= w + p);
    lemma_scan_space_prefix(w, p);
    assert(p.subrange(p.len() as int, p.len() as int) =~= Seq::<char>::empty());
}

proof fn lemma_parts_resplit(s: Seq<char>)
    ensures
        forall|k: int|
            0 <= k < scan(s).parts.len() ==> split_spec(#[trigger] scan(s).parts[k])
                == Ok::<Seq<Seq<char>>, SplitError>(seq![scan(s).parts[k]]),
    decreases s.len(),
{
    if s.len() > 0 {
        let s0 = s.drop_last();
        let prev = scan(s0);
        lemma_parts_resplit(s0);
        if closes(prev.state, s.last()) {
            lemma_scan_rest(s0);
            lemma_scan_tail(s0);
            let t = s.subrange(prev.start, s.len() as int);
            assert(t.drop_last() =~= s0.subrange(prev.start, s0.len() as int));
            assert(t.last() == s.last());
            assert(t.subrange(0, t.len() as int) =~= t);
            assert(!is_space(t.last())) by {
                if is_space(t.last()) {
                    lemma_space_not_special(t.last());
                }
            }
            lemma_resplit_segment(t);
            assert forall|k: int| 0 <= k < scan(s).parts.len() implies split_spec(
                #[trigger] scan(s).parts[k],
            ) == Ok::<Seq<Seq<char>>, SplitError>(seq![scan(s).parts[k]]) by {
                if k < prev.parts.len() {
                    assert(scan(s).parts[k] == prev.parts[k]);
                }
            }
        }
    }
}

/// Splitting is idempotent: each object that a split emits splits into
/// exactly itself.
pub proof fn split_of_part(s: Seq<char>, k: int)
    requires
        split_spec(s) is Ok,
        0 <= k < split_spec(s)->Ok_0.len(),
    ensures
        split_spec(split_spec(s)->Ok_0[k]) == Ok::<Seq<Seq<char>>, SplitError>(
            seq![split_spec(s)->Ok_0[k]],
        ),
{
    lemma_parts_resplit(s);
    assert(split_spec(s)->Ok_0 == scan(s).parts);
}

/// A `{` or `}` read inside a quoted string leaves the brace depth, and the
/// objects emitted so far, as they were.
pub proof fn string_braces_keep_depth(s: Seq<char>, i: int)
    requires
        0 <= i < s.len(),
        scan(s.take(i)).state.in_string,
        s[i] == '{' || s[i] == '}',
    ensures
        scan(s.take(i + 1)).state.depth == scan(s.take(i)).state.depth,
        scan(s.take(i + 1)).state.in_string,
        scan(s.take(i + 1)).parts == scan(s.take(i)).parts,
{
    assert(s.take(i + 1).drop_last() =~= s.take(i));
    assert(s.take(i + 1).last() == s[i]);
}

/// Reading `s` right after `a` stays inside one string literal and leaves
/// no escape pending: `s` holds no unescaped `"` and does not end in an
/// unfinished escape.
pub open spec fn stays_in_string(a: Seq<char>, s: Seq<char>) -> bool {
    &&& forall|j: int| 0 <= j <= s.len() ==> (#[trigger] scan(a + s.take(j))).state.in_string
    &&& !scan(a + s).state.escape
}

/// Inside a string, nothing changes but the string and escape flags.
proof fn lemma_inside_string(a: Seq<char>, s: Seq<char>, j: int)
    requires
        stays_in_string(a, s),
        0 <= j <= s.len(),
    ensures
        scan(a + s.take(j)).state.depth == scan(a).state.depth,
        scan(a + s.take(j)).parts == scan(a).parts,
        scan(a + s.take(j)).start == scan(a).start,
    decreases j,
{
    if j == 0 {
        assert(a + s.take(0) =~= a);
    } else {
        lemma_inside_string(a, s, j - 1);
        let x = a + s.take(j);
        assert(x.drop_last() =~= a + s.take(j - 1));
        assert(x.last() == s[j - 1]);
        assert(scan(a + s.take(j - 1)).state.in_string);
    }
}

/// A scan that has entered a string has read a `"` since the last object.
proof fn lemma_open_quote(t: Seq<char>)
    requires
        scan(t).state.in_string,
    ensures
        exists|i: int| scan(t).start <= i < t.len() && t[i] == '"',
    decreases t.len(),
{
    lemma_scan_tail(t);
    if t.len() > 0 {
        let t0 = t.drop_last();
        let prev = scan(t0);
        lemma_scan_tail(t0);
        if prev.state.in_string {
            lemma_open_quote(t0);
            let i = choose|i: int| prev.start <= i < t0.len() && t0[i] == '"';
            assert(t[i] == t0[i]);
        } else {
            assert(t[t.len() - 1] == '"');
        }
    }
}

/// Two texts that scan alike, continued by the same `b`, scan alike too,
/// except for the object in which they differ.
proof fn lemma_same_continuation(u: Seq<char>, v: Seq<char>, b: Seq<char>)
    requires
        scan(u).state == scan(v).state,
        scan(u).parts == scan(v).parts,
        scan(u).start == scan(v).start,
    ensures
        scan(u + b).state == scan(v + b).state,
        scan(u + b).parts.len() == scan(v + b).parts.len(),
        scan(u + b).parts.len() >= scan(u).parts.len(),
        forall|k: int|
            0 <= k < scan(u + b).parts.len() && k != scan(u).parts.len() ==> (#[trigger] scan(
                u + b,
            ).parts[k]) == scan(v + b).parts[k],
        scan(u + b).parts.len() == scan(u).parts.len() ==> scan(u + b).start == scan(u).start
            && scan(v + b).start == scan(u).start,
        scan(u + b).parts.len() > scan(u).parts.len() ==> u.len() <= scan(u + b).start && scan(
            u + b,
        ).start - u.len() == scan(v + b).start - v.len(),
    decreases b.len(),
{
    if b.len() == 0 {
        assert(u + b =~= u);
        assert(v + b =~= v);
    } else {
        let b0 = b.drop_last();
        assert((u + b).drop_last() =~= u + b0);
        assert((v + b).drop_last() =~= v + b0);
        assert((u + b).last() == b.last());
        assert((v + b).last() == b.last());
        lemma_same_continuation(u, v, b0);
        lemma_scan_tail(u + b0);
        lemma_scan_tail(v + b0);
        let pu = scan(u + b0);
        let pv = scan(v + b0);
        let n = scan(u).parts.len();
        if closes(pu.state, b.last()) && pu.parts.len() > n {
            let j = pu.start - u.len();
            assert((u + b).subrange(pu.start, (u + b).len() as int) =~= b.subrange(j, b.len() as int));
            assert((v + b).subrange(pv.start, (v + b).len() as int) =~= b.subrange(j, b.len() as int));
        }
        assert forall|k: int|
            0 <= k < scan(u + b).parts.len() && k != n implies (#[trigger] scan(u + b).parts[k])
            == scan(v + b).parts[k] by {
            if k < pu.parts.len() {
                assert(scan(u + b).parts[k] == pu.parts[k]);
                assert(scan(v + b).parts[k] == pv.parts[k]);
            }
        }
    }
}

/// Quoted braces never change the brace depth: replacing the contents `s`
/// of one string literal (opened at the end of `a`) by any other contents
/// `s2` gives the same error, or the same number of objects, all equal but
/// the one that holds the string.
pub proof fn string_contents_never_change_split(
    a: Seq<char>,
    s: Seq<char>,
    s2: Seq<char>,
    b: Seq<char>,
)
    requires
        scan(a).state.in_string,
        stays_in_string(a, s),
        stays_in_string(a, s2),
    ensures
        split_spec(a + s + b) is Ok <==> split_spec(a + s2 + b) is Ok,
        split_spec(a + s + b) is Err ==> split_spec(a + s + b) == split_spec(a + s2 + b),
        split_spec(a + s + b) is Ok ==> {
            let p = split_spec(a + s + b)->Ok_0;
            let q = split_spec(a + s2 + b)->Ok_0;
            &&& p.len() == q.len()
            &&& forall|k: int| 0 <= k < p.len() && k != scan(a).parts.len() ==> #[trigger] p[k] == q[k]
        },
{
    let u = a + s;
    let v = a + s2;
    lemma_inside_string(a, s, s.len() as int);
    lemma_inside_string(a, s2, s2.len() as int);
    assert(s.take(s.len() as int) =~= s);
    assert(s2.take(s2.len() as int) =~= s2);
    assert(scan(u).state == scan(v).state);
    lemma_same_continuation(u, v, b);
    let x = u + b;
    let y = v + b;
    let n = scan(a).parts.len();
    lemma_scan_tail(x);
    lemma_scan_tail(y);
    lemma_scan_tail(a);
    if scan(x).parts.len() == n {
        // The string is still in the text after the last object, so both
        // end in trailing text that is not whitespace.
        lemma_open_quote(a);
        let i = choose|i: int| scan(a).start <= i < a.len() && a[i] == '"';
        assert(x[i] == a[i]);
        assert(y[i] == a[i]);
        assert(!is_space('"'));
        let sa = scan(a).start;
        assert(x.subrange(sa, x.len() as int)[i - sa] == x[i]);
        assert(y.subrange(sa, y.len() as int)[i - sa] == y[i]);
    } else {
        let j = scan(x).start - u.len();
        assert(x.subrange(scan(x).start, x.len() as int) =~= b.subrange(j, b.len() as int));
        assert(y.subrange(scan(y).start, y.len() as int) =~= b.subrange(j, b.len() as int));
    }
}

} // verus!
