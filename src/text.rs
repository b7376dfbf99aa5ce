//! Text primitives shared by the library: whitespace, trimming and
//! character-level string building.
use vstd::prelude::*;
use vstd::std_specs::iter::IteratorSpec;
use vstd::utf8::{decode_utf8, valid_utf8};

verus! {

/// The characters with the Unicode `White_Space` property.
pub open spec fn is_space(c: char) -> bool {
    let v = c as u32;
    (9 <= v && v <= 13) || v == 32 || v == 0x85 || v == 0xA0 || v == 0x1680 || (0x2000 <= v && v
        <= 0x200A) || v == 0x2028 || v == 0x2029 || v == 0x202F || v == 0x205F || v == 0x3000
}

/// Every character of `s` is whitespace (vacuously true of the empty text).
pub open spec fn all_space(s: Seq<char>) -> bool {
    forall|i: int| 0 <= i < s.len() ==> is_space(#[trigger] s[i])
}

/// `s` without its leading whitespace.
pub open spec fn trim_start(s: Seq<char>) -> Seq<char>
    decreases s.len(),
{
    if s.len() > 0 && is_space(s[0]) {
        trim_start(s.drop_first())
    } else {
        s
    }
}

/// `s` without its trailing whitespace.
pub open spec fn trim_end(s: Seq<char>) -> Seq<char>
    decreases s.len(),
{
    if s.len() > 0 && is_space(s.last()) {
        trim_end(s.drop_last())
    } else {
        s
    }
}

/// `s` without leading and trailing whitespace.
pub open spec fn trim(s: Seq<char>) -> Seq<char> {
    trim_end(trim_start(s))
}

/// Whether `c` has the Unicode `White_Space` property, as
/// `char::is_whitespace` decides.
pub(crate) fn char_is_space(c: char) -> (r: bool)
    ensures
        r == is_space(c),
{
    let v = c as u32;
    (9 <= v && v <= 13) || v == 32 || v == 0x85 || v == 0xA0 || v == 0x1680 || (0x2000 <= v && v
        <= 0x200A) || v == 0x2028 || v == 0x2029 || v == 0x202F || v == 0x205F || v == 0x3000
}

/// Relies on `String::push`: appends one character.
#[verifier::external_body]
pub(crate) fn push_char(s: &mut String, c: char)
    ensures
        final(s)@ == old(s)@.push(c),
{
    s.push(c)
}

/// Appends `t` to `s`.
pub(crate) fn push_str(s: &mut String, t: &str)
    ensures
        final(s)@ == old(s)@ + t@,
{
    s.append(t);
}

/// `s` begins with `p`.
pub open spec fn starts_with(s: Seq<char>, p: Seq<char>) -> bool {
    p.len() <= s.len() && s.subrange(0, p.len() as int) == p
}

/// The decimal digit for `d`.
pub open spec fn digit(d: nat) -> char {
    if d == 0 {
        '0'
    } else if d == 1 {
        '1'
    } else if d == 2 {
        '2'
    } else if d == 3 {
        '3'
    } else if d == 4 {
        '4'
    } else if d == 5 {
        '5'
    } else if d == 6 {
        '6'
    } else if d == 7 {
        '7'
    } else if d == 8 {
        '8'
    } else {
        '9'
    }
}

fn digit_char(d: u64) -> (c: char)
    requires
        d < 10,
    ensures
        c == digit(d as nat),
{
    if d == 0 {
        '0'
    } else if d == 1 {
        '1'
    } else if d == 2 {
        '2'
    } else if d == 3 {
        '3'
    } else if d == 4 {
        '4'
    } else if d == 5 {
        '5'
    } else if d == 6 {
        '6'
    } else if d == 7 {
        '7'
    } else if d == 8 {
        '8'
    } else {
        '9'
    }
}

/// The decimal notation of `n`, without leading zeros.
pub open spec fn decimal(n: nat) -> Seq<char>
    decreases n,
{
    if n < 10 {
        seq![digit(n)]
    } else {
        decimal(n / 10).push(digit(n % 10))
    }
}

/// The decimal notation of `n`, with a leading `-` when negative.
pub open spec fn signed_decimal(n: int) -> Seq<char> {
    if n < 0 {
        seq!['-'] + decimal((-n) as nat)
    } else {
        decimal(n as nat)
    }
}

/// Appends the decimal notation of `n`.
pub(crate) fn push_decimal(s: &mut String, n: u64)
    ensures
        final(s)@ == old(s)@ + decimal(n as nat),
    decreases n,
{
    if n >= 10 {
        push_decimal(s, n / 10);
    }
    push_char(s, digit_char(n % 10));
}

/// Appends the decimal notation of `n`, with a leading `-` when negative.
pub(crate) fn push_signed_decimal(s: &mut String, n: i32)
    ensures
        final(s)@ == old(s)@ + signed_decimal(n as int),
{
    if n < 0 {
        push_char(s, '-');
        let m: u64 = (-(n as i64)) as u64;
        push_decimal(s, m);
        assert(final(s)@ =~= old(s)@ + signed_decimal(n as int));
    } else {
        push_decimal(s, n as u64);
    }
}

/// Relies on `String::from_utf8`: the bytes decoded as UTF-8, or the text of
/// the error when they are not valid UTF-8.
#[verifier::external_body]
pub(crate) fn utf8_text(bytes: Vec<u8>) -> (r: Result<String, String>)
    ensures
        match r {
            Ok(t) => valid_utf8(bytes@) && t@ == decode_utf8(bytes@),
            Err(_) => !valid_utf8(bytes@),
        },
{
    match String::from_utf8(bytes) {
        Ok(t) => Ok(t),
        Err(e) => Err(e.to_string()),
    }
}

/// The characters of `input`, in order.
pub(crate) fn chars_of(input: &str) -> (r: Vec<char>)
    ensures
        r@ == input@,
{
    let mut it = input.chars();
    let mut cs: Vec<char> = Vec::new();
    loop
        invariant
            cs@ + it.remaining() == input@,
            it.decrease() is Some,
        ensures
            cs@ == input@,
        decreases it.decrease()->0,
    {
        match it.next() {
            Some(c) => {
                cs.push(c);
            },
            None => {
                assert(cs@ =~= input@);
                break;
            },
        }
    }
    cs
}

/// Whether `t` holds anything but whitespace.
pub(crate) fn has_content(t: &str) -> (r: bool)
    ensures
        r == !all_space(t@),
{
    let cs = chars_of(t);
    let mut i: usize = 0;
    while i < cs.len()
        invariant
            cs@ == t@,
            i <= cs@.len(),
            forall|j: int| 0 <= j < i ==> is_space(#[trigger] cs@[j]),
        decreases cs@.len() - i,
    {
        if !char_is_space(cs[i]) {
            return true;
        }
        i += 1;
    }
    false
}

/// Removing leading whitespace up to the first non-whitespace character `k`.
pub proof fn lemma_trim_start_at(s: Seq<char>, k: int)
    requires
        0 <= k <= s.len(),
        forall|i: int| 0 <= i < k ==> is_space(#[trigger] s[i]),
        k == s.len() || !is_space(s[k]),
    ensures
        trim_start(s) == s.subrange(k, s.len() as int),
    decreases k,
{
    if k == 0 {
        assert(s.subrange(0, s.len() as int) =~= s);
    } else {
        let t = s.drop_first();
        assert forall|i: int| 0 <= i < k - 1 implies is_space(#[trigger] t[i]) by {
            assert(t[i] == s[i + 1]);
        }
        lemma_trim_start_at(t, k - 1);
        assert(t.subrange(k - 1, t.len() as int) =~= s.subrange(k, s.len() as int));
    }
}

/// Removing trailing whitespace down to the last non-whitespace character
/// before `m`.
pub proof fn lemma_trim_end_at(s: Seq<char>, m: int)
    requires
        0 <= m <= s.len(),
        forall|i: int| m <= i < s.len() ==> is_space(#[trigger] s[i]),
        m == 0 || !is_space(s[m - 1]),
    ensures
        trim_end(s) == s.subrange(0, m),
    decreases s.len() - m,
{
    if m == s.len() {
        assert(s.subrange(0, m) =~= s);
    } else {
        let t = s.drop_last();
        assert forall|i: int| m <= i < t.len() implies is_space(#[trigger] t[i]) by {
            assert(t[i] == s[i]);
        }
        lemma_trim_end_at(t, m);
        assert(t.subrange(0, m) =~= s.subrange(0, m));
    }
}

/// The trimmed form of a range of `s` bounded by non-whitespace characters
/// and surrounded by whitespace within `[a, b)`.
pub proof fn lemma_trim_range(s: Seq<char>, a: int, lo: int, hi: int, b: int)
    requires
        0 <= a <= lo <= hi <= b <= s.len(),
        forall|i: int| a <= i < lo ==> is_space(#[trigger] s[i]),
        forall|i: int| hi <= i < b ==> is_space(#[trigger] s[i]),
        lo == hi || (!is_space(s[lo]) && !is_space(s[hi - 1])),
        lo == hi ==> lo == b,
    ensures
        trim(s.subrange(a, b)) == s.subrange(lo, hi),
{
    let r = s.subrange(a, b);
    assert forall|i: int| 0 <= i < lo - a implies is_space(#[trigger] r[i]) by {
        assert(r[i] == s[a + i]);
    }
    lemma_trim_start_at(r, lo - a);
    let t = r.subrange(lo - a, r.len() as int);
    assert(t =~= s.subrange(lo, b));
    assert forall|i: int| hi - lo <= i < t.len() implies is_space(#[trigger] t[i]) by {
        assert(t[i] == s[lo + i]);
    }
    lemma_trim_end_at(t, hi - lo);
    assert(t.subrange(0, hi - lo) =~= s.subrange(lo, hi));
}

/// Leading whitespace does not change the trimmed text.
pub proof fn lemma_trim_space_prefix(w: Seq<char>, y: Seq<char>)
    requires
        all_space(w),
    ensures
        trim_start(w + y) == trim_start(y),
        trim(w + y) == trim(y),
    decreases w.len(),
{
    if w.len() == 0 {
        assert(w + y =~= y);
    } else {
        assert((w + y).drop_first() =~= w.drop_first() + y);
        lemma_trim_space_prefix(w.drop_first(), y);
    }
}

/// Whitespace characters are none of `{`, `}`, `"` and `\`.
pub proof fn lemma_space_not_special(c: char)
    requires
        is_space(c),
    ensures
        c != '{' && c != '}' && c != '"' && c != '\\',
{
}

} // verus!
