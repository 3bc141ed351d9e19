//! Character-level scanning helpers shared by the pattern analyzers.
//!
//! Patterns are examined as sequences of characters; every detector in this
//! crate is specified against `Seq<char>` views of the input strings.

use vstd::prelude::*;

verus! {

use vstd::string::StrSliceExecFns;
use vstd::string::StringExecFns;

/// `n` occurs in `h` starting at position `i`.
pub open spec fn sub_at(h: Seq<char>, n: Seq<char>, i: int) -> bool {
    0 <= i && i + n.len() <= h.len() && forall|j: int|
        0 <= j < n.len() ==> h[i + j] == n[j]
}

/// `n` occurs somewhere in `h`.
pub open spec fn has_sub(h: Seq<char>, n: Seq<char>) -> bool {
    exists|i: int| sub_at(h, n, i)
}

/// `h` begins with `n`.
pub open spec fn starts_with(h: Seq<char>, n: Seq<char>) -> bool {
    sub_at(h, n, 0)
}

/// `h` ends with `n`.
pub open spec fn ends_with(h: Seq<char>, n: Seq<char>) -> bool {
    n.len() <= h.len() && sub_at(h, n, h.len() - n.len())
}

/// The characters of `s`, in order.
pub fn chars_of(s: &str) -> (v: Vec<char>)
    ensures
        v@ == s@,
{
    let n = s.unicode_len();
    let mut v: Vec<char> = Vec::with_capacity(n);
    let mut i: usize = 0;
    while i < n
        invariant
            i <= n,
            n == s@.len(),
            v@ =~= s@.subrange(0, i as int),
        decreases n - i,
    {
        v.push(s.get_char(i));
        i += 1;
    }
    assert(v@ =~= s@);
    v
}

/// Relies on `core::iter::Iterator::collect`: gathers the characters of `v`
/// into an owned string, in order.
#[verifier::external_body]
pub fn string_from_chars(v: &Vec<char>) -> (s: String)
    ensures
        s@ == v@,
{
    v.iter().collect()
}

/// `n` occurs in `h` at position `i`.
fn sub_check_at(h: &Vec<char>, n: &Vec<char>, i: usize) -> (b: bool)
    requires
        i + n@.len() <= h@.len(),
    ensures
        b == sub_at(h@, n@, i as int),
{
    let hl = h.len();
    let nl = n.len();
    let mut j: usize = 0;
    while j < nl
        invariant
            j <= nl,
            nl == n@.len(),
            hl == h@.len(),
            i + nl <= hl,
            forall|k: int| 0 <= k < j ==> h@[i + k] == n@[k],
        decreases nl - j,
    {
        if h[i + j] != n[j] {
            assert(!sub_at(h@, n@, i as int));
            return false;
        }
        j += 1;
    }
    true
}

/// Whether `n` occurs anywhere in `h`.
pub fn contains_sub(h: &Vec<char>, n: &Vec<char>) -> (b: bool)
    ensures
        b == has_sub(h@, n@),
{
    let hl = h.len();
    let nl = n.len();
    if nl > hl {
        assert(forall|i: int| !sub_at(h@, n@, i));
        return false;
    }
    if nl == 0 {
        assert(sub_at(h@, n@, 0));
        return true;
    }
    let last = hl - nl;
    let mut i: usize = 0;
    while i <= last
        invariant
            i <= last + 1,
            hl == h@.len(),
            nl == n@.len(),
            0 < nl <= hl,
            last == hl - nl,
            forall|k: int| 0 <= k < i ==> !sub_at(h@, n@, k),
        decreases last + 1 - i,
    {
        if sub_check_at(h, n, i) {
            return true;
        }
        i += 1;
    }
    assert(forall|k: int| k > last ==> !sub_at(h@, n@, k));
    false
}

/// Whether the literal `lit` occurs anywhere in `h`.
pub fn contains_str(h: &Vec<char>, lit: &str) -> (b: bool)
    ensures
        b == has_sub(h@, lit@),
{
    let n = chars_of(lit);
    contains_sub(h, &n)
}

/// Whether `h` begins with the literal `lit`.
pub fn starts_with_str(h: &Vec<char>, lit: &str) -> (b: bool)
    ensures
        b == starts_with(h@, lit@),
{
    let n = chars_of(lit);
    if n.len() > h.len() {
        return false;
    }
    sub_check_at(h, &n, 0)
}

/// Whether `h` ends with the literal `lit`.
pub fn ends_with_str(h: &Vec<char>, lit: &str) -> (b: bool)
    ensures
        b == ends_with(h@, lit@),
{
    let n = chars_of(lit);
    if n.len() > h.len() {
        return false;
    }
    sub_check_at(h, &n, h.len() - n.len())
}

/// Whether the views of `a` and `b` are the same character sequence.
pub fn eq_str(a: &Vec<char>, b: &str) -> (r: bool)
    ensures
        r == (a@ == b@),
{
    let bv = chars_of(b);
    eq_chars(a, &bv)
}

/// Whether two character vectors hold the same sequence.
pub fn eq_chars(a: &Vec<char>, b: &Vec<char>) -> (r: bool)
    ensures
        r == (a@ == b@),
{
    if a.len() != b.len() {
        return false;
    }
    let mut i: usize = 0;
    while i < a.len()
        invariant
            i <= a@.len(),
            a@.len() == b@.len(),
            forall|k: int| 0 <= k < i ==> a@[k] == b@[k],
        decreases a@.len() - i,
    {
        if a[i] != b[i] {
            assert(a@[i as int] != b@[i as int]);
            return false;
        }
        i += 1;
    }
    assert(a@ =~= b@);
    true
}

/// ASCII decimal digit.
pub open spec fn is_digit(c: char) -> bool {
    48 <= c as u32 <= 57
}

/// ASCII lowercase letter.
pub open spec fn is_lower(c: char) -> bool {
    97 <= c as u32 <= 122
}

/// ASCII uppercase letter.
pub open spec fn is_upper(c: char) -> bool {
    65 <= c as u32 <= 90
}

/// ASCII letter.
pub open spec fn is_alpha(c: char) -> bool {
    is_lower(c) || is_upper(c)
}

/// ASCII letter or digit.
pub open spec fn is_alnum(c: char) -> bool {
    is_alpha(c) || is_digit(c)
}

/// ASCII whitespace: space, tab, newline, carriage return, vertical tab,
/// form feed.  The detectors built on it are ASCII-only: a string using
/// other Unicode whitespace or digits is not detected as a format.
pub open spec fn is_space(c: char) -> bool {
    c == ' ' || c == '\t' || c == '\n' || c == '\r' || c as u32 == 11 || c as u32 == 12
}

/// ASCII hexadecimal digit.
pub open spec fn is_hex(c: char) -> bool {
    is_digit(c) || (97 <= c as u32 <= 102) || (65 <= c as u32 <= 70)
}

pub fn digit(c: char) -> (b: bool)
    ensures
        b == is_digit(c),
{
    let u = c as u32;
    48 <= u && u <= 57
}

pub fn lower(c: char) -> (b: bool)
    ensures
        b == is_lower(c),
{
    let u = c as u32;
    97 <= u && u <= 122
}

pub fn upper(c: char) -> (b: bool)
    ensures
        b == is_upper(c),
{
    let u = c as u32;
    65 <= u && u <= 90
}

pub fn alpha(c: char) -> (b: bool)
    ensures
        b == is_alpha(c),
{
    lower(c) || upper(c)
}

pub fn alnum(c: char) -> (b: bool)
    ensures
        b == is_alnum(c),
{
    alpha(c) || digit(c)
}

pub fn space(c: char) -> (b: bool)
    ensures
        b == is_space(c),
{
    let u = c as u32;
    u == 32 || u == 9 || u == 10 || u == 13 || u == 11 || u == 12
}

pub fn hex(c: char) -> (b: bool)
    ensures
        b == is_hex(c),
{
    let u = c as u32;
    digit(c) || (97 <= u && u <= 102) || (65 <= u && u <= 70)
}

/// `c`, with ASCII uppercase letters mapped to lowercase.
pub open spec fn spec_ascii_lower_char(c: char) -> char {
    if is_upper(c) {
        ((c as u32) + 32) as char
    } else {
        c
    }
}

/// `s`, with ASCII uppercase letters mapped to lowercase.
pub open spec fn spec_ascii_lower(s: Seq<char>) -> Seq<char> {
    s.map_values(|c: char| spec_ascii_lower_char(c))
}

pub fn ascii_lower_char(c: char) -> (r: char)
    ensures
        r == spec_ascii_lower_char(c),
{
    let u = c as u32;
    if 65 <= u && u <= 90 {
        let l: u8 = (u as u8) + 32;
        l as char
    } else {
        c
    }
}

/// Lowercases the ASCII letters of `s`.
pub fn ascii_lower(s: &Vec<char>) -> (v: Vec<char>)
    ensures
        v@ == spec_ascii_lower(s@),
{
    let mut v: Vec<char> = Vec::with_capacity(s.len());
    let mut i: usize = 0;
    while i < s.len()
        invariant
            i <= s@.len(),
            v@.len() == i,
            forall|k: int| 0 <= k < i ==> v@[k] == spec_ascii_lower_char(s@[k]),
        decreases s@.len() - i,
    {
        v.push(ascii_lower_char(s[i]));
        i += 1;
    }
    assert(v@ =~= spec_ascii_lower(s@));
    v
}

/// The views of the strings of a vector.
pub open spec fn views_of(parts: Seq<String>) -> Seq<Seq<char>> {
    parts.map_values(|s: String| s@)
}

/// The sequences of `parts` joined with `sep` between consecutive entries.
pub open spec fn spec_join(parts: Seq<Seq<char>>, sep: Seq<char>) -> Seq<char>
    decreases parts.len(),
{
    if parts.len() == 0 {
        Seq::empty()
    } else if parts.len() == 1 {
        parts[0]
    } else {
        spec_join(parts.drop_last(), sep) + sep + parts.last()
    }
}

/// Joins `parts` with `sep` between consecutive entries.
pub fn join_strings(parts: &Vec<String>, sep: &str) -> (r: String)
    ensures
        r@ == spec_join(views_of(parts@), sep@),
{
    let mut r = String::new();
    let mut i: usize = 0;
    while i < parts.len()
        invariant
            i <= parts@.len(),
            r@ == spec_join(views_of(parts@.subrange(0, i as int)), sep@),
        decreases parts@.len() - i,
    {
        if i > 0 {
            r.append(sep);
        }
        r.append(parts[i].as_str());
        proof {
            let next = views_of(parts@.subrange(0, i + 1));
            assert(next.drop_last() =~= views_of(parts@.subrange(0, i as int)));
            assert(next.last() == parts@[i as int]@);
        }
        i += 1;
    }
    proof {
        assert(parts@.subrange(0, parts@.len() as int) =~= parts@);
    }
    r
}

/// `c` occurs in `s`.
pub open spec fn has_char(s: Seq<char>, c: char) -> bool {
    exists|i: int| 0 <= i < s.len() && s[i] == c
}

/// Whether `c` occurs in `s`.
pub fn contains_char(s: &Vec<char>, c: char) -> (b: bool)
    ensures
        b == has_char(s@, c),
{
    let n = s.len();
    let mut i: usize = 0;
    while i < n
        invariant
            i <= n,
            n == s@.len(),
            forall|m: int| 0 <= m < i ==> s@[m] != c,
        decreases n - i,
    {
        if s[i] == c {
            return true;
        }
        i += 1;
    }
    false
}

/// The views of the vectors of a vector.
pub open spec fn views_cc(parts: Seq<Vec<char>>) -> Seq<Seq<char>> {
    parts.map_values(|v: Vec<char>| v@)
}

/// The completed segments and the pending segment after splitting `s` at
/// `sep`, character by character.
pub open spec fn split_acc(s: Seq<char>, sep: char) -> (Seq<Seq<char>>, Seq<char>)
    decreases s.len(),
{
    if s.len() == 0 {
        (Seq::empty(), Seq::empty())
    } else {
        let prev = split_acc(s.drop_last(), sep);
        if s.last() == sep {
            (prev.0.push(prev.1), Seq::empty())
        } else {
            (prev.0, prev.1.push(s.last()))
        }
    }
}

/// `s` split at every occurrence of `sep`; empty segments are kept, as the
/// standard splitter keeps them.
pub open spec fn split_by(s: Seq<char>, sep: char) -> Seq<Seq<char>> {
    split_acc(s, sep).0.push(split_acc(s, sep).1)
}

/// Splits `s` at every occurrence of `sep`.
pub fn split_chars(s: &Vec<char>, sep: char) -> (r: Vec<Vec<char>>)
    ensures
        views_cc(r@) == split_by(s@, sep),
        r@.len() >= 1,
{
    let n = s.len();
    let mut out: Vec<Vec<char>> = Vec::new();
    let mut cur: Vec<char> = Vec::new();
    let mut i: usize = 0;
    while i < n
        invariant
            i <= n,
            n == s@.len(),
            views_cc(out@) == split_acc(s@.subrange(0, i as int), sep).0,
            cur@ == split_acc(s@.subrange(0, i as int), sep).1,
        decreases n - i,
    {
        let ghost pre = s@.subrange(0, i as int);
        let c = s[i];
        if c == sep {
            out.push(cur);
            cur = Vec::new();
        } else {
            cur.push(c);
        }
        proof {
            let next = s@.subrange(0, i + 1);
            assert(next.drop_last() =~= pre);
            assert(next.last() == s@[i as int]);
            if c == sep {
                assert(views_cc(out@) =~= split_acc(next, sep).0);
            } else {
                assert(views_cc(out@) =~= split_acc(next, sep).0);
            }
        }
        i += 1;
    }
    proof {
        assert(s@.subrange(0, n as int) =~= s@);
    }
    out.push(cur);
    proof {
        assert(views_cc(out@) =~= split_by(s@, sep));
    }
    out
}

/// `s` reversed.
pub fn reverse_chars(s: &Vec<char>) -> (r: Vec<char>)
    ensures
        r@ == s@.reverse(),
{
    let n = s.len();
    let mut r: Vec<char> = Vec::with_capacity(n);
    let mut i: usize = 0;
    while i < n
        invariant
            i <= n,
            n == s@.len(),
            r@.len() == i,
            forall|m: int| 0 <= m < i ==> r@[m] == s@[n - 1 - m],
        decreases n - i,
    {
        r.push(s[n - 1 - i]);
        i += 1;
    }
    proof {
        assert(r@ =~= s@.reverse());
    }
    r
}

/// The decimal notation of `n`, most significant digit first.
pub open spec fn dec_rep(n: int) -> Seq<char>
    decreases n,
{
    if n < 0 {
        Seq::empty()
    } else if n < 10 {
        seq![dec_digit(n)]
    } else {
        dec_rep(n / 10) + seq![dec_digit(n % 10)]
    }
}

/// The digit character for a value in 0..=9.
pub open spec fn dec_digit(d: int) -> char {
    (48 + d) as char
}

fn digit_char(d: u64) -> (c: char)
    requires
        d < 10,
    ensures
        c == dec_digit(d as int),
{
    let u: u8 = 48 + (d as u8);
    u as char
}

/// The decimal digits of `n`.
pub fn dec_chars(n: u64) -> (v: Vec<char>)
    ensures
        v@ == dec_rep(n as int),
    decreases n,
{
    if n < 10 {
        let mut v: Vec<char> = Vec::new();
        v.push(digit_char(n));
        assert(v@ =~= dec_rep(n as int));
        v
    } else {
        let mut v = dec_chars(n / 10);
        v.push(digit_char(n % 10));
        assert(v@ =~= dec_rep(n as int));
        v
    }
}

/// Appends the decimal notation of `n` to `out`.
pub fn push_dec(out: &mut String, n: u64)
    ensures
        final(out)@ == old(out)@ + dec_rep(n as int),
{
    let v = dec_chars(n);
    let s = string_from_chars(&v);
    out.append(s.as_str());
}

} // verus!
