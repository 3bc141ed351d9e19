//! The curated format template library.
//!
//! Each template is a canonical text format — UUID, MAC address, dates,
//! email, IPv4 and so on — with a detection predicate over strings, a
//! suggested pattern and a description.  The list is ordered most specific
//! first and the order is significant.  Detection is specified and proved
//! character by character; semantic recognition of a caller's pattern runs
//! that pattern on the matching engine against curated examples.

use vstd::prelude::*;

verus! {

use vstd::string::StringExecFns;
use crate::scan::{is_alnum, is_digit, is_hex, is_space, starts_with};

/// The known formats, most specific first.
#[derive(Debug, Clone, Copy, PartialEq, Eq, Structural)]
pub enum FormatKind {
    Uuid,
    MacAddress,
    HexColor,
    IsoDate,
    UsDate,
    TimeLong,
    TimeShort,
    Email,
    Ipv4,
    Url,
    Semver,
    Phone,
}

// === Detection predicates, one per format ===

/// Hexadecimal digits everywhere but at the four dash positions.
pub open spec fn is_uuid(s: Seq<char>) -> bool {
    &&& s.len() == 36
    &&& forall|m: int|
        0 <= m < 36 ==> (if m == 8 || m == 13 || m == 18 || m == 23 {
            #[trigger] s[m] == '-'
        } else {
            is_hex(s[m])
        })
}

/// Six pairs of hexadecimal digits separated by `:` or `-`.
pub open spec fn is_mac_address(s: Seq<char>) -> bool {
    &&& s.len() == 17
    &&& forall|m: int|
        0 <= m < 17 ==> (if m == 2 || m == 5 || m == 8 || m == 11 || m == 14 {
            #[trigger] s[m] == ':' || s[m] == '-'
        } else {
            is_hex(s[m])
        })
}

/// `#` followed by three or six hexadecimal digits.
pub open spec fn is_hex_color(s: Seq<char>) -> bool {
    &&& (s.len() == 4 || s.len() == 7)
    &&& s[0] == '#'
    &&& forall|m: int| 1 <= m < s.len() ==> is_hex(#[trigger] s[m])
}

/// `YYYY-MM-DD`.
pub open spec fn is_iso_date(s: Seq<char>) -> bool {
    &&& s.len() == 10
    &&& forall|m: int|
        0 <= m < 10 ==> (if m == 4 || m == 7 {
            #[trigger] s[m] == '-'
        } else {
            is_digit(s[m])
        })
}

/// `MM/DD/YYYY`.
pub open spec fn is_us_date(s: Seq<char>) -> bool {
    &&& s.len() == 10
    &&& forall|m: int|
        0 <= m < 10 ==> (if m == 2 || m == 5 {
            #[trigger] s[m] == '/'
        } else {
            is_digit(s[m])
        })
}

/// `HH:MM:SS`.
pub open spec fn is_time_long(s: Seq<char>) -> bool {
    &&& s.len() == 8
    &&& forall|m: int|
        0 <= m < 8 ==> (if m == 2 || m == 5 {
            #[trigger] s[m] == ':'
        } else {
            is_digit(s[m])
        })
}

/// `HH:MM`.
pub open spec fn is_time_short(s: Seq<char>) -> bool {
    &&& s.len() == 5
    &&& forall|m: int|
        0 <= m < 5 ==> (if m == 2 {
            #[trigger] s[m] == ':'
        } else {
            is_digit(s[m])
        })
}

/// A single `@` with a nonempty left side, no whitespace anywhere, and a
/// dot properly inside the part after the `@`.
pub open spec fn is_email(s: Seq<char>) -> bool {
    &&& (forall|m: int| 0 <= m < s.len() ==> !is_space(#[trigger] s[m]))
    &&& exists|a: int| email_at(s, a)
}

pub open spec fn email_at(s: Seq<char>, a: int) -> bool {
    &&& 0 < a < s.len()
    &&& s[a] == '@'
    &&& (forall|m: int| 0 <= m < s.len() && m != a ==> #[trigger] s[m] != '@')
    &&& (exists|d: int| a + 1 < d < s.len() - 1 && #[trigger] s[d] == '.')
}

/// Four runs of one to three digits separated by dots.
pub open spec fn is_ipv4(s: Seq<char>) -> bool {
    exists|i: int, j: int, k: int| ipv4_dots_at(s, i, j, k)
}

pub open spec fn ipv4_dots_at(s: Seq<char>, i: int, j: int, k: int) -> bool {
    &&& 0 < i < j < k < s.len()
    &&& (forall|m: int|
        0 <= m < s.len() ==> (#[trigger] s[m] == '.' <==> (m == i || m == j || m == k)))
    &&& 1 <= i <= 3
    &&& 2 <= j - i <= 4
    &&& 2 <= k - j <= 4
    &&& 1 <= s.len() - k - 1 <= 3
    &&& (forall|m: int|
        0 <= m < s.len() && m != i && m != j && m != k ==> is_digit(#[trigger] s[m]))
}

/// `http://` or `https://` followed by at least one character, with no
/// whitespace after the scheme.
pub open spec fn is_url(s: Seq<char>) -> bool {
    ||| (starts_with(s, "http://"@) && s.len() > 7 && (forall|m: int|
        7 <= m < s.len() ==> !is_space(#[trigger] s[m])))
    ||| (starts_with(s, "https://"@) && s.len() > 8 && (forall|m: int|
        8 <= m < s.len() ==> !is_space(#[trigger] s[m])))
}

/// A character allowed in a semantic-version suffix.
pub open spec fn is_semver_char(c: char) -> bool {
    is_alnum(c) || c == '.'
}

/// What may follow the `MAJOR.MINOR.PATCH` core: nothing, a `+build`
/// suffix, or a `-prerelease` suffix optionally followed by `+build`.
pub open spec fn semver_tail_ok(t: Seq<char>) -> bool {
    ||| t.len() == 0
    ||| (t.len() >= 2 && t[0] == '+' && (forall|m: int|
        1 <= m < t.len() ==> is_semver_char(#[trigger] t[m])))
    ||| (t.len() >= 2 && t[0] == '-' && ((forall|m: int|
        1 <= m < t.len() ==> is_semver_char(#[trigger] t[m])) || (exists|q: int|
        semver_plus_split(t, q))))
}

pub open spec fn semver_plus_split(t: Seq<char>, q: int) -> bool {
    &&& 2 <= q <= t.len() - 2
    &&& t[q] == '+'
    &&& (forall|m: int| 1 <= m < q ==> is_semver_char(#[trigger] t[m]))
    &&& (forall|m: int| q + 1 <= m < t.len() ==> is_semver_char(#[trigger] t[m]))
}

/// `MAJOR.MINOR.PATCH` with optional prerelease and build suffixes.
pub open spec fn is_semver(s: Seq<char>) -> bool {
    exists|i: int, j: int, e: int| semver_core_at(s, i, j, e)
}

pub open spec fn semver_core_at(s: Seq<char>, i: int, j: int, e: int) -> bool {
    &&& 0 < i
    &&& i + 1 < j
    &&& j + 1 < e
    &&& e <= s.len()
    &&& s[i] == '.'
    &&& s[j] == '.'
    &&& (forall|m: int| 0 <= m < i ==> is_digit(#[trigger] s[m]))
    &&& (forall|m: int| i < m < j ==> is_digit(#[trigger] s[m]))
    &&& (forall|m: int| j < m < e ==> is_digit(#[trigger] s[m]))
    &&& semver_tail_ok(s.subrange(e, s.len() as int))
}

/// The length of the optional leading `+` of a phone number.
pub open spec fn phone_lead(s: Seq<char>) -> int {
    if s.len() > 0 && s[0] == '+' {
        1
    } else {
        0
    }
}

/// A character allowed inside a phone number's body.
pub open spec fn is_phone_char(c: char) -> bool {
    is_digit(c) || c == '-' || is_space(c) || c == '(' || c == ')' || c == '.'
}

/// An optional `+`, a digit, at least six body characters, and a final
/// digit.
pub open spec fn is_phone(s: Seq<char>) -> bool {
    let b = phone_lead(s);
    &&& s.len() - b >= 8
    &&& is_digit(s[b])
    &&& is_digit(s[s.len() - 1])
    &&& (forall|m: int| b < m < s.len() - 1 ==> is_phone_char(#[trigger] s[m]))
}

/// The detection predicate of each format.
pub open spec fn spec_detects(k: FormatKind, s: Seq<char>) -> bool {
    match k {
        FormatKind::Uuid => is_uuid(s),
        FormatKind::MacAddress => is_mac_address(s),
        FormatKind::HexColor => is_hex_color(s),
        FormatKind::IsoDate => is_iso_date(s),
        FormatKind::UsDate => is_us_date(s),
        FormatKind::TimeLong => is_time_long(s),
        FormatKind::TimeShort => is_time_short(s),
        FormatKind::Email => is_email(s),
        FormatKind::Ipv4 => is_ipv4(s),
        FormatKind::Url => is_url(s),
        FormatKind::Semver => is_semver(s),
        FormatKind::Phone => is_phone(s),
    }
}

// === Executable detectors ===

/// Whether every character of `s` in `[a, b)` is a digit.
fn all_digits_in(s: &Vec<char>, a: usize, b: usize) -> (r: bool)
    requires
        b <= s@.len(),
    ensures
        r == forall|m: int| a <= m < b ==> is_digit(#[trigger] s@[m]),
{
    let mut i: usize = a;
    if i >= b {
        return true;
    }
    while i < b
        invariant
            a <= i <= b <= s@.len(),
            forall|m: int| a <= m < i ==> is_digit(#[trigger] s@[m]),
        decreases b - i,
    {
        if !crate::scan::digit(s[i]) {
            return false;
        }
        i += 1;
    }
    true
}

/// Whether every character of `s` in `[a, b)` is a semver suffix
/// character.
fn all_semver_chars_in(s: &Vec<char>, a: usize, b: usize) -> (r: bool)
    requires
        b <= s@.len(),
    ensures
        r == forall|m: int| a <= m < b ==> is_semver_char(#[trigger] s@[m]),
{
    let mut i: usize = a;
    if i >= b {
        return true;
    }
    while i < b
        invariant
            a <= i <= b <= s@.len(),
            forall|m: int| a <= m < i ==> is_semver_char(#[trigger] s@[m]),
        decreases b - i,
    {
        if !(crate::scan::alnum(s[i]) || s[i] == '.') {
            return false;
        }
        i += 1;
    }
    true
}

/// The position of the first `c` at or after `from`, if any.
fn first_at_or_after(s: &Vec<char>, from: usize, c: char) -> (r: Option<usize>)
    requires
        from <= s@.len(),
    ensures
        r matches Some(j) ==> from <= j < s@.len() && s@[j as int] == c && (forall|m: int|
            from <= m < j ==> #[trigger] s@[m] != c),
        r is None ==> forall|m: int| from <= m < s@.len() ==> #[trigger] s@[m] != c,
{
    let n = s.len();
    let mut i: usize = from;
    while i < n
        invariant
            from <= i <= n,
            n == s@.len(),
            forall|m: int| from <= m < i ==> #[trigger] s@[m] != c,
        decreases n - i,
    {
        if s[i] == c {
            return Some(i);
        }
        i += 1;
    }
    None
}

fn detect_uuid(s: &Vec<char>) -> (r: bool)
    ensures
        r == is_uuid(s@),
{
    if s.len() != 36 {
        return false;
    }
    let mut i: usize = 0;
    while i < 36
        invariant
            i <= 36,
            s@.len() == 36,
            forall|m: int|
                0 <= m < i ==> (if m == 8 || m == 13 || m == 18 || m == 23 {
                    #[trigger] s@[m] == '-'
                } else {
                    is_hex(s@[m])
                }),
        decreases 36 - i,
    {
        if i == 8 || i == 13 || i == 18 || i == 23 {
            if s[i] != '-' {
                return false;
            }
        } else {
            if !crate::scan::hex(s[i]) {
                return false;
            }
        }
        i += 1;
    }
    true
}

fn detect_mac_address(s: &Vec<char>) -> (r: bool)
    ensures
        r == is_mac_address(s@),
{
    if s.len() != 17 {
        return false;
    }
    let mut i: usize = 0;
    while i < 17
        invariant
            i <= 17,
            s@.len() == 17,
            forall|m: int|
                0 <= m < i ==> (if m == 2 || m == 5 || m == 8 || m == 11 || m == 14 {
                    #[trigger] s@[m] == ':' || s@[m] == '-'
                } else {
                    is_hex(s@[m])
                }),
        decreases 17 - i,
    {
        if i == 2 || i == 5 || i == 8 || i == 11 || i == 14 {
            if !(s[i] == ':' || s[i] == '-') {
                return false;
            }
        } else {
            if !crate::scan::hex(s[i]) {
                return false;
            }
        }
        i += 1;
    }
    true
}

fn detect_hex_color(s: &Vec<char>) -> (r: bool)
    ensures
        r == is_hex_color(s@),
{
    let n = s.len();
    if !(n == 4 || n == 7) {
        return false;
    }
    if s[0] != '#' {
        return false;
    }
    let mut i: usize = 1;
    while i < n
        invariant
            1 <= i <= n,
            n == s@.len(),
            n == 4 || n == 7,
            s@[0] == '#',
            forall|m: int| 1 <= m < i ==> is_hex(#[trigger] s@[m]),
        decreases n - i,
    {
        if !crate::scan::hex(s[i]) {
            return false;
        }
        i += 1;
    }
    true
}

fn detect_iso_date(s: &Vec<char>) -> (r: bool)
    ensures
        r == is_iso_date(s@),
{
    if s.len() != 10 {
        return false;
    }
    let mut i: usize = 0;
    while i < 10
        invariant
            i <= 10,
            s@.len() == 10,
            forall|m: int|
                0 <= m < i ==> (if m == 4 || m == 7 {
                    #[trigger] s@[m] == '-'
                } else {
                    is_digit(s@[m])
                }),
        decreases 10 - i,
    {
        if i == 4 || i == 7 {
            if s[i] != '-' {
                return false;
            }
        } else {
            if !crate::scan::digit(s[i]) {
                return false;
            }
        }
        i += 1;
    }
    true
}

fn detect_us_date(s: &Vec<char>) -> (r: bool)
    ensures
        r == is_us_date(s@),
{
    if s.len() != 10 {
        return false;
    }
    let mut i: usize = 0;
    while i < 10
        invariant
            i <= 10,
            s@.len() == 10,
            forall|m: int|
                0 <= m < i ==> (if m == 2 || m == 5 {
                    #[trigger] s@[m] == '/'
                } else {
                    is_digit(s@[m])
                }),
        decreases 10 - i,
    {
        if i == 2 || i == 5 {
            if s[i] != '/' {
                return false;
            }
        } else {
            if !crate::scan::digit(s[i]) {
                return false;
            }
        }
        i += 1;
    }
    true
}

fn detect_time_long(s: &Vec<char>) -> (r: bool)
    ensures
        r == is_time_long(s@),
{
    if s.len() != 8 {
        return false;
    }
    let mut i: usize = 0;
    while i < 8
        invariant
            i <= 8,
            s@.len() == 8,
            forall|m: int|
                0 <= m < i ==> (if m == 2 || m == 5 {
                    #[trigger] s@[m] == ':'
                } else {
                    is_digit(s@[m])
                }),
        decreases 8 - i,
    {
        if i == 2 || i == 5 {
            if s[i] != ':' {
                return false;
            }
        } else {
            if !crate::scan::digit(s[i]) {
                return false;
            }
        }
        i += 1;
    }
    true
}

fn detect_time_short(s: &Vec<char>) -> (r: bool)
    ensures
        r == is_time_short(s@),
{
    if s.len() != 5 {
        return false;
    }
    let mut i: usize = 0;
    while i < 5
        invariant
            i <= 5,
            s@.len() == 5,
            forall|m: int|
                0 <= m < i ==> (if m == 2 {
                    #[trigger] s@[m] == ':'
                } else {
                    is_digit(s@[m])
                }),
        decreases 5 - i,
    {
        if i == 2 {
            if s[i] != ':' {
                return false;
            }
        } else {
            if !crate::scan::digit(s[i]) {
                return false;
            }
        }
        i += 1;
    }
    true
}

fn detect_email(s: &Vec<char>) -> (r: bool)
    ensures
        r == is_email(s@),
{
    let n = s.len();
    // no whitespace anywhere
    let mut i: usize = 0;
    while i < n
        invariant
            i <= n,
            n == s@.len(),
            forall|m: int| 0 <= m < i ==> !is_space(#[trigger] s@[m]),
        decreases n - i,
    {
        if crate::scan::space(s[i]) {
            assert(!is_email(s@));
            return false;
        }
        i += 1;
    }
    // exactly one '@', not first
    let a = match first_at_or_after(s, 0, '@') {
        Some(a) => a,
        None => {
            proof {
                assert forall|a0: int| !email_at(s@, a0) by {
                    if email_at(s@, a0) {
                        assert(s@[a0] == '@');
                    }
                }
            }
            return false;
        },
    };
    if a == 0 {
        proof {
            assert forall|a0: int| !email_at(s@, a0) by {
                if email_at(s@, a0) {
                    assert(a0 != 0 ==> s@[0] != '@');
                }
            }
        }
        return false;
    }
    match first_at_or_after(s, a + 1, '@') {
        Some(a2) => {
            proof {
                assert forall|a0: int| !email_at(s@, a0) by {
                    if email_at(s@, a0) {
                        if a0 == a2 {
                            assert(s@[a as int] != '@');
                        } else {
                            assert(s@[a2 as int] != '@');
                        }
                    }
                }
            }
            return false;
        },
        None => {},
    }
    // a dot strictly inside the part after '@'
    if a >= n - 2 {
        proof {
            assert forall|a0: int| !email_at(s@, a0) by {
                if email_at(s@, a0) {
                    if a0 != a {
                        assert(s@[a0] != '@');
                    }
                }
            }
        }
        return false;
    }
    let mut d: usize = a + 2;
    let mut found = false;
    while d < n - 1
        invariant
            a + 2 <= d <= n - 1,
            n == s@.len(),
            found == exists|t: int| a + 1 < t < d && #[trigger] s@[t] == '.',
        decreases n - d,
    {
        if s[d] == '.' {
            found = true;
        }
        d += 1;
    }
    proof {
        if found {
            let t = choose|t: int| a + 1 < t < d && #[trigger] s@[t] == '.';
            assert(email_at(s@, a as int));
        } else {
            assert forall|a0: int| !email_at(s@, a0) by {
                if email_at(s@, a0) {
                    if a0 != a {
                        assert(s@[a0] != '@');
                    } else {
                        let t = choose|t0: int|
                            a0 + 1 < t0 < s@.len() - 1 && #[trigger] s@[t0] == '.';
                        assert(a + 1 < t < d && s@[t] == '.');
                    }
                }
            }
        }
    }
    found
}

fn detect_ipv4(s: &Vec<char>) -> (r: bool)
    ensures
        r == is_ipv4(s@),
{
    let n = s.len();
    let i = match first_at_or_after(s, 0, '.') {
        Some(i) => i,
        None => {
            proof {
                assert forall|i0: int, j0: int, k0: int| !ipv4_dots_at(s@, i0, j0, k0) by {
                    if ipv4_dots_at(s@, i0, j0, k0) {
                        assert(s@[i0] == '.');
                    }
                }
            }
            return false;
        },
    };
    if !(1 <= i && i <= 3) {
        proof {
            assert forall|i0: int, j0: int, k0: int| !ipv4_dots_at(s@, i0, j0, k0) by {
                if ipv4_dots_at(s@, i0, j0, k0) {
                    assert(s@[i0] == '.');
                    assert(i <= i0);
                    assert(s@[i as int] == '.');
                    assert(i as int == i0 || i as int == j0 || i as int == k0);
                }
            }
        }
        return false;
    }
    let j = match first_at_or_after(s, i + 1, '.') {
        Some(j) => j,
        None => {
            proof {
                assert forall|i0: int, j0: int, k0: int| !ipv4_dots_at(s@, i0, j0, k0) by {
                    if ipv4_dots_at(s@, i0, j0, k0) {
                        assert(s@[j0] == '.');
                        assert(s@[i0] == '.');
                        assert(i <= i0);
                        assert(j0 > i0 >= i);
                    }
                }
            }
            return false;
        },
    };
    if !(i + 2 <= j && j <= i + 4) {
        proof {
            assert forall|i0: int, j0: int, k0: int| !ipv4_dots_at(s@, i0, j0, k0) by {
                if ipv4_dots_at(s@, i0, j0, k0) {
                    // i is the first dot, so i == i0; j is the next, so j == j0
                    assert(s@[i0] == '.');
                    assert(i <= i0);
                    assert(i as int == i0 || i as int == j0 || i as int == k0);
                    assert(i as int == i0);
                    assert(s@[j0] == '.');
                    assert(j <= j0);
                    assert(j as int == i0 || j as int == j0 || j as int == k0);
                    assert(j as int == j0);
                }
            }
        }
        return false;
    }
    let k = match first_at_or_after(s, j + 1, '.') {
        Some(k) => k,
        None => {
            proof {
                assert forall|i0: int, j0: int, k0: int| !ipv4_dots_at(s@, i0, j0, k0) by {
                    if ipv4_dots_at(s@, i0, j0, k0) {
                        assert(s@[i0] == '.');
                        assert(i <= i0);
                        assert(i as int == i0);
                        assert(s@[j0] == '.');
                        assert(j <= j0);
                        assert(j as int == j0);
                        assert(s@[k0] == '.');
                        assert(k0 > j0);
                    }
                }
            }
            return false;
        },
    };
    if !(j + 2 <= k && k <= j + 4 && k + 2 <= n && n <= k + 4) {
        proof {
            assert forall|i0: int, j0: int, k0: int| !ipv4_dots_at(s@, i0, j0, k0) by {
                if ipv4_dots_at(s@, i0, j0, k0) {
                    assert(s@[i0] == '.');
                    assert(i <= i0);
                    assert(i as int == i0);
                    assert(s@[j0] == '.');
                    assert(j <= j0);
                    assert(j as int == j0);
                    assert(s@[k0] == '.');
                    assert(k <= k0);
                    assert(k as int == i0 || k as int == j0 || k as int == k0);
                    assert(k as int == k0);
                }
            }
        }
        return false;
    }
    // no further dot, and digits everywhere else
    match first_at_or_after(s, k + 1, '.') {
        Some(x) => {
            proof {
                assert forall|i0: int, j0: int, k0: int| !ipv4_dots_at(s@, i0, j0, k0) by {
                    if ipv4_dots_at(s@, i0, j0, k0) {
                        assert(s@[i0] == '.');
                        assert(i <= i0);
                        assert(i as int == i0);
                        assert(s@[j0] == '.');
                        assert(j <= j0);
                        assert(j as int == j0);
                        assert(s@[k0] == '.');
                        assert(k <= k0);
                        assert(k as int == k0);
                        assert(s@[x as int] == '.');
                        assert(x as int == i0 || x as int == j0 || x as int == k0);
                    }
                }
            }
            return false;
        },
        None => {},
    }
    let digits_ok = all_digits_in(s, 0, i) && all_digits_in(s, i + 1, j) && all_digits_in(
        s,
        j + 1,
        k,
    ) && all_digits_in(s, k + 1, n);
    proof {
        if digits_ok {
            assert forall|m: int|
                0 <= m < s@.len() implies (#[trigger] s@[m] == '.' <==> (m == i as int || m
                == j as int || m == k as int)) by {
                if m != i as int && m != j as int && m != k as int {
                    assert(is_digit(s@[m]));
                }
            }
            assert(ipv4_dots_at(s@, i as int, j as int, k as int));
        } else {
            assert forall|i0: int, j0: int, k0: int| !ipv4_dots_at(s@, i0, j0, k0) by {
                if ipv4_dots_at(s@, i0, j0, k0) {
                    assert(s@[i0] == '.');
                    assert(i <= i0);
                    assert(i as int == i0);
                    assert(s@[j0] == '.');
                    assert(j <= j0);
                    assert(j as int == j0);
                    assert(s@[k0] == '.');
                    assert(k <= k0);
                    assert(k as int == k0);
                    assert forall|m: int| 0 <= m < i implies is_digit(#[trigger] s@[m]) by {}
                    assert forall|m: int| i < m < j implies is_digit(#[trigger] s@[m]) by {}
                    assert forall|m: int| j < m < k implies is_digit(#[trigger] s@[m]) by {}
                    assert forall|m: int| k < m < s@.len() implies is_digit(
                        #[trigger] s@[m],
                    ) by {}
                }
            }
        }
    }
    digits_ok
}

fn detect_url(s: &Vec<char>) -> (r: bool)
    ensures
        r == is_url(s@),
{
    proof {
        reveal_strlit("http://");
        reveal_strlit("https://");
    }
    let n = s.len();
    let http = crate::scan::starts_with_str(s, "http://");
    let https = crate::scan::starts_with_str(s, "https://");
    if http {
        if n <= 7 {
            proof {
                if starts_with(s@, "https://"@) {
                    assert(s@.len() >= 8);
                }
            }
            return false;
        }
        let mut m: usize = 7;
        while m < n
            invariant
                7 <= m <= n,
                n == s@.len(),
                starts_with(s@, "http://"@),
                "http://"@.len() == 7,
                "http://"@[4] == ':',
                "https://"@.len() == 8,
                "https://"@[4] == 's',
                forall|t: int| 7 <= t < m ==> !is_space(#[trigger] s@[t]),
            decreases n - m,
        {
            if crate::scan::space(s[m]) {
                proof {
                    assert(s@[4] == ':');
                    if starts_with(s@, "https://"@) {
                        assert(s@[4] == 's');
                    }
                    assert(is_space(s@[m as int]));
                }
                return false;
            }
            m += 1;
        }
        return true;
    }
    if https {
        if n <= 8 {
            return false;
        }
        let mut m: usize = 8;
        while m < n
            invariant
                8 <= m <= n,
                n == s@.len(),
                !starts_with(s@, "http://"@),
                forall|t: int| 8 <= t < m ==> !is_space(#[trigger] s@[t]),
            decreases n - m,
        {
            if crate::scan::space(s[m]) {
                proof {
                    assert(is_space(s@[m as int]));
                }
                return false;
            }
            m += 1;
        }
        return true;
    }
    false
}

fn semver_tail_check(s: &Vec<char>, e: usize) -> (r: bool)
    requires
        e <= s@.len(),
    ensures
        r == semver_tail_ok(s@.subrange(e as int, s@.len() as int)),
{
    let n = s.len();
    let ghost t = s@.subrange(e as int, s@.len() as int);
    proof {
        assert(t.len() == n - e);
        assert(forall|m: int| 0 <= m < t.len() ==> #[trigger] t[m] == s@[e + m]);
    }
    if e == n {
        return true;
    }
    let c0 = s[e];
    if c0 == '+' {
        if n - e < 2 {
            assert(!semver_tail_ok(t));
            return false;
        }
        let r = all_semver_chars_in(s, e + 1, n);
        proof {
            if r {
                assert forall|m: int| 1 <= m < t.len() implies is_semver_char(
                    #[trigger] t[m],
                ) by {
                    assert(t[m] == s@[e + m]);
                    assert(is_semver_char(s@[e + m]));
                }
            } else {
                let w = choose|m: int|
                    e + 1 <= m < s@.len() && !is_semver_char(#[trigger] s@[m]);
                assert(t[w - e] == s@[w]);
                assert(!is_semver_char(t[w - e]));
                assert(t[0] == '+');
                assert(!is_semver_char('+')) by {
                    assert('+' as u32 == 43);
                }
                if semver_tail_ok(t) {
                    if exists|q: int| semver_plus_split(t, q) {
                        let q = choose|q: int| semver_plus_split(t, q);
                        assert(t[0] != '-') by {
                            assert('+' as u32 == 43 && '-' as u32 == 45);
                        }
                    }
                }
            }
        }
        return r;
    }
    if c0 == '-' {
        if n - e < 2 {
            assert(!semver_tail_ok(t));
            return false;
        }
        let q = match first_at_or_after(s, e + 1, '+') {
            Some(q) => q,
            None => {
                let r = all_semver_chars_in(s, e + 1, n);
                proof {
                    assert(t[0] == '-');
                    assert(t[0] != '+') by {
                        assert('+' as u32 == 43 && '-' as u32 == 45);
                    }
                    if r {
                        assert forall|m: int| 1 <= m < t.len() implies is_semver_char(
                            #[trigger] t[m],
                        ) by {
                            assert(t[m] == s@[e + m]);
                        }
                    } else {
                        let w = choose|m: int|
                            e + 1 <= m < s@.len() && !is_semver_char(#[trigger] s@[m]);
                        assert(t[w - e] == s@[w]);
                        if semver_tail_ok(t) {
                            if exists|q0: int| semver_plus_split(t, q0) {
                                let q0 = choose|q0: int| semver_plus_split(t, q0);
                                assert(t[q0] == '+');
                                assert(s@[e + q0] == '+');
                            }
                        }
                    }
                }
                return r;
            },
        };
        if q == e + 1 || q + 1 >= n {
            proof {
                assert(t[0] == '-');
                assert(is_semver_char('+') == false) by {
                    assert('+' as u32 == 43);
                }
                if semver_tail_ok(t) {
                    if forall|m: int| 1 <= m < t.len() ==> is_semver_char(#[trigger] t[m]) {
                        assert(t[q - e] == s@[q as int]);
                        assert(1 <= q - e < t.len());
                    } else {
                        let q0 = choose|q0: int| semver_plus_split(t, q0);
                        assert(t[q0] == '+');
                        assert(s@[e + q0] == '+');
                        assert(e + q0 >= q);
                        if e + q0 > q {
                            assert(t[q - e] == s@[q as int]);
                            assert(1 <= q - e < q0);
                            assert(is_semver_char(t[q - e]));
                        }
                        assert(e + q0 == q);
                        assert(q0 <= t.len() - 2);
                    }
                }
            }
            return false;
        }
        let r = all_semver_chars_in(s, e + 1, q) && all_semver_chars_in(s, q + 1, n);
        proof {
            assert(t[0] == '-');
            assert(t[q - e] == s@[q as int]);
            if r {
                assert(semver_plus_split(t, q - e)) by {
                    assert(2 <= q - e <= t.len() - 2);
                    assert(t[q - e] == '+');
                    assert forall|m: int| 1 <= m < q - e implies is_semver_char(
                        #[trigger] t[m],
                    ) by {
                        assert(t[m] == s@[e + m]);
                    }
                    assert forall|m: int| q - e + 1 <= m < t.len() implies is_semver_char(
                        #[trigger] t[m],
                    ) by {
                        assert(t[m] == s@[e + m]);
                    }
                }
            } else {
                if semver_tail_ok(t) {
                    assert(is_semver_char('+') == false) by {
                        assert('+' as u32 == 43);
                    }
                    if forall|m: int| 1 <= m < t.len() ==> is_semver_char(#[trigger] t[m]) {
                        assert(!is_semver_char(t[q - e]));
                    } else {
                        let q0 = choose|q0: int| semver_plus_split(t, q0);
                        assert(t[q0] == '+');
                        assert(s@[e + q0] == '+');
                        assert(e + q0 >= q);
                        assert(e + q0 == q);
                        let w = if !(forall|m: int|
                            e + 1 <= m < q ==> is_semver_char(#[trigger] s@[m])) {
                            choose|m: int|
                                e + 1 <= m < q && !is_semver_char(#[trigger] s@[m])
                        } else {
                            choose|m: int|
                                q + 1 <= m < s@.len() && !is_semver_char(#[trigger] s@[m])
                        };
                        assert(t[w - e] == s@[w]);
                    }
                }
            }
        }
        return r;
    }
    proof {
        assert(t[0] == s@[e as int]);
        assert(t.len() >= 1);
        if semver_tail_ok(t) {
            assert(t[0] == '+' || t[0] == '-');
        }
    }
    false
}

/// The end of the run of digits starting at `start`.
fn digit_run_end(s: &Vec<char>, start: usize) -> (e: usize)
    requires
        start <= s@.len(),
    ensures
        start <= e <= s@.len(),
        forall|m: int| start <= m < e ==> is_digit(#[trigger] s@[m]),
        e < s@.len() ==> !is_digit(s@[e as int]),
{
    let n = s.len();
    let mut e: usize = start;
    while e < n
        invariant
            start <= e <= n,
            n == s@.len(),
            forall|m: int| start <= m < e ==> is_digit(#[trigger] s@[m]),
        decreases n - e,
    {
        if !crate::scan::digit(s[e]) {
            return e;
        }
        e += 1;
    }
    e
}

fn detect_semver(s: &Vec<char>) -> (r: bool)
    ensures
        r == is_semver(s@),
{
    let n = s.len();
    let i = match first_at_or_after(s, 0, '.') {
        Some(i) => i,
        None => {
            proof {
                assert forall|i0: int, j0: int, e0: int| !semver_core_at(s@, i0, j0, e0) by {
                    if semver_core_at(s@, i0, j0, e0) {
                        assert(s@[i0] == '.');
                    }
                }
            }
            return false;
        },
    };
    if i == 0 || !all_digits_in(s, 0, i) {
        proof {
            assert forall|i0: int, j0: int, e0: int| !semver_core_at(s@, i0, j0, e0) by {
                if semver_core_at(s@, i0, j0, e0) {
                    assert(s@[i0] == '.');
                    assert(i <= i0);
                    if i < i0 {
                        assert(is_digit(s@[i as int]));
                        assert(is_digit('.') == false) by {
                            assert('.' as u32 == 46);
                        }
                    }
                    assert(i as int == i0);
                }
            }
        }
        return false;
    }
    let j = match first_at_or_after(s, i + 1, '.') {
        Some(j) => j,
        None => {
            proof {
                assert forall|i0: int, j0: int, e0: int| !semver_core_at(s@, i0, j0, e0) by {
                    if semver_core_at(s@, i0, j0, e0) {
                        assert(s@[i0] == '.');
                        assert(i <= i0);
                        if i < i0 {
                            assert(is_digit(s@[i as int]));
                            assert(is_digit('.') == false) by {
                                assert('.' as u32 == 46);
                            }
                        }
                        assert(i as int == i0);
                        assert(s@[j0] == '.');
                        assert(j0 > i0);
                    }
                }
            }
            return false;
        },
    };
    if j == i + 1 || !all_digits_in(s, i + 1, j) {
        proof {
            assert(is_digit('.') == false) by {
                assert('.' as u32 == 46);
            }
            assert forall|i0: int, j0: int, e0: int| !semver_core_at(s@, i0, j0, e0) by {
                if semver_core_at(s@, i0, j0, e0) {
                    assert(s@[i0] == '.');
                    assert(i <= i0);
                    if i < i0 {
                        assert(is_digit(s@[i as int]));
                    }
                    assert(i as int == i0);
                    assert(s@[j0] == '.');
                    assert(j <= j0);
                    if (j as int) < j0 {
                        assert(is_digit(s@[j as int]));
                    }
                    assert(j as int == j0);
                }
            }
        }
        return false;
    }
    // end of the patch digit run
    let e = digit_run_end(s, j + 1);
    if e == j + 1 {
        proof {
            assert(is_digit('.') == false) by {
                assert('.' as u32 == 46);
            }
            assert forall|i0: int, j0: int, e0: int| !semver_core_at(s@, i0, j0, e0) by {
                if semver_core_at(s@, i0, j0, e0) {
                    assert(s@[i0] == '.');
                    assert(i <= i0);
                    if i < i0 {
                        assert(is_digit(s@[i as int]));
                    }
                    assert(i as int == i0);
                    assert(s@[j0] == '.');
                    assert(j <= j0);
                    if (j as int) < j0 {
                        assert(is_digit(s@[j as int]));
                    }
                    assert(j as int == j0);
                    assert(is_digit(s@[j0 + 1]));
                    assert(!is_digit(s@[e as int]) || e >= n) by {
                        if e < n {
                        }
                    }
                }
            }
        }
        return false;
    }
    let tail_ok = semver_tail_check(s, e);
    proof {
        assert(is_digit('.') == false) by {
            assert('.' as u32 == 46);
        }
        if tail_ok {
            assert(semver_core_at(s@, i as int, j as int, e as int));
        } else {
            assert forall|i0: int, j0: int, e0: int| !semver_core_at(s@, i0, j0, e0) by {
                if semver_core_at(s@, i0, j0, e0) {
                    assert(s@[i0] == '.');
                    assert(i <= i0);
                    if i < i0 {
                        assert(is_digit(s@[i as int]));
                    }
                    assert(i as int == i0);
                    assert(s@[j0] == '.');
                    assert(j <= j0);
                    if (j as int) < j0 {
                        assert(is_digit(s@[j as int]));
                    }
                    assert(j as int == j0);
                    // e0 and e both end the digit run after j
                    let t0 = s@.subrange(e0, s@.len() as int);
                    if e0 < e {
                        // s[e0] is a digit, so the tail at e0 starts with a digit
                        assert(is_digit(s@[e0]));
                        if semver_tail_ok(t0) {
                            assert(t0.len() > 0);
                            assert(t0[0] == s@[e0]);
                            assert(t0[0] == '+' || t0[0] == '-');
                            assert(is_digit('+') == false && is_digit('-') == false) by {
                                assert('+' as u32 == 43 && '-' as u32 == 45);
                            }
                        }
                    } else if e0 > e {
                        assert(e < n);
                        assert(is_digit(s@[e as int]));
                    } else {
                        assert(semver_tail_ok(s@.subrange(e as int, s@.len() as int)));
                    }
                }
            }
        }
    }
    tail_ok
}

fn detect_phone(s: &Vec<char>) -> (r: bool)
    ensures
        r == is_phone(s@),
{
    let n = s.len();
    let b: usize = if n > 0 && s[0] == '+' {
        1
    } else {
        0
    };
    proof {
        assert(b as int == phone_lead(s@));
    }
    if n < b + 8 {
        return false;
    }
    if !crate::scan::digit(s[b]) {
        return false;
    }
    if !crate::scan::digit(s[n - 1]) {
        return false;
    }
    let mut m: usize = b + 1;
    while m < n - 1
        invariant
            b + 1 <= m <= n - 1,
            b as int == phone_lead(s@),
            n == s@.len(),
            n >= b + 8,
            is_digit(s@[b as int]),
            is_digit(s@[n - 1]),
            forall|t: int| b < t < m ==> is_phone_char(#[trigger] s@[t]),
        decreases n - m,
    {
        let c = s[m];
        if !(crate::scan::digit(c) || c == '-' || crate::scan::space(c) || c == '(' || c == ')'
            || c == '.') {
            assert(!is_phone_char(s@[m as int]));
            return false;
        }
        m += 1;
    }
    true
}

/// Whether a string is detected as the given format.
pub fn detects(k: FormatKind, s: &Vec<char>) -> (r: bool)
    ensures
        r == spec_detects(k, s@),
{
    match k {
        FormatKind::Uuid => detect_uuid(s),
        FormatKind::MacAddress => detect_mac_address(s),
        FormatKind::HexColor => detect_hex_color(s),
        FormatKind::IsoDate => detect_iso_date(s),
        FormatKind::UsDate => detect_us_date(s),
        FormatKind::TimeLong => detect_time_long(s),
        FormatKind::TimeShort => detect_time_short(s),
        FormatKind::Email => detect_email(s),
        FormatKind::Ipv4 => detect_ipv4(s),
        FormatKind::Url => detect_url(s),
        FormatKind::Semver => detect_semver(s),
        FormatKind::Phone => detect_phone(s),
    }
}

// === The template table ===

/// The suggested output pattern of each format.
pub open spec fn template_pattern(k: FormatKind) -> Seq<char> {
    match k {
        FormatKind::Uuid => "[0-9a-fA-F]{8}-[0-9a-fA-F]{4}-[0-9a-fA-F]{4}-[0-9a-fA-F]{4}-[0-9a-fA-F]{12}"@,
        FormatKind::MacAddress => "[0-9a-fA-F]{2}[:-][0-9a-fA-F]{2}(?:[:-][0-9a-fA-F]{2}){4}"@,
        FormatKind::HexColor => "#(?:[0-9a-fA-F]{3}|[0-9a-fA-F]{6})"@,
        FormatKind::IsoDate => "\\d{4}-\\d{2}-\\d{2}"@,
        FormatKind::UsDate => "\\d{2}/\\d{2}/\\d{4}"@,
        FormatKind::TimeLong => "\\d{2}:\\d{2}:\\d{2}"@,
        FormatKind::TimeShort => "\\d{2}:\\d{2}"@,
        FormatKind::Email => "[a-zA-Z0-9._%+-]+@[a-zA-Z0-9.-]+\\.[a-zA-Z]{2,}"@,
        FormatKind::Ipv4 => "\\d{1,3}\\.\\d{1,3}\\.\\d{1,3}\\.\\d{1,3}"@,
        FormatKind::Url => "https?://\\S+"@,
        FormatKind::Semver => "\\d+\\.\\d+\\.\\d+(?:-[a-zA-Z0-9.]+)?(?:\\+[a-zA-Z0-9.]+)?"@,
        FormatKind::Phone => "\\+?\\d[\\d\\-\\s().]{6,}\\d"@,
    }
}

/// The human description of each format.
pub open spec fn template_desc(k: FormatKind) -> Seq<char> {
    match k {
        FormatKind::Uuid => "UUID"@,
        FormatKind::MacAddress => "MAC address"@,
        FormatKind::HexColor => "Hex color code"@,
        FormatKind::IsoDate => "ISO 8601 date (YYYY-MM-DD)"@,
        FormatKind::UsDate => "US date format (MM/DD/YYYY)"@,
        FormatKind::TimeLong => "Time with seconds (HH:MM:SS)"@,
        FormatKind::TimeShort => "Time (HH:MM)"@,
        FormatKind::Email => "Email address"@,
        FormatKind::Ipv4 => "IPv4 address"@,
        FormatKind::Url => "URL (HTTP/HTTPS)"@,
        FormatKind::Semver => "Semantic version (SemVer)"@,
        FormatKind::Phone => "Phone number"@,
    }
}

/// The suggested output pattern of a format.
pub fn format_pattern(k: FormatKind) -> (r: String)
    ensures
        r@ == template_pattern(k),
{
    match k {
        FormatKind::Uuid => String::from_str(
            "[0-9a-fA-F]{8}-[0-9a-fA-F]{4}-[0-9a-fA-F]{4}-[0-9a-fA-F]{4}-[0-9a-fA-F]{12}",
        ),
        FormatKind::MacAddress => String::from_str(
            "[0-9a-fA-F]{2}[:-][0-9a-fA-F]{2}(?:[:-][0-9a-fA-F]{2}){4}",
        ),
        FormatKind::HexColor => String::from_str("#(?:[0-9a-fA-F]{3}|[0-9a-fA-F]{6})"),
        FormatKind::IsoDate => String::from_str("\\d{4}-\\d{2}-\\d{2}"),
        FormatKind::UsDate => String::from_str("\\d{2}/\\d{2}/\\d{4}"),
        FormatKind::TimeLong => String::from_str("\\d{2}:\\d{2}:\\d{2}"),
        FormatKind::TimeShort => String::from_str("\\d{2}:\\d{2}"),
        FormatKind::Email => String::from_str("[a-zA-Z0-9._%+-]+@[a-zA-Z0-9.-]+\\.[a-zA-Z]{2,}"),
        FormatKind::Ipv4 => String::from_str("\\d{1,3}\\.\\d{1,3}\\.\\d{1,3}\\.\\d{1,3}"),
        FormatKind::Url => String::from_str("https?://\\S+"),
        FormatKind::Semver => String::from_str(
            "\\d+\\.\\d+\\.\\d+(?:-[a-zA-Z0-9.]+)?(?:\\+[a-zA-Z0-9.]+)?",
        ),
        FormatKind::Phone => String::from_str("\\+?\\d[\\d\\-\\s().]{6,}\\d"),
    }
}

/// The human description of a format.
pub fn format_desc(k: FormatKind) -> (r: String)
    ensures
        r@ == template_desc(k),
{
    match k {
        FormatKind::Uuid => String::from_str("UUID"),
        FormatKind::MacAddress => String::from_str("MAC address"),
        FormatKind::HexColor => String::from_str("Hex color code"),
        FormatKind::IsoDate => String::from_str("ISO 8601 date (YYYY-MM-DD)"),
        FormatKind::UsDate => String::from_str("US date format (MM/DD/YYYY)"),
        FormatKind::TimeLong => String::from_str("Time with seconds (HH:MM:SS)"),
        FormatKind::TimeShort => String::from_str("Time (HH:MM)"),
        FormatKind::Email => String::from_str("Email address"),
        FormatKind::Ipv4 => String::from_str("IPv4 address"),
        FormatKind::Url => String::from_str("URL (HTTP/HTTPS)"),
        FormatKind::Semver => String::from_str("Semantic version (SemVer)"),
        FormatKind::Phone => String::from_str("Phone number"),
    }
}

/// The template order: most specific formats first; the order is fixed and
/// significant.
pub open spec fn spec_kind_order() -> Seq<FormatKind> {
    seq![
        FormatKind::Uuid,
        FormatKind::MacAddress,
        FormatKind::HexColor,
        FormatKind::IsoDate,
        FormatKind::UsDate,
        FormatKind::TimeLong,
        FormatKind::TimeShort,
        FormatKind::Email,
        FormatKind::Ipv4,
        FormatKind::Url,
        FormatKind::Semver,
        FormatKind::Phone,
    ]
}

/// The template order as a vector.
pub fn kind_order() -> (r: Vec<FormatKind>)
    ensures
        r@ == spec_kind_order(),
{
    let mut v: Vec<FormatKind> = Vec::new();
    v.push(FormatKind::Uuid);
    v.push(FormatKind::MacAddress);
    v.push(FormatKind::HexColor);
    v.push(FormatKind::IsoDate);
    v.push(FormatKind::UsDate);
    v.push(FormatKind::TimeLong);
    v.push(FormatKind::TimeShort);
    v.push(FormatKind::Email);
    v.push(FormatKind::Ipv4);
    v.push(FormatKind::Url);
    v.push(FormatKind::Semver);
    v.push(FormatKind::Phone);
    proof {
        assert(v@ =~= spec_kind_order());
    }
    v
}

/// Every example is detected as format `k`.
pub open spec fn spec_all_match(k: FormatKind, exs: Seq<String>) -> bool {
    forall|t: int| 0 <= t < exs.len() ==> spec_detects(k, #[trigger] exs[t]@)
}

/// The formats of `ks`, in order, whose detection predicate accepts every
/// example.
pub open spec fn detected_list(ks: Seq<FormatKind>, exs: Seq<String>) -> Seq<FormatKind>
    decreases ks.len(),
{
    if ks.len() == 0 {
        Seq::empty()
    } else {
        let rest = detected_list(ks.drop_last(), exs);
        if spec_all_match(ks.last(), exs) {
            rest.push(ks.last())
        } else {
            rest
        }
    }
}

/// Whether every example is detected as format `k`.
fn all_examples_match(k: FormatKind, examples: &Vec<String>) -> (r: bool)
    ensures
        r == spec_all_match(k, examples@),
{
    let mut t: usize = 0;
    while t < examples.len()
        invariant
            t <= examples@.len(),
            forall|t0: int| 0 <= t0 < t ==> spec_detects(k, #[trigger] examples@[t0]@),
        decreases examples@.len() - t,
    {
        let cs = crate::scan::chars_of(examples[t].as_str());
        if !detects(k, &cs) {
            assert(!spec_detects(k, examples@[t as int]@));
            return false;
        }
        t += 1;
    }
    true
}

/// Detects the known formats that every example matches.
///
/// Returns `(pattern, description)` pairs, in template order: most
/// specific first.
pub fn detect_known_formats(examples: &Vec<String>) -> (r: Vec<(String, String)>)
    ensures
        r@.len() == detected_list(spec_kind_order(), examples@).len(),
        forall|t: int|
            0 <= t < r@.len() ==> (#[trigger] r@[t]).0@ == template_pattern(
                detected_list(spec_kind_order(), examples@)[t],
            ) && r@[t].1@ == template_desc(detected_list(spec_kind_order(), examples@)[t]),
{
    let kinds = kind_order();
    let mut r: Vec<(String, String)> = Vec::new();
    let mut i: usize = 0;
    while i < kinds.len()
        invariant
            i <= kinds@.len(),
            kinds@ == spec_kind_order(),
            r@.len() == detected_list(kinds@.subrange(0, i as int), examples@).len(),
            forall|t: int|
                0 <= t < r@.len() ==> (#[trigger] r@[t]).0@ == template_pattern(
                    detected_list(kinds@.subrange(0, i as int), examples@)[t],
                ) && r@[t].1@ == template_desc(
                    detected_list(kinds@.subrange(0, i as int), examples@)[t],
                ),
        decreases kinds@.len() - i,
    {
        let k = kinds[i];
        if all_examples_match(k, examples) {
            r.push((format_pattern(k), format_desc(k)));
        }
        proof {
            let sub = kinds@.subrange(0, i + 1);
            assert(sub.drop_last() =~= kinds@.subrange(0, i as int));
            assert(sub.last() == kinds@[i as int]);
        }
        i += 1;
    }
    proof {
        assert(kinds@.subrange(0, kinds@.len() as int) =~= kinds@);
    }
    r
}

// === Semantic recognition of a caller's pattern ===

/// The anchored full-match form of a pattern.
pub open spec fn anchored_pat(p: Seq<char>) -> Seq<char> {
    "^(?:"@ + p + ")$"@
}

/// The rank of each format in the recognition order.
pub open spec fn rec_rank(k: FormatKind) -> int {
    match k {
        FormatKind::Uuid => 0,
        FormatKind::MacAddress => 1,
        FormatKind::HexColor => 2,
        FormatKind::IsoDate => 3,
        FormatKind::UsDate => 4,
        FormatKind::TimeLong => 5,
        FormatKind::TimeShort => 6,
        FormatKind::Email => 7,
        FormatKind::Ipv4 => 8,
        FormatKind::Url => 9,
        FormatKind::Semver => 10,
        FormatKind::Phone => 11,
    }
}

/// Whether the anchored pattern `ap` matches every curated positive
/// example of format `k` and none of its curated negatives, under the
/// automaton engine.
pub open spec fn rec_ok(ap: Seq<char>, k: FormatKind) -> bool {
    match k {
        FormatKind::Uuid => crate::rx::rx_match(ap, "550e8400-e29b-41d4-a716-446655440000"@)
            && crate::rx::rx_match(ap, "123e4567-e89b-12d3-a456-426614174000"@)
            && !crate::rx::rx_match(ap, "not-a-uuid"@) && !crate::rx::rx_match(ap, "123"@),
        FormatKind::MacAddress => crate::rx::rx_match(ap, "AA:BB:CC:DD:EE:FF"@)
            && crate::rx::rx_match(ap, "00:11:22:33:44:55"@) && !crate::rx::rx_match(
            ap,
            "not-mac"@,
        ) && !crate::rx::rx_match(ap, "ZZ:ZZ:ZZ:ZZ:ZZ:ZZ"@),
        FormatKind::HexColor => crate::rx::rx_match(ap, "#ff0000"@) && crate::rx::rx_match(
            ap,
            "#0a0"@,
        ) && crate::rx::rx_match(ap, "#ABC123"@) && !crate::rx::rx_match(ap, "ff0000"@)
            && !crate::rx::rx_match(ap, "#xyz"@) && !crate::rx::rx_match(ap, "red"@),
        FormatKind::IsoDate => crate::rx::rx_match(ap, "2024-01-15"@) && crate::rx::rx_match(
            ap,
            "2000-12-31"@,
        ) && !crate::rx::rx_match(ap, "not-a-date"@) && !crate::rx::rx_match(ap, "2024/01/15"@),
        FormatKind::UsDate => crate::rx::rx_match(ap, "01/15/2024"@) && crate::rx::rx_match(
            ap,
            "12/31/2000"@,
        ) && !crate::rx::rx_match(ap, "2024-01-15"@) && !crate::rx::rx_match(ap, "not-date"@),
        FormatKind::TimeLong => crate::rx::rx_match(ap, "14:30:00"@) && crate::rx::rx_match(
            ap,
            "23:59:59"@,
        ) && !crate::rx::rx_match(ap, "14:30"@) && !crate::rx::rx_match(ap, "not-time"@),
        FormatKind::TimeShort => crate::rx::rx_match(ap, "14:30"@) && crate::rx::rx_match(
            ap,
            "23:59"@,
        ) && crate::rx::rx_match(ap, "00:00"@) && !crate::rx::rx_match(ap, "14:30:00"@)
            && !crate::rx::rx_match(ap, "not-time"@),
        FormatKind::Email => crate::rx::rx_match(ap, "user@example.com"@) && crate::rx::rx_match(
            ap,
            "admin@test.org"@,
        ) && !crate::rx::rx_match(ap, "not-email"@) && !crate::rx::rx_match(ap, "@missing"@)
            && !crate::rx::rx_match(ap, "no-at-sign"@),
        FormatKind::Ipv4 => crate::rx::rx_match(ap, "192.168.1.1"@) && crate::rx::rx_match(
            ap,
            "10.0.0.1"@,
        ) && crate::rx::rx_match(ap, "255.255.255.0"@) && !crate::rx::rx_match(ap, "not-ip"@)
            && !crate::rx::rx_match(ap, "999.999.999.999.999"@),
        FormatKind::Url => crate::rx::rx_match(ap, "https://example.com"@)
            && crate::rx::rx_match(ap, "http://test.org/path?q=1"@) && !crate::rx::rx_match(
            ap,
            "not-url"@,
        ) && !crate::rx::rx_match(ap, "ftp://other"@),
        FormatKind::Semver => crate::rx::rx_match(ap, "1.0.0"@) && crate::rx::rx_match(
            ap,
            "2.3.4-beta.1"@,
        ) && crate::rx::rx_match(ap, "10.20.30+build.123"@) && !crate::rx::rx_match(
            ap,
            "not-semver"@,
        ) && !crate::rx::rx_match(ap, "1.2"@),
        FormatKind::Phone => false,
    }
}

/// Tests the anchored compiled pattern against format `k`'s curated
/// examples.
fn rec_check(re: &crate::rx::CompiledRe, k: FormatKind) -> (r: bool)
    ensures
        r == rec_ok(re.pattern(), k),
{
    match k {
        FormatKind::Uuid => crate::rx::re_is_match(re, "550e8400-e29b-41d4-a716-446655440000")
            && crate::rx::re_is_match(re, "123e4567-e89b-12d3-a456-426614174000")
            && !crate::rx::re_is_match(re, "not-a-uuid") && !crate::rx::re_is_match(re, "123"),
        FormatKind::MacAddress => crate::rx::re_is_match(re, "AA:BB:CC:DD:EE:FF")
            && crate::rx::re_is_match(re, "00:11:22:33:44:55") && !crate::rx::re_is_match(
            re,
            "not-mac",
        ) && !crate::rx::re_is_match(re, "ZZ:ZZ:ZZ:ZZ:ZZ:ZZ"),
        FormatKind::HexColor => crate::rx::re_is_match(re, "#ff0000") && crate::rx::re_is_match(
            re,
            "#0a0",
        ) && crate::rx::re_is_match(re, "#ABC123") && !crate::rx::re_is_match(re, "ff0000")
            && !crate::rx::re_is_match(re, "#xyz") && !crate::rx::re_is_match(re, "red"),
        FormatKind::IsoDate => crate::rx::re_is_match(re, "2024-01-15")
            && crate::rx::re_is_match(re, "2000-12-31") && !crate::rx::re_is_match(
            re,
            "not-a-date",
        ) && !crate::rx::re_is_match(re, "2024/01/15"),
        FormatKind::UsDate => crate::rx::re_is_match(re, "01/15/2024") && crate::rx::re_is_match(
            re,
            "12/31/2000",
        ) && !crate::rx::re_is_match(re, "2024-01-15") && !crate::rx::re_is_match(re, "not-date"),
        FormatKind::TimeLong => crate::rx::re_is_match(re, "14:30:00") && crate::rx::re_is_match(
            re,
            "23:59:59",
        ) && !crate::rx::re_is_match(re, "14:30") && !crate::rx::re_is_match(re, "not-time"),
        FormatKind::TimeShort => crate::rx::re_is_match(re, "14:30") && crate::rx::re_is_match(
            re,
            "23:59",
        ) && crate::rx::re_is_match(re, "00:00") && !crate::rx::re_is_match(re, "14:30:00")
            && !crate::rx::re_is_match(re, "not-time"),
        FormatKind::Email => crate::rx::re_is_match(re, "user@example.com")
            && crate::rx::re_is_match(re, "admin@test.org") && !crate::rx::re_is_match(
            re,
            "not-email",
        ) && !crate::rx::re_is_match(re, "@missing") && !crate::rx::re_is_match(re, "no-at-sign"),
        FormatKind::Ipv4 => crate::rx::re_is_match(re, "192.168.1.1") && crate::rx::re_is_match(
            re,
            "10.0.0.1",
        ) && crate::rx::re_is_match(re, "255.255.255.0") && !crate::rx::re_is_match(re, "not-ip")
            && !crate::rx::re_is_match(re, "999.999.999.999.999"),
        FormatKind::Url => crate::rx::re_is_match(re, "https://example.com")
            && crate::rx::re_is_match(re, "http://test.org/path?q=1") && !crate::rx::re_is_match(
            re,
            "not-url",
        ) && !crate::rx::re_is_match(re, "ftp://other"),
        FormatKind::Semver => crate::rx::re_is_match(re, "1.0.0") && crate::rx::re_is_match(
            re,
            "2.3.4-beta.1",
        ) && crate::rx::re_is_match(re, "10.20.30+build.123") && !crate::rx::re_is_match(
            re,
            "not-semver",
        ) && !crate::rx::re_is_match(re, "1.2"),
        FormatKind::Phone => false,
    }
}

/// The description of the first format, in recognition order, whose
/// curated examples the anchored pattern passes; `None` when the pattern
/// does not compile or no format passes.
pub open spec fn recognized_desc(p: Seq<char>) -> Option<Seq<char>> {
    let ap = anchored_pat(p);
    if !crate::rx::rx_valid(ap) {
        None
    } else if rec_ok(ap, FormatKind::Uuid) {
        Some(template_desc(FormatKind::Uuid))
    } else if rec_ok(ap, FormatKind::MacAddress) {
        Some(template_desc(FormatKind::MacAddress))
    } else if rec_ok(ap, FormatKind::HexColor) {
        Some(template_desc(FormatKind::HexColor))
    } else if rec_ok(ap, FormatKind::IsoDate) {
        Some(template_desc(FormatKind::IsoDate))
    } else if rec_ok(ap, FormatKind::UsDate) {
        Some(template_desc(FormatKind::UsDate))
    } else if rec_ok(ap, FormatKind::TimeLong) {
        Some(template_desc(FormatKind::TimeLong))
    } else if rec_ok(ap, FormatKind::TimeShort) {
        Some(template_desc(FormatKind::TimeShort))
    } else if rec_ok(ap, FormatKind::Email) {
        Some(template_desc(FormatKind::Email))
    } else if rec_ok(ap, FormatKind::Ipv4) {
        Some(template_desc(FormatKind::Ipv4))
    } else if rec_ok(ap, FormatKind::Url) {
        Some(template_desc(FormatKind::Url))
    } else if rec_ok(ap, FormatKind::Semver) {
        Some(template_desc(FormatKind::Semver))
    } else if rec_ok(ap, FormatKind::Phone) {
        Some(template_desc(FormatKind::Phone))
    } else {
        None
    }
}

/// Recognizes what a pattern semantically describes.
///
/// Builds the anchored full-match form of the pattern, compiles it on the
/// automaton engine, and returns the description of the first format whose
/// curated positive examples all match and whose negatives all fail.
pub fn recognize_pattern(pattern: &str) -> (r: Option<String>)
    ensures
        r is Some <==> recognized_desc(pattern@) is Some,
        r matches Some(d) ==> recognized_desc(pattern@) == Some(d@),
        r is Some ==> crate::rx::rx_valid(anchored_pat(pattern@)),
{
    let mut anchored = String::from_str("^(?:");
    anchored.append(pattern);
    anchored.append(")$");
    let re = match crate::rx::try_regex_crate(anchored.as_str()) {
        Ok(re) => re,
        Err(_) => {
            return None;
        },
    };
    let kinds = kind_order();
    let mut i: usize = 0;
    while i < kinds.len()
        invariant
            i <= kinds@.len(),
            kinds@ == spec_kind_order(),
            re.pattern() == anchored_pat(pattern@),
            crate::rx::rx_valid(anchored_pat(pattern@)),
            forall|t: int| 0 <= t < i ==> !rec_ok(re.pattern(), #[trigger] kinds@[t]),
        decreases kinds@.len() - i,
    {
        let k = kinds[i];
        if rec_check(&re, k) {
            proof {
                assert forall|k2: FormatKind|
                    rec_rank(k2) < rec_rank(k) implies !rec_ok(re.pattern(), k2) by {
                    assert(kinds@[rec_rank(k2)] == k2);
                    assert(kinds@[i as int] == k);
                    assert(rec_rank(k) == i);
                }
                assert(recognized_desc(pattern@) == Some(template_desc(k)));
            }
            return Some(format_desc(k));
        }
        i += 1;
    }
    proof {
        assert forall|k: FormatKind| !rec_ok(anchored_pat(pattern@), k) by {
            assert(kinds@[rec_rank(k)] == k);
        }
        assert(recognized_desc(pattern@) is None);
    }
    None
}

} // verus!
