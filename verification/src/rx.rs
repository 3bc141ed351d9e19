//! Trusted interface to the two matching engines.
//!
//! The `regex` crate supplies the linear-time automaton engine and the
//! `fancy-regex` crate the backtracking engine.  Each outside function the
//! library relies on is reached through exactly one wrapper here; what a
//! call returns is named by an uninterpreted spec function of the wrapper's
//! arguments, since both engines are deterministic functions of the pattern
//! and the text.

use vstd::prelude::*;

verus! {

use vstd::string::StringSliceAdditionalSpecFns;

#[verifier::external_type_specification]
#[verifier::external_body]
pub struct ExRegex(regex::Regex);

#[verifier::external_type_specification]
#[verifier::external_body]
pub struct ExRegexError(regex::Error);

#[verifier::external_type_specification]
#[verifier::external_body]
pub struct ExFancyRegex(fancy_regex::Regex);

#[verifier::external_type_specification]
#[verifier::external_body]
pub struct ExFancyError(fancy_regex::Error);

/// Whether the automaton engine accepts `p` as a pattern.
pub uninterp spec fn rx_valid(p: Seq<char>) -> bool;

/// Whether the automaton engine finds a match for `p` anywhere in `t`.
pub uninterp spec fn rx_match(p: Seq<char>, t: Seq<char>) -> bool;

/// Whether the backtracking engine accepts `p` as a pattern.
pub uninterp spec fn fancy_valid(p: Seq<char>) -> bool;

/// Whether the backtracking engine finds a match for `p` anywhere in `t`.
pub uninterp spec fn fancy_match(p: Seq<char>, t: Seq<char>) -> bool;

/// The first match of `p` in `t` at or after byte offset `from`, as a byte
/// span, under the automaton engine.
pub uninterp spec fn rx_find_from(p: Seq<char>, t: Seq<char>, from: int) -> Option<(int, int)>;

/// The first match of `p` in `t` at or after byte offset `from`, as a byte
/// span, under the backtracking engine when it answers without erroring.
pub uninterp spec fn fancy_find_from(p: Seq<char>, t: Seq<char>, from: int) -> Option<(int, int)>;

/// `s` with every regex metacharacter escaped.
pub uninterp spec fn rx_escape(s: Seq<char>) -> Seq<char>;

/// `t` with every non-overlapping match of `p` replaced by `r` (with `$`
/// capture references expanded), under the automaton engine.
pub uninterp spec fn rx_replace_all(p: Seq<char>, t: Seq<char>, r: Seq<char>) -> Seq<char>;

/// The characters of the byte range `[a, b)` of a string, when that range
/// falls on character boundaries; the empty sequence otherwise.
pub uninterp spec fn byte_slice(s: Seq<char>, a: int, b: int) -> Seq<char>;

/// A pattern compiled by the automaton engine, kept with its pattern text.
pub struct CompiledRe {
    inner: regex::Regex,
    pat: String,
}

impl CompiledRe {
    /// The pattern this value was compiled from.
    pub closed spec fn pattern(&self) -> Seq<char> {
        self.pat@
    }
}

/// A pattern compiled by the backtracking engine, kept with its pattern text.
pub struct CompiledFancy {
    inner: fancy_regex::Regex,
    pat: String,
}

impl CompiledFancy {
    /// The pattern this value was compiled from.
    pub closed spec fn pattern(&self) -> Seq<char> {
        self.pat@
    }
}

/// One capture slot of a match: a byte span and the text it covers.
pub struct CapSpan {
    pub start: usize,
    pub end: usize,
    pub text: String,
}

/// The capture slots of one match; slot 0 is the whole match.
pub struct CapturedGroups {
    pub slots: Vec<Option<CapSpan>>,
}

impl CapturedGroups {
    /// Every present slot lies within the first `len` bytes of the text it
    /// was captured from, and its text is the slice it spans.
    pub open spec fn wf(&self, t: Seq<char>, len: int) -> bool {
        &&& self.slots@.len() >= 1
        &&& self.slots@[0] is Some
        &&& forall|k: int|
            0 <= k < self.slots@.len() && self.slots@[k] is Some ==> {
                let s = self.slots@[k]->Some_0;
                &&& s.start <= s.end <= len
                &&& s.text@ == byte_slice(t, s.start as int, s.end as int)
            }
    }
}

/// Relies on regex::Regex::new: compiles exactly the patterns the automaton
/// engine accepts.
#[verifier::external_body]
pub fn try_regex_crate(pattern: &str) -> (r: Result<CompiledRe, regex::Error>)
    ensures
        r is Ok <==> rx_valid(pattern@),
        r matches Ok(c) ==> c.pattern() == pattern@,
{
    match regex::Regex::new(pattern) {
        Ok(inner) => Ok(CompiledRe { inner, pat: pattern.to_string() }),
        Err(e) => Err(e),
    }
}

/// Relies on fancy_regex::Regex::new: compiles exactly the patterns the
/// backtracking engine accepts.
#[verifier::external_body]
pub fn try_fancy_regex(pattern: &str) -> (r: Result<CompiledFancy, fancy_regex::Error>)
    ensures
        r is Ok <==> fancy_valid(pattern@),
        r matches Ok(c) ==> c.pattern() == pattern@,
{
    match fancy_regex::Regex::new(pattern) {
        Ok(inner) => Ok(CompiledFancy { inner, pat: pattern.to_string() }),
        Err(e) => Err(e),
    }
}

/// Relies on regex::Regex::is_match: whether the pattern matches anywhere
/// in `t`; the answer depends on the pattern and the text alone.
#[verifier::external_body]
pub fn re_is_match(re: &CompiledRe, t: &str) -> (b: bool)
    ensures
        b == rx_match(re.pattern(), t@),
{
    re.inner.is_match(t)
}

/// Relies on fancy_regex::Regex::is_match: whether the pattern matches
/// anywhere in `t`; a successful answer depends on the pattern and the text
/// alone.
#[verifier::external_body]
pub fn fancy_is_match(re: &CompiledFancy, t: &str) -> (r: Result<bool, fancy_regex::Error>)
    ensures
        r matches Ok(b) ==> b == fancy_match(re.pattern(), t@),
{
    re.inner.is_match(t)
}

/// Relies on regex::Regex::find_at: the first match at or after byte offset
/// `from`, whose span lies within the text.  The crate panics when the
/// offset exceeds the text's length, so such offsets are excluded.
#[verifier::external_body]
pub fn re_find_at(re: &CompiledRe, t: &str, from: usize) -> (r: Option<(usize, usize)>)
    requires
        from <= t.spec_bytes().len() as usize,
    ensures
        r is Some <==> rx_find_from(re.pattern(), t@, from as int) is Some,
        r matches Some(m) ==> rx_find_from(re.pattern(), t@, from as int) == Some(
            (m.0 as int, m.1 as int),
        ),
        r matches Some(m) ==> from <= m.0 <= m.1 <= t.spec_bytes().len(),
{
    re.inner.find_at(t, from).map(|m| (m.start(), m.end()))
}

/// Relies on fancy_regex::Regex::find_from_pos: the first match at or after
/// byte offset `pos`, whose span lies within the text.  The answer depends
/// on the pattern, the text and the offset alone.
#[verifier::external_body]
pub fn fancy_find_from_pos(re: &CompiledFancy, t: &str, pos: usize) -> (r: Result<
    Option<(usize, usize)>,
    fancy_regex::Error,
>)
    ensures
        r matches Ok(m) ==> (m is Some <==> fancy_find_from(re.pattern(), t@, pos as int)
            is Some),
        r matches Ok(Some(m)) ==> pos <= m.0 <= m.1 <= t.spec_bytes().len()
            && fancy_find_from(re.pattern(), t@, pos as int) == Some((m.0 as int, m.1 as int)),
{
    re.inner.find_from_pos(t, pos).map(|o| o.map(|m| (m.start(), m.end())))
}

/// Relies on regex::Regex::captures_at: the capture groups of the first
/// match at or after byte offset `pos`; group 0 is that match itself, so
/// it succeeds exactly when `find_at` does and spans the same bytes.  The
/// crate panics when the offset exceeds the text's length, so such
/// offsets are excluded.
#[verifier::external_body]
pub fn re_captures_at(re: &CompiledRe, t: &str, pos: usize) -> (r: Option<CapturedGroups>)
    requires
        pos <= t.spec_bytes().len() as usize,
    ensures
        r is Some <==> rx_find_from(re.pattern(), t@, pos as int) is Some,
        r matches Some(c) ==> {
            &&& c.wf(t@, t.spec_bytes().len() as int)
            &&& pos <= c.slots@[0]->Some_0.start
            &&& rx_find_from(re.pattern(), t@, pos as int) == Some(
                (c.slots@[0]->Some_0.start as int, c.slots@[0]->Some_0.end as int),
            )
        },
{
    re.inner.captures_at(t, pos).map(|caps| CapturedGroups {
        slots: caps.iter().map(|m| m.map(|mm| CapSpan {
            start: mm.start(),
            end: mm.end(),
            text: mm.as_str().to_string(),
        })).collect(),
    })
}

/// Relies on fancy_regex::Regex::captures_from_pos: the capture groups of
/// the first match at or after byte offset `pos`; group 0 is that match
/// itself, found by the same engine walk as `find_from_pos`, so it
/// succeeds exactly when that does and spans the same bytes.
#[verifier::external_body]
pub fn fancy_captures_from_pos(re: &CompiledFancy, t: &str, pos: usize) -> (r: Result<
    Option<CapturedGroups>,
    fancy_regex::Error,
>)
    ensures
        r matches Ok(o) ==> (o is Some <==> fancy_find_from(re.pattern(), t@, pos as int)
            is Some),
        r matches Ok(Some(c)) ==> {
            &&& c.wf(t@, t.spec_bytes().len() as int)
            &&& pos <= c.slots@[0]->Some_0.start
            &&& fancy_find_from(re.pattern(), t@, pos as int) == Some(
                (c.slots@[0]->Some_0.start as int, c.slots@[0]->Some_0.end as int),
            )
        },
{
    let res = re.inner.captures_from_pos(t, pos);
    res.map(|o| o.map(|caps| CapturedGroups {
        slots: caps.iter().map(|m| m.map(|mm| CapSpan {
            start: mm.start(),
            end: mm.end(),
            text: mm.as_str().to_string(),
        })).collect(),
    }))
}

/// Relies on regex::Regex::capture_names: the name of each capture group,
/// by index; entry 0 (the whole match) is unnamed.
#[verifier::external_body]
pub fn re_capture_names(re: &CompiledRe) -> (r: Vec<Option<String>>)
{
    re.inner.capture_names().map(|n| n.map(|s| s.to_string())).collect()
}

/// Relies on fancy_regex::Regex::capture_names: the name of each capture
/// group, by index; entry 0 (the whole match) is unnamed.
#[verifier::external_body]
pub fn fancy_capture_names(re: &CompiledFancy) -> (r: Vec<Option<String>>)
{
    re.inner.capture_names().map(|n| n.map(|s| s.to_string())).collect()
}

/// Relies on regex::Regex::replace_all: every non-overlapping match
/// replaced, `$` references expanded; the result depends on the pattern,
/// the text and the replacement alone.
#[verifier::external_body]
pub fn re_replace_all(re: &CompiledRe, t: &str, rep: &str) -> (r: String)
    ensures
        r@ == rx_replace_all(re.pattern(), t@, rep@),
{
    re.inner.replace_all(t, rep).into_owned()
}

/// Relies on regex::escape: the pattern with metacharacters escaped; the
/// result depends on the characters alone, and an empty string stays empty.
#[verifier::external_body]
pub fn re_escape(s: &str) -> (r: String)
    ensures
        r@ == rx_escape(s@),
        s@.len() == 0 ==> r@.len() == 0,
{
    regex::escape(s)
}

/// Relies on str::get: the characters of the byte range `[a, b)` when it is
/// valid, the empty string otherwise; the whole range gives the whole
/// string.
#[verifier::external_body]
pub fn slice_bytes(s: &str, a: usize, b: usize) -> (r: String)
    ensures
        r@ == byte_slice(s@, a as int, b as int),
        a == 0 && b as int == s.spec_bytes().len() ==> r@ == s@,
{
    s.get(a..b).unwrap_or("").to_string()
}

} // verus!
