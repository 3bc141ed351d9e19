//! Example-driven pattern inference.
//!
//! Five independent strategies each propose a candidate pattern for a set
//! of positive examples; candidates are scored against the examples (and
//! optional negative examples), ranked by confidence, deduplicated by
//! pattern text and truncated to the five best.  Confidence is measured in
//! ten-thousandths, so a score of 10000 means certainty.

use vstd::prelude::*;

verus! {

use vstd::string::StringExecFns;
use crate::rx::{CompiledRe, re_escape, re_is_match, rx_escape, rx_match, rx_valid,
    try_regex_crate};
use crate::scan::{chars_of, dec_rep, has_char, contains_char, is_alnum, is_alpha, is_digit,
    is_lower, is_upper, split_by, split_chars, string_from_chars, views_cc, views_of};
use crate::templates::{detect_known_formats, detected_list, spec_kind_order, template_desc,
    template_pattern};
use crate::types::{FromExamplesResult, InferredPattern};

// === Confidence scoring ===

/// How many of the strings the pattern matches, under the automaton
/// engine.
pub open spec fn count_matching(p: Seq<char>, exs: Seq<String>) -> int
    decreases exs.len(),
{
    if exs.len() == 0 {
        0
    } else {
        count_matching(p, exs.drop_last()) + if rx_match(p, exs.last()@) {
            1int
        } else {
            0int
        }
    }
}

/// How many literal dots the pattern holds.
pub open spec fn count_dots(s: Seq<char>) -> int
    decreases s.len(),
{
    if s.len() == 0 {
        0
    } else {
        count_dots(s.drop_last()) + if s.last() == '.' {
            1int
        } else {
            0int
        }
    }
}

/// The confidence score, in ten-thousandths.
///
/// The base score is the fraction of positive examples matched, scaled by
/// one minus the false-positive rate against the negative examples.
/// Template candidates are capped at 9500; other candidates lose a tenth
/// per literal dot, up to three tenths.
pub open spec fn spec_confidence(
    p: Seq<char>,
    exs: Seq<String>,
    negs: Option<Seq<String>>,
    is_template: bool,
) -> int
    recommends
        exs.len() > 0,
{
    if !rx_valid(p) {
        0
    } else {
        let c1 = 10000 * count_matching(p, exs) / exs.len() as int;
        let c2 = match negs {
            Some(ns) => if ns.len() > 0 {
                c1 * (ns.len() - count_matching(p, ns)) / ns.len() as int
            } else {
                c1
            },
            None => c1,
        };
        if is_template {
            if c2 > 9500 {
                9500
            } else {
                c2
            }
        } else {
            let dots = count_dots(p);
            let f = if dots >= 3 {
                7int
            } else {
                10 - dots
            };
            c2 * f / 10
        }
    }
}

proof fn lemma_count_matching_bound(p: Seq<char>, exs: Seq<String>)
    ensures
        0 <= count_matching(p, exs) <= exs.len(),
    decreases exs.len(),
{
    if exs.len() > 0 {
        lemma_count_matching_bound(p, exs.drop_last());
    }
}

/// How many of the strings the compiled pattern matches.
fn count_matches(re: &CompiledRe, exs: &Vec<String>) -> (c: usize)
    ensures
        c == count_matching(re.pattern(), exs@),
        c <= exs@.len(),
{
    let mut c: usize = 0;
    let mut i: usize = 0;
    while i < exs.len()
        invariant
            i <= exs@.len(),
            c <= i,
            c == count_matching(re.pattern(), exs@.subrange(0, i as int)),
        decreases exs@.len() - i,
    {
        let ghost pre = exs@.subrange(0, i as int);
        if re_is_match(re, exs[i].as_str()) {
            c += 1;
        }
        proof {
            let next = exs@.subrange(0, i + 1);
            assert(next.drop_last() =~= pre);
            assert(next.last() == exs@[i as int]);
        }
        i += 1;
    }
    proof {
        assert(exs@.subrange(0, exs@.len() as int) =~= exs@);
    }
    c
}

/// How many literal dots the pattern holds.
fn count_dots_in(p: &Vec<char>) -> (c: usize)
    ensures
        c == count_dots(p@),
        c <= p@.len(),
{
    let mut c: usize = 0;
    let mut i: usize = 0;
    while i < p.len()
        invariant
            i <= p@.len(),
            c <= i,
            c == count_dots(p@.subrange(0, i as int)),
        decreases p@.len() - i,
    {
        let ghost pre = p@.subrange(0, i as int);
        if p[i] == '.' {
            c += 1;
        }
        proof {
            let next = p@.subrange(0, i + 1);
            assert(next.drop_last() =~= pre);
            assert(next.last() == p@[i as int]);
        }
        i += 1;
    }
    proof {
        assert(p@.subrange(0, p@.len() as int) =~= p@);
    }
    c
}

/// The view of an optional borrowed list of strings.
pub open spec fn opt_views(negs: Option<&Vec<String>>) -> Option<Seq<String>> {
    match negs {
        Some(n) => Some(n@),
        None => None,
    }
}

/// Scores a candidate pattern against the examples.
pub fn calculate_confidence(
    pattern: &str,
    examples: &Vec<String>,
    negative_examples: Option<&Vec<String>>,
    is_template: bool,
) -> (r: u32)
    requires
        examples@.len() > 0,
    ensures
        r == spec_confidence(pattern@, examples@, opt_views(negative_examples), is_template),
        r <= 10000,
{
    let re = match try_regex_crate(pattern) {
        Ok(re) => re,
        Err(_) => {
            return 0;
        },
    };
    let pm = count_matches(&re, examples);
    let pt = examples.len();
    let c1w: u128 = (10000u128 * (pm as u128)) / (pt as u128);
    proof {
        assert(c1w <= 10000) by (nonlinear_arith)
            requires
                c1w as int == (10000 * (pm as int)) / (pt as int),
                pm as int <= pt as int,
                pt as int >= 1,
        ;
    }
    let c1: u64 = c1w as u64;
    let c2: u64 = match negative_examples {
        Some(negs) => {
            if negs.len() > 0 {
                let nm = count_matches(&re, negs);
                let nt = negs.len();
                let keep = nt - nm;
                proof {
                    assert((c1 as int) * (keep as int) <= 10000
                        * 18446744073709551615) by (nonlinear_arith)
                        requires
                            c1 as int <= 10000,
                            keep as int <= 18446744073709551615,
                            c1 as int >= 0,
                            keep as int >= 0,
                    ;
                }
                let c2w: u128 = ((c1 as u128) * (keep as u128)) / (nt as u128);
                proof {
                    assert(c2w as int <= c1 as int) by (nonlinear_arith)
                        requires
                            c2w as int == ((c1 as int) * (keep as int)) / (nt as int),
                            keep as int <= nt as int,
                            nt as int >= 1,
                            c1 as int >= 0,
                    ;
                }
                c2w as u64
            } else {
                c1
            }
        },
        None => c1,
    };
    if is_template {
        if c2 > 9500 {
            9500
        } else {
            c2 as u32
        }
    } else {
        let pvec = chars_of(pattern);
        let dots = count_dots_in(&pvec);
        let f: u64 = if dots >= 3 {
            7
        } else {
            10 - (dots as u64)
        };
        proof {
            assert((c2 as int) * (f as int) <= 100000) by (nonlinear_arith)
                requires
                    c2 as int <= 10000,
                    f as int <= 10,
                    c2 as int >= 0,
                    f as int >= 0,
            ;
        }
        let c3: u128 = ((c2 as u128) * (f as u128)) / 10;
        c3 as u32
    }
}

// === Strategy: positional character classes ===

/// The shortest length among the sequences.
pub open spec fn min_len(vs: Seq<Seq<char>>) -> int
    recommends
        vs.len() > 0,
    decreases vs.len(),
{
    if vs.len() <= 1 {
        vs[0].len() as int
    } else {
        let m = min_len(vs.drop_last());
        if vs.last().len() < m {
            vs.last().len() as int
        } else {
            m
        }
    }
}

/// The longest length among the sequences.
pub open spec fn max_len(vs: Seq<Seq<char>>) -> int
    recommends
        vs.len() > 0,
    decreases vs.len(),
{
    if vs.len() <= 1 {
        vs[0].len() as int
    } else {
        let m = max_len(vs.drop_last());
        if vs.last().len() > m {
            vs.last().len() as int
        } else {
            m
        }
    }
}

proof fn lemma_min_len_le(vs: Seq<Seq<char>>, t: int)
    requires
        0 <= t < vs.len(),
    ensures
        min_len(vs) <= vs[t].len(),
    decreases vs.len(),
{
    if vs.len() > 1 {
        if t < vs.len() - 1 {
            lemma_min_len_le(vs.drop_last(), t);
        }
    }
}

/// Every column entry equals the first example's entry.
pub open spec fn col_all_same(vs: Seq<Seq<char>>, pos: int) -> bool {
    forall|t: int| 0 <= t < vs.len() ==> #[trigger] vs[t][pos] == vs[0][pos]
}

/// Every column entry satisfies `pred`.
pub open spec fn col_all(vs: Seq<Seq<char>>, pos: int, pred: spec_fn(char) -> bool) -> bool {
    forall|t: int| 0 <= t < vs.len() ==> pred(#[trigger] vs[t][pos])
}

/// The pattern piece for one character column.
pub open spec fn col_class(vs: Seq<Seq<char>>, pos: int) -> Seq<char> {
    if col_all_same(vs, pos) {
        rx_escape(seq![vs[0][pos]])
    } else if col_all(vs, pos, |c: char| is_digit(c)) {
        "\\d"@
    } else if col_all(vs, pos, |c: char| is_alpha(c)) {
        if col_all(vs, pos, |c: char| is_lower(c)) {
            "[a-z]"@
        } else if col_all(vs, pos, |c: char| is_upper(c)) {
            "[A-Z]"@
        } else {
            "[a-zA-Z]"@
        }
    } else if col_all(vs, pos, |c: char| is_alnum(c)) {
        "\\w"@
    } else {
        "\\S"@
    }
}

/// The concatenated column pieces for the first `n` columns.
pub open spec fn cc_prefix(vs: Seq<Seq<char>>, n: int) -> Seq<char>
    decreases n,
{
    if n <= 0 {
        Seq::empty()
    } else {
        cc_prefix(vs, n - 1) + col_class(vs, n - 1)
    }
}

/// The character-class pattern of a nonempty example set: one piece per
/// column of the shortest example, and a trailing wildcard when lengths
/// vary.
pub open spec fn cc_pattern(vs: Seq<Seq<char>>) -> Seq<char>
    recommends
        vs.len() > 0,
{
    let base = cc_prefix(vs, min_len(vs));
    if max_len(vs) > min_len(vs) {
        base + ".*"@
    } else {
        base
    }
}

/// The character column `pos` of the example vectors.
fn column_of(vecs: &Vec<Vec<char>>, pos: usize) -> (col: Vec<char>)
    requires
        forall|t: int| 0 <= t < vecs@.len() ==> pos < (#[trigger] vecs@[t])@.len(),
    ensures
        col@.len() == vecs@.len(),
        forall|t: int| 0 <= t < col@.len() ==> col@[t] == (#[trigger] vecs@[t])@[pos as int],
{
    let mut col: Vec<char> = Vec::with_capacity(vecs.len());
    let mut t: usize = 0;
    while t < vecs.len()
        invariant
            t <= vecs@.len(),
            col@.len() == t,
            forall|t0: int| 0 <= t0 < vecs@.len() ==> pos < (#[trigger] vecs@[t0])@.len(),
            forall|t0: int| 0 <= t0 < t ==> col@[t0] == (#[trigger] vecs@[t0])@[pos as int],
        decreases vecs@.len() - t,
    {
        let v = &vecs[t];
        col.push(v[pos]);
        t += 1;
    }
    col
}

/// Infers a pattern that classifies each character column of the
/// examples.
pub fn infer_character_classes(examples: &Vec<String>) -> (r: Option<String>)
    requires
        examples@.len() > 0,
    ensures
        r is Some <==> cc_pattern(views_of(examples@)).len() > 0,
        r matches Some(s) ==> s@ == cc_pattern(views_of(examples@)),
{
    let ghost vs = views_of(examples@);
    let mut vecs: Vec<Vec<char>> = Vec::with_capacity(examples.len());
    let mut t: usize = 0;
    while t < examples.len()
        invariant
            t <= examples@.len(),
            vecs@.len() == t,
            forall|t0: int| 0 <= t0 < t ==> (#[trigger] vecs@[t0])@ == examples@[t0]@,
        decreases examples@.len() - t,
    {
        vecs.push(chars_of(examples[t].as_str()));
        t += 1;
    }
    proof {
        assert(views_cc(vecs@) =~= vs);
    }
    // shortest and longest example lengths
    let mut mn: usize = vecs[0].len();
    let mut mx: usize = vecs[0].len();
    let mut i: usize = 1;
    while i < vecs.len()
        invariant
            1 <= i <= vecs@.len(),
            vecs@.len() == examples@.len() > 0,
            views_cc(vecs@) == vs,
            forall|t0: int| 0 <= t0 < vecs@.len() ==> (#[trigger] vecs@[t0])@ == examples@[t0]@,
            mn == min_len(views_cc(vecs@.subrange(0, i as int))),
            mx == max_len(views_cc(vecs@.subrange(0, i as int))),
        decreases vecs@.len() - i,
    {
        let ghost pre = views_cc(vecs@.subrange(0, i as int));
        let l = vecs[i].len();
        if l < mn {
            mn = l;
        }
        if l > mx {
            mx = l;
        }
        proof {
            let next = views_cc(vecs@.subrange(0, i + 1));
            assert(next.drop_last() =~= pre);
            assert(next.last() == vecs@[i as int]@);
        }
        i += 1;
    }
    proof {
        assert(vecs@.subrange(0, vecs@.len() as int) =~= vecs@);
        assert(mn == min_len(vs));
        assert(mx == max_len(vs));
    }
    // build one piece per column
    let mut pattern = String::new();
    let mut pos: usize = 0;
    while pos < mn
        invariant
            pos <= mn,
            mn == min_len(vs),
            mx == max_len(vs),
            vecs@.len() == examples@.len() > 0,
            views_cc(vecs@) == vs,
            forall|t0: int| 0 <= t0 < vecs@.len() ==> (#[trigger] vecs@[t0])@ == examples@[t0]@,
            pattern@ == cc_prefix(vs, pos as int),
        decreases mn - pos,
    {
        proof {
            assert forall|t0: int| 0 <= t0 < vecs@.len() implies pos < (
            #[trigger] vecs@[t0])@.len() by {
                lemma_min_len_le(vs, t0);
                assert(vs[t0] == vecs@[t0]@);
            }
        }
        let col = column_of(&vecs, pos);
        proof {
            assert(forall|t0: int|
                0 <= t0 < col@.len() ==> #[trigger] col@[t0] == vs[t0][pos as int]);
        }
        let first = col[0];
        // classify the column
        let mut all_same = true;
        let mut all_digit = true;
        let mut all_alpha = true;
        let mut all_lower = true;
        let mut all_upper = true;
        let mut all_alnum = true;
        let mut t2: usize = 0;
        while t2 < col.len()
            invariant
                t2 <= col@.len(),
                col@.len() > 0,
                first == col@[0],
                all_same == forall|t0: int| 0 <= t0 < t2 ==> #[trigger] col@[t0] == col@[0],
                all_digit == forall|t0: int| 0 <= t0 < t2 ==> is_digit(#[trigger] col@[t0]),
                all_alpha == forall|t0: int| 0 <= t0 < t2 ==> is_alpha(#[trigger] col@[t0]),
                all_lower == forall|t0: int| 0 <= t0 < t2 ==> is_lower(#[trigger] col@[t0]),
                all_upper == forall|t0: int| 0 <= t0 < t2 ==> is_upper(#[trigger] col@[t0]),
                all_alnum == forall|t0: int| 0 <= t0 < t2 ==> is_alnum(#[trigger] col@[t0]),
            decreases col@.len() - t2,
        {
            let c = col[t2];
            if c != first {
                all_same = false;
            }
            if !crate::scan::digit(c) {
                all_digit = false;
            }
            if !crate::scan::alpha(c) {
                all_alpha = false;
            }
            if !crate::scan::lower(c) {
                all_lower = false;
            }
            if !crate::scan::upper(c) {
                all_upper = false;
            }
            if !crate::scan::alnum(c) {
                all_alnum = false;
            }
            t2 += 1;
        }
        proof {
            assert(vs.len() == col@.len());
            assert(all_same == col_all_same(vs, pos as int));
            assert(all_digit == col_all(vs, pos as int, |c: char| is_digit(c)));
            assert(all_alpha == col_all(vs, pos as int, |c: char| is_alpha(c)));
            assert(all_lower == col_all(vs, pos as int, |c: char| is_lower(c)));
            assert(all_upper == col_all(vs, pos as int, |c: char| is_upper(c)));
            assert(all_alnum == col_all(vs, pos as int, |c: char| is_alnum(c)));
        }
        if all_same {
            let mut one: Vec<char> = Vec::new();
            one.push(first);
            let one_s = string_from_chars(&one);
            let esc = re_escape(one_s.as_str());
            proof {
                assert(one@ =~= seq![vs[0][pos as int]]);
            }
            pattern.append(esc.as_str());
        } else if all_digit {
            pattern.append("\\d");
        } else if all_alpha {
            if all_lower {
                pattern.append("[a-z]");
            } else if all_upper {
                pattern.append("[A-Z]");
            } else {
                pattern.append("[a-zA-Z]");
            }
        } else if all_alnum {
            pattern.append("\\w");
        } else {
            pattern.append("\\S");
        }
        pos += 1;
    }
    if mx > mn {
        pattern.append(".*");
    }
    if pattern.as_str().unicode_len() == 0 {
        None
    } else {
        Some(pattern)
    }
}

// === Strategy: separator-based structure ===

/// Every character of `x` is a digit.
pub open spec fn all_digits_seq(x: Seq<char>) -> bool {
    forall|m: int| 0 <= m < x.len() ==> is_digit(#[trigger] x[m])
}

/// Every character of `x` is a letter.
pub open spec fn all_alpha_seq(x: Seq<char>) -> bool {
    forall|m: int| 0 <= m < x.len() ==> is_alpha(#[trigger] x[m])
}

/// The candidate separators, in the order they are tried.
pub open spec fn spec_seps() -> Seq<char> {
    seq!['-', '/', '.', '_', ' ', ':']
}

/// Each example split at `sep`.
pub open spec fn parts_of(vs: Seq<Seq<char>>, sep: char) -> Seq<Seq<Seq<char>>> {
    vs.map_values(|v: Seq<char>| split_by(v, sep))
}

/// The separator occurs in every example and splits each into the same
/// number of segments.
pub open spec fn sep_good(vs: Seq<Seq<char>>, sep: char) -> bool {
    &&& (forall|t: int| 0 <= t < vs.len() ==> has_char(#[trigger] vs[t], sep))
    &&& (forall|t: int|
        0 <= t < vs.len() ==> (#[trigger] parts_of(vs, sep)[t]).len() == parts_of(vs, sep)[0].len())
}

/// Segment `i` of each example's split.
pub open spec fn col_seq(ps: Seq<Seq<Seq<char>>>, i: int) -> Seq<Seq<char>> {
    ps.map_values(|segs: Seq<Seq<char>>| segs[i])
}

/// A `{n}` or `{mn,mx}` length-range suffix.
pub open spec fn len_range(mn: int, mx: int) -> Seq<char> {
    if mn == mx {
        "{"@ + dec_rep(mx) + "}"@
    } else {
        "{"@ + dec_rep(mn) + ","@ + dec_rep(mx) + "}"@
    }
}

/// The pattern piece for a run of digits of the given length range.
pub open spec fn digit_piece(mn: int, mx: int) -> Seq<char> {
    "\\d"@ + len_range(mn, mx)
}

/// The pattern piece for a run of letters of the given length range.
pub open spec fn alpha_piece(mn: int, mx: int) -> Seq<char> {
    "[a-zA-Z]"@ + len_range(mn, mx)
}

/// The pattern piece for segment `i`.
pub open spec fn struct_piece(ps: Seq<Seq<Seq<char>>>, i: int, sep: char) -> Seq<char> {
    let col = col_seq(ps, i);
    if forall|t: int| 0 <= t < col.len() ==> all_digits_seq(#[trigger] col[t]) {
        digit_piece(min_len(col), max_len(col))
    } else if forall|t: int| 0 <= t < col.len() ==> all_alpha_seq(#[trigger] col[t]) {
        alpha_piece(min_len(col), max_len(col))
    } else {
        "[^"@ + seq![sep] + "]+"@
    }
}

/// The first `n` segment pieces joined with the escaped separator.
pub open spec fn struct_join(ps: Seq<Seq<Seq<char>>>, n: int, sep: char) -> Seq<char>
    decreases n,
{
    if n <= 0 {
        Seq::empty()
    } else if n == 1 {
        struct_piece(ps, 0, sep)
    } else {
        struct_join(ps, n - 1, sep) + rx_escape(seq![sep]) + struct_piece(ps, n - 1, sep)
    }
}

/// The whole separator-based pattern.
pub open spec fn struct_pattern(vs: Seq<Seq<char>>, sep: char) -> Seq<char> {
    let ps = parts_of(vs, sep);
    struct_join(ps, ps[0].len() as int, sep)
}

/// The separator-based description.
pub open spec fn struct_desc(vs: Seq<Seq<char>>, sep: char) -> Seq<char> {
    seq![sep] + "-separated pattern with "@ + dec_rep(parts_of(vs, sep)[0].len() as int)
        + " parts"@
}

/// Whether every character of `x` in the whole vector is a digit.
fn vec_all_digits(x: &Vec<char>) -> (r: bool)
    ensures
        r == all_digits_seq(x@),
{
    all_digits_in(x, 0, x.len())
}

fn all_digits_in(s: &Vec<char>, a: usize, b: usize) -> (r: bool)
    requires
        b <= s@.len(),
        a == 0,
    ensures
        r == forall|m: int| a <= m < b ==> is_digit(#[trigger] s@[m]),
{
    let mut i: usize = a;
    while i < b
        invariant
            a <= i <= b <= s@.len(),
            forall|m: int| a <= m < i ==> is_digit(#[trigger] s@[m]),
        decreases b - i,
    {
        if !crate::scan::digit(s[i]) {
            return false;
        }
        i += 1;
    }
    true
}

fn vec_all_alpha(x: &Vec<char>) -> (r: bool)
    ensures
        r == all_alpha_seq(x@),
{
    let mut i: usize = 0;
    while i < x.len()
        invariant
            i <= x@.len(),
            forall|m: int| 0 <= m < i ==> is_alpha(#[trigger] x@[m]),
        decreases x@.len() - i,
    {
        if !crate::scan::alpha(x[i]) {
            return false;
        }
        i += 1;
    }
    true
}

/// Appends `{n}` or `{mn,mx}` to a class opener.
fn push_len_range(pattern: &mut String, mn: usize, mx: usize)
    ensures
        final(pattern)@ == old(pattern)@ + len_range(mn as int, mx as int),
{
    let ghost before = pattern@;
    pattern.append("{");
    if mn == mx {
        crate::scan::push_dec(pattern, mx as u64);
    } else {
        crate::scan::push_dec(pattern, mn as u64);
        pattern.append(",");
        crate::scan::push_dec(pattern, mx as u64);
    }
    pattern.append("}");
    proof {
        assert(pattern@ =~= before + len_range(mn as int, mx as int));
    }
}

/// Infers a pattern from a shared separator structure: the first
/// separator that occurs in every example and splits each into the same
/// number of segments, with each segment classified independently.
#[verifier::rlimit(100)]
pub fn infer_common_structure(examples: &Vec<String>) -> (r: Option<(String, String)>)
    requires
        examples@.len() > 0,
    ensures
        r is None <==> (forall|ix: int|
            0 <= ix < 6 ==> !sep_good(views_of(examples@), #[trigger] spec_seps()[ix])),
        r matches Some(pd) ==> exists|ix: int|
            {
                &&& 0 <= ix < 6
                &&& sep_good(views_of(examples@), #[trigger] spec_seps()[ix])
                &&& (forall|ix2: int|
                    0 <= ix2 < ix ==> !sep_good(views_of(examples@), #[trigger] spec_seps()[ix2]))
                &&& pd.0@ == struct_pattern(views_of(examples@), spec_seps()[ix])
                &&& pd.1@ == struct_desc(views_of(examples@), spec_seps()[ix])
            },
{
    let ghost vs = views_of(examples@);
    let mut vecs: Vec<Vec<char>> = Vec::with_capacity(examples.len());
    let mut t: usize = 0;
    while t < examples.len()
        invariant
            t <= examples@.len(),
            vecs@.len() == t,
            forall|t0: int| 0 <= t0 < t ==> (#[trigger] vecs@[t0])@ == examples@[t0]@,
        decreases examples@.len() - t,
    {
        vecs.push(chars_of(examples[t].as_str()));
        t += 1;
    }
    let mut seps: Vec<char> = Vec::new();
    seps.push('-');
    seps.push('/');
    seps.push('.');
    seps.push('_');
    seps.push(' ');
    seps.push(':');
    proof {
        assert(seps@ =~= spec_seps());
    }
    let mut ix: usize = 0;
    while ix < seps.len()
        invariant
            ix <= 6,
            seps@ == spec_seps(),
            examples@.len() > 0,
            vecs@.len() == examples@.len(),
            forall|t0: int| 0 <= t0 < vecs@.len() ==> (#[trigger] vecs@[t0])@ == examples@[t0]@,
            vs == views_of(examples@),
            forall|ix0: int| 0 <= ix0 < ix ==> !sep_good(vs, #[trigger] spec_seps()[ix0]),
        decreases 6 - ix,
    {
        let sep = seps[ix];
        // must occur in every example
        let mut all_contain = true;
        let mut t2: usize = 0;
        while t2 < vecs.len()
            invariant
                t2 <= vecs@.len(),
                vecs@.len() == examples@.len(),
                forall|t0: int|
                    0 <= t0 < vecs@.len() ==> (#[trigger] vecs@[t0])@ == examples@[t0]@,
                vs == views_of(examples@),
                all_contain == forall|t0: int| 0 <= t0 < t2 ==> has_char(#[trigger] vs[t0], sep),
            decreases vecs@.len() - t2,
        {
            proof {
                assert(vs[t2 as int] == examples@[t2 as int]@);
                assert(vecs@[t2 as int]@ == examples@[t2 as int]@);
            }
            if !contains_char(&vecs[t2], sep) {
                all_contain = false;
                assert(!has_char(vs[t2 as int], sep));
            }
            t2 += 1;
        }
        if all_contain {
            // split every example
            let ghost ps = parts_of(vs, sep);
            let mut parts: Vec<Vec<Vec<char>>> = Vec::with_capacity(vecs.len());
            let mut t3: usize = 0;
            while t3 < vecs.len()
                invariant
                    t3 <= vecs@.len(),
                    parts@.len() == t3,
                    vecs@.len() == examples@.len(),
                    forall|t0: int| 0 <= t0 < vecs@.len() ==> (#[trigger] vecs@[t0])@
                        == examples@[t0]@,
                    vs == views_of(examples@),
                    ps == parts_of(vs, sep),
                    forall|t0: int| 0 <= t0 < t3 ==> views_cc((#[trigger] parts@[t0])@) == ps[t0],
                    forall|t0: int| 0 <= t0 < t3 ==> (#[trigger] parts@[t0])@.len() >= 1,
                decreases vecs@.len() - t3,
            {
                let segs = split_chars(&vecs[t3], sep);
                parts.push(segs);
                t3 += 1;
            }
            // same segment count everywhere?
            let count = parts[0].len();
            let mut same_count = true;
            let mut t4: usize = 0;
            while t4 < parts.len()
                invariant
                    t4 <= parts@.len(),
                    parts@.len() == examples@.len() > 0,
                    count == (parts@[0])@.len(),
                    forall|t0: int| 0 <= t0 < parts@.len() ==> views_cc((#[trigger] parts@[t0])@)
                        == ps[t0],
                    ps == parts_of(vs, sep),
                    same_count == forall|t0: int|
                        0 <= t0 < t4 ==> (#[trigger] parts@[t0])@.len() == count,
                decreases parts@.len() - t4,
            {
                if parts[t4].len() != count {
                    same_count = false;
                }
                t4 += 1;
            }
            if same_count {
                proof {
                    assert forall|t0: int| 0 <= t0 < vs.len() implies (#[trigger] ps[t0]).len()
                        == ps[0].len() by {
                        assert(views_cc(parts@[t0]@) == ps[t0]);
                        assert(parts@[t0]@.len() == count);
                    }
                    assert(sep_good(vs, sep));
                }
                // build one piece per segment column
                let mut pattern = String::new();
                let esc_sep = {
                    let mut one: Vec<char> = Vec::new();
                    one.push(sep);
                    proof {
                        assert(one@ =~= seq![sep]);
                    }
                    re_escape(string_from_chars(&one).as_str())
                };
                let mut i: usize = 0;
                while i < count
                    invariant
                        i <= count,
                        count == ps[0].len(),
                        parts@.len() == examples@.len() > 0,
                        forall|t0: int|
                            0 <= t0 < parts@.len() ==> views_cc((#[trigger] parts@[t0])@)
                                == ps[t0],
                        forall|t0: int| 0 <= t0 < parts@.len() ==> (#[trigger] parts@[t0])@.len()
                            == count,
                        ps == parts_of(vs, sep),
                        vs == views_of(examples@),
                        esc_sep@ == rx_escape(seq![sep]),
                        pattern@ == struct_join(ps, i as int, sep),
                    decreases count - i,
                {
                    if i > 0 {
                        pattern.append(esc_sep.as_str());
                    }
                    let ghost col = col_seq(ps, i as int);
                    proof {
                        assert(col.len() == parts@.len());
                        assert forall|t0: int| 0 <= t0 < col.len() implies #[trigger] col[t0]
                            == (parts@[t0])@[i as int]@ by {
                            assert(views_cc(parts@[t0]@)[i as int] == ps[t0][i as int]);
                        }
                    }
                    // classify the column
                    let mut all_dig = true;
                    let mut all_alp = true;
                    let mut mn: usize = parts[0][i].len();
                    let mut mx: usize = mn;
                    proof {
                        assert(col[0] == (parts@[0])@[i as int]@);
                    }
                    let mut t5: usize = 0;
                    while t5 < parts.len()
                        invariant
                            t5 <= parts@.len(),
                            parts@.len() == col.len() > 0,
                            i < count,
                            forall|t0: int| 0 <= t0 < parts@.len() ==> (
                            #[trigger] parts@[t0])@.len() == count,
                            forall|t0: int| 0 <= t0 < col.len() ==> #[trigger] col[t0] == (
                            parts@[t0])@[i as int]@,
                            all_dig == forall|t0: int|
                                0 <= t0 < t5 ==> all_digits_seq(#[trigger] col[t0]),
                            all_alp == forall|t0: int|
                                0 <= t0 < t5 ==> all_alpha_seq(#[trigger] col[t0]),
                            t5 == 0 ==> mn == col[0].len() && mx == col[0].len(),
                            t5 > 0 ==> mn == min_len(col.subrange(0, t5 as int)) && mx == max_len(
                                col.subrange(0, t5 as int),
                            ),
                        decreases parts@.len() - t5,
                    {
                        let ghost pre = col.subrange(0, t5 as int);
                        let seg = &parts[t5][i];
                        if !vec_all_digits(seg) {
                            all_dig = false;
                        }
                        if !vec_all_alpha(seg) {
                            all_alp = false;
                        }
                        let l = seg.len();
                        if t5 > 0 {
                            if l < mn {
                                mn = l;
                            }
                            if l > mx {
                                mx = l;
                            }
                        }
                        proof {
                            let next = col.subrange(0, t5 + 1);
                            assert(next.drop_last() =~= pre);
                            assert(next.last() == col[t5 as int]);
                            if t5 == 0 {
                                assert(next =~= seq![col[0]]);
                            }
                        }
                        t5 += 1;
                    }
                    proof {
                        assert(col.subrange(0, col.len() as int) =~= col);
                        assert(all_dig == forall|t0: int|
                            0 <= t0 < col.len() ==> all_digits_seq(#[trigger] col[t0]));
                        assert(all_alp == forall|t0: int|
                            0 <= t0 < col.len() ==> all_alpha_seq(#[trigger] col[t0]));
                        assert(mn == min_len(col));
                        assert(mx == max_len(col));
                    }
                    if all_dig {
                        pattern.append("\\d");
                        push_len_range(&mut pattern, mn, mx);
                    } else if all_alp {
                        pattern.append("[a-zA-Z]");
                        push_len_range(&mut pattern, mn, mx);
                    } else {
                        pattern.append("[^");
                        let mut one: Vec<char> = Vec::new();
                        one.push(sep);
                        proof {
                            assert(one@ =~= seq![sep]);
                        }
                        pattern.append(string_from_chars(&one).as_str());
                        pattern.append("]+");
                    }
                    proof {
                        assert(pattern@ =~= struct_join(ps, i + 1, sep));
                    }
                    i += 1;
                }
                // the description names the separator and the column count
                let mut desc = String::new();
                let mut one: Vec<char> = Vec::new();
                one.push(sep);
                proof {
                    assert(one@ =~= seq![sep]);
                }
                desc.append(string_from_chars(&one).as_str());
                desc.append("-separated pattern with ");
                crate::scan::push_dec(&mut desc, count as u64);
                desc.append(" parts");
                proof {
                    assert(spec_seps()[ix as int] == sep);
                }
                return Some((pattern, desc));
            } else {
                proof {
                    let w = choose|t0: int|
                        0 <= t0 < parts@.len() && (#[trigger] parts@[t0])@.len() != count;
                    assert(ps[w].len() != ps[0].len());
                    assert(!sep_good(vs, sep));
                    assert(spec_seps()[ix as int] == sep);
                }
            }
        } else {
            proof {
                assert(!sep_good(vs, sep));
                assert(spec_seps()[ix as int] == sep);
            }
        }
        ix += 1;
    }
    None
}

// === Strategy: anchored prefix and suffix ===

/// The first position at or after `i` where `a` and `b` differ or either
/// ends.
pub open spec fn lcp_from(a: Seq<char>, b: Seq<char>, i: int) -> int
    decreases a.len() - i,
{
    if i < 0 || i >= a.len() || i >= b.len() || a[i] != b[i] {
        i
    } else {
        lcp_from(a, b, i + 1)
    }
}

/// The length of the longest common prefix of `a` and `b`.
pub open spec fn lcp(a: Seq<char>, b: Seq<char>) -> int {
    lcp_from(a, b, 0)
}

proof fn lemma_lcp_bounds(a: Seq<char>, b: Seq<char>, i: int)
    requires
        0 <= i <= a.len(),
        i <= b.len(),
    ensures
        i <= lcp_from(a, b, i) <= a.len(),
        lcp_from(a, b, i) <= b.len(),
    decreases a.len() - i,
{
    if !(i >= a.len() || i >= b.len() || a[i] != b[i]) {
        lemma_lcp_bounds(a, b, i + 1);
    }
}

/// The longest common prefix of the first `t` sequences, folded left to
/// right from the first.
pub open spec fn lcp_upto(vs: Seq<Seq<char>>, t: int) -> Seq<char>
    decreases t,
{
    if t <= 0 {
        vs[0]
    } else {
        let p = lcp_upto(vs, t - 1);
        p.subrange(0, lcp(p, vs[t - 1]))
    }
}

/// The longest common prefix of all the sequences.
pub open spec fn anchored_prefix(vs: Seq<Seq<char>>) -> Seq<char> {
    lcp_upto(vs, vs.len() as int)
}

/// The longest common suffix of all the sequences.
pub open spec fn anchored_suffix(vs: Seq<Seq<char>>) -> Seq<char> {
    lcp_upto(vs.map_values(|v: Seq<char>| v.reverse()), vs.len() as int).reverse()
}

/// The anchored pattern: the escaped common prefix, a lazy wildcard, and
/// the escaped common suffix.
pub open spec fn anchored_pattern_of(vs: Seq<Seq<char>>) -> Seq<char> {
    (if anchored_prefix(vs).len() > 0 {
        rx_escape(anchored_prefix(vs))
    } else {
        Seq::empty()
    }) + ".*?"@ + (if anchored_suffix(vs).len() > 0 {
        rx_escape(anchored_suffix(vs))
    } else {
        Seq::empty()
    })
}

/// The anchored pattern's description, quoting the prefix and suffix.
pub open spec fn anchored_desc_of(vs: Seq<Seq<char>>) -> Seq<char> {
    let p = anchored_prefix(vs);
    let s = anchored_suffix(vs);
    if p.len() > 0 && s.len() > 0 {
        "Common prefix '"@ + p + "' and suffix '"@ + s + "'"@
    } else if p.len() > 0 {
        "Common prefix '"@ + p + "'"@
    } else {
        "Common suffix '"@ + s + "'"@
    }
}

/// The length of the longest common prefix of two vectors.
fn common_prefix_len(a: &Vec<char>, b: &Vec<char>) -> (r: usize)
    ensures
        r == lcp(a@, b@),
        r <= a@.len(),
        r <= b@.len(),
{
    let na = a.len();
    let nb = b.len();
    let mut i: usize = 0;
    while i < na && i < nb
        invariant
            i <= na,
            i <= nb,
            na == a@.len(),
            nb == b@.len(),
            lcp(a@, b@) == lcp_from(a@, b@, i as int),
        decreases na - i,
    {
        if a[i] != b[i] {
            return i;
        }
        i += 1;
    }
    i
}

/// Folds the longest common prefix over the example vectors.
fn fold_common_prefix(vecs: &Vec<Vec<char>>, ghost_vs: Ghost<Seq<Seq<char>>>) -> (r: Vec<char>)
    requires
        vecs@.len() > 0,
        ghost_vs@.len() == vecs@.len(),
        forall|t: int| 0 <= t < vecs@.len() ==> (#[trigger] vecs@[t])@ == ghost_vs@[t],
    ensures
        r@ == lcp_upto(ghost_vs@, ghost_vs@.len() as int),
{
    let ghost vs = ghost_vs@;
    let mut acc: Vec<char> = Vec::new();
    let first = &vecs[0];
    let mut c: usize = 0;
    while c < first.len()
        invariant
            c <= first@.len(),
            acc@ =~= first@.subrange(0, c as int),
        decreases first@.len() - c,
    {
        acc.push(first[c]);
        c += 1;
    }
    proof {
        assert(acc@ =~= vs[0]);
        assert(acc@ == lcp_upto(vs, 0));
    }
    let mut t: usize = 0;
    while t < vecs.len()
        invariant
            t <= vecs@.len(),
            vecs@.len() == vs.len(),
            forall|t0: int| 0 <= t0 < vecs@.len() ==> (#[trigger] vecs@[t0])@ == vs[t0],
            acc@ == lcp_upto(vs, t as int),
        decreases vecs@.len() - t,
    {
        let l = common_prefix_len(&acc, &vecs[t]);
        acc.truncate(l);
        proof {
            assert(acc@ == lcp_upto(vs, t + 1));
        }
        t += 1;
    }
    acc
}

/// Infers a pattern from the longest common prefix and suffix of the
/// examples, with a lazy wildcard between them.
pub fn infer_anchored_pattern(examples: &Vec<String>) -> (r: Option<(String, String)>)
    requires
        examples@.len() > 0,
    ensures
        r is Some <==> anchored_prefix(views_of(examples@)).len() > 0 || anchored_suffix(
            views_of(examples@),
        ).len() > 0,
        r matches Some(pd) ==> pd.0@ == anchored_pattern_of(views_of(examples@)) && pd.1@
            == anchored_desc_of(views_of(examples@)),
{
    let ghost vs = views_of(examples@);
    let mut vecs: Vec<Vec<char>> = Vec::with_capacity(examples.len());
    let mut rvecs: Vec<Vec<char>> = Vec::with_capacity(examples.len());
    let mut t: usize = 0;
    while t < examples.len()
        invariant
            t <= examples@.len(),
            vecs@.len() == t,
            rvecs@.len() == t,
            forall|t0: int| 0 <= t0 < t ==> (#[trigger] vecs@[t0])@ == examples@[t0]@,
            forall|t0: int| 0 <= t0 < t ==> (#[trigger] rvecs@[t0])@ == examples@[t0]@.reverse(),
        decreases examples@.len() - t,
    {
        let v = chars_of(examples[t].as_str());
        let rv = crate::scan::reverse_chars(&v);
        vecs.push(v);
        rvecs.push(rv);
        t += 1;
    }
    let ghost rvs = vs.map_values(|v: Seq<char>| v.reverse());
    proof {
        assert(rvs.len() == vs.len());
        assert forall|t0: int|
            0 <= t0 < rvecs@.len() implies (#[trigger] rvecs@[t0])@ == rvs[t0] by {
            assert(rvs[t0] == vs[t0].reverse());
        }
    }
    let prefix = fold_common_prefix(&vecs, Ghost(vs));
    let suffix_rev = fold_common_prefix(&rvecs, Ghost(rvs));
    let suffix = crate::scan::reverse_chars(&suffix_rev);
    proof {
        assert(prefix@ == anchored_prefix(vs));
        assert(suffix@ == anchored_suffix(vs));
    }
    if prefix.len() == 0 && suffix.len() == 0 {
        return None;
    }
    let prefix_s = string_from_chars(&prefix);
    let suffix_s = string_from_chars(&suffix);
    let mut pattern = String::new();
    if prefix.len() > 0 {
        let esc = re_escape(prefix_s.as_str());
        pattern.append(esc.as_str());
    }
    pattern.append(".*?");
    if suffix.len() > 0 {
        let esc = re_escape(suffix_s.as_str());
        pattern.append(esc.as_str());
    }
    let mut desc = String::new();
    if prefix.len() > 0 && suffix.len() > 0 {
        desc.append("Common prefix '");
        desc.append(prefix_s.as_str());
        desc.append("' and suffix '");
        desc.append(suffix_s.as_str());
        desc.append("'");
    } else if prefix.len() > 0 {
        desc.append("Common prefix '");
        desc.append(prefix_s.as_str());
        desc.append("'");
    } else {
        desc.append("Common suffix '");
        desc.append(suffix_s.as_str());
        desc.append("'");
    }
    Some((pattern, desc))
}

// === Ranking ===

/// Confidences are non-increasing.
pub open spec fn sorted_desc(s: Seq<InferredPattern>) -> bool {
    forall|i: int, j: int|
        0 <= i < j < s.len() ==> (#[trigger] s[i]).confidence >= (#[trigger] s[j]).confidence
}

/// No two entries share their pattern text.
pub open spec fn distinct_patterns(s: Seq<InferredPattern>) -> bool {
    forall|i: int, j: int|
        0 <= i < j < s.len() ==> (#[trigger] s[i]).pattern@ != (#[trigger] s[j]).pattern@
}

/// A candidate with this pattern text and confidence is retained: the
/// text appears in the output with at least that confidence, unless the
/// output already holds five entries each at least as confident.
pub open spec fn candidate_retained(out: Seq<InferredPattern>, p: Seq<char>, conf: int) -> bool {
    ||| (exists|k: int|
        0 <= k < out.len() && (#[trigger] out[k]).pattern@ == p && out[k].confidence >= conf)
    ||| (out.len() == 5 && (forall|k: int|
        0 <= k < out.len() ==> (#[trigger] out[k]).confidence >= conf))
}

/// The output holds an entry with the candidate's pattern text and at
/// least its confidence.
pub open spec fn has_representative(out: Seq<InferredPattern>, c: InferredPattern) -> bool {
    exists|k: int|
        0 <= k < out.len() && (#[trigger] out[k]).pattern@ == c.pattern@ && out[k].confidence
            >= c.confidence
}

/// Sorts candidates by confidence, highest first; candidates of equal
/// confidence keep their relative order.
fn sort_candidates(input: Vec<InferredPattern>) -> (r: Vec<InferredPattern>)
    ensures
        sorted_desc(r@),
        r@.to_multiset() == input@.to_multiset(),
        r@.len() == input@.len(),
{
    broadcast use vstd::seq_lib::group_to_multiset_ensures;

    let mut src = input;
    let ghost orig = src@;
    let mut out: Vec<InferredPattern> = Vec::new();
    while src.len() > 0
        invariant
            sorted_desc(out@),
            out@.to_multiset().add(src@.to_multiset()) =~= orig.to_multiset(),
            forall|i: int, j: int|
                0 <= i < out@.len() && 0 <= j < src@.len() ==> (#[trigger] out@[i]).confidence
                    >= (#[trigger] src@[j]).confidence,
        decreases src@.len(),
    {
        let mut best: usize = 0;
        let mut bi: usize = 1;
        while bi < src.len()
            invariant
                1 <= bi <= src@.len(),
                src@.len() > 0,
                best < bi,
                forall|j: int|
                    0 <= j < bi ==> (#[trigger] src@[j]).confidence <= src@[best as int].confidence,
            decreases src@.len() - bi,
        {
            if src[bi].confidence > src[best].confidence {
                best = bi;
            }
            bi += 1;
        }
        let ghost old_src = src@;
        let ghost old_out = out@;
        let x = src.remove(best);
        proof {
            old_src.to_multiset_ensures();
            assert(src@ == old_src.remove(best as int));
            assert(src@.to_multiset() =~= old_src.to_multiset().remove(x));
        }
        out.push(x);
        proof {
            old_out.to_multiset_ensures();
            assert(out@ == old_out.push(x));
            assert(out@.to_multiset() =~= old_out.to_multiset().insert(x));
            assert(out@.to_multiset().add(src@.to_multiset()) =~= orig.to_multiset()) by {
                assert(old_src.to_multiset().contains(x)) by {
                    assert(old_src[best as int] == x);
                    assert(old_src.contains(x));
                }
                assert(old_out.to_multiset().insert(x).add(old_src.to_multiset().remove(x))
                    =~= old_out.to_multiset().add(old_src.to_multiset()));
            }
            assert forall|j: int| 0 <= j < src@.len() implies x.confidence >= (
            #[trigger] src@[j]).confidence by {
                if j < best {
                    assert(src@[j] == old_src[j]);
                } else {
                    assert(src@[j] == old_src[j + 1]);
                }
            }
        }
    }
    proof {
        src@.to_multiset_ensures();
        out@.to_multiset_ensures();
        orig.to_multiset_ensures();
        assert(src@.to_multiset().len() == 0);
        assert(out@.to_multiset() =~= orig.to_multiset());
        assert(out@.len() == orig.len());
    }
    out
}

/// Keeps the first candidate for each pattern text, dropping later
/// duplicates.
fn dedup_by_pattern(input: Vec<InferredPattern>) -> (r: Vec<InferredPattern>)
    requires
        sorted_desc(input@),
    ensures
        sorted_desc(r@),
        distinct_patterns(r@),
        forall|i: int| 0 <= i < r@.len() ==> input@.contains(#[trigger] r@[i]),
        forall|j: int| 0 <= j < input@.len() ==> has_representative(r@, #[trigger] input@[j]),
        r@.len() > 0 <==> input@.len() > 0,
        input@.len() > 0 ==> r@[0] == input@[0],
{
    let n = input.len();
    let mut out: Vec<InferredPattern> = Vec::new();
    let mut i: usize = 0;
    while i < n
        invariant
            i <= n,
            n == input@.len(),
            sorted_desc(input@),
            sorted_desc(out@),
            distinct_patterns(out@),
            out@.len() > 0 <==> i > 0,
            i > 0 ==> out@[0] == input@[0],
            forall|k: int| 0 <= k < out@.len() ==> input@.contains(#[trigger] out@[k]),
            forall|j: int| 0 <= j < i ==> has_representative(out@, #[trigger] input@[j]),
            forall|k: int, j: int|
                0 <= k < out@.len() && i <= j < n ==> (#[trigger] out@[k]).confidence >= (
                #[trigger] input@[j]).confidence,
        decreases n - i,
    {
        let mut seen = false;
        let mut k: usize = 0;
        while k < out.len()
            invariant
                k <= out@.len(),
                i < n == input@.len(),
                seen == exists|k0: int|
                    0 <= k0 < k && (#[trigger] out@[k0]).pattern@ == input@[i as int].pattern@,
            decreases out@.len() - k,
        {
            if out[k].pattern == input[i].pattern {
                seen = true;
            }
            k += 1;
        }
        let ghost old_out = out@;
        if !seen {
            out.push(clone_candidate(&input[i]));
            proof {
                assert(out@[out@.len() - 1] == input@[i as int]);
                assert(input@.contains(input@[i as int]));
            }
        }
        proof {
            assert forall|j: int| 0 <= j < i + 1 implies has_representative(
                out@,
                #[trigger] input@[j],
            ) by {
                if j < i {
                    let w = choose|w: int|
                        0 <= w < old_out.len() && (#[trigger] old_out[w]).pattern@
                            == input@[j].pattern@ && old_out[w].confidence >= input@[j].confidence;
                    assert(out@[w] == old_out[w]);
                } else {
                    if seen {
                        let k0 = choose|k0: int|
                            0 <= k0 < old_out.len() && (#[trigger] old_out[k0]).pattern@
                                == input@[i as int].pattern@;
                        assert(old_out[k0].confidence >= input@[i as int].confidence);
                        assert(out@[k0] == old_out[k0]);
                    } else {
                        assert(out@[out@.len() - 1] == input@[i as int]);
                    }
                }
            }
        }
        i += 1;
    }
    out
}

/// A field-for-field copy of a candidate.
fn clone_candidate(c: &InferredPattern) -> (r: InferredPattern)
    ensures
        r == *c,
{
    InferredPattern {
        pattern: c.pattern.clone(),
        confidence: c.confidence,
        desc: c.desc.clone(),
    }
}


/// A candidate present in the built list is retained through ranking,
/// deduplication and the five-entry cap: its text survives with at
/// least its confidence, or five entries at least as confident fill the
/// result.
proof fn lemma_retained(
    cands: Seq<InferredPattern>,
    sorted: Seq<InferredPattern>,
    deduped: Seq<InferredPattern>,
    top: Seq<InferredPattern>,
    j: int,
)
    requires
        0 <= j < cands.len(),
        sorted.to_multiset() == cands.to_multiset(),
        sorted_desc(deduped),
        forall|t: int| 0 <= t < sorted.len() ==> has_representative(deduped, #[trigger] sorted[t]),
        deduped.len() >= 5 ==> top == deduped.subrange(0, 5),
        deduped.len() < 5 ==> top == deduped,
    ensures
        candidate_retained(top, cands[j].pattern@, cands[j].confidence as int),
{
    cands.to_multiset_ensures();
    sorted.to_multiset_ensures();
    assert(cands.contains(cands[j]));
    assert(cands.to_multiset().count(cands[j]) > 0);
    assert(sorted.to_multiset().count(cands[j]) > 0);
    assert(sorted.contains(cands[j]));
    let j2 = choose|j2: int| 0 <= j2 < sorted.len() && sorted[j2] == cands[j];
    assert(has_representative(deduped, sorted[j2]));
    let k = choose|k: int|
        0 <= k < deduped.len() && (#[trigger] deduped[k]).pattern@ == sorted[j2].pattern@
            && deduped[k].confidence >= sorted[j2].confidence;
    if k < top.len() {
        assert(top[k] == deduped[k]);
    } else {
        assert(deduped.len() > 5);
        assert(top.len() == 5);
        assert forall|m: int| 0 <= m < top.len() implies (#[trigger] top[m]).confidence >= cands[
        j].confidence as int by {
            assert(top[m] == deduped[m]);
            assert(deduped[m].confidence >= deduped[k].confidence);
        }
    }
}

/// Every example has the same text as the first.
pub open spec fn all_identical(exs: Seq<String>) -> bool {
    forall|t: int| 0 <= t < exs.len() ==> (#[trigger] exs[t])@ == exs[0]@
}

/// The candidate is the exactly specified output of one of the five
/// inference strategies, scored by `spec_confidence`.
pub open spec fn from_strategy(
    c: InferredPattern,
    exs: Seq<String>,
    negs: Option<Seq<String>>,
) -> bool {
    ||| (exists|k: int|
        {
            &&& 0 <= k < detected_list(spec_kind_order(), exs).len()
            &&& c.pattern@ == template_pattern(
                #[trigger] detected_list(spec_kind_order(), exs)[k],
            )
            &&& c.desc@ == template_desc(detected_list(spec_kind_order(), exs)[k])
            &&& c.confidence == spec_confidence(c.pattern@, exs, negs, true)
        })
    ||| (cc_pattern(views_of(exs)).len() > 0 && c.pattern@ == cc_pattern(views_of(exs))
        && c.desc@ == "Character class based pattern"@ && c.confidence == spec_confidence(
        c.pattern@,
        exs,
        negs,
        false,
    ))
    ||| (exists|ix: int|
        {
            &&& 0 <= ix < 6
            &&& sep_good(views_of(exs), #[trigger] spec_seps()[ix])
            &&& c.pattern@ == struct_pattern(views_of(exs), spec_seps()[ix])
            &&& c.desc@ == struct_desc(views_of(exs), spec_seps()[ix])
            &&& c.confidence == spec_confidence(c.pattern@, exs, negs, false)
        })
    ||| (all_identical(exs) && c.pattern@ == rx_escape(exs[0]@) && c.confidence == 10000
        && c.desc@ == "Exact match (all examples identical)"@)
    ||| ((anchored_prefix(views_of(exs)).len() > 0 || anchored_suffix(views_of(exs)).len() > 0)
        && c.pattern@ == anchored_pattern_of(views_of(exs)) && c.desc@ == anchored_desc_of(
        views_of(exs),
    ) && c.confidence == spec_confidence(c.pattern@, exs, negs, false))
}

/// At least one of the five strategies produces a candidate.
pub open spec fn some_strategy_fires(exs: Seq<String>) -> bool {
    ||| detected_list(spec_kind_order(), exs).len() > 0
    ||| cc_pattern(views_of(exs)).len() > 0
    ||| (exists|ix: int| 0 <= ix < 6 && sep_good(views_of(exs), #[trigger] spec_seps()[ix]))
    ||| all_identical(exs)
    ||| anchored_prefix(views_of(exs)).len() > 0
    ||| anchored_suffix(views_of(exs)).len() > 0
}

/// Infers candidate patterns from the example strings.
///
/// Fewer than two examples is an error.  Otherwise the five strategies
/// each may contribute a candidate; the result list is sorted by
/// confidence (non-increasing), holds no duplicate pattern text, and has
/// at most five entries, every confidence lying in 0..=10000.
#[verifier::rlimit(100)]
pub fn infer_patterns(examples: &Vec<String>, negative_examples: Option<&Vec<String>>) -> (r:
    Result<FromExamplesResult, String>)
    ensures
        r is Err <==> examples@.len() < 2,
        r matches Err(m) ==> (if examples@.len() == 0 {
            m@ == "At least one example is required"@
        } else {
            m@ == "At least two examples are recommended for better inference"@
        }),
        r matches Ok(res) ==> {
            &&& res.inferred@.len() <= 5
            &&& sorted_desc(res.inferred@)
            &&& distinct_patterns(res.inferred@)
            &&& (forall|i: int|
                0 <= i < res.inferred@.len() ==> (#[trigger] res.inferred@[i]).confidence
                    <= 10000)
            &&& (forall|i: int|
                0 <= i < res.inferred@.len() ==> from_strategy(
                    #[trigger] res.inferred@[i],
                    examples@,
                    opt_views(negative_examples),
                ))
            &&& (res.inferred@.len() > 0 <==> some_strategy_fires(examples@))
            &&& (all_identical(examples@) ==> res.inferred@.len() > 0
                && res.inferred@[0].confidence == 10000)
            &&& (forall|k: int|
                0 <= k < detected_list(spec_kind_order(), examples@).len()
                    ==> candidate_retained(
                    res.inferred@,
                    template_pattern(#[trigger] detected_list(spec_kind_order(), examples@)[k]),
                    spec_confidence(
                        template_pattern(detected_list(spec_kind_order(), examples@)[k]),
                        examples@,
                        opt_views(negative_examples),
                        true,
                    ),
                ))
            &&& (cc_pattern(views_of(examples@)).len() > 0 ==> candidate_retained(
                res.inferred@,
                cc_pattern(views_of(examples@)),
                spec_confidence(
                    cc_pattern(views_of(examples@)),
                    examples@,
                    opt_views(negative_examples),
                    false,
                ),
            ))
            &&& ((exists|ix: int|
                0 <= ix < 6 && sep_good(views_of(examples@), #[trigger] spec_seps()[ix]))
                ==> (exists|ix: int|
                0 <= ix < 6 && sep_good(views_of(examples@), #[trigger] spec_seps()[ix])
                    && candidate_retained(
                    res.inferred@,
                    struct_pattern(views_of(examples@), spec_seps()[ix]),
                    spec_confidence(
                        struct_pattern(views_of(examples@), spec_seps()[ix]),
                        examples@,
                        opt_views(negative_examples),
                        false,
                    ),
                )))
            &&& (all_identical(examples@) ==> candidate_retained(
                res.inferred@,
                rx_escape(examples@[0]@),
                10000,
            ))
            &&& ((anchored_prefix(views_of(examples@)).len() > 0 || anchored_suffix(
                views_of(examples@),
            ).len() > 0) ==> candidate_retained(
                res.inferred@,
                anchored_pattern_of(views_of(examples@)),
                spec_confidence(
                    anchored_pattern_of(views_of(examples@)),
                    examples@,
                    opt_views(negative_examples),
                    false,
                ),
            ))
            &&& res.examples@ == examples@
            &&& (res.negative_examples is Some <==> negative_examples is Some)
        },
{
    if examples.len() == 0 {
        return Err(String::from_str("At least one example is required"));
    }
    if examples.len() < 2 {
        return Err(
            String::from_str("At least two examples are recommended for better inference"),
        );
    }
    let mut candidates: Vec<InferredPattern> = Vec::new();
    let ghost negs_view = opt_views(negative_examples);

    // Strategy: known-format templates (curated patterns, capped score)
    let formats = detect_known_formats(examples);
    let mut i: usize = 0;
    while i < formats.len()
        invariant
            examples@.len() >= 2,
            i <= formats@.len(),
            candidates@.len() == i,
            negs_view == opt_views(negative_examples),
            formats@.len() == detected_list(spec_kind_order(), examples@).len(),
            forall|t: int|
                0 <= t < formats@.len() ==> (#[trigger] formats@[t]).0@ == template_pattern(
                    detected_list(spec_kind_order(), examples@)[t],
                ) && formats@[t].1@ == template_desc(detected_list(spec_kind_order(), examples@)[t]),
            forall|t: int|
                0 <= t < candidates@.len() ==> (#[trigger] candidates@[t]).confidence <= 10000,
            forall|t: int|
                0 <= t < candidates@.len() ==> from_strategy(
                    #[trigger] candidates@[t],
                    examples@,
                    negs_view,
                ),
            forall|t: int|
                0 <= t < candidates@.len() ==> (#[trigger] candidates@[t]).pattern@
                    == template_pattern(detected_list(spec_kind_order(), examples@)[t])
                    && candidates@[t].confidence == spec_confidence(
                    template_pattern(detected_list(spec_kind_order(), examples@)[t]),
                    examples@,
                    negs_view,
                    true,
                ),
        decreases formats@.len() - i,
    {
        let pattern = formats[i].0.clone();
        let desc = formats[i].1.clone();
        let confidence = calculate_confidence(pattern.as_str(), examples, negative_examples, true);
        let c = InferredPattern { pattern, confidence, desc };
        proof {
            assert(c.pattern@ == template_pattern(
                detected_list(spec_kind_order(), examples@)[i as int],
            ));
            assert(from_strategy(c, examples@, negs_view));
        }
        candidates.push(c);
        i += 1;
    }
    let ghost len_templates = candidates@.len();

    // Strategy: positional character classes
    let cc_res = infer_character_classes(examples);
    let ghost cc_fired = cc_res is Some;
    match cc_res {
        Some(pattern) => {
            let confidence = calculate_confidence(
                pattern.as_str(),
                examples,
                negative_examples,
                false,
            );
            let c = InferredPattern {
                pattern,
                confidence,
                desc: String::from_str("Character class based pattern"),
            };
            proof {
                assert(from_strategy(c, examples@, negs_view));
                assert(c.pattern@ == cc_pattern(views_of(examples@)));
                assert(c.confidence == spec_confidence(
                    cc_pattern(views_of(examples@)),
                    examples@,
                    negs_view,
                    false,
                ));
            }
            candidates.push(c);
            proof {
                assert(candidates@[len_templates as int] == c);
            }
        },
        None => {},
    }
    proof {
        assert(cc_fired == (cc_pattern(views_of(examples@)).len() > 0));
        assert(candidates@.len() == len_templates + (if cc_fired {
            1int
        } else {
            0int
        }));
    }
    let ghost len_cc = candidates@.len();

    // Strategy: separator-based structure
    let sep_res = infer_common_structure(examples);
    let ghost sep_fired = sep_res is Some;
    match sep_res {
        Some((pattern, desc)) => {
            let confidence = calculate_confidence(
                pattern.as_str(),
                examples,
                negative_examples,
                false,
            );
            let c = InferredPattern { pattern, confidence, desc };
            proof {
                assert(from_strategy(c, examples@, negs_view));
                assert(exists|ix: int|
                    0 <= ix < 6 && sep_good(views_of(examples@), #[trigger] spec_seps()[ix])
                        && c.pattern@ == struct_pattern(views_of(examples@), spec_seps()[ix])
                        && c.confidence == spec_confidence(
                        struct_pattern(views_of(examples@), spec_seps()[ix]),
                        examples@,
                        negs_view,
                        false,
                    ));
            }
            candidates.push(c);
            proof {
                assert(candidates@[len_cc as int] == c);
            }
        },
        None => {},
    }
    proof {
        assert(sep_fired == (exists|ix: int|
            0 <= ix < 6 && sep_good(views_of(examples@), #[trigger] spec_seps()[ix])));
        assert(candidates@.len() == len_cc + (if sep_fired {
            1int
        } else {
            0int
        }));
    }
    let ghost len_sep = candidates@.len();

    // Strategy: exact literal, when all examples are identical
    let e0 = chars_of(examples[0].as_str());
    let mut all_same = true;
    let mut t: usize = 1;
    while t < examples.len()
        invariant
            1 <= t <= examples@.len(),
            e0@ == examples@[0]@,
            all_same == (forall|t0: int|
                0 <= t0 < t ==> (#[trigger] examples@[t0])@ == examples@[0]@),
        decreases examples@.len() - t,
    {
        let et = chars_of(examples[t].as_str());
        if !crate::scan::eq_chars(&e0, &et) {
            all_same = false;
            assert(examples@[t as int]@ != examples@[0]@);
        }
        t += 1;
    }
    proof {
        assert(all_same == all_identical(examples@));
    }
    if all_same {
        let c = InferredPattern {
            pattern: re_escape(examples[0].as_str()),
            confidence: 10000,
            desc: String::from_str("Exact match (all examples identical)"),
        };
        proof {
            assert(from_strategy(c, examples@, negs_view));
            assert(c.pattern@ == rx_escape(examples@[0]@));
        }
        candidates.push(c);
        proof {
            assert(candidates@[len_sep as int] == c);
        }
    }
    proof {
        assert(candidates@.len() == len_sep + (if all_identical(examples@) {
            1int
        } else {
            0int
        }));
    }
    let ghost len_ident = candidates@.len();
    let ghost ident_index = len_sep;

    // Strategy: anchored common prefix and suffix
    let anch_res = infer_anchored_pattern(examples);
    let ghost anch_fired = anch_res is Some;
    match anch_res {
        Some((pattern, desc)) => {
            let confidence = calculate_confidence(
                pattern.as_str(),
                examples,
                negative_examples,
                false,
            );
            let c = InferredPattern { pattern, confidence, desc };
            proof {
                assert(from_strategy(c, examples@, negs_view));
                assert(c.pattern@ == anchored_pattern_of(views_of(examples@)));
                assert(c.confidence == spec_confidence(
                    anchored_pattern_of(views_of(examples@)),
                    examples@,
                    negs_view,
                    false,
                ));
            }
            candidates.push(c);
            proof {
                assert(candidates@[len_ident as int] == c);
            }
        },
        None => {},
    }
    proof {
        assert(anch_fired == (anchored_prefix(views_of(examples@)).len() > 0 || anchored_suffix(
            views_of(examples@),
        ).len() > 0));
        assert(candidates@.len() == len_ident + (if anch_fired {
            1int
        } else {
            0int
        }));
        assert(candidates@.len() > 0 <==> some_strategy_fires(examples@));
    }

    // Rank, deduplicate by pattern text, keep the top five
    let ghost cands = candidates@;
    let sorted = sort_candidates(candidates);
    proof {
        cands.to_multiset_ensures();
        sorted@.to_multiset_ensures();
        assert forall|k: int|
            0 <= k < sorted@.len() implies (#[trigger] sorted@[k]).confidence <= 10000
            && from_strategy(sorted@[k], examples@, negs_view) by {
            assert(sorted@.contains(sorted@[k]));
            assert(sorted@.to_multiset().count(sorted@[k]) > 0);
            assert(cands.to_multiset().count(sorted@[k]) > 0);
            assert(cands.contains(sorted@[k]));
            let j = choose|j: int| 0 <= j < cands.len() && cands[j] == sorted@[k];
            assert(cands[j].confidence <= 10000);
            assert(from_strategy(cands[j], examples@, negs_view));
        }
        if all_identical(examples@) {
            // the exact-literal candidate scores the maximum, so the head
            // of the ranking carries full confidence
            assert(cands[ident_index as int].confidence == 10000);
            assert(cands.contains(cands[ident_index as int]));
            assert(cands.to_multiset().count(cands[ident_index as int]) > 0);
            assert(sorted@.to_multiset().count(cands[ident_index as int]) > 0);
            assert(sorted@.contains(cands[ident_index as int]));
            let w = choose|w: int| 0 <= w < sorted@.len() && sorted@[w] == cands[ident_index as int];
            assert(sorted@[0].confidence >= sorted@[w].confidence);
            assert(sorted@[0].confidence == 10000);
        }
    }
    let ghost sorted_view = sorted@;
    let mut top = dedup_by_pattern(sorted);
    proof {
        assert forall|k: int|
            0 <= k < top@.len() implies (#[trigger] top@[k]).confidence <= 10000
            && from_strategy(top@[k], examples@, negs_view) by {
            assert(sorted_view.contains(top@[k]));
            let j = choose|j: int| 0 <= j < sorted_view.len() && sorted_view[j] == top@[k];
        }
    }
    let ghost before_trunc = top@;
    top.truncate(5);
    proof {
        assert(top@ == before_trunc.subrange(0, 5)
            || top@ == before_trunc);
        assert(sorted_desc(top@));
        assert(distinct_patterns(top@));
        assert(forall|k: int|
            0 <= k < top@.len() ==> #[trigger] top@[k] == before_trunc[k]);
        assert(top@.len() > 0 <==> before_trunc.len() > 0);
        assert(top@.len() > 0 <==> some_strategy_fires(examples@));
        if all_identical(examples@) {
            assert(top@.len() > 0);
            assert(top@[0] == before_trunc[0]);
            assert(before_trunc[0] == sorted_view[0]);
            assert(top@[0].confidence == 10000);
        }
        // each fired strategy's candidate survives ranking, deduplication
        // and the five-entry cap, or is displaced by five entries at least
        // as confident
        if before_trunc.len() >= 5 {
            assert(top@ == before_trunc.subrange(0, 5));
        } else {
            assert(top@ == before_trunc);
        }
        assert forall|k: int|
            0 <= k < detected_list(spec_kind_order(), examples@).len() implies candidate_retained(
            top@,
            template_pattern(#[trigger] detected_list(spec_kind_order(), examples@)[k]),
            spec_confidence(
                template_pattern(detected_list(spec_kind_order(), examples@)[k]),
                examples@,
                negs_view,
                true,
            ),
        ) by {
            assert(cands[k].pattern@ == template_pattern(
                detected_list(spec_kind_order(), examples@)[k],
            ));
            assert(cands[k].confidence == spec_confidence(
                template_pattern(detected_list(spec_kind_order(), examples@)[k]),
                examples@,
                negs_view,
                true,
            ));
            lemma_retained(cands, sorted_view, before_trunc, top@, k);
        }
        if cc_pattern(views_of(examples@)).len() > 0 {
            assert(cands[len_templates as int].pattern@ == cc_pattern(views_of(examples@)));
            lemma_retained(cands, sorted_view, before_trunc, top@, len_templates as int);
        }
        if exists|ix: int| 0 <= ix < 6 && sep_good(views_of(examples@), #[trigger] spec_seps()[ix]) {
            let c = cands[len_cc as int];
            let ix = choose|ix: int|
                0 <= ix < 6 && sep_good(views_of(examples@), #[trigger] spec_seps()[ix])
                    && c.pattern@ == struct_pattern(views_of(examples@), spec_seps()[ix])
                    && c.confidence == spec_confidence(
                    struct_pattern(views_of(examples@), spec_seps()[ix]),
                    examples@,
                    negs_view,
                    false,
                );
            lemma_retained(cands, sorted_view, before_trunc, top@, len_cc as int);
            assert(candidate_retained(
                top@,
                struct_pattern(views_of(examples@), spec_seps()[ix]),
                spec_confidence(
                    struct_pattern(views_of(examples@), spec_seps()[ix]),
                    examples@,
                    negs_view,
                    false,
                ),
            ));
        }
        if all_identical(examples@) {
            assert(cands[ident_index as int].pattern@ == rx_escape(examples@[0]@));
            assert(cands[ident_index as int].confidence == 10000);
            lemma_retained(cands, sorted_view, before_trunc, top@, ident_index as int);
        }
        if anchored_prefix(views_of(examples@)).len() > 0 || anchored_suffix(
            views_of(examples@),
        ).len() > 0 {
            assert(cands[len_ident as int].pattern@ == anchored_pattern_of(views_of(examples@)));
            lemma_retained(cands, sorted_view, before_trunc, top@, len_ident as int);
        }
    }

    // Echo the inputs
    let mut exs_copy: Vec<String> = Vec::with_capacity(examples.len());
    let mut t2: usize = 0;
    while t2 < examples.len()
        invariant
            t2 <= examples@.len(),
            exs_copy@.len() == t2,
            forall|k: int| 0 <= k < t2 ==> #[trigger] exs_copy@[k] == examples@[k],
        decreases examples@.len() - t2,
    {
        exs_copy.push(examples[t2].clone());
        t2 += 1;
    }
    proof {
        assert(exs_copy@ =~= examples@);
    }
    let negs_copy: Option<Vec<String>> = match negative_examples {
        Some(negs) => {
            let mut nc: Vec<String> = Vec::with_capacity(negs.len());
            let mut t3: usize = 0;
            while t3 < negs.len()
                invariant
                    t3 <= negs@.len(),
                decreases negs@.len() - t3,
            {
                nc.push(negs[t3].clone());
                t3 += 1;
            }
            Some(nc)
        },
        None => None,
    };
    Ok(FromExamplesResult { examples: exs_copy, negative_examples: negs_copy, inferred: top })
}

} // verus!
