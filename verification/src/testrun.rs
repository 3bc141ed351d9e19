//! Testing a pattern against input text.
//!
//! Compiles the pattern — with automatic engine selection or a forced
//! engine — and collects every non-overlapping match with its byte span
//! and capture groups, up to a caller-chosen cap.

use vstd::prelude::*;

verus! {

use vstd::string::StrSliceExecFns;
use vstd::string::StringExecFns;
use vstd::string::StringSliceAdditionalSpecFns;
use crate::engine::{CompiledRegex, EngineType, FancyFeatures, has_capturing_groups};
use crate::rx::{CapturedGroups, CompiledRe, byte_slice, fancy_captures_from_pos,
    fancy_find_from_pos, fancy_valid, re_captures_at, re_capture_names, re_find_at,
    fancy_capture_names, rx_find_from, rx_valid};
use crate::types::{Capture, Match, TestResult};

/// Options for testing.
pub struct TestOptions {
    /// Maximum number of matches to return.
    pub max_matches: Option<usize>,
    /// Force a specific engine.
    pub engine: Option<EngineType>,
    /// Enable multiline mode: dot matches newline, `^`/`$` match line
    /// boundaries.
    pub multiline: bool,
}

impl Default for TestOptions {
    /// At most a hundred matches, automatic engine selection, single-line
    /// mode.
    fn default() -> (r: TestOptions)
        ensures
            r.max_matches == Some(100usize),
            r.engine is None,
            !r.multiline,
    {
        TestOptions { max_matches: Some(100), engine: None, multiline: false }
    }
}

/// The effective cap on collected matches: the caller's, or no bound.
pub open spec fn spec_match_cap(mm: Option<usize>) -> int {
    match mm {
        Some(m) => m as int,
        None => usize::MAX as int,
    }
}

/// The pattern as compiled: prefixed with `(?ms)` in multiline mode.
pub open spec fn effective_pattern(p: Seq<char>, multiline: bool) -> Seq<char> {
    if multiline {
        "(?ms)"@ + p
    } else {
        p
    }
}

/// Applies the multiline flags to a pattern when asked to.
pub fn apply_multiline(pattern: &str, multiline: bool) -> (r: String)
    ensures
        r@ == effective_pattern(pattern@, multiline),
{
    if multiline {
        let mut r = String::from_str("(?ms)");
        r.append(pattern);
        r
    } else {
        String::from_str(pattern)
    }
}

/// A match is a well-ordered span whose captures carry group numbers
/// from one upward.
pub open spec fn match_ok(m: Match) -> bool {
    &&& m.start <= m.end
    &&& (forall|j: int| 0 <= j < m.captures.len() ==> (#[trigger] m.captures[j]).group >= 1)
}

/// Every match is well formed, with at most `max` of them.
pub open spec fn matches_wf(ms: Seq<Match>, max: int) -> bool {
    &&& ms.len() <= max
    &&& (forall|i: int| 0 <= i < ms.len() ==> match_ok(#[trigger] ms[i]))
}

/// The name of capture group `idx`, if the engine reports one.
fn name_of(names: &Vec<Option<String>>, idx: usize) -> (r: Option<String>) {
    if idx < names.len() {
        match &names[idx] {
            Some(n) => Some(n.clone()),
            None => None,
        }
    } else {
        None
    }
}

/// Builds one `Match` from an engine's capture groups.
fn match_from_groups(caps: &CapturedGroups, names: &Vec<Option<String>>) -> (r: Option<Match>)
    ensures
        r matches Some(m) ==> match_ok(m),
        r is Some <==> (caps.slots@.len() >= 1 && caps.slots@[0] is Some
            && caps.slots@[0]->Some_0.start <= caps.slots@[0]->Some_0.end),
        (r matches Some(m) ==> (caps.slots@[0] matches Some(full) && m.start == full.start
            && m.end == full.end && m.text@ == full.text@)),
{
    if caps.slots.len() == 0 {
        return None;
    }
    let full = match &caps.slots[0] {
        Some(f) => f,
        None => {
            return None;
        },
    };
    if full.start > full.end {
        return None;
    }
    let mut captures: Vec<Capture> = Vec::new();
    let mut i: usize = 1;
    while i < caps.slots.len()
        invariant
            1 <= i,
            forall|j: int|
                0 <= j < captures@.len() ==> (#[trigger] captures@[j]).group >= 1,
        decreases caps.slots@.len() - i,
    {
        match &caps.slots[i] {
            Some(c) => {
                captures.push(
                    Capture {
                        group: i,
                        name: name_of(names, i),
                        text: c.text.clone(),
                        start: c.start,
                        end: c.end,
                    },
                );
            },
            None => {},
        }
        i += 1;
    }
    Some(
        Match {
            text: full.text.clone(),
            start: full.start,
            end: full.end,
            captures,
        },
    )
}

/// The byte position the scan resumes from after the first `k` matches:
/// past the previous match, at least one byte on, capped at the text's
/// end.
pub open spec fn search_pos(ms: Seq<Match>, k: int, n: int) -> int
    decreases k,
{
    if k <= 0 {
        0
    } else {
        let prev = search_pos(ms, k - 1, n);
        let stepped = if ms[k - 1].end > prev {
            ms[k - 1].end as int
        } else {
            prev + 1
        };
        if stepped > n {
            n
        } else {
            stepped
        }
    }
}

/// The matches are exactly the automaton engine's successive finds: each
/// spans the find at its resume position with the text it spans, and the
/// scan stops only at the cap, at the text's end, or at a failed find.
pub open spec fn span_chain(p: Seq<char>, t: Seq<char>, n: int, ms: Seq<Match>, max: int)
    -> bool {
    &&& ms.len() <= max
    &&& (forall|k: int|
        0 <= k < ms.len() ==> rx_find_from(p, t, search_pos(ms, k, n)) == Some(
            ((#[trigger] ms[k]).start as int, ms[k].end as int),
        ))
    &&& (forall|k: int|
        0 <= k < ms.len() ==> (#[trigger] ms[k]).text@ == byte_slice(
            t,
            ms[k].start as int,
            ms[k].end as int,
        ))
    &&& (ms.len() < max ==> (search_pos(ms, ms.len() as int, n) >= n || rx_find_from(
        p,
        t,
        search_pos(ms, ms.len() as int, n),
    ) is None))
}

/// The span chain, with no captures collected.
pub open spec fn find_chain(p: Seq<char>, t: Seq<char>, n: int, ms: Seq<Match>, max: int)
    -> bool {
    &&& span_chain(p, t, n, ms, max)
    &&& (forall|k: int| 0 <= k < ms.len() ==> (#[trigger] ms[k]).captures@.len() == 0)
}

/// The span chain under the backtracking engine: the same walk, over its
/// finds.
pub open spec fn fancy_span_chain(p: Seq<char>, t: Seq<char>, n: int, ms: Seq<Match>, max: int)
    -> bool {
    &&& ms.len() <= max
    &&& (forall|k: int|
        0 <= k < ms.len() ==> crate::rx::fancy_find_from(p, t, search_pos(ms, k, n)) == Some(
            ((#[trigger] ms[k]).start as int, ms[k].end as int),
        ))
    &&& (forall|k: int|
        0 <= k < ms.len() ==> (#[trigger] ms[k]).text@ == byte_slice(
            t,
            ms[k].start as int,
            ms[k].end as int,
        ))
    &&& (ms.len() < max ==> (search_pos(ms, ms.len() as int, n) >= n
        || crate::rx::fancy_find_from(p, t, search_pos(ms, ms.len() as int, n)) is None))
}

proof fn lemma_search_pos_push(ms: Seq<Match>, m: Match, k: int, n: int)
    requires
        0 <= k <= ms.len(),
    ensures
        search_pos(ms.push(m), k, n) == search_pos(ms, k, n),
    decreases k,
{
    if k > 0 {
        lemma_search_pos_push(ms, m, k - 1, n);
        assert(ms.push(m)[k - 1] == ms[k - 1]);
    }
}

/// Collects the automaton engine's successive matches, without captures:
/// the result is exactly the chain of `rx_find_from` results.
pub fn collect_find_matches(re: &CompiledRe, text: &str, max_matches: usize) -> (r: Vec<Match>)
    ensures
        find_chain(
            re.pattern(),
            text@,
            text.spec_bytes().len() as usize as int,
            r@,
            max_matches as int,
        ),
        matches_wf(r@, max_matches as int),
{
    let n = text.len();
    let mut matches: Vec<Match> = Vec::new();
    if max_matches == 0 {
        return matches;
    }
    if n == 0 {
        match re_find_at(re, text, 0) {
            Some((s, e)) => {
                matches.push(
                    Match {
                        text: crate::rx::slice_bytes(text, s, e),
                        start: s,
                        end: e,
                        captures: Vec::new(),
                    },
                );
                proof {
                    assert(search_pos(matches@, 0, 0) == 0);
                    assert(search_pos(matches@, 1, 0) == 0);
                }
            },
            None => {},
        }
        return matches;
    }
    let mut pos: usize = 0;
    let mut done = false;
    while pos < n && !done && matches.len() < max_matches
        invariant
            matches@.len() <= max_matches,
            pos <= n,
            0 < n == text.spec_bytes().len() as usize,
            pos as int == search_pos(matches@, matches@.len() as int, n as int),
            done ==> rx_find_from(re.pattern(), text@, pos as int) is None,
            forall|k: int|
                0 <= k < matches@.len() ==> rx_find_from(
                    re.pattern(),
                    text@,
                    search_pos(matches@, k, n as int),
                ) == Some(((#[trigger] matches@[k]).start as int, matches@[k].end as int)),
            forall|k: int|
                0 <= k < matches@.len() ==> (#[trigger] matches@[k]).text@ == byte_slice(
                    text@,
                    matches@[k].start as int,
                    matches@[k].end as int,
                ) && matches@[k].captures@.len() == 0,
            forall|k: int| 0 <= k < matches@.len() ==> match_ok(#[trigger] matches@[k]),
        decreases n - pos, (if done {
            0int
        } else {
            1int
        }),
    {
        let ghost before = matches@;
        match re_find_at(re, text, pos) {
            Some((s, e)) => {
                let m = Match {
                    text: crate::rx::slice_bytes(text, s, e),
                    start: s,
                    end: e,
                    captures: Vec::new(),
                };
                matches.push(m);
                proof {
                    assert forall|k: int| 0 <= k <= before.len() implies search_pos(
                        matches@,
                        k,
                        n as int,
                    ) == search_pos(before, k, n as int) by {
                        lemma_search_pos_push(before, matches@.last(), k, n as int);
                    }
                }
                let next = if e > pos {
                    e
                } else {
                    pos + 1
                };
                pos = if next > n {
                    n
                } else {
                    next
                };
                proof {
                    assert(pos as int == search_pos(matches@, matches@.len() as int, n as int));
                }
            },
            None => {
                done = true;
            },
        }
    }
    matches
}

/// Collects every non-overlapping match of the compiled pattern in the
/// text, up to `max_matches`; `pattern` is the text the pattern was
/// compiled from, used to decide whether captures are collected.
pub fn collect_matches(compiled: &CompiledRegex, text: &str, pattern: &str, max_matches: usize)
    -> (r: Result<Vec<Match>, String>)
    ensures
        r matches Ok(ms) ==> matches_wf(ms@, max_matches as int),
        compiled is Regex ==> r is Ok,
        compiled is Regex ==> (r matches Ok(ms) ==> span_chain(
            compiled.pattern(),
            text@,
            text.spec_bytes().len() as usize as int,
            ms@,
            max_matches as int,
        )),
        compiled is FancyRegex ==> (r matches Ok(ms) ==> fancy_span_chain(
            compiled.pattern(),
            text@,
            text.spec_bytes().len() as usize as int,
            ms@,
            max_matches as int,
        )),
{
    let mut matches: Vec<Match> = Vec::new();
    let n = text.len();
    let has_captures = has_capturing_groups(pattern);

    match compiled {
        CompiledRegex::Regex(re) => {
            if !has_captures {
                return Ok(collect_find_matches(re, text, max_matches));
            }
            let names = re_capture_names(re);
            if n == 0 && max_matches > 0 {
                // an empty haystack can still hold one empty match
                match re_captures_at(re, text, 0) {
                    Some(caps) => {
                        match match_from_groups(&caps, &names) {
                            Some(m) => {
                                matches.push(m);
                                proof {
                                    assert(search_pos(matches@, 0, 0) == 0);
                                    assert(search_pos(matches@, 1, 0) == 0);
                                }
                            },
                            None => {
                                proof {
                                    assert(false);
                                }
                            },
                        }
                    },
                    None => {},
                }
                return Ok(matches);
            }
            let mut pos: usize = 0;
            let mut done = false;
            while pos < n && !done && matches.len() < max_matches
                invariant
                    matches@.len() <= max_matches,
                    pos <= n,
                    n == text.spec_bytes().len() as usize,
                    pos as int == search_pos(matches@, matches@.len() as int, n as int),
                    done ==> rx_find_from(re.pattern(), text@, pos as int) is None,
                    forall|k: int|
                        0 <= k < matches@.len() ==> rx_find_from(
                            re.pattern(),
                            text@,
                            search_pos(matches@, k, n as int),
                        ) == Some(((#[trigger] matches@[k]).start as int, matches@[k].end as int)),
                    forall|k: int|
                        0 <= k < matches@.len() ==> (#[trigger] matches@[k]).text@ == byte_slice(
                            text@,
                            matches@[k].start as int,
                            matches@[k].end as int,
                        ),
                    forall|i: int| 0 <= i < matches@.len() ==> match_ok(#[trigger] matches@[i]),
                decreases n - pos, (if done {
                    0int
                } else {
                    1int
                }),
            {
                let ghost before = matches@;
                match re_captures_at(re, text, pos) {
                    Some(caps) => {
                        match match_from_groups(&caps, &names) {
                            Some(m) => {
                                let e = m.end;
                                matches.push(m);
                                proof {
                                    assert forall|k: int| 0 <= k <= before.len() implies search_pos(
                                        matches@,
                                        k,
                                        n as int,
                                    ) == search_pos(before, k, n as int) by {
                                        lemma_search_pos_push(before, matches@.last(), k, n as int);
                                    }
                                }
                                let next = if e > pos {
                                    e
                                } else {
                                    pos + 1
                                };
                                pos = if next > n {
                                    n
                                } else {
                                    next
                                };
                                proof {
                                    assert(pos as int == search_pos(
                                        matches@,
                                        matches@.len() as int,
                                        n as int,
                                    ));
                                }
                            },
                            None => {
                                proof {
                                    assert(false);
                                }
                                done = true;
                            },
                        }
                    },
                    None => {
                        done = true;
                    },
                }
            }
            Ok(matches)
        },
        CompiledRegex::FancyRegex(re) => {
            let names = fancy_capture_names(re);
            let mut pos: usize = 0;
            let mut done = false;
            while pos < n && !done && matches.len() < max_matches
                invariant
                    matches@.len() <= max_matches,
                    pos <= n,
                    n == text.spec_bytes().len() as usize,
                    compiled is FancyRegex,
                    pos as int == search_pos(matches@, matches@.len() as int, n as int),
                    done ==> crate::rx::fancy_find_from(re.pattern(), text@, pos as int) is None,
                    forall|k: int|
                        0 <= k < matches@.len() ==> crate::rx::fancy_find_from(
                            re.pattern(),
                            text@,
                            search_pos(matches@, k, n as int),
                        ) == Some(((#[trigger] matches@[k]).start as int, matches@[k].end as int)),
                    forall|k: int|
                        0 <= k < matches@.len() ==> (#[trigger] matches@[k]).text@ == byte_slice(
                            text@,
                            matches@[k].start as int,
                            matches@[k].end as int,
                        ),
                    forall|i: int| 0 <= i < matches@.len() ==> match_ok(#[trigger] matches@[i]),
                decreases n - pos, (if done {
                    0int
                } else {
                    1int
                }),
            {
                let ghost before = matches@;
                if has_captures {
                    match fancy_captures_from_pos(re, text, pos) {
                        Ok(Some(caps)) => {
                            match match_from_groups(&caps, &names) {
                                Some(m) => {
                                    let e = m.end;
                                    matches.push(m);
                                    proof {
                                        assert forall|k: int|
                                            0 <= k <= before.len() implies search_pos(
                                            matches@,
                                            k,
                                            n as int,
                                        ) == search_pos(before, k, n as int) by {
                                            lemma_search_pos_push(
                                                before,
                                                matches@.last(),
                                                k,
                                                n as int,
                                            );
                                        }
                                    }
                                    let next = if e > pos {
                                        e
                                    } else {
                                        pos + 1
                                    };
                                    pos = if next > n {
                                        n
                                    } else {
                                        next
                                    };
                                    proof {
                                        assert(pos as int == search_pos(
                                            matches@,
                                            matches@.len() as int,
                                            n as int,
                                        ));
                                    }
                                },
                                None => {
                                    proof {
                                        assert(false);
                                    }
                                    done = true;
                                },
                            }
                        },
                        Ok(None) => {
                            done = true;
                        },
                        Err(e) => {
                            return Err(e.to_string());
                        },
                    }
                } else {
                    match fancy_find_from_pos(re, text, pos) {
                        Ok(Some((s, e))) => {
                            matches.push(
                                Match {
                                    text: crate::rx::slice_bytes(text, s, e),
                                    start: s,
                                    end: e,
                                    captures: Vec::new(),
                                },
                            );
                            proof {
                                assert forall|k: int| 0 <= k <= before.len() implies search_pos(
                                    matches@,
                                    k,
                                    n as int,
                                ) == search_pos(before, k, n as int) by {
                                    lemma_search_pos_push(before, matches@.last(), k, n as int);
                                }
                            }
                            let next = if e > pos {
                                e
                            } else {
                                pos + 1
                            };
                            pos = if next > n {
                                n
                            } else {
                                next
                            };
                            proof {
                                assert(pos as int == search_pos(
                                    matches@,
                                    matches@.len() as int,
                                    n as int,
                                ));
                            }
                        },
                        Ok(None) => {
                            done = true;
                        },
                        Err(e) => {
                            return Err(e.to_string());
                        },
                    }
                }
            }
            Ok(matches)
        },
    }
}

/// Tests a pattern against a string.
///
/// Compiles with the caller's forced engine when one is given, otherwise
/// with automatic selection; collects up to the caller's cap of matches.
pub fn test_string(pattern: &str, input: &str, options: &TestOptions) -> (r: Result<
    TestResult,
    String,
>)
    ensures
        options.engine == Some(EngineType::Regex) ==> (r is Ok <==> rx_valid(
            effective_pattern(pattern@, options.multiline),
        )),
        options.engine == Some(EngineType::FancyRegex) ==> (r is Ok ==> fancy_valid(
            effective_pattern(pattern@, options.multiline),
        )),
        r matches Ok(res) ==> {
            &&& res.pattern@ == pattern@
            &&& res.match_count == res.matches@.len()
            &&& res.matched <==> res.match_count > 0
            &&& res.input_length == input.spec_bytes().len() as usize
            &&& (options.max_matches matches Some(mm) ==> res.match_count <= mm)
            &&& (options.engine == Some(EngineType::Regex) ==> span_chain(
                effective_pattern(pattern@, options.multiline),
                input@,
                input.spec_bytes().len() as usize as int,
                res.matches@,
                spec_match_cap(options.max_matches),
            ))
            &&& ((options.engine is None && !FancyFeatures::of(
                effective_pattern(pattern@, options.multiline),
            ).spec_needs_fancy() && rx_valid(effective_pattern(pattern@, options.multiline)))
                ==> span_chain(
                effective_pattern(pattern@, options.multiline),
                input@,
                input.spec_bytes().len() as usize as int,
                res.matches@,
                spec_match_cap(options.max_matches),
            ))
            &&& (options.engine == Some(EngineType::FancyRegex) ==> fancy_span_chain(
                effective_pattern(pattern@, options.multiline),
                input@,
                input.spec_bytes().len() as usize as int,
                res.matches@,
                spec_match_cap(options.max_matches),
            ))
            &&& ((options.engine is None && !(!FancyFeatures::of(
                effective_pattern(pattern@, options.multiline),
            ).spec_needs_fancy() && rx_valid(effective_pattern(pattern@, options.multiline))))
                ==> fancy_span_chain(
                effective_pattern(pattern@, options.multiline),
                input@,
                input.spec_bytes().len() as usize as int,
                res.matches@,
                spec_match_cap(options.max_matches),
            ))
        },
{
    let start = crate::benchmark::clock_now();

    let effective_pattern_s = apply_multiline(pattern, options.multiline);
    let pattern_ref = effective_pattern_s.as_str();

    let (compiled, engine_type) = match options.engine {
        Some(engine) => {
            match CompiledRegex::with_engine(pattern_ref, engine) {
                Ok(c) => (c, engine),
                Err(e) => {
                    return Err(e.message());
                },
            }
        },
        None => {
            match CompiledRegex::new(pattern_ref) {
                Ok(ce) => ce,
                Err(e) => {
                    return Err(e.message());
                },
            }
        },
    };

    let max_matches = match options.max_matches {
        Some(m) => m,
        None => usize::MAX,
    };
    let matches = match collect_matches(&compiled, input, pattern_ref, max_matches) {
        Ok(ms) => ms,
        Err(e) => {
            return Err(e);
        },
    };

    let elapsed_us = crate::benchmark::elapsed_us_since(&start);

    Ok(
        TestResult {
            pattern: String::from_str(pattern),
            engine: engine_type.name(),
            input_length: input.len(),
            matched: matches.len() > 0,
            match_count: matches.len(),
            matches,
            elapsed_us,
        },
    )
}

} // verus!
