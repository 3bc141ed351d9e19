//! Benchmarking and catastrophic-backtracking measurement.
//!
//! A pattern is compiled once and run repeatedly against the input, each
//! iteration timed individually under an overall wall-clock deadline.
//! Catastrophic backtracking is flagged when one iteration is very slow,
//! when the backtracking engine's per-iteration watchdog fires, or
//! statistically, when the mean iteration time exceeds a millisecond and
//! the standard deviation exceeds twice the mean.  The statistics here are
//! exact integer arithmetic over the recorded nanosecond timings.

use vstd::prelude::*;

verus! {

use vstd::string::StringExecFns;
use vstd::string::StringSliceAdditionalSpecFns;
use vstd::relations::total_ordering;
use vstd::seq_lib::lemma_sorted_unique;
use vstd::relations::sorted_by;
use crate::engine::{CompiledRegex, FancyFeatures};
use crate::rx::{CompiledFancy, CompiledRe, fancy_find_from_pos, fancy_valid, re_find_at,
    rx_valid};
use crate::redos::{spec_suggestion, suggest_fix};
use crate::scan::has_sub;
use crate::types::BenchmarkResult;

#[verifier::external_type_specification]
#[verifier::external_body]
pub struct ExInstant(std::time::Instant);

/// Relies on std::time::Instant::now: a reading of the monotonic clock.
/// Nothing is assumed of its value.
#[verifier::external_body]
fn now_instant() -> std::time::Instant {
    std::time::Instant::now()
}

/// Relies on std::time::Instant::elapsed: the time since the reading was
/// taken.  Nothing is assumed of its value.
#[verifier::external_body]
fn instant_elapsed(t: &std::time::Instant) -> std::time::Duration {
    t.elapsed()
}

/// Relies on std::time::Duration::as_nanos: the duration in nanoseconds,
/// truncated to 64 bits.  Nothing is assumed of its value.
#[verifier::external_body]
fn duration_ns(d: &std::time::Duration) -> u64 {
    d.as_nanos() as u64
}

/// Nanoseconds elapsed since the reading.
fn elapsed_ns_since(t: &std::time::Instant) -> u64 {
    let d = instant_elapsed(t);
    duration_ns(&d)
}

/// Options for benchmarking.
pub struct BenchmarkOptions {
    /// Number of iterations to run.
    pub iterations: usize,
    /// Overall timeout in milliseconds.
    pub timeout_ms: u64,
}

impl Default for BenchmarkOptions {
    /// One hundred iterations under a five-second deadline.
    fn default() -> (r: BenchmarkOptions)
        ensures
            r.iterations == 100,
            r.timeout_ms == 5000,
    {
        BenchmarkOptions { iterations: 100, timeout_ms: 5000 }
    }
}

// === Statistics over the recorded timings ===

/// Nanosecond order.
pub open spec fn ns_le(a: u64, b: u64) -> bool {
    a <= b
}

/// The nanosecond order as a function value, for sorting.
pub open spec fn ns_leq_fn() -> spec_fn(u64, u64) -> bool {
    |a: u64, b: u64| ns_le(a, b)
}

/// The sum of the timings.
pub open spec fn sum_of(ts: Seq<u64>) -> int
    decreases ts.len(),
{
    if ts.len() == 0 {
        0
    } else {
        sum_of(ts.drop_last()) + ts.last()
    }
}

/// The squared deviation of one timing from the mean.
pub open spec fn sq_dev(t: u64, mean: u64) -> int {
    (t - mean) * (t - mean)
}

/// The sum of squared deviations, saturating at the 128-bit bound; the
/// saturation point is unreachable for any realistic sample count.
pub open spec fn sum_sq_dev_sat(ts: Seq<u64>, mean: u64) -> int
    decreases ts.len(),
{
    if ts.len() == 0 {
        0
    } else {
        let prev = sum_sq_dev_sat(ts.drop_last(), mean);
        if prev + sq_dev(ts.last(), mean) > u128::MAX {
            u128::MAX as int
        } else {
            prev + sq_dev(ts.last(), mean)
        }
    }
}

/// The statistical backtracking signature: a mean above a millisecond
/// whose standard deviation exceeds twice the mean, stated as a variance
/// inequality.
pub open spec fn stat_flag(ts: Seq<u64>, mean: u64) -> bool {
    &&& mean > 1_000_000
    &&& ts.len() > 1
    &&& sum_sq_dev_sat(ts, mean) > 4 * (mean as int) * (mean as int) * (ts.len() - 1)
}

/// A single iteration after the first took more than a hundred
/// milliseconds.
pub open spec fn slow_iteration_flag(ts: Seq<u64>) -> bool {
    exists|i: int| 1 <= i < ts.len() && #[trigger] ts[i] > 100_000_000
}

proof fn lemma_sum_bound(ts: Seq<u64>)
    ensures
        0 <= sum_of(ts) <= ts.len() * 0xFFFF_FFFF_FFFF_FFFF,
    decreases ts.len(),
{
    if ts.len() == 0 {
    } else {
        lemma_sum_bound(ts.drop_last());
        assert((ts.len() - 1) * 0xFFFF_FFFF_FFFF_FFFF + 0xFFFF_FFFF_FFFF_FFFF == ts.len()
            * 0xFFFF_FFFF_FFFF_FFFF) by (nonlinear_arith);
    }
}

/// The sum of the timings, exactly.
fn sum_timings(ts: &Vec<u64>) -> (s: u128)
    ensures
        s == sum_of(ts@),
{
    let mut s: u128 = 0;
    let mut i: usize = 0;
    while i < ts.len()
        invariant
            i <= ts@.len(),
            s == sum_of(ts@.subrange(0, i as int)),
        decreases ts@.len() - i,
    {
        let ghost pre = ts@.subrange(0, i as int);
        proof {
            lemma_sum_bound(pre);
            assert(i * 0xFFFF_FFFF_FFFF_FFFF + 0xFFFF_FFFF_FFFF_FFFF < 0x1_0000_0000_0000_0000_0000_0000_0000_0000)
                by (nonlinear_arith)
                requires
                    0 <= i < 0x1_0000_0000_0000_0000,
            ;
        }
        s = s + (ts[i] as u128);
        proof {
            let next = ts@.subrange(0, i + 1);
            assert(next.drop_last() =~= pre);
            assert(next.last() == ts@[i as int]);
        }
        i += 1;
    }
    proof {
        assert(ts@.subrange(0, ts@.len() as int) =~= ts@);
    }
    s
}

/// Sorts the timings ascending; the result is the unique sorted
/// arrangement of the input.
fn sort_timings(input: Vec<u64>) -> (r: Vec<u64>)
    ensures
        r@ == input@.sort_by(ns_leq_fn()),
        r@.len() == input@.len(),
{
    broadcast use vstd::seq_lib::group_to_multiset_ensures;

    let ghost leq = ns_leq_fn();
    let ghost orig = input@;
    let mut src = input;
    let mut out: Vec<u64> = Vec::new();
    while src.len() > 0
        invariant
            leq == ns_leq_fn(),
            sorted_by(out@, leq),
            out@.to_multiset().add(src@.to_multiset()) =~= orig.to_multiset(),
            forall|i: int, j: int|
                0 <= i < out@.len() && 0 <= j < src@.len() ==> #[trigger] out@[i] <= #[trigger] src@[j],
        decreases src@.len(),
    {
        let mut best: usize = 0;
        let mut bi: usize = 1;
        while bi < src.len()
            invariant
                1 <= bi <= src@.len(),
                src@.len() > 0,
                best < bi,
                forall|j: int| 0 <= j < bi ==> src@[best as int] <= #[trigger] src@[j],
            decreases src@.len() - bi,
        {
            if src[bi] < src[best] {
                best = bi;
            }
            bi += 1;
        }
        let ghost old_src = src@;
        let ghost old_out = out@;
        let x = src.remove(best);
        proof {
            old_src.to_multiset_ensures();
            assert(src@.to_multiset() =~= old_src.to_multiset().remove(x));
        }
        out.push(x);
        proof {
            old_out.to_multiset_ensures();
            assert(out@.to_multiset() =~= old_out.to_multiset().insert(x));
            assert(out@.to_multiset().add(src@.to_multiset()) =~= orig.to_multiset()) by {
                assert(old_src.to_multiset().contains(x)) by {
                    assert(old_src[best as int] == x);
                    assert(old_src.contains(x));
                }
                assert(old_out.to_multiset().insert(x).add(old_src.to_multiset().remove(x))
                    =~= old_out.to_multiset().add(old_src.to_multiset()));
            }
            assert forall|j: int| 0 <= j < src@.len() implies x <= #[trigger] src@[j] by {
                if j < best {
                    assert(src@[j] == old_src[j]);
                } else {
                    assert(src@[j] == old_src[j + 1]);
                }
            }
            assert forall|i: int, j: int|
                0 <= i < j < out@.len() implies leq(out@[i], out@[j]) by {
                if j < out@.len() - 1 {
                    assert(out@[i] == old_out[i]);
                    assert(out@[j] == old_out[j]);
                    assert(leq(old_out[i], old_out[j]));
                } else {
                    assert(out@[j] == x);
                    assert(out@[i] == old_out[i]);
                    assert(old_out[i] <= old_src[best as int]);
                }
            }
            assert(sorted_by(out@, leq));
        }
    }
    proof {
        src@.to_multiset_ensures();
        out@.to_multiset_ensures();
        orig.to_multiset_ensures();
        assert(src@.to_multiset().len() == 0);
        assert(out@.to_multiset() =~= orig.to_multiset());
        assert(total_ordering(leq));
        orig.lemma_sort_by_ensures(leq);
        lemma_sorted_unique(out@, orig.sort_by(leq), leq);
        assert(out@ == orig.sort_by(leq));
    }
    out
}

/// Whether the saturated sum of squared deviations exceeds four times the
/// squared mean times the sample count less one — exactly the variance
/// form of the standard-deviation test.
fn variance_exceeds(s: u128, mean: u64, c: u128) -> (r: bool)
    requires
        c >= 1,
    ensures
        r == (s > 4 * (mean as int) * (mean as int) * (c as int)),
{
    let q1 = s / c;
    let r1 = s % c;
    proof {
        assert((mean as int) * (mean as int) < 0x1_0000_0000_0000_0000_0000_0000_0000_0000)
            by (nonlinear_arith)
            requires
                0 <= (mean as int) && (mean as int) < 0x1_0000_0000_0000_0000,
        ;
    }
    let m2: u128 = (mean as u128) * (mean as u128);
    let q14 = q1 / 4;
    let r14 = q1 % 4;
    let r = q14 > m2 || (q14 == m2 && r14 > 0) || (q14 == m2 && r14 == 0 && r1 > 0);
    proof {
        assert(r == ((s as int) > 4 * (mean as int) * (mean as int) * (c as int)))
            by (nonlinear_arith)
            requires
                (q1 as int) == (s as int) / (c as int),
                (r1 as int) == (s as int) % (c as int),
                (q14 as int) == (q1 as int) / 4,
                (r14 as int) == (q1 as int) % 4,
                (m2 as int) == (mean as int) * (mean as int),
                (c as int) >= 1,
                r == (q14 > m2 || (q14 == m2 && r14 > 0) || (q14 == m2 && r14 == 0 && r1 > 0)),
        ;
    }
    r
}

/// The saturated sum of squared deviations from the mean.
fn sum_sq_devs(ts: &Vec<u64>, mean: u64) -> (s: u128)
    ensures
        s == sum_sq_dev_sat(ts@, mean),
{
    let mut s: u128 = 0;
    let mut i: usize = 0;
    while i < ts.len()
        invariant
            i <= ts@.len(),
            s == sum_sq_dev_sat(ts@.subrange(0, i as int), mean),
        decreases ts@.len() - i,
    {
        let ghost pre = ts@.subrange(0, i as int);
        let t = ts[i];
        let diff: u64 = if t >= mean {
            t - mean
        } else {
            mean - t
        };
        proof {
            assert((diff as int) * (diff as int) < 0x1_0000_0000_0000_0000_0000_0000_0000_0000)
                by (nonlinear_arith)
                requires
                    0 <= (diff as int) && (diff as int) < 0x1_0000_0000_0000_0000,
            ;
            assert((diff as int) * (diff as int) == sq_dev(t, mean)) by (nonlinear_arith)
                requires
                    diff as int == if t >= mean {
                        t - mean
                    } else {
                        mean - t
                    },
            ;
        }
        let d2: u128 = (diff as u128) * (diff as u128);
        if s > u128::MAX - d2 {
            s = u128::MAX;
        } else {
            s = s + d2;
        }
        proof {
            let next = ts@.subrange(0, i + 1);
            assert(next.drop_last() =~= pre);
            assert(next.last() == ts@[i as int]);
        }
        i += 1;
    }
    proof {
        assert(ts@.subrange(0, ts@.len() as int) =~= ts@);
    }
    s
}

// === Driving the engines ===

/// Times one pass of the automaton engine over the input: every
/// non-overlapping match is visited.
fn drain_regex(re: &CompiledRe, text: &str) {
    let n = text.len();
    let mut pos: usize = 0;
    let mut done = false;
    while pos < n && !done
        invariant
            pos <= n,
            n == text.spec_bytes().len() as usize,
        decreases n - pos, (if done {
            0int
        } else {
            1int
        }),
    {
        match re_find_at(re, text, pos) {
            Some((s, e)) => {
                let next = if e > pos {
                    e
                } else {
                    pos + 1
                };
                pos = if next > n {
                    n
                } else {
                    next
                };
            },
            None => {
                done = true;
            },
        }
    }
}

/// Times one pass of the backtracking engine over the input, with a
/// one-second watchdog bounding the iteration; returns whether the
/// watchdog fired.
fn drain_fancy(re: &CompiledFancy, text: &str) -> (caught: bool) {
    let iter_start = now_instant();
    let n = text.len();
    let mut pos: usize = 0;
    let mut done = false;
    let mut caught = false;
    while pos < n && !done
        invariant
            pos <= n,
        decreases n - pos, (if done {
            0int
        } else {
            1int
        }),
    {
        match fancy_find_from_pos(re, text, pos) {
            Ok(Some((s, e))) => {
                let next = if e > pos {
                    e
                } else {
                    pos + 1
                };
                pos = if next > n {
                    n
                } else {
                    next
                };
                if elapsed_ns_since(&iter_start) > 1_000_000_000 {
                    caught = true;
                    done = true;
                }
            },
            Ok(None) => {
                done = true;
            },
            Err(_) => {
                done = true;
            },
        }
    }
    caught
}

// === The benchmark itself ===

/// The derived statistics of a finished run are those of its recorded
/// timings.
pub open spec fn summary_matches(
    res: BenchmarkResult,
    ts: Seq<u64>,
    input_len: int,
    pattern: Seq<char>,
) -> bool {
    &&& res.iterations == ts.len()
    &&& res.avg_ns == sum_of(ts) / ts.len() as int
    &&& res.median_ns == ts.sort_by(ns_leq_fn())[ts.len() as int / 2]
    &&& res.throughput_bytes_per_sec as int == (if res.avg_ns > 0 {
        let t = input_len * 1_000_000_000 / res.avg_ns as int;
        if t > u64::MAX {
            u64::MAX as int
        } else {
            t
        }
    } else {
        0
    })
    &&& ((slow_iteration_flag(ts) || stat_flag(ts, res.avg_ns)) ==> res.catastrophic_backtracking)
    &&& (on_automaton_engine(pattern) ==> res.catastrophic_backtracking == (slow_iteration_flag(
        ts,
    ) || stat_flag(ts, res.avg_ns)))
    &&& (res.warning is Some <==> (res.catastrophic_backtracking || res.timeout is Some))
    &&& (res.catastrophic_backtracking ==> (res.warning matches Some(w) && w@
        == "Pattern exhibits exponential time complexity"@))
    &&& (!res.catastrophic_backtracking && res.timeout is Some ==> (res.warning matches Some(w)
        && w@ == "Benchmark timed out before completing all iterations"@))
    &&& (res.suggestion is Some <==> (res.catastrophic_backtracking && spec_suggestion(
        pattern,
    ) is Some))
    &&& (res.suggestion matches Some(s) ==> spec_suggestion(pattern) == Some(s@))
}

/// The pattern runs on the automaton engine: no backtracking-only marker
/// and the automaton engine accepts it.
pub open spec fn on_automaton_engine(p: Seq<char>) -> bool {
    !FancyFeatures::of(p).spec_needs_fancy() && rx_valid(p)
}

/// Benchmarks a pattern against an input.
///
/// Fails exactly when the pattern compiles on neither engine.  The result
/// echoes the pattern and input size, reports at most the requested
/// number of iterations, and its statistics are exactly those of the
/// recorded per-iteration timings; a timeout is only ever reported as
/// present.
pub fn benchmark_pattern(pattern: &str, input: &str, options: &BenchmarkOptions) -> (r: Result<
    BenchmarkResult,
    String,
>)
    ensures
        r is Ok <==> (if FancyFeatures::of(pattern@).spec_needs_fancy() {
            fancy_valid(pattern@)
        } else {
            rx_valid(pattern@) || fancy_valid(pattern@)
        }),
        r matches Ok(res) ==> {
            &&& res.pattern@ == pattern@
            &&& res.engine@ == (if on_automaton_engine(pattern@) {
                "regex"@
            } else {
                "fancy-regex"@
            })
            &&& res.input_size_bytes == input.spec_bytes().len() as usize
            &&& res.iterations <= options.iterations
            &&& (res.timeout matches Some(b) ==> b)
            &&& (res.timeout is None ==> res.iterations == options.iterations)
            &&& (res.iterations == 0 ==> res.catastrophic_backtracking && res.timeout
                == Some(true) && res.avg_ns == 0 && res.median_ns == 0
                && res.throughput_bytes_per_sec == 0)
            &&& (res.iterations == 0 ==> (res.warning matches Some(w) && w@
                == "Pattern timed out immediately"@))
            &&& (res.iterations == 0 ==> (res.suggestion is Some <==> spec_suggestion(
                pattern@,
            ) is Some))
            &&& (res.iterations == 0 ==> (res.suggestion matches Some(s) ==> spec_suggestion(
                pattern@,
            ) == Some(s@)))
            &&& (res.iterations > 0 ==> exists|ts: Seq<u64>|
                #[trigger] summary_matches(res, ts, input.spec_bytes().len() as usize as int, pattern@))
        },
{
    let compiled = match CompiledRegex::new(pattern) {
        Ok(c) => c,
        Err(e) => {
            return Err(e.message());
        },
    };
    let (compiled, engine_type) = compiled;

    let total_start = now_instant();
    let mut timings: Vec<u64> = Vec::new();
    let mut catastrophic = false;
    let mut timed_out = false;
    let mut it: usize = 0;
    while it < options.iterations && !timed_out
        invariant
            it <= options.iterations,
            timings@.len() == it,
            slow_iteration_flag(timings@) ==> catastrophic,
            compiled is Regex ==> catastrophic == slow_iteration_flag(timings@),
        decreases options.iterations - it, (if timed_out {
            0int
        } else {
            1int
        }),
    {
        let total_elapsed = elapsed_ns_since(&total_start);
        if (total_elapsed as u128) > (options.timeout_ms as u128) * 1_000_000u128 {
            timed_out = true;
        } else {
            let start = now_instant();
            match &compiled {
                CompiledRegex::Regex(re) => {
                    drain_regex(re, input);
                },
                CompiledRegex::FancyRegex(re) => {
                    if drain_fancy(re, input) {
                        catastrophic = true;
                    }
                },
            }
            let elapsed = elapsed_ns_since(&start);
            let ghost before = timings@;
            timings.push(elapsed);
            if elapsed > 100_000_000 && timings.len() > 1 {
                catastrophic = true;
            }
            proof {
                assert forall|k: int|
                    1 <= k < timings@.len() && #[trigger] timings@[k] > 100_000_000 implies (
                elapsed > 100_000_000 && timings@.len() > 1) || slow_iteration_flag(before) by {
                    if k < before.len() {
                        assert(before[k] == timings@[k]);
                    }
                }
                if elapsed > 100_000_000 && timings@.len() > 1 {
                    assert(timings@[timings@.len() - 1] > 100_000_000);
                    assert(slow_iteration_flag(timings@));
                }
                if slow_iteration_flag(before) {
                    let k = choose|k: int|
                        1 <= k < before.len() && #[trigger] before[k] > 100_000_000;
                    assert(timings@[k] == before[k]);
                    assert(slow_iteration_flag(timings@));
                }
            }
            it += 1;
        }
    }

    let n = timings.len();
    if n == 0 {
        return Ok(
            BenchmarkResult {
                pattern: String::from_str(pattern),
                engine: engine_type.name(),
                input_size_bytes: input.len(),
                iterations: 0,
                avg_ns: 0,
                median_ns: 0,
                throughput_bytes_per_sec: 0,
                catastrophic_backtracking: true,
                timeout: Some(true),
                warning: Some(String::from_str("Pattern timed out immediately")),
                suggestion: suggest_fix(pattern),
            },
        );
    }
    let ghost ts = timings@;
    let sum = sum_timings(&timings);
    let avg_ns: u64 = (sum / (n as u128)) as u64;
    proof {
        lemma_sum_bound(ts);
        assert(sum_of(ts) / ts.len() as int <= 0xFFFF_FFFF_FFFF_FFFF) by (nonlinear_arith)
            requires
                0 <= sum_of(ts) <= ts.len() * 0xFFFF_FFFF_FFFF_FFFF,
                ts.len() >= 1,
        ;
    }
    // statistical signature: mean above 1ms and stddev above twice the mean
    if n > 1 && avg_ns > 1_000_000 {
        let s = sum_sq_devs(&timings, avg_ns);
        if variance_exceeds(s, avg_ns, (n - 1) as u128) {
            catastrophic = true;
        }
    }
    let sorted = sort_timings(clone_timings(&timings));
    let median_ns = sorted[n / 2];
    let input_len = input.len();
    let throughput: u64 = if avg_ns > 0 {
        let t: u128 = ((input_len as u128) * 1_000_000_000u128) / (avg_ns as u128);
        proof {
            assert((input_len as int) * 1_000_000_000 < 0x1_0000_0000_0000_0000_0000_0000_0000_0000)
                by (nonlinear_arith)
                requires
                    0 <= (input_len as int) && (input_len as int) < 0x1_0000_0000_0000_0000,
            ;
        }
        if t > u64::MAX as u128 {
            u64::MAX
        } else {
            t as u64
        }
    } else {
        0
    };
    let warning: Option<String> = if catastrophic {
        Some(String::from_str("Pattern exhibits exponential time complexity"))
    } else if timed_out {
        Some(String::from_str("Benchmark timed out before completing all iterations"))
    } else {
        None
    };
    let suggestion: Option<String> = if catastrophic {
        suggest_fix(pattern)
    } else {
        None
    };
    let res = BenchmarkResult {
        pattern: String::from_str(pattern),
        engine: engine_type.name(),
        input_size_bytes: input_len,
        iterations: n,
        avg_ns,
        median_ns,
        throughput_bytes_per_sec: throughput,
        catastrophic_backtracking: catastrophic,
        timeout: if timed_out {
            Some(true)
        } else {
            None
        },
        warning,
        suggestion,
    };
    proof {
        assert(res.iterations == ts.len());
        assert(res.avg_ns == sum_of(ts) / ts.len() as int);
        assert(res.median_ns == ts.sort_by(ns_leq_fn())[ts.len() as int / 2]);
        assert((slow_iteration_flag(ts) || stat_flag(ts, res.avg_ns))
            ==> res.catastrophic_backtracking);
        assert(res.catastrophic_backtracking ==> (res.warning matches Some(w) && w@
            == "Pattern exhibits exponential time complexity"@));
        assert(res.catastrophic_backtracking ==> (res.suggestion is Some
            <==> crate::redos::spec_vulnerable(pattern@))) by {
            if has_sub(pattern@, "(a+)+"@) {
                assert(crate::redos::has_vuln(pattern@, 1));
            }
            if has_sub(pattern@, "(.+)+"@) {
                assert(crate::redos::has_vuln(pattern@, 6));
            }
            if has_sub(pattern@, "(.*)+"@) {
                assert(crate::redos::has_vuln(pattern@, 7));
            }
        }
        assert(summary_matches(res, ts, input.spec_bytes().len() as usize as int, pattern@));
    }
    Ok(res)
}

/// A copy of the timing vector.
fn clone_timings(ts: &Vec<u64>) -> (r: Vec<u64>)
    ensures
        r@ == ts@,
{
    let mut r: Vec<u64> = Vec::with_capacity(ts.len());
    let mut i: usize = 0;
    while i < ts.len()
        invariant
            i <= ts@.len(),
            r@ =~= ts@.subrange(0, i as int),
        decreases ts@.len() - i,
    {
        r.push(ts[i]);
        i += 1;
    }
    proof {
        assert(r@ =~= ts@);
    }
    r
}


/// A clock reading, for callers that time their own work.
pub fn clock_now() -> std::time::Instant {
    now_instant()
}

/// Microseconds elapsed since the reading.
pub fn elapsed_us_since(t: &std::time::Instant) -> u64 {
    elapsed_ns_since(t) / 1000
}

} // verus!
