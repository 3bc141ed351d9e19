//! Benchmarking.

use re_x::benchmark::{benchmark_pattern, BenchmarkOptions};

#[test]
fn test_benchmark_simple() {
    let result =
        benchmark_pattern(r"\d+", "hello 123 world 456", &BenchmarkOptions::default()).unwrap();
    assert!(!result.catastrophic_backtracking);
    // well under ten milliseconds per iteration
    assert!(result.avg_ns < 10_000_000);
}

#[test]
fn test_benchmark_reports_engine_and_size() {
    let result = benchmark_pattern(
        r"\d+",
        "hello 123",
        &BenchmarkOptions { iterations: 5, timeout_ms: 5000 },
    )
    .unwrap();
    assert_eq!(result.engine, "regex");
    assert_eq!(result.input_size_bytes, 9);
    assert!(result.iterations <= 5);
    assert_eq!(result.pattern, r"\d+");
}

#[test]
fn test_benchmark_rejects_invalid_pattern() {
    assert!(benchmark_pattern(r"(\d+", "abc", &BenchmarkOptions::default()).is_err());
}

#[test]
fn test_benchmark_redos_pattern_on_linear_engine() {
    // the nested-quantifier family runs on the automaton engine, which is
    // immune to backtracking blowup
    let result = benchmark_pattern(
        r"(a+)+",
        "aaaaaaaaaaaaaaaaaaaab",
        &BenchmarkOptions { iterations: 100, timeout_ms: 5000 },
    )
    .unwrap();
    assert_eq!(result.engine, "regex");
    assert!(!result.catastrophic_backtracking);
}

#[test]
fn test_benchmark_fancy_engine_runs() {
    // a lookahead forces the backtracking engine
    let result = benchmark_pattern(
        r"(?=a)(a+)+$",
        "aaaaaaaaaaaaaaaaaaaab",
        &BenchmarkOptions { iterations: 5, timeout_ms: 3000 },
    )
    .unwrap();
    assert_eq!(result.engine, "fancy-regex");
    assert!(result.iterations <= 5);
}

#[test]
fn test_benchmark_immediate_timeout() {
    // a zero deadline lets no iteration run: the result reports an
    // immediate timeout and flags it as catastrophic
    let result = benchmark_pattern(
        r"\d+",
        "hello 123",
        &BenchmarkOptions { iterations: 100, timeout_ms: 0 },
    )
    .unwrap();
    assert!(result.iterations <= 1);
    assert_eq!(result.timeout, Some(true));
    if result.iterations == 0 {
        assert!(result.catastrophic_backtracking);
        assert_eq!(result.warning.as_deref(), Some("Pattern timed out immediately"));
    }
}
