//! Static detection of catastrophic-backtracking risk.
//!
//! A pattern is flagged when it holds one of the known-vulnerable
//! sub-pattern families, or, more generally, any parenthesized group with
//! an internal quantifier that is itself quantified.  A companion
//! generator maps known families to canonical adversarial inputs.

use vstd::prelude::*;

verus! {

use vstd::string::StringExecFns;
use crate::scan::{chars_of, contains_str, has_sub, string_from_chars};

/// `+` or `*`.
pub open spec fn is_plus_star(c: char) -> bool {
    c == '+' || c == '*'
}

/// A parenthesized group with an internal quantifier, itself quantified:
/// `(`, a run without `)` holding a `+` or `*`, then `)` followed by `+`
/// or `*`.
pub open spec fn nested_quant_at(p: Seq<char>, i: int, j: int, k: int) -> bool {
    &&& 0 <= i < j < k
    &&& k + 1 < p.len()
    &&& p[i] == '('
    &&& is_plus_star(p[j])
    &&& p[k] == ')'
    &&& is_plus_star(p[k + 1])
    &&& (forall|m: int| i < m < k ==> p[m] != ')')
}

/// The pattern holds a quantified group with an internal quantifier.
pub open spec fn marks_nested_quant(p: Seq<char>) -> bool {
    exists|i: int, j: int, k: int| nested_quant_at(p, i, j, k)
}

/// Scans for a quantified group with an internal quantifier.
fn scan_nested_quant(p: &Vec<char>) -> (r: bool)
    ensures
        r == marks_nested_quant(p@),
{
    let n = p.len();
    let mut i: usize = 0;
    while i < n
        invariant
            i <= n,
            n == p@.len(),
            forall|i0: int, j0: int, k0: int| i0 < i ==> !nested_quant_at(p@, i0, j0, k0),
        decreases n - i,
    {
        if p[i] == '(' {
            // find the first ')' after i
            let mut k: usize = i + 1;
            let mut quant = false;
            while k < n && p[k] != ')'
                invariant
                    i + 1 <= k <= n,
                    n == p@.len(),
                    forall|m: int| i < m < k ==> p@[m] != ')',
                    quant == exists|m: int| i < m < k && is_plus_star(#[trigger] p@[m]),
                decreases n - k,
            {
                let c = p[k];
                if c == '+' || c == '*' {
                    quant = true;
                }
                k += 1;
            }
            if k < n && quant && k + 1 < n {
                let c2 = p[k + 1];
                if c2 == '+' || c2 == '*' {
                    proof {
                        let j = choose|m: int| i < m < k && is_plus_star(#[trigger] p@[m]);
                        assert(nested_quant_at(p@, i as int, j, k as int));
                    }
                    return true;
                }
            }
            proof {
                assert forall|j0: int, k0: int| !nested_quant_at(p@, i as int, j0, k0) by {
                    if nested_quant_at(p@, i as int, j0, k0) {
                        // k0 must be the first ')' after i
                        assert(p@[k0] == ')');
                        if k0 < k {
                        } else if k0 > k {
                            assert(k < n);
                            assert(i < k < k0);
                            assert(p@[k as int] != ')');
                        } else {
                            assert(is_plus_star(p@[j0]));
                            assert(i < j0 < k);
                        }
                    }
                }
            }
        } else {
            proof {
                assert forall|j0: int, k0: int| !nested_quant_at(p@, i as int, j0, k0) by {}
            }
        }
        i += 1;
    }
    proof {
        assert forall|i0: int, j0: int, k0: int| !nested_quant_at(p@, i0, j0, k0) by {
            if nested_quant_at(p@, i0, j0, k0) {
                assert(i0 < i);
            }
        }
    }
    false
}

/// The known-vulnerable sub-pattern of each family, by rank.
pub open spec fn vuln_marker(rank: int) -> Seq<char> {
    if rank == 0 {
        "(\\w+)+"@
    } else if rank == 1 {
        "(a+)+"@
    } else if rank == 2 {
        "(a*)*"@
    } else if rank == 3 {
        "(a+)*"@
    } else if rank == 4 {
        "(a|aa)+"@
    } else if rank == 5 {
        "(a|a?)+"@
    } else if rank == 6 {
        "(.+)+"@
    } else if rank == 7 {
        "(.*)+"@
    } else if rank == 8 {
        "(.+)*"@
    } else {
        "(.*)*"@
    }
}

/// The description of each family, by rank.
pub open spec fn vuln_desc(rank: int) -> Seq<char> {
    if rank == 0 {
        "Nested quantifiers on word characters"@
    } else if rank == 1 {
        "Nested + quantifiers"@
    } else if rank == 2 {
        "Nested * quantifiers"@
    } else if rank == 3 {
        "Mixed nested quantifiers"@
    } else if rank == 4 {
        "Overlapping alternation with quantifier"@
    } else if rank == 5 {
        "Overlapping optional with quantifier"@
    } else if rank == 6 {
        "Nested + on any character"@
    } else if rank == 7 {
        "Nested quantifiers on .*"@
    } else if rank == 8 {
        "Mixed quantifiers on .+"@
    } else {
        "Nested * on .*"@
    }
}

/// The pattern holds the vulnerable sub-pattern of the given rank.
pub open spec fn has_vuln(p: Seq<char>, rank: int) -> bool {
    has_sub(p, vuln_marker(rank))
}

/// The pattern is flagged by the static detector: a known family, or the
/// general nested-quantifier shape.
pub open spec fn spec_vulnerable(p: Seq<char>) -> bool {
    (exists|rank: int| 0 <= rank < 10 && has_vuln(p, rank)) || marks_nested_quant(p)
}

/// Detects a potential catastrophic-backtracking vulnerability.
///
/// Returns the first known family's description, the generic
/// nested-quantifier description, or `None`.
pub fn detect_redos_vulnerability(pattern: &str) -> (r: Option<String>)
    ensures
        r is Some <==> spec_vulnerable(pattern@),
        r matches Some(d) ==> ((exists|rank: int|
            {
                &&& 0 <= rank < 10
                &&& #[trigger] has_vuln(pattern@, rank)
                &&& d@ == vuln_desc(rank)
                &&& forall|r2: int| 0 <= r2 < rank ==> !has_vuln(pattern@, r2)
            }) || ((forall|rank: int| 0 <= rank < 10 ==> !has_vuln(pattern@, rank))
            && marks_nested_quant(pattern@) && d@ == "Nested quantifiers detected"@)),
{
    let p = chars_of(pattern);
    if contains_str(&p, "(\\w+)+") {
        proof {
            assert(has_vuln(pattern@, 0));
        }
        return Some(String::from_str("Nested quantifiers on word characters"));
    }
    if contains_str(&p, "(a+)+") {
        proof {
            assert(has_vuln(pattern@, 1));
        }
        return Some(String::from_str("Nested + quantifiers"));
    }
    if contains_str(&p, "(a*)*") {
        proof {
            assert(has_vuln(pattern@, 2));
        }
        return Some(String::from_str("Nested * quantifiers"));
    }
    if contains_str(&p, "(a+)*") {
        proof {
            assert(has_vuln(pattern@, 3));
        }
        return Some(String::from_str("Mixed nested quantifiers"));
    }
    if contains_str(&p, "(a|aa)+") {
        proof {
            assert(has_vuln(pattern@, 4));
        }
        return Some(String::from_str("Overlapping alternation with quantifier"));
    }
    if contains_str(&p, "(a|a?)+") {
        proof {
            assert(has_vuln(pattern@, 5));
        }
        return Some(String::from_str("Overlapping optional with quantifier"));
    }
    if contains_str(&p, "(.+)+") {
        proof {
            assert(has_vuln(pattern@, 6));
        }
        return Some(String::from_str("Nested + on any character"));
    }
    if contains_str(&p, "(.*)+") {
        proof {
            assert(has_vuln(pattern@, 7));
        }
        return Some(String::from_str("Nested quantifiers on .*"));
    }
    if contains_str(&p, "(.+)*") {
        proof {
            assert(has_vuln(pattern@, 8));
        }
        return Some(String::from_str("Mixed quantifiers on .+"));
    }
    if contains_str(&p, "(.*)*") {
        proof {
            assert(has_vuln(pattern@, 9));
        }
        return Some(String::from_str("Nested * on .*"));
    }
    proof {
        assert forall|rank: int| 0 <= rank < 10 implies !has_vuln(pattern@, rank) by {}
    }
    if scan_nested_quant(&p) {
        return Some(String::from_str("Nested quantifiers detected"));
    }
    None
}

/// Quick static check, without benchmarking.
pub fn quick_vulnerability_check(pattern: &str) -> (r: bool)
    ensures
        r == spec_vulnerable(pattern@),
{
    match detect_redos_vulnerability(pattern) {
        Some(_) => true,
        None => false,
    }
}

/// The remediation offered for a pattern, keyed off the vulnerable
/// family it holds.
pub open spec fn spec_suggestion(p: Seq<char>) -> Option<Seq<char>> {
    if has_sub(p, "(a+)+"@) {
        Some("Use atomic group or possessive quantifier: (?>a+)+"@)
    } else if has_sub(p, "(.+)+"@) || has_sub(p, "(.*)+"@) {
        Some("Use atomic group: (?>.+)+ or limit repetition"@)
    } else if spec_vulnerable(p) {
        Some(
            "Consider using atomic groups (?>...) or possessive quantifiers to prevent backtracking"@,
        )
    } else {
        None
    }
}

/// Suggests a remediation for a vulnerable pattern, keyed off the family.
pub fn suggest_fix(pattern: &str) -> (r: Option<String>)
    ensures
        r is Some <==> spec_suggestion(pattern@) is Some,
        r matches Some(s) ==> spec_suggestion(pattern@) == Some(s@),
{
    let p = chars_of(pattern);
    if contains_str(&p, "(a+)+") {
        return Some(String::from_str("Use atomic group or possessive quantifier: (?>a+)+"));
    }
    if contains_str(&p, "(.+)+") || contains_str(&p, "(.*)+") {
        return Some(String::from_str("Use atomic group: (?>.+)+ or limit repetition"));
    }
    if quick_vulnerability_check(pattern) {
        return Some(
            String::from_str(
                "Consider using atomic groups (?>...) or possessive quantifiers to prevent backtracking",
            ),
        );
    }
    None
}

/// The adversarial input of each known family, by rank.
pub open spec fn evil_marker(rank: int) -> Seq<char> {
    if rank == 0 {
        "(a+)+"@
    } else if rank == 1 {
        "(a|aa)+"@
    } else if rank == 2 {
        "(a|a?)+"@
    } else if rank == 3 {
        "(.*)*"@
    } else {
        "(.+)+@"@
    }
}

/// The canonical adversarial input of each known family, by rank.
pub open spec fn evil_input(rank: int) -> Seq<char> {
    if rank == 3 {
        "aaaaaaaaaaaaaaaaaaaaX"@
    } else if rank == 4 {
        "aaaaaaaaaaaaaaaaaaaa!"@
    } else {
        "aaaaaaaaaaaaaaaaaaaab"@
    }
}

/// The fallback adversarial input: thirty `a`s and a terminating
/// mismatch.
pub open spec fn default_redos_input() -> Seq<char> {
    Seq::new(30nat, |i: int| 'a').push('X')
}

/// Generates a stress input for a pattern: the canonical input of the
/// first known-vulnerable family the pattern holds, a repeated-`a` string
/// for nested `a` quantifiers, or the fallback.
pub fn generate_redos_input(pattern: &str) -> (r: String)
    ensures
        (exists|rank: int|
            {
                &&& 0 <= rank < 5
                &&& has_sub(pattern@, #[trigger] evil_marker(rank))
                &&& r@ == evil_input(rank)
                &&& forall|r2: int| 0 <= r2 < rank ==> !has_sub(pattern@, evil_marker(r2))
            }) || ((forall|rank: int| 0 <= rank < 5 ==> !has_sub(pattern@, evil_marker(rank)))
            && ((has_sub(pattern@, "a+)+"@) || has_sub(pattern@, "a*)*"@)) ==> r@
            == "aaaaaaaaaaaaaaaaaaaab"@) && (!(has_sub(pattern@, "a+)+"@) || has_sub(
            pattern@,
            "a*)*"@,
        )) ==> r@ == default_redos_input())),
{
    let p = chars_of(pattern);
    if contains_str(&p, "(a+)+") {
        proof {
            assert(has_sub(pattern@, evil_marker(0)));
        }
        return String::from_str("aaaaaaaaaaaaaaaaaaaab");
    }
    if contains_str(&p, "(a|aa)+") {
        proof {
            assert(has_sub(pattern@, evil_marker(1)));
        }
        return String::from_str("aaaaaaaaaaaaaaaaaaaab");
    }
    if contains_str(&p, "(a|a?)+") {
        proof {
            assert(has_sub(pattern@, evil_marker(2)));
        }
        return String::from_str("aaaaaaaaaaaaaaaaaaaab");
    }
    if contains_str(&p, "(.*)*") {
        proof {
            assert(has_sub(pattern@, evil_marker(3)));
        }
        return String::from_str("aaaaaaaaaaaaaaaaaaaaX");
    }
    if contains_str(&p, "(.+)+@") {
        proof {
            assert(has_sub(pattern@, evil_marker(4)));
        }
        return String::from_str("aaaaaaaaaaaaaaaaaaaa!");
    }
    if contains_str(&p, "a+)+") || contains_str(&p, "a*)*") {
        return String::from_str("aaaaaaaaaaaaaaaaaaaab");
    }
    let mut v: Vec<char> = Vec::with_capacity(31);
    let mut i: usize = 0;
    while i < 30
        invariant
            i <= 30,
            v@.len() == i,
            forall|m: int| 0 <= m < i ==> v@[m] == 'a',
        decreases 30 - i,
    {
        v.push('a');
        i += 1;
    }
    v.push('X');
    proof {
        assert(v@ =~= default_redos_input());
    }
    string_from_chars(&v)
}

} // verus!
