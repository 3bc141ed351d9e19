//! Engine selection and compilation.
//!
//! Chooses between the linear-time automaton engine and the backtracking
//! engine from the pattern text alone: backtracking-only markers in the
//! pattern force the backtracking engine, everything else compiles on the
//! automaton engine, with a single fallback to the backtracking engine when
//! the automaton engine rejects the pattern.

use vstd::prelude::*;

verus! {

use vstd::string::StringExecFns;
use crate::rx::{
    CompiledFancy,
    CompiledRe,
    fancy_find_from_pos,
    fancy_is_match,
    fancy_match,
    fancy_valid,
    re_find_at,
    re_is_match,
    rx_find_from,
    rx_match,
    rx_valid,
    try_fancy_regex,
    try_regex_crate,
};
use crate::scan::{chars_of, contains_str, has_sub, join_strings, spec_join, views_of};

/// The two matching engines.
#[derive(Debug, Clone, Copy, PartialEq, Eq, Structural)]
pub enum EngineType {
    /// The automaton engine: linear time guaranteed.
    Regex,
    /// The backtracking engine: lookaround, backreferences and atomic
    /// groups, without a linear-time guarantee.
    FancyRegex,
}

impl EngineType {
    /// The engine's conventional name.
    pub fn name(&self) -> (r: String)
        ensures
            *self is Regex ==> r@ == "regex"@,
            *self is FancyRegex ==> r@ == "fancy-regex"@,
    {
        match self {
            EngineType::Regex => String::from_str("regex"),
            EngineType::FancyRegex => String::from_str("fancy-regex"),
        }
    }
}

/// Errors of engine selection and compilation.
#[derive(Debug)]
pub enum EngineError {
    /// Both engines rejected the pattern.
    InvalidPattern(String),
    /// The pattern needs the backtracking engine; carries the reason.
    RequiresFancy(String),
    /// The automaton engine rejected the pattern.
    RegexError(String),
    /// The backtracking engine rejected the pattern.
    FancyRegexError(String),
}

impl EngineError {
    /// The error's message text.
    pub fn message(&self) -> (r: String)
        ensures
            *self matches EngineError::InvalidPattern(m) ==> r@ == "Invalid regex pattern: "@
                + m@,
            *self matches EngineError::RequiresFancy(m) ==> r@
                == "Pattern requires fancy-regex engine: "@ + m@,
            *self matches EngineError::RegexError(m) ==> r@ == "Regex error: "@ + m@,
            *self matches EngineError::FancyRegexError(m) ==> r@ == "Fancy-regex error: "@ + m@,
    {
        let mut r = String::new();
        match self {
            EngineError::InvalidPattern(m) => {
                r.append("Invalid regex pattern: ");
                r.append(m.as_str());
            },
            EngineError::RequiresFancy(m) => {
                r.append("Pattern requires fancy-regex engine: ");
                r.append(m.as_str());
            },
            EngineError::RegexError(m) => {
                r.append("Regex error: ");
                r.append(m.as_str());
            },
            EngineError::FancyRegexError(m) => {
                r.append("Fancy-regex error: ");
                r.append(m.as_str());
            },
        }
        r
    }
}

/// The pattern holds a lookahead marker `(?=` or `(?!`.
pub open spec fn marks_lookahead(p: Seq<char>) -> bool {
    has_sub(p, "(?="@) || has_sub(p, "(?!"@)
}

/// The pattern holds a lookbehind marker `(?<=` or `(?<!`.
pub open spec fn marks_lookbehind(p: Seq<char>) -> bool {
    has_sub(p, "(?<="@) || has_sub(p, "(?<!"@)
}

/// The pattern holds an atomic-group marker `(?>`.
pub open spec fn marks_atomic_group(p: Seq<char>) -> bool {
    has_sub(p, "(?>"@)
}

/// The pattern holds a backslash followed by a digit 1-9: a backreference
/// marker.
pub open spec fn marks_backreference(p: Seq<char>) -> bool {
    exists|i: int|
        0 <= i && i + 1 < p.len() && #[trigger] p[i] == '\\' && 49 <= p[i + 1] as u32 <= 57
}

/// Features detected in a pattern that force the backtracking engine.
#[derive(Debug)]
pub struct FancyFeatures {
    pub lookahead: bool,
    pub lookbehind: bool,
    pub backreference: bool,
    pub atomic_group: bool,
}

impl FancyFeatures {
    /// The features of pattern `p`, as the marker scan reports them.
    pub open spec fn of(p: Seq<char>) -> FancyFeatures {
        FancyFeatures {
            lookahead: marks_lookahead(p),
            lookbehind: marks_lookbehind(p),
            backreference: marks_backreference(p),
            atomic_group: marks_atomic_group(p),
        }
    }

    /// Whether any backtracking-only feature is present.
    pub open spec fn spec_needs_fancy(self) -> bool {
        self.lookahead || self.lookbehind || self.backreference || self.atomic_group
    }

    /// Returns true when any backtracking-only feature is detected.
    pub fn needs_fancy(&self) -> (r: bool)
        ensures
            r == self.spec_needs_fancy(),
    {
        self.lookahead || self.lookbehind || self.backreference || self.atomic_group
    }

    /// The names of the present features, in fixed order.
    pub open spec fn reason_parts(self) -> Seq<Seq<char>> {
        let s0 = Seq::<Seq<char>>::empty();
        let s1 = if self.lookahead {
            s0.push("lookahead assertion"@)
        } else {
            s0
        };
        let s2 = if self.lookbehind {
            s1.push("lookbehind assertion"@)
        } else {
            s1
        };
        let s3 = if self.backreference {
            s2.push("backreference"@)
        } else {
            s2
        };
        if self.atomic_group {
            s3.push("atomic group"@)
        } else {
            s3
        }
    }

    /// Describes why the backtracking engine is needed, or `None` when it
    /// is not.
    pub fn reason(&self) -> (r: Option<String>)
        ensures
            r is Some <==> self.spec_needs_fancy(),
            r matches Some(s) ==> s@ == "Pattern uses "@ + spec_join(self.reason_parts(), ", "@),
    {
        let mut reasons: Vec<String> = Vec::new();
        if self.lookahead {
            reasons.push(String::from_str("lookahead assertion"));
        }
        if self.lookbehind {
            reasons.push(String::from_str("lookbehind assertion"));
        }
        if self.backreference {
            reasons.push(String::from_str("backreference"));
        }
        if self.atomic_group {
            reasons.push(String::from_str("atomic group"));
        }
        proof {
            assert(crate::scan::views_of(reasons@) =~= self.reason_parts());
        }
        if reasons.is_empty() {
            None
        } else {
            let mut r = String::from_str("Pattern uses ");
            let joined = join_strings(&reasons, ", ");
            r.append(joined.as_str());
            Some(r)
        }
    }
}

/// Detects which backtracking-only features a pattern's text uses.
///
/// The structural parser cannot represent these constructs, so detection
/// scans the literal pattern text for their markers.
pub fn detect_fancy_features(pattern: &str) -> (r: FancyFeatures)
    ensures
        r == FancyFeatures::of(pattern@),
{
    let p = chars_of(pattern);
    let lookahead = contains_str(&p, "(?=") || contains_str(&p, "(?!");
    let lookbehind = contains_str(&p, "(?<=") || contains_str(&p, "(?<!");
    let atomic_group = contains_str(&p, "(?>");
    let backreference = scan_backreference(&p);
    FancyFeatures { lookahead, lookbehind, backreference, atomic_group }
}

/// Whether `p` holds a backslash followed by a digit 1-9.
fn scan_backreference(p: &Vec<char>) -> (r: bool)
    ensures
        r == marks_backreference(p@),
{
    let n = p.len();
    if n < 2 {
        return false;
    }
    let mut i: usize = 0;
    while i < n - 1
        invariant
            n == p@.len(),
            2 <= n,
            i <= n - 1,
            forall|k: int|
                0 <= k < i ==> !(#[trigger] p@[k] == '\\' && 49 <= p@[k + 1] as u32 <= 57),
        decreases n - i,
    {
        if p[i] == '\\' {
            let c = p[i + 1];
            let u = c as u32;
            if 49 <= u && u <= 57 {
                return true;
            }
        }
        i += 1;
    }
    false
}

/// Selects the engine for a pattern from its detected features.
pub fn select_engine(pattern: &str) -> (r: (EngineType, FancyFeatures))
    ensures
        r.1 == FancyFeatures::of(pattern@),
        r.0 == (if FancyFeatures::of(pattern@).spec_needs_fancy() {
            EngineType::FancyRegex
        } else {
            EngineType::Regex
        }),
{
    let features = detect_fancy_features(pattern);
    let engine = if features.needs_fancy() {
        EngineType::FancyRegex
    } else {
        EngineType::Regex
    };
    (engine, features)
}

/// A compiled pattern, on whichever engine compiled it.
pub enum CompiledRegex {
    Regex(CompiledRe),
    FancyRegex(CompiledFancy),
}

impl CompiledRegex {
    /// The pattern this value was compiled from.
    pub open spec fn pattern(&self) -> Seq<char> {
        match self {
            CompiledRegex::Regex(c) => c.pattern(),
            CompiledRegex::FancyRegex(c) => c.pattern(),
        }
    }

    /// The engine that compiled this value.
    pub open spec fn spec_engine_type(&self) -> EngineType {
        match self {
            CompiledRegex::Regex(_) => EngineType::Regex,
            CompiledRegex::FancyRegex(_) => EngineType::FancyRegex,
        }
    }

    /// Compiles a pattern with automatic engine selection.
    ///
    /// Patterns without backtracking-only markers compile on the automaton
    /// engine, with a single fallback to the backtracking engine when the
    /// automaton engine rejects them; patterns with such markers compile
    /// directly on the backtracking engine.  Rejection by both engines is
    /// the `InvalidPattern` error; rejection by the backtracking engine
    /// alone is its native error.
    pub fn new(pattern: &str) -> (r: Result<(CompiledRegex, EngineType), EngineError>)
        ensures
            r is Ok <==> (if FancyFeatures::of(pattern@).spec_needs_fancy() {
                fancy_valid(pattern@)
            } else {
                rx_valid(pattern@) || fancy_valid(pattern@)
            }),
            r matches Ok(c) ==> {
                &&& c.0.pattern() == pattern@
                &&& c.1 == c.0.spec_engine_type()
                &&& !FancyFeatures::of(pattern@).spec_needs_fancy() && rx_valid(pattern@)
                    <==> c.0 is Regex
            },
            r matches Err(e) ==> (e is InvalidPattern <==> (!rx_valid(pattern@) && !fancy_valid(
                pattern@,
            ))),
            r matches Err(e) ==> (e is InvalidPattern || e is FancyRegexError),
    {
        let (engine, _features) = select_engine(pattern);

        match engine {
            EngineType::Regex => {
                match try_regex_crate(pattern) {
                    Ok(re) => Ok((CompiledRegex::Regex(re), EngineType::Regex)),
                    Err(_) => {
                        match try_fancy_regex(pattern) {
                            Ok(re) => Ok((CompiledRegex::FancyRegex(re), EngineType::FancyRegex)),
                            Err(e) => Err(EngineError::InvalidPattern(e.to_string())),
                        }
                    },
                }
            },
            EngineType::FancyRegex => {
                match try_fancy_regex(pattern) {
                    Ok(re) => Ok((CompiledRegex::FancyRegex(re), EngineType::FancyRegex)),
                    Err(e) => {
                        match try_regex_crate(pattern) {
                            Ok(_) => Err(EngineError::FancyRegexError(e.to_string())),
                            Err(_) => Err(EngineError::InvalidPattern(e.to_string())),
                        }
                    },
                }
            },
        }
    }

    /// Compiles a pattern with a caller-chosen engine, bypassing selection.
    pub fn with_engine(pattern: &str, engine: EngineType) -> (r: Result<CompiledRegex, EngineError>)
        ensures
            engine is Regex ==> (r is Ok <==> rx_valid(pattern@)),
            engine is FancyRegex ==> (r is Ok <==> fancy_valid(pattern@)),
            r matches Ok(c) ==> c.pattern() == pattern@ && c.spec_engine_type() == engine,
    {
        match engine {
            EngineType::Regex => {
                match try_regex_crate(pattern) {
                    Ok(re) => Ok(CompiledRegex::Regex(re)),
                    Err(e) => Err(EngineError::RegexError(e.to_string())),
                }
            },
            EngineType::FancyRegex => {
                match try_fancy_regex(pattern) {
                    Ok(re) => Ok(CompiledRegex::FancyRegex(re)),
                    Err(e) => Err(EngineError::FancyRegexError(e.to_string())),
                }
            },
        }
    }

    /// Whether the pattern matches anywhere in `text`.
    pub fn is_match(&self, text: &str) -> (r: Result<bool, EngineError>)
        ensures
            *self is Regex ==> (r matches Ok(b) && b == rx_match(self.pattern(), text@)),
            *self is FancyRegex ==> (r matches Ok(b) ==> b == fancy_match(self.pattern(), text@)),
    {
        match self {
            CompiledRegex::Regex(re) => Ok(re_is_match(re, text)),
            CompiledRegex::FancyRegex(re) => {
                match fancy_is_match(re, text) {
                    Ok(b) => Ok(b),
                    Err(e) => Err(EngineError::FancyRegexError(e.to_string())),
                }
            },
        }
    }

    /// The byte span of the first match in `text`, if any.
    pub fn find(&self, text: &str) -> (r: Result<Option<(usize, usize)>, EngineError>)
        ensures
            *self is Regex ==> r is Ok,
            *self is Regex ==> (r matches Ok(m) ==> (m is Some <==> rx_find_from(
                self.pattern(),
                text@,
                0,
            ) is Some)),
            r matches Ok(Some(m)) ==> m.0 <= m.1,
    {
        match self {
            CompiledRegex::Regex(re) => Ok(re_find_at(re, text, 0)),
            CompiledRegex::FancyRegex(re) => {
                match fancy_find_from_pos(re, text, 0) {
                    Ok(m) => Ok(m),
                    Err(e) => Err(EngineError::FancyRegexError(e.to_string())),
                }
            },
        }
    }

    /// The engine that compiled this value.
    pub fn engine_type(&self) -> (r: EngineType)
        ensures
            r == self.spec_engine_type(),
    {
        match self {
            CompiledRegex::Regex(_) => EngineType::Regex,
            CompiledRegex::FancyRegex(_) => EngineType::FancyRegex,
        }
    }
}


/// A capturing group occurs in the tree: an indexed or named group, or
/// one inside any group, repetition, concatenation or alternation.
pub open spec fn spec_has_capturing(t: crate::rsyntax::ReAst) -> bool
    decreases t, 1int,
{
    match t {
        crate::rsyntax::ReAst::Group { kind, child, text } => match kind {
            crate::rsyntax::ReGroupKind::CaptureIndex(_) => true,
            crate::rsyntax::ReGroupKind::CaptureName(_) => true,
            crate::rsyntax::ReGroupKind::NonCapturing => spec_has_capturing(*child),
        },
        crate::rsyntax::ReAst::Concat(cs) => spec_list_has_capturing(cs@),
        crate::rsyntax::ReAst::Alternation { children, branch_texts, text } =>
            spec_list_has_capturing(children@),
        crate::rsyntax::ReAst::Repetition { op, greedy, child, child_text, text } =>
            spec_has_capturing(*child),
        _ => false,
    }
}

/// A capturing group occurs in one of the listed trees.
pub open spec fn spec_list_has_capturing(s: Seq<crate::rsyntax::ReAst>) -> bool
    decreases s,
{
    if s.len() == 0 {
        false
    } else {
        spec_list_has_capturing(s.drop_last()) || spec_has_capturing(s.last())
    }
}

fn walk_capturing(t: &crate::rsyntax::ReAst) -> (r: bool)
    ensures
        r == spec_has_capturing(*t),
    decreases *t, 1int,
{
    match t {
        crate::rsyntax::ReAst::Group { kind, child, text } => match kind {
            crate::rsyntax::ReGroupKind::CaptureIndex(_) => true,
            crate::rsyntax::ReGroupKind::CaptureName(_) => true,
            crate::rsyntax::ReGroupKind::NonCapturing => walk_capturing(&**child),
        },
        crate::rsyntax::ReAst::Concat(cs) => {
            let mut found = false;
            let mut k: usize = 0;
            while k < cs.len()
                invariant
                    k <= cs@.len(),
                    (*t matches crate::rsyntax::ReAst::Concat(c0) && c0 == *cs),
                    found == spec_list_has_capturing(cs@.subrange(0, k as int)),
                decreases cs@.len() - k,
            {
                proof {
                    assert(decreases_to!(*t => *cs));
                    assert(decreases_to!(*cs => cs[k as int]));
                }
                let ghost pre = cs@.subrange(0, k as int);
                if walk_capturing(&cs[k]) {
                    found = true;
                }
                proof {
                    let next = cs@.subrange(0, k + 1);
                    assert(next.drop_last() =~= pre);
                    assert(next.last() == cs@[k as int]);
                }
                k += 1;
            }
            proof {
                assert(cs@.subrange(0, cs@.len() as int) =~= cs@);
            }
            found
        },
        crate::rsyntax::ReAst::Alternation { children, branch_texts, text } => {
            let mut found = false;
            let mut k: usize = 0;
            while k < children.len()
                invariant
                    k <= children@.len(),
                    (*t matches crate::rsyntax::ReAst::Alternation { children: c0, .. } && c0
                        == *children),
                    found == spec_list_has_capturing(children@.subrange(0, k as int)),
                decreases children@.len() - k,
            {
                proof {
                    assert(decreases_to!(*t => *children));
                    assert(decreases_to!(*children => children[k as int]));
                }
                let ghost pre = children@.subrange(0, k as int);
                if walk_capturing(&children[k]) {
                    found = true;
                }
                proof {
                    let next = children@.subrange(0, k + 1);
                    assert(next.drop_last() =~= pre);
                    assert(next.last() == children@[k as int]);
                }
                k += 1;
            }
            proof {
                assert(children@.subrange(0, children@.len() as int) =~= children@);
            }
            found
        },
        crate::rsyntax::ReAst::Repetition { op, greedy, child, child_text, text } =>
            walk_capturing(&**child),
        _ => false,
    }
}

/// Whether a pattern holds any capturing group, judged from the
/// structural parse; a pattern the parser rejects is conservatively
/// assumed to capture, and a parsed pattern answers `spec_has_capturing`
/// of its tree.
pub fn has_capturing_groups(pattern: &str) -> (r: bool)
    ensures
        !crate::rsyntax::rs_parses(pattern@) ==> r == true,
{
    match crate::rsyntax::parse_pattern(pattern) {
        Ok(t) => walk_capturing(&t),
        Err(_) => true,
    }
}

} // verus!
