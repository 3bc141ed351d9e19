//! Cross-dialect portability checking.
//!
//! A pattern's canonical feature set is extracted once — from the
//! structural parser's tree when the pattern parses, and by scanning the
//! literal pattern text for syntactic markers when it does not — and each
//! of the nine dialect verdicts is a pure function of that feature set.

use vstd::prelude::*;

verus! {

use vstd::string::StringExecFns;
use crate::rsyntax::{AssertKind, ClassItem, ClassTree, ReAst, ReGroupKind, parse_pattern,
    rs_parses};
use crate::scan::{chars_of, contains_str, has_sub, starts_with, ends_with, starts_with_str,
    ends_with_str, views_of};
use crate::engine::{marks_lookahead, marks_lookbehind, marks_atomic_group, marks_backreference};
use crate::types::Portability;

/// The canonical boolean capability record of a pattern.
#[derive(Debug, PartialEq, Eq, Structural)]
pub struct PatternFeatures {
    // Anchors
    pub start_anchor: bool,
    pub end_anchor: bool,
    pub word_boundary: bool,
    pub non_word_boundary: bool,
    // Character classes
    pub unicode_classes: bool,
    pub negated_unicode: bool,
    pub posix_classes: bool,
    // Assertions
    pub lookahead: bool,
    pub lookbehind: bool,
    pub variable_lookbehind: bool,
    // Groups
    pub named_capture: bool,
    pub non_capturing: bool,
    pub atomic_group: bool,
    pub backreference: bool,
    // Quantifiers
    pub possessive: bool,
    // Flags
    pub inline_flags: bool,
    // Special
    pub conditional: bool,
    pub recursion: bool,
    pub subroutine: bool,
}

/// The feature record with every flag false.
pub open spec fn no_features() -> PatternFeatures {
    PatternFeatures {
        start_anchor: false,
        end_anchor: false,
        word_boundary: false,
        non_word_boundary: false,
        unicode_classes: false,
        negated_unicode: false,
        posix_classes: false,
        lookahead: false,
        lookbehind: false,
        variable_lookbehind: false,
        named_capture: false,
        non_capturing: false,
        atomic_group: false,
        backreference: false,
        possessive: false,
        inline_flags: false,
        conditional: false,
        recursion: false,
        subroutine: false,
    }
}

/// The field-wise disjunction of two feature records.
pub open spec fn feat_or(a: PatternFeatures, b: PatternFeatures) -> PatternFeatures {
    PatternFeatures {
        start_anchor: a.start_anchor || b.start_anchor,
        end_anchor: a.end_anchor || b.end_anchor,
        word_boundary: a.word_boundary || b.word_boundary,
        non_word_boundary: a.non_word_boundary || b.non_word_boundary,
        unicode_classes: a.unicode_classes || b.unicode_classes,
        negated_unicode: a.negated_unicode || b.negated_unicode,
        posix_classes: a.posix_classes || b.posix_classes,
        lookahead: a.lookahead || b.lookahead,
        lookbehind: a.lookbehind || b.lookbehind,
        variable_lookbehind: a.variable_lookbehind || b.variable_lookbehind,
        named_capture: a.named_capture || b.named_capture,
        non_capturing: a.non_capturing || b.non_capturing,
        atomic_group: a.atomic_group || b.atomic_group,
        backreference: a.backreference || b.backreference,
        possessive: a.possessive || b.possessive,
        inline_flags: a.inline_flags || b.inline_flags,
        conditional: a.conditional || b.conditional,
        recursion: a.recursion || b.recursion,
        subroutine: a.subroutine || b.subroutine,
    }
}

fn empty_features() -> (r: PatternFeatures)
    ensures
        r == no_features(),
{
    PatternFeatures {
        start_anchor: false,
        end_anchor: false,
        word_boundary: false,
        non_word_boundary: false,
        unicode_classes: false,
        negated_unicode: false,
        posix_classes: false,
        lookahead: false,
        lookbehind: false,
        variable_lookbehind: false,
        named_capture: false,
        non_capturing: false,
        atomic_group: false,
        backreference: false,
        possessive: false,
        inline_flags: false,
        conditional: false,
        recursion: false,
        subroutine: false,
    }
}

fn or_features(a: PatternFeatures, b: PatternFeatures) -> (r: PatternFeatures)
    ensures
        r == feat_or(a, b),
{
    PatternFeatures {
        start_anchor: a.start_anchor || b.start_anchor,
        end_anchor: a.end_anchor || b.end_anchor,
        word_boundary: a.word_boundary || b.word_boundary,
        non_word_boundary: a.non_word_boundary || b.non_word_boundary,
        unicode_classes: a.unicode_classes || b.unicode_classes,
        negated_unicode: a.negated_unicode || b.negated_unicode,
        posix_classes: a.posix_classes || b.posix_classes,
        lookahead: a.lookahead || b.lookahead,
        lookbehind: a.lookbehind || b.lookbehind,
        variable_lookbehind: a.variable_lookbehind || b.variable_lookbehind,
        named_capture: a.named_capture || b.named_capture,
        non_capturing: a.non_capturing || b.non_capturing,
        atomic_group: a.atomic_group || b.atomic_group,
        backreference: a.backreference || b.backreference,
        possessive: a.possessive || b.possessive,
        inline_flags: a.inline_flags || b.inline_flags,
        conditional: a.conditional || b.conditional,
        recursion: a.recursion || b.recursion,
        subroutine: a.subroutine || b.subroutine,
    }
}

// === The tree path ===

/// The features one assertion node contributes.
pub open spec fn assertion_features(k: AssertKind) -> PatternFeatures {
    match k {
        AssertKind::StartLine => PatternFeatures { start_anchor: true, ..no_features() },
        AssertKind::EndLine => PatternFeatures { end_anchor: true, ..no_features() },
        AssertKind::WordBoundary => PatternFeatures { word_boundary: true, ..no_features() },
        AssertKind::NotWordBoundary => PatternFeatures {
            non_word_boundary: true,
            ..no_features()
        },
        _ => no_features(),
    }
}

/// The features one bracketed-class item contributes.
pub open spec fn class_item_features(i: ClassItem) -> PatternFeatures
    decreases i, 0int,
{
    match i {
        ClassItem::Ascii => PatternFeatures { posix_classes: true, ..no_features() },
        ClassItem::Unicode { negated } => PatternFeatures {
            unicode_classes: true,
            negated_unicode: negated,
            ..no_features()
        },
        ClassItem::Bracketed(b) => class_tree_features(*b),
        ClassItem::Union(items) => class_item_list_features(items@),
        ClassItem::Other => no_features(),
    }
}

/// The features of a list of bracketed-class items, joined left to right.
pub open spec fn class_item_list_features(s: Seq<ClassItem>) -> PatternFeatures
    decreases s,
{
    if s.len() == 0 {
        no_features()
    } else {
        feat_or(class_item_list_features(s.drop_last()), class_item_features(s.last()))
    }
}

/// The features a bracketed class's set contributes.
pub open spec fn class_tree_features(t: ClassTree) -> PatternFeatures
    decreases t, 1int,
{
    match t {
        ClassTree::Item(i) => class_item_features(i),
        ClassTree::BinaryOp(l, r) => feat_or(class_tree_features(*l), class_tree_features(*r)),
    }
}

/// The features one group node contributes, before its child.
pub open spec fn group_features(k: ReGroupKind) -> PatternFeatures {
    match k {
        ReGroupKind::CaptureName(_) => PatternFeatures { named_capture: true, ..no_features() },
        ReGroupKind::NonCapturing => PatternFeatures { non_capturing: true, ..no_features() },
        ReGroupKind::CaptureIndex(_) => no_features(),
    }
}

/// The features the structural walk extracts from a parsed tree.
///
/// Because the structural parser cannot represent backtracking-only
/// syntax, this walk never sets a backtracking-only flag; see
/// `lemma_tree_features_no_backtracking`.
pub open spec fn tree_features(t: ReAst) -> PatternFeatures
    decreases t, 1int,
{
    match t {
        ReAst::Assertion(k) => assertion_features(k),
        ReAst::ClassUnicode { negated, kind } => PatternFeatures {
            unicode_classes: true,
            negated_unicode: negated,
            ..no_features()
        },
        ReAst::ClassBracketed { negated, set, text } => class_tree_features(set),
        ReAst::Group { kind, child, text } => feat_or(group_features(kind), tree_features(*child)),
        ReAst::Flags(_) => PatternFeatures { inline_flags: true, ..no_features() },
        ReAst::Concat(cs) => tree_list_features(cs@),
        ReAst::Alternation { children, branch_texts, text } => tree_list_features(children@),
        ReAst::Repetition { op, greedy, child, child_text, text } => tree_features(*child),
        _ => no_features(),
    }
}

/// The features of a list of nodes, joined left to right.
pub open spec fn tree_list_features(s: Seq<ReAst>) -> PatternFeatures
    decreases s,
{
    if s.len() == 0 {
        no_features()
    } else {
        feat_or(tree_list_features(s.drop_last()), tree_features(s.last()))
    }
}

/// No backtracking-only flag is set.
pub open spec fn no_backtracking_flags(f: PatternFeatures) -> bool {
    &&& !f.lookahead
    &&& !f.lookbehind
    &&& !f.variable_lookbehind
    &&& !f.backreference
    &&& !f.atomic_group
    &&& !f.possessive
    &&& !f.conditional
    &&& !f.recursion
    &&& !f.subroutine
}

/// The structural walk leaves every backtracking-only flag false: the
/// parser cannot represent those constructs, so a parsed tree cannot
/// contribute them.
pub proof fn lemma_tree_features_no_backtracking(t: ReAst)
    ensures
        no_backtracking_flags(tree_features(t)),
    decreases t, 1int,
{
    match t {
        ReAst::ClassBracketed { negated, set, text } => {
            lemma_class_tree_no_backtracking(set);
        },
        ReAst::Group { kind, child, text } => {
            lemma_tree_features_no_backtracking(*child);
        },
        ReAst::Concat(cs) => {
            lemma_tree_list_no_backtracking(cs@);
        },
        ReAst::Alternation { children, branch_texts, text } => {
            lemma_tree_list_no_backtracking(children@);
        },
        ReAst::Repetition { op, greedy, child, child_text, text } => {
            lemma_tree_features_no_backtracking(*child);
        },
        _ => {},
    }
}

proof fn lemma_tree_list_no_backtracking(s: Seq<ReAst>)
    ensures
        no_backtracking_flags(tree_list_features(s)),
    decreases s,
{
    if s.len() > 0 {
        lemma_tree_list_no_backtracking(s.drop_last());
        lemma_tree_features_no_backtracking(s.last());
    }
}

proof fn lemma_class_tree_no_backtracking(t: ClassTree)
    ensures
        no_backtracking_flags(class_tree_features(t)),
    decreases t, 1int,
{
    match t {
        ClassTree::Item(i) => {
            lemma_class_item_no_backtracking(i);
        },
        ClassTree::BinaryOp(l, r) => {
            lemma_class_tree_no_backtracking(*l);
            lemma_class_tree_no_backtracking(*r);
        },
    }
}

proof fn lemma_class_item_no_backtracking(i: ClassItem)
    ensures
        no_backtracking_flags(class_item_features(i)),
    decreases i, 0int,
{
    match i {
        ClassItem::Bracketed(b) => {
            lemma_class_tree_no_backtracking(*b);
        },
        ClassItem::Union(items) => {
            lemma_class_item_list_no_backtracking(items@);
        },
        _ => {},
    }
}

proof fn lemma_class_item_list_no_backtracking(s: Seq<ClassItem>)
    ensures
        no_backtracking_flags(class_item_list_features(s)),
    decreases s,
{
    if s.len() > 0 {
        lemma_class_item_list_no_backtracking(s.drop_last());
        lemma_class_item_no_backtracking(s.last());
    }
}

fn walk_class_item(i: &ClassItem) -> (r: PatternFeatures)
    ensures
        r == class_item_features(*i),
    decreases *i, 0int,
{
    match i {
        ClassItem::Ascii => PatternFeatures { posix_classes: true, ..empty_features() },
        ClassItem::Unicode { negated } => PatternFeatures {
            unicode_classes: true,
            negated_unicode: *negated,
            ..empty_features()
        },
        ClassItem::Bracketed(b) => walk_class_tree(&**b),
        ClassItem::Union(items) => {
            let mut acc = empty_features();
            let mut k: usize = 0;
            while k < items.len()
                invariant
                    k <= items@.len(),
                    *i is Union,
                    (*i)->Union_0 == *items,
                    acc == class_item_list_features(items@.subrange(0, k as int)),
                decreases items@.len() - k,
            {
                proof {
                    assert(decreases_to!(*i => *items));
                    assert(decreases_to!(*items => items@[k as int]));
                }
                let f = walk_class_item(&items[k]);
                acc = or_features(acc, f);
                proof {
                    let sub = items@.subrange(0, k + 1);
                    assert(sub.drop_last() =~= items@.subrange(0, k as int));
                    assert(sub.last() == items@[k as int]);
                }
                k += 1;
            }
            proof {
                assert(items@.subrange(0, items@.len() as int) =~= items@);
            }
            acc
        },
        ClassItem::Other => empty_features(),
    }
}

fn walk_class_tree(t: &ClassTree) -> (r: PatternFeatures)
    ensures
        r == class_tree_features(*t),
    decreases *t, 1int,
{
    match t {
        ClassTree::Item(i) => walk_class_item(i),
        ClassTree::BinaryOp(l, r) => {
            let a = walk_class_tree(&**l);
            let b = walk_class_tree(&**r);
            or_features(a, b)
        },
    }
}

#[verifier::rlimit(100)]
fn walk_tree(t: &ReAst) -> (r: PatternFeatures)
    ensures
        r == tree_features(*t),
    decreases *t, 1int,
{
    match t {
        ReAst::Assertion(k) => {
            match k {
                AssertKind::StartLine => PatternFeatures {
                    start_anchor: true,
                    ..empty_features()
                },
                AssertKind::EndLine => PatternFeatures { end_anchor: true, ..empty_features() },
                AssertKind::WordBoundary => PatternFeatures {
                    word_boundary: true,
                    ..empty_features()
                },
                AssertKind::NotWordBoundary => PatternFeatures {
                    non_word_boundary: true,
                    ..empty_features()
                },
                _ => empty_features(),
            }
        },
        ReAst::ClassUnicode { negated, kind } => PatternFeatures {
            unicode_classes: true,
            negated_unicode: *negated,
            ..empty_features()
        },
        ReAst::ClassBracketed { negated, set, text } => walk_class_tree(set),
        ReAst::Group { kind, child, text } => {
            let base = match kind {
                ReGroupKind::CaptureName(_) => PatternFeatures {
                    named_capture: true,
                    ..empty_features()
                },
                ReGroupKind::NonCapturing => PatternFeatures {
                    non_capturing: true,
                    ..empty_features()
                },
                ReGroupKind::CaptureIndex(_) => empty_features(),
            };
            let c = walk_tree(&**child);
            or_features(base, c)
        },
        ReAst::Flags(_) => PatternFeatures { inline_flags: true, ..empty_features() },
        ReAst::Concat(cs) => walk_tree_list(t, cs),
        ReAst::Alternation { children, branch_texts, text } => walk_tree_list(t, children),
        ReAst::Repetition { op, greedy, child, child_text, text } => walk_tree(&**child),
        _ => empty_features(),
    }
}

fn walk_tree_list(parent: &ReAst, cs: &Vec<ReAst>) -> (r: PatternFeatures)
    requires
        decreases_to!(*parent => *cs),
    ensures
        r == tree_list_features(cs@),
    decreases *parent, 0int,
{
    let mut acc = empty_features();
    let mut k: usize = 0;
    while k < cs.len()
        invariant
            k <= cs@.len(),
            decreases_to!(*parent => *cs),
            acc == tree_list_features(cs@.subrange(0, k as int)),
        decreases cs@.len() - k,
    {
        proof {
            assert(decreases_to!(*cs => cs@[k as int]));
        }
        let f = walk_tree(&cs[k]);
        acc = or_features(acc, f);
        proof {
            let sub = cs@.subrange(0, k + 1);
            assert(sub.drop_last() =~= cs@.subrange(0, k as int));
            assert(sub.last() == cs@[k as int]);
        }
        k += 1;
    }
    proof {
        assert(cs@.subrange(0, cs@.len() as int) =~= cs@);
    }
    acc
}

// === The text fallback path ===

/// A quantifier character.
pub open spec fn is_quant(c: char) -> bool {
    c == '+' || c == '*' || c == '?'
}

/// An inline-flag character.
pub open spec fn is_flag_char(c: char) -> bool {
    c == 'i' || c == 'm' || c == 's' || c == 'x'
}

/// A lookbehind opens at `i`: `(?<=` or `(?<!`.
pub open spec fn lb_open_at(p: Seq<char>, i: int) -> bool {
    &&& 0 <= i
    &&& i + 3 < p.len()
    &&& p[i] == '('
    &&& p[i + 1] == '?'
    &&& p[i + 2] == '<'
    &&& (p[i + 3] == '=' || p[i + 3] == '!')
}

/// A lookbehind whose body holds a quantifier before its first closing
/// parenthesis, with some closing parenthesis after the quantifier: the
/// variable-length lookbehind marker.
pub open spec fn marks_var_lookbehind(p: Seq<char>) -> bool {
    exists|i: int, j: int, k: int| var_lookbehind_at(p, i, j, k)
}

pub open spec fn var_lookbehind_at(p: Seq<char>, i: int, j: int, k: int) -> bool {
    &&& lb_open_at(p, i)
    &&& i + 4 <= j < p.len()
    &&& is_quant(p[j])
    &&& (forall|m: int| i + 4 <= m < j ==> p[m] != ')')
    &&& j < k < p.len()
    &&& p[k] == ')'
}

/// An inline flag group `(?i)`, `(?ms)`, ... occurs at `i` closing at `j`.
pub open spec fn inline_flags_at(p: Seq<char>, i: int, j: int) -> bool {
    &&& 0 <= i
    &&& i + 2 < j < p.len()
    &&& p[i] == '('
    &&& p[i + 1] == '?'
    &&& p[j] == ')'
    &&& (forall|m: int| i + 2 <= m < j ==> is_flag_char(p[m]))
}

/// The pattern holds an inline flag group such as `(?i)` or `(?ms)`.
pub open spec fn marks_inline_flags(p: Seq<char>) -> bool {
    exists|i: int, j: int| inline_flags_at(p, i, j)
}

/// A subroutine call `\g<name>` occurs at `i` closing at `j`.
pub open spec fn subroutine_at(p: Seq<char>, i: int, j: int) -> bool {
    &&& 0 <= i
    &&& i + 3 < j < p.len()
    &&& p[i] == '\\'
    &&& p[i + 1] == 'g'
    &&& p[i + 2] == '<'
    &&& p[j] == '>'
    &&& (forall|m: int| i + 3 <= m < j ==> p[m] != '>')
}

/// The pattern holds a subroutine-call marker `\g<name>`.
pub open spec fn marks_subroutine(p: Seq<char>) -> bool {
    exists|i: int, j: int| subroutine_at(p, i, j)
}

/// The first position at or after `start` holding `c`.
fn find_char_from(p: &Vec<char>, start: usize, c: char) -> (r: Option<usize>)
    ensures
        r matches Some(j) ==> start <= j < p@.len() && p@[j as int] == c && (forall|m: int|
            start <= m < j ==> p@[m] != c),
        r is None ==> forall|m: int| start <= m < p@.len() ==> p@[m] != c,
{
    let n = p.len();
    let mut i: usize = start;
    if i > n {
        return None;
    }
    while i < n
        invariant
            start <= i <= n,
            n == p@.len(),
            forall|m: int| start <= m < i ==> p@[m] != c,
        decreases n - i,
    {
        if p[i] == c {
            return Some(i);
        }
        i += 1;
    }
    None
}

/// Whether a quantifier character occurs in `[a, b)`.
fn has_quant_in(p: &Vec<char>, a: usize, b: usize) -> (r: bool)
    requires
        b <= p@.len(),
    ensures
        r == exists|m: int| a <= m < b && is_quant(#[trigger] p@[m]),
{
    let mut i: usize = a;
    if i >= b {
        return false;
    }
    while i < b
        invariant
            a <= i <= b,
            b <= p@.len(),
            forall|m: int| a <= m < i ==> !is_quant(#[trigger] p@[m]),
        decreases b - i,
    {
        let c = p[i];
        if c == '+' || c == '*' || c == '?' {
            return true;
        }
        i += 1;
    }
    false
}

/// The end of the run of inline-flag characters starting at `start`.
fn scan_flag_run(p: &Vec<char>, start: usize) -> (m: usize)
    requires
        start <= p@.len(),
    ensures
        start <= m <= p@.len(),
        forall|t: int| start <= t < m ==> is_flag_char(#[trigger] p@[t]),
        m < p@.len() ==> !is_flag_char(p@[m as int]),
{
    let n = p.len();
    let mut m: usize = start;
    while m < n
        invariant
            start <= m <= n,
            n == p@.len(),
            forall|t: int| start <= t < m ==> is_flag_char(#[trigger] p@[t]),
        decreases n - m,
    {
        let c = p[m];
        if !(c == 'i' || c == 'm' || c == 's' || c == 'x') {
            return m;
        }
        m += 1;
    }
    m
}

/// Scans for the variable-length lookbehind marker.
fn scan_var_lookbehind(p: &Vec<char>) -> (r: bool)
    ensures
        r == marks_var_lookbehind(p@),
{
    let n = p.len();
    if n < 4 {
        assert(forall|i: int, j: int, k: int| !var_lookbehind_at(p@, i, j, k));
        return false;
    }
    let mut i: usize = 0;
    while i < n - 3
        invariant
            i <= n - 3,
            4 <= n == p@.len(),
            forall|i0: int, j: int, k: int| i0 < i ==> !var_lookbehind_at(p@, i0, j, k),
        decreases n - i,
    {
        let open = p[i] == '(' && p[i + 1] == '?' && p[i + 2] == '<' && (p[i + 3] == '=' || p[i
            + 3] == '!');
        if open {
            match find_char_from(p, i + 4, ')') {
                Some(fp) => {
                    if has_quant_in(p, i + 4, fp) {
                        proof {
                            let j = choose|m: int| i + 4 <= m < fp && is_quant(#[trigger] p@[m]);
                            assert(var_lookbehind_at(p@, i as int, j, fp as int));
                        }
                        return true;
                    }
                    proof {
                        assert forall|j: int, k: int| !var_lookbehind_at(
                            p@,
                            i as int,
                            j,
                            k,
                        ) by {
                            if var_lookbehind_at(p@, i as int, j, k) {
                                if j < fp {
                                    assert(is_quant(p@[j]));
                                } else {
                                    assert(p@[fp as int] == ')');
                                    if j == fp {
                                    } else {
                                        assert(i + 4 <= fp < j);
                                    }
                                }
                            }
                        }
                    }
                },
                None => {
                    proof {
                        assert forall|j: int, k: int| !var_lookbehind_at(
                            p@,
                            i as int,
                            j,
                            k,
                        ) by {
                            if var_lookbehind_at(p@, i as int, j, k) {
                                assert(p@[k] == ')');
                                assert(i + 4 <= j < k);
                            }
                        }
                    }
                },
            }
        } else {
            proof {
                assert(!lb_open_at(p@, i as int));
            }
        }
        i += 1;
    }
    proof {
        assert forall|i0: int, j: int, k: int| !var_lookbehind_at(p@, i0, j, k) by {
            if var_lookbehind_at(p@, i0, j, k) {
                assert(lb_open_at(p@, i0));
                assert(i0 + 3 < p@.len());
                assert(i0 < i);
            }
        }
    }
    false
}

/// Scans for an inline flag group `(?i)`, `(?ms)`, ...
fn scan_inline_flags(p: &Vec<char>) -> (r: bool)
    ensures
        r == marks_inline_flags(p@),
{
    let n = p.len();
    if n < 4 {
        assert forall|i: int, j: int| !inline_flags_at(p@, i, j) by {
            if inline_flags_at(p@, i, j) {
                assert(i + 2 < j < p@.len());
            }
        }
        return false;
    }
    let mut i: usize = 0;
    while i < n - 1
        invariant
            i <= n - 1,
            4 <= n == p@.len(),
            forall|i0: int, j: int| i0 < i ==> !inline_flags_at(p@, i0, j),
        decreases n - i,
    {
        if p[i] == '(' && p[i + 1] == '?' {
            let m = scan_flag_run(p, i + 2);
            if m > i + 2 && m < n && p[m] == ')' {
                proof {
                    assert(inline_flags_at(p@, i as int, m as int));
                }
                return true;
            }
            proof {
                assert forall|j: int| !inline_flags_at(p@, i as int, j) by {
                    if inline_flags_at(p@, i as int, j) {
                        if j < m {
                            assert(is_flag_char(p@[j]));
                        } else if j == m {
                        } else {
                            assert(i + 2 <= m < j);
                            assert(is_flag_char(p@[m as int]));
                        }
                    }
                }
            }
        } else {
            proof {
                assert forall|j: int| !inline_flags_at(p@, i as int, j) by {}
            }
        }
        i += 1;
    }
    proof {
        assert forall|i0: int, j: int| !inline_flags_at(p@, i0, j) by {
            if inline_flags_at(p@, i0, j) {
                assert(i0 + 2 < j < p@.len());
                assert(i0 < i);
            }
        }
    }
    false
}

/// Scans for a subroutine-call marker `\g<name>`.
fn scan_subroutine(p: &Vec<char>) -> (r: bool)
    ensures
        r == marks_subroutine(p@),
{
    let n = p.len();
    if n < 5 {
        assert forall|i: int, j: int| !subroutine_at(p@, i, j) by {
            if subroutine_at(p@, i, j) {
                assert(i + 3 < j < p@.len());
            }
        }
        return false;
    }
    let mut i: usize = 0;
    while i < n - 2
        invariant
            i <= n - 2,
            5 <= n == p@.len(),
            forall|i0: int, j: int| i0 < i ==> !subroutine_at(p@, i0, j),
        decreases n - i,
    {
        if p[i] == '\\' && p[i + 1] == 'g' && p[i + 2] == '<' {
            match find_char_from(p, i + 3, '>') {
                Some(j) => {
                    if j > i + 3 {
                        proof {
                            assert(subroutine_at(p@, i as int, j as int));
                        }
                        return true;
                    }
                    proof {
                        assert forall|j0: int| !subroutine_at(p@, i as int, j0) by {
                            if subroutine_at(p@, i as int, j0) {
                                assert(p@[i + 3] != '>');
                            }
                        }
                    }
                },
                None => {
                    proof {
                        assert forall|j0: int| !subroutine_at(p@, i as int, j0) by {
                            if subroutine_at(p@, i as int, j0) {
                                assert(p@[j0] == '>');
                            }
                        }
                    }
                },
            }
        } else {
            proof {
                assert forall|j0: int| !subroutine_at(p@, i as int, j0) by {}
            }
        }
        i += 1;
    }
    proof {
        assert forall|i0: int, j: int| !subroutine_at(p@, i0, j) by {
            if subroutine_at(p@, i0, j) {
                assert(i0 + 3 < j < p@.len());
                assert(i0 < i);
            }
        }
    }
    false
}

/// The features the text scan extracts, marker by marker.
pub open spec fn string_features(p: Seq<char>) -> PatternFeatures {
    PatternFeatures {
        start_anchor: starts_with(p, "^"@) || (has_sub(p, "(?m)"@) && has_sub(p, "^"@)),
        end_anchor: ends_with(p, "$"@) || (has_sub(p, "(?m)"@) && has_sub(p, "$"@)),
        word_boundary: has_sub(p, "\\b"@),
        non_word_boundary: has_sub(p, "\\B"@),
        unicode_classes: has_sub(p, "\\p{"@) || has_sub(p, "\\P{"@),
        negated_unicode: has_sub(p, "\\P{"@),
        posix_classes: has_sub(p, "[:"@) && has_sub(p, ":]"@),
        lookahead: marks_lookahead(p),
        lookbehind: marks_lookbehind(p),
        variable_lookbehind: marks_lookbehind(p) && marks_var_lookbehind(p),
        named_capture: has_sub(p, "(?P<"@) || (has_sub(p, "(?<"@) && !has_sub(p, "(?<="@)
            && !has_sub(p, "(?<!"@)),
        non_capturing: has_sub(p, "(?:"@),
        atomic_group: marks_atomic_group(p),
        backreference: marks_backreference(p),
        possessive: has_sub(p, "++"@) || has_sub(p, "*+"@) || has_sub(p, "?+"@) || has_sub(
            p,
            "}+"@,
        ),
        inline_flags: marks_inline_flags(p),
        conditional: has_sub(p, "(?("@),
        recursion: has_sub(p, "(?R)"@) || has_sub(p, "(?0)"@),
        subroutine: marks_subroutine(p),
    }
}

/// What extraction may return for a pattern: the exact text scan, or a
/// structural walk of a parsed tree, which never sets a backtracking-only
/// flag and presupposes that the pattern parses.
pub open spec fn analyzed(p: Seq<char>, f: PatternFeatures) -> bool {
    ||| f == string_features(p)
    ||| (rs_parses(p) && no_backtracking_flags(f) && (exists|t: ReAst| f == tree_features(t)))
}

impl PatternFeatures {
    /// Extracts the features of a pattern.
    ///
    /// Uses the structural parse when the pattern parses — on that path no
    /// backtracking-only flag can be set — and falls back to scanning the
    /// pattern text for syntactic markers otherwise; a pattern the parser
    /// rejects gets exactly the text scan.
    pub fn analyze(pattern: &str) -> (r: PatternFeatures)
        ensures
            analyzed(pattern@, r),
            !rs_parses(pattern@) ==> r == string_features(pattern@),
            !no_backtracking_flags(r) ==> r == string_features(pattern@),
    {
        match parse_pattern(pattern) {
            Ok(t) => {
                let r = Self::analyze_from_tree(&t);
                proof {
                    assert(r == tree_features(t));
                }
                r
            },
            Err(_) => Self::analyze_from_string(pattern),
        }
    }

    /// Extracts features from a parsed tree; no false positives, and no
    /// backtracking-only flag is ever set on this path.
    pub fn analyze_from_tree(t: &ReAst) -> (r: PatternFeatures)
        ensures
            r == tree_features(*t),
            no_backtracking_flags(r),
    {
        proof {
            lemma_tree_features_no_backtracking(*t);
        }
        walk_tree(t)
    }

    /// Extracts features by scanning the literal pattern text for
    /// syntactic markers.  Exercised only for patterns the structural
    /// parser rejects, which bounds the false-positive risk.
    pub fn analyze_from_string(pattern: &str) -> (r: PatternFeatures)
        ensures
            r == string_features(pattern@),
    {
        let p = chars_of(pattern);
        let lookbehind = contains_str(&p, "(?<=") || contains_str(&p, "(?<!");
        let has_multiline = contains_str(&p, "(?m)");
        PatternFeatures {
            start_anchor: starts_with_str(&p, "^") || (has_multiline && contains_str(&p, "^")),
            end_anchor: ends_with_str(&p, "$") || (has_multiline && contains_str(&p, "$")),
            word_boundary: contains_str(&p, "\\b"),
            non_word_boundary: contains_str(&p, "\\B"),
            unicode_classes: contains_str(&p, "\\p{") || contains_str(&p, "\\P{"),
            negated_unicode: contains_str(&p, "\\P{"),
            posix_classes: contains_str(&p, "[:") && contains_str(&p, ":]"),
            lookahead: contains_str(&p, "(?=") || contains_str(&p, "(?!"),
            lookbehind,
            variable_lookbehind: lookbehind && scan_var_lookbehind(&p),
            named_capture: contains_str(&p, "(?P<") || (contains_str(&p, "(?<") && !contains_str(
                &p,
                "(?<=",
            ) && !contains_str(&p, "(?<!")),
            non_capturing: contains_str(&p, "(?:"),
            atomic_group: contains_str(&p, "(?>"),
            backreference: crate::engine::detect_fancy_features(pattern).backreference,
            possessive: contains_str(&p, "++") || contains_str(&p, "*+") || contains_str(&p, "?+")
                || contains_str(&p, "}+"),
            inline_flags: scan_inline_flags(&p),
            conditional: contains_str(&p, "(?("),
            recursion: contains_str(&p, "(?R)") || contains_str(&p, "(?0)"),
            subroutine: scan_subroutine(&p),
        }
    }
}

// === The nine dialect predicates ===

/// Rust regex crate compatibility: no backtracking-only feature at all.
pub open spec fn spec_rust_regex_compatible(f: PatternFeatures) -> bool {
    !f.lookahead && !f.lookbehind && !f.backreference && !f.atomic_group && !f.possessive
        && !f.conditional && !f.recursion && !f.subroutine
}

/// PCRE2 compatibility: everything but POSIX bracket classes.
pub open spec fn spec_pcre2_compatible(f: PatternFeatures) -> bool {
    !f.posix_classes
}

/// JavaScript RegExp compatibility.
pub open spec fn spec_javascript_compatible(f: PatternFeatures) -> bool {
    !f.variable_lookbehind && !f.atomic_group && !f.possessive && !f.conditional && !f.recursion
        && !f.subroutine && !f.posix_classes
}

/// Python re module compatibility.
pub open spec fn spec_python_re_compatible(f: PatternFeatures) -> bool {
    !f.atomic_group && !f.possessive && !f.recursion && !f.subroutine && !f.posix_classes
}

/// Python regex module (third-party) compatibility.
pub open spec fn spec_python_regex_compatible(f: PatternFeatures) -> bool {
    !f.posix_classes
}

/// Go regexp package compatibility (RE2-based).
pub open spec fn spec_go_regexp_compatible(f: PatternFeatures) -> bool {
    !f.lookahead && !f.lookbehind && !f.backreference && !f.atomic_group && !f.possessive
        && !f.conditional && !f.recursion && !f.subroutine
}

/// Java java.util.regex compatibility.
pub open spec fn spec_java_compatible(f: PatternFeatures) -> bool {
    !f.recursion && !f.subroutine && !f.posix_classes
}

/// .NET System.Text.RegularExpressions compatibility.
pub open spec fn spec_dotnet_compatible(f: PatternFeatures) -> bool {
    !f.recursion && !f.subroutine && !f.possessive && !f.posix_classes
}

/// Ruby (Oniguruma/Onigmo) compatibility.
pub open spec fn spec_ruby_compatible(f: PatternFeatures) -> bool {
    !f.conditional && !f.recursion
}

pub fn is_rust_regex_compatible(features: &PatternFeatures) -> (r: bool)
    ensures
        r == spec_rust_regex_compatible(*features),
{
    !features.lookahead && !features.lookbehind && !features.backreference
        && !features.atomic_group && !features.possessive && !features.conditional
        && !features.recursion && !features.subroutine
}

pub fn is_pcre2_compatible(features: &PatternFeatures) -> (r: bool)
    ensures
        r == spec_pcre2_compatible(*features),
{
    !features.posix_classes
}

pub fn is_javascript_compatible(features: &PatternFeatures) -> (r: bool)
    ensures
        r == spec_javascript_compatible(*features),
{
    !features.variable_lookbehind && !features.atomic_group && !features.possessive
        && !features.conditional && !features.recursion && !features.subroutine
        && !features.posix_classes
}

pub fn is_python_re_compatible(features: &PatternFeatures) -> (r: bool)
    ensures
        r == spec_python_re_compatible(*features),
{
    !features.atomic_group && !features.possessive && !features.recursion && !features.subroutine
        && !features.posix_classes
}

pub fn is_python_regex_compatible(features: &PatternFeatures) -> (r: bool)
    ensures
        r == spec_python_regex_compatible(*features),
{
    !features.posix_classes
}

pub fn is_go_regexp_compatible(features: &PatternFeatures) -> (r: bool)
    ensures
        r == spec_go_regexp_compatible(*features),
{
    !features.lookahead && !features.lookbehind && !features.backreference
        && !features.atomic_group && !features.possessive && !features.conditional
        && !features.recursion && !features.subroutine
}

pub fn is_java_compatible(features: &PatternFeatures) -> (r: bool)
    ensures
        r == spec_java_compatible(*features),
{
    !features.recursion && !features.subroutine && !features.posix_classes
}

pub fn is_dotnet_compatible(features: &PatternFeatures) -> (r: bool)
    ensures
        r == spec_dotnet_compatible(*features),
{
    !features.recursion && !features.subroutine && !features.possessive && !features.posix_classes
}

pub fn is_ruby_compatible(features: &PatternFeatures) -> (r: bool)
    ensures
        r == spec_ruby_compatible(*features),
{
    !features.conditional && !features.recursion
}

/// The full nine-dialect matrix as a pure function of the feature set.
pub open spec fn portability_of(f: PatternFeatures) -> Portability {
    Portability {
        rust_regex: spec_rust_regex_compatible(f),
        pcre2: spec_pcre2_compatible(f),
        javascript: spec_javascript_compatible(f),
        python_re: spec_python_re_compatible(f),
        python_regex: spec_python_regex_compatible(f),
        go_regexp: spec_go_regexp_compatible(f),
        java: Some(spec_java_compatible(f)),
        dotnet: spec_dotnet_compatible(f),
        ruby: spec_ruby_compatible(f),
    }
}

/// Evaluates the nine-dialect matrix over a feature set.
pub fn portability_matrix(features: &PatternFeatures) -> (r: Portability)
    ensures
        r == portability_of(*features),
{
    Portability {
        rust_regex: is_rust_regex_compatible(features),
        pcre2: is_pcre2_compatible(features),
        javascript: is_javascript_compatible(features),
        python_re: is_python_re_compatible(features),
        python_regex: is_python_regex_compatible(features),
        go_regexp: is_go_regexp_compatible(features),
        java: Some(is_java_compatible(features)),
        dotnet: is_dotnet_compatible(features),
        ruby: is_ruby_compatible(features),
    }
}

/// Checks a pattern's portability to the nine dialects.
///
/// The matrix is a pure function of the pattern's extracted feature set:
/// the exact text scan when the structural parser rejects the pattern, a
/// backtracking-flag-free structural walk otherwise.
pub fn check_portability(pattern: &str) -> (r: Portability)
    ensures
        exists|f: PatternFeatures| #[trigger] analyzed(pattern@, f) && r == portability_of(f),
        !rs_parses(pattern@) ==> r == portability_of(string_features(pattern@)),
{
    let features = PatternFeatures::analyze(pattern);
    let r = portability_matrix(&features);
    proof {
        assert(analyzed(pattern@, features) && r == portability_of(features));
    }
    r
}

/// The compatibility issues a feature set raises, in fixed order.
pub open spec fn issues_of(f: PatternFeatures) -> Seq<Seq<char>> {
    let s0 = Seq::<Seq<char>>::empty();
    let s1 = if f.lookahead {
        s0.push(
            "Lookahead assertions ((?=...) (?!...)) are not supported in Rust regex or Go regexp"@,
        )
    } else {
        s0
    };
    let s2 = if f.lookbehind {
        s1.push(
            "Lookbehind assertions ((?<=...) (?<!...)) are not supported in Rust regex or Go regexp"@,
        )
    } else {
        s1
    };
    let s3 = if f.variable_lookbehind {
        s2.push("Variable-length lookbehind is not supported in JavaScript"@)
    } else {
        s2
    };
    let s4 = if f.backreference {
        s3.push("Backreferences (\\1, \\2) are not supported in Rust regex or Go regexp"@)
    } else {
        s3
    };
    let s5 = if f.atomic_group {
        s4.push(
            "Atomic groups (?>) are not supported in Rust regex, Go, JavaScript, or Python re"@,
        )
    } else {
        s4
    };
    let s6 = if f.possessive {
        s5.push(
            "Possessive quantifiers (++, *+) are not supported in Rust regex, Go, JavaScript, or Python re"@,
        )
    } else {
        s5
    };
    let s7 = if f.conditional {
        s6.push("Conditional patterns (?(1)...) are only supported in PCRE and Python regex"@)
    } else {
        s6
    };
    let s8 = if f.recursion {
        s7.push("Recursion (?R) is only supported in PCRE and Python regex"@)
    } else {
        s7
    };
    if f.unicode_classes {
        s8.push(
            "Unicode property classes (\\p{...}) require special handling in JavaScript (needs /u flag)"@,
        )
    } else {
        s8
    }
}

/// Lists the issues a feature set raises, one human-readable line each.
#[verifier::rlimit(100)]
pub fn compatibility_issues(features: &PatternFeatures) -> (r: Vec<String>)
    ensures
        views_of(r@) == issues_of(*features),
{
    let mut issues: Vec<String> = Vec::new();
    if features.lookahead {
        issues.push(
            String::from_str(
                "Lookahead assertions ((?=...) (?!...)) are not supported in Rust regex or Go regexp",
            ),
        );
    }
    if features.lookbehind {
        issues.push(
            String::from_str(
                "Lookbehind assertions ((?<=...) (?<!...)) are not supported in Rust regex or Go regexp",
            ),
        );
    }
    if features.variable_lookbehind {
        issues.push(String::from_str("Variable-length lookbehind is not supported in JavaScript"));
    }
    if features.backreference {
        issues.push(
            String::from_str(
                "Backreferences (\\1, \\2) are not supported in Rust regex or Go regexp",
            ),
        );
    }
    if features.atomic_group {
        issues.push(
            String::from_str(
                "Atomic groups (?>) are not supported in Rust regex, Go, JavaScript, or Python re",
            ),
        );
    }
    if features.possessive {
        issues.push(
            String::from_str(
                "Possessive quantifiers (++, *+) are not supported in Rust regex, Go, JavaScript, or Python re",
            ),
        );
    }
    if features.conditional {
        issues.push(
            String::from_str(
                "Conditional patterns (?(1)...) are only supported in PCRE and Python regex",
            ),
        );
    }
    if features.recursion {
        issues.push(
            String::from_str("Recursion (?R) is only supported in PCRE and Python regex"),
        );
    }
    if features.unicode_classes {
        issues.push(
            String::from_str(
                "Unicode property classes (\\p{...}) require special handling in JavaScript (needs /u flag)",
            ),
        );
    }
    proof {
        assert(views_of(issues@) =~= issues_of(*features));
    }
    issues
}

/// Explains a pattern's compatibility issues, one human-readable line for
/// each feature that limits it.
pub fn explain_compatibility(pattern: &str) -> (r: Vec<String>)
    ensures
        exists|f: PatternFeatures| #[trigger] analyzed(pattern@, f) && views_of(r@) == issues_of(
            f,
        ),
        !rs_parses(pattern@) ==> views_of(r@) == issues_of(string_features(pattern@)),
{
    let features = PatternFeatures::analyze(pattern);
    let r = compatibility_issues(&features);
    proof {
        assert(analyzed(pattern@, features) && views_of(r@) == issues_of(features));
    }
    r
}

} // verus!
