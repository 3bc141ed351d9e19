//! Pattern explanation.
//!
//! A pattern that parses structurally is decomposed into a labeled part
//! tree, node by node; a pattern that needs the backtracking engine gets
//! one descriptive part per detected feature instead.  The summary first
//! tries semantic recognition against the format template library and
//! falls back to a structural, natural-language rendering.

use vstd::prelude::*;

verus! {

use vstd::string::StrSliceExecFns;
use vstd::string::StringExecFns;
use crate::engine::{FancyFeatures, detect_fancy_features};
use crate::rsyntax::{AssertKind, FlagItem, PerlKind, ReAst, ReGroupKind, RepOp, UniKind,
    parse_pattern};
use crate::scan::{chars_of, dec_rep, push_dec, string_from_chars};
use crate::templates::recognize_pattern;
use crate::types::{ExplainPart, ExplainResult};

// === Well-formedness of the part tree ===

/// Token types that may carry children.
pub open spec fn parent_token_type(t: Seq<char>) -> bool {
    ||| t == "capturing_group"@
    ||| t == "non_capturing_group"@
    ||| t == "named_group"@
    ||| t == "alternation"@
    ||| t == "branch"@
    ||| t == "repetition"@
}

/// A node with children always has a group, alternation, branch or
/// repetition token type, recursively.
pub open spec fn part_wf(p: ExplainPart) -> bool
    decreases p, 1int,
{
    match p.children {
        Some(cs) => parent_token_type(p.token_type@) && parts_wf(cs@),
        None => true,
    }
}

/// Every part of the list is well formed.
pub open spec fn parts_wf(s: Seq<ExplainPart>) -> bool
    decreases s,
{
    if s.len() == 0 {
        true
    } else {
        parts_wf(s.drop_last()) && part_wf(s.last())
    }
}

proof fn lemma_parts_wf_push(s: Seq<ExplainPart>, p: ExplainPart)
    requires
        parts_wf(s),
        part_wf(p),
    ensures
        parts_wf(s.push(p)),
{
    assert(s.push(p).drop_last() =~= s);
    assert(s.push(p).last() == p);
}

proof fn lemma_parts_wf_append(a: Seq<ExplainPart>, b: Seq<ExplainPart>)
    requires
        parts_wf(a),
        parts_wf(b),
    ensures
        parts_wf(a + b),
    decreases b.len(),
{
    if b.len() == 0 {
        assert(a + b =~= a);
    } else {
        lemma_parts_wf_append(a, b.drop_last());
        assert((a + b).drop_last() =~= a + b.drop_last());
        assert((a + b).last() == b.last());
    }
}

// === What each node becomes ===

/// A childless part with the given token, type and description.
pub open spec fn is_leaf_part(p: ExplainPart, token: Seq<char>, tt: Seq<char>, desc: Seq<char>)
    -> bool {
    &&& p.token@ == token
    &&& p.token_type@ == tt
    &&& p.desc@ == desc
    &&& p.quantifier is None
    &&& p.group is None
    &&& p.children is None
}

/// The token and description of an assertion node.
pub open spec fn assertion_token(k: AssertKind) -> Seq<char> {
    match k {
        AssertKind::StartLine => "^"@,
        AssertKind::EndLine => "$"@,
        AssertKind::StartText => "\\A"@,
        AssertKind::EndText => "\\z"@,
        AssertKind::WordBoundary => "\\b"@,
        AssertKind::NotWordBoundary => "\\B"@,
        AssertKind::WordBoundaryStart => "\\<"@,
        AssertKind::WordBoundaryEnd => "\\>"@,
        AssertKind::WordBoundaryStartHalf => "\\b{start}"@,
        AssertKind::WordBoundaryEndHalf => "\\b{end}"@,
    }
}

pub open spec fn assertion_desc(k: AssertKind) -> Seq<char> {
    match k {
        AssertKind::StartLine => "Start of line/string"@,
        AssertKind::EndLine => "End of line/string"@,
        AssertKind::StartText => "Start of text (absolute)"@,
        AssertKind::EndText => "End of text (absolute)"@,
        AssertKind::WordBoundary => "Word boundary"@,
        AssertKind::NotWordBoundary => "Non-word boundary"@,
        AssertKind::WordBoundaryStart => "Start of word"@,
        AssertKind::WordBoundaryEnd => "End of word"@,
        AssertKind::WordBoundaryStartHalf => "Start of word boundary"@,
        AssertKind::WordBoundaryEndHalf => "End of word boundary"@,
    }
}

/// The token and description of a Perl class node.
pub open spec fn perl_token(k: PerlKind, negated: bool) -> Seq<char> {
    match k {
        PerlKind::Digit => if negated {
            "\\D"@
        } else {
            "\\d"@
        },
        PerlKind::Space => if negated {
            "\\S"@
        } else {
            "\\s"@
        },
        PerlKind::Word => if negated {
            "\\W"@
        } else {
            "\\w"@
        },
    }
}

pub open spec fn perl_desc(k: PerlKind, negated: bool) -> Seq<char> {
    match k {
        PerlKind::Digit => if negated {
            "Non-digit character"@
        } else {
            "Digit character [0-9]"@
        },
        PerlKind::Space => if negated {
            "Non-whitespace character"@
        } else {
            "Whitespace character"@
        },
        PerlKind::Word => if negated {
            "Non-word character"@
        } else {
            "Word character [a-zA-Z0-9_]"@
        },
    }
}

/// The description of a literal node, with a code-point annotation for
/// characters that are not letters or digits.
pub open spec fn literal_desc(c: char) -> Seq<char> {
    if crate::scan::is_alnum(c) {
        "Literal '"@ + seq![c] + "'"@
    } else {
        "Literal '"@ + seq![c] + "' (U+"@ + hex4_rep(c as u32 as int) + ")"@
    }
}

/// The text naming a Unicode class's kind.
pub open spec fn unicode_kind_text(k: UniKind) -> Seq<char> {
    match k {
        UniKind::OneLetter(c) => seq![c],
        UniKind::Named(n) => n@,
        UniKind::NamedValue(n, v) => n@ + "="@ + v@,
    }
}

pub open spec fn unicode_token(negated: bool, k: UniKind) -> Seq<char> {
    (if negated {
        "\\P{"@
    } else {
        "\\p{"@
    }) + unicode_kind_text(k) + "}"@
}

pub open spec fn unicode_desc(k: UniKind) -> Seq<char> {
    match k {
        UniKind::OneLetter(c) => spec_unicode_class_desc(c),
        UniKind::Named(n) => "Unicode property: "@ + n@,
        UniKind::NamedValue(n, v) => "Unicode "@ + n@ + "="@ + v@,
    }
}

/// The names of the flags of an inline-flag set, negations aside.
pub open spec fn flag_name_list(items: Seq<FlagItem>) -> Seq<Seq<char>>
    decreases items,
{
    if items.len() == 0 {
        Seq::empty()
    } else {
        let rest = flag_name_list(items.drop_last());
        if items.last() is Negation {
            rest
        } else {
            rest.push(flag_item_name(items.last()))
        }
    }
}

pub open spec fn flags_token(items: Seq<FlagItem>) -> Seq<char> {
    "(?"@ + spec_flags_text(items) + ")"@
}

pub open spec fn flags_desc(items: Seq<FlagItem>) -> Seq<char> {
    "Enable "@ + crate::scan::spec_join(flag_name_list(items), ", "@)
}

pub open spec fn bracketed_desc(negated: bool) -> Seq<char> {
    "Character class: matches "@ + (if negated {
        "not "@
    } else {
        Seq::empty()
    }) + "one of the specified characters"@
}

/// The quantifier character of a simple repetition operator.
pub open spec fn simple_quant(op: RepOp) -> Seq<char> {
    match op {
        RepOp::ZeroOrOne => "?"@,
        RepOp::ZeroOrMore => "*"@,
        _ => "+"@,
    }
}

/// The description of a simple repetition, with its greediness.
pub open spec fn simple_rep_desc(op: RepOp, greedy: bool) -> Seq<char> {
    (match op {
        RepOp::ZeroOrOne => "Zero or one"@,
        RepOp::ZeroOrMore => "Zero or more"@,
        _ => "One or more"@,
    }) + (if greedy {
        Seq::<char>::empty()
    } else {
        " (non-greedy)"@
    })
}

/// The token, description and quantifier of a ranged repetition.
pub open spec fn ranged_token(op: RepOp, child_text: Seq<char>) -> Seq<char> {
    match op {
        RepOp::Exactly(n) => child_text + "{"@ + dec_rep(n as int) + "}"@,
        RepOp::AtLeast(n) => child_text + "{"@ + dec_rep(n as int) + ",}"@,
        RepOp::Bounded(m, n) => child_text + "{"@ + dec_rep(m as int) + ","@ + dec_rep(n as int)
            + "}"@,
        _ => Seq::empty(),
    }
}

pub open spec fn ranged_desc(op: RepOp) -> Seq<char> {
    match op {
        RepOp::Exactly(n) => "Exactly "@ + dec_rep(n as int) + " of the preceding element"@,
        RepOp::AtLeast(n) => dec_rep(n as int) + " or more of the preceding element"@,
        RepOp::Bounded(m, n) => "Between "@ + dec_rep(m as int) + " and "@ + dec_rep(n as int)
            + " of the preceding element"@,
        _ => Seq::empty(),
    }
}

pub open spec fn ranged_quant(op: RepOp) -> Seq<char> {
    match op {
        RepOp::Exactly(n) => "{"@ + dec_rep(n as int) + "}"@,
        RepOp::AtLeast(n) => "{"@ + dec_rep(n as int) + ",}"@,
        RepOp::Bounded(m, n) => "{"@ + dec_rep(m as int) + ","@ + dec_rep(n as int) + "}"@,
        _ => Seq::empty(),
    }
}

/// A ranged repetition wraps its child parts, which become children only
/// when there are several of them.
pub open spec fn ranged_part_pin(
    op: RepOp,
    child_text: Seq<char>,
    cp: Seq<ExplainPart>,
    parts: Seq<ExplainPart>,
) -> bool {
    &&& parts.len() == 1
    &&& parts[0].token@ == ranged_token(op, child_text)
    &&& parts[0].token_type@ == "repetition"@
    &&& parts[0].desc@ == ranged_desc(op)
    &&& (parts[0].quantifier matches Some(q) && q@ == ranged_quant(op))
    &&& parts[0].group is None
    &&& (cp.len() > 1 ==> (parts[0].children matches Some(v) && v@ == cp))
    &&& (cp.len() <= 1 ==> parts[0].children is None)
}

/// What a repetition node produces from its child's parts.
pub open spec fn rep_pin(
    op: RepOp,
    greedy: bool,
    child_text: Seq<char>,
    text: Seq<char>,
    cp: Seq<ExplainPart>,
    parts: Seq<ExplainPart>,
) -> bool {
    match op {
        RepOp::Exactly(_) => ranged_part_pin(op, child_text, cp, parts),
        RepOp::AtLeast(_) => ranged_part_pin(op, child_text, cp, parts),
        RepOp::Bounded(_, _) => ranged_part_pin(op, child_text, cp, parts),
        _ => {
            if cp.len() == 1 {
                &&& parts.len() == 1
                &&& parts[0].token@ == cp[0].token@ + simple_quant(op) + (if greedy {
                    Seq::<char>::empty()
                } else {
                    "?"@
                })
                &&& parts[0].token_type@ == cp[0].token_type@
                &&& parts[0].desc@ == cp[0].desc@ + " ("@ + simple_rep_desc(op, greedy) + ")"@
                &&& (parts[0].quantifier matches Some(q) && q@ == simple_quant(op) + (if greedy {
                    Seq::<char>::empty()
                } else {
                    "?"@
                }))
                &&& parts[0].group == cp[0].group
                &&& parts[0].children == cp[0].children
            } else {
                &&& parts.len() == 1
                &&& parts[0].token@ == text
                &&& parts[0].token_type@ == "repetition"@
                &&& parts[0].desc@ == simple_rep_desc(op, greedy)
                &&& (parts[0].quantifier matches Some(q) && q@ == simple_quant(op))
                &&& parts[0].group is None
                &&& (parts[0].children matches Some(v) && v@ == cp)
            }
        },
    }
}

/// What the decomposition produces for each node kind; child lists are
/// bound existentially through the recursion.
pub open spec fn explains(t: ReAst, parts: Seq<ExplainPart>) -> bool
    decreases t, 1int,
{
    match t {
        ReAst::Empty => parts.len() == 0,
        ReAst::Flags(items) => parts.len() == 1 && is_leaf_part(
            parts[0],
            flags_token(items@),
            "flags"@,
            flags_desc(items@),
        ),
        ReAst::Literal(c) => parts.len() == 1 && is_leaf_part(
            parts[0],
            seq![c],
            "literal"@,
            literal_desc(c),
        ),
        ReAst::Dot => parts.len() == 1 && is_leaf_part(
            parts[0],
            "."@,
            "any_char"@,
            "Matches any character (except newline by default)"@,
        ),
        ReAst::Assertion(k) => parts.len() == 1 && is_leaf_part(
            parts[0],
            assertion_token(k),
            "anchor"@,
            assertion_desc(k),
        ),
        ReAst::ClassUnicode { negated, kind } => parts.len() == 1 && is_leaf_part(
            parts[0],
            unicode_token(negated, kind),
            "unicode_class"@,
            unicode_desc(kind),
        ),
        ReAst::ClassPerl { negated, kind } => parts.len() == 1 && is_leaf_part(
            parts[0],
            perl_token(kind, negated),
            "perl_class"@,
            perl_desc(kind, negated),
        ),
        ReAst::ClassBracketed { negated, set, text } => parts.len() == 1 && is_leaf_part(
            parts[0],
            text@,
            "character_class"@,
            bracketed_desc(negated),
        ),
        ReAst::Repetition { op, greedy, child, child_text, text } => exists|cp: Seq<ExplainPart>|
            #![trigger cp.len()]
            explains(*child, cp) && rep_pin(op, greedy, child_text@, text@, cp, parts),
        ReAst::Group { kind, child, text } => exists|cp: Seq<ExplainPart>|
            #![trigger cp.len()]
            explains(*child, cp) && {
                &&& parts.len() == 1
                &&& parts[0].token@ == text@
                &&& parts[0].quantifier is None
                &&& (match kind {
                    ReGroupKind::CaptureIndex(index) => parts[0].token_type@
                        == "capturing_group"@ && parts[0].desc@ == "Capturing group"@
                        && parts[0].group == Some(index as usize),
                    ReGroupKind::NonCapturing => parts[0].token_type@ == "non_capturing_group"@
                        && parts[0].desc@ == "Non-capturing group"@ && parts[0].group is None,
                    ReGroupKind::CaptureName(name) => parts[0].token_type@ == "named_group"@
                        && parts[0].desc@ == "Named capture: "@ + name@
                        && parts[0].group is None,
                })
                &&& (cp.len() == 0 ==> parts[0].children is None)
                &&& (cp.len() > 0 ==> (parts[0].children matches Some(v) && v@ == cp))
            },
        ReAst::Alternation { children, branch_texts, text } => {
            &&& parts.len() == 1
            &&& parts[0].token@ == text@
            &&& parts[0].token_type@ == "alternation"@
            &&& parts[0].desc@ == "Match one of "@ + dec_rep(children@.len() as int)
                + " alternatives"@
            &&& parts[0].quantifier is None
            &&& parts[0].group is None
            &&& (parts[0].children matches Some(bs) && explains_branches(
                children@,
                branch_texts@,
                bs@,
            ))
        },
        ReAst::Concat(cs) => explains_concat(cs@, parts),
    }
}

/// Each branch of an alternation, in order: the branch's text, the fixed
/// branch labels, and children explaining the branch's own tree.
pub open spec fn explains_branches(
    ts: Seq<ReAst>,
    texts: Seq<String>,
    branches: Seq<ExplainPart>,
) -> bool
    decreases ts,
{
    if ts.len() == 0 {
        branches.len() == 0
    } else {
        &&& branches.len() == ts.len()
        &&& explains_branches(ts.drop_last(), texts, branches.drop_last())
        &&& branches.last().token@ == (if ts.len() - 1 < texts.len() {
            texts[ts.len() - 1]@
        } else {
            Seq::empty()
        })
        &&& branches.last().token_type@ == "branch"@
        &&& branches.last().desc@ == "Alternative branch"@
        &&& branches.last().quantifier is None
        &&& branches.last().group is None
        &&& (branches.last().children matches Some(v) && explains(ts.last(), v@))
    }
}

/// A concatenation's parts are its children's parts, in order.
pub open spec fn explains_concat(ts: Seq<ReAst>, parts: Seq<ExplainPart>) -> bool
    decreases ts,
{
    if ts.len() == 0 {
        parts.len() == 0
    } else {
        exists|k: int|
            {
                &&& 0 <= k <= parts.len()
                &&& explains_concat(ts.drop_last(), #[trigger] parts.subrange(0, k))
                &&& explains(ts.last(), parts.subrange(k, parts.len() as int))
            }
    }
}

// === Small description helpers ===

/// An uppercase hexadecimal digit.
pub open spec fn hex_digit_char(d: int) -> char {
    if d < 10 {
        (48 + d) as char
    } else {
        (55 + d) as char
    }
}

/// The hexadecimal notation of `n`, most significant digit first.
pub open spec fn hex_rep(n: int) -> Seq<char>
    decreases n,
{
    if n < 16 {
        seq![hex_digit_char(n)]
    } else {
        hex_rep(n / 16) + seq![hex_digit_char(n % 16)]
    }
}

/// The hexadecimal notation of `n`, zero-padded to at least four digits.
pub open spec fn hex4_rep(n: int) -> Seq<char> {
    if hex_rep(n).len() >= 4 {
        hex_rep(n)
    } else {
        Seq::new((4 - hex_rep(n).len()) as nat, |i: int| '0') + hex_rep(n)
    }
}

fn hex_digit_exec(d: u32) -> (c: char)
    requires
        d < 16,
    ensures
        c == hex_digit_char(d as int),
{
    if d < 10 {
        (48 + (d as u8)) as char
    } else {
        (55 + (d as u8)) as char
    }
}

fn hex_chars(n: u32) -> (v: Vec<char>)
    ensures
        v@ == hex_rep(n as int),
        v@.len() >= 1,
    decreases n,
{
    if n < 16 {
        let mut v: Vec<char> = Vec::new();
        v.push(hex_digit_exec(n));
        proof {
            assert(v@ =~= hex_rep(n as int));
        }
        v
    } else {
        let mut v = hex_chars(n / 16);
        v.push(hex_digit_exec(n % 16));
        proof {
            assert(v@ =~= hex_rep(n as int));
        }
        v
    }
}

/// The code point of `c` as `U+` followed by at least four uppercase
/// hexadecimal digits.
fn hex4_chars(n: u32) -> (v: Vec<char>)
    ensures
        v@ == hex4_rep(n as int),
{
    let h = hex_chars(n);
    if h.len() >= 4 {
        return h;
    }
    let mut v: Vec<char> = Vec::new();
    let pad = 4 - h.len();
    let mut i: usize = 0;
    while i < pad
        invariant
            i <= pad,
            v@.len() == i,
            forall|m: int| 0 <= m < i ==> v@[m] == '0',
        decreases pad - i,
    {
        v.push('0');
        i += 1;
    }
    let mut j: usize = 0;
    while j < h.len()
        invariant
            j <= h@.len(),
            v@.len() == pad + j,
            h@ == hex_rep(n as int),
            pad == 4 - h@.len(),
            forall|m: int| 0 <= m < pad ==> v@[m] == '0',
            forall|m: int| 0 <= m < j ==> v@[pad + m] == h@[m],
        decreases h@.len() - j,
    {
        v.push(h[j]);
        j += 1;
    }
    proof {
        assert(v@ =~= hex4_rep(n as int));
    }
    v
}

/// The canonical description of a one-letter Unicode class.
pub open spec fn spec_unicode_class_desc(c: char) -> Seq<char> {
    if c == 'L' {
        "Unicode Letter"@
    } else if c == 'N' {
        "Unicode Number"@
    } else if c == 'P' {
        "Unicode Punctuation"@
    } else if c == 'S' {
        "Unicode Symbol"@
    } else if c == 'Z' {
        "Unicode Separator"@
    } else if c == 'C' {
        "Unicode Other/Control"@
    } else if c == 'M' {
        "Unicode Mark"@
    } else {
        "Unicode category "@ + seq![c]
    }
}

/// Describes a one-letter Unicode class.
pub fn describe_unicode_class(c: char) -> (r: String)
    ensures
        r@ == spec_unicode_class_desc(c),
{
    if c == 'L' {
        String::from_str("Unicode Letter")
    } else if c == 'N' {
        String::from_str("Unicode Number")
    } else if c == 'P' {
        String::from_str("Unicode Punctuation")
    } else if c == 'S' {
        String::from_str("Unicode Symbol")
    } else if c == 'Z' {
        String::from_str("Unicode Separator")
    } else if c == 'C' {
        String::from_str("Unicode Other/Control")
    } else if c == 'M' {
        String::from_str("Unicode Mark")
    } else {
        let mut s = String::from_str("Unicode category ");
        let mut one: Vec<char> = Vec::new();
        one.push(c);
        proof {
            assert(one@ =~= seq![c]);
        }
        s.append(string_from_chars(&one).as_str());
        s
    }
}

/// The flag letter of one inline-flag item.
pub open spec fn flag_item_char(f: FlagItem) -> char {
    match f {
        FlagItem::Negation => '-',
        FlagItem::CaseInsensitive => 'i',
        FlagItem::MultiLine => 'm',
        FlagItem::DotMatchesNewLine => 's',
        FlagItem::SwapGreed => 'U',
        FlagItem::Unicode => 'u',
        FlagItem::IgnoreWhitespace => 'x',
        FlagItem::CRLF => 'R',
    }
}

/// The letters of an inline-flag set, in order.
pub open spec fn spec_flags_text(items: Seq<FlagItem>) -> Seq<char>
    decreases items,
{
    if items.len() == 0 {
        Seq::empty()
    } else {
        spec_flags_text(items.drop_last()) + seq![flag_item_char(items.last())]
    }
}

/// Renders an inline-flag set as its letters.
pub fn flags_to_string(items: &Vec<FlagItem>) -> (r: Vec<char>)
    ensures
        r@ == spec_flags_text(items@),
{
    let mut r: Vec<char> = Vec::new();
    let mut i: usize = 0;
    while i < items.len()
        invariant
            i <= items@.len(),
            r@ == spec_flags_text(items@.subrange(0, i as int)),
        decreases items@.len() - i,
    {
        let ghost pre = items@.subrange(0, i as int);
        let c = match items[i] {
            FlagItem::Negation => '-',
            FlagItem::CaseInsensitive => 'i',
            FlagItem::MultiLine => 'm',
            FlagItem::DotMatchesNewLine => 's',
            FlagItem::SwapGreed => 'U',
            FlagItem::Unicode => 'u',
            FlagItem::IgnoreWhitespace => 'x',
            FlagItem::CRLF => 'R',
        };
        r.push(c);
        proof {
            let next = items@.subrange(0, i + 1);
            assert(next.drop_last() =~= pre);
            assert(next.last() == items@[i as int]);
            assert(r@ =~= spec_flags_text(next));
        }
        i += 1;
    }
    proof {
        assert(items@.subrange(0, items@.len() as int) =~= items@);
    }
    r
}

/// The name of one flag, negations aside.
pub open spec fn flag_item_name(f: FlagItem) -> Seq<char> {
    match f {
        FlagItem::Negation => Seq::empty(),
        FlagItem::CaseInsensitive => "case-insensitive"@,
        FlagItem::MultiLine => "multi-line mode"@,
        FlagItem::DotMatchesNewLine => "dot matches newline"@,
        FlagItem::SwapGreed => "swap greedy/non-greedy"@,
        FlagItem::Unicode => "unicode mode"@,
        FlagItem::IgnoreWhitespace => "ignore whitespace"@,
        FlagItem::CRLF => "CRLF mode"@,
    }
}

/// Describes an inline-flag set: the flag names, joined with commas,
/// after the word `Enable`.
pub fn describe_flags(items: &Vec<FlagItem>) -> (r: String)
    ensures
        r@ == flags_desc(items@),
{
    let mut names: Vec<String> = Vec::new();
    let mut i: usize = 0;
    while i < items.len()
        invariant
            i <= items@.len(),
            crate::scan::views_of(names@) == flag_name_list(items@.subrange(0, i as int)),
        decreases items@.len() - i,
    {
        let ghost pre = items@.subrange(0, i as int);
        match items[i] {
            FlagItem::Negation => {},
            FlagItem::CaseInsensitive => names.push(String::from_str("case-insensitive")),
            FlagItem::MultiLine => names.push(String::from_str("multi-line mode")),
            FlagItem::DotMatchesNewLine => names.push(String::from_str("dot matches newline")),
            FlagItem::SwapGreed => names.push(String::from_str("swap greedy/non-greedy")),
            FlagItem::Unicode => names.push(String::from_str("unicode mode")),
            FlagItem::IgnoreWhitespace => names.push(String::from_str("ignore whitespace")),
            FlagItem::CRLF => names.push(String::from_str("CRLF mode")),
        }
        proof {
            let next = items@.subrange(0, i + 1);
            assert(next.drop_last() =~= pre);
            assert(next.last() == items@[i as int]);
            assert(crate::scan::views_of(names@) =~= flag_name_list(next));
        }
        i += 1;
    }
    proof {
        assert(items@.subrange(0, items@.len() as int) =~= items@);
    }
    let mut r = String::from_str("Enable ");
    let joined = crate::scan::join_strings(&names, ", ");
    r.append(joined.as_str());
    r
}

/// An `ExplainPart` leaf: no quantifier, group or children.
fn leaf_part(token: String, token_type: &str, desc: String) -> (r: ExplainPart)
    ensures
        r.token@ == token@,
        r.token_type@ == token_type@,
        r.desc@ == desc@,
        r.quantifier is None,
        r.group is None,
        r.children is None,
        part_wf(r),
{
    ExplainPart {
        token,
        token_type: String::from_str(token_type),
        desc,
        quantifier: None,
        group: None,
        children: None,
    }
}

/// A single-part vector around a well-formed part.
fn single_part(p: ExplainPart) -> (r: Vec<ExplainPart>)
    requires
        part_wf(p),
    ensures
        r@.len() == 1,
        r@[0] == p,
        parts_wf(r@),
{
    let mut r: Vec<ExplainPart> = Vec::new();
    r.push(p);
    proof {
        assert(parts_wf(r@.drop_last()));
    }
    r
}

// === The tree decomposition ===

/// Decomposes a parsed tree into explanation parts; every part satisfies
/// the children invariant and the whole list is pinned, node kind by node
/// kind, by `explains`.
pub fn explain_tree(t: &ReAst) -> (r: Vec<ExplainPart>)
    ensures
        parts_wf(r@),
        explains(*t, r@),
    decreases *t, 1int,
{
    match t {
        ReAst::Empty => {
            let r: Vec<ExplainPart> = Vec::new();
            proof {
                assert(parts_wf(r@));
            }
            r
        },
        ReAst::Flags(items) => {
            let letters = flags_to_string(items);
            let mut token = String::from_str("(?");
            token.append(string_from_chars(&letters).as_str());
            token.append(")");
            let p = leaf_part(token, "flags", describe_flags(items));
            proof {
                assert(p.token@ == flags_token(items@));
            }
            single_part(p)
        },
        ReAst::Literal(c) => {
            let mut one: Vec<char> = Vec::new();
            one.push(*c);
            proof {
                assert(one@ =~= seq![*c]);
            }
            let token = string_from_chars(&one);
            let desc = if crate::scan::alnum(*c) {
                let mut d = String::from_str("Literal '");
                d.append(token.as_str());
                d.append("'");
                d
            } else {
                let mut d = String::from_str("Literal '");
                d.append(token.as_str());
                d.append("' (U+");
                let hex = hex4_chars(*c as u32);
                d.append(string_from_chars(&hex).as_str());
                d.append(")");
                d
            };
            proof {
                assert(desc@ == literal_desc(*c));
            }
            let p = leaf_part(token, "literal", desc);
            single_part(p)
        },
        ReAst::Dot => {
            let p = leaf_part(
                String::from_str("."),
                "any_char",
                String::from_str("Matches any character (except newline by default)"),
            );
            single_part(p)
        },
        ReAst::Assertion(k) => {
            let (token, desc): (&str, &str) = match k {
                AssertKind::StartLine => ("^", "Start of line/string"),
                AssertKind::EndLine => ("$", "End of line/string"),
                AssertKind::StartText => ("\\A", "Start of text (absolute)"),
                AssertKind::EndText => ("\\z", "End of text (absolute)"),
                AssertKind::WordBoundary => ("\\b", "Word boundary"),
                AssertKind::NotWordBoundary => ("\\B", "Non-word boundary"),
                AssertKind::WordBoundaryStart => ("\\<", "Start of word"),
                AssertKind::WordBoundaryEnd => ("\\>", "End of word"),
                AssertKind::WordBoundaryStartHalf => ("\\b{start}", "Start of word boundary"),
                AssertKind::WordBoundaryEndHalf => ("\\b{end}", "End of word boundary"),
            };
            let p = leaf_part(String::from_str(token), "anchor", String::from_str(desc));
            proof {
                assert(p.token@ == assertion_token(*k));
                assert(p.desc@ == assertion_desc(*k));
            }
            single_part(p)
        },
        ReAst::ClassUnicode { negated, kind } => {
            let desc = match kind {
                UniKind::OneLetter(c) => describe_unicode_class(*c),
                UniKind::Named(name) => {
                    let mut d = String::from_str("Unicode property: ");
                    d.append(name.as_str());
                    d
                },
                UniKind::NamedValue(name, value) => {
                    let mut d = String::from_str("Unicode ");
                    d.append(name.as_str());
                    d.append("=");
                    d.append(value.as_str());
                    d
                },
            };
            let kind_str = match kind {
                UniKind::OneLetter(c) => {
                    let mut one: Vec<char> = Vec::new();
                    one.push(*c);
                    proof {
                        assert(one@ =~= seq![*c]);
                    }
                    string_from_chars(&one)
                },
                UniKind::Named(name) => name.clone(),
                UniKind::NamedValue(name, value) => {
                    let mut str0 = name.clone();
                    str0.append("=");
                    str0.append(value.as_str());
                    str0
                },
            };
            let mut token = if *negated {
                String::from_str("\\P{")
            } else {
                String::from_str("\\p{")
            };
            token.append(kind_str.as_str());
            token.append("}");
            proof {
                assert(kind_str@ == unicode_kind_text(*kind));
                assert(token@ == unicode_token(*negated, *kind));
                assert(desc@ == unicode_desc(*kind));
            }
            let p = leaf_part(token, "unicode_class", desc);
            single_part(p)
        },
        ReAst::ClassPerl { negated, kind } => {
            let (token, desc): (&str, &str) = match (kind, *negated) {
                (PerlKind::Digit, false) => ("\\d", "Digit character [0-9]"),
                (PerlKind::Digit, true) => ("\\D", "Non-digit character"),
                (PerlKind::Space, false) => ("\\s", "Whitespace character"),
                (PerlKind::Space, true) => ("\\S", "Non-whitespace character"),
                (PerlKind::Word, false) => ("\\w", "Word character [a-zA-Z0-9_]"),
                (PerlKind::Word, true) => ("\\W", "Non-word character"),
            };
            let p = leaf_part(String::from_str(token), "perl_class", String::from_str(desc));
            proof {
                assert(p.token@ == perl_token(*kind, *negated));
                assert(p.desc@ == perl_desc(*kind, *negated));
            }
            single_part(p)
        },
        ReAst::ClassBracketed { negated, set, text } => {
            let mut desc = String::from_str("Character class: matches ");
            if *negated {
                desc.append("not ");
            }
            desc.append("one of the specified characters");
            proof {
                assert(desc@ =~= bracketed_desc(*negated));
            }
            let p = leaf_part(text.clone(), "character_class", desc);
            single_part(p)
        },
        ReAst::Repetition { op, greedy, child, child_text, text } => {
            let mut child_parts = explain_tree(&**child);
            let ghost cp = child_parts@;
            match op {
                RepOp::Exactly(n) => {
                    let mut token = child_text.clone();
                    token.append("{");
                    push_dec(&mut token, *n as u64);
                    token.append("}");
                    let mut desc = String::from_str("Exactly ");
                    push_dec(&mut desc, *n as u64);
                    desc.append(" of the preceding element");
                    let mut q = String::from_str("{");
                    push_dec(&mut q, *n as u64);
                    q.append("}");
                    proof {
                        assert(token@ == ranged_token(*op, child_text@));
                        assert(desc@ == ranged_desc(*op));
                        assert(q@ == ranged_quant(*op));
                    }
                    let r = range_repetition_part(token, desc, q, child_parts);
                    proof {
                        assert(cp.len() >= 0);
                        assert(explains(**child, cp));
                        assert(ranged_part_pin(*op, child_text@, cp, r@));
                        assert(rep_pin(*op, *greedy, child_text@, text@, cp, r@));
                        assert(explains(*t, r@));
                    }
                    r
                },
                RepOp::AtLeast(n) => {
                    let mut token = child_text.clone();
                    token.append("{");
                    push_dec(&mut token, *n as u64);
                    token.append(",}");
                    let mut desc = String::new();
                    push_dec(&mut desc, *n as u64);
                    desc.append(" or more of the preceding element");
                    let mut q = String::from_str("{");
                    push_dec(&mut q, *n as u64);
                    q.append(",}");
                    proof {
                        assert(token@ == ranged_token(*op, child_text@));
                        assert(desc@ =~= ranged_desc(*op));
                        assert(q@ == ranged_quant(*op));
                    }
                    let r = range_repetition_part(token, desc, q, child_parts);
                    proof {
                        assert(cp.len() >= 0);
                        assert(explains(**child, cp));
                        assert(ranged_part_pin(*op, child_text@, cp, r@));
                        assert(rep_pin(*op, *greedy, child_text@, text@, cp, r@));
                        assert(explains(*t, r@));
                    }
                    r
                },
                RepOp::Bounded(m, n) => {
                    let mut token = child_text.clone();
                    token.append("{");
                    push_dec(&mut token, *m as u64);
                    token.append(",");
                    push_dec(&mut token, *n as u64);
                    token.append("}");
                    let mut desc = String::from_str("Between ");
                    push_dec(&mut desc, *m as u64);
                    desc.append(" and ");
                    push_dec(&mut desc, *n as u64);
                    desc.append(" of the preceding element");
                    let mut q = String::from_str("{");
                    push_dec(&mut q, *m as u64);
                    q.append(",");
                    push_dec(&mut q, *n as u64);
                    q.append("}");
                    proof {
                        assert(token@ == ranged_token(*op, child_text@));
                        assert(desc@ == ranged_desc(*op));
                        assert(q@ == ranged_quant(*op));
                    }
                    let r = range_repetition_part(token, desc, q, child_parts);
                    proof {
                        assert(cp.len() >= 0);
                        assert(explains(**child, cp));
                        assert(ranged_part_pin(*op, child_text@, cp, r@));
                        assert(rep_pin(*op, *greedy, child_text@, text@, cp, r@));
                        assert(explains(*t, r@));
                    }
                    r
                },
                _ => {
                    let quantifier: &str = match op {
                        RepOp::ZeroOrOne => "?",
                        RepOp::ZeroOrMore => "*",
                        _ => "+",
                    };
                    let mut desc = match op {
                        RepOp::ZeroOrOne => String::from_str("Zero or one"),
                        RepOp::ZeroOrMore => String::from_str("Zero or more"),
                        _ => String::from_str("One or more"),
                    };
                    if !*greedy {
                        desc.append(" (non-greedy)");
                    }
                    proof {
                        assert(desc@ =~= simple_rep_desc(*op, *greedy));
                    }
                    if child_parts.len() == 1 {
                        // merge the quantifier into the single child
                        let part = match child_parts.pop() {
                            Some(p) => p,
                            None => {
                                // unreachable: the length was checked
                                leaf_part(String::new(), "literal", String::new())
                            },
                        };
                        proof {
                            assert(cp.len() == 1);
                            assert(part == cp.last());
                            assert(part == cp[0]);
                            assert(part_wf(part));
                        }
                        let mut q = String::from_str(quantifier);
                        if !*greedy {
                            q.append("?");
                        }
                        let mut token = part.token;
                        token.append(quantifier);
                        if !*greedy {
                            token.append("?");
                        }
                        let mut ndesc = part.desc;
                        ndesc.append(" (");
                        ndesc.append(desc.as_str());
                        ndesc.append(")");
                        let merged = ExplainPart {
                            token,
                            token_type: part.token_type,
                            desc: ndesc,
                            quantifier: Some(q),
                            group: part.group,
                            children: part.children,
                        };
                        proof {
                            assert(part_wf(merged));
                            assert(merged.token@ =~= cp[0].token@ + simple_quant(*op) + (
                            if *greedy {
                                Seq::<char>::empty()
                            } else {
                                "?"@
                            }));
                            assert(merged.quantifier matches Some(qq) && qq@ =~= simple_quant(
                                *op,
                            ) + (if *greedy {
                                Seq::<char>::empty()
                            } else {
                                "?"@
                            }));
                        }
                        let r = single_part(merged);
                        proof {
                            assert(cp.len() >= 0);
                            assert(explains(**child, cp));
                            assert(r@[0] == merged);
                            assert(rep_pin(*op, *greedy, child_text@, text@, cp, r@));
                            assert(explains(*t, r@));
                        }
                        r
                    } else {
                        let p = ExplainPart {
                            token: text.clone(),
                            token_type: String::from_str("repetition"),
                            desc,
                            quantifier: Some(String::from_str(quantifier)),
                            group: None,
                            children: Some(child_parts),
                        };
                        proof {
                            assert(part_wf(p));
                        }
                        let r = single_part(p);
                        proof {
                            assert(cp.len() >= 0);
                            assert(explains(**child, cp));
                            assert(rep_pin(*op, *greedy, child_text@, text@, cp, r@));
                            assert(explains(*t, r@));
                        }
                        r
                    }
                },
            }
        },
        ReAst::Group { kind, child, text } => {
            let children = explain_tree(&**child);
            let ghost cp = children@;
            let (token_type, desc, group_num): (&str, String, Option<usize>) = match kind {
                ReGroupKind::CaptureIndex(index) => (
                    "capturing_group",
                    String::from_str("Capturing group"),
                    Some(*index as usize),
                ),
                ReGroupKind::NonCapturing => (
                    "non_capturing_group",
                    String::from_str("Non-capturing group"),
                    None,
                ),
                ReGroupKind::CaptureName(name) => {
                    let mut d = String::from_str("Named capture: ");
                    d.append(name.as_str());
                    ("named_group", d, None)
                },
            };
            let kids: Option<Vec<ExplainPart>> = if children.len() == 0 {
                None
            } else {
                Some(children)
            };
            let p = ExplainPart {
                token: text.clone(),
                token_type: String::from_str(token_type),
                desc,
                quantifier: None,
                group: group_num,
                children: kids,
            };
            proof {
                assert(part_wf(p));
            }
            let r = single_part(p);
            proof {
                assert(cp.len() >= 0);
                assert(explains(**child, cp));
                assert(explains(*t, r@));
            }
            r
        },
        ReAst::Alternation { children, branch_texts, text } => {
            let mut branches: Vec<ExplainPart> = Vec::new();
            let mut k: usize = 0;
            while k < children.len()
                invariant
                    k <= children@.len(),
                    (*t matches ReAst::Alternation { children: tc, branch_texts: tt, .. } && tc
                        == *children && tt == *branch_texts),
                    parts_wf(branches@),
                    explains_branches(
                        children@.subrange(0, k as int),
                        branch_texts@,
                        branches@,
                    ),
                decreases children@.len() - k,
            {
                proof {
                    assert(decreases_to!(*t => *children));
                    assert(decreases_to!(*children => children[k as int]));
                    assert(decreases_to!(*t => children[k as int]));
                }
                let ghost pre = children@.subrange(0, k as int);
                let ghost bpre = branches@;
                let sub = explain_tree(&children[k]);
                let btoken = if k < branch_texts.len() {
                    branch_texts[k].clone()
                } else {
                    String::new()
                };
                let b = ExplainPart {
                    token: btoken,
                    token_type: String::from_str("branch"),
                    desc: String::from_str("Alternative branch"),
                    quantifier: None,
                    group: None,
                    children: Some(sub),
                };
                proof {
                    assert(part_wf(b));
                    lemma_parts_wf_push(branches@, b);
                }
                branches.push(b);
                proof {
                    let next = children@.subrange(0, k + 1);
                    assert(next.drop_last() =~= pre);
                    assert(next.last() == children@[k as int]);
                    assert(branches@.drop_last() =~= bpre);
                    assert(branches@.last() == b);
                    assert(explains_branches(next, branch_texts@, branches@));
                }
                k += 1;
            }
            proof {
                assert(children@.subrange(0, children@.len() as int) =~= children@);
            }
            let mut desc = String::from_str("Match one of ");
            push_dec(&mut desc, children.len() as u64);
            desc.append(" alternatives");
            let p = ExplainPart {
                token: text.clone(),
                token_type: String::from_str("alternation"),
                desc,
                quantifier: None,
                group: None,
                children: Some(branches),
            };
            proof {
                assert(part_wf(p));
            }
            let r = single_part(p);
            proof {
                assert(explains(*t, r@));
            }
            r
        },
        ReAst::Concat(cs) => {
            let mut r: Vec<ExplainPart> = Vec::new();
            let mut k: usize = 0;
            while k < cs.len()
                invariant
                    k <= cs@.len(),
                    *t is Concat,
                    (*t)->Concat_0 == *cs,
                    parts_wf(r@),
                    explains_concat(cs@.subrange(0, k as int), r@),
                decreases cs@.len() - k,
            {
                proof {
                    assert(decreases_to!(*t => *cs));
                    assert(decreases_to!(*cs => cs[k as int]));
                }
                let ghost pre = cs@.subrange(0, k as int);
                let ghost rpre = r@;
                let mut sub = explain_tree(&cs[k]);
                let ghost subv = sub@;
                proof {
                    lemma_parts_wf_append(r@, sub@);
                }
                r.append(&mut sub);
                proof {
                    let next = cs@.subrange(0, k + 1);
                    assert(next.drop_last() =~= pre);
                    assert(next.last() == cs@[k as int]);
                    assert(r@ == rpre + subv);
                    assert(r@.subrange(0, rpre.len() as int) =~= rpre);
                    assert(r@.subrange(rpre.len() as int, r@.len() as int) =~= subv);
                    assert(next.len() > 0);
                    assert(explains_concat(next.drop_last(), r@.subrange(0, rpre.len() as int)));
                    assert(explains(next.last(), r@.subrange(rpre.len() as int, r@.len() as int)));
                    assert(explains_concat(next, r@)) by {
                        reveal_with_fuel(explains_concat, 2);
                        let k0 = rpre.len() as int;
                        assert(0 <= k0 <= r@.len());
                        assert(explains_concat(next.drop_last(), r@.subrange(0, k0)) && explains(
                            next.last(),
                            r@.subrange(k0, r@.len() as int),
                        ));
                    }
                }
                k += 1;
            }
            proof {
                assert(cs@.subrange(0, cs@.len() as int) =~= cs@);
            }
            r
        },
    }
}

/// Wraps a ranged repetition: the child parts become children only when
/// there are several of them.
fn range_repetition_part(token: String, desc: String, quantifier: String, child_parts: Vec<
    ExplainPart,
>) -> (r: Vec<ExplainPart>)
    requires
        parts_wf(child_parts@),
    ensures
        parts_wf(r@),
        r@.len() == 1,
        r@[0].token@ == token@,
        r@[0].token_type@ == "repetition"@,
        r@[0].desc@ == desc@,
        (r@[0].quantifier matches Some(q) && q@ == quantifier@),
        r@[0].group is None,
        child_parts@.len() > 1 ==> (r@[0].children matches Some(v) && v@ == child_parts@),
        child_parts@.len() <= 1 ==> r@[0].children is None,
{
    let kids: Option<Vec<ExplainPart>> = if child_parts.len() > 1 {
        Some(child_parts)
    } else {
        None
    };
    let p = ExplainPart {
        token,
        token_type: String::from_str("repetition"),
        desc,
        quantifier: Some(quantifier),
        group: None,
        children: kids,
    };
    proof {
        assert(part_wf(p));
    }
    single_part(p)
}

// === Summary generation ===

/// A vowel, for choosing the article.
pub open spec fn is_vowel(c: char) -> bool {
    c == 'A' || c == 'E' || c == 'I' || c == 'O' || c == 'U' || c == 'a' || c == 'e' || c == 'i'
        || c == 'o' || c == 'u'
}

/// The format name with its article.
pub open spec fn spec_article(name: Seq<char>) -> Seq<char> {
    if name.len() > 0 && is_vowel(name[0]) {
        "an "@ + name
    } else {
        "a "@ + name
    }
}

/// Prefixes a format name with `a` or `an`.
pub fn format_name_article(name: &str) -> (r: String)
    ensures
        r@ == spec_article(name@),
{
    let cs = chars_of(name);
    let vowel = if cs.len() > 0 {
        let c = cs[0];
        c == 'A' || c == 'E' || c == 'I' || c == 'O' || c == 'U' || c == 'a' || c == 'e' || c
            == 'i' || c == 'o' || c == 'u'
    } else {
        false
    };
    let mut r = if vowel {
        String::from_str("an ")
    } else {
        String::from_str("a ")
    };
    r.append(name);
    r
}

/// The brief class names the child summary keeps, in order.
pub open spec fn spec_child_descs(children: Seq<ExplainPart>) -> Seq<Seq<char>>
    decreases children,
{
    if children.len() == 0 {
        Seq::empty()
    } else {
        let rest = spec_child_descs(children.drop_last());
        let c = children.last();
        if c.token_type@ == "perl_class"@ {
            rest.push(
                if c.token@ == "\\d"@ {
                    "digits"@
                } else if c.token@ == "\\w"@ {
                    "word chars"@
                } else if c.token@ == "\\s"@ {
                    "whitespace"@
                } else {
                    "characters"@
                },
            )
        } else if c.token_type@ == "literal"@ {
            rest.push("literal"@)
        } else if c.token_type@ == "any_char"@ {
            rest.push("any char"@)
        } else if c.token_type@ == "character_class"@ {
            rest.push("char class"@)
        } else {
            rest
        }
    }
}

/// The child summary: the kept class names joined with plus signs, or
/// `group` when none contributes.
pub open spec fn spec_summarize(children: Seq<ExplainPart>) -> Seq<char> {
    if spec_child_descs(children).len() == 0 {
        "group"@
    } else {
        crate::scan::spec_join(spec_child_descs(children), " + "@)
    }
}

/// Summarizes child parts into a brief description: their class names
/// joined with plus signs, or `group` when none of them contributes.
pub fn summarize_children(children: &Vec<ExplainPart>) -> (r: String)
    ensures
        r@ == spec_summarize(children@),
{
    let mut descs: Vec<String> = Vec::new();
    let mut i: usize = 0;
    while i < children.len()
        invariant
            i <= children@.len(),
            crate::scan::views_of(descs@) == spec_child_descs(children@.subrange(0, i as int)),
        decreases children@.len() - i,
    {
        let ghost pre = children@.subrange(0, i as int);
        let c = &children[i];
        let tt = chars_of(c.token_type.as_str());
        if crate::scan::eq_str(&tt, "perl_class") {
            let tok = chars_of(c.token.as_str());
            if crate::scan::eq_str(&tok, "\\d") {
                descs.push(String::from_str("digits"));
            } else if crate::scan::eq_str(&tok, "\\w") {
                descs.push(String::from_str("word chars"));
            } else if crate::scan::eq_str(&tok, "\\s") {
                descs.push(String::from_str("whitespace"));
            } else {
                descs.push(String::from_str("characters"));
            }
        } else if crate::scan::eq_str(&tt, "literal") {
            descs.push(String::from_str("literal"));
        } else if crate::scan::eq_str(&tt, "any_char") {
            descs.push(String::from_str("any char"));
        } else if crate::scan::eq_str(&tt, "character_class") {
            descs.push(String::from_str("char class"));
        }
        proof {
            let next = children@.subrange(0, i + 1);
            assert(next.drop_last() =~= pre);
            assert(next.last() == children@[i as int]);
            assert(crate::scan::views_of(descs@) =~= spec_child_descs(next));
        }
        i += 1;
    }
    proof {
        assert(children@.subrange(0, children@.len() as int) =~= children@);
    }
    if descs.len() == 0 {
        String::from_str("group")
    } else {
        crate::scan::join_strings(&descs, " + ")
    }
}

/// The base of a perl-class token: trailing quantifier characters
/// removed.
pub open spec fn spec_trim_class(t: Seq<char>) -> Seq<char>
    decreases t,
{
    if t.len() == 0 {
        t
    } else if crate::scan::is_alnum(t.last()) || t.last() == '\\' {
        t
    } else {
        spec_trim_class(t.drop_last())
    }
}

/// The base of a perl-class token, as a vector.
fn trim_class_token(token: &str) -> (r: Vec<char>)
    ensures
        r@ == spec_trim_class(token@),
{
    let mut cs = chars_of(token);
    let mut stop = false;
    while !stop && cs.len() > 0
        invariant
            spec_trim_class(token@) == spec_trim_class(cs@),
            stop ==> cs@ == spec_trim_class(token@),
        decreases cs@.len(), (if stop {
            0int
        } else {
            1int
        }),
    {
        let c = cs[cs.len() - 1];
        if crate::scan::alnum(c) || c == '\\' {
            proof {
                assert(spec_trim_class(cs@) == cs@);
            }
            stop = true;
        } else {
            let ghost before = cs@;
            cs.pop();
            proof {
                assert(cs@ =~= before.drop_last());
            }
        }
    }
    proof {
        if !stop {
            assert(cs@.len() == 0);
            assert(spec_trim_class(cs@) == cs@);
        }
    }
    cs
}

/// All but the last character.
pub open spec fn spec_drop_last_char(s: Seq<char>) -> Seq<char> {
    if s.len() > 0 {
        s.drop_last()
    } else {
        s
    }
}

/// All but the last character, as a string.
fn drop_last_char(s: &str) -> (r: String)
    ensures
        r@ == spec_drop_last_char(s@),
{
    let mut cs = chars_of(s);
    let ghost before = cs@;
    if cs.len() > 0 {
        cs.pop();
        proof {
            assert(cs@ =~= before.drop_last());
        }
    }
    string_from_chars(&cs)
}

/// The class noun of a perl-class token base.
pub open spec fn spec_class_desc(base: Seq<char>) -> Seq<char> {
    if base == "\\d"@ {
        "digits"@
    } else if base == "\\D"@ {
        "non-digits"@
    } else if base == "\\w"@ {
        "word characters"@
    } else if base == "\\W"@ {
        "non-word characters"@
    } else if base == "\\s"@ {
        "whitespace"@
    } else if base == "\\S"@ {
        "non-whitespace"@
    } else {
        "characters"@
    }
}

/// The fragment of a perl-class part: the class noun, shaped by the
/// quantifier.
pub open spec fn spec_perl_fragment(p: ExplainPart) -> Seq<char> {
    let cd = spec_class_desc(spec_trim_class(p.token@));
    match p.quantifier {
        Some(q) => if q@ == "+"@ {
            "one or more "@ + cd
        } else if q@ == "*"@ {
            "zero or more "@ + cd
        } else if q@ == "?"@ {
            "an optional "@ + spec_drop_last_char(cd)
        } else {
            cd + " ("@ + q@ + ")"@
        },
        None => "a "@ + spec_drop_last_char(cd),
    }
}

/// The natural-language fragment for one perl class token.
fn perl_class_fragment(part: &ExplainPart) -> (r: String)
    ensures
        r@ == spec_perl_fragment(*part),
{
    let base = trim_class_token(part.token.as_str());
    let class_desc: &str = if crate::scan::eq_str(&base, "\\d") {
        "digits"
    } else if crate::scan::eq_str(&base, "\\D") {
        "non-digits"
    } else if crate::scan::eq_str(&base, "\\w") {
        "word characters"
    } else if crate::scan::eq_str(&base, "\\W") {
        "non-word characters"
    } else if crate::scan::eq_str(&base, "\\s") {
        "whitespace"
    } else if crate::scan::eq_str(&base, "\\S") {
        "non-whitespace"
    } else {
        "characters"
    };
    proof {
        assert(class_desc@ == spec_class_desc(spec_trim_class(part.token@)));
    }
    match &part.quantifier {
        Some(q) => {
            let qv = chars_of(q.as_str());
            if crate::scan::eq_str(&qv, "+") {
                let mut r = String::from_str("one or more ");
                r.append(class_desc);
                r
            } else if crate::scan::eq_str(&qv, "*") {
                let mut r = String::from_str("zero or more ");
                r.append(class_desc);
                r
            } else if crate::scan::eq_str(&qv, "?") {
                let mut r = String::from_str("an optional ");
                let singular = drop_last_char(class_desc);
                r.append(singular.as_str());
                r
            } else {
                let mut r = String::from_str(class_desc);
                r.append(" (");
                r.append(q.as_str());
                r.append(")");
                r
            }
        },
        None => {
            let mut r = String::from_str("a ");
            let singular = drop_last_char(class_desc);
            r.append(singular.as_str());
            r
        },
    }
}

/// The description of each alternation branch: its child summary, or its
/// token when it carries no children.
pub open spec fn spec_branch_descs(bs: Seq<ExplainPart>) -> Seq<Seq<char>>
    decreases bs,
{
    if bs.len() == 0 {
        Seq::empty()
    } else {
        spec_branch_descs(bs.drop_last()).push(
            match bs.last().children {
                Some(cc) => spec_summarize(cc@),
                None => bs.last().token@,
            },
        )
    }
}

/// The fragment one part contributes to the structural summary, if any:
/// anchors and unknown token types contribute none.
pub open spec fn spec_fragment(p: ExplainPart) -> Option<Seq<char>> {
    if p.token_type@ == "anchor"@ {
        None
    } else if p.token_type@ == "capturing_group"@ {
        Some(
            match p.children {
                Some(cs) => "a captured "@ + spec_summarize(cs@),
                None => "a captured group"@,
            },
        )
    } else if p.token_type@ == "alternation"@ {
        match p.children {
            Some(bs) => {
                let bd = spec_branch_descs(bs@);
                Some(
                    if bd.len() <= 3 {
                        "either "@ + crate::scan::spec_join(bd, " or "@)
                    } else {
                        "one of "@ + dec_rep(bd.len() as int) + " alternatives"@
                    },
                )
            },
            None => None,
        }
    } else if p.token_type@ == "perl_class"@ {
        Some(spec_perl_fragment(p))
    } else if p.token_type@ == "literal"@ {
        Some("'"@ + p.token@ + "'"@)
    } else if p.token_type@ == "any_char"@ {
        Some(
            match p.quantifier {
                Some(q) => if q@ == "*"@ || q@ == "*?"@ {
                    "any text"@
                } else if q@ == "+"@ || q@ == "+?"@ {
                    "some text"@
                } else {
                    "any character"@
                },
                None => "any character"@,
            },
        )
    } else if p.token_type@ == "character_class"@ {
        Some("characters matching "@ + p.token@)
    } else if p.token_type@ == "repetition"@ {
        Some(p.desc@)
    } else {
        None
    }
}

/// The fragments of a part list, in order.
pub open spec fn spec_fragments(parts: Seq<ExplainPart>) -> Seq<Seq<char>>
    decreases parts,
{
    if parts.len() == 0 {
        Seq::empty()
    } else {
        let rest = spec_fragments(parts.drop_last());
        match spec_fragment(parts.last()) {
            Some(f) => rest.push(f),
            None => rest,
        }
    }
}

/// An anchor part with the given token is present.
pub open spec fn anchor_present(parts: Seq<ExplainPart>, tok: Seq<char>) -> bool {
    exists|i: int|
        0 <= i < parts.len() && (#[trigger] parts[i]).token_type@ == "anchor"@ && parts[i].token@
            == tok
}

/// The anchor qualifier the summary ends with.
pub open spec fn spec_anchor_suffix(parts: Seq<ExplainPart>) -> Seq<char> {
    if anchor_present(parts, "^"@) && anchor_present(parts, "$"@) {
        " (full line match)"@
    } else if anchor_present(parts, "^"@) {
        " (at start of line)"@
    } else if anchor_present(parts, "$"@) {
        " (at end of line)"@
    } else {
        Seq::empty()
    }
}

/// The structural summary: the fragments joined with `, then`, after
/// `Matches `, with the anchor qualifier.
pub open spec fn structural_summary(parts: Seq<ExplainPart>) -> Seq<char> {
    "Matches "@ + crate::scan::spec_join(spec_fragments(parts), ", then "@)
        + spec_anchor_suffix(parts)
}

/// Generates the summary of a pattern from its parts.
///
/// Semantic recognition against the template library comes first; then
/// the structural rendering: the per-part fragments joined with `, then`,
/// with the anchor qualifier, or a fixed line when no part contributes.
pub fn generate_summary(pattern: &str, parts: &Vec<ExplainPart>) -> (r: String)
    ensures
        parts@.len() == 0 ==> r@ == "Empty pattern"@,
        parts@.len() > 0 ==> (crate::templates::recognized_desc(pattern@) matches Some(d)
            ==> r@ == "Matches "@ + spec_article(d)),
        (parts@.len() > 0 && crate::templates::recognized_desc(pattern@) is None
            && spec_fragments(parts@).len() == 0) ==> r@ == "Matches the specified pattern"@,
        (parts@.len() > 0 && crate::templates::recognized_desc(pattern@) is None
            && spec_fragments(parts@).len() > 0) ==> r@ == structural_summary(parts@),
        r@.len() > 0,
{
    proof {
        reveal_strlit("Empty pattern");
        reveal_strlit("Matches ");
        reveal_strlit("Matches the specified pattern");
        reveal_strlit("^");
        reveal_strlit("$");
        assert("^"@ != "$"@) by {
            assert("^"@[0] == '^');
            assert("$"@[0] == '$');
        }
    }
    if parts.len() == 0 {
        return String::from_str("Empty pattern");
    }
    match recognize_pattern(pattern) {
        Some(format_name) => {
            let mut r = String::from_str("Matches ");
            let named = format_name_article(format_name.as_str());
            r.append(named.as_str());
            return r;
        },
        None => {},
    }
    let mut fragments: Vec<String> = Vec::new();
    let mut has_start_anchor = false;
    let mut has_end_anchor = false;
    let mut i: usize = 0;
    while i < parts.len()
        invariant
            i <= parts@.len(),
            "^"@ != "$"@,
            crate::scan::views_of(fragments@) == spec_fragments(parts@.subrange(0, i as int)),
            has_start_anchor == anchor_present(parts@.subrange(0, i as int), "^"@),
            has_end_anchor == anchor_present(parts@.subrange(0, i as int), "$"@),
        decreases parts@.len() - i,
    {
        let ghost pre = parts@.subrange(0, i as int);
        let part = &parts[i];
        let tt = chars_of(part.token_type.as_str());
        if crate::scan::eq_str(&tt, "anchor") {
            let tok = chars_of(part.token.as_str());
            if crate::scan::eq_str(&tok, "^") {
                has_start_anchor = true;
            } else if crate::scan::eq_str(&tok, "$") {
                has_end_anchor = true;
            }
        } else if crate::scan::eq_str(&tt, "capturing_group") {
            match &part.children {
                Some(children) => {
                    let mut f = String::from_str("a captured ");
                    let child_desc = summarize_children(children);
                    f.append(child_desc.as_str());
                    fragments.push(f);
                },
                None => {
                    fragments.push(String::from_str("a captured group"));
                },
            }
        } else if crate::scan::eq_str(&tt, "alternation") {
            match &part.children {
                Some(branches) => {
                    let mut branch_descs: Vec<String> = Vec::new();
                    let mut b: usize = 0;
                    while b < branches.len()
                        invariant
                            b <= branches@.len(),
                            crate::scan::views_of(branch_descs@) == spec_branch_descs(
                                branches@.subrange(0, b as int),
                            ),
                        decreases branches@.len() - b,
                    {
                        let ghost bpre = branches@.subrange(0, b as int);
                        let br = &branches[b];
                        match &br.children {
                            Some(children) => {
                                branch_descs.push(summarize_children(children));
                            },
                            None => {
                                branch_descs.push(br.token.clone());
                            },
                        }
                        proof {
                            let bnext = branches@.subrange(0, b + 1);
                            assert(bnext.drop_last() =~= bpre);
                            assert(bnext.last() == branches@[b as int]);
                            assert(crate::scan::views_of(branch_descs@) =~= spec_branch_descs(
                                bnext,
                            ));
                        }
                        b += 1;
                    }
                    proof {
                        assert(branches@.subrange(0, branches@.len() as int) =~= branches@);
                    }
                    if branch_descs.len() <= 3 {
                        let mut f = String::from_str("either ");
                        let joined = crate::scan::join_strings(&branch_descs, " or ");
                        f.append(joined.as_str());
                        fragments.push(f);
                    } else {
                        let mut f = String::from_str("one of ");
                        push_dec(&mut f, branch_descs.len() as u64);
                        f.append(" alternatives");
                        fragments.push(f);
                    }
                },
                None => {},
            }
        } else if crate::scan::eq_str(&tt, "perl_class") {
            fragments.push(perl_class_fragment(part));
        } else if crate::scan::eq_str(&tt, "literal") {
            let mut f = String::from_str("'");
            f.append(part.token.as_str());
            f.append("'");
            fragments.push(f);
        } else if crate::scan::eq_str(&tt, "any_char") {
            match &part.quantifier {
                Some(q) => {
                    let qv = chars_of(q.as_str());
                    if crate::scan::eq_str(&qv, "*") || crate::scan::eq_str(&qv, "*?") {
                        fragments.push(String::from_str("any text"));
                    } else if crate::scan::eq_str(&qv, "+") || crate::scan::eq_str(&qv, "+?") {
                        fragments.push(String::from_str("some text"));
                    } else {
                        fragments.push(String::from_str("any character"));
                    }
                },
                None => {
                    fragments.push(String::from_str("any character"));
                },
            }
        } else if crate::scan::eq_str(&tt, "character_class") {
            let mut f = String::from_str("characters matching ");
            f.append(part.token.as_str());
            fragments.push(f);
        } else if crate::scan::eq_str(&tt, "repetition") {
            fragments.push(part.desc.clone());
        }
        proof {
            let next = parts@.subrange(0, i + 1);
            assert(next.drop_last() =~= pre);
            assert(next.last() == parts@[i as int]);
            assert(crate::scan::views_of(fragments@) =~= spec_fragments(next));
            assert forall|tok: Seq<char>|
                anchor_present(next, tok) == (anchor_present(pre, tok) || (parts@[
                i as int].token_type@ == "anchor"@ && parts@[i as int].token@ == tok)) by {
                if anchor_present(pre, tok) {
                    let w = choose|w: int|
                        0 <= w < pre.len() && (#[trigger] pre[w]).token_type@ == "anchor"@
                            && pre[w].token@ == tok;
                    assert(next[w] == pre[w]);
                    assert(anchor_present(next, tok));
                }
                if anchor_present(next, tok) {
                    let w = choose|w: int|
                        0 <= w < next.len() && (#[trigger] next[w]).token_type@ == "anchor"@
                            && next[w].token@ == tok;
                    if w < pre.len() {
                        assert(pre[w] == next[w]);
                        assert(anchor_present(pre, tok));
                    }
                }
                if parts@[i as int].token_type@ == "anchor"@ && parts@[i as int].token@
                    == tok {
                    assert(next[i as int] == parts@[i as int]);
                    assert(anchor_present(next, tok));
                }
            }
        }
        i += 1;
    }
    proof {
        assert(parts@.subrange(0, parts@.len() as int) =~= parts@);
    }
    if fragments.len() == 0 {
        proof {
            assert(crate::scan::sub_at("Matches the specified pattern"@, "Matches "@, 0));
        }
        return String::from_str("Matches the specified pattern");
    }
    let mut summary = String::from_str("Matches ");
    let joined = crate::scan::join_strings(&fragments, ", then ");
    summary.append(joined.as_str());
    if has_start_anchor && has_end_anchor {
        summary.append(" (full line match)");
    } else if has_start_anchor {
        summary.append(" (at start of line)");
    } else if has_end_anchor {
        summary.append(" (at end of line)");
    }
    proof {
        assert(summary@ =~= structural_summary(parts@));
        assert(crate::scan::sub_at(summary@, "Matches "@, 0));
    }
    summary
}

// === The two explanation paths ===

/// The token, type and description of each feature part of a
/// backtracking-only pattern's explanation, in fixed order.
pub open spec fn fancy_triples(f: FancyFeatures) -> Seq<(Seq<char>, Seq<char>, Seq<char>)> {
    let s0 = Seq::<(Seq<char>, Seq<char>, Seq<char>)>::empty();
    let s1 = if f.lookahead {
        s0.push(
            (
                "(?=...) / (?!...)"@,
                "lookahead"@,
                "Lookahead assertion: checks what follows without consuming characters"@,
            ),
        )
    } else {
        s0
    };
    let s2 = if f.lookbehind {
        s1.push(
            (
                "(?<=...) / (?<!...)"@,
                "lookbehind"@,
                "Lookbehind assertion: checks what precedes without consuming characters"@,
            ),
        )
    } else {
        s1
    };
    let s3 = if f.backreference {
        s2.push(
            (
                "\\1, \\2, ..."@,
                "backreference"@,
                "Backreference: matches the same text as a previous capturing group"@,
            ),
        )
    } else {
        s2
    };
    if f.atomic_group {
        s3.push(
            (
                "(?>...)"@,
                "atomic_group"@,
                "Atomic group: prevents backtracking into the group once matched"@,
            ),
        )
    } else {
        s3
    }
}

/// Some parsed tree explains exactly this part list.
pub open spec fn explained_by_some_tree(parts: Seq<ExplainPart>) -> bool {
    exists|t: ReAst| #[trigger] explains(t, parts)
}

/// Every part is the childless part its triple describes.
pub open spec fn leaf_parts_match(
    parts: Seq<ExplainPart>,
    trs: Seq<(Seq<char>, Seq<char>, Seq<char>)>,
) -> bool {
    &&& parts.len() == trs.len()
    &&& forall|i: int|
        0 <= i < parts.len() ==> is_leaf_part(
            #[trigger] parts[i],
            trs[i].0,
            trs[i].1,
            trs[i].2,
        )
}

/// How many feature parts a backtracking-only pattern's explanation
/// holds.
pub open spec fn fancy_part_count(f: FancyFeatures) -> int {
    (if f.lookahead {
        1int
    } else {
        0int
    }) + (if f.lookbehind {
        1int
    } else {
        0int
    }) + (if f.backreference {
        1int
    } else {
        0int
    }) + (if f.atomic_group {
        1int
    } else {
        0int
    })
}

/// Explains a pattern that uses backtracking-only features: one part per
/// detected feature and a summary naming them.
pub fn explain_fancy_pattern(pattern: &str, features: &FancyFeatures) -> (r: Result<
    ExplainResult,
    String,
>)
    ensures
        r is Ok,
        r matches Ok(res) ==> {
            &&& res.pattern@ == pattern@
            &&& parts_wf(res.parts@)
            &&& res.parts@.len() == fancy_part_count(*features)
            &&& leaf_parts_match(res.parts@, fancy_triples(*features))
            &&& res.summary@ == "This pattern uses advanced features ("@ + (
            if features.spec_needs_fancy() {
                "Pattern uses "@ + crate::scan::spec_join(features.reason_parts(), ", "@)
            } else {
                Seq::<char>::empty()
            }) + ") that require the fancy-regex engine"@
        },
{
    let mut parts: Vec<ExplainPart> = Vec::new();
    if features.lookahead {
        let p = leaf_part(
            String::from_str("(?=...) / (?!...)"),
            "lookahead",
            String::from_str(
                "Lookahead assertion: checks what follows without consuming characters",
            ),
        );
        proof {
            lemma_parts_wf_push(parts@, p);
        }
        parts.push(p);
    }
    if features.lookbehind {
        let p = leaf_part(
            String::from_str("(?<=...) / (?<!...)"),
            "lookbehind",
            String::from_str(
                "Lookbehind assertion: checks what precedes without consuming characters",
            ),
        );
        proof {
            lemma_parts_wf_push(parts@, p);
        }
        parts.push(p);
    }
    if features.backreference {
        let p = leaf_part(
            String::from_str("\\1, \\2, ..."),
            "backreference",
            String::from_str(
                "Backreference: matches the same text as a previous capturing group",
            ),
        );
        proof {
            lemma_parts_wf_push(parts@, p);
        }
        parts.push(p);
    }
    if features.atomic_group {
        let p = leaf_part(
            String::from_str("(?>...)"),
            "atomic_group",
            String::from_str("Atomic group: prevents backtracking into the group once matched"),
        );
        proof {
            lemma_parts_wf_push(parts@, p);
        }
        parts.push(p);
    }
    let feature_desc = match features.reason() {
        Some(s) => s,
        None => String::new(),
    };
    let mut summary = String::from_str("This pattern uses advanced features (");
    summary.append(feature_desc.as_str());
    summary.append(") that require the fancy-regex engine");
    proof {
        assert(leaf_parts_match(parts@, fancy_triples(*features)));
    }
    Ok(ExplainResult { pattern: String::from_str(pattern), parts, summary })
}

/// Explains a pattern.
///
/// A pattern with backtracking-only markers is explained feature by
/// feature; otherwise the structural parse is decomposed into a part
/// tree whose nodes all satisfy the children invariant, and summarized.
pub fn explain_pattern(pattern: &str) -> (r: Result<ExplainResult, String>)
    ensures
        FancyFeatures::of(pattern@).spec_needs_fancy() ==> r is Ok,
        !FancyFeatures::of(pattern@).spec_needs_fancy() && !crate::rsyntax::rs_parses(pattern@)
            ==> r is Err,
        r matches Ok(res) ==> res.pattern@ == pattern@ && parts_wf(res.parts@),
        FancyFeatures::of(pattern@).spec_needs_fancy() ==> (r matches Ok(res)
            ==> leaf_parts_match(res.parts@, fancy_triples(FancyFeatures::of(pattern@)))
                && res.summary@ == "This pattern uses advanced features ("@ + "Pattern uses "@
                + crate::scan::spec_join(FancyFeatures::of(pattern@).reason_parts(), ", "@)
                + ") that require the fancy-regex engine"@),
        !FancyFeatures::of(pattern@).spec_needs_fancy() ==> (r matches Ok(res)
            ==> explained_by_some_tree(res.parts@) && res.summary@.len() > 0),
        r matches Err(m) ==> !FancyFeatures::of(pattern@).spec_needs_fancy()
            && crate::scan::starts_with(m@, "Failed to parse pattern: "@),
{
    let fancy_features = detect_fancy_features(pattern);
    if fancy_features.needs_fancy() {
        return explain_fancy_pattern(pattern, &fancy_features);
    }
    match parse_pattern(pattern) {
        Ok(t) => {
            let parts = explain_tree(&t);
            let summary = generate_summary(pattern, &parts);
            proof {
                assert(explains(t, parts@));
                assert(explained_by_some_tree(parts@));
            }
            Ok(ExplainResult { pattern: String::from_str(pattern), parts, summary })
        },
        Err(e) => {
            let mut m = String::from_str("Failed to parse pattern: ");
            m.append(e.message.as_str());
            proof {
                assert(crate::scan::sub_at(m@, "Failed to parse pattern: "@, 0));
            }
            Err(m)
        },
    }
}

} // verus!
