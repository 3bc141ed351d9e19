//! The structural parser's view of a pattern.
//!
//! The `regex-syntax` crate parses a pattern into its abstract syntax tree;
//! this module converts that tree, node by node, into the crate's own
//! `ReAst`, which holds plain values only.  Everything downstream — feature
//! extraction, capture detection, explanation — walks `ReAst` and is
//! verified against it.  Conversion carries an explicit depth bound so that
//! adversarially nested patterns cannot exhaust the stack; exceeding it is
//! reported as a parse failure.

use vstd::prelude::*;

verus! {

use vstd::string::StringExecFns;
use regex_syntax::ast::Ast;
use regex_syntax::ast::AssertionKind as RsAssert;
use regex_syntax::ast::ClassSet;
use regex_syntax::ast::ClassSetItem;

/// A zero-width assertion.
#[derive(Debug, Clone, Copy, PartialEq, Eq, Structural)]
pub enum AssertKind {
    StartLine,
    EndLine,
    StartText,
    EndText,
    WordBoundary,
    NotWordBoundary,
    WordBoundaryStart,
    WordBoundaryEnd,
    WordBoundaryStartHalf,
    WordBoundaryEndHalf,
}

/// A Perl-style character class.
#[derive(Debug, Clone, Copy, PartialEq, Eq, Structural)]
pub enum PerlKind {
    Digit,
    Space,
    Word,
}

/// A Unicode character class.
#[derive(Debug, Clone)]
pub enum UniKind {
    /// `\pL`
    OneLetter(char),
    /// `\p{Greek}`
    Named(String),
    /// `\p{scx=Katakana}`
    NamedValue(String, String),
}

/// One item of an inline flag set such as `(?is-m)`.
#[derive(Debug, Clone, Copy, PartialEq, Eq, Structural)]
pub enum FlagItem {
    Negation,
    CaseInsensitive,
    MultiLine,
    DotMatchesNewLine,
    SwapGreed,
    Unicode,
    IgnoreWhitespace,
    CRLF,
}

/// A repetition operator.
#[derive(Debug, Clone, Copy, PartialEq, Eq, Structural)]
pub enum RepOp {
    ZeroOrOne,
    ZeroOrMore,
    OneOrMore,
    Exactly(u32),
    AtLeast(u32),
    Bounded(u32, u32),
}

/// How a group captures.
#[derive(Debug, Clone)]
pub enum ReGroupKind {
    CaptureIndex(u32),
    CaptureName(String),
    NonCapturing,
}

/// One item of a bracketed class, keeping only what the analyzers read.
#[derive(Debug)]
pub enum ClassItem {
    /// A POSIX class such as `[:alpha:]`.
    Ascii,
    /// A Unicode class inside the brackets.
    Unicode { negated: bool },
    /// A nested bracketed class.
    Bracketed(Box<ClassTree>),
    /// A union of items.
    Union(Vec<ClassItem>),
    /// A literal, range, Perl class or empty item.
    Other,
}

/// The set structure of a bracketed class.
#[derive(Debug)]
pub enum ClassTree {
    Item(ClassItem),
    BinaryOp(Box<ClassTree>, Box<ClassTree>),
}

/// The crate's own pattern syntax tree, in plain values.
///
/// The `text` fields hold the parser's rendering of the node, recorded at
/// conversion time.
#[derive(Debug)]
pub enum ReAst {
    Empty,
    Flags(Vec<FlagItem>),
    Literal(char),
    Dot,
    Assertion(AssertKind),
    ClassUnicode { negated: bool, kind: UniKind },
    ClassPerl { negated: bool, kind: PerlKind },
    ClassBracketed { negated: bool, set: ClassTree, text: String },
    Repetition { op: RepOp, greedy: bool, child: Box<ReAst>, child_text: String, text: String },
    Group { kind: ReGroupKind, child: Box<ReAst>, text: String },
    Alternation { children: Vec<ReAst>, branch_texts: Vec<String>, text: String },
    Concat(Vec<ReAst>),
}

/// The kinds of parse error that validation reports individually.
#[derive(Debug, Clone, Copy, PartialEq, Eq, Structural)]
pub enum AstErrKind {
    GroupUnclosed,
    GroupUnopened,
    EscapeUnexpectedEof,
    ClassUnclosed,
    RepetitionMissing,
    RepetitionCountUnclosed,
    Other,
}

/// A structural parse failure: its kind, byte offset and message.
#[derive(Debug, Clone)]
pub struct AstErrorInfo {
    pub kind: AstErrKind,
    pub offset: usize,
    pub message: String,
}

/// The variant of a parsed node.
#[derive(Debug, Clone, Copy, PartialEq, Eq, Structural)]
pub enum AstTag {
    Empty,
    Flags,
    Literal,
    Dot,
    Assertion,
    ClassUnicode,
    ClassPerl,
    ClassBracketed,
    Repetition,
    Group,
    Alternation,
    Concat,
}

#[verifier::external_type_specification]
#[verifier::external_body]
pub struct ExAst(Ast);

#[verifier::external_type_specification]
#[verifier::external_body]
pub struct ExAstError(regex_syntax::ast::Error);

#[verifier::external_type_specification]
#[verifier::external_body]
pub struct ExClassSet(ClassSet);

#[verifier::external_type_specification]
#[verifier::external_body]
pub struct ExClassSetItem(ClassSetItem);

/// Whether the structural parser accepts `p`; the parse outcome is a
/// function of the pattern alone.
pub uninterp spec fn rs_parses(p: Seq<char>) -> bool;

/// Relies on regex_syntax::ast::parse::Parser::parse: the structural parse
/// of the pattern, which fails for backtracking-only constructs; success
/// depends on the pattern alone.
#[verifier::external_body]
fn rs_parse(pattern: &str) -> (r: Result<Ast, regex_syntax::ast::Error>)
    ensures
        r is Ok <==> rs_parses(pattern@),
{
    regex_syntax::ast::parse::Parser::new().parse(pattern)
}

/// Relies on regex_syntax::ast::Error::kind: which parse error occurred,
/// one arm per kind that validation distinguishes.
#[verifier::external_body]
fn ast_err_kind(e: &regex_syntax::ast::Error) -> (r: AstErrKind) {
    match e.kind() {
        regex_syntax::ast::ErrorKind::GroupUnclosed => AstErrKind::GroupUnclosed,
        regex_syntax::ast::ErrorKind::GroupUnopened => AstErrKind::GroupUnopened,
        regex_syntax::ast::ErrorKind::EscapeUnexpectedEof => AstErrKind::EscapeUnexpectedEof,
        regex_syntax::ast::ErrorKind::ClassUnclosed => AstErrKind::ClassUnclosed,
        regex_syntax::ast::ErrorKind::RepetitionMissing => AstErrKind::RepetitionMissing,
        regex_syntax::ast::ErrorKind::RepetitionCountUnclosed => {
            AstErrKind::RepetitionCountUnclosed
        },
        _ => AstErrKind::Other,
    }
}

/// Relies on regex_syntax::ast::Error::span: the byte offset at which the
/// parse failed.
#[verifier::external_body]
fn ast_err_offset(e: &regex_syntax::ast::Error) -> (r: usize) {
    e.span().start.offset
}

/// Relies on the variant structure of regex_syntax::ast::Ast: which node
/// this is, one arm per variant.
#[verifier::external_body]
fn ast_tag(a: &Ast) -> (r: AstTag) {
    match a {
        Ast::Empty(_) => AstTag::Empty,
        Ast::Flags(_) => AstTag::Flags,
        Ast::Literal(_) => AstTag::Literal,
        Ast::Dot(_) => AstTag::Dot,
        Ast::Assertion(_) => AstTag::Assertion,
        Ast::ClassUnicode(_) => AstTag::ClassUnicode,
        Ast::ClassPerl(_) => AstTag::ClassPerl,
        Ast::ClassBracketed(_) => AstTag::ClassBracketed,
        Ast::Repetition(_) => AstTag::Repetition,
        Ast::Group(_) => AstTag::Group,
        Ast::Alternation(_) => AstTag::Alternation,
        Ast::Concat(_) => AstTag::Concat,
    }
}

/// Relies on regex_syntax::ast::Literal: the character a literal node
/// stands for.
#[verifier::external_body]
fn ast_literal_char(a: &Ast) -> (r: Option<char>) {
    match a {
        Ast::Literal(x) => Some(x.c),
        _ => None,
    }
}

/// Relies on regex_syntax::ast::SetFlags: the items of a flag node, one arm
/// per flag.
#[verifier::external_body]
fn ast_flag_items(a: &Ast) -> (r: Option<Vec<FlagItem>>) {
    match a {
        Ast::Flags(x) => Some(x.flags.items.iter().map(|it| match it.kind {
            regex_syntax::ast::FlagsItemKind::Negation => FlagItem::Negation,
            regex_syntax::ast::FlagsItemKind::Flag(f) => match f {
                regex_syntax::ast::Flag::CaseInsensitive => FlagItem::CaseInsensitive,
                regex_syntax::ast::Flag::MultiLine => FlagItem::MultiLine,
                regex_syntax::ast::Flag::DotMatchesNewLine => FlagItem::DotMatchesNewLine,
                regex_syntax::ast::Flag::SwapGreed => FlagItem::SwapGreed,
                regex_syntax::ast::Flag::Unicode => FlagItem::Unicode,
                regex_syntax::ast::Flag::IgnoreWhitespace => FlagItem::IgnoreWhitespace,
                regex_syntax::ast::Flag::CRLF => FlagItem::CRLF,
            },
        }).collect()),
        _ => None,
    }
}

/// Relies on regex_syntax::ast::Assertion: the kind of an assertion node,
/// one arm per kind; the angle aliases fold onto the forms they alias.
#[verifier::external_body]
fn ast_assertion_kind(a: &Ast) -> (r: Option<AssertKind>) {
    match a {
        Ast::Assertion(x) => Some(match x.kind {
            RsAssert::StartLine => AssertKind::StartLine,
            RsAssert::EndLine => AssertKind::EndLine,
            RsAssert::StartText => AssertKind::StartText,
            RsAssert::EndText => AssertKind::EndText,
            RsAssert::WordBoundary => AssertKind::WordBoundary,
            RsAssert::NotWordBoundary => AssertKind::NotWordBoundary,
            RsAssert::WordBoundaryStart | RsAssert::WordBoundaryStartAngle => AssertKind::WordBoundaryStart,
            RsAssert::WordBoundaryEnd | RsAssert::WordBoundaryEndAngle => AssertKind::WordBoundaryEnd,
            RsAssert::WordBoundaryStartHalf => AssertKind::WordBoundaryStartHalf,
            RsAssert::WordBoundaryEndHalf => AssertKind::WordBoundaryEndHalf,
        }),
        _ => None,
    }
}

/// Relies on regex_syntax::ast::ClassUnicode: negation and kind of a
/// Unicode class node, one arm per kind.
#[verifier::external_body]
fn ast_class_unicode(a: &Ast) -> (r: Option<(bool, UniKind)>) {
    match a {
        Ast::ClassUnicode(x) => Some((x.negated, match &x.kind {
            regex_syntax::ast::ClassUnicodeKind::OneLetter(c) => UniKind::OneLetter(*c),
            regex_syntax::ast::ClassUnicodeKind::Named(n) => UniKind::Named(n.clone()),
            regex_syntax::ast::ClassUnicodeKind::NamedValue { name, value, .. } => {
                UniKind::NamedValue(name.clone(), value.clone())
            },
        })),
        _ => None,
    }
}

/// Relies on regex_syntax::ast::ClassPerl: negation and kind of a Perl
/// class node, one arm per kind.
#[verifier::external_body]
fn ast_class_perl(a: &Ast) -> (r: Option<(bool, PerlKind)>) {
    match a {
        Ast::ClassPerl(x) => Some((x.negated, match x.kind {
            regex_syntax::ast::ClassPerlKind::Digit => PerlKind::Digit,
            regex_syntax::ast::ClassPerlKind::Space => PerlKind::Space,
            regex_syntax::ast::ClassPerlKind::Word => PerlKind::Word,
        })),
        _ => None,
    }
}

/// Relies on regex_syntax::ast::ClassBracketed: negation and set of a
/// bracketed class node.
#[verifier::external_body]
fn ast_class_bracketed<'a>(a: &'a Ast) -> (r: Option<(bool, &'a ClassSet)>) {
    match a {
        Ast::ClassBracketed(x) => Some((x.negated, &x.kind)),
        _ => None,
    }
}

/// Relies on regex_syntax::ast::Repetition: operator, greediness and child
/// of a repetition node, one arm per operator.
#[verifier::external_body]
fn ast_repetition<'a>(a: &'a Ast) -> (r: Option<(RepOp, bool, &'a Ast)>) {
    match a {
        Ast::Repetition(x) => Some((match x.op.kind {
            regex_syntax::ast::RepetitionKind::ZeroOrOne => RepOp::ZeroOrOne,
            regex_syntax::ast::RepetitionKind::ZeroOrMore => RepOp::ZeroOrMore,
            regex_syntax::ast::RepetitionKind::OneOrMore => RepOp::OneOrMore,
            regex_syntax::ast::RepetitionKind::Range(regex_syntax::ast::RepetitionRange::Exactly(n)) => RepOp::Exactly(n),
            regex_syntax::ast::RepetitionKind::Range(regex_syntax::ast::RepetitionRange::AtLeast(n)) => RepOp::AtLeast(n),
            regex_syntax::ast::RepetitionKind::Range(regex_syntax::ast::RepetitionRange::Bounded(m, n)) => RepOp::Bounded(m, n),
        }, x.greedy, &*x.ast)),
        _ => None,
    }
}

/// Relies on regex_syntax::ast::Group: capture kind and child of a group
/// node, one arm per kind.
#[verifier::external_body]
fn ast_group<'a>(a: &'a Ast) -> (r: Option<(ReGroupKind, &'a Ast)>) {
    match a {
        Ast::Group(x) => Some((match &x.kind {
            regex_syntax::ast::GroupKind::CaptureIndex(i) => ReGroupKind::CaptureIndex(*i),
            regex_syntax::ast::GroupKind::CaptureName { name, .. } => {
                ReGroupKind::CaptureName(name.name.clone())
            },
            regex_syntax::ast::GroupKind::NonCapturing(_) => ReGroupKind::NonCapturing,
        }, &*x.ast)),
        _ => None,
    }
}

/// Relies on regex_syntax::ast::{Alternation, Concat}: the children of an
/// alternation or concatenation node.
#[verifier::external_body]
fn ast_list<'a>(a: &'a Ast) -> (r: Option<Vec<&'a Ast>>) {
    match a {
        Ast::Alternation(x) => Some(x.asts.iter().collect()),
        Ast::Concat(x) => Some(x.asts.iter().collect()),
        _ => None,
    }
}

/// Relies on regex_syntax::ast::ClassSet: an item, or the two sides of a
/// binary set operation, one arm each.
#[verifier::external_body]
fn class_set_parts<'a>(s: &'a ClassSet) -> (r: Result<&'a ClassSetItem, (&'a ClassSet, &'a ClassSet)>) {
    match s {
        ClassSet::Item(i) => Ok(i),
        ClassSet::BinaryOp(op) => Err((&*op.lhs, &*op.rhs)),
    }
}

/// The variant of a bracketed-class item.
#[derive(Debug, Clone, Copy, PartialEq, Eq, Structural)]
pub enum ClassItemTag {
    Ascii,
    Unicode,
    NegatedUnicode,
    Bracketed,
    Union,
    Other,
}

/// Relies on regex_syntax::ast::ClassSetItem: which item this is, one arm
/// per variant the analyzers distinguish.
#[verifier::external_body]
fn class_item_tag(i: &ClassSetItem) -> (r: ClassItemTag) {
    match i {
        ClassSetItem::Ascii(_) => ClassItemTag::Ascii,
        ClassSetItem::Unicode(c) => {
            if c.negated {
                ClassItemTag::NegatedUnicode
            } else {
                ClassItemTag::Unicode
            }
        },
        ClassSetItem::Bracketed(_) => ClassItemTag::Bracketed,
        ClassSetItem::Union(_) => ClassItemTag::Union,
        _ => ClassItemTag::Other,
    }
}

/// Relies on regex_syntax::ast::ClassSetItem::Bracketed: the nested class's
/// set.
#[verifier::external_body]
fn class_item_bracketed<'a>(i: &'a ClassSetItem) -> (r: Option<&'a ClassSet>) {
    match i {
        ClassSetItem::Bracketed(b) => Some(&b.kind),
        _ => None,
    }
}

/// Relies on regex_syntax::ast::ClassSetItem::Union: the items of a union.
#[verifier::external_body]
fn class_item_union<'a>(i: &'a ClassSetItem) -> (r: Option<Vec<&'a ClassSetItem>>) {
    match i {
        ClassSetItem::Union(u) => Some(u.items.iter().collect()),
        _ => None,
    }
}

/// The nesting depth past which conversion reports a parse failure rather
/// than recursing further.
pub const MAX_AST_DEPTH: u32 = 128;

fn convert_class_item(i: &ClassSetItem, depth: u32) -> (r: Option<ClassItem>)
    decreases depth, 1int,
{
    if depth == 0 {
        return None;
    }
    match class_item_tag(i) {
        ClassItemTag::Ascii => Some(ClassItem::Ascii),
        ClassItemTag::Unicode => Some(ClassItem::Unicode { negated: false }),
        ClassItemTag::NegatedUnicode => Some(ClassItem::Unicode { negated: true }),
        ClassItemTag::Bracketed => {
            match class_item_bracketed(i) {
                Some(set) => {
                    match convert_class_set(set, depth - 1) {
                        Some(t) => Some(ClassItem::Bracketed(Box::new(t))),
                        None => None,
                    }
                },
                None => None,
            }
        },
        ClassItemTag::Union => {
            match class_item_union(i) {
                Some(kids) => {
                    let mut items: Vec<ClassItem> = Vec::new();
                    let mut k: usize = 0;
                    while k < kids.len()
                        invariant
                            k <= kids@.len(),
                            depth >= 1,
                        decreases kids@.len() - k,
                    {
                        match convert_class_item(kids[k], depth - 1) {
                            Some(c) => items.push(c),
                            None => {
                                return None;
                            },
                        }
                        k += 1;
                    }
                    Some(ClassItem::Union(items))
                },
                None => None,
            }
        },
        ClassItemTag::Other => Some(ClassItem::Other),
    }
}

fn convert_class_set(s: &ClassSet, depth: u32) -> (r: Option<ClassTree>)
    decreases depth, 2int,
{
    if depth == 0 {
        return None;
    }
    match class_set_parts(s) {
        Ok(item) => {
            match convert_class_item(item, depth) {
                Some(c) => Some(ClassTree::Item(c)),
                None => None,
            }
        },
        Err((lhs, rhs)) => {
            let l = convert_class_set(lhs, depth - 1);
            let r = convert_class_set(rhs, depth - 1);
            match (l, r) {
                (Some(a), Some(b)) => Some(ClassTree::BinaryOp(Box::new(a), Box::new(b))),
                _ => None,
            }
        },
    }
}

fn convert_ast(a: &Ast, depth: u32) -> (r: Option<ReAst>)
    decreases depth,
{
    if depth == 0 {
        return None;
    }
    let d = depth - 1;
    match ast_tag(a) {
        AstTag::Empty => Some(ReAst::Empty),
        AstTag::Flags => {
            match ast_flag_items(a) {
                Some(items) => Some(ReAst::Flags(items)),
                None => None,
            }
        },
        AstTag::Literal => {
            match ast_literal_char(a) {
                Some(c) => Some(ReAst::Literal(c)),
                None => None,
            }
        },
        AstTag::Dot => Some(ReAst::Dot),
        AstTag::Assertion => {
            match ast_assertion_kind(a) {
                Some(k) => Some(ReAst::Assertion(k)),
                None => None,
            }
        },
        AstTag::ClassUnicode => {
            match ast_class_unicode(a) {
                Some((negated, kind)) => Some(ReAst::ClassUnicode { negated, kind }),
                None => None,
            }
        },
        AstTag::ClassPerl => {
            match ast_class_perl(a) {
                Some((negated, kind)) => Some(ReAst::ClassPerl { negated, kind }),
                None => None,
            }
        },
        AstTag::ClassBracketed => {
            match ast_class_bracketed(a) {
                Some((negated, set)) => {
                    match convert_class_set(set, d) {
                        Some(tree) => Some(
                            ReAst::ClassBracketed { negated, set: tree, text: a.to_string() },
                        ),
                        None => None,
                    }
                },
                None => None,
            }
        },
        AstTag::Repetition => {
            match ast_repetition(a) {
                Some((op, greedy, child)) => {
                    match convert_ast(child, d) {
                        Some(c) => Some(
                            ReAst::Repetition {
                                op,
                                greedy,
                                child_text: child.to_string(),
                                text: a.to_string(),
                                child: Box::new(c),
                            },
                        ),
                        None => None,
                    }
                },
                None => None,
            }
        },
        AstTag::Group => {
            match ast_group(a) {
                Some((kind, child)) => {
                    match convert_ast(child, d) {
                        Some(c) => Some(
                            ReAst::Group { kind, child: Box::new(c), text: a.to_string() },
                        ),
                        None => None,
                    }
                },
                None => None,
            }
        },
        AstTag::Alternation => {
            match ast_list(a) {
                Some(kids) => {
                    let mut children: Vec<ReAst> = Vec::new();
                    let mut branch_texts: Vec<String> = Vec::new();
                    let mut k: usize = 0;
                    while k < kids.len()
                        invariant
                            k <= kids@.len(),
                            d < depth,
                        decreases kids@.len() - k,
                    {
                        match convert_ast(kids[k], d) {
                            Some(c) => {
                                children.push(c);
                                branch_texts.push(kids[k].to_string());
                            },
                            None => {
                                return None;
                            },
                        }
                        k += 1;
                    }
                    Some(ReAst::Alternation { children, branch_texts, text: a.to_string() })
                },
                None => None,
            }
        },
        AstTag::Concat => {
            match ast_list(a) {
                Some(kids) => {
                    let mut children: Vec<ReAst> = Vec::new();
                    let mut k: usize = 0;
                    while k < kids.len()
                        invariant
                            k <= kids@.len(),
                            d < depth,
                        decreases kids@.len() - k,
                    {
                        match convert_ast(kids[k], d) {
                            Some(c) => children.push(c),
                            None => {
                                return None;
                            },
                        }
                        k += 1;
                    }
                    Some(ReAst::Concat(children))
                },
                None => None,
            }
        },
    }
}

/// Parses a pattern with the structural parser.
///
/// Returns the crate's own tree, or the parse failure's kind, offset and
/// message.  A pattern nested deeper than `MAX_AST_DEPTH` is reported as a
/// failure of the `Other` kind.
pub fn parse_pattern(pattern: &str) -> (r: Result<ReAst, AstErrorInfo>)
    ensures
        r is Ok ==> rs_parses(pattern@),
        !rs_parses(pattern@) ==> r is Err,
{
    match rs_parse(pattern) {
        Ok(a) => {
            match convert_ast(&a, MAX_AST_DEPTH) {
                Some(t) => Ok(t),
                None => Err(
                    AstErrorInfo {
                        kind: AstErrKind::Other,
                        offset: 0,
                        message: {
                            let mut m = String::new();
                            m.append("pattern is nested too deeply to analyze");
                            m
                        },
                    },
                ),
            }
        },
        Err(e) => Err(
            AstErrorInfo {
                kind: ast_err_kind(&e),
                offset: ast_err_offset(&e),
                message: e.to_string(),
            },
        ),
    }
}

} // verus!
