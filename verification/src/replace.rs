//! Replacement over strings and file content.
//!
//! The automaton engine replaces through its own substitution machinery;
//! the backtracking engine's matches are stitched together here, with
//! `$`-references into capture groups expanded one character at a time.

use vstd::prelude::*;

verus! {

use vstd::string::StrSliceExecFns;
use vstd::string::StringExecFns;
use vstd::string::StringSliceAdditionalSpecFns;
use crate::engine::{CompiledRegex, FancyFeatures};
use crate::rx::{CapturedGroups, fancy_capture_names, fancy_captures_from_pos, re_find_at,
    re_replace_all, rx_find_from, rx_replace_all, rx_valid, slice_bytes};
use crate::scan::{chars_of, string_from_chars};
use crate::testrun::{apply_multiline, effective_pattern};
use crate::types::{ReplaceFileResult, ReplacePreview, ReplaceResult};

/// The text of capture slot `g`, or nothing when the slot is absent.
pub open spec fn slot_text(slots: Seq<Option<crate::rx::CapSpan>>, g: int) -> Seq<char> {
    if 0 <= g < slots.len() && slots[g] is Some {
        slots[g]->Some_0.text@
    } else {
        Seq::empty()
    }
}

/// The first index at or after `i` holding `}`, or the length when none
/// does.
pub open spec fn brace_end(rep: Seq<char>, i: int) -> int
    decreases rep.len() - i,
{
    if i < 0 || i >= rep.len() {
        rep.len() as int
    } else if rep[i] == '}' {
        i
    } else {
        brace_end(rep, i + 1)
    }
}

/// The numeric value of an all-digit name, rejecting empty names and
/// values past the machine's index range.
pub open spec fn spec_group_number_from(name: Seq<char>, i: int, acc: int) -> Option<int>
    decreases name.len() - i,
{
    if i < 0 || i >= name.len() {
        Some(acc)
    } else if !crate::scan::is_digit(name[i]) {
        None
    } else if acc > (usize::MAX - ((name[i] as u32) as int - 48)) / 10 {
        None
    } else {
        spec_group_number_from(name, i + 1, acc * 10 + ((name[i] as u32) as int - 48))
    }
}

pub open spec fn spec_group_number(name: Seq<char>) -> Option<int> {
    if name.len() == 0 {
        None
    } else {
        spec_group_number_from(name, 0, 0)
    }
}

/// The first capture index carrying this name.
pub open spec fn spec_named_index_from(names: Seq<Option<String>>, name: Seq<char>, i: int)
    -> Option<int>
    decreases names.len() - i,
{
    if i < 0 || i >= names.len() {
        None
    } else if names[i] matches Some(n) && n@ == name {
        Some(i)
    } else {
        spec_named_index_from(names, name, i + 1)
    }
}

pub open spec fn spec_named_index(names: Seq<Option<String>>, name: Seq<char>) -> Option<int> {
    spec_named_index_from(names, name, 0)
}

/// What a `${...}` reference contributes: the numbered slot when the name
/// is numeric, the named slot when the engine knows the name, nothing
/// otherwise.
pub open spec fn brace_expansion(
    slots: Seq<Option<crate::rx::CapSpan>>,
    names: Seq<Option<String>>,
    name: Seq<char>,
) -> Seq<char> {
    match spec_group_number(name) {
        Some(g) => slot_text(slots, g),
        None => match spec_named_index(names, name) {
            Some(ix) => slot_text(slots, ix),
            None => Seq::empty(),
        },
    }
}

/// The expansion of the replacement template from position `i` on.
pub open spec fn spec_expand(
    rep: Seq<char>,
    slots: Seq<Option<crate::rx::CapSpan>>,
    names: Seq<Option<String>>,
    i: int,
) -> Seq<char>
    decreases rep.len() - i,
{
    if i < 0 || i >= rep.len() {
        Seq::empty()
    } else if rep[i] != '$' {
        seq![rep[i]] + spec_expand(rep, slots, names, i + 1)
    } else if i + 1 >= rep.len() {
        seq!['$'] + spec_expand(rep, slots, names, i + 1)
    } else if crate::scan::is_digit(rep[i + 1]) {
        slot_text(slots, (rep[i + 1] as u32) as int - 48) + spec_expand(rep, slots, names, i + 2)
    } else if rep[i + 1] == '{' {
        let close0 = brace_end(rep, i + 2);
        let close = if close0 < i + 2 {
            i + 2
        } else if close0 > rep.len() {
            rep.len() as int
        } else {
            close0
        };
        let name = rep.subrange(i + 2, close);
        let next = if close < rep.len() {
            close + 1
        } else {
            rep.len() as int
        };
        brace_expansion(slots, names, name) + spec_expand(rep, slots, names, next)
    } else if rep[i + 1] == '$' {
        seq!['$'] + spec_expand(rep, slots, names, i + 2)
    } else {
        seq!['$'] + spec_expand(rep, slots, names, i + 1)
    }
}

proof fn lemma_brace_end(rep: Seq<char>, a: int)
    requires
        0 <= a <= rep.len(),
    ensures
        a <= brace_end(rep, a) <= rep.len(),
        brace_end(rep, a) < rep.len() ==> rep[brace_end(rep, a)] == '}',
        forall|m: int| a <= m < brace_end(rep, a) ==> rep[m] != '}',
    decreases rep.len() - a,
{
    if a < rep.len() && rep[a] != '}' {
        lemma_brace_end(rep, a + 1);
    }
}

/// Expands `$` references in a replacement template against one match's
/// capture groups: `$1`-style numbers, `${name}` and `${number}` forms,
/// and `$$` for a literal dollar sign.
pub fn expand_replacement(replacement: &str, caps: &CapturedGroups, names: &Vec<Option<String>>)
    -> (r: String)
    ensures
        r@ == spec_expand(replacement@, caps.slots@, names@, 0),
{
    let rep = chars_of(replacement);
    let n = rep.len();
    let mut out: Vec<char> = Vec::new();
    let mut i: usize = 0;
    while i < n
        invariant
            i <= n,
            n == rep@.len(),
            rep@ == replacement@,
            spec_expand(rep@, caps.slots@, names@, 0) == out@ + spec_expand(
                rep@,
                caps.slots@,
                names@,
                i as int,
            ),
        decreases n - i,
    {
        let ghost out0 = out@;
        let c = rep[i];
        if c != '$' {
            out.push(c);
            proof {
                assert(out@ =~= out0 + seq![rep@[i as int]]);
                assert(out@ + spec_expand(rep@, caps.slots@, names@, i + 1) =~= out0
                    + spec_expand(rep@, caps.slots@, names@, i as int));
            }
            i += 1;
        } else if i + 1 >= n {
            out.push('$');
            proof {
                assert(out@ =~= out0 + seq!['$']);
                assert(out@ + spec_expand(rep@, caps.slots@, names@, i + 1) =~= out0
                    + spec_expand(rep@, caps.slots@, names@, i as int));
            }
            i += 1;
        } else {
            let d = rep[i + 1];
            if crate::scan::digit(d) {
                let group: usize = ((d as u32) - 48) as usize;
                push_group_text(&mut out, caps, group);
                proof {
                    assert(group as int == (rep@[i + 1] as u32) as int - 48);
                    assert(out@ == out0 + slot_text(
                        caps.slots@,
                        (rep@[i + 1] as u32) as int - 48,
                    ));
                    assert(out@ + spec_expand(rep@, caps.slots@, names@, i + 2) =~= out0
                        + spec_expand(rep@, caps.slots@, names@, i as int));
                }
                i += 2;
            } else if d == '{' {
                // ${name} or ${number}
                let ghost be = brace_end(rep@, i + 2);
                proof {
                    lemma_brace_end(rep@, i + 2);
                }
                let mut j = i + 2;
                let mut name: Vec<char> = Vec::new();
                let mut closed = false;
                while j < n && !closed
                    invariant
                        i + 2 <= j <= n,
                        n == rep@.len(),
                        be == brace_end(rep@, i + 2),
                        i + 2 <= be <= n,
                        be < n ==> rep@[be] == '}',
                        forall|m: int| i + 2 <= m < be ==> rep@[m] != '}',
                        !closed ==> j <= be && name@ =~= rep@.subrange(i + 2, j as int),
                        closed ==> j == be + 1 && name@ =~= rep@.subrange(i + 2, be),
                    decreases n - j, (if closed {
                        0int
                    } else {
                        1int
                    }),
                {
                    if rep[j] == '}' {
                        proof {
                            assert(j == be);
                        }
                        closed = true;
                    } else {
                        proof {
                            assert(j < be);
                        }
                        name.push(rep[j]);
                        proof {
                            assert(name@ =~= rep@.subrange(i + 2, j + 1));
                        }
                    }
                    j += 1;
                }
                proof {
                    assert(name@ =~= rep@.subrange(i + 2, be));
                }
                match parse_group_number(&name) {
                    Some(num) => {
                        push_group_text(&mut out, caps, num);
                        proof {
                            assert(out@ == out0 + brace_expansion(caps.slots@, names@, name@));
                        }
                    },
                    None => {
                        match find_named_group(names, &name) {
                            Some(idx) => {
                                push_group_text(&mut out, caps, idx);
                                proof {
                                    assert(out@ == out0 + brace_expansion(
                                        caps.slots@,
                                        names@,
                                        name@,
                                    ));
                                }
                            },
                            None => {
                                proof {
                                    assert(out@ =~= out0 + brace_expansion(
                                        caps.slots@,
                                        names@,
                                        name@,
                                    ));
                                }
                            },
                        }
                    },
                }
                proof {
                    assert(out@ == out0 + brace_expansion(caps.slots@, names@, name@));
                    assert(j as int == if be < n {
                        be + 1
                    } else {
                        n as int
                    });
                    assert(out@ + spec_expand(rep@, caps.slots@, names@, j as int) =~= out0
                        + spec_expand(rep@, caps.slots@, names@, i as int));
                }
                i = j;
            } else if d == '$' {
                out.push('$');
                proof {
                    assert(out@ =~= out0 + seq!['$']);
                    assert(out@ + spec_expand(rep@, caps.slots@, names@, i + 2) =~= out0
                        + spec_expand(rep@, caps.slots@, names@, i as int));
                }
                i += 2;
            } else {
                out.push('$');
                proof {
                    assert(out@ =~= out0 + seq!['$']);
                    assert(out@ + spec_expand(rep@, caps.slots@, names@, i + 1) =~= out0
                        + spec_expand(rep@, caps.slots@, names@, i as int));
                }
                i += 1;
            }
        }
    }
    proof {
        assert(spec_expand(rep@, caps.slots@, names@, n as int) =~= Seq::<char>::empty());
        assert(spec_expand(rep@, caps.slots@, names@, 0) =~= out@);
    }
    string_from_chars(&out)
}

/// Appends the text of capture group `group`, when that group matched.
fn push_group_text(out: &mut Vec<char>, caps: &CapturedGroups, group: usize)
    ensures
        final(out)@ == old(out)@ + slot_text(caps.slots@, group as int),
{
    let ghost out0 = out@;
    if group < caps.slots.len() {
        match &caps.slots[group] {
            Some(c) => {
                let mut cs = chars_of(c.text.as_str());
                out.append(&mut cs);
            },
            None => {
                proof {
                    assert(out@ =~= out0 + slot_text(caps.slots@, group as int));
                }
            },
        }
    } else {
        proof {
            assert(out@ =~= out0 + slot_text(caps.slots@, group as int));
        }
    }
}

/// Parses a nonempty all-digit name as a group number, rejecting values
/// past the machine's index range.
fn parse_group_number(name: &Vec<char>) -> (r: Option<usize>)
    ensures
        r is Some <==> spec_group_number(name@) is Some,
        r matches Some(v) ==> spec_group_number(name@) == Some(v as int),
{
    if name.len() == 0 {
        return None;
    }
    let mut num: usize = 0;
    let mut i: usize = 0;
    while i < name.len()
        invariant
            i <= name@.len(),
            name@.len() > 0,
            spec_group_number_from(name@, 0, 0) == spec_group_number_from(
                name@,
                i as int,
                num as int,
            ),
        decreases name@.len() - i,
    {
        let c = name[i];
        if !crate::scan::digit(c) {
            proof {
                assert(spec_group_number_from(name@, i as int, num as int) is None);
            }
            return None;
        }
        let d = ((c as u32) - 48) as usize;
        proof {
            assert(d as int == (name@[i as int] as u32) as int - 48);
        }
        if num > (usize::MAX - d) / 10 {
            proof {
                assert(spec_group_number_from(name@, i as int, num as int) is None);
            }
            return None;
        }
        proof {
            assert(spec_group_number_from(name@, i as int, num as int)
                == spec_group_number_from(name@, i + 1, (num * 10 + d) as int));
        }
        num = num * 10 + d;
        i += 1;
    }
    Some(num)
}

/// The first capture index carrying the given name, if any.
fn find_named_group(names: &Vec<Option<String>>, name: &Vec<char>) -> (r: Option<usize>)
    ensures
        r is Some <==> spec_named_index(names@, name@) is Some,
        r matches Some(v) ==> spec_named_index(names@, name@) == Some(v as int),
{
    let mut i: usize = 0;
    while i < names.len()
        invariant
            i <= names@.len(),
            spec_named_index(names@, name@) == spec_named_index_from(
                names@,
                name@,
                i as int,
            ),
        decreases names@.len() - i,
    {
        match &names[i] {
            Some(n) => {
                let nv = chars_of(n.as_str());
                if crate::scan::eq_chars(&nv, name) {
                    return Some(i);
                }
            },
            None => {},
        }
        i += 1;
    }
    None
}

/// The number of matches in the automaton engine's non-overlapping find
/// chain over the first `n` bytes, scanning from `pos`: each find counts
/// once and the scan resumes past it, at least one byte on.
pub open spec fn find_count_from(p: Seq<char>, t: Seq<char>, n: int, pos: int) -> int
    decreases n - pos,
{
    if pos >= n {
        0
    } else {
        match rx_find_from(p, t, pos) {
            Some(span) => {
                let stepped = if span.1 > pos {
                    span.1
                } else {
                    pos + 1
                };
                let next = if stepped > n {
                    n
                } else {
                    stepped
                };
                1 + find_count_from(p, t, n, next)
            },
            None => 0,
        }
    }
}

/// How many replacements the automaton engine makes: the length of its
/// non-overlapping find chain, an empty text still admitting one empty
/// match.
pub open spec fn spec_replace_count(p: Seq<char>, t: Seq<char>, n: int) -> int {
    if n == 0 {
        if rx_find_from(p, t, 0) is Some {
            1
        } else {
            0
        }
    } else {
        find_count_from(p, t, n, 0)
    }
}

/// Replaces every match of a compiled pattern in `content`, returning the
/// new text and how many replacements were made.
pub fn replace_content(compiled: &CompiledRegex, content: &str, replacement: &str) -> (r: Result<
    (String, usize),
    String,
>)
    ensures
        compiled is Regex ==> r is Ok,
        compiled is Regex ==> (r matches Ok(p) ==> p.0@ == rx_replace_all(
            compiled.pattern(),
            content@,
            replacement@,
        ) && p.1 as int == spec_replace_count(
            compiled.pattern(),
            content@,
            content.spec_bytes().len() as usize as int,
        )),
{
    let n = content.len();
    match compiled {
        CompiledRegex::Regex(re) => {
            // count the matches the way the substitution machinery walks them
            let mut count: usize = 0;
            let mut pos: usize = 0;
            let mut done = false;
            while pos < n && !done
                invariant
                    pos <= n,
                    count <= pos,
                    n == content.spec_bytes().len() as usize,
                    !done ==> count as int + find_count_from(
                        re.pattern(),
                        content@,
                        n as int,
                        pos as int,
                    ) == find_count_from(re.pattern(), content@, n as int, 0),
                    done ==> count as int == find_count_from(re.pattern(), content@, n as int, 0),
                decreases n - pos, (if done {
                    0int
                } else {
                    1int
                }),
            {
                match re_find_at(re, content, pos) {
                    Some((s, e)) => {
                        proof {
                            assert(count < usize::MAX);
                        }
                        if count < usize::MAX {
                            count += 1;
                        }
                        let next = if e > pos {
                            e
                        } else {
                            pos + 1
                        };
                        pos = if next > n {
                            n
                        } else {
                            next
                        };
                    },
                    None => {
                        done = true;
                    },
                }
            }
            proof {
                if !done {
                    assert(pos >= n);
                    assert(find_count_from(re.pattern(), content@, n as int, pos as int) == 0);
                }
                assert(count as int == find_count_from(re.pattern(), content@, n as int, 0));
            }
            if n == 0 && count == 0 {
                match re_find_at(re, content, 0) {
                    Some(_) => {
                        count = 1;
                    },
                    None => {},
                }
            }
            proof {
                assert(count as int == spec_replace_count(re.pattern(), content@, n as int));
            }
            let result = re_replace_all(re, content, replacement);
            Ok((result, count))
        },
        CompiledRegex::FancyRegex(re) => {
            let names = fancy_capture_names(re);
            let mut result = String::new();
            let mut last_end: usize = 0;
            let mut count: usize = 0;
            let mut done = false;
            while !done
                invariant
                    last_end <= n,
                    compiled is FancyRegex,
                decreases n - last_end, (if done {
                    0int
                } else {
                    1int
                }),
            {
                match fancy_captures_from_pos(re, content, last_end) {
                    Ok(Some(caps)) => {
                        let full = match &caps.slots[0] {
                            Some(f) => (f.start, f.end),
                            None => {
                                done = true;
                                continue ;
                            },
                        };
                        let (fs, fe) = full;
                        if fs > fe || fe > n || fs < last_end {
                            // spans outside the text never arise; stop
                            done = true;
                        } else {
                            result.append(slice_bytes(content, last_end, fs).as_str());
                            let expanded = expand_replacement(replacement, &caps, &names);
                            result.append(expanded.as_str());
                            if count < usize::MAX {
                                count += 1;
                            }
                            if fs == fe {
                                if fe < n {
                                    result.append(slice_bytes(content, fe, fe + 1).as_str());
                                    last_end = fe + 1;
                                } else {
                                    last_end = fe;
                                    done = true;
                                }
                            } else {
                                last_end = fe;
                                if last_end >= n {
                                    result.append(slice_bytes(content, last_end, n).as_str());
                                    done = true;
                                }
                            }
                        }
                    },
                    Ok(None) => {
                        result.append(slice_bytes(content, last_end, n).as_str());
                        done = true;
                    },
                    Err(e) => {
                        return Err(e.to_string());
                    },
                }
            }
            Ok((result, count))
        },
    }
}

/// Replaces every match of `pattern` in `input`, expanding `$1`, `$2`
/// and `${name}` capture references.
pub fn replace_with_captures(pattern: &str, replacement: &str, input: &str, multiline: bool)
    -> (r: Result<ReplaceResult, String>)
    ensures
        r matches Ok(res) ==> {
            &&& res.pattern@ == pattern@
            &&& res.replacement@ == replacement@
            &&& res.original@ == input@
            &&& (!FancyFeatures::of(
                effective_pattern(pattern@, multiline),
            ).spec_needs_fancy() && rx_valid(effective_pattern(pattern@, multiline))
                ==> res.result@ == rx_replace_all(
                effective_pattern(pattern@, multiline),
                input@,
                replacement@,
            ) && res.replacements_made as int == spec_replace_count(
                effective_pattern(pattern@, multiline),
                input@,
                input.spec_bytes().len() as usize as int,
            ))
        },
{
    let effective = apply_multiline(pattern, multiline);
    let (compiled, _engine) = match CompiledRegex::new(effective.as_str()) {
        Ok(ce) => ce,
        Err(e) => {
            return Err(e.message());
        },
    };
    let (result, count) = match replace_content(&compiled, input, replacement) {
        Ok(rc) => rc,
        Err(e) => {
            return Err(e);
        },
    };
    Ok(
        ReplaceResult {
            pattern: String::from_str(pattern),
            replacement: String::from_str(replacement),
            original: String::from_str(input),
            result,
            replacements_made: count,
        },
    )
}

/// Replaces every match of `pattern` in `input`.
pub fn replace_string(pattern: &str, replacement: &str, input: &str) -> (r: Result<
    ReplaceResult,
    String,
>)
    ensures
        r matches Ok(res) ==> {
            &&& res.pattern@ == pattern@
            &&& res.replacement@ == replacement@
            &&& res.original@ == input@
            &&& (!FancyFeatures::of(pattern@).spec_needs_fancy() && rx_valid(pattern@)
                ==> res.result@ == rx_replace_all(pattern@, input@, replacement@)
                    && res.replacements_made as int == spec_replace_count(
                pattern@,
                input@,
                input.spec_bytes().len() as usize as int,
            ))
        },
{
    replace_with_captures(pattern, replacement, input, false)
}

/// Splits content into lines the way the standard splitter does: at every
/// newline, dropping a final empty segment and any trailing carriage
/// returns.
pub fn lines_of(content: &str) -> (r: Vec<String>) {
    let cs = chars_of(content);
    let mut segs = crate::scan::split_chars(&cs, '\n');
    // a trailing newline does not open a final empty line
    if segs.len() > 0 {
        let last_empty = segs[segs.len() - 1].len() == 0;
        if last_empty {
            segs.pop();
        }
    }
    let mut out: Vec<String> = Vec::new();
    let mut i: usize = 0;
    while i < segs.len()
        invariant
            i <= segs@.len(),
        decreases segs@.len() - i,
    {
        let seg = &segs[i];
        let mut line = seg.clone();
        if line.len() > 0 && line[line.len() - 1] == '\r' {
            line.pop();
        }
        out.push(string_from_chars(&line));
        i += 1;
    }
    out
}

/// Builds a line-by-line preview by comparing original and new content;
/// when the line counts differ, a single whole-content entry stands in.
pub fn diff_preview(original: &str, new_content: &str, max_preview: usize) -> (r: Vec<
    ReplacePreview,
>) {
    let mut preview: Vec<ReplacePreview> = Vec::new();
    let original_lines = lines_of(original);
    let new_lines = lines_of(new_content);
    if original_lines.len() != new_lines.len() {
        let ov = chars_of(original);
        let nv = chars_of(new_content);
        if !crate::scan::eq_chars(&ov, &nv) {
            preview.push(
                ReplacePreview {
                    line: 1,
                    before: String::from_str(original),
                    after: String::from_str(new_content),
                },
            );
        }
        return preview;
    }
    let mut i: usize = 0;
    while i < original_lines.len()
        invariant
            i <= original_lines@.len(),
            original_lines@.len() == new_lines@.len(),
        decreases original_lines@.len() - i,
    {
        let ov = chars_of(original_lines[i].as_str());
        let nv = chars_of(new_lines[i].as_str());
        if !crate::scan::eq_chars(&ov, &nv) && preview.len() < max_preview {
            preview.push(
                ReplacePreview {
                    line: i + 1,
                    before: original_lines[i].clone(),
                    after: new_lines[i].clone(),
                },
            );
        }
        i += 1;
    }
    preview
}

/// Previews replacements over a file's content without changing anything:
/// whole-content matching in multiline mode, line-by-line otherwise.
pub fn replace_file_preview(pattern: &str, replacement: &str, content: &str, max_preview: Option<
    usize,
>, multiline: bool) -> (r: Result<ReplaceFileResult, String>)
    ensures
        r matches Ok(res) ==> res.pattern@ == pattern@ && res.replacement@ == replacement@,
{
    let effective = apply_multiline(pattern, multiline);
    let (compiled, _engine) = match CompiledRegex::new(effective.as_str()) {
        Ok(ce) => ce,
        Err(e) => {
            return Err(e.message());
        },
    };
    let max_preview = match max_preview {
        Some(m) => m,
        None => 20,
    };
    if multiline {
        let (new_content, total) = match replace_content(&compiled, content, replacement) {
            Ok(rc) => rc,
            Err(e) => {
                return Err(e);
            },
        };
        let preview = diff_preview(content, new_content.as_str(), max_preview);
        Ok(
            ReplaceFileResult {
                pattern: String::from_str(pattern),
                replacement: String::from_str(replacement),
                replacements_made: total,
                preview,
            },
        )
    } else {
        let lines = lines_of(content);
        let mut total: usize = 0;
        let mut preview: Vec<ReplacePreview> = Vec::new();
        let mut i: usize = 0;
        while i < lines.len()
            invariant
                i <= lines@.len(),
            decreases lines@.len() - i,
        {
            let line = &lines[i];
            let (new_line, count) = match replace_content(&compiled, line.as_str(), replacement) {
                Ok(rc) => rc,
                Err(e) => {
                    return Err(e);
                },
            };
            if count > 0 {
                if total <= usize::MAX - count {
                    total += count;
                } else {
                    total = usize::MAX;
                }
                if preview.len() < max_preview {
                    preview.push(
                        ReplacePreview { line: i + 1, before: line.clone(), after: new_line },
                    );
                }
            }
            i += 1;
        }
        Ok(
            ReplaceFileResult {
                pattern: String::from_str(pattern),
                replacement: String::from_str(replacement),
                replacements_made: total,
                preview,
            },
        )
    }
}

/// Applies replacements to a file's content: returns the new content, the
/// replacement count and a preview; writing the file back and keeping a
/// backup is the caller's business.
pub fn apply_content(pattern: &str, replacement: &str, content: &str, max_preview: Option<usize>,
    multiline: bool) -> (r: Result<(String, usize, Vec<ReplacePreview>), String>) {
    let effective = apply_multiline(pattern, multiline);
    let (compiled, _engine) = match CompiledRegex::new(effective.as_str()) {
        Ok(ce) => ce,
        Err(e) => {
            return Err(e.message());
        },
    };
    let max_preview = match max_preview {
        Some(m) => m,
        None => 20,
    };
    if multiline {
        let (new_content, total) = match replace_content(&compiled, content, replacement) {
            Ok(rc) => rc,
            Err(e) => {
                return Err(e);
            },
        };
        let preview = diff_preview(content, new_content.as_str(), max_preview);
        Ok((new_content, total, preview))
    } else {
        let lines = lines_of(content);
        let mut total: usize = 0;
        let mut preview: Vec<ReplacePreview> = Vec::new();
        let mut new_lines: Vec<String> = Vec::new();
        let mut i: usize = 0;
        while i < lines.len()
            invariant
                i <= lines@.len(),
            decreases lines@.len() - i,
        {
            let line = &lines[i];
            let (new_line, count) = match replace_content(&compiled, line.as_str(), replacement) {
                Ok(rc) => rc,
                Err(e) => {
                    return Err(e);
                },
            };
            if count > 0 {
                if total <= usize::MAX - count {
                    total += count;
                } else {
                    total = usize::MAX;
                }
                if preview.len() < max_preview {
                    preview.push(
                        ReplacePreview {
                            line: i + 1,
                            before: line.clone(),
                            after: new_line.clone(),
                        },
                    );
                }
            }
            new_lines.push(new_line);
            i += 1;
        }
        let mut new_content = crate::scan::join_strings(&new_lines, "\n");
        let cv = chars_of(content);
        if crate::scan::ends_with_str(&cv, "\n") {
            new_content.append("\n");
        }
        Ok((new_content, total, preview))
    }
}

} // verus!
