//! The pattern library: the single definition of what counts as an old-style
//! mock macro.  Every other component matches text exclusively through the
//! functions defined here.
//!
//! The pattern family is fixed: a head token
//! `MOCK_(CONST_)?METHOD(digit|10)(_T)?(_WITH_CALLTYPE)?`, followed by the
//! invocation body, which runs to the first statement terminator.  A
//! lightweight search pattern recognizes the two literal prefixes
//! `MOCK_METHOD` and `MOCK_CONST_METHOD`.

use vstd::prelude::*;
use crate::text::{begins_at, begins_with, find_char_from, find_char, lemma_find_char_from, trim};

verus! {

/// The qualifiers and extent decoded from one macro head token.
#[derive(Clone, Copy)]
pub struct HeadInfo {
    /// The `CONST_` group was present.
    pub is_const: bool,
    /// The `_T` (template) group was present.
    pub is_template: bool,
    /// The `_WITH_CALLTYPE` group was present.
    pub has_calltype: bool,
    /// The numeric suffix: the declared argument count, `0` to `10`.
    pub argc: usize,
    /// The length of the whole head token in characters.
    pub len: usize,
}

pub open spec fn is_digit(c: char) -> bool {
    ||| c == '0'
    ||| c == '1'
    ||| c == '2'
    ||| c == '3'
    ||| c == '4'
    ||| c == '5'
    ||| c == '6'
    ||| c == '7'
    ||| c == '8'
    ||| c == '9'
}

pub open spec fn digit_val(c: char) -> usize {
    if c == '0' {
        0
    } else if c == '1' {
        1
    } else if c == '2' {
        2
    } else if c == '3' {
        3
    } else if c == '4' {
        4
    } else if c == '5' {
        5
    } else if c == '6' {
        6
    } else if c == '7' {
        7
    } else if c == '8' {
        8
    } else {
        9
    }
}

/// The tail of a head token after its numeric suffix: an optional `_T` group
/// followed by an optional `_WITH_CALLTYPE` group, both taken greedily.
pub open spec fn head_tail_at(s: Seq<char>, i: int, is_const: bool, argc: usize, q: int) -> Option<
    HeadInfo,
> {
    let is_template = begins_at(s, q, "_T"@);
    let q2 = if is_template {
        q + 2
    } else {
        q
    };
    let has_calltype = begins_at(s, q2, "_WITH_CALLTYPE"@);
    let q3 = if has_calltype {
        q2 + 14
    } else {
        q2
    };
    Some(
        HeadInfo {
            is_const,
            is_template,
            has_calltype,
            argc,
            len: (q3 - i) as usize,
        },
    )
}

/// Decodes a head token starting at position `i` of `s`: `MOCK_`, an optional
/// `CONST_` group, `METHOD`, a numeric suffix (`10` taken in preference to a
/// single digit), an optional `_T` group, an optional `_WITH_CALLTYPE` group.
pub open spec fn head_at(s: Seq<char>, i: int) -> Option<HeadInfo> {
    if !begins_at(s, i, "MOCK_"@) {
        None
    } else {
        let is_const = begins_at(s, i + 5, "CONST_"@);
        let p = if is_const {
            i + 11
        } else {
            i + 5
        };
        if !begins_at(s, p, "METHOD"@) {
            None
        } else {
            let q = p + 6;
            if begins_at(s, q, "10"@) {
                head_tail_at(s, i, is_const, 10, q + 2)
            } else if q < s.len() && is_digit(s[q]) {
                head_tail_at(s, i, is_const, digit_val(s[q]), q + 1)
            } else {
                None
            }
        }
    }
}

/// A decoded head stays inside the buffer and is at least as long as the
/// shortest member of the family, `MOCK_METHOD` plus one digit.
pub proof fn lemma_head_at_bounds(s: Seq<char>, i: int)
    ensures
        match head_at(s, i) {
            Some(h) => 0 <= i && 12 <= h.len && i + h.len <= s.len() && h.argc <= 10,
            None => true,
        },
{
    reveal_strlit("MOCK_");
    reveal_strlit("CONST_");
    reveal_strlit("METHOD");
    reveal_strlit("10");
    reveal_strlit("_T");
    reveal_strlit("_WITH_CALLTYPE");
}

/// Decodes the head token at character position `i`, if one is present.
pub fn match_head(s: &str, i: usize) -> (r: Option<HeadInfo>)
    ensures
        r == head_at(s@, i as int),
{
    proof {
        reveal_strlit("MOCK_");
        reveal_strlit("CONST_");
        reveal_strlit("METHOD");
        reveal_strlit("10");
        reveal_strlit("_T");
        reveal_strlit("_WITH_CALLTYPE");
    }
    let n = s.unicode_len();
    if !begins_with(s, i, "MOCK_") {
        return None;
    }
    let is_const = begins_with(s, i + 5, "CONST_");
    let p = if is_const {
        i + 11
    } else {
        i + 5
    };
    if !begins_with(s, p, "METHOD") {
        return None;
    }
    let q = p + 6;
    let (argc, q2): (usize, usize) = if begins_with(s, q, "10") {
        (10, q + 2)
    } else if q < n {
        match digit_of(s.get_char(q)) {
            Some(d) => (d, q + 1),
            None => {
                return None;
            },
        }
    } else {
        return None;
    };
    let is_template = begins_with(s, q2, "_T");
    let q3 = if is_template {
        q2 + 2
    } else {
        q2
    };
    let has_calltype = begins_with(s, q3, "_WITH_CALLTYPE");
    let q4 = if has_calltype {
        q3 + 14
    } else {
        q3
    };
    Some(HeadInfo { is_const, is_template, has_calltype, argc, len: q4 - i })
}

/// The numeric value of a decimal digit character.
pub fn digit_of(c: char) -> (r: Option<usize>)
    ensures
        r is Some <==> is_digit(c),
        r matches Some(d) ==> d == digit_val(c),
{
    match c {
        '0' => Some(0),
        '1' => Some(1),
        '2' => Some(2),
        '3' => Some(3),
        '4' => Some(4),
        '5' => Some(5),
        '6' => Some(6),
        '7' => Some(7),
        '8' => Some(8),
        '9' => Some(9),
        _ => None,
    }
}

/// The end of an invocation body that starts at position `j`: the body runs
/// to the first `;` (also to the first newline when `single_line` is set), or
/// to the end of the buffer.
pub open spec fn body_end(s: Seq<char>, j: int, single_line: bool) -> int
    decreases s.len() - j,
    when 0 <= j <= s.len()
{
    if j >= s.len() {
        j
    } else if s[j] == ';' || (single_line && s[j] == '\n') {
        j
    } else {
        body_end(s, j + 1, single_line)
    }
}

pub proof fn lemma_body_end(s: Seq<char>, j: int, single_line: bool)
    requires
        0 <= j <= s.len(),
    ensures
        j <= body_end(s, j, single_line) <= s.len(),
        forall|k: int|
            j <= k < body_end(s, j, single_line) ==> s[k] != ';' && (single_line ==> s[k] != '\n'),
        body_end(s, j, single_line) < s.len() ==> (s[body_end(s, j, single_line)] == ';' || (
        single_line && s[body_end(s, j, single_line)] == '\n')),
    decreases s.len() - j,
{
    if j < s.len() && !(s[j] == ';' || (single_line && s[j] == '\n')) {
        lemma_body_end(s, j + 1, single_line);
    }
}

/// One located occurrence of an old-style invocation: its decoded head, the
/// character span of its body (everything between the head and the statement
/// terminator), whether a terminating semicolon is part of the occurrence,
/// and the position one past its end.
#[derive(Clone, Copy)]
pub struct MatchInfo {
    pub head: HeadInfo,
    pub body_start: usize,
    pub body_end: usize,
    pub semi: bool,
    pub end: usize,
}

/// The occurrence starting at position `i`, if any: a head token followed by
/// a non-empty body running to the first terminator; a semicolon found there
/// belongs to the occurrence.
pub open spec fn match_at(s: Seq<char>, i: int, single_line: bool) -> Option<MatchInfo> {
    match head_at(s, i) {
        None => None,
        Some(h) => {
            let bs = i + h.len;
            let be = body_end(s, bs, single_line);
            if be == bs {
                None
            } else {
                let semi = be < s.len() && s[be] == ';';
                Some(
                    MatchInfo {
                        head: h,
                        body_start: bs as usize,
                        body_end: be as usize,
                        semi,
                        end: (if semi {
                            be + 1
                        } else {
                            be
                        }) as usize,
                    },
                )
            }
        },
    }
}

/// An occurrence stays inside the buffer and is strictly longer than its
/// head.
pub proof fn lemma_match_at_bounds(s: Seq<char>, i: int, single_line: bool)
    requires
        s.len() <= usize::MAX,
    ensures
        match match_at(s, i, single_line) {
            Some(m) => {
                &&& 0 <= i
                &&& i + m.head.len == m.body_start
                &&& m.body_start < m.body_end <= m.end <= s.len()
                &&& m.end - m.body_end <= 1
                &&& head_at(s, i) == Some(m.head)
            },
            None => true,
        },
{
    lemma_head_at_bounds(s, i);
    if head_at(s, i) is Some {
        let h = head_at(s, i)->Some_0;
        lemma_body_end(s, i + h.len, single_line);
    }
}

/// Locates the occurrence starting at character position `i`, if any.
pub fn find_match(s: &str, i: usize, single_line: bool) -> (r: Option<MatchInfo>)
    requires
        i <= s@.len(),
    ensures
        r == match_at(s@, i as int, single_line),
{
    let h = match match_head(s, i) {
        Some(h) => h,
        None => {
            return None;
        },
    };
    proof {
        lemma_head_at_bounds(s@, i as int);
    }
    let n = s.unicode_len();
    let bs = i + h.len;
    let mut be = bs;
    while be < n && s.get_char(be) != ';' && !(single_line && s.get_char(be) == '\n')
        invariant
            bs <= be <= n,
            n == s@.len(),
            forall|k: int| bs <= k < be ==> s@[k] != ';' && (single_line ==> s@[k] != '\n'),
        decreases n - be,
    {
        be += 1;
    }
    proof {
        lemma_body_end(s@, bs as int, single_line);
        let e = body_end(s@, bs as int, single_line);
        if e < be {
            assert(s@[e] != ';' && (single_line ==> s@[e] != '\n'));
        }
        if be < e {
            assert(s@[be as int] != ';' && (single_line ==> s@[be as int] != '\n'));
        }
    }
    if be == bs {
        return None;
    }
    let semi = be < n && s.get_char(be) == ';';
    Some(
        MatchInfo {
            head: h,
            body_start: bs,
            body_end: be,
            semi,
            end: if semi {
                be + 1
            } else {
                be
            },
        },
    )
}

/// The call-type token: the maximal comma-free prefix of the raw parameter
/// text.  Its length is the position of the first comma.
pub open spec fn calltype_len(s: Seq<char>) -> int {
    find_char_from(s, ',', 0)
}

/// Pulls the call-type token off the front of the raw parameter text; `None`
/// when the text starts with a comma or is empty.
pub fn calltype_token(s: &str) -> (r: Option<String>)
    ensures
        r is Some <==> calltype_len(s@) > 0,
        r matches Some(t) ==> t@ == s@.subrange(0, calltype_len(s@)),
{
    proof {
        lemma_find_char_from(s@, ',', 0);
    }
    let k = find_char(s, ',', 0);
    if k == 0 {
        None
    } else {
        Some(s.substring_char(0, k).to_owned())
    }
}

/// The signature-split pattern, applied at or after position `i` of `t`: the
/// first comma that has at least one character before it (within the current
/// segment) and is not followed, immediately, by an opening parenthesis or
/// the end of the text.  The name is the text between the segment start and
/// that comma; the return type is the text between the comma and the first
/// following opening parenthesis.  Both are trimmed.
pub open spec fn sig_split_from(t: Seq<char>, i: int) -> Option<(Seq<char>, Seq<char>)>
    decreases t.len() - i,
    when 0 <= i <= t.len()
{
    let c = find_char_from(t, ',', i);
    if c >= t.len() {
        None
    } else if c > i && c + 1 < t.len() && t[c + 1] != '(' {
        let e = find_char_from(t, '(', c + 1);
        Some((trim(t.subrange(i, c)), trim(t.subrange(c + 1, e))))
    } else {
        proof {
            lemma_find_char_from(t, ',', i);
        }
        sig_split_from(t, c + 1)
    }
}

/// Splits "name, return-type" text on the first splittable comma.
pub open spec fn spec_sig_split(t: Seq<char>) -> Option<(Seq<char>, Seq<char>)> {
    sig_split_from(t, 0)
}

/// Splits signature text into its method name and its return type, both
/// trimmed; `None` when no comma splits the text.
pub fn sig_split(t: &str) -> (r: Option<(String, String)>)
    ensures
        r is Some <==> spec_sig_split(t@) is Some,
        r matches Some(p) ==> spec_sig_split(t@) == Some((p.0@, p.1@)),
{
    let n = t.unicode_len();
    let mut i: usize = 0;
    loop
        invariant
            0 <= i <= n,
            n == t@.len(),
            sig_split_from(t@, i as int) == spec_sig_split(t@),
        decreases n - i,
    {
        proof {
            lemma_find_char_from(t@, ',', i as int);
        }
        let c = find_char(t, ',', i);
        if c >= n {
            return None;
        }
        if c > i && c + 1 < n && t.get_char(c + 1) != '(' {
            proof {
                lemma_find_char_from(t@, '(', c + 1);
            }
            let e = find_char(t, '(', c + 1);
            let name = crate::text::trim_of(t.substring_char(i, c)).to_owned();
            let ret = crate::text::trim_of(t.substring_char(c + 1, e)).to_owned();
            return Some((name, ret));
        }
        i = c + 1;
    }
}

/// The search pattern: one of the two literal prefixes shared by every
/// old-style macro name occurs at position `i`.
pub open spec fn hit_at(s: Seq<char>, i: int) -> bool {
    begins_at(s, i, "MOCK_METHOD"@) || begins_at(s, i, "MOCK_CONST_METHOD"@)
}

/// The length of the literal found at a hit position.
pub open spec fn hit_len(s: Seq<char>, i: int) -> int {
    if begins_at(s, i, "MOCK_METHOD"@) {
        11
    } else {
        17
    }
}

/// The number of non-overlapping search-pattern occurrences at or after
/// position `i`: each hit is counted once and scanning resumes directly
/// behind the matched literal.
pub open spec fn count_hits_from(s: Seq<char>, i: int) -> int
    decreases s.len() - i,
    when 0 <= i <= s.len()
{
    if i >= s.len() {
        0
    } else if hit_at(s, i) {
        proof {
            reveal_strlit("MOCK_METHOD");
            reveal_strlit("MOCK_CONST_METHOD");
        }
        1 + count_hits_from(s, i + hit_len(s, i))
    } else {
        count_hits_from(s, i + 1)
    }
}

/// Some position of `s` carries a search-pattern occurrence.
pub open spec fn any_hit(s: Seq<char>) -> bool {
    exists|i: int| 0 <= i < s.len() && hit_at(s, i)
}

/// Tests for a search-pattern occurrence at character position `i`.
pub fn hit_test(s: &str, i: usize) -> (r: bool)
    ensures
        r == hit_at(s@, i as int),
{
    begins_with(s, i, "MOCK_METHOD") || begins_with(s, i, "MOCK_CONST_METHOD")
}

/// The length of the literal at a hit position.
pub fn hit_length(s: &str, i: usize) -> (r: usize)
    requires
        hit_at(s@, i as int),
    ensures
        r == hit_len(s@, i as int),
{
    if begins_with(s, i, "MOCK_METHOD") {
        11
    } else {
        17
    }
}

/// The two search modes agree on whether a buffer contains an occurrence:
/// the exhaustive count is positive exactly when an existence check succeeds.
pub proof fn lemma_search_modes_agree(s: Seq<char>)
    ensures
        count_hits_from(s, 0) > 0 <==> any_hit(s),
{
    lemma_count_hits_positive(s, 0);
}

proof fn lemma_count_hits_positive(s: Seq<char>, i: int)
    requires
        0 <= i <= s.len(),
    ensures
        count_hits_from(s, i) > 0 <==> exists|j: int| i <= j < s.len() && hit_at(s, j),
        count_hits_from(s, i) >= 0,
    decreases s.len() - i,
{
    reveal_strlit("MOCK_METHOD");
    reveal_strlit("MOCK_CONST_METHOD");
    if i >= s.len() {
    } else if hit_at(s, i) {
        lemma_count_hits_positive(s, i + hit_len(s, i));
    } else {
        lemma_count_hits_positive(s, i + 1);
    }
}

} // verus!
