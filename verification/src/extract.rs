//! Parenthesis-balanced substring extraction.
//!
//! `lextract` scans left to right from an opening parenthesis and returns the
//! text strictly between it and its matching closing parenthesis; `rextract`
//! scans right to left from a closing parenthesis.  Both fail with
//! `UnmatchedParenthesisError` instead of panicking when the input is not
//! balanced.

use vstd::prelude::*;
use crate::errors::GmockSedError;

verus! {

/// The parenthesis nesting depth after the first `i` characters of `s`:
/// the number of `(` minus the number of `)` among them.
pub open spec fn paren_depth(s: Seq<char>, i: int) -> int
    decreases i,
    when 0 <= i <= s.len()
{
    if i <= 0 {
        0
    } else {
        paren_depth(s, i - 1) + (if s[i - 1] == '(' {
            1int
        } else if s[i - 1] == ')' {
            -1int
        } else {
            0int
        })
    }
}

/// The first position `j` at or after `i` where the nesting depth returns to
/// zero, if any.
pub open spec fn first_zero_depth(s: Seq<char>, i: int) -> Option<int>
    decreases s.len() + 1 - i,
    when 1 <= i <= s.len() + 1
{
    if i > s.len() {
        None
    } else if paren_depth(s, i) == 0 {
        Some(i)
    } else {
        first_zero_depth(s, i + 1)
    }
}

pub proof fn lemma_first_zero_depth(s: Seq<char>, i: int)
    requires
        1 <= i <= s.len() + 1,
    ensures
        match first_zero_depth(s, i) {
            Some(j) => i <= j <= s.len() && paren_depth(s, j) == 0 && forall|k: int|
                i <= k < j ==> paren_depth(s, k) != 0,
            None => forall|k: int| i <= k <= s.len() ==> paren_depth(s, k) != 0,
        },
    decreases s.len() + 1 - i,
{
    if i <= s.len() && paren_depth(s, i) != 0 {
        lemma_first_zero_depth(s, i + 1);
    }
}

/// What `lextract` returns: the text strictly between the leading `(` and the
/// first position where the nesting depth returns to zero.
pub open spec fn spec_lextract(s: Seq<char>) -> Option<Seq<char>> {
    match first_zero_depth(s, 1) {
        Some(j) => Some(s.subrange(1, j - 1)),
        None => None,
    }
}

/// Extracts the substring between the opening parenthesis at the start of `s`
/// and its matching closing parenthesis; fails when the scan exhausts the
/// input before the nesting counter returns to zero.
pub fn lextract<'a>(s: &'a str) -> (r: Result<&'a str, GmockSedError>)
    requires
        s@.len() > 0,
        s@[0] == '(',
    ensures
        r is Ok <==> spec_lextract(s@) is Some,
        r matches Ok(x) ==> Some(x@) == spec_lextract(s@),
        r is Err ==> r == Err::<&'a str, GmockSedError>(GmockSedError::UnmatchedParenthesisError),
{
    let n = s.unicode_len();
    let mut i: usize = 0;
    let mut d: i128 = 0;
    while i < n
        invariant
            0 <= i <= n,
            n == s@.len(),
            s@.len() > 0 && s@[0] == '(',
            d == paren_depth(s@, i as int),
            -(i as int) <= d <= i as int,
            forall|j: int| 1 <= j <= i ==> paren_depth(s@, j) != 0,
        decreases n - i,
    {
        let c = s.get_char(i);
        if c == '(' {
            d += 1;
        } else if c == ')' {
            d -= 1;
        }
        i += 1;
        if d == 0 {
            assert(paren_depth(s@, 0int) == 0);
            assert(paren_depth(s@, 1int) == 1);
            assert(first_zero_depth(s@, 1) == Some(i as int)) by {
                lemma_first_zero_depth(s@, 1);
                match first_zero_depth(s@, 1) {
                    Some(j) => {
                        if j < i {
                            assert(paren_depth(s@, j) != 0);
                        }
                        if j > i {
                            assert(paren_depth(s@, i as int) != 0);
                        }
                    },
                    None => {
                        assert(paren_depth(s@, i as int) != 0);
                    },
                }
            }
            return Ok(s.substring_char(1, i - 1));
        }
    }
    assert(first_zero_depth(s@, 1) is None) by {
        lemma_first_zero_depth(s@, 1);
        match first_zero_depth(s@, 1) {
            Some(j) => {
                assert(paren_depth(s@, j) != 0);
            },
            None => {},
        }
    }
    Err(GmockSedError::UnmatchedParenthesisError)
}

/// The nesting depth of the last `k` characters of `s`, scanned right to
/// left: the number of `)` minus the number of `(` among them.
pub open spec fn rparen_depth(s: Seq<char>, k: int) -> int
    decreases k,
    when 0 <= k <= s.len()
{
    if k <= 0 {
        0
    } else {
        rparen_depth(s, k - 1) + (if s[s.len() - k] == ')' {
            1int
        } else if s[s.len() - k] == '(' {
            -1int
        } else {
            0int
        })
    }
}

/// The first count `k` at or beyond `i` of characters, taken from the end of
/// `s`, whose right-to-left nesting depth returns to zero, if any.
pub open spec fn first_rzero_depth(s: Seq<char>, i: int) -> Option<int>
    decreases s.len() + 1 - i,
    when 1 <= i <= s.len() + 1
{
    if i > s.len() {
        None
    } else if rparen_depth(s, i) == 0 {
        Some(i)
    } else {
        first_rzero_depth(s, i + 1)
    }
}

pub proof fn lemma_first_rzero_depth(s: Seq<char>, i: int)
    requires
        1 <= i <= s.len() + 1,
    ensures
        match first_rzero_depth(s, i) {
            Some(j) => i <= j <= s.len() && rparen_depth(s, j) == 0 && forall|k: int|
                i <= k < j ==> rparen_depth(s, k) != 0,
            None => forall|k: int| i <= k <= s.len() ==> rparen_depth(s, k) != 0,
        },
    decreases s.len() + 1 - i,
{
    if i <= s.len() && rparen_depth(s, i) != 0 {
        lemma_first_rzero_depth(s, i + 1);
    }
}

/// What `rextract` returns: the text strictly between the closing parenthesis
/// at the end of `s` and its matching opening parenthesis, found by scanning
/// right to left.
pub open spec fn spec_rextract(s: Seq<char>) -> Option<Seq<char>> {
    match first_rzero_depth(s, 1) {
        Some(k) => Some(s.subrange(s.len() - k + 1, s.len() - 1)),
        None => None,
    }
}

/// Extracts the substring between the closing parenthesis at the end of `s`
/// and its matching opening parenthesis; fails when the scan exhausts the
/// input before the nesting counter returns to zero.
pub fn rextract<'a>(s: &'a str) -> (r: Result<&'a str, GmockSedError>)
    requires
        s@.len() > 0,
        s@[s@.len() - 1] == ')',
    ensures
        r is Ok <==> spec_rextract(s@) is Some,
        r matches Ok(x) ==> Some(x@) == spec_rextract(s@),
        r is Err ==> r == Err::<&'a str, GmockSedError>(GmockSedError::UnmatchedParenthesisError),
{
    let n = s.unicode_len();
    let mut k: usize = 0;
    let mut d: i128 = 0;
    while k < n
        invariant
            0 <= k <= n,
            n == s@.len(),
            s@.len() > 0 && s@[s@.len() - 1] == ')',
            d == rparen_depth(s@, k as int),
            -(k as int) <= d <= k as int,
            forall|j: int| 1 <= j <= k ==> rparen_depth(s@, j) != 0,
        decreases n - k,
    {
        let c = s.get_char(n - 1 - k);
        if c == ')' {
            d += 1;
        } else if c == '(' {
            d -= 1;
        }
        k += 1;
        if d == 0 {
            assert(rparen_depth(s@, 0int) == 0);
            assert(rparen_depth(s@, 1int) == 1);
            assert(first_rzero_depth(s@, 1) == Some(k as int)) by {
                lemma_first_rzero_depth(s@, 1);
                match first_rzero_depth(s@, 1) {
                    Some(j) => {
                        if j < k {
                            assert(rparen_depth(s@, j) != 0);
                        }
                        if j > k {
                            assert(rparen_depth(s@, k as int) != 0);
                        }
                    },
                    None => {
                        assert(rparen_depth(s@, k as int) != 0);
                    },
                }
            }
            return Ok(s.substring_char(n - k + 1, n - 1));
        }
    }
    assert(first_rzero_depth(s@, 1) is None) by {
        lemma_first_rzero_depth(s@, 1);
        match first_rzero_depth(s@, 1) {
            Some(j) => {
                assert(rparen_depth(s@, j) != 0);
            },
            None => {},
        }
    }
    Err(GmockSedError::UnmatchedParenthesisError)
}

/// A successful right-to-left extraction sits at the end of its input: the
/// extracted text plus its two parentheses never exceeds the input's length.
pub proof fn lemma_rextract_len(s: Seq<char>)
    requires
        s.len() > 0,
        s[s.len() - 1] == ')',
    ensures
        match spec_rextract(s) {
            Some(t) => t.len() + 2 <= s.len() && t == s.subrange(s.len() - t.len() - 1, s.len() - 1),
            None => true,
        },
{
    lemma_first_rzero_depth(s, 1);
    match first_rzero_depth(s, 1) {
        Some(k) => {
            assert(rparen_depth(s, 0int) == 0);
            assert(rparen_depth(s, 1int) == 1);
            assert(k >= 2);
        },
        None => {},
    }
}

/// `s` has balanced parentheses: the depth ends at zero and never goes
/// negative along the way.
pub open spec fn balanced_parens(s: Seq<char>) -> bool {
    paren_depth(s, s.len() as int) == 0 && forall|i: int|
        0 <= i <= s.len() ==> paren_depth(s, i) >= 0
}

/// `s` wrapped in one pair of parentheses.
pub open spec fn wrap_parens(s: Seq<char>) -> Seq<char> {
    seq!['('] + s + seq![')']
}

proof fn lemma_wrap_depth(s: Seq<char>, i: int)
    requires
        0 <= i <= s.len(),
    ensures
        paren_depth(wrap_parens(s), i + 1) == 1 + paren_depth(s, i),
    decreases i,
{
    let t = wrap_parens(s);
    if i == 0 {
        assert(t[0] == '(');
        assert(paren_depth(t, 0int) == 0);
        assert(paren_depth(s, 0int) == 0);
        assert(paren_depth(t, 1int) == paren_depth(t, 0int) + 1);
    } else {
        lemma_wrap_depth(s, i - 1);
        assert(t[i] == s[i - 1]);
        assert(paren_depth(t, i + 1) == paren_depth(t, i) + (if t[i] == '(' {
            1int
        } else if t[i] == ')' {
            -1int
        } else {
            0int
        }));
    }
}

/// Balancing correctness: extracting from an opening parenthesis returns
/// exactly the wrapped text whenever that text is itself balanced, however
/// deeply its own parentheses nest.
pub proof fn lemma_lextract_of_balanced(s: Seq<char>)
    requires
        balanced_parens(s),
    ensures
        spec_lextract(wrap_parens(s)) == Some(s),
{
    let t = wrap_parens(s);
    let n = s.len() as int;
    assert forall|i: int| 1 <= i <= n + 1 implies paren_depth(t, i) >= 1 by {
        lemma_wrap_depth(s, i - 1);
    }
    assert(paren_depth(t, n + 2) == 0) by {
        lemma_wrap_depth(s, n);
        assert(t[n + 1] == ')');
        assert(paren_depth(t, n + 2) == paren_depth(t, n + 1) - 1);
    }
    lemma_first_zero_depth(t, 1);
    match first_zero_depth(t, 1) {
        Some(j) => {
            if j < n + 2 {
                assert(paren_depth(t, j) >= 1);
            }
            assert(j == n + 2);
            assert(t.subrange(1, j - 1) =~= s);
        },
        None => {
            assert(paren_depth(t, n + 2) != 0);
        },
    }
}

} // verus!
