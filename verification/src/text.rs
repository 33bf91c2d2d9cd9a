//! Character-level helpers shared by the pattern library and the rewrite
//! engine: white-space classification, trimming, literal matching and
//! counting of characters.

use vstd::prelude::*;

verus! {

/// The Unicode white-space characters (the `White_Space` property).
pub open spec fn is_space(c: char) -> bool {
    ||| c == ' '
    ||| c == '\t'
    ||| c == '\n'
    ||| c == '\u{b}'
    ||| c == '\u{c}'
    ||| c == '\r'
    ||| c == '\u{85}'
    ||| c == '\u{a0}'
    ||| c == '\u{1680}'
    ||| c == '\u{2000}'
    ||| c == '\u{2001}'
    ||| c == '\u{2002}'
    ||| c == '\u{2003}'
    ||| c == '\u{2004}'
    ||| c == '\u{2005}'
    ||| c == '\u{2006}'
    ||| c == '\u{2007}'
    ||| c == '\u{2008}'
    ||| c == '\u{2009}'
    ||| c == '\u{200a}'
    ||| c == '\u{2028}'
    ||| c == '\u{2029}'
    ||| c == '\u{202f}'
    ||| c == '\u{205f}'
    ||| c == '\u{3000}'
}

/// Decides white space, as `trim` understands it.
pub fn ws_char(c: char) -> (r: bool)
    ensures
        r == is_space(c),
{
    c == ' ' || c == '\t' || c == '\n' || c == '\u{b}' || c == '\u{c}' || c == '\r'
        || c == '\u{85}' || c == '\u{a0}' || c == '\u{1680}' || c == '\u{2000}' || c == '\u{2001}'
        || c == '\u{2002}' || c == '\u{2003}' || c == '\u{2004}' || c == '\u{2005}' || c
        == '\u{2006}' || c == '\u{2007}' || c == '\u{2008}' || c == '\u{2009}' || c == '\u{200a}'
        || c == '\u{2028}' || c == '\u{2029}' || c == '\u{202f}' || c == '\u{205f}' || c
        == '\u{3000}'
}

/// The end of the white-space run that starts at position `i`.
pub open spec fn ws_run_end(s: Seq<char>, i: int) -> int
    decreases s.len() - i,
    when 0 <= i <= s.len()
{
    if i >= s.len() || !is_space(s[i]) {
        i
    } else {
        ws_run_end(s, i + 1)
    }
}

pub proof fn lemma_ws_run_end(s: Seq<char>, i: int)
    requires
        0 <= i <= s.len(),
    ensures
        i <= ws_run_end(s, i) <= s.len(),
        forall|j: int| i <= j < ws_run_end(s, i) ==> is_space(s[j]),
        ws_run_end(s, i) < s.len() ==> !is_space(s[ws_run_end(s, i)]),
    decreases s.len() - i,
{
    if i < s.len() && is_space(s[i]) {
        lemma_ws_run_end(s, i + 1);
    }
}

/// The start of the white-space run that ends just before position `j`.
pub open spec fn ws_run_start(s: Seq<char>, j: int) -> int
    decreases j,
    when 0 <= j <= s.len()
{
    if j <= 0 || !is_space(s[j - 1]) {
        j
    } else {
        ws_run_start(s, j - 1)
    }
}

pub proof fn lemma_ws_run_start(s: Seq<char>, j: int)
    requires
        0 <= j <= s.len(),
    ensures
        0 <= ws_run_start(s, j) <= j,
        forall|k: int| ws_run_start(s, j) <= k < j ==> is_space(s[k]),
        ws_run_start(s, j) > 0 ==> !is_space(s[ws_run_start(s, j) - 1]),
    decreases j,
{
    if j > 0 && is_space(s[j - 1]) {
        lemma_ws_run_start(s, j - 1);
    }
}

/// `s` with leading and trailing white space removed.
pub open spec fn trim(s: Seq<char>) -> Seq<char> {
    let a = ws_run_end(s, 0);
    if a == s.len() {
        Seq::empty()
    } else {
        s.subrange(a, ws_run_start(s, s.len() as int))
    }
}

/// The main facts about `trim`: it is a contiguous slice of `s`, the removed
/// characters are all white space, and a non-empty result neither starts nor
/// ends with white space.
pub proof fn lemma_trim(s: Seq<char>)
    ensures
        trim(s).len() <= s.len(),
        ({
            let a = ws_run_end(s, 0);
            let b = if a == s.len() {
                a
            } else {
                ws_run_start(s, s.len() as int)
            };
            &&& 0 <= a <= b <= s.len()
            &&& trim(s) == s.subrange(a, b)
            &&& forall|j: int| 0 <= j < a ==> is_space(s[j])
            &&& forall|j: int| b <= j < s.len() ==> is_space(s[j])
            &&& a < b ==> !is_space(s[a]) && !is_space(s[b - 1])
        }),
{
    let a = ws_run_end(s, 0);
    lemma_ws_run_end(s, 0);
    if a == s.len() {
        assert(trim(s) == s.subrange(a, a));
    } else {
        let b = ws_run_start(s, s.len() as int);
        lemma_ws_run_start(s, s.len() as int);
        assert(a < b) by {
            if b <= a {
                assert(is_space(s[a]));
            }
        }
    }
}

/// Trims white space from both ends of `s`.
pub fn trim_of<'a>(s: &'a str) -> (r: &'a str)
    ensures
        r@ == trim(s@),
{
    proof {
        lemma_trim(s@);
    }
    let n = s.unicode_len();
    let mut a: usize = 0;
    while a < n && ws_char(s.get_char(a))
        invariant
            0 <= a <= n,
            n == s@.len(),
            forall|j: int| 0 <= j < a ==> is_space(s@[j]),
        decreases n - a,
    {
        a += 1;
    }
    assert(a == ws_run_end(s@, 0)) by {
        lemma_ws_run_end(s@, 0);
        let e = ws_run_end(s@, 0);
        if a < e {
            assert(is_space(s@[a as int]));
        }
        if e < a {
            assert(is_space(s@[e]));
        }
    }
    if a == n {
        let r = s.substring_char(n, n);
        assert(r@ =~= trim(s@));
        return r;
    }
    let mut b: usize = n;
    while b > a && ws_char(s.get_char(b - 1))
        invariant
            a <= b <= n,
            n == s@.len(),
            a < n && !is_space(s@[a as int]),
            forall|j: int| b <= j < n ==> is_space(s@[j]),
        decreases b,
    {
        b -= 1;
    }
    assert(b == ws_run_start(s@, s@.len() as int)) by {
        lemma_ws_run_start(s@, s@.len() as int);
        let w = ws_run_start(s@, s@.len() as int);
        if b < w {
            assert(is_space(s@[b as int]));
        }
        if w < b {
            assert(is_space(s@[b - 1]));
        }
    }
    s.substring_char(a, b)
}

/// `p` occurs in `s` starting at position `i`.
pub open spec fn begins_at(s: Seq<char>, i: int, p: Seq<char>) -> bool {
    0 <= i && i + p.len() <= s.len() && s.subrange(i, i + p.len()) == p
}

/// Two adjacent occurrences compose to an occurrence of the concatenation.
pub proof fn lemma_begins_concat(s: Seq<char>, i: int, a: Seq<char>, b: Seq<char>)
    requires
        begins_at(s, i, a),
        begins_at(s, i + a.len(), b),
    ensures
        begins_at(s, i, a + b),
{
    assert(s.subrange(i, i + a.len() + b.len()) =~= a + b) by {
        assert forall|k: int| 0 <= k < a.len() + b.len() implies s.subrange(
            i,
            i + a.len() + b.len(),
        )[k] == (a + b)[k] by {
            if k < a.len() {
                assert(a[k] == s.subrange(i, i + a.len())[k]);
            } else {
                assert(b[k - a.len()] == s.subrange(i + a.len(), i + a.len() + b.len())[k - a.len()]);
            }
        }
    }
}

/// An occurrence of a literal is an occurrence of each of its prefixes.
pub proof fn lemma_begins_prefix(s: Seq<char>, i: int, p: Seq<char>, m: int)
    requires
        begins_at(s, i, p),
        0 <= m <= p.len(),
    ensures
        begins_at(s, i, p.take(m)),
{
    assert(s.subrange(i, i + m) =~= p.take(m)) by {
        assert forall|k: int| 0 <= k < m implies s.subrange(i, i + m)[k] == p.take(m)[k] by {
            assert(p[k] == s.subrange(i, i + p.len())[k]);
        }
    }
}

/// Whether the literal `lit` occurs in `s` at character position `i`.
pub fn begins_with(s: &str, i: usize, lit: &str) -> (r: bool)
    ensures
        r == begins_at(s@, i as int, lit@),
{
    let n = s.unicode_len();
    let m = lit.unicode_len();
    if m > n || i > n - m {
        assert(!begins_at(s@, i as int, lit@));
        return false;
    }
    let mut j: usize = 0;
    while j < m
        invariant
            0 <= j <= m,
            i + m <= n,
            n == s@.len(),
            m == lit@.len(),
            forall|k: int| 0 <= k < j ==> s@[i + k] == lit@[k],
        decreases m - j,
    {
        if s.get_char(i + j) != lit.get_char(j) {
            assert(!begins_at(s@, i as int, lit@)) by {
                if begins_at(s@, i as int, lit@) {
                    assert(s@.subrange(i as int, i + m)[j as int] == lit@[j as int]);
                }
            }
            return false;
        }
        j += 1;
    }
    assert(s@.subrange(i as int, i + m) =~= lit@);
    true
}

/// Character-by-character string equality.
pub fn str_eq(a: &str, b: &str) -> (r: bool)
    ensures
        r == (a@ == b@),
{
    let n = a.unicode_len();
    let m = b.unicode_len();
    if n != m {
        return false;
    }
    let mut i: usize = 0;
    while i < n
        invariant
            0 <= i <= n,
            n == a@.len(),
            n == b@.len(),
            forall|j: int| 0 <= j < i ==> a@[j] == b@[j],
        decreases n - i,
    {
        if a.get_char(i) != b.get_char(i) {
            return false;
        }
        i += 1;
    }
    proof {
        assert(a@ =~= b@);
    }
    true
}

/// `s` contains the character `c`.
pub open spec fn has_char(s: Seq<char>, c: char) -> bool {
    exists|i: int| 0 <= i < s.len() && s[i] == c
}

/// Whether `c` occurs anywhere in `s`.
pub fn contains_char(s: &str, c: char) -> (r: bool)
    ensures
        r == has_char(s@, c),
{
    let n = s.unicode_len();
    let mut i: usize = 0;
    while i < n
        invariant
            0 <= i <= n,
            n == s@.len(),
            forall|j: int| 0 <= j < i ==> s@[j] != c,
        decreases n - i,
    {
        if s.get_char(i) == c {
            return true;
        }
        i += 1;
    }
    false
}

/// The number of occurrences of `c` in `s` at or after position `i`.
pub open spec fn char_count_from(s: Seq<char>, c: char, i: int) -> int
    decreases s.len() - i,
    when 0 <= i <= s.len()
{
    if i >= s.len() {
        0
    } else {
        (if s[i] == c {
            1int
        } else {
            0int
        }) + char_count_from(s, c, i + 1)
    }
}

pub proof fn lemma_char_count_from(s: Seq<char>, c: char, i: int)
    requires
        0 <= i <= s.len(),
    ensures
        0 <= char_count_from(s, c, i) <= s.len() - i,
    decreases s.len() - i,
{
    if i < s.len() {
        lemma_char_count_from(s, c, i + 1);
    }
}

/// Counts the occurrences of `c` in `s`.
pub fn count_chars(s: &str, c: char) -> (r: usize)
    ensures
        r == char_count_from(s@, c, 0),
{
    let n = s.unicode_len();
    let mut i: usize = 0;
    let mut cnt: usize = 0;
    proof {
        lemma_char_count_from(s@, c, 0);
    }
    while i < n
        invariant
            0 <= i <= n,
            n == s@.len(),
            cnt <= i,
            cnt + char_count_from(s@, c, i as int) == char_count_from(s@, c, 0),
        decreases n - i,
    {
        if s.get_char(i) == c {
            cnt += 1;
        }
        i += 1;
    }
    cnt
}

/// The position of the first occurrence of `c` in `s` at or after `i`, or the
/// length of `s` when there is none.
pub open spec fn find_char_from(s: Seq<char>, c: char, i: int) -> int
    decreases s.len() - i,
    when 0 <= i <= s.len()
{
    if i >= s.len() {
        i
    } else if s[i] == c {
        i
    } else {
        find_char_from(s, c, i + 1)
    }
}

pub proof fn lemma_find_char_from(s: Seq<char>, c: char, i: int)
    requires
        0 <= i <= s.len(),
    ensures
        i <= find_char_from(s, c, i) <= s.len(),
        forall|j: int| i <= j < find_char_from(s, c, i) ==> s[j] != c,
        find_char_from(s, c, i) < s.len() ==> s[find_char_from(s, c, i)] == c,
    decreases s.len() - i,
{
    if i < s.len() && s[i] != c {
        lemma_find_char_from(s, c, i + 1);
    }
}

/// Finds the first occurrence of `c` in `s` at or after `i`; returns the
/// length of `s` when there is none.
pub fn find_char(s: &str, c: char, i: usize) -> (r: usize)
    requires
        i <= s@.len(),
    ensures
        r == find_char_from(s@, c, i as int),
{
    let n = s.unicode_len();
    let mut j: usize = i;
    while j < n
        invariant
            i <= j <= n,
            n == s@.len(),
            forall|k: int| i <= k < j ==> s@[k] != c,
        decreases n - j,
    {
        if s.get_char(j) == c {
            proof {
                lemma_find_char_from(s@, c, i as int);
                let f = find_char_from(s@, c, i as int);
                if f < j {
                    assert(s@[f] == c);
                }
            }
            return j;
        }
        j += 1;
    }
    proof {
        lemma_find_char_from(s@, c, i as int);
        let f = find_char_from(s@, c, i as int);
        if f < n {
            assert(s@[f] == c);
        }
    }
    n
}

} // verus!
