//! The argument list of one invocation, and the comma protector.
//!
//! An argument list renders empty when it is blank or spells `void`; when its
//! top-level comma count disagrees with the declared argument count, every
//! top-level segment that itself contains a comma (a template type such as
//! `std::map<int, double>`) is wrapped in parentheses, so that the canonical
//! macro reads one argument per top-level comma.

use vstd::prelude::*;
use crate::errors::GmockSedError;
use crate::extract::{rextract, spec_rextract};
use crate::text::{
    char_count_from, contains_char, count_chars, has_char, is_space, lemma_ws_run_end,
    lemma_ws_run_start, trim, trim_of, ws_char, ws_run_end, ws_run_start,
};

verus! {

/// What `protect` returns: a segment that contains a comma is wrapped in one
/// pair of parentheses, placed inside its leading and trailing white space;
/// a segment without a comma passes through unchanged.
pub open spec fn spec_protect(s: Seq<char>) -> Seq<char> {
    if !has_char(s, ',') {
        s
    } else {
        let a = ws_run_end(s, 0);
        let b = ws_run_start(s, s.len() as int);
        s.subrange(0, a) + seq!['('] + s.subrange(a, b) + seq![')'] + s.subrange(b, s.len() as int)
    }
}

/// Splits `s` into its leading white space, its trimmed core, and its
/// trailing white space.
pub fn trimmings<'a>(s: &'a str) -> (r: (&'a str, &'a str, &'a str))
    requires
        exists|i: int| 0 <= i < s@.len() && !is_space(s@[i]),
    ensures
        ({
            let a = ws_run_end(s@, 0);
            let b = ws_run_start(s@, s@.len() as int);
            &&& r.0@ == s@.subrange(0, a)
            &&& r.1@ == s@.subrange(a, b)
            &&& r.2@ == s@.subrange(b, s@.len() as int)
        }),
{
    let n = s.unicode_len();
    let mut a: usize = 0;
    while a < n && ws_char(s.get_char(a))
        invariant
            0 <= a <= n,
            n == s@.len(),
            forall|j: int| 0 <= j < a ==> is_space(s@[j]),
        decreases n - a,
    {
        a += 1;
    }
    assert(a == ws_run_end(s@, 0)) by {
        lemma_ws_run_end(s@, 0);
        let e = ws_run_end(s@, 0);
        if a < e {
            assert(is_space(s@[a as int]));
        }
        if e < a {
            assert(is_space(s@[e]));
        }
    }
    let mut b: usize = n;
    while b > 0 && ws_char(s.get_char(b - 1))
        invariant
            0 <= b <= n,
            n == s@.len(),
            forall|j: int| b <= j < n ==> is_space(s@[j]),
        decreases b,
    {
        b -= 1;
    }
    assert(b == ws_run_start(s@, s@.len() as int)) by {
        lemma_ws_run_start(s@, s@.len() as int);
        let w = ws_run_start(s@, s@.len() as int);
        if b < w {
            assert(is_space(s@[b as int]));
        }
        if w < b {
            assert(is_space(s@[b - 1]));
        }
    }
    assert(a <= b) by {
        if b < a {
            let i = choose|i: int| 0 <= i < s@.len() && !is_space(s@[i]);
            assert(is_space(s@[i]));
        }
    }
    (s.substring_char(0, a), s.substring_char(a, b), s.substring_char(b, n))
}

/// Wraps `s` in parentheses, inside its surrounding white space, when it
/// contains a comma; returns it unchanged otherwise.
pub fn protect(s: &str) -> (r: String)
    ensures
        r@ == spec_protect(s@),
{
    if !contains_char(s, ',') {
        return s.to_owned();
    }
    assert(exists|i: int| 0 <= i < s@.len() && !is_space(s@[i])) by {
        let i = choose|i: int| 0 <= i < s@.len() && s@[i] == ',';
        assert(!is_space(s@[i]));
    }
    let (lead, core, trail) = trimmings(s);
    let mut r = lead.to_owned();
    r.append("(");
    r.append(core);
    r.append(")");
    r.append(trail);
    proof {
        reveal_strlit("(");
        reveal_strlit(")");
        assert("("@ =~= seq!['(']);
        assert(")"@ =~= seq![')']);
    }
    r
}

/// The angle-bracket depth change a character causes.
pub open spec fn angle_delta(c: char) -> int {
    if c == '<' {
        1
    } else if c == '>' {
        -1
    } else {
        0
    }
}

/// The first comma at angle-bracket depth zero, scanning from position `i`
/// with current depth `d`; `None` when the scan exhausts the text.
pub open spec fn tl_comma_from(s: Seq<char>, i: int, d: int) -> Option<int>
    decreases s.len() - i,
    when 0 <= i <= s.len()
{
    if i >= s.len() {
        None
    } else if s[i] == ',' && d == 0 {
        Some(i)
    } else {
        tl_comma_from(s, i + 1, d + angle_delta(s[i]))
    }
}

pub proof fn lemma_tl_comma_from(s: Seq<char>, i: int, d: int)
    requires
        0 <= i <= s.len(),
    ensures
        match tl_comma_from(s, i, d) {
            Some(c) => i <= c < s.len() && s[c] == ',',
            None => true,
        },
    decreases s.len() - i,
{
    if i < s.len() && !(s[i] == ',' && d == 0) {
        lemma_tl_comma_from(s, i + 1, d + angle_delta(s[i]));
    }
}

/// Finds the first comma at angle-bracket depth zero at or after `start`,
/// counting depth from `start`.
pub fn find_tl_comma(s: &str, start: usize) -> (r: Option<usize>)
    requires
        start <= s@.len(),
    ensures
        r is Some <==> tl_comma_from(s@, start as int, 0) is Some,
        r matches Some(c) ==> Some(c as int) == tl_comma_from(s@, start as int, 0),
{
    let n = s.unicode_len();
    let mut i: usize = start;
    let mut d: i128 = 0;
    while i < n
        invariant
            start <= i <= n,
            n == s@.len(),
            -(i as int) <= d <= i as int,
            tl_comma_from(s@, i as int, d as int) == tl_comma_from(s@, start as int, 0),
        decreases n - i,
    {
        let c = s.get_char(i);
        if c == ',' && d == 0 {
            return Some(i);
        }
        if c == '<' {
            d += 1;
        } else if c == '>' {
            d -= 1;
        }
        i += 1;
    }
    None
}

/// The comma-protected rendering of `s` from position `i` on: each top-level
/// segment goes through `protect`, and the segments are rejoined with their
/// top-level commas.
pub open spec fn spec_protected(s: Seq<char>, i: int) -> Seq<char>
    decreases s.len() - i,
    when 0 <= i <= s.len()
{
    match tl_comma_from(s, i, 0) {
        None => spec_protect(s.subrange(i, s.len() as int)),
        Some(c) => {
            proof {
                lemma_tl_comma_from(s, i, 0);
            }
            spec_protect(s.subrange(i, c)) + seq![','] + spec_protected(s, c + 1)
        },
    }
}

/// The argument list did not trim to `void`: the original macros spell `void`
/// for a zero-argument method, and the canonical form drops it.
pub open spec fn spec_is_void(args: Seq<char>) -> bool {
    trim(args) == "void"@
}

/// The trimmed argument text ends with a comma.
pub open spec fn spec_trailing_comma(args: Seq<char>) -> bool {
    let b = ws_run_start(args, args.len() as int);
    b > 0 && args[b - 1] == ','
}

/// The top-level comma count plus one disagrees with the declared argument
/// count, which means some comma sits inside a template argument list and the
/// segments need protecting.  A trailing comma does not open a new segment.
pub open spec fn spec_unprotected_comma(args: Seq<char>, argc: int) -> bool {
    argc != char_count_from(args, ',', 0) + (if spec_trailing_comma(args) {
        0int
    } else {
        1int
    })
}

/// How an argument list renders inside the canonical macro: nothing when it
/// is blank or spells `void`; the comma-protected form when the declared
/// count disagrees with the comma count; the raw text otherwise.
pub open spec fn spec_args_render(args: Seq<char>, argc: int) -> Seq<char> {
    if args.len() == 0 || spec_is_void(args) {
        Seq::empty()
    } else if spec_unprotected_comma(args, argc) {
        spec_protected(args, 0)
    } else {
        args
    }
}

/// Void elision: an argument list that is literally empty, or that trims to
/// exactly `void` whatever white space surrounds it, renders as an empty
/// argument list.
pub proof fn lemma_void_elision(args: Seq<char>, argc: int)
    ensures
        args.len() == 0 || trim(args) == "void"@ ==> spec_args_render(args, argc) == Seq::<
            char,
        >::empty(),
{
}

/// The raw argument list of one invocation, together with the declared
/// argument count taken from the macro name's numeric suffix.
pub struct Args {
    pub args: String,
    pub argc: usize,
}

impl Args {
    /// Isolates the method's own argument list: the text between the last
    /// unmatched parenthesis pair of `s`, scanned from the closing
    /// parenthesis at the end.  Fails when `s` does not end in a closing
    /// parenthesis or the scan finds no matching opening one.
    pub fn new(s: &str, argc: usize) -> (r: Result<Args, GmockSedError>)
        ensures
            ({
                let o = spec_args_of(s@);
                &&& r is Ok <==> o is Some
                &&& (r matches Ok(a) ==> o == Some(a.args@) && a.argc == argc)
                &&& (r is Err ==> r == Err::<Args, GmockSedError>(
                    GmockSedError::UnmatchedParenthesisError,
                ))
            }),
    {
        let n = s.unicode_len();
        if n == 0 || s.get_char(n - 1) != ')' {
            return Err(GmockSedError::UnmatchedParenthesisError);
        }
        match rextract(s) {
            Ok(a) => Ok(Args { args: a.to_owned(), argc }),
            Err(_) => Err(GmockSedError::UnmatchedParenthesisError),
        }
    }

    /// Drops this argument list, with its parentheses, from the end of `s`.
    pub fn strip_self<'a>(&self, s: &'a str) -> (r: &'a str)
        requires
            self.args@.len() + 2 <= s@.len(),
        ensures
            r@ == s@.subrange(0, s@.len() - self.args@.len() - 2),
    {
        let n = s.unicode_len();
        let m = self.args.as_str().unicode_len();
        s.substring_char(0, n - m - 2)
    }

    /// The argument text is literally empty.
    pub fn empty(&self) -> (r: bool)
        ensures
            r == (self.args@.len() == 0),
    {
        self.args.as_str().unicode_len() == 0
    }

    /// The argument text trims to exactly `void`.
    pub fn void(&self) -> (r: bool)
        ensures
            r == spec_is_void(self.args@),
    {
        crate::text::str_eq(trim_of(self.args.as_str()), "void")
    }

    /// The number of commas in the argument text, at any depth.
    pub fn comma_count(&self) -> (r: usize)
        ensures
            r == char_count_from(self.args@, ',', 0),
    {
        count_chars(self.args.as_str(), ',')
    }

    /// The trimmed argument text ends with a comma.
    pub fn trailing_comma(&self) -> (r: bool)
        ensures
            r == spec_trailing_comma(self.args@),
    {
        let s = self.args.as_str();
        let n = s.unicode_len();
        let mut b: usize = n;
        while b > 0 && ws_char(s.get_char(b - 1))
            invariant
                0 <= b <= n,
                n == s@.len(),
                forall|j: int| b <= j < n ==> is_space(s@[j]),
            decreases b,
        {
            b -= 1;
        }
        assert(b == ws_run_start(s@, s@.len() as int)) by {
            lemma_ws_run_start(s@, s@.len() as int);
            let w = ws_run_start(s@, s@.len() as int);
            if b < w {
                assert(is_space(s@[b as int]));
            }
            if w < b {
                assert(is_space(s@[b - 1]));
            }
        }
        b > 0 && s.get_char(b - 1) == ','
    }

    /// The declared argument count disagrees with the top-level comma count,
    /// so at least one comma is unprotected.
    pub fn contains_unprotected_comma(&self) -> (r: bool)
        ensures
            r == spec_unprotected_comma(self.args@, self.argc as int),
    {
        let cc = self.comma_count();
        let tc = self.trailing_comma();
        proof {
            crate::text::lemma_char_count_from(self.args@, ',', 0);
        }
        if tc {
            self.argc != cc
        } else {
            !(self.argc >= 1 && self.argc - 1 == cc)
        }
    }

    /// Wraps each top-level comma-separated segment that itself contains a
    /// comma in parentheses, and rejoins the segments with their top-level
    /// commas.
    pub fn protected(&self) -> (r: String)
        ensures
            r@ == spec_protected(self.args@, 0),
    {
        let s = self.args.as_str();
        let n = s.unicode_len();
        let mut out = String::new();
        let mut i: usize = 0;
        loop
            invariant
                0 <= i <= n,
                n == s@.len(),
                s@ == self.args@,
                out@ + spec_protected(s@, i as int) == spec_protected(s@, 0),
            decreases n - i,
        {
            proof {
                lemma_tl_comma_from(s@, i as int, 0);
                reveal_strlit(",");
                assert(","@ =~= seq![',']);
            }
            match find_tl_comma(s, i) {
                None => {
                    let seg = protect(s.substring_char(i, n));
                    out.append(seg.as_str());
                    return out;
                },
                Some(c) => {
                    let seg = protect(s.substring_char(i, c));
                    out.append(seg.as_str());
                    out.append(",");
                    i = c + 1;
                },
            }
        }
    }

    /// Renders the argument list for the canonical macro: empty for a blank
    /// or `void` list, protected when the declared count disagrees with the
    /// comma count, verbatim otherwise.
    pub fn render(&self) -> (r: String)
        ensures
            r@ == spec_args_render(self.args@, self.argc as int),
    {
        if self.empty() || self.void() {
            String::new()
        } else if self.contains_unprotected_comma() {
            self.protected()
        } else {
            self.args.clone()
        }
    }
}

/// What `Args::new` extracts: the close-anchored balanced group at the end of
/// `s`, provided `s` ends with a closing parenthesis.
pub open spec fn spec_args_of(s: Seq<char>) -> Option<Seq<char>> {
    if s.len() == 0 || s[s.len() - 1] != ')' {
        None
    } else {
        spec_rextract(s)
    }
}

} // verus!
