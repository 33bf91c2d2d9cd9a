//! The rewrite orchestrator.
//!
//! `replace` scans a buffer for every non-overlapping occurrence of the
//! old-style macro family, threads each one through the qualifier resolver,
//! the balanced extractor and the signature builder, and splices the rendered
//! canonical macro in place of the match.  A match that fails to parse is
//! passed through verbatim and recorded as a diagnostic line; the scan always
//! completes the buffer.

use vstd::prelude::*;
use crate::errors::GmockSedError;
use crate::extract::{lextract, spec_lextract};
use crate::patterns::{
    calltype_len, find_match, head_at, lemma_match_at_bounds, match_at, HeadInfo,
};
use crate::quals::Qualifiers;
use crate::signature::{spec_mock_render, spec_signature, MockMethod, Signature};
use crate::text::{str_eq, trim, trim_of};

verus! {

/// Whether an invocation's argument list may span line breaks: a single-line
/// scan ends a body at the first newline as well as at the first semicolon.
#[derive(Clone, Copy)]
pub enum ReplaceMode {
    SingleLine,
    MultiLine,
}

/// What one located match turns into: the rendered canonical macro, or the
/// error that explains why the match was left untouched.  The body is trimmed
/// and balance-extracted; a declared call-type token is pulled off the front
/// of the parameters; the rest is parsed as a signature.
#[verifier::opaque]
pub open spec fn spec_transform(
    h: HeadInfo,
    body: Seq<char>,
    semi: bool,
    add_override: bool,
) -> Result<Seq<char>, GmockSedError> {
    let b = trim(body);
    if b.len() == 0 || b[0] != '(' {
        Err(GmockSedError::UnmatchedParenthesisError)
    } else {
        match spec_lextract(b) {
            None => Err(GmockSedError::UnmatchedParenthesisError),
            Some(params) => {
                if h.has_calltype && calltype_len(params) == 0 {
                    Err(GmockSedError::ParseSignatureError)
                } else {
                    let k = if h.has_calltype {
                        calltype_len(params)
                    } else {
                        0
                    };
                    let ct = if h.has_calltype {
                        Some(params.subrange(0, k))
                    } else {
                        None
                    };
                    let s2 = trim(params.subrange(k, params.len() as int));
                    match spec_signature(s2) {
                        Err(e) => Err(e),
                        Ok(parts) => Ok(
                            spec_mock_render(
                                parts.0,
                                parts.1,
                                parts.2,
                                h.argc as int,
                                h.is_const,
                                add_override,
                                ct,
                                semi,
                            ),
                        ),
                    }
                }
            },
        }
    }
}

/// Rewrites one located match, or reports why it cannot be rewritten.
fn transform(h: HeadInfo, body: &str, semi: bool, add_override: bool) -> (r: Result<
    String,
    GmockSedError,
>)
    ensures
        match spec_transform(h, body@, semi, add_override) {
            Ok(t) => r matches Ok(x) && x@ == t,
            Err(e) => r == Err::<String, GmockSedError>(e),
        },
{
    proof {
        reveal(spec_transform);
    }
    let b = trim_of(body);
    let bn = b.unicode_len();
    if bn == 0 || b.get_char(0) != '(' {
        return Err(GmockSedError::UnmatchedParenthesisError);
    }
    let params = match lextract(b) {
        Ok(p) => p,
        Err(_) => {
            return Err(GmockSedError::UnmatchedParenthesisError);
        },
    };
    proof {
        crate::text::lemma_find_char_from(params@, ',', 0);
    }
    let q = Qualifiers::new(h, add_override);
    let q = match q.calltype(params) {
        Ok(q) => q,
        Err(e) => {
            return Err(e);
        },
    };
    let rest = q.strip_self(params);
    let s2 = trim_of(rest);
    let sig = match Signature::new(s2, q.argc) {
        Ok(s) => s,
        Err(e) => {
            return Err(e);
        },
    };
    Ok(MockMethod::new(sig, q, semi).render())
}

/// One diagnostic line: the error name and the untouched original text of the
/// match it applies to.
pub open spec fn err_line(e: GmockSedError, original: Seq<char>) -> Seq<char> {
    "  "@ + e.spec_text() + ":\t"@ + original
}

fn err_line_of(e: GmockSedError, original: &str) -> (r: String)
    ensures
        r@ == err_line(e, original@),
{
    let mut r = "  ".to_owned();
    r.append(e.text());
    r.append(":\t");
    r.append(original);
    r
}

/// The outcome of rewriting a buffer suffix: the rewritten text, the number
/// of matches found, and the diagnostic lines of the matches that failed, in
/// scan order.
pub ghost struct RewriteSpec {
    pub out: Seq<char>,
    pub total: int,
    pub errs: Seq<Seq<char>>,
}

/// The rewrite of `s` from position `i` on.  Text outside matches is copied
/// verbatim; each match contributes its canonical rendering, or, when it
/// fails to parse, its original text plus one diagnostic line; scanning
/// resumes directly behind the match either way.
pub open spec fn rewrite_from(s: Seq<char>, i: int, single_line: bool, add_override: bool) -> RewriteSpec
    decreases s.len() - i,
    when 0 <= i <= s.len() && s.len() <= usize::MAX
{
    if i >= s.len() {
        RewriteSpec { out: Seq::empty(), total: 0, errs: Seq::empty() }
    } else {
        match match_at(s, i, single_line) {
            Some(m) => {
                proof {
                    lemma_match_at_bounds(s, i, single_line);
                }
                let rest = rewrite_from(s, m.end as int, single_line, add_override);
                let original = s.subrange(i, m.end as int);
                let body = s.subrange(m.body_start as int, m.body_end as int);
                match spec_transform(m.head, body, m.semi, add_override) {
                    Ok(t) => RewriteSpec {
                        out: t + rest.out,
                        total: 1 + rest.total,
                        errs: rest.errs,
                    },
                    Err(e) => RewriteSpec {
                        out: original + rest.out,
                        total: 1 + rest.total,
                        errs: seq![err_line(e, original)] + rest.errs,
                    },
                }
            },
            None => {
                let rest = rewrite_from(s, i + 1, single_line, add_override);
                RewriteSpec { out: seq![s[i]] + rest.out, total: rest.total, errs: rest.errs }
            },
        }
    }
}

/// The rewrite of a whole buffer.
pub open spec fn spec_rewrite(s: Seq<char>, single_line: bool, add_override: bool) -> RewriteSpec {
    rewrite_from(s, 0, single_line, add_override)
}

/// The aggregate result of rewriting one buffer: the rewritten text when
/// anything changed, the number of matches found, and one diagnostic line per
/// failed match, in scan order.
pub struct ReplaceSummary {
    pub suggestion: Option<String>,
    pub total: usize,
    pub errors: Vec<String>,
}

impl ReplaceSummary {
    /// Every located match was rewritten, and at least one changed the text.
    pub fn error_free(&self) -> (r: bool)
        ensures
            r == (self.errors@.len() == 0 && self.suggestion is Some),
    {
        self.errors.len() == 0 && self.suggestion.is_some()
    }

    /// The diagnostic lines, one per failed match, joined by line breaks.
    pub fn error_summary(&self) -> (r: String)
        ensures
            r@ == spec_join_lines(self.errors.deep_view(), 0),
    {
        let mut out = String::new();
        let n = self.errors.len();
        let mut i: usize = 0;
        while i < n
            invariant
                0 <= i <= n,
                n == self.errors@.len(),
                i == 0 ==> out@ == Seq::<char>::empty(),
                0 < i < n ==> out@ + "\n"@ + spec_join_lines(self.errors.deep_view(), i as int)
                    == spec_join_lines(self.errors.deep_view(), 0),
                i == n && i > 0 ==> out@ == spec_join_lines(self.errors.deep_view(), 0),
            decreases n - i,
        {
            if i > 0 {
                out.append("\n");
            }
            out.append(self.errors[i].as_str());
            i += 1;
        }
        out
    }
}

/// The diagnostic lines from position `i` on, joined by line breaks.
pub open spec fn spec_join_lines(lines: Seq<Seq<char>>, i: int) -> Seq<char>
    decreases lines.len() - i,
    when 0 <= i <= lines.len()
{
    if i >= lines.len() {
        Seq::empty()
    } else if i == lines.len() - 1 {
        lines[i]
    } else {
        lines[i] + "\n"@ + spec_join_lines(lines, i + 1)
    }
}

/// Rewrites every old-style invocation in `src` into the canonical form.
/// The summary's total counts every located match; its error list holds one
/// line per match that failed to parse, whose span stays untouched; its
/// suggestion is the rewritten buffer, or nothing when the result is
/// identical to the input.
#[verifier::rlimit(50)]
pub fn replace(src: &str, mode: ReplaceMode, add_override: bool) -> (r: ReplaceSummary)
    ensures
        ({
            let spec = spec_rewrite(src@, mode is SingleLine, add_override);
            &&& r.total == spec.total
            &&& r.errors.deep_view() == spec.errs
            &&& (r.suggestion is Some <==> spec.out != src@)
            &&& (r.suggestion matches Some(x) ==> x@ == spec.out)
        }),
{
    let n = src.unicode_len();
    let single = match mode {
        ReplaceMode::SingleLine => true,
        ReplaceMode::MultiLine => false,
    };
    let mut out = String::new();
    let mut errors: Vec<String> = Vec::new();
    let mut total: usize = 0;
    let mut i: usize = 0;
    while i < n
        invariant
            0 <= i <= n,
            n == src@.len(),
            single == (mode is SingleLine),
            total <= i,
            out@ + rewrite_from(src@, i as int, single, add_override).out == spec_rewrite(
                src@,
                single,
                add_override,
            ).out,
            total + rewrite_from(src@, i as int, single, add_override).total == spec_rewrite(
                src@,
                single,
                add_override,
            ).total,
            errors.deep_view() + rewrite_from(src@, i as int, single, add_override).errs
                == spec_rewrite(src@, single, add_override).errs,
        decreases n - i,
    {
        proof {
            lemma_match_at_bounds(src@, i as int, single);
        }
        match find_match(src, i, single) {
            Some(m) => {
                let ghost rw_here = rewrite_from(src@, i as int, single, add_override);
                let ghost rw_next = rewrite_from(src@, m.end as int, single, add_override);
                let original = src.substring_char(i, m.end);
                let body = src.substring_char(m.body_start, m.body_end);
                total += 1;
                match transform(m.head, body, m.semi, add_override) {
                    Ok(t) => {
                        proof {
                            assert(rw_here.out == t@ + rw_next.out);
                            assert(rw_here.total == 1 + rw_next.total);
                            assert(rw_here.errs == rw_next.errs);
                        }
                        out.append(t.as_str());
                    },
                    Err(e) => {
                        proof {
                            assert(rw_here.out == original@ + rw_next.out);
                            assert(rw_here.total == 1 + rw_next.total);
                            assert(rw_here.errs == seq![err_line(e, original@)] + rw_next.errs);
                        }
                        out.append(original);
                        let line = err_line_of(e, original);
                        let ghost old_errs = errors.deep_view();
                        errors.push(line);
                        proof {
                            assert(errors.deep_view() =~= old_errs.push(line@));
                            assert(old_errs.push(line@) =~= old_errs + seq![line@]);
                        }
                    },
                }
                i = m.end;
            },
            None => {
                out.append(src.substring_char(i, i + 1));
                proof {
                    assert(src@.subrange(i as int, i + 1) =~= seq![src@[i as int]]);
                }
                i += 1;
            },
        }
    }
    let suggestion = if str_eq(out.as_str(), src) {
        None
    } else {
        Some(out)
    };
    ReplaceSummary { suggestion, total, errors }
}

/// Idempotence: a buffer with no old-style macro heads at all rewrites to
/// itself, with no matches counted and no diagnostics; `replace` therefore
/// offers no suggestion for it.
pub proof fn lemma_canonical_unchanged(s: Seq<char>, single_line: bool, add_override: bool)
    requires
        s.len() <= usize::MAX,
        forall|j: int| 0 <= j < s.len() ==> head_at(s, j) is None,
    ensures
        spec_rewrite(s, single_line, add_override).out == s,
        spec_rewrite(s, single_line, add_override).total == 0,
        spec_rewrite(s, single_line, add_override).errs == Seq::<Seq<char>>::empty(),
{
    lemma_rewrite_no_heads(s, 0, single_line, add_override);
    assert(s.subrange(0, s.len() as int) =~= s);
}

proof fn lemma_rewrite_no_heads(s: Seq<char>, i: int, single_line: bool, add_override: bool)
    requires
        s.len() <= usize::MAX,
        0 <= i <= s.len(),
        forall|j: int| i <= j < s.len() ==> head_at(s, j) is None,
    ensures
        rewrite_from(s, i, single_line, add_override).out == s.subrange(i, s.len() as int),
        rewrite_from(s, i, single_line, add_override).total == 0,
        rewrite_from(s, i, single_line, add_override).errs == Seq::<Seq<char>>::empty(),
    decreases s.len() - i,
{
    if i >= s.len() {
        assert(s.subrange(i, s.len() as int) =~= Seq::<char>::empty());
    } else {
        lemma_rewrite_no_heads(s, i + 1, single_line, add_override);
        assert(seq![s[i]] + s.subrange(i + 1, s.len() as int) =~= s.subrange(i, s.len() as int));
    }
}

/// Round-trip on failure: a located match whose transform fails contributes
/// its original span to the output byte for byte, records exactly one
/// diagnostic line for it, and still counts towards the total; the scan goes
/// on behind the match.
pub proof fn lemma_failed_match_preserved(s: Seq<char>, i: int, single_line: bool, add_override: bool)
    requires
        s.len() <= usize::MAX,
        0 <= i < s.len(),
        match_at(s, i, single_line) is Some,
        ({
            let m = match_at(s, i, single_line)->Some_0;
            spec_transform(
                m.head,
                s.subrange(m.body_start as int, m.body_end as int),
                m.semi,
                add_override,
            ) is Err
        }),
    ensures
        ({
            let m = match_at(s, i, single_line)->Some_0;
            let e = spec_transform(
                m.head,
                s.subrange(m.body_start as int, m.body_end as int),
                m.semi,
                add_override,
            )->Err_0;
            let rest = rewrite_from(s, m.end as int, single_line, add_override);
            &&& rewrite_from(s, i, single_line, add_override).out == s.subrange(i, m.end as int)
                + rest.out
            &&& rewrite_from(s, i, single_line, add_override).errs == seq![
                err_line(e, s.subrange(i, m.end as int)),
            ] + rest.errs
            &&& rewrite_from(s, i, single_line, add_override).total == 1 + rest.total
        }),
{
    lemma_match_at_bounds(s, i, single_line);
}

} // verus!
