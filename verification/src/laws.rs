//! Count consistency between the search counter and the rewrite orchestrator.
//!
//! The search pattern is lighter than the rewrite pattern: it recognizes only
//! the two literal name prefixes.  On a buffer that consists purely of whole
//! old-style invocations, with no other text that could confound either scan,
//! the two agree: the exhaustive search count equals the number of matches the
//! rewrite counts, whatever the scanning mode and whether or not individual
//! matches parse.

use vstd::prelude::*;
use crate::patterns::{
    body_end, count_hits_from, head_at, hit_at, hit_len, lemma_body_end, lemma_head_at_bounds,
    match_at,
};
use crate::replace::{rewrite_from, spec_rewrite};
use crate::text::{begins_at, lemma_begins_concat, lemma_begins_prefix};

verus! {

/// One whole old-style invocation occupying exactly `s[i..e)`: a head token,
/// a non-empty body free of statement terminators and line breaks, the
/// closing semicolon at `e - 1`, and no further occurrence of the macro name
/// prefix anywhere inside.
pub open spec fn unit_at(s: Seq<char>, i: int, e: int) -> bool {
    &&& 0 <= i
    &&& i < e <= s.len()
    &&& (head_at(s, i) matches Some(h) && i + h.len < e - 1)
    &&& s[e - 1] == ';'
    &&& (forall|k: int|
        i + head_at(s, i)->Some_0.len <= k < e - 1 ==> s[k] != ';' && s[k] != '\n')
    &&& (forall|k: int| i < k < e ==> !begins_at(s, k, "MOCK_"@))
}

/// The buffer from position `i` on is a gapless concatenation of whole
/// invocations, whose end positions are listed in `bounds` in order.
pub open spec fn units_cover(s: Seq<char>, bounds: Seq<int>, i: int) -> bool
    decreases bounds.len(),
{
    if bounds.len() == 0 {
        i == s.len()
    } else {
        unit_at(s, i, bounds[0]) && units_cover(s, bounds.drop_first(), bounds[0])
    }
}

/// A whole invocation is found by the rewrite scan as one match that ends
/// exactly at the invocation's end, in either scanning mode.
proof fn lemma_unit_match(s: Seq<char>, i: int, e: int, single_line: bool)
    requires
        s.len() <= usize::MAX,
        unit_at(s, i, e),
    ensures
        match_at(s, i, single_line) matches Some(m) && m.end == e,
{
    let h = head_at(s, i)->Some_0;
    lemma_head_at_bounds(s, i);
    let bs = i + h.len;
    lemma_body_end(s, bs, single_line);
    let be = body_end(s, bs, single_line);
    if be < e - 1 {
        assert(s[be] != ';' && s[be] != '\n');
    }
    if be > e - 1 {
        assert(s[e - 1] != ';');
    }
    assert(be == e - 1);
}

/// A whole invocation registers exactly one search hit, at its start; the
/// matched literal stays inside the invocation.
proof fn lemma_unit_hit(s: Seq<char>, i: int, e: int)
    requires
        unit_at(s, i, e),
    ensures
        hit_at(s, i),
        i + hit_len(s, i) <= e,
{
    reveal_strlit("MOCK_");
    reveal_strlit("CONST_");
    reveal_strlit("METHOD");
    reveal_strlit("MOCK_METHOD");
    reveal_strlit("MOCK_CONST_METHOD");
    let h = head_at(s, i)->Some_0;
    lemma_head_at_bounds(s, i);
    if begins_at(s, i + 5, "CONST_"@) {
        lemma_begins_concat(s, i + 5, "CONST_"@, "METHOD"@);
        assert("CONST_"@ + "METHOD"@ =~= "CONST_METHOD"@) by {
            reveal_strlit("CONST_METHOD");
        }
        lemma_begins_concat(s, i, "MOCK_"@, "CONST_METHOD"@);
        assert("MOCK_"@ + "CONST_METHOD"@ =~= "MOCK_CONST_METHOD"@) by {
            reveal_strlit("CONST_METHOD");
        }
        assert(!begins_at(s, i, "MOCK_METHOD"@)) by {
            if begins_at(s, i, "MOCK_METHOD"@) {
                assert(s.subrange(i, i + 11)[5] == 'M');
                assert(s.subrange(i + 5, i + 11)[0] == 'C');
            }
        }
        assert(h.len >= 18);
    } else {
        lemma_begins_concat(s, i, "MOCK_"@, "METHOD"@);
        assert("MOCK_"@ + "METHOD"@ =~= "MOCK_METHOD"@);
        assert(h.len >= 12);
    }
}

/// Every search hit starts with the shared name prefix.
proof fn lemma_hit_needs_prefix(s: Seq<char>, k: int)
    requires
        hit_at(s, k),
    ensures
        begins_at(s, k, "MOCK_"@),
{
    reveal_strlit("MOCK_");
    reveal_strlit("MOCK_METHOD");
    reveal_strlit("MOCK_CONST_METHOD");
    if begins_at(s, k, "MOCK_METHOD"@) {
        lemma_begins_prefix(s, k, "MOCK_METHOD"@, 5);
        assert("MOCK_METHOD"@.take(5) =~= "MOCK_"@);
    } else {
        lemma_begins_prefix(s, k, "MOCK_CONST_METHOD"@, 5);
        assert("MOCK_CONST_METHOD"@.take(5) =~= "MOCK_"@);
    }
}

/// Scanning over a hit-free stretch finds nothing.
proof fn lemma_no_hits_skip(s: Seq<char>, a: int, b: int)
    requires
        0 <= a <= b <= s.len(),
        forall|k: int| a <= k < b ==> !hit_at(s, k),
    ensures
        count_hits_from(s, a) == count_hits_from(s, b),
    decreases b - a,
{
    if a < b {
        lemma_no_hits_skip(s, a + 1, b);
    }
}

proof fn lemma_units_counts(
    s: Seq<char>,
    bounds: Seq<int>,
    i: int,
    single_line: bool,
    add_override: bool,
)
    requires
        s.len() <= usize::MAX,
        0 <= i <= s.len(),
        units_cover(s, bounds, i),
    ensures
        count_hits_from(s, i) == bounds.len(),
        rewrite_from(s, i, single_line, add_override).total == bounds.len(),
    decreases bounds.len(),
{
    if bounds.len() == 0 {
    } else {
        let e = bounds[0];
        lemma_unit_match(s, i, e, single_line);
        lemma_unit_hit(s, i, e);
        let l = hit_len(s, i);
        assert forall|k: int| i + l <= k < e implies !hit_at(s, k) by {
            if hit_at(s, k) {
                lemma_hit_needs_prefix(s, k);
            }
        }
        lemma_no_hits_skip(s, i + l, e);
        lemma_units_counts(s, bounds.drop_first(), e, single_line, add_override);
        assert(count_hits_from(s, i) == 1 + count_hits_from(s, i + l));
        assert(rewrite_from(s, i, single_line, add_override).total == 1 + rewrite_from(
            s,
            e,
            single_line,
            add_override,
        ).total);
    }
}

/// Count consistency: on a buffer that is a gapless concatenation of whole
/// old-style invocations, the exhaustive search count equals the rewrite's
/// match total, in either scanning mode and whether or not individual matches
/// go on to parse.
pub proof fn lemma_count_consistency(
    s: Seq<char>,
    bounds: Seq<int>,
    single_line: bool,
    add_override: bool,
)
    requires
        s.len() <= usize::MAX,
        units_cover(s, bounds, 0),
    ensures
        count_hits_from(s, 0) == spec_rewrite(s, single_line, add_override).total,
{
    lemma_units_counts(s, bounds, 0, single_line, add_override);
}

} // verus!
