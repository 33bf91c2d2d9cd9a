//! Existence checks and occurrence counts for the old-style macro family.
//!
//! The search is deliberately lighter than the rewrite: it looks only for the
//! two literal name prefixes, so a caller can cheaply decide whether a buffer
//! needs attention before paying for a full rewrite.

use vstd::prelude::*;
use crate::patterns::{any_hit, count_hits_from, hit_test, hit_length, lemma_search_modes_agree};

verus! {

/// Existence-only (short-circuiting) or exhaustive-count scanning.
#[derive(Clone, Copy)]
pub enum SearchMode {
    Lazy,
    Full,
}

/// The result of one buffer scan: whether any occurrence exists, and, for an
/// exhaustive scan, how many non-overlapping occurrences there are.
#[derive(Debug, PartialEq, Eq)]
pub struct SearchSummary {
    pub is_match: bool,
    pub count: Option<usize>,
}

/// Scans `source` for occurrences of the old-style macro family.  A lazy scan
/// reports existence only; a full scan also counts every non-overlapping
/// occurrence.
pub fn search(source: &str, mode: SearchMode) -> (r: SearchSummary)
    ensures
        r.is_match == any_hit(source@),
        mode is Lazy ==> r.count is None,
        mode is Full ==> (r.count matches Some(c) && c == count_hits_from(source@, 0)),
{
    let n = source.unicode_len();
    match mode {
        SearchMode::Lazy => {
            let mut i: usize = 0;
            while i < n
                invariant
                    mode is Lazy,
                    0 <= i <= n,
                    n == source@.len(),
                    forall|j: int| 0 <= j < i ==> !crate::patterns::hit_at(source@, j),
                decreases n - i,
            {
                if hit_test(source, i) {
                    return SearchSummary { is_match: true, count: None };
                }
                i += 1;
            }
            SearchSummary { is_match: false, count: None }
        },
        SearchMode::Full => {
            let mut i: usize = 0;
            let mut cnt: usize = 0;
            while i < n
                invariant
                    0 <= i <= n,
                    n == source@.len(),
                    cnt <= i,
                    cnt + count_hits_from(source@, i as int) == count_hits_from(source@, 0),
                decreases n - i,
            {
                if hit_test(source, i) {
                    proof {
                        reveal_strlit("MOCK_METHOD");
                        reveal_strlit("MOCK_CONST_METHOD");
                    }
                    let l = hit_length(source, i);
                    cnt += 1;
                    i += l;
                } else {
                    i += 1;
                }
            }
            proof {
                lemma_search_modes_agree(source@);
            }
            SearchSummary { is_match: cnt > 0, count: Some(cnt) }
        },
    }
}

} // verus!
