//! Added and removed line counts of a change, as a minimal line diff reports them.

use vstd::prelude::*;
use crate::strings::same_text;
use crate::textops::{split_char, split_spec};

verus! {

/// The lines of a text: the pieces between `\n`, without the empty piece after a final
/// newline.
pub open spec fn lines_spec(s: Seq<char>) -> Seq<Seq<char>> {
    let pieces = split_spec(s, '\n');
    if pieces.len() > 0 && pieces.last().len() == 0 {
        pieces.drop_last()
    } else {
        pieces
    }
}

/// Length of a longest common subsequence of two line lists.
pub open spec fn lcs(a: Seq<Seq<char>>, b: Seq<Seq<char>>) -> nat
    decreases a.len() + b.len(),
{
    if a.len() == 0 || b.len() == 0 {
        0
    } else if a.last() == b.last() {
        1 + lcs(a.drop_last(), b.drop_last())
    } else {
        let x = lcs(a.drop_last(), b);
        let y = lcs(a, b.drop_last());
        if x >= y {
            x
        } else {
            y
        }
    }
}

proof fn lemma_lcs_bound(a: Seq<Seq<char>>, b: Seq<Seq<char>>)
    ensures
        lcs(a, b) <= a.len(),
        lcs(a, b) <= b.len(),
    decreases a.len() + b.len(),
{
    if a.len() > 0 && b.len() > 0 {
        lemma_lcs_bound(a.drop_last(), b.drop_last());
        lemma_lcs_bound(a.drop_last(), b);
        lemma_lcs_bound(a, b.drop_last());
    }
}

pub open spec fn line_views(v: Seq<String>) -> Seq<Seq<char>> {
    v.map_values(|s: String| s@)
}

fn lines_of(s: &str) -> (r: Vec<String>)
    ensures
        line_views(r@) == lines_spec(s@),
{
    let mut pieces = split_char(s, '\n');
    let n = pieces.len();
    if n > 0 && pieces[n - 1].as_str().unicode_len() == 0 {
        let ghost before = pieces@;
        pieces.pop();
        proof {
            assert(line_views(pieces@) =~= line_views(before).drop_last());
        }
    }
    pieces
}

/// Lines added and removed between `old` and `new`: the lines of each outside a longest
/// common subsequence of their lines (the counts a minimal unified diff shows as `+` and
/// `-` lines). Takes time proportional to the product of the two line counts.
pub fn compute_line_change_counts(old: &str, new: &str) -> (r: (usize, usize))
    ensures
        ({
            let a = lines_spec(old@);
            let b = lines_spec(new@);
            r.0 as nat == b.len() - lcs(a, b) && r.1 as nat == a.len() - lcs(a, b)
        }),
{
    let a = lines_of(old);
    let b = lines_of(new);
    let ghost av = line_views(a@);
    let ghost bv = line_views(b@);
    let m = b.len();
    // prev[j] is the LCS length of the first i lines of `old` and the first j of `new`
    let mut prev: Vec<usize> = Vec::new();
    prev.push(0);
    let mut j: usize = 0;
    while j < m
        invariant
            j <= m,
            m == b@.len(),
            prev@.len() == j + 1,
            forall|k: int| 0 <= k <= j ==> prev@[k] == 0,
        decreases m - j,
    {
        prev.push(0);
        j = j + 1;
    }
    proof {
        assert forall|k: int| 0 <= k <= m implies prev@[k] as nat == lcs(av.subrange(0, 0), bv.subrange(0, k)) by {}
    }
    let mut i: usize = 0;
    while i < a.len()
        invariant
            i <= a@.len(),
            m == b@.len(),
            av == line_views(a@),
            bv == line_views(b@),
            prev@.len() == m + 1,
            forall|k: int| 0 <= k <= m ==> #[trigger] prev@[k] as nat == lcs(av.subrange(0, i as int), bv.subrange(0, k)),
        decreases a@.len() - i,
    {
        let mut cur: Vec<usize> = Vec::new();
        cur.push(0);
        proof {
            assert(lcs(av.subrange(0, i + 1), bv.subrange(0, 0)) == 0);
        }
        let mut k: usize = 0;
        while k < m
            invariant
                k <= m,
                i < a@.len(),
                m == b@.len(),
                av == line_views(a@),
                bv == line_views(b@),
                prev@.len() == m + 1,
                cur@.len() == k + 1,
                forall|q: int| 0 <= q <= m ==> #[trigger] prev@[q] as nat == lcs(av.subrange(0, i as int), bv.subrange(0, q)),
                forall|q: int| 0 <= q <= k ==> #[trigger] cur@[q] as nat == lcs(av.subrange(0, i + 1), bv.subrange(0, q)),
            decreases m - k,
        {
            let ghost ai = av.subrange(0, i + 1);
            let ghost bk = bv.subrange(0, k + 1);
            proof {
                assert(ai.drop_last() =~= av.subrange(0, i as int));
                assert(bk.drop_last() =~= bv.subrange(0, k as int));
                assert(ai.last() == a@[i as int]@);
                assert(bk.last() == b@[k as int]@);
                lemma_lcs_bound(av.subrange(0, i as int), bv.subrange(0, k as int));
                lemma_lcs_bound(ai, bv.subrange(0, k as int));
                lemma_lcs_bound(av.subrange(0, i as int), bk);
            }
            let v: usize = if same_text(a[i].as_str(), b[k].as_str()) {
                prev[k] + 1
            } else {
                let x = prev[k + 1];
                let y = cur[k];
                if x >= y {
                    x
                } else {
                    y
                }
            };
            cur.push(v);
            k = k + 1;
        }
        prev = cur;
        i = i + 1;
    }
    let common = prev[m];
    proof {
        assert(av.subrange(0, a@.len() as int) =~= av);
        assert(bv.subrange(0, m as int) =~= bv);
        lemma_lcs_bound(av, bv);
    }
    (m - common, a.len() - common)
}

} // verus!
