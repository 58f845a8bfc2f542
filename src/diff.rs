//! File diffs as the diff stream emits them, and the per-stream byte budget on their
//! contents.

use vstd::prelude::*;
use vstd::string::*;
use vstd::utf8::encode_utf8;
use crate::linediff::{compute_line_change_counts, lcs, lines_spec};

verus! {

/// Content budget of one diff stream: 200 MiB.
pub const MAX_CUMULATIVE_DIFF_BYTES: usize = 209715200;

/// One changed file, with optional contents, line counts and the repository it belongs to.
#[derive(Clone, Debug)]
pub struct Diff {
    pub old_path: Option<String>,
    pub new_path: Option<String>,
    pub old_content: Option<String>,
    pub new_content: Option<String>,
    pub additions: Option<usize>,
    pub deletions: Option<usize>,
    pub content_omitted: bool,
    pub repository_id: Option<u128>,
    pub repository_name: Option<String>,
    pub repository_root: Option<String>,
}

pub open spec fn opt_bytes(o: Option<String>) -> nat {
    match o {
        Some(s) => (encode_utf8(s@).len() as usize) as nat,
        None => 0,
    }
}

/// Bytes of content a diff carries: old plus new.
pub open spec fn content_size(d: Diff) -> nat {
    opt_bytes(d.old_content) + opt_bytes(d.new_content)
}

/// Total content bytes of a sequence of diffs.
pub open spec fn total_content(ds: Seq<Diff>) -> nat
    decreases ds.len(),
{
    if ds.len() == 0 {
        0
    } else {
        total_content(ds.drop_last()) + content_size(ds.last())
    }
}

/// The diff with its contents removed and marked as omitted; missing line counts are
/// taken from `counts` (additions, deletions) when there was content to count.
pub open spec fn omitted_spec(d: Diff, counts: (usize, usize)) -> Diff {
    let fill = d.additions.is_none() && d.deletions.is_none() && (d.old_content.is_some()
        || d.new_content.is_some());
    Diff {
        old_content: None,
        new_content: None,
        content_omitted: true,
        additions: if fill {
            Some(counts.0)
        } else {
            d.additions
        },
        deletions: if fill {
            Some(counts.1)
        } else {
            d.deletions
        },
        ..d
    }
}

/// The byte policy on one diff, given the bytes already sent: the diff as emitted and the
/// new count.
pub open spec fn policy_spec(d: Diff, sent: usize, stats_only: bool, counts: (usize, usize)) -> (Diff, usize) {
    if stats_only {
        (omitted_spec(d, counts), sent)
    } else if content_size(d) == 0 {
        (d, sent)
    } else if sent + content_size(d) > MAX_CUMULATIVE_DIFF_BYTES {
        (omitted_spec(d, counts), sent)
    } else {
        (d, (sent + content_size(d)) as usize)
    }
}

/// The byte policy over a batch, in order: the diffs as emitted and the final count.
pub open spec fn batch_spec(
    ds: Seq<Diff>,
    counts: Seq<(usize, usize)>,
    sent: usize,
    stats_only: bool,
) -> (Seq<Diff>, usize)
    decreases ds.len(),
{
    if ds.len() == 0 {
        (ds, sent)
    } else {
        let (prev, s) = batch_spec(ds.drop_last(), counts.drop_last(), sent, stats_only);
        let (d, s2) = policy_spec(ds.last(), s, stats_only, counts.last());
        (prev.push(d), s2)
    }
}

/// Strips a diff's contents. `counts` are the added and removed line counts of its old
/// and new contents, used only where the diff has no counts of its own.
pub fn omit_diff_contents(diff: &mut Diff, counts: (usize, usize))
    ensures
        *final(diff) == omitted_spec(*old(diff), counts),
{
    if diff.additions.is_none() && diff.deletions.is_none() && (diff.old_content.is_some()
        || diff.new_content.is_some()) {
        diff.additions = Some(counts.0);
        diff.deletions = Some(counts.1);
    }
    diff.old_content = None;
    diff.new_content = None;
    diff.content_omitted = true;
}

pub open spec fn text_or_empty(o: Option<String>) -> Seq<char> {
    match o {
        Some(s) => s@,
        None => Seq::empty(),
    }
}

/// The added and removed line counts between a diff's old and new contents (an absent
/// side counts as empty), for the policy functions below.
pub fn line_counts_of(d: &Diff) -> (r: (usize, usize))
    ensures
        ({
            let a = lines_spec(text_or_empty(d.old_content));
            let b = lines_spec(text_or_empty(d.new_content));
            r.0 as nat == b.len() - lcs(a, b) && r.1 as nat == a.len() - lcs(a, b)
        }),
{
    let old: &str = match &d.old_content {
        Some(s) => s.as_str(),
        None => "",
    };
    let new: &str = match &d.new_content {
        Some(s) => s.as_str(),
        None => "",
    };
    proof {
        reveal_strlit("");
    }
    compute_line_change_counts(old, new)
}

fn opt_len(o: &Option<String>) -> (r: usize)
    ensures
        r == opt_bytes(*o),
{
    match o {
        Some(s) => s.as_str().len(),
        None => 0,
    }
}

/// The stream's byte policy for one diff: with `stats_only` every diff loses its
/// contents; a diff whose contents would take the stream past its budget loses them;
/// otherwise the contents stay and their size is added to `sent_bytes`.
pub fn apply_stream_omit_policy(
    diff: &mut Diff,
    sent_bytes: &mut usize,
    stats_only: bool,
    counts: (usize, usize),
)
    ensures
        stats_only ==> *final(diff) == omitted_spec(*old(diff), counts) && *final(sent_bytes) == *old(
            sent_bytes,
        ),
        !stats_only && content_size(*old(diff)) == 0 ==> *final(diff) == *old(diff)
            && *final(sent_bytes) == *old(sent_bytes),
        !stats_only && content_size(*old(diff)) > 0 && *old(sent_bytes) + content_size(*old(diff))
            > MAX_CUMULATIVE_DIFF_BYTES ==> *final(diff) == omitted_spec(*old(diff), counts)
            && *final(sent_bytes) == *old(sent_bytes),
        !stats_only && content_size(*old(diff)) > 0 && *old(sent_bytes) + content_size(*old(diff))
            <= MAX_CUMULATIVE_DIFF_BYTES ==> *final(diff) == *old(diff) && *final(sent_bytes) == *old(
            sent_bytes,
        ) + content_size(*old(diff)),
        *final(sent_bytes) == *old(sent_bytes) + content_size(*final(diff)),
        *old(sent_bytes) <= MAX_CUMULATIVE_DIFF_BYTES ==> *final(sent_bytes)
            <= MAX_CUMULATIVE_DIFF_BYTES,
        (*final(diff), *final(sent_bytes)) == policy_spec(*old(diff), *old(sent_bytes), stats_only, counts),
{
    if stats_only {
        omit_diff_contents(diff, counts);
        return;
    }
    let a = opt_len(&diff.old_content);
    let b = opt_len(&diff.new_content);
    if a == 0 && b == 0 {
        return;
    }
    let current = *sent_bytes;
    if a > MAX_CUMULATIVE_DIFF_BYTES || b > MAX_CUMULATIVE_DIFF_BYTES || current
        > MAX_CUMULATIVE_DIFF_BYTES || current + a + b > MAX_CUMULATIVE_DIFF_BYTES {
        omit_diff_contents(diff, counts);
    } else {
        *sent_bytes = current + a + b;
    }
}

/// Applies the byte policy to each diff of a batch in order. The bytes counted are exactly
/// the content bytes the batch still carries, and the count never passes the budget.
pub fn apply_policy_to_batch(
    diffs: &mut Vec<Diff>,
    sent_bytes: &mut usize,
    stats_only: bool,
    counts: &Vec<(usize, usize)>,
)
    requires
        counts@.len() == old(diffs)@.len(),
        *old(sent_bytes) <= MAX_CUMULATIVE_DIFF_BYTES,
    ensures
        final(diffs)@.len() == old(diffs)@.len(),
        (final(diffs)@, *final(sent_bytes)) == batch_spec(old(diffs)@, counts@, *old(sent_bytes), stats_only),
        *final(sent_bytes) == *old(sent_bytes) + total_content(final(diffs)@),
        *final(sent_bytes) <= MAX_CUMULATIVE_DIFF_BYTES,
{
    let ghost start = *sent_bytes;
    let mut i: usize = 0;
    while i < diffs.len()
        invariant
            i <= diffs@.len(),
            diffs@.len() == old(diffs)@.len(),
            counts@.len() == diffs@.len(),
            *sent_bytes <= MAX_CUMULATIVE_DIFF_BYTES,
            *sent_bytes == start + total_content(diffs@.subrange(0, i as int)),
            (diffs@.subrange(0, i as int), *sent_bytes) == batch_spec(
                old(diffs)@.subrange(0, i as int),
                counts@.subrange(0, i as int),
                start,
                stats_only,
            ),
            forall|k: int| i <= k < diffs@.len() ==> diffs@[k] == old(diffs)@[k],
        decreases diffs@.len() - i,
    {
        let ghost before = diffs@;
        let mut slot = diffs.remove(i);
        let ghost taken = slot;
        apply_stream_omit_policy(&mut slot, sent_bytes, stats_only, counts[i]);
        diffs.insert(i, slot);
        proof {
            let now = diffs@;
            assert(now =~= before.update(i as int, now[i as int]));
            assert(now.subrange(0, i + 1).drop_last() =~= now.subrange(0, i as int));
            assert(now.subrange(0, i as int) =~= before.subrange(0, i as int));
            assert(old(diffs)@.subrange(0, i + 1).drop_last() =~= old(diffs)@.subrange(0, i as int));
            assert(counts@.subrange(0, i + 1).drop_last() =~= counts@.subrange(0, i as int));
            assert(taken == old(diffs)@[i as int]);
            assert(now.subrange(0, i + 1) =~= now.subrange(0, i as int).push(now[i as int]));
        }
        i = i + 1;
    }
    assert(diffs@.subrange(0, i as int) =~= diffs@);
    assert(old(diffs)@.subrange(0, i as int) =~= old(diffs)@);
    assert(counts@.subrange(0, i as int) =~= counts@);
}

/// For a stream that starts with nothing sent, the content bytes of everything emitted so
/// far never pass the budget: each step adds exactly what the emitted diff carries, and the
/// running count stays within the budget.
pub proof fn lemma_stream_within_budget(batches: Seq<Seq<Diff>>, sent: Seq<nat>)
    requires
        sent.len() == batches.len() + 1,
        sent[0] == 0,
        forall|i: int|
            0 <= i < batches.len() ==> #[trigger] sent[i + 1] == sent[i] + total_content(batches[i])
                && sent[i + 1] <= MAX_CUMULATIVE_DIFF_BYTES,
    ensures
        forall|i: int| 0 <= i < sent.len() ==> #[trigger] sent[i] <= MAX_CUMULATIVE_DIFF_BYTES,
        sent.last() == emitted_total(batches),
        emitted_total(batches) <= MAX_CUMULATIVE_DIFF_BYTES,
    decreases batches.len(),
{
    if batches.len() > 0 {
        let n = batches.len() - 1;
        assert(sent[n + 1] == sent[n] + total_content(batches[n]));
        lemma_stream_within_budget(batches.drop_last(), sent.drop_last());
        assert(sent.drop_last().last() == sent[n]);
    }
    assert forall|i: int| 0 <= i < sent.len() implies #[trigger] sent[i] <= MAX_CUMULATIVE_DIFF_BYTES by {
        if i > 0 {
            assert(sent[(i - 1) + 1] <= MAX_CUMULATIVE_DIFF_BYTES);
        }
    }
}

/// Content bytes over all batches.
pub open spec fn emitted_total(batches: Seq<Seq<Diff>>) -> nat
    decreases batches.len(),
{
    if batches.len() == 0 {
        0
    } else {
        emitted_total(batches.drop_last()) + total_content(batches.last())
    }
}

} // verus!
