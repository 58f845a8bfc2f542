//! Turning a batch of changed files into diff-stream patches: one `AddDiff` per file that
//! now has a diff, then one `RemoveDiff` per changed file that no longer has one.

use vstd::prelude::*;
use vstd::string::*;
use crate::diff::{apply_stream_omit_policy, content_size, policy_spec, Diff, MAX_CUMULATIVE_DIFF_BYTES};
use crate::resolver::{annotated, diff_path, matched_id, source_path, RepositoryInfo, RepositoryLookup};
use crate::strings::{replace_char, replace_char_spec, same_text};

verus! {

/// A patch of the diff stream, keyed by the escaped file path.
#[derive(Clone, Debug)]
pub enum DiffPatch {
    AddDiff { key: String, diff: Diff },
    RemoveDiff { key: String },
}

/// A path as one JSON-pointer segment: `~` as `~0`, then `/` as `~1`.
pub open spec fn escape_spec(s: Seq<char>) -> Seq<char> {
    replace_char_spec(replace_char_spec(s, '~', seq!['~', '0']), '/', seq!['~', '1'])
}

pub fn escape_json_pointer_segment(s: &str) -> (r: String)
    ensures
        r@ == escape_spec(s@),
{
    let a = replace_char(s, '~', "~0");
    proof {
        reveal_strlit("~0");
        reveal_strlit("~1");
        assert("~0"@ =~= seq!['~', '0']);
        assert("~1"@ =~= seq!['~', '1']);
    }
    replace_char(a.as_str(), '/', "~1")
}

/// Content bytes of the added diffs.
pub open spec fn patch_content(ps: Seq<DiffPatch>) -> nat
    decreases ps.len(),
{
    if ps.len() == 0 {
        0
    } else {
        patch_content(ps.drop_last()) + match ps.last() {
            DiffPatch::AddDiff { key, diff } => content_size(diff),
            DiffPatch::RemoveDiff { key } => 0,
        }
    }
}

pub open spec fn texts(v: Seq<String>) -> Seq<Seq<char>> {
    v.map_values(|s: String| s@)
}

/// Whether `v` holds `s`.
pub fn contains_text(v: &Vec<String>, s: &str) -> (r: bool)
    ensures
        r == texts(v@).contains(s@),
{
    let mut i: usize = 0;
    while i < v.len()
        invariant
            i <= v@.len(),
            forall|j: int| 0 <= j < i ==> v@[j]@ != s@,
        decreases v@.len() - i,
    {
        if same_text(v[i].as_str(), s) {
            assert(texts(v@)[i as int] == s@);
            return true;
        }
        i = i + 1;
    }
    proof {
        if texts(v@).contains(s@) {
            let j = choose|j: int| 0 <= j < texts(v@).len() && texts(v@)[j] == s@;
            assert(v@[j]@ == s@);
        }
    }
    false
}

/// A patch as values.
pub enum PatchView {
    Add(Seq<char>, Diff),
    Remove(Seq<char>),
}

pub open spec fn patch_view(p: DiffPatch) -> PatchView {
    match p {
        DiffPatch::AddDiff { key, diff } => PatchView::Add(key@, diff),
        DiffPatch::RemoveDiff { key } => PatchView::Remove(key@),
    }
}

pub open spec fn patches_view(v: Seq<DiffPatch>) -> Seq<PatchView> {
    v.map_values(|p: DiffPatch| patch_view(p))
}

/// What the adding pass has produced so far: patches, bytes sent, paths sent in full, and
/// paths that have a current diff.
pub type AddState = (Seq<PatchView>, usize, Seq<Seq<char>>, Seq<Seq<char>>);

/// One current diff through the adding pass.
pub open spec fn add_step(
    st: AddState,
    d: Diff,
    count: (usize, usize),
    repos: Seq<RepositoryInfo>,
    filter: Option<u128>,
    stats_only: bool,
) -> AddState {
    let (msgs, sent, full, with) = st;
    let a = annotated(repos, d);
    if !(filter.is_none() || a.repository_id == filter) {
        st
    } else {
        let path = source_path(d);
        let with2 = with.push(path);
        let (d2, sent2) = policy_spec(a, sent, stats_only, count);
        if d2.content_omitted {
            if full.contains(path) {
                (msgs, sent2, full, with2)
            } else {
                (msgs.push(PatchView::Add(escape_spec(path), d2)), sent2, full, with2)
            }
        } else {
            let full2 = if full.contains(path) {
                full
            } else {
                full.push(path)
            };
            (msgs.push(PatchView::Add(escape_spec(path), d2)), sent2, full2, with2)
        }
    }
}

/// The adding pass over the current diffs, in order.
pub open spec fn adds_spec(
    ds: Seq<Diff>,
    counts: Seq<(usize, usize)>,
    init: AddState,
    repos: Seq<RepositoryInfo>,
    filter: Option<u128>,
    stats_only: bool,
) -> AddState
    decreases ds.len(),
{
    if ds.len() == 0 {
        init
    } else {
        add_step(
            adds_spec(ds.drop_last(), counts.drop_last(), init, repos, filter, stats_only),
            ds.last(),
            counts.last(),
            repos,
            filter,
            stats_only,
        )
    }
}

/// The removing pass: a `RemoveDiff` for each changed path (of the filtered repository)
/// without a current diff, in order.
pub open spec fn removes_spec(
    changed: Seq<Seq<char>>,
    msgs: Seq<PatchView>,
    with: Seq<Seq<char>>,
    repos: Seq<RepositoryInfo>,
    filter: Option<u128>,
) -> Seq<PatchView>
    decreases changed.len(),
{
    if changed.len() == 0 {
        msgs
    } else {
        let prev = removes_spec(changed.drop_last(), msgs, with, repos, filter);
        let c = changed.last();
        let in_scope = match filter {
            Some(f) => matched_id(repos, c) == Some(f),
            None => true,
        };
        if in_scope && !with.contains(c) {
            prev.push(PatchView::Remove(escape_spec(c)))
        } else {
            prev
        }
    }
}

/// The patches for one batch of changed paths. Each current diff is tagged with its
/// repository; with a repository filter, diffs of other repositories are skipped. The
/// stream's byte policy is applied; a diff whose contents were omitted is skipped when its
/// path was already sent in full, and a path sent in full is remembered. Then each changed
/// path (of the filtered repository) without a current diff gets a `RemoveDiff`.
/// `counts[i]` are the line counts of `current_diffs[i]`.
pub fn process_file_changes(
    current_diffs: Vec<Diff>,
    counts: &Vec<(usize, usize)>,
    changed_paths: &Vec<String>,
    sent_bytes: &mut usize,
    full_sent_paths: &mut Vec<String>,
    stats_only: bool,
    lookup: &RepositoryLookup,
    repository_filter: Option<u128>,
) -> (r: Vec<DiffPatch>)
    requires
        counts@.len() == current_diffs@.len(),
        *old(sent_bytes) <= MAX_CUMULATIVE_DIFF_BYTES,
    ensures
        ({
            let (msgs, sent, full, with) = adds_spec(
                current_diffs@,
                counts@,
                (Seq::empty(), *old(sent_bytes), texts(old(full_sent_paths)@), Seq::empty()),
                lookup.repos@,
                repository_filter,
                stats_only,
            );
            &&& patches_view(r@) == removes_spec(texts(changed_paths@), msgs, with, lookup.repos@, repository_filter)
            &&& *final(sent_bytes) == sent
            &&& texts(final(full_sent_paths)@) == full
        }),
        *old(sent_bytes) + patch_content(r@) <= *final(sent_bytes),
        *final(sent_bytes) <= MAX_CUMULATIVE_DIFF_BYTES,
        forall|i: int|
            0 <= i < r@.len() ==> match #[trigger] r@[i] {
                DiffPatch::AddDiff { key, diff } => repository_filter.is_none() || diff.repository_id
                    == repository_filter,
                DiffPatch::RemoveDiff { key } => exists|j: int|
                    0 <= j < changed_paths@.len() && key@ == escape_spec(#[trigger] changed_paths@[j]@),
            },
{
    let mut msgs: Vec<DiffPatch> = Vec::new();
    let mut with_diffs: Vec<String> = Vec::new();
    let mut diffs = current_diffs;
    let ghost start = *sent_bytes;
    let ghost repos = lookup.repos@;
    let ghost init: AddState = (Seq::empty(), *sent_bytes, texts(full_sent_paths@), Seq::empty());
    let ghost all = diffs@;
    let n = diffs.len();
    let mut i: usize = 0;
    while i < n
        invariant
            i <= n,
            diffs@.len() == n - i,
            counts@.len() == n,
            all.len() == n,
            diffs@ == all.subrange(i as int, n as int),
            repos == lookup.repos@,
            *sent_bytes <= MAX_CUMULATIVE_DIFF_BYTES,
            start + patch_content(msgs@) <= *sent_bytes,
            forall|k: int|
                0 <= k < msgs@.len() ==> match #[trigger] msgs@[k] {
                    DiffPatch::AddDiff { key, diff } => repository_filter.is_none() || diff.repository_id
                        == repository_filter,
                    DiffPatch::RemoveDiff { key } => false,
                },
            (patches_view(msgs@), *sent_bytes, texts(full_sent_paths@), texts(with_diffs@)) == adds_spec(
                all.subrange(0, i as int),
                counts@.subrange(0, i as int),
                init,
                repos,
                repository_filter,
                stats_only,
            ),
        decreases n - i,
    {
        let ghost st = (patches_view(msgs@), *sent_bytes, texts(full_sent_paths@), texts(with_diffs@));
        let ghost pm = msgs@;
        let ghost pw = with_diffs@;
        let ghost pf = full_sent_paths@;
        let mut diff = diffs.remove(0);
        let ghost d0 = diff;
        proof {
            assert(d0 == all[i as int]);
            assert(diffs@ =~= all.subrange(i + 1, n as int));
        }
        let repo_match = lookup.annotate_diff(&mut diff);
        let keep = match repository_filter {
            Some(f) => match repo_match {
                Some(m) => m == f,
                None => false,
            },
            None => true,
        };
        if keep {
            let file_path = diff_path(&diff);
            with_diffs.push(file_path.clone());
            apply_stream_omit_policy(&mut diff, sent_bytes, stats_only, counts[i]);
            let skip = if diff.content_omitted {
                contains_text(full_sent_paths, file_path.as_str())
            } else {
                if !contains_text(full_sent_paths, file_path.as_str()) {
                    full_sent_paths.push(file_path.clone());
                }
                false
            };
            let ghost d2 = diff;
            if !skip {
                let key = escape_json_pointer_segment(file_path.as_str());
                let ghost prev = msgs@;
                msgs.push(DiffPatch::AddDiff { key, diff });
                proof {
                    assert(msgs@.drop_last() =~= prev);
                    assert(patches_view(msgs@) =~= patches_view(prev).push(PatchView::Add(escape_spec(source_path(d0)), d2)));
                }
            }
            proof {
                assert(texts(with_diffs@) =~= texts(pw).push(source_path(d0)));
                if !d2.content_omitted && !texts(pf).contains(source_path(d0)) {
                    assert(texts(full_sent_paths@) =~= texts(pf).push(source_path(d0)));
                }
            }
        }
        proof {
            assert(all.subrange(0, i + 1).drop_last() =~= all.subrange(0, i as int));
            assert(counts@.subrange(0, i + 1).drop_last() =~= counts@.subrange(0, i as int));
        }
        i = i + 1;
    }
    assert(all.subrange(0, n as int) =~= all);
    assert(counts@.subrange(0, n as int) =~= counts@);
    let ghost after_adds = patches_view(msgs@);
    let mut j: usize = 0;
    while j < changed_paths.len()
        invariant
            j <= changed_paths@.len(),
            *sent_bytes <= MAX_CUMULATIVE_DIFF_BYTES,
            start + patch_content(msgs@) <= *sent_bytes,
            forall|k: int|
                0 <= k < msgs@.len() ==> match #[trigger] msgs@[k] {
                    DiffPatch::AddDiff { key, diff } => repository_filter.is_none() || diff.repository_id
                        == repository_filter,
                    DiffPatch::RemoveDiff { key } => exists|q: int|
                        0 <= q < changed_paths@.len() && key@ == escape_spec(#[trigger] changed_paths@[q]@),
                },
            repos == lookup.repos@,
            patches_view(msgs@) == removes_spec(
                texts(changed_paths@.subrange(0, j as int)),
                after_adds,
                texts(with_diffs@),
                repos,
                repository_filter,
            ),
        decreases changed_paths@.len() - j,
    {
        let changed = &changed_paths[j];
        let in_scope = match repository_filter {
            Some(f) => match lookup.match_path(changed.as_str()) {
                Some(info) => info.id == f,
                None => false,
            },
            None => true,
        };
        proof {
            assert(texts(changed_paths@.subrange(0, j + 1)).drop_last() =~= texts(changed_paths@.subrange(0, j as int)));
            assert(texts(changed_paths@.subrange(0, j + 1)).last() == changed@);
        }
        if in_scope && !contains_text(&with_diffs, changed.as_str()) {
            let key = escape_json_pointer_segment(changed.as_str());
            let ghost prev = msgs@;
            msgs.push(DiffPatch::RemoveDiff { key });
            proof {
                assert(msgs@.drop_last() =~= prev);
                assert(changed_paths@[j as int]@ == changed@);
                assert(patches_view(msgs@) =~= patches_view(prev).push(PatchView::Remove(escape_spec(changed@))));
            }
        }
        j = j + 1;
    }
    assert(changed_paths@.subrange(0, j as int) =~= changed_paths@);
    msgs
}

} // verus!
