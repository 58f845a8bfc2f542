//! Decisions of the periodic worktree reaper.

use vstd::prelude::*;
use crate::stream::{contains_text, texts};

verus! {

/// An attempt is expired after 72 hours without activity.
pub const EXPIRY_SECONDS: i64 = 259200;

/// The directories under the worktree base that no attempt records as its worktree, in
/// the order given.
pub fn orphaned_worktrees(dirs: &Vec<String>, container_refs: &Vec<String>) -> (r: Vec<String>)
    ensures
        texts(r@) == texts(dirs@).filter(|d: Seq<char>| !texts(container_refs@).contains(d)),
{
    let mut out: Vec<String> = Vec::new();
    let mut i: usize = 0;
    while i < dirs.len()
        invariant
            i <= dirs@.len(),
            texts(out@) == texts(dirs@.subrange(0, i as int)).filter(
                |d: Seq<char>| !texts(container_refs@).contains(d),
            ),
        decreases dirs@.len() - i,
    {
        let ghost pre = texts(dirs@.subrange(0, i as int));
        let d = &dirs[i];
        let used = contains_text(container_refs, d.as_str());
        let ghost before = out@;
        if !used {
            out.push(d.clone());
        }
        proof {
            reveal(Seq::filter);
            let nxt = texts(dirs@.subrange(0, i + 1));
            assert(nxt =~= pre.push(d@));
            assert(pre.push(d@).drop_last() =~= pre);
            if !used {
                assert(texts(out@) =~= texts(before).push(d@));
            } else {
                assert(out@ == before);
            }
        }
        i = i + 1;
    }
    assert(dirs@.subrange(0, i as int) =~= dirs@);
    out
}

/// Every directory under the base is either some attempt's worktree or removed by the next
/// orphan sweep.
pub proof fn lemma_every_worktree_owned_or_swept(dirs: Seq<Seq<char>>, refs: Seq<Seq<char>>, d: Seq<char>)
    requires
        dirs.contains(d),
    ensures
        refs.contains(d) || dirs.filter(|x: Seq<char>| !refs.contains(x)).contains(d),
{
    if !refs.contains(d) {
        let i = choose|i: int| 0 <= i < dirs.len() && dirs[i] == d;
        dirs.lemma_filter_contains(|x: Seq<char>| !refs.contains(x), i);
        assert(dirs.filter(|x: Seq<char>| !refs.contains(x)).contains(d));
    }
}

/// Activity facts of an attempt, for the expiration sweep.
#[derive(Clone, Copy, Debug, PartialEq, Eq, Structural)]
pub struct AttemptActivity {
    pub attempt_id: u128,
    /// Latest of the attempt's update and its executions' completions, in seconds.
    pub last_activity: i64,
    pub has_running_process: bool,
    /// The worktree was already cleaned up.
    pub worktree_deleted: bool,
    /// The attempt records a worktree path.
    pub has_worktree: bool,
}

pub open spec fn expired_spec(a: AttemptActivity, now: i64) -> bool {
    &&& !a.has_running_process
    &&& !a.worktree_deleted
    &&& a.has_worktree
    &&& (a.last_activity as int) < (now as int) - (EXPIRY_SECONDS as int)
}

/// Where a stable insertion by last activity puts `x`: before the first later item.
pub open spec fn activity_insert_pos(s: Seq<AttemptActivity>, x: AttemptActivity) -> nat
    decreases s.len(),
{
    if s.len() == 0 {
        0
    } else if s[0].last_activity > x.last_activity {
        0
    } else {
        1 + activity_insert_pos(s.drop_first(), x)
    }
}

/// The stable sort of `s` by last activity, oldest first.
pub open spec fn by_activity(s: Seq<AttemptActivity>) -> Seq<AttemptActivity>
    decreases s.len(),
{
    if s.len() == 0 {
        s
    } else {
        let t = by_activity(s.drop_last());
        t.insert(activity_insert_pos(t, s.last()) as int, s.last())
    }
}

proof fn lemma_activity_insert_pos(s: Seq<AttemptActivity>, x: AttemptActivity, k: int)
    requires
        0 <= k <= s.len(),
        forall|j: int| 0 <= j < k ==> (#[trigger] s[j]).last_activity <= x.last_activity,
        k == s.len() || s[k].last_activity > x.last_activity,
    ensures
        activity_insert_pos(s, x) == k,
    decreases k,
{
    if k > 0 {
        let t = s.drop_first();
        assert(s[0].last_activity <= x.last_activity);
        assert forall|j: int| 0 <= j < k - 1 implies (#[trigger] t[j]).last_activity <= x.last_activity by {
            assert(t[j] == s[j + 1]);
        }
        if k < s.len() {
            assert(t[k - 1] == s[k]);
        }
        lemma_activity_insert_pos(t, x, k - 1);
    }
}

/// Whether an attempt is due for cleanup: nothing running and no activity for 72 hours.
pub fn is_expired(a: &AttemptActivity, now: i64) -> (r: bool)
    ensures
        r == expired_spec(*a, now),
{
    if a.has_running_process || a.worktree_deleted || !a.has_worktree {
        return false;
    }
    (a.last_activity as i128) < (now as i128) - (EXPIRY_SECONDS as i128)
}

/// The attempts due for cleanup, oldest activity first (equal ones in the order given).
#[verifier::loop_isolation(false)]
pub fn expired_attempts(attempts: &Vec<AttemptActivity>, now: i64) -> (r: Vec<u128>)
    ensures
        r@ == by_activity(attempts@.filter(|a: AttemptActivity| expired_spec(a, now))).map_values(
            |a: AttemptActivity| a.attempt_id,
        ),
{
    let ghost f = |x: AttemptActivity| expired_spec(x, now);
    let mut sorted: Vec<AttemptActivity> = Vec::new();
    let mut i: usize = 0;
    while i < attempts.len()
        invariant
            i <= attempts@.len(),
            sorted@ == by_activity(attempts@.subrange(0, i as int).filter(f)),
        decreases attempts@.len() - i,
    {
        let ghost pre = attempts@.subrange(0, i as int);
        let a = attempts[i];
        if is_expired(&a, now) {
            let mut k: usize = 0;
            while k < sorted.len() && sorted[k].last_activity <= a.last_activity
                invariant
                    k <= sorted@.len(),
                    forall|j: int| 0 <= j < k ==> (#[trigger] sorted@[j]).last_activity <= a.last_activity,
                decreases sorted@.len() - k,
            {
                k = k + 1;
            }
            proof {
                lemma_activity_insert_pos(sorted@, a, k as int);
            }
            sorted.insert(k, a);
        }
        proof {
            reveal(Seq::filter);
            let nxt = attempts@.subrange(0, i + 1);
            assert(nxt =~= pre.push(a));
            assert(pre.push(a).drop_last() =~= pre);
            if expired_spec(a, now) {
                assert(nxt.filter(f) == pre.filter(f).push(a));
                assert(pre.filter(f).push(a).drop_last() =~= pre.filter(f));
            } else {
                assert(nxt.filter(f) == pre.filter(f));
            }
        }
        i = i + 1;
    }
    assert(attempts@.subrange(0, i as int) =~= attempts@);
    let mut out: Vec<u128> = Vec::new();
    let mut j: usize = 0;
    while j < sorted.len()
        invariant
            j <= sorted@.len(),
            out@ == sorted@.subrange(0, j as int).map_values(|a: AttemptActivity| a.attempt_id),
        decreases sorted@.len() - j,
    {
        out.push(sorted[j].attempt_id);
        assert(out@ =~= sorted@.subrange(0, j + 1).map_values(|a: AttemptActivity| a.attempt_id));
        j = j + 1;
    }
    assert(sorted@.subrange(0, j as int) =~= sorted@);
    out
}

} // verus!
