//! The per-execution message log: append-only history with subscribers that replay it
//! from the start and then follow new entries until `Finished`.

use vstd::prelude::*;

verus! {

/// One entry of an execution's log.
#[derive(Clone, Debug)]
pub enum LogMsg {
    Stdout(String),
    Stderr(String),
    /// A serialized JSON-patch document.
    JsonPatch(String),
    SessionId(String),
    Finished,
}

/// A field-by-field copy.
pub fn copy_msg(m: &LogMsg) -> (r: LogMsg)
    ensures
        r == *m,
{
    match m {
        LogMsg::Stdout(s) => LogMsg::Stdout(s.clone()),
        LogMsg::Stderr(s) => LogMsg::Stderr(s.clone()),
        LogMsg::JsonPatch(s) => LogMsg::JsonPatch(s.clone()),
        LogMsg::SessionId(s) => LogMsg::SessionId(s.clone()),
        LogMsg::Finished => LogMsg::Finished,
    }
}

/// The log of one execution.
pub struct MsgStore {
    history: Vec<LogMsg>,
}

/// A reader of a log: the position of the next entry to hand out, and whether it has
/// handed out `Finished`.
pub struct Subscription {
    position: usize,
    done: bool,
}

impl Subscription {
    pub closed spec fn pos(&self) -> nat {
        self.position as nat
    }

    pub closed spec fn is_done(&self) -> bool {
        self.done
    }
}

impl MsgStore {
    /// Every entry pushed so far, in order.
    pub closed spec fn entries(&self) -> Seq<LogMsg> {
        self.history@
    }

    pub fn new() -> (r: MsgStore)
        ensures
            r.entries().len() == 0,
    {
        MsgStore { history: Vec::new() }
    }

    /// Appends an entry; nothing is ever dropped or reordered.
    pub fn push(&mut self, msg: LogMsg)
        ensures
            final(self).entries() == old(self).entries().push(msg),
    {
        self.history.push(msg);
    }

    pub fn push_stdout(&mut self, s: String)
        ensures
            final(self).entries() == old(self).entries().push(LogMsg::Stdout(s)),
    {
        self.push(LogMsg::Stdout(s));
    }

    pub fn push_stderr(&mut self, s: String)
        ensures
            final(self).entries() == old(self).entries().push(LogMsg::Stderr(s)),
    {
        self.push(LogMsg::Stderr(s));
    }

    pub fn push_patch(&mut self, patch: String)
        ensures
            final(self).entries() == old(self).entries().push(LogMsg::JsonPatch(patch)),
    {
        self.push(LogMsg::JsonPatch(patch));
    }

    pub fn push_finished(&mut self)
        ensures
            final(self).entries() == old(self).entries().push(LogMsg::Finished),
    {
        self.push(LogMsg::Finished);
    }

    /// The full history at the time of the call.
    pub fn get_history(&self) -> (r: Vec<LogMsg>)
        ensures
            r@ == self.entries(),
    {
        let mut out: Vec<LogMsg> = Vec::new();
        let mut i: usize = 0;
        while i < self.history.len()
            invariant
                i <= self.history@.len(),
                out@ == self.history@.subrange(0, i as int),
            decreases self.history@.len() - i,
        {
            out.push(copy_msg(&self.history[i]));
            assert(out@ =~= self.history@.subrange(0, i + 1));
            i = i + 1;
        }
        assert(self.history@.subrange(0, i as int) =~= self.history@);
        out
    }

    /// A reader that starts at the first entry.
    pub fn subscribe(&self) -> (r: Subscription)
        ensures
            r.pos() == 0,
            !r.is_done(),
    {
        Subscription { position: 0, done: false }
    }

    /// The reader's next entry, or `None` when it has caught up or has already handed out
    /// `Finished`.
    pub fn next(&self, sub: &mut Subscription) -> (r: Option<LogMsg>)
        ensures
            old(sub).is_done() || old(sub).pos() >= self.entries().len() ==> r.is_none() && final(sub).pos()
                == old(sub).pos() && final(sub).is_done() == old(sub).is_done(),
            !old(sub).is_done() && old(sub).pos() < self.entries().len() ==> r == Some(
                self.entries()[old(sub).pos() as int],
            ) && final(sub).pos() == old(sub).pos() + 1 && final(sub).is_done() == (r
                == Some(LogMsg::Finished)),
    {
        if sub.done || sub.position >= self.history.len() {
            return None;
        }
        let m = copy_msg(&self.history[sub.position]);
        sub.position = sub.position + 1;
        sub.done = match m {
            LogMsg::Finished => true,
            _ => false,
        };
        Some(m)
    }
}

/// What a reader has handed out after `n` entries: the first `n` entries of the history.
pub open spec fn yielded(history: Seq<LogMsg>, n: nat) -> Seq<LogMsg> {
    history.subrange(0, n as int)
}

/// A reader's output is the history it saw at subscription time, followed only by entries
/// pushed later: since the log only grows, the first `n` entries it hands out are the
/// history at subscription time (up to its length) and then the later entries in order.
pub proof fn lemma_subscription_prefix(at_subscribe: Seq<LogMsg>, later: Seq<LogMsg>, n: nat)
    requires
        n <= at_subscribe.len() + later.len(),
    ensures
        yielded(at_subscribe + later, n) == if n <= at_subscribe.len() {
            at_subscribe.subrange(0, n as int)
        } else {
            at_subscribe + later.subrange(0, n - at_subscribe.len())
        },
{
    let h = at_subscribe + later;
    if n <= at_subscribe.len() {
        assert(h.subrange(0, n as int) =~= at_subscribe.subrange(0, n as int));
    } else {
        assert(h.subrange(0, n as int) =~= at_subscribe + later.subrange(0, n - at_subscribe.len()));
    }
}

} // verus!
