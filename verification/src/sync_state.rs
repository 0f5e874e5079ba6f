use vstd::prelude::*;

verus! {

/// Whether a candidate value differs from the last synchronized value and so
/// must be accepted and propagated.
pub open spec fn accepts(last: Seq<char>, candidate: Seq<char>) -> bool {
    candidate != last
}

/// The last synchronized value after a candidate has been offered to the dedup gate.
pub open spec fn next_last(last: Seq<char>, candidate: Seq<char>) -> Seq<char> {
    if accepts(last, candidate) {
        candidate
    } else {
        last
    }
}

/// The dedup gate: holds the most recently accepted clipboard text, whatever
/// producer (clipboard watcher, stream decoder, socket SET) it came from.
/// An empty value means nothing has been synchronized yet.
pub struct SyncState {
    last_text: String,
}

impl View for SyncState {
    type V = Seq<char>;

    closed spec fn view(&self) -> Seq<char> {
        self.last_text@
    }
}

impl SyncState {
    /// A fresh gate: nothing synchronized yet.
    pub fn new() -> (s: SyncState)
        ensures
            s@ == Seq::<char>::empty(),
    {
        SyncState { last_text: String::new() }
    }

    /// A snapshot of the last synchronized value (what a GET replies with).
    pub fn snapshot(&self) -> (r: String)
        ensures
            r@ == self@,
    {
        self.last_text.clone()
    }

    /// The dedup gate's single operation: a candidate equal to the current
    /// value is a loop-back echo or duplicate and is rejected (`None`); a
    /// different candidate becomes the new last value and is returned for
    /// propagation (`Some`). This is the only place the last value is written.
    pub fn try_accept(&mut self, candidate: String) -> (r: Option<String>)
        ensures
            final(self)@ == next_last(old(self)@, candidate@),
            accepts(old(self)@, candidate@) ==> (r matches Some(v) && v@ == candidate@),
            !accepts(old(self)@, candidate@) ==> r is None,
    {
        if self.last_text == candidate {
            None
        } else {
            self.last_text = candidate.clone();
            Some(candidate)
        }
    }
}

/// Serialization of racing updates: the lock linearizes concurrent offers to
/// the dedup gate, so some order exists; whichever value was applied last is the
/// one the dedup gate holds afterwards, and offering a value equal to the one just
/// applied is never accepted again, so no value is ever propagated twice in
/// a row.
pub proof fn lemma_set_serialization(last: Seq<char>, a: Seq<char>, b: Seq<char>)
    ensures
        next_last(next_last(last, a), b) == b,
        a == b ==> !accepts(next_last(last, a), b),
{
}

/// Idempotence of the dedup gate: a candidate that differs from the current value is
/// accepted exactly once; offering the same candidate again right after is
/// rejected and leaves the value unchanged.
pub proof fn lemma_try_accept_idempotent(last: Seq<char>, t: Seq<char>)
    requires
        t != last,
    ensures
        accepts(last, t),
        next_last(last, t) == t,
        !accepts(next_last(last, t), t),
        next_last(next_last(last, t), t) == t,
{
}

} // verus!
