//! A host stream opened on first use. Each acquisition runs in a critical
//! section (interrupts off): it tests the slot, asks the host to OPEN only if
//! the slot is unset, stores the answer, and hands back the handle. Exclusive
//! access to the `LazyStream` for the whole acquisition is that critical
//! section.

use vstd::prelude::*;
use crate::streams::{
    check_handle, handle_of, handle_result, mode_of, open_request, reply_handle, OpenRequest,
    StreamError, StreamKind, TERMINAL_PATH,
};

verus! {

/// What an acquisition has to do next.
#[derive(Clone, Copy, Debug, PartialEq, Eq)]
pub enum Acquire {
    /// Nothing is stored yet: issue this OPEN and pass its answer to
    /// `LazyStream::complete_open`.
    Open(OpenRequest),
    /// The stream was opened before: this is what the caller gets.
    Ready(Result<isize, StreamError>),
}

/// The slot after one acquisition, where the host would answer `reply` if asked
/// to OPEN: an unset slot takes the answer, a set one keeps its handle.
pub open spec fn slot_after(slot: Option<isize>, reply: usize) -> Option<isize> {
    match slot {
        Some(h) => Some(h),
        None => Some(handle_of(reply)),
    }
}

/// The slot after acquisitions one after another, the i-th of which would get
/// `replies[i]` from the host if it asked.
pub open spec fn slot_after_all(slot: Option<isize>, replies: Seq<usize>) -> Option<isize>
    decreases replies.len(),
{
    if replies.len() == 0 {
        slot
    } else {
        slot_after(slot_after_all(slot, replies.drop_last()), replies.last())
    }
}

/// How many of those acquisitions issue an OPEN: those that find the slot unset.
pub open spec fn opens_issued(slot: Option<isize>, replies: Seq<usize>) -> nat
    decreases replies.len(),
{
    if replies.len() == 0 {
        0
    } else {
        opens_issued(slot, replies.drop_last()) + if slot_after_all(
            slot,
            replies.drop_last(),
        ) is None {
            1nat
        } else {
            0nat
        }
    }
}

/// One stream of the host, opened on first use.
pub struct LazyStream {
    kind: StreamKind,
    slot: Option<isize>,
}

impl LazyStream {
    /// The stream this slot opens.
    pub closed spec fn spec_kind(self) -> StreamKind {
        self.kind
    }

    /// The stored handle, `None` while no OPEN has been issued.
    pub closed spec fn spec_slot(self) -> Option<isize> {
        self.slot
    }

    /// An unopened slot for the given stream.
    pub fn new(kind: StreamKind) -> (r: LazyStream)
        ensures
            r.spec_kind() == kind,
            r.spec_slot() is None,
    {
        LazyStream { kind, slot: None }
    }

    /// The stored handle, `None` while no OPEN has been issued.
    pub fn slot(&self) -> (r: Option<isize>)
        ensures
            r == self.spec_slot(),
    {
        self.slot
    }

    /// Tests the slot: an unset one asks for the OPEN of this stream, a set one
    /// gives its handle, or `OpenFailed` if that handle is negative.
    pub fn acquire(&self) -> (r: Acquire)
        ensures
            match self.spec_slot() {
                None => r matches Acquire::Open(req) && req.path@ == TERMINAL_PATH@ && req.mode
                    == mode_of(self.spec_kind()),
                Some(h) => r == Acquire::Ready(handle_result(h)),
            },
    {
        match self.slot {
            None => Acquire::Open(open_request(self.kind)),
            Some(h) => Acquire::Ready(check_handle(h)),
        }
    }

    /// Stores the host's answer to the OPEN that `acquire` asked for, whatever
    /// it is, and gives what the caller gets for it.
    pub fn complete_open(&mut self, reply: usize) -> (r: Result<isize, StreamError>)
        requires
            old(self).spec_slot() is None,
        ensures
            final(self).spec_kind() == old(self).spec_kind(),
            final(self).spec_slot() == slot_after(old(self).spec_slot(), reply),
            r == handle_result(handle_of(reply)),
    {
        let h = reply_handle(reply);
        self.slot = Some(h);
        check_handle(h)
    }
}

proof fn lemma_slot_after_prefix(replies: Seq<usize>, k: int)
    requires
        0 < k <= replies.len(),
    ensures
        slot_after_all(None, replies.take(k)) == Some(handle_of(replies[0])),
        opens_issued(None, replies.take(k)) == 1,
    decreases k,
{
    assert(replies.take(k).drop_last() =~= replies.take(k - 1));
    if k > 1 {
        lemma_slot_after_prefix(replies, k - 1);
    } else {
        assert(opens_issued(None, replies.take(0)) == 0);
        assert(slot_after_all(None, replies.take(0)) is None);
    }
}

/// However many acquisitions of an unopened stream follow one another, and
/// whatever the host would answer each, exactly one of them issues an OPEN (the
/// first), and after each of them the slot holds the first answer: every
/// caller gets the same handle.
pub proof fn lemma_open_once(replies: Seq<usize>)
    requires
        replies.len() > 0,
    ensures
        opens_issued(None, replies) == 1,
        forall|k: int|
            0 < k <= replies.len() ==> #[trigger] slot_after_all(None, replies.take(k)) == Some(
                handle_of(replies[0]),
            ),
{
    lemma_slot_after_prefix(replies, replies.len() as int);
    assert(replies.take(replies.len() as int) =~= replies);
    assert forall|k: int| 0 < k <= replies.len() implies #[trigger] slot_after_all(
        None,
        replies.take(k),
    ) == Some(handle_of(replies[0])) by {
        lemma_slot_after_prefix(replies, k);
    }
}

} // verus!
