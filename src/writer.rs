//! Draining a byte buffer into a host stream through WRITE operations that may
//! accept only part of what they are offered.

use vstd::prelude::*;
use vstd::string::StringSliceAdditionalSpecFns;
use crate::streams::{get_stderr, get_stdout, Streams};

verus! {

/// Why a write to the host stopped before its buffer was drained.
#[derive(Clone, Copy, Debug, PartialEq, Eq, Structural)]
pub enum WriteError {
    /// The handle is negative: the stream is not open, so the host is not asked.
    InvalidHandle,
    /// The host reported more unwritten bytes than it was offered.
    HostError,
}

/// A drain in this state still has bytes to offer the host.
pub open spec fn still_sending(state: Option<nat>) -> bool {
    state matches Some(n) && n > 0
}

/// The state of a drain after the host answers a WRITE with `unwritten`.
///
/// A state is `Some(n)` while `n` bytes at the end of the buffer are still to be
/// sent (`Some(0)`: everything was accepted) and `None` once the host has given
/// a malformed answer. The host convention is that the unwritten bytes are the
/// tail of what was offered, so the new state is the reply itself when it is no
/// larger than what was offered. A finished drain takes no further replies.
pub open spec fn after_reply(state: Option<nat>, unwritten: nat) -> Option<nat> {
    match state {
        Some(n) => if n == 0 {
            state
        } else if unwritten <= n {
            Some(unwritten)
        } else {
            None::<nat>
        },
        None => None::<nat>,
    }
}

/// The state of a drain of `len` bytes after the host has answered with `replies`.
pub open spec fn after_replies(len: nat, replies: Seq<nat>) -> Option<nat>
    decreases replies.len(),
{
    if replies.len() == 0 {
        Some(len)
    } else {
        after_reply(after_replies(len, replies.drop_last()), replies.last())
    }
}

/// The number of bytes that the host acknowledged over `replies`, in a drain of
/// `len` bytes: each reply accepts what was offered less what it left unwritten.
pub open spec fn total_accepted(len: nat, replies: Seq<nat>) -> int
    decreases replies.len(),
{
    if replies.len() == 0 {
        0
    } else {
        let before = after_replies(len, replies.drop_last());
        let c = replies.last();
        total_accepted(len, replies.drop_last()) + match before {
            Some(n) => if 0 < n && c <= n {
                n - c
            } else {
                0
            },
            None => 0,
        }
    }
}

/// `replies` is a well-formed series of host answers for a drain of `len` bytes:
/// each is a residual count no larger than what was offered, every one but the
/// last is nonzero, and the last is zero.
pub open spec fn valid_replies(len: nat, replies: Seq<nat>) -> bool {
    &&& len > 0
    &&& replies.len() > 0
    &&& replies.last() == 0
    &&& replies[0] <= len
    &&& forall|i: int| 0 <= i < replies.len() - 1 ==> replies[i] > 0
    &&& forall|i: int| 0 < i < replies.len() ==> #[trigger] replies[i] <= replies[i - 1]
}

proof fn lemma_drain_prefix(len: nat, replies: Seq<nat>, k: int)
    requires
        valid_replies(len, replies),
        0 <= k <= replies.len(),
    ensures
        after_replies(len, replies.take(k)) == Some(
            if k == 0 {
                len
            } else {
                replies[k - 1]
            },
        ),
        total_accepted(len, replies.take(k)) == len - (if k == 0 {
            len
        } else {
            replies[k - 1]
        }),
    decreases k,
{
    if k > 0 {
        lemma_drain_prefix(len, replies, k - 1);
        assert(replies.take(k).drop_last() =~= replies.take(k - 1));
        assert(replies.take(k).last() == replies[k - 1]);
    }
}

/// A drain fed a well-formed series of replies finishes exactly at the final
/// zero: before it the drain is still sending, after it every byte of the
/// buffer has been acknowledged once, so the host accepted `len` bytes in all.
pub proof fn lemma_drain_completes(len: nat, replies: Seq<nat>)
    requires
        valid_replies(len, replies),
    ensures
        after_replies(len, replies) == Some(0nat),
        total_accepted(len, replies) == len,
        forall|k: int|
            0 <= k < replies.len() ==> still_sending(#[trigger] after_replies(len, replies.take(k))),
{
    lemma_drain_prefix(len, replies, replies.len() as int);
    assert(replies.take(replies.len() as int) =~= replies);
    assert forall|k: int| 0 <= k < replies.len() implies still_sending(
        #[trigger] after_replies(len, replies.take(k)),
    ) by {
        lemma_drain_prefix(len, replies, k);
    }
}

proof fn lemma_failed_stays(len: nat, replies: Seq<nat>, k: int, j: int)
    requires
        0 <= k < j <= replies.len(),
        after_replies(len, replies.take(k + 1)) is None,
    ensures
        after_replies(len, replies.take(j)) is None,
    decreases j - k,
{
    if j > k + 1 {
        lemma_failed_stays(len, replies, k, j - 1);
        assert(replies.take(j).drop_last() =~= replies.take(j - 1));
    }
}

/// A reply that reports more unwritten bytes than were offered ends the drain
/// with a host error for good: whatever the host answers afterwards, the drain
/// never goes back to sending, so no further WRITE is issued.
pub proof fn lemma_malformed_reply_halts(len: nat, replies: Seq<nat>, k: int)
    requires
        0 <= k < replies.len(),
        still_sending(after_replies(len, replies.take(k))),
        replies[k] > after_replies(len, replies.take(k))->Some_0,
    ensures
        forall|j: int|
            k < j <= replies.len() ==> #[trigger] after_replies(len, replies.take(j)) is None,
{
    assert(replies.take(k + 1).drop_last() =~= replies.take(k));
    assert forall|j: int| k < j <= replies.len() implies #[trigger] after_replies(
        len,
        replies.take(j),
    ) is None by {
        lemma_failed_stays(len, replies, k, j);
    }
}

/// A drain of `buffer` into the host stream `fd`: which bytes to offer next,
/// and whether the drain has finished.
pub struct WriteCursor<'a> {
    fd: isize,
    buffer: &'a [u8],
    offset: usize,
    failed: bool,
}

impl<'a> WriteCursor<'a> {
    #[verifier::type_invariant]
    spec fn inv(self) -> bool {
        self.fd >= 0 && self.offset <= self.buffer@.len()
    }

    /// The stream written to.
    pub closed spec fn spec_fd(self) -> isize {
        self.fd
    }

    /// The whole buffer being drained.
    pub closed spec fn spec_bytes(self) -> Seq<u8> {
        self.buffer@
    }

    /// `Some(n)`: the last `n` bytes remain to be sent; `None`: the host failed.
    pub closed spec fn drain_state(self) -> Option<nat> {
        if self.failed {
            None
        } else {
            Some((self.buffer@.len() - self.offset) as nat)
        }
    }

    /// The stream written to.
    pub fn fd(&self) -> (r: isize)
        ensures
            r == self.spec_fd(),
            r >= 0,
    {
        proof {
            use_type_invariant(self);
        }
        self.fd
    }

    /// The bytes to offer the host in the next WRITE, if the drain goes on: the
    /// unsent tail of the buffer.
    pub fn pending(&self) -> (r: Option<&'a [u8]>)
        ensures
            match self.drain_state() {
                Some(n) => if n > 0 {
                    r is Some && r->Some_0@ == self.spec_bytes().subrange(
                        self.spec_bytes().len() - n,
                        self.spec_bytes().len() as int,
                    )
                } else {
                    r is None
                },
                None => r is None,
            },
    {
        proof {
            use_type_invariant(self);
        }
        if self.failed || self.offset == self.buffer.len() {
            None
        } else {
            let (_, rest) = self.buffer.split_at(self.offset);
            Some(rest)
        }
    }

    /// How the drain ended: `None` while bytes remain to be sent.
    pub fn outcome(&self) -> (r: Option<Result<(), WriteError>>)
        ensures
            r == match self.drain_state() {
                Some(n) => if n == 0 {
                    Some(Ok::<(), WriteError>(()))
                } else {
                    None
                },
                None => Some(Err(WriteError::HostError)),
            },
    {
        proof {
            use_type_invariant(self);
        }
        if self.failed {
            Some(Err(WriteError::HostError))
        } else if self.offset == self.buffer.len() {
            Some(Ok(()))
        } else {
            None
        }
    }

    /// Takes the host's answer to the WRITE of the pending bytes: the number of
    /// bytes that it did not write. Zero finishes the drain; a count up to the
    /// number offered keeps that many bytes at the end for the next WRITE; a
    /// larger count is a protocol violation and ends the drain with `HostError`.
    pub fn record_reply(&mut self, unwritten: usize) -> (r: Result<(), WriteError>)
        requires
            still_sending(old(self).drain_state()),
        ensures
            final(self).spec_fd() == old(self).spec_fd(),
            final(self).spec_bytes() == old(self).spec_bytes(),
            final(self).drain_state() == after_reply(old(self).drain_state(), unwritten as nat),
            r is Ok <==> unwritten <= old(self).drain_state()->Some_0,
            r is Err ==> r == Err::<(), WriteError>(WriteError::HostError),
    {
        proof {
            use_type_invariant(&*self);
        }
        let remaining = self.buffer.len() - self.offset;
        if unwritten <= remaining {
            self.offset = self.buffer.len() - unwritten;
            Ok(())
        } else {
            self.failed = true;
            Err(WriteError::HostError)
        }
    }
}

/// `r` is the start of a drain of `bytes` into the host stream `fd`: a cursor
/// with every byte pending when `fd` is a handle, `InvalidHandle` when negative.
pub open spec fn starts_drain<'a>(
    r: Result<WriteCursor<'a>, WriteError>,
    fd: isize,
    bytes: Seq<u8>,
) -> bool {
    match r {
        Ok(c) => fd >= 0 && c.spec_fd() == fd && c.spec_bytes() == bytes && c.drain_state() == Some(
            bytes.len(),
        ),
        Err(e) => fd < 0 && e == WriteError::InvalidHandle,
    }
}

/// Starts writing `buffer` to the host stream `fd`. A negative handle fails at
/// once with `InvalidHandle` and nothing is to be sent; otherwise the drain
/// starts with the whole buffer pending (an empty buffer is already done).
pub fn write_all<'a>(fd: isize, buffer: &'a [u8]) -> (r: Result<WriteCursor<'a>, WriteError>)
    ensures
        starts_drain(r, fd, buffer@),
{
    if fd < 0 {
        return Err(WriteError::InvalidHandle);
    }
    Ok(WriteCursor { fd, buffer, offset: 0, failed: false })
}

/// Starts writing `buffer` to the host's standard error.
pub fn ewrite<'a>(streams: &Streams, buffer: &'a [u8]) -> (r: Result<WriteCursor<'a>, WriteError>)
    ensures
        starts_drain(r, streams.spec_stderr(), buffer@),
{
    write_all(get_stderr(streams), buffer)
}

/// Starts writing the UTF-8 bytes of `string` to the host's standard error.
pub fn ewrite_str<'a>(streams: &Streams, string: &'a str) -> (r: Result<
    WriteCursor<'a>,
    WriteError,
>)
    ensures
        starts_drain(r, streams.spec_stderr(), string.spec_bytes()),
{
    write_all(get_stderr(streams), string.as_bytes())
}

/// Starts writing `buffer` to the host's standard output.
pub fn write<'a>(streams: &Streams, buffer: &'a [u8]) -> (r: Result<WriteCursor<'a>, WriteError>)
    ensures
        starts_drain(r, streams.spec_stdout(), buffer@),
{
    write_all(get_stdout(streams), buffer)
}

/// Starts writing the UTF-8 bytes of `string` to the host's standard output.
pub fn write_str<'a>(streams: &Streams, string: &'a str) -> (r: Result<
    WriteCursor<'a>,
    WriteError,
>)
    ensures
        starts_drain(r, streams.spec_stdout(), string.spec_bytes()),
{
    write_all(get_stdout(streams), string.as_bytes())
}

} // verus!
