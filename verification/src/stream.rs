//! Long-lived streams: keep-alive messages, and bytes passed on between two ends.
use crate::utf8::extend;
use vstd::prelude::*;

verus! {

broadcast use vstd::string::group_string_axioms;

/// How many keep-alive messages may fail in a row, the last of them ending the stream.
pub const MAX_KEEPALIVE_FAILURES: u8 = 3;

/// How many bytes may wait for an end before the other one is no longer read.
pub const RELAY_BUFFER_BYTES: usize = 262_144;

/// How the sending of a keep-alive message ended.
#[derive(Debug, PartialEq, Eq)]
pub enum KeepAlive {
    /// It was sent; the next one is due after so many seconds.
    Sent(u32),
    /// It would have blocked.
    WouldBlock,
    /// It failed.
    Failed(String),
}

/// What follows a keep-alive message: the failures in a row, and the milliseconds to the
/// next message, or nothing where the stream is lost.
pub open spec fn after_keepalive(failures: u8, outcome: KeepAlive) -> (int, Option<u64>) {
    match outcome {
        KeepAlive::Sent(seconds) => (
            0,
            Some(
                if seconds == 0 {
                    1000
                } else {
                    (seconds * 1000) as u64
                },
            ),
        ),
        KeepAlive::WouldBlock => (failures as int, Some(250)),
        KeepAlive::Failed(_) => if failures + 1 >= MAX_KEEPALIVE_FAILURES {
            (failures + 1, None)
        } else {
            (failures + 1, Some(1000))
        },
    }
}

/// Counts the failures in a row, and says when the next message is due.
pub fn keepalive_step(failures: u8, outcome: &KeepAlive) -> (res: (u8, Option<u64>))
    requires
        failures < MAX_KEEPALIVE_FAILURES,
    ensures
        (res.0 as int, res.1) == after_keepalive(failures, *outcome),
        res.1 is Some ==> res.0 < MAX_KEEPALIVE_FAILURES,
{
    match outcome {
        KeepAlive::Sent(seconds) => {
            let due: u64 = if *seconds == 0 {
                1000
            } else {
                (*seconds as u64) * 1000
            };
            (0, Some(due))
        },
        KeepAlive::WouldBlock => (failures, Some(250)),
        KeepAlive::Failed(_) => {
            if failures + 1 >= MAX_KEEPALIVE_FAILURES {
                (failures + 1, None)
            } else {
                (failures + 1, Some(1000))
            }
        },
    }
}

// ---------------------------------------------------------------------------
// Relays
// ---------------------------------------------------------------------------

/// What happens to bytes that wait: some come in behind them, or the first so many go out.
pub enum QueueStep {
    In(Seq<u8>),
    Out(nat),
}

/// The bytes that wait after a step.
pub open spec fn queue_step(waiting: Seq<u8>, step: QueueStep) -> Seq<u8> {
    match step {
        QueueStep::In(bytes) => waiting + bytes,
        QueueStep::Out(size) => waiting.skip(size as int),
    }
}

/// The bytes that wait after these steps.
pub open spec fn waiting_after(steps: Seq<QueueStep>) -> Seq<u8>
    decreases steps.len(),
{
    if steps.len() == 0 {
        Seq::empty()
    } else {
        queue_step(waiting_after(steps.drop_last()), steps.last())
    }
}

/// All bytes that came in.
pub open spec fn came_in(steps: Seq<QueueStep>) -> Seq<u8>
    decreases steps.len(),
{
    if steps.len() == 0 {
        Seq::empty()
    } else {
        let before = came_in(steps.drop_last());
        match steps.last() {
            QueueStep::In(bytes) => before + bytes,
            QueueStep::Out(_) => before,
        }
    }
}

/// All bytes that went out: each time the first of those that waited.
pub open spec fn went_out(steps: Seq<QueueStep>) -> Seq<u8>
    decreases steps.len(),
{
    if steps.len() == 0 {
        Seq::empty()
    } else {
        let before = went_out(steps.drop_last());
        match steps.last() {
            QueueStep::In(_) => before,
            QueueStep::Out(size) => before + waiting_after(steps.drop_last()).take(size as int),
        }
    }
}

/// Whether no more goes out than waits.
pub open spec fn possible(steps: Seq<QueueStep>) -> bool
    decreases steps.len(),
{
    steps.len() > 0 ==> possible(steps.drop_last()) && (steps.last() matches QueueStep::Out(size)
        ==> size <= waiting_after(steps.drop_last()).len())
}

/// Bytes on their way between a local socket and a remote channel.
pub struct Relay {
    pub to_remote: Vec<u8>,
    pub to_local: Vec<u8>,
    pub local_eof: bool,
    pub sent_eof: bool,
}

/// Drops the first `n` bytes.
pub fn drop_front(bytes: &mut Vec<u8>, n: usize)
    requires
        n <= old(bytes)@.len(),
    ensures
        final(bytes)@ == old(bytes)@.skip(n as int),
{
    let rest = bytes.split_off(n);
    *bytes = rest;
    assert(bytes@ =~= old(bytes)@.skip(n as int));
}

impl Relay {
    pub fn new() -> (res: Self)
        ensures
            res.to_remote@.len() == 0,
            res.to_local@.len() == 0,
            !res.local_eof,
            !res.sent_eof,
    {
        Relay { to_remote: Vec::new(), to_local: Vec::new(), local_eof: false, sent_eof: false }
    }

    /// Whether the local end is to be read.
    pub fn wants_local(&self) -> (res: bool)
        ensures
            res == (!self.local_eof && self.to_remote@.len() < RELAY_BUFFER_BYTES),
    {
        !self.local_eof && self.to_remote.len() < RELAY_BUFFER_BYTES
    }

    /// Takes what was read from the local end; an empty chunk is its end.
    pub fn local_read(&mut self, chunk: &[u8])
        ensures
            final(self).to_remote@ == queue_step(old(self).to_remote@, QueueStep::In(chunk@)),
            final(self).local_eof == (old(self).local_eof || chunk@.len() == 0),
            final(self).to_local@ == old(self).to_local@,
            final(self).sent_eof == old(self).sent_eof,
    {
        if chunk.len() == 0 {
            self.local_eof = true;
            assert(self.to_remote@ + chunk@ =~= self.to_remote@);
        } else {
            extend(&mut self.to_remote, chunk);
        }
    }

    /// Drops what the remote end took.
    pub fn remote_written(&mut self, size: usize)
        requires
            size <= old(self).to_remote@.len(),
        ensures
            final(self).to_remote@ == queue_step(
                old(self).to_remote@,
                QueueStep::Out(size as nat),
            ),
            final(self).to_local@ == old(self).to_local@,
            final(self).local_eof == old(self).local_eof,
            final(self).sent_eof == old(self).sent_eof,
    {
        drop_front(&mut self.to_remote, size);
    }

    /// Whether the remote end is to be told that nothing follows: once, and after
    /// everything was passed on.
    pub fn end_due(&mut self) -> (res: bool)
        ensures
            res == (old(self).to_remote@.len() == 0 && old(self).local_eof && !old(self).sent_eof),
            final(self).sent_eof == (old(self).sent_eof || res),
            final(self).to_remote@ == old(self).to_remote@,
            final(self).to_local@ == old(self).to_local@,
            final(self).local_eof == old(self).local_eof,
    {
        if self.to_remote.len() == 0 && self.local_eof && !self.sent_eof {
            self.sent_eof = true;
            true
        } else {
            false
        }
    }

    /// Whether the remote end is to be read.
    pub fn wants_remote(&self) -> (res: bool)
        ensures
            res == (self.to_local@.len() < RELAY_BUFFER_BYTES),
    {
        self.to_local.len() < RELAY_BUFFER_BYTES
    }

    /// Takes what was read from the remote end.
    pub fn remote_read(&mut self, chunk: &[u8])
        ensures
            final(self).to_local@ == queue_step(old(self).to_local@, QueueStep::In(chunk@)),
            final(self).to_remote@ == old(self).to_remote@,
            final(self).local_eof == old(self).local_eof,
            final(self).sent_eof == old(self).sent_eof,
    {
        extend(&mut self.to_local, chunk);
    }

    /// Drops what the local end took.
    pub fn local_written(&mut self, size: usize)
        requires
            size <= old(self).to_local@.len(),
        ensures
            final(self).to_local@ == queue_step(
                old(self).to_local@,
                QueueStep::Out(size as nat),
            ),
            final(self).to_remote@ == old(self).to_remote@,
            final(self).local_eof == old(self).local_eof,
            final(self).sent_eof == old(self).sent_eof,
    {
        drop_front(&mut self.to_local, size);
    }

    /// Whether the relay is done: the remote end has ended, and the local one has
    /// everything.
    pub fn finished(&self, remote_eof: bool) -> (res: bool)
        ensures
            res == (remote_eof && self.to_local@.len() == 0),
    {
        remote_eof && self.to_local.len() == 0
    }
}

/// What is passed on is what was taken, in order: whatever came in and went out, what went
/// out and what still waits are what came in. So it is in each direction of a relay, and for
/// the input of a terminal.
pub proof fn passed_bytes_keep_their_order(steps: Seq<QueueStep>)
    requires
        possible(steps),
    ensures
        went_out(steps) + waiting_after(steps) == came_in(steps),
    decreases steps.len(),
{
    if steps.len() > 0 {
        let before = steps.drop_last();
        passed_bytes_keep_their_order(before);
        assert(went_out(steps) + waiting_after(steps) =~= came_in(steps));
    } else {
        assert(went_out(steps) + waiting_after(steps) =~= came_in(steps));
    }
}

/// A connection is lost after three keep-alive messages in a row that failed; one that goes
/// through begins the count anew, and one that would block does not count.
pub proof fn three_failures_end_a_connection(failures: u8, seconds: u32, error: String)
    requires
        failures < 3,
    ensures
        after_keepalive(failures, KeepAlive::Sent(seconds)).0 == 0,
        after_keepalive(failures, KeepAlive::Sent(seconds)).1 == Some(
            if seconds == 0 {
                1000u64
            } else {
                (seconds * 1000) as u64
            },
        ),
        after_keepalive(failures, KeepAlive::WouldBlock) == (failures as int, Some(250u64)),
        after_keepalive(failures, KeepAlive::Failed(error)).0 == failures + 1,
        after_keepalive(failures, KeepAlive::Failed(error)).1 is None <==> failures == 2,
{
}

/// What comes in goes to the end of a queue, and what goes out is taken from its front.
pub proof fn queues_are_first_in_first_out(waiting: Seq<u8>, bytes: Seq<u8>, size: nat)
    requires
        size <= waiting.len(),
    ensures
        queue_step(waiting, QueueStep::In(bytes)) == waiting + bytes,
        waiting == waiting.take(size as int) + queue_step(waiting, QueueStep::Out(size)),
{
    assert(waiting =~= waiting.take(size as int) + waiting.skip(size as int));
}

} // verus!
