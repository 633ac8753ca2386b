//! The reader loop's cycle-by-cycle decisions.
//!
//! A background thread runs one loop per terminal session: each cycle polls
//! the child's liveness without blocking, and only while the child is still
//! running performs one bounded read from the transport, pushes the decoded
//! and filtered bytes to the display sink, and wakes the GUI thread. The
//! polling, reading and waking are I/O and live with the caller; this module
//! holds the decisions — when to keep relaying, and what each cycle
//! contributes to the display — and a replay of the whole loop over recorded
//! cycles, against which those decisions are verified.

use vstd::prelude::*;

use crate::decode::{filtered_relay, relay_withheld, DecodeBuffer};

verus! {

/// Upper bound, in bytes, of one read from the transport.
pub const READ_CHUNK_SIZE: usize = 1024;

/// Pause between reader cycles, in milliseconds, to avoid a busy spin. It
/// also bounds how long after a child's exit the loop keeps running: the
/// poll at the head of each cycle sees the exit at the latest one interval
/// after it happened.
pub const POLL_INTERVAL_MS: u64 = 30;

/// What a non-blocking liveness poll of the child process reported.
pub enum Liveness {
    /// The child is still running.
    Running,
    /// The child has exited, with its exit code when known.
    Exited(Option<i32>),
    /// The poll itself failed.
    Error,
}

/// The reader loop keeps relaying only while the child is reported running.
/// An exit ends the session; so does a failed poll, since liveness can no
/// longer be established.
pub fn should_continue(l: &Liveness) -> (r: bool)
    ensures
        r == (l is Running),
{
    match l {
        Liveness::Running => true,
        Liveness::Exited(_) => false,
        Liveness::Error => false,
    }
}

/// What one reader cycle observed: the liveness poll and, when the child was
/// still running, the outcome of the bounded read that followed. `None`
/// stands for a failed or empty read — no data this cycle, never fatal.
pub struct ReadCycle {
    pub liveness: Liveness,
    pub data: Option<Vec<u8>>,
}

/// The bytes a cycle contributed: what its read returned, or nothing.
pub open spec fn cycle_bytes(c: ReadCycle) -> Seq<u8> {
    match c.data {
        Some(d) => d@,
        None => Seq::empty(),
    }
}

/// The chunks contributed by a sequence of cycles, in order.
pub open spec fn cycle_chunks(cycles: Seq<ReadCycle>) -> Seq<Seq<u8>> {
    cycles.map_values(|c: ReadCycle| cycle_bytes(c))
}

/// How a session over recorded cycles ended.
pub struct SessionOutcome {
    /// Concatenation of everything handed to the display sink.
    pub displayed: Vec<u8>,
    /// How many cycles read from the transport before the loop stopped.
    pub cycles_run: usize,
}

/// Replays the reader loop over recorded cycles: poll first, stop at the
/// first cycle where the child is not running, otherwise decode, filter and
/// append whatever the read returned.
///
/// The contract carries the loop's two guarantees: no read happens at or
/// after the first poll that does not report `Running` — the loop stops
/// within that same cycle — and the display receives exactly the filtered
/// reassembly of the chunks read before it.
pub fn run_relay(cycles: &Vec<ReadCycle>) -> (o: SessionOutcome)
    ensures
        o.cycles_run <= cycles@.len(),
        forall|j: int| 0 <= j < o.cycles_run ==> cycles@[j].liveness is Running,
        o.cycles_run < cycles@.len() ==> !(cycles@[o.cycles_run as int].liveness is Running),
        o.displayed@ == filtered_relay(
            Seq::empty(),
            cycle_chunks(cycles@.take(o.cycles_run as int)),
        ),
{
    let mut displayed: Vec<u8> = Vec::new();
    let mut buf = DecodeBuffer::new();
    let mut i: usize = 0;
    let mut stopped = false;
    proof {
        assert(cycle_chunks(cycles@.take(0)) =~= Seq::<Seq<u8>>::empty());
    }
    while i < cycles.len() && !stopped
        invariant
            i <= cycles@.len(),
            forall|j: int| 0 <= j < i ==> cycles@[j].liveness is Running,
            stopped ==> i < cycles@.len() && !(cycles@[i as int].liveness is Running),
            displayed@ == filtered_relay(Seq::empty(), cycle_chunks(cycles@.take(i as int))),
            buf@ == relay_withheld(Seq::empty(), cycle_chunks(cycles@.take(i as int))),
        decreases cycles@.len() - i + (if stopped {
            0int
        } else {
            1int
        }),
    {
        if should_continue(&cycles[i].liveness) {
            let mut out = match &cycles[i].data {
                Some(d) => buf.feed_filtered(d.as_slice()),
                None => {
                    let nothing: Vec<u8> = Vec::new();
                    buf.feed_filtered(nothing.as_slice())
                },
            };
            displayed.append(&mut out);
            proof {
                let done = cycle_chunks(cycles@.take(i as int));
                assert(cycle_chunks(cycles@.take(i + 1)) =~= done.push(
                    cycle_bytes(cycles@[i as int]),
                ));
                crate::decode::lemma_filtered_relay_snoc(
                    Seq::empty(),
                    done,
                    cycle_bytes(cycles@[i as int]),
                );
            }
            i = i + 1;
        } else {
            stopped = true;
        }
    }
    SessionOutcome { displayed, cycles_run: i }
}

} // verus!
