//! Output relay logic: bytes from the remote connection to the terminal.
//!
//! Each bounded read from the connection yields one event; the relay
//! writes non-empty data to the terminal verbatim, retries after a
//! transient error, and stops on cancellation or when the peer closes
//! the connection (a zero-length read).

use vstd::prelude::*;

verus! {

/// What one bounded read step of the output relay observed.
pub enum ReadEvent {
    /// The cancellation signal fired before data arrived.
    Cancelled,
    /// A successful read; a zero-length chunk means the peer closed the
    /// connection.
    Data(Vec<u8>),
    /// A timeout or other transient read error.
    TransientError,
}

/// What the output relay does after one read step.
pub enum OutputAction {
    /// Write these bytes to the terminal, flush, and keep relaying.
    Write(Vec<u8>),
    /// End the relay loop.
    Stop,
    /// Write nothing and retry the read.
    Retry,
}

/// Decides one step of the output relay: non-empty data is written to
/// the terminal unchanged; a zero-length read (peer closed) or the
/// cancellation signal stops the relay; a transient error only retries.
pub fn output_step(ev: ReadEvent) -> (r: OutputAction)
    ensures
        match ev {
            ReadEvent::Cancelled => r is Stop,
            ReadEvent::Data(chunk) => if chunk@.len() == 0 {
                r is Stop
            } else {
                r matches OutputAction::Write(w) && w@ == chunk@
            },
            ReadEvent::TransientError => r is Retry,
        },
{
    match ev {
        ReadEvent::Cancelled => OutputAction::Stop,
        ReadEvent::Data(chunk) => {
            if chunk.len() == 0 {
                OutputAction::Stop
            } else {
                OutputAction::Write(chunk)
            }
        },
        ReadEvent::TransientError => OutputAction::Retry,
    }
}

/// True if the event ends the relay loop: cancellation, or a zero-length
/// read showing the peer closed the connection.
pub open spec fn stops_relay(ev: ReadEvent) -> bool {
    match ev {
        ReadEvent::Cancelled => true,
        ReadEvent::Data(chunk) => chunk@.len() == 0,
        ReadEvent::TransientError => false,
    }
}

/// The bytes one event contributes to the terminal: a non-stopping data
/// chunk verbatim, nothing otherwise.
pub open spec fn event_bytes(ev: ReadEvent) -> Seq<u8> {
    match ev {
        ReadEvent::Data(chunk) => if chunk@.len() == 0 {
            Seq::empty()
        } else {
            chunk@
        },
        _ => Seq::empty(),
    }
}

/// Everything the relay writes to the terminal over a run of read
/// events: the concatenation, unchanged and in order, of the data chunks
/// before the first stopping event.
pub open spec fn written_bytes(events: Seq<ReadEvent>) -> Seq<u8>
    decreases events.len(),
{
    if events.len() == 0 {
        Seq::empty()
    } else if stops_relay(events[0]) {
        Seq::empty()
    } else {
        event_bytes(events[0]) + written_bytes(events.drop_first())
    }
}

/// True if some event in the run stops the relay, so the relay
/// terminates without operator action.
pub open spec fn run_stops(events: Seq<ReadEvent>) -> bool {
    exists|i: int| 0 <= i < events.len() && stops_relay(#[trigger] events[i])
}

/// The concatenation of the data chunks of a run of read events, in
/// arrival order.
pub open spec fn chunk_concat(events: Seq<ReadEvent>) -> Seq<u8>
    decreases events.len(),
{
    if events.len() == 0 {
        Seq::empty()
    } else {
        event_bytes(events[0]) + chunk_concat(events.drop_first())
    }
}

/// An arbitrary byte sequence arriving from the connection reaches the
/// terminal unchanged: over any run of reads none of which closes or
/// cancels the relay, the relay writes exactly the concatenation of the
/// chunks read, in order, with no byte altered, dropped or added.
pub proof fn lemma_forwards_unchanged(events: Seq<ReadEvent>)
    requires
        forall|i: int| 0 <= i < events.len() ==> !stops_relay(#[trigger] events[i]),
    ensures
        written_bytes(events) == chunk_concat(events),
    decreases events.len(),
{
    if events.len() > 0 {
        assert(!stops_relay(events[0]));
        assert(forall|i: int|
            0 <= i < events.drop_first().len() ==> !stops_relay(
                #[trigger] events.drop_first()[i],
            ));
        lemma_forwards_unchanged(events.drop_first());
    }
}

/// A read that stops the relay — the peer closing the connection (a
/// zero-length read) or the cancellation signal — ends the run at once:
/// nothing more is written, whatever events follow. So the relay
/// terminates without operator action once the remote side closes.
pub proof fn lemma_stop_ends_relay(ev: ReadEvent, rest: Seq<ReadEvent>)
    requires
        stops_relay(ev),
    ensures
        written_bytes(seq![ev] + rest) == Seq::<u8>::empty(),
        run_stops(seq![ev] + rest),
{
    let run = seq![ev] + rest;
    assert(run[0] == ev);
    assert(stops_relay(run[0]));
}

/// Relays a run of read events to the terminal: writes each non-empty
/// chunk verbatim until cancellation or a zero-length read stops the
/// loop, and returns every byte written, in order.
pub fn relay_output(events: Vec<ReadEvent>) -> (r: Vec<u8>)
    ensures
        r@ == written_bytes(events@),
{
    let ghost evs = events@;
    let mut rest = events;
    let mut written: Vec<u8> = Vec::new();
    proof {
        assert(written@ + written_bytes(evs) =~= written_bytes(evs));
    }
    #[verifier::loop_isolation(false)]
    while rest.len() > 0
        invariant
            written@ + written_bytes(rest@) == written_bytes(evs),
        decreases rest@.len(),
    {
        let ghost pre = rest@;
        let ev = rest.remove(0);
        proof {
            assert(pre[0] == ev);
            assert(pre.drop_first() =~= rest@);
        }
        match output_step(ev) {
            OutputAction::Stop => {
                proof {
                    assert(written_bytes(pre) =~= Seq::<u8>::empty());
                    assert(written@ =~= written_bytes(evs));
                }
                return written;
            },
            OutputAction::Write(chunk) => {
                let ghost before = written@;
                let mut c = chunk;
                written.append(&mut c);
                proof {
                    assert(written@ =~= before + event_bytes(pre[0]));
                    assert((before + event_bytes(pre[0])) + written_bytes(rest@) =~= before + (
                    event_bytes(pre[0]) + written_bytes(rest@)));
                    assert(event_bytes(pre[0]) + written_bytes(rest@) =~= written_bytes(pre));
                }
            },
            OutputAction::Retry => {
                proof {
                    assert(written_bytes(pre) =~= written_bytes(rest@));
                }
            },
        }
    }
    proof {
        assert(rest@ =~= Seq::<ReadEvent>::empty());
        assert(written@ =~= written_bytes(evs));
    }
    written
}

} // verus!
