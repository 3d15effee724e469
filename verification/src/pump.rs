use vstd::prelude::*;

verus! {

/// How many bytes one read attempt of the output pump asks for.
pub const PUMP_READ_LEN: usize = 4096;

/// What one attempt to read a session's output produced. The embedding
/// performs the read on the cloned master-side handle and reports the
/// outcome here: end-of-stream, a non-empty chunk, a transient would-block
/// condition, or any other error with its textual cause.
pub enum ReadEvent {
    Eof,
    Data(Vec<u8>),
    WouldBlock,
    Failed(String),
}

/// A notification for the presentation layer; the embedding tags it with
/// the session identifier it belongs to and delivers it best-effort.
pub enum PumpNotice {
    Output(Vec<u8>),
    Closed,
    Failed(String),
}

/// What the pump does after one read attempt: possibly deliver a notice,
/// possibly pause briefly before the next read (the pump's only
/// self-throttling), and whether to terminate.
pub struct PumpDirective {
    pub notice: Option<PumpNotice>,
    pub pause: bool,
    pub stop: bool,
}

/// The pump's decision for one read event: end-of-stream delivers the one
/// closed notice and stops; a chunk is forwarded unmodified and the loop
/// goes on at once; would-block pauses and retries; any other error
/// delivers its cause and stops.
pub open spec fn spec_pump_step(ev: ReadEvent) -> PumpDirective {
    match ev {
        ReadEvent::Eof => PumpDirective { notice: Some(PumpNotice::Closed), pause: false, stop: true },
        ReadEvent::Data(bytes) => PumpDirective {
            notice: Some(PumpNotice::Output(bytes)),
            pause: false,
            stop: false,
        },
        ReadEvent::WouldBlock => PumpDirective { notice: None, pause: true, stop: false },
        ReadEvent::Failed(cause) => PumpDirective {
            notice: Some(PumpNotice::Failed(cause)),
            pause: false,
            stop: true,
        },
    }
}

/// Decide what the pump does next, given what the last read attempt
/// produced. The embedding runs the loop: read, decide, act.
pub fn pump_step(ev: ReadEvent) -> (d: PumpDirective)
    ensures
        d == spec_pump_step(ev),
{
    match ev {
        ReadEvent::Eof => PumpDirective { notice: Some(PumpNotice::Closed), pause: false, stop: true },
        ReadEvent::Data(bytes) => PumpDirective {
            notice: Some(PumpNotice::Output(bytes)),
            pause: false,
            stop: false,
        },
        ReadEvent::WouldBlock => PumpDirective { notice: None, pause: true, stop: false },
        ReadEvent::Failed(cause) => PumpDirective {
            notice: Some(PumpNotice::Failed(cause)),
            pause: false,
            stop: true,
        },
    }
}

/// Every notice a pump run delivers for a sequence of read events, in
/// order, stopping at the first event whose directive terminates the pump.
pub open spec fn spec_pump_run(events: Seq<ReadEvent>) -> Seq<PumpNotice>
    decreases events.len(),
{
    if events.len() == 0 {
        Seq::<PumpNotice>::empty()
    } else {
        let d = spec_pump_step(events[0]);
        let head = match d.notice {
            Some(n) => seq![n],
            None => Seq::<PumpNotice>::empty(),
        };
        if d.stop {
            head
        } else {
            head + spec_pump_run(events.drop_first())
        }
    }
}

/// A pump run delivers a closed notice only as its very last notice, so no
/// output or error notice for the session ever follows it, and no run
/// delivers closed twice.
pub proof fn lemma_pump_closed_is_last(events: Seq<ReadEvent>)
    ensures
        forall|i: int|
            0 <= i < spec_pump_run(events).len() && (#[trigger] spec_pump_run(events)[i])
                is Closed ==> i == spec_pump_run(events).len() - 1,
    decreases events.len(),
{
    let out = spec_pump_run(events);
    if events.len() > 0 {
        let d = spec_pump_step(events[0]);
        if !d.stop {
            lemma_pump_closed_is_last(events.drop_first());
            let rest = spec_pump_run(events.drop_first());
            assert forall|i: int| 0 <= i < out.len() && (#[trigger] out[i]) is Closed implies i
                == out.len() - 1 by {
                match events[0] {
                    ReadEvent::Data(_) => {
                        assert(out[0] is Output);
                        assert(i >= 1);
                        assert(out[i] == rest[i - 1]);
                    },
                    ReadEvent::WouldBlock => {
                        assert(out =~= rest);
                    },
                    _ => {},
                }
            }
        }
    }
}

/// End-of-stream closes the session exactly once: a run whose read events
/// are chunks and would-block conditions until a final end-of-stream
/// delivers a closed notice as its last notice and no closed notice before
/// it.
pub proof fn lemma_pump_eof_closes_once(events: Seq<ReadEvent>)
    requires
        events.len() > 0,
        events.last() is Eof,
        forall|k: int|
            0 <= k < events.len() - 1 ==> ((#[trigger] events[k]) is Data
                || events[k] is WouldBlock),
    ensures
        spec_pump_run(events).len() > 0,
        spec_pump_run(events).last() is Closed,
        forall|i: int|
            0 <= i < spec_pump_run(events).len() - 1 ==> !((#[trigger] spec_pump_run(events)[i])
                is Closed),
    decreases events.len(),
{
    let out = spec_pump_run(events);
    if events.len() == 1 {
        assert(events[0] is Eof);
    } else {
        let tail = events.drop_first();
        assert(tail.last() == events.last());
        assert forall|k: int| 0 <= k < tail.len() - 1 implies ((#[trigger] tail[k]) is Data
            || tail[k] is WouldBlock) by {
            assert(tail[k] == events[k + 1]);
        }
        lemma_pump_eof_closes_once(tail);
        let rest = spec_pump_run(tail);
        assert(events[0] is Data || events[0] is WouldBlock);
        match events[0] {
            ReadEvent::Data(_) => {
                assert(out.last() == rest.last());
                assert forall|i: int| 0 <= i < out.len() - 1 implies !((#[trigger] out[i])
                    is Closed) by {
                    if i >= 1 {
                        assert(out[i] == rest[i - 1]);
                    }
                }
            },
            ReadEvent::WouldBlock => {
                assert(out =~= rest);
            },
            _ => {},
        }
    }
}

} // verus!
