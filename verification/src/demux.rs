//! Correlation-scoped log demultiplexing: classifying each raw log chunk
//! for one subscriber's key, and the per-subscription stream session.

use vstd::prelude::*;
use vstd::string::StringExecFns;
use crate::text::{
    decode_lossy, decode_lossy_bytes, has_prefix, lemma_trimmed_idempotent, lemma_trimmed_keeps,
    prefix_for, strip_key_prefix, trim, trimmed,
};

verus! {

/// The channel a log event was read from.
#[derive(PartialEq, Eq, Structural, Clone, Copy, Debug)]
pub enum Channel {
    Output,
    Error,
}

/// One event republished to a subscriber.
#[derive(Clone, Debug)]
pub struct LogEvent {
    pub channel: Channel,
    pub payload: String,
}

/// One raw chunk as the engine's log attach delivers it.
#[derive(Clone, Debug)]
pub enum Chunk {
    Stdout(Vec<u8>),
    Stderr(Vec<u8>),
    Stdin(Vec<u8>),
}

/// Mathematical model of a log event: its channel and payload text.
pub ghost struct EventModel {
    pub channel: Channel,
    pub payload: Seq<char>,
}

/// What a subscriber with `key` observes of a stdout line: the trimmed
/// remainder after the literal `[key]` prefix, or nothing when the line
/// does not carry that prefix.
pub open spec fn output_match(key: Seq<char>, line: Seq<char>) -> Option<Seq<char>> {
    if has_prefix(line, prefix_for(key)) {
        Some(trimmed(line.subrange(key.len() + 2 as int, line.len() as int)))
    } else {
        None
    }
}

/// What a subscriber with `key` observes of one raw chunk: a filtered
/// stdout event, an unfiltered stderr event, or nothing.
pub open spec fn chunk_match(key: Seq<char>, chunk: Chunk) -> Option<EventModel> {
    match chunk {
        Chunk::Stdout(b) => match output_match(key, decode_lossy(b@)) {
            Some(p) => Some(EventModel { channel: Channel::Output, payload: p }),
            None => None,
        },
        Chunk::Stderr(b) => Some(
            EventModel { channel: Channel::Error, payload: decode_lossy(b@) },
        ),
        Chunk::Stdin(_) => None,
    }
}

/// Classifies one raw chunk for the subscriber holding `key`.
///
/// Stdout lines are decoded, kept only when they begin with the literal
/// `[key]`, and republished with the prefix stripped and the remainder
/// trimmed; stderr lines are decoded and passed through unfiltered;
/// stdin chunks are dropped.
pub fn process_chunk(key: &str, chunk: &Chunk) -> (r: Option<LogEvent>)
    ensures
        r is Some <==> chunk_match(key@, *chunk) is Some,
        r matches Some(ev) ==> (chunk_match(key@, *chunk) matches Some(m) && ev.channel
            == m.channel && ev.payload@ == m.payload),
{
    match chunk {
        Chunk::Stdout(b) => {
            let line = decode_lossy_bytes(b);
            match strip_key_prefix(line.as_str(), key) {
                Some(rest) => Some(
                    LogEvent { channel: Channel::Output, payload: String::from_str(trim(rest)) },
                ),
                None => None,
            }
        },
        Chunk::Stderr(b) => Some(LogEvent { channel: Channel::Error, payload: decode_lossy_bytes(b) }),
        Chunk::Stdin(_) => None,
    }
}

/// Isolation across keys: a stdout line addressed to one key is never
/// observed, as its own payload, by a subscriber holding a different
/// key. The payload may be any text free of `]`, the character that
/// closes the correlation prefix.
pub proof fn lemma_key_isolation(k1: Seq<char>, k2: Seq<char>, p: Seq<char>)
    requires
        k1 != k2,
        forall|i: int| 0 <= i < p.len() ==> p[i] != ']',
    ensures
        (match output_match(k2, prefix_for(k1) + seq![' '] + p) {
            Some(observed) => observed != p,
            None => true,
        }),
{
    let line = prefix_for(k1) + seq![' '] + p;
    let n1 = k1.len() as int;
    let n2 = k2.len() as int;
    if has_prefix(line, prefix_for(k2)) {
        assert(forall|t: int|
            0 <= t < n2 + 2 ==> prefix_for(k2)[t] == line[t]);
        if n2 == n1 {
            assert(forall|t: int| 0 <= t < n1 ==> k2[t] == line[t + 1]);
            assert(forall|t: int| 0 <= t < n1 ==> line[t + 1] == k1[t]);
            assert(k2 =~= k1);
        } else if n2 > n1 {
            // The closing `]` of the claimed prefix would have to sit in
            // the separating space or inside the `]`-free payload.
            assert(prefix_for(k2)[n2 + 1] == ']');
            assert(line[n1 + 1] == ']');
            if n2 + 1 == n1 + 2 {
                assert(line[n2 + 1] == ' ');
            } else {
                assert(line[n2 + 1] == p[n2 + 1 - (n1 + 3)]);
            }
        } else {
            // k2 is shorter: the `]` that closes k1's prefix survives in
            // the observed remainder, and the payload holds no `]`.
            let tail = line.subrange(n2 + 2, line.len() as int);
            assert(tail[n1 - n2 - 1] == line[n1 + 1]);
            assert(line[n1 + 1] == ']');
            assert(tail.contains(']'));
            assert(!crate::text::is_space(']'));
            lemma_trimmed_keeps(tail, ']');
            let observed = trimmed(tail);
            if observed == p {
                let w = choose|w: int| 0 <= w < observed.len() && observed[w] == ']';
                assert(p[w] == ']');
            }
        }
    }
}

/// A matched stdout payload is already trimmed: re-trimming it changes
/// nothing.
pub proof fn lemma_output_payload_trimmed(key: Seq<char>, line: Seq<char>)
    ensures
        (match output_match(key, line) {
            Some(observed) => trimmed(observed) == observed,
            None => true,
        }),
{
    if has_prefix(line, prefix_for(key)) {
        lemma_trimmed_idempotent(line.subrange(key.len() + 2 as int, line.len() as int));
    }
}

/// State of one subscriber's stream session.
#[derive(PartialEq, Eq, Structural, Clone, Copy, Debug)]
pub enum StreamState {
    /// The existence of the container is being checked.
    AwaitingExists,
    /// The log attach is live and chunks are being read.
    Streaming,
    /// The session is over; the attach is released.
    Ended,
}

/// One answer from the boundary that drives the session forward.
pub enum StreamEvent {
    /// Whether the engine still knows the container.
    ExistsAnswer(bool),
    /// One chunk read from the log attach.
    Chunk(Chunk),
    /// The read failed.
    ReadFailed,
    /// The log source ended (container exit or engine disconnect).
    SourceEnded,
    /// The subscriber went away.
    Disconnected,
}

/// What the boundary must do after a step.
pub enum StreamEffect {
    /// Attach to the container's log stream, then read.
    Attach,
    /// Republish this event, then read the next chunk.
    Emit(LogEvent),
    /// Read the next chunk without republishing anything.
    Skip,
    /// Answer the subscriber with a not-found failure.
    NotFound,
    /// Release the log attach; the session is over.
    Release,
}

/// Which events a state can answer.
pub open spec fn stream_event_fits(state: StreamState, event: StreamEvent) -> bool {
    match state {
        StreamState::AwaitingExists => event is ExistsAnswer,
        StreamState::Streaming => !(event is ExistsAnswer),
        StreamState::Ended => false,
    }
}

/// The session's transition function.
pub open spec fn stream_next(state: StreamState, event: StreamEvent) -> StreamState {
    match state {
        StreamState::AwaitingExists => match event {
            StreamEvent::ExistsAnswer(present) => if present {
                StreamState::Streaming
            } else {
                StreamState::Ended
            },
            _ => state,
        },
        StreamState::Streaming => match event {
            StreamEvent::Chunk(_) => StreamState::Streaming,
            _ => StreamState::Ended,
        },
        StreamState::Ended => StreamState::Ended,
    }
}

/// Whether a step attaches to the log stream.
pub open spec fn stream_attaches(state: StreamState, event: StreamEvent) -> bool {
    state is AwaitingExists && (event matches StreamEvent::ExistsAnswer(b) && b)
}

/// What a step republishes, if anything.
pub open spec fn stream_emission(key: Seq<char>, state: StreamState, event: StreamEvent) -> Option<
    EventModel,
> {
    if state is Streaming {
        match event {
            StreamEvent::Chunk(c) => chunk_match(key, c),
            _ => None,
        }
    } else {
        None
    }
}

/// Drives one subscriber's session one step forward.
///
/// The session checks existence first: a missing container answers
/// not-found and ends the session before any attach or read. While
/// streaming, each chunk is classified for `key`; a read failure, the
/// end of the source, or a disconnect releases the attach at once.
pub fn stream_step(key: &str, state: StreamState, event: StreamEvent) -> (r: (
    StreamState,
    StreamEffect,
))
    requires
        stream_event_fits(state, event),
    ensures
        r.0 == stream_next(state, event),
        r.1 is Attach <==> stream_attaches(state, event),
        (r.1 matches StreamEffect::Emit(ev)) <==> stream_emission(key@, state, event) is Some,
        r.1 matches StreamEffect::Emit(ev) ==> (stream_emission(key@, state, event) matches Some(m)
            && ev.channel == m.channel && ev.payload@ == m.payload),
        r.1 is NotFound <==> (state is AwaitingExists && (event matches StreamEvent::ExistsAnswer(b)
            && !b)),
        r.1 is Release <==> (state is Streaming && !(event is Chunk)),
{
    match state {
        StreamState::AwaitingExists => {
            match event {
                StreamEvent::ExistsAnswer(present) => {
                    if present {
                        (StreamState::Streaming, StreamEffect::Attach)
                    } else {
                        (StreamState::Ended, StreamEffect::NotFound)
                    }
                },
                _ => (state, StreamEffect::Skip),
            }
        },
        StreamState::Streaming => {
            match event {
                StreamEvent::Chunk(c) => {
                    match process_chunk(key, &c) {
                        Some(ev) => (StreamState::Streaming, StreamEffect::Emit(ev)),
                        None => (StreamState::Streaming, StreamEffect::Skip),
                    }
                },
                _ => (StreamState::Ended, StreamEffect::Release),
            }
        },
        StreamState::Ended => (StreamState::Ended, StreamEffect::Skip),
    }
}

/// The state after a session consumes `events`, starting from `init`.
pub open spec fn stream_state_after(init: StreamState, events: Seq<StreamEvent>) -> StreamState
    decreases events.len(),
{
    if events.len() == 0 {
        init
    } else {
        stream_next(stream_state_after(init, events.drop_last()), events.last())
    }
}

/// An ended session stays ended: no later event revives it.
pub proof fn lemma_ended_absorbing(events: Seq<StreamEvent>)
    ensures
        stream_state_after(StreamState::Ended, events) is Ended,
    decreases events.len(),
{
    if events.len() > 0 {
        lemma_ended_absorbing(events.drop_last());
    }
}

/// A subscriber refused at the existence check is never attached and
/// never shown an event: when the first answer says the container is
/// missing, the session is ended from then on, and no step of the whole
/// run attaches or emits.
pub proof fn lemma_not_found_blocks_stream(key: Seq<char>, events: Seq<StreamEvent>)
    requires
        events.len() >= 1,
        events[0] matches StreamEvent::ExistsAnswer(b) && !b,
    ensures
        forall|k: int|
            1 <= k <= events.len() ==> stream_state_after(
                StreamState::AwaitingExists,
                events.take(k),
            ) is Ended,
        forall|k: int|
            0 <= k < events.len() ==> !stream_attaches(
                stream_state_after(StreamState::AwaitingExists, events.take(k)),
                events[k],
            ),
        forall|k: int|
            0 <= k < events.len() ==> stream_emission(
                key,
                stream_state_after(StreamState::AwaitingExists, events.take(k)),
                events[k],
            ) is None,
{
    assert forall|k: int| 1 <= k <= events.len() implies stream_state_after(
        StreamState::AwaitingExists,
        events.take(k),
    ) is Ended by {
        assert(events.take(1).drop_last() =~= events.take(0));
        assert(events.take(0) =~= Seq::<StreamEvent>::empty());
        assert(events.take(1).last() == events[0]);
        assert(stream_state_after(StreamState::AwaitingExists, events.take(1)) is Ended);
        if k > 1 {
            let rest = events.take(k).subrange(1, k);
            lemma_ended_absorbing(rest);
            lemma_stream_shift(events.take(k));
        }
    }
    assert forall|k: int| 0 <= k < events.len() implies !stream_attaches(
        stream_state_after(StreamState::AwaitingExists, events.take(k)),
        events[k],
    ) && stream_emission(
        key,
        stream_state_after(StreamState::AwaitingExists, events.take(k)),
        events[k],
    ) is None by {
        if k == 0 {
            assert(events.take(0) =~= Seq::<StreamEvent>::empty());
        }
    }
}

/// Running a session whose first answer ends it is the same as running
/// the remaining events from the ended state.
proof fn lemma_stream_shift(events: Seq<StreamEvent>)
    requires
        events.len() >= 1,
        events[0] matches StreamEvent::ExistsAnswer(b) && !b,
    ensures
        stream_state_after(StreamState::AwaitingExists, events) == stream_state_after(
            StreamState::Ended,
            events.subrange(1, events.len() as int),
        ),
    decreases events.len(),
{
    if events.len() == 1 {
        assert(events.drop_last() =~= Seq::<StreamEvent>::empty());
        assert(events.subrange(1, 1) =~= Seq::<StreamEvent>::empty());
    } else {
        lemma_stream_shift(events.drop_last());
        assert(events.drop_last()[0] == events[0]);
        assert(events.subrange(1, events.len() as int).drop_last() =~= events.drop_last().subrange(
            1,
            events.len() - 1,
        ));
        assert(events.subrange(1, events.len() as int).last() == events.last());
    }
}

} // verus!
