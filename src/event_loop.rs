use vstd::prelude::*;
use crate::error::{Error, ErrorKind};
use crate::session::WebSockets;

verus! {

/// What one read from the socket produced.
#[derive(Debug)]
pub enum Incoming {
    Text(Vec<u8>),
    Binary(Vec<u8>),
    Continuation,
    Ping(Vec<u8>),
    Pong(Vec<u8>),
    /// The peer closed the stream; holds the close reason as text.
    Close(String),
    /// The socket failed to deliver a well-formed frame; holds the cause.
    Broken(String),
    /// The socket yielded nothing more.
    Ended,
}

/// What a non-empty text payload turned out to be: an event of the
/// consumer's type, an acknowledgement of an earlier command, or neither.
pub enum Decoded<WE> {
    Event(WE),
    Ack,
    Neither,
}

/// What the loop does after a frame.
pub enum Step<WE> {
    /// Hand the event to the consumer and read on.
    Forward(WE),
    /// Read on.
    Continue,
    /// Stop, successfully.
    Finish,
    /// Stop with this error.
    Fail(Error),
}

/// Whether the loop must try to decode the frame before it can decide: only
/// a non-empty text frame is decoded.
pub open spec fn spec_needs_decoding(i: &Incoming) -> bool {
    i matches Incoming::Text(b) && b@.len() > 0
}

/// The decision for one frame, given what its payload decoded to.
pub open spec fn step_spec<WE>(i: Incoming, decoded: Decoded<WE>) -> Step<WE> {
    match i {
        Incoming::Text(b) => if b@.len() == 0 {
            Step::Finish
        } else {
            match decoded {
                Decoded::Event(e) => Step::Forward(e),
                Decoded::Ack => Step::Continue,
                Decoded::Neither => Step::Fail(Error::ParseFailed(b)),
            }
        },
        Incoming::Binary(_) | Incoming::Continuation | Incoming::Ping(_) | Incoming::Pong(_) => Step::Continue,
        Incoming::Close(reason) => Step::Fail(Error::Closed(reason)),
        Incoming::Broken(cause) => Step::Fail(Error::Protocol(cause)),
        Incoming::Ended => Step::Fail(Error::StreamEnded),
    }
}

#[verifier::when_used_as_spec(spec_needs_decoding)]
pub fn needs_decoding(i: &Incoming) -> (r: bool)
    ensures
        r == spec_needs_decoding(i),
{
    match i {
        Incoming::Text(b) => b.len() > 0,
        _ => false,
    }
}

/// Decides what the loop does with one frame. `decoded` is consulted only
/// where [`needs_decoding`] holds. An empty text frame ends the loop
/// successfully; a close frame, a broken or exhausted socket, and a payload
/// that is neither an event nor an acknowledgement end it with an error;
/// events are forwarded; everything else is passed over.
pub fn step<WE>(i: Incoming, decoded: Decoded<WE>) -> (r: Step<WE>)
    ensures
        r == step_spec(i, decoded),
        r matches Step::Fail(e) ==> (e.kind() == ErrorKind::Transport || e is ParseFailed),
{
    match i {
        Incoming::Text(b) => {
            if b.len() == 0 {
                Step::Finish
            } else {
                match decoded {
                    Decoded::Event(e) => Step::Forward(e),
                    Decoded::Ack => Step::Continue,
                    Decoded::Neither => Step::Fail(Error::ParseFailed(b)),
                }
            }
        },
        Incoming::Binary(_) | Incoming::Continuation | Incoming::Ping(_) | Incoming::Pong(_) => Step::Continue,
        Incoming::Close(reason) => Step::Fail(Error::Closed(reason)),
        Incoming::Broken(cause) => Step::Fail(Error::Protocol(cause)),
        Incoming::Ended => Step::Fail(Error::StreamEnded),
    }
}

impl<H> WebSockets<H> {
    /// The test made before each read: the loop stops successfully once
    /// `running` is cleared, fails when there is no connection, and
    /// otherwise reads the next frame (`None`).
    pub fn before_read(&self, running: bool) -> (r: Option<Result<(), Error>>)
        ensures
            !running ==> (r matches Some(Ok(()))),
            running && self.socket is None ==> (r matches Some(Err(e)) && e is NotConnected),
            running && self.socket is Some ==> r is None,
    {
        if !running {
            Some(Ok(()))
        } else if self.socket.is_none() {
            Some(Err(Error::NotConnected))
        } else {
            None
        }
    }
}

/// How a run of the loop over `frames` ends (nothing when the frames run
/// out first), and the events it forwards, in order.
pub open spec fn run_spec<WE>(frames: Seq<(Incoming, Decoded<WE>)>) -> (Option<Result<(), Error>>, Seq<WE>)
    decreases frames.len(),
{
    if frames.len() == 0 {
        (None, seq![])
    } else {
        match step_spec(frames[0].0, frames[0].1) {
            Step::Forward(e) => {
                let rest = run_spec(frames.drop_first());
                (rest.0, seq![e] + rest.1)
            },
            Step::Continue => run_spec(frames.drop_first()),
            Step::Finish => (Some(Ok(())), seq![]),
            Step::Fail(err) => (Some(Err(err)), seq![]),
        }
    }
}

/// A well-formed event frame: a non-empty text payload that decodes to an event.
pub open spec fn is_event_frame<WE>(f: (Incoming, Decoded<WE>)) -> bool {
    &&& f.0 matches Incoming::Text(b) && b@.len() > 0
    &&& f.1 is Event
}

pub open spec fn events_of<WE>(frames: Seq<(Incoming, Decoded<WE>)>) -> Seq<WE> {
    frames.map_values(|f: (Incoming, Decoded<WE>)| f.1->Event_0)
}

/// A run of event frames forwards each event, in order, and leaves what
/// follows to decide how the loop ends.
pub proof fn lemma_events_then<WE>(events: Seq<(Incoming, Decoded<WE>)>, rest: Seq<(Incoming, Decoded<WE>)>)
    requires
        forall|k: int| 0 <= k < events.len() ==> is_event_frame(#[trigger] events[k]),
    ensures
        run_spec(events + rest) == (run_spec(rest).0, events_of(events) + run_spec(rest).1),
    decreases events.len(),
{
    if events.len() == 0 {
        assert(events + rest =~= rest);
        assert(events_of(events) + run_spec(rest).1 =~= run_spec(rest).1);
    } else {
        let tail = events.drop_first();
        assert forall|k: int| 0 <= k < tail.len() implies is_event_frame(#[trigger] tail[k]) by {
            assert(tail[k] == events[k + 1]);
        }
        lemma_events_then(tail, rest);
        assert((events + rest).drop_first() =~= tail + rest);
        assert(is_event_frame(events[0]));
        assert(events_of(events) =~= seq![events[0].1->Event_0] + events_of(tail));
        assert(seq![events[0].1->Event_0] + (events_of(tail) + run_spec(rest).1)
            =~= events_of(events) + run_spec(rest).1);
    }
}

/// Every well-formed event payload received while connected is forwarded
/// exactly once, in arrival order, and the loop keeps running.
pub proof fn lemma_events_forwarded_in_order<WE>(frames: Seq<(Incoming, Decoded<WE>)>)
    requires
        forall|k: int| 0 <= k < frames.len() ==> is_event_frame(#[trigger] frames[k]),
    ensures
        run_spec(frames).0 is None,
        run_spec(frames).1 == events_of(frames),
        run_spec(frames).1.len() == frames.len(),
{
    lemma_events_then(frames, seq![]);
    assert(frames + seq![] =~= frames);
    assert(events_of(frames) + seq![] =~= events_of(frames));
}

/// An empty text frame ends the loop successfully, whatever came before it
/// (here: any run of events, which are all forwarded) and whatever would
/// have come after; it forwards nothing itself.
pub proof fn lemma_empty_text_finishes<WE>(
    events: Seq<(Incoming, Decoded<WE>)>,
    empty: Vec<u8>,
    decoded: Decoded<WE>,
    rest: Seq<(Incoming, Decoded<WE>)>,
)
    requires
        forall|k: int| 0 <= k < events.len() ==> is_event_frame(#[trigger] events[k]),
        empty@.len() == 0,
    ensures
        run_spec(events + seq![(Incoming::Text(empty), decoded)] + rest)
            == (Some(Ok::<(), Error>(())), events_of(events)),
{
    let tail = seq![(Incoming::Text(empty), decoded)] + rest;
    lemma_events_then(events, tail);
    assert(events + seq![(Incoming::Text(empty), decoded)] + rest =~= events + tail);
    assert(events_of(events) + seq![] =~= events_of(events));
}

/// A close frame ends the loop with a transport error that carries the
/// close reason.
pub proof fn lemma_close_fails<WE>(
    events: Seq<(Incoming, Decoded<WE>)>,
    reason: String,
    decoded: Decoded<WE>,
    rest: Seq<(Incoming, Decoded<WE>)>,
)
    requires
        forall|k: int| 0 <= k < events.len() ==> is_event_frame(#[trigger] events[k]),
    ensures
        run_spec(events + seq![(Incoming::Close(reason), decoded)] + rest)
            == (Some(Err::<(), Error>(Error::Closed(reason))), events_of(events)),
        Error::Closed(reason).kind() == ErrorKind::Transport,
{
    let tail = seq![(Incoming::Close(reason), decoded)] + rest;
    lemma_events_then(events, tail);
    assert(events + seq![(Incoming::Close(reason), decoded)] + rest =~= events + tail);
    assert(events_of(events) + seq![] =~= events_of(events));
}

/// A non-empty payload that is neither an event nor an acknowledgement ends
/// the loop with a parse error that carries the payload's bytes.
pub proof fn lemma_unparseable_fails<WE>(
    events: Seq<(Incoming, Decoded<WE>)>,
    payload: Vec<u8>,
    rest: Seq<(Incoming, Decoded<WE>)>,
)
    requires
        forall|k: int| 0 <= k < events.len() ==> is_event_frame(#[trigger] events[k]),
        payload@.len() > 0,
    ensures
        run_spec(events + seq![(Incoming::Text(payload), Decoded::<WE>::Neither)] + rest)
            == (Some(Err::<(), Error>(Error::ParseFailed(payload))), events_of(events)),
        Error::ParseFailed(payload).kind() == ErrorKind::Encoding,
{
    let tail = seq![(Incoming::Text(payload), Decoded::<WE>::Neither)] + rest;
    lemma_events_then(events, tail);
    assert(events + seq![(Incoming::Text(payload), Decoded::<WE>::Neither)] + rest =~= events + tail);
    assert(events_of(events) + seq![] =~= events_of(events));
}

} // verus!
