//! What goes in and out of a stream, and the frames in which it goes out.
use vstd::prelude::*;
use vstd::string::StringExecFns;

use crate::codec::{json_text, one_line, write_json};
use crate::json::{Json, JsonView};
use crate::usage::OpenAIUsage;

verus! {

/// An error of the upstream service, as a client is told of it.
pub struct StreamFailure {
    pub error_type: String,
    pub message: String,
    pub i18n_key: String,
}

/// What happens to a stream.
pub enum Upstream {
    /// Bytes came in.
    Bytes(Vec<u8>),
    /// The upstream service failed.
    Failed(StreamFailure),
    /// The upstream service has sent everything.
    Ended,
    /// It is time for a sign of life.
    Tick,
}

/// What a stream has done, in order.
pub enum StreamEvent {
    /// A thought signature to store.
    Signature(String),
    /// A JSON event to send. Where there is a usage, it goes along as the member
    /// `usage`.
    Data { body: Json, usage: Option<OpenAIUsage> },
    /// The mark of the end, to send.
    Done,
    /// A comment to send, as a sign of life.
    Ping,
}

pub struct FailureView {
    pub error_type: Seq<char>,
    pub message: Seq<char>,
    pub i18n_key: Seq<char>,
}

impl View for StreamFailure {
    type V = FailureView;

    open spec fn view(&self) -> FailureView {
        FailureView {
            error_type: self.error_type@,
            message: self.message@,
            i18n_key: self.i18n_key@,
        }
    }
}

pub enum UpstreamView {
    Bytes(Seq<u8>),
    Failed(FailureView),
    Ended,
    Tick,
}

impl View for Upstream {
    type V = UpstreamView;

    open spec fn view(&self) -> UpstreamView {
        match *self {
            Upstream::Bytes(bytes) => UpstreamView::Bytes(bytes@),
            Upstream::Failed(failure) => UpstreamView::Failed(failure@),
            Upstream::Ended => UpstreamView::Ended,
            Upstream::Tick => UpstreamView::Tick,
        }
    }
}

pub enum EventView {
    Signature(Seq<char>),
    Data(JsonView, Option<OpenAIUsage>),
    Done,
    Ping,
}

impl View for StreamEvent {
    type V = EventView;

    open spec fn view(&self) -> EventView {
        match *self {
            StreamEvent::Signature(s) => EventView::Signature(s@),
            StreamEvent::Data { body, usage } => EventView::Data(body@, usage),
            StreamEvent::Done => EventView::Done,
            StreamEvent::Ping => EventView::Ping,
        }
    }
}

/// The views of some events.
pub open spec fn event_views(events: Seq<StreamEvent>) -> Seq<EventView> {
    events.map_values(|e: StreamEvent| e@)
}

/// An event without a usage.
pub open spec fn data(body: JsonView) -> EventView {
    EventView::Data(body, None)
}

/// The signatures that the events hand out, in order.
pub open spec fn handed_out(events: Seq<EventView>) -> Seq<Seq<char>>
    decreases events.len(),
{
    if events.len() == 0 {
        Seq::empty()
    } else {
        match events.last() {
            EventView::Signature(sig) => handed_out(events.drop_last()).push(sig),
            _ => handed_out(events.drop_last()),
        }
    }
}

pub(crate) proof fn lemma_handed_out_concat(a: Seq<EventView>, b: Seq<EventView>)
    ensures
        handed_out(a + b) == handed_out(a) + handed_out(b),
    decreases b.len(),
{
    if b.len() == 0 {
        assert(a + b =~= a);
        assert(handed_out(a) + handed_out(b) =~= handed_out(a));
    } else {
        lemma_handed_out_concat(a, b.drop_last());
        assert((a + b).drop_last() =~= a + b.drop_last());
        assert(handed_out(a + b) =~= handed_out(a) + handed_out(b));
    }
}

pub(crate) proof fn lemma_none_handed_out(events: Seq<EventView>)
    requires
        forall|i: int| 0 <= i < events.len() ==> !(#[trigger] events[i] is Signature),
    ensures
        handed_out(events) == Seq::<Seq<char>>::empty(),
    decreases events.len(),
{
    if events.len() > 0 {
        assert(!(events[events.len() - 1] is Signature));
        lemma_none_handed_out(events.drop_last());
    }
}

/// Appends an event.
pub(crate) fn emit(out: &mut Vec<StreamEvent>, event: StreamEvent)
    ensures
        event_views(final(out)@) == event_views(old(out)@).push(event@),
{
    let ghost before = out@;
    out.push(event);
    assert(event_views(out@) =~= event_views(before).push(event@));
}

/// Whether a usage goes along with the event.
pub open spec fn has_usage(event: EventView) -> bool {
    event matches EventView::Data(_, usage) && usage is Some
}

/// The body of an event, with the usage that goes along.
pub open spec fn body_with(body: JsonView, usage: Option<JsonView>) -> JsonView {
    match usage {
        Some(u) => body.with("usage"@, u),
        None => body,
    }
}

/// The frame in which an event is sent. Its usage, where it has one, is given as
/// JSON. A signature is not sent.
pub open spec fn frame_of(event: EventView, usage: Option<JsonView>) -> Option<Seq<char>> {
    match event {
        EventView::Signature(_) => None,
        EventView::Data(body, None) => Some("data: "@ + json_text(body) + "\n\n"@),
        EventView::Data(body, Some(_)) => Some(
            "data: "@ + json_text(body_with(body, usage)) + "\n\n"@,
        ),
        EventView::Done => Some("data: [DONE]\n\n"@),
        EventView::Ping => Some(": ping\n\n"@),
    }
}

/// Whether the text is one frame: a line that is not empty, then an empty one.
pub open spec fn one_frame(frame: Seq<char>) -> bool {
    &&& frame.len() > 2
    &&& frame[frame.len() - 1] == '\n'
    &&& frame[frame.len() - 2] == '\n'
    &&& one_line(frame.take(frame.len() - 2))
}

/// The frame in which an event is sent. `usage` is the usage of the event as
/// JSON, and goes along where the event has one, and only there. Whatever the JSON
/// holds, a client reads the frame as one event.
pub fn frame_text(event: &StreamEvent, usage: Option<Json>) -> (r: Option<String>)
    requires
        has_usage(event@) ==> usage is Some,
    ensures
        match r {
            Some(s) => frame_of(
                event@,
                match usage {
                    Some(u) => Some(u@),
                    None => None,
                },
            ) == Some(s@) && one_frame(s@),
            None => event@ is Signature,
        },
{
    match event {
        StreamEvent::Signature(_) => None,
        StreamEvent::Data { body, usage: own } => {
            let text = match (own, usage) {
                (Some(_), Some(u)) => write_json(&body.duplicate().with("usage", u)),
                _ => write_json(body),
            };
            let mut out = "data: ".to_owned();
            out.append(text.as_str());
            out.append("\n\n");
            proof {
                reveal_strlit("data: ");
                reveal_strlit("\n\n");
                let line = "data: "@ + text@;
                assert(out@.take(out@.len() - 2) =~= line);
                assert forall|i: int| 0 <= i < line.len() implies #[trigger] line[i] != '\n'
                    && line[i] != '\r' by {
                    if i >= 6 {
                        assert(line[i] == text@[i - 6]);
                    }
                }
            }
            Some(out)
        },
        StreamEvent::Done => {
            proof {
                reveal_strlit("data: [DONE]\n\n");
            }
            Some("data: [DONE]\n\n".to_owned())
        },
        StreamEvent::Ping => {
            proof {
                reveal_strlit(": ping\n\n");
            }
            Some(": ping\n\n".to_owned())
        },
    }
}

/// What goes over the wire: an event is one line of JSON behind `data: `, and an
/// empty line; the mark of the end and the sign of life have lines of their own, and
/// a signature goes nowhere. The JSON is the body as it is, and where the event has a
/// usage, the body with the usage as one more member.
pub proof fn law_frames(
    body: JsonView,
    own: OpenAIUsage,
    usage: JsonView,
    other: Option<JsonView>,
    signature: Seq<char>,
)
    ensures
        frame_of(EventView::Data(body, None), other) == Some(
            "data: "@ + json_text(body) + "\n\n"@,
        ),
        body matches JsonView::Object(members) ==> frame_of(
            EventView::Data(body, Some(own)),
            Some(usage),
        ) == Some(
            "data: "@ + json_text(JsonView::Object(members.insert("usage"@, usage))) + "\n\n"@,
        ),
        frame_of(EventView::Done, other) == Some("data: [DONE]\n\n"@),
        frame_of(EventView::Ping, other) == Some(": ping\n\n"@),
        frame_of(EventView::Signature(signature), other) is None,
{
}

/// The views of events are those of each, in order.
pub proof fn law_event_views(events: Seq<StreamEvent>, i: int)
    requires
        0 <= i < events.len(),
    ensures
        event_views(events).len() == events.len(),
        match events[i] {
            StreamEvent::Signature(s) => event_views(events)[i] == EventView::Signature(s@),
            StreamEvent::Data { body, usage } => event_views(events)[i] == EventView::Data(
                body@,
                usage,
            ),
            StreamEvent::Done => event_views(events)[i] == EventView::Done,
            StreamEvent::Ping => event_views(events)[i] == EventView::Ping,
        },
{
}

} // verus!
