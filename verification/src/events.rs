//! Classification of the events that the compute service streams, and what
//! each does to the registry.

use crate::document::{path_view, Document, Json};
use crate::registry::{status_in, update_task_status, Entries, Registry};
use crate::status::{parse_status, status_of, TaskStatus};
use crate::text::same_text;
use vstd::prelude::*;

verus! {

/// What an inbound event is.
#[derive(Debug, PartialEq, Eq)]
pub enum Event {
    /// Not tagged as a status event, and ignored.
    Other,
    /// Queue telemetry: the number of jobs that wait.
    Telemetry(i64),
    /// A status event whose status code is not known; it is dropped.
    Unrecognized,
    /// A job reached a status.
    Status { prompt_id: String, status: TaskStatus },
}

/// The mathematical value of an [`Event`].
pub enum EventView {
    Other,
    Telemetry(i64),
    Unrecognized,
    Status { prompt_id: Seq<char>, status: TaskStatus },
}

impl View for Event {
    type V = EventView;

    open spec fn view(&self) -> EventView {
        match self {
            Event::Other => EventView::Other,
            Event::Telemetry(n) => EventView::Telemetry(*n),
            Event::Unrecognized => EventView::Unrecognized,
            Event::Status { prompt_id, status } => EventView::Status {
                prompt_id: prompt_id@,
                status: *status,
            },
        }
    }
}

/// The text at the end of a path, or the empty text where the path leads to
/// no string.
pub open spec fn text_or_empty(found: Option<Json>) -> Seq<char> {
    match found {
        Some(Json::Text(s)) => s,
        _ => Seq::empty(),
    }
}

/// Where a status event holds the queue telemetry.
pub open spec fn telemetry_path() -> Seq<Seq<char>> {
    seq!["data"@, "exec_info"@, "queue_remaining"@]
}

/// Where a status event holds the job ID.
pub open spec fn prompt_id_path() -> Seq<Seq<char>> {
    seq!["data"@, "prompt_id"@]
}

/// Where a status event holds the status code.
pub open spec fn status_path() -> Seq<Seq<char>> {
    seq!["data"@, "status"@]
}

/// What an inbound message is. Only a message whose `type` is the string
/// `status` is looked at. With a number for the queue length it is telemetry.
/// Else it names a job and a status code, each read as the empty text where
/// it is missing or no string; a code outside the table makes the event
/// unrecognized.
pub open spec fn classified(message: Json) -> EventView {
    if message.member("type"@) != Some(Json::Text("status"@)) {
        EventView::Other
    } else {
        match message.reach(telemetry_path()) {
            Some(Json::Number(n)) => EventView::Telemetry(
                match n.spec_as_i64() {
                    Some(v) => v,
                    None => 0,
                },
            ),
            _ => match status_of(text_or_empty(message.reach(status_path()))) {
                Some(status) => EventView::Status {
                    prompt_id: text_or_empty(message.reach(prompt_id_path())),
                    status,
                },
                None => EventView::Unrecognized,
            },
        }
    }
}

/// The registry after an event: a status event writes its job, every other
/// event leaves the registry as it was.
pub open spec fn applied(entries: Entries, event: EventView) -> Entries {
    match event {
        EventView::Status { prompt_id, status } => entries.insert(prompt_id, status),
        _ => entries,
    }
}

/// The text that `path` leads to, or the empty text.
fn text_at<'a>(message: &'a Document, path: &[&str]) -> (text: &'a str)
    ensures
        text@ == text_or_empty(message@.reach(path_view(path@))),
{
    proof {
        reveal_strlit("");
        assert(""@ =~= Seq::<char>::empty());
    }
    match message.find(path) {
        Some(target) => match target.as_text() {
            Some(s) => s,
            None => "",
        },
        None => "",
    }
}

/// Says what an inbound message is.
pub fn classify(message: &Document) -> (event: Event)
    ensures
        event@ == classified(message@),
{
    let tagged: bool = match message.get("type") {
        Some(tag) => match tag.as_text() {
            Some(s) => same_text(s, "status"),
            None => false,
        },
        None => false,
    };
    if !tagged {
        return Event::Other;
    }
    let telemetry: [&str; 3] = ["data", "exec_info", "queue_remaining"];
    assert(path_view(telemetry@) =~= telemetry_path());
    match message.find(&telemetry) {
        Some(Document::Number(n)) => {
            return Event::Telemetry(
                match n.as_i64() {
                    Some(v) => v,
                    None => 0,
                },
            );
        },
        _ => {},
    }
    let status_at: [&str; 2] = ["data", "status"];
    let prompt_at: [&str; 2] = ["data", "prompt_id"];
    assert(path_view(status_at@) =~= status_path());
    assert(path_view(prompt_at@) =~= prompt_id_path());
    let code: &str = text_at(message, &status_at);
    match parse_status(code) {
        Some(status) => Event::Status {
            prompt_id: text_at(message, &prompt_at).to_owned(),
            status,
        },
        None => Event::Unrecognized,
    }
}

/// Takes one inbound message in: says what it is and, for a status event,
/// records the status of its job.
pub fn ingest(registry: &mut Registry, message: &Document) -> (event: Event)
    ensures
        event@ == classified(message@),
        final(registry)@ == applied(old(registry)@, classified(message@)),
{
    let event: Event = classify(message);
    match &event {
        Event::Status { prompt_id, status } => {
            let _ = update_task_status(registry, prompt_id.as_str(), *status);
        },
        _ => {},
    }
    event
}

/// A message whose status code is outside the table is no status event, and
/// leaves the registry as it was: no entry is changed and none is made.
pub proof fn lemma_unknown_code_changes_nothing(entries: Entries, message: Json)
    requires
        status_of(text_or_empty(message.reach(status_path()))) is None,
    ensures
        !(classified(message) is Status),
        applied(entries, classified(message)) == entries,
{
}

/// No event takes a job off the record.
pub proof fn lemma_events_keep_entries(entries: Entries, message: Json, task_id: Seq<char>)
    requires
        entries.contains_key(task_id),
    ensures
        applied(entries, classified(message)).contains_key(task_id),
{
}

/// A status event records its status for its job and touches no other job.
pub proof fn lemma_status_event_writes_its_job(
    entries: Entries,
    message: Json,
    other: Seq<char>,
)
    requires
        classified(message) is Status,
    ensures
        status_in(
            applied(entries, classified(message)),
            classified(message)->prompt_id,
        ) == Some(classified(message)->status),
        other != classified(message)->prompt_id ==> status_in(
            applied(entries, classified(message)),
            other,
        ) == status_in(entries, other),
{
}

/// The registry after a sequence of messages, taken in one after the other.
pub open spec fn applied_all(entries: Entries, messages: Seq<Json>) -> Entries
    decreases messages.len(),
{
    if messages.len() == 0 {
        entries
    } else {
        applied(applied_all(entries, messages.drop_last()), classified(messages.last()))
    }
}

/// The status that the last status event for a job reports, among the
/// messages, or nothing where none of them is a status event for the job.
pub open spec fn last_reported(messages: Seq<Json>, task_id: Seq<char>) -> Option<TaskStatus>
    decreases messages.len(),
{
    if messages.len() == 0 {
        None
    } else {
        let event = classified(messages.last());
        if event is Status && event->prompt_id == task_id {
            Some(event->status)
        } else {
            last_reported(messages.drop_last(), task_id)
        }
    }
}

/// The last event wins: after any sequence of messages a job reads as the
/// status that the last status event for it reported, and a job for which
/// none came reads as before.
pub proof fn lemma_last_event_wins(entries: Entries, messages: Seq<Json>, task_id: Seq<char>)
    ensures
        status_in(applied_all(entries, messages), task_id) == match last_reported(
            messages,
            task_id,
        ) {
            Some(status) => Some(status),
            None => status_in(entries, task_id),
        },
    decreases messages.len(),
{
    if messages.len() > 0 {
        lemma_last_event_wins(entries, messages.drop_last(), task_id);
    }
}

/// What the event stream handed over.
#[derive(Debug, PartialEq, Eq)]
pub enum Frame {
    /// A text frame that holds a document.
    Message(Document),
    /// A text frame that holds no document.
    Malformed,
    /// A frame that is no text.
    Other,
    /// The connection failed.
    Broken,
    /// The stream came to its end.
    Closed,
}

/// Why the listener stopped.
#[derive(Debug, Clone, Copy, PartialEq, Eq, Structural)]
pub enum IngestError {
    /// An event could not be decoded.
    Malformed,
    /// The connection failed.
    Transport,
}

/// Whether the listener goes on.
#[derive(Debug, PartialEq, Eq)]
pub enum Flow {
    /// It waits for the next frame; this is what the last one was.
    Continue(Event),
    /// It stops, with an error unless the stream came to its end.
    Stop(Result<(), IngestError>),
}

/// The mathematical value of a [`Flow`].
pub enum FlowView {
    Continue(EventView),
    Stop(Result<(), IngestError>),
}

impl View for Flow {
    type V = FlowView;

    open spec fn view(&self) -> FlowView {
        match self {
            Flow::Continue(event) => FlowView::Continue(event@),
            Flow::Stop(end) => FlowView::Stop(*end),
        }
    }
}

/// What the listener does on a frame. A message is classified; a frame that
/// is no text is passed over; the end of the stream stops the listener, and
/// an undecodable event or a failed connection stops it with an error.
pub open spec fn flow_of(frame: Frame) -> FlowView {
    match frame {
        Frame::Message(message) => FlowView::Continue(classified(message@)),
        Frame::Other => FlowView::Continue(EventView::Other),
        Frame::Malformed => FlowView::Stop(Err(IngestError::Malformed)),
        Frame::Broken => FlowView::Stop(Err(IngestError::Transport)),
        Frame::Closed => FlowView::Stop(Ok(())),
    }
}

/// The registry after a frame: only a status event in a message writes to it.
pub open spec fn registry_after(entries: Entries, frame: Frame) -> Entries {
    match frame {
        Frame::Message(message) => applied(entries, classified(message@)),
        _ => entries,
    }
}

/// Takes one frame of the event stream in and says whether the listener goes
/// on.
pub fn on_frame(registry: &mut Registry, frame: &Frame) -> (flow: Flow)
    ensures
        flow@ == flow_of(*frame),
        final(registry)@ == registry_after(old(registry)@, *frame),
{
    match frame {
        Frame::Message(message) => Flow::Continue(ingest(registry, message)),
        Frame::Other => Flow::Continue(Event::Other),
        Frame::Malformed => Flow::Stop(Err(IngestError::Malformed)),
        Frame::Broken => Flow::Stop(Err(IngestError::Transport)),
        Frame::Closed => Flow::Stop(Ok(())),
    }
}

/// The address of the event stream of a compute service for one client.
pub open spec fn ws_url_of(server: Seq<char>, client_id: Seq<char>) -> Seq<char> {
    "ws://"@ + server + "/ws?clientId="@ + client_id
}

/// The address of the event stream of a compute service for one client.
pub fn ws_url(server: &str, client_id: &str) -> (url: String)
    ensures
        url@ == ws_url_of(server@, client_id@),
{
    let mut url: String = crate::text::joined("ws://", server);
    url.append("/ws?clientId=");
    url.append(client_id);
    url
}

} // verus!
