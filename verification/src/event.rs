//! Room events as the chat model reads them: who sent what, when, and what
//! it refers to. Everything else of a server event is left out.

use crate::username::{copy_opt, opt_text};
use vstd::prelude::*;

verus! {

/// What is known of an attachment.
pub struct MediaInfo {
    /// The size, written for a reader ("1.2 MiB").
    pub size: Option<String>,
    pub mimetype: Option<String>,
}

pub struct MediaInfoView {
    pub size: Option<Seq<char>>,
    pub mimetype: Option<Seq<char>>,
}

impl View for MediaInfo {
    type V = MediaInfoView;

    open spec fn view(&self) -> MediaInfoView {
        MediaInfoView { size: opt_text(self.size), mimetype: opt_text(self.mimetype) }
    }
}

/// The view of optional attachment details.
pub open spec fn opt_info(info: Option<MediaInfo>) -> Option<MediaInfoView> {
    match info {
        Some(i) => Some(i@),
        None => None,
    }
}

/// The content of a room message. `Other` stands for every kind that the
/// chat does not show (audio, notices, locations and so on). An attachment
/// has a name, which is its `body`, and a `source`: where the client finds
/// its bytes, in a form that the chat hands on as it is.
pub enum MessageBody {
    Text { body: String },
    Image { body: String, info: Option<MediaInfo>, source: String },
    Video { body: String, info: Option<MediaInfo>, source: String },
    File { body: String, info: Option<MediaInfo>, source: String },
    Other,
}

pub enum BodyView {
    Text { body: Seq<char> },
    Image { body: Seq<char>, info: Option<MediaInfoView>, source: Seq<char> },
    Video { body: Seq<char>, info: Option<MediaInfoView>, source: Seq<char> },
    File { body: Seq<char>, info: Option<MediaInfoView>, source: Seq<char> },
    Other,
}

impl View for MessageBody {
    type V = BodyView;

    open spec fn view(&self) -> BodyView {
        match *self {
            MessageBody::Text { body } => BodyView::Text { body: body@ },
            MessageBody::Image { body, info, source } => BodyView::Image {
                body: body@,
                info: opt_info(info),
                source: source@,
            },
            MessageBody::Video { body, info, source } => BodyView::Video {
                body: body@,
                info: opt_info(info),
                source: source@,
            },
            MessageBody::File { body, info, source } => BodyView::File {
                body: body@,
                info: opt_info(info),
                source: source@,
            },
            MessageBody::Other => BodyView::Other,
        }
    }
}

/// What a room message refers to.
pub enum Relation {
    /// Nothing that the chat follows.
    Plain,
    /// An answer to the message `event_id`.
    Reply { event_id: String },
    /// A new content for the message `event_id`.
    Replacement { event_id: String, new_body: MessageBody },
}

pub enum RelationView {
    Plain,
    Reply { event_id: Seq<char> },
    Replacement { event_id: Seq<char>, new_body: BodyView },
}

impl View for Relation {
    type V = RelationView;

    open spec fn view(&self) -> RelationView {
        match *self {
            Relation::Plain => RelationView::Plain,
            Relation::Reply { event_id } => RelationView::Reply { event_id: event_id@ },
            Relation::Replacement { event_id, new_body } => RelationView::Replacement {
                event_id: event_id@,
                new_body: new_body@,
            },
        }
    }
}

/// The payload of a room event.
pub enum EventContent {
    Message { body: MessageBody, relation: Relation },
    /// The reaction `key` to the message `relates_to`.
    Reaction { key: String, relates_to: String },
    /// The deletion of the event `redacts`, where the server names one.
    Redaction { redacts: Option<String> },
    /// Membership, state and every other event.
    Other,
}

pub enum ContentView {
    Message { body: BodyView, relation: RelationView },
    Reaction { key: Seq<char>, relates_to: Seq<char> },
    Redaction { redacts: Option<Seq<char>> },
    Other,
}

impl View for EventContent {
    type V = ContentView;

    open spec fn view(&self) -> ContentView {
        match *self {
            EventContent::Message { body, relation } => ContentView::Message {
                body: body@,
                relation: relation@,
            },
            EventContent::Reaction { key, relates_to } => ContentView::Reaction {
                key: key@,
                relates_to: relates_to@,
            },
            EventContent::Redaction { redacts } => ContentView::Redaction { redacts: opt_text(redacts) },
            EventContent::Other => ContentView::Other,
        }
    }
}

/// One event of a room's timeline.
pub struct TimelineEvent {
    pub id: String,
    pub room_id: String,
    pub sender: String,
    /// When the server received it, in milliseconds since the Unix epoch.
    pub ts: u64,
    pub content: EventContent,
}

pub struct EventView {
    pub id: Seq<char>,
    pub room_id: Seq<char>,
    pub sender: Seq<char>,
    pub ts: u64,
    pub content: ContentView,
}

impl View for TimelineEvent {
    type V = EventView;

    open spec fn view(&self) -> EventView {
        EventView {
            id: self.id@,
            room_id: self.room_id@,
            sender: self.sender@,
            ts: self.ts,
            content: self.content@,
        }
    }
}

impl MediaInfo {
    pub fn copy(&self) -> (c: MediaInfo)
        ensures
            c@ == self@,
    {
        MediaInfo { size: copy_opt(&self.size), mimetype: copy_opt(&self.mimetype) }
    }
}

/// A copy of optional attachment details.
pub fn copy_info(info: &Option<MediaInfo>) -> (c: Option<MediaInfo>)
    ensures
        opt_info(c) == opt_info(*info),
{
    match info {
        Some(i) => Some(i.copy()),
        None => None,
    }
}

impl MessageBody {
    pub fn copy(&self) -> (c: MessageBody)
        ensures
            c@ == self@,
    {
        match self {
            MessageBody::Text { body } => MessageBody::Text { body: body.clone() },
            MessageBody::Image { body, info, source } => MessageBody::Image {
                body: body.clone(),
                info: copy_info(info),
                source: source.clone(),
            },
            MessageBody::Video { body, info, source } => MessageBody::Video {
                body: body.clone(),
                info: copy_info(info),
                source: source.clone(),
            },
            MessageBody::File { body, info, source } => MessageBody::File {
                body: body.clone(),
                info: copy_info(info),
                source: source.clone(),
            },
            MessageBody::Other => MessageBody::Other,
        }
    }
}

impl Relation {
    pub fn copy(&self) -> (c: Relation)
        ensures
            c@ == self@,
    {
        match self {
            Relation::Plain => Relation::Plain,
            Relation::Reply { event_id } => Relation::Reply { event_id: event_id.clone() },
            Relation::Replacement { event_id, new_body } => Relation::Replacement {
                event_id: event_id.clone(),
                new_body: new_body.copy(),
            },
        }
    }
}

impl EventContent {
    pub fn copy(&self) -> (c: EventContent)
        ensures
            c@ == self@,
    {
        match self {
            EventContent::Message { body, relation } => EventContent::Message {
                body: body.copy(),
                relation: relation.copy(),
            },
            EventContent::Reaction { key, relates_to } => EventContent::Reaction {
                key: key.clone(),
                relates_to: relates_to.clone(),
            },
            EventContent::Redaction { redacts } => EventContent::Redaction { redacts: copy_opt(redacts) },
            EventContent::Other => EventContent::Other,
        }
    }
}

impl TimelineEvent {
    pub fn copy(&self) -> (c: TimelineEvent)
        ensures
            c@ == self@,
    {
        TimelineEvent {
            id: self.id.clone(),
            room_id: self.room_id.clone(),
            sender: self.sender.clone(),
            ts: self.ts,
            content: self.content.copy(),
        }
    }
}

} // verus!
