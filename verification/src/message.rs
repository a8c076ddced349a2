//! The protocol message and its mathematical view.

use vstd::prelude::*;

verus! {

/// The discriminant of a message: which payload, if any, travels with it.
#[derive(Clone, Copy, Debug, PartialEq, Eq, Structural)]
pub enum MessageKind {
    /// A bare acknowledgement: no payload.
    Empty,
    /// The handshake sent by a client.
    Initialization,
    /// The request, broadcast to every client, to capture the screen.
    RequestScreenshot,
    /// A client's screenshot.
    ResponseScreenshot,
    /// Recognized text.
    OcrMessage,
}

/// What a message carries. The kind is read off the payload, so the two
/// cannot disagree.
#[derive(Clone, Debug, PartialEq, Eq)]
pub enum Payload {
    Empty,
    Initialization,
    RequestScreenshot,
    ResponseScreenshot { image: Vec<u8> },
    OcrMessage { text: String, key: Option<String> },
}

/// One protocol message. `id` pairs a reply with its request; messages that
/// a hotkey press gives rise to carry `0`.
#[derive(Clone, Debug, PartialEq, Eq)]
pub struct Message {
    pub id: u64,
    pub payload: Payload,
}

/// The view of a [`Payload`]: bytes and characters as sequences.
pub enum PayloadView {
    Empty,
    Initialization,
    RequestScreenshot,
    ResponseScreenshot { image: Seq<u8> },
    OcrMessage { text: Seq<char>, key: Option<Seq<char>> },
}

/// The view of a [`Message`].
pub struct MessageView {
    pub id: u64,
    pub payload: PayloadView,
}

impl PayloadView {
    /// The kind that this payload belongs to.
    pub open spec fn kind(self) -> MessageKind {
        match self {
            PayloadView::Empty => MessageKind::Empty,
            PayloadView::Initialization => MessageKind::Initialization,
            PayloadView::RequestScreenshot => MessageKind::RequestScreenshot,
            PayloadView::ResponseScreenshot { .. } => MessageKind::ResponseScreenshot,
            PayloadView::OcrMessage { .. } => MessageKind::OcrMessage,
        }
    }
}

/// The view of an optional string.
pub open spec fn key_view(key: Option<String>) -> Option<Seq<char>> {
    match key {
        Option::None => Option::None,
        Option::Some(k) => Option::Some(k@),
    }
}

impl View for Payload {
    type V = PayloadView;

    open spec fn view(&self) -> PayloadView {
        match *self {
            Payload::Empty => PayloadView::Empty,
            Payload::Initialization => PayloadView::Initialization,
            Payload::RequestScreenshot => PayloadView::RequestScreenshot,
            Payload::ResponseScreenshot { image } => PayloadView::ResponseScreenshot { image: image@ },
            Payload::OcrMessage { text, key } => PayloadView::OcrMessage {
                text: text@,
                key: key_view(key),
            },
        }
    }
}

impl View for Message {
    type V = MessageView;

    open spec fn view(&self) -> MessageView {
        MessageView { id: self.id, payload: self.payload@ }
    }
}

impl Payload {
    /// The kind of this payload.
    pub fn kind(&self) -> (kind: MessageKind)
        ensures
            kind == self@.kind(),
    {
        match self {
            Payload::Empty => MessageKind::Empty,
            Payload::Initialization => MessageKind::Initialization,
            Payload::RequestScreenshot => MessageKind::RequestScreenshot,
            Payload::ResponseScreenshot { .. } => MessageKind::ResponseScreenshot,
            Payload::OcrMessage { .. } => MessageKind::OcrMessage,
        }
    }
}

impl Message {
    /// The kind of this message.
    pub fn kind(&self) -> (kind: MessageKind)
        ensures
            kind == self@.payload.kind(),
    {
        self.payload.kind()
    }

    /// The acknowledgement of the request numbered `id`.
    pub fn acknowledgement(id: u64) -> (message: Message)
        ensures
            message@ == (MessageView { id, payload: PayloadView::Empty }),
    {
        Message { id, payload: Payload::Empty }
    }

    /// The request to capture the screen that a hotkey press broadcasts.
    pub fn screenshot_request() -> (message: Message)
        ensures
            message@ == (MessageView { id: 0, payload: PayloadView::RequestScreenshot }),
    {
        Message { id: 0, payload: Payload::RequestScreenshot }
    }

    /// The message that carries recognized text, or the words that say why
    /// there is none.
    pub fn recognized(text: String) -> (message: Message)
        ensures
            message@ == (MessageView {
                id: 0,
                payload: PayloadView::OcrMessage { text: text@, key: Option::None },
            }),
    {
        Message { id: 0, payload: Payload::OcrMessage { text, key: Option::None } }
    }
}

} // verus!
