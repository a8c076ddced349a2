//! The dispatcher: what is answered to a decoded message.

use vstd::prelude::*;
use image::DynamicImage;
use crate::message::{Message, MessageKind, MessageView, Payload, PayloadView};
use crate::paddle_ocr_service::{recognition_text, PaddleOCRService, Recognition, RecognitionView};
use crate::wire::{decode, encode, spec_decode, spec_encode};

verus! {

/// What the dispatcher decided for one message.
#[derive(Debug)]
pub enum Dispatch {
    /// Nothing is answered.
    Silent,
    /// This message is answered.
    Reply(Message),
    /// The engine is to look at this image; what it finds is answered by
    /// [`MessageService::handle_screenshot_for_ocr`].
    Recognize(DynamicImage),
}

/// The view of a [`Dispatch`]: the image itself is left out.
pub enum DispatchView {
    Silent,
    Reply(MessageView),
    Recognize,
}

impl View for Dispatch {
    type V = DispatchView;

    open spec fn view(&self) -> DispatchView {
        match *self {
            Dispatch::Silent => DispatchView::Silent,
            Dispatch::Reply(message) => DispatchView::Reply(message@),
            Dispatch::Recognize(_) => DispatchView::Recognize,
        }
    }
}

/// What the dispatcher decided for one frame, the reply framed.
#[derive(Debug)]
pub enum Answer {
    /// Nothing is sent back.
    Silent,
    /// This frame is sent back.
    Frame(Vec<u8>),
    /// The engine is to look at this image; what it finds is answered by
    /// [`MessageService::handle_screenshot_for_ocr`].
    Recognize(DynamicImage),
}

/// The message that acknowledges the request numbered `id`.
pub open spec fn acknowledgement(id: u64) -> MessageView {
    MessageView { id, payload: PayloadView::Empty }
}

/// The message that asks every client for a screenshot.
pub open spec fn screenshot_request() -> MessageView {
    MessageView { id: 0, payload: PayloadView::RequestScreenshot }
}

/// The message that tells a client how a recognition ended.
pub open spec fn recognition_reply(outcome: RecognitionView) -> MessageView {
    MessageView {
        id: 0,
        payload: PayloadView::OcrMessage { text: recognition_text(outcome), key: None },
    }
}

/// What is decided for `message`, where `readable` says whether the image
/// of a screenshot could be read.
///
/// A handshake is acknowledged under its own `id`. A screenshot goes to the
/// engine, or is answered at once where it cannot be read. Every other
/// kind is passed over in silence.
pub open spec fn spec_dispatch(message: MessageView, readable: bool) -> DispatchView {
    match message.payload {
        PayloadView::Initialization => DispatchView::Reply(acknowledgement(message.id)),
        PayloadView::ResponseScreenshot { .. } => if readable {
            DispatchView::Recognize
        } else {
            DispatchView::Reply(recognition_reply(RecognitionView::Unreadable))
        },
        _ => DispatchView::Silent,
    }
}

/// What is decided for a frame: a frame that holds no message is passed
/// over in silence.
pub open spec fn spec_dispatch_frame(data: Seq<u8>, readable: bool) -> DispatchView {
    match spec_decode(data) {
        Ok(message) => spec_dispatch(message, readable),
        Err(_) => DispatchView::Silent,
    }
}

/// Whether an answer is the framed form of a decision.
pub open spec fn answers(answer: Answer, decision: DispatchView) -> bool {
    match answer {
        Answer::Silent => decision is Silent,
        Answer::Frame(bytes) => decision matches DispatchView::Reply(message) && bytes@ == spec_encode(
            message,
        ),
        Answer::Recognize(_) => decision is Recognize,
    }
}

/// The dispatcher.
pub struct MessageService {
    ocr_service: PaddleOCRService,
}

impl MessageService {
    pub fn new() -> (service: Self) {
        MessageService { ocr_service: PaddleOCRService::new() }
    }

    /// Answers one frame: decodes it and dispatches the message it holds.
    /// The image handed out with [`Answer::Recognize`] is the one that the
    /// frame's screenshot holds.
    pub fn handle_flatbuffer_message(&self, data: &[u8]) -> (answer: Answer)
        ensures
            answers(answer, spec_dispatch_frame(data@, answer is Recognize)),
    {
        match decode(data) {
            Err(_) => Answer::Silent,
            Ok(message) => match self.handle_request(message) {
                Dispatch::Silent => Answer::Silent,
                Dispatch::Reply(reply) => Answer::Frame(encode(&reply)),
                Dispatch::Recognize(image) => Answer::Recognize(image),
            },
        }
    }

    /// Dispatches one message by its kind.
    pub fn handle_request(&self, message: Message) -> (decision: Dispatch)
        ensures
            decision@ == spec_dispatch(message@, decision is Recognize),
    {
        match message.payload {
            Payload::Initialization => Dispatch::Reply(Message::acknowledgement(message.id)),
            Payload::ResponseScreenshot { image } => self.read_screenshot(image.as_slice()),
            _ => Dispatch::Silent,
        }
    }

    /// Decides what becomes of a screenshot: it goes to the engine where
    /// its image can be read, and is answered at once where it cannot.
    pub fn read_screenshot(&self, image: &[u8]) -> (decision: Dispatch)
        ensures
            decision@ == (if decision is Recognize {
                DispatchView::Recognize
            } else {
                DispatchView::Reply(recognition_reply(RecognitionView::Unreadable))
            }),
    {
        self.screenshot_decision(self.ocr_service.read_image(image))
    }

    /// What becomes of a screenshot once its image was read, or could not
    /// be: an image that was read goes to the engine, and a screenshot
    /// without one is answered at once by the words that say so.
    pub fn screenshot_decision(&self, loaded: Option<DynamicImage>) -> (decision: Dispatch)
        ensures
            decision is Recognize == loaded is Some,
            decision@ == (if loaded is Some {
                DispatchView::Recognize
            } else {
                DispatchView::Reply(recognition_reply(RecognitionView::Unreadable))
            }),
    {
        match loaded {
            Some(image) => Dispatch::Recognize(image),
            None => Dispatch::Reply(self.recognition_message(Recognition::Unreadable)),
        }
    }

    /// The message that answers a screenshot whose recognition ended as
    /// `outcome` says.
    pub fn recognition_message(&self, outcome: Recognition) -> (reply: Message)
        ensures
            reply@ == recognition_reply(outcome@),
    {
        Message::recognized(self.ocr_service.recognize(outcome))
    }

    /// The frame that answers a screenshot whose recognition ended as
    /// `outcome` says.
    pub fn handle_screenshot_for_ocr(&self, outcome: Recognition) -> (frame: Vec<u8>)
        ensures
            frame@ == spec_encode(recognition_reply(outcome@)),
    {
        encode(&self.recognition_message(outcome))
    }
}

/// The frame that acknowledges the handshake numbered `request_id`.
pub fn create_initialization_response(request_id: u64) -> (frame: Vec<u8>)
    ensures
        frame@ == spec_encode(acknowledgement(request_id)),
{
    encode(&Message::acknowledgement(request_id))
}

/// The frame that a press of the screenshot hotkey broadcasts.
pub fn create_hotkey_message() -> (frame: Vec<u8>)
    ensures
        frame@ == spec_encode(screenshot_request()),
{
    encode(&Message::screenshot_request())
}

/// A message of a kind that has no handler is answered by nothing,
/// whatever it carries; and so is a frame that holds no message.
pub proof fn law_unhandled_kinds_are_silent(message: MessageView, data: Seq<u8>, readable: bool)
    ensures
        message.payload.kind() != MessageKind::Initialization && message.payload.kind()
            != MessageKind::ResponseScreenshot ==> spec_dispatch(message, readable)
            == DispatchView::Silent,
        spec_decode(data) is Err ==> spec_dispatch_frame(data, readable) == DispatchView::Silent,
{
}

/// A handshake is acknowledged by a message without payload that carries
/// the handshake's `id`.
pub proof fn law_initialization_echo(id: u64, readable: bool)
    ensures
        spec_dispatch(MessageView { id, payload: PayloadView::Initialization }, readable)
            == DispatchView::Reply(acknowledgement(id)),
        acknowledgement(id).id == id,
        acknowledgement(id).payload.kind() == MessageKind::Empty,
{
}

/// No screenshot is dropped: it goes to the engine or is answered, and
/// whatever becomes of its recognition is answered by recognized text.
pub proof fn law_screenshot_is_answered(id: u64, image: Seq<u8>, readable: bool, outcome: RecognitionView)
    ensures
        !(spec_dispatch(
            MessageView { id, payload: PayloadView::ResponseScreenshot { image } },
            readable,
        ) is Silent),
        recognition_reply(outcome).payload.kind() == MessageKind::OcrMessage,
{
}

} // verus!
