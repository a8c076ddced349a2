use kitabu_server::message::{Message, Payload};
use kitabu_server::messages::{
    create_hotkey_message, create_initialization_response, Answer, Dispatch, MessageService,
};
use kitabu_server::paddle_ocr_service::{join, PaddleOCRService, Recognition};
use kitabu_server::wire::{decode, encode};

fn small_png() -> Vec<u8> {
    let pixels = image::RgbImage::from_pixel(4, 3, image::Rgb([255, 255, 255]));
    let mut bytes = std::io::Cursor::new(Vec::new());
    image::DynamicImage::ImageRgb8(pixels).write_to(&mut bytes, image::ImageFormat::Png).unwrap();
    bytes.into_inner()
}

fn text_of(frame: &[u8]) -> (u64, String, Option<String>) {
    match decode(frame).unwrap() {
        Message { id, payload: Payload::OcrMessage { text, key } } => (id, text, key),
        other => panic!("no recognized text: {:?}", other),
    }
}

#[test]
fn initialization_is_acknowledged_under_its_id() {
    let service = MessageService::new();
    let request = encode(&Message { id: 42, payload: Payload::Initialization });
    match service.handle_flatbuffer_message(&request) {
        Answer::Frame(reply) => {
            assert_eq!(decode(&reply), Ok(Message { id: 42, payload: Payload::Empty }));
        }
        other => panic!("no reply: {:?}", other),
    }
}

#[test]
fn initialization_message_is_acknowledged() {
    let service = MessageService::new();
    match service.handle_request(Message { id: 7, payload: Payload::Initialization }) {
        Dispatch::Reply(reply) => assert_eq!(reply, Message { id: 7, payload: Payload::Empty }),
        other => panic!("no reply: {:?}", other),
    }
}

#[test]
fn other_kinds_are_passed_over() {
    let service = MessageService::new();
    let silent = vec![
        Message { id: 1, payload: Payload::Empty },
        Message { id: 2, payload: Payload::RequestScreenshot },
        Message { id: 3, payload: Payload::OcrMessage { text: "x".to_string(), key: None } },
        Message {
            id: 4,
            payload: Payload::OcrMessage { text: "x".to_string(), key: Some("k".to_string()) },
        },
    ];
    for message in silent {
        assert!(matches!(service.handle_flatbuffer_message(&encode(&message)), Answer::Silent));
        assert!(matches!(service.handle_request(message), Dispatch::Silent));
    }
}

#[test]
fn frames_that_hold_no_message_are_passed_over() {
    let service = MessageService::new();
    assert!(matches!(service.handle_flatbuffer_message(&[]), Answer::Silent));
    assert!(matches!(service.handle_flatbuffer_message(&[1, 2, 3]), Answer::Silent));
    assert!(matches!(
        service.handle_flatbuffer_message(&[0, 0, 0, 0, 0, 0, 0, 0, 77]),
        Answer::Silent
    ));
    let mut cut = encode(&Message { id: 42, payload: Payload::ResponseScreenshot { image: small_png() } });
    cut.pop();
    assert!(matches!(service.handle_flatbuffer_message(&cut), Answer::Silent));
}

#[test]
fn screenshot_goes_to_the_engine_and_its_text_comes_back() {
    let service = MessageService::new();
    let png = small_png();
    let request = encode(&Message { id: 5, payload: Payload::ResponseScreenshot { image: png.clone() } });
    let loaded = match service.handle_flatbuffer_message(&request) {
        Answer::Recognize(loaded) => loaded,
        other => panic!("not handed to the engine: {:?}", other),
    };
    assert_eq!(loaded, image::load_from_memory(&png).unwrap());
    assert_eq!((loaded.width(), loaded.height()), (4, 3));
    let found = Recognition::Lines(vec!["Kitabu".to_string()]);
    let reply = service.handle_screenshot_for_ocr(found);
    assert_eq!(text_of(&reply), (0, "Kitabu".to_string(), None));
}

#[test]
fn unreadable_screenshot_is_answered_at_once() {
    let service = MessageService::new();
    let request =
        encode(&Message { id: 5, payload: Payload::ResponseScreenshot { image: vec![1, 2, 3, 4] } });
    match service.handle_flatbuffer_message(&request) {
        Answer::Frame(reply) => {
            assert_eq!(text_of(&reply), (0, "Failed to read image".to_string(), None));
        }
        other => panic!("no reply: {:?}", other),
    }
    match service.read_screenshot(&[]) {
        Dispatch::Reply(reply) => {
            assert_eq!(reply, Message::recognized("Failed to read image".to_string()));
        }
        other => panic!("no reply: {:?}", other),
    }
}

#[test]
fn image_that_was_read_goes_to_the_engine() {
    let service = MessageService::new();
    let loaded = image::load_from_memory(&small_png()).unwrap();
    match service.screenshot_decision(Some(loaded.clone())) {
        Dispatch::Recognize(image) => assert_eq!(image, loaded),
        other => panic!("not handed to the engine: {:?}", other),
    }
    match service.screenshot_decision(None) {
        Dispatch::Reply(reply) => {
            assert_eq!(reply, Message::recognized("Failed to read image".to_string()));
        }
        other => panic!("no reply: {:?}", other),
    }
}

#[test]
fn engine_failure_is_told_in_the_reply() {
    let service = MessageService::new();
    let reply = service.handle_screenshot_for_ocr(Recognition::Failed);
    assert_eq!(text_of(&reply), (0, "Failed to OCR image".to_string(), None));
    assert_eq!(
        service.recognition_message(Recognition::Failed),
        Message::recognized("Failed to OCR image".to_string())
    );
}

#[test]
fn lines_are_joined_by_line_feeds() {
    let ocr = PaddleOCRService::new();
    assert_eq!(ocr.recognize(Recognition::Lines(vec![])), "");
    assert_eq!(ocr.recognize(Recognition::Lines(vec!["Kitabu".to_string()])), "Kitabu");
    assert_eq!(
        ocr.recognize(Recognition::Lines(vec!["a".to_string(), "".to_string(), "c d".to_string()])),
        "a\n\nc d"
    );
    assert_eq!(join(&vec!["x".to_string(), "y".to_string()]), "x\ny");
    assert_eq!(ocr.recognize(Recognition::Unreadable), "Failed to read image");
    assert_eq!(ocr.recognize(Recognition::Failed), "Failed to OCR image");
}

#[test]
fn image_reading_tells_images_from_other_bytes() {
    let service = MessageService::new();
    assert!(matches!(service.read_screenshot(&small_png()), Dispatch::Recognize(_)));
    assert!(matches!(service.read_screenshot(b"no image"), Dispatch::Reply(_)));
    assert!(matches!(service.read_screenshot(&[]), Dispatch::Reply(_)));
}

#[test]
fn initialization_response_frame() {
    assert_eq!(create_initialization_response(42), vec![42, 0, 0, 0, 0, 0, 0, 0, 0]);
    assert_eq!(
        decode(&create_initialization_response(u64::MAX)),
        Ok(Message { id: u64::MAX, payload: Payload::Empty })
    );
}

#[test]
fn hotkey_frame() {
    assert_eq!(create_hotkey_message(), vec![0, 0, 0, 0, 0, 0, 0, 0, 2]);
    assert_eq!(decode(&create_hotkey_message()), Ok(Message { id: 0, payload: Payload::RequestScreenshot }));
}
