//! The recognition service: what the dispatcher does before and after the
//! engine has looked at an image.
//!
//! The engine itself runs outside this library. The service reads the
//! image that the engine is to look at, and turns what the engine found,
//! or its failure, into the text of the reply.

use vstd::prelude::*;
use vstd::string::*;
use image::DynamicImage;

verus! {

/// A decoded image of the `image` crate. Nothing is known of its pixels
/// here: the library only carries it to the engine.
#[verifier::external_type_specification]
#[verifier::external_body]
pub struct ExDynamicImage(image::DynamicImage);

/// `image::load_from_memory`, with its error dropped: guesses the format of
/// `data` and decodes it. Nothing is claimed of which bytes it can read.
#[verifier::external_body]
fn load_from_memory(data: &[u8]) -> (loaded: Option<DynamicImage>) {
    image::load_from_memory(data).ok()
}

/// How the recognition of one image ended.
#[derive(Clone, Debug, PartialEq, Eq)]
pub enum Recognition {
    /// The bytes were no image that could be read.
    Unreadable,
    /// The engine failed on the image.
    Failed,
    /// The engine found these lines of text.
    Lines(Vec<String>),
}

/// The view of a [`Recognition`].
pub enum RecognitionView {
    Unreadable,
    Failed,
    Lines(Seq<Seq<char>>),
}

impl View for Recognition {
    type V = RecognitionView;

    open spec fn view(&self) -> RecognitionView {
        match *self {
            Recognition::Unreadable => RecognitionView::Unreadable,
            Recognition::Failed => RecognitionView::Failed,
            Recognition::Lines(lines) => RecognitionView::Lines(lines.deep_view()),
        }
    }
}

/// The lines with a line feed between each two of them.
pub open spec fn join_lines(lines: Seq<Seq<char>>) -> Seq<char>
    decreases lines.len(),
{
    if lines.len() == 0 {
        Seq::empty()
    } else if lines.len() == 1 {
        lines[0]
    } else {
        join_lines(lines.drop_last()) + seq!['\n'] + lines.last()
    }
}

/// The text that tells a client how a recognition ended.
pub open spec fn recognition_text(outcome: RecognitionView) -> Seq<char> {
    match outcome {
        RecognitionView::Unreadable => "Failed to read image"@,
        RecognitionView::Failed => "Failed to OCR image"@,
        RecognitionView::Lines(lines) => join_lines(lines),
    }
}

/// Joins the lines with a line feed between each two of them.
pub fn join(lines: &Vec<String>) -> (text: String)
    ensures
        text@ == join_lines(lines.deep_view()),
{
    let ghost all = lines.deep_view();
    let mut text = String::new();
    let mut i: usize = 0;
    while i < lines.len()
        invariant
            i <= lines.len(),
            all == lines.deep_view(),
            text@ == join_lines(all.take(i as int)),
        decreases lines.len() - i,
    {
        if i > 0 {
            proof {
                reveal_strlit("\n");
            }
            text.append("\n");
            assert("\n"@ =~= seq!['\n']);
        }
        text.append(lines[i].as_str());
        proof {
            let upto = all.take(i + 1);
            assert(upto.drop_last() =~= all.take(i as int));
            assert(upto.last() == lines[i as int]@);
            if i == 0 {
                assert(text@ =~= upto[0]);
            }
        }
        i += 1;
    }
    assert(all.take(i as int) =~= all);
    text
}

/// The service through which screenshots reach the recognition engine.
pub struct PaddleOCRService {}

impl PaddleOCRService {
    pub fn new() -> (service: Self) {
        PaddleOCRService {  }
    }

    /// Reads the image that a client sent, for the engine to look at.
    /// `None` means that the bytes are no image that can be read; the reply
    /// is then the text of [`Recognition::Unreadable`].
    pub(crate) fn read_image(&self, image_data: &[u8]) -> (loaded: Option<DynamicImage>) {
        load_from_memory(image_data)
    }

    /// The text of the reply for a recognition that ended as `outcome`
    /// says: the lines that the engine found, joined by line feeds, or the
    /// words that name the failure.
    pub fn recognize(&self, outcome: Recognition) -> (text: String)
        ensures
            text@ == recognition_text(outcome@),
    {
        match outcome {
            Recognition::Unreadable => String::from_str("Failed to read image"),
            Recognition::Failed => String::from_str("Failed to OCR image"),
            Recognition::Lines(lines) => join(&lines),
        }
    }
}

} // verus!
