//! The bridge from hotkey presses to broadcasts and recorder commands.
//!
//! The bridge knows two bindings. A press of the first asks every client
//! for a screenshot. A press of the second toggles the audio recording: it
//! starts the recorder on a new file where none runs, and stops the one that
//! runs. The loop that polls the hotkey source, the recorder process and the
//! notifier live outside this library; the bridge tells them what to do.

use vstd::prelude::*;
use vstd::string::*;
use global_hotkey::hotkey::HotKey;
use crate::message::MessageView;
use crate::messages::{create_hotkey_message, screenshot_request};
use crate::wire::spec_encode;

verus! {

/// The binding that asks for a screenshot.
pub const SCREENSHOT_BINDING: &'static str = "alt+KeyA";

/// The binding that toggles the audio recording.
pub const AUDIO_RECORDING_BINDING: &'static str = "alt+KeyR";

/// The pattern of the time stamp in a recording's file name.
pub const STAMP_PATTERN: &'static str = "%Y%m%d_%H%M%S";

/// How long the loop sleeps between two looks at the hotkey source, in
/// milliseconds.
pub const POLL_INTERVAL_MILLIS: u64 = 100;

/// How long the recorder is given to close its file before the recording
/// is delivered, in milliseconds.
pub const STOP_GRACE_MILLIS: u64 = 500;

/// The number under which the hotkey source reports presses of the hotkey
/// that a binding such as `alt+KeyA` names, or `None` where the text names
/// no hotkey: what `HotKey::try_from` of `global_hotkey` and `HotKey::id`
/// make of the text.
pub uninterp spec fn hotkey_number(binding: Seq<char>) -> Option<u32>;

/// `HotKey::try_from` of `global_hotkey` on one of the two bindings of this
/// library, and `HotKey::id` on what it gives. Believed of it: the result
/// is told by the text of the binding alone. That holds of these two
/// bindings, which name the Alt key and a letter; it is not asked of a
/// binding whose reading differs from one system to another.
#[verifier::external_body]
fn hotkey_id(binding: &str) -> (id: Option<u32>)
    requires
        binding@ == SCREENSHOT_BINDING@ || binding@ == AUDIO_RECORDING_BINDING@,
    ensures
        id == hotkey_number(binding@),
{
    match HotKey::try_from(binding) {
        Ok(hotkey) => Some(hotkey.id()),
        Err(_) => None,
    }
}

/// `chrono::Utc::now`, written out by `DateTime::format` with the pattern
/// of the time stamp. The pattern is the one this library uses, which
/// `chrono` can write; nothing is claimed of the text, which the clock
/// decides.
#[verifier::external_body]
fn utc_now(pattern: &str) -> (stamp: String)
    requires
        pattern@ == STAMP_PATTERN@,
{
    chrono::Utc::now().format(pattern).to_string()
}

/// One report of the hotkey source.
#[derive(Clone, Copy, Debug, PartialEq, Eq, Structural)]
pub struct HotkeyEvent {
    /// The number of the hotkey.
    pub id: u32,
    /// Whether the key went down; it went up otherwise.
    pub pressed: bool,
}

/// What a hotkey is bound to.
#[derive(Clone, Copy, Debug, PartialEq, Eq, Structural)]
pub enum Binding {
    Screenshot,
    AudioRecording,
}

/// What the bridge wants done.
#[derive(Clone, Debug, PartialEq, Eq)]
pub enum BridgeAction {
    /// Nothing.
    Nothing,
    /// Broadcast this frame, which asks every client for a screenshot.
    RequestScreenshot(Vec<u8>),
    /// Start the recorder on the file of this name.
    StartRecording(String),
    /// Stop the recorder and, after the grace period, deliver the file of
    /// this name to the clients.
    StopRecording(String),
}

/// The view of a [`BridgeAction`].
pub enum BridgeActionView {
    Nothing,
    RequestScreenshot(Seq<u8>),
    StartRecording(Seq<char>),
    StopRecording(Seq<char>),
}

impl View for BridgeAction {
    type V = BridgeActionView;

    open spec fn view(&self) -> BridgeActionView {
        match *self {
            BridgeAction::Nothing => BridgeActionView::Nothing,
            BridgeAction::RequestScreenshot(frame) => BridgeActionView::RequestScreenshot(frame@),
            BridgeAction::StartRecording(name) => BridgeActionView::StartRecording(name@),
            BridgeAction::StopRecording(name) => BridgeActionView::StopRecording(name@),
        }
    }
}

/// The name of the file that a recording begun at `stamp` goes to.
pub open spec fn recording_name(stamp: Seq<char>) -> Seq<char> {
    "audio_recording_"@ + stamp + ".mp3"@
}

/// The words that the notifier shows for an action, if it shows any.
pub open spec fn notice_text(action: BridgeActionView) -> Option<Seq<char>> {
    match action {
        BridgeActionView::Nothing => None,
        BridgeActionView::RequestScreenshot(_) => Some("Request screenshot from stream was send"@),
        BridgeActionView::StartRecording(_) => Some("Started audio recording"@),
        BridgeActionView::StopRecording(_) => Some("Finished audio recording"@),
    }
}

impl BridgeAction {
    /// The words that the notifier shows for this action, if it shows any.
    pub fn notice(&self) -> (text: Option<&'static str>)
        ensures
            match text {
                Some(words) => notice_text(self@) == Some(words@),
                None => notice_text(self@) is None,
            },
    {
        match self {
            BridgeAction::Nothing => None,
            BridgeAction::RequestScreenshot(_) => Some("Request screenshot from stream was send"),
            BridgeAction::StartRecording(_) => Some("Started audio recording"),
            BridgeAction::StopRecording(_) => Some("Finished audio recording"),
        }
    }
}

/// The arguments with which the recorder is started on the file `target`.
pub open spec fn spec_recorder_arguments(target: Seq<char>) -> Seq<Seq<char>> {
    seq![
        "-f"@,
        "pulse"@,
        "-i"@,
        "@DEFAULT_MONITOR@"@,
        "-c:a"@,
        "libmp3lame"@,
        "-b:a"@,
        "64k"@,
        "-ar"@,
        "22050"@,
        "-y"@,
        target,
    ]
}

/// The program that records.
pub const RECORDER_PROGRAM: &'static str = "ffmpeg";

/// The program that stops the recorder.
pub const STOP_PROGRAM: &'static str = "pkill";

/// The arguments with which the recorder is stopped.
pub open spec fn spec_stop_arguments() -> Seq<Seq<char>> {
    seq!["-f"@, "ffmpeg.*pulse.*@DEFAULT_MONITOR@"@]
}

/// The arguments with which the recorder is started on the file `target`:
/// it records what the default monitor plays, as MP3 at 64 kbit/s and
/// 22050 Hz, and overwrites the file.
pub fn recorder_arguments(target: &str) -> (arguments: Vec<String>)
    ensures
        arguments.deep_view() == spec_recorder_arguments(target@),
{
    let mut arguments: Vec<String> = Vec::new();
    arguments.push(String::from_str("-f"));
    arguments.push(String::from_str("pulse"));
    arguments.push(String::from_str("-i"));
    arguments.push(String::from_str("@DEFAULT_MONITOR@"));
    arguments.push(String::from_str("-c:a"));
    arguments.push(String::from_str("libmp3lame"));
    arguments.push(String::from_str("-b:a"));
    arguments.push(String::from_str("64k"));
    arguments.push(String::from_str("-ar"));
    arguments.push(String::from_str("22050"));
    arguments.push(String::from_str("-y"));
    arguments.push(String::from_str(target));
    assert(arguments.deep_view() =~= spec_recorder_arguments(target@));
    arguments
}

/// The arguments with which the recorder is stopped.
pub fn stop_arguments() -> (arguments: Vec<String>)
    ensures
        arguments.deep_view() == spec_stop_arguments(),
{
    let mut arguments: Vec<String> = Vec::new();
    arguments.push(String::from_str("-f"));
    arguments.push(String::from_str("ffmpeg.*pulse.*@DEFAULT_MONITOR@"));
    assert(arguments.deep_view() =~= spec_stop_arguments());
    arguments
}

/// The name of the file that a recording begun at `stamp` goes to.
pub fn recording_file_name(stamp: &str) -> (name: String)
    ensures
        name@ == recording_name(stamp@),
{
    String::from_str("audio_recording_").concat(stamp).concat(".mp3")
}

/// The bridge.
pub struct HotkeyManager {
    screenshot_id: u32,
    audio_id: u32,
    recording: Option<String>,
}

/// The view of a [`HotkeyManager`].
pub struct HotkeyManagerView {
    /// The number of the hotkey that asks for a screenshot.
    pub screenshot_id: u32,
    /// The number of the hotkey that toggles the recording.
    pub audio_id: u32,
    /// The file of the recording that runs.
    pub recording: Option<Seq<char>>,
}

/// What a report of the hotkey source means: a press of a bound hotkey
/// means its binding, the screenshot first where both have one number.
pub open spec fn spec_classify(bridge: HotkeyManagerView, event: HotkeyEvent) -> Option<Binding> {
    if event.pressed && event.id == bridge.screenshot_id {
        Some(Binding::Screenshot)
    } else if event.pressed && event.id == bridge.audio_id {
        Some(Binding::AudioRecording)
    } else {
        None
    }
}

/// The bridge after a start of the recording at `stamp`, and what is to be
/// done: nothing where a recording runs already.
pub open spec fn spec_start(bridge: HotkeyManagerView, stamp: Seq<char>) -> (
    HotkeyManagerView,
    BridgeActionView,
) {
    if bridge.recording is Some {
        (bridge, BridgeActionView::Nothing)
    } else {
        (
            HotkeyManagerView { recording: Some(recording_name(stamp)), ..bridge },
            BridgeActionView::StartRecording(recording_name(stamp)),
        )
    }
}

/// The bridge after a stop of the recording, and what is to be done:
/// nothing where no recording runs.
pub open spec fn spec_stop(bridge: HotkeyManagerView) -> (HotkeyManagerView, BridgeActionView) {
    match bridge.recording {
        Some(name) => (
            HotkeyManagerView { recording: None, ..bridge },
            BridgeActionView::StopRecording(name),
        ),
        None => (bridge, BridgeActionView::Nothing),
    }
}

/// The bridge after a toggle at `stamp`, and what is to be done.
pub open spec fn spec_toggle(bridge: HotkeyManagerView, stamp: Seq<char>) -> (
    HotkeyManagerView,
    BridgeActionView,
) {
    if bridge.recording is Some {
        spec_stop(bridge)
    } else {
        spec_start(bridge, stamp)
    }
}

/// The bridge after a report of the hotkey source at `stamp`, and what is
/// to be done.
pub open spec fn spec_on_event(bridge: HotkeyManagerView, event: HotkeyEvent, stamp: Seq<char>) -> (
    HotkeyManagerView,
    BridgeActionView,
) {
    match spec_classify(bridge, event) {
        Some(Binding::Screenshot) => (
            bridge,
            BridgeActionView::RequestScreenshot(spec_encode(screenshot_request())),
        ),
        Some(Binding::AudioRecording) => spec_toggle(bridge, stamp),
        None => (bridge, BridgeActionView::Nothing),
    }
}

/// The bridge for two hotkeys with these numbers and no recording, where
/// both have a number.
pub open spec fn spec_from_numbers(screenshot: Option<u32>, audio: Option<u32>) -> Option<
    HotkeyManagerView,
> {
    match (screenshot, audio) {
        (Some(screenshot_id), Some(audio_id)) => Some(
            HotkeyManagerView { screenshot_id, audio_id, recording: None },
        ),
        _ => None,
    }
}

/// The view of a bridge that may be missing.
pub open spec fn bridge_view(bridge: Option<HotkeyManager>) -> Option<HotkeyManagerView> {
    match bridge {
        Some(b) => Some(b@),
        None => None,
    }
}

impl View for HotkeyManager {
    type V = HotkeyManagerView;

    closed spec fn view(&self) -> HotkeyManagerView {
        HotkeyManagerView {
            screenshot_id: self.screenshot_id,
            audio_id: self.audio_id,
            recording: crate::message::key_view(self.recording),
        }
    }
}

impl HotkeyManager {
    /// The bridge for the two bindings of this library, with the numbers
    /// under which the hotkey source reports them, and no recording. There
    /// is no bridge where one of the bindings names no hotkey.
    pub fn new() -> (bridge: Option<Self>)
        ensures
            bridge_view(bridge) == spec_from_numbers(
                hotkey_number(SCREENSHOT_BINDING@),
                hotkey_number(AUDIO_RECORDING_BINDING@),
            ),
    {
        HotkeyManager::from_numbers(
            hotkey_id(SCREENSHOT_BINDING),
            hotkey_id(AUDIO_RECORDING_BINDING),
        )
    }

    /// The bridge for two hotkeys with the numbers that were found for
    /// them, and no recording. There is no bridge where one of the numbers
    /// was not found.
    pub fn from_numbers(screenshot: Option<u32>, audio: Option<u32>) -> (bridge: Option<Self>)
        ensures
            bridge_view(bridge) == spec_from_numbers(screenshot, audio),
    {
        match screenshot {
            None => None,
            Some(screenshot_id) => match audio {
                None => None,
                Some(audio_id) => Some(HotkeyManager::with_bindings(screenshot_id, audio_id)),
            },
        }
    }

    /// The bridge for two hotkeys with these numbers, and no recording.
    pub fn with_bindings(screenshot_id: u32, audio_id: u32) -> (bridge: Self)
        ensures
            bridge@ == (HotkeyManagerView { screenshot_id, audio_id, recording: None }),
    {
        HotkeyManager { screenshot_id, audio_id, recording: None }
    }

    /// Whether a recording runs.
    pub fn is_recording(&self) -> (running: bool)
        ensures
            running == self@.recording is Some,
    {
        self.recording.is_some()
    }

    /// What a report of the hotkey source means.
    pub fn classify(&self, event: HotkeyEvent) -> (binding: Option<Binding>)
        ensures
            binding == spec_classify(self@, event),
    {
        if event.pressed && event.id == self.screenshot_id {
            Some(Binding::Screenshot)
        } else if event.pressed && event.id == self.audio_id {
            Some(Binding::AudioRecording)
        } else {
            None
        }
    }

    /// Starts a recording that is stamped `stamp`, unless one runs.
    pub fn start_audio_recording(&mut self, stamp: &str) -> (action: BridgeAction)
        ensures
            (final(self)@, action@) == spec_start(old(self)@, stamp@),
    {
        if self.recording.is_some() {
            BridgeAction::Nothing
        } else {
            let name = recording_file_name(stamp);
            self.recording = Some(name.clone());
            BridgeAction::StartRecording(name)
        }
    }

    /// Stops the recording, if one runs.
    pub fn stop_audio_recording(&mut self) -> (action: BridgeAction)
        ensures
            (final(self)@, action@) == spec_stop(old(self)@),
    {
        match self.recording.take() {
            Some(name) => BridgeAction::StopRecording(name),
            None => BridgeAction::Nothing,
        }
    }

    /// Toggles the recording; one that is started is stamped `stamp`.
    pub fn toggle_audio_recording_at(&mut self, stamp: &str) -> (action: BridgeAction)
        ensures
            (final(self)@, action@) == spec_toggle(old(self)@, stamp@),
    {
        if self.recording.is_some() {
            self.stop_audio_recording()
        } else {
            self.start_audio_recording(stamp)
        }
    }

    /// Toggles the recording; one that is started is stamped with the time
    /// of the call.
    pub fn toggle_audio_recording(&mut self) -> (action: BridgeAction)
        ensures
            old(self)@.recording is Some ==> (final(self)@, action@) == spec_stop(old(self)@),
            old(self)@.recording is None ==> exists|stamp: Seq<char>|
                (final(self)@, action@) == #[trigger] spec_start(old(self)@, stamp),
    {
        if self.recording.is_some() {
            self.stop_audio_recording()
        } else {
            let stamp = utc_now(STAMP_PATTERN);
            self.start_audio_recording(stamp.as_str())
        }
    }

    /// Takes one report of the hotkey source; a recording that it starts is
    /// stamped `stamp`.
    pub fn on_event_at(&mut self, event: HotkeyEvent, stamp: &str) -> (action: BridgeAction)
        ensures
            (final(self)@, action@) == spec_on_event(old(self)@, event, stamp@),
    {
        match self.classify(event) {
            Some(Binding::Screenshot) => BridgeAction::RequestScreenshot(create_hotkey_message()),
            Some(Binding::AudioRecording) => self.toggle_audio_recording_at(stamp),
            None => BridgeAction::Nothing,
        }
    }

    /// Takes one report of the hotkey source; a recording that it starts is
    /// stamped with the time of the call.
    pub fn start_listening(&mut self, event: HotkeyEvent) -> (action: BridgeAction)
        ensures
            exists|stamp: Seq<char>|
                (final(self)@, action@) == #[trigger] spec_on_event(old(self)@, event, stamp),
    {
        match self.classify(event) {
            Some(Binding::Screenshot) => {
                let action = BridgeAction::RequestScreenshot(create_hotkey_message());
                assert((self@, action@) == spec_on_event(old(self)@, event, Seq::<char>::empty()));
                action
            },
            Some(Binding::AudioRecording) => {
                let ghost before = self@;
                let action = self.toggle_audio_recording();
                proof {
                    if before.recording is Some {
                        assert((self@, action@) == spec_on_event(before, event, Seq::<char>::empty()));
                    } else {
                        let stamp = choose|stamp: Seq<char>|
                            (self@, action@) == #[trigger] spec_start(before, stamp);
                        assert((self@, action@) == spec_on_event(before, event, stamp));
                    }
                }
                action
            },
            None => {
                assert((self@, BridgeActionView::Nothing) == spec_on_event(
                    old(self)@,
                    event,
                    Seq::<char>::empty(),
                ));
                BridgeAction::Nothing
            },
        }
    }
}

/// A toggle in the state it aims at does nothing: a start while a
/// recording runs, and a stop while none runs, leave the bridge as it is
/// and ask for nothing. Two toggles in a row start a recording and stop
/// that same recording, or stop one and start another.
pub proof fn law_toggle(bridge: HotkeyManagerView, stamp: Seq<char>, later: Seq<char>)
    ensures
        bridge.recording is Some ==> spec_start(bridge, stamp) == (bridge, BridgeActionView::Nothing),
        bridge.recording is None ==> spec_stop(bridge) == (bridge, BridgeActionView::Nothing),
        bridge.recording is None ==> spec_toggle(spec_toggle(bridge, stamp).0, later) == (
            bridge,
            BridgeActionView::StopRecording(recording_name(stamp)),
        ),
        (spec_toggle(bridge, stamp).0.recording is Some) == (bridge.recording is None),
{
}

} // verus!
