//! All known remote buttons and their canonical protocol strings.
//!
//! The name space is closed except for `Literal`, which carries one
//! character for arbitrary keyboard input and is only ever constructed
//! programmatically, never parsed from the wire.

use vstd::prelude::*;
use vstd::string::StringExecFns;
use crate::text::chars_eq_str;
use crate::text::str_to_chars;

verus! {

/// All known remote buttons. Some require device support, and a few are
/// known only from vendor sources rather than public documentation.
#[derive(Clone, Copy, Debug, Eq, PartialEq, Structural)]
pub enum Button {
    Home,
    Rewind,
    Forward,
    PlayPause,
    Select,
    Left,
    Right,
    Down,
    Up,
    Back,
    InstantReplay,
    Keyboard,
    Info,
    Backspace,
    Search,
    Enter,
    Stop,
    FindRemote,
    VolumeDown,
    VolumeMute,
    VolumeUp,
    Power,
    PowerOff,
    PowerOn,
    ChannelUp,
    ChannelDown,
    InputTuner,
    InputHdmi1,
    InputHdmi2,
    InputHdmi3,
    InputHdmi4,
    InputAv1,
    Numpad1,
    Numpad2,
    Numpad3,
    Numpad4,
    Numpad5,
    Numpad6,
    Numpad7,
    Numpad8,
    Numpad9,
    Numpad0,
    NumpadDot,
    NumpadRed,
    NumpadGreen,
    NumpadYellow,
    NumpadBlue,
    NumpadExit,
    Guide,
    TextSearch,
    VoiceSearch,
    /// Arbitrary character input; encoded with URL percent-encoding
    /// before transmission.
    Literal { character: char },
}

/// Whether this is the open `Literal` variant.
pub open spec fn spec_is_literal(b: Button) -> bool {
    b matches Button::Literal { character: _ }
}

/// Canonical protocol string of a button.
pub open spec fn spec_button_name(b: Button) -> Seq<char> {
    match b {
        Button::Home => "Home"@,
        Button::Rewind => "Rev"@,
        Button::Forward => "Fwd"@,
        Button::PlayPause => "Play"@,
        Button::Select => "Select"@,
        Button::Left => "Left"@,
        Button::Right => "Right"@,
        Button::Down => "Down"@,
        Button::Up => "Up"@,
        Button::Back => "Back"@,
        Button::InstantReplay => "InstantReplay"@,
        Button::Keyboard => "Keyboard"@,
        Button::Info => "Info"@,
        Button::Backspace => "Backspace"@,
        Button::Search => "Search"@,
        Button::Enter => "Enter"@,
        Button::Stop => "Stop"@,
        Button::FindRemote => "FindRemote"@,
        Button::VolumeDown => "VolumeDown"@,
        Button::VolumeMute => "VolumeMute"@,
        Button::VolumeUp => "VolumeUp"@,
        Button::Power => "Power"@,
        Button::PowerOff => "PowerOff"@,
        Button::PowerOn => "PowerOn"@,
        Button::ChannelUp => "ChannelUp"@,
        Button::ChannelDown => "ChannelDown"@,
        Button::InputTuner => "InputTuner"@,
        Button::InputHdmi1 => "InputHDMI1"@,
        Button::InputHdmi2 => "InputHDMI2"@,
        Button::InputHdmi3 => "InputHDMI3"@,
        Button::InputHdmi4 => "InputHDMI4"@,
        Button::InputAv1 => "InputAV1"@,
        Button::Numpad1 => "1"@,
        Button::Numpad2 => "2"@,
        Button::Numpad3 => "3"@,
        Button::Numpad4 => "4"@,
        Button::Numpad5 => "5"@,
        Button::Numpad6 => "6"@,
        Button::Numpad7 => "7"@,
        Button::Numpad8 => "8"@,
        Button::Numpad9 => "9"@,
        Button::Numpad0 => "0"@,
        Button::NumpadDot => "."@,
        Button::NumpadRed => "Red"@,
        Button::NumpadGreen => "Green"@,
        Button::NumpadYellow => "Yellow"@,
        Button::NumpadBlue => "Blue"@,
        Button::NumpadExit => "Exit"@,
        Button::Guide => "Guide"@,
        Button::TextSearch => "TextSearch"@,
        Button::VoiceSearch => "VoiceSearch"@,
        Button::Literal { character } => "Lit_-"@ + url_enc(character),
    }
}

/// Button named by a protocol string; the name space is closed, so an
/// unrecognized string names no button.
pub open spec fn spec_button_of(s: Seq<char>) -> Option<Button> {
    if s == "Home"@ {
        Some(Button::Home)
    } else if s == "Rev"@ {
        Some(Button::Rewind)
    } else if s == "Fwd"@ {
        Some(Button::Forward)
    } else if s == "Play"@ {
        Some(Button::PlayPause)
    } else if s == "Select"@ {
        Some(Button::Select)
    } else if s == "Left"@ {
        Some(Button::Left)
    } else if s == "Right"@ {
        Some(Button::Right)
    } else if s == "Down"@ {
        Some(Button::Down)
    } else if s == "Up"@ {
        Some(Button::Up)
    } else if s == "Back"@ {
        Some(Button::Back)
    } else if s == "InstantReplay"@ {
        Some(Button::InstantReplay)
    } else if s == "Keyboard"@ {
        Some(Button::Keyboard)
    } else if s == "Info"@ {
        Some(Button::Info)
    } else if s == "Backspace"@ {
        Some(Button::Backspace)
    } else if s == "Search"@ {
        Some(Button::Search)
    } else if s == "Enter"@ {
        Some(Button::Enter)
    } else if s == "Stop"@ {
        Some(Button::Stop)
    } else if s == "FindRemote"@ {
        Some(Button::FindRemote)
    } else if s == "VolumeDown"@ {
        Some(Button::VolumeDown)
    } else if s == "VolumeMute"@ {
        Some(Button::VolumeMute)
    } else if s == "VolumeUp"@ {
        Some(Button::VolumeUp)
    } else if s == "Power"@ {
        Some(Button::Power)
    } else if s == "PowerOff"@ {
        Some(Button::PowerOff)
    } else if s == "PowerOn"@ {
        Some(Button::PowerOn)
    } else if s == "ChannelUp"@ {
        Some(Button::ChannelUp)
    } else if s == "ChannelDown"@ {
        Some(Button::ChannelDown)
    } else if s == "InputTuner"@ {
        Some(Button::InputTuner)
    } else if s == "InputHDMI1"@ {
        Some(Button::InputHdmi1)
    } else if s == "InputHDMI2"@ {
        Some(Button::InputHdmi2)
    } else if s == "InputHDMI3"@ {
        Some(Button::InputHdmi3)
    } else if s == "InputHDMI4"@ {
        Some(Button::InputHdmi4)
    } else if s == "InputAV1"@ {
        Some(Button::InputAv1)
    } else if s == "1"@ {
        Some(Button::Numpad1)
    } else if s == "2"@ {
        Some(Button::Numpad2)
    } else if s == "3"@ {
        Some(Button::Numpad3)
    } else if s == "4"@ {
        Some(Button::Numpad4)
    } else if s == "5"@ {
        Some(Button::Numpad5)
    } else if s == "6"@ {
        Some(Button::Numpad6)
    } else if s == "7"@ {
        Some(Button::Numpad7)
    } else if s == "8"@ {
        Some(Button::Numpad8)
    } else if s == "9"@ {
        Some(Button::Numpad9)
    } else if s == "0"@ {
        Some(Button::Numpad0)
    } else if s == "."@ {
        Some(Button::NumpadDot)
    } else if s == "Red"@ {
        Some(Button::NumpadRed)
    } else if s == "Green"@ {
        Some(Button::NumpadGreen)
    } else if s == "Yellow"@ {
        Some(Button::NumpadYellow)
    } else if s == "Blue"@ {
        Some(Button::NumpadBlue)
    } else if s == "Exit"@ {
        Some(Button::NumpadExit)
    } else if s == "Guide"@ {
        Some(Button::Guide)
    } else if s == "TextSearch"@ {
        Some(Button::TextSearch)
    } else if s == "VoiceSearch"@ {
        Some(Button::VoiceSearch)
    } else {
        None
    }
}

/// A character the URL percent-encoding leaves as it is: ASCII
/// alphanumerics and `-`, `_`, `.`, `~`.
pub open spec fn is_url_unreserved(c: char) -> bool {
    ('0' <= c && c <= '9') || ('a' <= c && c <= 'z') || ('A' <= c && c <= 'Z') || c == '-'
        || c == '_' || c == '.' || c == '~'
}

/// The URL percent-encoding of one character; a function of the
/// character alone.
pub uninterp spec fn url_enc(c: char) -> Seq<char>;

/// Relies on `urlencoding::encode`: percent-encodes every byte except
/// ASCII alphanumerics and `-`, `_`, `.`, `~`, using `%XX` escapes, so
/// an unreserved character passes through unchanged and any other
/// encodes to escapes starting with `%`.
#[verifier::external_body]
fn encode_char(c: char) -> (r: String)
    ensures
        r@ == url_enc(c),
        is_url_unreserved(c) ==> r@ == seq![c],
        !is_url_unreserved(c) ==> r@.len() >= 3 && r@[0] == '%',
{
    urlencoding::encode(&format!("{}", c)).into_owned()
}

impl Button {
    /// Render the canonical protocol string.
    pub fn to_string(&self) -> (r: String)
        ensures
            r@ == spec_button_name(*self),
    {
        match self {
            Button::Home => String::from_str("Home"),
            Button::Rewind => String::from_str("Rev"),
            Button::Forward => String::from_str("Fwd"),
            Button::PlayPause => String::from_str("Play"),
            Button::Select => String::from_str("Select"),
            Button::Left => String::from_str("Left"),
            Button::Right => String::from_str("Right"),
            Button::Down => String::from_str("Down"),
            Button::Up => String::from_str("Up"),
            Button::Back => String::from_str("Back"),
            Button::InstantReplay => String::from_str("InstantReplay"),
            Button::Keyboard => String::from_str("Keyboard"),
            Button::Info => String::from_str("Info"),
            Button::Backspace => String::from_str("Backspace"),
            Button::Search => String::from_str("Search"),
            Button::Enter => String::from_str("Enter"),
            Button::Stop => String::from_str("Stop"),
            Button::FindRemote => String::from_str("FindRemote"),
            Button::VolumeDown => String::from_str("VolumeDown"),
            Button::VolumeMute => String::from_str("VolumeMute"),
            Button::VolumeUp => String::from_str("VolumeUp"),
            Button::Power => String::from_str("Power"),
            Button::PowerOff => String::from_str("PowerOff"),
            Button::PowerOn => String::from_str("PowerOn"),
            Button::ChannelUp => String::from_str("ChannelUp"),
            Button::ChannelDown => String::from_str("ChannelDown"),
            Button::InputTuner => String::from_str("InputTuner"),
            Button::InputHdmi1 => String::from_str("InputHDMI1"),
            Button::InputHdmi2 => String::from_str("InputHDMI2"),
            Button::InputHdmi3 => String::from_str("InputHDMI3"),
            Button::InputHdmi4 => String::from_str("InputHDMI4"),
            Button::InputAv1 => String::from_str("InputAV1"),
            Button::Numpad1 => String::from_str("1"),
            Button::Numpad2 => String::from_str("2"),
            Button::Numpad3 => String::from_str("3"),
            Button::Numpad4 => String::from_str("4"),
            Button::Numpad5 => String::from_str("5"),
            Button::Numpad6 => String::from_str("6"),
            Button::Numpad7 => String::from_str("7"),
            Button::Numpad8 => String::from_str("8"),
            Button::Numpad9 => String::from_str("9"),
            Button::Numpad0 => String::from_str("0"),
            Button::NumpadDot => String::from_str("."),
            Button::NumpadRed => String::from_str("Red"),
            Button::NumpadGreen => String::from_str("Green"),
            Button::NumpadYellow => String::from_str("Yellow"),
            Button::NumpadBlue => String::from_str("Blue"),
            Button::NumpadExit => String::from_str("Exit"),
            Button::Guide => String::from_str("Guide"),
            Button::TextSearch => String::from_str("TextSearch"),
            Button::VoiceSearch => String::from_str("VoiceSearch"),
            Button::Literal { character } => {
                let mut s = String::from_str("Lit_-");
                let e = encode_char(*character);
                s.append(e.as_str());
                s
            }
        }
    }

    /// Decode a protocol string into the button it names. The name space
    /// is closed: callers must present a recognized name.
    pub fn from_string(s: &str) -> (r: Button)
        requires
            spec_button_of(s@) is Some,
        ensures
            Some(r) == spec_button_of(s@),
    {
        let v = str_to_chars(s);
        if chars_eq_str(&v, "Home") {
            Button::Home
        } else if chars_eq_str(&v, "Rev") {
            Button::Rewind
        } else if chars_eq_str(&v, "Fwd") {
            Button::Forward
        } else if chars_eq_str(&v, "Play") {
            Button::PlayPause
        } else if chars_eq_str(&v, "Select") {
            Button::Select
        } else if chars_eq_str(&v, "Left") {
            Button::Left
        } else if chars_eq_str(&v, "Right") {
            Button::Right
        } else if chars_eq_str(&v, "Down") {
            Button::Down
        } else if chars_eq_str(&v, "Up") {
            Button::Up
        } else if chars_eq_str(&v, "Back") {
            Button::Back
        } else if chars_eq_str(&v, "InstantReplay") {
            Button::InstantReplay
        } else if chars_eq_str(&v, "Keyboard") {
            Button::Keyboard
        } else if chars_eq_str(&v, "Info") {
            Button::Info
        } else if chars_eq_str(&v, "Backspace") {
            Button::Backspace
        } else if chars_eq_str(&v, "Search") {
            Button::Search
        } else if chars_eq_str(&v, "Enter") {
            Button::Enter
        } else if chars_eq_str(&v, "Stop") {
            Button::Stop
        } else if chars_eq_str(&v, "FindRemote") {
            Button::FindRemote
        } else if chars_eq_str(&v, "VolumeDown") {
            Button::VolumeDown
        } else if chars_eq_str(&v, "VolumeMute") {
            Button::VolumeMute
        } else if chars_eq_str(&v, "VolumeUp") {
            Button::VolumeUp
        } else if chars_eq_str(&v, "Power") {
            Button::Power
        } else if chars_eq_str(&v, "PowerOff") {
            Button::PowerOff
        } else if chars_eq_str(&v, "PowerOn") {
            Button::PowerOn
        } else if chars_eq_str(&v, "ChannelUp") {
            Button::ChannelUp
        } else if chars_eq_str(&v, "ChannelDown") {
            Button::ChannelDown
        } else if chars_eq_str(&v, "InputTuner") {
            Button::InputTuner
        } else if chars_eq_str(&v, "InputHDMI1") {
            Button::InputHdmi1
        } else if chars_eq_str(&v, "InputHDMI2") {
            Button::InputHdmi2
        } else if chars_eq_str(&v, "InputHDMI3") {
            Button::InputHdmi3
        } else if chars_eq_str(&v, "InputHDMI4") {
            Button::InputHdmi4
        } else if chars_eq_str(&v, "InputAV1") {
            Button::InputAv1
        } else if chars_eq_str(&v, "1") {
            Button::Numpad1
        } else if chars_eq_str(&v, "2") {
            Button::Numpad2
        } else if chars_eq_str(&v, "3") {
            Button::Numpad3
        } else if chars_eq_str(&v, "4") {
            Button::Numpad4
        } else if chars_eq_str(&v, "5") {
            Button::Numpad5
        } else if chars_eq_str(&v, "6") {
            Button::Numpad6
        } else if chars_eq_str(&v, "7") {
            Button::Numpad7
        } else if chars_eq_str(&v, "8") {
            Button::Numpad8
        } else if chars_eq_str(&v, "9") {
            Button::Numpad9
        } else if chars_eq_str(&v, "0") {
            Button::Numpad0
        } else if chars_eq_str(&v, ".") {
            Button::NumpadDot
        } else if chars_eq_str(&v, "Red") {
            Button::NumpadRed
        } else if chars_eq_str(&v, "Green") {
            Button::NumpadGreen
        } else if chars_eq_str(&v, "Yellow") {
            Button::NumpadYellow
        } else if chars_eq_str(&v, "Blue") {
            Button::NumpadBlue
        } else if chars_eq_str(&v, "Exit") {
            Button::NumpadExit
        } else if chars_eq_str(&v, "Guide") {
            Button::Guide
        } else if chars_eq_str(&v, "TextSearch") {
            Button::TextSearch
        } else if chars_eq_str(&v, "VoiceSearch") {
            Button::VoiceSearch
        } else {
            proof {
                assert(false);
            }
            Button::Home
        }
    }

    /// Build the `Literal` button for one character of keyboard input;
    /// its protocol string carries the character URL percent-encoded.
    pub fn from_char(c: char) -> (r: Button)
        ensures
            r == (Button::Literal { character: c }),
    {
        Button::Literal { character: c }
    }
}

/// Round trip: every button except `Literal` is recovered exactly from
/// its own protocol string.
#[verifier::rlimit(60)]
#[verifier::spinoff_prover]
pub proof fn lemma_button_round_trip(b: Button)
    requires
        !spec_is_literal(b),
    ensures
        spec_button_of(spec_button_name(b)) == Some(b),
{
    proof_button_names();
}

/// Evaluation of the decode chain on each canonical name.
#[verifier::rlimit(100)]
#[verifier::spinoff_prover]
proof fn proof_button_names()
    ensures
        spec_button_of("Home"@) == Some(Button::Home),
        spec_button_of("Rev"@) == Some(Button::Rewind),
        spec_button_of("Fwd"@) == Some(Button::Forward),
        spec_button_of("Play"@) == Some(Button::PlayPause),
        spec_button_of("Select"@) == Some(Button::Select),
        spec_button_of("Left"@) == Some(Button::Left),
        spec_button_of("Right"@) == Some(Button::Right),
        spec_button_of("Down"@) == Some(Button::Down),
        spec_button_of("Up"@) == Some(Button::Up),
        spec_button_of("Back"@) == Some(Button::Back),
        spec_button_of("InstantReplay"@) == Some(Button::InstantReplay),
        spec_button_of("Keyboard"@) == Some(Button::Keyboard),
        spec_button_of("Info"@) == Some(Button::Info),
        spec_button_of("Backspace"@) == Some(Button::Backspace),
        spec_button_of("Search"@) == Some(Button::Search),
        spec_button_of("Enter"@) == Some(Button::Enter),
        spec_button_of("Stop"@) == Some(Button::Stop),
        spec_button_of("FindRemote"@) == Some(Button::FindRemote),
        spec_button_of("VolumeDown"@) == Some(Button::VolumeDown),
        spec_button_of("VolumeMute"@) == Some(Button::VolumeMute),
        spec_button_of("VolumeUp"@) == Some(Button::VolumeUp),
        spec_button_of("Power"@) == Some(Button::Power),
        spec_button_of("PowerOff"@) == Some(Button::PowerOff),
        spec_button_of("PowerOn"@) == Some(Button::PowerOn),
        spec_button_of("ChannelUp"@) == Some(Button::ChannelUp),
        spec_button_of("ChannelDown"@) == Some(Button::ChannelDown),
        spec_button_of("InputTuner"@) == Some(Button::InputTuner),
        spec_button_of("InputHDMI1"@) == Some(Button::InputHdmi1),
        spec_button_of("InputHDMI2"@) == Some(Button::InputHdmi2),
        spec_button_of("InputHDMI3"@) == Some(Button::InputHdmi3),
        spec_button_of("InputHDMI4"@) == Some(Button::InputHdmi4),
        spec_button_of("InputAV1"@) == Some(Button::InputAv1),
        spec_button_of("1"@) == Some(Button::Numpad1),
        spec_button_of("2"@) == Some(Button::Numpad2),
        spec_button_of("3"@) == Some(Button::Numpad3),
        spec_button_of("4"@) == Some(Button::Numpad4),
        spec_button_of("5"@) == Some(Button::Numpad5),
        spec_button_of("6"@) == Some(Button::Numpad6),
        spec_button_of("7"@) == Some(Button::Numpad7),
        spec_button_of("8"@) == Some(Button::Numpad8),
        spec_button_of("9"@) == Some(Button::Numpad9),
        spec_button_of("0"@) == Some(Button::Numpad0),
        spec_button_of("."@) == Some(Button::NumpadDot),
        spec_button_of("Red"@) == Some(Button::NumpadRed),
        spec_button_of("Green"@) == Some(Button::NumpadGreen),
        spec_button_of("Yellow"@) == Some(Button::NumpadYellow),
        spec_button_of("Blue"@) == Some(Button::NumpadBlue),
        spec_button_of("Exit"@) == Some(Button::NumpadExit),
        spec_button_of("Guide"@) == Some(Button::Guide),
        spec_button_of("TextSearch"@) == Some(Button::TextSearch),
        spec_button_of("VoiceSearch"@) == Some(Button::VoiceSearch),
{
    reveal_strlit("Home");
    reveal_strlit("Rev");
    reveal_strlit("Fwd");
    reveal_strlit("Play");
    reveal_strlit("Select");
    reveal_strlit("Left");
    reveal_strlit("Right");
    reveal_strlit("Down");
    reveal_strlit("Up");
    reveal_strlit("Back");
    reveal_strlit("InstantReplay");
    reveal_strlit("Keyboard");
    reveal_strlit("Info");
    reveal_strlit("Backspace");
    reveal_strlit("Search");
    reveal_strlit("Enter");
    reveal_strlit("Stop");
    reveal_strlit("FindRemote");
    reveal_strlit("VolumeDown");
    reveal_strlit("VolumeMute");
    reveal_strlit("VolumeUp");
    reveal_strlit("Power");
    reveal_strlit("PowerOff");
    reveal_strlit("PowerOn");
    reveal_strlit("ChannelUp");
    reveal_strlit("ChannelDown");
    reveal_strlit("InputTuner");
    reveal_strlit("InputHDMI1");
    reveal_strlit("InputHDMI2");
    reveal_strlit("InputHDMI3");
    reveal_strlit("InputHDMI4");
    reveal_strlit("InputAV1");
    reveal_strlit("1");
    reveal_strlit("2");
    reveal_strlit("3");
    reveal_strlit("4");
    reveal_strlit("5");
    reveal_strlit("6");
    reveal_strlit("7");
    reveal_strlit("8");
    reveal_strlit("9");
    reveal_strlit("0");
    reveal_strlit(".");
    reveal_strlit("Red");
    reveal_strlit("Green");
    reveal_strlit("Yellow");
    reveal_strlit("Blue");
    reveal_strlit("Exit");
    reveal_strlit("Guide");
    reveal_strlit("TextSearch");
    reveal_strlit("VoiceSearch");
    assert("Home"@.len() == 4);
    assert("Home"@[0] == 'H');
    assert("Home"@[1] == 'o');
    assert("Home"@[2] == 'm');
    assert("Home"@[3] == 'e');
    assert("Rev"@.len() == 3);
    assert("Rev"@[0] == 'R');
    assert("Rev"@[1] == 'e');
    assert("Rev"@[2] == 'v');
    assert("Fwd"@.len() == 3);
    assert("Fwd"@[0] == 'F');
    assert("Fwd"@[1] == 'w');
    assert("Fwd"@[2] == 'd');
    assert("Play"@.len() == 4);
    assert("Play"@[0] == 'P');
    assert("Play"@[1] == 'l');
    assert("Play"@[2] == 'a');
    assert("Play"@[3] == 'y');
    assert("Select"@.len() == 6);
    assert("Select"@[0] == 'S');
    assert("Select"@[1] == 'e');
    assert("Select"@[2] == 'l');
    assert("Select"@[3] == 'e');
    assert("Select"@[4] == 'c');
    assert("Select"@[5] == 't');
    assert("Left"@.len() == 4);
    assert("Left"@[0] == 'L');
    assert("Left"@[1] == 'e');
    assert("Left"@[2] == 'f');
    assert("Left"@[3] == 't');
    assert("Right"@.len() == 5);
    assert("Right"@[0] == 'R');
    assert("Right"@[1] == 'i');
    assert("Right"@[2] == 'g');
    assert("Right"@[3] == 'h');
    assert("Right"@[4] == 't');
    assert("Down"@.len() == 4);
    assert("Down"@[0] == 'D');
    assert("Down"@[1] == 'o');
    assert("Down"@[2] == 'w');
    assert("Down"@[3] == 'n');
    assert("Up"@.len() == 2);
    assert("Up"@[0] == 'U');
    assert("Up"@[1] == 'p');
    assert("Back"@.len() == 4);
    assert("Back"@[0] == 'B');
    assert("Back"@[1] == 'a');
    assert("Back"@[2] == 'c');
    assert("Back"@[3] == 'k');
    assert("InstantReplay"@.len() == 13);
    assert("InstantReplay"@[0] == 'I');
    assert("InstantReplay"@[1] == 'n');
    assert("InstantReplay"@[2] == 's');
    assert("InstantReplay"@[3] == 't');
    assert("InstantReplay"@[4] == 'a');
    assert("InstantReplay"@[5] == 'n');
    assert("InstantReplay"@[6] == 't');
    assert("InstantReplay"@[7] == 'R');
    assert("InstantReplay"@[8] == 'e');
    assert("InstantReplay"@[9] == 'p');
    assert("InstantReplay"@[10] == 'l');
    assert("InstantReplay"@[11] == 'a');
    assert("InstantReplay"@[12] == 'y');
    assert("Keyboard"@.len() == 8);
    assert("Keyboard"@[0] == 'K');
    assert("Keyboard"@[1] == 'e');
    assert("Keyboard"@[2] == 'y');
    assert("Keyboard"@[3] == 'b');
    assert("Keyboard"@[4] == 'o');
    assert("Keyboard"@[5] == 'a');
    assert("Keyboard"@[6] == 'r');
    assert("Keyboard"@[7] == 'd');
    assert("Info"@.len() == 4);
    assert("Info"@[0] == 'I');
    assert("Info"@[1] == 'n');
    assert("Info"@[2] == 'f');
    assert("Info"@[3] == 'o');
    assert("Backspace"@.len() == 9);
    assert("Backspace"@[0] == 'B');
    assert("Backspace"@[1] == 'a');
    assert("Backspace"@[2] == 'c');
    assert("Backspace"@[3] == 'k');
    assert("Backspace"@[4] == 's');
    assert("Backspace"@[5] == 'p');
    assert("Backspace"@[6] == 'a');
    assert("Backspace"@[7] == 'c');
    assert("Backspace"@[8] == 'e');
    assert("Search"@.len() == 6);
    assert("Search"@[0] == 'S');
    assert("Search"@[1] == 'e');
    assert("Search"@[2] == 'a');
    assert("Search"@[3] == 'r');
    assert("Search"@[4] == 'c');
    assert("Search"@[5] == 'h');
    assert("Enter"@.len() == 5);
    assert("Enter"@[0] == 'E');
    assert("Enter"@[1] == 'n');
    assert("Enter"@[2] == 't');
    assert("Enter"@[3] == 'e');
    assert("Enter"@[4] == 'r');
    assert("Stop"@.len() == 4);
    assert("Stop"@[0] == 'S');
    assert("Stop"@[1] == 't');
    assert("Stop"@[2] == 'o');
    assert("Stop"@[3] == 'p');
    assert("FindRemote"@.len() == 10);
    assert("FindRemote"@[0] == 'F');
    assert("FindRemote"@[1] == 'i');
    assert("FindRemote"@[2] == 'n');
    assert("FindRemote"@[3] == 'd');
    assert("FindRemote"@[4] == 'R');
    assert("FindRemote"@[5] == 'e');
    assert("FindRemote"@[6] == 'm');
    assert("FindRemote"@[7] == 'o');
    assert("FindRemote"@[8] == 't');
    assert("FindRemote"@[9] == 'e');
    assert("VolumeDown"@.len() == 10);
    assert("VolumeDown"@[0] == 'V');
    assert("VolumeDown"@[1] == 'o');
    assert("VolumeDown"@[2] == 'l');
    assert("VolumeDown"@[3] == 'u');
    assert("VolumeDown"@[4] == 'm');
    assert("VolumeDown"@[5] == 'e');
    assert("VolumeDown"@[6] == 'D');
    assert("VolumeDown"@[7] == 'o');
    assert("VolumeDown"@[8] == 'w');
    assert("VolumeDown"@[9] == 'n');
    assert("VolumeMute"@.len() == 10);
    assert("VolumeMute"@[0] == 'V');
    assert("VolumeMute"@[1] == 'o');
    assert("VolumeMute"@[2] == 'l');
    assert("VolumeMute"@[3] == 'u');
    assert("VolumeMute"@[4] == 'm');
    assert("VolumeMute"@[5] == 'e');
    assert("VolumeMute"@[6] == 'M');
    assert("VolumeMute"@[7] == 'u');
    assert("VolumeMute"@[8] == 't');
    assert("VolumeMute"@[9] == 'e');
    assert("VolumeUp"@.len() == 8);
    assert("VolumeUp"@[0] == 'V');
    assert("VolumeUp"@[1] == 'o');
    assert("VolumeUp"@[2] == 'l');
    assert("VolumeUp"@[3] == 'u');
    assert("VolumeUp"@[4] == 'm');
    assert("VolumeUp"@[5] == 'e');
    assert("VolumeUp"@[6] == 'U');
    assert("VolumeUp"@[7] == 'p');
    assert("Power"@.len() == 5);
    assert("Power"@[0] == 'P');
    assert("Power"@[1] == 'o');
    assert("Power"@[2] == 'w');
    assert("Power"@[3] == 'e');
    assert("Power"@[4] == 'r');
    assert("PowerOff"@.len() == 8);
    assert("PowerOff"@[0] == 'P');
    assert("PowerOff"@[1] == 'o');
    assert("PowerOff"@[2] == 'w');
    assert("PowerOff"@[3] == 'e');
    assert("PowerOff"@[4] == 'r');
    assert("PowerOff"@[5] == 'O');
    assert("PowerOff"@[6] == 'f');
    assert("PowerOff"@[7] == 'f');
    assert("PowerOn"@.len() == 7);
    assert("PowerOn"@[0] == 'P');
    assert("PowerOn"@[1] == 'o');
    assert("PowerOn"@[2] == 'w');
    assert("PowerOn"@[3] == 'e');
    assert("PowerOn"@[4] == 'r');
    assert("PowerOn"@[5] == 'O');
    assert("PowerOn"@[6] == 'n');
    assert("ChannelUp"@.len() == 9);
    assert("ChannelUp"@[0] == 'C');
    assert("ChannelUp"@[1] == 'h');
    assert("ChannelUp"@[2] == 'a');
    assert("ChannelUp"@[3] == 'n');
    assert("ChannelUp"@[4] == 'n');
    assert("ChannelUp"@[5] == 'e');
    assert("ChannelUp"@[6] == 'l');
    assert("ChannelUp"@[7] == 'U');
    assert("ChannelUp"@[8] == 'p');
    assert("ChannelDown"@.len() == 11);
    assert("ChannelDown"@[0] == 'C');
    assert("ChannelDown"@[1] == 'h');
    assert("ChannelDown"@[2] == 'a');
    assert("ChannelDown"@[3] == 'n');
    assert("ChannelDown"@[4] == 'n');
    assert("ChannelDown"@[5] == 'e');
    assert("ChannelDown"@[6] == 'l');
    assert("ChannelDown"@[7] == 'D');
    assert("ChannelDown"@[8] == 'o');
    assert("ChannelDown"@[9] == 'w');
    assert("ChannelDown"@[10] == 'n');
    assert("InputTuner"@.len() == 10);
    assert("InputTuner"@[0] == 'I');
    assert("InputTuner"@[1] == 'n');
    assert("InputTuner"@[2] == 'p');
    assert("InputTuner"@[3] == 'u');
    assert("InputTuner"@[4] == 't');
    assert("InputTuner"@[5] == 'T');
    assert("InputTuner"@[6] == 'u');
    assert("InputTuner"@[7] == 'n');
    assert("InputTuner"@[8] == 'e');
    assert("InputTuner"@[9] == 'r');
    assert("InputHDMI1"@.len() == 10);
    assert("InputHDMI1"@[0] == 'I');
    assert("InputHDMI1"@[1] == 'n');
    assert("InputHDMI1"@[2] == 'p');
    assert("InputHDMI1"@[3] == 'u');
    assert("InputHDMI1"@[4] == 't');
    assert("InputHDMI1"@[5] == 'H');
    assert("InputHDMI1"@[6] == 'D');
    assert("InputHDMI1"@[7] == 'M');
    assert("InputHDMI1"@[8] == 'I');
    assert("InputHDMI1"@[9] == '1');
    assert("InputHDMI2"@.len() == 10);
    assert("InputHDMI2"@[0] == 'I');
    assert("InputHDMI2"@[1] == 'n');
    assert("InputHDMI2"@[2] == 'p');
    assert("InputHDMI2"@[3] == 'u');
    assert("InputHDMI2"@[4] == 't');
    assert("InputHDMI2"@[5] == 'H');
    assert("InputHDMI2"@[6] == 'D');
    assert("InputHDMI2"@[7] == 'M');
    assert("InputHDMI2"@[8] == 'I');
    assert("InputHDMI2"@[9] == '2');
    assert("InputHDMI3"@.len() == 10);
    assert("InputHDMI3"@[0] == 'I');
    assert("InputHDMI3"@[1] == 'n');
    assert("InputHDMI3"@[2] == 'p');
    assert("InputHDMI3"@[3] == 'u');
    assert("InputHDMI3"@[4] == 't');
    assert("InputHDMI3"@[5] == 'H');
    assert("InputHDMI3"@[6] == 'D');
    assert("InputHDMI3"@[7] == 'M');
    assert("InputHDMI3"@[8] == 'I');
    assert("InputHDMI3"@[9] == '3');
    assert("InputHDMI4"@.len() == 10);
    assert("InputHDMI4"@[0] == 'I');
    assert("InputHDMI4"@[1] == 'n');
    assert("InputHDMI4"@[2] == 'p');
    assert("InputHDMI4"@[3] == 'u');
    assert("InputHDMI4"@[4] == 't');
    assert("InputHDMI4"@[5] == 'H');
    assert("InputHDMI4"@[6] == 'D');
    assert("InputHDMI4"@[7] == 'M');
    assert("InputHDMI4"@[8] == 'I');
    assert("InputHDMI4"@[9] == '4');
    assert("InputAV1"@.len() == 8);
    assert("InputAV1"@[0] == 'I');
    assert("InputAV1"@[1] == 'n');
    assert("InputAV1"@[2] == 'p');
    assert("InputAV1"@[3] == 'u');
    assert("InputAV1"@[4] == 't');
    assert("InputAV1"@[5] == 'A');
    assert("InputAV1"@[6] == 'V');
    assert("InputAV1"@[7] == '1');
    assert("1"@.len() == 1);
    assert("1"@[0] == '1');
    assert("2"@.len() == 1);
    assert("2"@[0] == '2');
    assert("3"@.len() == 1);
    assert("3"@[0] == '3');
    assert("4"@.len() == 1);
    assert("4"@[0] == '4');
    assert("5"@.len() == 1);
    assert("5"@[0] == '5');
    assert("6"@.len() == 1);
    assert("6"@[0] == '6');
    assert("7"@.len() == 1);
    assert("7"@[0] == '7');
    assert("8"@.len() == 1);
    assert("8"@[0] == '8');
    assert("9"@.len() == 1);
    assert("9"@[0] == '9');
    assert("0"@.len() == 1);
    assert("0"@[0] == '0');
    assert("."@.len() == 1);
    assert("."@[0] == '.');
    assert("Red"@.len() == 3);
    assert("Red"@[0] == 'R');
    assert("Red"@[1] == 'e');
    assert("Red"@[2] == 'd');
    assert("Green"@.len() == 5);
    assert("Green"@[0] == 'G');
    assert("Green"@[1] == 'r');
    assert("Green"@[2] == 'e');
    assert("Green"@[3] == 'e');
    assert("Green"@[4] == 'n');
    assert("Yellow"@.len() == 6);
    assert("Yellow"@[0] == 'Y');
    assert("Yellow"@[1] == 'e');
    assert("Yellow"@[2] == 'l');
    assert("Yellow"@[3] == 'l');
    assert("Yellow"@[4] == 'o');
    assert("Yellow"@[5] == 'w');
    assert("Blue"@.len() == 4);
    assert("Blue"@[0] == 'B');
    assert("Blue"@[1] == 'l');
    assert("Blue"@[2] == 'u');
    assert("Blue"@[3] == 'e');
    assert("Exit"@.len() == 4);
    assert("Exit"@[0] == 'E');
    assert("Exit"@[1] == 'x');
    assert("Exit"@[2] == 'i');
    assert("Exit"@[3] == 't');
    assert("Guide"@.len() == 5);
    assert("Guide"@[0] == 'G');
    assert("Guide"@[1] == 'u');
    assert("Guide"@[2] == 'i');
    assert("Guide"@[3] == 'd');
    assert("Guide"@[4] == 'e');
    assert("TextSearch"@.len() == 10);
    assert("TextSearch"@[0] == 'T');
    assert("TextSearch"@[1] == 'e');
    assert("TextSearch"@[2] == 'x');
    assert("TextSearch"@[3] == 't');
    assert("TextSearch"@[4] == 'S');
    assert("TextSearch"@[5] == 'e');
    assert("TextSearch"@[6] == 'a');
    assert("TextSearch"@[7] == 'r');
    assert("TextSearch"@[8] == 'c');
    assert("TextSearch"@[9] == 'h');
    assert("VoiceSearch"@.len() == 11);
    assert("VoiceSearch"@[0] == 'V');
    assert("VoiceSearch"@[1] == 'o');
    assert("VoiceSearch"@[2] == 'i');
    assert("VoiceSearch"@[3] == 'c');
    assert("VoiceSearch"@[4] == 'e');
    assert("VoiceSearch"@[5] == 'S');
    assert("VoiceSearch"@[6] == 'e');
    assert("VoiceSearch"@[7] == 'a');
    assert("VoiceSearch"@[8] == 'r');
    assert("VoiceSearch"@[9] == 'c');
    assert("VoiceSearch"@[10] == 'h');
    assert(spec_button_of("Home"@) == Some(Button::Home));
    assert(spec_button_of("Rev"@) == Some(Button::Rewind));
    assert(spec_button_of("Fwd"@) == Some(Button::Forward));
    assert(spec_button_of("Play"@) == Some(Button::PlayPause));
    assert(spec_button_of("Select"@) == Some(Button::Select));
    assert(spec_button_of("Left"@) == Some(Button::Left));
    assert(spec_button_of("Right"@) == Some(Button::Right));
    assert(spec_button_of("Down"@) == Some(Button::Down));
    assert(spec_button_of("Up"@) == Some(Button::Up));
    assert(spec_button_of("Back"@) == Some(Button::Back));
    assert(spec_button_of("InstantReplay"@) == Some(Button::InstantReplay));
    assert(spec_button_of("Keyboard"@) == Some(Button::Keyboard));
    assert(spec_button_of("Info"@) == Some(Button::Info));
    assert(spec_button_of("Backspace"@) == Some(Button::Backspace));
    assert(spec_button_of("Search"@) == Some(Button::Search));
    assert(spec_button_of("Enter"@) == Some(Button::Enter));
    assert(spec_button_of("Stop"@) == Some(Button::Stop));
    assert(spec_button_of("FindRemote"@) == Some(Button::FindRemote));
    assert(spec_button_of("VolumeDown"@) == Some(Button::VolumeDown));
    assert(spec_button_of("VolumeMute"@) == Some(Button::VolumeMute));
    assert(spec_button_of("VolumeUp"@) == Some(Button::VolumeUp));
    assert(spec_button_of("Power"@) == Some(Button::Power));
    assert(spec_button_of("PowerOff"@) == Some(Button::PowerOff));
    assert(spec_button_of("PowerOn"@) == Some(Button::PowerOn));
    assert(spec_button_of("ChannelUp"@) == Some(Button::ChannelUp));
    assert(spec_button_of("ChannelDown"@) == Some(Button::ChannelDown));
    assert(spec_button_of("InputTuner"@) == Some(Button::InputTuner));
    assert(spec_button_of("InputHDMI1"@) == Some(Button::InputHdmi1));
    assert(spec_button_of("InputHDMI2"@) == Some(Button::InputHdmi2));
    assert(spec_button_of("InputHDMI3"@) == Some(Button::InputHdmi3));
    assert(spec_button_of("InputHDMI4"@) == Some(Button::InputHdmi4));
    assert(spec_button_of("InputAV1"@) == Some(Button::InputAv1));
    assert(spec_button_of("1"@) == Some(Button::Numpad1));
    assert(spec_button_of("2"@) == Some(Button::Numpad2));
    assert(spec_button_of("3"@) == Some(Button::Numpad3));
    assert(spec_button_of("4"@) == Some(Button::Numpad4));
    assert(spec_button_of("5"@) == Some(Button::Numpad5));
    assert(spec_button_of("6"@) == Some(Button::Numpad6));
    assert(spec_button_of("7"@) == Some(Button::Numpad7));
    assert(spec_button_of("8"@) == Some(Button::Numpad8));
    assert(spec_button_of("9"@) == Some(Button::Numpad9));
    assert(spec_button_of("0"@) == Some(Button::Numpad0));
    assert(spec_button_of("."@) == Some(Button::NumpadDot));
    assert(spec_button_of("Red"@) == Some(Button::NumpadRed));
    assert(spec_button_of("Green"@) == Some(Button::NumpadGreen));
    assert(spec_button_of("Yellow"@) == Some(Button::NumpadYellow));
    assert(spec_button_of("Blue"@) == Some(Button::NumpadBlue));
    assert(spec_button_of("Exit"@) == Some(Button::NumpadExit));
    assert(spec_button_of("Guide"@) == Some(Button::Guide));
    assert(spec_button_of("TextSearch"@) == Some(Button::TextSearch));
    assert(spec_button_of("VoiceSearch"@) == Some(Button::VoiceSearch));
}

} // verus!
