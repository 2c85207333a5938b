//! Observer-side state: the event history and status a user interface
//! renders, and the human-readable names of key codes.
//!
//! Nothing here draws anything; a front end owns the window and feeds
//! this model through the notification channel's plain values.

use vstd::prelude::*;
use vstd::string::StrSliceExecFns;
use vstd::string::StringExecFns;

use crate::config::Config;
use crate::machine::{InputDeviceInfo, State};

verus! {

/// Greatest number of events the history keeps.
pub const HISTORY_LIMIT: usize = 20;

/// The kind of a recorded key event; an unknown wire value is shown as
/// a press.
#[derive(Clone, Copy, Debug, PartialEq, Eq, Structural)]
pub enum KeyValue {
    Release,
    Press,
    Repeat,
}

/// The event kind a raw wire value is recorded as.
pub open spec fn spec_event_kind(value: i32) -> KeyValue {
    if value == 0 {
        KeyValue::Release
    } else if value == 2 {
        KeyValue::Repeat
    } else {
        KeyValue::Press
    }
}

/// One entry of the key history.
#[derive(Clone, Copy, Debug, PartialEq, Eq, Structural)]
pub struct KeyEvent {
    pub code: u16,
    pub value: KeyValue,
}

/// The arrow glyph shown for an event kind.
pub open spec fn spec_arrow(value: KeyValue) -> Seq<char> {
    match value {
        KeyValue::Press => "↓"@,
        KeyValue::Release => "↑"@,
        KeyValue::Repeat => "↻"@,
    }
}

/// The one-character string for a decimal digit; anything else is empty.
pub open spec fn spec_digit(d: nat) -> Seq<char> {
    if d == 0 {
        "0"@
    } else if d == 1 {
        "1"@
    } else if d == 2 {
        "2"@
    } else if d == 3 {
        "3"@
    } else if d == 4 {
        "4"@
    } else if d == 5 {
        "5"@
    } else if d == 6 {
        "6"@
    } else if d == 7 {
        "7"@
    } else if d == 8 {
        "8"@
    } else if d == 9 {
        "9"@
    } else {
        Seq::empty()
    }
}

/// The decimal digits of a number, most significant first.
pub open spec fn spec_decimal(n: nat) -> Seq<char>
    decreases n,
{
    if n < 10 {
        spec_digit(n)
    } else {
        spec_decimal(n / 10) + spec_digit(n % 10)
    }
}

/// The decimal digits, zero-padded on the left to at least three.
pub open spec fn spec_decimal3(n: nat) -> Seq<char> {
    if n < 10 {
        "00"@ + spec_decimal(n)
    } else if n < 100 {
        "0"@ + spec_decimal(n)
    } else {
        spec_decimal(n)
    }
}

/// The line shown for one history entry: arrow, zero-padded code, name.
pub open spec fn spec_display(e: KeyEvent) -> Seq<char> {
    spec_arrow(e.value) + " "@ + spec_decimal3(e.code as nat) + " "@ + spec_key_name(e.code)
}

fn digit_str(d: u16) -> (r: &'static str)
    requires
        d < 10,
    ensures
        r@ == spec_digit(d as nat),
{
    match d {
        0 => "0",
        1 => "1",
        2 => "2",
        3 => "3",
        4 => "4",
        5 => "5",
        6 => "6",
        7 => "7",
        8 => "8",
        _ => "9",
    }
}

fn decimal_string(n: u16) -> (r: String)
    ensures
        r@ == spec_decimal(n as nat),
    decreases n,
{
    if n < 10 {
        digit_str(n).to_owned()
    } else {
        let mut s = decimal_string(n / 10);
        s.append(digit_str(n % 10));
        s
    }
}

fn decimal3_string(n: u16) -> (r: String)
    ensures
        r@ == spec_decimal3(n as nat),
{
    if n < 10 {
        let mut s = "00".to_owned();
        s.append(decimal_string(n).as_str());
        s
    } else if n < 100 {
        let mut s = "0".to_owned();
        s.append(decimal_string(n).as_str());
        s
    } else {
        decimal_string(n)
    }
}

impl KeyEvent {
    /// Records a key event from its code and raw wire value.
    pub fn new(code: u16, value: i32) -> (r: KeyEvent)
        ensures
            r.code == code,
            r.value == spec_event_kind(value),
    {
        KeyEvent {
            code,
            value: match value {
                0 => KeyValue::Release,
                1 => KeyValue::Press,
                2 => KeyValue::Repeat,
                _ => KeyValue::Press,
            },
        }
    }

    /// The line shown for this entry.
    pub fn display_string(&self) -> (r: String)
        ensures
            r@ == spec_display(*self),
    {
        let arrow: &'static str = match self.value {
            KeyValue::Press => "↓",
            KeyValue::Release => "↑",
            KeyValue::Repeat => "↻",
        };
        let mut s = arrow.to_owned();
        s.append(" ");
        s.append(decimal3_string(self.code).as_str());
        s.append(" ");
        s.append(get_key_name(self.code));
        s
    }
}

/// The label shown for a key code, `"?"` for one with no name.
pub open spec fn spec_key_name(code: u16) -> Seq<char> {
    match code {
        0 => "Reserved"@,
        1 => "Esc"@,
        2 => "1"@,
        3 => "2"@,
        4 => "3"@,
        5 => "4"@,
        6 => "5"@,
        7 => "6"@,
        8 => "7"@,
        9 => "8"@,
        10 => "9"@,
        11 => "0"@,
        12 => "-"@,
        13 => "="@,
        14 => "Back"@,
        15 => "Tab"@,
        16 => "Q"@,
        17 => "W"@,
        18 => "E"@,
        19 => "R"@,
        20 => "T"@,
        21 => "Y"@,
        22 => "U"@,
        23 => "I"@,
        24 => "O"@,
        25 => "P"@,
        26 => "["@,
        27 => "]"@,
        28 => "Enter"@,
        29 => "LCtrl"@,
        30 => "A"@,
        31 => "S"@,
        32 => "D"@,
        33 => "F"@,
        34 => "G"@,
        35 => "H"@,
        36 => "J"@,
        37 => "K"@,
        38 => "L"@,
        39 => ";"@,
        40 => "'"@,
        41 => "`"@,
        42 => "LShift"@,
        43 => "\\"@,
        44 => "Z"@,
        45 => "X"@,
        46 => "C"@,
        47 => "V"@,
        48 => "B"@,
        49 => "N"@,
        50 => "M"@,
        51 => ","@,
        52 => "."@,
        53 => "/"@,
        54 => "RShift"@,
        55 => "KP*"@,
        56 => "LAlt"@,
        57 => "Space"@,
        58 => "Caps"@,
        59 => "F1"@,
        60 => "F2"@,
        61 => "F3"@,
        62 => "F4"@,
        63 => "F5"@,
        64 => "F6"@,
        65 => "F7"@,
        66 => "F8"@,
        67 => "F9"@,
        68 => "F10"@,
        69 => "NumLock"@,
        70 => "ScrLock"@,
        71 => "KP7"@,
        72 => "KP8"@,
        73 => "KP9"@,
        74 => "KP-"@,
        75 => "KP4"@,
        76 => "KP5"@,
        77 => "KP6"@,
        78 => "KP+"@,
        79 => "KP1"@,
        80 => "KP2"@,
        81 => "KP3"@,
        82 => "KP0"@,
        83 => "KP."@,
        84 => "OEM102"@,
        85 => "F11"@,
        86 => "F12"@,
        87 => "F11"@,
        88 => "F12"@,
        89 => "Kata"@,
        90 => "Hira"@,
        91 => "Henkan"@,
        92 => "Kana"@,
        93 => "Muhen"@,
        94 => "KPEnt"@,
        95 => "RCtrl"@,
        96 => "KP/"@,
        97 => "SysRq"@,
        98 => "RAlt"@,
        99 => "LFn"@,
        100 => "Home"@,
        101 => "Up"@,
        102 => "PgUp"@,
        103 => "Up"@,
        104 => "Right"@,
        105 => "End"@,
        106 => "Down"@,
        107 => "PgDn"@,
        108 => "Ins"@,
        109 => "Del"@,
        110 => "Macro"@,
        111 => "Mute"@,
        112 => "Vol-"@,
        113 => "Vol+"@,
        114 => "Power"@,
        115 => "KP="@,
        116 => "KP+/-"@,
        117 => "Pause"@,
        118 => "Scale"@,
        119 => "KP,"@,
        120 => "RO"@,
        125 => "Menu"@,
        _ => "?"@,
    }
}

/// The label shown for a key code, `"?"` for one with no name.
pub fn get_key_name(code: u16) -> (r: &'static str)
    ensures
        r@ == spec_key_name(code),
{
    match code {
        0 => "Reserved",
        1 => "Esc",
        2 => "1",
        3 => "2",
        4 => "3",
        5 => "4",
        6 => "5",
        7 => "6",
        8 => "7",
        9 => "8",
        10 => "9",
        11 => "0",
        12 => "-",
        13 => "=",
        14 => "Back",
        15 => "Tab",
        16 => "Q",
        17 => "W",
        18 => "E",
        19 => "R",
        20 => "T",
        21 => "Y",
        22 => "U",
        23 => "I",
        24 => "O",
        25 => "P",
        26 => "[",
        27 => "]",
        28 => "Enter",
        29 => "LCtrl",
        30 => "A",
        31 => "S",
        32 => "D",
        33 => "F",
        34 => "G",
        35 => "H",
        36 => "J",
        37 => "K",
        38 => "L",
        39 => ";",
        40 => "'",
        41 => "`",
        42 => "LShift",
        43 => "\\",
        44 => "Z",
        45 => "X",
        46 => "C",
        47 => "V",
        48 => "B",
        49 => "N",
        50 => "M",
        51 => ",",
        52 => ".",
        53 => "/",
        54 => "RShift",
        55 => "KP*",
        56 => "LAlt",
        57 => "Space",
        58 => "Caps",
        59 => "F1",
        60 => "F2",
        61 => "F3",
        62 => "F4",
        63 => "F5",
        64 => "F6",
        65 => "F7",
        66 => "F8",
        67 => "F9",
        68 => "F10",
        69 => "NumLock",
        70 => "ScrLock",
        71 => "KP7",
        72 => "KP8",
        73 => "KP9",
        74 => "KP-",
        75 => "KP4",
        76 => "KP5",
        77 => "KP6",
        78 => "KP+",
        79 => "KP1",
        80 => "KP2",
        81 => "KP3",
        82 => "KP0",
        83 => "KP.",
        84 => "OEM102",
        85 => "F11",
        86 => "F12",
        87 => "F11",
        88 => "F12",
        89 => "Kata",
        90 => "Hira",
        91 => "Henkan",
        92 => "Kana",
        93 => "Muhen",
        94 => "KPEnt",
        95 => "RCtrl",
        96 => "KP/",
        97 => "SysRq",
        98 => "RAlt",
        99 => "LFn",
        100 => "Home",
        101 => "Up",
        102 => "PgUp",
        103 => "Up",
        104 => "Right",
        105 => "End",
        106 => "Down",
        107 => "PgDn",
        108 => "Ins",
        109 => "Del",
        110 => "Macro",
        111 => "Mute",
        112 => "Vol-",
        113 => "Vol+",
        114 => "Power",
        115 => "KP=",
        116 => "KP+/-",
        117 => "Pause",
        118 => "Scale",
        119 => "KP,",
        120 => "RO",
        125 => "Menu",
        _ => "?",
    }
}

/// What the history becomes when an entry arrives: newest first, oldest
/// dropped past the limit.
pub open spec fn spec_history_push(h: Seq<KeyEvent>, e: KeyEvent) -> Seq<KeyEvent> {
    let grown = seq![e] + h;
    if grown.len() > HISTORY_LIMIT {
        grown.drop_last()
    } else {
        grown
    }
}

/// The status label shown for a machine state.
pub open spec fn spec_state_text(state: State) -> Seq<char> {
    match state {
        State::Idle => "IDLE"@,
        State::Decide => "DECIDE"@,
        State::Shift => "FN MODE"@,
    }
}

/// The observer-side application model: machine state as last reported,
/// recent key events, known devices and the edited configuration.
pub struct SpacefnApp {
    pub current_state: State,
    pub key_history: Vec<KeyEvent>,
    pub devices: Vec<InputDeviceInfo>,
    pub selected_device: Option<usize>,
    pub config: Config,
    pub show_config: bool,
    pub error_message: Option<String>,
    pub new_key: (u32, u32, u32),
}

impl SpacefnApp {
    /// A fresh model: idle, empty history, no devices known yet and an
    /// empty configuration.
    pub fn new() -> (r: Self)
        ensures
            r.current_state == State::Idle,
            r.key_history@ == Seq::<KeyEvent>::empty(),
            r.devices@ == Seq::<InputDeviceInfo>::empty(),
            r.selected_device is None,
            r.config.keyboard@ == Seq::<char>::empty(),
            r.config.keys_map@ == Seq::<[u32; 3]>::empty(),
            r.show_config == false,
            r.error_message is None,
            r.new_key == (0u32, 0u32, 0u32),
    {
        SpacefnApp {
            current_state: State::Idle,
            key_history: Vec::new(),
            devices: Vec::new(),
            selected_device: None,
            config: Config::default(),
            show_config: false,
            error_message: None,
            new_key: (0, 0, 0),
        }
    }

    pub fn update_state(&mut self, state: State)
        ensures
            *final(self) == (SpacefnApp { current_state: state, ..*old(self) }),
    {
        self.current_state = state;
    }

    /// Records a press of the code at the head of the history.
    pub fn add_key_event(&mut self, code: u16)
        ensures
            *final(self) == (SpacefnApp {
                key_history: final(self).key_history,
                ..*old(self)
            }),
            final(self).key_history@ == spec_history_push(
                old(self).key_history@,
                (KeyEvent { code, value: KeyValue::Press }),
            ),
    {
        self.add_key_event_full(code, 1);
    }

    /// Records a key event at the head of the history, dropping the
    /// oldest entry past the limit.
    pub fn add_key_event_full(&mut self, code: u16, value: i32)
        ensures
            *final(self) == (SpacefnApp {
                key_history: final(self).key_history,
                ..*old(self)
            }),
            final(self).key_history@ == spec_history_push(
                old(self).key_history@,
                (KeyEvent { code, value: spec_event_kind(value) }),
            ),
    {
        let event = KeyEvent::new(code, value);
        self.key_history.insert(0, event);
        proof {
            assert(self.key_history@ =~= seq![event] + old(self).key_history@);
        }
        if self.key_history.len() > HISTORY_LIMIT {
            self.key_history.pop();
        }
    }

    pub fn set_error(&mut self, error: String)
        ensures
            *final(self) == (SpacefnApp { error_message: Some(error), ..*old(self) }),
    {
        self.error_message = Some(error);
    }

    pub fn clear_error(&mut self)
        ensures
            *final(self) == (SpacefnApp { error_message: None, ..*old(self) }),
    {
        self.error_message = None;
    }

    /// Takes the outcome of loading the configuration afresh: a loaded
    /// configuration replaces the current one and clears any error; a
    /// load failure keeps the configuration and shows the failure.
    pub fn reload_config(&mut self, loaded: Result<Config, String>)
        ensures
            loaded matches Ok(c) ==> *final(self) == (SpacefnApp {
                config: c,
                error_message: None,
                ..*old(self)
            }),
            loaded matches Err(e) ==> {
                &&& *final(self) == (SpacefnApp {
                    error_message: final(self).error_message,
                    ..*old(self)
                })
                &&& final(self).error_message matches Some(m)
                    && m@ == "Failed to reload config: "@ + e@
            },
    {
        match loaded {
            Ok(config) => {
                self.config = config;
                self.clear_error();
            },
            Err(e) => {
                let mut message = "Failed to reload config: ".to_owned();
                message.append(e.as_str());
                self.set_error(message);
            },
        }
    }

    /// The status label shown for the current state.
    pub fn state_text(&self) -> (r: &'static str)
        ensures
            r@ == spec_state_text(self.current_state),
    {
        match self.current_state {
            State::Idle => "IDLE",
            State::Decide => "DECIDE",
            State::Shift => "FN MODE",
        }
    }
}

impl Default for SpacefnApp {
    fn default() -> (r: Self)
        ensures
            r.current_state == State::Idle,
            r.key_history@ == Seq::<KeyEvent>::empty(),
            r.error_message is None,
    {
        SpacefnApp::new()
    }
}

} // verus!
