//! The line editor as a state machine: each input byte updates the edit
//! buffer and says what the terminal should show or do. Reading bytes and
//! writing to the terminal are the caller's part.

use vstd::prelude::*;
use crate::text::push_char;

verus! {

/// The prompt printed before each line.
pub const PROMPT: &'static str = "> ";

/// Erases the character left of the cursor: left, blank, left.
pub const ERASE: &'static str = "\x1b[D \x1b[D";

/// What an input byte means to the editor.
#[derive(PartialEq, Eq, Structural, Clone, Copy, Debug)]
pub enum Key {
    /// Ctrl-C: ends the session.
    Interrupt,
    /// Carriage return: submits the line.
    Enter,
    /// Backspace or DEL.
    Erase,
    /// Tab: asks for a completion.
    Complete,
    /// Another control byte, shown by its name.
    Control(u8),
    /// Any other byte, taken into the line.
    Text(u8),
}

pub open spec fn key_of(b: u8) -> Key {
    if b == 0x03 {
        Key::Interrupt
    } else if b == 0x0D {
        Key::Enter
    } else if b == 0x08 || b == 0x7F {
        Key::Erase
    } else if b == 0x09 {
        Key::Complete
    } else if b < 0x20 {
        Key::Control(b)
    } else {
        Key::Text(b)
    }
}

pub fn classify(b: u8) -> (r: Key)
    ensures
        r == key_of(b),
{
    if b == 0x03 {
        Key::Interrupt
    } else if b == 0x0D {
        Key::Enter
    } else if b == 0x08 || b == 0x7F {
        Key::Erase
    } else if b == 0x09 {
        Key::Complete
    } else if b < 0x20 {
        Key::Control(b)
    } else {
        Key::Text(b)
    }
}

/// The ASCII abbreviation of a control byte.
pub open spec fn control_name_of(b: u8) -> Seq<char> {
    if b == 0x00 { "NUL"@ }
    else if b == 0x01 { "SOH"@ }
    else if b == 0x02 { "STX"@ }
    else if b == 0x03 { "ETX"@ }
    else if b == 0x04 { "EOT"@ }
    else if b == 0x05 { "ENQ"@ }
    else if b == 0x06 { "ACK"@ }
    else if b == 0x07 { "BEL"@ }
    else if b == 0x08 { "BS"@ }
    else if b == 0x09 { "HT"@ }
    else if b == 0x0A { "LF"@ }
    else if b == 0x0B { "VT"@ }
    else if b == 0x0C { "FF"@ }
    else if b == 0x0D { "CR"@ }
    else if b == 0x0E { "SO"@ }
    else if b == 0x0F { "SI"@ }
    else if b == 0x10 { "DLE"@ }
    else if b == 0x11 { "DC1"@ }
    else if b == 0x12 { "DC2"@ }
    else if b == 0x13 { "DC3"@ }
    else if b == 0x14 { "DC4"@ }
    else if b == 0x15 { "NAK"@ }
    else if b == 0x16 { "SYN"@ }
    else if b == 0x17 { "ETB"@ }
    else if b == 0x18 { "CAN"@ }
    else if b == 0x19 { "EM"@ }
    else if b == 0x1A { "SUB"@ }
    else if b == 0x1B { "ESC"@ }
    else if b == 0x1C { "FS"@ }
    else if b == 0x1D { "GS"@ }
    else if b == 0x1E { "RS"@ }
    else { "US"@ }
}

pub fn control_name(b: u8) -> (r: &'static str)
    requires
        b < 0x20,
    ensures
        r@ == control_name_of(b),
{
    if b == 0x00 { "NUL" }
    else if b == 0x01 { "SOH" }
    else if b == 0x02 { "STX" }
    else if b == 0x03 { "ETX" }
    else if b == 0x04 { "EOT" }
    else if b == 0x05 { "ENQ" }
    else if b == 0x06 { "ACK" }
    else if b == 0x07 { "BEL" }
    else if b == 0x08 { "BS" }
    else if b == 0x09 { "HT" }
    else if b == 0x0A { "LF" }
    else if b == 0x0B { "VT" }
    else if b == 0x0C { "FF" }
    else if b == 0x0D { "CR" }
    else if b == 0x0E { "SO" }
    else if b == 0x0F { "SI" }
    else if b == 0x10 { "DLE" }
    else if b == 0x11 { "DC1" }
    else if b == 0x12 { "DC2" }
    else if b == 0x13 { "DC3" }
    else if b == 0x14 { "DC4" }
    else if b == 0x15 { "NAK" }
    else if b == 0x16 { "SYN" }
    else if b == 0x17 { "ETB" }
    else if b == 0x18 { "CAN" }
    else if b == 0x19 { "EM" }
    else if b == 0x1A { "SUB" }
    else if b == 0x1B { "ESC" }
    else if b == 0x1C { "FS" }
    else if b == 0x1D { "GS" }
    else if b == 0x1E { "RS" }
    else { "US" }
}

/// What the caller does after a byte was fed to the editor.
pub enum Action {
    /// Restore the terminal and end the session.
    Quit,
    /// Move to a new line and dispatch this completed line.
    Submit(String),
    /// Show this text.
    Echo(String),
    /// Compute a completion of the buffer and hand its suffix to
    /// `accept_completion`.
    Complete,
    /// Nothing to do.
    Ignore,
}

/// The edit buffer of the line being composed: exactly what was echoed
/// since the prompt.
pub struct LineEditor {
    buffer: String,
}

impl View for LineEditor {
    type V = Seq<char>;

    closed spec fn view(&self) -> Seq<char> {
        self.buffer@
    }
}

impl LineEditor {
    pub fn new() -> (r: LineEditor)
        ensures
            r@ == Seq::<char>::empty(),
    {
        LineEditor { buffer: String::new() }
    }

    pub fn buffer(&self) -> (r: &str)
        ensures
            r@ == self@,
    {
        self.buffer.as_str()
    }

    /// Takes one input byte.
    pub fn feed(&mut self, byte: u8) -> (r: Action)
        ensures
            key_of(byte) is Interrupt ==> r is Quit && final(self)@ == old(self)@,
            key_of(byte) is Enter ==> r is Submit && r->Submit_0@ == old(self)@
                && final(self)@ == Seq::<char>::empty(),
            key_of(byte) is Erase && old(self)@.len() == 0 ==> r is Ignore
                && final(self)@ == old(self)@,
            key_of(byte) is Erase && old(self)@.len() > 0 ==> r is Echo && r->Echo_0@ == ERASE@
                && final(self)@ == old(self)@.drop_last(),
            key_of(byte) is Complete ==> r is Complete && final(self)@ == old(self)@,
            key_of(byte) is Control ==> r is Echo && r->Echo_0@ == control_name_of(byte)
                && final(self)@ == old(self)@,
            key_of(byte) is Text ==> r is Echo && r->Echo_0@ == seq![byte as char]
                && final(self)@ == old(self)@.push(byte as char),
    {
        match classify(byte) {
            Key::Interrupt => Action::Quit,
            Key::Enter => {
                let line = self.buffer.clone();
                self.buffer = String::new();
                Action::Submit(line)
            },
            Key::Erase => {
                let n = self.buffer.as_str().unicode_len();
                if n == 0 {
                    Action::Ignore
                } else {
                    self.buffer = String::from_str(self.buffer.as_str().substring_char(0, n - 1));
                    Action::Echo(String::from_str(ERASE))
                }
            },
            Key::Complete => Action::Complete,
            Key::Control(b) => Action::Echo(String::from_str(control_name(b))),
            Key::Text(b) => {
                let c = b as char;
                push_char(&mut self.buffer, c);
                let mut shown = String::new();
                push_char(&mut shown, c);
                Action::Echo(shown)
            },
        }
    }

    /// Appends a completion suffix to the buffer and returns the text that
    /// redraws the line: the prompt and the whole buffer.
    pub fn accept_completion(&mut self, suffix: &str) -> (r: String)
        ensures
            final(self)@ == old(self)@ + suffix@,
            r@ == PROMPT@ + final(self)@,
    {
        self.buffer.append(suffix);
        let mut shown = String::from_str(PROMPT);
        shown.append(self.buffer.as_str());
        shown
    }
}

} // verus!
