//! What the host decides around the interpreter: which keyboard key is which
//! pad key, what an input event does, when a cycle or a frame is due, and
//! which squares make up a frame. The window, the clock and the program file
//! belong to the host itself.

use vstd::prelude::*;
use vstd::string::StringExecFns;
use crate::display::{cell, Display};
use crate::keypad::Keypad;
use crate::machine::RuntimeFault;

verus! {

/// `std::io::Error`, as reading a program file reports it. It is carried,
/// never looked into.
#[verifier::external_type_specification]
#[verifier::external_body]
pub struct ExIoError(std::io::Error);

/// Why an emulation ended early.
pub enum EmulatorError {
    /// The program could not be read.
    ReadProgramError(std::io::Error),
    /// A cycle faulted; the text says how.
    RuntimeError(String),
}

/// Side of the square that shows one pixel, in window pixels.
pub const SCALE: usize = 8;

/// Nanoseconds between two cycles: 500 cycles a second.
pub const CYCLE_PERIOD: u64 = 1_000_000_000 / 500;

/// Nanoseconds between two frames: 60 frames a second.
pub const FRAME_PERIOD: u64 = 1_000_000_000 / 60;

/// Key code of the key that ends the emulation.
pub const ESCAPE: i32 = 27;

/// The pad key that a keyboard key stands for, by the key's code (for a
/// character key, the code of its lower-case character). The four rows
/// `1234`, `qwer`, `asdf`, `zxcv` of the keyboard are the four rows
/// `123C`, `456D`, `789E`, `A0BF` of the pad.
pub open spec fn pad_key(code: int) -> Option<int> {
    if code == '1' as int {
        Some(0x1)
    } else if code == '2' as int {
        Some(0x2)
    } else if code == '3' as int {
        Some(0x3)
    } else if code == '4' as int {
        Some(0xC)
    } else if code == 'q' as int {
        Some(0x4)
    } else if code == 'w' as int {
        Some(0x5)
    } else if code == 'e' as int {
        Some(0x6)
    } else if code == 'r' as int {
        Some(0xD)
    } else if code == 'a' as int {
        Some(0x7)
    } else if code == 's' as int {
        Some(0x8)
    } else if code == 'd' as int {
        Some(0x9)
    } else if code == 'f' as int {
        Some(0xE)
    } else if code == 'z' as int {
        Some(0xA)
    } else if code == 'x' as int {
        Some(0x0)
    } else if code == 'c' as int {
        Some(0xB)
    } else if code == 'v' as int {
        Some(0xF)
    } else {
        None
    }
}

/// The pad key that the keyboard key with code `code` stands for, if any.
pub fn key_index(code: i32) -> (key: Option<usize>)
    ensures
        match key {
            Some(k) => pad_key(code as int) == Some(k as int) && k < 16,
            None => pad_key(code as int) is None,
        },
{
    match code {
        49 => Some(0x1),
        50 => Some(0x2),
        51 => Some(0x3),
        52 => Some(0xC),
        113 => Some(0x4),
        119 => Some(0x5),
        101 => Some(0x6),
        114 => Some(0xD),
        97 => Some(0x7),
        115 => Some(0x8),
        100 => Some(0x9),
        102 => Some(0xE),
        122 => Some(0xA),
        120 => Some(0x0),
        99 => Some(0xB),
        118 => Some(0xF),
        _ => None,
    }
}

/// What the window reports, reduced to what the emulation acts on. A key
/// is named by its code.
#[derive(Clone, Copy, Debug, PartialEq, Eq, Structural)]
pub enum InputEvent {
    /// The window was closed.
    Quit,
    /// A key went down.
    KeyDown(i32),
    /// A key came up.
    KeyUp(i32),
    /// Anything else.
    Other,
}

/// Whether `event` ends the emulation: the window was closed, or the
/// escape key went down.
pub open spec fn ends_emulation(event: InputEvent) -> bool {
    event == InputEvent::Quit || event == InputEvent::KeyDown(ESCAPE)
}

/// The pad after `event`: a key of the keyboard that stands for a pad key
/// presses it on going down and releases it on coming up.
pub open spec fn keys_after(keys: Seq<bool>, event: InputEvent) -> Seq<bool> {
    match event {
        InputEvent::KeyDown(code) => match pad_key(code as int) {
            Some(k) => keys.update(k, true),
            None => keys,
        },
        InputEvent::KeyUp(code) => match pad_key(code as int) {
            Some(k) => keys.update(k, false),
            None => keys,
        },
        _ => keys,
    }
}

/// Applies `event` to the pad and tells whether the emulation is to end.
pub fn handle_event(keypad: &mut Keypad, event: InputEvent) -> (quit: bool)
    ensures
        quit == ends_emulation(event),
        final(keypad)@ == keys_after(old(keypad)@, event),
{
    match event {
        InputEvent::Quit => true,
        InputEvent::KeyDown(code) => {
            if code == ESCAPE {
                return true;
            }
            if let Some(index) = key_index(code) {
                keypad.press(index);
            }
            false
        },
        InputEvent::KeyUp(code) => {
            if let Some(index) = key_index(code) {
                keypad.release(index);
            }
            false
        },
        InputEvent::Other => false,
    }
}

/// Paces something that is to happen at most once per period. Times are
/// nanoseconds on the host's clock.
pub struct Ticker {
    /// The time that must have passed before the next turn.
    pub period: u64,
    /// When the last turn was taken.
    pub last: u64,
}

impl Ticker {
    /// A ticker whose last turn counts as taken at `now`.
    pub fn new(period: u64, now: u64) -> (ticker: Ticker)
        ensures
            ticker.period == period,
            ticker.last == now,
    {
        Ticker { period, last: now }
    }

    /// Whether a turn is due at `now`: more than a period has passed since
    /// the last one. A turn that is due counts as taken at `now`.
    pub fn due(&mut self, now: u64) -> (due: bool)
        ensures
            due == (now - old(self).last > old(self).period),
            final(self).period == old(self).period,
            final(self).last == (if due { now } else { old(self).last }),
    {
        if now > self.last && now - self.last > self.period {
            self.last = now;
            true
        } else {
            false
        }
    }
}

/// A filled square of the window.
#[derive(Clone, Copy, Debug, PartialEq, Eq, Structural)]
pub struct Square {
    /// Left edge, in window pixels.
    pub x: i32,
    /// Top edge, in window pixels.
    pub y: i32,
    /// Length of a side, in window pixels.
    pub side: u32,
}

/// The square that shows the pixel at position `c` of the plane.
pub open spec fn square_at(c: int) -> Square {
    Square { x: ((c % 64) * 8) as i32, y: ((c / 64) * 8) as i32, side: 8 }
}

/// The squares of the lit pixels among the first `cells` positions of the
/// plane, in row-major order.
pub open spec fn lit_squares(screen: Seq<bool>, cells: int) -> Seq<Square>
    decreases cells,
{
    if cells <= 0 {
        Seq::empty()
    } else if screen[cells - 1] {
        lit_squares(screen, cells - 1).push(square_at(cells - 1))
    } else {
        lit_squares(screen, cells - 1)
    }
}

/// The squares to fill for a frame: one for each lit pixel, row by row.
pub fn frame(display: &Display) -> (squares: Vec<Square>)
    ensures
        squares@ == lit_squares(display@, 2048),
{
    let mut squares: Vec<Square> = Vec::new();
    let mut y: usize = 0;
    while y < 32
        invariant
            y <= 32,
            squares@ == lit_squares(display@, y * 64),
        decreases 32 - y,
    {
        let mut x: usize = 0;
        while x < 64
            invariant
                y < 32,
                x <= 64,
                squares@ == lit_squares(display@, y * 64 + x),
            decreases 64 - x,
        {
            if display.get_pixel(x, y) != 0 {
                let square = Square {
                    x: (x * SCALE) as i32,
                    y: (y * SCALE) as i32,
                    side: SCALE as u32,
                };
                assert(square == square_at(cell(x as int, y as int)));
                squares.push(square);
            }
            x += 1;
        }
        y += 1;
    }
    squares
}

/// The character for the hexadecimal digit `d`, in lower case.
pub open spec fn hex_digit(d: int) -> char {
    if d < 10 {
        ('0' as int + d) as char
    } else {
        ('a' as int + d - 10) as char
    }
}

/// The hexadecimal digits of `n`, most significant first, without leading
/// zeros.
pub open spec fn hex_digits(n: nat) -> Seq<char>
    decreases n,
{
    if n < 16 {
        seq![hex_digit(n as int)]
    } else {
        hex_digits(n / 16).push(hex_digit((n % 16) as int))
    }
}

/// What a fault reads as.
pub open spec fn fault_text(fault: RuntimeFault) -> Seq<char> {
    match fault {
        RuntimeFault::UnsupportedFeature => "Call to RCA 1802 programs is not supported"@,
        RuntimeFault::UnknownOpcode(word) => "Unknown operation 0x"@ + hex_digits(word as nat),
        RuntimeFault::StackOverflow => "Call with a full stack"@,
        RuntimeFault::StackUnderflow => "Return with an empty stack"@,
        RuntimeFault::AddressOutOfRange => "Address beyond the end of memory"@,
    }
}

/// The one-character text of the hexadecimal digit `d`.
fn hex_digit_text(d: u16) -> (text: &'static str)
    requires
        d < 16,
    ensures
        text@ == seq![hex_digit(d as int)],
{
    proof {
        reveal_strlit("0");
        reveal_strlit("1");
        reveal_strlit("2");
        reveal_strlit("3");
        reveal_strlit("4");
        reveal_strlit("5");
        reveal_strlit("6");
        reveal_strlit("7");
        reveal_strlit("8");
        reveal_strlit("9");
        reveal_strlit("a");
        reveal_strlit("b");
        reveal_strlit("c");
        reveal_strlit("d");
        reveal_strlit("e");
        reveal_strlit("f");
    }
    let text = match d {
        0 => "0",
        1 => "1",
        2 => "2",
        3 => "3",
        4 => "4",
        5 => "5",
        6 => "6",
        7 => "7",
        8 => "8",
        9 => "9",
        10 => "a",
        11 => "b",
        12 => "c",
        13 => "d",
        14 => "e",
        _ => "f",
    };
    assert(text@ =~= seq![hex_digit(d as int)]);
    text
}

impl RuntimeFault {
    /// A line of text that says what went wrong.
    pub fn message(&self) -> (text: String)
        ensures
            text@ == fault_text(*self),
    {
        match self {
            RuntimeFault::UnsupportedFeature => String::from_str(
                "Call to RCA 1802 programs is not supported",
            ),
            RuntimeFault::UnknownOpcode(word) => {
                let word = *word;
                let ghost n = word as nat;
                let ghost head = "Unknown operation 0x"@;
                let mut text = String::from_str("Unknown operation 0x");
                if word >= 0x1000 {
                    text.append(hex_digit_text(word / 0x1000));
                    assert(text@ =~= head + hex_digits(n / 4096));
                }
                if word >= 0x100 {
                    text.append(hex_digit_text((word / 0x100) % 16));
                    proof {
                        if n >= 4096 {
                            assert((n / 256) / 16 == n / 4096);
                        }
                        assert(text@ =~= head + hex_digits(n / 256));
                    }
                }
                if word >= 0x10 {
                    text.append(hex_digit_text((word / 0x10) % 16));
                    proof {
                        if n >= 256 {
                            assert((n / 16) / 16 == n / 256);
                        }
                        assert(text@ =~= head + hex_digits(n / 16));
                    }
                }
                text.append(hex_digit_text(word % 16));
                assert(text@ =~= head + hex_digits(n));
                text
            },
            RuntimeFault::StackOverflow => String::from_str("Call with a full stack"),
            RuntimeFault::StackUnderflow => String::from_str("Return with an empty stack"),
            RuntimeFault::AddressOutOfRange => String::from_str("Address beyond the end of memory"),
        }
    }
}

impl EmulatorError {
    /// The error that ends an emulation whose cycle faulted with `fault`.
    pub fn from_fault(fault: RuntimeFault) -> (error: EmulatorError)
        ensures
            error matches EmulatorError::RuntimeError(text) && text@ == fault_text(fault),
    {
        EmulatorError::RuntimeError(fault.message())
    }
}

} // verus!
