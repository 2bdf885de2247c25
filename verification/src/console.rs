//! The console: which of the two outputs, serial line and screen, get the
//! kernel's text.

use vstd::prelude::*;

verus! {

/// The port of the serial line's status register.
pub const LINE_STATUS_PORT: u16 = 0x3FD;

/// The bits of the line status that a serial port sets when it is there:
/// transmitter holding register empty, and transmitter empty.
pub const TRANSMITTER_BITS: u8 = 0x60;

/// Where the console writes.
#[derive(Debug, Clone, Copy, PartialEq, Eq, Structural)]
pub enum ConsoleMode {
    /// To the serial line only.
    Serial,
    /// To the screen only.
    Vga,
    /// To both.
    Both,
}

/// Whether a line status read from `LINE_STATUS_PORT` shows a serial port.
pub open spec fn serial_present(line_status: u8) -> bool {
    line_status & TRANSMITTER_BITS != 0
}

/// The mode that fits a machine with the given line status.
pub open spec fn mode_for(line_status: u8) -> ConsoleMode {
    if serial_present(line_status) {
        ConsoleMode::Both
    } else {
        ConsoleMode::Vga
    }
}

/// The console.
#[derive(Debug, Clone, Copy)]
pub struct Console {
    mode: ConsoleMode,
}

impl Console {
    /// The mode in which the console writes.
    pub closed spec fn view(&self) -> ConsoleMode {
        self.mode
    }

    /// A console that writes to both outputs.
    pub fn new() -> (console: Self)
        ensures
            console@ == ConsoleMode::Both,
    {
        Console { mode: ConsoleMode::Both }
    }

    /// The mode in which the console writes.
    pub fn mode(&self) -> (mode: ConsoleMode)
        ensures
            mode == self@,
    {
        self.mode
    }

    /// Whether a line status read from `LINE_STATUS_PORT` shows a serial
    /// port.
    pub fn detect_serial(line_status: u8) -> (present: bool)
        ensures
            present == serial_present(line_status),
    {
        (line_status & TRANSMITTER_BITS) != 0
    }

    /// The mode that fits a machine with the given line status: both
    /// outputs if it has a serial port, the screen alone if not. The console
    /// itself keeps its mode.
    pub fn update_mode(&self, line_status: u8) -> (mode: ConsoleMode)
        ensures
            mode == mode_for(line_status),
    {
        if Console::detect_serial(line_status) {
            ConsoleMode::Both
        } else {
            ConsoleMode::Vga
        }
    }

    /// Whether text goes to the serial line.
    pub fn writes_serial(&self) -> (yes: bool)
        ensures
            yes == (self@ == ConsoleMode::Serial || self@ == ConsoleMode::Both),
    {
        match self.mode {
            ConsoleMode::Serial => true,
            ConsoleMode::Vga => false,
            ConsoleMode::Both => true,
        }
    }

    /// Whether text goes to the screen.
    pub fn writes_vga(&self) -> (yes: bool)
        ensures
            yes == (self@ == ConsoleMode::Vga || self@ == ConsoleMode::Both),
    {
        match self.mode {
            ConsoleMode::Serial => false,
            ConsoleMode::Vga => true,
            ConsoleMode::Both => true,
        }
    }
}

/// Sets the console up: it writes to both outputs.
pub fn init() -> (console: Console)
    ensures
        console@ == ConsoleMode::Both,
{
    Console::new()
}

} // verus!
