//! The commands of the console: what a word asks for, and what is answered.

use vstd::prelude::*;
use vstd::slice::slice_subrange;
use vstd::string::StringSliceAdditionalSpecFns;
use crate::ascii::{LOWER_H, LOWER_L, LOWER_R, LOWER_W, UPPER_H, UPPER_L};
use crate::atoi::{atoi_u8, parse_u8};
use crate::itoa::{decimal_digits, itoa_u8};
use crate::pins::{Level, PinBank, PinState};
use crate::serial::Serial;

verus! {

/// The text of the help command.
pub const HELP: &'static str = "Rust-Arduino Pin Tester help:\r
Use Backspace or ^H to erase last character. Use ^R to recall last line.\r
\r
Commands:\r
  h - this help\r
  iPIN - turn pin into input only pin TODO\r
  oPIN - turn pin into output only pin TODO\r
  rPIN - read value of an input pin\r
  wPINVAL - write value to an output pin. VAL can be l/L or h/H.\r
";

/// What every error report begins with: the word `ERROR:` in bold on red, and
/// a space.
pub const ERROR_MARK: &'static str = "\x1B[1;41mERROR:\x1B[0m ";

/// What every report ends with: carriage return and line feed.
pub const LINE_BREAK: &'static str = "\r\n";

/// What a word of a line asks for, once it was found in order.
#[derive(Clone, Copy, Debug, PartialEq, Eq, Structural)]
pub enum Command {
    /// Show the help text.
    Help,
    /// Report the level of a pin that can be read.
    ReadPin(u8),
    /// Drive a pin that is a digital output.
    WriteOutput(u8, Level),
    /// Drive a pin that is in open drain mode.
    WriteTriState(u8, Level),
    /// The word begins with no command letter.
    Unknown,
}

/// Why a word was not carried out.
#[derive(Clone, Copy, Debug, PartialEq, Eq, Structural)]
pub enum CommandError {
    /// The pin number is not a number, or no pin has that number.
    IncorrectPinNumber,
    /// The level is none of `l`, `L`, `h`, `H`.
    IncorrectOutputValue,
    /// The pin is reserved.
    PinReserved,
    /// The pin is a digital output, whose level is not read back.
    NotInReadingMode,
    /// The pin is an input.
    NotInWritingMode,
    /// The word begins with no command letter.
    UnknownCommand,
}

/// What is reported to the sender in answer to one word.
#[derive(Clone, Copy, Debug, PartialEq, Eq, Structural)]
pub enum Response {
    /// The help text.
    Help,
    /// The pin of that number is at logic high, or is not.
    Level(u8, bool),
    /// The pin of that number was driven.
    Done(u8),
    /// The word was not carried out.
    Error(CommandError),
}

/// The level that a level character stands for.
pub open spec fn level_of(b: u8) -> Option<Level> {
    if b == LOWER_L || b == UPPER_L {
        Some(Level::Low)
    } else if b == LOWER_H || b == UPPER_H {
        Some(Level::High)
    } else {
        None
    }
}

/// The pin that `digits` names: their value, where they are a decimal number
/// and `pins` has a pin of that number.
pub open spec fn pin_of(digits: Seq<u8>, pins: Seq<PinState>) -> Option<u8> {
    match parse_u8(digits) {
        Some(n) => if n < pins.len() {
            Some(n)
        } else {
            None
        },
        None => None,
    }
}

/// What a read command asks for, `digits` being what follows its letter.
pub open spec fn read_of(digits: Seq<u8>, pins: Seq<PinState>) -> Result<Command, CommandError> {
    match pin_of(digits, pins) {
        None => Err(CommandError::IncorrectPinNumber),
        Some(n) => {
            let state = pins[n as int];
            if state is Reserved {
                Err(CommandError::PinReserved)
            } else if state.readable() {
                Ok(Command::ReadPin(n))
            } else {
                Err(CommandError::NotInReadingMode)
            }
        },
    }
}

/// What a write command asks for, `rest` being what follows its letter: the
/// digits of a pin number, and one level character behind them.
pub open spec fn write_of(rest: Seq<u8>, pins: Seq<PinState>) -> Result<Command, CommandError> {
    let digits = if rest.len() > 0 {
        rest.drop_last()
    } else {
        rest
    };
    match pin_of(digits, pins) {
        None => Err(CommandError::IncorrectPinNumber),
        Some(n) => match level_of(rest.last()) {
            None => Err(CommandError::IncorrectOutputValue),
            Some(level) => match pins[n as int] {
                PinState::Reserved => Err(CommandError::PinReserved),
                PinState::Output(_) => Ok(Command::WriteOutput(n, level)),
                PinState::TriState(_) => Ok(Command::WriteTriState(n, level)),
                _ => Err(CommandError::NotInWritingMode),
            },
        },
    }
}

/// What the word `word` asks for, given the pins as they are. Its first byte
/// chooses the command; an empty word, or any other first byte, is unknown.
pub open spec fn command_of(word: Seq<u8>, pins: Seq<PinState>) -> Result<Command, CommandError> {
    if word.len() == 0 {
        Ok(Command::Unknown)
    } else if word[0] == LOWER_H {
        Ok(Command::Help)
    } else if word[0] == LOWER_R {
        read_of(word.skip(1), pins)
    } else if word[0] == LOWER_W {
        write_of(word.skip(1), pins)
    } else {
        Ok(Command::Unknown)
    }
}

impl CommandError {
    /// The message that tells the sender of this error.
    pub open spec fn message_text(self) -> &'static str {
        match self {
            CommandError::IncorrectPinNumber => "Incorrect pin number.",
            CommandError::IncorrectOutputValue => "Incorrect pin output value. Must be L or H, e.g. w2h.",
            CommandError::PinReserved => "Pin is reserved.",
            CommandError::NotInReadingMode => "Pin is not in reading mode.",
            CommandError::NotInWritingMode => "Pin is not in writing mode.",
            CommandError::UnknownCommand => "Unknown command. Use \"h\" for help.",
        }
    }

    /// The message that tells the sender of this error.
    pub fn message(&self) -> (text: &'static str)
        ensures
            text@ == self.message_text()@,
    {
        match self {
            CommandError::IncorrectPinNumber => "Incorrect pin number.",
            CommandError::IncorrectOutputValue => "Incorrect pin output value. Must be L or H, e.g. w2h.",
            CommandError::PinReserved => "Pin is reserved.",
            CommandError::NotInReadingMode => "Pin is not in reading mode.",
            CommandError::NotInWritingMode => "Pin is not in writing mode.",
            CommandError::UnknownCommand => "Unknown command. Use \"h\" for help.",
        }
    }
}

impl Command {
    /// Whether the command can be carried out on `pins`: the pin that it names
    /// is there, and in a mode that the command needs.
    pub open spec fn fits(self, pins: Seq<PinState>) -> bool {
        match self {
            Command::Help => true,
            Command::ReadPin(n) => n < pins.len() && pins[n as int].readable(),
            Command::WriteOutput(n, _) => n < pins.len() && pins[n as int] is Output,
            Command::WriteTriState(n, _) => n < pins.len() && pins[n as int] is TriState,
            Command::Unknown => true,
        }
    }

    /// What is reported when the command was carried out, `high` saying
    /// whether the pin that a read names was found at logic high.
    pub open spec fn reported(self, high: bool) -> Response {
        match self {
            Command::Help => Response::Help,
            Command::ReadPin(n) => Response::Level(n, high),
            Command::WriteOutput(n, _) => Response::Done(n),
            Command::WriteTriState(n, _) => Response::Done(n),
            Command::Unknown => Response::Error(CommandError::UnknownCommand),
        }
    }

    /// What is reported when the command is carried out on `pins`.
    pub open spec fn response(self, pins: Seq<PinState>) -> Response {
        match self {
            Command::ReadPin(n) => self.reported(pins[n as int].level() == Level::High),
            _ => self.reported(false),
        }
    }

    /// The pins after the command was carried out on `pins`: a write drives
    /// the pin that it names, and nothing else changes anything.
    pub open spec fn effect(self, pins: Seq<PinState>) -> Seq<PinState> {
        match self {
            Command::WriteOutput(n, level) => pins.update(n as int, pins[n as int].driven(level)),
            Command::WriteTriState(n, level) => pins.update(n as int, pins[n as int].driven(level)),
            _ => pins,
        }
    }
}

impl Command {
    /// What to report when the command was carried out, `high` saying whether
    /// the pin that a read names was found at logic high. Only a read looks at
    /// `high`.
    pub fn report(&self, high: bool) -> (response: Response)
        ensures
            response == self.reported(high),
    {
        match self {
            Command::Help => Response::Help,
            Command::ReadPin(n) => Response::Level(*n, high),
            Command::WriteOutput(n, _) => Response::Done(*n),
            Command::WriteTriState(n, _) => Response::Done(*n),
            Command::Unknown => Response::Error(CommandError::UnknownCommand),
        }
    }
}

impl Response {
    /// The bytes that tell the sender of this response.
    ///
    /// A level is reported as `p`, the pin number, `=` and `true` or `false`; a
    /// driven pin as `p`, the pin number and ` OK`; an error as the error mark
    /// and the message. Each of these ends with a line break. The help text
    /// is sent as it is.
    pub open spec fn text(self) -> Seq<u8> {
        match self {
            Response::Help => HELP.spec_bytes(),
            Response::Level(n, high) => "p".spec_bytes() + decimal_digits(n as nat)
                + "=".spec_bytes() + (if high {
                "true"
            } else {
                "false"
            }).spec_bytes() + LINE_BREAK.spec_bytes(),
            Response::Done(n) => "p".spec_bytes() + decimal_digits(n as nat) + " OK".spec_bytes()
                + LINE_BREAK.spec_bytes(),
            Response::Error(error) => ERROR_MARK.spec_bytes() + error.message_text().spec_bytes()
                + LINE_BREAK.spec_bytes(),
        }
    }

    /// The bytes that tell the sender of this response.
    pub fn render(&self) -> (line: Vec<u8>)
        ensures
            line@ == self.text(),
    {
        let mut line: Vec<u8> = Vec::new();
        match self {
            Response::Help => {
                line.extend_from_slice(HELP.as_bytes());
            },
            Response::Level(n, high) => {
                let digits = itoa_u8(*n);
                line.extend_from_slice("p".as_bytes());
                line.extend_from_slice(digits.as_slice());
                line.extend_from_slice("=".as_bytes());
                if *high {
                    line.extend_from_slice("true".as_bytes());
                } else {
                    line.extend_from_slice("false".as_bytes());
                }
                line.extend_from_slice(LINE_BREAK.as_bytes());
            },
            Response::Done(n) => {
                let digits = itoa_u8(*n);
                line.extend_from_slice("p".as_bytes());
                line.extend_from_slice(digits.as_slice());
                line.extend_from_slice(" OK".as_bytes());
                line.extend_from_slice(LINE_BREAK.as_bytes());
            },
            Response::Error(error) => {
                line.extend_from_slice(ERROR_MARK.as_bytes());
                line.extend_from_slice(error.message().as_bytes());
                line.extend_from_slice(LINE_BREAK.as_bytes());
            },
        }
        assert(line@ =~= self.text());
        line
    }
}

/// The level that a level character stands for: `l` or `L` for low, `h` or `H`
/// for high.
pub fn parse_level(byte: u8) -> (level: Option<Level>)
    ensures
        level == level_of(byte),
{
    if byte == LOWER_L || byte == UPPER_L {
        Some(Level::Low)
    } else if byte == LOWER_H || byte == UPPER_H {
        Some(Level::High)
    } else {
        None
    }
}

/// The pin that `digits` names, if they name one of `pins`.
fn parse_pin(digits: &[u8], pins: &PinBank) -> (pin: Option<u8>)
    ensures
        pin == pin_of(digits@, pins@),
{
    match atoi_u8(digits) {
        Some(n) => if (n as usize) < pins.len() {
            Some(n)
        } else {
            None
        },
        None => None,
    }
}

/// Finds what the word `word` asks for, given the pins as they are.
///
/// `h` and whatever follows asks for help. `r` and a pin number asks for the
/// level of a pin, which must be an input or in open drain mode. `w`, a pin
/// number and a level character asks to drive a pin, which must be an output
/// or in open drain mode. The pin number is looked at first, then the level
/// character, then the mode of the pin. Nothing is done to the pins.
pub fn interpret(word: &[u8], pins: &PinBank) -> (command: Result<Command, CommandError>)
    ensures
        command == command_of(word@, pins@),
        command matches Ok(found) ==> found.fits(pins@),
{
    if word.len() == 0 {
        return Ok(Command::Unknown);
    }
    let letter = word[0];
    let rest = slice_subrange(word, 1, word.len());
    assert(rest@ =~= word@.skip(1));
    if letter == LOWER_H {
        Ok(Command::Help)
    } else if letter == LOWER_R {
        match parse_pin(rest, pins) {
            None => Err(CommandError::IncorrectPinNumber),
            Some(n) => match pins.get(n as usize) {
                Some(PinState::Reserved) => Err(CommandError::PinReserved),
                Some(state) => if state.is_readable() {
                    Ok(Command::ReadPin(n))
                } else {
                    Err(CommandError::NotInReadingMode)
                },
                None => Err(CommandError::IncorrectPinNumber),
            },
        }
    } else if letter == LOWER_W {
        if rest.len() == 0 {
            return Err(CommandError::IncorrectPinNumber);
        }
        let digits = slice_subrange(rest, 0, rest.len() - 1);
        assert(digits@ =~= rest@.drop_last());
        match parse_pin(digits, pins) {
            None => Err(CommandError::IncorrectPinNumber),
            Some(n) => match parse_level(rest[rest.len() - 1]) {
                None => Err(CommandError::IncorrectOutputValue),
                Some(level) => match pins.get(n as usize) {
                    Some(PinState::Reserved) => Err(CommandError::PinReserved),
                    Some(PinState::Output(_)) => Ok(Command::WriteOutput(n, level)),
                    Some(PinState::TriState(_)) => Ok(Command::WriteTriState(n, level)),
                    Some(_) => Err(CommandError::NotInWritingMode),
                    None => Err(CommandError::IncorrectPinNumber),
                },
            },
        }
    } else {
        Ok(Command::Unknown)
    }
}

/// Carries the command out on `pins` and says what to report.
pub fn perform(command: Command, pins: &mut PinBank) -> (response: Response)
    requires
        command.fits(old(pins)@),
    ensures
        response == command.response(old(pins)@),
        final(pins)@ == command.effect(old(pins)@),
{
    match command {
        Command::ReadPin(n) => {
            let high = match pins.get(n as usize) {
                Some(state) => state.is_high(),
                None => false,
            };
            command.report(high)
        },
        Command::WriteOutput(n, level) => {
            pins.drive(n as usize, level);
            command.report(false)
        },
        Command::WriteTriState(n, level) => {
            pins.drive(n as usize, level);
            command.report(false)
        },
        _ => command.report(false),
    }
}

/// What is reported in answer to the word `word`, given the pins as they are.
pub open spec fn response_to(word: Seq<u8>, pins: Seq<PinState>) -> Response {
    match command_of(word, pins) {
        Ok(command) => command.response(pins),
        Err(error) => Response::Error(error),
    }
}

/// The pins after the word `word` was handled: as the command leaves them, and
/// unchanged where the word was not carried out.
pub open spec fn pins_after(word: Seq<u8>, pins: Seq<PinState>) -> Seq<PinState> {
    match command_of(word, pins) {
        Ok(command) => command.effect(pins),
        Err(_) => pins,
    }
}

/// Handles one word: finds what it asks for, carries that out on `pins`, and
/// writes the report to `serial`. Returns what was reported.
pub fn execute(word: &[u8], pins: &mut PinBank, serial: &mut Serial) -> (response: Response)
    ensures
        response == response_to(word@, old(pins)@),
        final(pins)@ == pins_after(word@, old(pins)@),
        final(pins)@.len() == old(pins)@.len(),
        response is Error ==> final(pins)@ == old(pins)@,
        final(serial).sent() == old(serial).sent() + response.text(),
        final(serial).pending() == old(serial).pending(),
{
    let response = match interpret(word, pins) {
        Ok(command) => perform(command, pins),
        Err(error) => Response::Error(error),
    };
    let line = response.render();
    serial.write(line.as_slice());
    response
}

} // verus!
