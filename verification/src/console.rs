//! The console: lines are read, and their words are carried out one by one.

use vstd::prelude::*;
use vstd::string::StringSliceAdditionalSpecFns;
use crate::command::{execute, pins_after, response_to};
use crate::line_buffer::{first_line, has_line, Line, LineBuffer};
use crate::pins::{PinBank, PinState};
use crate::serial::Serial;
use crate::words::{words_of, Words};

verus! {

/// What is written before every line is read.
pub const PROMPT: &'static str = "\x1B[1mrapt>\x1B[0m ";

/// The pins after the words `words` were handled from left to right.
pub open spec fn pins_after_all(words: Seq<Seq<u8>>, pins: Seq<PinState>) -> Seq<PinState>
    decreases words.len(),
{
    if words.len() == 0 {
        pins
    } else {
        pins_after_all(words.drop_first(), pins_after(words[0], pins))
    }
}

/// Everything reported while the words `words` were handled from left to
/// right: the report on each word, given the pins as the words before it left
/// them.
pub open spec fn reports(words: Seq<Seq<u8>>, pins: Seq<PinState>) -> Seq<u8>
    decreases words.len(),
{
    if words.len() == 0 {
        Seq::empty()
    } else {
        response_to(words[0], pins).text() + reports(
            words.drop_first(),
            pins_after(words[0], pins),
        )
    }
}

/// Handles every word of `words` from left to right. A word that is not
/// carried out is reported and does not stop the words behind it.
pub fn dispatch(words: Words<'_>, pins: &mut PinBank, serial: &mut Serial)
    ensures
        final(pins)@ == pins_after_all(words@, old(pins)@),
        final(pins)@.len() == old(pins)@.len(),
        final(serial).sent() == old(serial).sent() + reports(words@, old(pins)@),
        final(serial).pending() == old(serial).pending(),
{
    let mut left = words;
    loop
        invariant
            pins_after_all(left@, pins@) == pins_after_all(words@, old(pins)@),
            pins@.len() == old(pins)@.len(),
            serial.sent() + reports(left@, pins@) == old(serial).sent() + reports(
                words@,
                old(pins)@,
            ),
            serial.pending() == old(serial).pending(),
        decreases left@.len(),
    {
        let ghost sent = serial.sent();
        let ghost words_left = left@;
        let ghost before = pins@;
        match left.next() {
            Some(word) => {
                execute(word, pins, serial);
                assert(sent + reports(words_left, before) =~= serial.sent() + reports(
                    left@,
                    pins@,
                ));
            },
            None => {
                assert(serial.sent() + reports(left@, pins@) =~= serial.sent());
                return ;
            },
        }
    }
}

/// How a console is left when its input has run dry.
pub struct Session {
    /// The line buffer.
    pub line: Line,
    /// The pins.
    pub pins: Seq<PinState>,
    /// Everything that was written to the sender.
    pub output: Seq<u8>,
}

/// How a console with the line buffer `line` and the pins `pins` is left by
/// the input `input`.
///
/// It writes the prompt and reads a line. Where the input holds a terminator,
/// the words of the line are handled, and the console goes on with what is
/// behind the terminator. Where it holds none, the console comes to rest in
/// the middle of the line.
pub open spec fn session(line: Line, pins: Seq<PinState>, input: Seq<u8>) -> Session
    decreases input.len(),
{
    let start = line.begin();
    let keys = first_line(input);
    let edited = start.typed(keys);
    if has_line(input) {
        let words = words_of(edited.content());
        let rest = session(edited, pins_after_all(words, pins), input.skip(keys.len() as int));
        Session {
            output: PROMPT.spec_bytes() + start.echoed(keys) + reports(words, pins) + rest.output,
            ..rest
        }
    } else {
        Session { line: edited, pins, output: PROMPT.spec_bytes() + start.echoed(keys) }
    }
}

/// Runs the console until the link has run dry: writes the prompt, reads a
/// line, handles its words, and begins again.
pub fn run(line: &mut LineBuffer<'_>, pins: &mut PinBank, serial: &mut Serial)
    ensures
        ({
            let end = session(old(line)@, old(pins)@, old(serial).pending());
            &&& final(line)@ == end.line
            &&& final(pins)@ == end.pins
            &&& final(serial).sent() == old(serial).sent() + end.output
            &&& final(serial).pending() == Seq::<u8>::empty()
        }),
{
    let ghost end = session(line@, pins@, serial.pending());
    loop
        invariant
            end == session(old(line)@, old(pins)@, old(serial).pending()),
            ({
                let rest = session(line@, pins@, serial.pending());
                &&& rest.line == end.line
                &&& rest.pins == end.pins
                &&& serial.sent() + rest.output == old(serial).sent() + end.output
            }),
        decreases serial.pending().len(),
    {
        let ghost input = serial.pending();
        let ghost sent = serial.sent();
        let ghost before = pins@;
        let ghost start = line@.begin();
        let ghost rest = session(line@, pins@, input);
        serial.write(PROMPT.as_bytes());
        match line.read_line(serial) {
            Some(length) => {
                let ghost keys = first_line(input);
                if length > 0 {
                    dispatch(line.words(), pins, serial);
                } else {
                    assert(line@.content() =~= Seq::<u8>::empty());
                }
                let ghost words = words_of(line@.content());
                assert(pins@ == pins_after_all(words, before));
                assert(serial.sent() =~= sent + PROMPT.spec_bytes() + start.echoed(keys) + reports(
                    words,
                    before,
                ));
                let ghost next = session(line@, pins@, serial.pending());
                assert(rest.output =~= PROMPT.spec_bytes() + start.echoed(keys) + reports(
                    words,
                    before,
                ) + next.output);
                assert(serial.sent() + next.output =~= sent + rest.output);
            },
            None => {
                assert(serial.sent() =~= sent + rest.output);
                return ;
            },
        }
    }
}

} // verus!
