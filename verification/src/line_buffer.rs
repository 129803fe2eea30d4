//! A fixed-capacity line editor fed one byte at a time.

use vstd::prelude::*;
use crate::ascii::{
    is_printable, is_terminator, BACKSPACE, CARRIAGE_RETURN, DELETE, LINE_FEED, RECALL, SPACE,
    TILDE,
};
use crate::serial::Serial;
use crate::words::words_of;
pub use crate::words::Words;

verus! {

/// What the sender is shown in answer to one byte.
#[derive(Clone, Copy, Debug, PartialEq, Eq, Structural)]
pub enum Feedback {
    /// Nothing: the byte was dropped, or there was nothing to erase or recall.
    Silent,
    /// The byte was stored and is echoed back.
    Echo(u8),
    /// The last character was removed; backspace, space, backspace wipes it
    /// from the sender's screen.
    Erased,
    /// The previous line was brought back and is echoed in full.
    Recalled,
    /// The line is complete; carriage return and line feed are echoed.
    Submitted,
}

/// The state of a line buffer as a mathematical value.
pub struct Line {
    /// Every slot of the storage, meaningful or stale.
    pub storage: Seq<u8>,
    /// How many leading slots hold the line being edited.
    pub len: nat,
    /// The length the line had when the current line was begun.
    pub previous: nat,
}

impl Line {
    /// The number of bytes that a line can hold.
    pub open spec fn capacity(self) -> nat {
        self.storage.len()
    }

    /// Both lengths fit in the storage, and the slots that either of them
    /// covers hold printable characters.
    pub open spec fn wf(self) -> bool {
        &&& self.len <= self.storage.len()
        &&& self.previous <= self.storage.len()
        &&& forall|i: int|
            0 <= i < self.len || 0 <= i < self.previous ==> is_printable(#[trigger] self.storage[i])
    }

    /// The line being edited: the meaningful part of the storage.
    pub open spec fn content(self) -> Seq<u8> {
        self.storage.take(self.len as int)
    }

    /// Whether `append` would store `c`: it is printable and there is room.
    pub open spec fn accepts(self, c: u8) -> bool {
        is_printable(c) && self.len < self.capacity()
    }

    /// The line after `c` was offered to it.
    pub open spec fn append(self, c: u8) -> Line {
        if self.accepts(c) {
            Line { storage: self.storage.update(self.len as int, c), len: self.len + 1, ..self }
        } else {
            self
        }
    }

    /// The line after each byte of `bytes` was offered to it, one after the
    /// other.
    pub open spec fn appended(self, bytes: Seq<u8>) -> Line
        decreases bytes.len(),
    {
        if bytes.len() == 0 {
            self
        } else {
            self.appended(bytes.drop_last()).append(bytes.last())
        }
    }

    /// The line without its last character, if it has one.
    pub open spec fn pop(self) -> Line {
        if self.len > 0 {
            Line { len: (self.len - 1) as nat, ..self }
        } else {
            self
        }
    }

    /// The empty line over the same storage.
    pub open spec fn clear(self) -> Line {
        Line { len: 0, ..self }
    }

    /// The state in which a new line is begun: the current length is
    /// remembered and the line is cleared.
    pub open spec fn begin(self) -> Line {
        Line { len: 0, previous: self.len, ..self }
    }

    /// Whether a recall would bring the previous line back: nothing is in the
    /// line yet and the previous line was not empty.
    pub open spec fn can_recall(self) -> bool {
        self.len == 0 && self.previous != 0
    }

    /// The line after a recall was asked for.
    pub open spec fn recall(self) -> Line {
        if self.can_recall() {
            Line { len: self.previous, ..self }
        } else {
            self
        }
    }

    /// The line after the byte `b` arrived.
    pub open spec fn step(self, b: u8) -> Line {
        if is_terminator(b) {
            self
        } else if b == BACKSPACE || b == DELETE {
            self.pop()
        } else if b == RECALL {
            self.recall()
        } else {
            self.append(b)
        }
    }

    /// What the sender is shown when the byte `b` arrives.
    pub open spec fn feedback(self, b: u8) -> Feedback {
        if is_terminator(b) {
            Feedback::Submitted
        } else if b == BACKSPACE || b == DELETE {
            if self.len > 0 {
                Feedback::Erased
            } else {
                Feedback::Silent
            }
        } else if b == RECALL {
            if self.can_recall() {
                Feedback::Recalled
            } else {
                Feedback::Silent
            }
        } else if self.accepts(b) {
            Feedback::Echo(b)
        } else {
            Feedback::Silent
        }
    }

    /// The bytes that show `feedback` to the sender, this being the line after
    /// the byte arrived: nothing, the byte that was stored, the sequence that
    /// wipes one character, the line that was recalled, or a line break.
    pub open spec fn shown(self, feedback: Feedback) -> Seq<u8> {
        match feedback {
            Feedback::Silent => Seq::empty(),
            Feedback::Echo(c) => seq![c],
            Feedback::Erased => seq![BACKSPACE, SPACE, BACKSPACE],
            Feedback::Recalled => self.content(),
            Feedback::Submitted => seq![CARRIAGE_RETURN, LINE_FEED],
        }
    }

    /// The bytes echoed to the sender when the byte `b` arrives.
    pub open spec fn echo(self, b: u8) -> Seq<u8> {
        self.step(b).shown(self.feedback(b))
    }

    /// The line after the bytes `keys` arrived one after the other.
    pub open spec fn typed(self, keys: Seq<u8>) -> Line
        decreases keys.len(),
    {
        if keys.len() == 0 {
            self
        } else {
            self.typed(keys.drop_last()).step(keys.last())
        }
    }

    /// Everything echoed while the bytes `keys` arrived one after the other.
    pub open spec fn echoed(self, keys: Seq<u8>) -> Seq<u8>
        decreases keys.len(),
    {
        if keys.len() == 0 {
            Seq::empty()
        } else {
            self.echoed(keys.drop_last()) + self.typed(keys.drop_last()).echo(keys.last())
        }
    }
}

/// Where the first line of `input` ends: the index of its first terminator,
/// or the length of `input` if it holds none.
pub open spec fn line_end(input: Seq<u8>) -> int
    decreases input.len(),
{
    if input.len() == 0 || is_terminator(input[0]) {
        0
    } else {
        1 + line_end(input.drop_first())
    }
}

/// Whether `input` holds a whole line: a terminator stands in it.
pub open spec fn has_line(input: Seq<u8>) -> bool {
    0 <= line_end(input) < input.len()
}

/// The bytes of `input` that reading one line takes: those up to its first
/// terminator and the terminator, or all of them if it holds none.
pub open spec fn first_line(input: Seq<u8>) -> Seq<u8> {
    if has_line(input) {
        input.take(line_end(input) + 1)
    } else {
        input
    }
}

/// `line_end` is the one index at which a terminator or the end of the input
/// stands with no terminator before it.
pub proof fn lemma_line_end(input: Seq<u8>, n: int)
    requires
        0 <= n <= input.len(),
        forall|j: int| 0 <= j < n ==> !is_terminator(#[trigger] input[j]),
        n < input.len() ==> is_terminator(input[n]),
    ensures
        line_end(input) == n,
    decreases input.len(),
{
    if n > 0 {
        let rest = input.drop_first();
        assert forall|j: int| 0 <= j < n - 1 implies !is_terminator(#[trigger] rest[j]) by {
            assert(rest[j] == input[j + 1]);
        }
        lemma_line_end(rest, n - 1);
    }
}

/// No terminator stands before `line_end`, and one stands at it unless it is
/// the end of the input.
pub proof fn lemma_line_end_is_first(input: Seq<u8>)
    ensures
        0 <= line_end(input) <= input.len(),
        forall|j: int| 0 <= j < line_end(input) ==> !is_terminator(#[trigger] input[j]),
        line_end(input) < input.len() ==> is_terminator(input[line_end(input)]),
    decreases input.len(),
{
    if !(input.len() == 0 || is_terminator(input[0])) {
        let rest = input.drop_first();
        lemma_line_end_is_first(rest);
        assert forall|j: int| 0 <= j < line_end(input) implies !is_terminator(
            #[trigger] input[j],
        ) by {
            if j > 0 {
                assert(input[j] == rest[j - 1]);
            }
        }
        assert(line_end(input) < input.len() ==> input[line_end(input)] == rest[line_end(rest)]);
    }
}

/// A terminator leaves the line as it is, so the line that was typed is the
/// same with and without the terminator that ended it.
pub proof fn lemma_typed_first_line(start: Line, input: Seq<u8>)
    requires
        has_line(input),
    ensures
        start.typed(first_line(input)) == start.typed(input.take(line_end(input))),
{
    lemma_line_end_is_first(input);
    let keys = first_line(input);
    assert(keys.drop_last() =~= input.take(line_end(input)));
    assert(keys.last() == input[line_end(input)]);
}

/// Printable bytes for which there is room are all stored, in the order in
/// which they were appended: the line grows by their number, and its content
/// is what it was with the bytes behind it.
pub proof fn lemma_appended_bytes_are_stored(line: Line, bytes: Seq<u8>)
    requires
        line.len + bytes.len() <= line.capacity(),
        forall|i: int| 0 <= i < bytes.len() ==> is_printable(#[trigger] bytes[i]),
    ensures
        line.appended(bytes).len == line.len + bytes.len(),
        line.appended(bytes).content() == line.content() + bytes,
        line.appended(bytes).previous == line.previous,
        line.appended(bytes).capacity() == line.capacity(),
    decreases bytes.len(),
{
    if bytes.len() == 0 {
        assert(line.content() + bytes =~= line.content());
    } else {
        let front = bytes.drop_last();
        lemma_appended_bytes_are_stored(line, front);
        let before = line.appended(front);
        assert(before.accepts(bytes.last()));
        assert(before.append(bytes.last()).content() =~= before.content().push(bytes.last()));
        assert(line.content() + bytes =~= (line.content() + front).push(bytes.last()));
    }
}

/// Appending no more printable bytes to an empty line than it has room for
/// leaves it as long as their number, and holding them in order.
pub proof fn lemma_appends_fill_empty_line(line: Line, bytes: Seq<u8>)
    requires
        line.len == 0,
        bytes.len() <= line.capacity(),
        forall|i: int| 0 <= i < bytes.len() ==> is_printable(#[trigger] bytes[i]),
    ensures
        line.appended(bytes).len == bytes.len(),
        line.appended(bytes).content() == bytes,
{
    lemma_appended_bytes_are_stored(line, bytes);
    assert(line.content() + bytes =~= bytes);
}

/// Removing the last character of a line and appending it again gives the
/// line back: its length, its content and its storage are what they were.
pub proof fn lemma_pop_then_append(line: Line)
    requires
        line.wf(),
        line.len > 0,
    ensures
        line.pop().append(line.content().last()) == line,
{
    let last = line.content().last();
    assert(last == line.storage[line.len - 1]);
    assert(is_printable(line.storage[line.len - 1]));
    assert(line.pop().accepts(last));
    assert(line.storage.update(line.len - 1, last) =~= line.storage);
}

/// Appending a character that is stored and then removing the last character
/// gives the content back.
pub proof fn lemma_append_then_pop(line: Line, c: u8)
    requires
        line.accepts(c),
    ensures
        line.append(c).pop().content() == line.content(),
        line.append(c).content().last() == c,
{
    assert(line.append(c).pop().content() =~= line.content());
}

/// Every state that the editing of a line reaches is well formed.
pub proof fn lemma_typed_wf(line: Line, keys: Seq<u8>)
    requires
        line.wf(),
    ensures
        line.typed(keys).wf(),
        line.typed(keys).capacity() == line.capacity(),
        line.typed(keys).previous == line.previous,
    decreases keys.len(),
{
    if keys.len() > 0 {
        lemma_typed_wf(line, keys.drop_last());
    }
}

/// Once the line is not empty, control-R changes nothing and echoes nothing.
pub proof fn lemma_recall_needs_empty_line(line: Line)
    requires
        line.len > 0,
    ensures
        line.step(RECALL) == line,
        line.echo(RECALL) == Seq::<u8>::empty(),
{
}

/// A recall brings back what the storage holds in the length of the previous
/// line and echoes it, and a second control-R behind it does nothing.
pub proof fn lemma_recall_works_once(line: Line)
    requires
        line.can_recall(),
    ensures
        line.step(RECALL).len == line.previous,
        line.step(RECALL).content() == line.storage.take(line.previous as int),
        line.echo(RECALL) == line.step(RECALL).content(),
        line.step(RECALL).step(RECALL) == line.step(RECALL),
        line.step(RECALL).echo(RECALL) == Seq::<u8>::empty(),
{
}

/// Simple line buffer, to read a line from a serial link, with support for
/// backspace or ^H, to delete the last character, and ^R, to bring up the
/// previous line.
pub struct LineBuffer<'a> {
    len: usize,
    previous: usize,
    line: &'a mut [u8],
}

impl<'a> View for LineBuffer<'a> {
    type V = Line;

    closed spec fn view(&self) -> Line {
        Line { storage: self.line@, len: self.len as nat, previous: self.previous as nat }
    }
}

impl<'a> LineBuffer<'a> {
    #[verifier::type_invariant]
    spec fn well_formed(&self) -> bool {
        self@.wf()
    }

    /// An empty line over the storage `line`, whose length is the capacity.
    pub fn new(line: &'a mut [u8]) -> (buffer: Self)
        ensures
            buffer@.storage == old(line)@,
            buffer@.len == 0,
            buffer@.previous == 0,
            buffer@.wf(),
    {
        LineBuffer { len: 0, previous: 0, line }
    }

    /// Append character to the line. Returns character to print, if any.
    /// Returns None, if character is not printable or buffer is full.
    pub fn append(&mut self, c: u8) -> (echo: Option<u8>)
        ensures
            final(self)@ == old(self)@.append(c),
            echo == (if old(self)@.accepts(c) { Some(c) } else { None::<u8> }),
            old(self)@.len >= old(self)@.capacity() ==> echo.is_none() && final(self)@ == old(self)@,
            final(self)@.wf(),
    {
        proof {
            use_type_invariant(&*self);
        }
        if SPACE <= c && c <= TILDE && self.len < self.line.len() {
            self.line[self.len] = c;
            self.len += 1;
            Some(c)
        } else {
            None
        }
    }

    /// Remove last character from line. Returns removed character, if any.
    pub fn pop(&mut self) -> (removed: Option<u8>)
        ensures
            final(self)@ == old(self)@.pop(),
            removed == (if old(self)@.len > 0 { Some(old(self)@.content().last()) } else { None::<u8> }),
            old(self)@.len == 0 ==> removed.is_none() && final(self)@.len == 0,
            final(self)@.wf(),
    {
        proof {
            use_type_invariant(&*self);
        }
        if self.len > 0 {
            self.len -= 1;
            Some(self.line[self.len])
        } else {
            None
        }
    }

    /// Clear line buffer.
    pub fn clear(&mut self)
        ensures
            final(self)@ == old(self)@.clear(),
            final(self)@.wf(),
    {
        proof {
            use_type_invariant(&*self);
        }
        self.len = 0;
    }

    /// Begins a new line: remembers the length of the current one for a
    /// recall, and clears it.
    pub fn begin_line(&mut self)
        ensures
            final(self)@ == old(self)@.begin(),
            final(self)@.wf(),
    {
        proof {
            use_type_invariant(&*self);
        }
        self.previous = self.len;
        self.clear();
    }

    /// Takes one byte from the sender into the line being edited, and says
    /// what to show the sender in answer.
    ///
    /// A terminator completes the line and leaves it as it is. Backspace and
    /// delete remove the last character. Control-R brings the previous line
    /// back while nothing has been typed. Any other byte is appended if it is
    /// printable and there is room, and dropped otherwise.
    pub fn feed(&mut self, byte: u8) -> (feedback: Feedback)
        ensures
            final(self)@ == old(self)@.step(byte),
            feedback == old(self)@.feedback(byte),
            final(self)@.wf(),
    {
        proof {
            use_type_invariant(&*self);
        }
        if byte == CARRIAGE_RETURN || byte == LINE_FEED {
            Feedback::Submitted
        } else if byte == BACKSPACE || byte == DELETE {
            match self.pop() {
                Some(_) => Feedback::Erased,
                None => Feedback::Silent,
            }
        } else if byte == RECALL {
            if self.len == 0 && self.previous != 0 {
                self.len = self.previous;
                Feedback::Recalled
            } else {
                Feedback::Silent
            }
        } else {
            match self.append(byte) {
                Some(c) => Feedback::Echo(c),
                None => Feedback::Silent,
            }
        }
    }

    /// The bytes that show `feedback` to the sender, `feedback` being what
    /// `feed` has just answered.
    pub fn echo(&self, feedback: Feedback) -> (bytes: Vec<u8>)
        ensures
            bytes@ == self@.shown(feedback),
    {
        let mut bytes: Vec<u8> = Vec::new();
        match feedback {
            Feedback::Silent => {},
            Feedback::Echo(c) => {
                bytes.push(c);
            },
            Feedback::Erased => {
                bytes.push(BACKSPACE);
                bytes.push(SPACE);
                bytes.push(BACKSPACE);
            },
            Feedback::Recalled => {
                bytes.extend_from_slice(self.content());
            },
            Feedback::Submitted => {
                bytes.push(CARRIAGE_RETURN);
                bytes.push(LINE_FEED);
            },
        }
        assert(bytes@ =~= self@.shown(feedback));
        bytes
    }

    /// The line being edited.
    pub fn content(&self) -> (bytes: &[u8])
        ensures
            bytes@ == self@.content(),
    {
        proof {
            use_type_invariant(self);
        }
        vstd::slice::slice_subrange(&*self.line, 0, self.len)
    }

    /// The number of bytes in the line being edited.
    pub fn len(&self) -> (length: usize)
        ensures
            length == self@.len,
    {
        self.len
    }

    /// Whether the line being edited is empty.
    pub fn is_empty(&self) -> (empty: bool)
        ensures
            empty == (self@.len == 0),
    {
        self.len == 0
    }

    /// The number of bytes that a line can hold.
    pub fn capacity(&self) -> (capacity: usize)
        ensures
            capacity == self@.capacity(),
    {
        self.line.len()
    }

    /// Return iterator for words (separated by whitespace).
    pub fn words<'r>(&'r mut self) -> (words: Words<'r>)
        ensures
            words@ == words_of(old(self)@.content()),
            final(self)@ == old(self)@,
    {
        proof {
            use_type_invariant(&*self);
        }
        Words::new(vstd::slice::slice_subrange(&*self.line, 0, self.len))
    }

    /// Read line from serial link into line buffer.
    ///
    /// Begins a new line, then takes bytes off the link until a terminator
    /// arrives, echoing as it goes. Returns the length of the completed line,
    /// or nothing when the link ran dry first; the buffer then holds what was
    /// typed so far.
    pub fn read_line(&mut self, serial: &mut Serial) -> (length: Option<usize>)
        ensures
            ({
                let input = old(serial).pending();
                let keys = first_line(input);
                let start = old(self)@.begin();
                &&& final(self)@ == start.typed(keys)
                &&& final(self)@.wf()
                &&& final(serial).sent() == old(serial).sent() + start.echoed(keys)
                &&& final(serial).pending() == input.skip(keys.len() as int)
                &&& length.is_some() == has_line(input)
                &&& length matches Some(n) ==> n == final(self)@.len
            }),
    {
        self.begin_line();
        let ghost input = serial.pending();
        let ghost sent = serial.sent();
        let ghost start = self@;
        let ghost mut n: int = 0;
        assert(input.take(0) =~= Seq::<u8>::empty());
        assert(input.skip(0) =~= input);
        loop
            invariant
                input == old(serial).pending(),
                sent == old(serial).sent(),
                start == old(self)@.begin(),
                0 <= n <= input.len(),
                forall|j: int| 0 <= j < n ==> !is_terminator(#[trigger] input[j]),
                self@ == start.typed(input.take(n)),
                self@.wf(),
                serial.pending() == input.skip(n),
                serial.sent() == sent + start.echoed(input.take(n)),
            decreases input.len() - n,
        {
            let byte = match serial.read() {
                Some(byte) => byte,
                None => {
                    proof {
                        lemma_line_end(input, n);
                        assert(input.take(n) =~= input);
                        assert(input.skip(n) =~= input.skip(input.len() as int));
                    }
                    return None;
                },
            };
            proof {
                assert(byte == input[n]);
                assert(input.skip(n).skip(1) =~= input.skip(n + 1));
                assert(input.take(n + 1).drop_last() =~= input.take(n));
                assert(input.take(n + 1).last() == byte);
            }
            let feedback = self.feed(byte);
            let echo = self.echo(feedback);
            serial.write(echo.as_slice());
            if feedback == Feedback::Submitted {
                proof {
                    lemma_line_end(input, n);
                    lemma_typed_first_line(start, input);
                    assert(serial.sent() =~= sent + start.echoed(input.take(n + 1)));
                }
                return Some(self.len);
            }
            proof {
                assert(serial.sent() =~= sent + start.echoed(input.take(n + 1)));
                n = n + 1;
            }
        }
    }
}

} // verus!
