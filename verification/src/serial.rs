//! An in-memory serial link.

use vstd::prelude::*;

verus! {

/// A byte-oriented serial link held in memory: a queue of bytes that wait to
/// be read, and a transcript of the bytes written so far.
///
/// Where a hardware link would suspend the reader until a byte arrives, this
/// one reports that it has run dry.
pub struct Serial {
    incoming: Vec<u8>,
    cursor: usize,
    outgoing: Vec<u8>,
}

impl Serial {
    /// The bytes that have not been read yet, in the order of their arrival.
    pub closed spec fn pending(&self) -> Seq<u8> {
        if self.cursor <= self.incoming@.len() {
            self.incoming@.skip(self.cursor as int)
        } else {
            Seq::empty()
        }
    }

    /// Every byte written so far, in order.
    pub closed spec fn sent(&self) -> Seq<u8> {
        self.outgoing@
    }

    /// A link on which `incoming` waits to be read and nothing was written.
    pub fn new(incoming: Vec<u8>) -> (serial: Self)
        ensures
            serial.pending() == incoming@,
            serial.sent() == Seq::<u8>::empty(),
    {
        Serial { incoming, cursor: 0, outgoing: Vec::new() }
    }

    /// Takes the next byte off the link, or reports that none is left.
    pub fn read(&mut self) -> (byte: Option<u8>)
        ensures
            byte == (if old(self).pending().len() > 0 {
                Some(old(self).pending()[0])
            } else {
                None::<u8>
            }),
            final(self).pending() == (if old(self).pending().len() > 0 {
                old(self).pending().skip(1)
            } else {
                old(self).pending()
            }),
            final(self).sent() == old(self).sent(),
    {
        if self.cursor < self.incoming.len() {
            let byte = self.incoming[self.cursor];
            self.cursor += 1;
            assert(self.incoming@.skip(self.cursor as int) =~= old(self).pending().skip(1));
            Some(byte)
        } else {
            None
        }
    }

    /// Writes one byte to the link.
    pub fn write_byte(&mut self, byte: u8)
        ensures
            final(self).sent() == old(self).sent().push(byte),
            final(self).pending() == old(self).pending(),
    {
        self.outgoing.push(byte);
    }

    /// Writes `bytes` to the link, in order.
    pub fn write(&mut self, bytes: &[u8])
        ensures
            final(self).sent() == old(self).sent() + bytes@,
            final(self).pending() == old(self).pending(),
    {
        let mut i: usize = 0;
        while i < bytes.len()
            invariant
                i <= bytes.len(),
                self.sent() == old(self).sent() + bytes@.take(i as int),
                self.pending() == old(self).pending(),
            decreases bytes.len() - i,
        {
            self.write_byte(bytes[i]);
            assert(bytes@.take(i + 1) =~= bytes@.take(i as int).push(bytes@[i as int]));
            i += 1;
        }
        assert(bytes@.take(i as int) =~= bytes@);
    }

    /// Whether every incoming byte has been read.
    pub fn is_drained(&self) -> (drained: bool)
        ensures
            drained == (self.pending().len() == 0),
    {
        self.cursor >= self.incoming.len()
    }

    /// The transcript of what was written.
    pub fn output(&self) -> (bytes: &[u8])
        ensures
            bytes@ == self.sent(),
    {
        self.outgoing.as_slice()
    }
}

} // verus!
