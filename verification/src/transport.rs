//! Settings of the in-memory transport that stands in for a network in
//! tests of the handshake.

use vstd::prelude::*;

verus! {

/// Where a mock transport listens.
#[derive(Clone, Copy, Debug, PartialEq, Eq)]
pub struct MockTransportConfig {
    pub port: u16,
}

impl Default for MockTransportConfig {
    fn default() -> (config: Self)
        ensures
            config.port == 0,
    {
        MockTransportConfig { port: 0 }
    }
}

/// The buffer of the sending end of a mock connection: what was written of
/// a frame so far, and how many bytes of the frame are still to come.
#[derive(Debug)]
pub struct MockWriter {
    /// Bytes of the frame that are still to come.
    pub current_write: usize,
    /// Bytes of the frame that were written.
    pub buffer: Vec<u8>,
}

impl MockWriter {
    /// Makes a writer that holds nothing and expects nothing.
    pub fn new() -> (writer: MockWriter)
        ensures
            writer.current_write == 0,
            writer.buffer@.len() == 0,
    {
        MockWriter { current_write: 0, buffer: Vec::new() }
    }

    /// Makes room for a frame of `len` bytes. The buffer has to be empty.
    pub fn start_write(&mut self, len: usize)
        requires
            old(self).buffer@.len() == 0,
        ensures
            final(self).current_write == old(self).current_write,
            final(self).buffer@ == old(self).buffer@,
    {
        self.buffer.reserve(len);
    }

    /// Takes bytes of the frame, no more than are still to come. Gives the
    /// number of bytes that were taken and, once none are to come any more,
    /// the whole frame, which is then to be sent.
    pub fn write(&mut self, buf: &Vec<u8>) -> (out: (usize, Option<Vec<u8>>))
        requires
            buf@.len() <= old(self).current_write,
        ensures
            out.0 == buf@.len(),
            final(self).current_write == old(self).current_write - buf@.len(),
            final(self).current_write == 0 ==> final(self).buffer@.len() == 0 && (
            out.1 matches Some(frame) && frame@ == old(self).buffer@.add(buf@)),
            final(self).current_write != 0 ==> out.1 is None && final(self).buffer@ == old(
                self,
            ).buffer@.add(buf@),
    {
        self.current_write = self.current_write - buf.len();
        crate::codec::push_all(&mut self.buffer, buf);
        if self.current_write == 0 {
            let mut frame: Vec<u8> = Vec::new();
            core::mem::swap(&mut self.buffer, &mut frame);
            (buf.len(), Some(frame))
        } else {
            (buf.len(), None)
        }
    }
}

} // verus!
