//! An in-memory stand-in for a connection.

use vstd::prelude::*;

verus! {

/// A connection that lives in memory: reads are served from `read_data`, and
/// the last write is kept in `write_data`.
pub struct MockTcpStream {
    pub read_data: Vec<u8>,
    pub write_data: Vec<u8>,
}

/// What `buf` holds after `data` was read into it: as much of `data` as fits,
/// then what `buf` held before.
pub open spec fn filled(buf: Seq<u8>, data: Seq<u8>) -> Seq<u8> {
    if data.len() <= buf.len() {
        data + buf.subrange(data.len() as int, buf.len() as int)
    } else {
        data.subrange(0, buf.len() as int)
    }
}

impl MockTcpStream {
    /// Copies the start of `read_data` into `buf` and returns the number of
    /// bytes copied, the shorter of the two lengths. The stream keeps its
    /// data, so each read starts over.
    pub fn poll_read(&self, buf: &mut [u8]) -> (size: usize)
        ensures
            size == vstd::math::min(self.read_data@.len() as int, old(buf)@.len() as int),
            final(buf)@ == filled(old(buf)@, self.read_data@),
    {
        let size: usize = if self.read_data.len() < buf.len() {
            self.read_data.len()
        } else {
            buf.len()
        };
        let mut i: usize = 0;
        while i < size
            invariant
                i <= size,
                size <= self.read_data@.len(),
                size <= buf@.len(),
                buf@.len() == old(buf)@.len(),
                forall|k: int| 0 <= k < i ==> buf@[k] == self.read_data@[k],
                forall|k: int| i <= k < buf@.len() ==> buf@[k] == old(buf)@[k],
            decreases size - i,
        {
            buf[i] = self.read_data[i];
            i = i + 1;
        }
        size
    }

    /// Replaces `write_data` with `buf` and returns the number of bytes
    /// taken, which is all of them.
    pub fn poll_write(&mut self, buf: &[u8]) -> (size: usize)
        ensures
            size == buf@.len(),
            final(self).write_data@ == buf@,
            final(self).read_data == old(self).read_data,
    {
        let mut data: Vec<u8> = Vec::new();
        let mut i: usize = 0;
        while i < buf.len()
            invariant
                i <= buf.len(),
                data@ == buf@.subrange(0, i as int),
            decreases buf.len() - i,
        {
            data.push(buf[i]);
            i = i + 1;
        }
        self.write_data = data;
        buf.len()
    }

    /// Nothing is buffered, so there is nothing to flush.
    pub fn poll_flush(&mut self)
        ensures
            *final(self) == *old(self),
    {
    }

    /// Closing leaves what was written in place.
    pub fn poll_close(&mut self)
        ensures
            *final(self) == *old(self),
    {
    }
}

} // verus!
