//! An output sink that keeps in memory the bytes written to it.

use crate::strings::string_from_utf8;
use vstd::pervasive::unreached;
use vstd::prelude::*;
use vstd::utf8::{decode_utf8, encode_utf8, valid_utf8};

verus! {

/// A sink that collects what is written to it. Its view is the bytes written
/// so far, in the order of the writes.
pub struct TestWriter {
    storage: Vec<u8>,
}

impl View for TestWriter {
    type V = Seq<u8>;

    closed spec fn view(&self) -> Seq<u8> {
        self.storage@
    }
}

impl TestWriter {
    /// A sink that nothing has been written to.
    pub fn new() -> (writer: Self)
        ensures
            writer@ == Seq::<u8>::empty(),
    {
        TestWriter { storage: Vec::new() }
    }

    /// Appends all of `buf`, and returns how many bytes that was.
    pub fn write(&mut self, buf: &[u8]) -> (written: usize)
        ensures
            written == buf@.len(),
            final(self)@ == old(self)@ + buf@,
    {
        self.storage.extend_from_slice(buf);
        buf.len()
    }

    /// Appends all of `buf`.
    pub fn write_all(&mut self, buf: &[u8])
        ensures
            final(self)@ == old(self)@ + buf@,
    {
        self.storage.extend_from_slice(buf);
    }

    /// Appends `text` in UTF-8.
    pub fn write_str(&mut self, text: &str)
        ensures
            final(self)@ == old(self)@ + encode_utf8(text@),
    {
        self.storage.extend_from_slice(text.as_bytes());
    }

    /// Nothing is held back by this sink, so there is nothing to do.
    pub fn flush(&mut self)
        ensures
            final(self)@ == old(self)@,
    {
    }

    /// The bytes written.
    pub fn into_inner(self) -> (bytes: Vec<u8>)
        ensures
            bytes@ == self@,
    {
        self.storage
    }

    /// The text written. What was written must be valid UTF-8.
    pub fn into_string(self) -> (text: String)
        requires
            valid_utf8(self@),
        ensures
            text@ == decode_utf8(self@),
    {
        match string_from_utf8(self.into_inner()) {
            Some(text) => text,
            None => unreached(),
        }
    }
}

} // verus!
