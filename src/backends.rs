//! Word backends in memory, and the wrapper that adapts a byte sink.
use crate::traits::{BitStreamError, WordRead, WordWrite};
use vstd::prelude::*;

verus! {

/// A word sink that appends to a vector in memory; it never fails.
pub struct MemWordWriteVec {
    data: Vec<u64>,
}

impl MemWordWriteVec {
    /// A sink that appends after the words of `data`.
    pub fn new(data: Vec<u64>) -> (r: Self)
        ensures
            r.written() == data@,
    {
        Self { data }
    }

    /// The words written.
    pub fn as_vec(&self) -> (r: &Vec<u64>)
        ensures
            r@ == self.written(),
    {
        &self.data
    }

    /// Gives back the vector of words.
    pub fn into_inner(self) -> (r: Vec<u64>)
        ensures
            r@ == self.written(),
    {
        self.data
    }
}

impl WordWrite for MemWordWriteVec {
    closed spec fn written(&self) -> Seq<u64> {
        self.data@
    }

    open spec fn infallible(&self) -> bool {
        true
    }

    fn write_word(&mut self, word: u64) -> (r: Result<(), BitStreamError>)
        ensures
            r is Ok,
    {
        self.data.push(word);
        Ok(())
    }
}

/// A word source over a vector in memory; reading past its end fails.
pub struct MemWordRead {
    data: Vec<u64>,
    word_index: usize,
}

impl MemWordRead {
    /// A source holding the words of `data`, with its cursor on the first.
    pub fn new(data: Vec<u64>) -> (r: Self)
        ensures
            r.words() == data@,
            r.word_pos() == 0,
    {
        Self { data, word_index: 0 }
    }
}

impl WordRead for MemWordRead {
    closed spec fn words(&self) -> Seq<u64> {
        self.data@
    }

    closed spec fn word_pos(&self) -> nat {
        self.word_index as nat
    }

    fn set_position(&mut self, word_index: usize) {
        self.word_index = word_index;
    }

    fn read_next_word(&mut self) -> (r: Result<u64, BitStreamError>) {
        if self.word_index < self.data.len() {
            let w = self.data[self.word_index];
            self.word_index += 1;
            Ok(w)
        } else {
            Err(BitStreamError::UnexpectedEof)
        }
    }
}

/// Wraps a byte sink or source, such as a file, through which the words of a
/// stream are moved as bytes; the I/O itself is done by the caller.
#[derive(Clone, Debug)]
pub struct FileBackend<B> {
    file: B,
}

impl<B> FileBackend<B> {
    /// Wraps `file`.
    pub fn new(file: B) -> (r: Self)
        ensures
            r.inner() == file,
    {
        Self { file }
    }

    /// The wrapped value.
    pub closed spec fn inner(&self) -> B {
        self.file
    }

    /// The wrapped value, to perform I/O on.
    pub fn file_mut(&mut self) -> (r: &mut B)
        ensures
            *r == old(self).inner(),
    {
        &mut self.file
    }

    /// Gives back the wrapped value.
    pub fn into_inner(self) -> (r: B)
        ensures
            r == self.inner(),
    {
        self.file
    }
}

} // verus!
