use vstd::prelude::*;
use crate::decode::MessageBody;
use crate::frame::{Frame, LdError};
use crate::stream::{frame_step, message_step, FrameReader};

verus! {

/// Reads messages from a blocking byte source `R`. The caller reads
/// `wanted()` bytes from `reader` and hands them to `next`, until `next`
/// gives a message or an error.
pub struct MessageStream<R> {
    pub reader: R,
    pub frames: FrameReader,
}

impl<R> MessageStream<R> {
    /// The bytes of the current frame handed over so far.
    pub open spec fn seen(&self) -> Seq<u8> {
        self.frames.seen()
    }

    /// How many bytes the stream wants next.
    pub open spec fn pending(&self) -> nat {
        self.frames.pending()
    }

    pub fn new(reader: R) -> (r: Self)
        ensures
            r.reader == reader,
            r.seen().len() == 0,
            r.pending() == 1,
    {
        Self { reader, frames: FrameReader::new() }
    }

    /// How many bytes to read from `reader` next.
    pub fn wanted(&self) -> (n: usize)
        ensures
            n == self.pending(),
            n > 0,
    {
        self.frames.wanted()
    }

    /// Hands over the next `wanted()` bytes; gives the frame once it is decided.
    pub fn read<E>(&mut self, bytes: &[u8]) -> (r: Option<Result<Frame, LdError<E>>>)
        requires
            bytes@.len() == old(self).pending(),
        ensures
            frame_step(old(self).seen() + bytes@, r, final(self).seen()),
            final(self).reader == old(self).reader,
    {
        self.frames.feed(bytes)
    }

    /// Hands over the next `wanted()` bytes; gives the decoded message once
    /// its frame is decided.
    pub fn next<E>(&mut self, bytes: &[u8]) -> (r: Option<Result<MessageBody, LdError<E>>>)
        requires
            bytes@.len() == old(self).pending(),
        ensures
            message_step(old(self).seen() + bytes@, r, final(self).seen()),
            final(self).reader == old(self).reader,
    {
        match self.read(bytes) {
            None => None,
            Some(Ok(frame)) => Some(frame.body()),
            Some(Err(e)) => Some(Err(e)),
        }
    }
}

/// Reads messages from a suspending byte source `R`; used as
/// [`MessageStream`] is, with reads that are awaited.
pub struct AsyncMessageStream<R> {
    pub reader: R,
    pub frames: FrameReader,
}

impl<R> AsyncMessageStream<R> {
    /// The bytes of the current frame handed over so far.
    pub open spec fn seen(&self) -> Seq<u8> {
        self.frames.seen()
    }

    /// How many bytes the stream wants next.
    pub open spec fn pending(&self) -> nat {
        self.frames.pending()
    }

    pub fn new(reader: R) -> (r: Self)
        ensures
            r.reader == reader,
            r.seen().len() == 0,
            r.pending() == 1,
    {
        Self { reader, frames: FrameReader::new() }
    }

    /// How many bytes to read from `reader` next.
    pub fn wanted(&self) -> (n: usize)
        ensures
            n == self.pending(),
            n > 0,
    {
        self.frames.wanted()
    }

    /// Hands over the next `wanted()` bytes; gives the frame once it is decided.
    pub fn read<E>(&mut self, bytes: &[u8]) -> (r: Option<Result<Frame, LdError<E>>>)
        requires
            bytes@.len() == old(self).pending(),
        ensures
            frame_step(old(self).seen() + bytes@, r, final(self).seen()),
            final(self).reader == old(self).reader,
    {
        self.frames.feed(bytes)
    }

    /// Hands over the next `wanted()` bytes; gives the decoded message once
    /// its frame is decided.
    pub fn next<E>(&mut self, bytes: &[u8]) -> (r: Option<Result<MessageBody, LdError<E>>>)
        requires
            bytes@.len() == old(self).pending(),
        ensures
            message_step(old(self).seen() + bytes@, r, final(self).seen()),
            final(self).reader == old(self).reader,
    {
        match self.read(bytes) {
            None => None,
            Some(Ok(frame)) => Some(frame.body()),
            Some(Err(e)) => Some(Err(e)),
        }
    }
}

} // verus!
