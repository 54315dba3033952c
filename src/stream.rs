use vstd::prelude::*;
use vstd::slice::slice_subrange;
use crate::decode::{decode, MessageBody};
use crate::frame::{
    be16, frame_of, frame_result_is, header_of, length_error, length_fits, Frame, FrameData,
    FrameHeader, LdError, BODY_CAPACITY,
};

verus! {

/// What reading one frame from the front of the byte stream `s` gives, and
/// how many bytes of `s` it takes. The start byte must be `1`; then come the
/// seven header bytes, the body of the declared length and the body's checksum
/// byte. Each check fails before the next byte is taken; where `s` ends before
/// a decision, the result is `Eof` and all of `s` is taken.
pub open spec fn frame_at<E>(s: Seq<u8>) -> (Result<(FrameHeader, Seq<u8>), LdError<E>>, int) {
    if s.len() < 1 {
        (Err(LdError::Eof), s.len() as int)
    } else if s[0] != 1 {
        (Err(LdError::InvalidFrameStart(s[0])), 1)
    } else if s.len() < 8 {
        (Err(LdError::Eof), s.len() as int)
    } else {
        match header_of::<E>(s.subrange(1, 8)) {
            Err(e) => (Err(e), 8),
            Ok(h) => if !length_fits(h, BODY_CAPACITY as int) {
                (Err(length_error::<E>(h)), 8)
            } else if s.len() < 9 + h.length {
                (Err(LdError::Eof), s.len() as int)
            } else {
                (
                    frame_of::<E>(h, s.subrange(8, 8 + h.length), s[8 + h.length]),
                    9 + h.length,
                )
            },
        }
    }
}

/// What reading one message from the front of `s` gives: its frame, decoded,
/// and how many bytes of `s` it takes.
pub open spec fn message_at<E>(s: Seq<u8>) -> (Result<MessageBody, LdError<E>>, int) {
    (
        match frame_at::<E>(s).0 {
            Ok((h, b)) => decode::<E>(h.ty, b),
            Err(e) => Err(e),
        },
        frame_at::<E>(s).1,
    )
}

/// Whether reading a frame from `s` stops at the end of `s` for want of bytes.
pub open spec fn frame_unfinished<E>(s: Seq<u8>) -> bool {
    frame_at::<E>(s) == (Err::<(FrameHeader, Seq<u8>), LdError<E>>(LdError::Eof), s.len() as int)
}

/// After the bytes `seen` of a frame have been handed over: `None` while the
/// frame is unfinished, with `seen` kept; otherwise the frame's result,
/// decided on exactly `seen`, and a fresh start.
pub open spec fn frame_step<E>(seen: Seq<u8>, r: Option<Result<Frame, LdError<E>>>, seen_after: Seq<u8>) -> bool {
    match r {
        None => seen_after == seen && frame_unfinished::<E>(seen),
        Some(f) => seen_after.len() == 0 && !frame_unfinished::<E>(seen) && frame_at::<E>(seen).1
            == seen.len() && frame_result_is(f, frame_at::<E>(seen).0),
    }
}

/// As `frame_step`, for the decoded message.
pub open spec fn message_step<E>(seen: Seq<u8>, r: Option<Result<MessageBody, LdError<E>>>, seen_after: Seq<u8>) -> bool {
    match r {
        None => seen_after == seen && frame_unfinished::<E>(seen),
        Some(m) => seen_after.len() == 0 && !frame_unfinished::<E>(seen) && message_at::<E>(seen)
            == (m, seen.len() as int),
    }
}

/// A frame decided on a prefix of the stream does not depend on what follows.
pub proof fn lemma_frame_prefix<E>(s: Seq<u8>, t: Seq<u8>)
    requires
        !frame_unfinished::<E>(s),
    ensures
        frame_at::<E>(s + t) == frame_at::<E>(s),
        frame_at::<E>(s).1 <= s.len(),
{
    let u = s + t;
    if s.len() >= 8 {
        assert(u.subrange(1, 8) =~= s.subrange(1, 8));
        let n = be16(s[3], s[4]) as int;
        if s.len() >= 9 + n {
            assert(u.subrange(8, 8 + n) =~= s.subrange(8, 8 + n));
        }
    }
}

#[derive(Debug, Clone, Copy)]
enum Stage {
    Start,
    Header,
    Body(FrameHeader),
    Trailer(FrameHeader, FrameData<BODY_CAPACITY>),
}

/// Reads frames a chunk at a time: it says how many bytes it wants next, and
/// decides on each chunk it is handed. The byte source, blocking or not,
/// stays with the caller.
pub struct FrameReader {
    stage: Stage,
    seen: Ghost<Seq<u8>>,
}

impl FrameReader {
    #[verifier::type_invariant]
    closed spec fn inv(self) -> bool {
        let s = self.seen@;
        match self.stage {
            Stage::Start => s.len() == 0,
            Stage::Header => s.len() == 1 && s[0] == 1,
            Stage::Body(h) => s.len() == 8 && s[0] == 1 && header_of::<()>(s.subrange(1, 8))
                == Ok::<FrameHeader, LdError<()>>(h) && length_fits(h, BODY_CAPACITY as int),
            Stage::Trailer(h, d) => s.len() == 8 + h.length && s[0] == 1 && header_of::<()>(
                s.subrange(1, 8),
            ) == Ok::<FrameHeader, LdError<()>>(h) && length_fits(h, BODY_CAPACITY as int) && d@
                == s.subrange(8, 8 + h.length),
        }
    }

    /// The bytes of the current frame handed over so far.
    pub closed spec fn seen(&self) -> Seq<u8> {
        self.seen@
    }

    /// How many bytes the reader wants next.
    pub closed spec fn pending(&self) -> nat {
        match self.stage {
            Stage::Start => 1,
            Stage::Header => 7,
            Stage::Body(h) => h.length as nat,
            Stage::Trailer(_, _) => 1,
        }
    }

    pub fn new() -> (r: Self)
        ensures
            r.seen().len() == 0,
            r.pending() == 1,
    {
        FrameReader { stage: Stage::Start, seen: Ghost(Seq::empty()) }
    }

    /// How many bytes to read and hand to `feed` next.
    pub fn wanted(&self) -> (n: usize)
        ensures
            n == self.pending(),
            n > 0,
    {
        proof {
            use_type_invariant(self);
        }
        match self.stage {
            Stage::Start => 1,
            Stage::Header => 7,
            Stage::Body(h) => h.length as usize,
            Stage::Trailer(_, _) => 1,
        }
    }

    /// Hands over the next `wanted()` bytes of the stream.
    pub fn feed<E>(&mut self, bytes: &[u8]) -> (r: Option<Result<Frame, LdError<E>>>)
        requires
            bytes@.len() == old(self).pending(),
        ensures
            frame_step(old(self).seen() + bytes@, r, final(self).seen()),
    {
        proof {
            use_type_invariant(&*self);
        }
        let ghost all = self.seen@ + bytes@;
        let ghost empty = Seq::<u8>::empty();
        match self.stage {
            Stage::Start => {
                if bytes[0] != 1 {
                    *self = FrameReader { stage: Stage::Start, seen: Ghost(empty) };
                    return Some(Err(LdError::InvalidFrameStart(bytes[0])));
                }
                assert(all =~= bytes@);
                *self = FrameReader { stage: Stage::Header, seen: Ghost(all) };
                None
            },
            Stage::Header => {
                let hdr: [u8; 7] = [bytes[0], bytes[1], bytes[2], bytes[3], bytes[4], bytes[5], bytes[6]];
                assert(all.subrange(1, 8) =~= hdr@);
                match FrameHeader::parse::<E>(hdr) {
                    Err(e) => {
                        *self = FrameReader { stage: Stage::Start, seen: Ghost(empty) };
                        Some(Err(e))
                    },
                    Ok(h) => match FrameData::<BODY_CAPACITY>::validate::<E>(&h) {
                        Err(e) => {
                            *self = FrameReader { stage: Stage::Start, seen: Ghost(empty) };
                            Some(Err(e))
                        },
                        Ok(()) => {
                            *self = FrameReader { stage: Stage::Body(h), seen: Ghost(all) };
                            None
                        },
                    },
                }
            },
            Stage::Body(h) => {
                assert(all.subrange(1, 8) =~= self.seen@.subrange(1, 8));
                match FrameData::<BODY_CAPACITY>::read::<E>(bytes, &h) {
                    Ok(d) => {
                        assert(all.subrange(8, 8 + h.length) =~= bytes@.subrange(0, h.length as int));
                        *self = FrameReader { stage: Stage::Trailer(h, d), seen: Ghost(all) };
                        None
                    },
                    Err(e) => {
                        *self = FrameReader { stage: Stage::Start, seen: Ghost(empty) };
                        Some(Err(e))
                    },
                }
            },
            Stage::Trailer(h, d) => {
                assert(all.subrange(1, 8) =~= self.seen@.subrange(1, 8));
                assert(all.subrange(8, 8 + h.length) =~= self.seen@.subrange(8, 8 + h.length));
                let r = Frame::assemble::<E>(h, d, bytes[0]);
                *self = FrameReader { stage: Stage::Start, seen: Ghost(empty) };
                Some(r)
            },
        }
    }

    /// A stream that agrees with what was seen and ends before the wanted
    /// bytes are all there leaves the frame unfinished.
    proof fn lemma_short<E>(&self, s: Seq<u8>)
        requires
            self.inv(),
            self.seen().len() <= s.len() < self.seen().len() + self.pending(),
            s.subrange(0, self.seen().len() as int) == self.seen(),
        ensures
            frame_unfinished::<E>(s),
    {
        let k = self.seen@.len() as int;
        if k > 0 {
            assert(s[0] == s.subrange(0, k)[0]);
        }
        if k >= 8 {
            assert(s.subrange(1, 8) =~= self.seen@.subrange(1, 8));
        }
    }
}

/// Reads one message from the front of `input`, which stands for the whole
/// byte stream, and says how many bytes it took.
pub fn read_message<E>(input: &[u8]) -> (r: (Result<MessageBody, LdError<E>>, usize))
    ensures
        (r.0, r.1 as int) == message_at::<E>(input@),
{
    let mut frames = FrameReader::new();
    let mut pos: usize = 0;
    loop
        invariant
            pos <= input@.len(),
            frames.seen() == input@.subrange(0, pos as int),
        decreases input@.len() - pos,
    {
        let n = frames.wanted();
        if input.len() - pos < n {
            proof {
                use_type_invariant(&frames);
                frames.lemma_short::<E>(input@);
            }
            return (Err(LdError::Eof), input.len());
        }
        let chunk = slice_subrange(input, pos, pos + n);
        let ghost all = input@.subrange(0, pos + n);
        assert(frames.seen() + chunk@ =~= all);
        match frames.feed::<E>(chunk) {
            None => {
                pos = pos + n;
            },
            Some(res) => {
                proof {
                    let rest = input@.subrange(pos + n, input@.len() as int);
                    assert(all + rest =~= input@);
                    lemma_frame_prefix::<E>(all, rest);
                }
                return match res {
                    Ok(frame) => (frame.body(), pos + n),
                    Err(e) => (Err(e), pos + n),
                };
            },
        }
    }
}

} // verus!
