use vstd::prelude::*;
use vstd::slice::slice_subrange;
use crate::checksum::{checksum, checksum_of};

verus! {

/// Size of the body buffer: the largest body that any message type carries.
pub const BODY_CAPACITY: usize = 16;

/// Which checksum of a frame did not match.
#[derive(Debug, Clone, Copy, PartialEq, Eq, Structural)]
pub enum ChecksumScope {
    /// The header's checksum byte (present on the wire, never checked).
    Header,
    /// The checksum byte that follows the body.
    Body,
}

/// Error type for reading data from the sensor.
#[allow(inconsistent_fields)]
#[derive(Debug, Clone, PartialEq, Eq)]
pub enum LdError<E> {
    /// The message received from the sensor had an unknown message type.
    InvalidMessageType(u16),
    /// The message received from the sensor had an invalid length for the message type.
    InvalidDataLength { expected: u16, got: u16, ty: MessageType },
    /// The message received from the sensor had an invalid checksum: `got` is
    /// the checksum computed over the bytes, `expected` the byte on the wire.
    InvalidChecksum { ty: ChecksumScope, got: u8, expected: u8 },
    /// The data read from the sensor didn't start as expected.
    InvalidFrameStart(u8),
    /// Unexpected end of data.
    Eof,
    /// Error while reading from the serial device.
    Read(E),
}

/// Message type sent by the sensor.
#[derive(Debug, Clone, Copy, PartialEq, Eq, Structural)]
pub enum MessageType {
    Phase,
    Respiratory,
    Heartbeat,
    Distance,
}

/// The big-endian 16-bit integer made of `hi` and `lo`.
pub open spec fn be16(hi: u8, lo: u8) -> u16 {
    (hi as int * 256 + lo as int) as u16
}

pub fn read_be16(hi: u8, lo: u8) -> (r: u16)
    ensures
        r == be16(hi, lo),
{
    (hi as u16) * 256 + (lo as u16)
}

impl MessageType {
    /// The message type that a wire code stands for, if any.
    pub open spec fn from_code(code: u16) -> Option<MessageType> {
        if code == 0x0a13 {
            Some(MessageType::Phase)
        } else if code == 0x0a14 {
            Some(MessageType::Respiratory)
        } else if code == 0x0a15 {
            Some(MessageType::Heartbeat)
        } else if code == 0x0a16 {
            Some(MessageType::Distance)
        } else {
            None
        }
    }

    /// The wire code of a message type.
    pub open spec fn code_of(self) -> u16 {
        match self {
            MessageType::Phase => 0x0a13,
            MessageType::Respiratory => 0x0a14,
            MessageType::Heartbeat => 0x0a15,
            MessageType::Distance => 0x0a16,
        }
    }

    /// The body length in bytes that a message type carries.
    pub open spec fn body_len(self) -> u16 {
        match self {
            MessageType::Phase => 12,
            MessageType::Respiratory => 4,
            MessageType::Heartbeat => 4,
            MessageType::Distance => 8,
        }
    }

    /// The message type of a wire code, or `InvalidMessageType` with the code.
    pub open spec fn parse_code<E>(code: u16) -> Result<MessageType, LdError<E>> {
        match MessageType::from_code(code) {
            Some(t) => Ok(t),
            None => Err(LdError::InvalidMessageType(code)),
        }
    }

    pub fn code(self) -> (r: u16)
        ensures
            r == self.code_of(),
            MessageType::from_code(r) == Some(self),
    {
        match self {
            MessageType::Phase => 0x0a13,
            MessageType::Respiratory => 0x0a14,
            MessageType::Heartbeat => 0x0a15,
            MessageType::Distance => 0x0a16,
        }
    }

    /// Maps a wire code to its message type.
    pub fn try_from_code<E>(code: u16) -> (r: Result<MessageType, LdError<E>>)
        ensures
            r == MessageType::parse_code::<E>(code),
    {
        if code == 0x0a13 {
            Ok(MessageType::Phase)
        } else if code == 0x0a14 {
            Ok(MessageType::Respiratory)
        } else if code == 0x0a15 {
            Ok(MessageType::Heartbeat)
        } else if code == 0x0a16 {
            Ok(MessageType::Distance)
        } else {
            Err(LdError::InvalidMessageType(code))
        }
    }

    /// Reads a message type from its two wire bytes, big endian.
    pub fn read<E>(bytes: [u8; 2]) -> (r: Result<MessageType, LdError<E>>)
        ensures
            r == MessageType::parse_code::<E>(be16(bytes[0], bytes[1])),
    {
        let code = read_be16(bytes[0], bytes[1]);
        MessageType::try_from_code(code)
    }

    pub fn expected_length(self) -> (r: u16)
        ensures
            r == self.body_len(),
    {
        match self {
            MessageType::Phase => 12,
            MessageType::Respiratory => 4,
            MessageType::Heartbeat => 4,
            MessageType::Distance => 8,
        }
    }
}

/// The header of a frame.
#[derive(Debug, Clone, Copy, PartialEq, Eq, Structural)]
pub struct FrameHeader {
    /// Sequence id; informational only.
    pub id: u16,
    /// Declared body length in bytes.
    pub length: u16,
    pub ty: MessageType,
}

/// The header that seven header bytes describe, or the error they give:
/// id, length and type code big endian at offsets 0, 2 and 4; the checksum
/// byte at offset 6 is not looked at.
pub open spec fn header_of<E>(b: Seq<u8>) -> Result<FrameHeader, LdError<E>> {
    match MessageType::parse_code::<E>(be16(b[4], b[5])) {
        Ok(ty) => Ok(FrameHeader { id: be16(b[0], b[1]), length: be16(b[2], b[3]), ty }),
        Err(e) => Err(e),
    }
}

/// Whether a header's declared length fits a buffer of `capacity` bytes and
/// is the length its message type carries.
pub open spec fn length_fits(h: FrameHeader, capacity: int) -> bool {
    h.length as int <= capacity && h.length == h.ty.body_len()
}

/// The error for a header whose declared length is refused.
pub open spec fn length_error<E>(h: FrameHeader) -> LdError<E> {
    LdError::InvalidDataLength { expected: h.ty.body_len(), got: h.length, ty: h.ty }
}

impl FrameHeader {
    /// Parses the seven header bytes.
    pub fn parse<E>(data: [u8; 7]) -> (r: Result<Self, LdError<E>>)
        ensures
            r == header_of::<E>(data@),
    {
        let code = read_be16(data[4], data[5]);
        let ty = match MessageType::try_from_code(code) {
            Ok(ty) => ty,
            Err(e) => return Err(e),
        };
        Ok(FrameHeader { id: read_be16(data[0], data[1]), length: read_be16(data[2], data[3]), ty })
    }
}

/// A body buffer of fixed capacity `N`, of which the first `len` bytes are
/// the body.
#[derive(Debug, Clone, Copy)]
pub struct FrameData<const N: usize> {
    data: [u8; N],
    len: u16,
}

impl<const N: usize> View for FrameData<N> {
    type V = Seq<u8>;

    closed spec fn view(&self) -> Seq<u8> {
        self.data@.subrange(0, self.len as int)
    }
}

impl<const N: usize> FrameData<N> {
    #[verifier::type_invariant]
    closed spec fn inv(self) -> bool {
        self.len as int <= N
    }

    pub fn len(&self) -> (r: u16)
        ensures
            r as int == self@.len(),
    {
        proof {
            use_type_invariant(self);
        }
        self.len
    }

    /// Checks the declared length of `header` against the capacity and the
    /// length its message type carries.
    pub fn validate<E>(header: &FrameHeader) -> (r: Result<(), LdError<E>>)
        ensures
            r == (if length_fits(*header, N as int) {
                Ok(())
            } else {
                Err(length_error::<E>(*header))
            }),
    {
        if header.length as usize > N || header.length != header.ty.expected_length() {
            Err(LdError::InvalidDataLength {
                got: header.length,
                expected: header.ty.expected_length(),
                ty: header.ty,
            })
        } else {
            Ok(())
        }
    }

    /// Validates `header`, then takes its body from the front of `input`;
    /// `Eof` where `input` holds fewer bytes than the header declares.
    pub fn read<E>(input: &[u8], header: &FrameHeader) -> (r: Result<Self, LdError<E>>)
        ensures
            !length_fits(*header, N as int) ==> r == Err::<Self, _>(length_error::<E>(*header)),
            length_fits(*header, N as int) && input@.len() < header.length ==> r
                == Err::<Self, _>(LdError::<E>::Eof),
            length_fits(*header, N as int) && input@.len() >= header.length ==> r is Ok
                && r->Ok_0@ == input@.subrange(0, header.length as int),
    {
        match Self::validate::<E>(header) {
            Err(e) => return Err(e),
            Ok(()) => {},
        }
        let n = header.length as usize;
        if input.len() < n {
            return Err(LdError::Eof);
        }
        let mut data = [0u8; N];
        let mut i: usize = 0;
        while i < n
            invariant
                n <= N,
                n <= input@.len(),
                i <= n,
                data@.len() == N,
                forall|j: int| 0 <= j < i ==> data@[j] == input@[j],
            decreases n - i,
        {
            data[i] = input[i];
            i = i + 1;
        }
        let r = FrameData { data, len: header.length };
        assert(r@ =~= input@.subrange(0, header.length as int));
        Ok(r)
    }

    /// The body bytes.
    pub fn as_ref(&self) -> (r: &[u8])
        ensures
            r@ == self@,
    {
        proof {
            use_type_invariant(self);
        }
        slice_subrange(self.data.as_slice(), 0, self.len as usize)
    }
}

/// A frame whose start byte, length and body checksum have been checked.
#[derive(Debug, Clone, Copy)]
pub struct Frame {
    pub header: FrameHeader,
    pub data: FrameData<BODY_CAPACITY>,
}

/// What a header, its body and the byte that follows the body make: the frame,
/// or `InvalidChecksum` where that byte is not the body's checksum.
pub open spec fn frame_of<E>(header: FrameHeader, body: Seq<u8>, trailer: u8) -> Result<
    (FrameHeader, Seq<u8>),
    LdError<E>,
> {
    if trailer == checksum_of(body) {
        Ok((header, body))
    } else {
        Err(LdError::InvalidChecksum { ty: ChecksumScope::Body, got: checksum_of(body), expected: trailer })
    }
}

/// Whether an executable frame result is the one a spec result describes.
pub open spec fn frame_result_is<E>(
    r: Result<Frame, LdError<E>>,
    s: Result<(FrameHeader, Seq<u8>), LdError<E>>,
) -> bool {
    match (r, s) {
        (Ok(f), Ok((h, b))) => f.header == h && f.data@ == b,
        (Err(e1), Err(e2)) => e1 == e2,
        _ => false,
    }
}

impl Frame {
    /// Checks the byte that follows the body against the body's checksum.
    pub fn assemble<E>(header: FrameHeader, data: FrameData<BODY_CAPACITY>, trailer: u8) -> (r: Result<
        Frame,
        LdError<E>,
    >)
        ensures
            frame_result_is(r, frame_of::<E>(header, data@, trailer)),
    {
        let calculated = checksum(data.as_ref());
        if trailer != calculated {
            return Err(LdError::InvalidChecksum { ty: ChecksumScope::Body, got: calculated, expected: trailer });
        }
        Ok(Frame { header, data })
    }
}

} // verus!
