use vstd::prelude::*;
use crate::frame::{Frame, LdError, MessageType};

verus! {

/// The decoded message from the sensor. Each measured value is the bit
/// pattern of an IEEE-754 single-precision number, as sent.
#[derive(Debug, Clone, Copy, PartialEq, Eq)]
pub enum MessageBody {
    Phase([u32; 3]),
    Respiratory(u32),
    Heartbeat(u32),
    Distance(Option<u32>),
}

/// The little-endian 32-bit word at offset `i` of `b`.
pub open spec fn le32(b: Seq<u8>, i: int) -> u32 {
    (b[i] as int + 256 * b[i + 1] as int + 65536 * b[i + 2] as int + 16777216 * b[i + 3] as int) as u32
}

/// Reads the little-endian 32-bit word at offset `i` of `b`.
pub fn read_le32(b: &[u8], i: usize) -> (r: u32)
    requires
        i + 4 <= b@.len(),
    ensures
        r == le32(b@, i as int),
{
    (b[i] as u32) + 256 * (b[i + 1] as u32) + 65536 * (b[i + 2] as u32) + 16777216 * (b[i + 3] as u32)
}

/// What a body of message type `ty` decodes to: Phase takes three words,
/// Respiratory and Heartbeat one; an eight-byte Distance is a flag word and a
/// value, the value counting only where the flag is `1` (else zero), and a
/// four-byte Distance carries no value. Any other length is refused.
pub open spec fn decode<E>(ty: MessageType, b: Seq<u8>) -> Result<MessageBody, LdError<E>> {
    let refused = LdError::InvalidDataLength { expected: ty.body_len(), got: b.len() as u16, ty };
    match ty {
        MessageType::Phase => if b.len() == 12 {
            Ok(MessageBody::Phase([le32(b, 0), le32(b, 4), le32(b, 8)]))
        } else {
            Err(refused)
        },
        MessageType::Respiratory => if b.len() == 4 {
            Ok(MessageBody::Respiratory(le32(b, 0)))
        } else {
            Err(refused)
        },
        MessageType::Heartbeat => if b.len() == 4 {
            Ok(MessageBody::Heartbeat(le32(b, 0)))
        } else {
            Err(refused)
        },
        MessageType::Distance => if b.len() == 8 {
            Ok(MessageBody::Distance(Some(if le32(b, 0) == 1 { le32(b, 4) } else { 0 })))
        } else if b.len() == 4 {
            Ok(MessageBody::Distance(None))
        } else {
            Err(refused)
        },
    }
}

impl Frame {
    /// Decodes the body of the frame according to its message type.
    pub fn body<E>(&self) -> (r: Result<MessageBody, LdError<E>>)
        ensures
            r == decode::<E>(self.header.ty, self.data@),
    {
        let bytes = self.data.as_ref();
        let len = self.data.len();
        match self.header.ty {
            MessageType::Phase if len == 12 => {
                let words = [read_le32(bytes, 0), read_le32(bytes, 4), read_le32(bytes, 8)];
                Ok(MessageBody::Phase(words))
            },
            MessageType::Respiratory if len == 4 => Ok(MessageBody::Respiratory(read_le32(bytes, 0))),
            MessageType::Heartbeat if len == 4 => Ok(MessageBody::Heartbeat(read_le32(bytes, 0))),
            MessageType::Distance if len == 8 => {
                let distance = if read_le32(bytes, 0) == 1 {
                    read_le32(bytes, 4)
                } else {
                    0
                };
                Ok(MessageBody::Distance(Some(distance)))
            },
            MessageType::Distance if len == 4 => Ok(MessageBody::Distance(None)),
            _ => Err(LdError::InvalidDataLength {
                got: len,
                expected: self.header.ty.expected_length(),
                ty: self.header.ty,
            }),
        }
    }
}

} // verus!
