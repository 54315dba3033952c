//! Decoding of the serial frame protocol spoken by HLK-LD6002 radar
//! respiration and heartbeat sensors.
//!
//! The bytes of one frame are: a start byte `1`, a seven-byte header (sequence
//! id, body length and message type, big endian, then a header checksum byte
//! that is not checked), the body, and a body checksum byte.
//!
//! Reading is done by [`FrameReader`], which asks for a number of bytes at a
//! time and decides on each chunk it is handed; a blocking or a suspending
//! byte source drives it from outside. Measured values are kept as the raw
//! bit patterns of IEEE-754 single-precision numbers.

mod checksum;
mod frame;
mod decode;
mod stream;
mod message_stream;
mod data;
mod wire;
mod source_error;

pub use checksum::{checksum, checksum_of, lemma_checksum_closes, lemma_checksum_empty, xor_fold};
pub use data::{is_positive, positive, updated, Data};
pub use decode::{decode, le32, read_le32, MessageBody};
pub use frame::{
    be16, frame_of, frame_result_is, header_of, length_error, length_fits, read_be16,
    ChecksumScope, Frame, FrameData, FrameHeader, LdError, MessageType, BODY_CAPACITY,
};
pub use message_stream::{AsyncMessageStream, MessageStream};
pub use source_error::read_error;
pub use stream::{
    frame_at, frame_step, frame_unfinished, lemma_frame_prefix, message_at, message_step,
    read_message, FrameReader,
};
pub use wire::{
    be16_bytes, encode_body, encode_frame, frame_bytes, lemma_changed_body_byte,
    lemma_round_trip, le32_bytes, type_of,
};
