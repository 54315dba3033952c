use embedded_io::{Read, ReadExactError};
use hlk_ld6002::{
    checksum, read_be16, read_le32, read_message, AsyncMessageStream, ChecksumScope, Data,
    FrameData, FrameHeader, FrameReader, LdError, MessageBody, MessageStream, MessageType,
};

type Ld = LdError<()>;

fn frame(id: u16, code: u16, body: &[u8]) -> Vec<u8> {
    let mut f = vec![1u8];
    f.extend_from_slice(&id.to_be_bytes());
    f.extend_from_slice(&(body.len() as u16).to_be_bytes());
    f.extend_from_slice(&code.to_be_bytes());
    f.push(0x5a);
    f.extend_from_slice(body);
    f.push(checksum(body));
    f
}

fn words(ws: &[u32]) -> Vec<u8> {
    ws.iter().flat_map(|w| w.to_le_bytes()).collect()
}

#[test]
fn checksum_of_empty_is_all_ones() {
    assert_eq!(checksum(&[]), 0xFF);
}

#[test]
fn checksum_is_complement_of_xor() {
    assert_eq!(checksum(&[0x01, 0x02]), 0xFC);
    assert_eq!(checksum(&[0xFF]), 0x00);
    assert_eq!(checksum(&[0x12, 0x34, 0x56]), !(0x12 ^ 0x34 ^ 0x56));
}

#[test]
fn checksum_closes_over_its_own_byte() {
    let mut b = vec![0x10u8, 0x20, 0x33, 0x7f];
    let c = checksum(&b);
    assert_eq!(!c, 0x10 ^ 0x20 ^ 0x33 ^ 0x7f);
    b.push(c);
    assert_eq!(checksum(&b), 0);
}

#[test]
fn message_type_codes() {
    assert_eq!(MessageType::try_from_code::<()>(0x0a13), Ok(MessageType::Phase));
    assert_eq!(MessageType::try_from_code::<()>(0x0a14), Ok(MessageType::Respiratory));
    assert_eq!(MessageType::try_from_code::<()>(0x0a15), Ok(MessageType::Heartbeat));
    assert_eq!(MessageType::try_from_code::<()>(0x0a16), Ok(MessageType::Distance));
    assert_eq!(MessageType::read::<()>([0x0a, 0x15]), Ok(MessageType::Heartbeat));
    assert_eq!(MessageType::Distance.code(), 0x0a16);
    assert_eq!(MessageType::Phase.expected_length(), 12);
    assert_eq!(MessageType::Respiratory.expected_length(), 4);
    assert_eq!(MessageType::Heartbeat.expected_length(), 4);
    assert_eq!(MessageType::Distance.expected_length(), 8);
}

#[test]
fn unknown_type_code_is_refused() {
    assert_eq!(MessageType::try_from_code::<()>(0xFFFF), Err(Ld::InvalidMessageType(0xFFFF)));
    let r = FrameHeader::parse::<()>([0, 1, 0, 4, 0xFF, 0xFF, 0]);
    assert_eq!(r, Err(Ld::InvalidMessageType(0xFFFF)));
    let mut f = frame(1, 0xFFFF, &[0; 4]);
    f.truncate(8);
    assert_eq!(read_message::<()>(&f), (Err(Ld::InvalidMessageType(0xFFFF)), 8));
}

#[test]
fn header_fields_are_big_endian() {
    let h = FrameHeader::parse::<()>([0x12, 0x34, 0x00, 0x0c, 0x0a, 0x13, 0x99]).unwrap();
    assert_eq!(h, FrameHeader { id: 0x1234, length: 12, ty: MessageType::Phase });
    assert_eq!(read_be16(0xab, 0xcd), 0xabcd);
    assert_eq!(read_le32(&[0x78, 0x56, 0x34, 0x12], 0), 0x1234_5678);
}

#[test]
fn wrong_length_is_refused() {
    let h = FrameHeader { id: 0, length: 6, ty: MessageType::Respiratory };
    let want = Ld::InvalidDataLength { expected: 4, got: 6, ty: MessageType::Respiratory };
    assert_eq!(FrameData::<16>::validate::<()>(&h), Err(want.clone()));
    let f = frame(0, 0x0a14, &[0; 6]);
    assert_eq!(read_message::<()>(&f), (Err(want), 8));
    let big = FrameHeader { id: 0, length: 12, ty: MessageType::Phase };
    assert!(FrameData::<8>::validate::<()>(&big).is_err());
    assert_eq!(FrameData::<16>::validate::<()>(&big), Ok(()));
}

#[test]
fn frame_data_takes_declared_bytes() {
    let h = FrameHeader { id: 0, length: 4, ty: MessageType::Heartbeat };
    let d = FrameData::<16>::read::<()>(&[9, 8, 7, 6, 5], &h).unwrap();
    assert_eq!(d.len(), 4);
    assert_eq!(d.as_ref(), &[9, 8, 7, 6]);
    assert_eq!(FrameData::<16>::read::<()>(&[9, 8, 7], &h).err(), Some(Ld::Eof));
}

#[test]
fn bad_start_byte_takes_one_byte() {
    let mut f = frame(0, 0x0a15, &words(&[72.5f32.to_bits()]));
    f[0] = 0x00;
    assert_eq!(read_message::<()>(&f), (Err(Ld::InvalidFrameStart(0x00)), 1));
}

#[test]
fn changed_body_byte_fails_checksum() {
    let body = words(&[1, 3.5f32.to_bits()]);
    let good = checksum(&body);
    for i in 0..body.len() {
        let mut f = frame(3, 0x0a16, &body);
        f[8 + i] ^= 0x40;
        let mut changed = body.clone();
        changed[i] ^= 0x40;
        let got = checksum(&changed);
        assert_ne!(got, good);
        let want = Ld::InvalidChecksum { ty: ChecksumScope::Body, got, expected: good };
        assert_eq!(read_message::<()>(&f), (Err(want), 17));
    }
}

#[test]
fn round_trip_each_type() {
    let phase = [1.5f32.to_bits(), (-2.25f32).to_bits(), f32::NAN.to_bits()];
    let f = frame(7, 0x0a13, &words(&phase));
    assert_eq!(read_message::<()>(&f), (Ok(MessageBody::Phase(phase)), 21));
    let r = 17.0f32.to_bits();
    let f = frame(8, 0x0a14, &words(&[r]));
    assert_eq!(read_message::<()>(&f), (Ok(MessageBody::Respiratory(r)), 13));
    let h = (-0.0f32).to_bits();
    let f = frame(9, 0x0a15, &words(&[h]));
    assert_eq!(read_message::<()>(&f), (Ok(MessageBody::Heartbeat(h)), 13));
    let d = 0.75f32.to_bits();
    let mut f = frame(10, 0x0a16, &words(&[1, d]));
    f.extend_from_slice(&[1, 2, 3]);
    assert_eq!(read_message::<()>(&f), (Ok(MessageBody::Distance(Some(d))), 17));
}

#[test]
fn distance_flag_word() {
    let f = frame(0, 0x0a16, &[0, 0, 0, 0, 0, 0, 0, 0]);
    assert_eq!(read_message::<()>(&f), (Ok(MessageBody::Distance(Some(0))), 17));
    let f = frame(0, 0x0a16, &words(&[2, 3.5f32.to_bits()]));
    assert_eq!(read_message::<()>(&f), (Ok(MessageBody::Distance(Some(0))), 17));
    let f = frame(0, 0x0a16, &words(&[1, 3.5f32.to_bits()]));
    let (m, _) = read_message::<()>(&f);
    assert_eq!(m, Ok(MessageBody::Distance(Some(3.5f32.to_bits()))));
}

#[test]
fn truncated_input_is_eof() {
    let f = frame(0, 0x0a15, &words(&[72.5f32.to_bits()]));
    for n in 0..f.len() {
        assert_eq!(read_message::<()>(&f[..n]), (Err(Ld::Eof), n));
    }
}

#[test]
fn aggregator_latches_positive_heartbeat() {
    let mut d = Data::default();
    assert_eq!(d, Data { respiratory: 0, distance: 0, heartbeat: 0 });
    d.update(MessageBody::Heartbeat(72.5f32.to_bits()));
    assert_eq!(f32::from_bits(d.heartbeat), 72.5);
    d.update(MessageBody::Heartbeat(0.0f32.to_bits()));
    assert_eq!(f32::from_bits(d.heartbeat), 72.5);
    d.update(MessageBody::Heartbeat(80.0f32.to_bits()));
    assert_eq!(f32::from_bits(d.heartbeat), 80.0);
}

#[test]
fn aggregator_ignores_non_positive_values() {
    let mut d = Data::default();
    d.update(MessageBody::Respiratory(12.0f32.to_bits()));
    d.update(MessageBody::Respiratory((-1.0f32).to_bits()));
    d.update(MessageBody::Respiratory(f32::NAN.to_bits()));
    d.update(MessageBody::Respiratory((-0.0f32).to_bits()));
    assert_eq!(f32::from_bits(d.respiratory), 12.0);
    d.update(MessageBody::Distance(None));
    d.update(MessageBody::Distance(Some(0.0f32.to_bits())));
    assert_eq!(d.distance, 0);
    d.update(MessageBody::Distance(Some(1.25f32.to_bits())));
    assert_eq!(f32::from_bits(d.distance), 1.25);
    d.update(MessageBody::Distance(Some(f32::INFINITY.to_bits())));
    assert_eq!(f32::from_bits(d.distance), f32::INFINITY);
    d.update(MessageBody::Phase([1, 2, 3]));
    assert_eq!(f32::from_bits(d.heartbeat), 0.0);
}

fn drive(bytes: &[u8]) -> Vec<Result<MessageBody, Ld>> {
    let mut s = MessageStream::new(bytes);
    let mut out = Vec::new();
    loop {
        let n = s.wanted();
        if s.reader.len() < n {
            break;
        }
        let (chunk, rest) = s.reader.split_at(n);
        s.reader = rest;
        if let Some(m) = s.next::<()>(chunk) {
            out.push(m);
        }
    }
    out
}

#[test]
fn stream_yields_one_heartbeat() {
    let hb = 72.5f32.to_bits().to_le_bytes();
    let body_chk = checksum(&hb);
    let bytes = [0x01, 0x00, 0x07, 0x00, 0x04, 0x0a, 0x15, 0x33, hb[0], hb[1], hb[2], hb[3], body_chk];
    let out = drive(&bytes);
    assert_eq!(out, vec![Ok(MessageBody::Heartbeat(72.5f32.to_bits()))]);
    assert_eq!(read_message::<()>(&bytes), (Ok(MessageBody::Heartbeat(72.5f32.to_bits())), 13));
}

#[test]
fn stream_reads_frames_back_to_back() {
    let mut bytes = frame(1, 0x0a14, &words(&[15.0f32.to_bits()]));
    bytes.extend(frame(2, 0x0a13, &words(&[1, 2, 3])));
    bytes.push(0x07);
    let out = drive(&bytes);
    assert_eq!(
        out,
        vec![
            Ok(MessageBody::Respiratory(15.0f32.to_bits())),
            Ok(MessageBody::Phase([1, 2, 3])),
            Err(Ld::InvalidFrameStart(0x07)),
        ]
    );
}

#[test]
fn frame_reader_steps() {
    let mut r = FrameReader::new();
    assert_eq!(r.wanted(), 1);
    assert!(r.feed::<()>(&[1]).is_none());
    assert_eq!(r.wanted(), 7);
    assert!(r.feed::<()>(&[0, 0, 0, 12, 0x0a, 0x13, 0]).is_none());
    assert_eq!(r.wanted(), 12);
    let body = words(&[4, 5, 6]);
    assert!(r.feed::<()>(&body).is_none());
    assert_eq!(r.wanted(), 1);
    let f = r.feed::<()>(&[checksum(&body)]).unwrap().unwrap();
    assert_eq!(f.header, FrameHeader { id: 0, length: 12, ty: MessageType::Phase });
    assert_eq!(f.body::<()>(), Ok(MessageBody::Phase([4, 5, 6])));
    assert_eq!(r.wanted(), 1);
}

#[test]
fn async_stream_steps_like_blocking() {
    let bytes = frame(5, 0x0a15, &words(&[60.0f32.to_bits()]));
    let mut s = AsyncMessageStream::new(());
    let mut pos = 0;
    let mut got = None;
    while got.is_none() {
        let n = s.wanted();
        let frame = s.read::<()>(&bytes[pos..pos + n]);
        pos += n;
        got = frame;
    }
    let f = got.unwrap().unwrap();
    assert_eq!(f.body::<()>(), Ok(MessageBody::Heartbeat(60.0f32.to_bits())));
    assert_eq!(pos, bytes.len());
}

#[test]
fn read_exact_errors_map_to_reading_errors() {
    assert_eq!(LdError::from(ReadExactError::<u8>::UnexpectedEof), LdError::Eof);
    assert_eq!(LdError::from(ReadExactError::Other(5u8)), LdError::Read(5u8));
}

#[test]
fn stream_over_embedded_io_reader() {
    let mut bytes = frame(1, 0x0a15, &words(&[72.5f32.to_bits()]));
    bytes.extend(frame(2, 0x0a14, &words(&[16.0f32.to_bits()])));
    bytes.extend_from_slice(&[1, 0]);
    let mut s = MessageStream::new(&bytes[..]);
    let mut out = Vec::new();
    let mut buf = [0u8; 16];
    for _ in 0..3 {
        loop {
            let n = s.wanted();
            if let Err(e) = s.reader.read_exact(&mut buf[..n]) {
                out.push(Err(LdError::from(e)));
                s.frames = FrameReader::new();
                break;
            }
            if let Some(m) = s.next(&buf[..n]) {
                out.push(m);
                break;
            }
        }
    }
    assert_eq!(
        out,
        vec![
            Ok(MessageBody::Heartbeat(72.5f32.to_bits())),
            Ok(MessageBody::Respiratory(16.0f32.to_bits())),
            Err(LdError::<core::convert::Infallible>::Eof),
        ]
    );
}
