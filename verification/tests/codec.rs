use nbd_core::message::message_bytes;
use nbd_core::options::{Info, NbdOption, OptionError, OptionReplyType, Reply as OptionReply};
use nbd_core::reply::SimpleReply;
use nbd_core::request::{Flags, Request, RequestError, RequestType};
use nbd_core::structured::{ChunkType, StructuredReplyChunk};

fn be32(x: u32) -> Vec<u8> {
    x.to_be_bytes().to_vec()
}

fn be16(x: u16) -> Vec<u8> {
    x.to_be_bytes().to_vec()
}

fn option_frame(id: u32, payload: &[u8]) -> Vec<u8> {
    let mut f = be32(id);
    f.extend_from_slice(&be32(payload.len() as u32));
    f.extend_from_slice(payload);
    f
}

#[test]
fn parse_abort_and_plain_options() {
    assert!(matches!(
        NbdOption::try_from(&option_frame(1, &[])),
        Ok(NbdOption::ExportName)
    ));
    assert!(matches!(NbdOption::try_from(&option_frame(2, &[])), Ok(NbdOption::Abort)));
    assert!(matches!(NbdOption::try_from(&option_frame(3, &[])), Ok(NbdOption::List)));
    assert!(matches!(NbdOption::try_from(&option_frame(4, &[])), Ok(NbdOption::PeekExport)));
    assert!(matches!(NbdOption::try_from(&option_frame(5, &[])), Ok(NbdOption::Starttls)));
    assert!(matches!(
        NbdOption::try_from(&option_frame(10, &[])),
        Ok(NbdOption::SetMetaContext)
    ));
}

#[test]
fn parse_too_short_header() {
    assert!(matches!(
        NbdOption::try_from(&[0u8, 0, 0]),
        Err(OptionError::TooShort)
    ));
}

#[test]
fn parse_unknown_option_id() {
    assert!(matches!(
        NbdOption::try_from(&option_frame(99, &[])),
        Err(OptionError::UnknownOption(99))
    ));
}

#[test]
fn short_payload_requires_exactly_missing_bytes() {
    // data_len says 10, only 4 payload bytes sent: ask for the other 6.
    let mut f = be32(6);
    f.extend_from_slice(&be32(10));
    f.extend_from_slice(&[1, 2, 3, 4]);
    assert!(matches!(
        NbdOption::try_from(&f),
        Err(OptionError::RequireData(6))
    ));
}

#[test]
fn parse_info_with_name_and_requests() {
    let mut payload = be32(4);
    payload.extend_from_slice(b"disk");
    payload.extend_from_slice(&be16(2));
    payload.extend_from_slice(&be16(0));
    payload.extend_from_slice(&be16(3));
    match NbdOption::try_from(&option_frame(6, &payload)) {
        Ok(NbdOption::Info(name, reqs)) => {
            assert_eq!(name, Some(b"disk".to_vec()));
            assert_eq!(reqs, Some(vec![Info::Export, Info::BlockSize]));
        },
        other => panic!("unexpected parse: {:?}", other),
    }
}

#[test]
fn unknown_info_codes_are_dropped() {
    let mut payload = be32(0);
    payload.extend_from_slice(&be16(3));
    payload.extend_from_slice(&be16(1));
    payload.extend_from_slice(&be16(700));
    payload.extend_from_slice(&be16(2));
    match NbdOption::try_from(&option_frame(7, &payload)) {
        Ok(NbdOption::Go(name, reqs)) => {
            assert_eq!(name, None);
            assert_eq!(reqs, Some(vec![Info::Name, Info::Description]));
        },
        other => panic!("unexpected parse: {:?}", other),
    }
}

#[test]
fn truncated_info_payload_is_a_parse_error() {
    // name_len says 8 but only 2 name bytes fit in the payload.
    let mut payload = be32(8);
    payload.extend_from_slice(b"ab");
    assert!(matches!(
        NbdOption::try_from(&option_frame(6, &payload)),
        Err(OptionError::Parse)
    ));
}

#[test]
fn parse_list_meta_context_queries() {
    let mut payload = be32(0);
    payload.extend_from_slice(&be32(2));
    payload.extend_from_slice(&be32(4));
    payload.extend_from_slice(b"base");
    payload.extend_from_slice(&be32(5));
    payload.extend_from_slice(b"depth");
    match NbdOption::try_from(&option_frame(9, &payload)) {
        Ok(NbdOption::ListMetaContext(name, qs)) => {
            assert_eq!(name, None);
            assert_eq!(qs, Some(vec![b"base".to_vec(), b"depth".to_vec()]));
        },
        other => panic!("unexpected parse: {:?}", other),
    }
}

#[test]
fn structured_reply_option_payload_must_be_empty() {
    assert!(matches!(
        NbdOption::try_from(&option_frame(8, &[])),
        Ok(NbdOption::StructuredReply(true))
    ));
    assert!(matches!(
        NbdOption::try_from(&option_frame(8, &[0, 0, 0, 0])),
        Ok(NbdOption::StructuredReply(false))
    ));
}

#[test]
fn option_round_trips() {
    let cases = vec![
        NbdOption::ExportName,
        NbdOption::Abort,
        NbdOption::List,
        NbdOption::PeekExport,
        NbdOption::Starttls,
        NbdOption::Info(Some(b"disk".to_vec()), Some(vec![Info::Export, Info::Name])),
        NbdOption::Go(None, Some(vec![Info::BlockSize])),
        NbdOption::Go(Some(b"x".to_vec()), None),
        NbdOption::StructuredReply(true),
        NbdOption::StructuredReply(false),
        NbdOption::ListMetaContext(Some(b"disk".to_vec()), Some(vec![b"base".to_vec()])),
        NbdOption::ListMetaContext(None, None),
        NbdOption::SetMetaContext,
    ];
    for opt in cases {
        let encoded = opt.encode();
        let parsed = NbdOption::try_from(&encoded).expect("round trip parse");
        assert_eq!(format!("{:?}", parsed), format!("{:?}", opt));
    }
}

#[test]
fn option_codes_match_the_wire() {
    assert_eq!(NbdOption::ExportName.code(), 1);
    assert_eq!(NbdOption::Abort.code(), 2);
    assert_eq!(NbdOption::List.code(), 3);
    assert_eq!(NbdOption::Go(None, None).code(), 7);
    assert_eq!(NbdOption::StructuredReply(true).code(), 8);
    assert_eq!(Info::from_u16(3), Some(Info::BlockSize));
    assert_eq!(Info::from_u16(9), None);
    assert_eq!(Info::Description.to_u16(), 2);
    assert_eq!(OptionReplyType::Ack.code(), 1);
    assert_eq!(OptionReplyType::ErrUnsup.code(), 0x8000_0001);
    assert_eq!(OptionReplyType::ErrInvalid.code(), 0x8000_0003);
}

#[test]
fn option_reply_header_layout() {
    let rep = OptionReply::new(7, OptionReplyType::Ack, None);
    let bytes = message_bytes(&rep);
    let mut expect = 0x3e889045565a9u64.to_be_bytes().to_vec();
    expect.extend_from_slice(&be32(7));
    expect.extend_from_slice(&be32(1));
    expect.extend_from_slice(&be32(0));
    assert_eq!(bytes, expect);
}

#[test]
fn request_round_trip() {
    let req = Request {
        type_: RequestType::Write,
        flags: Flags::from_bits(0b10101),
        handle: 0xDEAD_BEEF_0102_0304,
        offset: 77,
        len: 3,
        data: Some(vec![9, 8, 7]),
    };
    let encoded = req.encode();
    let parsed = Request::try_from(&encoded).expect("round trip parse");
    assert!(matches!(parsed.type_, RequestType::Write));
    assert_eq!(parsed.flags, Flags::from_bits(0b10101));
    assert_eq!(parsed.handle, 0xDEAD_BEEF_0102_0304);
    assert_eq!(parsed.offset, 77);
    assert_eq!(parsed.len, 3);
    assert_eq!(parsed.data, Some(vec![9, 8, 7]));
}

#[test]
fn request_flags_bits() {
    let f = Flags::from_bits(0b00101);
    assert!(f.fua && !f.no_hole && f.dont_fragment && !f.request_one && !f.fast_zero);
    assert_eq!(f.to_bits(), 0b00101);
}

#[test]
fn request_errors() {
    assert!(matches!(
        Request::try_from(&[0u8; 10]),
        Err(RequestError::BufferTooShort)
    ));
    // type code 42 does not exist
    let mut buf = vec![0u8, 0, 0, 42];
    buf.extend_from_slice(&[0u8; 20]);
    assert!(matches!(Request::try_from(&buf), Err(RequestError::UnknownType)));
}

#[test]
fn simple_reply_round_trip() {
    let rep = SimpleReply::new(0, 0x1122_3344_5566_7788, Some(vec![2, 3, 4, 5]));
    let bytes = message_bytes(&rep);
    let mut expect = be32(0x67446698);
    expect.extend_from_slice(&be32(0));
    expect.extend_from_slice(&0x1122_3344_5566_7788u64.to_be_bytes());
    expect.extend_from_slice(&[2, 3, 4, 5]);
    assert_eq!(bytes, expect);
    let parsed = SimpleReply::parse(&bytes).expect("round trip parse");
    assert_eq!(parsed.error, 0);
    assert_eq!(parsed.handle, 0x1122_3344_5566_7788);
    assert_eq!(parsed.data, Some(vec![2, 3, 4, 5]));
}

#[test]
fn simple_reply_wrong_magic_refused() {
    let mut bytes = be32(0x11111111);
    bytes.extend_from_slice(&[0u8; 12]);
    assert!(SimpleReply::parse(&bytes).is_none());
}

#[test]
fn chunk_round_trip() {
    let chunk = StructuredReplyChunk::new(
        ChunkType::OffsetData,
        0xAB,
        Some(vec![0, 0, 0, 0, 0, 0, 0, 2, 9, 9]),
        true,
    );
    let bytes = message_bytes(&chunk);
    let mut expect = be32(0x668e33ef);
    expect.extend_from_slice(&be16(1));
    expect.extend_from_slice(&be16(1));
    expect.extend_from_slice(&0xABu64.to_be_bytes());
    expect.extend_from_slice(&be32(10));
    expect.extend_from_slice(&[0, 0, 0, 0, 0, 0, 0, 2, 9, 9]);
    assert_eq!(bytes, expect);
    let parsed = StructuredReplyChunk::parse(&bytes).expect("round trip parse");
    assert_eq!(parsed.flags, 1);
    assert!(matches!(parsed.type_, ChunkType::OffsetData));
    assert_eq!(parsed.handle, 0xAB);
    assert_eq!(parsed.len, 10);
    assert_eq!(parsed.data, Some(vec![0, 0, 0, 0, 0, 0, 0, 2, 9, 9]));
}

#[test]
fn chunk_type_codes_match_the_wire() {
    assert_eq!(ChunkType::NoData.to_u16(), 0);
    assert_eq!(ChunkType::OffsetData.to_u16(), 1);
    assert_eq!(ChunkType::Error.to_u16(), 0x8001);
    assert_eq!(ChunkType::from_u16(0x8002), Some(ChunkType::ErrorOffset));
    assert_eq!(ChunkType::from_u16(3), None);
}
