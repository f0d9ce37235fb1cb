use nbd_core::export::MemExport;
use nbd_core::options::OptionReplyType;
use nbd_core::reply::Reply;
use nbd_core::request::{Flags, Request, RequestType};
use nbd_core::session::{
    handshake_greeting, HaggleStep, NegotiationOutcome, Phase, Session,
};
use nbd_core::structured::ChunkType;

fn be32(x: u32) -> Vec<u8> {
    x.to_be_bytes().to_vec()
}

fn be16(x: u16) -> Vec<u8> {
    x.to_be_bytes().to_vec()
}

fn option_frame(id: u32, payload: &[u8]) -> Vec<u8> {
    let mut f = be32(id);
    f.extend_from_slice(&be32(payload.len() as u32));
    f.extend_from_slice(payload);
    f
}

fn negotiating_session(size: u64) -> Session {
    let mut s = Session::new(b"disk".to_vec(), size, 1024);
    s.greeting_done();
    s
}

fn read_request(handle: u64, offset: u64, len: u32) -> Request {
    Request {
        type_: RequestType::Read,
        flags: Flags::from_bits(0),
        handle,
        offset,
        len,
        data: None,
    }
}

#[test]
fn greeting_bytes_and_phase() {
    let g = handshake_greeting();
    let mut expect = 0x4e42444d41474943u64.to_be_bytes().to_vec();
    expect.extend_from_slice(&0x49484156454F5054u64.to_be_bytes());
    expect.extend_from_slice(&be16(0x0003));
    assert_eq!(g, expect);
    let mut s = Session::new(b"disk".to_vec(), 8, 1024);
    assert!(matches!(s.phase, Phase::Handshake));
    s.greeting_done();
    assert!(matches!(s.phase, Phase::Negotiating));
}

#[test]
fn go_answers_export_info_then_ack() {
    // Export size 1024: one implicit Export info request.
    let mut s = negotiating_session(1024);
    let mut payload = be32(0);
    payload.extend_from_slice(&be16(1));
    payload.extend_from_slice(&be16(0));
    match s.negotiate_step(&option_frame(7, &payload)) {
        HaggleStep::Respond(reps, out) => {
            assert!(matches!(out, NegotiationOutcome::Ready));
            assert_eq!(reps.len(), 2);
            assert_eq!(reps[0].option_type, 7);
            assert!(matches!(reps[0].reply_type, OptionReplyType::Info));
            let mut info = be16(0);
            info.extend_from_slice(&1024u64.to_be_bytes());
            info.extend_from_slice(&be16(0x0003));
            assert_eq!(reps[0].data, Some(info));
            assert_eq!(reps[1].option_type, 7);
            assert!(matches!(reps[1].reply_type, OptionReplyType::Ack));
            assert!(reps[1].data.is_none());
        },
        HaggleStep::NeedBytes(n) => panic!("unexpected demand for {} bytes", n),
    }
    assert!(matches!(s.phase, Phase::Ready));
}

#[test]
fn info_prepends_export_and_keeps_negotiating() {
    let mut s = negotiating_session(512);
    // One info request: Name. Export is implicit and answered first.
    let mut payload = be32(0);
    payload.extend_from_slice(&be16(1));
    payload.extend_from_slice(&be16(1));
    match s.negotiate_step(&option_frame(6, &payload)) {
        HaggleStep::Respond(reps, out) => {
            assert!(matches!(out, NegotiationOutcome::Continue));
            assert_eq!(reps.len(), 3);
            assert!(matches!(reps[0].reply_type, OptionReplyType::Info));
            let mut export_info = be16(0);
            export_info.extend_from_slice(&512u64.to_be_bytes());
            export_info.extend_from_slice(&be16(0x0003));
            assert_eq!(reps[0].data, Some(export_info));
            let mut name_info = be16(1);
            name_info.extend_from_slice(b"disk");
            assert_eq!(reps[1].data, Some(name_info));
            assert!(matches!(reps[2].reply_type, OptionReplyType::Ack));
        },
        HaggleStep::NeedBytes(n) => panic!("unexpected demand for {} bytes", n),
    }
    assert!(matches!(s.phase, Phase::Negotiating));
}

#[test]
fn structured_reply_with_payload_is_invalid_and_stays_off() {
    let mut s = negotiating_session(8);
    match s.negotiate_step(&option_frame(8, &[0, 0, 0, 0])) {
        HaggleStep::Respond(reps, out) => {
            assert!(matches!(out, NegotiationOutcome::Continue));
            assert_eq!(reps.len(), 1);
            assert_eq!(reps[0].option_type, 8);
            assert!(matches!(reps[0].reply_type, OptionReplyType::ErrInvalid));
        },
        HaggleStep::NeedBytes(n) => panic!("unexpected demand for {} bytes", n),
    }
    assert!(!s.structured_replies_enabled);
    // A later read is answered with a simple reply.
    s.handle_option(nbd_core::options::NbdOption::Go(None, None));
    s.start_serving();
    let export = MemExport::new(vec![0, 1, 2, 3, 4, 5, 6, 7]);
    match s.handle_request(read_request(7, 0, 4), &export) {
        Reply::Simple(rep) => assert_eq!(rep.data, Some(vec![0, 1, 2, 3])),
        _ => panic!("expected a simple reply"),
    }
}

#[test]
fn structured_reply_with_empty_payload_enables_the_feature() {
    let mut s = negotiating_session(8);
    match s.negotiate_step(&option_frame(8, &[])) {
        HaggleStep::Respond(reps, out) => {
            assert!(matches!(out, NegotiationOutcome::Continue));
            assert_eq!(reps.len(), 1);
            assert!(matches!(reps[0].reply_type, OptionReplyType::Ack));
        },
        HaggleStep::NeedBytes(n) => panic!("unexpected demand for {} bytes", n),
    }
    assert!(s.structured_replies_enabled);
}

#[test]
fn list_names_the_export() {
    let mut s = negotiating_session(8);
    match s.negotiate_step(&option_frame(3, &[])) {
        HaggleStep::Respond(reps, out) => {
            assert!(matches!(out, NegotiationOutcome::Continue));
            assert_eq!(reps.len(), 2);
            assert!(matches!(reps[0].reply_type, OptionReplyType::Server));
            let mut entry = be32(4);
            entry.extend_from_slice(b"disk");
            assert_eq!(reps[0].data, Some(entry));
            assert!(matches!(reps[1].reply_type, OptionReplyType::Ack));
        },
        HaggleStep::NeedBytes(n) => panic!("unexpected demand for {} bytes", n),
    }
}

#[test]
fn abort_acknowledges_and_closes() {
    let mut s = negotiating_session(8);
    match s.negotiate_step(&option_frame(2, &[])) {
        HaggleStep::Respond(reps, out) => {
            assert!(matches!(out, NegotiationOutcome::Aborted));
            assert_eq!(reps.len(), 1);
            assert_eq!(reps[0].option_type, 2);
            assert!(matches!(reps[0].reply_type, OptionReplyType::Ack));
        },
        HaggleStep::NeedBytes(n) => panic!("unexpected demand for {} bytes", n),
    }
    assert!(matches!(s.phase, Phase::Closed));
}

#[test]
fn export_name_and_unknown_options_are_unsupported() {
    let mut s = negotiating_session(8);
    match s.negotiate_step(&option_frame(1, &[])) {
        HaggleStep::Respond(reps, _) => {
            assert_eq!(reps[0].option_type, 1);
            assert!(matches!(reps[0].reply_type, OptionReplyType::ErrUnsup));
        },
        HaggleStep::NeedBytes(n) => panic!("unexpected demand for {} bytes", n),
    }
    match s.negotiate_step(&option_frame(99, &[])) {
        HaggleStep::Respond(reps, _) => {
            assert_eq!(reps[0].option_type, 99);
            assert!(matches!(reps[0].reply_type, OptionReplyType::ErrUnsup));
        },
        HaggleStep::NeedBytes(n) => panic!("unexpected demand for {} bytes", n),
    }
}

#[test]
fn a_frame_fed_in_pieces_parses_like_the_whole() {
    // An Info frame with a name, cut at every position: the negotiator
    // asks for exactly the missing bytes until the frame is whole.
    let mut payload = be32(4);
    payload.extend_from_slice(b"disk");
    payload.extend_from_slice(&be16(0));
    let frame = option_frame(6, &payload);
    let mut s = negotiating_session(64);
    let mut buffered: Vec<u8> = Vec::new();
    let mut sent = 0usize;
    loop {
        match s.negotiate_step(&buffered) {
            HaggleStep::NeedBytes(n) => {
                assert!(n > 0 && sent + n <= frame.len());
                buffered.extend_from_slice(&frame[sent..sent + n]);
                sent += n;
            },
            HaggleStep::Respond(reps, out) => {
                assert_eq!(sent, frame.len());
                assert!(matches!(out, NegotiationOutcome::Continue));
                // Same answer as parsing the whole frame at once.
                let mut fresh = negotiating_session(64);
                match fresh.negotiate_step(&frame) {
                    HaggleStep::Respond(whole_reps, _) => {
                        assert_eq!(reps.len(), whole_reps.len());
                        for (a, b) in reps.iter().zip(whole_reps.iter()) {
                            assert_eq!(a.option_type, b.option_type);
                            assert_eq!(a.data, b.data);
                        }
                    },
                    HaggleStep::NeedBytes(n) => panic!("unexpected demand for {} bytes", n),
                }
                break;
            },
        }
    }
}

#[test]
fn malformed_payload_is_refused_as_invalid() {
    // data_len covers only half of the name the payload declares.
    let mut payload = be32(40);
    payload.extend_from_slice(b"ab");
    let mut s = negotiating_session(8);
    match s.negotiate_step(&option_frame(6, &payload)) {
        HaggleStep::Respond(reps, out) => {
            assert!(matches!(out, NegotiationOutcome::Continue));
            assert_eq!(reps[0].option_type, 6);
            assert!(matches!(reps[0].reply_type, OptionReplyType::ErrInvalid));
        },
        HaggleStep::NeedBytes(n) => panic!("unexpected demand for {} bytes", n),
    }
}

fn serving_session(size: u64, structured: bool) -> Session {
    let mut s = negotiating_session(size);
    if structured {
        s.handle_option(nbd_core::options::NbdOption::StructuredReply(true));
    }
    s.handle_option(nbd_core::options::NbdOption::Go(None, None));
    s.start_serving();
    s
}

#[test]
fn simple_read_returns_the_range() {
    let export = MemExport::new(vec![0, 1, 2, 3, 4, 5, 6, 7]);
    let s = serving_session(8, false);
    match s.handle_request(read_request(0xAAAA, 2, 4), &export) {
        Reply::Simple(rep) => {
            assert_eq!(rep.error, 0);
            assert_eq!(rep.handle, 0xAAAA);
            assert_eq!(rep.data, Some(vec![2, 3, 4, 5]));
        },
        _ => panic!("expected a simple reply"),
    }
}

#[test]
fn read_to_the_exact_end_is_accepted() {
    let export = MemExport::new(vec![9; 16]);
    let s = serving_session(16, false);
    match s.handle_request(read_request(1, 8, 8), &export) {
        Reply::Simple(rep) => {
            assert_eq!(rep.error, 0);
            assert_eq!(rep.data, Some(vec![9; 8]));
        },
        _ => panic!("expected a simple reply"),
    }
}

#[test]
fn read_past_the_end_is_einval() {
    let export = MemExport::new(vec![9; 16]);
    let s = serving_session(16, false);
    match s.handle_request(read_request(1, 9, 8), &export) {
        Reply::Simple(rep) => {
            assert_eq!(rep.error, 22);
            assert_eq!(rep.handle, 1);
            assert!(rep.data.is_none());
        },
        _ => panic!("expected a simple reply"),
    }
    let st = serving_session(16, true);
    match st.handle_request(read_request(1, 9, 8), &export) {
        Reply::Structured(mut p) => {
            let chunk = p.next(&export).expect("one error chunk");
            assert!(matches!(chunk.type_, ChunkType::Error));
            assert_eq!(chunk.flags, 1);
            assert_eq!(chunk.handle, 1);
            let mut expect = be32(22);
            expect.extend_from_slice(&be16(0));
            assert_eq!(chunk.data, Some(expect));
            assert!(p.next(&export).is_none());
        },
        _ => panic!("expected a structured reply"),
    }
}

#[test]
fn zero_length_read_simple_mode() {
    let export = MemExport::new(vec![1, 2, 3, 4]);
    let s = serving_session(4, false);
    match s.handle_request(read_request(5, 2, 0), &export) {
        Reply::Simple(rep) => {
            assert_eq!(rep.error, 0);
            assert_eq!(rep.data, Some(Vec::new()));
        },
        _ => panic!("expected a simple reply"),
    }
}

#[test]
fn zero_length_read_structured_mode() {
    let export = MemExport::new(vec![1, 2, 3, 4]);
    let s = serving_session(4, true);
    match s.handle_request(read_request(5, 2, 0), &export) {
        Reply::Structured(mut p) => {
            let chunk = p.next(&export).expect("one chunk");
            assert!(matches!(chunk.type_, ChunkType::NoData));
            assert_eq!(chunk.flags, 1);
            assert_eq!(chunk.handle, 5);
            assert!(chunk.data.is_none());
            assert!(p.next(&export).is_none());
        },
        _ => panic!("expected a structured reply"),
    }
}

#[test]
fn structured_read_chunks_cover_the_range() {
    // Chunk size 2, length 5: three chunks over [0,2), [2,4), [4,5).
    let export = MemExport::new(vec![10, 11, 12, 13, 14]);
    let mut s = negotiating_session(5);
    s.chunk_size = 2;
    s.handle_option(nbd_core::options::NbdOption::StructuredReply(true));
    s.handle_option(nbd_core::options::NbdOption::Go(None, None));
    s.start_serving();
    match s.handle_request(read_request(0xCC, 0, 5), &export) {
        Reply::Structured(mut p) => {
            let mut glued: Vec<u8> = Vec::new();
            let expected = [(0u64, vec![10u8, 11]), (2, vec![12, 13]), (4, vec![14])];
            for (i, (off, body)) in expected.iter().enumerate() {
                let chunk = p.next(&export).expect("chunk");
                assert!(matches!(chunk.type_, ChunkType::OffsetData));
                assert_eq!(chunk.handle, 0xCC);
                assert_eq!(chunk.flags, if i == 2 { 1 } else { 0 });
                let mut payload = off.to_be_bytes().to_vec();
                payload.extend_from_slice(body);
                assert_eq!(chunk.data, Some(payload));
                assert_eq!(chunk.len as usize, 8 + body.len());
                glued.extend_from_slice(body);
            }
            assert!(p.next(&export).is_none());
            assert_eq!(glued, vec![10, 11, 12, 13, 14]);
        },
        _ => panic!("expected a structured reply"),
    }
}

#[test]
fn disconnect_request_ends_the_loop() {
    let export = MemExport::new(vec![0; 4]);
    let s = serving_session(4, false);
    let req = Request {
        type_: RequestType::Disc,
        flags: Flags::from_bits(0),
        handle: 1,
        offset: 0,
        len: 0,
        data: None,
    };
    assert!(matches!(s.handle_request(req, &export), Reply::Disconnect));
}

#[test]
fn unimplemented_requests_answer_enotsup() {
    let export = MemExport::new(vec![0; 4]);
    let s = serving_session(4, false);
    for t in [
        RequestType::Write,
        RequestType::Flush,
        RequestType::Trim,
        RequestType::Cache,
        RequestType::WriteZeroes,
        RequestType::BlockStatus,
        RequestType::Resize,
    ] {
        let req = Request {
            type_: t,
            flags: Flags::from_bits(0),
            handle: 42,
            offset: 0,
            len: 0,
            data: None,
        };
        match s.handle_request(req, &export) {
            Reply::Simple(rep) => {
                assert_eq!(rep.error, 95);
                assert_eq!(rep.handle, 42);
                assert!(rep.data.is_none());
            },
            _ => panic!("expected a simple reply"),
        }
    }
}
