//! Transmission-phase request frames.
//!
//! After its 4-byte magic a request is `flags: u16`, `type: u16`,
//! `handle: u64`, `offset: u64`, `length: u32`; a write carries its body
//! separately. `spec_parse_request` states what every buffer parses to and
//! the executable parser is proved to agree with it.
use vstd::prelude::*;
use crate::wire::{be16, be32, be64, be_val, be_u16_at, be_u32_at, be_u64_at, extend_bytes,
    push_be_u16, push_be_u32, push_be_u64};

verus! {

/// Magic number that opens every request frame.
pub const REQMAGIC: u32 = 0x25609513;

/// The flag bits a request can carry.
#[derive(Clone, Copy, Debug, PartialEq, Eq, Structural)]
pub struct Flags {
    pub fua: bool,
    pub no_hole: bool,
    pub dont_fragment: bool,
    pub request_one: bool,
    pub fast_zero: bool,
}

/// The flags the 16-bit field stands for, one bit each.
pub open spec fn spec_flags_from(v: u16) -> Flags {
    Flags {
        fua: v & 1 != 0,
        no_hole: (v >> 1) & 1 != 0,
        dont_fragment: (v >> 2) & 1 != 0,
        request_one: (v >> 3) & 1 != 0,
        fast_zero: (v >> 4) & 1 != 0,
    }
}

/// The 16-bit field a set of flags is rendered as.
pub open spec fn spec_flags_bits(f: Flags) -> u16 {
    (if f.fua {
        1u16
    } else {
        0u16
    }) | ((if f.no_hole {
        1u16
    } else {
        0u16
    }) << 1) | ((if f.dont_fragment {
        1u16
    } else {
        0u16
    }) << 2) | ((if f.request_one {
        1u16
    } else {
        0u16
    }) << 3) | ((if f.fast_zero {
        1u16
    } else {
        0u16
    }) << 4)
}

/// Reading flag bits back from their rendering gives the flags again.
pub proof fn lemma_flags_round_trip(f: Flags)
    ensures
        spec_flags_from(spec_flags_bits(f)) == f,
{
    let a: u16 = if f.fua { 1 } else { 0 };
    let b: u16 = if f.no_hole { 1 } else { 0 };
    let c: u16 = if f.dont_fragment { 1 } else { 0 };
    let d: u16 = if f.request_one { 1 } else { 0 };
    let e: u16 = if f.fast_zero { 1 } else { 0 };
    let v: u16 = a | (b << 1) | (c << 2) | (d << 3) | (e << 4);
    assert((v & 1 != 0) == (a == 1) && ((v >> 1) & 1 != 0) == (b == 1) && ((v >> 2) & 1 != 0) == (
    c == 1) && ((v >> 3) & 1 != 0) == (d == 1) && ((v >> 4) & 1 != 0) == (e == 1))
        by (bit_vector)
        requires
            a <= 1 && b <= 1 && c <= 1 && d <= 1 && e <= 1,
            v == a | (b << 1) | (c << 2) | (d << 3) | (e << 4),
    ;
}

impl Flags {
    /// Reads the five flag bits out of the 16-bit wire field.
    pub fn from_bits(v: u16) -> (r: Flags)
        ensures
            r == spec_flags_from(v),
    {
        Flags {
            fua: v & 1 != 0,
            no_hole: (v >> 1) & 1 != 0,
            dont_fragment: (v >> 2) & 1 != 0,
            request_one: (v >> 3) & 1 != 0,
            fast_zero: (v >> 4) & 1 != 0,
        }
    }

    /// Renders the flags as their 16-bit wire field.
    pub fn to_bits(&self) -> (r: u16)
        ensures
            r == spec_flags_bits(*self),
    {
        (if self.fua {
            1u16
        } else {
            0u16
        }) | ((if self.no_hole {
            1u16
        } else {
            0u16
        }) << 1u16) | ((if self.dont_fragment {
            1u16
        } else {
            0u16
        }) << 2u16) | ((if self.request_one {
            1u16
        } else {
            0u16
        }) << 3u16) | ((if self.fast_zero {
            1u16
        } else {
            0u16
        }) << 4u16)
    }
}

/// What a request asks the server to do.
#[derive(Clone, Copy, Debug, PartialEq, Eq, Structural)]
pub enum RequestType {
    Read,
    Write,
    Disc,
    Flush,
    Trim,
    Cache,
    WriteZeroes,
    BlockStatus,
    Resize,
}

/// The 16-bit wire code of each request type.
pub open spec fn spec_req_type_code(t: RequestType) -> u16 {
    match t {
        RequestType::Read => 0,
        RequestType::Write => 1,
        RequestType::Disc => 2,
        RequestType::Flush => 3,
        RequestType::Trim => 4,
        RequestType::Cache => 5,
        RequestType::WriteZeroes => 6,
        RequestType::BlockStatus => 7,
        RequestType::Resize => 8,
    }
}

/// The request type a 16-bit wire code stands for, if any.
pub open spec fn spec_req_type_from(v: u16) -> Option<RequestType> {
    if v == 0 {
        Some(RequestType::Read)
    } else if v == 1 {
        Some(RequestType::Write)
    } else if v == 2 {
        Some(RequestType::Disc)
    } else if v == 3 {
        Some(RequestType::Flush)
    } else if v == 4 {
        Some(RequestType::Trim)
    } else if v == 5 {
        Some(RequestType::Cache)
    } else if v == 6 {
        Some(RequestType::WriteZeroes)
    } else if v == 7 {
        Some(RequestType::BlockStatus)
    } else if v == 8 {
        Some(RequestType::Resize)
    } else {
        None
    }
}

impl RequestType {
    pub fn to_u16(&self) -> (r: u16)
        ensures
            r == spec_req_type_code(*self),
    {
        match self {
            RequestType::Read => 0,
            RequestType::Write => 1,
            RequestType::Disc => 2,
            RequestType::Flush => 3,
            RequestType::Trim => 4,
            RequestType::Cache => 5,
            RequestType::WriteZeroes => 6,
            RequestType::BlockStatus => 7,
            RequestType::Resize => 8,
        }
    }

    pub fn from_u16(v: u16) -> (r: Option<RequestType>)
        ensures
            r == spec_req_type_from(v),
    {
        if v == 0 {
            Some(RequestType::Read)
        } else if v == 1 {
            Some(RequestType::Write)
        } else if v == 2 {
            Some(RequestType::Disc)
        } else if v == 3 {
            Some(RequestType::Flush)
        } else if v == 4 {
            Some(RequestType::Trim)
        } else if v == 5 {
            Some(RequestType::Cache)
        } else if v == 6 {
            Some(RequestType::WriteZeroes)
        } else if v == 7 {
            Some(RequestType::BlockStatus)
        } else if v == 8 {
            Some(RequestType::Resize)
        } else {
            None
        }
    }
}

/// A parsed request.
#[derive(Debug)]
pub struct Request {
    pub type_: RequestType,
    pub flags: Flags,
    pub handle: u64,
    pub offset: u64,
    pub len: u32,
    pub data: Option<Vec<u8>>,
}

/// The mathematical shape of a request.
#[verifier::ext_equal]
pub struct ReqView {
    pub type_: RequestType,
    pub flags: Flags,
    pub handle: u64,
    pub offset: u64,
    pub len: u32,
    pub data: Option<Seq<u8>>,
}

impl View for Request {
    type V = ReqView;

    open spec fn view(&self) -> ReqView {
        ReqView {
            type_: self.type_,
            flags: self.flags,
            handle: self.handle,
            offset: self.offset,
            len: self.len,
            data: self.data.deep_view(),
        }
    }
}

/// Why a buffer failed to parse as a request.
#[derive(Clone, Copy, Debug, PartialEq, Eq, Structural)]
pub enum RequestError {
    /// The type code is not one this server knows.
    UnknownType,
    /// Fewer than the 24 header bytes are present.
    BufferTooShort,
    /// The fields do not have the shape a request demands.
    Parse,
}

/// What a request buffer (without its magic) parses to. Bytes past the
/// 24-byte header are the request's body.
pub open spec fn spec_parse_request(s: Seq<u8>) -> Result<ReqView, RequestError> {
    if s.len() < 24 {
        Err(RequestError::BufferTooShort)
    } else {
        let flags = spec_flags_from(be_val(s.subrange(0, 2)) as u16);
        match spec_req_type_from(be_val(s.subrange(2, 4)) as u16) {
            None => Err(RequestError::UnknownType),
            Some(t) => Ok(
                ReqView {
                    type_: t,
                    flags,
                    handle: be_val(s.subrange(4, 12)) as u64,
                    offset: be_val(s.subrange(12, 20)) as u64,
                    len: be_val(s.subrange(20, 24)) as u32,
                    data: if s.len() > 24 {
                        Some(s.skip(24))
                    } else {
                        None
                    },
                },
            ),
        }
    }
}

/// The rendering of a request (without its magic): header fields, then the
/// body if there is one.
pub open spec fn spec_encode_request(r: ReqView) -> Seq<u8> {
    be16(spec_flags_bits(r.flags)) + be16(spec_req_type_code(r.type_)) + be64(r.handle) + be64(
        r.offset,
    ) + be32(r.len) + spec_body_bytes(r.data)
}

/// The body bytes a request carries: the body, or nothing.
pub open spec fn spec_body_bytes(d: Option<Seq<u8>>) -> Seq<u8> {
    match d {
        Some(b) => b,
        None => Seq::empty(),
    }
}

impl From<u16> for Flags {
    fn from(v: u16) -> (r: Flags) {
        Flags::from_bits(v)
    }
}

impl vstd::std_specs::convert::FromSpecImpl<u16> for Flags {
    open spec fn obeys_from_spec() -> bool {
        true
    }

    open spec fn from_spec(v: u16) -> Flags {
        spec_flags_from(v)
    }
}

impl Request {
    /// Parses one request buffer (the bytes after the 4-byte magic).
    pub fn try_from(slice: &[u8]) -> (r: Result<Request, RequestError>)
        ensures
            match (r, spec_parse_request(slice@)) {
                (Ok(o), Ok(m)) => o@ == m,
                (Err(a), Err(b)) => a == b,
                _ => false,
            },
    {
        let len: usize = slice.len();
        if len < 24 {
            return Err(RequestError::BufferTooShort);
        }
        let flags = Flags::from_bits(be_u16_at(slice, 0));
        let tcode = be_u16_at(slice, 2);
        let type_ = match RequestType::from_u16(tcode) {
            Some(t) => t,
            None => {
                return Err(RequestError::UnknownType);
            },
        };
        let handle = be_u64_at(slice, 4);
        let offset = be_u64_at(slice, 12);
        let length = be_u32_at(slice, 20);
        let data: Option<Vec<u8>> = if len > 24 {
            let body = vstd::slice::slice_to_vec(vstd::slice::slice_subrange(slice, 24, len));
            proof {
                assert(body@ =~= slice@.skip(24));
            }
            Some(body)
        } else {
            None
        };
        proof {
            match &data {
                Some(b) => {
                    assert(b.deep_view() =~= b@);
                },
                None => {},
            }
        }
        Ok(Request { type_, flags, handle, offset, len: length, data })
    }

    /// Renders the request (without its magic).
    pub fn encode(&self) -> (r: Vec<u8>)
        ensures
            r@ == spec_encode_request(self@),
    {
        let mut out: Vec<u8> = Vec::new();
        push_be_u16(&mut out, self.flags.to_bits());
        push_be_u16(&mut out, self.type_.to_u16());
        push_be_u64(&mut out, self.handle);
        push_be_u64(&mut out, self.offset);
        push_be_u32(&mut out, self.len);
        match &self.data {
            Some(b) => {
                extend_bytes(&mut out, b.as_slice());
                proof {
                    assert(b.deep_view() =~= b@);
                }
            },
            None => {},
        }
        proof {
            assert(out@ =~= spec_encode_request(self@));
        }
        out
    }
}

/// Round trip: a request whose body is either absent or non-empty parses
/// back from its own rendering.
pub proof fn lemma_request_round_trip(r: ReqView)
    requires
        r.data matches Some(d) ==> d.len() > 0,
    ensures
        spec_parse_request(spec_encode_request(r)) == Ok::<ReqView, RequestError>(r),
{
    let e = spec_encode_request(r);
    crate::wire::lemma_be_bytes_len(spec_flags_bits(r.flags) as nat, 2);
    crate::wire::lemma_be_bytes_len(spec_req_type_code(r.type_) as nat, 2);
    crate::wire::lemma_be_bytes_len(r.handle as nat, 8);
    crate::wire::lemma_be_bytes_len(r.offset as nat, 8);
    crate::wire::lemma_be_bytes_len(r.len as nat, 4);
    crate::options::proof_pow256_small();
    assert(e.subrange(0, 2) =~= be16(spec_flags_bits(r.flags)));
    crate::wire::lemma_be_val_of_bytes(spec_flags_bits(r.flags) as nat, 2);
    lemma_flags_round_trip(r.flags);
    assert(e.subrange(2, 4) =~= be16(spec_req_type_code(r.type_)));
    crate::wire::lemma_be_val_of_bytes(spec_req_type_code(r.type_) as nat, 2);
    assert(spec_req_type_from(spec_req_type_code(r.type_)) == Some(r.type_));
    assert(e.subrange(4, 12) =~= be64(r.handle));
    crate::wire::lemma_be_val_of_bytes(r.handle as nat, 8);
    assert(e.subrange(12, 20) =~= be64(r.offset));
    crate::wire::lemma_be_val_of_bytes(r.offset as nat, 8);
    assert(e.subrange(20, 24) =~= be32(r.len));
    crate::wire::lemma_be_val_of_bytes(r.len as nat, 4);
    match r.data {
        Some(d) => {
            assert(e.skip(24) =~= d);
        },
        None => {
            assert(e.len() == 24);
        },
    }
    match spec_parse_request(e) {
        Ok(m) => {
            assert(m =~= r);
        },
        Err(_) => {},
    }
}

} // verus!
