//! Transmission-phase replies: the simple single-frame reply and the
//! wrapper that tells the caller which kind of reply a request produced.
use vstd::prelude::*;
use crate::message::Message;
use crate::structured::StructuredReply;
use crate::wire::{be32, be64, be_val, be_u32_at, be_u64_at, push_be_u32, push_be_u64};

verus! {

/// Magic number that opens every simple reply.
pub const SIMPLE_REPLY_MAGIC: u32 = 0x67446698;

/// What the server answers a request with.
pub enum Reply {
    Simple(SimpleReply),
    Structured(StructuredReply),
    Disconnect,
}

/// A single-frame reply: an error code, the echoed handle, and an
/// optional payload.
#[derive(Debug)]
pub struct SimpleReply {
    pub header: Vec<u8>,
    pub error: u32,
    pub handle: u64,
    pub data: Option<Vec<u8>>,
}

/// The header of a simple reply: magic, error, echoed handle.
pub open spec fn spec_simple_reply_header(error: u32, handle: u64) -> Seq<u8> {
    be32(SIMPLE_REPLY_MAGIC) + be32(error) + be64(handle)
}

/// The mathematical shape of a simple reply.
#[verifier::ext_equal]
pub struct SimpleView {
    pub error: u32,
    pub handle: u64,
    pub data: Option<Seq<u8>>,
}

impl View for SimpleReply {
    type V = SimpleView;

    open spec fn view(&self) -> SimpleView {
        SimpleView { error: self.error, handle: self.handle, data: self.data.deep_view() }
    }
}

/// The whole rendered simple reply: header, then payload.
pub open spec fn spec_simple_reply_bytes(v: SimpleView) -> Seq<u8> {
    spec_simple_reply_header(v.error, v.handle) + match v.data {
        Some(d) => d,
        None => Seq::empty(),
    }
}

/// What a byte string parses to as a simple reply. Bytes past the 16-byte
/// header are the payload.
pub open spec fn spec_parse_simple_reply(s: Seq<u8>) -> Option<SimpleView> {
    if s.len() < 16 {
        None
    } else if be_val(s.subrange(0, 4)) != SIMPLE_REPLY_MAGIC {
        None
    } else {
        Some(
            SimpleView {
                error: be_val(s.subrange(4, 8)) as u32,
                handle: be_val(s.subrange(8, 16)) as u64,
                data: if s.len() > 16 {
                    Some(s.skip(16))
                } else {
                    None
                },
            },
        )
    }
}

impl SimpleReply {
    /// Whether the stored header matches the reply's own fields.
    pub open spec fn wf(self) -> bool {
        self.header@ == spec_simple_reply_header(self.error, self.handle)
    }

    pub fn new(error: u32, handle: u64, data: Option<Vec<u8>>) -> (r: SimpleReply)
        ensures
            r.wf(),
            r.error == error,
            r.handle == handle,
            r.data == data,
    {
        let mut header: Vec<u8> = Vec::new();
        push_be_u32(&mut header, SIMPLE_REPLY_MAGIC);
        push_be_u32(&mut header, error);
        push_be_u64(&mut header, handle);
        proof {
            assert(header@ =~= spec_simple_reply_header(error, handle));
        }
        SimpleReply { header, error, handle, data }
    }

    /// Parses a rendered simple reply back into its fields.
    pub fn parse(slice: &[u8]) -> (r: Option<SimpleReply>)
        ensures
            match (r, spec_parse_simple_reply(slice@)) {
                (Some(o), Some(m)) => o@ == m && o.wf(),
                (None, None) => true,
                _ => false,
            },
    {
        let len: usize = slice.len();
        if len < 16 {
            return None;
        }
        let magic = be_u32_at(slice, 0);
        if magic != SIMPLE_REPLY_MAGIC {
            proof {
                crate::options::proof_pow256_small();
            }
            return None;
        }
        let error = be_u32_at(slice, 4);
        let handle = be_u64_at(slice, 8);
        let data: Option<Vec<u8>> = if len > 16 {
            let body = vstd::slice::slice_to_vec(vstd::slice::slice_subrange(slice, 16, len));
            proof {
                assert(body@ =~= slice@.skip(16));
            }
            Some(body)
        } else {
            None
        };
        proof {
            match &data {
                Some(b) => {
                    assert(b.deep_view() =~= b@);
                },
                None => {},
            }
        }
        Some(SimpleReply::new(error, handle, data))
    }
}

impl Message for SimpleReply {
    open spec fn spec_header(&self) -> Seq<u8> {
        self.header@
    }

    open spec fn spec_data(&self) -> Option<Seq<u8>> {
        self.data.deep_view()
    }

    fn get_header(&self) -> (r: &Vec<u8>) {
        &self.header
    }

    fn get_data(&self) -> (r: Option<&Vec<u8>>) {
        match &self.data {
            Some(d) => {
                proof {
                    assert(d.deep_view() =~= d@);
                }
                Some(d)
            },
            None => None,
        }
    }
}

/// Round trip: a simple reply whose payload is either absent or non-empty
/// parses back from its own rendering.
pub proof fn lemma_simple_reply_round_trip(v: SimpleView)
    requires
        v.data matches Some(d) ==> d.len() > 0,
    ensures
        spec_parse_simple_reply(spec_simple_reply_bytes(v)) == Some(v),
{
    let e = spec_simple_reply_bytes(v);
    crate::wire::lemma_be_bytes_len(SIMPLE_REPLY_MAGIC as nat, 4);
    crate::wire::lemma_be_bytes_len(v.error as nat, 4);
    crate::wire::lemma_be_bytes_len(v.handle as nat, 8);
    crate::options::proof_pow256_small();
    assert(e.subrange(0, 4) =~= be32(SIMPLE_REPLY_MAGIC));
    crate::wire::lemma_be_val_of_bytes(SIMPLE_REPLY_MAGIC as nat, 4);
    assert(e.subrange(4, 8) =~= be32(v.error));
    crate::wire::lemma_be_val_of_bytes(v.error as nat, 4);
    assert(e.subrange(8, 16) =~= be64(v.handle));
    crate::wire::lemma_be_val_of_bytes(v.handle as nat, 8);
    match v.data {
        Some(d) => {
            assert(e.skip(16) =~= d);
        },
        None => {
            assert(e.len() == 16);
        },
    }
    match spec_parse_simple_reply(e) {
        Some(m) => {
            assert(m =~= v);
        },
        None => {},
    }
}

} // verus!
