//! The structured-reply chunking layer: one read request is answered by a
//! finite sequence of chunk frames, the last one flagged DONE.
//!
//! `spec_read_chunks` is the mathematical model of the whole sequence a
//! producer yields for a request; the lemmas at the end state its laws:
//! how many chunks there are, that exactly the last carries DONE, what an
//! OffsetData payload holds, and that the payload tails concatenate to the
//! requested range of the export.
use vstd::prelude::*;
use crate::export::ExportStore;
use crate::message::Message;
use crate::wire::{be16, be32, be64, be_val, be_u16_at, be_u32_at, be_u64_at, push_be_u16,
    push_be_u32, push_be_u64};

verus! {

/// Magic number that opens every structured reply chunk.
pub const STRUCTURED_REPLY_MAGIC: u32 = 0x668e33ef;

/// Error code a chunk carries when reading the export fails.
pub const EIO: u32 = 5;

/// The kind of one chunk.
#[derive(Clone, Copy, Debug, PartialEq, Eq, Structural)]
pub enum ChunkType {
    NoData,
    OffsetData,
    OffsetHole,
    BlockStatus,
    Error,
    ErrorOffset,
}

/// The 16-bit wire code of each chunk kind; errors carry bit 15.
pub open spec fn spec_chunk_type_code(t: ChunkType) -> u16 {
    match t {
        ChunkType::NoData => 0,
        ChunkType::OffsetData => 1,
        ChunkType::OffsetHole => 2,
        ChunkType::BlockStatus => 5,
        ChunkType::Error => 0x8001,
        ChunkType::ErrorOffset => 0x8002,
    }
}

/// The chunk kind a 16-bit wire code stands for, if any.
pub open spec fn spec_chunk_type_from(v: u16) -> Option<ChunkType> {
    if v == 0 {
        Some(ChunkType::NoData)
    } else if v == 1 {
        Some(ChunkType::OffsetData)
    } else if v == 2 {
        Some(ChunkType::OffsetHole)
    } else if v == 5 {
        Some(ChunkType::BlockStatus)
    } else if v == 0x8001 {
        Some(ChunkType::Error)
    } else if v == 0x8002 {
        Some(ChunkType::ErrorOffset)
    } else {
        None
    }
}

impl ChunkType {
    pub fn to_u16(&self) -> (r: u16)
        ensures
            r == spec_chunk_type_code(*self),
    {
        match self {
            ChunkType::NoData => 0,
            ChunkType::OffsetData => 1,
            ChunkType::OffsetHole => 2,
            ChunkType::BlockStatus => 5,
            ChunkType::Error => 0x8001,
            ChunkType::ErrorOffset => 0x8002,
        }
    }

    pub fn from_u16(v: u16) -> (r: Option<ChunkType>)
        ensures
            r == spec_chunk_type_from(v),
    {
        if v == 0 {
            Some(ChunkType::NoData)
        } else if v == 1 {
            Some(ChunkType::OffsetData)
        } else if v == 2 {
            Some(ChunkType::OffsetHole)
        } else if v == 5 {
            Some(ChunkType::BlockStatus)
        } else if v == 0x8001 {
            Some(ChunkType::Error)
        } else if v == 0x8002 {
            Some(ChunkType::ErrorOffset)
        } else {
            None
        }
    }
}

/// The mathematical shape of one chunk.
#[verifier::ext_equal]
pub struct ChunkView {
    pub flags: u16,
    pub type_: ChunkType,
    pub handle: u64,
    pub len: u32,
    pub data: Option<Seq<u8>>,
}

/// The header of a chunk: magic, flags, kind, echoed handle, payload
/// length.
pub open spec fn spec_chunk_header(flags: u16, t: ChunkType, handle: u64, len: u32) -> Seq<u8> {
    be32(STRUCTURED_REPLY_MAGIC) + be16(flags) + be16(spec_chunk_type_code(t)) + be64(handle)
        + be32(len)
}

/// One frame of a structured reply.
#[derive(Debug)]
pub struct StructuredReplyChunk {
    pub header: Vec<u8>,
    pub flags: u16,
    pub type_: ChunkType,
    pub handle: u64,
    pub len: u32,
    pub data: Option<Vec<u8>>,
}

impl View for StructuredReplyChunk {
    type V = ChunkView;

    open spec fn view(&self) -> ChunkView {
        ChunkView {
            flags: self.flags,
            type_: self.type_,
            handle: self.handle,
            len: self.len,
            data: self.data.deep_view(),
        }
    }
}

/// The payload length a chunk's data field declares.
pub open spec fn spec_chunk_data_len(data: Option<Seq<u8>>) -> nat {
    match data {
        Some(d) => d.len(),
        None => 0,
    }
}

/// The whole rendered chunk: header, then payload.
pub open spec fn spec_chunk_bytes(v: ChunkView) -> Seq<u8> {
    spec_chunk_header(v.flags, v.type_, v.handle, v.len) + match v.data {
        Some(d) => d,
        None => Seq::empty(),
    }
}

/// What a byte string parses to as a chunk. The header's length field says
/// how much payload follows.
pub open spec fn spec_parse_chunk(s: Seq<u8>) -> Option<ChunkView> {
    if s.len() < 20 {
        None
    } else if be_val(s.subrange(0, 4)) != STRUCTURED_REPLY_MAGIC {
        None
    } else {
        match spec_chunk_type_from(be_val(s.subrange(6, 8)) as u16) {
            None => None,
            Some(t) => {
                let len = be_val(s.subrange(16, 20));
                if s.len() - 20 < len {
                    None
                } else {
                    Some(
                        ChunkView {
                            flags: be_val(s.subrange(4, 6)) as u16,
                            type_: t,
                            handle: be_val(s.subrange(8, 16)) as u64,
                            len: len as u32,
                            data: if len == 0 {
                                None
                            } else {
                                Some(s.subrange(20, 20 + len as int))
                            },
                        },
                    )
                }
            },
        }
    }
}

impl StructuredReplyChunk {
    /// Whether the stored header matches the chunk's own fields, the
    /// length field counts the payload, and only the DONE bit is used.
    pub open spec fn wf(self) -> bool {
        &&& self.len as nat == spec_chunk_data_len(self.data.deep_view())
        &&& self.header@ == spec_chunk_header(self.flags, self.type_, self.handle, self.len)
        &&& self.flags == 0 || self.flags == 1
    }

    pub fn new(type_: ChunkType, handle: u64, data: Option<Vec<u8>>, done: bool) -> (r:
        StructuredReplyChunk)
        requires
            data matches Some(d) ==> d@.len() <= u32::MAX,
        ensures
            r.wf(),
            r.type_ == type_,
            r.handle == handle,
            r.data == data,
            r.flags == if done {
                1u16
            } else {
                0u16
            },
    {
        let flags: u16 = if done {
            1
        } else {
            0
        };
        let len: u32 = match &data {
            Some(d) => d.len() as u32,
            None => 0,
        };
        let mut header: Vec<u8> = Vec::new();
        push_be_u32(&mut header, STRUCTURED_REPLY_MAGIC);
        push_be_u16(&mut header, flags);
        push_be_u16(&mut header, type_.to_u16());
        push_be_u64(&mut header, handle);
        push_be_u32(&mut header, len);
        proof {
            assert(header@ =~= spec_chunk_header(flags, type_, handle, len));
        }
        StructuredReplyChunk { header, flags, type_, handle, len, data }
    }

    /// Parses a rendered chunk back into its fields.
    pub fn parse(slice: &[u8]) -> (r: Option<StructuredReplyChunk>)
        ensures
            match (r, spec_parse_chunk(slice@)) {
                (Some(o), Some(m)) => o@ == m,
                (None, None) => true,
                _ => false,
            },
    {
        let slen: usize = slice.len();
        if slen < 20 {
            return None;
        }
        proof {
            crate::options::proof_pow256_small();
        }
        let magic = be_u32_at(slice, 0);
        if magic != STRUCTURED_REPLY_MAGIC {
            return None;
        }
        let flags = be_u16_at(slice, 4);
        let tcode = be_u16_at(slice, 6);
        let type_ = match ChunkType::from_u16(tcode) {
            Some(t) => t,
            None => {
                return None;
            },
        };
        let handle = be_u64_at(slice, 8);
        let len32 = be_u32_at(slice, 16);
        let len = len32 as usize;
        if slen - 20 < len {
            return None;
        }
        let data: Option<Vec<u8>> = if len == 0 {
            None
        } else {
            let body = vstd::slice::slice_to_vec(vstd::slice::slice_subrange(slice, 20, 20 + len));
            proof {
                assert(body@ =~= slice@.subrange(20, 20 + len as int));
            }
            Some(body)
        };
        proof {
            match &data {
                Some(b) => {
                    assert(b.deep_view() =~= b@);
                },
                None => {},
            }
        }
        Some(StructuredReplyChunk { header: Vec::new(), flags, type_, handle, len: len32, data })
    }
}

impl Message for StructuredReplyChunk {
    open spec fn spec_header(&self) -> Seq<u8> {
        self.header@
    }

    open spec fn spec_data(&self) -> Option<Seq<u8>> {
        self.data.deep_view()
    }

    fn get_header(&self) -> (r: &Vec<u8>) {
        &self.header
    }

    fn get_data(&self) -> (r: Option<&Vec<u8>>) {
        match &self.data {
            Some(d) => {
                proof {
                    assert(d.deep_view() =~= d@);
                }
                Some(d)
            },
            None => None,
        }
    }
}

/// Round trip: a chunk whose length field counts its payload parses back
/// from its own rendering.
pub proof fn lemma_chunk_round_trip(v: ChunkView)
    requires
        v.len as nat == spec_chunk_data_len(v.data),
        v.data matches Some(d) ==> d.len() > 0,
    ensures
        spec_parse_chunk(spec_chunk_bytes(v)) == Some(v),
{
    let e = spec_chunk_bytes(v);
    crate::wire::lemma_be_bytes_len(STRUCTURED_REPLY_MAGIC as nat, 4);
    crate::wire::lemma_be_bytes_len(v.flags as nat, 2);
    crate::wire::lemma_be_bytes_len(spec_chunk_type_code(v.type_) as nat, 2);
    crate::wire::lemma_be_bytes_len(v.handle as nat, 8);
    crate::wire::lemma_be_bytes_len(v.len as nat, 4);
    crate::options::proof_pow256_small();
    assert(e.subrange(0, 4) =~= be32(STRUCTURED_REPLY_MAGIC));
    crate::wire::lemma_be_val_of_bytes(STRUCTURED_REPLY_MAGIC as nat, 4);
    assert(e.subrange(4, 6) =~= be16(v.flags));
    crate::wire::lemma_be_val_of_bytes(v.flags as nat, 2);
    assert(e.subrange(6, 8) =~= be16(spec_chunk_type_code(v.type_)));
    crate::wire::lemma_be_val_of_bytes(spec_chunk_type_code(v.type_) as nat, 2);
    assert(spec_chunk_type_from(spec_chunk_type_code(v.type_)) == Some(v.type_));
    assert(e.subrange(8, 16) =~= be64(v.handle));
    crate::wire::lemma_be_val_of_bytes(v.handle as nat, 8);
    assert(e.subrange(16, 20) =~= be32(v.len));
    crate::wire::lemma_be_val_of_bytes(v.len as nat, 4);
    match v.data {
        Some(d) => {
            assert(e.subrange(20, 20 + v.len as int) =~= d);
        },
        None => {},
    }
    match spec_parse_chunk(e) {
        Some(m) => {
            assert(m =~= v);
        },
        None => {},
    }
}

/// How many chunks a read of `len` bytes takes: one per `chunk` bytes,
/// rounded up, and a single None chunk for an empty read.
pub open spec fn spec_num_chunks(len: nat, chunk: nat) -> nat
    recommends
        chunk > 0,
{
    if len == 0 {
        1
    } else {
        (len - 1) as nat / chunk + 1
    }
}

/// The absolute offset chunk i covers from.
pub open spec fn spec_chunk_start(offset: u64, chunk: u32, i: int) -> int {
    offset + i * chunk
}

/// How many bytes chunk i carries.
pub open spec fn spec_chunk_len(len: u32, chunk: u32, i: int) -> int {
    if len - i * chunk < chunk {
        len - i * chunk
    } else {
        chunk as int
    }
}

/// The chunk a successful producer yields in position i.
pub open spec fn spec_read_chunk(
    contents: Seq<u8>,
    handle: u64,
    offset: u64,
    len: u32,
    chunk: u32,
    i: int,
) -> ChunkView {
    if len == 0 {
        ChunkView { flags: 1, type_: ChunkType::NoData, handle, len: 0, data: None }
    } else {
        let st = spec_chunk_start(offset, chunk, i);
        let cl = spec_chunk_len(len, chunk, i);
        ChunkView {
            flags: if i + 1 == spec_num_chunks(len as nat, chunk as nat) {
                1
            } else {
                0
            },
            type_: ChunkType::OffsetData,
            handle,
            len: (8 + cl) as u32,
            data: Some(be64(st as u64) + contents.subrange(st, st + cl)),
        }
    }
}

/// The whole chunk sequence a request's structured reply consists of.
pub open spec fn spec_read_chunks(
    contents: Seq<u8>,
    handle: u64,
    offset: u64,
    len: u32,
    chunk: u32,
) -> Seq<ChunkView> {
    Seq::new(
        spec_num_chunks(len as nat, chunk as nat),
        |i: int| spec_read_chunk(contents, handle, offset, len, chunk, i),
    )
}

/// The single chunk that stands in for a failed reply.
pub open spec fn spec_error_chunk(handle: u64, code: u32) -> ChunkView {
    ChunkView {
        flags: 1,
        type_: ChunkType::Error,
        handle,
        len: 6,
        data: Some(be32(code) + be16(0)),
    }
}

/// The chunk count is the ceiling of len / chunk: the last chunk is the
/// first to reach len.
pub proof fn lemma_num_chunks_bounds(len: u32, chunk: u32)
    requires
        chunk > 0,
        len > 0,
    ensures
        ({
            let n = spec_num_chunks(len as nat, chunk as nat) as int;
            &&& 1 <= n <= len
            &&& (n - 1) * chunk < len
            &&& len <= n * chunk
        }),
{
    let n = spec_num_chunks(len as nat, chunk as nat) as int;
    let q = (len - 1) as int / chunk as int;
    vstd::arithmetic::div_mod::lemma_fundamental_div_mod((len - 1) as int, chunk as int);
    vstd::arithmetic::div_mod::lemma_mod_bound((len - 1) as int, chunk as int);
    let r = (len - 1) as int % chunk as int;
    assert(n == q + 1);
    assert(n * chunk == q * chunk + chunk && (n - 1) * chunk == q * chunk && q * chunk == chunk
        * q) by (nonlinear_arith)
        requires
            n == q + 1,
    ;
    assert(q * chunk == len - 1 - r);
    if n > len {
        assert((n - 1) * chunk >= n - 1 >= len) by (nonlinear_arith)
            requires
                chunk >= 1,
                n > len,
                len >= 1,
        ;
    }
}

/// The number of bytes the first k chunks hand out, glued in order.
pub open spec fn spec_concat_tails(
    contents: Seq<u8>,
    offset: u64,
    len: u32,
    chunk: u32,
    k: int,
) -> Seq<u8>
    decreases k,
{
    if k <= 0 {
        Seq::empty()
    } else {
        spec_concat_tails(contents, offset, len, chunk, k - 1) + contents.subrange(
            spec_chunk_start(offset, chunk, k - 1),
            spec_chunk_start(offset, chunk, k - 1) + spec_chunk_len(len, chunk, k - 1),
        )
    }
}

/// The first k chunk tails cover exactly the first min(k * chunk, len)
/// bytes of the requested range.
#[verifier::spinoff_prover]
#[verifier::rlimit(30)]
pub proof fn lemma_chunks_cover_prefix(
    contents: Seq<u8>,
    offset: u64,
    len: u32,
    chunk: u32,
    k: int,
)
    requires
        chunk > 0,
        len > 0,
        offset + len <= contents.len(),
        0 <= k <= spec_num_chunks(len as nat, chunk as nat),
    ensures
        spec_concat_tails(contents, offset, len, chunk, k) == contents.subrange(
            offset as int,
            offset + (if k * chunk < len {
                k * chunk
            } else {
                len as int
            }),
        ),
    decreases k,
{
    let n = spec_num_chunks(len as nat, chunk as nat) as int;
    lemma_num_chunks_bounds(len, chunk);
    if k <= 0 {
        assert(spec_concat_tails(contents, offset, len, chunk, 0) =~= contents.subrange(
            offset as int,
            offset as int,
        ));
    } else {
        lemma_chunks_cover_prefix(contents, offset, len, chunk, k - 1);
        assert((k - 1) * chunk < len && (k - 1) * chunk == k * chunk - chunk && (k - 1) * chunk
            >= 0) by (nonlinear_arith)
            requires
                1 <= k <= n,
                (n - 1) * chunk < len,
                chunk > 0,
        ;
        let a = offset as int;
        let b = offset + (k - 1) * chunk;
        let cl = spec_chunk_len(len, chunk, k - 1);
        let c = offset + (if k * chunk < len {
            k * chunk
        } else {
            len as int
        });
        assert(b == spec_chunk_start(offset, chunk, k - 1));
        assert(b + cl == c);
        assert(spec_concat_tails(contents, offset, len, chunk, k - 1) == contents.subrange(a, b));
        assert(spec_concat_tails(contents, offset, len, chunk, k) == contents.subrange(a, b)
            + contents.subrange(b, c));
        assert(contents.subrange(a, b) + contents.subrange(b, c) =~= contents.subrange(a, c));
    }
}

/// Concatenating every chunk's payload tail (the bytes after its 8-byte
/// offset prefix) yields exactly the requested range of the export.
pub proof fn lemma_chunks_cover(contents: Seq<u8>, offset: u64, len: u32, chunk: u32)
    requires
        chunk > 0,
        len > 0,
        offset + len <= contents.len(),
    ensures
        spec_concat_tails(
            contents,
            offset,
            len,
            chunk,
            spec_num_chunks(len as nat, chunk as nat) as int,
        ) == contents.subrange(offset as int, offset + len),
{
    let n = spec_num_chunks(len as nat, chunk as nat) as int;
    lemma_num_chunks_bounds(len, chunk);
    lemma_chunks_cover_prefix(contents, offset, len, chunk, n);
}

/// The shape of a whole chunk sequence: its count is the ceiling of
/// len / chunk (one chunk for an empty read), every chunk echoes the
/// handle, and exactly the last chunk carries the DONE flag.
pub proof fn lemma_chunk_sequence_shape(
    contents: Seq<u8>,
    handle: u64,
    offset: u64,
    len: u32,
    chunk: u32,
)
    requires
        chunk > 0,
    ensures
        ({
            let cs = spec_read_chunks(contents, handle, offset, len, chunk);
            &&& cs.len() == spec_num_chunks(len as nat, chunk as nat)
            &&& cs.len() >= 1
            &&& (len == 0 ==> cs.len() == 1)
            &&& (len > 0 ==> (cs.len() - 1) * chunk < len && len <= cs.len() * chunk)
            &&& forall|i: int|
                0 <= i < cs.len() ==> ((#[trigger] cs[i].flags) == 1 <==> i == cs.len() - 1)
            &&& forall|i: int| 0 <= i < cs.len() ==> (#[trigger] cs[i].handle) == handle
            &&& forall|i: int|
                0 <= i < cs.len() ==> (#[trigger] cs[i].flags) == 0 || cs[i].flags == 1
        }),
{
    if len > 0 {
        lemma_num_chunks_bounds(len, chunk);
    }
}

/// What each chunk of a non-empty read holds: type OffsetData, a payload
/// of the 8-byte big-endian absolute offset followed by the export's bytes
/// at that offset, and a length field counting both.
pub proof fn lemma_chunk_payload(
    contents: Seq<u8>,
    handle: u64,
    offset: u64,
    len: u32,
    chunk: u32,
    i: int,
)
    requires
        chunk > 0,
        chunk <= u32::MAX - 8,
        len > 0,
        offset + len <= contents.len(),
        0 <= i < spec_num_chunks(len as nat, chunk as nat),
    ensures
        ({
            let cs = spec_read_chunks(contents, handle, offset, len, chunk);
            let st = spec_chunk_start(offset, chunk, i);
            let cl = spec_chunk_len(len, chunk, i);
            &&& cs[i].type_ == ChunkType::OffsetData
            &&& 0 < cl <= chunk
            &&& offset <= st && st + cl <= offset + len
            &&& cs[i].data == Some(be64(st as u64) + contents.subrange(st, st + cl))
            &&& cs[i].len == 8 + cl
            &&& cs[i].data matches Some(d) && d.skip(8) == contents.subrange(st, st + cl)
        }),
{
    let n = spec_num_chunks(len as nat, chunk as nat) as int;
    lemma_num_chunks_bounds(len, chunk);
    let st = spec_chunk_start(offset, chunk, i);
    let cl = spec_chunk_len(len, chunk, i);
    assert(i * chunk <= (n - 1) * chunk && i * chunk >= 0 && (i + 1) * chunk == i * chunk + chunk)
        by (nonlinear_arith)
        requires
            0 <= i <= n - 1,
            chunk > 0,
    ;
    crate::wire::lemma_be_bytes_len((st as u64) as nat, 8);
    let d = be64(st as u64) + contents.subrange(st, st + cl);
    assert(d.skip(8) =~= contents.subrange(st, st + cl));
}



/// The glued payload tails of the first k chunks of a sequence.
pub open spec fn spec_chunk_tails(cs: Seq<ChunkView>, k: int) -> Seq<u8>
    decreases k,
{
    if k <= 0 {
        Seq::empty()
    } else {
        spec_chunk_tails(cs, k - 1) + match cs[k - 1].data {
            Some(d) => d.skip(8),
            None => Seq::empty(),
        }
    }
}

proof fn lemma_chunk_tails_eq(
    contents: Seq<u8>,
    handle: u64,
    offset: u64,
    len: u32,
    chunk: u32,
    k: int,
)
    requires
        chunk > 0,
        chunk <= u32::MAX - 8,
        len > 0,
        offset + len <= contents.len(),
        0 <= k <= spec_num_chunks(len as nat, chunk as nat),
    ensures
        spec_chunk_tails(spec_read_chunks(contents, handle, offset, len, chunk), k)
            == spec_concat_tails(contents, offset, len, chunk, k),
    decreases k,
{
    if k > 0 {
        lemma_chunk_tails_eq(contents, handle, offset, len, chunk, k - 1);
        lemma_chunk_payload(contents, handle, offset, len, chunk, k - 1);
    }
}

/// Glueing every chunk's payload tail of a whole reply sequence, in
/// order, yields exactly the bytes of the export in the requested range.
pub proof fn lemma_chunk_tails_cover(
    contents: Seq<u8>,
    handle: u64,
    offset: u64,
    len: u32,
    chunk: u32,
)
    requires
        chunk > 0,
        chunk <= u32::MAX - 8,
        len > 0,
        offset + len <= contents.len(),
    ensures
        ({
            let cs = spec_read_chunks(contents, handle, offset, len, chunk);
            spec_chunk_tails(cs, cs.len() as int) == contents.subrange(
                offset as int,
                offset + len,
            )
        }),
{
    let n = spec_num_chunks(len as nat, chunk as nat) as int;
    lemma_chunk_tails_eq(contents, handle, offset, len, chunk, n);
    lemma_chunks_cover(contents, offset, len, chunk);
}


/// A pull-driven producer of the chunk sequence for one read request.
///
/// `next` yields the chunks of `spec_read_chunks` in order; a read error
/// replaces the rest of the sequence with a single DONE Error chunk, and a
/// producer built by `error_reply` yields only such a chunk.
pub struct StructuredReply {
    pub handle: u64,
    pub offset: u64,
    pub len: u32,
    pub chunk_size: u32,
    pub count: u64,
    pub total: u64,
    pub emit_error: Option<u32>,
}

impl StructuredReply {
    /// Whether the producer's bookkeeping is consistent.
    pub open spec fn wf(self) -> bool {
        &&& self.count <= self.total
        &&& match self.emit_error {
            Some(_) => self.total == 1,
            None => {
                &&& self.chunk_size > 0
                &&& self.chunk_size <= u32::MAX - 8
                &&& self.offset + self.len <= u64::MAX
                &&& self.total == spec_num_chunks(self.len as nat, self.chunk_size as nat)
            },
        }
    }

    /// Whether every chunk has been handed out.
    pub open spec fn finished(self) -> bool {
        self.count >= self.total
    }

    /// A producer for the range `[offset, offset + len)`, split into
    /// chunks of at most `chunk_size` payload bytes.
    pub fn read_from_offset(handle: u64, offset: u64, len: u32, chunk_size: u32) -> (r:
        StructuredReply)
        requires
            chunk_size > 0,
            chunk_size <= u32::MAX - 8,
            offset + len <= u64::MAX,
        ensures
            r.wf(),
            r.handle == handle,
            r.offset == offset,
            r.len == len,
            r.chunk_size == chunk_size,
            r.count == 0,
            r.emit_error is None,
    {
        let total: u64 = if len == 0 {
            1
        } else {
            (((len - 1) / chunk_size) as u64) + 1
        };
        StructuredReply { handle, offset, len, chunk_size, count: 0, total, emit_error: None }
    }

    /// A producer that yields one DONE Error chunk carrying `code`.
    pub fn error_reply(handle: u64, code: u32) -> (r: StructuredReply)
        ensures
            r.wf(),
            r.handle == handle,
            r.count == 0,
            r.total == 1,
            r.emit_error == Some(code),
    {
        StructuredReply {
            handle,
            offset: 0,
            len: 0,
            chunk_size: 1,
            count: 0,
            total: 1,
            emit_error: Some(code),
        }
    }

    /// Hands out the next chunk, reading the export for its payload, or
    /// None when the sequence is over. A failed read yields a DONE Error
    /// chunk and ends the sequence.
    pub fn next<E: ExportStore>(&mut self, export: &E) -> (r: Option<StructuredReplyChunk>)
        requires
            old(self).wf(),
        ensures
            final(self).wf(),
            final(self).handle == old(self).handle,
            final(self).offset == old(self).offset,
            final(self).len == old(self).len,
            final(self).chunk_size == old(self).chunk_size,
            final(self).total == old(self).total,
            final(self).emit_error == old(self).emit_error,
            old(self).finished() ==> r is None && *final(self) == *old(self),
            !old(self).finished() ==> final(self).count > old(self).count && (r matches Some(c)
                && c.wf() && c.handle == old(self).handle && match old(self).emit_error {
                Some(code) => c@ == spec_error_chunk(old(self).handle, code) && final(self).count
                    == old(self).total,
                None => {
                    ||| (c@ == spec_read_chunks(
                        export.contents(),
                        old(self).handle,
                        old(self).offset,
                        old(self).len,
                        old(self).chunk_size,
                    )[old(self).count as int] && final(self).count == old(self).count + 1)
                    ||| (old(self).len > 0 && c@ == spec_error_chunk(old(self).handle, EIO)
                        && final(self).count == old(self).total)
                },
            }),
    {
        if self.count >= self.total {
            return None;
        }
        let handle = self.handle;
        match self.emit_error {
            Some(code) => {
                let mut payload: Vec<u8> = Vec::new();
                push_be_u32(&mut payload, code);
                push_be_u16(&mut payload, 0);
                proof {
                    assert(payload@ =~= be32(code) + be16(0));
                    crate::wire::lemma_be_bytes_len(code as nat, 4);
                    crate::wire::lemma_be_bytes_len(0, 2);
                    assert(payload.deep_view() =~= payload@);
                }
                let c = StructuredReplyChunk::new(ChunkType::Error, handle, Some(payload), true);
                self.count = self.total;
                proof {
                    assert(c@ =~= spec_error_chunk(handle, code));
                }
                Some(c)
            },
            None => {
                if self.len == 0 {
                    let c = StructuredReplyChunk::new(ChunkType::NoData, handle, None, true);
                    self.count = self.total;
                    proof {
                        assert(c@ =~= spec_read_chunks(
                            export.contents(),
                            handle,
                            old(self).offset,
                            old(self).len,
                            old(self).chunk_size,
                        )[0]);
                    }
                    Some(c)
                } else {
                    let i = self.count;
                    proof {
                        lemma_num_chunks_bounds(self.len, self.chunk_size);
                        assert(i * self.chunk_size <= (self.total - 1) * self.chunk_size && i
                            * self.chunk_size >= 0) by (nonlinear_arith)
                            requires
                                0 <= i <= self.total - 1,
                                self.chunk_size > 0,
                        ;
                    }
                    let covered: u64 = i * (self.chunk_size as u64);
                    let start: u64 = self.offset + covered;
                    let remaining: u32 = self.len - (covered as u32);
                    let clen: u32 = if remaining < self.chunk_size {
                        remaining
                    } else {
                        self.chunk_size
                    };
                    match export.read_at(start, clen) {
                        Some(bytes) => {
                            let mut payload: Vec<u8> = Vec::new();
                            push_be_u64(&mut payload, start);
                            crate::wire::extend_bytes(&mut payload, bytes.as_slice());
                            proof {
                                crate::wire::lemma_be_bytes_len(start as nat, 8);
                                assert(payload.deep_view() =~= payload@);
                            }
                            let done = i + 1 == self.total;
                            let c = StructuredReplyChunk::new(
                                ChunkType::OffsetData,
                                handle,
                                Some(payload),
                                done,
                            );
                            self.count = i + 1;
                            proof {
                                let cs = spec_read_chunks(
                                    export.contents(),
                                    handle,
                                    old(self).offset,
                                    old(self).len,
                                    old(self).chunk_size,
                                );
                                assert(c@ =~= cs[i as int]);
                            }
                            Some(c)
                        },
                        None => {
                            let mut payload: Vec<u8> = Vec::new();
                            push_be_u32(&mut payload, EIO);
                            push_be_u16(&mut payload, 0);
                            proof {
                                assert(payload@ =~= be32(EIO) + be16(0));
                                crate::wire::lemma_be_bytes_len(EIO as nat, 4);
                                crate::wire::lemma_be_bytes_len(0, 2);
                                assert(payload.deep_view() =~= payload@);
                            }
                            let c = StructuredReplyChunk::new(
                                ChunkType::Error,
                                handle,
                                Some(payload),
                                true,
                            );
                            self.count = self.total;
                            proof {
                                assert(c@ =~= spec_error_chunk(handle, EIO));
                            }
                            Some(c)
                        },
                    }
                }
            },
        }
    }
}


} // verus!
