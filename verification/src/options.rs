//! Option haggling frames: the client's options and the server's option
//! replies.
//!
//! An option frame (after its 8-byte magic) is `option_id: u32`,
//! `data_len: u32`, then `data_len` bytes of payload. `spec_parse_option`
//! states what every buffer parses to; the executable parser is proved to
//! agree with it. A buffer that does not yet hold the whole frame parses to
//! `TooShort` or `RequireData(delta)`, never to a mangled option.
use vstd::prelude::*;
use crate::message::Message;
use crate::wire::{be16, be32, be64, be_val, be_u16_at, be_u32_at, extend_bytes, push_be_u16, push_be_u32, push_be_u64};

verus! {

/// Magic number that opens every option reply.
pub const OPTION_REPLY_MAGIC: u64 = 0x3e889045565a9;

/// An info kind a client can ask about in Info and Go options.
#[derive(Clone, Copy, Debug, PartialEq, Eq, Structural)]
pub enum Info {
    Export,
    Name,
    Description,
    BlockSize,
}

impl View for Info {
    type V = Info;

    open spec fn view(&self) -> Info {
        *self
    }
}

impl DeepView for Info {
    type V = Info;

    open spec fn deep_view(&self) -> Info {
        *self
    }
}

/// The 16-bit wire code of each info kind.
pub open spec fn spec_info_code(i: Info) -> u16 {
    match i {
        Info::Export => 0,
        Info::Name => 1,
        Info::Description => 2,
        Info::BlockSize => 3,
    }
}

/// The info kind a 16-bit wire code stands for, if any.
pub open spec fn spec_info_from_code(v: u16) -> Option<Info> {
    if v == 0 {
        Some(Info::Export)
    } else if v == 1 {
        Some(Info::Name)
    } else if v == 2 {
        Some(Info::Description)
    } else if v == 3 {
        Some(Info::BlockSize)
    } else {
        None
    }
}

impl Info {
    pub fn to_u16(&self) -> (r: u16)
        ensures
            r == spec_info_code(*self),
    {
        match self {
            Info::Export => 0,
            Info::Name => 1,
            Info::Description => 2,
            Info::BlockSize => 3,
        }
    }

    pub fn from_u16(v: u16) -> (r: Option<Info>)
        ensures
            r == spec_info_from_code(v),
    {
        if v == 0 {
            Some(Info::Export)
        } else if v == 1 {
            Some(Info::Name)
        } else if v == 2 {
            Some(Info::Description)
        } else if v == 3 {
            Some(Info::BlockSize)
        } else {
            None
        }
    }
}

/// An option sent by the client during negotiation.
#[derive(Debug)]
pub enum NbdOption {
    ExportName,
    Abort,
    List,
    PeekExport,
    Starttls,
    Info(Option<Vec<u8>>, Option<Vec<Info>>),
    Go(Option<Vec<u8>>, Option<Vec<Info>>),
    /// Holds whether the request was well-formed: its payload must be empty.
    StructuredReply(bool),
    ListMetaContext(Option<Vec<u8>>, Option<Vec<Vec<u8>>>),
    SetMetaContext,
}

/// The mathematical shape of an option: names and queries as byte strings.
#[verifier::ext_equal]
pub enum OptView {
    ExportName,
    Abort,
    List,
    PeekExport,
    Starttls,
    Info(Option<Seq<u8>>, Option<Seq<Info>>),
    Go(Option<Seq<u8>>, Option<Seq<Info>>),
    StructuredReply(bool),
    ListMetaContext(Option<Seq<u8>>, Option<Seq<Seq<u8>>>),
    SetMetaContext,
}

impl View for NbdOption {
    type V = OptView;

    open spec fn view(&self) -> OptView {
        match self {
            NbdOption::ExportName => OptView::ExportName,
            NbdOption::Abort => OptView::Abort,
            NbdOption::List => OptView::List,
            NbdOption::PeekExport => OptView::PeekExport,
            NbdOption::Starttls => OptView::Starttls,
            NbdOption::Info(n, r) => OptView::Info(n.deep_view(), r.deep_view()),
            NbdOption::Go(n, r) => OptView::Go(n.deep_view(), r.deep_view()),
            NbdOption::StructuredReply(b) => OptView::StructuredReply(*b),
            NbdOption::ListMetaContext(n, q) => OptView::ListMetaContext(
                n.deep_view(),
                q.deep_view(),
            ),
            NbdOption::SetMetaContext => OptView::SetMetaContext,
        }
    }
}

/// The 32-bit wire id of each option.
pub open spec fn spec_option_code(o: OptView) -> u32 {
    match o {
        OptView::ExportName => 1,
        OptView::Abort => 2,
        OptView::List => 3,
        OptView::PeekExport => 4,
        OptView::Starttls => 5,
        OptView::Info(_, _) => 6,
        OptView::Go(_, _) => 7,
        OptView::StructuredReply(_) => 8,
        OptView::ListMetaContext(_, _) => 9,
        OptView::SetMetaContext => 10,
    }
}

impl NbdOption {
    /// The option's 32-bit wire id.
    pub fn code(&self) -> (r: u32)
        ensures
            r == spec_option_code(self@),
    {
        match self {
            NbdOption::ExportName => 1,
            NbdOption::Abort => 2,
            NbdOption::List => 3,
            NbdOption::PeekExport => 4,
            NbdOption::Starttls => 5,
            NbdOption::Info(_, _) => 6,
            NbdOption::Go(_, _) => 7,
            NbdOption::StructuredReply(_) => 8,
            NbdOption::ListMetaContext(_, _) => 9,
            NbdOption::SetMetaContext => 10,
        }
    }
}

/// Why a buffer failed to parse as an option.
#[derive(Clone, Copy, Debug, PartialEq, Eq, Structural)]
pub enum OptionError {
    /// Fewer than the 8 header bytes are present.
    TooShort,
    /// The option id is not one this server knows.
    UnknownOption(u32),
    /// The payload is not complete: this many more bytes are needed.
    RequireData(usize),
    /// The payload does not have the shape its option demands.
    Parse,
}

/// The info-request codes of the first n entries, unknown codes dropped.
pub open spec fn spec_info_codes(s: Seq<u8>, n: nat) -> Seq<Info>
    recommends
        s.len() >= 2 * n,
    decreases n,
{
    if n == 0 {
        Seq::empty()
    } else {
        let rest = spec_info_codes(s.skip(2), (n - 1) as nat);
        match spec_info_from_code(be_val(s.subrange(0, 2)) as u16) {
            Some(i) => seq![i] + rest,
            None => rest,
        }
    }
}

/// What an Info or Go payload parses to: a name (empty means none) and a
/// list of info requests (a zero count means none).
pub open spec fn spec_parse_info_go(d: Seq<u8>) -> Result<
    (Option<Seq<u8>>, Option<Seq<Info>>),
    OptionError,
> {
    if d.len() < 4 {
        Err(OptionError::Parse)
    } else {
        let nl = be_val(d.subrange(0, 4));
        if d.len() - 4 < nl {
            Err(OptionError::Parse)
        } else {
            let name = if nl == 0 {
                None
            } else {
                Some(d.subrange(4, 4 + nl as int))
            };
            let rest = d.skip(4 + nl as int);
            if rest.len() < 2 {
                Err(OptionError::Parse)
            } else {
                let n = be_val(rest.subrange(0, 2));
                let codes = rest.skip(2);
                if codes.len() < 2 * n {
                    Err(OptionError::Parse)
                } else {
                    let reqs = if n == 0 {
                        None
                    } else {
                        Some(spec_info_codes(codes, n))
                    };
                    Ok((name, reqs))
                }
            }
        }
    }
}

/// The n length-prefixed queries at the front of s, or nothing when they
/// do not have that shape.
pub open spec fn spec_queries(s: Seq<u8>, n: nat) -> Option<Seq<Seq<u8>>>
    decreases n,
{
    if n == 0 {
        Some(Seq::empty())
    } else if s.len() < 4 {
        None
    } else {
        let l = be_val(s.subrange(0, 4));
        if s.len() - 4 < l {
            None
        } else {
            match spec_queries(s.skip(4 + l as int), (n - 1) as nat) {
                Some(qs) => Some(seq![s.subrange(4, 4 + l as int)] + qs),
                None => None,
            }
        }
    }
}

/// What a ListMetaContext payload parses to: a name and a list of queries.
pub open spec fn spec_parse_list_meta_context(d: Seq<u8>) -> Result<
    (Option<Seq<u8>>, Option<Seq<Seq<u8>>>),
    OptionError,
> {
    if d.len() < 4 {
        Err(OptionError::Parse)
    } else {
        let nl = be_val(d.subrange(0, 4));
        if d.len() - 4 < nl {
            Err(OptionError::Parse)
        } else {
            let name = if nl == 0 {
                None
            } else {
                Some(d.subrange(4, 4 + nl as int))
            };
            let rest = d.skip(4 + nl as int);
            if rest.len() < 4 {
                Err(OptionError::Parse)
            } else {
                let n = be_val(rest.subrange(0, 4));
                if n == 0 {
                    Ok((name, None))
                } else {
                    match spec_queries(rest.skip(4), n) {
                        Some(qs) => Ok((name, Some(qs))),
                        None => Err(OptionError::Parse),
                    }
                }
            }
        }
    }
}

/// What a whole option frame (without its magic) parses to.
pub open spec fn spec_parse_option(s: Seq<u8>) -> Result<OptView, OptionError> {
    if s.len() < 8 {
        Err(OptionError::TooShort)
    } else {
        let id = be_val(s.subrange(0, 4));
        let dlen = be_val(s.subrange(4, 8));
        if s.len() - 8 < dlen {
            Err(OptionError::RequireData((dlen - (s.len() - 8)) as usize))
        } else {
            let d = s.subrange(8, 8 + dlen as int);
            if id == 1 {
                Ok(OptView::ExportName)
            } else if id == 2 {
                Ok(OptView::Abort)
            } else if id == 3 {
                Ok(OptView::List)
            } else if id == 4 {
                Ok(OptView::PeekExport)
            } else if id == 5 {
                Ok(OptView::Starttls)
            } else if id == 6 || id == 7 {
                match spec_parse_info_go(d) {
                    Ok((name, reqs)) => if id == 7 {
                        Ok(OptView::Go(name, reqs))
                    } else {
                        Ok(OptView::Info(name, reqs))
                    },
                    Err(e) => Err(e),
                }
            } else if id == 8 {
                Ok(OptView::StructuredReply(dlen == 0))
            } else if id == 9 {
                match spec_parse_list_meta_context(d) {
                    Ok((name, qs)) => Ok(OptView::ListMetaContext(name, qs)),
                    Err(e) => Err(e),
                }
            } else if id == 10 {
                Ok(OptView::SetMetaContext)
            } else {
                Err(OptionError::UnknownOption(id as u32))
            }
        }
    }
}


/// The rendered info-request list: two bytes for each code.
pub open spec fn spec_info_codes_bytes(rs: Seq<Info>) -> Seq<u8>
    decreases rs.len(),
{
    if rs.len() == 0 {
        Seq::empty()
    } else {
        be16(spec_info_code(rs[0])) + spec_info_codes_bytes(rs.drop_first())
    }
}

/// The byte string a name field stands for: the name, or nothing.
pub open spec fn spec_name_bytes(n: Option<Seq<u8>>) -> Seq<u8> {
    match n {
        Some(s) => s,
        None => Seq::empty(),
    }
}

/// The payload of an Info or Go option.
pub open spec fn spec_info_go_payload(name: Option<Seq<u8>>, reqs: Option<Seq<Info>>) -> Seq<u8> {
    let nb = spec_name_bytes(name);
    let rs = match reqs {
        Some(rs) => rs,
        None => Seq::<Info>::empty(),
    };
    be32(nb.len() as u32) + nb + be16(rs.len() as u16) + spec_info_codes_bytes(rs)
}

/// The rendered query list: each query length-prefixed.
pub open spec fn spec_queries_bytes(qs: Seq<Seq<u8>>) -> Seq<u8>
    decreases qs.len(),
{
    if qs.len() == 0 {
        Seq::empty()
    } else {
        be32(qs[0].len() as u32) + qs[0] + spec_queries_bytes(qs.drop_first())
    }
}

/// The payload of a ListMetaContext option.
pub open spec fn spec_meta_payload(name: Option<Seq<u8>>, qs: Option<Seq<Seq<u8>>>) -> Seq<u8> {
    let nb = spec_name_bytes(name);
    let q = match qs {
        Some(q) => q,
        None => Seq::<Seq<u8>>::empty(),
    };
    be32(nb.len() as u32) + nb + be32(q.len() as u32) + spec_queries_bytes(q)
}

/// The payload an option is rendered with.
pub open spec fn spec_option_payload(o: OptView) -> Seq<u8> {
    match o {
        OptView::Info(n, r) => spec_info_go_payload(n, r),
        OptView::Go(n, r) => spec_info_go_payload(n, r),
        OptView::StructuredReply(valid) => if valid {
            Seq::empty()
        } else {
            seq![0u8]
        },
        OptView::ListMetaContext(n, q) => spec_meta_payload(n, q),
        _ => Seq::empty(),
    }
}

/// The whole rendered option frame (without the leading magic).
pub open spec fn spec_encode_option(o: OptView) -> Seq<u8> {
    be32(spec_option_code(o)) + be32(spec_option_payload(o).len() as u32) + spec_option_payload(o)
}

/// Whether the option's fields fit their wire counters, so it can be
/// rendered at all.
pub open spec fn spec_opt_encodable(o: OptView) -> bool {
    spec_option_payload(o).len() <= u32::MAX && match o {
        OptView::Info(n, r) => (n matches Some(s) ==> s.len() <= u32::MAX) && (r matches Some(rs)
            ==> rs.len() <= u16::MAX),
        OptView::Go(n, r) => (n matches Some(s) ==> s.len() <= u32::MAX) && (r matches Some(rs)
            ==> rs.len() <= u16::MAX),
        OptView::ListMetaContext(n, q) => (n matches Some(s) ==> s.len() <= u32::MAX) && (
        q matches Some(qs) ==> qs.len() <= u32::MAX && forall|i: int|
            0 <= i < qs.len() ==> #[trigger] qs[i].len() <= u32::MAX),
        _ => true,
    }
}

/// Whether the option has the one shape its rendering parses back to:
/// a present name or query list is never empty.
pub open spec fn spec_opt_valid(o: OptView) -> bool {
    spec_opt_encodable(o) && match o {
        OptView::Info(n, r) => (n matches Some(s) ==> s.len() > 0) && (r matches Some(rs)
            ==> rs.len() > 0),
        OptView::Go(n, r) => (n matches Some(s) ==> s.len() > 0) && (r matches Some(rs)
            ==> rs.len() > 0),
        OptView::ListMetaContext(n, q) => (n matches Some(s) ==> s.len() > 0) && (q matches Some(
            qs,
        ) ==> qs.len() > 0),
        _ => true,
    }
}

pub proof fn lemma_info_codes_bytes_len(rs: Seq<Info>)
    ensures
        spec_info_codes_bytes(rs).len() == 2 * rs.len(),
    decreases rs.len(),
{
    if rs.len() > 0 {
        lemma_info_codes_bytes_len(rs.drop_first());
        crate::wire::lemma_be_bytes_len(spec_info_code(rs[0]) as nat, 2);
    }
}

pub proof fn lemma_info_codes_bytes_push(rs: Seq<Info>, x: Info)
    ensures
        spec_info_codes_bytes(rs.push(x)) == spec_info_codes_bytes(rs) + be16(spec_info_code(x)),
    decreases rs.len(),
{
    reveal_with_fuel(spec_info_codes_bytes, 2);
    if rs.len() == 0 {
        assert(rs.push(x).drop_first() =~= Seq::<Info>::empty());
        assert(spec_info_codes_bytes(rs.push(x)) =~= spec_info_codes_bytes(rs) + be16(
            spec_info_code(x),
        ));
    } else {
        assert(rs.push(x).drop_first() =~= rs.drop_first().push(x));
        lemma_info_codes_bytes_push(rs.drop_first(), x);
        assert(spec_info_codes_bytes(rs.push(x)) =~= spec_info_codes_bytes(rs) + be16(
            spec_info_code(x),
        ));
    }
}

pub proof fn lemma_queries_bytes_push(qs: Seq<Seq<u8>>, x: Seq<u8>)
    ensures
        spec_queries_bytes(qs.push(x)) == spec_queries_bytes(qs) + (be32(x.len() as u32) + x),
    decreases qs.len(),
{
    reveal_with_fuel(spec_queries_bytes, 2);
    if qs.len() == 0 {
        assert(qs.push(x).drop_first() =~= Seq::<Seq<u8>>::empty());
        assert(spec_queries_bytes(qs.push(x)) =~= spec_queries_bytes(qs) + (be32(x.len() as u32)
            + x));
    } else {
        assert(qs.push(x).drop_first() =~= qs.drop_first().push(x));
        lemma_queries_bytes_push(qs.drop_first(), x);
        assert(spec_queries_bytes(qs.push(x)) =~= spec_queries_bytes(qs) + (be32(x.len() as u32)
            + x));
    }
}

/// Renders an Info or Go payload.
fn encode_info_go_payload(name: &Option<Vec<u8>>, reqs: &Option<Vec<Info>>) -> (r: Vec<u8>)
    requires
        (name matches Some(v) ==> v@.len() <= u32::MAX),
        (reqs matches Some(rs) ==> rs@.len() <= u16::MAX),
    ensures
        r@ == spec_info_go_payload(name.deep_view(), reqs.deep_view()),
{
    let mut out: Vec<u8> = Vec::new();
    match name {
        Some(v) => {
            push_be_u32(&mut out, v.len() as u32);
            extend_bytes(&mut out, v.as_slice());
            proof {
                assert(v.deep_view() =~= v@);
            }
        },
        None => {
            push_be_u32(&mut out, 0);
        },
    }
    let ghost nb = spec_name_bytes(name.deep_view());
    proof {
        assert(out@ =~= be32(nb.len() as u32) + nb);
    }
    match reqs {
        Some(rs) => {
            push_be_u16(&mut out, rs.len() as u16);
            let ghost base = out@;
            let count: usize = rs.len();
            let mut i: usize = 0;
            while i < count
                invariant
                    i <= count,
                    count == rs@.len(),
                    out@ == base + spec_info_codes_bytes(rs@.take(i as int)),
                decreases count - i,
            {
                let code = vstd::slice::slice_index_get(rs.as_slice(), i).to_u16();
                push_be_u16(&mut out, code);
                proof {
                    assert(rs@.take(i as int + 1) =~= rs@.take(i as int).push(rs@[i as int]));
                    lemma_info_codes_bytes_push(rs@.take(i as int), rs@[i as int]);
                    assert(out@ =~= base + spec_info_codes_bytes(rs@.take(i as int + 1)));
                }
                i = i + 1;
            }
            proof {
                assert(rs@.take(count as int) =~= rs@);
                assert(rs.deep_view() =~= rs@);
                assert(out@ =~= spec_info_go_payload(name.deep_view(), reqs.deep_view()));
            }
        },
        None => {
            push_be_u16(&mut out, 0);
            proof {
                assert(out@ =~= spec_info_go_payload(name.deep_view(), reqs.deep_view()));
            }
        },
    }
    out
}

/// Renders a ListMetaContext payload.
fn encode_meta_payload(name: &Option<Vec<u8>>, qs: &Option<Vec<Vec<u8>>>) -> (r: Vec<u8>)
    requires
        (name matches Some(v) ==> v@.len() <= u32::MAX),
        (qs matches Some(q) ==> q@.len() <= u32::MAX && forall|i: int|
            0 <= i < q@.len() ==> #[trigger] q@[i]@.len() <= u32::MAX),
    ensures
        r@ == spec_meta_payload(name.deep_view(), qs.deep_view()),
{
    let mut out: Vec<u8> = Vec::new();
    match name {
        Some(v) => {
            push_be_u32(&mut out, v.len() as u32);
            extend_bytes(&mut out, v.as_slice());
            proof {
                assert(v.deep_view() =~= v@);
            }
        },
        None => {
            push_be_u32(&mut out, 0);
        },
    }
    let ghost nb = spec_name_bytes(name.deep_view());
    proof {
        assert(out@ =~= be32(nb.len() as u32) + nb);
    }
    match qs {
        Some(q) => {
            push_be_u32(&mut out, q.len() as u32);
            let ghost base = out@;
            let ghost qd = q.deep_view();
            let count: usize = q.len();
            let mut i: usize = 0;
            while i < count
                invariant
                    i <= count,
                    count == q@.len(),
                    qd == q.deep_view(),
                    forall|j: int| 0 <= j < q@.len() ==> #[trigger] q@[j]@.len() <= u32::MAX,
                    out@ == base + spec_queries_bytes(qd.take(i as int)),
                decreases count - i,
            {
                let item = vstd::slice::slice_index_get(q.as_slice(), i);
                push_be_u32(&mut out, item.len() as u32);
                extend_bytes(&mut out, item.as_slice());
                proof {
                    assert(qd[i as int] =~= item@);
                    assert(qd.take(i as int + 1) =~= qd.take(i as int).push(qd[i as int]));
                    lemma_queries_bytes_push(qd.take(i as int), qd[i as int]);
                    assert(out@ =~= base + spec_queries_bytes(qd.take(i as int + 1)));
                }
                i = i + 1;
            }
            proof {
                assert(qd.take(count as int) =~= qd);
                assert(out@ =~= spec_meta_payload(name.deep_view(), qs.deep_view()));
            }
        },
        None => {
            push_be_u32(&mut out, 0);
            proof {
                assert(out@ =~= spec_meta_payload(name.deep_view(), qs.deep_view()));
            }
        },
    }
    out
}

impl NbdOption {
    /// Renders the option's payload.
    fn payload_bytes(&self) -> (r: Vec<u8>)
        requires
            spec_opt_encodable(self@),
        ensures
            r@ == spec_option_payload(self@),
    {
        match self {
            NbdOption::Info(n, r) => encode_info_go_payload(n, r),
            NbdOption::Go(n, r) => encode_info_go_payload(n, r),
            NbdOption::StructuredReply(valid) => {
                let mut v: Vec<u8> = Vec::new();
                if !*valid {
                    v.push(0);
                }
                proof {
                    assert(v@ =~= spec_option_payload(self@));
                }
                v
            },
            NbdOption::ListMetaContext(n, q) => {
                proof {
                    match q {
                        Some(qv) => {
                            assert(forall|i: int|
                                0 <= i < qv@.len() ==> #[trigger] qv@[i]@.len()
                                    == qv.deep_view()[i].len());
                        },
                        None => {},
                    }
                }
                encode_meta_payload(n, q)
            },
            NbdOption::ExportName => Vec::new(),
            NbdOption::Abort => Vec::new(),
            NbdOption::List => Vec::new(),
            NbdOption::PeekExport => Vec::new(),
            NbdOption::Starttls => Vec::new(),
            NbdOption::SetMetaContext => Vec::new(),
        }
    }

    /// Renders the whole option frame (without the leading magic): its id,
    /// its payload length, then its payload.
    pub fn encode(&self) -> (r: Vec<u8>)
        requires
            spec_opt_encodable(self@),
        ensures
            r@ == spec_encode_option(self@),
    {
        let payload = self.payload_bytes();
        let mut out: Vec<u8> = Vec::new();
        push_be_u32(&mut out, self.code());
        push_be_u32(&mut out, payload.len() as u32);
        extend_bytes(&mut out, payload.as_slice());
        proof {
            assert(out@ =~= spec_encode_option(self@));
        }
        out
    }
}



pub proof fn lemma_info_codes_round(rs: Seq<Info>)
    ensures
        spec_info_codes(spec_info_codes_bytes(rs), rs.len()) == rs,
    decreases rs.len(),
{
    if rs.len() > 0 {
        let code = spec_info_code(rs[0]);
        let rest_b = spec_info_codes_bytes(rs.drop_first());
        let b = spec_info_codes_bytes(rs);
        crate::wire::lemma_be_bytes_len(code as nat, 2);
        assert(b.subrange(0, 2) =~= be16(code));
        proof_pow256_small();
        crate::wire::lemma_be_val_of_bytes(code as nat, 2);
        assert(b.skip(2) =~= rest_b);
        lemma_info_codes_round(rs.drop_first());
        assert(seq![rs[0]] + rs.drop_first() =~= rs);
    }
}

/// The small powers of 256 the frame fields need.
pub proof fn proof_pow256_small()
    ensures
        crate::wire::pow256(2) == 0x1_0000,
        crate::wire::pow256(4) == 0x1_0000_0000,
        crate::wire::pow256(8) == 0x1_0000_0000_0000_0000,
{
    reveal_with_fuel(crate::wire::pow256, 9);
}

pub proof fn lemma_queries_round(qs: Seq<Seq<u8>>)
    requires
        forall|i: int| 0 <= i < qs.len() ==> #[trigger] qs[i].len() <= u32::MAX,
    ensures
        spec_queries(spec_queries_bytes(qs), qs.len()) == Some(qs),
    decreases qs.len(),
{
    if qs.len() == 0 {
        assert(qs =~= Seq::<Seq<u8>>::empty());
    } else {
        let q0 = qs[0];
        let rest_b = spec_queries_bytes(qs.drop_first());
        let b = spec_queries_bytes(qs);
        crate::wire::lemma_be_bytes_len((q0.len() as u32) as nat, 4);
        assert(b.subrange(0, 4) =~= be32(q0.len() as u32));
        proof_pow256_small();
        crate::wire::lemma_be_val_of_bytes((q0.len() as u32) as nat, 4);
        let l = q0.len() as int;
        assert(b.subrange(4, 4 + l) =~= q0);
        assert(b.skip(4 + l) =~= rest_b);
        assert(forall|i: int|
            0 <= i < qs.drop_first().len() ==> #[trigger] qs.drop_first()[i].len()
                <= u32::MAX);
        lemma_queries_round(qs.drop_first());
        assert(seq![q0] + qs.drop_first() =~= qs);
    }
}

pub proof fn lemma_info_go_round(n: Option<Seq<u8>>, r: Option<Seq<Info>>)
    requires
        n matches Some(s) ==> 0 < s.len() <= u32::MAX,
        r matches Some(rs) ==> 0 < rs.len() <= u16::MAX,
    ensures
        spec_parse_info_go(spec_info_go_payload(n, r)) == Ok::<(Option<Seq<u8>>, Option<Seq<Info>>), OptionError>((n, r)),
{
    let nb = spec_name_bytes(n);
    let rs = match r {
        Some(rs) => rs,
        None => Seq::<Info>::empty(),
    };
    let d = spec_info_go_payload(n, r);
    crate::wire::lemma_be_bytes_len((nb.len() as u32) as nat, 4);
    crate::wire::lemma_be_bytes_len((rs.len() as u16) as nat, 2);
    lemma_info_codes_bytes_len(rs);
    proof_pow256_small();
    assert(d.subrange(0, 4) =~= be32(nb.len() as u32));
    crate::wire::lemma_be_val_of_bytes((nb.len() as u32) as nat, 4);
    let nl = nb.len() as int;
    match n {
        Some(s) => {
            assert(d.subrange(4, 4 + nl) =~= s);
        },
        None => {},
    }
    let rest = d.skip(4 + nl);
    assert(rest =~= be16(rs.len() as u16) + spec_info_codes_bytes(rs));
    assert(rest.subrange(0, 2) =~= be16(rs.len() as u16));
    crate::wire::lemma_be_val_of_bytes((rs.len() as u16) as nat, 2);
    assert(rest.skip(2) =~= spec_info_codes_bytes(rs));
    lemma_info_codes_round(rs);
}

pub proof fn lemma_meta_round(n: Option<Seq<u8>>, q: Option<Seq<Seq<u8>>>)
    requires
        n matches Some(s) ==> 0 < s.len() <= u32::MAX,
        q matches Some(qs) ==> 0 < qs.len() <= u32::MAX && forall|i: int|
            0 <= i < qs.len() ==> #[trigger] qs[i].len() <= u32::MAX,
    ensures
        spec_parse_list_meta_context(spec_meta_payload(n, q)) == Ok::<(Option<Seq<u8>>, Option<Seq<Seq<u8>>>), OptionError>((n, q)),
{
    let nb = spec_name_bytes(n);
    let qs = match q {
        Some(qs) => qs,
        None => Seq::<Seq<u8>>::empty(),
    };
    let d = spec_meta_payload(n, q);
    crate::wire::lemma_be_bytes_len((nb.len() as u32) as nat, 4);
    crate::wire::lemma_be_bytes_len((qs.len() as u32) as nat, 4);
    proof_pow256_small();
    assert(d.subrange(0, 4) =~= be32(nb.len() as u32));
    crate::wire::lemma_be_val_of_bytes((nb.len() as u32) as nat, 4);
    let nl = nb.len() as int;
    match n {
        Some(s) => {
            assert(d.subrange(4, 4 + nl) =~= s);
        },
        None => {},
    }
    let rest = d.skip(4 + nl);
    assert(rest =~= be32(qs.len() as u32) + spec_queries_bytes(qs));
    assert(rest.subrange(0, 4) =~= be32(qs.len() as u32));
    crate::wire::lemma_be_val_of_bytes((qs.len() as u32) as nat, 4);
    assert(rest.skip(4) =~= spec_queries_bytes(qs));
    match q {
        Some(qs2) => {
            lemma_queries_round(qs2);
        },
        None => {},
    }
}

/// Round trip: a well-formed option parses back from its own rendering.
pub proof fn lemma_option_round_trip(o: OptView)
    requires
        spec_opt_valid(o),
    ensures
        spec_parse_option(spec_encode_option(o)) == Ok::<OptView, OptionError>(o),
{
    let id = spec_option_code(o);
    let p = spec_option_payload(o);
    let e = spec_encode_option(o);
    crate::wire::lemma_be_bytes_len(id as nat, 4);
    crate::wire::lemma_be_bytes_len((p.len() as u32) as nat, 4);
    proof_pow256_small();
    assert(e.subrange(0, 4) =~= be32(id));
    crate::wire::lemma_be_val_of_bytes(id as nat, 4);
    assert(e.subrange(4, 8) =~= be32(p.len() as u32));
    crate::wire::lemma_be_val_of_bytes((p.len() as u32) as nat, 4);
    assert(e.subrange(8, 8 + p.len() as int) =~= p);
    match o {
        OptView::Info(n, r) => {
            lemma_info_go_round(n, r);
        },
        OptView::Go(n, r) => {
            lemma_info_go_round(n, r);
        },
        OptView::ListMetaContext(n, q) => {
            lemma_meta_round(n, q);
        },
        _ => {},
    }
}

/// A buffer holding part of an option frame asks for exactly the missing
/// bytes: under 8 bytes it is too short, beyond that it demands the rest of
/// the payload. So a frame fed in arbitrary pieces is refused with a byte
/// count until the last piece arrives, and never parses to a mangled option.
pub proof fn lemma_option_parse_prefix(s: Seq<u8>, i: int)
    requires
        s.len() >= 8,
        s.len() == 8 + be_val(s.subrange(4, 8)),
        0 <= i < s.len(),
    ensures
        i < 8 ==> spec_parse_option(s.subrange(0, i)) == Err::<OptView, OptionError>(OptionError::TooShort),
        i >= 8 ==> spec_parse_option(s.subrange(0, i)) == Err::<OptView, OptionError>(
            OptionError::RequireData((s.len() - i) as usize),
        ),
{
    let p = s.subrange(0, i);
    if i >= 8 {
        assert(p.subrange(0, 4) =~= s.subrange(0, 4));
        assert(p.subrange(4, 8) =~= s.subrange(4, 8));
        crate::wire::lemma_be_val_bound(s.subrange(4, 8));
        proof_pow256_small();
    }
}

/// Bytes that follow a complete frame do not change what it parses to.
pub proof fn lemma_option_parse_extend(s: Seq<u8>, t: Seq<u8>)
    requires
        s.len() >= 8,
        s.len() == 8 + be_val(s.subrange(4, 8)),
    ensures
        spec_parse_option(s + t) == spec_parse_option(s),
{
    let u = s + t;
    assert(u.subrange(0, 4) =~= s.subrange(0, 4));
    assert(u.subrange(4, 8) =~= s.subrange(4, 8));
    let dlen = be_val(s.subrange(4, 8)) as int;
    assert(u.subrange(8, 8 + dlen) =~= s.subrange(8, 8 + dlen));
}


/// Collects the info-request codes of n entries starting at `start`,
/// dropping codes this server does not know.
pub fn parse_info_codes(data: &[u8], start: usize, n: usize) -> (r: Vec<Info>)
    requires
        start + 2 * n <= data@.len(),
    ensures
        r@ == spec_info_codes(data@.skip(start as int), n as nat),
{
    let dlen: usize = data.len();
    let mut acc: Vec<Info> = Vec::new();
    let mut i: usize = 0;
    while i < n
        invariant
            i <= n,
            dlen == data@.len(),
            start + 2 * n <= dlen,
            spec_info_codes(data@.skip(start as int), n as nat) == acc@ + spec_info_codes(
                data@.skip((start + 2 * i) as int),
                (n - i) as nat,
            ),
        decreases n - i,
    {
        let at: usize = start + 2 * i;
        let code = be_u16_at(data, at);
        let ghost tail = data@.skip(at as int);
        proof {
            assert(tail.subrange(0, 2) =~= data@.subrange(at as int, at as int + 2));
            assert(tail.skip(2) =~= data@.skip((at + 2) as int));
        }
        let ghost before = acc@;
        match Info::from_u16(code) {
            Some(info) => {
                acc.push(info);
                proof {
                    assert(before + (seq![info] + spec_info_codes(
                        data@.skip((at + 2) as int),
                        (n - i - 1) as nat,
                    )) =~= acc@ + spec_info_codes(data@.skip((at + 2) as int), (n - i - 1) as nat));
                }
            },
            None => {},
        }
        i = i + 1;
    }
    proof {
        assert(acc@ + spec_info_codes(data@.skip((start + 2 * n) as int), 0) =~= acc@);
    }
    acc
}

/// Parses the name and info-request list of an Info or Go payload.
pub fn parse_info_go(data: &[u8]) -> (r: Result<
    (Option<Vec<u8>>, Option<Vec<Info>>),
    OptionError,
>)
    ensures
        match (r, spec_parse_info_go(data@)) {
            (Ok((n, q)), Ok((sn, sq))) => n.deep_view() == sn && q.deep_view() == sq,
            (Err(a), Err(b)) => a == b,
            _ => false,
        },
{
    let dlen: usize = data.len();
    if dlen < 4 {
        return Err(OptionError::Parse);
    }
    let nl32 = be_u32_at(data, 0);
    let nl = nl32 as usize;
    if dlen - 4 < nl {
        return Err(OptionError::Parse);
    }
    let name: Option<Vec<u8>> = if nl == 0 {
        None
    } else {
        Some(vstd::slice::slice_to_vec(vstd::slice::slice_subrange(data, 4, 4 + nl)))
    };
    proof {
        match &name {
            Some(v) => {
                assert(v.deep_view() =~= data@.subrange(4, 4 + nl as int));
            },
            None => {},
        }
    }
    let pos: usize = 4 + nl;
    if dlen - pos < 2 {
        return Err(OptionError::Parse);
    }
    proof {
        assert(data@.skip(pos as int).subrange(0, 2) =~= data@.subrange(
            pos as int,
            pos as int + 2,
        ));
    }
    let n16 = be_u16_at(data, pos);
    let n = n16 as usize;
    let cs: usize = pos + 2;
    proof {
        assert(data@.skip(pos as int).skip(2) =~= data@.skip(cs as int));
    }
    if dlen - cs < 2 * n {
        return Err(OptionError::Parse);
    }
    if n == 0 {
        return Ok((name, None));
    }
    let codes = parse_info_codes(data, cs, n);
    proof {
        assert(codes.deep_view() =~= codes@);
    }
    Ok((name, Some(codes)))
}

/// Parses n length-prefixed queries starting at `start`.
pub fn parse_queries(data: &[u8], start: usize, n: usize) -> (r: Result<
    Vec<Vec<u8>>,
    OptionError,
>)
    requires
        start <= data@.len(),
    ensures
        match (r, spec_queries(data@.skip(start as int), n as nat)) {
            (Ok(v), Some(sq)) => v.deep_view() == sq,
            (Err(a), None) => a == OptionError::Parse,
            _ => false,
        },
{
    let dlen: usize = data.len();
    let mut acc: Vec<Vec<u8>> = Vec::new();
    let mut at: usize = start;
    let mut i: usize = 0;
    proof {
        match spec_queries(data@.skip(start as int), n as nat) {
            Some(sq) => {
                assert(acc.deep_view() + sq =~= sq);
            },
            None => {},
        }
    }
    while i < n
        invariant
            i <= n,
            start <= at <= dlen,
            dlen == data@.len(),
            spec_queries(data@.skip(start as int), n as nat) == match spec_queries(
                data@.skip(at as int),
                (n - i) as nat,
            ) {
                Some(tailqs) => Some(acc.deep_view() + tailqs),
                None => None::<Seq<Seq<u8>>>,
            },
        decreases n - i,
    {
        let ghost tail = data@.skip(at as int);
        if dlen - at < 4 {
            return Err(OptionError::Parse);
        }
        proof {
            assert(tail.subrange(0, 4) =~= data@.subrange(at as int, at as int + 4));
        }
        let l32 = be_u32_at(data, at);
        let l = l32 as usize;
        if dlen - at - 4 < l {
            return Err(OptionError::Parse);
        }
        let q = vstd::slice::slice_to_vec(vstd::slice::slice_subrange(data, at + 4, at + 4 + l));
        proof {
            assert(tail.subrange(4, 4 + l as int) =~= data@.subrange(
                (at + 4) as int,
                (at + 4 + l) as int,
            ));
            assert(tail.skip(4 + l as int) =~= data@.skip((at + 4 + l) as int));
        }
        let ghost before = acc.deep_view();
        acc.push(q);
        proof {
            assert(acc.deep_view() =~~= before.push(q@));
            match spec_queries(data@.skip((at + 4 + l) as int), (n - i - 1) as nat) {
                Some(tailqs) => {
                    assert(acc.deep_view() + tailqs =~~= before + (seq![
                        tail.subrange(4, 4 + l as int),
                    ] + tailqs));
                },
                None => {},
            }
        }
        at = at + 4 + l;
        i = i + 1;
    }
    proof {
        match spec_queries(data@.skip(at as int), 0) {
            Some(tailqs) => {
                assert(acc.deep_view() + tailqs =~= acc.deep_view());
            },
            None => {},
        }
    }
    Ok(acc)
}

/// Parses the name and query list of a ListMetaContext payload.
pub fn parse_list_meta_context(data: &[u8]) -> (r: Result<
    (Option<Vec<u8>>, Option<Vec<Vec<u8>>>),
    OptionError,
>)
    ensures
        match (r, spec_parse_list_meta_context(data@)) {
            (Ok((n, q)), Ok((sn, sq))) => n.deep_view() == sn && q.deep_view() == sq,
            (Err(a), Err(b)) => a == b,
            _ => false,
        },
{
    let dlen: usize = data.len();
    if dlen < 4 {
        return Err(OptionError::Parse);
    }
    let nl32 = be_u32_at(data, 0);
    let nl = nl32 as usize;
    if dlen - 4 < nl {
        return Err(OptionError::Parse);
    }
    let name: Option<Vec<u8>> = if nl == 0 {
        None
    } else {
        Some(vstd::slice::slice_to_vec(vstd::slice::slice_subrange(data, 4, 4 + nl)))
    };
    proof {
        match &name {
            Some(v) => {
                assert(v.deep_view() =~= data@.subrange(4, 4 + nl as int));
            },
            None => {},
        }
    }
    let pos: usize = 4 + nl;
    if dlen - pos < 4 {
        return Err(OptionError::Parse);
    }
    proof {
        assert(data@.skip(pos as int).subrange(0, 4) =~= data@.subrange(
            pos as int,
            pos as int + 4,
        ));
    }
    let n32 = be_u32_at(data, pos);
    if n32 == 0 {
        return Ok((name, None));
    }
    let n = n32 as usize;
    let qs: usize = pos + 4;
    proof {
        assert(data@.skip(pos as int).skip(4) =~= data@.skip(qs as int));
    }
    match parse_queries(data, qs, n) {
        Ok(queries) => Ok((name, Some(queries))),
        Err(e) => Err(e),
    }
}

impl NbdOption {
    /// Parses one option frame (the bytes after the 8-byte magic).
    pub fn try_from(slice: &[u8]) -> (r: Result<NbdOption, OptionError>)
        ensures
            match (r, spec_parse_option(slice@)) {
                (Ok(o), Ok(m)) => o@ == m,
                (Err(a), Err(b)) => a == b,
                _ => false,
            },
    {
        let len: usize = slice.len();
        if len < 8 {
            return Err(OptionError::TooShort);
        }
        let id = be_u32_at(slice, 0);
        let dlen32 = be_u32_at(slice, 4);
        let dlen = dlen32 as usize;
        if len - 8 < dlen {
            return Err(OptionError::RequireData(dlen - (len - 8)));
        }
        let data = vstd::slice::slice_subrange(slice, 8, 8 + dlen);
        if id == 1 {
            Ok(NbdOption::ExportName)
        } else if id == 2 {
            Ok(NbdOption::Abort)
        } else if id == 3 {
            Ok(NbdOption::List)
        } else if id == 4 {
            Ok(NbdOption::PeekExport)
        } else if id == 5 {
            Ok(NbdOption::Starttls)
        } else if id == 6 || id == 7 {
            match parse_info_go(data) {
                Ok((name, reqs)) => if id == 7 {
                    Ok(NbdOption::Go(name, reqs))
                } else {
                    Ok(NbdOption::Info(name, reqs))
                },
                Err(e) => Err(e),
            }
        } else if id == 8 {
            Ok(NbdOption::StructuredReply(dlen == 0))
        } else if id == 9 {
            match parse_list_meta_context(data) {
                Ok((name, qs)) => Ok(NbdOption::ListMetaContext(name, qs)),
                Err(e) => Err(e),
            }
        } else if id == 10 {
            Ok(NbdOption::SetMetaContext)
        } else {
            Err(OptionError::UnknownOption(id))
        }
    }
}


/// The kind of an option reply, acknowledgement or error.
#[derive(Clone, Copy, Debug, PartialEq, Eq, Structural)]
pub enum OptionReplyType {
    Ack,
    Server,
    Info,
    MetaContext,
    ErrUnsup,
    ErrPolicy,
    ErrInvalid,
    ErrPlatform,
    ErrTlsReqd,
    ErrUnknown,
    ErrShutdown,
    ErrBlockSizeReqd,
    ErrTooBig,
}

/// The 32-bit wire code of each reply kind; errors carry bit 31.
pub open spec fn spec_reply_type_code(t: OptionReplyType) -> u32 {
    match t {
        OptionReplyType::Ack => 1,
        OptionReplyType::Server => 2,
        OptionReplyType::Info => 3,
        OptionReplyType::MetaContext => 4,
        OptionReplyType::ErrUnsup => 0x8000_0001,
        OptionReplyType::ErrPolicy => 0x8000_0002,
        OptionReplyType::ErrInvalid => 0x8000_0003,
        OptionReplyType::ErrPlatform => 0x8000_0004,
        OptionReplyType::ErrTlsReqd => 0x8000_0005,
        OptionReplyType::ErrUnknown => 0x8000_0006,
        OptionReplyType::ErrShutdown => 0x8000_0007,
        OptionReplyType::ErrBlockSizeReqd => 0x8000_0008,
        OptionReplyType::ErrTooBig => 0x8000_0009,
    }
}

impl OptionReplyType {
    /// The reply kind's 32-bit wire code.
    pub fn code(&self) -> (r: u32)
        ensures
            r == spec_reply_type_code(*self),
    {
        match self {
            OptionReplyType::Ack => 1,
            OptionReplyType::Server => 2,
            OptionReplyType::Info => 3,
            OptionReplyType::MetaContext => 4,
            OptionReplyType::ErrUnsup => 0x8000_0001,
            OptionReplyType::ErrPolicy => 0x8000_0002,
            OptionReplyType::ErrInvalid => 0x8000_0003,
            OptionReplyType::ErrPlatform => 0x8000_0004,
            OptionReplyType::ErrTlsReqd => 0x8000_0005,
            OptionReplyType::ErrUnknown => 0x8000_0006,
            OptionReplyType::ErrShutdown => 0x8000_0007,
            OptionReplyType::ErrBlockSizeReqd => 0x8000_0008,
            OptionReplyType::ErrTooBig => 0x8000_0009,
        }
    }
}

/// The header of an option reply: magic, echoed option id, reply code,
/// payload length.
pub open spec fn spec_option_reply_header(option_type: u32, t: OptionReplyType, dlen: u32) -> Seq<
    u8,
> {
    be64(OPTION_REPLY_MAGIC) + be32(option_type) + be32(spec_reply_type_code(t)) + be32(dlen)
}

/// The payload length a reply's data field declares.
pub open spec fn spec_data_len(data: Option<Seq<u8>>) -> nat {
    match data {
        Some(d) => d.len(),
        None => 0,
    }
}

/// An option reply: the echoed option id, the reply kind, and a payload.
#[derive(Debug)]
pub struct Reply {
    pub header: Vec<u8>,
    pub option_type: u32,
    pub reply_type: OptionReplyType,
    pub data: Option<Vec<u8>>,
}

impl Reply {
    /// Whether the stored header matches the reply's own fields.
    pub open spec fn wf(self) -> bool {
        &&& self.data.deep_view() matches Some(d) ==> d.len() <= u32::MAX
        &&& self.header@ == spec_option_reply_header(
            self.option_type,
            self.reply_type,
            spec_data_len(self.data.deep_view()) as u32,
        )
    }

    pub fn new(option_type: u32, reply_type: OptionReplyType, data: Option<Vec<u8>>) -> (r: Reply)
        requires
            data matches Some(d) ==> d@.len() <= u32::MAX,
        ensures
            r.wf(),
            r.option_type == option_type,
            r.reply_type == reply_type,
            r.data == data,
    {
        let len: u32 = match &data {
            Some(d) => d.len() as u32,
            None => 0,
        };
        let mut header: Vec<u8> = Vec::new();
        push_be_u64(&mut header, OPTION_REPLY_MAGIC);
        push_be_u32(&mut header, option_type);
        push_be_u32(&mut header, reply_type.code());
        push_be_u32(&mut header, len);
        proof {
            assert(header@ =~= spec_option_reply_header(option_type, reply_type, len));
        }
        Reply { header, option_type, reply_type, data }
    }
}

impl Message for Reply {
    open spec fn spec_header(&self) -> Seq<u8> {
        self.header@
    }

    open spec fn spec_data(&self) -> Option<Seq<u8>> {
        self.data.deep_view()
    }

    fn get_header(&self) -> (r: &Vec<u8>) {
        &self.header
    }

    fn get_data(&self) -> (r: Option<&Vec<u8>>) {
        match &self.data {
            Some(d) => {
                proof {
                    assert(d.deep_view() =~= d@);
                }
                Some(d)
            },
            None => None,
        }
    }
}


} // verus!
