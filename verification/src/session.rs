//! Per-connection state: the fixed greeting, the option-haggling state
//! machine, and request dispatch in the transmission phase.
//!
//! The session never touches a socket. The surrounding program reads and
//! writes bytes; the session decides, frame by frame, what to answer and
//! which phase comes next. The phase only ever advances.
use vstd::prelude::*;
use crate::export::ExportStore;
use crate::options::{NbdOption, OptView, OptionError, OptionReplyType, Info, Reply as OptionReply,
    spec_parse_option};
use crate::reply::{Reply, SimpleReply};
use crate::request::{Request, RequestType};
use crate::structured::StructuredReply;
use crate::wire::{be16, be32, be64, be_val, be_u32_at, extend_bytes, push_be_u16, push_be_u32,
    push_be_u64};

verus! {

/// Magic number the greeting opens with.
pub const NBDMAGIC: u64 = 0x4e42444d41474943;

/// Magic number before the handshake flags, and in front of every option.
pub const IHAVEOPT: u64 = 0x49484156454F5054;

/// Handshake flags the server advertises: fixed newstyle, no zeroes.
pub const HS_FLAGS: u16 = 0b11;

/// Transmission flags of the export: has flags, read only.
pub const TRANSMISSION_FLAGS: u16 = 0b11;

/// Error code for a read beyond the export's end.
pub const EINVAL: u32 = 22;

/// Error code for a request kind this server does not serve.
pub const ENOTSUP: u32 = 95;

/// Where in its life a connection stands. It only moves forward.
#[derive(Clone, Copy, Debug, PartialEq, Eq, Structural)]
pub enum Phase {
    Handshake,
    Negotiating,
    Ready,
    Serving,
    Closed,
}

/// The position of a phase in the connection's life.
pub open spec fn spec_phase_index(p: Phase) -> int {
    match p {
        Phase::Handshake => 0,
        Phase::Negotiating => 1,
        Phase::Ready => 2,
        Phase::Serving => 3,
        Phase::Closed => 4,
    }
}

/// How the negotiation stands after one option is answered.
#[derive(Clone, Copy, Debug, PartialEq, Eq, Structural)]
pub enum NegotiationOutcome {
    /// Keep reading options.
    Continue,
    /// The client committed to the export; transmission comes next.
    Ready,
    /// The client abandoned the connection cleanly.
    Aborted,
}

/// What the negotiator asks of its caller for one buffered frame.
pub enum HaggleStep {
    /// The frame is incomplete: read at least this many more bytes.
    NeedBytes(usize),
    /// Send these replies, then act on the outcome.
    Respond(Vec<OptionReply>, NegotiationOutcome),
}

/// One connection's state across the three conversation phases.
pub struct Session {
    pub phase: Phase,
    pub structured_replies_enabled: bool,
    pub export_name: Vec<u8>,
    pub export_size: u64,
    pub chunk_size: u32,
}

/// The greeting the server writes before anything else: the two magic
/// numbers, then its handshake flags.
pub open spec fn spec_handshake_greeting() -> Seq<u8> {
    be64(NBDMAGIC) + be64(IHAVEOPT) + be16(HS_FLAGS)
}

/// Renders the fixed greeting.
pub fn handshake_greeting() -> (r: Vec<u8>)
    ensures
        r@ == spec_handshake_greeting(),
{
    let mut out: Vec<u8> = Vec::new();
    push_be_u64(&mut out, NBDMAGIC);
    push_be_u64(&mut out, IHAVEOPT);
    push_be_u16(&mut out, HS_FLAGS);
    proof {
        assert(out@ =~= spec_handshake_greeting());
    }
    out
}

/// The info kinds one Info or Go option is answered with: Export is
/// implicit and comes first when the client did not ask for it.
pub open spec fn spec_ordered_infos(reqs: Option<Seq<Info>>) -> Seq<Info> {
    let rs = match reqs {
        Some(rs) => rs,
        None => Seq::<Info>::empty(),
    };
    if rs.contains(Info::Export) {
        rs
    } else {
        seq![Info::Export] + rs
    }
}

/// The payload of one info reply.
pub open spec fn spec_info_payload(kind: Info, size: u64, name: Seq<u8>) -> Seq<u8> {
    match kind {
        Info::Export => be16(0) + be64(size) + be16(TRANSMISSION_FLAGS),
        Info::Name => be16(1) + name,
        Info::Description => be16(2),
        Info::BlockSize => be16(3) + be32(512) + be32(4096) + be32(4096),
    }
}

/// Whether `rep` is an info reply answering `kind` for this export,
/// echoing option id `code`.
pub open spec fn spec_is_info_reply(
    rep: OptionReply,
    code: u32,
    kind: Info,
    size: u64,
    name: Seq<u8>,
) -> bool {
    &&& rep.wf()
    &&& rep.option_type == code
    &&& rep.reply_type == OptionReplyType::Info
    &&& rep.data.deep_view() == Some(spec_info_payload(kind, size, name))
}

/// Whether `rep` is a bare acknowledgement of option id `code`.
pub open spec fn spec_is_ack(rep: OptionReply, code: u32) -> bool {
    &&& rep.wf()
    &&& rep.option_type == code
    &&& rep.reply_type == OptionReplyType::Ack
    &&& rep.data.deep_view() is None
}

/// Whether `rep` refuses option id `code` with the given error kind.
pub open spec fn spec_is_err(rep: OptionReply, code: u32, kind: OptionReplyType) -> bool {
    &&& rep.wf()
    &&& rep.option_type == code
    &&& rep.reply_type == kind
    &&& rep.data.deep_view() is None
}

/// Whether answering option `o` in state `pre` yields exactly the replies
/// `reps`, the outcome `out`, and the state `post`. This is the whole
/// negotiation table: info replies then Ack for Info and Go (Go commits),
/// Ack or ErrInvalid for StructuredReply, one Server entry then Ack for
/// List, Ack then a clean end for Abort, ErrUnsup for the rest.
pub open spec fn spec_option_response(
    pre: Session,
    post: Session,
    o: OptView,
    reps: Seq<OptionReply>,
    out: NegotiationOutcome,
) -> bool {
    &&& post.export_name == pre.export_name
    &&& post.export_size == pre.export_size
    &&& post.chunk_size == pre.chunk_size
    &&& match o {
        OptView::Info(_, reqs) => {
            let ordered = spec_ordered_infos(reqs);
            &&& out == NegotiationOutcome::Continue
            &&& post == pre
            &&& reps.len() == ordered.len() + 1
            &&& forall|i: int|
                0 <= i < ordered.len() ==> spec_is_info_reply(
                    #[trigger] reps[i],
                    6,
                    ordered[i],
                    pre.export_size,
                    pre.export_name@,
                )
            &&& spec_is_ack(reps[ordered.len() as int], 6)
        },
        OptView::Go(_, reqs) => {
            let ordered = spec_ordered_infos(reqs);
            &&& out == NegotiationOutcome::Ready
            &&& post.phase == Phase::Ready
            &&& post.structured_replies_enabled == pre.structured_replies_enabled
            &&& reps.len() == ordered.len() + 1
            &&& forall|i: int|
                0 <= i < ordered.len() ==> spec_is_info_reply(
                    #[trigger] reps[i],
                    7,
                    ordered[i],
                    pre.export_size,
                    pre.export_name@,
                )
            &&& spec_is_ack(reps[ordered.len() as int], 7)
        },
        OptView::StructuredReply(valid) => {
            &&& out == NegotiationOutcome::Continue
            &&& post.phase == pre.phase
            &&& reps.len() == 1
            &&& if valid {
                spec_is_ack(reps[0], 8) && post.structured_replies_enabled
            } else {
                spec_is_err(reps[0], 8, OptionReplyType::ErrInvalid)
                    && post.structured_replies_enabled == pre.structured_replies_enabled
            }
        },
        OptView::List => {
            &&& out == NegotiationOutcome::Continue
            &&& post == pre
            &&& reps.len() == 2
            &&& reps[0].wf()
            &&& reps[0].option_type == 3
            &&& reps[0].reply_type == OptionReplyType::Server
            &&& reps[0].data.deep_view() == Some(
                be32(pre.export_name@.len() as u32) + pre.export_name@,
            )
            &&& spec_is_ack(reps[1], 3)
        },
        OptView::Abort => {
            &&& out == NegotiationOutcome::Aborted
            &&& post.phase == Phase::Closed
            &&& post.structured_replies_enabled == pre.structured_replies_enabled
            &&& reps.len() == 1
            &&& spec_is_ack(reps[0], 2)
        },
        OptView::ExportName => spec_unsupported_response(pre, post, 1, reps, out),
        OptView::PeekExport => spec_unsupported_response(pre, post, 4, reps, out),
        OptView::Starttls => spec_unsupported_response(pre, post, 5, reps, out),
        OptView::ListMetaContext(_, _) => spec_unsupported_response(pre, post, 9, reps, out),
        OptView::SetMetaContext => spec_unsupported_response(pre, post, 10, reps, out),
    }
}

/// The answer to an option the server does not support: one ErrUnsup
/// reply, nothing changes.
pub open spec fn spec_unsupported_response(
    pre: Session,
    post: Session,
    code: u32,
    reps: Seq<OptionReply>,
    out: NegotiationOutcome,
) -> bool {
    &&& out == NegotiationOutcome::Continue
    &&& post == pre
    &&& reps.len() == 1
    &&& spec_is_err(reps[0], code, OptionReplyType::ErrUnsup)
}

/// Whether the list holds the Export info kind.
fn contains_export(v: &Vec<Info>) -> (r: bool)
    ensures
        r == v@.contains(Info::Export),
{
    let n: usize = v.len();
    let mut i: usize = 0;
    while i < n
        invariant
            i <= n,
            n == v@.len(),
            forall|j: int| 0 <= j < i ==> v@[j] != Info::Export,
        decreases n - i,
    {
        if *vstd::slice::slice_index_get(v.as_slice(), i) == Info::Export {
            return true;
        }
        i = i + 1;
    }
    false
}

/// Renders the payload of one info reply.
fn info_payload(kind: Info, size: u64, name: &Vec<u8>) -> (r: Vec<u8>)
    ensures
        r@ == spec_info_payload(kind, size, name@),
{
    let mut out: Vec<u8> = Vec::new();
    match kind {
        Info::Export => {
            push_be_u16(&mut out, 0);
            push_be_u64(&mut out, size);
            push_be_u16(&mut out, TRANSMISSION_FLAGS);
            proof {
                assert(out@ =~= spec_info_payload(kind, size, name@));
            }
        },
        Info::Name => {
            push_be_u16(&mut out, 1);
            extend_bytes(&mut out, name.as_slice());
            proof {
                assert(out@ =~= spec_info_payload(kind, size, name@));
            }
        },
        Info::Description => {
            push_be_u16(&mut out, 2);
            proof {
                assert(out@ =~= spec_info_payload(kind, size, name@));
            }
        },
        Info::BlockSize => {
            push_be_u16(&mut out, 3);
            push_be_u32(&mut out, 512);
            push_be_u32(&mut out, 4096);
            push_be_u32(&mut out, 4096);
            proof {
                assert(out@ =~= spec_info_payload(kind, size, name@));
            }
        },
    }
    out
}

/// Builds one Info reply per requested info kind, Export first when it
/// was not asked for, each echoing option id `code`.
pub fn get_info(
    code: u32,
    export_size: u64,
    export_name: &Vec<u8>,
    info_requests: &Option<Vec<Info>>,
) -> (r: Vec<OptionReply>)
    requires
        export_name@.len() + 8 <= u32::MAX,
    ensures
        ({
            let ordered = spec_ordered_infos(info_requests.deep_view());
            &&& r@.len() == ordered.len()
            &&& forall|i: int|
                0 <= i < ordered.len() ==> spec_is_info_reply(
                    #[trigger] r@[i],
                    code,
                    ordered[i],
                    export_size,
                    export_name@,
                )
        }),
{
    let mut ordered: Vec<Info> = Vec::new();
    match info_requests {
        Some(rs) => {
            if !contains_export(rs) {
                ordered.push(Info::Export);
            }
            let n: usize = rs.len();
            let ghost base = ordered@;
            let mut i: usize = 0;
            while i < n
                invariant
                    i <= n,
                    n == rs@.len(),
                    ordered@ == base + rs@.take(i as int),
                decreases n - i,
            {
                ordered.push(*vstd::slice::slice_index_get(rs.as_slice(), i));
                proof {
                    assert(rs@.take(i as int + 1) =~= rs@.take(i as int).push(rs@[i as int]));
                    assert(ordered@ =~= base + rs@.take(i as int + 1));
                }
                i = i + 1;
            }
            proof {
                assert(rs@.take(n as int) =~= rs@);
                assert(rs.deep_view() =~= rs@);
                assert(ordered@ =~= spec_ordered_infos(info_requests.deep_view()));
            }
        },
        None => {
            ordered.push(Info::Export);
            proof {
                assert(ordered@ =~= spec_ordered_infos(info_requests.deep_view()));
            }
        },
    }
    let count: usize = ordered.len();
    let mut out: Vec<OptionReply> = Vec::new();
    let mut i: usize = 0;
    while i < count
        invariant
            count == ordered@.len(),
            i <= count,
            out@.len() == i,
            export_name@.len() + 8 <= u32::MAX,
            forall|j: int|
                0 <= j < i ==> spec_is_info_reply(
                    #[trigger] out@[j],
                    code,
                    ordered@[j],
                    export_size,
                    export_name@,
                ),
        decreases count - i,
    {
        let kind = *vstd::slice::slice_index_get(ordered.as_slice(), i);
        let payload = info_payload(kind, export_size, export_name);
        proof {
            crate::wire::lemma_be_bytes_len(0, 2);
            crate::wire::lemma_be_bytes_len(1, 2);
            crate::wire::lemma_be_bytes_len(2, 2);
            crate::wire::lemma_be_bytes_len(3, 2);
            crate::wire::lemma_be_bytes_len(export_size as nat, 8);
            crate::wire::lemma_be_bytes_len(TRANSMISSION_FLAGS as nat, 2);
            crate::wire::lemma_be_bytes_len(512, 4);
            crate::wire::lemma_be_bytes_len(4096, 4);
        }
        proof {
            assert(payload.deep_view() =~= payload@);
        }
        let rep = OptionReply::new(code, OptionReplyType::Info, Some(payload));
        out.push(rep);
        i = i + 1;
    }
    proof {
        assert(ordered@ == spec_ordered_infos(info_requests.deep_view()));
    }
    out
}

impl Session {
    /// Whether the session's fixed parameters are sound: a non-empty
    /// export, a usable chunk size, a name that fits its length fields.
    pub open spec fn wf(self) -> bool {
        &&& self.export_size > 0
        &&& self.chunk_size > 0
        &&& self.chunk_size <= u32::MAX - 8
        &&& self.export_name@.len() + 8 <= u32::MAX
    }

    /// A fresh connection, before the greeting is on the wire.
    pub fn new(export_name: Vec<u8>, export_size: u64, chunk_size: u32) -> (r: Session)
        requires
            export_size > 0,
            chunk_size > 0,
            chunk_size <= u32::MAX - 8,
            export_name@.len() + 8 <= u32::MAX,
        ensures
            r.wf(),
            r.phase == Phase::Handshake,
            !r.structured_replies_enabled,
            r.export_name == export_name,
            r.export_size == export_size,
            r.chunk_size == chunk_size,
    {
        Session {
            phase: Phase::Handshake,
            structured_replies_enabled: false,
            export_name,
            export_size,
            chunk_size,
        }
    }

    /// The greeting has been written and the client's flags read: option
    /// haggling begins. The server accepts any client flags.
    pub fn greeting_done(&mut self)
        requires
            old(self).phase == Phase::Handshake,
        ensures
            *final(self) == (Session { phase: Phase::Negotiating, ..*old(self) }),
            spec_phase_index(final(self).phase) >= spec_phase_index(old(self).phase),
    {
        self.phase = Phase::Negotiating;
    }

    /// The client committed via Go: transmission begins.
    pub fn start_serving(&mut self)
        requires
            old(self).phase == Phase::Ready,
        ensures
            *final(self) == (Session { phase: Phase::Serving, ..*old(self) }),
            spec_phase_index(final(self).phase) >= spec_phase_index(old(self).phase),
    {
        self.phase = Phase::Serving;
    }

    /// The connection is over, cleanly or not.
    pub fn close(&mut self)
        ensures
            *final(self) == (Session { phase: Phase::Closed, ..*old(self) }),
            spec_phase_index(final(self).phase) >= spec_phase_index(old(self).phase),
    {
        self.phase = Phase::Closed;
    }

    /// Answers one parsed option: the replies to send, and whether to keep
    /// haggling, move on, or stop.
    pub fn handle_option(&mut self, opt: NbdOption) -> (r: (Vec<OptionReply>, NegotiationOutcome))
        requires
            old(self).wf(),
            old(self).phase == Phase::Negotiating,
        ensures
            final(self).wf(),
            spec_phase_index(final(self).phase) >= spec_phase_index(old(self).phase),
            spec_option_response(*old(self), *final(self), opt@, r.0@, r.1),
    {
        match opt {
            NbdOption::Info(_name, reqs) => {
                let mut reps = get_info(6, self.export_size, &self.export_name, &reqs);
                reps.push(OptionReply::new(6, OptionReplyType::Ack, None));
                (reps, NegotiationOutcome::Continue)
            },
            NbdOption::Go(_name, reqs) => {
                let mut reps = get_info(7, self.export_size, &self.export_name, &reqs);
                reps.push(OptionReply::new(7, OptionReplyType::Ack, None));
                self.phase = Phase::Ready;
                (reps, NegotiationOutcome::Ready)
            },
            NbdOption::StructuredReply(valid) => {
                let mut reps: Vec<OptionReply> = Vec::new();
                if valid {
                    reps.push(OptionReply::new(8, OptionReplyType::Ack, None));
                    self.structured_replies_enabled = true;
                } else {
                    reps.push(OptionReply::new(8, OptionReplyType::ErrInvalid, None));
                }
                (reps, NegotiationOutcome::Continue)
            },
            NbdOption::List => {
                let mut data: Vec<u8> = Vec::new();
                push_be_u32(&mut data, self.export_name.len() as u32);
                extend_bytes(&mut data, self.export_name.as_slice());
                proof {
                    crate::wire::lemma_be_bytes_len((self.export_name@.len() as u32) as nat, 4);
                    assert(data.deep_view() =~= data@);
                }
                let mut reps: Vec<OptionReply> = Vec::new();
                reps.push(OptionReply::new(3, OptionReplyType::Server, Some(data)));
                reps.push(OptionReply::new(3, OptionReplyType::Ack, None));
                (reps, NegotiationOutcome::Continue)
            },
            NbdOption::Abort => {
                let mut reps: Vec<OptionReply> = Vec::new();
                reps.push(OptionReply::new(2, OptionReplyType::Ack, None));
                self.phase = Phase::Closed;
                (reps, NegotiationOutcome::Aborted)
            },
            NbdOption::ExportName => {
                let mut reps: Vec<OptionReply> = Vec::new();
                reps.push(OptionReply::new(1, OptionReplyType::ErrUnsup, None));
                (reps, NegotiationOutcome::Continue)
            },
            NbdOption::PeekExport => {
                let mut reps: Vec<OptionReply> = Vec::new();
                reps.push(OptionReply::new(4, OptionReplyType::ErrUnsup, None));
                (reps, NegotiationOutcome::Continue)
            },
            NbdOption::Starttls => {
                let mut reps: Vec<OptionReply> = Vec::new();
                reps.push(OptionReply::new(5, OptionReplyType::ErrUnsup, None));
                (reps, NegotiationOutcome::Continue)
            },
            NbdOption::ListMetaContext(_name, _queries) => {
                let mut reps: Vec<OptionReply> = Vec::new();
                reps.push(OptionReply::new(9, OptionReplyType::ErrUnsup, None));
                (reps, NegotiationOutcome::Continue)
            },
            NbdOption::SetMetaContext => {
                let mut reps: Vec<OptionReply> = Vec::new();
                reps.push(OptionReply::new(10, OptionReplyType::ErrUnsup, None));
                (reps, NegotiationOutcome::Continue)
            },
        }
    }

    /// Takes the bytes buffered after one IHAVEOPT magic and either asks
    /// for the rest of the frame or answers the option in it. A malformed
    /// payload is refused with ErrInvalid, an unknown option with
    /// ErrUnsup; neither ends the negotiation.
    pub fn negotiate_step(&mut self, buf: &[u8]) -> (r: HaggleStep)
        requires
            old(self).wf(),
            old(self).phase == Phase::Negotiating,
        ensures
            final(self).wf(),
            spec_phase_index(final(self).phase) >= spec_phase_index(old(self).phase),
            match spec_parse_option(buf@) {
                Ok(m) => r matches HaggleStep::Respond(reps, out) && spec_option_response(
                    *old(self),
                    *final(self),
                    m,
                    reps@,
                    out,
                ),
                Err(OptionError::TooShort) => r matches HaggleStep::NeedBytes(n) && n == 8
                    - buf@.len() && *final(self) == *old(self),
                Err(OptionError::RequireData(k)) => r matches HaggleStep::NeedBytes(n) && n == k
                    && *final(self) == *old(self),
                Err(OptionError::UnknownOption(id)) => r matches HaggleStep::Respond(reps, out)
                    && spec_unsupported_response(*old(self), *final(self), id, reps@, out),
                Err(OptionError::Parse) => r matches HaggleStep::Respond(reps, out) && out
                    == NegotiationOutcome::Continue && *final(self) == *old(self) && reps@.len()
                    == 1 && spec_is_err(
                    reps@[0],
                    be_val(buf@.subrange(0, 4)) as u32,
                    OptionReplyType::ErrInvalid,
                ),
            },
    {
        let len: usize = buf.len();
        if len < 8 {
            return HaggleStep::NeedBytes(8 - len);
        }
        let id = be_u32_at(buf, 0);
        match NbdOption::try_from(buf) {
            Ok(opt) => {
                let (reps, out) = self.handle_option(opt);
                HaggleStep::Respond(reps, out)
            },
            Err(OptionError::RequireData(k)) => HaggleStep::NeedBytes(k),
            Err(OptionError::UnknownOption(unknown_id)) => {
                let mut reps: Vec<OptionReply> = Vec::new();
                reps.push(OptionReply::new(unknown_id, OptionReplyType::ErrUnsup, None));
                HaggleStep::Respond(reps, NegotiationOutcome::Continue)
            },
            Err(_) => {
                let mut reps: Vec<OptionReply> = Vec::new();
                reps.push(OptionReply::new(id, OptionReplyType::ErrInvalid, None));
                HaggleStep::Respond(reps, NegotiationOutcome::Continue)
            },
        }
    }

    /// Answers one request in the transmission phase: the data for a read
    /// inside the export, EINVAL beyond its end, a disconnect for Disc,
    /// and ENOTSUP for everything else.
    pub fn handle_request<E: ExportStore>(&self, request: Request, export: &E) -> (r: Reply)
        requires
            self.wf(),
            self.phase == Phase::Serving,
            export.contents().len() == self.export_size,
        ensures
            match request.type_ {
                RequestType::Read => {
                    if request.offset + request.len <= self.export_size {
                        if self.structured_replies_enabled {
                            &&& r matches Reply::Structured(p)
                            &&& p.wf()
                            &&& p.handle == request.handle
                            &&& p.offset == request.offset
                            &&& p.len == request.len
                            &&& p.chunk_size == self.chunk_size
                            &&& p.count == 0
                            &&& p.emit_error is None
                        } else {
                            &&& r matches Reply::Simple(s)
                            &&& s.wf()
                            &&& s.handle == request.handle
                            &&& ((s.error == 0 && s.data.deep_view() == Some(
                                export.contents().subrange(
                                    request.offset as int,
                                    request.offset + request.len,
                                ),
                            )) || (s.error == crate::structured::EIO && s.data is None))
                        }
                    } else {
                        if self.structured_replies_enabled {
                            &&& r matches Reply::Structured(p)
                            &&& p.wf()
                            &&& p.handle == request.handle
                            &&& p.count == 0
                            &&& p.emit_error == Some(EINVAL)
                        } else {
                            &&& r matches Reply::Simple(s)
                            &&& s.wf()
                            &&& s.handle == request.handle
                            &&& s.error == EINVAL
                            &&& s.data is None
                        }
                    }
                },
                RequestType::Disc => r is Disconnect,
                _ => {
                    &&& r matches Reply::Simple(s)
                    &&& s.wf()
                    &&& s.handle == request.handle
                    &&& s.error == ENOTSUP
                    &&& s.data is None
                },
            },
    {
        match request.type_ {
            RequestType::Read => {
                let in_range = request.offset <= self.export_size && request.len as u64
                    <= self.export_size - request.offset;
                if self.structured_replies_enabled {
                    if in_range {
                        Reply::Structured(
                            StructuredReply::read_from_offset(
                                request.handle,
                                request.offset,
                                request.len,
                                self.chunk_size,
                            ),
                        )
                    } else {
                        Reply::Structured(StructuredReply::error_reply(request.handle, EINVAL))
                    }
                } else {
                    if in_range {
                        match export.read_at(request.offset, request.len) {
                            Some(bytes) => Reply::Simple(
                                SimpleReply::new(0, request.handle, Some(bytes)),
                            ),
                            None => Reply::Simple(
                                SimpleReply::new(crate::structured::EIO, request.handle, None),
                            ),
                        }
                    } else {
                        Reply::Simple(SimpleReply::new(EINVAL, request.handle, None))
                    }
                }
            },
            RequestType::Disc => Reply::Disconnect,
            _ => Reply::Simple(SimpleReply::new(ENOTSUP, request.handle, None)),
        }
    }
}

} // verus!
