//! Everything the server sends is a message: a fixed-layout header followed
//! by an optional payload. The trait exposes both parts; `message_bytes`
//! yields the exact byte string that belongs on the wire.
use vstd::prelude::*;
use crate::wire::extend_bytes;

verus! {

/// A frame the server can send: a header and an optional payload.
pub trait Message {
    /// The header bytes this message carries.
    spec fn spec_header(&self) -> Seq<u8>;

    /// The payload bytes, if the message has any.
    spec fn spec_data(&self) -> Option<Seq<u8>>;

    fn get_header(&self) -> (r: &Vec<u8>)
        ensures
            r@ == self.spec_header(),
    ;

    fn get_data(&self) -> (r: Option<&Vec<u8>>)
        ensures
            match (r, self.spec_data()) {
                (Some(d), Some(s)) => d@ == s,
                (None, None) => true,
                _ => false,
            },
    ;
}

/// The full byte string a message stands for: header, then payload.
pub open spec fn spec_message_bytes<M: Message>(msg: &M) -> Seq<u8> {
    msg.spec_header() + match msg.spec_data() {
        Some(d) => d,
        None => Seq::empty(),
    }
}

/// Renders a message as the byte string to hand to the transport.
pub fn message_bytes<M: Message>(msg: &M) -> (r: Vec<u8>)
    ensures
        r@ == spec_message_bytes(msg),
{
    let mut out: Vec<u8> = Vec::new();
    extend_bytes(&mut out, msg.get_header().as_slice());
    match msg.get_data() {
        Some(d) => {
            extend_bytes(&mut out, d.as_slice());
        },
        None => {
            proof {
                assert(out@ =~= spec_message_bytes(msg));
            }
        },
    }
    out
}

} // verus!
