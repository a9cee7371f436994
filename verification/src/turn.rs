//! TURN Allocate requests and responses (RFC 5766), and the counts that a
//! TURN benchmark worker keeps.

use crate::stun::{
    lemma_header_roundtrip, lemma_top_bits_mask, stun_response_result, read_transaction_id, same_transaction_id, top_bits_clear,
};
use crate::wire::{
    be16, get_u16, get_u32, put_bytes, put_u16, put_u32, read_be16, read_be32, stun_header,
};
pub use crate::wire::{STUN_HEADER_SIZE, STUN_MAGIC_COOKIE};
use vstd::prelude::*;
use vstd::utf8::encode_utf8;

pub use crate::transaction::random_transaction_id;

verus! {

/// Message type of an Allocate request.
pub const TURN_ALLOCATE_REQUEST: u16 = 0x0003;

/// Message type of an Allocate success response.
pub const TURN_ALLOCATE_RESPONSE: u16 = 0x0103;

/// Message type of an Allocate error response.
pub const TURN_ALLOCATE_ERROR: u16 = 0x0113;

/// Attribute type REQUESTED-TRANSPORT.
pub const ATTR_REQUESTED_TRANSPORT: u16 = 0x0019;

/// Attribute type USERNAME.
pub const ATTR_USERNAME: u16 = 0x0006;

/// IANA protocol number of UDP.
pub const TRANSPORT_UDP: u8 = 17;

/// `n` rounded up to a multiple of four, the alignment of STUN attributes.
pub open spec fn pad4(n: nat) -> nat {
    ((n + 3) / 4 * 4) as nat
}

/// `n` zero bytes.
pub open spec fn zeros(n: nat) -> Seq<u8> {
    Seq::new(n, |i: int| 0u8)
}

/// The REQUESTED-TRANSPORT attribute asking for UDP: type, value length 4,
/// the protocol number and three reserved zero bytes.
pub open spec fn requested_transport_attr() -> Seq<u8> {
    be16(ATTR_REQUESTED_TRANSPORT) + be16(4) + seq![TRANSPORT_UDP, 0u8, 0u8, 0u8]
}

/// The USERNAME attribute: type, the unpadded length of the name, the name
/// and zero bytes up to the next multiple of four.
pub open spec fn username_attr(u: Seq<u8>) -> Seq<u8> {
    be16(ATTR_USERNAME) + be16(u.len() as u16) + u + zeros((pad4(u.len()) - u.len()) as nat)
}

/// The attributes of an Allocate request.
pub open spec fn allocate_attrs(username: Option<Seq<u8>>) -> Seq<u8> {
    match username {
        Some(u) => requested_transport_attr() + username_attr(u),
        None => requested_transport_attr(),
    }
}

/// An Allocate request: the header, whose length field is the length of
/// the attributes, followed by the attributes.
pub open spec fn allocate_request(txn: Seq<u8>, username: Option<Seq<u8>>) -> Seq<u8> {
    stun_header(TURN_ALLOCATE_REQUEST, allocate_attrs(username).len() as u16, txn)
        + allocate_attrs(username)
}

/// The UTF-8 bytes of the username of the credentials, if any.
pub open spec fn username_bytes(credentials: Option<&(String, String)>) -> Option<Seq<u8>> {
    match credentials {
        Some(c) => Some(encode_utf8(c.0@)),
        None => None,
    }
}

/// The attributes' length fits the 16-bit length field of the header.
pub open spec fn username_fits(credentials: Option<&(String, String)>) -> bool {
    match credentials {
        Some(c) => pad4(encode_utf8(c.0@).len()) + 12 <= u16::MAX,
        None => true,
    }
}

proof fn lemma_round_up4(x: usize)
    requires
        x + 3 <= usize::MAX,
    ensures
        ((x + 3) as usize) & !3usize == pad4(x as nat),
{
    let y = (x + 3) as usize;
    assert(y & !3usize == y - y % 4) by (bit_vector);
}

/// A zero-filled buffer of `n` bytes.
fn zeroed(n: usize) -> (v: Vec<u8>)
    ensures
        v@ == zeros(n as nat),
{
    let mut v: Vec<u8> = Vec::new();
    let mut k: usize = 0;
    while k < n
        invariant
            k <= n,
            v@ == zeros(k as nat),
        decreases n - k,
    {
        v.push(0u8);
        k = k + 1;
        assert(v@ =~= zeros(k as nat));
    }
    v
}

/// Builds a TURN Allocate request: the STUN header, a REQUESTED-TRANSPORT
/// attribute asking for UDP and, when credentials are given, a USERNAME
/// attribute padded to a multiple of four bytes.
pub fn build_allocate_request(
    transaction_id: &[u8; 12],
    credentials: Option<&(String, String)>,
) -> (pkt: Vec<u8>)
    requires
        username_fits(credentials),
    ensures
        pkt@ == allocate_request(transaction_id@, username_bytes(credentials)),
        pkt@.subrange(20, 28) == seq![0x00u8, 0x19u8, 0x00u8, 0x04u8, 17u8, 0u8, 0u8, 0u8],
        pkt@[2] * 256 + pkt@[3] == pkt@.len() - 20,
        credentials is None ==> pkt@.len() == 28,
        credentials matches Some(c) ==> {
            let u = encode_utf8(c.0@);
            &&& pkt@.subrange(32, 32 + u.len() as int) == u
            &&& pkt@[30] * 256 + pkt@[31] == u.len()
        },
{
    // REQUESTED-TRANSPORT is 4 bytes of value and a 4-byte TLV header.
    let mut attr_len: u16 = 8;
    match credentials {
        Some(c) => {
            let raw_len = c.0.as_str().len();
            proof {
                lemma_round_up4(raw_len);
            }
            // STUN attributes are padded to 4-byte boundaries.
            let padded = (raw_len + 3) & !3usize;
            attr_len = attr_len + 4 + padded as u16;
        },
        None => {},
    }
    let total_len = 20 + attr_len as usize;
    let mut buf = zeroed(total_len);
    let ghost attrs = allocate_attrs(username_bytes(credentials));
    assert(attrs.len() == attr_len);

    put_u16(buf.as_mut_slice(), 0, TURN_ALLOCATE_REQUEST);
    put_u16(buf.as_mut_slice(), 2, attr_len);
    put_u32(buf.as_mut_slice(), 4, STUN_MAGIC_COOKIE);
    put_bytes(buf.as_mut_slice(), 8, transaction_id);

    let offset: usize = 20;
    put_u16(buf.as_mut_slice(), offset, ATTR_REQUESTED_TRANSPORT);
    put_u16(buf.as_mut_slice(), offset + 2, 4);
    buf.set(offset + 4, TRANSPORT_UDP);
    let ghost after_transport = buf@;

    match credentials {
        Some(c) => {
            let name = c.0.as_str().as_bytes();
            let offset: usize = 28;
            put_u16(buf.as_mut_slice(), offset, ATTR_USERNAME);
            put_u16(buf.as_mut_slice(), offset + 2, name.len() as u16);
            // The padding bytes are already zero.
            put_bytes(buf.as_mut_slice(), offset + 4, name);
        },
        None => {},
    }
    proof {
        let expect = allocate_request(transaction_id@, username_bytes(credentials));
        assert(expect.len() == buf@.len());
        assert forall|i: int| 0 <= i < buf@.len() implies buf@[i] == expect[i] by {
            if i < 20 {
                assert(expect[i] == stun_header(TURN_ALLOCATE_REQUEST, attr_len, transaction_id@)[i]);
                if i < 2 {
                    assert(buf@[i] == buf@.subrange(0, 2)[i]);
                } else if i < 4 {
                    assert(buf@[i] == buf@.subrange(2, 4)[i - 2]);
                } else if i < 8 {
                    assert(buf@[i] == buf@.subrange(4, 8)[i - 4]);
                } else {
                    assert(buf@[i] == buf@.subrange(8, 20)[i - 8]);
                }
            } else if i < 28 {
                assert(expect[i] == requested_transport_attr()[i - 20]);
                if i < 22 {
                    assert(after_transport[i] == after_transport.subrange(20, 22)[i - 20]);
                } else if i < 24 {
                    assert(after_transport[i] == after_transport.subrange(22, 24)[i - 22]);
                }
            } else {
                let u = encode_utf8(credentials.unwrap().0@);
                assert(expect[i] == username_attr(u)[i - 28]);
                if i < 30 {
                    assert(buf@[i] == buf@.subrange(28, 30)[i - 28]);
                } else if i < 32 {
                    assert(buf@[i] == buf@.subrange(30, 32)[i - 30]);
                } else if i < 32 + u.len() {
                    assert(buf@[i] == buf@.subrange(32, 32 + u.len() as int)[i - 32]);
                }
            }
        }
        assert(buf@ =~= expect);
        lemma_allocate_request_layout(transaction_id@, username_bytes(credentials));
    }
    buf
}

/// What reading a TURN reply header from `b` gives: the message type and
/// the transaction ID, or the reason the bytes are refused. Unlike
/// `stun_response_result`, the declared length is not checked.
pub open spec fn turn_response_result(b: Seq<u8>) -> Result<(u16, Seq<u8>), Seq<char>> {
    if b.len() < STUN_HEADER_SIZE {
        Err("Response too short"@)
    } else if read_be32(b, 4) != STUN_MAGIC_COOKIE {
        Err("Invalid magic cookie"@)
    } else if !top_bits_clear(b[0]) {
        Err("Invalid STUN message: top two bits not zero"@)
    } else {
        Ok((read_be16(b, 0), b.subrange(8, 20)))
    }
}

/// The view of a TURN parse result.
pub open spec fn turn_result_view(r: Result<(u16, [u8; 12]), &'static str>) -> Result<
    (u16, Seq<u8>),
    Seq<char>,
> {
    match r {
        Ok((t, id)) => Ok((t, id@)),
        Err(e) => Err(e@),
    }
}

/// Parses a TURN reply header and returns its message type and
/// transaction ID.
pub fn parse_turn_response(buf: &[u8]) -> (r: Result<(u16, [u8; 12]), &'static str>)
    ensures
        turn_result_view(r) == turn_response_result(buf@),
{
    if buf.len() < 20 {
        return Err("Response too short");
    }
    let msg_type = get_u16(buf, 0);
    let cookie = get_u32(buf, 4);

    if cookie != STUN_MAGIC_COOKIE {
        return Err("Invalid magic cookie");
    }
    proof {
        lemma_top_bits_mask(buf@[0]);
    }
    if buf[0] & 0xC0 != 0 {
        return Err("Invalid STUN message: top two bits not zero");
    }
    let txn_id = read_transaction_id(buf, 8);
    Ok((msg_type, txn_id))
}

/// Every Allocate request is a well-formed STUN message: its declared
/// length is the number of bytes after the header, a multiple of four, and
/// it reads back, as a STUN or a TURN message, as an Allocate request with
/// the transaction ID it was built with.
pub proof fn lemma_allocate_request_roundtrip(txn: Seq<u8>, username: Option<Seq<u8>>)
    requires
        txn.len() == 12,
        username matches Some(u) ==> pad4(u.len()) + 12 <= u16::MAX,
    ensures
        ({
            let pkt = allocate_request(txn, username);
            let body_len = allocate_attrs(username).len();
            &&& pkt.len() == STUN_HEADER_SIZE + body_len
            &&& body_len % 4 == 0
            &&& stun_response_result(pkt) == Ok::<(u16, u16, Seq<u8>), Seq<char>>(
                (TURN_ALLOCATE_REQUEST, body_len as u16, txn),
            )
            &&& turn_response_result(pkt) == Ok::<(u16, Seq<u8>), Seq<char>>(
                (TURN_ALLOCATE_REQUEST, txn),
            )
        }),
{
    let attrs = allocate_attrs(username);
    let pkt = allocate_request(txn, username);
    match username {
        Some(u) => {
            assert(pad4(u.len()) >= u.len());
            assert(pad4(u.len()) % 4 == 0);
        },
        None => {},
    }
    assert(attrs.len() <= u16::MAX);
    lemma_header_roundtrip(TURN_ALLOCATE_REQUEST, attrs.len() as u16, txn, attrs);
    lemma_stun_accepted_turn_accepted(pkt);
}

/// The byte layout of every Allocate request: the header (type 0x0003,
/// magic cookie, transaction ID, and a length field counting the bytes
/// after the header), then always the REQUESTED-TRANSPORT attribute asking
/// for UDP, then, only when a username is given, the USERNAME attribute with
/// the unpadded length, the name's bytes and zero padding to a multiple of
/// four.
pub proof fn lemma_allocate_request_layout(txn: Seq<u8>, username: Option<Seq<u8>>)
    requires
        txn.len() == 12,
        username matches Some(u) ==> pad4(u.len()) + 12 <= u16::MAX,
    ensures
        ({
            let pkt = allocate_request(txn, username);
            &&& pkt.len() >= 28
            &&& pkt.len() % 4 == 0
            &&& pkt.subrange(0, 2) == seq![0x00u8, 0x03u8]
            &&& pkt[2] * 256 + pkt[3] == pkt.len() - 20
            &&& pkt.subrange(4, 8) == seq![0x21u8, 0x12u8, 0xA4u8, 0x42u8]
            &&& pkt.subrange(8, 20) == txn
            &&& pkt.subrange(20, 28) == seq![0x00u8, 0x19u8, 0x00u8, 0x04u8, 17u8, 0u8, 0u8, 0u8]
            &&& username is None ==> pkt.len() == 28
            &&& username matches Some(u) ==> {
                &&& 32 + u.len() <= pkt.len() < 36 + u.len()
                &&& pkt.subrange(28, 30) == seq![0x00u8, 0x06u8]
                &&& pkt[30] * 256 + pkt[31] == u.len()
                &&& pkt.subrange(32, 32 + u.len() as int) == u
                &&& forall|i: int| 32 + u.len() <= i < pkt.len() ==> pkt[i] == 0u8
            }
        }),
{
    let attrs = allocate_attrs(username);
    let pkt = allocate_request(txn, username);
    let hdr = stun_header(TURN_ALLOCATE_REQUEST, attrs.len() as u16, txn);
    match username {
        Some(u) => {
            assert(pad4(u.len()) >= u.len());
            assert(pad4(u.len()) % 4 == 0);
            assert(pad4(u.len()) < u.len() + 4);
        },
        None => {},
    }
    assert(attrs.len() <= u16::MAX);
    assert(hdr.len() == 20);
    assert(pkt.subrange(0, 2) =~= seq![0x00u8, 0x03u8]);
    assert(pkt.subrange(4, 8) =~= seq![0x21u8, 0x12u8, 0xA4u8, 0x42u8]);
    assert(pkt.subrange(8, 20) =~= txn);
    assert(pkt[2] == hdr[2] && pkt[3] == hdr[3]);
    let n = attrs.len() as u16;
    assert(hdr[2] == (n / 256) as u8 && hdr[3] == (n % 256) as u8);
    assert(pkt.subrange(20, 28) =~= seq![0x00u8, 0x19u8, 0x00u8, 0x04u8, 17u8, 0u8, 0u8, 0u8]) by {
        assert forall|i: int| 0 <= i < 8 implies pkt.subrange(20, 28)[i] == requested_transport_attr()[i] by {
            assert(pkt[20 + i] == attrs[i]);
        }
    }
    match username {
        Some(u) => {
            let ua = username_attr(u);
            assert(forall|i: int| 0 <= i < ua.len() ==> pkt[28 + i] == #[trigger] ua[i]);
            assert(pkt.subrange(28, 30) =~= seq![0x00u8, 0x06u8]) by {
                assert(pkt[28] == ua[0] && pkt[29] == ua[1]);
            }
            assert(pkt[30] == ua[2] && pkt[31] == ua[3]);
            let m = u.len() as u16;
            assert(ua[2] == (m / 256) as u8 && ua[3] == (m % 256) as u8);
            assert(pkt.subrange(32, 32 + u.len() as int) =~= u) by {
                assert forall|i: int| 0 <= i < u.len() implies pkt.subrange(32, 32 + u.len() as int)[i]
                    == u[i] by {
                    assert(pkt[32 + i] == ua[4 + i]);
                }
            }
            assert forall|i: int| 32 + u.len() <= i < pkt.len() implies pkt[i] == 0u8 by {
                assert(pkt[i] == ua[i - 28]);
            }
        },
        None => {},
    }
}

/// A reply that passes the STUN header checks passes the TURN ones, with
/// the same message type and transaction ID.
pub proof fn lemma_stun_accepted_turn_accepted(b: Seq<u8>)
    ensures
        stun_response_result(b) matches Ok((t, _, id)) ==> turn_response_result(b) == Ok::<
            (u16, Seq<u8>),
            Seq<char>,
        >((t, id)),
{
}

/// What a parsed TURN reply adds to the counts of successful allocations
/// and of error responses, for a request with transaction ID `txn`.
pub open spec fn turn_reply_effect(parsed: Result<(u16, Seq<u8>), Seq<char>>, txn: Seq<u8>) -> (
    int,
    int,
) {
    match parsed {
        Ok((t, id)) => if id == txn {
            if t == TURN_ALLOCATE_RESPONSE {
                (1, 0)
            } else if t == TURN_ALLOCATE_ERROR {
                (0, 1)
            } else {
                (0, 0)
            }
        } else {
            (0, 0)
        },
        Err(_) => (0, 1),
    }
}

/// The counts of a TURN benchmark worker: Allocate requests sent (whether
/// or not the send succeeded), success responses, and error responses or
/// unreadable replies.
pub struct TurnTally {
    sent: u64,
    success: u64,
    errors: u64,
}

impl TurnTally {
    /// No reply is counted without its request.
    #[verifier::type_invariant]
    spec fn answered_within_sent(self) -> bool {
        self.success + self.errors <= self.sent
    }

    pub closed spec fn sent_count(self) -> u64 {
        self.sent
    }

    pub closed spec fn success_count(self) -> u64 {
        self.success
    }

    pub closed spec fn error_count(self) -> u64 {
        self.errors
    }

    /// A tally with nothing counted.
    pub fn new() -> (t: Self)
        ensures
            t.sent_count() == 0,
            t.success_count() == 0,
            t.error_count() == 0,
    {
        TurnTally { sent: 0, success: 0, errors: 0 }
    }

    /// Requests counted as sent.
    pub fn sent(&self) -> (r: u64)
        ensures
            r == self.sent_count(),
    {
        self.sent
    }

    /// Allocate success responses counted.
    pub fn success(&self) -> (r: u64)
        ensures
            r == self.success_count(),
    {
        self.success
    }

    /// Error responses and unreadable replies counted.
    pub fn errors(&self) -> (r: u64)
        ensures
            r == self.error_count(),
    {
        self.errors
    }

    /// Counts one request with transaction ID `txn`, and the reply that
    /// came back, if any. A reply with another transaction ID, or of
    /// another message type, is counted as neither success nor error; an
    /// unreadable reply is an error.
    pub fn record(&mut self, reply: Option<&[u8]>, txn: &[u8; 12])
        requires
            old(self).sent_count() < u64::MAX,
        ensures
            final(self).sent_count() == old(self).sent_count() + 1,
            ({
                let (ds, de) = match reply {
                    Some(b) => turn_reply_effect(turn_response_result(b@), txn@),
                    None => (0int, 0int),
                };
                &&& final(self).success_count() == old(self).success_count() + ds
                &&& final(self).error_count() == old(self).error_count() + de
            }),
    {
        proof {
            use_type_invariant(&*self);
        }
        match reply {
            None => {
                *self = TurnTally { sent: self.sent + 1, success: self.success, errors: self.errors };
            },
            Some(b) => {
                let parsed = parse_turn_response(b);
                match parsed {
                    Ok((msg_type, resp_txn_id)) => {
                        if same_transaction_id(&resp_txn_id, txn) {
                            if msg_type == TURN_ALLOCATE_RESPONSE {
                                *self = TurnTally {
                                    sent: self.sent + 1,
                                    success: self.success + 1,
                                    errors: self.errors,
                                };
                            } else if msg_type == TURN_ALLOCATE_ERROR {
                                *self = TurnTally {
                                    sent: self.sent + 1,
                                    success: self.success,
                                    errors: self.errors + 1,
                                };
                            } else {
                                *self = TurnTally {
                                    sent: self.sent + 1,
                                    success: self.success,
                                    errors: self.errors,
                                };
                            }
                        } else {
                            *self = TurnTally {
                                sent: self.sent + 1,
                                success: self.success,
                                errors: self.errors,
                            };
                        }
                    },
                    Err(_) => {
                        *self = TurnTally {
                            sent: self.sent + 1,
                            success: self.success,
                            errors: self.errors + 1,
                        };
                    },
                }
            },
        }
    }

    /// Replies counted, success or error.
    pub fn responded(&self) -> (r: u64)
        ensures
            r == self.success_count() + self.error_count(),
            r <= self.sent_count(),
    {
        proof {
            use_type_invariant(self);
        }
        self.success + self.errors
    }

    /// Requests without a counted reply: those sent less those answered,
    /// never below zero.
    pub fn timeouts(&self) -> (r: u64)
        ensures
            r == self.sent_count() - self.success_count() - self.error_count(),
            r + self.success_count() + self.error_count() == self.sent_count(),
    {
        proof {
            use_type_invariant(self);
        }
        self.sent.saturating_sub(self.success + self.errors)
    }

    /// Adds the counts of another worker.
    pub fn merge(&mut self, other: &TurnTally)
        requires
            old(self).sent_count() + other.sent_count() <= u64::MAX,
        ensures
            final(self).sent_count() == old(self).sent_count() + other.sent_count(),
            final(self).success_count() == old(self).success_count() + other.success_count(),
            final(self).error_count() == old(self).error_count() + other.error_count(),
    {
        proof {
            use_type_invariant(&*self);
            use_type_invariant(other);
        }
        *self = TurnTally {
            sent: self.sent + other.sent,
            success: self.success + other.success,
            errors: self.errors + other.errors,
        };
    }

    /// The counts a TURN report shows: successful allocations, error
    /// responses and timeouts. No allocation is reported as successful, as
    /// one needs the long-term credential handshake, which is not made;
    /// every counted reply is reported as an error response.
    pub fn report_counts(&self) -> (r: (u64, u64, u64))
        ensures
            r.0 == 0,
            r.1 == self.success_count() + self.error_count(),
            r.2 == self.sent_count() - self.success_count() - self.error_count(),
            r.0 + r.1 + r.2 == self.sent_count(),
    {
        (0, self.responded(), self.timeouts())
    }
}

} // verus!
