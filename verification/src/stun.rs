//! STUN Binding requests and responses (RFC 5389), and the counts that a
//! STUN benchmark worker keeps.

use crate::wire::{
    be16, be32, lemma_be16_roundtrip, lemma_be32_roundtrip, get_u16, get_u32, put_bytes, put_u16, put_u32, read_be16, read_be32,
    stun_header,
};
pub use crate::wire::{STUN_HEADER_SIZE, STUN_MAGIC_COOKIE};
use vstd::prelude::*;

pub use crate::transaction::random_transaction_id;

verus! {

/// Message type of a Binding Request.
pub const STUN_BINDING_REQUEST: u16 = 0x0001;

/// Message type of a Binding success Response.
pub const STUN_BINDING_RESPONSE: u16 = 0x0101;

/// The first byte of a STUN message has its two top bits clear.
pub open spec fn top_bits_clear(first: u8) -> bool {
    first < 0x40
}

pub proof fn lemma_top_bits_mask(b: u8)
    ensures
        (b & 0xC0 == 0) == top_bits_clear(b),
{
    assert((b & 0xC0 == 0) == (b < 0x40)) by (bit_vector);
}

/// What reading a STUN message header from `b` gives: the message type,
/// the declared message length and the transaction ID, or the reason the
/// bytes are refused, in the order in which the checks are made.
pub open spec fn stun_response_result(b: Seq<u8>) -> Result<(u16, u16, Seq<u8>), Seq<char>> {
    if b.len() < STUN_HEADER_SIZE {
        Err("Response too short for STUN header"@)
    } else if read_be32(b, 4) != STUN_MAGIC_COOKIE {
        Err("Invalid magic cookie"@)
    } else if !top_bits_clear(b[0]) {
        Err("Invalid STUN message: top two bits not zero"@)
    } else if b.len() < STUN_HEADER_SIZE + read_be16(b, 2) {
        Err("Buffer shorter than declared message length"@)
    } else {
        Ok((read_be16(b, 0), read_be16(b, 2), b.subrange(8, 20)))
    }
}

/// The view of a parse result: the transaction ID and the message as
/// sequences.
pub open spec fn stun_result_view(r: Result<(u16, u16, [u8; 12]), &'static str>) -> Result<
    (u16, u16, Seq<u8>),
    Seq<char>,
> {
    match r {
        Ok((t, l, id)) => Ok((t, l, id@)),
        Err(e) => Err(e@),
    }
}

/// Copies the 12 bytes that start at `at` into a transaction ID.
pub fn read_transaction_id(buf: &[u8], at: usize) -> (id: [u8; 12])
    requires
        at + 12 <= buf@.len(),
    ensures
        id@ == buf@.subrange(at as int, at + 12),
{
    let mut id = [0u8; 12];
    let len = buf.len();
    let mut k: usize = 0;
    while k < 12
        invariant
            len == buf@.len(),
            at + 12 <= buf@.len(),
            k <= 12,
            id@.len() == 12,
            forall|j: int| 0 <= j < k ==> #[trigger] id@[j] == buf@[at + j],
        decreases 12 - k,
    {
        id[k] = buf[at + k];
        k = k + 1;
    }
    assert(id@ =~= buf@.subrange(at as int, at + 12));
    id
}

/// Constructs an RFC 5389 Binding Request with no attributes: type
/// 0x0001, length 0, the magic cookie and the transaction ID.
pub fn build_binding_request(transaction_id: &[u8; 12]) -> (pkt: [u8; 20])
    ensures
        pkt@ == stun_header(STUN_BINDING_REQUEST, 0, transaction_id@),
{
    let mut buf = [0u8; 20];
    put_u16(&mut buf, 0, STUN_BINDING_REQUEST);
    put_u16(&mut buf, 2, 0);
    put_u32(&mut buf, 4, STUN_MAGIC_COOKIE);
    put_bytes(&mut buf, 8, transaction_id);
    assert(buf@ =~= stun_header(STUN_BINDING_REQUEST, 0, transaction_id@)) by {
        assert(buf@.subrange(0, 2) == be16(STUN_BINDING_REQUEST));
        assert(buf@.subrange(2, 4) == be16(0));
        assert(buf@.subrange(4, 8) == be32(STUN_MAGIC_COOKIE));
        assert(buf@.subrange(8, 20) == transaction_id@);
        assert forall|i: int| 0 <= i < 20 implies buf@[i] == stun_header(
            STUN_BINDING_REQUEST,
            0,
            transaction_id@,
        )[i] by {
            if i < 2 {
                assert(buf@[i] == buf@.subrange(0, 2)[i]);
            } else if i < 4 {
                assert(buf@[i] == buf@.subrange(2, 4)[i - 2]);
            } else if i < 8 {
                assert(buf@[i] == buf@.subrange(4, 8)[i - 4]);
            } else {
                assert(buf@[i] == buf@.subrange(8, 20)[i - 8]);
            }
        }
    }
    buf
}

/// Parses and validates a STUN message header. Returns the message type,
/// the declared message length and the transaction ID, or a description of
/// the first check that failed.
pub fn parse_stun_response(buf: &[u8]) -> (r: Result<(u16, u16, [u8; 12]), &'static str>)
    ensures
        stun_result_view(r) == stun_response_result(buf@),
{
    if buf.len() < STUN_HEADER_SIZE {
        return Err("Response too short for STUN header");
    }
    let msg_type = get_u16(buf, 0);
    let msg_len = get_u16(buf, 2);
    let cookie = get_u32(buf, 4);

    if cookie != STUN_MAGIC_COOKIE {
        return Err("Invalid magic cookie");
    }
    proof {
        lemma_top_bits_mask(buf@[0]);
    }
    if buf[0] & 0xC0 != 0 {
        return Err("Invalid STUN message: top two bits not zero");
    }
    let txn_id = read_transaction_id(buf, 8);

    // The declared length counts the bytes after the header.
    let total_expected = STUN_HEADER_SIZE + msg_len as usize;
    if buf.len() < total_expected {
        return Err("Buffer shorter than declared message length");
    }
    Ok((msg_type, msg_len, txn_id))
}

/// A header whose message type has the two top bits clear, followed by at
/// least as many bytes as its length field declares, reads back as the
/// type, length and transaction ID it was written with.
pub proof fn lemma_header_roundtrip(msg_type: u16, msg_len: u16, txn: Seq<u8>, body: Seq<u8>)
    requires
        msg_type < 0x4000,
        txn.len() == 12,
        body.len() >= msg_len,
    ensures
        stun_response_result(stun_header(msg_type, msg_len, txn) + body) == Ok::<
            (u16, u16, Seq<u8>),
            Seq<char>,
        >((msg_type, msg_len, txn)),
{
    let b = stun_header(msg_type, msg_len, txn) + body;
    lemma_be16_roundtrip(msg_type);
    lemma_be16_roundtrip(msg_len);
    lemma_be32_roundtrip(STUN_MAGIC_COOKIE);
    assert(read_be16(b, 0) == read_be16(be16(msg_type), 0));
    assert(read_be16(b, 2) == read_be16(be16(msg_len), 0));
    assert(read_be32(b, 4) == read_be32(be32(STUN_MAGIC_COOKIE), 0));
    assert(b.subrange(8, 20) =~= txn);
    assert(b[0] == (msg_type / 256) as u8);
}

/// A Binding Request reads back as a Binding Request with length 0 and
/// the transaction ID it was built with.
pub proof fn lemma_binding_request_roundtrip(txn: Seq<u8>)
    requires
        txn.len() == 12,
    ensures
        stun_response_result(stun_header(STUN_BINDING_REQUEST, 0, txn)) == Ok::<
            (u16, u16, Seq<u8>),
            Seq<char>,
        >((STUN_BINDING_REQUEST, 0u16, txn)),
{
    lemma_header_roundtrip(STUN_BINDING_REQUEST, 0, txn, Seq::empty());
    assert(stun_header(STUN_BINDING_REQUEST, 0, txn) + Seq::empty() =~= stun_header(
        STUN_BINDING_REQUEST,
        0,
        txn,
    ));
}

/// Two transaction IDs are the same bytes.
pub fn same_transaction_id(a: &[u8; 12], b: &[u8; 12]) -> (r: bool)
    ensures
        r == (a@ == b@),
{
    let mut k: usize = 0;
    while k < 12
        invariant
            k <= 12,
            a@.len() == 12,
            b@.len() == 12,
            forall|j: int| 0 <= j < k ==> #[trigger] a@[j] == b@[j],
        decreases 12 - k,
    {
        if a[k] != b[k] {
            return false;
        }
        k = k + 1;
    }
    assert(a@ =~= b@);
    true
}

/// Whether a parsed reply is a Binding success Response. Its transaction
/// ID is not compared: for packet loss, a response with another ID is still
/// a response received.
pub open spec fn is_binding_response(parsed: Result<(u16, u16, [u8; 12]), &'static str>) -> bool {
    match parsed {
        Ok((t, _, _)) => t == STUN_BINDING_RESPONSE,
        Err(_) => false,
    }
}

/// A reply counts as received exactly when it parsed and its message type
/// is Binding success Response (0x0101): neither its declared message
/// length nor its transaction ID plays a part.
pub proof fn lemma_binding_response_counted(t: u16, l1: u16, l2: u16, id1: [u8; 12], id2: [u8; 12])
    ensures
        is_binding_response(Ok((t, l1, id1))) == is_binding_response(Ok((t, l2, id2))),
        is_binding_response(Ok((t, l1, id1))) == (t == 0x0101u16),
        forall|e: &'static str| !is_binding_response(Err(e)),
{
}

/// The counts of a STUN benchmark worker: Binding Requests sent (whether
/// or not the send succeeded) and Binding success Responses received.
pub struct StunTally {
    sent: u64,
    received: u64,
}

impl StunTally {
    /// No response is counted without its request.
    #[verifier::type_invariant]
    spec fn received_within_sent(self) -> bool {
        self.received <= self.sent
    }

    pub closed spec fn sent_count(self) -> u64 {
        self.sent
    }

    pub closed spec fn received_count(self) -> u64 {
        self.received
    }

    /// A tally with nothing counted.
    pub fn new() -> (t: Self)
        ensures
            t.sent_count() == 0,
            t.received_count() == 0,
    {
        StunTally { sent: 0, received: 0 }
    }

    /// Requests counted as sent.
    pub fn sent(&self) -> (r: u64)
        ensures
            r == self.sent_count(),
    {
        self.sent
    }

    /// Binding success responses counted; never more than the requests.
    pub fn received(&self) -> (r: u64)
        ensures
            r == self.received_count(),
            r <= self.sent_count(),
    {
        proof {
            use_type_invariant(self);
        }
        self.received
    }

    /// Counts one request and what came back: `None` when the send failed
    /// or no reply arrived, else the result of parsing the reply. Every
    /// Binding success Response counts as received, whatever its
    /// transaction ID; an unreadable reply or another message type does
    /// not.
    pub fn record(&mut self, reply: Option<&Result<(u16, u16, [u8; 12]), &'static str>>)
        requires
            old(self).sent_count() < u64::MAX,
        ensures
            final(self).sent_count() == old(self).sent_count() + 1,
            final(self).received_count() == old(self).received_count() + if (match reply {
                Some(p) => is_binding_response(*p),
                None => false,
            }) {
                1int
            } else {
                0int
            },
            (match reply {
                Some(Ok((t, _, _))) => *t == 0x0101u16,
                _ => false,
            }) ==> final(self).received_count() == old(self).received_count() + 1,
            !(match reply {
                Some(Ok((t, _, _))) => *t == 0x0101u16,
                _ => false,
            }) ==> final(self).received_count() == old(self).received_count(),
    {
        proof {
            use_type_invariant(&*self);
        }
        let matched = match reply {
            Some(Ok((msg_type, _msg_len, _resp_txn_id))) => *msg_type == STUN_BINDING_RESPONSE,
            _ => false,
        };
        if matched {
            *self = StunTally { sent: self.sent + 1, received: self.received + 1 };
        } else {
            *self = StunTally { sent: self.sent + 1, received: self.received };
        }
    }

    /// Adds the counts of another worker.
    pub fn merge(&mut self, other: &StunTally)
        requires
            old(self).sent_count() + other.sent_count() <= u64::MAX,
        ensures
            final(self).sent_count() == old(self).sent_count() + other.sent_count(),
            final(self).received_count() == old(self).received_count() + other.received_count(),
    {
        proof {
            use_type_invariant(&*self);
            use_type_invariant(other);
        }
        *self = StunTally {
            sent: self.sent + other.sent,
            received: self.received + other.received,
        };
    }

    /// Requests without a Binding success Response: those sent less those
    /// received, never below zero.
    pub fn errors(&self) -> (r: u64)
        ensures
            r == self.sent_count() - self.received_count(),
            r + self.received_count() == self.sent_count(),
    {
        proof {
            use_type_invariant(self);
        }
        self.sent.saturating_sub(self.received)
    }
}

/// The position in `n` sorted samples of the `pct`-th percentile, as
/// `n * pct / 100`.
pub fn percentile_index(n: usize, pct: usize) -> (i: usize)
    requires
        n * pct <= usize::MAX,
    ensures
        i == n * pct / 100,
        pct < 100 && n > 0 ==> i < n,
{
    proof {
        if pct < 100 && n > 0 {
            assert(n * pct / 100 < n) by (nonlinear_arith)
                requires
                    pct < 100,
                    n > 0,
            ;
        }
    }
    n * pct / 100
}

} // verus!
