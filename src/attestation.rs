use vstd::prelude::*;

verus! {

/// Length of the canonical trade message.
pub const MESSAGE_LEN: usize = 112;

/// Where the message starts in the signature-verifier payload.
pub const MESSAGE_OFFSET: usize = 176;

/// The fields of a trade that the engine signs for settlement.
#[derive(Debug, Clone, Copy)]
pub struct TradeSettlementMessage {
    pub trade_id: u64,
    pub buyer: [u8; 32],
    pub seller: [u8; 32],
    pub market: [u8; 16],
    pub price: u64,
    pub quantity: u64,
    pub timestamp: i64,
}

/// A signature over a trade message, with the nonces it is meant for.
#[derive(Debug, Clone)]
pub struct SignedTradeSettlement {
    pub signature: Vec<u8>,
    pub buyer_nonce: u64,
    pub seller_nonce: u64,
}

/// The eight little-endian bytes of `v`.
pub open spec fn u64_le(v: u64) -> Seq<u8> {
    seq![
        v as u8,
        (v >> 8u64) as u8,
        (v >> 16u64) as u8,
        (v >> 24u64) as u8,
        (v >> 32u64) as u8,
        (v >> 40u64) as u8,
        (v >> 48u64) as u8,
        (v >> 56u64) as u8,
    ]
}

/// The value of eight little-endian bytes.
pub open spec fn read_u64_le(b: Seq<u8>) -> u64 {
    (b[0] as u64) | ((b[1] as u64) << 8u64) | ((b[2] as u64) << 16u64) | ((b[3] as u64) << 24u64)
        | ((b[4] as u64) << 32u64) | ((b[5] as u64) << 40u64) | ((b[6] as u64) << 48u64) | ((b[7] as u64)
        << 56u64)
}

/// The canonical 112-byte layout of a trade message.
pub open spec fn message_bytes(m: TradeSettlementMessage) -> Seq<u8> {
    u64_le(m.trade_id) + m.buyer@ + m.seller@ + m.market@ + u64_le(m.price) + u64_le(m.quantity) + u64_le(
        m.timestamp as u64,
    )
}

/// Whether `m` holds the fields that the 112 bytes `b` encode.
pub open spec fn fields_of(b: Seq<u8>, m: TradeSettlementMessage) -> bool {
    &&& m.trade_id == read_u64_le(b.subrange(0, 8))
    &&& m.buyer@ == b.subrange(8, 40)
    &&& m.seller@ == b.subrange(40, 72)
    &&& m.market@ == b.subrange(72, 88)
    &&& m.price == read_u64_le(b.subrange(88, 96))
    &&& m.quantity == read_u64_le(b.subrange(96, 104))
    &&& m.timestamp == read_u64_le(b.subrange(104, 112)) as i64
}

proof fn lemma_u64_le(v: u64)
    ensures
        read_u64_le(u64_le(v)) == v,
{
    let b0 = v as u8;
    let b1 = (v >> 8u64) as u8;
    let b2 = (v >> 16u64) as u8;
    let b3 = (v >> 24u64) as u8;
    let b4 = (v >> 32u64) as u8;
    let b5 = (v >> 40u64) as u8;
    let b6 = (v >> 48u64) as u8;
    let b7 = (v >> 56u64) as u8;
    assert((b0 as u64) | ((b1 as u64) << 8u64) | ((b2 as u64) << 16u64) | ((b3 as u64) << 24u64) | ((b4 as u64)
        << 32u64) | ((b5 as u64) << 40u64) | ((b6 as u64) << 48u64) | ((b7 as u64) << 56u64) == v)
        by (bit_vector)
        requires
            b0 == v as u8,
            b1 == (v >> 8u64) as u8,
            b2 == (v >> 16u64) as u8,
            b3 == (v >> 24u64) as u8,
            b4 == (v >> 32u64) as u8,
            b5 == (v >> 40u64) as u8,
            b6 == (v >> 48u64) as u8,
            b7 == (v >> 56u64) as u8,
    ;
}

/// Reading back the canonical bytes of a trade message gives every field
/// unchanged.
pub proof fn law_message_round_trip(m: TradeSettlementMessage)
    ensures
        message_bytes(m).len() == MESSAGE_LEN,
        fields_of(message_bytes(m), m),
{
    let b = message_bytes(m);
    assert(b.subrange(0, 8) =~= u64_le(m.trade_id));
    assert(b.subrange(8, 40) =~= m.buyer@);
    assert(b.subrange(40, 72) =~= m.seller@);
    assert(b.subrange(72, 88) =~= m.market@);
    assert(b.subrange(88, 96) =~= u64_le(m.price));
    assert(b.subrange(96, 104) =~= u64_le(m.quantity));
    assert(b.subrange(104, 112) =~= u64_le(m.timestamp as u64));
    lemma_u64_le(m.trade_id);
    lemma_u64_le(m.price);
    lemma_u64_le(m.quantity);
    lemma_u64_le(m.timestamp as u64);
    let t = m.timestamp;
    assert(((t as u64) as i64) == t) by (bit_vector);
}

fn push_u64_le(out: &mut Vec<u8>, v: u64)
    ensures
        final(out)@ == old(out)@ + u64_le(v),
{
    out.push(v as u8);
    out.push((v >> 8) as u8);
    out.push((v >> 16) as u8);
    out.push((v >> 24) as u8);
    out.push((v >> 32) as u8);
    out.push((v >> 40) as u8);
    out.push((v >> 48) as u8);
    out.push((v >> 56) as u8);
    assert(final(out)@ =~= old(out)@ + u64_le(v));
}

fn push_bytes(out: &mut Vec<u8>, a: &[u8])
    ensures
        final(out)@ == old(out)@ + a@,
{
    let ghost start = out@;
    let mut i: usize = 0;
    while i < a.len()
        invariant
            i <= a@.len(),
            out@ == start + a@.subrange(0, i as int),
        decreases a@.len() - i,
    {
        out.push(a[i]);
        assert(a@.subrange(0, i + 1) =~= a@.subrange(0, i as int).push(a@[i as int]));
        i = i + 1;
    }
    assert(a@.subrange(0, a@.len() as int) =~= a@);
}

fn read_u64_at(b: &[u8], off: usize) -> (r: u64)
    requires
        off + 8 <= b@.len(),
    ensures
        r == read_u64_le(b@.subrange(off as int, off + 8)),
{
    let ghost s = b@.subrange(off as int, off + 8);
    assert(s[0] == b@[off as int] && s[1] == b@[off + 1] && s[2] == b@[off + 2] && s[3] == b@[off + 3]);
    assert(s[4] == b@[off + 4] && s[5] == b@[off + 5] && s[6] == b@[off + 6] && s[7] == b@[off + 7]);
    (b[off] as u64) | ((b[off + 1] as u64) << 8) | ((b[off + 2] as u64) << 16) | ((b[off + 3] as u64) << 24)
        | ((b[off + 4] as u64) << 32) | ((b[off + 5] as u64) << 40) | ((b[off + 6] as u64) << 48) | ((b[off
        + 7] as u64) << 56)
}

fn read_key(b: &[u8], off: usize) -> (r: [u8; 32])
    requires
        off + 32 <= b@.len(),
    ensures
        r@ == b@.subrange(off as int, off + 32),
{
    let mut r = [0u8; 32];
    let len = b.len();
    let mut i: usize = 0;
    while i < 32
        invariant
            i <= 32,
            len == b@.len(),
            off + 32 <= b@.len(),
            forall|j: int| 0 <= j < i ==> r@[j] == b@[off + j],
        decreases 32 - i,
    {
        r[i] = b[off + i];
        i = i + 1;
    }
    assert(r@ =~= b@.subrange(off as int, off + 32));
    r
}

fn read_tag(b: &[u8], off: usize) -> (r: [u8; 16])
    requires
        off + 16 <= b@.len(),
    ensures
        r@ == b@.subrange(off as int, off + 16),
{
    let mut r = [0u8; 16];
    let len = b.len();
    let mut i: usize = 0;
    while i < 16
        invariant
            i <= 16,
            len == b@.len(),
            off + 16 <= b@.len(),
            forall|j: int| 0 <= j < i ==> r@[j] == b@[off + j],
        decreases 16 - i,
    {
        r[i] = b[off + i];
        i = i + 1;
    }
    assert(r@ =~= b@.subrange(off as int, off + 16));
    r
}

impl TradeSettlementMessage {
    /// The canonical bytes that the engine signs and the verifier checks.
    pub fn to_bytes(&self) -> (r: Vec<u8>)
        ensures
            r@ == message_bytes(*self),
            r@.len() == MESSAGE_LEN,
    {
        let mut out: Vec<u8> = Vec::with_capacity(MESSAGE_LEN);
        push_u64_le(&mut out, self.trade_id);
        push_bytes(&mut out, self.buyer.as_slice());
        push_bytes(&mut out, self.seller.as_slice());
        push_bytes(&mut out, self.market.as_slice());
        push_u64_le(&mut out, self.price);
        push_u64_le(&mut out, self.quantity);
        push_u64_le(&mut out, self.timestamp as u64);
        out
    }

    /// Reads a trade message back from its canonical bytes; `None` unless
    /// there are exactly 112 of them.
    pub fn from_bytes(b: &[u8]) -> (r: Option<TradeSettlementMessage>)
        ensures
            r.is_some() == (b@.len() == MESSAGE_LEN),
            r matches Some(m) ==> fields_of(b@, m),
    {
        if b.len() != MESSAGE_LEN {
            return None;
        }
        Some(
            TradeSettlementMessage {
                trade_id: read_u64_at(b, 0),
                buyer: read_key(b, 8),
                seller: read_key(b, 40),
                market: read_tag(b, 72),
                price: read_u64_at(b, 88),
                quantity: read_u64_at(b, 96),
                timestamp: read_u64_at(b, 104) as i64,
            },
        )
    }
}

/// Header of the signature-verifier payload for a message of `len` bytes:
/// one signature, then its offset and instruction indexes, the public key's,
/// and the message's offset, length and indexes, all little-endian.
pub open spec fn verify_header(len: nat) -> Seq<u8> {
    seq![
        1u8, 0, 112, 0, 255, 255, 255, 255, 48, 0, 255, 255, 255, 255, 176, 0,
        (len % 256) as u8, (len / 256) as u8, 255, 255, 255, 255,
    ]
}

pub open spec fn zeros(n: nat) -> Seq<u8> {
    Seq::new(n, |i: int| 0u8)
}

/// The signature-verifier payload: the header, then the public key at offset
/// 48, the signature at offset 112 and the message at offset 176, with zero
/// bytes between the parts.
pub open spec fn verify_payload(pubkey: Seq<u8>, signature: Seq<u8>, msg: Seq<u8>) -> Seq<u8> {
    verify_header(msg.len()) + zeros(26) + pubkey + zeros(32) + signature + msg
}

fn push_zeros(out: &mut Vec<u8>, n: usize)
    ensures
        final(out)@ == old(out)@ + zeros(n as nat),
{
    let ghost start = out@;
    let mut i: usize = 0;
    while i < n
        invariant
            i <= n,
            out@ == start + zeros(i as nat),
        decreases n - i,
    {
        out.push(0u8);
        assert(zeros((i + 1) as nat) =~= zeros(i as nat).push(0u8));
        i = i + 1;
    }
}

/// Builds the data of the signature-verifier instruction that must precede a
/// settlement: it proves that `pubkey` signed `msg` with `signature`.
pub fn build_verify_data(pubkey: &[u8; 32], signature: &[u8; 64], msg: &[u8]) -> (r: Vec<u8>)
    requires
        msg@.len() <= u16::MAX,
    ensures
        r@ == verify_payload(pubkey@, signature@, msg@),
        r@.len() == MESSAGE_OFFSET + msg@.len(),
{
    let len = msg.len();
    let mut out: Vec<u8> = Vec::with_capacity(MESSAGE_OFFSET + len);
    out.push(1u8);
    out.push(0u8);
    out.push(112u8);
    out.push(0u8);
    out.push(255u8);
    out.push(255u8);
    out.push(255u8);
    out.push(255u8);
    out.push(48u8);
    out.push(0u8);
    out.push(255u8);
    out.push(255u8);
    out.push(255u8);
    out.push(255u8);
    out.push(176u8);
    out.push(0u8);
    out.push((len % 256) as u8);
    out.push((len / 256) as u8);
    out.push(255u8);
    out.push(255u8);
    out.push(255u8);
    out.push(255u8);
    assert(out@ =~= verify_header(msg@.len()));
    push_zeros(&mut out, 26);
    push_bytes(&mut out, pubkey.as_slice());
    push_zeros(&mut out, 32);
    push_bytes(&mut out, signature.as_slice());
    push_bytes(&mut out, msg);
    out
}

} // verus!
