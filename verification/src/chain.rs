//! Blockchain-facing logic: gas price recommendation and the framing of
//! cross-chain messages that carry a zero-knowledge proof.
use vstd::prelude::*;
use crate::audit_log::{le_bytes, push_bytes, push_u64_le};

verus! {

/// An unsigned 256-bit integer, the width of an EVM word, as two 128-bit halves.
#[derive(Debug, Clone, Copy, PartialEq, Eq, Structural)]
pub struct U256 {
    pub hi: u128,
    pub lo: u128,
}

/// 2^128.
pub open spec fn two_pow_128() -> int {
    0x1_0000_0000_0000_0000_0000_0000_0000_0000int
}

impl U256 {
    /// The integer the halves stand for.
    pub open spec fn value(self) -> int {
        self.hi * two_pow_128() + self.lo
    }

    /// The 256-bit integer equal to `v`.
    pub fn from_u128(v: u128) -> (r: U256)
        ensures
            r.value() == v,
    {
        U256 { hi: 0, lo: v }
    }
}

/// Recommends gas prices from the history of base fees (oldest first).
pub struct GasEstimator {
    pub base_fee_history: Vec<U256>,
}

/// The exponentially weighted moving average of the fees with smoothing factor
/// 1/2, rounded down at each step: the oldest fee starts the average and each
/// later fee moves it half-way.
pub open spec fn ewma(fees: Seq<U256>) -> int
    decreases fees.len(),
{
    if fees.len() == 0 {
        0
    } else if fees.len() == 1 {
        fees[0].value()
    } else {
        (ewma(fees.drop_last()) + fees.last().value()) / 2
    }
}

/// The average of two 256-bit values, rounded down, without overflow.
fn halfway(a: U256, b: U256) -> (r: U256)
    ensures
        r.value() == (a.value() + b.value()) / 2,
{
    let (lo_sum, carry): (u128, u128) = if a.lo <= u128::MAX - b.lo {
        (a.lo + b.lo, 0)
    } else {
        (a.lo - (u128::MAX - b.lo) - 1, 1)
    };
    assert(lo_sum + carry * two_pow_128() == a.lo + b.lo);
    let odd: u128 = a.hi % 2 + b.hi % 2 + carry;
    let hi_half: u128 = a.hi / 2 + b.hi / 2 + odd / 2;
    let hi_rem: u128 = odd % 2;
    assert(hi_half * 2 + hi_rem == a.hi + b.hi + carry);
    let lo: u128 = hi_rem * 0x8000_0000_0000_0000_0000_0000_0000_0000 + lo_sum / 2;
    let r = U256 { hi: hi_half, lo };
    assert(a.value() + b.value() == (a.hi + b.hi + carry) * two_pow_128() + lo_sum);
    assert(a.value() + b.value() == 2 * (hi_half * two_pow_128() + hi_rem * 0x8000_0000_0000_0000_0000_0000_0000_0000) + lo_sum);
    r
}

impl GasEstimator {
    /// The EWMA of the base fee history; zero for an empty history.
    pub fn recommend_gas_price(&self) -> (r: U256)
        ensures
            r.value() == ewma(self.base_fee_history@),
            self.base_fee_history@.len() == 1 ==> r.value() == self.base_fee_history@[0].value(),
            self.base_fee_history@.len() > 1 ==> r.value() == (ewma(self.base_fee_history@.drop_last())
                + self.base_fee_history@.last().value()) / 2,
    {
        proof {
            let h = self.base_fee_history@;
            if h.len() == 1 {
                assert(h =~= seq![h[0]]);
                lemma_single_fee_is_recommended(h[0]);
            }
            if h.len() > 1 {
                lemma_newer_fee_moves_halfway(h.drop_last(), h.last());
                assert(h.drop_last().push(h.last()) =~= h);
            }
        }
        let fees = &self.base_fee_history;
        if fees.len() == 0 {
            return U256 { hi: 0, lo: 0 };
        }
        let mut acc = fees[0];
        let mut i: usize = 1;
        assert(fees@.subrange(0, 1).drop_last() =~= Seq::<U256>::empty());
        while i < fees.len()
            invariant
                1 <= i <= fees@.len(),
                acc.value() == ewma(fees@.subrange(0, i as int)),
            decreases fees@.len() - i,
        {
            assert(fees@.subrange(0, i + 1).drop_last() =~= fees@.subrange(0, i as int));
            acc = halfway(acc, fees[i]);
            i = i + 1;
        }
        assert(fees@.subrange(0, fees@.len() as int) =~= fees@);
        acc
    }
}

/// A history of one fee recommends that fee.
pub proof fn lemma_single_fee_is_recommended(f: U256)
    ensures
        ewma(seq![f]) == f.value(),
{
}

/// Every newer fee moves the recommendation half-way towards it, rounding
/// down, whatever the length of the history before it.
pub proof fn lemma_newer_fee_moves_halfway(history: Seq<U256>, fee: U256)
    requires
        history.len() > 0,
    ensures
        ewma(history.push(fee)) == (ewma(history) + fee.value()) / 2,
{
    assert(history.push(fee).drop_last() =~= history);
}

/// The recommendation never leaves the range of the observed fees.
pub proof fn lemma_ewma_within_range(fees: Seq<U256>, lo: int, hi: int)
    requires
        fees.len() > 0,
        forall|i: int| 0 <= i < fees.len() ==> lo <= #[trigger] fees[i].value() <= hi,
    ensures
        lo <= ewma(fees) <= hi,
    decreases fees.len(),
{
    if fees.len() > 1 {
        let init = fees.drop_last();
        assert forall|i: int| 0 <= i < init.len() implies lo <= #[trigger] init[i].value() <= hi by {
            assert(init[i] == fees[i]);
        }
        lemma_ewma_within_range(init, lo, hi);
        assert(lo <= fees[fees.len() - 1].value() <= hi);
    }
}

/// A message between chains. Its metadata carries the attestation of the
/// enclave that produced the proof in its body.
pub struct CrossChainMessage {
    pub version: u8,
    pub nonce: u32,
    pub origin_chain: u32,
    pub destination_chain: u32,
    pub body: Vec<u8>,
    pub metadata: Vec<u8>,
}

/// Why a message body could not be decoded.
#[derive(Debug, Clone, Copy, PartialEq, Eq, Structural)]
pub enum MessageError {
    /// The body ends before its declared proof does.
    Truncated,
}

/// Builds and reads the messages that carry proofs between chains.
pub struct ZkMessagePasser {}

/// The message format version.
pub open spec fn message_version() -> u8 {
    3
}

/// A body: the proof's length (a little-endian `u64`), the proof, then the public signal.
pub open spec fn encode_body(proof: Seq<u8>, signal: Seq<u8>) -> Seq<u8> {
    le_bytes(proof.len() as u64) + proof + signal
}

/// The `u64` whose little-endian bytes are the first eight of `s`.
pub open spec fn le_u64(s: Seq<u8>) -> u64 {
    (s[0] as u64) | ((s[1] as u64) << 8u64) | ((s[2] as u64) << 16u64) | ((s[3] as u64) << 24u64)
        | ((s[4] as u64) << 32u64) | ((s[5] as u64) << 40u64) | ((s[6] as u64) << 48u64) | ((
    s[7] as u64) << 56u64)
}

/// What decoding a body gives: the proof and the public signal.
pub open spec fn decode_body(body: Seq<u8>) -> Result<(Seq<u8>, Seq<u8>), MessageError> {
    if body.len() < 8 {
        Err(MessageError::Truncated)
    } else {
        let n = le_u64(body) as int;
        if n > body.len() - 8 {
            Err(MessageError::Truncated)
        } else {
            Ok((body.subrange(8, 8 + n), body.subrange(8 + n, body.len() as int)))
        }
    }
}

/// Reading back the little-endian bytes of a `u64` gives the `u64`.
pub proof fn lemma_le_u64_roundtrip(v: u64)
    ensures
        le_u64(le_bytes(v)) == v,
{
    let b = le_bytes(v);
    assert(b[0] == ((v >> 0u64) & 0xff) as u8);
    assert(b[1] == ((v >> 8u64) & 0xff) as u8);
    assert(b[2] == ((v >> 16u64) & 0xff) as u8);
    assert(b[3] == ((v >> 24u64) & 0xff) as u8);
    assert(b[4] == ((v >> 32u64) & 0xff) as u8);
    assert(b[5] == ((v >> 40u64) & 0xff) as u8);
    assert(b[6] == ((v >> 48u64) & 0xff) as u8);
    assert(b[7] == ((v >> 56u64) & 0xff) as u8);
    let b0 = b[0];
    let b1 = b[1];
    let b2 = b[2];
    let b3 = b[3];
    let b4 = b[4];
    let b5 = b[5];
    let b6 = b[6];
    let b7 = b[7];
    assert(b0 == ((v >> 0u64) & 0xff) as u8 && b1 == ((v >> 8u64) & 0xff) as u8 && b2 == ((v
        >> 16u64) & 0xff) as u8 && b3 == ((v >> 24u64) & 0xff) as u8 && b4 == ((v >> 32u64)
        & 0xff) as u8 && b5 == ((v >> 40u64) & 0xff) as u8 && b6 == ((v >> 48u64) & 0xff) as u8
        && b7 == ((v >> 56u64) & 0xff) as u8 ==> (b0 as u64) | ((b1 as u64) << 8u64) | ((b2 as u64)
        << 16u64) | ((b3 as u64) << 24u64) | ((b4 as u64) << 32u64) | ((b5 as u64) << 40u64) | ((
    b6 as u64) << 48u64) | ((b7 as u64) << 56u64) == v) by (bit_vector);
}

/// A body decodes to the proof and signal it was built from.
pub proof fn lemma_body_roundtrip(proof: Seq<u8>, signal: Seq<u8>)
    requires
        proof.len() <= u64::MAX,
    ensures
        decode_body(encode_body(proof, signal)) == Ok::<(Seq<u8>, Seq<u8>), MessageError>((proof, signal)),
{
    let body = encode_body(proof, signal);
    lemma_le_u64_roundtrip(proof.len() as u64);
    assert(body.subrange(0, 8) =~= le_bytes(proof.len() as u64));
    assert(le_u64(body) == le_u64(body.subrange(0, 8)));
    assert(body.subrange(8, 8 + proof.len() as int) =~= proof);
    assert(body.subrange(8 + proof.len() as int, body.len() as int) =~= signal);
}

impl ZkMessagePasser {
    /// The message that carries `proof` and `public_signal` from `origin_chain`
    /// to `dest_chain` under the relayer's `nonce`, with the attestation of the
    /// enclave that generated the proof attached as its metadata.
    pub fn build_message(
        nonce: u32,
        origin_chain: u32,
        dest_chain: u32,
        proof: &[u8],
        public_signal: &[u8],
        attestation: &[u8],
    ) -> (r: CrossChainMessage)
        ensures
            r.metadata@ == attestation@,
            r.version == message_version(),
            r.nonce == nonce,
            r.origin_chain == origin_chain,
            r.destination_chain == dest_chain,
            r.body@ == encode_body(proof@, public_signal@),
    {
        let mut body: Vec<u8> = Vec::new();
        push_u64_le(&mut body, proof.len() as u64);
        push_bytes(&mut body, proof);
        push_bytes(&mut body, public_signal);
        let mut metadata: Vec<u8> = Vec::new();
        push_bytes(&mut metadata, attestation);
        assert(metadata@ =~= attestation@);
        CrossChainMessage { version: 3, nonce, origin_chain, destination_chain: dest_chain, body, metadata }
    }

    /// Splits a message body into the proof and the public signal.
    pub fn decode_proof(body: &[u8]) -> (r: Result<(Vec<u8>, Vec<u8>), MessageError>)
        ensures
            match r {
                Ok((p, s)) => decode_body(body@) == Ok::<(Seq<u8>, Seq<u8>), MessageError>((p@, s@)),
                Err(e) => decode_body(body@) == Err::<(Seq<u8>, Seq<u8>), MessageError>(e),
            },
    {
        let len = body.len();
        if len < 8 {
            return Err(MessageError::Truncated);
        }
        let n: u64 = (body[0] as u64) | ((body[1] as u64) << 8u64) | ((body[2] as u64) << 16u64)
            | ((body[3] as u64) << 24u64) | ((body[4] as u64) << 32u64) | ((body[5] as u64)
            << 40u64) | ((body[6] as u64) << 48u64) | ((body[7] as u64) << 56u64);
        assert(n == le_u64(body@));
        if n > (len - 8) as u64 {
            return Err(MessageError::Truncated);
        }
        let end = 8 + n as usize;
        let mut p: Vec<u8> = Vec::new();
        let mut i: usize = 8;
        while i < end
            invariant
                8 <= i <= end,
                end <= body@.len(),
                p@ == body@.subrange(8, i as int),
            decreases end - i,
        {
            p.push(body[i]);
            i = i + 1;
            assert(p@ =~= body@.subrange(8, i as int));
        }
        let mut s: Vec<u8> = Vec::new();
        let mut j: usize = end;
        while j < len
            invariant
                end <= j <= len,
                len == body@.len(),
                s@ == body@.subrange(end as int, j as int),
            decreases len - j,
        {
            s.push(body[j]);
            j = j + 1;
            assert(s@ =~= body@.subrange(end as int, j as int));
        }
        Ok((p, s))
    }
}

} // verus!
