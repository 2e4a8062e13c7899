//! Latency monitoring: the raw-sample reservoir behind the latency histogram,
//! the rolling windows that train the latency predictor, and signed latency
//! reports.
//!
//! Floating-point statistics stay with the caller; here a statistic travels as
//! the bit pattern of its `f64` (`f64::to_bits`), whose little-endian bytes are
//! those of the float.
use vstd::prelude::*;
use crate::audit_log::{le_bytes, push_bytes, push_u64_le};
use crate::crypto::{
    ed25519_accepts, ed25519_key_decodes, ed25519_key_valid, ed25519_public_key,
    ed25519_public_key_of, ed25519_sign, ed25519_signature_of, ed25519_verify,
};

verus! {

/// Summary statistics of latencies in milliseconds, each as `f64` bits.
#[derive(Debug, Clone, Copy, PartialEq, Eq, Structural)]
pub struct LatencyStats {
    pub mean: u64,
    pub std_dev: u64,
    pub min: u64,
    pub max: u64,
}

/// Statistics with an Ed25519 signature over them.
pub struct SignedLatencyReport {
    pub signature: Vec<u8>,
    pub public_key: Vec<u8>,
    pub metrics: LatencyStats,
}

/// The fixed-size ring of the most recent raw latency samples, in nanoseconds.
pub struct LatencyReservoir {
    circular_buffer: Vec<u128>,
    buf_index: usize,
    capacity: usize,
}

/// The signed bytes: the four statistics, little-endian, in field order.
pub open spec fn metrics_bytes(m: LatencyStats) -> Seq<u8> {
    le_bytes(m.mean) + le_bytes(m.std_dev) + le_bytes(m.min) + le_bytes(m.max)
}

/// The signed bytes are 32: the mean, the standard deviation, the minimum and
/// the maximum, 8 little-endian bytes each, every statistic included.
pub proof fn lemma_metrics_bytes_layout(m: LatencyStats)
    ensures
        metrics_bytes(m).len() == 32,
        metrics_bytes(m).subrange(0, 8) == le_bytes(m.mean),
        metrics_bytes(m).subrange(8, 16) == le_bytes(m.std_dev),
        metrics_bytes(m).subrange(16, 24) == le_bytes(m.min),
        metrics_bytes(m).subrange(24, 32) == le_bytes(m.max),
{
    let b = metrics_bytes(m);
    assert(b.subrange(0, 8) =~= le_bytes(m.mean));
    assert(b.subrange(8, 16) =~= le_bytes(m.std_dev));
    assert(b.subrange(16, 24) =~= le_bytes(m.min));
    assert(b.subrange(24, 32) =~= le_bytes(m.max));
}

/// The report's key and signature have the lengths and form that verification needs.
pub open spec fn report_well_formed(r: SignedLatencyReport) -> bool {
    &&& r.public_key@.len() == 32
    &&& r.signature@.len() == 64
    &&& ed25519_key_decodes(r.public_key@)
}

/// Whether a well-formed report verifies.
pub open spec fn spec_report_verifies(r: SignedLatencyReport) -> bool {
    ed25519_accepts(r.public_key@, metrics_bytes(r.metrics), r.signature@)
}

fn metrics_to_bytes(m: &LatencyStats) -> (r: Vec<u8>)
    ensures
        r@ == metrics_bytes(*m),
{
    let mut buf: Vec<u8> = Vec::new();
    push_u64_le(&mut buf, m.mean);
    push_u64_le(&mut buf, m.std_dev);
    push_u64_le(&mut buf, m.min);
    push_u64_le(&mut buf, m.max);
    buf
}

fn to_array<const N: usize>(s: &[u8]) -> (r: [u8; N])
    requires
        s@.len() == N,
    ensures
        r@ == s@,
{
    let mut r = [0u8; N];
    let mut i: usize = 0;
    while i < N
        invariant
            i <= N,
            s@.len() == N,
            r@.len() == N,
            forall|j: int| 0 <= j < i ==> r@[j] == s@[j],
        decreases N - i,
    {
        r[i] = s[i];
        i = i + 1;
    }
    assert(r@ =~= s@);
    r
}

impl SignedLatencyReport {
    /// Signs the statistics with the Ed25519 secret key `keypair`; the report
    /// carries the matching public key, and verifies.
    pub fn sign_metrics(keypair: &[u8; 32], metrics: &LatencyStats) -> (r: Self)
        ensures
            r.metrics == *metrics,
            r.public_key@ == ed25519_public_key_of(keypair@),
            r.signature@ == ed25519_signature_of(keypair@, metrics_bytes(*metrics)),
            report_well_formed(r),
            spec_report_verifies(r),
    {
        let buf = metrics_to_bytes(metrics);
        let sig = ed25519_sign(keypair, buf.as_slice());
        let public = ed25519_public_key(keypair);
        let mut signature: Vec<u8> = Vec::new();
        push_bytes(&mut signature, &sig);
        let mut public_key: Vec<u8> = Vec::new();
        push_bytes(&mut public_key, &public);
        assert(signature@ =~= sig@);
        assert(public_key@ =~= public@);
        SignedLatencyReport { signature, public_key, metrics: *metrics }
    }

    /// Verifies the signature over the statistics under the report's public key.
    pub fn verify(&self) -> (r: bool)
        requires
            report_well_formed(*self),
        ensures
            r == spec_report_verifies(*self),
    {
        let public: [u8; 32] = to_array(self.public_key.as_slice());
        let sig: [u8; 64] = to_array(self.signature.as_slice());
        let buf = metrics_to_bytes(&self.metrics);
        ed25519_verify(&public, buf.as_slice(), &sig)
    }

    /// `verify` for any report: `None` when the key or signature is malformed
    /// (where verifying would fail to decode them), else whether it verifies.
    pub fn try_verify(&self) -> (r: Option<bool>)
        ensures
            r is None <==> !report_well_formed(*self),
            r matches Some(b) ==> b == spec_report_verifies(*self),
    {
        if self.public_key.len() != 32 || self.signature.len() != 64 {
            return None;
        }
        let public: [u8; 32] = to_array(self.public_key.as_slice());
        if !ed25519_key_valid(&public) {
            return None;
        }
        Some(self.verify())
    }
}

impl LatencyReservoir {
    pub closed spec fn samples(&self) -> Seq<u128> {
        self.circular_buffer@
    }

    pub closed spec fn next_slot(&self) -> int {
        self.buf_index as int
    }

    pub closed spec fn wf(&self) -> bool {
        &&& self.circular_buffer@.len() == self.capacity
        &&& (self.capacity > 0 ==> self.buf_index < self.capacity)
        &&& (self.capacity == 0 ==> self.buf_index == 0)
    }

    /// A reservoir of `reservoir_size` empty (zero) slots.
    pub fn new(reservoir_size: usize) -> (r: Self)
        ensures
            r.wf(),
            r.samples() == Seq::new(reservoir_size as nat, |i: int| 0u128),
            r.next_slot() == 0,
    {
        let mut buf: Vec<u128> = Vec::new();
        let mut i: usize = 0;
        while i < reservoir_size
            invariant
                i <= reservoir_size,
                buf@ == Seq::new(i as nat, |j: int| 0u128),
            decreases reservoir_size - i,
        {
            buf.push(0);
            i = i + 1;
            assert(buf@ =~= Seq::new(i as nat, |j: int| 0u128));
        }
        LatencyReservoir { circular_buffer: buf, buf_index: 0, capacity: reservoir_size }
    }

    /// Stores a sample over the oldest slot and moves to the next slot, wrapping around.
    pub fn record(&mut self, latency_nanos: u128)
        requires
            old(self).wf(),
            old(self).samples().len() > 0,
        ensures
            final(self).wf(),
            final(self).samples() == old(self).samples().update(old(self).next_slot(), latency_nanos),
            final(self).next_slot() == (old(self).next_slot() + 1) % (old(self).samples().len() as int),
    {
        self.circular_buffer.set(self.buf_index, latency_nanos);
        self.buf_index = (self.buf_index + 1) % self.capacity;
    }

    /// The non-zero samples, in slot order.
    pub fn positive_samples(&self) -> (r: Vec<u128>)
        ensures
            r@ == self.samples().filter(|v: u128| v > 0),
    {
        let mut out: Vec<u128> = Vec::new();
        let mut i: usize = 0;
        while i < self.circular_buffer.len()
            invariant
                i <= self.circular_buffer@.len(),
                out@ == self.circular_buffer@.subrange(0, i as int).filter(|v: u128| v > 0),
            decreases self.circular_buffer@.len() - i,
        {
            let v = self.circular_buffer[i];
            proof {
                let s = self.circular_buffer@.subrange(0, i + 1);
                assert(s.drop_last() =~= self.circular_buffer@.subrange(0, i as int));
                reveal_with_fuel(Seq::filter, 1);
            }
            if v > 0 {
                out.push(v);
            }
            i = i + 1;
        }
        assert(self.circular_buffer@.subrange(0, self.circular_buffer@.len() as int) =~= self.circular_buffer@);
        out
    }
}

/// The supervised-learning windows of a series: each run of `window`
/// consecutive values, paired with the value that follows it.
pub fn create_rolling_window_dataset<T: Copy>(data: &[T], window: usize) -> (r: (Vec<Vec<T>>, Vec<T>))
    ensures
        r.0@.len() == r.1@.len(),
        r.0@.len() == if data@.len() > window { data@.len() - window } else { 0 },
        forall|j: int| 0 <= j < r.0@.len() ==> (#[trigger] r.0@[j])@ == data@.subrange(j, j + window),
        forall|j: int| 0 <= j < r.1@.len() ==> #[trigger] r.1@[j] == data@[j + window],
{
    let mut samples: Vec<Vec<T>> = Vec::new();
    let mut targets: Vec<T> = Vec::new();
    let mut i = window;
    while i < data.len()
        invariant
            window <= i,
            i <= data@.len() || samples@.len() == 0,
            samples@.len() == targets@.len(),
            samples@.len() == if i > window { i - window } else { 0 },
            i >= data@.len() ==> i == window || i == data@.len(),
            forall|j: int| 0 <= j < samples@.len() ==> (#[trigger] samples@[j])@ == data@.subrange(j, j + window),
            forall|j: int| 0 <= j < targets@.len() ==> #[trigger] targets@[j] == data@[j + window],
        decreases data@.len() - i,
    {
        let mut w: Vec<T> = Vec::new();
        let mut t = i - window;
        while t < i
            invariant
                window <= i < data@.len(),
                i - window <= t <= i,
                w@ == data@.subrange(i - window, t as int),
            decreases i - t,
        {
            w.push(data[t]);
            t = t + 1;
            assert(w@ =~= data@.subrange(i - window, t as int));
        }
        samples.push(w);
        targets.push(data[i]);
        i = i + 1;
    }
    (samples, targets)
}

} // verus!
