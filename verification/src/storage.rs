//! Decentralized storage: content-addressed chunking, shard encryption and
//! Reed-Solomon redundancy.
use vstd::prelude::*;
use crate::crypto::{blake3_hash, blake3_of, chacha20poly1305_encrypt, chacha20poly1305_seal_of, os_random_nonce};

verus! {

/// Splits data into chunks of about `len / target_chunks` bytes. The minimum
/// and maximum bound how the chunks are spread over worker threads.
pub struct AdaptiveChunker {
    pub min_chunk_size: usize,
    pub max_chunk_size: usize,
    pub target_chunks: usize,
}

/// A proof that a storage node holds a chunk.
pub struct StorageProof {
    pub proof_bytes: Vec<u8>,
}

/// A piece of stored data with its BLAKE3 digest.
pub struct Chunk {
    pub data: Vec<u8>,
    pub digest: [u8; 32],
    pub proof: Option<StorageProof>,
}

/// The consecutive pieces of `data` of `size` bytes; the last may be shorter.
pub open spec fn chunk_seq(data: Seq<u8>, size: nat) -> Seq<Seq<u8>>
    decreases data.len(),
{
    if data.len() == 0 || size == 0 {
        Seq::empty()
    } else if data.len() <= size {
        seq![data]
    } else {
        seq![data.take(size as int)] + chunk_seq(data.skip(size as int), size)
    }
}

/// The concatenation of pieces.
pub open spec fn concat_all(pieces: Seq<Seq<u8>>) -> Seq<u8>
    decreases pieces.len(),
{
    if pieces.len() == 0 {
        Seq::empty()
    } else {
        pieces[0] + concat_all(pieces.drop_first())
    }
}

/// The pieces held by a list of chunks.
pub open spec fn chunk_data(cs: Seq<Chunk>) -> Seq<Seq<u8>> {
    cs.map_values(|c: Chunk| c.data@)
}

impl AdaptiveChunker {
    /// The chunk size for `len` bytes of data.
    pub open spec fn chunk_size(&self, len: nat) -> nat {
        len / (self.target_chunks as nat)
    }

    /// Cuts `data` into chunks of `data.len() / target_chunks` bytes (the last
    /// may be shorter), each with the BLAKE3 digest of its bytes.
    pub fn new(&self, data: &[u8]) -> (r: Vec<Chunk>)
        requires
            self.target_chunks > 0,
            data@.len() / (self.target_chunks as nat) > 0,
        ensures
            chunk_data(r@) == chunk_seq(data@, self.chunk_size(data@.len())),
            forall|i: int| 0 <= i < r@.len() ==> (#[trigger] r@[i]).digest@ == blake3_of(r@[i].data@),
            forall|i: int| 0 <= i < r@.len() ==> (#[trigger] r@[i]).proof is None,
            concat_all(chunk_data(r@)) == data@,
            r@.len() > 0,
            forall|i: int| 0 <= i < r@.len() - 1 ==> (#[trigger] r@[i]).data@.len() == data@.len() / (self.target_chunks as nat),
            r@.last().data@.len() <= data@.len() / (self.target_chunks as nat),
            data@.len() % (self.target_chunks as nat) == 0 ==> r@.len() == self.target_chunks,
    {
        let avg_size = data.len() / self.target_chunks;
        let ghost size = avg_size as nat;
        let mut chunks: Vec<Chunk> = Vec::new();
        let mut pos: usize = 0;
        assert(data@.skip(0) =~= data@);
        while pos < data.len()
            invariant
                avg_size > 0,
                size == avg_size,
                pos <= data@.len(),
                chunk_data(chunks@) + chunk_seq(data@.skip(pos as int), size) == chunk_seq(data@, size),
                forall|i: int| 0 <= i < chunks@.len() ==> (#[trigger] chunks@[i]).digest@ == blake3_of(chunks@[i].data@),
                forall|i: int| 0 <= i < chunks@.len() ==> (#[trigger] chunks@[i]).proof is None,
            decreases data@.len() - pos,
        {
            let ghost rest = data@.skip(pos as int);
            let end = if data.len() - pos <= avg_size { data.len() } else { pos + avg_size };
            let mut piece: Vec<u8> = Vec::new();
            let mut j = pos;
            while j < end
                invariant
                    pos <= j <= end,
                    end <= data@.len(),
                    piece@ == data@.subrange(pos as int, j as int),
                decreases end - j,
            {
                piece.push(data[j]);
                j = j + 1;
                assert(piece@ =~= data@.subrange(pos as int, j as int));
            }
            let digest = blake3_hash(piece.as_slice());
            let ghost before = chunks@;
            chunks.push(Chunk { data: piece, digest, proof: None });
            proof {
                if rest.len() <= size {
                    assert(piece@ =~= rest);
                    assert(data@.skip(end as int) =~= Seq::<u8>::empty());
                    assert(chunk_seq(rest, size) == seq![rest]);
                } else {
                    assert(piece@ =~= rest.take(size as int));
                    assert(rest.skip(size as int) =~= data@.skip(end as int));
                }
                assert(chunk_data(chunks@) =~= chunk_data(before).push(piece@));
                assert(chunk_data(chunks@) + chunk_seq(data@.skip(end as int), size) =~= chunk_data(before)
                    + chunk_seq(rest, size));
            }
            pos = end;
        }
        assert(data@.skip(pos as int) =~= Seq::<u8>::empty());
        assert(chunk_data(chunks@) =~= chunk_data(chunks@) + chunk_seq(data@.skip(pos as int), size));
        proof {
            lemma_chunk_layout(*self, data@);
            let cd = chunk_data(chunks@);
            assert(cd.len() == chunks@.len());
            assert forall|i: int| 0 <= i < chunks@.len() - 1 implies (#[trigger] chunks@[i]).data@.len() == data@.len() / (self.target_chunks as nat) by {
                assert(cd[i] == chunks@[i].data@);
            }
            assert(cd[cd.len() - 1] == chunks@.last().data@);
        }
        chunks
    }
}

/// Every piece but the last holds exactly `size` bytes, and non-empty data
/// gives at least one piece.
proof fn lemma_chunk_seq_sizes(data: Seq<u8>, size: nat)
    requires
        size > 0,
    ensures
        data.len() > 0 ==> chunk_seq(data, size).len() > 0,
        forall|i: int| 0 <= i < chunk_seq(data, size).len() - 1 ==> (#[trigger] chunk_seq(data, size)[i]).len() == size,
    decreases data.len(),
{
    if data.len() > size {
        let rest = data.skip(size as int);
        lemma_chunk_seq_sizes(rest, size);
        let cs = chunk_seq(data, size);
        assert forall|i: int| 0 <= i < cs.len() - 1 implies (#[trigger] cs[i]).len() == size by {
            if i > 0 {
                assert(cs[i] == chunk_seq(rest, size)[i - 1]);
            }
        }
    }
}

/// Data of `m * size` bytes falls into exactly `m` pieces.
proof fn lemma_chunk_seq_count(data: Seq<u8>, size: nat, m: nat)
    requires
        size > 0,
        data.len() == m * size,
    ensures
        chunk_seq(data, size).len() == m,
    decreases m,
{
    if m == 0 {
        assert(data.len() == 0) by (nonlinear_arith)
            requires
                data.len() == m * size,
                m == 0,
        ;
    } else if m == 1 {
        assert(data.len() == size) by (nonlinear_arith)
            requires
                data.len() == m * size,
                m == 1,
        ;
        assert(chunk_seq(data, size) =~= seq![data]);
    } else {
        assert(data.len() == (m - 1) * size + size) by (nonlinear_arith)
            requires
                data.len() == m * size,
                m >= 2,
        ;
        let rest = data.skip(size as int);
        lemma_chunk_seq_count(rest, size, (m - 1) as nat);
        assert(chunk_seq(data, size).len() == 1 + chunk_seq(rest, size).len());
    }
}

/// How a chunker cuts `data`: every chunk but the last holds exactly
/// `data.len() / target_chunks` bytes and the last at most that many, the
/// chunks in order make up the data, and when `target_chunks` divides the
/// length there are exactly `target_chunks` chunks.
pub proof fn lemma_chunk_layout(c: AdaptiveChunker, data: Seq<u8>)
    requires
        c.target_chunks > 0,
        data.len() / (c.target_chunks as nat) > 0,
    ensures
        concat_all(chunk_seq(data, c.chunk_size(data.len()))) == data,
        chunk_seq(data, c.chunk_size(data.len())).len() > 0,
        forall|i: int|
            0 <= i < chunk_seq(data, c.chunk_size(data.len())).len() - 1
                ==> (#[trigger] chunk_seq(data, c.chunk_size(data.len()))[i]).len() == data.len() / (c.target_chunks as nat),
        chunk_seq(data, c.chunk_size(data.len())).last().len() <= data.len() / (c.target_chunks as nat),
        data.len() % (c.target_chunks as nat) == 0 ==> chunk_seq(data, c.chunk_size(data.len())).len() == c.target_chunks,
{
    let t = c.target_chunks as nat;
    let size = data.len() / t;
    assert(c.chunk_size(data.len()) == size);
    lemma_chunks_reassemble(data, size);
    lemma_chunk_seq_sizes(data, size);
    let cs = chunk_seq(data, size);
    assert(0 < cs[cs.len() - 1].len() <= size);
    if data.len() % t == 0 {
        assert(data.len() == t * size) by (nonlinear_arith)
            requires
                data.len() % t == 0,
                size == data.len() / t,
                t > 0,
        ;
        assert(data.len() == t * size);
        assert(t * size == size * t) by (nonlinear_arith);
        lemma_chunk_seq_count(data, size, t);
    }
}

/// Chunking loses and adds nothing: the chunks, in order, make up the data.
pub proof fn lemma_chunks_reassemble(data: Seq<u8>, size: nat)
    requires
        size > 0,
    ensures
        concat_all(chunk_seq(data, size)) == data,
        forall|i: int| 0 <= i < chunk_seq(data, size).len() ==> 0 < (#[trigger] chunk_seq(data, size)[i]).len() <= size,
    decreases data.len(),
{
    if data.len() == 0 {
        assert(data =~= Seq::<u8>::empty());
        assert(chunk_seq(data, size) =~= Seq::<Seq<u8>>::empty());
        assert(concat_all(Seq::<Seq<u8>>::empty()) == Seq::<u8>::empty());
    } else if data.len() <= size {
        let cs = chunk_seq(data, size);
        assert(cs =~= seq![data]);
        assert(cs.drop_first() =~= Seq::<Seq<u8>>::empty());
        assert(concat_all(cs.drop_first()) == Seq::<u8>::empty());
        assert(data + Seq::<u8>::empty() =~= data);
        assert(concat_all(cs) == cs[0] + concat_all(cs.drop_first()));
    } else {
        lemma_chunks_reassemble(data.skip(size as int), size);
        let cs = chunk_seq(data, size);
        assert(cs.drop_first() =~= chunk_seq(data.skip(size as int), size));
        assert(cs[0] == data.take(size as int));
        assert(concat_all(cs) == cs[0] + concat_all(cs.drop_first()));
        assert(data.take(size as int) + data.skip(size as int) =~= data);
        assert forall|i: int| 0 <= i < cs.len() implies 0 < (#[trigger] cs[i]).len() <= size by {
            if i > 0 {
                assert(cs[i] == chunk_seq(data.skip(size as int), size)[i - 1]);
            }
        }
    }
}

/// A shard sealed with ChaCha20-Poly1305.
pub struct EncryptedShard {
    pub ciphertext: Vec<u8>,
    pub nonce: [u8; 12],
    pub auth_tag: [u8; 16],
}

/// Why a shard could not be sealed.
#[derive(Debug, Clone, Copy, PartialEq, Eq, Structural)]
pub enum ShardError {
    /// The cipher refused the input (it has `u32::MAX` or more 64-byte blocks).
    Encryption,
}

/// Seals `data` under `key` with the given nonce, splitting the AEAD output into
/// the ciphertext and its 16-byte tag.
pub fn encrypt_shard_with_nonce(key: &[u8; 32], nonce: &[u8; 12], data: &[u8]) -> (r: Result<EncryptedShard, ShardError>)
    ensures
        r is Ok <==> data@.len() / 64 < 0xffff_ffff,
        r matches Ok(s) ==> {
            &&& s.nonce == *nonce
            &&& s.ciphertext@.len() == data@.len()
            &&& s.ciphertext@ + s.auth_tag@ == chacha20poly1305_seal_of(key@, nonce@, data@)
        },
{
    let sealed = match chacha20poly1305_encrypt(key, nonce, data) {
        Ok(v) => v,
        Err(_) => {
            return Err(ShardError::Encryption);
        },
    };
    let slen = sealed.len();
    let split = slen - 16;
    let mut ct: Vec<u8> = Vec::new();
    let mut i: usize = 0;
    while i < split
        invariant
            split == sealed@.len() - 16,
            i <= split,
            ct@ == sealed@.subrange(0, i as int),
        decreases split - i,
    {
        ct.push(sealed[i]);
        i = i + 1;
        assert(ct@ =~= sealed@.subrange(0, i as int));
    }
    let mut tag = [0u8; 16];
    let mut t: usize = 0;
    while t < 16
        invariant
            split + 16 == slen,
            slen == sealed@.len(),
            t <= 16,
            tag@.len() == 16,
            forall|j: int| 0 <= j < t ==> tag@[j] == sealed@[split + j],
        decreases 16 - t,
    {
        tag[t] = sealed[split + t];
        t = t + 1;
    }
    assert(ct@ + tag@ =~= sealed@);
    Ok(EncryptedShard { ciphertext: ct, nonce: *nonce, auth_tag: tag })
}

/// Seals `data` under `key` with a fresh random nonce.
pub fn encrypt_shard(key: &[u8; 32], data: &[u8]) -> (r: Result<EncryptedShard, ShardError>)
    ensures
        r is Ok <==> data@.len() / 64 < 0xffff_ffff,
        r matches Ok(s) ==> {
            &&& s.ciphertext@.len() == data@.len()
            &&& s.ciphertext@ + s.auth_tag@ == chacha20poly1305_seal_of(key@, s.nonce@, data@)
        },
{
    let nonce = os_random_nonce();
    encrypt_shard_with_nonce(key, &nonce, data)
}


/// Reed-Solomon coding over GF(2^8): `data_shards` data shards protected by
/// `parity_shards` parity shards.
pub struct ErasureCoder {
    data_shards: usize,
    parity_shards: usize,
}

/// Why shards could not be coded.
#[derive(Debug, Clone, Copy, PartialEq, Eq, Structural)]
pub enum ErasureError {
    TooFewShards,
    TooManyShards,
    EmptyShard,
    IncorrectShardSize,
    TooFewShardsPresent,
    Other,
}

/// The parity shards that reed-solomon-erasure computes for the given data
/// shards with `parity_shards` parity shards.
pub uninterp spec fn rs_parity_of(data: Seq<Seq<u8>>, parity_shards: nat) -> Seq<Seq<u8>>;

pub open spec fn shards_view(v: Seq<Vec<u8>>) -> Seq<Seq<u8>> {
    v.map_values(|s: Vec<u8>| s@)
}

pub open spec fn opt_shards_view(v: Seq<Option<Vec<u8>>>) -> Seq<Option<Seq<u8>>> {
    v.map_values(|o: Option<Vec<u8>>|
        match o {
            Some(s) => Some(s@),
            None => None,
        })
}

/// A complete, consistent set of shards: the data shards, all of one non-zero
/// length, followed by their parity.
pub open spec fn is_codeword(c: Seq<Seq<u8>>, d: nat, p: nat) -> bool {
    &&& d > 0
    &&& c.len() == d + p
    &&& c[0].len() > 0
    &&& forall|i: int| 0 <= i < c.len() ==> (#[trigger] c[i]).len() == c[0].len()
    &&& c.subrange(d as int, (d + p) as int) == rs_parity_of(c.subrange(0, d as int), p)
}

/// What encoding reports for a list of shards.
pub open spec fn encode_outcome(s: Seq<Seq<u8>>, d: nat, p: nat) -> Result<(), ErasureError> {
    if s.len() < d + p {
        Err(ErasureError::TooFewShards)
    } else if s.len() > d + p {
        Err(ErasureError::TooManyShards)
    } else if s[0].len() == 0 {
        Err(ErasureError::EmptyShard)
    } else if exists|i: int| 0 <= i < s.len() && (#[trigger] s[i]).len() != s[0].len() {
        Err(ErasureError::IncorrectShardSize)
    } else {
        Ok(())
    }
}

/// The first problem found scanning the present shards from position `i` on,
/// given the length of the present shards seen so far.
pub open spec fn scan_present(s: Seq<Option<Seq<u8>>>, i: int, seen: Option<nat>) -> Option<ErasureError>
    decreases s.len() - i,
{
    if i < 0 || i >= s.len() {
        None
    } else {
        match s[i] {
            None => scan_present(s, i + 1, seen),
            Some(x) => if x.len() == 0 {
                Some(ErasureError::EmptyShard)
            } else if seen is Some && seen.unwrap() != x.len() {
                Some(ErasureError::IncorrectShardSize)
            } else {
                scan_present(s, i + 1, Some(x.len()))
            },
        }
    }
}

/// How many shards are present.
pub open spec fn count_present(s: Seq<Option<Seq<u8>>>) -> nat
    decreases s.len(),
{
    if s.len() == 0 {
        0
    } else {
        count_present(s.drop_last()) + if s.last() is Some { 1nat } else { 0nat }
    }
}

/// What reconstruction reports for a list of possibly missing shards.
pub open spec fn reconstruct_outcome(s: Seq<Option<Seq<u8>>>, d: nat, p: nat) -> Result<(), ErasureError> {
    if s.len() < d + p {
        Err(ErasureError::TooFewShards)
    } else if s.len() > d + p {
        Err(ErasureError::TooManyShards)
    } else if scan_present(s, 0, None) is Some {
        Err(scan_present(s, 0, None).unwrap())
    } else if count_present(s) == d + p {
        Ok(())
    } else if count_present(s) < d {
        Err(ErasureError::TooFewShardsPresent)
    } else {
        Ok(())
    }
}

/// Every present shard equals the codeword's shard at its position.
pub open spec fn agrees(s: Seq<Option<Seq<u8>>>, c: Seq<Seq<u8>>) -> bool {
    &&& s.len() == c.len()
    &&& forall|i: int| 0 <= i < s.len() && (#[trigger] s[i]) is Some ==> s[i].unwrap() == c[i]
}

/// The codeword with every shard present.
pub open spec fn all_present(c: Seq<Seq<u8>>) -> Seq<Option<Seq<u8>>> {
    c.map_values(|x: Seq<u8>| Some(x))
}

/// `ReedSolomon::encode` of reed-solomon-erasure (galois_8), on the codec made by
/// `ReedSolomon::new(coder.data_shards, coder.parity_shards)` (which accepts the
/// counts that a coder holds: non-zero, at most 256 in all). It checks the count and
/// sizes of the shards before touching them; on success the data shards are
/// kept and the parity slots hold the named parity of the data shards.
#[verifier::external_body]
fn rs_encode(coder: &ErasureCoder, shards: &mut Vec<Vec<u8>>) -> (r: Result<(), ErasureError>)
    requires
        coder.wf(),
    ensures
        r == encode_outcome(shards_view(old(shards)@), coder.data_shards as nat, coder.parity_shards as nat),
        r is Err ==> shards_view(final(shards)@) == shards_view(old(shards)@),
        r is Ok ==> {
            &&& final(shards)@.len() == old(shards)@.len()
            &&& shards_view(final(shards)@).subrange(0, coder.data_shards as int) == shards_view(old(shards)@).subrange(0, coder.data_shards as int)
            &&& forall|i: int| 0 <= i < final(shards)@.len() ==> (#[trigger] final(shards)@[i])@.len() == old(shards)@[i]@.len()
            &&& shards_view(final(shards)@).subrange(coder.data_shards as int, final(shards)@.len() as int)
                == rs_parity_of(shards_view(old(shards)@).subrange(0, coder.data_shards as int), coder.parity_shards as nat)
        },
{
    let rs = reed_solomon_erasure::galois_8::ReedSolomon::new(coder.data_shards, coder.parity_shards).expect("counts in range");
    rs.encode(shards).map_err(|e| match e {
        reed_solomon_erasure::Error::TooFewShards => ErasureError::TooFewShards,
        reed_solomon_erasure::Error::TooManyShards => ErasureError::TooManyShards,
        reed_solomon_erasure::Error::EmptyShard => ErasureError::EmptyShard,
        reed_solomon_erasure::Error::IncorrectShardSize => ErasureError::IncorrectShardSize,
        reed_solomon_erasure::Error::TooFewShardsPresent => ErasureError::TooFewShardsPresent,
        _ => ErasureError::Other,
    })
}

/// `ReedSolomon::reconstruct` of reed-solomon-erasure (galois_8), on the codec
/// made by `ReedSolomon::new(coder.data_shards, coder.parity_shards)`. It
/// reports as `reconstruct_outcome` says and touches nothing on an error; on
/// success every shard is present and the present ones are kept, and when the
/// present shards agree with a complete codeword the result is that codeword
/// (the crate's purpose: any `data_shards` shards restore the rest).
#[verifier::external_body]
fn rs_reconstruct(coder: &ErasureCoder, shards: &mut Vec<Option<Vec<u8>>>) -> (r: Result<(), ErasureError>)
    requires
        coder.wf(),
    ensures
        r == reconstruct_outcome(opt_shards_view(old(shards)@), coder.data_shards as nat, coder.parity_shards as nat),
        r is Err ==> opt_shards_view(final(shards)@) == opt_shards_view(old(shards)@),
        r is Ok ==> {
            &&& final(shards)@.len() == old(shards)@.len()
            &&& forall|i: int| 0 <= i < final(shards)@.len() ==> (#[trigger] final(shards)@[i]) is Some
            &&& forall|i: int| 0 <= i < final(shards)@.len() && (#[trigger] old(shards)@[i]) is Some ==> opt_shards_view(final(shards)@)[i] == opt_shards_view(old(shards)@)[i]
        },
        forall|c: Seq<Seq<u8>>|
            #[trigger] is_codeword(c, coder.data_shards as nat, coder.parity_shards as nat)
                && agrees(opt_shards_view(old(shards)@), c) && r is Ok ==> opt_shards_view(final(shards)@) == all_present(c),
{
    let rs = reed_solomon_erasure::galois_8::ReedSolomon::new(coder.data_shards, coder.parity_shards).expect("counts in range");
    rs.reconstruct(shards.as_mut_slice()).map_err(|e| match e {
        reed_solomon_erasure::Error::TooFewShards => ErasureError::TooFewShards,
        reed_solomon_erasure::Error::TooManyShards => ErasureError::TooManyShards,
        reed_solomon_erasure::Error::EmptyShard => ErasureError::EmptyShard,
        reed_solomon_erasure::Error::IncorrectShardSize => ErasureError::IncorrectShardSize,
        reed_solomon_erasure::Error::TooFewShardsPresent => ErasureError::TooFewShardsPresent,
        _ => ErasureError::Other,
    })
}

impl ErasureCoder {
    pub closed spec fn data_count(&self) -> nat {
        self.data_shards as nat
    }

    pub closed spec fn parity_count(&self) -> nat {
        self.parity_shards as nat
    }

    /// The counts are ones that the codec accepts.
    pub closed spec fn wf(&self) -> bool {
        &&& self.data_shards > 0
        &&& self.parity_shards > 0
        &&& self.data_shards + self.parity_shards <= 256
    }

    /// A coder for `data_shards` data and `parity_shards` parity shards.
    pub fn new(data_shards: usize, parity_shards: usize) -> (r: Self)
        requires
            data_shards > 0,
            parity_shards > 0,
            data_shards + parity_shards <= 256,
        ensures
            r.wf(),
            r.data_count() == data_shards,
            r.parity_count() == parity_shards,
    {
        ErasureCoder { data_shards, parity_shards }
    }

    /// Fills the parity slots of a full list of equally sized shards from its data shards.
    pub fn encode(&self, data: &[Vec<u8>]) -> (r: Vec<Vec<u8>>)
        requires
            self.wf(),
            encode_outcome(shards_view(data@), self.data_count(), self.parity_count()) is Ok,
        ensures
            shards_view(r@).subrange(0, self.data_count() as int) == shards_view(data@).subrange(0, self.data_count() as int),
            is_codeword(shards_view(r@), self.data_count(), self.parity_count()),
    {
        let mut shards: Vec<Vec<u8>> = Vec::new();
        let mut i: usize = 0;
        while i < data.len()
            invariant
                i <= data@.len(),
                shards_view(shards@) == shards_view(data@).subrange(0, i as int),
            decreases data@.len() - i,
        {
            let mut s: Vec<u8> = Vec::new();
            crate::audit_log::push_bytes(&mut s, data[i].as_slice());
            assert(s@ =~= data@[i as int]@);
            let ghost prev = shards@;
            shards.push(s);
            assert(shards@ == prev.push(s));
            assert(shards_view(shards@) =~= shards_view(prev).push(data@[i as int]@));
            i = i + 1;
            assert(shards_view(shards@) =~= shards_view(data@).subrange(0, i as int));
        }
        assert(shards_view(data@).subrange(0, data@.len() as int) =~= shards_view(data@));
        let ghost before = shards_view(shards@);
        let res = rs_encode(self, &mut shards);
        proof {
            let c = shards_view(shards@);
            assert forall|i: int| 0 <= i < c.len() implies (#[trigger] c[i]).len() == c[0].len() by {
                assert(before[i].len() == before[0].len());
            }
        }
        shards
    }

    /// Restores missing shards in place, when enough are present.
    pub fn reconstruct(&self, shards: &mut Vec<Option<Vec<u8>>>) -> (r: Result<(), ErasureError>)
        requires
            self.wf(),
        ensures
            r == reconstruct_outcome(opt_shards_view(old(shards)@), self.data_count(), self.parity_count()),
            r is Err ==> opt_shards_view(final(shards)@) == opt_shards_view(old(shards)@),
            r is Ok ==> forall|i: int| 0 <= i < final(shards)@.len() ==> (#[trigger] final(shards)@[i]) is Some,
            forall|c: Seq<Seq<u8>>|
                #[trigger] is_codeword(c, self.data_count(), self.parity_count())
                    && agrees(opt_shards_view(old(shards)@), c) && r is Ok ==> opt_shards_view(final(shards)@) == all_present(c),
    {
        rs_reconstruct(self, shards)
    }
}

/// Dropping at most `parity` shards of a codeword leaves shards from which
/// reconstruction succeeds, and they agree with the codeword, so that
/// reconstruction gives the codeword back.
pub proof fn lemma_erasures_recoverable(c: Seq<Seq<u8>>, d: nat, p: nat, keep: Seq<bool>)
    requires
        is_codeword(c, d, p),
        keep.len() == c.len(),
        count_present(erase(c, keep)) >= d,
    ensures
        agrees(erase(c, keep), c),
        reconstruct_outcome(erase(c, keep), d, p) == Ok::<(), ErasureError>(()),
{
    lemma_scan_codeword(c, keep, 0, None);
}

/// The shards of `c` that `keep` keeps.
pub open spec fn erase(c: Seq<Seq<u8>>, keep: Seq<bool>) -> Seq<Option<Seq<u8>>> {
    Seq::new(c.len(), |i: int| if keep[i] { Some(c[i]) } else { None })
}

proof fn lemma_scan_codeword(c: Seq<Seq<u8>>, keep: Seq<bool>, i: int, seen: Option<nat>)
    requires
        c.len() > 0,
        c[0].len() > 0,
        forall|j: int| 0 <= j < c.len() ==> (#[trigger] c[j]).len() == c[0].len(),
        keep.len() == c.len(),
        0 <= i,
        seen is Some ==> seen.unwrap() == c[0].len(),
    ensures
        scan_present(erase(c, keep), i, seen) is None,
    decreases c.len() - i,
{
    if i < c.len() {
        lemma_scan_codeword(c, keep, i + 1, if keep[i] { Some(c[0].len()) } else { seen });
    }
}

} // verus!
