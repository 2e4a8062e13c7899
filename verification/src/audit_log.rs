//! An append-only audit log kept as a Keccak-256 Merkle tree, with inclusion
//! proofs for its entries.
//!
//! Leaves are the Keccak-256 digests of serialized entries. A level with an
//! odd number of nodes pairs its last node with itself. An inclusion proof
//! lists, from the leaf upwards, each sibling and whether it sits to the right.
use vstd::prelude::*;
use crate::crypto::{keccak256, keccak256_of};

verus! {

/// One audited action.
#[derive(Clone)]
pub struct AuditEntry {
    pub timestamp: u64,
    pub action_type: [u8; 4],
    pub data_hash: [u8; 32],
    pub parties: Vec<[u8; 32]>,
    pub zk_proof: Option<Vec<u8>>,
}

/// Proof that a leaf is in the tree whose root is `root`, at position `index`.
pub struct MerkleProof {
    pub root: [u8; 32],
    pub path: Vec<([u8; 32], bool)>,
    pub index: u64,
}

/// The audit log.
pub struct AuditMerkleTree {
    leaves: Vec<[u8; 32]>,
    leaf_index: u64,
}

/// Little-endian bytes of a `u64`.
pub open spec fn le_bytes(v: u64) -> Seq<u8> {
    Seq::new(8, |i: int| ((v >> ((8 * i) as u64)) & 0xff) as u8)
}

/// The concatenation of a list of 32-byte values.
pub open spec fn flatten_hashes(hs: Seq<[u8; 32]>) -> Seq<u8>
    decreases hs.len(),
{
    if hs.len() == 0 {
        Seq::empty()
    } else {
        flatten_hashes(hs.drop_last()) + hs.last()@
    }
}

/// The concatenation of `hs` is 32 bytes per value, and byte `j` of value `i`
/// stands at `32 * i + j`.
pub proof fn lemma_flatten_hashes_layout(hs: Seq<[u8; 32]>)
    ensures
        flatten_hashes(hs).len() == 32 * hs.len(),
        forall|i: int, j: int|
            0 <= i < hs.len() && 0 <= j < 32 ==> #[trigger] flatten_hashes(hs)[32 * i + j] == hs[i]@[j],
    decreases hs.len(),
{
    if hs.len() > 0 {
        let init = hs.drop_last();
        lemma_flatten_hashes_layout(init);
        assert forall|i: int, j: int| 0 <= i < hs.len() && 0 <= j < 32 implies #[trigger] flatten_hashes(hs)[32 * i + j] == hs[i]@[j] by {
            if i < hs.len() - 1 {
                assert(init[i] == hs[i]);
                assert(flatten_hashes(init)[32 * i + j] == init[i]@[j]);
            }
        }
    }
}

/// Concatenations of 32-byte values are equal only for equal lists.
pub proof fn lemma_flatten_hashes_injective(a: Seq<[u8; 32]>, b: Seq<[u8; 32]>)
    requires
        flatten_hashes(a) == flatten_hashes(b),
    ensures
        a.len() == b.len(),
        forall|i: int| 0 <= i < a.len() ==> (#[trigger] a[i])@ == b[i]@,
{
    lemma_flatten_hashes_layout(a);
    lemma_flatten_hashes_layout(b);
    assert forall|i: int| 0 <= i < a.len() implies (#[trigger] a[i])@ == b[i]@ by {
        assert(a.len() == b.len());
        assert forall|j: int| 0 <= j < 32 implies a[i]@[j] == b[i]@[j] by {
            assert(flatten_hashes(a)[32 * i + j] == a[i]@[j]);
            assert(flatten_hashes(b)[32 * i + j] == b[i]@[j]);
        }
        assert(a[i]@ =~= b[i]@);
    }
}

/// Encoding of an optional byte string: a presence byte, then length and bytes.
pub open spec fn option_bytes(o: Option<Vec<u8>>) -> Seq<u8> {
    match o {
        None => seq![0u8],
        Some(v) => seq![1u8] + le_bytes(v@.len() as u64) + v@,
    }
}

/// The canonical encoding of an entry: each field in order, integers
/// little-endian, lists preceded by their length as a `u64`.
pub open spec fn entry_bytes(e: AuditEntry) -> Seq<u8> {
    le_bytes(e.timestamp) + e.action_type@ + e.data_hash@ + le_bytes(e.parties@.len() as u64)
        + flatten_hashes(e.parties@) + option_bytes(e.zk_proof)
}

/// The leaf recorded for an entry.
pub open spec fn entry_leaf(e: AuditEntry) -> Seq<u8> {
    keccak256_of(entry_bytes(e))
}

/// The parent of two nodes.
pub open spec fn node_hash(l: Seq<u8>, r: Seq<u8>) -> Seq<u8> {
    keccak256_of(l + r)
}

/// The level above `level`; an unpaired last node is paired with itself.
pub open spec fn next_level(level: Seq<Seq<u8>>) -> Seq<Seq<u8>> {
    Seq::new(
        ((level.len() + 1) / 2) as nat,
        |i: int|
            node_hash(
                level[2 * i],
                if 2 * i + 1 < level.len() {
                    level[2 * i + 1]
                } else {
                    level[2 * i]
                },
            ),
    )
}

/// The root of a non-empty level.
pub open spec fn merkle_root(level: Seq<Seq<u8>>) -> Seq<u8>
    decreases level.len(),
{
    if level.len() <= 1 {
        level[0]
    } else {
        merkle_root(next_level(level))
    }
}

/// The siblings from node `i` of `level` up to the root.
pub open spec fn merkle_path(level: Seq<Seq<u8>>, i: int) -> Seq<(Seq<u8>, bool)>
    decreases level.len(),
{
    if level.len() <= 1 {
        Seq::empty()
    } else {
        let right = i % 2 == 0;
        let sib = if right {
            if i + 1 < level.len() {
                level[i + 1]
            } else {
                level[i]
            }
        } else {
            level[i - 1]
        };
        seq![(sib, right)] + merkle_path(next_level(level), i / 2)
    }
}

/// The root that a leaf and a path lead to.
pub open spec fn root_from_path(leaf: Seq<u8>, path: Seq<(Seq<u8>, bool)>) -> Seq<u8>
    decreases path.len(),
{
    if path.len() == 0 {
        leaf
    } else {
        let h = if path[0].1 {
            node_hash(leaf, path[0].0)
        } else {
            node_hash(path[0].0, leaf)
        };
        root_from_path(h, path.drop_first())
    }
}

/// The hashes of a list of 32-byte values.
pub open spec fn hashes_view(hs: Seq<[u8; 32]>) -> Seq<Seq<u8>> {
    hs.map_values(|h: [u8; 32]| h@)
}

/// The abstract form of a path.
pub open spec fn path_view(p: Seq<([u8; 32], bool)>) -> Seq<(Seq<u8>, bool)> {
    p.map_values(|e: ([u8; 32], bool)| (e.0@, e.1))
}

impl AuditMerkleTree {
    /// The leaves, oldest first.
    pub closed spec fn leaves_view(&self) -> Seq<Seq<u8>> {
        hashes_view(self.leaves@)
    }

    /// The counter of appended leaves agrees with the leaves.
    pub closed spec fn wf(&self) -> bool {
        self.leaf_index == self.leaves@.len()
    }

    /// An empty log.
    pub fn new() -> (t: Self)
        ensures
            t.wf(),
            t.leaves_view() == Seq::<Seq<u8>>::empty(),
    {
        let t = AuditMerkleTree { leaves: Vec::new(), leaf_index: 0 };
        assert(t.leaves_view() =~= Seq::<Seq<u8>>::empty());
        t
    }

    /// The number of leaves.
    pub fn leaf_count(&self) -> (r: u64)
        requires
            self.wf(),
        ensures
            r == self.leaves_view().len(),
    {
        self.leaf_index
    }

    /// Appends a leaf.
    pub fn append_leaf(&mut self, leaf: [u8; 32])
        requires
            old(self).wf(),
            old(self).leaves_view().len() < u64::MAX,
        ensures
            final(self).wf(),
            final(self).leaves_view() == old(self).leaves_view().push(leaf@),
    {
        self.leaves.push(leaf);
        self.leaf_index = self.leaf_index + 1;
        assert(self.leaves_view() =~= old(self).leaves_view().push(leaf@));
    }

    /// Appends an entry, returning its leaf: the Keccak-256 digest of its encoding.
    pub fn append_entry(&mut self, entry: AuditEntry) -> (h: [u8; 32])
        requires
            old(self).wf(),
            old(self).leaves_view().len() < u64::MAX,
        ensures
            final(self).wf(),
            h@ == entry_leaf(entry),
            final(self).leaves_view() == old(self).leaves_view().push(h@),
    {
        let leaf_data = Self::serialize_entry(&entry);
        let leaf_hash = keccak256(leaf_data.as_slice());
        self.append_leaf(leaf_hash);
        leaf_hash
    }

    /// The root of the log, if it has a leaf.
    pub fn root(&self) -> (r: Option<[u8; 32]>)
        requires
            self.wf(),
        ensures
            r is None <==> self.leaves_view().len() == 0,
            r matches Some(h) ==> h@ == merkle_root(self.leaves_view()),
    {
        if self.leaves.len() == 0 {
            return None;
        }
        let mut level = copy_hashes(&self.leaves);
        while level.len() > 1
            invariant
                level@.len() >= 1,
                merkle_root(hashes_view(level@)) == merkle_root(self.leaves_view()),
            decreases level@.len(),
        {
            level = next_level_exec(&level);
        }
        Some(level[0])
    }

    /// The inclusion proof of the leaf at `index`, if there is one.
    pub fn generate_inclusion_proof(&self, index: u64) -> (r: Option<MerkleProof>)
        requires
            self.wf(),
        ensures
            r is None <==> index >= self.leaves_view().len(),
            r matches Some(p) ==> {
                &&& p.index == index
                &&& p.root@ == merkle_root(self.leaves_view())
                &&& path_view(p.path@) == merkle_path(self.leaves_view(), index as int)
            },
    {
        if index >= self.leaf_index {
            return None;
        }
        let mut level = copy_hashes(&self.leaves);
        let mut idx: usize = index as usize;
        let mut path: Vec<([u8; 32], bool)> = Vec::new();
        assert(path_view(path@) + merkle_path(hashes_view(level@), idx as int) =~= merkle_path(
            self.leaves_view(),
            index as int,
        ));
        while level.len() > 1
            invariant
                level@.len() >= 1,
                idx < level@.len(),
                merkle_root(hashes_view(level@)) == merkle_root(self.leaves_view()),
                path_view(path@) + merkle_path(hashes_view(level@), idx as int) == merkle_path(
                    self.leaves_view(),
                    index as int,
                ),
            decreases level@.len(),
        {
            let ghost lv = hashes_view(level@);
            let right = idx % 2 == 0;
            let sib = if right {
                if idx + 1 < level.len() {
                    level[idx + 1]
                } else {
                    level[idx]
                }
            } else {
                level[idx - 1]
            };
            let ghost old_path = path@;
            path.push((sib, right));
            let ghost rest = merkle_path(next_level(lv), (idx / 2) as int);
            assert(merkle_path(lv, idx as int) == seq![(sib@, right)] + rest);
            assert(path_view(path@) =~= path_view(old_path).push((sib@, right)));
            assert(path_view(path@) + rest =~= path_view(old_path) + (seq![(sib@, right)] + rest));
            level = next_level_exec(&level);
            idx = idx / 2;
        }
        Some(MerkleProof { root: level[0], path, index })
    }

    /// The canonical encoding of an entry (see `entry_bytes`).
    pub fn serialize_entry(entry: &AuditEntry) -> (r: Vec<u8>)
        ensures
            r@ == entry_bytes(*entry),
    {
        let mut bytes: Vec<u8> = Vec::new();
        push_u64_le(&mut bytes, entry.timestamp);
        push_bytes(&mut bytes, &entry.action_type);
        push_bytes(&mut bytes, &entry.data_hash);
        push_u64_le(&mut bytes, entry.parties.len() as u64);
        let ghost before = bytes@;
        let mut i: usize = 0;
        while i < entry.parties.len()
            invariant
                i <= entry.parties@.len(),
                bytes@ == before + flatten_hashes(entry.parties@.subrange(0, i as int)),
            decreases entry.parties@.len() - i,
        {
            let ghost prev = bytes@;
            push_bytes(&mut bytes, &entry.parties[i]);
            assert(entry.parties@.subrange(0, i + 1).drop_last() =~= entry.parties@.subrange(
                0,
                i as int,
            ));
            assert(bytes@ =~= before + flatten_hashes(entry.parties@.subrange(0, i + 1)));
            i = i + 1;
        }
        assert(entry.parties@.subrange(0, entry.parties@.len() as int) =~= entry.parties@);
        let ghost mid = bytes@;
        match &entry.zk_proof {
            None => {
                bytes.push(0u8);
            },
            Some(v) => {
                bytes.push(1u8);
                push_u64_le(&mut bytes, v.len() as u64);
                push_bytes(&mut bytes, v.as_slice());
            },
        }
        assert(bytes@ =~= entry_bytes(*entry));
        bytes
    }
}

impl MerkleProof {
    /// Whether `leaf` and this proof's path lead to this proof's root.
    pub fn verify_inclusion(&self, leaf: &[u8; 32]) -> (r: bool)
        ensures
            r == (root_from_path(leaf@, path_view(self.path@)) == self.root@),
    {
        let ghost pv = path_view(self.path@);
        let mut h: [u8; 32] = *leaf;
        let mut k: usize = 0;
        assert(pv.subrange(0, pv.len() as int) =~= pv);
        while k < self.path.len()
            invariant
                pv == path_view(self.path@),
                k <= pv.len(),
                root_from_path(leaf@, pv) == root_from_path(h@, pv.subrange(k as int, pv.len() as int)),
            decreases pv.len() - k,
        {
            let (sib, right) = self.path[k];
            let ghost sub = pv.subrange(k as int, pv.len() as int);
            assert(sub[0] == (sib@, right));
            assert(sub.drop_first() =~= pv.subrange(k + 1, pv.len() as int));
            h = if right {
                hash_pair(&h, &sib)
            } else {
                hash_pair(&sib, &h)
            };
            k = k + 1;
        }
        assert(pv.subrange(pv.len() as int, pv.len() as int) =~= Seq::<(Seq<u8>, bool)>::empty());
        bytes32_eq(&h, &self.root)
    }
}

/// Whether two 32-byte values are equal.
pub fn bytes32_eq(a: &[u8; 32], b: &[u8; 32]) -> (r: bool)
    ensures
        r == (a@ == b@),
{
    let mut i: usize = 0;
    while i < 32
        invariant
            i <= 32,
            a@.len() == 32,
            b@.len() == 32,
            forall|j: int| 0 <= j < i ==> a@[j] == b@[j],
        decreases 32 - i,
    {
        if a[i] != b[i] {
            return false;
        }
        i = i + 1;
    }
    assert(a@ =~= b@);
    true
}

/// Appends the bytes of `s`.
pub fn push_bytes(buf: &mut Vec<u8>, s: &[u8])
    ensures
        final(buf)@ == old(buf)@ + s@,
{
    let mut i: usize = 0;
    while i < s.len()
        invariant
            i <= s@.len(),
            buf@ == old(buf)@ + s@.subrange(0, i as int),
        decreases s@.len() - i,
    {
        buf.push(s[i]);
        assert(buf@ =~= old(buf)@ + s@.subrange(0, i + 1));
        i = i + 1;
    }
    assert(s@.subrange(0, s@.len() as int) =~= s@);
}

/// Appends the little-endian bytes of `v`.
pub fn push_u64_le(buf: &mut Vec<u8>, v: u64)
    ensures
        final(buf)@ == old(buf)@ + le_bytes(v),
{
    let mut i: u64 = 0;
    while i < 8
        invariant
            i <= 8,
            buf@ == old(buf)@ + le_bytes(v).subrange(0, i as int),
        decreases 8 - i,
    {
        buf.push(((v >> (8 * i)) & 0xff) as u8);
        assert(buf@ =~= old(buf)@ + le_bytes(v).subrange(0, i + 1));
        i = i + 1;
    }
    assert(le_bytes(v).subrange(0, 8) =~= le_bytes(v));
}

/// The parent of two nodes.
pub fn hash_pair(l: &[u8; 32], r: &[u8; 32]) -> (h: [u8; 32])
    ensures
        h@ == node_hash(l@, r@),
{
    let mut buf: Vec<u8> = Vec::new();
    push_bytes(&mut buf, l);
    push_bytes(&mut buf, r);
    assert(buf@ =~= l@ + r@);
    keccak256(buf.as_slice())
}

fn copy_hashes(v: &Vec<[u8; 32]>) -> (r: Vec<[u8; 32]>)
    ensures
        r@ == v@,
{
    let mut r: Vec<[u8; 32]> = Vec::new();
    let mut i: usize = 0;
    while i < v.len()
        invariant
            i <= v@.len(),
            r@ == v@.subrange(0, i as int),
        decreases v@.len() - i,
    {
        r.push(v[i]);
        assert(r@ =~= v@.subrange(0, i + 1));
        i = i + 1;
    }
    assert(v@.subrange(0, v@.len() as int) =~= v@);
    r
}

fn next_level_exec(level: &Vec<[u8; 32]>) -> (r: Vec<[u8; 32]>)
    requires
        level@.len() >= 2,
    ensures
        hashes_view(r@) == next_level(hashes_view(level@)),
        r@.len() < level@.len(),
        r@.len() >= 1,
        merkle_root(hashes_view(r@)) == merkle_root(hashes_view(level@)),
{
    let ghost lv = hashes_view(level@);
    let n = level.len();
    let m = n / 2 + n % 2;
    let mut r: Vec<[u8; 32]> = Vec::new();
    let mut j: usize = 0;
    while j < m
        invariant
            n == level@.len(),
            m == n / 2 + n % 2,
            lv == hashes_view(level@),
            j <= m,
            r@.len() == j,
            forall|t: int| 0 <= t < r@.len() ==> (#[trigger] r@[t])@ == next_level(lv)[t],
        decreases m - j,
    {
        let i = 2 * j;
        let l = level[i];
        let rr = if i + 1 < n {
            level[i + 1]
        } else {
            level[i]
        };
        let h = hash_pair(&l, &rr);
        r.push(h);
        j = j + 1;
    }
    assert(hashes_view(r@) =~= next_level(lv));
    r
}

/// A proof generated for leaf `i` leads from that leaf to the root.
pub proof fn lemma_merkle_path_reaches_root(level: Seq<Seq<u8>>, i: int)
    requires
        0 <= i < level.len(),
    ensures
        root_from_path(level[i], merkle_path(level, i)) == merkle_root(level),
    decreases level.len(),
{
    if level.len() <= 1 {
    } else {
        let nl = next_level(level);
        let path = merkle_path(level, i);
        assert(path.drop_first() =~= merkle_path(nl, i / 2));
        if i % 2 == 0 {
            assert(nl[i / 2] == node_hash(level[i], path[0].0));
        } else {
            assert(nl[i / 2] == node_hash(path[0].0, level[i]));
        }
        lemma_merkle_path_reaches_root(nl, i / 2);
    }
}

/// The inclusion proof that the log generates for any of its leaves verifies
/// against that leaf.
pub proof fn lemma_generated_proof_verifies(tree: AuditMerkleTree, index: int, proof: MerkleProof)
    requires
        tree.wf(),
        0 <= index < tree.leaves_view().len(),
        proof.root@ == merkle_root(tree.leaves_view()),
        path_view(proof.path@) == merkle_path(tree.leaves_view(), index),
    ensures
        root_from_path(tree.leaves_view()[index], path_view(proof.path@)) == proof.root@,
{
    lemma_merkle_path_reaches_root(tree.leaves_view(), index);
}

} // verus!
