//! Append-only audit ledger: a SHA-256 hash chain of blocks, fed through data-source plugins.
//!
//! The ledger lives in memory as the sequence of blocks read from its file; the caller
//! reads and appends the file, this module decides and checks everything else.
use vstd::prelude::*;
use crate::digest::{sha256, sha256_of, hex_lower, to_hex};
use crate::text::{push_le, push_utf8, push_str, push_char, le_bytes, byte_bound, lemma_le_bytes_injective, owned, list_contains, tally, distinct_texts, texts, is_tally_of, is_distinct_of};

verus! {

/// One ledger record.
pub struct Block {
    /// Unix timestamp of block creation.
    pub timestamp: u64,
    /// Block height in the chain (the first block has height 1).
    pub height: u64,
    /// Hash of the previous block (empty for the first block).
    pub prev_hash: String,
    /// Hash of this block.
    pub hash: String,
    /// Block producer (the plugin that built it).
    pub producer: String,
    /// Category of the recorded data.
    pub category: String,
    /// Action within the category.
    pub action: String,
    /// User or system that triggered the change.
    pub user: String,
    /// Host that recorded the block.
    pub hostname: String,
    /// Process that recorded the block.
    pub pid: u32,
    /// Payload, as compact JSON text.
    pub data: String,
    /// String-valued metadata entries, in ascending key order.
    pub metadata: Vec<(String, String)>,
    /// Signature (unused so far).
    pub signature: Option<String>,
}

/// The mathematical content of a block.
pub struct BlockView {
    pub timestamp: u64,
    pub height: u64,
    pub prev_hash: Seq<char>,
    pub hash: Seq<char>,
    pub producer: Seq<char>,
    pub category: Seq<char>,
    pub action: Seq<char>,
    pub user: Seq<char>,
    pub hostname: Seq<char>,
    pub pid: u32,
    pub data: Seq<char>,
    pub metadata: Seq<(String, String)>,
    pub signature: Option<Seq<char>>,
}

pub open spec fn opt_view(o: Option<String>) -> Option<Seq<char>> {
    match o {
        Some(s) => Some(s@),
        None => None,
    }
}

impl View for Block {
    type V = BlockView;

    open spec fn view(&self) -> BlockView {
        BlockView {
            timestamp: self.timestamp,
            height: self.height,
            prev_hash: self.prev_hash@,
            hash: self.hash@,
            producer: self.producer@,
            category: self.category@,
            action: self.action@,
            user: self.user@,
            hostname: self.hostname@,
            pid: self.pid,
            data: self.data@,
            metadata: self.metadata@,
            signature: opt_view(self.signature),
        }
    }
}

/// Copies a list of string pairs.
pub fn copy_pairs(p: &Vec<(String, String)>) -> (r: Vec<(String, String)>)
    ensures
        r@ == p@,
{
    let mut r: Vec<(String, String)> = Vec::new();
    let mut i: usize = 0;
    while i < p.len()
        invariant
            i <= p@.len(),
            r@ == p@.subrange(0, i as int),
        decreases p@.len() - i,
    {
        let k = p[i].0.clone();
        let v = p[i].1.clone();
        r.push((k, v));
        proof {
            assert(r@ =~= p@.subrange(0, i + 1));
        }
        i = i + 1;
    }
    assert(p@.subrange(0, p@.len() as int) =~= p@);
    r
}

impl Block {
    /// An independent copy of this block.
    pub fn copy(&self) -> (r: Block)
        ensures
            r@ == self@,
    {
        let signature = match &self.signature {
            Some(s) => Some(s.clone()),
            None => None,
        };
        Block {
            timestamp: self.timestamp,
            height: self.height,
            prev_hash: self.prev_hash.clone(),
            hash: self.hash.clone(),
            producer: self.producer.clone(),
            category: self.category.clone(),
            action: self.action.clone(),
            user: self.user.clone(),
            hostname: self.hostname.clone(),
            pid: self.pid,
            data: self.data.clone(),
            metadata: copy_pairs(&self.metadata),
            signature,
        }
    }
}

/// Metadata rendered as `key:value` pairs, concatenated in order.
pub open spec fn metadata_text(m: Seq<(String, String)>) -> Seq<char>
    decreases m.len(),
{
    if m.len() == 0 {
        Seq::empty()
    } else {
        metadata_text(m.drop_last()) + m.last().0@ + seq![':'] + m.last().1@
    }
}

/// The bytes a block's hash covers: every field but `hash` and `signature`.
pub open spec fn hash_input(b: BlockView) -> Seq<u8> {
    le_bytes(b.height as nat, 8) + vstd::utf8::encode_utf8(b.prev_hash) + le_bytes(b.timestamp as nat, 8)
        + vstd::utf8::encode_utf8(b.producer) + vstd::utf8::encode_utf8(b.category) + vstd::utf8::encode_utf8(b.action)
        + vstd::utf8::encode_utf8(b.user) + vstd::utf8::encode_utf8(b.hostname) + le_bytes(b.pid as nat, 4)
        + vstd::utf8::encode_utf8(b.data) + vstd::utf8::encode_utf8(metadata_text(b.metadata))
}

/// The hash a block must carry: lowercase hex of the SHA-256 digest of its hash input.
#[verifier::opaque]
pub open spec fn block_digest(b: BlockView) -> Seq<char> {
    hex_lower(sha256_of(hash_input(b)))
}

/// A block's digest does not depend on the hash it carries.
pub proof fn lemma_digest_ignores_hash(b: BlockView, h: Seq<char>)
    ensures
        block_digest(BlockView { hash: h, ..b }) == block_digest(b),
{
    reveal(block_digest);
    assert(hash_input(BlockView { hash: h, ..b }) == hash_input(b));
}

fn metadata_string(m: &Vec<(String, String)>) -> (r: String)
    ensures
        r@ == metadata_text(m@),
{
    let mut r = String::new();
    let mut i: usize = 0;
    while i < m.len()
        invariant
            i <= m@.len(),
            r@ == metadata_text(m@.subrange(0, i as int)),
        decreases m@.len() - i,
    {
        push_str(&mut r, m[i].0.as_str());
        push_char(&mut r, ':');
        push_str(&mut r, m[i].1.as_str());
        proof {
            let s = m@.subrange(0, i + 1);
            assert(s.drop_last() =~= m@.subrange(0, i as int));
            assert(r@ =~= metadata_text(s));
        }
        i = i + 1;
    }
    assert(m@.subrange(0, m@.len() as int) =~= m@);
    r
}

/// The hash of a block as the ledger computes it.
pub fn calculate_hash(block: &Block) -> (r: String)
    ensures
        r@ == block_digest(block@),
{
    let mut input: Vec<u8> = Vec::new();
    push_le(&mut input, block.height, 8);
    push_utf8(&mut input, block.prev_hash.as_str());
    push_le(&mut input, block.timestamp, 8);
    push_utf8(&mut input, block.producer.as_str());
    push_utf8(&mut input, block.category.as_str());
    push_utf8(&mut input, block.action.as_str());
    push_utf8(&mut input, block.user.as_str());
    push_utf8(&mut input, block.hostname.as_str());
    push_le(&mut input, block.pid as u64, 4);
    push_utf8(&mut input, block.data.as_str());
    let meta = metadata_string(&block.metadata);
    push_utf8(&mut input, meta.as_str());
    assert(input@ =~= hash_input(block@));
    let digest = sha256(input.as_slice());
    let r = to_hex(digest.as_slice());
    proof {
        reveal(block_digest);
    }
    r
}


/// The views of a list of blocks, in order.
pub open spec fn views(bs: Seq<Block>) -> Seq<BlockView>
    decreases bs.len(),
{
    if bs.len() == 0 {
        Seq::empty()
    } else {
        views(bs.drop_last()).push(bs.last()@)
    }
}

pub proof fn lemma_views_push(bs: Seq<Block>, b: Block)
    ensures
        views(bs.push(b)) == views(bs).push(b@),
{
    assert(bs.push(b).drop_last() =~= bs);
}

pub proof fn lemma_views_len(bs: Seq<Block>)
    ensures
        views(bs).len() == bs.len(),
        forall|i: int| 0 <= i < bs.len() ==> #[trigger] views(bs)[i] == bs[i]@,
    decreases bs.len(),
{
    if bs.len() > 0 {
        lemma_views_len(bs.drop_last());
    }
}

/// Errors the ledger reports.
pub enum LedgerError {
    /// A block without a category.
    EmptyCategory,
    /// A block without an action.
    EmptyAction,
    /// A block without a producer.
    EmptyProducer,
    /// A sealed block whose hash does not match its content.
    HashVerificationFailed,
    /// No plugin accepts data of this category.
    NoSuitablePlugin(String),
}

/// Height of the last block, 0 for an empty chain.
pub open spec fn last_height(bs: Seq<Block>) -> u64 {
    if bs.len() == 0 {
        0
    } else {
        bs.last().height
    }
}

/// Hash of the last block, empty for an empty chain.
pub open spec fn last_hash_of(bs: Seq<Block>) -> Seq<char> {
    if bs.len() == 0 {
        Seq::empty()
    } else {
        bs.last().hash@
    }
}

/// The first non-empty block hash, empty when there is none.
pub open spec fn first_nonempty_hash(bs: Seq<Block>) -> Seq<char>
    decreases bs.len(),
{
    if bs.len() == 0 {
        Seq::empty()
    } else if first_nonempty_hash(bs.drop_last()).len() > 0 {
        first_nonempty_hash(bs.drop_last())
    } else {
        bs.last().hash@
    }
}

/// A block completed for appending after a chain with the given tip: its height follows the
/// tip, it links to the tip's hash, and its hash covers its own content.
pub open spec fn sealed(b: BlockView, height: u64, last_hash: Seq<char>) -> BlockView {
    let linked = BlockView { height: (height + 1) as u64, prev_hash: last_hash, ..b };
    BlockView { hash: block_digest(linked), ..linked }
}

/// The blockchain ledger.
pub struct BlockchainLedger {
    /// Where the ledger file lives.
    pub path: String,
    /// Height of the last block.
    pub height: u64,
    /// Hash of the last block.
    pub last_hash: String,
    /// Hash of the first block, as found when the ledger was opened.
    pub genesis_hash: String,
    /// The blocks of the chain, oldest first.
    pub blocks: Vec<Block>,
}

impl BlockchainLedger {
    /// The chain tip matches the held blocks.
    pub open spec fn wf(&self) -> bool {
        &&& self.height == last_height(self.blocks@)
        &&& self.last_hash@ == last_hash_of(self.blocks@)
    }

    /// What `verify_chain` checks: heights count up from 1, every block links to its
    /// predecessor's hash, every hash covers its block, and the tip matches the last block.
    pub open spec fn chain_valid(&self) -> bool {
        let bs = self.blocks@;
        &&& forall|i: int| 0 <= i < bs.len() ==> #[trigger] bs[i].height == i + 1
        &&& forall|i: int|
            0 <= i < bs.len() ==> #[trigger] bs[i].prev_hash@ == (if i == 0 {
                Seq::empty()
            } else {
                bs[i - 1].hash@
            })
        &&& forall|i: int| 0 <= i < bs.len() ==> #[trigger] bs[i].hash@ == block_digest(bs[i]@)
        &&& self.height == bs.len()
        &&& self.last_hash@ == last_hash_of(bs)
    }

    /// Nothing visible changed between two ledger states.
    pub open spec fn unchanged(&self, other: &Self) -> bool {
        &&& self.blocks@ == other.blocks@
        &&& self.height == other.height
        &&& self.last_hash@ == other.last_hash@
        &&& self.path@ == other.path@
    }

    /// What `add_block` does with `b`: a block without category, action or producer is
    /// refused (checked in that order) and nothing changes; any other block is sealed onto
    /// the chain and its hash returned.
    pub open spec fn add_block_post(
        old: &Self,
        new: &Self,
        b: BlockView,
        r: Result<String, LedgerError>,
    ) -> bool {
        if b.category.len() == 0 {
            r matches Err(LedgerError::EmptyCategory) && new.unchanged(old)
        } else if b.action.len() == 0 {
            r matches Err(LedgerError::EmptyAction) && new.unchanged(old)
        } else if b.producer.len() == 0 {
            r matches Err(LedgerError::EmptyProducer) && new.unchanged(old)
        } else {
            let s = sealed(b, old.height, old.last_hash@);
            &&& r matches Ok(h) && h@ == s.hash
            &&& new.blocks@.len() == old.blocks@.len() + 1
            &&& new.blocks@.drop_last() == old.blocks@
            &&& new.blocks@.last()@ == s
            &&& new.height == s.height
            &&& new.last_hash@ == s.hash
            &&& new.path@ == old.path@
        }
    }

    /// Opens a ledger over the blocks read from its file, in file order.
    pub fn new(path: String, existing: Vec<Block>) -> (r: BlockchainLedger)
        ensures
            r.wf(),
            r.blocks@ == existing@,
            r.path@ == path@,
            r.genesis_hash@ == first_nonempty_hash(existing@),
    {
        let mut height: u64 = 0;
        let mut last_hash = String::new();
        let mut genesis_hash = String::new();
        let mut i: usize = 0;
        while i < existing.len()
            invariant
                i <= existing@.len(),
                height == last_height(existing@.subrange(0, i as int)),
                last_hash@ == last_hash_of(existing@.subrange(0, i as int)),
                genesis_hash@ == first_nonempty_hash(existing@.subrange(0, i as int)),
            decreases existing@.len() - i,
        {
            let b = &existing[i];
            height = b.height;
            last_hash = b.hash.clone();
            if genesis_hash.as_str().is_empty() {
                genesis_hash = b.hash.clone();
            }
            proof {
                let s = existing@.subrange(0, i + 1);
                assert(s.drop_last() =~= existing@.subrange(0, i as int));
            }
            i = i + 1;
        }
        assert(existing@.subrange(0, existing@.len() as int) =~= existing@);
        BlockchainLedger { path, height, last_hash, genesis_hash, blocks: existing }
    }

    /// Checks the block fields that must not be empty.
    pub fn validate_block(block: &Block) -> (r: Result<(), LedgerError>)
        ensures
            block@.category.len() == 0 ==> r matches Err(LedgerError::EmptyCategory),
            block@.category.len() != 0 && block@.action.len() == 0 ==> r matches Err(
                LedgerError::EmptyAction,
            ),
            block@.category.len() != 0 && block@.action.len() != 0 && block@.producer.len() == 0
                ==> r matches Err(LedgerError::EmptyProducer),
            block@.category.len() != 0 && block@.action.len() != 0 && block@.producer.len() != 0
                ==> r is Ok,
    {
        if block.category.as_str().is_empty() {
            return Err(LedgerError::EmptyCategory);
        }
        if block.action.as_str().is_empty() {
            return Err(LedgerError::EmptyAction);
        }
        if block.producer.as_str().is_empty() {
            return Err(LedgerError::EmptyProducer);
        }
        Ok(())
    }

    /// Completes `block` for the current tip: sets its height, link and hash.
    pub fn seal_block(&self, block: Block) -> (r: Block)
        requires
            self.height < u64::MAX,
        ensures
            r@ == sealed(block@, self.height, self.last_hash@),
    {
        let mut b = block;
        b.height = self.height + 1;
        b.prev_hash = self.last_hash.clone();
        b.hash = calculate_hash(&b);
        b
    }

    /// Validates, seals and appends a block; returns its hash.
    pub fn add_block(&mut self, block: Block) -> (r: Result<String, LedgerError>)
        requires
            old(self).wf(),
            old(self).height < u64::MAX,
        ensures
            final(self).wf(),
            Self::add_block_post(old(self), final(self), block@, r),
            old(self).chain_valid() && r is Ok ==> final(self).chain_valid(),
    {
        match Self::validate_block(&block) {
            Err(e) => return Err(e),
            Ok(()) => {},
        }
        let complete = self.seal_block(block);
        let verify_hash = calculate_hash(&complete);
        proof {
            let linked = BlockView { height: (self.height + 1) as u64, prev_hash: self.last_hash@, ..block@ };
            lemma_digest_ignores_hash(linked, block_digest(linked));
        }
        if verify_hash != complete.hash {
            return Err(LedgerError::HashVerificationFailed);
        }
        let hash = complete.hash.clone();
        let ghost old_self = *self;
        self.height = complete.height;
        self.last_hash = complete.hash.clone();
        self.blocks.push(complete);
        proof {
            assert(self.blocks@.drop_last() =~= old_self.blocks@);
            if old_self.chain_valid() {
                lemma_append_sealed_keeps_chain_valid(&old_self, self);
            }
        }
        Ok(hash)
    }

    /// Checks the whole chain (see `chain_valid`).
    pub fn verify_chain(&self) -> (r: bool)
        ensures
            r == self.chain_valid(),
    {
        let mut prev_hash = String::new();
        let mut height: u64 = 0;
        let mut i: usize = 0;
        let n = self.blocks.len();
        while i < n
            invariant
                n == self.blocks@.len(),
                i <= n,
                height == i,
                prev_hash@ == last_hash_of(self.blocks@.subrange(0, i as int)),
                forall|j: int| 0 <= j < i ==> #[trigger] self.blocks@[j].height == j + 1,
                forall|j: int|
                    0 <= j < i ==> #[trigger] self.blocks@[j].prev_hash@ == (if j == 0 {
                        Seq::empty()
                    } else {
                        self.blocks@[j - 1].hash@
                    }),
                forall|j: int|
                    0 <= j < i ==> #[trigger] self.blocks@[j].hash@ == block_digest(
                        self.blocks@[j]@,
                    ),
            decreases n - i,
        {
            let block = &self.blocks[i];
            if block.height != height + 1 {
                return false;
            }
            if block.prev_hash != prev_hash {
                proof {
                    if i > 0 {
                        assert(self.blocks@.subrange(0, i as int).last() == self.blocks@[i - 1]);
                    }
                }
                return false;
            }
            let calculated = calculate_hash(block);
            if calculated != block.hash {
                return false;
            }
            prev_hash = block.hash.clone();
            height = block.height;
            proof {
                assert(self.blocks@.subrange(0, i + 1).last() == self.blocks@[i as int]);
                if i > 0 {
                    assert(self.blocks@.subrange(0, i as int).last() == self.blocks@[i - 1]);
                }
            }
            i = i + 1;
        }
        assert(self.blocks@.subrange(0, n as int) =~= self.blocks@);
        if height != self.height || prev_hash != self.last_hash {
            return false;
        }
        true
    }
}

/// Tampering is detected: in a valid chain, replacing one stored block by a copy with another
/// height, another link to its predecessor, or (all else kept) another hash leaves a chain
/// that `verify_chain` refuses.
pub proof fn law_tampered_block_breaks_chain(l: &BlockchainLedger, t: &BlockchainLedger, i: int, forged: Block)
    requires
        l.chain_valid(),
        0 <= i < l.blocks@.len(),
        t.blocks@ == l.blocks@.update(i, forged),
        forged.height != l.blocks@[i].height || forged.prev_hash@ != l.blocks@[i].prev_hash@ || (forged@
            == BlockView { hash: forged.hash@, ..l.blocks@[i]@ } && forged.hash@ != l.blocks@[i].hash@),
    ensures
        !t.chain_valid(),
{
    if t.chain_valid() {
        assert(t.blocks@[i] == forged);
        if forged.height == l.blocks@[i].height && forged.prev_hash@ == l.blocks@[i].prev_hash@ {
            lemma_digest_ignores_hash(l.blocks@[i]@, forged.hash@);
            assert(forged.hash@ == block_digest(forged@));
            assert(l.blocks@[i].hash@ == block_digest(l.blocks@[i]@));
        }
    }
}

/// `a` and `b` differ in exactly one of the fields a block's hash covers, the one at
/// position `k` in the order the hash takes them: height, link, timestamp, producer,
/// category, action, user, host, process, data, and metadata (as its text).
pub open spec fn differ_only_in_hashed(a: BlockView, b: BlockView, k: int) -> bool {
    &&& 0 <= k < 11
    &&& (k == 0 <==> a.height != b.height)
    &&& (k == 1 <==> a.prev_hash != b.prev_hash)
    &&& (k == 2 <==> a.timestamp != b.timestamp)
    &&& (k == 3 <==> a.producer != b.producer)
    &&& (k == 4 <==> a.category != b.category)
    &&& (k == 5 <==> a.action != b.action)
    &&& (k == 6 <==> a.user != b.user)
    &&& (k == 7 <==> a.hostname != b.hostname)
    &&& (k == 8 <==> a.pid != b.pid)
    &&& (k == 9 <==> a.data != b.data)
    &&& (k == 10 <==> metadata_text(a.metadata) != metadata_text(b.metadata))
}

/// The pieces of a block's hash input, in order.
spec fn hashed_pieces(b: BlockView) -> Seq<Seq<u8>> {
    seq![
        le_bytes(b.height as nat, 8),
        vstd::utf8::encode_utf8(b.prev_hash),
        le_bytes(b.timestamp as nat, 8),
        vstd::utf8::encode_utf8(b.producer),
        vstd::utf8::encode_utf8(b.category),
        vstd::utf8::encode_utf8(b.action),
        vstd::utf8::encode_utf8(b.user),
        vstd::utf8::encode_utf8(b.hostname),
        le_bytes(b.pid as nat, 4),
        vstd::utf8::encode_utf8(b.data),
        vstd::utf8::encode_utf8(metadata_text(b.metadata)),
    ]
}

/// The first `n` pieces, joined.
spec fn joined(p: Seq<Seq<u8>>, n: nat) -> Seq<u8>
    decreases n,
{
    if n == 0 {
        Seq::empty()
    } else {
        joined(p, (n - 1) as nat) + p[n - 1]
    }
}

#[verifier::spinoff_prover]
#[verifier::rlimit(40)]
proof fn lemma_hash_input_joined(b: BlockView)
    ensures
        hash_input(b) == joined(hashed_pieces(b), 11),
{
    let p = hashed_pieces(b);
    reveal_with_fuel(joined, 12);
    assert(joined(p, 1) =~= p[0]);
    assert(hash_input(b) == joined(p, 11));
}

proof fn lemma_joined_prefix(p: Seq<Seq<u8>>, q: Seq<Seq<u8>>, n: nat)
    requires
        n <= p.len(),
        n <= q.len(),
        forall|i: int| 0 <= i < n ==> p[i] == q[i],
    ensures
        joined(p, n) == joined(q, n),
    decreases n,
{
    if n > 0 {
        lemma_joined_prefix(p, q, (n - 1) as nat);
    }
}

proof fn lemma_joined_differs(p: Seq<Seq<u8>>, q: Seq<Seq<u8>>, n: nat, k: int, t: Seq<u8>)
    requires
        n <= p.len(),
        n <= q.len(),
        0 <= k < n,
        forall|i: int| 0 <= i < n && i != k ==> p[i] == q[i],
        p[k] != q[k],
    ensures
        joined(p, n) + t != joined(q, n) + t,
    decreases n,
{
    if n == k + 1 {
        lemma_joined_prefix(p, q, k as nat);
        let f = joined(p, k as nat);
        assert(joined(p, n) + t =~= f + p[k] + t);
        assert(joined(q, n) + t =~= f + q[k] + t);
        if f + p[k] + t == f + q[k] + t {
            assert(p[k].len() == q[k].len());
            assert(p[k] =~= (f + p[k] + t).subrange(f.len() as int, (f.len() + p[k].len()) as int));
            assert(q[k] =~= (f + q[k] + t).subrange(f.len() as int, (f.len() + q[k].len()) as int));
        }
    } else {
        let m = (n - 1) as nat;
        let t2 = p[m as int] + t;
        assert(joined(p, n) + t =~= joined(p, m) + t2);
        assert(joined(q, n) + t =~= joined(q, m) + t2);
        lemma_joined_differs(p, q, m, k, t2);
    }
}

/// A block's hash covers each of its fields: two blocks that differ in exactly one field
/// the hash covers have different hash inputs, so a stored block changed that way no longer
/// matches the hash it carries unless SHA-256 gives both inputs the same digest.
pub proof fn law_changed_content_changes_hashed_bytes(a: BlockView, b: BlockView, k: int)
    requires
        differ_only_in_hashed(a, b, k),
    ensures
        hash_input(a) != hash_input(b),
{
    let p = hashed_pieces(a);
    let q = hashed_pieces(b);
    assert(byte_bound(8) == 0x1_0000_0000_0000_0000nat) by {
        reveal_with_fuel(byte_bound, 9);
    }
    assert(byte_bound(4) == 0x1_0000_0000nat) by {
        reveal_with_fuel(byte_bound, 5);
    }
    assert(p[k] != q[k]) by {
        if p[k] == q[k] {
            if k == 0 {
                lemma_le_bytes_injective(a.height as nat, b.height as nat, 8);
            } else if k == 2 {
                lemma_le_bytes_injective(a.timestamp as nat, b.timestamp as nat, 8);
            } else if k == 8 {
                lemma_le_bytes_injective(a.pid as nat, b.pid as nat, 4);
            } else if k == 1 {
                vstd::utf8::encode_utf8_decode_utf8(a.prev_hash);
                vstd::utf8::encode_utf8_decode_utf8(b.prev_hash);
            } else if k == 3 {
                vstd::utf8::encode_utf8_decode_utf8(a.producer);
                vstd::utf8::encode_utf8_decode_utf8(b.producer);
            } else if k == 4 {
                vstd::utf8::encode_utf8_decode_utf8(a.category);
                vstd::utf8::encode_utf8_decode_utf8(b.category);
            } else if k == 5 {
                vstd::utf8::encode_utf8_decode_utf8(a.action);
                vstd::utf8::encode_utf8_decode_utf8(b.action);
            } else if k == 6 {
                vstd::utf8::encode_utf8_decode_utf8(a.user);
                vstd::utf8::encode_utf8_decode_utf8(b.user);
            } else if k == 7 {
                vstd::utf8::encode_utf8_decode_utf8(a.hostname);
                vstd::utf8::encode_utf8_decode_utf8(b.hostname);
            } else if k == 9 {
                vstd::utf8::encode_utf8_decode_utf8(a.data);
                vstd::utf8::encode_utf8_decode_utf8(b.data);
            } else {
                vstd::utf8::encode_utf8_decode_utf8(metadata_text(a.metadata));
                vstd::utf8::encode_utf8_decode_utf8(metadata_text(b.metadata));
            }
        }
    }
    lemma_hash_input_joined(a);
    lemma_hash_input_joined(b);
    lemma_joined_differs(p, q, 11, k, Seq::empty());
    assert(joined(p, 11) + Seq::<u8>::empty() =~= joined(p, 11));
    assert(joined(q, 11) + Seq::<u8>::empty() =~= joined(q, 11));
}

/// A ledger with no blocks is a valid chain.
pub proof fn law_empty_chain_valid(l: &BlockchainLedger)
    requires
        l.wf(),
        l.blocks@.len() == 0,
    ensures
        l.chain_valid(),
{
}

/// After a block is added, a lookup of the returned hash finds a block: the new one is the
/// last block and carries that hash.
pub proof fn law_added_block_is_found(old: &BlockchainLedger, new: &BlockchainLedger, b: BlockView, h: String)
    requires
        BlockchainLedger::add_block_post(old, new, b, Ok(h)),
    ensures
        new.blocks@.len() > 0,
        new.blocks@.last().hash@ == h@,
        exists|i: int| 0 <= i < new.blocks@.len() && #[trigger] new.blocks@[i].hash@ == h@,
{
    let n = new.blocks@.len() - 1;
    assert(new.blocks@[n] == new.blocks@.last());
}

/// Appending a block sealed for the tip of a valid chain gives a valid chain.
pub proof fn lemma_append_sealed_keeps_chain_valid(old: &BlockchainLedger, new: &BlockchainLedger)
    requires
        old.chain_valid(),
        old.height < u64::MAX,
        new.blocks@.len() == old.blocks@.len() + 1,
        new.blocks@.drop_last() == old.blocks@,
        new.blocks@.last()@ == sealed(new.blocks@.last()@, old.height, old.last_hash@),
        new.height == new.blocks@.last().height,
        new.last_hash@ == new.blocks@.last().hash@,
    ensures
        new.chain_valid(),
{
    let bs = new.blocks@;
    let n = old.blocks@.len() as int;
    let last = bs.last();
    assert(bs[n] == last);
    assert forall|i: int| 0 <= i < n implies bs[i] == old.blocks@[i] by {
        assert(bs.drop_last()[i] == bs[i]);
    }
    let linked = BlockView { height: (old.height + 1) as u64, prev_hash: old.last_hash@, ..last@ };
    assert(last@ == BlockView { hash: block_digest(linked), ..linked });
    lemma_digest_ignores_hash(linked, block_digest(linked));
    assert(block_digest(last@) == last.hash@);
    assert forall|i: int| 0 <= i < bs.len() implies #[trigger] bs[i].hash@ == block_digest(bs[i]@) by {
        if i < n {
            assert(bs[i] == old.blocks@[i]);
        }
    }
    assert forall|i: int| 0 <= i < bs.len() implies #[trigger] bs[i].height == i + 1 by {
        if i < n {
            assert(bs[i] == old.blocks@[i]);
        }
    }
    assert forall|i: int|
        0 <= i < bs.len() implies #[trigger] bs[i].prev_hash@ == (if i == 0 {
            Seq::empty()
        } else {
            bs[i - 1].hash@
        }) by {
        if i < n {
            assert(bs[i] == old.blocks@[i]);
            if i > 0 {
                assert(bs[i - 1] == old.blocks@[i - 1]);
            }
        } else if n > 0 {
            assert(bs[n - 1] == old.blocks@[n - 1]);
            assert(old.blocks@.last() == old.blocks@[n - 1]);
        }
    }
}


/// The fields of a plugin's input record that the plugins read.
pub struct LedgerInput {
    /// `category`, when it is a string.
    pub category: Option<String>,
    /// `action`, when it is a string.
    pub action: Option<String>,
    /// Whether the record has an `action` field at all.
    pub has_action: bool,
    /// `user`, when it is a string.
    pub user: Option<String>,
    /// `username`, when it is a string.
    pub username: Option<String>,
    /// Whether the record has a `username` field at all.
    pub has_username: bool,
    /// The compact JSON text of `details`, when present.
    pub details: Option<String>,
    /// The compact JSON text of `settings`, when present.
    pub settings: Option<String>,
    /// Whether `settings` is a JSON object.
    pub settings_is_object: bool,
    /// Whether the record has a `path` field.
    pub has_path: bool,
    /// Whether the record has a `device` field.
    pub has_device: bool,
    /// The string-valued entries of the `metadata` object, in key order.
    pub metadata: Vec<(String, String)>,
}

/// What a block records about where it was made.
pub struct BlockEnv {
    pub timestamp: u64,
    pub hostname: String,
    pub pid: u32,
}

/// The text of an optional string, or a default.
pub open spec fn text_or(o: Option<String>, d: Seq<char>) -> Seq<char> {
    match o {
        Some(s) => s@,
        None => d,
    }
}

fn text_or_exec(o: &Option<String>, d: &str) -> (r: String)
    ensures
        r@ == text_or(*o, d@),
{
    match o {
        Some(s) => s.clone(),
        None => owned(d),
    }
}

/// A list of strings spells exactly the given names, in order.
pub open spec fn spells(v: Seq<String>, names: Seq<Seq<char>>) -> bool {
    &&& v.len() == names.len()
    &&& forall|i: int| 0 <= i < v.len() ==> #[trigger] v[i]@ == names[i]
}

/// A block a plugin builds before the ledger seals it.
pub open spec fn plugin_block(
    producer: Seq<char>,
    category: Seq<char>,
    action: Seq<char>,
    user: Seq<char>,
    data: Seq<char>,
    metadata: Seq<(String, String)>,
    env: BlockEnv,
) -> BlockView {
    BlockView {
        timestamp: env.timestamp,
        height: 0,
        prev_hash: Seq::empty(),
        hash: Seq::empty(),
        producer,
        category,
        action,
        user,
        hostname: env.hostname@,
        pid: env.pid,
        data,
        metadata,
        signature: None,
    }
}

fn new_plugin_block(
    producer: &str,
    category: &str,
    action: String,
    user: String,
    data: String,
    metadata: &Vec<(String, String)>,
    env: &BlockEnv,
) -> (r: Block)
    ensures
        r@ == plugin_block(producer@, category@, action@, user@, data@, metadata@, *env),
{
    Block {
        timestamp: env.timestamp,
        height: 0,
        prev_hash: String::new(),
        hash: String::new(),
        producer: owned(producer),
        category: owned(category),
        action,
        user,
        hostname: env.hostname.clone(),
        pid: env.pid,
        data,
        metadata: copy_pairs(metadata),
        signature: None,
    }
}

/// Categories of the network plugin.
pub open spec fn network_categories() -> Seq<Seq<char>> {
    seq!["bridge"@, "interface"@, "connection"@, "port"@, "connectivity"@]
}

/// Categories of the settings plugin.
pub open spec fn settings_categories() -> Seq<Seq<char>> {
    seq!["config"@, "policy"@, "template"@, "parameter"@]
}

/// Categories of the user plugin.
pub open spec fn user_categories() -> Seq<Seq<char>> {
    seq!["authentication"@, "authorization"@, "session"@, "access"@]
}

/// Categories of the storage plugin.
pub open spec fn storage_categories() -> Seq<Seq<char>> {
    seq!["filesystem"@, "mount"@, "backup"@, "snapshot"@]
}

/// The block the network plugin builds from a record of category `c`.
pub open spec fn network_block(c: Seq<char>, input: LedgerInput, env: BlockEnv) -> BlockView {
    plugin_block(
        "network-plugin"@,
        c,
        text_or(input.action, "unknown"@),
        text_or(input.user, "system"@),
        text_or(input.details, "null"@),
        input.metadata@,
        env,
    )
}

/// The block the settings plugin builds from a record of category `c`.
pub open spec fn settings_block(c: Seq<char>, input: LedgerInput, env: BlockEnv) -> BlockView {
    plugin_block(
        "settings-plugin"@,
        c,
        text_or(input.action, "modified"@),
        text_or(input.user, "admin"@),
        text_or(input.settings, "null"@),
        input.metadata@,
        env,
    )
}

/// The block the user plugin builds from a record of category `c`.
pub open spec fn user_block(c: Seq<char>, input: LedgerInput, env: BlockEnv) -> BlockView {
    plugin_block(
        "user-plugin"@,
        c,
        text_or(input.action, "unknown"@),
        text_or(input.username, "unknown"@),
        text_or(input.details, "null"@),
        input.metadata@,
        env,
    )
}

/// The block the storage plugin builds from a record of category `c`.
pub open spec fn storage_block(c: Seq<char>, input: LedgerInput, env: BlockEnv) -> BlockView {
    plugin_block(
        "storage-plugin"@,
        c,
        text_or(input.action, "unknown"@),
        text_or(input.user, "system"@),
        text_or(input.details, "null"@),
        input.metadata@,
        env,
    )
}

/// The blocks a plugin with categories `cats` builds from a record: one block when the record's
/// category is one of them, none otherwise.
pub open spec fn plugin_output(
    cats: Seq<Seq<char>>,
    input: LedgerInput,
    build: spec_fn(Seq<char>) -> BlockView,
    out: Seq<Block>,
) -> bool {
    match input.category {
        Some(c) => if cats.contains(c@) {
            out.len() == 1 && out[0]@ == build(c@)
        } else {
            out.len() == 0
        },
        None => out.len() == 0,
    }
}

fn category_of(input: &LedgerInput, cats: &Vec<String>) -> (r: Option<String>)
    ensures
        match input.category {
            Some(c) => if (exists|i: int| 0 <= i < cats@.len() && #[trigger] cats@[i]@ == c@) {
                r matches Some(x) && x@ == c@
            } else {
                r is None
            },
            None => r is None,
        },
{
    match &input.category {
        Some(c) => if list_contains(cats, c.as_str()) {
            Some(c.clone())
        } else {
            None
        },
        None => None,
    }
}

proof fn lemma_spelled_contains(v: Seq<String>, names: Seq<Seq<char>>, c: Seq<char>)
    requires
        spells(v, names),
    ensures
        (exists|i: int| 0 <= i < v.len() && #[trigger] v[i]@ == c) == names.contains(c),
{
    if names.contains(c) {
        let k = choose|k: int| 0 <= k < names.len() && names[k] == c;
        assert(v[k]@ == c);
    }
}

/// Records network operations: bridges, interfaces, connections, ports, connectivity.
pub struct NetworkPlugin;

impl NetworkPlugin {
    pub fn name(&self) -> (r: String)
        ensures
            r@ == "network"@,
    {
        owned("network")
    }

    pub fn categories(&self) -> (r: Vec<String>)
        ensures
            spells(r@, network_categories()),
    {
        let mut v: Vec<String> = Vec::new();
        v.push(owned("bridge"));
        v.push(owned("interface"));
        v.push(owned("connection"));
        v.push(owned("port"));
        v.push(owned("connectivity"));
        v
    }

    /// A network record needs `action` and `details`.
    pub fn validate_data(&self, input: &LedgerInput) -> (r: bool)
        ensures
            r == (input.has_action && input.details is Some),
    {
        input.has_action && input.details.is_some()
    }

    pub fn create_block(&self, category: &str, input: &LedgerInput, env: &BlockEnv) -> (r: Block)
        ensures
            r@ == network_block(category@, *input, *env),
    {
        new_plugin_block(
            "network-plugin",
            category,
            text_or_exec(&input.action, "unknown"),
            text_or_exec(&input.user, "system"),
            text_or_exec(&input.details, "null"),
            &input.metadata,
            env,
        )
    }

    pub fn process_data(&self, input: &LedgerInput, env: &BlockEnv) -> (r: Vec<Block>)
        ensures
            plugin_output(network_categories(), *input, |c: Seq<char>| network_block(c, *input, *env), r@),
    {
        let cats = self.categories();
        let mut blocks: Vec<Block> = Vec::new();
        proof {
            if let Some(c) = &input.category {
                lemma_spelled_contains(cats@, network_categories(), c@);
            }
        }
        if let Some(c) = category_of(input, &cats) {
            blocks.push(self.create_block(c.as_str(), input, env));
        }
        blocks
    }
}

/// Records configuration changes: config, policy, template, parameter.
pub struct SettingsPlugin;

impl SettingsPlugin {
    pub fn name(&self) -> (r: String)
        ensures
            r@ == "settings"@,
    {
        owned("settings")
    }

    pub fn categories(&self) -> (r: Vec<String>)
        ensures
            spells(r@, settings_categories()),
    {
        let mut v: Vec<String> = Vec::new();
        v.push(owned("config"));
        v.push(owned("policy"));
        v.push(owned("template"));
        v.push(owned("parameter"));
        v
    }

    /// A settings record needs a `settings` object.
    pub fn validate_data(&self, input: &LedgerInput) -> (r: bool)
        ensures
            r == (input.settings is Some && input.settings_is_object),
    {
        input.settings.is_some() && input.settings_is_object
    }

    pub fn create_block(&self, category: &str, input: &LedgerInput, env: &BlockEnv) -> (r: Block)
        ensures
            r@ == settings_block(category@, *input, *env),
    {
        new_plugin_block(
            "settings-plugin",
            category,
            text_or_exec(&input.action, "modified"),
            text_or_exec(&input.user, "admin"),
            text_or_exec(&input.settings, "null"),
            &input.metadata,
            env,
        )
    }

    pub fn process_data(&self, input: &LedgerInput, env: &BlockEnv) -> (r: Vec<Block>)
        ensures
            plugin_output(settings_categories(), *input, |c: Seq<char>| settings_block(c, *input, *env), r@),
    {
        let cats = self.categories();
        let mut blocks: Vec<Block> = Vec::new();
        proof {
            if let Some(c) = &input.category {
                lemma_spelled_contains(cats@, settings_categories(), c@);
            }
        }
        if let Some(c) = category_of(input, &cats) {
            blocks.push(self.create_block(c.as_str(), input, env));
        }
        blocks
    }
}

/// Records authentication and authorization events.
pub struct UserPlugin;

impl UserPlugin {
    pub fn name(&self) -> (r: String)
        ensures
            r@ == "users"@,
    {
        owned("users")
    }

    pub fn categories(&self) -> (r: Vec<String>)
        ensures
            spells(r@, user_categories()),
    {
        let mut v: Vec<String> = Vec::new();
        v.push(owned("authentication"));
        v.push(owned("authorization"));
        v.push(owned("session"));
        v.push(owned("access"));
        v
    }

    /// A user record needs `username` and `action`.
    pub fn validate_data(&self, input: &LedgerInput) -> (r: bool)
        ensures
            r == (input.has_username && input.has_action),
    {
        input.has_username && input.has_action
    }

    pub fn create_block(&self, category: &str, input: &LedgerInput, env: &BlockEnv) -> (r: Block)
        ensures
            r@ == user_block(category@, *input, *env),
    {
        new_plugin_block(
            "user-plugin",
            category,
            text_or_exec(&input.action, "unknown"),
            text_or_exec(&input.username, "unknown"),
            text_or_exec(&input.details, "null"),
            &input.metadata,
            env,
        )
    }

    pub fn process_data(&self, input: &LedgerInput, env: &BlockEnv) -> (r: Vec<Block>)
        ensures
            plugin_output(user_categories(), *input, |c: Seq<char>| user_block(c, *input, *env), r@),
    {
        let cats = self.categories();
        let mut blocks: Vec<Block> = Vec::new();
        proof {
            if let Some(c) = &input.category {
                lemma_spelled_contains(cats@, user_categories(), c@);
            }
        }
        if let Some(c) = category_of(input, &cats) {
            blocks.push(self.create_block(c.as_str(), input, env));
        }
        blocks
    }
}

/// Records filesystem and mount operations.
pub struct StoragePlugin;

impl StoragePlugin {
    pub fn name(&self) -> (r: String)
        ensures
            r@ == "storage"@,
    {
        owned("storage")
    }

    pub fn categories(&self) -> (r: Vec<String>)
        ensures
            spells(r@, storage_categories()),
    {
        let mut v: Vec<String> = Vec::new();
        v.push(owned("filesystem"));
        v.push(owned("mount"));
        v.push(owned("backup"));
        v.push(owned("snapshot"));
        v
    }

    /// A storage record needs a `path` or a `device`.
    pub fn validate_data(&self, input: &LedgerInput) -> (r: bool)
        ensures
            r == (input.has_path || input.has_device),
    {
        input.has_path || input.has_device
    }

    pub fn create_block(&self, category: &str, input: &LedgerInput, env: &BlockEnv) -> (r: Block)
        ensures
            r@ == storage_block(category@, *input, *env),
    {
        new_plugin_block(
            "storage-plugin",
            category,
            text_or_exec(&input.action, "unknown"),
            text_or_exec(&input.user, "system"),
            text_or_exec(&input.details, "null"),
            &input.metadata,
            env,
        )
    }

    pub fn process_data(&self, input: &LedgerInput, env: &BlockEnv) -> (r: Vec<Block>)
        ensures
            plugin_output(storage_categories(), *input, |c: Seq<char>| storage_block(c, *input, *env), r@),
    {
        let cats = self.categories();
        let mut blocks: Vec<Block> = Vec::new();
        proof {
            if let Some(c) = &input.category {
                lemma_spelled_contains(cats@, storage_categories(), c@);
            }
        }
        if let Some(c) = category_of(input, &cats) {
            blocks.push(self.create_block(c.as_str(), input, env));
        }
        blocks
    }
}


impl BlockchainLedger {
    /// The block `add_data` builds for a category of the network plugin.
    pub open spec fn data_block(category: Seq<char>, action: Seq<char>, data: Seq<char>, env: BlockEnv) -> BlockView {
        plugin_block("network-plugin"@, category, action, "system"@, data, Seq::empty(), env)
    }

    /// The block `add_data` builds for `category`, through the plugin that owns it: the
    /// network plugin for its categories, the settings plugin for its categories, the user
    /// plugin for its categories, and the storage plugin for `storage` and its categories;
    /// none for any other category. The block carries the category, the action, the data and
    /// the user `system`.
    pub open spec fn data_block_for(category: Seq<char>, action: Seq<char>, data: Seq<char>, env: BlockEnv) -> Option<BlockView> {
        if network_categories().contains(category) {
            Some(Self::data_block(category, action, data, env))
        } else if settings_categories().contains(category) {
            Some(plugin_block("settings-plugin"@, category, action, "system"@, data, Seq::empty(), env))
        } else if user_categories().contains(category) {
            Some(plugin_block("user-plugin"@, category, action, "system"@, data, Seq::empty(), env))
        } else if storage_categories().contains(category) || category == "storage"@ {
            Some(plugin_block("storage-plugin"@, category, action, "system"@, data, Seq::empty(), env))
        } else {
            None
        }
    }

    /// Records `data` (compact JSON text) under `category` and `action` through the plugin that
    /// owns the category (see `data_block_for`), and returns the new block's hash; a category
    /// that no plugin owns is refused.
    pub fn add_data(&mut self, category: &str, action: &str, data: String, env: &BlockEnv) -> (r: Result<String, LedgerError>)
        requires
            old(self).wf(),
            old(self).height < u64::MAX,
        ensures
            final(self).wf(),
            match Self::data_block_for(category@, action@, data@, *env) {
                Some(b) => Self::add_block_post(old(self), final(self), b, r),
                None => {
                    &&& r matches Err(LedgerError::NoSuitablePlugin(c)) && c@ == category@
                    &&& final(self).unchanged(old(self))
                },
            },
            old(self).chain_valid() && r is Ok ==> final(self).chain_valid(),
    {
        let network = NetworkPlugin;
        let settings = SettingsPlugin;
        let users = UserPlugin;
        let storage = StoragePlugin;
        let ncats = network.categories();
        let scats = settings.categories();
        let ucats = users.categories();
        let tcats = storage.categories();
        proof {
            lemma_spelled_contains(ncats@, network_categories(), category@);
            lemma_spelled_contains(scats@, settings_categories(), category@);
            lemma_spelled_contains(ucats@, user_categories(), category@);
            lemma_spelled_contains(tcats@, storage_categories(), category@);
            reveal_strlit("storage");
        }
        let mut input = LedgerInput {
            category: Some(owned(category)),
            action: Some(owned(action)),
            has_action: true,
            user: Some(owned("system")),
            username: None,
            has_username: false,
            details: None,
            settings: None,
            settings_is_object: false,
            has_path: false,
            has_device: false,
            metadata: Vec::new(),
        };
        if list_contains(&ncats, category) {
            input.details = Some(data);
            let b = network.create_block(category, &input, env);
            self.add_block(b)
        } else if list_contains(&scats, category) {
            input.settings = Some(data);
            let b = settings.create_block(category, &input, env);
            self.add_block(b)
        } else if list_contains(&ucats, category) {
            input.username = Some(owned("system"));
            input.has_username = true;
            input.details = Some(data);
            let b = users.create_block(category, &input, env);
            self.add_block(b)
        } else if list_contains(&tcats, category) || crate::text::same_text(category, "storage") {
            input.details = Some(data);
            let b = storage.create_block(category, &input, env);
            self.add_block(b)
        } else {
            Err(LedgerError::NoSuitablePlugin(owned(category)))
        }
    }

    /// The first block carrying the given hash.
    pub fn get_block(&self, hash: &str) -> (r: Option<Block>)
        ensures
            match r {
                Some(b) => exists|i: int|
                    0 <= i < self.blocks@.len() && self.blocks@[i]@ == b@ && b.hash@ == hash@
                        && forall|j: int| 0 <= j < i ==> #[trigger] self.blocks@[j].hash@ != hash@,
                None => forall|i: int| 0 <= i < self.blocks@.len() ==> #[trigger] self.blocks@[i].hash@ != hash@,
            },
    {
        let mut i: usize = 0;
        while i < self.blocks.len()
            invariant
                i <= self.blocks@.len(),
                forall|j: int| 0 <= j < i ==> #[trigger] self.blocks@[j].hash@ != hash@,
            decreases self.blocks@.len() - i,
        {
            if crate::text::same_text(self.blocks[i].hash.as_str(), hash) {
                return Some(self.blocks[i].copy());
            }
            i = i + 1;
        }
        None
    }

    /// The blocks of a category, in chain order.
    pub fn get_blocks_by_category(&self, category: &str) -> (r: Vec<Block>)
        ensures
            views(r@) == blocks_where(self.blocks@, |b: BlockView| b.category == category@),
    {
        let mut out: Vec<Block> = Vec::new();
        let mut i: usize = 0;
        while i < self.blocks.len()
            invariant
                i <= self.blocks@.len(),
                views(out@) == blocks_where(self.blocks@.subrange(0, i as int), |b: BlockView| b.category == category@),
            decreases self.blocks@.len() - i,
        {
            let ghost before = out@;
            if crate::text::same_text(self.blocks[i].category.as_str(), category) {
                let b = self.blocks[i].copy();
                out.push(b);
                proof { lemma_views_push(before, b); }
            }
            proof {
                assert(self.blocks@.subrange(0, i + 1).drop_last() =~= self.blocks@.subrange(0, i as int));
            }
            i = i + 1;
        }
        assert(self.blocks@.subrange(0, self.blocks@.len() as int) =~= self.blocks@);
        out
    }

    /// The blocks whose height lies in `start..=end`, in chain order.
    pub fn get_blocks_by_height(&self, start: u64, end: u64) -> (r: Vec<Block>)
        ensures
            views(r@) == blocks_where(self.blocks@, |b: BlockView| start <= b.height <= end),
    {
        let mut out: Vec<Block> = Vec::new();
        let mut i: usize = 0;
        while i < self.blocks.len()
            invariant
                i <= self.blocks@.len(),
                views(out@) == blocks_where(self.blocks@.subrange(0, i as int), |b: BlockView| start <= b.height <= end),
            decreases self.blocks@.len() - i,
        {
            let ghost before = out@;
            let h = self.blocks[i].height;
            if h >= start && h <= end {
                let b = self.blocks[i].copy();
                out.push(b);
                proof { lemma_views_push(before, b); }
            }
            proof {
                assert(self.blocks@.subrange(0, i + 1).drop_last() =~= self.blocks@.subrange(0, i as int));
            }
            i = i + 1;
        }
        assert(self.blocks@.subrange(0, self.blocks@.len() as int) =~= self.blocks@);
        out
    }
}

/// The views of the blocks that satisfy `keep`, in order.
pub open spec fn blocks_where(bs: Seq<Block>, keep: spec_fn(BlockView) -> bool) -> Seq<BlockView>
    decreases bs.len(),
{
    if bs.len() == 0 {
        Seq::empty()
    } else if keep(bs.last()@) {
        blocks_where(bs.drop_last(), keep).push(bs.last()@)
    } else {
        blocks_where(bs.drop_last(), keep)
    }
}

/// The ledger's simple appending interface: every entry is interface data.
pub struct Ledger {
    pub inner: BlockchainLedger,
}

impl Ledger {
    /// Opens the ledger over the blocks read from its file.
    pub fn open(path: String, existing: Vec<Block>) -> (r: Ledger)
        ensures
            r.inner.wf(),
            r.inner.blocks@ == existing@,
            r.inner.path@ == path@,
    {
        Ledger { inner: BlockchainLedger::new(path, existing) }
    }

    /// Records interface data (`details`, compact JSON text) under `action`.
    pub fn append(&mut self, action: &str, details: String, env: &BlockEnv) -> (r: Result<(), LedgerError>)
        requires
            old(self).inner.wf(),
            old(self).inner.height < u64::MAX,
        ensures
            final(self).inner.wf(),
            action@.len() == 0 ==> (r matches Err(LedgerError::EmptyAction)) && final(self).inner.unchanged(&old(self).inner),
            action@.len() != 0 ==> r is Ok && final(self).inner.blocks@.drop_last() == old(self).inner.blocks@
                && final(self).inner.blocks@.last()@ == sealed(
                    BlockchainLedger::data_block("interface"@, action@, details@, *env),
                    old(self).inner.height,
                    old(self).inner.last_hash@,
                ),
            old(self).inner.chain_valid() && r is Ok ==> final(self).inner.chain_valid(),
    {
        proof {
            reveal_strlit("interface");
            reveal_strlit("network-plugin");
        }
        assert(network_categories()[1] == "interface"@);
        match self.inner.add_data("interface", action, details, env) {
            Ok(_) => Ok(()),
            Err(e) => Err(e),
        }
    }
}


/// Summary figures of a ledger.
pub struct BlockchainStats {
    /// Number of blocks.
    pub total_blocks: u64,
    /// Timestamp of the last block (0 for an empty chain).
    pub last_timestamp: u64,
    /// Blocks per category, categories in order of first appearance.
    pub categories: Vec<(String, u64)>,
    /// Blocks per producer, producers in order of first appearance.
    pub producers: Vec<(String, u64)>,
    /// The users other than `system` that appear in the chain, each once.
    pub unique_users: Vec<String>,
}

/// The categories of the blocks, in chain order.
pub open spec fn categories_of(bs: Seq<Block>) -> Seq<Seq<char>> {
    Seq::new(bs.len(), |i: int| bs[i].category@)
}

/// The producers of the blocks, in chain order.
pub open spec fn producers_of(bs: Seq<Block>) -> Seq<Seq<char>> {
    Seq::new(bs.len(), |i: int| bs[i].producer@)
}

/// The users of the blocks other than `system`, in chain order.
pub open spec fn named_users_of(bs: Seq<Block>) -> Seq<Seq<char>>
    decreases bs.len(),
{
    if bs.len() == 0 {
        Seq::empty()
    } else if bs.last().user@ == "system"@ {
        named_users_of(bs.drop_last())
    } else {
        named_users_of(bs.drop_last()).push(bs.last().user@)
    }
}

impl BlockchainLedger {
    /// Counts of the chain's blocks by category and producer, and its users.
    pub fn get_stats(&self) -> (r: BlockchainStats)
        requires
            self.blocks@.len() < u64::MAX,
        ensures
            r.total_blocks == self.blocks@.len(),
            r.last_timestamp == (if self.blocks@.len() == 0 { 0 } else { self.blocks@.last().timestamp }),
            is_tally_of(r.categories@, categories_of(self.blocks@)),
            is_tally_of(r.producers@, producers_of(self.blocks@)),
            is_distinct_of(r.unique_users@, named_users_of(self.blocks@)),
    {
        let mut cats: Vec<String> = Vec::new();
        let mut prods: Vec<String> = Vec::new();
        let mut users: Vec<String> = Vec::new();
        let mut last_timestamp: u64 = 0;
        let mut i: usize = 0;
        while i < self.blocks.len()
            invariant
                i <= self.blocks@.len(),
                self.blocks@.len() < u64::MAX,
                texts(cats@) == categories_of(self.blocks@.subrange(0, i as int)),
                texts(prods@) == producers_of(self.blocks@.subrange(0, i as int)),
                texts(users@) == named_users_of(self.blocks@.subrange(0, i as int)),
                users@.len() <= i,
                cats@.len() == i,
                prods@.len() == i,
                last_timestamp == (if i == 0 { 0 } else { self.blocks@[i - 1].timestamp }),
            decreases self.blocks@.len() - i,
        {
            let b = &self.blocks[i];
            let ghost pre = self.blocks@.subrange(0, i as int);
            let ghost post = self.blocks@.subrange(0, i + 1);
            assert(post.drop_last() =~= pre);
            last_timestamp = b.timestamp;
            let ghost old_cats = cats@;
            let ghost old_prods = prods@;
            cats.push(b.category.clone());
            prods.push(b.producer.clone());
            proof {
                reveal_strlit("system");
            }
            if !crate::text::same_text(b.user.as_str(), "system") {
                users.push(b.user.clone());
            }
            assert forall|k: int| 0 <= k < i implies #[trigger] texts(cats@)[k] == categories_of(post)[k] by {
                assert(cats@[k] == old_cats[k]);
                assert(texts(old_cats)[k] == categories_of(pre)[k]);
                assert(pre[k] == post[k]);
            }
            assert forall|k: int| 0 <= k < i implies #[trigger] texts(prods@)[k] == producers_of(post)[k] by {
                assert(prods@[k] == old_prods[k]);
                assert(texts(old_prods)[k] == producers_of(pre)[k]);
                assert(pre[k] == post[k]);
            }
            assert(texts(cats@) =~= categories_of(post));
            assert(texts(prods@) =~= producers_of(post));
            assert(texts(users@) =~= named_users_of(post));
            i = i + 1;
        }
        assert(self.blocks@.subrange(0, self.blocks@.len() as int) =~= self.blocks@);
        let categories = tally(&cats);
        let producers = tally(&prods);
        assert(Seq::new(cats@.len(), |i: int| cats@[i]@) =~= texts(cats@));
        assert(Seq::new(prods@.len(), |i: int| prods@[i]@) =~= texts(prods@));
        let unique_users = distinct_texts(&users);
        BlockchainStats {
            total_blocks: self.blocks.len() as u64,
            last_timestamp,
            categories,
            producers,
            unique_users,
        }
    }
}

} // verus!
