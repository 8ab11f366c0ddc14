//! Payloads that are stored once: a pack that knows what it holds.

use vstd::prelude::*;
use std::collections::HashMap;
use crate::entry::ContentAddress;
use crate::text::bytes_equal;

verus! {

/// The BLAKE3 digest of `data`.
pub uninterp spec fn blake3_digest(data: Seq<u8>) -> Seq<u8>;

/// Hashes a payload.
///
/// Calls `blake3::hash`. The contract only names the digest.
#[verifier::external_body]
fn blake3_hash(data: &[u8]) -> (digest: Vec<u8>)
    ensures
        digest@ == blake3_digest(data@),
{
    blake3::hash(data).as_bytes().to_vec()
}

/// The pack in which the payloads of an archive are stored.
pub const CONTENT_PACK: u8 = 1;

/// The position of the first of `digests` that is `digest`, from `i` on.
pub open spec fn known_from(digests: Seq<Seq<u8>>, digest: Seq<u8>, i: int) -> Option<int>
    decreases digests.len() - i,
{
    if i < 0 || i >= digests.len() {
        None
    } else if digests[i] == digest {
        Some(i)
    } else {
        known_from(digests, digest, i + 1)
    }
}

/// The number under which a payload with this digest is stored, if one is.
pub open spec fn known(digests: Seq<Seq<u8>>, digest: Seq<u8>) -> Option<int> {
    known_from(digests, digest, 0)
}

/// What became of a payload handed to the pack.
#[derive(Clone, Copy, Debug, PartialEq, Eq, Structural)]
pub enum Added {
    /// It is new, and is to be stored under this number.
    Fresh(u32),
    /// The pack holds it already, under this number.
    Cached(u32),
}

impl Added {
    /// The number of the payload in the pack.
    pub open spec fn idx(self) -> u32 {
        match self {
            Added::Fresh(idx) => idx,
            Added::Cached(idx) => idx,
        }
    }

    /// The address under which entries refer to the payload: its number in
    /// the content pack of the archive.
    pub open spec fn address_spec(self) -> ContentAddress {
        ContentAddress { pack_id: CONTENT_PACK, content_id: self.idx() }
    }

    /// The address under which entries refer to the payload.
    pub fn address(self) -> (address: ContentAddress)
        ensures
            address == self.address_spec(),
    {
        match self {
            Added::Fresh(idx) => ContentAddress::new(CONTENT_PACK, idx),
            Added::Cached(idx) => ContentAddress::new(CONTENT_PACK, idx),
        }
    }
}

/// What adding a payload with digest `digest` does to a pack that holds
/// `digests`: a known payload keeps its number and changes nothing, a new
/// one gets the next number.
pub open spec fn added(digests: Seq<Seq<u8>>, digest: Seq<u8>) -> (Seq<Seq<u8>>, Added) {
    match known(digests, digest) {
        Some(i) => (digests, Added::Cached(i as u32)),
        None => (digests.push(digest), Added::Fresh(digests.len() as u32)),
    }
}

/// The number that the first `n` bytes of `digest` spell, the first byte
/// counting most.
pub open spec fn key_upto(digest: Seq<u8>, n: nat) -> nat
    decreases n,
{
    if n == 0 {
        0
    } else {
        key_upto(digest, (n - 1) as nat) * 256 + digest[n - 1] as nat
    }
}

/// How many bytes of a digest make up its key.
pub open spec fn key_len(digest: Seq<u8>) -> nat {
    if digest.len() < 8 {
        digest.len()
    } else {
        8
    }
}

/// The key under which a digest is filed: the number that its first eight
/// bytes spell.
pub open spec fn digest_key(digest: Seq<u8>) -> u64 {
    key_upto(digest, key_len(digest)) as u64
}

/// 256 to the power of `n`, for the few `n` that a key has bytes.
spec fn pow256(n: nat) -> nat {
    if n == 0 {
        1
    } else if n == 1 {
        0x100
    } else if n == 2 {
        0x1_0000
    } else if n == 3 {
        0x100_0000
    } else if n == 4 {
        0x1_0000_0000
    } else if n == 5 {
        0x100_0000_0000
    } else if n == 6 {
        0x1_0000_0000_0000
    } else if n == 7 {
        0x100_0000_0000_0000
    } else {
        0x1_0000_0000_0000_0000
    }
}

fn key_of(digest: &[u8]) -> (key: u64)
    ensures
        key == digest_key(digest@),
{
    let n: usize = if digest.len() < 8 {
        digest.len()
    } else {
        8
    };
    let mut key: u64 = 0;
    let mut i: usize = 0;
    while i < n
        invariant
            i <= n <= 8,
            n <= digest.len(),
            key == key_upto(digest@, i as nat),
            key < pow256(i as nat),
        decreases n - i,
    {
        key = key * 256 + digest[i] as u64;
        i += 1;
    }
    key
}

/// What holds of the first match that `known_from` finds, and of its
/// finding none.
pub proof fn lemma_known_from(digests: Seq<Seq<u8>>, digest: Seq<u8>, i: int)
    requires
        0 <= i,
    ensures
        match known_from(digests, digest, i) {
            Some(k) => i <= k < digests.len() && digests[k] == digest && forall|j: int|
                i <= j < k ==> digests[j] != digest,
            None => forall|j: int| i <= j < digests.len() ==> digests[j] != digest,
        },
    decreases digests.len() - i,
{
    if i < digests.len() && digests[i] != digest {
        lemma_known_from(digests, digest, i + 1);
    }
}

/// Every number that `index` files under a key is that of a digest with
/// that key.
spec fn index_sound(digests: Seq<Seq<u8>>, index: Map<u64, Vec<u32>>) -> bool {
    forall|k: u64, j: int|
        index.contains_key(k) && 0 <= j < index[k]@.len() ==> {
            &&& (#[trigger] index[k]@[j] as int) < digests.len()
            &&& digest_key(digests[index[k]@[j] as int]) == k
        }
}

/// The number `n` is filed under the key of its digest.
spec fn filed(digests: Seq<Seq<u8>>, index: Map<u64, Vec<u32>>, n: int) -> bool {
    &&& index.contains_key(digest_key(digests[n]))
    &&& exists|j: int|
        0 <= j < index[digest_key(digests[n])]@.len() && #[trigger] index[digest_key(
            digests[n],
        )]@[j] == n
}

/// Every digest is filed under its key.
spec fn index_complete(digests: Seq<Seq<u8>>, index: Map<u64, Vec<u32>>) -> bool {
    forall|n: int| 0 <= n < digests.len() ==> #[trigger] filed(digests, index, n)
}

proof fn lemma_file_one(
    digests: Seq<Seq<u8>>,
    index: Map<u64, Vec<u32>>,
    digest: Seq<u8>,
    bucket: Vec<u32>,
)
    requires
        digests.len() < u32::MAX,
        no_duplicates(digests),
        index_sound(digests, index),
        index_complete(digests, index),
        forall|i: int| 0 <= i < digests.len() ==> digests[i] != digest,
        bucket@ == (if index.contains_key(digest_key(digest)) {
            index[digest_key(digest)]@
        } else {
            Seq::<u32>::empty()
        }).push(digests.len() as u32),
    ensures
        no_duplicates(digests.push(digest)),
        index_sound(digests.push(digest), index.insert(digest_key(digest), bucket)),
        index_complete(digests.push(digest), index.insert(digest_key(digest), bucket)),
{
    let key = digest_key(digest);
    let more = digests.push(digest);
    let filed_more = index.insert(key, bucket);
    let before = if index.contains_key(key) {
        index[key]@
    } else {
        Seq::<u32>::empty()
    };
    let last = digests.len() as int;
    assert forall|k: u64, j: int|
        filed_more.contains_key(k) && 0 <= j < filed_more[k]@.len() implies {
        &&& (#[trigger] filed_more[k]@[j] as int) < more.len()
        &&& digest_key(more[filed_more[k]@[j] as int]) == k
    } by {
        if k == key {
            if j < before.len() {
                assert(index.contains_key(key));
                assert(bucket@[j] == index[key]@[j]);
                assert((index[key]@[j] as int) < digests.len());
                assert(more[index[key]@[j] as int] == digests[index[key]@[j] as int]);
            } else {
                assert(bucket@[j] == last);
                assert(more[last] == digest);
            }
        } else {
            assert(index.contains_key(k));
            assert(filed_more[k] == index[k]);
            assert((index[k]@[j] as int) < digests.len());
            assert(more[index[k]@[j] as int] == digests[index[k]@[j] as int]);
        }
    }
    assert forall|n: int| 0 <= n < more.len() implies #[trigger] filed(more, filed_more, n) by {
        let k = digest_key(more[n]);
        if n == last {
            assert(k == key);
            assert(filed_more[k]@[before.len() as int] == n);
        } else {
            assert(more[n] == digests[n]);
            assert(filed(digests, index, n));
            let j = choose|j: int| 0 <= j < index[k]@.len() && #[trigger] index[k]@[j] == n;
            if k == key {
                assert(filed_more[k]@[j] == before[j]);
            } else {
                assert(filed_more[k] == index[k]);
            }
            assert(filed_more[k]@[j] == n);
        }
    }
}

/// No digest is held twice.
pub open spec fn no_duplicates(digests: Seq<Seq<u8>>) -> bool {
    forall|i: int, j: int| 0 <= i < j < digests.len() ==> digests[i] != digests[j]
}

/// Knows the payloads of a content pack by their digests, so that none is
/// stored twice.
pub struct CachedContentPack {
    /// The digests of the payloads, each at the place of its number.
    cache: Vec<Vec<u8>>,
    /// For each key, the numbers of the payloads whose digest has it.
    index: HashMap<u64, Vec<u32>>,
}

impl View for CachedContentPack {
    type V = Seq<Seq<u8>>;

    /// The digests of the payloads, each at the place of its number.
    closed spec fn view(&self) -> Seq<Seq<u8>> {
        Seq::new(self.cache@.len(), |i: int| self.cache@[i]@)
    }
}

fn copy_numbers(numbers: &Vec<u32>) -> (copy: Vec<u32>)
    ensures
        copy@ == numbers@,
{
    let mut copy: Vec<u32> = Vec::new();
    let mut i: usize = 0;
    while i < numbers.len()
        invariant
            i <= numbers.len(),
            copy@ == numbers@.take(i as int),
        decreases numbers.len() - i,
    {
        copy.push(numbers[i]);
        assert(numbers@.take(i + 1) =~= numbers@.take(i as int).push(numbers@[i as int]));
        i += 1;
    }
    assert(numbers@.take(numbers.len() as int) =~= numbers@);
    copy
}

impl CachedContentPack {
    /// No digest is held twice, and the index files every digest under its
    /// key and nothing else.
    pub closed spec fn wf(&self) -> bool {
        &&& self@.len() <= u32::MAX
        &&& no_duplicates(self@)
        &&& index_sound(self@, self.index@)
        &&& index_complete(self@, self.index@)
    }

    /// A pack holds no payload twice.
    pub proof fn lemma_holds_each_once(&self)
        requires
            self.wf(),
        ensures
            no_duplicates(self@),
    {
    }

    /// A pack without payloads.
    pub fn new() -> (pack: Self)
        ensures
            pack.wf(),
            pack@ == Seq::<Seq<u8>>::empty(),
    {
        let pack = CachedContentPack { cache: Vec::new(), index: HashMap::new() };
        assert(pack@ =~= Seq::<Seq<u8>>::empty());
        pack
    }

    /// The number of payloads stored.
    pub fn len(&self) -> (n: usize)
        ensures
            n == self@.len(),
    {
        self.cache.len()
    }

    /// Looks for a payload with digest `digest`.
    pub fn find(&self, digest: &[u8]) -> (idx: Option<usize>)
        requires
            self.wf(),
        ensures
            idx is Some <==> known(self@, digest@) is Some,
            idx matches Some(i) ==> known(self@, digest@) == Some(i as int) && i < self@.len(),
    {
        broadcast use vstd::std_specs::hash::group_hash_axioms;

        let key = key_of(digest);
        let bucket = match self.index.get(&key) {
            Some(bucket) => bucket,
            None => {
                proof {
                    lemma_known_from(self@, digest@, 0);
                    if known(self@, digest@) is Some {
                        assert(filed(self@, self.index@, known(self@, digest@)->0));
                    }
                }
                return None;
            },
        };
        let mut j: usize = 0;
        while j < bucket.len()
            invariant
                self.wf(),
                j <= bucket.len(),
                self.index@.contains_key(key),
                self.index@[key] == *bucket,
                key == digest_key(digest@),
                forall|t: int| 0 <= t < j ==> self@[#[trigger] bucket@[t] as int] != digest@,
            decreases bucket.len() - j,
        {
            let n = bucket[j] as usize;
            assert((self.index@[key]@[j as int] as int) < self@.len());
            if bytes_equal(self.cache[n].as_slice(), digest) {
                proof {
                    lemma_known_from(self@, digest@, 0);
                    assert(self@[n as int] == digest@);
                    let first = known(self@, digest@)->0;
                    if first != n {
                        assert(self@[first] == self@[n as int]);
                    }
                }
                return Some(n);
            }
            assert(self@[n as int] == self.cache@[n as int]@);
            j += 1;
        }
        proof {
            lemma_known_from(self@, digest@, 0);
            if known(self@, digest@) is Some {
                let n = known(self@, digest@)->0;
                assert(filed(self@, self.index@, n));
                let t = choose|t: int|
                    0 <= t < self.index@[digest_key(self@[n])]@.len() && #[trigger] self.index@[digest_key(
                        self@[n],
                    )]@[t] == n;
                assert(self@[bucket@[t] as int] != digest@);
            }
        }
        None
    }

    /// Takes note of a payload with digest `digest`.
    pub fn add_digest(&mut self, digest: Vec<u8>) -> (outcome: Added)
        requires
            old(self).wf(),
            old(self)@.len() < u32::MAX,
        ensures
            final(self).wf(),
            (final(self)@, outcome) == added(old(self)@, digest@),
    {
        broadcast use vstd::std_specs::hash::group_hash_axioms;

        match self.find(digest.as_slice()) {
            Some(i) => Added::Cached(i as u32),
            None => {
                let idx = self.cache.len() as u32;
                let key = key_of(digest.as_slice());
                let mut bucket = match self.index.get(&key) {
                    Some(bucket) => copy_numbers(bucket),
                    None => Vec::new(),
                };
                bucket.push(idx);
                proof {
                    lemma_known_from(self@, digest@, 0);
                    lemma_file_one(self@, self.index@, digest@, bucket);
                }
                self.cache.push(digest);
                self.index.insert(key, bucket);
                assert(self@ =~= old(self)@.push(digest@));
                Added::Fresh(idx)
            },
        }
    }

    /// Takes note of the payload `content`. One that the pack holds already
    /// is told apart by its digest and keeps its number; a new one gets the
    /// next number and is to be stored under it.
    pub fn add_content(&mut self, content: &[u8]) -> (outcome: Added)
        requires
            old(self).wf(),
            old(self)@.len() < u32::MAX,
        ensures
            final(self).wf(),
            (final(self)@, outcome) == added(old(self)@, blake3_digest(content@)),
    {
        self.add_digest(blake3_hash(content))
    }
}

} // verus!
