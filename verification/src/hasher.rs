//! Content hashing.
//!
//! A file's bytes are streamed chunk by chunk through the BLAKE3
//! cryptographic hash; the digest is rendered as a fixed-length lowercase
//! hex string for storage. The digest depends on the absorbed bytes alone,
//! never on how they were chunked.

use vstd::prelude::*;

verus! {

/// The hex rendering of the BLAKE3 digest of a byte sequence.
/// Uninterpreted: the digest is a function of the bytes alone.
pub uninterp spec fn blake3_hex(bytes: Seq<u8>) -> Seq<char>;

/// A character that can appear in a lowercase hex rendering.
pub open spec fn is_lower_hex_char(c: char) -> bool {
    ('0' <= c && c <= '9') || ('a' <= c && c <= 'f')
}

#[verifier::external_type_specification]
#[verifier::external_body]
pub struct ExHasher(blake3::Hasher);

/// An incremental BLAKE3 hasher together with the ghost sequence of the
/// bytes it has absorbed so far.
struct HashStream {
    inner: blake3::Hasher,
    bytes: Ghost<Seq<u8>>,
}

impl HashStream {
    spec fn bytes(self) -> Seq<u8> {
        self.bytes@
    }

    /// Relies on blake3::Hasher::new: a fresh hasher has absorbed nothing.
    #[verifier::external_body]
    fn new() -> (r: Self)
        ensures
            r.bytes() == Seq::<u8>::empty(),
    {
        HashStream { inner: blake3::Hasher::new(), bytes: Ghost(Seq::empty()) }
    }

    /// Relies on blake3::Hasher::update: absorbs exactly the given bytes,
    /// after those already absorbed.
    #[verifier::external_body]
    fn update(&mut self, chunk: &[u8])
        ensures
            final(self).bytes() == old(self).bytes() + chunk@,
    {
        self.inner.update(chunk);
    }

    /// Relies on blake3::Hasher::finalize and blake3::Hash::to_hex: the
    /// digest of the absorbed bytes, rendered as 64 lowercase hex
    /// characters, a function of those bytes alone.
    #[verifier::external_body]
    fn finalize_hex(&self) -> (r: String)
        ensures
            r@ == blake3_hex(self.bytes()),
            r@.len() == 64,
            forall|i: int| 0 <= i < r@.len() ==> is_lower_hex_char(#[trigger] r@[i]),
    {
        String::from(self.inner.finalize().to_hex().as_str())
    }
}

/// One hashing run over one file's content: the incremental hasher plus a
/// running count of the bytes absorbed so far.
pub struct HashRun {
    stream: HashStream,
    total: u64,
}

impl HashRun {
    /// The bytes absorbed so far.
    pub closed spec fn bytes(self) -> Seq<u8> {
        self.stream.bytes()
    }

    /// The running byte count.
    pub closed spec fn total(self) -> u64 {
        self.total
    }

    pub open spec fn wf(self) -> bool {
        self.total() == self.bytes().len()
    }

    /// Begin a hashing run: nothing absorbed yet.
    pub fn new() -> (r: HashRun)
        ensures
            r.wf(),
            r.bytes() == Seq::<u8>::empty(),
            r.total() == 0,
    {
        HashRun { stream: HashStream::new(), total: 0 }
    }

    /// Absorb one chunk of the content, in stream order.
    pub fn update(&mut self, chunk: &[u8])
        requires
            old(self).wf(),
            old(self).total() + chunk@.len() <= u64::MAX,
        ensures
            final(self).wf(),
            final(self).bytes() == old(self).bytes() + chunk@,
            final(self).total() == old(self).total() + chunk@.len(),
    {
        self.stream.update(chunk);
        self.total = self.total + chunk.len() as u64;
    }

    /// The running byte count, as a value.
    pub fn total_bytes(&self) -> (n: u64)
        ensures
            n == self.total(),
    {
        self.total
    }

    /// The digest of everything absorbed so far, as lowercase hex.
    pub fn digest_hex(&self) -> (r: String)
        ensures
            r@ == blake3_hex(self.bytes()),
            r@.len() == 64,
            forall|i: int| 0 <= i < r@.len() ==> is_lower_hex_char(#[trigger] r@[i]),
    {
        self.stream.finalize_hex()
    }
}

/// The bytes of a list of chunks, in order.
pub open spec fn chunk_bytes(chunks: Seq<Vec<u8>>) -> Seq<u8> {
    chunks.map_values(|v: Vec<u8>| v@).flatten()
}

proof fn lemma_chunk_bytes_push(chunks: Seq<Vec<u8>>, v: Vec<u8>)
    ensures
        chunk_bytes(chunks.push(v)) == chunk_bytes(chunks) + v@,
    decreases chunks.len(),
{
    let mapped = chunks.push(v).map_values(|x: Vec<u8>| x@);
    if chunks.len() == 0 {
        assert(mapped =~= seq![v@]);
        mapped.lemma_flatten_one_element();
        assert(chunk_bytes(chunks).len() == 0) by {
            assert(chunks.map_values(|x: Vec<u8>| x@) =~= Seq::<Seq<u8>>::empty());
        }
        assert(chunk_bytes(chunks.push(v)) =~= chunk_bytes(chunks) + v@);
    } else {
        lemma_chunk_bytes_push(chunks.drop_first(), v);
        assert(mapped.drop_first() =~= chunks.drop_first().push(v).map_values(|x: Vec<u8>| x@));
        assert(chunks.map_values(|x: Vec<u8>| x@).drop_first() =~= chunks.drop_first().map_values(
            |x: Vec<u8>| x@,
        ));
        assert(chunk_bytes(chunks.push(v)) =~= chunk_bytes(chunks) + v@);
    }
}

proof fn lemma_chunk_bytes_take_len(chunks: Seq<Vec<u8>>, i: int)
    requires
        0 <= i <= chunks.len(),
    ensures
        chunk_bytes(chunks.take(i)).len() <= chunk_bytes(chunks).len(),
    decreases chunks.len() - i,
{
    if i == chunks.len() {
        assert(chunks.take(i) =~= chunks);
    } else {
        lemma_chunk_bytes_take_len(chunks, i + 1);
        assert(chunks.take(i + 1) =~= chunks.take(i).push(chunks[i]));
        lemma_chunk_bytes_push(chunks.take(i), chunks[i]);
    }
}

/// Hash a content given as a list of chunks: the digest covers the
/// concatenation of the chunks, so any chunking of the same bytes yields
/// the same digest. Returns the digest and the number of bytes absorbed.
pub fn hash_chunks(chunks: &Vec<Vec<u8>>) -> (r: (String, u64))
    requires
        chunk_bytes(chunks@).len() <= u64::MAX,
    ensures
        r.0@ == blake3_hex(chunk_bytes(chunks@)),
        r.1 == chunk_bytes(chunks@).len(),
{
    let mut run = HashRun::new();
    let ghost all = chunks@;
    assert(chunk_bytes(all.take(0)) =~= Seq::<u8>::empty()) by {
        assert(all.take(0).map_values(|x: Vec<u8>| x@) =~= Seq::<Seq<u8>>::empty());
    }
    for i in 0..chunks.len()
        invariant
            run.wf(),
            run.bytes() == chunk_bytes(all.take(i as int)),
            all == chunks@,
            chunk_bytes(all).len() <= u64::MAX,
    {
        proof {
            lemma_chunk_bytes_take_len(all, i + 1);
            assert(all.take(i + 1) =~= all.take(i as int).push(all[i as int]));
            lemma_chunk_bytes_push(all.take(i as int), all[i as int]);
        }
        run.update(chunks[i].as_slice());
    }
    proof {
        assert(all.take(all.len() as int) =~= all);
    }
    let d = run.digest_hex();
    (d, run.total)
}

} // verus!
