//! Embedding backends: the dependency-free hashing embedder and the
//! settings of the Ollama one. The hashing embedder's integer part (which
//! bucket each token lands in, with which sign) is computed and proved
//! here; turning the bucket sums into a unit vector is floating point and
//! is left to the caller.

use vstd::prelude::*;
use crate::text::{chars_of, redact, spec_is_whitespace, spec_to_lowercase, string_from_chars, strip_private_tags, to_lowercase, FNV_PRIME};

verus! {

/// The text handed to an embedder for a memory: its content with every
/// `<private>` block redacted, as it is stored, so no secret leaves in a
/// vector or an embedding request.
pub fn embedding_input(content: &str) -> (r: String)
    ensures
        r@ == redact(content@),
{
    strip_private_tags(content)
}

/// The whitespace-separated tokens read so far and the token in progress.
pub open spec fn token_fold(s: Seq<char>) -> (Seq<Seq<char>>, Seq<char>)
    decreases s.len(),
{
    if s.len() == 0 {
        (Seq::empty(), Seq::empty())
    } else {
        let (done, cur) = token_fold(s.drop_last());
        let c = s.last();
        if spec_is_whitespace(c) {
            (if cur.len() > 0 { done.push(cur) } else { done }, Seq::empty())
        } else {
            (done, cur.push(c))
        }
    }
}

/// The maximal runs of non-whitespace characters of `s`, in order
/// (`str::split_whitespace`).
pub open spec fn whitespace_tokens(s: Seq<char>) -> Seq<Seq<char>> {
    let (done, cur) = token_fold(s);
    if cur.len() > 0 { done.push(cur) } else { done }
}

/// The seed of the token hash.
pub const TOKEN_HASH_SEED: u64 = 1469598103934665603u64;

/// The FNV-1a-style hash (seeded with `TOKEN_HASH_SEED`) of a byte sequence.
pub open spec fn token_fnv(bytes: Seq<u8>) -> u64
    decreases bytes.len(),
{
    if bytes.len() == 0 {
        TOKEN_HASH_SEED
    } else {
        vstd::wrapping::u64_specs::wrapping_mul(token_fnv(bytes.drop_last()) ^ (bytes.last() as u64), FNV_PRIME)
    }
}

/// The hash of a token's lowercase UTF-8 bytes.
pub open spec fn token_hash(t: Seq<char>) -> u64 {
    token_fnv(vstd::utf8::encode_utf8(spec_to_lowercase(t)))
}

/// The bucket a token falls in.
pub open spec fn token_bucket(t: Seq<char>, dim: nat) -> int {
    (token_hash(t) % (dim as u64)) as int
}

/// The sign a token adds to its bucket: −1 when the hash's top bit is set.
pub open spec fn token_sign(t: Seq<char>) -> int {
    if token_hash(t) >= 0x8000_0000_0000_0000u64 { -1 } else { 1 }
}

/// The per-bucket sums of the signs of `tokens`, over `dim` buckets.
pub open spec fn bucket_sums(tokens: Seq<Seq<char>>, dim: nat) -> Seq<int>
    decreases tokens.len(),
{
    if tokens.len() == 0 {
        Seq::new(dim, |i: int| 0int)
    } else {
        let v = bucket_sums(tokens.drop_last(), dim);
        let t = tokens.last();
        v.update(token_bucket(t, dim), v[token_bucket(t, dim)] + token_sign(t))
    }
}

proof fn lemma_bucket_sums_shape(tokens: Seq<Seq<char>>, dim: nat)
    requires
        dim > 0,
        dim <= u64::MAX,
    ensures
        bucket_sums(tokens, dim).len() == dim,
        forall|k: int| 0 <= k < dim ==> -tokens.len() <= #[trigger] bucket_sums(tokens, dim)[k] <= tokens.len(),
    decreases tokens.len(),
{
    if tokens.len() > 0 {
        lemma_bucket_sums_shape(tokens.drop_last(), dim);
    }
}

proof fn lemma_token_count(s: Seq<char>)
    ensures
        token_fold(s).0.len() + (if token_fold(s).1.len() > 0 { 1int } else { 0 }) <= s.len(),
        token_fold(s).1.len() <= s.len(),
    decreases s.len(),
{
    if s.len() > 0 {
        lemma_token_count(s.drop_last());
    }
}

/// The dependency-free embedder: each whitespace-separated token adds ±1 to
/// one of `dim` buckets, chosen by the hash of the lowercased token; the
/// embedding is the bucket vector scaled to unit length.
pub struct HashEmbedder {
    dim: usize,
}

impl HashEmbedder {
    /// There is always at least one bucket.
    #[verifier::type_invariant]
    spec fn has_buckets(&self) -> bool {
        self.dim >= 1
    }

    /// The number of buckets.
    pub closed spec fn dim(&self) -> usize {
        self.dim
    }

    /// An embedder with `dim` buckets (at least one).
    pub fn new(dim: usize) -> (r: Self)
        ensures
            r.dim() == if dim > 1 { dim } else { 1 },
    {
        HashEmbedder { dim: if dim > 1 { dim } else { 1 } }
    }

    /// The number of dimensions of the embeddings.
    pub fn dimensions(&self) -> (r: usize)
        ensures
            r == self.dim(),
    {
        self.dim
    }

    /// The model name recorded with the embeddings.
    pub fn model(&self) -> (r: &'static str)
        ensures
            r@ == "hash-v1"@,
    {
        "hash-v1"
    }

    /// Adds one token's sign to its bucket.
    fn add_token(&self, sums: &mut Vec<i64>, token: &Vec<char>, Ghost(tokens): Ghost<Seq<Seq<char>>>)
        requires
            self.dim >= 1,
            old(sums)@.len() == self.dim,
            forall|k: int| 0 <= k < self.dim ==> old(sums)@[k] as int == bucket_sums(tokens, self.dim as nat)[k],
            tokens.len() < i64::MAX,
        ensures
            final(sums)@.len() == self.dim,
            forall|k: int| 0 <= k < self.dim ==> final(sums)@[k] as int == bucket_sums(tokens.push(token@), self.dim as nat)[k],
    {
        proof {
            lemma_bucket_sums_shape(tokens, self.dim as nat);
            assert(tokens.push(token@).drop_last() =~= tokens);
        }
        let lower = to_lowercase(string_from_chars(token).as_str());
        let bytes = lower.as_str().as_bytes();
        let mut h: u64 = TOKEN_HASH_SEED;
        let mut i: usize = 0;
        while i < bytes.len()
            invariant
                i <= bytes.len(),
                bytes@ == vstd::utf8::encode_utf8(lower@),
                h == token_fnv(bytes@.take(i as int)),
            decreases bytes.len() - i,
        {
            proof {
                assert(bytes@.take(i + 1).drop_last() =~= bytes@.take(i as int));
            }
            h = (h ^ (bytes[i] as u64)).wrapping_mul(FNV_PRIME);
            i += 1;
        }
        proof {
            assert(bytes@.take(i as int) =~= bytes@);
        }
        let idx: usize = (h % (self.dim as u64)) as usize;
        let old_v = sums[idx];
        if h >= 0x8000_0000_0000_0000u64 {
            sums.set(idx, old_v - 1);
        } else {
            sums.set(idx, old_v + 1);
        }
    }

    /// For each bucket, the sum of the signs of the whitespace-separated
    /// tokens of `text` that fall in it.
    pub fn bucket_sums(&self, text: &str) -> (r: Vec<i64>)
        requires
            text@.len() < i64::MAX,
        ensures
            r@.len() == self.dim(),
            forall|k: int| 0 <= k < self.dim() ==> r@[k] as int == bucket_sums(whitespace_tokens(text@), self.dim() as nat)[k],
    {
        proof {
            use_type_invariant(self);
        }
        let ghost s = text@;
        let mut sums: Vec<i64> = Vec::new();
        let mut k: usize = 0;
        while k < self.dim
            invariant
                k <= self.dim,
                sums@.len() == k,
                forall|j: int| 0 <= j < k ==> sums@[j] == 0,
            decreases self.dim - k,
        {
            sums.push(0);
            k += 1;
        }
        proof {
            assert(s.take(0) =~= Seq::<char>::empty());
            assert forall|j: int| 0 <= j < self.dim implies sums@[j] as int == bucket_sums(Seq::empty(), self.dim as nat)[j] by {}
        }
        let chars = chars_of(text);
        let mut cur: Vec<char> = Vec::new();
        let ghost mut done: Seq<Seq<char>> = Seq::empty();
        let mut i: usize = 0;
        while i < chars.len()
            invariant
                self.dim >= 1,
                chars@ == s,
                s.len() < i64::MAX,
                i <= chars@.len(),
                token_fold(s.take(i as int)) == (done, cur@),
                sums@.len() == self.dim,
                forall|j: int| 0 <= j < self.dim ==> sums@[j] as int == bucket_sums(done, self.dim as nat)[j],
            decreases chars@.len() - i,
        {
            proof {
                assert(s.take(i as int + 1).drop_last() =~= s.take(i as int));
                lemma_token_count(s.take(i as int));
            }
            let c = chars[i];
            if c.is_whitespace() {
                if cur.len() > 0 {
                    self.add_token(&mut sums, &cur, Ghost(done));
                    proof {
                        done = done.push(cur@);
                    }
                }
                cur = Vec::new();
            } else {
                cur.push(c);
            }
            i += 1;
        }
        proof {
            assert(s.take(i as int) =~= s);
            lemma_token_count(s);
        }
        if cur.len() > 0 {
            self.add_token(&mut sums, &cur, Ghost(done));
        }
        sums
    }
}

/// The text without its trailing `/` characters.
pub open spec fn trim_trailing_slashes(s: Seq<char>) -> Seq<char>
    decreases s.len(),
{
    if s.len() > 0 && s.last() == '/' {
        trim_trailing_slashes(s.drop_last())
    } else {
        s
    }
}

/// The settings of an embedder served by Ollama: the server URL (without
/// trailing slashes) and the model name.
pub struct OllamaEmbedder {
    url: String,
    model: String,
}

impl OllamaEmbedder {
    /// An embedder for `model` at `url`; trailing slashes of the URL are
    /// dropped.
    pub fn new(url: String, model: String) -> (r: Self)
        ensures
            r.url_text()@ == trim_trailing_slashes(url@),
            r.model_name()@ == model@,
    {
        let chars = chars_of(url.as_str());
        let mut n: usize = chars.len();
        assert(chars@.take(n as int) =~= url@);
        while n > 0 && chars[n - 1] == '/'
            invariant
                n <= chars@.len(),
                trim_trailing_slashes(chars@.take(n as int)) == trim_trailing_slashes(url@),
            decreases n,
        {
            proof {
                assert(chars@.take(n as int).drop_last() =~= chars@.take(n as int - 1));
            }
            n -= 1;
        }
        let mut kept: Vec<char> = Vec::new();
        let mut i: usize = 0;
        while i < n
            invariant
                n <= chars@.len(),
                i <= n,
                kept@ == chars@.take(i as int),
            decreases n - i,
        {
            kept.push(chars[i]);
            proof {
                assert(chars@.take(i as int + 1) =~= chars@.take(i as int).push(chars@[i as int]));
            }
            i += 1;
        }
        proof {
            assert(chars@.take(n as int) =~= chars@.take(n as int).take(n as int));
            if n > 0 {
                assert(chars@.take(n as int).last() != '/');
            }
        }
        OllamaEmbedder { url: string_from_chars(&kept), model }
    }

    /// The server URL.
    pub closed spec fn url_text(&self) -> String {
        self.url
    }

    /// The model name.
    pub closed spec fn model_name(&self) -> String {
        self.model
    }

    /// The server URL.
    pub fn url(&self) -> (r: &str)
        ensures
            r@ == self.url_text()@,
    {
        self.url.as_str()
    }

    /// The embeddings endpoint of the server: its URL followed by
    /// `/api/embeddings`.
    pub fn endpoint(&self) -> (r: String)
        ensures
            r@ == self.url_text()@ + "/api/embeddings"@,
    {
        crate::text::concat_str(self.url.as_str(), "/api/embeddings")
    }

    /// The model name recorded with the embeddings.
    pub fn model(&self) -> (r: &str)
        ensures
            r@ == self.model_name()@,
    {
        self.model.as_str()
    }

    /// The number of dimensions: unknown before the first call (it depends
    /// on the model), so 0.
    pub fn dimensions(&self) -> (r: usize)
        ensures
            r == 0,
    {
        0
    }
}

} // verus!
