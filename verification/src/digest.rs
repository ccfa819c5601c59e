//! Cryptographic digests.

use vstd::prelude::*;
use crate::text::concat;

verus! {

/// Cryptographic hash algorithms.
#[derive(Debug, Clone, Copy, PartialEq, Eq, Structural)]
pub enum HashAlgorithm {
    Sha256,
    Sha512_256,
    Sha512,
}

impl HashAlgorithm {
    /// The number of the algorithm.
    pub open spec fn code(self) -> int {
        match self {
            HashAlgorithm::Sha256 => 0,
            HashAlgorithm::Sha512_256 => 1,
            HashAlgorithm::Sha512 => 2,
        }
    }

    /// The number of bytes of a digest.
    pub open spec fn size(self) -> nat {
        match self {
            HashAlgorithm::Sha256 => 32,
            HashAlgorithm::Sha512_256 => 32,
            HashAlgorithm::Sha512 => 64,
        }
    }

    /// The name of the algorithm.
    pub open spec fn name_text(self) -> Seq<char> {
        match self {
            HashAlgorithm::Sha256 => "sha256"@,
            HashAlgorithm::Sha512_256 => "sha512_256"@,
            HashAlgorithm::Sha512 => "sha512"@,
        }
    }

    /// Name of the algorithm.
    pub fn name(self) -> (r: &'static str)
        ensures
            r@ == self.name_text(),
    {
        match self {
            HashAlgorithm::Sha256 => "sha256",
            HashAlgorithm::Sha512_256 => "sha512_256",
            HashAlgorithm::Sha512 => "sha512",
        }
    }
}

/// The digest of bytes under an algorithm.
pub uninterp spec fn digest_bytes(algorithm: int, bytes: Seq<u8>) -> Seq<u8>;

/// `si_crypto_hashes::HashAlgorithm::hash`: the digest of the bytes, named and not
/// described, of the size that the algorithm has.
#[verifier::external_body]
pub(crate) fn hash_bytes(algorithm: HashAlgorithm, bytes: &[u8]) -> (r: Vec<u8>)
    ensures
        r@ == digest_bytes(algorithm.code(), bytes@),
        r@.len() == algorithm.size(),
{
    let algorithm = match algorithm {
        HashAlgorithm::Sha256 => si_crypto_hashes::HashAlgorithm::Sha256,
        HashAlgorithm::Sha512_256 => si_crypto_hashes::HashAlgorithm::Sha512_256,
        HashAlgorithm::Sha512 => si_crypto_hashes::HashAlgorithm::Sha512,
    };
    algorithm.hash::<Vec<u8>>(bytes).into_inner()
}

/// A hasher that takes its input piece by piece.
#[verifier::external_type_specification]
#[verifier::external_body]
pub struct ExHasher(si_crypto_hashes::Hasher);

/// The bytes that a hasher has taken.
pub uninterp spec fn hasher_bytes(hasher: si_crypto_hashes::Hasher) -> Seq<u8>;

/// The algorithm that a hasher was made with.
pub uninterp spec fn hasher_code(hasher: si_crypto_hashes::Hasher) -> int;

/// `si_crypto_hashes::HashAlgorithm::hasher`: a hasher of the algorithm that has
/// taken nothing.
#[verifier::external_body]
fn hasher_new(algorithm: HashAlgorithm) -> (r: si_crypto_hashes::Hasher)
    ensures
        hasher_bytes(r).len() == 0,
        hasher_code(r) == algorithm.code(),
{
    let algorithm = match algorithm {
        HashAlgorithm::Sha256 => si_crypto_hashes::HashAlgorithm::Sha256,
        HashAlgorithm::Sha512_256 => si_crypto_hashes::HashAlgorithm::Sha512_256,
        HashAlgorithm::Sha512 => si_crypto_hashes::HashAlgorithm::Sha512,
    };
    algorithm.hasher()
}

/// `si_crypto_hashes::Hasher::update`: takes the bytes after those that were taken
/// before.
#[verifier::external_body]
fn hasher_update(hasher: &mut si_crypto_hashes::Hasher, bytes: &[u8])
    ensures
        hasher_bytes(*final(hasher)) == hasher_bytes(*old(hasher)) + bytes@,
        hasher_code(*final(hasher)) == hasher_code(*old(hasher)),
{
    hasher.update(bytes)
}

/// `si_crypto_hashes::Hasher::finalize`: the digest of all bytes that were taken.
#[verifier::external_body]
fn hasher_finalize(hasher: si_crypto_hashes::Hasher) -> (r: Vec<u8>)
    ensures
        r@ == digest_bytes(hasher_code(hasher), hasher_bytes(hasher)),
{
    hasher.finalize::<Vec<u8>>().into_inner()
}

/// A digest with the algorithm that it was computed with.
#[derive(Debug, Clone)]
pub struct HashDigest {
    pub algorithm: HashAlgorithm,
    pub raw: Vec<u8>,
}

impl View for HashDigest {
    type V = (HashAlgorithm, Seq<u8>);

    open spec fn view(&self) -> (HashAlgorithm, Seq<u8>) {
        (self.algorithm, self.raw@)
    }
}

/// Whether two byte sequences are the same.
pub fn same_bytes(a: &[u8], b: &[u8]) -> (r: bool)
    ensures
        r == (a@ == b@),
{
    if a.len() != b.len() {
        return false;
    }
    let mut i: usize = 0;
    while i < a.len()
        invariant
            i <= a@.len() == b@.len(),
            forall|k: int| 0 <= k < i ==> a@[k] == b@[k],
        decreases a@.len() - i,
    {
        if a[i] != b[i] {
            return false;
        }
        i = i + 1;
    }
    assert(a@ =~= b@);
    true
}

/// A copy of a byte sequence.
pub fn copy_bytes(a: &[u8]) -> (r: Vec<u8>)
    ensures
        r@ == a@,
{
    let mut r: Vec<u8> = Vec::new();
    let mut i: usize = 0;
    while i < a.len()
        invariant
            i <= a@.len(),
            r@ == a@.take(i as int),
        decreases a@.len() - i,
    {
        r.push(a[i]);
        i = i + 1;
        assert(r@ =~= a@.take(i as int));
    }
    assert(a@.take(i as int) =~= a@);
    r
}

/// The digit of a value below sixteen.
pub open spec fn hex_char(n: int) -> char {
    if n < 10 {
        (n + '0' as int) as char
    } else {
        (n - 10 + 'a' as int) as char
    }
}

/// Two lower-case digits for each byte, the high one first.
pub open spec fn hex_text(bytes: Seq<u8>) -> Seq<char>
    decreases bytes.len(),
{
    if bytes.len() == 0 {
        Seq::empty()
    } else {
        let b = bytes.last() as int;
        hex_text(bytes.drop_last()).push(hex_char(b / 16)).push(hex_char(b % 16))
    }
}

/// `hex::encode`: two lower-case digits for each byte.
#[verifier::external_body]
pub(crate) fn encode_hex(bytes: &[u8]) -> (r: String)
    ensures
        r@ == hex_text(bytes@),
{
    hex::encode(bytes)
}

impl HashDigest {
    /// The digest of bytes.
    pub fn of(algorithm: HashAlgorithm, bytes: &[u8]) -> (r: Self)
        ensures
            r@ == (algorithm, digest_bytes(algorithm.code(), bytes@)),
            r.raw@.len() == algorithm.size(),
    {
        HashDigest { algorithm, raw: hash_bytes(algorithm, bytes) }
    }

    /// Whether two digests have the same algorithm and the same bytes.
    pub fn equals(&self, other: &HashDigest) -> (r: bool)
        ensures
            r == (self@ == other@),
    {
        self.algorithm == other.algorithm && same_bytes(self.raw.as_slice(), other.raw.as_slice())
    }

    /// A copy of the digest.
    pub fn copy(&self) -> (r: Self)
        ensures
            r@ == self@,
    {
        HashDigest { algorithm: self.algorithm, raw: copy_bytes(self.raw.as_slice()) }
    }

    /// The text of the digest: the algorithm and the bytes in hexadecimal digits.
    pub fn text(&self) -> (r: String)
        ensures
            r@ == self.algorithm.name_text() + "_"@ + hex_text(self.raw@),
    {
        let start = concat(self.algorithm.name(), "_");
        concat(start.as_str(), encode_hex(self.raw.as_slice()).as_str())
    }
}

/// Accounts for data on its way to a writer: the digest and the size are those of
/// the bytes that the writer took, and of no others.
pub struct HashWriter {
    algorithm: HashAlgorithm,
    hasher: si_crypto_hashes::Hasher,
    size: u64,
}

impl HashWriter {
    /// The bytes that were written.
    pub closed spec fn written(self) -> Seq<u8> {
        hasher_bytes(self.hasher)
    }

    /// The algorithm of the digest.
    pub closed spec fn algorithm(self) -> HashAlgorithm {
        self.algorithm
    }

    #[verifier::type_invariant]
    spec fn consistent(self) -> bool {
        self.size == hasher_bytes(self.hasher).len() && hasher_code(self.hasher)
            == self.algorithm.code()
    }

    /// Nothing was written yet.
    pub fn new(algorithm: HashAlgorithm) -> (r: Self)
        ensures
            r.written() == Seq::<u8>::empty(),
            r.algorithm() == algorithm,
    {
        let hasher = hasher_new(algorithm);
        assert(hasher_bytes(hasher) =~= Seq::empty());
        HashWriter { algorithm, hasher, size: 0 }
    }

    /// Accounts for a write that offered `buffer` and took its first `count` bytes.
    pub fn write(self, buffer: &[u8], count: usize) -> (r: Self)
        requires
            count <= buffer@.len(),
            self.written().len() + count <= u64::MAX,
        ensures
            r.written() == self.written() + buffer@.take(count as int),
            r.algorithm() == self.algorithm(),
    {
        proof {
            use_type_invariant(&self);
        }
        let HashWriter { algorithm, hasher, size } = self;
        let mut hasher = hasher;
        let taken = vstd::slice::slice_subrange(buffer, 0, count);
        assert(taken@ =~= buffer@.take(count as int));
        hasher_update(&mut hasher, taken);
        HashWriter { algorithm, hasher, size: size + count as u64 }
    }

    /// The digest and the size of what was written.
    pub fn finalize(self) -> (r: (HashDigest, u64))
        ensures
            r.0@ == (self.algorithm(), digest_bytes(self.algorithm().code(), self.written())),
            r.1 == self.written().len(),
    {
        proof {
            use_type_invariant(&self);
        }
        let HashWriter { algorithm, hasher, size } = self;
        (HashDigest { algorithm, raw: hasher_finalize(hasher) }, size)
    }
}

/// The value of a lower-case digit.
pub open spec fn hex_value(c: char) -> int {
    if '0' <= c && c <= '9' {
        c as int - '0' as int
    } else if 'a' <= c && c <= 'f' {
        c as int - 'a' as int + 10
    } else {
        -1
    }
}

/// A text of digits holds every byte in its place: two digits for each, whose value is the
/// byte.
pub proof fn law_hex_text_is_read_back(bytes: Seq<u8>, i: int)
    requires
        0 <= i < bytes.len(),
    ensures
        hex_text(bytes).len() == 2 * bytes.len(),
        0 <= hex_value(hex_text(bytes)[2 * i]) < 16,
        0 <= hex_value(hex_text(bytes)[2 * i + 1]) < 16,
        16 * hex_value(hex_text(bytes)[2 * i]) + hex_value(hex_text(bytes)[2 * i + 1]) == bytes[i],
    decreases bytes.len(),
{
    let before = bytes.drop_last();
    lemma_hex_len(before);
    if i < bytes.len() - 1 {
        law_hex_text_is_read_back(before, i);
        assert(before[i] == bytes[i]);
    } else {
        let b = bytes.last() as int;
        assert(hex_value(hex_char(b / 16)) == b / 16);
        assert(hex_value(hex_char(b % 16)) == b % 16);
    }
}

proof fn lemma_hex_len(bytes: Seq<u8>)
    ensures
        hex_text(bytes).len() == 2 * bytes.len(),
    decreases bytes.len(),
{
    if bytes.len() > 0 {
        lemma_hex_len(bytes.drop_last());
    }
}

/// Each algorithm has its own name and its own number.
pub proof fn law_algorithms_are_told_apart(a: HashAlgorithm, b: HashAlgorithm)
    requires
        a != b,
    ensures
        a.name_text() != b.name_text(),
        a.code() != b.code(),
{
    reveal_strlit("sha256");
    reveal_strlit("sha512_256");
    reveal_strlit("sha512");
    assert("sha256"@.len() == 6);
    assert("sha512"@.len() == 6);
    assert("sha512_256"@.len() == 10);
    assert("sha256"@[3] == '2');
    assert("sha512"@[3] == '5');
}

} // verus!
