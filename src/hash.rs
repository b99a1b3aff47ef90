//! Hash-function capability used to digest canonical context bytes.
use vstd::prelude::*;

verus! {

/// What an extendable-output BLAKE3 stream yields for `input` when `len`
/// bytes of output are read from its start.
pub uninterp spec fn blake3_xof(input: Seq<u8>, len: nat) -> Seq<u8>;

/// Relies on `blake3::Hasher::update` and `finalize_xof` followed by
/// `OutputReader::fill`: the whole buffer is filled with output bytes, and
/// shorter BLAKE3 outputs are prefixes of longer ones.
#[verifier::external_body]
fn blake3_fill(input: &[u8], buf: &mut [u8])
    ensures
        final(buf)@.len() == old(buf)@.len(),
        final(buf)@ == blake3_xof(input@, old(buf)@.len()),
        forall|m: nat|
            m <= old(buf)@.len() ==> #[trigger] blake3_xof(input@, m) == final(buf)@.take(m as int),
{
    blake3::Hasher::new().update(input).finalize_xof().fill(buf)
}

/// A hash function known by a registry name.
pub trait SimpleHasher {
    /// The registry name.
    spec fn spec_name(&self) -> Seq<char>;

    /// The name under which the hash function is registered.
    fn name(&self) -> (r: &'static str)
        ensures
            r@ == self.spec_name(),
    ;
}

/// An extendable-output hash function that writes a digest of any requested
/// length into a buffer.
///
/// Implementations must be truncation-consistent: a shorter output is always
/// a prefix of a longer one for the same input.
pub trait HashInto {
    /// The first `len` output bytes for `input`.
    spec fn spec_output(&self, input: Seq<u8>, len: nat) -> Seq<u8>;

    /// Fills the whole of `buf` with the digest of `input` and returns the
    /// number of bytes written. Every instance starts from a fresh state, so
    /// no input of an earlier call leaks into this one.
    fn digest_into(&self, input: &[u8], buf: &mut [u8]) -> (n: usize)
        ensures
            n == old(buf)@.len(),
            final(buf)@ == self.spec_output(input@, n as nat),
            forall|m: nat| m <= n ==> #[trigger] self.spec_output(input@, m) == final(buf)@.take(m as int),
    ;
}

/// A hash function with a fixed output size of `S` bytes, cut from the start
/// of a truncation-consistent output stream.
pub trait Hasher<const S: usize> {
    /// The first `len` bytes of the output stream for `input`.
    spec fn spec_stream(&self, input: Seq<u8>, len: nat) -> Seq<u8>;

    fn digest(&self, input: &[u8]) -> (r: [u8; S])
        ensures
            r@ == self.spec_stream(input@, S as nat),
            forall|m: nat| m <= S ==> #[trigger] self.spec_stream(input@, m) == r@.take(m as int),
    ;
}

impl<T: HashInto, const S: usize> Hasher<S> for T {
    open spec fn spec_stream(&self, input: Seq<u8>, len: nat) -> Seq<u8> {
        self.spec_output(input, len)
    }

    fn digest(&self, input: &[u8]) -> (r: [u8; S]) {
        let mut buf = [0u8; S];
        self.digest_into(input, &mut buf);
        buf
    }
}

/// The BLAKE3 extendable-output hash function.
#[derive(Clone, Copy, Debug, PartialEq, Eq, Structural)]
pub struct Blake3;

impl SimpleHasher for Blake3 {
    open spec fn spec_name(&self) -> Seq<char> {
        "blake3"@
    }

    fn name(&self) -> (r: &'static str) {
        "blake3"
    }
}

impl HashInto for Blake3 {
    open spec fn spec_output(&self, input: Seq<u8>, len: nat) -> Seq<u8> {
        blake3_xof(input, len)
    }

    fn digest_into(&self, input: &[u8], buf: &mut [u8]) -> (n: usize) {
        let n = buf.len();
        blake3_fill(input, buf);
        n
    }
}

/// Parameters of a hash function that takes none beyond its name.
#[derive(Clone, Debug, PartialEq, Eq)]
pub struct HashNoParams {
    pub hash_function: String,
}

impl HashNoParams {
    /// The parameter description of `hasher`.
    pub fn of<H: SimpleHasher>(hasher: &H) -> (r: HashNoParams)
        ensures
            r.hash_function@ == hasher.spec_name(),
    {
        HashNoParams { hash_function: hasher.name().to_owned() }
    }
}

} // verus!
