//! Compact content-addressed identifiers that name a payload together with
//! hashes of the contexts needed to interpret it.
//!
//! A context description is encoded canonically as DAG-CBOR, hashed with the
//! BLAKE3 extendable-output function, and packed with the payload into the
//! layout `[tag] [block context hash] [id context hash] [payload]`.
use vstd::prelude::*;
use vstd::slice::slice_subrange;
use vstd::string::StringExecFns;

use libipld_cbor::DagCborCodec;
use libipld_core::codec::Codec;
use libipld_core::ipld::Ipld;
use tinyvec::ArrayVec;
use tinyvec::TryFromSliceError;

pub mod hash;

use crate::hash::{blake3_xof, Blake3, Hasher};

verus! {

// ---------------------------------------------------------------------------
// Outside types and calls
// ---------------------------------------------------------------------------

#[verifier::external_type_specification]
#[verifier::external_body]
pub struct ExIpld(Ipld);

#[verifier::external_type_specification]
#[verifier::external_body]
pub struct ExIpldError(libipld_core::error::Error);

#[verifier::external_type_specification]
#[verifier::external_body]
#[verifier::reject_recursive_types(A)]
pub struct ExArrayVec<A>(ArrayVec<A>);

#[verifier::external_type_specification]
#[verifier::external_body]
pub struct ExTryFromSliceError(TryFromSliceError);

/// The canonical DAG-CBOR bytes of a context description, or `None` when
/// the description holds a value that the encoding cannot represent.
pub uninterp spec fn dag_cbor_of(v: Ipld) -> Option<Seq<u8>>;

/// Relies on `DagCborCodec::encode` (the `Codec` trait of libipld-core) for
/// an `Ipld` value: whether it succeeds, and the bytes, depend on the value
/// alone.
#[verifier::external_body]
fn encode_dag_cbor(v: &Ipld) -> (r: Result<Vec<u8>, libipld_core::error::Error>)
    ensures
        r is Ok <==> dag_cbor_of(*v) is Some,
        r matches Ok(b) ==> dag_cbor_of(*v) == Some(b@),
{
    DagCborCodec.encode(v)
}

/// The bytes held by a short identifier's payload buffer.
pub uninterp spec fn short_payload(v: ArrayVec<[u8; 64]>) -> Seq<u8>;

/// The bytes held by a long identifier's payload buffer.
pub uninterp spec fn long_payload(v: ArrayVec<[u8; 512]>) -> Seq<u8>;

/// Relies on `ArrayVec::try_from` for a slice: it fails exactly when the slice
/// is longer than the capacity, and otherwise holds a copy of the slice.
#[verifier::external_body]
fn short_payload_from(data: &[u8]) -> (r: Result<ArrayVec<[u8; 64]>, TryFromSliceError>)
    ensures
        r is Ok <==> data@.len() <= 64,
        r matches Ok(v) ==> short_payload(v) == data@,
{
    ArrayVec::try_from(data)
}

/// Relies on `ArrayVec::as_slice`: the slice holds the stored bytes, never
/// more than the capacity.
#[verifier::external_body]
fn short_payload_slice(v: &ArrayVec<[u8; 64]>) -> (r: &[u8])
    ensures
        r@ == short_payload(*v),
        r@.len() <= 64,
{
    v.as_slice()
}

/// Relies on `ArrayVec::try_from` for a slice: it fails exactly when the slice
/// is longer than the capacity, and otherwise holds a copy of the slice.
#[verifier::external_body]
fn long_payload_from(data: &[u8]) -> (r: Result<ArrayVec<[u8; 512]>, TryFromSliceError>)
    ensures
        r is Ok <==> data@.len() <= 512,
        r matches Ok(v) ==> long_payload(v) == data@,
{
    ArrayVec::try_from(data)
}

/// Relies on `ArrayVec::as_slice`: the slice holds the stored bytes, never
/// more than the capacity.
#[verifier::external_body]
fn long_payload_slice(v: &ArrayVec<[u8; 512]>) -> (r: &[u8])
    ensures
        r@ == long_payload(*v),
        r@.len() <= 512,
{
    v.as_slice()
}

/// The lowercase hexadecimal digit for a value below sixteen.
pub open spec fn hex_digit(n: int) -> char {
    seq!['0', '1', '2', '3', '4', '5', '6', '7', '8', '9', 'a', 'b', 'c', 'd', 'e', 'f'][n]
}

/// Lowercase hexadecimal text of `b`, two digits per byte, high nibble first.
pub open spec fn hex_lower(b: Seq<u8>) -> Seq<char>
    decreases b.len(),
{
    if b.len() == 0 {
        seq![]
    } else {
        hex_lower(b.drop_last()) + seq![hex_digit(b.last() as int / 16), hex_digit(b.last() as int % 16)]
    }
}

/// Relies on `hex::encode`: two lowercase digits per byte.
#[verifier::external_body]
fn hex_string(b: &[u8]) -> (r: String)
    ensures
        r@ == hex_lower(b@),
{
    hex::encode(b)
}

/// Relies on `multibase::encode` with `Base::Base16Lower`: the base code `f`
/// followed by two lowercase hexadecimal digits per byte.
#[verifier::external_body]
fn multibase_hex(b: &[u8]) -> (r: String)
    ensures
        r@ == seq!['f'] + hex_lower(b@),
{
    multibase::encode(multibase::Base::Base16Lower, b)
}

// ---------------------------------------------------------------------------
// Layout constants and the abstract model
// ---------------------------------------------------------------------------

/// Class tag of a short identifier.
pub const SHORT_TAG: u8 = 0x0a;

/// Class tag of a long identifier.
pub const LONG_TAG: u8 = 0x0b;

/// Length of a short context hash.
pub const SHORT_HASH_LEN: usize = 4;

/// Length of a long context hash.
pub const LONG_HASH_LEN: usize = 32;

/// Largest payload of a short identifier.
pub const SHORT_MAX_DATA: usize = 64;

/// Largest payload of a long identifier.
pub const LONG_MAX_DATA: usize = 512;

/// Errors of identifier construction and parsing.
#[derive(Clone, Copy, Debug, PartialEq, Eq, Structural)]
pub enum XidError {
    /// A context description could not be encoded canonically.
    EncodingFailure,
    /// The payload exceeds the capacity of the identifier class.
    DataTooLarge,
    /// A byte buffer is not a serialized identifier of the expected class.
    MalformedIdentifier,
}

/// The fields of an identifier as byte sequences.
pub ghost struct XidParts {
    pub block_context: Seq<u8>,
    pub id_context: Seq<u8>,
    pub data: Seq<u8>,
}

/// The wire form of an identifier with class tag `tag`.
pub open spec fn serialized(tag: u8, p: XidParts) -> Seq<u8> {
    seq![tag] + p.block_context + p.id_context + p.data
}

/// The identifier that a buffer holds, for a class with the given tag,
/// block-context hash length and payload capacity.
pub open spec fn parsed(tag: u8, block_len: int, max_data: int, b: Seq<u8>) -> Option<XidParts> {
    if b.len() < 1 + block_len + 4 || b[0] != tag || b.len() > 1 + block_len + 4 + max_data {
        None
    } else {
        Some(
            XidParts {
                block_context: b.subrange(1, 1 + block_len),
                id_context: b.subrange(1 + block_len, 1 + block_len + 4),
                data: b.subrange(1 + block_len + 4, b.len() as int),
            },
        )
    }
}

/// The fields of a short identifier built from canonical context bytes.
pub open spec fn short_parts(id_bytes: Seq<u8>, block_bytes: Seq<u8>, data: Seq<u8>) -> XidParts {
    XidParts {
        block_context: blake3_xof(block_bytes, 4),
        id_context: blake3_xof(id_bytes, 4),
        data,
    }
}

/// The fields of a long identifier built from canonical context bytes.
pub open spec fn long_parts(id_bytes: Seq<u8>, block_bytes: Seq<u8>, data: Seq<u8>) -> XidParts {
    XidParts {
        block_context: blake3_xof(block_bytes, 32),
        id_context: blake3_xof(id_bytes, 4),
        data,
    }
}

// ---------------------------------------------------------------------------
// Byte helpers
// ---------------------------------------------------------------------------

/// Appends `s` to `v`.
fn push_all(v: &mut Vec<u8>, s: &[u8])
    ensures
        final(v)@ == old(v)@ + s@,
{
    let mut i: usize = 0;
    while i < s.len()
        invariant
            i <= s@.len(),
            v@ == old(v)@ + s@.take(i as int),
        decreases s@.len() - i,
    {
        v.push(s[i]);
        i = i + 1;
        proof {
            assert(s@.take(i as int) == s@.take(i - 1) + seq![s@[i - 1]]);
        }
    }
    assert(s@.take(s@.len() as int) == s@);
}

/// Copies `s` into `buf` from position `at` on, and returns the position
/// after the copy.
fn copy_at(buf: &mut [u8], at: usize, s: &[u8]) -> (end: usize)
    requires
        at + s@.len() <= old(buf)@.len(),
    ensures
        end == at + s@.len(),
        final(buf)@.len() == old(buf)@.len(),
        final(buf)@.subrange(at as int, end as int) == s@,
        forall|k: int| 0 <= k < at || end <= k < old(buf)@.len() ==> final(buf)@[k] == old(buf)@[k],
{
    let n = buf.len();
    let mut i: usize = 0;
    while i < s.len()
        invariant
            i <= s@.len(),
            n == old(buf)@.len(),
            at + s@.len() <= old(buf)@.len(),
            buf@.len() == old(buf)@.len(),
            forall|k: int| 0 <= k < i ==> buf@[at + k] == s@[k],
            forall|k: int| 0 <= k < at || at + i <= k < old(buf)@.len() ==> buf@[k] == old(buf)@[k],
        decreases s@.len() - i,
    {
        buf[at + i] = s[i];
        i = i + 1;
    }
    assert(buf@.subrange(at as int, at + s@.len()) =~= s@);
    at + s.len()
}

/// Whether two byte slices hold the same bytes.
fn bytes_eq(a: &[u8], b: &[u8]) -> (r: bool)
    ensures
        r == (a@ == b@),
{
    if a.len() != b.len() {
        return false;
    }
    let mut i: usize = 0;
    while i < a.len()
        invariant
            i <= a@.len(),
            a@.len() == b@.len(),
            forall|k: int| 0 <= k < i ==> a@[k] == b@[k],
        decreases a@.len() - i,
    {
        if a[i] != b[i] {
            return false;
        }
        i = i + 1;
    }
    assert(a@ =~= b@);
    true
}

/// The four bytes of `b` from position `at` on.
fn take4(b: &[u8], at: usize) -> (r: [u8; 4])
    requires
        at + 4 <= b@.len(),
    ensures
        r@ == b@.subrange(at as int, at + 4),
{
    let r = [b[at], b[at + 1], b[at + 2], b[at + 3]];
    assert(r@ =~= b@.subrange(at as int, at + 4));
    r
}

/// The thirty-two bytes of `b` from position `at` on.
fn take32(b: &[u8], at: usize) -> (r: [u8; 32])
    requires
        at + 32 <= b@.len(),
    ensures
        r@ == b@.subrange(at as int, at + 32),
{
    let n = b.len();
    let mut r = [0u8; 32];
    let mut i: usize = 0;
    while i < 32
        invariant
            i <= 32,
            n == b@.len(),
            at + 32 <= b@.len(),
            forall|k: int| 0 <= k < i ==> r@[k] == b@[at + k],
        decreases 32 - i,
    {
        r[i] = b[at + i];
        i = i + 1;
    }
    assert(r@ =~= b@.subrange(at as int, at + 32));
    r
}

// ---------------------------------------------------------------------------
// Context hashes
// ---------------------------------------------------------------------------

/// The 4-byte context hash of canonical context bytes.
pub fn short_context_hash(bytes: &[u8]) -> (r: [u8; 4])
    ensures
        r@ == blake3_xof(bytes@, 4),
{
    Hasher::<4>::digest(&Blake3, bytes)
}

/// The 32-byte context hash of canonical context bytes. Its first four bytes
/// are the 4-byte context hash of the same bytes.
pub fn long_context_hash(bytes: &[u8]) -> (r: [u8; 32])
    ensures
        r@ == blake3_xof(bytes@, 32),
        r@.take(4) == blake3_xof(bytes@, 4),
{
    let h = Blake3;
    let r: [u8; 32] = Hasher::<32>::digest(&h, bytes);
    assert(Hasher::<32>::spec_stream(&h, bytes@, 4) == r@.take(4));
    r
}

/// The debug text of a short identifier with fields `p`.
pub open spec fn short_debug_text(p: XidParts) -> Seq<char> {
    "XidShort { block_context: \""@ + hex_lower(p.block_context) + "\", id_context: \""@
        + hex_lower(p.id_context) + "\", id_data: \""@ + hex_lower(p.data) + "\" }"@
}

// ---------------------------------------------------------------------------
// Short identifiers
// ---------------------------------------------------------------------------

/// An identifier with a 4-byte block-context hash, a 4-byte id-context hash
/// and at most 64 payload bytes (class tag `0x0a`).
#[derive(Clone, Copy, Debug)]
pub struct XidShort {
    block_context: [u8; 4],
    id_context: [u8; 4],
    data: ArrayVec<[u8; 64]>,
}

impl View for XidShort {
    type V = XidParts;

    closed spec fn view(&self) -> XidParts {
        XidParts {
            block_context: self.block_context@,
            id_context: self.id_context@,
            data: short_payload(self.data),
        }
    }
}

impl XidShort {
    /// The hashes have their class lengths and the payload fits the class.
    pub open spec fn wf(&self) -> bool {
        &&& self@.block_context.len() == 4
        &&& self@.id_context.len() == 4
        &&& self@.data.len() <= 64
    }

    /// Builds a short identifier from canonical context bytes: each stream is
    /// hashed to four bytes by its own hasher instance.
    pub fn from_context_bytes(id_bytes: &[u8], block_bytes: &[u8], data: &[u8]) -> (r: Result<
        XidShort,
        XidError,
    >)
        ensures
            r is Ok <==> data@.len() <= 64,
            r matches Err(e) ==> e == XidError::DataTooLarge,
            r matches Ok(x) ==> x.wf() && x@ == short_parts(id_bytes@, block_bytes@, data@),
    {
        let id_context = short_context_hash(id_bytes);
        let block_context = short_context_hash(block_bytes);
        match short_payload_from(data) {
            Ok(payload) => Ok(XidShort { block_context, id_context, data: payload }),
            Err(_) => Err(XidError::DataTooLarge),
        }
    }

    /// Builds a short identifier from an id-context description, a
    /// block-context description and a payload. Both descriptions are
    /// encoded as canonical DAG-CBOR, independently of each other.
    pub fn new(id_context: &Ipld, block_context: &Ipld, data: &[u8]) -> (r: Result<XidShort, XidError>)
        ensures
            r is Ok <==> (dag_cbor_of(*id_context) is Some && dag_cbor_of(*block_context) is Some
                && data@.len() <= 64),
            (dag_cbor_of(*id_context) is None || dag_cbor_of(*block_context) is None) ==> r == Err::<
                XidShort,
                XidError,
            >(XidError::EncodingFailure),
            (dag_cbor_of(*id_context) is Some && dag_cbor_of(*block_context) is Some && data@.len()
                > 64) ==> r == Err::<XidShort, XidError>(XidError::DataTooLarge),
            r matches Ok(x) ==> x.wf() && x@ == short_parts(
                dag_cbor_of(*id_context).unwrap(),
                dag_cbor_of(*block_context).unwrap(),
                data@,
            ),
    {
        let id_bytes = match encode_dag_cbor(id_context) {
            Ok(b) => b,
            Err(_) => return Err(XidError::EncodingFailure),
        };
        let block_bytes = match encode_dag_cbor(block_context) {
            Ok(b) => b,
            Err(_) => return Err(XidError::EncodingFailure),
        };
        XidShort::from_context_bytes(id_bytes.as_slice(), block_bytes.as_slice(), data)
    }

    /// The id-context hash.
    pub fn id_context_hash(&self) -> (r: &[u8])
        ensures
            r@ == self@.id_context,
            r@.len() == 4,
    {
        self.id_context.as_slice()
    }

    /// The block-context hash.
    pub fn block_context_hash(&self) -> (r: &[u8])
        ensures
            r@ == self@.block_context,
            r@.len() == 4,
    {
        self.block_context.as_slice()
    }

    /// The payload.
    pub fn id_data(&self) -> (r: &[u8])
        ensures
            r@ == self@.data,
            r@.len() <= 64,
    {
        short_payload_slice(&self.data)
    }

    /// Length of the wire form.
    pub fn serialized_len(&self) -> (r: usize)
        ensures
            r == serialized(SHORT_TAG, self@).len(),
    {
        let d = self.id_data();
        let n = d.len();
        9 + n
    }

    /// The wire form `[0x0a] [block context hash] [id context hash] [payload]`.
    pub fn to_bytes(&self) -> (r: Vec<u8>)
        ensures
            r@ == serialized(SHORT_TAG, self@),
            r@[0] == SHORT_TAG,
    {
        let mut v: Vec<u8> = Vec::new();
        v.push(SHORT_TAG);
        push_all(&mut v, self.block_context_hash());
        push_all(&mut v, self.id_context_hash());
        push_all(&mut v, self.id_data());
        assert(v@ =~= serialized(SHORT_TAG, self@));
        v
    }

    /// Writes the wire form to the start of `buf`, which must be large enough
    /// to hold it; the rest of `buf` is left as it was.
    pub fn write_into(&self, buf: &mut [u8])
        requires
            old(buf)@.len() >= serialized(SHORT_TAG, self@).len(),
        ensures
            final(buf)@.len() == old(buf)@.len(),
            final(buf)@.take(serialized(SHORT_TAG, self@).len() as int) == serialized(SHORT_TAG, self@),
            forall|k: int|
                serialized(SHORT_TAG, self@).len() <= k < old(buf)@.len() ==> final(buf)@[k] == old(buf)@[k],
    {
        let ghost s = serialized(SHORT_TAG, self@);
        buf[0] = SHORT_TAG;
        let at = copy_at(buf, 1, self.block_context_hash());
        let at = copy_at(buf, at, self.id_context_hash());
        let end = copy_at(buf, at, self.id_data());
        assert(buf@.take(end as int) =~= s) by {
            assert forall|k: int| 0 <= k < end implies buf@[k] == s[k] by {
                if k >= 5 && k < 9 {
                    assert(buf@[k] == buf@.subrange(5, 9)[k - 5]);
                } else if k >= 1 && k < 5 {
                    assert(buf@[k] == buf@.subrange(1, 5)[k - 1]);
                } else if k >= 9 {
                    assert(buf@[k] == buf@.subrange(9, end as int)[k - 9]);
                }
            }
        }
    }

    /// Reads a short identifier back from its wire form. The buffer must hold
    /// the tag `0x0a`, both hashes and at most 64 payload bytes.
    pub fn from_bytes(b: &[u8]) -> (r: Result<XidShort, XidError>)
        ensures
            r is Ok <==> parsed(SHORT_TAG, 4, 64, b@) is Some,
            r matches Err(e) ==> e == XidError::MalformedIdentifier,
            r matches Ok(x) ==> x.wf() && Some(x@) == parsed(SHORT_TAG, 4, 64, b@),
    {
        if b.len() < 9 || b[0] != SHORT_TAG || b.len() > 9 + 64 {
            return Err(XidError::MalformedIdentifier);
        }
        let block_context = take4(b, 1);
        let id_context = take4(b, 5);
        let data = slice_subrange(b, 9, b.len());
        match short_payload_from(data) {
            Ok(payload) => Ok(XidShort { block_context, id_context, data: payload }),
            Err(_) => Err(XidError::MalformedIdentifier),
        }
    }

    /// Text form: the wire form as multibase lowercase hexadecimal.
    pub fn to_multibase(&self) -> (r: String)
        ensures
            r@ == seq!['f'] + hex_lower(serialized(SHORT_TAG, self@)),
    {
        let b = self.to_bytes();
        multibase_hex(b.as_slice())
    }

    /// Debug text: `XidShort { block_context: "..", id_context: "..",
    /// id_data: ".." }` with each field as quoted lowercase hexadecimal.
    pub fn debug_string(&self) -> (r: String)
        ensures
            r@ == short_debug_text(self@),
    {
        let (block, id, data) = self.hex_fields();
        let mut s = <String as StringExecFns>::from_str("XidShort { block_context: \"");
        s.append(block.as_str());
        s.append("\", id_context: \"");
        s.append(id.as_str());
        s.append("\", id_data: \"");
        s.append(data.as_str());
        s.append("\" }");
        s
    }

    /// The block-context hash, the id-context hash and the payload, each as
    /// lowercase hexadecimal.
    pub fn hex_fields(&self) -> (r: (String, String, String))
        ensures
            r.0@ == hex_lower(self@.block_context),
            r.1@ == hex_lower(self@.id_context),
            r.2@ == hex_lower(self@.data),
    {
        (
            hex_string(self.block_context_hash()),
            hex_string(self.id_context_hash()),
            hex_string(self.id_data()),
        )
    }
}

impl PartialEq for XidShort {
    fn eq(&self, o: &XidShort) -> (r: bool) {
        bytes_eq(self.block_context_hash(), o.block_context_hash()) && bytes_eq(
            self.id_context_hash(),
            o.id_context_hash(),
        ) && bytes_eq(self.id_data(), o.id_data())
    }
}

impl vstd::std_specs::cmp::PartialEqSpecImpl for XidShort {
    open spec fn obeys_eq_spec() -> bool {
        true
    }

    open spec fn eq_spec(&self, o: &XidShort) -> bool {
        self@ == o@
    }
}

impl Eq for XidShort {

}

// ---------------------------------------------------------------------------
// Long identifiers
// ---------------------------------------------------------------------------

/// An identifier with a 32-byte block-context hash, a 4-byte id-context hash
/// and at most 512 payload bytes (class tag `0x0b`).
#[derive(Clone, Copy, Debug)]
pub struct XidLong {
    block_context: [u8; 32],
    id_context: [u8; 4],
    data: ArrayVec<[u8; 512]>,
}

impl View for XidLong {
    type V = XidParts;

    closed spec fn view(&self) -> XidParts {
        XidParts {
            block_context: self.block_context@,
            id_context: self.id_context@,
            data: long_payload(self.data),
        }
    }
}

impl XidLong {
    /// The hashes have their class lengths and the payload fits the class.
    pub open spec fn wf(&self) -> bool {
        &&& self@.block_context.len() == 32
        &&& self@.id_context.len() == 4
        &&& self@.data.len() <= 512
    }

    /// Builds a long identifier from canonical context bytes. Each stream is
    /// hashed by its own hasher instance, the id context to four bytes and
    /// the block context to thirty-two.
    pub fn from_context_bytes(id_bytes: &[u8], block_bytes: &[u8], data: &[u8]) -> (r: Result<
        XidLong,
        XidError,
    >)
        ensures
            r is Ok <==> data@.len() <= 512,
            r matches Err(e) ==> e == XidError::DataTooLarge,
            r matches Ok(x) ==> x.wf() && x@ == long_parts(id_bytes@, block_bytes@, data@),
            r matches Ok(x) ==> x@.block_context.take(4) == blake3_xof(block_bytes@, 4),
    {
        let id_context = short_context_hash(id_bytes);
        let block_context = long_context_hash(block_bytes);
        match long_payload_from(data) {
            Ok(payload) => Ok(XidLong { block_context, id_context, data: payload }),
            Err(_) => Err(XidError::DataTooLarge),
        }
    }

    /// Builds a long identifier from an id-context description, a
    /// block-context description and a payload. Both descriptions are
    /// encoded as canonical DAG-CBOR, independently of each other.
    pub fn new(id_context: &Ipld, block_context: &Ipld, data: &[u8]) -> (r: Result<XidLong, XidError>)
        ensures
            r is Ok <==> (dag_cbor_of(*id_context) is Some && dag_cbor_of(*block_context) is Some
                && data@.len() <= 512),
            (dag_cbor_of(*id_context) is None || dag_cbor_of(*block_context) is None) ==> r == Err::<
                XidLong,
                XidError,
            >(XidError::EncodingFailure),
            (dag_cbor_of(*id_context) is Some && dag_cbor_of(*block_context) is Some && data@.len()
                > 512) ==> r == Err::<XidLong, XidError>(XidError::DataTooLarge),
            r matches Ok(x) ==> x.wf() && x@ == long_parts(
                dag_cbor_of(*id_context).unwrap(),
                dag_cbor_of(*block_context).unwrap(),
                data@,
            ),
    {
        let id_bytes = match encode_dag_cbor(id_context) {
            Ok(b) => b,
            Err(_) => return Err(XidError::EncodingFailure),
        };
        let block_bytes = match encode_dag_cbor(block_context) {
            Ok(b) => b,
            Err(_) => return Err(XidError::EncodingFailure),
        };
        XidLong::from_context_bytes(id_bytes.as_slice(), block_bytes.as_slice(), data)
    }

    /// The id-context hash.
    pub fn id_context_hash(&self) -> (r: &[u8])
        ensures
            r@ == self@.id_context,
            r@.len() == 4,
    {
        self.id_context.as_slice()
    }

    /// The block-context hash.
    pub fn block_context_hash(&self) -> (r: &[u8])
        ensures
            r@ == self@.block_context,
            r@.len() == 32,
    {
        self.block_context.as_slice()
    }

    /// The payload.
    pub fn id_data(&self) -> (r: &[u8])
        ensures
            r@ == self@.data,
            r@.len() <= 512,
    {
        long_payload_slice(&self.data)
    }

    /// Length of the wire form.
    pub fn serialized_len(&self) -> (r: usize)
        ensures
            r == serialized(LONG_TAG, self@).len(),
    {
        let d = self.id_data();
        let n = d.len();
        37 + n
    }

    /// The wire form `[0x0b] [block context hash] [id context hash] [payload]`.
    pub fn to_bytes(&self) -> (r: Vec<u8>)
        ensures
            r@ == serialized(LONG_TAG, self@),
            r@[0] == LONG_TAG,
    {
        let mut v: Vec<u8> = Vec::new();
        v.push(LONG_TAG);
        push_all(&mut v, self.block_context_hash());
        push_all(&mut v, self.id_context_hash());
        push_all(&mut v, self.id_data());
        assert(v@ =~= serialized(LONG_TAG, self@));
        v
    }

    /// Writes the wire form to the start of `buf`, which must be large enough
    /// to hold it; the rest of `buf` is left as it was.
    pub fn write_into(&self, buf: &mut [u8])
        requires
            old(buf)@.len() >= serialized(LONG_TAG, self@).len(),
        ensures
            final(buf)@.len() == old(buf)@.len(),
            final(buf)@.take(serialized(LONG_TAG, self@).len() as int) == serialized(LONG_TAG, self@),
            forall|k: int|
                serialized(LONG_TAG, self@).len() <= k < old(buf)@.len() ==> final(buf)@[k] == old(buf)@[k],
    {
        let ghost s = serialized(LONG_TAG, self@);
        buf[0] = LONG_TAG;
        let at = copy_at(buf, 1, self.block_context_hash());
        let at = copy_at(buf, at, self.id_context_hash());
        let end = copy_at(buf, at, self.id_data());
        assert(buf@.take(end as int) =~= s) by {
            assert forall|k: int| 0 <= k < end implies buf@[k] == s[k] by {
                if k >= 33 && k < 37 {
                    assert(buf@[k] == buf@.subrange(33, 37)[k - 33]);
                } else if k >= 1 && k < 33 {
                    assert(buf@[k] == buf@.subrange(1, 33)[k - 1]);
                } else if k >= 37 {
                    assert(buf@[k] == buf@.subrange(37, end as int)[k - 37]);
                }
            }
        }
    }

    /// Reads a long identifier back from its wire form. The buffer must hold
    /// the tag `0x0b`, both hashes and at most 512 payload bytes.
    pub fn from_bytes(b: &[u8]) -> (r: Result<XidLong, XidError>)
        ensures
            r is Ok <==> parsed(LONG_TAG, 32, 512, b@) is Some,
            r matches Err(e) ==> e == XidError::MalformedIdentifier,
            r matches Ok(x) ==> x.wf() && Some(x@) == parsed(LONG_TAG, 32, 512, b@),
    {
        if b.len() < 37 || b[0] != LONG_TAG || b.len() > 37 + 512 {
            return Err(XidError::MalformedIdentifier);
        }
        let block_context = take32(b, 1);
        let id_context = take4(b, 33);
        let data = slice_subrange(b, 37, b.len());
        match long_payload_from(data) {
            Ok(payload) => Ok(XidLong { block_context, id_context, data: payload }),
            Err(_) => Err(XidError::MalformedIdentifier),
        }
    }

    /// Text form: the wire form as multibase lowercase hexadecimal.
    pub fn to_multibase(&self) -> (r: String)
        ensures
            r@ == seq!['f'] + hex_lower(serialized(LONG_TAG, self@)),
    {
        let b = self.to_bytes();
        multibase_hex(b.as_slice())
    }

    /// The short identifier with the same contexts and payload: its
    /// block-context hash is the first four bytes of this one's. Fails when
    /// the payload does not fit a short identifier.
    pub fn to_short(&self) -> (r: Result<XidShort, XidError>)
        ensures
            r is Ok <==> self@.data.len() <= 64,
            r matches Err(e) ==> e == XidError::DataTooLarge,
            r matches Ok(x) ==> x.wf() && x@ == (XidParts {
                block_context: self@.block_context.take(4),
                id_context: self@.id_context,
                data: self@.data,
            }),
    {
        let block_context = take4(self.block_context_hash(), 0);
        assert(self@.block_context.subrange(0, 4) == self@.block_context.take(4));
        match short_payload_from(self.id_data()) {
            Ok(payload) => Ok(XidShort { block_context, id_context: self.id_context, data: payload }),
            Err(_) => Err(XidError::DataTooLarge),
        }
    }
}

impl PartialEq for XidLong {
    fn eq(&self, o: &XidLong) -> (r: bool) {
        bytes_eq(self.block_context_hash(), o.block_context_hash()) && bytes_eq(
            self.id_context_hash(),
            o.id_context_hash(),
        ) && bytes_eq(self.id_data(), o.id_data())
    }
}

impl vstd::std_specs::cmp::PartialEqSpecImpl for XidLong {
    open spec fn obeys_eq_spec() -> bool {
        true
    }

    open spec fn eq_spec(&self, o: &XidLong) -> bool {
        self@ == o@
    }
}

impl Eq for XidLong {

}

/// The wire form of a short identifier.
impl From<XidShort> for Vec<u8> {
    fn from(x: XidShort) -> (r: Vec<u8>)
        ensures
            r@ == serialized(SHORT_TAG, x@),
    {
        x.to_bytes()
    }
}

impl vstd::std_specs::convert::FromSpecImpl<XidShort> for Vec<u8> {
    open spec fn obeys_from_spec() -> bool {
        false
    }

    open spec fn from_spec(x: XidShort) -> Vec<u8> {
        arbitrary()
    }
}

// ---------------------------------------------------------------------------
// Either class
// ---------------------------------------------------------------------------

/// An identifier of either class.
#[derive(Clone, Copy, Debug, PartialEq, Eq)]
pub enum AnyXid {
    Short(XidShort),
    Long(XidLong),
}

/// Reads an identifier of either class from its wire form, choosing the
/// layout by the class tag in the first byte.
pub fn parse(b: &[u8]) -> (r: Result<AnyXid, XidError>)
    ensures
        r is Ok <==> (parsed(SHORT_TAG, 4, 64, b@) is Some || parsed(LONG_TAG, 32, 512, b@) is Some),
        r matches Err(e) ==> e == XidError::MalformedIdentifier,
        r matches Ok(AnyXid::Short(x)) ==> x.wf() && Some(x@) == parsed(SHORT_TAG, 4, 64, b@),
        r matches Ok(AnyXid::Long(x)) ==> x.wf() && Some(x@) == parsed(LONG_TAG, 32, 512, b@),
{
    if b.len() == 0 {
        Err(XidError::MalformedIdentifier)
    } else if b[0] == SHORT_TAG {
        match XidShort::from_bytes(b) {
            Ok(x) => Ok(AnyXid::Short(x)),
            Err(e) => Err(e),
        }
    } else {
        match XidLong::from_bytes(b) {
            Ok(x) => Ok(AnyXid::Long(x)),
            Err(e) => Err(e),
        }
    }
}

// ---------------------------------------------------------------------------
// Laws
// ---------------------------------------------------------------------------

/// Construction is deterministic: two short identifiers built from the same
/// context descriptions and payload are equal and have the same wire form.
pub proof fn lemma_short_deterministic(id: Ipld, block: Ipld, data: Seq<u8>, a: XidShort, b: XidShort)
    requires
        dag_cbor_of(id) is Some,
        dag_cbor_of(block) is Some,
        a@ == short_parts(dag_cbor_of(id).unwrap(), dag_cbor_of(block).unwrap(), data),
        b@ == short_parts(dag_cbor_of(id).unwrap(), dag_cbor_of(block).unwrap(), data),
    ensures
        a@ == b@,
        serialized(SHORT_TAG, a@) == serialized(SHORT_TAG, b@),
{
}

/// Construction is deterministic: two long identifiers built from the same
/// context descriptions and payload are equal and have the same wire form.
pub proof fn lemma_long_deterministic(id: Ipld, block: Ipld, data: Seq<u8>, a: XidLong, b: XidLong)
    requires
        dag_cbor_of(id) is Some,
        dag_cbor_of(block) is Some,
        a@ == long_parts(dag_cbor_of(id).unwrap(), dag_cbor_of(block).unwrap(), data),
        b@ == long_parts(dag_cbor_of(id).unwrap(), dag_cbor_of(block).unwrap(), data),
    ensures
        a@ == b@,
        serialized(LONG_TAG, a@) == serialized(LONG_TAG, b@),
{
}

/// Parsing the wire form of a short identifier gives it back, and the wire
/// form is never read as a long identifier.
pub proof fn lemma_short_round_trip(v: XidShort)
    requires
        v.wf(),
    ensures
        parsed(SHORT_TAG, 4, 64, serialized(SHORT_TAG, v@)) == Some(v@),
        parsed(LONG_TAG, 32, 512, serialized(SHORT_TAG, v@)) is None,
{
    let s = serialized(SHORT_TAG, v@);
    assert(s.subrange(1, 5) =~= v@.block_context);
    assert(s.subrange(5, 9) =~= v@.id_context);
    assert(s.subrange(9, s.len() as int) =~= v@.data);
}

/// Parsing the wire form of a long identifier gives it back, and the wire
/// form is never read as a short identifier.
pub proof fn lemma_long_round_trip(v: XidLong)
    requires
        v.wf(),
    ensures
        parsed(LONG_TAG, 32, 512, serialized(LONG_TAG, v@)) == Some(v@),
        parsed(SHORT_TAG, 4, 64, serialized(LONG_TAG, v@)) is None,
{
    let s = serialized(LONG_TAG, v@);
    assert(s.subrange(1, 33) =~= v@.block_context);
    assert(s.subrange(33, 37) =~= v@.id_context);
    assert(s.subrange(37, s.len() as int) =~= v@.data);
}

/// Two short identifiers are equal exactly when their wire forms are.
pub proof fn lemma_short_eq_iff_wire_eq(a: XidShort, b: XidShort)
    requires
        a.wf(),
        b.wf(),
    ensures
        a@ == b@ <==> serialized(SHORT_TAG, a@) == serialized(SHORT_TAG, b@),
{
    lemma_short_round_trip(a);
    lemma_short_round_trip(b);
}

/// Two long identifiers are equal exactly when their wire forms are.
pub proof fn lemma_long_eq_iff_wire_eq(a: XidLong, b: XidLong)
    requires
        a.wf(),
        b.wf(),
    ensures
        a@ == b@ <==> serialized(LONG_TAG, a@) == serialized(LONG_TAG, b@),
{
    lemma_long_round_trip(a);
    lemma_long_round_trip(b);
}

/// The wire form of each class starts with its class tag.
pub proof fn lemma_tags(short: XidParts, long: XidParts)
    ensures
        serialized(SHORT_TAG, short)[0] == 0x0a,
        serialized(LONG_TAG, long)[0] == 0x0b,
{
}

} // verus!
