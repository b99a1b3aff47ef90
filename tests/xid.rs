use std::collections::BTreeMap;
use std::hash::Hasher as _;

use libipld_cbor::DagCborCodec;
use libipld_core::codec::Codec;
use libipld_core::ipld::Ipld;
use sha::utils::DigestExt;

use xid::hash::{Blake3, HashInto, HashNoParams, Hasher, SimpleHasher};
use xid::{
    long_context_hash, parse, short_context_hash, AnyXid, XidError, XidLong, XidShort, LONG_TAG,
    SHORT_TAG,
};

fn ctx(entries: &[(&str, Ipld)]) -> Ipld {
    let mut m = BTreeMap::new();
    for (k, v) in entries {
        m.insert(k.to_string(), v.clone());
    }
    Ipld::StringMap(m)
}

fn text(s: &str) -> Ipld {
    Ipld::String(s.to_string())
}

fn codec_ctx(codec: &str) -> Ipld {
    ctx(&[("codec", text(codec))])
}

fn sha256_of_b0ba() -> Vec<u8> {
    let mut hasher = sha::sha256::Sha256::default();
    hasher.write(&[0xb0, 0xba]);
    hasher.to_bytes()
}

#[test]
fn foo() {
    let id_ctx = ctx(&[("name", text("foo")), ("length", Ipld::Integer(1))]);
    let b_ctx = codec_ctx("dag-cbor");

    let a = XidShort::new(&id_ctx, &b_ctx, &[0xff]).unwrap();
    println!("{:?}", a);
    println!("{}", a.to_multibase());
    let (block, id, data) = a.hex_fields();
    println!("{}-{}-{}", block, id, data);
    assert_eq!(block.len(), 8);
    assert_eq!(id.len(), 8);
    assert_eq!(data, "ff");
    assert_eq!(a.to_multibase(), format!("f0a{}{}{}", block, id, data));
}

#[test]
fn sha() {
    let id_ctx2 = ctx(&[("name", text("sha")), ("length", Ipld::Integer(32u32 as i128))]);
    let id_ctx = ctx(&[("name", text("sha")), ("length", Ipld::Integer(32u64 as i128))]);
    let b_ctx = codec_ctx("dag-cbor");

    let digest = sha256_of_b0ba();
    let a = XidShort::new(&id_ctx, &b_ctx, &digest).unwrap();
    let b = XidShort::new(&id_ctx2, &b_ctx, &digest).unwrap();
    println!("{:?}\n{}", a, a.to_multibase());
    assert!(a == b);
}

#[test]
fn context_hash() {
    let c = codec_ctx("dag-json");
    let v = DagCborCodec.encode(&c).unwrap();
    let v_o = short_context_hash(&v);
    println!("{}", hex::encode(v_o));
    assert_eq!(v_o.to_vec(), long_context_hash(&v)[..4].to_vec());
}

#[test]
fn end_to_end_short_scenario() {
    let id_ctx = ctx(&[("name", text("sha")), ("length", Ipld::Integer(32))]);
    let b_ctx = codec_ctx("dag-cbor");
    let digest = sha256_of_b0ba();
    assert_eq!(digest.len(), 32);
    let a = XidShort::new(&id_ctx, &b_ctx, &digest).unwrap();
    let bytes = a.to_bytes();
    assert_eq!(bytes.len(), 41);
    assert_eq!(a.serialized_len(), 41);
    let back = XidShort::from_bytes(&bytes).unwrap();
    assert!(back == a);
    assert_eq!(back.block_context_hash(), a.block_context_hash());
    assert_eq!(back.id_context_hash(), a.id_context_hash());
    assert_eq!(back.id_data(), &digest[..]);
}

#[test]
fn canonical_bytes_of_codec_context() {
    // {"codec": "dag-cbor"} in DAG-CBOR
    let enc: Vec<u8> = vec![
        0xa1, 0x65, b'c', b'o', b'd', b'e', b'c', 0x68, b'd', b'a', b'g', b'-', b'c', b'b', b'o',
        b'r',
    ];
    let from_desc = XidShort::new(&codec_ctx("dag-cbor"), &codec_ctx("dag-cbor"), &[1, 2]).unwrap();
    let from_bytes = XidShort::from_context_bytes(&enc, &enc, &[1, 2]).unwrap();
    assert!(from_desc == from_bytes);
}

#[test]
fn blake3_known_value() {
    assert_eq!(short_context_hash(&[]), [0xaf, 0x13, 0x49, 0xb9]);
    let long = long_context_hash(&[]);
    assert_eq!(
        hex::encode(long),
        "af1349b9f5f9a1a6a0404dea36dcc9499bcb25c9adc112b7cc9a93cae41f3262"
    );
}

#[test]
fn hashes_are_independent_per_context() {
    let id_ctx = ctx(&[("name", text("sha")), ("length", Ipld::Integer(32))]);
    let b_ctx = codec_ctx("dag-cbor");
    let a = XidShort::new(&id_ctx, &b_ctx, &[]).unwrap();
    let id_bytes = DagCborCodec.encode(&id_ctx).unwrap();
    let b_bytes = DagCborCodec.encode(&b_ctx).unwrap();
    assert_eq!(a.id_context_hash(), &short_context_hash(&id_bytes)[..]);
    assert_eq!(a.block_context_hash(), &short_context_hash(&b_bytes)[..]);
    assert_ne!(a.id_context_hash(), a.block_context_hash());
}

#[test]
fn construction_is_deterministic() {
    let id_ctx = ctx(&[("name", text("foo")), ("length", Ipld::Integer(1))]);
    let b_ctx = codec_ctx("dag-cbor");
    let a = XidShort::new(&id_ctx, &b_ctx, &[7, 8, 9]).unwrap();
    let b = XidShort::new(&id_ctx, &b_ctx, &[7, 8, 9]).unwrap();
    assert_eq!(a.to_bytes(), b.to_bytes());
    let c = XidLong::new(&id_ctx, &b_ctx, &[7, 8, 9]).unwrap();
    let d = XidLong::new(&id_ctx, &b_ctx, &[7, 8, 9]).unwrap();
    assert_eq!(c.to_bytes(), d.to_bytes());
}

#[test]
fn short_boundary() {
    let b_ctx = codec_ctx("dag-cbor");
    assert!(XidShort::new(&b_ctx, &b_ctx, &[0u8; 64]).is_ok());
    assert_eq!(XidShort::new(&b_ctx, &b_ctx, &[0u8; 65]).unwrap_err(), XidError::DataTooLarge);
    assert!(XidShort::from_context_bytes(&[1], &[2], &[0u8; 64]).is_ok());
    assert_eq!(
        XidShort::from_context_bytes(&[1], &[2], &[0u8; 65]).unwrap_err(),
        XidError::DataTooLarge
    );
}

#[test]
fn long_boundary() {
    let b_ctx = codec_ctx("dag-cbor");
    assert!(XidLong::new(&b_ctx, &b_ctx, &[0u8; 512]).is_ok());
    assert_eq!(XidLong::new(&b_ctx, &b_ctx, &[0u8; 513]).unwrap_err(), XidError::DataTooLarge);
    assert!(XidLong::from_context_bytes(&[1], &[2], &[0u8; 512]).is_ok());
    assert_eq!(
        XidLong::from_context_bytes(&[1], &[2], &[0u8; 513]).unwrap_err(),
        XidError::DataTooLarge
    );
}

#[test]
fn truncation_consistency() {
    let enc = DagCborCodec.encode(&codec_ctx("dag-cbor")).unwrap();
    let h32 = long_context_hash(&enc);
    let h4 = short_context_hash(&enc);
    assert_eq!(&h4[..], &h32[0..4]);

    let id_ctx = ctx(&[("name", text("sha")), ("length", Ipld::Integer(32))]);
    let long = XidLong::new(&id_ctx, &codec_ctx("dag-cbor"), &[5; 10]).unwrap();
    let short = XidShort::new(&id_ctx, &codec_ctx("dag-cbor"), &[5; 10]).unwrap();
    assert!(long.to_short().unwrap() == short);
    assert_eq!(long.block_context_hash(), &h32[..]);
}

#[test]
fn truncating_a_large_payload_fails() {
    let long = XidLong::from_context_bytes(&[1], &[2], &[0u8; 65]).unwrap();
    assert_eq!(long.to_short().unwrap_err(), XidError::DataTooLarge);
    let long = XidLong::from_context_bytes(&[1], &[2], &[0u8; 64]).unwrap();
    assert!(long.to_short().is_ok());
}

#[test]
fn distinct_contexts_give_distinct_hashes() {
    let a = DagCborCodec.encode(&codec_ctx("dag-cbor")).unwrap();
    let b = DagCborCodec.encode(&codec_ctx("dag-json")).unwrap();
    assert_ne!(a, b);
    assert_ne!(short_context_hash(&a), short_context_hash(&b));
    assert_ne!(long_context_hash(&a), long_context_hash(&b));
}

#[test]
fn tags() {
    let s = XidShort::from_context_bytes(&[1], &[2], &[3]).unwrap();
    let l = XidLong::from_context_bytes(&[1], &[2], &[3]).unwrap();
    assert_eq!(s.to_bytes()[0], 0x0a);
    assert_eq!(l.to_bytes()[0], 0x0b);
    assert_eq!(SHORT_TAG, 0x0a);
    assert_eq!(LONG_TAG, 0x0b);
    assert_eq!(l.to_bytes().len(), 1 + 32 + 4 + 1);
}

#[test]
fn wire_layout_is_block_then_id_then_data() {
    let s = XidShort::from_context_bytes(&[1], &[2], &[9, 8]).unwrap();
    let bytes = s.to_bytes();
    assert_eq!(&bytes[1..5], &short_context_hash(&[2])[..]);
    assert_eq!(&bytes[5..9], &short_context_hash(&[1])[..]);
    assert_eq!(&bytes[9..], &[9, 8]);
    let v: Vec<u8> = Vec::from(s);
    assert_eq!(v, bytes);
}

#[test]
fn round_trip_both_classes() {
    let s = XidShort::from_context_bytes(&[1], &[2], &[0xaa; 64]).unwrap();
    assert!(XidShort::from_bytes(&s.to_bytes()).unwrap() == s);
    let l = XidLong::from_context_bytes(&[1], &[2], &[0xbb; 512]).unwrap();
    assert!(XidLong::from_bytes(&l.to_bytes()).unwrap() == l);
    let e = XidShort::from_context_bytes(&[], &[], &[]).unwrap();
    assert!(XidShort::from_bytes(&e.to_bytes()).unwrap() == e);
}

#[test]
fn parse_dispatches_on_tag() {
    let s = XidShort::from_context_bytes(&[1], &[2], &[3]).unwrap();
    let l = XidLong::from_context_bytes(&[1], &[2], &[3]).unwrap();
    assert_eq!(parse(&s.to_bytes()).unwrap(), AnyXid::Short(s));
    assert_eq!(parse(&l.to_bytes()).unwrap(), AnyXid::Long(l));
}

#[test]
fn malformed_buffers() {
    assert_eq!(parse(&[]).unwrap_err(), XidError::MalformedIdentifier);
    assert_eq!(XidShort::from_bytes(&[0x0a, 1, 2, 3, 4, 5, 6, 7]).unwrap_err(), XidError::MalformedIdentifier);
    assert_eq!(XidShort::from_bytes(&[0x0b, 1, 2, 3, 4, 5, 6, 7, 8]).unwrap_err(), XidError::MalformedIdentifier);
    assert!(XidShort::from_bytes(&[0x0a, 1, 2, 3, 4, 5, 6, 7, 8]).is_ok());
    let mut too_long = vec![0x0a];
    too_long.extend_from_slice(&[0u8; 8 + 65]);
    assert_eq!(XidShort::from_bytes(&too_long).unwrap_err(), XidError::MalformedIdentifier);
    assert_eq!(XidLong::from_bytes(&[0x0b; 36]).unwrap_err(), XidError::MalformedIdentifier);
    assert_eq!(parse(&[0x0c; 40]).unwrap_err(), XidError::MalformedIdentifier);
}

#[test]
fn encoding_failure() {
    let bad = ctx(&[("length", Ipld::Integer(i128::MAX))]);
    let good = codec_ctx("dag-cbor");
    assert_eq!(XidShort::new(&bad, &good, &[]).unwrap_err(), XidError::EncodingFailure);
    assert_eq!(XidLong::new(&good, &bad, &[]).unwrap_err(), XidError::EncodingFailure);
}

#[test]
fn write_into_fills_prefix() {
    let s = XidShort::from_context_bytes(&[1], &[2], &[3, 4]).unwrap();
    let mut buf = [0xeeu8; 16];
    s.write_into(&mut buf);
    assert_eq!(&buf[..11], &s.to_bytes()[..]);
    assert_eq!(&buf[11..], &[0xee; 5]);
    let l = XidLong::from_context_bytes(&[1], &[2], &[3]).unwrap();
    let mut buf = [0u8; 38];
    l.write_into(&mut buf);
    assert_eq!(buf.to_vec(), l.to_bytes());
}

#[test]
fn text_forms() {
    let s = XidShort::from_context_bytes(&[], &[], &[0xff, 0x01]).unwrap();
    let (block, id, data) = s.hex_fields();
    assert_eq!(block, "af1349b9");
    assert_eq!(id, "af1349b9");
    assert_eq!(data, "ff01");
    assert_eq!(s.to_multibase(), "f0aaf1349b9af1349b9ff01");
    let l = XidLong::from_context_bytes(&[], &[], &[]).unwrap();
    assert_eq!(
        l.to_multibase(),
        "f0baf1349b9f5f9a1a6a0404dea36dcc9499bcb25c9adc112b7cc9a93cae41f3262af1349b9"
    );
}

#[test]
fn hasher_capability() {
    let h = Blake3;
    assert_eq!(h.name(), "blake3");
    let d4: [u8; 4] = Hasher::<4>::digest(&h, &[]);
    assert_eq!(d4, [0xaf, 0x13, 0x49, 0xb9]);
    let mut buf = [0u8; 6];
    assert_eq!(h.digest_into(&[], &mut buf), 6);
    assert_eq!(&buf[..4], &d4[..]);
    assert_eq!(HashNoParams::of(&h).hash_function, "blake3");
}

#[test]
fn debug_text() {
    let s = XidShort::from_context_bytes(&[], &[], &[0xff, 0x01]).unwrap();
    assert_eq!(
        s.debug_string(),
        "XidShort { block_context: \"af1349b9\", id_context: \"af1349b9\", id_data: \"ff01\" }"
    );
}

#[test]
fn encoding_failure_wins_over_large_payload() {
    let bad = ctx(&[("length", Ipld::Integer(i128::MIN))]);
    let good = codec_ctx("dag-cbor");
    assert_eq!(XidShort::new(&good, &bad, &[0u8; 65]).unwrap_err(), XidError::EncodingFailure);
    assert_eq!(XidLong::new(&bad, &good, &[0u8; 513]).unwrap_err(), XidError::EncodingFailure);
}

#[test]
fn map_insertion_order_does_not_matter() {
    let a = ctx(&[("name", text("sha")), ("length", Ipld::Integer(32))]);
    let b = ctx(&[("length", Ipld::Integer(32)), ("name", text("sha"))]);
    let block = codec_ctx("dag-cbor");
    let x = XidShort::new(&a, &block, &[1, 2, 3]).unwrap();
    let y = XidShort::new(&b, &block, &[1, 2, 3]).unwrap();
    assert!(x == y);
    assert_eq!(Vec::from(x), Vec::from(y));
}
