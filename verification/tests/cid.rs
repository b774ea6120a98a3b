use fvm::cid::{Cid, Multihash, BLAKE2B_256, DAG_CBOR, IDENTITY_HASH, IPLD_RAW, SHA2_256};
use multihash_codetable::MultihashDigest;

#[test]
fn wrap_takes_digests_of_at_most_64_bytes() {
    let m = Multihash::wrap(IDENTITY_HASH, b"abc").unwrap();
    assert_eq!(m.code(), 0);
    assert_eq!(m.size(), 3);
    assert_eq!(m.digest(), b"abc");
    assert!(Multihash::wrap(7, &[1u8; 64]).is_some());
    assert!(Multihash::wrap(7, &[1u8; 65]).is_none());
    assert_eq!(Multihash::wrap(7, &[]).unwrap().size(), 0);
}

#[test]
fn digest_of_knows_the_functions_of_the_code_table() {
    for (code, size) in [(0x12, 32), (0x13, 64), (0xb220, 32), (0xb240, 64)] {
        let ours = Multihash::digest_of(code, b"data").unwrap();
        let theirs = multihash_codetable::Code::try_from(code).unwrap().digest(b"data");
        assert_eq!(ours.code(), code);
        assert_eq!(ours.size(), size);
        assert_eq!(ours.digest(), theirs.digest());
    }
    for code in [0, 0x11, 0x14, 0x16, 0x1b, 0x1e, 0xb250, 0xb260, u64::MAX] {
        assert!(Multihash::digest_of(code, b"data").is_none());
    }
    assert_ne!(
        Multihash::digest_of(SHA2_256, b"data").unwrap().digest(),
        Multihash::digest_of(SHA2_256, b"date").unwrap().digest()
    );
}

#[test]
fn truncate_keeps_the_head() {
    let m = Multihash::wrap(3, b"abcdef").unwrap();
    let t = m.truncate(2);
    assert_eq!(t.code(), 3);
    assert_eq!(t.digest(), b"ab");
    // a truncated multihash equals the one wrapped from the head
    assert_eq!(t, Multihash::wrap(3, b"ab").unwrap());
    assert!(t.same(&Multihash::wrap(3, b"ab").unwrap()));
    assert_eq!(m.truncate(6), m);
    assert_eq!(m.truncate(200), m);
    assert_eq!(m.truncate(0).size(), 0);
}

#[test]
fn same_compares_code_and_digest() {
    let a = Multihash::wrap(1, b"abc").unwrap();
    assert!(a.same(&Multihash::wrap(1, b"abc").unwrap()));
    assert!(!a.same(&Multihash::wrap(2, b"abc").unwrap()));
    assert!(!a.same(&Multihash::wrap(1, b"abd").unwrap()));
    assert!(!a.same(&Multihash::wrap(1, b"ab").unwrap()));
    assert!(!a.same(&Multihash::wrap(1, b"abc\0").unwrap()));
    let c = Cid::new_v1(IPLD_RAW, a);
    assert!(c.same(&Cid::new_v1(IPLD_RAW, a)));
    assert!(!c.same(&Cid::new_v1(DAG_CBOR, a)));
    assert!(!c.same(&Cid::new_v1(IPLD_RAW, Multihash::wrap(1, b"abd").unwrap())));
}

#[test]
fn encoding_round_trip() {
    let c = Cid::new_v1(DAG_CBOR, Multihash::digest_of(BLAKE2B_256, b"x").unwrap());
    let mut bytes = vec![0xaa];
    c.encode(&mut bytes);
    assert_eq!(bytes.len(), 1 + 81);
    assert_eq!(&bytes[1..9], &[0x71, 0, 0, 0, 0, 0, 0, 0]);
    assert_eq!(&bytes[9..17], &[0x20, 0xb2, 0, 0, 0, 0, 0, 0]);
    assert_eq!(bytes[17], 32);
    assert_eq!(&bytes[18..50], &c.hash().digest()[..]);
    assert_eq!(&bytes[50..], &[0u8; 32]);
    assert_eq!(Cid::decode(&bytes[1..]), Some(c));
    assert_eq!(Cid::decode(&bytes), None);
    assert_eq!(Cid::decode(&bytes[2..]), None);
    let mut long = bytes[1..].to_vec();
    long[16] = 65;
    assert_eq!(Cid::decode(&long), None);
    let mut dirty = bytes[1..].to_vec();
    dirty[80] = 1;
    assert_eq!(Cid::decode(&dirty), None);
    let mut full = bytes[1..].to_vec();
    full[16] = 64;
    assert_eq!(Cid::decode(&full).unwrap().hash().size(), 64);
}
