use bitcoin::base58;
use keytools::slip132::{key_kind, reencode_all, reprefix_payload, version_bytes};
use keytools::{slip132_convert, KeyKind, Slip132Error, Variant};

const VARIANTS: [Variant; 5] = [
    Variant::Canonical,
    Variant::NestedSegwit,
    Variant::NativeSegwit,
    Variant::NestedSegwitMultisig,
    Variant::NativeSegwitMultisig,
];

fn payload_with(version: [u8; 4], key_first: u8) -> Vec<u8> {
    let mut p = version.to_vec();
    p.push(0); // depth
    p.extend_from_slice(&[0u8; 4]); // parent fingerprint
    p.extend_from_slice(&[0u8; 4]); // child number
    for i in 0..32u8 {
        p.push(i.wrapping_mul(7).wrapping_add(3)); // chain code
    }
    p.push(key_first);
    for i in 0..32u8 {
        p.push(i.wrapping_mul(13).wrapping_add(1)); // key
    }
    assert_eq!(p.len(), 78);
    p
}

fn xpub_payload() -> Vec<u8> {
    payload_with([0x04, 0x88, 0xb2, 0x1e], 0x02)
}

fn xprv_payload() -> Vec<u8> {
    payload_with([0x04, 0x88, 0xad, 0xe4], 0x00)
}

fn field(k: &keytools::XYZKey, v: Variant) -> &String {
    match v {
        Variant::Canonical => &k.x,
        Variant::NestedSegwit => &k.y,
        Variant::NativeSegwit => &k.z,
        Variant::NestedSegwitMultisig => &k.Y,
        Variant::NativeSegwitMultisig => &k.Z,
    }
}

/// An encoded string that claims `?pub` and decodes to `len` bytes.
fn pub_string_with_payload_len(len: usize) -> String {
    for fill in 90..130 {
        let mut t = String::from("2pub");
        for _ in 0..fill {
            t.push('V');
        }
        let bytes = base58::decode(&t).unwrap();
        if bytes.len() != len + 4 {
            continue;
        }
        let s = base58::encode_check(&bytes[..len]);
        if &s[1..4] == "pub" {
            return s;
        }
    }
    panic!("no such string found");
}

#[test]
fn xpub_converts_to_all_variants() {
    let payload = xpub_payload();
    let input = base58::encode_check(&payload);
    assert!(input.starts_with("xpub"));
    let out = slip132_convert(&input).unwrap();
    let expected: [[u8; 4]; 5] = [
        [0x04, 0x88, 0xb2, 0x1e],
        [0x04, 0x9d, 0x7c, 0xb2],
        [0x04, 0xb2, 0x47, 0x46],
        [0x02, 0x95, 0xb4, 0x3f],
        [0x02, 0xaa, 0x7e, 0xd3],
    ];
    for (v, version) in VARIANTS.iter().zip(expected.iter()) {
        let decoded = base58::decode_check(field(&out, *v)).unwrap();
        assert_eq!(decoded.len(), 78);
        assert_eq!(&decoded[..4], &version[..]);
        assert_eq!(&decoded[4..], &payload[4..]);
    }
    assert_eq!(out.x, input);
    assert!(out.y.starts_with("ypub"));
    assert!(out.z.starts_with("zpub"));
    assert!(out.Y.starts_with("Ypub"));
    assert!(out.Z.starts_with("Zpub"));
}

#[test]
fn xprv_converts_to_all_variants() {
    let payload = xprv_payload();
    let input = base58::encode_check(&payload);
    assert!(input.starts_with("xprv"));
    let out = slip132_convert(&input).unwrap();
    let expected: [[u8; 4]; 5] = [
        [0x04, 0x88, 0xad, 0xe4],
        [0x04, 0x9d, 0x78, 0x78],
        [0x04, 0xb2, 0x43, 0x0c],
        [0x02, 0x95, 0xb0, 0x05],
        [0x02, 0xaa, 0x7a, 0x99],
    ];
    for (v, version) in VARIANTS.iter().zip(expected.iter()) {
        let decoded = base58::decode_check(field(&out, *v)).unwrap();
        assert_eq!(&decoded[..4], &version[..]);
        assert_eq!(&decoded[4..], &payload[4..]);
    }
    assert!(out.y.starts_with("yprv"));
    assert!(out.z.starts_with("zprv"));
    assert!(out.Y.starts_with("Yprv"));
    assert!(out.Z.starts_with("Zprv"));
}

#[test]
fn converting_a_zpub_gives_the_same_set() {
    let input = base58::encode_check(&xpub_payload());
    let out = slip132_convert(&input).unwrap();
    let again = slip132_convert(&out.z).unwrap();
    assert_eq!(again.x, out.x);
    assert_eq!(again.y, out.y);
    assert_eq!(again.z, out.z);
    assert_eq!(again.Y, out.Y);
    assert_eq!(again.Z, out.Z);
}

#[test]
fn every_variant_round_trips_to_the_input() {
    let payload = xpub_payload();
    let input = base58::encode_check(&payload);
    let out = slip132_convert(&input).unwrap();
    for v in VARIANTS.iter() {
        let mut decoded = base58::decode_check(field(&out, *v)).unwrap();
        decoded[..4].copy_from_slice(&payload[..4]);
        assert_eq!(base58::encode_check(&decoded), input);
    }
}

#[test]
fn payload_of_77_bytes_is_refused() {
    let s = pub_string_with_payload_len(77);
    assert_eq!(slip132_convert(&s).unwrap_err(), Slip132Error::InvalidPayloadLength);
    let short = &xpub_payload()[..77];
    assert_eq!(
        reencode_all(KeyKind::Public, short).unwrap_err(),
        Slip132Error::InvalidPayloadLength
    );
}

#[test]
fn payload_of_79_bytes_is_refused() {
    let s = pub_string_with_payload_len(79);
    assert_eq!(slip132_convert(&s).unwrap_err(), Slip132Error::InvalidPayloadLength);
    let mut long = xprv_payload();
    long.push(0);
    assert_eq!(
        reencode_all(KeyKind::Private, &long).unwrap_err(),
        Slip132Error::InvalidPayloadLength
    );
}

#[test]
fn unknown_key_type_is_refused() {
    let mut address = vec![0x00u8];
    address.extend_from_slice(&[0x5au8; 20]);
    let s = base58::encode_check(&address);
    assert!(&s[1..4] != "pub" && &s[1..4] != "prv");
    assert_eq!(slip132_convert(&s).unwrap_err(), Slip132Error::UnrecognizedKeyType);
}

#[test]
fn invalid_character_is_refused() {
    assert_eq!(slip132_convert("xpub0OIl").unwrap_err(), Slip132Error::InvalidBase58Character);
}

#[test]
fn corrupted_checksum_is_refused() {
    let mut s = base58::encode_check(&xpub_payload());
    let last = s.pop().unwrap();
    s.push(if last == '2' { '3' } else { '2' });
    assert_eq!(slip132_convert(&s).unwrap_err(), Slip132Error::ChecksumMismatch);
}

#[test]
fn empty_input_is_refused() {
    assert_eq!(slip132_convert("").unwrap_err(), Slip132Error::ChecksumMismatch);
}

#[test]
fn key_kind_reads_characters_one_to_three() {
    assert_eq!(key_kind("xpub6"), Some(KeyKind::Public));
    assert_eq!(key_kind("tprv8"), Some(KeyKind::Private));
    assert_eq!(key_kind("Zpub"), Some(KeyKind::Public));
    assert_eq!(key_kind("xpu"), None);
    assert_eq!(key_kind("pubx"), None);
    assert_eq!(key_kind("xprb"), None);
}

#[test]
fn version_bytes_follow_the_registry() {
    assert_eq!(version_bytes(KeyKind::Public, Variant::Canonical), vec![0x04, 0x88, 0xb2, 0x1e]);
    assert_eq!(version_bytes(KeyKind::Public, Variant::NestedSegwitMultisig), vec![0x02, 0x95, 0xb4, 0x3f]);
    assert_eq!(version_bytes(KeyKind::Private, Variant::NativeSegwit), vec![0x04, 0xb2, 0x43, 0x0c]);
    assert_eq!(version_bytes(KeyKind::Private, Variant::NativeSegwitMultisig), vec![0x02, 0xaa, 0x7a, 0x99]);
}

#[test]
fn reprefix_keeps_the_key_material() {
    let payload = xpub_payload();
    let r = reprefix_payload(&payload, &[1, 2, 3, 4]).unwrap();
    assert_eq!(&r[..4], &[1, 2, 3, 4]);
    assert_eq!(&r[4..], &payload[4..]);
    assert_eq!(reprefix_payload(&payload[..10], &[1, 2, 3, 4]), Err(Slip132Error::InvalidPayloadLength));
}
