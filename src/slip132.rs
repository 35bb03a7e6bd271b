//! Conversion of a serialized extended key between the SLIP-132 version
//! prefixes.
//!
//! An extended key travels as the base-58-check encoding of a 78-byte payload:
//! four version bytes, then 74 bytes of key material. Converting rewrites the
//! version bytes and encodes again; the key material is never touched.
use vstd::prelude::*;
use vstd::string::*;

verus! {

/// Whether an extended key is public (`?pub`) or private (`?prv`).
#[derive(Clone, Copy, Debug, PartialEq, Eq, Structural)]
pub enum KeyKind {
    Public,
    Private,
}

/// The five script types that SLIP-132 gives a version prefix of its own.
#[derive(Clone, Copy, Debug, PartialEq, Eq, Structural)]
pub enum Variant {
    /// `xpub` / `xprv`
    Canonical,
    /// `ypub` / `yprv`: nested segwit, single key
    NestedSegwit,
    /// `zpub` / `zprv`: native segwit, single key
    NativeSegwit,
    /// `Ypub` / `Yprv`: nested segwit, multisig
    NestedSegwitMultisig,
    /// `Zpub` / `Zprv`: native segwit, multisig
    NativeSegwitMultisig,
}

/// Why a conversion failed.
#[derive(Clone, Copy, Debug, PartialEq, Eq, Structural)]
pub enum Slip132Error {
    /// The input holds a character outside the base-58 alphabet.
    InvalidBase58Character,
    /// The decoded bytes do not end in a valid four-byte checksum.
    ChecksumMismatch,
    /// The characters after the first are neither `pub` nor `prv`.
    UnrecognizedKeyType,
    /// The decoded payload is not 78 bytes long.
    InvalidPayloadLength,
}

/// The five encodings of one extended key, one per variant.
#[allow(non_snake_case)]
#[derive(Clone, Debug)]
pub struct XYZKey {
    /// canonical
    pub x: String,
    /// nested segwit, single key
    pub y: String,
    /// native segwit, single key
    pub z: String,
    /// nested segwit, multisig
    pub Y: String,
    /// native segwit, multisig
    pub Z: String,
}

/// Length of a serialized extended key, version bytes included.
pub const PAYLOAD_LEN: usize = 78;

impl XYZKey {
    /// The encoding that this set holds for `v`.
    pub open spec fn encoding(&self, v: Variant) -> Seq<char> {
        match v {
            Variant::Canonical => self.x@,
            Variant::NestedSegwit => self.y@,
            Variant::NativeSegwit => self.z@,
            Variant::NestedSegwitMultisig => self.Y@,
            Variant::NativeSegwitMultisig => self.Z@,
        }
    }
}

/// The base-58-check decoding of `s`, or `None` where `s` does not decode.
pub uninterp spec fn base58check_decoded(s: Seq<char>) -> Option<Seq<u8>>;

/// The base-58-check encoding of `data`.
pub uninterp spec fn base58check_encoded(data: Seq<u8>) -> Seq<char>;

/// The characters of the base-58 alphabet: digits and letters but `0`, `O`,
/// `I` and `l`.
pub open spec fn is_base58_char(c: char) -> bool {
    ('1' <= c <= '9') || ('A' <= c <= 'H') || ('J' <= c <= 'N') || ('P' <= c <= 'Z')
        || ('a' <= c <= 'k') || ('m' <= c <= 'z')
}

pub open spec fn all_base58(s: Seq<char>) -> bool {
    forall|i: int| 0 <= i < s.len() ==> is_base58_char(#[trigger] s[i])
}

/// The version bytes that SLIP-132 assigns to a kind of key and a variant.
pub open spec fn version_prefix(kind: KeyKind, v: Variant) -> Seq<u8> {
    match kind {
        KeyKind::Public => match v {
            Variant::Canonical => seq![0x04u8, 0x88u8, 0xb2u8, 0x1eu8],
            Variant::NestedSegwit => seq![0x04u8, 0x9du8, 0x7cu8, 0xb2u8],
            Variant::NativeSegwit => seq![0x04u8, 0xb2u8, 0x47u8, 0x46u8],
            Variant::NestedSegwitMultisig => seq![0x02u8, 0x95u8, 0xb4u8, 0x3fu8],
            Variant::NativeSegwitMultisig => seq![0x02u8, 0xaau8, 0x7eu8, 0xd3u8],
        },
        KeyKind::Private => match v {
            Variant::Canonical => seq![0x04u8, 0x88u8, 0xadu8, 0xe4u8],
            Variant::NestedSegwit => seq![0x04u8, 0x9du8, 0x78u8, 0x78u8],
            Variant::NativeSegwit => seq![0x04u8, 0xb2u8, 0x43u8, 0x0cu8],
            Variant::NestedSegwitMultisig => seq![0x02u8, 0x95u8, 0xb0u8, 0x05u8],
            Variant::NativeSegwitMultisig => seq![0x02u8, 0xaau8, 0x7au8, 0x99u8],
        },
    }
}

/// The kind of key that an encoded string declares in its characters 1 to 3.
pub open spec fn key_kind_of(s: Seq<char>) -> Option<KeyKind> {
    if s.len() >= 4 && s[1] == 'p' && s[2] == 'u' && s[3] == 'b' {
        Some(KeyKind::Public)
    } else if s.len() >= 4 && s[1] == 'p' && s[2] == 'r' && s[3] == 'v' {
        Some(KeyKind::Private)
    } else {
        None
    }
}

/// `payload` with its version bytes replaced by `version`.
pub open spec fn reprefixed(version: Seq<u8>, payload: Seq<u8>) -> Seq<u8> {
    version + payload.subrange(4, payload.len() as int)
}

/// The encoding of `payload` under the version prefix of `kind` and `v`.
pub open spec fn variant_encoding(kind: KeyKind, v: Variant, payload: Seq<u8>) -> Seq<char> {
    base58check_encoded(reprefixed(version_prefix(kind, v), payload))
}

/// `r` holds the five encodings of `payload` for keys of `kind`.
pub open spec fn holds_all_variants(r: XYZKey, kind: KeyKind, payload: Seq<u8>) -> bool {
    forall|v: Variant|
        #![trigger r.encoding(v)]
        r.encoding(v) == variant_encoding(kind, v, payload) && base58check_decoded(r.encoding(v))
            == Some(reprefixed(version_prefix(kind, v), payload))
}

/// What re-encoding a decoded payload under the prefixes of `kind` gives.
pub open spec fn reencoding_outcome(
    kind: KeyKind,
    payload: Seq<u8>,
    r: Result<XYZKey, Slip132Error>,
) -> bool {
    if payload.len() != PAYLOAD_LEN {
        r == Err::<XYZKey, Slip132Error>(Slip132Error::InvalidPayloadLength)
    } else {
        r is Ok && holds_all_variants(r->Ok_0, kind, payload)
    }
}

/// What converting the encoded key `s` gives.
pub open spec fn conversion_outcome(s: Seq<char>, r: Result<XYZKey, Slip132Error>) -> bool {
    match base58check_decoded(s) {
        None => if all_base58(s) {
            r == Err::<XYZKey, Slip132Error>(Slip132Error::ChecksumMismatch)
        } else {
            r == Err::<XYZKey, Slip132Error>(Slip132Error::InvalidBase58Character)
        },
        Some(payload) => base58check_encoded(payload) == s && match key_kind_of(s) {
            None => r == Err::<XYZKey, Slip132Error>(Slip132Error::UnrecognizedKeyType),
            Some(kind) => reencoding_outcome(kind, payload, r),
        },
    }
}

/// Relies on `bitcoin::base58::decode_check` (base58ck): it strips and checks
/// the four-byte checksum, failing with `Decode` exactly where a byte of `s`
/// is outside the alphabet. Leading `1`s decode to zero bytes and encode back
/// from them, and the rest is a number written without leading zero digits,
/// so `encode_check` gives `s` back from what was decoded.
#[verifier::external_body]
fn decode_check(s: &str) -> (r: Result<Vec<u8>, Slip132Error>)
    ensures
        r is Ok <==> base58check_decoded(s@) is Some,
        r is Ok ==> r->Ok_0@ == base58check_decoded(s@)->Some_0,
        r is Ok ==> base58check_encoded(r->Ok_0@) == s@,
        r is Err ==> (r->Err_0 == Slip132Error::InvalidBase58Character <==> !all_base58(s@)),
        r is Err ==> (r->Err_0 == Slip132Error::InvalidBase58Character || r->Err_0
            == Slip132Error::ChecksumMismatch),
{
    match bitcoin::base58::decode_check(s) {
        Ok(v) => Ok(v),
        Err(bitcoin::base58::Error::Decode(_)) => Err(Slip132Error::InvalidBase58Character),
        Err(_) => Err(Slip132Error::ChecksumMismatch),
    }
}

/// Relies on `bitcoin::base58::encode_check` (base58ck): it appends the first
/// four bytes of the double SHA-256 of `data` and encodes in base 58, which
/// `decode_check` takes back to `data`.
#[verifier::external_body]
fn encode_check(data: &[u8]) -> (r: String)
    ensures
        r@ == base58check_encoded(data@),
        base58check_decoded(r@) == Some(data@),
{
    bitcoin::base58::encode_check(data)
}

fn four_bytes(a: u8, b: u8, c: u8, d: u8) -> (r: Vec<u8>)
    ensures
        r@ == seq![a, b, c, d],
{
    let mut r: Vec<u8> = Vec::new();
    r.push(a);
    r.push(b);
    r.push(c);
    r.push(d);
    assert(r@ =~= seq![a, b, c, d]);
    r
}

/// The four version bytes of `kind` and `v`.
pub fn version_bytes(kind: KeyKind, v: Variant) -> (r: Vec<u8>)
    ensures
        r@ == version_prefix(kind, v),
{
    match kind {
        KeyKind::Public => match v {
            Variant::Canonical => four_bytes(0x04, 0x88, 0xb2, 0x1e),
            Variant::NestedSegwit => four_bytes(0x04, 0x9d, 0x7c, 0xb2),
            Variant::NativeSegwit => four_bytes(0x04, 0xb2, 0x47, 0x46),
            Variant::NestedSegwitMultisig => four_bytes(0x02, 0x95, 0xb4, 0x3f),
            Variant::NativeSegwitMultisig => four_bytes(0x02, 0xaa, 0x7e, 0xd3),
        },
        KeyKind::Private => match v {
            Variant::Canonical => four_bytes(0x04, 0x88, 0xad, 0xe4),
            Variant::NestedSegwit => four_bytes(0x04, 0x9d, 0x78, 0x78),
            Variant::NativeSegwit => four_bytes(0x04, 0xb2, 0x43, 0x0c),
            Variant::NestedSegwitMultisig => four_bytes(0x02, 0x95, 0xb0, 0x05),
            Variant::NativeSegwitMultisig => four_bytes(0x02, 0xaa, 0x7a, 0x99),
        },
    }
}

/// Reads the key kind from characters 1 to 3 of an encoded key: `pub` or
/// `prv`. The standard prefixes (`xpub`, `tprv`, ...) all place it there.
pub fn key_kind(s: &str) -> (r: Option<KeyKind>)
    ensures
        r == key_kind_of(s@),
{
    if s.unicode_len() < 4 {
        return None;
    }
    let c1 = s.get_char(1);
    let c2 = s.get_char(2);
    let c3 = s.get_char(3);
    if c1 == 'p' && c2 == 'u' && c3 == 'b' {
        Some(KeyKind::Public)
    } else if c1 == 'p' && c2 == 'r' && c3 == 'v' {
        Some(KeyKind::Private)
    } else {
        None
    }
}

/// A 78-byte payload with its first four bytes replaced by `version`.
pub fn reprefix_payload(payload: &[u8], version: &[u8]) -> (r: Result<Vec<u8>, Slip132Error>)
    requires
        version@.len() == 4,
    ensures
        payload@.len() != PAYLOAD_LEN ==> r == Err::<Vec<u8>, Slip132Error>(
            Slip132Error::InvalidPayloadLength,
        ),
        payload@.len() == PAYLOAD_LEN ==> r is Ok && r->Ok_0@ == reprefixed(version@, payload@),
{
    if payload.len() != PAYLOAD_LEN {
        return Err(Slip132Error::InvalidPayloadLength);
    }
    let mut result: Vec<u8> = Vec::new();
    let mut i: usize = 0;
    while i < 4
        invariant
            i <= 4,
            version@.len() == 4,
            result@ == version@.subrange(0, i as int),
        decreases 4 - i,
    {
        result.push(version[i]);
        i = i + 1;
        assert(result@ =~= version@.subrange(0, i as int));
    }
    let mut j: usize = 4;
    while j < payload.len()
        invariant
            4 <= j <= payload@.len(),
            payload@.len() == PAYLOAD_LEN,
            result@ == version@ + payload@.subrange(4, j as int),
        decreases payload@.len() - j,
    {
        result.push(payload[j]);
        j = j + 1;
        assert(result@ =~= version@ + payload@.subrange(4, j as int));
    }
    Ok(result)
}

/// Encodes `payload` again under the version bytes `version`.
fn replace_encode(payload: &[u8], version: &[u8]) -> (r: Result<String, Slip132Error>)
    requires
        version@.len() == 4,
    ensures
        payload@.len() != PAYLOAD_LEN ==> r == Err::<String, Slip132Error>(
            Slip132Error::InvalidPayloadLength,
        ),
        payload@.len() == PAYLOAD_LEN ==> r is Ok && r->Ok_0@ == base58check_encoded(
            reprefixed(version@, payload@),
        ) && base58check_decoded(r->Ok_0@) == Some(reprefixed(version@, payload@)),
{
    let bytes = reprefix_payload(payload, version)?;
    Ok(encode_check(bytes.as_slice()))
}

fn encode_variant(kind: KeyKind, v: Variant, payload: &[u8]) -> (r: Result<String, Slip132Error>)
    ensures
        payload@.len() != PAYLOAD_LEN ==> r == Err::<String, Slip132Error>(
            Slip132Error::InvalidPayloadLength,
        ),
        payload@.len() == PAYLOAD_LEN ==> r is Ok && r->Ok_0@ == variant_encoding(kind, v, payload@)
            && base58check_decoded(r->Ok_0@) == Some(reprefixed(version_prefix(kind, v), payload@)),
{
    let version = version_bytes(kind, v);
    replace_encode(payload, version.as_slice())
}

/// Encodes a decoded extended key under the five version prefixes of `kind`.
pub fn reencode_all(kind: KeyKind, payload: &[u8]) -> (r: Result<XYZKey, Slip132Error>)
    ensures
        reencoding_outcome(kind, payload@, r),
{
    let x = encode_variant(kind, Variant::Canonical, payload)?;
    let y = encode_variant(kind, Variant::NestedSegwit, payload)?;
    let z = encode_variant(kind, Variant::NativeSegwit, payload)?;
    let big_y = encode_variant(kind, Variant::NestedSegwitMultisig, payload)?;
    let big_z = encode_variant(kind, Variant::NativeSegwitMultisig, payload)?;
    let r = XYZKey { x, y, z, Y: big_y, Z: big_z };
    assert forall|v: Variant|
        #![trigger r.encoding(v)]
        r.encoding(v) == variant_encoding(kind, v, payload@) && base58check_decoded(r.encoding(v))
            == Some(reprefixed(version_prefix(kind, v), payload@)) by {
        match v {
            Variant::Canonical => {},
            Variant::NestedSegwit => {},
            Variant::NativeSegwit => {},
            Variant::NestedSegwitMultisig => {},
            Variant::NativeSegwitMultisig => {},
        }
    }
    Ok(r)
}

/// Converts an encoded extended key into its five SLIP-132 encodings.
///
/// The key kind is read from the text (see [`key_kind`]) after the checksum
/// has been checked; the payload length is checked last.
pub fn slip132_convert(input: &str) -> (r: Result<XYZKey, Slip132Error>)
    ensures
        conversion_outcome(input@, r),
{
    let payload = decode_check(input)?;
    match key_kind(input) {
        Some(kind) => reencode_all(kind, payload.as_slice()),
        None => Err(Slip132Error::UnrecognizedKeyType),
    }
}

/// Every encoding that a conversion returns decodes to the input's key
/// material behind the version bytes of its variant: bytes 4 to 77 are those
/// of the input, for all five encodings alike.
pub proof fn lemma_variants_share_key_material(s: Seq<char>, r: Result<XYZKey, Slip132Error>, v: Variant)
    requires
        conversion_outcome(s, r),
        r is Ok,
    ensures
        base58check_decoded(s) is Some,
        key_kind_of(s) is Some,
        base58check_decoded(r->Ok_0.encoding(v)) is Some,
        base58check_decoded(r->Ok_0.encoding(v))->Some_0.len() == PAYLOAD_LEN,
        base58check_decoded(r->Ok_0.encoding(v))->Some_0.subrange(0, 4) == version_prefix(
            key_kind_of(s)->Some_0,
            v,
        ),
        base58check_decoded(r->Ok_0.encoding(v))->Some_0.subrange(4, PAYLOAD_LEN as int)
            == base58check_decoded(s)->Some_0.subrange(4, PAYLOAD_LEN as int),
{
    let payload = base58check_decoded(s)->Some_0;
    let kind = key_kind_of(s)->Some_0;
    let q = reprefixed(version_prefix(kind, v), payload);
    assert(base58check_decoded(r->Ok_0.encoding(v)) == Some(q));
    assert(q.subrange(0, 4) =~= version_prefix(kind, v));
    assert(q.subrange(4, PAYLOAD_LEN as int) =~= payload.subrange(4, PAYLOAD_LEN as int));
}

/// Decoding any encoding that a conversion returns and encoding it again
/// under the version bytes of the input gives the input back.
pub proof fn lemma_round_trip(s: Seq<char>, r: Result<XYZKey, Slip132Error>, v: Variant)
    requires
        conversion_outcome(s, r),
        r is Ok,
    ensures
        base58check_decoded(s) is Some,
        base58check_decoded(r->Ok_0.encoding(v)) is Some,
        base58check_encoded(
            reprefixed(
                base58check_decoded(s)->Some_0.subrange(0, 4),
                base58check_decoded(r->Ok_0.encoding(v))->Some_0,
            ),
        ) == s,
{
    let payload = base58check_decoded(s)->Some_0;
    let kind = key_kind_of(s)->Some_0;
    let q = reprefixed(version_prefix(kind, v), payload);
    assert(base58check_decoded(r->Ok_0.encoding(v)) == Some(q));
    assert(reprefixed(payload.subrange(0, 4), q) =~= payload);
}

} // verus!
