//! Keypair generation and address derivation.
//!
//! A fresh secp256k1 secret key is drawn from the operating system's
//! entropy source; the account address is the last 20 bytes of the
//! Keccak-256 digest of the uncompressed public key without its leading
//! tag byte, hex-encoded behind a `0x` marker. The byte juggling and the
//! textual encoding are verified; the key arithmetic, the digest and the
//! hex encoder are called through trusted wrappers.

use vstd::prelude::*;

use crate::addresses::is_lower_hex_digit_char;
use crate::addresses::spec_is_canonical_address;
use tiny_keccak::Hasher;

verus! {

/// The lowercase hex digit for a value below 16.
pub open spec fn hex_digit_char(v: u8) -> char
    recommends
        v < 16,
{
    if v < 10 {
        (('0' as u8) + v) as char
    } else {
        (('a' as u8) + (v - 10)) as char
    }
}

/// Lowercase hex encoding: two digits per byte, high nibble first.
pub open spec fn hex_of(bytes: Seq<u8>) -> Seq<char> {
    Seq::new(
        bytes.len() * 2,
        |i: int|
            if i % 2 == 0 {
                hex_digit_char(bytes[i / 2] / 16)
            } else {
                hex_digit_char(bytes[i / 2] % 16)
            },
    )
}

/// Every character of a hex encoding is a lowercase hex digit.
pub proof fn lemma_hex_of_digits(bytes: Seq<u8>)
    ensures
        hex_of(bytes).len() == bytes.len() * 2,
        forall|i: int|
            0 <= i < hex_of(bytes).len() ==> is_lower_hex_digit_char(#[trigger] hex_of(bytes)[i]),
{
    assert forall|i: int|
        0 <= i < hex_of(bytes).len() implies is_lower_hex_digit_char(
        #[trigger] hex_of(bytes)[i],
    ) by {
        let b = bytes[i / 2];
        assert(b / 16 < 16);
        assert(b % 16 < 16);
    }
}

/// Relies on `hex::encode`: lowercase hex, two digits per byte, high
/// nibble first.
#[verifier::external_body]
pub fn hex_encode(data: &Vec<u8>) -> (r: String)
    ensures
        r@ == hex_of(data@),
{
    hex::encode(data)
}

/// What the Keccak-256 digest of a byte string is: a function of the
/// input alone.
pub uninterp spec fn keccak256_of(data: Seq<u8>) -> Seq<u8>;

/// Relies on `tiny_keccak::Keccak::v256` with `Hasher::update` and
/// `Hasher::finalize`: one 32-byte digest, a function of the input bytes
/// alone.
#[verifier::external_body]
pub fn keccak256(data: &Vec<u8>) -> (r: Vec<u8>)
    ensures
        r@ == keccak256_of(data@),
        r@.len() == 32,
{
    let mut keccak = tiny_keccak::Keccak::v256();
    let mut output = [0u8; 32];
    keccak.update(data.as_slice());
    keccak.finalize(&mut output);
    output.to_vec()
}

/// A byte string read as a big-endian natural number.
pub open spec fn bytes_be_to_nat(s: Seq<u8>) -> nat
    decreases s.len(),
{
    if s.len() == 0 {
        0
    } else {
        (bytes_be_to_nat(s.drop_last()) * 256 + s.last()) as nat
    }
}

/// The order of the secp256k1 group.
pub open spec fn secp256k1_group_order() -> nat {
    0xFFFFFFFFFFFFFFFFFFFFFFFFFFFFFFFEBAAEDCE6AF48A03BBFD25E8CD0364141nat
}

/// 32 bytes forming a usable secret key: nonzero and, read big-endian,
/// strictly below the group order.
pub open spec fn spec_is_valid_secret_key(s: Seq<u8>) -> bool {
    &&& s.len() == 32
    &&& 0 < bytes_be_to_nat(s)
    &&& bytes_be_to_nat(s) < secp256k1_group_order()
}

/// Relies on `secp256k1::SecretKey::new` over `rand::rngs::OsRng` and
/// `SecretKey::secret_bytes`: a fresh random key from the operating
/// system's entropy source; the constructor rejection-samples until the
/// 32 bytes are a valid key, nonzero and below the group order. Nothing
/// more can be promised of a random draw.
#[verifier::external_body]
fn fresh_secret_key_bytes() -> (r: Vec<u8>)
    ensures
        spec_is_valid_secret_key(r@),
{
    let mut rng = rand::rngs::OsRng;
    secp256k1::SecretKey::new(&mut rng).secret_bytes().to_vec()
}

/// What the SEC1 uncompressed public key of a valid secret key is: a
/// function of the 32 secret bytes alone.
pub uninterp spec fn uncompressed_pubkey_of(secret: Seq<u8>) -> Seq<u8>;

/// Relies on `secp256k1::SecretKey::from_slice`, which accepts exactly
/// the valid secret keys, on `secp256k1::PublicKey::from_secret_key`
/// over a fresh `secp256k1::Secp256k1` context, and on
/// `PublicKey::serialize_uncompressed`: 65 bytes in the SEC1 uncompressed
/// form, first byte the tag 4, a function of the secret bytes alone.
#[verifier::external_body]
fn uncompressed_public_key(secret: &Vec<u8>) -> (r: Vec<u8>)
    requires
        spec_is_valid_secret_key(secret@),
    ensures
        r@ == uncompressed_pubkey_of(secret@),
        r@.len() == 65,
        r@[0] == 4u8,
{
    let key = secp256k1::SecretKey::from_slice(secret.as_slice()).unwrap();
    let public = secp256k1::PublicKey::from_secret_key(&secp256k1::Secp256k1::new(), &key);
    public.serialize_uncompressed().to_vec()
}

/// The address text derived from an uncompressed public key: `0x`, then
/// the hex of the last 20 bytes of the Keccak-256 digest of the key
/// bytes without their leading tag byte.
pub open spec fn spec_address_of_public_key(public_key_bytes: Seq<u8>) -> Seq<char> {
    seq!['0', 'x'] + hex_of(keccak256_of(public_key_bytes.skip(1)).skip(12))
}

/// Derives the account address text from a 65-byte uncompressed public
/// key.
pub fn address_from_public_key(public_key_bytes: &Vec<u8>) -> (addr: String)
    requires
        public_key_bytes@.len() == 65,
    ensures
        addr@ == spec_address_of_public_key(public_key_bytes@),
        spec_is_canonical_address(addr@),
{
    let mut tail: Vec<u8> = Vec::new();
    let mut i: usize = 1;
    while i < 65
        invariant
            1 <= i <= 65,
            public_key_bytes@.len() == 65,
            tail@ == public_key_bytes@.subrange(1, i as int),
        decreases 65 - i,
    {
        tail.push(public_key_bytes[i]);
        proof {
            assert(tail@ =~= public_key_bytes@.subrange(1, i + 1));
        }
        i = i + 1;
    }
    proof {
        assert(tail@ =~= public_key_bytes@.skip(1));
    }
    let digest = keccak256(&tail);
    let mut last20: Vec<u8> = Vec::new();
    let mut j: usize = 12;
    while j < 32
        invariant
            12 <= j <= 32,
            digest@.len() == 32,
            last20@ == digest@.subrange(12, j as int),
        decreases 32 - j,
    {
        last20.push(digest[j]);
        proof {
            assert(last20@ =~= digest@.subrange(12, j + 1));
        }
        j = j + 1;
    }
    proof {
        assert(last20@ =~= digest@.skip(12));
    }
    let body = hex_encode(&last20);
    let addr = String::from_str("0x").concat(body.as_str());
    proof {
        reveal_strlit("0x");
        assert(addr@ =~= spec_address_of_public_key(public_key_bytes@));
        lemma_hex_of_digits(last20@);
        assert forall|k: int| 2 <= k < 42 implies is_lower_hex_digit_char(
            #[trigger] addr@[k],
        ) by {
            assert(addr@[k] == hex_of(last20@)[k - 2]);
        }
    }
    addr
}

/// Generates one fresh keypair and returns its address and private key,
/// both as lowercase hex text behind a `0x` marker. The address passes
/// the format guard, so a matcher never rejects a generated candidate on
/// format grounds, and it is the standard one-way derivation from the
/// very secret bytes that the private-key text encodes; which bytes are
/// drawn is the entropy source's choice alone.
pub fn generate_eth_address() -> (r: (String, String))
    ensures
        spec_is_canonical_address(r.0@),
        r.1@.len() == 66,
        r.1@[0] == '0',
        r.1@[1] == 'x',
        forall|i: int| 2 <= i < 66 ==> is_lower_hex_digit_char(#[trigger] r.1@[i]),
        exists|sk: Seq<u8>|
            {
                &&& #[trigger] spec_is_valid_secret_key(sk)
                &&& r.1@ == seq!['0', 'x'] + hex_of(sk)
                &&& r.0@ == spec_address_of_public_key(uncompressed_pubkey_of(sk))
            },
{
    let secret = fresh_secret_key_bytes();
    let public = uncompressed_public_key(&secret);
    let address = address_from_public_key(&public);
    let secret_hex = hex_encode(&secret);
    let private_key = String::from_str("0x").concat(secret_hex.as_str());
    proof {
        reveal_strlit("0x");
        lemma_hex_of_digits(secret@);
        assert forall|i: int| 2 <= i < 66 implies is_lower_hex_digit_char(
            #[trigger] private_key@[i],
        ) by {
            assert(private_key@[i] == hex_of(secret@)[i - 2]);
        }
        assert(private_key@ =~= seq!['0', 'x'] + hex_of(secret@));
        assert(spec_is_valid_secret_key(secret@) && private_key@ == seq!['0', 'x'] + hex_of(
            secret@,
        ) && address@ == spec_address_of_public_key(uncompressed_pubkey_of(secret@)));
    }
    (address, private_key)
}

} // verus!
