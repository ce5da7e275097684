use vanity_eth::generator::{address_from_public_key, generate_eth_address, hex_encode, keccak256};
use vanity_eth::patterns::PatternMatcher;

#[test]
fn hex_encode_is_lowercase_big_endian_nibbles() {
    assert_eq!(hex_encode(&vec![1u8, 2, 3, 15, 16]), "0102030f10");
    assert_eq!(hex_encode(&vec![0xdeu8, 0xad, 0xbe, 0xef]), "deadbeef");
    assert_eq!(hex_encode(&vec![]), "");
}

#[test]
fn keccak256_matches_the_known_empty_digest() {
    let digest = keccak256(&vec![]);
    assert_eq!(
        hex_encode(&digest),
        "c5d2460186f7233c927e7db2dcc703c0e500b653ca82273b7bfad8045d85a470"
    );
}

#[test]
fn address_of_the_unit_private_key() {
    // The address derived from the secp256k1 public key of the private
    // key 1 is a widely published reference value.
    let mut one = [0u8; 32];
    one[31] = 1;
    let secret = secp256k1::SecretKey::from_slice(&one).unwrap();
    let public = secp256k1::PublicKey::from_secret_key(&secp256k1::Secp256k1::new(), &secret);
    let serialized = public.serialize_uncompressed().to_vec();
    let address = address_from_public_key(&serialized);
    assert_eq!(address, "0x7e5f4552091a69125d5dfcb7b8c2659029395bdf");
}

#[test]
fn generated_addresses_are_well_formed() {
    for _ in 0..8 {
        let (address, private_key) = generate_eth_address();
        assert_eq!(address.len(), 42);
        assert!(address.starts_with("0x"));
        assert!(address[2..].chars().all(|c| c.is_ascii_hexdigit() && !c.is_ascii_uppercase()));
        assert_eq!(private_key.len(), 66);
        assert!(private_key.starts_with("0x"));
        assert!(private_key[2..].chars().all(|c| c.is_ascii_hexdigit() && !c.is_ascii_uppercase()));
    }
}

#[test]
fn returned_private_key_rederives_the_returned_address() {
    for _ in 0..4 {
        let (address, private_key) = generate_eth_address();
        let secret_bytes = hex::decode(&private_key[2..]).unwrap();
        assert_eq!(secret_bytes.len(), 32);
        let secret = secp256k1::SecretKey::from_slice(&secret_bytes).unwrap();
        let public = secp256k1::PublicKey::from_secret_key(&secp256k1::Secp256k1::new(), &secret);
        let rederived = address_from_public_key(&public.serialize_uncompressed().to_vec());
        assert_eq!(rederived, address);
    }
}

#[test]
fn generated_addresses_pass_the_format_guard() {
    let m = PatternMatcher::try_new(vec!["".to_string()]).unwrap();
    for _ in 0..8 {
        let (address, _) = generate_eth_address();
        assert!(m.matches_any(&address));
    }
}
