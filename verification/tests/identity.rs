use agent_net::identity::{account_key, AccountKey, HexError, KeyError};

const ONE: &str = "0000000000000000000000000000000000000000000000000000000000000001";
const ORDER: &str = "fffffffffffffffffffffffffffffffebaaedce6af48a03bbfd25e8cd0364141";
const BELOW_ORDER: &str = "fffffffffffffffffffffffffffffffebaaedce6af48a03bbfd25e8cd0364140";

/// The generator of the group, compressed.
const GENERATOR: [u8; 33] = [
    0x02, 0x79, 0xbe, 0x66, 0x7e, 0xf9, 0xdc, 0xbb, 0xac, 0x55, 0xa0, 0x62, 0x95, 0xce, 0x87, 0x0b,
    0x07, 0x02, 0x9b, 0xfc, 0xdb, 0x2d, 0xce, 0x28, 0xd9, 0x59, 0xf2, 0x81, 0x5b, 0x16, 0xf8, 0x17,
    0x98,
];

fn key_of_one() -> AccountKey {
    let mut secret = vec![0u8; 32];
    secret[31] = 1;
    let mut public_key = vec![0x08, 0x02, 0x12, 0x21];
    public_key.extend_from_slice(&GENERATOR);
    let mut peer_id = vec![0x00, 0x25];
    peer_id.extend_from_slice(&public_key);
    AccountKey { secret, public_key, peer_id }
}

fn no_key() -> Result<AccountKey, KeyError> {
    let text = "Key decoding error: failed to parse parse secp256k1 secret key";
    Err(KeyError::SecretKey(text.to_string()))
}

#[test]
fn the_key_one_has_the_generator() {
    assert_eq!(account_key(ONE), Ok(key_of_one()));
}

#[test]
fn the_peer_id_is_libp2ps() {
    let key = account_key(BELOW_ORDER).unwrap();
    let secret = libp2p::identity::secp256k1::SecretKey::try_from_bytes(key.secret.clone()).unwrap();
    let pair: libp2p::identity::Keypair = libp2p::identity::secp256k1::Keypair::from(secret).into();
    assert_eq!(key.peer_id, pair.public().to_peer_id().to_bytes());
    assert_eq!(key.public_key, pair.public().encode_protobuf());
    let mut opposite = GENERATOR;
    opposite[0] = 0x03;
    assert_eq!(&key.public_key[4..], &opposite);
}

#[test]
fn the_case_of_digits_does_not_matter() {
    let lower = account_key(BELOW_ORDER);
    assert!(lower.is_ok());
    assert_eq!(account_key(&BELOW_ORDER.to_uppercase()), lower);
}

#[test]
fn the_hex_of_a_key_is_read_as_the_key() {
    let secret: Vec<u8> = (1u8..=32).collect();
    assert_eq!(account_key(&hex::encode(&secret)).unwrap().secret, secret);
}

#[test]
fn short_keys_are_padded() {
    assert_eq!(account_key(&ONE[16..]), Ok(key_of_one()));
    assert_eq!(account_key(&ONE[2..]), Ok(key_of_one()));
    assert_eq!(account_key(&ONE[18..]), no_key());
}

#[test]
fn numbers_that_are_no_key() {
    assert_eq!(account_key(ORDER), no_key());
    assert_eq!(account_key(&"0".repeat(64)), no_key());
    assert_eq!(account_key(&"f".repeat(64)), no_key());
    assert_eq!(account_key(&format!("00{}", ONE)), no_key());
    assert_eq!(account_key(""), no_key());
}

#[test]
fn texts_that_are_no_hex() {
    assert_eq!(account_key("123"), Err(KeyError::Hex(HexError::OddLength)));
    assert_eq!(account_key("zzz"), Err(KeyError::Hex(HexError::OddLength)));
    assert_eq!(
        account_key("0x01"),
        Err(KeyError::Hex(HexError::InvalidHexCharacter { c: 'x', index: 1 }))
    );
    assert_eq!(
        account_key("ab\ncdgg"),
        Err(KeyError::Hex(HexError::OddLength))
    );
    assert_eq!(
        account_key("abcdgh"),
        Err(KeyError::Hex(HexError::InvalidHexCharacter { c: 'g', index: 4 }))
    );
    assert_eq!(
        account_key("ü"),
        Err(KeyError::Hex(HexError::InvalidHexCharacter { c: '\u{c3}', index: 0 }))
    );
}

#[test]
fn the_reason_is_libp2ps() {
    let error = libp2p::identity::secp256k1::SecretKey::try_from_bytes(vec![0u8; 32]).unwrap_err();
    assert_eq!(account_key(&"0".repeat(64)), Err(KeyError::SecretKey(error.to_string())));
    let error = libp2p::identity::secp256k1::SecretKey::try_from_bytes(vec![1u8; 3]).unwrap_err();
    assert_eq!(account_key("010101"), Err(KeyError::SecretKey(error.to_string())));
}
