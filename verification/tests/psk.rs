use agent_net::psk::{get_psk, psk_from_bytes, Base64Error, PreSharedKey, PskError};

fn read(text: &str) -> Result<PreSharedKey, PskError> {
    get_psk(&Some(text.to_string()))
}

fn counting() -> [u8; 32] {
    let mut key = [0u8; 32];
    for (i, byte) in key.iter_mut().enumerate() {
        *byte = i as u8;
    }
    key
}

#[test]
fn a_key_is_read() {
    assert_eq!(
        read("AAECAwQFBgcICQoLDA0ODxAREhMUFRYXGBkaGxwdHh8="),
        Ok(PreSharedKey { key: counting() })
    );
    assert_eq!(
        read("//////////////////////////////////////////8="),
        Ok(PreSharedKey { key: [255; 32] })
    );
}

#[test]
fn no_key_is_set() {
    assert_eq!(get_psk(&None), Err(PskError::Missing));
}

#[test]
fn keys_of_another_length() {
    assert_eq!(read(""), Err(PskError::Length));
    assert_eq!(read("AAEC"), Err(PskError::Length));
    assert_eq!(read("AAECAwQFBgcICQoLDA0ODxAREhMUFRYXGBkaGxwdHg=="), Err(PskError::Length));
    assert_eq!(read("AAECAwQFBgcICQoLDA0ODxAREhMUFRYXGBkaGxwdHh8g"), Err(PskError::Length));
}

#[test]
fn texts_that_are_no_base64() {
    assert_eq!(read("A!AA"), Err(PskError::Base64(Base64Error::InvalidByte(1, b'!'))));
    assert_eq!(read("AAA-"), Err(PskError::Base64(Base64Error::InvalidByte(3, b'-'))));
    assert_eq!(read("A"), Err(PskError::Base64(Base64Error::InvalidLength(1))));
    assert_eq!(read("AB=="), Err(PskError::Base64(Base64Error::InvalidLastSymbol(1, b'B'))));
    assert_eq!(read("AA"), Err(PskError::Base64(Base64Error::InvalidPadding)));
}

#[test]
fn only_the_canonical_text_is_read() {
    assert!(read("AAECAwQFBgcICQoLDA0ODxAREhMUFRYXGBkaGxwdHh8").is_err());
    assert!(read("AAECAwQFBgcICQoLDA0ODxAREhMUFRYXGBkaGxwdHh9=").is_err());
    assert!(read("AAECAwQFBgcICQoLDA0ODxAREhMUFRYXGBkaGxwdHh8=\n").is_err());
}

#[test]
fn decoded_bytes_make_a_key_by_their_number() {
    assert_eq!(psk_from_bytes(&counting().to_vec()), Ok(PreSharedKey { key: counting() }));
    assert_eq!(psk_from_bytes(&vec![7; 31]), Err(PskError::Length));
    assert_eq!(psk_from_bytes(&vec![7; 33]), Err(PskError::Length));
}

#[test]
fn what_is_wrong_is_said() {
    assert_eq!(PskError::Missing.message(), "PRIVITE_NET_KEY missing in .env");
    assert_eq!(PskError::Length.message(), "Decoded key must be 32 bytes long");
    let say = |e| PskError::Base64(e).message();
    assert_eq!(say(Base64Error::InvalidByte(10, 33)), "Invalid symbol 33, offset 10.");
    assert_eq!(say(Base64Error::InvalidLength(1)), "Invalid input length: 1");
    assert_eq!(say(Base64Error::InvalidLastSymbol(0, 200)), "Invalid last symbol 200, offset 0.");
    assert_eq!(say(Base64Error::InvalidPadding), "Invalid padding");
}
