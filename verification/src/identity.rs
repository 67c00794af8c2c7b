//! The node's identity: a secp256k1 key pair made from the account's secret key.
use vstd::prelude::*;

verus! {

/// Why a text is no hexadecimal encoding of bytes.
#[derive(Debug, Clone, Copy, PartialEq, Eq, Structural)]
pub enum HexError {
    /// The byte at `index` is no hexadecimal digit.
    InvalidHexCharacter { c: char, index: usize },
    /// The number of digits is odd.
    OddLength,
    /// The digits do not fill a container of fixed size.
    InvalidStringLength,
}

/// The value of a hexadecimal digit of either case.
pub open spec fn hex_value(digit: u8) -> Option<int> {
    if 0x30 <= digit <= 0x39 {
        Some(digit - 0x30)
    } else if 0x41 <= digit <= 0x46 {
        Some(digit - 0x41 + 10)
    } else if 0x61 <= digit <= 0x66 {
        Some(digit - 0x61 + 10)
    } else {
        None
    }
}

/// The index of the first byte that is no hexadecimal digit; the length where there is none.
pub open spec fn first_non_hex(text: Seq<u8>) -> nat
    decreases text.len(),
{
    if text.len() == 0 || hex_value(text[0]) is None {
        0
    } else {
        1 + first_non_hex(text.drop_first())
    }
}

/// The byte whose two hexadecimal digits stand at `2 * i` and after it.
pub open spec fn hex_byte(text: Seq<u8>, i: int) -> u8 {
    (16 * hex_value(text[2 * i])->0 + hex_value(text[2 * i + 1])->0) as u8
}

/// The bytes that a hexadecimal text encodes, or what is wrong with it.
pub open spec fn hex_decoded(text: Seq<u8>) -> Result<Seq<u8>, HexError> {
    let bad = first_non_hex(text);
    if text.len() % 2 != 0 {
        Err(HexError::OddLength)
    } else if bad < text.len() {
        Err(HexError::InvalidHexCharacter { c: text[bad as int] as char, index: bad as usize })
    } else {
        Ok(Seq::new(text.len() / 2, |i: int| hex_byte(text, i)))
    }
}

/// Calls `hex::decode`.
///
/// Trusted: two digits of either case make one byte, the first of them its upper half. A text of
/// odd length is refused as such, before its digits are looked at; otherwise the first byte that
/// is no digit is reported, as the character of its value, with its index.
#[verifier::external_body]
fn hex_decode(text: &[u8]) -> (res: Result<Vec<u8>, HexError>)
    ensures
        match res {
            Ok(bytes) => hex_decoded(text@) == Ok::<Seq<u8>, HexError>(bytes@),
            Err(e) => hex_decoded(text@) == Err::<Seq<u8>, HexError>(e),
        },
{
    match hex::decode(text) {
        Ok(bytes) => Ok(bytes),
        Err(hex::FromHexError::InvalidHexCharacter { c, index }) => {
            Err(HexError::InvalidHexCharacter { c, index })
        },
        Err(hex::FromHexError::OddLength) => Err(HexError::OddLength),
        Err(hex::FromHexError::InvalidStringLength) => Err(HexError::InvalidStringLength),
    }
}

/// The number that bytes spell, the most significant first.
pub open spec fn big_endian(bytes: Seq<u8>) -> nat
    decreases bytes.len(),
{
    if bytes.len() == 0 {
        0
    } else {
        256 * big_endian(bytes.drop_last()) + bytes.last() as nat
    }
}

/// The order of the group of secp256k1.
pub open spec fn secp256k1_order() -> nat {
    0xFFFF_FFFF_FFFF_FFFF_FFFF_FFFF_FFFF_FFFE_BAAE_DCE6_AF48_A03B_BFD2_5E8C_D036_4141nat
}

/// Bytes that spell a secret key: 24 to 32 of them, for a number between zero and the order of
/// the group, both excluded.
pub open spec fn is_secret_key(bytes: Seq<u8>) -> bool {
    &&& 24 <= bytes.len() <= 32
    &&& 0 < big_endian(bytes) < secp256k1_order()
}

/// The bytes behind as many zeros as make them 32.
pub open spec fn padded(bytes: Seq<u8>) -> Seq<u8> {
    Seq::new((32 - bytes.len()) as nat, |i: int| 0u8) + bytes
}

/// What is said of bytes that are no secret key.
pub open spec fn secret_key_message() -> Seq<char> {
    "Key decoding error: failed to parse parse secp256k1 secret key"@
}

/// Calls `identity::secp256k1::SecretKey::try_from_bytes` of libp2p and hands out the key's 32
/// bytes, or what its `DecodingError` says.
///
/// Trusted: the call succeeds for the bytes that [`is_secret_key`] describes and for no others,
/// and fewer than 32 bytes are filled up with zeros in front. All other bytes get an error of the
/// same text.
#[verifier::external_body]
fn secret_key_from_bytes(bytes: Vec<u8>) -> (res: Result<Vec<u8>, String>)
    ensures
        match res {
            Ok(secret) => is_secret_key(bytes@) && secret@ == padded(bytes@),
            Err(text) => !is_secret_key(bytes@) && text@ == secret_key_message(),
        },
{
    match libp2p::identity::secp256k1::SecretKey::try_from_bytes(bytes) {
        Ok(key) => Ok(key.to_bytes().to_vec()),
        Err(e) => Err(e.to_string()),
    }
}

/// The point that `identity::secp256k1::Keypair::from` of libp2p computes for a secret key, as
/// `PublicKey::to_bytes` writes it: one coordinate and the sign of the other.
pub uninterp spec fn secp256k1_public_point(secret: Seq<u8>) -> Seq<u8>;

/// The public key of a secret key in libp2p's protobuf form: the key's type, its length, and the
/// point.
pub open spec fn encoded_public_key(secret: Seq<u8>) -> Seq<u8> {
    seq![0x08u8, 0x02u8, 0x12u8, 0x21u8] + secp256k1_public_point(secret)
}

/// The peer id of a secret key: the encoded public key, short enough to stand for itself, behind
/// the code of the identity hash and its length.
pub open spec fn encoded_peer_id(secret: Seq<u8>) -> Seq<u8> {
    seq![0x00u8, 0x25u8] + encoded_public_key(secret)
}

/// Calls `PublicKey::encode_protobuf` on the public key of the key pair of `secret`.
///
/// Trusted: the outcome is the four bytes for a secp256k1 key of 33 bytes, then the 33 bytes of
/// the point, which is a function of the secret key alone.
#[verifier::external_body]
fn public_key_of(secret: &Vec<u8>) -> (res: Vec<u8>)
    requires
        is_secret_key(secret@),
    ensures
        res@ == seq![0x08u8, 0x02u8, 0x12u8, 0x21u8] + secp256k1_public_point(secret@),
        res@.len() == 37,
{
    let key = libp2p::identity::secp256k1::SecretKey::try_from_bytes(secret.clone()).unwrap();
    let pair: libp2p::identity::Keypair = libp2p::identity::secp256k1::Keypair::from(key).into();
    pair.public().encode_protobuf()
}

/// Calls `PeerId::from` on the public key of the key pair of `secret`.
///
/// Trusted: an encoded key of up to 42 bytes becomes the peer id by an identity multihash, so
/// the id is that hash's code, the length 37, and the encoded key.
#[verifier::external_body]
fn peer_id_of(secret: &Vec<u8>) -> (res: Vec<u8>)
    requires
        is_secret_key(secret@),
    ensures
        res@ == encoded_peer_id(secret@),
{
    let key = libp2p::identity::secp256k1::SecretKey::try_from_bytes(secret.clone()).unwrap();
    let pair: libp2p::identity::Keypair = libp2p::identity::secp256k1::Keypair::from(key).into();
    libp2p::PeerId::from(pair.public()).to_bytes()
}

/// The account's key pair and the peer id that goes with it.
#[derive(Debug, PartialEq, Eq)]
pub struct AccountKey {
    /// The 32 bytes of the secret key.
    pub secret: Vec<u8>,
    /// The public key, as libp2p encodes it.
    pub public_key: Vec<u8>,
    /// The bytes of the node's own peer id.
    pub peer_id: Vec<u8>,
}

/// What an [`AccountKey`] holds.
pub struct AccountKeyView {
    pub secret: Seq<u8>,
    pub public_key: Seq<u8>,
    pub peer_id: Seq<u8>,
}

impl View for AccountKey {
    type V = AccountKeyView;

    open spec fn view(&self) -> AccountKeyView {
        AccountKeyView {
            secret: self.secret@,
            public_key: self.public_key@,
            peer_id: self.peer_id@,
        }
    }
}

/// Why a text gives no account key.
#[derive(Debug, PartialEq, Eq)]
pub enum KeyError {
    /// The text is not hexadecimal.
    Hex(HexError),
    /// The bytes are no secret key of secp256k1, for the reason that the text gives.
    SecretKey(String),
}

/// What a [`KeyError`] holds.
pub enum KeyErrorView {
    Hex(HexError),
    SecretKey(Seq<char>),
}

impl View for KeyError {
    type V = KeyErrorView;

    open spec fn view(&self) -> KeyErrorView {
        match self {
            KeyError::Hex(e) => KeyErrorView::Hex(*e),
            KeyError::SecretKey(text) => KeyErrorView::SecretKey(text@),
        }
    }
}

/// The key pair of a 32-byte secret key.
pub open spec fn key_pair(secret: Seq<u8>) -> AccountKeyView {
    AccountKeyView {
        secret,
        public_key: encoded_public_key(secret),
        peer_id: encoded_peer_id(secret),
    }
}

/// The account key that the bytes of a text spell in hexadecimal.
pub open spec fn account_key_of(text: Seq<u8>) -> Result<AccountKeyView, KeyErrorView> {
    match hex_decoded(text) {
        Err(e) => Err(KeyErrorView::Hex(e)),
        Ok(bytes) => if is_secret_key(bytes) {
            Ok(key_pair(padded(bytes)))
        } else {
            Err(KeyErrorView::SecretKey(secret_key_message()))
        },
    }
}

/// The view of what reading an account key gave.
pub open spec fn key_result(res: Result<AccountKey, KeyError>) -> Result<
    AccountKeyView,
    KeyErrorView,
> {
    match res {
        Ok(key) => Ok(key@),
        Err(e) => Err(e@),
    }
}

proof fn lemma_padding_keeps_value(zeros: nat, bytes: Seq<u8>)
    ensures
        big_endian(Seq::new(zeros, |i: int| 0u8) + bytes) == big_endian(bytes),
    decreases zeros, bytes.len(),
{
    let front = Seq::new(zeros, |i: int| 0u8);
    let whole = front + bytes;
    if bytes.len() > 0 {
        assert(whole.drop_last() =~= front + bytes.drop_last());
        lemma_padding_keeps_value(zeros, bytes.drop_last());
    } else if zeros > 0 {
        let fewer = (zeros - 1) as nat;
        assert(whole.drop_last() =~= Seq::new(fewer, |i: int| 0u8) + bytes);
        lemma_padding_keeps_value(fewer, bytes);
    }
}

/// Filling a secret key up to 32 bytes leaves it a secret key, of the same number.
pub proof fn law_padding_keeps_the_key(bytes: Seq<u8>)
    requires
        is_secret_key(bytes),
    ensures
        padded(bytes).len() == 32,
        big_endian(padded(bytes)) == big_endian(bytes),
        is_secret_key(padded(bytes)),
{
    lemma_padding_keeps_value((32 - bytes.len()) as nat, bytes);
}

/// Reads the account's secret key from its hexadecimal text and makes the node's key pair of it.
pub fn account_key(text: &str) -> (res: Result<AccountKey, KeyError>)
    ensures
        key_result(res) == account_key_of(vstd::utf8::encode_utf8(text@)),
        res matches Ok(key) ==> is_secret_key(key.secret@) && key.secret@.len() == 32,
        // The public key and the peer id are those of the secret key.
        res matches Ok(key) ==> {
            &&& key.public_key@ == seq![0x08u8, 0x02u8, 0x12u8, 0x21u8] + secp256k1_public_point(
                key.secret@,
            )
            &&& key.peer_id@ == seq![0x00u8, 0x25u8] + key.public_key@
        },
{
    match hex_decode(text.as_bytes()) {
        Err(e) => Err(KeyError::Hex(e)),
        Ok(bytes) => {
            let ghost given = bytes@;
            match secret_key_from_bytes(bytes) {
                Err(text) => Err(KeyError::SecretKey(text)),
                Ok(secret) => {
                    proof {
                        law_padding_keeps_the_key(given);
                    }
                    let public_key = public_key_of(&secret);
                    let peer_id = peer_id_of(&secret);
                    Ok(AccountKey { secret, public_key, peer_id })
                },
            }
        },
    }
}

/// The hexadecimal digit, in lower case, of a value below 16.
pub open spec fn hex_digit(value: int) -> u8 {
    if value < 10 {
        (0x30 + value) as u8
    } else {
        (0x61 + value - 10) as u8
    }
}

/// The hexadecimal text of bytes: two digits for each.
pub open spec fn hex_encoded(bytes: Seq<u8>) -> Seq<u8> {
    Seq::new(
        2 * bytes.len(),
        |i: int|
            if i % 2 == 0 {
                hex_digit(bytes[i / 2] as int / 16)
            } else {
                hex_digit(bytes[i / 2] as int % 16)
            },
    )
}

proof fn lemma_all_hex(text: Seq<u8>)
    requires
        forall|i: int| 0 <= i < text.len() ==> hex_value(#[trigger] text[i]) is Some,
    ensures
        first_non_hex(text) == text.len(),
    decreases text.len(),
{
    if text.len() > 0 {
        assert(hex_value(text[0]) is Some);
        assert forall|i: int| 0 <= i < text.drop_first().len() implies hex_value(
            #[trigger] text.drop_first()[i],
        ) is Some by {
            assert(hex_value(text[i + 1]) is Some);
        }
        lemma_all_hex(text.drop_first());
    }
}

/// Decoding the hexadecimal text of bytes gives the bytes back.
pub proof fn law_hex_decodes_what_it_encoded(bytes: Seq<u8>)
    ensures
        hex_decoded(hex_encoded(bytes)) == Ok::<Seq<u8>, HexError>(bytes),
{
    let text = hex_encoded(bytes);
    lemma_all_hex(text);
    assert forall|i: int| 0 <= i < bytes.len() implies hex_byte(text, i) == bytes[i] by {
        assert((2 * i) / 2 == i && (2 * i + 1) / 2 == i);
        assert((2 * i) % 2 == 0 && (2 * i + 1) % 2 == 1);
    }
    assert(Seq::new(text.len() / 2, |i: int| hex_byte(text, i)) =~= bytes);
}

/// The case of the digits does not matter.
pub proof fn law_hex_ignores_case(left: Seq<u8>, right: Seq<u8>)
    requires
        left.len() == right.len(),
        forall|i: int|
            0 <= i < left.len() ==> hex_value(#[trigger] left[i]) is Some && hex_value(left[i])
                == hex_value(right[i]),
    ensures
        hex_decoded(left) == hex_decoded(right),
        account_key_of(left) == account_key_of(right),
{
    assert forall|i: int| 0 <= i < right.len() implies hex_value(#[trigger] right[i]) is Some by {
        assert(hex_value(left[i]) == hex_value(right[i]));
    }
    lemma_all_hex(left);
    lemma_all_hex(right);
    if left.len() % 2 == 0 {
        assert forall|i: int| 0 <= i < left.len() / 2 implies hex_byte(left, i) == hex_byte(
            right,
            i,
        ) by {
            assert(hex_value(left[2 * i]) == hex_value(right[2 * i]));
            assert(hex_value(left[2 * i + 1]) == hex_value(right[2 * i + 1]));
        }
        assert(Seq::new(left.len() / 2, |i: int| hex_byte(left, i)) =~= Seq::new(
            right.len() / 2,
            |i: int| hex_byte(right, i),
        ));
    }
}

/// The hexadecimal text of a full secret key is read as that key.
pub proof fn law_account_key_of_its_hex(secret: Seq<u8>)
    requires
        is_secret_key(secret),
        secret.len() == 32,
    ensures
        account_key_of(hex_encoded(secret)) == Ok::<AccountKeyView, KeyErrorView>(key_pair(secret)),
{
    law_hex_decodes_what_it_encoded(secret);
    assert(padded(secret) =~= secret);
}

/// Whatever text an account key was read from, its public key and its peer id are those of its
/// secret key: the point behind the four bytes for a secp256k1 key of 33 bytes, and all that
/// behind the two bytes for an identity hash of 37.
pub proof fn law_public_key_and_peer_id_are_the_secrets(text: Seq<u8>)
    ensures
        account_key_of(text) matches Ok(key) ==> {
            &&& key.secret.len() == 32
            &&& 0 < big_endian(key.secret) < secp256k1_order()
            &&& key.public_key == seq![0x08u8, 0x02u8, 0x12u8, 0x21u8] + secp256k1_public_point(
                key.secret,
            )
            &&& key.peer_id == seq![0x00u8, 0x25u8] + key.public_key
        },
{
    match hex_decoded(text) {
        Ok(bytes) => {
            if is_secret_key(bytes) {
                law_padding_keeps_the_key(bytes);
            }
        },
        Err(_) => {},
    }
}

/// The hexadecimal text of bytes gives a key just where the bytes are 24 to 32 in number and
/// spell a number between zero and the order of the group. The secret key is then the bytes
/// themselves, behind as many zeros as make them 32.
pub proof fn law_account_key_is_what_was_written(bytes: Seq<u8>, i: int)
    ensures
        match account_key_of(hex_encoded(bytes)) {
            Ok(key) => {
                &&& 24 <= bytes.len() <= 32
                &&& 0 < big_endian(bytes) < secp256k1_order()
                &&& key.secret.len() == 32
                &&& key.secret.skip(32 - bytes.len()) == bytes
                &&& 0 <= i < 32 - bytes.len() ==> key.secret[i] == 0
                &&& bytes.len() == 32 ==> key.secret == bytes
            },
            Err(e) => {
                &&& !(24 <= bytes.len() <= 32 && 0 < big_endian(bytes) < secp256k1_order())
                &&& e == KeyErrorView::SecretKey(
                    "Key decoding error: failed to parse parse secp256k1 secret key"@,
                )
            },
        },
{
    law_hex_decodes_what_it_encoded(bytes);
    if is_secret_key(bytes) {
        assert(padded(bytes).skip(32 - bytes.len()) =~= bytes);
        if bytes.len() == 32 {
            assert(padded(bytes) =~= bytes);
        }
    }
}

/// Written in hexadecimal again, a secret key has the digits of the text that it was read from,
/// whatever their case, behind zeros.
pub proof fn law_secret_key_has_the_digits_of_its_text(text: Seq<u8>, i: int)
    requires
        account_key_of(text) is Ok,
    ensures
        ({
            let digits = hex_encoded(account_key_of(text)->Ok_0.secret);
            let zeros = 64 - text.len();
            &&& digits.len() == 64
            &&& 48 <= text.len() <= 64
            &&& text.len() % 2 == 0
            &&& 0 <= i < zeros ==> hex_value(digits[i]) == Some(0int)
            &&& zeros <= i < 64 ==> hex_value(text[i - zeros]) is Some && hex_value(digits[i])
                == hex_value(text[i - zeros])
        }),
{
    let bytes = hex_decoded(text)->Ok_0;
    let secret = padded(bytes);
    let digits = hex_encoded(secret);
    let zeros = 64 - text.len();
    lemma_no_bad_digit(text);
    if 0 <= i < 64 {
        assert(0 <= secret[i / 2] as int / 16 < 16);
        if i < zeros {
            assert(i / 2 < 32 - bytes.len());
            assert(secret[i / 2] == 0);
        } else {
            let k = (i - zeros) / 2;
            assert(i / 2 - (32 - bytes.len()) == k);
            assert(secret[i / 2] == bytes[k]);
            assert(bytes[k] == hex_byte(text, k));
            assert(hex_value(text[2 * k]) is Some);
            assert(hex_value(text[2 * k + 1]) is Some);
            let high = hex_value(text[2 * k])->0;
            let low = hex_value(text[2 * k + 1])->0;
            assert(0 <= high < 16 && 0 <= low < 16);
            assert(bytes[k] as int == 16 * high + low);
            assert(bytes[k] as int / 16 == high && bytes[k] as int % 16 == low);
        }
    }
}

proof fn lemma_no_bad_digit(text: Seq<u8>)
    requires
        first_non_hex(text) >= text.len(),
    ensures
        forall|i: int| 0 <= i < text.len() ==> hex_value(#[trigger] text[i]) is Some,
    decreases text.len(),
{
    if text.len() > 0 {
        lemma_no_bad_digit(text.drop_first());
        assert forall|i: int| 0 <= i < text.len() implies hex_value(#[trigger] text[i]) is Some by {
            if i > 0 {
                assert(text[i] == text.drop_first()[i - 1]);
            }
        }
    }
}

proof fn lemma_first_bad_digit(text: Seq<u8>, at: int)
    requires
        0 <= at < text.len(),
        hex_value(text[at]) is None,
        forall|i: int| 0 <= i < at ==> hex_value(#[trigger] text[i]) is Some,
    ensures
        first_non_hex(text) == at,
    decreases text.len(),
{
    if at > 0 {
        assert(hex_value(text[0]) is Some);
        let rest = text.drop_first();
        assert forall|i: int| 0 <= i < at - 1 implies hex_value(#[trigger] rest[i]) is Some by {
            assert(rest[i] == text[i + 1]);
        }
        lemma_first_bad_digit(rest, at - 1);
    }
}

/// An odd number of digits is refused as such, whatever they are. Of an even number the first
/// character that is no digit is refused, with its place.
pub proof fn law_what_is_not_hexadecimal_is_refused(text: Seq<u8>, at: int)
    ensures
        text.len() % 2 == 1 ==> account_key_of(text) == Err::<AccountKeyView, KeyErrorView>(
            KeyErrorView::Hex(HexError::OddLength),
        ),
        text.len() % 2 == 0 && 0 <= at < text.len() && hex_value(text[at]) is None && (forall|i: int|
            0 <= i < at ==> hex_value(#[trigger] text[i]) is Some) ==> account_key_of(text) == Err::<
            AccountKeyView,
            KeyErrorView,
        >(
            KeyErrorView::Hex(
                HexError::InvalidHexCharacter { c: text[at] as char, index: at as usize },
            ),
        ),
{
    if 0 <= at < text.len() && hex_value(text[at]) is None && (forall|i: int|
        0 <= i < at ==> hex_value(#[trigger] text[i]) is Some) {
        lemma_first_bad_digit(text, at);
    }
}

/// The hexadecimal digits are the ten figures and the first six letters, of either case, and
/// stand for the values from zero to fifteen in this order.
pub proof fn law_hexadecimal_digits(value: int)
    requires
        0 <= value < 16,
    ensures
        hex_digit(value) as char == "0123456789abcdef"@[value],
        hex_value(hex_digit(value)) == Some(value),
        hex_value("0123456789ABCDEF"@[value] as u8) == Some(value),
{
    reveal_strlit("0123456789abcdef");
    reveal_strlit("0123456789ABCDEF");
}

/// The view of an account key shows its three parts, and that of a key error its cause.
pub proof fn law_a_key_shows_its_parts(key: AccountKey, error: KeyError)
    ensures
        key@.secret == key.secret@,
        key@.public_key == key.public_key@,
        key@.peer_id == key.peer_id@,
        match error {
            KeyError::Hex(e) => error@ == KeyErrorView::Hex(e),
            KeyError::SecretKey(text) => error@ == KeyErrorView::SecretKey(text@),
        },
        key_result(Ok(key)) == Ok::<AccountKeyView, KeyErrorView>(key@),
        key_result(Err(error)) == Err::<AccountKeyView, KeyErrorView>(error@),
{
}

}
