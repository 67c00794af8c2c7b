//! The pre-shared key of a private network.
use vstd::prelude::*;

verus! {

/// The symbol of the standard base64 alphabet for a value below 64.
pub open spec fn base64_symbol(value: int) -> u8 {
    if value < 26 {
        (0x41 + value) as u8
    } else if value < 52 {
        (0x61 + value - 26) as u8
    } else if value < 62 {
        (0x30 + value - 52) as u8
    } else if value == 62 {
        0x2Bu8
    } else {
        0x2Fu8
    }
}

/// The padding symbol of base64.
pub open spec fn base64_pad() -> u8 {
    0x3Du8
}

/// The base64 text of bytes: four symbols for each three bytes, the last group padded.
pub open spec fn base64_encoded(bytes: Seq<u8>) -> Seq<u8>
    decreases bytes.len(),
{
    let b0 = bytes[0] as int;
    let b1 = bytes[1] as int;
    let b2 = bytes[2] as int;
    if bytes.len() == 0 {
        Seq::empty()
    } else if bytes.len() == 1 {
        seq![base64_symbol(b0 / 4), base64_symbol(b0 % 4 * 16), base64_pad(), base64_pad()]
    } else if bytes.len() == 2 {
        seq![
            base64_symbol(b0 / 4),
            base64_symbol(b0 % 4 * 16 + b1 / 16),
            base64_symbol(b1 % 16 * 4),
            base64_pad(),
        ]
    } else {
        seq![
            base64_symbol(b0 / 4),
            base64_symbol(b0 % 4 * 16 + b1 / 16),
            base64_symbol(b1 % 16 * 4 + b2 / 64),
            base64_symbol(b2 % 64),
        ] + base64_encoded(bytes.skip(3))
    }
}

/// The bytes of which `text` is the base64 text.
pub open spec fn base64_decoded(text: Seq<u8>) -> Option<Seq<u8>> {
    if exists|bytes: Seq<u8>| base64_encoded(bytes) == text {
        Some(choose|bytes: Seq<u8>| base64_encoded(bytes) == text)
    } else {
        None
    }
}

proof fn lemma_symbols_differ(v: int, w: int)
    requires
        0 <= v < 64,
        0 <= w < 64,
    ensures
        base64_symbol(v) == base64_symbol(w) ==> v == w,
        base64_symbol(v) != base64_pad(),
{
}

/// Different bytes have different base64 texts.
pub proof fn law_base64_injective(left: Seq<u8>, right: Seq<u8>)
    requires
        base64_encoded(left) == base64_encoded(right),
    ensures
        left == right,
    decreases left.len(),
{
    let text = base64_encoded(left);
    if left.len() == 0 || right.len() == 0 {
        assert(text.len() == 0);
        assert(left =~= right);
    } else {
        let l0 = left[0] as int;
        let l1 = if left.len() > 1 { left[1] as int } else { 0 };
        let l2 = if left.len() > 2 { left[2] as int } else { 0 };
        let r0 = right[0] as int;
        let r1 = if right.len() > 1 { right[1] as int } else { 0 };
        let r2 = if right.len() > 2 { right[2] as int } else { 0 };
        lemma_symbols_differ(l0 / 4, r0 / 4);
        lemma_symbols_differ(l0 % 4 * 16 + l1 / 16, r0 % 4 * 16 + r1 / 16);
        lemma_symbols_differ(l1 % 16 * 4 + l2 / 64, r1 % 16 * 4 + r2 / 64);
        lemma_symbols_differ(r1 % 16 * 4 + r2 / 64, l1 % 16 * 4 + l2 / 64);
        lemma_symbols_differ(l2 % 64, r2 % 64);
        lemma_symbols_differ(r2 % 64, l2 % 64);
        assert(text[0] == base64_symbol(l0 / 4));
        assert(text[1] == base64_symbol(l0 % 4 * 16 + l1 / 16));
        assert(text[2] == if left.len() > 1 { base64_symbol(l1 % 16 * 4 + l2 / 64) } else { base64_pad() });
        assert(text[3] == if left.len() > 2 { base64_symbol(l2 % 64) } else { base64_pad() });
        assert(text[0] == base64_symbol(r0 / 4));
        assert(text[1] == base64_symbol(r0 % 4 * 16 + r1 / 16));
        assert(text[2] == if right.len() > 1 { base64_symbol(r1 % 16 * 4 + r2 / 64) } else { base64_pad() });
        assert(text[3] == if right.len() > 2 { base64_symbol(r2 % 64) } else { base64_pad() });
        assert(l0 == r0);
        if left.len() > 2 {
            assert(base64_encoded(left.skip(3)) =~= text.skip(4));
            assert(base64_encoded(right.skip(3)) =~= text.skip(4));
            law_base64_injective(left.skip(3), right.skip(3));
            assert(left =~= seq![left[0], left[1], left[2]] + left.skip(3));
            assert(right =~= seq![right[0], right[1], right[2]] + right.skip(3));
        } else {
            assert(left =~= right);
        }
    }
}

/// Decoding the base64 text of bytes gives the bytes back.
pub proof fn law_base64_decodes_what_it_encoded(bytes: Seq<u8>)
    ensures
        base64_decoded(base64_encoded(bytes)) == Some(bytes),
{
    let text = base64_encoded(bytes);
    let decoded = choose|b: Seq<u8>| base64_encoded(b) == text;
    law_base64_injective(decoded, bytes);
}

/// Why a text is no base64 encoding of bytes.
#[derive(Debug, Clone, Copy, PartialEq, Eq, Structural)]
pub enum Base64Error {
    /// A byte that may not stand at this offset.
    InvalidByte(usize, u8),
    /// The last group has too few symbols.
    InvalidLength(usize),
    /// The last symbol, at this offset, has bits that belong to no byte.
    InvalidLastSymbol(usize, u8),
    /// The padding is missing or wrong.
    InvalidPadding,
}

/// The error with which `Engine::decode` of `base64::engine::general_purpose::STANDARD` refuses
/// a text.
pub uninterp spec fn base64_failure(text: Seq<u8>) -> Base64Error;

/// Calls `Engine::decode` of `base64::engine::general_purpose::STANDARD`.
///
/// Trusted: the engine takes the standard alphabet only, wants canonical padding and refuses
/// stray bits in the last symbol, so it accepts a text just where the text is the encoding of
/// some bytes, and returns those. Which error a refused text gets is a function of the text.
#[verifier::external_body]
fn base64_decode(text: &[u8]) -> (res: Result<Vec<u8>, Base64Error>)
    ensures
        match res {
            Ok(bytes) => base64_decoded(text@) == Some(bytes@),
            Err(e) => base64_decoded(text@) is None && e == base64_failure(text@),
        },
{
    match base64::Engine::decode(&base64::engine::general_purpose::STANDARD, text) {
        Ok(bytes) => Ok(bytes),
        Err(base64::DecodeError::InvalidByte(at, byte)) => Err(Base64Error::InvalidByte(at, byte)),
        Err(base64::DecodeError::InvalidLength(len)) => Err(Base64Error::InvalidLength(len)),
        Err(base64::DecodeError::InvalidLastSymbol(at, byte)) => {
            Err(Base64Error::InvalidLastSymbol(at, byte))
        },
        Err(base64::DecodeError::InvalidPadding) => Err(Base64Error::InvalidPadding),
    }
}

/// The key that the nodes of a private network share.
#[derive(Debug, Clone, Copy, PartialEq, Eq)]
pub struct PreSharedKey {
    pub key: [u8; 32],
}

impl View for PreSharedKey {
    type V = Seq<u8>;

    open spec fn view(&self) -> Seq<u8> {
        self.key@
    }
}

/// Why there is no pre-shared key.
#[derive(Debug, Clone, Copy, PartialEq, Eq, Structural)]
pub enum PskError {
    /// No key is set.
    Missing,
    /// The text is no base64.
    Base64(Base64Error),
    /// The decoded key does not have 32 bytes.
    Length,
}

/// The decimal digits of a number.
pub open spec fn decimal(n: nat) -> Seq<char>
    decreases n,
{
    let digit = ('0' as u32 + n % 10) as char;
    if n < 10 {
        seq![digit]
    } else {
        decimal(n / 10).push(digit)
    }
}

/// What is said of a text that is no base64.
pub open spec fn base64_message(error: Base64Error) -> Seq<char> {
    match error {
        Base64Error::InvalidByte(at, byte) => {
            "Invalid symbol "@ + decimal(byte as nat) + ", offset "@ + decimal(at as nat) + "."@
        },
        Base64Error::InvalidLength(len) => "Invalid input length: "@ + decimal(len as nat),
        Base64Error::InvalidLastSymbol(at, byte) => {
            "Invalid last symbol "@ + decimal(byte as nat) + ", offset "@ + decimal(at as nat)
                + "."@
        },
        Base64Error::InvalidPadding => "Invalid padding"@,
    }
}

/// Calls `to_string` of `base64::DecodeError`.
///
/// Trusted: the outcome is the sentence that [`base64_message`] spells, its numbers in decimal.
#[verifier::external_body]
fn base64_error_text(error: Base64Error) -> (text: String)
    ensures
        text@ == base64_message(error),
{
    match error {
        Base64Error::InvalidByte(at, byte) => base64::DecodeError::InvalidByte(at, byte),
        Base64Error::InvalidLength(len) => base64::DecodeError::InvalidLength(len),
        Base64Error::InvalidLastSymbol(at, byte) => base64::DecodeError::InvalidLastSymbol(at, byte),
        Base64Error::InvalidPadding => base64::DecodeError::InvalidPadding,
    }.to_string()
}

/// What is said of a key that is missing or cannot be read.
pub open spec fn psk_message(error: PskError) -> Seq<char> {
    match error {
        PskError::Missing => "PRIVITE_NET_KEY missing in .env"@,
        PskError::Base64(e) => base64_message(e),
        PskError::Length => "Decoded key must be 32 bytes long"@,
    }
}

impl PskError {
    /// What is wrong with the key, in words.
    pub fn message(&self) -> (text: String)
        ensures
            text@ == psk_message(*self),
            *self is Missing ==> text@ == "PRIVITE_NET_KEY missing in .env"@,
            *self matches PskError::Base64(e) ==> text@ == base64_message(e),
            *self is Length ==> text@ == "Decoded key must be 32 bytes long"@,
    {
        match self {
            PskError::Missing => "PRIVITE_NET_KEY missing in .env".to_owned(),
            PskError::Base64(e) => base64_error_text(*e),
            PskError::Length => "Decoded key must be 32 bytes long".to_owned(),
        }
    }
}

/// The pre-shared key that a base64 text holds.
pub open spec fn psk_of(text: Option<Seq<u8>>) -> Result<Seq<u8>, PskError> {
    match text {
        None => Err(PskError::Missing),
        Some(text) => match base64_decoded(text) {
            None => Err(PskError::Base64(base64_failure(text))),
            Some(bytes) => if bytes.len() == 32 {
                Ok(bytes)
            } else {
                Err(PskError::Length)
            },
        },
    }
}

/// The view of what reading a pre-shared key gave.
pub open spec fn psk_result(res: Result<PreSharedKey, PskError>) -> Result<Seq<u8>, PskError> {
    match res {
        Ok(psk) => Ok(psk@),
        Err(e) => Err(e),
    }
}

/// The bytes of a text that may be absent.
pub open spec fn text_bytes(text: Option<String>) -> Option<Seq<u8>> {
    match text {
        Some(text) => Some(vstd::utf8::encode_utf8(text@)),
        None => None,
    }
}

/// Makes a pre-shared key of decoded bytes, of which there must be 32.
pub fn psk_from_bytes(bytes: &Vec<u8>) -> (res: Result<PreSharedKey, PskError>)
    ensures
        psk_result(res) == if bytes@.len() == 32 {
            Ok(bytes@)
        } else {
            Err::<Seq<u8>, PskError>(PskError::Length)
        },
{
    if bytes.len() != 32 {
        return Err(PskError::Length);
    }
    let mut key: [u8; 32] = [0u8; 32];
    for i in 0..32usize
        invariant
            bytes@.len() == 32,
            forall|k: int| 0 <= k < i ==> key@[k] == bytes@[k],
    {
        key[i] = bytes[i];
    }
    assert(key@ =~= bytes@);
    Ok(PreSharedKey { key })
}

/// Reads the pre-shared key from its base64 text.
pub fn get_psk(base64_key: &Option<String>) -> (res: Result<PreSharedKey, PskError>)
    ensures
        psk_result(res) == psk_of(text_bytes(*base64_key)),
        // The key is the one whose base64 text was given.
        res matches Ok(psk) ==> base64_key matches Some(text) && vstd::utf8::encode_utf8(text@)
            == base64_encoded(psk.key@),
{
    proof {
        if let Some(text) = base64_key {
            let bytes = vstd::utf8::encode_utf8(text@);
            match psk_of(Some(bytes)) {
                Ok(key) => {
                    law_psk_is_what_was_encoded(bytes, key);
                },
                Err(_) => {},
            }
        }
    }
    match base64_key {
        None => Err(PskError::Missing),
        Some(text) => match base64_decode(text.as_str().as_bytes()) {
            Err(e) => Err(PskError::Base64(e)),
            Ok(bytes) => psk_from_bytes(&bytes),
        },
    }
}

/// The base64 text of 32 bytes is read as those bytes, and no other text is.
pub proof fn law_psk_is_what_was_encoded(text: Seq<u8>, key: Seq<u8>)
    requires
        key.len() == 32,
    ensures
        psk_of(Some(text)) == Ok::<Seq<u8>, PskError>(key) <==> text == base64_encoded(key),
{
    law_base64_decodes_what_it_encoded(key);
    if psk_of(Some(text)) == Ok::<Seq<u8>, PskError>(key) {
        assert(exists|bytes: Seq<u8>| base64_encoded(bytes) == text);
    }
}

/// A key that is not set is missing. Base64 of more or fewer than 32 bytes has the wrong length.
/// A text that is base64 of no bytes is refused for the reason that decoding gives.
pub proof fn law_what_is_no_psk_is_refused(text: Seq<u8>, bytes: Seq<u8>)
    ensures
        psk_of(None) == Err::<Seq<u8>, PskError>(PskError::Missing),
        bytes.len() != 32 ==> psk_of(Some(base64_encoded(bytes))) == Err::<Seq<u8>, PskError>(
            PskError::Length,
        ),
        (forall|b: Seq<u8>| #[trigger] base64_encoded(b) != text) ==> psk_of(Some(text)) == Err::<
            Seq<u8>,
            PskError,
        >(PskError::Base64(base64_failure(text))),
{
    law_base64_decodes_what_it_encoded(bytes);
}

/// Two texts that are read as the same key are the same text, and every key has 32 bytes.
pub proof fn law_a_key_has_one_text(left: Seq<u8>, right: Seq<u8>)
    ensures
        psk_of(Some(left)) matches Ok(key) ==> key.len() == 32 && base64_encoded(key) == left,
        psk_of(Some(left)) is Ok && psk_of(Some(left)) == psk_of(Some(right)) ==> left == right,
{
    match psk_of(Some(left)) {
        Ok(key) => {
            law_psk_is_what_was_encoded(left, key);
            law_psk_is_what_was_encoded(right, key);
        },
        Err(_) => {},
    }
}

/// The base64 symbols stand for the values from zero to 63 in the order of the standard alphabet.
pub proof fn law_base64_alphabet(value: int)
    requires
        0 <= value < 64,
    ensures
        base64_symbol(value) as char
            == "ABCDEFGHIJKLMNOPQRSTUVWXYZabcdefghijklmnopqrstuvwxyz0123456789+/"@[value],
        base64_pad() as char == '=',
{
    reveal_strlit("ABCDEFGHIJKLMNOPQRSTUVWXYZabcdefghijklmnopqrstuvwxyz0123456789+/");
}

proof fn lemma_last_digit(p: int, q: int, r: int, s: int)
    requires
        64 * p + q == 64 * r + s,
        0 <= q < 64,
        0 <= s < 64,
    ensures
        p == r,
        q == s,
{
}

/// Each three bytes become four symbols that spell the same number, the most significant first;
/// one or two bytes that are left over are filled up with zero bits, and their group with padding.
pub proof fn law_base64_spells_the_number_of_the_bytes(
    a: u8,
    b: u8,
    c: u8,
    rest: Seq<u8>,
    v: int,
    w: int,
    x: int,
    y: int,
)
    requires
        0 <= v < 64,
        0 <= w < 64,
        0 <= x < 64,
        0 <= y < 64,
    ensures
        65536 * a + 256 * b + c == 262144 * v + 4096 * w + 64 * x + y ==> base64_encoded(
            seq![a, b, c] + rest,
        ) == seq![base64_symbol(v), base64_symbol(w), base64_symbol(x), base64_symbol(y)]
            + base64_encoded(rest),
        4 * (256 * a + b) == 4096 * v + 64 * w + x ==> base64_encoded(seq![a, b]) == seq![
            base64_symbol(v),
            base64_symbol(w),
            base64_symbol(x),
            base64_pad(),
        ],
        16 * a == 64 * v + w ==> base64_encoded(seq![a]) == seq![
            base64_symbol(v),
            base64_symbol(w),
            base64_pad(),
            base64_pad(),
        ],
        base64_encoded(Seq::empty()) == Seq::<u8>::empty(),
{
    let (a1, a0) = (a as int / 4, a as int % 4);
    let (b1, b0) = (b as int / 16, b as int % 16);
    let (c1, c0) = (c as int / 64, c as int % 64);
    assert(a == 4 * a1 + a0 && b == 16 * b1 + b0 && c == 64 * c1 + c0);
    if 65536 * a + 256 * b + c == 262144 * v + 4096 * w + 64 * x + y {
        lemma_last_digit(
            4096 * a1 + 64 * (16 * a0 + b1) + 4 * b0 + c1,
            c0,
            4096 * v + 64 * w + x,
            y,
        );
        lemma_last_digit(64 * a1 + 16 * a0 + b1, 4 * b0 + c1, 64 * v + w, x);
        lemma_last_digit(a1, 16 * a0 + b1, v, w);
        let bytes = seq![a, b, c] + rest;
        assert(bytes.skip(3) =~= rest);
        assert(bytes[0] == a && bytes[1] == b && bytes[2] == c);
    }
    if 4 * (256 * a + b) == 4096 * v + 64 * w + x {
        lemma_last_digit(64 * a1 + 16 * a0 + b1, 4 * b0, 64 * v + w, x);
        lemma_last_digit(a1, 16 * a0 + b1, v, w);
    }
    if 16 * a == 64 * v + w {
        lemma_last_digit(a1, 16 * a0, v, w);
    }
}

/// A message says that the key is missing or has the wrong length, or why it is no base64.
pub proof fn law_psk_messages(error: Base64Error)
    ensures
        psk_message(PskError::Missing) == "PRIVITE_NET_KEY missing in .env"@,
        psk_message(PskError::Length) == "Decoded key must be 32 bytes long"@,
        psk_message(PskError::Base64(error)) == base64_message(error),
{
}

/// The view of a pre-shared key shows its bytes, and a text that is set has its bytes in UTF-8.
pub proof fn law_a_psk_shows_its_bytes(psk: PreSharedKey, error: PskError, text: String)
    ensures
        psk@ == psk.key@,
        psk@.len() == 32,
        psk_result(Ok(psk)) == Ok::<Seq<u8>, PskError>(psk.key@),
        psk_result(Err(error)) == Err::<Seq<u8>, PskError>(error),
        text_bytes(Some(text)) == Some(vstd::utf8::encode_utf8(text@)),
        text_bytes(None) is None,
{
}

}
