use vstd::prelude::*;
use crate::error::CoreError;

verus! {

/// A base that multibase text can be written in.
///
/// The identity base is left out: bytes at large are no text.
#[derive(Clone, Copy, Debug, PartialEq, Eq, Structural)]
pub enum Base {
    Base2,
    Base8,
    Base10,
    Base16Lower,
    Base16Upper,
    Base32Lower,
    Base32Upper,
    Base32PadLower,
    Base32PadUpper,
    Base32HexLower,
    Base32HexUpper,
    Base32HexPadLower,
    Base32HexPadUpper,
    Base32Z,
    Base36Lower,
    Base36Upper,
    Base58Flickr,
    Base58Btc,
    Base64,
    Base64Pad,
    Base64Url,
    Base64UrlPad,
}

impl Base {
    /// The character that multibase text in this base begins with.
    pub open spec fn spec_code(self) -> char {
        match self {
            Base::Base2 => '0',
            Base::Base8 => '7',
            Base::Base10 => '9',
            Base::Base16Lower => 'f',
            Base::Base16Upper => 'F',
            Base::Base32Lower => 'b',
            Base::Base32Upper => 'B',
            Base::Base32PadLower => 'c',
            Base::Base32PadUpper => 'C',
            Base::Base32HexLower => 'v',
            Base::Base32HexUpper => 'V',
            Base::Base32HexPadLower => 't',
            Base::Base32HexPadUpper => 'T',
            Base::Base32Z => 'h',
            Base::Base36Lower => 'k',
            Base::Base36Upper => 'K',
            Base::Base58Flickr => 'Z',
            Base::Base58Btc => 'z',
            Base::Base64 => 'm',
            Base::Base64Pad => 'M',
            Base::Base64Url => 'u',
            Base::Base64UrlPad => 'U',
        }
    }

    /// The character that multibase text in this base begins with.
    pub fn code(&self) -> (code: char)
        ensures
            code == self.spec_code(),
            spec_is_base_code(code),
    {
        let code = match self {
            Base::Base2 => '0',
            Base::Base8 => '7',
            Base::Base10 => '9',
            Base::Base16Lower => 'f',
            Base::Base16Upper => 'F',
            Base::Base32Lower => 'b',
            Base::Base32Upper => 'B',
            Base::Base32PadLower => 'c',
            Base::Base32PadUpper => 'C',
            Base::Base32HexLower => 'v',
            Base::Base32HexUpper => 'V',
            Base::Base32HexPadLower => 't',
            Base::Base32HexPadUpper => 'T',
            Base::Base32Z => 'h',
            Base::Base36Lower => 'k',
            Base::Base36Upper => 'K',
            Base::Base58Flickr => 'Z',
            Base::Base58Btc => 'z',
            Base::Base64 => 'm',
            Base::Base64Pad => 'M',
            Base::Base64Url => 'u',
            Base::Base64UrlPad => 'U',
        };
        assert(self.spec_code() == code);
        code
    }
}

/// Whether `code` is the first character of one of the bases of `Base`.
pub open spec fn spec_is_base_code(code: char) -> bool {
    exists|base: Base| base.spec_code() == code
}

/// The longest input that the encoders take: sixteen times its length
/// still fits into a `usize`.
pub open spec fn spec_max_input() -> nat {
    (usize::MAX / 16) as nat
}

/// The base58 text, in the Bitcoin alphabet, that `bs58` writes for bytes.
pub uninterp spec fn base58_text(data: Seq<u8>) -> Seq<char>;

/// The bytes that `bs58` reads from text in the Bitcoin alphabet, if it
/// reads any.
pub uninterp spec fn base58_bytes(text: Seq<char>) -> Option<Seq<u8>>;

/// The multibase text that `multibase` writes for bytes in the base with
/// the given first character.
pub uninterp spec fn multibase_text(code: char, data: Seq<u8>) -> Seq<char>;

/// The bytes that `multibase` reads from text, in the base that the first
/// character names, if it reads any.
pub uninterp spec fn multibase_bytes(text: Seq<char>) -> Option<Seq<u8>>;

/// `bs58::decode::Error`, the reason why a text is not base58. Nothing is
/// known of what is inside it.
#[verifier::external_type_specification]
#[verifier::external_body]
pub struct ExBase58DecodeError(bs58::decode::Error);

/// `multibase::Error`, the reason why a text is not multibase. Nothing is
/// known of what is inside it.
#[verifier::external_type_specification]
#[verifier::external_body]
pub struct ExMultibaseError(multibase::Error);

/// `bs58::encode(..).with_alphabet(BITCOIN).into_string()`: the text is a
/// function of the bytes. The input is kept short enough for the size of
/// the buffer that `bs58` works in to be computed.
#[verifier::external_body]
fn bs58_encode(data: &[u8]) -> (text: String)
    requires
        data@.len() <= spec_max_input(),
    ensures
        text@ == base58_text(data@),
{
    bs58::encode(data).with_alphabet(bs58::Alphabet::BITCOIN).into_string()
}

/// `bs58::decode(..).with_alphabet(BITCOIN).into_vec()`: what comes back
/// is a function of the text: bytes, or an error for a character outside
/// the alphabet. The empty text gives no bytes and no error.
#[verifier::external_body]
fn bs58_decode(text: &str) -> (out: Result<Vec<u8>, bs58::decode::Error>)
    ensures
        out matches Ok(bytes) ==> base58_bytes(text@) == Some(bytes@),
        out is Err ==> base58_bytes(text@) is None,
        text@.len() == 0 ==> out is Ok && out->Ok_0@.len() == 0,
{
    bs58::decode(text).with_alphabet(bs58::Alphabet::BITCOIN).into_vec()
}

/// `multibase::encode` with the base that `multibase::Base::from_code`
/// gives for `code`: the text is a function of the base and the bytes, and
/// begins with `code`.
#[verifier::external_body]
fn multibase_encode(code: char, data: &[u8]) -> (text: String)
    requires
        spec_is_base_code(code),
        data@.len() <= spec_max_input(),
    ensures
        text@ == multibase_text(code, data@),
        text@.len() >= 1,
        text@[0] == code,
{
    multibase::encode(multibase::Base::from_code(code).unwrap(), data)
}

/// `multibase::decode`, without the base that it also returns: what comes
/// back is a function of the text: bytes, or an error. The empty text,
/// which names no base, is an error.
#[verifier::external_body]
fn multibase_decode(text: &str) -> (out: Result<Vec<u8>, multibase::Error>)
    ensures
        out matches Ok(bytes) ==> multibase_bytes(text@) == Some(bytes@),
        out is Err ==> multibase_bytes(text@) is None,
        text@.len() == 0 ==> out is Err,
{
    multibase::decode(text).map(|pair| pair.1)
}

/// What `decode_multibase` reads from text: nothing from the empty text,
/// else what `multibase` reads.
pub open spec fn spec_decode_multibase(text: Seq<char>) -> Option<Seq<u8>> {
    if text.len() == 0 {
        Some(Seq::<u8>::empty())
    } else {
        multibase_bytes(text)
    }
}

/// The base that is used where none is given.
pub open spec fn spec_base_or_default(base: Option<Base>) -> Base {
    match base {
        Some(base) => base,
        None => Base::Base58Btc,
    }
}

/// Reads multibase text in the base that its first character names. The
/// empty text stands for no bytes.
pub fn decode_multibase(data: &str) -> (out: Result<Vec<u8>, CoreError>)
    ensures
        out matches Ok(bytes) ==> spec_decode_multibase(data@) == Some(bytes@),
        out matches Err(e) ==> spec_decode_multibase(data@) is None && e == CoreError::DecodeMultibase,
        data@.len() == 0 ==> out is Ok,
{
    if data.is_empty() {
        return Ok(Vec::new());
    }
    match multibase_decode(data) {
        Ok(bytes) => Ok(bytes),
        Err(_) => Err(CoreError::DecodeMultibase),
    }
}

/// Writes `data` as multibase text in `base`, or in base58 with the Bitcoin
/// alphabet where no base is given. The text begins with the character of
/// the base, which `encode_b58` does not write.
pub fn encode_multibase(data: &[u8], base: Option<Base>) -> (text: String)
    requires
        data@.len() <= spec_max_input(),
    ensures
        text@ == multibase_text(spec_base_or_default(base).spec_code(), data@),
        text@.len() >= 1,
        text@[0] == spec_base_or_default(base).spec_code(),
{
    let base = match base {
        Some(base) => base,
        None => Base::Base58Btc,
    };
    multibase_encode(base.code(), data)
}

/// Reads base58 text in the Bitcoin alphabet. The empty text stands for no
/// bytes.
pub fn decode_b58(data: &str) -> (out: Result<Vec<u8>, CoreError>)
    ensures
        out matches Ok(bytes) ==> base58_bytes(data@) == Some(bytes@),
        out matches Err(e) ==> base58_bytes(data@) is None && e == CoreError::DecodeBase58,
        data@.len() == 0 ==> out is Ok && out->Ok_0@.len() == 0,
{
    match bs58_decode(data) {
        Ok(bytes) => Ok(bytes),
        Err(_) => Err(CoreError::DecodeBase58),
    }
}

/// Writes `data` as base58 text in the Bitcoin alphabet.
pub fn encode_b58(data: &[u8]) -> (text: String)
    requires
        data@.len() <= spec_max_input(),
    ensures
        text@ == base58_text(data@),
{
    bs58_encode(data)
}

} // verus!
