//! Byte-level decoding the token logic needs: base64url without padding,
//! UTF-8, and the ASCII case of UTF-8.

use vstd::prelude::*;
use vstd::utf8::*;
use base64::Engine;

verus! {

#[verifier::external_type_specification]
#[verifier::external_body]
pub struct ExDecodeError(base64::DecodeError);

#[verifier::external_type_specification]
#[verifier::external_body]
pub struct ExFromUtf8Error(std::string::FromUtf8Error);

/// The bytes that the URL-safe base64 alphabet without padding decodes
/// `text` to, or `None` when `text` is not such an encoding.
pub uninterp spec fn base64_url_decoded(text: Seq<char>) -> Option<Seq<u8>>;

/// Decodes `text` with `base64::engine::general_purpose::URL_SAFE_NO_PAD`.
/// The contract claims that the outcome is a function of `text` alone,
/// named `base64_url_decoded`.
#[verifier::external_body]
pub(crate) fn base64_url_decode(text: &str) -> (r: Result<Vec<u8>, base64::DecodeError>)
    ensures
        r is Ok <==> base64_url_decoded(text@) is Some,
        r matches Ok(v) ==> v@ == base64_url_decoded(text@).unwrap(),
{
    base64::engine::general_purpose::URL_SAFE_NO_PAD.decode(text)
}

/// `String::from_utf8`: succeeds exactly on valid UTF-8 and then holds the
/// characters that the bytes encode.
#[verifier::external_body]
pub(crate) fn string_from_utf8(bytes: Vec<u8>) -> (r: Result<String, std::string::FromUtf8Error>)
    ensures
        r is Ok <==> valid_utf8(bytes@),
        r matches Ok(s) ==> s@ == decode_utf8(bytes@),
{
    String::from_utf8(bytes)
}

/// Every byte is below 128.
pub open spec fn all_ascii(bytes: Seq<u8>) -> bool {
    forall|i: int| 0 <= i < bytes.len() ==> bytes[i] < 128
}

/// The characters with the same codes as `bytes`.
pub open spec fn ascii_chars(bytes: Seq<u8>) -> Seq<char> {
    bytes.map_values(|b: u8| b as char)
}

/// ASCII bytes are valid UTF-8 and encode the characters of the same codes.
pub proof fn lemma_ascii_utf8(bytes: Seq<u8>)
    requires
        all_ascii(bytes),
    ensures
        valid_utf8(bytes),
        decode_utf8(bytes) == ascii_chars(bytes),
    decreases bytes.len(),
{
    if bytes.len() > 0 {
        let b = bytes[0];
        assert(b & 0x7f == b) by (bit_vector)
            requires
                b < 128,
        ;
        let rest = bytes.subrange(1, bytes.len() as int);
        assert(pop_first_scalar(bytes) == rest);
        lemma_ascii_utf8(rest);
        assert(ascii_chars(bytes) =~= seq![b as char] + ascii_chars(rest));
    } else {
        assert(ascii_chars(bytes) =~= Seq::<char>::empty());
    }
}

} // verus!
