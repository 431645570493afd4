use vstd::prelude::*;
use base64::Engine;

verus! {

/// The text that the standard padded base64 alphabet gives for `data`.
pub uninterp spec fn base64_text(data: Seq<u8>) -> Seq<char>;

/// The bytes that `text` stands for in standard padded base64, or `None`
/// where `text` is not a canonical encoding.
pub uninterp spec fn base64_bytes(text: Seq<char>) -> Option<Seq<u8>>;

/// `base64::DecodeError`: why a text is not valid base64. Carried through
/// unread.
#[verifier::external_type_specification]
#[verifier::external_body]
pub struct ExDecodeError(base64::DecodeError);

/// Whether the encoded length of `len` bytes still fits in a `usize`.
pub open spec fn encodable_len(len: nat) -> bool {
    (len / 3) * 4 + 4 <= usize::MAX
}

/// `base64::engine::general_purpose::STANDARD.encode`: believed to return the
/// base64 text of `data`, which decodes back to `data`. The outside function
/// panics where the encoded length overflows; `requires` leaves that out.
#[verifier::external_body]
fn standard_encode(data: &[u8]) -> (text: String)
    requires
        encodable_len(data@.len()),
    ensures
        text@ == base64_text(data@),
        base64_bytes(text@) == Some(data@),
{
    base64::engine::general_purpose::STANDARD.encode(data)
}

/// `base64::engine::general_purpose::STANDARD.decode`: believed to return the
/// bytes that `text` stands for, or an error where it stands for none.
#[verifier::external_body]
fn standard_decode(text: &str) -> (decoded: Result<Vec<u8>, base64::DecodeError>)
    ensures
        match decoded {
            Ok(bytes) => base64_bytes(text@) == Some(bytes@),
            Err(_) => base64_bytes(text@).is_none(),
        },
{
    base64::engine::general_purpose::STANDARD.decode(text)
}

/// Text-safe form of `data` for a text frame; `None` where `data` is too
/// long for its encoding to be addressed.
pub fn to_text(data: &[u8]) -> (text: Option<String>)
    ensures
        match text {
            Some(t) => encodable_len(data@.len()) && t@ == base64_text(data@) && base64_bytes(t@)
                == Some(data@),
            None => !encodable_len(data@.len()),
        },
{
    if data.len() / 3 > (usize::MAX - 4) / 4 {
        None
    } else {
        Some(standard_encode(data))
    }
}

/// The bytes carried by the text of a text frame; `None` where the text is
/// not valid base64.
pub fn from_text(text: &str) -> (data: Option<Vec<u8>>)
    ensures
        match data {
            Some(bytes) => base64_bytes(text@) == Some(bytes@),
            None => base64_bytes(text@).is_none(),
        },
{
    match standard_decode(text) {
        Ok(bytes) => Some(bytes),
        Err(_) => None,
    }
}

} // verus!
