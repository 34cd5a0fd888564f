//! Calls into the image decoder and the text encodings that the challenge
//! payloads use.

use vstd::prelude::*;

verus! {

/// The standard, padded base64 text of a byte string, as `base64::encode`
/// writes it.
pub uninterp spec fn base64_of(bytes: Seq<u8>) -> Seq<char>;

/// A hexadecimal digit in lower case.
pub open spec fn hex_digit(v: u8) -> char {
    if v < 10 {
        (('0' as u8) + v) as char
    } else {
        (('a' as u8) + (v - 10)) as char
    }
}

/// Two lower-case hexadecimal digits for each byte, high half first.
pub open spec fn hex_lower(bytes: Seq<u8>) -> Seq<char>
    decreases bytes.len(),
{
    if bytes.len() == 0 {
        Seq::empty()
    } else {
        hex_lower(bytes.drop_last()) + seq![
            hex_digit(bytes.last() / 16),
            hex_digit(bytes.last() % 16),
        ]
    }
}

/// Relies on `image::load_from_memory` to detect the format and decode the
/// bytes, and on `DynamicImage::to_rgba8`, which builds a fresh buffer of
/// four bytes for each pixel. The JPEG decoder may pick a CPU-specific path
/// whose pixels differ slightly from the portable one, so nothing is claimed
/// of the pixel values themselves.
#[verifier::external_body]
pub(crate) fn decode_rgba(bytes: &[u8]) -> (r: Option<(u32, u32, Vec<u8>)>)
    ensures
        r matches Some((w, h, px)) ==> px@.len() == 4 * (w as int * h as int),
{
    match image::load_from_memory(bytes) {
        Ok(img) => {
            let rgba = img.to_rgba8();
            Some((rgba.width(), rgba.height(), rgba.into_raw()))
        },
        Err(_) => None,
    }
}

/// Relies on `base64::encode`, with its standard alphabet and padding.
#[verifier::external_body]
pub(crate) fn encode_base64(bytes: &[u8]) -> (r: String)
    ensures
        r@ == base64_of(bytes@),
{
    base64::encode(bytes)
}

/// Relies on `ObjectId::to_hex` of the `bson` crate that `mongodb` carries,
/// which writes the twelve bytes of an identifier as lower-case hex.
#[verifier::external_body]
pub(crate) fn object_id_hex(bytes: [u8; 12]) -> (r: String)
    ensures
        r@ == hex_lower(bytes@),
{
    mongodb::bson::oid::ObjectId::from_bytes(bytes).to_hex()
}

} // verus!
