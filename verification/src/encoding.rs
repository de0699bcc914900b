//! Text encodings: UTF-8 and Shift-JIS (CP932) through `encoding_rs`.

use vstd::prelude::*;
use vstd::utf8::{decode_utf8, valid_utf8};
use encoding_rs::SHIFT_JIS;
use crate::model::{FileFormat, ParseError, ParseWarning};
use crate::text::string_from_str;

verus! {

pub open spec fn all_ascii(s: Seq<char>) -> bool {
    forall|i: int| 0 <= i < s.len() ==> (#[trigger] s[i] as u32) < 128
}

pub open spec fn all_ascii_bytes(b: Seq<u8>) -> bool {
    forall|i: int| 0 <= i < b.len() ==> #[trigger] b[i] < 128
}

/// The Shift-JIS encoding `encoding_rs` produces for `s`, and whether some
/// character had no Shift-JIS representation.
pub uninterp spec fn shift_jis_encoding(s: Seq<char>) -> (Seq<u8>, bool);

/// The text `encoding_rs` decodes from Shift-JIS bytes without BOM handling,
/// and whether some byte sequence was malformed.
pub uninterp spec fn shift_jis_decoding(b: Seq<u8>) -> (Seq<char>, bool);

/// Calls `SHIFT_JIS.encode(s)` and keeps the byte length and the error flag.
/// Claimed: the result is the named encoding of `s`; an all-ASCII string
/// encodes to itself without errors (the ASCII prefix is copied unchanged).
#[verifier::external_body]
pub(crate) fn shift_jis_encode(s: &str) -> (r: (usize, bool))
    ensures
        r.0 == shift_jis_encoding(s@).0.len(),
        r.1 == shift_jis_encoding(s@).1,
        all_ascii(s@) ==> r.0 == s@.len() && !r.1,
{
    let (bytes, _, had_errors) = SHIFT_JIS.encode(s);
    (bytes.len(), had_errors)
}

/// Calls `SHIFT_JIS.decode_without_bom_handling(bytes)`.
/// Claimed: the result is the named decoding of `bytes`; all-ASCII bytes
/// decode to the same characters without errors.
#[verifier::external_body]
pub(crate) fn shift_jis_decode(bytes: &[u8]) -> (r: (String, bool))
    ensures
        r.0@ == shift_jis_decoding(bytes@).0,
        r.1 == shift_jis_decoding(bytes@).1,
        all_ascii_bytes(bytes@) ==> r.0@ == bytes@.map_values(|b: u8| b as char) && !r.1,
{
    let (text, had_errors) = SHIFT_JIS.decode_without_bom_handling(bytes);
    (text.into_owned(), had_errors)
}

/// Calls `String::from_utf8` on a copy of `bytes`.
/// Claimed (std documentation): `Some` exactly for valid UTF-8, holding the
/// characters the bytes encode.
#[verifier::external_body]
pub(crate) fn utf8_decode(bytes: &[u8]) -> (r: Option<String>)
    ensures
        r is Some <==> valid_utf8(bytes@),
        r matches Some(s) ==> s@ == decode_utf8(bytes@),
{
    String::from_utf8(bytes.to_vec()).ok()
}

/// Text decoded from input bytes, and the warning that decoding produced.
pub open spec fn decode_bytes_result(
    format: FileFormat,
    bytes: Seq<u8>,
    strict: bool,
    r: Result<(String, Option<ParseWarning>), ParseError>,
) -> bool {
    if valid_utf8(bytes) {
        r matches Ok((text, None)) && text@ == decode_utf8(bytes)
    } else if format == FileFormat::Sfc {
        let (decoded, had_errors) = shift_jis_decoding(bytes);
        if !had_errors {
            r matches Ok((text, None)) && text@ == decoded
        } else if strict {
            r matches Err(e) && e.message@
                == "Input is neither valid UTF-8 nor valid Shift-JIS/CP932"@ && e.line == 1
                && e.column == 1 && e.snippet@ == Seq::<char>::empty()
        } else {
            r matches Ok((text, Some(w))) && text@ == decoded && w.code@ == "encoding"@
                && w.message@
                == "Input contained invalid Shift-JIS/CP932 byte sequences and was decoded with replacement characters."@
        }
    } else {
        r matches Err(e) && e.message@ == "Input is not valid UTF-8"@ && e.line == 1 && e.column
            == 1 && e.snippet@ == Seq::<char>::empty()
    }
}

/// Decodes input bytes: UTF-8 first, then (for SFC) Shift-JIS/CP932.
pub fn decode_bytes(format: FileFormat, bytes: &[u8], strict: bool) -> (r: Result<
    (String, Option<ParseWarning>),
    ParseError,
>)
    ensures
        decode_bytes_result(format, bytes@, strict, r),
{
    match utf8_decode(bytes) {
        Some(text) => Ok((text, None)),
        None => {
            if format == FileFormat::Sfc {
                let (decoded, had_errors) = shift_jis_decode(bytes);
                if !had_errors {
                    return Ok((decoded, None));
                }
                if strict {
                    return Err(
                        ParseError::new(
                            string_from_str(
                                "Input is neither valid UTF-8 nor valid Shift-JIS/CP932",
                            ),
                            1,
                            1,
                            String::new(),
                        ),
                    );
                }
                Ok(
                    (
                        decoded,
                        Some(
                            ParseWarning {
                                code: string_from_str("encoding"),
                                message: string_from_str(
                                    "Input contained invalid Shift-JIS/CP932 byte sequences and was decoded with replacement characters.",
                                ),
                            },
                        ),
                    ),
                )
            } else {
                Err(ParseError::new(string_from_str("Input is not valid UTF-8"), 1, 1, String::new()))
            }
        },
    }
}

} // verus!
