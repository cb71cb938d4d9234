//! The computing step of a download: decoding the received bytes and
//! rewriting them into the Kotlin file to write.
use vstd::prelude::*;
use vstd::utf8::{decode_utf8, valid_utf8};

use crate::kotlin::{class_view, transform, transform_spec, TransformConfig};

verus! {

/// What `String::from_utf8_lossy` returns for a byte sequence (invalid
/// sequences replaced by U+FFFD).
pub uninterp spec fn utf8_lossy_of(b: Seq<u8>) -> Seq<char>;

/// Calls `String::from_utf8_lossy`. Its result is the named value
/// `utf8_lossy_of(b@)`, and for valid UTF-8 it is the decoded text, as the
/// documentation states; how invalid input is replaced is left unsaid.
#[verifier::external_body]
fn decode_utf8_lossy(b: &[u8]) -> (r: String)
    ensures
        r@ == utf8_lossy_of(b@),
        valid_utf8(b@) ==> r@ == decode_utf8(b@),
{
    String::from_utf8_lossy(b).into_owned()
}

/// The file contents written for a downloaded body: the body decoded as UTF-8
/// (invalid sequences replaced) and rewritten by `transform`.
pub fn render_download(body: &[u8], cfg: &TransformConfig) -> (r: String)
    ensures
        r@ == transform_spec(
            utf8_lossy_of(body@),
            cfg.package@,
            cfg.field_name@,
            cfg.upper_camel_fields,
            class_view(cfg.extension_class),
        ),
        valid_utf8(body@) ==> r@ == transform_spec(
            decode_utf8(body@),
            cfg.package@,
            cfg.field_name@,
            cfg.upper_camel_fields,
            class_view(cfg.extension_class),
        ),
{
    let text = decode_utf8_lossy(body);
    transform(text.as_str(), cfg)
}

} // verus!
