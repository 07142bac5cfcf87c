//! Image input conversion shared by the protocol adapters.

use base64::Engine;
use vstd::prelude::*;
use vstd::string::StringSliceAdditionalSpecFns;

use crate::image::utf8_len;
use crate::multimodal::{
    ImageDetail, ImageMediaType, ImageSource, ImageSourceView, MAX_IMAGE_URL_LEN, is_http_url, is_http_url_spec,
    media_type_of,
};
use crate::request::ConversionError;
use crate::text::{append_str, chars_of, concat, contains_seq, decimal, str_contains, string_of};
use crate::validation::{UNSUPPORTED_IMAGE_ERR, bad_request_with, concat3, decimal_string, fails_with};

verus! {

/// How `format!("{:?}")` writes the string `s`: quoted, with Rust's escapes.
pub uninterp spec fn debug_text(s: Seq<char>) -> Seq<char>;

/// Returns `format!("{s:?}")`, the string quoted with Rust's escapes; the
/// result is named by [`debug_text`].
#[verifier::external_body]
pub(crate) fn debug_string(s: &str) -> (r: String)
    ensures
        r@ == debug_text(s@),
{
    format!("{s:?}")
}

/// The detail level, the default where none is given.
pub open spec fn detail_or_default(detail: Option<ImageDetail>) -> ImageDetail {
    match detail {
        Some(d) => d,
        None => ImageDetail::High,
    }
}

/// The detail of the error for an external image URL above the length limit.
pub open spec fn url_too_long_detail(path: Seq<char>, len: nat) -> Seq<char> {
    path + ": external link length "@ + decimal(len)
        + " too long, max link length 8192. Consider passing file data directly with base64 data url instead."@
}

/// Convert an external image URL into an image source.
///
/// Checks the case-insensitive `http` prefix and a UTF-8 byte length no
/// greater than [`MAX_IMAGE_URL_LEN`]. Full URL validation belongs to the
/// fetcher.
pub fn external_image_source(url: String, detail: Option<ImageDetail>, path: &str) -> (r: Result<ImageSource, ConversionError>)
    ensures
        !is_http_url_spec(url@) ==> fails_with(r, path@ + ": invalid url: "@ + debug_text(url@)),
        is_http_url_spec(url@) && utf8_len(url@) > 8192 ==> fails_with(r, url_too_long_detail(path@, utf8_len(url@) as nat)),
        is_http_url_spec(url@) && utf8_len(url@) <= 8192 ==> (r matches Ok(s) && s@ == (ImageSourceView::Url {
            url: url@,
            detail: detail_or_default(detail),
        })),
{
    if !is_http_url(url.as_str()) {
        let quoted = debug_string(url.as_str());
        return Err(ConversionError::bad_request(concat3(path, ": invalid url: ", quoted.as_str())));
    }
    let len = url.as_str().len();
    if len > MAX_IMAGE_URL_LEN {
        let mut out: Vec<char> = Vec::new();
        append_str(&mut out, path);
        append_str(&mut out, ": external link length ");
        let digits = crate::text::decimal_chars(len);
        crate::text::append_chars(&mut out, digits.as_slice());
        append_str(
            &mut out,
            " too long, max link length 8192. Consider passing file data directly with base64 data url instead.",
        );
        assert(out@ =~= url_too_long_detail(path@, len as nat));
        return Err(ConversionError::bad_request(string_of(out.as_slice())));
    }
    let detail = match detail {
        Some(d) => d,
        None => ImageDetail::default_detail(),
    };
    Ok(ImageSource::Url { url, detail })
}

/// Convert a data URL into an image source. The body is not inspected.
pub fn data_url_image_source(data_url: String, detail: Option<ImageDetail>) -> (r: ImageSource)
    ensures
        r@ == (ImageSourceView::DataUrl { data_url: data_url@, detail: detail_or_default(detail) }),
{
    let detail = match detail {
        Some(d) => d,
        None => ImageDetail::default_detail(),
    };
    ImageSource::DataUrl { data_url, detail }
}

/// Convert an `image_url` value into an image source.
///
/// Values with a case-insensitive `http` prefix are external. Other values
/// must contain the literal `base64,` marker. Data URL syntax, media type,
/// and body decoding are checked later by the image resolver.
pub fn image_url_source(url: String, detail: Option<ImageDetail>, path: &str) -> (r: Result<ImageSource, ConversionError>)
    ensures
        is_http_url_spec(url@) && utf8_len(url@) <= 8192 ==> (r matches Ok(s) && s@ == (ImageSourceView::Url {
            url: url@,
            detail: detail_or_default(detail),
        })),
        is_http_url_spec(url@) && utf8_len(url@) > 8192 ==> fails_with(r, url_too_long_detail(path@, utf8_len(url@) as nat)),
        !is_http_url_spec(url@) && contains_seq(url@, "base64,"@) ==> (r matches Ok(s) && s@ == (ImageSourceView::DataUrl {
            data_url: url@,
            detail: detail_or_default(detail),
        })),
        !is_http_url_spec(url@) && !contains_seq(url@, "base64,"@) ==> fails_with(r, path@ + ": Unsupported image_url format"@),
{
    if is_http_url(url.as_str()) {
        external_image_source(url, detail, path)
    } else if str_contains(url.as_str(), "base64,") {
        Ok(data_url_image_source(url, detail))
    } else {
        Err(ConversionError::bad_request(concat(path, ": Unsupported image_url format")))
    }
}

/// Return the error for an unsupported image.
pub fn unsupported_image(path: &str) -> (r: ConversionError)
    ensures
        bad_request_with(r, path@ + ": "@ + UNSUPPORTED_IMAGE_ERR@),
{
    ConversionError::bad_request(concat3(path, ": ", UNSUPPORTED_IMAGE_ERR))
}

/// Return the error for an image in a message that does not accept images.
pub fn image_not_allowed(role: &str) -> (r: ConversionError)
    ensures
        bad_request_with(r, "Image in "@ + role@ + " message is unsupported"@),
{
    ConversionError::bad_request(concat3("Image in ", role, " message is unsupported"))
}

/// Return the error for a file identifier, which requires a file service
/// this library does not provide.
pub fn file_id_unsupported(path: &str) -> (r: ConversionError)
    ensures
        bad_request_with(r, path@ + ": file_id is not supported. Pass the image as a base64 data url instead."@),
{
    ConversionError::bad_request(concat(path, ": file_id is not supported. Pass the image as a base64 data url instead."))
}

/// `s` without its trailing `=` characters.
pub open spec fn trim_trailing_eq(s: Seq<char>) -> Seq<char>
    decreases s.len(),
{
    if s.len() > 0 && s.last() == '=' {
        trim_trailing_eq(s.drop_last())
    } else {
        s
    }
}

/// `n` characters `=`.
pub open spec fn equals_signs(n: nat) -> Seq<char> {
    Seq::new(n, |i: int| '=')
}

/// A base64 payload with its trailing padding replaced by the canonical
/// amount, when it carries at least one trailing `=` and its unpadded length
/// does not leave a single symbol.
pub open spec fn normalized_padding(s: Seq<char>) -> Seq<char> {
    if s.len() == 0 || s.last() != '=' {
        s
    } else {
        let u = trim_trailing_eq(s);
        let rem = utf8_len(u) % 4;
        if rem == 1 {
            s
        } else {
            u + equals_signs(((4 - rem) % 4) as nat)
        }
    }
}

/// Returns `s` without its trailing `=` characters.
fn trim_trailing_eq_exec(s: &Vec<char>) -> (r: Vec<char>)
    ensures
        r@ == trim_trailing_eq(s@),
{
    let mut n = s.len();
    assert(s@.take(n as int) =~= s@);
    while n > 0 && s[n - 1] == '='
        invariant
            n <= s@.len(),
            trim_trailing_eq(s@) == trim_trailing_eq(s@.take(n as int)),
        decreases n,
    {
        assert(s@.take(n as int).drop_last() =~= s@.take(n - 1));
        n -= 1;
    }
    let mut r: Vec<char> = Vec::new();
    let mut i: usize = 0;
    while i < n
        invariant
            i <= n <= s@.len(),
            r@ == s@.take(i as int),
        decreases n - i,
    {
        r.push(s[i]);
        assert(s@.take(i + 1) =~= s@.take(i as int).push(s@[i as int]));
        i += 1;
    }
    assert(r@ == s@.take(n as int));
    assert(trim_trailing_eq(s@.take(n as int)) == s@.take(n as int));
    r
}

/// Normalize the padding of a base64 payload.
///
/// A payload carrying at least one trailing `=` has its padding dropped and
/// replaced with the canonical amount. A payload with no trailing `=` is
/// returned unchanged, because a truncated payload and an unpadded payload
/// are indistinguishable. A payload whose unpadded length leaves a single
/// symbol is also returned unchanged, so the decoder reports it.
pub fn normalize_base64_padding(data: String) -> (r: String)
    ensures
        r@ == normalized_padding(data@),
{
    let chars = chars_of(data.as_str());
    if chars.len() == 0 || chars[chars.len() - 1] != '=' {
        return data;
    }
    let unpadded = trim_trailing_eq_exec(&chars);
    let unpadded_text = string_of(unpadded.as_slice());
    let rem = unpadded_text.as_str().len() % 4;
    if rem == 1 {
        return data;
    }
    let pad = (4 - rem) % 4;
    let mut out = unpadded;
    let mut k: usize = 0;
    while k < pad
        invariant
            k <= pad,
            out@ == trim_trailing_eq(data@) + equals_signs(k as nat),
        decreases pad - k,
    {
        out.push('=');
        assert(equals_signs((k + 1) as nat) =~= equals_signs(k as nat).push('='));
        k += 1;
    }
    string_of(out.as_slice())
}

/// Whether the standard base64 engine decodes `data`.
pub uninterp spec fn base64_decodes(data: Seq<char>) -> bool;

/// Calls `base64::engine::general_purpose::STANDARD.decode` and reports
/// whether it succeeds; whether it does is named by [`base64_decodes`].
#[verifier::external_body]
fn standard_base64_decodes(data: &str) -> (r: bool)
    ensures
        r == base64_decodes(data@),
{
    base64::engine::general_purpose::STANDARD.decode(data).is_ok()
}

/// The data URL of a base64 payload of the media type `t`.
pub open spec fn base64_data_url(t: ImageMediaType, data: Seq<char>) -> Seq<char> {
    "data:"@ + crate::multimodal::mime_of(t) + ";base64,"@ + data
}

/// What [`base64_image_source`] returns for the media type `media_type`,
/// the payload `data` and the path `path`.
pub open spec fn base64_source_result(r: Result<ImageSource, ConversionError>, media_type: Seq<char>, data: Seq<char>, path: Seq<char>) -> bool {
    match media_type_of(media_type) {
        None => fails_with(r, path + ": "@ + UNSUPPORTED_IMAGE_ERR@),
        Some(t) => if base64_decodes(normalized_padding(data)) {
            r matches Ok(s) && s@ == ImageSourceView::DataUrl {
                data_url: base64_data_url(t, normalized_padding(data)),
                detail: ImageDetail::High,
            }
        } else {
            fails_with(r, path + ": base64 decode error"@)
        },
    }
}

/// Build a base64 data URL from a declared media type and base64 payload.
///
/// Normalizes trailing padding and validates the standard base64 encoding.
pub fn base64_image_source(media_type: &str, data: String, path: &str) -> (r: Result<ImageSource, ConversionError>)
    ensures
        base64_source_result(r, media_type@, data@, path@),
{
    let media = match ImageMediaType::from_mime(media_type) {
        Some(m) => m,
        None => {
            return Err(unsupported_image(path));
        },
    };
    let data = normalize_base64_padding(data);
    if !standard_base64_decodes(data.as_str()) {
        return Err(ConversionError::bad_request(concat(path, ": base64 decode error")));
    }
    let mut out: Vec<char> = Vec::new();
    append_str(&mut out, "data:");
    append_str(&mut out, media.mime());
    append_str(&mut out, ";base64,");
    append_str(&mut out, data.as_str());
    assert(out@ =~= base64_data_url(media, data@));
    Ok(ImageSource::DataUrl { data_url: string_of(out.as_slice()), detail: ImageDetail::default_detail() })
}

} // verus!
