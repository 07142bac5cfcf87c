//! Image input types and DeepSeek V4.1 image token accounting.
//!
//! A caller supplies images as [`ImageSource`] values. Resolving an image
//! source produces an [`ImageInfo`] carrying the bytes sent to the inference
//! backend. Every image contributes one [`IMAGE_SPECIAL_TOKEN`] placeholder to
//! the prompt text, in the order the images appear in the conversation.

use vstd::prelude::*;

use crate::token_spec::{calc_resize_spec, CalcResizeError, ImageTokenSpec, size_in_range};
use crate::text::{chars_eq_ignore_ascii_case, chars_of, eq_ignore_ascii_case, is_unicode_whitespace, is_whitespace};

verus! {

/// Placeholder written into the prompt for every image.
pub const IMAGE_SPECIAL_TOKEN: &'static str = "<｜image｜>";

/// Token ID that the V4.1 tokenizer assigns to [`IMAGE_SPECIAL_TOKEN`].
pub const IMAGE_SPECIAL_TOKEN_ID: u32 = 129264;

/// Maximum UTF-8 byte length of an external image URL during conversion.
pub const MAX_IMAGE_URL_LEN: usize = 8192;

/// Media type accepted for image input.
#[derive(Debug, Clone, Copy, PartialEq, Eq, Structural)]
pub enum ImageMediaType {
    Jpeg,
    Png,
    Gif,
    Webp,
}

/// The characters of `s`, for spelling literals in specifications.
pub open spec fn lit(s: &str) -> Seq<char> {
    s@
}

/// The part of `m` before its first `;`, or all of `m` when it has none.
pub open spec fn before_first_semicolon(m: Seq<char>) -> Seq<char>
    decreases m.len(),
{
    if m.len() == 0 {
        m
    } else if m[0] == ';' {
        Seq::empty()
    } else {
        seq![m[0]] + before_first_semicolon(m.drop_first())
    }
}

/// `s` without leading whitespace.
pub open spec fn trim_start(s: Seq<char>) -> Seq<char>
    decreases s.len(),
{
    if s.len() > 0 && is_unicode_whitespace(s[0]) {
        trim_start(s.drop_first())
    } else {
        s
    }
}

/// `s` without trailing whitespace.
pub open spec fn trim_end(s: Seq<char>) -> Seq<char>
    decreases s.len(),
{
    if s.len() > 0 && is_unicode_whitespace(s.last()) {
        trim_end(s.drop_last())
    } else {
        s
    }
}

/// `s` without leading and trailing whitespace, as `str::trim` returns it.
pub open spec fn trim(s: Seq<char>) -> Seq<char> {
    trim_end(trim_start(s))
}

/// The position of the first `/` in `s`, if any.
pub open spec fn first_slash(s: Seq<char>) -> Option<int> {
    if exists|i: int| 0 <= i < s.len() && s[i] == '/' {
        Some(choose|i: int| 0 <= i < s.len() && s[i] == '/' && forall|j: int| 0 <= j < i ==> s[j] != '/')
    } else {
        None
    }
}

pub open spec fn seq_image() -> Seq<char> { seq!['i', 'm', 'a', 'g', 'e'] }
pub open spec fn seq_jpeg() -> Seq<char> { seq!['j', 'p', 'e', 'g'] }
pub open spec fn seq_jpg() -> Seq<char> { seq!['j', 'p', 'g'] }
pub open spec fn seq_png() -> Seq<char> { seq!['p', 'n', 'g'] }
pub open spec fn seq_gif() -> Seq<char> { seq!['g', 'i', 'f'] }
pub open spec fn seq_webp() -> Seq<char> { seq!['w', 'e', 'b', 'p'] }
pub open spec fn seq_http() -> Seq<char> { seq!['h', 't', 't', 'p'] }

/// The media type named by a subtype, compared without regard to ASCII case.
pub open spec fn media_type_of_subtype(sub: Seq<char>) -> Option<ImageMediaType> {
    if eq_ignore_ascii_case(sub, seq_jpeg()) || eq_ignore_ascii_case(sub, seq_jpg()) {
        Some(ImageMediaType::Jpeg)
    } else if eq_ignore_ascii_case(sub, seq_png()) {
        Some(ImageMediaType::Png)
    } else if eq_ignore_ascii_case(sub, seq_gif()) {
        Some(ImageMediaType::Gif)
    } else if eq_ignore_ascii_case(sub, seq_webp()) {
        Some(ImageMediaType::Webp)
    } else {
        None
    }
}

/// The media type that a media type string names: the part before `;`,
/// trimmed, split at its first `/` into `image` and a supported subtype.
pub open spec fn media_type_of(mime: Seq<char>) -> Option<ImageMediaType> {
    let head = trim(before_first_semicolon(mime));
    match first_slash(head) {
        None => None,
        Some(i) => if eq_ignore_ascii_case(head.subrange(0, i), seq_image()) {
            media_type_of_subtype(head.subrange(i + 1, head.len() as int))
        } else {
            None
        },
    }
}

/// Returns the characters `lit` spells, with their content known.
fn literal_chars(s: &str) -> (v: Vec<char>)
    ensures
        v@ == s@,
{
    chars_of(s)
}

fn seq_lit(which: u8) -> (v: Vec<char>)
    ensures
        which == 0 ==> v@ == seq_image(),
        which == 1 ==> v@ == seq_jpeg(),
        which == 2 ==> v@ == seq_jpg(),
        which == 3 ==> v@ == seq_png(),
        which == 4 ==> v@ == seq_gif(),
        which == 5 ==> v@ == seq_webp(),
        which == 6 ==> v@ == seq_http(),
{
    let mut v: Vec<char> = Vec::new();
    if which == 0 {
        v.push('i'); v.push('m'); v.push('a'); v.push('g'); v.push('e');
    } else if which == 1 {
        v.push('j'); v.push('p'); v.push('e'); v.push('g');
    } else if which == 2 {
        v.push('j'); v.push('p'); v.push('g');
    } else if which == 3 {
        v.push('p'); v.push('n'); v.push('g');
    } else if which == 4 {
        v.push('g'); v.push('i'); v.push('f');
    } else if which == 5 {
        v.push('w'); v.push('e'); v.push('b'); v.push('p');
    } else if which == 6 {
        v.push('h'); v.push('t'); v.push('t'); v.push('p');
    }
    proof {
        assert(which == 0 ==> v@ =~= seq_image());
        assert(which == 1 ==> v@ =~= seq_jpeg());
        assert(which == 2 ==> v@ =~= seq_jpg());
        assert(which == 3 ==> v@ =~= seq_png());
        assert(which == 4 ==> v@ =~= seq_gif());
        assert(which == 5 ==> v@ =~= seq_webp());
        assert(which == 6 ==> v@ =~= seq_http());
    }
    v
}

proof fn lemma_before_first_semicolon(m: Seq<char>, i: int)
    requires
        0 <= i <= m.len(),
        forall|j: int| 0 <= j < i ==> m[j] != ';',
        i == m.len() || m[i] == ';',
    ensures
        before_first_semicolon(m) == m.subrange(0, i),
    decreases m.len(),
{
    if m.len() == 0 {
        assert(m.subrange(0, i) =~= m);
    } else if m[0] == ';' {
        assert(m.subrange(0, i) =~= Seq::<char>::empty());
    } else {
        lemma_before_first_semicolon(m.drop_first(), i - 1);
        assert(m.subrange(0, i) =~= seq![m[0]] + m.drop_first().subrange(0, i - 1));
    }
}

proof fn lemma_trim_start(s: Seq<char>, i: int)
    requires
        0 <= i <= s.len(),
        forall|j: int| 0 <= j < i ==> is_unicode_whitespace(s[j]),
        i == s.len() || !is_unicode_whitespace(s[i]),
    ensures
        trim_start(s) == s.subrange(i, s.len() as int),
    decreases i,
{
    if i == 0 {
        assert(s.subrange(0, s.len() as int) =~= s);
    } else {
        lemma_trim_start(s.drop_first(), i - 1);
        assert(s.drop_first().subrange(i - 1, s.len() - 1) =~= s.subrange(i, s.len() as int));
    }
}

proof fn lemma_trim_end(s: Seq<char>, k: int)
    requires
        0 <= k <= s.len(),
        forall|j: int| k <= j < s.len() ==> is_unicode_whitespace(s[j]),
        k == 0 || !is_unicode_whitespace(s[k - 1]),
    ensures
        trim_end(s) == s.subrange(0, k),
    decreases s.len() - k,
{
    if k == s.len() {
        assert(s.subrange(0, k) =~= s);
    } else {
        lemma_trim_end(s.drop_last(), k);
        assert(s.drop_last().subrange(0, k) =~= s.subrange(0, k));
    }
}

/// Returns the trimmed part of `m` before its first `;`.
fn mime_head(m: &[char]) -> (r: Vec<char>)
    ensures
        r@ == trim(before_first_semicolon(m@)),
{
    let mut end: usize = 0;
    while end < m.len() && m[end] != ';'
        invariant
            end <= m@.len(),
            forall|j: int| 0 <= j < end ==> m@[j] != ';',
        decreases m.len() - end,
    {
        end += 1;
    }
    proof {
        lemma_before_first_semicolon(m@, end as int);
    }
    let ghost head = m@.subrange(0, end as int);
    let mut start: usize = 0;
    while start < end && is_whitespace(m[start])
        invariant
            start <= end <= m@.len(),
            head == m@.subrange(0, end as int),
            forall|j: int| 0 <= j < start ==> is_unicode_whitespace(head[j]),
        decreases end - start,
    {
        start += 1;
    }
    proof {
        lemma_trim_start(head, start as int);
    }
    let ghost rest = head.subrange(start as int, end as int);
    let mut stop: usize = end;
    while stop > start && is_whitespace(m[stop - 1])
        invariant
            start <= stop <= end <= m@.len(),
            head == m@.subrange(0, end as int),
            rest == head.subrange(start as int, end as int),
            forall|j: int| stop - start <= j < rest.len() ==> is_unicode_whitespace(rest[j]),
        decreases stop - start,
    {
        stop -= 1;
    }
    proof {
        lemma_trim_end(rest, stop - start);
    }
    let mut r: Vec<char> = Vec::new();
    let mut i: usize = start;
    while i < stop
        invariant
            start <= i <= stop <= m@.len(),
            r@ == m@.subrange(start as int, i as int),
        decreases stop - i,
    {
        r.push(m[i]);
        assert(m@.subrange(start as int, i + 1) =~= m@.subrange(start as int, i as int).push(m@[i as int]));
        i += 1;
    }
    assert(rest.subrange(0, stop - start) =~= m@.subrange(start as int, stop as int));
    r
}

/// The media type text of `t`.
pub open spec fn mime_of(t: ImageMediaType) -> Seq<char> {
    match t {
        ImageMediaType::Jpeg => "image/jpeg"@,
        ImageMediaType::Png => "image/png"@,
        ImageMediaType::Gif => "image/gif"@,
        ImageMediaType::Webp => "image/webp"@,
    }
}

impl ImageMediaType {
    /// Return the media type of this image media type.
    pub fn mime(self) -> (r: &'static str)
        ensures
            r@ == mime_of(self),
    {
        match self {
            ImageMediaType::Jpeg => "image/jpeg",
            ImageMediaType::Png => "image/png",
            ImageMediaType::Gif => "image/gif",
            ImageMediaType::Webp => "image/webp",
        }
    }

    /// Resolve a media type string. Parameters after `;` are ignored, matching
    /// is case-insensitive, and `image/jpg` is accepted as an alias of
    /// `image/jpeg`. Returns `None` for an unsupported media type.
    pub fn from_mime(mime: &str) -> (r: Option<ImageMediaType>)
        ensures
            r == media_type_of(mime@),
    {
        let m = chars_of(mime);
        let head = mime_head(m.as_slice());
        let mut i: usize = 0;
        while i < head.len() && head[i] != '/'
            invariant
                i <= head@.len(),
                forall|j: int| 0 <= j < i ==> head@[j] != '/',
            decreases head.len() - i,
        {
            i += 1;
        }
        if i == head.len() {
            assert(!(exists|k: int| 0 <= k < head@.len() && head@[k] == '/'));
            return None;
        }
        proof {
            let c = choose|k: int| 0 <= k < head@.len() && head@[k] == '/' && forall|j: int| 0 <= j < k ==> head@[j] != '/';
            assert(head@[i as int] == '/');
            if c < i {
                assert(false);
            } else if c > i {
                assert(head@[i as int] != '/');
            }
            assert(first_slash(head@) == Some(i as int));
        }
        let mut kind: Vec<char> = Vec::new();
        let mut k: usize = 0;
        while k < i
            invariant
                k <= i < head@.len(),
                kind@ == head@.subrange(0, k as int),
            decreases i - k,
        {
            kind.push(head[k]);
            assert(head@.subrange(0, k + 1) =~= head@.subrange(0, k as int).push(head@[k as int]));
            k += 1;
        }
        let mut sub: Vec<char> = Vec::new();
        let mut k: usize = i + 1;
        while k < head.len()
            invariant
                i < k <= head@.len(),
                sub@ == head@.subrange(i + 1, k as int),
            decreases head.len() - k,
        {
            sub.push(head[k]);
            assert(head@.subrange(i + 1, k + 1) =~= head@.subrange(i + 1, k as int).push(head@[k as int]));
            k += 1;
        }
        if !chars_eq_ignore_ascii_case(kind.as_slice(), seq_lit(0).as_slice()) {
            return None;
        }
        if chars_eq_ignore_ascii_case(sub.as_slice(), seq_lit(1).as_slice())
            || chars_eq_ignore_ascii_case(sub.as_slice(), seq_lit(2).as_slice()) {
            return Some(ImageMediaType::Jpeg);
        }
        if chars_eq_ignore_ascii_case(sub.as_slice(), seq_lit(3).as_slice()) {
            return Some(ImageMediaType::Png);
        }
        if chars_eq_ignore_ascii_case(sub.as_slice(), seq_lit(4).as_slice()) {
            return Some(ImageMediaType::Gif);
        }
        if chars_eq_ignore_ascii_case(sub.as_slice(), seq_lit(5).as_slice()) {
            return Some(ImageMediaType::Webp);
        }
        None
    }
}

/// Requested image detail level.
///
/// The preprocessor applies an additional long-side limit for
/// [`Low`](Self::Low) before fitting the token budget.
#[derive(Debug, Clone, Copy, PartialEq, Eq, Structural)]
pub enum ImageDetail {
    Low,
    High,
    Original,
    Auto,
}

impl ImageDetail {
    /// Return whether the additional low-detail long-side limit applies.
    pub fn is_low(self) -> (r: bool)
        ensures
            r == (self == ImageDetail::Low),
    {
        match self {
            ImageDetail::Low => true,
            _ => false,
        }
    }

    /// The default detail level, `High`.
    pub fn default_detail() -> (r: ImageDetail)
        ensures
            r == ImageDetail::High,
    {
        ImageDetail::High
    }
}

impl Default for ImageDetail {
    fn default() -> (r: ImageDetail)
        ensures
            r == ImageDetail::High,
    {
        ImageDetail::High
    }
}

/// One image supplied with a conversation, before resolution.
#[derive(Debug, Clone, PartialEq, Eq)]
pub enum ImageSource {
    /// Data URL with a base64 or percent-encoded body.
    DataUrl { data_url: String, detail: ImageDetail },
    /// External image URL. Conversion and resolution check the case-insensitive
    /// `http` prefix; the fetcher validates the full URL.
    Url { url: String, detail: ImageDetail },
    /// Encoded image bytes supplied by the caller.
    Bytes { data: Vec<u8>, detail: ImageDetail },
}

/// The mathematical value of an [`ImageSource`].
pub enum ImageSourceView {
    DataUrl { data_url: Seq<char>, detail: ImageDetail },
    Url { url: Seq<char>, detail: ImageDetail },
    Bytes { data: Seq<u8>, detail: ImageDetail },
}

impl View for ImageSource {
    type V = ImageSourceView;

    open spec fn view(&self) -> ImageSourceView {
        match self {
            ImageSource::DataUrl { data_url, detail } => ImageSourceView::DataUrl {
                data_url: data_url@,
                detail: *detail,
            },
            ImageSource::Url { url, detail } => ImageSourceView::Url { url: url@, detail: *detail },
            ImageSource::Bytes { data, detail } => ImageSourceView::Bytes {
                data: data@,
                detail: *detail,
            },
        }
    }
}

/// Two lists of image sources hold the same values in the same order.
pub open spec fn same_sources(a: Seq<ImageSource>, b: Seq<ImageSource>) -> bool {
    &&& a.len() == b.len()
    &&& forall|k: int| 0 <= k < a.len() ==> #[trigger] a[k]@ == b[k]@
}

impl ImageSource {
    /// Return the requested detail level.
    pub fn detail(&self) -> (r: ImageDetail)
        ensures
            r == match self {
                ImageSource::DataUrl { detail, .. } => *detail,
                ImageSource::Url { detail, .. } => *detail,
                ImageSource::Bytes { detail, .. } => *detail,
            },
    {
        match self {
            ImageSource::DataUrl { detail, .. } => *detail,
            ImageSource::Url { detail, .. } => *detail,
            ImageSource::Bytes { detail, .. } => *detail,
        }
    }

    /// Returns a copy of this source with the same value.
    pub fn duplicate(&self) -> (r: ImageSource)
        ensures
            r@ == self@,
    {
        match self {
            ImageSource::DataUrl { data_url, detail } => ImageSource::DataUrl {
                data_url: data_url.clone(),
                detail: *detail,
            },
            ImageSource::Url { url, detail } => ImageSource::Url { url: url.clone(), detail: *detail },
            ImageSource::Bytes { data, detail } => {
                let d = data.clone();
                assert(d@ =~= data@);
                ImageSource::Bytes { data: d, detail: *detail }
            },
        }
    }
}

/// Copies a list of image sources, keeping their values.
pub fn duplicate_sources(v: &Vec<ImageSource>) -> (r: Vec<ImageSource>)
    ensures
        same_sources(r@, v@),
{
    let mut r: Vec<ImageSource> = Vec::new();
    let mut i: usize = 0;
    while i < v.len()
        invariant
            i <= v@.len(),
            r@.len() == i,
            forall|k: int| 0 <= k < i ==> #[trigger] r@[k]@ == v@[k]@,
        decreases v.len() - i,
    {
        r.push(v[i].duplicate());
        i += 1;
    }
    r
}

/// Whether the first four characters spell `http`, ignoring ASCII case.
pub open spec fn is_http_url_spec(url: Seq<char>) -> bool {
    url.len() >= 4 && eq_ignore_ascii_case(url.subrange(0, 4), seq_http())
}

/// Return whether a value is an external image URL.
///
/// Checks whether the first four bytes spell `http`, ignoring ASCII case.
/// This classifies external image references; it does not validate URL
/// syntax, the complete scheme, or the destination.
pub fn is_http_url(url: &str) -> (r: bool)
    ensures
        r == is_http_url_spec(url@),
{
    let v = chars_of(url);
    if v.len() < 4 {
        return false;
    }
    let mut head: Vec<char> = Vec::new();
    head.push(v[0]);
    head.push(v[1]);
    head.push(v[2]);
    head.push(v[3]);
    assert(head@ =~= v@.subrange(0, 4));
    chars_eq_ignore_ascii_case(head.as_slice(), seq_lit(6).as_slice())
}

/// A preprocessed image sent to the inference backend.
#[derive(Debug, Clone, PartialEq, Eq)]
pub struct ImageInfo {
    /// Encoded image bytes.
    pub data: Vec<u8>,
    /// Width in pixels after preprocessing.
    pub width: u32,
    /// Height in pixels after preprocessing.
    pub height: u32,
}

/// Images attached to one conversation request.
#[derive(Debug, Clone, PartialEq, Eq)]
pub struct MultiModalData {
    /// Images in the order their placeholders appear in the prompt.
    pub images: Vec<ImageInfo>,
}

impl Default for MultiModalData {
    fn default() -> (r: MultiModalData)
        ensures
            r.images@.len() == 0,
    {
        MultiModalData { images: Vec::new() }
    }
}

/// The prompt tokens beyond one per placeholder of the first `n` images, or
/// the error of the first image whose fitting does not converge.
pub open spec fn token_adjustment(images: Seq<ImageInfo>, n: nat) -> Result<int, CalcResizeError>
    decreases n,
{
    if n == 0 {
        Ok(0)
    } else {
        match token_adjustment(images, (n - 1) as nat) {
            Err(e) => Err(e),
            Ok(a) => match calc_resize_spec(images[n - 1].width as int, images[n - 1].height as int) {
                Ok(r) => Ok(a + r.num_tokens - 1),
                Err(e) => Err(e),
            },
        }
    }
}

/// Once an image fails to fit, the adjustment over any longer prefix fails
/// with the same error.
proof fn lemma_token_adjustment_err(images: Seq<ImageInfo>, n: nat, m: nat)
    requires
        n <= m,
        token_adjustment(images, n) is Err,
    ensures
        token_adjustment(images, m) == token_adjustment(images, n),
    decreases m - n,
{
    if n < m {
        lemma_token_adjustment_err(images, n, (m - 1) as nat);
    }
}

impl MultiModalData {
    /// Return the number of prompt tokens beyond one per placeholder.
    ///
    /// Every image contributes one placeholder token to the prompt and
    /// [`ImageTokenSpec::calc_token_len`] tokens to the inference input. The
    /// adjustment is the difference over all images; the error is that of the
    /// first image whose token length does not converge.
    pub fn image_token_adjustment(&self) -> (r: Result<usize, CalcResizeError>)
        requires
            self.images@.len() <= usize::MAX / 1024,
            forall|j: int|
                0 <= j < self.images@.len() ==> size_in_range(
                    #[trigger] self.images@[j].width as int,
                    self.images@[j].height as int,
                ),
        ensures
            match token_adjustment(self.images@, self.images@.len()) {
                Ok(a) => r == Ok::<usize, CalcResizeError>(a as usize),
                Err(e) => r == Err::<usize, CalcResizeError>(e),
            },
    {
        let spec = ImageTokenSpec::v41();
        let mut adjustment: usize = 0;
        let mut i: usize = 0;
        while i < self.images.len()
            invariant
                i <= self.images@.len(),
                self.images@.len() <= usize::MAX / 1024,
                token_adjustment(self.images@, i as nat) == Ok::<int, CalcResizeError>(adjustment as int),
                adjustment <= 1023 * i,
                forall|j: int|
                    0 <= j < self.images@.len() ==> size_in_range(
                        #[trigger] self.images@[j].width as int,
                        self.images@[j].height as int,
                    ),
            decreases self.images@.len() - i,
        {
            let image = &self.images[i];
            let width = image.width as usize;
            let height = image.height as usize;
            assert(size_in_range(width as int, height as int));
            proof {
                crate::token_spec::lemma_calc_resize_fits_budget(width as int, height as int);
            }
            match spec.calc_token_len(width, height) {
                Ok(tokens) => {
                    adjustment = adjustment + (tokens - 1);
                },
                Err(e) => {
                    proof {
                        lemma_token_adjustment_err(self.images@, (i + 1) as nat, self.images@.len());
                    }
                    return Err(e);
                },
            }
            i = i + 1;
        }
        Ok(adjustment)
    }

    /// Return whether no image is attached.
    pub fn is_empty(&self) -> (r: bool)
        ensures
            r == (self.images@.len() == 0),
    {
        self.images.len() == 0
    }
}

} // verus!
