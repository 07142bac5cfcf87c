//! Limits, byte budgets and source checks applied while resolving the images
//! of one request.
//!
//! Fetching external images and preprocessing them are supplied by the caller;
//! this module decides which sources and sizes a request admits.

use vstd::prelude::*;

use core::time::Duration;
use vstd::string::StringSliceAdditionalSpecFns;

use crate::multimodal::{
    ImageDetail, ImageMediaType, ImageSource, MAX_IMAGE_URL_LEN, is_http_url, is_http_url_spec,
    media_type_of,
};
use crate::token_spec::CalcResizeError;

verus! {

/// Failure to fetch or preprocess one image.
#[derive(Debug, Clone, PartialEq, Eq)]
pub enum ImageError {
    /// The image source needs a capability this implementation does not provide.
    Unsupported(&'static str),
    /// The external image URL is too long.
    UrlTooLong { len: usize, max: usize },
    /// The external image reference lacks the required `http` prefix.
    InvalidUrl { url: String },
    /// The request carries more images than the limit allows.
    TooManyImages { max: usize, count: usize },
    /// One image is larger than the limit allows.
    ImageTooLarge { size: usize, max: usize },
    /// The images together are larger than the limit allows.
    TotalSizeTooLarge { size: usize, max: usize },
    /// The data URL or its encoded body is malformed.
    InvalidDataUrl(String),
    /// The image bytes are empty.
    EmptyImage,
    /// The image media type is unsupported.
    UnsupportedMediaType(String),
    /// The image dimensions exceed the limit.
    ImageDimensionsTooLarge,
    /// The image could not be decoded.
    Decode(String),
    /// The image could not be resized.
    Resize(String),
    /// The image could not be encoded.
    Encode(String),
    /// The image encoder reported failure without an error message.
    EncodeFailed,
    /// Fitting the image into the token budget failed.
    TokenBudget(CalcResizeError),
    /// The image could not be fetched; `source` describes the underlying failure.
    Fetch { url: String, source: String },
    /// The image server returned a non-success status.
    FetchStatus { url: String, status: u16 },
    /// The HTTP client could not be constructed.
    Client(String),
}

/// Whether another attempt of the operation that failed with `e` may succeed.
pub open spec fn retryable(e: ImageError) -> bool {
    match e {
        ImageError::Fetch { .. } => true,
        ImageError::FetchStatus { status, .. } => status >= 500,
        _ => false,
    }
}

impl ImageError {
    /// Return whether another attempt of the same operation may succeed.
    ///
    /// `Fetch` is retryable regardless of its source; `FetchStatus` is
    /// retryable for status codes at least 500. Other variants are not
    /// retryable.
    pub fn is_retryable(&self) -> (r: bool)
        ensures
            r == retryable(*self),
    {
        match self {
            ImageError::Fetch { .. } => true,
            ImageError::FetchStatus { status, .. } => *status >= 500,
            _ => false,
        }
    }
}

/// Limits applied to the images of one request.
#[derive(Debug, Clone, Copy, PartialEq, Eq, Structural)]
pub struct ImageLimits {
    /// Maximum number of images in one request.
    pub max_images: usize,
    /// Maximum UTF-8 byte length of an external image URL.
    pub max_url_len: usize,
    /// Maximum encoded size of one image.
    pub max_image_bytes: usize,
    /// Maximum total encoded size of the images of one request.
    pub max_total_bytes: usize,
    /// Maximum number of sources processed concurrently by one resolve call.
    /// A value of zero is treated as one.
    pub max_concurrent_sources: usize,
    /// Maximum width or height in pixels when a request has few images.
    pub max_dimension_px: u32,
    /// Maximum width or height in pixels when a request has many images.
    pub max_dimension_on_many_images_px: u32,
    /// Image count at which `max_dimension_on_many_images_px` applies.
    pub many_images_threshold: usize,
    /// Maximum long side before token-budget fitting at low detail.
    /// The token specification may subsequently upscale the image.
    pub low_detail_max_dimension_px: u32,
}

/// The limits a resolver applies unless it is given others.
pub open spec fn default_limits() -> ImageLimits {
    ImageLimits {
        max_images: 600,
        max_url_len: 8192,
        max_image_bytes: 33554432,
        max_total_bytes: 67108864,
        max_concurrent_sources: 8,
        max_dimension_px: 8192,
        max_dimension_on_many_images_px: 4096,
        many_images_threshold: 15,
        low_detail_max_dimension_px: 512,
    }
}

impl Default for ImageLimits {
    fn default() -> (r: ImageLimits)
        ensures
            r == default_limits(),
    {
        ImageLimits {
            max_images: 600,
            max_url_len: MAX_IMAGE_URL_LEN,
            max_image_bytes: 32 * 1024 * 1024,
            max_total_bytes: 64 * 1024 * 1024,
            max_concurrent_sources: 8,
            max_dimension_px: 8192,
            max_dimension_on_many_images_px: 4096,
            many_images_threshold: 15,
            low_detail_max_dimension_px: 512,
        }
    }
}

/// Options for one image preprocessing call.
#[derive(Debug, Clone, Copy, PartialEq, Eq, Structural)]
pub struct PreprocessOptions {
    /// Requested detail level.
    pub detail: ImageDetail,
    /// Maximum accepted source width or height in pixels, before resizing.
    pub max_dimension_px: u32,
    /// Maximum long side before token-budget fitting at low detail.
    pub low_detail_max_dimension_px: u32,
}

impl ImageLimits {
    /// The maximum accepted width or height for `image_count` images.
    pub open spec fn max_dimension_spec(self, image_count: usize) -> u32 {
        if image_count < self.many_images_threshold {
            self.max_dimension_px
        } else {
            self.max_dimension_on_many_images_px
        }
    }

    /// Return the maximum accepted width or height for a request carrying
    /// `image_count` images.
    pub fn max_dimension(&self, image_count: usize) -> (r: u32)
        ensures
            r == self.max_dimension_spec(image_count),
    {
        if image_count < self.many_images_threshold {
            self.max_dimension_px
        } else {
            self.max_dimension_on_many_images_px
        }
    }

    /// Return the preprocessing options for a request carrying `image_count`
    /// images at the given detail level.
    pub fn preprocess_options(&self, detail: ImageDetail, image_count: usize) -> (r: PreprocessOptions)
        ensures
            r == (PreprocessOptions {
                detail,
                max_dimension_px: self.max_dimension_spec(image_count),
                low_detail_max_dimension_px: self.low_detail_max_dimension_px,
            }),
    {
        PreprocessOptions {
            detail,
            max_dimension_px: self.max_dimension(image_count),
            low_detail_max_dimension_px: self.low_detail_max_dimension_px,
        }
    }
}

/// Usage accumulated over the resolve calls of one request.
///
/// Create one quota per request and pass the same quota to every call. A call
/// records its sources after preprocessing every one of them, so a failed call
/// adds nothing.
#[derive(Debug, Clone, Copy, PartialEq, Eq, Structural)]
pub struct ImageQuota {
    images: usize,
    bytes: usize,
}

impl ImageQuota {
    /// The number of sources recorded so far.
    pub closed spec fn images_spec(self) -> usize {
        self.images
    }

    /// The encoded source bytes recorded so far.
    pub closed spec fn bytes_spec(self) -> usize {
        self.bytes
    }

    /// Return an empty quota.
    pub fn new() -> (r: ImageQuota)
        ensures
            r.images_spec() == 0,
            r.bytes_spec() == 0,
    {
        ImageQuota { images: 0, bytes: 0 }
    }

    /// Return the number of sources recorded by the completed calls.
    pub fn image_count(&self) -> (r: usize)
        ensures
            r == self.images_spec(),
    {
        self.images
    }

    /// Return the encoded source bytes recorded by the completed calls.
    pub fn byte_size(&self) -> (r: usize)
        ensures
            r == self.bytes_spec(),
    {
        self.bytes
    }

    /// Record `images` preprocessed sources of `bytes` encoded size.
    pub fn add(&mut self, images: usize, bytes: usize)
        requires
            old(self).images_spec() + images <= usize::MAX,
            old(self).bytes_spec() + bytes <= usize::MAX,
        ensures
            final(self).images_spec() == old(self).images_spec() + images,
            final(self).bytes_spec() == old(self).bytes_spec() + bytes,
    {
        self.images = self.images + images;
        self.bytes = self.bytes + bytes;
    }
}

impl Default for ImageQuota {
    fn default() -> (r: ImageQuota)
        ensures
            r.images_spec() == 0,
            r.bytes_spec() == 0,
    {
        ImageQuota::new()
    }
}

/// The encoded bytes still available to the image sources of one resolve call.
///
/// A fetch reserves the bytes it keeps as its body arrives, so the fetches of
/// one call cannot together exceed the request's total limit. The images of
/// earlier calls are accounted for through the quota the call was given.
#[derive(Debug)]
pub struct ImageByteBudget {
    /// Bytes still available to the sources of one resolve call.
    remaining: usize,
    /// Maximum encoded size of one image.
    max_image_bytes: usize,
    /// Maximum total encoded size of the images of one request.
    max_total_bytes: usize,
}

/// `a - b`, or zero when `b > a`.
pub open spec fn sat_sub(a: int, b: int) -> int {
    if b > a { 0 } else { a - b }
}

/// `a + b`, or `usize::MAX` when the sum does not fit.
pub open spec fn sat_add(a: int, b: int) -> int {
    if a + b > usize::MAX { usize::MAX as int } else { a + b }
}

impl ImageByteBudget {
    /// The bytes still available.
    pub closed spec fn remaining_spec(self) -> usize {
        self.remaining
    }

    /// The maximum encoded size of one image.
    pub closed spec fn max_image_bytes_spec(self) -> usize {
        self.max_image_bytes
    }

    /// The maximum total encoded size of the images of the request.
    pub closed spec fn max_total_bytes_spec(self) -> usize {
        self.max_total_bytes
    }

    /// Create the budget of one request that has already accumulated
    /// `used_bytes`.
    ///
    /// `max_image_bytes` limits one image, and `max_total_bytes` limits every
    /// image of the request.
    pub fn new(max_image_bytes: usize, max_total_bytes: usize, used_bytes: usize) -> (r: ImageByteBudget)
        ensures
            r.remaining_spec() == sat_sub(max_total_bytes as int, used_bytes as int),
            r.max_image_bytes_spec() == max_image_bytes,
            r.max_total_bytes_spec() == max_total_bytes,
    {
        ImageByteBudget {
            remaining: max_total_bytes.saturating_sub(used_bytes),
            max_image_bytes,
            max_total_bytes,
        }
    }

    /// Return the maximum encoded size of one image.
    pub fn max_image_bytes(&self) -> (r: usize)
        ensures
            r == self.max_image_bytes_spec(),
    {
        self.max_image_bytes
    }

    /// Return the bytes still available.
    pub fn remaining(&self) -> (r: usize)
        ensures
            r == self.remaining_spec(),
    {
        self.remaining
    }

    /// Reserve `bytes` of one image.
    ///
    /// Returns [`ImageError::TotalSizeTooLarge`] when the request would exceed
    /// its total encoded size. A failed reservation reserves nothing.
    pub fn reserve(&mut self, bytes: usize) -> (r: Result<(), ImageError>)
        ensures
            final(self).max_image_bytes_spec() == old(self).max_image_bytes_spec(),
            final(self).max_total_bytes_spec() == old(self).max_total_bytes_spec(),
            bytes <= old(self).remaining_spec() ==> r is Ok && final(self).remaining_spec()
                == old(self).remaining_spec() - bytes,
            bytes > old(self).remaining_spec() ==> final(self).remaining_spec()
                == old(self).remaining_spec() && r == Err::<(), ImageError>(
                ImageError::TotalSizeTooLarge {
                    size: sat_add(
                        sat_sub(
                            old(self).max_total_bytes_spec() as int,
                            old(self).remaining_spec() as int,
                        ),
                        bytes as int,
                    ) as usize,
                    max: old(self).max_total_bytes_spec(),
                },
            ),
    {
        let available = self.remaining;
        if available < bytes {
            let used = self.max_total_bytes.saturating_sub(available);
            return Err(
                ImageError::TotalSizeTooLarge {
                    size: used.saturating_add(bytes),
                    max: self.max_total_bytes,
                },
            );
        }
        self.remaining = available - bytes;
        Ok(())
    }

    /// Return `bytes` reserved by an attempt that failed.
    ///
    /// The available bytes wrap around on overflow, as an atomic addition does.
    pub fn release(&mut self, bytes: usize)
        ensures
            final(self).max_image_bytes_spec() == old(self).max_image_bytes_spec(),
            final(self).max_total_bytes_spec() == old(self).max_total_bytes_spec(),
            final(self).remaining_spec() == vstd::wrapping::usize_specs::wrapping_add(
                old(self).remaining_spec(),
                bytes,
            ),
    {
        self.remaining = self.remaining.wrapping_add(bytes);
    }
}

/// Reserving bytes and then releasing them leaves the bytes a budget holds
/// unchanged: `release` gives back what a successful `reserve` took.
pub proof fn lemma_release_undoes_reserve(remaining: usize, bytes: usize)
    requires
        bytes <= remaining,
    ensures
        vstd::wrapping::usize_specs::wrapping_add((remaining - bytes) as usize, bytes) == remaining,
{
}

/// A budget created after earlier calls used `used_bytes` of the total admits
/// a reservation exactly when the earlier bytes and the reservation together
/// stay within the total, and a refusal reports that sum.
pub proof fn lemma_budget_counts_earlier_bytes(max_total_bytes: usize, used_bytes: usize, bytes: usize)
    requires
        used_bytes <= max_total_bytes,
    ensures
        (bytes <= sat_sub(max_total_bytes as int, used_bytes as int)) <==> (used_bytes + bytes
            <= max_total_bytes),
        sat_sub(
            max_total_bytes as int,
            sat_sub(max_total_bytes as int, used_bytes as int),
        ) == used_bytes,
{
}

/// Delays applied before repeated attempts of an operation.
///
/// A policy with `n` delays performs at most `n + 1` attempts.
#[derive(Debug, Clone)]
pub struct RetryPolicy {
    delays: Vec<Duration>,
}

/// `Duration::from_millis(millis)`.
pub uninterp spec fn duration_from_millis(millis: u64) -> Duration;

/// `Duration::from_secs(secs)`.
pub uninterp spec fn duration_from_secs(secs: u64) -> Duration;

/// Returns `Duration::from_millis(n)`, the duration of `n` milliseconds; the result is named by [`duration_from_millis`].
#[verifier::external_body]
fn millis(n: u64) -> (r: Duration)
    ensures
        r == duration_from_millis(n),
{
    Duration::from_millis(n)
}

/// Returns `Duration::from_secs(n)`, the duration of `n` seconds; the result is named by [`duration_from_secs`].
#[verifier::external_body]
fn secs(n: u64) -> (r: Duration)
    ensures
        r == duration_from_secs(n),
{
    Duration::from_secs(n)
}

impl RetryPolicy {
    /// The delays between attempts.
    pub closed spec fn delays_spec(self) -> Seq<Duration> {
        self.delays@
    }

    /// Return a policy that waits `delays` between attempts.
    pub fn new(delays: Vec<Duration>) -> (r: RetryPolicy)
        ensures
            r.delays_spec() == delays@,
    {
        RetryPolicy { delays }
    }

    /// Return a policy that performs one attempt.
    pub fn none() -> (r: RetryPolicy)
        ensures
            r.delays_spec() == Seq::<Duration>::empty(),
    {
        RetryPolicy { delays: Vec::new() }
    }

    /// Return the policy used for image downloads: one retry after 0.3 seconds,
    /// one after 0.6 seconds, and one after 1.0 second.
    pub fn download() -> (r: RetryPolicy)
        ensures
            r.delays_spec() == seq![duration_from_millis(300), duration_from_millis(600), duration_from_secs(1)],
    {
        let mut delays: Vec<Duration> = Vec::new();
        delays.push(millis(300));
        delays.push(millis(600));
        delays.push(secs(1));
        RetryPolicy { delays }
    }

    /// Return the maximum number of attempts.
    pub fn max_attempts(&self) -> (r: usize)
        requires
            self.delays_spec().len() < usize::MAX,
        ensures
            r == self.delays_spec().len() + 1,
    {
        self.delays.len() + 1
    }

    /// Decide what follows the failed attempt `attempt` (zero-based): the
    /// delay before the next attempt, or `None` when the failure is final
    /// because the delays are used up or the failure is not `retryable`.
    pub fn next_delay(&self, attempt: usize, retryable: bool) -> (r: Option<Duration>)
        ensures
            r == (if attempt < self.delays_spec().len() && retryable {
                Some(self.delays_spec()[attempt as int])
            } else {
                None::<Duration>
            }),
    {
        if attempt >= self.delays.len() {
            return None;
        }
        if !retryable {
            return None;
        }
        Some(self.delays[attempt])
    }
}

impl Default for RetryPolicy {
    fn default() -> (r: RetryPolicy)
        ensures
            r.delays_spec() == Seq::<Duration>::empty(),
    {
        RetryPolicy::none()
    }
}

/// Resolves image sources into preprocessed images.
///
/// Holds the caller's fetcher and preprocessor, the request limits and the
/// retry policy of downloads; the decisions of a resolve call are the methods
/// below, and the caller performs the fetching and preprocessing they ask for.
pub struct ImageResolver<F, P> {
    fetcher: F,
    preprocessor: P,
    limits: ImageLimits,
    retry: RetryPolicy,
}

impl<F, P> ImageResolver<F, P> {
    /// The limits of the resolver.
    pub closed spec fn limits_spec(self) -> ImageLimits {
        self.limits
    }

    /// The retry policy of downloads.
    pub closed spec fn retry_spec(self) -> RetryPolicy {
        self.retry
    }

    /// The fetcher of the resolver.
    pub closed spec fn fetcher_spec(self) -> F {
        self.fetcher
    }

    /// The preprocessor of the resolver.
    pub closed spec fn preprocessor_spec(self) -> P {
        self.preprocessor
    }

    /// Combine an image fetcher with an image preprocessor, with the default
    /// limits and the download retry policy.
    pub fn new(fetcher: F, preprocessor: P) -> (r: ImageResolver<F, P>)
        ensures
            r.limits_spec() == default_limits(),
            r.retry_spec().delays_spec() == seq![duration_from_millis(300), duration_from_millis(600), duration_from_secs(1)],
            r.fetcher_spec() == fetcher,
            r.preprocessor_spec() == preprocessor,
    {
        ImageResolver {
            fetcher,
            preprocessor,
            limits: ImageLimits::default(),
            retry: RetryPolicy::download(),
        }
    }

    /// Replace the default limits.
    pub fn with_limits(self, limits: ImageLimits) -> (r: ImageResolver<F, P>)
        ensures
            r.limits_spec() == limits,
            r.retry_spec() == self.retry_spec(),
            r.fetcher_spec() == self.fetcher_spec(),
            r.preprocessor_spec() == self.preprocessor_spec(),
    {
        ImageResolver { limits, ..self }
    }

    /// Replace the default retry policy of image downloads.
    pub fn with_retry(self, retry: RetryPolicy) -> (r: ImageResolver<F, P>)
        ensures
            r.retry_spec() == retry,
            r.limits_spec() == self.limits_spec(),
            r.fetcher_spec() == self.fetcher_spec(),
            r.preprocessor_spec() == self.preprocessor_spec(),
    {
        ImageResolver { retry, ..self }
    }

    /// Return the fetcher.
    pub fn fetcher(&self) -> (r: &F)
        ensures
            *r == self.fetcher_spec(),
    {
        &self.fetcher
    }

    /// Return the preprocessor.
    pub fn preprocessor(&self) -> (r: &P)
        ensures
            *r == self.preprocessor_spec(),
    {
        &self.preprocessor
    }

    /// Return the limits.
    pub fn limits(&self) -> (r: ImageLimits)
        ensures
            r == self.limits_spec(),
    {
        self.limits
    }

    /// Return the retry policy of downloads.
    pub fn retry(&self) -> (r: &RetryPolicy)
        ensures
            *r == self.retry_spec(),
    {
        &self.retry
    }

    /// Admit `source_count` more sources to a request that has recorded
    /// `quota`: returns the image count of the request including them, or
    /// [`ImageError::TooManyImages`].
    pub fn admit_sources(&self, quota: &ImageQuota, source_count: usize) -> (r: Result<usize, ImageError>)
        requires
            quota.images_spec() + source_count <= usize::MAX,
        ensures
            ({
                let count = quota.images_spec() + source_count;
                if count > self.limits_spec().max_images {
                    r == Err::<usize, ImageError>(
                        ImageError::TooManyImages { max: self.limits_spec().max_images, count: count as usize },
                    )
                } else {
                    r == Ok::<usize, ImageError>(count as usize)
                }
            }),
    {
        let count = quota.image_count() + source_count;
        if count > self.limits.max_images {
            return Err(ImageError::TooManyImages { max: self.limits.max_images, count });
        }
        Ok(count)
    }

    /// Return the byte budget of one resolve call of a request that has
    /// recorded `quota`.
    pub fn budget(&self, quota: &ImageQuota) -> (r: ImageByteBudget)
        ensures
            r.remaining_spec() == sat_sub(self.limits_spec().max_total_bytes as int, quota.bytes_spec() as int),
            r.max_image_bytes_spec() == self.limits_spec().max_image_bytes,
            r.max_total_bytes_spec() == self.limits_spec().max_total_bytes,
    {
        ImageByteBudget::new(self.limits.max_image_bytes, self.limits.max_total_bytes, quota.byte_size())
    }

    /// Return the number of sources resolved at a time.
    pub fn concurrency(&self) -> (r: usize)
        ensures
            r == if self.limits_spec().max_concurrent_sources == 0 {
                1
            } else {
                self.limits_spec().max_concurrent_sources
            },
    {
        if self.limits.max_concurrent_sources == 0 {
            1
        } else {
            self.limits.max_concurrent_sources
        }
    }

    /// Check the encoded sizes `sizes` of the sources of one call against the
    /// limits, after a request that has recorded `quota`: returns the bytes
    /// the call adds, or the error of the first size that breaks a limit.
    pub fn admit_encoded(&self, quota: &ImageQuota, sizes: &Vec<usize>) -> (r: Result<usize, ImageError>)
        requires
            quota.bytes_spec() + self.limits_spec().max_image_bytes <= usize::MAX,
            self.limits_spec().max_total_bytes + self.limits_spec().max_image_bytes <= usize::MAX,
        ensures
            match admit_sizes(self.limits_spec(), quota.bytes_spec() as int, sizes@, 0) {
                Ok(total) => r == Ok::<usize, ImageError>((total - quota.bytes_spec()) as usize),
                Err(e) => r == Err::<usize, ImageError>(e),
            },
    {
        let max_image = self.limits.max_image_bytes;
        let max_total = self.limits.max_total_bytes;
        let mut request_bytes: usize = quota.byte_size();
        let mut i: usize = 0;
        while i < sizes.len()
            invariant
                i <= sizes@.len(),
                max_image == self.limits_spec().max_image_bytes,
                max_total == self.limits_spec().max_total_bytes,
                request_bytes + max_image <= usize::MAX,
                max_total + max_image <= usize::MAX,
                quota.bytes_spec() <= request_bytes,
                admit_sizes(self.limits_spec(), quota.bytes_spec() as int, sizes@, 0)
                    == admit_sizes(self.limits_spec(), request_bytes as int, sizes@, i as int),
            decreases sizes@.len() - i,
        {
            let size = sizes[i];
            if size > max_image {
                return Err(ImageError::ImageTooLarge { size, max: max_image });
            }
            request_bytes = request_bytes + size;
            if request_bytes > max_total {
                return Err(ImageError::TotalSizeTooLarge { size: request_bytes, max: max_total });
            }
            i = i + 1;
        }
        Ok(request_bytes - quota.byte_size())
    }
}

/// Checks the encoded sizes `sizes` from index `i` on, starting from
/// `request` bytes of the request: the request's bytes after all of them, or
/// the error of the first size above the image limit or that takes the
/// request above the total limit.
pub open spec fn admit_sizes(limits: ImageLimits, request: int, sizes: Seq<usize>, i: int) -> Result<int, ImageError>
    decreases sizes.len() - i,
{
    if i < 0 || i >= sizes.len() {
        Ok(request)
    } else if sizes[i] > limits.max_image_bytes {
        Err(ImageError::ImageTooLarge { size: sizes[i], max: limits.max_image_bytes })
    } else if request + sizes[i] > limits.max_total_bytes {
        Err(ImageError::TotalSizeTooLarge { size: (request + sizes[i]) as usize, max: limits.max_total_bytes })
    } else {
        admit_sizes(limits, request + sizes[i], sizes, i + 1)
    }
}

/// Reserve the bytes of one image that is already in memory: an image above
/// the budget's image limit is refused before anything is reserved.
pub fn reserve_image_bytes(budget: &mut ImageByteBudget, bytes: usize) -> (r: Result<(), ImageError>)
    ensures
        final(budget).max_image_bytes_spec() == old(budget).max_image_bytes_spec(),
        final(budget).max_total_bytes_spec() == old(budget).max_total_bytes_spec(),
        bytes > old(budget).max_image_bytes_spec() ==> r == Err::<(), ImageError>(
            ImageError::ImageTooLarge { size: bytes, max: old(budget).max_image_bytes_spec() },
        ) && final(budget).remaining_spec() == old(budget).remaining_spec(),
        bytes <= old(budget).max_image_bytes_spec() && bytes <= old(budget).remaining_spec() ==> r is Ok
            && final(budget).remaining_spec() == old(budget).remaining_spec() - bytes,
        bytes <= old(budget).max_image_bytes_spec() && bytes > old(budget).remaining_spec() ==> r
            == Err::<(), ImageError>(
            ImageError::TotalSizeTooLarge {
                size: sat_add(
                    sat_sub(old(budget).max_total_bytes_spec() as int, old(budget).remaining_spec() as int),
                    bytes as int,
                ) as usize,
                max: old(budget).max_total_bytes_spec(),
            },
        ) && final(budget).remaining_spec() == old(budget).remaining_spec(),
{
    let max = budget.max_image_bytes();
    if bytes > max {
        return Err(ImageError::ImageTooLarge { size: bytes, max });
    }
    budget.reserve(bytes)
}

/// The position of the first `x` in `b`.
pub open spec fn first_index(b: Seq<u8>, x: u8) -> Option<int> {
    if exists|i: int| 0 <= i < b.len() && b[i] == x {
        Some(choose|i: int| 0 <= i < b.len() && b[i] == x && forall|j: int| 0 <= j < i ==> b[j] != x)
    } else {
        None
    }
}

/// The number of `x` in `b`.
pub open spec fn count_byte(b: Seq<u8>, x: u8) -> nat
    decreases b.len(),
{
    if b.len() == 0 {
        0
    } else {
        count_byte(b.drop_last(), x) + if b.last() == x { 1nat } else { 0nat }
    }
}

/// The bytes of `;base64`.
pub open spec fn base64_marker() -> Seq<u8> {
    seq![59u8, 98u8, 97u8, 115u8, 101u8, 54u8, 52u8]
}

/// The decoded size a data URL reports before its body is decoded: three
/// bytes for every four characters of a base64 body, and one byte for every
/// character of another body but two for each `%`.
pub open spec fn estimated_len(url: Seq<u8>) -> int {
    match first_index(url, 44u8) {
        None => 0,
        Some(c) => {
            let header = url.subrange(0, c);
            let body = url.subrange(c + 1, url.len() as int);
            if header.len() >= 7 && header.subrange(header.len() - 7, header.len() as int) == base64_marker() {
                body.len() as int / 4 * 3
            } else {
                sat_sub(body.len() as int, 2 * (count_byte(body, 37u8) as int))
            }
        },
    }
}

proof fn lemma_count_byte_le(b: Seq<u8>, x: u8)
    ensures
        count_byte(b, x) <= b.len(),
    decreases b.len(),
{
    if b.len() > 0 {
        lemma_count_byte_le(b.drop_last(), x);
    }
}

/// Return the decoded size a data URL body reports before it is decoded.
///
/// A base64 body occupies four characters for every three bytes it carries,
/// so the result can be up to two bytes smaller than the decoded body. A
/// percent-encoded byte occupies three characters.
pub fn estimated_decoded_len(data_url: &str) -> (r: usize)
    ensures
        r == estimated_len(data_url.spec_bytes()),
{
    let b = data_url.as_bytes();
    let n = b.len();
    let mut c: usize = 0;
    while c < n && b[c] != 44u8
        invariant
            c <= n,
            n == b@.len(),
            forall|j: int| 0 <= j < c ==> b@[j] != 44u8,
        decreases n - c,
    {
        c = c + 1;
    }
    if c == n {
        return 0;
    }
    proof {
        let k = choose|i: int| 0 <= i < b@.len() && b@[i] == 44u8 && forall|j: int| 0 <= j < i ==> b@[j] != 44u8;
        assert(b@[c as int] == 44u8);
        if k < c {
            assert(b@[k] != 44u8);
        }
        if k > c {
            assert(b@[c as int] != 44u8);
        }
        assert(first_index(b@, 44u8) == Some(c as int));
    }
    let body_len = n - c - 1;
    let mut base64 = c >= 7;
    let mut k: usize = 0;
    while k < 7 && base64
        invariant
            k <= 7,
            base64 ==> c >= 7,
            base64 == (c >= 7 && forall|j: int| 0 <= j < k ==> b@[c - 7 + j] == base64_marker()[j]),
            n == b@.len(),
            c < n,
        decreases 7 - k,
    {
        let expected: u8 = match k {
            0 => 59u8,
            1 => 98u8,
            2 => 97u8,
            3 => 115u8,
            4 => 101u8,
            5 => 54u8,
            _ => 52u8,
        };
        assert(expected == base64_marker()[k as int]);
        if b[c - 7 + k] != expected {
            base64 = false;
        }
        k = k + 1;
    }
    proof {
        let header = b@.subrange(0, c as int);
        if c >= 7 {
            if base64 {
                assert(header.subrange(header.len() - 7, header.len() as int) =~= base64_marker());
            } else {
                let j = choose|j: int| 0 <= j < 7 && b@[c - 7 + j] != base64_marker()[j];
                assert(header.subrange(header.len() - 7, header.len() as int)[j] != base64_marker()[j]);
            }
        }
    }
    if base64 {
        return body_len / 4 * 3;
    }
    let mut percent: usize = 0;
    let mut i: usize = c + 1;
    while i < n
        invariant
            c < n,
            n == b@.len(),
            c + 1 <= i <= n,
            percent == count_byte(b@.subrange(c + 1, i as int), 37u8),
            percent <= i - (c + 1),
        decreases n - i,
    {
        assert(b@.subrange(c + 1, i + 1).drop_last() =~= b@.subrange(c + 1, i as int));
        if b[i] == 37u8 {
            percent = percent + 1;
        }
        i = i + 1;
    }
    assert(b@.subrange(c + 1, n as int) =~= b@.subrange(c as int + 1, b@.len() as int));
    if percent > body_len / 2 {
        0
    } else {
        body_len - 2 * percent
    }
}

/// Whether `data_url::DataUrl::process` accepts `input`.
pub uninterp spec fn data_url_accepts(input: Seq<char>) -> bool;

/// The media type that `data_url` parses from the data URL `input`, as its
/// `mime_type` serializes it.
pub uninterp spec fn data_url_mime(input: Seq<char>) -> Seq<char>;

/// The body that `data_url` decodes from the data URL `input`, or `None`
/// where decoding the body fails.
pub uninterp spec fn data_url_decoded(input: Seq<char>) -> Option<Seq<u8>>;

/// Calls `data_url::DataUrl::process`, which parses a `data:` URL into its
/// media type, encoding and body, and maps its error to its message. The
/// result is a function of the input alone: it is `Ok` exactly when
/// [`data_url_accepts`] holds of the input.
#[verifier::external_body]
fn process_data_url(input: &str) -> (r: Result<(), String>)
    ensures
        r is Ok <==> data_url_accepts(input@),
{
    data_url::DataUrl::process(input).map(|_| ()).map_err(|err| err.to_string())
}

/// Calls `data_url::DataUrl::process` and then `mime_type` on the parsed
/// URL, serializing the media type: [`data_url_mime`] of the input, where the
/// input is accepted.
#[verifier::external_body]
fn data_url_media_type(input: &str) -> (r: Option<String>)
    ensures
        r is Some <==> data_url_accepts(input@),
        r matches Some(m) ==> m@ == data_url_mime(input@),
{
    data_url::DataUrl::process(input).ok().map(|parsed| parsed.mime_type().to_string())
}

/// Calls `data_url::DataUrl::process` and then `decode_to_vec` on the parsed
/// URL, which decodes the base64 or percent-encoded body, mapping its error
/// to its message: the body is [`data_url_decoded`] of the input, where the
/// input is accepted.
#[verifier::external_body]
fn data_url_body(input: &str) -> (r: Option<Result<Vec<u8>, String>>)
    ensures
        r is Some <==> data_url_accepts(input@),
        r matches Some(Ok(b)) ==> data_url_decoded(input@) == Some(b@),
        r matches Some(Err(_)) ==> data_url_decoded(input@) is None,
{
    data_url::DataUrl::process(input).ok().map(
        |parsed| parsed.decode_to_vec().map(|(body, _)| body).map_err(|err| err.to_string()),
    )
}

/// What decoding the data URL `input` gives under `budget`, when its media
/// type is supported and its estimated size is within the image limit:
/// the decoded body, reserved like an image already in memory.
pub open spec fn decoded_within(input: Seq<char>, max_image: usize, remaining: usize, max_total: usize, r: Result<Vec<u8>, ImageError>) -> bool {
    match data_url_decoded(input) {
        None => r matches Err(ImageError::InvalidDataUrl(_)),
        Some(b) => if b.len() > max_image {
            r == Err::<Vec<u8>, ImageError>(ImageError::ImageTooLarge { size: b.len() as usize, max: max_image })
        } else if b.len() > remaining {
            r == Err::<Vec<u8>, ImageError>(
                ImageError::TotalSizeTooLarge {
                    size: sat_add(sat_sub(max_total as int, remaining as int), b.len() as int) as usize,
                    max: max_total,
                },
            )
        } else {
            r matches Ok(d) && d@ == b
        },
    }
}

/// Decode a base64 or percent-encoded data URL with a supported image media
/// type, reserving its decoded bytes from `budget`.
///
/// The decoded size is checked against the image limit before the body is
/// decoded, from [`estimated_decoded_len`], and once it is known.
pub fn decode_data_url(data_url: &str, budget: &mut ImageByteBudget) -> (r: Result<Vec<u8>, ImageError>)
    ensures
        final(budget).max_image_bytes_spec() == old(budget).max_image_bytes_spec(),
        final(budget).max_total_bytes_spec() == old(budget).max_total_bytes_spec(),
        !data_url_accepts(data_url@) ==> (r matches Err(ImageError::InvalidDataUrl(_))),
        data_url_accepts(data_url@) && media_type_of(data_url_mime(data_url@)) is None ==> (r matches Err(
            ImageError::UnsupportedMediaType(m),
        ) && m@ == data_url_mime(data_url@)),
        data_url_accepts(data_url@) && media_type_of(data_url_mime(data_url@)) is Some && estimated_len(
            data_url.spec_bytes(),
        ) > old(budget).max_image_bytes_spec() ==> r == Err::<Vec<u8>, ImageError>(
            ImageError::ImageTooLarge {
                size: estimated_len(data_url.spec_bytes()) as usize,
                max: old(budget).max_image_bytes_spec(),
            },
        ),
        data_url_accepts(data_url@) && media_type_of(data_url_mime(data_url@)) is Some && estimated_len(
            data_url.spec_bytes(),
        ) <= old(budget).max_image_bytes_spec() ==> decoded_within(
            data_url@,
            old(budget).max_image_bytes_spec(),
            old(budget).remaining_spec(),
            old(budget).max_total_bytes_spec(),
            r,
        ),
        r matches Ok(data) ==> final(budget).remaining_spec() == old(budget).remaining_spec() - data@.len(),
        r is Err ==> final(budget).remaining_spec() == old(budget).remaining_spec(),
{
    match process_data_url(data_url) {
        Ok(()) => {},
        Err(message) => {
            return Err(ImageError::InvalidDataUrl(message));
        },
    }
    let media_type = match data_url_media_type(data_url) {
        Some(m) => m,
        None => {
            return Err(ImageError::InvalidDataUrl(String::new()));
        },
    };
    if ImageMediaType::from_mime(media_type.as_str()).is_none() {
        return Err(ImageError::UnsupportedMediaType(media_type));
    }
    let estimated = estimated_decoded_len(data_url);
    let max_image_bytes = budget.max_image_bytes();
    if estimated > max_image_bytes {
        return Err(ImageError::ImageTooLarge { size: estimated, max: max_image_bytes });
    }
    let data = match data_url_body(data_url) {
        Some(Ok(data)) => data,
        Some(Err(message)) => {
            return Err(ImageError::InvalidDataUrl(message));
        },
        None => {
            return Err(ImageError::InvalidDataUrl(String::new()));
        },
    };
    match reserve_image_bytes(budget, data.len()) {
        Ok(()) => Ok(data),
        Err(e) => Err(e),
    }
}

/// The bytes of one source after its local checks, or the URL to fetch.
#[derive(Debug)]
pub enum SourceBytes {
    /// The bytes of a source that needs no fetch.
    Local(Vec<u8>),
    /// An external URL to fetch.
    Fetch(String),
}

/// Decides what follows the local checks of `source`: the bytes they
/// returned, the URL of an external URL source to fetch, and an error for
/// any other source that asks for a fetch.
pub fn source_bytes(local: Option<Vec<u8>>, source: &ImageSource) -> (r: Result<SourceBytes, ImageError>)
    ensures
        match local {
            Some(data) => r matches Ok(SourceBytes::Local(d)) && d@ == data@,
            None => match source {
                ImageSource::Url { url, .. } => r matches Ok(SourceBytes::Fetch(u)) && u@ == url@,
                _ => r matches Err(ImageError::Unsupported(m)) && m@ == "only URL sources are fetched"@,
            },
        },
{
    match local {
        Some(data) => Ok(SourceBytes::Local(data)),
        None => match source {
            ImageSource::Url { url, .. } => Ok(SourceBytes::Fetch(url.clone())),
            _ => Err(ImageError::Unsupported("only URL sources are fetched")),
        },
    }
}

/// The error of a failed fetch of `url`: a fetch error or a status error
/// as it is, any other error as a fetch error of `url` described by
/// `detail`.
pub fn fetch_failure(url: &str, error: ImageError, detail: String) -> (r: ImageError)
    ensures
        match error {
            ImageError::Fetch { .. } => r == error,
            ImageError::FetchStatus { .. } => r == error,
            _ => r matches ImageError::Fetch { url: u, source } && u@ == url@ && source@ == detail@,
        },
{
    match error {
        ImageError::Fetch { url, source } => ImageError::Fetch { url, source },
        ImageError::FetchStatus { url, status } => ImageError::FetchStatus { url, status },
        _ => ImageError::Fetch { url: url.to_string(), source: detail },
    }
}

/// `r` is the [`ImageError::InvalidUrl`] error of `url`.
pub open spec fn invalid_url_result(r: Result<Option<Vec<u8>>, ImageError>, url: Seq<char>) -> bool {
    r matches Err(ImageError::InvalidUrl { url: u }) && u@ == url
}

/// `r` holds the bytes `data`.
pub open spec fn bytes_result(r: Result<Option<Vec<u8>>, ImageError>, data: Seq<u8>) -> bool {
    r matches Ok(Some(d)) && d@ == data
}

/// The byte length of the UTF-8 encoding of `s`, as `str::len` reports it.
pub open spec fn utf8_len(s: Seq<char>) -> usize {
    vstd::utf8::encode_utf8(s).len() as usize
}

impl<F, P> ImageResolver<F, P> {
    /// Return the encoded bytes of one source that needs no fetch, reserving
    /// them from `budget`; `Ok(None)` for an external URL that passed its
    /// checks and is to be fetched.
    pub fn local_bytes(&self, source: &ImageSource, budget: &mut ImageByteBudget) -> (r: Result<Option<Vec<u8>>, ImageError>)
        ensures
            final(budget).max_image_bytes_spec() == old(budget).max_image_bytes_spec(),
            final(budget).max_total_bytes_spec() == old(budget).max_total_bytes_spec(),
            r matches Ok(Some(data)) ==> data@.len() > 0,
            match source {
                ImageSource::Url { url, .. } => {
                    &&& final(budget).remaining_spec() == old(budget).remaining_spec()
                    &&& !is_http_url_spec(url@) ==> invalid_url_result(r, url@)
                    &&& is_http_url_spec(url@) && utf8_len(url@) > self.limits_spec().max_url_len ==> r
                        == Err::<Option<Vec<u8>>, ImageError>(
                        ImageError::UrlTooLong { len: utf8_len(url@), max: self.limits_spec().max_url_len },
                    )
                    &&& is_http_url_spec(url@) && utf8_len(url@) <= self.limits_spec().max_url_len ==> r
                        == Ok::<Option<Vec<u8>>, ImageError>(None)
                },
                ImageSource::Bytes { data, .. } => {
                    &&& data@.len() > old(budget).max_image_bytes_spec() ==> r == Err::<Option<Vec<u8>>, ImageError>(
                        ImageError::ImageTooLarge { size: data@.len() as usize, max: old(budget).max_image_bytes_spec() },
                    )
                    &&& data@.len() <= old(budget).max_image_bytes_spec() && data@.len() > old(budget).remaining_spec()
                        ==> r == Err::<Option<Vec<u8>>, ImageError>(
                        ImageError::TotalSizeTooLarge {
                            size: sat_add(
                                sat_sub(old(budget).max_total_bytes_spec() as int, old(budget).remaining_spec() as int),
                                data@.len() as int,
                            ) as usize,
                            max: old(budget).max_total_bytes_spec(),
                        },
                    )
                    &&& data@.len() <= old(budget).max_image_bytes_spec() && data@.len() <= old(budget).remaining_spec()
                        ==> final(budget).remaining_spec() == old(budget).remaining_spec() - data@.len()
                        && (if data@.len() == 0 {
                            r == Err::<Option<Vec<u8>>, ImageError>(ImageError::EmptyImage)
                        } else {
                            bytes_result(r, data@)
                        })
                },
                ImageSource::DataUrl { data_url, .. } => {
                    &&& !data_url_accepts(data_url@) ==> (r matches Err(ImageError::InvalidDataUrl(_)))
                    &&& r is Ok ==> (r matches Ok(Some(_)))
                },
            },
    {
        match source {
            ImageSource::DataUrl { data_url, .. } => {
                let data = match decode_data_url(data_url.as_str(), budget) {
                    Ok(data) => data,
                    Err(e) => {
                        return Err(e);
                    },
                };
                if data.len() == 0 {
                    return Err(ImageError::EmptyImage);
                }
                Ok(Some(data))
            },
            ImageSource::Url { url, .. } => {
                if !is_http_url(url.as_str()) {
                    return Err(ImageError::InvalidUrl { url: url.clone() });
                }
                let len = url.as_str().len();
                if len > self.limits.max_url_len {
                    return Err(ImageError::UrlTooLong { len, max: self.limits.max_url_len });
                }
                Ok(None)
            },
            ImageSource::Bytes { data, .. } => {
                match reserve_image_bytes(budget, data.len()) {
                    Ok(()) => {},
                    Err(e) => {
                        return Err(e);
                    },
                }
                let copy = data.clone();
                assert(copy@ =~= data@);
                if copy.len() == 0 {
                    return Err(ImageError::EmptyImage);
                }
                Ok(Some(copy))
            },
        }
    }
}

/// Check the bytes a fetch returned: an empty body is refused.
pub fn check_fetched(data: Vec<u8>) -> (r: Result<Vec<u8>, ImageError>)
    ensures
        data@.len() == 0 ==> r == Err::<Vec<u8>, ImageError>(ImageError::EmptyImage),
        data@.len() > 0 ==> (r matches Ok(d) && d@ == data@),
{
    if data.len() == 0 {
        return Err(ImageError::EmptyImage);
    }
    Ok(data)
}


/// The MIME type of the kind that `infer::get` recognizes from the header
/// of `data`, or `None` where it recognizes none.
pub uninterp spec fn inferred_mime(data: Seq<u8>) -> Option<Seq<char>>;

/// Calls `infer::get` on `data` and returns the MIME type of the kind it
/// recognizes. The contract names that result; it depends on the bytes
/// alone.
#[verifier::external_body]
fn infer_mime(data: &[u8]) -> (r: Option<String>)
    ensures
        match r {
            Some(m) => inferred_mime(data@) == Some(m@),
            None => inferred_mime(data@) is None,
        },
{
    infer::get(data).map(|kind| kind.mime_type().to_string())
}

/// The media type of a recognized MIME type: none recognized, or a MIME
/// type outside the supported ones, is an unsupported media type.
pub fn media_type_from_mime(mime: Option<String>) -> (r: Result<ImageMediaType, ImageError>)
    ensures
        match mime {
            None => r matches Err(ImageError::UnsupportedMediaType(s)) && s@ == "unknown media type"@,
            Some(m) => match crate::multimodal::media_type_of(m@) {
                Some(t) => r == Ok::<ImageMediaType, ImageError>(t),
                None => r matches Err(ImageError::UnsupportedMediaType(s)) && s@ == m@,
            },
        },
{
    match mime {
        None => Err(ImageError::UnsupportedMediaType("unknown media type".to_string())),
        Some(m) => match ImageMediaType::from_mime(m.as_str()) {
            Some(t) => Ok(t),
            None => Err(ImageError::UnsupportedMediaType(m)),
        },
    }
}

/// Return the media type of image bytes, read from the file header.
pub fn detect_media_type(data: &[u8]) -> (r: Result<ImageMediaType, ImageError>)
    ensures
        match inferred_mime(data@) {
            None => r matches Err(ImageError::UnsupportedMediaType(s)) && s@ == "unknown media type"@,
            Some(m) => match crate::multimodal::media_type_of(m) {
                Some(t) => r == Ok::<ImageMediaType, ImageError>(t),
                None => r matches Err(ImageError::UnsupportedMediaType(s)) && s@ == m,
            },
        },
{
    media_type_from_mime(infer_mime(data))
}


// ---------------------------------------------------------------------------
// Reading a fetched body

/// The decisions of reading one fetched image body: the size limit, the
/// status and declared length checks, and the bytes kept and reserved as
/// the body arrives. Sending the request and reading the body belong to the
/// caller.
pub struct FetchedBody {
    max_bytes: usize,
    body: Vec<u8>,
}

/// The error of a response with a non-success status, if any.
pub fn check_fetch_status(url: &str, status: u16, success: bool) -> (r: Result<(), ImageError>)
    ensures
        success ==> r is Ok,
        !success ==> (r matches Err(ImageError::FetchStatus { url: u, status: s }) && u@ == url@ && s == status),
{
    if !success {
        return Err(ImageError::FetchStatus { url: url.to_string(), status });
    }
    Ok(())
}

impl FetchedBody {
    /// The most bytes the body may hold.
    pub closed spec fn max_bytes_spec(self) -> usize {
        self.max_bytes
    }

    /// The bytes kept so far.
    pub closed spec fn body_spec(self) -> Seq<u8> {
        self.body@
    }

    /// Start reading a body under both the fetcher's limit and the budget's
    /// limit for one image.
    pub fn new(fetcher_max_bytes: usize, budget: &ImageByteBudget) -> (r: FetchedBody)
        ensures
            r.max_bytes_spec() == (if fetcher_max_bytes <= budget.max_image_bytes_spec() {
                fetcher_max_bytes
            } else {
                budget.max_image_bytes_spec()
            }),
            r.body_spec() == Seq::<u8>::empty(),
    {
        let limit = budget.max_image_bytes();
        let max_bytes = if fetcher_max_bytes <= limit { fetcher_max_bytes } else { limit };
        FetchedBody { max_bytes, body: Vec::new() }
    }

    /// Refuse a declared content length above the limit.
    pub fn check_length(&self, length: Option<u64>) -> (r: Result<(), ImageError>)
        ensures
            match length {
                Some(n) => if n > self.max_bytes_spec() {
                    r == Err::<(), ImageError>(ImageError::ImageTooLarge { size: n as usize, max: self.max_bytes_spec() })
                } else {
                    r is Ok
                },
                None => r is Ok,
            },
    {
        match length {
            Some(n) => {
                let max = self.max_bytes as u64;
                if n > max {
                    return Err(ImageError::ImageTooLarge { size: n as usize, max: self.max_bytes });
                }
                Ok(())
            },
            None => Ok(()),
        }
    }

    /// Keep one chunk of the body: a body over the limit is refused, and the
    /// chunk's bytes are reserved from the budget before they are kept.
    pub fn push_chunk(&mut self, chunk: &[u8], budget: &mut ImageByteBudget) -> (r: Result<(), ImageError>)
        requires
            old(self).body_spec().len() + chunk@.len() <= usize::MAX,
        ensures
            final(self).max_bytes_spec() == old(self).max_bytes_spec(),
            old(self).body_spec().len() + chunk@.len() > old(self).max_bytes_spec() ==> r == Err::<(), ImageError>(
                ImageError::ImageTooLarge {
                    size: (old(self).body_spec().len() + chunk@.len()) as usize,
                    max: old(self).max_bytes_spec(),
                },
            ) && *final(budget) == *old(budget) && final(self).body_spec() == old(self).body_spec(),
            old(self).body_spec().len() + chunk@.len() <= old(self).max_bytes_spec() ==> match r {
                Ok(()) => final(self).body_spec() == old(self).body_spec() + chunk@ && final(budget).remaining_spec()
                    == old(budget).remaining_spec() - chunk@.len(),
                Err(_) => final(self).body_spec() == old(self).body_spec() && chunk@.len() > old(budget).remaining_spec(),
            },
            final(budget).max_image_bytes_spec() == old(budget).max_image_bytes_spec(),
            final(budget).max_total_bytes_spec() == old(budget).max_total_bytes_spec(),
    {
        let size = self.body.len() + chunk.len();
        if size > self.max_bytes {
            return Err(ImageError::ImageTooLarge { size, max: self.max_bytes });
        }
        if let Err(e) = budget.reserve(chunk.len()) {
            return Err(e);
        }
        let mut i: usize = 0;
        let ghost b0 = self.body@;
        while i < chunk.len()
            invariant
                i <= chunk@.len(),
                self.body@ == b0 + chunk@.take(i as int),
                self.max_bytes == old(self).max_bytes,
            decreases chunk@.len() - i,
        {
            self.body.push(chunk[i]);
            assert(chunk@.take(i + 1) =~= chunk@.take(i as int).push(chunk@[i as int]));
            i += 1;
        }
        assert(chunk@.take(i as int) =~= chunk@);
        Ok(())
    }

    /// A failure while the body is read: the bytes kept are released, so a
    /// retry reserves them once, and the failure is reported for the URL.
    pub fn failed(self, url: &str, source: String, budget: &mut ImageByteBudget) -> (r: ImageError)
        ensures
            r matches ImageError::Fetch { url: u, source: s } && u@ == url@ && s@ == source@,
            final(budget).remaining_spec() == vstd::wrapping::usize_specs::wrapping_add(
                old(budget).remaining_spec(),
                self.body_spec().len() as usize,
            ),
            final(budget).max_image_bytes_spec() == old(budget).max_image_bytes_spec(),
            final(budget).max_total_bytes_spec() == old(budget).max_total_bytes_spec(),
    {
        budget.release(self.body.len());
        ImageError::Fetch { url: url.to_string(), source }
    }

    /// The body read.
    pub fn into_bytes(self) -> (r: Vec<u8>)
        ensures
            r@ == self.body_spec(),
    {
        self.body
    }
}

} // verus!
