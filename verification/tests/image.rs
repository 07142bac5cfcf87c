use deepseek_recipe::image::{
    check_fetched, decode_data_url, estimated_decoded_len, fetch_failure, reserve_image_bytes, source_bytes,
    ImageByteBudget, ImageError, ImageLimits, ImageQuota, ImageResolver, RetryPolicy, SourceBytes,
};
use deepseek_recipe::multimodal::{ImageDetail, ImageSource};
use std::time::Duration;

#[test]
fn reserving_bytes_reduces_the_available_bytes() {
    let mut budget = ImageByteBudget::new(8, 10, 0);
    assert_eq!(budget.max_image_bytes(), 8);
    budget.reserve(6).expect("the total limit is available");

    let error = budget
        .reserve(5)
        .expect_err("the reservation exceeds the total limit");
    assert!(
        matches!(error, ImageError::TotalSizeTooLarge { size: 11, max: 10 }),
        "{error:?}"
    );
    budget
        .reserve(4)
        .expect("the remaining bytes are available");
}

#[test]
fn a_budget_accounts_for_the_bytes_of_earlier_calls() {
    let mut budget = ImageByteBudget::new(8, 10, 6);

    let error = budget
        .reserve(5)
        .expect_err("earlier calls used six bytes of the total limit");
    assert!(
        matches!(error, ImageError::TotalSizeTooLarge { size: 11, max: 10 }),
        "{error:?}"
    );
    budget
        .reserve(4)
        .expect("the remaining bytes are available");
}

#[test]
fn a_release_returns_the_bytes_of_a_failed_attempt() {
    let mut budget = ImageByteBudget::new(8, 10, 0);
    budget.reserve(10).expect("the total limit is available");
    budget.release(10);

    budget
        .reserve(10)
        .expect("the released bytes are available again");
}

#[test]
fn a_refused_reservation_reserves_nothing() {
    let mut budget = ImageByteBudget::new(8, 10, 0);
    assert!(budget.reserve(11).is_err());
    assert_eq!(budget.remaining(), 10);
    budget.reserve(10).expect("nothing was reserved");
    assert_eq!(budget.remaining(), 0);
}

#[test]
fn used_bytes_above_the_total_leave_nothing() {
    let mut budget = ImageByteBudget::new(8, 10, 12);
    assert_eq!(budget.remaining(), 0);
    let error = budget.reserve(1).expect_err("nothing is left");
    assert_eq!(error, ImageError::TotalSizeTooLarge { size: 11, max: 10 });
}

#[test]
fn retryable_errors() {
    let fetch = ImageError::Fetch { url: "https://x".to_string(), source: "reset".to_string() };
    assert!(fetch.is_retryable());
    let server = ImageError::FetchStatus { url: "https://x".to_string(), status: 503 };
    assert!(server.is_retryable());
    let client = ImageError::FetchStatus { url: "https://x".to_string(), status: 404 };
    assert!(!client.is_retryable());
    assert!(!ImageError::EmptyImage.is_retryable());
}

#[test]
fn default_limits_and_dimensions() {
    let limits = ImageLimits::default();
    assert_eq!(limits.max_images, 600);
    assert_eq!(limits.max_url_len, 8192);
    assert_eq!(limits.max_image_bytes, 32 * 1024 * 1024);
    assert_eq!(limits.max_total_bytes, 64 * 1024 * 1024);
    assert_eq!(limits.max_dimension(14), 8192);
    assert_eq!(limits.max_dimension(15), 4096);
    let options = limits.preprocess_options(ImageDetail::Low, 20);
    assert_eq!(options.detail, ImageDetail::Low);
    assert_eq!(options.max_dimension_px, 4096);
    assert_eq!(options.low_detail_max_dimension_px, 512);
}

#[test]
fn quota_records_completed_calls() {
    let mut quota = ImageQuota::new();
    assert_eq!(quota.image_count(), 0);
    assert_eq!(quota.byte_size(), 0);
    quota.add(2, 12);
    assert_eq!(quota.image_count(), 2);
    assert_eq!(quota.byte_size(), 12);
    assert_eq!(ImageQuota::default(), ImageQuota::new());
}

#[test]
fn retry_policies() {
    assert_eq!(RetryPolicy::none().max_attempts(), 1);
    let download = RetryPolicy::download();
    assert_eq!(download.max_attempts(), 4);
    assert_eq!(download.next_delay(0, true), Some(Duration::from_millis(300)));
    assert_eq!(download.next_delay(2, true), Some(Duration::from_secs(1)));
    assert_eq!(download.next_delay(3, true), None);
    assert_eq!(download.next_delay(0, false), None);
    let custom = RetryPolicy::new(vec![Duration::from_millis(5)]);
    assert_eq!(custom.max_attempts(), 2);
}

fn resolver(max_image_bytes: usize, max_total_bytes: usize) -> ImageResolver<(), ()> {
    ImageResolver::new((), ()).with_limits(ImageLimits {
        max_image_bytes,
        max_total_bytes,
        ..ImageLimits::default()
    })
}

#[test]
fn too_many_images_are_refused() {
    let resolver = ImageResolver::new((), ()).with_limits(ImageLimits {
        max_images: 2,
        ..ImageLimits::default()
    });
    let mut quota = ImageQuota::new();
    quota.add(1, 0);
    assert_eq!(resolver.admit_sources(&quota, 1), Ok(2));
    assert_eq!(
        resolver.admit_sources(&quota, 2),
        Err(ImageError::TooManyImages { max: 2, count: 3 })
    );
}

#[test]
fn bytes_over_the_image_limit_are_rejected() {
    let resolver = resolver(4, 64);
    let quota = ImageQuota::new();
    let mut budget = resolver.budget(&quota);
    let source = ImageSource::Bytes { data: vec![0; 5], detail: ImageDetail::High };
    let error = resolver.local_bytes(&source, &mut budget).expect_err("too large");
    assert_eq!(error, ImageError::ImageTooLarge { size: 5, max: 4 });
}

#[test]
fn bytes_over_the_total_limit_are_rejected() {
    let resolver = resolver(8, 10);
    let quota = ImageQuota::new();
    assert_eq!(
        resolver.admit_encoded(&quota, &vec![6, 6]),
        Err(ImageError::TotalSizeTooLarge { size: 12, max: 10 })
    );
    assert_eq!(resolver.admit_encoded(&quota, &vec![4, 6]), Ok(10));
}

#[test]
fn a_fetcher_that_ignores_the_budget_is_rejected() {
    let resolver = resolver(4, 64);
    assert_eq!(
        resolver.admit_encoded(&ImageQuota::new(), &vec![5]),
        Err(ImageError::ImageTooLarge { size: 5, max: 4 })
    );
}

#[test]
fn data_urls_over_the_image_limit_are_rejected_without_decoding() {
    let mut budget = ImageByteBudget::new(4, 64, 0);
    let url = format!("data:image/webp;base64,{}", "A".repeat(8));
    let error = decode_data_url(&url, &mut budget).expect_err("too large");
    assert_eq!(error, ImageError::ImageTooLarge { size: 6, max: 4 });
    assert_eq!(budget.remaining(), 64);
}

#[test]
fn data_urls_decode_and_reserve_their_bytes() {
    let mut budget = ImageByteBudget::new(16, 64, 0);
    let data = decode_data_url("data:image/png;base64,AQID", &mut budget).expect("decodes");
    assert_eq!(data, vec![1, 2, 3]);
    assert_eq!(budget.remaining(), 61);
    let error = decode_data_url("data:text/plain;base64,AQID", &mut budget).expect_err("media type");
    assert_eq!(error, ImageError::UnsupportedMediaType("text/plain".to_string()));
    let error = decode_data_url("not a data url", &mut budget).expect_err("invalid");
    assert!(matches!(error, ImageError::InvalidDataUrl(_)), "{error:?}");
}

#[test]
fn estimated_lengths() {
    assert_eq!(estimated_decoded_len("data:image/png;base64,AAAAAAAA"), 6);
    assert_eq!(estimated_decoded_len("data:image/png,%41%42c"), 3);
    assert_eq!(estimated_decoded_len("no comma"), 0);
    assert_eq!(estimated_decoded_len("data:image/png,%%"), 0);
}

#[test]
fn url_sources_are_checked_before_fetching() {
    let resolver = ImageResolver::new((), ()).with_limits(ImageLimits {
        max_url_len: 20,
        ..ImageLimits::default()
    });
    let mut budget = resolver.budget(&ImageQuota::new());
    let ok = ImageSource::Url { url: "https://a.b/c.png".to_string(), detail: ImageDetail::High };
    assert_eq!(resolver.local_bytes(&ok, &mut budget), Ok(None));
    let long = ImageSource::Url {
        url: "https://example.com/long.png".to_string(),
        detail: ImageDetail::High,
    };
    assert_eq!(
        resolver.local_bytes(&long, &mut budget),
        Err(ImageError::UrlTooLong { len: 28, max: 20 })
    );
    let ftp = ImageSource::Url { url: "ftp://a".to_string(), detail: ImageDetail::High };
    assert_eq!(
        resolver.local_bytes(&ftp, &mut budget),
        Err(ImageError::InvalidUrl { url: "ftp://a".to_string() })
    );
}

#[test]
fn empty_images_are_refused() {
    let resolver = resolver(8, 64);
    let mut budget = resolver.budget(&ImageQuota::new());
    let empty = ImageSource::Bytes { data: Vec::new(), detail: ImageDetail::High };
    assert_eq!(resolver.local_bytes(&empty, &mut budget), Err(ImageError::EmptyImage));
    assert_eq!(check_fetched(Vec::new()), Err(ImageError::EmptyImage));
    assert_eq!(check_fetched(vec![1]), Ok(vec![1]));
    let mut budget = ImageByteBudget::new(8, 64, 0);
    assert_eq!(reserve_image_bytes(&mut budget, 9), Err(ImageError::ImageTooLarge { size: 9, max: 8 }));
}

#[test]
fn concurrency_is_at_least_one() {
    let resolver = ImageResolver::new((), ()).with_limits(ImageLimits {
        max_concurrent_sources: 0,
        ..ImageLimits::default()
    });
    assert_eq!(resolver.concurrency(), 1);
    assert_eq!(ImageResolver::new((), ()).concurrency(), 8);
}

#[test]
fn second_local_image_over_the_total_budget_fails_with_its_size() {
    let resolver = resolver(8, 10);
    let quota = ImageQuota::new();
    let mut budget = resolver.budget(&quota);
    let source = ImageSource::Bytes { data: vec![0; 6], detail: ImageDetail::High };
    assert_eq!(resolver.local_bytes(&source, &mut budget), Ok(Some(vec![0; 6])));
    assert_eq!(
        resolver.local_bytes(&source, &mut budget),
        Err(ImageError::TotalSizeTooLarge { size: 12, max: 10 })
    );
}

#[test]
fn only_url_sources_are_fetched() {
    let url = ImageSource::Url { url: "https://example.com/a.png".to_string(), detail: ImageDetail::High };
    assert!(matches!(source_bytes(None, &url), Ok(SourceBytes::Fetch(u)) if u == "https://example.com/a.png"));
    assert!(matches!(source_bytes(Some(vec![1]), &url), Ok(SourceBytes::Local(d)) if d == vec![1]));
    let bytes = ImageSource::Bytes { data: vec![1], detail: ImageDetail::High };
    assert!(matches!(source_bytes(None, &bytes), Err(ImageError::Unsupported("only URL sources are fetched"))));
}

#[test]
fn fetch_failures_keep_fetch_errors_and_wrap_others() {
    let status = ImageError::FetchStatus { url: "u".to_string(), status: 404 };
    assert_eq!(fetch_failure("u", status.clone(), "x".to_string()), status);
    assert_eq!(
        fetch_failure("u", ImageError::EmptyImage, "EmptyImage".to_string()),
        ImageError::Fetch { url: "u".to_string(), source: "EmptyImage".to_string() }
    );
}
