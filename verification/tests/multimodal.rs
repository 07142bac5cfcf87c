use deepseek_recipe::multimodal::{
    is_http_url, ImageDetail, ImageInfo, ImageMediaType, ImageSource, MultiModalData,
};
use deepseek_recipe::token_spec::ImageTokenSpec;

#[test]
fn token_adjustment_counts_one_placeholder_per_image() {
    let spec = ImageTokenSpec::v41();
    let data = MultiModalData {
        images: vec![
            ImageInfo {
                data: Vec::new(),
                width: 1920,
                height: 1080,
            },
            ImageInfo {
                data: Vec::new(),
                width: 640,
                height: 480,
            },
        ],
    };
    let expected =
        spec.calc_token_len(1920, 1080).unwrap() + spec.calc_token_len(640, 480).unwrap() - 2;
    assert_eq!(data.image_token_adjustment().unwrap(), expected);
    assert!(MultiModalData::default().image_token_adjustment().unwrap() == 0);
}

#[test]
fn media_types_resolve_case_insensitively() {
    assert_eq!(ImageMediaType::from_mime("image/jpeg"), Some(ImageMediaType::Jpeg));
    assert_eq!(ImageMediaType::from_mime(" Image/JPG ; q=1"), Some(ImageMediaType::Jpeg));
    assert_eq!(ImageMediaType::from_mime("image/png"), Some(ImageMediaType::Png));
    assert_eq!(ImageMediaType::from_mime("IMAGE/GIF"), Some(ImageMediaType::Gif));
    assert_eq!(ImageMediaType::from_mime("image/webp;base64"), Some(ImageMediaType::Webp));
    assert_eq!(ImageMediaType::from_mime("image/bmp"), None);
    assert_eq!(ImageMediaType::from_mime("text/png"), None);
    assert_eq!(ImageMediaType::from_mime("png"), None);
    assert_eq!(ImageMediaType::Webp.mime(), "image/webp");
    assert_eq!(ImageMediaType::Jpeg.mime(), "image/jpeg");
}

#[test]
fn http_prefix_is_checked_ignoring_case() {
    assert!(is_http_url("https://example.com"));
    assert!(is_http_url("HTTP://example.com"));
    assert!(!is_http_url("htt"));
    assert!(!is_http_url("data:image/png;base64,AA"));
}

#[test]
fn detail_levels() {
    assert!(ImageDetail::Low.is_low());
    assert!(!ImageDetail::High.is_low());
    assert_eq!(ImageDetail::default(), ImageDetail::High);
    let source = ImageSource::Url { url: "https://a".to_string(), detail: ImageDetail::Auto };
    assert_eq!(source.detail(), ImageDetail::Auto);
}

#[test]
fn empty_data_has_no_images() {
    assert!(MultiModalData::default().is_empty());
    let data = MultiModalData { images: vec![ImageInfo { data: vec![1], width: 1, height: 1 }] };
    assert!(!data.is_empty());
    assert_eq!(data.image_token_adjustment().unwrap(), 183);
}
