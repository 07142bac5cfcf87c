use deepseek_recipe::token_spec::{CalcResizeError, ImageTokenSpec, ResizeResult};

/// Expected target sizes and token lengths of the V4.1 preprocessing.
const CASES: &[(usize, usize, usize, usize, usize, usize, usize)] = &[
    // width, height, num_tokens, best_width, best_height, n_llm_h, n_llm_w
    (978, 479, 302, 980, 490, 12, 24),
    (272, 300, 198, 518, 574, 14, 13),
    (516, 517, 184, 546, 546, 13, 13),
    (1091, 397, 272, 1092, 406, 10, 26),
    (743, 870, 401, 756, 882, 21, 18),
    (906, 740, 416, 910, 742, 18, 22),
    (1107, 873, 590, 1120, 882, 21, 27),
    (493, 243, 202, 784, 392, 10, 19),
    (354, 476, 197, 476, 630, 15, 12),
    (766, 642, 322, 770, 644, 16, 19),
    (972, 672, 402, 980, 672, 16, 24),
    (1167, 486, 350, 1176, 490, 12, 28),
    (1134, 389, 282, 1134, 392, 10, 27),
    (275, 346, 197, 490, 616, 15, 12),
    (1033, 141, 187, 1484, 210, 5, 36),
    (125, 751, 226, 224, 1344, 32, 6),
    (560, 1029, 377, 560, 1036, 25, 14),
    (482, 725, 236, 490, 728, 18, 12),
    (782, 879, 422, 784, 882, 21, 19),
    (434, 272, 200, 700, 434, 11, 17),
    (2, 165, 356, 70, 4942, 118, 2),
    (165, 2, 240, 4942, 70, 2, 118),
    (158, 10000, 762, 126, 7966, 190, 3),
    (10000, 158, 962, 10010, 168, 4, 239),
    (40, 50, 197, 490, 616, 15, 12),
    (50, 40, 194, 616, 490, 12, 15),
    (1, 1, 184, 546, 546, 13, 13),
    (100, 100, 184, 546, 546, 13, 13),
    (16809, 11841, 990, 1540, 1092, 26, 37),
    (1920, 330, 378, 1932, 336, 8, 46),
    (8192, 8192, 994, 1302, 1302, 31, 31),
    (4096, 4096, 994, 1302, 1302, 31, 31),
    (1920, 1080, 968, 1708, 966, 23, 41),
    (1080, 1920, 986, 966, 1708, 41, 23),
    (3024, 4032, 1010, 1134, 1512, 36, 27),
    (640, 480, 206, 644, 490, 12, 16),
];

#[test]
fn calc_resize_matches_v41_preprocessing() {
    let spec = ImageTokenSpec::v41();
    for &(width, height, num_tokens, best_width, best_height, n_llm_h, n_llm_w) in CASES {
        let result = spec.calc_resize(width, height).expect("resize converges");
        assert_eq!(
            result,
            ResizeResult {
                n_llm_h,
                n_llm_w,
                best_height,
                best_width,
                num_tokens,
            },
            "calc_resize({width}, {height})"
        );
        assert!(
            result.num_tokens <= spec.max_n_token(),
            "({width}, {height}) exceeds the budget"
        );
    }
}

#[test]
fn fitted_images_are_valid() {
    let spec = ImageTokenSpec::v41();
    for &(_, _, _, best_width, best_height, _, _) in CASES {
        assert!(
            spec.is_image_valid(best_width, best_height),
            "{best_width}x{best_height}"
        );
    }
}

#[test]
fn token_len_has_a_floor_and_a_ceiling() {
    let spec = ImageTokenSpec::v41();
    assert_eq!(spec.calc_token_len(1, 1).expect("resize converges"), 184);
    assert_eq!(
        spec.calc_token_len(16809, 11841).expect("resize converges"),
        990
    );
}

#[test]
fn v41_constants() {
    let spec = ImageTokenSpec::v41();
    assert_eq!(spec.max_n_token(), 1024);
    assert_eq!(spec.patch_size(), 14);
    assert_eq!(spec.downsample_ratio(), 3);
}

#[test]
fn empty_images_take_the_delimiters_only() {
    let spec = ImageTokenSpec::v41();
    let result = spec.calc_resize(0, 0).expect("resize converges");
    assert_eq!(result.num_tokens, 2);
    assert_eq!((result.best_width, result.best_height), (0, 0));
}

#[test]
fn a_degenerate_strip_is_fitted_to_the_budget() {
    let spec = ImageTokenSpec::v41();
    let result = spec.calc_resize(0, 100_000).expect("resize converges");
    assert_eq!(result.best_width, 42);
    assert_eq!(result.best_height, 511 * 42);
    assert!(result.num_tokens <= 1024);
    assert!(spec.is_image_valid(result.best_width, result.best_height));
}

#[test]
fn unfitted_sizes_are_not_valid() {
    let spec = ImageTokenSpec::v41();
    assert!(!spec.is_image_valid(1, 1));
    assert!(!spec.is_image_valid(1920, 1080));
}

#[test]
fn resize_error_carries_the_last_result() {
    let last = ResizeResult {
        n_llm_h: 1,
        n_llm_w: 1,
        best_height: 42,
        best_width: 42,
        num_tokens: 4,
    };
    let error = CalcResizeError::NotConverged { max_iter: 10, last_result: last };
    assert_eq!(error.clone(), error);
}
