use media_cruncher::config::CompressionConfig;

fn mobile(max: Option<u32>) -> CompressionConfig {
    CompressionConfig {
        img_webp_q: 60,
        img_jpg_q: 7,
        audio_bitrate_k: 64,
        video_x264_crf: 28,
        video_vp9_crf: 40,
        max_resolution_px: max,
    }
}

fn full_hd(max: Option<u32>) -> CompressionConfig {
    CompressionConfig {
        img_webp_q: 80,
        img_jpg_q: 2,
        audio_bitrate_k: 128,
        video_x264_crf: 23,
        video_vp9_crf: 31,
        max_resolution_px: max,
    }
}

#[test]
fn mobile_level() {
    assert_eq!(CompressionConfig::new("mobile", None), mobile(None));
    assert_eq!(CompressionConfig::new("MOBILE", Some(1280)), mobile(Some(1280)));
    assert_eq!(CompressionConfig::new("Mobile", Some(0)), mobile(Some(0)));
}

#[test]
fn other_levels_are_full_hd() {
    assert_eq!(CompressionConfig::new("full-hd", None), full_hd(None));
    assert_eq!(CompressionConfig::new("anything", Some(720)), full_hd(Some(720)));
    assert_eq!(CompressionConfig::new("", None), full_hd(None));
    assert_eq!(CompressionConfig::new("mobile ", None), full_hd(None));
}

#[test]
fn lowercase_level_is_exact() {
    assert_eq!(CompressionConfig::for_lowercase_level("mobile", Some(5)), mobile(Some(5)));
    assert_eq!(CompressionConfig::for_lowercase_level("MOBILE", None), full_hd(None));
}
