//! Encoder settings chosen by compression level.

use vstd::prelude::*;
use crate::text::{lowercase, lowercased, same_text};

verus! {

/// Quality and size settings handed to the encoders.
#[derive(Debug, Clone, Copy, PartialEq, Eq, Structural)]
pub struct CompressionConfig {
    /// WebP quality scale for images (higher is better).
    pub img_webp_q: u8,
    /// JPEG quality scale for images (lower is better).
    pub img_jpg_q: u8,
    /// Audio bitrate in kbit/s.
    pub audio_bitrate_k: u8,
    /// Constant rate factor for H.264 video.
    pub video_x264_crf: u8,
    /// Constant rate factor for VP9 video.
    pub video_vp9_crf: u8,
    /// Largest width or height, in pixels, that images and videos are scaled down to.
    pub max_resolution_px: Option<u32>,
}

/// The settings of the `mobile` level.
pub open spec fn mobile_config(max_resolution_px: Option<u32>) -> CompressionConfig {
    CompressionConfig {
        img_webp_q: 60,
        img_jpg_q: 7,
        audio_bitrate_k: 64,
        video_x264_crf: 28,
        video_vp9_crf: 40,
        max_resolution_px,
    }
}

/// The settings of the `full-hd` level, which every level other than `mobile` gets.
pub open spec fn full_hd_config(max_resolution_px: Option<u32>) -> CompressionConfig {
    CompressionConfig {
        img_webp_q: 80,
        img_jpg_q: 2,
        audio_bitrate_k: 128,
        video_x264_crf: 23,
        video_vp9_crf: 31,
        max_resolution_px,
    }
}

/// The settings for an already lowercased level name.
pub open spec fn config_for_level(lower_level: Seq<char>, max_resolution_px: Option<u32>) -> CompressionConfig {
    if lower_level == "mobile"@ {
        mobile_config(max_resolution_px)
    } else {
        full_hd_config(max_resolution_px)
    }
}

impl CompressionConfig {
    /// The settings for a level name that is already lowercase.
    pub fn for_lowercase_level(lower_level: &str, max_resolution_px: Option<u32>) -> (c: CompressionConfig)
        ensures
            c == config_for_level(lower_level@, max_resolution_px),
    {
        if same_text(lower_level, "mobile") {
            CompressionConfig {
                img_webp_q: 60,
                img_jpg_q: 7,
                audio_bitrate_k: 64,
                video_x264_crf: 28,
                video_vp9_crf: 40,
                max_resolution_px,
            }
        } else {
            CompressionConfig {
                img_webp_q: 80,
                img_jpg_q: 2,
                audio_bitrate_k: 128,
                video_x264_crf: 23,
                video_vp9_crf: 31,
                max_resolution_px,
            }
        }
    }

    /// The settings for the level named `level`, in any case: `mobile` gives the mobile
    /// settings, any other name the full-HD ones. `max_resolution_px` is kept as given.
    pub fn new(level: &str, max_resolution_px: Option<u32>) -> (c: CompressionConfig)
        ensures
            c == config_for_level(lowercased(level@), max_resolution_px),
    {
        let lower = lowercase(level);
        CompressionConfig::for_lowercase_level(lower.as_str(), max_resolution_px)
    }
}

/// Only the level named `mobile` gets the mobile settings, and they compress harder on every
/// axis than those of every other level: lower WebP quality, a higher (coarser) JPEG scale, a
/// lower audio bitrate and higher rate factors. The largest size is kept as given.
pub proof fn lemma_mobile_compresses_harder(lower_level: Seq<char>, max_resolution_px: Option<u32>)
    ensures
        ({
            let c = config_for_level(lower_level, max_resolution_px);
            let full = config_for_level("full-hd"@, max_resolution_px);
            &&& c.max_resolution_px == max_resolution_px
            &&& (c == config_for_level("mobile"@, max_resolution_px) <==> lower_level == "mobile"@)
            &&& lower_level != "mobile"@ ==> c == full
            &&& full == (CompressionConfig {
                img_webp_q: 80,
                img_jpg_q: 2,
                audio_bitrate_k: 128,
                video_x264_crf: 23,
                video_vp9_crf: 31,
                max_resolution_px,
            })
            &&& lower_level == "mobile"@ ==> {
                &&& c.img_webp_q < full.img_webp_q
                &&& c.img_jpg_q > full.img_jpg_q
                &&& c.audio_bitrate_k < full.audio_bitrate_k
                &&& c.video_x264_crf > full.video_x264_crf
                &&& c.video_vp9_crf > full.video_vp9_crf
                &&& c == (CompressionConfig {
                    img_webp_q: 60,
                    img_jpg_q: 7,
                    audio_bitrate_k: 64,
                    video_x264_crf: 28,
                    video_vp9_crf: 40,
                    max_resolution_px,
                })
            }
        }),
{
    reveal_strlit("mobile");
    reveal_strlit("full-hd");
    assert("full-hd"@ != "mobile"@) by {
        assert("full-hd"@[0] != "mobile"@[0]);
    }
}

} // verus!
