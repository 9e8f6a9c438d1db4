use media_cruncher::compressors::{
    audio_encode_args, image_encode_args, video_encode_args, webp_header_patch,
    WEBP_RIFF_SIZE_OFFSET,
};
use media_cruncher::config::CompressionConfig;

fn strs(v: &[&str]) -> Vec<String> {
    v.iter().map(|s| s.to_string()).collect()
}

fn full_hd() -> CompressionConfig {
    CompressionConfig::new("full-hd", None)
}

fn mobile(max: Option<u32>) -> CompressionConfig {
    CompressionConfig::new("mobile", max)
}

#[test]
fn wav_becomes_opus() {
    assert_eq!(
        audio_encode_args("in.wav", "in.tmp", &full_hd(), "wav"),
        Some(strs(&[
            "-y", "-i", "in.wav", "-map_metadata", "-1", "-vn", "-c:a", "libopus", "-b:a", "128k",
            "-vbr", "on", "-compression_level", "10", "-f", "opus", "in.tmp",
        ]))
    );
    assert_eq!(
        audio_encode_args("a.opus", "a.tmp", &mobile(None), "opus"),
        Some(strs(&[
            "-y", "-i", "a.opus", "-map_metadata", "-1", "-vn", "-c:a", "libopus", "-b:a", "64k",
            "-vbr", "on", "-compression_level", "10", "-f", "opus", "a.tmp",
        ]))
    );
}

#[test]
fn ogg_and_mp3_audio() {
    assert_eq!(
        audio_encode_args("a.ogg", "a.tmp", &mobile(None), "ogg"),
        Some(strs(&[
            "-y", "-i", "a.ogg", "-map_metadata", "-1", "-vn", "-c:a", "libopus", "-b:a", "64k",
            "-vbr", "on", "-f", "ogg", "a.tmp",
        ]))
    );
    assert_eq!(
        audio_encode_args("a.mp3", "a.tmp", &full_hd(), "mp3"),
        Some(strs(&[
            "-y", "-i", "a.mp3", "-map_metadata", "-1", "-vn", "-c:a", "libmp3lame", "-b:a",
            "128k", "-f", "mp3", "a.tmp",
        ]))
    );
}

#[test]
fn unsupported_audio() {
    assert_eq!(audio_encode_args("a.flac", "a.tmp", &full_hd(), "flac"), None);
    assert_eq!(audio_encode_args("a.WAV", "a.tmp", &full_hd(), "WAV"), None);
}

#[test]
fn png_becomes_webp() {
    let job = image_encode_args("a.png", "a.tmp", &full_hd(), "png").unwrap();
    assert!(job.webp_output);
    assert_eq!(
        job.args,
        strs(&["-y", "-i", "a.png", "-c:v", "libwebp", "-qscale:v", "80", "-f", "webp", "a.tmp"])
    );
}

#[test]
fn jpeg_scaled() {
    let job = image_encode_args("a.jpeg", "a.tmp", &mobile(Some(1280)), "jpeg").unwrap();
    assert!(!job.webp_output);
    assert_eq!(
        job.args,
        strs(&[
            "-y", "-i", "a.jpeg", "-vf", "scale=1280:1280:force_original_aspect_ratio=decrease",
            "-c:v", "mjpeg", "-q:v", "7", "-f", "image2", "a.tmp",
        ])
    );
}

#[test]
fn webp_scaled() {
    let job = image_encode_args("a.webp", "a.tmp", &mobile(Some(4294967295)), "webp").unwrap();
    assert!(job.webp_output);
    assert_eq!(
        job.args,
        strs(&[
            "-y", "-i", "a.webp", "-vf",
            "scale=4294967295:4294967295:force_original_aspect_ratio=decrease", "-c:v", "libwebp",
            "-qscale:v", "60", "-f", "webp", "a.tmp",
        ])
    );
}

#[test]
fn unsupported_images() {
    assert!(image_encode_args("a.bmp", "a.tmp", &full_hd(), "bmp").is_none());
    assert!(image_encode_args("a.gif", "a.tmp", &full_hd(), "gif").is_none());
}

#[test]
fn h264_videos() {
    for (ext, format) in [("mp4", "mp4"), ("mkv", "matroska"), ("avi", "avi")] {
        let input = format!("v.{}", ext);
        assert_eq!(
            video_encode_args(&input, "v.tmp", &full_hd(), ext),
            Some(strs(&[
                "-y", "-i", &input, "-hide_banner", "-c:v", "libx264", "-crf", "23", "-preset",
                "fast", "-c:a", "aac", "-b:a", "128k", "-f", format, "v.tmp",
            ]))
        );
    }
}

#[test]
fn vp9_videos_scaled() {
    for ext in ["webm", "ogv"] {
        assert_eq!(
            video_encode_args("v", "v.tmp", &mobile(Some(720)), ext),
            Some(strs(&[
                "-y", "-i", "v", "-hide_banner", "-vf",
                "scale=720:720:force_original_aspect_ratio=decrease,pad=ceil(iw/2)*2:ceil(ih/2)*2",
                "-c:v", "libvpx-vp9", "-b:v", "0", "-crf", "40", "-row-mt", "1", "-c:a", "libopus",
                "-b:a", "64k", "-f", "webm", "v.tmp",
            ]))
        );
    }
}

#[test]
fn gif_becomes_animated_webp() {
    assert_eq!(
        video_encode_args("g.gif", "g.tmp", &full_hd(), "gif"),
        Some(strs(&[
            "-y", "-i", "g.gif", "-hide_banner", "-vcodec", "webp", "-pix_fmt", "yuv420p", "-f",
            "webp", "g.tmp",
        ]))
    );
}

#[test]
fn videos_not_recompressed() {
    assert_eq!(video_encode_args("v.mpg", "v.tmp", &full_hd(), "mpg"), None);
    assert_eq!(video_encode_args("v.m4v", "v.tmp", &full_hd(), "m4v"), None);
    assert_eq!(video_encode_args("v.MP4", "v.tmp", &full_hd(), "MP4"), None);
}

#[test]
fn webp_patch_small_files() {
    assert!(webp_header_patch(0).is_none());
    assert!(webp_header_patch(11).is_none());
}

#[test]
fn webp_patch_values() {
    let p = webp_header_patch(12).unwrap();
    assert_eq!(p.offset, WEBP_RIFF_SIZE_OFFSET);
    assert_eq!(p.offset, 4);
    assert_eq!(p.bytes, vec![4, 0, 0, 0]);
    assert_eq!(webp_header_patch(1000).unwrap().bytes, vec![0xE0, 0x03, 0, 0]);
    assert_eq!(webp_header_patch(0x1_0000_0008).unwrap().bytes, vec![0, 0, 0, 0]);
    assert_eq!(webp_header_patch(u64::MAX).unwrap().bytes, vec![0xF7, 0xFF, 0xFF, 0xFF]);
}

#[test]
fn webp_patch_round_trip() {
    for size in [12u64, 13, 255 + 8, 65536 + 8, 123_456_789, 0x1_2345_6789] {
        let b = webp_header_patch(size).unwrap().bytes;
        let read = u32::from_le_bytes([b[0], b[1], b[2], b[3]]);
        assert_eq!(read as u64, (size - 8) % 0x1_0000_0000);
    }
}
