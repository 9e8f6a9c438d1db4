//! Argument lists for `ffmpeg` that recompress audio, images and video, and
//! the header fix that WebP output needs afterwards.

use vstd::prelude::*;
use vstd::string::StringExecFns;
use crate::config::CompressionConfig;
use crate::text::{decimal, decimal_text, push_owned, push_text, same_text, views};

verus! {

broadcast use vstd::string::group_string_axioms;

/// The name of the encoder program that is run.
pub const FFMPEG: &'static str = "ffmpeg";

/// `n` in decimal followed by `k`, as `ffmpeg` takes a bitrate in kbit/s.
pub open spec fn kbit_text(n: u8) -> Seq<char> {
    decimal_text(n as nat) + "k"@
}

/// The filter that scales a picture down to fit in `m` by `m` pixels, keeping its shape.
pub open spec fn scale_filter(m: u32) -> Seq<char> {
    "scale="@ + decimal_text(m as nat) + ":"@ + decimal_text(m as nat)
        + ":force_original_aspect_ratio=decrease"@
}

/// The video scaling filter, which also pads both sides to an even number of pixels.
pub open spec fn video_scale_filter(m: u32) -> Seq<char> {
    scale_filter(m) + ",pad=ceil(iw/2)*2:ceil(ih/2)*2"@
}

/// The codec arguments for an audio file with lowercase extension `ext`, where it is one
/// that is recompressed: WAV and Opus become Opus, Ogg stays Ogg/Opus, MP3 stays MP3.
pub open spec fn audio_codec_args(config: CompressionConfig, ext: Seq<char>) -> Option<
    Seq<Seq<char>>,
> {
    let br = kbit_text(config.audio_bitrate_k);
    if ext == "wav"@ || ext == "opus"@ {
        Some(
            seq![
                "-c:a"@,
                "libopus"@,
                "-b:a"@,
                br,
                "-vbr"@,
                "on"@,
                "-compression_level"@,
                "10"@,
                "-f"@,
                "opus"@,
            ],
        )
    } else if ext == "ogg"@ {
        Some(seq!["-c:a"@, "libopus"@, "-b:a"@, br, "-vbr"@, "on"@, "-f"@, "ogg"@])
    } else if ext == "mp3"@ {
        Some(seq!["-c:a"@, "libmp3lame"@, "-b:a"@, br, "-f"@, "mp3"@])
    } else {
        None
    }
}

/// The `ffmpeg` arguments that recompress the audio file `input` into `output`, dropping
/// metadata and any video stream; `None` for an extension that is not recompressed.
pub open spec fn audio_args(
    input: Seq<char>,
    output: Seq<char>,
    config: CompressionConfig,
    ext: Seq<char>,
) -> Option<Seq<Seq<char>>> {
    match audio_codec_args(config, ext) {
        None => None,
        Some(codec) => Some(
            seq!["-y"@, "-i"@, input, "-map_metadata"@, "-1"@, "-vn"@] + codec + seq![output],
        ),
    }
}

/// `n` in decimal followed by `k`.
fn kbit(n: u8) -> (s: String)
    ensures
        s@ == kbit_text(n),
{
    let mut s = decimal(n as u64);
    s.append("k");
    s
}

/// Builds [`audio_args`] for the audio file `input` with lowercase extension `ext`.
pub fn audio_encode_args(input: &str, output: &str, config: &CompressionConfig, ext: &str) -> (r:
    Option<Vec<String>>)
    ensures
        match r {
            Some(args) => audio_args(input@, output@, *config, ext@) == Some(views(args@)),
            None => audio_args(input@, output@, *config, ext@) is None,
        },
{
    let is_opus = same_text(ext, "wav") || same_text(ext, "opus");
    let is_ogg = same_text(ext, "ogg");
    let is_mp3 = same_text(ext, "mp3");
    if !is_opus && !is_ogg && !is_mp3 {
        return None;
    }
    let mut args: Vec<String> = Vec::new();
    push_text(&mut args, "-y");
    push_text(&mut args, "-i");
    push_text(&mut args, input);
    push_text(&mut args, "-map_metadata");
    push_text(&mut args, "-1");
    push_text(&mut args, "-vn");
    let ghost head = views(args@);
    if is_opus {
        push_text(&mut args, "-c:a");
        push_text(&mut args, "libopus");
        push_text(&mut args, "-b:a");
        push_owned(&mut args, kbit(config.audio_bitrate_k));
        push_text(&mut args, "-vbr");
        push_text(&mut args, "on");
        push_text(&mut args, "-compression_level");
        push_text(&mut args, "10");
        push_text(&mut args, "-f");
        push_text(&mut args, "opus");
    } else if is_ogg {
        push_text(&mut args, "-c:a");
        push_text(&mut args, "libopus");
        push_text(&mut args, "-b:a");
        push_owned(&mut args, kbit(config.audio_bitrate_k));
        push_text(&mut args, "-vbr");
        push_text(&mut args, "on");
        push_text(&mut args, "-f");
        push_text(&mut args, "ogg");
    } else {
        push_text(&mut args, "-c:a");
        push_text(&mut args, "libmp3lame");
        push_text(&mut args, "-b:a");
        push_owned(&mut args, kbit(config.audio_bitrate_k));
        push_text(&mut args, "-f");
        push_text(&mut args, "mp3");
    }
    let ghost codec = views(args@).skip(head.len() as int);
    push_text(&mut args, output);
    assert(views(args@) =~= head + codec + seq![output@]);
    assert(audio_codec_args(*config, ext@) == Some(codec));
    Some(args)
}

/// The scaling arguments for a picture, where a largest size is set.
pub open spec fn scale_args(config: CompressionConfig) -> Seq<Seq<char>> {
    match config.max_resolution_px {
        Some(m) => seq!["-vf"@, scale_filter(m)],
        None => Seq::<Seq<char>>::empty(),
    }
}

/// The scaling arguments for a video, where a largest size is set.
pub open spec fn video_scale_args(config: CompressionConfig) -> Seq<Seq<char>> {
    match config.max_resolution_px {
        Some(m) => seq!["-vf"@, video_scale_filter(m)],
        None => Seq::<Seq<char>>::empty(),
    }
}

/// The codec arguments for an image with lowercase extension `ext`, and whether the output
/// is WebP: PNG and WebP become WebP, JPEG stays JPEG; other images are not recompressed.
pub open spec fn image_codec_args(config: CompressionConfig, ext: Seq<char>) -> Option<
    (Seq<Seq<char>>, bool),
> {
    if ext == "png"@ || ext == "webp"@ {
        Some(
            (
                seq![
                    "-c:v"@,
                    "libwebp"@,
                    "-qscale:v"@,
                    decimal_text(config.img_webp_q as nat),
                    "-f"@,
                    "webp"@,
                ],
                true,
            ),
        )
    } else if ext == "jpg"@ || ext == "jpeg"@ {
        Some(
            (
                seq![
                    "-c:v"@,
                    "mjpeg"@,
                    "-q:v"@,
                    decimal_text(config.img_jpg_q as nat),
                    "-f"@,
                    "image2"@,
                ],
                false,
            ),
        )
    } else {
        None
    }
}

/// The `ffmpeg` arguments that recompress the image `input` into `output`, and whether the
/// output is WebP; `None` for an extension that is not recompressed.
pub open spec fn image_args(
    input: Seq<char>,
    output: Seq<char>,
    config: CompressionConfig,
    ext: Seq<char>,
) -> Option<(Seq<Seq<char>>, bool)> {
    match image_codec_args(config, ext) {
        None => None,
        Some((codec, webp)) => Some(
            (seq!["-y"@, "-i"@, input] + scale_args(config) + codec + seq![output], webp),
        ),
    }
}

/// The codec arguments for a video with lowercase extension `ext`: MP4, Matroska and AVI
/// get H.264 with AAC in their own container, WebM and Ogg video get VP9 with Opus in WebM,
/// and GIF becomes animated WebP; other videos are not recompressed.
pub open spec fn video_codec_args(config: CompressionConfig, ext: Seq<char>) -> Option<
    Seq<Seq<char>>,
> {
    let br = kbit_text(config.audio_bitrate_k);
    if ext == "mp4"@ || ext == "mkv"@ || ext == "avi"@ {
        let format = if ext == "mp4"@ {
            "mp4"@
        } else if ext == "mkv"@ {
            "matroska"@
        } else {
            "avi"@
        };
        Some(
            seq![
                "-c:v"@,
                "libx264"@,
                "-crf"@,
                decimal_text(config.video_x264_crf as nat),
                "-preset"@,
                "fast"@,
                "-c:a"@,
                "aac"@,
                "-b:a"@,
                br,
                "-f"@,
                format,
            ],
        )
    } else if ext == "webm"@ || ext == "ogv"@ {
        Some(
            seq![
                "-c:v"@,
                "libvpx-vp9"@,
                "-b:v"@,
                "0"@,
                "-crf"@,
                decimal_text(config.video_vp9_crf as nat),
                "-row-mt"@,
                "1"@,
                "-c:a"@,
                "libopus"@,
                "-b:a"@,
                br,
                "-f"@,
                "webm"@,
            ],
        )
    } else if ext == "gif"@ {
        Some(seq!["-vcodec"@, "webp"@, "-pix_fmt"@, "yuv420p"@, "-f"@, "webp"@])
    } else {
        None
    }
}

/// The `ffmpeg` arguments that recompress the video `input` into `output`; `None` for an
/// extension that is not recompressed.
pub open spec fn video_args(
    input: Seq<char>,
    output: Seq<char>,
    config: CompressionConfig,
    ext: Seq<char>,
) -> Option<Seq<Seq<char>>> {
    match video_codec_args(config, ext) {
        None => None,
        Some(codec) => Some(
            seq!["-y"@, "-i"@, input, "-hide_banner"@] + video_scale_args(config) + codec
                + seq![output],
        ),
    }
}

/// An image recompression: the `ffmpeg` arguments, and whether the output is WebP, whose
/// header then needs [`webp_header_patch`].
#[derive(Debug)]
pub struct ImageJob {
    pub args: Vec<String>,
    pub webp_output: bool,
}

/// Appends the scaling filter for `m`, the video variant where `video`.
fn push_scale(args: &mut Vec<String>, m: u32, video: bool)
    ensures
        views(final(args)@) == views(old(args)@) + seq![
            "-vf"@,
            if video {
                video_scale_filter(m)
            } else {
                scale_filter(m)
            },
        ],
{
    let ghost before = views(args@);
    let mut f = String::from_str("scale=");
    let d = decimal(m as u64);
    f.append(d.as_str());
    f.append(":");
    f.append(d.as_str());
    f.append(":force_original_aspect_ratio=decrease");
    if video {
        f.append(",pad=ceil(iw/2)*2:ceil(ih/2)*2");
    }
    push_text(args, "-vf");
    push_owned(args, f);
    assert(views(args@) =~= before + seq![
        "-vf"@,
        if video {
            video_scale_filter(m)
        } else {
            scale_filter(m)
        },
    ]);
}

/// Builds [`image_args`] for the image `input` with lowercase extension `ext`.
pub fn image_encode_args(input: &str, output: &str, config: &CompressionConfig, ext: &str) -> (r:
    Option<ImageJob>)
    ensures
        match r {
            Some(job) => image_args(input@, output@, *config, ext@) == Some(
                (views(job.args@), job.webp_output),
            ),
            None => image_args(input@, output@, *config, ext@) is None,
        },
{
    let is_webp = same_text(ext, "png") || same_text(ext, "webp");
    let is_jpeg = same_text(ext, "jpg") || same_text(ext, "jpeg");
    if !is_webp && !is_jpeg {
        return None;
    }
    let mut args: Vec<String> = Vec::new();
    push_text(&mut args, "-y");
    push_text(&mut args, "-i");
    push_text(&mut args, input);
    match config.max_resolution_px {
        Some(m) => push_scale(&mut args, m, false),
        None => {},
    }
    let ghost head = views(args@);
    assert(head =~= seq!["-y"@, "-i"@, input@] + scale_args(*config));
    if is_webp {
        push_text(&mut args, "-c:v");
        push_text(&mut args, "libwebp");
        push_text(&mut args, "-qscale:v");
        push_owned(&mut args, decimal(config.img_webp_q as u64));
        push_text(&mut args, "-f");
        push_text(&mut args, "webp");
    } else {
        push_text(&mut args, "-c:v");
        push_text(&mut args, "mjpeg");
        push_text(&mut args, "-q:v");
        push_owned(&mut args, decimal(config.img_jpg_q as u64));
        push_text(&mut args, "-f");
        push_text(&mut args, "image2");
    }
    let ghost codec = views(args@).skip(head.len() as int);
    push_text(&mut args, output);
    assert(views(args@) =~= head + codec + seq![output@]);
    assert(image_codec_args(*config, ext@) == Some((codec, is_webp)));
    Some(ImageJob { args, webp_output: is_webp })
}

/// Appends all of `tail` to `args`.
fn append_args(args: &mut Vec<String>, tail: Vec<String>)
    ensures
        views(final(args)@) == views(old(args)@) + views(tail@),
{
    let ghost before = args@;
    let ghost t = tail@;
    let mut tail = tail;
    args.append(&mut tail);
    assert(views(args@) =~= views(before) + views(t));
}

/// The H.264 codec arguments, in the container `format`.
fn x264_codec(config: &CompressionConfig, format: &str) -> (args: Vec<String>)
    ensures
        views(args@) == seq![
            "-c:v"@,
            "libx264"@,
            "-crf"@,
            decimal_text(config.video_x264_crf as nat),
            "-preset"@,
            "fast"@,
            "-c:a"@,
            "aac"@,
            "-b:a"@,
            kbit_text(config.audio_bitrate_k),
            "-f"@,
            format@,
        ],
{
    let mut args: Vec<String> = Vec::new();
    push_text(&mut args, "-c:v");
    push_text(&mut args, "libx264");
    push_text(&mut args, "-crf");
    push_owned(&mut args, decimal(config.video_x264_crf as u64));
    push_text(&mut args, "-preset");
    push_text(&mut args, "fast");
    push_text(&mut args, "-c:a");
    push_text(&mut args, "aac");
    push_text(&mut args, "-b:a");
    push_owned(&mut args, kbit(config.audio_bitrate_k));
    push_text(&mut args, "-f");
    push_text(&mut args, format);
    args
}

/// The VP9 codec arguments.
fn vp9_codec(config: &CompressionConfig) -> (args: Vec<String>)
    ensures
        views(args@) == seq![
            "-c:v"@,
            "libvpx-vp9"@,
            "-b:v"@,
            "0"@,
            "-crf"@,
            decimal_text(config.video_vp9_crf as nat),
            "-row-mt"@,
            "1"@,
            "-c:a"@,
            "libopus"@,
            "-b:a"@,
            kbit_text(config.audio_bitrate_k),
            "-f"@,
            "webm"@,
        ],
{
    let mut args: Vec<String> = Vec::new();
    push_text(&mut args, "-c:v");
    push_text(&mut args, "libvpx-vp9");
    push_text(&mut args, "-b:v");
    push_text(&mut args, "0");
    push_text(&mut args, "-crf");
    push_owned(&mut args, decimal(config.video_vp9_crf as u64));
    push_text(&mut args, "-row-mt");
    push_text(&mut args, "1");
    push_text(&mut args, "-c:a");
    push_text(&mut args, "libopus");
    push_text(&mut args, "-b:a");
    push_owned(&mut args, kbit(config.audio_bitrate_k));
    push_text(&mut args, "-f");
    push_text(&mut args, "webm");
    args
}

/// The animated WebP codec arguments.
fn gif_codec() -> (args: Vec<String>)
    ensures
        views(args@) == seq!["-vcodec"@, "webp"@, "-pix_fmt"@, "yuv420p"@, "-f"@, "webp"@],
{
    let mut args: Vec<String> = Vec::new();
    push_text(&mut args, "-vcodec");
    push_text(&mut args, "webp");
    push_text(&mut args, "-pix_fmt");
    push_text(&mut args, "yuv420p");
    push_text(&mut args, "-f");
    push_text(&mut args, "webp");
    args
}

/// Builds [`video_codec_args`].
fn video_codec(config: &CompressionConfig, ext: &str) -> (r: Option<Vec<String>>)
    ensures
        match r {
            Some(args) => video_codec_args(*config, ext@) == Some(views(args@)),
            None => video_codec_args(*config, ext@) is None,
        },
{
    if same_text(ext, "mp4") {
        Some(x264_codec(config, "mp4"))
    } else if same_text(ext, "mkv") {
        Some(x264_codec(config, "matroska"))
    } else if same_text(ext, "avi") {
        Some(x264_codec(config, "avi"))
    } else if same_text(ext, "webm") || same_text(ext, "ogv") {
        Some(vp9_codec(config))
    } else if same_text(ext, "gif") {
        Some(gif_codec())
    } else {
        None
    }
}

/// Builds [`video_args`] for the video `input` with lowercase extension `ext`.
pub fn video_encode_args(input: &str, output: &str, config: &CompressionConfig, ext: &str) -> (r:
    Option<Vec<String>>)
    ensures
        match r {
            Some(args) => video_args(input@, output@, *config, ext@) == Some(views(args@)),
            None => video_args(input@, output@, *config, ext@) is None,
        },
{
    let codec = match video_codec(config, ext) {
        Some(c) => c,
        None => return None,
    };
    let ghost codec_view = views(codec@);
    let mut args: Vec<String> = Vec::new();
    push_text(&mut args, "-y");
    push_text(&mut args, "-i");
    push_text(&mut args, input);
    push_text(&mut args, "-hide_banner");
    match config.max_resolution_px {
        Some(m) => push_scale(&mut args, m, true),
        None => {},
    }
    let ghost head = views(args@);
    assert(head =~= seq!["-y"@, "-i"@, input@, "-hide_banner"@] + video_scale_args(*config));
    append_args(&mut args, codec);
    push_text(&mut args, output);
    assert(views(args@) =~= head + codec_view + seq![output@]);
    Some(args)
}

// ---------------------------------------------------------------------------
// WebP header
// ---------------------------------------------------------------------------

/// Where in a WebP file the RIFF chunk size is stored.
pub const WEBP_RIFF_SIZE_OFFSET: u64 = 4;

/// The smallest file that is given a corrected RIFF size.
pub const WEBP_MIN_PATCHED_SIZE: u64 = 12;

/// The little-endian bytes of the RIFF size of a file of `file_size` bytes: the size less
/// the 8 bytes of the RIFF header, kept to 32 bits.
pub open spec fn riff_size_bytes(file_size: nat) -> Seq<u8> {
    let r = ((file_size - 8) as nat) % 0x1_0000_0000;
    seq![
        (r % 256) as u8,
        ((r / 0x100) % 256) as u8,
        ((r / 0x1_0000) % 256) as u8,
        ((r / 0x100_0000) % 256) as u8,
    ]
}

/// A write that corrects the RIFF size in a WebP file's header.
#[derive(Debug)]
pub struct RiffSizePatch {
    /// The position in the file to write at.
    pub offset: u64,
    /// The bytes to write there.
    pub bytes: Vec<u8>,
}

/// The correction of the RIFF size field of a WebP file of `file_size` bytes, as `ffmpeg`
/// leaves it wrong; `None` for a file too small to be WebP, which is left alone.
pub fn webp_header_patch(file_size: u64) -> (r: Option<RiffSizePatch>)
    ensures
        match r {
            None => file_size < WEBP_MIN_PATCHED_SIZE,
            Some(p) => {
                &&& file_size >= WEBP_MIN_PATCHED_SIZE
                &&& p.offset == WEBP_RIFF_SIZE_OFFSET
                &&& p.bytes@ == riff_size_bytes(file_size as nat)
            },
        },
{
    if file_size < WEBP_MIN_PATCHED_SIZE {
        return None;
    }
    let x: u64 = file_size - 8;
    let r: u32 = x as u32;
    let b0: u8 = (r & 0xff) as u8;
    let b1: u8 = ((r >> 8) & 0xff) as u8;
    let b2: u8 = ((r >> 16) & 0xff) as u8;
    let b3: u8 = ((r >> 24) & 0xff) as u8;
    assert(r == x % 0x1_0000_0000) by (bit_vector)
        requires
            r == x as u32,
    ;
    assert(b0 == r % 256 && b1 == (r / 0x100) % 256 && b2 == (r / 0x1_0000) % 256 && b3 == (r
        / 0x100_0000) % 256) by (bit_vector)
        requires
            b0 == (r & 0xff) as u8,
            b1 == ((r >> 8) & 0xff) as u8,
            b2 == ((r >> 16) & 0xff) as u8,
            b3 == ((r >> 24) & 0xff) as u8,
    ;
    let mut bytes: Vec<u8> = Vec::new();
    bytes.push(b0);
    bytes.push(b1);
    bytes.push(b2);
    bytes.push(b3);
    assert(bytes@ =~= riff_size_bytes(file_size as nat));
    Some(RiffSizePatch { offset: WEBP_RIFF_SIZE_OFFSET, bytes })
}

/// The patched header field reads back, little-endian, as the file size less the 8 bytes of
/// the RIFF header, kept to 32 bits.
pub proof fn lemma_riff_size_round_trip(file_size: u64)
    requires
        file_size >= WEBP_MIN_PATCHED_SIZE,
    ensures
        ({
            let b = riff_size_bytes(file_size as nat);
            b[0] + 0x100 * b[1] + 0x1_0000 * b[2] + 0x100_0000 * b[3] == (file_size - 8)
                % 0x1_0000_0000
        }),
{
    let b = riff_size_bytes(file_size as nat);
    let x: u64 = (file_size - 8) as u64;
    let r: u32 = (x % 0x1_0000_0000) as u32;
    assert(b[0] == r % 256 && b[1] == (r / 0x100) % 256 && b[2] == (r / 0x1_0000) % 256 && b[3]
        == (r / 0x100_0000) % 256);
    assert(r % 256 + 0x100 * ((r / 0x100) % 256) + 0x1_0000 * ((r / 0x1_0000) % 256) + 0x100_0000
        * ((r / 0x100_0000) % 256) == r) by (bit_vector);
}

// ---------------------------------------------------------------------------
// Laws
// ---------------------------------------------------------------------------

/// Every video that is recompressed and has a largest size set is scaled to fit `m` by `m`
/// pixels and padded to even sides, whatever its codec: `-vf` and that filter come right
/// after `-hide_banner`.
pub proof fn lemma_every_video_is_scaled(
    input: Seq<char>,
    output: Seq<char>,
    config: CompressionConfig,
    ext: Seq<char>,
    m: u32,
)
    requires
        config.max_resolution_px == Some(m),
        video_args(input, output, config, ext) is Some,
    ensures
        ({
            let a = video_args(input, output, config, ext)->0;
            &&& a.len() > 6
            &&& a.take(6) == seq![
                "-y"@,
                "-i"@,
                input,
                "-hide_banner"@,
                "-vf"@,
                "scale="@ + decimal_text(m as nat) + ":"@ + decimal_text(m as nat)
                    + ":force_original_aspect_ratio=decrease"@ + ",pad=ceil(iw/2)*2:ceil(ih/2)*2"@,
            ]
        }),
{
    let a = video_args(input, output, config, ext)->0;
    let codec = video_codec_args(config, ext)->0;
    assert(a.take(6) =~= seq![
        "-y"@,
        "-i"@,
        input,
        "-hide_banner"@,
        "-vf"@,
        "scale="@ + decimal_text(m as nat) + ":"@ + decimal_text(m as nat)
            + ":force_original_aspect_ratio=decrease"@ + ",pad=ceil(iw/2)*2:ceil(ih/2)*2"@,
    ]);
}

/// Without a largest size no video is scaled: the codec follows `-hide_banner` at once.
pub proof fn lemma_unsized_video_is_not_scaled(
    input: Seq<char>,
    output: Seq<char>,
    config: CompressionConfig,
    ext: Seq<char>,
)
    requires
        config.max_resolution_px is None,
        video_args(input, output, config, ext) is Some,
    ensures
        ({
            let a = video_args(input, output, config, ext)->0;
            &&& a.len() > 5
            &&& a.take(4) == seq!["-y"@, "-i"@, input, "-hide_banner"@]
            &&& a[4] == "-c:v"@ || a[4] == "-vcodec"@
        }),
{
    let a = video_args(input, output, config, ext)->0;
    assert(a.take(4) =~= seq!["-y"@, "-i"@, input, "-hide_banner"@]);
}

/// The videos that are recompressed are exactly those with extension mp4, mkv, avi, webm,
/// ogv or gif.
pub proof fn lemma_video_extensions(
    input: Seq<char>,
    output: Seq<char>,
    config: CompressionConfig,
    ext: Seq<char>,
)
    ensures
        video_args(input, output, config, ext) is Some <==> (ext == "mp4"@ || ext == "mkv"@ || ext
            == "avi"@ || ext == "webm"@ || ext == "ogv"@ || ext == "gif"@),
{
}

/// The explicit scaling arguments for a picture.
pub open spec fn picture_scaling(config: CompressionConfig) -> Seq<Seq<char>> {
    match config.max_resolution_px {
        Some(m) => seq![
            "-vf"@,
            "scale="@ + decimal_text(m as nat) + ":"@ + decimal_text(m as nat)
                + ":force_original_aspect_ratio=decrease"@,
        ],
        None => Seq::<Seq<char>>::empty(),
    }
}

/// `jpg` and `jpeg` name the same format and give the same job: JPEG output with the
/// configured JPEG quality, in the `image2` format, with no WebP header to fix.
pub proof fn lemma_jpeg_spellings_agree(
    input: Seq<char>,
    output: Seq<char>,
    config: CompressionConfig,
)
    ensures
        image_args(input, output, config, "jpg"@) == image_args(input, output, config, "jpeg"@),
        image_args(input, output, config, "jpg"@) == Some(
            (
                seq!["-y"@, "-i"@, input] + picture_scaling(config) + seq![
                    "-c:v"@,
                    "mjpeg"@,
                    "-q:v"@,
                    decimal_text(config.img_jpg_q as nat),
                    "-f"@,
                    "image2"@,
                    output,
                ],
                false,
            ),
        ),
{
    reveal_strlit("jpg");
    reveal_strlit("jpeg");
    reveal_strlit("png");
    reveal_strlit("webp");
    assert("jpg"@ != "png"@ && "jpg"@ != "webp"@) by {
        assert("jpg"@[0] != "png"@[0] && "jpg"@[0] != "webp"@[0]);
    }
    assert("jpeg"@ != "png"@ && "jpeg"@ != "webp"@) by {
        assert("jpeg"@[0] != "png"@[0] && "jpeg"@[0] != "webp"@[0]);
    }
    assert(scale_args(config) == picture_scaling(config));
    assert(seq!["-y"@, "-i"@, input] + picture_scaling(config) + seq![
        "-c:v"@,
        "mjpeg"@,
        "-q:v"@,
        decimal_text(config.img_jpg_q as nat),
        "-f"@,
        "image2"@,
    ] + seq![output] =~= seq!["-y"@, "-i"@, input] + picture_scaling(config) + seq![
        "-c:v"@,
        "mjpeg"@,
        "-q:v"@,
        decimal_text(config.img_jpg_q as nat),
        "-f"@,
        "image2"@,
        output,
    ]);
}

/// `png` and `webp` images both become WebP with the configured WebP quality, and the
/// output's header is then fixed.
pub proof fn lemma_png_and_webp_become_webp(
    input: Seq<char>,
    output: Seq<char>,
    config: CompressionConfig,
)
    ensures
        image_args(input, output, config, "png"@) == image_args(input, output, config, "webp"@),
        image_args(input, output, config, "png"@) == Some(
            (
                seq!["-y"@, "-i"@, input] + picture_scaling(config) + seq![
                    "-c:v"@,
                    "libwebp"@,
                    "-qscale:v"@,
                    decimal_text(config.img_webp_q as nat),
                    "-f"@,
                    "webp"@,
                    output,
                ],
                true,
            ),
        ),
{
    assert(scale_args(config) == picture_scaling(config));
    assert(seq!["-y"@, "-i"@, input] + picture_scaling(config) + seq![
        "-c:v"@,
        "libwebp"@,
        "-qscale:v"@,
        decimal_text(config.img_webp_q as nat),
        "-f"@,
        "webp"@,
    ] + seq![output] =~= seq!["-y"@, "-i"@, input] + picture_scaling(config) + seq![
        "-c:v"@,
        "libwebp"@,
        "-qscale:v"@,
        decimal_text(config.img_webp_q as nat),
        "-f"@,
        "webp"@,
        output,
    ]);
}

/// The images that are recompressed are exactly those with extension png, webp, jpg or jpeg.
pub proof fn lemma_image_extensions(
    input: Seq<char>,
    output: Seq<char>,
    config: CompressionConfig,
    ext: Seq<char>,
)
    ensures
        image_args(input, output, config, ext) is Some <==> (ext == "png"@ || ext == "webp"@ || ext
            == "jpg"@ || ext == "jpeg"@),
{
}

/// The audio files that are recompressed are exactly those with extension wav, opus, ogg or
/// mp3, and WAV is treated exactly as Opus.
pub proof fn lemma_audio_extensions(
    input: Seq<char>,
    output: Seq<char>,
    config: CompressionConfig,
    ext: Seq<char>,
)
    ensures
        audio_args(input, output, config, ext) is Some <==> (ext == "wav"@ || ext == "opus"@ || ext
            == "ogg"@ || ext == "mp3"@),
        audio_args(input, output, config, "wav"@) == audio_args(input, output, config, "opus"@),
{
    reveal_strlit("wav");
    reveal_strlit("opus");
    reveal_strlit("ogg");
    reveal_strlit("mp3");
    assert("opus"@ != "wav"@) by {
        assert("opus"@[0] != "wav"@[0]);
    }
}

/// The audio jobs in full: metadata and any video stream are dropped, WAV and Opus become
/// Opus at the configured bitrate in kbit/s at the highest compression level, Ogg stays
/// Ogg/Opus at that bitrate, MP3 stays MP3 at that bitrate.
pub proof fn lemma_audio_jobs(input: Seq<char>, output: Seq<char>, config: CompressionConfig)
    ensures
        ({
            let head = seq!["-y"@, "-i"@, input, "-map_metadata"@, "-1"@, "-vn"@];
            let br = decimal_text(config.audio_bitrate_k as nat) + "k"@;
            &&& audio_args(input, output, config, "wav"@) == Some(
                head + seq![
                    "-c:a"@,
                    "libopus"@,
                    "-b:a"@,
                    br,
                    "-vbr"@,
                    "on"@,
                    "-compression_level"@,
                    "10"@,
                    "-f"@,
                    "opus"@,
                    output,
                ],
            )
            &&& audio_args(input, output, config, "ogg"@) == Some(
                head + seq![
                    "-c:a"@,
                    "libopus"@,
                    "-b:a"@,
                    br,
                    "-vbr"@,
                    "on"@,
                    "-f"@,
                    "ogg"@,
                    output,
                ],
            )
            &&& audio_args(input, output, config, "mp3"@) == Some(
                head + seq!["-c:a"@, "libmp3lame"@, "-b:a"@, br, "-f"@, "mp3"@, output],
            )
        }),
{
    reveal_strlit("wav");
    reveal_strlit("opus");
    reveal_strlit("ogg");
    reveal_strlit("mp3");
    assert("ogg"@ != "wav"@ && "ogg"@ != "opus"@) by {
        assert("ogg"@[0] != "wav"@[0] && "ogg"@.len() != "opus"@.len());
    }
    assert("mp3"@ != "wav"@ && "mp3"@ != "opus"@ && "mp3"@ != "ogg"@) by {
        assert("mp3"@[0] != "wav"@[0] && "mp3"@[0] != "opus"@[0] && "mp3"@[0] != "ogg"@[0]);
    }
    let head = seq!["-y"@, "-i"@, input, "-map_metadata"@, "-1"@, "-vn"@];
    let br = decimal_text(config.audio_bitrate_k as nat) + "k"@;
    assert(head + audio_codec_args(config, "wav"@)->0 + seq![output] =~= head + seq![
        "-c:a"@,
        "libopus"@,
        "-b:a"@,
        br,
        "-vbr"@,
        "on"@,
        "-compression_level"@,
        "10"@,
        "-f"@,
        "opus"@,
        output,
    ]);
    assert(head + audio_codec_args(config, "ogg"@)->0 + seq![output] =~= head + seq![
        "-c:a"@,
        "libopus"@,
        "-b:a"@,
        br,
        "-vbr"@,
        "on"@,
        "-f"@,
        "ogg"@,
        output,
    ]);
    assert(head + audio_codec_args(config, "mp3"@)->0 + seq![output] =~= head + seq![
        "-c:a"@,
        "libmp3lame"@,
        "-b:a"@,
        br,
        "-f"@,
        "mp3"@,
        output,
    ]);
}

/// The video codecs in full, after the header and any scaling: MP4, Matroska and AVI get
/// H.264 at the configured rate factor with the fast preset and AAC audio at the configured
/// bitrate, each in its own container; WebM and Ogg video get VP9 in constant-quality mode at
/// the configured rate factor, row multithreading, and Opus audio at that bitrate in WebM; GIF
/// becomes animated WebP in 4:2:0.
pub proof fn lemma_video_codecs(config: CompressionConfig)
    ensures
        ({
            let br = decimal_text(config.audio_bitrate_k as nat) + "k"@;
            let x264 = seq![
                "-c:v"@,
                "libx264"@,
                "-crf"@,
                decimal_text(config.video_x264_crf as nat),
                "-preset"@,
                "fast"@,
                "-c:a"@,
                "aac"@,
                "-b:a"@,
                br,
                "-f"@,
            ];
            let vp9 = seq![
                "-c:v"@,
                "libvpx-vp9"@,
                "-b:v"@,
                "0"@,
                "-crf"@,
                decimal_text(config.video_vp9_crf as nat),
                "-row-mt"@,
                "1"@,
                "-c:a"@,
                "libopus"@,
                "-b:a"@,
                br,
                "-f"@,
                "webm"@,
            ];
            &&& video_codec_args(config, "mp4"@) == Some(x264.push("mp4"@))
            &&& video_codec_args(config, "mkv"@) == Some(x264.push("matroska"@))
            &&& video_codec_args(config, "avi"@) == Some(x264.push("avi"@))
            &&& video_codec_args(config, "webm"@) == Some(vp9)
            &&& video_codec_args(config, "ogv"@) == Some(vp9)
            &&& video_codec_args(config, "gif"@) == Some(
                seq!["-vcodec"@, "webp"@, "-pix_fmt"@, "yuv420p"@, "-f"@, "webp"@],
            )
        }),
{
    reveal_strlit("mp4");
    reveal_strlit("mkv");
    reveal_strlit("avi");
    reveal_strlit("webm");
    reveal_strlit("ogv");
    reveal_strlit("gif");
    assert("mkv"@ != "mp4"@) by {
        assert("mkv"@[1] != "mp4"@[1]);
    }
    assert("avi"@ != "mp4"@ && "avi"@ != "mkv"@) by {
        assert("avi"@[0] != "mp4"@[0] && "avi"@[0] != "mkv"@[0]);
    }
    assert("webm"@ != "mp4"@ && "webm"@ != "mkv"@ && "webm"@ != "avi"@) by {
        assert("webm"@[0] != "mp4"@[0] && "webm"@[0] != "mkv"@[0] && "webm"@[0] != "avi"@[0]);
    }
    assert("ogv"@ != "mp4"@ && "ogv"@ != "mkv"@ && "ogv"@ != "avi"@ && "ogv"@ != "webm"@) by {
        assert("ogv"@[0] != "mp4"@[0] && "ogv"@[0] != "mkv"@[0] && "ogv"@[0] != "avi"@[0]
            && "ogv"@[0] != "webm"@[0]);
    }
    assert("gif"@ != "mp4"@ && "gif"@ != "mkv"@ && "gif"@ != "avi"@ && "gif"@ != "webm"@ && "gif"@
        != "ogv"@) by {
        assert("gif"@[0] != "mp4"@[0] && "gif"@[0] != "mkv"@[0] && "gif"@[0] != "avi"@[0]
            && "gif"@[0] != "webm"@[0] && "gif"@[0] != "ogv"@[0]);
    }
    let br = decimal_text(config.audio_bitrate_k as nat) + "k"@;
    let x264 = seq![
        "-c:v"@,
        "libx264"@,
        "-crf"@,
        decimal_text(config.video_x264_crf as nat),
        "-preset"@,
        "fast"@,
        "-c:a"@,
        "aac"@,
        "-b:a"@,
        br,
        "-f"@,
    ];
    assert(video_codec_args(config, "mp4"@)->0 =~= x264.push("mp4"@));
    assert(video_codec_args(config, "mkv"@)->0 =~= x264.push("matroska"@));
    assert(video_codec_args(config, "avi"@)->0 =~= x264.push("avi"@));
}

/// The argument list of a recompressed video is its header, then any scaling, then its codec,
/// then the output.
pub proof fn lemma_video_args_layout(
    input: Seq<char>,
    output: Seq<char>,
    config: CompressionConfig,
    ext: Seq<char>,
)
    requires
        video_codec_args(config, ext) is Some,
    ensures
        video_args(input, output, config, ext) == Some(
            seq!["-y"@, "-i"@, input, "-hide_banner"@] + match config.max_resolution_px {
                Some(m) => seq![
                    "-vf"@,
                    "scale="@ + decimal_text(m as nat) + ":"@ + decimal_text(m as nat)
                        + ":force_original_aspect_ratio=decrease"@
                        + ",pad=ceil(iw/2)*2:ceil(ih/2)*2"@,
                ],
                None => Seq::<Seq<char>>::empty(),
            } + video_codec_args(config, ext)->0 + seq![output],
        ),
{
}

/// The RIFF size field sits at byte 4, right after the four-byte `RIFF` tag, and only files
/// of at least 12 bytes (tag, size and `WEBP` form type) are patched.
pub proof fn lemma_riff_field_position()
    ensures
        WEBP_RIFF_SIZE_OFFSET == 4,
        WEBP_MIN_PATCHED_SIZE == 12,
{
}

} // verus!
