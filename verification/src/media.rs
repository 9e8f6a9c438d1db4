//! Which files are recompressed, what happens to each result, how the sizes
//! add up, and how many worker threads run.

use vstd::prelude::*;
use vstd::string::StringExecFns;
use crate::text::{lowercase, lowercased, parse_usize, parsed_usize, push_text, same_text, views};

verus! {

broadcast use vstd::string::group_string_axioms;

/// The kind of media a file holds, judged by its extension.
#[derive(Debug, Clone, Copy, PartialEq, Eq, Structural)]
pub enum MediaType {
    Image,
    Video,
    Audio,
    Ignore,
}

/// The kind of media for a lowercase extension.
pub open spec fn media_type_of(ext: Seq<char>) -> MediaType {
    if ext == "png"@ || ext == "jpg"@ || ext == "jpeg"@ || ext == "webp"@ || ext == "bmp"@ {
        MediaType::Image
    } else if ext == "webm"@ || ext == "mp4"@ || ext == "mkv"@ || ext == "ogv"@ || ext == "avi"@
        || ext == "mpg"@ || ext == "m4v"@ || ext == "gif"@ {
        MediaType::Video
    } else if ext == "mp3"@ || ext == "wav"@ || ext == "ogg"@ || ext == "opus"@ {
        MediaType::Audio
    } else {
        MediaType::Ignore
    }
}

/// The kind of media for a lowercase extension.
pub fn determine_media_type(ext: &str) -> (t: MediaType)
    ensures
        t == media_type_of(ext@),
{
    if same_text(ext, "png") || same_text(ext, "jpg") || same_text(ext, "jpeg") || same_text(
        ext,
        "webp",
    ) || same_text(ext, "bmp") {
        MediaType::Image
    } else if same_text(ext, "webm") || same_text(ext, "mp4") || same_text(ext, "mkv")
        || same_text(ext, "ogv") || same_text(ext, "avi") || same_text(ext, "mpg") || same_text(
        ext,
        "m4v",
    ) || same_text(ext, "gif") {
        MediaType::Video
    } else if same_text(ext, "mp3") || same_text(ext, "wav") || same_text(ext, "ogg")
        || same_text(ext, "opus") {
        MediaType::Audio
    } else {
        MediaType::Ignore
    }
}

/// The kind of media for a file extension in any case.
pub fn classify_extension(ext: &str) -> (t: MediaType)
    ensures
        t == media_type_of(lowercased(ext@)),
{
    let lower = lowercase(ext);
    determine_media_type(lower.as_str())
}

// ---------------------------------------------------------------------------
// Results of recompression
// ---------------------------------------------------------------------------

/// What becomes of a file after its recompression was tried.
#[derive(Debug, Clone, Copy, PartialEq, Eq, Structural)]
pub enum Outcome {
    /// The smaller new file replaces the original.
    Replaced,
    /// The new file is empty or no smaller, so it is deleted and the original stays.
    KeptOriginal,
    /// The encoder failed; any partial output is deleted and the original stays.
    Failed,
}

/// The fate of one file and the size it has afterwards.
#[derive(Debug, Clone, Copy, PartialEq, Eq, Structural)]
pub struct Settlement {
    pub outcome: Outcome,
    pub final_bytes: u64,
}

/// The fate of a file of `orig_size` bytes whose encoder succeeded or not and, where it
/// succeeded, wrote `new_size` bytes: the new file is kept only where it is not empty and
/// strictly smaller.
pub fn settle_compression(success: bool, orig_size: u64, new_size: u64) -> (s: Settlement)
    ensures
        success && 0 < new_size < orig_size ==> s == (Settlement {
            outcome: Outcome::Replaced,
            final_bytes: new_size,
        }),
        success && !(0 < new_size < orig_size) ==> s == (Settlement {
            outcome: Outcome::KeptOriginal,
            final_bytes: orig_size,
        }),
        !success ==> s == (Settlement { outcome: Outcome::Failed, final_bytes: orig_size }),
        s.final_bytes <= orig_size,
{
    if success {
        if new_size > 0 && new_size < orig_size {
            Settlement { outcome: Outcome::Replaced, final_bytes: new_size }
        } else {
            Settlement { outcome: Outcome::KeptOriginal, final_bytes: orig_size }
        }
    } else {
        Settlement { outcome: Outcome::Failed, final_bytes: orig_size }
    }
}

// ---------------------------------------------------------------------------
// Size totals
// ---------------------------------------------------------------------------

/// 2^64, the modulus of the running totals.
pub open spec fn total_modulus() -> nat {
    0x1_0000_0000_0000_0000
}

/// The sum of the original sizes in `rs`, each a pair (original, final).
pub open spec fn total_original(rs: Seq<(u64, u64)>) -> nat
    decreases rs.len(),
{
    if rs.len() == 0 {
        0
    } else {
        total_original(rs.drop_last()) + rs.last().0 as nat
    }
}

/// The sum of the final sizes in `rs`, each a pair (original, final).
pub open spec fn total_final(rs: Seq<(u64, u64)>) -> nat
    decreases rs.len(),
{
    if rs.len() == 0 {
        0
    } else {
        total_final(rs.drop_last()) + rs.last().1 as nat
    }
}

/// Running totals of bytes before and after recompression. Like the atomic counters they
/// stand for, they wrap around at 2^64.
#[derive(Debug, Clone, Copy, PartialEq, Eq, Structural)]
pub struct SizeTotals {
    pub original_bytes: u64,
    pub final_bytes: u64,
}

impl SizeTotals {
    /// Totals of nothing.
    pub fn new() -> (t: SizeTotals)
        ensures
            t.original_bytes == 0,
            t.final_bytes == 0,
    {
        SizeTotals { original_bytes: 0, final_bytes: 0 }
    }

    /// Adds one file's sizes before and after, wrapping around at 2^64.
    pub fn record(&mut self, original: u64, final_size: u64)
        ensures
            final(self).original_bytes == ((old(self).original_bytes + original) as nat) % total_modulus(),
            final(self).final_bytes == ((old(self).final_bytes + final_size) as nat) % total_modulus(),
    {
        self.original_bytes = self.original_bytes.wrapping_add(original);
        self.final_bytes = self.final_bytes.wrapping_add(final_size);
    }

    /// The bytes saved: the original total less the final total, or 0 where it is not less.
    pub fn saved_bytes(&self) -> (s: u64)
        ensures
            s == if self.final_bytes <= self.original_bytes {
                (self.original_bytes - self.final_bytes) as u64
            } else {
                0
            },
    {
        self.original_bytes.saturating_sub(self.final_bytes)
    }
}

/// The totals over the per-file pairs (original size, final size).
pub fn tally(records: &Vec<(u64, u64)>) -> (t: SizeTotals)
    ensures
        t.original_bytes == total_original(records@) % total_modulus(),
        t.final_bytes == total_final(records@) % total_modulus(),
{
    let mut t = SizeTotals::new();
    let mut i: usize = 0;
    while i < records.len()
        invariant
            i <= records@.len(),
            t.original_bytes == total_original(records@.take(i as int)) % total_modulus(),
            t.final_bytes == total_final(records@.take(i as int)) % total_modulus(),
        decreases records@.len() - i,
    {
        let (o, f) = records[i];
        let ghost prefix = records@.take(i as int);
        let ghost next = records@.take(i + 1);
        assert(next.drop_last() =~= prefix);
        proof {
            vstd::arithmetic::div_mod::lemma_add_mod_noop(
                total_original(prefix) as int,
                o as int,
                total_modulus() as int,
            );
            vstd::arithmetic::div_mod::lemma_add_mod_noop(
                total_final(prefix) as int,
                f as int,
                total_modulus() as int,
            );
            vstd::arithmetic::div_mod::lemma_small_mod(o as nat, total_modulus());
            vstd::arithmetic::div_mod::lemma_small_mod(f as nat, total_modulus());
        }
        t.record(o, f);
        i = i + 1;
    }
    assert(records@.take(records@.len() as int) =~= records@);
    t
}

proof fn lemma_final_within_original(rs: Seq<(u64, u64)>)
    requires
        forall|i: int| 0 <= i < rs.len() ==> #[trigger] rs[i].1 <= rs[i].0,
    ensures
        total_final(rs) <= total_original(rs),
    decreases rs.len(),
{
    if rs.len() > 0 {
        let p = rs.drop_last();
        assert forall|i: int| 0 <= i < p.len() implies #[trigger] p[i].1 <= p[i].0 by {
            assert(p[i] == rs[i]);
        }
        lemma_final_within_original(p);
        assert(rs[rs.len() - 1].1 <= rs[rs.len() - 1].0);
    }
}

/// Recompression never makes the media larger: where no file ends larger than it began and
/// the original sizes add up to less than 2^64, the totals do not wrap, the final total is at
/// most the original one, and the bytes saved are exactly their difference.
pub proof fn lemma_totals_never_grow(rs: Seq<(u64, u64)>, t: SizeTotals)
    requires
        forall|i: int| 0 <= i < rs.len() ==> #[trigger] rs[i].1 <= rs[i].0,
        total_original(rs) < total_modulus(),
        t.original_bytes == total_original(rs) % total_modulus(),
        t.final_bytes == total_final(rs) % total_modulus(),
    ensures
        t.original_bytes == total_original(rs),
        t.final_bytes == total_final(rs),
        t.final_bytes <= t.original_bytes,
{
    lemma_final_within_original(rs);
    vstd::arithmetic::div_mod::lemma_small_mod(total_original(rs), total_modulus());
    vstd::arithmetic::div_mod::lemma_small_mod(total_final(rs), total_modulus());
}

// ---------------------------------------------------------------------------
// Worker threads
// ---------------------------------------------------------------------------

/// The thread count used when none is asked for: half the cores, at least one.
pub open spec fn default_threads(max_cores: usize) -> usize {
    if max_cores / 2 > 1 {
        (max_cores / 2) as usize
    } else {
        1
    }
}

/// `t` kept between 1 and `max_cores`.
pub open spec fn clamp_threads(t: usize, max_cores: usize) -> usize {
    if t < 1 {
        1
    } else if t > max_cores {
        max_cores
    } else {
        t
    }
}

/// The thread count for a request that was a number or not, as parsing found it.
pub fn thread_count_from_parsed(parsed: Option<usize>, max_cores: usize) -> (n: usize)
    requires
        max_cores >= 1,
    ensures
        n == clamp_threads(
            match parsed {
                Some(k) => k,
                None => default_threads(max_cores),
            },
            max_cores,
        ),
        1 <= n <= max_cores,
{
    let fallback: usize = if max_cores / 2 > 1 {
        max_cores / 2
    } else {
        1
    };
    let target = match parsed {
        Some(k) => k,
        None => fallback,
    };
    if target < 1 {
        1
    } else if target > max_cores {
        max_cores
    } else {
        target
    }
}

/// The thread count asked for, before it is kept within the cores.
pub open spec fn requested_threads(requested: Option<Seq<char>>, max_cores: usize) -> usize {
    match requested {
        None => default_threads(max_cores),
        Some(s) => if s == "max"@ {
            max_cores
        } else {
            match parsed_usize(s) {
                Some(k) => k,
                None => default_threads(max_cores),
            }
        },
    }
}

/// The number of worker threads for a machine with `max_cores` cores and the request
/// `requested`: `max` takes all cores, a number takes that many, anything else or nothing
/// takes half the cores; the result is always kept between 1 and `max_cores`.
pub fn choose_thread_count(requested: Option<&str>, max_cores: usize) -> (n: usize)
    requires
        max_cores >= 1,
    ensures
        n == clamp_threads(
            requested_threads(
                match requested {
                    Some(s) => Some(s@),
                    None => None,
                },
                max_cores,
            ),
            max_cores,
        ),
        1 <= n <= max_cores,
{
    match requested {
        None => thread_count_from_parsed(None, max_cores),
        Some(s) => {
            if same_text(s, "max") {
                max_cores
            } else {
                thread_count_from_parsed(parse_usize(s), max_cores)
            }
        },
    }
}

// ---------------------------------------------------------------------------
// Required tools
// ---------------------------------------------------------------------------

/// A program that must be installed, with arguments that make it run and exit at once.
#[derive(Debug)]
pub struct ToolProbe {
    pub program: String,
    pub args: Vec<String>,
}

/// The external programs the cruncher needs: `ffmpeg` (probed with `-version`) and `7z`
/// (probed with `-h`), in that order.
pub fn required_tools() -> (tools: Vec<ToolProbe>)
    ensures
        tools@.len() == 2,
        tools@[0].program@ == "ffmpeg"@,
        views(tools@[0].args@) == seq!["-version"@],
        tools@[1].program@ == "7z"@,
        views(tools@[1].args@) == seq!["-h"@],
{
    let mut ffmpeg_args: Vec<String> = Vec::new();
    push_text(&mut ffmpeg_args, "-version");
    let mut seven_zip_args: Vec<String> = Vec::new();
    push_text(&mut seven_zip_args, "-h");
    let mut tools: Vec<ToolProbe> = Vec::new();
    tools.push(ToolProbe { program: String::from_str("ffmpeg"), args: ffmpeg_args });
    tools.push(ToolProbe { program: String::from_str("7z"), args: seven_zip_args });
    tools
}

// ---------------------------------------------------------------------------
// Laws
// ---------------------------------------------------------------------------

/// Without a request half the cores are used (at least one); `max` uses every core; a number
/// is used as given but kept between 1 and the number of cores; anything else counts as no
/// request.
pub proof fn lemma_thread_requests(requested: Seq<char>, max_cores: usize)
    requires
        max_cores >= 1,
    ensures
        clamp_threads(requested_threads(None, max_cores), max_cores) == if max_cores >= 4 {
            max_cores / 2
        } else {
            1
        },
        requested == "max"@ ==> clamp_threads(requested_threads(Some(requested), max_cores), max_cores)
            == max_cores,
        requested != "max"@ && parsed_usize(requested) is Some ==> clamp_threads(
            requested_threads(Some(requested), max_cores),
            max_cores,
        ) == if parsed_usize(requested)->0 == 0 {
            1
        } else if parsed_usize(requested)->0 > max_cores {
            max_cores
        } else {
            parsed_usize(requested)->0
        },
        requested != "max"@ && parsed_usize(requested) is None ==> requested_threads(
            Some(requested),
            max_cores,
        ) == requested_threads(None, max_cores),
{
}

/// The classes of media by lowercase extension: png, jpg, jpeg, webp and bmp are images;
/// webm, mp4, mkv, ogv, avi, mpg, m4v and gif are videos; mp3, wav, ogg and opus are audio;
/// everything else is left alone.
pub proof fn lemma_media_classes(ext: Seq<char>)
    ensures
        media_type_of(ext) == MediaType::Image <==> (ext == "png"@ || ext == "jpg"@ || ext
            == "jpeg"@ || ext == "webp"@ || ext == "bmp"@),
        media_type_of(ext) == MediaType::Audio <==> (ext == "mp3"@ || ext == "wav"@ || ext
            == "ogg"@ || ext == "opus"@),
        media_type_of(ext) == MediaType::Ignore <==> !(ext == "png"@ || ext == "jpg"@ || ext
            == "jpeg"@ || ext == "webp"@ || ext == "bmp"@ || ext == "webm"@ || ext == "mp4"@ || ext
            == "mkv"@ || ext == "ogv"@ || ext == "avi"@ || ext == "mpg"@ || ext == "m4v"@ || ext
            == "gif"@ || ext == "mp3"@ || ext == "wav"@ || ext == "ogg"@ || ext == "opus"@),
{
    reveal_strlit("png");
    reveal_strlit("jpg");
    reveal_strlit("jpeg");
    reveal_strlit("webp");
    reveal_strlit("bmp");
    reveal_strlit("webm");
    reveal_strlit("mp4");
    reveal_strlit("mkv");
    reveal_strlit("ogv");
    reveal_strlit("avi");
    reveal_strlit("mpg");
    reveal_strlit("m4v");
    reveal_strlit("gif");
    reveal_strlit("mp3");
    reveal_strlit("wav");
    reveal_strlit("ogg");
    reveal_strlit("opus");
    let img = seq!["png"@, "jpg"@, "jpeg"@, "webp"@, "bmp"@];
    let vid = seq!["webm"@, "mp4"@, "mkv"@, "ogv"@, "avi"@, "mpg"@, "m4v"@, "gif"@];
    let aud = seq!["mp3"@, "wav"@, "ogg"@, "opus"@];
    assert forall|i: int, j: int| 0 <= i < 5 && 0 <= j < 8 implies img[i] != vid[j] by {
        assert(img[i][0] != vid[j][0] || img[i][1] != vid[j][1] || img[i].len() != vid[j].len()
            || img[i][2] != vid[j][2] || (img[i].len() > 3 && img[i][3] != vid[j][3]));
    }
    assert forall|i: int, j: int| 0 <= i < 5 && 0 <= j < 4 implies img[i] != aud[j] by {
        assert(img[i][0] != aud[j][0] || img[i][1] != aud[j][1] || img[i].len() != aud[j].len()
            || img[i][2] != aud[j][2]);
    }
    assert forall|i: int, j: int| 0 <= i < 8 && 0 <= j < 4 implies vid[i] != aud[j] by {
        assert(vid[i][0] != aud[j][0] || vid[i][1] != aud[j][1] || vid[i].len() != aud[j].len()
            || vid[i][2] != aud[j][2]);
    }
    assert(img[0] == "png"@ && img[1] == "jpg"@ && img[2] == "jpeg"@ && img[3] == "webp"@ && img[4]
        == "bmp"@);
    assert(vid[0] == "webm"@ && vid[1] == "mp4"@ && vid[2] == "mkv"@ && vid[3] == "ogv"@ && vid[4]
        == "avi"@ && vid[5] == "mpg"@ && vid[6] == "m4v"@ && vid[7] == "gif"@);
    assert(aud[0] == "mp3"@ && aud[1] == "wav"@ && aud[2] == "ogg"@ && aud[3] == "opus"@);
}

/// The totals start at zero and each further file adds exactly its own sizes.
pub proof fn lemma_totals_add_up(rs: Seq<(u64, u64)>, r: (u64, u64))
    ensures
        total_original(Seq::<(u64, u64)>::empty()) == 0,
        total_final(Seq::<(u64, u64)>::empty()) == 0,
        total_original(rs.push(r)) == total_original(rs) + r.0,
        total_final(rs.push(r)) == total_final(rs) + r.1,
{
    assert(rs.push(r).drop_last() =~= rs);
}

} // verus!
