//! Judging media files by what `ffprobe` reports of them.
//!
//! Running `ffprobe` and decoding its JSON happen outside the library; the
//! decoded report, or the error that stood in its way, is judged here.

use vstd::prelude::*;
use crate::executor::ExecResult;
use crate::order::{sort_ordered, sorted};
use crate::junk::{media_extensions, str_views};
use crate::text::{
    decimal, decimal_string, first_line, first_line_of, opt_view, owned, str_eq, trim,
    trim_str,
};

verus! {

broadcast use vstd::string::group_string_axioms;

/// The verdict on one media file.
#[derive(Debug, Clone, Copy, PartialEq, Eq, Structural)]
pub enum CheckStatus {
    Healthy,
    Corrupted,
    Unreadable,
    MissingAudio,
    MissingVideo,
    ZeroLength,
}

/// One stream of a media file, as `ffprobe` describes it.
#[derive(Debug)]
pub struct FfprobeStream {
    pub codec_type: Option<String>,
    pub codec_name: Option<String>,
    pub width: Option<u32>,
    pub height: Option<u32>,
}

/// The container of a media file, as `ffprobe` describes it.
#[derive(Debug)]
pub struct FfprobeFormat {
    /// The duration in seconds, as the decimal text `ffprobe` prints.
    pub duration: Option<String>,
}

/// The whole `ffprobe` report.
#[derive(Debug)]
pub struct FfprobeOutput {
    pub streams: Vec<FfprobeStream>,
    pub format: Option<FfprobeFormat>,
}

/// The outcome of checking one media file.
#[derive(Debug)]
pub struct MediaFileStatus {
    pub path: String,
    pub status: CheckStatus,
    pub details: String,
    /// The duration as `ffprobe` printed it (seconds, in decimal).
    pub duration: Option<String>,
    pub codec: Option<String>,
    pub resolution: Option<String>,
}

impl CheckStatus {
    /// The name of the status.
    pub open spec fn label(self) -> Seq<char> {
        match self {
            CheckStatus::Healthy => "ok"@,
            CheckStatus::Corrupted => "corrupted"@,
            CheckStatus::Unreadable => "unreadable"@,
            CheckStatus::MissingAudio => "missing-audio"@,
            CheckStatus::MissingVideo => "missing-video"@,
            CheckStatus::ZeroLength => "zero-length"@,
        }
    }

    /// The name of the status, as it is shown to the user.
    pub fn as_str(&self) -> (r: &'static str)
        ensures
            r@ == self.label(),
    {
        match self {
            CheckStatus::Healthy => "ok",
            CheckStatus::Corrupted => "corrupted",
            CheckStatus::Unreadable => "unreadable",
            CheckStatus::MissingAudio => "missing-audio",
            CheckStatus::MissingVideo => "missing-video",
            CheckStatus::ZeroLength => "zero-length",
        }
    }
}

/// The stream is of the given type (`video`, `audio`, …).
pub open spec fn is_kind(s: FfprobeStream, kind: Seq<char>) -> bool {
    match s.codec_type {
        Some(t) => t@ == kind,
        None => false,
    }
}

/// Some stream is of the given type.
pub open spec fn has_kind(streams: Seq<FfprobeStream>, kind: Seq<char>) -> bool {
    exists|i: int| 0 <= i < streams.len() && is_kind(streams[i], kind)
}

/// The first stream of the given type.
pub open spec fn first_of_kind(streams: Seq<FfprobeStream>, kind: Seq<char>) -> Option<
    FfprobeStream,
>
    decreases streams.len(),
{
    if streams.len() == 0 {
        None
    } else if is_kind(streams[0], kind) {
        Some(streams[0])
    } else {
        first_of_kind(streams.drop_first(), kind)
    }
}

/// `WIDTHxHEIGHT`, when the stream gives both.
pub open spec fn resolution_of(s: FfprobeStream) -> Option<Seq<char>> {
    match (s.width, s.height) {
        (Some(w), Some(h)) => Some(decimal(w as nat) + "x"@ + decimal(h as nat)),
        _ => None,
    }
}

/// The fields of a check's outcome besides the path: status, details,
/// duration, codec and resolution.
pub type Verdict = (CheckStatus, Seq<char>, Option<Seq<char>>, Option<Seq<char>>, Option<Seq<char>>);

/// What checking a file concludes from running `ffprobe` (`run`) and from
/// decoding its standard output (`probe`):
/// - `ffprobe` could not be run: unreadable;
/// - it failed: corrupted, with the first line of its errors;
/// - its report does not decode: corrupted;
/// - no video stream: missing video; no audio stream: missing audio;
/// - it printed warnings: corrupted, with the first line of them;
/// - otherwise the file is fine.
/// Duration, codec and resolution come from the report and from its first
/// video stream.
pub open spec fn media_verdict(run: Result<ExecResult, String>, probe: Result<FfprobeOutput, String>) -> Verdict {
    match run {
        Err(e) => (CheckStatus::Unreadable, "ffprobe execution failed: "@ + e@, None, None, None),
        Ok(r) => if !r.success {
            (
                CheckStatus::Corrupted,
                "ffprobe error: "@ + trim(first_line(r.stderr@)),
                None,
                None,
                None,
            )
        } else {
            match probe {
                Err(e) => (
                    CheckStatus::Corrupted,
                    "failed to parse ffprobe output: "@ + e@,
                    None,
                    None,
                    None,
                ),
                Ok(p) => {
                    let video = first_of_kind(p.streams@, "video"@);
                    let codec = match video {
                        Some(s) => opt_view(s.codec_name),
                        None => None,
                    };
                    let resolution = match video {
                        Some(s) => resolution_of(s),
                        None => None,
                    };
                    let duration = match p.format {
                        Some(f) => opt_view(f.duration),
                        None => None,
                    };
                    if !has_kind(p.streams@, "video"@) {
                        (
                            CheckStatus::MissingVideo,
                            "no video stream found"@,
                            duration,
                            codec,
                            resolution,
                        )
                    } else if !has_kind(p.streams@, "audio"@) {
                        (
                            CheckStatus::MissingAudio,
                            "no audio stream found (video-only file)"@,
                            duration,
                            codec,
                            resolution,
                        )
                    } else if r.stderr@.len() != 0 {
                        (
                            CheckStatus::Corrupted,
                            "ffprobe warnings: "@ + trim(first_line(r.stderr@)),
                            duration,
                            codec,
                            resolution,
                        )
                    } else {
                        (CheckStatus::Healthy, "file is valid"@, duration, codec, resolution)
                    }
                },
            }
        },
    }
}

/// Whether the stream is of the given type.
pub fn stream_is(s: &FfprobeStream, kind: &str) -> (r: bool)
    ensures
        r == is_kind(*s, kind@),
{
    match &s.codec_type {
        Some(t) => str_eq(t.as_str(), kind),
        None => false,
    }
}

/// The position of the first stream of the given type.
pub fn first_stream_of(streams: &Vec<FfprobeStream>, kind: &str) -> (r: Option<usize>)
    ensures
        match (r, first_of_kind(streams@, kind@)) {
            (Some(i), Some(s)) => i < streams@.len() && streams@[i as int] == s,
            (None, None) => true,
            _ => false,
        },
        r is None <==> !has_kind(streams@, kind@),
{
    assert(streams@.skip(0) =~= streams@);
    for i in 0..streams.len()
        invariant
            first_of_kind(streams@, kind@) == first_of_kind(streams@.skip(i as int), kind@),
            forall|k: int| 0 <= k < i ==> !is_kind(streams@[k], kind@),
    {
        let ghost t = streams@.skip(i as int);
        assert(t[0] == streams@[i as int]);
        assert(t.drop_first() =~= streams@.skip(i + 1));
        if stream_is(&streams[i], kind) {
            return Some(i);
        }
    }
    assert(streams@.skip(streams.len() as int) =~= Seq::<FfprobeStream>::empty());
    None
}

/// Copies an optional string.
fn copy_opt(o: &Option<String>) -> (r: Option<String>)
    ensures
        opt_view(r) == opt_view(*o),
{
    match o {
        Some(s) => Some(s.clone()),
        None => None,
    }
}

/// `WIDTHxHEIGHT` of a stream that gives both.
pub fn stream_resolution(s: &FfprobeStream) -> (r: Option<String>)
    ensures
        opt_view(r) == resolution_of(*s),
{
    match (s.width, s.height) {
        (Some(w), Some(h)) => {
            let mut r = decimal_string(w as u64);
            r.append("x");
            let hs = decimal_string(h as u64);
            r.append(hs.as_str());
            Some(r)
        },
        _ => None,
    }
}

/// Checks one media file from the outcome of running `ffprobe` on it and the
/// decoding of that run's standard output (consulted only when the run
/// succeeded).
pub fn check_file(file: &str, run: &Result<ExecResult, String>, probe: &Result<FfprobeOutput, String>) -> (r:
    MediaFileStatus)
    ensures
        r.path@ == file@,
        (r.status, r.details@, opt_view(r.duration), opt_view(r.codec), opt_view(r.resolution))
            == media_verdict(*run, *probe),
{
    let result = match run {
        Err(e) => {
            let mut d = owned("ffprobe execution failed: ");
            d.append(e.as_str());
            return MediaFileStatus {
                path: owned(file),
                status: CheckStatus::Unreadable,
                details: d,
                duration: None,
                codec: None,
                resolution: None,
            };
        },
        Ok(r) => r,
    };
    if !result.success {
        let line = first_line_of(result.stderr.as_str());
        let t = trim_str(line.as_str());
        let mut d = owned("ffprobe error: ");
        d.append(t.as_str());
        return MediaFileStatus {
            path: owned(file),
            status: CheckStatus::Corrupted,
            details: d,
            duration: None,
            codec: None,
            resolution: None,
        };
    }
    let p = match probe {
        Err(e) => {
            let mut d = owned("failed to parse ffprobe output: ");
            d.append(e.as_str());
            return MediaFileStatus {
                path: owned(file),
                status: CheckStatus::Corrupted,
                details: d,
                duration: None,
                codec: None,
                resolution: None,
            };
        },
        Ok(p) => p,
    };
    let video = first_stream_of(&p.streams, "video");
    let audio = first_stream_of(&p.streams, "audio");
    let (codec, resolution) = match video {
        Some(i) => (copy_opt(&p.streams[i].codec_name), stream_resolution(&p.streams[i])),
        None => (None, None),
    };
    let duration = match &p.format {
        Some(f) => copy_opt(&f.duration),
        None => None,
    };
    if video.is_none() {
        return MediaFileStatus {
            path: owned(file),
            status: CheckStatus::MissingVideo,
            details: owned("no video stream found"),
            duration,
            codec,
            resolution,
        };
    }
    if audio.is_none() {
        return MediaFileStatus {
            path: owned(file),
            status: CheckStatus::MissingAudio,
            details: owned("no audio stream found (video-only file)"),
            duration,
            codec,
            resolution,
        };
    }
    if !result.stderr.as_str().is_empty() {
        let line = first_line_of(result.stderr.as_str());
        let t = trim_str(line.as_str());
        let mut d = owned("ffprobe warnings: ");
        d.append(t.as_str());
        return MediaFileStatus {
            path: owned(file),
            status: CheckStatus::Corrupted,
            details: d,
            duration,
            codec,
            resolution,
        };
    }
    MediaFileStatus {
        path: owned(file),
        status: CheckStatus::Healthy,
        details: owned("file is valid"),
        duration,
        codec,
        resolution,
    }
}

/// How many results are fine.
pub open spec fn count_ok(results: Seq<MediaFileStatus>) -> nat
    decreases results.len(),
{
    if results.len() == 0 {
        0
    } else {
        count_ok(results.drop_last()) + if results.last().status == CheckStatus::Healthy {
            1nat
        } else {
            0nat
        }
    }
}

/// The positions of the results that are not fine, in order.
pub open spec fn problem_positions(results: Seq<MediaFileStatus>) -> Seq<usize>
    decreases results.len(),
{
    if results.len() == 0 {
        seq![]
    } else {
        problem_positions(results.drop_last()) + if results.last().status != CheckStatus::Healthy {
            seq![(results.len() - 1) as usize]
        } else {
            seq![]
        }
    }
}

/// Counts the files that passed.
pub fn ok_count(results: &Vec<MediaFileStatus>) -> (n: usize)
    ensures
        n == count_ok(results@),
{
    let mut n: usize = 0;
    for i in 0..results.len()
        invariant
            n == count_ok(results@.take(i as int)),
            n <= i,
    {
        assert(results@.take(i + 1).drop_last() =~= results@.take(i as int));
        if results[i].status == CheckStatus::Healthy {
            n = n + 1;
        }
    }
    assert(results@.take(results.len() as int) =~= results@);
    n
}

/// The positions of the files with problems, in order.
pub fn problems(results: &Vec<MediaFileStatus>) -> (r: Vec<usize>)
    ensures
        r@ == problem_positions(results@),
        forall|i: int|
            0 <= i < results@.len() ==> (r@.contains(i as usize) <==> (#[trigger] results@[i]).status
                != CheckStatus::Healthy),
{
    let mut r: Vec<usize> = Vec::new();
    for i in 0..results.len()
        invariant
            r@ == problem_positions(results@.take(i as int)),
    {
        assert(results@.take(i + 1).drop_last() =~= results@.take(i as int));
        if results[i].status != CheckStatus::Healthy {
            r.push(i);
        }
    }
    assert(results@.take(results.len() as int) =~= results@);
    proof {
        lemma_problems_exact(results@);
    }
    r
}

/// The lists of one or more folders, one after the other.
pub open spec fn concat_all(lists: Seq<Vec<String>>) -> Seq<String>
    decreases lists.len(),
{
    if lists.len() == 0 {
        seq![]
    } else {
        concat_all(lists.drop_last()) + lists.last()@
    }
}

/// The media files found in all folders, in path order.
pub fn media_file_list(found: &Vec<Vec<String>>) -> (r: Vec<String>)
    ensures
        sorted(r@),
        r@.to_multiset() == concat_all(found@).to_multiset(),
{
    let mut all: Vec<String> = Vec::new();
    for i in 0..found.len()
        invariant
            all@ == concat_all(found@.take(i as int)),
    {
        let ghost start = all@;
        let group = &found[i];
        for j in 0..group.len()
            invariant
                i < found@.len(),
                *group == found@[i as int],
                all@ == start + found@[i as int]@.take(j as int),
        {
            all.push(group[j].clone());
            assert(found@[i as int]@.take(j + 1) =~= found@[i as int]@.take(j as int).push(
                found@[i as int]@[j as int],
            ));
            assert(start + found@[i as int]@.take(j + 1) =~= (start + found@[i as int]@.take(
                j as int,
            )).push(found@[i as int]@[j as int]));
        }
        assert(found@[i as int]@.take(found@[i as int]@.len() as int) =~= found@[i as int]@);
        assert(found@.take(i + 1).drop_last() =~= found@.take(i as int));
    }
    assert(found@.take(found.len() as int) =~= found@);
    sort_ordered(all)
}

/// A file passes only when `ffprobe` ran and succeeded without a word on
/// stderr, its report decoded, and it has both a video and an audio stream.
pub proof fn lemma_healthy_is_sound(run: Result<ExecResult, String>, probe: Result<FfprobeOutput, String>)
    ensures
        media_verdict(run, probe).0 == CheckStatus::Healthy ==> {
            &&& run is Ok
            &&& run->Ok_0.success
            &&& run->Ok_0.stderr@.len() == 0
            &&& probe is Ok
            &&& has_kind(probe->Ok_0.streams@, "video"@)
            &&& has_kind(probe->Ok_0.streams@, "audio"@)
        },
{
}

/// The extensions of the media files to check.
pub fn media_extension_list() -> (r: [&'static str; 11])
    ensures
        str_views(r@) == media_extensions(),
{
    let r: [&'static str; 11] = [
        "mkv",
        "mp4",
        "avi",
        "mov",
        "wmv",
        "flv",
        "webm",
        "m4v",
        "mpg",
        "mpeg",
        "ts",
    ];
    assert(str_views(r@) =~= media_extensions());
    r
}

/// The problem list is exactly the results that are not fine: a position
/// is in it when, and only when, that file's status is not `Healthy`, so the
/// files that passed and the files with problems together are all the
/// files checked.
pub proof fn lemma_problems_exact(results: Seq<MediaFileStatus>)
    requires
        results.len() <= usize::MAX,
    ensures
        forall|k: int|
            0 <= k < problem_positions(results).len() ==> #[trigger] problem_positions(results)[k]
                < results.len(),
        forall|i: int|
            0 <= i < results.len() ==> (problem_positions(results).contains(i as usize) <==> (
            #[trigger] results[i]).status != CheckStatus::Healthy),
        count_ok(results) + problem_positions(results).len() == results.len(),
    decreases results.len(),
{
    if results.len() > 0 {
        let init = results.drop_last();
        lemma_problems_exact(init);
        let prev = problem_positions(init);
        let all = problem_positions(results);
        let last = (results.len() - 1) as usize;
        assert forall|k: int| 0 <= k < all.len() implies #[trigger] all[k] < results.len() by {
            if k < prev.len() {
                assert(all[k] == prev[k]);
            }
        }
        assert forall|i: int| 0 <= i < results.len() implies (all.contains(i as usize) <==> (
        #[trigger] results[i]).status != CheckStatus::Healthy) by {
            if i < init.len() {
                assert(init[i] == results[i]);
                if prev.contains(i as usize) {
                    let k = choose|k: int| 0 <= k < prev.len() && prev[k] == i as usize;
                    assert(all[k] == prev[k]);
                }
                if all.contains(i as usize) {
                    let k = choose|k: int| 0 <= k < all.len() && all[k] == i as usize;
                    if k < prev.len() {
                        assert(all[k] == prev[k]);
                    } else {
                        assert(all[k] == last);
                    }
                }
            } else {
                if results.last().status != CheckStatus::Healthy {
                    assert(all[prev.len() as int] == last);
                }
                if all.contains(i as usize) {
                    let k = choose|k: int| 0 <= k < all.len() && all[k] == i as usize;
                    if k < prev.len() {
                        assert(all[k] == prev[k]);
                        assert(prev[k] < init.len());
                    }
                }
            }
        }
    }
}

} // verus!
