use jellyfin_pulga::executor::ExecResult;
use jellyfin_pulga::media::{
    check_file, media_file_list, ok_count, problems, CheckStatus, FfprobeFormat, FfprobeOutput,
    FfprobeStream, MediaFileStatus,
};

fn stream(kind: &str, codec: &str, w: Option<u32>, h: Option<u32>) -> FfprobeStream {
    FfprobeStream { codec_type: Some(kind.to_string()), codec_name: Some(codec.to_string()), width: w, height: h }
}

fn run(stderr: &str, success: bool) -> Result<ExecResult, String> {
    Ok(ExecResult { stdout: "{}".to_string(), stderr: stderr.to_string(), success })
}

fn probe(streams: Vec<FfprobeStream>) -> Result<FfprobeOutput, String> {
    Ok(FfprobeOutput { streams, format: Some(FfprobeFormat { duration: Some("5400.25".to_string()) }) })
}

#[test]
fn healthy_file() {
    let p = probe(vec![stream("video", "h264", Some(1920), Some(1080)), stream("audio", "aac", None, None)]);
    let r = check_file("/m/a.mkv", &run("", true), &p);
    assert_eq!(r.status, CheckStatus::Healthy);
    assert_eq!(r.details, "file is valid");
    assert_eq!(r.codec.as_deref(), Some("h264"));
    assert_eq!(r.resolution.as_deref(), Some("1920x1080"));
    assert_eq!(r.duration.as_deref(), Some("5400.25"));
    assert_eq!(r.path, "/m/a.mkv");
    assert_eq!(r.status.as_str(), "ok");
}

#[test]
fn unreadable_when_ffprobe_cannot_run() {
    let r = check_file("/m/a.mkv", &Err("SSH failed".to_string()), &Err("unused".to_string()));
    assert_eq!(r.status, CheckStatus::Unreadable);
    assert_eq!(r.details, "ffprobe execution failed: SSH failed");
    assert!(r.duration.is_none() && r.codec.is_none() && r.resolution.is_none());
}

#[test]
fn corrupted_when_ffprobe_fails() {
    let r = check_file("/m/a.mkv", &run("  Invalid data found \nmore", false), &Err("x".to_string()));
    assert_eq!(r.status, CheckStatus::Corrupted);
    assert_eq!(r.details, "ffprobe error: Invalid data found");
}

#[test]
fn corrupted_when_report_does_not_decode() {
    let r = check_file("/m/a.mkv", &run("", true), &Err("expected value at line 1".to_string()));
    assert_eq!(r.status, CheckStatus::Corrupted);
    assert_eq!(r.details, "failed to parse ffprobe output: expected value at line 1");
}

#[test]
fn missing_streams() {
    let v = check_file("/m/a.mkv", &run("", true), &probe(vec![stream("audio", "aac", None, None)]));
    assert_eq!(v.status, CheckStatus::MissingVideo);
    assert_eq!(v.details, "no video stream found");
    assert!(v.codec.is_none());
    let a = check_file("/m/a.mkv", &run("", true), &probe(vec![stream("video", "hevc", Some(640), None)]));
    assert_eq!(a.status, CheckStatus::MissingAudio);
    assert_eq!(a.details, "no audio stream found (video-only file)");
    assert_eq!(a.codec.as_deref(), Some("hevc"));
    assert!(a.resolution.is_none());
}

#[test]
fn warnings_make_a_file_corrupted() {
    let p = probe(vec![stream("video", "h264", Some(720), Some(480)), stream("audio", "mp3", None, None)]);
    let r = check_file("/m/a.avi", &run("[mp3] Header missing\n", true), &p);
    assert_eq!(r.status, CheckStatus::Corrupted);
    assert_eq!(r.details, "ffprobe warnings: [mp3] Header missing");
    assert_eq!(r.resolution.as_deref(), Some("720x480"));
}

#[test]
fn status_names() {
    assert_eq!(CheckStatus::Corrupted.as_str(), "corrupted");
    assert_eq!(CheckStatus::Unreadable.as_str(), "unreadable");
    assert_eq!(CheckStatus::MissingAudio.as_str(), "missing-audio");
    assert_eq!(CheckStatus::MissingVideo.as_str(), "missing-video");
    assert_eq!(CheckStatus::ZeroLength.as_str(), "zero-length");
}

#[test]
fn counting_results() {
    let mk = |s| MediaFileStatus {
        path: String::new(),
        status: s,
        details: String::new(),
        duration: None,
        codec: None,
        resolution: None,
    };
    let results = vec![mk(CheckStatus::Healthy), mk(CheckStatus::Corrupted), mk(CheckStatus::Healthy), mk(CheckStatus::MissingAudio)];
    assert_eq!(ok_count(&results), 2);
    assert_eq!(problems(&results), vec![1, 3]);
}

#[test]
fn media_files_are_merged_and_sorted() {
    let found = vec![
        vec!["/tv/b.mkv".to_string(), "/tv/a.mkv".to_string()],
        vec!["/movies/Z.mp4".to_string(), "/movies/a.mp4".to_string()],
    ];
    assert_eq!(
        media_file_list(&found),
        vec!["/movies/Z.mp4", "/movies/a.mp4", "/tv/a.mkv", "/tv/b.mkv"]
    );
}
