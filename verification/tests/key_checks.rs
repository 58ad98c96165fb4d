use transcribe::keys::extract_key;
use transcribe::keys::strip_key_prefix;
use transcribe::keys::transcript_to_video_key;
use transcribe::keys::validate_path;
use transcribe::keys::video_to_transcript_key;

#[test]
fn valid_triples_pass() {
    assert!(validate_path("a/b/week1/lesson1/video0.mp4").is_ok());
    assert!(validate_path("x/week12/lesson34/video56.mp4").is_ok());
    assert!(validate_path("/week0/lesson0/video0.mp4").is_ok());
    assert!(validate_path("deep/er/root/week999/lesson888/video777.mp4").is_ok());
}

#[test]
fn lesson_failure_quotes_the_path() {
    let err = validate_path("a/b/week1/video0.mp4").unwrap_err();
    assert!(err.contains("a/b/week1/video0.mp4"));
    assert_eq!(
        err,
        "Invalid path format a/b/week1/video0.mp4. Videos must be strictly within 'lesson##' directory i.e. **/lesson##/video##.mp4"
    );
}

#[test]
fn video_number_must_be_nonempty() {
    let err = validate_path("a/week1/lesson1/video.mp4").unwrap_err();
    assert!(err.contains("Video id must be strictly numbered"));
}

#[test]
fn extract_key_finds_week_suffix() {
    let key = extract_key("some/root/path/week1/lesson1/video0.mp4");
    assert_eq!(key, Some("week1/lesson1/video0.mp4".to_string()));
}

#[test]
fn extract_key_ignores_the_root_location() {
    let a = extract_key("home/alice/videos/week3/lesson2/video1.mp4");
    let b = extract_key("mnt/batch/week3/lesson2/video1.mp4");
    assert_eq!(a, b);
    assert_eq!(a, Some("week3/lesson2/video1.mp4".to_string()));
}

#[test]
fn extract_key_absent_without_week_segment() {
    assert_eq!(extract_key("some/root/path/lesson1/video0.mp4"), None);
    assert_eq!(extract_key(""), None);
    // The match is on segments, not substrings: "midweek4" does not
    // begin with "week".
    assert_eq!(extract_key("a/midweek4/lesson1/video0.mp4"), None);
}

#[test]
fn extract_key_is_idempotent() {
    let key = extract_key("some/root/path/week1/lesson1/video0.mp4").unwrap();
    let again = extract_key(&key).unwrap();
    assert_eq!(again, key);

    let key = extract_key("weekend/week2/lesson5/video9.mp4").unwrap();
    let again = extract_key(&key).unwrap();
    assert_eq!(again, key);
}

#[test]
fn extract_key_takes_the_first_week_segment() {
    let key = extract_key("root/week1/extra/week2/lesson1/video0.mp4").unwrap();
    assert_eq!(key, "week1/extra/week2/lesson1/video0.mp4");
}

#[test]
fn derived_keys_revalidate() {
    let key = extract_key("some/root/path/week1/lesson1/video0.mp4").unwrap();
    assert_eq!(key, "week1/lesson1/video0.mp4");
    assert!(validate_path(&key).is_ok());
}

#[test]
fn transcript_key_maps_back_to_video_key() {
    assert_eq!(
        transcript_to_video_key("week1/lesson1/video1.txt"),
        "week1/lesson1/video1.mp4"
    );
    // Anchored to the final extension: an inner ".txt" is untouched.
    assert_eq!(
        transcript_to_video_key("week1/les.txt/video1.txt"),
        "week1/les.txt/video1.mp4"
    );
    // A key without the suffix is left unchanged.
    assert_eq!(transcript_to_video_key("week1/lesson1/video1.wav"), "week1/lesson1/video1.wav");
}

#[test]
fn video_key_maps_to_transcript_key() {
    assert_eq!(
        video_to_transcript_key("week1/lesson1/video1.mp4"),
        "week1/lesson1/video1.txt"
    );
    assert_eq!(video_to_transcript_key("noext"), "noext");
}

#[test]
fn key_mapping_round_trips() {
    let video = "week7/lesson3/video2.mp4";
    let transcript = video_to_transcript_key(video);
    assert_eq!(transcript_to_video_key(&transcript), video);
}

#[test]
fn strip_key_prefix_removes_the_staging_root() {
    let key = strip_key_prefix("/tmp/transcripts/week1/lesson1/video1.txt", "/tmp/transcripts/");
    assert_eq!(key, Some("week1/lesson1/video1.txt".to_string()));
    assert_eq!(strip_key_prefix("/elsewhere/video1.txt", "/tmp/transcripts/"), None);
}
