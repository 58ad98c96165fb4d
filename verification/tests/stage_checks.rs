use transcribe::cleanup::cleanup_targets;
use transcribe::listener::classify_event_key;
use transcribe::listener::launch_payload;
use transcribe::listener::listener_ack;
use transcribe::listener::TriggerDecision;
use transcribe::report::cleanup_report;
use transcribe::report::partition_outcomes;
use transcribe::report::transcriber_report;
use transcribe::report::BatchReport;
use transcribe::report::DeleteResponse;
use transcribe::report::PutResponse;
use transcribe::report::TransferOutcome;
use transcribe::text::contains_name;
use transcribe::uploader::plan_uploads;

fn outcome(key: &str, success: bool) -> TransferOutcome {
    TransferOutcome { key: key.to_string(), success, message: String::new() }
}

#[test]
fn partition_is_complete_and_ordered() {
    let outs = vec![
        outcome("k1", true),
        outcome("k2", false),
        outcome("k3", true),
        outcome("k4", true),
        outcome("k5", false),
    ];
    let (processed, failed) = partition_outcomes(&outs);
    assert_eq!(processed.len() + failed.len(), outs.len());
    assert_eq!(processed, vec!["k1".to_string(), "k3".to_string(), "k4".to_string()]);
    assert_eq!(failed, vec!["k2".to_string(), "k5".to_string()]);
    for key in &processed {
        assert!(!failed.contains(key));
    }
}

#[test]
fn partition_of_empty_batch_is_empty() {
    let (processed, failed) = partition_outcomes(&Vec::new());
    assert!(processed.is_empty());
    assert!(failed.is_empty());
}

#[test]
fn put_responses_carry_the_original_messages() {
    let ok = PutResponse::success("week1/lesson1/video1.txt".to_string());
    assert_eq!(ok.status, 200);
    assert_eq!(ok.message, "SUCCESS: S3 upload week1/lesson1/video1.txt");
    let ok = ok.to_outcome();
    assert!(ok.success);

    let bad = PutResponse::failure("k".to_string(), "denied");
    assert_eq!(bad.status, 400);
    assert_eq!(bad.message, "ERROR: Failed S3 upload k : denied");
    assert!(!bad.to_outcome().success);

    let stream = PutResponse::stream_failure("k".to_string(), "no such file");
    assert_eq!(stream.status, 400);
    assert_eq!(stream.message, "ERROR: Failed to extract bytestream from k, no such file");
}

#[test]
fn delete_responses_carry_the_original_messages() {
    let ok = DeleteResponse::success("week1/lesson1/video1.mp4".to_string());
    assert_eq!(ok.status, 200);
    assert_eq!(ok.message, "SUCCESS: deleted week1/lesson1/video1.mp4");
    assert!(ok.to_outcome().success);

    let bad = DeleteResponse::failure("week1/lesson1/video2.mp4".to_string(), "denied");
    assert_eq!(bad.status, 400);
    assert_eq!(bad.message, "ERROR: Failed to delete week1/lesson1/video2.mp4 : denied");
    assert!(!bad.to_outcome().success);
}

#[test]
fn transcriber_report_restates_the_bucket() {
    let outs = vec![outcome("t1.txt", true), outcome("t2.txt", false)];
    let report = transcriber_report(&outs, "transcripts-bucket");
    assert_eq!(report.message, "DONE! Transcripts available in S3 Bucket: transcripts-bucket");
    assert_eq!(report.processed, vec!["t1.txt".to_string()]);
    assert_eq!(report.failed, vec!["t2.txt".to_string()]);
}

#[test]
fn cleanup_scenario_partitions_the_derived_video_keys() {
    let upstream = vec![BatchReport {
        message: String::new(),
        processed: vec![
            "week1/lesson1/video1.txt".to_string(),
            "week1/lesson1/video2.txt".to_string(),
        ],
        failed: Vec::new(),
    }];
    let targets = cleanup_targets(&upstream);
    assert_eq!(
        targets,
        vec!["week1/lesson1/video1.mp4".to_string(), "week1/lesson1/video2.mp4".to_string()]
    );
    // One delete fails; the report partitions the video keys accordingly.
    let outs = vec![
        DeleteResponse::success(targets[0].clone()).to_outcome(),
        DeleteResponse::failure(targets[1].clone(), "denied").to_outcome(),
    ];
    let report = cleanup_report(&outs, "videos-bucket");
    assert_eq!(report.processed, vec!["week1/lesson1/video1.mp4".to_string()]);
    assert_eq!(report.failed, vec!["week1/lesson1/video2.mp4".to_string()]);
    assert_eq!(report.message, "CLEANUP COMPLETE: videos-bucket");
}

#[test]
fn cleanup_never_touches_unprocessed_videos() {
    // No upstream summary reported anything processed: zero deletions,
    // however many transcripts failed.
    let upstream = vec![
        BatchReport {
            message: String::new(),
            processed: Vec::new(),
            failed: vec!["week1/lesson1/video1.txt".to_string()],
        },
        BatchReport {
            message: String::new(),
            processed: Vec::new(),
            failed: vec!["week2/lesson1/video1.txt".to_string()],
        },
    ];
    assert!(cleanup_targets(&upstream).is_empty());

    // A mixed batch: only the processed transcript's video is targeted.
    let upstream = vec![BatchReport {
        message: String::new(),
        processed: vec!["week1/lesson1/video1.txt".to_string()],
        failed: vec!["week1/lesson1/video2.txt".to_string()],
    }];
    let targets = cleanup_targets(&upstream);
    assert_eq!(targets, vec!["week1/lesson1/video1.mp4".to_string()]);
}

#[test]
fn listener_recognizes_only_the_sentinel() {
    assert_eq!(classify_event_key("done.txt"), TriggerDecision::StartWorkflow);
    assert_eq!(classify_event_key("week1/lesson1/video0.mp4"), TriggerDecision::Observe);
    assert_eq!(classify_event_key("done.txt2"), TriggerDecision::Observe);
    assert_eq!(classify_event_key(""), TriggerDecision::Observe);
}

#[test]
fn listener_acknowledgments() {
    assert_eq!(listener_ack("done.txt"), "Transcription Pipeline triggered");
    assert_eq!(listener_ack("week1/lesson1/video0.mp4"), "UPLOAD: week1/lesson1/video0.mp4");
    assert_eq!(launch_payload(), "{\"input\": {\"payload\": \"Listener --> Step Function!\"}}");
}

#[test]
fn upload_plan_halts_on_the_first_invalid_path() {
    let paths = vec![
        "root/week1/lesson1/video0.mp4".to_string(),
        "root/week1/lesson2/video1.mp4".to_string(),
        "root/week1/video9.mp4".to_string(),
        "root/week2/lesson1/video0.mp4".to_string(),
    ];
    let plan = plan_uploads(&paths);
    assert_eq!(plan.uploads.len(), 2);
    assert_eq!(plan.uploads[0].path, "root/week1/lesson1/video0.mp4");
    assert_eq!(plan.uploads[0].key, "week1/lesson1/video0.mp4");
    assert_eq!(plan.uploads[1].key, "week1/lesson2/video1.mp4");
    let halt = plan.halt.unwrap();
    assert_eq!(
        halt,
        "Invalid path format root/week1/video9.mp4. Videos must be strictly within 'lesson##' directory i.e. **/lesson##/video##.mp4"
    );
}

#[test]
fn upload_plan_covers_a_fully_valid_batch() {
    let paths = vec![
        "root/week1/lesson1/video0.mp4".to_string(),
        "root/week2/lesson3/video4.mp4".to_string(),
    ];
    let plan = plan_uploads(&paths);
    assert!(plan.halt.is_none());
    assert_eq!(plan.uploads.len(), 2);
    assert_eq!(plan.uploads[1].key, "week2/lesson3/video4.mp4");
}

#[test]
fn bucket_names_are_found_by_equality() {
    let names = vec!["videos".to_string(), "transcripts".to_string()];
    assert!(contains_name(&names, "videos"));
    assert!(contains_name(&names, "transcripts"));
    assert!(!contains_name(&names, "video"));
    assert!(!contains_name(&names, ""));
}
