use blob_dl::errors::{
    classify, init_error_msg_lut, is_recoverable, DownloadError, ErrorTable, ENCODER_STREAM_ERROR,
    HOMEPAGE_REDIRECT, NETWORK_FAIL, NONEXISTENT_PLAYLIST, NONEXISTENT_VIDEO, NO_API_PAGE,
    PRIVATE_VIDEO, REMOVED_VIDEO, VIDEO_NOT_FOUND, VIDEO_UNAVAILABLE, VIOLENT_VIDEO, YTDLP_GAVE_UP,
};

#[test]
fn private_video_is_unrecoverable_and_unknown_is_recoverable() {
    let table = init_error_msg_lut();
    let private = classify("ERROR: Private video. Sign in if you've been granted access...").unwrap();
    assert!(!is_recoverable(&private, &table));
    let unknown = classify("ERROR: some new message").unwrap();
    assert!(is_recoverable(&unknown, &table));
}

#[test]
fn lines_without_the_marker_are_no_errors() {
    assert_eq!(classify("[download] 100% of 2.45MiB in 00:01"), None);
    assert_eq!(classify(""), None);
    assert_eq!(classify("error: lower case is no marker"), None);
    assert_eq!(classify("WARNING: ERROR without colon"), None);
    assert!(classify("ERROR:").is_some());
}

#[test]
fn classify_reads_item_and_message() {
    let e = classify("ERROR: [youtube] dQw4w9WgXcQ: Video unavailable. This video has been removed by the uploader").unwrap();
    assert_eq!(e.video_id(), "dQw4w9WgXcQ");
    assert_eq!(e.error_msg(), "Video unavailable. This video has been removed by the uploader");
    assert_eq!(e.to_string(), "dQw4w9WgXcQ: Video unavailable. This video has been removed by the uploader");
    assert_eq!(e, DownloadError::new("Video unavailable. This video has been removed by the uploader", "dQw4w9WgXcQ"));
}

#[test]
fn classify_without_item_keeps_the_whole_message() {
    let e = classify("ERROR: Private video. Sign in if you've been granted access...").unwrap();
    assert_eq!(e.video_id(), "");
    assert_eq!(e.error_msg(), "Private video. Sign in if you've been granted access...");
    assert_eq!(e.to_string(), "Private video. Sign in if you've been granted access...");

    let words = classify("ERROR: [youtube] abc def").unwrap();
    assert_eq!(words.video_id(), "");
    assert_eq!(words.error_msg(), "[youtube] abc def");

    let bare = classify("ERROR: [youtube] :").unwrap();
    assert_eq!(bare.video_id(), "");
    assert_eq!(bare.error_msg(), "[youtube] :");

    let empty = classify("ERROR:").unwrap();
    assert_eq!(empty.video_id(), "");
    assert_eq!(empty.error_msg(), "");
}

#[test]
fn classify_starts_after_the_first_marker() {
    let e = classify("12:00 ERROR: \t [generic] x1: first ERROR: second  ").unwrap();
    assert_eq!(e.video_id(), "x1");
    assert_eq!(e.error_msg(), "first ERROR: second  ");
}

#[test]
fn classifying_twice_gives_the_same() {
    let table = init_error_msg_lut();
    for line in [
        "ERROR: [youtube] a: Video unavailable",
        "ERROR: some new message",
        "ERROR: [youtube] b: Private video",
        "no error",
    ] {
        let first = classify(line);
        let second = classify(line);
        assert_eq!(first, second);
        if let (Some(a), Some(b)) = (first, second) {
            assert_eq!(is_recoverable(&a, &table), is_recoverable(&b, &table));
            assert_eq!(is_recoverable(&a, &table), is_recoverable(&a, &table));
        }
    }
}

#[test]
fn video_unavailable_overrides_the_table() {
    let mut table = ErrorTable::new();
    table.insert(VIDEO_UNAVAILABLE, true);
    table.insert("unavailable", true);
    let e = DownloadError::new("Video unavailable", "x");
    assert!(!is_recoverable(&e, &table));
    assert!(!is_recoverable(&e, &ErrorTable::new()));
    let lower = DownloadError::new("video unavailable", "x");
    assert!(is_recoverable(&lower, &ErrorTable::new()));
}

#[test]
fn known_messages_and_their_verdicts() {
    let table = init_error_msg_lut();
    assert_eq!(table.len(), 11);
    let unrecoverable = [
        PRIVATE_VIDEO,
        NONEXISTENT_PLAYLIST,
        HOMEPAGE_REDIRECT,
        VIOLENT_VIDEO,
        REMOVED_VIDEO,
        YTDLP_GAVE_UP,
        VIDEO_NOT_FOUND,
        NO_API_PAGE,
        ENCODER_STREAM_ERROR,
        NONEXISTENT_VIDEO,
    ];
    for message in unrecoverable {
        assert_eq!(table.get(message), Some(false));
    }
    assert_eq!(table.get(NETWORK_FAIL), Some(true));
    assert_eq!(table.get("Private"), None);
    assert_eq!(table.get("account associated with this video has been terminated"), None);
    let verdict = |message: &str| is_recoverable(&DownloadError::new(message, "id"), &table);
    assert!(!verdict("YouTube said: The playlist does not exist."));
    assert!(!verdict("The channel/playlist does not exist and the URL redirected to youtube.com home page"));
    // No entry knows a closed account: such a failure is taken to be worth a retry.
    assert!(verdict("This video is no longer available because the YouTube account associated with this video has been terminated."));
    assert!(!verdict("This video has been removed for violating YouTube's policy on violent or graphic content"));
    assert!(!verdict("This video has been removed by the uploader"));
    assert!(!verdict("error: HTTP Error 403: Forbidden. Giving up after 10 retries"));
    assert!(!verdict("abc not found, unable to continue"));
    assert!(!verdict("Unable to download API page: HTTP Error 404: Not Found"));
    assert!(!verdict("Postprocessing: Conversion failed!"));
    assert!(!verdict("Incomplete data received"));
    assert!(verdict("<urlopen error [Errno -3] Temporary failure in name resolution>"));
    assert!(verdict("private video"));
    assert!(verdict(""));
}

#[test]
fn first_known_message_decides() {
    let table = init_error_msg_lut();
    let both = DownloadError::new(
        "Unable to download API page: <urlopen error [Errno -3] Temporary failure in name resolution>",
        "id",
    );
    assert!(is_recoverable(&both, &table));

    let mut other = ErrorTable::new();
    other.insert(NO_API_PAGE, false);
    other.insert(NETWORK_FAIL, true);
    assert!(!is_recoverable(&both, &other));
}

#[test]
fn insert_replaces_a_known_message_in_place() {
    let mut table = ErrorTable::new();
    table.insert("a", false);
    table.insert("b", true);
    table.insert("a", true);
    assert_eq!(table.len(), 2);
    assert_eq!(table.get("a"), Some(true));
    assert_eq!(table.get("b"), Some(true));
    table.insert("b", false);
    // "a" still comes first, so it decides for a message that holds both.
    assert!(is_recoverable(&DownloadError::new("ab", ""), &table));
    assert!(!is_recoverable(&DownloadError::new("b", ""), &table));
}

#[test]
fn table_is_the_same_each_time() {
    let first = init_error_msg_lut();
    let second = init_error_msg_lut();
    assert_eq!(first.len(), second.len());
    for message in [PRIVATE_VIDEO, NETWORK_FAIL, NONEXISTENT_VIDEO, "unknown"] {
        assert_eq!(first.get(message), second.get(message));
    }
}
