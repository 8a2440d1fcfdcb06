use blob_dl::catalog::{ItemFormatCatalog, ParseError};
use blob_dl::format::{FormatDescriptor, MediaKind};
use blob_dl::record::FormatRecord;

fn full() -> FormatDescriptor {
    FormatDescriptor {
        id: String::from("22"),
        extension: String::from("mp4"),
        resolution: Some(String::from("1280x720")),
        video_codec: Some(String::from("avc1.64001F")),
        audio_codec: Some(String::from("mp4a.40.2")),
        audio_channels: Some(2),
        size_bytes: Some(2_450_000),
        size_bytes_approx: Some(9_999_999),
        bitrate: Some(468_129),
        note: String::from("720p"),
    }
}

fn record(id: &str) -> FormatRecord {
    FormatRecord {
        format_id: String::from(id),
        ext: String::from("mp4"),
        audio_channels: Some(2),
        resolution: String::from("640x360"),
        filesize: Some(1_000_000),
        vcodec: String::from("avc1"),
        acodec: String::from("mp4a"),
        format_note: String::from("360p"),
        tbr: Some(500_000),
        filesize_approx: None,
    }
}

#[test]
fn label_of_a_full_descriptor() {
    let label = full().to_string().unwrap();
    let expected = format!(
        "{:<6} | {:<13} {:<24}| {} audio ch | tbr: {:<8} | vcodec: {:<13} | acodec: {:<13} ",
        "mp4", "1280x720", "| filesize: 2.45MB", 2, "468.13", "avc1.64001F", "mp4a.40.2"
    );
    assert_eq!(label, expected);
    assert_eq!(
        label,
        "mp4    | 1280x720      | filesize: 2.45MB      | 2 audio ch | tbr: 468.13   | vcodec: avc1.64001F   | acodec: mp4a.40.2     "
    );
}

#[test]
fn label_of_an_audio_only_descriptor() {
    let d = FormatDescriptor {
        resolution: None,
        video_codec: None,
        size_bytes: None,
        size_bytes_approx: Some(3_456_789),
        audio_channels: None,
        bitrate: Some(129_502),
        extension: String::from("m4a"),
        ..full()
    };
    assert_eq!(
        d.to_string().unwrap(),
        "m4a    | filesize: 3.46MB      | tbr: 129.50   | acodec: mp4a.40.2     "
    );
}

#[test]
fn label_does_not_cut_long_columns() {
    let d = FormatDescriptor {
        extension: String::from("extension"),
        resolution: Some(String::from("12345678901234567890")),
        size_bytes: Some(123_456_789_012_345),
        bitrate: Some(1_234_567_894),
        video_codec: None,
        audio_codec: None,
        audio_channels: None,
        ..full()
    };
    assert_eq!(
        d.to_string().unwrap(),
        "extension | 12345678901234567890 | filesize: 123456789.01MB| tbr: 1234567.89 "
    );
}

#[test]
fn sizes_and_rates_are_rounded_to_the_nearest_hundredth() {
    let at = |bytes: u64, rate: u64| {
        let d = FormatDescriptor { size_bytes: Some(bytes), ..FormatDescriptor::new("1", "a", None, Some(rate)) };
        d.to_string().unwrap()
    };
    assert_eq!(at(0, 0), "a      | filesize: 0.00MB      | tbr: 0.00     ");
    assert_eq!(at(4_999, 4), "a      | filesize: 0.00MB      | tbr: 0.00     ");
    assert_eq!(at(5_000, 5), "a      | filesize: 0.01MB      | tbr: 0.01     ");
    assert_eq!(at(1_095_000, 1_095), "a      | filesize: 1.10MB      | tbr: 1.10     ");
    assert_eq!(
        at(u64::MAX, u64::MAX),
        "a      | filesize: 18446744073709.55MB| tbr: 18446744073709551.62 "
    );
}

#[test]
fn thumbnail_has_no_label() {
    let d = FormatDescriptor { bitrate: None, ..full() };
    assert_eq!(d.to_string(), None);
    assert!(!d.offered(&MediaKind::Video));
    assert!(!d.offered(&MediaKind::AudioOnly));
    assert!(!d.offered(&MediaKind::VideoOnly));
}

#[test]
fn eligibility_by_kind() {
    let both = full();
    assert!(both.eligible(&MediaKind::Video));
    assert!(!both.eligible(&MediaKind::AudioOnly));
    assert!(!both.eligible(&MediaKind::VideoOnly));

    let sound = FormatDescriptor { resolution: None, ..full() };
    assert!(!sound.eligible(&MediaKind::Video));
    assert!(sound.eligible(&MediaKind::AudioOnly));
    assert!(!sound.eligible(&MediaKind::VideoOnly));

    let picture = FormatDescriptor { audio_codec: None, audio_channels: None, ..full() };
    assert!(picture.eligible(&MediaKind::Video));
    assert!(picture.eligible(&MediaKind::VideoOnly));
    assert!(picture.offered(&MediaKind::VideoOnly));
}

#[test]
fn duplicate_is_equal() {
    assert_eq!(full().duplicate(), full());
}

#[test]
fn record_becomes_descriptor() {
    let d = FormatDescriptor::from_record(&record("18"));
    assert_eq!(d.id, "18");
    assert_eq!(d.resolution, Some(String::from("640x360")));
    assert_eq!(d.video_codec, Some(String::from("avc1")));
    assert_eq!(d.audio_codec, Some(String::from("mp4a")));
    assert_eq!(d.size_bytes, Some(1_000_000));
    assert_eq!(d.bitrate, Some(500_000));
    assert_eq!(d.note, "360p");

    let sound = FormatRecord {
        resolution: String::from("audio only"),
        vcodec: String::from("none"),
        ..record("140")
    };
    let d = FormatDescriptor::from_record(&sound);
    assert_eq!(d.resolution, None);
    assert_eq!(d.video_codec, None);
    assert_eq!(d.audio_codec, Some(String::from("mp4a")));
}

#[test]
fn records_of_one_item_make_a_catalog() {
    let image = FormatRecord { tbr: None, filesize: None, ..record("sb0") };
    let estimated = FormatRecord { filesize: None, filesize_approx: Some(5), ..record("22") };
    let catalog = ItemFormatCatalog::from_records(&vec![image, record("18"), estimated]).unwrap();
    assert_eq!(catalog.len(), 3);
    assert_eq!(catalog.formats()[0].id, "sb0");
    assert_eq!(catalog.formats()[0].to_string(), None);
    assert_eq!(catalog.formats()[2].size_bytes_approx, Some(5));
}

#[test]
fn malformed_records_are_refused() {
    let twice = ItemFormatCatalog::from_records(&vec![record("18"), record("18")]);
    assert_eq!(twice.err(), Some(ParseError::Malformed));
    let sizeless = FormatRecord { filesize: None, filesize_approx: None, ..record("22") };
    let refused = ItemFormatCatalog::from_records(&vec![record("18"), sizeless]);
    assert_eq!(refused.err(), Some(ParseError::Malformed));
    assert!(ItemFormatCatalog::from_records(&vec![]).unwrap().is_empty());
}

#[test]
fn line_without_size_has_extension_picture_and_bitrate() {
    // The line of a table row leaves out what a table does not give, even where it is known.
    assert_eq!(full().to_frontend().unwrap(), "mp4    | 1280x720      | tbr: 468.13   ");
    let sound = FormatDescriptor { resolution: None, ..full() };
    assert_eq!(sound.to_frontend().unwrap(), "mp4    | tbr: 468.13   ");
    let image = FormatDescriptor { bitrate: None, ..full() };
    assert_eq!(image.to_frontend(), None);
}

#[test]
fn list_shows_the_size_where_it_is_known() {
    assert_eq!(full().line_for_list(), full().to_string());
    let estimated = FormatDescriptor { size_bytes: None, ..full() };
    assert_eq!(estimated.line_for_list(), estimated.to_string());
    assert!(estimated.line_for_list().unwrap().contains("| filesize: 10.00MB"));
    let sizeless = FormatDescriptor { size_bytes: None, size_bytes_approx: None, ..full() };
    assert_eq!(sizeless.line_for_list(), sizeless.to_frontend());
    let image = FormatDescriptor { bitrate: None, ..full() };
    assert_eq!(image.line_for_list(), None);
    let bare_image = FormatDescriptor { size_bytes: None, size_bytes_approx: None, ..image };
    assert_eq!(bare_image.line_for_list(), None);
    assert_eq!(bare_image.to_string(), None);
}

#[test]
fn variants_from_records_are_shown_with_their_size() {
    let image = FormatRecord { tbr: None, filesize: None, ..record("sb0") };
    let estimated = FormatRecord { filesize: None, filesize_approx: Some(5_000), ..record("22") };
    let catalog = ItemFormatCatalog::from_records(&vec![image, record("18"), estimated]).unwrap();
    let lines: Vec<Option<String>> = catalog.formats().iter().map(|d| d.to_string()).collect();
    assert_eq!(lines[0], None);
    assert_eq!(
        lines[1].as_deref(),
        Some("mp4    | 640x360       | filesize: 1.00MB      | 2 audio ch | tbr: 500.00   | vcodec: avc1          | acodec: mp4a          ")
    );
    assert!(lines[2].as_deref().unwrap().contains("| filesize: 0.01MB"));
}
