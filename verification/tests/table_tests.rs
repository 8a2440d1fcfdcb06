use blob_dl::catalog::{batch_of, ItemFormatCatalog, ParseError};
use blob_dl::format::FormatDescriptor;
use blob_dl::table::{count_roots, fetch_formats, parse_table, select_root, VideoFormat};

#[test]
fn test_from_command() {
    let test_str = "139          m4a        audio only DASH audio   50k , m4a_dash container, mp4a.40.5 (22050Hz), 2.45MiB";
    let f = VideoFormat::from_command(test_str);
    let expected_format = VideoFormat {
        code: 139,
        file_extension: String::from("m4a"),
        resolution: String::from("audio"),
        note: String::from("DASH audio"),
        size: String::from("50k"),
    };

    assert_eq!(f, Some(expected_format));

    let test_str = "22           mp4        1280x720   720p  468k , avc1.64001F, 30fps, mp4a.40.2 (44100Hz) (best)";
    let f = VideoFormat::from_command(test_str);
    let expected_format = VideoFormat {
        code: 22,
        file_extension: String::from("mp4"),
        resolution: String::from("1280x720"),
        note: String::from("720p"),
        size: String::from("468k"),
    };

    assert_eq!(f, Some(expected_format));
}

#[test]
fn header_and_info_lines_are_no_rows() {
    assert_eq!(VideoFormat::from_command("format code  extension  resolution note"), None);
    assert_eq!(VideoFormat::from_command("[youtube] dQw4w9WgXcQ: Downloading webpage"), None);
    assert_eq!(VideoFormat::from_command(""), None);
    assert_eq!(VideoFormat::from_command("   22 mp4 1280x720 720p 468k"), None);
}

#[test]
fn video_only_rows_are_dropped() {
    let line = "137          mp4        1920x1080  1080p 4400k , avc1.640028, 30fps, video only, 80.12MiB";
    assert_eq!(VideoFormat::from_command(line), None);
}

#[test]
fn rows_need_three_columns_and_a_numeric_code() {
    assert_eq!(VideoFormat::from_command("22 mp4"), None);
    assert_eq!(VideoFormat::from_command("22-drc mp4 1280x720"), None);
    assert_eq!(VideoFormat::from_command("4294967296 mp4 1280x720"), None);
    let widest = VideoFormat::from_command("4294967295 mp4 1280x720").unwrap();
    assert_eq!(widest.code, 4294967295);
    assert_eq!(widest.size, "");
    assert_eq!(widest.note, "");
}

#[test]
fn row_without_bitrate_keeps_the_rest_as_note() {
    let row = VideoFormat::from_command("18 mp4 640x360 medium , avc1.42001E").unwrap();
    assert_eq!(row.note, "medium , avc1.42001E");
    assert_eq!(row.size, "");
    assert_eq!(row.to_descriptor().bitrate, None);
}

#[test]
fn descriptor_of_a_row() {
    let row = VideoFormat::from_command("022 mp4 1280x720 720p 468k , avc1").unwrap();
    let d = row.to_descriptor();
    assert_eq!(d.id, "22");
    assert_eq!(d.extension, "mp4");
    assert_eq!(d.resolution, Some(String::from("1280x720")));
    assert_eq!(d.bitrate, Some(468_000));
    assert_eq!(d.note, "720p");
    assert_eq!(d.size_bytes, None);

    let audio = VideoFormat::from_command("139 m4a audio only tiny 50k").unwrap().to_descriptor();
    assert_eq!(audio.resolution, None);
    assert!(audio.is_audio_only());
    assert_eq!(audio.bitrate, Some(50_000));
}

#[test]
fn bitrate_that_cannot_be_read_gives_none() {
    let odd = VideoFormat {
        code: 1,
        file_extension: String::from("mp4"),
        resolution: String::from("1x1"),
        note: String::new(),
        size: String::from("1.5k"),
    };
    assert_eq!(odd.to_descriptor().bitrate, None);
    let huge = VideoFormat { size: String::from("18446744073709552k"), ..odd.clone() };
    assert_eq!(huge.to_descriptor().bitrate, None);
    let largest = VideoFormat { size: String::from("18446744073709551k"), ..odd.clone() };
    assert_eq!(largest.to_descriptor().bitrate, Some(18_446_744_073_709_551_000));
    let bare = VideoFormat { size: String::from("k"), ..odd };
    assert_eq!(bare.to_descriptor().bitrate, None);
}

#[test]
fn round_trip_of_a_table_line() {
    let shown = VideoFormat::from_command("22 mp4 1280x720 720p 468k ...").unwrap();
    let label = shown.to_frontend().unwrap();
    assert!(label.contains("1280x720"));
    assert_eq!(label, "mp4    | 1280x720      | tbr: 468.00   ");
    assert_eq!(shown.to_descriptor().to_frontend(), Some(label.clone()));
    assert_eq!(shown.to_descriptor().line_for_list(), Some(label));

    let hidden = VideoFormat::from_command("22 mp4 1280x720 720p fast ...").unwrap();
    assert_eq!(hidden.to_frontend(), None);
    assert_eq!(hidden.to_descriptor().line_for_list(), None);

    let sound = VideoFormat::from_command("139 m4a audio only DASH audio 50k").unwrap();
    assert_eq!(sound.to_frontend().unwrap(), "m4a    | tbr: 50.00    ");
}

#[test]
fn dump_without_valid_lines_gives_empty_catalog() {
    assert!(parse_table("").is_empty());
    assert!(parse_table("[info] Available formats\nformat code extension resolution note\n").is_empty());
    assert!(parse_table("{\"formats\": []}").is_empty());
    assert_eq!(parse_table("\n\n\n").len(), 0);
}

#[test]
fn parse_table_keeps_rows_in_order_and_first_of_duplicates() {
    let dump = "[info] Available formats for x:\r\nformat code  extension  resolution note\r\n\
                249 webm audio only tiny 50k\r\n\
                18 mp4 640x360 360p 500k\r\n\
                137 mp4 1920x1080 1080p 4400k, video only\r\n\
                18 webm 1x1 other 1k\r\n\
                22 mp4 1280x720 720p 468k";
    let catalog = parse_table(dump);
    let ids: Vec<&str> = catalog.formats().iter().map(|d| d.id.as_str()).collect();
    assert_eq!(ids, vec!["249", "18", "22"]);
    assert_eq!(catalog.formats()[1].extension, "mp4");
    assert!(catalog.has_id(&String::from("22")));
    assert!(!catalog.has_id(&String::from("137")));
}

#[test]
fn fetch_formats_splits_a_batch_and_skips_empty_items() {
    let output = "[youtube:tab] Downloading playlist\n\
                  [download] Downloading video 1 of 3\n\
                  [info] Available formats for a:\n\
                  18 mp4 640x360 360p 500k\n\
                  22 mp4 1280x720 720p 468k\n\
                  [download] Downloading video 2 of 3\n\
                  ERROR: [youtube] b: Private video\n\
                  [download] Downloading video 3 of 3\n\
                  22 mp4 1280x720 720p 468k\n";
    let all = fetch_formats(output);
    assert_eq!(all.len(), 2);
    assert_eq!(all[0].len(), 2);
    assert_eq!(all[1].len(), 1);
    assert_eq!(all[1].formats()[0].id, "22");
}

#[test]
fn fetch_formats_drops_the_first_line_of_each_part() {
    // The line that follows the marker holds the position in the batch, even if it looks like a row.
    let all = fetch_formats("1 mp4 1x1 a 1k\n2 mp4 1x1 b 2k[download] Downloading video 3 of 9 webm\n4 mp4 1x1 c 4k");
    assert_eq!(all.len(), 2);
    assert_eq!(all[0].formats()[0].id, "2");
    assert_eq!(all[1].formats()[0].id, "4");
    assert_eq!(fetch_formats("").len(), 0);
}

#[test]
fn select_root_counts_from_one() {
    let dump = "{\"a\": 1}\n{\"b\": 2}\r\n{\"c\": 3}\n";
    assert_eq!(count_roots(dump), 3);
    assert_eq!(select_root(dump, 1), "{\"a\": 1}");
    assert_eq!(select_root(dump, 2), "{\"b\": 2}");
    assert_eq!(select_root(dump, 3), "{\"c\": 3}");
}

#[test]
fn count_roots_counts_the_lines() {
    assert_eq!(count_roots(""), 0);
    assert_eq!(count_roots("{}"), 1);
    assert_eq!(count_roots("{}\n"), 1);
    assert_eq!(count_roots("{}\n\n"), 2);
    assert_eq!(count_roots("\n"), 1);
    assert_eq!(select_root("{}\n\n", 2), "");
    assert_eq!(select_root("only", 1), "only");
}

#[test]
fn select_root_ignores_the_other_lines() {
    let one = select_root("first\n{\"wanted\": 1}\nlast", 2);
    let other = select_root("1 2 3\n{\"wanted\": 1}\n\n\nERROR: x", 2);
    assert_eq!(one, other);
}

#[test]
fn catalog_refuses_a_repeated_identifier() {
    let a = FormatDescriptor::new("22", "mp4", Some("1280x720"), Some(468_000));
    let b = FormatDescriptor::new("18", "mp4", Some("640x360"), Some(500_000));
    assert!(ItemFormatCatalog::new(vec![a.clone(), b.clone()]).is_ok());
    let refused = ItemFormatCatalog::new(vec![a.clone(), b, a]);
    assert_eq!(refused.err(), Some(blob_dl::catalog::ParseError::Malformed));
    assert!(ItemFormatCatalog::new(vec![]).unwrap().is_empty());
}

#[test]
fn add_format_keeps_identifiers_apart() {
    let mut catalog = ItemFormatCatalog::empty();
    assert!(catalog.add_format(FormatDescriptor::new("22", "mp4", Some("1280x720"), None)));
    assert!(!catalog.add_format(FormatDescriptor::new("22", "webm", None, Some(1))));
    assert!(catalog.add_format(FormatDescriptor::new("18", "mp4", None, Some(1))));
    assert_eq!(catalog.len(), 2);
    assert_eq!(catalog.formats()[0].extension, "mp4");
}

#[test]
fn batch_goes_on_without_an_item_that_cannot_be_read() {
    let a = || parse_table("18 mp4 640x360 360p 500k\n");
    let b = || parse_table("22 mp4 1280x720 720p 468k\n");
    let batch = batch_of(vec![Ok(a()), Err(ParseError::Malformed), Ok(ItemFormatCatalog::empty()), Ok(b())]).unwrap();
    assert_eq!(batch.len(), 2);
    assert_eq!(batch[0].formats()[0].id, "18");
    assert_eq!(batch[1].formats()[0].id, "22");

    let batch = batch_of(vec![Ok(ItemFormatCatalog::empty()), Ok(b()), Ok(a())]).unwrap();
    assert_eq!(batch.len(), 2);
    assert_eq!(batch[0].formats()[0].id, "22");

    assert_eq!(batch_of(vec![]).unwrap().len(), 0);
    assert_eq!(batch_of(vec![Ok(a()), Err(ParseError::Malformed)]).unwrap().len(), 1);
}

#[test]
fn batch_fails_with_its_first_item() {
    let a = parse_table("18 mp4 640x360 360p 500k\n");
    assert_eq!(batch_of(vec![Err(ParseError::Malformed), Ok(a)]).err(), Some(ParseError::Malformed));
    assert_eq!(batch_of(vec![Err(ParseError::Malformed)]).err(), Some(ParseError::Malformed));
}
