use blob_dl::config::{assemble_data, ConfigYtVideo};
use blob_dl::format::{FormatSelection, MediaKind};
use blob_dl::numbers::{parse_number, push_decimal, push_padded, push_two_decimals, round_div};
use blob_dl::format::FormatDescriptor;
use blob_dl::order::{comes_before, sorted_positions};
use blob_dl::text::{chars_of, contains, find_text, same_text, string_of};
use blob_dl::wizard::{
    get_index_preference, get_media_selection, video_format_options, video_menu_step, VideoMenuStep,
};
use blob_dl::words::{split_lines, split_pieces, split_words};

fn chars(s: &str) -> Vec<char> {
    s.chars().collect()
}

fn strings(v: Vec<Vec<char>>) -> Vec<String> {
    v.into_iter().map(|w| w.into_iter().collect()).collect()
}

#[test]
fn text_goes_to_characters_and_back() {
    assert_eq!(chars_of("héllo ✓"), chars("héllo ✓"));
    assert_eq!(chars_of(""), Vec::<char>::new());
    assert_eq!(string_of(&chars("héllo ✓"), 1, 5), "éllo");
    assert_eq!(string_of(&chars("abc"), 3, 3), "");
}

#[test]
fn finding_text() {
    let hay = chars("abcabc");
    assert_eq!(find_text(&hay, &chars("bc"), 0), Some(1));
    assert_eq!(find_text(&hay, &chars("bc"), 2), Some(4));
    assert_eq!(find_text(&hay, &chars("bc"), 5), None);
    assert_eq!(find_text(&hay, &chars("abcabc"), 0), Some(0));
    assert_eq!(find_text(&hay, &chars("abcabcd"), 0), None);
    assert_eq!(find_text(&hay, &chars(""), 6), Some(6));
    assert_eq!(find_text(&hay, &chars(""), 7), None);
    assert!(contains(&hay, &chars("ca")));
    assert!(contains(&hay, &chars("")));
    assert!(contains(&chars(""), &chars("")));
    assert!(!contains(&hay, &chars("cb")));
    assert!(same_text(&hay, &chars("abcabc")));
    assert!(!same_text(&hay, &chars("abcab")));
    assert!(!same_text(&hay, &chars("abcabd")));
}

#[test]
fn splitting_words() {
    assert_eq!(strings(split_words(&chars("  a \t bc   d "))), vec!["a", "bc", "d"]);
    assert_eq!(strings(split_words(&chars("abc"))), vec!["abc"]);
    assert_eq!(strings(split_words(&chars(" \t "))), Vec::<String>::new());
    assert_eq!(strings(split_words(&chars(""))), Vec::<String>::new());
    assert_eq!(strings(split_words(&chars("a\nb c"))), vec!["a\nb", "c"]);
}

#[test]
fn splitting_lines_like_std() {
    for text in ["", "\n", "a", "a\n", "a\nb", "a\r\nb\r\n", "a\r", "\r\n\r\n", "a\n\nb\n\n", "\ra\r\r\n", "a\rb"] {
        let expected: Vec<String> = text.lines().map(|l| l.to_string()).collect();
        assert_eq!(strings(split_lines(&chars(text))), expected, "lines of {:?}", text);
    }
}

#[test]
fn splitting_pieces_like_std() {
    for (text, marker) in [("", "ab"), ("ab", "ab"), ("xabyabz", "ab"), ("abab", "ab"), ("aaa", "aa"), ("xyz", "ab"), ("a,b,,c,", ",")] {
        let expected: Vec<String> = text.split(marker).map(|p| p.to_string()).collect();
        assert_eq!(strings(split_pieces(&chars(text), &chars(marker))), expected, "pieces of {:?}", text);
    }
}

#[test]
fn reading_numbers() {
    assert_eq!(parse_number(&chars("0")), Some(0));
    assert_eq!(parse_number(&chars("007")), Some(7));
    assert_eq!(parse_number(&chars("468")), Some(468));
    assert_eq!(parse_number(&chars("18446744073709551615")), Some(u64::MAX));
    assert_eq!(parse_number(&chars("18446744073709551616")), None);
    assert_eq!(parse_number(&chars("99999999999999999999")), None);
    assert_eq!(parse_number(&chars("")), None);
    assert_eq!(parse_number(&chars("12a")), None);
    assert_eq!(parse_number(&chars("+12")), None);
    assert_eq!(parse_number(&chars("١٢")), None);
}

#[test]
fn writing_numbers() {
    let decimal = |n: u64| {
        let mut out = chars("n=");
        push_decimal(&mut out, n);
        out.into_iter().collect::<String>()
    };
    assert_eq!(decimal(0), "n=0");
    assert_eq!(decimal(9), "n=9");
    assert_eq!(decimal(10), "n=10");
    assert_eq!(decimal(1234567890), "n=1234567890");
    assert_eq!(decimal(u64::MAX), format!("n={}", u64::MAX));

    let hundredths = |n: u64| {
        let mut out = Vec::new();
        push_two_decimals(&mut out, n);
        out.into_iter().collect::<String>()
    };
    assert_eq!(hundredths(0), "0.00");
    assert_eq!(hundredths(5), "0.05");
    assert_eq!(hundredths(50), "0.50");
    assert_eq!(hundredths(12345), "123.45");
    assert_eq!(hundredths(u64::MAX), "184467440737095516.15");
}

#[test]
fn rounding_and_padding() {
    assert_eq!(round_div(0, 10), 0);
    assert_eq!(round_div(4, 10), 0);
    assert_eq!(round_div(5, 10), 1);
    assert_eq!(round_div(14, 10), 1);
    assert_eq!(round_div(15, 10), 2);
    assert_eq!(round_div(7, 3), 2);
    assert_eq!(round_div(8, 3), 3);
    assert_eq!(round_div(u64::MAX, 2), 9223372036854775808);
    assert_eq!(round_div(u64::MAX, u64::MAX), 1);
    assert_eq!(round_div(u64::MAX - 1, u64::MAX), 1);
    assert_eq!(round_div(u64::MAX / 2, u64::MAX), 0);

    let padded = |text: &str, width: usize| {
        let mut out = chars("[");
        push_padded(&mut out, &chars(text), width);
        out.push(']');
        out.into_iter().collect::<String>()
    };
    assert_eq!(padded("mp4", 6), "[mp4   ]");
    assert_eq!(padded("", 2), "[  ]");
    assert_eq!(padded("abcdef", 6), "[abcdef]");
    assert_eq!(padded("abcdefg", 6), "[abcdefg]");
    assert_eq!(padded("é✓", 4), format!("[{:<4}]", "é✓"));
}

#[test]
fn answers_to_the_questions() {
    assert_eq!(get_media_selection(0), Some(MediaKind::Video));
    assert_eq!(get_media_selection(1), Some(MediaKind::AudioOnly));
    assert_eq!(get_media_selection(2), Some(MediaKind::VideoOnly));
    assert_eq!(get_media_selection(3), None);
    assert_eq!(get_index_preference(0), Some(true));
    assert_eq!(get_index_preference(1), Some(false));
    assert_eq!(get_index_preference(2), None);
}

#[test]
fn question_for_one_video() {
    assert_eq!(video_format_options(true).len(), 4);
    assert_eq!(video_format_options(false).len(), 3);
    assert_eq!(video_format_options(true)[3], video_format_options(false)[2]);
    for converter in [true, false] {
        assert!(matches!(
            video_menu_step(converter, 0),
            VideoMenuStep::Decided(FormatSelection::BestQuality)
        ));
        assert!(matches!(
            video_menu_step(converter, 1),
            VideoMenuStep::Decided(FormatSelection::SmallestSize)
        ));
        assert!(matches!(video_menu_step(converter, 3), VideoMenuStep::AskFormat));
    }
    assert!(matches!(video_menu_step(true, 2), VideoMenuStep::AskConversion));
    assert!(matches!(video_menu_step(false, 2), VideoMenuStep::AskFormat));
}

#[test]
fn configurations_keep_what_they_are_given() {
    let video = ConfigYtVideo::new(String::from("https://v"), String::from("22"), String::from("/tmp"));
    assert_eq!(video.url(), "https://v");
    assert_eq!(video.download_format(), "22");
    assert_eq!(video.output_path(), "/tmp");

    let playlist = assemble_data(
        &String::from("https://p"),
        MediaKind::AudioOnly,
        FormatSelection::UniqueFormat(String::from("140")),
        String::from("/music"),
        true,
    );
    assert_eq!(playlist.url, "https://p");
    assert_eq!(playlist.output_path, "/music");
    assert!(playlist.include_indexes);
    assert_eq!(playlist.chosen_quality, FormatSelection::UniqueFormat(String::from("140")));
    assert_eq!(playlist.media_selected, MediaKind::AudioOnly);
}

#[test]
fn identifiers_are_listed_shorter_first() {
    let before = |a: &str, b: &str| comes_before(&String::from(a), &String::from(b));
    assert!(before("9", "18"));
    assert!(!before("18", "9"));
    assert!(before("18", "22"));
    assert!(before("140", "249"));
    assert!(before("249", "1000"));
    assert!(!before("22", "22"));
    assert!(before("", "a"));
    assert!(!before("", ""));
    assert!(before("abc", "abd"));
    assert!(!before("abd", "abc"));
    assert!(before("Z", "a"));
    assert!(before("z", "é"));
    assert!(before("sb9", "sb10"));
}

#[test]
fn sorting_positions_is_stable() {
    let ids = ["22", "9", "140", "9", "18", "22"];
    let formats: Vec<FormatDescriptor> =
        ids.iter().map(|id| FormatDescriptor::new(id, "mp4", None, None)).collect();
    assert_eq!(sorted_positions(&formats), vec![1, 3, 4, 0, 5, 2]);
    assert_eq!(sorted_positions(&vec![]), Vec::<usize>::new());
}
