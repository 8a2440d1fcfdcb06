//! The downloader's table of formats: one row per variant, in the columns
//! code, extension, resolution and note, followed by free text.

use vstd::prelude::*;
use crate::catalog::{catalog_views, has_id, ItemFormatCatalog};
use crate::format::{text_view, whole_text, FormatDescriptor, FormatModel};
use crate::numbers::{
    all_digits, decimal, digit, is_digit, number_of, parse_number, push_decimal, push_text,
};
use crate::text::{chars_of, contains, contains_text, same_text, string_of};
use crate::words::{
    lines_of, pieces_of, slice_of, split_lines, split_pieces, split_words, texts, words_of,
};

verus! {

/// The words that mark a row as a picture without sound.
pub const VIDEO_ONLY: &'static str = "video only";

/// What the resolution column holds for sound without a picture.
pub const AUDIO: &'static str = "audio";

/// The word that follows `AUDIO` in the resolution column.
pub const ONLY: &'static str = "only";

/// The text that opens the part of a batch listing that belongs to one item.
pub const ITEM_MARKER: &'static str = "[download] Downloading video";

/// One row of the table of formats, column by column as written.
#[derive(Debug, Clone, PartialEq, Eq)]
pub struct VideoFormat {
    /// The code by which the downloader knows the variant.
    pub code: u32,
    pub file_extension: String,
    /// The size of the picture, or the first word of "audio only".
    pub resolution: String,
    /// The words between the resolution and the bitrate.
    pub note: String,
    /// The bitrate as written, such as `468k`; empty where the row has none.
    pub size: String,
}

/// A `VideoFormat` as plain values.
pub struct VideoFormatModel {
    pub code: u32,
    pub file_extension: Seq<char>,
    pub resolution: Seq<char>,
    pub note: Seq<char>,
    pub size: Seq<char>,
}

impl View for VideoFormat {
    type V = VideoFormatModel;

    open spec fn view(&self) -> VideoFormatModel {
        VideoFormatModel {
            code: self.code,
            file_extension: self.file_extension@,
            resolution: self.resolution@,
            note: self.note@,
            size: self.size@,
        }
    }
}

/// The word looks like a bitrate: it begins with a digit and ends in `k`.
pub open spec fn rate_shaped(word: Seq<char>) -> bool {
    word.len() >= 2 && is_digit(word[0]) && word.last() == 'k'
}

/// Position of the first word at or after `i` that looks like a bitrate;
/// the number of words if there is none.
pub open spec fn rate_index(words: Seq<Seq<char>>, i: int) -> int
    decreases words.len() - i,
{
    if i < 0 || i >= words.len() {
        words.len() as int
    } else if rate_shaped(words[i]) {
        i
    } else {
        rate_index(words, i + 1)
    }
}

/// The words `words[from..to]` with one space between neighbours.
pub open spec fn joined(words: Seq<Seq<char>>, from: int, to: int) -> Seq<char>
    decreases to - from,
{
    if to <= from {
        Seq::empty()
    } else if to == from + 1 {
        words[from]
    } else {
        joined(words, from, to - 1) + seq![' '] + words[to - 1]
    }
}

/// Position of the first word after the resolution column: "audio only"
/// takes two words, a picture size one.
pub open spec fn note_start(words: Seq<Seq<char>>) -> int {
    if words.len() > 3 && words[2] == AUDIO@ && words[3] == ONLY@ {
        4
    } else {
        3
    }
}

/// The line is a row of the table.
///
/// It begins with a digit, is not marked as a picture without sound, has at
/// least the columns code, extension and resolution, and its code is a
/// number of 32 bits.
pub open spec fn is_table_row(line: Seq<char>) -> bool {
    let words = words_of(line);
    &&& line.len() > 0
    &&& is_digit(line[0])
    &&& !contains_text(line, VIDEO_ONLY@)
    &&& words.len() >= 3
    &&& all_digits(words[0])
    &&& number_of(words[0]) <= u32::MAX
}

/// The row that `line` holds, if it is one.
pub open spec fn table_row(line: Seq<char>) -> Option<VideoFormatModel> {
    let words = words_of(line);
    let rate = rate_index(words, note_start(words));
    if is_table_row(line) {
        Some(
            VideoFormatModel {
                code: number_of(words[0]) as u32,
                file_extension: words[1],
                resolution: words[2],
                note: joined(words, note_start(words), rate),
                size: if rate < words.len() {
                    words[rate]
                } else {
                    Seq::empty()
                },
            },
        )
    } else {
        None
    }
}

/// The bitrate in bits per second that `size` writes in kilobits, if it is
/// a number followed by `k` and fits 64 bits.
pub open spec fn rate_value(size: Seq<char>) -> Option<u64> {
    if size.len() >= 2 && size.last() == 'k' && all_digits(size.drop_last()) && number_of(
        size.drop_last(),
    ) * 1000 <= u64::MAX {
        Some((number_of(size.drop_last()) * 1000) as u64)
    } else {
        None
    }
}

/// The variant that a row of the table describes. Its identifier is the
/// code in decimal. A row whose bitrate cannot be read describes a variant
/// without one, which is never offered.
pub open spec fn descriptor_of(row: VideoFormatModel) -> FormatModel {
    FormatModel {
        id: decimal(row.code as nat),
        extension: row.file_extension,
        resolution: if row.resolution == AUDIO@ {
            None
        } else {
            Some(row.resolution)
        },
        video_codec: None,
        audio_codec: None,
        audio_channels: None,
        size_bytes: None,
        size_bytes_approx: None,
        bitrate: rate_value(row.size),
        note: row.note,
    }
}

/// The catalog that the lines of a table give: the variants of the rows in
/// their order. Lines that are no rows are passed over, and so is a row
/// whose code an earlier row has.
pub open spec fn table_catalog(lines: Seq<Seq<char>>) -> Seq<FormatModel>
    decreases lines.len(),
{
    if lines.len() == 0 {
        Seq::empty()
    } else {
        let rest = table_catalog(lines.drop_last());
        match table_row(lines.last()) {
            Some(row) => if has_id(rest, descriptor_of(row).id) {
                rest
            } else {
                rest.push(descriptor_of(row))
            },
            None => rest,
        }
    }
}

/// The lines of one item's part of a batch listing, without the first: it
/// holds the item's position in the batch.
pub open spec fn item_lines(piece: Seq<char>) -> Seq<Seq<char>> {
    let lines = lines_of(piece);
    if lines.len() == 0 {
        lines
    } else {
        lines.subrange(1, lines.len() as int)
    }
}

/// The catalogs of the items of a batch listing, in order, without the
/// items of which the listing says nothing.
pub open spec fn batch_catalogs(pieces: Seq<Seq<char>>) -> Seq<Seq<FormatModel>>
    decreases pieces.len(),
{
    if pieces.len() == 0 {
        Seq::empty()
    } else {
        let rest = batch_catalogs(pieces.drop_last());
        let catalog = table_catalog(item_lines(pieces.last()));
        if catalog.len() == 0 {
            rest
        } else {
            rest.push(catalog)
        }
    }
}

/// The number of items that a dump with one line for each item describes.
pub open spec fn root_count(dump: Seq<char>) -> nat {
    lines_of(dump).len()
}

/// The line `index` of `dump`, counted from one.
pub open spec fn root_line(dump: Seq<char>, index: nat) -> Seq<char>
    recommends
        1 <= index <= root_count(dump),
{
    lines_of(dump)[index - 1]
}

/// Whether `word` looks like a bitrate.
fn looks_like_rate(word: &Vec<char>) -> (r: bool)
    ensures
        r == rate_shaped(word@),
{
    word.len() >= 2 && digit(word[0]) && word[word.len() - 1] == 'k'
}

/// Position of the first word at or after `from` that looks like a bitrate.
fn find_rate(words: &Vec<Vec<char>>, from: usize) -> (r: usize)
    requires
        from <= words.len(),
    ensures
        r == rate_index(texts(words@), from as int),
        from <= r <= words.len(),
{
    let mut i: usize = from;
    while i < words.len()
        invariant
            from <= i <= words.len(),
            rate_index(texts(words@), from as int) == rate_index(texts(words@), i as int),
        decreases words.len() - i,
    {
        assert(texts(words@)[i as int] == words@[i as int]@);
        if looks_like_rate(&words[i]) {
            return i;
        }
        i += 1;
    }
    i
}

/// The words `words[from..to]` with one space between neighbours.
fn join_words(words: &Vec<Vec<char>>, from: usize, to: usize) -> (out: Vec<char>)
    requires
        from <= to <= words.len(),
    ensures
        out@ == joined(texts(words@), from as int, to as int),
{
    let mut out: Vec<char> = Vec::new();
    let mut i: usize = from;
    while i < to
        invariant
            from <= i <= to <= words.len(),
            out@ == joined(texts(words@), from as int, i as int),
        decreases to - i,
    {
        assert(texts(words@)[i as int] == words@[i as int]@);
        if i > from {
            out.push(' ');
        }
        push_text(&mut out, &words[i]);
        i += 1;
    }
    out
}

/// Reads the bitrate that `size` writes.
fn read_rate(size: &Vec<char>) -> (r: Option<u64>)
    ensures
        r == rate_value(size@),
{
    let n = size.len();
    if n < 2 || size[n - 1] != 'k' {
        return None;
    }
    let digits = slice_of(size, 0, n - 1);
    assert(digits@ == size@.drop_last());
    match parse_number(&digits) {
        Some(kilobits) => {
            if kilobits <= u64::MAX / 1000 {
                Some(kilobits * 1000)
            } else {
                None
            }
        },
        None => None,
    }
}

impl VideoFormat {
    /// Reads one line of the table of formats.
    ///
    /// Returns the row exactly when the line is one; a header, a note of the
    /// downloader or a row of a picture without sound gives nothing.
    pub fn from_command(line: &str) -> (r: Option<VideoFormat>)
        ensures
            r is Some <==> is_table_row(line@),
            match r {
                Some(row) => table_row(line@) == Some(row@),
                None => table_row(line@) is None,
            },
    {
        let text = chars_of(line);
        if text.len() == 0 || !digit(text[0]) {
            return None;
        }
        if contains(&text, &chars_of(VIDEO_ONLY)) {
            return None;
        }
        let words = split_words(&text);
        if words.len() < 3 {
            return None;
        }
        proof {
            assert(texts(words@)[0] == words@[0]@);
            assert(texts(words@)[1] == words@[1]@);
            assert(texts(words@)[2] == words@[2]@);
        }
        let code: u32 = match parse_number(&words[0]) {
            Some(n) => {
                if n > 0xffff_ffff {
                    return None;
                }
                n as u32
            },
            None => {
                return None;
            },
        };
        let start: usize = if words.len() > 3 && same_text(&words[2], &chars_of(AUDIO))
            && same_text(&words[3], &chars_of(ONLY)) {
            4
        } else {
            3
        };
        proof {
            if words.len() > 3 {
                assert(texts(words@)[3] == words@[3]@);
            }
        }
        let rate = find_rate(&words, start);
        let size = if rate < words.len() {
            assert(texts(words@)[rate as int] == words@[rate as int]@);
            whole_text(&words[rate])
        } else {
            String::new()
        };
        Some(
            VideoFormat {
                code,
                file_extension: whole_text(&words[1]),
                resolution: whole_text(&words[2]),
                note: whole_text(&join_words(&words, start, rate)),
                size,
            },
        )
    }

    /// The line that shows the row in a list of choices: extension, picture
    /// size and bitrate. A row whose bitrate cannot be read has no line.
    pub fn to_frontend(&self) -> (label: Option<String>)
        ensures
            text_view(label) == descriptor_of(self@).frontend_label(),
            label is None <==> rate_value(self@.size) is None,
    {
        self.to_descriptor().to_frontend()
    }

    /// The variant that the row describes.
    pub fn to_descriptor(&self) -> (d: FormatDescriptor)
        ensures
            d@ == descriptor_of(self@),
    {
        let mut id: Vec<char> = Vec::new();
        push_decimal(&mut id, self.code as u64);
        let resolution = if same_text(&chars_of(self.resolution.as_str()), &chars_of(AUDIO)) {
            None
        } else {
            Some(self.resolution.clone())
        };
        FormatDescriptor {
            id: whole_text(&id),
            extension: self.file_extension.clone(),
            resolution,
            video_codec: None,
            audio_codec: None,
            audio_channels: None,
            size_bytes: None,
            size_bytes_approx: None,
            bitrate: read_rate(&chars_of(self.size.as_str())),
            note: self.note.clone(),
        }
    }
}

/// Builds the catalog of the rows among `lines[from..]`.
fn catalog_of_lines(lines: &Vec<Vec<char>>, from: usize) -> (c: ItemFormatCatalog)
    requires
        from <= lines.len(),
    ensures
        c@ == table_catalog(texts(lines@).subrange(from as int, lines.len() as int)),
{
    let mut catalog = ItemFormatCatalog::empty();
    let ghost all = texts(lines@);
    let mut i: usize = from;
    assert(all.subrange(from as int, from as int) == Seq::<Seq<char>>::empty());
    while i < lines.len()
        invariant
            from <= i <= lines.len(),
            all == texts(lines@),
            catalog@ == table_catalog(all.subrange(from as int, i as int)),
        decreases lines.len() - i,
    {
        let ghost longer = all.subrange(from as int, i + 1);
        proof {
            assert(longer.drop_last() == all.subrange(from as int, i as int));
            assert(longer.last() == lines@[i as int]@);
        }
        let line = whole_text(&lines[i]);
        match VideoFormat::from_command(line.as_str()) {
            Some(row) => {
                catalog.add_format(row.to_descriptor());
            },
            None => {},
        }
        i += 1;
    }
    catalog
}

/// Reads the table of formats of one item.
///
/// Lines that are no rows are passed over, and so is a row whose code an
/// earlier row has. A listing without a single row gives the empty catalog.
pub fn parse_table(raw_dump: &str) -> (c: ItemFormatCatalog)
    ensures
        c@ == table_catalog(lines_of(raw_dump@)),
{
    let lines = split_lines(&chars_of(raw_dump));
    assert(texts(lines@).subrange(0, lines.len() as int) == texts(lines@));
    catalog_of_lines(&lines, 0)
}

/// Reads the listing of a batch: the tables of its items, each opened by a
/// line that tells which item follows.
///
/// Returns one catalog for each item of which the listing holds at least one
/// row, in the order of the listing.
pub fn fetch_formats(output: &str) -> (all_videos: Vec<ItemFormatCatalog>)
    ensures
        catalog_views(all_videos@) == batch_catalogs(pieces_of(output@, ITEM_MARKER@)),
{
    proof {
        reveal_strlit("[download] Downloading video");
    }
    let marker = chars_of(ITEM_MARKER);
    let pieces = split_pieces(&chars_of(output), &marker);
    let ghost all = texts(pieces@);
    let mut all_videos: Vec<ItemFormatCatalog> = Vec::new();
    let mut i: usize = 0;
    assert(all.subrange(0, 0) == Seq::<Seq<char>>::empty());
    while i < pieces.len()
        invariant
            i <= pieces.len(),
            all == texts(pieces@),
            catalog_views(all_videos@) == batch_catalogs(all.subrange(0, i as int)),
        decreases pieces.len() - i,
    {
        let ghost longer = all.subrange(0, i + 1);
        proof {
            assert(longer.drop_last() == all.subrange(0, i as int));
            assert(longer.last() == pieces@[i as int]@);
        }
        let lines = split_lines(&pieces[i]);
        let from: usize = if lines.len() == 0 {
            0
        } else {
            1
        };
        proof {
            if lines.len() == 0 {
                assert(texts(lines@).subrange(0, 0) == texts(lines@));
            }
        }
        let video = catalog_of_lines(&lines, from);
        if !video.is_empty() {
            let ghost before = catalog_views(all_videos@);
            let ghost added = video@;
            all_videos.push(video);
            assert(catalog_views(all_videos@) == before.push(added));
        }
        i += 1;
    }
    assert(all.subrange(0, pieces.len() as int) == all);
    all_videos
}

/// Counts the items of a dump that holds one line for each item.
pub fn count_roots(dump: &str) -> (n: usize)
    ensures
        n == root_count(dump@),
{
    let lines = split_lines(&chars_of(dump));
    assert(texts(lines@).len() == lines@.len());
    lines.len()
}

/// Picks one item's line out of a dump that holds one line for each item.
///
/// `index` counts from one and must name a line of the dump; `count_roots`
/// says how many there are. No other line has a part in the result.
pub fn select_root(dump: &str, index: usize) -> (r: String)
    requires
        1 <= index <= root_count(dump@),
    ensures
        r@ == root_line(dump@, index as nat),
{
    let lines = split_lines(&chars_of(dump));
    assert(texts(lines@).len() == lines@.len());
    assert(texts(lines@)[index - 1] == lines@[index - 1]@);
    whole_text(&lines[index - 1])
}

} // verus!
