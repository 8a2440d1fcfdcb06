//! The download variants of an item, and how one is shown to the user.

use vstd::prelude::*;
use crate::numbers::{
    decimal, pad_right, push_decimal, push_padded, push_text, push_two_decimals, round_div,
    rounded_div, two_decimals,
};
use crate::text::{chars_of, string_of};

verus! {

/// What the user wants to download.
#[derive(Debug, Clone, Copy, PartialEq, Eq, Structural)]
pub enum MediaKind {
    /// Picture and sound.
    Video,
    /// Sound without a picture.
    AudioOnly,
    /// A picture without sound.
    VideoOnly,
}

/// The decision on format and quality, for a batch or for one item.
#[derive(Debug, Clone, PartialEq, Eq)]
pub enum FormatSelection {
    /// The variant with this identifier.
    UniqueFormat(String),
    /// Whatever is downloaded is converted to this file extension.
    ConvertTo(String),
    BestQuality,
    SmallestSize,
    WorstQuality,
}

/// A `FormatSelection` as plain values.
pub enum FormatSelectionModel {
    UniqueFormat(Seq<char>),
    ConvertTo(Seq<char>),
    BestQuality,
    SmallestSize,
    WorstQuality,
}

impl View for FormatSelection {
    type V = FormatSelectionModel;

    open spec fn view(&self) -> FormatSelectionModel {
        match *self {
            FormatSelection::UniqueFormat(id) => FormatSelectionModel::UniqueFormat(id@),
            FormatSelection::ConvertTo(extension) => FormatSelectionModel::ConvertTo(extension@),
            FormatSelection::BestQuality => FormatSelectionModel::BestQuality,
            FormatSelection::SmallestSize => FormatSelectionModel::SmallestSize,
            FormatSelection::WorstQuality => FormatSelectionModel::WorstQuality,
        }
    }
}

/// The view of an optional decision.
pub open spec fn selection_view(s: Option<FormatSelection>) -> Option<FormatSelectionModel> {
    match s {
        Some(s) => Some(s@),
        None => None,
    }
}

/// One downloadable variant of one item.
#[derive(Debug, Clone, PartialEq, Eq)]
pub struct FormatDescriptor {
    /// The identifier by which the downloader knows the variant.
    pub id: String,
    /// The file extension.
    pub extension: String,
    /// The size of the picture; `None` for a variant that has sound only.
    pub resolution: Option<String>,
    /// The video codec; `None` where the variant has none.
    pub video_codec: Option<String>,
    /// The audio codec; `None` where the variant has none.
    pub audio_codec: Option<String>,
    /// The number of audio channels, where it is known.
    pub audio_channels: Option<u64>,
    /// The exact size in bytes, where it is known.
    pub size_bytes: Option<u64>,
    /// An estimate of the size in bytes, for when the exact size is unknown.
    pub size_bytes_approx: Option<u64>,
    /// The average bitrate in bits per second. A variant without one is a
    /// still image and is never offered.
    pub bitrate: Option<u64>,
    /// A free label of the quality.
    pub note: String,
}

/// A `FormatDescriptor` as plain values.
pub struct FormatModel {
    pub id: Seq<char>,
    pub extension: Seq<char>,
    pub resolution: Option<Seq<char>>,
    pub video_codec: Option<Seq<char>>,
    pub audio_codec: Option<Seq<char>>,
    pub audio_channels: Option<u64>,
    pub size_bytes: Option<u64>,
    pub size_bytes_approx: Option<u64>,
    pub bitrate: Option<u64>,
    pub note: Seq<char>,
}

/// The view of an optional text.
pub open spec fn text_view(s: Option<String>) -> Option<Seq<char>> {
    match s {
        Some(s) => Some(s@),
        None => None,
    }
}

impl View for FormatDescriptor {
    type V = FormatModel;

    open spec fn view(&self) -> FormatModel {
        FormatModel {
            id: self.id@,
            extension: self.extension@,
            resolution: text_view(self.resolution),
            video_codec: text_view(self.video_codec),
            audio_codec: text_view(self.audio_codec),
            audio_channels: self.audio_channels,
            size_bytes: self.size_bytes,
            size_bytes_approx: self.size_bytes_approx,
            bitrate: self.bitrate,
            note: self.note@,
        }
    }
}

impl FormatModel {
    /// The variant has sound only.
    pub open spec fn is_audio_only(self) -> bool {
        self.resolution is None
    }

    /// The variant is a still image: it has no bitrate.
    pub open spec fn is_thumbnail(self) -> bool {
        self.bitrate is None
    }

    /// The size to show: the exact one, else the estimate.
    pub open spec fn shown_size(self) -> Option<u64> {
        match self.size_bytes {
            Some(bytes) => Some(bytes),
            None => self.size_bytes_approx,
        }
    }

    /// Whether the variant is of the kind that the user wants.
    ///
    /// For video a variant with sound only is left out; for audio every
    /// variant but those. A variant counts as video without sound if it has a
    /// picture and neither an audio codec nor audio channels.
    pub open spec fn eligible(self, kind: MediaKind) -> bool {
        match kind {
            MediaKind::Video => !self.is_audio_only(),
            MediaKind::AudioOnly => self.is_audio_only(),
            MediaKind::VideoOnly => !self.is_audio_only() && self.audio_codec is None
                && self.audio_channels is None,
        }
    }

    /// Whether the variant may appear in a list of choices for `kind`.
    pub open spec fn offered(self, kind: MediaKind) -> bool {
        !self.is_thumbnail() && self.eligible(kind)
    }

    /// The column that shows the picture's size; nothing for sound only.
    pub open spec fn resolution_column(self) -> Seq<char> {
        match self.resolution {
            Some(r) => "| "@ + pad_right(r, 13) + " "@,
            None => Seq::empty(),
        }
    }

    /// The column that shows the size in megabytes, with two decimals;
    /// nothing where no size is known.
    pub open spec fn size_column(self) -> Seq<char> {
        match self.shown_size() {
            Some(bytes) => pad_right(
                "| filesize: "@ + two_decimals(rounded_div(bytes as nat, 10_000)) + "MB"@,
                24,
            ),
            None => Seq::empty(),
        }
    }

    /// The column that shows the audio channels; nothing where unknown.
    pub open spec fn channels_column(self) -> Seq<char> {
        match self.audio_channels {
            Some(n) => "| "@ + decimal(n as nat) + " audio ch "@,
            None => Seq::empty(),
        }
    }

    /// The column that shows a bitrate in kilobits per second.
    pub open spec fn bitrate_column(bitrate: u64) -> Seq<char> {
        "| tbr: "@ + pad_right(two_decimals(rounded_div(bitrate as nat, 10)), 8) + " "@
    }

    /// A column that shows a codec under `title`; nothing where it is absent.
    pub open spec fn codec_column(title: Seq<char>, codec: Option<Seq<char>>) -> Seq<char> {
        match codec {
            Some(c) => title + pad_right(c, 13) + " "@,
            None => Seq::empty(),
        }
    }

    /// The variant can be shown with its size: it is a still image, which is
    /// not shown at all, or its size is known, exactly or by estimate.
    pub open spec fn sized_or_thumbnail(self) -> bool {
        self.is_thumbnail() || self.shown_size() is Some
    }

    /// The line that shows a variant of which the listing gives no size, as
    /// the rows of a table do: extension, picture size and bitrate. Nothing
    /// for a still image.
    pub open spec fn frontend_label(self) -> Option<Seq<char>> {
        match self.bitrate {
            None => None,
            Some(bitrate) => Some(
                pad_right(self.extension, 6) + " "@ + self.resolution_column()
                    + Self::bitrate_column(bitrate),
            ),
        }
    }

    /// The line that shows the variant in a list of choices: the one with
    /// the size where the size is known, else the one without. Nothing for a
    /// still image.
    pub open spec fn list_label(self) -> Option<Seq<char>> {
        if self.shown_size() is Some {
            self.display_label()
        } else {
            self.frontend_label()
        }
    }

    /// The line that shows a variant with its size, or nothing for a still
    /// image.
    pub open spec fn display_label(self) -> Option<Seq<char>>
        recommends
            self.sized_or_thumbnail(),
    {
        match self.bitrate {
            None => None,
            Some(bitrate) => Some(
                pad_right(self.extension, 6) + " "@ + self.resolution_column()
                    + self.size_column() + self.channels_column() + Self::bitrate_column(bitrate)
                    + Self::codec_column("| vcodec: "@, self.video_codec) + Self::codec_column(
                    "| acodec: "@,
                    self.audio_codec,
                ),
            ),
        }
    }
}

/// A copy of an optional text.
pub fn copy_text(s: &Option<String>) -> (r: Option<String>)
    ensures
        text_view(r) == text_view(*s),
{
    match s {
        Some(s) => Some(s.clone()),
        None => None,
    }
}

/// Appends a codec column to `out`.
fn push_codec(out: &mut Vec<char>, title: &str, codec: &Option<String>)
    ensures
        final(out)@ == old(out)@ + FormatModel::codec_column(title@, text_view(*codec)),
{
    match codec {
        Some(c) => {
            push_text(out, &chars_of(title));
            push_padded(out, &chars_of(c.as_str()), 13);
            push_text(out, &chars_of(" "));
        },
        None => {},
    }
}

impl FormatDescriptor {
    /// A variant with the given identifier, extension, resolution and
    /// bitrate, and nothing else known of it.
    pub fn new(id: &str, extension: &str, resolution: Option<&str>, bitrate: Option<u64>) -> (d:
        FormatDescriptor)
        ensures
            d@.id == id@,
            d@.extension == extension@,
            d@.resolution == match resolution {
                Some(r) => Some(r@),
                None => None,
            },
            d@.bitrate == bitrate,
            d@.video_codec is None,
            d@.audio_codec is None,
            d@.audio_channels is None,
            d@.size_bytes is None,
            d@.size_bytes_approx is None,
            d@.note == Seq::<char>::empty(),
    {
        FormatDescriptor {
            id: id.to_owned(),
            extension: extension.to_owned(),
            resolution: match resolution {
                Some(r) => Some(r.to_owned()),
                None => None,
            },
            video_codec: None,
            audio_codec: None,
            audio_channels: None,
            size_bytes: None,
            size_bytes_approx: None,
            bitrate,
            note: String::new(),
        }
    }

    /// A copy of the variant.
    pub fn duplicate(&self) -> (d: FormatDescriptor)
        ensures
            d@ == self@,
    {
        FormatDescriptor {
            id: self.id.clone(),
            extension: self.extension.clone(),
            resolution: copy_text(&self.resolution),
            video_codec: copy_text(&self.video_codec),
            audio_codec: copy_text(&self.audio_codec),
            audio_channels: self.audio_channels,
            size_bytes: self.size_bytes,
            size_bytes_approx: self.size_bytes_approx,
            bitrate: self.bitrate,
            note: self.note.clone(),
        }
    }

    /// Whether the variant has sound only.
    pub fn is_audio_only(&self) -> (r: bool)
        ensures
            r == self@.is_audio_only(),
    {
        self.resolution.is_none()
    }

    /// Whether the variant is of the kind that the user wants.
    pub fn eligible(&self, kind: &MediaKind) -> (r: bool)
        ensures
            r == self@.eligible(*kind),
    {
        match kind {
            MediaKind::Video => self.resolution.is_some(),
            MediaKind::AudioOnly => self.resolution.is_none(),
            MediaKind::VideoOnly => self.resolution.is_some() && self.audio_codec.is_none()
                && self.audio_channels.is_none(),
        }
    }

    /// Whether the variant may appear in a list of choices for `kind`: a
    /// still image never does.
    pub fn offered(&self, kind: &MediaKind) -> (r: bool)
        ensures
            r == self@.offered(*kind),
    {
        self.bitrate.is_some() && self.eligible(kind)
    }

    /// The line that shows the variant with its size.
    ///
    /// A still image has no such line. Any other variant must have a size,
    /// exact or estimated, as every variant of a catalog made from records
    /// has; a variant without one has the line of `to_frontend`.
    pub fn to_string(&self) -> (label: Option<String>)
        requires
            self@.sized_or_thumbnail(),
        ensures
            text_view(label) == self@.display_label(),
            label is None <==> self@.is_thumbnail(),
    {
        let bitrate = match self.bitrate {
            None => {
                return None;
            },
            Some(b) => b,
        };
        let bytes: u64 = match self.size_bytes {
            Some(bytes) => bytes,
            None => match self.size_bytes_approx {
                Some(bytes) => bytes,
                None => vstd::pervasive::unreached(),
            },
        };
        let mut out: Vec<char> = Vec::new();
        self.push_front(&mut out);
        let mut column: Vec<char> = Vec::new();
        push_text(&mut column, &chars_of("| filesize: "));
        push_two_decimals(&mut column, round_div(bytes, 10_000));
        push_text(&mut column, &chars_of("MB"));
        push_padded(&mut out, &column, 24);
        assert(out@ == pad_right(self@.extension, 6) + " "@ + self@.resolution_column()
            + self@.size_column());
        match self.audio_channels {
            Some(n) => {
                push_text(&mut out, &chars_of("| "));
                push_decimal(&mut out, n);
                push_text(&mut out, &chars_of(" audio ch "));
            },
            None => {},
        }
        assert(out@ == pad_right(self@.extension, 6) + " "@ + self@.resolution_column()
            + self@.size_column() + self@.channels_column());
        push_bitrate(&mut out, bitrate);
        assert(out@ == pad_right(self@.extension, 6) + " "@ + self@.resolution_column()
            + self@.size_column() + self@.channels_column() + FormatModel::bitrate_column(
            bitrate,
        ));
        push_codec(&mut out, "| vcodec: ", &self.video_codec);
        push_codec(&mut out, "| acodec: ", &self.audio_codec);
        Some(whole_text(&out))
    }

    /// The line that shows a variant of which the listing gives no size, as
    /// the rows of a table do: extension, picture size and bitrate.
    ///
    /// A still image has no such line.
    pub fn to_frontend(&self) -> (label: Option<String>)
        ensures
            text_view(label) == self@.frontend_label(),
            label is None <==> self@.is_thumbnail(),
    {
        match self.bitrate {
            None => None,
            Some(bitrate) => {
                let mut out: Vec<char> = Vec::new();
                self.push_front(&mut out);
                push_bitrate(&mut out, bitrate);
                Some(whole_text(&out))
            },
        }
    }

    /// The line that shows the variant in a list of choices: the one with
    /// the size where the size is known, else the one without.
    ///
    /// A still image has no such line.
    pub fn line_for_list(&self) -> (label: Option<String>)
        ensures
            text_view(label) == self@.list_label(),
            label is None <==> self@.is_thumbnail(),
    {
        if self.size_bytes.is_some() || self.size_bytes_approx.is_some() {
            self.to_string()
        } else {
            self.to_frontend()
        }
    }

    /// Appends the columns that every line begins with: the extension and,
    /// unless the variant has sound only, the size of the picture.
    fn push_front(&self, out: &mut Vec<char>)
        ensures
            final(out)@ == old(out)@ + (pad_right(self@.extension, 6) + " "@
                + self@.resolution_column()),
    {
        push_padded(out, &chars_of(self.extension.as_str()), 6);
        push_text(out, &chars_of(" "));
        match &self.resolution {
            Some(r) => {
                push_text(out, &chars_of("| "));
                push_padded(out, &chars_of(r.as_str()), 13);
                push_text(out, &chars_of(" "));
            },
            None => {},
        }
    }
}

/// Appends the column that shows a bitrate to `out`.
fn push_bitrate(out: &mut Vec<char>, bitrate: u64)
    ensures
        final(out)@ == old(out)@ + FormatModel::bitrate_column(bitrate),
{
    push_text(out, &chars_of("| tbr: "));
    let mut rate: Vec<char> = Vec::new();
    push_two_decimals(&mut rate, round_div(bitrate, 10));
    push_padded(out, &rate, 8);
    push_text(out, &chars_of(" "));
}

/// The whole of `chars` as a string.
pub fn whole_text(chars: &Vec<char>) -> (s: String)
    ensures
        s@ == chars@,
{
    let n = chars.len();
    assert(chars@.subrange(0, n as int) == chars@);
    string_of(chars, 0, n)
}

} // verus!
