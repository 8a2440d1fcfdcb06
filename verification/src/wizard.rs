//! The decisions behind the questions that are put to the user before a
//! download. Asking is left to the caller: each function takes the line
//! that was picked and says what it means.

use vstd::prelude::*;
use crate::catalog::{format_models, ItemFormatCatalog};
use crate::format::{selection_view, FormatModel, FormatSelection, FormatSelectionModel, MediaKind};
use crate::intersect::choice_ids;
use crate::text::{lemma_filter_nothing, string_views};

verus! {

/// The lines of the question for the kind of media, in their order.
pub const MEDIA_VIDEO_OPTION: &'static str = "Normal Video";

pub const MEDIA_AUDIO_OPTION: &'static str = "Audio-only";

pub const MEDIA_VIDEO_ONLY_OPTION: &'static str = "Video-only";

/// The lines of the question for one video's format, in their order. The
/// line on conversion is there only where a converter is installed.
pub const BEST_QUALITY_PROMPT_SINGLE_VIDEO: &'static str = "Best possible quality";

pub const SMALLEST_QUALITY_PROMPT_SINGLE_VIDEO: &'static str = "Smallest file size";

pub const CONVERT_FORMAT_PROMPT_VIDEO_SINGLE_VIDEO: &'static str =
    "Choose a file format to convert the video to";

pub const YT_FORMAT_PROMPT_SINGLE_VIDEO: &'static str =
    "Choose a format that the site offers for download";

/// The kind of media behind a line of the first question.
pub open spec fn media_kind_for(choice: int) -> Option<MediaKind> {
    if choice == 0 {
        Some(MediaKind::Video)
    } else if choice == 1 {
        Some(MediaKind::AudioOnly)
    } else if choice == 2 {
        Some(MediaKind::VideoOnly)
    } else {
        None
    }
}

/// Says which kind of media the user picked: line 0 is video, line 1 audio
/// only, line 2 video only. The question has no other line.
pub fn get_media_selection(media_selection: usize) -> (r: Option<MediaKind>)
    ensures
        r == media_kind_for(media_selection as int),
{
    if media_selection == 0 {
        Some(MediaKind::Video)
    } else if media_selection == 1 {
        Some(MediaKind::AudioOnly)
    } else if media_selection == 2 {
        Some(MediaKind::VideoOnly)
    } else {
        None
    }
}

/// Says whether the names of the files are to begin with the position in
/// the playlist: line 0 is yes, line 1 is no. The question has no other line.
pub fn get_index_preference(index_preference: usize) -> (r: Option<bool>)
    ensures
        r == if index_preference == 0 {
            Some(true)
        } else if index_preference == 1 {
            Some(false)
        } else {
            None
        },
{
    if index_preference == 0 {
        Some(true)
    } else if index_preference == 1 {
        Some(false)
    } else {
        None
    }
}

/// What follows the user's pick from the question for one video's format.
pub enum VideoMenuStep {
    /// The pick settles the format.
    Decided(FormatSelection),
    /// The user is asked next to which file format to convert.
    AskConversion,
    /// The user is asked next which of the site's formats to download.
    AskFormat,
}

/// A `VideoMenuStep` as plain values.
pub enum VideoMenuStepModel {
    Decided(FormatSelectionModel),
    AskConversion,
    AskFormat,
}

impl View for VideoMenuStep {
    type V = VideoMenuStepModel;

    open spec fn view(&self) -> VideoMenuStepModel {
        match *self {
            VideoMenuStep::Decided(selection) => VideoMenuStepModel::Decided(selection@),
            VideoMenuStep::AskConversion => VideoMenuStepModel::AskConversion,
            VideoMenuStep::AskFormat => VideoMenuStepModel::AskFormat,
        }
    }
}

/// The lines of the question for one video's format.
pub open spec fn video_options(converter_installed: bool) -> Seq<Seq<char>> {
    if converter_installed {
        seq![
            BEST_QUALITY_PROMPT_SINGLE_VIDEO@,
            SMALLEST_QUALITY_PROMPT_SINGLE_VIDEO@,
            CONVERT_FORMAT_PROMPT_VIDEO_SINGLE_VIDEO@,
            YT_FORMAT_PROMPT_SINGLE_VIDEO@,
        ]
    } else {
        seq![
            BEST_QUALITY_PROMPT_SINGLE_VIDEO@,
            SMALLEST_QUALITY_PROMPT_SINGLE_VIDEO@,
            YT_FORMAT_PROMPT_SINGLE_VIDEO@,
        ]
    }
}

/// What follows the pick of line `choice`.
pub open spec fn video_step_for(converter_installed: bool, choice: int) -> VideoMenuStepModel {
    if choice == 0 {
        VideoMenuStepModel::Decided(FormatSelectionModel::BestQuality)
    } else if choice == 1 {
        VideoMenuStepModel::Decided(FormatSelectionModel::SmallestSize)
    } else if choice == 2 && converter_installed {
        VideoMenuStepModel::AskConversion
    } else {
        VideoMenuStepModel::AskFormat
    }
}

/// Writes the question for one video's format. Conversion is offered only
/// where a converter is installed.
pub fn video_format_options(converter_installed: bool) -> (format_options: Vec<String>)
    ensures
        string_views(format_options@) == video_options(converter_installed),
{
    let mut format_options: Vec<String> = Vec::new();
    format_options.push(BEST_QUALITY_PROMPT_SINGLE_VIDEO.to_owned());
    format_options.push(SMALLEST_QUALITY_PROMPT_SINGLE_VIDEO.to_owned());
    if converter_installed {
        format_options.push(CONVERT_FORMAT_PROMPT_VIDEO_SINGLE_VIDEO.to_owned());
    }
    format_options.push(YT_FORMAT_PROMPT_SINGLE_VIDEO.to_owned());
    assert(string_views(format_options@) == video_options(converter_installed));
    format_options
}

/// Says what follows the user's pick from the question for one video's
/// format: the first two lines settle it, the others lead to a further
/// question.
pub fn video_menu_step(converter_installed: bool, user_selection: usize) -> (step: VideoMenuStep)
    ensures
        step@ == video_step_for(converter_installed, user_selection as int),
{
    if user_selection == 0 {
        VideoMenuStep::Decided(FormatSelection::BestQuality)
    } else if user_selection == 1 {
        VideoMenuStep::Decided(FormatSelection::SmallestSize)
    } else if user_selection == 2 && converter_installed {
        VideoMenuStep::AskConversion
    } else {
        VideoMenuStep::AskFormat
    }
}

/// Whether a variant is offered for `kind`.
pub open spec fn is_offered(kind: MediaKind) -> spec_fn(FormatModel) -> bool {
    |d: FormatModel| d.offered(kind)
}

/// The variants of `catalog` that are offered for `kind`, in order.
pub open spec fn offered_formats(catalog: Seq<FormatModel>, kind: MediaKind) -> Seq<FormatModel> {
    catalog.filter(is_offered(kind))
}

/// The lines that show `choices`, one for each.
pub open spec fn format_lines(choices: Seq<FormatModel>) -> Seq<Seq<char>> {
    Seq::new(choices.len(), |k: int| choices[k].list_label()->Some_0)
}

/// Lists the variants of one item that the user can pick for `kind`: the
/// lines to show and, in the same order, the identifiers behind them. Still
/// images are left out.
pub fn list_formats(catalog: &ItemFormatCatalog, kind: &MediaKind) -> (r: (Vec<String>, Vec<String>))
    ensures
        string_views(r.0@) == format_lines(offered_formats(catalog@, *kind)),
        string_views(r.1@) == choice_ids(offered_formats(catalog@, *kind)),
{
    let formats = catalog.formats();
    let mut format_options: Vec<String> = Vec::new();
    let mut correct_ids: Vec<String> = Vec::new();
    let mut p: usize = 0;
    proof {
        assert(catalog@.subrange(0, 0) == Seq::<FormatModel>::empty());
        lemma_filter_nothing(is_offered(*kind));
    }
    while p < formats.len()
        invariant
            p <= formats.len(),
            format_models(formats@) == catalog@,
            string_views(format_options@) == format_lines(
                offered_formats(catalog@.subrange(0, p as int), *kind),
            ),
            string_views(correct_ids@) == choice_ids(
                offered_formats(catalog@.subrange(0, p as int), *kind),
            ),
        decreases formats.len() - p,
    {
        assert(catalog@[p as int] == formats@[p as int]@);
        let ghost so_far = offered_formats(catalog@.subrange(0, p as int), *kind);
        proof {
            let shorter = catalog@.subrange(0, p as int);
            assert(catalog@.subrange(0, p + 1) == shorter.push(catalog@[p as int]));
            shorter.lemma_filter_push(catalog@[p as int], is_offered(*kind));
        }
        if formats[p].offered(kind) {
            match formats[p].line_for_list() {
                Some(label) => {
                    let ghost old_lines = string_views(format_options@);
                    let ghost old_ids = string_views(correct_ids@);
                    format_options.push(label);
                    correct_ids.push(formats[p].id.clone());
                    proof {
                        assert(string_views(format_options@) == old_lines.push(label@));
                        assert(string_views(correct_ids@) == old_ids.push(catalog@[p as int].id));
                        assert(string_views(format_options@) == format_lines(
                            so_far.push(catalog@[p as int]),
                        ));
                        assert(string_views(correct_ids@) == choice_ids(
                            so_far.push(catalog@[p as int]),
                        ));
                    }
                },
                None => {
                    assert(false);
                },
            }
        }
        p += 1;
    }
    assert(catalog@.subrange(0, formats.len() as int) == catalog@);
    (format_options, correct_ids)
}

/// Turns the line that the user picked from a list of one item's variants
/// into a decision. A line that the list does not have gives nothing.
pub fn get_format_from_yt(correct_ids: &Vec<String>, user_selection: usize) -> (r: Option<
    FormatSelection,
>)
    ensures
        selection_view(r) == if user_selection < correct_ids@.len() {
            Some(FormatSelectionModel::UniqueFormat(correct_ids@[user_selection as int]@))
        } else {
            None
        },
{
    if user_selection < correct_ids.len() {
        Some(FormatSelection::UniqueFormat(correct_ids[user_selection].clone()))
    } else {
        None
    }
}

} // verus!
