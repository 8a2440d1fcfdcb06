//! What a download needs to know, once every question is answered.

use vstd::prelude::*;
use crate::format::{FormatSelection, FormatSelectionModel, MediaKind};

verus! {

/// Everything needed to download one video.
#[derive(Debug)]
pub struct ConfigYtVideo {
    url: String,
    download_format: String,
    output_path: String,
}

impl ConfigYtVideo {
    pub fn new(url: String, download_format: String, output_path: String) -> (config: ConfigYtVideo)
        ensures
            config.url_text() == url@,
            config.format_text() == download_format@,
            config.path_text() == output_path@,
    {
        ConfigYtVideo { url, download_format, output_path }
    }

    /// The address of the video, as text.
    pub closed spec fn url_text(&self) -> Seq<char> {
        self.url@
    }

    /// The format to download, as text.
    pub closed spec fn format_text(&self) -> Seq<char> {
        self.download_format@
    }

    /// The directory to download to, as text.
    pub closed spec fn path_text(&self) -> Seq<char> {
        self.output_path@
    }

    /// The address of the video.
    pub fn url(&self) -> (r: &String)
        ensures
            r@ == self.url_text(),
    {
        &self.url
    }

    /// The format to download.
    pub fn download_format(&self) -> (r: &String)
        ensures
            r@ == self.format_text(),
    {
        &self.download_format
    }

    /// The directory to download to.
    pub fn output_path(&self) -> (r: &String)
        ensures
            r@ == self.path_text(),
    {
        &self.output_path
    }
}

/// Everything needed to download a playlist.
#[derive(Debug)]
pub struct YtPlaylistConfig {
    /// The address of the playlist.
    pub url: String,
    /// The directory to download to.
    pub output_path: String,
    /// Whether the names of the files begin with the position in the playlist.
    pub include_indexes: bool,
    /// The format and quality in which every item is downloaded.
    pub chosen_quality: FormatSelection,
    /// What is downloaded of each item.
    pub media_selected: MediaKind,
}

/// A `YtPlaylistConfig` as plain values.
pub struct YtPlaylistConfigModel {
    pub url: Seq<char>,
    pub output_path: Seq<char>,
    pub include_indexes: bool,
    pub chosen_quality: FormatSelectionModel,
    pub media_selected: MediaKind,
}

impl View for YtPlaylistConfig {
    type V = YtPlaylistConfigModel;

    open spec fn view(&self) -> YtPlaylistConfigModel {
        YtPlaylistConfigModel {
            url: self.url@,
            output_path: self.output_path@,
            include_indexes: self.include_indexes,
            chosen_quality: self.chosen_quality@,
            media_selected: self.media_selected,
        }
    }
}

/// Puts the user's answers together into the configuration of a playlist
/// download.
pub fn assemble_data(
    url: &String,
    media_selected: MediaKind,
    chosen_quality: FormatSelection,
    output_path: String,
    include_indexes: bool,
) -> (config: YtPlaylistConfig)
    ensures
        config@ == (YtPlaylistConfigModel {
            url: url@,
            output_path: output_path@,
            include_indexes,
            chosen_quality: chosen_quality@,
            media_selected,
        }),
{
    YtPlaylistConfig {
        url: url.clone(),
        output_path,
        include_indexes,
        chosen_quality,
        media_selected,
    }
}

} // verus!
