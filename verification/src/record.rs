//! The downloader's structured description of an item: one record for each
//! variant, with the fields as the downloader names them.

use vstd::prelude::*;
use crate::catalog::{distinct_ids, format_models, ItemFormatCatalog, ParseError};
use crate::format::{FormatDescriptor, FormatModel};
use crate::text::{chars_of, same_text};

verus! {

/// What the field `resolution` holds for sound without a picture.
pub const AUDIO_ONLY: &'static str = "audio only";

/// What a codec field holds where the variant has no such codec.
pub const NO_CODEC: &'static str = "none";

/// One variant as the downloader describes it. Sizes are in bytes and the
/// bitrate in bits per second; a field that the downloader leaves out or
/// sets to null is `None`.
#[derive(Debug, Clone, PartialEq, Eq)]
pub struct FormatRecord {
    pub format_id: String,
    pub ext: String,
    pub audio_channels: Option<u64>,
    pub resolution: String,
    pub filesize: Option<u64>,
    pub vcodec: String,
    pub acodec: String,
    pub format_note: String,
    pub tbr: Option<u64>,
    pub filesize_approx: Option<u64>,
}

/// A `FormatRecord` as plain values.
pub struct FormatRecordModel {
    pub format_id: Seq<char>,
    pub ext: Seq<char>,
    pub audio_channels: Option<u64>,
    pub resolution: Seq<char>,
    pub filesize: Option<u64>,
    pub vcodec: Seq<char>,
    pub acodec: Seq<char>,
    pub format_note: Seq<char>,
    pub tbr: Option<u64>,
    pub filesize_approx: Option<u64>,
}

impl View for FormatRecord {
    type V = FormatRecordModel;

    open spec fn view(&self) -> FormatRecordModel {
        FormatRecordModel {
            format_id: self.format_id@,
            ext: self.ext@,
            audio_channels: self.audio_channels,
            resolution: self.resolution@,
            filesize: self.filesize,
            vcodec: self.vcodec@,
            acodec: self.acodec@,
            format_note: self.format_note@,
            tbr: self.tbr,
            filesize_approx: self.filesize_approx,
        }
    }
}

/// The text unless it is the word that stands for "nothing".
pub open spec fn unless(text: Seq<char>, nothing: Seq<char>) -> Option<Seq<char>> {
    if text == nothing {
        None
    } else {
        Some(text)
    }
}

/// The variant that a record describes.
pub open spec fn descriptor_of_record(record: FormatRecordModel) -> FormatModel {
    FormatModel {
        id: record.format_id,
        extension: record.ext,
        resolution: unless(record.resolution, AUDIO_ONLY@),
        video_codec: unless(record.vcodec, NO_CODEC@),
        audio_codec: unless(record.acodec, NO_CODEC@),
        audio_channels: record.audio_channels,
        size_bytes: record.filesize,
        size_bytes_approx: record.filesize_approx,
        bitrate: record.tbr,
        note: record.format_note,
    }
}

/// The record has a size, exact or estimated, unless it is a still image.
pub open spec fn has_size_or_is_thumbnail(record: FormatRecordModel) -> bool {
    record.tbr is None || record.filesize is Some || record.filesize_approx is Some
}

/// The views of the records of `v`, in order.
pub open spec fn record_models(v: Seq<FormatRecord>) -> Seq<FormatRecordModel> {
    Seq::new(v.len(), |k: int| v[k]@)
}

/// The variants that the records describe, in order.
pub open spec fn descriptors_of(records: Seq<FormatRecordModel>) -> Seq<FormatModel> {
    Seq::new(records.len(), |k: int| descriptor_of_record(records[k]))
}

/// The records describe the variants of one item: no identifier occurs
/// twice, and each variant that is no still image has a size.
pub open spec fn well_formed_records(records: Seq<FormatRecordModel>) -> bool {
    &&& distinct_ids(descriptors_of(records))
    &&& forall|k: int| 0 <= k < records.len() ==> has_size_or_is_thumbnail(#[trigger] records[k])
}

/// A copy of the text unless it is the word that stands for "nothing".
fn text_unless(text: &String, nothing: &str) -> (r: Option<String>)
    ensures
        crate::format::text_view(r) == unless(text@, nothing@),
{
    if same_text(&chars_of(text.as_str()), &chars_of(nothing)) {
        None
    } else {
        Some(text.clone())
    }
}

impl FormatDescriptor {
    /// The variant that a record of the downloader describes.
    pub fn from_record(record: &FormatRecord) -> (d: FormatDescriptor)
        ensures
            d@ == descriptor_of_record(record@),
    {
        FormatDescriptor {
            id: record.format_id.clone(),
            extension: record.ext.clone(),
            resolution: text_unless(&record.resolution, AUDIO_ONLY),
            video_codec: text_unless(&record.vcodec, NO_CODEC),
            audio_codec: text_unless(&record.acodec, NO_CODEC),
            audio_channels: record.audio_channels,
            size_bytes: record.filesize,
            size_bytes_approx: record.filesize_approx,
            bitrate: record.tbr,
            note: record.format_note.clone(),
        }
    }
}

impl ItemFormatCatalog {
    /// The catalog of the item that the records describe.
    ///
    /// Records that share an identifier, or a record with a bitrate and no
    /// size at all, do not describe an item: such a dump is malformed.
    pub fn from_records(records: &Vec<FormatRecord>) -> (r: Result<ItemFormatCatalog, ParseError>)
        ensures
            r is Ok <==> well_formed_records(record_models(records@)),
            r is Ok ==> r->Ok_0@ == descriptors_of(record_models(records@)),
            r is Err ==> r->Err_0 == ParseError::Malformed,
    {
        let ghost all = record_models(records@);
        let mut formats: Vec<FormatDescriptor> = Vec::new();
        let mut i: usize = 0;
        while i < records.len()
            invariant
                i <= records.len(),
                all == record_models(records@),
                format_models(formats@) == descriptors_of(all).subrange(0, i as int),
                forall|k: int| 0 <= k < i ==> has_size_or_is_thumbnail(#[trigger] all[k]),
            decreases records.len() - i,
        {
            let record = &records[i];
            assert(all[i as int] == record@);
            if record.tbr.is_some() && record.filesize.is_none() && record.filesize_approx.is_none() {
                assert(!has_size_or_is_thumbnail(all[i as int]));
                return Err(ParseError::Malformed);
            }
            let ghost before = format_models(formats@);
            formats.push(FormatDescriptor::from_record(record));
            assert(format_models(formats@) == before.push(descriptor_of_record(record@)));
            i += 1;
        }
        assert(descriptors_of(all).subrange(0, records.len() as int) == descriptors_of(all));
        ItemFormatCatalog::new(formats)
    }
}

} // verus!
