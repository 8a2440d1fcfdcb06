//! What holds of the library as a whole, proved from the definitions that
//! its contracts use.

use vstd::prelude::*;
use crate::catalog::{distinct_ids, has_id};
use crate::errors::{classified, recoverable, verdict_from, DownloadErrorModel, VIDEO_UNAVAILABLE};
use crate::format::{FormatModel, MediaKind};
use crate::intersect::{can_be_chosen, common_choices, in_every, listed};
use crate::numbers::{decimal, pad_right};
use crate::record::{
    descriptors_of, has_size_or_is_thumbnail, well_formed_records, FormatRecordModel,
};
use crate::order::{first_difference, lemma_sort_members, lemma_sort_rising, text_before};
use crate::retry::{has_verdict, retry_targets, with_verdict};
use crate::session::{next_step, ActionModel, EventModel, StageModel};
use crate::table::{
    descriptor_of, is_table_row, rate_value, table_catalog, table_row, VideoFormatModel, AUDIO,
};
use crate::text::{contains_text, matches_at};
use crate::wizard::{is_offered, offered_formats};

verus! {

/// Whatever can be chosen for a batch, every item of the batch has: the
/// identifier of each choice occurs in each catalog.
pub proof fn lemma_choices_in_every_catalog(
    catalogs: Seq<Seq<FormatModel>>,
    kind: MediaKind,
    i: int,
    k: int,
)
    requires
        0 <= i < common_choices(catalogs, kind).len(),
        0 <= k < catalogs.len(),
    ensures
        has_id(catalogs[k], common_choices(catalogs, kind)[i].id),
{
    listed(catalogs).lemma_filter_pred(can_be_chosen(catalogs, kind), i);
    assert(in_every(catalogs, common_choices(catalogs, kind)[i].id));
}

/// The choices for a batch are variants of the first item.
pub proof fn lemma_choices_come_from_first_catalog(
    catalogs: Seq<Seq<FormatModel>>,
    kind: MediaKind,
    i: int,
)
    requires
        0 <= i < common_choices(catalogs, kind).len(),
    ensures
        catalogs[0].contains(common_choices(catalogs, kind)[i]),
{
    let choices = common_choices(catalogs, kind);
    assert(choices.contains(choices[i]));
    listed(catalogs).lemma_filter_contains_rev(can_be_chosen(catalogs, kind), choices[i]);
    lemma_sort_members(catalogs[0]);
}

/// Nothing that every item has is left out: a variant of the first item
/// that is offered for the kind, and whose identifier occurs in every
/// catalog, is among the choices for the batch.
pub proof fn lemma_every_common_variant_is_a_choice(
    catalogs: Seq<Seq<FormatModel>>,
    kind: MediaKind,
    p: int,
)
    requires
        catalogs.len() > 0,
        0 <= p < catalogs[0].len(),
        catalogs[0][p].offered(kind),
        in_every(catalogs, catalogs[0][p].id),
    ensures
        common_choices(catalogs, kind).contains(catalogs[0][p]),
{
    lemma_sort_members(catalogs[0]);
    assert(catalogs[0].contains(catalogs[0][p]));
    assert(listed(catalogs).contains(catalogs[0][p]));
    let r = choose|r: int| 0 <= r < listed(catalogs).len() && listed(catalogs)[r] == catalogs[0][p];
    listed(catalogs).lemma_filter_contains(can_be_chosen(catalogs, kind), r);
}

/// Two of the variants that are kept of a list stand in it in the same
/// order.
pub proof fn lemma_filter_keeps_order<A>(s: Seq<A>, keep: spec_fn(A) -> bool, i: int, j: int)
    requires
        0 <= i < j < s.filter(keep).len(),
    ensures
        exists|p: int, q: int|
            0 <= p < q < s.len() && s.filter(keep)[i] == #[trigger] s[p] && s.filter(keep)[j]
                == #[trigger] s[q],
    decreases s.len(),
{
    reveal(Seq::filter);
    if s.len() > 0 {
        let shorter = s.drop_last();
        let rest = shorter.filter(keep);
        if j < rest.len() {
            lemma_filter_keeps_order(shorter, keep, i, j);
            let (p, q) = choose|p: int, q: int|
                0 <= p < q < shorter.len() && rest[i] == #[trigger] shorter[p] && rest[j]
                    == #[trigger] shorter[q];
            assert(s.filter(keep)[i] == s[p]);
            assert(s.filter(keep)[j] == s[q]);
        } else {
            assert(rest.contains(rest[i]));
            shorter.lemma_filter_contains_rev(keep, rest[i]);
            let p = choose|p: int| 0 <= p < shorter.len() && shorter[p] == rest[i];
            assert(s.filter(keep)[i] == s[p]);
            assert(s.filter(keep)[j] == s[s.len() - 1]);
        }
    }
}

/// The choices for a batch come in the order of their identifiers: none is
/// listed before one that stands in front of it.
pub proof fn lemma_choices_rise(catalogs: Seq<Seq<FormatModel>>, kind: MediaKind, i: int, j: int)
    requires
        0 <= i < j < common_choices(catalogs, kind).len(),
    ensures
        !text_before(common_choices(catalogs, kind)[j].id, common_choices(catalogs, kind)[i].id),
{
    let keep = can_be_chosen(catalogs, kind);
    lemma_filter_keeps_order(listed(catalogs), keep, i, j);
    let (p, q) = choose|p: int, q: int|
        0 <= p < q < listed(catalogs).len() && listed(catalogs).filter(keep)[i]
            == #[trigger] listed(catalogs)[p] && listed(catalogs).filter(keep)[j]
            == #[trigger] listed(catalogs)[q];
    lemma_sort_rising(catalogs[0]);
}

/// No still image is ever among the choices for a batch: each choice has a
/// bitrate, a line to show it, and is of the wanted kind.
pub proof fn lemma_choices_are_no_thumbnails(
    catalogs: Seq<Seq<FormatModel>>,
    kind: MediaKind,
    i: int,
)
    requires
        0 <= i < common_choices(catalogs, kind).len(),
    ensures
        !common_choices(catalogs, kind)[i].is_thumbnail(),
        common_choices(catalogs, kind)[i].list_label() is Some,
        common_choices(catalogs, kind)[i].eligible(kind),
{
    listed(catalogs).lemma_filter_pred(can_be_chosen(catalogs, kind), i);
}

/// No still image is ever among the variants listed for one item.
pub proof fn lemma_listed_are_no_thumbnails(catalog: Seq<FormatModel>, kind: MediaKind, i: int)
    requires
        0 <= i < offered_formats(catalog, kind).len(),
    ensures
        !offered_formats(catalog, kind)[i].is_thumbnail(),
        offered_formats(catalog, kind)[i].list_label() is Some,
        offered_formats(catalog, kind)[i].eligible(kind),
{
    catalog.lemma_filter_pred(is_offered(kind), i);
}

/// A variant without a bitrate has no line in any list.
pub proof fn lemma_thumbnail_has_no_label(format: FormatModel)
    requires
        format.is_thumbnail(),
    ensures
        format.display_label() is None,
        format.frontend_label() is None,
        format.list_label() is None,
        forall|kind: MediaKind| !format.offered(kind),
{
}

/// Nothing can be chosen for a batch with an item of which nothing is known.
pub proof fn lemma_empty_catalog_leaves_no_choice(
    catalogs: Seq<Seq<FormatModel>>,
    kind: MediaKind,
    k: int,
)
    requires
        0 <= k < catalogs.len(),
        catalogs[k].len() == 0,
    ensures
        common_choices(catalogs, kind) == Seq::<FormatModel>::empty(),
{
    if common_choices(catalogs, kind).len() > 0 {
        lemma_choices_in_every_catalog(catalogs, kind, 0, k);
    }
}

/// A row of the table whose bitrate cannot be read is not shown.
pub proof fn lemma_row_without_rate_is_not_shown(row: VideoFormatModel)
    requires
        rate_value(row.size) is None,
    ensures
        descriptor_of(row).frontend_label() is None,
        descriptor_of(row).list_label() is None,
{
}

/// A row of the table whose bitrate can be read is shown, and the line
/// holds the size of its picture.
pub proof fn lemma_row_label_shows_resolution(row: VideoFormatModel)
    requires
        rate_value(row.size) is Some,
        row.resolution != AUDIO@,
    ensures
        descriptor_of(row).frontend_label() is Some,
        descriptor_of(row).list_label() == descriptor_of(row).frontend_label(),
        contains_text(descriptor_of(row).frontend_label()->Some_0, row.resolution),
{
    let d = descriptor_of(row);
    let label = d.frontend_label()->Some_0;
    let before = pad_right(d.extension, 6) + " "@ + "| "@;
    let column = d.resolution_column();
    assert(column == "| "@ + pad_right(row.resolution, 13) + " "@);
    let at = before.len() as int;
    assert(label.subrange(at, at + row.resolution.len()) =~= row.resolution);
    assert(matches_at(label, row.resolution, at));
}

/// Every variant of a catalog made from records can be shown with its size:
/// it is a still image or its size is known.
pub proof fn lemma_records_have_sizes(records: Seq<FormatRecordModel>, k: int)
    requires
        well_formed_records(records),
        0 <= k < records.len(),
    ensures
        descriptors_of(records)[k].sized_or_thumbnail(),
        descriptors_of(records)[k].list_label() == descriptors_of(records)[k].display_label(),
{
    assert(has_size_or_is_thumbnail(records[k]));
}

/// A message that names no known failure is worth a retry.
pub proof fn lemma_unknown_is_recoverable(message: Seq<char>, table: Seq<(Seq<char>, bool)>)
    requires
        !contains_text(message, VIDEO_UNAVAILABLE@),
        forall|k: int| 0 <= k < table.len() ==> !contains_text(message, (#[trigger] table[k]).0),
    ensures
        recoverable(message, table),
{
    lemma_no_match_from(message, table, 0);
}

/// Where no entry from `i` on occurs in the message, the verdict is that a
/// retry may help.
proof fn lemma_no_match_from(message: Seq<char>, table: Seq<(Seq<char>, bool)>, i: int)
    requires
        0 <= i,
        forall|k: int| 0 <= k < table.len() ==> !contains_text(message, (#[trigger] table[k]).0),
    ensures
        verdict_from(message, table, i),
    decreases table.len() - i,
{
    if i < table.len() {
        assert(!contains_text(message, table[i].0));
        lemma_no_match_from(message, table, i + 1);
    }
}

/// A message that says the video is unavailable is never worth a retry,
/// whatever the table holds.
pub proof fn lemma_unavailable_is_final(message: Seq<char>, table: Seq<(Seq<char>, bool)>)
    requires
        contains_text(message, VIDEO_UNAVAILABLE@),
    ensures
        !recoverable(message, table),
{
}

/// The first entry of the table that occurs in a message decides, where the
/// message does not say that the video is unavailable.
pub proof fn lemma_first_known_decides(
    message: Seq<char>,
    table: Seq<(Seq<char>, bool)>,
    k: int,
)
    requires
        !contains_text(message, VIDEO_UNAVAILABLE@),
        0 <= k < table.len(),
        contains_text(message, table[k].0),
        forall|j: int| 0 <= j < k ==> !contains_text(message, (#[trigger] table[j]).0),
    ensures
        recoverable(message, table) == table[k].1,
{
    lemma_first_match_from(message, table, k, 0);
}

/// From any position up to the first entry that occurs in the message, the
/// verdict is that entry's.
proof fn lemma_first_match_from(
    message: Seq<char>,
    table: Seq<(Seq<char>, bool)>,
    k: int,
    i: int,
)
    requires
        0 <= i <= k < table.len(),
        contains_text(message, table[k].0),
        forall|j: int| 0 <= j < k ==> !contains_text(message, (#[trigger] table[j]).0),
    ensures
        verdict_from(message, table, i) == table[k].1,
    decreases k - i,
{
    if i < k {
        assert(!contains_text(message, table[i].0));
        lemma_first_match_from(message, table, k, i + 1);
    }
}

/// Classifying the same line again gives the same failure, and the same
/// answer on whether a retry may help: both depend on the line and the table
/// alone.
pub proof fn lemma_classification_is_repeatable(
    first: Seq<char>,
    second: Seq<char>,
    table: Seq<(Seq<char>, bool)>,
)
    requires
        first == second,
    ensures
        classified(first) == classified(second),
        classified(first) is Some ==> recoverable(classified(first)->Some_0.raw_message, table)
            == recoverable(classified(second)->Some_0.raw_message, table),
{
}

/// A listing without a single row gives the empty catalog.
pub proof fn lemma_no_rows_no_catalog(lines: Seq<Seq<char>>)
    requires
        forall|k: int| 0 <= k < lines.len() ==> !is_table_row(#[trigger] lines[k]),
    ensures
        table_catalog(lines) == Seq::<FormatModel>::empty(),
    decreases lines.len(),
{
    if lines.len() > 0 {
        assert(!is_table_row(lines[lines.len() - 1]));
        assert forall|k: int| 0 <= k < lines.drop_last().len() implies !is_table_row(
            #[trigger] lines.drop_last()[k],
        ) by {
            assert(lines.drop_last()[k] == lines[k]);
        }
        lemma_no_rows_no_catalog(lines.drop_last());
    }
}

/// Every variant in the catalog of a table is the variant of one of its
/// rows: nothing comes from a line that is no row, such as one that is
/// marked as a picture without sound.
pub proof fn lemma_table_catalog_comes_from_rows(lines: Seq<Seq<char>>, i: int)
    requires
        0 <= i < table_catalog(lines).len(),
    ensures
        exists|k: int|
            0 <= k < lines.len() && is_table_row(#[trigger] lines[k]) && table_catalog(lines)[i]
                == descriptor_of(table_row(lines[k])->Some_0),
    decreases lines.len(),
{
    if lines.len() > 0 {
        let shorter = lines.drop_last();
        let rest = table_catalog(shorter);
        if i < rest.len() {
            lemma_table_catalog_comes_from_rows(shorter, i);
            let k = choose|k: int|
                0 <= k < shorter.len() && is_table_row(#[trigger] shorter[k]) && rest[i]
                    == descriptor_of(table_row(shorter[k])->Some_0);
            assert(lines[k] == shorter[k]);
        } else {
            assert(is_table_row(lines[lines.len() - 1]));
        }
    }
}

/// No identifier occurs twice in the catalog of a table.
pub proof fn lemma_table_catalog_distinct(lines: Seq<Seq<char>>)
    ensures
        distinct_ids(table_catalog(lines)),
    decreases lines.len(),
{
    if lines.len() > 0 {
        lemma_table_catalog_distinct(lines.drop_last());
    }
}

/// A retried run is never followed by another question: whatever it
/// reports, the session goes on to the next item or ends.
pub proof fn lemma_retry_is_one_level_deep(
    targets: Seq<Seq<char>>,
    next: nat,
    event: EventModel,
    table: Seq<(Seq<char>, bool)>,
)
    ensures
        ({
            let step = next_step(StageModel::Retrying { targets, next }, event, table);
            &&& !(step.1 is Ask)
            &&& !(step.1 is Report)
            &&& (step.0 is Retrying || step.0 is Finished)
        }),
{
}

/// Once a session has finished, nothing sets it going again.
pub proof fn lemma_finished_stays_finished(event: EventModel, table: Seq<(Seq<char>, bool)>)
    ensures
        next_step(StageModel::Finished, event, table) == (StageModel::Finished, ActionModel::Stop),
{
}

/// Every failure that is offered for a retry is one that a retry may mend.
pub proof fn lemma_offered_are_recoverable(
    errors: Seq<DownloadErrorModel>,
    table: Seq<(Seq<char>, bool)>,
    k: int,
)
    requires
        0 <= k < with_verdict(errors, table, true).len(),
    ensures
        recoverable(with_verdict(errors, table, true)[k].raw_message, table),
        errors.contains(with_verdict(errors, table, true)[k]),
{
    let keep = has_verdict(table, true);
    errors.lemma_filter_pred(keep, k);
    assert(errors.filter(keep).contains(errors.filter(keep)[k]));
    errors.lemma_filter_contains_rev(keep, errors.filter(keep)[k]);
}

/// Every failure of a run is either offered or reported: one that a retry
/// may mend is offered, any other is reported.
pub proof fn lemma_failures_are_split(
    errors: Seq<DownloadErrorModel>,
    table: Seq<(Seq<char>, bool)>,
    k: int,
)
    requires
        0 <= k < errors.len(),
    ensures
        recoverable(errors[k].raw_message, table) ==> with_verdict(errors, table, true).contains(
            errors[k],
        ),
        !recoverable(errors[k].raw_message, table) ==> with_verdict(errors, table, false).contains(
            errors[k],
        ),
{
    if recoverable(errors[k].raw_message, table) {
        errors.lemma_filter_contains(has_verdict(table, true), k);
    } else {
        errors.lemma_filter_contains(has_verdict(table, false), k);
    }
}

/// "Retry all" asks for one download for each failure that was offered,
/// whatever else was picked with it, and for none that was not offered.
pub proof fn lemma_retry_all_covers_the_offered(
    offered: Seq<DownloadErrorModel>,
    selection: Seq<usize>,
)
    requires
        selection.contains(0usize),
    ensures
        retry_targets(offered, selection).len() == offered.len(),
        forall|k: int|
            0 <= k < offered.len() ==> #[trigger] retry_targets(offered, selection)[k]
                == offered[k].item_identifier,
{
}

/// "Retry none" asks for no download, unless "retry all" was picked too.
pub proof fn lemma_retry_none_asks_for_nothing(
    offered: Seq<DownloadErrorModel>,
    selection: Seq<usize>,
)
    requires
        selection.contains(1usize),
        !selection.contains(0usize),
    ensures
        retry_targets(offered, selection).len() == 0,
{
}

/// A number has at least as many digits as any smaller one.
proof fn lemma_decimal_len_rises(a: nat, b: nat)
    requires
        a <= b,
    ensures
        decimal(a).len() <= decimal(b).len(),
        decimal(a).len() >= 1,
    decreases b,
{
    if b >= 10 {
        if a >= 10 {
            lemma_decimal_len_rises(a / 10, b / 10);
        } else {
            lemma_decimal_len_rises(0, b / 10);
        }
    }
}

/// Codes are listed by their value: of two numbers written in decimal, the
/// smaller comes first.
pub proof fn lemma_codes_rise_by_value(a: nat, b: nat)
    requires
        a < b,
    ensures
        text_before(decimal(a), decimal(b)),
    decreases b,
{
    let x = decimal(a);
    let y = decimal(b);
    lemma_decimal_len_rises(a, b);
    if x.len() == y.len() {
        if b < 10 {
            assert(first_difference(x, y, 0));
        } else if a < 10 {
            lemma_decimal_len_rises(0, b / 10);
        } else if a / 10 == b / 10 {
            let last = x.len() - 1;
            assert(x.drop_last() == decimal(a / 10));
            assert(y.drop_last() == decimal(b / 10));
            assert forall|j: int| 0 <= j < last implies x[j] == y[j] by {
                assert(x[j] == x.drop_last()[j]);
                assert(y[j] == y.drop_last()[j]);
            }
            assert(first_difference(x, y, last));
        } else {
            lemma_codes_rise_by_value(a / 10, b / 10);
            let shorter_x = decimal(a / 10);
            let shorter_y = decimal(b / 10);
            let i = choose|i: int|
                #[trigger] first_difference(shorter_x, shorter_y, i) && (shorter_x[i] as int) < (
                shorter_y[i] as int);
            assert forall|j: int| 0 <= j < i implies x[j] == y[j] by {
                assert(shorter_x[j] == shorter_y[j]);
            }
            assert(x[i] == shorter_x[i]);
            assert(y[i] == shorter_y[i]);
            assert(first_difference(x, y, i));
        }
    }
}

} // verus!
