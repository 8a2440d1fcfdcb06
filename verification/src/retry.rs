//! After a run: which failed items are offered for another attempt, and
//! which of them the user picked.

use vstd::prelude::*;
use crate::errors::{
    is_recoverable, label_of, recoverable, DownloadError, DownloadErrorModel, ErrorTable,
};
use crate::runner::error_models;
use crate::text::{lemma_filter_nothing, string_views};

verus! {

/// The first fixed choice of the retry list: try every offered item again.
pub const SELECT_ALL: &'static str = "Retry all";

/// The second fixed choice of the retry list: try nothing again.
pub const SELECT_NOTHING: &'static str = "Retry none";

/// Whether a failure's verdict is `wanted`.
pub open spec fn has_verdict(table: Seq<(Seq<char>, bool)>, wanted: bool) -> spec_fn(
    DownloadErrorModel,
) -> bool {
    |e: DownloadErrorModel| recoverable(e.raw_message, table) == wanted
}

/// The failures of `errors` whose verdict is `wanted`, in their order.
pub open spec fn with_verdict(
    errors: Seq<DownloadErrorModel>,
    table: Seq<(Seq<char>, bool)>,
    wanted: bool,
) -> Seq<DownloadErrorModel> {
    errors.filter(has_verdict(table, wanted))
}

/// The lines of the retry list: the two fixed choices, then one line for
/// each failure that is offered.
pub open spec fn retry_options(offered: Seq<DownloadErrorModel>) -> Seq<Seq<char>> {
    seq![SELECT_ALL@, SELECT_NOTHING@] + Seq::new(offered.len(), |k: int| label_of(offered[k]))
}

/// The items of `offered` that the picks at or after the fixed choices name,
/// in the order of the picks. A pick that names no offered item counts for
/// nothing.
pub open spec fn picked_items(offered: Seq<DownloadErrorModel>, selection: Seq<usize>) -> Seq<
    Seq<char>,
>
    decreases selection.len(),
{
    if selection.len() == 0 {
        Seq::empty()
    } else {
        let rest = picked_items(offered, selection.drop_last());
        let pick = selection.last() as int;
        if 2 <= pick < offered.len() + 2 {
            rest.push(offered[pick - 2].item_identifier)
        } else {
            rest
        }
    }
}

/// The items of all offered failures, in their order.
pub open spec fn all_items(offered: Seq<DownloadErrorModel>) -> Seq<Seq<char>> {
    Seq::new(offered.len(), |k: int| offered[k].item_identifier)
}

/// The items to download again for a selection from the retry list.
///
/// "Retry all" wins over everything else that was picked, "retry none" over
/// the single picks.
pub open spec fn retry_targets(offered: Seq<DownloadErrorModel>, selection: Seq<usize>) -> Seq<
    Seq<char>,
> {
    if selection.contains(0usize) {
        all_items(offered)
    } else if selection.contains(1usize) {
        Seq::empty()
    } else {
        picked_items(offered, selection)
    }
}

/// The outcome of sorting the failures of a run.
pub struct RetryMenu {
    /// The lines to show: two fixed choices, then the failures worth a retry.
    pub options: Vec<String>,
    /// The failures worth a retry, in the order of the lines that show them.
    pub recoverable: Vec<DownloadError>,
    /// The failures that no retry can mend; they are reported, never offered.
    pub unrecoverable: Vec<DownloadError>,
}

impl RetryMenu {
    /// Whether there is anything to choose: without a failure worth a retry
    /// the user is not asked.
    pub fn needs_prompt(&self) -> (r: bool)
        ensures
            r == (self.recoverable@.len() > 0),
    {
        self.recoverable.len() > 0
    }
}

/// Sorts the failures of a run into those that are offered for another
/// attempt and those that are only reported, and writes the retry list.
pub fn ask_for_redownload(errors: &Vec<DownloadError>, table: &ErrorTable) -> (menu: RetryMenu)
    ensures
        error_models(menu.recoverable@) == with_verdict(error_models(errors@), table@, true),
        error_models(menu.unrecoverable@) == with_verdict(error_models(errors@), table@, false),
        string_views(menu.options@) == retry_options(error_models(menu.recoverable@)),
{
    let mut options: Vec<String> = Vec::new();
    options.push(SELECT_ALL.to_owned());
    options.push(SELECT_NOTHING.to_owned());
    let mut offered: Vec<DownloadError> = Vec::new();
    let mut reported: Vec<DownloadError> = Vec::new();
    let ghost all = error_models(errors@);
    proof {
        assert(all.subrange(0, 0) == Seq::<DownloadErrorModel>::empty());
        lemma_filter_nothing(has_verdict(table@, true));
        lemma_filter_nothing(has_verdict(table@, false));
    }
    assert(string_views(options@) == retry_options(error_models(offered@)));
    let mut i: usize = 0;
    while i < errors.len()
        invariant
            i <= errors.len(),
            all == error_models(errors@),
            error_models(offered@) == with_verdict(all.subrange(0, i as int), table@, true),
            error_models(reported@) == with_verdict(all.subrange(0, i as int), table@, false),
            string_views(options@) == retry_options(error_models(offered@)),
        decreases errors.len() - i,
    {
        let error = &errors[i];
        proof {
            let shorter = all.subrange(0, i as int);
            assert(all.subrange(0, i + 1) == shorter.push(error@));
            shorter.lemma_filter_push(error@, has_verdict(table@, true));
            shorter.lemma_filter_push(error@, has_verdict(table@, false));
        }
        let ghost old_offered = error_models(offered@);
        let ghost old_reported = error_models(reported@);
        let ghost old_options = string_views(options@);
        if is_recoverable(error, table) {
            let label = error.to_string();
            options.push(label);
            offered.push(copy_of(error));
            proof {
                assert(error_models(offered@) == old_offered.push(error@));
                assert(string_views(options@) == old_options.push(label_of(error@)));
                assert(string_views(options@) == retry_options(error_models(offered@)));
            }
        } else {
            reported.push(copy_of(error));
            proof {
                assert(error_models(reported@) == old_reported.push(error@));
            }
        }
        i += 1;
    }
    assert(all.subrange(0, errors.len() as int) == all);
    RetryMenu { options, recoverable: offered, unrecoverable: reported }
}

/// A failure with the same message and item.
fn copy_of(error: &DownloadError) -> (e: DownloadError)
    ensures
        e@ == error@,
{
    DownloadError::new(error.error_msg().as_str(), error.video_id().as_str())
}

/// Whether `wanted` is among the picks.
fn is_picked(selection: &Vec<usize>, wanted: usize) -> (r: bool)
    ensures
        r == selection@.contains(wanted),
{
    let mut i: usize = 0;
    while i < selection.len()
        invariant
            i <= selection.len(),
            forall|k: int| 0 <= k < i ==> selection@[k] != wanted,
        decreases selection.len() - i,
    {
        if selection[i] == wanted {
            return true;
        }
        i += 1;
    }
    false
}

/// Turns the user's picks from the retry list into the items to download
/// again, one entry for each command to rebuild.
///
/// `offered` holds the failures behind the list's lines after the two fixed
/// choices. Pick 0 asks for all of them, whatever else was picked; pick 1
/// for none; any other pick for the failure whose line it is.
pub fn resolve_retries(offered: &Vec<DownloadError>, selection: &Vec<usize>) -> (targets: Vec<
    String,
>)
    ensures
        string_views(targets@) == retry_targets(error_models(offered@), selection@),
{
    let mut targets: Vec<String> = Vec::new();
    let ghost models = error_models(offered@);
    if is_picked(selection, 0) {
        let mut i: usize = 0;
        while i < offered.len()
            invariant
                i <= offered.len(),
                models == error_models(offered@),
                string_views(targets@) == all_items(models).subrange(0, i as int),
            decreases offered.len() - i,
        {
            let ghost before = string_views(targets@);
            targets.push(offered[i].video_id().clone());
            proof {
                assert(models[i as int] == offered@[i as int]@);
                assert(string_views(targets@) == before.push(models[i as int].item_identifier));
            }
            i += 1;
        }
        assert(all_items(models).subrange(0, offered.len() as int) == all_items(models));
    } else if is_picked(selection, 1) {
    } else {
        let mut i: usize = 0;
        assert(selection@.subrange(0, 0) == Seq::<usize>::empty());
        while i < selection.len()
            invariant
                i <= selection.len(),
                models == error_models(offered@),
                string_views(targets@) == picked_items(models, selection@.subrange(0, i as int)),
            decreases selection.len() - i,
        {
            let ghost longer = selection@.subrange(0, i + 1);
            proof {
                assert(longer.drop_last() == selection@.subrange(0, i as int));
                assert(longer.last() == selection@[i as int]);
            }
            let pick = selection[i];
            if pick >= 2 && pick - 2 < offered.len() {
                let ghost before = string_views(targets@);
                targets.push(offered[pick - 2].video_id().clone());
                proof {
                    assert(string_views(targets@) == before.push(
                        models[pick - 2].item_identifier,
                    ));
                }
            }
            i += 1;
        }
        assert(selection@.subrange(0, selection.len() as int) == selection@);
    }
    targets
}

} // verus!
