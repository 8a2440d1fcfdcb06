//! The formats that can be chosen for a whole batch: those that every item
//! of the batch offers.

use vstd::prelude::*;
use crate::catalog::{catalog_views, format_models, has_id, ItemFormatCatalog};
use crate::format::{FormatDescriptor, FormatModel, FormatSelection, FormatSelectionModel, MediaKind};
use crate::order::{picked, sort_by_id, sorted_positions};
use crate::text::{lemma_filter_nothing, string_views};
use crate::sets::{
    checked_set, intersection_into_set_buf, intersection_of, items_of_each, set_buf_into_vec,
    set_items, strictly_increasing,
};

verus! {

/// The first fixed choice: each item is downloaded in its own best quality.
pub const BEST_QUALITY_OPTION: &'static str = "Best available quality for each video";

/// The second fixed choice: each item is downloaded in its own worst quality.
pub const WORST_QUALITY_OPTION: &'static str = "Worst available quality for each video";

/// Every catalog of the batch has a variant with the identifier `id`.
pub open spec fn in_every(catalogs: Seq<Seq<FormatModel>>, id: Seq<char>) -> bool {
    forall|k: int| 0 <= k < catalogs.len() ==> has_id(#[trigger] catalogs[k], id)
}

/// The variants of the first item in the order of their identifiers; where
/// two had the same identifier they would keep the order of the catalog.
pub open spec fn listed(catalogs: Seq<Seq<FormatModel>>) -> Seq<FormatModel> {
    sort_by_id(catalogs[0])
}

/// Whether a variant can be chosen for the batch: it is of the wanted kind,
/// no still image, and every item has a variant with its identifier.
pub open spec fn can_be_chosen(catalogs: Seq<Seq<FormatModel>>, kind: MediaKind) -> spec_fn(
    FormatModel,
) -> bool {
    |d: FormatModel| d.offered(kind) && in_every(catalogs, d.id)
}

/// The variants that can be chosen for the batch, as the first item's
/// catalog describes them, in the order of their identifiers. An empty batch
/// has none.
pub open spec fn common_choices(catalogs: Seq<Seq<FormatModel>>, kind: MediaKind) -> Seq<
    FormatModel,
> {
    if catalogs.len() == 0 {
        Seq::empty()
    } else {
        listed(catalogs).filter(can_be_chosen(catalogs, kind))
    }
}

/// The identifiers of `choices`, in order.
pub open spec fn choice_ids(choices: Seq<FormatModel>) -> Seq<Seq<char>> {
    Seq::new(choices.len(), |k: int| choices[k].id)
}

/// The lines that show a list of choices: the two fixed ones, then one for
/// each of `choices`.
pub open spec fn choice_labels(choices: Seq<FormatModel>) -> Seq<Seq<char>> {
    seq![BEST_QUALITY_OPTION@, WORST_QUALITY_OPTION@] + Seq::new(
        choices.len(),
        |k: int| choices[k].list_label()->Some_0,
    )
}

/// The decision that picking line `choice` of the list stands for.
pub open spec fn selection_for(ids: Seq<Seq<char>>, choice: int) -> Option<FormatSelectionModel> {
    if choice == 0 {
        Some(FormatSelectionModel::BestQuality)
    } else if choice == 1 {
        Some(FormatSelectionModel::WorstQuality)
    } else if 2 <= choice < ids.len() + 2 {
        Some(FormatSelectionModel::UniqueFormat(ids[choice - 2]))
    } else {
        None
    }
}

/// The list of choices for a batch.
pub struct FormatMenu {
    /// The lines to show: two fixed choices, then one for each of `ids`.
    pub labels: Vec<String>,
    /// The identifiers behind the lines after the two fixed choices.
    pub ids: Vec<String>,
}

/// The ranks among the first item's sorted variants whose identifier
/// `other` has too, in rising order. `order[r]` is the position in `formats`
/// of the variant of rank `r`.
fn shared_ranks(formats: &Vec<FormatDescriptor>, order: &Vec<usize>, other: &ItemFormatCatalog) -> (keys:
    Vec<usize>)
    requires
        forall|r: int| 0 <= r < order@.len() ==> (#[trigger] order@[r]) < formats@.len(),
    ensures
        strictly_increasing(keys@),
        forall|r: usize| #[trigger]
            keys@.contains(r) <==> r < order@.len() && has_id(
                other@,
                picked(format_models(formats@), order@)[r as int].id,
            ),
{
    let ghost sorted = picked(format_models(formats@), order@);
    let mut keys: Vec<usize> = Vec::new();
    let mut r: usize = 0;
    while r < order.len()
        invariant
            r <= order.len(),
            sorted == picked(format_models(formats@), order@),
            forall|q: int| 0 <= q < order@.len() ==> (#[trigger] order@[q]) < formats@.len(),
            strictly_increasing(keys@),
            forall|j: int| 0 <= j < keys@.len() ==> keys@[j] < r,
            forall|q: usize| #[trigger]
                keys@.contains(q) <==> q < r && has_id(other@, sorted[q as int].id),
        decreases order.len() - r,
    {
        assert(sorted[r as int] == formats@[order@[r as int] as int]@);
        let ghost before = keys@;
        if other.has_id(&formats[order[r]].id) {
            keys.push(r);
            proof {
                assert(keys@[before.len() as int] == r);
                assert forall|q: usize| #[trigger]
                    keys@.contains(q) <==> q < r + 1 && has_id(other@, sorted[q as int].id) by {
                    if keys@.contains(q) {
                        let j = choose|j: int| 0 <= j < keys@.len() && keys@[j] == q;
                        if j < before.len() {
                            assert(before[j] == q);
                            assert(before.contains(q));
                        }
                    }
                    if q < r && has_id(other@, sorted[q as int].id) {
                        assert(before.contains(q));
                        let j = choose|j: int| 0 <= j < before.len() && before[j] == q;
                        assert(keys@[j] == q);
                    }
                }
            }
        }
        r += 1;
    }
    keys
}

/// Works out what can be chosen for a whole batch.
///
/// A variant of the first item can be chosen if it is of the wanted kind, is
/// no still image, and every item of the batch has a variant with the same
/// identifier. The list shows such variants as the first item's catalog
/// describes them and in the order of their identifiers, after the two fixed
/// choices, which are always there.
pub fn intersect(catalogs: &Vec<ItemFormatCatalog>, kind: &MediaKind) -> (menu: FormatMenu)
    ensures
        string_views(menu.ids@) == choice_ids(common_choices(catalog_views(catalogs@), *kind)),
        string_views(menu.labels@) == choice_labels(
            common_choices(catalog_views(catalogs@), *kind),
        ),
        menu.labels@.len() == menu.ids@.len() + 2,
        forall|i: int|
            0 <= i < menu.ids@.len() ==> in_every(
                catalog_views(catalogs@),
                #[trigger] menu.ids@[i]@,
            ),
{
    let ghost batch = catalog_views(catalogs@);
    let mut labels: Vec<String> = Vec::new();
    labels.push(BEST_QUALITY_OPTION.to_owned());
    labels.push(WORST_QUALITY_OPTION.to_owned());
    let mut ids: Vec<String> = Vec::new();
    assert(string_views(labels@) == choice_labels(Seq::<FormatModel>::empty()));
    assert(string_views(ids@) == choice_ids(Seq::<FormatModel>::empty()));
    if catalogs.len() == 0 {
        assert(string_views(labels@).len() == string_views(ids@).len() + 2);
        return FormatMenu { labels, ids };
    }
    let first = &catalogs[0];
    assert(batch[0] == first@);
    let formats = first.formats();
    let order = sorted_positions(formats);
    let ghost sorted = listed(batch);
    assert(sorted == picked(format_models(formats@), order@));

    // For each item, the ranks of the first item's variants that it shares.
    let mut all_keys: Vec<Vec<usize>> = Vec::new();
    let mut k: usize = 0;
    while k < catalogs.len()
        invariant
            k <= catalogs.len(),
            batch == catalog_views(catalogs@),
            sorted == picked(format_models(formats@), order@),
            forall|r: int| 0 <= r < order@.len() ==> (#[trigger] order@[r]) < formats@.len(),
            all_keys@.len() == k,
            forall|j: int| 0 <= j < k ==> strictly_increasing(#[trigger] all_keys@[j]@),
            forall|j: int, r: usize|
                0 <= j < k ==> (#[trigger] all_keys@[j]@.contains(r) <==> r < sorted.len()
                    && has_id(batch[j], sorted[r as int].id)),
        decreases catalogs.len() - k,
    {
        let keys = shared_ranks(formats, &order, &catalogs[k]);
        assert(batch[k as int] == catalogs@[k as int]@);
        all_keys.push(keys);
        k += 1;
    }

    let mut sets: Vec<&sdset::Set<usize>> = Vec::new();
    let mut k: usize = 0;
    while k < all_keys.len()
        invariant
            k <= all_keys.len(),
            sets@.len() == k,
            forall|j: int| 0 <= j < all_keys@.len() ==> strictly_increasing(#[trigger] all_keys@[j]@),
            forall|j: int| 0 <= j < k ==> set_items(#[trigger] sets@[j]) == all_keys@[j]@,
        decreases all_keys.len() - k,
    {
        match checked_set(&all_keys[k]) {
            Some(set) => {
                sets.push(set);
            },
            None => {
                assert(false);
            },
        }
        k += 1;
    }
    let ghost operands = items_of_each(sets@);
    assert forall|j: int| 0 <= j < operands.len() implies strictly_increasing(
        #[trigger] operands[j],
    ) by {
        assert(operands[j] == all_keys@[j]@);
    }
    let common = set_buf_into_vec(intersection_into_set_buf(intersection_of(sets)));
    proof {
        assert forall|r: usize| #[trigger]
            common@.contains(r) <==> r < sorted.len() && in_every(batch, sorted[r as int].id) by {
            if common@.contains(r) {
                assert(operands[0].contains(r));
                assert(all_keys@[0]@.contains(r));
                assert forall|j: int| 0 <= j < batch.len() implies has_id(
                    #[trigger] batch[j],
                    sorted[r as int].id,
                ) by {
                    assert(operands[j].contains(r));
                    assert(all_keys@[j]@.contains(r));
                }
            }
            if r < sorted.len() && in_every(batch, sorted[r as int].id) {
                assert forall|j: int| 0 <= j < operands.len() implies (
                #[trigger] operands[j]).contains(r) by {
                    assert(has_id(batch[j], sorted[r as int].id));
                    assert(all_keys@[j]@.contains(r));
                }
            }
        }
    }

    // Walk the sorted variants and the common ranks side by side.
    proof {
        assert(sorted.subrange(0, 0) == Seq::<FormatModel>::empty());
        lemma_filter_nothing(can_be_chosen(batch, *kind));
    }
    let mut cursor: usize = 0;
    let mut r: usize = 0;
    while r < order.len()
        invariant
            r <= order.len(),
            cursor <= common.len(),
            catalogs.len() > 0,
            batch == catalog_views(catalogs@),
            sorted == listed(batch),
            sorted == picked(format_models(formats@), order@),
            forall|q: int| 0 <= q < order@.len() ==> (#[trigger] order@[q]) < formats@.len(),
            strictly_increasing(common@),
            forall|q: usize| #[trigger]
                common@.contains(q) <==> q < sorted.len() && in_every(batch, sorted[q as int].id),
            forall|j: int| 0 <= j < cursor ==> common@[j] < r,
            forall|j: int| cursor <= j < common@.len() ==> common@[j] >= r,
            string_views(ids@) == choice_ids(
                sorted.subrange(0, r as int).filter(can_be_chosen(batch, *kind)),
            ),
            string_views(labels@) == choice_labels(
                sorted.subrange(0, r as int).filter(can_be_chosen(batch, *kind)),
            ),
            forall|i: int| 0 <= i < ids@.len() ==> in_every(batch, #[trigger] ids@[i]@),
        decreases order.len() - r,
    {
        let format = &formats[order[r]];
        assert(sorted[r as int] == format@);
        let ghost so_far = sorted.subrange(0, r as int).filter(can_be_chosen(batch, *kind));
        proof {
            let shorter = sorted.subrange(0, r as int);
            assert(sorted.subrange(0, r + 1) == shorter.push(sorted[r as int]));
            shorter.lemma_filter_push(sorted[r as int], can_be_chosen(batch, *kind));
        }
        let shared = cursor < common.len() && common[cursor] == r;
        proof {
            if shared {
                assert(common@.contains(r));
            } else if common@.contains(r) {
                let j = choose|j: int| 0 <= j < common@.len() && common@[j] == r;
                assert(j >= cursor);
                assert(common@[cursor as int] >= r);
                assert(false);
            }
            assert(shared == in_every(batch, sorted[r as int].id));
        }
        if shared {
            cursor += 1;
        }
        if shared && format.offered(kind) {
            match format.line_for_list() {
                Some(label) => {
                    let ghost old_ids = string_views(ids@);
                    let ghost old_labels = string_views(labels@);
                    let id = format.id.clone();
                    labels.push(label);
                    ids.push(id);
                    proof {
                        assert(string_views(ids@) == old_ids.push(sorted[r as int].id));
                        assert(string_views(labels@) == old_labels.push(label@));
                        assert(string_views(ids@) == choice_ids(so_far.push(sorted[r as int])));
                        assert(string_views(labels@) == choice_labels(
                            so_far.push(sorted[r as int]),
                        ));
                    }
                },
                None => {
                    assert(false);
                },
            }
        }
        r += 1;
    }
    assert(sorted.subrange(0, order.len() as int) == sorted);
    assert(string_views(labels@).len() == string_views(ids@).len() + 2);
    FormatMenu { labels, ids }
}

/// Turns the line that the user picked from the list into a decision.
///
/// Line 0 and line 1 are the fixed choices; line `i` after them stands for
/// the identifier `ids[i - 2]`. A line that the list does not have gives
/// nothing.
pub fn get_format(menu: &FormatMenu, user_selection: usize) -> (r: Option<FormatSelection>)
    ensures
        crate::format::selection_view(r) == selection_for(
            string_views(menu.ids@),
            user_selection as int,
        ),
{
    if user_selection == 0 {
        Some(FormatSelection::BestQuality)
    } else if user_selection == 1 {
        Some(FormatSelection::WorstQuality)
    } else if user_selection - 2 < menu.ids.len() {
        Some(FormatSelection::UniqueFormat(menu.ids[user_selection - 2].clone()))
    } else {
        None
    }
}

} // verus!
