//! The catalog of one item: its download variants, each identifier once.

use vstd::prelude::*;
use crate::format::{FormatDescriptor, FormatModel};

verus! {

/// Why a dump of formats could not be turned into a catalog.
#[derive(Debug, Clone, Copy, PartialEq, Eq, Structural)]
pub enum ParseError {
    /// The dump does not describe the variants of one item.
    Malformed,
}

/// The views of the variants of `v`, in order.
pub open spec fn format_models(v: Seq<FormatDescriptor>) -> Seq<FormatModel> {
    Seq::new(v.len(), |k: int| v[k]@)
}

/// Some variant of `catalog` has the identifier `id`.
pub open spec fn has_id(catalog: Seq<FormatModel>, id: Seq<char>) -> bool {
    exists|k: int| 0 <= k < catalog.len() && (#[trigger] catalog[k]).id == id
}

/// No identifier occurs twice in `catalog`.
pub open spec fn distinct_ids(catalog: Seq<FormatModel>) -> bool {
    forall|i: int, j: int|
        0 <= i < j < catalog.len() ==> (#[trigger] catalog[i]).id != (#[trigger] catalog[j]).id
}

/// The download variants of one item, in the order in which the downloader
/// lists them. No identifier occurs twice.
#[derive(Debug)]
pub struct ItemFormatCatalog {
    formats: Vec<FormatDescriptor>,
}

impl View for ItemFormatCatalog {
    type V = Seq<FormatModel>;

    closed spec fn view(&self) -> Seq<FormatModel> {
        format_models(self.formats@)
    }
}

/// Whether a variant of `formats` before position `upto` has the identifier `id`.
fn id_among(formats: &Vec<FormatDescriptor>, upto: usize, id: &String) -> (r: bool)
    requires
        upto <= formats.len(),
    ensures
        r == has_id(format_models(formats@).subrange(0, upto as int), id@),
{
    let ghost seen = format_models(formats@).subrange(0, upto as int);
    let mut k: usize = 0;
    while k < upto
        invariant
            k <= upto <= formats.len(),
            seen == format_models(formats@).subrange(0, upto as int),
            forall|j: int| 0 <= j < k ==> (#[trigger] seen[j]).id != id@,
        decreases upto - k,
    {
        if formats[k].id == *id {
            assert(seen[k as int].id == id@);
            return true;
        }
        k += 1;
    }
    false
}

impl ItemFormatCatalog {
    #[verifier::type_invariant]
    spec fn well_formed(self) -> bool {
        distinct_ids(self@)
    }

    /// The catalog of an item of which nothing is known.
    pub fn empty() -> (c: ItemFormatCatalog)
        ensures
            c@ == Seq::<FormatModel>::empty(),
    {
        ItemFormatCatalog { formats: Vec::new() }
    }

    /// The catalog that holds `formats`.
    ///
    /// Variants that share an identifier do not describe one item: such a
    /// list is malformed.
    pub fn new(formats: Vec<FormatDescriptor>) -> (r: Result<ItemFormatCatalog, ParseError>)
        ensures
            r is Ok <==> distinct_ids(format_models(formats@)),
            r is Ok ==> r->Ok_0@ == format_models(formats@),
            r is Err ==> r->Err_0 == ParseError::Malformed,
    {
        let ghost all = format_models(formats@);
        let mut j: usize = 0;
        while j < formats.len()
            invariant
                j <= formats.len(),
                all == format_models(formats@),
                distinct_ids(all.subrange(0, j as int)),
            decreases formats.len() - j,
        {
            if id_among(&formats, j, &formats[j].id) {
                proof {
                    let seen = all.subrange(0, j as int);
                    let k = choose|k: int| 0 <= k < seen.len() && (#[trigger] seen[k]).id == all[j as int].id;
                    assert(seen[k] == all[k]);
                    assert(all[k].id == all[j as int].id);
                }
                return Err(ParseError::Malformed);
            }
            proof {
                let seen = all.subrange(0, j as int);
                let longer = all.subrange(0, j + 1);
                assert forall|a: int, b: int| 0 <= a < b < longer.len() implies (
                #[trigger] longer[a]).id != (#[trigger] longer[b]).id by {
                    if b < j {
                        assert(seen[a].id != seen[b].id);
                    } else {
                        assert(seen[a].id == longer[a].id);
                    }
                }
            }
            j += 1;
        }
        assert(all.subrange(0, formats.len() as int) == all);
        Ok(ItemFormatCatalog { formats })
    }

    /// The number of variants.
    pub fn len(&self) -> (n: usize)
        ensures
            n == self@.len(),
    {
        self.formats.len()
    }

    /// Whether the catalog holds no variant: nothing is known of the item.
    pub fn is_empty(&self) -> (r: bool)
        ensures
            r == (self@.len() == 0),
    {
        self.formats.len() == 0
    }

    /// The variants, in the order of the listing.
    pub fn formats(&self) -> (v: &Vec<FormatDescriptor>)
        ensures
            format_models(v@) == self@,
            distinct_ids(self@),
    {
        proof {
            use_type_invariant(self);
        }
        &self.formats
    }

    /// Whether a variant of the catalog has the identifier `id`.
    pub fn has_id(&self, id: &String) -> (r: bool)
        ensures
            r == has_id(self@, id@),
    {
        assert(self@.subrange(0, self@.len() as int) == self@);
        id_among(&self.formats, self.formats.len(), id)
    }

    /// Adds a variant unless the catalog holds one with the same identifier.
    /// Returns whether it was added.
    pub fn add_format(&mut self, format: FormatDescriptor) -> (added: bool)
        ensures
            added == !has_id(old(self)@, format@.id),
            final(self)@ == if added {
                old(self)@.push(format@)
            } else {
                old(self)@
            },
    {
        proof {
            use_type_invariant(&*self);
        }
        if self.has_id(&format.id) {
            return false;
        }
        let ghost before = self@;
        let mut formats: Vec<FormatDescriptor> = Vec::new();
        std::mem::swap(&mut formats, &mut self.formats);
        formats.push(format);
        proof {
            let after = format_models(formats@);
            assert(after == before.push(format@));
            assert forall|a: int, b: int| 0 <= a < b < after.len() implies (#[trigger] after[a]).id
                != (#[trigger] after[b]).id by {
                if b < before.len() {
                    assert(before[a].id != before[b].id);
                } else {
                    assert(before[a].id != format@.id);
                }
            }
        }
        self.formats = formats;
        true
    }
}

/// What was read of one item, as plain values.
pub open spec fn item_view(item: Result<ItemFormatCatalog, ParseError>) -> Result<
    Seq<FormatModel>,
    ParseError,
> {
    match item {
        Ok(catalog) => Ok(catalog@),
        Err(e) => Err(e),
    }
}

/// What was read of each item of `v`, in order.
pub open spec fn item_views(v: Seq<Result<ItemFormatCatalog, ParseError>>) -> Seq<
    Result<Seq<FormatModel>, ParseError>,
> {
    Seq::new(v.len(), |k: int| item_view(v[k]))
}

/// The catalogs among `items` that hold at least one variant, in order.
pub open spec fn usable_catalogs(items: Seq<Result<Seq<FormatModel>, ParseError>>) -> Seq<
    Seq<FormatModel>,
>
    decreases items.len(),
{
    if items.len() == 0 {
        Seq::empty()
    } else {
        let rest = usable_catalogs(items.drop_last());
        match items.last() {
            Ok(catalog) => if catalog.len() > 0 {
                rest.push(catalog)
            } else {
                rest
            },
            Err(_) => rest,
        }
    }
}

/// The batch that is made of what was read of each item.
///
/// An item that could not be read, or of which nothing is known, is left
/// out. Only where the first item could not be read is there no batch: its
/// catalog would have described the choices.
pub open spec fn batch_from(items: Seq<Result<Seq<FormatModel>, ParseError>>) -> Result<
    Seq<Seq<FormatModel>>,
    ParseError,
> {
    if items.len() > 0 && items[0] is Err {
        Err(items[0]->Err_0)
    } else {
        Ok(usable_catalogs(items))
    }
}

/// The views of the catalogs of `v`, in order.
pub open spec fn catalog_views(v: Seq<ItemFormatCatalog>) -> Seq<Seq<FormatModel>> {
    Seq::new(v.len(), |k: int| v[k]@)
}

/// Puts the catalogs of a batch together from what was read of each item.
///
/// One item that cannot be read does not stop the batch: it is left out,
/// and so is an item of which nothing is known. The error is handed on only
/// where the first item could not be read.
pub fn batch_of(items: Vec<Result<ItemFormatCatalog, ParseError>>) -> (r: Result<
    Vec<ItemFormatCatalog>,
    ParseError,
>)
    ensures
        match r {
            Ok(batch) => batch_from(item_views(items@)) == Ok::<Seq<Seq<FormatModel>>, ParseError>(
                catalog_views(batch@),
            ),
            Err(e) => batch_from(item_views(items@)) == Err::<Seq<Seq<FormatModel>>, ParseError>(
                e,
            ),
        },
{
    let ghost all = item_views(items@);
    let mut batch: Vec<ItemFormatCatalog> = Vec::new();
    let mut items = items;
    let mut first_error: Option<ParseError> = None;
    assert(all.subrange(0, all.len() as int) == all);
    // The items are taken from the back, so `batch` is filled in reverse.
    while items.len() > 0
        invariant
            item_views(items@) == all.subrange(0, items@.len() as int),
            items@.len() <= all.len(),
            first_error == (if items@.len() == 0 && all.len() > 0 && all[0] is Err {
                Some(all[0]->Err_0)
            } else {
                None::<ParseError>
            }),
            catalog_views(batch@).reverse() == usable_from(all, items@.len() as int),
        decreases items.len(),
    {
        let ghost before = catalog_views(batch@);
        let ghost n = items@.len() as int;
        assert(item_views(items@)[n - 1] == all[n - 1]);
        let item = items.pop();
        assert(item_views(items@) == all.subrange(0, n - 1));
        match item {
            Some(Ok(catalog)) => {
                if !catalog.is_empty() {
                    batch.push(catalog);
                    assert(catalog_views(batch@) == before.push(catalog@));
                    assert(catalog_views(batch@).reverse() == seq![catalog@] + before.reverse());
                }
            },
            Some(Err(e)) => {
                if items.len() == 0 {
                    first_error = Some(e);
                }
            },
            None => {},
        }
    }
    match first_error {
        Some(e) => Err(e),
        None => {
            let ghost reversed = catalog_views(batch@);
            let mut forward: Vec<ItemFormatCatalog> = Vec::new();
            while batch.len() > 0
                invariant
                    catalog_views(forward@) + catalog_views(batch@).reverse() == reversed.reverse(),
                decreases batch.len(),
            {
                let ghost old_forward = catalog_views(forward@);
                let ghost old_batch = catalog_views(batch@);
                match batch.pop() {
                    Some(catalog) => {
                        forward.push(catalog);
                        assert(catalog_views(forward@) == old_forward.push(catalog@));
                        assert(old_batch.reverse() == seq![catalog@] + catalog_views(
                            batch@,
                        ).reverse());
                    },
                    None => {},
                }
            }
            proof {
                assert(catalog_views(batch@).reverse() == Seq::<Seq<FormatModel>>::empty());
                lemma_usable_from_start(all);
            }
            Ok(forward)
        },
    }
}

/// The catalogs among `items[from..]` that hold at least one variant.
pub open spec fn usable_from(items: Seq<Result<Seq<FormatModel>, ParseError>>, from: int) -> Seq<
    Seq<FormatModel>,
>
    decreases items.len() - from,
{
    if from < 0 || from >= items.len() {
        Seq::empty()
    } else {
        match items[from] {
            Ok(catalog) => if catalog.len() > 0 {
                seq![catalog] + usable_from(items, from + 1)
            } else {
                usable_from(items, from + 1)
            },
            Err(_) => usable_from(items, from + 1),
        }
    }
}

/// Counting from the front or from the back gives the same catalogs.
proof fn lemma_usable_split(items: Seq<Result<Seq<FormatModel>, ParseError>>, from: int)
    requires
        0 <= from <= items.len(),
    ensures
        usable_catalogs(items) == usable_catalogs(items.subrange(0, from)) + usable_from(
            items,
            from,
        ),
    decreases items.len() - from,
{
    if from == items.len() {
        assert(items.subrange(0, from) == items);
    } else {
        lemma_usable_split(items, from + 1);
        let longer = items.subrange(0, from + 1);
        assert(longer.drop_last() == items.subrange(0, from));
        assert(longer.last() == items[from]);
    }
}

/// From the start, the two counts agree.
proof fn lemma_usable_from_start(items: Seq<Result<Seq<FormatModel>, ParseError>>)
    ensures
        usable_from(items, 0) == usable_catalogs(items),
{
    lemma_usable_split(items, 0);
    assert(items.subrange(0, 0) == Seq::<Result<Seq<FormatModel>, ParseError>>::empty());
}

} // verus!
