//! The order in which identifiers are listed, and sorting variants by it.

use vstd::prelude::*;
use crate::catalog::format_models;
use crate::format::{FormatDescriptor, FormatModel};
use crate::text::chars_of;

verus! {

/// `a` and `b` agree before position `i` and differ at it.
pub open spec fn first_difference(a: Seq<char>, b: Seq<char>, i: int) -> bool {
    &&& 0 <= i < a.len()
    &&& i < b.len()
    &&& a[i] != b[i]
    &&& forall|j: int| 0 <= j < i ==> a[j] == b[j]
}

/// `a` is listed before `b`: it is shorter, or it is as long and has the
/// smaller character where the two first differ. Numbers written without
/// leading zeros are listed by their value.
pub open spec fn text_before(a: Seq<char>, b: Seq<char>) -> bool {
    a.len() < b.len() || (a.len() == b.len() && exists|i: int|
        #[trigger] first_difference(a, b, i) && (a[i] as int) < (b[i] as int))
}

/// `sorted` with `x` put in behind the last variant that is not listed
/// after it.
pub open spec fn insert_by_id(sorted: Seq<FormatModel>, x: FormatModel) -> Seq<FormatModel>
    decreases sorted.len(),
{
    if sorted.len() == 0 {
        seq![x]
    } else if text_before(x.id, sorted.last().id) {
        insert_by_id(sorted.drop_last(), x).push(sorted.last())
    } else {
        sorted.push(x)
    }
}

/// The variants of `s` in the order of their identifiers. Variants with the
/// same identifier keep the order that they have in `s`.
pub open spec fn sort_by_id(s: Seq<FormatModel>) -> Seq<FormatModel>
    decreases s.len(),
{
    if s.len() == 0 {
        Seq::empty()
    } else {
        insert_by_id(sort_by_id(s.drop_last()), s.last())
    }
}

/// The variants of `s` at the positions `order`, in the order of `order`.
pub open spec fn picked(s: Seq<FormatModel>, order: Seq<usize>) -> Seq<FormatModel> {
    Seq::new(order.len(), |r: int| s[order[r] as int])
}

/// Two texts of one length that are not equal differ somewhere first.
pub proof fn lemma_first_difference_exists(a: Seq<char>, b: Seq<char>, n: int)
    requires
        a.len() == b.len(),
        0 <= n <= a.len(),
        a.subrange(0, n) != b.subrange(0, n),
    ensures
        exists|i: int| 0 <= i < n && #[trigger] first_difference(a, b, i),
    decreases n,
{
    if n == 0 {
        assert(a.subrange(0, 0) =~= b.subrange(0, 0));
    } else if a.subrange(0, n - 1) != b.subrange(0, n - 1) {
        lemma_first_difference_exists(a, b, n - 1);
    } else {
        assert forall|j: int| 0 <= j < n - 1 implies a[j] == b[j] by {
            assert(a.subrange(0, n - 1)[j] == b.subrange(0, n - 1)[j]);
        }
        if a[n - 1] == b[n - 1] {
            assert(a.subrange(0, n) =~= b.subrange(0, n));
        }
        assert(first_difference(a, b, n - 1));
    }
}

/// Of two different texts one is listed before the other, and never both.
pub proof fn lemma_text_order_is_total(a: Seq<char>, b: Seq<char>)
    ensures
        a != b ==> (text_before(a, b) || text_before(b, a)),
        !(text_before(a, b) && text_before(b, a)),
        !text_before(a, a),
{
    if a != b && a.len() == b.len() {
        assert(a.subrange(0, a.len() as int) == a);
        assert(b.subrange(0, b.len() as int) == b);
        lemma_first_difference_exists(a, b, a.len() as int);
        let i = choose|i: int| 0 <= i < a.len() && #[trigger] first_difference(a, b, i);
        assert(first_difference(b, a, i));
    }
    if text_before(a, b) && text_before(b, a) {
        let i = choose|i: int| #[trigger] first_difference(a, b, i) && (a[i] as int) < (b[i] as int);
        let j = choose|j: int| #[trigger] first_difference(b, a, j) && (b[j] as int) < (a[j] as int);
        if i < j {
            assert(b[i] == a[i]);
        } else if j < i {
            assert(a[j] == b[j]);
        }
    }
}

/// What is listed before a text is listed before all that come after it.
pub proof fn lemma_text_order_is_transitive(a: Seq<char>, b: Seq<char>, c: Seq<char>)
    requires
        text_before(a, b),
        text_before(b, c),
    ensures
        text_before(a, c),
{
    if a.len() == b.len() && b.len() == c.len() {
        let i = choose|i: int| #[trigger] first_difference(a, b, i) && (a[i] as int) < (b[i] as int);
        let j = choose|j: int| #[trigger] first_difference(b, c, j) && (b[j] as int) < (c[j] as int);
        let m = if i <= j {
            i
        } else {
            j
        };
        assert forall|k: int| 0 <= k < m implies a[k] == c[k] by {
            assert(a[k] == b[k]);
            assert(b[k] == c[k]);
        }
        if i < j {
            assert(b[i] == c[i]);
        } else if j < i {
            assert(a[j] == b[j]);
        }
        assert(first_difference(a, c, m));
    }
}

/// Putting a variant in adds one to the number of variants.
pub proof fn lemma_insert_len(sorted: Seq<FormatModel>, x: FormatModel)
    ensures
        insert_by_id(sorted, x).len() == sorted.len() + 1,
    decreases sorted.len(),
{
    if sorted.len() > 0 && text_before(x.id, sorted.last().id) {
        lemma_insert_len(sorted.drop_last(), x);
    }
}

/// Sorting keeps the number of variants.
pub proof fn lemma_sort_len(s: Seq<FormatModel>)
    ensures
        sort_by_id(s).len() == s.len(),
    decreases s.len(),
{
    if s.len() > 0 {
        lemma_sort_len(s.drop_last());
        lemma_insert_len(sort_by_id(s.drop_last()), s.last());
    }
}

/// Where `x` is listed before every variant from position `j` on, and not
/// before the one in front of `j`, it is put in at `j`.
pub proof fn lemma_insert_at(sorted: Seq<FormatModel>, x: FormatModel, j: int)
    requires
        0 <= j <= sorted.len(),
        forall|r: int| j <= r < sorted.len() ==> text_before(x.id, (#[trigger] sorted[r]).id),
        j > 0 ==> !text_before(x.id, sorted[j - 1].id),
    ensures
        insert_by_id(sorted, x) == sorted.insert(j, x),
    decreases sorted.len(),
{
    if sorted.len() == 0 {
        assert(sorted.insert(0, x) =~= seq![x]);
    } else if j == sorted.len() {
        assert(sorted.insert(j, x) =~= sorted.push(x));
    } else {
        assert(text_before(x.id, sorted[sorted.len() - 1].id));
        let shorter = sorted.drop_last();
        assert forall|r: int| j <= r < shorter.len() implies text_before(
            x.id,
            (#[trigger] shorter[r]).id,
        ) by {
            assert(shorter[r] == sorted[r]);
        }
        lemma_insert_at(shorter, x, j);
        assert(shorter.insert(j, x).push(sorted.last()) =~= sorted.insert(j, x));
    }
}

/// Each variant behind a variant that was put in is one of those before, or
/// the one put in; and each of those is there.
pub proof fn lemma_insert_members(sorted: Seq<FormatModel>, x: FormatModel)
    ensures
        forall|d: FormatModel| #[trigger]
            insert_by_id(sorted, x).contains(d) <==> (sorted.contains(d) || d == x),
    decreases sorted.len(),
{
    let after = insert_by_id(sorted, x);
    if sorted.len() == 0 {
        assert(after[0] == x);
        assert forall|d: FormatModel| #[trigger] after.contains(d) <==> (sorted.contains(d) || d == x) by {
            if after.contains(d) {
                let i = choose|i: int| 0 <= i < after.len() && after[i] == d;
                assert(d == x);
            }
        }
    } else if text_before(x.id, sorted.last().id) {
        let shorter = sorted.drop_last();
        let inner = insert_by_id(shorter, x);
        lemma_insert_members(shorter, x);
        assert forall|d: FormatModel| #[trigger] after.contains(d) <==> (sorted.contains(d) || d == x) by {
            if after.contains(d) {
                let i = choose|i: int| 0 <= i < after.len() && after[i] == d;
                if i < inner.len() {
                    assert(inner[i] == d);
                    assert(inner.contains(d));
                    if shorter.contains(d) {
                        let k = choose|k: int| 0 <= k < shorter.len() && shorter[k] == d;
                        assert(sorted[k] == d);
                    }
                } else {
                    assert(sorted[sorted.len() - 1] == d);
                }
            }
            if sorted.contains(d) {
                let k = choose|k: int| 0 <= k < sorted.len() && sorted[k] == d;
                if k < shorter.len() {
                    assert(shorter[k] == d);
                    assert(shorter.contains(d));
                    assert(inner.contains(d));
                    let i = choose|i: int| 0 <= i < inner.len() && inner[i] == d;
                    assert(after[i] == d);
                } else {
                    assert(after[after.len() - 1] == d);
                }
            }
            if d == x {
                assert(inner.contains(x));
                let i = choose|i: int| 0 <= i < inner.len() && inner[i] == x;
                assert(after[i] == x);
            }
        }
    } else {
        assert forall|d: FormatModel| #[trigger] after.contains(d) <==> (sorted.contains(d) || d == x) by {
            if after.contains(d) {
                let i = choose|i: int| 0 <= i < after.len() && after[i] == d;
                if i < sorted.len() {
                    assert(sorted[i] == d);
                }
            }
            if sorted.contains(d) {
                let k = choose|k: int| 0 <= k < sorted.len() && sorted[k] == d;
                assert(after[k] == d);
            }
            if d == x {
                assert(after[after.len() - 1] == x);
            }
        }
    }
}

/// Sorting neither adds a variant nor loses one.
pub proof fn lemma_sort_members(s: Seq<FormatModel>)
    ensures
        forall|d: FormatModel| #[trigger] sort_by_id(s).contains(d) <==> s.contains(d),
    decreases s.len(),
{
    if s.len() == 0 {
    } else {
        let shorter = s.drop_last();
        lemma_sort_members(shorter);
        lemma_insert_members(sort_by_id(shorter), s.last());
        assert forall|d: FormatModel| #[trigger] sort_by_id(s).contains(d) <==> s.contains(d) by {
            if s.contains(d) {
                let k = choose|k: int| 0 <= k < s.len() && s[k] == d;
                if k < shorter.len() {
                    assert(shorter[k] == d);
                    assert(shorter.contains(d));
                }
            }
            if shorter.contains(d) {
                let k = choose|k: int| 0 <= k < shorter.len() && shorter[k] == d;
                assert(s[k] == d);
            }
            if d == s.last() {
                assert(s[s.len() - 1] == d);
            }
        }
    }
}

/// No variant of `s` is listed before one that stands in front of it.
pub open spec fn rising(s: Seq<FormatModel>) -> bool {
    forall|i: int, j: int| 0 <= i < j < s.len() ==> !text_before(
        (#[trigger] s[j]).id,
        (#[trigger] s[i]).id,
    )
}

/// Putting a variant into a rising list leaves it rising.
pub proof fn lemma_insert_rising(sorted: Seq<FormatModel>, x: FormatModel)
    requires
        rising(sorted),
    ensures
        rising(insert_by_id(sorted, x)),
    decreases sorted.len(),
{
    let after = insert_by_id(sorted, x);
    if sorted.len() == 0 {
    } else if text_before(x.id, sorted.last().id) {
        let shorter = sorted.drop_last();
        let inner = insert_by_id(shorter, x);
        assert forall|i: int, j: int| 0 <= i < j < shorter.len() implies !text_before(
            (#[trigger] shorter[j]).id,
            (#[trigger] shorter[i]).id,
        ) by {
            assert(shorter[i] == sorted[i] && shorter[j] == sorted[j]);
        }
        lemma_insert_rising(shorter, x);
        lemma_insert_members(shorter, x);
        lemma_insert_len(shorter, x);
        let last = sorted.last();
        assert forall|i: int, j: int| 0 <= i < j < after.len() implies !text_before(
            (#[trigger] after[j]).id,
            (#[trigger] after[i]).id,
        ) by {
            if j < inner.len() {
                assert(after[i] == inner[i] && after[j] == inner[j]);
            } else {
                assert(after[j] == last);
                assert(after[i] == inner[i]);
                assert(inner.contains(inner[i]));
                if inner[i] == x {
                    lemma_text_order_is_total(x.id, last.id);
                } else {
                    assert(shorter.contains(inner[i]));
                    let k = choose|k: int| 0 <= k < shorter.len() && shorter[k] == inner[i];
                    assert(sorted[k] == inner[i]);
                    assert(sorted[sorted.len() - 1] == last);
                }
            }
        }
    } else {
        assert forall|i: int, j: int| 0 <= i < j < after.len() implies !text_before(
            (#[trigger] after[j]).id,
            (#[trigger] after[i]).id,
        ) by {
            if j < sorted.len() {
                assert(after[i] == sorted[i] && after[j] == sorted[j]);
            } else {
                assert(after[j] == x);
                assert(after[i] == sorted[i]);
                if i < sorted.len() - 1 {
                    // sorted[i] is not after the last, and x is not before the last
                    assert(!text_before(sorted[sorted.len() - 1].id, sorted[i].id));
                    if text_before(x.id, sorted[i].id) {
                        lemma_text_order_is_total(sorted[i].id, sorted.last().id);
                        if sorted[i].id == sorted.last().id {
                        } else {
                            lemma_text_order_is_transitive(x.id, sorted[i].id, sorted.last().id);
                        }
                    }
                }
            }
        }
    }
}

/// A sorted list rises: no variant is listed before one in front of it.
pub proof fn lemma_sort_rising(s: Seq<FormatModel>)
    ensures
        rising(sort_by_id(s)),
    decreases s.len(),
{
    if s.len() > 0 {
        lemma_sort_rising(s.drop_last());
        lemma_insert_rising(sort_by_id(s.drop_last()), s.last());
    }
}

/// Whether the character `a` has the smaller code.
fn char_before(a: char, b: char) -> (r: bool)
    ensures
        r == ((a as int) < (b as int)),
{
    (a as u32) < (b as u32)
}

/// Whether `a` is listed before `b`.
pub fn comes_before(a: &String, b: &String) -> (r: bool)
    ensures
        r == text_before(a@, b@),
{
    let x = chars_of(a.as_str());
    let y = chars_of(b.as_str());
    if x.len() != y.len() {
        return x.len() < y.len();
    }
    let mut i: usize = 0;
    while i < x.len()
        invariant
            i <= x.len(),
            x.len() == y.len(),
            x@ == a@,
            y@ == b@,
            forall|j: int| 0 <= j < i ==> x@[j] == y@[j],
        decreases x.len() - i,
    {
        if x[i] != y[i] {
            assert(first_difference(a@, b@, i as int));
            let smaller = char_before(x[i], y[i]);
            proof {
                if !smaller && text_before(a@, b@) {
                    let k = choose|k: int|
                        #[trigger] first_difference(a@, b@, k) && (a@[k] as int) < (b@[k] as int);
                    if k < i {
                        assert(x@[k] == y@[k]);
                    } else if i < k {
                        assert(a@[i as int] == b@[i as int]);
                    }
                }
            }
            return smaller;
        }
        i += 1;
    }
    proof {
        if text_before(a@, b@) {
            let k = choose|k: int|
                #[trigger] first_difference(a@, b@, k) && (a@[k] as int) < (b@[k] as int);
            assert(x@[k] == y@[k]);
        }
    }
    false
}

/// The positions of `formats` in the order of the identifiers that stand
/// at them.
pub fn sorted_positions(formats: &Vec<FormatDescriptor>) -> (order: Vec<usize>)
    ensures
        order@.len() == formats@.len(),
        forall|r: int| 0 <= r < order@.len() ==> (#[trigger] order@[r]) < formats@.len(),
        picked(format_models(formats@), order@) == sort_by_id(format_models(formats@)),
{
    let ghost all = format_models(formats@);
    let mut order: Vec<usize> = Vec::new();
    let mut p: usize = 0;
    assert(all.subrange(0, 0) == Seq::<FormatModel>::empty());
    assert(picked(all, order@) == sort_by_id(all.subrange(0, 0)));
    while p < formats.len()
        invariant
            p <= formats.len(),
            all == format_models(formats@),
            order@.len() == p,
            forall|r: int| 0 <= r < order@.len() ==> (#[trigger] order@[r]) < p,
            picked(all, order@) == sort_by_id(all.subrange(0, p as int)),
        decreases formats.len() - p,
    {
        let ghost sorted = picked(all, order@);
        let ghost x = all[p as int];
        assert(x == formats@[p as int]@);
        let mut j: usize = order.len();
        while j > 0 && comes_before(&formats[p].id, &formats[order[j - 1]].id)
            invariant
                j <= order@.len(),
                p < formats.len(),
                all == format_models(formats@),
                x == all[p as int],
                sorted == picked(all, order@),
                forall|r: int| 0 <= r < order@.len() ==> (#[trigger] order@[r]) < p,
                forall|r: int| j <= r < sorted.len() ==> text_before(x.id, (#[trigger] sorted[r]).id),
            decreases j,
        {
            assert(sorted[j - 1] == formats@[order@[j - 1] as int]@);
            j -= 1;
        }
        proof {
            if j > 0 {
                assert(sorted[j - 1] == formats@[order@[j - 1] as int]@);
            }
            lemma_insert_at(sorted, x, j as int);
            let longer = all.subrange(0, p + 1);
            assert(longer.drop_last() == all.subrange(0, p as int));
            assert(longer.last() == x);
        }
        order.insert(j, p);
        assert(picked(all, order@) =~= sorted.insert(j as int, x));
        p += 1;
    }
    assert(all.subrange(0, formats.len() as int) == all);
    order
}

} // verus!
