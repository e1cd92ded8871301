//! Sequences in the dictionary order of a text in their items.

use vstd::prelude::*;

use crate::text;

verus! {

/// What has a text to be ordered by.
pub trait Keyed {
    /// The text.
    spec fn key(&self) -> Seq<char>;

    /// The text.
    fn key_text(&self) -> (key: &str)
        ensures
            key@ == self.key(),
    ;
}

/// Whether the items come in the order of their texts.
pub open spec fn in_order<T: Keyed>(items: Seq<T>) -> bool {
    forall|i: int, j: int|
        0 <= i < j < items.len() ==> text::no_later(
            (#[trigger] items[i]).key(),
            (#[trigger] items[j]).key(),
        )
}

/// Puts an item where it belongs among items in order: after those that come
/// no later. Gives the position.
pub fn insert_in_order<T: Keyed>(items: &mut Vec<T>, item: T) -> (at: usize)
    requires
        in_order(old(items)@),
    ensures
        at <= old(items)@.len(),
        final(items)@ == old(items)@.insert(at as int, item),
        in_order(final(items)@),
        forall|j: int|
            at <= j < old(items)@.len() ==> !text::no_later(
                (#[trigger] old(items)@[j]).key(),
                item.key(),
            ),
{
    let mut at: usize = items.len();
    while at > 0 && !text::comes_no_later(items[at - 1].key_text(), item.key_text())
        invariant
            at <= items@.len(),
            items@ == old(items)@,
            forall|j: int|
                at <= j < items@.len() ==> !text::no_later(
                    (#[trigger] items@[j]).key(),
                    item.key(),
                ),
        decreases at,
    {
        at = at - 1;
    }
    proof {
        let before = old(items)@;
        let after = before.insert(at as int, item);
        assert forall|i: int, j: int| 0 <= i < j < after.len() implies text::no_later(
            (#[trigger] after[i]).key(),
            (#[trigger] after[j]).key(),
        ) by {
            if i < at && j == at {
                if i < at - 1 {
                    assert(text::no_later(before[i].key(), before[at - 1].key()));
                    text::lemma_no_later_transitive(
                        before[i].key(),
                        before[at - 1].key(),
                        item.key(),
                    );
                }
            } else if i == at {
                text::lemma_no_later_total(before[j - 1].key(), item.key());
            } else if j < at {
                assert(text::no_later(before[i].key(), before[j].key()));
            } else if i < at {
                assert(text::no_later(before[i].key(), before[j - 1].key()));
            } else {
                assert(text::no_later(before[i - 1].key(), before[j - 1].key()));
            }
        }
    }
    items.insert(at, item);
    at
}

/// An item more, wherever it is put, is one item more in the collection of
/// all items.
pub proof fn lemma_insert_to_multiset<A>(items: Seq<A>, at: int, item: A)
    requires
        0 <= at <= items.len(),
    ensures
        items.insert(at, item).to_multiset() == items.to_multiset().insert(item),
{
    broadcast use vstd::seq_lib::group_to_multiset_ensures;

    let longer = items.insert(at, item);
    assert(longer.remove(at) =~= items);
    assert(longer[at] == item);
    assert(longer.contains(item));
    assert(longer.to_multiset().remove(item) == items.to_multiset());
    assert(items.to_multiset().insert(item) =~= longer.to_multiset());
}

/// Whether `positions` are the positions in `items` that the items of `sorted`
/// come from, each one once, where items with the same text keep their order.
pub open spec fn is_arrangement<T: Keyed>(
    positions: Seq<int>,
    sorted: Seq<T>,
    items: Seq<T>,
) -> bool {
    &&& positions.len() == sorted.len() == items.len()
    &&& forall|k: int|
        0 <= k < positions.len() ==> 0 <= #[trigger] positions[k] < items.len() && sorted[k]
            == items[positions[k]]
    &&& forall|k: int, l: int|
        0 <= k < l < positions.len() ==> #[trigger] positions[k] != #[trigger] positions[l] && (
        sorted[k].key() == sorted[l].key() ==> positions[k] < positions[l])
}

/// Whether `sorted` holds the items of `items` in the order of their texts,
/// and items with the same text in the order in which they came.
pub open spec fn is_sorted_from<T: Keyed>(sorted: Seq<T>, items: Seq<T>) -> bool {
    in_order(sorted) && exists|positions: Seq<int>| #[trigger]
        is_arrangement(positions, sorted, items)
}

proof fn lemma_arrangement_grows<T: Keyed>(
    positions: Seq<int>,
    sorted: Seq<T>,
    items: Seq<T>,
    at: int,
    item: T,
)
    requires
        is_arrangement(positions, sorted, items),
        0 <= at <= sorted.len(),
        forall|j: int|
            at <= j < sorted.len() ==> !text::no_later((#[trigger] sorted[j]).key(), item.key()),
    ensures
        is_arrangement(
            positions.insert(at, items.len() as int),
            sorted.insert(at, item),
            items.push(item),
        ),
{
    let n = items.len() as int;
    let longer = positions.insert(at, n);
    let after = sorted.insert(at, item);
    let all = items.push(item);
    assert forall|k: int| 0 <= k < longer.len() implies 0 <= #[trigger] longer[k] < all.len()
        && after[k] == all[longer[k]] by {
        if k < at {
            assert(longer[k] == positions[k]);
        } else if k > at {
            assert(longer[k] == positions[k - 1]);
        }
    }
    assert forall|k: int, l: int| 0 <= k < l < longer.len() implies #[trigger] longer[k]
        != #[trigger] longer[l] && (after[k].key() == after[l].key() ==> longer[k]
        < longer[l]) by {
        let k0 = if k < at {
            k
        } else {
            k - 1
        };
        let l0 = if l < at {
            l
        } else {
            l - 1
        };
        if k == at {
            assert(longer[l] == positions[l0]);
            assert(after[l] == sorted[l0]);
            text::lemma_no_later_reflexive(item.key());
        } else if l == at {
            assert(longer[k] == positions[k0]);
        } else {
            assert(longer[k] == positions[k0]);
            assert(longer[l] == positions[l0]);
        }
    }
}

/// Puts items in the order of their texts.
pub fn sort<T: Keyed>(items: Vec<T>) -> (sorted: Vec<T>)
    ensures
        is_sorted_from(sorted@, items@),
{
    let mut rest = items;
    let mut sorted: Vec<T> = Vec::new();
    let ghost mut positions: Seq<int> = Seq::empty();
    proof {
        assert(items@.skip(0) =~= items@);
    }
    while rest.len() > 0
        invariant
            rest@.len() + sorted@.len() == items@.len(),
            rest@ == items@.skip(sorted@.len() as int),
            in_order(sorted@),
            is_arrangement(positions, sorted@, items@.take(sorted@.len() as int)),
        decreases rest.len(),
    {
        let ghost n = sorted@.len() as int;
        let ghost before = sorted@;
        let item = rest.remove(0);
        assert(rest@ =~= items@.skip(n + 1));
        let _at: usize = insert_in_order(&mut sorted, item);
        proof {
            lemma_arrangement_grows(positions, before, items@.take(n), _at as int, item);
            assert(items@.take(n + 1) =~= items@.take(n).push(item));
            positions = positions.insert(_at as int, n);
        }
    }
    proof {
        assert(items@.take(items@.len() as int) =~= items@);
    }
    sorted
}

/// What was sorted holds every item of what it was sorted from, and no other, and
/// no item comes after one whose text is later.
pub proof fn lemma_sorting_in_full<T: Keyed>(sorted: Seq<T>, items: Seq<T>, i: int)
    requires
        is_sorted_from(sorted, items),
        0 <= i < items.len(),
    ensures
        sorted.len() == items.len(),
        sorted.contains(items[i]),
        items.contains(sorted[i]),
        forall|k: int, l: int|
            0 <= k < l < sorted.len() ==> text::no_later(
                (#[trigger] sorted[k]).key(),
                (#[trigger] sorted[l]).key(),
            ),
{
    let positions = choose|positions: Seq<int>| #[trigger]
        is_arrangement(positions, sorted, items);
    assert(sorted[i] == items[positions[i]]);
    assert(positions.no_duplicates());
    positions.unique_seq_to_set();
    let all = vstd::set_lib::set_int_range(0, items.len() as int);
    vstd::set_lib::lemma_int_range(0, items.len() as int);
    assert(positions.to_set().subset_of(all));
    vstd::set_lib::lemma_subset_equality(positions.to_set(), all);
    assert(positions.to_set().contains(i));
    let k = positions.index_of(i);
    assert(sorted[k] == items[positions[k]]);
}

} // verus!
