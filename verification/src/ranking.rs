//! Picking the items with the lowest keys, in order; texts are ordered as a
//! dictionary by code points would.

use crate::text::{chars_of, texts};
use vstd::prelude::*;
use vstd::string::*;

verus! {

/// Whether item `a` comes before item `b`: its key is lower, or the keys are equal
/// and it came first.
pub open spec fn precedes(keys: Seq<i128>, a: int, b: int) -> bool {
    keys[a] < keys[b] || (keys[a] == keys[b] && a < b)
}

/// Whether item `x` is among the picked ones.
pub open spec fn among(picked: Seq<usize>, x: int) -> bool {
    exists|i: int| 0 <= i < picked.len() && #[trigger] picked[i] == x
}

/// Whether `picked` holds items of `keys`, each before the next.
pub open spec fn in_order(keys: Seq<i128>, picked: Seq<usize>) -> bool {
    &&& forall|i: int| 0 <= i < picked.len() ==> 0 <= #[trigger] picked[i] < keys.len()
    &&& forall|i: int, j: int|
        0 <= i < j < picked.len() ==> precedes(
            keys,
            #[trigger] picked[i] as int,
            #[trigger] picked[j] as int,
        )
}

/// Whether every item before `n` that was not picked comes after all that were.
pub open spec fn rest_follows(keys: Seq<i128>, picked: Seq<usize>, n: int) -> bool {
    forall|i: int, x: int|
        #![trigger picked[i], keys[x]]
        0 <= i < picked.len() && 0 <= x < n && !among(picked, x) ==> precedes(
            keys,
            picked[i] as int,
            x,
        )
}

/// Whether `picked` holds, in order, the `count` items that come before all others;
/// all items where there are no more than that.
pub open spec fn are_lowest(keys: Seq<i128>, picked: Seq<usize>, count: nat) -> bool {
    &&& picked.len() == if count <= keys.len() { count } else { keys.len() }
    &&& in_order(keys, picked)
    &&& rest_follows(keys, picked, keys.len() as int)
}

/// The `count` items that come before all others, in order.
pub fn lowest(keys: &Vec<i128>, count: usize) -> (picked: Vec<usize>)
    ensures
        are_lowest(keys@, picked@, count as nat),
{
    let mut picked: Vec<usize> = Vec::new();
    let mut next: usize = 0;
    while next < keys.len()
        invariant
            next <= keys@.len(),
            picked@.len() == if count <= next { count } else { next },
            in_order(keys@, picked@),
            forall|i: int| 0 <= i < picked@.len() ==> (#[trigger] picked@[i]) < next,
            rest_follows(keys@, picked@, next as int),
        decreases keys@.len() - next,
    {
        let ghost before = picked@;
        let mut place: usize = 0;
        while place < picked.len() && keys[picked[place]] <= keys[next]
            invariant
                place <= picked@.len(),
                next < keys@.len(),
                picked@ == before,
                in_order(keys@, picked@),
                forall|i: int|
                    0 <= i < place ==> keys@[(#[trigger] picked@[i]) as int] <= keys@[next as int],
            decreases picked@.len() - place,
        {
            place += 1;
        }
        assert forall|i: int| place <= i < before.len() implies keys@[next as int]
            < keys@[(#[trigger] before[i]) as int] by {
            if place < i {
                assert(precedes(keys@, before[place as int] as int, before[i] as int));
            }
        }
        if place < count {
            proof {
                if place == before.len() {
                    assert forall|x: int| 0 <= x < next implies among(before, x) by {
                        lemma_all_picked(keys@, before, next as int, x);
                    }
                }
                lemma_insert(keys@, before, next, place as int);
            }
            picked.insert(place, next);
            if picked.len() > count {
                proof {
                    lemma_take(keys@, picked@, picked@.len() - 1, next + 1);
                }
                picked.pop();
                assert(picked@ =~= before.insert(place as int, next).take(picked@.len() as int));
            }
        } else {
            proof {
                lemma_pass_over(keys@, before, next);
            }
        }
        next += 1;
    }
    picked
}

/// Putting the next item in its place keeps the picked ones in order, and the rest
/// after them.
proof fn lemma_insert(keys: Seq<i128>, picked: Seq<usize>, next: usize, place: int)
    requires
        in_order(keys, picked),
        rest_follows(keys, picked, next as int),
        forall|i: int| 0 <= i < picked.len() ==> (#[trigger] picked[i]) < next,
        next < keys.len(),
        0 <= place <= picked.len(),
        forall|i: int| 0 <= i < place ==> keys[(#[trigger] picked[i]) as int] <= keys[next as int],
        forall|i: int|
            place <= i < picked.len() ==> keys[next as int] < keys[(#[trigger] picked[i]) as int],
        place == picked.len() ==> forall|x: int| 0 <= x < next ==> among(picked, x),
    ensures
        in_order(keys, picked.insert(place, next)),
        rest_follows(keys, picked.insert(place, next), next + 1),
{
    let after = picked.insert(place, next);
    assert forall|i: int, j: int| 0 <= i < j < after.len() implies precedes(
        keys,
        #[trigger] after[i] as int,
        #[trigger] after[j] as int,
    ) by {
        let a = if i < place { i } else { i - 1 };
        let b = if j < place { j } else { j - 1 };
        if i != place && j != place {
            assert(after[i] == picked[a]);
            assert(after[j] == picked[b]);
            assert(precedes(keys, picked[a] as int, picked[b] as int));
        } else if i == place {
            assert(after[j] == picked[b]);
        } else {
            assert(after[i] == picked[a]);
        }
    }
    assert forall|i: int| 0 <= i < after.len() implies 0 <= #[trigger] after[i] < keys.len() by {
        if i < place {
            assert(after[i] == picked[i]);
        } else if i > place {
            assert(after[i] == picked[i - 1]);
        }
    }
    assert forall|i: int, x: int|
        #![trigger after[i], keys[x]]
        0 <= i < after.len() && 0 <= x < next + 1 && !among(after, x) implies precedes(
        keys,
        after[i] as int,
        x,
    ) by {
        assert(after[place] == next);
        assert(!among(picked, x)) by {
            if among(picked, x) {
                let k = choose|k: int| 0 <= k < picked.len() && picked[k] == x;
                if k < place {
                    assert(after[k] == x);
                } else {
                    assert(after[k + 1] == x);
                }
            }
        }
        assert(place < picked.len());
        if i < place {
            assert(after[i] == picked[i]);
        } else if i > place {
            assert(after[i] == picked[i - 1]);
        } else {
            assert(precedes(keys, picked[place] as int, x));
        }
    }
}

/// The first of the picked items are in order, and the rest after them.
proof fn lemma_take(keys: Seq<i128>, picked: Seq<usize>, count: int, n: int)
    requires
        in_order(keys, picked),
        rest_follows(keys, picked, n),
        0 <= count <= picked.len(),
    ensures
        in_order(keys, picked.take(count)),
        rest_follows(keys, picked.take(count), n),
{
    let after = picked.take(count);
    assert forall|i: int, j: int| 0 <= i < j < after.len() implies precedes(
        keys,
        #[trigger] after[i] as int,
        #[trigger] after[j] as int,
    ) by {
        assert(precedes(keys, picked[i] as int, picked[j] as int));
    }
    assert forall|i: int, x: int|
        #![trigger after[i], keys[x]]
        0 <= i < after.len() && 0 <= x < n && !among(after, x) implies precedes(
        keys,
        after[i] as int,
        x,
    ) by {
        assert(after[i] == picked[i]);
        if among(picked, x) {
            let k = choose|k: int| 0 <= k < picked.len() && picked[k] == x;
            if k < count {
                assert(after[k] == x);
            }
            assert(precedes(keys, picked[i] as int, picked[k] as int));
        }
    }
}

/// An item whose key is not below any of the picked ones follows them.
proof fn lemma_pass_over(keys: Seq<i128>, picked: Seq<usize>, next: usize)
    requires
        rest_follows(keys, picked, next as int),
        forall|i: int| 0 <= i < picked.len() ==> (#[trigger] picked[i]) < next,
        forall|i: int|
            0 <= i < picked.len() ==> keys[(#[trigger] picked[i]) as int] <= keys[next as int],
    ensures
        rest_follows(keys, picked, next + 1),
{
}

/// Where as many items were picked as there are, none is left out.
proof fn lemma_all_picked(keys: Seq<i128>, picked: Seq<usize>, n: int, x: int)
    requires
        in_order(keys, picked),
        picked.len() == n,
        forall|i: int| 0 <= i < picked.len() ==> (#[trigger] picked[i]) < n,
        0 <= x < n,
    ensures
        among(picked, x),
{
    let items = picked.map_values(|p: usize| p as int);
    assert(items.no_duplicates()) by {
        assert forall|i: int, j: int|
            0 <= i < items.len() && 0 <= j < items.len() && i != j implies items[i]
            != items[j] by {
            if i < j {
                assert(precedes(keys, picked[i] as int, picked[j] as int));
            } else {
                assert(precedes(keys, picked[j] as int, picked[i] as int));
            }
        }
    }
    let range = vstd::set_lib::set_int_range(0, n);
    vstd::set_lib::lemma_int_range(0, n);
    items.unique_seq_to_set();
    assert(items.to_set().subset_of(range)) by {
        assert forall|y: int| items.to_set().contains(y) implies range.contains(y) by {
            let i = choose|i: int| 0 <= i < items.len() && items[i] == y;
            assert(picked[i] < n);
        }
    }
    vstd::set_lib::lemma_subset_equality(items.to_set(), range);
    assert(range.contains(x));
    let i = choose|i: int| 0 <= i < items.len() && items[i] == x;
    assert(picked[i] == x);
}

/// What two orderings agree on up to some point, they agree on at that point.
proof fn lemma_same_next(keys: Seq<i128>, a: Seq<usize>, b: Seq<usize>, i: int)
    requires
        in_order(keys, a),
        in_order(keys, b),
        rest_follows(keys, a, keys.len() as int),
        0 <= i < a.len(),
        i < b.len(),
        forall|j: int| 0 <= j < i ==> a[j] == b[j],
        a[i] != b[i],
    ensures
        precedes(keys, a[i] as int, b[i] as int),
{
    let x = b[i] as int;
    assert(0 <= keys[x] || keys[x] < 0);
    if among(a, x) {
        let k = choose|k: int| 0 <= k < a.len() && a[k] == x;
        if k < i {
            assert(precedes(keys, b[k] as int, b[i] as int));
        } else {
            assert(precedes(keys, a[i] as int, a[k] as int));
        }
    }
}

/// There is only one way to pick the lowest items.
pub proof fn lowest_are_unique(keys: Seq<i128>, a: Seq<usize>, b: Seq<usize>, count: nat)
    requires
        are_lowest(keys, a, count),
        are_lowest(keys, b, count),
    ensures
        a == b,
{
    lemma_agree(keys, a, b, a.len() as int);
    assert(a =~= b);
}

/// Two ways to pick the lowest items agree on the first `n`.
proof fn lemma_agree(keys: Seq<i128>, a: Seq<usize>, b: Seq<usize>, n: int)
    requires
        in_order(keys, a),
        in_order(keys, b),
        rest_follows(keys, a, keys.len() as int),
        rest_follows(keys, b, keys.len() as int),
        a.len() == b.len(),
        0 <= n <= a.len(),
    ensures
        forall|j: int| 0 <= j < n ==> a[j] == b[j],
    decreases n,
{
    if n > 0 {
        lemma_agree(keys, a, b, n - 1);
        if a[n - 1] != b[n - 1] {
            lemma_same_next(keys, a, b, n - 1);
            lemma_same_next(keys, b, a, n - 1);
        }
    }
}

/// Where no fewer items are asked for than there are, every item is picked.
pub proof fn all_are_picked(keys: Seq<i128>, picked: Seq<usize>, count: nat, x: int)
    requires
        are_lowest(keys, picked, count),
        keys.len() <= count,
        0 <= x < keys.len(),
    ensures
        among(picked, x),
{
    lemma_all_picked(keys, picked, keys.len() as int, x);
}

/// Whether one text comes before another: where they first differ it has the lower
/// character, or it ends there.
pub open spec fn text_before(a: Seq<char>, b: Seq<char>) -> bool
    decreases a.len(),
{
    if b.len() == 0 {
        false
    } else if a.len() == 0 {
        true
    } else if a[0] != b[0] {
        (a[0] as int) < (b[0] as int)
    } else {
        text_before(a.drop_first(), b.drop_first())
    }
}

/// Whether one text comes before another.
pub fn comes_before(a: &str, b: &str) -> (yes: bool)
    ensures
        yes == text_before(a@, b@),
{
    let left: Vec<char> = chars_of(a);
    let right: Vec<char> = chars_of(b);
    let mut i: usize = 0;
    assert(a@.skip(0) =~= a@);
    assert(b@.skip(0) =~= b@);
    while i < left.len() && i < right.len()
        invariant
            i <= left@.len(),
            i <= right@.len(),
            left@ == a@,
            right@ == b@,
            text_before(a@, b@) == text_before(a@.skip(i as int), b@.skip(i as int)),
        decreases left@.len() - i,
    {
        assert(a@.skip(i as int).drop_first() =~= a@.skip(i + 1));
        assert(b@.skip(i as int).drop_first() =~= b@.skip(i + 1));
        if left[i] != right[i] {
            return left[i] < right[i];
        }
        i += 1;
    }
    i < right.len()
}

/// How many of the first `n` texts come before text `i`, or after it.
pub open spec fn outranking(list: Seq<Seq<char>>, last_first: bool, i: int, n: int) -> nat
    decreases n,
{
    if n <= 0 {
        0
    } else {
        outranking(list, last_first, i, n - 1) + if (if last_first {
            text_before(list[i], list[n - 1])
        } else {
            text_before(list[n - 1], list[i])
        }) {
            1nat
        } else {
            0nat
        }
    }
}

/// The key of each text: how many texts come before it, or after it where the last
/// is to come first.
pub open spec fn text_keys(list: Seq<Seq<char>>, last_first: bool) -> Seq<i128> {
    Seq::new(
        list.len(),
        |i: int| outranking(list, last_first, i, list.len() as int) as i128,
    )
}

/// The first `limit` of a list of texts, in order, or the last of them backwards.
pub fn order_texts(list: &Vec<String>, last_first: bool, limit: usize) -> (picked: Vec<usize>)
    ensures
        are_lowest(text_keys(texts(list@), last_first), picked@, limit as nat),
{
    let ghost all = texts(list@);
    let mut keys: Vec<i128> = Vec::new();
    let mut i: usize = 0;
    while i < list.len()
        invariant
            i <= list@.len(),
            all == texts(list@),
            keys@.len() == i,
            forall|j: int| 0 <= j < i ==> #[trigger] keys@[j] == text_keys(all, last_first)[j],
        decreases list@.len() - i,
    {
        let mut above: i128 = 0;
        let mut k: usize = 0;
        while k < list.len()
            invariant
                i < list@.len(),
                k <= list@.len(),
                all == texts(list@),
                above == outranking(all, last_first, i as int, k as int),
                0 <= above <= k,
            decreases list@.len() - k,
        {
            let outranks: bool = if last_first {
                comes_before(list[i].as_str(), list[k].as_str())
            } else {
                comes_before(list[k].as_str(), list[i].as_str())
            };
            if outranks {
                above = above + 1;
            }
            k += 1;
        }
        keys.push(above);
        i += 1;
    }
    assert(keys@ =~= text_keys(all, last_first));
    lowest(&keys, limit)
}

/// The order of texts is transitive, and no text comes before itself.
pub proof fn text_order_is_strict(a: Seq<char>, b: Seq<char>, c: Seq<char>)
    ensures
        !text_before(a, a),
        text_before(a, b) && text_before(b, c) ==> text_before(a, c),
    decreases a.len(),
{
    if a.len() > 0 {
        if b.len() > 0 && c.len() > 0 {
            text_order_is_strict(a.drop_first(), b.drop_first(), c.drop_first());
        } else {
            text_order_is_strict(a.drop_first(), a.drop_first(), a.drop_first());
        }
    }
}

/// What is outranked by a text that is itself outranked is outranked more often.
proof fn lemma_outranking(list: Seq<Seq<char>>, last_first: bool, a: int, b: int, n: int)
    requires
        0 <= a < list.len(),
        0 <= b < list.len(),
        0 <= n <= list.len(),
        if last_first {
            text_before(list[b], list[a])
        } else {
            text_before(list[a], list[b])
        },
    ensures
        outranking(list, last_first, a, n) <= outranking(list, last_first, b, n),
        n > a ==> outranking(list, last_first, a, n) < outranking(list, last_first, b, n),
        outranking(list, last_first, b, n) <= n,
    decreases n,
{
    if n > 0 {
        lemma_outranking(list, last_first, a, b, n - 1);
        text_order_is_strict(list[n - 1], list[a], list[b]);
        text_order_is_strict(list[b], list[a], list[n - 1]);
        text_order_is_strict(list[a], list[a], list[a]);
    }
}

/// Texts are picked in their order: none that was picked later comes before an
/// earlier one, or after it where the last comes first.
pub proof fn texts_are_picked_in_order(
    list: Seq<Seq<char>>,
    last_first: bool,
    picked: Seq<usize>,
    count: nat,
    i: int,
    j: int,
)
    requires
        are_lowest(text_keys(list, last_first), picked, count),
        0 <= i < j < picked.len(),
        list.len() <= u64::MAX,
    ensures
        !last_first ==> !text_before(list[picked[j] as int], list[picked[i] as int]),
        last_first ==> !text_before(list[picked[i] as int], list[picked[j] as int]),
{
    let first = picked[i] as int;
    let second = picked[j] as int;
    assert(precedes(text_keys(list, last_first), first, second));
    if if last_first {
        text_before(list[first], list[second])
    } else {
        text_before(list[second], list[first])
    } {
        lemma_outranking(list, last_first, second, first, list.len() as int);
    }
}

/// No text that was left out comes before one that was picked, or after it where the
/// last comes first.
pub proof fn texts_left_out_come_no_earlier(
    list: Seq<Seq<char>>,
    last_first: bool,
    picked: Seq<usize>,
    count: nat,
    i: int,
    x: int,
)
    requires
        are_lowest(text_keys(list, last_first), picked, count),
        0 <= i < picked.len(),
        0 <= x < list.len(),
        !among(picked, x),
        list.len() <= u64::MAX,
    ensures
        !last_first ==> !text_before(list[x], list[picked[i] as int]),
        last_first ==> !text_before(list[picked[i] as int], list[x]),
{
    let first = picked[i] as int;
    let keys = text_keys(list, last_first);
    assert(keys[x] == outranking(list, last_first, x, list.len() as int) as i128);
    assert(precedes(keys, first, x));
    if if last_first {
        text_before(list[first], list[x])
    } else {
        text_before(list[x], list[first])
    } {
        lemma_outranking(list, last_first, x, first, list.len() as int);
    }
}

/// The lowest keys come first, and of equal keys the one that came first: no item that is
/// picked later or not at all has a lower key, and one with the same key came later. As
/// many are picked as asked for, where there are as many, and none twice.
pub proof fn lowest_keys_come_first(
    keys: Seq<i128>,
    picked: Seq<usize>,
    count: nat,
    i: int,
    x: int,
)
    requires
        are_lowest(keys, picked, count),
        0 <= i < picked.len(),
        0 <= x < keys.len(),
        forall|j: int| 0 <= j <= i ==> #[trigger] picked[j] != x,
    ensures
        picked[i] < keys.len(),
        keys[picked[i] as int] <= keys[x],
        keys[picked[i] as int] == keys[x] ==> picked[i] < x,
        picked.len() == count || picked.len() == keys.len(),
        picked.len() <= count,
        forall|j: int| 0 <= j < picked.len() && j != i ==> #[trigger] picked[j] != picked[i],
{
    assert(keys[x] <= keys[x]);
    if among(picked, x) {
        let k = choose|k: int| 0 <= k < picked.len() && #[trigger] picked[k] == x;
        assert(picked[k] != x || k > i);
        assert(precedes(keys, picked[i] as int, picked[k] as int));
    } else {
        assert(precedes(keys, picked[i] as int, x));
    }
    assert forall|j: int| 0 <= j < picked.len() && j != i implies #[trigger] picked[j]
        != picked[i] by {
        if i < j {
            assert(precedes(keys, picked[i] as int, picked[j] as int));
        } else {
            assert(precedes(keys, picked[j] as int, picked[i] as int));
        }
    }
}

/// One text comes before another exactly where the two agree up to some place at which
/// the first has ended and the second has not, or has the lower character.
pub proof fn texts_are_ordered_by_the_first_difference(a: Seq<char>, b: Seq<char>)
    ensures
        text_before(a, b) <==> exists|k: int|
            {
                &&& 0 <= k <= a.len()
                &&& k < b.len()
                &&& #[trigger] a.take(k) == b.take(k)
                &&& k == a.len() || (a[k] as int) < (b[k] as int)
            },
    decreases a.len(),
{
    if a.len() > 0 && b.len() > 0 {
        let (c, d) = (a.drop_first(), b.drop_first());
        if a[0] == b[0] {
            texts_are_ordered_by_the_first_difference(c, d);
            if text_before(a, b) {
                let k = choose|k: int|
                    {
                        &&& 0 <= k <= c.len()
                        &&& k < d.len()
                        &&& #[trigger] c.take(k) == d.take(k)
                        &&& k == c.len() || (c[k] as int) < (d[k] as int)
                    };
                assert(a.take(k + 1) =~= seq![a[0]] + c.take(k));
                assert(b.take(k + 1) =~= seq![b[0]] + d.take(k));
                assert(a.take(k + 1) == b.take(k + 1));
            }
            if exists|k: int|
                {
                    &&& 0 <= k <= a.len()
                    &&& k < b.len()
                    &&& #[trigger] a.take(k) == b.take(k)
                    &&& k == a.len() || (a[k] as int) < (b[k] as int)
                } {
                let k = choose|k: int|
                    {
                        &&& 0 <= k <= a.len()
                        &&& k < b.len()
                        &&& #[trigger] a.take(k) == b.take(k)
                        &&& k == a.len() || (a[k] as int) < (b[k] as int)
                    };
                assert(c.take(k - 1) =~= a.take(k).drop_first());
                assert(d.take(k - 1) =~= b.take(k).drop_first());
                assert(c.take(k - 1) == d.take(k - 1));
            }
        } else {
            if text_before(a, b) {
                assert(a.take(0) =~= b.take(0));
            }
            if exists|k: int|
                {
                    &&& 0 <= k <= a.len()
                    &&& k < b.len()
                    &&& #[trigger] a.take(k) == b.take(k)
                    &&& k == a.len() || (a[k] as int) < (b[k] as int)
                } {
                let k = choose|k: int|
                    {
                        &&& 0 <= k <= a.len()
                        &&& k < b.len()
                        &&& #[trigger] a.take(k) == b.take(k)
                        &&& k == a.len() || (a[k] as int) < (b[k] as int)
                    };
                if k > 0 {
                    assert(a.take(k)[0] == a[0]);
                    assert(b.take(k)[0] == b[0]);
                }
            }
        }
    } else if b.len() > 0 {
        assert(a.take(0) =~= b.take(0));
    }
}

} // verus!
