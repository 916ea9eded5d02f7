//! The order of workspaces by their coordinates.

use vstd::prelude::*;

verus! {

/// Whether a list of numbers comes before another one or is the same: the first place at
/// which they differ decides, and a list comes before those that it is the start of.
pub open spec fn at_most(a: Seq<u32>, b: Seq<u32>) -> bool
    decreases a.len(),
{
    if a.len() == 0 {
        true
    } else if b.len() == 0 {
        false
    } else if a[0] != b[0] {
        a[0] < b[0]
    } else {
        at_most(a.skip(1), b.skip(1))
    }
}

/// Whether item `i` comes before item `j`: by their keys, and by their places where the
/// keys are the same.
pub open spec fn comes_before(keys: Seq<Seq<u32>>, i: int, j: int) -> bool {
    if keys[i] == keys[j] {
        i < j
    } else {
        at_most(keys[i], keys[j])
    }
}

/// Whether a list holds the places of all items, each once, in the order of the items.
pub open spec fn in_order(keys: Seq<Seq<u32>>, places: Seq<usize>) -> bool {
    &&& places.len() == keys.len()
    &&& forall|p: int| 0 <= p < places.len() ==> #[trigger] places[p] < keys.len()
    &&& forall|i: usize| i < keys.len() ==> #[trigger] places.contains(i)
    &&& forall|p: int, q: int|
        0 <= p < q < places.len() ==> comes_before(
            keys,
            #[trigger] places[p] as int,
            #[trigger] places[q] as int,
        )
}

/// Of two lists, one comes before the other or is the same.
pub proof fn at_most_is_total(a: Seq<u32>, b: Seq<u32>)
    ensures
        at_most(a, b) || at_most(b, a),
    decreases a.len(),
{
    if a.len() > 0 && b.len() > 0 && a[0] == b[0] {
        at_most_is_total(a.skip(1), b.skip(1));
    }
}

/// Lists that come before each other are the same.
pub proof fn at_most_is_antisymmetric(a: Seq<u32>, b: Seq<u32>)
    requires
        at_most(a, b),
        at_most(b, a),
    ensures
        a == b,
    decreases a.len(),
{
    if a.len() > 0 && b.len() > 0 {
        at_most_is_antisymmetric(a.skip(1), b.skip(1));
        assert(a =~= seq![a[0]] + a.skip(1));
        assert(b =~= seq![b[0]] + b.skip(1));
    } else {
        assert(a =~= b);
    }
}

/// What comes before a list comes before those that the list comes before.
pub proof fn at_most_is_transitive(a: Seq<u32>, b: Seq<u32>, c: Seq<u32>)
    requires
        at_most(a, b),
        at_most(b, c),
    ensures
        at_most(a, c),
    decreases a.len(),
{
    if a.len() > 0 && b.len() > 0 && c.len() > 0 && a[0] == b[0] && b[0] == c[0] {
        at_most_is_transitive(a.skip(1), b.skip(1), c.skip(1));
    }
}

/// Whether a list of numbers comes before another one or is the same.
pub fn is_at_most(a: &Vec<u32>, b: &Vec<u32>) -> (r: bool)
    ensures
        r == at_most(a@, b@),
{
    let mut i: usize = 0;
    assert(a@.skip(0) =~= a@);
    assert(b@.skip(0) =~= b@);
    while i < a.len() && i < b.len()
        invariant
            i <= a@.len(),
            i <= b@.len(),
            at_most(a@, b@) == at_most(a@.skip(i as int), b@.skip(i as int)),
        decreases a@.len() - i,
    {
        if a[i] != b[i] {
            return a[i] < b[i];
        }
        assert(a@.skip(i as int).skip(1) =~= a@.skip(i + 1));
        assert(b@.skip(i as int).skip(1) =~= b@.skip(i + 1));
        i = i + 1;
    }
    i >= a.len()
}

/// The views of keys.
pub open spec fn key_views(keys: Seq<Vec<u32>>) -> Seq<Seq<u32>> {
    keys.map_values(|k: Vec<u32>| k@)
}

/// Whether a list holds the places of the first `n` items, each once, in the order of the
/// items.
spec fn in_order_up_to(keys: Seq<Seq<u32>>, places: Seq<usize>, n: int) -> bool {
    &&& places.len() == n
    &&& forall|p: int| 0 <= p < places.len() ==> #[trigger] places[p] < n
    &&& forall|i: usize| i < n ==> #[trigger] places.contains(i)
    &&& forall|p: int, q: int|
        0 <= p < q < places.len() ==> comes_before(
            keys,
            #[trigger] places[p] as int,
            #[trigger] places[q] as int,
        )
}

/// Puts the next item where it belongs.
proof fn insertion_keeps_order(
    keys: Seq<Seq<u32>>,
    places: Seq<usize>,
    n: usize,
    at: int,
)
    requires
        n < keys.len(),
        in_order_up_to(keys, places, n as int),
        0 <= at <= n,
        at > 0 ==> at_most(keys[places[at - 1] as int], keys[n as int]),
        forall|q: int|
            at <= q < n ==> !at_most(keys[#[trigger] places[q] as int], keys[n as int]),
    ensures
        in_order_up_to(keys, places.insert(at, n), n + 1),
{
    let now = places.insert(at, n);
    assert forall|i: usize| i < n + 1 implies #[trigger] now.contains(i) by {
        if i == n {
            assert(now[at] == n);
        } else {
            assert(places.contains(i));
            let p = places.index_of(i);
            assert(now[if p < at { p } else { p + 1 }] == i);
        }
    }
    assert forall|p: int, q: int| 0 <= p < q < now.len() implies comes_before(
        keys,
        #[trigger] now[p] as int,
        #[trigger] now[q] as int,
    ) by {
        let old_p = if p < at { p } else { p - 1 };
        let old_q = if q < at { q } else { q - 1 };
        if p != at && q != at {
            assert(now[p] == places[old_p]);
            assert(now[q] == places[old_q]);
        } else if q == at {
            assert(now[p] == places[p]);
            if p < at - 1 {
                assert(comes_before(keys, places[p] as int, places[at - 1] as int));
                if keys[places[p] as int] != keys[places[at - 1] as int] {
                    at_most_is_transitive(
                        keys[places[p] as int],
                        keys[places[at - 1] as int],
                        keys[n as int],
                    );
                }
            }
        } else {
            assert(now[q] == places[old_q]);
            at_most_is_total(keys[places[old_q] as int], keys[n as int]);
        }
    }
}

/// The places of items in the order of their keys, those with the same key as they came.
pub fn sort_places(keys: &Vec<Vec<u32>>) -> (r: Vec<usize>)
    ensures
        in_order(key_views(keys@), r@),
{
    let ghost views = key_views(keys@);
    let mut r: Vec<usize> = Vec::new();
    let mut n: usize = 0;
    while n < keys.len()
        invariant
            n <= keys@.len(),
            views == key_views(keys@),
            in_order_up_to(views, r@, n as int),
        decreases keys@.len() - n,
    {
        let mut at: usize = n;
        while at > 0 && !is_at_most(&keys[r[at - 1]], &keys[n])
            invariant
                at <= n < keys@.len(),
                views == key_views(keys@),
                in_order_up_to(views, r@, n as int),
                forall|q: int|
                    at <= q < n ==> !at_most(views[#[trigger] r@[q] as int], views[n as int]),
            decreases at,
        {
            at = at - 1;
        }
        proof {
            insertion_keeps_order(views, r@, n, at as int);
        }
        r.insert(at, n);
        n = n + 1;
    }
    r
}

/// There is only one order.
pub proof fn the_order_is_unique(keys: Seq<Seq<u32>>, one: Seq<usize>, other: Seq<usize>)
    requires
        in_order(keys, one),
        in_order(keys, other),
    ensures
        one == other,
{
    same_up_to(keys, one, other, one.len() as int);
    assert(one =~= other);
}

proof fn same_up_to(keys: Seq<Seq<u32>>, one: Seq<usize>, other: Seq<usize>, n: int)
    requires
        in_order(keys, one),
        in_order(keys, other),
        0 <= n <= one.len(),
    ensures
        forall|p: int| 0 <= p < n ==> #[trigger] one[p] == other[p],
    decreases n,
{
    if n > 0 {
        let p = n - 1;
        same_up_to(keys, one, other, p);
        if one[p] != other[p] {
            assert(one.contains(other[p]) && other.contains(one[p]));
            let q = one.index_of(other[p]);
            let r = other.index_of(one[p]);
            if q < p {
                assert(one[q] == other[q]);
                assert(comes_before(keys, other[q] as int, other[p] as int));
            }
            if r < p {
                assert(one[r] == other[r]);
                assert(comes_before(keys, one[r] as int, one[p] as int));
            }
            assert(comes_before(keys, one[p] as int, one[q] as int));
            assert(comes_before(keys, other[p] as int, other[r] as int));
            if keys[one[p] as int] != keys[one[q] as int] {
                at_most_is_antisymmetric(keys[one[p] as int], keys[one[q] as int]);
            }
        }
    }
}

/// Whatever the items are, there is an order of them.
pub proof fn there_is_an_order(keys: Seq<Seq<u32>>)
    requires
        keys.len() <= usize::MAX,
    ensures
        exists|places: Seq<usize>| in_order(keys, places),
{
    let places = order_up_to(keys, keys.len());
    assert(in_order(keys, places));
}

proof fn order_up_to(keys: Seq<Seq<u32>>, n: nat) -> (places: Seq<usize>)
    requires
        n <= keys.len() <= usize::MAX,
    ensures
        in_order_up_to(keys, places, n as int),
    decreases n,
{
    if n == 0 {
        seq![]
    } else {
        let rest = order_up_to(keys, (n - 1) as nat);
        let next = (n - 1) as usize;
        let at = place_for(keys, rest, next, next as int);
        insertion_keeps_order(keys, rest, next, at);
        rest.insert(at, next)
    }
}

/// Where the next item belongs among those before `upto`, where those from there on come
/// behind it.
proof fn place_for(keys: Seq<Seq<u32>>, places: Seq<usize>, n: usize, upto: int) -> (at: int)
    requires
        0 <= upto <= n,
        forall|q: int|
            upto <= q < n ==> !at_most(keys[#[trigger] places[q] as int], keys[n as int]),
    ensures
        0 <= at <= n,
        at > 0 ==> at_most(keys[places[at - 1] as int], keys[n as int]),
        forall|q: int|
            at <= q < n ==> !at_most(keys[#[trigger] places[q] as int], keys[n as int]),
    decreases upto,
{
    if upto == 0 || at_most(keys[places[upto - 1] as int], keys[n as int]) {
        upto
    } else {
        place_for(keys, places, n, upto - 1)
    }
}

/// Of two lists the one with the lower number at the first place at which they differ comes first,
/// and a list comes before those that it starts.
pub proof fn the_first_difference_decides(
    start: Seq<u32>,
    a: u32,
    b: u32,
    left: Seq<u32>,
    right: Seq<u32>,
)
    ensures
        a < b ==> at_most(start + seq![a] + left, start + seq![b] + right),
        a > b ==> !at_most(start + seq![a] + left, start + seq![b] + right),
        at_most(start, start + left),
        left.len() > 0 ==> !at_most(start + left, start),
    decreases start.len(),
{
    let x = start + seq![a] + left;
    let y = start + seq![b] + right;
    if start.len() > 0 {
        the_first_difference_decides(start.skip(1), a, b, left, right);
        assert(x.skip(1) =~= start.skip(1) + seq![a] + left);
        assert(y.skip(1) =~= start.skip(1) + seq![b] + right);
        assert((start + left).skip(1) =~= start.skip(1) + left);
    } else {
        assert(x[0] == a);
        assert(y[0] == b);
    }
}

/// Sorting keeps each item once, puts lower ones first, and leaves items that are the same as they
/// came.
pub proof fn sorting_only_rearranges(keys: Seq<Seq<u32>>, places: Seq<usize>, p: int, q: int)
    requires
        in_order(keys, places),
        0 <= p < q < places.len(),
    ensures
        places.len() == keys.len(),
        places[p] < keys.len(),
        places[q] < keys.len(),
        places[p] != places[q],
        at_most(keys[places[p] as int], keys[places[q] as int]),
        keys[places[p] as int] == keys[places[q] as int] ==> places[p] < places[q],
{
    assert(comes_before(keys, places[p] as int, places[q] as int));
    at_most_is_total(keys[places[p] as int], keys[places[p] as int]);
}

/// Sorting gives the place of each item, and of nothing else.
pub proof fn sorting_keeps_every_item(keys: Seq<Seq<u32>>, places: Seq<usize>, i: usize, p: int)
    requires
        in_order(keys, places),
        i < keys.len(),
        0 <= p < places.len(),
    ensures
        places.len() == keys.len(),
        places.contains(i),
        places[p] < keys.len(),
{
}

} // verus!
