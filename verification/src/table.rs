//! Tables of rows: selecting, ordering, limiting and changing them.
use crate::text;
use vstd::prelude::*;

verus! {

/// A row of a table. Two rows are the same when their views are.
pub trait Row: View + Sized {
    fn copied(&self) -> (r: Self)
        ensures
            r@ == self@,
    ;
}

/// What the rows of a table hold.
pub open spec fn views<T: View>(rows: Seq<T>) -> Seq<T::V> {
    rows.map_values(|r: T| r@)
}

/// What an optional row holds.
pub open spec fn opt_view<T: View>(row: Option<T>) -> Option<T::V> {
    match row {
        Some(r) => Some(r@),
        None => None,
    }
}

/// Every row that is hit becomes what `to` makes of it; the others stay.
pub open spec fn changed<V>(rows: Seq<V>, hit: spec_fn(V) -> bool, to: spec_fn(V) -> V) -> Seq<V> {
    rows.map_values(|v: V| if hit(v) { to(v) } else { v })
}

/// Some row is hit.
pub open spec fn any<V>(rows: Seq<V>, hit: spec_fn(V) -> bool) -> bool {
    exists|i: int| 0 <= i < rows.len() && hit(#[trigger] rows[i])
}

/// The first row that is hit.
pub open spec fn first<V>(rows: Seq<V>, hit: spec_fn(V) -> bool) -> Option<V>
    decreases rows.len(),
{
    if rows.len() == 0 {
        None
    } else if hit(rows[0]) {
        Some(rows[0])
    } else {
        first(rows.skip(1), hit)
    }
}

/// The list with `x` put in: behind every element that `x` does not stand before.
pub open spec fn placed<V>(list: Seq<V>, x: V, before: spec_fn(V, V) -> bool) -> Seq<V>
    decreases list.len(),
{
    if list.len() == 0 || !before(x, list.last()) {
        list.push(x)
    } else {
        placed(list.drop_last(), x, before).push(list.last())
    }
}

/// The rows in order; rows that neither stands before the other keep the order they were written in.
pub open spec fn ordered<V>(rows: Seq<V>, before: spec_fn(V, V) -> bool) -> Seq<V>
    decreases rows.len(),
{
    if rows.len() == 0 {
        rows
    } else {
        placed(ordered(rows.drop_last(), before), rows.last(), before)
    }
}

/// At most `n` rows from the front; a negative limit is none.
pub open spec fn limited<V>(rows: Seq<V>, n: int) -> Seq<V> {
    if 0 <= n < rows.len() {
        rows.take(n)
    } else {
        rows
    }
}

/// How many rows are hit.
pub open spec fn hits<V>(rows: Seq<V>, hit: spec_fn(V) -> bool) -> nat {
    rows.filter(hit).len()
}

/// A counter one further; it stops at the largest integer.
pub open spec fn bumped(n: i64) -> i64 {
    if n < i64::MAX {
        (n + 1) as i64
    } else {
        n
    }
}

pub fn bump(n: i64) -> (r: i64)
    ensures
        r == bumped(n),
{
    if n < i64::MAX {
        n + 1
    } else {
        n
    }
}

// ---------------------------------------------------------------- lemmas

/// The first hit is a hit, and there is one exactly when some row is hit.
pub proof fn first_is_a_hit<V>(rows: Seq<V>, hit: spec_fn(V) -> bool)
    ensures
        (first(rows, hit) is Some) == any(rows, hit),
        first(rows, hit) is Some ==> hit(first(rows, hit)->0) && rows.contains(first(rows, hit)->0),
    decreases rows.len(),
{
    if rows.len() > 0 {
        let rest = rows.skip(1);
        first_is_a_hit(rest, hit);
        if hit(rows[0]) {
            assert(any(rows, hit));
        } else {
            if any(rest, hit) {
                let i = choose|i: int| 0 <= i < rest.len() && hit(#[trigger] rest[i]);
                assert(hit(rows[i + 1]));
            }
            if any(rows, hit) {
                let i = choose|i: int| 0 <= i < rows.len() && hit(#[trigger] rows[i]);
                assert(hit(rest[i - 1]));
            }
            if first(rest, hit) is Some {
                let j = choose|j: int| 0 <= j < rest.len() && rest[j] == first(rest, hit)->0;
                assert(rows[j + 1] == first(rest, hit)->0);
            }
        }
    }
}

/// The first hit of rows that hold the hit at `i`, and none before it.
pub proof fn first_at<V>(rows: Seq<V>, hit: spec_fn(V) -> bool, i: int)
    requires
        0 <= i < rows.len(),
        hit(rows[i]),
        forall|j: int| 0 <= j < i ==> !hit(#[trigger] rows[j]),
    ensures
        first(rows, hit) == Some(rows[i]),
    decreases rows.len(),
{
    if i > 0 {
        assert(!hit(rows[0]));
        assert forall|j: int| 0 <= j < i - 1 implies !hit(#[trigger] rows.skip(1)[j]) by {
            assert(!hit(rows[j + 1]));
        }
        first_at(rows.skip(1), hit, i - 1);
    }
}

/// Rows without a hit have no first hit.
pub proof fn first_of_none<V>(rows: Seq<V>, hit: spec_fn(V) -> bool)
    requires
        forall|j: int| 0 <= j < rows.len() ==> !hit(#[trigger] rows[j]),
    ensures
        first(rows, hit) is None,
{
    first_is_a_hit(rows, hit);
}

proof fn placed_at<V>(list: Seq<V>, x: V, before: spec_fn(V, V) -> bool, p: int)
    requires
        0 <= p <= list.len(),
        forall|j: int| p <= j < list.len() ==> before(x, #[trigger] list[j]),
        p > 0 ==> !before(x, list[p - 1]),
    ensures
        placed(list, x, before) == list.insert(p, x),
    decreases list.len(),
{
    if list.len() == 0 || p == list.len() {
        assert(list.insert(p, x) =~= list.push(x));
    } else {
        assert(before(x, list[list.len() - 1]));
        assert forall|j: int| p <= j < list.drop_last().len() implies before(x, #[trigger] list.drop_last()[j]) by {
            assert(list.drop_last()[j] == list[j]);
        }
        placed_at(list.drop_last(), x, before, p);
        assert(list.drop_last().insert(p, x).push(list.last()) =~= list.insert(p, x));
    }
}

proof fn placed_keeps<V>(list: Seq<V>, x: V, before: spec_fn(V, V) -> bool)
    ensures
        placed(list, x, before).to_multiset() == list.to_multiset().insert(x),
        placed(list, x, before).len() == list.len() + 1,
    decreases list.len(),
{
    broadcast use vstd::seq_lib::group_to_multiset_ensures;

    if list.len() > 0 && before(x, list.last()) {
        placed_keeps(list.drop_last(), x, before);
        assert(list =~= list.drop_last().push(list.last()));
        assert(placed(list, x, before).to_multiset() =~= list.to_multiset().insert(x));
    }
}

/// An ordered list holds exactly the rows it was made from.
pub proof fn ordering_keeps_the_rows<V>(rows: Seq<V>, before: spec_fn(V, V) -> bool)
    ensures
        ordered(rows, before).to_multiset() == rows.to_multiset(),
        ordered(rows, before).len() == rows.len(),
    decreases rows.len(),
{
    broadcast use vstd::seq_lib::group_to_multiset_ensures;

    if rows.len() > 0 {
        ordering_keeps_the_rows(rows.drop_last(), before);
        placed_keeps(ordered(rows.drop_last(), before), rows.last(), before);
        assert(rows =~= rows.drop_last().push(rows.last()));
    }
}

/// Putting rows in order neither loses one nor makes one up.
pub proof fn ordering_keeps_each_row<V>(rows: Seq<V>, before: spec_fn(V, V) -> bool, x: V)
    ensures
        ordered(rows, before).contains(x) <==> rows.contains(x),
{
    broadcast use vstd::seq_lib::group_to_multiset_ensures;

    ordering_keeps_the_rows(rows, before);
    assert(ordered(rows, before).to_multiset().count(x) == rows.to_multiset().count(x));
}

/// A selection of rows holds exactly those that are hit, and each of them.
pub proof fn selecting_takes_each_hit<V>(rows: Seq<V>, hit: spec_fn(V) -> bool, x: V)
    ensures
        rows.filter(hit).contains(x) <==> rows.contains(x) && hit(x),
{
    broadcast use vstd::seq_lib::group_filter_ensures;

    let some = rows.filter(hit);
    if some.contains(x) {
        rows.lemma_filter_contains_rev(hit, x);
        let k = choose|k: int| 0 <= k < some.len() && some[k] == x;
        assert(hit(some[k]));
    }
    if rows.contains(x) && hit(x) {
        let k = choose|k: int| 0 <= k < rows.len() && rows[k] == x;
        rows.lemma_filter_contains(hit, k);
    }
}

/// No element of the list stands before one in front of it.
pub open spec fn in_order<V>(list: Seq<V>, before: spec_fn(V, V) -> bool) -> bool {
    forall|i: int, j: int| 0 <= i < j < list.len() ==> !before(#[trigger] list[j], #[trigger] list[i])
}

/// `y` stands before no element of the list.
pub open spec fn behind_all<V>(y: V, list: Seq<V>, before: spec_fn(V, V) -> bool) -> bool {
    forall|j: int| 0 <= j < list.len() ==> !before(y, #[trigger] list[j])
}

/// `before` is the strict part of an order in which any two rows can be compared.
pub open spec fn is_ranking<V>(before: spec_fn(V, V) -> bool) -> bool {
    &&& forall|a: V, b: V| #[trigger] before(a, b) ==> !before(b, a)
    &&& forall|a: V, b: V, c: V| !(#[trigger] before(a, b)) && !(#[trigger] before(b, c)) ==> !before(a, c)
}

proof fn placing_keeps_order<V>(list: Seq<V>, x: V, before: spec_fn(V, V) -> bool)
    requires
        is_ranking(before),
        in_order(list, before),
    ensures
        in_order(placed(list, x, before), before),
        forall|y: V|
            behind_all(y, list, before) && !before(y, x) ==> #[trigger] behind_all(y, placed(list, x, before), before),
    decreases list.len(),
{
    let out = placed(list, x, before);
    if list.len() == 0 || !before(x, list.last()) {
        assert forall|i: int, j: int| 0 <= i < j < out.len() implies !before(#[trigger] out[j], #[trigger] out[i]) by {
            if j == list.len() {
                if i < list.len() - 1 {
                    assert(!before(list.last(), list[i]));
                    assert(!before(x, list.last()));
                    assert(!before(x, list[i]));
                }
            }
        }
    } else {
        let head = list.drop_last();
        let last = list.last();
        assert(in_order(head, before));
        placing_keeps_order(head, x, before);
        let mid = placed(head, x, before);
        assert forall|j: int| 0 <= j < head.len() implies !before(last, #[trigger] head[j]) by {
            assert(!before(list[list.len() - 1], list[j]));
        }
        assert(!before(last, x));
        assert(behind_all(last, mid, before));
        assert forall|i: int, j: int| 0 <= i < j < out.len() implies !before(#[trigger] out[j], #[trigger] out[i]) by {
            if j == mid.len() {
                assert(out[i] == mid[i]);
            } else {
                assert(out[i] == mid[i] && out[j] == mid[j]);
            }
        }
        assert forall|y: V| behind_all(y, list, before) && !before(y, x) implies #[trigger] behind_all(y, out, before) by {
            assert forall|j: int| 0 <= j < head.len() implies !before(y, #[trigger] head[j]) by {
                assert(!before(y, list[j]));
            }
            assert(!before(y, list[list.len() - 1]));
            assert(behind_all(y, mid, before));
            assert forall|j: int| 0 <= j < out.len() implies !before(y, #[trigger] out[j]) by {
                if j < mid.len() {
                    assert(out[j] == mid[j]);
                }
            }
        }
    }
}

/// An ordered list is in order.
pub proof fn ordering_orders<V>(rows: Seq<V>, before: spec_fn(V, V) -> bool)
    requires
        is_ranking(before),
    ensures
        in_order(ordered(rows, before), before),
    decreases rows.len(),
{
    if rows.len() > 0 {
        ordering_orders(rows.drop_last(), before);
        placing_keeps_order(ordered(rows.drop_last(), before), rows.last(), before);
    }
}

/// Rows that are ordered by one text of theirs, the earlier or the later one first, can be compared.
pub proof fn ranked_by_text<V>(before: spec_fn(V, V) -> bool, key: spec_fn(V) -> Seq<char>, rising: bool)
    requires
        forall|a: V, b: V| #[trigger]
            before(a, b) == if rising {
                text::text_before(key(a), key(b))
            } else {
                text::text_before(key(b), key(a))
            },
    ensures
        is_ranking(before),
{
    assert forall|a: V, b: V| #[trigger] before(a, b) implies !before(b, a) by {
        text::text_order_is_strict(key(a), key(b));
        text::text_order_is_strict(key(b), key(a));
    }
    assert forall|a: V, b: V, c: V| !(#[trigger] before(a, b)) && !(#[trigger] before(b, c)) implies !before(a, c) by {
        if rising {
            text::text_order_is_weak(key(a), key(b), key(c));
        } else {
            text::text_order_is_weak(key(c), key(b), key(a));
        }
    }
}

/// The same of rows that are ordered by a second text where the first is equal.
pub proof fn ranked_by_two_texts<V>(
    before: spec_fn(V, V) -> bool,
    key: spec_fn(V) -> Seq<char>,
    then_by: spec_fn(V) -> Seq<char>,
    rising: bool,
)
    requires
        forall|a: V, b: V| #[trigger]
            before(a, b) == if rising {
                text::text_before(key(a), key(b)) || (key(a) == key(b) && text::text_before(then_by(a), then_by(b)))
            } else {
                text::text_before(key(b), key(a)) || (key(a) == key(b) && text::text_before(then_by(b), then_by(a)))
            },
    ensures
        is_ranking(before),
{
    assert forall|a: V, b: V| #[trigger] before(a, b) implies !before(b, a) by {
        text::text_order_is_strict(key(a), key(b));
        text::text_order_is_strict(key(b), key(a));
        text::text_order_is_strict(then_by(a), then_by(b));
        text::text_order_is_strict(then_by(b), then_by(a));
    }
    assert forall|a: V, b: V, c: V| !(#[trigger] before(a, b)) && !(#[trigger] before(b, c)) implies !before(a, c) by {
        let (first, last) = if rising { (a, c) } else { (c, a) };
        text::text_order_is_weak(key(first), key(b), key(last));
        if key(a) == key(c) {
            text::text_order_is_total(key(a), key(b));
            text::text_order_is_weak(then_by(first), then_by(b), then_by(last));
        }
    }
}

proof fn placed_the_same<V>(list: Seq<V>, x: V, one: spec_fn(V, V) -> bool, other: spec_fn(V, V) -> bool)
    requires
        forall|i: int| 0 <= i < list.len() ==> one(x, #[trigger] list[i]) == other(x, list[i]),
    ensures
        placed(list, x, one) == placed(list, x, other),
    decreases list.len(),
{
    if list.len() > 0 {
        assert(one(x, list[list.len() - 1]) == other(x, list[list.len() - 1]));
        assert forall|i: int| 0 <= i < list.drop_last().len() implies one(x, #[trigger] list.drop_last()[i]) == other(
            x,
            list.drop_last()[i],
        ) by {
            assert(list.drop_last()[i] == list[i]);
        }
        placed_the_same(list.drop_last(), x, one, other);
    }
}

/// Two ways to compare that agree on the rows put them in the same order.
pub proof fn what_agrees_on_the_rows_orders_them_alike<V>(
    rows: Seq<V>,
    one: spec_fn(V, V) -> bool,
    other: spec_fn(V, V) -> bool,
)
    requires
        forall|a: V, b: V| rows.contains(a) && rows.contains(b) ==> #[trigger] one(a, b) == other(a, b),
    ensures
        ordered(rows, one) == ordered(rows, other),
    decreases rows.len(),
{
    if rows.len() > 0 {
        let fore = rows.drop_last();
        let x = rows.last();
        assert(rows[rows.len() - 1] == x);
        assert forall|a: V, b: V| fore.contains(a) && fore.contains(b) implies #[trigger] one(a, b) == other(a, b) by {
            let i = choose|i: int| 0 <= i < fore.len() && fore[i] == a;
            let j = choose|j: int| 0 <= j < fore.len() && fore[j] == b;
            assert(rows[i] == a && rows[j] == b);
        }
        what_agrees_on_the_rows_orders_them_alike(fore, one, other);
        let list = ordered(fore, one);
        assert forall|i: int| 0 <= i < list.len() implies one(x, #[trigger] list[i]) == other(x, list[i]) by {
            ordering_keeps_each_row(fore, one, list[i]);
            let j = choose|j: int| 0 <= j < fore.len() && fore[j] == list[i];
            assert(rows[j] == list[i]);
            assert(rows.contains(x) && rows.contains(list[i]));
        }
        placed_the_same(list, x, one, other);
    }
}

/// What a selection of rows in an order says of its rows: it holds each row that is hit, no other, and
/// none stands behind one that it goes before.
pub proof fn listing<V>(rows: Seq<V>, hit: spec_fn(V) -> bool, before: spec_fn(V, V) -> bool, x: V, i: int, j: int)
    requires
        is_ranking(before),
    ensures
        ordered(rows.filter(hit), before).contains(x) <==> rows.contains(x) && hit(x),
        0 <= i < j < rows.filter(hit).len() ==> !before(
            ordered(rows.filter(hit), before)[j],
            ordered(rows.filter(hit), before)[i],
        ),
        ordered(rows.filter(hit), before).len() == rows.filter(hit).len(),
{
    let list = ordered(rows.filter(hit), before);
    ordering_keeps_each_row(rows.filter(hit), before, x);
    ordering_keeps_the_rows(rows.filter(hit), before);
    selecting_takes_each_hit(rows, hit, x);
    ordering_orders(rows.filter(hit), before);
    if 0 <= i < j < list.len() {
        assert(!before(list[j], list[i]));
    }
}

/// The same of a listing that is cut off at a limit: it holds no more than was asked for, what it
/// leaves out goes before nothing in it, and where there is room it leaves out nothing.
pub proof fn listing_up_to<V>(
    rows: Seq<V>,
    hit: spec_fn(V) -> bool,
    before: spec_fn(V, V) -> bool,
    limit: int,
    x: V,
    i: int,
    j: int,
)
    requires
        is_ranking(before),
    ensures
        ({
            let some = limited(ordered(rows.filter(hit), before), limit);
            &&& some.contains(x) ==> rows.contains(x) && hit(x)
            &&& limit >= 0 ==> some.len() <= limit
            &&& 0 <= i < j < some.len() ==> !before(some[j], some[i])
            &&& (limit < 0 || some.len() < limit) && rows.contains(x) && hit(x) ==> some.contains(x)
            &&& rows.contains(x) && hit(x) && !some.contains(x) && 0 <= i < some.len() ==> !before(x, some[i])
        }),
{
    let all = ordered(rows.filter(hit), before);
    let some = limited(all, limit);
    listing(rows, hit, before, x, i, j);
    ordering_orders(rows.filter(hit), before);
    assert forall|k: int| 0 <= k < some.len() implies #[trigger] some[k] == all[k] by {}
    if some.contains(x) {
        let k = choose|k: int| 0 <= k < some.len() && some[k] == x;
        assert(all[k] == x);
    }
    if all.contains(x) {
        let k = choose|k: int| 0 <= k < all.len() && all[k] == x;
        if k < some.len() {
            assert(some[k] == x);
        } else if 0 <= i < some.len() {
            assert(!before(all[k], all[i]));
        }
    }
}

proof fn filter_push<V>(rows: Seq<V>, x: V, keep: spec_fn(V) -> bool)
    ensures
        rows.push(x).filter(keep) == if keep(x) { rows.filter(keep).push(x) } else { rows.filter(keep) },
{
    reveal(Seq::filter);
    assert(rows.push(x).drop_last() =~= rows);
}

/// Selecting with a test that every row passes keeps them all.
pub proof fn filter_all<V>(rows: Seq<V>, keep: spec_fn(V) -> bool)
    requires
        forall|v: V| #[trigger] keep(v),
    ensures
        rows.filter(keep) == rows,
    decreases rows.len(),
{
    reveal(Seq::filter);
    if rows.len() > 0 {
        filter_all(rows.drop_last(), keep);
        assert(keep(rows.last()));
        assert(rows.drop_last().push(rows.last()) =~= rows);
    }
}

/// Some row is hit exactly when at least one row is counted.
pub proof fn any_is_counted<V>(rows: Seq<V>, hit: spec_fn(V) -> bool)
    ensures
        any(rows, hit) == (hits(rows, hit) > 0),
    decreases rows.len(),
{
    reveal(Seq::filter);
    if rows.len() > 0 {
        any_is_counted(rows.drop_last(), hit);
        if hit(rows.last()) {
            assert(hit(rows[rows.len() - 1]));
        }
        if any(rows.drop_last(), hit) {
            let i = choose|i: int| 0 <= i < rows.drop_last().len() && hit(#[trigger] rows.drop_last()[i]);
            assert(hit(rows[i]));
        }
        if any(rows, hit) && !hit(rows.last()) {
            let i = choose|i: int| 0 <= i < rows.len() && hit(#[trigger] rows[i]);
            assert(hit(rows.drop_last()[i]));
        }
    }
}

// ---------------------------------------------------------------- operations

/// The rows that `keep` holds of.
pub(crate) fn select<T: Row, P: Fn(&T) -> bool>(rows: &Vec<T>, p: P, keep: Ghost<spec_fn(T::V) -> bool>) -> (r: Vec<T>)
    requires
        forall|t: T| #[trigger] p.requires((&t,)),
        forall|t: T, b: bool| #[trigger] p.ensures((&t,), b) ==> b == (keep@)(t@),
    ensures
        views(r@) == views(rows@).filter(keep@),
{
    let mut out: Vec<T> = Vec::new();
    let mut i: usize = 0;
    proof {
        reveal(Seq::filter);
        assert(views(out@) =~= views(rows@).take(0).filter(keep@));
    }
    while i < rows.len()
        invariant
            i <= rows.len(),
            forall|t: T| #[trigger] p.requires((&t,)),
            forall|t: T, b: bool| #[trigger] p.ensures((&t,), b) ==> b == (keep@)(t@),
            views(out@) == views(rows@).take(i as int).filter(keep@),
        decreases rows.len() - i,
    {
        let hit = p(&rows[i]);
        proof {
            filter_push(views(rows@).take(i as int), rows@[i as int]@, keep@);
            assert(views(rows@).take(i as int).push(rows@[i as int]@) =~= views(rows@).take(i as int + 1));
        }
        if hit {
            let c = rows[i].copied();
            let ghost before = out@;
            out.push(c);
            assert(views(out@) =~= views(before).push(c@));
        }
        i += 1;
    }
    assert(views(rows@).take(i as int) =~= views(rows@));
    out
}

/// The rows in order.
pub(crate) fn arrange<T: Row, F: Fn(&T, &T) -> bool>(
    rows: Vec<T>,
    f: F,
    before: Ghost<spec_fn(T::V, T::V) -> bool>,
) -> (r: Vec<T>)
    requires
        forall|a: T, b: T| #[trigger] f.requires((&a, &b)),
        forall|a: T, b: T, c: bool| #[trigger] f.ensures((&a, &b), c) ==> c == (before@)(a@, b@),
    ensures
        views(r@) == ordered(views(rows@), before@),
{
    let mut out: Vec<T> = Vec::new();
    let mut i: usize = 0;
    assert(views(out@) =~= ordered(views(rows@).take(0), before@));
    while i < rows.len()
        invariant
            i <= rows.len(),
            out.len() == i,
            forall|a: T, b: T| #[trigger] f.requires((&a, &b)),
            forall|a: T, b: T, c: bool| #[trigger] f.ensures((&a, &b), c) ==> c == (before@)(a@, b@),
            views(out@) == ordered(views(rows@).take(i as int), before@),
        decreases rows.len() - i,
    {
        let mut p: usize = out.len();
        while p > 0 && f(&rows[i], &out[p - 1])
            invariant
                p <= out.len(),
                i < rows.len(),
                forall|a: T, b: T| #[trigger] f.requires((&a, &b)),
                forall|a: T, b: T, c: bool| #[trigger] f.ensures((&a, &b), c) ==> c == (before@)(a@, b@),
                forall|j: int| p <= j < out.len() ==> (before@)(rows@[i as int]@, #[trigger] views(out@)[j]),
            decreases p,
        {
            p -= 1;
        }
        let c = rows[i].copied();
        let ghost list = views(out@);
        proof {
            placed_at(list, c@, before@, p as int);
            let upto = views(rows@).take(i as int + 1);
            assert(upto.drop_last() =~= views(rows@).take(i as int));
            assert(upto.last() == c@);
        }
        out.insert(p, c);
        assert(views(out@) =~= list.insert(p as int, c@));
        i += 1;
    }
    assert(views(rows@).take(i as int) =~= views(rows@));
    out
}

/// At most `n` rows from the front.
pub(crate) fn limit<T: Row>(rows: Vec<T>, n: i64) -> (r: Vec<T>)
    ensures
        views(r@) == limited(views(rows@), n as int),
{
    let mut out = rows;
    if n >= 0 && (n as u64) < (out.len() as u64) {
        out.truncate(n as usize);
        assert(views(out@) =~= views(rows@).take(n as int));
    }
    out
}

/// Replaces every row that is hit, and says whether there was one.
pub(crate) fn change<T: Row, P: Fn(&T) -> bool, U: Fn(&T) -> T>(
    rows: &mut Vec<T>,
    p: P,
    u: U,
    hit: Ghost<spec_fn(T::V) -> bool>,
    to: Ghost<spec_fn(T::V) -> T::V>,
) -> (n: usize)
    requires
        forall|t: T| #[trigger] p.requires((&t,)),
        forall|t: T, b: bool| #[trigger] p.ensures((&t,), b) ==> b == (hit@)(t@),
        forall|t: T| (hit@)(t@) ==> #[trigger] u.requires((&t,)),
        forall|t: T, x: T| #[trigger] u.ensures((&t,), x) ==> x@ == (to@)(t@),
    ensures
        views(final(rows)@) == changed(views(old(rows)@), hit@, to@),
        n == hits(views(old(rows)@), hit@),
{
    let mut i: usize = 0;
    let mut n: usize = 0;
    let ghost was = views(rows@);
    proof {
        reveal(Seq::filter);
        assert(was.take(0).filter(hit@).len() == 0);
    }
    while i < rows.len()
        invariant
            i <= rows.len(),
            n <= i,
            was == views(old(rows)@),
            rows.len() == old(rows).len(),
            n == was.take(i as int).filter(hit@).len(),
            forall|t: T| #[trigger] p.requires((&t,)),
            forall|t: T, b: bool| #[trigger] p.ensures((&t,), b) ==> b == (hit@)(t@),
            forall|t: T| (hit@)(t@) ==> #[trigger] u.requires((&t,)),
            forall|t: T, x: T| #[trigger] u.ensures((&t,), x) ==> x@ == (to@)(t@),
            forall|j: int| 0 <= j < i ==> #[trigger] rows@[j]@ == (if (hit@)(was[j]) { (to@)(was[j]) } else { was[j] }),
            forall|j: int| i <= j < rows.len() ==> #[trigger] rows@[j]@ == was[j],
        decreases rows.len() - i,
    {
        let touched = p(&rows[i]);
        proof {
            filter_push(was.take(i as int), was[i as int], hit@);
            assert(was.take(i as int).push(was[i as int]) =~= was.take(i as int + 1));
        }
        if touched {
            let x = u(&rows[i]);
            rows.set(i, x);
            n += 1;
        }
        i += 1;
    }
    assert(was.take(i as int) =~= was);
    assert(views(rows@) =~= changed(was, hit@, to@));
    n
}

/// The first row that is hit.
pub(crate) fn find<T: Row, P: Fn(&T) -> bool>(rows: &Vec<T>, p: P, hit: Ghost<spec_fn(T::V) -> bool>) -> (r: Option<&T>)
    requires
        forall|t: T| #[trigger] p.requires((&t,)),
        forall|t: T, b: bool| #[trigger] p.ensures((&t,), b) ==> b == (hit@)(t@),
    ensures
        match r {
            Some(t) => first(views(rows@), hit@) == Some(t@),
            None => first(views(rows@), hit@) is None,
        },
{
    let mut i: usize = 0;
    while i < rows.len()
        invariant
            i <= rows.len(),
            forall|t: T| #[trigger] p.requires((&t,)),
            forall|t: T, b: bool| #[trigger] p.ensures((&t,), b) ==> b == (hit@)(t@),
            forall|j: int| 0 <= j < i ==> !(hit@)(#[trigger] views(rows@)[j]),
        decreases rows.len() - i,
    {
        if p(&rows[i]) {
            proof {
                first_at(views(rows@), hit@, i as int);
            }
            return Some(&rows[i]);
        }
        i += 1;
    }
    proof {
        first_of_none(views(rows@), hit@);
    }
    None
}

/// How many rows are hit.
pub(crate) fn count<T: Row, P: Fn(&T) -> bool>(rows: &Vec<T>, p: P, hit: Ghost<spec_fn(T::V) -> bool>) -> (n: usize)
    requires
        forall|t: T| #[trigger] p.requires((&t,)),
        forall|t: T, b: bool| #[trigger] p.ensures((&t,), b) ==> b == (hit@)(t@),
    ensures
        n == hits(views(rows@), hit@),
{
    let mut i: usize = 0;
    let mut n: usize = 0;
    let ghost all = views(rows@);
    proof {
        reveal(Seq::filter);
        assert(all.take(0).filter(hit@).len() == 0);
    }
    while i < rows.len()
        invariant
            i <= rows.len(),
            n <= i,
            all == views(rows@),
            n == all.take(i as int).filter(hit@).len(),
            forall|t: T| #[trigger] p.requires((&t,)),
            forall|t: T, b: bool| #[trigger] p.ensures((&t,), b) ==> b == (hit@)(t@),
        decreases rows.len() - i,
    {
        proof {
            filter_push(all.take(i as int), all[i as int], hit@);
            assert(all.take(i as int).push(all[i as int]) =~= all.take(i as int + 1));
        }
        if p(&rows[i]) {
            n += 1;
        }
        i += 1;
    }
    assert(all.take(i as int) =~= all);
    n
}

/// A change that does not touch what rows are found by leaves the first hit where it is.
pub proof fn first_of_changed<V>(rows: Seq<V>, find: spec_fn(V) -> bool, hit: spec_fn(V) -> bool, to: spec_fn(V) -> V)
    requires
        forall|v: V| find(#[trigger] to(v)) == find(v),
    ensures
        first(changed(rows, hit, to), find) == match first(rows, find) {
            Some(v) => Some(
                if hit(v) {
                    to(v)
                } else {
                    v
                },
            ),
            None => None,
        },
    decreases rows.len(),
{
    if rows.len() > 0 {
        let after = changed(rows, hit, to);
        let head = if hit(rows[0]) {
            to(rows[0])
        } else {
            rows[0]
        };
        assert(after[0] == head);
        assert(find(to(rows[0])) == find(rows[0]));
        assert(after.skip(1) =~= changed(rows.skip(1), hit, to));
        first_of_changed(rows.skip(1), find, hit, to);
    }
}

/// Where the first row stands that is hit; behind the last one where none is.
pub open spec fn position<V>(rows: Seq<V>, hit: spec_fn(V) -> bool) -> int
    decreases rows.len(),
{
    if rows.len() == 0 {
        0
    } else if hit(rows[0]) {
        0
    } else {
        1 + position(rows.skip(1), hit)
    }
}

/// The row at the position is hit, and none before it is.
pub proof fn position_is_first<V>(rows: Seq<V>, hit: spec_fn(V) -> bool)
    ensures
        0 <= position(rows, hit) <= rows.len(),
        position(rows, hit) < rows.len() ==> hit(rows[position(rows, hit)]),
        forall|j: int| 0 <= j < position(rows, hit) ==> !hit(#[trigger] rows[j]),
        (position(rows, hit) < rows.len()) == any(rows, hit),
    decreases rows.len(),
{
    if rows.len() > 0 && !hit(rows[0]) {
        let rest = rows.skip(1);
        position_is_first(rest, hit);
        assert forall|j: int| 0 <= j < position(rows, hit) implies !hit(#[trigger] rows[j]) by {
            if j > 0 {
                assert(rows[j] == rest[j - 1]);
            }
        }
        if any(rows, hit) {
            let i = choose|i: int| 0 <= i < rows.len() && hit(#[trigger] rows[i]);
            assert(hit(rest[i - 1]));
        }
        if any(rest, hit) {
            let i = choose|i: int| 0 <= i < rest.len() && hit(#[trigger] rest[i]);
            assert(hit(rows[i + 1]));
        }
    } else if rows.len() > 0 {
        assert(hit(rows[0]));
    }
}

/// A position with nothing hit before it is the position of the first hit.
pub proof fn position_at<V>(rows: Seq<V>, hit: spec_fn(V) -> bool, i: int)
    requires
        0 <= i <= rows.len(),
        i < rows.len() ==> hit(rows[i]),
        forall|j: int| 0 <= j < i ==> !hit(#[trigger] rows[j]),
    ensures
        position(rows, hit) == i,
{
    position_is_first(rows, hit);
    let p = position(rows, hit);
    if p < i {
        assert(!hit(rows[p]));
    }
}

/// Where the first row stands that is hit; behind the last one where none is.
pub(crate) fn locate<T: View, P: Fn(&T) -> bool>(rows: &Vec<T>, p: P, hit: Ghost<spec_fn(T::V) -> bool>) -> (i: usize)
    requires
        forall|t: T| #[trigger] p.requires((&t,)),
        forall|t: T, b: bool| #[trigger] p.ensures((&t,), b) ==> b == (hit@)(t@),
    ensures
        i == position(views(rows@), hit@),
        i <= rows.len(),
{
    let mut i: usize = 0;
    while i < rows.len()
        invariant
            i <= rows.len(),
            forall|t: T| #[trigger] p.requires((&t,)),
            forall|t: T, b: bool| #[trigger] p.ensures((&t,), b) ==> b == (hit@)(t@),
            forall|j: int| 0 <= j < i ==> !(hit@)(#[trigger] views(rows@)[j]),
        decreases rows.len() - i,
    {
        if p(&rows[i]) {
            proof {
                position_at(views(rows@), hit@, i as int);
            }
            return i;
        }
        i += 1;
    }
    proof {
        position_at(views(rows@), hit@, i as int);
    }
    i
}

} // verus!
