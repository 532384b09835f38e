//! Which episodes a summary lists.

use vstd::prelude::*;

use crate::divergence::analysis::Episode;
use crate::number::Num;

verus! {

/// How many episodes of the lowest band a summary lists.
pub const CAP: usize = 50;

/// The numbers of the episodes of a band, in ascending order.
pub open spec fn of_band(episodes: Seq<Episode>, band: int) -> Seq<usize>
    decreases episodes.len(),
{
    if episodes.len() == 0 {
        Seq::empty()
    } else {
        let before = of_band(episodes.drop_last(), band);
        if episodes.last().band == band {
            before.push((episodes.len() - 1) as usize)
        } else {
            before
        }
    }
}

/// The place for a divergence in episodes that are ranked by theirs: behind
/// every one that is as large.
pub open spec fn place(episodes: Seq<Episode>, order: Seq<usize>, percent: Num) -> nat
    decreases order.len(),
{
    if order.len() == 0 {
        0
    } else if episodes[order.last() as int].peak_pct.below(percent) {
        place(episodes, order.drop_last(), percent)
    } else {
        order.len()
    }
}

/// The episodes with the given numbers, ranked by their peaks: the largest
/// first, and those that are as large in the order they are given in.
pub open spec fn ranked(episodes: Seq<Episode>, numbers: Seq<usize>) -> Seq<usize>
    decreases numbers.len(),
{
    if numbers.len() == 0 {
        Seq::empty()
    } else {
        let order = ranked(episodes, numbers.drop_last());
        let percent = episodes[numbers.last() as int].peak_pct;
        order.insert(place(episodes, order, percent) as int, numbers.last())
    }
}

/// The first `n` of a sequence, or all of it where it is shorter.
pub open spec fn at_most(order: Seq<usize>, n: nat) -> Seq<usize> {
    if order.len() <= n {
        order
    } else {
        order.take(n as int)
    }
}

/// The place for a start in episodes that are sorted by theirs: behind every
/// one that starts no later.
pub open spec fn time_place(episodes: Seq<Episode>, order: Seq<usize>, start: u64) -> nat
    decreases order.len(),
{
    if order.len() == 0 {
        0
    } else if start < episodes[order.last() as int].start_ts {
        time_place(episodes, order.drop_last(), start)
    } else {
        order.len()
    }
}

/// The episodes with the given numbers, sorted by their starts: the earliest
/// first, and those that start together in the order they are given in.
pub open spec fn by_time(episodes: Seq<Episode>, numbers: Seq<usize>) -> Seq<usize>
    decreases numbers.len(),
{
    if numbers.len() == 0 {
        Seq::empty()
    } else {
        let order = by_time(episodes, numbers.drop_last());
        let start = episodes[numbers.last() as int].start_ts;
        order.insert(time_place(episodes, order, start) as int, numbers.last())
    }
}

/// Whether a summary leaves out episodes of a band: of the lowest band it lists
/// no more than so many.
pub open spec fn is_cut(episodes: Seq<Episode>, band: int) -> bool {
    band == 1 && of_band(episodes, band).len() > CAP
}

/// The episodes of a band that a summary lists: all of them in their order, or
/// those with the largest peaks in the order of time.
pub open spec fn listed(episodes: Seq<Episode>, band: int) -> Seq<usize> {
    let all = of_band(episodes, band);
    if is_cut(episodes, band) {
        by_time(episodes, at_most(ranked(episodes, all), CAP as nat))
    } else {
        all
    }
}

/// Whether the peak of every episode with one of the numbers is a number.
pub open spec fn comparable(episodes: Seq<Episode>, numbers: Seq<usize>) -> bool {
    forall|k: int|
        0 <= k < numbers.len() ==> #[trigger] numbers[k] < episodes.len()
            && !episodes[numbers[k] as int].peak_pct.is_nan()
}

/// Whether the peaks of the episodes do not grow along an order.
pub open spec fn descending(episodes: Seq<Episode>, order: Seq<usize>) -> bool {
    forall|a: int, b: int|
        0 <= a < b < order.len() ==> !episodes[#[trigger] order[a] as int].peak_pct.below(
            episodes[#[trigger] order[b] as int].peak_pct,
        )
}

proof fn lemma_place(episodes: Seq<Episode>, order: Seq<usize>, percent: Num)
    requires
        comparable(episodes, order),
        descending(episodes, order),
        !percent.is_nan(),
    ensures
        place(episodes, order, percent) <= order.len(),
        forall|k: int|
            0 <= k < place(episodes, order, percent) ==> !episodes[#[trigger] order[k] as int].peak_pct.below(
                percent,
            ),
        forall|k: int|
            place(episodes, order, percent) <= k < order.len() ==> episodes[#[trigger] order[k] as int].peak_pct.below(
                percent,
            ),
    decreases order.len(),
{
    if order.len() > 0 {
        let rest = order.drop_last();
        assert(order.last() == order[order.len() - 1]);
        assert forall|k: int| 0 <= k < rest.len() implies rest[k] == order[k] by {}
        if episodes[order.last() as int].peak_pct.below(percent) {
            lemma_place(episodes, rest, percent);
        }
    }
}

proof fn lemma_ranked(episodes: Seq<Episode>, numbers: Seq<usize>)
    requires
        comparable(episodes, numbers),
    ensures
        ranked(episodes, numbers).len() == numbers.len(),
        comparable(episodes, ranked(episodes, numbers)),
        descending(episodes, ranked(episodes, numbers)),
        ranked(episodes, numbers).to_multiset() == numbers.to_multiset(),
    decreases numbers.len(),
{
    broadcast use vstd::seq_lib::group_to_multiset_ensures;

    if numbers.len() > 0 {
        let rest = numbers.drop_last();
        assert forall|k: int| 0 <= k < rest.len() implies rest[k] == numbers[k] by {}
        lemma_ranked(episodes, rest);
        let order = ranked(episodes, rest);
        let x = numbers.last();
        assert(x == numbers[numbers.len() - 1]);
        let percent = episodes[x as int].peak_pct;
        lemma_place(episodes, order, percent);
        let p = place(episodes, order, percent) as int;
        let after = order.insert(p, x);
        assert forall|k: int| 0 <= k < after.len() implies after[k] == (if k < p {
            order[k]
        } else if k == p {
            x
        } else {
            order[k - 1]
        }) by {}
        assert(numbers =~= rest.push(x));
    }
}

/// Ranking keeps the episodes and puts the larger peaks first.
pub proof fn ranking_sorts(episodes: Seq<Episode>, numbers: Seq<usize>)
    requires
        comparable(episodes, numbers),
    ensures
        ranked(episodes, numbers).to_multiset() == numbers.to_multiset(),
        descending(episodes, ranked(episodes, numbers)),
{
    lemma_ranked(episodes, numbers);
}

/// Whether the starts of the episodes do not go back along an order.
pub open spec fn in_time_order(episodes: Seq<Episode>, order: Seq<usize>) -> bool {
    forall|a: int, b: int|
        0 <= a < b < order.len() ==> episodes[#[trigger] order[a] as int].start_ts
            <= episodes[#[trigger] order[b] as int].start_ts
}

proof fn lemma_time_place(episodes: Seq<Episode>, order: Seq<usize>, start: u64)
    requires
        in_time_order(episodes, order),
    ensures
        time_place(episodes, order, start) <= order.len(),
        forall|k: int|
            0 <= k < time_place(episodes, order, start) ==> episodes[#[trigger] order[k] as int].start_ts
                <= start,
        forall|k: int|
            time_place(episodes, order, start) <= k < order.len() ==> start
                < episodes[#[trigger] order[k] as int].start_ts,
    decreases order.len(),
{
    if order.len() > 0 {
        let rest = order.drop_last();
        assert(order.last() == order[order.len() - 1]);
        assert forall|k: int| 0 <= k < rest.len() implies rest[k] == order[k] by {}
        if start < episodes[order.last() as int].start_ts {
            lemma_time_place(episodes, rest, start);
        }
    }
}

proof fn lemma_by_time(episodes: Seq<Episode>, numbers: Seq<usize>)
    ensures
        by_time(episodes, numbers).len() == numbers.len(),
        in_time_order(episodes, by_time(episodes, numbers)),
        by_time(episodes, numbers).to_multiset() == numbers.to_multiset(),
    decreases numbers.len(),
{
    broadcast use vstd::seq_lib::group_to_multiset_ensures;

    if numbers.len() > 0 {
        let rest = numbers.drop_last();
        lemma_by_time(episodes, rest);
        let order = by_time(episodes, rest);
        let x = numbers.last();
        let start = episodes[x as int].start_ts;
        lemma_time_place(episodes, order, start);
        let p = time_place(episodes, order, start) as int;
        let after = order.insert(p, x);
        assert forall|k: int| 0 <= k < after.len() implies after[k] == (if k < p {
            order[k]
        } else if k == p {
            x
        } else {
            order[k - 1]
        }) by {}
        assert(numbers =~= rest.push(x));
    }
}

/// Sorting by time keeps the episodes and puts the earlier ones first.
pub proof fn sorting_keeps_the_episodes(episodes: Seq<Episode>, numbers: Seq<usize>)
    ensures
        by_time(episodes, numbers).to_multiset() == numbers.to_multiset(),
        in_time_order(episodes, by_time(episodes, numbers)),
{
    lemma_by_time(episodes, numbers);
}

proof fn lemma_same_members(a: Seq<usize>, b: Seq<usize>, x: usize)
    requires
        a.to_multiset() == b.to_multiset(),
    ensures
        a.contains(x) <==> b.contains(x),
{
    broadcast use vstd::seq_lib::group_to_multiset_ensures;

    assert(a.contains(x) <==> a.to_multiset().count(x) > 0);
    assert(b.contains(x) <==> b.to_multiset().count(x) > 0);
}

/// An episode of the lowest band that a summary leaves out has no larger peak
/// than one that it lists.
pub proof fn listed_peaks_are_the_largest(episodes: Seq<Episode>, kept: usize, left_out: usize)
    requires
        comparable(episodes, of_band(episodes, 1)),
        listed(episodes, 1).contains(kept),
        of_band(episodes, 1).contains(left_out),
        !listed(episodes, 1).contains(left_out),
    ensures
        !episodes[kept as int].peak_pct.below(episodes[left_out as int].peak_pct),
{
    let all = of_band(episodes, 1);
    let order = ranked(episodes, all);
    let first = at_most(order, CAP as nat);
    lemma_ranked(episodes, all);
    lemma_by_time(episodes, first);
    lemma_same_members(by_time(episodes, first), first, kept);
    lemma_same_members(by_time(episodes, first), first, left_out);
    lemma_same_members(order, all, left_out);
    let a = choose|a: int| 0 <= a < first.len() && first[a] == kept;
    assert(order[a] == kept);
    let b = choose|b: int| 0 <= b < order.len() && order[b] == left_out;
    if b < first.len() {
        assert(first[b] == left_out);
    }
}

proof fn lemma_of_band_ascends(episodes: Seq<Episode>, band: int)
    requires
        episodes.len() <= usize::MAX,
    ensures
        forall|j: int, k: int|
            0 <= j < k < of_band(episodes, band).len() ==> #[trigger] of_band(episodes, band)[j]
                < #[trigger] of_band(episodes, band)[k],
        forall|k: int|
            0 <= k < of_band(episodes, band).len() ==> #[trigger] of_band(episodes, band)[k]
                < episodes.len(),
    decreases episodes.len(),
{
    if episodes.len() > 0 {
        lemma_of_band_ascends(episodes.drop_last(), band);
        let before = of_band(episodes.drop_last(), band);
        let all = of_band(episodes, band);
        assert forall|k: int| 0 <= k < all.len() implies #[trigger] all[k] < episodes.len() by {
            if k < before.len() {
                assert(all[k] == before[k]);
            }
        }
        assert forall|j: int, k: int| 0 <= j < k < all.len() implies #[trigger] all[j]
            < #[trigger] all[k] by {
            assert(all[j] == before[j]);
            if k < before.len() {
                assert(all[k] == before[k]);
            }
        }
    }
}

/// A summary lists every episode of a band, but of the lowest band no more than
/// so many; where it leaves some out, and where the episodes are in the order
/// of time anyway, it lists them in that order.
pub proof fn listed_episodes_are_in_order(episodes: Seq<Episode>, band: int)
    requires
        episodes.len() <= usize::MAX,
        is_cut(episodes, band) ==> comparable(episodes, of_band(episodes, 1)),
    ensures
        listed(episodes, band).len() == (if is_cut(episodes, band) {
            CAP as nat
        } else {
            of_band(episodes, band).len()
        }),
        is_cut(episodes, band) || (forall|i: int, j: int|
            0 <= i < j < episodes.len() ==> (#[trigger] episodes[i]).start_ts <= (
            #[trigger] episodes[j]).start_ts) ==> in_time_order(episodes, listed(episodes, band)),
{
    let all = of_band(episodes, band);
    lemma_of_band_ascends(episodes, band);
    if is_cut(episodes, band) {
        lemma_ranked(episodes, all);
        lemma_by_time(episodes, at_most(ranked(episodes, all), CAP as nat));
    }
}

proof fn lemma_insert_at_most(order: Seq<usize>, p: int, x: usize, n: nat)
    requires
        0 <= p <= order.len(),
    ensures
        p < n ==> at_most(order.insert(p, x), n) == at_most(at_most(order, n).insert(p, x), n),
        p >= n ==> at_most(order.insert(p, x), n) == at_most(order, n),
{
    let after = order.insert(p, x);
    if p < n {
        let some = at_most(order, n).insert(p, x);
        assert(at_most(after, n) =~= at_most(some, n));
    } else {
        assert(at_most(after, n) =~= at_most(order, n));
    }
}

proof fn lemma_place_at_most(
    episodes: Seq<Episode>,
    order: Seq<usize>,
    percent: Num,
    n: nat,
)
    requires
        comparable(episodes, order),
        descending(episodes, order),
        !percent.is_nan(),
    ensures
        place(episodes, at_most(order, n), percent) == if place(episodes, order, percent) < n {
            place(episodes, order, percent)
        } else {
            at_most(order, n).len()
        },
{
    let some = at_most(order, n);
    assert forall|k: int| 0 <= k < some.len() implies some[k] == order[k] by {}
    lemma_place(episodes, order, percent);
    lemma_place(episodes, some, percent);
    let p = place(episodes, order, percent);
    let q = place(episodes, some, percent);
    if q < some.len() {
        assert(episodes[some[q as int] as int].peak_pct.below(percent));
        assert(some[q as int] == order[q as int]);
    }
    if p < some.len() {
        assert(episodes[order[p as int] as int].peak_pct.below(percent));
        assert(some[p as int] == order[p as int]);
    }
}

/// Lists the episodes of a band.
pub fn list_band(episodes: &Vec<Episode>, band: usize) -> (r: Vec<usize>)
    ensures
        r@ == of_band(episodes@, band as int),
        forall|k: int| 0 <= k < r@.len() ==> #[trigger] r@[k] < episodes@.len(),
        r@.len() <= episodes@.len(),
{
    let mut out: Vec<usize> = Vec::new();
    let mut i: usize = 0;
    assert(episodes@.take(0) =~= Seq::empty());
    while i < episodes.len()
        invariant
            i <= episodes@.len(),
            out@ == of_band(episodes@.take(i as int), band as int),
            out@.len() <= i,
            forall|k: int| 0 <= k < out@.len() ==> #[trigger] out@[k] < i,
        decreases episodes.len() - i,
    {
        assert(episodes@.take(i + 1).drop_last() =~= episodes@.take(i as int));
        if episodes[i].band == band {
            out.push(i);
        }
        i = i + 1;
    }
    assert(episodes@.take(episodes@.len() as int) =~= episodes@);
    out
}

fn find_place(episodes: &Vec<Episode>, order: &Vec<usize>, percent: Num) -> (r: usize)
    requires
        comparable(episodes@, order@),
    ensures
        r == place(episodes@, order@, percent),
        r <= order@.len(),
{
    let mut p: usize = order.len();
    assert(order@.take(p as int) =~= order@);
    while p > 0
        invariant
            p <= order@.len(),
            comparable(episodes@, order@),
            place(episodes@, order@, percent) == place(
                episodes@,
                order@.take(p as int),
                percent,
            ),
        decreases p,
    {
        let ghost some = order@.take(p as int);
        assert(some.last() == order@[p - 1]);
        assert(some.drop_last() =~= order@.take(p - 1));
        if !episodes[order[p - 1]].peak_pct.less(percent) {
            return p;
        }
        p = p - 1;
    }
    p
}

/// The first of some episodes when they are ranked by their peaks.
fn find_largest(episodes: &Vec<Episode>, numbers: &Vec<usize>) -> (r: Vec<usize>)
    requires
        comparable(episodes@, numbers@),
    ensures
        r@ == at_most(ranked(episodes@, numbers@), CAP as nat),
{
    let mut best: Vec<usize> = Vec::new();
    let mut i: usize = 0;
    assert(numbers@.take(0) =~= Seq::empty());
    while i < numbers.len()
        invariant
            i <= numbers@.len(),
            comparable(episodes@, numbers@),
            best@ == at_most(ranked(episodes@, numbers@.take(i as int)), CAP as nat),
        decreases numbers.len() - i,
    {
        let ghost before = numbers@.take(i as int);
        let ghost after = numbers@.take(i + 1);
        let ghost order = ranked(episodes@, before);
        let x: usize = numbers[i];
        assert(after.drop_last() =~= before);
        assert(after.last() == x);
        assert(comparable(episodes@, before)) by {
            assert forall|k: int| 0 <= k < before.len() implies before[k] == numbers@[k] by {}
        }
        proof {
            lemma_ranked(episodes@, before);
            assert forall|k: int| 0 <= k < best@.len() implies best@[k] == order[k] by {}
        }
        let percent = episodes[x].peak_pct;
        let p: usize = find_place(episodes, &best, percent);
        proof {
            lemma_place(episodes@, order, percent);
            lemma_place_at_most(episodes@, order, percent, CAP as nat);
            lemma_insert_at_most(
                order,
                place(episodes@, order, percent) as int,
                x,
                CAP as nat,
            );
        }
        if p < CAP {
            best.insert(p, x);
            if best.len() > CAP {
                let ghost full = best@;
                best.pop();
                assert(best@ =~= full.take(CAP as int));
            }
        }
        i = i + 1;
    }
    assert(numbers@.take(numbers@.len() as int) =~= numbers@);
    best
}

fn find_time_place(episodes: &Vec<Episode>, order: &Vec<usize>, start: u64) -> (r: usize)
    requires
        forall|k: int| 0 <= k < order@.len() ==> #[trigger] order@[k] < episodes@.len(),
    ensures
        r == time_place(episodes@, order@, start),
        r <= order@.len(),
{
    let mut p: usize = order.len();
    assert(order@.take(p as int) =~= order@);
    while p > 0
        invariant
            p <= order@.len(),
            forall|k: int| 0 <= k < order@.len() ==> #[trigger] order@[k] < episodes@.len(),
            time_place(episodes@, order@, start) == time_place(
                episodes@,
                order@.take(p as int),
                start,
            ),
        decreases p,
    {
        let ghost some = order@.take(p as int);
        assert(some.last() == order@[p - 1]);
        assert(some.drop_last() =~= order@.take(p - 1));
        if start >= episodes[order[p - 1]].start_ts {
            return p;
        }
        p = p - 1;
    }
    p
}

fn sort_by_time(episodes: &Vec<Episode>, numbers: &Vec<usize>) -> (r: Vec<usize>)
    requires
        forall|k: int| 0 <= k < numbers@.len() ==> #[trigger] numbers@[k] < episodes@.len(),
    ensures
        r@ == by_time(episodes@, numbers@),
        forall|k: int| 0 <= k < r@.len() ==> #[trigger] r@[k] < episodes@.len(),
{
    let mut order: Vec<usize> = Vec::new();
    let mut i: usize = 0;
    assert(numbers@.take(0) =~= Seq::empty());
    while i < numbers.len()
        invariant
            i <= numbers@.len(),
            forall|k: int| 0 <= k < numbers@.len() ==> #[trigger] numbers@[k] < episodes@.len(),
            forall|k: int| 0 <= k < order@.len() ==> #[trigger] order@[k] < episodes@.len(),
            order@ == by_time(episodes@, numbers@.take(i as int)),
        decreases numbers.len() - i,
    {
        let ghost before = order@;
        let x: usize = numbers[i];
        assert(numbers@.take(i + 1).drop_last() =~= numbers@.take(i as int));
        assert(numbers@.take(i + 1).last() == x);
        let p: usize = find_time_place(episodes, &order, episodes[x].start_ts);
        order.insert(p, x);
        assert forall|k: int| 0 <= k < order@.len() implies #[trigger] order@[k]
            < episodes@.len() by {
            if k < p {
                assert(order@[k] == before[k]);
            } else if k > p {
                assert(order@[k] == before[k - 1]);
            }
        }
        i = i + 1;
    }
    assert(numbers@.take(numbers@.len() as int) =~= numbers@);
    order
}

/// Lists the episodes of a band that a summary shows. Where some are left out,
/// the peaks must be numbers.
pub fn list_shown(episodes: &Vec<Episode>, band: usize) -> (r: Vec<usize>)
    requires
        is_cut(episodes@, band as int) ==> comparable(episodes@, of_band(episodes@, 1)),
    ensures
        r@ == listed(episodes@, band as int),
        forall|k: int| 0 <= k < r@.len() ==> #[trigger] r@[k] < episodes@.len(),
{
    let all = list_band(episodes, band);
    if band == 1 && all.len() > CAP {
        let chosen = find_largest(episodes, &all);
        proof {
            lemma_ranked(episodes@, all@);
            let order = ranked(episodes@, all@);
            assert forall|k: int| 0 <= k < chosen@.len() implies #[trigger] chosen@[k]
                < episodes@.len() by {
                assert(chosen@[k] == order[k]);
            }
        }
        sort_by_time(episodes, &chosen)
    } else {
        all
    }
}


/// The episodes of a band are listed once each, in the order of their numbers.
pub proof fn bands_list_their_episodes(episodes: Seq<Episode>, band: int)
    requires
        episodes.len() <= usize::MAX,
    ensures
        ({
            let all = of_band(episodes, band);
            &&& forall|i: int|
                0 <= i < episodes.len() ==> (all.contains(i as usize) <==> (
                #[trigger] episodes[i]).band == band)
            &&& forall|k: int| 0 <= k < all.len() ==> #[trigger] all[k] < episodes.len()
            &&& forall|j: int, k: int|
                0 <= j < k < all.len() ==> #[trigger] all[j] < #[trigger] all[k]
            &&& all.len() == episodes.filter(|e: Episode| e.band == band).len()
        }),
    decreases episodes.len(),
{
    reveal(Seq::filter);
    lemma_of_band_ascends(episodes, band);
    if episodes.len() > 0 {
        let before = episodes.drop_last();
        bands_list_their_episodes(before, band);
        let some = of_band(before, band);
        let all = of_band(episodes, band);
        assert forall|i: int| 0 <= i < episodes.len() implies (all.contains(i as usize) <==> (
        #[trigger] episodes[i]).band == band) by {
            if i < before.len() {
                assert(before[i] == episodes[i]);
                if some.contains(i as usize) {
                    let k = choose|k: int| 0 <= k < some.len() && some[k] == i as usize;
                    assert(all[k] == i as usize);
                }
                if all.contains(i as usize) {
                    let k = choose|k: int| 0 <= k < all.len() && all[k] == i as usize;
                    assert(k < some.len());
                    assert(some[k] == i as usize);
                }
            } else {
                if episodes[i].band == band {
                    assert(all[all.len() - 1] == i as usize);
                }
                if all.contains(i as usize) {
                    let k = choose|k: int| 0 <= k < all.len() && all[k] == i as usize;
                    if k < some.len() {
                        assert(some[k] < before.len());
                    }
                }
            }
        }
    }
}

/// A summary lists every episode of the upper two bands, and of the lowest one
/// where there are no more than fifty. Of more than fifty it lists fifty, each of
/// them an episode of that band.
pub proof fn fifty_of_the_lowest_band_are_listed(episodes: Seq<Episode>, band: int)
    requires
        episodes.len() <= usize::MAX,
        comparable(episodes, of_band(episodes, band)),
    ensures
        band != 1 || of_band(episodes, band).len() <= 50 ==> listed(episodes, band) == of_band(
            episodes,
            band,
        ),
        band == 1 && of_band(episodes, band).len() > 50 ==> {
            &&& listed(episodes, band).len() == 50
            &&& in_time_order(episodes, listed(episodes, band))
        },
        forall|x: usize|
            listed(episodes, band).contains(x) ==> #[trigger] of_band(episodes, band).contains(x),
        listed(episodes, band).no_duplicates(),
{
    let all = of_band(episodes, band);
    lemma_of_band_ascends(episodes, band);
    assert(all.no_duplicates());
    if band == 1 && all.len() > 50 {
        let order = ranked(episodes, all);
        let first = at_most(order, CAP as nat);
        let shown = by_time(episodes, first);
        lemma_ranked(episodes, all);
        lemma_by_time(episodes, first);
        lemma_same_count(all, order);
        assert(first.no_duplicates()) by {
            assert forall|i: int, j: int| 0 <= i < first.len() && 0 <= j < first.len() && i
                != j implies first[i] != first[j] by {
                assert(first[i] == order[i] && first[j] == order[j]);
            }
        }
        lemma_same_count(first, shown);
        assert forall|x: usize| shown.contains(x) implies #[trigger] all.contains(x) by {
            lemma_same_members(shown, first, x);
            let i = choose|i: int| 0 <= i < first.len() && first[i] == x;
            assert(order[i] == x);
            lemma_same_members(order, all, x);
        }
    }
}

proof fn lemma_same_count(a: Seq<usize>, b: Seq<usize>)
    requires
        a.no_duplicates(),
        a.to_multiset() == b.to_multiset(),
    ensures
        b.no_duplicates(),
{
    broadcast use vstd::seq_lib::group_to_multiset_ensures;

    a.lemma_multiset_has_no_duplicates();
    assert(b.to_multiset().len() == b.len());
    b.lemma_multiset_has_no_duplicates_conv();
}

/// Where an episode of the lowest band is left out though its peak is as large as
/// that of one that is listed, it comes later.
pub proof fn of_equal_peaks_the_earlier_are_listed(
    episodes: Seq<Episode>,
    kept: usize,
    left_out: usize,
)
    requires
        episodes.len() <= usize::MAX,
        comparable(episodes, of_band(episodes, 1)),
        listed(episodes, 1).contains(kept),
        of_band(episodes, 1).contains(left_out),
        !listed(episodes, 1).contains(left_out),
    ensures
        !episodes[left_out as int].peak_pct.below(episodes[kept as int].peak_pct) ==> kept
            < left_out,
{
    let all = of_band(episodes, 1);
    let order = ranked(episodes, all);
    let first = at_most(order, CAP as nat);
    lemma_of_band_ascends(episodes, 1);
    lemma_ranked(episodes, all);
    lemma_ranked_is_stable(episodes, all);
    lemma_by_time(episodes, first);
    lemma_same_members(by_time(episodes, first), first, kept);
    lemma_same_members(by_time(episodes, first), first, left_out);
    lemma_same_members(order, all, left_out);
    let a = choose|a: int| 0 <= a < first.len() && first[a] == kept;
    assert(order[a] == kept);
    let b = choose|b: int| 0 <= b < order.len() && order[b] == left_out;
    if b < first.len() {
        assert(first[b] == left_out);
    }
}

proof fn lemma_ranked_is_stable(episodes: Seq<Episode>, numbers: Seq<usize>)
    requires
        comparable(episodes, numbers),
        forall|j: int, k: int|
            0 <= j < k < numbers.len() ==> #[trigger] numbers[j] < #[trigger] numbers[k],
    ensures
        forall|a: int, b: int|
            0 <= a < b < ranked(episodes, numbers).len() ==> episodes[#[trigger] ranked(
                episodes,
                numbers,
            )[b] as int].peak_pct.below(
                episodes[#[trigger] ranked(episodes, numbers)[a] as int].peak_pct,
            ) || ranked(episodes, numbers)[a] < ranked(episodes, numbers)[b],
    decreases numbers.len(),
{
    if numbers.len() > 0 {
        let rest = numbers.drop_last();
        assert forall|k: int| 0 <= k < rest.len() implies rest[k] == numbers[k] by {}
        lemma_ranked(episodes, rest);
        lemma_ranked_is_stable(episodes, rest);
        let order = ranked(episodes, rest);
        let x = numbers.last();
        assert(x == numbers[numbers.len() - 1]);
        let percent = episodes[x as int].peak_pct;
        lemma_place(episodes, order, percent);
        let p = place(episodes, order, percent) as int;
        let after = order.insert(p, x);
        assert forall|k: int| 0 <= k < order.len() implies order[k] < x by {
            assert(order.contains(order[k]));
            lemma_same_members(order, rest, order[k]);
            let i = choose|i: int| 0 <= i < rest.len() && rest[i] == order[k];
            assert(numbers[i] < x);
        }
        assert forall|k: int| 0 <= k < after.len() implies after[k] == (if k < p {
            order[k]
        } else if k == p {
            x
        } else {
            order[k - 1]
        }) by {}
        assert forall|a: int, b: int| 0 <= a < b < after.len() implies episodes[
        #[trigger] after[b] as int].peak_pct.below(episodes[#[trigger] after[a] as int].peak_pct)
            || after[a] < after[b] by {
            if a == p {
                assert(after[b] == order[b - 1]);
            } else if b == p {
                assert(after[a] == order[a]);
            } else {
                let i = if a < p {
                    a
                } else {
                    a - 1
                };
                let j = if b < p {
                    b
                } else {
                    b - 1
                };
                assert(after[a] == order[i] && after[b] == order[j]);
            }
        }
    }
}

} // verus!
