//! Putting search hits into the order that a reranker found.

use vstd::prelude::*;

use crate::error::{HallouminateError, Outcome};
use crate::text::{
    cat2, cat4, cat5, debug_quote, debug_text, decimal, decimal_text, join_list, join_with, views,
};

verus! {

/// Whether `order` holds each of the numbers below `n` once.
pub open spec fn is_permutation(order: Seq<usize>, n: nat) -> bool {
    &&& order.len() == n
    &&& forall|i: int| 0 <= i < n ==> #[trigger] order[i] < n
    &&& order.no_duplicates()
}

/// What is wrong with the first `k` numbers of an order of `n` hits.
pub open spec fn order_fault_in(order: Seq<usize>, n: nat, k: int) -> Option<Seq<char>>
    decreases k,
{
    if k <= 0 {
        None
    } else {
        match order_fault_in(order, n, k - 1) {
            Some(fault) => Some(fault),
            None => if order[k - 1] >= n {
                Some(
                    "crossencoder returned out-of-range index "@ + decimal(order[k - 1] as nat)
                        + " for "@ + decimal(n) + " docs"@,
                )
            } else if order.take(k - 1).contains(order[k - 1]) {
                Some(
                    "crossencoder returned duplicate index "@ + decimal(order[k - 1] as nat),
                )
            } else {
                None
            },
        }
    }
}

/// What is wrong with an order of `n` hits, if anything.
pub open spec fn order_fault(order: Seq<usize>, n: nat) -> Option<Seq<char>> {
    if order.len() != n {
        Some(
            "crossencoder returned "@ + decimal(order.len()) + " scores for "@ + decimal(n)
                + " docs"@,
        )
    } else {
        order_fault_in(order, n, n as int)
    }
}

proof fn no_fault_in_is_distinct(order: Seq<usize>, n: nat, k: int)
    requires
        0 <= k <= order.len(),
    ensures
        order_fault_in(order, n, k) is None <==> (order.take(k).no_duplicates() && forall|i: int|
            0 <= i < k ==> #[trigger] order[i] < n),
    decreases k,
{
    if k > 0 {
        no_fault_in_is_distinct(order, n, k - 1);
        let front = order.take(k - 1);
        let now = order.take(k);
        assert(now.drop_last() =~= front);
        if order_fault_in(order, n, k) is None {
            assert forall|i: int, j: int|
                0 <= i < now.len() && 0 <= j < now.len() && i != j implies now[i] != now[j] by {
                if i < k - 1 {
                    assert(front[i] == now[i]);
                }
                if j < k - 1 {
                    assert(front[j] == now[j]);
                }
            }
        } else if now.no_duplicates() && forall|i: int| 0 <= i < k ==> #[trigger] order[i] < n {
            assert forall|i: int, j: int|
                0 <= i < front.len() && 0 <= j < front.len() && i != j implies front[i]
                != front[j] by {
                assert(now[i] != now[j]);
            }
            assert(order[k - 1] < n);
            if front.contains(order[k - 1]) {
                let i = choose|i: int| 0 <= i < front.len() && front[i] == order[k - 1];
                assert(now[i] == now[k - 1]);
            }
        }
    }
}

/// An order has no fault exactly when it is a permutation.
pub proof fn faultless_orders_are_permutations(order: Seq<usize>, n: nat)
    ensures
        order_fault(order, n) is None <==> is_permutation(order, n),
{
    if order.len() == n {
        no_fault_in_is_distinct(order, n, n as int);
        assert(order.take(n as int) =~= order);
    }
}

/// Whether the result is an error of the models with the given message.
pub open spec fn is_embed_error<T>(out: Outcome<T>, message: Seq<char>) -> bool {
    out matches Err(HallouminateError::Embed(m)) && m@ == message
}

/// Whether `order` holds each of the numbers below `n` once; the error says
/// what is wrong with it first.
pub fn check_order(order: &Vec<usize>, n: usize) -> (out: Outcome<()>)
    ensures
        match order_fault(order@, n as nat) {
            Some(fault) => is_embed_error(out, fault),
            None => out is Ok,
        },
{
    if order.len() != n {
        let have = decimal_text(order.len() as u64);
        let want = decimal_text(n as u64);
        let start = cat4("crossencoder returned ", have.as_str(), " scores for ", want.as_str());
        return Err(HallouminateError::Embed(cat2(start.as_str(), " docs")));
    }
    let mut seen: Vec<bool> = Vec::new();
    for i in 0..n
        invariant
            seen.len() == i,
            forall|j: int| 0 <= j < i ==> !seen@[j],
    {
        seen.push(false);
    }
    for k in 0..n
        invariant
            order.len() == n,
            seen.len() == n,
            order_fault_in(order@, n as nat, k as int) is None,
            forall|v: int|
                0 <= v < n ==> seen@[v] == order@.take(k as int).contains(v as usize),
    {
        let idx: usize = order[k];
        if idx >= n {
            proof {
                order_fault_stays(order@, n as nat, k + 1);
            }
            let bad = decimal_text(idx as u64);
            let want = decimal_text(n as u64);
            let start = cat4(
                "crossencoder returned out-of-range index ",
                bad.as_str(),
                " for ",
                want.as_str(),
            );
            return Err(HallouminateError::Embed(cat2(start.as_str(), " docs")));
        }
        if seen[idx] {
            proof {
                order_fault_stays(order@, n as nat, k + 1);
            }
            let bad = decimal_text(idx as u64);
            return Err(
                HallouminateError::Embed(
                    cat2("crossencoder returned duplicate index ", bad.as_str()),
                ),
            );
        }
        seen.set(idx, true);
        proof {
            let now = order@.take(k + 1);
            let front = order@.take(k as int);
            assert(now =~= front.push(idx));
            assert forall|v: int| 0 <= v < n implies seen@[v] == now.contains(v as usize) by {
                if v == idx {
                    assert(now[k as int] == idx);
                } else if now.contains(v as usize) {
                    let i = choose|i: int| 0 <= i < now.len() && now[i] == v as usize;
                    assert(front[i] == v as usize);
                } else if front.contains(v as usize) {
                    let i = choose|i: int| 0 <= i < front.len() && front[i] == v as usize;
                    assert(now[i] == v as usize);
                }
            }
        }
    }
    Ok(())
}

proof fn order_fault_stays(order: Seq<usize>, n: nat, k: int)
    requires
        0 <= k <= n,
        order_fault_in(order, n, k) is Some,
    ensures
        order_fault_in(order, n, n as int) == order_fault_in(order, n, k),
    decreases n - k,
{
    if k < n {
        order_fault_stays(order, n, k + 1);
    }
}

/// Where the row stands in a ranked list of rows, up to `n`.
pub open spec fn ranks_in(ids: Seq<u64>, row: u64, n: int) -> Seq<usize>
    decreases n,
{
    if n <= 0 {
        Seq::empty()
    } else if ids[n - 1] == row {
        ranks_in(ids, row, n - 1).push((n - 1) as usize)
    } else {
        ranks_in(ids, row, n - 1)
    }
}

/// The texts as a message lists them.
pub open spec fn quoted(list: Seq<Seq<char>>) -> Seq<Seq<char>> {
    Seq::new(list.len(), |i: int| debug_text(list[i]))
}

/// The message where results lack the column that names their rows.
pub fn missing_row_id(which: &str, columns: &Vec<String>) -> (out: String)
    ensures
        out@ == "expected column _rowid not found in "@ + which@ + "; found ["@ + join_with(
            quoted(views(columns@)),
            ", "@,
        ) + "]"@,
{
    let mut list: Vec<String> = Vec::new();
    for i in 0..columns.len()
        invariant
            views(list@) == quoted(views(columns@)).take(i as int),
    {
        let ghost before = views(list@);
        list.push(debug_quote(columns[i].as_str()));
        proof {
            let all = quoted(views(columns@));
            assert(all.take(i + 1) =~= before.push(all[i as int]));
            assert(views(list@) =~= before.push(all[i as int]));
        }
    }
    proof {
        let all = quoted(views(columns@));
        assert(all.take(all.len() as int) =~= all);
    }
    let found = join_list(&list, ", ");
    cat5("expected column _rowid not found in ", which, "; found [", found.as_str(), "]")
}

/// The ranks that a row has in a ranked list of rows, from which its part of
/// the fused score is made.
pub fn ranks_of(ids: &Vec<u64>, row: u64) -> (out: Vec<usize>)
    ensures
        out@ == ranks_in(ids@, row, ids@.len() as int),
{
    let mut out: Vec<usize> = Vec::new();
    for i in 0..ids.len()
        invariant
            out@ == ranks_in(ids@, row, i as int),
    {
        if ids[i] == row {
            out.push(i);
        }
    }
    out
}

/// A row that is not in a list has no ranks there.
pub proof fn absent_rows_have_no_rank(ids: Seq<u64>, row: u64, n: int)
    requires
        0 <= n <= ids.len(),
        !ids.contains(row),
    ensures
        ranks_in(ids, row, n).len() == 0,
    decreases n,
{
    if n > 0 {
        absent_rows_have_no_rank(ids, row, n - 1);
        assert(ids.contains(ids[n - 1]));
    }
}

/// The hits in the given order.
pub open spec fn reordered<T>(hits: Seq<T>, order: Seq<usize>) -> Seq<T> {
    Seq::new(hits.len(), |i: int| hits[order[i] as int])
}

/// Puts the hits into the given order: the hit at `i` is then the one that stood
/// at `order[i]`.
pub fn apply_permutation<T>(hits: &mut Vec<T>, order: &Vec<usize>)
    requires
        is_permutation(order@, old(hits)@.len()),
    ensures
        final(hits)@ == reordered(old(hits)@, order@),
{
    let ghost before = hits@;
    let n: usize = hits.len();
    let mut slots: Vec<Option<T>> = Vec::new();
    let mut rest: Vec<T> = Vec::new();
    core::mem::swap(hits, &mut rest);
    proof {
        assert(before.take(before.len() as int) =~= before);
        assert(before.skip(before.len() as int).reverse() =~= Seq::<T>::empty());
    }
    // Moved out from the back, so that no hit is copied.
    let mut reversed: Vec<T> = Vec::new();
    while rest.len() > 0
        invariant
            rest@ == before.take(rest@.len() as int),
            rest@.len() <= before.len(),
            reversed@ == before.skip(rest@.len() as int).reverse(),
        decreases rest.len(),
    {
        let ghost len = rest@.len() as int;
        let ghost done = reversed@;
        match rest.pop() {
            Some(hit) => {
                reversed.push(hit);
                proof {
                    assert(rest@ =~= before.take(len - 1));
                    assert(reversed@ =~= before.skip(len - 1).reverse());
                }
            },
            None => {},
        }
    }
    proof {
        assert(before.skip(0) =~= before);
    }
    while reversed.len() > 0
        invariant
            slots@.len() + reversed@.len() == before.len(),
            reversed@ == before.skip(slots@.len() as int).reverse(),
            forall|j: int| 0 <= j < slots@.len() ==> slots@[j] == Some(before[j]),
        decreases reversed.len(),
    {
        let ghost done = slots@.len() as int;
        match reversed.pop() {
            Some(hit) => {
                proof {
                    assert(hit == before[done]);
                }
                slots.push(Some(hit));
                proof {
                    assert(reversed@ =~= before.skip(done + 1).reverse());
                }
            },
            None => {},
        }
    }
    let mut out: Vec<T> = Vec::new();
    for i in 0..n
        invariant
            n == before.len(),
            is_permutation(order@, before.len()),
            slots@.len() == n,
            out@ == Seq::new(i as nat, |j: int| before[order@[j] as int]),
            forall|v: int|
                0 <= v < n && !order@.take(i as int).contains(v as usize) ==> slots@[v] == Some(
                    before[v],
                ),
    {
        let at: usize = order[i];
        proof {
            let front = order@.take(i as int);
            if front.contains(at) {
                let j = choose|j: int| 0 <= j < front.len() && front[j] == at;
                assert(order@[j] == order@[i as int]);
            }
        }
        let mut taken: Option<T> = None;
        core::mem::swap(&mut slots[at], &mut taken);
        match taken {
            Some(hit) => {
                out.push(hit);
            },
            None => {},
        }
        proof {
            assert(out@ =~= Seq::new((i + 1) as nat, |j: int| before[order@[j] as int]));
            let front = order@.take(i as int);
            let now = order@.take(i + 1);
            assert forall|v: int|
                0 <= v < n && !now.contains(v as usize) implies slots@[v] == Some(before[v]) by {
                if front.contains(v as usize) {
                    let j = choose|j: int| 0 <= j < front.len() && front[j] == v as usize;
                    assert(now[j] == v as usize);
                }
                if v == at {
                    assert(now[i as int] == v as usize);
                }
            }
        }
    }
    proof {
        assert(out@ =~= reordered(before, order@));
    }
    *hits = out;
}

/// Puts the hits into the order that the reranker found.  Where the order is not
/// one of these hits, that is an error and the hits stay as they are.
pub fn reorder<T>(hits: &mut Vec<T>, order: &Vec<usize>) -> (out: Outcome<()>)
    ensures
        old(hits)@.len() == 0 ==> out is Ok && final(hits)@ == old(hits)@,
        old(hits)@.len() > 0 ==> match order_fault(order@, old(hits)@.len()) {
            Some(fault) => is_embed_error(out, fault) && final(hits)@ == old(hits)@,
            None => out is Ok && final(hits)@ == reordered(old(hits)@, order@),
        },
{
    if hits.len() == 0 {
        return Ok(());
    }
    match check_order(order, hits.len()) {
        Ok(_) => {
            proof {
                faultless_orders_are_permutations(order@, hits@.len());
            }
            apply_permutation(hits, order);
            Ok(())
        },
        Err(e) => Err(e),
    }
}

/// What the reranker says of one hit.
#[derive(Debug, Clone, Copy)]
pub struct Scored<S> {
    /// Which of the hits it is.
    pub index: usize,
    pub score: S,
}

/// The hits that the reranker speaks of, in its order.
pub open spec fn order_of<S>(scored: Seq<Scored<S>>) -> Seq<usize> {
    Seq::new(scored.len(), |i: int| scored[i].index)
}

/// The hits in the order that the reranker found, each with the score that it
/// gave to it in place of its own.
pub open spec fn rescored<T, S>(hits: Seq<(T, S)>, scored: Seq<Scored<S>>) -> Seq<(T, S)> {
    Seq::new(hits.len(), |i: int| (hits[scored[i].index as int].0, scored[i].score))
}

/// Puts the hits, each of which stands with its score, into the order that the
/// reranker found, and gives each the score that it found.  Where the order is
/// not one of these hits, that is an error and the hits stay as they are, so that
/// the order of the search can still be used.
pub fn rerank<T, S: Copy>(hits: &mut Vec<(T, S)>, scored: &Vec<Scored<S>>) -> (out: Outcome<()>)
    ensures
        old(hits)@.len() == 0 ==> out is Ok && final(hits)@ == old(hits)@,
        old(hits)@.len() > 0 ==> match order_fault(order_of(scored@), old(hits)@.len()) {
            Some(fault) => is_embed_error(out, fault) && final(hits)@ == old(hits)@,
            None => out is Ok && final(hits)@ == rescored(old(hits)@, scored@),
        },
{
    let ghost before = hits@;
    if hits.len() == 0 {
        return Ok(());
    }
    let mut order: Vec<usize> = Vec::new();
    for i in 0..scored.len()
        invariant
            order@ == order_of(scored@).take(i as int),
    {
        let ghost now = order@;
        order.push(scored[i].index);
        proof {
            assert(order_of(scored@).take(i + 1) =~= now.push(scored@[i as int].index));
        }
    }
    proof {
        assert(order_of(scored@).take(scored@.len() as int) =~= order_of(scored@));
    }
    match reorder(hits, &order) {
        Ok(_) => {},
        Err(e) => {
            return Err(e);
        },
    }
    let ghost list = hits@;
    let total: usize = hits.len();
    for i in 0..total
        invariant
            total == list.len() == before.len() == scored@.len(),
            hits@.len() == total,
            list == reordered(before, order_of(scored@)),
            forall|j: int| 0 <= j < i ==> hits@[j] == rescored(before, scored@)[j],
            forall|j: int| i <= j < total ==> hits@[j] == list[j],
    {
        hits[i].1 = scored[i].score;
        proof {
            assert(list[i as int] == before[order_of(scored@)[i as int] as int]);
            assert(hits@[i as int] == rescored(before, scored@)[i as int]);
        }
    }
    proof {
        assert(hits@ =~= rescored(before, scored@));
    }
    Ok(())
}

/// What the hits become with the answer of the reranker.  It need not be asked
/// about no hits; where it fails, that is an error, and the hits stay as they are.
pub fn rerank_with<T, S: Copy>(
    hits: &mut Vec<(T, S)>,
    answer: Result<Vec<Scored<S>>, String>,
) -> (out: Outcome<()>)
    ensures
        old(hits)@.len() == 0 ==> out is Ok && final(hits)@ == old(hits)@,
        old(hits)@.len() > 0 ==> match answer {
            Err(detail) => is_embed_error(out, "crossencoder rerank: "@ + detail@) && final(hits)@
                == old(hits)@,
            Ok(scored) => match order_fault(order_of(scored@), old(hits)@.len()) {
                Some(fault) => is_embed_error(out, fault) && final(hits)@ == old(hits)@,
                None => out is Ok && final(hits)@ == rescored(old(hits)@, scored@),
            },
        },
{
    if hits.len() == 0 {
        return Ok(());
    }
    match answer {
        Ok(scored) => rerank(hits, &scored),
        Err(detail) => Err(
            HallouminateError::Embed(cat2("crossencoder rerank: ", detail.as_str())),
        ),
    }
}

/// The things of a list of hits, without their scores.
pub open spec fn things<T, S>(hits: Seq<(T, S)>) -> Seq<T> {
    Seq::new(hits.len(), |i: int| hits[i].0)
}

/// Reranking keeps every hit, and each as often as before: only scores change.
pub proof fn reranking_keeps_the_hits<T, S>(hits: Seq<(T, S)>, scored: Seq<Scored<S>>)
    requires
        order_fault(order_of(scored), hits.len()) is None,
    ensures
        things(rescored(hits, scored)).to_multiset() == things(hits).to_multiset(),
        forall|i: int|
            0 <= i < hits.len() ==> (#[trigger] rescored(hits, scored)[i]).1 == scored[i].score,
{
    faultless_orders_are_permutations(order_of(scored), hits.len());
    assert(things(rescored(hits, scored)) =~= reordered(things(hits), order_of(scored)));
    reordering_keeps_the_hits(things(hits), order_of(scored));
}

/// Reordering keeps every hit, and each as often as before.
pub proof fn reordering_keeps_the_hits<T>(hits: Seq<T>, order: Seq<usize>)
    requires
        is_permutation(order, hits.len()),
    ensures
        reordered(hits, order).to_multiset() == hits.to_multiset(),
{
    let moved = reordered(hits, order);
    permuted_counts(hits, order, moved);
}

/// Taking the last position out of a permutation and of its hits, by swapping
/// the hit that it names to the end.
proof fn permuted_counts<T>(hits: Seq<T>, order: Seq<usize>, moved: Seq<T>)
    requires
        is_permutation(order, hits.len()),
        moved.len() == hits.len(),
        forall|i: int| 0 <= i < hits.len() ==> moved[i] == hits[#[trigger] order[i] as int],
    ensures
        moved.to_multiset() == hits.to_multiset(),
    decreases hits.len(),
{
    broadcast use {
        vstd::seq_lib::group_to_multiset_ensures,
        vstd::multiset::group_multiset_axioms,
    };

    if hits.len() == 0 {
        assert(moved =~= hits);
    } else {
        let n = hits.len() as int;
        let at = order[n - 1] as int;
        let shorter = hits.remove(at);
        let order2 = Seq::new(
            (n - 1) as nat,
            |i: int|
                if order[i] > at {
                    (order[i] - 1) as usize
                } else {
                    order[i]
                },
        );
        assert(is_permutation(order2, (n - 1) as nat)) by {
            assert forall|i: int| 0 <= i < n - 1 implies #[trigger] order2[i] < n - 1 by {
                assert(order[i] < n);
                assert(order[i] != order[n - 1]);
            }
            assert forall|i: int, j: int|
                0 <= i < n - 1 && 0 <= j < n - 1 && i != j implies order2[i] != order2[j] by {
                assert(order[i] != order[j]);
                assert(order[i] != order[n - 1]);
                assert(order[j] != order[n - 1]);
            }
        }
        let moved2 = moved.drop_last();
        assert forall|i: int| 0 <= i < n - 1 implies moved2[i] == shorter[#[trigger] order2[
            i
        ] as int] by {
            assert(order[i] < n);
            assert(order[i] != order[n - 1]);
            assert(moved[i] == hits[order[i] as int]);
        }
        permuted_counts(shorter, order2, moved2);
        assert(moved =~= moved2.push(hits[at]));
        assert(moved.to_multiset() == moved2.to_multiset().insert(hits[at]));
        assert(shorter.to_multiset() == hits.to_multiset().remove(hits[at]));
        assert(hits.to_multiset().contains(hits[at])) by {
            assert(hits.contains(hits[at]));
        }
        assert(moved.to_multiset() =~= hits.to_multiset());
    }
}

/// The ranks of a row are the places at which it stands, all of them, from the
/// front.
pub proof fn ranks_are_the_places_of_the_row(ids: Seq<u64>, row: u64, n: int)
    requires
        0 <= n <= ids.len(),
        n <= usize::MAX + 1,
    ensures
        forall|i: int|
            0 <= i < n && #[trigger] ids[i] == row ==> ranks_in(ids, row, n).contains(i as usize),
        forall|k: int|
            0 <= k < ranks_in(ids, row, n).len() ==> (#[trigger] ranks_in(ids, row, n)[k]) < n
                && ids[ranks_in(ids, row, n)[k] as int] == row,
        forall|j: int, k: int|
            0 <= j < k < ranks_in(ids, row, n).len() ==> #[trigger] ranks_in(ids, row, n)[j]
                < #[trigger] ranks_in(ids, row, n)[k],
    decreases n,
{
    if n > 0 {
        ranks_are_the_places_of_the_row(ids, row, n - 1);
        let before = ranks_in(ids, row, n - 1);
        let now = ranks_in(ids, row, n);
        assert forall|i: int| 0 <= i < n && #[trigger] ids[i] == row implies now.contains(
            i as usize,
        ) by {
            if i < n - 1 {
                let k = choose|k: int| 0 <= k < before.len() && before[k] == i as usize;
                assert(now[k] == i as usize);
            } else {
                assert(now[now.len() - 1] == i as usize);
            }
        }
        assert forall|k: int| 0 <= k < now.len() implies (#[trigger] now[k]) < n
            && ids[now[k] as int] == row by {
            if k < before.len() {
                assert(now[k] == before[k]);
            }
        }
        assert forall|j: int, k: int| 0 <= j < k < now.len() implies #[trigger] now[j]
            < #[trigger] now[k] by {
            assert(now[j] == before[j]);
            if k < before.len() {
                assert(now[k] == before[k]);
            }
        }
    }
}

/// The hit that comes first is the one that the reranker puts first, and so on:
/// at each place stands the hit that it names there, with the score that it gives
/// to it.
pub proof fn hits_stand_where_the_reranker_puts_them<T, S>(
    hits: Seq<(T, S)>,
    scored: Seq<Scored<S>>,
    order: Seq<usize>,
    i: int,
)
    requires
        0 <= i < hits.len(),
    ensures
        order.len() == hits.len() ==> reordered(hits, order).len() == hits.len() && reordered(
            hits,
            order,
        )[i] == hits[order[i] as int],
        scored.len() == hits.len() ==> rescored(hits, scored).len() == hits.len() && rescored(
            hits,
            scored,
        )[i].0 == hits[scored[i].index as int].0 && rescored(hits, scored)[i].1 == scored[i].score,
        scored.len() == hits.len() ==> order_of(scored)[i] == scored[i].index,
{
}

/// An order is refused for the first of its numbers that names no hit, or one
/// that was named before; and where there are too many or too few of them, for
/// that.
pub proof fn the_first_wrong_number_is_told(order: Seq<usize>, n: nat, i: int)
    ensures
        order.len() != n ==> order_fault(order, n) == Some(
            "crossencoder returned "@ + decimal(order.len()) + " scores for "@ + decimal(n)
                + " docs"@,
        ),
        order.len() == n && 0 <= i < n && order.take(i).no_duplicates() && (forall|j: int|
            0 <= j < i ==> #[trigger] order[j] < n) && order[i] >= n ==> order_fault(order, n)
            == Some(
            "crossencoder returned out-of-range index "@ + decimal(order[i] as nat) + " for "@
                + decimal(n) + " docs"@,
        ),
        order.len() == n && 0 <= i < n && order.take(i).no_duplicates() && (forall|j: int|
            0 <= j <= i ==> #[trigger] order[j] < n) && order.take(i).contains(order[i])
            ==> order_fault(order, n) == Some(
            "crossencoder returned duplicate index "@ + decimal(order[i] as nat),
        ),
{
    if order.len() == n && 0 <= i < n {
        no_fault_in_is_distinct(order, n, i);
        if order_fault_in(order, n, i + 1) is Some {
            order_fault_stays(order, n, i + 1);
        }
    }
}

} // verus!
