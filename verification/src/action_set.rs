//! What each threshold means for the bet amounts on offer at one decision.
//!
//! Whoever builds the game tree applies the thresholds there. The functions
//! here state the three rules on plain lists of amounts, so that a sizing can
//! be looked at before a game is built. Amounts are chips. A threshold is a
//! number of thousandths and is held against a base: the pot for adding an
//! all-in, the pot after a call for forcing one, the larger amount for
//! merging.

use vstd::prelude::*;

verus! {

/// Whether `amount` is at most `threshold` thousandths of `base`.
pub open spec fn at_most_share(amount: int, base: int, threshold: int) -> bool {
    amount * 1000 <= threshold * base
}

/// Whether `amount` is at most `threshold` thousandths of `base`.
pub fn is_at_most_share(amount: i64, base: i64, threshold: u32) -> (within: bool)
    ensures
        within == at_most_share(amount as int, base as int, threshold as int),
{
    let left: i128 = (amount as i128) * 1000;
    assert(-0x8000_0000_0000_0000 * 0xffff_ffff <= (threshold as int) * (base as int)
        <= 0x7fff_ffff_ffff_ffff * 0xffff_ffff) by (nonlinear_arith)
        requires
            0 <= threshold <= 0xffff_ffff,
            -0x8000_0000_0000_0000 <= base <= 0x7fff_ffff_ffff_ffff,
    ;
    let right: i128 = (threshold as i128) * (base as i128);
    left <= right
}

/// Whether no bet of `bets` is above `threshold` thousandths of the pot: the
/// largest of them is at most that much.
pub open spec fn all_at_most_share(bets: Seq<i32>, pot: int, threshold: int) -> bool {
    forall|i: int| 0 <= i < bets.len() ==> at_most_share(#[trigger] bets[i] as int, pot, threshold)
}

/// The bets with the all-in added behind them where the largest bet is at
/// most `threshold` thousandths of the pot and the all-in is not among them
/// yet; the bets as they are otherwise.
pub open spec fn with_all_in(bets: Seq<i32>, all_in: i32, pot: int, threshold: int) -> Seq<i32> {
    if all_at_most_share(bets, pot, threshold) && !bets.contains(all_in) {
        bets.push(all_in)
    } else {
        bets
    }
}

/// Adds the all-in to the bets where the threshold asks for it and it is
/// not there yet.
pub fn add_all_in(bets: Vec<i32>, all_in: i32, pot: i32, threshold: u32) -> (out: Vec<i32>)
    ensures
        out@ == with_all_in(bets@, all_in, pot as int, threshold as int),
{
    let mut bets = bets;
    let ghost before = bets@;
    let mut within = true;
    let mut present = false;
    let mut i: usize = 0;
    while i < bets.len()
        invariant
            bets@ == before,
            i <= bets.len(),
            within == all_at_most_share(before.take(i as int), pot as int, threshold as int),
            present == before.take(i as int).contains(all_in),
        decreases bets.len() - i,
    {
        let bet = bets[i];
        let ghost seen = before.take(i as int);
        let ghost more = before.take(i as int + 1);
        assert(more =~= seen.push(bet));
        assert(forall|k: int| 0 <= k < seen.len() ==> seen[k] == more[k]);
        if !is_at_most_share(bet as i64, pot as i64, threshold) {
            assert(more[i as int] == bet);
            within = false;
        }
        if bet == all_in {
            assert(more[i as int] == all_in);
            present = true;
        }
        i += 1;
    }
    assert(before.take(i as int) =~= before);
    if within && !present {
        bets.push(all_in);
    }
    bets
}

/// Adding the all-in twice is adding it once.
pub proof fn lemma_with_all_in_idempotent(bets: Seq<i32>, all_in: i32, pot: int, threshold: int)
    ensures
        with_all_in(with_all_in(bets, all_in, pot, threshold), all_in, pot, threshold)
            == with_all_in(bets, all_in, pot, threshold),
{
    let once = with_all_in(bets, all_in, pot, threshold);
    if all_at_most_share(bets, pot, threshold) && !bets.contains(all_in) {
        assert(once[bets.len() as int] == all_in);
        assert(once.contains(all_in));
    }
}

/// Whether a bet forces an all-in: once it is called, the stack that is left
/// is at most `threshold` thousandths of the pot that has grown by the bet
/// and the call.
pub open spec fn forces_all_in(bet: int, pot: int, stack: int, threshold: int) -> bool {
    at_most_share(stack - bet, pot + 2 * bet, threshold)
}

/// The amount that a bet is made with: the whole stack where the bet forces
/// an all-in, the bet itself otherwise.
pub fn forced_amount(bet: i32, pot: i32, stack: i32, threshold: u32) -> (amount: i32)
    ensures
        amount == if forces_all_in(bet as int, pot as int, stack as int, threshold as int) {
            stack
        } else {
            bet
        },
{
    let left: i64 = stack as i64 - bet as i64;
    let base: i64 = pot as i64 + 2 * (bet as i64);
    if is_at_most_share(left, base, threshold) {
        stack
    } else {
        bet
    }
}

/// Whether `size` is close to the larger size `kept`: they differ by less
/// than `threshold` thousandths of `kept`.
pub open spec fn is_close(size: int, kept: int, threshold: int) -> bool {
    (kept - size) * 1000 < threshold * kept
}

/// Whether `size` is close to the larger size `kept`.
pub fn close_to(size: i32, kept: i32, threshold: u32) -> (close: bool)
    ensures
        close == is_close(size as int, kept as int, threshold as int),
{
    let gap: i64 = kept as i64 - size as i64;
    let left: i128 = (gap as i128) * 1000;
    assert(-0x8000_0000 * 0xffff_ffff <= (threshold as int) * (kept as int) <= 0x7fff_ffff
        * 0xffff_ffff) by (nonlinear_arith)
        requires
            0 <= threshold <= 0xffff_ffff,
            -0x8000_0000 <= kept <= 0x7fff_ffff,
    ;
    let right: i128 = (threshold as i128) * (kept as i128);
    left < right
}

/// The sizes of `sizes` that are kept below the kept size `kept`, going
/// from the last to the first: a size close to the size kept last is
/// dropped, any other is kept and stands for those below it.
pub open spec fn kept_below(sizes: Seq<i32>, kept: i32, threshold: int) -> Seq<i32>
    decreases sizes.len(),
{
    if sizes.len() == 0 {
        Seq::empty()
    } else if is_close(sizes.last() as int, kept as int, threshold) {
        kept_below(sizes.drop_last(), kept, threshold)
    } else {
        kept_below(sizes.drop_last(), sizes.last(), threshold).push(sizes.last())
    }
}

/// The sizes that stand for all of `sizes` once close ones are merged: the
/// last size, and below it the sizes that are kept.
pub open spec fn merged(sizes: Seq<i32>, threshold: int) -> Seq<i32> {
    if sizes.len() == 0 {
        Seq::empty()
    } else {
        kept_below(sizes.drop_last(), sizes.last(), threshold).push(sizes.last())
    }
}

/// Merges sizes that are close to one another. The sizes are gone through
/// from the last, which is kept, to the first; in a list in ascending order
/// each size kept stands for the smaller ones that are close to it.
pub fn merge_sizes(sizes: &Vec<i32>, threshold: u32) -> (out: Vec<i32>)
    ensures
        out@ == merged(sizes@, threshold as int),
{
    let mut out: Vec<i32> = Vec::new();
    let n = sizes.len();
    if n == 0 {
        return out;
    }
    let mut kept = sizes[n - 1];
    out.push(kept);
    let mut i: usize = n - 1;
    assert(sizes@.take(i as int) =~= sizes@.drop_last());
    assert(Seq::<i32>::empty().push(kept) =~= out@);
    while i > 0
        invariant
            i < n,
            n == sizes.len(),
            out.len() >= 1,
            kept == out[0],
            merged(sizes@, threshold as int) == kept_below(
                sizes@.take(i as int),
                kept,
                threshold as int,
            ) + out@,
        decreases i,
    {
        let ghost upper = sizes@.take(i as int);
        i -= 1;
        let size = sizes[i];
        assert(upper.last() == size);
        assert(upper.drop_last() =~= sizes@.take(i as int));
        if !close_to(size, kept, threshold) {
            let ghost behind = out@;
            out.insert(0, size);
            kept = size;
            assert(kept_below(sizes@.take(i as int), size, threshold as int).push(size) + behind
                =~= kept_below(sizes@.take(i as int), size, threshold as int) + out@);
        }
    }
    assert(sizes@.take(0) =~= Seq::<i32>::empty());
    assert(Seq::<i32>::empty() + out@ =~= out@);
    out
}

/// Every size kept is one of the sizes given.
pub proof fn lemma_kept_sizes_are_given(sizes: Seq<i32>, kept: i32, threshold: int)
    ensures
        forall|i: int|
            0 <= i < kept_below(sizes, kept, threshold).len() ==> sizes.contains(
                #[trigger] kept_below(sizes, kept, threshold)[i],
            ),
    decreases sizes.len(),
{
    if sizes.len() > 0 {
        let rest = sizes.drop_last();
        let out = kept_below(sizes, kept, threshold);
        if is_close(sizes.last() as int, kept as int, threshold) {
            lemma_kept_sizes_are_given(rest, kept, threshold);
            let below = kept_below(rest, kept, threshold);
            assert(out == below);
            assert forall|i: int| 0 <= i < out.len() implies sizes.contains(#[trigger] out[i]) by {
                assert(rest.contains(below[i]));
                let j = choose|j: int| 0 <= j < rest.len() && rest[j] == below[i];
                assert(sizes[j] == out[i]);
            }
        } else {
            lemma_kept_sizes_are_given(rest, sizes.last(), threshold);
            let below = kept_below(rest, sizes.last(), threshold);
            assert forall|i: int| 0 <= i < out.len() implies sizes.contains(#[trigger] out[i]) by {
                if i < below.len() {
                    assert(rest.contains(below[i]));
                    let j = choose|j: int| 0 <= j < rest.len() && rest[j] == below[i];
                    assert(sizes[j] == out[i]);
                } else {
                    assert(sizes[sizes.len() - 1] == out[i]);
                }
            }
        }
    }
}

/// No size kept is close to the size kept next above it.
pub proof fn lemma_kept_sizes_are_apart(sizes: Seq<i32>, kept: i32, threshold: int)
    ensures
        ({
            let out = kept_below(sizes, kept, threshold);
            &&& out.len() > 0 ==> !is_close(out.last() as int, kept as int, threshold)
            &&& forall|i: int|
                0 <= i < out.len() - 1 ==> !is_close(
                    #[trigger] out[i] as int,
                    out[i + 1] as int,
                    threshold,
                )
        }),
    decreases sizes.len(),
{
    if sizes.len() > 0 {
        let rest = sizes.drop_last();
        if is_close(sizes.last() as int, kept as int, threshold) {
            lemma_kept_sizes_are_apart(rest, kept, threshold);
        } else {
            lemma_kept_sizes_are_apart(rest, sizes.last(), threshold);
        }
    }
}

/// What merging gives: only sizes that were given, the last of them among
/// them as the last, and no two neighbours close to one another.
pub proof fn lemma_merged_sizes(sizes: Seq<i32>, threshold: int)
    ensures
        ({
            let out = merged(sizes, threshold);
            &&& out.len() <= sizes.len()
            &&& forall|i: int| 0 <= i < out.len() ==> sizes.contains(#[trigger] out[i])
            &&& sizes.len() > 0 ==> out.len() > 0 && out.last() == sizes.last()
            &&& forall|i: int|
                0 <= i < out.len() - 1 ==> !is_close(
                    #[trigger] out[i] as int,
                    out[i + 1] as int,
                    threshold,
                )
        }),
{
    if sizes.len() > 0 {
        let rest = sizes.drop_last();
        let below = kept_below(rest, sizes.last(), threshold);
        let out = merged(sizes, threshold);
        lemma_kept_sizes_are_given(rest, sizes.last(), threshold);
        lemma_kept_sizes_are_apart(rest, sizes.last(), threshold);
        lemma_kept_len(rest, sizes.last(), threshold);
        assert forall|i: int| 0 <= i < out.len() implies sizes.contains(#[trigger] out[i]) by {
            if i < below.len() {
                assert(rest.contains(below[i]));
                let j = choose|j: int| 0 <= j < rest.len() && rest[j] == below[i];
                assert(sizes[j] == out[i]);
            } else {
                assert(sizes[sizes.len() - 1] == out[i]);
            }
        }
    }
}

/// What is kept below a size stays as it is when it is gone through again.
pub proof fn lemma_kept_sizes_are_stable(sizes: Seq<i32>, kept: i32, threshold: int)
    ensures
        kept_below(kept_below(sizes, kept, threshold), kept, threshold) == kept_below(
            sizes,
            kept,
            threshold,
        ),
    decreases sizes.len(),
{
    if sizes.len() > 0 {
        let rest = sizes.drop_last();
        let last = sizes.last();
        if is_close(last as int, kept as int, threshold) {
            lemma_kept_sizes_are_stable(rest, kept, threshold);
        } else {
            lemma_kept_sizes_are_stable(rest, last, threshold);
            let out = kept_below(sizes, kept, threshold);
            assert(out.drop_last() =~= kept_below(rest, last, threshold));
            assert(out.last() == last);
        }
    }
}

/// Merging twice is merging once.
pub proof fn lemma_merged_idempotent(sizes: Seq<i32>, threshold: int)
    ensures
        merged(merged(sizes, threshold), threshold) == merged(sizes, threshold),
{
    if sizes.len() > 0 {
        let rest = sizes.drop_last();
        let last = sizes.last();
        let once = merged(sizes, threshold);
        lemma_kept_sizes_are_stable(rest, last, threshold);
        assert(once.drop_last() =~= kept_below(rest, last, threshold));
        assert(once.last() == last);
    }
}

proof fn lemma_kept_len(sizes: Seq<i32>, kept: i32, threshold: int)
    ensures
        kept_below(sizes, kept, threshold).len() <= sizes.len(),
    decreases sizes.len(),
{
    if sizes.len() > 0 {
        if is_close(sizes.last() as int, kept as int, threshold) {
            lemma_kept_len(sizes.drop_last(), kept, threshold);
        } else {
            lemma_kept_len(sizes.drop_last(), sizes.last(), threshold);
        }
    }
}

} // verus!
