//! What the stakes behind a borrower come to.

use vstd::prelude::*;

use crate::arith::{fits, quotient, quotient_rounds_towards_zero};
use crate::laws::stakes_not_negative;
use crate::types::{Abort, Address, ContractError, Fault, VouchRecord};
use crate::vouches::{
    age_fault, backing, distribution_fault, payout, share, stake_overflows, total_shares,
    total_stake,
};

verus! {

/// The stakes of two lists come to the stakes of the one and of the other, and
/// a single vouch brings its own stake, whatever its token.
pub proof fn stakes_add_up(a: Seq<VouchRecord>, b: Seq<VouchRecord>, v: VouchRecord)
    ensures
        total_stake(a + b) == total_stake(a) + total_stake(b),
        total_stake(seq![v]) == v.stake,
    decreases b.len(),
{
    assert(total_stake(seq![v].drop_last()) == 0);
    if b.len() == 0 {
        assert(a + b =~= a);
    } else {
        stakes_add_up(a, b.drop_last(), v);
        assert((a + b).drop_last() =~= a + b.drop_last());
        assert((a + b).last() == b.last());
    }
}

/// Of two lists the vouches in a token are those of the one and then those of
/// the other, and a single vouch is among them exactly if it is in the token.
pub proof fn vouches_in_token_stay_in_order(
    a: Seq<VouchRecord>,
    b: Seq<VouchRecord>,
    v: VouchRecord,
    token: Address,
)
    ensures
        backing(a + b, token) == backing(a, token) + backing(b, token),
        backing(seq![v], token) == (if v.token == token {
            seq![v]
        } else {
            Seq::empty()
        }),
{
    let in_token = |w: VouchRecord| w.token == token;
    Seq::filter_distributes_over_add(a, b, in_token);
    reveal(Seq::filter);
    assert(seq![v].drop_last().len() == 0);
    assert(seq![v].drop_last().filter(in_token).len() == 0);
    assert(seq![v].last() == v);
}

/// Stakes overflow exactly if, added up in order, some of the first ones come
/// to a number that an `i128` cannot hold.
pub proof fn stakes_overflow_at_some_vouch(vouches: Seq<VouchRecord>)
    ensures
        !stake_overflows(vouches) <==> forall|k: int|
            0 <= k <= vouches.len() ==> i128::MIN <= #[trigger] total_stake(vouches.take(k))
                <= i128::MAX,
        !stake_overflows(vouches) ==> i128::MIN <= total_stake(vouches) <= i128::MAX,
{
    assert(vouches.take(vouches.len() as int) =~= vouches);
}

/// Stakes that are not negative overflow exactly if all together are too much
/// for an `i128`.
pub proof fn stakes_overflow_together(vouches: Seq<VouchRecord>)
    requires
        stakes_not_negative(vouches),
    ensures
        stake_overflows(vouches) <==> total_stake(vouches) > i128::MAX,
{
    assert(vouches.take(vouches.len() as int) =~= vouches);
    if total_stake(vouches) > i128::MAX {
        assert(!fits(total_stake(vouches.take(vouches.len() as int))));
    }
    assert forall|k: int| 0 <= k <= vouches.len() implies 0 <= #[trigger] total_stake(
        vouches.take(k),
    ) <= total_stake(vouches) by {
        lemma_prefix_is_smaller(vouches, k);
    }
}

/// Of stakes that are not negative the first ones come to no more than all.
proof fn lemma_prefix_is_smaller(vouches: Seq<VouchRecord>, k: int)
    requires
        stakes_not_negative(vouches),
        0 <= k <= vouches.len(),
    ensures
        0 <= total_stake(vouches.take(k)) <= total_stake(vouches),
    decreases vouches.len(),
{
    if vouches.len() > 0 {
        let rest = vouches.drop_last();
        assert forall|i: int| 0 <= i < rest.len() implies (#[trigger] rest[i]).stake >= 0 by {
            assert(vouches[i].stake >= 0);
        }
        assert(vouches[vouches.len() - 1].stake >= 0);
        if k == vouches.len() {
            assert(vouches.take(k) =~= vouches);
            lemma_prefix_is_smaller(rest, rest.len() as int);
            assert(rest.take(rest.len() as int) =~= rest);
        } else {
            lemma_prefix_is_smaller(rest, k);
            assert(rest.take(k) =~= vouches.take(k));
        }
    }
}

/// Whether every vouch has reached the age.
pub open spec fn all_old_enough(vouches: Seq<VouchRecord>, now: u64, min_age: u64) -> bool {
    forall|i: int|
        0 <= i < vouches.len() ==> (#[trigger] vouches[i]).vouch_timestamp + min_age <= now
}

/// There is nothing wrong with the age of vouches exactly if each has reached
/// it. Otherwise a vouch is too recent, or reaches its age at a time that a
/// `u64` cannot hold.
pub proof fn vouches_have_to_reach_the_age(vouches: Seq<VouchRecord>, now: u64, min_age: u64)
    ensures
        age_fault(vouches, now, min_age) is None <==> all_old_enough(vouches, now, min_age),
        age_fault(vouches, now, min_age) matches Some(fault) ==> fault == Fault::Refuse(
            ContractError::VouchTooRecent,
        ) || fault == Fault::Abort(Abort::Overflow),
    decreases vouches.len(),
{
    if vouches.len() > 0 {
        let rest = vouches.drop_last();
        vouches_have_to_reach_the_age(rest, now, min_age);
        if all_old_enough(vouches, now, min_age) {
            assert forall|i: int| 0 <= i < rest.len() implies (
            #[trigger] rest[i]).vouch_timestamp + min_age <= now by {
                assert(vouches[i].vouch_timestamp + min_age <= now);
            }
            assert(vouches[vouches.len() - 1].vouch_timestamp + min_age <= now);
        }
        if age_fault(vouches, now, min_age) is None {
            assert forall|i: int| 0 <= i < vouches.len() implies (
            #[trigger] vouches[i]).vouch_timestamp + min_age <= now by {
                if i < rest.len() {
                    assert(rest[i].vouch_timestamp + min_age <= now);
                }
            }
        }
    }
}

/// The first vouch that has not reached its age decides, whatever the later
/// ones are.
pub proof fn first_young_vouch_decides(
    vouches: Seq<VouchRecord>,
    now: u64,
    min_age: u64,
    first: int,
)
    requires
        0 <= first < vouches.len(),
        all_old_enough(vouches.take(first), now, min_age),
        now < vouches[first].vouch_timestamp + min_age,
    ensures
        age_fault(vouches, now, min_age) == Some(
            if vouches[first].vouch_timestamp + min_age > u64::MAX {
                Fault::Abort(Abort::Overflow)
            } else {
                Fault::Refuse(ContractError::VouchTooRecent)
            },
        ),
    decreases vouches.len(),
{
    let rest = vouches.drop_last();
    if first == rest.len() {
        assert(vouches.take(first) =~= rest);
        vouches_have_to_reach_the_age(rest, now, min_age);
    } else {
        assert(rest.take(first) =~= vouches.take(first));
        first_young_vouch_decides(rest, now, min_age, first);
    }
}

/// A share is to what there is to share as the stake is to the total, rounded
/// towards zero; nothing is shared by stakes that come to nothing.
pub proof fn share_is_in_proportion(available: int, stake: int, total: int)
    ensures
        total <= 0 ==> share(available, stake, total) == 0,
        total > 0 && available * stake >= 0 ==> 0 <= available * stake - share(
            available,
            stake,
            total,
        ) * total < total,
        total > 0 && available * stake <= 0 ==> 0 <= share(available, stake, total) * total
            - available * stake < total,
{
    if total > 0 {
        quotient_rounds_towards_zero(available * stake, total);
    }
}

/// The shares of two lists come to the shares of the one and of the other, and
/// a single vouch has the share of its stake.
pub proof fn shares_add_up(
    a: Seq<VouchRecord>,
    b: Seq<VouchRecord>,
    v: VouchRecord,
    available: int,
    total: int,
)
    ensures
        total_shares(a + b, available, total) == total_shares(a, available, total)
            + total_shares(b, available, total),
        total_shares(seq![v], available, total) == share(available, v.stake as int, total),
    decreases b.len(),
{
    assert(total_shares(seq![v].drop_last(), available, total) == 0);
    if b.len() == 0 {
        assert(a + b =~= a);
    } else {
        shares_add_up(a, b.drop_last(), v, available, total);
        assert((a + b).drop_last() =~= a + b.drop_last());
        assert((a + b).last() == b.last());
    }
}

/// Of two stakes that are not negative the larger has no smaller a share, and
/// equal stakes have equal shares, whoever put them up.
pub proof fn larger_stake_has_no_smaller_share(
    a: VouchRecord,
    b: VouchRecord,
    available: int,
    total: int,
)
    requires
        0 <= a.stake <= b.stake,
        available >= 0,
    ensures
        payout(a, available, total) - a.stake <= payout(b, available, total) - b.stake,
        a.stake == b.stake ==> payout(a, available, total) == payout(b, available, total),
{
    if total > 0 {
        let x = available * a.stake;
        let y = available * b.stake;
        assert(0 <= x <= y) by (nonlinear_arith)
            requires
                available >= 0,
                0 <= a.stake <= b.stake,
                x == available * a.stake,
                y == available * b.stake,
        ;
        assert(x / total <= y / total) by (nonlinear_arith)
            requires
                0 <= x <= y,
                total > 0,
        ;
    }
}

/// Whether a vouch can be paid out after those before it: the numbers stay in
/// the range of an `i128`, and no more is shared than there is to share.
pub open spec fn can_be_paid(
    vouches: Seq<VouchRecord>,
    k: int,
    available: int,
    total: int,
) -> bool {
    let stake = vouches[k].stake;
    let part = if total > 0 {
        quotient(available * stake, total)
    } else {
        0
    };
    let shared = total_shares(vouches.take(k), available, total) + part;
    &&& total > 0 ==> fits(available * stake)
    &&& fits(shared)
    &&& shared <= available
    &&& fits(stake + part)
}

/// Vouches can be paid out exactly if each can after those before it.
pub proof fn distribution_goes_through_exactly_if_each_can_be_paid(
    vouches: Seq<VouchRecord>,
    available: int,
    total: int,
)
    ensures
        distribution_fault(vouches, available, total) is None <==> forall|k: int|
            0 <= k < vouches.len() ==> #[trigger] can_be_paid(vouches, k, available, total),
        distribution_fault(vouches, available, total) matches Some(abort) ==> abort
            == Abort::Overflow || abort == Abort::YieldExceedsAvailable,
    decreases vouches.len(),
{
    if vouches.len() > 0 {
        let rest = vouches.drop_last();
        let last = vouches.len() - 1;
        distribution_goes_through_exactly_if_each_can_be_paid(rest, available, total);
        assert(vouches.take(last) =~= rest);
        assert forall|k: int| 0 <= k < last implies can_be_paid(rest, k, available, total)
            == #[trigger] can_be_paid(vouches, k, available, total) by {
            assert(rest.take(k) =~= vouches.take(k));
        }
        if forall|k: int| 0 <= k < vouches.len() ==> #[trigger] can_be_paid(
            vouches,
            k,
            available,
            total,
        ) {
            assert forall|k: int| 0 <= k < rest.len() implies #[trigger] can_be_paid(
                rest,
                k,
                available,
                total,
            ) by {
                assert(can_be_paid(vouches, k, available, total));
            }
            assert(can_be_paid(vouches, last, available, total));
        }
        if distribution_fault(vouches, available, total) is None {
            assert forall|k: int| 0 <= k < vouches.len() implies #[trigger] can_be_paid(
                vouches,
                k,
                available,
                total,
            ) by {
                if k < last {
                    assert(can_be_paid(rest, k, available, total));
                }
            }
        }
    }
}

/// The first vouch that cannot be paid decides: the yield is found to be
/// exceeded exactly if the numbers are in range and more would be shared than
/// there is to share.
pub proof fn first_unpaid_vouch_decides(
    vouches: Seq<VouchRecord>,
    available: int,
    total: int,
    first: int,
)
    requires
        0 <= first < vouches.len(),
        forall|k: int| 0 <= k < first ==> #[trigger] can_be_paid(vouches, k, available, total),
        !can_be_paid(vouches, first, available, total),
    ensures
        ({
            let stake = vouches[first].stake;
            let shared = total_shares(vouches.take(first + 1), available, total);
            distribution_fault(vouches, available, total) == Some(
                if (total <= 0 || fits(available * stake)) && fits(shared) && shared > available {
                    Abort::YieldExceedsAvailable
                } else {
                    Abort::Overflow
                },
            )
        }),
    decreases vouches.len(),
{
    let rest = vouches.drop_last();
    assert(vouches.take(first + 1).drop_last() =~= vouches.take(first));
    assert forall|k: int| 0 <= k < rest.len() implies can_be_paid(rest, k, available, total)
        == #[trigger] can_be_paid(vouches, k, available, total) by {
        assert(rest.take(k) =~= vouches.take(k));
    }
    if first == rest.len() {
        assert(vouches.take(first) =~= rest);
        assert forall|k: int| 0 <= k < rest.len() implies #[trigger] can_be_paid(
            rest,
            k,
            available,
            total,
        ) by {
            assert(can_be_paid(vouches, k, available, total));
        }
        distribution_goes_through_exactly_if_each_can_be_paid(rest, available, total);
    } else {
        assert(rest.take(first + 1) =~= vouches.take(first + 1));
        assert forall|k: int| 0 <= k < first implies #[trigger] can_be_paid(
            rest,
            k,
            available,
            total,
        ) by {
            assert(can_be_paid(vouches, k, available, total));
        }
        assert(can_be_paid(rest, first, available, total) == can_be_paid(
            vouches,
            first,
            available,
            total,
        ));
        first_unpaid_vouch_decides(rest, available, total, first);
    }
}

} // verus!
