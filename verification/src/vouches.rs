//! The stakes behind a borrower: which ones count, how old they are, and what
//! each voucher gets back.

use vstd::prelude::*;

use crate::arith::{divide, fits, quotient};
use crate::types::{Abort, Address, ContractError, Effect, Fault, VouchRecord};

verus! {

/// The vouches in one token, in order.
pub open spec fn backing(vouches: Seq<VouchRecord>, token: Address) -> Seq<VouchRecord> {
    vouches.filter(|v: VouchRecord| v.token == token)
}

/// The sum of the stakes.
pub open spec fn total_stake(vouches: Seq<VouchRecord>) -> int
    decreases vouches.len(),
{
    if vouches.len() == 0 {
        0
    } else {
        total_stake(vouches.drop_last()) + vouches.last().stake
    }
}

/// Whether the stakes, added up in order, leave the range of an `i128` at
/// some point.
pub open spec fn stake_overflows(vouches: Seq<VouchRecord>) -> bool {
    exists|k: int| 0 <= k <= vouches.len() && !fits(#[trigger] total_stake(vouches.take(k)))
}

/// What is wrong with the age of one vouch.
pub open spec fn vouch_age_fault(v: VouchRecord, now: u64, min_age: u64) -> Option<Fault> {
    if v.vouch_timestamp + min_age > u64::MAX {
        Some(Fault::Abort(Abort::Overflow))
    } else if now < v.vouch_timestamp + min_age {
        Some(Fault::Refuse(ContractError::VouchTooRecent))
    } else {
        None
    }
}

/// What is wrong with the age of the first vouch whose age is wrong.
pub open spec fn age_fault(vouches: Seq<VouchRecord>, now: u64, min_age: u64) -> Option<Fault>
    decreases vouches.len(),
{
    if vouches.len() == 0 {
        None
    } else if age_fault(vouches.drop_last(), now, min_age) is Some {
        age_fault(vouches.drop_last(), now, min_age)
    } else {
        vouch_age_fault(vouches.last(), now, min_age)
    }
}

/// The part of `available` that belongs to `stake` out of `total`.
pub open spec fn share(available: int, stake: int, total: int) -> int {
    if total > 0 {
        quotient(available * stake, total)
    } else {
        0
    }
}

/// The sum of the shares.
pub open spec fn total_shares(vouches: Seq<VouchRecord>, available: int, total: int) -> int
    decreases vouches.len(),
{
    if vouches.len() == 0 {
        0
    } else {
        total_shares(vouches.drop_last(), available, total) + share(
            available,
            vouches.last().stake as int,
            total,
        )
    }
}

/// What a voucher gets: the stake and the share.
pub open spec fn payout(v: VouchRecord, available: int, total: int) -> int {
    v.stake + share(available, v.stake as int, total)
}

/// What is wrong with paying out a vouch when `distributed` has been shared
/// out before.
pub open spec fn payout_fault(
    v: VouchRecord,
    distributed: int,
    available: int,
    total: int,
) -> Option<Abort> {
    let shared = distributed + share(available, v.stake as int, total);
    if total > 0 && !fits(available * v.stake) {
        Some(Abort::Overflow)
    } else if !fits(shared) {
        Some(Abort::Overflow)
    } else if shared > available {
        Some(Abort::YieldExceedsAvailable)
    } else if !fits(payout(v, available, total)) {
        Some(Abort::Overflow)
    } else {
        None
    }
}

/// What is wrong with the first vouch that cannot be paid out.
pub open spec fn distribution_fault(
    vouches: Seq<VouchRecord>,
    available: int,
    total: int,
) -> Option<Abort>
    decreases vouches.len(),
{
    if vouches.len() == 0 {
        None
    } else if distribution_fault(vouches.drop_last(), available, total) is Some {
        distribution_fault(vouches.drop_last(), available, total)
    } else {
        payout_fault(
            vouches.last(),
            total_shares(vouches.drop_last(), available, total),
            available,
            total,
        )
    }
}

/// The transfer that pays out a vouch.
pub open spec fn payout_effect(
    v: VouchRecord,
    contract: Address,
    token: Address,
    available: int,
    total: int,
) -> Effect {
    Effect::Transfer {
        token,
        from: contract,
        to: v.voucher,
        amount: payout(v, available, total) as i128,
    }
}

/// The transfers that pay out the vouches, in order.
pub open spec fn payout_effects(
    vouches: Seq<VouchRecord>,
    contract: Address,
    token: Address,
    available: int,
    total: int,
) -> Seq<Effect> {
    vouches.map_values(|v: VouchRecord| payout_effect(v, contract, token, available, total))
}

/// The vouches in one token, in order.
pub fn vouches_in_token(vouches: &Vec<VouchRecord>, token: Address) -> (found: Vec<VouchRecord>)
    ensures
        found@ == backing(vouches@, token),
{
    let mut found: Vec<VouchRecord> = Vec::new();
    let count: usize = vouches.len();
    assert(vouches@.take(0).len() == 0);
    assert(found@ =~= backing(vouches@.take(0), token)) by {
        reveal(Seq::filter);
    }
    for i in 0..count
        invariant
            count == vouches@.len(),
            found@ == backing(vouches@.take(i as int), token),
    {
        let v: VouchRecord = vouches[i];
        proof {
            reveal(Seq::filter);
            assert(vouches@.take(i + 1).drop_last() =~= vouches@.take(i as int));
        }
        if v.token == token {
            found.push(v);
        }
    }
    assert(vouches@.take(count as int) =~= vouches@);
    found
}

/// The sum of the stakes, or `None` where it leaves the range of an `i128`.
pub fn sum_stakes(vouches: &Vec<VouchRecord>) -> (sum: Option<i128>)
    ensures
        match sum {
            Some(x) => !stake_overflows(vouches@) && x == total_stake(vouches@),
            None => stake_overflows(vouches@),
        },
{
    let mut sum: i128 = 0;
    let count: usize = vouches.len();
    for i in 0..count
        invariant
            count == vouches@.len(),
            sum == total_stake(vouches@.take(i as int)),
            forall|k: int| 0 <= k <= i ==> fits(#[trigger] total_stake(vouches@.take(k))),
    {
        assert(vouches@.take(i + 1).drop_last() =~= vouches@.take(i as int));
        match sum.checked_add(vouches[i].stake) {
            Some(x) => {
                sum = x;
            },
            None => {
                assert(!fits(total_stake(vouches@.take(i + 1))));
                return None;
            },
        }
    }
    assert(vouches@.take(count as int) =~= vouches@);
    Some(sum)
}

/// What is wrong with the age of the first vouch whose age is wrong.
pub fn find_age_fault(vouches: &Vec<VouchRecord>, now: u64, min_age: u64) -> (fault: Option<Fault>)
    ensures
        fault == age_fault(vouches@, now, min_age),
{
    let count: usize = vouches.len();
    for i in 0..count
        invariant
            count == vouches@.len(),
            age_fault(vouches@.take(i as int), now, min_age) is None,
    {
        assert(vouches@.take(i + 1).drop_last() =~= vouches@.take(i as int));
        let ghost upto = vouches@.take(i + 1);
        let fault: Option<Fault> = match vouches[i].vouch_timestamp.checked_add(min_age) {
            None => Some(Fault::Abort(Abort::Overflow)),
            Some(ripe) => if now < ripe {
                Some(Fault::Refuse(ContractError::VouchTooRecent))
            } else {
                None
            },
        };
        assert(fault == age_fault(upto, now, min_age));
        if fault.is_some() {
            proof {
                lemma_age_fault_stays(vouches@, i + 1, now, min_age);
            }
            return fault;
        }
    }
    assert(vouches@.take(count as int) =~= vouches@);
    None
}

/// A fault among the first vouches is the fault of all of them.
proof fn lemma_age_fault_stays(vouches: Seq<VouchRecord>, n: int, now: u64, min_age: u64)
    requires
        0 <= n <= vouches.len(),
        age_fault(vouches.take(n), now, min_age) is Some,
    ensures
        age_fault(vouches, now, min_age) == age_fault(vouches.take(n), now, min_age),
    decreases vouches.len(),
{
    if n == vouches.len() {
        assert(vouches.take(n) =~= vouches);
    } else {
        assert(vouches.drop_last().take(n) =~= vouches.take(n));
        lemma_age_fault_stays(vouches.drop_last(), n, now, min_age);
    }
}

/// The transfers that pay out the vouches, in order, or what is wrong with
/// the first that cannot be paid out.
pub fn distribute(
    vouches: &Vec<VouchRecord>,
    contract: Address,
    token: Address,
    available: i128,
    total: i128,
) -> (paid: Result<Vec<Effect>, Abort>)
    ensures
        match paid {
            Ok(effects) => distribution_fault(vouches@, available as int, total as int) is None
                && effects@ == payout_effects(
                vouches@,
                contract,
                token,
                available as int,
                total as int,
            ),
            Err(abort) => distribution_fault(vouches@, available as int, total as int) == Some(
                abort,
            ),
        },
{
    let mut effects: Vec<Effect> = Vec::new();
    let mut distributed: i128 = 0;
    let count: usize = vouches.len();
    for i in 0..count
        invariant
            count == vouches@.len(),
            distribution_fault(vouches@.take(i as int), available as int, total as int) is None,
            distributed == total_shares(vouches@.take(i as int), available as int, total as int),
            effects@ == payout_effects(
                vouches@.take(i as int),
                contract,
                token,
                available as int,
                total as int,
            ),
    {
        let ghost upto = vouches@.take(i + 1);
        assert(upto.drop_last() =~= vouches@.take(i as int));
        let v: VouchRecord = vouches[i];
        match pay_out(v, distributed, available, total) {
            Ok((shared, amount)) => {
                distributed = shared;
                effects.push(Effect::Transfer { token, from: contract, to: v.voucher, amount });
                assert(effects@ =~= payout_effects(
                    upto,
                    contract,
                    token,
                    available as int,
                    total as int,
                ));
            },
            Err(abort) => {
                proof {
                    lemma_distribution_fault_stays(
                        vouches@,
                        i + 1,
                        available as int,
                        total as int,
                    );
                }
                return Err(abort);
            },
        }
    }
    assert(vouches@.take(count as int) =~= vouches@);
    Ok(effects)
}

/// What has been shared out after a vouch, and what its voucher gets.
fn pay_out(v: VouchRecord, distributed: i128, available: i128, total: i128) -> (paid: Result<
    (i128, i128),
    Abort,
>)
    ensures
        match paid {
            Ok((shared, amount)) => payout_fault(
                v,
                distributed as int,
                available as int,
                total as int,
            ) is None && shared == distributed + share(
                available as int,
                v.stake as int,
                total as int,
            ) && amount == payout(v, available as int, total as int),
            Err(abort) => payout_fault(v, distributed as int, available as int, total as int)
                == Some(abort),
        },
{
    let part: i128 = if total > 0 {
        match available.checked_mul(v.stake) {
            Some(product) => divide(product, total),
            None => {
                return Err(Abort::Overflow);
            },
        }
    } else {
        0
    };
    match distributed.checked_add(part) {
        Some(shared) => {
            if shared > available {
                return Err(Abort::YieldExceedsAvailable);
            }
            match v.stake.checked_add(part) {
                Some(amount) => Ok((shared, amount)),
                None => Err(Abort::Overflow),
            }
        },
        None => Err(Abort::Overflow),
    }
}

/// A fault among the first vouches is the fault of all of them.
proof fn lemma_distribution_fault_stays(
    vouches: Seq<VouchRecord>,
    n: int,
    available: int,
    total: int,
)
    requires
        0 <= n <= vouches.len(),
        distribution_fault(vouches.take(n), available, total) is Some,
    ensures
        distribution_fault(vouches, available, total) == distribution_fault(
            vouches.take(n),
            available,
            total,
        ),
    decreases vouches.len(),
{
    if n == vouches.len() {
        assert(vouches.take(n) =~= vouches);
    } else {
        assert(vouches.drop_last().take(n) =~= vouches.take(n));
        lemma_distribution_fault_stays(vouches.drop_last(), n, available, total);
    }
}

} // verus!
