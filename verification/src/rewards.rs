//! Reward accounting over a batch of transactions: every transaction above a
//! threshold contributes twice its amount.

use vstd::prelude::*;

verus! {

/// One fee-bearing transaction.
pub struct Transaction {
    pub amount: u32,
}

/// The total reward of a batch: twice the amount of every transaction whose
/// amount exceeds `min_limit`, summed in order.
pub open spec fn reward_sum(amounts: Seq<u32>, min_limit: u32) -> int
    decreases amounts.len(),
{
    if amounts.len() == 0 {
        0
    } else {
        reward_sum(amounts.drop_last(), min_limit) + if amounts.last() > min_limit {
            2 * amounts.last()
        } else {
            0
        }
    }
}

/// Partial sums never exceed the full sum: every contribution is nonnegative.
proof fn lemma_reward_sum_take_le(amounts: Seq<u32>, min_limit: u32, i: int)
    requires
        0 <= i <= amounts.len(),
    ensures
        0 <= reward_sum(amounts.take(i), min_limit) <= reward_sum(amounts, min_limit),
    decreases amounts.len() - i,
{
    if i == amounts.len() {
        assert(amounts.take(i) =~= amounts);
        lemma_reward_sum_nonneg(amounts, min_limit);
    } else {
        lemma_reward_sum_take_le(amounts, min_limit, i + 1);
        lemma_reward_sum_nonneg(amounts.take(i), min_limit);
        let step = amounts.take(i + 1);
        assert(step.drop_last() =~= amounts.take(i));
        assert(reward_sum(step, min_limit) == reward_sum(amounts.take(i), min_limit) + if step.last()
            > min_limit {
            2 * step.last()
        } else {
            0
        });
    }
}

proof fn lemma_reward_sum_nonneg(amounts: Seq<u32>, min_limit: u32)
    ensures
        reward_sum(amounts, min_limit) >= 0,
    decreases amounts.len(),
{
    if amounts.len() > 0 {
        lemma_reward_sum_nonneg(amounts.drop_last(), min_limit);
    }
}

/// Filters the transactions above `min_limit`, doubles their amounts, and
/// sums. The caller guarantees the total fits the result type.
pub fn total_reward(txs: &Vec<Transaction>, min_limit: u32) -> (total: u32)
    requires
        reward_sum(txs@.map_values(|t: Transaction| t.amount), min_limit) <= u32::MAX,
    ensures
        total == reward_sum(txs@.map_values(|t: Transaction| t.amount), min_limit),
{
    let ghost amounts: Seq<u32> = txs@.map_values(|t: Transaction| t.amount);
    let mut total: u32 = 0;
    let mut i: usize = 0;
    while i < txs.len()
        invariant
            i <= txs@.len(),
            amounts == txs@.map_values(|t: Transaction| t.amount),
            total == reward_sum(amounts.take(i as int), min_limit),
            reward_sum(amounts, min_limit) <= u32::MAX,
        decreases txs@.len() - i,
    {
        proof {
            lemma_reward_sum_take_le(amounts, min_limit, i + 1);
            assert(amounts.take(i + 1).drop_last() =~= amounts.take(i as int));
            assert(amounts.take(i + 1).last() == amounts[i as int]);
        }
        if txs[i].amount > min_limit {
            total = total + 2 * txs[i].amount;
        }
        i += 1;
    }
    proof {
        assert(amounts.take(txs@.len() as int) =~= amounts);
    }
    total
}

} // verus!
