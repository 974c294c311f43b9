//! Fee and profit-share arithmetic for settlements.
//!
//! A node's share of a settled opportunity's net profit is proportional to
//! the capital it contributed relative to the total capital used in the
//! execution.  Shares are rounded down, so the shares handed to all
//! contributing peers can never exceed the net profit
//! ([`lemma_shares_bounded`]).

use vstd::prelude::*;

use vstd::arithmetic::div_mod::{lemma_div_is_ordered, lemma_div_multiples_vanish,
    lemma_remainder_lower};

use crate::types::{CapitalUsage, ProceedsBreakdown};

verus! {

/// A fee of `bps` basis points on `total`, rounded down.
pub open spec fn spec_fee(total: u64, bps: u16) -> int {
    (total * bps) / 10000
}

/// Net profit after gas and fees, floored at zero.
pub open spec fn spec_net_profit(total: u64, gas: u64, finder_fee: int, executor_fee: int) -> int {
    if total - gas - finder_fee - executor_fee >= 0 {
        total - gas - finder_fee - executor_fee
    } else {
        0
    }
}

/// The proportional share of `net` owed for contributing `contributed` out
/// of `total` units of capital; zero when nothing was used, and clamped so
/// a claimed contribution beyond `total` earns no more than the whole.
pub open spec fn spec_share(net: u64, contributed: u64, total: u64) -> int {
    if total == 0 {
        0
    } else if contributed > total {
        (net * total) / (total as int)
    } else {
        (net * contributed) / (total as int)
    }
}

/// Dividing two parts separately never yields more than dividing the sum.
proof fn lemma_div_superadd(x: int, y: int, d: int)
    requires
        0 < d,
        0 <= x,
        0 <= y,
    ensures
        x / d + y / d <= (x + y) / d,
{
    let qx = x / d;
    let qy = y / d;
    lemma_remainder_lower(x, d);
    lemma_remainder_lower(y, d);
    assert((qx + qy) * d == qx * d + qy * d) by (nonlinear_arith);
    lemma_div_multiples_vanish(qx + qy, d);
    assert(d * (qx + qy) == (qx + qy) * d) by (nonlinear_arith);
    lemma_div_is_ordered((qx + qy) * d, x + y, d);
}

/// A fraction `b / d` of `a` with `b <= d` is at most `a`.
proof fn lemma_mul_div_le(a: int, b: int, d: int)
    requires
        0 <= a,
        0 <= b <= d,
        0 < d,
    ensures
        (a * b) / d <= a,
{
    assert(a * b <= a * d) by (nonlinear_arith)
        requires
            0 <= a,
            b <= d,
    ;
    lemma_div_is_ordered(a * b, a * d, d);
    lemma_div_multiples_vanish(a, d);
    assert(a * d == d * a) by (nonlinear_arith);
}

/// A fee of `bps` basis points on `total`; never more than `total` itself.
pub fn fee_of(total: u64, bps: u16) -> (r: u64)
    requires
        bps <= 10000,
    ensures
        r == spec_fee(total, bps),
        r <= total,
{
    proof {
        assert((total as int) * (bps as int) <= u128::MAX) by (nonlinear_arith)
            requires
                total <= u64::MAX,
                bps <= 10000,
        ;
    }
    let wide = (total as u128) * (bps as u128) / 10000u128;
    proof {
        lemma_mul_div_le(total as int, bps as int, 10000);
        assert((total as int) * (bps as int) >= 0) by (nonlinear_arith);
        vstd::arithmetic::div_mod::lemma_div_pos_is_pos((total as int) * (bps as int), 10000);
    }
    wide as u64
}

/// Net profit after gas and both fees, floored at zero.
pub fn net_profit_of(total: u64, gas: u64, finder_fee: u64, executor_fee: u64) -> (r: u64)
    ensures
        r == spec_net_profit(total, gas, finder_fee as int, executor_fee as int),
{
    if total >= gas {
        let after_gas = total - gas;
        if after_gas >= finder_fee {
            let after_finder = after_gas - finder_fee;
            if after_finder >= executor_fee {
                return after_finder - executor_fee;
            }
        }
    }
    0
}

/// Builds the reconciled financial summary of a settlement: fees are taken
/// from the gross proceeds at the configured rates and the net profit is
/// what remains after gas and fees.
pub fn make_breakdown(
    asset: String,
    total: u64,
    gas_cost: u64,
    finder_fee_bps: u16,
    executor_fee_bps: u16,
) -> (r: ProceedsBreakdown)
    requires
        finder_fee_bps <= 10000,
        executor_fee_bps <= 10000,
    ensures
        r.asset == asset,
        r.total == total,
        r.gas_cost_usd == gas_cost,
        r.finder_fee == spec_fee(total, finder_fee_bps),
        r.executor_fee == spec_fee(total, executor_fee_bps),
        r.net_profit == spec_net_profit(total, gas_cost, r.finder_fee as int, r.executor_fee as int),
{
    let finder_fee = fee_of(total, finder_fee_bps);
    let executor_fee = fee_of(total, executor_fee_bps);
    let net_profit = net_profit_of(total, gas_cost, finder_fee, executor_fee);
    ProceedsBreakdown { asset, total, gas_cost_usd: gas_cost, finder_fee, executor_fee, net_profit }
}

/// This node's proportional share of `net_profit` for contributing
/// `contributed` of the `total_used` capital; never exceeds `net_profit`.
pub fn share_of(net_profit: u64, contributed: u64, total_used: u64) -> (r: u64)
    ensures
        r == spec_share(net_profit, contributed, total_used),
        r <= net_profit,
{
    if total_used == 0 {
        return 0;
    }
    let c = if contributed > total_used {
        total_used
    } else {
        contributed
    };
    proof {
        assert((net_profit as int) * (c as int) <= u128::MAX) by (nonlinear_arith)
            requires
                net_profit <= u64::MAX,
                c <= u64::MAX,
        ;
    }
    let wide = (net_profit as u128) * (c as u128) / (total_used as u128);
    proof {
        lemma_mul_div_le(net_profit as int, c as int, total_used as int);
        assert((net_profit as int) * (c as int) >= 0) by (nonlinear_arith);
        vstd::arithmetic::div_mod::lemma_div_pos_is_pos(
            (net_profit as int) * (c as int),
            total_used as int,
        );
    }
    wide as u64
}

/// The sum of a sequence of amounts.
pub open spec fn sum_amounts(s: Seq<u64>) -> int
    decreases s.len(),
{
    if s.len() == 0 {
        0
    } else {
        sum_amounts(s.drop_last()) + s.last()
    }
}

/// The total of the shares owed for each contribution in `s`.
pub open spec fn sum_shares(net: u64, s: Seq<u64>, total: u64) -> int
    decreases s.len(),
{
    if s.len() == 0 {
        0
    } else {
        sum_shares(net, s.drop_last(), total) + spec_share(net, s.last(), total)
    }
}

proof fn lemma_sum_nonneg(s: Seq<u64>)
    ensures
        sum_amounts(s) >= 0,
    decreases s.len(),
{
    if s.len() > 0 {
        lemma_sum_nonneg(s.drop_last());
    }
}

/// With a positive total, the shares sum to at most the exact fraction of
/// the summed contributions.
proof fn lemma_shares_sum(net: u64, s: Seq<u64>, total: u64)
    requires
        total > 0,
        sum_amounts(s) <= total,
    ensures
        0 <= sum_shares(net, s, total) <= (net * sum_amounts(s)) / (total as int),
    decreases s.len(),
{
    if s.len() == 0 {
        assert((net * 0) / (total as int) == 0) by (nonlinear_arith)
            requires total > 0;
    } else {
        let d = s.drop_last();
        let a = s.last();
        lemma_sum_nonneg(d);
        assert(sum_amounts(d) <= total);
        assert(a <= total);
        lemma_shares_sum(net, d, total);
        assert(spec_share(net, a, total) == (net * a) / (total as int));
        assert((net * a) >= 0) by (nonlinear_arith);
        vstd::arithmetic::div_mod::lemma_div_pos_is_pos(net * a, total as int);
        assert((net * sum_amounts(d)) >= 0) by (nonlinear_arith)
            requires sum_amounts(d) >= 0;
        lemma_div_superadd(net * sum_amounts(d), net * a, total as int);
        assert(net * sum_amounts(d) + net * a == net * (sum_amounts(d) + a)) by (nonlinear_arith);
        assert(sum_amounts(s) == sum_amounts(d) + a);
    }
}

/// Shares across all contributing peers never exceed the net profit: if the
/// individual contributions sum to at most the total capital used, the
/// rounded-down proportional shares sum to at most `net`.
pub proof fn lemma_shares_bounded(net: u64, contribs: Seq<u64>, total: u64)
    requires
        sum_amounts(contribs) <= total,
    ensures
        sum_shares(net, contribs, total) <= net,
    decreases contribs.len(),
{
    if total == 0 {
        if contribs.len() > 0 {
            lemma_sum_nonneg(contribs.drop_last());
            lemma_shares_bounded(net, contribs.drop_last(), total);
        }
    } else {
        lemma_shares_sum(net, contribs, total);
        lemma_sum_nonneg(contribs);
        lemma_mul_div_le(net as int, sum_amounts(contribs), total as int);
    }
}

/// The total capital a receipt reports as used across all peers.
pub open spec fn spec_total_used(s: Seq<CapitalUsage>) -> int
    decreases s.len(),
{
    if s.len() == 0 {
        0
    } else {
        spec_total_used(s.drop_last()) + s.last().amount_used
    }
}

/// The capital a receipt reports as used from one node.
pub open spec fn spec_contribution(s: Seq<CapitalUsage>, node: Seq<char>) -> int
    decreases s.len(),
{
    if s.len() == 0 {
        0
    } else {
        spec_contribution(s.drop_last(), node) + if s.last().node_id@ == node {
            s.last().amount_used as int
        } else {
            0
        }
    }
}

proof fn lemma_total_used_nonneg(s: Seq<CapitalUsage>)
    ensures
        spec_total_used(s) >= 0,
    decreases s.len(),
{
    if s.len() > 0 {
        lemma_total_used_nonneg(s.drop_last());
    }
}

/// A node's reported contribution is part of the reported total.
pub proof fn lemma_contribution_le_total(s: Seq<CapitalUsage>, node: Seq<char>)
    ensures
        0 <= spec_contribution(s, node) <= spec_total_used(s),
    decreases s.len(),
{
    if s.len() > 0 {
        lemma_contribution_le_total(s.drop_last(), node);
    }
}

proof fn lemma_total_used_prefix_le(s: Seq<CapitalUsage>, i: int)
    requires
        0 <= i <= s.len(),
    ensures
        spec_total_used(s.subrange(0, i)) <= spec_total_used(s),
    decreases s.len() - i,
{
    if i == s.len() {
        assert(s.subrange(0, i) =~= s);
    } else {
        assert(s.subrange(0, i + 1).drop_last() =~= s.subrange(0, i));
        assert(spec_total_used(s.subrange(0, i + 1)) == spec_total_used(s.subrange(0, i))
            + s[i].amount_used);
        lemma_total_used_prefix_le(s, i + 1);
    }
}

/// Sums the capital a receipt reports as used; `None` when the reported
/// amounts overflow the ledger's arithmetic, which marks the receipt
/// malformed.
pub fn total_used_of(used: &Vec<CapitalUsage>) -> (r: Option<u64>)
    ensures
        r is Some <==> spec_total_used(used@) <= u64::MAX,
        r is Some ==> r->0 == spec_total_used(used@),
{
    let n = used.len();
    let mut acc: u64 = 0;
    let mut i: usize = 0;
    while i < n
        invariant
            n == used@.len(),
            0 <= i <= n,
            acc == spec_total_used(used@.subrange(0, i as int)),
        decreases n - i,
    {
        proof {
            assert(used@.subrange(0, i as int + 1).drop_last() =~= used@.subrange(0, i as int));
        }
        let a = used[i].amount_used;
        if acc > u64::MAX - a {
            proof {
                lemma_total_used_prefix_le(used@, i as int + 1);
            }
            return None;
        }
        acc = acc + a;
        i = i + 1;
    }
    proof {
        assert(used@.subrange(0, n as int) =~= used@);
    }
    Some(acc)
}

/// Sums the capital a receipt reports as used from `node`.
pub fn contribution_of(used: &Vec<CapitalUsage>, node: &String) -> (r: u64)
    requires
        spec_total_used(used@) <= u64::MAX,
    ensures
        r == spec_contribution(used@, node@),
{
    let n = used.len();
    let mut acc: u64 = 0;
    let mut i: usize = 0;
    while i < n
        invariant
            n == used@.len(),
            0 <= i <= n,
            spec_total_used(used@) <= u64::MAX,
            acc == spec_contribution(used@.subrange(0, i as int), node@),
        decreases n - i,
    {
        proof {
            assert(used@.subrange(0, i as int + 1).drop_last() =~= used@.subrange(0, i as int));
            lemma_contribution_le_total(used@.subrange(0, i as int + 1), node@);
            lemma_total_used_prefix_le(used@, i as int + 1);
        }
        if used[i].node_id == *node {
            acc = acc + used[i].amount_used;
        }
        i = i + 1;
    }
    proof {
        assert(used@.subrange(0, n as int) =~= used@);
    }
    acc
}

} // verus!
