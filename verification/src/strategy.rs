//! The decision half of the liquidation strategy: which positions are worth
//! watching, when a position is liquidatable and profitable enough, and the
//! shape of the receipt an execution produces.  Chain reads and transaction
//! submission live with the host; these functions judge the values they
//! hand back.

use vstd::prelude::*;

use crate::types::{AaveLiquidationReceipt, CapitalUsage, ExecutionStatus, IntentData};

verus! {

/// A position is worth monitoring while its health factor is positive but
/// less than twice the liquidation threshold.
pub fn should_monitor(health_factor: u64, liquidation_threshold: u64) -> (r: bool)
    ensures
        r == (health_factor > 0 && health_factor < 2 * liquidation_threshold),
{
    health_factor > 0 && (health_factor as u128) < 2 * (liquidation_threshold as u128)
}

/// What a liquidation of an unhealthy position is judged to be worth.
pub struct LiquidationQuote {
    /// Up to half the outstanding debt may be repaid in one liquidation.
    pub max_repay_amount: u64,
    /// A conservative twentieth of the repaid amount as estimated profit.
    pub estimated_profit: u64,
}

/// Judges a position read back from the chain: liquidatable only when the
/// health factor is below the threshold, and worth acting on only when the
/// estimated profit clears `min_profit`.
pub fn assess_position(
    health_factor: u64,
    total_debt: u64,
    liquidation_threshold: u64,
    min_profit: u64,
) -> (r: Option<LiquidationQuote>)
    ensures
        r is Some <==> health_factor < liquidation_threshold && total_debt / 2 / 20
            >= min_profit,
        r is Some ==> r->0.max_repay_amount == total_debt / 2 && r->0.estimated_profit
            == total_debt / 2 / 20,
{
    if health_factor >= liquidation_threshold {
        return None;
    }
    let max_repay_amount = total_debt / 2;
    let estimated_profit = max_repay_amount / 20;
    if estimated_profit < min_profit {
        return None;
    }
    Some(LiquidationQuote { max_repay_amount, estimated_profit })
}

/// The receipt produced when the best intent's capital was used in full:
/// one capital-usage line naming the submitting peer.
pub fn execution_receipt_for(
    opp_id: String,
    best: &IntentData,
    block_number: u64,
    tx_hash: String,
    total_proceeds: u64,
    gas_paid_usdc: u64,
    profit_share: u64,
) -> (r: AaveLiquidationReceipt)
    ensures
        r.opp_id == opp_id,
        r.status is Success,
        r.block_number == block_number,
        r.tx_hash == tx_hash,
        r.used_amounts@.len() == 1,
        r.used_amounts@[0].node_id == best.submitter_node,
        r.used_amounts@[0].asset == best.intent.asset,
        r.used_amounts@[0].amount_used == best.intent.max_amount,
        r.used_amounts@[0].profit_share == profit_share,
        r.total_proceeds == total_proceeds,
        r.gas_paid_usdc == gas_paid_usdc,
{
    let mut used_amounts: Vec<CapitalUsage> = Vec::new();
    used_amounts.push(
        CapitalUsage {
            node_id: best.submitter_node.clone(),
            asset: best.intent.asset.clone(),
            amount_used: best.intent.max_amount,
            profit_share,
        },
    );
    AaveLiquidationReceipt {
        opp_id,
        status: ExecutionStatus::Success,
        block_number,
        tx_hash,
        used_amounts,
        total_proceeds,
        gas_paid_usdc,
    }
}

} // verus!
