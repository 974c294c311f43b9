//! Plain data carried by the coordination protocol.
//!
//! Token amounts are held as integer base units (`u64`), block heights and
//! timestamps as `u64`, and fee rates as basis points (`u16`).  Node, asset
//! and opportunity identifiers are strings.

use vstd::prelude::*;

verus! {

/// The strategy identifier every node in this pool coordinates on.
pub open spec fn aave_strategy_id() -> Seq<char> {
    "aave-liquidation"@
}

/// Compares a strategy identifier against [`aave_strategy_id`].
pub fn strategy_id_matches(s: &String) -> (r: bool)
    ensures
        r == (s@ == aave_strategy_id()),
{
    let lit: String = "aave-liquidation".to_owned();
    *s == lit
}

/// The roles a node may hold; a node may hold several at once.
#[derive(Clone, Copy, PartialEq, Eq, Structural, Debug)]
pub enum NodeRole {
    Finder,
    CapitalProvider,
    Executor,
}

/// A node's self-description, exchanged in announcements.
pub struct NodeInfo {
    pub node_id: String,
    pub app_version: String,
    pub roles: Vec<NodeRole>,
    pub capital_assets: Vec<String>,
}

/// Per-strategy tuning parameters.
#[derive(Clone, Copy, Debug)]
pub struct StrategyConfig {
    pub min_profit_usd: u64,
    pub max_gas_price_gwei: u64,
    pub execution_deadline_blocks: u64,
}

/// Failures a strategy implementation may report.
pub enum StrategyError {
    InitializationFailed(String),
    ExecutionFailed(String),
    InvalidConfiguration(String),
}

/// Local node policy: enabled roles, fee rates and thresholds.
pub struct NodeConfig {
    pub node_id: String,
    pub publisher: String,
    pub enabled_strategies: Vec<String>,
    pub finder_enabled: bool,
    pub capital_provider_enabled: bool,
    pub executor_enabled: bool,
    pub finder_fee_bps: u16,
    pub executor_fee_bps: u16,
    pub min_profit_threshold_usd: u64,
    pub max_gas_price_gwei: u64,
    pub aave_pool_address: String,
}

impl NodeConfig {
    /// Fee rates must stay within [0, 10000] basis points.
    pub open spec fn wf(self) -> bool {
        self.finder_fee_bps <= 10000 && self.executor_fee_bps <= 10000
    }
}

impl Default for NodeConfig {
    /// The stock configuration of a freshly installed node: all three roles
    /// on, a 1% finder fee, a 0.5% executor fee, and a ten-dollar minimum
    /// profit threshold (18-decimal fixed point).
    fn default() -> (r: Self)
        ensures
            r.node_id@ == Seq::<char>::empty(),
            r.publisher@ == "skeleton.os"@,
            r.enabled_strategies@.len() == 1,
            r.enabled_strategies@[0]@ == aave_strategy_id(),
            r.finder_enabled && r.capital_provider_enabled && r.executor_enabled,
            r.finder_fee_bps == 100,
            r.executor_fee_bps == 50,
            r.min_profit_threshold_usd == 10000000000000000000u64,
            r.max_gas_price_gwei == 50,
            r.aave_pool_address@ == "0x87870bE17b9C61bE44b13bc108ad8E2C16684e78"@,
            r.wf(),
    {
        let mut strategies: Vec<String> = Vec::new();
        strategies.push("aave-liquidation".to_owned());
        NodeConfig {
            node_id: String::new(),
            publisher: "skeleton.os".to_owned(),
            enabled_strategies: strategies,
            finder_enabled: true,
            capital_provider_enabled: true,
            executor_enabled: true,
            finder_fee_bps: 100,
            executor_fee_bps: 50,
            min_profit_threshold_usd: 10000000000000000000u64,
            max_gas_price_gwei: 50,
            aave_pool_address: "0x87870bE17b9C61bE44b13bc108ad8E2C16684e78".to_owned(),
        }
    }
}

/// A settlement's financial summary, as carried on an execution receipt.
pub struct ProceedsBreakdown {
    pub asset: String,
    pub total: u64,
    pub gas_cost_usd: u64,
    pub finder_fee: u64,
    pub executor_fee: u64,
    pub net_profit: u64,
}

impl Clone for ProceedsBreakdown {
    fn clone(&self) -> (r: Self)
        ensures
            r == *self,
    {
        ProceedsBreakdown {
            asset: self.asset.clone(),
            total: self.total,
            gas_cost_usd: self.gas_cost_usd,
            finder_fee: self.finder_fee,
            executor_fee: self.executor_fee,
            net_profit: self.net_profit,
        }
    }
}

/// A detected profit opportunity: an unhealthy loan position that can be
/// liquidated before `deadline_block`.
pub struct AaveLiquidationOpportunity {
    pub opp_id: String,
    pub victim_address: String,
    pub repay_asset: String,
    pub seize_asset: String,
    pub max_repay_amount: u64,
    pub min_bonus_bps: u16,
    pub health_factor: u64,
    pub deadline_block: u64,
    pub estimated_profit_usd: u64,
}

impl AaveLiquidationOpportunity {
    /// An opportunity lapses strictly after its deadline block.
    pub fn is_expired(&self, current_block: u64) -> (r: bool)
        ensures
            r == (current_block > self.deadline_block),
    {
        current_block > self.deadline_block
    }
}

impl Clone for AaveLiquidationOpportunity {
    fn clone(&self) -> (r: Self)
        ensures
            r == *self,
    {
        AaveLiquidationOpportunity {
            opp_id: self.opp_id.clone(),
            victim_address: self.victim_address.clone(),
            repay_asset: self.repay_asset.clone(),
            seize_asset: self.seize_asset.clone(),
            max_repay_amount: self.max_repay_amount,
            min_bonus_bps: self.min_bonus_bps,
            health_factor: self.health_factor,
            deadline_block: self.deadline_block,
            estimated_profit_usd: self.estimated_profit_usd,
        }
    }
}

/// A peer's binding commitment of capital to one opportunity.
pub struct AaveLiquidationIntent {
    pub opp_id: String,
    pub asset: String,
    pub max_amount: u64,
    pub min_bonus_bps: u16,
    pub expires_block: u64,
}

impl Clone for AaveLiquidationIntent {
    fn clone(&self) -> (r: Self)
        ensures
            r == *self,
    {
        AaveLiquidationIntent {
            opp_id: self.opp_id.clone(),
            asset: self.asset.clone(),
            max_amount: self.max_amount,
            min_bonus_bps: self.min_bonus_bps,
            expires_block: self.expires_block,
        }
    }
}

/// The terminal or pending outcome of executing an opportunity.
pub enum ExecutionStatus {
    Success,
    Failed(String),
    Pending,
}

impl Clone for ExecutionStatus {
    fn clone(&self) -> (r: Self)
        ensures
            r == *self,
    {
        match self {
            ExecutionStatus::Success => ExecutionStatus::Success,
            ExecutionStatus::Failed(reason) => ExecutionStatus::Failed(reason.clone()),
            ExecutionStatus::Pending => ExecutionStatus::Pending,
        }
    }
}

/// One peer's capital used in an execution and the profit share owed to it.
pub struct CapitalUsage {
    pub node_id: String,
    pub asset: String,
    pub amount_used: u64,
    pub profit_share: u64,
}

impl Clone for CapitalUsage {
    fn clone(&self) -> (r: Self)
        ensures
            r == *self,
    {
        CapitalUsage {
            node_id: self.node_id.clone(),
            asset: self.asset.clone(),
            amount_used: self.amount_used,
            profit_share: self.profit_share,
        }
    }
}

/// The settlement record produced after an opportunity is executed (or fails).
pub struct AaveLiquidationReceipt {
    pub opp_id: String,
    pub status: ExecutionStatus,
    pub block_number: u64,
    pub tx_hash: String,
    pub used_amounts: Vec<CapitalUsage>,
    pub total_proceeds: u64,
    pub gas_paid_usdc: u64,
}

impl Clone for AaveLiquidationReceipt {
    fn clone(&self) -> (r: Self)
        ensures
            r.opp_id == self.opp_id,
            r.status == self.status,
            r.block_number == self.block_number,
            r.tx_hash == self.tx_hash,
            r.used_amounts@ == self.used_amounts@,
            r.total_proceeds == self.total_proceeds,
            r.gas_paid_usdc == self.gas_paid_usdc,
    {
        let used = self.used_amounts.clone();
        proof {
            assert(used@ =~= self.used_amounts@);
        }
        AaveLiquidationReceipt {
            opp_id: self.opp_id.clone(),
            status: self.status.clone(),
            block_number: self.block_number,
            tx_hash: self.tx_hash.clone(),
            used_amounts: used,
            total_proceeds: self.total_proceeds,
            gas_paid_usdc: self.gas_paid_usdc,
        }
    }
}

/// A stored opportunity together with where and when it was learned of.
pub struct OpportunityData {
    pub opportunity: AaveLiquidationOpportunity,
    pub strategy_id: String,
    pub finder_node: String,
    pub received_at: u64,
}

/// A stored intent together with who submitted it and when.
pub struct IntentData {
    pub intent: AaveLiquidationIntent,
    pub submitter_node: String,
    pub max_amount: u64,
    pub expires_block: u64,
    pub received_at: u64,
}

impl Clone for IntentData {
    fn clone(&self) -> (r: Self)
        ensures
            r == *self,
    {
        IntentData {
            intent: self.intent.clone(),
            submitter_node: self.submitter_node.clone(),
            max_amount: self.max_amount,
            expires_block: self.expires_block,
            received_at: self.received_at,
        }
    }
}

/// A stored receipt together with this node's computed proceeds share.
pub struct ReceiptData {
    pub receipt: AaveLiquidationReceipt,
    pub executor_node: String,
    pub our_proceeds: u64,
    pub verified_at: u64,
}

/// A loan position being watched for liquidation eligibility.
pub struct PositionData {
    pub borrower: String,
    pub collateral_asset: String,
    pub debt_asset: String,
    pub last_health_factor: u64,
    pub last_updated: u64,
}

/// A monitored position as read back from the chain.
pub struct UserPosition {
    pub user: String,
    pub collateral_asset: String,
    pub debt_asset: String,
    pub collateral_amount: u64,
    pub debt_amount: u64,
    pub health_factor: u64,
    pub last_updated_block: u64,
}

/// Liquidation-strategy state: watched positions and the health-factor
/// threshold below which a position is worth monitoring.
pub struct AaveStrategyConfig {
    pub monitored_positions: Vec<PositionData>,
    pub subscription_ids: Vec<u64>,
    pub min_health_factor: u64,
}

impl Default for AaveStrategyConfig {
    fn default() -> (r: Self)
        ensures
            r.monitored_positions@.len() == 0,
            r.subscription_ids@.len() == 0,
            r.min_health_factor == 0,
    {
        AaveStrategyConfig {
            monitored_positions: Vec::new(),
            subscription_ids: Vec::new(),
            min_health_factor: 0,
        }
    }
}

/// A typed failure reported to a status-API caller.
#[derive(Debug)]
pub enum ApiError {
    /// The amount string is not a decimal integer that fits the ledger.
    InvalidAmount,
    /// The asset string is not a well-formed address.
    InvalidAsset,
    /// A fee rate lies outside [0, 10000] basis points.
    FeeOutOfRange,
    /// A node may not register itself as a peer.
    SelfPeer,
    /// A deposit would overflow the per-asset balance.
    BalanceOverflow,
}

/// The failure returned when a reservation exceeds uncommitted capital.
#[derive(Debug)]
pub struct InsufficientCapital;

} // verus!
