//! The role-driven coordination engine of one node.
//!
//! [`HyperMevApp`] owns the four stores and the capital ledger and mutates
//! them only through the handlers here, which the host calls one at a time
//! (single-writer per node).  Handlers return the outbound sends and
//! execution requests they decide on; the host performs them and may drop
//! any of them without harming the bookkeeping.

use vstd::prelude::*;

use crate::assoc::{find_by, lemma_find_at_index, lemma_find_none, unique_keys};
use crate::intents::IntentStore;
use crate::ledger::CapitalLedger;
use crate::messages::{broadcast, send_to, Outbound, WireMessage};
use crate::opportunities::OpportunityStore;
use crate::peers::PeerRegistry;
use crate::receipts::ReceiptStore;
use crate::types::{AaveStrategyConfig, ApiError, NodeConfig, NodeInfo, NodeRole};

verus! {

/// Capital this node has set aside for one opportunity.  A released
/// reservation keeps its record with amount zero, so an opportunity id can
/// never be reserved twice.
pub struct Reservation {
    pub opp_id: String,
    pub asset: String,
    pub amount: u64,
    pub expires_block: u64,
}

/// The key of a reservation: its opportunity id.
pub open spec fn reservation_key() -> spec_fn(Reservation) -> Seq<char> {
    |r: Reservation| r.opp_id@
}

/// What reservation `r` contributes to the committed balance of `asset`.
pub open spec fn reservation_contrib(r: Reservation, asset: Seq<char>) -> int {
    if r.asset@ == asset {
        r.amount as int
    } else {
        0
    }
}

/// The capital reserved across `s` for `asset`.
pub open spec fn reserved_total(s: Seq<Reservation>, asset: Seq<char>) -> int
    decreases s.len(),
{
    if s.len() == 0 {
        0
    } else {
        reserved_total(s.drop_last(), asset) + reservation_contrib(s.last(), asset)
    }
}

proof fn lemma_reserved_total_nonneg(s: Seq<Reservation>, asset: Seq<char>)
    ensures
        reserved_total(s, asset) >= 0,
    decreases s.len(),
{
    if s.len() > 0 {
        lemma_reserved_total_nonneg(s.drop_last(), asset);
    }
}

proof fn lemma_reserved_total_push(s: Seq<Reservation>, r: Reservation, asset: Seq<char>)
    ensures
        reserved_total(s.push(r), asset) == reserved_total(s, asset) + reservation_contrib(
            r,
            asset,
        ),
{
    assert(s.push(r).drop_last() =~= s);
}

proof fn lemma_reserved_total_update(s: Seq<Reservation>, i: int, r: Reservation, asset: Seq<char>)
    requires
        0 <= i < s.len(),
    ensures
        reserved_total(s.update(i, r), asset) == reserved_total(s, asset) - reservation_contrib(
            s[i],
            asset,
        ) + reservation_contrib(r, asset),
    decreases s.len(),
{
    let u = s.update(i, r);
    if i == s.len() - 1 {
        assert(u.drop_last() =~= s.drop_last());
        assert(u.last() == r);
    } else {
        assert(u.drop_last() =~= s.drop_last().update(i, r));
        assert(u.last() == s.last());
        lemma_reserved_total_update(s.drop_last(), i, r, asset);
    }
}

/// A reservation's amount is part of the reserved total for its asset.
proof fn lemma_reservation_le_total(s: Seq<Reservation>, i: int, asset: Seq<char>)
    requires
        0 <= i < s.len(),
        s[i].asset@ == asset,
    ensures
        s[i].amount <= reserved_total(s, asset),
    decreases s.len(),
{
    if i == s.len() - 1 {
        lemma_reserved_total_nonneg(s.drop_last(), asset);
    } else {
        lemma_reservation_le_total(s.drop_last(), i, asset);
    }
}

/// A read-only summary of the node for the status surface.
pub struct StatusSnapshot {
    pub node_id: String,
    pub active_strategy: Option<String>,
    pub peer_count: usize,
    pub opportunity_count: usize,
    pub intent_count: usize,
    pub receipt_count: usize,
    pub finder_enabled: bool,
    pub capital_provider_enabled: bool,
    pub executor_enabled: bool,
    pub finder_fee_bps: u16,
    pub executor_fee_bps: u16,
    pub min_profit_threshold_usd: u64,
    pub max_gas_price_gwei: u64,
}

/// The roles a configuration enables, in declaration order.
pub open spec fn spec_enabled_roles(c: NodeConfig) -> Seq<NodeRole> {
    (if c.finder_enabled {
        seq![NodeRole::Finder]
    } else {
        Seq::<NodeRole>::empty()
    }) + (if c.capital_provider_enabled {
        seq![NodeRole::CapitalProvider]
    } else {
        Seq::<NodeRole>::empty()
    }) + (if c.executor_enabled {
        seq![NodeRole::Executor]
    } else {
        Seq::<NodeRole>::empty()
    })
}

/// Per-node state of the coordination engine.
pub struct HyperMevApp {
    pub node_config: NodeConfig,
    pub active_strategy: Option<String>,
    pub known_peers: PeerRegistry,
    pub active_opportunities: OpportunityStore,
    pub submitted_intents: IntentStore,
    pub execution_receipts: ReceiptStore,
    pub ledger: CapitalLedger,
    pub reservations: Vec<Reservation>,
    pub aave_strategy_config: AaveStrategyConfig,
}

impl HyperMevApp {
    /// Well-formed: every component is well-formed, reservations are unique
    /// per opportunity id, and the capital reserved for open opportunities
    /// is covered by the ledger's committed balances.
    pub open spec fn wf(self) -> bool {
        &&& self.node_config.wf()
        &&& self.known_peers.wf()
        &&& self.active_opportunities.wf()
        &&& self.submitted_intents.wf()
        &&& self.execution_receipts.wf()
        &&& self.ledger.wf()
        &&& unique_keys(self.reservations@, reservation_key())
        &&& forall|a: Seq<char>|
            #[trigger] reserved_total(self.reservations@, a) <= self.ledger.spec_committed(a)
    }

    /// The reservation standing for opportunity `opp`, if any.
    pub open spec fn spec_reservation(self, opp: Seq<char>) -> Option<Reservation> {
        find_by(self.reservations@, reservation_key(), opp)
    }

    /// A fresh node: stock configuration under the given identity, all
    /// stores empty, and a demonstration balance of 10,000 USDC.
    pub fn initialize(node_id: String) -> (r: HyperMevApp)
        ensures
            r.wf(),
            r.node_config.node_id == node_id,
            r.node_config.finder_enabled && r.node_config.capital_provider_enabled
                && r.node_config.executor_enabled,
            r.active_strategy is Some && r.active_strategy->0@ == crate::types::aave_strategy_id(),
            r.known_peers.peers@.len() == 0,
            r.active_opportunities.items@.len() == 0,
            r.submitted_intents.lists@.len() == 0,
            r.execution_receipts.items@.len() == 0,
            r.reservations@.len() == 0,
            r.ledger.spec_available("0xA0b86991c6218b36c1d19D4a2e9Eb0cE3606eB48"@)
                == 10000000000u64,
            r.aave_strategy_config.min_health_factor == 100000000000000000u64,
    {
        let mut node_config = NodeConfig::default();
        node_config.node_id = node_id;
        let mut ledger = CapitalLedger::new();
        let usdc: String = "0xA0b86991c6218b36c1d19D4a2e9Eb0cE3606eB48".to_owned();
        match ledger.deposit(&usdc, 10000000000) {
            Ok(()) => {},
            Err(_) => {
                proof {
                    assert(false);
                }
            },
        }
        let mut aave_strategy_config = AaveStrategyConfig::default();
        aave_strategy_config.min_health_factor = 100000000000000000;
        let r = HyperMevApp {
            node_config,
            active_strategy: Some("aave-liquidation".to_owned()),
            known_peers: PeerRegistry::new(),
            active_opportunities: OpportunityStore::new(),
            submitted_intents: IntentStore::new(),
            execution_receipts: ReceiptStore::new(),
            ledger,
            reservations: Vec::new(),
            aave_strategy_config,
        };
        r
    }

    /// A snapshot of the node for the status surface.
    pub fn get_node_status(&self) -> (r: StatusSnapshot)
        ensures
            r.node_id == self.node_config.node_id,
            r.active_strategy == self.active_strategy,
            r.peer_count == self.known_peers.peers@.len(),
            r.opportunity_count == self.active_opportunities.items@.len(),
            r.intent_count == self.submitted_intents.lists@.len(),
            r.receipt_count == self.execution_receipts.items@.len(),
            r.finder_enabled == self.node_config.finder_enabled,
            r.capital_provider_enabled == self.node_config.capital_provider_enabled,
            r.executor_enabled == self.node_config.executor_enabled,
            r.finder_fee_bps == self.node_config.finder_fee_bps,
            r.executor_fee_bps == self.node_config.executor_fee_bps,
            r.min_profit_threshold_usd == self.node_config.min_profit_threshold_usd,
            r.max_gas_price_gwei == self.node_config.max_gas_price_gwei,
    {
        StatusSnapshot {
            node_id: self.node_config.node_id.clone(),
            active_strategy: match &self.active_strategy {
                Some(s) => Some(s.clone()),
                None => None,
            },
            peer_count: self.known_peers.len(),
            opportunity_count: self.active_opportunities.len(),
            intent_count: self.submitted_intents.len(),
            receipt_count: self.execution_receipts.len(),
            finder_enabled: self.node_config.finder_enabled,
            capital_provider_enabled: self.node_config.capital_provider_enabled,
            executor_enabled: self.node_config.executor_enabled,
            finder_fee_bps: self.node_config.finder_fee_bps,
            executor_fee_bps: self.node_config.executor_fee_bps,
            min_profit_threshold_usd: self.node_config.min_profit_threshold_usd,
            max_gas_price_gwei: self.node_config.max_gas_price_gwei,
        }
    }

    /// The stored opportunities, for the status surface.
    pub fn get_opportunities(&self) -> (r: &Vec<crate::types::OpportunityData>)
        ensures
            r == &self.active_opportunities.items,
    {
        self.active_opportunities.all()
    }

    /// The stored receipts, for the status surface.
    pub fn get_execution_receipts(&self) -> (r: &Vec<crate::types::ReceiptData>)
        ensures
            r == &self.execution_receipts.items,
    {
        self.execution_receipts.all()
    }

    /// The node's configuration, for the status surface.
    pub fn get_node_config(&self) -> (r: &NodeConfig)
        ensures
            r == &self.node_config,
    {
        &self.node_config
    }

    /// The roles this node's configuration enables.
    pub fn get_enabled_roles(&self) -> (r: Vec<NodeRole>)
        ensures
            r@ == spec_enabled_roles(self.node_config),
    {
        let mut roles: Vec<NodeRole> = Vec::new();
        if self.node_config.finder_enabled {
            roles.push(NodeRole::Finder);
        }
        if self.node_config.capital_provider_enabled {
            roles.push(NodeRole::CapitalProvider);
        }
        if self.node_config.executor_enabled {
            roles.push(NodeRole::Executor);
        }
        proof {
            assert(roles@ =~= spec_enabled_roles(self.node_config));
        }
        roles
    }

    /// This node's announcement, addressed to one peer.
    pub fn announce_to_peer(&self, peer: &String, now: u64) -> (r: Outbound)
        ensures
            r.targets@.len() == 1,
            r.targets@[0]@ == peer@,
            r.message matches WireMessage::NodeAnnouncement { node_info, capabilities, timestamp }
                && node_info.node_id == self.node_config.node_id && node_info.roles@
                == spec_enabled_roles(self.node_config) && capabilities@
                == self.node_config.enabled_strategies@ && node_info.capital_assets@.len()
                == self.ledger.entries@.len() && (forall|i: int|
                0 <= i < node_info.capital_assets@.len() ==> node_info.capital_assets@[i]@
                    == self.ledger.entries@[i].asset@) && timestamp == now,
    {
        let node_info = NodeInfo {
            node_id: self.node_config.node_id.clone(),
            app_version: "0.1.0".to_owned(),
            roles: self.get_enabled_roles(),
            capital_assets: self.ledger.assets(),
        };
        let capabilities = clone_strings(&self.node_config.enabled_strategies);
        send_to(
            peer,
            WireMessage::NodeAnnouncement { node_info, capabilities, timestamp: now },
        )
    }

    /// Registers a peer by hand and greets it.  A node may not connect to
    /// itself; that is the only failure.
    pub fn connect_to_peer(&mut self, peer: String, now: u64) -> (r: Result<Outbound, ApiError>)
        requires
            old(self).wf(),
        ensures
            final(self).wf(),
            r is Err <==> peer@ == old(self).node_config.node_id@,
            r matches Err(e) ==> e is SelfPeer && *final(self) == *old(self),
            r is Ok ==> {
                &&& final(self).known_peers.spec_contains(peer@)
                &&& forall|q: Seq<char>|
                    q != peer@ ==> final(self).known_peers.spec_contains(q) == old(self).known_peers.spec_contains(q)
                &&& final(self).node_config == old(self).node_config
                &&& final(self).ledger == old(self).ledger
                &&& final(self).active_opportunities == old(self).active_opportunities
                &&& final(self).submitted_intents == old(self).submitted_intents
                &&& final(self).execution_receipts == old(self).execution_receipts
                &&& final(self).reservations == old(self).reservations
            },
            r matches Ok(out) ==> out.targets@.len() == 1 && out.targets@[0]@ == peer@
                && out.message is NodeAnnouncement,
    {
        if peer == self.node_config.node_id {
            return Err(ApiError::SelfPeer);
        }
        self.known_peers.insert(&peer);
        Ok(self.announce_to_peer(&peer, now))
    }

    /// Handles a peer's announcement: records the peer and answers with
    /// this node's own announcement.
    pub fn receive_node_announcement(&mut self, node_info: NodeInfo, now: u64) -> (r: Outbound)
        requires
            old(self).wf(),
        ensures
            final(self).wf(),
            final(self).known_peers.spec_contains(node_info.node_id@),
            forall|q: Seq<char>|
                q != node_info.node_id@ ==> final(self).known_peers.spec_contains(q) == old(self).known_peers.spec_contains(q),
            final(self).node_config == old(self).node_config,
            final(self).ledger == old(self).ledger,
            final(self).active_opportunities == old(self).active_opportunities,
            final(self).submitted_intents == old(self).submitted_intents,
            final(self).execution_receipts == old(self).execution_receipts,
            final(self).reservations == old(self).reservations,
            r.targets@.len() == 1 && r.targets@[0]@ == node_info.node_id@,
            r.message is NodeAnnouncement,
    {
        self.known_peers.insert(&node_info.node_id);
        self.announce_to_peer(&node_info.node_id, now)
    }
}

/// A partial configuration change from the status surface; absent fields
/// keep their current values.
pub struct ConfigUpdate {
    pub finder_enabled: Option<bool>,
    pub capital_provider_enabled: Option<bool>,
    pub executor_enabled: Option<bool>,
    pub finder_fee_bps: Option<u16>,
    pub executor_fee_bps: Option<u16>,
    pub min_profit_threshold_usd: Option<String>,
    pub max_gas_price_gwei: Option<String>,
}

/// An absent or in-range fee override.
pub open spec fn spec_fee_ok(f: Option<u16>) -> bool {
    match f {
        None => true,
        Some(v) => v <= 10000,
    }
}

/// An absent or well-formed decimal amount override.
pub open spec fn spec_amount_ok(s: Option<String>) -> bool {
    match s {
        None => true,
        Some(t) => t@.len() > 0 && crate::validation::all_dec_digits(t@)
            && crate::validation::dec_value(t@) <= u64::MAX,
    }
}

/// The value an override leaves in place.
pub open spec fn spec_override<T>(o: Option<T>, current: T) -> T {
    match o {
        Some(v) => v,
        None => current,
    }
}

impl HyperMevApp {
    /// Applies a partial configuration update.  Fee rates outside
    /// [0, 10000] basis points and amount strings that are not decimal
    /// integers are rejected, and a rejected update changes nothing.
    pub fn update_node_config(&mut self, update: ConfigUpdate) -> (r: Result<(), ApiError>)
        requires
            old(self).wf(),
        ensures
            final(self).wf(),
            r is Ok <==> spec_fee_ok(update.finder_fee_bps) && spec_fee_ok(
                update.executor_fee_bps,
            ) && spec_amount_ok(update.min_profit_threshold_usd) && spec_amount_ok(
                update.max_gas_price_gwei,
            ),
            r matches Err(e) ==> *final(self) == *old(self) && (if !spec_fee_ok(
                update.finder_fee_bps,
            ) || !spec_fee_ok(update.executor_fee_bps) {
                e is FeeOutOfRange
            } else {
                e is InvalidAmount
            }),
            r is Ok ==> {
                let c = final(self).node_config;
                let o = old(self).node_config;
                &&& c.finder_enabled == spec_override(update.finder_enabled, o.finder_enabled)
                &&& c.capital_provider_enabled == spec_override(
                    update.capital_provider_enabled,
                    o.capital_provider_enabled,
                )
                &&& c.executor_enabled == spec_override(update.executor_enabled, o.executor_enabled)
                &&& c.finder_fee_bps == spec_override(update.finder_fee_bps, o.finder_fee_bps)
                &&& c.executor_fee_bps == spec_override(update.executor_fee_bps, o.executor_fee_bps)
                &&& c.min_profit_threshold_usd == (match update.min_profit_threshold_usd {
                    Some(s) => crate::validation::dec_value(s@),
                    None => o.min_profit_threshold_usd as int,
                })
                &&& c.max_gas_price_gwei == (match update.max_gas_price_gwei {
                    Some(s) => crate::validation::dec_value(s@),
                    None => o.max_gas_price_gwei as int,
                })
                &&& c.node_id == o.node_id
                &&& c.publisher == o.publisher
                &&& c.enabled_strategies == o.enabled_strategies
                &&& c.aave_pool_address == o.aave_pool_address
                &&& final(self).ledger == old(self).ledger
                &&& final(self).known_peers == old(self).known_peers
                &&& final(self).active_opportunities == old(self).active_opportunities
                &&& final(self).submitted_intents == old(self).submitted_intents
                &&& final(self).execution_receipts == old(self).execution_receipts
                &&& final(self).reservations == old(self).reservations
                &&& final(self).active_strategy == old(self).active_strategy
            },
    {
        if let Some(f) = update.finder_fee_bps {
            if f > 10000 {
                return Err(ApiError::FeeOutOfRange);
            }
        }
        if let Some(f) = update.executor_fee_bps {
            if f > 10000 {
                return Err(ApiError::FeeOutOfRange);
            }
        }
        let min_profit: Option<u64> = match &update.min_profit_threshold_usd {
            Some(s) => {
                match crate::validation::parse_amount(s.as_str()) {
                    Some(v) => Some(v),
                    None => {
                        return Err(ApiError::InvalidAmount);
                    },
                }
            },
            None => None,
        };
        let max_gas: Option<u64> = match &update.max_gas_price_gwei {
            Some(s) => {
                match crate::validation::parse_amount(s.as_str()) {
                    Some(v) => Some(v),
                    None => {
                        return Err(ApiError::InvalidAmount);
                    },
                }
            },
            None => None,
        };
        if let Some(v) = update.finder_enabled {
            self.node_config.finder_enabled = v;
        }
        if let Some(v) = update.capital_provider_enabled {
            self.node_config.capital_provider_enabled = v;
        }
        if let Some(v) = update.executor_enabled {
            self.node_config.executor_enabled = v;
        }
        if let Some(v) = update.finder_fee_bps {
            self.node_config.finder_fee_bps = v;
        }
        if let Some(v) = update.executor_fee_bps {
            self.node_config.executor_fee_bps = v;
        }
        if let Some(v) = min_profit {
            self.node_config.min_profit_threshold_usd = v;
        }
        if let Some(v) = max_gas {
            self.node_config.max_gas_price_gwei = v;
        }
        Ok(())
    }

    /// Deposits capital from the status surface.  The asset must be a
    /// well-formed address and the amount a decimal integer that the
    /// per-asset balance can still hold; a rejected deposit changes
    /// nothing.
    pub fn add_capital(&mut self, asset: String, amount: String) -> (r: Result<(), ApiError>)
        requires
            old(self).wf(),
        ensures
            final(self).wf(),
            r is Ok <==> crate::validation::spec_is_asset_address(asset@) && amount@.len() > 0
                && crate::validation::all_dec_digits(amount@) && crate::validation::dec_value(
                amount@,
            ) <= u64::MAX && old(self).ledger.spec_available(asset@)
                + crate::validation::dec_value(amount@) <= u64::MAX,
            r matches Err(e) ==> *final(self) == *old(self) && (if !crate::validation::spec_is_asset_address(
                asset@,
            ) {
                e is InvalidAsset
            } else if !(amount@.len() > 0 && crate::validation::all_dec_digits(amount@)
                && crate::validation::dec_value(amount@) <= u64::MAX) {
                e is InvalidAmount
            } else {
                e is BalanceOverflow
            }),
            r is Ok ==> {
                &&& final(self).ledger.spec_available(asset@) == old(self).ledger.spec_available(
                    asset@,
                ) + crate::validation::dec_value(amount@)
                &&& final(self).ledger.spec_committed(asset@) == old(self).ledger.spec_committed(
                    asset@,
                )
                &&& forall|a: Seq<char>|
                    a != asset@ ==> final(self).ledger.agrees_at(old(self).ledger, a)
                &&& final(self).node_config == old(self).node_config
                &&& final(self).known_peers == old(self).known_peers
                &&& final(self).active_opportunities == old(self).active_opportunities
                &&& final(self).submitted_intents == old(self).submitted_intents
                &&& final(self).execution_receipts == old(self).execution_receipts
                &&& final(self).reservations == old(self).reservations
            },
    {
        if !crate::validation::is_asset_address(asset.as_str()) {
            return Err(ApiError::InvalidAsset);
        }
        let value = match crate::validation::parse_amount(amount.as_str()) {
            Some(v) => v,
            None => {
                return Err(ApiError::InvalidAmount);
            },
        };
        match self.ledger.deposit(&asset, value) {
            Ok(()) => {
                proof {
                    assert forall|a: Seq<char>|
                        #[trigger] reserved_total(self.reservations@, a)
                            <= self.ledger.spec_committed(a) by {
                        if a != asset@ {
                            assert(self.ledger.agrees_at(old(self).ledger, a));
                        }
                    }
                }
                Ok(())
            },
            Err(e) => Err(e),
        }
    }

    /// This node's share of a settlement's net profit, §4.6: proportional
    /// to the capital it contributed relative to the total capital used.
    pub fn calculate_our_proceeds_share(
        &self,
        proceeds: &crate::types::ProceedsBreakdown,
        contributed: u64,
        total_used: u64,
    ) -> (r: u64)
        ensures
            r == crate::shares::spec_share(proceeds.net_profit, contributed, total_used),
            r <= proceeds.net_profit,
    {
        crate::shares::share_of(proceeds.net_profit, contributed, total_used)
    }

    /// The index of the reservation for `opp`, pinned down exactly.
    fn find_reservation(&self, opp: &String) -> (r: Option<usize>)
        ensures
            match r {
                Some(i) => {
                    &&& i < self.reservations@.len()
                    &&& self.reservations@[i as int].opp_id@ == opp@
                    &&& self.spec_reservation(opp@) == Some(self.reservations@[i as int])
                },
                None => self.spec_reservation(opp@) is None,
            },
    {
        let n = self.reservations.len();
        let mut i: usize = 0;
        while i < n
            invariant
                n == self.reservations@.len(),
                0 <= i <= n,
                forall|j: int| 0 <= j < i ==> self.reservations@[j].opp_id@ != opp@,
            decreases n - i,
        {
            if self.reservations[i].opp_id == *opp {
                proof {
                    lemma_find_at_index(self.reservations@, reservation_key(), opp@, i as int);
                }
                return Some(i);
            }
            i = i + 1;
        }
        proof {
            lemma_find_none(self.reservations@, reservation_key(), opp@);
        }
        None
    }
}

impl HyperMevApp {
    /// Whether this node, as a capital provider, will commit capital to
    /// `opp`: the role is enabled, the strategy is the one this pool
    /// coordinates on, the opportunity is neither expired nor settled nor
    /// already reserved for, the uncommitted capital covers the full repay
    /// amount, and the estimated profit clears the configured threshold.
    pub open spec fn spec_eligible(
        self,
        opp: crate::types::AaveLiquidationOpportunity,
        strategy_id: Seq<char>,
        current_block: u64,
    ) -> bool {
        &&& self.node_config.capital_provider_enabled
        &&& strategy_id == crate::types::aave_strategy_id()
        &&& !(current_block > opp.deadline_block)
        &&& !self.execution_receipts.spec_has(opp.opp_id@)
        &&& self.spec_reservation(opp.opp_id@) is None
        &&& self.ledger.spec_available(opp.repay_asset@) - self.ledger.spec_committed(
            opp.repay_asset@,
        ) >= opp.max_repay_amount
        &&& opp.estimated_profit_usd >= self.node_config.min_profit_threshold_usd
    }

    /// Whether evaluating the stored opportunity `opp` will submit an
    /// intent.
    pub open spec fn spec_will_submit(self, opp: Seq<char>, current_block: u64) -> bool {
        &&& self.active_opportunities.spec_get(opp) is Some
        &&& self.spec_eligible(
            self.active_opportunities.spec_get(opp)->0.opportunity,
            self.active_opportunities.spec_get(opp)->0.strategy_id@,
            current_block,
        )
    }

    /// Evaluates a stored opportunity as a capital provider.  When
    /// eligible (see [`Self::spec_eligible`]) it reserves the full repay
    /// amount, records the reservation, and returns the intent broadcast;
    /// otherwise the opportunity is silently skipped and nothing changes.
    pub fn evaluate_and_submit_intent(&mut self, opp_id: &String, current_block: u64) -> (r:
        Option<Outbound>)
        requires
            old(self).wf(),
        ensures
            final(self).wf(),
            final(self).node_config == old(self).node_config,
            final(self).known_peers == old(self).known_peers,
            final(self).active_opportunities == old(self).active_opportunities,
            final(self).submitted_intents == old(self).submitted_intents,
            final(self).execution_receipts == old(self).execution_receipts,
            final(self).active_strategy == old(self).active_strategy,
            r is Some <==> old(self).spec_will_submit(opp_id@, current_block),
            r is None ==> *final(self) == *old(self),
            r is Some ==> ({
                let opp = old(self).active_opportunities.spec_get(opp_id@)->0.opportunity;
                &&& final(self).ledger.spec_committed(opp.repay_asset@) == old(self).ledger.spec_committed(opp.repay_asset@) + opp.max_repay_amount
                &&& final(self).ledger.spec_available(opp.repay_asset@) == old(self).ledger.spec_available(opp.repay_asset@)
                &&& forall|a: Seq<char>|
                    a != opp.repay_asset@ ==> final(self).ledger.agrees_at(old(self).ledger, a)
                &&& final(self).reservations@.len() == old(self).reservations@.len() + 1
                &&& final(self).reservations@.drop_last() == old(self).reservations@
                &&& final(self).reservations@.last().opp_id@ == opp_id@
                &&& final(self).reservations@.last().asset@ == opp.repay_asset@
                &&& final(self).reservations@.last().amount == opp.max_repay_amount
                &&& final(self).reservations@.last().expires_block == opp.deadline_block
            }),
            r matches Some(out) ==> ({
                let opp = old(self).active_opportunities.spec_get(opp_id@)->0.opportunity;
                &&& out.targets@ == old(self).known_peers.peers@
                &&& out.message matches WireMessage::IntentSubmission {
                    opp_id: mid,
                    strategy_id,
                    intent,
                    max_amount,
                    min_bonus_bps,
                    expires_block,
                } && mid@ == opp_id@ && strategy_id@ == crate::types::aave_strategy_id()
                    && intent.opp_id@ == opp_id@ && intent.asset@ == opp.repay_asset@
                    && intent.max_amount == opp.max_repay_amount && intent.min_bonus_bps
                    == opp.min_bonus_bps && intent.expires_block == opp.deadline_block
                    && max_amount == intent.max_amount && min_bonus_bps == opp.min_bonus_bps
                    && expires_block == opp.deadline_block
            }),
    {
        if !self.node_config.capital_provider_enabled {
            return None;
        }
        let opp = match self.active_opportunities.get(opp_id) {
            Some(d) => {
                if !crate::types::strategy_id_matches(&d.strategy_id) {
                    return None;
                }
                d.opportunity.clone()
            },
            None => {
                return None;
            },
        };
        if opp.is_expired(current_block) {
            return None;
        }
        if self.execution_receipts.has(opp_id) {
            return None;
        }
        if self.find_reservation(opp_id).is_some() {
            return None;
        }
        let available = self.ledger.available_of(&opp.repay_asset);
        let free = self.ledger.free_of(&opp.repay_asset);
        if free < opp.max_repay_amount {
            return None;
        }
        if opp.estimated_profit_usd < self.node_config.min_profit_threshold_usd {
            return None;
        }
        match self.ledger.reserve(&opp.repay_asset, opp.max_repay_amount) {
            Ok(()) => {},
            Err(_) => {
                proof {
                    assert(false);
                }
            },
        }
        // The intent is capped at min(available, max_repay_amount); under
        // the eligibility check that minimum is the full repay amount.
        let amount = if available < opp.max_repay_amount {
            available
        } else {
            opp.max_repay_amount
        };
        let reservation = Reservation {
            opp_id: opp_id.clone(),
            asset: opp.repay_asset.clone(),
            amount: opp.max_repay_amount,
            expires_block: opp.deadline_block,
        };
        let ghost pre = self.reservations@;
        let ghost res = reservation;
        proof {
            crate::assoc::lemma_none_no_match(pre, reservation_key(), opp_id@);
        }
        self.reservations.push(reservation);
        proof {
            assert(self.reservations@ == pre.push(res));
            assert forall|p: int, q: int|
                0 <= p < q < self.reservations@.len() implies reservation_key()(
                self.reservations@[p],
            ) != reservation_key()(self.reservations@[q]) by {
                if q < pre.len() {
                    assert(self.reservations@[p] == pre[p] && self.reservations@[q] == pre[q]);
                } else {
                    assert(self.reservations@[p] == pre[p] && self.reservations@[q] == res);
                }
            }
            assert forall|a: Seq<char>|
                #[trigger] reserved_total(self.reservations@, a) <= self.ledger.spec_committed(
                    a,
                ) by {
                lemma_reserved_total_push(pre, res, a);
                assert(reserved_total(pre, a) <= old(self).ledger.spec_committed(a));
                if a != opp.repay_asset@ {
                    assert(self.ledger.agrees_at(old(self).ledger, a));
                }
            }
        }
        let intent = crate::types::AaveLiquidationIntent {
            opp_id: opp_id.clone(),
            asset: opp.repay_asset.clone(),
            max_amount: amount,
            min_bonus_bps: opp.min_bonus_bps,
            expires_block: opp.deadline_block,
        };
        let out = broadcast(
            &self.known_peers,
            WireMessage::IntentSubmission {
                opp_id: opp_id.clone(),
                strategy_id: "aave-liquidation".to_owned(),
                intent,
                max_amount: amount,
                min_bonus_bps: opp.min_bonus_bps,
                expires_block: opp.deadline_block,
            },
        );
        Some(out)
    }

    /// Handles an `OpportunityBroadcast` from a peer: records the
    /// opportunity idempotently, and evaluates it as a capital provider
    /// only the first time its id is seen — repeated deliveries change
    /// neither the ledger nor the stores and trigger no second intent.
    pub fn receive_opportunity_broadcast(
        &mut self,
        finder_node: String,
        strategy_id: String,
        opportunity: crate::types::AaveLiquidationOpportunity,
        current_block: u64,
        now: u64,
    ) -> (r: Option<Outbound>)
        requires
            old(self).wf(),
        ensures
            final(self).wf(),
            final(self).node_config == old(self).node_config,
            final(self).known_peers == old(self).known_peers,
            final(self).execution_receipts == old(self).execution_receipts,
            final(self).submitted_intents == old(self).submitted_intents,
            final(self).active_opportunities.spec_has(opportunity.opp_id@),
            !old(self).active_opportunities.spec_has(opportunity.opp_id@) ==> ({
                let d = final(self).active_opportunities.spec_get(opportunity.opp_id@)->0;
                d.opportunity == opportunity && d.strategy_id == strategy_id && d.finder_node
                    == finder_node && d.received_at == now
            }),
            forall|k: Seq<char>|
                k != opportunity.opp_id@ ==> final(self).active_opportunities.spec_get(k) == old(self).active_opportunities.spec_get(k),
            old(self).active_opportunities.spec_has(opportunity.opp_id@) ==> r is None && final(self).ledger == old(self).ledger && final(self).reservations == old(self).reservations,
            r is Some <==> !old(self).active_opportunities.spec_has(opportunity.opp_id@) && old(self).spec_eligible(opportunity, strategy_id@, current_block),
            r is None ==> final(self).ledger == old(self).ledger && final(self).reservations
                == old(self).reservations,
            r is Some ==> ({
                &&& final(self).ledger.spec_committed(opportunity.repay_asset@) == old(self).ledger.spec_committed(opportunity.repay_asset@) + opportunity.max_repay_amount
                &&& final(self).ledger.spec_available(opportunity.repay_asset@) == old(self).ledger.spec_available(opportunity.repay_asset@)
                &&& forall|a: Seq<char>|
                    a != opportunity.repay_asset@ ==> final(self).ledger.agrees_at(
                        old(self).ledger,
                        a,
                    )
                &&& final(self).spec_reservation(opportunity.opp_id@) matches Some(res)
                    && res.asset@ == opportunity.repay_asset@ && res.amount
                    == opportunity.max_repay_amount && res.expires_block
                    == opportunity.deadline_block
            }),
            r matches Some(out) ==> ({
                &&& out.targets@ == old(self).known_peers.peers@
                &&& out.message matches WireMessage::IntentSubmission { intent, .. }
                    && intent.opp_id@ == opportunity.opp_id@ && intent.asset@
                    == opportunity.repay_asset@ && intent.max_amount
                    == opportunity.max_repay_amount
            }),
    {
        let opp_id = opportunity.opp_id.clone();
        let data = crate::types::OpportunityData {
            opportunity,
            strategy_id,
            finder_node,
            received_at: now,
        };
        let outcome = self.active_opportunities.upsert(data);
        if !matches!(outcome, crate::opportunities::UpsertOutcome::New) {
            return None;
        }
        let r = self.evaluate_and_submit_intent(&opp_id, current_block);
        proof {
            if r is Some {
                let s = self.reservations@;
                lemma_find_at_index(s, reservation_key(), opp_id@, s.len() - 1);
            }
        }
        r
    }
}

/// This node's share of a settlement, as read off an incoming receipt:
/// zero for a malformed receipt whose usage amounts overflow, otherwise
/// the proportional share of `net` for the capital this node is listed
/// with.
pub open spec fn spec_our_share(node: Seq<char>, used: Seq<crate::types::CapitalUsage>, net: u64) -> int {
    if crate::shares::spec_total_used(used) > u64::MAX {
        0
    } else {
        crate::shares::spec_share(
            net,
            crate::shares::spec_contribution(used, node) as u64,
            crate::shares::spec_total_used(used) as u64,
        )
    }
}

impl HyperMevApp {
    /// Handles an `IntentSubmission` from a peer: records the intent
    /// (replacing any earlier intent from the same peer for the same
    /// opportunity), and as the executor selects the best intent of a
    /// known, live, unsettled opportunity for execution.
    pub fn receive_intent_submission(
        &mut self,
        submitter_node: String,
        intent: crate::types::AaveLiquidationIntent,
        max_amount: u64,
        expires_block: u64,
        current_block: u64,
        now: u64,
    ) -> (r: Option<crate::messages::ExecutionRequest>)
        requires
            old(self).wf(),
        ensures
            final(self).wf(),
            final(self).node_config == old(self).node_config,
            final(self).known_peers == old(self).known_peers,
            final(self).active_opportunities == old(self).active_opportunities,
            final(self).execution_receipts == old(self).execution_receipts,
            final(self).ledger == old(self).ledger,
            final(self).reservations == old(self).reservations,
            ({
                let before = old(self).submitted_intents.spec_intents(intent.opp_id@);
                let data = (crate::types::IntentData {
                    intent,
                    submitter_node,
                    max_amount,
                    expires_block,
                    received_at: now,
                });
                let at = crate::assoc::index_by(
                    before,
                    crate::intents::submitter_key(),
                    submitter_node@,
                );
                final(self).submitted_intents.spec_intents(intent.opp_id@) == if at >= 0 {
                    before.update(at, data)
                } else {
                    before.push(data)
                }
            }),
            forall|k: Seq<char>|
                k != intent.opp_id@ ==> final(self).submitted_intents.spec_intents(k) == old(
                    self,
                ).submitted_intents.spec_intents(k),
            r is Some <==> old(self).node_config.executor_enabled && old(
                self,
            ).active_opportunities.spec_get(intent.opp_id@) is Some && !(current_block > old(
                self,
            ).active_opportunities.spec_get(intent.opp_id@)->0.opportunity.deadline_block) && !old(
                self,
            ).execution_receipts.spec_has(intent.opp_id@),
            r matches Some(req) ==> req.opp_id@ == intent.opp_id@ && final(self).spec_carries_best(req),
    {
        let opp_id = intent.opp_id.clone();
        let data = crate::types::IntentData {
            intent,
            submitter_node,
            max_amount,
            expires_block,
            received_at: now,
        };
        self.submitted_intents.upsert(&opp_id, data);
        if !self.node_config.executor_enabled {
            return None;
        }
        match self.active_opportunities.get(&opp_id) {
            Some(d) => {
                if d.opportunity.is_expired(current_block) {
                    return None;
                }
            },
            None => {
                return None;
            },
        }
        if self.execution_receipts.has(&opp_id) {
            return None;
        }
        match self.submitted_intents.select_best(&opp_id) {
            Some(best) => Some(crate::messages::ExecutionRequest { opp_id, intent: best }),
            None => {
                proof {
                    assert(false);
                }
                None
            },
        }
    }

    /// Handles an `ExecutionReceipt`: computes this node's proceeds share
    /// from the receipt's usage lines (§4.6), stores the receipt (last
    /// write per opportunity id wins), and releases any capital this node
    /// had reserved for that opportunity, win or lose.
    pub fn receive_execution_receipt(
        &mut self,
        executor_node: String,
        receipt: crate::types::AaveLiquidationReceipt,
        proceeds: crate::types::ProceedsBreakdown,
        now: u64,
    )
        requires
            old(self).wf(),
        ensures
            final(self).wf(),
            final(self).node_config == old(self).node_config,
            final(self).known_peers == old(self).known_peers,
            final(self).active_opportunities == old(self).active_opportunities,
            final(self).submitted_intents == old(self).submitted_intents,
            final(self).active_strategy == old(self).active_strategy,
            receipt.status is Pending ==> *final(self) == *old(self),
            !(receipt.status is Pending) ==> (final(self).execution_receipts.spec_get(
                receipt.opp_id@,
            ) matches Some(d) && d.receipt == receipt && d.executor_node == executor_node
                && d.verified_at == now && d.our_proceeds == (if receipt.status is Success {
                spec_our_share(
                    old(self).node_config.node_id@,
                    receipt.used_amounts@,
                    proceeds.net_profit,
                )
            } else {
                0int
            })),
            forall|k: Seq<char>|
                k != receipt.opp_id@ ==> final(self).execution_receipts.spec_get(k) == old(
                    self,
                ).execution_receipts.spec_get(k),
            !(receipt.status is Pending) ==> (match old(self).spec_reservation(receipt.opp_id@) {
                Some(res) => {
                    &&& final(self).ledger.spec_committed(res.asset@) == old(
                        self,
                    ).ledger.spec_committed(res.asset@) - res.amount
                    &&& forall|a: Seq<char>|
                        a != res.asset@ ==> final(self).ledger.spec_committed(a) == old(
                            self,
                        ).ledger.spec_committed(a)
                    &&& forall|a: Seq<char>|
                        #[trigger] final(self).ledger.spec_available(a) == old(
                            self,
                        ).ledger.spec_available(a)
                    &&& final(self).spec_reservation(receipt.opp_id@) matches Some(z) && z.amount
                        == 0 && z.asset@ == res.asset@ && z.expires_block == res.expires_block
                    &&& forall|k: Seq<char>|
                        k != receipt.opp_id@ ==> final(self).spec_reservation(k) == old(
                            self,
                        ).spec_reservation(k)
                    &&& final(self).reservations@.len() == old(self).reservations@.len()
                },
                None => final(self).ledger == old(self).ledger && final(self).reservations == old(
                    self,
                ).reservations,
            }),
    {
        if matches!(receipt.status, crate::types::ExecutionStatus::Pending) {
            // Non-terminal: a follow-up push carries the settled outcome.
            // Nothing is recorded and no capital moves.
            return;
        }
        let opp_id = receipt.opp_id.clone();
        let success = matches!(receipt.status, crate::types::ExecutionStatus::Success);
        let our_proceeds = if success {
            match crate::shares::total_used_of(&receipt.used_amounts) {
                Some(total) => {
                    proof {
                        crate::shares::lemma_contribution_le_total(
                            receipt.used_amounts@,
                            self.node_config.node_id@,
                        );
                    }
                    let contributed = crate::shares::contribution_of(
                        &receipt.used_amounts,
                        &self.node_config.node_id,
                    );
                    crate::shares::share_of(proceeds.net_profit, contributed, total)
                },
                None => 0,
            }
        } else {
            // A failed execution yields no proceeds for anyone.
            0
        };
        self.execution_receipts.insert(
            crate::types::ReceiptData { receipt, executor_node, our_proceeds, verified_at: now },
        );
        match self.find_reservation(&opp_id) {
            Some(i) => {
                let res_asset = self.reservations[i].asset.clone();
                let res_amount = self.reservations[i].amount;
                let ghost pre = self.reservations@;
                proof {
                    lemma_reservation_le_total(pre, i as int, res_asset@);
                }
                self.ledger.release(&res_asset, res_amount);
                let zeroed = Reservation {
                    opp_id: self.reservations[i].opp_id.clone(),
                    asset: res_asset,
                    amount: 0,
                    expires_block: self.reservations[i].expires_block,
                };
                let ghost z = zeroed;
                proof {
                    assert forall|k: Seq<char>| true implies find_by(
                        pre.update(i as int, z),
                        reservation_key(),
                        k,
                    ) == if k == z.opp_id@ {
                        Some(z)
                    } else {
                        find_by(pre, reservation_key(), k)
                    } by {
                        crate::assoc::lemma_find_update(pre, reservation_key(), i as int, z, k);
                    }
                }
                self.reservations.set(i, zeroed);
                proof {
                    assert(self.reservations@ == pre.update(i as int, z));
                    assert forall|p: int, q: int|
                        0 <= p < q < self.reservations@.len() implies reservation_key()(
                        self.reservations@[p],
                    ) != reservation_key()(self.reservations@[q]) by {
                        assert(reservation_key()(pre[p]) != reservation_key()(pre[q]));
                    }
                    assert(res_amount <= old(self).ledger.spec_committed(z.asset@));
                    assert(self.ledger.spec_committed(z.asset@) == old(self).ledger.spec_committed(
                        z.asset@,
                    ) - res_amount);
                    assert forall|a: Seq<char>|
                        a != z.asset@ implies self.ledger.spec_committed(a) == old(
                        self,
                    ).ledger.spec_committed(a) by {
                        assert(self.ledger.agrees_at(old(self).ledger, a));
                    }
                    assert forall|a: Seq<char>|
                        #[trigger] self.ledger.spec_available(a) == old(self).ledger.spec_available(
                            a,
                        ) by {
                        if a != z.asset@ {
                            assert(self.ledger.agrees_at(old(self).ledger, a));
                        }
                    }
                    assert forall|a: Seq<char>|
                        #[trigger] reserved_total(self.reservations@, a)
                            <= self.ledger.spec_committed(a) by {
                        lemma_reserved_total_update(pre, i as int, z, a);
                        assert(reserved_total(pre, a) <= old(self).ledger.spec_committed(a));
                        if a != z.asset@ {
                            assert(self.ledger.agrees_at(old(self).ledger, a));
                        }
                    }
                }
            },
            None => {},
        }
    }

    /// Handles an opportunity pushed by the local detector: records it, and
    /// as a finder broadcasts it to all known peers — exactly once per
    /// distinct opportunity id, however often the detector repeats itself.
    pub fn handle_detector_opportunity(
        &mut self,
        opportunity: crate::types::AaveLiquidationOpportunity,
        now: u64,
    ) -> (r: Option<Outbound>)
        requires
            old(self).wf(),
        ensures
            final(self).wf(),
            final(self).node_config == old(self).node_config,
            final(self).known_peers == old(self).known_peers,
            final(self).submitted_intents == old(self).submitted_intents,
            final(self).execution_receipts == old(self).execution_receipts,
            final(self).ledger == old(self).ledger,
            final(self).reservations == old(self).reservations,
            final(self).active_opportunities.spec_has(opportunity.opp_id@),
            !old(self).active_opportunities.spec_has(opportunity.opp_id@) ==> ({
                let d = final(self).active_opportunities.spec_get(opportunity.opp_id@)->0;
                d.opportunity == opportunity && d.strategy_id@ == crate::types::aave_strategy_id()
                    && d.finder_node@ == "artemis-bot"@ && d.received_at == now
            }),
            forall|k: Seq<char>|
                k != opportunity.opp_id@ ==> final(self).active_opportunities.spec_get(k) == old(
                    self,
                ).active_opportunities.spec_get(k),
            r is Some <==> old(self).node_config.finder_enabled && !old(
                self,
            ).active_opportunities.spec_has(opportunity.opp_id@),
            r matches Some(out) ==> ({
                &&& out.targets@ == old(self).known_peers.peers@
                &&& out.message matches WireMessage::OpportunityBroadcast {
                    opp_id,
                    strategy_id,
                    opportunity: o,
                    finder_fee_bps,
                    deadline_block,
                } && opp_id@ == opportunity.opp_id@ && strategy_id@
                    == crate::types::aave_strategy_id() && o == opportunity && finder_fee_bps
                    == old(self).node_config.finder_fee_bps && deadline_block
                    == opportunity.deadline_block
            }),
    {
        let msg_opp = opportunity.clone();
        let opp_id = opportunity.opp_id.clone();
        let data = crate::types::OpportunityData {
            opportunity,
            strategy_id: "aave-liquidation".to_owned(),
            finder_node: "artemis-bot".to_owned(),
            received_at: now,
        };
        let outcome = self.active_opportunities.upsert(data);
        if !matches!(outcome, crate::opportunities::UpsertOutcome::New) {
            return None;
        }
        if !self.node_config.finder_enabled {
            return None;
        }
        let deadline_block = msg_opp.deadline_block;
        Some(
            broadcast(
                &self.known_peers,
                WireMessage::OpportunityBroadcast {
                    opp_id,
                    strategy_id: "aave-liquidation".to_owned(),
                    opportunity: msg_opp,
                    finder_fee_bps: self.node_config.finder_fee_bps,
                    deadline_block,
                },
            ),
        )
    }

    /// Handles a settlement receipt pushed by the local execution engine:
    /// builds the reconciled proceeds summary at the configured fee rates,
    /// records the receipt and releases any reservation exactly as for a
    /// peer's receipt, and broadcasts the receipt to all known peers.
    pub fn handle_executor_receipt(
        &mut self,
        receipt: crate::types::AaveLiquidationReceipt,
        now: u64,
    ) -> (r: Outbound)
        requires
            old(self).wf(),
        ensures
            final(self).wf(),
            final(self).node_config == old(self).node_config,
            final(self).known_peers == old(self).known_peers,
            final(self).active_opportunities == old(self).active_opportunities,
            final(self).submitted_intents == old(self).submitted_intents,
            receipt.status is Pending ==> *final(self) == *old(self),
            !(receipt.status is Pending) ==> (final(self).execution_receipts.spec_get(
                receipt.opp_id@,
            ) matches Some(d) && d.executor_node@ == "artemis-bot"@ && d.verified_at == now
                && d.our_proceeds == (if receipt.status is Success {
                spec_our_share(
                    old(self).node_config.node_id@,
                    receipt.used_amounts@,
                    crate::shares::spec_net_profit(
                        receipt.total_proceeds,
                        receipt.gas_paid_usdc,
                        crate::shares::spec_fee(
                            receipt.total_proceeds,
                            old(self).node_config.finder_fee_bps,
                        ),
                        crate::shares::spec_fee(
                            receipt.total_proceeds,
                            old(self).node_config.executor_fee_bps,
                        ),
                    ) as u64,
                )
            } else {
                0int
            })),
            forall|k: Seq<char>|
                k != receipt.opp_id@ ==> final(self).execution_receipts.spec_get(k) == old(
                    self,
                ).execution_receipts.spec_get(k),
            !(receipt.status is Pending) ==> (match old(self).spec_reservation(receipt.opp_id@) {
                Some(res) => {
                    &&& final(self).ledger.spec_committed(res.asset@) == old(
                        self,
                    ).ledger.spec_committed(res.asset@) - res.amount
                    &&& forall|a: Seq<char>|
                        #[trigger] final(self).ledger.spec_available(a) == old(
                            self,
                        ).ledger.spec_available(a)
                    &&& final(self).spec_reservation(receipt.opp_id@) matches Some(z) && z.amount
                        == 0
                },
                None => final(self).ledger == old(self).ledger && final(self).reservations == old(
                    self,
                ).reservations,
            }),
            r.targets@ == old(self).known_peers.peers@,
            r.message matches WireMessage::ExecutionReceipt {
                opp_id,
                strategy_id,
                receipt: rc,
                block_number,
                tx_hash,
                gas_used,
                proceeds,
            } && opp_id@ == receipt.opp_id@ && strategy_id@ == crate::types::aave_strategy_id()
                && rc.opp_id == receipt.opp_id && rc.used_amounts@ == receipt.used_amounts@
                && rc.total_proceeds == receipt.total_proceeds && rc.gas_paid_usdc
                == receipt.gas_paid_usdc && block_number == receipt.block_number && tx_hash
                == receipt.tx_hash && gas_used == receipt.gas_paid_usdc && proceeds.total
                == receipt.total_proceeds && proceeds.gas_cost_usd == receipt.gas_paid_usdc
                && proceeds.finder_fee == crate::shares::spec_fee(
                receipt.total_proceeds,
                old(self).node_config.finder_fee_bps,
            ) && proceeds.executor_fee == crate::shares::spec_fee(
                receipt.total_proceeds,
                old(self).node_config.executor_fee_bps,
            ) && proceeds.net_profit == crate::shares::spec_net_profit(
                receipt.total_proceeds,
                receipt.gas_paid_usdc,
                proceeds.finder_fee as int,
                proceeds.executor_fee as int,
            ),
    {
        let msg_receipt = receipt.clone();
        let proceeds = crate::shares::make_breakdown(
            "ETH".to_owned(),
            receipt.total_proceeds,
            receipt.gas_paid_usdc,
            self.node_config.finder_fee_bps,
            self.node_config.executor_fee_bps,
        );
        let msg_proceeds = proceeds.clone();
        self.receive_execution_receipt("artemis-bot".to_owned(), receipt, proceeds, now);
        let msg_opp_id = msg_receipt.opp_id.clone();
        let msg_tx_hash = msg_receipt.tx_hash.clone();
        let block_number = msg_receipt.block_number;
        let gas_used = msg_receipt.gas_paid_usdc;
        broadcast(
            &self.known_peers,
            WireMessage::ExecutionReceipt {
                opp_id: msg_opp_id,
                strategy_id: "aave-liquidation".to_owned(),
                receipt: msg_receipt,
                block_number,
                tx_hash: msg_tx_hash,
                gas_used,
                proceeds: msg_proceeds,
            },
        )
    }
}

impl HyperMevApp {
    /// Whether the executor would hand opportunity `opp` to the external
    /// execution collaborator now: at least one intent, a known and
    /// unexpired opportunity, and no receipt yet.
    pub open spec fn spec_plannable(self, opp: Seq<char>, current_block: u64) -> bool {
        &&& self.submitted_intents.spec_intents(opp).len() > 0
        &&& self.active_opportunities.spec_get(opp) is Some
        &&& !(current_block > self.active_opportunities.spec_get(
            opp,
        )->0.opportunity.deadline_block)
        &&& !self.execution_receipts.spec_has(opp)
    }

    /// The request carries the best intent recorded for its opportunity:
    /// the greatest committed amount, earliest received among ties.
    pub open spec fn spec_carries_best(self, req: crate::messages::ExecutionRequest) -> bool {
        exists|i: int|
            #![trigger self.submitted_intents.spec_intents(req.opp_id@)[i]]
            0 <= i < self.submitted_intents.spec_intents(req.opp_id@).len()
                && self.submitted_intents.spec_intents(req.opp_id@)[i] == req.intent
                && crate::intents::is_best_at(self.submitted_intents.spec_intents(req.opp_id@), i)
    }

    /// Collects, for every opportunity that can proceed (see
    /// [`Self::spec_plannable`]), an execution request carrying its best
    /// intent.
    pub fn plan_and_execute_opportunities(&self, current_block: u64) -> (r: Vec<
        crate::messages::ExecutionRequest,
    >)
        requires
            self.wf(),
        ensures
            forall|k: int|
                #![trigger r@[k]]
                0 <= k < r@.len() ==> self.spec_plannable(r@[k].opp_id@, current_block)
                    && self.spec_carries_best(r@[k]),
            forall|i: int|
                0 <= i < self.submitted_intents.lists@.len() && self.spec_plannable(
                    #[trigger] self.submitted_intents.lists@[i].opp_id@,
                    current_block,
                ) ==> exists|k: int|
                    0 <= k < r@.len() && r@[k].opp_id@ == self.submitted_intents.lists@[i].opp_id@,
    {
        let mut r: Vec<crate::messages::ExecutionRequest> = Vec::new();
        let n = self.submitted_intents.lists.len();
        let mut i: usize = 0;
        while i < n
            invariant
                self.wf(),
                n == self.submitted_intents.lists@.len(),
                0 <= i <= n,
                forall|k: int|
                    #![trigger r@[k]]
                    0 <= k < r@.len() ==> self.spec_plannable(r@[k].opp_id@, current_block)
                        && self.spec_carries_best(r@[k]),
                forall|j: int|
                    0 <= j < i && self.spec_plannable(
                        #[trigger] self.submitted_intents.lists@[j].opp_id@,
                        current_block,
                    ) ==> exists|k: int|
                        0 <= k < r@.len() && r@[k].opp_id@
                            == self.submitted_intents.lists@[j].opp_id@,
            decreases n - i,
        {
            proof {
                assert forall|j: int|
                    0 <= j < i implies crate::intents::list_key()(
                    self.submitted_intents.lists@[j],
                ) != self.submitted_intents.lists@[i as int].opp_id@ by {
                    assert(crate::intents::list_key()(self.submitted_intents.lists@[j])
                        != crate::intents::list_key()(self.submitted_intents.lists@[i as int]));
                }
                lemma_find_at_index(
                    self.submitted_intents.lists@,
                    crate::intents::list_key(),
                    self.submitted_intents.lists@[i as int].opp_id@,
                    i as int,
                );
            }
            let opp_id = &self.submitted_intents.lists[i].opp_id;
            if self.submitted_intents.lists[i].intents.len() > 0 {
                let live = match self.active_opportunities.get(opp_id) {
                    Some(d) => !d.opportunity.is_expired(current_block),
                    None => false,
                };
                if live && !self.execution_receipts.has(opp_id) {
                    match crate::intents::best_intent_index(
                        &self.submitted_intents.lists[i].intents,
                    ) {
                        Some(b) => {
                            let ghost r0 = r@;
                            r.push(
                                crate::messages::ExecutionRequest {
                                    opp_id: opp_id.clone(),
                                    intent: self.submitted_intents.lists[i].intents[b].clone(),
                                },
                            );
                            proof {
                                assert forall|j: int|
                                    0 <= j < i && self.spec_plannable(
                                        #[trigger] self.submitted_intents.lists@[j].opp_id@,
                                        current_block,
                                    ) implies exists|k2: int|
                                    0 <= k2 < r@.len() && r@[k2].opp_id@
                                        == self.submitted_intents.lists@[j].opp_id@ by {
                                    let k0 = choose|k0: int|
                                        0 <= k0 < r0.len() && r0[k0].opp_id@
                                            == self.submitted_intents.lists@[j].opp_id@;
                                    assert(r@[k0].opp_id@
                                        == self.submitted_intents.lists@[j].opp_id@);
                                }
                                let k = r@.len() - 1;
                                let key = self.submitted_intents.lists@[i as int].opp_id@;
                                assert(r@[k].opp_id@ == key);
                                assert(self.submitted_intents.spec_intents(key)
                                    == self.submitted_intents.lists@[i as int].intents@);
                                assert(self.spec_plannable(key, current_block));
                                assert(self.submitted_intents.spec_intents(r@[k].opp_id@)[b as int]
                                    == r@[k].intent);
                                assert(crate::intents::is_best_at(
                                    self.submitted_intents.spec_intents(r@[k].opp_id@),
                                    b as int,
                                ));
                                assert(self.spec_carries_best(r@[k]));
                            }
                        },
                        None => {
                            proof {
                                assert(false);
                            }
                        },
                    }
                }
            }
            i = i + 1;
        }
        r
    }

    /// Releases every reservation whose intent has expired: once
    /// `current_block` passes a reservation's expiry, its capital goes
    /// back to the uncommitted pool, so a plan that never returns cannot
    /// hold capital forever.  Available balances never change, and each
    /// asset's committed balance drops by exactly the reserved capital
    /// that was let go.
    pub fn release_expired(&mut self, current_block: u64)
        requires
            old(self).wf(),
        ensures
            final(self).wf(),
            final(self).node_config == old(self).node_config,
            final(self).known_peers == old(self).known_peers,
            final(self).active_opportunities == old(self).active_opportunities,
            final(self).submitted_intents == old(self).submitted_intents,
            final(self).execution_receipts == old(self).execution_receipts,
            final(self).active_strategy == old(self).active_strategy,
            final(self).reservations@.len() == old(self).reservations@.len(),
            forall|j: int|
                0 <= j < old(self).reservations@.len() ==> ({
                    let pre = old(self).reservations@[j];
                    let post = #[trigger] final(self).reservations@[j];
                    &&& post.opp_id@ == pre.opp_id@
                    &&& post.asset@ == pre.asset@
                    &&& post.expires_block == pre.expires_block
                    &&& post.amount == if current_block > pre.expires_block {
                        0u64
                    } else {
                        pre.amount
                    }
                }),
            forall|a: Seq<char>|
                #[trigger] final(self).ledger.spec_available(a) == old(self).ledger.spec_available(
                    a,
                ),
            forall|a: Seq<char>|
                #[trigger] final(self).ledger.spec_committed(a) == old(self).ledger.spec_committed(
                    a,
                ) - (reserved_total(old(self).reservations@, a) - reserved_total(
                    final(self).reservations@,
                    a,
                )),
    {
        let n = self.reservations.len();
        let mut i: usize = 0;
        while i < n
            invariant
                self.wf(),
                n == self.reservations@.len() == old(self).reservations@.len(),
                0 <= i <= n,
                self.node_config == old(self).node_config,
                self.known_peers == old(self).known_peers,
                self.active_opportunities == old(self).active_opportunities,
                self.submitted_intents == old(self).submitted_intents,
                self.execution_receipts == old(self).execution_receipts,
                self.active_strategy == old(self).active_strategy,
                self.aave_strategy_config == old(self).aave_strategy_config,
                forall|j: int| i <= j < n ==> self.reservations@[j] == old(self).reservations@[j],
                forall|j: int|
                    0 <= j < i ==> ({
                        let pre = old(self).reservations@[j];
                        let post = #[trigger] self.reservations@[j];
                        &&& post.opp_id@ == pre.opp_id@
                        &&& post.asset@ == pre.asset@
                        &&& post.expires_block == pre.expires_block
                        &&& post.amount == if current_block > pre.expires_block {
                            0u64
                        } else {
                            pre.amount
                        }
                    }),
                forall|a: Seq<char>|
                    #[trigger] self.ledger.spec_available(a) == old(self).ledger.spec_available(a),
                forall|a: Seq<char>|
                    #[trigger] self.ledger.spec_committed(a) == old(self).ledger.spec_committed(
                        a,
                    ) - (reserved_total(old(self).reservations@, a) - reserved_total(
                        self.reservations@,
                        a,
                    )),
            decreases n - i,
        {
            let expired = current_block > self.reservations[i].expires_block;
            let amount = self.reservations[i].amount;
            if expired && amount > 0 {
                let res_asset = self.reservations[i].asset.clone();
                let ghost pre = self.reservations@;
                let ghost mid_ledger = self.ledger;
                proof {
                    lemma_reservation_le_total(pre, i as int, res_asset@);
                }
                self.ledger.release(&res_asset, amount);
                let zeroed = Reservation {
                    opp_id: self.reservations[i].opp_id.clone(),
                    asset: res_asset,
                    amount: 0,
                    expires_block: self.reservations[i].expires_block,
                };
                let ghost z = zeroed;
                self.reservations.set(i, zeroed);
                proof {
                    assert(self.reservations@ == pre.update(i as int, z));
                    assert forall|p: int, q: int|
                        0 <= p < q < self.reservations@.len() implies reservation_key()(
                        self.reservations@[p],
                    ) != reservation_key()(self.reservations@[q]) by {
                        assert(reservation_key()(pre[p]) != reservation_key()(pre[q]));
                    }
                    assert forall|a: Seq<char>|
                        #[trigger] self.ledger.spec_committed(a) == mid_ledger.spec_committed(a)
                            - reservation_contrib(pre[i as int], a) + reservation_contrib(
                            z,
                            a,
                        ) by {
                        if a != z.asset@ {
                            assert(self.ledger.agrees_at(mid_ledger, a));
                        }
                    }
                    assert forall|a: Seq<char>|
                        #[trigger] self.ledger.spec_available(a) == mid_ledger.spec_available(
                            a,
                        ) by {
                        if a != z.asset@ {
                            assert(self.ledger.agrees_at(mid_ledger, a));
                        }
                    }
                    assert forall|a: Seq<char>|
                        #[trigger] reserved_total(self.reservations@, a) == reserved_total(pre, a)
                            - reservation_contrib(pre[i as int], a) + reservation_contrib(
                            z,
                            a,
                        ) by {
                        lemma_reserved_total_update(pre, i as int, z, a);
                    }
                }
            }
            i = i + 1;
        }
    }
}

/// An owned copy of a list of names.
fn clone_strings(v: &Vec<String>) -> (r: Vec<String>)
    ensures
        r@ == v@,
{
    let r = v.clone();
    proof {
        assert(r@ =~= v@);
    }
    r
}

} // verus!
