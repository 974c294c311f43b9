//! End-to-end tests of the coordination engine: handlers, roles, capital
//! safety across the message flow, and the status surface.

use hyper_mev::coordinator::{ConfigUpdate, HyperMevApp};
use hyper_mev::messages::WireMessage;
use hyper_mev::types::{AaveLiquidationIntent, AaveLiquidationOpportunity, AaveLiquidationReceipt,
    ApiError, CapitalUsage, ExecutionStatus, NodeRole, ProceedsBreakdown};

const USDC: &str = "0xA0b86991c6218b36c1d19D4a2e9Eb0cE3606eB48";

fn mk_opp(id: &str, repay: u64, profit: u64, deadline: u64) -> AaveLiquidationOpportunity {
    AaveLiquidationOpportunity {
        opp_id: id.to_string(),
        victim_address: "0x742d35Cc6634C0532925a3b844D0C4E7F2a21eBc".to_string(),
        repay_asset: USDC.to_string(),
        seize_asset: "0xC02aaA39b223FE8D0A0e5C4F27eAD9083C756Cc2".to_string(),
        max_repay_amount: repay,
        min_bonus_bps: 500,
        health_factor: 950_000_000_000_000_000,
        deadline_block: deadline,
        estimated_profit_usd: profit,
    }
}

fn no_updates() -> ConfigUpdate {
    ConfigUpdate {
        finder_enabled: None,
        capital_provider_enabled: None,
        executor_enabled: None,
        finder_fee_bps: None,
        executor_fee_bps: None,
        min_profit_threshold_usd: None,
        max_gas_price_gwei: None,
    }
}

/// A fresh node whose minimum profit threshold is lowered so the small test
/// amounts qualify.
fn node(id: &str) -> HyperMevApp {
    let mut app = HyperMevApp::initialize(id.to_string());
    let mut update = no_updates();
    update.min_profit_threshold_usd = Some("10".to_string());
    assert!(app.update_node_config(update).is_ok());
    app
}

#[test]
fn initialize_seeds_demo_capital() {
    let app = HyperMevApp::initialize("alice.os".to_string());
    assert_eq!(app.node_config.node_id, "alice.os");
    assert_eq!(app.ledger.available_of(&USDC.to_string()), 10_000_000_000);
    assert_eq!(app.ledger.committed_of(&USDC.to_string()), 0);
    let status = app.get_node_status();
    assert_eq!(status.node_id, "alice.os");
    assert_eq!(status.peer_count, 0);
    assert_eq!(status.opportunity_count, 0);
    assert_eq!(status.receipt_count, 0);
    assert!(status.finder_enabled && status.capital_provider_enabled && status.executor_enabled);
}

#[test]
fn connect_to_peer_rejects_self() {
    let mut app = node("alice.os");
    let r = app.connect_to_peer("alice.os".to_string(), 1);
    assert!(matches!(r, Err(ApiError::SelfPeer)));
    assert_eq!(app.known_peers.len(), 0);
    let r = app.connect_to_peer("bob.os".to_string(), 1);
    let out = r.unwrap_or_else(|_| panic!("connect failed"));
    assert_eq!(out.targets, vec!["bob.os".to_string()]);
    assert!(matches!(out.message, WireMessage::NodeAnnouncement { .. }));
    assert_eq!(app.known_peers.len(), 1);
}

#[test]
fn announcement_exchange_registers_peer() {
    let mut alice = node("alice.os");
    let bob = node("bob.os");
    let hello = bob.announce_to_peer(&"alice.os".to_string(), 7);
    let node_info = match hello.message {
        WireMessage::NodeAnnouncement { node_info, .. } => node_info,
        _ => panic!("expected an announcement"),
    };
    assert_eq!(node_info.node_id, "bob.os");
    assert_eq!(
        node_info.roles,
        vec![NodeRole::Finder, NodeRole::CapitalProvider, NodeRole::Executor]
    );
    let reply = alice.receive_node_announcement(node_info, 8);
    assert!(alice.known_peers.contains(&"bob.os".to_string()));
    assert_eq!(reply.targets, vec!["bob.os".to_string()]);
}

#[test]
fn config_update_validates_fees_and_amounts() {
    let mut app = node("alice.os");
    let mut bad_fee = no_updates();
    bad_fee.finder_fee_bps = Some(10_001);
    assert!(matches!(app.update_node_config(bad_fee), Err(ApiError::FeeOutOfRange)));
    assert_eq!(app.node_config.finder_fee_bps, 100);
    let mut bad_amount = no_updates();
    bad_amount.max_gas_price_gwei = Some("fifty".to_string());
    assert!(matches!(app.update_node_config(bad_amount), Err(ApiError::InvalidAmount)));
    assert_eq!(app.node_config.max_gas_price_gwei, 50);
    let mut good = no_updates();
    good.finder_fee_bps = Some(200);
    good.executor_enabled = Some(false);
    good.max_gas_price_gwei = Some("75".to_string());
    assert!(app.update_node_config(good).is_ok());
    assert_eq!(app.node_config.finder_fee_bps, 200);
    assert!(!app.node_config.executor_enabled);
    assert_eq!(app.node_config.max_gas_price_gwei, 75);
}

#[test]
fn add_capital_validates_inputs() {
    let mut app = node("alice.os");
    let r = app.add_capital("USDC".to_string(), "100".to_string());
    assert!(matches!(r, Err(ApiError::InvalidAsset)));
    let r = app.add_capital(USDC.to_string(), "1e9".to_string());
    assert!(matches!(r, Err(ApiError::InvalidAmount)));
    let before = app.ledger.available_of(&USDC.to_string());
    assert!(app.add_capital(USDC.to_string(), "500".to_string()).is_ok());
    assert_eq!(app.ledger.available_of(&USDC.to_string()), before + 500);
    let r = app.add_capital(USDC.to_string(), "18446744073709551615".to_string());
    assert!(matches!(r, Err(ApiError::BalanceOverflow)));
}

#[test]
fn broadcast_evaluation_reserves_capital() {
    let mut app = node("carol.os");
    // 10,000 USDC available; the opportunity needs 1,000 and promises 50.
    let out = app.receive_opportunity_broadcast(
        "alice.os".to_string(),
        "aave-liquidation".to_string(),
        mk_opp("opp-1", 1000, 50, 1000),
        900,
        10,
    );
    let out = out.expect("an eligible opportunity must produce an intent");
    match out.message {
        WireMessage::IntentSubmission { intent, max_amount, .. } => {
            assert_eq!(intent.opp_id, "opp-1");
            assert_eq!(intent.asset, USDC);
            assert_eq!(intent.max_amount, 1000);
            assert_eq!(intent.expires_block, 1000);
            assert_eq!(max_amount, 1000);
        },
        _ => panic!("expected an intent submission"),
    }
    assert_eq!(app.ledger.committed_of(&USDC.to_string()), 1000);
    assert_eq!(app.ledger.available_of(&USDC.to_string()), 10_000_000_000);
}

#[test]
fn duplicate_broadcast_is_absorbed() {
    // Idempotent broadcast: N deliveries, one stored opportunity, one
    // evaluation.
    let mut app = node("carol.os");
    let first = app.receive_opportunity_broadcast(
        "alice.os".to_string(),
        "aave-liquidation".to_string(),
        mk_opp("opp-1", 1000, 50, 1000),
        900,
        10,
    );
    assert!(first.is_some());
    for n in 0..3u64 {
        let again = app.receive_opportunity_broadcast(
            "alice.os".to_string(),
            "aave-liquidation".to_string(),
            mk_opp("opp-1", 1000, 50, 1000),
            900,
            10 + n,
        );
        assert!(again.is_none());
    }
    assert_eq!(app.active_opportunities.len(), 1);
    // The capital was reserved exactly once.
    assert_eq!(app.ledger.committed_of(&USDC.to_string()), 1000);
}

#[test]
fn expired_opportunity_is_skipped() {
    // Expiry: deadline 100 observed at block 101 is excluded from
    // evaluation.
    let mut app = node("carol.os");
    let out = app.receive_opportunity_broadcast(
        "alice.os".to_string(),
        "aave-liquidation".to_string(),
        mk_opp("opp-late", 1000, 50, 100),
        101,
        10,
    );
    assert!(out.is_none());
    // Recorded for audit, but no capital moved.
    assert_eq!(app.active_opportunities.len(), 1);
    assert_eq!(app.ledger.committed_of(&USDC.to_string()), 0);
    // And planning excludes it too.
    let mut dave = node("dave.os");
    dave.receive_opportunity_broadcast(
        "alice.os".to_string(),
        "aave-liquidation".to_string(),
        mk_opp("opp-late", 1000, 50, 100),
        99,
        10,
    );
    dave.receive_intent_submission(
        "carol.os".to_string(),
        AaveLiquidationIntent {
            opp_id: "opp-late".to_string(),
            asset: USDC.to_string(),
            max_amount: 1000,
            min_bonus_bps: 500,
            expires_block: 100,
        },
        1000,
        100,
        99,
        11,
    );
    assert!(dave.plan_and_execute_opportunities(101).is_empty());
}

#[test]
fn insufficient_capital_skips_silently() {
    let mut app = node("bob.os");
    // Needs 20,000 USDC; only 10,000 available: a policy skip, not an error.
    let out = app.receive_opportunity_broadcast(
        "alice.os".to_string(),
        "aave-liquidation".to_string(),
        mk_opp("opp-big", 20_000_000_000, 50, 1000),
        900,
        10,
    );
    assert!(out.is_none());
    assert_eq!(app.ledger.committed_of(&USDC.to_string()), 0);
}

#[test]
fn profit_below_threshold_skips_silently() {
    let mut app = node("bob.os");
    let out = app.receive_opportunity_broadcast(
        "alice.os".to_string(),
        "aave-liquidation".to_string(),
        mk_opp("opp-small", 1000, 9, 1000),
        900,
        10,
    );
    assert!(out.is_none());
    assert_eq!(app.ledger.committed_of(&USDC.to_string()), 0);
}

#[test]
fn unknown_strategy_is_not_evaluated() {
    let mut app = node("bob.os");
    let out = app.receive_opportunity_broadcast(
        "alice.os".to_string(),
        "cex-dex-arb".to_string(),
        mk_opp("opp-odd", 1000, 50, 1000),
        900,
        10,
    );
    assert!(out.is_none());
    assert_eq!(app.ledger.committed_of(&USDC.to_string()), 0);
}

#[test]
fn receipt_releases_reservation_on_loss() {
    // Release on loss: a capital provider that reserved 500 for X and then
    // sees X settled by someone else's intent gets its 500 back.
    let mut app = node("bob.os");
    let out = app.receive_opportunity_broadcast(
        "alice.os".to_string(),
        "aave-liquidation".to_string(),
        mk_opp("opp-x", 500, 50, 1000),
        900,
        10,
    );
    assert!(out.is_some());
    assert_eq!(app.ledger.committed_of(&USDC.to_string()), 500);
    let receipt = AaveLiquidationReceipt {
        opp_id: "opp-x".to_string(),
        status: ExecutionStatus::Success,
        block_number: 950,
        tx_hash: "0xfeed".to_string(),
        used_amounts: vec![CapitalUsage {
            node_id: "carol.os".to_string(),
            asset: USDC.to_string(),
            amount_used: 500,
            profit_share: 25,
        }],
        total_proceeds: 50,
        gas_paid_usdc: 0,
    };
    let proceeds = ProceedsBreakdown {
        asset: "ETH".to_string(),
        total: 50,
        gas_cost_usd: 0,
        finder_fee: 0,
        executor_fee: 0,
        net_profit: 50,
    };
    app.receive_execution_receipt("dave.os".to_string(), receipt, proceeds, 20);
    assert_eq!(app.ledger.committed_of(&USDC.to_string()), 0);
    assert_eq!(app.ledger.available_of(&USDC.to_string()), 10_000_000_000);
    // The loser's share of the proceeds is zero, but the receipt is kept.
    let stored = app.execution_receipts.get(&"opp-x".to_string()).unwrap();
    assert_eq!(stored.our_proceeds, 0);
    assert_eq!(stored.executor_node, "dave.os");
    // A rebroadcast of the same receipt is absorbed without another release.
    let receipt2 = AaveLiquidationReceipt {
        opp_id: "opp-x".to_string(),
        status: ExecutionStatus::Success,
        block_number: 950,
        tx_hash: "0xfeed".to_string(),
        used_amounts: vec![],
        total_proceeds: 50,
        gas_paid_usdc: 0,
    };
    let proceeds2 = ProceedsBreakdown {
        asset: "ETH".to_string(),
        total: 50,
        gas_cost_usd: 0,
        finder_fee: 0,
        executor_fee: 0,
        net_profit: 50,
    };
    app.receive_execution_receipt("dave.os".to_string(), receipt2, proceeds2, 21);
    assert_eq!(app.ledger.committed_of(&USDC.to_string()), 0);
    assert_eq!(app.ledger.available_of(&USDC.to_string()), 10_000_000_000);
}

#[test]
fn expired_reservations_are_released() {
    let mut app = node("bob.os");
    let out = app.receive_opportunity_broadcast(
        "alice.os".to_string(),
        "aave-liquidation".to_string(),
        mk_opp("opp-x", 800, 50, 100),
        90,
        10,
    );
    assert!(out.is_some());
    assert_eq!(app.ledger.committed_of(&USDC.to_string()), 800);
    // Before the expiry block nothing is released.
    app.release_expired(100);
    assert_eq!(app.ledger.committed_of(&USDC.to_string()), 800);
    // Past the expiry block the capital returns to the uncommitted pool.
    app.release_expired(101);
    assert_eq!(app.ledger.committed_of(&USDC.to_string()), 0);
    assert_eq!(app.ledger.available_of(&USDC.to_string()), 10_000_000_000);
}

#[test]
fn executor_plans_best_intent() {
    let mut dave = node("dave.os");
    dave.receive_opportunity_broadcast(
        "alice.os".to_string(),
        "aave-liquidation".to_string(),
        mk_opp("opp-1", 20_000_000_000, 50, 1000),
        900,
        10,
    );
    let intent = |amount: u64| AaveLiquidationIntent {
        opp_id: "opp-1".to_string(),
        asset: USDC.to_string(),
        max_amount: amount,
        min_bonus_bps: 500,
        expires_block: 1000,
    };
    let r = dave.receive_intent_submission(
        "bob.os".to_string(),
        intent(100),
        100,
        1000,
        900,
        11,
    );
    let req = r.expect("executor plans as soon as one intent exists");
    assert_eq!(req.intent.submitter_node, "bob.os");
    let r = dave.receive_intent_submission(
        "carol.os".to_string(),
        intent(150),
        150,
        1000,
        900,
        12,
    );
    let req = r.expect("executor re-plans on each intent");
    assert_eq!(req.opp_id, "opp-1");
    assert_eq!(req.intent.submitter_node, "carol.os");
    assert_eq!(req.intent.max_amount, 150);
    let planned = dave.plan_and_execute_opportunities(900);
    assert_eq!(planned.len(), 1);
    assert_eq!(planned[0].intent.submitter_node, "carol.os");
}

#[test]
fn non_executor_stores_intents_without_planning() {
    let mut bob = node("bob.os");
    let mut update = no_updates();
    update.executor_enabled = Some(false);
    assert!(bob.update_node_config(update).is_ok());
    bob.receive_opportunity_broadcast(
        "alice.os".to_string(),
        "aave-liquidation".to_string(),
        mk_opp("opp-1", 20_000_000_000, 50, 1000),
        900,
        10,
    );
    let r = bob.receive_intent_submission(
        "carol.os".to_string(),
        AaveLiquidationIntent {
            opp_id: "opp-1".to_string(),
            asset: USDC.to_string(),
            max_amount: 100,
            min_bonus_bps: 500,
            expires_block: 1000,
        },
        100,
        1000,
        900,
        11,
    );
    assert!(r.is_none());
    assert_eq!(bob.submitted_intents.len(), 1);
}

#[test]
fn executor_receipt_is_recorded_and_broadcast() {
    let mut dave = node("dave.os");
    assert!(dave.connect_to_peer("bob.os".to_string(), 1).is_ok());
    assert!(dave.connect_to_peer("carol.os".to_string(), 1).is_ok());
    let receipt = AaveLiquidationReceipt {
        opp_id: "opp-1".to_string(),
        status: ExecutionStatus::Success,
        block_number: 950,
        tx_hash: "0xbeef".to_string(),
        used_amounts: vec![CapitalUsage {
            node_id: "carol.os".to_string(),
            asset: USDC.to_string(),
            amount_used: 1000,
            profit_share: 50,
        }],
        total_proceeds: 50,
        gas_paid_usdc: 0,
    };
    let out = dave.handle_executor_receipt(receipt, 20);
    assert_eq!(out.targets, vec!["bob.os".to_string(), "carol.os".to_string()]);
    match out.message {
        WireMessage::ExecutionReceipt { opp_id, receipt, proceeds, .. } => {
            assert_eq!(opp_id, "opp-1");
            assert_eq!(receipt.total_proceeds, 50);
            assert_eq!(proceeds.total, 50);
            assert_eq!(proceeds.gas_cost_usd, 0);
            // Reconciled at the stock rates: 1% and 0.5% of 50 round to 0.
            assert_eq!(proceeds.finder_fee, 0);
            assert_eq!(proceeds.executor_fee, 0);
            assert_eq!(proceeds.net_profit, 50);
        },
        _ => panic!("expected a receipt broadcast"),
    }
    assert_eq!(dave.execution_receipts.len(), 1);
}

#[test]
fn detector_opportunity_broadcast_once() {
    let mut alice = node("alice.os");
    assert!(alice.connect_to_peer("bob.os".to_string(), 1).is_ok());
    assert!(alice.connect_to_peer("carol.os".to_string(), 1).is_ok());
    let out = alice.handle_detector_opportunity(mk_opp("opp-1", 1000, 50, 1000), 10);
    let out = out.expect("a finder broadcasts a fresh opportunity");
    assert_eq!(out.targets, vec!["bob.os".to_string(), "carol.os".to_string()]);
    match out.message {
        WireMessage::OpportunityBroadcast { opp_id, opportunity, finder_fee_bps, deadline_block, .. } => {
            assert_eq!(opp_id, "opp-1");
            assert_eq!(opportunity.max_repay_amount, 1000);
            assert_eq!(finder_fee_bps, 100);
            assert_eq!(deadline_block, 1000);
        },
        _ => panic!("expected an opportunity broadcast"),
    }
    // The detector repeating itself triggers no second broadcast.
    assert!(alice.handle_detector_opportunity(mk_opp("opp-1", 1000, 50, 1000), 11).is_none());
    assert_eq!(alice.active_opportunities.len(), 1);
}

#[test]
fn end_to_end_settlement() {
    // Node A finds opp-1 (repay 1000 USDC, profit 50, deadline 1000) and
    // broadcasts it to B and C.  B has 500 USDC and skips; C has 1200,
    // reserves 1000 and submits an intent.  Executor D selects it, settles,
    // and broadcasts the receipt; C's reservation is released and C's
    // stored receipt shows a non-zero share.
    let asset = "0x1111111111111111111111111111111111111111".to_string();
    let mut alice = node("alice.os");
    let mut bob = node("bob.os");
    let mut carol = node("carol.os");
    let mut dave = node("dave.os");
    assert!(alice.connect_to_peer("bob.os".to_string(), 1).is_ok());
    assert!(alice.connect_to_peer("carol.os".to_string(), 1).is_ok());
    assert!(bob.add_capital(asset.clone(), "500".to_string()).is_ok());
    assert!(carol.add_capital(asset.clone(), "1200".to_string()).is_ok());

    let mut opp = mk_opp("opp-1", 1000, 50, 1000);
    opp.repay_asset = asset.clone();
    let found = alice.handle_detector_opportunity(opp, 10);
    let broadcast = found.expect("fresh opportunity is broadcast");
    assert_eq!(broadcast.targets, vec!["bob.os".to_string(), "carol.os".to_string()]);
    let (strategy_id, opportunity) = match broadcast.message {
        WireMessage::OpportunityBroadcast { strategy_id, opportunity, .. } => {
            (strategy_id, opportunity)
        },
        _ => panic!("expected an opportunity broadcast"),
    };

    // B: 500 < 1000, insufficient capital, no intent.
    let b_out = bob.receive_opportunity_broadcast(
        "alice.os".to_string(),
        strategy_id.clone(),
        opportunity.clone(),
        900,
        11,
    );
    assert!(b_out.is_none());
    assert_eq!(bob.ledger.committed_of(&asset), 0);

    // C: 1200 >= 1000 and 50 >= 10: reserves 1000 and submits.
    let c_out = carol.receive_opportunity_broadcast(
        "alice.os".to_string(),
        strategy_id,
        opportunity,
        900,
        11,
    );
    let c_out = c_out.expect("C qualifies and submits an intent");
    assert_eq!(carol.ledger.committed_of(&asset), 1000);
    let (c_intent, c_amount, c_expires) = match c_out.message {
        WireMessage::IntentSubmission { intent, max_amount, expires_block, .. } => {
            (intent, max_amount, expires_block)
        },
        _ => panic!("expected an intent submission"),
    };
    assert_eq!(c_amount, 1000);

    // D: collects the intent and selects it for execution.
    let mut d_opp = mk_opp("opp-1", 1000, 50, 1000);
    d_opp.repay_asset = asset.clone();
    dave.receive_opportunity_broadcast(
        "alice.os".to_string(),
        "aave-liquidation".to_string(),
        d_opp,
        900,
        11,
    );
    let request = dave.receive_intent_submission(
        "carol.os".to_string(),
        c_intent,
        c_amount,
        c_expires,
        900,
        12,
    );
    let request = request.expect("the executor plans with one intent");
    assert_eq!(request.intent.submitter_node, "carol.os");
    assert_eq!(request.intent.max_amount, 1000);

    // D settles and broadcasts the receipt.
    let receipt = AaveLiquidationReceipt {
        opp_id: "opp-1".to_string(),
        status: ExecutionStatus::Success,
        block_number: 950,
        tx_hash: "0xabc123".to_string(),
        used_amounts: vec![CapitalUsage {
            node_id: "carol.os".to_string(),
            asset: asset.clone(),
            amount_used: 1000,
            profit_share: 50,
        }],
        total_proceeds: 50,
        gas_paid_usdc: 0,
    };
    let settled = dave.handle_executor_receipt(receipt, 20);
    let (r_receipt, r_proceeds) = match settled.message {
        WireMessage::ExecutionReceipt { receipt, proceeds, .. } => (receipt, proceeds),
        _ => panic!("expected a receipt broadcast"),
    };
    assert_eq!(r_proceeds.net_profit, 50);

    // All nodes process the receipt; C's committed capital returns to zero
    // and C's stored receipt shows a non-zero proceeds share.
    let bob_receipt = r_receipt.clone();
    let carol_receipt = r_receipt.clone();
    bob.receive_execution_receipt(
        "dave.os".to_string(),
        bob_receipt,
        r_proceeds.clone(),
        21,
    );
    carol.receive_execution_receipt(
        "dave.os".to_string(),
        carol_receipt,
        r_proceeds.clone(),
        21,
    );
    alice.receive_execution_receipt("dave.os".to_string(), r_receipt, r_proceeds, 21);
    assert_eq!(carol.ledger.committed_of(&asset), 0);
    assert_eq!(carol.ledger.available_of(&asset), 1200);
    let carol_stored = carol.execution_receipts.get(&"opp-1".to_string()).unwrap();
    assert_eq!(carol_stored.our_proceeds, 50);
    assert!(carol_stored.our_proceeds > 0);
    let bob_stored = bob.execution_receipts.get(&"opp-1".to_string()).unwrap();
    assert_eq!(bob_stored.our_proceeds, 0);
    assert_eq!(alice.execution_receipts.len(), 1);
}

#[test]
fn roles_follow_configuration() {
    let mut app = node("alice.os");
    assert_eq!(
        app.get_enabled_roles(),
        vec![NodeRole::Finder, NodeRole::CapitalProvider, NodeRole::Executor]
    );
    let mut update = no_updates();
    update.finder_enabled = Some(false);
    update.executor_enabled = Some(false);
    assert!(app.update_node_config(update).is_ok());
    assert_eq!(app.get_enabled_roles(), vec![NodeRole::CapitalProvider]);
}

#[test]
fn settled_opportunity_accepts_no_new_intent() {
    let mut app = node("bob.os");
    app.receive_opportunity_broadcast(
        "alice.os".to_string(),
        "aave-liquidation".to_string(),
        mk_opp("opp-done", 20_000_000_000, 50, 1000),
        900,
        10,
    );
    let receipt = AaveLiquidationReceipt {
        opp_id: "opp-done".to_string(),
        status: ExecutionStatus::Success,
        block_number: 950,
        tx_hash: "0xdead".to_string(),
        used_amounts: vec![],
        total_proceeds: 50,
        gas_paid_usdc: 0,
    };
    let proceeds = ProceedsBreakdown {
        asset: "ETH".to_string(),
        total: 50,
        gas_cost_usd: 0,
        finder_fee: 0,
        executor_fee: 0,
        net_profit: 50,
    };
    app.receive_execution_receipt("dave.os".to_string(), receipt, proceeds, 20);
    // A late intent is recorded for audit but triggers no execution plan.
    let r = app.receive_intent_submission(
        "carol.os".to_string(),
        AaveLiquidationIntent {
            opp_id: "opp-done".to_string(),
            asset: USDC.to_string(),
            max_amount: 100,
            min_bonus_bps: 500,
            expires_block: 1000,
        },
        100,
        1000,
        900,
        21,
    );
    assert!(r.is_none());
    assert!(app.plan_and_execute_opportunities(900).is_empty());
}

#[test]
fn pending_receipt_is_non_terminal() {
    let mut app = node("bob.os");
    let out = app.receive_opportunity_broadcast(
        "alice.os".to_string(),
        "aave-liquidation".to_string(),
        mk_opp("opp-p", 500, 50, 1000),
        900,
        10,
    );
    assert!(out.is_some());
    assert_eq!(app.ledger.committed_of(&USDC.to_string()), 500);
    let receipt = AaveLiquidationReceipt {
        opp_id: "opp-p".to_string(),
        status: ExecutionStatus::Pending,
        block_number: 950,
        tx_hash: "".to_string(),
        used_amounts: vec![],
        total_proceeds: 0,
        gas_paid_usdc: 0,
    };
    let proceeds = ProceedsBreakdown {
        asset: "ETH".to_string(),
        total: 0,
        gas_cost_usd: 0,
        finder_fee: 0,
        executor_fee: 0,
        net_profit: 0,
    };
    app.receive_execution_receipt("dave.os".to_string(), receipt, proceeds, 20);
    // Nothing recorded, nothing released: the settlement is still owed.
    assert_eq!(app.execution_receipts.len(), 0);
    assert_eq!(app.ledger.committed_of(&USDC.to_string()), 500);
}

#[test]
fn failed_receipt_releases_capital_with_zero_proceeds() {
    let mut app = node("bob.os");
    let out = app.receive_opportunity_broadcast(
        "alice.os".to_string(),
        "aave-liquidation".to_string(),
        mk_opp("opp-f", 500, 50, 1000),
        900,
        10,
    );
    assert!(out.is_some());
    assert_eq!(app.ledger.committed_of(&USDC.to_string()), 500);
    let receipt = AaveLiquidationReceipt {
        opp_id: "opp-f".to_string(),
        status: ExecutionStatus::Failed("reverted".to_string()),
        block_number: 950,
        tx_hash: "".to_string(),
        used_amounts: vec![CapitalUsage {
            node_id: "bob.os".to_string(),
            asset: USDC.to_string(),
            amount_used: 500,
            profit_share: 25,
        }],
        total_proceeds: 50,
        gas_paid_usdc: 0,
    };
    let proceeds = ProceedsBreakdown {
        asset: "ETH".to_string(),
        total: 50,
        gas_cost_usd: 0,
        finder_fee: 0,
        executor_fee: 0,
        net_profit: 50,
    };
    app.receive_execution_receipt("dave.os".to_string(), receipt, proceeds, 20);
    // The failure is recorded with zero proceeds, and the reserved capital
    // comes back even though this node's intent was the one used.
    let stored = app.execution_receipts.get(&"opp-f".to_string()).unwrap();
    assert_eq!(stored.our_proceeds, 0);
    assert!(matches!(stored.receipt.status, ExecutionStatus::Failed(_)));
    assert_eq!(app.ledger.committed_of(&USDC.to_string()), 0);
    assert_eq!(app.ledger.available_of(&USDC.to_string()), 10_000_000_000);
}
