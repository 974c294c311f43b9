//! Unit tests for the validation, ledger, store and arithmetic modules.

use hyper_mev::intents::IntentStore;
use hyper_mev::ledger::CapitalLedger;
use hyper_mev::opportunities::{OpportunityStore, UpsertOutcome};
use hyper_mev::peers::PeerRegistry;
use hyper_mev::receipts::ReceiptStore;
use hyper_mev::shares::{contribution_of, fee_of, make_breakdown, net_profit_of, share_of,
    total_used_of};
use hyper_mev::strategy::{assess_position, execution_receipt_for, should_monitor};
use hyper_mev::types::{AaveLiquidationIntent, AaveLiquidationOpportunity, AaveLiquidationReceipt,
    ApiError, CapitalUsage, ExecutionStatus, IntentData, NodeConfig, OpportunityData, ReceiptData};
use hyper_mev::validation::{is_asset_address, parse_amount};

const USDC: &str = "0xA0b86991c6218b36c1d19D4a2e9Eb0cE3606eB48";

fn opp(id: &str, repay: u64, profit: u64, deadline: u64) -> AaveLiquidationOpportunity {
    AaveLiquidationOpportunity {
        opp_id: id.to_string(),
        victim_address: "0x742d35Cc6634C0532925a3b844D0C4E7F2a21eBc".to_string(),
        repay_asset: USDC.to_string(),
        seize_asset: "0xC02aaA39b223FE8D0A0e5C4F27eAD9083C756Cc2".to_string(),
        max_repay_amount: repay,
        min_bonus_bps: 500,
        health_factor: 950_000_000_000_000_000,
        deadline_block: deadline,
        estimated_profit_usd: profit,
    }
}

fn intent_data(opp_id: &str, submitter: &str, amount: u64, received_at: u64) -> IntentData {
    IntentData {
        intent: AaveLiquidationIntent {
            opp_id: opp_id.to_string(),
            asset: USDC.to_string(),
            max_amount: amount,
            min_bonus_bps: 500,
            expires_block: 1000,
        },
        submitter_node: submitter.to_string(),
        max_amount: amount,
        expires_block: 1000,
        received_at,
    }
}

#[test]
fn parse_amount_accepts_decimal_strings() {
    assert_eq!(parse_amount("0"), Some(0));
    assert_eq!(parse_amount("1500000000"), Some(1_500_000_000));
    assert_eq!(parse_amount("007"), Some(7));
    assert_eq!(parse_amount("10000000000000000000"), Some(10_000_000_000_000_000_000));
    assert_eq!(parse_amount("18446744073709551615"), Some(u64::MAX));
}

#[test]
fn parse_amount_rejects_bad_strings() {
    assert_eq!(parse_amount(""), None);
    assert_eq!(parse_amount("12a3"), None);
    assert_eq!(parse_amount("-5"), None);
    assert_eq!(parse_amount(" 12"), None);
    assert_eq!(parse_amount("18446744073709551616"), None);
    assert_eq!(parse_amount("99999999999999999999999"), None);
}

#[test]
fn asset_address_format() {
    assert!(is_asset_address(USDC));
    assert!(is_asset_address("0xC02aaA39b223FE8D0A0e5C4F27eAD9083C756Cc2"));
    assert!(!is_asset_address("0xA0b86991c6218b36c1d19D4a2e9Eb0cE3606eB4"));
    assert!(!is_asset_address("1xA0b86991c6218b36c1d19D4a2e9Eb0cE3606eB48"));
    assert!(!is_asset_address("0xA0b86991c6218b36c1d19D4a2e9Eb0cE3606eBZ8"));
    assert!(!is_asset_address("USDC"));
    assert!(!is_asset_address(""));
}

#[test]
fn ledger_deposit_and_reserve() {
    let mut ledger = CapitalLedger::new();
    let usdc = USDC.to_string();
    assert!(ledger.deposit(&usdc, 1000).is_ok());
    assert_eq!(ledger.available_of(&usdc), 1000);
    assert_eq!(ledger.committed_of(&usdc), 0);
    assert!(ledger.reserve(&usdc, 600).is_ok());
    assert_eq!(ledger.committed_of(&usdc), 600);
    assert_eq!(ledger.free_of(&usdc), 400);
    // Capital safety: a second reservation beyond the free balance fails
    // and changes nothing.
    assert!(ledger.reserve(&usdc, 500).is_err());
    assert_eq!(ledger.committed_of(&usdc), 600);
    assert_eq!(ledger.available_of(&usdc), 1000);
    assert!(ledger.committed_of(&usdc) <= ledger.available_of(&usdc));
}

#[test]
fn ledger_release_saturates_at_zero() {
    let mut ledger = CapitalLedger::new();
    let usdc = USDC.to_string();
    assert!(ledger.deposit(&usdc, 1000).is_ok());
    assert!(ledger.reserve(&usdc, 300).is_ok());
    // Duplicate-message over-release must not go negative.
    ledger.release(&usdc, 500);
    assert_eq!(ledger.committed_of(&usdc), 0);
    assert_eq!(ledger.available_of(&usdc), 1000);
    // Releasing an untracked asset is a no-op.
    ledger.release(&"0xC02aaA39b223FE8D0A0e5C4F27eAD9083C756Cc2".to_string(), 100);
    assert_eq!(ledger.committed_of(&usdc), 0);
}

#[test]
fn ledger_deposit_overflow_is_rejected() {
    let mut ledger = CapitalLedger::new();
    let usdc = USDC.to_string();
    assert!(ledger.deposit(&usdc, u64::MAX).is_ok());
    let r = ledger.deposit(&usdc, 1);
    assert!(matches!(r, Err(ApiError::BalanceOverflow)));
    assert_eq!(ledger.available_of(&usdc), u64::MAX);
}

#[test]
fn ledger_tracks_assets_independently() {
    let mut ledger = CapitalLedger::new();
    let usdc = USDC.to_string();
    let weth = "0xC02aaA39b223FE8D0A0e5C4F27eAD9083C756Cc2".to_string();
    assert!(ledger.deposit(&usdc, 500).is_ok());
    assert!(ledger.deposit(&weth, 900).is_ok());
    assert!(ledger.reserve(&weth, 900).is_ok());
    assert_eq!(ledger.available_of(&usdc), 500);
    assert_eq!(ledger.committed_of(&usdc), 0);
    assert_eq!(ledger.committed_of(&weth), 900);
    assert_eq!(ledger.assets().len(), 2);
}

#[test]
fn opportunity_upsert_is_idempotent_on_id() {
    let mut store = OpportunityStore::new();
    let data = OpportunityData {
        opportunity: opp("opp-1", 1000, 50, 1000),
        strategy_id: "aave-liquidation".to_string(),
        finder_node: "alice.os".to_string(),
        received_at: 10,
    };
    assert_eq!(store.upsert(data), UpsertOutcome::New);
    assert_eq!(store.len(), 1);
    // The same broadcast delivered again: exactly one stored opportunity.
    let dup = OpportunityData {
        opportunity: opp("opp-1", 1000, 50, 1000),
        strategy_id: "aave-liquidation".to_string(),
        finder_node: "bob.os".to_string(),
        received_at: 10,
    };
    assert_eq!(store.upsert(dup), UpsertOutcome::Ignored);
    assert_eq!(store.len(), 1);
    assert_eq!(store.get(&"opp-1".to_string()).unwrap().finder_node, "alice.os");
}

#[test]
fn opportunity_upsert_keeps_newest_record() {
    let mut store = OpportunityStore::new();
    let first = OpportunityData {
        opportunity: opp("opp-1", 1000, 50, 1000),
        strategy_id: "aave-liquidation".to_string(),
        finder_node: "alice.os".to_string(),
        received_at: 10,
    };
    assert_eq!(store.upsert(first), UpsertOutcome::New);
    let newer = OpportunityData {
        opportunity: opp("opp-1", 1200, 60, 1100),
        strategy_id: "aave-liquidation".to_string(),
        finder_node: "carol.os".to_string(),
        received_at: 20,
    };
    assert_eq!(store.upsert(newer), UpsertOutcome::Refreshed);
    assert_eq!(store.len(), 1);
    let got = store.get(&"opp-1".to_string()).unwrap();
    assert_eq!(got.received_at, 20);
    assert_eq!(got.opportunity.max_repay_amount, 1200);
}

#[test]
fn opportunity_expiry_boundary() {
    let o = opp("opp-1", 1000, 50, 100);
    assert!(!o.is_expired(99));
    assert!(!o.is_expired(100));
    assert!(o.is_expired(101));
}

#[test]
fn select_best_prefers_greatest_amount_then_earliest() {
    let mut store = IntentStore::new();
    let id = "opp-1".to_string();
    store.upsert(&id, intent_data("opp-1", "node-a", 100, 1));
    store.upsert(&id, intent_data("opp-1", "node-b", 150, 2));
    store.upsert(&id, intent_data("opp-1", "node-c", 150, 3));
    let best = store.select_best(&id).unwrap();
    // B wins: greatest amount, earliest among the 150-tie.
    assert_eq!(best.submitter_node, "node-b");
    assert_eq!(best.max_amount, 150);
    assert_eq!(best.received_at, 2);
}

#[test]
fn select_best_of_empty_store_is_none() {
    let store = IntentStore::new();
    assert!(store.select_best(&"opp-1".to_string()).is_none());
}

#[test]
fn intent_resubmission_replaces_in_place() {
    let mut store = IntentStore::new();
    let id = "opp-1".to_string();
    store.upsert(&id, intent_data("opp-1", "node-a", 100, 1));
    store.upsert(&id, intent_data("opp-1", "node-b", 90, 2));
    // node-a submits again: replaced, not accumulated, and keeps its slot.
    store.upsert(&id, intent_data("opp-1", "node-a", 120, 3));
    let intents = store.get(&id).unwrap();
    assert_eq!(intents.len(), 2);
    assert_eq!(intents[0].submitter_node, "node-a");
    assert_eq!(intents[0].max_amount, 120);
    assert_eq!(intents[1].submitter_node, "node-b");
}

#[test]
fn intents_are_kept_per_opportunity() {
    let mut store = IntentStore::new();
    store.upsert(&"opp-1".to_string(), intent_data("opp-1", "node-a", 100, 1));
    store.upsert(&"opp-2".to_string(), intent_data("opp-2", "node-a", 300, 2));
    assert_eq!(store.get(&"opp-1".to_string()).unwrap().len(), 1);
    assert_eq!(store.get(&"opp-2".to_string()).unwrap()[0].max_amount, 300);
}

#[test]
fn receipt_store_last_write_wins() {
    let mut store = ReceiptStore::new();
    let receipt = |proceeds: u64, at: u64| ReceiptData {
        receipt: AaveLiquidationReceipt {
            opp_id: "opp-1".to_string(),
            status: ExecutionStatus::Success,
            block_number: 123,
            tx_hash: "0x1234".to_string(),
            used_amounts: vec![],
            total_proceeds: proceeds,
            gas_paid_usdc: 0,
        },
        executor_node: "dave.os".to_string(),
        our_proceeds: 0,
        verified_at: at,
    };
    store.insert(receipt(100, 1));
    store.insert(receipt(200, 2));
    assert_eq!(store.len(), 1);
    let got = store.get(&"opp-1".to_string()).unwrap();
    assert_eq!(got.receipt.total_proceeds, 200);
    assert_eq!(got.verified_at, 2);
}

#[test]
fn peer_registry_deduplicates() {
    let mut peers = PeerRegistry::new();
    assert!(peers.insert(&"bob.os".to_string()));
    assert!(peers.insert(&"carol.os".to_string()));
    assert!(!peers.insert(&"bob.os".to_string()));
    assert_eq!(peers.len(), 2);
    assert!(peers.contains(&"carol.os".to_string()));
    assert!(!peers.contains(&"dave.os".to_string()));
}

#[test]
fn fee_arithmetic_is_exact() {
    assert_eq!(fee_of(10_000, 100), 100);
    assert_eq!(fee_of(10_000, 10_000), 10_000);
    assert_eq!(fee_of(50, 100), 0);
    assert_eq!(fee_of(999, 250), 24);
    assert_eq!(fee_of(0, 10_000), 0);
}

#[test]
fn net_profit_floors_at_zero() {
    assert_eq!(net_profit_of(1000, 100, 10, 5), 885);
    assert_eq!(net_profit_of(100, 200, 0, 0), 0);
    assert_eq!(net_profit_of(100, 50, 40, 30), 0);
}

#[test]
fn breakdown_reconciles() {
    let b = make_breakdown("ETH".to_string(), 10_000, 500, 100, 50);
    assert_eq!(b.total, 10_000);
    assert_eq!(b.gas_cost_usd, 500);
    assert_eq!(b.finder_fee, 100);
    assert_eq!(b.executor_fee, 50);
    assert_eq!(b.net_profit, 10_000 - 500 - 100 - 50);
}

#[test]
fn share_is_proportional_and_bounded() {
    assert_eq!(share_of(100, 1, 3), 33);
    assert_eq!(share_of(100, 2, 3), 66);
    assert_eq!(share_of(50, 1000, 1000), 50);
    assert_eq!(share_of(50, 0, 1000), 0);
    assert_eq!(share_of(50, 400, 0), 0);
    // A claimed contribution beyond the total earns no more than the whole.
    assert_eq!(share_of(50, 2000, 1000), 50);
    // Rounded-down shares never exceed the net profit in total.
    let s1 = share_of(100, 1, 3);
    let s2 = share_of(100, 1, 3);
    let s3 = share_of(100, 1, 3);
    assert!(s1 + s2 + s3 <= 100);
}

#[test]
fn usage_totals_and_contributions() {
    let used = vec![
        CapitalUsage {
            node_id: "carol.os".to_string(),
            asset: USDC.to_string(),
            amount_used: 700,
            profit_share: 35,
        },
        CapitalUsage {
            node_id: "bob.os".to_string(),
            asset: USDC.to_string(),
            amount_used: 300,
            profit_share: 15,
        },
        CapitalUsage {
            node_id: "carol.os".to_string(),
            asset: USDC.to_string(),
            amount_used: 100,
            profit_share: 5,
        },
    ];
    assert_eq!(total_used_of(&used), Some(1100));
    assert_eq!(contribution_of(&used, &"carol.os".to_string()), 800);
    assert_eq!(contribution_of(&used, &"bob.os".to_string()), 300);
    assert_eq!(contribution_of(&used, &"dave.os".to_string()), 0);
    let overflowing = vec![
        CapitalUsage {
            node_id: "a".to_string(),
            asset: USDC.to_string(),
            amount_used: u64::MAX,
            profit_share: 0,
        },
        CapitalUsage {
            node_id: "b".to_string(),
            asset: USDC.to_string(),
            amount_used: 1,
            profit_share: 0,
        },
    ];
    assert_eq!(total_used_of(&overflowing), None);
}

#[test]
fn monitoring_window() {
    let threshold = 1_000_000_000_000_000_000u64;
    assert!(should_monitor(900_000_000_000_000_000, threshold));
    assert!(should_monitor(1_999_999_999_999_999_999, threshold));
    assert!(!should_monitor(0, threshold));
    assert!(!should_monitor(2_000_000_000_000_000_000, threshold));
}

#[test]
fn position_assessment() {
    let threshold = 1_000_000_000_000_000_000u64;
    // Healthy position: not liquidatable.
    assert!(assess_position(threshold, 3_000_000_000, threshold, 1).is_none());
    // Unhealthy and profitable: repay half the debt, a twentieth as profit.
    let q = assess_position(950_000_000_000_000_000, 3_000_000_000, threshold, 1_000_000)
        .unwrap();
    assert_eq!(q.max_repay_amount, 1_500_000_000);
    assert_eq!(q.estimated_profit, 75_000_000);
    // Unhealthy but below the profit threshold: skipped.
    assert!(assess_position(950_000_000_000_000_000, 100, threshold, 1_000_000).is_none());
}

#[test]
fn receipt_for_best_intent() {
    let best = intent_data("opp-1", "carol.os", 1000, 5);
    let r = execution_receipt_for(
        "opp-1".to_string(),
        &best,
        4242,
        "0xabcd".to_string(),
        2_000_000_000,
        50_000_000,
        1_000_000_000,
    );
    assert_eq!(r.opp_id, "opp-1");
    assert!(matches!(r.status, ExecutionStatus::Success));
    assert_eq!(r.block_number, 4242);
    assert_eq!(r.used_amounts.len(), 1);
    assert_eq!(r.used_amounts[0].node_id, "carol.os");
    assert_eq!(r.used_amounts[0].amount_used, 1000);
    assert_eq!(r.total_proceeds, 2_000_000_000);
}

#[test]
fn stock_configuration() {
    let c = NodeConfig::default();
    assert_eq!(c.node_id, "");
    assert_eq!(c.publisher, "skeleton.os");
    assert_eq!(c.enabled_strategies, vec!["aave-liquidation".to_string()]);
    assert!(c.finder_enabled && c.capital_provider_enabled && c.executor_enabled);
    assert_eq!(c.finder_fee_bps, 100);
    assert_eq!(c.executor_fee_bps, 50);
    assert_eq!(c.min_profit_threshold_usd, 10_000_000_000_000_000_000);
    assert_eq!(c.max_gas_price_gwei, 50);
}
