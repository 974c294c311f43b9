//! Outbound protocol messages and how they are routed.
//!
//! The router is fire-and-forget: it decides *what* is sent *to whom*; the
//! host transport performs the sends and may fail silently.  Broadcast
//! messages go to every known peer, announcements go point-to-point.

use vstd::prelude::*;

use crate::peers::PeerRegistry;
use crate::types::{AaveLiquidationIntent, AaveLiquidationOpportunity, AaveLiquidationReceipt,
    IntentData, NodeInfo, ProceedsBreakdown};

verus! {

/// The four kinds of peer-to-peer protocol messages.
pub enum WireMessage {
    /// Point-to-point greeting; triggers a registry insert and a reciprocal
    /// announcement.
    NodeAnnouncement { node_info: NodeInfo, capabilities: Vec<String>, timestamp: u64 },
    /// Fan-out of a discovered opportunity.
    OpportunityBroadcast {
        opp_id: String,
        strategy_id: String,
        opportunity: AaveLiquidationOpportunity,
        finder_fee_bps: u16,
        deadline_block: u64,
    },
    /// Fan-out of a capital commitment.
    IntentSubmission {
        opp_id: String,
        strategy_id: String,
        intent: AaveLiquidationIntent,
        max_amount: u64,
        min_bonus_bps: u16,
        expires_block: u64,
    },
    /// Fan-out of a settlement receipt.
    ExecutionReceipt {
        opp_id: String,
        strategy_id: String,
        receipt: AaveLiquidationReceipt,
        block_number: u64,
        tx_hash: String,
        gas_used: u64,
        proceeds: ProceedsBreakdown,
    },
}

/// One outbound send: a message and the peers it goes to.
pub struct Outbound {
    pub targets: Vec<String>,
    pub message: WireMessage,
}

/// Plans a fan-out of `message` to every peer in the registry.
pub fn broadcast(peers: &PeerRegistry, message: WireMessage) -> (r: Outbound)
    ensures
        r.targets@ == peers.peers@,
        r.message == message,
{
    Outbound { targets: peers.targets(), message }
}

/// Plans a point-to-point send of `message` to one peer.
pub fn send_to(peer: &String, message: WireMessage) -> (r: Outbound)
    ensures
        r.targets@.len() == 1,
        r.targets@[0]@ == peer@,
        r.message == message,
{
    let mut targets: Vec<String> = Vec::new();
    targets.push(peer.clone());
    Outbound { targets, message }
}

/// The executor's selection handed to the external execution collaborator.
pub struct ExecutionRequest {
    pub opp_id: String,
    pub intent: IntentData,
}

} // verus!
