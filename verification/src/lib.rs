//! Peer coordination engine for a mesh of cooperating MEV nodes.
//!
//! Each node tracks discovered liquidation opportunities, collects capital
//! commitments ("intents") from peers, selects an execution plan, and
//! accounts for the resulting proceeds.  The engine is pure bookkeeping on
//! plain values: the host process supplies network, clock and chain access
//! and hands every inbound message to the handlers defined here.

pub mod assoc;
pub mod coordinator;
pub mod intents;
pub mod ledger;
pub mod messages;
pub mod opportunities;
pub mod peers;
pub mod receipts;
pub mod shares;
pub mod strategy;
pub mod types;
pub mod validation;
