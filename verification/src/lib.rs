//! Settlement of a cross-chain message-relay fee market.
//!
//! Relayers compete to carry messages between two chains. Each message gets an
//! [`order::Order`]: a schedule of time slots, one per assigned relayer. Once the delivery
//! of a batch of messages is confirmed, the [`settlement`] decides, order by order, who is
//! slashed ([`slash`]) and who is paid ([`reward`]), and the [`payment`] module turns the
//! sums into transfers.
//!
//! The library moves no funds and reads no storage. Whatever it needs from the ledger it
//! asks of its caller, one request at a time.

pub mod config;
pub mod order;
pub mod payment;
pub mod ratio;
pub mod relayer;
pub mod reward;
pub mod settlement;
pub mod slash;
