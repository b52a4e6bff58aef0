//! An asynchronous IEEE 802.11 stack for radios with several virtual interfaces.
//!
//! The stack is made of state machines. Whoever drives them performs their transmissions, waits
//! for frames and deadlines, and hands back what happened; nothing here blocks.
//!
//! - [stack] puts the parts together, and gives out the virtual interfaces.
//! - [lmac] shares the channel and the key slots of the radio between the interfaces.
//! - [bg_task] and [rx_arc_pool] distribute received frames, [tx_queue] and
//!   [tx_buffer_management] take frames for transmission, [tx_trace] tells what becomes of them.
//! - [util] holds what interfaces have in common: a router for received frames, and operations
//!   like scanning.
//! - [sta] is a station, [awdl] a peer of Apple Wireless Direct Link.
//! - [frame], [mgmt], [elements], [eapol] and [msdu] read and write frames.
use vstd::prelude::*;

pub mod awdl;
pub mod bg_task;
pub mod bytes;
pub mod eapol;
pub mod elements;
pub mod frame;
pub mod lmac;
pub mod mac;
pub mod mgmt;
pub mod msdu;
pub mod queue;
pub mod radio;
pub mod rx_arc_pool;
pub mod sta;
pub mod stack;
mod time;
pub mod tx_buffer_management;
pub mod tx_probe;
pub mod tx_queue;
pub mod tx_trace;
pub mod util;

verus! {

} // verus!
