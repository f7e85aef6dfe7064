use vstd::prelude::*;

pub mod utils;
pub mod safety;
pub mod text;
pub mod split;
pub mod num;
pub mod order;
pub mod table;
pub mod firewall;
pub mod port;
pub mod self_update;
pub mod reclaim;
pub mod paths;
pub mod trusttunnel;
pub mod mieru;
pub mod setup_ssh;
pub mod singbox;

verus! {
} // verus!
