use crate::node_packets::{LoraParam, NodeWorkingMode};
use vstd::prelude::*;

pub mod wire;
pub mod node_packets;
pub mod node_codec;
pub mod codec_laws;
pub mod bridge;
pub mod clients;
pub mod serial_bridge;
pub mod input;

verus! {

/// The serial port and radio settings chosen for a node.
#[derive(Debug, Clone)]
pub struct NodeConfig {
    pub port_name: String,
    pub params: LoraParam,
    pub mode: NodeWorkingMode,
}

} // verus!
