//! What the console knows of the node it is connected to.
use vstd::prelude::*;

verus! {

/// The state of a node as the console last heard of it.
#[derive(Debug, PartialEq, Eq)]
pub struct NodeStatus {
    pub node_name: String,
    /// The processor load in percent: the bits of a single-precision float.
    pub cpu_usage: u32,
    pub free_ram_bytes: u64,
    /// What the node runs, empty while it is idle.
    pub current_task: String,
    pub connected: bool,
    /// When the node was last heard of, in milliseconds on the console's clock.
    pub last_seen: Option<u64>,
}

/// The value of a `NodeStatus`.
#[verifier::ext_equal]
pub struct NodeStatusModel {
    pub node_name: Seq<char>,
    pub cpu_usage: u32,
    pub free_ram_bytes: u64,
    pub current_task: Seq<char>,
    pub connected: bool,
    pub last_seen: Option<u64>,
}

impl NodeStatusModel {
    /// A node of which nothing is known.
    pub open spec fn unknown() -> Self {
        NodeStatusModel {
            node_name: Seq::empty(),
            cpu_usage: 0,
            free_ram_bytes: 0,
            current_task: Seq::empty(),
            connected: false,
            last_seen: None,
        }
    }
}

impl View for NodeStatus {
    type V = NodeStatusModel;

    open spec fn view(&self) -> NodeStatusModel {
        NodeStatusModel {
            node_name: self.node_name@,
            cpu_usage: self.cpu_usage,
            free_ram_bytes: self.free_ram_bytes,
            current_task: self.current_task@,
            connected: self.connected,
            last_seen: self.last_seen,
        }
    }
}

impl Default for NodeStatus {
    fn default() -> (r: Self)
        ensures
            r@ == NodeStatusModel::unknown(),
    {
        NodeStatus {
            node_name: String::new(),
            cpu_usage: 0,
            free_ram_bytes: 0,
            current_task: String::new(),
            connected: false,
            last_seen: None,
        }
    }
}

impl Clone for NodeStatus {
    fn clone(&self) -> (r: Self)
        ensures
            r@ == self@,
    {
        NodeStatus {
            node_name: self.node_name.clone(),
            cpu_usage: self.cpu_usage,
            free_ram_bytes: self.free_ram_bytes,
            current_task: self.current_task.clone(),
            connected: self.connected,
            last_seen: self.last_seen,
        }
    }
}

} // verus!
