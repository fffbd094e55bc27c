//! The messages that the console and a node exchange.
use vstd::prelude::*;

verus! {

/// Asks a node to run a command.
#[derive(Debug, PartialEq, Eq)]
pub struct TaskRequest {
    pub id: String,
    pub command: String,
    pub workdir: String,
}

/// The node's answer to a `TaskRequest`.
#[derive(Debug, PartialEq, Eq)]
pub struct TaskSubmitted {
    pub id: String,
    pub accepted: bool,
    pub message: String,
}

/// A piece of a project archive.
#[derive(Debug, PartialEq, Eq)]
pub struct ProjectChunk {
    pub job_id: String,
    pub data: Vec<u8>,
}

/// The node's answer to an upload.
#[derive(Debug, PartialEq, Eq)]
pub struct UploadAck {
    pub job_id: String,
    pub ok: bool,
    pub message: String,
}

/// News of a node.
#[derive(Debug, PartialEq, Eq)]
pub struct StatusUpdate {
    pub node_name: String,
    /// The processor load in percent: the bits of a single-precision float.
    pub cpu_usage: u32,
    pub free_ram_bytes: u64,
    /// What the node runs, empty while it is idle.
    pub current_task: String,
    /// A line for the log, empty where there is none.
    pub log_line: String,
}

/// The value of a `ProjectChunk`.
#[verifier::ext_equal]
pub struct ChunkModel {
    pub job_id: Seq<char>,
    pub data: Seq<u8>,
}

impl View for ProjectChunk {
    type V = ChunkModel;

    open spec fn view(&self) -> ChunkModel {
        ChunkModel { job_id: self.job_id@, data: self.data@ }
    }
}

/// The value of a `StatusUpdate`.
#[verifier::ext_equal]
pub struct UpdateModel {
    pub node_name: Seq<char>,
    pub cpu_usage: u32,
    pub free_ram_bytes: u64,
    pub current_task: Seq<char>,
    pub log_line: Seq<char>,
}

impl View for StatusUpdate {
    type V = UpdateModel;

    open spec fn view(&self) -> UpdateModel {
        UpdateModel {
            node_name: self.node_name@,
            cpu_usage: self.cpu_usage,
            free_ram_bytes: self.free_ram_bytes,
            current_task: self.current_task@,
            log_line: self.log_line@,
        }
    }
}

} // verus!
