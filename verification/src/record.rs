//! The records that discovery yields, and their models.

use vstd::prelude::*;
use crate::text::texts;

verus! {

/// The ecosystem that a server most likely belongs to.
#[derive(Clone, Copy, PartialEq, Eq, Structural, Debug)]
pub enum Source {
    Claude,
    Copilot,
    System,
    Unknown,
}

/// A server that was found running or configured. A `pid` of 0 stands for a
/// server that is configured only.
#[derive(Clone, Debug)]
pub struct RunningMcpServer {
    pub name: String,
    pub pid: u32,
    pub command: String,
    pub args: Vec<String>,
    pub source: Source,
    pub config_path: Option<String>,
}

/// What a record says, as plain sequences.
pub struct ServerModel {
    pub name: Seq<char>,
    pub pid: u32,
    pub command: Seq<char>,
    pub args: Seq<Seq<char>>,
    pub source: Source,
    pub config_path: Option<Seq<char>>,
}

impl View for RunningMcpServer {
    type V = ServerModel;

    open spec fn view(&self) -> ServerModel {
        ServerModel {
            name: self.name@,
            pid: self.pid,
            command: self.command@,
            args: texts(self.args@),
            source: self.source,
            config_path: match self.config_path {
                Some(p) => Some(p@),
                None => None,
            },
        }
    }
}

/// The models of a sequence of records.
pub open spec fn models(v: Seq<RunningMcpServer>) -> Seq<ServerModel> {
    Seq::new(v.len(), |i: int| v[i]@)
}

/// Every record is that of a server that is configured only.
pub open spec fn all_configured(r: Seq<ServerModel>) -> bool {
    forall|k: int| 0 <= k < r.len() ==> (#[trigger] r[k]).pid == 0
}

/// Every record is that of a running process.
pub open spec fn all_live(r: Seq<ServerModel>) -> bool {
    forall|k: int| 0 <= k < r.len() ==> (#[trigger] r[k]).pid != 0
}

/// All servers that one query found, by where they were found.
#[derive(Debug)]
pub struct SystemMcpServers {
    pub running_servers: Vec<RunningMcpServer>,
    pub copilot_servers: Vec<RunningMcpServer>,
    pub claude_servers: Vec<RunningMcpServer>,
}

} // verus!
