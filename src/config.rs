use vstd::prelude::*;
use crate::ballot::Ballot;
use core::time::Duration;

verus! {

/// Default capacity of the channels between the components.
pub const BUFFER_SIZE: usize = 100000;

/// Default heartbeat interval of leader election, in milliseconds.
pub const HB_TIMEOUT: u64 = 100;

/// Relies on `Duration::from_millis` to build the default heartbeat interval;
/// nothing is assumed of the value it returns.
pub assume_specification[ core::time::Duration::from_millis ](millis: u64) -> Duration;

/// Configuration of one replica.
#[derive(Debug)]
pub struct NodeConfig {
    /// This node's identifier.
    pub pid: u64,
    /// The other replicas of the configuration.
    pub peers: Vec<u64>,
    /// Heartbeat interval of leader election.
    pub leader_timeout: Duration,
    /// Capacity of the channels between the components.
    pub buffer_size: usize,
    /// A leader ballot to start with, which skips the first prepare phase.
    pub initial_leader: Option<Ballot>,
    /// Grace period before the first heartbeat round.
    pub initial_leader_timeout: Option<Duration>,
    /// Leader-preference tie-breaker.
    pub priority: Option<u64>,
    /// Where to write the log of events, if anywhere.
    pub logger_path: Option<String>,
}

/// Why a configuration was refused.
#[derive(Debug)]
pub enum NodeConfigErr {
    /// The node id is 0.
    InvalidPid(u64),
    /// The peers are empty or contain the node itself.
    InvalidPeers(u64, Vec<u64>),
}

impl NodeConfig {
    pub fn set_pid(&mut self, pid: u64)
        ensures
            *final(self) == (NodeConfig { pid, ..*old(self) }),
    {
        self.pid = pid;
    }

    pub fn set_peers(&mut self, peers: Vec<u64>)
        ensures
            *final(self) == (NodeConfig { peers, ..*old(self) }),
    {
        self.peers = peers;
    }

    pub fn set_leader_timeout(&mut self, timeout: Duration)
        ensures
            *final(self) == (NodeConfig { leader_timeout: timeout, ..*old(self) }),
    {
        self.leader_timeout = timeout;
    }

    pub fn set_buffer_size(&mut self, size: usize)
        ensures
            *final(self) == (NodeConfig { buffer_size: size, ..*old(self) }),
    {
        self.buffer_size = size;
    }

    pub fn set_initial_leader(&mut self, b: Ballot)
        ensures
            *final(self) == (NodeConfig { initial_leader: Some(b), ..*old(self) }),
    {
        self.initial_leader = Some(b);
    }

    pub fn set_initial_leader_timeout(&mut self, timeout: Duration)
        ensures
            *final(self) == (NodeConfig { initial_leader_timeout: Some(timeout), ..*old(self) }),
    {
        self.initial_leader_timeout = Some(timeout);
    }

    pub fn set_priority(&mut self, priority: u64)
        ensures
            *final(self) == (NodeConfig { priority: Some(priority), ..*old(self) }),
    {
        self.priority = Some(priority);
    }

    pub fn set_logger_path(&mut self, s: String)
        ensures
            *final(self) == (NodeConfig { logger_path: Some(s), ..*old(self) }),
    {
        self.logger_path = Some(s);
    }

    /// A valid configuration has a non-zero id and a non-empty set of peers that
    /// does not contain the node itself.
    pub open spec fn is_valid(&self) -> bool {
        self.pid != 0 && self.peers@.len() > 0 && !self.peers@.contains(self.pid)
    }

    /// Checks the configuration: `InvalidPid` for id 0, otherwise `InvalidPeers`
    /// when the peers are empty or contain the node itself.
    pub fn validate(&self) -> (r: Result<(), NodeConfigErr>)
        ensures
            r is Ok <==> self.is_valid(),
            self.pid == 0 <==> r == Err::<(), NodeConfigErr>(NodeConfigErr::InvalidPid(0)),
            self.pid != 0 && !self.is_valid() ==> (r matches Err(
                NodeConfigErr::InvalidPeers(pid, peers),
            ) && pid == self.pid && peers@ == self.peers@),
    {
        if self.pid == 0 {
            return Err(NodeConfigErr::InvalidPid(self.pid));
        }
        let mut i: usize = 0;
        let mut found = false;
        while i < self.peers.len()
            invariant
                i <= self.peers@.len(),
                found <==> exists|j: int| 0 <= j < i && self.peers@[j] == self.pid,
            decreases self.peers@.len() - i,
        {
            if self.peers[i] == self.pid {
                found = true;
            }
            i = i + 1;
        }
        if self.peers.len() == 0 || found {
            return Err(NodeConfigErr::InvalidPeers(self.pid, self.peers.clone()));
        }
        Ok(())
    }
}

impl Default for NodeConfig {
    fn default() -> (r: Self)
        ensures
            r.pid == 0,
            r.peers@.len() == 0,
            r.buffer_size == BUFFER_SIZE,
            r.initial_leader is None,
            r.initial_leader_timeout is None,
            r.priority is None,
            r.logger_path is None,
    {
        Self {
            pid: 0,
            peers: Vec::new(),
            buffer_size: BUFFER_SIZE,
            initial_leader: None,
            leader_timeout: Duration::from_millis(HB_TIMEOUT),
            initial_leader_timeout: None,
            priority: None,
            logger_path: None,
        }
    }
}

} // verus!
