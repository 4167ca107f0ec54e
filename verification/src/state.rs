//! The states of links, nodes and streams, as they are told by number.

use vstd::prelude::*;

verus! {

/// The number of the state of a link that has failed.
pub const PW_LINK_STATE_ERROR: i32 = -2;

/// The number of the state of a link that is unlinked.
pub const PW_LINK_STATE_UNLINKED: i32 = -1;

/// The number of the state of a link that is initialised.
pub const PW_LINK_STATE_INIT: i32 = 0;

/// The number of the state of a link that is negotiating.
pub const PW_LINK_STATE_NEGOTIATING: i32 = 1;

/// The number of the state of a link that is allocating.
pub const PW_LINK_STATE_ALLOCATING: i32 = 2;

/// The number of the state of a link that is paused.
pub const PW_LINK_STATE_PAUSED: i32 = 3;

/// The number of the state of a link that is active.
pub const PW_LINK_STATE_ACTIVE: i32 = 4;

/// The number of the state of a node that has failed.
pub const PW_NODE_STATE_ERROR: i32 = -1;

/// The number of the state of a node that is being created.
pub const PW_NODE_STATE_CREATING: i32 = 0;

/// The number of the state of a node that is suspended.
pub const PW_NODE_STATE_SUSPENDED: i32 = 1;

/// The number of the state of a node that is idle.
pub const PW_NODE_STATE_IDLE: i32 = 2;

/// The number of the state of a node that is running.
pub const PW_NODE_STATE_RUNNING: i32 = 3;

/// The number of the state of a stream that has failed.
pub const PW_STREAM_STATE_ERROR: i32 = -1;

/// The number of the state of a stream that is not connected.
pub const PW_STREAM_STATE_UNCONNECTED: i32 = 0;

/// The number of the state of a stream that is connecting.
pub const PW_STREAM_STATE_CONNECTING: i32 = 1;

/// The number of the state of a stream that is paused.
pub const PW_STREAM_STATE_PAUSED: i32 = 2;

/// The number of the state of a stream that is streaming.
pub const PW_STREAM_STATE_STREAMING: i32 = 3;

/// The state of a link.
#[derive(Debug)]
pub enum LinkState<'a> {
    /// The link has failed; the text says how.
    Error(&'a str),
    /// The link is not linked.
    Unlinked,
    /// The link is initialised.
    Init,
    /// The format is being negotiated.
    Negotiating,
    /// The buffers are being allocated.
    Allocating,
    /// The link is paused.
    Paused,
    /// The link is active.
    Active,
}

/// The state of a node.
#[derive(Debug)]
pub enum NodeState<'a> {
    /// The node has failed; the text says how.
    Error(&'a str),
    /// The node is being created.
    Creating,
    /// The node is suspended.
    Suspended,
    /// The node is idle.
    Idle,
    /// The node is running.
    Running,
}

/// The state of a stream.
#[derive(Debug, PartialEq)]
pub enum StreamState {
    /// The stream has failed; the text says how.
    Error(String),
    /// The stream is not connected.
    Unconnected,
    /// The stream is being connected.
    Connecting,
    /// The stream is paused.
    Paused,
    /// The stream is streaming.
    Streaming,
}

impl<'a> LinkState<'a> {
    /// The number of this state.
    pub open spec fn spec_raw(self) -> i32 {
        match self {
            LinkState::Error(_) => PW_LINK_STATE_ERROR,
            LinkState::Unlinked => PW_LINK_STATE_UNLINKED,
            LinkState::Init => PW_LINK_STATE_INIT,
            LinkState::Negotiating => PW_LINK_STATE_NEGOTIATING,
            LinkState::Allocating => PW_LINK_STATE_ALLOCATING,
            LinkState::Paused => PW_LINK_STATE_PAUSED,
            LinkState::Active => PW_LINK_STATE_ACTIVE,
        }
    }

    /// The state with the given number, if there is one. The error state
    /// carries `error`.
    pub fn from_raw(raw: i32, error: &'a str) -> (r: Option<Self>)
        ensures
            r is Some <==> PW_LINK_STATE_ERROR <= raw <= PW_LINK_STATE_ACTIVE,
            r is Some ==> r->0.spec_raw() == raw,
            r is Some && raw == PW_LINK_STATE_ERROR ==> r->0 == LinkState::Error(error),
    {
        if raw == PW_LINK_STATE_ERROR {
            Some(LinkState::Error(error))
        } else if raw == PW_LINK_STATE_UNLINKED {
            Some(LinkState::Unlinked)
        } else if raw == PW_LINK_STATE_INIT {
            Some(LinkState::Init)
        } else if raw == PW_LINK_STATE_NEGOTIATING {
            Some(LinkState::Negotiating)
        } else if raw == PW_LINK_STATE_ALLOCATING {
            Some(LinkState::Allocating)
        } else if raw == PW_LINK_STATE_PAUSED {
            Some(LinkState::Paused)
        } else if raw == PW_LINK_STATE_ACTIVE {
            Some(LinkState::Active)
        } else {
            None
        }
    }

    /// The number of this state.
    pub fn as_raw(&self) -> (r: i32)
        ensures
            r == self.spec_raw(),
    {
        match self {
            LinkState::Error(_) => PW_LINK_STATE_ERROR,
            LinkState::Unlinked => PW_LINK_STATE_UNLINKED,
            LinkState::Init => PW_LINK_STATE_INIT,
            LinkState::Negotiating => PW_LINK_STATE_NEGOTIATING,
            LinkState::Allocating => PW_LINK_STATE_ALLOCATING,
            LinkState::Paused => PW_LINK_STATE_PAUSED,
            LinkState::Active => PW_LINK_STATE_ACTIVE,
        }
    }
}

impl<'a> NodeState<'a> {
    /// The number of this state.
    pub open spec fn spec_raw(self) -> i32 {
        match self {
            NodeState::Error(_) => PW_NODE_STATE_ERROR,
            NodeState::Creating => PW_NODE_STATE_CREATING,
            NodeState::Suspended => PW_NODE_STATE_SUSPENDED,
            NodeState::Idle => PW_NODE_STATE_IDLE,
            NodeState::Running => PW_NODE_STATE_RUNNING,
        }
    }

    /// The state with the given number, if there is one. The error state
    /// carries `error`.
    pub fn from_raw(raw: i32, error: &'a str) -> (r: Option<Self>)
        ensures
            r is Some <==> PW_NODE_STATE_ERROR <= raw <= PW_NODE_STATE_RUNNING,
            r is Some ==> r->0.spec_raw() == raw,
            r is Some && raw == PW_NODE_STATE_ERROR ==> r->0 == NodeState::Error(error),
    {
        if raw == PW_NODE_STATE_ERROR {
            Some(NodeState::Error(error))
        } else if raw == PW_NODE_STATE_CREATING {
            Some(NodeState::Creating)
        } else if raw == PW_NODE_STATE_SUSPENDED {
            Some(NodeState::Suspended)
        } else if raw == PW_NODE_STATE_IDLE {
            Some(NodeState::Idle)
        } else if raw == PW_NODE_STATE_RUNNING {
            Some(NodeState::Running)
        } else {
            None
        }
    }

    /// The number of this state.
    pub fn as_raw(&self) -> (r: i32)
        ensures
            r == self.spec_raw(),
    {
        match self {
            NodeState::Error(_) => PW_NODE_STATE_ERROR,
            NodeState::Creating => PW_NODE_STATE_CREATING,
            NodeState::Suspended => PW_NODE_STATE_SUSPENDED,
            NodeState::Idle => PW_NODE_STATE_IDLE,
            NodeState::Running => PW_NODE_STATE_RUNNING,
        }
    }
}

impl StreamState {
    /// The state with the given number. Every number that is not the number
    /// of another state is the error state, which carries `error`.
    pub fn from_raw(raw: i32, error: String) -> (r: Self)
        ensures
            raw == PW_STREAM_STATE_UNCONNECTED ==> r == StreamState::Unconnected,
            raw == PW_STREAM_STATE_CONNECTING ==> r == StreamState::Connecting,
            raw == PW_STREAM_STATE_PAUSED ==> r == StreamState::Paused,
            raw == PW_STREAM_STATE_STREAMING ==> r == StreamState::Streaming,
            raw < PW_STREAM_STATE_UNCONNECTED || raw > PW_STREAM_STATE_STREAMING ==> r
                == StreamState::Error(error),
    {
        if raw == PW_STREAM_STATE_UNCONNECTED {
            StreamState::Unconnected
        } else if raw == PW_STREAM_STATE_CONNECTING {
            StreamState::Connecting
        } else if raw == PW_STREAM_STATE_PAUSED {
            StreamState::Paused
        } else if raw == PW_STREAM_STATE_STREAMING {
            StreamState::Streaming
        } else {
            StreamState::Error(error)
        }
    }
}

} // verus!
