//! Message vocabulary of the protocol: top-level requests, the messages a
//! client sends, the messages the server sends back, and the error values
//! that operations and the transport can produce.
//!
//! Vectors travel as `Vec<u64>` of scalar components; records and search
//! results are named by opaque `u64` record handles; indexes are named by
//! `u64` index identifiers.  Each exec message type has a spec-level view
//! (`...V`) over `Seq` so that contracts can speak of whole transcripts.

use vstd::prelude::*;

verus! {

/// Options supplied when an index is created.
#[derive(Clone, Copy, Debug, PartialEq, Eq, Structural)]
pub struct IndexOptions {
    /// Dimension every vector of the index must have.
    pub dim: u32,
}

/// Statistics snapshot of one index.
#[derive(Clone, Copy, Debug, PartialEq, Eq, Structural)]
pub struct IndexStat {
    /// Number of records currently stored.
    pub count: u64,
    /// Dimension the index was created with.
    pub dim: u32,
}

/// Operation errors: reported to the client as a normal reply payload and
/// never fatal to the session.
#[derive(Clone, Copy, Debug, PartialEq, Eq, Structural)]
pub enum OpError {
    /// No index exists under the given identifier.
    UnknownIndex,
    /// A vector's length differs from the index dimension.
    WrongDimension,
    /// No fresh record handle can be assigned any more.
    IndexFull,
}

/// Transport-level faults: fatal to the session, never reported as a reply.
#[derive(Clone, Copy, Debug, PartialEq, Eq, Structural)]
pub enum IpcError {
    /// The client closed the connection (no further message).
    Closed,
    /// A message arrived that the current protocol state does not allow.
    Unexpected,
}

/// A top-level request, one per protocol step.
#[derive(Clone, Debug, PartialEq, Eq)]
pub enum Request {
    Create { id: u64, options: IndexOptions },
    Insert { id: u64, vector: Vec<u64> },
    Delete { id: u64 },
    Search { id: u64, query: Vec<u64>, prefilter: bool },
    Flush { id: u64 },
    Destroy { ids: Vec<u64> },
    Stat { id: u64 },
    Vbase { id: u64, vector: Vec<u64> },
}

/// Spec-level view of a `Request`.
pub enum RequestV {
    Create { id: u64, options: IndexOptions },
    Insert { id: u64, vector: Seq<u64> },
    Delete { id: u64 },
    Search { id: u64, query: Seq<u64>, prefilter: bool },
    Flush { id: u64 },
    Destroy { ids: Seq<u64> },
    Stat { id: u64 },
    Vbase { id: u64, vector: Seq<u64> },
}

impl View for Request {
    type V = RequestV;

    open spec fn view(&self) -> RequestV {
        match self {
            Request::Create { id, options } => RequestV::Create { id: *id, options: *options },
            Request::Insert { id, vector } => RequestV::Insert { id: *id, vector: vector@ },
            Request::Delete { id } => RequestV::Delete { id: *id },
            Request::Search { id, query, prefilter } => RequestV::Search {
                id: *id,
                query: query@,
                prefilter: *prefilter,
            },
            Request::Flush { id } => RequestV::Flush { id: *id },
            Request::Destroy { ids } => RequestV::Destroy { ids: ids@ },
            Request::Stat { id } => RequestV::Stat { id: *id },
            Request::Vbase { id, vector } => RequestV::Vbase { id: *id, vector: vector@ },
        }
    }
}

/// A message from the client to the server.
#[derive(Clone, Debug, PartialEq, Eq)]
pub enum ClientMsg {
    /// A top-level request (legal only in the top-level state).
    Request(Request),
    /// The accept/reject answer to one candidate callback.
    Answer(bool),
    /// Ask for the next streamed vbase item.
    VbaseNext,
    /// Leave the vbase loop and return to the top level.
    VbaseLeave,
}

/// Spec-level view of a `ClientMsg`.
pub enum ClientMsgV {
    Request(RequestV),
    Answer(bool),
    VbaseNext,
    VbaseLeave,
}

impl View for ClientMsg {
    type V = ClientMsgV;

    open spec fn view(&self) -> ClientMsgV {
        match self {
            ClientMsg::Request(r) => ClientMsgV::Request(r@),
            ClientMsg::Answer(b) => ClientMsgV::Answer(*b),
            ClientMsg::VbaseNext => ClientMsgV::VbaseNext,
            ClientMsg::VbaseLeave => ClientMsgV::VbaseLeave,
        }
    }
}

/// A message from the server to the client.
#[derive(Debug, PartialEq, Eq)]
pub enum ServerMsg {
    /// Acknowledges a create request (no payload).
    CreateDone,
    /// Concludes an insert request.
    InsertDone(Result<(), OpError>),
    /// One candidate record handle, awaiting an accept/reject answer.
    Candidate(u64),
    /// Concludes a delete request with the number of records deleted.
    DeleteDone(Result<u64, OpError>),
    /// Concludes a search request with the ranked record handles.
    SearchDone(Result<Vec<u64>, OpError>),
    /// Concludes a flush request.
    FlushDone(Result<(), OpError>),
    /// Acknowledges a destroy request (no payload).
    DestroyDone,
    /// Concludes a stat request.
    StatDone(Result<IndexStat, OpError>),
    /// Reports whether the vbase traversal could be opened.
    VbaseOpen(Result<(), OpError>),
    /// One streamed vbase item; `None` is the end-of-sequence sentinel.
    VbaseItem(Option<u64>),
}

/// Spec-level view of a `ServerMsg`.
pub enum ServerMsgV {
    CreateDone,
    InsertDone(Result<(), OpError>),
    Candidate(u64),
    DeleteDone(Result<u64, OpError>),
    SearchDone(Result<Seq<u64>, OpError>),
    FlushDone(Result<(), OpError>),
    DestroyDone,
    StatDone(Result<IndexStat, OpError>),
    VbaseOpen(Result<(), OpError>),
    VbaseItem(Option<u64>),
}

impl View for ServerMsg {
    type V = ServerMsgV;

    open spec fn view(&self) -> ServerMsgV {
        match self {
            ServerMsg::CreateDone => ServerMsgV::CreateDone,
            ServerMsg::InsertDone(r) => ServerMsgV::InsertDone(*r),
            ServerMsg::Candidate(p) => ServerMsgV::Candidate(*p),
            ServerMsg::DeleteDone(r) => ServerMsgV::DeleteDone(*r),
            ServerMsg::SearchDone(r) => ServerMsgV::SearchDone(
                match r {
                    Ok(v) => Ok(v@),
                    Err(e) => Err(*e),
                },
            ),
            ServerMsg::FlushDone(r) => ServerMsgV::FlushDone(*r),
            ServerMsg::DestroyDone => ServerMsgV::DestroyDone,
            ServerMsg::StatDone(r) => ServerMsgV::StatDone(*r),
            ServerMsg::VbaseOpen(r) => ServerMsgV::VbaseOpen(*r),
            ServerMsg::VbaseItem(p) => ServerMsgV::VbaseItem(*p),
        }
    }
}

} // verus!
