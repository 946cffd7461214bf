//! The protocol handle family: typed, single-use capability tokens that
//! carry the session endpoint through the state machine.
//!
//! Holding a handle is proof that it is this party's turn, and the handle
//! type constrains which messages are legal next.  Advancing a handle
//! consumes it by value and yields the handle of the next state, so a
//! consumed handle can never be advanced again: reuse is rejected by the
//! ownership checker, not detected at run time.  A transport fault hands the
//! endpoint back together with the error, and the session ends.

use vstd::prelude::*;

use crate::endpoint::{Endpoint, EndpointV};
use crate::msg::{ClientMsg, ClientMsgV, IndexOptions, IndexStat, IpcError, OpError, Request,
    ServerMsg, ServerMsgV};

verus! {

/// The top-level handle: exactly one request must be received next.
pub struct RpcHandler {
    e: Endpoint,
}

/// The handle owed a create acknowledgement.
pub struct CreateHandler {
    e: Endpoint,
}

/// The handle owed an insert result.
pub struct InsertHandler {
    e: Endpoint,
}

/// The handle of the delete sub-protocol: candidate round trips, then the
/// aggregate result.
pub struct DeleteHandler {
    e: Endpoint,
}

/// The handle of the search sub-protocol: candidate round trips when the
/// prefilter is on, then the ranked result.
pub struct SearchHandler {
    e: Endpoint,
}

/// The handle owed a flush result.
pub struct FlushHandler {
    e: Endpoint,
}

/// The handle owed a destroy acknowledgement.
pub struct DestroyHandler {
    e: Endpoint,
}

/// The handle owed a statistics reply.
pub struct StatHandler {
    e: Endpoint,
}

/// The handle owed the vbase open report.
pub struct VbaseHandler {
    e: Endpoint,
}

/// The handle awaiting the client's next vbase instruction.
pub struct VbaseEventHandler {
    e: Endpoint,
}

/// The handle owed one streamed vbase item.
pub struct VbaseSender {
    e: Endpoint,
}

/// One received request, paired with the handle of its sub-protocol.
pub enum RpcHandle {
    Create { id: u64, options: IndexOptions, x: CreateHandler },
    Insert { id: u64, insert: Vec<u64>, x: InsertHandler },
    Delete { id: u64, x: DeleteHandler },
    Search { id: u64, search: Vec<u64>, prefilter: bool, x: SearchHandler },
    Flush { id: u64, x: FlushHandler },
    Destroy { ids: Vec<u64>, x: DestroyHandler },
    Stat { id: u64, x: StatHandler },
    Vbase { id: u64, vector: Vec<u64>, x: VbaseHandler },
}

/// The client's next vbase instruction, paired with the matching handle.
pub enum VbaseHandle {
    Next { x: VbaseSender },
    Leave { x: RpcHandler },
}

/// The request a dispatched handle was built from.
pub open spec fn rpc_handle_req(h: RpcHandle) -> crate::msg::RequestV {
    match h {
        RpcHandle::Create { id, options, x } => crate::msg::RequestV::Create { id, options },
        RpcHandle::Insert { id, insert, x } => crate::msg::RequestV::Insert {
            id,
            vector: insert@,
        },
        RpcHandle::Delete { id, x } => crate::msg::RequestV::Delete { id },
        RpcHandle::Search { id, search, prefilter, x } => crate::msg::RequestV::Search {
            id,
            query: search@,
            prefilter,
        },
        RpcHandle::Flush { id, x } => crate::msg::RequestV::Flush { id },
        RpcHandle::Destroy { ids, x } => crate::msg::RequestV::Destroy { ids: ids@ },
        RpcHandle::Stat { id, x } => crate::msg::RequestV::Stat { id },
        RpcHandle::Vbase { id, vector, x } => crate::msg::RequestV::Vbase { id, vector: vector@ },
    }
}

/// The endpoint state a dispatched handle carries.
pub open spec fn rpc_handle_ep(h: RpcHandle) -> EndpointV {
    match h {
        RpcHandle::Create { id, options, x } => x.ep(),
        RpcHandle::Insert { id, insert, x } => x.ep(),
        RpcHandle::Delete { id, x } => x.ep(),
        RpcHandle::Search { id, search, prefilter, x } => x.ep(),
        RpcHandle::Flush { id, x } => x.ep(),
        RpcHandle::Destroy { ids, x } => x.ep(),
        RpcHandle::Stat { id, x } => x.ep(),
        RpcHandle::Vbase { id, vector, x } => x.ep(),
    }
}

/// Whether a dispatched handle matches the received request and carries the
/// endpoint state `ep`.
pub open spec fn rpc_handle_matches(h: RpcHandle, rq: crate::msg::RequestV, ep: EndpointV) -> bool {
    rpc_handle_req(h) == rq && rpc_handle_ep(h) == ep
}

impl RpcHandler {
    /// The endpoint state this handle carries.
    pub closed spec fn ep(self) -> EndpointV {
        self.e@
    }

    /// Wraps a fresh endpoint into the top-level handle.
    pub fn new(e: Endpoint) -> (h: RpcHandler)
        ensures
            h.ep() == e@,
    {
        RpcHandler { e }
    }

    /// Receives the next top-level request and dispatches it into the
    /// matching sub-protocol handle.  A closed connection or a message that
    /// is not a request ends the session and hands the endpoint back.
    pub fn handle(self) -> (r: Result<RpcHandle, (Endpoint, IpcError)>)
        ensures
            match r {
                Ok(h) => self.ep().pending.len() > 0 && (self.ep().pending[0] matches ClientMsgV::Request(rq)
                    && rpc_handle_matches(
                    h,
                    rq,
                    EndpointV { pending: self.ep().pending.drop_first(), sent: self.ep().sent },
                )),
                Err((e, err)) => e@.sent == self.ep().sent && (if self.ep().pending.len() == 0 {
                    err == IpcError::Closed && e@.pending == self.ep().pending
                } else {
                    !(self.ep().pending[0] is Request) && err == IpcError::Unexpected
                        && e@.pending == self.ep().pending.drop_first()
                }),
            },
    {
        let mut e = self.e;
        match e.recv() {
            Err(err) => Err((e, err)),
            Ok(m) => match m {
                ClientMsg::Request(rq) => match rq {
                    Request::Create { id, options } => Ok(RpcHandle::Create {
                        id,
                        options,
                        x: CreateHandler { e },
                    }),
                    Request::Insert { id, vector } => Ok(RpcHandle::Insert {
                        id,
                        insert: vector,
                        x: InsertHandler { e },
                    }),
                    Request::Delete { id } => Ok(RpcHandle::Delete { id, x: DeleteHandler { e } }),
                    Request::Search { id, query, prefilter } => Ok(RpcHandle::Search {
                        id,
                        search: query,
                        prefilter,
                        x: SearchHandler { e },
                    }),
                    Request::Flush { id } => Ok(RpcHandle::Flush { id, x: FlushHandler { e } }),
                    Request::Destroy { ids } => Ok(RpcHandle::Destroy {
                        ids,
                        x: DestroyHandler { e },
                    }),
                    Request::Stat { id } => Ok(RpcHandle::Stat { id, x: StatHandler { e } }),
                    Request::Vbase { id, vector } => Ok(RpcHandle::Vbase {
                        id,
                        vector,
                        x: VbaseHandler { e },
                    }),
                },
                _ => Err((e, IpcError::Unexpected)),
            },
        }
    }

    /// Surrenders the endpoint when the session ends.
    pub fn into_endpoint(self) -> (e: Endpoint)
        ensures
            e@ == self.ep(),
    {
        self.e
    }
}

impl CreateHandler {
    /// The endpoint state this handle carries.
    pub closed spec fn ep(self) -> EndpointV {
        self.e@
    }

    /// Sends the create acknowledgement and returns to the top level.
    pub fn leave(self) -> (h: RpcHandler)
        ensures
            h.ep().pending == self.ep().pending,
            h.ep().sent == self.ep().sent.push(ServerMsgV::CreateDone),
    {
        let mut e = self.e;
        e.send(ServerMsg::CreateDone);
        RpcHandler { e }
    }
}

impl InsertHandler {
    /// The endpoint state this handle carries.
    pub closed spec fn ep(self) -> EndpointV {
        self.e@
    }

    /// Sends the insert result and returns to the top level.
    pub fn leave(self, res: Result<(), OpError>) -> (h: RpcHandler)
        ensures
            h.ep().pending == self.ep().pending,
            h.ep().sent == self.ep().sent.push(ServerMsgV::InsertDone(res)),
    {
        let mut e = self.e;
        e.send(ServerMsg::InsertDone(res));
        RpcHandler { e }
    }
}

impl DeleteHandler {
    /// The endpoint state this handle carries.
    pub closed spec fn ep(self) -> EndpointV {
        self.e@
    }

    /// One candidate round trip: sends the candidate and awaits the client's
    /// accept/reject answer.
    pub fn next(&mut self, p: u64) -> (r: Result<bool, IpcError>)
        ensures
            final(self).ep().sent == old(self).ep().sent.push(ServerMsgV::Candidate(p)),
            match r {
                Ok(b) => old(self).ep().pending.len() > 0 && old(self).ep().pending[0]
                    == ClientMsgV::Answer(b) && final(self).ep().pending == old(self).ep().pending.drop_first(),
                Err(err) => if old(self).ep().pending.len() == 0 {
                    err == IpcError::Closed && final(self).ep().pending == old(self).ep().pending
                } else {
                    !(old(self).ep().pending[0] is Answer) && err == IpcError::Unexpected
                        && final(self).ep().pending == old(self).ep().pending.drop_first()
                },
            },
    {
        self.e.send(ServerMsg::Candidate(p));
        match self.e.recv() {
            Err(err) => Err(err),
            Ok(ClientMsg::Answer(b)) => Ok(b),
            Ok(_) => Err(IpcError::Unexpected),
        }
    }

    /// Sends the aggregate delete result and returns to the top level.
    pub fn leave(self, res: Result<u64, OpError>) -> (h: RpcHandler)
        ensures
            h.ep().pending == self.ep().pending,
            h.ep().sent == self.ep().sent.push(ServerMsgV::DeleteDone(res)),
    {
        let mut e = self.e;
        e.send(ServerMsg::DeleteDone(res));
        RpcHandler { e }
    }

    /// Surrenders the endpoint when the session ends mid-operation.
    pub fn abort(self) -> (e: Endpoint)
        ensures
            e@ == self.ep(),
    {
        self.e
    }
}

impl SearchHandler {
    /// The endpoint state this handle carries.
    pub closed spec fn ep(self) -> EndpointV {
        self.e@
    }

    /// One prefilter round trip: sends the candidate and awaits the client's
    /// accept/reject answer.
    pub fn check(&mut self, p: u64) -> (r: Result<bool, IpcError>)
        ensures
            final(self).ep().sent == old(self).ep().sent.push(ServerMsgV::Candidate(p)),
            match r {
                Ok(b) => old(self).ep().pending.len() > 0 && old(self).ep().pending[0]
                    == ClientMsgV::Answer(b) && final(self).ep().pending == old(self).ep().pending.drop_first(),
                Err(err) => if old(self).ep().pending.len() == 0 {
                    err == IpcError::Closed && final(self).ep().pending == old(self).ep().pending
                } else {
                    !(old(self).ep().pending[0] is Answer) && err == IpcError::Unexpected
                        && final(self).ep().pending == old(self).ep().pending.drop_first()
                },
            },
    {
        self.e.send(ServerMsg::Candidate(p));
        match self.e.recv() {
            Err(err) => Err(err),
            Ok(ClientMsg::Answer(b)) => Ok(b),
            Ok(_) => Err(IpcError::Unexpected),
        }
    }

    /// Sends the ranked search result and returns to the top level.
    pub fn leave(self, res: Result<Vec<u64>, OpError>) -> (h: RpcHandler)
        ensures
            h.ep().pending == self.ep().pending,
            h.ep().sent == self.ep().sent.push(
                ServerMsgV::SearchDone(
                    match res {
                        Ok(v) => Ok(v@),
                        Err(e) => Err(e),
                    },
                ),
            ),
    {
        let mut e = self.e;
        e.send(ServerMsg::SearchDone(res));
        RpcHandler { e }
    }

    /// Surrenders the endpoint when the session ends mid-operation.
    pub fn abort(self) -> (e: Endpoint)
        ensures
            e@ == self.ep(),
    {
        self.e
    }
}

impl FlushHandler {
    /// The endpoint state this handle carries.
    pub closed spec fn ep(self) -> EndpointV {
        self.e@
    }

    /// Sends the flush result and returns to the top level.
    pub fn leave(self, res: Result<(), OpError>) -> (h: RpcHandler)
        ensures
            h.ep().pending == self.ep().pending,
            h.ep().sent == self.ep().sent.push(ServerMsgV::FlushDone(res)),
    {
        let mut e = self.e;
        e.send(ServerMsg::FlushDone(res));
        RpcHandler { e }
    }
}

impl DestroyHandler {
    /// The endpoint state this handle carries.
    pub closed spec fn ep(self) -> EndpointV {
        self.e@
    }

    /// Sends the destroy acknowledgement and returns to the top level.
    pub fn leave(self) -> (h: RpcHandler)
        ensures
            h.ep().pending == self.ep().pending,
            h.ep().sent == self.ep().sent.push(ServerMsgV::DestroyDone),
    {
        let mut e = self.e;
        e.send(ServerMsg::DestroyDone);
        RpcHandler { e }
    }
}

impl StatHandler {
    /// The endpoint state this handle carries.
    pub closed spec fn ep(self) -> EndpointV {
        self.e@
    }

    /// Sends the statistics reply and returns to the top level.
    pub fn leave(self, res: Result<IndexStat, OpError>) -> (h: RpcHandler)
        ensures
            h.ep().pending == self.ep().pending,
            h.ep().sent == self.ep().sent.push(ServerMsgV::StatDone(res)),
    {
        let mut e = self.e;
        e.send(ServerMsg::StatDone(res));
        RpcHandler { e }
    }
}

impl VbaseHandler {
    /// The endpoint state this handle carries.
    pub closed spec fn ep(self) -> EndpointV {
        self.e@
    }

    /// Reports that the traversal could not be opened and returns to the top
    /// level without entering the loop.
    pub fn error(self, err: OpError) -> (h: RpcHandler)
        ensures
            h.ep().pending == self.ep().pending,
            h.ep().sent == self.ep().sent.push(ServerMsgV::VbaseOpen(Err(err))),
    {
        let mut e = self.e;
        e.send(ServerMsg::VbaseOpen(Err(err)));
        RpcHandler { e }
    }

    /// Reports that the traversal is open and enters the streaming loop.
    pub fn start(self) -> (h: VbaseEventHandler)
        ensures
            h.ep().pending == self.ep().pending,
            h.ep().sent == self.ep().sent.push(ServerMsgV::VbaseOpen(Ok(()))),
    {
        let mut e = self.e;
        e.send(ServerMsg::VbaseOpen(Ok(())));
        VbaseEventHandler { e }
    }
}

impl VbaseEventHandler {
    /// The endpoint state this handle carries.
    pub closed spec fn ep(self) -> EndpointV {
        self.e@
    }

    /// Awaits the client's next instruction: another item, or leave.
    pub fn handle(self) -> (r: Result<VbaseHandle, (Endpoint, IpcError)>)
        ensures
            match r {
                Ok(h) => self.ep().pending.len() > 0 && match h {
                    VbaseHandle::Next { x } => self.ep().pending[0] == ClientMsgV::VbaseNext
                        && x.ep() == (EndpointV {
                        pending: self.ep().pending.drop_first(),
                        sent: self.ep().sent,
                    }),
                    VbaseHandle::Leave { x } => self.ep().pending[0] == ClientMsgV::VbaseLeave
                        && x.ep() == (EndpointV {
                        pending: self.ep().pending.drop_first(),
                        sent: self.ep().sent,
                    }),
                },
                Err((e, err)) => e@.sent == self.ep().sent && (if self.ep().pending.len() == 0 {
                    err == IpcError::Closed && e@.pending == self.ep().pending
                } else {
                    !(self.ep().pending[0] is VbaseNext) && !(self.ep().pending[0] is VbaseLeave)
                        && err == IpcError::Unexpected && e@.pending
                        == self.ep().pending.drop_first()
                }),
            },
    {
        let mut e = self.e;
        match e.recv() {
            Err(err) => Err((e, err)),
            Ok(ClientMsg::VbaseNext) => Ok(VbaseHandle::Next { x: VbaseSender { e } }),
            Ok(ClientMsg::VbaseLeave) => Ok(VbaseHandle::Leave { x: RpcHandler { e } }),
            Ok(_) => Err((e, IpcError::Unexpected)),
        }
    }
}

impl VbaseSender {
    /// The endpoint state this handle carries.
    pub closed spec fn ep(self) -> EndpointV {
        self.e@
    }

    /// Sends one streamed item (or the end sentinel) and awaits the next
    /// instruction.
    pub fn leave(self, item: Option<u64>) -> (h: VbaseEventHandler)
        ensures
            h.ep().pending == self.ep().pending,
            h.ep().sent == self.ep().sent.push(ServerMsgV::VbaseItem(item)),
    {
        let mut e = self.e;
        e.send(ServerMsg::VbaseItem(item));
        VbaseEventHandler { e }
    }
}

} // verus!
