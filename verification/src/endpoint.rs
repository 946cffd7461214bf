//! The session endpoint as the protocol layer sees it: a source of incoming
//! client messages and a sink of outgoing server messages.
//!
//! The endpoint is fed the whole incoming script up front and consumes it
//! message by message; everything the server sends is recorded in order.
//! Receiving past the end of the script is the model of the client closing
//! the connection.  The view `EndpointV` exposes the messages still pending
//! and the messages sent so far, and every contract of the protocol layer is
//! stated over those two sequences.

use vstd::prelude::*;

use crate::msg::{ClientMsg, ClientMsgV, IpcError, ServerMsg, ServerMsgV};

verus! {

/// The views of a sequence of client messages.
pub open spec fn cmsgs_view(s: Seq<ClientMsg>) -> Seq<ClientMsgV> {
    Seq::new(s.len(), |t: int| s[t]@)
}

/// The views of a sequence of server messages.
pub open spec fn smsgs_view(s: Seq<ServerMsg>) -> Seq<ServerMsgV> {
    Seq::new(s.len(), |t: int| s[t]@)
}

/// Spec-level state of an endpoint.
pub struct EndpointV {
    /// Client messages not yet received, in arrival order.
    pub pending: Seq<ClientMsgV>,
    /// Server messages sent so far, in sending order.
    pub sent: Seq<ServerMsgV>,
}

/// One session endpoint.
pub struct Endpoint {
    /// Messages not yet received, in arrival order.
    incoming: Vec<ClientMsg>,
    /// Messages sent so far, in sending order.
    outgoing: Vec<ServerMsg>,
}

impl View for Endpoint {
    type V = EndpointV;

    closed spec fn view(&self) -> EndpointV {
        EndpointV { pending: cmsgs_view(self.incoming@), sent: smsgs_view(self.outgoing@) }
    }
}

impl Endpoint {
    /// Builds an endpoint whose client will send exactly the given messages,
    /// in order, and then close the connection.
    pub fn new(script: Vec<ClientMsg>) -> (e: Endpoint)
        ensures
            e@.pending == cmsgs_view(script@),
            e@.sent == Seq::<ServerMsgV>::empty(),
    {
        let e = Endpoint { incoming: script, outgoing: Vec::new() };
        proof {
            assert(e@.sent =~= Seq::<ServerMsgV>::empty());
        }
        e
    }

    /// Receives the next client message; reports `Closed` once the script is
    /// exhausted.
    pub(crate) fn recv(&mut self) -> (r: Result<ClientMsg, IpcError>)
        ensures
            final(self)@.sent == old(self)@.sent,
            old(self)@.pending.len() == 0 ==> r == Err::<ClientMsg, IpcError>(IpcError::Closed)
                && final(self)@ == old(self)@,
            old(self)@.pending.len() > 0 ==> (match r {
                Ok(m) => m@ == old(self)@.pending[0]
                    && final(self)@.pending == old(self)@.pending.drop_first(),
                Err(_) => false,
            }),
    {
        if self.incoming.len() > 0 {
            let m = self.incoming.remove(0);
            proof {
                assert(self@.pending =~= old(self)@.pending.drop_first());
            }
            Ok(m)
        } else {
            proof {
                assert(self@ == old(self)@);
            }
            Err(IpcError::Closed)
        }
    }

    /// Sends one server message.
    pub(crate) fn send(&mut self, m: ServerMsg)
        ensures
            final(self)@.pending == old(self)@.pending,
            final(self)@.sent == old(self)@.sent.push(m@),
    {
        self.outgoing.push(m);
        proof {
            assert(self@.sent =~= old(self)@.sent.push(m@));
        }
    }

    /// The server messages sent so far, for inspection once a session ends.
    pub fn replies(&self) -> (r: &Vec<ServerMsg>)
        ensures
            smsgs_view(r@) == self@.sent,
    {
        &self.outgoing
    }
}

} // verus!
