//! The session driver: receives top-level requests, dispatches each into the
//! matching sub-protocol, consults the worker, and loops until the transport
//! closes or a protocol fault occurs.
//!
//! The whole exchange is pinned down by a spec-level interpreter:
//! `step_spec` gives, for one request and the remaining incoming script, the
//! new store, the messages sent, the messages consumed and the fault, if
//! any; `run_spec` folds it over a whole session.  `session` is proved to
//! produce exactly that transcript.

use vstd::prelude::*;

use crate::endpoint::Endpoint;
use crate::handle::{rpc_handle_ep, rpc_handle_req, DeleteHandler, RpcHandle, RpcHandler,
    SearchHandler, VbaseHandle};
use crate::msg::{ClientMsgV, IpcError, OpError, RequestV, ServerMsgV};
use crate::worker::{all_accept, count_true, create_spec, delete_spec, destroy_spec, flush_spec,
    handles_of, insert_spec, lookup, ranked_spec, stat_spec, trues, vbase_open_spec, IndexV,
    Worker};

verus! {

/// The candidate messages for a sequence of candidate handles.
pub open spec fn cand_msgs(cs: Seq<u64>) -> Seq<ServerMsgV> {
    Seq::new(cs.len(), |t: int| ServerMsgV::Candidate(cs[t]))
}

/// Outcome of the embedded callback loop: the messages sent, the incoming
/// messages consumed, and either the collected answers or the fault that
/// ended the session.
pub struct CbRes {
    pub sent: Seq<ServerMsgV>,
    pub used: nat,
    pub out: Result<Seq<bool>, IpcError>,
}

/// The embedded callback loop: one candidate message and one answer per
/// candidate, in order, aborted by the first fault.
pub open spec fn cb_loop(cs: Seq<u64>, rest: Seq<ClientMsgV>) -> CbRes
    decreases cs.len(),
{
    if cs.len() == 0 {
        CbRes { sent: Seq::empty(), used: 0, out: Ok(Seq::empty()) }
    } else if rest.len() == 0 {
        CbRes {
            sent: seq![ServerMsgV::Candidate(cs[0])],
            used: 0,
            out: Err(IpcError::Closed),
        }
    } else {
        match rest[0] {
            ClientMsgV::Answer(b) => {
                let r = cb_loop(cs.drop_first(), rest.drop_first());
                CbRes {
                    sent: seq![ServerMsgV::Candidate(cs[0])] + r.sent,
                    used: 1 + r.used,
                    out: match r.out {
                        Ok(a) => Ok(seq![b] + a),
                        Err(e) => Err(e),
                    },
                }
            },
            _ => CbRes {
                sent: seq![ServerMsgV::Candidate(cs[0])],
                used: 1,
                out: Err(IpcError::Unexpected),
            },
        }
    }
}

/// Outcome of the vbase streaming loop.
pub struct VbRes {
    pub sent: Seq<ServerMsgV>,
    pub used: nat,
    pub fault: Option<IpcError>,
}

/// The vbase streaming loop: each `Next` yields one item (the end sentinel
/// once the traversal is exhausted), `Leave` returns to the top level, and
/// anything else ends the session.
pub open spec fn vb_loop(items: Seq<u64>, pos: nat, rest: Seq<ClientMsgV>) -> VbRes
    decreases rest.len(),
{
    if rest.len() == 0 {
        VbRes { sent: Seq::empty(), used: 0, fault: Some(IpcError::Closed) }
    } else {
        match rest[0] {
            ClientMsgV::VbaseNext => {
                let item = if pos < items.len() {
                    Some(items[pos as int])
                } else {
                    None
                };
                let npos: nat = if pos < items.len() {
                    pos + 1
                } else {
                    pos
                };
                let r = vb_loop(items, npos, rest.drop_first());
                VbRes {
                    sent: seq![ServerMsgV::VbaseItem(item)] + r.sent,
                    used: 1 + r.used,
                    fault: r.fault,
                }
            },
            ClientMsgV::VbaseLeave => VbRes { sent: Seq::empty(), used: 1, fault: None },
            _ => VbRes { sent: Seq::empty(), used: 1, fault: Some(IpcError::Unexpected) },
        }
    }
}

/// Outcome of one dispatched request.
pub struct StepRes {
    pub store: Seq<(u64, IndexV)>,
    pub sent: Seq<ServerMsgV>,
    pub used: nat,
    pub fault: Option<IpcError>,
}

/// What dispatching one request does: the new store, the messages sent, the
/// incoming messages consumed beyond the request itself, and the fault that
/// ended the session, if any.
pub open spec fn step_spec(w: Seq<(u64, IndexV)>, rq: RequestV, rest: Seq<ClientMsgV>) -> StepRes {
    match rq {
        RequestV::Create { id, options } => StepRes {
            store: create_spec(w, id, options.dim),
            sent: seq![ServerMsgV::CreateDone],
            used: 0,
            fault: None,
        },
        RequestV::Insert { id, vector } => StepRes {
            store: insert_spec(w, id, vector).0,
            sent: seq![ServerMsgV::InsertDone(insert_spec(w, id, vector).1)],
            used: 0,
            fault: None,
        },
        RequestV::Delete { id } => match lookup(w, id) {
            None => StepRes {
                store: w,
                sent: seq![ServerMsgV::DeleteDone(Err(OpError::UnknownIndex))],
                used: 0,
                fault: None,
            },
            Some(ix) => {
                let cb = cb_loop(handles_of(ix.records), rest);
                match cb.out {
                    Err(e) => StepRes { store: w, sent: cb.sent, used: cb.used, fault: Some(e) },
                    Ok(answers) => StepRes {
                        store: delete_spec(w, id, answers),
                        sent: cb.sent.push(
                            ServerMsgV::DeleteDone(Ok(count_true(answers) as u64)),
                        ),
                        used: cb.used,
                        fault: None,
                    },
                }
            },
        },
        RequestV::Search { id, query, prefilter } => match lookup(w, id) {
            None => StepRes {
                store: w,
                sent: seq![ServerMsgV::SearchDone(Err(OpError::UnknownIndex))],
                used: 0,
                fault: None,
            },
            Some(ix) => if query.len() != ix.dim {
                StepRes {
                    store: w,
                    sent: seq![ServerMsgV::SearchDone(Err(OpError::WrongDimension))],
                    used: 0,
                    fault: None,
                }
            } else if !prefilter {
                StepRes {
                    store: w,
                    sent: seq![
                        ServerMsgV::SearchDone(
                            Ok(ranked_spec(ix.records, query, trues(ix.records.len()))),
                        ),
                    ],
                    used: 0,
                    fault: None,
                }
            } else {
                let cb = cb_loop(handles_of(ix.records), rest);
                match cb.out {
                    Err(e) => StepRes { store: w, sent: cb.sent, used: cb.used, fault: Some(e) },
                    Ok(answers) => StepRes {
                        store: w,
                        sent: cb.sent.push(
                            ServerMsgV::SearchDone(Ok(ranked_spec(ix.records, query, answers))),
                        ),
                        used: cb.used,
                        fault: None,
                    },
                }
            },
        },
        RequestV::Flush { id } => StepRes {
            store: w,
            sent: seq![ServerMsgV::FlushDone(flush_spec(w, id))],
            used: 0,
            fault: None,
        },
        RequestV::Destroy { ids } => StepRes {
            store: destroy_spec(w, ids),
            sent: seq![ServerMsgV::DestroyDone],
            used: 0,
            fault: None,
        },
        RequestV::Stat { id } => StepRes {
            store: w,
            sent: seq![ServerMsgV::StatDone(stat_spec(w, id))],
            used: 0,
            fault: None,
        },
        RequestV::Vbase { id, vector } => match vbase_open_spec(w, id, vector) {
            Err(e) => StepRes {
                store: w,
                sent: seq![ServerMsgV::VbaseOpen(Err(e))],
                used: 0,
                fault: None,
            },
            Ok(items) => {
                let vb = vb_loop(items, 0, rest);
                StepRes {
                    store: w,
                    sent: seq![ServerMsgV::VbaseOpen(Ok(()))] + vb.sent,
                    used: vb.used,
                    fault: vb.fault,
                }
            },
        },
    }
}

/// Outcome of a whole session: the final store, everything sent, and the
/// fault that ended the session (`Closed` is the normal end).
pub struct RunRes {
    pub store: Seq<(u64, IndexV)>,
    pub sent: Seq<ServerMsgV>,
    pub fault: IpcError,
}

/// The whole session as a fold of `step_spec` over the incoming script.
pub open spec fn run_spec(w: Seq<(u64, IndexV)>, msgs: Seq<ClientMsgV>) -> RunRes
    decreases msgs.len(),
{
    if msgs.len() == 0 {
        RunRes { store: w, sent: Seq::empty(), fault: IpcError::Closed }
    } else {
        match msgs[0] {
            ClientMsgV::Request(rq) => {
                let s = step_spec(w, rq, msgs.drop_first());
                let used = if s.used <= msgs.len() - 1 {
                    s.used as int
                } else {
                    msgs.len() - 1
                };
                match s.fault {
                    Some(f) => RunRes { store: s.store, sent: s.sent, fault: f },
                    None => {
                        let r = run_spec(s.store, msgs.drop_first().skip(used));
                        RunRes { store: r.store, sent: s.sent + r.sent, fault: r.fault }
                    },
                }
            },
            _ => RunRes { store: w, sent: Seq::empty(), fault: IpcError::Unexpected },
        }
    }
}

/// The callback loop never consumes more messages than remain.
pub proof fn lemma_cb_used_le(cs: Seq<u64>, rest: Seq<ClientMsgV>)
    ensures
        cb_loop(cs, rest).used <= rest.len(),
    decreases cs.len(),
{
    if cs.len() > 0 && rest.len() > 0 {
        if rest[0] is Answer {
            lemma_cb_used_le(cs.drop_first(), rest.drop_first());
        }
    }
}

/// The vbase loop never consumes more messages than remain.
pub proof fn lemma_vb_used_le(items: Seq<u64>, pos: nat, rest: Seq<ClientMsgV>)
    ensures
        vb_loop(items, pos, rest).used <= rest.len(),
    decreases rest.len(),
{
    if rest.len() > 0 && rest[0] is VbaseNext {
        let npos: nat = if pos < items.len() {
            pos + 1
        } else {
            pos
        };
        lemma_vb_used_le(items, npos, rest.drop_first());
    }
}

/// Runs the delete sub-protocol: one callback round trip per candidate, the
/// answers applied to the store, and the aggregate result sent.
fn do_delete(worker: &mut Worker, id: u64, x: DeleteHandler) -> (r: Result<
    RpcHandler,
    (Endpoint, IpcError),
>)
    requires
        old(worker).wf(),
    ensures
        final(worker).wf(),
        ({
            let s = step_spec(old(worker)@, RequestV::Delete { id }, x.ep().pending);
            final(worker)@ == s.store && match r {
                Ok(h2) => s.fault is None && h2.ep().sent == x.ep().sent + s.sent
                    && h2.ep().pending == x.ep().pending.skip(s.used as int),
                Err((e, err)) => s.fault == Some(err) && e@.sent == x.ep().sent + s.sent
                    && e@.pending == x.ep().pending.skip(s.used as int),
            }
        }),
{
    let ghost w0 = worker@;
    let ghost rest0 = x.ep().pending;
    let ghost sent0 = x.ep().sent;
    match worker.candidates(id) {
        Err(e) => {
            let h = x.leave(Err(e));
            proof {
                assert(h.ep().sent =~= sent0 + seq![
                    ServerMsgV::DeleteDone(Err(OpError::UnknownIndex)),
                ]);
                assert(rest0.skip(0) =~= rest0);
            }
            Ok(h)
        },
        Ok(cs) => {
            let ghost csv = cs@;
            let cs_len = cs.len();
            proof {
                assert(cs_len <= usize::MAX);
            }
            let mut xh = x;
            let mut answers: Vec<bool> = Vec::new();
            let mut i: usize = 0;
            proof {
                assert(csv.skip(0) =~= csv);
                assert(rest0.skip(0) =~= rest0);
                assert(cand_msgs(csv.take(0)) =~= Seq::<ServerMsgV>::empty());
                assert(sent0 + cand_msgs(csv.take(0)) =~= sent0);
                assert(cb_loop(csv, rest0).out == (match cb_loop(csv.skip(0), rest0.skip(0)).out {
                    Ok(a) => Ok::<Seq<bool>, IpcError>(Seq::<bool>::empty() + a),
                    Err(e) => Err::<Seq<bool>, IpcError>(e),
                })) by {
                    match cb_loop(csv, rest0).out {
                        Ok(a) => {
                            assert(Seq::<bool>::empty() + a =~= a);
                        },
                        Err(_) => {},
                    }
                }
                assert(cand_msgs(csv.take(0)) + cb_loop(csv.skip(0), rest0.skip(0)).sent
                    =~= cb_loop(csv, rest0).sent);
            }
            while i < cs.len()
                invariant
                    old(worker).wf(),
                    worker.wf(),
                    worker@ == old(worker)@,
                    rest0 == x.ep().pending,
                    sent0 == x.ep().sent,
                    lookup(old(worker)@, id) matches Some(ix2) && csv == handles_of(ix2.records),
                    i <= csv.len(),
                    i <= rest0.len(),
                    csv.len() <= usize::MAX,
                    cs@ == csv,
                    answers@.len() == i,
                    xh.ep().sent == sent0 + cand_msgs(csv.take(i as int)),
                    xh.ep().pending == rest0.skip(i as int),
                    cb_loop(csv, rest0).sent == cand_msgs(csv.take(i as int)) + cb_loop(
                        csv.skip(i as int),
                        rest0.skip(i as int),
                    ).sent,
                    cb_loop(csv, rest0).used == i + cb_loop(
                        csv.skip(i as int),
                        rest0.skip(i as int),
                    ).used,
                    cb_loop(csv, rest0).out == (match cb_loop(
                        csv.skip(i as int),
                        rest0.skip(i as int),
                    ).out {
                        Ok(a) => Ok::<Seq<bool>, IpcError>(answers@ + a),
                        Err(e) => Err::<Seq<bool>, IpcError>(e),
                    }),
                decreases csv.len() - i,
            {
                let ghost sub = cb_loop(csv.skip(i as int), rest0.skip(i as int));
                proof {
                    assert(csv.skip(i as int).len() > 0);
                    assert(csv.skip(i as int)[0] == csv[i as int]);
                    assert(csv.skip(i as int).drop_first() =~= csv.skip(i + 1));
                }
                let p = cs[i];
                let ghost answers0 = answers@;
                match xh.next(p) {
                    Ok(b) => {
                        answers.push(b);
                        proof {
                            let ghost sub2 = cb_loop(csv.skip(i + 1), rest0.skip(i + 1));
                            assert(rest0.skip(i as int).drop_first() =~= rest0.skip(i + 1));
                            assert(rest0.skip(i as int)[0] == ClientMsgV::Answer(b));
                            assert(sub.sent == seq![ServerMsgV::Candidate(csv[i as int])]
                                + sub2.sent);
                            assert(sub.used == 1 + sub2.used);
                            assert(cand_msgs(csv.take(i + 1)) =~= cand_msgs(csv.take(i as int)).push(
                                ServerMsgV::Candidate(csv[i as int]),
                            ));
                            assert(xh.ep().sent =~= sent0 + cand_msgs(csv.take(i + 1)));
                            assert(xh.ep().pending =~= rest0.skip(i + 1));
                            assert(cand_msgs(csv.take(i as int)) + sub.sent =~= cand_msgs(
                                csv.take(i + 1),
                            ) + sub2.sent);
                            assert(cb_loop(csv, rest0).out == (match sub2.out {
                                Ok(a) => Ok::<Seq<bool>, IpcError>(answers@ + a),
                                Err(e) => Err::<Seq<bool>, IpcError>(e),
                            })) by {
                                match sub2.out {
                                    Ok(a) => {
                                        assert(sub.out == Ok::<Seq<bool>, IpcError>(seq![b] + a));
                                        assert(answers@ =~= answers0.push(b));
                                        assert(answers0 + (seq![b] + a) =~= answers@ + a);
                                    },
                                    Err(_) => {},
                                }
                            }
                        }
                        i += 1;
                    },
                    Err(err) => {
                        proof {
                            assert(cand_msgs(csv.take(i + 1)) =~= cand_msgs(csv.take(i as int)).push(
                                ServerMsgV::Candidate(csv[i as int]),
                            ));
                            assert(xh.ep().sent =~= sent0 + cand_msgs(csv.take(i + 1)));
                            if rest0.skip(i as int).len() == 0 {
                                assert(sub.out == Err::<Seq<bool>, IpcError>(IpcError::Closed));
                                assert(sub.used == 0);
                                assert(sub.sent =~= seq![ServerMsgV::Candidate(csv[i as int])]);
                                assert(xh.ep().pending =~= rest0.skip(i as int));
                            } else {
                                assert(rest0.skip(i as int).drop_first() =~= rest0.skip(i + 1));
                                assert(sub.out == Err::<Seq<bool>, IpcError>(IpcError::Unexpected));
                                assert(sub.used == 1);
                                assert(sub.sent =~= seq![ServerMsgV::Candidate(csv[i as int])]);
                                assert(xh.ep().pending =~= rest0.skip(i + 1));
                            }
                            assert(cb_loop(csv, rest0).sent =~= cand_msgs(csv.take(i + 1)));
                        }
                        return Err((xh.abort(), err));
                    },
                }
            }
            proof {
                let ghost sub = cb_loop(csv.skip(i as int), rest0.skip(i as int));
                assert(csv.skip(i as int).len() == 0);
                assert(sub.out == Ok::<Seq<bool>, IpcError>(Seq::<bool>::empty()));
                assert(answers@ + Seq::<bool>::empty() =~= answers@);
                assert(cb_loop(csv, rest0).out == Ok::<Seq<bool>, IpcError>(answers@));
                assert(csv.take(i as int) =~= csv);
                assert(cand_msgs(csv) + Seq::<ServerMsgV>::empty() =~= cand_msgs(csv));
                assert(cb_loop(csv, rest0).sent == cand_msgs(csv));
                assert(cb_loop(csv, rest0).used == i);
                assert(handles_of(lookup(w0, id).unwrap().records).len() == lookup(
                    w0,
                    id,
                ).unwrap().records.len());
            }
            let count = worker.apply_delete(id, &answers);
            let h = xh.leave(Ok(count));
            proof {
                let s = step_spec(w0, RequestV::Delete { id }, rest0);
                assert(h.ep().sent =~= sent0 + s.sent);
            }
            Ok(h)
        },
    }
}

/// Runs the search sub-protocol: with the prefilter on, one callback round
/// trip per candidate; with it off, every candidate is accepted with no
/// round trips; then the ranked result is sent.
fn do_search(worker: &mut Worker, id: u64, query: Vec<u64>, prefilter: bool, x: SearchHandler) -> (r:
    Result<RpcHandler, (Endpoint, IpcError)>)
    requires
        old(worker).wf(),
    ensures
        final(worker).wf(),
        final(worker)@ == old(worker)@,
        ({
            let s = step_spec(
                old(worker)@,
                RequestV::Search { id, query: query@, prefilter },
                x.ep().pending,
            );
            match r {
                Ok(h2) => s.fault is None && h2.ep().sent == x.ep().sent + s.sent
                    && h2.ep().pending == x.ep().pending.skip(s.used as int),
                Err((e, err)) => s.fault == Some(err) && e@.sent == x.ep().sent + s.sent
                    && e@.pending == x.ep().pending.skip(s.used as int),
            }
        }),
{
    let ghost w0 = worker@;
    let ghost rest0 = x.ep().pending;
    let ghost sent0 = x.ep().sent;
    match worker.candidates(id) {
        Err(e) => {
            let h = x.leave(Err(e));
            proof {
                assert(h.ep().sent =~= sent0 + seq![
                    ServerMsgV::SearchDone(Err(OpError::UnknownIndex)),
                ]);
                assert(rest0.skip(0) =~= rest0);
            }
            Ok(h)
        },
        Ok(cs) => {
            let st = worker.call_stat(id).unwrap();
            if query.len() != st.dim as usize {
                let h = x.leave(Err(OpError::WrongDimension));
                proof {
                    assert(h.ep().sent =~= sent0 + seq![
                        ServerMsgV::SearchDone(Err(OpError::WrongDimension)),
                    ]);
                    assert(rest0.skip(0) =~= rest0);
                }
                Ok(h)
            } else if !prefilter {
                let n = cs.len();
                let answers = all_accept(n);
                let res = worker.finish_search(id, &query, &answers);
                let h = x.leave(Ok(res));
                proof {
                    let ix = lookup(w0, id).unwrap();
                    assert(answers@ =~= trues(ix.records.len()));
                    assert(h.ep().sent =~= sent0 + seq![
                        ServerMsgV::SearchDone(
                            Ok(ranked_spec(ix.records, query@, trues(ix.records.len()))),
                        ),
                    ]);
                    assert(rest0.skip(0) =~= rest0);
                }
                Ok(h)
            } else {
                let ghost csv = cs@;
                let cs_len = cs.len();
                proof {
                    assert(cs_len <= usize::MAX);
                }
                let mut xh = x;
                let mut answers: Vec<bool> = Vec::new();
                let mut i: usize = 0;
                proof {
                    assert(csv.skip(0) =~= csv);
                    assert(rest0.skip(0) =~= rest0);
                    assert(cand_msgs(csv.take(0)) =~= Seq::<ServerMsgV>::empty());
                    assert(sent0 + cand_msgs(csv.take(0)) =~= sent0);
                    assert(cb_loop(csv, rest0).out == (match cb_loop(
                        csv.skip(0),
                        rest0.skip(0),
                    ).out {
                        Ok(a) => Ok::<Seq<bool>, IpcError>(Seq::<bool>::empty() + a),
                        Err(e) => Err::<Seq<bool>, IpcError>(e),
                    })) by {
                        match cb_loop(csv, rest0).out {
                            Ok(a) => {
                                assert(Seq::<bool>::empty() + a =~= a);
                            },
                            Err(_) => {},
                        }
                    }
                    assert(cand_msgs(csv.take(0)) + cb_loop(csv.skip(0), rest0.skip(0)).sent
                        =~= cb_loop(csv, rest0).sent);
                }
                while i < cs.len()
                    invariant
                        old(worker).wf(),
                        worker.wf(),
                        worker@ == old(worker)@,
                        rest0 == x.ep().pending,
                        sent0 == x.ep().sent,
                        lookup(old(worker)@, id) matches Some(ix2) && csv == handles_of(
                            ix2.records,
                        ) && query@.len() == ix2.dim,
                        prefilter,
                        i <= csv.len(),
                        i <= rest0.len(),
                        csv.len() <= usize::MAX,
                        cs@ == csv,
                        answers@.len() == i,
                        xh.ep().sent == sent0 + cand_msgs(csv.take(i as int)),
                        xh.ep().pending == rest0.skip(i as int),
                        cb_loop(csv, rest0).sent == cand_msgs(csv.take(i as int)) + cb_loop(
                            csv.skip(i as int),
                            rest0.skip(i as int),
                        ).sent,
                        cb_loop(csv, rest0).used == i + cb_loop(
                            csv.skip(i as int),
                            rest0.skip(i as int),
                        ).used,
                        cb_loop(csv, rest0).out == (match cb_loop(
                            csv.skip(i as int),
                            rest0.skip(i as int),
                        ).out {
                            Ok(a) => Ok::<Seq<bool>, IpcError>(answers@ + a),
                            Err(e) => Err::<Seq<bool>, IpcError>(e),
                        }),
                    decreases csv.len() - i,
                {
                    let ghost sub = cb_loop(csv.skip(i as int), rest0.skip(i as int));
                    proof {
                        assert(csv.skip(i as int).len() > 0);
                        assert(csv.skip(i as int)[0] == csv[i as int]);
                        assert(csv.skip(i as int).drop_first() =~= csv.skip(i + 1));
                    }
                    let p = cs[i];
                    let ghost answers0 = answers@;
                    match xh.check(p) {
                        Ok(b) => {
                            answers.push(b);
                            proof {
                                let ghost sub2 = cb_loop(csv.skip(i + 1), rest0.skip(i + 1));
                                assert(rest0.skip(i as int).drop_first() =~= rest0.skip(i + 1));
                                assert(rest0.skip(i as int)[0] == ClientMsgV::Answer(b));
                                assert(sub.sent == seq![ServerMsgV::Candidate(csv[i as int])]
                                    + sub2.sent);
                                assert(sub.used == 1 + sub2.used);
                                assert(cand_msgs(csv.take(i + 1)) =~= cand_msgs(
                                    csv.take(i as int),
                                ).push(ServerMsgV::Candidate(csv[i as int])));
                                assert(xh.ep().sent =~= sent0 + cand_msgs(csv.take(i + 1)));
                                assert(xh.ep().pending =~= rest0.skip(i + 1));
                                assert(cand_msgs(csv.take(i as int)) + sub.sent =~= cand_msgs(
                                    csv.take(i + 1),
                                ) + sub2.sent);
                                assert(cb_loop(csv, rest0).out == (match sub2.out {
                                    Ok(a) => Ok::<Seq<bool>, IpcError>(answers@ + a),
                                    Err(e) => Err::<Seq<bool>, IpcError>(e),
                                })) by {
                                    match sub2.out {
                                        Ok(a) => {
                                            assert(sub.out == Ok::<Seq<bool>, IpcError>(
                                                seq![b] + a,
                                            ));
                                            assert(answers@ =~= answers0.push(b));
                                            assert(answers0 + (seq![b] + a) =~= answers@ + a);
                                        },
                                        Err(_) => {},
                                    }
                                }
                            }
                            i += 1;
                        },
                        Err(err) => {
                            proof {
                                assert(cand_msgs(csv.take(i + 1)) =~= cand_msgs(
                                    csv.take(i as int),
                                ).push(ServerMsgV::Candidate(csv[i as int])));
                                assert(xh.ep().sent =~= sent0 + cand_msgs(csv.take(i + 1)));
                                if rest0.skip(i as int).len() == 0 {
                                    assert(sub.out == Err::<Seq<bool>, IpcError>(IpcError::Closed));
                                    assert(sub.used == 0);
                                    assert(sub.sent =~= seq![ServerMsgV::Candidate(csv[i as int])]);
                                    assert(xh.ep().pending =~= rest0.skip(i as int));
                                } else {
                                    assert(rest0.skip(i as int).drop_first() =~= rest0.skip(i + 1));
                                    assert(sub.out == Err::<Seq<bool>, IpcError>(
                                        IpcError::Unexpected,
                                    ));
                                    assert(sub.used == 1);
                                    assert(sub.sent =~= seq![ServerMsgV::Candidate(csv[i as int])]);
                                    assert(xh.ep().pending =~= rest0.skip(i + 1));
                                }
                                assert(cb_loop(csv, rest0).sent =~= cand_msgs(csv.take(i + 1)));
                            }
                            return Err((xh.abort(), err));
                        },
                    }
                }
                proof {
                    let ghost sub = cb_loop(csv.skip(i as int), rest0.skip(i as int));
                    assert(csv.skip(i as int).len() == 0);
                    assert(sub.out == Ok::<Seq<bool>, IpcError>(Seq::<bool>::empty()));
                    assert(answers@ + Seq::<bool>::empty() =~= answers@);
                    assert(cb_loop(csv, rest0).out == Ok::<Seq<bool>, IpcError>(answers@));
                    assert(csv.take(i as int) =~= csv);
                    assert(cand_msgs(csv) + Seq::<ServerMsgV>::empty() =~= cand_msgs(csv));
                    assert(cb_loop(csv, rest0).sent == cand_msgs(csv));
                    assert(cb_loop(csv, rest0).used == i);
                    assert(handles_of(lookup(w0, id).unwrap().records).len() == lookup(
                        w0,
                        id,
                    ).unwrap().records.len());
                }
                let res = worker.finish_search(id, &query, &answers);
                let h = xh.leave(Ok(res));
                proof {
                    let s = step_spec(
                        w0,
                        RequestV::Search { id, query: query@, prefilter },
                        rest0,
                    );
                    assert(h.ep().sent =~= sent0 + s.sent);
                }
                Ok(h)
            }
        },
    }
}

/// Runs the vbase sub-protocol: reports whether the traversal opened, then
/// streams one item per `Next` until the client leaves or the transport
/// fails.
fn do_vbase(worker: &Worker, id: u64, vector: Vec<u64>, x: crate::handle::VbaseHandler) -> (r:
    Result<RpcHandler, (Endpoint, IpcError)>)
    requires
        worker.wf(),
    ensures
        ({
            let s = step_spec(
                worker@,
                RequestV::Vbase { id, vector: vector@ },
                x.ep().pending,
            );
            match r {
                Ok(h2) => s.fault is None && h2.ep().sent == x.ep().sent + s.sent
                    && h2.ep().pending == x.ep().pending.skip(s.used as int),
                Err((e, err)) => s.fault == Some(err) && e@.sent == x.ep().sent + s.sent
                    && e@.pending == x.ep().pending.skip(s.used as int),
            }
        }),
{
    let ghost rest0 = x.ep().pending;
    let ghost sent0 = x.ep().sent;
    match worker.vbase_open(id, &vector) {
        Err(e) => {
            let h = x.error(e);
            proof {
                assert(h.ep().sent =~= sent0 + seq![ServerMsgV::VbaseOpen(Err(e))]);
                assert(rest0.skip(0) =~= rest0);
            }
            Ok(h)
        },
        Ok(it) => {
            let mut it = it;
            let ghost items = it@.items;
            let mut ev = x.start();
            let ghost mut ssofar: Seq<ServerMsgV> = Seq::empty();
            let ghost mut usofar: nat = 0;
            proof {
                assert(rest0.skip(0) =~= rest0);
                assert(ssofar + vb_loop(items, 0, rest0.skip(0)).sent =~= vb_loop(
                    items,
                    0,
                    rest0,
                ).sent);
                assert(ev.ep().sent =~= sent0.push(ServerMsgV::VbaseOpen(Ok(()))) + ssofar);
            }
            loop
                invariant
                    worker.wf(),
                    vbase_open_spec(worker@, id, vector@) == Ok::<Seq<u64>, OpError>(items),
                    rest0 == x.ep().pending,
                    sent0 == x.ep().sent,
                    it@.items == items,
                    it@.pos <= items.len(),
                    usofar <= rest0.len(),
                    ev.ep().pending == rest0.skip(usofar as int),
                    ev.ep().sent == sent0.push(ServerMsgV::VbaseOpen(Ok(()))) + ssofar,
                    vb_loop(items, 0, rest0).sent == ssofar + vb_loop(
                        items,
                        it@.pos,
                        rest0.skip(usofar as int),
                    ).sent,
                    vb_loop(items, 0, rest0).used == usofar + vb_loop(
                        items,
                        it@.pos,
                        rest0.skip(usofar as int),
                    ).used,
                    vb_loop(items, 0, rest0).fault == vb_loop(
                        items,
                        it@.pos,
                        rest0.skip(usofar as int),
                    ).fault,
                decreases rest0.len() - usofar,
            {
                let ghost sub = vb_loop(items, it@.pos, rest0.skip(usofar as int));
                match ev.handle() {
                    Err((e, err)) => {
                        proof {
                            if rest0.skip(usofar as int).len() == 0 {
                                assert(sub.used == 0);
                                assert(sub.fault == Some(IpcError::Closed));
                                assert(e@.pending =~= rest0.skip(usofar as int));
                            } else {
                                assert(rest0.skip(usofar as int).drop_first() =~= rest0.skip(usofar as int + 1));
                                assert(sub.used == 1);
                                assert(sub.fault == Some(IpcError::Unexpected));
                                assert(e@.pending =~= rest0.skip(usofar as int + 1));
                            }
                            assert(sub.sent =~= Seq::<ServerMsgV>::empty());
                            assert(ssofar + sub.sent =~= ssofar);
                            let s = step_spec(
                                worker@,
                                RequestV::Vbase { id, vector: vector@ },
                                rest0,
                            );
                            assert(e@.sent =~= sent0 + s.sent);
                        }
                        return Err((e, err));
                    },
                    Ok(VbaseHandle::Next { x: snd }) => {
                        let item = it.next();
                        ev = snd.leave(item);
                        proof {
                            let ghost sub2 = vb_loop(items, it@.pos, rest0.skip(usofar as int + 1));
                            let ghost ss0 = ssofar;
                            assert(rest0.skip(usofar as int)[0] == ClientMsgV::VbaseNext);
                            assert(rest0.skip(usofar as int).drop_first() =~= rest0.skip(usofar as int + 1));
                            assert(sub.sent == seq![ServerMsgV::VbaseItem(item)] + sub2.sent);
                            assert(sub.used == 1 + sub2.used);
                            assert(sub.fault == sub2.fault);
                            ssofar = ssofar + seq![ServerMsgV::VbaseItem(item)];
                            usofar = usofar + 1;
                            assert(ev.ep().pending =~= rest0.skip(usofar as int));
                            assert(ev.ep().sent =~= sent0.push(ServerMsgV::VbaseOpen(Ok(())))
                                + ssofar);
                            assert(vb_loop(items, 0, rest0).sent == ssofar + sub2.sent) by {
                                assert((ss0 + (seq![ServerMsgV::VbaseItem(item)] + sub2.sent))
                                    =~= (ssofar + sub2.sent));
                            }
                        }
                    },
                    Ok(VbaseHandle::Leave { x: h }) => {
                        proof {
                            assert(rest0.skip(usofar as int)[0] == ClientMsgV::VbaseLeave);
                            assert(sub.used == 1);
                            assert(sub.fault is None);
                            assert(sub.sent =~= Seq::<ServerMsgV>::empty());
                            assert(ssofar + sub.sent =~= ssofar);
                            assert(rest0.skip(usofar as int).drop_first() =~= rest0.skip(usofar as int + 1));
                            assert(h.ep().pending =~= rest0.skip(usofar as int + 1));
                            let s = step_spec(
                                worker@,
                                RequestV::Vbase { id, vector: vector@ },
                                rest0,
                            );
                            assert(h.ep().sent =~= sent0 + s.sent);
                        }
                        return Ok(h);
                    },
                }
            }
        },
    }
}

/// Dispatches one received request into its sub-protocol and returns the
/// top-level handle on success.
pub fn serve_one(worker: &mut Worker, h: RpcHandle) -> (r: Result<RpcHandler, (Endpoint, IpcError)>)
    requires
        old(worker).wf(),
    ensures
        final(worker).wf(),
        ({
            let s = step_spec(old(worker)@, rpc_handle_req(h), rpc_handle_ep(h).pending);
            final(worker)@ == s.store && match r {
                Ok(h2) => s.fault is None && h2.ep().sent == rpc_handle_ep(h).sent + s.sent
                    && h2.ep().pending == rpc_handle_ep(h).pending.skip(s.used as int),
                Err((e, err)) => s.fault == Some(err) && e@.sent == rpc_handle_ep(h).sent + s.sent
                    && e@.pending == rpc_handle_ep(h).pending.skip(s.used as int),
            }
        }),
{
    match h {
        RpcHandle::Create { id, options, x } => {
            worker.call_create(id, options);
            let h2 = x.leave();
            proof {
                assert(h2.ep().sent =~= x.ep().sent + seq![ServerMsgV::CreateDone]);
                assert(x.ep().pending.skip(0) =~= x.ep().pending);
            }
            Ok(h2)
        },
        RpcHandle::Insert { id, insert, x } => {
            let res = worker.call_insert(id, insert);
            let h2 = x.leave(res);
            proof {
                assert(h2.ep().sent =~= x.ep().sent + seq![ServerMsgV::InsertDone(res)]);
                assert(x.ep().pending.skip(0) =~= x.ep().pending);
            }
            Ok(h2)
        },
        RpcHandle::Delete { id, x } => do_delete(worker, id, x),
        RpcHandle::Search { id, search, prefilter, x } => do_search(worker, id, search, prefilter, x),
        RpcHandle::Flush { id, x } => {
            let res = worker.call_flush(id);
            let h2 = x.leave(res);
            proof {
                assert(h2.ep().sent =~= x.ep().sent + seq![ServerMsgV::FlushDone(res)]);
                assert(x.ep().pending.skip(0) =~= x.ep().pending);
            }
            Ok(h2)
        },
        RpcHandle::Destroy { ids, x } => {
            worker.call_destroy(&ids);
            let h2 = x.leave();
            proof {
                assert(h2.ep().sent =~= x.ep().sent + seq![ServerMsgV::DestroyDone]);
                assert(x.ep().pending.skip(0) =~= x.ep().pending);
            }
            Ok(h2)
        },
        RpcHandle::Stat { id, x } => {
            let res = worker.call_stat(id);
            let h2 = x.leave(res);
            proof {
                assert(h2.ep().sent =~= x.ep().sent + seq![ServerMsgV::StatDone(res)]);
                assert(x.ep().pending.skip(0) =~= x.ep().pending);
            }
            Ok(h2)
        },
        RpcHandle::Vbase { id, vector, x } => do_vbase(worker, id, vector, x),
    }
}

/// Runs one whole session: dispatches request after request until the
/// transport closes or a protocol fault occurs, and returns the endpoint
/// (whose sent transcript the interpreter pins down) with the fault.
pub fn session(worker: &mut Worker, handler: RpcHandler) -> (r: (Endpoint, IpcError))
    requires
        old(worker).wf(),
    ensures
        final(worker).wf(),
        ({
            let run = run_spec(old(worker)@, handler.ep().pending);
            final(worker)@ == run.store && r.0@.sent == handler.ep().sent + run.sent && r.1
                == run.fault
        }),
{
    let ghost w0 = worker@;
    let ghost p0 = handler.ep().pending;
    let ghost s0 = handler.ep().sent;
    let mut h = handler;
    let ghost mut sent_acc: Seq<ServerMsgV> = Seq::empty();
    proof {
        assert(sent_acc + run_spec(worker@, h.ep().pending).sent =~= run_spec(
            worker@,
            h.ep().pending,
        ).sent);
        assert(s0 + sent_acc =~= s0);
    }
    loop
        invariant
            worker.wf(),
            w0 == old(worker)@,
            p0 == handler.ep().pending,
            s0 == handler.ep().sent,
            run_spec(w0, p0).store == run_spec(worker@, h.ep().pending).store,
            run_spec(w0, p0).sent == sent_acc + run_spec(worker@, h.ep().pending).sent,
            run_spec(w0, p0).fault == run_spec(worker@, h.ep().pending).fault,
            h.ep().sent == s0 + sent_acc,
        decreases h.ep().pending.len(),
    {
        let ghost wpre = worker@;
        let ghost ppre = h.ep().pending;
        match h.handle() {
            Err((e, err)) => {
                proof {
                    assert(run_spec(wpre, ppre).fault == err);
                    assert(run_spec(wpre, ppre).sent =~= Seq::<ServerMsgV>::empty());
                    assert(run_spec(wpre, ppre).store == wpre);
                    assert(sent_acc + Seq::<ServerMsgV>::empty() =~= sent_acc);
                    assert(e@.sent =~= s0 + run_spec(w0, p0).sent);
                }
                return (e, err);
            },
            Ok(hh) => {
                let ghost rq = rpc_handle_req(hh);
                let ghost rest = rpc_handle_ep(hh).pending;
                proof {
                    assert(ppre[0] == ClientMsgV::Request(rq));
                    assert(rest == ppre.drop_first());
                    lemma_step_used_le(wpre, rq, rest);
                }
                let ghost s = step_spec(wpre, rq, rest);
                match serve_one(worker, hh) {
                    Ok(h2) => {
                        proof {
                            assert(run_spec(wpre, ppre).store == run_spec(
                                s.store,
                                rest.skip(s.used as int),
                            ).store);
                            assert(run_spec(wpre, ppre).sent =~= s.sent + run_spec(
                                s.store,
                                rest.skip(s.used as int),
                            ).sent);
                            assert(run_spec(wpre, ppre).fault == run_spec(
                                s.store,
                                rest.skip(s.used as int),
                            ).fault);
                            sent_acc = sent_acc + s.sent;
                            assert(run_spec(w0, p0).sent =~= sent_acc + run_spec(
                                s.store,
                                rest.skip(s.used as int),
                            ).sent);
                            assert(h2.ep().sent =~= s0 + sent_acc);
                        }
                        h = h2;
                    },
                    Err((e, err)) => {
                        proof {
                            assert(run_spec(wpre, ppre).fault == err);
                            assert(run_spec(wpre, ppre).sent == s.sent);
                            assert(run_spec(wpre, ppre).store == s.store);
                            assert(e@.sent =~= s0 + (sent_acc + s.sent));
                            assert(s0 + (sent_acc + s.sent) =~= s0 + run_spec(w0, p0).sent);
                        }
                        return (e, err);
                    },
                }
            },
        }
    }
}

/// One dispatched request never consumes more messages than remain.
pub proof fn lemma_step_used_le(w: Seq<(u64, IndexV)>, rq: RequestV, rest: Seq<ClientMsgV>)
    ensures
        step_spec(w, rq, rest).used <= rest.len(),
{
    match rq {
        RequestV::Delete { id } => match lookup(w, id) {
            Some(ix) => lemma_cb_used_le(handles_of(ix.records), rest),
            None => {},
        },
        RequestV::Search { id, query, prefilter } => match lookup(w, id) {
            Some(ix) => if query.len() == ix.dim && prefilter {
                lemma_cb_used_le(handles_of(ix.records), rest)
            },
            None => {},
        },
        RequestV::Vbase { id, vector } => match vbase_open_spec(w, id, vector) {
            Ok(items) => lemma_vb_used_le(items, 0, rest),
            Err(_) => {},
        },
        _ => {},
    }
}

/// Which server messages belong to which request kind's sub-protocol.
pub open spec fn msg_of_kind(rq: RequestV, m: ServerMsgV) -> bool {
    match rq {
        RequestV::Create { .. } => m is CreateDone,
        RequestV::Insert { .. } => m is InsertDone,
        RequestV::Delete { .. } => m is Candidate || m is DeleteDone,
        RequestV::Search { .. } => m is Candidate || m is SearchDone,
        RequestV::Flush { .. } => m is FlushDone,
        RequestV::Destroy { .. } => m is DestroyDone,
        RequestV::Stat { .. } => m is StatDone,
        RequestV::Vbase { .. } => m is VbaseOpen || m is VbaseItem,
    }
}

/// The callback loop sends candidate messages only.
proof fn lemma_cb_sent_candidates(cs: Seq<u64>, rest: Seq<ClientMsgV>)
    ensures
        forall|k: int|
            0 <= k < cb_loop(cs, rest).sent.len() ==> (#[trigger] cb_loop(cs, rest).sent[k])
                is Candidate,
    decreases cs.len(),
{
    if cs.len() > 0 && rest.len() > 0 && rest[0] is Answer {
        lemma_cb_sent_candidates(cs.drop_first(), rest.drop_first());
        let r = cb_loop(cs.drop_first(), rest.drop_first());
        assert forall|k: int| 0 <= k < cb_loop(cs, rest).sent.len() implies (
        #[trigger] cb_loop(cs, rest).sent[k]) is Candidate by {
            if k > 0 {
                assert(cb_loop(cs, rest).sent[k] == r.sent[k - 1]);
            }
        }
    }
}

/// On a completed callback loop, the round trips and candidate messages
/// number exactly the candidates.
proof fn lemma_cb_complete(cs: Seq<u64>, rest: Seq<ClientMsgV>)
    ensures
        cb_loop(cs, rest).out is Ok ==> cb_loop(cs, rest).used == cs.len() && cb_loop(
            cs,
            rest,
        ).sent.len() == cs.len(),
    decreases cs.len(),
{
    if cs.len() > 0 && rest.len() > 0 && rest[0] is Answer {
        lemma_cb_complete(cs.drop_first(), rest.drop_first());
    }
}

/// The vbase loop sends streamed items only.
proof fn lemma_vb_sent_items(items: Seq<u64>, pos: nat, rest: Seq<ClientMsgV>)
    ensures
        forall|k: int|
            0 <= k < vb_loop(items, pos, rest).sent.len() ==> (#[trigger] vb_loop(
                items,
                pos,
                rest,
            ).sent[k]) is VbaseItem,
    decreases rest.len(),
{
    if rest.len() > 0 && rest[0] is VbaseNext {
        let npos: nat = if pos < items.len() {
            pos + 1
        } else {
            pos
        };
        lemma_vb_sent_items(items, npos, rest.drop_first());
        let r = vb_loop(items, npos, rest.drop_first());
        assert forall|k: int| 0 <= k < vb_loop(items, pos, rest).sent.len() implies (
        #[trigger] vb_loop(items, pos, rest).sent[k]) is VbaseItem by {
            if k > 0 {
                assert(vb_loop(items, pos, rest).sent[k] == r.sent[k - 1]);
            }
        }
    }
}

/// Law: every message a dispatched request sends belongs to that request's
/// own sub-protocol, and a request that runs to completion sends at least
/// one message — no request kind ever yields a mismatched reply.
pub proof fn lemma_reply_matches_kind(w: Seq<(u64, IndexV)>, rq: RequestV, rest: Seq<ClientMsgV>)
    ensures
        forall|k: int|
            0 <= k < step_spec(w, rq, rest).sent.len() ==> msg_of_kind(
                rq,
                #[trigger] step_spec(w, rq, rest).sent[k],
            ),
        step_spec(w, rq, rest).fault is None ==> step_spec(w, rq, rest).sent.len() >= 1,
{
    let s = step_spec(w, rq, rest);
    match rq {
        RequestV::Delete { id } => match lookup(w, id) {
            Some(ix) => {
                let cb = cb_loop(handles_of(ix.records), rest);
                lemma_cb_sent_candidates(handles_of(ix.records), rest);
                assert forall|k: int| 0 <= k < s.sent.len() implies msg_of_kind(
                    rq,
                    #[trigger] s.sent[k],
                ) by {
                    if cb.out is Ok && k < cb.sent.len() {
                        assert(s.sent[k] == cb.sent[k]);
                    }
                }
            },
            None => {},
        },
        RequestV::Search { id, query, prefilter } => match lookup(w, id) {
            Some(ix) => if query.len() == ix.dim && prefilter {
                let cb = cb_loop(handles_of(ix.records), rest);
                lemma_cb_sent_candidates(handles_of(ix.records), rest);
                assert forall|k: int| 0 <= k < s.sent.len() implies msg_of_kind(
                    rq,
                    #[trigger] s.sent[k],
                ) by {
                    if cb.out is Ok && k < cb.sent.len() {
                        assert(s.sent[k] == cb.sent[k]);
                    }
                }
            },
            None => {},
        },
        RequestV::Vbase { id, vector } => match vbase_open_spec(w, id, vector) {
            Ok(items) => {
                let vb = vb_loop(items, 0, rest);
                lemma_vb_sent_items(items, 0, rest);
                assert forall|k: int| 0 <= k < s.sent.len() implies msg_of_kind(
                    rq,
                    #[trigger] s.sent[k],
                ) by {
                    if k > 0 {
                        assert(s.sent[k] == vb.sent[k - 1]);
                    }
                }
            },
            Err(_) => {},
        },
        _ => {},
    }
}

/// Law: for a delete, and for a search with the prefilter enabled, a
/// traversal of N candidates makes exactly N accept/reject round trips
/// before the final result is sent; with the prefilter disabled, zero round
/// trips occur and every candidate counts.
pub proof fn lemma_callback_round_trips(
    w: Seq<(u64, IndexV)>,
    id: u64,
    query: Seq<u64>,
    rest: Seq<ClientMsgV>,
)
    requires
        lookup(w, id) is Some,
    ensures
        step_spec(w, RequestV::Delete { id }, rest).fault is None ==> step_spec(
            w,
            RequestV::Delete { id },
            rest,
        ).used == lookup(w, id).unwrap().records.len(),
        query.len() == lookup(w, id).unwrap().dim && step_spec(
            w,
            RequestV::Search { id, query, prefilter: true },
            rest,
        ).fault is None ==> step_spec(w, RequestV::Search { id, query, prefilter: true }, rest).used
            == lookup(w, id).unwrap().records.len(),
        step_spec(w, RequestV::Search { id, query, prefilter: false }, rest).used == 0,
{
    let ix = lookup(w, id).unwrap();
    lemma_cb_complete(handles_of(ix.records), rest);
}

/// Law: once the vbase traversal is exhausted, every further `Next` yields
/// the end sentinel again, never an error; and `Leave` at any point,
/// including before any `Next`, cleanly ends the sub-protocol with nothing
/// more sent.
pub proof fn lemma_vbase_tail(items: Seq<u64>, pos: nat, rest: Seq<ClientMsgV>)
    ensures
        pos >= items.len() ==> forall|k: int|
            0 <= k < vb_loop(items, pos, rest).sent.len() ==> (#[trigger] vb_loop(
                items,
                pos,
                rest,
            ).sent[k]) == ServerMsgV::VbaseItem(None::<u64>),
        rest.len() > 0 && rest[0] is VbaseLeave ==> vb_loop(items, pos, rest) == (VbRes {
            sent: Seq::<ServerMsgV>::empty(),
            used: 1nat,
            fault: None::<IpcError>,
        }),
    decreases rest.len(),
{
    if pos >= items.len() && rest.len() > 0 && rest[0] is VbaseNext {
        lemma_vbase_tail(items, pos, rest.drop_first());
        let r = vb_loop(items, pos, rest.drop_first());
        assert forall|k: int| 0 <= k < vb_loop(items, pos, rest).sent.len() implies (
        #[trigger] vb_loop(items, pos, rest).sent[k]) == ServerMsgV::VbaseItem(None::<u64>) by {
            if k > 0 {
                assert(vb_loop(items, pos, rest).sent[k] == r.sent[k - 1]);
            }
        }
    }
}

/// Law: a transport fault during the delete callback loop leaves the store
/// untouched and sends no aggregate result — the client only ever saw
/// candidate messages, and the session ends without a reply.
pub proof fn lemma_delete_abort(w: Seq<(u64, IndexV)>, id: u64, rest: Seq<ClientMsgV>)
    ensures
        step_spec(w, RequestV::Delete { id }, rest).fault is Some ==> step_spec(
            w,
            RequestV::Delete { id },
            rest,
        ).store == w && forall|k: int|
            0 <= k < step_spec(w, RequestV::Delete { id }, rest).sent.len() ==> (
            #[trigger] step_spec(w, RequestV::Delete { id }, rest).sent[k]) is Candidate,
{
    match lookup(w, id) {
        Some(ix) => {
            lemma_cb_sent_candidates(handles_of(ix.records), rest);
        },
        None => {},
    }
}

} // verus!
