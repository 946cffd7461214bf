use vectors::endpoint::Endpoint;
use vectors::handle::RpcHandler;
use vectors::msg::{ClientMsg, IndexOptions, IndexStat, IpcError, OpError, Request, ServerMsg};
use vectors::session::session;
use vectors::worker::Worker;

fn run(worker: &mut Worker, script: Vec<ClientMsg>) -> (Vec<ServerMsg>, IpcError) {
    let handler = RpcHandler::new(Endpoint::new(script));
    let (endpoint, err) = session(worker, handler);
    let mut sent = Vec::new();
    for m in endpoint.replies() {
        sent.push(clone_msg(m));
    }
    (sent, err)
}

fn clone_msg(m: &ServerMsg) -> ServerMsg {
    match m {
        ServerMsg::CreateDone => ServerMsg::CreateDone,
        ServerMsg::InsertDone(r) => ServerMsg::InsertDone(*r),
        ServerMsg::Candidate(p) => ServerMsg::Candidate(*p),
        ServerMsg::DeleteDone(r) => ServerMsg::DeleteDone(*r),
        ServerMsg::SearchDone(r) => ServerMsg::SearchDone(match r {
            Ok(v) => Ok(v.clone()),
            Err(e) => Err(*e),
        }),
        ServerMsg::FlushDone(r) => ServerMsg::FlushDone(*r),
        ServerMsg::DestroyDone => ServerMsg::DestroyDone,
        ServerMsg::StatDone(r) => ServerMsg::StatDone(*r),
        ServerMsg::VbaseOpen(r) => ServerMsg::VbaseOpen(*r),
        ServerMsg::VbaseItem(p) => ServerMsg::VbaseItem(*p),
    }
}

fn create(id: u64, dim: u32) -> ClientMsg {
    ClientMsg::Request(Request::Create { id, options: IndexOptions { dim } })
}

fn insert(id: u64, vector: Vec<u64>) -> ClientMsg {
    ClientMsg::Request(Request::Insert { id, vector })
}

#[test]
fn create_then_stat_shows_empty_index() {
    let mut w = Worker::new();
    let script = vec![
        create(7, 128),
        ClientMsg::Request(Request::Stat { id: 7 }),
    ];
    let (sent, err) = run(&mut w, script);
    assert_eq!(err, IpcError::Closed);
    assert_eq!(sent.len(), 2);
    assert_eq!(sent[0], ServerMsg::CreateDone);
    assert_eq!(sent[1], ServerMsg::StatDone(Ok(IndexStat { count: 0, dim: 128 })));
}

#[test]
fn insert_then_search_finds_top_match() {
    let mut w = Worker::new();
    let script = vec![
        create(7, 3),
        insert(7, vec![1, 2, 3]),
        ClientMsg::Request(Request::Search { id: 7, query: vec![1, 2, 3], prefilter: false }),
    ];
    let (sent, err) = run(&mut w, script);
    assert_eq!(err, IpcError::Closed);
    assert_eq!(sent.len(), 3);
    assert_eq!(sent[1], ServerMsg::InsertDone(Ok(())));
    assert_eq!(sent[2], ServerMsg::SearchDone(Ok(vec![0])));
}

#[test]
fn delete_with_one_accepted_candidate() {
    let mut w = Worker::new();
    let script = vec![
        create(7, 2),
        insert(7, vec![4, 4]),
        ClientMsg::Request(Request::Delete { id: 7 }),
        ClientMsg::Answer(true),
        ClientMsg::Request(Request::Stat { id: 7 }),
    ];
    let (sent, err) = run(&mut w, script);
    assert_eq!(err, IpcError::Closed);
    assert_eq!(sent.len(), 5);
    assert_eq!(sent[2], ServerMsg::Candidate(0));
    assert_eq!(sent[3], ServerMsg::DeleteDone(Ok(1)));
    assert_eq!(sent[4], ServerMsg::StatDone(Ok(IndexStat { count: 0, dim: 2 })));
}

#[test]
fn vbase_streams_items_then_sentinels_then_leaves_cleanly() {
    let mut w = Worker::new();
    let script = vec![
        create(7, 2),
        insert(7, vec![0, 0]),
        insert(7, vec![10, 10]),
        ClientMsg::Request(Request::Vbase { id: 7, vector: vec![1, 1] }),
        ClientMsg::VbaseNext,
        ClientMsg::VbaseNext,
        ClientMsg::VbaseNext,
        ClientMsg::VbaseNext,
        ClientMsg::VbaseLeave,
        ClientMsg::Request(Request::Flush { id: 7 }),
    ];
    let (sent, err) = run(&mut w, script);
    assert_eq!(err, IpcError::Closed);
    assert_eq!(sent.len(), 9);
    assert_eq!(sent[3], ServerMsg::VbaseOpen(Ok(())));
    assert_eq!(sent[4], ServerMsg::VbaseItem(Some(0)));
    assert_eq!(sent[5], ServerMsg::VbaseItem(Some(1)));
    assert_eq!(sent[6], ServerMsg::VbaseItem(None));
    assert_eq!(sent[7], ServerMsg::VbaseItem(None));
    assert_eq!(sent[8], ServerMsg::FlushDone(Ok(())));
}

#[test]
fn abrupt_close_mid_delete_sends_no_result_and_spares_other_sessions() {
    let mut w = Worker::new();
    let script = vec![
        create(7, 2),
        insert(7, vec![4, 4]),
        ClientMsg::Request(Request::Delete { id: 7 }),
        // the client closes the transport instead of answering
    ];
    let (sent, err) = run(&mut w, script);
    assert_eq!(err, IpcError::Closed);
    assert_eq!(sent.len(), 3);
    assert_eq!(sent[2], ServerMsg::Candidate(0));
    // no DeleteDone was sent, and the record was not deleted
    let script2 = vec![ClientMsg::Request(Request::Stat { id: 7 })];
    let (sent2, err2) = run(&mut w, script2);
    assert_eq!(err2, IpcError::Closed);
    assert_eq!(sent2.len(), 1);
    assert_eq!(sent2[0], ServerMsg::StatDone(Ok(IndexStat { count: 1, dim: 2 })));
}

#[test]
fn prefilter_search_asks_once_per_candidate() {
    let mut w = Worker::new();
    let script = vec![
        create(7, 1),
        insert(7, vec![0]),
        insert(7, vec![9]),
        ClientMsg::Request(Request::Search { id: 7, query: vec![1], prefilter: true }),
        ClientMsg::Answer(false),
        ClientMsg::Answer(true),
    ];
    let (sent, err) = run(&mut w, script);
    assert_eq!(err, IpcError::Closed);
    assert_eq!(sent.len(), 6);
    assert_eq!(sent[3], ServerMsg::Candidate(0));
    assert_eq!(sent[4], ServerMsg::Candidate(1));
    assert_eq!(sent[5], ServerMsg::SearchDone(Ok(vec![1])));
}

#[test]
fn search_without_prefilter_makes_no_round_trips_and_ranks_stably() {
    let mut w = Worker::new();
    let script = vec![
        create(7, 1),
        insert(7, vec![0]),
        insert(7, vec![5]),
        insert(7, vec![2]),
        ClientMsg::Request(Request::Search { id: 7, query: vec![1], prefilter: false }),
    ];
    let (sent, err) = run(&mut w, script);
    assert_eq!(err, IpcError::Closed);
    assert_eq!(sent.len(), 5);
    assert!(sent.iter().all(|m| !matches!(m, ServerMsg::Candidate(_))));
    // distances 1, 4, 1: equal distances keep insertion order
    assert_eq!(sent[4], ServerMsg::SearchDone(Ok(vec![0, 2, 1])));
}

#[test]
fn operations_on_unknown_index_report_errors_and_continue() {
    let mut w = Worker::new();
    let script = vec![
        insert(9, vec![1]),
        ClientMsg::Request(Request::Delete { id: 9 }),
        ClientMsg::Request(Request::Search { id: 9, query: vec![1], prefilter: true }),
        ClientMsg::Request(Request::Flush { id: 9 }),
        ClientMsg::Request(Request::Stat { id: 9 }),
        ClientMsg::Request(Request::Vbase { id: 9, vector: vec![1] }),
        ClientMsg::Request(Request::Create { id: 9, options: IndexOptions { dim: 1 } }),
    ];
    let (sent, err) = run(&mut w, script);
    assert_eq!(err, IpcError::Closed);
    assert_eq!(sent.len(), 7);
    assert_eq!(sent[0], ServerMsg::InsertDone(Err(OpError::UnknownIndex)));
    assert_eq!(sent[1], ServerMsg::DeleteDone(Err(OpError::UnknownIndex)));
    assert_eq!(sent[2], ServerMsg::SearchDone(Err(OpError::UnknownIndex)));
    assert_eq!(sent[3], ServerMsg::FlushDone(Err(OpError::UnknownIndex)));
    assert_eq!(sent[4], ServerMsg::StatDone(Err(OpError::UnknownIndex)));
    assert_eq!(sent[5], ServerMsg::VbaseOpen(Err(OpError::UnknownIndex)));
    assert_eq!(sent[6], ServerMsg::CreateDone);
}

#[test]
fn wrong_dimension_is_reported_per_operation() {
    let mut w = Worker::new();
    let script = vec![
        create(7, 2),
        insert(7, vec![1, 2, 3]),
        ClientMsg::Request(Request::Search { id: 7, query: vec![1], prefilter: true }),
        ClientMsg::Request(Request::Vbase { id: 7, vector: vec![1] }),
    ];
    let (sent, err) = run(&mut w, script);
    assert_eq!(err, IpcError::Closed);
    assert_eq!(sent.len(), 4);
    assert_eq!(sent[1], ServerMsg::InsertDone(Err(OpError::WrongDimension)));
    assert_eq!(sent[2], ServerMsg::SearchDone(Err(OpError::WrongDimension)));
    assert_eq!(sent[3], ServerMsg::VbaseOpen(Err(OpError::WrongDimension)));
}

#[test]
fn destroy_removes_each_named_index() {
    let mut w = Worker::new();
    let script = vec![
        create(1, 2),
        create(2, 2),
        ClientMsg::Request(Request::Destroy { ids: vec![1, 2, 3] }),
        ClientMsg::Request(Request::Stat { id: 1 }),
        ClientMsg::Request(Request::Stat { id: 2 }),
    ];
    let (sent, err) = run(&mut w, script);
    assert_eq!(err, IpcError::Closed);
    assert_eq!(sent.len(), 5);
    assert_eq!(sent[2], ServerMsg::DestroyDone);
    assert_eq!(sent[3], ServerMsg::StatDone(Err(OpError::UnknownIndex)));
    assert_eq!(sent[4], ServerMsg::StatDone(Err(OpError::UnknownIndex)));
}

#[test]
fn unexpected_message_at_top_level_ends_the_session() {
    let mut w = Worker::new();
    let script = vec![ClientMsg::Answer(true), create(7, 2)];
    let (sent, err) = run(&mut w, script);
    assert_eq!(err, IpcError::Unexpected);
    assert_eq!(sent.len(), 0);
}

#[test]
fn unexpected_answer_mid_delete_ends_the_session_without_result() {
    let mut w = Worker::new();
    let script = vec![
        create(7, 1),
        insert(7, vec![3]),
        ClientMsg::Request(Request::Delete { id: 7 }),
        ClientMsg::VbaseNext,
    ];
    let (sent, err) = run(&mut w, script);
    assert_eq!(err, IpcError::Unexpected);
    assert_eq!(sent.len(), 3);
    assert_eq!(sent[2], ServerMsg::Candidate(0));
}

#[test]
fn vbase_leave_before_any_next_returns_to_top_level() {
    let mut w = Worker::new();
    let script = vec![
        create(7, 1),
        ClientMsg::Request(Request::Vbase { id: 7, vector: vec![1] }),
        ClientMsg::VbaseLeave,
        ClientMsg::Request(Request::Flush { id: 7 }),
    ];
    let (sent, err) = run(&mut w, script);
    assert_eq!(err, IpcError::Closed);
    assert_eq!(sent.len(), 3);
    assert_eq!(sent[1], ServerMsg::VbaseOpen(Ok(())));
    assert_eq!(sent[2], ServerMsg::FlushDone(Ok(())));
}

#[test]
fn unexpected_message_mid_vbase_ends_the_session() {
    let mut w = Worker::new();
    let script = vec![
        create(7, 1),
        ClientMsg::Request(Request::Vbase { id: 7, vector: vec![1] }),
        ClientMsg::Answer(true),
    ];
    let (sent, err) = run(&mut w, script);
    assert_eq!(err, IpcError::Unexpected);
    assert_eq!(sent.len(), 2);
    assert_eq!(sent[1], ServerMsg::VbaseOpen(Ok(())));
}

#[test]
fn create_replaces_an_existing_index() {
    let mut w = Worker::new();
    let script = vec![
        create(7, 2),
        insert(7, vec![1, 1]),
        create(7, 3),
        ClientMsg::Request(Request::Stat { id: 7 }),
    ];
    let (sent, err) = run(&mut w, script);
    assert_eq!(err, IpcError::Closed);
    assert_eq!(sent.len(), 4);
    assert_eq!(sent[3], ServerMsg::StatDone(Ok(IndexStat { count: 0, dim: 3 })));
}

#[test]
fn delete_with_rejected_candidates_keeps_records() {
    let mut w = Worker::new();
    let script = vec![
        create(7, 1),
        insert(7, vec![1]),
        insert(7, vec![2]),
        ClientMsg::Request(Request::Delete { id: 7 }),
        ClientMsg::Answer(false),
        ClientMsg::Answer(true),
        ClientMsg::Request(Request::Stat { id: 7 }),
    ];
    let (sent, err) = run(&mut w, script);
    assert_eq!(err, IpcError::Closed);
    assert_eq!(sent.len(), 7);
    assert_eq!(sent[3], ServerMsg::Candidate(0));
    assert_eq!(sent[4], ServerMsg::Candidate(1));
    assert_eq!(sent[5], ServerMsg::DeleteDone(Ok(1)));
    assert_eq!(sent[6], ServerMsg::StatDone(Ok(IndexStat { count: 1, dim: 1 })));
}
