use gradechain::blockchain_node::BlockchainNode;
use gradechain::blockchain_node::StepOutput;
use gradechain::framing::ChunkAssembler;
use gradechain::framing::frame_message;
use gradechain::ip_parser::get_port_from_dir;
use gradechain::ip_parser::local_address_with_port;
use gradechain::outbound::OutboundMessage;

fn addr(port: usize) -> String {
    format!("127.0.0.1:{}", port)
}

/// Deliver one outbound datagram to `node`, as if it came from `sender`.
fn deliver(node: &mut BlockchainNode, message: &OutboundMessage, sender: &str) -> StepOutput {
    node.handle_incoming_message(message.payload.as_str(), sender)
        .expect("closed protocol: every simulated datagram must decode")
}

#[test]
fn test_parse_ip() {
    assert_eq!(Some(8080), get_port_from_dir("127.0.0.1:8080"))
}

#[test]
fn local_address_carries_the_port_text() {
    assert_eq!(local_address_with_port("8080"), String::from("127.0.0.1:8080"));
    assert_eq!(get_port_from_dir("localhost:notaport"), None);
}

#[test]
fn election_by_highest_id() {
    // nodes 6060, 6061, 6062; 6060 calls begin_election; all three end
    // with the highest id as leader
    let mut n60 = BlockchainNode::new(6060, vec![addr(6061), addr(6062)]);
    let mut n61 = BlockchainNode::new(6061, vec![addr(6060), addr(6062)]);
    let mut n62 = BlockchainNode::new(6062, vec![addr(6060), addr(6061)]);

    let started = n60.begin_election();
    assert!(started.election_started);
    assert_eq!(started.messages.len(), 2);

    // both higher peers answer the challenge and start their own elections
    let from60 = addr(6060);
    let out61 = deliver(&mut n61, &started.messages[0], from60.as_str());
    let out62a = deliver(&mut n62, &started.messages[1], from60.as_str());
    assert!(out61.messages.len() >= 1 && out61.election_started);
    assert!(out62a.election_started);

    // 6061 answered with OK_ELECTION and challenged 6062 in turn
    let ok_for_60 = &out61.messages[0];
    assert_eq!(ok_for_60.payload, "O");
    deliver(&mut n60, ok_for_60, addr(6061).as_str());
    let challenge_62 = &out61.messages[1];
    let out62b = deliver(&mut n62, challenge_62, addr(6061).as_str());
    // 6062 answers 6061; its own election is already running
    assert_eq!(out62b.messages[0].payload, "O");
    assert!(!out62b.election_started);

    // 6062 heard no OK_ELECTION: the timer makes it leader
    let coronation = n62.election_timeout();
    assert_eq!(n62.leader_port, Some(6062));
    assert_eq!(coronation.messages.len(), 2);
    for m in coronation.messages.iter() {
        assert_eq!(m.payload, "C");
    }
    let from62 = addr(6062);
    deliver(&mut n60, &coronation.messages[0], from62.as_str());
    deliver(&mut n61, &coronation.messages[1], from62.as_str());
    assert_eq!(n60.leader_port, Some(6062));
    assert_eq!(n61.leader_port, Some(6062));
    assert!(!n60.is_in_election);
    assert!(!n61.is_in_election);

    // 6060 heard an OK_ELECTION, so its own timer does not crown it
    let quiet = n60.election_timeout();
    assert!(quiet.messages.is_empty());
    assert_eq!(n60.leader_port, Some(6062));
}

#[test]
fn mutex_grants_in_fifo_order() {
    // the leader hears ACQUI from A, then from B while held: OKACQ goes to
    // A at once, to B only after A's release
    let mut leader = BlockchainNode::new(6062, vec![addr(6060), addr(6061)]);
    let a = addr(6060);
    let b = addr(6061);

    let first = leader.process_acquire_message(a.as_str());
    assert!(first.lock_granted);
    assert_eq!(first.messages.len(), 1);
    assert_eq!(first.messages[0].dest, a);
    assert_eq!(first.messages[0].payload, "OKACQ");

    let second = leader.process_acquire_message(b.as_str());
    assert!(!second.lock_granted);
    assert!(second.messages.is_empty());

    let after_release = leader.process_release_message();
    assert!(after_release.lock_granted);
    assert_eq!(after_release.messages.len(), 1);
    assert_eq!(after_release.messages[0].dest, b);
    assert_eq!(after_release.messages[0].payload, "OKACQ");

    // B releases too; nobody waits, the lock is free
    let done = leader.process_release_message();
    assert!(!done.lock_granted);
    assert!(done.messages.is_empty());
    assert!(!leader.coordinator_state.lock_taken);
}

#[test]
fn release_timer_reclaims_a_lost_lock() {
    let mut leader = BlockchainNode::new(6062, vec![addr(6060), addr(6061)]);
    let granted = leader.process_acquire_message(addr(6060).as_str());
    assert!(granted.lock_granted);
    let queued = leader.process_acquire_message(addr(6061).as_str());
    assert!(queued.messages.is_empty());

    // the holder crashed: no RELEA; the timer passes the lock on
    let reclaimed = leader.release_timeout();
    assert!(reclaimed.lock_granted);
    assert_eq!(reclaimed.messages[0].dest, addr(6061));
}

#[test]
fn release_timer_after_a_proper_release_does_nothing() {
    let mut leader = BlockchainNode::new(6062, vec![]);
    leader.process_acquire_message(addr(6060).as_str());
    leader.process_release_message();
    assert!(leader.coordinator_state.got_release_confirmation);
    let quiet = leader.release_timeout();
    assert!(!quiet.lock_granted);
    assert!(quiet.messages.is_empty());
    assert!(!leader.coordinator_state.got_release_confirmation);
    assert!(!leader.coordinator_state.lock_taken);
}

#[test]
fn non_coordinator_ignores_stale_lock_traffic() {
    let mut follower = BlockchainNode::new(6060, vec![addr(6062)]);
    let from62 = addr(6062);
    // 6062 announces itself coordinator, so 6060 is not the lock server
    follower
        .handle_incoming_message("C", from62.as_str())
        .unwrap();
    let out = follower.process_acquire_message(addr(6061).as_str());
    assert!(!out.lock_granted);
    assert!(out.messages.is_empty());
    let out = follower.process_release_message();
    assert!(out.messages.is_empty());
}

#[test]
fn acquire_timeout_triggers_election_and_the_retry_succeeds() {
    // the leader 6062 is dead; 6060's write times out, 6061 wins the
    // election, and the retried write lands on every surviving node
    let mut n60 = BlockchainNode::new(6060, vec![addr(6061), addr(6062)]);
    let mut n61 = BlockchainNode::new(6061, vec![addr(6060), addr(6062)]);
    let from62 = addr(6062);
    n60.handle_incoming_message("C", from62.as_str()).unwrap();
    n61.handle_incoming_message("C", from62.as_str()).unwrap();

    // the write: ACQUI goes to the dead leader and the wait times out
    let acqui = n60.dist_mutex.acquire_request();
    assert_eq!(acqui.dest, addr(6062));
    assert!(n60.dist_mutex.acquire_complete().is_err());

    // the timeout starts an election; only the dead 6062 outranks 6061
    let started = n60.begin_election();
    assert!(started.election_started);
    let from60 = addr(6060);
    let out61 = deliver(&mut n61, &started.messages[0], from60.as_str());
    deliver(&mut n60, &out61.messages[0], addr(6061).as_str());
    let coronation = n61.election_timeout();
    assert_eq!(n61.leader_port, Some(6061));
    deliver(&mut n60, &coronation.messages[0], addr(6061).as_str());
    assert_eq!(n60.leader_port, Some(6061));

    // the retry: acquire from the new leader, forward, replicate, release
    let acqui = n60.dist_mutex.acquire_request();
    assert_eq!(acqui.dest, addr(6061));
    let granted = deliver(&mut n61, &acqui, from60.as_str());
    assert!(granted.lock_granted);
    deliver(&mut n60, &granted.messages[0], addr(6061).as_str());
    assert!(n60.dist_mutex.acquire_complete().is_ok());

    let forward = n60.add_grade_request(&String::from("Dylan"), &format!("{}", 10.0));
    let replicated = deliver(&mut n61, &forward, from60.as_str());
    // the broadcast reaches 6060 (and would reach the dead 6062)
    let to60 = replicated
        .messages
        .iter()
        .find(|m| m.dest == addr(6060))
        .unwrap();
    deliver(&mut n60, to60, addr(6061).as_str());

    let release = n60.add_grade_finish();
    deliver(&mut n61, &release, from60.as_str());

    assert_eq!(n60.blockchain.records().len(), 1);
    assert_eq!(n61.blockchain.records().len(), 1);
    assert_eq!(n60.blockchain.as_str(), n61.blockchain.as_str());
    assert!(n60.blockchain.is_valid());
    assert!(n61.blockchain.is_valid());
    assert!(!n61.coordinator_state.lock_taken);
}

#[test]
fn cold_start_adopts_the_first_ledger_reply() {
    // a fresh node joins two peers that hold two records; within one
    // request round its ledger equals theirs and verifies
    let mut peer = BlockchainNode::new(6060, vec![addr(6061), addr(6062)]);
    peer.blockchain.add_grade(String::from("Dylan"), format!("{}", 10.0));
    peer.blockchain
        .add_grade(String::from("Gustavo"), format!("{}", 7.99));
    let mut fresh = BlockchainNode::new(6062, vec![addr(6060), addr(6061)]);

    let asks = fresh.ask_for_blockchain();
    assert_eq!(asks.len(), 2);
    assert_eq!(asks[0].payload, "AskForBlockchain");

    let from62 = addr(6062);
    let reply = deliver(&mut peer, &asks[0], from62.as_str());
    assert_eq!(reply.messages.len(), 1);

    let adopted = deliver(&mut fresh, &reply.messages[0], addr(6060).as_str());
    assert!(adopted.ledger_adopted);
    assert!(fresh.synchronization_done);
    assert_eq!(fresh.blockchain.records().len(), 2);
    assert_eq!(fresh.blockchain.as_str(), peer.blockchain.as_str());
    assert!(fresh.blockchain.is_valid());

    // a second reply is ignored: the first one won
    let late = deliver(&mut fresh, &reply.messages[0], addr(6061).as_str());
    assert!(!late.ledger_adopted);
    assert_eq!(fresh.blockchain.records().len(), 2);
}

#[test]
fn replica_broadcast_reaches_every_neighbor() {
    let mut leader = BlockchainNode::new(6062, vec![addr(6060), addr(6061)]);
    let from60 = addr(6060);
    let out = leader
        .handle_incoming_message("GRADE_TO_COORDINATOR;Dylan;10;", from60.as_str());
    // trailing semicolon makes a third, empty token: still a valid forward
    assert!(out.is_some());
    let out = out.unwrap();
    assert_eq!(out.messages.len(), 2);
    assert_eq!(leader.blockchain.records().len(), 1);
    for m in out.messages.iter() {
        assert!(m.payload.starts_with("GRADE_FROM_COORDINATOR;Dylan;"));
    }
}

#[test]
fn unknown_messages_are_refused_by_the_dispatcher() {
    let mut node = BlockchainNode::new(6060, vec![]);
    assert!(node
        .handle_incoming_message("PING", addr(6061).as_str())
        .is_none());
    assert!(node
        .handle_incoming_message("", addr(6061).as_str())
        .is_none());
}

#[test]
fn make_coordinator_points_the_leader_at_self() {
    let mut node = BlockchainNode::new(6060, vec![addr(6061)]);
    node.leader_port = None;
    node.make_coordinator();
    assert_eq!(node.leader_port, Some(6060));
}

#[test]
fn pings_go_to_every_neighbor() {
    let node = BlockchainNode::new(6060, vec![addr(6061), addr(6062)]);
    let pings = node.ping_neighbors();
    assert_eq!(pings.len(), 2);
    assert_eq!(pings[0].dest, addr(6061));
    assert_eq!(pings[0].payload, "PING");
}

#[test]
fn framing_reassembles_fragmented_messages() {
    let mut assembler = ChunkAssembler::new();
    assert_eq!(assembler.push_chunk("ACQ"), None);
    assert_eq!(assembler.push_chunk("UI"), None);
    assert_eq!(assembler.push_chunk("\n"), Some(String::from("ACQUI")));
    // the buffer is clear again for the next message
    assert_eq!(assembler.push_chunk("E\n"), Some(String::from("E")));
}

#[test]
fn framed_messages_end_with_a_newline() {
    assert_eq!(frame_message("ACQUI"), String::from("ACQUI\n"));
    let mut assembler = ChunkAssembler::new();
    assert_eq!(
        assembler.push_chunk(frame_message("AskForBlockchain").as_str()),
        Some(String::from("AskForBlockchain"))
    );
}
