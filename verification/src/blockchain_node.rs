//! One node of the cluster, as a pure state machine.
//!
//! Every operation is a transition from the node's state and one event — a
//! received message, a timer that fired, an operator command — to the next
//! state and the datagrams to send.  The process shell owns the socket, the
//! threads and the timers: it feeds events in, performs the sends, and
//! arranges the waits that the returned flags call for (`election_started`
//! arms the election timer, `lock_granted` arms the release timer,
//! `ledger_adopted` wakes the cold-start wait).  Each transition's contract
//! ties it to a specification function that states the protocol rule it
//! implements.

use vstd::prelude::*;
use crate::acquire_message::AcquireMessage;
use crate::acquire_message::spec_acquire_wire;
use crate::acquire_message::spec_acquire_from_text;
use crate::add_grade_message::AddGradeMessage;
use crate::add_grade_message::AddGradeModel;
use crate::add_grade_message::spec_add_grade_text;
use crate::add_grade_message::spec_add_grade_from_text;
use crate::blockchain::Blockchain;
use crate::blockchain::BlockchainRecord;
use crate::blockchain::RecordModel;
use crate::blockchain::generate_hash;
use crate::blockchain::spec_generate_hash;
use crate::blockchain::spec_chain_prev;
use crate::blockchain_message::BlockchainMessage;
use crate::blockchain_message::BlockchainMessageModel;
use crate::blockchain_message::spec_blockchain_msg_text;
use crate::blockchain_message::spec_blockchain_msg_from_text;
use crate::coordinator_state::CoordinatorState;
use crate::coordinator_state::CoordinatorModel;
use crate::coordinator_state::spec_coordinator_init;
use crate::digits::spec_dec;
use crate::digits::u64_to_string;
use crate::dist_mutex::DistMutex;
use crate::dist_mutex::DistMutexModel;
use crate::election_message::ElectionMessage;
use crate::election_message::spec_election_wire;
use crate::election_message::spec_election_from_text;
use crate::ip_parser::spec_local_address;
use crate::ip_parser::spec_get_port;
use crate::ip_parser::local_address_with_port;
use crate::ip_parser::get_port_from_dir;
use crate::outbound::OutboundMessage;
use crate::outbound::OutboundModel;
use crate::outbound::outbound_views;
use crate::text::views_of;

verus! {

/// One node's whole state: identity, peers, the elected leader, the ledger,
/// the election and synchronization flags, and the mutex client and server.
pub struct BlockchainNode {
    pub port: usize,
    pub neighbor_addresses: Vec<String>,
    pub leader_port: Option<usize>,
    pub blockchain: Blockchain,
    pub got_ok: bool,
    pub is_in_election: bool,
    pub synchronization_done: bool,
    pub dist_mutex: DistMutex,
    pub coordinator_state: CoordinatorState,
}

/// Mathematical model of a node.
#[verifier::ext_equal]
pub struct NodeModel {
    pub port: usize,
    pub neighbors: Seq<Seq<char>>,
    pub leader_port: Option<usize>,
    pub ledger: Seq<RecordModel>,
    pub got_ok: bool,
    pub in_election: bool,
    pub sync_done: bool,
    pub mutex: DistMutexModel,
    pub coordinator: CoordinatorModel,
}

impl View for BlockchainNode {
    type V = NodeModel;

    open spec fn view(&self) -> NodeModel {
        NodeModel {
            port: self.port,
            neighbors: views_of(self.neighbor_addresses@),
            leader_port: self.leader_port,
            ledger: self.blockchain@,
            got_ok: self.got_ok,
            in_election: self.is_in_election,
            sync_done: self.synchronization_done,
            mutex: self.dist_mutex@,
            coordinator: self.coordinator_state@,
        }
    }
}

/// What one transition yields: the next state, the datagrams to send, and
/// the follow-ups the process shell must arrange.
#[verifier::ext_equal]
pub struct StepModel {
    pub node: NodeModel,
    pub messages: Seq<OutboundModel>,
    pub election_started: bool,
    pub lock_granted: bool,
    pub ledger_adopted: bool,
}

/// The executable counterpart of `StepModel`, minus the state itself.
pub struct StepOutput {
    pub messages: Vec<OutboundMessage>,
    pub election_started: bool,
    pub lock_granted: bool,
    pub ledger_adopted: bool,
}

/// A transition that sends the given messages and asks for no follow-up.
pub open spec fn spec_step(node: NodeModel, messages: Seq<OutboundModel>) -> StepModel {
    StepModel {
        node,
        messages,
        election_started: false,
        lock_granted: false,
        ledger_adopted: false,
    }
}

/// Whether an executable transition did exactly what the model says.
pub open spec fn output_matches(s: StepModel, post: NodeModel, out: StepOutput) -> bool {
    &&& post == s.node
    &&& outbound_views(out.messages@) == s.messages
    &&& out.election_started == s.election_started
    &&& out.lock_granted == s.lock_granted
    &&& out.ledger_adopted == s.ledger_adopted
}

/// The node's own datagram address.
pub open spec fn spec_own_address(n: NodeModel) -> Seq<char> {
    spec_local_address(spec_dec(n.port as nat))
}

/// Whether this node is the coordinator the mutex client points at.
pub open spec fn spec_is_coordinator_self(n: NodeModel) -> bool {
    n.mutex.coordinator_addr == spec_own_address(n)
}

/// The state of a freshly started node: it considers itself leader and
/// coordinator until an election or an announcement says otherwise.
pub open spec fn spec_node_init(port: usize, neighbors: Seq<Seq<char>>) -> NodeModel {
    NodeModel {
        port,
        neighbors,
        leader_port: Some(port),
        ledger: Seq::empty(),
        got_ok: false,
        in_election: false,
        sync_done: false,
        mutex: DistMutexModel {
            coordinator_addr: spec_local_address(spec_dec(port as nat)),
            got_acquire_confirmation: false,
        },
        coordinator: spec_coordinator_init(),
    }
}

/// The same payload to every neighbor.
pub open spec fn spec_broadcast(neighbors: Seq<Seq<char>>, payload: Seq<char>) -> Seq<
    OutboundModel,
> {
    neighbors.map_values(|nb: Seq<char>| OutboundModel { dest: nb, payload })
}

/// `ELECTION` to every neighbor with a higher id; neighbors whose address
/// carries no port are passed over.
pub open spec fn spec_election_sends(neighbors: Seq<Seq<char>>, port: usize) -> Seq<OutboundModel>
    decreases neighbors.len(),
{
    if neighbors.len() == 0 {
        Seq::empty()
    } else {
        spec_election_sends(neighbors.drop_last(), port) + (match spec_get_port(
            neighbors.last(),
        ) {
            Some(p) => {
                if p > port {
                    seq![
                        OutboundModel {
                            dest: neighbors.last(),
                            payload: spec_election_wire(ElectionMessage::Election),
                        },
                    ]
                } else {
                    Seq::empty()
                }
            },
            None => Seq::empty(),
        })
    }
}

/// Start an election, unless one is already running: clear `got_ok`, raise
/// `in_election`, and challenge every higher-numbered neighbor.
pub open spec fn spec_begin_election(n: NodeModel) -> StepModel {
    if n.in_election {
        spec_step(n, Seq::empty())
    } else {
        StepModel {
            node: NodeModel { got_ok: false, in_election: true, ..n },
            messages: spec_election_sends(n.neighbors, n.port),
            election_started: true,
            lock_granted: false,
            ledger_adopted: false,
        }
    }
}

/// Become leader: point leader id and coordinator address at self and
/// announce `COORDINATOR` to every neighbor.
pub open spec fn spec_make_leader(n: NodeModel) -> StepModel {
    spec_step(
        NodeModel {
            leader_port: Some(n.port),
            mutex: DistMutexModel { coordinator_addr: spec_own_address(n), ..n.mutex },
            ..n
        },
        spec_broadcast(n.neighbors, spec_election_wire(ElectionMessage::Coordinator)),
    )
}

/// The election timer fired: with no `OK_ELECTION` heard, silence from all
/// higher-numbered peers makes this node the leader; otherwise the node
/// keeps waiting for the `COORDINATOR` announcement.
pub open spec fn spec_election_timeout(n: NodeModel) -> StepModel {
    if n.in_election && !n.got_ok {
        let m = spec_make_leader(n);
        spec_step(NodeModel { in_election: false, ..m.node }, m.messages)
    } else {
        spec_step(n, Seq::empty())
    }
}

/// React to one election message, per the bully rules: answer a challenge
/// from a lower id with `OK_ELECTION` and join the election; adopt an
/// announced coordinator unconditionally; record a received `OK_ELECTION`.
/// A sender address without a port is ignored.
pub open spec fn spec_process_election(
    n: NodeModel,
    m: ElectionMessage,
    sender: Seq<char>,
) -> StepModel {
    match m {
        ElectionMessage::Election => match spec_get_port(sender) {
            Some(p) => {
                if p < n.port {
                    let b = spec_begin_election(n);
                    StepModel {
                        node: b.node,
                        messages: seq![
                            OutboundModel {
                                dest: sender,
                                payload: spec_election_wire(ElectionMessage::OkElection),
                            },
                        ] + b.messages,
                        election_started: b.election_started,
                        lock_granted: false,
                        ledger_adopted: false,
                    }
                } else {
                    spec_step(n, Seq::empty())
                }
            },
            None => spec_step(n, Seq::empty()),
        },
        ElectionMessage::Coordinator => match spec_get_port(sender) {
            Some(p) => spec_step(
                NodeModel {
                    leader_port: Some(p),
                    in_election: false,
                    mutex: DistMutexModel { coordinator_addr: sender, ..n.mutex },
                    ..n
                },
                Seq::empty(),
            ),
            None => spec_step(n, Seq::empty()),
        },
        ElectionMessage::OkElection => spec_step(
            NodeModel { got_ok: true, ..n },
            Seq::empty(),
        ),
    }
}

impl BlockchainNode {
    /// A fresh node with the given id and peer set.
    pub fn new(port: usize, neighbor_addresses: Vec<String>) -> (r: BlockchainNode)
        ensures
            r@ == spec_node_init(port, views_of(neighbor_addresses@)),
    {
        let port_text = u64_to_string(port as u64);
        let self_addr = local_address_with_port(port_text.as_str());
        let r = BlockchainNode {
            port,
            neighbor_addresses,
            leader_port: Some(port),
            blockchain: Blockchain::new(),
            got_ok: false,
            is_in_election: false,
            synchronization_done: false,
            dist_mutex: DistMutex::new(self_addr),
            coordinator_state: CoordinatorState::new(),
        };
        proof {
            assert(r@ =~= spec_node_init(port, views_of(r.neighbor_addresses@)));
        }
        r
    }

    /// Declare this node coordinator by operator command.
    pub fn make_coordinator(&mut self)
        ensures
            final(self)@ == (NodeModel { leader_port: Some(old(self)@.port), ..old(self)@ }),
    {
        let ghost before = self@;
        self.leader_port = Some(self.port);
        proof {
            assert(self@ =~= (NodeModel { leader_port: Some(before.port), ..before }));
        }
    }

    /// The same payload to every neighbor.
    fn broadcast_to_neighbors(&self, payload: &String) -> (out: Vec<OutboundMessage>)
        ensures
            outbound_views(out@) == spec_broadcast(self@.neighbors, payload@),
    {
        let mut out: Vec<OutboundMessage> = Vec::new();
        let n = self.neighbor_addresses.len();
        proof {
            assert(outbound_views(out@) =~= spec_broadcast(
                self@.neighbors.subrange(0, 0),
                payload@,
            ));
        }
        let mut i: usize = 0;
        while i < n
            invariant
                0 <= i <= n,
                n == self.neighbor_addresses.len(),
                outbound_views(out@) == spec_broadcast(
                    self@.neighbors.subrange(0, i as int),
                    payload@,
                ),
            decreases n - i,
        {
            let m = OutboundMessage {
                dest: self.neighbor_addresses[i].clone(),
                payload: payload.clone(),
            };
            proof {
                assert(self@.neighbors[i as int] == self.neighbor_addresses@[i as int]@);
                assert(outbound_views(out@.push(m)) =~= outbound_views(out@).push(m@));
                assert(spec_broadcast(self@.neighbors.subrange(0, i as int + 1), payload@)
                    =~= spec_broadcast(self@.neighbors.subrange(0, i as int), payload@).push(
                    OutboundModel { dest: self@.neighbors[i as int], payload: payload@ },
                ));
            }
            out.push(m);
            i = i + 1;
        }
        proof {
            assert(self@.neighbors.subrange(0, n as int) =~= self@.neighbors);
        }
        out
    }

    /// Start the bully election, unless one is already running.  When the
    /// returned flag is set, the shell must wait for `got_ok` up to the
    /// election timeout and then call [`Self::election_timeout`].
    pub fn begin_election(&mut self) -> (r: StepOutput)
        ensures
            output_matches(spec_begin_election(old(self)@), final(self)@, r),
    {
        let ghost pre = self@;
        if self.is_in_election {
            let r = StepOutput {
                messages: Vec::new(),
                election_started: false,
                lock_granted: false,
                ledger_adopted: false,
            };
            proof {
                assert(outbound_views(r.messages@) =~= Seq::<OutboundModel>::empty());
            }
            return r;
        }
        self.got_ok = false;
        self.is_in_election = true;
        proof {
            assert(self@ =~= (NodeModel { got_ok: false, in_election: true, ..pre }));
        }
        let mut out: Vec<OutboundMessage> = Vec::new();
        let n = self.neighbor_addresses.len();
        proof {
            assert(outbound_views(out@) =~= spec_election_sends(
                pre.neighbors.subrange(0, 0),
                pre.port,
            ));
        }
        let mut i: usize = 0;
        while i < n
            invariant
                0 <= i <= n,
                n == self.neighbor_addresses.len(),
                self@ == (NodeModel { got_ok: false, in_election: true, ..pre }),
                pre.neighbors == views_of(self.neighbor_addresses@),
                pre.port == self.port,
                outbound_views(out@) == spec_election_sends(
                    pre.neighbors.subrange(0, i as int),
                    pre.port,
                ),
            decreases n - i,
        {
            let ghost prefix = pre.neighbors.subrange(0, i as int);
            let ghost next_prefix = pre.neighbors.subrange(0, i as int + 1);
            proof {
                assert(next_prefix.drop_last() =~= prefix);
                assert(next_prefix.last() == pre.neighbors[i as int]);
                assert(pre.neighbors[i as int] == self.neighbor_addresses@[i as int]@);
            }
            match get_port_from_dir(self.neighbor_addresses[i].as_str()) {
                Some(p) => {
                    if p > self.port {
                        let m = OutboundMessage {
                            dest: self.neighbor_addresses[i].clone(),
                            payload: "E".to_owned(),
                        };
                        proof {
                            assert(outbound_views(out@.push(m)) =~= outbound_views(out@).push(
                                m@,
                            ));
                            assert(spec_election_sends(next_prefix, pre.port)
                                =~= spec_election_sends(prefix, pre.port).push(
                                OutboundModel {
                                    dest: pre.neighbors[i as int],
                                    payload: spec_election_wire(ElectionMessage::Election),
                                },
                            ));
                        }
                        out.push(m);
                    } else {
                        proof {
                            assert(spec_election_sends(next_prefix, pre.port)
                                =~= spec_election_sends(prefix, pre.port));
                        }
                    }
                },
                None => {
                    proof {
                        assert(spec_election_sends(next_prefix, pre.port)
                            =~= spec_election_sends(prefix, pre.port));
                    }
                },
            }
            i = i + 1;
        }
        proof {
            assert(pre.neighbors.subrange(0, n as int) =~= pre.neighbors);
        }
        StepOutput {
            messages: out,
            election_started: true,
            lock_granted: false,
            ledger_adopted: false,
        }
    }

    /// Become leader and announce it; called by the shell when the election
    /// wait ended without an `OK_ELECTION`.
    fn make_leader(&mut self) -> (out: Vec<OutboundMessage>)
        ensures
            final(self)@ == spec_make_leader(old(self)@).node,
            outbound_views(out@) == spec_make_leader(old(self)@).messages,
    {
        let ghost pre = self@;
        self.leader_port = Some(self.port);
        let port_text = u64_to_string(self.port as u64);
        self.dist_mutex.coordinator_addr = local_address_with_port(port_text.as_str());
        proof {
            assert(self@ =~= spec_make_leader(pre).node);
        }
        let payload = "C".to_owned();
        let out = self.broadcast_to_neighbors(&payload);
        out
    }

    /// The election timer fired: silence from every higher-numbered peer
    /// makes this node the leader; a heard `OK_ELECTION` leaves the decision
    /// to the eventual `COORDINATOR` announcement.
    pub fn election_timeout(&mut self) -> (r: StepOutput)
        ensures
            output_matches(spec_election_timeout(old(self)@), final(self)@, r),
    {
        let ghost pre = self@;
        if self.is_in_election && !self.got_ok {
            let out = self.make_leader();
            self.is_in_election = false;
            proof {
                assert(self@ =~= spec_election_timeout(pre).node);
            }
            StepOutput {
                messages: out,
                election_started: false,
                lock_granted: false,
                ledger_adopted: false,
            }
        } else {
            let r = StepOutput {
                messages: Vec::new(),
                election_started: false,
                lock_granted: false,
                ledger_adopted: false,
            };
            proof {
                assert(outbound_views(r.messages@) =~= Seq::<OutboundModel>::empty());
            }
            r
        }
    }

    /// React to one election message, per the bully rules.
    pub fn process_election_message(&mut self, election_message: ElectionMessage, sender: &str)
        -> (r: StepOutput)
        ensures
            output_matches(
                spec_process_election(old(self)@, election_message, sender@),
                final(self)@,
                r,
            ),
    {
        let ghost pre = self@;
        match election_message {
            ElectionMessage::Election => {
                match get_port_from_dir(sender) {
                    Some(p) => {
                        if p < self.port {
                            let mut out: Vec<OutboundMessage> = Vec::new();
                            out.push(
                                OutboundMessage {
                                    dest: sender.to_owned(),
                                    payload: "O".to_owned(),
                                },
                            );
                            let b = self.begin_election();
                            let mut more = b.messages;
                            let ghost first = out@;
                            let ghost more_view = more@;
                            out.append(&mut more);
                            proof {
                                assert(outbound_views(first) =~= seq![
                                    OutboundModel {
                                        dest: sender@,
                                        payload: spec_election_wire(
                                            ElectionMessage::OkElection,
                                        ),
                                    },
                                ]);
                                assert(outbound_views(out@) =~= outbound_views(first)
                                    + outbound_views(more_view));
                            }
                            StepOutput {
                                messages: out,
                                election_started: b.election_started,
                                lock_granted: false,
                                ledger_adopted: false,
                            }
                        } else {
                            let r = StepOutput {
                                messages: Vec::new(),
                                election_started: false,
                                lock_granted: false,
                                ledger_adopted: false,
                            };
                            proof {
                                assert(outbound_views(r.messages@) =~= Seq::<
                                    OutboundModel,
                                >::empty());
                            }
                            r
                        }
                    },
                    None => {
                        let r = StepOutput {
                            messages: Vec::new(),
                            election_started: false,
                            lock_granted: false,
                            ledger_adopted: false,
                        };
                        proof {
                            assert(outbound_views(r.messages@) =~= Seq::<
                                OutboundModel,
                            >::empty());
                        }
                        r
                    },
                }
            },
            ElectionMessage::Coordinator => {
                match get_port_from_dir(sender) {
                    Some(p) => {
                        self.leader_port = Some(p);
                        self.is_in_election = false;
                        self.dist_mutex.coordinator_addr = sender.to_owned();
                        proof {
                            assert(self@ =~= spec_process_election(
                                pre,
                                election_message,
                                sender@,
                            ).node);
                        }
                    },
                    None => {},
                }
                let r = StepOutput {
                    messages: Vec::new(),
                    election_started: false,
                    lock_granted: false,
                    ledger_adopted: false,
                };
                proof {
                    assert(outbound_views(r.messages@) =~= Seq::<OutboundModel>::empty());
                }
                r
            },
            ElectionMessage::OkElection => {
                self.got_ok = true;
                proof {
                    assert(self@ =~= (NodeModel { got_ok: true, ..pre }));
                }
                let r = StepOutput {
                    messages: Vec::new(),
                    election_started: false,
                    lock_granted: false,
                    ledger_adopted: false,
                };
                proof {
                    assert(outbound_views(r.messages@) =~= Seq::<OutboundModel>::empty());
                }
                r
            },
        }
    }
}

/// Grant the lock to the head of the waiting queue, if anyone waits; the
/// free-then-drain step of the mutex server.
pub open spec fn spec_drain(n: NodeModel) -> StepModel {
    if n.coordinator.waiting_nodes_queue.len() > 0 {
        let head = n.coordinator.waiting_nodes_queue[0];
        StepModel {
            node: NodeModel {
                coordinator: CoordinatorModel {
                    lock_taken: true,
                    lock_owner_addr: head,
                    waiting_nodes_queue: n.coordinator.waiting_nodes_queue.drop_first(),
                    ..n.coordinator
                },
                ..n
            },
            messages: seq![
                OutboundModel {
                    dest: head,
                    payload: spec_acquire_wire(AcquireMessage::OkAcquire),
                },
            ],
            election_started: false,
            lock_granted: true,
            ledger_adopted: false,
        }
    } else {
        spec_step(n, Seq::empty())
    }
}

/// A lock request arrived: on the coordinator, grant it at once when the
/// lock is free, else queue the requester; any other node ignores it.
pub open spec fn spec_process_acquire(n: NodeModel, sender: Seq<char>) -> StepModel {
    if spec_is_coordinator_self(n) {
        if n.coordinator.lock_taken {
            spec_step(
                NodeModel {
                    coordinator: CoordinatorModel {
                        waiting_nodes_queue: n.coordinator.waiting_nodes_queue.push(sender),
                        ..n.coordinator
                    },
                    ..n
                },
                Seq::empty(),
            )
        } else {
            StepModel {
                node: NodeModel {
                    coordinator: CoordinatorModel {
                        lock_taken: true,
                        lock_owner_addr: sender,
                        ..n.coordinator
                    },
                    ..n
                },
                messages: seq![
                    OutboundModel {
                        dest: sender,
                        payload: spec_acquire_wire(AcquireMessage::OkAcquire),
                    },
                ],
                election_started: false,
                lock_granted: true,
                ledger_adopted: false,
            }
        }
    } else {
        spec_step(n, Seq::empty())
    }
}

/// A release arrived: on the coordinator holding the lock, free it, note
/// that the release came, and pass the lock to the next waiter; any other
/// node, or a release while free, is ignored.
pub open spec fn spec_process_release(n: NodeModel) -> StepModel {
    if spec_is_coordinator_self(n) && n.coordinator.lock_taken {
        spec_drain(
            NodeModel {
                coordinator: CoordinatorModel {
                    lock_taken: false,
                    lock_owner_addr: Seq::empty(),
                    got_release_confirmation: true,
                    ..n.coordinator
                },
                ..n
            },
        )
    } else {
        spec_step(n, Seq::empty())
    }
}

/// The release timer fired: when the release already came this only clears
/// the note; otherwise the holder is deemed crashed, the lock is reclaimed
/// and passed to the next waiter.
pub open spec fn spec_release_timeout(n: NodeModel) -> StepModel {
    if n.coordinator.got_release_confirmation {
        spec_step(
            NodeModel {
                coordinator: CoordinatorModel {
                    got_release_confirmation: false,
                    ..n.coordinator
                },
                ..n
            },
            Seq::empty(),
        )
    } else if spec_is_coordinator_self(n) && n.coordinator.lock_taken {
        spec_drain(
            NodeModel {
                coordinator: CoordinatorModel {
                    lock_taken: false,
                    lock_owner_addr: Seq::empty(),
                    ..n.coordinator
                },
                ..n
            },
        )
    } else {
        spec_step(n, Seq::empty())
    }
}

/// The grant for our own lock request arrived.
pub open spec fn spec_process_ok_acquire(n: NodeModel) -> StepModel {
    spec_step(
        NodeModel {
            mutex: DistMutexModel { got_acquire_confirmation: true, ..n.mutex },
            ..n
        },
        Seq::empty(),
    )
}

/// A replication message arrived.  A replica broadcast is appended
/// verbatim.  A forwarded write is appended with a freshly computed chain
/// hash and broadcast to every neighbor; this node acts as the coordinator
/// for it, exactly as it was addressed.
pub open spec fn spec_process_add_grade(n: NodeModel, m: AddGradeModel) -> StepModel {
    match m {
        AddGradeModel::FromCoordinator(r) => spec_step(
            NodeModel { ledger: n.ledger.push(r), ..n },
            Seq::empty(),
        ),
        AddGradeModel::ToCoordinator(name, grade) => {
            let rec = RecordModel {
                name: name,
                grade: grade,
                hash: spec_generate_hash(name, grade, spec_chain_prev(n.ledger)),
            };
            spec_step(
                NodeModel { ledger: n.ledger.push(rec), ..n },
                spec_broadcast(
                    n.neighbors,
                    spec_add_grade_text(AddGradeModel::FromCoordinator(rec)),
                ),
            )
        },
    }
}

/// A cold-starting peer asked for the ledger: answer with ours.
pub open spec fn spec_process_ask_for_blockchain(n: NodeModel, sender: Seq<char>) -> StepModel {
    spec_step(
        n,
        seq![
            OutboundModel {
                dest: sender,
                payload: spec_blockchain_msg_text(
                    BlockchainMessageModel::BlockchainResult(n.ledger),
                ),
            },
        ],
    )
}

/// A ledger arrived during cold start: the first reply wins and ends the
/// synchronization wait; later replies are ignored.
pub open spec fn spec_process_blockchain_result(n: NodeModel, rs: Seq<RecordModel>) -> StepModel {
    if n.sync_done {
        spec_step(n, Seq::empty())
    } else {
        StepModel {
            node: NodeModel { ledger: rs, sync_done: true, ..n },
            messages: Seq::empty(),
            election_started: false,
            lock_granted: false,
            ledger_adopted: true,
        }
    }
}

/// Decode one received message and take its transition.  Decoding tries the
/// election codes, then the mutual-exclusion codes, then the replication
/// messages, then the synchronization messages; text that is none of them
/// denotes nothing, a fatal protocol error for the shell to act on.
pub open spec fn spec_handle_message(n: NodeModel, s: Seq<char>, sender: Seq<char>) -> Option<
    StepModel,
> {
    if spec_election_from_text(s) is Some {
        Some(spec_process_election(n, spec_election_from_text(s)->Some_0, sender))
    } else if spec_acquire_from_text(s) is Some {
        match spec_acquire_from_text(s)->Some_0 {
            AcquireMessage::Acquire => Some(spec_process_acquire(n, sender)),
            AcquireMessage::OkAcquire => Some(spec_process_ok_acquire(n)),
            AcquireMessage::Release => Some(spec_process_release(n)),
        }
    } else if spec_add_grade_from_text(s) is Some {
        Some(spec_process_add_grade(n, spec_add_grade_from_text(s)->Some_0))
    } else if spec_blockchain_msg_from_text(s) is Some {
        match spec_blockchain_msg_from_text(s)->Some_0 {
            BlockchainMessageModel::AskForBlockchain => Some(
                spec_process_ask_for_blockchain(n, sender),
            ),
            BlockchainMessageModel::BlockchainResult(rs) => Some(
                spec_process_blockchain_result(n, rs),
            ),
        }
    } else {
        None
    }
}

impl BlockchainNode {
    /// An empty transition output.
    fn no_output() -> (r: StepOutput)
        ensures
            outbound_views(r.messages@) == Seq::<OutboundModel>::empty(),
            !r.election_started,
            !r.lock_granted,
            !r.ledger_adopted,
    {
        let r = StepOutput {
            messages: Vec::new(),
            election_started: false,
            lock_granted: false,
            ledger_adopted: false,
        };
        proof {
            assert(outbound_views(r.messages@) =~= Seq::<OutboundModel>::empty());
        }
        r
    }

    /// This node's own datagram address.
    fn own_address(&self) -> (r: String)
        ensures
            r@ == spec_own_address(self@),
    {
        let port_text = u64_to_string(self.port as u64);
        local_address_with_port(port_text.as_str())
    }

    /// Grant the lock to the head of the waiting queue, if anyone waits.
    fn drain_waiting_queue(&mut self) -> (r: StepOutput)
        ensures
            output_matches(spec_drain(old(self)@), final(self)@, r),
    {
        let ghost pre = self@;
        match self.coordinator_state.deque_requestor() {
            Some(head) => {
                self.coordinator_state.set_taken(true);
                self.coordinator_state.set_lock_owner_addr(head.clone());
                let mut out: Vec<OutboundMessage> = Vec::new();
                let m = OutboundMessage { dest: head, payload: "OKACQ".to_owned() };
                proof {
                    assert(self@ =~= spec_drain(pre).node);
                    assert(outbound_views(out@.push(m)) =~= outbound_views(out@).push(m@));
                    assert(outbound_views(out@) =~= Seq::<OutboundModel>::empty());
                    assert(Seq::<OutboundModel>::empty().push(m@) =~= spec_drain(pre).messages);
                }
                out.push(m);
                StepOutput {
                    messages: out,
                    election_started: false,
                    lock_granted: true,
                    ledger_adopted: false,
                }
            },
            None => Self::no_output(),
        }
    }

    /// A lock request arrived from `sender`.
    pub fn process_acquire_message(&mut self, sender: &str) -> (r: StepOutput)
        ensures
            output_matches(spec_process_acquire(old(self)@, sender@), final(self)@, r),
    {
        let ghost pre = self@;
        let own = self.own_address();
        let is_coordinator = self.dist_mutex.is_coordinator(own);
        if is_coordinator {
            if self.coordinator_state.is_taken() {
                self.coordinator_state.enqueue_requestor(sender.to_owned());
                proof {
                    assert(self@ =~= spec_process_acquire(pre, sender@).node);
                }
                Self::no_output()
            } else {
                self.coordinator_state.set_taken(true);
                self.coordinator_state.set_lock_owner_addr(sender.to_owned());
                let mut out: Vec<OutboundMessage> = Vec::new();
                let m = OutboundMessage { dest: sender.to_owned(), payload: "OKACQ".to_owned() };
                proof {
                    assert(self@ =~= spec_process_acquire(pre, sender@).node);
                    assert(outbound_views(out@.push(m)) =~= outbound_views(out@).push(m@));
                    assert(outbound_views(out@) =~= Seq::<OutboundModel>::empty());
                    assert(Seq::<OutboundModel>::empty().push(m@) =~= spec_process_acquire(
                        pre,
                        sender@,
                    ).messages);
                }
                out.push(m);
                StepOutput {
                    messages: out,
                    election_started: false,
                    lock_granted: true,
                    ledger_adopted: false,
                }
            }
        } else {
            Self::no_output()
        }
    }

    /// The grant for our own lock request arrived.
    pub fn process_ok_acquire_message(&mut self) -> (r: StepOutput)
        ensures
            output_matches(spec_process_ok_acquire(old(self)@), final(self)@, r),
    {
        let ghost pre = self@;
        self.dist_mutex.got_acquire_confirmation = true;
        proof {
            assert(self@ =~= spec_process_ok_acquire(pre).node);
        }
        Self::no_output()
    }

    /// A release arrived for the lock we serve.
    pub fn process_release_message(&mut self) -> (r: StepOutput)
        ensures
            output_matches(spec_process_release(old(self)@), final(self)@, r),
    {
        let ghost pre = self@;
        let own = self.own_address();
        let is_coordinator = self.dist_mutex.is_coordinator(own);
        if is_coordinator && self.coordinator_state.is_taken() {
            self.coordinator_state.set_taken(false);
            self.coordinator_state.set_lock_owner_addr(String::new());
            self.coordinator_state.got_release_confirmation = true;
            proof {
                assert(self@ =~= (NodeModel {
                    coordinator: CoordinatorModel {
                        lock_taken: false,
                        lock_owner_addr: Seq::empty(),
                        got_release_confirmation: true,
                        ..pre.coordinator
                    },
                    ..pre
                }));
            }
            self.drain_waiting_queue()
        } else {
            Self::no_output()
        }
    }

    /// The release timer fired for the last grant.
    pub fn release_timeout(&mut self) -> (r: StepOutput)
        ensures
            output_matches(spec_release_timeout(old(self)@), final(self)@, r),
    {
        let ghost pre = self@;
        if self.coordinator_state.got_release_confirmation {
            self.coordinator_state.got_release_confirmation = false;
            proof {
                assert(self@ =~= spec_release_timeout(pre).node);
            }
            Self::no_output()
        } else {
            let own = self.own_address();
            let is_coordinator = self.dist_mutex.is_coordinator(own);
            if is_coordinator && self.coordinator_state.is_taken() {
                self.coordinator_state.set_taken(false);
                self.coordinator_state.set_lock_owner_addr(String::new());
                proof {
                    assert(self@ =~= (NodeModel {
                        coordinator: CoordinatorModel {
                            lock_taken: false,
                            lock_owner_addr: Seq::empty(),
                            ..pre.coordinator
                        },
                        ..pre
                    }));
                }
                self.drain_waiting_queue()
            } else {
                Self::no_output()
            }
        }
    }

    /// A replication message arrived.
    pub fn process_add_grade_message(&mut self, add_grade_message: AddGradeMessage) -> (r:
        StepOutput)
        ensures
            output_matches(
                spec_process_add_grade(old(self)@, add_grade_message@),
                final(self)@,
                r,
            ),
    {
        let ghost pre = self@;
        match add_grade_message {
            AddGradeMessage::FromCoordinator(record) => {
                self.blockchain.add_record(record);
                proof {
                    assert(self@ =~= spec_process_add_grade(
                        pre,
                        AddGradeModel::FromCoordinator(record@),
                    ).node);
                }
                Self::no_output()
            },
            AddGradeMessage::ToCoordinator(student_name, grade) => {
                let previous_record_hash: u64 = match self.blockchain.last_record() {
                    Some(last) => last.hash,
                    None => 0,
                };
                let hash = generate_hash(&student_name, &grade, previous_record_hash);
                let rec = BlockchainRecord { student_name, grade, hash };
                let text = AddGradeMessage::FromCoordinator(rec.clone()).as_string();
                self.blockchain.add_record(rec);
                let out = self.broadcast_to_neighbors(&text);
                proof {
                    assert(self@ =~= spec_process_add_grade(
                        pre,
                        add_grade_message@,
                    ).node);
                    assert(outbound_views(out@) =~= spec_process_add_grade(
                        pre,
                        add_grade_message@,
                    ).messages);
                }
                StepOutput {
                    messages: out,
                    election_started: false,
                    lock_granted: false,
                    ledger_adopted: false,
                }
            },
        }
    }

    /// A cold-starting peer asked for the ledger.
    pub fn process_ask_for_blockchain_message(&self, sender: &str) -> (r: StepOutput)
        ensures
            output_matches(
                spec_process_ask_for_blockchain(self@, sender@),
                self@,
                r,
            ),
    {
        let text = BlockchainMessage::BlockchainResult(self.blockchain.clone()).as_string();
        let mut out: Vec<OutboundMessage> = Vec::new();
        let m = OutboundMessage { dest: sender.to_owned(), payload: text };
        proof {
            assert(outbound_views(out@.push(m)) =~= outbound_views(out@).push(m@));
            assert(outbound_views(out@) =~= Seq::<OutboundModel>::empty());
            assert(Seq::<OutboundModel>::empty().push(m@) =~= spec_process_ask_for_blockchain(
                self@,
                sender@,
            ).messages);
        }
        out.push(m);
        StepOutput {
            messages: out,
            election_started: false,
            lock_granted: false,
            ledger_adopted: false,
        }
    }

    /// A ledger arrived during cold start.
    pub fn process_blockchain_result_message(&mut self, blockchain: Blockchain) -> (r: StepOutput)
        ensures
            output_matches(
                spec_process_blockchain_result(old(self)@, blockchain@),
                final(self)@,
                r,
            ),
    {
        let ghost pre = self@;
        if self.synchronization_done {
            Self::no_output()
        } else {
            self.blockchain = blockchain;
            self.synchronization_done = true;
            proof {
                assert(self@ =~= spec_process_blockchain_result(pre, blockchain@).node);
            }
            let r = StepOutput {
                messages: Vec::new(),
                election_started: false,
                lock_granted: false,
                ledger_adopted: true,
            };
            proof {
                assert(outbound_views(r.messages@) =~= Seq::<OutboundModel>::empty());
            }
            r
        }
    }

    /// Decode one received message and take its transition; `None` means
    /// the text is no message of this protocol, which the shell treats as
    /// fatal.
    pub fn handle_incoming_message(&mut self, message: &str, sender: &str) -> (r: Option<
        StepOutput,
    >)
        ensures
            match spec_handle_message(old(self)@, message@, sender@) {
                Some(s) => r matches Some(out) && output_matches(s, final(self)@, out),
                None => r is None && final(self)@ == old(self)@,
            },
    {
        if let Some(election_message) = ElectionMessage::from_text(message) {
            return Some(self.process_election_message(election_message, sender));
        }
        if let Some(acquire_message) = AcquireMessage::from_text(message) {
            return match acquire_message {
                AcquireMessage::Acquire => Some(self.process_acquire_message(sender)),
                AcquireMessage::OkAcquire => Some(self.process_ok_acquire_message()),
                AcquireMessage::Release => Some(self.process_release_message()),
            };
        }
        if let Some(add_grade_message) = AddGradeMessage::from_string(message.to_owned()) {
            return Some(self.process_add_grade_message(add_grade_message));
        }
        if let Some(blockchain_message) = BlockchainMessage::from_string(message.to_owned()) {
            return match blockchain_message {
                BlockchainMessage::AskForBlockchain => Some(
                    self.process_ask_for_blockchain_message(sender),
                ),
                BlockchainMessage::BlockchainResult(blockchain) => Some(
                    self.process_blockchain_result_message(blockchain),
                ),
            };
        }
        None
    }

    /// The forwarded write to send to the coordinator once the lock is held.
    pub fn add_grade_request(&self, student_name: &String, grade: &String) -> (m: OutboundMessage)
        ensures
            m@.dest == self@.mutex.coordinator_addr,
            m@.payload == spec_add_grade_text(
                AddGradeModel::ToCoordinator(student_name@, grade@),
            ),
    {
        let text = AddGradeMessage::ToCoordinator(
            student_name.clone(),
            grade.clone(),
        ).as_string();
        OutboundMessage { dest: self.dist_mutex.coordinator_addr.clone(), payload: text }
    }

    /// The release to send after a forwarded write; a node that is not the
    /// leader also clears its stale server-side lock flag.
    pub fn add_grade_finish(&mut self) -> (m: OutboundMessage)
        ensures
            m@.dest == old(self)@.mutex.coordinator_addr,
            m@.payload == spec_acquire_wire(AcquireMessage::Release),
            final(self)@ == (if old(self)@.leader_port == Some(old(self)@.port) {
                old(self)@
            } else {
                NodeModel {
                    coordinator: CoordinatorModel {
                        lock_taken: false,
                        ..old(self)@.coordinator
                    },
                    ..old(self)@
                }
            }),
    {
        let ghost pre = self@;
        let m = self.dist_mutex.release();
        let is_leader = match self.leader_port {
            Some(leader_port) => leader_port == self.port,
            None => false,
        };
        if !is_leader {
            self.coordinator_state.set_taken(false);
            proof {
                assert(self@ =~= (NodeModel {
                    coordinator: CoordinatorModel { lock_taken: false, ..pre.coordinator },
                    ..pre
                }));
            }
        } else {
            proof {
                assert(self@ =~= pre);
            }
        }
        m
    }

    /// A ping for one neighbor; pings carry no newline, so peers never
    /// deliver them as messages.
    pub fn ping_neighbor(&self, dest_addr: String) -> (m: OutboundMessage)
        ensures
            m@.dest == dest_addr@,
            m@.payload == "PING"@,
    {
        OutboundMessage { dest: dest_addr, payload: "PING".to_owned() }
    }

    /// A ping for every neighbor.
    pub fn ping_neighbors(&self) -> (out: Vec<OutboundMessage>)
        ensures
            outbound_views(out@) == spec_broadcast(self@.neighbors, "PING"@),
    {
        let payload = "PING".to_owned();
        self.broadcast_to_neighbors(&payload)
    }

    /// The cold-start request for every neighbor; the shell then waits for
    /// the synchronization flag up to the sync timeout.
    pub fn ask_for_blockchain(&self) -> (out: Vec<OutboundMessage>)
        ensures
            outbound_views(out@) == spec_broadcast(
                self@.neighbors,
                spec_blockchain_msg_text(BlockchainMessageModel::AskForBlockchain),
            ),
    {
        let payload = BlockchainMessage::AskForBlockchain.as_string();
        self.broadcast_to_neighbors(&payload)
    }
}

/// One event of the mutex server: a lock request from an address, a
/// release, or the release timer firing.
pub enum ServerEvent {
    Acquire(Seq<char>),
    Release,
    ReleaseTimeout,
}

/// The server transition one event causes.
pub open spec fn spec_server_step(n: NodeModel, ev: ServerEvent) -> StepModel {
    match ev {
        ServerEvent::Acquire(sender) => spec_process_acquire(n, sender),
        ServerEvent::Release => spec_process_release(n),
        ServerEvent::ReleaseTimeout => spec_release_timeout(n),
    }
}

/// The state after a whole sequence of server events.
pub open spec fn spec_server_run(n: NodeModel, events: Seq<ServerEvent>) -> NodeModel
    decreases events.len(),
{
    if events.len() == 0 {
        n
    } else {
        spec_server_run(spec_server_step(n, events[0]).node, events.drop_first())
    }
}

/// The addresses granted in one step: the new owner when a grant went out.
pub open spec fn spec_grants_of(st: StepModel) -> Seq<Seq<char>> {
    if st.lock_granted {
        seq![st.node.coordinator.lock_owner_addr]
    } else {
        Seq::empty()
    }
}

/// The addresses granted over a run, in order.
pub open spec fn spec_run_grants(n: NodeModel, events: Seq<ServerEvent>) -> Seq<Seq<char>>
    decreases events.len(),
{
    if events.len() == 0 {
        Seq::empty()
    } else {
        let st = spec_server_step(n, events[0]);
        spec_grants_of(st) + spec_run_grants(st.node, events.drop_first())
    }
}

/// The addresses that requested the lock over a run, in arrival order.
pub open spec fn spec_arrivals(events: Seq<ServerEvent>) -> Seq<Seq<char>>
    decreases events.len(),
{
    if events.len() == 0 {
        Seq::empty()
    } else {
        (match events[0] {
            ServerEvent::Acquire(sender) => seq![sender],
            ServerEvent::Release => Seq::empty(),
            ServerEvent::ReleaseTimeout => Seq::empty(),
        }) + spec_arrivals(events.drop_first())
    }
}

/// The server's standing invariant: a free lock has nobody waiting, since
/// freeing the lock immediately passes it to the head of the queue.
pub open spec fn spec_server_inv(n: NodeModel) -> bool {
    !n.coordinator.lock_taken ==> n.coordinator.waiting_nodes_queue.len() == 0
}

/// One server step keeps the invariant and never touches the node's
/// identity, peers, coordinator address or ledger.
pub proof fn lemma_server_step_frame(n: NodeModel, ev: ServerEvent)
    requires
        spec_server_inv(n),
    ensures
        spec_server_inv(spec_server_step(n, ev).node),
        spec_server_step(n, ev).node.port == n.port,
        spec_server_step(n, ev).node.mutex == n.mutex,
        spec_server_step(n, ev).node.neighbors == n.neighbors,
        spec_server_step(n, ev).node.ledger == n.ledger,
{
}

/// Mutual exclusion, as the server guarantees it: each step issues at most
/// one grant; a grant leaves the lock held by exactly the granted address;
/// and a request that arrives while the lock is held is never answered in
/// that step, only queued.  So between any two grants the lock was freed by
/// a release or a timeout.
pub proof fn law_mutual_exclusion(n: NodeModel, ev: ServerEvent)
    requires
        spec_server_inv(n),
    ensures
        ({
            let st = spec_server_step(n, ev);
            &&& st.messages.len() <= 1
            &&& st.lock_granted <==> st.messages.len() == 1
            &&& st.lock_granted ==> st.node.coordinator.lock_taken && st.messages
                =~= seq![
                OutboundModel {
                    dest: st.node.coordinator.lock_owner_addr,
                    payload: spec_acquire_wire(AcquireMessage::OkAcquire),
                },
            ]
            &&& (ev matches ServerEvent::Acquire(sender) && n.coordinator.lock_taken
                && spec_is_coordinator_self(n)) ==> !st.lock_granted
                && st.node.coordinator.lock_owner_addr == n.coordinator.lock_owner_addr
        }),
{
}

/// No request is lost and none is invented: over any run of the server the
/// granted addresses followed by those still waiting are exactly those that
/// were waiting at the start followed by the arrivals, in order.  First
/// come, first served.
pub proof fn law_requests_conserved(n: NodeModel, events: Seq<ServerEvent>)
    requires
        spec_is_coordinator_self(n),
        spec_server_inv(n),
    ensures
        spec_run_grants(n, events) + spec_server_run(n, events).coordinator.waiting_nodes_queue
            == n.coordinator.waiting_nodes_queue + spec_arrivals(events),
    decreases events.len(),
{
    if events.len() == 0 {
        assert(spec_run_grants(n, events) + n.coordinator.waiting_nodes_queue
            =~= n.coordinator.waiting_nodes_queue + spec_arrivals(events));
    } else {
        let ev = events[0];
        let st = spec_server_step(n, ev);
        let rest = events.drop_first();
        lemma_server_step_frame(n, ev);
        law_requests_conserved(st.node, rest);
        assert(spec_grants_of(st) + st.node.coordinator.waiting_nodes_queue
            =~= n.coordinator.waiting_nodes_queue + (match ev {
            ServerEvent::Acquire(sender) => seq![sender],
            ServerEvent::Release => Seq::<Seq<char>>::empty(),
            ServerEvent::ReleaseTimeout => Seq::<Seq<char>>::empty(),
        }));
        assert(spec_run_grants(n, events) + spec_server_run(
            n,
            events,
        ).coordinator.waiting_nodes_queue =~= spec_grants_of(st) + (spec_run_grants(
            st.node,
            rest,
        ) + spec_server_run(st.node, rest).coordinator.waiting_nodes_queue));
        assert(spec_grants_of(st) + (st.node.coordinator.waiting_nodes_queue + spec_arrivals(
            rest,
        )) =~= (spec_grants_of(st) + st.node.coordinator.waiting_nodes_queue) + spec_arrivals(
            rest,
        ));
        assert((n.coordinator.waiting_nodes_queue + (match ev {
            ServerEvent::Acquire(sender) => seq![sender],
            ServerEvent::Release => Seq::<Seq<char>>::empty(),
            ServerEvent::ReleaseTimeout => Seq::<Seq<char>>::empty(),
        })) + spec_arrivals(rest) =~= n.coordinator.waiting_nodes_queue + spec_arrivals(events));
    }
}

/// On a server that starts with nobody waiting, grants go out in arrival
/// order: the granted addresses are a prefix of the arrivals.
pub proof fn law_grants_in_arrival_order(n: NodeModel, events: Seq<ServerEvent>)
    requires
        spec_is_coordinator_self(n),
        spec_server_inv(n),
        n.coordinator.waiting_nodes_queue.len() == 0,
    ensures
        spec_run_grants(n, events) == spec_arrivals(events).take(
            spec_run_grants(n, events).len() as int,
        ),
{
    law_requests_conserved(n, events);
    let grants = spec_run_grants(n, events);
    let queue = spec_server_run(n, events).coordinator.waiting_nodes_queue;
    let arrivals = spec_arrivals(events);
    assert(grants + queue =~= arrivals);
    assert(grants =~= arrivals.take(grants.len() as int));
}

/// A neighbor list with every port below `port` draws no challenge.
proof fn lemma_no_higher_neighbor_no_sends(neighbors: Seq<Seq<char>>, port: usize)
    requires
        forall|k: int|
            0 <= k < neighbors.len() ==> (spec_get_port(#[trigger] neighbors[k]) matches Some(p)
                ==> p < port),
    ensures
        spec_election_sends(neighbors, port) == Seq::<OutboundModel>::empty(),
    decreases neighbors.len(),
{
    if neighbors.len() > 0 {
        let a = neighbors.drop_last();
        assert(forall|k: int|
            0 <= k < a.len() ==> a[k] == #[trigger] neighbors[k]);
        lemma_no_higher_neighbor_no_sends(a, port);
        assert(neighbors.last() == neighbors[neighbors.len() - 1]);
        assert(spec_election_sends(neighbors, port) =~= Seq::<OutboundModel>::empty());
    }
}

/// Election termination, seen from the highest-numbered node: with every
/// peer's id below its own, beginning an election challenges nobody, and
/// the election timer then makes the node leader and announces it to every
/// peer.  Together with `law_coordinator_announcement_adopted` this is the
/// bully outcome: the highest id wins and all others adopt it.
pub proof fn law_highest_id_elects_itself(n: NodeModel)
    requires
        !n.in_election,
        forall|k: int|
            0 <= k < n.neighbors.len() ==> (spec_get_port(#[trigger] n.neighbors[k]) matches Some(
                p,
            ) ==> p < n.port),
    ensures
        ({
            let b = spec_begin_election(n);
            let t = spec_election_timeout(b.node);
            &&& b.messages == Seq::<OutboundModel>::empty()
            &&& b.node.in_election && !b.node.got_ok
            &&& t.node.leader_port == Some(n.port)
            &&& !t.node.in_election
            &&& t.node.mutex.coordinator_addr == spec_own_address(n)
            &&& t.messages == spec_broadcast(
                n.neighbors,
                spec_election_wire(ElectionMessage::Coordinator),
            )
        }),
{
    lemma_no_higher_neighbor_no_sends(n.neighbors, n.port);
}

/// Any node that hears `COORDINATOR` from a peer adopts that peer as leader
/// and coordinator and leaves the election.
pub proof fn law_coordinator_announcement_adopted(n: NodeModel, sender: Seq<char>)
    requires
        spec_get_port(sender) is Some,
    ensures
        ({
            let s = spec_process_election(n, ElectionMessage::Coordinator, sender);
            &&& s.node.leader_port == Some(spec_get_port(sender)->Some_0)
            &&& !s.node.in_election
            &&& s.node.mutex.coordinator_addr == sender
            &&& s.messages == Seq::<OutboundModel>::empty()
        }),
{
}

/// A challenge from a lower-numbered peer is answered with `OK_ELECTION`,
/// and the challenged node is in an election afterwards: lower ids never
/// win in silence.
pub proof fn law_lower_challenger_is_answered(n: NodeModel, sender: Seq<char>)
    requires
        spec_get_port(sender) matches Some(p) && p < n.port,
    ensures
        ({
            let s = spec_process_election(n, ElectionMessage::Election, sender);
            &&& s.messages.len() >= 1
            &&& s.messages[0] == (OutboundModel {
                dest: sender,
                payload: spec_election_wire(ElectionMessage::OkElection),
            })
            &&& s.node.in_election
        }),
{
}

/// Replication convergence: when the coordinator appends a forwarded write,
/// every broadcast it sends carries the new record, that broadcast decodes
/// back to the record on arrival, and a peer with the same ledger that
/// appends it ends with the identical ledger — same record, same index,
/// same hash.  A valid chain stays valid.
pub proof fn law_replication_convergence(
    leader: NodeModel,
    peer: NodeModel,
    name: Seq<char>,
    grade: Seq<char>,
)
    requires
        leader.ledger == peer.ledger,
        !name.contains(';'),
        !grade.contains(';'),
    ensures
        ({
            let s = spec_process_add_grade(leader, AddGradeModel::ToCoordinator(name, grade));
            let rec = RecordModel {
                name: name,
                grade: grade,
                hash: spec_generate_hash(name, grade, spec_chain_prev(leader.ledger)),
            };
            &&& s.node.ledger == leader.ledger.push(rec)
            &&& s.messages.len() == leader.neighbors.len()
            &&& forall|k: int|
                0 <= k < s.messages.len() ==> (#[trigger] s.messages[k]) == (OutboundModel {
                    dest: leader.neighbors[k],
                    payload: spec_add_grade_text(AddGradeModel::FromCoordinator(rec)),
                })
            &&& spec_add_grade_from_text(spec_add_grade_text(AddGradeModel::FromCoordinator(rec)))
                == Some(AddGradeModel::FromCoordinator(rec))
            &&& spec_process_add_grade(peer, AddGradeModel::FromCoordinator(rec)).node.ledger
                == s.node.ledger
            &&& crate::blockchain::chain_valid(leader.ledger) ==> crate::blockchain::chain_valid(
                s.node.ledger,
            )
        }),
{
    let rec = RecordModel {
        name: name,
        grade: grade,
        hash: spec_generate_hash(name, grade, spec_chain_prev(leader.ledger)),
    };
    crate::add_grade_message::law_replica_message_roundtrip(rec);
    if crate::blockchain::chain_valid(leader.ledger) {
        crate::blockchain::law_append_preserves_chain(leader.ledger, name, grade);
    }
}

/// The winner's announcement names the winner: the address a new leader
/// broadcasts from decodes back to exactly its own id, so every node that
/// adopts the announcement records the winner's id as its leader.
pub proof fn law_announced_address_names_the_winner(winner: NodeModel, other: NodeModel)
    ensures
        spec_get_port(spec_own_address(winner)) == Some(winner.port),
        ({
            let s = spec_process_election(
                other,
                ElectionMessage::Coordinator,
                spec_own_address(winner),
            );
            &&& s.node.leader_port == Some(winner.port)
            &&& s.node.mutex.coordinator_addr == spec_own_address(winner)
            &&& !s.node.in_election
        }),
{
    crate::digits::lemma_dec_canonical(winner.port as nat);
    let t = spec_dec(winner.port as nat);
    assert(!t.contains(':')) by {
        if t.contains(':') {
            let j = choose|j: int| 0 <= j < t.len() && t[j] == ':';
            assert(crate::digits::is_digit_char(t[j]));
        }
    }
    crate::ip_parser::lemma_port_of_local_address(t);
}

/// The bully outcome, composed: a node that outranks all its peers and
/// hears silence becomes leader with its own id, and every node that
/// processes its announcement records that same id as leader — the whole
/// cluster agrees on the highest id.
pub proof fn law_cluster_agrees_on_highest_id(winner: NodeModel, others: Seq<NodeModel>)
    requires
        !winner.in_election,
        forall|k: int|
            0 <= k < winner.neighbors.len() ==> (spec_get_port(
                #[trigger] winner.neighbors[k],
            ) matches Some(p) ==> p < winner.port),
    ensures
        spec_election_timeout(spec_begin_election(winner).node).node.leader_port == Some(
            winner.port,
        ),
        forall|k: int|
            0 <= k < others.len() ==> (#[trigger] spec_process_election(
                others[k],
                ElectionMessage::Coordinator,
                spec_own_address(winner),
            )).node.leader_port == Some(winner.port),
{
    law_highest_id_elects_itself(winner);
    assert forall|k: int|
        0 <= k < others.len() implies (#[trigger] spec_process_election(
        others[k],
        ElectionMessage::Coordinator,
        spec_own_address(winner),
    )).node.leader_port == Some(winner.port) by {
        law_announced_address_names_the_winner(winner, others[k]);
    }
}

} // verus!
