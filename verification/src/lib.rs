//! A small peer-to-peer cluster of nodes that cooperatively maintain an
//! append-only, hash-chained ledger of (student name, grade) records.
//!
//! The crate holds the verified core of a node: the ledger with its chain
//! digest, the wire codecs for the election, mutual-exclusion, replication
//! and synchronization messages, and the three coordination state machines
//! (bully leader election, leader-routed mutual exclusion, ledger
//! replication with cold-start sync) expressed as pure transition functions
//! from state and event to new state and outbound messages.  The process
//! shell around it owns the datagram socket, the threads and the timers and
//! drives these transitions.

pub mod digits;
pub mod text;
pub mod blockchain;
pub mod acquire_message;
pub mod election_message;
pub mod ip_parser;
pub mod add_grade_message;
pub mod blockchain_message;
pub mod outbound;
pub mod coordinator_state;
pub mod dist_mutex;
pub mod blockchain_node;
pub mod framing;
