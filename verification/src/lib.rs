//! Verified core of the Genesis node: the RLP codec; the frames, messages
//! and sockets of the peer-to-peer layer; peers, sessions and the
//! controllers that keep them; the consensus state and the handling of
//! votes; the pool of pending transactions; and the settings, threads and
//! log of the services.

pub mod account_order;
pub mod address;
pub mod base58;
pub mod block;
pub mod byte_buffer;
pub mod consensus;
pub mod consensus_config;
pub mod consensus_session;
pub mod frame;
pub mod hash;
pub mod key;
pub mod log_writer;
pub mod message;
pub mod message_handler;
pub mod node_state;
pub mod p2p_config;
pub mod p2p_controller;
pub mod peer;
pub mod peer_manager;
pub mod peer_socket;
pub mod pool;
pub mod protocol;
pub mod rlp;
pub mod session;
pub mod socket;
pub mod socket_message;
pub mod stun;
pub mod thread;
pub mod time;
pub mod utils;
