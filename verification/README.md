# genesis

The peer-to-peer and consensus core of the Genesis node, written in Verus:
each public function states what it does in `requires` / `ensures`, and
Verus proves the code against it.

- `src/` is the verified library: the RLP codec (`rlp`); the frame format
  (`frame`); socket messages, their headers and the callbacks of their
  events (`message`, `socket_message`, `message_handler`); the buffers of
  peer sockets (`socket`, `peer_socket`); the protocols (`protocol`,
  `consensus`); sessions, peers and the two controllers that keep them
  (`session`, `peer`, `p2p_controller`, `peer_manager`); the consensus
  state and the handling of votes (`node_state`, `consensus_session`); the
  transaction pool (`pool`); settings, thread status and log lines
  (`p2p_config`, `consensus_config`, `thread`, `log_writer`); account
  addresses and their base58 text (`address`, `base58`); and the local
  address read from the text that `ifconfig` prints (`utils`). Calls into
  `rust-crypto`, `ring`, `rust-base58`, `bytebuffer`, `byteorder`,
  `bit-vec`, `chrono` and `regex` stand behind small trusted wrappers
  whose contracts say what those crates do.
- `app/` is the program around it: sockets and the event loops (`mio`),
  configuration files (`config`), JSON (`serde`), port mapping (`igd`),
  threads and log files.
- `tests/` runs the library on concrete values.
