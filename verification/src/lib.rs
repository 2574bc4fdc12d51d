//! Sends transactions to nodes with the libre relay service, fetches and relays those that they
//! hold, and passes transactions around on a gossip topic.
pub mod address;
pub mod blast;
pub mod cli;
pub mod crawl;
pub mod deliver;
pub mod discover;
pub mod fetch_peer;
pub mod gather;
pub mod hexcode;
pub mod mempool;
pub mod node;
pub mod onion;
pub mod relay;
pub mod seqs;
pub mod session;
pub mod shuffle;
pub mod text;
pub mod topic;
pub mod tor;
pub mod tx;
pub mod txid_set;
pub mod ui;
pub mod wire;
