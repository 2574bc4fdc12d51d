//! The command line: what the arguments ask for.
use vstd::prelude::*;

verus! {

/// How many transactions are fetched unless another number is given.
pub const DEFAULT_LIMIT: usize = 20;

/// Seconds between relay cycles unless another number is given.
pub const DEFAULT_INTERVAL_SECS: u64 = 15;

/// The name of a watcher unless another one is given.
pub const DEFAULT_LABEL: &'static str = "gossip-client";

/// A subcommand.
#[derive(Debug)]
pub enum Command {
    /// Run a node on the gossip topic, and publish a transaction first if one is given.
    Topic { tx: Option<String> },
    /// Fetch transactions from peers.
    Fetch { limit: usize },
    /// Fetch and send on transactions, over and over.
    Relay { limit: usize, interval_secs: u64 },
    /// Watch the gossip topic.
    Gossip { label: String, local: bool, remote: bool },
}

/// The arguments.
#[derive(Debug)]
pub struct Args {
    /// The transaction to send, in hexadecimal.
    pub tx: Option<String>,
    /// Whether only onion peers are spoken to.
    pub tor_only: bool,
    pub protocol: Option<String>,
    pub protocol_version: Option<String>,
    pub command: Option<Command>,
}

/// What the arguments ask for.
#[derive(Debug)]
pub enum Job {
    RunTopicNetwork {
        tx: Option<String>,
        tor_only: bool,
        protocol: Option<String>,
        protocol_version: Option<String>,
    },
    FetchTransactions { limit: usize, tor_only: bool, relay: bool },
    RelayTransactions { limit: usize, tor_only: bool, relay: bool, interval_secs: u64 },
    RunGossipClient {
        label: String,
        tor_only: bool,
        local: bool,
        remote: bool,
        protocol: Option<String>,
        protocol_version: Option<String>,
    },
    BlastTransaction { tx_hex: String, tor_only: bool, relay: bool },
}

/// Why the arguments ask for nothing.
#[derive(Clone, Copy, Debug, PartialEq, Eq, Structural)]
pub enum CliError {
    /// There is neither a subcommand nor a transaction.
    MissingTx,
}

/// What a watcher shows: what the flags say, and everything if they say nothing.
pub open spec fn views(local: bool, remote: bool) -> (bool, bool) {
    if !local && !remote {
        (true, true)
    } else {
        (local, remote)
    }
}

/// What a watcher shows.
pub fn gossip_views(local: bool, remote: bool) -> (r: (bool, bool))
    ensures
        r == views(local, remote),
{
    (local || (!local && !remote), remote || (!local && !remote))
}

/// A watcher always shows something, never leaves out what a flag asks for, and shows what no flag
/// asks for only if none is given.
pub proof fn law_watcher_shows_something(local: bool, remote: bool)
    ensures
        views(local, remote).0 || views(local, remote).1,
        local ==> views(local, remote).0,
        remote ==> views(local, remote).1,
        (local || remote) ==> views(local, remote) == (local, remote),
{
}

/// What the arguments ask for.
pub open spec fn job_for(args: Args) -> Result<Job, CliError> {
    match args.command {
        Some(Command::Topic { tx }) => Ok(
            Job::RunTopicNetwork {
                tx,
                tor_only: args.tor_only,
                protocol: args.protocol,
                protocol_version: args.protocol_version,
            },
        ),
        Some(Command::Fetch { limit }) => Ok(
            Job::FetchTransactions { limit, tor_only: args.tor_only, relay: true },
        ),
        Some(Command::Relay { limit, interval_secs }) => Ok(
            Job::RelayTransactions { limit, tor_only: args.tor_only, relay: true, interval_secs },
        ),
        Some(Command::Gossip { label, local, remote }) => Ok(
            Job::RunGossipClient {
                label,
                tor_only: args.tor_only,
                local: views(local, remote).0,
                remote: views(local, remote).1,
                protocol: args.protocol,
                protocol_version: args.protocol_version,
            },
        ),
        None => match args.tx {
            Some(tx_hex) => Ok(
                Job::BlastTransaction { tx_hex, tor_only: args.tor_only, relay: true },
            ),
            None => Err(CliError::MissingTx),
        },
    }
}

/// What the arguments ask for.
pub fn run(args: Args) -> (r: Result<Job, CliError>)
    ensures
        r == job_for(args),
{
    match args.command {
        Some(Command::Topic { tx }) => Ok(
            Job::RunTopicNetwork {
                tx,
                tor_only: args.tor_only,
                protocol: args.protocol,
                protocol_version: args.protocol_version,
            },
        ),
        Some(Command::Fetch { limit }) => Ok(
            Job::FetchTransactions { limit, tor_only: args.tor_only, relay: true },
        ),
        Some(Command::Relay { limit, interval_secs }) => Ok(
            Job::RelayTransactions { limit, tor_only: args.tor_only, relay: true, interval_secs },
        ),
        Some(Command::Gossip { label, local, remote }) => {
            let (local, remote) = gossip_views(local, remote);
            Ok(
                Job::RunGossipClient {
                    label,
                    tor_only: args.tor_only,
                    local,
                    remote,
                    protocol: args.protocol,
                    protocol_version: args.protocol_version,
                },
            )
        },
        None => match args.tx {
            Some(tx_hex) => Ok(
                Job::BlastTransaction { tx_hex, tor_only: args.tor_only, relay: true },
            ),
            None => Err(CliError::MissingTx),
        },
    }
}

/// What each command asks for, told from the arguments: every job is done in the mode that was given,
/// with what was given for it, and with the wish for announcements where peers are spoken to; without a
/// command a transaction is sent, and there has to be one.
pub proof fn law_jobs(args: Args)
    ensures
        match args.command {
            Some(Command::Topic { tx }) => {
                &&& job_for(args) matches Ok(Job::RunTopicNetwork {
                    tx: given,
                    tor_only,
                    protocol,
                    protocol_version,
                })
                &&& given == tx && tor_only == args.tor_only
                &&& protocol == args.protocol && protocol_version == args.protocol_version
            },
            Some(Command::Fetch { limit }) => {
                &&& job_for(args) matches Ok(Job::FetchTransactions { limit: n, tor_only, relay })
                &&& n == limit && tor_only == args.tor_only && relay
            },
            Some(Command::Relay { limit, interval_secs }) => {
                &&& job_for(args) matches Ok(Job::RelayTransactions {
                    limit: n,
                    tor_only,
                    relay,
                    interval_secs: secs,
                })
                &&& n == limit && tor_only == args.tor_only && relay && secs == interval_secs
            },
            Some(Command::Gossip { label, local, remote }) => {
                &&& job_for(args) matches Ok(Job::RunGossipClient {
                    label: name,
                    tor_only,
                    local: l,
                    remote: r,
                    protocol,
                    protocol_version,
                })
                &&& name == label && tor_only == args.tor_only
                &&& l == (local || !remote) && r == (remote || !local)
                &&& protocol == args.protocol && protocol_version == args.protocol_version
            },
            None => match args.tx {
                Some(text) => {
                    &&& job_for(args) matches Ok(Job::BlastTransaction { tx_hex, tor_only, relay })
                    &&& tx_hex == text && tor_only == args.tor_only && relay
                },
                None => job_for(args) == Err::<Job, CliError>(CliError::MissingTx),
            },
        },
        DEFAULT_LIMIT == 20,
        DEFAULT_INTERVAL_SECS == 15,
        DEFAULT_LABEL@ == "gossip-client"@,
{
}

/// What a watcher shows, for any flags: a sort of news is shown if it is asked for or the other is not.
pub proof fn law_views(local: bool, remote: bool)
    ensures
        views(local, remote).0 == (local || !remote),
        views(local, remote).1 == (remote || !local),
{
}

} // verus!
