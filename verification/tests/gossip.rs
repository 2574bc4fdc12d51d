use tx_pigeon::cli::{
    gossip_views, run, Args, CliError, Command, Job, DEFAULT_INTERVAL_SECS, DEFAULT_LABEL,
    DEFAULT_LIMIT,
};
use tx_pigeon::hexcode::HexError;
use tx_pigeon::node::{
    choose_protocol, log_local_mempool, run_gossip_client, run_topic_network, spawn_topic_network,
    start_topic_network, NodeEvent, NodeReaction, PeerCommand, Protocol, TopicNode,
};
use tx_pigeon::topic::{
    handle_topic_tx, identify, message_label, observe_topic_tx, publish_topic_tx,
    publish_with_retry, show_identity, tx_message_id, Identity, PublishAction, PublishEvent,
    PublishStage, TopicAction, TopicError, TopicEvent, TopicTask, BITCOIN_PIGEON_TOPIC,
};
use tx_pigeon::tx::{TxError, Txid};
use tx_pigeon::txid_set::TxidSet;

const GENESIS: &str = "01000000010000000000000000000000000000000000000000000000000000000000000000ffffffff4d04ffff001d0104455468652054696d65732030332f4a616e2f32303039204368616e63656c6c6f72206f6e206272696e6b206f66207365636f6e64206261696c6f757420666f722062616e6b73ffffffff0100f2052a01000000434104678afdb0fe5548271967f1a67130b7105cd6a828e03909a67962e0ea1f61deb649f6bc3f4cef38c4f35504e51ec112de5c384df7ba0b8d578a4c702b6bf11d5fac00000000";
const GENESIS_ID: &str = "4a5e1e4baab89f3a32518a88c31bc87f618f76673e2cc77ab2127b7afdeda33b";
const SEGWIT: &str = "02000000000101000102030405060708090a0b0c0d0e0f101112131415161718191a1b1c1d1e1f0000000000fdffffff01e803000000000000036a012a0102aabb00000000";

fn bytes(text: &str) -> Vec<u8> {
    hex::decode(text).unwrap()
}

#[test]
fn messages_are_known_by_their_transaction() {
    assert_eq!(tx_message_id(&bytes(GENESIS), BITCOIN_PIGEON_TOPIC), GENESIS_ID);
    let mut longer = bytes(GENESIS);
    longer.push(7);
    assert_eq!(tx_message_id(&longer, BITCOIN_PIGEON_TOPIC), GENESIS_ID);
}

#[test]
fn other_messages_are_known_by_their_digest() {
    assert_eq!(
        tx_message_id(b"hello", "bitcoin-pigeon"),
        "bitcoin-pigeon:3338be694f50c5f338814986cdf0686453a888b84f424d792af4b9202398f392"
    );
    assert_ne!(tx_message_id(b"hello", "t"), tx_message_id(b"hallo", "t"));
}

#[test]
fn identities_are_shown() {
    assert_eq!(show_identity(&Identity::Digest([0; 32]), "t"), format!("t:{}", "0".repeat(64)));
    let txid = Txid { bytes: [1; 32] };
    assert_eq!(show_identity(&Identity::Transaction(txid), "t"), "01".repeat(32));
    assert!(matches!(identify(b"hello"), Identity::Digest(_)));
    assert!(matches!(identify(&bytes(SEGWIT)), Identity::Transaction(_)));
}

#[test]
fn messages_are_labelled() {
    assert_eq!(message_label(&bytes(GENESIS)), GENESIS_ID);
    assert_eq!(message_label(b"hello"), "68656c6c6f");
}

#[test]
fn a_message_is_handled_once() {
    let mut seen = TxidSet::new();
    let mut task = handle_topic_tx(&bytes(GENESIS), true, &mut seen).unwrap();
    assert!(matches!(task.action(), TopicAction::ListMempool { limit: 5 }));
    assert_eq!(task.outcome(), None);
    task.on_event(TopicEvent::Done);
    match task.action() {
        TopicAction::Blast { tx_hex, tor_only, relay } => {
            assert_eq!(tx_hex, GENESIS);
            assert!(tor_only && relay);
        }
        other => panic!("{other:?}"),
    }
    task.on_event(TopicEvent::Done);
    assert_eq!(task.outcome(), Some(Ok(())));
    let again = handle_topic_tx(&bytes(GENESIS), true, &mut seen).unwrap();
    assert!(matches!(again.action(), TopicAction::Finish));
    assert_eq!(again.outcome(), Some(Ok(())));
}

#[test]
fn handling_fails_with_a_reason() {
    let mut seen = TxidSet::new();
    assert_eq!(handle_topic_tx(b"hello", false, &mut seen).err(), Some(TxError::Decode));
    assert!(seen.is_empty());
    let mut task = handle_topic_tx(&bytes(GENESIS), false, &mut seen).unwrap();
    task.on_event(TopicEvent::Failed);
    assert_eq!(task.outcome(), Some(Err(TopicError::Mempool)));
    let mut task = handle_topic_tx(&bytes(SEGWIT), false, &mut seen).unwrap();
    task.on_event(TopicEvent::Done);
    task.on_event(TopicEvent::Failed);
    assert_eq!(task.outcome(), Some(Err(TopicError::Blast)));
    task.on_event(TopicEvent::Done);
    assert_eq!(task.outcome(), Some(Err(TopicError::Blast)));
}

#[test]
fn watching_lists_and_reports() {
    let data = bytes(GENESIS);
    let start = |local: bool, remote: bool| {
        observe_topic_tx(&data, true, local, remote, &mut TxidSet::new()).unwrap()
    };
    let mut both = start(true, true);
    assert!(matches!(both.action(), TopicAction::ListMempool { limit: 5 }));
    both.on_event(TopicEvent::Done);
    match both.action() {
        TopicAction::Report { txid, tor_only } => {
            assert_eq!(txid, GENESIS_ID);
            assert!(tor_only);
        }
        other => panic!("{other:?}"),
    }
    both.on_event(TopicEvent::Done);
    assert_eq!(both.outcome(), Some(Ok(())));
    let mut local = start(true, false);
    local.on_event(TopicEvent::Done);
    assert_eq!(local.outcome(), Some(Ok(())));
    assert!(matches!(start(false, true).action(), TopicAction::Report { .. }));
    assert_eq!(start(false, false).outcome(), Some(Ok(())));
}

#[test]
fn publishing_starts_with_a_transaction() {
    let p = publish_topic_tx(&format!("{GENESIS}ff")).unwrap();
    assert_eq!(p.raw().len(), 205);
    assert_eq!(p.txid(), tx_pigeon::tx::decode_transaction_hex(GENESIS).unwrap().txid());
    assert_eq!(p.action(), PublishAction::Publish);
    assert_eq!(publish_topic_tx("a").err(), Some(TxError::Hex(HexError::OddLength)));
    assert_eq!(publish_topic_tx("aa").err(), Some(TxError::Decode));
}

#[test]
fn publishing_waits_for_peers() {
    let mut p = publish_topic_tx(GENESIS).unwrap();
    let alone = || PublishEvent::Refused("InsufficientPeers".to_string());
    for _ in 0..3 {
        p.on_event(&alone());
        assert_eq!(p.action(), PublishAction::Sleep(1));
        p.on_event(&PublishEvent::Slept);
        assert_eq!(p.action(), PublishAction::Publish);
    }
    p.on_event(&PublishEvent::Published);
    assert_eq!(p.outcome(), Some(Ok(true)));
    assert_eq!(p.action(), PublishAction::Finish);
}

#[test]
fn publishing_is_given_up_after_thirty_tries() {
    let mut p = publish_topic_tx(GENESIS).unwrap();
    let mut tries = 0;
    while p.outcome().is_none() {
        match p.action() {
            PublishAction::Publish => {
                tries += 1;
                p.on_event(&PublishEvent::Refused("gossip: InsufficientPeers!".to_string()));
            }
            _ => p.on_event(&PublishEvent::Slept),
        }
    }
    assert_eq!(tries, 30);
    assert_eq!(p.outcome(), Some(Ok(false)));
}

#[test]
fn another_refusal_is_final() {
    let mut p = publish_topic_tx(GENESIS).unwrap();
    p.on_event(&PublishEvent::Refused("Duplicate".to_string()));
    assert_eq!(p.outcome(), Some(Err(())));
    let stage = publish_with_retry(PublishStage::Pausing(30), &PublishEvent::Slept);
    assert_eq!(stage, PublishStage::Done(Ok(false)));
    let stage = publish_with_retry(PublishStage::Pausing(29), &PublishEvent::Slept);
    assert_eq!(stage, PublishStage::Trying(30));
}

type Event = NodeEvent<u8, &'static str>;
type Reaction = NodeReaction<u8, &'static str>;

#[test]
fn a_node_greets_and_forgets_peers() {
    let mut node = run_topic_network(false);
    let found: Event = NodeEvent::Discovered(vec![(1, "a"), (2, "b")]);
    match node.on_event(found) {
        NodeReaction::Peers(commands) => {
            assert_eq!(commands.len(), 4);
            assert!(matches!(commands[0], PeerCommand::Add(1)));
            assert!(matches!(commands[1], PeerCommand::Dial("a")));
            assert!(matches!(commands[2], PeerCommand::Add(2)));
            assert!(matches!(commands[3], PeerCommand::Dial("b")));
        }
        other => panic!("{other:?}"),
    }
    let gone: Event = NodeEvent::Expired(vec![(1, "a"), (2, "b")]);
    match node.on_event(gone) {
        NodeReaction::Peers(commands) => {
            assert_eq!(commands.len(), 2);
            assert!(matches!(commands[0], PeerCommand::Remove(1)));
            assert!(matches!(commands[1], PeerCommand::Remove(2)));
        }
        other => panic!("{other:?}"),
    }
    assert!(matches!(node.on_event(Event::Other), NodeReaction::Ignore));
}

fn failed_task() -> TopicTask {
    let mut task = handle_topic_tx(&bytes(GENESIS), false, &mut TxidSet::new()).unwrap();
    task.on_event(TopicEvent::Failed);
    task
}

#[test]
fn a_topic_node_starts_with_a_publication_or_without() {
    let (node, first): (TopicNode, Option<Reaction>) = start_topic_network(None, true);
    assert!(node.is_running() && first.is_none());
    let (node, first): (TopicNode, Option<Reaction>) =
        start_topic_network(Some(GENESIS.to_string()), true);
    assert!(node.is_running());
    match first {
        Some(NodeReaction::Publish(p)) => assert_eq!(p.raw(), bytes(GENESIS).as_slice()),
        other => panic!("{other:?}"),
    }
    let (node, first): (TopicNode, Option<Reaction>) =
        start_topic_network(Some("zz".to_string()), true);
    assert!(matches!(first, Some(NodeReaction::Refuse(TxError::Hex(_)))));
    assert!(!node.is_running());
}

#[test]
fn a_task_that_went_well_changes_no_node() {
    let mut seen = TxidSet::new();
    let mut task = handle_topic_tx(&bytes(GENESIS), false, &mut seen).unwrap();
    task.on_event(TopicEvent::Done);
    task.on_event(TopicEvent::Done);
    let mut node = run_topic_network(true);
    node.on_task_done(&task);
    assert!(node.is_running());
}

#[test]
fn a_topic_node_stops_on_failure_or_interrupt() {
    let mut node = run_topic_network(false);
    assert_eq!(node.label(), "topic-cli");
    let dealt = node.on_event(Event::Message(bytes(GENESIS)));
    assert!(matches!(dealt, NodeReaction::Deal(_)));
    assert!(matches!(node.on_event(Event::Queued(GENESIS.to_string())), NodeReaction::Ignore));
    assert!(node.is_running());
    let refused = node.on_event(Event::Message(b"hello".to_vec()));
    assert!(matches!(refused, NodeReaction::Refuse(TxError::Decode)));
    assert!(!node.is_running());
    assert!(matches!(node.on_event(Event::Message(bytes(SEGWIT))), NodeReaction::Stop));
    let mut other = run_topic_network(true);
    assert!(matches!(other.on_event(Event::Interrupted), NodeReaction::Stop));
    assert!(!other.is_running());
    let mut failing = run_topic_network(true);
    failing.on_task_done(&failed_task());
    assert!(!failing.is_running());
    let mut publishing = run_topic_network(true);
    let reaction: Reaction = publishing.publish("zz");
    assert!(matches!(reaction, NodeReaction::Refuse(TxError::Hex(_))));
    assert!(!publishing.is_running());
}

#[test]
fn a_watcher_only_watches() {
    let mut node = run_gossip_client("w".to_string(), false, false, true);
    assert_eq!(node.label(), "w");
    assert!(node.shows_messages());
    assert!(!run_gossip_client("l".to_string(), false, true, false).shows_messages());
    assert!(run_topic_network(false).shows_messages());
    match node.on_event(Event::Message(bytes(GENESIS))) {
        NodeReaction::Deal(task) => assert!(matches!(task.action(), TopicAction::Report { .. })),
        other => panic!("{other:?}"),
    }
    let refused = node.on_event(Event::Message(b"hello".to_vec()));
    assert!(matches!(refused, NodeReaction::Refuse(TxError::Decode)));
    assert!(node.is_running());
    node.on_task_done(&failed_task());
    assert!(node.is_running());
    assert!(matches!(node.on_event(Event::QueueClosed), NodeReaction::Ignore));
    assert!(matches!(node.on_event(Event::Interrupted), NodeReaction::Stop));
}

#[test]
fn a_background_node_publishes_what_is_queued() {
    let mut node = spawn_topic_network("bg".to_string(), true);
    let publication = match node.on_event(Event::Queued(GENESIS.to_string())) {
        NodeReaction::Publish(p) => p,
        other => panic!("{other:?}"),
    };
    let mut publication = publication;
    publication.on_event(&PublishEvent::Published);
    let reaction: Reaction = node.on_published(&publication);
    match reaction {
        NodeReaction::Deal(task) => {
            assert!(matches!(task.action(), TopicAction::ListMempool { .. }))
        }
        other => panic!("{other:?}"),
    }
    match node.on_event(Event::Message(bytes(GENESIS))) {
        NodeReaction::Deal(task) => assert!(matches!(task.action(), TopicAction::Finish)),
        other => panic!("{other:?}"),
    }
    let refused = node.on_event(Event::Queued("aa".to_string()));
    assert!(matches!(refused, NodeReaction::Refuse(TxError::Decode)));
    assert!(matches!(node.on_event(Event::Interrupted), NodeReaction::Ignore));
    assert!(node.is_running());
    assert!(matches!(node.on_event(Event::QueueClosed), NodeReaction::Stop));
    assert!(!node.is_running());
}

#[test]
fn a_given_up_publication_is_dealt_with_and_a_failed_one_is_not() {
    let mut node = spawn_topic_network("bg".to_string(), true);
    let mut failed = publish_topic_tx(GENESIS).unwrap();
    failed.on_event(&PublishEvent::Refused("Duplicate".to_string()));
    let reaction: Reaction = node.on_published(&failed);
    assert!(matches!(reaction, NodeReaction::Ignore));
    assert!(node.is_running());
    let mut given_up = publish_topic_tx(GENESIS).unwrap();
    for _ in 0..30 {
        given_up.on_event(&PublishEvent::Refused("InsufficientPeers".to_string()));
        given_up.on_event(&PublishEvent::Slept);
    }
    assert_eq!(given_up.outcome(), Some(Ok(false)));
    let reaction: Reaction = node.on_published(&given_up);
    match reaction {
        NodeReaction::Deal(task) => {
            assert!(matches!(task.action(), TopicAction::ListMempool { .. }))
        }
        other => panic!("{other:?}"),
    }
    let mut foreground = run_topic_network(true);
    let reaction: Reaction = foreground.on_published(&failed);
    assert!(matches!(reaction, NodeReaction::Ignore));
    assert!(!foreground.is_running());
}

#[test]
fn protocols_are_chosen() {
    let choose = |p: Option<&str>, v: Option<&str>| {
        choose_protocol(&p.map(|s| s.to_string()), &v.map(|s| s.to_string()))
    };
    assert!(matches!(choose(None, None), Protocol::Exact(t) if t == "/gnostr/0.0.1"));
    assert!(matches!(choose(Some("/gnostr"), None), Protocol::Prefix(t) if t == "/gnostr"));
    assert!(matches!(choose(Some("x"), None), Protocol::Prefix(t) if t == "/x"));
    assert!(matches!(
        choose(Some("/gnostr"), Some("1.0.0")),
        Protocol::Exact(t) if t == "/gnostr/1.0.0"
    ));
    assert!(matches!(choose(None, Some("1.1.0")), Protocol::Exact(t) if t == "/gnostr/1.1.0"));
}

#[test]
fn the_local_pool_is_numbered() {
    let lines = log_local_mempool(&vec!["a".to_string(), "b".to_string()]);
    assert_eq!(lines.len(), 2);
    assert_eq!((lines[0].index, lines[0].total, lines[0].txid.as_str()), (1, 2, "a"));
    assert_eq!((lines[1].index, lines[1].total, lines[1].txid.as_str()), (2, 2, "b"));
}

fn args(command: Option<Command>) -> Args {
    Args {
        tx: None,
        tor_only: true,
        protocol: Some("/p".to_string()),
        protocol_version: None,
        command,
    }
}

#[test]
fn without_a_command_a_transaction_is_sent() {
    assert_eq!(run(args(None)).err(), Some(CliError::MissingTx));
    let with_tx = Args { tx: Some("00".to_string()), ..args(None) };
    match run(with_tx) {
        Ok(Job::BlastTransaction { tx_hex, tor_only, relay }) => {
            assert_eq!(tx_hex, "00");
            assert!(tor_only && relay);
        }
        other => panic!("{other:?}"),
    }
}

#[test]
fn commands_become_jobs() {
    match run(args(Some(Command::Topic { tx: Some("aa".to_string()) }))) {
        Ok(Job::RunTopicNetwork { tx, tor_only, protocol, protocol_version }) => {
            assert_eq!(tx.as_deref(), Some("aa"));
            assert!(tor_only);
            assert_eq!(protocol.as_deref(), Some("/p"));
            assert_eq!(protocol_version, None);
        }
        other => panic!("{other:?}"),
    }
    assert!(matches!(
        run(args(Some(Command::Fetch { limit: 3 }))),
        Ok(Job::FetchTransactions { limit: 3, tor_only: true, relay: true })
    ));
    assert!(matches!(
        run(args(Some(Command::Relay { limit: 3, interval_secs: 9 }))),
        Ok(Job::RelayTransactions { limit: 3, tor_only: true, relay: true, interval_secs: 9 })
    ));
    let gossip = Command::Gossip { label: "g".to_string(), local: false, remote: false };
    match run(args(Some(gossip))) {
        Ok(Job::RunGossipClient { label, local, remote, .. }) => {
            assert_eq!(label, "g");
            assert!(local && remote);
        }
        other => panic!("{other:?}"),
    }
}

#[test]
fn a_watcher_shows_all_by_default() {
    assert_eq!(gossip_views(false, false), (true, true));
    assert_eq!(gossip_views(true, false), (true, false));
    assert_eq!(gossip_views(false, true), (false, true));
    assert_eq!(gossip_views(true, true), (true, true));
    assert_eq!((DEFAULT_LIMIT, DEFAULT_INTERVAL_SECS, DEFAULT_LABEL), (20, 15, "gossip-client"));
}
