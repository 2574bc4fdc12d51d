//! Nodes on the gossip topic: what each sort of node does when something happens, and which
//! protocol they speak.
use crate::discover;
use crate::hexcode;
use crate::topic;
use crate::topic::{
    handle_topic_tx, observe_topic_tx, publish_topic_tx, Publication, PublishStage, Purpose,
    TaskStage, TopicTask,
};
use crate::tx;
use crate::tx::{TxError, Txid};
use crate::txid_set::TxidSet;
use vstd::prelude::*;
use vstd::string::*;

verus! {

/// The sorts of nodes.
#[derive(Clone, Copy, Debug, PartialEq, Eq, Structural)]
pub enum NodeKind {
    /// Runs in the foreground and sends on what comes.
    Topic,
    /// Runs in the foreground and only watches.
    Watcher,
    /// Runs in the background, sends on what comes, and publishes what is queued.
    Relay,
}

/// What a [`TopicNode`] says.
pub struct NodeView {
    pub kind: NodeKind,
    pub label: Seq<char>,
    pub tor_only: bool,
    /// Whether a watcher lists the local memory pool.
    pub local: bool,
    /// Whether a watcher reports what it sees.
    pub remote: bool,
    /// The transactions that came.
    pub seen: Set<Txid>,
    /// Whether the node has not stopped.
    pub running: bool,
}

/// A node on the topic.
#[derive(Debug)]
pub struct TopicNode {
    kind: NodeKind,
    label: String,
    tor_only: bool,
    local: bool,
    remote: bool,
    seen: TxidSet,
    running: bool,
}

impl View for TopicNode {
    type V = NodeView;

    closed spec fn view(&self) -> NodeView {
        NodeView {
            kind: self.kind,
            label: self.label@,
            tor_only: self.tor_only,
            local: self.local,
            remote: self.remote,
            seen: self.seen@,
            running: self.running,
        }
    }
}

/// What happens to a node, with peers known by `P` and found at `A`.
#[derive(Debug)]
pub enum NodeEvent<P, A> {
    /// A message came on the topic.
    Message(Vec<u8>),
    /// Peers were discovered nearby.
    Discovered(Vec<(P, A)>),
    /// Peers that were discovered have gone.
    Expired(Vec<(P, A)>),
    /// A transaction was queued for publication, in hexadecimal.
    Queued(String),
    /// Nobody can queue any more.
    QueueClosed,
    /// The user wants an end.
    Interrupted,
    /// Anything else.
    Other,
}

/// What a node does.
#[derive(Debug)]
pub enum NodeReaction<P, A> {
    /// Deals with a message.
    Deal(TopicTask),
    /// Carries out commands about peers, one after another.
    Peers(Vec<PeerCommand<P, A>>),
    /// Publishes a transaction.
    Publish(Publication),
    /// Refuses a message or a transaction.
    Refuse(TxError),
    /// Stops.
    Stop,
    /// Nothing.
    Ignore,
}

/// What a node of this sort does with the transactions that come.
pub open spec fn purpose_of(node: NodeView) -> Purpose {
    if node.kind is Watcher {
        Purpose::Observe { local: node.local, remote: node.remote }
    } else {
        Purpose::Handle
    }
}

/// A node after a failure to deal with a message or a transaction: that stops one in the
/// foreground that sends on, and no other.
pub open spec fn failed(node: NodeView) -> NodeView {
    NodeView { running: node.running && !(node.kind is Topic), ..node }
}

/// Whether a node that takes up the message `data` becomes `after` and does `reaction`.
pub open spec fn takes_message<P, A>(
    before: NodeView,
    data: Seq<u8>,
    after: NodeView,
    reaction: NodeReaction<P, A>,
) -> bool {
    match tx::leading_transaction(data) {
        Some(raw) => {
            let txid = tx::computed_txid(raw);
            &&& after == (NodeView { seen: before.seen.insert(txid), ..before })
            &&& reaction matches NodeReaction::Deal(task)
            &&& task@ == topic::task_of(
                txid,
                data,
                before.tor_only,
                purpose_of(before),
                before.seen,
            )
        },
        None => after == failed(before) && reaction == NodeReaction::<P, A>::Refuse(
            TxError::Decode,
        ),
    }
}

/// Whether a node that is asked to publish what `tx_hex` spells becomes `after` and does
/// `reaction`.
pub open spec fn takes_publication<P, A>(
    before: NodeView,
    tx_hex: Seq<char>,
    after: NodeView,
    reaction: NodeReaction<P, A>,
) -> bool {
    match reaction {
        NodeReaction::Publish(p) => topic::publishes(tx_hex, Ok(p@)) && after == before,
        NodeReaction::Refuse(error) => topic::publishes(tx_hex, Err(error)) && after == failed(
            before,
        ),
        _ => false,
    }
}

/// Whether a node to which `event` happens becomes `after` and does `reaction`.
pub open spec fn reacts<P, A>(
    before: NodeView,
    event: NodeEvent<P, A>,
    after: NodeView,
    reaction: NodeReaction<P, A>,
) -> bool {
    let stopped = NodeView { running: false, ..before };
    if !before.running {
        after == before && reaction is Stop
    } else {
        match event {
            NodeEvent::Message(data) => takes_message(before, data@, after, reaction),
            NodeEvent::Discovered(peers) => {
                &&& after == before
                &&& reaction matches NodeReaction::Peers(commands)
                &&& commands@ == greetings(peers@)
            },
            NodeEvent::Expired(peers) => {
                &&& after == before
                &&& reaction matches NodeReaction::Peers(commands)
                &&& commands@ == farewells(peers@)
            },
            NodeEvent::Queued(tx_hex) => if before.kind is Relay {
                takes_publication(before, tx_hex@, after, reaction)
            } else {
                after == before && reaction is Ignore
            },
            NodeEvent::QueueClosed => if before.kind is Relay {
                after == stopped && reaction is Stop
            } else {
                after == before && reaction is Ignore
            },
            NodeEvent::Interrupted => if before.kind is Relay {
                after == before && reaction is Ignore
            } else {
                after == stopped && reaction is Stop
            },
            NodeEvent::Other => after == before && reaction is Ignore,
        }
    }
}

/// A node at its start.
fn new_node(kind: NodeKind, label: String, tor_only: bool, local: bool, remote: bool) -> (node:
    TopicNode)
    ensures
        node@ == (NodeView {
            kind,
            label: label@,
            tor_only,
            local,
            remote,
            seen: Set::empty(),
            running: true,
        }),
{
    TopicNode { kind, label, tor_only, local, remote, seen: TxidSet::new(), running: true }
}

/// The name of a node in the foreground that sends on.
pub const TOPIC_LABEL: &'static str = "topic-cli";

/// A node in the foreground that sends on what comes.
pub fn run_topic_network(tor_only: bool) -> (node: TopicNode)
    ensures
        node@ == (NodeView {
            kind: NodeKind::Topic,
            label: TOPIC_LABEL@,
            tor_only,
            local: true,
            remote: true,
            seen: Set::empty(),
            running: true,
        }),
{
    new_node(NodeKind::Topic, TOPIC_LABEL.to_owned(), tor_only, true, true)
}

/// Starts a node in the foreground that sends on what comes: it publishes first what `tx_hex`
/// spells, if that is given.
pub fn start_topic_network<P, A>(tx_hex: Option<String>, tor_only: bool) -> (r: (
    TopicNode,
    Option<NodeReaction<P, A>>,
))
    ensures
        ({
            let fresh = NodeView {
                kind: NodeKind::Topic,
                label: TOPIC_LABEL@,
                tor_only,
                local: true,
                remote: true,
                seen: Set::empty(),
                running: true,
            };
            match tx_hex {
                Some(text) => r.1 matches Some(reaction) && takes_publication(
                    fresh,
                    text@,
                    r.0@,
                    reaction,
                ),
                None => r.0@ == fresh && r.1 is None,
            }
        }),
{
    let mut node = run_topic_network(tor_only);
    match tx_hex {
        Some(text) => {
            let reaction = node.publish(text.as_str());
            (node, Some(reaction))
        },
        None => (node, None),
    }
}

/// A node in the foreground that only watches.
pub fn run_gossip_client(label: String, tor_only: bool, local: bool, remote: bool) -> (node:
    TopicNode)
    ensures
        node@ == (NodeView {
            kind: NodeKind::Watcher,
            label: label@,
            tor_only,
            local,
            remote,
            seen: Set::empty(),
            running: true,
        }),
{
    new_node(NodeKind::Watcher, label, tor_only, local, remote)
}

/// A node in the background that sends on what comes and publishes what is queued.
pub fn spawn_topic_network(label: String, tor_only: bool) -> (node: TopicNode)
    ensures
        node@ == (NodeView {
            kind: NodeKind::Relay,
            label: label@,
            tor_only,
            local: true,
            remote: true,
            seen: Set::empty(),
            running: true,
        }),
{
    new_node(NodeKind::Relay, label, tor_only, true, true)
}

impl TopicNode {
    /// The name of the node.
    pub fn label(&self) -> (label: &str)
        ensures
            label@ == self@.label,
    {
        self.label.as_str()
    }

    /// Whether the node has not stopped.
    pub fn is_running(&self) -> (r: bool)
        ensures
            r == self@.running,
    {
        self.running
    }

    /// Whether messages are shown as they come: a watcher may be told to leave that out.
    pub fn shows_messages(&self) -> (r: bool)
        ensures
            r == (self@.kind is Watcher ==> self@.remote),
    {
        match self.kind {
            NodeKind::Watcher => self.remote,
            _ => true,
        }
    }

    /// Does what an event calls for.
    pub fn on_event<P, A>(&mut self, event: NodeEvent<P, A>) -> (reaction: NodeReaction<P, A>)
        ensures
            reacts(old(self)@, event, final(self)@, reaction),
    {
        if !self.running {
            return NodeReaction::Stop;
        }
        match event {
            NodeEvent::Message(data) => self.on_message(data.as_slice()),
            NodeEvent::Discovered(peers) => NodeReaction::Peers(greet(peers)),
            NodeEvent::Expired(peers) => NodeReaction::Peers(forget(peers)),
            NodeEvent::Queued(tx_hex) => match self.kind {
                NodeKind::Relay => self.publish(tx_hex.as_str()),
                _ => NodeReaction::Ignore,
            },
            NodeEvent::QueueClosed => match self.kind {
                NodeKind::Relay => {
                    self.running = false;
                    NodeReaction::Stop
                },
                _ => NodeReaction::Ignore,
            },
            NodeEvent::Interrupted => match self.kind {
                NodeKind::Relay => NodeReaction::Ignore,
                _ => {
                    self.running = false;
                    NodeReaction::Stop
                },
            },
            NodeEvent::Other => NodeReaction::Ignore,
        }
    }

    /// Takes up a message, or what was published, as if it had come.
    pub fn on_message<P, A>(&mut self, data: &[u8]) -> (reaction: NodeReaction<P, A>)
        ensures
            takes_message(old(self)@, data@, final(self)@, reaction),
    {
        let taken = match self.kind {
            NodeKind::Watcher => observe_topic_tx(
                data,
                self.tor_only,
                self.local,
                self.remote,
                &mut self.seen,
            ),
            _ => handle_topic_tx(data, self.tor_only, &mut self.seen),
        };
        match taken {
            Ok(task) => NodeReaction::Deal(task),
            Err(error) => {
                self.on_failure();
                NodeReaction::Refuse(error)
            },
        }
    }

    /// Starts to publish what `tx_hex` spells.
    pub fn publish<P, A>(&mut self, tx_hex: &str) -> (reaction: NodeReaction<P, A>)
        ensures
            takes_publication(old(self)@, tx_hex@, final(self)@, reaction),
    {
        match publish_topic_tx(tx_hex) {
            Ok(publication) => NodeReaction::Publish(publication),
            Err(error) => {
                self.on_failure();
                NodeReaction::Refuse(error)
            },
        }
    }

    /// Goes on after a publication: what was published, or found nobody to publish to, is taken up
    /// as if it had come; what could not be published is not.
    pub fn on_published<P, A>(&mut self, publication: &Publication) -> (reaction: NodeReaction<P, A>)
        requires
            publication@.stage is Done,
        ensures
            match publication@.stage {
                PublishStage::Done(Ok(_)) => takes_message(
                    old(self)@,
                    publication@.raw,
                    final(self)@,
                    reaction,
                ),
                _ => final(self)@ == failed(old(self)@) && reaction is Ignore,
            },
    {
        match publication.outcome() {
            Some(Ok(_)) => self.on_message(publication.raw()),
            _ => {
                self.on_failure();
                NodeReaction::Ignore
            },
        }
    }

    /// Goes on after a message was dealt with: a task that failed is a failure of the node.
    pub fn on_task_done(&mut self, task: &TopicTask)
        requires
            task@.stage is Done,
        ensures
            final(self)@ == match task@.stage {
                TaskStage::Done(Err(_)) => failed(old(self)@),
                _ => old(self)@,
            },
    {
        if let Some(Err(_)) = task.outcome() {
            self.on_failure();
        }
    }

    /// Takes note that a message could not be dealt with, or a transaction not be published.
    fn on_failure(&mut self)
        ensures
            final(self)@ == failed(old(self)@),
    {
        if let NodeKind::Topic = self.kind {
            self.running = false;
        }
    }
}

/// A node that only watches neither sends on nor publishes, whatever happens.
pub proof fn law_watcher_only_watches<P, A>(
    before: NodeView,
    event: NodeEvent<P, A>,
    after: NodeView,
    reaction: NodeReaction<P, A>,
)
    requires
        before.kind is Watcher,
        reacts(before, event, after, reaction),
    ensures
        after.kind is Watcher,
        !(reaction is Publish),
        reaction matches NodeReaction::Deal(task) ==> !(topic::task_action(task@) is Blast)
            && task@.purpose is Observe,
{
}

/// A node never forgets a transaction that came, deals with one that came before no more, and once
/// it has stopped it stays so.
pub proof fn law_node_remembers<P, A>(
    before: NodeView,
    event: NodeEvent<P, A>,
    after: NodeView,
    reaction: NodeReaction<P, A>,
)
    requires
        reacts(before, event, after, reaction),
    ensures
        before.seen.subset_of(after.seen),
        reaction matches NodeReaction::Deal(task) ==> {
            &&& after.seen.contains(task@.txid)
            &&& before.seen.contains(task@.txid) ==> topic::task_action(task@) is Finish
        },
        !before.running ==> after == before,
{
}

/// What is done about one peer that was discovered or has gone.
#[derive(Debug)]
pub enum PeerCommand<P, A> {
    /// Adds the peer to those that messages are always passed to.
    Add(P),
    /// Dials the address.
    Dial(A),
    /// Drops the peer from those that messages are always passed to.
    Remove(P),
}

/// What is done about peers that were discovered: each is added, and then dialled.
pub open spec fn greetings<P, A>(peers: Seq<(P, A)>) -> Seq<PeerCommand<P, A>>
    decreases peers.len(),
{
    if peers.len() == 0 {
        Seq::empty()
    } else {
        seq![PeerCommand::Add(peers[0].0), PeerCommand::Dial(peers[0].1)] + greetings(
            peers.drop_first(),
        )
    }
}

/// What is done about peers that were discovered.
pub fn greet<P, A>(peers: Vec<(P, A)>) -> (commands: Vec<PeerCommand<P, A>>)
    ensures
        commands@ == greetings(peers@),
{
    let ghost all = peers@;
    let mut rest = peers;
    let mut commands: Vec<PeerCommand<P, A>> = Vec::new();
    assert(commands@ + greetings(rest@) =~= greetings(all));
    while rest.len() > 0
        invariant
            commands@ + greetings(rest@) == greetings(all),
        decreases rest@.len(),
    {
        let ghost before = rest@;
        let ghost done = commands@;
        let (peer, address) = rest.remove(0);
        assert(rest@ =~= before.drop_first());
        commands.push(PeerCommand::Add(peer));
        commands.push(PeerCommand::Dial(address));
        assert(commands@ + greetings(rest@) =~= done + greetings(before));
    }
    assert(commands@ =~= commands@ + greetings(rest@));
    commands
}

/// What is done about peers that have gone: each is dropped.
pub open spec fn farewells<P, A>(peers: Seq<(P, A)>) -> Seq<PeerCommand<P, A>> {
    peers.map_values(|peer: (P, A)| PeerCommand::Remove(peer.0))
}

/// What is done about peers that have gone.
pub fn forget<P, A>(peers: Vec<(P, A)>) -> (commands: Vec<PeerCommand<P, A>>)
    ensures
        commands@ == farewells(peers@),
{
    let ghost all = peers@;
    let mut rest = peers;
    let mut commands: Vec<PeerCommand<P, A>> = Vec::new();
    assert(all.skip(0) =~= all);
    while rest.len() > 0
        invariant
            commands@.len() + rest@.len() == all.len(),
            rest@ == all.skip(commands@.len() as int),
            commands@ =~= farewells(all.take(commands@.len() as int)),
        decreases rest@.len(),
    {
        let ghost before = rest@;
        let ghost done = commands@;
        let (peer, _address) = rest.remove(0);
        commands.push(PeerCommand::Remove(peer));
        assert(rest@ =~= all.skip(commands@.len() as int));
        assert(before[0] == all[done.len() as int]);
        assert(commands@ =~= farewells(all.take(commands@.len() as int)));
    }
    assert(all.take(all.len() as int) =~= all);
    commands
}

/// The protocol that nodes speak.
#[derive(Debug)]
pub enum Protocol {
    /// Every version under this prefix.
    Prefix(String),
    /// Just this protocol.
    Exact(String),
}

/// What a [`Protocol`] says.
pub enum ProtocolView {
    Prefix(Seq<char>),
    Exact(Seq<char>),
}

impl View for Protocol {
    type V = ProtocolView;

    open spec fn view(&self) -> ProtocolView {
        match self {
            Protocol::Prefix(text) => ProtocolView::Prefix(text@),
            Protocol::Exact(text) => ProtocolView::Exact(text@),
        }
    }
}

/// The protocol of those who name none.
pub const DEFAULT_PROTOCOL: &'static str = "gnostr";

/// The version of those who name none.
pub const DEFAULT_PROTOCOL_VERSION: &'static str = "0.0.1";

/// A name as it goes over the wire: with a slash in front.
pub open spec fn rooted(name: Seq<char>) -> Seq<char> {
    if name.len() > 0 && name[0] == '/' {
        name
    } else {
        "/"@ + name
    }
}

/// The protocol for what was named: a prefix alone covers every version, a version makes it exact,
/// and where no prefix is named the default one is meant.
pub open spec fn protocol_for(
    protocol: Option<Seq<char>>,
    version: Option<Seq<char>>,
) -> ProtocolView {
    match (protocol, version) {
        (None, None) => ProtocolView::Exact(
            rooted(DEFAULT_PROTOCOL@) + "/"@ + DEFAULT_PROTOCOL_VERSION@,
        ),
        (None, Some(v)) => ProtocolView::Exact(rooted(DEFAULT_PROTOCOL@) + "/"@ + v),
        (Some(p), None) => ProtocolView::Prefix(rooted(p)),
        (Some(p), Some(v)) => ProtocolView::Exact(rooted(p) + "/"@ + v),
    }
}

/// A name as it goes over the wire.
fn root_name(name: &str) -> (r: String)
    ensures
        r@ == rooted(name@),
{
    if name.unicode_len() > 0 && name.get_char(0) == '/' {
        name.to_owned()
    } else {
        let mut r = "/".to_owned();
        r.append(name);
        r
    }
}

/// A protocol of one version.
fn exact(protocol: &str, version: &str) -> (r: Protocol)
    ensures
        r@ == ProtocolView::Exact(rooted(protocol@) + "/"@ + version@),
{
    let mut text = root_name(protocol);
    text.append("/");
    text.append(version);
    Protocol::Exact(text)
}

/// What an optional text says.
pub open spec fn named(text: Option<String>) -> Option<Seq<char>> {
    match text {
        Some(text) => Some(text@),
        None => None,
    }
}

/// The protocol for what was named.
pub fn choose_protocol(protocol: &Option<String>, version: &Option<String>) -> (r: Protocol)
    ensures
        r@ == protocol_for(named(*protocol), named(*version)),
{
    match (protocol, version) {
        (None, None) => exact(DEFAULT_PROTOCOL, DEFAULT_PROTOCOL_VERSION),
        (None, Some(v)) => exact(DEFAULT_PROTOCOL, v.as_str()),
        (Some(p), None) => Protocol::Prefix(root_name(p.as_str())),
        (Some(p), Some(v)) => exact(p.as_str(), v.as_str()),
    }
}

/// Whatever is named, what goes over the wire starts with a slash, and naming the default
/// explicitly, with or without the slash, is the same as naming nothing.
pub proof fn law_protocol(protocol: Option<Seq<char>>, version: Option<Seq<char>>)
    ensures
        match protocol_for(protocol, version) {
            ProtocolView::Prefix(text) => text.len() > 0 && text[0] == '/',
            ProtocolView::Exact(text) => text.len() > 0 && text[0] == '/',
        },
        protocol_for(None, None) == protocol_for(
            Some(DEFAULT_PROTOCOL@),
            Some(DEFAULT_PROTOCOL_VERSION@),
        ),
        protocol_for(None, None) == protocol_for(
            Some("/"@ + DEFAULT_PROTOCOL@),
            Some(DEFAULT_PROTOCOL_VERSION@),
        ),
        protocol_for(None, None) == ProtocolView::Exact("/gnostr/0.0.1"@),
{
    reveal_strlit("/");
    reveal_strlit("gnostr");
    reveal_strlit("0.0.1");
    reveal_strlit("/gnostr/0.0.1");
    assert(rooted(DEFAULT_PROTOCOL@) + "/"@ + DEFAULT_PROTOCOL_VERSION@ =~= "/gnostr/0.0.1"@);
    assert(rooted("/"@ + DEFAULT_PROTOCOL@) =~= rooted(DEFAULT_PROTOCOL@));
}

/// A line about one id of the local memory pool.
#[derive(Debug)]
pub struct MempoolLine {
    /// Which it is, from 1.
    pub index: usize,
    /// How many there are.
    pub total: usize,
    pub txid: String,
}

/// The lines about the local memory pool: one for each id, in order.
pub fn log_local_mempool(txids: &Vec<String>) -> (lines: Vec<MempoolLine>)
    ensures
        lines@.len() == txids@.len(),
        forall|i: int|
            0 <= i < lines@.len() ==> {
                &&& (#[trigger] lines@[i]).index == i + 1
                &&& lines@[i].total == txids@.len()
                &&& lines@[i].txid@ == discover::texts(txids@)[i]
            },
{
    let mut lines: Vec<MempoolLine> = Vec::new();
    for i in 0..txids.len()
        invariant
            lines@.len() == i,
            forall|j: int|
                0 <= j < lines@.len() ==> {
                    &&& (#[trigger] lines@[j]).index == j + 1
                    &&& lines@[j].total == txids@.len()
                    &&& lines@[j].txid@ == discover::texts(txids@)[j]
                },
    {
        lines.push(MempoolLine { index: i + 1, total: txids.len(), txid: txids[i].clone() });
    }
    lines
}

/// What happens to a node that takes up a message: one that starts with a transaction is dealt with as
/// its sort of node does, in the node's mode and with the whole of the message, and the transaction is
/// from then on known; one that does not is refused, which stops a node in the foreground that sends
/// on and no other.
pub proof fn law_node_takes_messages<P, A>(
    before: NodeView,
    data: Seq<u8>,
    after: NodeView,
    reaction: NodeReaction<P, A>,
)
    requires
        takes_message(before, data, after, reaction),
    ensures
        match tx::leading_transaction(data) {
            Some(raw) => {
                let txid = tx::computed_txid(raw);
                let known = before.seen.contains(txid);
                &&& after == (NodeView { seen: before.seen.insert(txid), ..before })
                &&& reaction matches NodeReaction::Deal(task)
                &&& task@.txid == txid
                &&& task@.tx_hex == hexcode::hex_text(data)
                &&& task@.tor_only == before.tor_only
                &&& task@.purpose == if before.kind is Watcher {
                    Purpose::Observe { local: before.local, remote: before.remote }
                } else {
                    Purpose::Handle
                }
                &&& known ==> task@.stage == TaskStage::Done(Ok(()))
                &&& !known && !(before.kind is Watcher) ==> task@.stage == TaskStage::Listing
                &&& !known && before.kind is Watcher ==> task@.stage == if before.local {
                    TaskStage::Listing
                } else if before.remote {
                    TaskStage::Reporting
                } else {
                    TaskStage::Done(Ok(()))
                }
            },
            None => {
                &&& reaction matches NodeReaction::Refuse(error)
                &&& error == TxError::Decode
                &&& before.kind is Topic ==> after == (NodeView { running: false, ..before })
                &&& !(before.kind is Topic) ==> after == before
            },
        },
{
}

/// How a node answers every event while it runs. Messages are taken up. Discovered peers are added and
/// dialled, one after another, and those that have gone are dropped. Only a node in the background
/// publishes what is queued and stops when nobody can queue any more; only one in the foreground stops
/// when the user wants an end. A node that has stopped does nothing.
pub proof fn law_node_answers<P, A>(
    before: NodeView,
    event: NodeEvent<P, A>,
    after: NodeView,
    reaction: NodeReaction<P, A>,
)
    requires
        reacts(before, event, after, reaction),
    ensures
        !before.running ==> after == before && reaction is Stop,
        before.running ==> match event {
            NodeEvent::Message(data) => takes_message(before, data@, after, reaction),
            NodeEvent::Discovered(peers) => {
                &&& after == before
                &&& reaction matches NodeReaction::Peers(commands)
                &&& commands@.len() == 2 * peers@.len()
                &&& forall|i: int|
                    0 <= i < peers@.len() ==> {
                        &&& commands@[2 * i] == PeerCommand::<P, A>::Add((#[trigger] peers@[i]).0)
                        &&& commands@[2 * i + 1] == PeerCommand::<P, A>::Dial(peers@[i].1)
                    }
            },
            NodeEvent::Expired(peers) => {
                &&& after == before
                &&& reaction matches NodeReaction::Peers(commands)
                &&& commands@.len() == peers@.len()
                &&& forall|i: int|
                    0 <= i < peers@.len() ==> commands@[i] == PeerCommand::<P, A>::Remove(
                        (#[trigger] peers@[i]).0,
                    )
            },
            NodeEvent::Queued(tx_hex) => {
                &&& before.kind is Relay ==> match reaction {
                    NodeReaction::Publish(p) => after == before && topic::publishes(
                        tx_hex@,
                        Ok(p@),
                    ),
                    NodeReaction::Refuse(error) => after == before && topic::publishes(
                        tx_hex@,
                        Err(error),
                    ),
                    _ => false,
                }
                &&& !(before.kind is Relay) ==> after == before && reaction is Ignore
            },
            NodeEvent::QueueClosed => {
                &&& before.kind is Relay ==> after == (NodeView { running: false, ..before })
                    && reaction is Stop
                &&& !(before.kind is Relay) ==> after == before && reaction is Ignore
            },
            NodeEvent::Interrupted => {
                &&& before.kind is Relay ==> after == before && reaction is Ignore
                &&& !(before.kind is Relay) ==> after == (NodeView { running: false, ..before })
                    && reaction is Stop
            },
            NodeEvent::Other => after == before && reaction is Ignore,
        },
{
    if before.running {
        match event {
            NodeEvent::Discovered(peers) => {
                assert forall|i: int| 0 <= i < peers@.len() implies {
                    &&& greetings::<P, A>(peers@)[2 * i] == PeerCommand::<P, A>::Add(
                        (#[trigger] peers@[i]).0,
                    )
                    &&& greetings::<P, A>(peers@)[2 * i + 1] == PeerCommand::<P, A>::Dial(
                        peers@[i].1,
                    )
                } by {
                    lemma_greetings(peers@, i);
                }
                lemma_greetings_len(peers@);
            },
            _ => {},
        }
    }
}

/// There are two commands for each peer that is greeted.
proof fn lemma_greetings_len<P, A>(peers: Seq<(P, A)>)
    ensures
        greetings(peers).len() == 2 * peers.len(),
    decreases peers.len(),
{
    if peers.len() > 0 {
        lemma_greetings_len(peers.drop_first());
    }
}

/// The commands for one of the peers that are greeted.
proof fn lemma_greetings<P, A>(peers: Seq<(P, A)>, i: int)
    requires
        0 <= i < peers.len(),
    ensures
        greetings(peers)[2 * i] == PeerCommand::<P, A>::Add(peers[i].0),
        greetings(peers)[2 * i + 1] == PeerCommand::<P, A>::Dial(peers[i].1),
    decreases peers.len(),
{
    if i > 0 {
        let rest = peers.drop_first();
        lemma_greetings(rest, i - 1);
        lemma_greetings_len(rest);
        assert(rest[i - 1] == peers[i]);
    }
}

/// What a node that is asked to publish does, and what a failure does to a node: it stops one in the
/// foreground that sends on, and changes nothing else of any.
pub proof fn law_failures_of_nodes<P, A>(
    before: NodeView,
    tx_hex: Seq<char>,
    after: NodeView,
    reaction: NodeReaction<P, A>,
)
    ensures
        before.kind is Topic ==> failed(before) == (NodeView { running: false, ..before }),
        !(before.kind is Topic) ==> failed(before) == before,
        takes_publication(before, tx_hex, after, reaction) ==> match reaction {
            NodeReaction::Publish(p) => after == before && topic::publishes(tx_hex, Ok(p@)),
            NodeReaction::Refuse(error) => {
                &&& topic::publishes(tx_hex, Err(error))
                &&& before.kind is Topic ==> after == (NodeView { running: false, ..before })
                &&& !(before.kind is Topic) ==> after == before
            },
            _ => false,
        },
        TOPIC_LABEL@ == "topic-cli"@,
{
}

/// The protocol for any names: a prefix alone stands for every version of it; with a version it is the
/// prefix, a slash and the version; where no prefix is named it is `/gnostr`, and where nothing is
/// named its version 0.0.1. A prefix gets a slash in front unless it has one.
pub proof fn law_protocol_of_names(prefix: Seq<char>, version: Seq<char>, text: String)
    ensures
        ({
            let root = if prefix.len() > 0 && prefix[0] == '/' {
                prefix
            } else {
                "/"@ + prefix
            };
            &&& protocol_for(Some(prefix), None) == ProtocolView::Prefix(root)
            &&& protocol_for(Some(prefix), Some(version)) == ProtocolView::Exact(
                root + "/"@ + version,
            )
            &&& protocol_for(None, Some(version)) == ProtocolView::Exact("/gnostr/"@ + version)
            &&& protocol_for(None, None) == ProtocolView::Exact("/gnostr/0.0.1"@)
        }),
        named(Some(text)) == Some(text@),
        named(None) is None,
        Protocol::Prefix(text)@ == ProtocolView::Prefix(text@),
        Protocol::Exact(text)@ == ProtocolView::Exact(text@),
{
    law_protocol(None, None);
    reveal_strlit("/");
    reveal_strlit("gnostr");
    reveal_strlit("/gnostr/");
    assert(rooted(DEFAULT_PROTOCOL@) + "/"@ + version =~= "/gnostr/"@ + version);
}

} // verus!
