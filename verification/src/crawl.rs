//! Asking a seed node for the addresses of peers.
use crate::address;
use crate::address::{
    has_services, IpHost, NetworkAddress, NetworkAddressView, SocketAddress, NODE_LIBRE_RELAY,
};
use crate::onion;
use crate::onion::tor_v3_onion_from_pubkey;
use crate::session;
use crate::session::{
    connect_result, send_result, Action, ActionView, Patience, PeerError, PeerEvent, PeerEventView,
    CONNECTION_TIMEOUT_SECS,
};
use crate::shuffle;
use crate::wire::{
    AddrEntry, AddrV2Entry, AddrV2Host, Message, MessageView, Request, RequestView,
};
use vstd::prelude::*;
use vstd::string::*;

verus! {

/// The socket address that the 16 bytes of an address stand for: an IPv4 address where they map or
/// embed one, else an IPv6 address, and none where they stand for an onion service of the
/// retired kind.
pub open spec fn socket_of(words: Seq<u16>, port: u16) -> Option<SocketAddress> {
    if words[0] == 0xfd87 && words[1] == 0xd87e && words[2] == 0xeb43 {
        None
    } else if words.take(5) == seq![0u16, 0, 0, 0, 0] && (words[5] == 0 || words[5] == 0xffff) {
        Some(
            SocketAddress {
                host: IpHost::V4(
                    [
                        (words[6] / 256) as u8,
                        (words[6] % 256) as u8,
                        (words[7] / 256) as u8,
                        (words[7] % 256) as u8,
                    ],
                ),
                port,
            },
        )
    } else {
        Some(
            SocketAddress {
                host: IpHost::V6(
                    [
                        words[0],
                        words[1],
                        words[2],
                        words[3],
                        words[4],
                        words[5],
                        words[6],
                        words[7],
                    ],
                ),
                port,
            },
        )
    }
}

/// The socket address that an entry stands for.
pub fn socket_addr(entry: &AddrEntry) -> (r: Option<SocketAddress>)
    ensures
        r == socket_of(entry.address@, entry.port),
{
    let w = entry.address;
    let ghost words = w@;
    if w[0] == 0xfd87 && w[1] == 0xd87e && w[2] == 0xeb43 {
        return None;
    }
    if w[0] == 0 && w[1] == 0 && w[2] == 0 && w[3] == 0 && w[4] == 0 && (w[5] == 0 || w[5]
        == 0xffff) {
        assert(words.take(5) =~= seq![0u16, 0, 0, 0, 0]);
        let octets: [u8; 4] = [
            (w[6] / 256) as u8,
            (w[6] % 256) as u8,
            (w[7] / 256) as u8,
            (w[7] % 256) as u8,
        ];
        Some(SocketAddress { host: IpHost::V4(octets), port: entry.port })
    } else {
        assert(words.take(5) != seq![0u16, 0, 0, 0, 0] || !(words[5] == 0 || words[5] == 0xffff))
            by {
            if words.take(5) == seq![0u16, 0, 0, 0, 0] {
                assert(words.take(5)[0] == 0 && words.take(5)[1] == 0 && words.take(5)[2] == 0
                    && words.take(5)[3] == 0 && words.take(5)[4] == 0);
            }
        }
        assert(w =~= [w[0], w[1], w[2], w[3], w[4], w[5], w[6], w[7]]);
        Some(SocketAddress { host: IpHost::V6(w), port: entry.port })
    }
}

/// The host name of the onion service with a key.
pub open spec fn onion_host(key: Seq<u8>) -> Seq<char> {
    onion::onion_text(key, onion::sha3_256_digest(onion::checksum_input(key)).take(2))
}

/// The peer that an entry of an `addr` message names, if it offers the relay service and can be
/// reached.
pub open spec fn libre_addr(entry: AddrEntry) -> Option<NetworkAddressView> {
    if !address::offers(entry.services, NODE_LIBRE_RELAY) {
        None
    } else {
        match socket_of(entry.address@, entry.port) {
            Some(socket) => Some(NetworkAddressView::Ip(socket)),
            None => None,
        }
    }
}

/// The peer that an entry of an `addrv2` message names, if it offers the relay service and is on a
/// network that can be reached.
pub open spec fn libre_addr_v2(entry: AddrV2Entry) -> Option<NetworkAddressView> {
    if !address::offers(entry.services, NODE_LIBRE_RELAY) {
        None
    } else {
        match entry.host {
            AddrV2Host::Ipv4(octets) => Some(
                NetworkAddressView::Ip(
                    SocketAddress { host: IpHost::V4(octets), port: entry.port },
                ),
            ),
            AddrV2Host::Ipv6(words) => Some(
                NetworkAddressView::Ip(SocketAddress { host: IpHost::V6(words), port: entry.port }),
            ),
            AddrV2Host::TorV3(key) => Some(NetworkAddressView::Onion(onion_host(key@))),
            AddrV2Host::Other => None,
        }
    }
}

/// The peers that the entries of an `addr` message name, in order.
pub open spec fn libre_addrs(list: Seq<AddrEntry>) -> Seq<NetworkAddressView>
    decreases list.len(),
{
    if list.len() == 0 {
        Seq::empty()
    } else {
        match libre_addr(list.last()) {
            Some(peer) => libre_addrs(list.drop_last()).push(peer),
            None => libre_addrs(list.drop_last()),
        }
    }
}

/// The peers that the entries of an `addrv2` message name, in order.
pub open spec fn libre_addrs_v2(list: Seq<AddrV2Entry>) -> Seq<NetworkAddressView>
    decreases list.len(),
{
    if list.len() == 0 {
        Seq::empty()
    } else {
        match libre_addr_v2(list.last()) {
            Some(peer) => libre_addrs_v2(list.drop_last()).push(peer),
            None => libre_addrs_v2(list.drop_last()),
        }
    }
}

/// The peers that the entries of an `addr` message name.
pub fn libre_peers(list: &Vec<AddrEntry>) -> (peers: Vec<NetworkAddress>)
    ensures
        address::address_views(peers@) == libre_addrs(list@),
{
    let mut peers: Vec<NetworkAddress> = Vec::new();
    assert(address::address_views(peers@) =~= libre_addrs(list@.take(0)));
    for i in 0..list.len()
        invariant
            address::address_views(peers@) == libre_addrs(list@.take(i as int)),
    {
        assert(list@.take(i + 1).drop_last() =~= list@.take(i as int));
        let ghost before = peers@;
        if has_services(list[i].services, NODE_LIBRE_RELAY) {
            if let Some(socket) = socket_addr(&list[i]) {
                let peer = NetworkAddress::Ip(socket);
                peers.push(peer);
                assert(address::address_views(peers@) =~= address::address_views(before).push(
                    peer@,
                ));
            }
        }
    }
    assert(list@.take(list@.len() as int) =~= list@);
    peers
}

/// The peers that the entries of an `addrv2` message name.
pub fn libre_peers_v2(list: &Vec<AddrV2Entry>) -> (peers: Vec<NetworkAddress>)
    ensures
        address::address_views(peers@) == libre_addrs_v2(list@),
{
    let mut peers: Vec<NetworkAddress> = Vec::new();
    assert(address::address_views(peers@) =~= libre_addrs_v2(list@.take(0)));
    for i in 0..list.len()
        invariant
            address::address_views(peers@) == libre_addrs_v2(list@.take(i as int)),
    {
        assert(list@.take(i + 1).drop_last() =~= list@.take(i as int));
        let ghost before = peers@;
        let entry = list[i];
        if has_services(entry.services, NODE_LIBRE_RELAY) {
            let peer = match entry.host {
                AddrV2Host::Ipv4(octets) => Some(
                    NetworkAddress::Ip(
                        SocketAddress { host: IpHost::V4(octets), port: entry.port },
                    ),
                ),
                AddrV2Host::Ipv6(words) => Some(
                    NetworkAddress::Ip(SocketAddress { host: IpHost::V6(words), port: entry.port }),
                ),
                AddrV2Host::TorV3(key) => Some(
                    NetworkAddress::Onion(tor_v3_onion_from_pubkey(&key)),
                ),
                AddrV2Host::Other => None,
            };
            if let Some(peer) = peer {
                let ghost peer_view = peer@;
                peers.push(peer);
                assert(address::address_views(peers@) =~= address::address_views(before).push(
                    peer_view,
                ));
            }
        }
    }
    assert(list@.take(list@.len() as int) =~= list@);
    peers
}

/// Seconds that the connection to a seed node may take.
pub const SEED_TIMEOUT_SECS: u64 = 2;

/// How far the questioning of a seed node has come.
#[derive(Clone, Copy, Debug, PartialEq, Eq)]
pub enum CrawlStage {
    Connecting,
    Introducing,
    /// Waiting for addresses, or for what has to be answered first.
    Listening,
    SendingSendAddrV2,
    SendingVerack,
    SendingGetAddr,
    /// Over, or failed.
    Done(Result<(), PeerError>),
}

/// What a [`Crawl`] says.
#[verifier::ext_equal]
pub struct CrawlView {
    /// The peers that were named.
    pub found: Seq<NetworkAddressView>,
    pub stage: CrawlStage,
}

/// The questioning of a seed node.
#[derive(Debug)]
pub struct Crawl {
    found: Vec<NetworkAddress>,
    stage: CrawlStage,
}

impl View for Crawl {
    type V = CrawlView;

    closed spec fn view(&self) -> CrawlView {
        CrawlView { found: address::address_views(self.found@), stage: self.stage }
    }
}

/// Where the questioning of a seed node begins.
pub open spec fn first_crawl() -> CrawlView {
    CrawlView { found: Seq::empty(), stage: CrawlStage::Connecting }
}

/// The action that is next.
pub open spec fn crawl_action(stage: CrawlStage) -> ActionView {
    match stage {
        CrawlStage::Connecting => ActionView::Connect { timeout_secs: SEED_TIMEOUT_SECS },
        CrawlStage::Introducing => ActionView::Send(RequestView::Version { relay: true }),
        CrawlStage::Listening => ActionView::Receive(Patience::Each(CONNECTION_TIMEOUT_SECS)),
        CrawlStage::SendingSendAddrV2 => ActionView::Send(RequestView::SendAddrV2),
        CrawlStage::SendingVerack => ActionView::Send(RequestView::Verack),
        CrawlStage::SendingGetAddr => ActionView::Send(RequestView::GetAddr),
        CrawlStage::Done(_) => ActionView::Finish,
    }
}

/// The stage after sending, `next` if it went well.
pub open spec fn after_send(
    event: PeerEventView,
    stage: CrawlStage,
    next: CrawlStage,
) -> CrawlStage {
    match session::send_outcome(event) {
        Some(Ok(_)) => next,
        Some(Err(error)) => CrawlStage::Done(Err(error)),
        None => stage,
    }
}

/// A questioning that waits, after an event: the first list of addresses ends it, and so does
/// silence.
pub open spec fn listen_step(c: CrawlView, event: PeerEventView) -> CrawlView {
    match event {
        PeerEventView::Received(MessageView::Version { .. }) => CrawlView {
            stage: CrawlStage::SendingSendAddrV2,
            ..c
        },
        PeerEventView::Received(MessageView::Verack) => CrawlView {
            stage: CrawlStage::SendingGetAddr,
            ..c
        },
        PeerEventView::Received(MessageView::Addr(list)) => CrawlView {
            found: c.found + libre_addrs(list),
            stage: CrawlStage::Done(Ok(())),
        },
        PeerEventView::Received(MessageView::AddrV2(list)) => CrawlView {
            found: c.found + libre_addrs_v2(list),
            stage: CrawlStage::Done(Ok(())),
        },
        PeerEventView::TimedOut => CrawlView { stage: CrawlStage::Done(Ok(())), ..c },
        PeerEventView::Failed => CrawlView { stage: CrawlStage::Done(Ok(())), ..c },
        _ => c,
    }
}

/// A questioning after an event.
pub open spec fn next_crawl(c: CrawlView, event: PeerEventView) -> CrawlView {
    match c.stage {
        CrawlStage::Connecting => match session::connect_outcome(event) {
            Some(Ok(_)) => CrawlView { stage: CrawlStage::Introducing, ..c },
            Some(Err(error)) => CrawlView { stage: CrawlStage::Done(Err(error)), ..c },
            None => c,
        },
        CrawlStage::Introducing => CrawlView {
            stage: after_send(event, c.stage, CrawlStage::Listening),
            ..c
        },
        CrawlStage::Listening => listen_step(c, event),
        CrawlStage::SendingSendAddrV2 => CrawlView {
            stage: after_send(event, c.stage, CrawlStage::SendingVerack),
            ..c
        },
        CrawlStage::SendingVerack => CrawlView {
            stage: after_send(event, c.stage, CrawlStage::Listening),
            ..c
        },
        CrawlStage::SendingGetAddr => CrawlView {
            stage: after_send(event, c.stage, CrawlStage::Listening),
            ..c
        },
        CrawlStage::Done(_) => c,
    }
}

/// The stage after sending, `next` if it went well.
fn sent(event: &PeerEvent, stage: CrawlStage, next: CrawlStage) -> (r: CrawlStage)
    ensures
        r == after_send(event@, stage, next),
{
    match send_result(event) {
        Some(Ok(_)) => next,
        Some(Err(error)) => CrawlStage::Done(Err(error)),
        None => stage,
    }
}

/// Starts the questioning of a seed node.
pub fn crawl_seed_node() -> (c: Crawl)
    ensures
        c@ == first_crawl(),
{
    let c = Crawl { found: Vec::new(), stage: CrawlStage::Connecting };
    assert(c@ =~= first_crawl());
    c
}

impl Crawl {
    /// What to do next.
    pub fn action(&self) -> (action: Action)
        ensures
            action@ == crawl_action(self@.stage),
    {
        match self.stage {
            CrawlStage::Connecting => Action::Connect { timeout_secs: SEED_TIMEOUT_SECS },
            CrawlStage::Introducing => Action::Send(Request::Version { relay: true }),
            CrawlStage::Listening => Action::Receive(Patience::Each(CONNECTION_TIMEOUT_SECS)),
            CrawlStage::SendingSendAddrV2 => Action::Send(Request::SendAddrV2),
            CrawlStage::SendingVerack => Action::Send(Request::Verack),
            CrawlStage::SendingGetAddr => Action::Send(Request::GetAddr),
            CrawlStage::Done(_) => Action::Finish,
        }
    }

    /// Moves on with what came of the action.
    pub fn on_event(&mut self, event: &PeerEvent)
        ensures
            final(self)@ == next_crawl(old(self)@, event@),
    {
        let stage = self.stage;
        match stage {
            CrawlStage::Connecting => match connect_result(event) {
                Some(Ok(_)) => {
                    self.stage = CrawlStage::Introducing;
                },
                Some(Err(error)) => {
                    self.stage = CrawlStage::Done(Err(error));
                },
                None => {},
            },
            CrawlStage::Introducing => {
                self.stage = sent(event, stage, CrawlStage::Listening);
            },
            CrawlStage::Listening => match event {
                PeerEvent::Received(Message::Version { .. }) => {
                    self.stage = CrawlStage::SendingSendAddrV2;
                },
                PeerEvent::Received(Message::Verack) => {
                    self.stage = CrawlStage::SendingGetAddr;
                },
                PeerEvent::Received(Message::Addr(list)) => {
                    let mut peers = libre_peers(list);
                    self.add(&mut peers);
                    self.stage = CrawlStage::Done(Ok(()));
                },
                PeerEvent::Received(Message::AddrV2(list)) => {
                    let mut peers = libre_peers_v2(list);
                    self.add(&mut peers);
                    self.stage = CrawlStage::Done(Ok(()));
                },
                PeerEvent::TimedOut => {
                    self.stage = CrawlStage::Done(Ok(()));
                },
                PeerEvent::Failed => {
                    self.stage = CrawlStage::Done(Ok(()));
                },
                _ => {},
            },
            CrawlStage::SendingSendAddrV2 => {
                self.stage = sent(event, stage, CrawlStage::SendingVerack);
            },
            CrawlStage::SendingVerack => {
                self.stage = sent(event, stage, CrawlStage::Listening);
            },
            CrawlStage::SendingGetAddr => {
                self.stage = sent(event, stage, CrawlStage::Listening);
            },
            CrawlStage::Done(_) => {},
        }
        assert(self@ =~= next_crawl(old(self)@, event@));
    }

    /// Adds peers to those that were found.
    fn add(&mut self, peers: &mut Vec<NetworkAddress>)
        ensures
            final(self)@ == (CrawlView {
                found: old(self)@.found + address::address_views(old(peers)@),
                ..old(self)@
            }),
    {
        self.found.append(peers);
        assert(self@.found =~= old(self)@.found + address::address_views(old(peers)@));
    }

    /// The peers that were found, in random order, or why the questioning failed; `None` while it
    /// is not over.
    pub fn into_outcome(self) -> (r: Option<Result<Vec<NetworkAddress>, PeerError>>)
        ensures
            match self@.stage {
                CrawlStage::Done(Ok(_)) => r matches Some(Ok(peers)) && shuffle::reordered(
                    address::address_views(peers@),
                    self@.found,
                ),
                CrawlStage::Done(Err(error)) => r == Some(
                    Err::<Vec<NetworkAddress>, PeerError>(error),
                ),
                _ => r is None,
            },
    {
        match self.stage {
            CrawlStage::Done(Ok(_)) => {
                let mut peers = self.found;
                let ghost before = peers@;
                shuffle::shuffle(&mut peers);
                proof {
                    shuffle::lemma_reordered_map(peers@, before, |a: NetworkAddress| a@);
                }
                Some(Ok(peers))
            },
            CrawlStage::Done(Err(error)) => Some(Err(error)),
            _ => None,
        }
    }
}

/// Whether an entry of the list names a peer that offers the relay service.
pub open spec fn names_addr(list: Seq<AddrEntry>, peer: NetworkAddressView) -> bool {
    exists|k: int|
        0 <= k < list.len() && address::offers(list[k].services, NODE_LIBRE_RELAY)
            && #[trigger] libre_addr(list[k]) == Some(peer)
}

/// Whether an entry of the list names a peer that offers the relay service.
pub open spec fn names_addr_v2(list: Seq<AddrV2Entry>, peer: NetworkAddressView) -> bool {
    exists|k: int|
        0 <= k < list.len() && address::offers(list[k].services, NODE_LIBRE_RELAY)
            && #[trigger] libre_addr_v2(list[k]) == Some(peer)
}

/// The peers taken from an `addr` message are those that its entries name with the relay service,
/// and no others.
pub proof fn law_libre_addrs(list: Seq<AddrEntry>, peer: NetworkAddressView)
    ensures
        libre_addrs(list).contains(peer) <==> names_addr(list, peer),
    decreases list.len(),
{
    if list.len() > 0 {
        let less = list.drop_last();
        law_libre_addrs(less, peer);
        let last = list.len() - 1;
        if names_addr(less, peer) {
            let k = choose|k: int|
                0 <= k < less.len() && address::offers(less[k].services, NODE_LIBRE_RELAY)
                    && #[trigger] libre_addr(less[k]) == Some(peer);
            assert(libre_addr(list[k]) == Some(peer));
        }
        if libre_addr(list[last]) == Some(peer) {
            assert(libre_addrs(list)[libre_addrs(less).len() as int] == peer);
        }
        if libre_addrs(less).contains(peer) {
            let k = choose|k: int|
                0 <= k < libre_addrs(less).len() && libre_addrs(less)[k] == peer;
            assert(libre_addrs(list)[k] == peer);
        }
        if libre_addrs(list).contains(peer) && libre_addr(list[last]) != Some(peer) {
            let k = choose|k: int|
                0 <= k < libre_addrs(list).len() && libre_addrs(list)[k] == peer;
            assert(libre_addrs(less)[k] == peer);
        }
        if names_addr(list, peer) && libre_addr(list[last]) != Some(peer) {
            let k = choose|k: int|
                0 <= k < list.len() && address::offers(list[k].services, NODE_LIBRE_RELAY)
                    && #[trigger] libre_addr(list[k]) == Some(peer);
            assert(libre_addr(less[k]) == Some(peer));
        }
    }
}

/// The peers taken from an `addrv2` message are those that its entries name with the relay
/// service, and no others.
pub proof fn law_libre_addrs_v2(list: Seq<AddrV2Entry>, peer: NetworkAddressView)
    ensures
        libre_addrs_v2(list).contains(peer) <==> names_addr_v2(list, peer),
    decreases list.len(),
{
    if list.len() > 0 {
        let less = list.drop_last();
        law_libre_addrs_v2(less, peer);
        let last = list.len() - 1;
        if names_addr_v2(less, peer) {
            let k = choose|k: int|
                0 <= k < less.len() && address::offers(less[k].services, NODE_LIBRE_RELAY)
                    && #[trigger] libre_addr_v2(less[k]) == Some(peer);
            assert(libre_addr_v2(list[k]) == Some(peer));
        }
        if libre_addr_v2(list[last]) == Some(peer) {
            assert(libre_addrs_v2(list)[libre_addrs_v2(less).len() as int] == peer);
        }
        if libre_addrs_v2(less).contains(peer) {
            let k = choose|k: int|
                0 <= k < libre_addrs_v2(less).len() && libre_addrs_v2(less)[k] == peer;
            assert(libre_addrs_v2(list)[k] == peer);
        }
        if libre_addrs_v2(list).contains(peer) && libre_addr_v2(list[last]) != Some(peer) {
            let k = choose|k: int|
                0 <= k < libre_addrs_v2(list).len() && libre_addrs_v2(list)[k] == peer;
            assert(libre_addrs_v2(less)[k] == peer);
        }
        if names_addr_v2(list, peer) && libre_addr_v2(list[last]) != Some(peer) {
            let k = choose|k: int|
                0 <= k < list.len() && address::offers(list[k].services, NODE_LIBRE_RELAY)
                    && #[trigger] libre_addr_v2(list[k]) == Some(peer);
            assert(libre_addr_v2(less[k]) == Some(peer));
        }
    }
}

/// A questioning after a row of events.
pub open spec fn crawl_after(events: Seq<PeerEventView>) -> CrawlView
    decreases events.len(),
{
    if events.len() == 0 {
        first_crawl()
    } else {
        next_crawl(crawl_after(events.drop_last()), events.last())
    }
}

/// Whether an event is a message that names a peer with the relay service.
pub open spec fn names_peer(event: PeerEventView, peer: NetworkAddressView) -> bool {
    match event {
        PeerEventView::Received(MessageView::Addr(list)) => names_addr(list, peer),
        PeerEventView::Received(MessageView::AddrV2(list)) => names_addr_v2(list, peer),
        _ => false,
    }
}

/// Whatever a seed node sends: every peer that was found was named in one message, in an entry that
/// advertises the relay service. Until the questioning is over none was found, and a failed one
/// finds none.
pub proof fn law_crawled_peers_advertise_the_relay_service(events: Seq<PeerEventView>)
    ensures
        !(crawl_after(events).stage == CrawlStage::Done(Ok(()))) ==> crawl_after(events).found.len()
            == 0,
        crawl_after(events).found.len() > 0 ==> exists|i: int|
            0 <= i < events.len() && (forall|peer: NetworkAddressView|
                crawl_after(events).found.contains(peer) <==> names_peer(
                    #[trigger] events[i],
                    peer,
                )),
    decreases events.len(),
{
    if events.len() > 0 {
        let less = events.drop_last();
        let last = events.len() - 1;
        law_crawled_peers_advertise_the_relay_service(less);
        let before = crawl_after(less);
        let after = crawl_after(events);
        if before.stage is Listening {
            assert forall|peer: NetworkAddressView|
                after.found.len() > 0 implies (after.found.contains(peer) <==> names_peer(
                #[trigger] events[last],
                peer,
            )) by {
                match events[last] {
                    PeerEventView::Received(MessageView::Addr(list)) => {
                        law_libre_addrs(list, peer);
                        assert(after.found =~= libre_addrs(list));
                    },
                    PeerEventView::Received(MessageView::AddrV2(list)) => {
                        law_libre_addrs_v2(list, peer);
                        assert(after.found =~= libre_addrs_v2(list));
                    },
                    _ => {},
                }
            }
        } else if after.found.len() > 0 {
            let i = choose|i: int|
                0 <= i < less.len() && (forall|peer: NetworkAddressView|
                    before.found.contains(peer) <==> names_peer(#[trigger] less[i], peer));
            assert(less[i] == events[i]);
        }
    }
}

/// The socket address of eight words, told from the words: five words of zeros and one of zeros or of
/// ones leave an IPv4 address in the last two; the prefix of retired onion names stands for none;
/// every other row of words is an IPv6 address as it stands. The port is kept.
pub proof fn law_socket_of(words: Seq<u16>, port: u16)
    requires
        words.len() == 8,
    ensures
        words[0] == 64903 && words[1] == 55422 && words[2] == 60227 <==> socket_of(
            words,
            port,
        ) is None,
        words[0] == 0 && words[1] == 0 && words[2] == 0 && words[3] == 0 && words[4] == 0 && (
        words[5] == 0 || words[5] == 65535) ==> {
            &&& socket_of(words, port) matches Some(socket)
            &&& socket.port == port
            &&& socket.host matches IpHost::V4(octets)
            &&& 256 * octets[0] + octets[1] == words[6]
            &&& 256 * octets[2] + octets[3] == words[7]
        },
        !(words[0] == 0 && words[1] == 0 && words[2] == 0 && words[3] == 0 && words[4] == 0 && (
        words[5] == 0 || words[5] == 65535)) && !(words[0] == 64903 && words[1] == 55422
            && words[2] == 60227) ==> {
            &&& socket_of(words, port) matches Some(socket)
            &&& socket.port == port
            &&& socket.host matches IpHost::V6(segments)
            &&& segments@ == words
        },
{
    let zeros = seq![0u16, 0, 0, 0, 0];
    if words.take(5) == zeros {
        assert(words.take(5)[0] == 0 && words.take(5)[1] == 0 && words.take(5)[2] == 0
            && words.take(5)[3] == 0 && words.take(5)[4] == 0);
    }
    if words[0] == 0 && words[1] == 0 && words[2] == 0 && words[3] == 0 && words[4] == 0 {
        assert(words.take(5) =~= zeros);
    }
    if let Some(socket) = socket_of(words, port) {
        if let IpHost::V6(segments) = socket.host {
            assert(segments@ =~= words);
        }
    }
}

/// An entry of an `addr` message with bit 29 among its services, whatever the others, names the peer
/// at the socket address that its bytes stand for, and every list that holds the entry yields that
/// peer; an entry without the bit names nobody.
pub proof fn law_addr_entry_names_its_peer(
    entry: AddrEntry,
    before: Seq<AddrEntry>,
    after: Seq<AddrEntry>,
)
    ensures
        ({
            let libre = (entry.services / 536_870_912) % 2 == 1;
            let alone = libre_addrs(seq![entry]);
            &&& libre ==> match socket_of(entry.address@, entry.port) {
                Some(socket) => alone == seq![NetworkAddressView::Ip(socket)],
                None => alone.len() == 0,
            }
            &&& !libre ==> alone.len() == 0
            &&& libre_addrs(before + seq![entry] + after) == libre_addrs(before) + alone
                + libre_addrs(after)
        }),
        libre_addrs(Seq::empty()).len() == 0,
{
    address::law_libre_relay_is_one_bit(entry.services);
    reveal_with_fuel(libre_addrs, 2);
    assert(seq![entry].drop_last() =~= Seq::<AddrEntry>::empty());
    assert(seq![entry].last() == entry);
    if let Some(socket) = socket_of(entry.address@, entry.port) {
        assert(Seq::<NetworkAddressView>::empty().push(NetworkAddressView::Ip(socket)) =~= seq![
            NetworkAddressView::Ip(socket),
        ]);
    }
    law_libre_addrs_append(before, seq![entry]);
    law_libre_addrs_append(before + seq![entry], after);
}

/// The peers of two lists, one after the other, are those of the first and then those of the second.
pub proof fn law_libre_addrs_append(a: Seq<AddrEntry>, b: Seq<AddrEntry>)
    ensures
        libre_addrs(a + b) == libre_addrs(a) + libre_addrs(b),
    decreases b.len(),
{
    if b.len() == 0 {
        assert(a + b =~= a);
        assert(libre_addrs(a) + libre_addrs(b) =~= libre_addrs(a));
    } else {
        assert((a + b).drop_last() =~= a + b.drop_last());
        law_libre_addrs_append(a, b.drop_last());
        assert(libre_addrs(a + b) =~= libre_addrs(a) + libre_addrs(b));
    }
}

/// An entry of an `addrv2` message with bit 29 among its services, whatever the others, names the
/// peer at its IPv4 or IPv6 address and port, or behind the onion service with its key, and every
/// list that holds the entry yields that peer. An entry without the bit, or on another network,
/// names nobody.
pub proof fn law_addr_v2_entry_names_its_peer(
    entry: AddrV2Entry,
    before: Seq<AddrV2Entry>,
    after: Seq<AddrV2Entry>,
)
    ensures
        ({
            let libre = (entry.services / 536_870_912) % 2 == 1;
            let alone = libre_addrs_v2(seq![entry]);
            &&& libre ==> match entry.host {
                AddrV2Host::Ipv4(octets) => alone == seq![
                    NetworkAddressView::Ip(
                        SocketAddress { host: IpHost::V4(octets), port: entry.port },
                    ),
                ],
                AddrV2Host::Ipv6(words) => alone == seq![
                    NetworkAddressView::Ip(
                        SocketAddress { host: IpHost::V6(words), port: entry.port },
                    ),
                ],
                AddrV2Host::TorV3(key) => alone == seq![
                    NetworkAddressView::Onion(
                        onion::onion_text(
                            key@,
                            onion::sha3_256_digest(onion::checksum_input(key@)).take(2),
                        ),
                    ),
                ],
                AddrV2Host::Other => alone.len() == 0,
            }
            &&& !libre ==> alone.len() == 0
            &&& libre_addrs_v2(before + seq![entry] + after) == libre_addrs_v2(before) + alone
                + libre_addrs_v2(after)
        }),
        libre_addrs_v2(Seq::empty()).len() == 0,
{
    address::law_libre_relay_is_one_bit(entry.services);
    reveal_with_fuel(libre_addrs_v2, 2);
    assert(seq![entry].drop_last() =~= Seq::<AddrV2Entry>::empty());
    assert(seq![entry].last() == entry);
    let none = Seq::<NetworkAddressView>::empty();
    if let Some(peer) = libre_addr_v2(entry) {
        assert(none.push(peer) =~= seq![peer]);
    }
    law_libre_addrs_v2_append(before, seq![entry]);
    law_libre_addrs_v2_append(before + seq![entry], after);
}

/// The peers of two lists, one after the other, are those of the first and then those of the second.
pub proof fn law_libre_addrs_v2_append(a: Seq<AddrV2Entry>, b: Seq<AddrV2Entry>)
    ensures
        libre_addrs_v2(a + b) == libre_addrs_v2(a) + libre_addrs_v2(b),
    decreases b.len(),
{
    if b.len() == 0 {
        assert(a + b =~= a);
        assert(libre_addrs_v2(a) + libre_addrs_v2(b) =~= libre_addrs_v2(a));
    } else {
        assert((a + b).drop_last() =~= a + b.drop_last());
        law_libre_addrs_v2_append(a, b.drop_last());
        assert(libre_addrs_v2(a + b) =~= libre_addrs_v2(a) + libre_addrs_v2(b));
    }
}

/// Where the questioning of a seed node begins, and what is said and awaited at each stage: 2 seconds
/// for the connection, an introduction that asks for announcements, and 12 seconds for each message.
pub proof fn law_crawl_speaks(result: Result<(), PeerError>)
    ensures
        first_crawl().found.len() == 0,
        first_crawl().stage is Connecting,
        crawl_action(CrawlStage::Connecting) == (ActionView::Connect { timeout_secs: 2 }),
        crawl_action(CrawlStage::Introducing) == ActionView::Send(
            RequestView::Version { relay: true },
        ),
        crawl_action(CrawlStage::Listening) == ActionView::Receive(Patience::Each(12)),
        crawl_action(CrawlStage::SendingSendAddrV2) == ActionView::Send(RequestView::SendAddrV2),
        crawl_action(CrawlStage::SendingVerack) == ActionView::Send(RequestView::Verack),
        crawl_action(CrawlStage::SendingGetAddr) == ActionView::Send(RequestView::GetAddr),
        crawl_action(CrawlStage::Done(result)) is Finish,
{
}

/// How the questioning of a seed node answers every event. An introduction is answered with the wish
/// for long addresses and an acknowledgement, an acknowledgement with the request for addresses. The
/// first list of addresses, of either sort, ends the questioning with the peers that it names; so
/// do silence and a broken connection, with nobody more. Everything else is passed over.
pub proof fn law_crawl_answers(c: CrawlView, event: PeerEventView)
    ensures
        c.stage is Connecting ==> ({
            let n = next_crawl(c, event);
            &&& n.found == c.found
            &&& n.stage == CrawlStage::Introducing <==> event is Connected
            &&& n.stage == CrawlStage::Done(Err(PeerError::ConnectTimeout)) <==> event is TimedOut
            &&& n.stage == CrawlStage::Done(Err(PeerError::Connect)) <==> event is Failed
            &&& n.stage == CrawlStage::Connecting <==> event is Sent || event is Received
        }),
        c.stage is Introducing || c.stage is SendingVerack || c.stage is SendingGetAddr ==> ({
            let n = next_crawl(c, event);
            &&& n.found == c.found
            &&& n.stage == CrawlStage::Listening <==> event is Sent
            &&& n.stage == CrawlStage::Done(Err(PeerError::Send)) <==> event is Failed
            &&& n.stage == c.stage <==> !(event is Sent || event is Failed)
        }),
        c.stage is SendingSendAddrV2 ==> ({
            let n = next_crawl(c, event);
            &&& n.found == c.found
            &&& n.stage == CrawlStage::SendingVerack <==> event is Sent
            &&& n.stage == CrawlStage::Done(Err(PeerError::Send)) <==> event is Failed
            &&& n.stage == CrawlStage::SendingSendAddrV2 <==> !(event is Sent || event is Failed)
        }),
        c.stage is Listening ==> ({
            let n = next_crawl(c, event);
            &&& n.found == match event {
                PeerEventView::Received(MessageView::Addr(list)) => c.found + libre_addrs(list),
                PeerEventView::Received(MessageView::AddrV2(list)) => c.found + libre_addrs_v2(
                    list,
                ),
                _ => c.found,
            }
            &&& n.stage == CrawlStage::SendingSendAddrV2 <==> (
            event matches PeerEventView::Received(m) && m is Version)
            &&& n.stage == CrawlStage::SendingGetAddr <==> (event matches PeerEventView::Received(m)
                && m is Verack)
            &&& n.stage == CrawlStage::Done(Ok(())) <==> {
                ||| event is TimedOut
                ||| event is Failed
                ||| (event matches PeerEventView::Received(m) && (m is Addr || m is AddrV2))
            }
            &&& n.stage == CrawlStage::Listening <==> {
                ||| event is Connected
                ||| event is Sent
                ||| (event matches PeerEventView::Received(m) && !(m is Version || m is Verack || m
                    is Addr || m is AddrV2))
            }
        }),
        c.stage is Done ==> next_crawl(c, event) == c,
{
}

/// A seed node that keeps to the protocol is asked for its addresses and yields just the peers that
/// its answer names.
pub proof fn law_crawl_yields_the_answer(
    services: u64,
    user_agent: Seq<char>,
    addrs: Seq<AddrEntry>,
    addrs_v2: Seq<AddrV2Entry>,
)
    ensures
        ({
            let sent = PeerEventView::Sent;
            let asked = seq![
                PeerEventView::Connected,
                sent,
                PeerEventView::Received(MessageView::Version { services, user_agent }),
                sent,
                sent,
                PeerEventView::Received(MessageView::Verack),
                sent,
            ];
            let old = crawl_after(asked.push(PeerEventView::Received(MessageView::Addr(addrs))));
            let new = crawl_after(
                asked.push(PeerEventView::Received(MessageView::AddrV2(addrs_v2))),
            );
            &&& crawl_action(crawl_after(asked.take(6)).stage) == ActionView::Send(
                RequestView::GetAddr,
            )
            &&& old.stage == CrawlStage::Done(Ok(())) && old.found == libre_addrs(addrs)
            &&& new.stage == CrawlStage::Done(Ok(())) && new.found == libre_addrs_v2(addrs_v2)
        }),
{
    let sent = PeerEventView::Sent;
    let asked = seq![
        PeerEventView::Connected,
        sent,
        PeerEventView::Received(MessageView::Version { services, user_agent }),
        sent,
        sent,
        PeerEventView::Received(MessageView::Verack),
        sent,
    ];
    reveal_with_fuel(crawl_after, 8);
    assert(asked.take(6) =~= asked.drop_last());
    let a = PeerEventView::Received(MessageView::Addr(addrs));
    let b = PeerEventView::Received(MessageView::AddrV2(addrs_v2));
    assert(asked.push(a).drop_last() =~= asked);
    assert(asked.push(b).drop_last() =~= asked);
    assert(crawl_after(asked) == CrawlView { stage: CrawlStage::Listening, ..first_crawl() });
    assert(crawl_after(asked.push(a)).found =~= libre_addrs(addrs));
    assert(crawl_after(asked.push(b)).found =~= libre_addrs_v2(addrs_v2));
}

} // verus!
