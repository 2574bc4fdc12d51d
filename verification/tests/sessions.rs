use tx_pigeon::address::{IpHost, NetworkAddress, SocketAddress};
use tx_pigeon::blast::{
    blast_transaction, blast_transaction_hex, count_accepted, DeliveryOutcome,
    MAX_CONCURRENT_DELIVERIES,
};
use tx_pigeon::crawl::{crawl_seed_node, libre_peers, libre_peers_v2, socket_addr, Crawl};
use tx_pigeon::deliver::{deliver_poop_tx, Delivery};
use tx_pigeon::discover::discover_libre_peers;
use tx_pigeon::fetch_peer::{fetch_peer_transactions, PeerFetch};
use tx_pigeon::gather::{fetch_transactions, FetchJob, Gathering};
use tx_pigeon::hexcode::HexError;
use tx_pigeon::onion::tor_v3_onion_from_pubkey;
use tx_pigeon::session::{Action, Patience, PeerError, PeerEvent};
use tx_pigeon::tor::TorMode;
use tx_pigeon::tx::{deserialize_transaction_hex, Tx, TxError, Txid};
use tx_pigeon::wire::{
    AddrEntry, AddrV2Entry, AddrV2Host, InvItem, Message, Request,
};

const GENESIS: &str = "01000000010000000000000000000000000000000000000000000000000000000000000000ffffffff4d04ffff001d0104455468652054696d65732030332f4a616e2f32303039204368616e63656c6c6f72206f6e206272696e6b206f66207365636f6e64206261696c6f757420666f722062616e6b73ffffffff0100f2052a01000000434104678afdb0fe5548271967f1a67130b7105cd6a828e03909a67962e0ea1f61deb649f6bc3f4cef38c4f35504e51ec112de5c384df7ba0b8d578a4c702b6bf11d5fac00000000";
const SEGWIT: &str = "02000000000101000102030405060708090a0b0c0d0e0f101112131415161718191a1b1c1d1e1f0000000000fdffffff01e803000000000000036a012a0102aabb00000000";
const THIRD: &str = "020000000107070707070707070707070707070707070707070707070707070707070707070000000000ffffffff01e803000000000000036a012a00000000";
const LIBRE: u64 = 1 << 29;

fn ip() -> NetworkAddress {
    NetworkAddress::Ip(SocketAddress { host: IpHost::V4([1, 2, 3, 4]), port: 8333 })
}

fn onion() -> NetworkAddress {
    NetworkAddress::Onion("abc.onion".to_string())
}

fn tx(text: &str) -> Tx {
    deserialize_transaction_hex(text).unwrap()
}

fn item(text: &str) -> InvItem {
    InvItem::Transaction(tx(text).txid())
}

fn version(services: u64) -> PeerEvent {
    PeerEvent::Received(Message::Version { services, user_agent: "/peer/".to_string() })
}

fn received(message: Message) -> PeerEvent {
    PeerEvent::Received(message)
}

fn delivery(tor_only: bool, to: &NetworkAddress) -> Delivery {
    deliver_poop_tx(to, tx(GENESIS), &TorMode { only: tor_only }, true)
}

fn up_to_receipt() -> Delivery {
    let mut d = delivery(false, &ip());
    for event in [
        PeerEvent::Connected,
        PeerEvent::Sent,
        version(LIBRE),
        PeerEvent::Sent,
        PeerEvent::Sent,
        PeerEvent::Sent,
    ] {
        d.on_event(&event);
    }
    d
}

#[test]
fn a_delivery_goes_step_by_step() {
    let mut d = delivery(false, &ip());
    assert!(matches!(d.action(), Action::Connect { timeout_secs: 12 }));
    d.on_event(&PeerEvent::Sent);
    assert!(matches!(d.action(), Action::Connect { .. }));
    d.on_event(&PeerEvent::Connected);
    assert!(matches!(d.action(), Action::Send(Request::Version { relay: true })));
    d.on_event(&PeerEvent::Sent);
    assert!(matches!(d.action(), Action::Receive(Patience::Total(5))));
    d.on_event(&received(Message::Verack));
    assert!(matches!(d.action(), Action::Receive(Patience::Total(5))));
    d.on_event(&version(1 | LIBRE));
    assert!(matches!(d.action(), Action::Send(Request::Verack)));
    d.on_event(&PeerEvent::Sent);
    match d.action() {
        Action::Send(Request::Tx(sent)) => assert_eq!(sent.raw(), tx(GENESIS).raw()),
        other => panic!("{other:?}"),
    }
    d.on_event(&PeerEvent::Sent);
    match d.action() {
        Action::Send(Request::GetData(ids)) => assert_eq!(ids, vec![tx(GENESIS).txid()]),
        other => panic!("{other:?}"),
    }
    d.on_event(&PeerEvent::Sent);
    assert!(matches!(d.action(), Action::Receive(Patience::Each(12))));
    d.on_event(&received(Message::Tx(tx(SEGWIT))));
    assert_eq!(d.outcome(), None);
    d.on_event(&received(Message::Tx(tx(GENESIS))));
    assert!(matches!(d.action(), Action::Finish));
    assert_eq!(d.outcome(), Some(Ok(true)));
    d.on_event(&PeerEvent::Failed);
    assert_eq!(d.outcome(), Some(Ok(true)));
}

#[test]
fn a_delivery_is_confirmed_by_lists_too() {
    let mut d = up_to_receipt();
    d.on_event(&received(Message::Inv(vec![item(SEGWIT), InvItem::Other])));
    assert_eq!(d.outcome(), None);
    d.on_event(&received(Message::Inv(vec![item(SEGWIT), item(GENESIS)])));
    assert_eq!(d.outcome(), Some(Ok(true)));
    let mut d = up_to_receipt();
    d.on_event(&received(Message::NotFound(vec![item(SEGWIT)])));
    assert_eq!(d.outcome(), None);
    d.on_event(&received(Message::NotFound(vec![item(GENESIS)])));
    assert_eq!(d.outcome(), Some(Ok(true)));
}

#[test]
fn a_silent_peer_does_not_count() {
    for event in [PeerEvent::TimedOut, PeerEvent::Failed] {
        let mut d = up_to_receipt();
        d.on_event(&received(Message::Other));
        d.on_event(&event);
        assert_eq!(d.outcome(), Some(Ok(false)));
    }
}

#[test]
fn a_peer_without_the_relay_service_gets_nothing() {
    let mut d = delivery(false, &ip());
    d.on_event(&PeerEvent::Connected);
    d.on_event(&PeerEvent::Sent);
    d.on_event(&version(1 | 8));
    assert_eq!(d.outcome(), Some(Ok(false)));
    assert!(matches!(d.action(), Action::Finish));
}

#[test]
fn a_delivery_fails_with_a_reason() {
    let run = |events: Vec<PeerEvent>| {
        let mut d = delivery(false, &onion());
        for event in &events {
            d.on_event(event);
        }
        d.outcome()
    };
    assert_eq!(run(vec![PeerEvent::TimedOut]), Some(Err(PeerError::ConnectTimeout)));
    assert_eq!(run(vec![PeerEvent::Failed]), Some(Err(PeerError::Connect)));
    assert_eq!(run(vec![PeerEvent::Connected, PeerEvent::Failed]), Some(Err(PeerError::Send)));
    assert_eq!(
        run(vec![PeerEvent::Connected, PeerEvent::Sent, PeerEvent::Failed]),
        Some(Err(PeerError::Read))
    );
    assert_eq!(
        run(vec![PeerEvent::Connected, PeerEvent::Sent, PeerEvent::TimedOut]),
        Some(Err(PeerError::VersionTimeout))
    );
}

#[test]
fn tor_only_skips_the_clear_net() {
    let mut d = delivery(true, &ip());
    assert!(matches!(d.action(), Action::Finish));
    assert_eq!(d.outcome(), Some(Ok(false)));
    d.on_event(&PeerEvent::Connected);
    assert_eq!(d.outcome(), Some(Ok(false)));
    assert!(matches!(delivery(true, &onion()).action(), Action::Connect { .. }));
    let f = fetch_peer_transactions(&ip(), &TorMode { only: true }, true, 3);
    assert!(matches!(f.action(), Action::Finish));
    assert!(matches!(f.into_outcome(), Some(Ok(txs)) if txs.is_empty()));
}

#[test]
fn the_mode_is_heeded_when_a_task_starts() {
    let (on, off) = (TorMode { only: true }, TorMode { only: false });
    let peers = || discover_libre_peers(vec![Some(vec![ip(), onion()])]);
    let mut plan = blast_transaction(&tx(GENESIS), peers(), &off, true);
    for dispatch in &mut plan {
        dispatch.delivery.start(&dispatch.peer, &off);
        assert!(matches!(dispatch.delivery.action(), Action::Connect { .. }));
        dispatch.delivery.start(&dispatch.peer, &on);
    }
    assert_eq!(plan[0].delivery.outcome(), Some(Ok(false)));
    assert!(matches!(plan[1].delivery.action(), Action::Connect { .. }));
    let mut begun = delivery(false, &ip());
    begun.on_event(&PeerEvent::Connected);
    begun.start(&ip(), &on);
    assert!(matches!(begun.action(), Action::Send(Request::Version { .. })));
    let mut fetches = FetchJob { limit: 3, relay: true }.plan(peers(), &off);
    for task in &mut fetches {
        task.fetch.start(&task.peer, &on);
    }
    assert!(matches!(fetches[1].fetch.action(), Action::Connect { .. }));
    assert!(fetched(fetches.swap_remove(0).fetch).is_empty());
}

fn fetch(limit: usize) -> PeerFetch {
    let mut f = fetch_peer_transactions(&ip(), &TorMode { only: false }, true, limit);
    for event in [
        PeerEvent::Connected,
        PeerEvent::Sent,
        version(0),
        PeerEvent::Sent,
        PeerEvent::Sent,
    ] {
        f.on_event(&event);
    }
    f
}

fn requested(f: &PeerFetch) -> Vec<Txid> {
    match f.action() {
        Action::Send(Request::GetData(ids)) => ids,
        other => panic!("{other:?}"),
    }
}

fn fetched(f: PeerFetch) -> Vec<Txid> {
    f.into_outcome().unwrap().unwrap().iter().map(|t| t.txid()).collect()
}

#[test]
fn a_fetch_goes_step_by_step() {
    let mut f = fetch_peer_transactions(&ip(), &TorMode { only: false }, false, 2);
    assert!(matches!(f.action(), Action::Connect { timeout_secs: 12 }));
    f.on_event(&PeerEvent::Connected);
    assert!(matches!(f.action(), Action::Send(Request::Version { relay: false })));
    f.on_event(&PeerEvent::Sent);
    assert!(matches!(f.action(), Action::Receive(Patience::Total(5))));
    f.on_event(&version(0));
    assert!(matches!(f.action(), Action::Send(Request::Verack)));
    f.on_event(&PeerEvent::Sent);
    assert!(matches!(f.action(), Action::Send(Request::MemPool)));
    f.on_event(&PeerEvent::Sent);
    assert!(matches!(f.action(), Action::Receive(Patience::Each(12))));
    f.on_event(&received(Message::NotFound(vec![])));
    f.on_event(&received(Message::Inv(vec![InvItem::Other, item(GENESIS), item(GENESIS)])));
    assert!(matches!(f.action(), Action::Receive(Patience::Each(12))));
    f.on_event(&received(Message::Inv(vec![item(GENESIS), item(SEGWIT), item(THIRD)])));
    assert_eq!(requested(&f), vec![tx(GENESIS).txid(), tx(SEGWIT).txid()]);
    f.on_event(&PeerEvent::Sent);
    assert!(matches!(f.action(), Action::Receive(Patience::Each(12))));
    f.on_event(&received(Message::Tx(tx(THIRD))));
    f.on_event(&received(Message::Tx(tx(SEGWIT))));
    f.on_event(&received(Message::Tx(tx(SEGWIT))));
    assert!(matches!(f.action(), Action::Receive(_)));
    f.on_event(&received(Message::Tx(tx(GENESIS))));
    assert!(matches!(f.action(), Action::Finish));
    assert_eq!(fetched(f), vec![tx(SEGWIT).txid(), tx(GENESIS).txid()]);
}

#[test]
fn silence_ends_the_list_of_ids() {
    for event in [PeerEvent::TimedOut, PeerEvent::Failed] {
        let mut f = fetch(5);
        f.on_event(&received(Message::Inv(vec![item(THIRD)])));
        f.on_event(&event);
        assert_eq!(requested(&f), vec![tx(THIRD).txid()]);
        let mut none = fetch(5);
        none.on_event(&event);
        assert!(fetched(none).is_empty());
    }
}

#[test]
fn what_a_peer_lacks_is_not_waited_for() {
    let mut f = fetch(2);
    f.on_event(&received(Message::Inv(vec![item(GENESIS), item(SEGWIT)])));
    f.on_event(&PeerEvent::Sent);
    f.on_event(&received(Message::NotFound(vec![item(GENESIS), InvItem::Other])));
    assert!(matches!(f.action(), Action::Receive(_)));
    f.on_event(&received(Message::Tx(tx(GENESIS))));
    f.on_event(&received(Message::NotFound(vec![item(SEGWIT)])));
    assert!(matches!(f.action(), Action::Finish));
    assert!(fetched(f).is_empty());
}

#[test]
fn silence_ends_the_transactions() {
    let mut f = fetch(2);
    f.on_event(&received(Message::Inv(vec![item(GENESIS), item(SEGWIT)])));
    f.on_event(&PeerEvent::Sent);
    f.on_event(&received(Message::Tx(tx(GENESIS))));
    f.on_event(&PeerEvent::TimedOut);
    assert_eq!(fetched(f), vec![tx(GENESIS).txid()]);
}

#[test]
fn a_limit_of_zero_asks_but_takes_nothing() {
    let mut f = fetch(0);
    f.on_event(&received(Message::Inv(vec![item(GENESIS), item(SEGWIT)])));
    assert_eq!(requested(&f), vec![tx(GENESIS).txid()]);
    f.on_event(&PeerEvent::Sent);
    assert!(matches!(f.action(), Action::Finish));
    assert!(fetched(f).is_empty());
    let mut none = fetch(0);
    none.on_event(&received(Message::Inv(vec![InvItem::Other])));
    assert!(fetched(none).is_empty());
}

#[test]
fn a_fetch_fails_with_a_reason() {
    let run = |events: Vec<PeerEvent>| {
        let mut f = fetch_peer_transactions(&ip(), &TorMode { only: false }, true, 1);
        for event in &events {
            f.on_event(event);
        }
        f.into_outcome().unwrap().err()
    };
    assert_eq!(run(vec![PeerEvent::TimedOut]), Some(PeerError::ConnectTimeout));
    assert_eq!(run(vec![PeerEvent::Failed]), Some(PeerError::Connect));
    assert_eq!(run(vec![PeerEvent::Connected, PeerEvent::Failed]), Some(PeerError::Send));
    let greeted = || vec![PeerEvent::Connected, PeerEvent::Sent];
    let with = |last: PeerEvent| {
        let mut events = greeted();
        events.push(last);
        events
    };
    assert_eq!(run(with(PeerEvent::TimedOut)), Some(PeerError::VersionTimeout));
    assert_eq!(run(with(PeerEvent::Failed)), Some(PeerError::Read));
    let mut refused = fetch(1);
    refused.on_event(&received(Message::Inv(vec![item(GENESIS)])));
    refused.on_event(&PeerEvent::Failed);
    assert_eq!(refused.into_outcome().unwrap().err(), Some(PeerError::Send));
}

#[test]
fn an_unfinished_fetch_has_no_outcome() {
    assert!(fetch(1).into_outcome().is_none());
}

fn crawl(events: Vec<PeerEvent>) -> Crawl {
    let mut c = crawl_seed_node();
    for event in &events {
        c.on_event(event);
    }
    c
}

fn v4(services: u64, last: u16) -> AddrEntry {
    AddrEntry { services, address: [0, 0, 0, 0, 0, 0xffff, 0x0a00, last], port: 8333 }
}

#[test]
fn a_seed_node_is_questioned_step_by_step() {
    let mut c = crawl_seed_node();
    assert!(matches!(c.action(), Action::Connect { timeout_secs: 2 }));
    c.on_event(&PeerEvent::Connected);
    assert!(matches!(c.action(), Action::Send(Request::Version { relay: true })));
    c.on_event(&PeerEvent::Sent);
    assert!(matches!(c.action(), Action::Receive(Patience::Each(12))));
    c.on_event(&received(Message::Other));
    c.on_event(&version(1));
    assert!(matches!(c.action(), Action::Send(Request::SendAddrV2)));
    c.on_event(&PeerEvent::Sent);
    assert!(matches!(c.action(), Action::Send(Request::Verack)));
    c.on_event(&PeerEvent::Sent);
    c.on_event(&received(Message::Verack));
    assert!(matches!(c.action(), Action::Send(Request::GetAddr)));
    c.on_event(&PeerEvent::Sent);
    c.on_event(&received(Message::Addr(vec![v4(LIBRE, 1), v4(1, 2), v4(LIBRE | 1, 3)])));
    assert!(matches!(c.action(), Action::Finish));
    let mut peers = c.into_outcome().unwrap().unwrap();
    peers.sort_by_key(|p| format!("{p:?}"));
    let at = |last: u8| {
        NetworkAddress::Ip(SocketAddress { host: IpHost::V4([10, 0, 0, last]), port: 8333 })
    };
    assert_eq!(peers, vec![at(1), at(3)]);
}

#[test]
fn a_seed_node_that_names_nobody() {
    for event in [PeerEvent::TimedOut, PeerEvent::Failed, received(Message::Addr(vec![]))] {
        let c = crawl(vec![PeerEvent::Connected, PeerEvent::Sent, event]);
        assert!(c.into_outcome().unwrap().unwrap().is_empty());
    }
    assert!(crawl(vec![PeerEvent::Connected]).into_outcome().is_none());
}

#[test]
fn a_seed_node_that_cannot_be_questioned() {
    let fails = |events: Vec<PeerEvent>| crawl(events).into_outcome().unwrap().err();
    assert_eq!(fails(vec![PeerEvent::TimedOut]), Some(PeerError::ConnectTimeout));
    assert_eq!(fails(vec![PeerEvent::Failed]), Some(PeerError::Connect));
    assert_eq!(fails(vec![PeerEvent::Connected, PeerEvent::Failed]), Some(PeerError::Send));
    assert_eq!(
        fails(vec![PeerEvent::Connected, PeerEvent::Sent, version(1), PeerEvent::Failed]),
        Some(PeerError::Send)
    );
}

#[test]
fn many_peers_come_in_random_order() {
    let list = || Message::Addr((0..60).map(|i| v4(LIBRE, i)).collect());
    let run = || {
        crawl(vec![PeerEvent::Connected, PeerEvent::Sent, received(list())])
            .into_outcome()
            .unwrap()
            .unwrap()
    };
    let plain = libre_peers(&(0..60).map(|i| v4(LIBRE, i)).collect());
    let (a, b) = (run(), run());
    assert_eq!(a.len(), 60);
    assert!(plain.iter().all(|p| a.contains(p)));
    assert!(a != plain || b != plain);
}

#[test]
fn addresses_become_sockets() {
    let at = |address: [u16; 8]| socket_addr(&AddrEntry { services: 0, address, port: 9 });
    let mapped = at([0, 0, 0, 0, 0, 0xffff, 0xc0a8, 0x0102]);
    assert_eq!(mapped, Some(SocketAddress { host: IpHost::V4([192, 168, 1, 2]), port: 9 }));
    let embedded = at([0, 0, 0, 0, 0, 0, 0, 1]);
    assert_eq!(embedded, Some(SocketAddress { host: IpHost::V4([0, 0, 0, 1]), port: 9 }));
    let v6 = at([0x2001, 0xdb8, 0, 0, 0, 0, 0, 1]);
    let words = [0x2001, 0xdb8, 0, 0, 0, 0, 0, 1];
    assert_eq!(v6, Some(SocketAddress { host: IpHost::V6(words), port: 9 }));
    assert_eq!(at([0xfd87, 0xd87e, 0xeb43, 1, 2, 3, 4, 5]), None);
}

#[test]
fn sockets_are_those_of_the_protocol_library() {
    for address in [
        [0, 0, 0, 0, 0, 0xffff, 0x7f00, 1],
        [0, 0, 0, 0, 0, 0, 0x0102, 0x0304],
        [0, 0, 0, 0, 1, 0xffff, 0x0102, 0x0304],
        [0xfd87, 0xd87e, 0xeb44, 0, 0, 0, 0, 0],
        [0xfe80, 0, 0, 0, 0, 0, 0, 2],
    ] {
        let theirs = bitcoin::p2p::Address {
            services: bitcoin::p2p::ServiceFlags::NONE,
            address,
            port: 77,
        };
        let ours = socket_addr(&AddrEntry { services: 0, address, port: 77 }).unwrap();
        let socket = theirs.socket_addr().unwrap();
        let words = bitcoin::p2p::Address::new(&socket, theirs.services).address;
        assert_eq!(socket.port(), ours.port);
        match ours.host {
            IpHost::V4(o) => {
                assert!(socket.is_ipv4());
                let pair = |a: u8, b: u8| u16::from(a) * 256 + u16::from(b);
                assert_eq!(words[6..], [pair(o[0], o[1]), pair(o[2], o[3])]);
            }
            IpHost::V6(w) => {
                assert!(socket.is_ipv6());
                assert_eq!(words, w);
            }
        }
    }
}

#[test]
fn peers_on_every_network() {
    let entry = |services: u64, host: AddrV2Host| AddrV2Entry { services, host, port: 1 };
    let peers = libre_peers_v2(&vec![
        entry(LIBRE, AddrV2Host::Ipv4([1, 2, 3, 4])),
        entry(1, AddrV2Host::Ipv4([1, 2, 3, 5])),
        entry(LIBRE, AddrV2Host::Ipv6([1, 2, 3, 4, 5, 6, 7, 8])),
        entry(LIBRE | 8, AddrV2Host::TorV3([9; 32])),
        entry(LIBRE, AddrV2Host::Other),
    ]);
    assert_eq!(
        peers,
        vec![
            NetworkAddress::Ip(SocketAddress { host: IpHost::V4([1, 2, 3, 4]), port: 1 }),
            NetworkAddress::Ip(SocketAddress {
                host: IpHost::V6([1, 2, 3, 4, 5, 6, 7, 8]),
                port: 1
            }),
            NetworkAddress::Onion(tor_v3_onion_from_pubkey(&[9; 32])),
        ]
    );
    let c = crawl(vec![
        PeerEvent::Connected,
        PeerEvent::Sent,
        received(Message::AddrV2(vec![entry(LIBRE, AddrV2Host::TorV3([9; 32]))])),
    ]);
    assert_eq!(
        c.into_outcome().unwrap().unwrap(),
        vec![NetworkAddress::Onion(tor_v3_onion_from_pubkey(&[9; 32]))]
    );
}

#[test]
fn a_blast_sets_the_mode_and_reads_the_transaction() {
    let mut mode = TorMode::new();
    let read = blast_transaction_hex(&mut mode, GENESIS, true).unwrap();
    assert_eq!(read.raw(), tx(GENESIS).raw());
    assert!(mode.only);
    assert_eq!(
        blast_transaction_hex(&mut mode, "0g", false).err(),
        Some(TxError::Hex(HexError::InvalidHexCharacter { c: 'g', index: 1 }))
    );
    assert!(!mode.only);
    let longer = format!("{GENESIS}00");
    assert_eq!(blast_transaction_hex(&mut mode, &longer, true).err(), Some(TxError::Decode));
    assert!(mode.only);
}

#[test]
fn a_blast_goes_to_every_allowed_peer() {
    let peers = || discover_libre_peers(vec![Some(vec![ip(), onion()])]);
    let all = blast_transaction(&tx(GENESIS), peers(), &TorMode { only: false }, true);
    assert_eq!(all.len(), 2);
    let some = blast_transaction(&tx(GENESIS), peers(), &TorMode { only: true }, true);
    assert_eq!(some.len(), 1);
    assert_eq!(some[0].peer, onion());
    assert!(matches!(some[0].delivery.action(), Action::Connect { .. }));
    assert_eq!(MAX_CONCURRENT_DELIVERIES, 100);
}

#[test]
fn only_confirmed_deliveries_count() {
    let outcomes = vec![
        DeliveryOutcome::Finished(Ok(true)),
        DeliveryOutcome::Finished(Ok(false)),
        DeliveryOutcome::Finished(Err(PeerError::Read)),
        DeliveryOutcome::Lost,
        DeliveryOutcome::Finished(Ok(true)),
    ];
    assert_eq!(count_accepted(&outcomes), 2);
    assert_eq!(count_accepted(&vec![]), 0);
}

#[test]
fn fetches_are_planned_for_every_allowed_peer() {
    let peers = || discover_libre_peers(vec![Some(vec![ip(), onion()])]);
    let mut mode = TorMode::new();
    let job = fetch_transactions(&mut mode, 5, false, true);
    assert_eq!(job, FetchJob { limit: 5, relay: true });
    assert_eq!(job.plan(peers(), &mode).len(), 2);
    let job = fetch_transactions(&mut mode, 5, true, true);
    assert!(mode.only);
    let plan = job.plan(peers(), &mode);
    assert_eq!(plan.len(), 1);
    assert_eq!(plan[0].peer, onion());
    assert!(matches!(plan[0].fetch.action(), Action::Connect { .. }));
}

#[test]
fn transactions_are_gathered_once_up_to_the_limit() {
    let mut g = Gathering::new(2);
    g.add(&Ok(vec![tx(GENESIS), tx(GENESIS)]));
    g.add(&Err(PeerError::Connect));
    g.add(&Ok(vec![tx(GENESIS), tx(SEGWIT), tx(THIRD)]));
    g.add(&Ok(vec![tx(THIRD)]));
    let ids: Vec<Txid> = g.into_txs().iter().map(|t| t.txid()).collect();
    assert_eq!(ids, vec![tx(GENESIS).txid(), tx(SEGWIT).txid()]);
    let mut none = Gathering::new(0);
    none.add(&Ok(vec![tx(GENESIS)]));
    assert!(none.into_txs().is_empty());
}
