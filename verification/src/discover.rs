//! Finding peers with the relay service.
use crate::address;
use crate::address::{AddressSet, NetworkAddress, NetworkAddressView, SocketAddress};
use crate::shuffle;
use crate::tor::{tor_only_enabled, TorMode};
use vstd::prelude::*;
use vstd::string::*;

verus! {

/// Seconds that the lookup of a seed host may take.
pub const LOOKUP_TIMEOUT_SECS: u64 = 2;

/// The hosts whose names resolve to seed nodes.
pub open spec fn seed_hosts() -> Seq<Seq<char>> {
    seq![
        "dnsseed.bluematt.me"@,
        "dnsseed.bitcoin.dashjr-list-of-p2p-nodes.us"@,
        "seed.bitcoinstats.com"@,
        "seed.btc.petertodd.net"@,
        "seed.bitcoin.sprovoost.nl"@,
        "dnsseed.emzy.de"@,
        "seed.bitcoin.wiz.biz"@,
        "seed.bitcoin.sipa.be"@,
        "seed.bitcoin.jonasschnelli.ch"@,
        "seed.mainnet.achownodes.xyz"@,
    ]
}

/// What to look up for a seed host: the host at the default port.
pub fn lookup_target(host: &str) -> (target: String)
    ensures
        target@ == host@ + ":8333"@,
{
    let mut target = host.to_owned();
    target.append(":8333");
    target
}

/// What each of a list of strings says.
pub open spec fn texts(list: Seq<String>) -> Seq<Seq<char>> {
    list.map_values(|text: String| text@)
}

/// What to look up, for each seed host in turn.
pub fn lookup_targets() -> (targets: Vec<String>)
    ensures
        texts(targets@) == seed_hosts().map_values(|host: Seq<char>| host + ":8333"@),
{
    let hosts: [&'static str; 10] = [
        "dnsseed.bluematt.me",
        "dnsseed.bitcoin.dashjr-list-of-p2p-nodes.us",
        "seed.bitcoinstats.com",
        "seed.btc.petertodd.net",
        "seed.bitcoin.sprovoost.nl",
        "dnsseed.emzy.de",
        "seed.bitcoin.wiz.biz",
        "seed.bitcoin.sipa.be",
        "seed.bitcoin.jonasschnelli.ch",
        "seed.mainnet.achownodes.xyz",
    ];
    let mut targets: Vec<String> = Vec::new();
    for i in 0..10usize
        invariant
            forall|j: int| 0 <= j < 10 ==> (#[trigger] hosts@[j])@ == seed_hosts()[j],
            targets@.len() == i,
            forall|j: int|
                0 <= j < i ==> (#[trigger] targets@[j])@ == seed_hosts()[j] + ":8333"@,
    {
        let ghost host = hosts@[i as int];
        targets.push(lookup_target(hosts[i]));
    }
    assert(texts(targets@) =~= seed_hosts().map_values(|host: Seq<char>| host + ":8333"@));
    targets
}

/// All that the lookups found, in order; a lookup that failed found nothing.
pub open spec fn all_found(lookups: Seq<Option<Vec<SocketAddress>>>) -> Seq<SocketAddress>
    decreases lookups.len(),
{
    if lookups.len() == 0 {
        Seq::empty()
    } else {
        match lookups.last() {
            Some(found) => all_found(lookups.drop_last()) + found@,
            None => all_found(lookups.drop_last()),
        }
    }
}

/// The seed nodes that the lookups found, in random order.
pub fn seed_addresses(lookups: &Vec<Option<Vec<SocketAddress>>>) -> (seeds: Vec<SocketAddress>)
    ensures
        shuffle::reordered(seeds@, all_found(lookups@)),
{
    let mut seeds: Vec<SocketAddress> = Vec::new();
    for i in 0..lookups.len()
        invariant
            seeds@ == all_found(lookups@.take(i as int)),
    {
        assert(lookups@.take(i + 1).drop_last() =~= lookups@.take(i as int));
        if let Some(found) = &lookups[i] {
            let ghost before = seeds@;
            seeds.extend_from_slice(found.as_slice());
            assert(seeds@ =~= before + found@);
        }
    }
    assert(lookups@.take(lookups@.len() as int) =~= lookups@);
    shuffle::shuffle(&mut seeds);
    seeds
}

/// The peers that the seed nodes named, each once, in the order in which they came; a seed node
/// that could not be questioned named none.
pub open spec fn all_named(crawls: Seq<Option<Vec<NetworkAddress>>>) -> Seq<NetworkAddressView>
    decreases crawls.len(),
{
    if crawls.len() == 0 {
        Seq::empty()
    } else {
        match crawls.last() {
            Some(found) => address::with_addresses(
                all_named(crawls.drop_last()),
                address::address_views(found@),
            ),
            None => all_named(crawls.drop_last()),
        }
    }
}

/// The peers that the seed nodes named.
pub fn discover_libre_peers(crawls: Vec<Option<Vec<NetworkAddress>>>) -> (peers: AddressSet)
    ensures
        peers.wf(),
        peers@ == all_named(crawls@),
{
    let mut peers = AddressSet::new();
    for i in 0..crawls.len()
        invariant
            peers.wf(),
            peers@ == all_named(crawls@.take(i as int)),
    {
        assert(crawls@.take(i + 1).drop_last() =~= crawls@.take(i as int));
        if let Some(found) = &crawls[i] {
            peers.extend(found);
        }
    }
    assert(crawls@.take(crawls@.len() as int) =~= crawls@);
    peers
}

/// Whether one of the seed nodes named a peer.
pub open spec fn named_by_one(
    crawls: Seq<Option<Vec<NetworkAddress>>>,
    peer: NetworkAddressView,
) -> bool {
    exists|i: int|
        0 <= i < crawls.len() && (#[trigger] crawls[i] matches Some(found)
            && address::address_views(found@).contains(peer))
}

/// The peers found are those that some seed node named, and none occurs twice.
pub proof fn law_discovered_peers_were_named(crawls: Seq<Option<Vec<NetworkAddress>>>)
    ensures
        all_named(crawls).no_duplicates(),
        forall|peer: NetworkAddressView|
            all_named(crawls).contains(peer) <==> named_by_one(crawls, peer),
    decreases crawls.len(),
{
    if crawls.len() > 0 {
        let less = crawls.drop_last();
        let last = crawls.len() - 1;
        law_discovered_peers_were_named(less);
        if let Some(found) = crawls[last] {
            address::law_with_addresses(all_named(less), address::address_views(found@));
        }
        assert forall|peer: NetworkAddressView|
            all_named(crawls).contains(peer) <==> named_by_one(crawls, peer) by {
            if named_by_one(less, peer) {
                let i = choose|i: int|
                    0 <= i < less.len() && (#[trigger] less[i] matches Some(found)
                        && address::address_views(found@).contains(peer));
                assert(crawls[i] == less[i]);
            }
            if named_by_one(crawls, peer) {
                let i = choose|i: int|
                    0 <= i < crawls.len() && (#[trigger] crawls[i] matches Some(found)
                        && address::address_views(found@).contains(peer));
                if i < last {
                    assert(less[i] == crawls[i]);
                }
            }
            if all_named(crawls).contains(peer) && !named_by_one(less, peer) {
                assert(crawls[last] is Some);
            }
        }
    }
}

/// The peers that may be spoken to.
pub open spec fn kept(
    peers: Seq<NetworkAddressView>,
    tor_only: bool,
) -> Seq<NetworkAddressView> {
    peers.filter(|peer: NetworkAddressView| address::allowed(peer, tor_only))
}

/// The peers that may be spoken to: all of them, or those behind onion services.
pub fn filter_peers_for_tor_only(peers: AddressSet, mode: &TorMode) -> (r: AddressSet)
    requires
        peers.wf(),
    ensures
        r.wf(),
        r@ == kept(peers@, mode.only),
{
    let ghost pass = |peer: NetworkAddressView| address::allowed(peer, mode.only);
    if tor_only_enabled(mode) {
        let mut r = AddressSet::new();
        assert(peers@.take(0).filter(pass) =~= Seq::<NetworkAddressView>::empty()) by {
            reveal(Seq::filter);
        }
        let count: usize = peers.len();
        for i in 0..count
            invariant
                mode.only,
                peers.wf(),
                count == peers@.len(),
                pass == (|peer: NetworkAddressView| address::allowed(peer, mode.only)),
                r.wf(),
                r@ == peers@.take(i as int).filter(pass),
        {
            let peer = peers.get(i);
            let ghost before = peers@.take(i as int);
            proof {
                assert(peers@.take(i + 1) =~= before.push(peer@));
                lemma_filter_push(before, peer@, pass);
                if r@.contains(peer@) {
                    before.lemma_filter_contains_rev(pass, peer@);
                    let k = choose|k: int| 0 <= k < before.len() && before[k] == peer@;
                    assert(peers@[k] == peers@[i as int]);
                }
            }
            if !peer.is_clearnet() {
                r.insert(peer.duplicate());
            }
        }
        assert(peers@.take(peers@.len() as int) =~= peers@);
        r
    } else {
        proof {
            lemma_filter_all(peers@, pass);
        }
        peers
    }
}

/// Filtering after one more item.
proof fn lemma_filter_push(
    s: Seq<NetworkAddressView>,
    x: NetworkAddressView,
    pass: spec_fn(NetworkAddressView) -> bool,
)
    ensures
        s.push(x).filter(pass) == if pass(x) {
            s.filter(pass).push(x)
        } else {
            s.filter(pass)
        },
{
    reveal(Seq::filter);
    assert(s.push(x).drop_last() =~= s);
}

/// Filtering by what holds of all changes nothing.
proof fn lemma_filter_all(
    s: Seq<NetworkAddressView>,
    pass: spec_fn(NetworkAddressView) -> bool,
)
    requires
        forall|x: NetworkAddressView| #[trigger] pass(x),
    ensures
        s.filter(pass) == s,
    decreases s.len(),
{
    reveal(Seq::filter);
    if s.len() > 0 {
        lemma_filter_all(s.drop_last(), pass);
        assert(s.drop_last().push(s.last()) =~= s);
        assert(pass(s.last()));
    } else {
        assert(s.filter(pass) =~= s);
    }
}

/// In onion-only mode no peer on the clear net is left, and every onion peer is; otherwise nobody
/// is left out.
pub proof fn law_kept_peers_are_allowed(peers: Seq<NetworkAddressView>, tor_only: bool)
    ensures
        forall|peer: NetworkAddressView|
            kept(peers, tor_only).contains(peer) <==> peers.contains(peer) && address::allowed(
                peer,
                tor_only,
            ),
        tor_only ==> forall|peer: NetworkAddressView|
            kept(peers, tor_only).contains(peer) ==> peer is Onion,
        !tor_only ==> kept(peers, tor_only) == peers,
{
    let pass = |peer: NetworkAddressView| address::allowed(peer, tor_only);
    assert forall|peer: NetworkAddressView|
        kept(peers, tor_only).contains(peer) <==> peers.contains(peer) && address::allowed(
            peer,
            tor_only,
        ) by {
        if kept(peers, tor_only).contains(peer) {
            peers.lemma_filter_contains_rev(pass, peer);
            let k = choose|k: int|
                0 <= k < kept(peers, tor_only).len() && kept(peers, tor_only)[k] == peer;
            peers.lemma_filter_pred(pass, k);
        }
        if peers.contains(peer) && address::allowed(peer, tor_only) {
            let k = choose|k: int| 0 <= k < peers.len() && peers[k] == peer;
            peers.lemma_filter_contains(pass, k);
        }
    }
    if !tor_only {
        lemma_filter_all(peers, pass);
    }
}

/// The texts of a list of strings are theirs, one for one.
pub proof fn law_texts(list: Seq<String>)
    ensures
        texts(list).len() == list.len(),
        forall|i: int| 0 <= i < list.len() ==> #[trigger] texts(list)[i] == list[i]@,
{
}

/// The hosts that are looked up.
pub proof fn law_seed_hosts()
    ensures
        seed_hosts().len() == 10,
        seed_hosts()[0] == "dnsseed.bluematt.me"@,
        seed_hosts()[1] == "dnsseed.bitcoin.dashjr-list-of-p2p-nodes.us"@,
        seed_hosts()[2] == "seed.bitcoinstats.com"@,
        seed_hosts()[3] == "seed.btc.petertodd.net"@,
        seed_hosts()[4] == "seed.bitcoin.sprovoost.nl"@,
        seed_hosts()[5] == "dnsseed.emzy.de"@,
        seed_hosts()[6] == "seed.bitcoin.wiz.biz"@,
        seed_hosts()[7] == "seed.bitcoin.sipa.be"@,
        seed_hosts()[8] == "seed.bitcoin.jonasschnelli.ch"@,
        seed_hosts()[9] == "seed.mainnet.achownodes.xyz"@,
        LOOKUP_TIMEOUT_SECS == 2,
{
}

/// What lookups found is what the first of them found and then what the others found; a lookup that
/// came through found just its addresses, and one that failed found none.
pub proof fn law_all_found(
    a: Seq<Option<Vec<SocketAddress>>>,
    b: Seq<Option<Vec<SocketAddress>>>,
    found: Vec<SocketAddress>,
)
    ensures
        all_found(a + b) == all_found(a) + all_found(b),
        all_found(seq![Some(found)]) == found@,
        all_found(seq![None]).len() == 0,
        all_found(Seq::empty()).len() == 0,
    decreases b.len(),
{
    reveal_with_fuel(all_found, 2);
    let some = seq![Some(found)];
    let none = seq![None::<Vec<SocketAddress>>];
    assert(some.drop_last() =~= Seq::<Option<Vec<SocketAddress>>>::empty());
    assert(none.drop_last() =~= Seq::<Option<Vec<SocketAddress>>>::empty());
    assert(all_found(some) =~= found@);
    if b.len() == 0 {
        assert(a + b =~= a);
        assert(all_found(a) + all_found(b) =~= all_found(a));
    } else {
        assert((a + b).drop_last() =~= a + b.drop_last());
        law_all_found(a, b.drop_last(), found);
        assert(all_found(a + b) =~= all_found(a) + all_found(b));
    }
}

/// Whom of two rows of peers one may speak to, one row after the other; and of one peer: an onion
/// peer always, a peer on the clear net unless only onion peers may be spoken to.
pub proof fn law_kept_one_by_one(
    a: Seq<NetworkAddressView>,
    b: Seq<NetworkAddressView>,
    peer: NetworkAddressView,
    tor_only: bool,
)
    ensures
        kept(a + b, tor_only) == kept(a, tor_only) + kept(b, tor_only),
        !tor_only || peer is Onion ==> kept(seq![peer], tor_only) == seq![peer],
        tor_only && peer is Ip ==> kept(seq![peer], tor_only).len() == 0,
        kept(Seq::empty(), tor_only).len() == 0,
{
    let pass = |p: NetworkAddressView| address::allowed(p, tor_only);
    Seq::filter_distributes_over_add(a, b, pass);
    let none = Seq::<NetworkAddressView>::empty();
    reveal(Seq::filter);
    lemma_filter_push(none, peer, pass);
    assert(none.push(peer) =~= seq![peer]);
    assert(none.filter(pass) =~= none);
}

/// The peers that one more seed node named come after those that the others named, in its order; one
/// that could not be questioned adds nobody.
pub proof fn law_all_named_in_turn(
    crawls: Seq<Option<Vec<NetworkAddress>>>,
    found: Vec<NetworkAddress>,
)
    ensures
        all_named(Seq::empty()).len() == 0,
        all_named(crawls.push(None)) == all_named(crawls),
        all_named(crawls.push(Some(found))) == address::with_addresses(
            all_named(crawls),
            Seq::new(found@.len(), |i: int| found@[i]@),
        ),
        all_named(crawls).is_prefix_of(all_named(crawls.push(Some(found)))),
{
    assert(crawls.push(None).drop_last() =~= crawls);
    assert(crawls.push(Some(found)).drop_last() =~= crawls);
    assert(Seq::new(found@.len(), |i: int| found@[i]@) =~= address::address_views(found@));
    law_discovered_peers_were_named(crawls);
    address::law_with_addresses(all_named(crawls), address::address_views(found@));
}

} // verus!
