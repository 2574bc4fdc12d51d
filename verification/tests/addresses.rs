use tx_pigeon::address::{
    has_services, AddressSet, IpHost, NetworkAddress, SocketAddress, DEFAULT_PORT,
    NODE_LIBRE_RELAY, NODE_NETWORK, NODE_WITNESS,
};
use tx_pigeon::discover::{
    discover_libre_peers, filter_peers_for_tor_only, lookup_target, lookup_targets, seed_addresses,
};
use tx_pigeon::onion::{onion_address, tor_v3_onion_from_pubkey};
use tx_pigeon::tor::{set_tor_only, tor_only_enabled, TorMode};

fn ip(last: u8) -> NetworkAddress {
    NetworkAddress::Ip(SocketAddress { host: IpHost::V4([10, 0, 0, last]), port: 8333 })
}

fn onion(name: &str) -> NetworkAddress {
    NetworkAddress::Onion(name.to_string())
}

fn listed(set: &AddressSet) -> Vec<NetworkAddress> {
    (0..set.len()).map(|i| set.get(i).duplicate()).collect()
}

#[test]
fn services_are_bits() {
    assert_eq!(NODE_LIBRE_RELAY, 1 << 29);
    assert_eq!(NODE_NETWORK, 1 << 0);
    assert_eq!(NODE_WITNESS, 1 << 3);
    assert!(has_services(NODE_LIBRE_RELAY | NODE_NETWORK, NODE_LIBRE_RELAY));
    assert!(!has_services(NODE_NETWORK | NODE_WITNESS, NODE_LIBRE_RELAY));
    assert!(!has_services(NODE_NETWORK, NODE_NETWORK | NODE_WITNESS));
    assert!(has_services(0, 0));
}

#[test]
fn tor_mode_is_switched() {
    let mut mode = TorMode::new();
    assert!(!tor_only_enabled(&mode));
    set_tor_only(&mut mode, true);
    assert!(tor_only_enabled(&mode));
    set_tor_only(&mut mode, false);
    assert!(!tor_only_enabled(&mode));
}

#[test]
fn addresses_are_compared() {
    assert!(ip(1).same(&ip(1)));
    assert!(!ip(1).same(&ip(2)));
    assert!(!ip(1).same(&onion("a.onion")));
    assert!(onion("a.onion").same(&onion("a.onion")));
    let v6 = |last: u16| IpHost::V6([1, 2, 3, 4, 5, 6, 7, last]);
    assert!(v6(8).same(&v6(8)));
    assert!(!v6(8).same(&v6(9)));
    assert!(!v6(8).same(&IpHost::V4([1, 2, 3, 4])));
    let other_port = NetworkAddress::Ip(SocketAddress { host: IpHost::V4([10, 0, 0, 1]), port: 1 });
    assert!(!ip(1).same(&other_port));
}

#[test]
fn ports_to_dial() {
    let peer = NetworkAddress::Ip(SocketAddress { host: IpHost::V4([1, 2, 3, 4]), port: 18444 });
    assert_eq!(peer.dial_port(), 18444);
    assert_eq!(onion("a.onion").dial_port(), 8333);
    assert_eq!(DEFAULT_PORT, 8333);
    assert!(peer.is_clearnet());
    assert!(!onion("a.onion").is_clearnet());
}

#[test]
fn a_set_keeps_each_address_once() {
    let mut set = AddressSet::new();
    assert!(set.insert(ip(1)));
    assert!(!set.insert(ip(1)));
    set.extend(&vec![ip(2), ip(1), onion("a.onion"), ip(2)]);
    assert_eq!(listed(&set), vec![ip(1), ip(2), onion("a.onion")]);
    assert!(set.contains(&ip(2)));
    assert!(!set.contains(&ip(3)));
}

#[test]
fn a_known_key_has_its_known_host() {
    let host = "pg6mmjiyjmcrsslvykfwnntlaru7p5svn6y2ymmju6nubxndf4pscryd.onion";
    let key: [u8; 32] = [
        121, 188, 198, 37, 24, 75, 5, 25, 73, 117, 194, 139, 102, 182, 107, 4, 105, 247, 246, 85,
        111, 177, 172, 49, 137, 167, 155, 64, 221, 163, 47, 31,
    ];
    assert_eq!(tor_v3_onion_from_pubkey(&key), host);
}

#[test]
fn hosts_of_onion_services_have_one_shape() {
    let host = onion_address(&[0; 32], [0, 0]);
    assert_eq!(host, format!("{}ad.onion", "a".repeat(54)));
    assert_eq!(host.len(), 62);
    assert_ne!(onion_address(&[0; 32], [0, 1]), host);
    assert_ne!(tor_v3_onion_from_pubkey(&[1; 32]), tor_v3_onion_from_pubkey(&[2; 32]));
    assert!(tor_v3_onion_from_pubkey(&[255; 32]).ends_with("d.onion"));
}

#[test]
fn seed_hosts_are_looked_up_at_the_default_port() {
    let targets = lookup_targets();
    assert_eq!(targets.len(), 10);
    assert_eq!(targets[0], "dnsseed.bluematt.me:8333");
    assert_eq!(targets[1], "dnsseed.bitcoin.dashjr-list-of-p2p-nodes.us:8333");
    assert_eq!(targets[9], "seed.mainnet.achownodes.xyz:8333");
    assert_eq!(lookup_target("example"), "example:8333");
}

#[test]
fn seeds_of_all_lookups_are_used() {
    let at = |last: u8| SocketAddress { host: IpHost::V4([1, 1, 1, last]), port: 8333 };
    let many: Vec<SocketAddress> = (0..50).map(at).collect();
    let seeds = seed_addresses(&vec![Some(vec![at(100), at(101)]), None, Some(many.clone())]);
    assert_eq!(seeds.len(), 52);
    for seed in many {
        assert_eq!(seeds.iter().filter(|s| **s == seed).count(), 1);
    }
    assert!(seeds.contains(&at(100)) && seeds.contains(&at(101)));
    let again = seed_addresses(&vec![Some((0..50).map(at).collect())]);
    let other = seed_addresses(&vec![Some((0..50).map(at).collect())]);
    assert!(again != other || again != (0..50).map(at).collect::<Vec<_>>());
}

#[test]
fn peers_of_all_crawls_are_collected_once() {
    let peers = discover_libre_peers(vec![
        Some(vec![ip(1), onion("a.onion")]),
        None,
        Some(vec![ip(1), ip(2)]),
    ]);
    assert_eq!(listed(&peers), vec![ip(1), onion("a.onion"), ip(2)]);
    assert_eq!(discover_libre_peers(vec![None, None]).len(), 0);
}

#[test]
fn tor_only_leaves_onion_peers() {
    let found = || discover_libre_peers(vec![Some(vec![ip(1), onion("a.onion"), ip(2), onion("b.onion")])]);
    let mut mode = TorMode::new();
    assert_eq!(listed(&filter_peers_for_tor_only(found(), &mode)).len(), 4);
    set_tor_only(&mut mode, true);
    let left = filter_peers_for_tor_only(found(), &mode);
    assert_eq!(listed(&left), vec![onion("a.onion"), onion("b.onion")]);
}
