//! Addresses of peers, and the services that they announce.
use crate::seqs;
use vstd::prelude::*;

verus! {

/// The peer stores the whole chain.
pub const NODE_NETWORK: u64 = 1;

/// The peer serves witnesses.
pub const NODE_WITNESS: u64 = 8;

/// The peer relays without filters.
pub const NODE_LIBRE_RELAY: u64 = 536_870_912;

/// Port on which peers are spoken to that are known by a name only.
pub const DEFAULT_PORT: u16 = 8333;

/// Whether every bit of `flags` is set in `services`.
pub open spec fn offers(services: u64, flags: u64) -> bool {
    services | flags == services
}

/// Whether every bit of `flags` is set in `services`.
pub fn has_services(services: u64, flags: u64) -> (r: bool)
    ensures
        r == offers(services, flags),
{
    services | flags == services
}

/// Offering the relay service is having bit 29.
pub proof fn law_libre_relay_is_one_bit(services: u64)
    ensures
        offers(services, NODE_LIBRE_RELAY) <==> (services / 536_870_912) % 2 == 1,
{
    assert(services | 536_870_912 == services <==> (services / 536_870_912) % 2 == 1)
        by (bit_vector);
}

/// An IP address.
#[derive(Clone, Copy, Debug, PartialEq, Eq, Hash)]
pub enum IpHost {
    V4([u8; 4]),
    V6([u16; 8]),
}

/// An IP address and a port.
#[derive(Clone, Copy, Debug, PartialEq, Eq, Hash)]
pub struct SocketAddress {
    pub host: IpHost,
    pub port: u16,
}

/// Where a peer is found.
#[derive(Debug, PartialEq, Eq, Hash)]
pub enum NetworkAddress {
    /// On the clear net.
    Ip(SocketAddress),
    /// Behind an onion service with this host name.
    Onion(String),
}

/// What a [`NetworkAddress`] says.
pub enum NetworkAddressView {
    Ip(SocketAddress),
    Onion(Seq<char>),
}

impl View for NetworkAddress {
    type V = NetworkAddressView;

    open spec fn view(&self) -> NetworkAddressView {
        match self {
            NetworkAddress::Ip(socket) => NetworkAddressView::Ip(*socket),
            NetworkAddress::Onion(host) => NetworkAddressView::Onion(host@),
        }
    }
}

/// What each of a list of addresses says.
pub open spec fn address_views(list: Seq<NetworkAddress>) -> Seq<NetworkAddressView> {
    list.map_values(|a: NetworkAddress| a@)
}

impl IpHost {
    /// Whether the two addresses are the same.
    pub fn same(&self, other: &IpHost) -> (r: bool)
        ensures
            r == (*self == *other),
    {
        match (self, other) {
            (IpHost::V4(a), IpHost::V4(b)) => {
                for i in 0..4usize
                    invariant
                        *self == IpHost::V4(*a),
                        *other == IpHost::V4(*b),
                        forall|j: int| 0 <= j < i ==> a[j] == b[j],
                {
                    if a[i] != b[i] {
                        return false;
                    }
                }
                assert(*a =~= *b);
                true
            },
            (IpHost::V6(a), IpHost::V6(b)) => {
                for i in 0..8usize
                    invariant
                        *self == IpHost::V6(*a),
                        *other == IpHost::V6(*b),
                        forall|j: int| 0 <= j < i ==> a[j] == b[j],
                {
                    if a[i] != b[i] {
                        return false;
                    }
                }
                assert(*a =~= *b);
                true
            },
            _ => false,
        }
    }
}

impl NetworkAddress {
    /// Whether the two addresses are the same.
    pub fn same(&self, other: &NetworkAddress) -> (r: bool)
        ensures
            r == (self@ == other@),
    {
        match (self, other) {
            (NetworkAddress::Ip(a), NetworkAddress::Ip(b)) => a.port == b.port && a.host.same(
                &b.host,
            ),
            (NetworkAddress::Onion(a), NetworkAddress::Onion(b)) => *a == *b,
            _ => false,
        }
    }

    /// Whether the peer is on the clear net.
    pub fn is_clearnet(&self) -> (r: bool)
        ensures
            r == (self@ is Ip),
    {
        match self {
            NetworkAddress::Ip(_) => true,
            NetworkAddress::Onion(_) => false,
        }
    }

    /// The port to connect to: that of the socket address, or the default one of an onion host.
    pub fn dial_port(&self) -> (port: u16)
        ensures
            port == match self@ {
                NetworkAddressView::Ip(socket) => socket.port,
                NetworkAddressView::Onion(_) => DEFAULT_PORT,
            },
    {
        match self {
            NetworkAddress::Ip(socket) => socket.port,
            NetworkAddress::Onion(_) => DEFAULT_PORT,
        }
    }

    /// The same address once more.
    pub fn duplicate(&self) -> (r: NetworkAddress)
        ensures
            r@ == self@,
    {
        match self {
            NetworkAddress::Ip(socket) => NetworkAddress::Ip(*socket),
            NetworkAddress::Onion(host) => NetworkAddress::Onion(host.clone()),
        }
    }
}

/// Whether a peer at `address` may be spoken to.
pub open spec fn allowed(address: NetworkAddressView, tor_only: bool) -> bool {
    !(tor_only && address is Ip)
}

/// A set of addresses, kept in the order in which they came.
#[derive(Debug)]
pub struct AddressSet {
    list: Vec<NetworkAddress>,
}

impl View for AddressSet {
    type V = Seq<NetworkAddressView>;

    closed spec fn view(&self) -> Seq<NetworkAddressView> {
        address_views(self.list@)
    }
}

/// `set` with `address` in it: at the end, unless it is there already.
pub open spec fn with_address(
    set: Seq<NetworkAddressView>,
    address: NetworkAddressView,
) -> Seq<NetworkAddressView> {
    if set.contains(address) {
        set
    } else {
        set.push(address)
    }
}

/// `set` with each of `more` in it, added from first to last.
pub open spec fn with_addresses(
    set: Seq<NetworkAddressView>,
    more: Seq<NetworkAddressView>,
) -> Seq<NetworkAddressView>
    decreases more.len(),
{
    if more.len() == 0 {
        set
    } else {
        with_address(with_addresses(set, more.drop_last()), more.last())
    }
}

/// Adding addresses keeps those that are there, adds those that are given and no other, and lets
/// none occur twice.
pub proof fn law_with_addresses(set: Seq<NetworkAddressView>, more: Seq<NetworkAddressView>)
    requires
        set.no_duplicates(),
    ensures
        with_addresses(set, more).no_duplicates(),
        set.is_prefix_of(with_addresses(set, more)),
        forall|a: NetworkAddressView|
            with_addresses(set, more).contains(a) <==> set.contains(a) || more.contains(a),
    decreases more.len(),
{
    if more.len() == 0 {
        assert(set.is_prefix_of(set));
    } else {
        let less = more.drop_last();
        law_with_addresses(set, less);
        let before = with_addresses(set, less);
        let after = with_addresses(set, more);
        assert(more =~= less.push(more.last()));
        assert forall|a: NetworkAddressView| after.contains(a) <==> set.contains(a)
            || more.contains(a) by {
            seqs::lemma_push_contains(less, more.last(), a);
            seqs::lemma_push_contains(before, more.last(), a);
        }
        assert(set =~= after.subrange(0, set.len() as int)) by {
            assert(set =~= before.subrange(0, set.len() as int));
        }
    }
}

impl AddressSet {
    /// Nothing occurs twice.
    pub open spec fn wf(&self) -> bool {
        self@.no_duplicates()
    }

    /// The empty set.
    pub fn new() -> (set: AddressSet)
        ensures
            set.wf(),
            set@ == Seq::<NetworkAddressView>::empty(),
    {
        let set = AddressSet { list: Vec::new() };
        assert(set@ =~= Seq::<NetworkAddressView>::empty());
        set
    }

    /// How many addresses there are.
    pub fn len(&self) -> (n: usize)
        ensures
            n == self@.len(),
    {
        self.list.len()
    }

    /// The address at a place.
    pub fn get(&self, index: usize) -> (address: &NetworkAddress)
        requires
            index < self@.len(),
        ensures
            address@ == self@[index as int],
    {
        &self.list[index]
    }

    /// Whether `address` is in the set.
    pub fn contains(&self, address: &NetworkAddress) -> (r: bool)
        ensures
            r == self@.contains(address@),
    {
        for i in 0..self.list.len()
            invariant
                forall|j: int| 0 <= j < i ==> self@[j] != address@,
        {
            if self.list[i].same(address) {
                assert(self@[i as int] == address@);
                return true;
            }
        }
        false
    }

    /// Adds `address`; says whether it was missing.
    pub fn insert(&mut self, address: NetworkAddress) -> (added: bool)
        requires
            old(self).wf(),
        ensures
            final(self).wf(),
            final(self)@ == with_address(old(self)@, address@),
            added == !old(self)@.contains(address@),
    {
        if self.contains(&address) {
            false
        } else {
            let ghost before = self@;
            self.list.push(address);
            assert(self@ =~= before.push(address@));
            true
        }
    }

    /// Adds each address of a list.
    pub fn extend(&mut self, more: &Vec<NetworkAddress>)
        requires
            old(self).wf(),
        ensures
            final(self).wf(),
            final(self)@ == with_addresses(old(self)@, address_views(more@)),
    {
        let ghost all = address_views(more@);
        assert(all.take(0) =~= Seq::<NetworkAddressView>::empty());
        for i in 0..more.len()
            invariant
                all == address_views(more@),
                self.wf(),
                self@ == with_addresses(old(self)@, all.take(i as int)),
        {
            self.insert(more[i].duplicate());
            assert(all.take(i + 1).drop_last() =~= all.take(i as int));
        }
        assert(all.take(all.len() as int) =~= all);
    }
}

/// The views of a list of addresses are those of its items, one for one, and an address says what it
/// holds.
pub proof fn law_address_views(list: Seq<NetworkAddress>, socket: SocketAddress, host: String)
    ensures
        address_views(list).len() == list.len(),
        forall|i: int| 0 <= i < list.len() ==> #[trigger] address_views(list)[i] == list[i]@,
        NetworkAddress::Ip(socket)@ == NetworkAddressView::Ip(socket),
        NetworkAddress::Onion(host)@ == NetworkAddressView::Onion(host@),
{
}

/// A peer may be spoken to unless it is on the clear net and only onion peers may; services are
/// offered if and only if asking for them adds no bit; and the port of peers known by name is 8333.
pub proof fn law_allowed(address: NetworkAddressView, tor_only: bool, services: u64, flags: u64)
    ensures
        address is Onion ==> allowed(address, tor_only),
        address is Ip ==> allowed(address, tor_only) == !tor_only,
        offers(services, flags) <==> services & flags == flags,
        DEFAULT_PORT == 8333,
        NODE_NETWORK == 1,
        NODE_WITNESS == 8,
        NODE_LIBRE_RELAY == 536_870_912,
{
    assert((services | flags == services) <==> (services & flags == flags)) by (bit_vector);
}

/// Adding two rows of addresses, one after the other, is adding the first and then the second. One
/// address is added at the end unless it is there.
pub proof fn law_with_addresses_one_by_one(
    set: Seq<NetworkAddressView>,
    a: Seq<NetworkAddressView>,
    b: Seq<NetworkAddressView>,
    address: NetworkAddressView,
)
    ensures
        with_addresses(set, a + b) == with_addresses(with_addresses(set, a), b),
        with_addresses(set, Seq::empty()) == set,
        with_addresses(set, seq![address]) == with_address(set, address),
        (exists|i: int| 0 <= i < set.len() && #[trigger] set[i] == address) ==> with_address(
            set,
            address,
        ) == set,
        (forall|i: int| 0 <= i < set.len() ==> #[trigger] set[i] != address) ==> with_address(
            set,
            address,
        ) == set.push(address),
    decreases b.len(),
{
    reveal_with_fuel(with_addresses, 2);
    assert(seq![address].drop_last() =~= Seq::<NetworkAddressView>::empty());
    assert(seq![address].last() == address);
    if b.len() == 0 {
        assert(a + b =~= a);
    } else {
        assert((a + b).drop_last() =~= a + b.drop_last());
        law_with_addresses_one_by_one(set, a, b.drop_last(), address);
    }
}

} // verus!
