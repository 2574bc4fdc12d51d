//! Messages of the peer-to-peer protocol: those that are sent, those that are understood, and
//! the frames in which they travel.
use crate::address;
use crate::address::{NODE_LIBRE_RELAY, NODE_NETWORK, NODE_WITNESS};
use crate::tx;
use crate::tx::{Tx, TxView, Txid};
use bitcoin::consensus::Decodable;
use bitcoin::p2p::address::AddrV2;
use bitcoin::p2p::message::{NetworkMessage, RawNetworkMessage};
use bitcoin::p2p::message_blockdata::Inventory;
use bitcoin::p2p::message_network::VersionMessage;
use bitcoin::p2p::{Address, Magic, ServiceFlags};
use vstd::prelude::*;
use vstd::string::*;
use vstd::utf8;

verus! {

/// An entry of an inventory.
#[derive(Clone, Copy, Debug, PartialEq, Eq)]
pub enum InvItem {
    /// A transaction, by its id.
    Transaction(Txid),
    /// Anything else.
    Other,
}

/// A peer's address as an `addr` or a `version` message holds it.
#[derive(Clone, Copy, Debug, PartialEq, Eq)]
pub struct AddrEntry {
    pub services: u64,
    pub address: [u16; 8],
    pub port: u16,
}

/// The network part of an entry of an `addrv2` message.
#[derive(Clone, Copy, Debug, PartialEq, Eq)]
pub enum AddrV2Host {
    Ipv4([u8; 4]),
    Ipv6([u16; 8]),
    /// The key of a version 3 onion service.
    TorV3([u8; 32]),
    /// An address on any other network.
    Other,
}

/// A peer's address as an `addrv2` message holds it.
#[derive(Clone, Copy, Debug, PartialEq, Eq)]
pub struct AddrV2Entry {
    pub services: u64,
    pub host: AddrV2Host,
    pub port: u16,
}

/// A message from a peer, as far as it is looked at.
#[derive(Debug)]
pub enum Message {
    Version { services: u64, user_agent: String },
    Verack,
    Tx(Tx),
    Inv(Vec<InvItem>),
    NotFound(Vec<InvItem>),
    Addr(Vec<AddrEntry>),
    AddrV2(Vec<AddrV2Entry>),
    /// Any other message.
    Other,
}

/// What a [`Message`] says.
pub enum MessageView {
    Version { services: u64, user_agent: Seq<char> },
    Verack,
    Tx(TxView),
    Inv(Seq<InvItem>),
    NotFound(Seq<InvItem>),
    Addr(Seq<AddrEntry>),
    AddrV2(Seq<AddrV2Entry>),
    Other,
}

impl View for Message {
    type V = MessageView;

    open spec fn view(&self) -> MessageView {
        match self {
            Message::Version { services, user_agent } => MessageView::Version {
                services: *services,
                user_agent: user_agent@,
            },
            Message::Verack => MessageView::Verack,
            Message::Tx(tx) => MessageView::Tx(tx@),
            Message::Inv(list) => MessageView::Inv(list@),
            Message::NotFound(list) => MessageView::NotFound(list@),
            Message::Addr(list) => MessageView::Addr(list@),
            Message::AddrV2(list) => MessageView::AddrV2(list@),
            Message::Other => MessageView::Other,
        }
    }
}

/// The contents of a `version` message.
#[derive(Debug, PartialEq, Eq)]
pub struct VersionInfo {
    pub version: u32,
    pub services: u64,
    pub timestamp: i64,
    pub receiver: AddrEntry,
    pub sender: AddrEntry,
    pub nonce: u64,
    pub user_agent: String,
    pub start_height: i32,
    pub relay: bool,
}

/// What a [`VersionInfo`] says.
pub struct VersionView {
    pub version: u32,
    pub services: u64,
    pub timestamp: i64,
    pub receiver: AddrEntry,
    pub sender: AddrEntry,
    pub nonce: u64,
    pub user_agent: Seq<char>,
    pub start_height: i32,
    pub relay: bool,
}

impl View for VersionInfo {
    type V = VersionView;

    open spec fn view(&self) -> VersionView {
        VersionView {
            version: self.version,
            services: self.services,
            timestamp: self.timestamp,
            receiver: self.receiver,
            sender: self.sender,
            nonce: self.nonce,
            user_agent: self.user_agent@,
            start_height: self.start_height,
            relay: self.relay,
        }
    }
}

/// A message that goes to a peer.
#[derive(Debug)]
pub enum Request {
    /// Introduces this node; `relay` asks for announcements of transactions.
    Version { relay: bool },
    Verack,
    MemPool,
    GetAddr,
    SendAddrV2,
    Tx(Tx),
    /// Asks for transactions.
    GetData(Vec<Txid>),
}

/// What a [`Request`] says.
pub enum RequestView {
    Version { relay: bool },
    Verack,
    MemPool,
    GetAddr,
    SendAddrV2,
    Tx(TxView),
    GetData(Seq<Txid>),
}

impl View for Request {
    type V = RequestView;

    open spec fn view(&self) -> RequestView {
        match self {
            Request::Version { relay } => RequestView::Version { relay: *relay },
            Request::Verack => RequestView::Verack,
            Request::MemPool => RequestView::MemPool,
            Request::GetAddr => RequestView::GetAddr,
            Request::SendAddrV2 => RequestView::SendAddrV2,
            Request::Tx(tx) => RequestView::Tx(tx@),
            Request::GetData(ids) => RequestView::GetData(ids@),
        }
    }
}

/// A message in full, ready to be encoded.
pub enum WireView {
    Version(VersionView),
    Verack,
    MemPool,
    GetAddr,
    SendAddrV2,
    Tx(Seq<u8>),
    GetData(Seq<Txid>),
}

/// The frame in which `message` travels on the network with these magic bytes: what the consensus
/// encoding of `bitcoin`'s `RawNetworkMessage` is.
pub uninterp spec fn encoded_message(magic: Seq<u8>, message: WireView) -> Seq<u8>;

/// The message in a frame, where `bitcoin`'s `RawNetworkMessage::consensus_decode` finds one.
pub uninterp spec fn decoded_message(frame: Seq<u8>) -> Option<MessageView>;

/// The checksum of a payload, as `bitcoin`'s `CheckedData` has it: four bytes.
pub uninterp spec fn payload_checksum(payload: Seq<u8>) -> Seq<u8>;

/// The length of the payload that a header announces: a 32-bit number, low byte first, at
/// position 16.
pub open spec fn announced_len(header: Seq<u8>) -> nat {
    (header[16] + 256 * header[17] + 65536 * header[18] + 16777216 * header[19]) as nat
}

/// Whether `frame` is a header that starts with `magic`, followed by as much as it announces.
pub open spec fn is_frame(frame: Seq<u8>, magic: Seq<u8>) -> bool {
    &&& frame.len() >= 24
    &&& frame.take(4) == magic
    &&& frame.len() == 24 + announced_len(frame)
}

/// Whether `frame` holds a header and all that it announces, with the checksum of that in the
/// header.
pub open spec fn well_framed(frame: Seq<u8>) -> bool {
    &&& frame.len() >= 24
    &&& frame.len() >= 24 + announced_len(frame)
    &&& frame.subrange(20, 24) == payload_checksum(
        frame.subrange(24, 24 + announced_len(frame) as int),
    )
}

/// What the peer at the other end makes of a message.
pub open spec fn received_as(message: WireView) -> MessageView {
    match message {
        WireView::Version(v) => MessageView::Version {
            services: v.services,
            user_agent: v.user_agent,
        },
        WireView::Verack => MessageView::Verack,
        WireView::Tx(raw) => MessageView::Tx(TxView { raw, txid: tx::computed_txid(raw) }),
        _ => MessageView::Other,
    }
}

/// How long a frame may be that is decoded.
pub const MAX_FRAME_LEN: usize = 5_000_000;

/// How long the frame of a message is at most.
pub open spec fn longest_frame(message: WireView) -> nat {
    match message {
        WireView::Version(v) => 112 + utf8::encode_utf8(v.user_agent).len(),
        WireView::Tx(raw) => 24 + raw.len(),
        WireView::GetData(ids) => 33 + 36 * ids.len(),
        _ => 24,
    }
}

/// What is known of every frame, whatever the message.
pub open spec fn frame_facts(frame: Seq<u8>, magic: Seq<u8>, message: WireView) -> bool {
    &&& is_frame(frame, magic)
    &&& well_framed(frame)
    &&& frame.len() <= longest_frame(message)
    &&& frame.len() <= MAX_FRAME_LEN ==> decoded_message(frame) == Some(received_as(message))
}

/// `RawNetworkMessage::new` and its consensus encoding, for a `version` message. The frame is a
/// header that starts with the magic bytes, announces the length of what follows, which is the
/// length of the fields, and ends with the checksum of what follows; decoding it gives the message back, unless it is longer than
/// `consensus_decode` reads.
#[verifier::external_body]
fn encode_version(magic: [u8; 4], v: &VersionInfo) -> (frame: Vec<u8>)
    requires
        utf8::encode_utf8(v.user_agent@).len() <= 10_000,
    ensures
        frame@ == encoded_message(magic@, WireView::Version(v@)),
        frame_facts(frame@, magic@, WireView::Version(v@)),
{
    let address = |a: AddrEntry| Address { services: ServiceFlags::from(a.services), address: a.address, port: a.port };
    let payload = NetworkMessage::Version(VersionMessage {
        version: v.version,
        services: ServiceFlags::from(v.services),
        timestamp: v.timestamp,
        receiver: address(v.receiver),
        sender: address(v.sender),
        nonce: v.nonce,
        user_agent: v.user_agent.clone(),
        start_height: v.start_height,
        relay: v.relay,
    });
    bitcoin::consensus::serialize(&RawNetworkMessage::new(Magic::from_bytes(magic), payload))
}

/// `RawNetworkMessage::new` and its consensus encoding, for a `tx` message: as for every message,
/// and what follows the header is the encoding of the transaction.
#[verifier::external_body]
fn encode_tx(magic: [u8; 4], raw: &[u8]) -> (frame: Vec<u8>)
    requires
        tx::is_transaction(raw@),
        raw@.len() <= u32::MAX,
    ensures
        frame@ == encoded_message(magic@, WireView::Tx(raw@)),
        frame_facts(frame@, magic@, WireView::Tx(raw@)),
        frame@.skip(24) == raw@,
{
    let payload = NetworkMessage::Tx(bitcoin::consensus::deserialize(raw).unwrap());
    bitcoin::consensus::serialize(&RawNetworkMessage::new(Magic::from_bytes(magic), payload))
}

/// `RawNetworkMessage::new` and its consensus encoding, for a `getdata` message that asks for
/// transactions by their ids.
#[verifier::external_body]
fn encode_getdata(magic: [u8; 4], ids: &Vec<Txid>) -> (frame: Vec<u8>)
    requires
        36 * ids@.len() + 9 <= u32::MAX,
    ensures
        frame@ == encoded_message(magic@, WireView::GetData(ids@)),
        frame_facts(frame@, magic@, WireView::GetData(ids@)),
{
    let items = ids.iter().map(|id| Inventory::Transaction(bitcoin::hashes::Hash::from_byte_array(id.bytes)));
    let payload = NetworkMessage::GetData(items.collect());
    bitcoin::consensus::serialize(&RawNetworkMessage::new(Magic::from_bytes(magic), payload))
}

/// A message without contents.
#[derive(Clone, Copy)]
enum Bare {
    Verack,
    MemPool,
    GetAddr,
    SendAddrV2,
}

/// The message without contents.
spec fn bare_wire(bare: Bare) -> WireView {
    match bare {
        Bare::Verack => WireView::Verack,
        Bare::MemPool => WireView::MemPool,
        Bare::GetAddr => WireView::GetAddr,
        Bare::SendAddrV2 => WireView::SendAddrV2,
    }
}

/// `RawNetworkMessage::new` and its consensus encoding, for a message without contents.
#[verifier::external_body]
fn encode_bare(magic: [u8; 4], bare: Bare) -> (frame: Vec<u8>)
    ensures
        frame@ == encoded_message(magic@, bare_wire(bare)),
        frame_facts(frame@, magic@, bare_wire(bare)),
{
    let payload = match bare {
        Bare::Verack => NetworkMessage::Verack,
        Bare::MemPool => NetworkMessage::MemPool,
        Bare::GetAddr => NetworkMessage::GetAddr,
        Bare::SendAddrV2 => NetworkMessage::SendAddrV2,
    };
    bitcoin::consensus::serialize(&RawNetworkMessage::new(Magic::from_bytes(magic), payload))
}

/// A decoded message, without the entries of a list.
enum Plain {
    Version { services: u64, user_agent: String },
    Verack,
    Tx(Vec<u8>),
    Inv,
    NotFound,
    Addr,
    AddrV2,
    Other,
}

/// Whether `plain` is `message`, without the entries of a list.
spec fn is_plain_of(plain: Plain, message: MessageView) -> bool {
    match plain {
        Plain::Version { services, user_agent } => message == (MessageView::Version {
            services,
            user_agent: user_agent@,
        }),
        Plain::Verack => message is Verack,
        Plain::Tx(raw) => tx::is_transaction(raw@) && tx::reads_back(raw@) && message == MessageView::Tx(
            TxView { raw: raw@, txid: tx::computed_txid(raw@) },
        ),
        Plain::Inv => message is Inv,
        Plain::NotFound => message is NotFound,
        Plain::Addr => message is Addr,
        Plain::AddrV2 => message is AddrV2,
        Plain::Other => message is Other,
    }
}

/// `RawNetworkMessage::consensus_decode` on a cursor, down to which message it is and the contents
/// of those that hold no list. A transaction is handed out as its own encoding. What is decoded
/// is a header and at least as many bytes as it announces, with the right checksum.
#[verifier::external_body]
fn decode_plain(frame: &[u8]) -> (r: Option<Plain>)
    ensures
        r is Some <==> decoded_message(frame@) is Some,
        r matches Some(plain) ==> is_plain_of(plain, decoded_message(frame@)->0),
        r is Some ==> frame@.len() >= 24 && frame@.len() >= 24 + announced_len(frame@),
        r is Some ==> frame@.subrange(20, 24) == payload_checksum(
            frame@.subrange(24, 24 + announced_len(frame@) as int),
        ),
{
    let raw = RawNetworkMessage::consensus_decode(&mut bitcoin::io::Cursor::new(frame)).ok()?;
    Some(match raw.into_payload() {
        NetworkMessage::Version(v) => Plain::Version { services: v.services.to_u64(), user_agent: v.user_agent },
        NetworkMessage::Verack => Plain::Verack,
        NetworkMessage::Tx(tx) => Plain::Tx(bitcoin::consensus::serialize(&tx)),
        NetworkMessage::Inv(_) => Plain::Inv,
        NetworkMessage::NotFound(_) => Plain::NotFound,
        NetworkMessage::Addr(_) => Plain::Addr,
        NetworkMessage::AddrV2(_) => Plain::AddrV2,
        _ => Plain::Other,
    })
}

/// `RawNetworkMessage::consensus_decode` on a cursor, for the entries of an `inv` or a `notfound`
/// message, in order.
#[verifier::external_body]
fn decode_inventory(frame: &[u8]) -> (items: Vec<InvItem>)
    requires
        decoded_message(frame@) is Some,
    ensures
        decoded_message(frame@)->0 matches MessageView::Inv(list) ==> items@ == list,
        decoded_message(frame@)->0 matches MessageView::NotFound(list) ==> items@ == list,
{
    let raw = RawNetworkMessage::consensus_decode(&mut bitcoin::io::Cursor::new(frame)).unwrap();
    let item = |entry: Inventory| match entry {
        Inventory::Transaction(id) => InvItem::Transaction(Txid { bytes: bitcoin::hashes::Hash::to_byte_array(id) }),
        _ => InvItem::Other,
    };
    match raw.into_payload() {
        NetworkMessage::Inv(list) | NetworkMessage::NotFound(list) => list.into_iter().map(item).collect(),
        _ => Vec::new(),
    }
}

/// `RawNetworkMessage::consensus_decode` on a cursor, for the entries of an `addr` message, in
/// order and without the times.
#[verifier::external_body]
fn decode_addr(frame: &[u8]) -> (entries: Vec<AddrEntry>)
    requires
        decoded_message(frame@) is Some,
    ensures
        decoded_message(frame@)->0 matches MessageView::Addr(list) ==> entries@ == list,
{
    let raw = RawNetworkMessage::consensus_decode(&mut bitcoin::io::Cursor::new(frame)).unwrap();
    let entry = |(_, a): (u32, Address)| AddrEntry { services: a.services.to_u64(), address: a.address, port: a.port };
    match raw.into_payload() {
        NetworkMessage::Addr(list) => list.into_iter().map(entry).collect(),
        _ => Vec::new(),
    }
}

/// `RawNetworkMessage::consensus_decode` on a cursor, for the entries of an `addrv2` message, in
/// order and without the times.
#[verifier::external_body]
fn decode_addr_v2(frame: &[u8]) -> (entries: Vec<AddrV2Entry>)
    requires
        decoded_message(frame@) is Some,
    ensures
        decoded_message(frame@)->0 matches MessageView::AddrV2(list) ==> entries@ == list,
{
    let raw = RawNetworkMessage::consensus_decode(&mut bitcoin::io::Cursor::new(frame)).unwrap();
    let host = |addr: AddrV2| match addr {
        AddrV2::Ipv4(ip) => AddrV2Host::Ipv4(ip.octets()),
        AddrV2::Ipv6(ip) => AddrV2Host::Ipv6(ip.segments()),
        AddrV2::TorV3(key) => AddrV2Host::TorV3(key),
        _ => AddrV2Host::Other,
    };
    match raw.into_payload() {
        NetworkMessage::AddrV2(list) =>
            list.into_iter().map(|a| AddrV2Entry { services: a.services.to_u64(), host: host(a.addr), port: a.port }).collect(),
        _ => Vec::new(),
    }
}

/// The message in a frame; `None` where there is none, and so where the frame is cut short or the
/// checksum is wrong.
pub fn decode_message(frame: &[u8]) -> (r: Option<Message>)
    ensures
        !well_framed(frame@) ==> r is None,
        r is Some <==> decoded_message(frame@) is Some,
        r matches Some(message) ==> decoded_message(frame@) == Some(message@),
{
    match decode_plain(frame) {
        None => None,
        Some(plain) => {
            let message = match plain {
                Plain::Version { services, user_agent } => Message::Version {
                    services,
                    user_agent,
                },
                Plain::Verack => Message::Verack,
                Plain::Tx(raw) => Message::Tx(Tx::from_raw(raw)),
                Plain::Inv => Message::Inv(decode_inventory(frame)),
                Plain::NotFound => Message::NotFound(decode_inventory(frame)),
                Plain::Addr => Message::Addr(decode_addr(frame)),
                Plain::AddrV2 => Message::AddrV2(decode_addr_v2(frame)),
                Plain::Other => Message::Other,
            };
            Some(message)
        },
    }
}

/// How long a header is.
pub const HEADER_LEN: usize = 24;

/// How many bytes follow a header.
pub fn payload_len(header: &[u8]) -> (len: usize)
    requires
        header@.len() == HEADER_LEN,
    ensures
        len == announced_len(header@),
{
    let len: u32 = header[16] as u32 + 256 * (header[17] as u32) + 65536 * (header[18] as u32)
        + 16777216 * (header[19] as u32);
    len as usize
}

/// The message that a header and the bytes after it hold; `None` where they hold none, and so where
/// bytes are missing or the checksum is wrong.
pub fn read_msg(header: &[u8], payload: &[u8]) -> (r: Option<Message>)
    ensures
        !well_framed(header@ + payload@) ==> r is None,
        r is Some <==> decoded_message(header@ + payload@) is Some,
        r matches Some(message) ==> decoded_message(header@ + payload@) == Some(message@),
{
    let mut frame: Vec<u8> = Vec::new();
    frame.extend_from_slice(header);
    frame.extend_from_slice(payload);
    assert(frame@ =~= header@ + payload@);
    decode_message(frame.as_slice())
}

/// `rand::random`: any number.
#[verifier::external_body]
fn random_nonce() -> (nonce: u64) {
    rand::random::<u64>()
}

/// `SystemTime::elapsed` of the Unix epoch, in whole seconds: whatever the clock shows, `None`
/// where it shows a time before the epoch.
#[verifier::external_body]
fn unix_seconds() -> (seconds: Option<u64>) {
    std::time::UNIX_EPOCH.elapsed().ok().map(|since| since.as_secs())
}

/// The name under which this node introduces itself.
pub const USER_AGENT: &'static str = "/Satoshi:29.2.0/Knots:20251110/UASF-BIP110:0.1/";

/// No address at all, as an IPv4 address mapped into IPv6.
pub open spec fn is_unspecified(entry: AddrEntry, services: u64) -> bool {
    &&& entry.services == services
    &&& entry.address@ == seq![0u16, 0, 0, 0, 0, 0xffff, 0, 0]
    &&& entry.port == 0
}

/// Whether `v` is the introduction of this node, made at `timestamp`.
pub open spec fn is_introduction(
    v: VersionView,
    relay: bool,
    timestamp: i64,
    nonce: u64,
) -> bool {
    &&& v.version == 70016
    &&& v.services == (NODE_NETWORK | NODE_WITNESS | NODE_LIBRE_RELAY)
    &&& v.timestamp == timestamp
    &&& is_unspecified(v.receiver, NODE_NETWORK | NODE_LIBRE_RELAY)
    &&& is_unspecified(v.sender, NODE_NETWORK | NODE_WITNESS | NODE_LIBRE_RELAY)
    &&& v.nonce == nonce
    &&& v.user_agent == USER_AGENT@
    &&& v.start_height == 897157
    &&& v.relay == relay
}

/// Every introduction of this node advertises the relay service, at whatever time it is made.
pub proof fn law_introduction_advertises_the_relay_service(
    v: VersionView,
    relay: bool,
    timestamp: i64,
    nonce: u64,
)
    requires
        is_introduction(v, relay, timestamp, nonce),
    ensures
        address::offers(v.services, NODE_LIBRE_RELAY),
        address::offers(v.receiver.services, NODE_LIBRE_RELAY),
        address::offers(v.sender.services, NODE_LIBRE_RELAY),
{
    assert((1u64 | 8u64 | 536_870_912u64) | 536_870_912u64 == (1u64 | 8u64 | 536_870_912u64))
        by (bit_vector);
    assert((1u64 | 536_870_912u64) | 536_870_912u64 == (1u64 | 536_870_912u64)) by (bit_vector);
}

/// The introduction of this node at a time, in seconds since the Unix epoch.
pub fn version_at(relay: bool, seconds: u64, nonce: u64) -> (v: VersionInfo)
    ensures
        is_introduction(v@, relay, seconds as i64, nonce),
{
    let all = NODE_NETWORK | NODE_WITNESS | NODE_LIBRE_RELAY;
    let v = VersionInfo {
        version: 70016,
        services: all,
        timestamp: seconds as i64,
        receiver: AddrEntry {
            services: NODE_NETWORK | NODE_LIBRE_RELAY,
            address: [0, 0, 0, 0, 0, 0xffff, 0, 0],
            port: 0,
        },
        sender: AddrEntry { services: all, address: [0, 0, 0, 0, 0, 0xffff, 0, 0], port: 0 },
        nonce,
        user_agent: USER_AGENT.to_owned(),
        start_height: 897157,
        relay,
    };
    assert(v.receiver.address@ =~= seq![0u16, 0, 0, 0, 0, 0xffff, 0, 0]);
    assert(v.sender.address@ =~= seq![0u16, 0, 0, 0, 0, 0xffff, 0, 0]);
    v
}

/// The introduction of this node for what the clock shows, in seconds since the Unix epoch: there
/// is one unless the clock shows a time before the epoch.
pub fn version_for(relay: bool, clock: Option<u64>, nonce: u64) -> (r: Option<VersionInfo>)
    ensures
        match clock {
            Some(seconds) => r matches Some(v) && is_introduction(
                v@,
                relay,
                seconds as i64,
                nonce,
            ),
            None => r is None,
        },
{
    match clock {
        Some(seconds) => Some(version_at(relay, seconds, nonce)),
        None => None,
    }
}

/// The introduction of this node now, with a nonce of its own; `None` where the clock shows a
/// time before the Unix epoch. What the clock and chance give is left open: [`version_for`] says
/// what comes of each.
pub fn build_version_msg(relay: bool) -> (r: Option<VersionInfo>)
    ensures
        r matches Some(v) ==> is_introduction(v@, relay, v@.timestamp, v@.nonce),
{
    version_for(relay, unix_seconds(), random_nonce())
}

/// The magic bytes of the main network.
pub open spec fn mainnet() -> Seq<u8> {
    seq![0xf9u8, 0xbe, 0xb4, 0xd9]
}

/// Whether `message` is what `request` asks to send.
pub open spec fn carries(message: WireView, request: RequestView) -> bool {
    match request {
        RequestView::Version { relay } => message matches WireView::Version(v) && is_introduction(
            v,
            relay,
            v.timestamp,
            v.nonce,
        ),
        RequestView::Verack => message is Verack,
        RequestView::MemPool => message is MemPool,
        RequestView::GetAddr => message is GetAddr,
        RequestView::SendAddrV2 => message is SendAddrV2,
        RequestView::Tx(tx) => message == WireView::Tx(tx.raw),
        RequestView::GetData(ids) => message == WireView::GetData(ids),
    }
}

/// Whether the length of a request fits the header of a frame.
pub open spec fn is_sendable(request: RequestView) -> bool {
    match request {
        RequestView::Tx(tx) => tx.raw.len() <= u32::MAX,
        RequestView::GetData(ids) => 36 * ids.len() + 9 <= u32::MAX,
        _ => true,
    }
}

/// The frame that sends a request at the time that the clock shows; `None` where an introduction
/// would need a time and the clock shows one before the Unix epoch.
pub fn frame_for(request: &Request, clock: Option<u64>, nonce: u64) -> (r: Option<Vec<u8>>)
    requires
        is_sendable(request@),
    ensures
        r is None <==> request@ is Version && clock is None,
        r matches Some(frame) ==> exists|message: WireView|
            #![trigger encoded_message(mainnet(), message)]
            {
                &&& carries(message, request@)
                &&& message matches WireView::Version(v) ==> v.timestamp == clock->0 as i64
                    && v.nonce == nonce
                &&& frame@ == encoded_message(mainnet(), message)
                &&& frame_facts(frame@, mainnet(), message)
            },
        r matches Some(frame) ==> (request@ matches RequestView::Tx(tx) ==> frame@.skip(24)
            == tx.raw),
        r matches Some(frame) ==> (request@ is Version ==> frame@.len() <= 159),
{
    let magic: [u8; 4] = [0xf9, 0xbe, 0xb4, 0xd9];
    assert(magic@ =~= mainnet());
    match request {
        Request::Version { relay } => match version_for(*relay, clock, nonce) {
            Some(v) => {
                proof {
                    lemma_user_agent_is_short();
                }
                Some(encode_version(magic, &v))
            },
            None => None,
        },
        Request::Verack => Some(encode_bare(magic, Bare::Verack)),
        Request::MemPool => Some(encode_bare(magic, Bare::MemPool)),
        Request::GetAddr => Some(encode_bare(magic, Bare::GetAddr)),
        Request::SendAddrV2 => Some(encode_bare(magic, Bare::SendAddrV2)),
        Request::Tx(tx) => Some(encode_tx(magic, tx.raw())),
        Request::GetData(ids) => Some(encode_getdata(magic, ids)),
    }
}

/// The frame that sends a request now; `None` where an introduction would need a time and the clock
/// shows one before the Unix epoch. What the clock and chance give is left open: [`frame_for`] says
/// what comes of each.
pub fn send_msg(request: &Request) -> (r: Option<Vec<u8>>)
    requires
        is_sendable(request@),
    ensures
        !(request@ is Version) ==> r is Some,
        r matches Some(frame) ==> exists|message: WireView|
            #![trigger encoded_message(mainnet(), message)]
            {
                &&& carries(message, request@)
                &&& frame@ == encoded_message(mainnet(), message)
                &&& frame_facts(frame@, mainnet(), message)
            },
        r matches Some(frame) ==> (request@ matches RequestView::Tx(tx) ==> frame@.skip(24)
            == tx.raw),
        r matches Some(frame) ==> (request@ is Version ==> frame@.len() <= 159),
{
    frame_for(request, unix_seconds(), random_nonce())
}

/// The name of this node is ASCII and 47 characters long.
proof fn lemma_user_agent_is_short()
    ensures
        utf8::encode_utf8(USER_AGENT@).len() == 47,
{
    reveal_strlit("/Satoshi:29.2.0/Knots:20251110/UASF-BIP110:0.1/");
    utf8::is_ascii_chars_encode_utf8(USER_AGENT@);
}

/// Reading what was sent, whatever comes after it: a reader that takes a header off a stream, and
/// then as many bytes as the header announces, has read the frame to its end and nothing of what
/// follows, and understands the message that was sent, unless the frame is longer than those that
/// are decoded.
pub proof fn law_sent_frame_is_read_whole(
    frame: Seq<u8>,
    magic: Seq<u8>,
    message: WireView,
    rest: Seq<u8>,
)
    requires
        frame_facts(frame, magic, message),
    ensures
        ({
            let stream = frame + rest;
            let header = stream.take(HEADER_LEN as int);
            let end = HEADER_LEN + announced_len(header);
            let payload = stream.subrange(HEADER_LEN as int, end);
            &&& header + payload == frame
            &&& stream.skip(end) == rest
            &&& well_framed(header + payload)
            &&& frame.len() <= MAX_FRAME_LEN ==> decoded_message(header + payload) == Some(
                received_as(message),
            )
        }),
{
    let stream = frame + rest;
    let header = stream.take(HEADER_LEN as int);
    let end = HEADER_LEN + announced_len(header);
    let payload = stream.subrange(HEADER_LEN as int, end);
    assert(header =~= frame.take(HEADER_LEN as int));
    assert(announced_len(header) == announced_len(frame));
    assert(header + payload =~= frame);
    assert(stream.skip(end) =~= rest);
}

/// A frame that was sent and is cut short, wherever that is, is no frame, so that no message is
/// read from it.
pub proof fn law_cut_frame_is_refused(
    frame: Seq<u8>,
    magic: Seq<u8>,
    message: WireView,
    kept: int,
)
    requires
        frame_facts(frame, magic, message),
        0 <= kept < frame.len(),
    ensures
        !well_framed(frame.take(kept)),
{
    if kept >= 24 {
        assert(announced_len(frame.take(kept)) == announced_len(frame));
    }
}

/// A header with another checksum than that of the bytes which it announces makes no frame with
/// them, so that no message is read.
pub proof fn law_wrong_checksum_is_refused(header: Seq<u8>, payload: Seq<u8>)
    requires
        header.len() == HEADER_LEN,
        payload.len() == announced_len(header),
        header.subrange(20, 24) != payload_checksum(payload),
    ensures
        !well_framed(header + payload),
{
    let frame = header + payload;
    assert(announced_len(frame) == announced_len(header));
    assert(frame.subrange(20, 24) =~= header.subrange(20, 24));
    assert(frame.subrange(24, 24 + announced_len(frame) as int) =~= payload);
}

/// What messages and requests say, told from what they hold.
pub proof fn law_wire_views(
    services: u64,
    user_agent: String,
    tx: Tx,
    items: Vec<InvItem>,
    addrs: Vec<AddrEntry>,
    addrs_v2: Vec<AddrV2Entry>,
    relay: bool,
    ids: Vec<Txid>,
    v: VersionInfo,
)
    ensures
        (Message::Version { services, user_agent })@ == (MessageView::Version {
            services,
            user_agent: user_agent@,
        }),
        Message::Verack@ == MessageView::Verack,
        Message::Tx(tx)@ == MessageView::Tx(tx@),
        Message::Inv(items)@ == MessageView::Inv(items@),
        Message::NotFound(items)@ == MessageView::NotFound(items@),
        Message::Addr(addrs)@ == MessageView::Addr(addrs@),
        Message::AddrV2(addrs_v2)@ == MessageView::AddrV2(addrs_v2@),
        Message::Other@ == MessageView::Other,
        (Request::Version { relay })@ == (RequestView::Version { relay }),
        Request::Verack@ == RequestView::Verack,
        Request::MemPool@ == RequestView::MemPool,
        Request::GetAddr@ == RequestView::GetAddr,
        Request::SendAddrV2@ == RequestView::SendAddrV2,
        Request::Tx(tx)@ == RequestView::Tx(tx@),
        Request::GetData(ids)@ == RequestView::GetData(ids@),
        v@.version == v.version,
        v@.services == v.services,
        v@.timestamp == v.timestamp,
        v@.receiver == v.receiver,
        v@.sender == v.sender,
        v@.nonce == v.nonce,
        v@.user_agent == v.user_agent@,
        v@.start_height == v.start_height,
        v@.relay == v.relay,
{
}

/// What an introduction of this node says, field by field.
pub proof fn law_introduction(v: VersionView, relay: bool, timestamp: i64, nonce: u64)
    ensures
        is_introduction(v, relay, timestamp, nonce) <==> {
            &&& v.version == 70016
            &&& v.services == 536_870_921
            &&& v.timestamp == timestamp
            &&& v.receiver.services == 536_870_913 && v.sender.services == 536_870_921
            &&& forall|i: int|
                0 <= i < 8 ==> #[trigger] v.receiver.address@[i] == if i == 5 {
                    65535
                } else {
                    0int
                }
            &&& forall|i: int|
                0 <= i < 8 ==> #[trigger] v.sender.address@[i] == if i == 5 {
                    65535
                } else {
                    0int
                }
            &&& v.receiver.port == 0 && v.sender.port == 0
            &&& v.nonce == nonce
            &&& v.user_agent == "/Satoshi:29.2.0/Knots:20251110/UASF-BIP110:0.1/"@
            &&& v.start_height == 897157
            &&& v.relay == relay
        },
{
    assert((1u64 | 8u64 | 536_870_912u64) == 536_870_921u64) by (bit_vector);
    assert((1u64 | 536_870_912u64) == 536_870_913u64) by (bit_vector);
    let nowhere = seq![0u16, 0, 0, 0, 0, 0xffff, 0, 0];
    assert(v.receiver.address@ == nowhere <==> forall|i: int|
        0 <= i < 8 ==> #[trigger] v.receiver.address@[i] == if i == 5 {
            65535
        } else {
            0int
        }) by {
        if forall|i: int|
            0 <= i < 8 ==> #[trigger] v.receiver.address@[i] == if i == 5 {
                65535
            } else {
                0int
            } {
            assert(v.receiver.address@ =~= nowhere);
        }
    }
    assert(v.sender.address@ == nowhere <==> forall|i: int|
        0 <= i < 8 ==> #[trigger] v.sender.address@[i] == if i == 5 {
            65535
        } else {
            0int
        }) by {
        if forall|i: int|
            0 <= i < 8 ==> #[trigger] v.sender.address@[i] == if i == 5 {
                65535
            } else {
                0int
            } {
            assert(v.sender.address@ =~= nowhere);
        }
    }
}

/// What a message that carries a request is, for every request; how much a header announces, for every
/// header; and the bytes with which every frame starts.
pub proof fn law_requests_and_headers(message: WireView, header: Seq<u8>, tx: TxView, ids: Seq<Txid>)
    ensures
        carries(message, RequestView::Verack) <==> message == WireView::Verack,
        carries(message, RequestView::MemPool) <==> message == WireView::MemPool,
        carries(message, RequestView::GetAddr) <==> message == WireView::GetAddr,
        carries(message, RequestView::SendAddrV2) <==> message == WireView::SendAddrV2,
        carries(message, RequestView::Tx(tx)) <==> message == WireView::Tx(tx.raw),
        carries(message, RequestView::GetData(ids)) <==> message == WireView::GetData(ids),
        forall|relay: bool| #[trigger]
            carries(message, RequestView::Version { relay }) <==> (
            message matches WireView::Version(v) && is_introduction(v, relay, v.timestamp, v.nonce)),
        announced_len(header) == header[16] + 256 * (header[17] + 256 * (header[18] + 256
            * header[19])),
        mainnet().len() == 4,
        mainnet()[0] == 249,
        mainnet()[1] == 190,
        mainnet()[2] == 180,
        mainnet()[3] == 217,
        HEADER_LEN == 24,
        is_sendable(RequestView::Tx(tx)) <==> tx.raw.len() <= 4_294_967_295,
        is_sendable(RequestView::GetData(ids)) <==> 36 * ids.len() + 9 <= 4_294_967_295,
        forall|request: RequestView|
            !(request is Tx || request is GetData) ==> #[trigger] is_sendable(request),
{
}

/// When bytes are a frame, told from the bytes: there is a header, there are as many bytes after it as
/// it announces, and its last four are their checksum. What the other end makes of a message is what
/// was sent.
pub proof fn law_frames(
    header: Seq<u8>,
    payload: Seq<u8>,
    rest: Seq<u8>,
    v: VersionView,
    raw: Seq<u8>,
    ids: Seq<Txid>,
)
    requires
        header.len() == 24,
        payload.len() == header[16] + 256 * (header[17] + 256 * (header[18] + 256 * header[19])),
    ensures
        well_framed(header + payload + rest) <==> header.subrange(20, 24) == payload_checksum(
            payload,
        ),
        is_frame(header + payload, header.take(4)),
        rest.len() > 0 ==> !is_frame(header + payload + rest, header.take(4)),
        received_as(WireView::Version(v)) == (MessageView::Version {
            services: v.services,
            user_agent: v.user_agent,
        }),
        received_as(WireView::Verack) == MessageView::Verack,
        received_as(WireView::Tx(raw)) == MessageView::Tx(
            TxView { raw, txid: tx::computed_txid(raw) },
        ),
        received_as(WireView::MemPool) == MessageView::Other,
        received_as(WireView::GetAddr) == MessageView::Other,
        received_as(WireView::SendAddrV2) == MessageView::Other,
        received_as(WireView::GetData(ids)) == MessageView::Other,
        MAX_FRAME_LEN == 5_000_000,
{
    let frame = header + payload + rest;
    assert(announced_len(frame) == payload.len());
    assert(frame.subrange(20, 24) =~= header.subrange(20, 24));
    assert(frame.subrange(24, 24 + payload.len() as int) =~= payload);
    assert(announced_len(header + payload) == payload.len());
    assert((header + payload).take(4) =~= header.take(4));
}

} // verus!
