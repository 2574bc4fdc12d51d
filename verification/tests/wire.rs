use bitcoin::consensus::Encodable;
use bitcoin::p2p::address::{AddrV2, AddrV2Message};
use bitcoin::p2p::message::{NetworkMessage, RawNetworkMessage};
use bitcoin::p2p::message_blockdata::Inventory;
use bitcoin::p2p::{Address, Magic, ServiceFlags};
use tx_pigeon::tx::{deserialize_transaction_hex, Txid};
use tx_pigeon::wire::{
    build_version_msg, decode_message, frame_for, payload_len, read_msg, send_msg, version_at, version_for,
    AddrEntry, AddrV2Entry, AddrV2Host, InvItem, Message, Request, HEADER_LEN, USER_AGENT,
};

const GENESIS: &str = "01000000010000000000000000000000000000000000000000000000000000000000000000ffffffff4d04ffff001d0104455468652054696d65732030332f4a616e2f32303039204368616e63656c6c6f72206f6e206272696e6b206f66207365636f6e64206261696c6f757420666f722062616e6b73ffffffff0100f2052a01000000434104678afdb0fe5548271967f1a67130b7105cd6a828e03909a67962e0ea1f61deb649f6bc3f4cef38c4f35504e51ec112de5c384df7ba0b8d578a4c702b6bf11d5fac00000000";

fn frame(message: NetworkMessage) -> Vec<u8> {
    let mut bytes = Vec::new();
    RawNetworkMessage::new(Magic::BITCOIN, message).consensus_encode(&mut bytes).unwrap();
    bytes
}

fn hash(byte: u8) -> bitcoin::Txid {
    bitcoin::hashes::Hash::from_byte_array([byte; 32])
}

#[test]
fn verack_has_its_known_bytes() {
    let bytes = send_msg(&Request::Verack).unwrap();
    assert_eq!(hex::encode(&bytes), "f9beb4d976657261636b000000000000000000005df6e0e2");
    assert_eq!(bytes, frame(NetworkMessage::Verack));
}

#[test]
fn bare_requests_are_what_they_say() {
    assert_eq!(send_msg(&Request::MemPool).unwrap(), frame(NetworkMessage::MemPool));
    assert_eq!(send_msg(&Request::GetAddr).unwrap(), frame(NetworkMessage::GetAddr));
    assert_eq!(send_msg(&Request::SendAddrV2).unwrap(), frame(NetworkMessage::SendAddrV2));
}

#[test]
fn getdata_asks_for_transactions() {
    let ids = vec![Txid { bytes: [1; 32] }, Txid { bytes: [2; 32] }];
    let expected = frame(NetworkMessage::GetData(vec![
        Inventory::Transaction(hash(1)),
        Inventory::Transaction(hash(2)),
    ]));
    assert_eq!(send_msg(&Request::GetData(ids)).unwrap(), expected);
    assert_eq!(expected.len(), 24 + 1 + 2 * 36);
}

#[test]
fn a_transaction_is_sent_byte_for_byte() {
    let tx = deserialize_transaction_hex(GENESIS).unwrap();
    let bytes = send_msg(&Request::Tx(tx.duplicate())).unwrap();
    assert_eq!(hex::encode(&bytes[24..]), GENESIS);
    match decode_message(&bytes) {
        Some(Message::Tx(received)) => {
            assert_eq!(received.txid(), tx.txid());
            assert_eq!(received.raw(), tx.raw());
        }
        other => panic!("{other:?}"),
    }
}

#[test]
fn the_introduction_says_who_we_are() {
    let v = version_at(true, 1_700_000_000, 42);
    assert_eq!(v.version, 70016);
    assert_eq!(v.services, 1 | 8 | (1 << 29));
    assert_eq!(v.timestamp, 1_700_000_000);
    let nowhere = [0, 0, 0, 0, 0, 0xffff, 0, 0];
    assert_eq!(v.receiver, AddrEntry { services: 1 | (1 << 29), address: nowhere, port: 0 });
    assert_eq!(v.sender, AddrEntry { services: 1 | 8 | (1 << 29), address: nowhere, port: 0 });
    assert_eq!(v.nonce, 42);
    assert_eq!(v.user_agent, "/Satoshi:29.2.0/Knots:20251110/UASF-BIP110:0.1/");
    assert_eq!(v.start_height, 897157);
    assert!(v.relay);
    assert!(!version_at(false, 0, 0).relay);
}

#[test]
fn without_a_time_there_is_no_introduction() {
    assert_eq!(version_for(true, None, 42), None);
    assert_eq!(version_for(true, Some(7), 42), Some(version_at(true, 7, 42)));
    assert_eq!(version_for(false, Some(0), 1).map(|v| (v.timestamp, v.relay)), Some((0, false)));
}

#[test]
fn introductions_are_made_now_and_differ() {
    let a = build_version_msg(true).unwrap();
    let b = build_version_msg(true).unwrap();
    assert!(a.timestamp > 1_700_000_000);
    assert_ne!(a.nonce, b.nonce);
}

#[test]
fn an_introduction_is_understood() {
    let bytes = send_msg(&Request::Version { relay: true }).unwrap();
    assert_eq!(&bytes[..16], b"\xf9\xbe\xb4\xd9version\0\0\0\0\0");
    match decode_message(&bytes) {
        Some(Message::Version { services, user_agent }) => {
            assert_eq!(services, 1 | 8 | (1 << 29));
            assert_eq!(user_agent, USER_AGENT);
        }
        other => panic!("{other:?}"),
    }
    let off = send_msg(&Request::Version { relay: false }).unwrap();
    assert_eq!(bytes.len(), 157);
    assert_eq!(bytes[bytes.len() - 1], 1);
    assert_eq!(off[off.len() - 1], 0);
}

#[test]
fn a_header_announces_the_rest() {
    let bytes = send_msg(&Request::Tx(deserialize_transaction_hex(GENESIS).unwrap())).unwrap();
    assert_eq!(payload_len(&bytes[..HEADER_LEN]), 204);
    assert_eq!(bytes.len(), HEADER_LEN + 204);
    let mut header = [0u8; 24];
    header[16] = 1;
    header[17] = 2;
    header[18] = 3;
    header[19] = 4;
    assert_eq!(payload_len(&header), 0x04030201);
}

#[test]
fn header_and_payload_are_read_together() {
    let bytes = frame(NetworkMessage::Verack);
    assert!(matches!(read_msg(&bytes, &[]), Some(Message::Verack)));
    let inv = frame(NetworkMessage::Inv(vec![
        Inventory::Transaction(hash(5)),
        Inventory::WitnessTransaction(hash(6)),
        Inventory::Transaction(hash(7)),
    ]));
    match read_msg(&inv[..24], &inv[24..]) {
        Some(Message::Inv(items)) => assert_eq!(
            items,
            vec![
                InvItem::Transaction(Txid { bytes: [5; 32] }),
                InvItem::Other,
                InvItem::Transaction(Txid { bytes: [7; 32] }),
            ]
        ),
        other => panic!("{other:?}"),
    }
}

#[test]
fn the_frame_of_an_introduction_follows_the_clock() {
    assert!(frame_for(&Request::Version { relay: true }, None, 42).is_none());
    let bytes = frame_for(&Request::Version { relay: true }, Some(0x01020304), 42).unwrap();
    assert_eq!(bytes[36..44], [4, 3, 2, 1, 0, 0, 0, 0]);
    assert_eq!(bytes[96..104], [42, 0, 0, 0, 0, 0, 0, 0]);
    assert_eq!(frame_for(&Request::Verack, None, 0), send_msg(&Request::Verack));
}

#[test]
fn frames_are_read_off_a_stream_one_by_one() {
    let mut stream = send_msg(&Request::Tx(deserialize_transaction_hex(GENESIS).unwrap())).unwrap();
    stream.extend(send_msg(&Request::Verack).unwrap());
    let end = HEADER_LEN + payload_len(&stream[..HEADER_LEN]);
    let first = read_msg(&stream[..HEADER_LEN], &stream[HEADER_LEN..end]);
    assert!(matches!(first, Some(Message::Tx(_))));
    assert!(matches!(read_msg(&stream[end..], &[]), Some(Message::Verack)));
}

#[test]
fn frames_cut_short_are_refused() {
    let bytes = send_msg(&Request::Tx(deserialize_transaction_hex(GENESIS).unwrap())).unwrap();
    for kept in 0..bytes.len() {
        assert!(decode_message(&bytes[..kept]).is_none());
    }
}

#[test]
fn the_checksum_is_that_of_the_payload() {
    let bytes = send_msg(&Request::Tx(deserialize_transaction_hex(GENESIS).unwrap())).unwrap();
    let checked = bitcoin::consensus::encode::CheckedData::new(bytes[24..].to_vec());
    assert_eq!(bytes[20..24], checked.checksum());
    for at in 20..24 {
        let mut wrong = bytes.clone();
        wrong[at] ^= 1;
        assert!(decode_message(&wrong).is_none());
    }
}

#[test]
fn broken_frames_are_no_messages() {
    assert!(decode_message(&[]).is_none());
    let mut bytes = send_msg(&Request::Tx(deserialize_transaction_hex(GENESIS).unwrap())).unwrap();
    let last = bytes.len() - 1;
    bytes[last] ^= 1;
    assert!(decode_message(&bytes).is_none());
    assert!(read_msg(&bytes[..24], &[]).is_none());
}

#[test]
fn what_a_peer_lacks_is_read() {
    let bytes = frame(NetworkMessage::NotFound(vec![Inventory::Transaction(hash(9))]));
    match decode_message(&bytes) {
        Some(Message::NotFound(items)) => {
            assert_eq!(items, vec![InvItem::Transaction(Txid { bytes: [9; 32] })])
        }
        other => panic!("{other:?}"),
    }
}

#[test]
fn addresses_are_read() {
    let entry = Address {
        services: ServiceFlags::from(1 << 29),
        address: [0, 0, 0, 0, 0, 0xffff, 0x0102, 0x0304],
        port: 8333,
    };
    match decode_message(&frame(NetworkMessage::Addr(vec![(7, entry)]))) {
        Some(Message::Addr(list)) => assert_eq!(
            list,
            vec![AddrEntry {
                services: 1 << 29,
                address: [0, 0, 0, 0, 0, 0xffff, 0x0102, 0x0304],
                port: 8333
            }]
        ),
        other => panic!("{other:?}"),
    }
    let v2 = |addr: AddrV2| AddrV2Message { time: 1, services: ServiceFlags::from(9), addr, port: 5 };
    let list = vec![
        v2(AddrV2::Ipv4("1.2.3.4".parse().unwrap())),
        v2(AddrV2::Ipv6("2001:db8::1".parse().unwrap())),
        v2(AddrV2::TorV3([3; 32])),
        v2(AddrV2::I2p([4; 32])),
    ];
    match decode_message(&frame(NetworkMessage::AddrV2(list))) {
        Some(Message::AddrV2(entries)) => {
            let entry = |host: AddrV2Host| AddrV2Entry { services: 9, host, port: 5 };
            assert_eq!(
                entries,
                vec![
                    entry(AddrV2Host::Ipv4([1, 2, 3, 4])),
                    entry(AddrV2Host::Ipv6([0x2001, 0xdb8, 0, 0, 0, 0, 0, 1])),
                    entry(AddrV2Host::TorV3([3; 32])),
                    entry(AddrV2Host::Other),
                ]
            );
        }
        other => panic!("{other:?}"),
    }
}

#[test]
fn other_messages_are_just_that() {
    assert!(matches!(decode_message(&frame(NetworkMessage::Ping(1))), Some(Message::Other)));
    assert!(matches!(
        decode_message(&send_msg(&Request::SendAddrV2).unwrap()),
        Some(Message::Other)
    ));
}
