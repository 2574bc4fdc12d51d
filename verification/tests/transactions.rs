use tx_pigeon::hexcode::HexError;
use tx_pigeon::tx::{
    decode_transaction_bytes, decode_transaction_hex, deserialize_transaction_hex,
    encode_transaction_hex, show_txid, TxError, Txid,
};
use tx_pigeon::txid_set::TxidSet;

const GENESIS: &str = "01000000010000000000000000000000000000000000000000000000000000000000000000ffffffff4d04ffff001d0104455468652054696d65732030332f4a616e2f32303039204368616e63656c6c6f72206f6e206272696e6b206f66207365636f6e64206261696c6f757420666f722062616e6b73ffffffff0100f2052a01000000434104678afdb0fe5548271967f1a67130b7105cd6a828e03909a67962e0ea1f61deb649f6bc3f4cef38c4f35504e51ec112de5c384df7ba0b8d578a4c702b6bf11d5fac00000000";
const GENESIS_ID: &str = "4a5e1e4baab89f3a32518a88c31bc87f618f76673e2cc77ab2127b7afdeda33b";
const SEGWIT: &str = "02000000000101000102030405060708090a0b0c0d0e0f101112131415161718191a1b1c1d1e1f0000000000fdffffff01e803000000000000036a012a0102aabb00000000";
const SEGWIT_ID: &str = "64f175937d535bcec52749934c7e94d749d2304644519ba23e956c43cf108906";
const CUT_SHORT: &str = "020000000001019d8c84a78cb5e032c20ce46868a64c0a2f88090f790ab57320b53804484c7a310000000000fdffffff026517000000000000225120ead5bf5032f0564c3f3689d1057c4895311390d11500b94510f5a0fb9f2ba987000000000000000fd94016a4d9001f09f92a9f09f92a9f09f92a9f09f92a9f09f92a9f09f92a9f09f92a9f09f92a9f09f92a9f09f92a9f09f92a9f09f92a9f09f92a9f09f92a9f09f92a9f09f92a9f09f92a9f09f92a9f09f92a9f09f92a9f09f92a9f09f92a9f09f92a9f09f92a9f09f92a9f09f92a90140f38ed8b347a8ec4a5a32ea85d9283a54dc0d18d3298cd1ddb98c6f2ceef24ed6f6b19fab372aafc30185941ac5558f262fe13b3680ff01df3ebe7f37ab0f3de700000000";

#[test]
fn odd_text_is_refused() {
    assert_eq!(decode_transaction_hex("abc").err(), Some(TxError::Hex(HexError::OddLength)));
    assert_eq!(
        deserialize_transaction_hex(CUT_SHORT).err(),
        Some(TxError::Hex(HexError::OddLength))
    );
    assert_eq!(decode_transaction_hex("abz").err(), Some(TxError::Hex(HexError::OddLength)));
}

#[test]
fn other_characters_are_refused() {
    assert_eq!(
        decode_transaction_hex("0x").err(),
        Some(TxError::Hex(HexError::InvalidHexCharacter { c: 'x', index: 1 }))
    );
    assert_eq!(
        deserialize_transaction_hex("zz00").err(),
        Some(TxError::Hex(HexError::InvalidHexCharacter { c: 'z', index: 0 }))
    );
}

#[test]
fn bytes_without_a_transaction_are_refused() {
    assert_eq!(decode_transaction_hex("").err(), Some(TxError::Decode));
    assert_eq!(deserialize_transaction_hex("00").err(), Some(TxError::Decode));
    assert_eq!(decode_transaction_bytes(b"no transaction").err(), Some(TxError::Decode));
}

#[test]
fn a_known_transaction_has_its_known_id() {
    let tx = deserialize_transaction_hex(GENESIS).unwrap();
    assert_eq!(show_txid(&tx.txid()), GENESIS_ID);
    assert_eq!(tx.raw().len(), 204);
}

#[test]
fn the_witness_does_not_change_the_id() {
    let tx = deserialize_transaction_hex(SEGWIT).unwrap();
    assert_eq!(show_txid(&tx.txid()), SEGWIT_ID);
}

#[test]
fn encoding_gives_the_text_back() {
    for text in [GENESIS, SEGWIT] {
        let tx = deserialize_transaction_hex(text).unwrap();
        assert_eq!(encode_transaction_hex(&tx), text);
    }
}

#[test]
fn upper_case_is_spelled_in_lower_case() {
    let tx = deserialize_transaction_hex(&GENESIS.to_uppercase()).unwrap();
    assert_eq!(encode_transaction_hex(&tx), GENESIS);
}

#[test]
fn the_text_of_a_transaction_decodes_to_it() {
    for text in [GENESIS, SEGWIT] {
        let tx = deserialize_transaction_hex(text).unwrap();
        let spelled = encode_transaction_hex(&tx);
        assert_eq!(decode_transaction_hex(&spelled).unwrap().raw(), tx.raw());
        assert_eq!(decode_transaction_hex(&spelled.to_uppercase()).unwrap().raw(), tx.raw());
        assert!(spelled.chars().all(|c| c.is_ascii_digit() || ('a'..='f').contains(&c)));
    }
}

#[test]
fn what_follows_a_transaction_is_ignored_or_refused() {
    let longer = format!("{GENESIS}00ff");
    let tx = decode_transaction_hex(&longer).unwrap();
    assert_eq!(encode_transaction_hex(&tx), GENESIS);
    assert_eq!(deserialize_transaction_hex(&longer).err(), Some(TxError::Decode));
}

#[test]
fn decoding_bytes_and_text_agree() {
    let bytes = hex::decode(SEGWIT).unwrap();
    let tx = decode_transaction_bytes(&bytes).unwrap();
    assert_eq!(tx.raw(), bytes.as_slice());
    assert_eq!(tx.txid(), decode_transaction_hex(SEGWIT).unwrap().txid());
    assert_eq!(tx.duplicate().raw(), tx.raw());
}

#[test]
fn ids_are_shown_backwards() {
    let mut bytes = [0u8; 32];
    bytes[0] = 0x01;
    bytes[31] = 0xab;
    let text = show_txid(&Txid { bytes });
    assert!(text.starts_with("ab00"));
    assert!(text.ends_with("0001"));
    assert_eq!(text.len(), 64);
}

#[test]
fn ids_differ_in_any_byte() {
    let a = Txid { bytes: [7; 32] };
    for i in 0..32 {
        let mut b = a;
        b.bytes[i] = 8;
        assert!(!a.same(&b));
        assert_ne!(show_txid(&a), show_txid(&b));
    }
    assert!(a.same(&Txid { bytes: [7; 32] }));
}

#[test]
fn a_set_of_ids_holds_each_once() {
    let a = Txid { bytes: [1; 32] };
    let b = Txid { bytes: [2; 32] };
    let mut set = TxidSet::new();
    assert!(set.is_empty());
    assert!(set.insert(a));
    assert!(!set.insert(a));
    assert!(set.contains(&a));
    assert!(!set.contains(&b));
    assert!(!set.remove(&b));
    assert!(set.remove(&a));
    assert!(set.is_empty());
    let full = TxidSet::from_ids(&vec![a, b, a]);
    assert!(full.contains(&a) && full.contains(&b));
}
