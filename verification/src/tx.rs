//! Transactions as the library holds them: the bytes that encode one, and its id.
use crate::hexcode;
use crate::hexcode::HexError;
use bitcoin::consensus::{Decodable, Encodable};
use vstd::prelude::*;
use vstd::utf8;

verus! {

/// The id of a transaction, in the order in which it is hashed and sent.
#[derive(Clone, Copy, Debug, PartialEq, Eq, Hash)]
pub struct Txid {
    pub bytes: [u8; 32],
}

impl Txid {
    /// Whether the two ids are the same.
    pub fn same(&self, other: &Txid) -> (r: bool)
        ensures
            r == (*self == *other),
    {
        for i in 0..32usize
            invariant
                forall|j: int| 0 <= j < i ==> self.bytes[j] == other.bytes[j],
        {
            if self.bytes[i] != other.bytes[i] {
                return false;
            }
        }
        assert(self.bytes =~= other.bytes);
        true
    }
}

/// The encoding of the transaction that all of `bytes` stands for, where `bitcoin`'s
/// `consensus::deserialize` takes it for one.
pub uninterp spec fn whole_transaction(bytes: Seq<u8>) -> Option<Seq<u8>>;

/// Whether `raw` is the encoding of a transaction and nothing else.
pub open spec fn is_transaction(raw: Seq<u8>) -> bool {
    whole_transaction(raw) == Some(raw)
}

/// The encoding of the transaction that `bytes` starts with, where `bitcoin`'s
/// `Transaction::consensus_decode` finds one.
pub uninterp spec fn leading_transaction(bytes: Seq<u8>) -> Option<Seq<u8>>;

/// What `bitcoin`'s `Transaction::compute_txid` gives for the transaction that `raw` encodes.
pub uninterp spec fn computed_txid(raw: Seq<u8>) -> Txid;

/// How many bytes `Transaction::consensus_decode` reads at most.
pub open spec fn decode_limit() -> nat {
    4_000_000
}

/// Whether decoding from the start of `raw` finds all of it, unless that is too long to be read.
pub open spec fn reads_back(raw: Seq<u8>) -> bool {
    raw.len() <= decode_limit() ==> leading_transaction(raw) == Some(raw)
}

/// `bitcoin::consensus::deserialize` at `Transaction`: takes bytes that stand for a transaction and
/// nothing more. The transaction is handed out as its own encoding, in which the same call, and
/// decoding from the start, find it again. Up to the size at which `consensus_decode` stops
/// reading, that function finds the same transaction in the bytes. Where `usize` has 64 bits the
/// encoding is the bytes themselves; where it has 32, `bitcoin` cuts a length that the bytes claim
/// to be longer than that.
#[verifier::external_body]
fn deserialize_transaction(bytes: &[u8]) -> (r: Option<Vec<u8>>)
    ensures
        r is Some <==> whole_transaction(bytes@) is Some,
        r matches Some(raw) ==> {
            &&& whole_transaction(bytes@) == Some(raw@)
            &&& whole_transaction(raw@) == Some(raw@)
            &&& reads_back(raw@)
            &&& bytes@.len() <= decode_limit() ==> leading_transaction(bytes@) == Some(raw@)
            &&& usize::BITS == 64 ==> raw@ == bytes@
        },
{
    let tx = bitcoin::consensus::deserialize::<bitcoin::Transaction>(bytes).ok()?;
    Some(bitcoin::consensus::serialize(&tx))
}

/// `Transaction::consensus_decode` on a cursor: decodes a transaction from the start of `bytes`
/// and leaves the rest unread. The transaction is handed out as its own encoding, in which the same
/// call finds it again. Where `usize` has 64 bits that is the part that was read.
#[verifier::external_body]
fn decode_leading_transaction(bytes: &[u8]) -> (r: Option<Vec<u8>>)
    ensures
        r is Some <==> leading_transaction(bytes@) is Some,
        r matches Some(raw) ==> {
            &&& leading_transaction(bytes@) == Some(raw@)
            &&& usize::BITS == 64 ==> raw@.is_prefix_of(bytes@)
            &&& is_transaction(raw@)
            &&& reads_back(raw@)
        },
{
    let tx = bitcoin::Transaction::consensus_decode(&mut bitcoin::io::Cursor::new(bytes)).ok()?;
    let mut raw = Vec::new();
    tx.consensus_encode(&mut raw).ok()?;
    Some(raw)
}

/// `Transaction::compute_txid` on the transaction that `raw` encodes.
#[verifier::external_body]
fn compute_txid_of(raw: &[u8]) -> (r: Txid)
    requires
        is_transaction(raw@),
    ensures
        r == computed_txid(raw@),
{
    let tx: bitcoin::Transaction = bitcoin::consensus::deserialize(raw).unwrap();
    Txid { bytes: bitcoin::hashes::Hash::to_byte_array(tx.compute_txid()) }
}

/// The `Display` text of `bitcoin::Txid`: the bytes in reverse order, in hexadecimal.
#[verifier::external_body]
fn txid_to_string(txid: &Txid) -> (text: String)
    ensures
        text@ == hexcode::hex_text(txid.bytes@.reverse()),
{
    let id: bitcoin::Txid = bitcoin::hashes::Hash::from_byte_array(txid.bytes);
    id.to_string()
}

/// What a [`Tx`] says: the encoding of a transaction, and its id.
pub struct TxView {
    pub raw: Seq<u8>,
    pub txid: Txid,
}

/// A transaction that was decoded.
#[derive(Debug)]
pub struct Tx {
    raw: Vec<u8>,
    txid: Txid,
}

impl View for Tx {
    type V = TxView;

    closed spec fn view(&self) -> TxView {
        TxView { raw: self.raw@, txid: self.txid }
    }
}

impl TxView {
    /// Whether the bytes encode a transaction, are found again in full when they are decoded, and
    /// the id is that transaction's.
    pub open spec fn valid(self) -> bool {
        is_transaction(self.raw) && reads_back(self.raw) && self.txid == computed_txid(self.raw)
    }
}

impl Tx {
    #[verifier::type_invariant]
    spec fn inv(self) -> bool {
        is_transaction(self.raw@) && reads_back(self.raw@) && self.txid == computed_txid(self.raw@)
    }

    /// The transaction that `raw` encodes.
    pub(crate) fn from_raw(raw: Vec<u8>) -> (tx: Tx)
        requires
            is_transaction(raw@),
            reads_back(raw@),
        ensures
            tx@.raw == raw@,
            tx@.valid(),
    {
        let txid = compute_txid_of(raw.as_slice());
        Tx { raw, txid }
    }

    /// The transaction's id.
    pub fn txid(&self) -> (r: Txid)
        ensures
            r == self@.txid,
            self@.valid(),
    {
        proof {
            use_type_invariant(self);
        }
        self.txid
    }

    /// The transaction's encoding.
    pub fn raw(&self) -> (r: &[u8])
        ensures
            r@ == self@.raw,
            self@.valid(),
    {
        proof {
            use_type_invariant(self);
        }
        self.raw.as_slice()
    }

    /// The same transaction once more.
    pub fn duplicate(&self) -> (r: Tx)
        ensures
            r@ == self@,
    {
        proof {
            use_type_invariant(self);
        }
        let mut raw: Vec<u8> = Vec::new();
        raw.extend_from_slice(self.raw.as_slice());
        assert(raw@ =~= self.raw@);
        Tx { raw, txid: self.txid }
    }
}

/// Why no transaction came out of a text or of bytes.
#[derive(Clone, Copy, Debug, PartialEq, Eq)]
pub enum TxError {
    /// The text is not hexadecimal.
    Hex(HexError),
    /// The bytes are no transaction.
    Decode,
}

/// Decodes the transaction that `bytes` starts with; what follows it is not looked at.
pub fn decode_transaction_bytes(bytes: &[u8]) -> (r: Result<Tx, TxError>)
    ensures
        match r {
            Ok(tx) => {
                &&& leading_transaction(bytes@) == Some(tx@.raw)
                &&& tx@.valid()
                &&& usize::BITS == 64 ==> tx@.raw.is_prefix_of(bytes@)
            },
            Err(error) => error == TxError::Decode && leading_transaction(bytes@) is None,
        },
{
    match decode_leading_transaction(bytes) {
        Some(raw) => Ok(Tx::from_raw(raw)),
        None => Err(TxError::Decode),
    }
}

/// Decodes the transaction that starts the bytes which `tx_hex` spells.
pub fn decode_transaction_hex(tx_hex: &str) -> (r: Result<Tx, TxError>)
    ensures
        match r {
            Ok(tx) => {
                &&& hexcode::is_hex(utf8::encode_utf8(tx_hex@))
                &&& leading_transaction(hexcode::hex_bytes(utf8::encode_utf8(tx_hex@))) == Some(tx@.raw)
                &&& tx@.valid()
            },
            Err(TxError::Hex(error)) => hexcode::hex_refused(utf8::encode_utf8(tx_hex@), error),
            Err(TxError::Decode) => {
                &&& hexcode::is_hex(utf8::encode_utf8(tx_hex@))
                &&& leading_transaction(hexcode::hex_bytes(utf8::encode_utf8(tx_hex@))) is None
            },
        },
{
    match hexcode::hex_decode(tx_hex) {
        Ok(bytes) => decode_transaction_bytes(bytes.as_slice()),
        Err(error) => Err(TxError::Hex(error)),
    }
}

/// Whether `bytes` stand for a transaction and nothing more: on a machine with 64-bit addresses they
/// are its encoding.
pub open spec fn stands_for(bytes: Seq<u8>, tx: TxView) -> bool {
    &&& whole_transaction(bytes) == Some(tx.raw)
    &&& tx.valid()
    &&& bytes.len() <= decode_limit() ==> leading_transaction(bytes) == Some(tx.raw)
    &&& usize::BITS == 64 ==> tx.raw == bytes
}

/// Reads a transaction from text that must spell it and nothing more.
pub fn deserialize_transaction_hex(tx_hex: &str) -> (r: Result<Tx, TxError>)
    ensures
        match r {
            Ok(tx) => {
                &&& hexcode::is_hex(utf8::encode_utf8(tx_hex@))
                &&& stands_for(hexcode::hex_bytes(utf8::encode_utf8(tx_hex@)), tx@)
            },
            Err(TxError::Hex(error)) => hexcode::hex_refused(utf8::encode_utf8(tx_hex@), error),
            Err(TxError::Decode) => {
                &&& hexcode::is_hex(utf8::encode_utf8(tx_hex@))
                &&& whole_transaction(hexcode::hex_bytes(utf8::encode_utf8(tx_hex@))) is None
            },
        },
{
    match hexcode::hex_decode(tx_hex) {
        Ok(bytes) => match deserialize_transaction(bytes.as_slice()) {
            Some(raw) => Ok(Tx::from_raw(raw)),
            None => Err(TxError::Decode),
        },
        Err(error) => Err(TxError::Hex(error)),
    }
}

/// The transaction's encoding in hexadecimal.
pub fn encode_transaction_hex(tx: &Tx) -> (text: String)
    ensures
        text@ == hexcode::hex_text(tx@.raw),
{
    hexcode::hex_encode(tx.raw.as_slice())
}

/// The text by which an id is shown.
pub open spec fn txid_text(txid: Txid) -> Seq<char> {
    hexcode::hex_text(txid.bytes@.reverse())
}

/// Shows an id: the bytes from the last to the first, in hexadecimal.
pub fn show_txid(txid: &Txid) -> (text: String)
    ensures
        text@ == txid_text(*txid),
{
    txid_to_string(txid)
}

/// The text of a transaction, in lower case or in upper case, is decoded to that transaction: from
/// its start as far as decoding reads, and as a whole whatever its length.
pub proof fn law_transaction_text_decodes_to_itself(tx: TxView)
    requires
        tx.valid(),
    ensures
        hexcode::hex_text(tx.raw).len() == 2 * tx.raw.len(),
        forall|i: int|
            0 <= i < hexcode::hex_text(tx.raw).len() ==> {
                let c = #[trigger] hexcode::hex_text(tx.raw)[i];
                '0' <= c <= '9' || 'a' <= c <= 'f'
            },
        ({
            let lower = utf8::encode_utf8(hexcode::hex_text(tx.raw));
            &&& hexcode::is_hex(lower)
            &&& hexcode::hex_bytes(lower) == tx.raw
            &&& stands_for(hexcode::hex_bytes(lower), tx)
        }),
        ({
            let upper = utf8::encode_utf8(hexcode::upper_case(hexcode::hex_text(tx.raw)));
            &&& hexcode::is_hex(upper)
            &&& hexcode::hex_bytes(upper) == tx.raw
            &&& stands_for(hexcode::hex_bytes(upper), tx)
        }),
{
    hexcode::law_hex_round_trip(tx.raw);
    hexcode::law_hex_upper_case(tx.raw);
    assert forall|i: int| 0 <= i < hexcode::hex_text(tx.raw).len() implies {
        let c = #[trigger] hexcode::hex_text(tx.raw)[i];
        '0' <= c <= '9' || 'a' <= c <= 'f'
    } by {
        assert(0 <= tx.raw[i / 2] / 16 < 16);
        assert(0 <= tx.raw[i / 2] % 16 < 16);
    }
}

/// Ids that are shown by the same text are the same.
pub proof fn law_txid_text_is_unique(a: Txid, b: Txid)
    ensures
        txid_text(a) == txid_text(b) ==> a == b,
{
    let (x, y) = (a.bytes@.reverse(), b.bytes@.reverse());
    hexcode::law_hex_round_trip(x);
    hexcode::law_hex_round_trip(y);
    if txid_text(a) == txid_text(b) {
        assert(x == y);
        assert(a.bytes@ =~= x.reverse());
        assert(b.bytes@ =~= y.reverse());
        assert(a.bytes =~= b.bytes);
    }
}

/// What it means that bytes stand for a transaction and that a transaction is valid, told from the
/// encoding and the id.
pub proof fn law_what_bytes_stand_for(bytes: Seq<u8>, tx: TxView)
    ensures
        tx.valid() ==> whole_transaction(tx.raw) == Some(tx.raw) && tx.txid == computed_txid(tx.raw),
        tx.valid() && tx.raw.len() <= 4_000_000 ==> leading_transaction(tx.raw) == Some(tx.raw),
        stands_for(bytes, tx) ==> tx.valid() && whole_transaction(bytes) == Some(tx.raw),
        stands_for(bytes, tx) && bytes.len() <= 4_000_000 ==> leading_transaction(bytes) == Some(
            tx.raw,
        ),
        stands_for(bytes, tx) && usize::BITS == 64 ==> tx.raw == bytes,
        txid_text(tx.txid) == hexcode::hex_text(tx.txid.bytes@.reverse()),
{
}

} // verus!
