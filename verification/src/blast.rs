//! Sending a transaction to every peer with the relay service.
use crate::address::{AddressSet, NetworkAddress};
use crate::deliver;
use crate::deliver::{deliver_poop_tx, Delivery, DeliveryStage, DeliveryView};
use crate::discover;
use crate::discover::filter_peers_for_tor_only;
use crate::hexcode;
use crate::session::PeerError;
use crate::tor::{set_tor_only, TorMode};
use crate::tx;
use crate::tx::{deserialize_transaction_hex, Tx, TxError};
use vstd::prelude::*;
use vstd::utf8;

verus! {

/// How many peers are spoken to at a time.
pub const MAX_CONCURRENT_DELIVERIES: usize = 100;

/// Reads the transaction to send, and restricts all traffic to onion peers, or lifts the
/// restriction: that is done even if the text turns out to be no transaction.
pub fn blast_transaction_hex(mode: &mut TorMode, tx_hex: &str, tor_only: bool) -> (r: Result<
    Tx,
    TxError,
>)
    ensures
        final(mode).only == tor_only,
        match r {
            Ok(tx) => {
                &&& hexcode::is_hex(utf8::encode_utf8(tx_hex@))
                &&& tx::stands_for(hexcode::hex_bytes(utf8::encode_utf8(tx_hex@)), tx@)
            },
            Err(TxError::Hex(error)) => hexcode::hex_refused(utf8::encode_utf8(tx_hex@), error),
            Err(TxError::Decode) => {
                &&& hexcode::is_hex(utf8::encode_utf8(tx_hex@))
                &&& tx::whole_transaction(hexcode::hex_bytes(utf8::encode_utf8(tx_hex@))) is None
            },
        },
{
    set_tor_only(mode, tor_only);
    deserialize_transaction_hex(tx_hex)
}

/// A delivery and the peer to whom it goes.
#[derive(Debug)]
pub struct Dispatch {
    pub peer: NetworkAddress,
    pub delivery: Delivery,
}

/// The deliveries of `tx`: one to each of the peers that may be spoken to.
pub fn blast_transaction(tx: &Tx, peers: AddressSet, mode: &TorMode, relay: bool) -> (plan: Vec<
    Dispatch,
>)
    requires
        peers.wf(),
    ensures
        plan@.len() == discover::kept(peers@, mode.only).len(),
        forall|i: int|
            0 <= i < plan@.len() ==> {
                &&& (#[trigger] plan@[i]).peer@ == discover::kept(peers@, mode.only)[i]
                &&& plan@[i].delivery@ == (DeliveryView {
                    tx: tx@,
                    relay,
                    stage: DeliveryStage::Connecting,
                })
            },
{
    let ghost all = peers@;
    let kept = filter_peers_for_tor_only(peers, mode);
    let count: usize = kept.len();
    let mut plan: Vec<Dispatch> = Vec::new();
    proof {
        discover::law_kept_peers_are_allowed(all, mode.only);
    }
    for i in 0..count
        invariant
            kept@ == discover::kept(all, mode.only),
            count == kept@.len(),
            forall|j: int|
                0 <= j < kept@.len() ==> deliver::first_stage(#[trigger] kept@[j], mode.only)
                    == DeliveryStage::Connecting,
            plan@.len() == i,
            forall|j: int|
                0 <= j < plan@.len() ==> {
                    &&& (#[trigger] plan@[j]).peer@ == kept@[j]
                    &&& plan@[j].delivery@ == (DeliveryView {
                        tx: tx@,
                        relay,
                        stage: DeliveryStage::Connecting,
                    })
                },
    {
        let peer = kept.get(i).duplicate();
        let delivery = deliver_poop_tx(&peer, tx.duplicate(), mode, relay);
        plan.push(Dispatch { peer, delivery });
    }
    plan
}

/// What became of a delivery.
#[derive(Clone, Copy, Debug, PartialEq, Eq)]
pub enum DeliveryOutcome {
    /// It came to its end.
    Finished(Result<bool, PeerError>),
    /// It broke off.
    Lost,
}

/// Whether a peer has the transaction.
pub open spec fn accepted(outcome: DeliveryOutcome) -> bool {
    outcome == DeliveryOutcome::Finished(Ok(true))
}

/// How many peers have the transaction.
pub fn count_accepted(outcomes: &Vec<DeliveryOutcome>) -> (n: usize)
    ensures
        n == outcomes@.filter(|outcome: DeliveryOutcome| accepted(outcome)).len(),
{
    let ghost pass = |outcome: DeliveryOutcome| accepted(outcome);
    let mut n: usize = 0;
    assert(outcomes@.take(0).filter(pass).len() == 0) by {
        reveal(Seq::filter);
    }
    for i in 0..outcomes.len()
        invariant
            pass == (|outcome: DeliveryOutcome| accepted(outcome)),
            n == outcomes@.take(i as int).filter(pass).len(),
            n <= i,
    {
        assert(outcomes@.take(i + 1).drop_last() =~= outcomes@.take(i as int));
        proof {
            reveal(Seq::filter);
        }
        if let DeliveryOutcome::Finished(Ok(true)) = outcomes[i] {
            n = n + 1;
        }
    }
    assert(outcomes@.take(outcomes@.len() as int) =~= outcomes@);
    n
}

/// One more outcome adds one to the count if and only if the delivery came to its end and the peer
/// has the transaction; nothing else counts.
pub proof fn law_count_accepted(outcomes: Seq<DeliveryOutcome>, outcome: DeliveryOutcome)
    ensures
        ({
            let count = |list: Seq<DeliveryOutcome>|
                list.filter(|o: DeliveryOutcome| accepted(o)).len();
            &&& count(Seq::empty()) == 0
            &&& outcome == DeliveryOutcome::Finished(Ok(true)) ==> count(outcomes.push(outcome))
                == count(outcomes) + 1
            &&& outcome != DeliveryOutcome::Finished(Ok(true)) ==> count(outcomes.push(outcome))
                == count(outcomes)
        }),
        MAX_CONCURRENT_DELIVERIES == 100,
{
    reveal(Seq::filter);
    assert(outcomes.push(outcome).drop_last() =~= outcomes);
    assert(outcomes.push(outcome).last() == outcome);
}

} // verus!
