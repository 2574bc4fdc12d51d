//! Fetching transactions from every peer with the relay service.
use crate::address::{AddressSet, NetworkAddress};
use crate::discover;
use crate::discover::filter_peers_for_tor_only;
use crate::fetch_peer;
use crate::fetch_peer::{fetch_peer_transactions, FetchStage, PeerFetch};
use crate::session::PeerError;
use crate::tor::{set_tor_only, TorMode};
use crate::tx::{Tx, TxView, Txid};
use crate::txid_set::TxidSet;
use vstd::prelude::*;

verus! {

/// A fetch and the peer from whom it is.
#[derive(Debug)]
pub struct FetchTask {
    pub peer: NetworkAddress,
    pub fetch: PeerFetch,
}

/// What is to be fetched.
#[derive(Clone, Copy, Debug, PartialEq, Eq, Structural)]
pub struct FetchJob {
    /// How many transactions at most.
    pub limit: usize,
    pub relay: bool,
}

/// Restricts all traffic to onion peers, or lifts the restriction, before anyone is spoken to, and
/// takes down what is to be fetched.
pub fn fetch_transactions(mode: &mut TorMode, limit: usize, tor_only: bool, relay: bool) -> (job:
    FetchJob)
    ensures
        final(mode).only == tor_only,
        job == (FetchJob { limit, relay }),
{
    set_tor_only(mode, tor_only);
    FetchJob { limit, relay }
}

impl FetchJob {
    /// The fetches: one from each of the peers that may be spoken to by now.
    pub fn plan(&self, peers: AddressSet, mode: &TorMode) -> (plan: Vec<FetchTask>)
        requires
            peers.wf(),
        ensures
            plan@.len() == discover::kept(peers@, mode.only).len(),
            forall|i: int|
                0 <= i < plan@.len() ==> {
                    let peer = discover::kept(peers@, mode.only)[i];
                    &&& (#[trigger] plan@[i]).peer@ == peer
                    &&& plan@[i].fetch.wf()
                    &&& plan@[i].fetch@ == fetch_peer::first_fetch(
                        peer,
                        mode.only,
                        self.relay,
                        self.limit as nat,
                    )
                    &&& plan@[i].fetch@.stage == FetchStage::Connecting
                },
    {
        let ghost all = peers@;
        let kept = filter_peers_for_tor_only(peers, mode);
        let count: usize = kept.len();
        let mut plan: Vec<FetchTask> = Vec::new();
        proof {
            discover::law_kept_peers_are_allowed(all, mode.only);
        }
        for i in 0..count
            invariant
                kept@ == discover::kept(all, mode.only),
                count == kept@.len(),
                forall|j: int|
                    0 <= j < kept@.len() ==> fetch_peer::first_fetch(
                        #[trigger] kept@[j],
                        mode.only,
                        self.relay,
                        self.limit as nat,
                    ).stage == FetchStage::Connecting,
                plan@.len() == i,
                forall|j: int|
                    0 <= j < plan@.len() ==> {
                        &&& (#[trigger] plan@[j]).peer@ == kept@[j]
                        &&& plan@[j].fetch.wf()
                        &&& plan@[j].fetch@ == fetch_peer::first_fetch(
                            kept@[j],
                            mode.only,
                            self.relay,
                            self.limit as nat,
                        )
                    },
        {
            let peer = kept.get(i).duplicate();
            let fetch = fetch_peer_transactions(&peer, mode, self.relay, self.limit);
            plan.push(FetchTask { peer, fetch });
        }
        plan
    }
}

/// Whether one of the transactions has this id.
pub open spec fn holds(txs: Seq<TxView>, id: Txid) -> bool {
    exists|i: int| 0 <= i < txs.len() && (#[trigger] txs[i]).txid == id
}

/// `have` with the transactions of `more` added from first to last, each unless it is there or
/// `limit` is reached.
pub open spec fn merged(have: Seq<TxView>, more: Seq<TxView>, limit: nat) -> Seq<TxView>
    decreases more.len(),
{
    if more.len() == 0 {
        have
    } else {
        let before = merged(have, more.drop_last(), limit);
        if before.len() >= limit || holds(before, more.last().txid) {
            before
        } else {
            before.push(more.last())
        }
    }
}

/// Whether no two of the transactions have the same id.
pub open spec fn distinct(txs: Seq<TxView>) -> bool {
    forall|i: int, j: int|
        0 <= i < j < txs.len() ==> (#[trigger] txs[i]).txid != (#[trigger] txs[j]).txid
}

/// The transactions that were gathered from the peers.
#[derive(Debug)]
pub struct Gathering {
    limit: usize,
    seen: TxidSet,
    txs: Vec<Tx>,
}

impl View for Gathering {
    type V = Seq<TxView>;

    closed spec fn view(&self) -> Seq<TxView> {
        fetch_peer::tx_views(self.txs@)
    }
}

impl Gathering {
    /// How many transactions are gathered at most.
    pub closed spec fn limit(&self) -> nat {
        self.limit as nat
    }

    /// No transaction occurs twice, and those seen are those gathered.
    pub closed spec fn wf(&self) -> bool {
        &&& distinct(self@)
        &&& self@.len() <= self.limit
        &&& forall|id: Txid| self.seen@.contains(id) <==> holds(self@, id)
    }

    /// Nothing so far.
    pub fn new(limit: usize) -> (g: Gathering)
        ensures
            g.wf(),
            g.limit() == limit,
            g@ == Seq::<TxView>::empty(),
    {
        let g = Gathering { limit, seen: TxidSet::new(), txs: Vec::new() };
        assert(g@ =~= Seq::<TxView>::empty());
        g
    }

    /// Adds what one peer sent; a fetch that failed adds nothing.
    pub fn add(&mut self, outcome: &Result<Vec<Tx>, PeerError>)
        requires
            old(self).wf(),
        ensures
            final(self).wf(),
            distinct(final(self)@),
            final(self)@.len() <= final(self).limit(),
            final(self).limit() == old(self).limit(),
            final(self)@ == match outcome {
                Ok(txs) => merged(old(self)@, fetch_peer::tx_views(txs@), old(self).limit()),
                Err(_) => old(self)@,
            },
    {
        if let Ok(txs) = outcome {
            let ghost more = fetch_peer::tx_views(txs@);
            assert(more.take(0) =~= Seq::<TxView>::empty());
            for i in 0..txs.len()
                invariant
                    *outcome == Ok::<Vec<Tx>, PeerError>(*txs),
                    more == fetch_peer::tx_views(txs@),
                    self.limit == old(self).limit,
                    self.wf(),
                    self@ == merged(old(self)@, more.take(i as int), self.limit as nat),
            {
                let ghost before = self@;
                proof {
                    assert(more.take(i + 1).drop_last() =~= more.take(i as int));
                    assert(more.take(i + 1).last() == more[i as int]);
                }
                if self.txs.len() >= self.limit {
                    proof {
                        lemma_merged_full(old(self)@, more, self.limit as nat, i as int);
                    }
                    return ;
                }
                let ghost seen = self.seen@;
                if self.seen.insert(txs[i].txid()) {
                    let tx = txs[i].duplicate();
                    let ghost new = tx@;
                    self.txs.push(tx);
                    proof {
                        assert(self@ =~= before.push(new));
                        assert(!holds(before, new.txid));
                        assert forall|id: Txid| self.seen@.contains(id) <==> holds(self@, id) by {
                            lemma_holds_push(before, new, id);
                        }
                        assert forall|a: int, b: int| 0 <= a < b < self@.len() implies (
                        #[trigger] self@[a]).txid != (#[trigger] self@[b]).txid by {
                            if b < before.len() {
                                assert(before[a].txid != before[b].txid);
                            } else {
                                assert(before[a].txid != new.txid);
                            }
                        }
                    }
                } else {
                    assert(self.seen@ =~= seen);
                }
            }
            assert(more.take(more.len() as int) =~= more);
        }
    }

    /// What was gathered.
    pub fn into_txs(self) -> (txs: Vec<Tx>)
        ensures
            fetch_peer::tx_views(txs@) == self@,
    {
        self.txs
    }
}

/// One more transaction adds its id.
pub proof fn lemma_holds_push(txs: Seq<TxView>, new: TxView, id: Txid)
    ensures
        holds(txs.push(new), id) <==> holds(txs, id) || id == new.txid,
{
    if holds(txs, id) {
        let k = choose|k: int| 0 <= k < txs.len() && (#[trigger] txs[k]).txid == id;
        assert(txs.push(new)[k].txid == id);
    }
    assert(txs.push(new)[txs.len() as int].txid == new.txid);
    if holds(txs.push(new), id) && id != new.txid {
        let k = choose|k: int|
            0 <= k < txs.push(new).len() && (#[trigger] txs.push(new)[k]).txid == id;
        assert(txs[k].txid == id);
    }
}

/// Once the limit is reached, nothing more is added.
proof fn lemma_merged_full(have: Seq<TxView>, more: Seq<TxView>, limit: nat, i: int)
    requires
        0 <= i <= more.len(),
        merged(have, more.take(i), limit).len() >= limit,
    ensures
        merged(have, more, limit) == merged(have, more.take(i), limit),
    decreases more.len() - i,
{
    if i == more.len() {
        assert(more.take(i) =~= more);
    } else {
        assert(more.take(i + 1).drop_last() =~= more.take(i));
        lemma_merged_full(have, more, limit, i + 1);
    }
}

/// Gathering keeps what is there, takes at most as much as is wanted and nothing twice, takes only
/// what was given, and leaves out nothing that was given unless it has all that is wanted.
pub proof fn law_merged(have: Seq<TxView>, more: Seq<TxView>, limit: nat)
    requires
        distinct(have),
        have.len() <= limit,
    ensures
        distinct(merged(have, more, limit)),
        merged(have, more, limit).len() <= limit,
        have.is_prefix_of(merged(have, more, limit)),
        forall|i: int|
            have.len() <= i < merged(have, more, limit).len() ==> more.contains(
                #[trigger] merged(have, more, limit)[i],
            ),
        merged(have, more, limit).len() < limit ==> forall|k: int|
            0 <= k < more.len() ==> holds(merged(have, more, limit), (#[trigger] more[k]).txid),
    decreases more.len(),
{
    let after = merged(have, more, limit);
    if more.len() == 0 {
        assert(have.is_prefix_of(have));
    } else {
        let less = more.drop_last();
        let last = more.last();
        law_merged(have, less, limit);
        let before = merged(have, less, limit);
        assert(have =~= after.subrange(0, have.len() as int)) by {
            assert(have =~= before.subrange(0, have.len() as int));
        }
        assert forall|i: int| have.len() <= i < after.len() implies more.contains(
            #[trigger] after[i],
        ) by {
            if i < before.len() {
                assert(less.contains(before[i]));
                let k = choose|k: int| 0 <= k < less.len() && less[k] == before[i];
                assert(more[k] == after[i]);
            } else {
                assert(more[more.len() - 1] == after[i]);
            }
        }
        if after != before {
            assert forall|a: int, b: int| 0 <= a < b < after.len() implies (
            #[trigger] after[a]).txid != (#[trigger] after[b]).txid by {
                if b < before.len() {
                    assert(before[a].txid != before[b].txid);
                } else {
                    assert(before[a].txid != last.txid);
                }
            }
        }
        if after.len() < limit {
            assert forall|k: int| 0 <= k < more.len() implies holds(
                after,
                (#[trigger] more[k]).txid,
            ) by {
                lemma_holds_push(before, last, more[k].txid);
                if k < less.len() {
                    assert(holds(before, less[k].txid));
                }
            }
        }
    }
}

/// Gathering from two rows of transactions, one after the other, is gathering from the first and then
/// from the second. One transaction is added at the end unless the limit is reached or one with its
/// id is there.
pub proof fn law_merged_one_by_one(
    have: Seq<TxView>,
    a: Seq<TxView>,
    b: Seq<TxView>,
    tx: TxView,
    limit: nat,
)
    ensures
        merged(have, a + b, limit) == merged(merged(have, a, limit), b, limit),
        merged(have, Seq::empty(), limit) == have,
        have.len() < limit && (forall|i: int|
            0 <= i < have.len() ==> (#[trigger] have[i]).txid != tx.txid) ==> merged(
            have,
            seq![tx],
            limit,
        ) == have.push(tx),
        have.len() >= limit || (exists|i: int|
            0 <= i < have.len() && (#[trigger] have[i]).txid == tx.txid) ==> merged(
            have,
            seq![tx],
            limit,
        ) == have,
    decreases b.len(),
{
    reveal_with_fuel(merged, 2);
    assert(seq![tx].drop_last() =~= Seq::<TxView>::empty());
    assert(seq![tx].last() == tx);
    if b.len() == 0 {
        assert(a + b =~= a);
    } else {
        assert((a + b).drop_last() =~= a + b.drop_last());
        law_merged_one_by_one(have, a, b.drop_last(), tx, limit);
    }
}

} // verus!
