//! Recent transactions as public block explorers list them.
use crate::discover;
use crate::seqs;
use crate::text;
use crate::text::{replace_text, trim_text};
use vstd::hash_set::StringHashSet;
use vstd::prelude::*;
use vstd::string::*;

verus! {

/// Where the recent ids are read first.
pub const MEMPOOL_RECENT_URL: &'static str = "https://mempool.space/api/mempool/recent";

/// Where the recent ids are read next.
pub const BITCOIN_GOB_SV_RECENT_URL: &'static str = "https://bitcoin.gob.sv/api/mempool/recent";

/// Where the recent ids are read last, through a proxy.
pub const MEMPOOL_ONION_URL: &'static str = "http://mempoolhqx4isw62xs7abwphsq7ldayuidyx2v2oethdhhj6mlo2r6ad.onion/api/mempool/recent";

/// Where a transaction is read, with a place for its id.
pub const MEMPOOL_TX_HEX_URL: &'static str = "https://mempool.space/api/tx/{txid}/hex";

/// Where a transaction is read through a proxy, with a place for its id.
pub const MEMPOOL_ONION_TX_HEX_URL: &'static str = "http://mempoolhqx4isw62xs7abwphsq7ldayuidyx2v2oethdhhj6mlo2r6ad.onion/api/tx/{txid}/hex";

/// The proxy to onion services, unless another one is named.
pub const DEFAULT_PROXY_URL: &'static str = "socks5h://127.0.0.1:9050";

/// Seconds that a request may take.
pub const REQUEST_TIMEOUT_SECS: u64 = 20;

/// The source that may well be missing.
pub const ONION_LABEL: &'static str = "mempool onion";

/// A set of ids in text form.
pub struct SeenTexts {
    set: StringHashSet,
}

impl View for SeenTexts {
    type V = Set<Seq<char>>;

    closed spec fn view(&self) -> Set<Seq<char>> {
        self.set@
    }
}

impl SeenTexts {
    /// The empty set.
    pub fn new() -> (seen: SeenTexts)
        ensures
            seen@ == Set::<Seq<char>>::empty(),
    {
        SeenTexts { set: StringHashSet::new() }
    }

    /// Adds a text; says whether it was missing.
    pub fn insert(&mut self, text: String) -> (added: bool)
        ensures
            final(self)@ == old(self)@.insert(text@),
            added == !old(self)@.contains(text@),
    {
        self.set.insert(text)
    }
}

/// What a source gave.
#[derive(Clone, Copy, Debug, PartialEq, Eq, Structural)]
pub enum MergeNote {
    /// So many new ids, of so many in all.
    Merged { returned: usize, total: usize },
    /// Nothing, and nothing had to be expected.
    OptionalUnavailable,
    /// Nothing.
    Failed,
}

/// The ids seen and the ids listed, after those of `txids` are added from first to last, each
/// unless it was seen or `limit` is reached.
pub open spec fn listed(
    seen: Set<Seq<char>>,
    list: Seq<Seq<char>>,
    txids: Seq<Seq<char>>,
    limit: nat,
) -> (Set<Seq<char>>, Seq<Seq<char>>)
    decreases txids.len(),
{
    if txids.len() == 0 {
        (seen, list)
    } else {
        let before = listed(seen, list, txids.drop_last(), limit);
        if before.1.len() >= limit || before.0.contains(txids.last()) {
            before
        } else {
            (before.0.insert(txids.last()), before.1.push(txids.last()))
        }
    }
}

/// The first items of a list.
pub open spec fn at_most(txids: Seq<Seq<char>>, limit: nat) -> Seq<Seq<char>> {
    if txids.len() <= limit {
        txids
    } else {
        txids.take(limit as int)
    }
}

/// What a source adds: nothing if it failed, else its first ids as far as they are new and wanted.
pub open spec fn source_listed<E>(
    seen: Set<Seq<char>>,
    list: Seq<Seq<char>>,
    result: Result<Vec<String>, E>,
    limit: nat,
) -> (Set<Seq<char>>, Seq<Seq<char>>) {
    match result {
        Ok(txids) => listed(seen, list, at_most(discover::texts(txids@), limit), limit),
        Err(_) => (seen, list),
    }
}

/// Adds the ids that the source `label` gave to those of the sources before it.
pub fn merge_recent<E>(
    label: &str,
    result: Result<Vec<String>, E>,
    limit: usize,
    seen: &mut SeenTexts,
    merged: &mut Vec<String>,
) -> (note: MergeNote)
    ensures
        (final(seen)@, discover::texts(final(merged)@)) == source_listed(
            old(seen)@,
            discover::texts(old(merged)@),
            result,
            limit as nat,
        ),
        note == match result {
            Ok(_) => MergeNote::Merged {
                returned: (final(merged)@.len() - old(merged)@.len()) as usize,
                total: final(merged)@.len() as usize,
            },
            Err(_) => if label@ == ONION_LABEL@ {
                MergeNote::OptionalUnavailable
            } else {
                MergeNote::Failed
            },
        },
{
    match result {
        Ok(txids) => {
            let before: usize = merged.len();
            let ghost all = discover::texts(txids@);
            let ghost first = at_most(all, limit as nat);
            let ghost start = (seen@, discover::texts(merged@));
            let count: usize = if txids.len() <= limit {
                txids.len()
            } else {
                limit
            };
            assert(listed(start.0, start.1, first.take(0), limit as nat) == start);
            for i in 0..count
                invariant
                    all == discover::texts(txids@),
                    first == at_most(all, limit as nat),
                    count == first.len(),
                    count <= txids@.len(),
                    before <= merged@.len(),
                    (seen@, discover::texts(merged@)) == listed(
                        start.0,
                        start.1,
                        first.take(i as int),
                        limit as nat,
                    ),
            {
                let ghost earlier = merged@;
                let ghost seen_earlier = seen@;
                proof {
                    assert(first.take(i + 1).drop_last() =~= first.take(i as int));
                    assert(first.take(i + 1).last() == txids@[i as int]@);
                }
                if merged.len() < limit {
                    if seen.insert(txids[i].clone()) {
                        merged.push(txids[i].clone());
                        assert(discover::texts(merged@) =~= discover::texts(earlier).push(
                            txids@[i as int]@,
                        ));
                    } else {
                        assert(seen@ =~= seen_earlier);
                    }
                }
            }
            assert(first.take(count as int) =~= first);
            MergeNote::Merged { returned: merged.len() - before, total: merged.len() }
        },
        Err(_) => {
            if label.to_owned() == ONION_LABEL.to_owned() {
                MergeNote::OptionalUnavailable
            } else {
                MergeNote::Failed
            }
        },
    }
}

/// The ids that the sources list: those of the first, then those of the second that are new, then
/// those of the third, if it was asked.
pub open spec fn recent<E>(
    limit: nat,
    clearnet: Result<Vec<String>, E>,
    gob_sv: Result<Vec<String>, E>,
    onion: Option<Result<Vec<String>, E>>,
) -> (Set<Seq<char>>, Seq<Seq<char>>) {
    let one = source_listed(Set::empty(), Seq::empty(), clearnet, limit);
    let two = source_listed(one.0, one.1, gob_sv, limit);
    match onion {
        Some(result) => source_listed(two.0, two.1, result, limit),
        None => two,
    }
}

/// The ids of recent transactions, from what the sources gave.
pub fn fetch_recent_txids<E>(
    limit: usize,
    clearnet: Result<Vec<String>, E>,
    gob_sv: Result<Vec<String>, E>,
    onion: Option<Result<Vec<String>, E>>,
) -> (merged: Vec<String>)
    ensures
        discover::texts(merged@) == recent(limit as nat, clearnet, gob_sv, onion).1,
{
    let mut merged: Vec<String> = Vec::new();
    let mut seen = SeenTexts::new();
    assert(discover::texts(merged@) =~= Seq::<Seq<char>>::empty());
    merge_recent("mempool.space", clearnet, limit, &mut seen, &mut merged);
    merge_recent("bitcoin.gob.sv", gob_sv, limit, &mut seen, &mut merged);
    if let Some(result) = onion {
        merge_recent(ONION_LABEL, result, limit, &mut seen, &mut merged);
    }
    merged
}

/// As long as every listed id was seen, adding ids keeps the list free of repetitions, as short as
/// is wanted and among those seen. It keeps what is there, adds only what was given and not seen,
/// sees nothing but what it adds, and passes over nothing that was given unless it has all that is
/// wanted.
pub proof fn law_listed(
    seen: Set<Seq<char>>,
    list: Seq<Seq<char>>,
    txids: Seq<Seq<char>>,
    limit: nat,
)
    requires
        list.no_duplicates(),
        list.len() <= limit,
        forall|id: Seq<char>| list.contains(id) ==> seen.contains(id),
    ensures
        ({
            let after = listed(seen, list, txids, limit);
            &&& after.1.no_duplicates()
            &&& after.1.len() <= limit
            &&& forall|id: Seq<char>| #[trigger]
                after.0.contains(id) <==> seen.contains(id) || after.1.contains(id)
            &&& list.is_prefix_of(after.1)
            &&& forall|id: Seq<char>| #[trigger]
                after.1.contains(id) ==> after.0.contains(id) && (list.contains(id) || (
                txids.contains(id) && !seen.contains(id)))
            &&& after.1.len() < limit ==> forall|id: Seq<char>|
                #[trigger] txids.contains(id) ==> after.0.contains(id)
        }),
    decreases txids.len(),
{
    if txids.len() == 0 {
        assert(list.is_prefix_of(list));
    } else {
        let less = txids.drop_last();
        let last = txids.last();
        law_listed(seen, list, less, limit);
        let before = listed(seen, list, less, limit).1;
        let after = listed(seen, list, txids, limit).1;
        assert(txids =~= less.push(last));
        assert forall|id: Seq<char>|
            #![trigger txids.contains(id)]
            #![trigger after.contains(id)]
            true implies {
            &&& txids.contains(id) <==> less.contains(id) || id == last
            &&& before.push(last).contains(id) <==> before.contains(id) || id == last
        } by {
            seqs::lemma_push_contains(less, last, id);
            seqs::lemma_push_contains(before, last, id);
        }
        assert(list =~= after.subrange(0, list.len() as int)) by {
            assert(list =~= before.subrange(0, list.len() as int));
        }
    }
}

/// The ids that a source gave; none if it failed.
pub open spec fn given<E>(result: Result<Vec<String>, E>) -> Seq<Seq<char>> {
    match result {
        Ok(txids) => discover::texts(txids@),
        Err(_) => Seq::empty(),
    }
}

/// The ids of recent transactions are at most as many as are wanted, no id occurs twice, each was
/// given by one of the sources, those of the first source come first, and if there are fewer than
/// wanted, none that the sources put first is missing.
pub proof fn law_recent<E>(
    limit: nat,
    clearnet: Result<Vec<String>, E>,
    gob_sv: Result<Vec<String>, E>,
    onion: Option<Result<Vec<String>, E>>,
)
    ensures
        ({
            let ids = recent(limit, clearnet, gob_sv, onion).1;
            &&& ids.no_duplicates()
            &&& ids.len() <= limit
            &&& forall|id: Seq<char>|
                ids.contains(id) ==> {
                    ||| given(clearnet).contains(id)
                    ||| given(gob_sv).contains(id)
                    ||| (onion matches Some(result) && given(result).contains(id))
                }
            &&& source_listed(Set::empty(), Seq::empty(), clearnet, limit).1.is_prefix_of(ids)
            &&& ids.len() < limit ==> forall|id: Seq<char>|
                {
                    ||| at_most(given(clearnet), limit).contains(id)
                    ||| at_most(given(gob_sv), limit).contains(id)
                    ||| (onion matches Some(result) && at_most(given(result), limit).contains(id))
                } ==> #[trigger] ids.contains(id)
        }),
{
    let none = Seq::<Seq<char>>::empty();
    let one = source_listed(Set::empty(), none, clearnet, limit);
    let two = source_listed(one.0, one.1, gob_sv, limit);
    lemma_source_listed(Set::empty(), none, clearnet, limit);
    lemma_source_listed(one.0, one.1, gob_sv, limit);
    let ids = recent(limit, clearnet, gob_sv, onion).1;
    if let Some(result) = onion {
        lemma_source_listed(two.0, two.1, result, limit);
    }
    assert(two.1.is_prefix_of(ids));
    assert(one.1 =~= ids.subrange(0, one.1.len() as int)) by {
        assert(one.1 =~= two.1.subrange(0, one.1.len() as int));
        assert(two.1 =~= ids.subrange(0, two.1.len() as int));
    }
    assert forall|id: Seq<char>| one.1.contains(id) || two.1.contains(id) implies ids.contains(
        id,
    ) by {
        if one.1.contains(id) {
            let k = choose|k: int| 0 <= k < one.1.len() && one.1[k] == id;
            assert(ids[k] == id);
        }
        if two.1.contains(id) {
            let k = choose|k: int| 0 <= k < two.1.len() && two.1[k] == id;
            assert(ids[k] == two.1[k]);
        }
    }
}

/// What one source adds.
proof fn lemma_source_listed<E>(
    seen: Set<Seq<char>>,
    list: Seq<Seq<char>>,
    result: Result<Vec<String>, E>,
    limit: nat,
)
    requires
        list.no_duplicates(),
        list.len() <= limit,
        forall|id: Seq<char>| seen.contains(id) <==> list.contains(id),
    ensures
        ({
            let after = source_listed(seen, list, result, limit);
            &&& after.1.no_duplicates()
            &&& after.1.len() <= limit
            &&& forall|id: Seq<char>| after.0.contains(id) <==> after.1.contains(id)
            &&& forall|id: Seq<char>|
                #[trigger] after.1.contains(id) ==> list.contains(id) || given(result).contains(id)
            &&& list.is_prefix_of(after.1)
            &&& after.1.len() < limit ==> forall|id: Seq<char>|
                #[trigger] at_most(given(result), limit).contains(id) ==> after.1.contains(id)
        }),
{
    if let Ok(txids) = result {
        let all = discover::texts(txids@);
        let first = at_most(all, limit);
        law_listed(seen, list, first, limit);
        assert forall|id: Seq<char>| first.contains(id) implies all.contains(id) by {
            let k = choose|k: int| 0 <= k < first.len() && first[k] == id;
            assert(all[k] == id);
        }
    } else {
        assert(list.is_prefix_of(list));
    }
}

/// Where a transaction is read: the template with the id in its place.
pub open spec fn url_for(template: Seq<char>, txid: Seq<char>) -> Seq<char> {
    text::replaced(template, "{txid}"@, txid)
}

/// Where a transaction is read.
pub fn tx_hex_url(template: &str, txid: &str) -> (url: String)
    ensures
        url@ == url_for(template@, txid@),
{
    proof {
        reveal_strlit("{txid}");
    }
    replace_text(template, "{txid}", txid)
}

/// The proxy to onion services: the one named, or the default one.
pub fn tor_proxy_url(named: Option<String>) -> (url: String)
    ensures
        url@ == match named {
            Some(text) => text@,
            None => DEFAULT_PROXY_URL@,
        },
{
    match named {
        Some(text) => text,
        None => DEFAULT_PROXY_URL.to_owned(),
    }
}

/// What to do next to read transactions.
#[derive(Debug)]
pub enum HexAction {
    /// Read the text at an address, through the proxy or not.
    Get { url: String, through_proxy: bool },
    /// Nothing: all were read, as far as they could be.
    Finish,
}

/// What a [`HexAction`] says.
pub enum HexActionView {
    Get { url: Seq<char>, through_proxy: bool },
    Finish,
}

impl View for HexAction {
    type V = HexActionView;

    open spec fn view(&self) -> HexActionView {
        match self {
            HexAction::Get { url, through_proxy } => HexActionView::Get {
                url: url@,
                through_proxy: *through_proxy,
            },
            HexAction::Finish => HexActionView::Finish,
        }
    }
}

/// What a [`HexFetch`] says.
#[verifier::ext_equal]
pub struct HexFetchView {
    /// The ids whose transactions are wanted.
    pub txids: Seq<Seq<char>>,
    /// Whether there is a proxy to onion services.
    pub proxy: bool,
    /// How many ids are dealt with.
    pub next: nat,
    /// Whether the next one is being read through the proxy.
    pub second_try: bool,
    /// What was read: ids and texts.
    pub texts: Seq<(Seq<char>, Seq<char>)>,
}

/// Reads transactions by their ids.
#[derive(Debug)]
pub struct HexFetch {
    txids: Vec<String>,
    proxy: bool,
    next: usize,
    second_try: bool,
    texts: Vec<(String, String)>,
}

/// What each of a list of pairs says.
pub open spec fn pairs(list: Seq<(String, String)>) -> Seq<(Seq<char>, Seq<char>)> {
    list.map_values(|pair: (String, String)| (pair.0@, pair.1@))
}

impl View for HexFetch {
    type V = HexFetchView;

    closed spec fn view(&self) -> HexFetchView {
        HexFetchView {
            txids: discover::texts(self.txids@),
            proxy: self.proxy,
            next: self.next as nat,
            second_try: self.second_try,
            texts: pairs(self.texts@),
        }
    }
}

/// Where reading begins.
pub open spec fn first_hex_fetch(txids: Seq<Seq<char>>, proxy: bool) -> HexFetchView {
    HexFetchView { txids, proxy, next: 0, second_try: false, texts: Seq::empty() }
}

/// The action that is next.
pub open spec fn hex_action(f: HexFetchView) -> HexActionView {
    if f.next >= f.txids.len() {
        HexActionView::Finish
    } else if f.second_try {
        HexActionView::Get {
            url: url_for(MEMPOOL_ONION_TX_HEX_URL@, f.txids[f.next as int]),
            through_proxy: true,
        }
    } else {
        HexActionView::Get {
            url: url_for(MEMPOOL_TX_HEX_URL@, f.txids[f.next as int]),
            through_proxy: false,
        }
    }
}

/// After an answer, `None` for a failure: a text is kept without the white space around it; a
/// failure is tried once more through the proxy, if there is one, and then passed over.
pub open spec fn next_hex_fetch(f: HexFetchView, answer: Option<Seq<char>>) -> HexFetchView {
    if f.next >= f.txids.len() {
        f
    } else {
        match answer {
            Some(body) => HexFetchView {
                next: f.next + 1,
                second_try: false,
                texts: f.texts.push(
                    (f.txids[f.next as int], text::trimmed_end(text::trimmed_start(body))),
                ),
                ..f
            },
            None => if f.proxy && !f.second_try {
                HexFetchView { second_try: true, ..f }
            } else {
                HexFetchView { next: f.next + 1, second_try: false, ..f }
            },
        }
    }
}

/// Starts to read the transactions with these ids.
pub fn fetch_recent_tx_hexes(txids: Vec<String>, proxy: bool) -> (f: HexFetch)
    ensures
        f.wf(),
        f@ == first_hex_fetch(discover::texts(txids@), proxy),
{
    let f = HexFetch { txids, proxy, next: 0, second_try: false, texts: Vec::new() };
    assert(f@ =~= first_hex_fetch(discover::texts(txids@), proxy));
    f
}

impl HexFetch {
    /// No more ids are dealt with than there are.
    pub closed spec fn wf(&self) -> bool {
        self.next <= self.txids@.len()
    }

    /// What to do next.
    pub fn action(&self) -> (action: HexAction)
        ensures
            action@ == hex_action(self@),
    {
        if self.next >= self.txids.len() {
            HexAction::Finish
        } else {
            let txid = &self.txids[self.next];
            assert(self@.txids[self.next as int] == txid@);
            if self.second_try {
                HexAction::Get {
                    url: tx_hex_url(MEMPOOL_ONION_TX_HEX_URL, txid.as_str()),
                    through_proxy: true,
                }
            } else {
                HexAction::Get {
                    url: tx_hex_url(MEMPOOL_TX_HEX_URL, txid.as_str()),
                    through_proxy: false,
                }
            }
        }
    }

    /// Moves on with the answer, `None` for a failure.
    pub fn on_answer(&mut self, answer: Option<&str>)
        requires
            old(self).wf(),
        ensures
            final(self).wf(),
            final(self)@ == next_hex_fetch(
                old(self)@,
                match answer {
                    Some(body) => Some(body@),
                    None => None,
                },
            ),
    {
        if self.next < self.txids.len() {
            match answer {
                Some(body) => {
                    let ghost before = self.texts@;
                    let pair = (self.txids[self.next].clone(), trim_text(body));
                    let ghost pair_view = (pair.0@, pair.1@);
                    self.texts.push(pair);
                    assert(pairs(self.texts@) =~= pairs(before).push(pair_view));
                    self.next = self.next + 1;
                    self.second_try = false;
                },
                None => {
                    if self.proxy && !self.second_try {
                        self.second_try = true;
                    } else {
                        self.next = self.next + 1;
                        self.second_try = false;
                    }
                },
            }
        }
    }

    /// The ids and the texts that were read for them.
    pub fn into_texts(self) -> (texts: Vec<(String, String)>)
        ensures
            pairs(texts@) == self@.texts,
    {
        self.texts
    }
}

/// Reading after a row of answers.
pub open spec fn hex_fetch_after(
    txids: Seq<Seq<char>>,
    proxy: bool,
    answers: Seq<Option<Seq<char>>>,
) -> HexFetchView
    decreases answers.len(),
{
    if answers.len() == 0 {
        first_hex_fetch(txids, proxy)
    } else {
        next_hex_fetch(hex_fetch_after(txids, proxy, answers.drop_last()), answers.last())
    }
}

/// Whether `at` says for each text that was read at which place its id stands, in rising order.
pub open spec fn placed(f: HexFetchView, at: Seq<int>) -> bool {
    &&& at.len() == f.texts.len()
    &&& forall|i: int|
        0 <= i < at.len() ==> 0 <= #[trigger] at[i] < f.next && f.texts[i].0 == f.txids[at[i]]
    &&& forall|i: int, j: int| 0 <= i < j < at.len() ==> #[trigger] at[i] < #[trigger] at[j]
}

/// Whatever the answers: the texts come in the order of the ids, each id is read once at most, and
/// without a proxy nothing is ever asked of one.
pub proof fn law_hex_fetch_follows_the_ids(
    txids: Seq<Seq<char>>,
    proxy: bool,
    answers: Seq<Option<Seq<char>>>,
)
    ensures
        hex_fetch_after(txids, proxy, answers).txids == txids,
        hex_fetch_after(txids, proxy, answers).proxy == proxy,
        hex_fetch_after(txids, proxy, answers).next <= txids.len(),
        exists|at: Seq<int>| placed(hex_fetch_after(txids, proxy, answers), at),
        !proxy ==> !(hex_action(hex_fetch_after(txids, proxy, answers)) matches HexActionView::Get {
            through_proxy: true,
            ..
        }),
        !proxy ==> !hex_fetch_after(txids, proxy, answers).second_try,
    decreases answers.len(),
{
    let after = hex_fetch_after(txids, proxy, answers);
    if answers.len() == 0 {
        assert(placed(after, Seq::empty()));
    } else {
        law_hex_fetch_follows_the_ids(txids, proxy, answers.drop_last());
        let before = hex_fetch_after(txids, proxy, answers.drop_last());
        let at = choose|at: Seq<int>| placed(before, at);
        if after.texts.len() == before.texts.len() {
            assert(placed(after, at));
        } else {
            assert(placed(after, at.push(before.next as int)));
        }
    }
}

/// Every answer brings reading closer to its end: after two answers for every id at the latest it
/// is over.
pub proof fn law_hex_fetch_ends(
    txids: Seq<Seq<char>>,
    proxy: bool,
    answers: Seq<Option<Seq<char>>>,
)
    ensures
        ({
            let f = hex_fetch_after(txids, proxy, answers);
            hex_action(f) is Finish || 2 * f.next + (if f.second_try {
                1int
            } else {
                0
            }) >= answers.len()
        }),
        answers.len() >= 2 * txids.len() ==> hex_action(hex_fetch_after(txids, proxy, answers))
            is Finish,
    decreases answers.len(),
{
    if answers.len() > 0 {
        law_hex_fetch_ends(txids, proxy, answers.drop_last());
        law_hex_fetch_follows_the_ids(txids, proxy, answers.drop_last());
    }
    law_hex_fetch_follows_the_ids(txids, proxy, answers);
}

/// The pairs of a list of pairs of strings are theirs, one for one, and an action says what it holds.
pub proof fn law_mempool_views(list: Seq<(String, String)>, url: String, through_proxy: bool)
    ensures
        pairs(list).len() == list.len(),
        forall|i: int|
            0 <= i < list.len() ==> #[trigger] pairs(list)[i] == (list[i].0@, list[i].1@),
        (HexAction::Get { url, through_proxy })@ == (HexActionView::Get { url: url@, through_proxy }),
        HexAction::Finish@ == HexActionView::Finish,
{
}

/// Where things are read, and for how long.
pub proof fn law_mempool_places()
    ensures
        MEMPOOL_RECENT_URL@ == "https://mempool.space/api/mempool/recent"@,
        BITCOIN_GOB_SV_RECENT_URL@ == "https://bitcoin.gob.sv/api/mempool/recent"@,
        MEMPOOL_ONION_URL@
            == "http://mempoolhqx4isw62xs7abwphsq7ldayuidyx2v2oethdhhj6mlo2r6ad.onion/api/mempool/recent"@,
        DEFAULT_PROXY_URL@ == "socks5h://127.0.0.1:9050"@,
        ONION_LABEL@ == "mempool onion"@,
        REQUEST_TIMEOUT_SECS == 20,
{
}

/// Listing two rows of ids, one after the other, is listing the first and then the second. One id is
/// added at the end, and has been seen, unless it was seen or the limit is reached. A source adds its
/// first ids, as many as are wanted, and nothing if it failed.
pub proof fn law_listed_one_by_one<E>(
    seen: Set<Seq<char>>,
    list: Seq<Seq<char>>,
    a: Seq<Seq<char>>,
    b: Seq<Seq<char>>,
    id: Seq<char>,
    limit: nat,
    txids: Vec<String>,
    error: E,
)
    ensures
        ({
            let first = listed(seen, list, a, limit);
            listed(seen, list, a + b, limit) == listed(first.0, first.1, b, limit)
        }),
        listed(seen, list, Seq::empty(), limit) == (seen, list),
        !seen.contains(id) && list.len() < limit ==> listed(seen, list, seq![id], limit) == (
            seen.insert(id),
            list.push(id),
        ),
        seen.contains(id) || list.len() >= limit ==> listed(seen, list, seq![id], limit) == (
            seen,
            list,
        ),
        source_listed(seen, list, Err::<Vec<String>, E>(error), limit) == (seen, list),
        ({
            let ids = Seq::new(txids@.len(), |i: int| txids@[i]@);
            let first = if ids.len() <= limit {
                ids
            } else {
                ids.take(limit as int)
            };
            source_listed(seen, list, Ok::<Vec<String>, E>(txids), limit) == listed(
                seen,
                list,
                first,
                limit,
            )
        }),
    decreases b.len(),
{
    reveal_with_fuel(listed, 2);
    assert(seq![id].drop_last() =~= Seq::<Seq<char>>::empty());
    assert(seq![id].last() == id);
    assert(Seq::new(txids@.len(), |i: int| txids@[i]@) =~= discover::texts(txids@));
    if b.len() == 0 {
        assert(a + b =~= a);
    } else {
        assert((a + b).drop_last() =~= a + b.drop_last());
        law_listed_one_by_one(seen, list, a, b.drop_last(), id, limit, txids, error);
    }
}

/// The sources are listed one after another, from nothing: the first, the second, and the third if it
/// was asked.
pub proof fn law_recent_in_turn<E>(
    limit: nat,
    clearnet: Result<Vec<String>, E>,
    gob_sv: Result<Vec<String>, E>,
    onion: Result<Vec<String>, E>,
)
    ensures
        ({
            let one = source_listed(Set::empty(), Seq::empty(), clearnet, limit);
            let two = source_listed(one.0, one.1, gob_sv, limit);
            let three = source_listed(two.0, two.1, onion, limit);
            &&& recent(limit, clearnet, gob_sv, None) == two
            &&& recent(limit, clearnet, gob_sv, Some(onion)) == three
        }),
{
}

/// Where a transaction is read, directly and through the proxy: under its id.
pub proof fn law_urls(txid: Seq<char>)
    ensures
        url_for(MEMPOOL_TX_HEX_URL@, txid) == "https://mempool.space/api/tx/"@ + txid + "/hex"@,
        url_for(MEMPOOL_ONION_TX_HEX_URL@, txid)
            == "http://mempoolhqx4isw62xs7abwphsq7ldayuidyx2v2oethdhhj6mlo2r6ad.onion/api/tx/"@
            + txid + "/hex"@,
{
    reveal_strlit("{txid}");
    reveal_strlit("/hex");
    reveal_strlit("https://mempool.space/api/tx/");
    reveal_strlit("https://mempool.space/api/tx/{txid}/hex");
    lemma_url("https://mempool.space/api/tx/"@, txid);
    assert(MEMPOOL_TX_HEX_URL@ =~= "https://mempool.space/api/tx/"@ + "{txid}"@ + "/hex"@);
    reveal_strlit(
        "http://mempoolhqx4isw62xs7abwphsq7ldayuidyx2v2oethdhhj6mlo2r6ad.onion/api/tx/",
    );
    reveal_strlit(
        "http://mempoolhqx4isw62xs7abwphsq7ldayuidyx2v2oethdhhj6mlo2r6ad.onion/api/tx/{txid}/hex",
    );
    lemma_url(
        "http://mempoolhqx4isw62xs7abwphsq7ldayuidyx2v2oethdhhj6mlo2r6ad.onion/api/tx/"@,
        txid,
    );
    assert(MEMPOOL_ONION_TX_HEX_URL@
        =~= "http://mempoolhqx4isw62xs7abwphsq7ldayuidyx2v2oethdhhj6mlo2r6ad.onion/api/tx/"@
        + "{txid}"@ + "/hex"@);
}

/// The id takes the place that the template has for it.
proof fn lemma_url(before: Seq<char>, txid: Seq<char>)
    requires
        forall|k: int| 0 <= k < before.len() ==> #[trigger] before[k] != '{',
    ensures
        url_for(before + "{txid}"@ + "/hex"@, txid) == before + txid + "/hex"@,
{
    reveal_strlit("{txid}");
    reveal_strlit("/hex");
    let (pattern, after) = ("{txid}"@, "/hex"@);
    let template = before + pattern + after;
    assert forall|k: int| 0 <= k < before.len() implies #[trigger] template.subrange(
        k,
        k + pattern.len(),
    ) != pattern by {
        assert(template.subrange(k, k + pattern.len())[0] == before[k]);
        assert(pattern[0] == '{');
    }
    text::law_replaced(before, pattern, after, txid, after);
}

/// How transactions are read. As long as there are ids, the next one is read directly, and once more
/// through the proxy where that failed and there is one. A text is kept under its id without the
/// white space around it; an id that could not be read is passed over.
pub proof fn law_hex_fetch_steps(f: HexFetchView, body: Seq<char>)
    requires
        f.next < f.txids.len(),
    ensures
        ({
            let id = f.txids[f.next as int];
            &&& !f.second_try ==> hex_action(f) == (HexActionView::Get {
                url: "https://mempool.space/api/tx/"@ + id + "/hex"@,
                through_proxy: false,
            })
            &&& f.second_try ==> hex_action(f) == (HexActionView::Get {
                url: "http://mempoolhqx4isw62xs7abwphsq7ldayuidyx2v2oethdhhj6mlo2r6ad.onion/api/tx/"@
                    + id + "/hex"@,
                through_proxy: true,
            })
            &&& ({
                let n = next_hex_fetch(f, Some(body));
                &&& n == (HexFetchView {
                    next: f.next + 1,
                    second_try: false,
                    texts: n.texts,
                    ..f
                })
                &&& n.texts == f.texts.push((id, n.texts.last().1))
                &&& n.texts.last().1 == text::trimmed_end(text::trimmed_start(body))
            })
            &&& f.proxy && !f.second_try ==> next_hex_fetch(f, None) == (HexFetchView {
                second_try: true,
                ..f
            })
            &&& !f.proxy || f.second_try ==> next_hex_fetch(f, None) == (HexFetchView {
                next: f.next + 1,
                second_try: false,
                ..f
            })
        }),
{
    law_urls(f.txids[f.next as int]);
    let n = next_hex_fetch(f, Some(body));
    assert(n.texts =~= f.texts.push((f.txids[f.next as int], n.texts.last().1)));
}

/// Reading begins with nothing read, and is over when no id is left: then no answer changes it.
pub proof fn law_hex_fetch_begins_and_ends(
    txids: Seq<Seq<char>>,
    proxy: bool,
    f: HexFetchView,
    answer: Option<Seq<char>>,
)
    ensures
        ({
            let first = first_hex_fetch(txids, proxy);
            &&& first.txids == txids
            &&& first.proxy == proxy
            &&& first.next == 0
            &&& !first.second_try
            &&& first.texts.len() == 0
        }),
        f.next >= f.txids.len() ==> hex_action(f) is Finish && next_hex_fetch(f, answer) == f,
{
}

/// Where a transaction is read by any template: the first place for an id takes the id, what stands
/// before it is kept, and what follows is dealt with in the same way; a template without a place for
/// an id is taken as it stands.
pub proof fn law_url_for(before: Seq<char>, after: Seq<char>, plain: Seq<char>, txid: Seq<char>)
    requires
        forall|k: int|
            0 <= k < before.len() ==> #[trigger] (before + "{txid}"@ + after).subrange(k, k + 6)
                != "{txid}"@,
        forall|k: int|
            0 <= k <= plain.len() - 6 ==> #[trigger] plain.subrange(k, k + 6) != "{txid}"@,
    ensures
        url_for(before + "{txid}"@ + after, txid) == before + txid + url_for(after, txid),
        url_for(plain, txid) == plain,
{
    reveal_strlit("{txid}");
    text::law_replaced(before, "{txid}"@, after, txid, plain);
}

} // verus!
