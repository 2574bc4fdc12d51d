use tx_pigeon::mempool::{
    fetch_recent_tx_hexes, fetch_recent_txids, merge_recent, tor_proxy_url, tx_hex_url, HexAction,
    MergeNote, SeenTexts, BITCOIN_GOB_SV_RECENT_URL, MEMPOOL_ONION_TX_HEX_URL, MEMPOOL_ONION_URL,
    MEMPOOL_RECENT_URL, MEMPOOL_TX_HEX_URL, REQUEST_TIMEOUT_SECS,
};
use tx_pigeon::relay::{
    relay_transactions, relay_worker, RelayAction, RelayConfig, RelayEvent, RelayWorker,
};
use tx_pigeon::tx::{deserialize_transaction_hex, Tx};

const GENESIS: &str = "01000000010000000000000000000000000000000000000000000000000000000000000000ffffffff4d04ffff001d0104455468652054696d65732030332f4a616e2f32303039204368616e63656c6c6f72206f6e206272696e6b206f66207365636f6e64206261696c6f757420666f722062616e6b73ffffffff0100f2052a01000000434104678afdb0fe5548271967f1a67130b7105cd6a828e03909a67962e0ea1f61deb649f6bc3f4cef38c4f35504e51ec112de5c384df7ba0b8d578a4c702b6bf11d5fac00000000";
const SEGWIT: &str = "02000000000101000102030405060708090a0b0c0d0e0f101112131415161718191a1b1c1d1e1f0000000000fdffffff01e803000000000000036a012a0102aabb00000000";

fn tx(text: &str) -> Tx {
    deserialize_transaction_hex(text).unwrap()
}

fn worker() -> RelayWorker {
    relay_worker(RelayConfig {
        worker_id: 2,
        limit: 5,
        tor_only: false,
        relay: true,
        interval_secs: 15,
    })
}

fn blasts(w: &mut RelayWorker) -> Vec<String> {
    let mut sent = Vec::new();
    while let RelayAction::Blast { tx_hex, .. } = w.action() {
        sent.push(tx_hex);
        w.on_event(&RelayEvent::Blasted);
    }
    sent
}

#[test]
fn three_workers_start_one_after_another() {
    let workers = relay_transactions(20, true, true, 15);
    let delays: Vec<u64> = workers
        .iter()
        .map(|w| match w.action() {
            RelayAction::Sleep(secs) => secs,
            other => panic!("{other:?}"),
        })
        .collect();
    assert_eq!(delays, vec![0, 1, 2]);
    assert!(workers.iter().all(|w| w.interval_secs() == 15));
}

#[test]
fn a_worker_goes_round_and_round() {
    let mut w = worker();
    assert!(matches!(w.action(), RelayAction::Sleep(1)));
    w.on_event(&RelayEvent::Ticked);
    assert!(matches!(w.action(), RelayAction::Sleep(1)));
    w.on_event(&RelayEvent::Slept);
    assert!(matches!(w.action(), RelayAction::AwaitTick));
    w.on_event(&RelayEvent::Ticked);
    assert!(matches!(
        w.action(),
        RelayAction::Fetch { limit: 5, tor_only: false, relay: true }
    ));
    w.on_event(&RelayEvent::Fetched(vec![tx(GENESIS), tx(SEGWIT), tx(GENESIS)]));
    assert_eq!(blasts(&mut w), vec![GENESIS, SEGWIT]);
    assert!(matches!(w.action(), RelayAction::AwaitTick));
    w.on_event(&RelayEvent::Ticked);
    w.on_event(&RelayEvent::FetchFailed);
    assert!(matches!(w.action(), RelayAction::AwaitTick));
}

#[test]
fn a_worker_sends_nothing_on_twice() {
    let mut w = worker();
    w.on_event(&RelayEvent::Slept);
    w.on_event(&RelayEvent::Ticked);
    w.on_event(&RelayEvent::Fetched(vec![tx(GENESIS)]));
    assert_eq!(blasts(&mut w), vec![GENESIS]);
    w.on_event(&RelayEvent::Ticked);
    w.on_event(&RelayEvent::Fetched(vec![tx(GENESIS), tx(SEGWIT)]));
    assert_eq!(blasts(&mut w), vec![SEGWIT]);
    w.on_event(&RelayEvent::Ticked);
    w.on_event(&RelayEvent::Fetched(vec![tx(GENESIS), tx(SEGWIT)]));
    assert!(matches!(w.action(), RelayAction::AwaitTick));
}

#[test]
fn a_worker_stops_at_an_interrupt() {
    let mut w = worker();
    w.on_event(&RelayEvent::Slept);
    w.on_event(&RelayEvent::Interrupted);
    assert!(matches!(w.action(), RelayAction::Stop));
    w.on_event(&RelayEvent::Ticked);
    assert!(matches!(w.action(), RelayAction::Stop));
}

#[test]
fn an_interrupt_stops_a_worker_whatever_it_is_doing() {
    let before = [
        vec![],
        vec![RelayEvent::Slept],
        vec![RelayEvent::Slept, RelayEvent::Ticked],
        vec![
            RelayEvent::Slept,
            RelayEvent::Ticked,
            RelayEvent::Fetched(vec![tx(GENESIS), tx(SEGWIT)]),
        ],
    ];
    for events in before {
        let mut w = worker();
        for event in &events {
            w.on_event(event);
        }
        assert!(!matches!(w.action(), RelayAction::Stop));
        w.on_event(&RelayEvent::Interrupted);
        assert!(matches!(w.action(), RelayAction::Stop));
        w.on_event(&RelayEvent::Blasted);
        w.on_event(&RelayEvent::Slept);
        assert!(matches!(w.action(), RelayAction::Stop));
    }
}

#[test]
fn failures_do_not_stop_a_worker() {
    let mut w = worker();
    w.on_event(&RelayEvent::Slept);
    for _ in 0..5 {
        w.on_event(&RelayEvent::Ticked);
        w.on_event(&RelayEvent::FetchFailed);
        assert!(matches!(w.action(), RelayAction::AwaitTick));
    }
}

#[test]
fn what_is_sent_on_can_be_read_again() {
    let mut w = worker();
    w.on_event(&RelayEvent::Slept);
    w.on_event(&RelayEvent::Ticked);
    w.on_event(&RelayEvent::Fetched(vec![tx(SEGWIT)]));
    let sent = blasts(&mut w);
    assert_eq!(tx(&sent[0]).txid(), tx(SEGWIT).txid());
}

fn ids(list: &[&str]) -> Result<Vec<String>, ()> {
    Ok(list.iter().map(|s| s.to_string()).collect())
}

#[test]
fn sources_are_merged_in_order() {
    let merged = fetch_recent_txids(4, ids(&["a", "b"]), ids(&["b", "c"]), Some(ids(&["d", "e"])));
    assert_eq!(merged, vec!["a", "b", "c", "d"]);
    assert_eq!(fetch_recent_txids(9, ids(&["a", "a"]), Err(()), None), vec!["a"]);
    assert!(fetch_recent_txids(0, ids(&["a"]), ids(&["b"]), None).is_empty());
    let none: Vec<String> = fetch_recent_txids(5, Err(()), Err(()), Some(Err(())));
    assert!(none.is_empty());
}

#[test]
fn only_the_first_ids_of_a_source_are_looked_at() {
    let merged = fetch_recent_txids(2, ids(&["a", "a", "b"]), ids(&["c", "d"]), None);
    assert_eq!(merged, vec!["a", "c"]);
}

#[test]
fn merging_tells_what_a_source_gave() {
    let mut seen = SeenTexts::new();
    let mut merged = Vec::new();
    assert_eq!(
        merge_recent("mempool.space", ids(&["a", "b"]), 3, &mut seen, &mut merged),
        MergeNote::Merged { returned: 2, total: 2 }
    );
    assert_eq!(
        merge_recent("bitcoin.gob.sv", ids(&["b", "c", "d"]), 3, &mut seen, &mut merged),
        MergeNote::Merged { returned: 1, total: 3 }
    );
    assert_eq!(merged, vec!["a", "b", "c"]);
    let failed: Result<Vec<String>, &str> = Err("down");
    assert_eq!(
        merge_recent("mempool onion", failed.clone(), 3, &mut seen, &mut merged),
        MergeNote::OptionalUnavailable
    );
    assert_eq!(
        merge_recent("mempool.space", failed, 3, &mut seen, &mut merged),
        MergeNote::Failed
    );
    assert_eq!(merged.len(), 3);
    assert!(!seen.insert("a".to_string()));
    assert!(seen.insert("z".to_string()));
}

#[test]
fn addresses_of_the_sources() {
    assert_eq!(MEMPOOL_RECENT_URL, "https://mempool.space/api/mempool/recent");
    assert_eq!(BITCOIN_GOB_SV_RECENT_URL, "https://bitcoin.gob.sv/api/mempool/recent");
    assert!(MEMPOOL_ONION_URL.ends_with(".onion/api/mempool/recent"));
    assert_eq!(REQUEST_TIMEOUT_SECS, 20);
    assert_eq!(tx_hex_url(MEMPOOL_TX_HEX_URL, "00ff"), "https://mempool.space/api/tx/00ff/hex");
    assert!(tx_hex_url(MEMPOOL_ONION_TX_HEX_URL, "00ff").ends_with(".onion/api/tx/00ff/hex"));
    assert_eq!(tor_proxy_url(None), "socks5h://127.0.0.1:9050");
    assert_eq!(tor_proxy_url(Some("socks5h://x:1".to_string())), "socks5h://x:1");
}

fn next_url(action: HexAction) -> (String, bool) {
    match action {
        HexAction::Get { url, through_proxy } => (url, through_proxy),
        HexAction::Finish => panic!("finished"),
    }
}

#[test]
fn transactions_are_read_with_a_second_try() {
    let mut f = fetch_recent_tx_hexes(ids(&["a", "b", "c"]).unwrap(), true);
    assert_eq!(next_url(f.action()), ("https://mempool.space/api/tx/a/hex".to_string(), false));
    f.on_answer(Some(" 00ff\n"));
    f.on_answer(None);
    let (url, through_proxy) = next_url(f.action());
    assert!(url.ends_with(".onion/api/tx/b/hex") && through_proxy);
    f.on_answer(Some("11"));
    f.on_answer(None);
    f.on_answer(None);
    assert!(matches!(f.action(), HexAction::Finish));
    f.on_answer(Some("more"));
    assert_eq!(
        f.into_texts(),
        vec![("a".to_string(), "00ff".to_string()), ("b".to_string(), "11".to_string())]
    );
}

#[test]
fn without_a_proxy_there_is_one_try() {
    let mut f = fetch_recent_tx_hexes(ids(&["a", "b"]).unwrap(), false);
    f.on_answer(None);
    assert_eq!(next_url(f.action()), ("https://mempool.space/api/tx/b/hex".to_string(), false));
    f.on_answer(None);
    assert!(matches!(f.action(), HexAction::Finish));
    assert!(f.into_texts().is_empty());
}
