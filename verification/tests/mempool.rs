use merkle_lab::mempool::Mempool;
use merkle_lab::mempool::Transaction;

#[test]
fn pop_first_returns_the_oldest_transaction() {
    let mut pool = Mempool::new();
    pool.add(Transaction { id: 1, payload: "Tx_A".to_string() });
    pool.add(Transaction { id: 2, payload: "Tx_B".to_string() });
    let first = pool.pop_first().expect("pool is not empty");
    assert_eq!(first.id, 1);
    assert_eq!(first.payload, "Tx_A");
    assert_eq!(pool.txs.len(), 1);
    assert_eq!(pool.txs[0].id, 2);
}

#[test]
fn pop_first_on_an_empty_pool_is_none() {
    let mut pool = Mempool::new();
    assert!(pool.pop_first().is_none());
}

#[test]
fn preview_shows_the_first_four_characters_of_the_newest_payload() {
    let mut pool = Mempool::new();
    pool.add(Transaction { id: 1, payload: "Tx_A".to_string() });
    pool.add(Transaction { id: 2, payload: "Mint 100 BTC".to_string() });
    assert_eq!(pool.get_latest_payload_preview(), "Mint");
}

#[test]
fn preview_takes_bytes_not_characters() {
    // Two two-byte characters: the four-byte preview is just those two.
    let mut pool = Mempool::new();
    pool.add(Transaction { id: 1, payload: "\u{e9}\u{e9}xx".to_string() });
    assert_eq!(pool.get_latest_payload_preview(), "\u{e9}\u{e9}");
}

#[test]
fn preview_of_an_empty_pool() {
    let pool = Mempool::new();
    assert_eq!(pool.get_latest_payload_preview(), "Empty");
}
