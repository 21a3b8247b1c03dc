use merkle_lab::ledger::BitcoinTx;
use merkle_lab::ledger::EthereumTx;
use merkle_lab::ledger::Ledger;
use merkle_lab::ledger::Summarizable;

#[test]
fn ledger_starts_empty_with_its_name() {
    let ledger: Ledger<BitcoinTx> = Ledger::new("Satoshi's Book");
    assert_eq!(ledger.name, "Satoshi's Book");
    assert_eq!(ledger.records.len(), 0);
}

#[test]
fn ledger_keeps_records_in_insertion_order() {
    let mut ledger: Ledger<BitcoinTx> = Ledger::new("Satoshi's Book");
    ledger.add_record(BitcoinTx { tx_id: "0x123...".to_string(), amount: 50 });
    ledger.add_record(BitcoinTx { tx_id: "0x456...".to_string(), amount: 7 });
    assert_eq!(ledger.records.len(), 2);
    assert_eq!(ledger.records[0].tx_id, "0x123...");
    assert_eq!(ledger.records[1].tx_id, "0x456...");
}

#[test]
fn bitcoin_summary_format() {
    let tx = BitcoinTx { tx_id: "0x123...".to_string(), amount: 50 };
    assert_eq!(tx.summarize(), "BTC Tx: 0x123... | Amt: 50");
}

#[test]
fn ethereum_summary_format() {
    let tx = EthereumTx { from: "Alice".to_string(), to: "Bob".to_string(), gas_limit: 21000 };
    assert_eq!(tx.summarize(), "ETH Tx: From Alice To Bob | Gas: 21000");
}

#[test]
fn ethereum_ledger_accepts_its_own_record_type() {
    let mut ledger: Ledger<EthereumTx> = Ledger::new("Vitalik's Notebook");
    ledger.add_record(EthereumTx {
        from: "Alice".to_string(),
        to: "Bob".to_string(),
        gas_limit: 21000,
    });
    assert_eq!(ledger.records.len(), 1);
    assert_eq!(ledger.records[0].gas_limit, 21000);
}
