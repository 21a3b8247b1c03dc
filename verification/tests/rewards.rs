use merkle_lab::rewards::total_reward;
use merkle_lab::rewards::Transaction;

#[test]
fn doubles_and_sums_the_amounts_above_the_limit() {
    let txs = vec![
        Transaction { amount: 5 },
        Transaction { amount: 10 },
        Transaction { amount: 15 },
        Transaction { amount: 20 },
    ];
    assert_eq!(total_reward(&txs, 10), 70);
}

#[test]
fn an_amount_equal_to_the_limit_does_not_count() {
    let txs = vec![Transaction { amount: 10 }];
    assert_eq!(total_reward(&txs, 10), 0);
}

#[test]
fn no_transactions_means_no_reward() {
    let txs: Vec<Transaction> = Vec::new();
    assert_eq!(total_reward(&txs, 10), 0);
}
