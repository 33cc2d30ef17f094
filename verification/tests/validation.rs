use pow_ledger::{Block, Blockchain, FailedCheck, ValidationFailure};

fn chain_of_three(difficulty: usize) -> Blockchain {
    let mut ledger = Blockchain::new(difficulty);
    let mut timestamp = 1_700_000_000;
    for transactions in [vec!["a", "b"], vec!["c"], vec!["d", "e"]] {
        for transaction in transactions {
            ledger.add_transaction(transaction.to_string());
        }
        assert_eq!(ledger.mine_and_add_block_at(timestamp), Ok(()));
        timestamp += 60;
    }
    assert_eq!(ledger.chain.len(), 4);
    ledger
}

fn failure(index: usize, check: FailedCheck) -> Result<(), ValidationFailure> {
    Err(ValidationFailure { index, check })
}

#[test]
fn fresh_ledger_is_valid() {
    assert_eq!(Blockchain::new(0).validate(), Ok(()));
    assert_eq!(Blockchain::new(4).validate(), Ok(()));
    assert_eq!(Blockchain::new(17).validate(), Ok(()));
}

#[test]
fn sealed_chain_is_valid() {
    for difficulty in 0usize..=2 {
        assert_eq!(chain_of_three(difficulty).validate(), Ok(()));
    }
}

#[test]
fn pending_transactions_do_not_matter_to_validation() {
    let mut ledger = chain_of_three(1);
    ledger.add_transaction("waiting".to_string());
    assert_eq!(ledger.validate(), Ok(()));
}

#[test]
fn tampered_data_is_a_hash_mismatch() {
    for index in 1usize..=3 {
        let mut ledger = chain_of_three(1);
        ledger.chain[index].data.push('!');
        assert_eq!(ledger.validate(), failure(index, FailedCheck::HashMismatch));
    }
}

#[test]
fn tampered_timestamp_is_a_hash_mismatch() {
    for index in 1usize..=3 {
        let mut ledger = chain_of_three(1);
        ledger.chain[index].timestamp += 1;
        assert_eq!(ledger.validate(), failure(index, FailedCheck::HashMismatch));
    }
}

#[test]
fn tampered_nonce_is_a_hash_mismatch() {
    for index in 1usize..=3 {
        let mut ledger = chain_of_three(1);
        ledger.chain[index].nonce += 1;
        assert_eq!(ledger.validate(), failure(index, FailedCheck::HashMismatch));
    }
}

#[test]
fn tampered_hash_is_a_hash_mismatch() {
    for index in 1usize..=3 {
        let mut ledger = chain_of_three(1);
        ledger.chain[index].hash = "0000000000000000".to_string();
        assert_eq!(ledger.validate(), failure(index, FailedCheck::HashMismatch));
    }
}

#[test]
fn tampered_previous_hash_is_a_hash_mismatch() {
    for index in 1usize..=3 {
        let mut ledger = chain_of_three(1);
        ledger.chain[index].previous_hash = "0123456789abcdef".to_string();
        assert_eq!(ledger.validate(), failure(index, FailedCheck::HashMismatch));
    }
}

#[test]
fn first_violation_is_the_one_reported() {
    let mut ledger = chain_of_three(1);
    ledger.chain[3].data.push('!');
    ledger.chain[2].nonce += 1;
    assert_eq!(ledger.validate(), failure(2, FailedCheck::HashMismatch));
    ledger.chain[1].timestamp += 1;
    assert_eq!(ledger.validate(), failure(1, FailedCheck::HashMismatch));
}

#[test]
fn block_mined_behind_another_hash_is_a_linkage_mismatch() {
    let mut ledger = chain_of_three(1);
    let (timestamp, data) = (ledger.chain[2].timestamp, ledger.chain[2].data.clone());
    let elsewhere = "1111111111111111".to_string();
    let (nonce, hash) = ledger
        .mine_block(elsewhere.clone(), timestamp, data.clone())
        .expect("a nonce is found at low difficulty");
    ledger.chain[2] = Block { index: 2, timestamp, data, previous_hash: elsewhere, hash, nonce };
    assert_eq!(ledger.validate(), failure(2, FailedCheck::LinkageMismatch));
}

#[test]
fn tampered_genesis_hash_breaks_the_first_link() {
    let mut ledger = chain_of_three(1);
    ledger.chain[0].hash = "1".to_string();
    assert_eq!(ledger.validate(), failure(1, FailedCheck::LinkageMismatch));
}

#[test]
fn block_that_was_not_mined_is_unmet_difficulty() {
    let mut ledger = chain_of_three(2);
    let (timestamp, data) = (ledger.chain[1].timestamp, ledger.chain[1].data.clone());
    let previous_hash = ledger.chain[1].previous_hash.clone();
    let mut nonce = 0;
    let mut hash = ledger.calculate_hash(&previous_hash, timestamp, &data, nonce);
    while ledger.is_valid_hash(&hash) {
        nonce += 1;
        hash = ledger.calculate_hash(&previous_hash, timestamp, &data, nonce);
    }
    ledger.chain[1] = Block { index: 1, timestamp, data, previous_hash, hash, nonce };
    assert_eq!(ledger.validate(), failure(1, FailedCheck::DifficultyUnmet));
}

#[test]
fn chain_sealed_at_a_lower_difficulty_is_unmet_difficulty() {
    let mut ledger = chain_of_three(0);
    ledger.difficulty = 16;
    assert_eq!(ledger.validate(), failure(1, FailedCheck::DifficultyUnmet));
}

#[test]
fn remined_block_passes_but_breaks_the_next_link() {
    let mut ledger = chain_of_three(1);
    let previous_hash = ledger.chain[1].previous_hash.clone();
    let timestamp = ledger.chain[1].timestamp;
    let data = "forged".to_string();
    let (nonce, hash) = ledger
        .mine_block(previous_hash.clone(), timestamp, data.clone())
        .expect("a nonce is found at low difficulty");
    ledger.chain[1] = Block { index: 1, timestamp, data, previous_hash, hash, nonce };
    assert_eq!(ledger.validate(), failure(2, FailedCheck::LinkageMismatch));
}

#[test]
fn validation_repairs_nothing() {
    let mut ledger = chain_of_three(1);
    ledger.chain[2].data.push('!');
    let tampered = ledger.chain[2].data.clone();
    assert_eq!(ledger.validate(), failure(2, FailedCheck::HashMismatch));
    assert_eq!(ledger.validate(), failure(2, FailedCheck::HashMismatch));
    assert_eq!(ledger.chain[2].data, tampered);
    assert_eq!(ledger.chain.len(), 4);
}

#[test]
fn sealing_after_validation_keeps_the_chain_valid() {
    let mut ledger = chain_of_three(1);
    assert_eq!(ledger.validate(), Ok(()));
    ledger.add_transaction("f".to_string());
    assert_eq!(ledger.mine_and_add_block_at(1_700_000_500), Ok(()));
    assert_eq!(ledger.chain.len(), 5);
    assert_eq!(ledger.validate(), Ok(()));
}

#[test]
fn index_is_covered_by_no_check() {
    let mut ledger = chain_of_three(1);
    ledger.chain[2].index = 7;
    assert_eq!(ledger.validate(), Ok(()));
}

#[test]
fn genesis_payload_is_covered_by_no_check() {
    let mut ledger = chain_of_three(1);
    ledger.chain[0].data.push('!');
    ledger.chain[0].nonce = 9;
    assert_eq!(ledger.validate(), Ok(()));
}
