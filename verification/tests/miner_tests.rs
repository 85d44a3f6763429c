use accumulator_demo::miner::BlockOutcome;
use accumulator_demo::miner::Miner;
use accumulator_demo::miner::ProofChecks;
use accumulator_demo::miner::ProtocolViolation;
use accumulator_demo::state::Block;
use accumulator_demo::state::Transaction;
use accumulator_demo::state::Utxo;

const ALL_PASS: ProofChecks =
    ProofChecks { deleted_verified: true, added_verified: true, witnesses_match: true };

fn utxo(id: u128, user_id: usize) -> Utxo {
    Utxo { id, user_id }
}

fn spend(old: u128, new: u128, user_id: usize, witness: u64) -> Transaction<u64> {
    Transaction {
        utxos_created: vec![utxo(new, user_id)],
        utxos_spent_with_witnesses: vec![(utxo(old, user_id), witness)],
    }
}

fn block(height: u64, transactions: Vec<Transaction<u64>>, acc_new: u64) -> Block<u64, u64, u64> {
    Block { height, transactions, acc_new, proof_added: 1, proof_deleted: 2 }
}

#[test]
fn a_new_miner_is_at_height_zero_with_nothing_pending() {
    let miner: Miner<u64, u64> = Miner::new(77);
    assert_eq!(*miner.acc(), 77);
    assert_eq!(miner.block_height(), 0);
    assert!(miner.pending_transactions().is_empty());
}

#[test]
fn transactions_are_buffered_in_arrival_order() {
    let mut miner: Miner<u64, u64> = Miner::new(0);
    miner.add_transaction(spend(1, 11, 0, 5));
    miner.add_transaction(spend(2, 12, 1, 6));
    miner.add_transaction(spend(3, 13, 2, 7));
    assert_eq!(
        *miner.pending_transactions(),
        vec![spend(1, 11, 0, 5), spend(2, 12, 1, 6), spend(3, 13, 2, 7)]
    );
    assert_eq!(miner.block_height(), 0);
    assert_eq!(*miner.acc(), 0);
}

#[test]
fn an_equal_transaction_is_buffered_once() {
    let mut miner: Miner<u64, u64> = Miner::new(0);
    miner.add_transaction(spend(1, 11, 0, 5));
    miner.add_transaction(spend(2, 12, 1, 6));
    miner.add_transaction(spend(1, 11, 0, 5));
    miner.add_transaction(spend(2, 12, 1, 6));
    assert_eq!(*miner.pending_transactions(), vec![spend(1, 11, 0, 5), spend(2, 12, 1, 6)]);
}

#[test]
fn a_transaction_with_another_witness_is_another_transaction() {
    let mut miner: Miner<u64, u64> = Miner::new(0);
    miner.add_transaction(spend(1, 11, 0, 5));
    miner.add_transaction(spend(1, 11, 0, 6));
    assert_eq!(*miner.pending_transactions(), vec![spend(1, 11, 0, 5), spend(1, 11, 0, 6)]);
}

#[test]
fn forge_inputs_flatten_the_pending_transactions() {
    let mut miner: Miner<u64, u64> = Miner::new(0);
    miner.add_transaction(spend(1, 11, 0, 5));
    miner.add_transaction(Transaction {
        utxos_created: vec![utxo(12, 1), utxo(13, 1)],
        utxos_spent_with_witnesses: vec![(utxo(2, 1), 6), (utxo(3, 1), 7)],
    });
    let (added, deleted) = miner.forge_inputs();
    assert_eq!(added, vec![utxo(11, 0), utxo(12, 1), utxo(13, 1)]);
    assert_eq!(deleted, vec![(utxo(1, 0), 5), (utxo(2, 1), 6), (utxo(3, 1), 7)]);
}

#[test]
fn a_forged_block_stands_at_the_next_height_and_leaves_the_miner_alone() {
    let mut miner: Miner<u64, u64> = Miner::new(40);
    miner.add_transaction(spend(1, 11, 0, 5));
    miner.add_transaction(spend(2, 12, 1, 6));
    let forged: Block<u64, u64, u64> = miner.forge_block(41, 8, 9);
    assert_eq!(
        forged,
        Block {
            height: 1,
            transactions: vec![spend(1, 11, 0, 5), spend(2, 12, 1, 6)],
            acc_new: 41,
            proof_added: 8,
            proof_deleted: 9,
        }
    );
    assert_eq!(miner.block_height(), 0);
    assert_eq!(*miner.acc(), 40);
    assert_eq!(miner.pending_transactions().len(), 2);
}

#[test]
fn an_empty_block_may_be_forged() {
    let miner: Miner<u64, u64> = Miner::new(40);
    let forged: Block<u64, u64, u64> = miner.forge_block(40, 8, 9);
    assert_eq!(forged.height, 1);
    assert!(forged.transactions.is_empty());
}

#[test]
fn a_miner_expects_only_the_next_height() {
    let miner: Miner<u64, u64> = Miner::new(0);
    assert!(miner.expects(1));
    assert!(!miner.expects(0));
    assert!(!miner.expects(2));
    assert!(!miner.expects(u64::MAX));
}

#[test]
fn validation_inputs_are_the_created_and_spent_outputs() {
    let miner: Miner<u64, u64> = Miner::new(0);
    let b = block(1, vec![spend(1, 11, 0, 5), spend(2, 12, 1, 6)], 9);
    assert_eq!(
        miner.validation_inputs(&b),
        Some((vec![utxo(11, 0), utxo(12, 1)], vec![utxo(1, 0), utxo(2, 1)]))
    );
    assert_eq!(miner.validation_inputs(&block(2, vec![], 9)), None);
    assert_eq!(miner.validation_inputs(&block(0, vec![], 9)), None);
}

#[test]
fn a_valid_block_is_adopted() {
    let mut miner: Miner<u64, u64> = Miner::new(40);
    miner.add_transaction(spend(1, 11, 0, 5));
    let b = block(1, vec![spend(1, 11, 0, 5)], 41);
    assert_eq!(miner.validate_block(b, ALL_PASS), Ok(BlockOutcome::Applied));
    assert_eq!(*miner.acc(), 41);
    assert_eq!(miner.block_height(), 1);
    assert!(miner.pending_transactions().is_empty());
}

#[test]
fn a_block_at_another_height_is_ignored_whatever_its_checks_say() {
    let mut miner: Miner<u64, u64> = Miner::new(40);
    miner.add_transaction(spend(1, 11, 0, 5));
    let none_pass =
        ProofChecks { deleted_verified: false, added_verified: false, witnesses_match: false };
    for height in [0u64, 2, 3, u64::MAX] {
        assert_eq!(miner.validate_block(block(height, vec![], 99), ALL_PASS), Ok(BlockOutcome::Ignored));
        assert_eq!(
            miner.validate_block(block(height, vec![], 99), none_pass),
            Ok(BlockOutcome::Ignored)
        );
    }
    assert_eq!(*miner.acc(), 40);
    assert_eq!(miner.block_height(), 0);
    assert_eq!(miner.pending_transactions().len(), 1);
}

#[test]
fn a_block_whose_deletions_do_not_verify_is_a_violation() {
    let mut miner: Miner<u64, u64> = Miner::new(40);
    miner.add_transaction(spend(1, 11, 0, 5));
    let checks = ProofChecks { deleted_verified: false, added_verified: true, witnesses_match: true };
    assert_eq!(
        miner.validate_block(block(1, vec![], 41), checks),
        Err(ProtocolViolation::DeletedNotVerified)
    );
    assert_eq!(*miner.acc(), 40);
    assert_eq!(miner.block_height(), 0);
    assert_eq!(miner.pending_transactions().len(), 1);
}

#[test]
fn a_block_whose_additions_do_not_verify_is_a_violation() {
    let mut miner: Miner<u64, u64> = Miner::new(40);
    let checks = ProofChecks { deleted_verified: true, added_verified: false, witnesses_match: true };
    assert_eq!(
        miner.validate_block(block(1, vec![], 41), checks),
        Err(ProtocolViolation::AddedNotVerified)
    );
    assert_eq!(miner.block_height(), 0);
}

#[test]
fn a_block_whose_proofs_differ_in_their_witness_is_a_violation() {
    let mut miner: Miner<u64, u64> = Miner::new(40);
    let checks = ProofChecks { deleted_verified: true, added_verified: true, witnesses_match: false };
    assert_eq!(
        miner.validate_block(block(1, vec![], 41), checks),
        Err(ProtocolViolation::WitnessMismatch)
    );
    assert_eq!(miner.block_height(), 0);
}

#[test]
fn the_first_failed_check_is_the_one_reported() {
    let mut miner: Miner<u64, u64> = Miner::new(40);
    let none = ProofChecks { deleted_verified: false, added_verified: false, witnesses_match: false };
    assert_eq!(
        miner.validate_block(block(1, vec![], 41), none),
        Err(ProtocolViolation::DeletedNotVerified)
    );
    let last_two = ProofChecks { deleted_verified: true, added_verified: false, witnesses_match: false };
    assert_eq!(
        miner.validate_block(block(1, vec![], 41), last_two),
        Err(ProtocolViolation::AddedNotVerified)
    );
}

#[test]
fn the_height_rises_by_one_with_each_block_applied() {
    let mut miner: Miner<u64, u64> = Miner::new(0);
    for height in 1..=5u64 {
        assert!(miner.expects(height));
        let before = miner.block_height();
        assert_eq!(miner.validate_block(block(height, vec![], height), ALL_PASS), Ok(BlockOutcome::Applied));
        assert_eq!(miner.block_height(), before + 1);
        assert_eq!(*miner.acc(), height);
        assert_eq!(miner.validate_block(block(height, vec![], 1000), ALL_PASS), Ok(BlockOutcome::Ignored));
        assert_eq!(miner.block_height(), before + 1);
    }
}
