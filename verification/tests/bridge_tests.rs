use accumulator_demo::bridge::Bridge;
use accumulator_demo::bridge::BridgeUpdate;
use accumulator_demo::bridge::UserUpdate;
use accumulator_demo::bridge::WitnessRequest;
use accumulator_demo::bridge::WitnessResponse;
use accumulator_demo::state::Block;
use accumulator_demo::state::Transaction;
use accumulator_demo::state::Utxo;

fn utxo(id: u128, user_id: usize) -> Utxo {
    Utxo { id, user_id }
}

fn tx(created: Vec<Utxo>, spent: Vec<Utxo>) -> Transaction<u64> {
    Transaction {
        utxos_created: created,
        utxos_spent_with_witnesses: spent.into_iter().map(|u| (u, 1000 + u.id as u64)).collect(),
    }
}

fn block(height: u64, transactions: Vec<Transaction<u64>>) -> Block<u64, u64, u64> {
    Block { height, transactions, acc_new: 0, proof_added: 0, proof_deleted: 0 }
}

fn nothing() -> UserUpdate {
    UserUpdate { utxos_added: vec![], utxos_deleted: vec![] }
}

fn bridge_of_two() -> Bridge<u64> {
    Bridge::new(3, 500, vec![utxo(1, 10), utxo(2, 11)], vec![10, 11])
}

#[test]
fn an_update_is_empty_when_it_adds_and_deletes_nothing() {
    assert!(nothing().is_empty());
    assert!(!UserUpdate { utxos_added: vec![utxo(1, 0)], utxos_deleted: vec![] }.is_empty());
    assert!(!UserUpdate { utxos_added: vec![], utxos_deleted: vec![utxo(1, 0)] }.is_empty());
    assert!(!UserUpdate { utxos_added: vec![utxo(2, 0)], utxos_deleted: vec![utxo(1, 0)] }.is_empty());
}

#[test]
fn a_new_bridge_is_at_height_zero() {
    let bridge = bridge_of_two();
    assert_eq!(bridge.bridge_id(), 3);
    assert_eq!(bridge.block_height(), 0);
    assert_eq!(*bridge.utxo_set_witness(), 500);
    assert_eq!(*bridge.utxo_set(), vec![utxo(1, 10), utxo(2, 11)]);
    assert_eq!(*bridge.user_ids(), vec![10, 11]);
}

#[test]
fn a_user_named_twice_counts_once() {
    let bridge: Bridge<u64> = Bridge::new(0, 0, vec![], vec![4, 2, 4, 4, 9, 2]);
    assert_eq!(*bridge.user_ids(), vec![4, 2, 9]);
}

#[test]
fn a_block_is_split_into_tracked_and_untracked_changes() {
    let bridge = bridge_of_two();
    let b = block(
        1,
        vec![
            tx(vec![utxo(21, 10)], vec![utxo(1, 10)]),
            tx(vec![utxo(31, 77)], vec![utxo(30, 77)]),
            tx(vec![utxo(22, 11), utxo(32, 78)], vec![utxo(2, 11), utxo(33, 78)]),
        ],
    );
    let plan = bridge.plan_update(&b).unwrap();
    assert_eq!(
        plan,
        BridgeUpdate {
            height: 1,
            utxo_set: vec![utxo(21, 10), utxo(22, 11)],
            untracked_additions: vec![utxo(31, 77), utxo(32, 78)],
            untracked_deletions: vec![utxo(30, 77), utxo(33, 78)],
            user_updates: vec![
                (10, UserUpdate { utxos_added: vec![utxo(21, 10)], utxos_deleted: vec![utxo(1, 10)] }),
                (11, UserUpdate { utxos_added: vec![utxo(22, 11)], utxos_deleted: vec![utxo(2, 11)] }),
            ],
        }
    );
    assert_eq!(bridge.block_height(), 0);
    assert_eq!(*bridge.utxo_set(), vec![utxo(1, 10), utxo(2, 11)]);
}

#[test]
fn an_empty_block_gives_every_user_an_empty_update() {
    let bridge = bridge_of_two();
    let plan = bridge.plan_update(&block(1, vec![])).unwrap();
    assert_eq!(plan.utxo_set, vec![utxo(1, 10), utxo(2, 11)]);
    assert_eq!(plan.untracked_additions, vec![]);
    assert_eq!(plan.untracked_deletions, vec![]);
    assert_eq!(plan.user_updates, vec![(10, nothing()), (11, nothing())]);
}

#[test]
fn transactions_are_applied_in_order() {
    let bridge: Bridge<u64> = Bridge::new(0, 0, vec![utxo(1, 10)], vec![10]);
    let b = block(
        1,
        vec![
            tx(vec![utxo(2, 10)], vec![utxo(1, 10)]),
            tx(vec![utxo(3, 10)], vec![utxo(2, 10)]),
        ],
    );
    let plan = bridge.plan_update(&b).unwrap();
    assert_eq!(plan.utxo_set, vec![utxo(3, 10)]);
    assert_eq!(
        plan.user_updates,
        vec![(
            10,
            UserUpdate {
                utxos_added: vec![utxo(2, 10), utxo(3, 10)],
                utxos_deleted: vec![utxo(1, 10), utxo(2, 10)],
            }
        )]
    );
}

#[test]
fn within_a_transaction_spending_comes_before_creating() {
    let bridge: Bridge<u64> = Bridge::new(0, 0, vec![utxo(1, 10)], vec![10]);
    let b = block(1, vec![tx(vec![utxo(1, 10)], vec![utxo(1, 10)])]);
    let plan = bridge.plan_update(&b).unwrap();
    assert_eq!(plan.utxo_set, vec![utxo(1, 10)]);
}

#[test]
fn spending_removes_every_copy_and_an_unknown_output_removes_nothing() {
    let bridge: Bridge<u64> =
        Bridge::new(0, 0, vec![utxo(1, 10), utxo(2, 10), utxo(1, 10)], vec![10]);
    let plan = bridge.plan_update(&block(1, vec![tx(vec![], vec![utxo(1, 10), utxo(9, 10)])])).unwrap();
    assert_eq!(plan.utxo_set, vec![utxo(2, 10)]);
}

#[test]
fn a_block_at_another_height_asks_nothing() {
    let bridge = bridge_of_two();
    assert_eq!(bridge.plan_update(&block(0, vec![])), None);
    assert_eq!(bridge.plan_update(&block(2, vec![])), None);
    assert_eq!(bridge.plan_update(&block(u64::MAX, vec![])), None);
}

#[test]
fn committing_a_plan_moves_the_bridge() {
    let mut bridge = bridge_of_two();
    let b = block(1, vec![tx(vec![utxo(21, 10)], vec![utxo(1, 10)])]);
    let plan = bridge.plan_update(&b).unwrap();
    let sent = bridge.commit_update(plan, 501).unwrap();
    assert_eq!(
        sent,
        vec![
            (10, UserUpdate { utxos_added: vec![utxo(21, 10)], utxos_deleted: vec![utxo(1, 10)] }),
            (11, nothing()),
        ]
    );
    assert_eq!(bridge.block_height(), 1);
    assert_eq!(*bridge.utxo_set_witness(), 501);
    assert_eq!(*bridge.utxo_set(), vec![utxo(2, 11), utxo(21, 10)]);
    assert_eq!(*bridge.user_ids(), vec![10, 11]);
    assert_eq!(bridge.bridge_id(), 3);
}

#[test]
fn a_plan_for_another_height_is_refused() {
    let mut bridge = bridge_of_two();
    let plan = bridge.plan_update(&block(1, vec![tx(vec![utxo(21, 10)], vec![utxo(1, 10)])])).unwrap();
    assert!(bridge.commit_update(plan.clone(), 501).is_some());
    assert_eq!(bridge.commit_update(plan, 502), None);
    assert_eq!(bridge.block_height(), 1);
    assert_eq!(*bridge.utxo_set_witness(), 501);
    assert_eq!(*bridge.utxo_set(), vec![utxo(2, 11), utxo(21, 10)]);
}

#[test]
fn the_bridge_height_rises_by_one_with_each_block_applied() {
    let mut bridge = bridge_of_two();
    for height in 1..=4u64 {
        let plan = bridge.plan_update(&block(height, vec![])).unwrap();
        assert!(bridge.commit_update(plan, height).is_some());
        assert_eq!(bridge.block_height(), height);
        assert_eq!(bridge.plan_update(&block(height, vec![])), None);
        assert_eq!(bridge.block_height(), height);
    }
}

#[test]
fn a_bridge_serves_its_users_for_the_outputs_it_holds() {
    let bridge = bridge_of_two();
    let ask = |user_id: usize, utxos: Vec<Utxo>| WitnessRequest { user_id, request_id: 1, utxos };
    assert!(bridge.can_serve(&ask(10, vec![utxo(1, 10)])));
    assert!(bridge.can_serve(&ask(10, vec![utxo(1, 10), utxo(2, 11)])));
    assert!(bridge.can_serve(&ask(11, vec![])));
    assert!(!bridge.can_serve(&ask(12, vec![utxo(1, 10)])));
    assert!(!bridge.can_serve(&ask(10, vec![utxo(3, 10)])));
    assert!(!bridge.can_serve(&ask(10, vec![utxo(1, 10), utxo(1, 11)])));
}

#[test]
fn a_response_carries_the_request_identifier_to_the_requesting_user() {
    let bridge = bridge_of_two();
    let request = WitnessRequest { user_id: 11, request_id: 0xabcdef, utxos: vec![utxo(2, 11)] };
    assert_eq!(
        bridge.respond(&request, vec![(utxo(2, 11), 9u64)]),
        Some((
            11,
            WitnessResponse { request_id: 0xabcdef, utxos_with_witnesses: vec![(utxo(2, 11), 9u64)] }
        ))
    );
    let stranger = WitnessRequest { user_id: 12, request_id: 5, utxos: vec![] };
    assert_eq!(bridge.respond(&stranger, vec![]), None);
}

#[test]
fn a_cloned_bridge_has_the_same_state() {
    let bridge = bridge_of_two();
    let copy = bridge.clone();
    assert_eq!(copy.bridge_id(), 3);
    assert_eq!(copy.block_height(), 0);
    assert_eq!(*copy.utxo_set_witness(), 500);
    assert_eq!(copy.utxo_set(), bridge.utxo_set());
    assert_eq!(copy.user_ids(), bridge.user_ids());
}
