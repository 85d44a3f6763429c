use accumulator_demo::genesis::bridge_partitions;
use accumulator_demo::genesis::genesis_utxos;
use accumulator_demo::genesis::genesis_utxos_with_ids;
use accumulator_demo::genesis::BridgeGenesis;
use accumulator_demo::genesis::GenesisError;
use accumulator_demo::state::Utxo;

fn numbered(count: usize) -> Vec<Utxo> {
    let ids: Vec<u128> = (0..count).map(|i| 100 + i as u128).collect();
    genesis_utxos_with_ids(&ids)
}

#[test]
fn genesis_gives_user_i_the_output_with_identifier_i() {
    let utxos = genesis_utxos_with_ids(&[7, 8, 9]);
    assert_eq!(
        utxos,
        vec![
            Utxo { id: 7, user_id: 0 },
            Utxo { id: 8, user_id: 1 },
            Utxo { id: 9, user_id: 2 },
        ]
    );
    assert_eq!(genesis_utxos_with_ids(&[]), Vec::<Utxo>::new());
}

#[test]
fn fresh_genesis_outputs_carry_random_uuids() {
    let utxos = genesis_utxos(15);
    assert_eq!(utxos.len(), 15);
    for (i, utxo) in utxos.iter().enumerate() {
        assert_eq!(utxo.user_id, i);
        let uuid = uuid::Uuid::from_u128(utxo.id);
        assert_eq!(uuid.get_version_num(), 4);
        assert_eq!(uuid.get_variant(), uuid::Variant::RFC4122);
        assert_eq!(
            utxo.id & 0x0000_0000_0000_f000_c000_0000_0000_0000u128,
            0x0000_0000_0000_4000_8000_0000_0000_0000u128
        );
    }
    for i in 0..utxos.len() {
        for j in 0..i {
            assert_ne!(utxos[i].id, utxos[j].id);
        }
    }
    assert_eq!(genesis_utxos(0), Vec::<Utxo>::new());
}

#[test]
fn fifteen_users_over_five_bridges_of_three() {
    let utxos = numbered(15);
    let shares = bridge_partitions(&utxos, &[3, 3, 3, 3, 3]).unwrap();
    assert_eq!(shares.len(), 5);
    for (b, share) in shares.iter().enumerate() {
        assert_eq!(share.bridge_id, b);
        assert_eq!(share.user_ids, vec![3 * b, 3 * b + 1, 3 * b + 2]);
        assert_eq!(share.utxo_set, utxos[3 * b..3 * b + 3].to_vec());
    }
}

#[test]
fn uneven_shares_follow_one_another() {
    let utxos = numbered(6);
    let shares = bridge_partitions(&utxos, &[1, 0, 3, 2]).unwrap();
    assert_eq!(
        shares,
        vec![
            BridgeGenesis { bridge_id: 0, user_ids: vec![0], utxo_set: vec![utxos[0]] },
            BridgeGenesis { bridge_id: 1, user_ids: vec![], utxo_set: vec![] },
            BridgeGenesis {
                bridge_id: 2,
                user_ids: vec![1, 2, 3],
                utxo_set: vec![utxos[1], utxos[2], utxos[3]],
            },
            BridgeGenesis { bridge_id: 3, user_ids: vec![4, 5], utxo_set: vec![utxos[4], utxos[5]] },
        ]
    );
}

#[test]
fn every_user_is_served_by_exactly_one_bridge() {
    let utxos = numbered(9);
    let shares = bridge_partitions(&utxos, &[4, 0, 2, 3]).unwrap();
    for user in 0..9usize {
        let serving = shares.iter().filter(|s| s.user_ids.contains(&user)).count();
        assert_eq!(serving, 1);
    }
}

#[test]
fn no_users_and_no_bridges() {
    assert_eq!(bridge_partitions(&[], &[]), Ok(vec![]));
    assert_eq!(
        bridge_partitions(&[], &[0, 0]),
        Ok(vec![
            BridgeGenesis { bridge_id: 0, user_ids: vec![], utxo_set: vec![] },
            BridgeGenesis { bridge_id: 1, user_ids: vec![], utxo_set: vec![] },
        ])
    );
}

#[test]
fn a_split_that_assigns_too_many_users_is_refused() {
    let utxos = numbered(5);
    assert_eq!(bridge_partitions(&utxos, &[3, 3]), Err(GenesisError::TooManyAssigned));
    assert_eq!(bridge_partitions(&utxos, &[6]), Err(GenesisError::TooManyAssigned));
    assert_eq!(
        bridge_partitions(&utxos, &[usize::MAX, usize::MAX]),
        Err(GenesisError::TooManyAssigned)
    );
    assert_eq!(bridge_partitions(&[], &[1]), Err(GenesisError::TooManyAssigned));
}

#[test]
fn a_split_that_leaves_users_out_is_refused() {
    let utxos = numbered(5);
    assert_eq!(bridge_partitions(&utxos, &[2, 2]), Err(GenesisError::TooFewAssigned));
    assert_eq!(bridge_partitions(&utxos, &[]), Err(GenesisError::TooFewAssigned));
}
