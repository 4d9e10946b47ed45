//! Block assembly, proof shapes and harness helpers.

use rollup_engine::keeper::{ApplyOrdering, KeeperConfig, PlasmaStateKeeper, ProposedBlock};
use rollup_engine::params::CHUNK_BYTES;
use rollup_engine::prover::{EncodedProofPlonk, UniversalSetupCache, U256};
use rollup_engine::testkit::{genesis_state, supported_block_chunks_sizes};
use rollup_engine::tx::{ChangePubKey, ChangePubKeyType, Deposit, FranklinPriorityOp, FranklinTx, PriorityOp};

fn addr(b: u8) -> Vec<u8> {
    vec![b; 20]
}

#[test]
fn sealed_block_public_data_is_padded_to_size_class() {
    let mut keeper = PlasmaStateKeeper::new(
        genesis_state(&addr(0xFE)),
        0,
        KeeperConfig {
            available_block_chunks_sizes: vec![10, 50, 100],
            max_withdrawals_per_block: 2,
            max_block_iterations: 10,
            max_token_id: 5,
            ordering: ApplyOrdering::PriorityOpsFirst,
        },
        1000,
    );
    let batch = ProposedBlock {
        priority_ops: vec![PriorityOp {
            serial_id: 0,
            data: FranklinPriorityOp::Deposit(Deposit {
                from: addr(1),
                token: 0,
                amount: 777,
                to: addr(2),
            }),
            deadline_block: 9,
            eth_hash: vec![0; 32],
            eth_block: 1,
        }],
        txs: vec![FranklinTx::ChangePubKey(Box::new(ChangePubKey {
            account_id: 1,
            account: addr(2),
            new_pk_hash: addr(3),
            fee_token: 0,
            fee: 0,
            nonce: 0,
            change_pubkey_type: ChangePubKeyType::OnchainTransaction,
        }))],
    };
    keeper.execute_proposed_block(batch, 1000).unwrap();

    let block = keeper.seal_pending_block(vec![7u8; 32], 2000);
    // Deposit (6 chunks) + change pubkey (6 chunks) = 12 chunks: the
    // smallest sufficient class is 50.
    assert_eq!(block.block_chunks_size, 50);
    let public_data = block.get_eth_public_data();
    assert_eq!(public_data.len(), 50 * CHUNK_BYTES);
    // Execution order: the deposit's opcode leads the blob, the change
    // pubkey's opcode follows its six chunks, then zero padding.
    assert_eq!(public_data[0], 0x01);
    assert_eq!(public_data[6 * CHUNK_BYTES], 0x07);
    assert!(public_data[12 * CHUNK_BYTES..].iter().all(|b| *b == 0));

    // Witness data: one declaring operation (the change pubkey) with an
    // empty on-chain-authorised witness.
    let (witness, used_bytes) = block.get_eth_witness_data();
    assert!(witness.is_empty());
    assert_eq!(used_bytes, vec![0]);

    // No withdrawal-class operations ran.
    assert!(block.get_withdrawals_data().is_empty());

    assert_eq!(block.get_eth_encoded_root(), vec![7u8; 32]);
    assert_eq!(block.processed_priority_ops, (0, 1));
    assert_eq!(block.number_of_processed_prior_ops(), 1);
}

#[test]
fn encoded_proof_default_shape() {
    let proof = EncodedProofPlonk::default();
    assert_eq!(proof.inputs.len(), 1);
    assert_eq!(proof.proof.len(), 33);
    assert!(proof.proof.iter().all(|w| *w == U256(0, 0, 0, 0)));
}

#[test]
fn setup_cache_round_trip() {
    let mut cache: UniversalSetupCache<&str> = UniversalSetupCache::new();
    assert!(cache.take_setup_struct(20).is_none());
    cache.put_setup_struct(20, "small");
    cache.put_setup_struct(22, "large");
    assert_eq!(cache.take_setup_struct(20), Some("small"));
    assert!(cache.take_setup_struct(20).is_none());
    // A put under an existing key replaces the artifact.
    cache.put_setup_struct(22, "fresh");
    assert_eq!(cache.take_setup_struct(22), Some("fresh"));
    assert!(cache.take_setup_struct(22).is_none());
}

#[test]
fn genesis_state_holds_the_fee_account() {
    let params = genesis_state(&addr(0xAB));
    assert_eq!(params.accounts.len(), 1);
    assert_eq!(params.accounts[0].address, addr(0xAB));
    assert_eq!(params.accounts[0].nonce, 0);
    assert_eq!(params.last_block_number, 0);
    assert_eq!(params.unprocessed_priority_op, 0);
}

#[test]
fn block_size_table_is_sorted_and_complete() {
    let sizes = supported_block_chunks_sizes(3, &vec![1, 2]);
    assert_eq!(sizes, vec![0, 1, 2, 4]);
    let sizes = supported_block_chunks_sizes(4, &vec![6, 2, 1]);
    assert_eq!(sizes, vec![0, 1, 2, 3, 4, 6, 12, 18]);
}
