use chain_indexer::model::{RawBlock, RawInput, RawOutput, RawTransaction, Vin, Vout};
use chain_indexer::registry::WalletRegistry;
use chain_indexer::transform::{on_block, on_transaction, process_chunk, txid_key};

fn hex(s: &str) -> Vec<u8> {
    (0..s.len() / 2).map(|i| u8::from_str_radix(&s[2 * i..2 * i + 2], 16).unwrap()).collect()
}

fn p2pkh(hash: &str) -> Vec<u8> {
    hex(&format!("76a914{}88ac", hash))
}

const HASH_A: &str = "62e907b15cbf27d5425399ebf6f0fb50ebb88f18";
const HASH_B: &str = "751e76e8199196d454941c45d1b3a323f1433bd6";

fn tx(id: &str, coinbase: bool, inputs: Vec<RawInput>, outputs: Vec<RawOutput>) -> RawTransaction {
    RawTransaction { txid: id.to_string(), is_coinbase: coinbase, inputs, outputs }
}

#[test]
fn coinbase_has_no_vins() {
    let mut reg = WalletRegistry::new();
    let input = RawInput { prev_txid: vec![0; 32], vout: 0xffff_ffff };
    let raw = tx("cb", true, vec![input], vec![RawOutput { script: p2pkh(HASH_A), value: 50 }]);
    let t = on_transaction(&mut reg, &raw);
    assert!(t.vins.is_empty());
    assert_eq!(t.vouts, vec![Vout::Valid { wallet_id: 0, satoshis: 50 }]);
}

#[test]
fn inputs_become_lookup_keys() {
    let mut reg = WalletRegistry::new();
    let prev: Vec<u8> = (1..=32).collect();
    let raw = tx("t", false, vec![RawInput { prev_txid: prev, vout: 3 }], vec![]);
    let t = on_transaction(&mut reg, &raw);
    assert_eq!(t.id, "t");
    assert_eq!(t.vins, vec![Vin { prev_txid_hash: 0x0102030405060708, vout_index: 3 }]);
}

#[test]
fn txid_key_values() {
    assert_eq!(txid_key(&vec![0xff; 32]), u64::MAX);
    assert_eq!(txid_key(&vec![1, 2]), 0x0102);
    assert_eq!(txid_key(&Vec::new()), 0);
}

#[test]
fn outputs_keep_order_and_share_ids() {
    let mut reg = WalletRegistry::new();
    let outs = vec![
        RawOutput { script: p2pkh(HASH_A), value: 10 },
        RawOutput { script: vec![0x6a], value: 0 },
        RawOutput { script: p2pkh(HASH_B), value: 20 },
        RawOutput { script: p2pkh(HASH_A), value: 30 },
    ];
    let t = on_transaction(&mut reg, &tx("t", false, vec![], outs));
    assert_eq!(
        t.vouts,
        vec![
            Vout::Valid { wallet_id: 0, satoshis: 10 },
            Vout::Invalid,
            Vout::Valid { wallet_id: 1, satoshis: 20 },
            Vout::Valid { wallet_id: 0, satoshis: 30 },
        ]
    );
    assert_eq!(reg.wallet_count(), 2);
}

#[test]
fn block_and_chunk_records() {
    let mut reg = WalletRegistry::new();
    let b0 = RawBlock {
        hash: "b0".to_string(),
        time: 1231006505,
        transactions: vec![tx("c0", true, vec![], vec![RawOutput { script: p2pkh(HASH_B), value: 5 }])],
    };
    let b1 = RawBlock {
        hash: "b1".to_string(),
        time: 1231469665,
        transactions: vec![
            tx("c1", true, vec![], vec![RawOutput { script: p2pkh(HASH_A), value: 7 }]),
            tx("s1", false, vec![], vec![RawOutput { script: p2pkh(HASH_B), value: 1 }]),
        ],
    };
    let single = on_block(&mut WalletRegistry::new(), &b1);
    assert_eq!(single.id, "b1");
    assert_eq!(single.timestamp, 1231469665);
    assert_eq!(single.transactions.len(), 2);
    let (blocks, count) = process_chunk(&mut reg, &vec![b0, b1]);
    assert_eq!(count, 3);
    assert_eq!(blocks.len(), 2);
    assert_eq!(blocks[0].id, "b0");
    assert_eq!(blocks[1].transactions[0].vouts, vec![Vout::Valid { wallet_id: 1, satoshis: 7 }]);
    assert_eq!(blocks[1].transactions[1].vouts, vec![Vout::Valid { wallet_id: 0, satoshis: 1 }]);
    assert_eq!(reg.wallet_count(), 2);
}
