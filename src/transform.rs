//! The block transformer: turns fetched blocks into index records, giving
//! each resolved output address its wallet id.
use vstd::prelude::*;
use crate::model::{Block, RawBlock, RawInput, RawOutput, RawTransaction, Transaction, Vin, Vout};
use crate::registry::{dense_bijection, lemma_register_keeps_bijection, register, WalletRegistry};
use crate::resolver::{script_address, script_to_address};

verus! {

/// `256` to the power `n`.
pub open spec fn pow256(n: nat) -> nat
    decreases n,
{
    if n == 0 {
        1
    } else {
        256 * pow256((n - 1) as nat)
    }
}

/// Bytes read as a big-endian number.
pub open spec fn be_value(b: Seq<u8>) -> nat
    decreases b.len(),
{
    if b.len() == 0 {
        0
    } else {
        be_value(b.drop_last()) * 256 + b.last() as nat
    }
}

/// The bytes of a transaction id that make its lookup key: the first eight,
/// or all of them when there are fewer.
pub open spec fn key_bytes(txid: Seq<u8>) -> Seq<u8> {
    if txid.len() <= 8 {
        txid
    } else {
        txid.take(8)
    }
}

/// The lookup key of a transaction id: its first eight bytes read as a
/// big-endian number.
pub open spec fn txid_key_spec(txid: Seq<u8>) -> nat {
    be_value(key_bytes(txid))
}

/// The index record of an input.
pub open spec fn vin_of(input: RawInput) -> Vin {
    Vin { prev_txid_hash: txid_key_spec(input.prev_txid@) as u64, vout_index: input.vout }
}

/// The index records of a transaction's inputs: none for a coinbase
/// transaction, whatever inputs it lists.
pub open spec fn vins_of(tx: RawTransaction) -> Seq<Vin> {
    if tx.is_coinbase {
        Seq::empty()
    } else {
        tx.inputs@.map_values(|i: RawInput| vin_of(i))
    }
}

/// The registry entries after an output, and the output's record.
pub open spec fn vout_for(m: Map<Seq<char>, u64>, out: RawOutput) -> (Map<Seq<char>, u64>, Vout) {
    match script_address(out.script@) {
        Ok(a) => (register(m, a), Vout::Valid { wallet_id: register(m, a)[a], satoshis: out.value }),
        Err(_) => (m, Vout::Invalid),
    }
}

/// The registry entries after a run of outputs, and their records in order.
pub open spec fn vouts_for(m: Map<Seq<char>, u64>, outs: Seq<RawOutput>) -> (Map<
    Seq<char>,
    u64,
>, Seq<Vout>)
    decreases outs.len(),
{
    if outs.len() == 0 {
        (m, Seq::empty())
    } else {
        let (m1, vs) = vouts_for(m, outs.drop_last());
        let (m2, v) = vout_for(m1, outs.last());
        (m2, vs.push(v))
    }
}

/// The registry entries after a run of transactions, and the output records
/// of each.
pub open spec fn block_vouts(m: Map<Seq<char>, u64>, txs: Seq<RawTransaction>) -> (Map<
    Seq<char>,
    u64,
>, Seq<Seq<Vout>>)
    decreases txs.len(),
{
    if txs.len() == 0 {
        (m, Seq::empty())
    } else {
        let (m1, vss) = block_vouts(m, txs.drop_last());
        let (m2, vs) = vouts_for(m1, txs.last().outputs@);
        (m2, vss.push(vs))
    }
}

/// The number of outputs of a run of transactions.
pub open spec fn output_count(txs: Seq<RawTransaction>) -> nat
    decreases txs.len(),
{
    if txs.len() == 0 {
        0
    } else {
        output_count(txs.drop_last()) + txs.last().outputs@.len()
    }
}

/// `t` is the record of `tx` with output records `vouts`.
pub open spec fn transaction_matches(t: Transaction, tx: RawTransaction, vouts: Seq<Vout>) -> bool {
    &&& t.id@ == tx.txid@
    &&& t.vins@ == vins_of(tx)
    &&& t.vouts@ == vouts
}

/// `b` is the record of `raw` when transformed against registry entries `m`.
pub open spec fn block_matches(b: Block, raw: RawBlock, m: Map<Seq<char>, u64>) -> bool {
    &&& b.id@ == raw.hash@
    &&& b.timestamp == raw.time
    &&& b.transactions@.len() == raw.transactions@.len()
    &&& forall|i: int|
        0 <= i < raw.transactions@.len() ==> transaction_matches(
            #[trigger] b.transactions@[i],
            raw.transactions@[i],
            block_vouts(m, raw.transactions@).1[i],
        )
}

proof fn lemma_pow256_mono(i: nat, j: nat)
    requires
        i <= j,
    ensures
        pow256(i) <= pow256(j),
    decreases j,
{
    if i < j {
        lemma_pow256_mono(i, (j - 1) as nat);
    }
}

proof fn lemma_output_count_prefix(txs: Seq<RawTransaction>, i: int)
    requires
        0 <= i <= txs.len(),
    ensures
        output_count(txs.take(i)) <= output_count(txs),
    decreases txs.len(),
{
    if i < txs.len() {
        assert(txs.take(i) =~= txs.drop_last().take(i));
        lemma_output_count_prefix(txs.drop_last(), i);
    } else {
        assert(txs.take(i) =~= txs);
    }
}

proof fn lemma_block_vouts_len(m: Map<Seq<char>, u64>, txs: Seq<RawTransaction>)
    ensures
        block_vouts(m, txs).1.len() == txs.len(),
    decreases txs.len(),
{
    if txs.len() > 0 {
        lemma_block_vouts_len(m, txs.drop_last());
    }
}

/// The lookup key of a transaction id.
pub fn txid_key(txid: &Vec<u8>) -> (k: u64)
    ensures
        k == txid_key_spec(txid@),
{
    let n: usize = if txid.len() < 8 {
        txid.len()
    } else {
        8
    };
    let ghost kb = key_bytes(txid@);
    proof {
        assert(pow256(8) == 0x1_0000_0000_0000_0000) by {
            reveal_with_fuel(pow256, 9);
        }
    }
    let mut k: u64 = 0;
    let mut i: usize = 0;
    while i < n
        invariant
            n <= 8,
            n == kb.len(),
            kb == key_bytes(txid@),
            n <= txid@.len(),
            i <= n,
            k == be_value(kb.take(i as int)),
            k < pow256(i as nat),
            pow256(8) == 0x1_0000_0000_0000_0000,
        decreases n - i,
    {
        let b = txid[i];
        assert(kb[i as int] == b);
        proof {
            lemma_pow256_mono((i + 1) as nat, 8);
            let p = pow256(i as nat);
            assert(k * 256 + (b as int) < p * 256) by (nonlinear_arith)
                requires
                    k < p,
                    b < 256,
            ;
            assert(kb.take(i + 1).drop_last() =~= kb.take(i as int));
        }
        k = k * 256 + b as u64;
        i = i + 1;
    }
    assert(kb.take(n as int) =~= kb);
    k
}

/// The record of one transaction. Each output goes through the resolver;
/// a resolved address gets its wallet id from the registry, and an output
/// that cannot be resolved is recorded as `Invalid`.
pub fn on_transaction(registry: &mut WalletRegistry, tx: &RawTransaction) -> (t: Transaction)
    requires
        old(registry).wf(),
        old(registry).entries().len() + tx.outputs@.len() < u64::MAX,
    ensures
        final(registry).wf(),
        transaction_matches(t, *tx, vouts_for(old(registry).entries(), tx.outputs@).1),
        tx.is_coinbase ==> t.vins@.len() == 0,
        final(registry).entries() == vouts_for(old(registry).entries(), tx.outputs@).0,
        final(registry).entries().len() <= old(registry).entries().len() + tx.outputs@.len(),
{
    let mut transaction = Transaction::new(tx.txid.clone());
    if !tx.is_coinbase {
        let mut i: usize = 0;
        while i < tx.inputs.len()
            invariant
                i <= tx.inputs@.len(),
                transaction.id@ == tx.txid@,
                transaction.vouts@.len() == 0,
                transaction.vins@ == tx.inputs@.take(i as int).map_values(|x: RawInput| vin_of(x)),
            decreases tx.inputs@.len() - i,
        {
            let input = &tx.inputs[i];
            let key = txid_key(&input.prev_txid);
            transaction.add_vin(Vin { prev_txid_hash: key, vout_index: input.vout });
            assert(tx.inputs@.take(i + 1).map_values(|x: RawInput| vin_of(x)) =~= tx.inputs@.take(
                i as int,
            ).map_values(|x: RawInput| vin_of(x)).push(vin_of(tx.inputs@[i as int])));
            i = i + 1;
        }
        assert(tx.inputs@.take(i as int) =~= tx.inputs@);
    }
    let ghost m0 = registry.entries();
    let ghost vins = transaction.vins@;
    assert(vins == vins_of(*tx));
    let mut j: usize = 0;
    while j < tx.outputs.len()
        invariant
            j <= tx.outputs@.len(),
            registry.wf(),
            m0.len() + tx.outputs@.len() < u64::MAX,
            registry.entries().len() <= m0.len() + j,
            (registry.entries(), transaction.vouts@) == vouts_for(m0, tx.outputs@.take(j as int)),
            transaction.id@ == tx.txid@,
            transaction.vins@ == vins,
        decreases tx.outputs@.len() - j,
    {
        let output = &tx.outputs[j];
        assert(tx.outputs@.take(j + 1).drop_last() =~= tx.outputs@.take(j as int));
        let ghost m = registry.entries();
        proof {
            registry.lemma_wf_dense();
        }
        match script_to_address(&output.script) {
            Ok(address) => {
                proof {
                    lemma_register_keeps_bijection(m, address@);
                }
                let id = registry.get_or_create(address);
                transaction.add_vout(Vout::Valid { wallet_id: id, satoshis: output.value });
            },
            Err(_) => {
                transaction.add_vout(Vout::Invalid);
            },
        }
        j = j + 1;
    }
    assert(tx.outputs@.take(j as int) =~= tx.outputs@);
    transaction
}

/// The record of one block, its transactions transformed in order.
pub fn on_block(registry: &mut WalletRegistry, block: &RawBlock) -> (b: Block)
    requires
        old(registry).wf(),
        old(registry).entries().len() + output_count(block.transactions@) < u64::MAX,
    ensures
        final(registry).wf(),
        block_matches(b, *block, old(registry).entries()),
        final(registry).entries() == block_vouts(old(registry).entries(), block.transactions@).0,
        final(registry).entries().len() <= old(registry).entries().len() + output_count(
            block.transactions@,
        ),
{
    let ghost m0 = registry.entries();
    let ghost txs = block.transactions@;
    let mut result = Block::new(block.hash.clone(), block.time);
    let mut i: usize = 0;
    while i < block.transactions.len()
        invariant
            i <= txs.len(),
            txs == block.transactions@,
            registry.wf(),
            m0.len() + output_count(txs) < u64::MAX,
            registry.entries().len() <= m0.len() + output_count(txs.take(i as int)),
            registry.entries() == block_vouts(m0, txs.take(i as int)).0,
            result.id@ == block.hash@,
            result.timestamp == block.time,
            result.transactions@.len() == i,
            forall|k: int|
                0 <= k < i ==> transaction_matches(
                    #[trigger] result.transactions@[k],
                    txs[k],
                    block_vouts(m0, txs.take(i as int)).1[k],
                ),
        decreases txs.len() - i,
    {
        let tx = &block.transactions[i];
        let ghost prefix = txs.take(i as int);
        let ghost next = txs.take(i + 1);
        proof {
            assert(next.drop_last() =~= prefix);
            assert(next.last() == txs[i as int]);
            lemma_output_count_prefix(txs, i + 1);
            lemma_block_vouts_len(m0, prefix);
        }
        let t = on_transaction(registry, tx);
        result.add_transaction(t);
        i = i + 1;
    }
    proof {
        assert(txs.take(i as int) =~= txs);
    }
    result
}

/// The registry entries after a run of blocks.
pub open spec fn chunk_entries(m: Map<Seq<char>, u64>, blocks: Seq<RawBlock>) -> Map<Seq<char>, u64>
    decreases blocks.len(),
{
    if blocks.len() == 0 {
        m
    } else {
        block_vouts(chunk_entries(m, blocks.drop_last()), blocks.last().transactions@).0
    }
}

/// The number of outputs in a run of blocks.
pub open spec fn chunk_output_count(blocks: Seq<RawBlock>) -> nat
    decreases blocks.len(),
{
    if blocks.len() == 0 {
        0
    } else {
        chunk_output_count(blocks.drop_last()) + output_count(blocks.last().transactions@)
    }
}

/// The number of transactions in a run of blocks.
pub open spec fn chunk_tx_count(blocks: Seq<RawBlock>) -> nat
    decreases blocks.len(),
{
    if blocks.len() == 0 {
        0
    } else {
        chunk_tx_count(blocks.drop_last()) + blocks.last().transactions@.len()
    }
}

proof fn lemma_chunk_counts_prefix(blocks: Seq<RawBlock>, i: int)
    requires
        0 <= i <= blocks.len(),
    ensures
        chunk_output_count(blocks.take(i)) <= chunk_output_count(blocks),
        chunk_tx_count(blocks.take(i)) <= chunk_tx_count(blocks),
    decreases blocks.len(),
{
    if i < blocks.len() {
        assert(blocks.take(i) =~= blocks.drop_last().take(i));
        lemma_chunk_counts_prefix(blocks.drop_last(), i);
    } else {
        assert(blocks.take(i) =~= blocks);
    }
}

/// A chunk worker's work on its fetched blocks: their records, in height
/// order, and the number of transactions they hold.
pub fn process_chunk(registry: &mut WalletRegistry, blocks: &Vec<RawBlock>) -> (r: (Vec<Block>, u64))
    requires
        old(registry).wf(),
        old(registry).entries().len() + chunk_output_count(blocks@) < u64::MAX,
        chunk_tx_count(blocks@) <= u64::MAX,
    ensures
        final(registry).wf(),
        final(registry).entries() == chunk_entries(old(registry).entries(), blocks@),
        r.0@.len() == blocks@.len(),
        forall|i: int|
            0 <= i < blocks@.len() ==> block_matches(
                #[trigger] r.0@[i],
                blocks@[i],
                chunk_entries(old(registry).entries(), blocks@.take(i)),
            ),
        r.1 == chunk_tx_count(blocks@),
{
    let ghost m0 = registry.entries();
    let mut out: Vec<Block> = Vec::new();
    let mut count: u64 = 0;
    let mut i: usize = 0;
    while i < blocks.len()
        invariant
            i <= blocks@.len(),
            registry.wf(),
            m0.len() + chunk_output_count(blocks@) < u64::MAX,
            chunk_tx_count(blocks@) <= u64::MAX,
            registry.entries().len() <= m0.len() + chunk_output_count(blocks@.take(i as int)),
            registry.entries() == chunk_entries(m0, blocks@.take(i as int)),
            count == chunk_tx_count(blocks@.take(i as int)),
            out@.len() == i,
            forall|k: int|
                0 <= k < i ==> block_matches(
                    #[trigger] out@[k],
                    blocks@[k],
                    chunk_entries(m0, blocks@.take(k)),
                ),
        decreases blocks@.len() - i,
    {
        let block = &blocks[i];
        proof {
            let next = blocks@.take(i + 1);
            assert(next.drop_last() =~= blocks@.take(i as int));
            assert(next.last() == blocks@[i as int]);
            lemma_chunk_counts_prefix(blocks@, i + 1);
        }
        let b = on_block(registry, block);
        count = count + block.transactions.len() as u64;
        out.push(b);
        i = i + 1;
    }
    proof {
        assert(blocks@.take(i as int) =~= blocks@);
    }
    (out, count)
}

} // verus!
