use chain_indexer::context::{chunk_ranges, Context};
use chain_indexer::model::{Block, Segment, Transaction};

fn block(name: &str, txs: usize) -> Block {
    let mut b = Block::new(name.to_string(), 0);
    for i in 0..txs {
        b.add_transaction(Transaction::new(format!("{}-{}", name, i)));
    }
    b
}

#[test]
fn scenario_two_segments() {
    let mut ctx = Context::new(3, 3, 2);
    let b0 = block("B0", 2);
    let b1 = block("B1", 1);
    let b2 = block("B2", 4);
    let first = ctx.add_blocks_and_flush(vec![b0.clone(), b1.clone()], 3);
    assert_eq!(first, Some(Segment { id: 0, blocks: vec![b0, b1] }));
    assert_eq!(ctx.get_nr_blocks_processed(), 2);
    let second = ctx.add_blocks_and_flush(vec![b2.clone()], 4);
    assert_eq!(second, Some(Segment { id: 1, blocks: vec![b2] }));
    assert_eq!(ctx.get_nr_blocks_processed(), 3);
}

#[test]
fn final_flush_below_threshold() {
    let mut ctx = Context::new(3, 100, 2);
    let b0 = block("B0", 2);
    let b1 = block("B1", 3);
    let b2 = block("B2", 1);
    assert_eq!(ctx.add_blocks_and_flush(vec![b0.clone(), b1.clone()], 5), None);
    let last = ctx.add_blocks_and_flush(vec![b2.clone()], 1);
    assert_eq!(last, Some(Segment { id: 0, blocks: vec![b0, b1, b2] }));
}

#[test]
fn threshold_counts_since_last_flush() {
    let mut ctx = Context::new(10, 4, 1);
    assert_eq!(ctx.add_blocks_and_flush(vec![block("A", 3)], 3), None);
    let s = ctx.add_blocks_and_flush(vec![block("B", 1)], 1).unwrap();
    assert_eq!(s.id, 0);
    assert_eq!(s.blocks.len(), 2);
    assert_eq!(ctx.add_blocks_and_flush(vec![block("C", 3)], 3), None);
    let s = ctx.add_blocks_and_flush(vec![block("D", 2)], 2).unwrap();
    assert_eq!(s.id, 1);
    assert_eq!(s.blocks.iter().map(|b| b.id.clone()).collect::<Vec<_>>(), vec!["C", "D"]);
}

#[test]
fn partition_out_of_order_chunks() {
    let ranges = chunk_ranges(7, 3);
    let mut ctx = Context::new(7, 2, 3);
    let mut flushed: Vec<Block> = Vec::new();
    // chunks finish in the order 2, 0, 1
    for &k in [2usize, 0, 1].iter() {
        let (start, end) = ranges[k];
        let blocks: Vec<Block> = (start..end).map(|h| block(&format!("h{}", h), 1)).collect();
        let n = blocks.len() as u64;
        if let Some(seg) = ctx.add_blocks_and_flush(blocks, n) {
            flushed.extend(seg.blocks);
        }
    }
    let names: Vec<String> = flushed.iter().map(|b| b.id.clone()).collect();
    assert_eq!(names, vec!["h6", "h0", "h1", "h2", "h3", "h4", "h5"]);
}

#[test]
fn chunk_ranges_exact() {
    assert_eq!(chunk_ranges(10, 4), vec![(0, 4), (4, 8), (8, 10)]);
    assert_eq!(chunk_ranges(8, 4), vec![(0, 4), (4, 8)]);
    assert_eq!(chunk_ranges(0, 5), Vec::<(u64, u64)>::new());
    assert_eq!(chunk_ranges(3, 10), vec![(0, 3)]);
}

#[test]
fn context_getters() {
    let ctx = Context::new(12, 5000, 4);
    assert_eq!(ctx.get_total_blocks(), 12);
    assert_eq!(ctx.get_chunk_size(), 4);
    assert_eq!(ctx.get_nr_blocks_processed(), 0);
}
