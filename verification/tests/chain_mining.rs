use blockchain::chain::BlockChain;
use blockchain::services::{
    confirm_transactions, create_transaction, get_block_to_mine, get_last_blocks,
    get_last_transactions,
};
use blockchain::{Block, MiningExhausted, Timestamp, Transaction};
use sha2::{Digest, Sha256};

fn at(secs: u64) -> Timestamp {
    Timestamp { secs, subsec_nanos: 0 }
}

fn tx(data: &str, weight: f32) -> Transaction {
    Transaction::new(data.to_string(), weight.to_bits())
}

fn names(pool: &[Transaction]) -> Vec<String> {
    pool.iter().map(|t| t.data.clone()).collect()
}

fn preimage_of(block: &Block) -> Vec<u8> {
    let mut bytes: Vec<u8> = Vec::new();
    bytes.extend(block.previous_hash);
    bytes.extend(block.timestamp.secs.to_be_bytes());
    for transaction in &block.transactions {
        bytes.extend(transaction.data.bytes());
        bytes.extend(f32::from_bits(transaction.weight_bits).to_be_bytes());
    }
    bytes
}

fn digest_of(block: &Block, nonce: u64) -> [u8; 32] {
    let mut bytes = preimage_of(block);
    bytes.extend(nonce.to_be_bytes());
    Sha256::digest(&bytes).into()
}

#[test]
fn new_chain_is_empty() {
    let chain = BlockChain::new(3);
    assert_eq!(chain.complexity(), 3);
    assert!(chain.blocks().is_empty());
    assert!(chain.transaction_pool().is_empty());
    assert!(chain.block_to_mine().is_none());
}

#[test]
fn schedule_keeps_the_pool_ascending_after_each_call() {
    let mut chain = BlockChain::new(1);
    let weights = [0.6f32, 0.2, 0.9, 0.2, 0.0, 1.0, 0.5, 0.3, 0.8, 0.1, 0.7, 0.4];
    for (i, w) in weights.iter().enumerate() {
        chain.schedule_transaction(tx(&format!("t{}", i), *w));
        let pool = chain.transaction_pool();
        assert_eq!(pool.len(), i + 1);
        assert!(pool
            .windows(2)
            .all(|p| f32::from_bits(p[0].weight_bits) <= f32::from_bits(p[1].weight_bits)));
    }
    assert_eq!(
        names(chain.transaction_pool()),
        vec!["t4", "t9", "t1", "t3", "t7", "t11", "t6", "t0", "t10", "t8", "t2", "t5"]
    );
}

#[test]
fn create_transaction_schedules_by_weight() {
    let mut chain = BlockChain::new(1);
    create_transaction("b".to_string(), 0.9f32.to_bits(), &mut chain);
    create_transaction("a".to_string(), 0.1f32.to_bits(), &mut chain);
    create_transaction("c".to_string(), 0.5f32.to_bits(), &mut chain);
    assert_eq!(names(chain.transaction_pool()), vec!["a", "c", "b"]);
    assert_eq!(chain.transaction_pool()[1], tx("c", 0.5));
}

#[test]
fn get_last_transactions_returns_the_tail_of_the_pool() {
    let mut chain = BlockChain::new(1);
    for (name, w) in [("a", 0.1f32), ("b", 0.2), ("c", 0.3), ("d", 0.4)] {
        chain.schedule_transaction(tx(name, w));
    }
    assert_eq!(names(get_last_transactions(&chain, 0)), Vec::<String>::new());
    assert_eq!(names(get_last_transactions(&chain, 1)), vec!["d"]);
    assert_eq!(names(get_last_transactions(&chain, 3)), vec!["b", "c", "d"]);
    assert_eq!(names(get_last_transactions(&chain, 4)), vec!["a", "b", "c", "d"]);
    assert_eq!(names(get_last_transactions(&chain, 100)), vec!["a", "b", "c", "d"]);
    assert_eq!(chain.transaction_pool().len(), 4);
}

#[test]
fn get_last_transactions_of_an_empty_pool_is_empty() {
    let chain = BlockChain::new(1);
    assert!(get_last_transactions(&chain, 10).is_empty());
    assert!(get_last_blocks(&chain, 10).is_empty());
    assert!(get_block_to_mine(&chain).is_none());
}

#[test]
fn candidate_of_a_short_pool_takes_every_transaction() {
    let mut chain = BlockChain::new(1);
    for i in 0..9 {
        chain.schedule_transaction(tx(&format!("t{}", i), i as f32 / 10.0));
    }
    let candidate = chain.get_block_to_mine(at(1_700_000_000)).clone();
    assert_eq!(candidate.transactions.len(), 9);
    assert_eq!(names(&candidate.transactions)[0], "t0");
    assert_eq!(names(&candidate.transactions)[8], "t8");
    assert_eq!(candidate.timestamp, at(1_700_000_000));
    assert_eq!(candidate.hash, [0u8; 32]);
    assert_eq!(candidate.previous_hash, [0u8; 32]);
    assert_eq!(candidate.nonce, 0);
    assert!(chain.transaction_pool().is_empty());
    assert!(chain.blocks().is_empty());
}

#[test]
fn candidate_of_a_long_pool_takes_the_ten_heaviest() {
    let mut chain = BlockChain::new(1);
    for i in [7, 2, 11, 0, 5, 9, 3, 12, 1, 8, 4, 10, 6] {
        chain.schedule_transaction(tx(&format!("t{}", i), i as f32 / 100.0));
    }
    let candidate = chain.get_block_to_mine(at(5)).clone();
    assert_eq!(
        names(&candidate.transactions),
        vec!["t3", "t4", "t5", "t6", "t7", "t8", "t9", "t10", "t11", "t12"]
    );
    assert_eq!(names(chain.transaction_pool()), vec!["t0", "t1", "t2"]);
    let heaviest_left = chain
        .transaction_pool()
        .iter()
        .map(|t| f32::from_bits(t.weight_bits))
        .fold(f32::MIN, f32::max);
    assert!(candidate
        .transactions
        .iter()
        .all(|t| f32::from_bits(t.weight_bits) >= heaviest_left));
}

#[test]
fn candidate_is_kept_while_nothing_is_sealed() {
    let mut chain = BlockChain::new(1);
    chain.schedule_transaction(tx("a", 0.1));
    chain.schedule_transaction(tx("b", 0.9));
    let first = chain.get_block_to_mine(at(100)).clone();
    chain.schedule_transaction(tx("c", 0.5));
    let second = chain.get_block_to_mine(at(200)).clone();
    assert_eq!(first, second);
    assert_eq!(second.timestamp, at(100));
    assert_eq!(names(&second.transactions), vec!["a", "b"]);
    assert_eq!(names(chain.transaction_pool()), vec!["c"]);
    assert_eq!(get_block_to_mine(&chain), Some(&first));
}

#[test]
fn peeking_at_the_candidate_assembles_nothing() {
    let mut chain = BlockChain::new(1);
    chain.schedule_transaction(tx("a", 0.1));
    assert!(get_block_to_mine(&chain).is_none());
    assert_eq!(chain.transaction_pool().len(), 1);
}

#[test]
fn mining_two_transactions_with_complexity_one() {
    let mut chain = BlockChain::new(1);
    chain.schedule_transaction(tx("a", 0.1));
    chain.schedule_transaction(tx("b", 0.9));
    let before = chain.blocks().len();
    {
        let candidate = chain.get_block_to_mine(at(1_698_451_200));
        assert_eq!(names(&candidate.transactions), vec!["a", "b"]);
    }
    let sealed = confirm_transactions(&mut chain, at(1_698_451_300)).unwrap().clone();
    assert_eq!(sealed.hash[0], 0x00);
    assert_eq!(sealed.hash, digest_of(&sealed, sealed.nonce));
    assert_eq!(names(&sealed.transactions), vec!["a", "b"]);
    assert_eq!(sealed.timestamp, at(1_698_451_200));
    assert_eq!(chain.blocks().len(), before + 1);
    assert!(chain.transaction_pool().is_empty());
    assert!(chain.block_to_mine().is_none());
    assert_eq!(chain.blocks()[0], sealed);
}

#[test]
fn mining_with_zero_complexity_returns_nonce_zero() {
    let mut chain = BlockChain::new(0);
    chain.schedule_transaction(tx("a", 0.5));
    let sealed = chain.confirm_transactions(at(42)).unwrap().clone();
    assert_eq!(sealed.nonce, 0);
    assert_eq!(sealed.hash, digest_of(&sealed, 0));
    assert_eq!(chain.blocks().len(), 1);
}

#[test]
fn mining_takes_the_first_accepted_nonce() {
    let mut chain = BlockChain::new(1);
    chain.schedule_transaction(tx("payload", 0.75));
    let sealed = chain.confirm_transactions(at(7)).unwrap().clone();
    for nonce in 0..sealed.nonce {
        assert_ne!(digest_of(&sealed, nonce)[0], 0);
    }
    assert_eq!(digest_of(&sealed, sealed.nonce)[0], 0);
}

#[test]
fn mining_an_empty_pool_seals_an_empty_block() {
    let mut chain = BlockChain::new(1);
    let sealed = chain.confirm_transactions(at(9)).unwrap().clone();
    assert!(sealed.transactions.is_empty());
    assert_eq!(sealed.hash[0], 0);
    assert_eq!(sealed.previous_hash, [0u8; 32]);
    let mut input: Vec<u8> = vec![0u8; 32];
    input.extend(9u64.to_be_bytes());
    input.extend(sealed.nonce.to_be_bytes());
    let expected: [u8; 32] = Sha256::digest(&input).into();
    assert_eq!(sealed.hash, expected);
    assert_eq!(chain.blocks().len(), 1);
    assert!(chain.transaction_pool().is_empty());
    let again = chain.confirm_transactions(at(10)).unwrap().clone();
    assert!(again.transactions.is_empty());
    assert_eq!(chain.blocks().len(), 2);
}

#[test]
fn every_block_links_to_the_block_before_it() {
    let mut chain = BlockChain::new(1);
    for round in 0..4u64 {
        chain.schedule_transaction(tx(&format!("r{}", round), 0.5));
        chain.confirm_transactions(at(1000 + round)).unwrap();
    }
    let blocks = chain.blocks();
    assert_eq!(blocks.len(), 4);
    assert_eq!(blocks[0].previous_hash, [0u8; 32]);
    for i in 1..blocks.len() {
        assert_eq!(blocks[i].previous_hash, blocks[i - 1].hash);
    }
    for block in blocks.iter() {
        assert_eq!(block.hash, digest_of(block, block.nonce));
        assert_eq!(block.hash[0], 0);
    }
}

#[test]
fn candidate_links_to_the_last_sealed_block() {
    let mut chain = BlockChain::new(0);
    chain.confirm_transactions(at(1)).unwrap();
    let tip = chain.blocks()[0].hash;
    let candidate = chain.get_block_to_mine(at(2)).clone();
    assert_eq!(candidate.previous_hash, tip);
    assert_ne!(tip, [0u8; 32]);
}

#[test]
fn mining_moves_transactions_out_of_the_pool() {
    let mut chain = BlockChain::new(0);
    for i in 0..25 {
        chain.schedule_transaction(tx(&format!("t{}", i), i as f32 / 25.0));
    }
    let first = chain.confirm_transactions(at(1)).unwrap().clone();
    assert_eq!(first.transactions.len(), 10);
    assert_eq!(names(&first.transactions)[9], "t24");
    assert_eq!(chain.transaction_pool().len(), 15);
    let second = chain.confirm_transactions(at(2)).unwrap().clone();
    assert_eq!(second.transactions.len(), 10);
    assert_eq!(names(&second.transactions)[0], "t5");
    assert_eq!(chain.transaction_pool().len(), 5);
    let third = chain.confirm_transactions(at(3)).unwrap().clone();
    assert_eq!(names(&third.transactions), vec!["t0", "t1", "t2", "t3", "t4"]);
    assert!(chain.transaction_pool().is_empty());
}

#[test]
fn exhausted_search_keeps_the_candidate() {
    let mut chain = BlockChain::new(32);
    chain.schedule_transaction(tx("a", 0.1));
    let outcome = chain.confirm_transactions_in(at(3), 0, 500).map(|b| b.clone());
    assert_eq!(outcome, Err(MiningExhausted));
    assert!(chain.blocks().is_empty());
    assert!(chain.transaction_pool().is_empty());
    let candidate = chain.block_to_mine().unwrap().clone();
    assert_eq!(names(&candidate.transactions), vec!["a"]);
    assert_eq!(candidate.hash, [0u8; 32]);
    assert_eq!(candidate.nonce, 0);
    assert_eq!(candidate.timestamp, at(3));

    chain.set_complexity(0);
    assert_eq!(chain.complexity(), 0);
    let sealed = chain.confirm_transactions(at(4)).unwrap().clone();
    assert_eq!(sealed.timestamp, at(3));
    assert_eq!(names(&sealed.transactions), vec!["a"]);
    assert!(chain.block_to_mine().is_none());
}

#[test]
fn search_can_go_on_where_an_earlier_one_stopped() {
    let mut whole = BlockChain::new(1);
    whole.schedule_transaction(tx("a", 0.1));
    let expected = whole.confirm_transactions(at(77)).unwrap().clone();

    let mut stepwise = BlockChain::new(1);
    stepwise.schedule_transaction(tx("a", 0.1));
    let mut start: u64 = 0;
    let sealed = loop {
        match stepwise.confirm_transactions_in(at(77), start, start + 3) {
            Ok(block) => break block.clone(),
            Err(MiningExhausted) => start += 3,
        }
    };
    assert_eq!(sealed, expected);
}

#[test]
fn get_last_blocks_returns_the_tail_of_the_chain() {
    let mut chain = BlockChain::new(0);
    for round in 0..3u64 {
        chain.confirm_transactions(at(round)).unwrap();
    }
    let all: Vec<Block> = chain.blocks().clone();
    assert_eq!(get_last_blocks(&chain, 0).len(), 0);
    assert_eq!(get_last_blocks(&chain, 1), &all[2..]);
    assert_eq!(get_last_blocks(&chain, 2), &all[1..]);
    assert_eq!(get_last_blocks(&chain, 3), &all[..]);
    assert_eq!(get_last_blocks(&chain, 50), &all[..]);
}
