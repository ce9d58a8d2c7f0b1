use blockchain::chain::Chain;
use blockchain::merkle::EmptyInputError;
use blockchain::types::{Blockheader, Transaction};
use sha2::Digest;

fn unpadded_hex(bytes: &[u8]) -> String {
    let mut s = String::new();
    for b in bytes {
        s.push_str(&format!("{:x}", b));
    }
    s
}

fn sha_hex(text: &str) -> String {
    unpadded_hex(&sha2::Sha256::digest(text.as_bytes()))
}

fn tx(sender: &str, receiver: &str, amount: &str) -> Transaction {
    Transaction {
        sender_address: sender.to_string(),
        receiver_address: receiver.to_string(),
        amount: amount.to_string(),
    }
}

fn header(timestamp: i64, nonce: u32, difficulty: u32) -> Blockheader {
    Blockheader {
        timestamp,
        nonce,
        pre_block_hash: "ab".to_string(),
        merkle: "cd".to_string(),
        difficulty,
    }
}

#[test]
fn hex_is_unpadded() {
    assert_eq!(Chain::hex_to_string(&[0x00, 0x01, 0xAB]), "01ab");
    assert_eq!(Chain::hex_to_string(&[0x00]), "0");
    assert_eq!(Chain::hex_to_string(&[0xff, 0x10, 0x0f]), "ff10f");
    assert_eq!(Chain::hex_to_string(&[]), "");
}

#[test]
fn hash_of_string_is_over_its_json_text() {
    let s = "abc".to_string();
    assert_eq!(Chain::hash(&s), sha_hex("\"abc\""));
    let quoted = "a\"b".to_string();
    assert_eq!(Chain::hash(&quoted), sha_hex("\"a\\\"b\""));
}

#[test]
fn hash_of_transaction_is_over_its_json_text() {
    let t = tx("A", "B", "10.0");
    assert_eq!(
        Chain::hash(&t),
        sha_hex("{\"sender_address\":\"A\",\"receiver_address\":\"B\",\"amount\":10.0}")
    );
}

#[test]
fn hash_of_header_is_over_its_json_text() {
    let h = header(-1700, 42, 3);
    assert_eq!(
        Chain::hash(&h),
        sha_hex("{\"timestamp\":-1700,\"nonce\":42,\"pre_block_hash\":\"ab\",\"merkle\":\"cd\",\"difficulty\":3}")
    );
}

#[test]
fn merkle_of_empty_list_is_an_error() {
    assert_eq!(Chain::get_merkle(&Vec::new()), Err(EmptyInputError));
}

#[test]
fn merkle_of_one_transaction_pairs_its_hash_with_itself() {
    let t = tx("A", "B", "10.0");
    let h = Chain::hash(&t);
    let expected = Chain::hash(&format!("{}{}", h, h));
    assert_eq!(Chain::get_merkle(&vec![t.clone()]), Ok(expected));
    assert_ne!(Chain::get_merkle(&vec![t.clone()]), Ok(h));
}

#[test]
fn merkle_is_deterministic() {
    let list = vec![tx("A", "B", "1.0"), tx("C", "D", "2.5"), tx("E", "F", "3.0")];
    let again = list.clone();
    assert_eq!(Chain::get_merkle(&list), Chain::get_merkle(&again));
}

#[test]
fn merkle_of_three_reduces_from_the_front() {
    let list = vec![tx("A", "B", "1.0"), tx("C", "D", "2.5"), tx("E", "F", "3.0")];
    let h: Vec<String> = list.iter().map(|t| Chain::hash(t)).collect();
    let p01 = Chain::hash(&format!("{}{}", h[0], h[1]));
    let p22 = Chain::hash(&format!("{}{}", h[2], h[2]));
    let root = Chain::hash(&format!("{}{}", p01, p22));
    assert_eq!(Chain::get_merkle(&list), Ok(root));
}

#[test]
fn merkle_of_two_is_their_pair() {
    let list = vec![tx("A", "B", "1.0"), tx("C", "D", "2.5")];
    let h: Vec<String> = list.iter().map(|t| Chain::hash(t)).collect();
    assert_eq!(Chain::get_merkle(&list), Ok(Chain::hash(&format!("{}{}", h[0], h[1]))));
}

#[test]
fn proof_of_work_finds_the_first_solving_nonce() {
    let mut h = header(1000, 0, 1);
    assert!(Chain::proof_of_work(&mut h));
    assert!(Chain::hash(&h).starts_with('0'));
    for n in 0..h.nonce {
        let probe = header(1000, n, 1);
        assert!(!Chain::hash(&probe).starts_with('0'));
    }
    assert_eq!(h.timestamp, 1000);
    assert_eq!(h.pre_block_hash, "ab");
    assert_eq!(h.merkle, "cd");
    assert_eq!(h.difficulty, 1);
}

#[test]
fn proof_of_work_difficulty_two_needs_two_zeros() {
    let mut h = header(7, 0, 2);
    assert!(Chain::proof_of_work(&mut h));
    assert!(Chain::hash(&h).starts_with("00"));
}

#[test]
fn proof_of_work_keeps_an_already_solving_nonce() {
    let mut h = header(1000, 0, 1);
    assert!(Chain::proof_of_work(&mut h));
    let found = h.nonce;
    assert!(Chain::proof_of_work(&mut h));
    assert_eq!(h.nonce, found);
}

#[test]
fn proof_of_work_fails_when_the_hash_is_too_short() {
    let mut h = header(1000, u32::MAX - 3, 65);
    assert!(!Chain::proof_of_work(&mut h));
    assert_eq!(h.nonce, u32::MAX);
}

#[test]
fn genesis_block_pays_the_default_reward() {
    let c = Chain::new("M".to_string(), 1);
    assert_eq!(c.blocks().len(), 1);
    let g = &c.blocks()[0];
    assert_eq!(g.header.pre_block_hash, "0".repeat(64));
    assert_eq!(g.transaction_count, 1);
    assert_eq!(g.transactions.len(), 1);
    assert_eq!(g.transactions[0].sender_address, "chain emissions");
    assert_eq!(g.transactions[0].receiver_address, "M");
    assert_eq!(g.transactions[0].amount, "123.12");
    assert_eq!(g.header.merkle, Chain::get_merkle(&g.transactions).unwrap());
    assert!(Chain::hash(&g.header).starts_with('0'));
    assert_eq!(c.last_hash(), Chain::hash(&g.header));
}

#[test]
fn sealing_moves_pending_transactions_into_the_block() {
    let mut c = Chain::new("M".to_string(), 1);
    assert!(c.update_reward("50.0".to_string()));
    assert!(c.new_transaction("A".to_string(), "B".to_string(), "10.0".to_string()));
    assert_eq!(c.pending_transactions().len(), 1);
    assert!(c.create_new_block());
    assert_eq!(c.pending_transactions().len(), 0);
    assert_eq!(c.blocks().len(), 2);
    let genesis_hash = Chain::hash(&c.blocks()[0].header);
    let b = &c.blocks()[1];
    assert_eq!(b.transaction_count, 2);
    assert_eq!(b.transactions[0].sender_address, "chain emissions");
    assert_eq!(b.transactions[0].receiver_address, "M");
    assert_eq!(b.transactions[0].amount, "50.0");
    assert_eq!(b.transactions[1].sender_address, "A");
    assert_eq!(b.transactions[1].receiver_address, "B");
    assert_eq!(b.transactions[1].amount, "10.0");
    assert_eq!(b.header.pre_block_hash, genesis_hash);
    assert_eq!(b.header.merkle, Chain::get_merkle(&b.transactions).unwrap());
}

#[test]
fn second_seal_without_submissions_holds_the_reward_alone() {
    let mut c = Chain::new("M".to_string(), 1);
    c.new_transaction("A".to_string(), "B".to_string(), "10.0".to_string());
    assert!(c.create_new_block());
    assert!(c.create_new_block());
    assert_eq!(c.blocks().len(), 3);
    assert_eq!(c.blocks()[2].transactions.len(), 1);
    assert_eq!(c.blocks()[2].transaction_count, 1);
    assert_eq!(c.blocks()[2].header.pre_block_hash, Chain::hash(&c.blocks()[1].header));
}

#[test]
fn difficulty_and_reward_apply_to_later_blocks_only() {
    let mut c = Chain::new_at("M".to_string(), 1, 5000);
    assert!(c.update_difficulty(2));
    assert!(c.update_reward("7.5".to_string()));
    assert_eq!(c.difficulty(), 2);
    assert_eq!(c.reward(), "7.5");
    assert_eq!(c.miner_address(), "M");
    assert!(c.seal_block_at(6000));
    assert_eq!(c.blocks()[0].header.difficulty, 1);
    assert_eq!(c.blocks()[0].transactions[0].amount, "123.12");
    assert_eq!(c.blocks()[1].header.difficulty, 2);
    assert_eq!(c.blocks()[1].header.timestamp, 6000);
    assert_eq!(c.blocks()[1].transactions[0].amount, "7.5");
    assert!(Chain::hash(&c.blocks()[1].header).starts_with("00"));
}

#[test]
fn sealing_at_a_fixed_time_is_reproducible() {
    let a = Chain::new_at("M".to_string(), 1, 1234);
    let b = Chain::new_at("M".to_string(), 1, 1234);
    assert_eq!(a.last_hash(), b.last_hash());
    assert_eq!(a.blocks()[0].header.nonce, b.blocks()[0].header.nonce);
    assert_eq!(a.blocks()[0].header.timestamp, 1234);
}
