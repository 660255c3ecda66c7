use dronechain::blockchain::{Block, Blockchain, Data};
use sha2::Digest;

fn entry(id: &str, command: &str, state: &str) -> Data {
    Data::new(id.to_string(), command.to_string(), state.to_string())
}

fn expected_hash(b: &Block) -> String {
    let contents = format!("{}{}{:?}{}{}", b.index, b.timestamp, b.data, b.previous_hash, b.nonce);
    format!("{:x}", sha2::Sha256::digest(contents.as_bytes()))
}

#[test]
fn data_new_keeps_fields() {
    let d = entry("10.0.0.1", "land", "STAY");
    assert_eq!(d.id, "10.0.0.1");
    assert_eq!(d.command, "land");
    assert_eq!(d.state, "STAY");
}

#[test]
fn block_new_at_is_unmined() {
    let b = Block::new_at(3, 1700000000, vec![entry("a", "b", "c")], "prev".to_string());
    assert_eq!(b.index, 3);
    assert_eq!(b.timestamp, 1700000000);
    assert_eq!(b.data.len(), 1);
    assert_eq!(b.previous_hash, "prev");
    assert_eq!(b.nonce, 0);
    assert_eq!(b.hash, "");
}

#[test]
fn block_new_reads_the_clock() {
    let b = Block::new(1, vec![], "0".to_string()).unwrap();
    assert!(b.timestamp > 1_600_000_000);
    assert_eq!(b.nonce, 0);
}

#[test]
fn calculate_hash_is_sha256_of_the_rendered_block() {
    let mut b = Block::new_at(7, 12345, vec![entry("x\"y", "go", "STAY"), entry("z", "land", "é")], "abc".to_string());
    b.nonce = 42;
    let h = b.calculate_hash();
    assert_eq!(h, expected_hash(&b));
    assert_eq!(h.len(), 64);
    assert!(h.chars().all(|c| c.is_ascii_digit() || ('a'..='f').contains(&c)));
}

#[test]
fn calculate_hash_of_empty_block_list() {
    let b = Block::new_at(0, 0, vec![], String::new());
    assert_eq!(b.calculate_hash(), expected_hash(&b));
    // "00[]0" hashed
    assert_eq!(
        b.calculate_hash(),
        format!("{:x}", sha2::Sha256::digest(b"00[]0"))
    );
}

#[test]
fn mine_block_finds_the_least_nonce() {
    for difficulty in 0..3usize {
        let mut b = Block::new_at(1, 99, vec![entry("a", "b", "c")], "p".to_string());
        b.nonce = 77;
        b.mine_block(difficulty);
        let target = "0".repeat(difficulty);
        assert!(b.hash.starts_with(&target));
        assert_eq!(b.hash, b.calculate_hash());
        for n in 0..b.nonce {
            let mut c = b.clone();
            c.nonce = n;
            assert!(!c.calculate_hash().starts_with(&target));
        }
        if difficulty == 0 {
            assert_eq!(b.nonce, 0);
        }
    }
}

#[test]
fn new_chain_holds_the_genesis_block() {
    let chain = Blockchain::new().unwrap();
    assert_eq!(chain.difficulty, 1);
    assert_eq!(chain.blocks.len(), 1);
    let g = &chain.blocks[0];
    assert_eq!(g.index, 0);
    assert_eq!(g.previous_hash, "0");
    assert_eq!(g.nonce, 0);
    assert_eq!(g.hash, "");
    let ids: Vec<&str> = g.data.iter().map(|d| d.id.as_str()).collect();
    assert_eq!(ids, vec!["Genesis", "192.168.50.207", "192.168.50.33"]);
    assert_eq!(g.data[1].command, "s");
    assert_eq!(g.data[2].command, "land");
    assert_eq!(g.data[2].state, "STAY");
}

#[test]
fn add_block_links_and_mines() {
    let mut chain = Blockchain::new().unwrap();
    let b = chain.add_block(entry("10.0.0.9", "takeoff", "STAY")).unwrap();
    assert_eq!(chain.blocks.len(), 2);
    assert_eq!(b.index, 1);
    assert_eq!(b.previous_hash, "");
    assert_eq!(b.data.len(), 4);
    assert_eq!(b.data[3].id, "10.0.0.9");
    assert!(b.hash.starts_with('0'));
    assert_eq!(b.hash, b.calculate_hash());
    assert_eq!(chain.blocks[1].hash, b.hash);
    let b2 = chain.add_block(entry("10.0.0.10", "land", "STAY")).unwrap();
    assert_eq!(b2.index, 2);
    assert_eq!(b2.previous_hash, b.hash);
    assert_eq!(b2.data.len(), 5);
    assert_eq!(chain.update_block_length(), "3");
}

#[test]
fn update_block_appends_as_received() {
    let mut chain = Blockchain::new().unwrap();
    let b = Block::new_at(9, 5, vec![], "whatever".to_string());
    chain.update_block(b);
    assert_eq!(chain.blocks.len(), 2);
    assert_eq!(chain.blocks[1].index, 9);
    assert_eq!(chain.update_block_length(), "2");
}

#[test]
fn is_valid_compares_with_the_given_block() {
    let mut chain = Blockchain::new().unwrap();
    let genesis = chain.blocks[0].clone();
    assert!(chain.is_valid(&genesis));
    let b = chain.add_block(entry("10.0.0.9", "takeoff", "STAY")).unwrap();
    assert!(chain.is_valid(&b));
    assert!(!chain.is_valid(&genesis));
    chain.blocks[1].previous_hash = "broken".to_string();
    assert!(!chain.is_valid(&b));
}

#[test]
fn get_last_block_is_the_newest() {
    let mut chain = Blockchain::new().unwrap();
    assert_eq!(chain.get_last_block().index, 0);
    chain.add_block(entry("a", "b", "c")).unwrap();
    assert_eq!(chain.get_last_block().index, 1);
}

#[test]
fn check_data_exist_updates_a_known_device() {
    let mut chain = Blockchain::new().unwrap();
    let b = chain.check_data_exist("192.168.50.33".to_string(), "takeoff".to_string(), "FLY".to_string()).unwrap();
    assert_eq!(chain.blocks.len(), 1);
    assert_eq!(b.data[2].command, "takeoff");
    assert_eq!(b.data[2].state, "FLY");
    assert_eq!(b.data[1].command, "s");
    assert_eq!(chain.blocks[0].data[2].command, "takeoff");
}

#[test]
fn check_data_exist_appends_a_new_device() {
    let mut chain = Blockchain::new().unwrap();
    let b = chain.check_data_exist("10.1.1.1".to_string(), "go".to_string(), "STAY".to_string()).unwrap();
    assert_eq!(chain.blocks.len(), 2);
    assert_eq!(b.index, 1);
    assert_eq!(b.data.len(), 4);
    assert_eq!(b.data[3].command, "go");
}

#[test]
fn update_my_data_keeps_an_equal_command() {
    let mut chain = Blockchain::new().unwrap();
    let b = chain.update_my_data("192.168.50.33".to_string(), "land".to_string(), "NEW".to_string());
    assert_eq!(b.data[2].state, "STAY");
    let b = chain.update_my_data("192.168.50.33".to_string(), "up".to_string(), "NEW".to_string());
    assert_eq!(b.data[2].state, "NEW");
    assert_eq!(b.hash, "");
}

#[test]
fn render_list_matches_debug() {
    let v = vec![entry("a\nb", "c", "d"), entry("", "", "")];
    assert_eq!(dronechain::blockchain::render_list(&v), format!("{:?}", v));
    let empty: Vec<Data> = vec![];
    assert_eq!(dronechain::blockchain::render_list(&empty), "[]");
}

#[test]
fn starts_with_zeros_counts_characters() {
    assert!(dronechain::blockchain::starts_with_zeros(&"00ab".to_string(), 2));
    assert!(!dronechain::blockchain::starts_with_zeros(&"0ab".to_string(), 2));
    assert!(!dronechain::blockchain::starts_with_zeros(&"0".to_string(), 2));
    assert!(dronechain::blockchain::starts_with_zeros(&"".to_string(), 0));
}

#[test]
fn chain_with_given_timestamps() {
    let mut chain = Blockchain::new_at(1000);
    assert_eq!(chain.blocks[0].timestamp, 1000);
    assert_eq!(chain.blocks[0].hash, "");
    let b = chain.add_block_at(entry("10.0.0.9", "takeoff", "STAY"), 2000);
    assert_eq!(b.timestamp, 2000);
    assert_eq!(b.index, 1);
    assert!(b.hash.starts_with('0'));
    assert_eq!(b.hash, b.calculate_hash());
    assert_eq!(chain.blocks.len(), 2);
    assert!(chain.is_valid(&b));
}

#[test]
fn in_place_update_mines_nothing() {
    let mut chain = Blockchain::new_at(1);
    chain.difficulty = 1000;
    let b = chain.check_data_exist("192.168.50.207".to_string(), "w".to_string(), "GO".to_string()).unwrap();
    assert_eq!(chain.blocks.len(), 1);
    assert_eq!(b.data[1].command, "w");
    assert_eq!(b.data[1].state, "GO");
}
