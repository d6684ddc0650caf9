use nm_monitor::ledger::{
    calculate_hash, Block, BlockEnv, BlockchainLedger, Ledger, LedgerError, LedgerInput, NetworkPlugin, SettingsPlugin,
    StoragePlugin, UserPlugin,
};

fn env() -> BlockEnv {
    BlockEnv { timestamp: 1700000000, hostname: "host".to_string(), pid: 42 }
}

fn block(category: &str, action: &str, producer: &str) -> Block {
    Block {
        timestamp: 10,
        height: 0,
        prev_hash: String::new(),
        hash: String::new(),
        producer: producer.to_string(),
        category: category.to_string(),
        action: action.to_string(),
        user: "u".to_string(),
        hostname: "hn".to_string(),
        pid: 7,
        data: "d".to_string(),
        metadata: vec![],
        signature: None,
    }
}

fn input(category: &str) -> LedgerInput {
    LedgerInput {
        category: Some(category.to_string()),
        action: None,
        has_action: true,
        user: None,
        username: None,
        has_username: false,
        details: Some("{\"k\":1}".to_string()),
        settings: None,
        settings_is_object: false,
        has_path: false,
        has_device: false,
        metadata: vec![],
    }
}

#[test]
fn block_hash_covers_fields_in_order() {
    let mut b = block("c", "a", "p");
    b.height = 5;
    b.prev_hash = "abc".to_string();
    b.metadata = vec![("k1".to_string(), "v1".to_string()), ("k2".to_string(), "v2".to_string())];
    assert_eq!(calculate_hash(&b), "b4f9390b135d5136a55ccf7508ce4fc980d4b8ead3e79c446a877aa95f2155f5");
    b.hash = "anything".to_string();
    b.signature = Some("sig".to_string());
    assert_eq!(calculate_hash(&b), "b4f9390b135d5136a55ccf7508ce4fc980d4b8ead3e79c446a877aa95f2155f5");
}

#[test]
fn added_blocks_form_a_hash_chain() {
    let mut l = BlockchainLedger::new("/tmp/nm-monitor-test/chain.jsonl".to_string(), vec![]);
    let h1 = l.add_data("bridge", "created", "{}".to_string(), &env()).ok().unwrap();
    assert_eq!(h1, "450d7bc7212b77db251bab622b2ff355b6d940081136dd106437edab6b37206e");
    let h2 = l.add_data("port", "added", "{\"port\":\"veth1\"}".to_string(), &env()).ok().unwrap();
    assert_eq!(h2, "0c870e6b5666c58414339d5b874036e202d1f8e183a9afb8aee1157b9896df5b");
    assert_eq!(l.height, 2);
    assert_eq!(l.last_hash, h2);
    assert_eq!(l.blocks[0].height, 1);
    assert_eq!(l.blocks[0].prev_hash, "");
    assert_eq!(l.blocks[1].prev_hash, h1);
    assert_eq!(l.blocks[1].producer, "network-plugin");
    assert_eq!(l.blocks[1].user, "system");
    assert!(l.verify_chain());
}

#[test]
fn tampering_breaks_verification() {
    let mut l = BlockchainLedger::new("/tmp/nm-monitor-test/tamper.jsonl".to_string(), vec![]);
    l.add_data("bridge", "created", "{}".to_string(), &env()).ok().unwrap();
    l.add_data("bridge", "deleted", "{}".to_string(), &env()).ok().unwrap();
    let mut blocks: Vec<Block> = l.blocks.iter().map(|b| b.copy()).collect();
    blocks[0].data = "{\"evil\":true}".to_string();
    let reopened = BlockchainLedger::new("/tmp/nm-monitor-test/tamper.jsonl".to_string(), blocks);
    assert!(!reopened.verify_chain());
    let mut relinked: Vec<Block> = l.blocks.iter().map(|b| b.copy()).collect();
    relinked[1].prev_hash = "0".repeat(64);
    assert!(!BlockchainLedger::new("x".to_string(), relinked).verify_chain());
    let intact: Vec<Block> = l.blocks.iter().map(|b| b.copy()).collect();
    let reopened = BlockchainLedger::new("x".to_string(), intact);
    assert!(reopened.verify_chain());
    assert_eq!(reopened.genesis_hash, l.blocks[0].hash);
}

#[test]
fn add_block_refuses_missing_fields_in_order() {
    let mut l = BlockchainLedger::new("x".to_string(), vec![]);
    assert!(matches!(l.add_block(block("", "", "")), Err(LedgerError::EmptyCategory)));
    assert!(matches!(l.add_block(block("c", "", "")), Err(LedgerError::EmptyAction)));
    assert!(matches!(l.add_block(block("c", "a", "")), Err(LedgerError::EmptyProducer)));
    assert_eq!(l.blocks.len(), 0);
    assert!(l.add_block(block("c", "a", "p")).is_ok());
    assert_eq!(l.blocks.len(), 1);
}

#[test]
fn unknown_category_has_no_plugin() {
    let mut l = BlockchainLedger::new("x".to_string(), vec![]);
    match l.add_data("weather", "set", "{}".to_string(), &env()) {
        Err(LedgerError::NoSuitablePlugin(c)) => assert_eq!(c, "weather"),
        _ => panic!("expected a refusal"),
    }
    assert_eq!(l.blocks.len(), 0);
}

#[test]
fn documented_categories_go_to_their_plugins() {
    let mut l = BlockchainLedger::new("x".to_string(), vec![]);
    let cases = [
        ("storage", "mount", "storage-plugin"),
        ("config", "template", "settings-plugin"),
        ("authentication", "login", "user-plugin"),
        ("authorization", "roles", "user-plugin"),
        ("snapshot", "create", "storage-plugin"),
        ("connectivity", "up", "network-plugin"),
    ];
    for (i, (category, action, producer)) in cases.iter().enumerate() {
        let h = l.add_data(category, action, "{\"path\":\"/mnt/x\"}".to_string(), &env()).ok().unwrap();
        let b = &l.blocks[i];
        assert_eq!(b.hash, h);
        assert_eq!(b.category, *category);
        assert_eq!(b.action, *action);
        assert_eq!(b.producer, *producer);
        assert_eq!(b.user, "system");
        assert_eq!(b.data, "{\"path\":\"/mnt/x\"}");
    }
    assert!(l.verify_chain());
}

#[test]
fn queries_by_hash_category_and_height() {
    let mut l = BlockchainLedger::new("x".to_string(), vec![]);
    let h1 = l.add_data("bridge", "created", "{}".to_string(), &env()).ok().unwrap();
    l.add_data("port", "added", "{}".to_string(), &env()).ok().unwrap();
    l.add_data("bridge", "deleted", "{}".to_string(), &env()).ok().unwrap();
    assert_eq!(l.get_block(&h1).unwrap().action, "created");
    assert!(l.get_block("nope").is_none());
    let bridges = l.get_blocks_by_category("bridge");
    assert_eq!(bridges.iter().map(|b| b.action.as_str()).collect::<Vec<_>>(), vec!["created", "deleted"]);
    let mid = l.get_blocks_by_height(2, 3);
    assert_eq!(mid.iter().map(|b| b.height).collect::<Vec<_>>(), vec![2, 3]);
    assert_eq!(l.get_blocks_by_height(3, 2).len(), 0);
}

#[test]
fn stats_count_categories_producers_and_users() {
    let mut l = BlockchainLedger::new("x".to_string(), vec![]);
    l.add_data("bridge", "created", "{}".to_string(), &env()).ok().unwrap();
    l.add_data("port", "added", "{}".to_string(), &env()).ok().unwrap();
    l.add_data("bridge", "deleted", "{}".to_string(), &env()).ok().unwrap();
    let mut b = block("c", "a", "p");
    b.user = "alice".to_string();
    l.add_block(b).ok().unwrap();
    let s = l.get_stats();
    assert_eq!(s.total_blocks, 4);
    assert_eq!(s.last_timestamp, 10);
    assert_eq!(s.categories, vec![("bridge".to_string(), 2), ("port".to_string(), 1), ("c".to_string(), 1)]);
    assert_eq!(s.producers, vec![("network-plugin".to_string(), 3), ("p".to_string(), 1)]);
    assert_eq!(s.unique_users, vec!["alice".to_string()]);
}

#[test]
fn ledger_append_records_interface_data() {
    let mut l = Ledger::open("x".to_string(), vec![]);
    assert!(l.append("renamed", "{\"from\":\"eth0\"}".to_string(), &env()).is_ok());
    assert_eq!(l.inner.blocks.len(), 1);
    assert_eq!(l.inner.blocks[0].category, "interface");
    assert_eq!(l.inner.blocks[0].action, "renamed");
    assert!(l.inner.verify_chain());
}

#[test]
fn plugins_build_blocks_for_their_categories() {
    let e = env();
    let n = NetworkPlugin;
    assert_eq!(n.name(), "network");
    assert_eq!(n.categories(), vec!["bridge", "interface", "connection", "port", "connectivity"]);
    let out = n.process_data(&input("bridge"), &e);
    assert_eq!(out.len(), 1);
    assert_eq!(out[0].action, "unknown");
    assert_eq!(out[0].user, "system");
    assert_eq!(out[0].data, "{\"k\":1}");
    assert_eq!(n.process_data(&input("mount"), &e).len(), 0);
    assert_eq!(SettingsPlugin.categories(), vec!["config", "policy", "template", "parameter"]);
    assert_eq!(UserPlugin.categories(), vec!["authentication", "authorization", "session", "access"]);
    assert_eq!(StoragePlugin.categories(), vec!["filesystem", "mount", "backup", "snapshot"]);
    let s = StoragePlugin.process_data(&input("mount"), &e);
    assert_eq!(s.len(), 1);
    assert_eq!(s[0].producer, "storage-plugin");
}

#[test]
fn changed_height_or_hash_breaks_verification() {
    let mut l = BlockchainLedger::new("x".to_string(), vec![]);
    l.add_data("bridge", "created", "{}".to_string(), &env()).ok().unwrap();
    l.add_data("bridge", "deleted", "{}".to_string(), &env()).ok().unwrap();
    let mut reheighted: Vec<Block> = l.blocks.iter().map(|b| b.copy()).collect();
    reheighted[0].height = 7;
    assert!(!BlockchainLedger::new("x".to_string(), reheighted).verify_chain());
    let mut rehashed: Vec<Block> = l.blocks.iter().map(|b| b.copy()).collect();
    rehashed[1].hash = "f".repeat(64);
    assert!(!BlockchainLedger::new("x".to_string(), rehashed).verify_chain());
}
