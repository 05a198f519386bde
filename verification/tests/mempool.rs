use chudo::mempool::Mempool;
use chudo::transaction::Transaction;

fn tx(amount: u64) -> Transaction {
    Transaction::new([1u8; 32], [2u8; 32], amount, 1, 0)
}

#[test]
fn mempool_add_get_remove() {
    let mut m = Mempool::new();
    assert!(m.is_empty());
    assert!(m.add("aa".to_string(), tx(5)).is_ok());
    assert!(m.add("bb".to_string(), tx(6)).is_ok());
    assert_eq!(m.len(), 2);
    assert!(!m.is_empty());
    assert_eq!(m.get("aa").unwrap().amount, 5);
    assert_eq!(m.get("bb").unwrap().amount, 6);
    assert!(m.get("cc").is_none());
    let removed = m.remove("aa").unwrap();
    assert_eq!(removed.amount, 5);
    assert!(m.get("aa").is_none());
    assert!(m.remove("aa").is_none());
    assert_eq!(m.len(), 1);
}

#[test]
fn mempool_refuses_duplicates() {
    let mut m = Mempool::new();
    assert!(m.add("aa".to_string(), tx(5)).is_ok());
    let r = m.add("aa".to_string(), tx(9));
    assert_eq!(r, Err("Transaction already in mempool".to_string()));
    assert_eq!(m.get("aa").unwrap().amount, 5);
    assert_eq!(m.len(), 1);
}

#[test]
fn mempool_lists_and_clears() {
    let mut m = Mempool::new();
    m.add("x".to_string(), tx(1)).unwrap();
    m.add("y".to_string(), tx(2)).unwrap();
    let mut all = m.get_all();
    all.sort_by(|a, b| a.0.cmp(&b.0));
    assert_eq!(all.len(), 2);
    assert_eq!(all[0].0, "x");
    assert_eq!(all[0].1.amount, 1);
    assert_eq!(all[1].0, "y");
    assert_eq!(all[1].1.amount, 2);
    m.clear();
    assert!(m.is_empty());
    assert_eq!(m.len(), 0);
}

#[test]
fn mempool_holds_what_its_history_left() {
    let mut m = Mempool::new();
    m.add("a".to_string(), tx(1)).unwrap();
    m.add("b".to_string(), tx(2)).unwrap();
    assert!(m.add("a".to_string(), tx(3)).is_err());
    assert_eq!(m.get("a").unwrap().amount, 1);
    assert_eq!(m.remove("a").unwrap().amount, 1);
    m.add("a".to_string(), tx(4)).unwrap();
    assert_eq!(m.get("a").unwrap().amount, 4);
    assert_eq!(m.get("b").unwrap().amount, 2);
    m.clear();
    assert!(m.get("a").is_none());
    assert!(m.get("b").is_none());
    m.add("c".to_string(), tx(5)).unwrap();
    assert_eq!(m.get("c").unwrap().amount, 5);
    assert_eq!(m.len(), 1);
}
