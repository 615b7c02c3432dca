use rooster_governor::governor::Governor;
use rooster_governor::hashing::{compute_proposal_id, hash_description};
use rooster_governor::types::{AccountId, Transaction};

fn acct(n: u64) -> AccountId {
    AccountId { w0: n, w1: 0, w2: 0, w3: 0 }
}

fn sample_transaction() -> Transaction {
    Transaction {
        callee: acct(77),
        selector: 0xdeadbeef,
        input: vec![1, 2, 3, 4],
        transferred_value: 1_000_000,
        gas_limit: 5_000,
    }
}

#[test]
fn hash_is_deterministic() {
    let t1 = sample_transaction();
    let t2 = sample_transaction();
    let id1 = compute_proposal_id(&t1, "fund the hen house");
    let id2 = compute_proposal_id(&t2, "fund the hen house");
    assert_eq!(id1, id2);
}

#[test]
fn hash_differs_on_description() {
    let t = sample_transaction();
    let id1 = compute_proposal_id(&t, "fund the hen house");
    let id2 = compute_proposal_id(&t, "fund the hen houses");
    assert_ne!(id1, id2);
    let id3 = compute_proposal_id(&t, "");
    assert_ne!(id1, id3);
}

#[test]
fn hash_differs_on_transaction() {
    let t1 = sample_transaction();
    let mut t2 = sample_transaction();
    t2.transferred_value += 1;
    let mut t3 = sample_transaction();
    t3.input.push(9);
    let mut t4 = sample_transaction();
    t4.callee = acct(78);
    let d = "fund the hen house";
    let id1 = compute_proposal_id(&t1, d);
    assert_ne!(id1, compute_proposal_id(&t2, d));
    assert_ne!(id1, compute_proposal_id(&t3, d));
    assert_ne!(id1, compute_proposal_id(&t4, d));
}

#[test]
fn description_digest_is_32_bytes_and_content_bound() {
    let d1 = hash_description("alpha");
    let d2 = hash_description("alpha");
    let d3 = hash_description("beta");
    assert_eq!(d1.len(), 32);
    assert_eq!(d1, d2);
    assert_ne!(d1, d3);
    // the digest is not the input handed back
    assert_ne!(d1, b"alpha".to_vec());
}

#[test]
fn governor_hash_proposal_matches_free_function() {
    let g = Governor::new(None, 0, 10, 0, 0);
    let t = sample_transaction();
    let id = g.hash_proposal(&t, &String::from("text"));
    assert_eq!(id, compute_proposal_id(&t, "text"));
}
