use state_migration::ipld::cid::MAX_DIGEST_LEN;
use state_migration::ipld::{Cid, CidHashSet};
use std::cell::RefCell;

#[test]
fn cid_keeps_its_parts() {
    let digest = [7u8; 32];
    let cid = Cid::new(1, 0x71, 0xb220, &digest).unwrap();
    assert_eq!(cid.version(), 1);
    assert_eq!(cid.codec(), 0x71);
    assert_eq!(cid.hash_code(), 0xb220);
    assert_eq!(cid.digest(), &digest[..]);
}

#[test]
fn cid_takes_digests_up_to_the_limit() {
    assert!(Cid::new(1, 0x55, 0, &[]).is_some());
    assert!(Cid::new(1, 0x55, 0, &[1u8; MAX_DIGEST_LEN]).is_some());
    assert!(Cid::new(1, 0x55, 0, &[1u8; MAX_DIGEST_LEN + 1]).is_none());
}

#[test]
fn cids_compare_by_their_parts() {
    let cid = Cid::new(1, 0x71, 0xb220, &[7u8; 32]).unwrap();
    assert_eq!(cid, Cid::new(1, 0x71, 0xb220, &[7u8; 32]).unwrap());
    assert_ne!(cid, Cid::new(0, 0x71, 0xb220, &[7u8; 32]).unwrap());
    assert_ne!(cid, Cid::new(1, 0x55, 0xb220, &[7u8; 32]).unwrap());
    assert_ne!(cid, Cid::new(1, 0x71, 0x12, &[7u8; 32]).unwrap());
    assert_ne!(cid, Cid::new(1, 0x71, 0xb220, &[8u8; 32]).unwrap());
    assert_ne!(cid, Cid::new(1, 0x71, 0xb220, &[7u8; 31]).unwrap());
    let short = Cid::new(1, 0x71, 0xb220, &[0u8; 3]).unwrap();
    let long = Cid::new(1, 0x71, 0xb220, &[0u8; 4]).unwrap();
    assert_ne!(short, long);
}

#[test]
fn hash_set_starts_empty() {
    let set = CidHashSet::default();
    assert_eq!(set.len(), 0);
    assert!(set.is_empty());
}

#[test]
fn hash_set_tells_new_from_known() {
    let a = Cid::new(1, 0x71, 0xb220, &[1u8; 32]).unwrap();
    let b = Cid::new(1, 0x71, 0xb220, &[2u8; 32]).unwrap();
    let mut set = CidHashSet::default();
    assert!(set.insert(&a, &|_| ()));
    assert!(!set.insert(&a, &|_| ()));
    assert!(set.insert(&b, &|_| ()));
    assert!(!set.insert(&b, &|_| ()));
    assert!(!set.insert(&a, &|_| ()));
    assert_eq!(set.len(), 2);
    assert!(!set.is_empty());
}

#[test]
fn hash_set_reports_its_size_on_insertion() {
    let seen = RefCell::new(Vec::new());
    let note = |n: usize| seen.borrow_mut().push(n);
    let mut set = CidHashSet::default();
    for tag in [1u8, 2, 2, 3, 1] {
        let cid = Cid::new(1, 0x71, 0xb220, &[tag; 32]).unwrap();
        set.insert(&cid, &note);
    }
    assert_eq!(*seen.borrow(), vec![1, 2, 3]);
    assert_eq!(set.len(), 3);
}

#[test]
fn hash_set_by_hash() {
    let mut set = CidHashSet::default();
    assert!(set.insert_hash(17, &|_| ()));
    assert!(!set.insert_hash(17, &|_| ()));
    assert!(set.insert_hash(18, &|_| ()));
    assert_eq!(set.len(), 2);
}
