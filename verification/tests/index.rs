use full_history_avd::digest_index::{fingerprint_of, DigestIndex};

#[test]
fn fingerprint_is_the_first_eight_bytes() {
    assert_eq!(fingerprint_of(&[1, 2, 3, 4, 5, 6, 7, 8, 9, 10]), 0x0807_0605_0403_0201);
    assert_eq!(fingerprint_of(&[0xff; 8]), u64::MAX);
    assert_eq!(fingerprint_of(&[1, 2, 3, 4, 5, 6, 7]), 0);
    assert_eq!(fingerprint_of(&[]), 0);
}

#[test]
fn empty_index_finds_nothing() {
    let index = DigestIndex::new();
    assert_eq!(index.len(), 0);
    assert_eq!(index.get(&[1, 2, 3]), None);
    assert_eq!(index.get(&[]), None);
}

#[test]
fn digests_are_found_at_their_epochs() {
    let mut index = DigestIndex::new();
    index.push(&[1; 16]);
    index.push(&[2; 16]);
    index.push(&[3; 16]);
    assert_eq!(index.len(), 3);
    assert_eq!(index.get(&[1; 16]), Some(0));
    assert_eq!(index.get(&[2; 16]), Some(1));
    assert_eq!(index.get(&[3; 16]), Some(2));
    assert_eq!(index.get(&[4; 16]), None);
}

#[test]
fn digests_of_one_fingerprint_are_told_apart() {
    let mut index = DigestIndex::new();
    let mut a = vec![9; 16];
    let mut b = vec![9; 16];
    a[15] = 1;
    b[15] = 2;
    index.push(&a);
    index.push(&b);
    index.push(&[9; 8]);
    assert_eq!(index.get(&a), Some(0));
    assert_eq!(index.get(&b), Some(1));
    assert_eq!(index.get(&[9; 8]), Some(2));
    assert_eq!(index.get(&[9; 16]), None);
    assert_eq!(index.get(&[9; 9]), None);
}

#[test]
fn short_digests_share_a_bucket() {
    let mut index = DigestIndex::new();
    index.push(&[]);
    index.push(&[1]);
    index.push(&[1, 2]);
    index.push(&[0; 8]);
    assert_eq!(index.get(&[]), Some(0));
    assert_eq!(index.get(&[1]), Some(1));
    assert_eq!(index.get(&[1, 2]), Some(2));
    assert_eq!(index.get(&[0; 8]), Some(3));
    assert_eq!(index.get(&[2]), None);
}

#[test]
fn recurring_digest_is_found_at_its_latest_epoch() {
    let mut index = DigestIndex::new();
    index.push(&[5; 12]);
    index.push(&[6; 12]);
    index.push(&[5; 12]);
    index.push(&[7; 12]);
    index.push(&[5; 12]);
    assert_eq!(index.get(&[5; 12]), Some(4));
    assert_eq!(index.get(&[6; 12]), Some(1));
    assert_eq!(index.get(&[7; 12]), Some(3));
}
