use xfinder::hash::{hash_content, hash_content_fast, FAST_HASH_PREFIX};

#[test]
fn test_hash_file() {
    let hash = hash_content(&b"Hello, World!".to_vec());
    assert_eq!(hash.len(), 64);
}

#[test]
fn test_hash_file_fast() {
    let hash = hash_content_fast(&b"Fast hash test".to_vec());
    assert_eq!(hash.len(), 64);
}

#[test]
fn test_same_content_same_hash() {
    let a = hash_content(&b"Duplicate content test".to_vec());
    let b = hash_content(&b"Duplicate content test".to_vec());
    assert_eq!(a, b);
}

#[test]
fn digest_of_empty_input_is_known() {
    assert_eq!(
        hash_content(&Vec::new()),
        "af1349b9f5f9a1a6a0404dea36dcc9499bcb25c9adc112b7cc9a93cae41f3262"
    );
    assert_ne!(hash_content(&b"a".to_vec()), hash_content(&b"b".to_vec()));
}

#[test]
fn fast_hash_covers_the_first_mebibyte_only() {
    let mut big = vec![7u8; FAST_HASH_PREFIX + 10];
    let fast1 = hash_content_fast(&big);
    big[FAST_HASH_PREFIX + 5] = 8;
    assert_eq!(hash_content_fast(&big), fast1);
    assert_eq!(fast1, hash_content(&vec![7u8; FAST_HASH_PREFIX]));
    assert_ne!(hash_content(&big), fast1);
}
