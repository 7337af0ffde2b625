use iroh_node::blob_store::{check_blob, BlobError, BlobStore};
use iroh_node::digest::ContentHash;

const HELLO_SHA256: &str = "2cf24dba5fb0a30e26e83b2ac5b9e29e1b161e5c1fa7425e73043362938b9824";

fn hex(h: &ContentHash) -> String {
    String::from_utf8(h.to_hex()).unwrap()
}

#[test]
fn put_then_get_hello() {
    let mut store = BlobStore::new();
    let h = store.put(b"hello".to_vec());
    assert_eq!(store.get(&h), Ok(b"hello".to_vec()));
    let other = ContentHash::of(b"world");
    assert_eq!(store.get(&other), Err(BlobError::NotFound));
}

#[test]
fn digest_is_sha256_of_content() {
    let mut store = BlobStore::new();
    let h = store.put(b"hello".to_vec());
    assert_eq!(hex(&h), HELLO_SHA256);
    assert_eq!(h, ContentHash::of(b"hello"));
}

#[test]
fn round_trip_of_empty_and_binary_blobs() {
    let mut store = BlobStore::new();
    let empty = store.put(Vec::new());
    let binary: Vec<u8> = (0u8..=255).collect();
    let hb = store.put(binary.clone());
    assert_eq!(store.get(&empty), Ok(Vec::new()));
    assert_eq!(store.get(&hb), Ok(binary));
    assert_eq!(
        hex(&empty),
        "e3b0c44298fc1c149afbf4c8996fb92427ae41e4649b934ca495991b7852b855"
    );
}

#[test]
fn putting_twice_dedups() {
    let mut store = BlobStore::new();
    let a = store.put(b"same bytes".to_vec());
    let b = store.put(b"same bytes".to_vec());
    assert_eq!(a, b);
    assert_eq!(store.get(&a), Ok(b"same bytes".to_vec()));
}

#[test]
fn corrupt_bytes_are_reported() {
    let h = ContentHash::of(b"hello");
    assert_eq!(check_blob(&h, b"jello".to_vec()), Err(BlobError::Corrupt));
    assert_eq!(check_blob(&h, b"hello".to_vec()), Ok(b"hello".to_vec()));
}

#[test]
fn hex_text_round_trip() {
    let h = ContentHash::of(b"hello");
    let text = h.to_hex();
    assert_eq!(ContentHash::from_hex(&text), Some(h));
    let upper = HELLO_SHA256.to_uppercase();
    assert_eq!(ContentHash::from_hex(upper.as_bytes()), Some(h));
}

#[test]
fn malformed_hex_text_is_refused() {
    assert_eq!(ContentHash::from_hex(b"abc"), None);
    let mut bad = HELLO_SHA256.as_bytes().to_vec();
    bad[10] = b'g';
    assert_eq!(ContentHash::from_hex(&bad), None);
    let long = format!("{}00", HELLO_SHA256);
    assert_eq!(ContentHash::from_hex(long.as_bytes()), None);
}
