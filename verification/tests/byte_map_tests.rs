use nova_rewards::byte_map::{bytes_equal, copy_bytes, ByteMap};

#[test]
fn byte_map_insert_get_remove() {
    let mut m: ByteMap<i128> = ByteMap::new();
    m.insert(b"alice".to_vec(), 5);
    m.insert(b"bob".to_vec(), 7);
    m.insert(b"alice".to_vec(), 9);
    assert_eq!(m.get(&b"alice".to_vec()), Some(&9));
    assert_eq!(m.get(&b"bob".to_vec()), Some(&7));
    m.remove(&b"alice".to_vec());
    assert!(!m.contains_key(&b"alice".to_vec()));
    assert!(m.contains_key(&b"bob".to_vec()));
    m.remove(&b"carol".to_vec());
    assert_eq!(m.get(&b"bob".to_vec()), Some(&7));
}

#[test]
fn bytes_helpers() {
    assert!(bytes_equal(&vec![1, 2, 3], &vec![1, 2, 3]));
    assert!(!bytes_equal(&vec![1, 2, 3], &vec![1, 2]));
    assert!(!bytes_equal(&vec![1, 2, 3], &vec![1, 2, 4]));
    assert_eq!(copy_bytes(&vec![4, 5, 6]), vec![4, 5, 6]);
}
