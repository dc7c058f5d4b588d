use ponyscript::string_pool::{PoolS, StringPool};

#[test]
fn test_pool_eq() {
    let mut pool = StringPool::new();

    let first = pool.pool_str("abc");
    let second = pool.pool_str("abc");

    assert_eq!(first, second);
}

#[test]
fn test_pool_ne() {
    let mut pool = StringPool::new();

    let first = pool.pool_str("abc");
    let second = pool.pool_str("abd");

    assert_ne!(first, second);
}

#[test]
fn test_pool_unpool() {
    let mut pool = StringPool::new();

    let ps = pool.pool_str("abc");
    let str = pool.unpool_copy(ps).unwrap();

    assert_eq!(str, vec![b'a', b'b', b'c']);
}

#[test]
fn test_to_utf8_not_in_pool() {
    let pool = StringPool::new();

    let bad = PoolS { value: 10 };

    assert_eq!(pool.unpool_to_utf8(bad), String::from("<not in pool>"));
}

#[test]
fn pool_tmp_does_not_intern() {
    let mut pool = StringPool::new();
    let abc = pool.pool_str("abc");
    assert_eq!(pool.pool_tmp_str("abc"), abc);
    assert_eq!(pool.pool_tmp_str("xyz").value, 0);
    assert_eq!(pool.pool_tmp(&b"abc".to_vec()), abc);
    assert_eq!(pool.unpool_copy(PoolS { value: 2 }), None);
}

#[test]
fn pool_handles_start_at_one() {
    let mut pool = StringPool::new();
    let a = pool.pool(b"a".to_vec());
    let b = pool.pool_ref(&b"b".to_vec());
    assert_eq!(a.value, 1);
    assert_eq!(b.value, 2);
    assert_eq!(pool.pool(b"a".to_vec()).value, 1);
}

#[test]
fn unpool_to_utf8_decodes_and_marks_bad_bytes() {
    let mut pool = StringPool::new();
    let ok = pool.pool_str("h\u{e9}llo");
    let bad = pool.pool(vec![0xff, 0xfe]);
    assert_eq!(pool.unpool_to_utf8(ok), String::from("h\u{e9}llo"));
    assert_eq!(ok.to_utf8(&pool), String::from("h\u{e9}llo"));
    assert_eq!(pool.unpool_to_utf8(bad), String::from("<bad utf8>"));
    assert!(ok.eq_utf8(&pool, "h\u{e9}llo"));
    assert!(!ok.eq_utf8(&pool, "hello"));
    assert_eq!(ok.to_vec(&pool), "h\u{e9}llo".as_bytes().to_vec());
}
