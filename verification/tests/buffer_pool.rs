use rapace::buffer_pool::{BufferPool, PooledBuf, DEFAULT_BUFFER_SIZE};

#[test]
fn test_buffer_pool_basic() {
    let pool = BufferPool::new();
    let mut buf = pool.get();
    assert_eq!(buf.len(), 0, "pool.get() must return empty buffer");
    assert!(buf.capacity() >= DEFAULT_BUFFER_SIZE);

    buf.extend_from_slice(b"hello world");
    assert_eq!(buf.as_slice(), b"hello world");
}

#[test]
fn test_buffer_reuse() {
    let pool = BufferPool::new();

    // Allocate and drop a buffer
    {
        let mut buf = pool.get();
        buf.clear();
        buf.extend_from_slice(b"test data");
        assert_eq!(buf.len(), 9);
    }

    // Get another buffer - should always be cleared by the pool
    let buf = pool.get();
    assert_eq!(buf.len(), 0, "Buffer should be empty after get()");
    assert!(buf.capacity() >= DEFAULT_BUFFER_SIZE);
}

#[test]
fn test_from_slice() {
    let pool = BufferPool::new();
    let data = b"test payload";
    let buf = PooledBuf::from_slice(&pool, data);

    assert_eq!(buf.as_slice(), data);
    assert!(buf.capacity() >= DEFAULT_BUFFER_SIZE);
}

#[test]
fn test_custom_capacity() {
    let pool = BufferPool::with_capacity(10, 1024);
    assert_eq!(pool.buffer_size(), 1024);

    let buf = pool.get();
    assert_eq!(buf.len(), 0, "pool.get() must return empty buffer");
    assert!(buf.capacity() >= 1024);
}

#[test]
fn test_no_data_leakage() {
    let pool = BufferPool::new();

    // Allocate a buffer and fill it with sensitive data
    {
        let mut buf1 = pool.get();
        buf1.extend_from_slice(b"sensitive secret data");
        assert_eq!(buf1.len(), 21);
        // buf1 is dropped here, returned to pool
    }

    // Get a new buffer - it should be empty, not contain old data
    let buf2 = pool.get();
    assert_eq!(buf2.len(), 0, "New buffer should be empty");

    // Verify extending works correctly on the empty buffer
    let mut buf3 = buf2;
    buf3.extend_from_slice(b"new");
    assert_eq!(buf3.as_slice(), b"new");
    assert_eq!(buf3.len(), 3, "Should only contain new data, not old data");
}

#[test]
fn pool_with_no_buffers_still_hands_out_buffers() {
    let pool = BufferPool::with_capacity(0, 16);
    let a = pool.get();
    let b = pool.get();
    assert!(a.is_pooled() && b.is_pooled());
    assert_eq!(a.pool_buffer_size(), 16);
    assert!(b.is_empty());
}

#[test]
fn unpooled_buffer_keeps_its_bytes() {
    let mut buf = PooledBuf::from_vec_unpooled(vec![1, 2, 3], 4096);
    assert!(!buf.is_pooled());
    assert_eq!(buf.pool_buffer_size(), 4096);
    buf.push(4);
    assert_eq!(buf.as_slice(), &[1, 2, 3, 4]);
    buf.clear();
    assert!(buf.is_empty());
}

#[test]
fn default_pool_uses_default_size() {
    assert_eq!(BufferPool::default().buffer_size(), DEFAULT_BUFFER_SIZE);
}
