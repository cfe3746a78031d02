//! A pool of reusable byte buffers. Buffers taken from the pool go back to it
//! when they are dropped; a buffer is always empty when it is handed out, so
//! nothing written by an earlier user can be read by the next.

use object_pool::{Pool, ReusableOwned};
use std::ops::{Deref, DerefMut};
use std::sync::Arc;
use vstd::prelude::*;

verus! {

/// The size of each pooled buffer when none is given (64 KiB).
pub const DEFAULT_BUFFER_SIZE: usize = 65536;

/// The number of buffers a pool starts with when none is given.
pub const DEFAULT_POOL_CAPACITY: usize = 128;

#[verifier::external_type_specification]
#[verifier::external_body]
#[verifier::reject_recursive_types(T)]
pub struct ExPool<T>(Pool<T>);

#[verifier::external_type_specification]
#[verifier::external_body]
#[verifier::reject_recursive_types(T)]
pub struct ExReusableOwned<T>(ReusableOwned<T>);

/// The bytes of the buffer that a handle taken from a pool holds.
pub uninterp spec fn reusable_bytes(r: ReusableOwned<Vec<u8>>) -> Seq<u8>;

/// A new, empty buffer with room for `size` bytes.
pub fn empty_buffer(size: usize) -> (r: Vec<u8>)
    ensures
        r@.len() == 0,
{
    Vec::with_capacity(size)
}

/// Calls `object_pool::Pool::new`: a pool holding `capacity` buffers, each
/// made by `empty_buffer(size)`. Nothing is stated of the result.
#[verifier::external_body]
fn new_pool(capacity: usize, size: usize) -> Pool<Vec<u8>> {
    Pool::new(capacity, move || empty_buffer(size))
}

/// Calls `object_pool::Pool::pull_owned`: a buffer from the pool, or a new
/// one made by `empty_buffer(size)` when the pool is empty. What the buffer
/// holds is not stated: a buffer that comes back to the pool keeps its bytes.
#[verifier::external_body]
fn pull_buffer(pool: &Arc<Pool<Vec<u8>>>, size: usize) -> ReusableOwned<Vec<u8>> {
    pool.pull_owned(move || empty_buffer(size))
}

/// Calls `Deref::deref` of `object_pool::ReusableOwned`: the buffer that the
/// handle holds.
#[verifier::external_body]
fn reusable_vec(r: &ReusableOwned<Vec<u8>>) -> (v: &Vec<u8>)
    ensures
        v@ == reusable_bytes(*r),
{
    r.deref()
}

/// Calls `DerefMut::deref_mut` of `object_pool::ReusableOwned`: the buffer
/// that the handle holds, to change in place.
#[verifier::external_body]
fn reusable_vec_mut(r: &mut ReusableOwned<Vec<u8>>) -> (v: &mut Vec<u8>)
    ensures
        v@ == reusable_bytes(*old(r)),
        reusable_bytes(*final(r)) == final(v)@,
{
    r.deref_mut()
}

/// Calls `Vec::capacity`: how many bytes the buffer holds without
/// reallocating, which its documentation places at or above its length.
#[verifier::external_body]
fn vec_capacity(v: &Vec<u8>) -> (r: usize)
    ensures
        r >= v@.len(),
{
    v.capacity()
}

/// A pool of byte buffers, shared by its clones.
#[derive(Clone)]
pub struct BufferPool {
    pool: Arc<Pool<Vec<u8>>>,
    buffer_size: usize,
}

impl BufferPool {
    /// The size of the buffers this pool makes.
    pub closed spec fn spec_buffer_size(&self) -> usize {
        self.buffer_size
    }

    /// A pool of `DEFAULT_POOL_CAPACITY` buffers of `DEFAULT_BUFFER_SIZE`
    /// bytes.
    pub fn new() -> (r: Self)
        ensures
            r.spec_buffer_size() == DEFAULT_BUFFER_SIZE,
    {
        Self::with_capacity(DEFAULT_POOL_CAPACITY, DEFAULT_BUFFER_SIZE)
    }

    /// A pool that starts with `capacity` buffers of `buffer_size` bytes.
    pub fn with_capacity(capacity: usize, buffer_size: usize) -> (r: Self)
        ensures
            r.spec_buffer_size() == buffer_size,
    {
        let pool = new_pool(capacity, buffer_size);
        BufferPool { pool: Arc::new(pool), buffer_size }
    }

    /// An empty buffer from the pool; it goes back to the pool when dropped.
    pub fn get(&self) -> (r: PooledBuf)
        ensures
            r@ == Seq::<u8>::empty(),
            r.spec_is_pooled(),
            r.spec_pool_buffer_size() == self.spec_buffer_size(),
    {
        let mut reusable = pull_buffer(&self.pool, self.buffer_size);
        let v = reusable_vec_mut(&mut reusable);
        v.clear();
        PooledBuf { inner: PooledBufInner::Pooled(reusable), pool_buffer_size: self.buffer_size }
    }

    /// The size of the buffers this pool makes.
    pub fn buffer_size(&self) -> (r: usize)
        ensures
            r == self.spec_buffer_size(),
    {
        self.buffer_size
    }
}

impl Default for BufferPool {
    /// A pool of `DEFAULT_POOL_CAPACITY` buffers of `DEFAULT_BUFFER_SIZE`
    /// bytes.
    fn default() -> (r: Self)
        ensures
            r.spec_buffer_size() == DEFAULT_BUFFER_SIZE,
    {
        Self::new()
    }
}

/// Where the bytes of a `PooledBuf` live.
enum PooledBufInner {
    /// In a buffer taken from a pool.
    Pooled(ReusableOwned<Vec<u8>>),
    /// In a heap buffer of its own.
    Unpooled(Vec<u8>),
}

/// A byte buffer that goes back to its pool when dropped, or, when it does
/// not come from a pool, is freed as usual.
pub struct PooledBuf {
    inner: PooledBufInner,
    pool_buffer_size: usize,
}

impl View for PooledBuf {
    type V = Seq<u8>;

    closed spec fn view(&self) -> Seq<u8> {
        match self.inner {
            PooledBufInner::Pooled(r) => reusable_bytes(r),
            PooledBufInner::Unpooled(v) => v@,
        }
    }
}

impl PooledBuf {
    /// The buffer came from a pool.
    pub closed spec fn spec_is_pooled(&self) -> bool {
        self.inner is Pooled
    }

    /// The buffer size of the pool this buffer belongs to.
    pub closed spec fn spec_pool_buffer_size(&self) -> usize {
        self.pool_buffer_size
    }

    /// A buffer from `pool` holding a copy of `data`.
    pub fn from_slice(pool: &BufferPool, data: &[u8]) -> (r: Self)
        ensures
            r@ == data@,
            r.spec_is_pooled(),
            r.spec_pool_buffer_size() == pool.spec_buffer_size(),
    {
        let mut buf = pool.get();
        buf.extend_from_slice(data);
        assert(buf@ =~= data@);
        buf
    }

    /// Wraps a heap buffer, which is not returned to any pool; the pool's
    /// buffer size is kept for reference.
    pub fn from_vec_unpooled(vec: Vec<u8>, pool_buffer_size: usize) -> (r: Self)
        ensures
            r@ == vec@,
            !r.spec_is_pooled(),
            r.spec_pool_buffer_size() == pool_buffer_size,
    {
        PooledBuf { inner: PooledBufInner::Unpooled(vec), pool_buffer_size }
    }

    /// The buffer size of the pool this buffer belongs to.
    pub fn pool_buffer_size(&self) -> (r: usize)
        ensures
            r == self.spec_pool_buffer_size(),
    {
        self.pool_buffer_size
    }

    /// True when the buffer came from a pool.
    pub fn is_pooled(&self) -> (r: bool)
        ensures
            r == self.spec_is_pooled(),
    {
        match &self.inner {
            PooledBufInner::Pooled(_) => true,
            PooledBufInner::Unpooled(_) => false,
        }
    }

    /// The bytes in the buffer.
    pub fn as_slice(&self) -> (r: &[u8])
        ensures
            r@ == self@,
    {
        match &self.inner {
            PooledBufInner::Pooled(r) => reusable_vec(r).as_slice(),
            PooledBufInner::Unpooled(v) => v.as_slice(),
        }
    }

    /// The number of bytes in the buffer.
    pub fn len(&self) -> (r: usize)
        ensures
            r == self@.len(),
    {
        self.as_slice().len()
    }

    /// True when the buffer holds no bytes.
    pub fn is_empty(&self) -> (r: bool)
        ensures
            r == (self@.len() == 0),
    {
        self.len() == 0
    }

    /// How many bytes the buffer holds without reallocating.
    pub fn capacity(&self) -> (r: usize)
        ensures
            r >= self@.len(),
    {
        match &self.inner {
            PooledBufInner::Pooled(r) => vec_capacity(reusable_vec(r)),
            PooledBufInner::Unpooled(v) => vec_capacity(v),
        }
    }

    /// Removes all bytes; the buffer keeps its allocation.
    pub fn clear(&mut self)
        ensures
            final(self)@ == Seq::<u8>::empty(),
            final(self).spec_is_pooled() == old(self).spec_is_pooled(),
            final(self).spec_pool_buffer_size() == old(self).spec_pool_buffer_size(),
    {
        match &mut self.inner {
            PooledBufInner::Pooled(r) => {
                let v = reusable_vec_mut(r);
                v.clear();
            },
            PooledBufInner::Unpooled(v) => {
                v.clear();
            },
        }
    }

    /// Appends one byte.
    pub fn push(&mut self, byte: u8)
        ensures
            final(self)@ == old(self)@.push(byte),
            final(self).spec_is_pooled() == old(self).spec_is_pooled(),
            final(self).spec_pool_buffer_size() == old(self).spec_pool_buffer_size(),
    {
        match &mut self.inner {
            PooledBufInner::Pooled(r) => {
                let v = reusable_vec_mut(r);
                v.push(byte);
            },
            PooledBufInner::Unpooled(v) => {
                v.push(byte);
            },
        }
    }

    /// Appends a copy of `data`.
    pub fn extend_from_slice(&mut self, data: &[u8])
        ensures
            final(self)@ == old(self)@ + data@,
            final(self).spec_is_pooled() == old(self).spec_is_pooled(),
            final(self).spec_pool_buffer_size() == old(self).spec_pool_buffer_size(),
    {
        let ghost before = self@;
        match &mut self.inner {
            PooledBufInner::Pooled(r) => {
                let v = reusable_vec_mut(r);
                v.extend_from_slice(data);
                assert(v@ =~= before + data@);
            },
            PooledBufInner::Unpooled(v) => {
                v.extend_from_slice(data);
                assert(v@ =~= before + data@);
            },
        }
    }
}

} // verus!
