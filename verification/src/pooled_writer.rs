//! A serialization sink that writes into a pooled buffer of fixed capacity
//! and moves to a heap buffer the first time a write does not fit.

use vstd::prelude::*;

use crate::buffer_pool::{empty_buffer, BufferPool, PooledBuf};

verus! {

/// A writer into a pooled buffer that moves to a heap buffer the first time
/// a write would not fit the pooled buffer's capacity.
pub struct PooledWriter {
    buf: PooledBuf,
    capacity: usize,
    overflow: Option<Vec<u8>>,
}

impl PooledWriter {
    /// Everything written so far, in order, after what the pooled buffer held
    /// at the start.
    pub closed spec fn contents(&self) -> Seq<u8> {
        match self.overflow {
            Some(v) => v@,
            None => self.buf@,
        }
    }

    /// The capacity of the pooled buffer.
    pub closed spec fn spec_capacity(&self) -> nat {
        self.capacity as nat
    }

    /// True once the writer moved to the heap buffer.
    pub closed spec fn overflowed(&self) -> bool {
        self.overflow is Some
    }

    /// The pooled buffer came from a pool.
    pub closed spec fn buf_is_pooled(&self) -> bool {
        self.buf.spec_is_pooled()
    }

    /// The pooled buffer never holds more than its capacity, and the writer
    /// has overflowed exactly when more than the capacity was written.
    pub closed spec fn wf(&self) -> bool {
        &&& self.overflow is None ==> self.buf@.len() <= self.capacity
        &&& self.overflowed() == (self.contents().len() > self.capacity)
    }

    /// A writer into `buf`, whose capacity it reads once: a pooled buffer
    /// only grows within its capacity, so that does not change.
    pub fn new(buf: PooledBuf) -> (r: Self)
        ensures
            r.wf(),
            r.contents() == buf@,
            r.spec_capacity() >= buf@.len(),
            !r.overflowed(),
            r.buf_is_pooled() == buf.spec_is_pooled(),
    {
        let capacity = buf.capacity();
        PooledWriter { buf, capacity, overflow: None }
    }

    /// Appends one byte.
    pub fn write_byte(&mut self, byte: u8)
        requires
            old(self).wf(),
            old(self).contents().len() < usize::MAX,
        ensures
            final(self).wf(),
            final(self).spec_capacity() == old(self).spec_capacity(),
            final(self).buf_is_pooled() == old(self).buf_is_pooled(),
            final(self).contents() == old(self).contents().push(byte),
    {
        match self.overflow.take() {
            Some(mut v) => {
                v.push(byte);
                self.overflow = Some(v);
            },
            None => {
                if self.buf.len() < self.capacity {
                    self.buf.push(byte);
                } else {
                    let mut v = empty_buffer(twice(self.capacity));
                    append_bytes(&mut v, self.buf.as_slice());
                    v.push(byte);
                    self.overflow = Some(v);
                }
            },
        }
    }

    /// Appends `bytes`.
    pub fn write_bytes(&mut self, bytes: &[u8])
        requires
            old(self).wf(),
            old(self).contents().len() + bytes@.len() <= usize::MAX,
        ensures
            final(self).wf(),
            final(self).spec_capacity() == old(self).spec_capacity(),
            final(self).buf_is_pooled() == old(self).buf_is_pooled(),
            final(self).contents() == old(self).contents() + bytes@,
    {
        match self.overflow.take() {
            Some(mut v) => {
                append_bytes(&mut v, bytes);
                self.overflow = Some(v);
            },
            None => {
                let needed = self.buf.len() + bytes.len();
                if needed <= self.capacity {
                    self.buf.extend_from_slice(bytes);
                } else {
                    let doubled = twice(self.capacity);
                    let mut v = empty_buffer(if needed > doubled { needed } else { doubled });
                    append_bytes(&mut v, self.buf.as_slice());
                    append_bytes(&mut v, bytes);
                    self.overflow = Some(v);
                }
            },
        }
    }

    /// The written bytes as a buffer: the pooled buffer itself when every
    /// write fit, else the heap buffer, unpooled, with `pool`'s buffer size.
    pub fn into_pooled_buf(self, pool: &BufferPool) -> (r: PooledBuf)
        requires
            self.wf(),
        ensures
            r@ == self.contents(),
            !self.overflowed() ==> r.spec_is_pooled() == self.buf_is_pooled(),
            self.overflowed() ==> !r.spec_is_pooled() && r.spec_pool_buffer_size()
                == pool.spec_buffer_size(),
            self.overflowed() == (self.contents().len() > self.spec_capacity()),
    {
        match self.overflow {
            Some(v) => PooledBuf::from_vec_unpooled(v, pool.buffer_size()),
            None => self.buf,
        }
    }
}

/// Twice `n`, or `usize::MAX` where that does not fit: room to reserve for a
/// heap buffer that takes over from a pooled buffer of `n` bytes.
fn twice(n: usize) -> (r: usize)
    ensures
        r == if n <= usize::MAX / 2 {
            2 * n
        } else {
            usize::MAX as int
        },
{
    if n <= usize::MAX / 2 {
        n * 2
    } else {
        usize::MAX
    }
}

fn append_bytes(v: &mut Vec<u8>, bytes: &[u8])
    requires
        old(v)@.len() + bytes@.len() <= usize::MAX,
    ensures
        final(v)@ == old(v)@ + bytes@,
{
    let mut i: usize = 0;
    while i < bytes.len()
        invariant
            i <= bytes@.len(),
            v@ == old(v)@ + bytes@.take(i as int),
        decreases bytes@.len() - i,
    {
        v.push(bytes[i]);
        i = i + 1;
        assert(v@ =~= old(v)@ + bytes@.take(i as int));
    }
    assert(bytes@.take(bytes@.len() as int) =~= bytes@);
}

fn copy_bytes(v: &Vec<u8>) -> (r: Vec<u8>)
    ensures
        r@ == v@,
{
    let mut r: Vec<u8> = Vec::with_capacity(v.len());
    append_bytes(&mut r, v.as_slice());
    assert(r@ =~= v@);
    r
}

} // verus!
