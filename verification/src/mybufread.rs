//! A buffer for reading that can start out with content.

use vstd::prelude::*;
use vstd::slice::{slice_subrange, slice_to_vec};

verus! {

/// `Vec::capacity`: the number of elements that the vector can hold without
/// allocating again, which is never less than the number that it holds.
#[verifier::external_body]
fn vec_capacity(v: &Vec<u8>) -> (capacity: usize)
    ensures
        capacity >= v@.len(),
{
    v.capacity()
}

/// A MyBufReader is like a regular buffered reader except that you can
/// pass it some initial content at creation time. It does not read itself:
/// whoever owns the source reads from it when [`MyBufReader::needs_fill`]
/// says so, and hands over what was read with [`MyBufReader::refill`].
pub struct MyBufReader {
    buffer: Vec<u8>,
    data_start: usize,
    data_end: usize,
}

impl View for MyBufReader {
    type V = Seq<u8>;

    /// The bytes that are buffered and have not been consumed.
    closed spec fn view(&self) -> Seq<u8> {
        self.buffer@.subrange(self.data_start as int, self.data_end as int)
    }
}

impl MyBufReader {
    pub closed spec fn wf(&self) -> bool {
        self.data_start <= self.data_end <= self.buffer@.len()
    }

    /// How many bytes the buffer has room for.
    pub closed spec fn space(&self) -> nat {
        self.buffer@.len()
    }

    /// Create a new MyBufReader. Reading from it will first return the current
    /// contents of the Vec before starting to read from the source.
    /// The whole capacity of the Vec will be used as buffer space.
    pub fn new(buffer: Vec<u8>) -> (r: MyBufReader)
        ensures
            r.wf(),
            r@ == buffer@,
            r.space() >= buffer@.len(),
    {
        let mut buffer = buffer;
        let data_end = buffer.len();
        let capacity = vec_capacity(&buffer);
        let ghost content = buffer@;
        buffer.resize(capacity, 0u8);
        let r = MyBufReader { buffer, data_start: 0, data_end };
        assert(r@ =~= content);
        r
    }

    /// Whether all that was buffered has been consumed, so that more is to
    /// be read from the source.
    pub fn needs_fill(&self) -> (b: bool)
        requires
            self.wf(),
        ensures
            b == (self@.len() == 0),
    {
        self.data_start == self.data_end
    }

    /// How many bytes can be handed over at once.
    pub fn capacity(&self) -> (n: usize)
        ensures
            n == self.space(),
    {
        self.buffer.len()
    }

    /// Hand over what has been read from the source, once all that was
    /// buffered has been consumed.
    pub fn refill(&mut self, data: &[u8])
        requires
            old(self).wf(),
            old(self)@.len() == 0,
            data@.len() <= old(self).space(),
        ensures
            final(self).wf(),
            final(self)@ == data@,
            final(self).space() == old(self).space(),
    {
        let n = data.len();
        let mut i: usize = 0;
        while i < n
            invariant
                i <= n,
                n == data@.len(),
                n <= self.buffer@.len(),
                self.buffer@.len() == old(self).buffer@.len(),
                self.data_start == old(self).data_start,
                self.data_end == old(self).data_end,
                self.buffer@.take(i as int) == data@.take(i as int),
            decreases n - i,
        {
            let ghost prior = self.buffer@;
            self.buffer.set(i, data[i]);
            proof {
                assert(self.buffer@.take(i as int) =~= prior.take(i as int));
                assert(self.buffer@.take(i + 1) =~= self.buffer@.take(i as int).push(
                    data@[i as int],
                ));
                assert(data@.take(i + 1) =~= data@.take(i as int).push(data@[i as int]));
            }
            i = i + 1;
        }
        self.data_start = 0;
        self.data_end = n;
        proof {
            assert(data@.take(n as int) =~= data@);
            assert(self@ =~= self.buffer@.take(n as int));
        }
    }

    /// The bytes that are buffered and have not been consumed.
    pub fn fill_buf(&self) -> (data: &[u8])
        requires
            self.wf(),
        ensures
            data@ == self@,
    {
        slice_subrange(self.buffer.as_slice(), self.data_start, self.data_end)
    }

    /// Mark the first `n` of the buffered bytes as consumed.
    pub fn consume(&mut self, n: usize)
        requires
            old(self).wf(),
            n <= old(self)@.len(),
        ensures
            final(self).wf(),
            final(self)@ == old(self)@.skip(n as int),
            final(self).space() == old(self).space(),
    {
        self.data_start = self.data_start + n;
        assert(self@ =~= old(self)@.skip(n as int));
    }

    /// Take up to `max` of the buffered bytes.
    pub fn read(&mut self, max: usize) -> (bytes: Vec<u8>)
        requires
            old(self).wf(),
        ensures
            final(self).wf(),
            bytes@ == old(self)@.take(
                if max <= old(self)@.len() {
                    max as int
                } else {
                    old(self)@.len() as int
                },
            ),
            final(self)@ == old(self)@.skip(bytes@.len() as int),
            final(self).space() == old(self).space(),
    {
        let data = self.fill_buf();
        let n = if data.len() < max {
            data.len()
        } else {
            max
        };
        let bytes = slice_to_vec(slice_subrange(data, 0, n));
        assert(bytes@ =~= self@.take(n as int));
        self.consume(n);
        bytes
    }
}

} // verus!
