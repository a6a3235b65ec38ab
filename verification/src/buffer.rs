//! A queue of bytes with a capacity.

use vstd::prelude::*;

verus! {

/// Bytes that were read from one side and wait to be written to the other.
#[derive(Debug)]
pub struct Buffer {
    bytes: Vec<u8>,
    capacity: usize,
}

/// A `Buffer` as mathematical values: the waiting bytes, oldest first.
#[verifier::ext_equal]
pub struct BufferView {
    pub data: Seq<u8>,
    pub capacity: nat,
}

impl View for Buffer {
    type V = BufferView;

    closed spec fn view(&self) -> BufferView {
        BufferView { data: self.bytes@, capacity: self.capacity as nat }
    }
}

impl BufferView {
    pub open spec fn empty(capacity: nat) -> BufferView {
        BufferView { data: Seq::empty(), capacity }
    }

    /// How many bytes can still be added.
    pub open spec fn space(self) -> int {
        self.capacity - self.data.len()
    }

    /// With more bytes at the end.
    pub open spec fn filled(self, bytes: Seq<u8>) -> BufferView {
        BufferView { data: self.data + bytes, ..self }
    }

    /// Without the oldest `count` bytes.
    pub open spec fn consumed(self, count: int) -> BufferView {
        BufferView { data: self.data.skip(count), ..self }
    }
}

impl Buffer {
    /// The waiting bytes do not exceed the capacity.
    pub open spec fn wf(&self) -> bool {
        self@.space() >= 0
    }

    pub fn with_capacity(capacity: usize) -> (buffer: Buffer)
        ensures
            buffer.wf(),
            buffer@ == BufferView::empty(capacity as nat),
    {
        Buffer { bytes: Vec::new(), capacity }
    }

    /// How many bytes wait.
    pub fn available_data(&self) -> (count: usize)
        ensures
            count == self@.data.len(),
    {
        self.bytes.len()
    }

    /// How many bytes can still be added.
    pub fn available_space(&self) -> (count: usize)
        requires
            self.wf(),
        ensures
            count == self@.space(),
    {
        self.capacity - self.bytes.len()
    }

    /// The waiting bytes.
    pub fn data(&self) -> (data: &[u8])
        ensures
            data@ == self@.data,
    {
        self.bytes.as_slice()
    }

    /// Adds bytes at the end.
    pub fn fill(&mut self, bytes: Vec<u8>)
        requires
            old(self).wf(),
            bytes@.len() <= old(self)@.space(),
        ensures
            final(self).wf(),
            final(self)@ == old(self)@.filled(bytes@),
    {
        let mut bytes = bytes;
        self.bytes.append(&mut bytes);
    }

    /// Removes the oldest `count` bytes.
    pub fn consume(&mut self, count: usize)
        requires
            old(self).wf(),
            count <= old(self)@.data.len(),
        ensures
            final(self).wf(),
            final(self)@ == old(self)@.consumed(count as int),
    {
        let rest = self.bytes.split_off(count);
        self.bytes = rest;
    }
}

/// A buffer is a queue: what is added stands behind what waits, what is taken
/// out stood in front, and nothing else is lost, added or moved.
pub proof fn buffer_is_a_queue(buffer: BufferView, bytes: Seq<u8>, count: int)
    requires
        0 <= count <= buffer.data.len(),
    ensures
        buffer.filled(bytes).data == buffer.data + bytes,
        buffer.filled(bytes).capacity == buffer.capacity,
        buffer.data.take(count) + buffer.consumed(count).data == buffer.data,
        buffer.consumed(count).capacity == buffer.capacity,
{
    assert(buffer.data.take(count) + buffer.consumed(count).data =~= buffer.data);
}

/// What waits and the space that is left make up the capacity; at first nothing
/// waits.
pub proof fn space_is_what_is_left(buffer: BufferView, capacity: nat)
    ensures
        buffer.data.len() + buffer.space() == buffer.capacity,
        BufferView::empty(capacity).data.len() == 0,
        BufferView::empty(capacity).capacity == capacity,
{
}

} // verus!
