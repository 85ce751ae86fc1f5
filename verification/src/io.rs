//! The caller-owned byte source and byte sink that `step` reads from and
//! writes to: in-memory streams with rewinding and clearing, so a driving
//! loop can replay a run from the start.

use vstd::prelude::*;

verus! {

/// A byte source read one byte at a time. Reading past the end is not an
/// error: it simply yields nothing.
pub struct InputSource {
    data: Vec<u8>,
    position: usize,
}

impl InputSource {
    /// The bytes the source was built with.
    pub closed spec fn spec_data(&self) -> Seq<u8> {
        self.data@
    }

    /// How many bytes have been read so far.
    pub closed spec fn spec_position(&self) -> int {
        self.position as int
    }

    /// The read position never passes the end.
    pub open spec fn wf(&self) -> bool {
        0 <= self.spec_position() <= self.spec_data().len()
    }

    /// A source over the given bytes, positioned at the start.
    pub fn new(data: Vec<u8>) -> (r: InputSource)
        ensures
            r.wf(),
            r.spec_data() == data@,
            r.spec_position() == 0,
    {
        InputSource { data, position: 0 }
    }

    /// The next byte, advancing the position; None at the end of the
    /// source, leaving the source unchanged.
    pub fn read_byte(&mut self) -> (r: Option<u8>)
        requires
            old(self).wf(),
        ensures
            final(self).wf(),
            final(self).spec_data() == old(self).spec_data(),
            old(self).spec_position() < old(self).spec_data().len() ==> {
                &&& r == Some(old(self).spec_data()[old(self).spec_position()])
                &&& final(self).spec_position() == old(self).spec_position() + 1
            },
            old(self).spec_position() == old(self).spec_data().len() ==> {
                &&& r is None
                &&& *final(self) == *old(self)
            },
    {
        if self.position < self.data.len() {
            let b = self.data[self.position];
            self.position += 1;
            Some(b)
        } else {
            None
        }
    }

    /// Move the read position back to the start; the bytes stay.
    pub fn rewind(&mut self)
        ensures
            final(self).wf(),
            final(self).spec_data() == old(self).spec_data(),
            final(self).spec_position() == 0,
    {
        self.position = 0;
    }

    /// The current read position.
    pub fn position(&self) -> (r: usize)
        ensures
            r == self.spec_position(),
    {
        self.position
    }
}

/// A byte sink that appends until a fixed acceptance capacity is reached,
/// then refuses further bytes.
pub struct OutputSink {
    data: Vec<u8>,
    capacity: usize,
}

impl OutputSink {
    /// The bytes written so far.
    pub closed spec fn spec_data(&self) -> Seq<u8> {
        self.data@
    }

    /// How many bytes the sink accepts in all.
    pub closed spec fn spec_capacity(&self) -> int {
        self.capacity as int
    }

    /// The sink never holds more than it accepts.
    pub open spec fn wf(&self) -> bool {
        self.spec_data().len() <= self.spec_capacity()
    }

    /// An empty sink that accepts as many bytes as a vector can hold.
    pub fn new() -> (r: OutputSink)
        ensures
            r.wf(),
            r.spec_data() == Seq::<u8>::empty(),
            r.spec_capacity() == usize::MAX,
    {
        OutputSink { data: Vec::new(), capacity: usize::MAX }
    }

    /// An empty sink that accepts at most `capacity` bytes.
    pub fn with_capacity(capacity: usize) -> (r: OutputSink)
        ensures
            r.wf(),
            r.spec_data() == Seq::<u8>::empty(),
            r.spec_capacity() == capacity,
    {
        OutputSink { data: Vec::new(), capacity }
    }

    /// Append one byte. Fails, leaving the sink unchanged, exactly when the
    /// sink is full.
    pub fn write_byte(&mut self, value: u8) -> (r: bool)
        requires
            old(self).wf(),
        ensures
            final(self).wf(),
            final(self).spec_capacity() == old(self).spec_capacity(),
            r <==> old(self).spec_data().len() < old(self).spec_capacity(),
            r ==> final(self).spec_data() == old(self).spec_data().push(value),
            !r ==> *final(self) == *old(self),
    {
        if self.data.len() < self.capacity {
            self.data.push(value);
            true
        } else {
            false
        }
    }

    /// Drop everything written so far; the capacity stays.
    pub fn clear(&mut self)
        ensures
            final(self).wf(),
            final(self).spec_data() == Seq::<u8>::empty(),
            final(self).spec_capacity() == old(self).spec_capacity(),
    {
        self.data = Vec::new();
    }

    /// The bytes written so far.
    pub fn bytes(&self) -> (r: &Vec<u8>)
        ensures
            r@ == self.spec_data(),
    {
        &self.data
    }

    /// How many bytes have been written so far.
    pub fn len(&self) -> (r: usize)
        ensures
            r == self.spec_data().len(),
    {
        self.data.len()
    }
}

} // verus!
