//! The memory tape: fixed-capacity byte cells and one movable pointer,
//! under a boundness policy fixed at construction.

use vstd::prelude::*;

verus! {

/// Policy for pointer moves at the edges of the tape: fail, or wrap
/// modulo the capacity.
#[derive(Clone, Copy, Debug, PartialEq, Eq, Structural)]
pub enum BoundnessMode {
    Strict,
    Wrapping,
}

/// Cell increment with 8-bit wraparound.
pub open spec fn wrap_inc(v: u8) -> u8 {
    if v == 255 {
        0
    } else {
        (v + 1) as u8
    }
}

/// Cell decrement with 8-bit wraparound.
pub open spec fn wrap_dec(v: u8) -> u8 {
    if v == 0 {
        255
    } else {
        (v - 1) as u8
    }
}

/// Cell arithmetic wraps modulo 256: one past 255 is 0, one below 0 is 255.
pub proof fn lemma_cell_arithmetic_wraps(v: u8)
    ensures
        wrap_inc(v) == ((v + 1) % 256) as u8,
        wrap_dec(v) == ((v + 255) % 256) as u8,
{
}

/// The pointer after a successful move one cell to the right, wrapping at
/// the capacity.
pub open spec fn pointer_right(pointer: int, capacity: int) -> int {
    if pointer + 1 == capacity {
        0
    } else {
        pointer + 1
    }
}

/// The pointer after a successful move one cell to the left, wrapping at
/// the capacity.
pub open spec fn pointer_left(pointer: int, capacity: int) -> int {
    if pointer == 0 {
        capacity - 1
    } else {
        pointer - 1
    }
}

/// Fixed-capacity byte memory, zero-initialized, with a single pointer that
/// is a valid index before and after every operation.
pub struct Tape {
    cells: Vec<u8>,
    pointer: usize,
    boundness: BoundnessMode,
}

impl Tape {
    /// The cell contents.
    pub closed spec fn spec_cells(&self) -> Seq<u8> {
        self.cells@
    }

    /// The current pointer.
    pub closed spec fn spec_pointer(&self) -> int {
        self.pointer as int
    }

    /// The boundness policy the tape was built with.
    pub closed spec fn spec_boundness(&self) -> BoundnessMode {
        self.boundness
    }

    /// The tape is non-empty and the pointer is a valid index.
    pub open spec fn wf(&self) -> bool {
        &&& self.spec_cells().len() > 0
        &&& 0 <= self.spec_pointer() < self.spec_cells().len()
    }

    /// A zeroed tape of the given capacity with the pointer at cell 0.
    pub fn new(capacity: usize, boundness: BoundnessMode) -> (r: Tape)
        requires
            capacity > 0,
        ensures
            r.wf(),
            r.spec_cells() == Seq::new(capacity as nat, |i: int| 0u8),
            r.spec_pointer() == 0,
            r.spec_boundness() == boundness,
    {
        let cells = zeroed_cells(capacity);
        Tape { cells, pointer: 0, boundness }
    }

    /// Move the pointer one cell to the right: wrap at the last cell under
    /// wrapping boundness, fail there without mutation under strict.
    pub fn move_right(&mut self) -> (r: bool)
        requires
            old(self).wf(),
        ensures
            final(self).wf(),
            final(self).spec_cells() == old(self).spec_cells(),
            final(self).spec_boundness() == old(self).spec_boundness(),
            r <==> (old(self).spec_boundness() is Wrapping || old(self).spec_pointer() + 1 < old(
                self,
            ).spec_cells().len()),
            r ==> final(self).spec_pointer() == pointer_right(
                old(self).spec_pointer(),
                old(self).spec_cells().len() as int,
            ),
            !r ==> *final(self) == *old(self),
    {
        let capacity = self.cells.len();
        if self.pointer + 1 < capacity {
            self.pointer += 1;
            true
        } else {
            match self.boundness {
                BoundnessMode::Wrapping => {
                    self.pointer = 0;
                    true
                },
                BoundnessMode::Strict => false,
            }
        }
    }

    /// Move the pointer one cell to the left: wrap at cell 0 under wrapping
    /// boundness, fail there without mutation under strict.
    pub fn move_left(&mut self) -> (r: bool)
        requires
            old(self).wf(),
        ensures
            final(self).wf(),
            final(self).spec_cells() == old(self).spec_cells(),
            final(self).spec_boundness() == old(self).spec_boundness(),
            r <==> (old(self).spec_boundness() is Wrapping || old(self).spec_pointer() > 0),
            r ==> final(self).spec_pointer() == pointer_left(
                old(self).spec_pointer(),
                old(self).spec_cells().len() as int,
            ),
            !r ==> *final(self) == *old(self),
    {
        if self.pointer > 0 {
            self.pointer -= 1;
            true
        } else {
            match self.boundness {
                BoundnessMode::Wrapping => {
                    self.pointer = self.cells.len() - 1;
                    true
                },
                BoundnessMode::Strict => false,
            }
        }
    }

    /// Add one to the current cell, wrapping modulo 256.
    pub fn increment(&mut self)
        requires
            old(self).wf(),
        ensures
            final(self).wf(),
            final(self).spec_pointer() == old(self).spec_pointer(),
            final(self).spec_boundness() == old(self).spec_boundness(),
            final(self).spec_cells() == old(self).spec_cells().update(
                old(self).spec_pointer(),
                wrap_inc(old(self).spec_cells()[old(self).spec_pointer()]),
            ),
    {
        let v = self.cells[self.pointer];
        let next = if v == 255 {
            0
        } else {
            v + 1
        };
        self.cells[self.pointer] = next;
    }

    /// Subtract one from the current cell, wrapping modulo 256.
    pub fn decrement(&mut self)
        requires
            old(self).wf(),
        ensures
            final(self).wf(),
            final(self).spec_pointer() == old(self).spec_pointer(),
            final(self).spec_boundness() == old(self).spec_boundness(),
            final(self).spec_cells() == old(self).spec_cells().update(
                old(self).spec_pointer(),
                wrap_dec(old(self).spec_cells()[old(self).spec_pointer()]),
            ),
    {
        let v = self.cells[self.pointer];
        let next = if v == 0 {
            255
        } else {
            v - 1
        };
        self.cells[self.pointer] = next;
    }

    /// The byte under the pointer.
    pub fn read_cell(&self) -> (r: u8)
        requires
            self.wf(),
        ensures
            r == self.spec_cells()[self.spec_pointer()],
    {
        self.cells[self.pointer]
    }

    /// Overwrite the byte under the pointer.
    pub fn write_cell(&mut self, value: u8)
        requires
            old(self).wf(),
        ensures
            final(self).wf(),
            final(self).spec_pointer() == old(self).spec_pointer(),
            final(self).spec_boundness() == old(self).spec_boundness(),
            final(self).spec_cells() == old(self).spec_cells().update(
                old(self).spec_pointer(),
                value,
            ),
    {
        self.cells[self.pointer] = value;
    }

    /// The byte at an arbitrary address, for display; out of range is None.
    pub fn cell_at(&self, address: usize) -> (r: Option<u8>)
        ensures
            address < self.spec_cells().len() ==> r == Some(self.spec_cells()[address as int]),
            address >= self.spec_cells().len() ==> r is None,
    {
        if address < self.cells.len() {
            Some(self.cells[address])
        } else {
            None
        }
    }

    /// The current pointer, for display.
    pub fn pointer(&self) -> (r: usize)
        ensures
            r == self.spec_pointer(),
    {
        self.pointer
    }

    /// The boundness policy, for display.
    pub fn boundness(&self) -> (r: BoundnessMode)
        ensures
            r == self.spec_boundness(),
    {
        self.boundness
    }

    /// The number of cells.
    pub fn capacity(&self) -> (r: usize)
        ensures
            r == self.spec_cells().len(),
    {
        self.cells.len()
    }

    /// Zero every cell and move the pointer back to cell 0; the capacity
    /// and the boundness policy stay.
    pub fn reset(&mut self)
        requires
            old(self).wf(),
        ensures
            final(self).wf(),
            final(self).spec_cells() == Seq::new(old(self).spec_cells().len(), |i: int| 0u8),
            final(self).spec_pointer() == 0,
            final(self).spec_boundness() == old(self).spec_boundness(),
    {
        let capacity = self.cells.len();
        self.cells = zeroed_cells(capacity);
        self.pointer = 0;
    }
}

/// A vector of `length` zero bytes.
fn zeroed_cells(length: usize) -> (r: Vec<u8>)
    ensures
        r@ == Seq::new(length as nat, |i: int| 0u8),
{
    let mut cells: Vec<u8> = Vec::new();
    let mut i: usize = 0;
    while i < length
        invariant
            i <= length,
            cells@.len() == i,
            forall|j: int| 0 <= j < i ==> cells@[j] == 0u8,
        decreases length - i,
    {
        cells.push(0);
        i += 1;
    }
    proof {
        assert(cells@ =~= Seq::new(length as nat, |i: int| 0u8));
    }
    cells
}

} // verus!
