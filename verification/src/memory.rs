//! Column layouts for memory-access tables.
//!
//! These structs name the columns a memory table's rows are made of: the value
//! read or written, the previous value where one exists, and the decomposed
//! timestamp difference used to range-check that accesses move forward in
//! time. The [`MemoryCols`] trait gives every access shape one uniform view.

use vstd::prelude::*;

verus! {

/// A block of four field-element limbs, the unit a memory cell holds.
#[derive(Clone, Copy, Debug)]
pub struct Block<T>(pub [T; 4]);

/// The columns shared by every kind of memory access.
#[derive(Clone, Copy, Debug)]
pub struct MemoryAccessCols<T> {
    /// The value of the memory access.
    pub value: Block<T>,
    /// The previous timestamp that this memory access is being read from.
    pub prev_timestamp: T,
    /// The least significant 16-bit limb of the difference between the current
    /// and previous access timestamps.
    pub diff_16bit_limb: T,
    /// The most significant 8-bit limb of the difference between the current
    /// and previous access timestamps.
    pub diff_8bit_limb: T,
}

/// Columns of a memory-initialization table row.
#[derive(Clone, Copy, Debug)]
pub struct MemoryInitCols<T> {
    /// The address being initialized.
    pub addr: T,
    /// The timestamp of the initialization.
    pub timestamp: T,
    /// The initial value.
    pub value: Block<T>,
    /// Whether the row is a real initialization or padding.
    pub is_real: T,
}

/// Columns of a memory read access.
#[derive(Clone, Copy, Debug)]
pub struct MemoryReadCols<T> {
    /// The access columns; a read leaves the value unchanged.
    pub access: MemoryAccessCols<T>,
}

/// Columns of a memory write access.
#[derive(Clone, Copy, Debug)]
pub struct MemoryWriteCols<T> {
    /// The value before the write.
    pub prev_value: Block<T>,
    /// The access columns holding the written value.
    pub access: MemoryAccessCols<T>,
}

/// Columns of a memory read-write access.
#[derive(Clone, Copy, Debug)]
pub struct MemoryReadWriteCols<T> {
    /// The value before the access.
    pub prev_value: Block<T>,
    /// The access columns holding the resulting value.
    pub access: MemoryAccessCols<T>,
}

/// The access columns with the value replaced and everything else kept.
pub open spec fn access_with_value<T>(a: MemoryAccessCols<T>, v: Block<T>) -> MemoryAccessCols<T> {
    MemoryAccessCols {
        value: v,
        prev_timestamp: a.prev_timestamp,
        diff_16bit_limb: a.diff_16bit_limb,
        diff_8bit_limb: a.diff_8bit_limb,
    }
}

/// The common columns of all memory access shapes. The `spec_with_*` functions
/// say what a row looks like after writing through the matching `*_mut`
/// borrow, leaving every other column unchanged.
pub trait MemoryCols<T>: Sized {
    /// The access columns.
    spec fn spec_access(&self) -> MemoryAccessCols<T>;

    /// The previous value.
    spec fn spec_prev_value(&self) -> Block<T>;

    /// The current value.
    spec fn spec_value(&self) -> Block<T>;

    /// The row with its access columns replaced.
    spec fn spec_with_access(&self, a: MemoryAccessCols<T>) -> Self;

    /// The row with its previous value replaced.
    spec fn spec_with_prev_value(&self, v: Block<T>) -> Self;

    /// The row with its value replaced.
    spec fn spec_with_value(&self, v: Block<T>) -> Self;

    /// The access columns.
    fn access(&self) -> (r: &MemoryAccessCols<T>)
        ensures
            *r == self.spec_access(),
    ;

    /// Mutable access to the access columns.
    fn access_mut(&mut self) -> (r: &mut MemoryAccessCols<T>)
        ensures
            *r == old(self).spec_access(),
            *final(self) == old(self).spec_with_access(*final(r)),
    ;

    /// The value before the access.
    fn prev_value(&self) -> (r: &Block<T>)
        ensures
            *r == self.spec_prev_value(),
    ;

    /// Mutable access to the value before the access.
    fn prev_value_mut(&mut self) -> (r: &mut Block<T>)
        ensures
            *r == old(self).spec_prev_value(),
            *final(self) == old(self).spec_with_prev_value(*final(r)),
    ;

    /// The value of the access.
    fn value(&self) -> (r: &Block<T>)
        ensures
            *r == self.spec_value(),
    ;

    /// Mutable access to the value of the access.
    fn value_mut(&mut self) -> (r: &mut Block<T>)
        ensures
            *r == old(self).spec_value(),
            *final(self) == old(self).spec_with_value(*final(r)),
    ;
}

impl<T> MemoryCols<T> for MemoryReadCols<T> {
    open spec fn spec_access(&self) -> MemoryAccessCols<T> {
        self.access
    }

    open spec fn spec_prev_value(&self) -> Block<T> {
        self.access.value
    }

    open spec fn spec_value(&self) -> Block<T> {
        self.access.value
    }

    open spec fn spec_with_access(&self, a: MemoryAccessCols<T>) -> Self {
        MemoryReadCols { access: a }
    }

    open spec fn spec_with_prev_value(&self, v: Block<T>) -> Self {
        MemoryReadCols { access: access_with_value(self.access, v) }
    }

    open spec fn spec_with_value(&self, v: Block<T>) -> Self {
        MemoryReadCols { access: access_with_value(self.access, v) }
    }

    fn access(&self) -> (r: &MemoryAccessCols<T>) {
        &self.access
    }

    fn access_mut(&mut self) -> (r: &mut MemoryAccessCols<T>) {
        &mut self.access
    }

    fn prev_value(&self) -> (r: &Block<T>) {
        &self.access.value
    }

    fn prev_value_mut(&mut self) -> (r: &mut Block<T>) {
        &mut self.access.value
    }

    fn value(&self) -> (r: &Block<T>) {
        &self.access.value
    }

    fn value_mut(&mut self) -> (r: &mut Block<T>) {
        &mut self.access.value
    }
}

impl<T> MemoryCols<T> for MemoryWriteCols<T> {
    open spec fn spec_access(&self) -> MemoryAccessCols<T> {
        self.access
    }

    open spec fn spec_prev_value(&self) -> Block<T> {
        self.prev_value
    }

    open spec fn spec_value(&self) -> Block<T> {
        self.access.value
    }

    open spec fn spec_with_access(&self, a: MemoryAccessCols<T>) -> Self {
        MemoryWriteCols { prev_value: self.prev_value, access: a }
    }

    open spec fn spec_with_prev_value(&self, v: Block<T>) -> Self {
        MemoryWriteCols { prev_value: v, access: self.access }
    }

    open spec fn spec_with_value(&self, v: Block<T>) -> Self {
        MemoryWriteCols { prev_value: self.prev_value, access: access_with_value(self.access, v) }
    }

    fn access(&self) -> (r: &MemoryAccessCols<T>) {
        &self.access
    }

    fn access_mut(&mut self) -> (r: &mut MemoryAccessCols<T>) {
        &mut self.access
    }

    fn prev_value(&self) -> (r: &Block<T>) {
        &self.prev_value
    }

    fn prev_value_mut(&mut self) -> (r: &mut Block<T>) {
        &mut self.prev_value
    }

    fn value(&self) -> (r: &Block<T>) {
        &self.access.value
    }

    fn value_mut(&mut self) -> (r: &mut Block<T>) {
        &mut self.access.value
    }
}

impl<T> MemoryCols<T> for MemoryReadWriteCols<T> {
    open spec fn spec_access(&self) -> MemoryAccessCols<T> {
        self.access
    }

    open spec fn spec_prev_value(&self) -> Block<T> {
        self.prev_value
    }

    open spec fn spec_value(&self) -> Block<T> {
        self.access.value
    }

    open spec fn spec_with_access(&self, a: MemoryAccessCols<T>) -> Self {
        MemoryReadWriteCols { prev_value: self.prev_value, access: a }
    }

    open spec fn spec_with_prev_value(&self, v: Block<T>) -> Self {
        MemoryReadWriteCols { prev_value: v, access: self.access }
    }

    open spec fn spec_with_value(&self, v: Block<T>) -> Self {
        MemoryReadWriteCols {
            prev_value: self.prev_value,
            access: access_with_value(self.access, v),
        }
    }

    fn access(&self) -> (r: &MemoryAccessCols<T>) {
        &self.access
    }

    fn access_mut(&mut self) -> (r: &mut MemoryAccessCols<T>) {
        &mut self.access
    }

    fn prev_value(&self) -> (r: &Block<T>) {
        &self.prev_value
    }

    fn prev_value_mut(&mut self) -> (r: &mut Block<T>) {
        &mut self.prev_value
    }

    fn value(&self) -> (r: &Block<T>) {
        &self.access.value
    }

    fn value_mut(&mut self) -> (r: &mut Block<T>) {
        &mut self.access.value
    }
}

} // verus!
