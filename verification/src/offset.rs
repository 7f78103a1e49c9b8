use vstd::prelude::*;

verus! {

/// Position of something inside a running program, relative to the address
/// at which the program's image was loaded.
pub struct Offset(usize);

impl Offset {
    /// The distance from the image base that a value stands for.
    pub closed spec fn distance(&self) -> int {
        self.0 as int
    }

    /// Creates an [`Offset`] of `offset` bytes from a program's base address.
    pub fn new(offset: usize) -> (result: Self)
        ensures
            result.distance() == offset,
    {
        Self(offset)
    }

    /// The offset in bytes.
    pub fn offset(&self) -> (result: usize)
        ensures
            result == self.distance(),
    {
        self.0
    }

    /// The absolute address of the offset in an image loaded at `base`.
    pub fn get_address(&self, base: usize) -> (address: usize)
        requires
            base + self.distance() <= usize::MAX,
        ensures
            address == base + self.distance(),
    {
        base + self.0
    }
}

} // verus!
