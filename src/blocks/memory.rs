use vstd::prelude::*;

verus! {

/// The kind of memory a memory block reports.
#[derive(Clone, Copy, Debug, PartialEq, Eq, Structural)]
pub enum Memtype {
    Swap,
    Memory,
}

impl Memtype {
    /// The name of the icon shown for this kind of memory.
    pub fn icon(self) -> (r: &'static str)
        ensures
            self == Memtype::Swap ==> r@ == "memory_swap"@,
            self == Memtype::Memory ==> r@ == "memory_mem"@,
    {
        match self {
            Memtype::Swap => "memory_swap",
            Memtype::Memory => "memory_mem",
        }
    }
}

} // verus!
