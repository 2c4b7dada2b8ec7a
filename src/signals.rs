use vstd::prelude::*;

verus! {

/// A signal, as the dispatcher sees it.
#[derive(Clone, Copy, Debug, PartialEq, Eq, Structural)]
pub enum Signal {
    /// Refresh every block.
    Usr1,
    /// Reload: restart the program.
    Usr2,
    /// A numbered signal: the offset of its number from the first
    /// real-time signal.
    Other(i32),
}

impl Signal {
    /// Names the raw signal `signal`, given the numbers of the two user
    /// signals and of the first real-time signal `sigmin`.
    pub fn from_raw(signal: i32, sigmin: i32, usr1: i32, usr2: i32) -> (r: Signal)
        requires
            i32::MIN <= signal - sigmin <= i32::MAX,
        ensures
            signal == usr1 ==> r == Signal::Usr1,
            signal != usr1 && signal == usr2 ==> r == Signal::Usr2,
            signal != usr1 && signal != usr2 ==> r == Signal::Other((signal - sigmin) as i32),
    {
        if signal == usr1 {
            Signal::Usr1
        } else if signal == usr2 {
            Signal::Usr2
        } else {
            Signal::Other(signal - sigmin)
        }
    }
}

} // verus!
