use vstd::prelude::*;

pub mod apt;
pub mod github;
pub mod hueshift;
pub mod memory;
pub mod sound;
pub mod uptime;

verus! {

/// What a block reports to the dispatcher between its operations.
///
/// The operations themselves (update, click) run outside the dispatcher and
/// hand the block back when they complete.
pub trait Block {
    /// How often the block is to be refreshed, in milliseconds; `None` if it
    /// is refreshed only on request, on click or on a signal.
    fn interval(&self) -> Option<u64>;

    /// The rendered fragments of the block, in display order.
    fn view(&self) -> Vec<String>;
}

/// How a block's fragments are coloured.
#[derive(Clone, Copy, Debug, PartialEq, Eq, Structural)]
pub enum State {
    Idle,
    Info,
    Good,
    Warning,
    Critical,
}

/// Settings that the dispatcher keeps for a constructed block.
#[derive(Debug)]
pub struct BlockHandlers {
    /// The numbered signal that refreshes this block, if any.
    pub signal: Option<i32>,
    /// A command run instead of the block's own handler on a left click.
    pub on_click: Option<String>,
}

impl BlockHandlers {
    /// Handlers that react to no signal and run no command.
    pub fn none() -> (r: BlockHandlers)
        ensures
            r.signal.is_none(),
            r.on_click.is_none(),
    {
        BlockHandlers { signal: None, on_click: None }
    }
}

} // verus!
