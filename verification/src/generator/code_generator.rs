//! Whether a block is the main body, which the emitter terminates with
//! an exit opcode, or an ordinary block.

use vstd::prelude::*;

verus! {

/// The role of a block being emitted.
pub enum BlockType {
    Main,
    General,
}

} // verus!
