// A host for sandboxed guest modules, and the file browser that runs in one.
//
// `channel` is the byte buffer that stands in for a guest's stdio; `frame`
// is the host's work on those channels in each frame; `scheduler` decides the
// frame loop, so that no lock is held across a guest call and the terminal is
// restored exactly once. `keys` is the event type both sides share, and
// `entries`, `memory` and `browser` make up the example browser.

use vstd::prelude::*;

pub mod bytes;
pub mod channel;
pub mod keys;
pub mod frame;
pub mod scheduler;
pub mod entries;
pub mod memory;
pub mod browser;

verus! {

} // verus!
