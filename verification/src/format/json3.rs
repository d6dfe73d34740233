//! The JSON rendering of timed text, version 3. The format is named so that a
//! track can be asked for in it; no decoder for it exists yet.

use vstd::prelude::*;

verus! {

/// A transcript in the JSON rendering. It holds nothing yet.
#[derive(Debug, Clone, Copy, PartialEq, Eq, Hash)]
pub struct Transcript;

} // verus!
