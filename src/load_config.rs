use vstd::prelude::*;

verus! {

/// Where the game's images lie.
pub struct Paths {
    pub tiles_path: String,
    pub planes_path: String,
    pub background_path: String,
}

} // verus!
