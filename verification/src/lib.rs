use vstd::prelude::*;

pub mod card;
pub mod game;
pub mod hand;
pub mod game_settings;
pub mod player;
pub mod shoe;
pub mod text;

verus! {

/// Adds two amounts, the left and the right.
pub fn add_one(left: u64, right: u64) -> (r: u64)
    requires
        left + right <= u64::MAX,
    ensures
        r == left + right,
{
    left + right
}

} // verus!
