use vstd::prelude::*;
use crate::text::{all_blank, str_is_blank};

verus! {

/// Table configuration: who is playing, and how many decks the shoe holds.
#[derive(Debug, Clone, PartialEq)]
pub struct GameSettings {
    /// Name of the main player.
    pub player_name: String,
    /// Number of decks to use in the shoe.
    pub deck_count: u8,
}

/// True when the settings pass validation: a player name with at least one
/// visible character, and a deck count between 1 and 8.
pub open spec fn settings_valid(s: &GameSettings) -> bool {
    !all_blank(s.player_name@) && 1 <= s.deck_count <= 8
}

impl GameSettings {
    /// Creates settings from a player name and a deck count; validation is a
    /// separate step.
    pub fn new(player_name: String, deck_count: u8) -> (s: Self)
        ensures
            s.player_name@ == player_name@,
            s.deck_count == deck_count,
    {
        Self { player_name, deck_count }
    }

    /// Creates a default single-player configuration with 6 decks.
    pub fn default_single_player(player_name: String) -> (s: Self)
        ensures
            s.player_name@ == player_name@,
            s.deck_count == 6,
    {
        Self { player_name, deck_count: 6 }
    }

    /// Validates the settings: the player name must not be empty (nor
    /// whitespace alone), and the deck count must lie between 1 and 8.
    pub fn validate(&self) -> (r: Result<(), String>)
        ensures
            r is Ok <==> settings_valid(self),
            all_blank(self.player_name@) ==> (r matches Err(m) && m@
                == "Player name cannot be empty"@),
            !all_blank(self.player_name@) && !(1 <= self.deck_count <= 8) ==> (r matches Err(m)
                && m@ == "Deck count must be between 1 and 8"@),
    {
        if str_is_blank(self.player_name.as_str()) {
            return Err("Player name cannot be empty".to_owned());
        }
        if self.deck_count < 1 || self.deck_count > 8 {
            return Err("Deck count must be between 1 and 8".to_owned());
        }
        Ok(())
    }
}

} // verus!
