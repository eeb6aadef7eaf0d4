use blackjack_engine::game_settings::GameSettings;

#[test]
fn test_new_game_settings() {
    let settings = GameSettings::new("Player1".to_string(), 6);
    assert_eq!(settings.player_name, "Player1");
    assert_eq!(settings.deck_count, 6);
}

#[test]
fn test_default_single_player() {
    let settings = GameSettings::default_single_player("Player1".to_string());
    assert_eq!(settings.player_name, "Player1");
    assert_eq!(settings.deck_count, 6);
}

#[test]
fn test_validate_valid_settings() {
    let settings = GameSettings::new("Player1".to_string(), 6);
    assert!(settings.validate().is_ok());
}

#[test]
fn test_validate_empty_name() {
    let settings = GameSettings::new("".to_string(), 6);
    assert!(settings.validate().is_err());
    assert_eq!(settings.validate().unwrap_err(), "Player name cannot be empty");
}

#[test]
fn test_validate_deck_count() {
    let settings = GameSettings::new("Player1".to_string(), 9);
    assert!(settings.validate().is_err());
    assert_eq!(
        settings.validate().unwrap_err(),
        "Deck count must be between 1 and 8"
    );
}

#[test]
fn test_settings_clone_and_equality() {
    let settings1 = GameSettings::new("Player1".to_string(), 6);
    let settings2 = settings1.clone();
    assert_eq!(settings1, settings2);
}

#[test]
fn test_validate_blank_name() {
    let settings = GameSettings::new("  \u{a0}\t ".to_string(), 6);
    assert_eq!(settings.validate().unwrap_err(), "Player name cannot be empty");
}

#[test]
fn test_validate_zero_decks() {
    let settings = GameSettings::new("Player1".to_string(), 0);
    assert_eq!(
        settings.validate().unwrap_err(),
        "Deck count must be between 1 and 8"
    );
}
