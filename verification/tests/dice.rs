use dice_wars::game::{color_changed, dices_from_byte, title, Dices, GameState, Message, Player};

#[test]
fn dice_values_exhaustive_over_byte_domain() {
    for b in 0..=255u8 {
        let d = dices_from_byte(b);
        assert!((1..=6).contains(&d.0), "die 1 out of range for byte {}", b);
        assert!((1..=6).contains(&d.1), "die 2 out of range for byte {}", b);
        assert_eq!(d.0, (b >> 4) % 6 + 1);
        assert_eq!(d.1, b % 6 + 1);
    }
}

#[test]
fn dice_exact_values() {
    assert_eq!(dices_from_byte(0x00), Dices(1, 1));
    assert_eq!(dices_from_byte(0x35), Dices(4, 6));
    assert_eq!(dices_from_byte(0xFF), Dices(4, 4));
    assert_eq!(dices_from_byte(0x50), Dices(6, 3));
}

#[test]
fn initial_state_is_empty_board() {
    let s = GameState::new();
    assert!(s.dices.is_none());
    assert!(matches!(s.current_player, Player::Player1));
    for i in 0..16 {
        for j in 0..16 {
            assert_eq!(s.cells.owner(i, j), None);
        }
    }
}

#[test]
fn apply_roll_records_derived_dice() {
    let mut s = GameState::new();
    s.apply_roll(0x35);
    assert_eq!(s.dices, Some(Dices(4, 6)));
    assert!(matches!(s.current_player, Player::Player1));
}

#[test]
fn update_throw_dices_rolls_in_range() {
    let mut s = GameState::new();
    s.update(Message::ThrowDices);
    let d = s.dices.expect("a roll must record dice");
    assert!((1..=6).contains(&d.0));
    assert!((1..=6).contains(&d.1));
}

#[test]
fn update_other_message_keeps_dice() {
    let mut s = GameState::new();
    s.apply_roll(0x12);
    s.update(Message::ChangeOwner { player: Player::Player2, x: 1, y: 2 });
    assert_eq!(s.dices, Some(dices_from_byte(0x12)));
    assert_eq!(s.cells.owner(1, 2), None);
}

#[test]
fn color_changed_builds_change_owner_message() {
    let m = color_changed(Player::Player1, 3, 5);
    assert!(matches!(
        m,
        Message::ChangeOwner { player: Player::Player1, x: 3, y: 5 }
    ));
}

#[test]
fn title_names_the_game() {
    assert_eq!(title(), "Dice wars");
}
