use pong::input::{Key, PressedKeys};

#[test]
fn no_key_is_held_at_first() {
    let keys = PressedKeys::new();
    for key in [Key::W, Key::S, Key::Up, Key::Down] {
        assert!(!keys.contains(key));
    }
}

#[test]
fn a_pressed_key_is_held_until_it_is_released() {
    let mut keys = PressedKeys::new();
    keys.insert(Key::W);
    keys.insert(Key::Down);
    assert!(keys.contains(Key::W));
    assert!(keys.contains(Key::Down));
    assert!(!keys.contains(Key::S));
    assert!(!keys.contains(Key::Up));
    keys.remove(Key::W);
    assert!(!keys.contains(Key::W));
    assert!(keys.contains(Key::Down));
}

#[test]
fn pressing_twice_and_releasing_once_releases() {
    let mut keys = PressedKeys::new();
    keys.insert(Key::Up);
    keys.insert(Key::Up);
    keys.remove(Key::Up);
    assert!(!keys.contains(Key::Up));
    keys.remove(Key::S);
    assert_eq!(keys, PressedKeys::new());
}

#[test]
fn each_key_belongs_to_a_player() {
    assert_eq!(Key::W.player(), 1);
    assert_eq!(Key::S.player(), 1);
    assert_eq!(Key::Up.player(), 2);
    assert_eq!(Key::Down.player(), 2);
}
