use vivid::{Key, KeySet, KeyState, KeyboardInput};

#[test]
fn count_fits_storage() {
    assert!(Key::COUNT > 0 && (Key::COUNT <= 64 * Key::COUNT.div_ceil(64)));
}

#[test]
fn press_hold_release_lifecycle() {
    let mut input = KeyboardInput::default();

    input.on_key(Key::Space, KeyState::Pressed, false);
    assert!(input.pressed(Key::Space));
    assert!(input.held(Key::Space));

    input.begin_frame();
    assert!(!input.pressed(Key::Space), "pressed is one-frame only");
    assert!(input.held(Key::Space), "held persists across frames");

    input.on_key(Key::Space, KeyState::Released, false);
    assert!(!input.held(Key::Space));
}

#[test]
fn os_repeat_does_not_retrigger_pressed() {
    let mut input = KeyboardInput::default();
    input.on_key(Key::KeyW, KeyState::Pressed, false);
    input.begin_frame();

    input.on_key(Key::KeyW, KeyState::Pressed, true); // OS auto-repeat
    assert!(!input.pressed(Key::KeyW));
    assert!(input.held(Key::KeyW));
}

#[test]
fn high_bit_keys_use_second_word() {
    // Exercise a key with discriminant >= 64 so both words are covered.
    let key = Key::PageDown;
    assert!(key as usize >= 64, "test assumes PageDown lands in word 1");

    let mut set = KeySet::default();
    assert!(set.insert(key));
    assert!(set.contains(key));
    set.remove(key);
    assert!(!set.contains(key));
}

#[test]
fn index_matches_declaration_order() {
    assert_eq!(Key::KeyA.index(), 0);
    assert_eq!(Key::PageDown.index(), Key::COUNT - 1);
    assert_eq!(Key::PageDown.index(), Key::PageDown as usize);
    assert_eq!(Key::Escape.index(), Key::Escape as usize);
}

#[test]
fn insert_reports_newness_and_keeps_other_keys() {
    let mut set = KeySet::new();
    assert!(set.insert(Key::KeyA));
    assert!(!set.insert(Key::KeyA));
    assert!(set.insert(Key::Delete));
    set.remove(Key::KeyA);
    assert!(!set.contains(Key::KeyA));
    assert!(set.contains(Key::Delete));
    set.clear();
    assert!(!set.contains(Key::Delete));
}

#[test]
fn merge_takes_held_and_accumulates_presses() {
    let mut acc = KeyboardInput::new();
    let mut frame = KeyboardInput::new();
    frame.on_key(Key::KeyA, KeyState::Pressed, false);
    acc.merge(&frame);

    frame.begin_frame();
    frame.on_key(Key::KeyA, KeyState::Released, false);
    frame.on_key(Key::KeyB, KeyState::Pressed, false);
    acc.merge(&frame);

    assert!(acc.pressed(Key::KeyA), "an earlier edge is not dropped");
    assert!(acc.pressed(Key::KeyB));
    assert!(!acc.held(Key::KeyA), "held follows the latest frame");
    assert!(acc.held(Key::KeyB));

    acc.clear_presses();
    assert!(!acc.pressed(Key::KeyA));
    assert!(!acc.pressed(Key::KeyB));
    assert!(acc.held(Key::KeyB));
}

#[test]
fn split_gives_word_and_single_bit() {
    let (word, mask) = KeySet::split(Key::KeyA);
    assert_eq!(word, Key::KeyA.index() / 64);
    assert_eq!(mask, 1u64 << (Key::KeyA.index() % 64));
    assert_eq!(mask.count_ones(), 1);
    let (word, mask) = KeySet::split(Key::PageDown);
    assert_eq!(word, 1);
    assert_eq!(mask, 1u64 << (Key::PageDown as usize % 64));
    let last = Key::COUNT - 1;
    assert!(last / 64 < Key::COUNT.div_ceil(64));
}
