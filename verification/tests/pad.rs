use chip8::keypad::Keypad;

#[test]
fn no_key_down_on_a_new_pad() {
    let keypad = Keypad::new();
    assert_eq!(keypad.get_first_key_down(), None);
}

#[test]
fn first_key_down_is_the_lowest() {
    let mut keypad = Keypad::new();
    keypad.key_down(15);
    assert_eq!(keypad.get_first_key_down(), Some(15));
    keypad.key_down(7);
    assert_eq!(keypad.get_first_key_down(), Some(7));
    keypad.key_down(0);
    assert_eq!(keypad.get_first_key_down(), Some(0));
    keypad.key_up(0);
    keypad.key_up(7);
    assert_eq!(keypad.get_first_key_down(), Some(15));
    keypad.key_up(15);
    assert_eq!(keypad.get_first_key_down(), None);
}

#[test]
fn key_events_touch_one_key_only() {
    let mut keypad = Keypad::new();
    keypad.key_down(4);
    for k in 0..16u8 {
        assert_eq!(keypad.is_key_down(k), k == 4);
    }
    keypad.key_down(4);
    assert!(keypad.is_key_down(4));
    keypad.key_up(9);
    for k in 0..16u8 {
        assert_eq!(keypad.is_key_down(k), k == 4);
    }
    assert_eq!(keypad.keys[4], true);
}
