use chip8::keypad::Keypad;

#[test]
fn set_keys() {
    let mut keypad = Keypad::new();
    for i in 0..16 {
        assert!(!keypad.is_key_down(i));
    }

    keypad.key_down(0);
    keypad.key_down(15);
    assert!(keypad.is_key_down(0));
    assert!(keypad.is_key_down(15));

    keypad.key_up(0);
    keypad.key_down(9);
    assert!(!keypad.is_key_down(0));
    assert!(keypad.is_key_down(9));
    assert!(keypad.is_key_down(15));
}
