use chip8::keypad::map_key_to_index;

#[test]
fn keyboard_rows_map_to_the_keypad() {
    let table = [
        ("1", 0x1),
        ("2", 0x2),
        ("3", 0x3),
        ("4", 0xC),
        ("q", 0x4),
        ("w", 0x5),
        ("e", 0x6),
        ("r", 0xD),
        ("a", 0x7),
        ("s", 0x8),
        ("d", 0x9),
        ("f", 0xE),
        ("z", 0xA),
        ("x", 0x0),
        ("c", 0xB),
        ("v", 0xF),
    ];
    for (text, key) in table {
        assert_eq!(map_key_to_index(text), Some(key));
    }
}

#[test]
fn other_keys_map_to_nothing() {
    assert_eq!(map_key_to_index("5"), None);
    assert_eq!(map_key_to_index("Q"), None);
    assert_eq!(map_key_to_index(" "), None);
    assert_eq!(map_key_to_index("\u{e9}"), None);
}

#[test]
fn texts_of_another_length_map_to_nothing() {
    assert_eq!(map_key_to_index(""), None);
    assert_eq!(map_key_to_index("12"), None);
    assert_eq!(map_key_to_index("qq"), None);
}
