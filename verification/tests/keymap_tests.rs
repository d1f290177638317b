use macro_states::keymap::{get_qwerty_map, get_qwerty_reverse_map, keycode_to_name, name_to_keycode};

#[test]
fn test_keycode_to_name() {
    assert_eq!(keycode_to_name(17), Some("W".to_string()));
    assert_eq!(keycode_to_name(30), Some("A".to_string()));
    assert_eq!(keycode_to_name(57), Some("SPACE".to_string()));
}

#[test]
fn test_name_to_keycode() {
    assert_eq!(name_to_keycode("W"), Some(17));
    assert_eq!(name_to_keycode("w"), Some(17)); // Case insensitive
    assert_eq!(name_to_keycode("SPACE"), Some(57));
    assert_eq!(name_to_keycode("INVALID"), None);
}

#[test]
fn test_roundtrip() {
    let keycode = 17;
    let name = keycode_to_name(keycode).unwrap();
    assert_eq!(name_to_keycode(&name), Some(keycode));
}

#[test]
fn test_unknown_keycode_has_no_name() {
    assert_eq!(keycode_to_name(999), None);
    assert_eq!(keycode_to_name(0), None);
}

#[test]
fn test_mixed_case_and_underscore_names() {
    assert_eq!(name_to_keycode("btn_left"), Some(272));
    assert_eq!(name_to_keycode("BackSpace"), Some(14));
    assert_eq!(name_to_keycode(""), None);
}

#[test]
fn test_maps_agree() {
    let fwd = get_qwerty_map();
    let rev = get_qwerty_reverse_map();
    assert_eq!(fwd.len(), 100);
    assert_eq!(rev.len(), 100);
    for (i, (code, name)) in fwd.iter().enumerate() {
        assert_eq!(rev[i], (*name, *code));
    }
}
