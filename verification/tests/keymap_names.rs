use autoclicker::keymap::{combo_name, key_name, rank_of};

#[test]
fn names_modifiers() {
    assert_eq!(key_name(29), "Ctrl");
    assert_eq!(key_name(97), "Ctrl");
    assert_eq!(key_name(42), "Shift");
    assert_eq!(key_name(54), "Shift");
    assert_eq!(key_name(56), "Alt");
    assert_eq!(key_name(100), "Alt");
    assert_eq!(key_name(125), "Super");
    assert_eq!(key_name(126), "Super");
}

#[test]
fn names_mouse_buttons() {
    assert_eq!(key_name(272), "Left Click");
    assert_eq!(key_name(273), "Right Click");
    assert_eq!(key_name(274), "Middle Click");
    assert_eq!(key_name(275), "Side Click");
    assert_eq!(key_name(276), "Extra Click");
}

#[test]
fn names_letters() {
    assert_eq!(key_name(30), "A");
    assert_eq!(key_name(48), "B");
    assert_eq!(key_name(18), "E");
    assert_eq!(key_name(16), "Q");
    assert_eq!(key_name(44), "Z");
}

#[test]
fn names_top_row_digits() {
    assert_eq!(key_name(2), "1");
    assert_eq!(key_name(10), "9");
    assert_eq!(key_name(11), "0");
}

#[test]
fn names_function_keys() {
    assert_eq!(key_name(59), "F1");
    assert_eq!(key_name(68), "F10");
    assert_eq!(key_name(87), "F11");
    assert_eq!(key_name(88), "F12");
    assert_eq!(key_name(183), "F13");
    assert_eq!(key_name(194), "F24");
}

#[test]
fn names_keypad() {
    assert_eq!(key_name(78), "Numpad +");
    assert_eq!(key_name(74), "Numpad -");
    assert_eq!(key_name(55), "Numpad *");
    assert_eq!(key_name(98), "Numpad /");
    assert_eq!(key_name(96), "Numpad Enter");
    assert_eq!(key_name(83), "Numpad .");
    assert_eq!(key_name(71), "Numpad 7");
    assert_eq!(key_name(72), "Numpad 8");
    assert_eq!(key_name(75), "Numpad 4");
    assert_eq!(key_name(82), "Numpad 0");
}

#[test]
fn num_clear_takes_precedence_over_keypad_nine() {
    assert_eq!(key_name(73), "Num Clear");
}

#[test]
fn names_other_named_keys() {
    assert_eq!(key_name(57), "Space");
    assert_eq!(key_name(28), "Enter");
    assert_eq!(key_name(1), "Esc");
    assert_eq!(key_name(14), "Backspace");
    assert_eq!(key_name(15), "Tab");
    assert_eq!(key_name(104), "Page Up");
    assert_eq!(key_name(106), "Right Arrow");
    assert_eq!(key_name(53), "Slash");
}

#[test]
fn unknown_codes_fall_back_to_number() {
    assert_eq!(key_name(0), "Key 0");
    assert_eq!(key_name(200), "Key 200");
    assert_eq!(key_name(65535), "Key 65535");
    assert_eq!(key_name(1000), "Key 1000");
}

#[test]
fn empty_combo_is_none() {
    assert_eq!(combo_name(&vec![]), "None");
}

#[test]
fn combo_puts_modifiers_first() {
    assert_eq!(combo_name(&vec![18, 29]), "Ctrl + E");
    assert_eq!(combo_name(&vec![18, 42, 29]), "Ctrl + Shift + E");
    assert_eq!(combo_name(&vec![30, 125, 56, 42, 29]), "Ctrl + Shift + Alt + Super + A");
}

#[test]
fn combo_keeps_order_within_a_rank() {
    assert_eq!(combo_name(&vec![97, 29, 48, 30]), "Ctrl + Ctrl + B + A");
    assert_eq!(combo_name(&vec![272]), "Left Click");
}

#[test]
fn ranks() {
    assert_eq!(rank_of(29), 1);
    assert_eq!(rank_of(54), 2);
    assert_eq!(rank_of(100), 3);
    assert_eq!(rank_of(126), 4);
    assert_eq!(rank_of(30), 99);
}

#[test]
fn codes_without_a_name_fall_back() {
    for code in [58u16, 84, 85, 86, 89, 95, 99, 101, 112, 118, 120, 124, 127, 182, 195, 271, 277] {
        assert_eq!(key_name(code), format!("Key {}", code));
    }
}

#[test]
fn only_modifier_codes_have_modifier_names() {
    for code in 0..=u16::MAX {
        let name = key_name(code);
        let is_mod_name = ["Ctrl", "Shift", "Alt", "Super"].contains(&name.as_str());
        assert_eq!(is_mod_name, [29u16, 97, 42, 54, 56, 100, 125, 126].contains(&code), "{}", code);
        assert_ne!(name, "None");
    }
}

#[test]
fn one_key_combo_is_named_like_the_key() {
    for code in [0u16, 18, 29, 272, 4000] {
        assert_eq!(combo_name(&vec![code]), key_name(code));
    }
}

#[test]
fn rearranged_modifiers_keep_the_name() {
    assert_eq!(combo_name(&vec![18, 97, 42]), combo_name(&vec![42, 29, 18]));
    assert_eq!(combo_name(&vec![125, 56, 272]), combo_name(&vec![272, 56, 125]));
}

#[test]
fn name_follows_stable_sort_by_rank() {
    let combo = vec![30, 97, 48, 42, 29];
    let mut sorted = combo.clone();
    sorted.sort_by_key(|&k| rank_of(k));
    let expected = sorted.iter().map(|c| key_name(*c)).collect::<Vec<String>>().join(" + ");
    assert_eq!(combo_name(&combo), expected);
}
