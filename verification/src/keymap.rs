//! Human-readable names of evdev key and button codes, and of key
//! combinations.

use vstd::prelude::*;
use vstd::string::*;

use crate::hotkey::modifier_code;
use crate::text::{decimal, decimal_string, join, lemma_decimal};

verus! {

/// The name of a key code that has a fixed name of its own.
pub open spec fn fixed_key_label(code: u16) -> Option<Seq<char>> {
    match code {
        29 | 97 => Some("Ctrl"@),
        42 | 54 => Some("Shift"@),
        56 | 100 => Some("Alt"@),
        125 | 126 => Some("Super"@),
        272 => Some("Left Click"@),
        273 => Some("Right Click"@),
        274 => Some("Middle Click"@),
        275 => Some("Side Click"@),
        276 => Some("Extra Click"@),
        57 => Some("Space"@),
        28 => Some("Enter"@),
        1 => Some("Esc"@),
        14 => Some("Backspace"@),
        15 => Some("Tab"@),
        183 => Some("F13"@),
        184 => Some("F14"@),
        185 => Some("F15"@),
        186 => Some("F16"@),
        187 => Some("F17"@),
        188 => Some("F18"@),
        189 => Some("F19"@),
        190 => Some("F20"@),
        191 => Some("F21"@),
        192 => Some("F22"@),
        193 => Some("F23"@),
        194 => Some("F24"@),
        102 => Some("Home"@),
        107 => Some("End"@),
        104 => Some("Page Up"@),
        109 => Some("Page Down"@),
        110 => Some("Insert"@),
        111 => Some("Delete"@),
        103 => Some("Up Arrow"@),
        108 => Some("Down Arrow"@),
        105 => Some("Left Arrow"@),
        106 => Some("Right Arrow"@),
        69 => Some("Num Lock"@),
        70 => Some("Scroll Lock"@),
        119 => Some("Pause"@),
        73 => Some("Num Clear"@),
        12 => Some("Minus"@),
        13 => Some("Equals"@),
        26 => Some("Left Bracket"@),
        27 => Some("Right Bracket"@),
        39 => Some("Semicolon"@),
        40 => Some("Apostrophe"@),
        41 => Some("Grave"@),
        43 => Some("Backslash"@),
        51 => Some("Comma"@),
        52 => Some("Period"@),
        53 => Some("Slash"@),
        _ => None,
    }
}

/// The letter that a key code types, on a QWERTY layout.
pub open spec fn letter_label(code: u16) -> Option<Seq<char>> {
    match code {
        30 => Some("A"@),
        48 => Some("B"@),
        46 => Some("C"@),
        32 => Some("D"@),
        18 => Some("E"@),
        33 => Some("F"@),
        34 => Some("G"@),
        35 => Some("H"@),
        23 => Some("I"@),
        36 => Some("J"@),
        37 => Some("K"@),
        38 => Some("L"@),
        50 => Some("M"@),
        49 => Some("N"@),
        24 => Some("O"@),
        25 => Some("P"@),
        16 => Some("Q"@),
        19 => Some("R"@),
        31 => Some("S"@),
        20 => Some("T"@),
        22 => Some("U"@),
        47 => Some("V"@),
        17 => Some("W"@),
        45 => Some("X"@),
        21 => Some("Y"@),
        44 => Some("Z"@),
        _ => None,
    }
}

/// The name of a key on the numeric keypad.
pub open spec fn numpad_label(code: u16) -> Option<Seq<char>> {
    match code {
        78 => Some("Numpad +"@),
        74 => Some("Numpad -"@),
        55 => Some("Numpad *"@),
        98 => Some("Numpad /"@),
        96 => Some("Numpad Enter"@),
        83 => Some("Numpad ."@),
        71 => Some("Numpad 7"@),
        72 => Some("Numpad 8"@),
        73 => Some("Numpad 9"@),
        75 => Some("Numpad 4"@),
        76 => Some("Numpad 5"@),
        77 => Some("Numpad 6"@),
        79 => Some("Numpad 1"@),
        80 => Some("Numpad 2"@),
        81 => Some("Numpad 3"@),
        82 => Some("Numpad 0"@),
        _ => None,
    }
}

/// The name shown for a key code: a fixed name, a letter, a digit of the
/// top row, a function key, a keypad key, or else `"Key <code>"`.
pub open spec fn key_label(code: u16) -> Seq<char> {
    if fixed_key_label(code) is Some {
        fixed_key_label(code)->0
    } else if letter_label(code) is Some {
        letter_label(code)->0
    } else if 2 <= code <= 10 {
        decimal((code - 1) as nat)
    } else if code == 11 {
        "0"@
    } else if 59 <= code <= 68 {
        "F"@ + decimal((code - 58) as nat)
    } else if code == 87 {
        "F11"@
    } else if code == 88 {
        "F12"@
    } else if numpad_label(code) is Some {
        numpad_label(code)->0
    } else {
        "Key "@ + decimal(code as nat)
    }
}

fn fixed_key_name(code: u16) -> (r: Option<&'static str>)
    ensures
        match r {
            Some(s) => fixed_key_label(code) == Some(s@),
            None => fixed_key_label(code) is None,
        },
{
    match code {
        29 | 97 => Some("Ctrl"),
        42 | 54 => Some("Shift"),
        56 | 100 => Some("Alt"),
        125 | 126 => Some("Super"),
        272 => Some("Left Click"),
        273 => Some("Right Click"),
        274 => Some("Middle Click"),
        275 => Some("Side Click"),
        276 => Some("Extra Click"),
        57 => Some("Space"),
        28 => Some("Enter"),
        1 => Some("Esc"),
        14 => Some("Backspace"),
        15 => Some("Tab"),
        183 => Some("F13"),
        184 => Some("F14"),
        185 => Some("F15"),
        186 => Some("F16"),
        187 => Some("F17"),
        188 => Some("F18"),
        189 => Some("F19"),
        190 => Some("F20"),
        191 => Some("F21"),
        192 => Some("F22"),
        193 => Some("F23"),
        194 => Some("F24"),
        102 => Some("Home"),
        107 => Some("End"),
        104 => Some("Page Up"),
        109 => Some("Page Down"),
        110 => Some("Insert"),
        111 => Some("Delete"),
        103 => Some("Up Arrow"),
        108 => Some("Down Arrow"),
        105 => Some("Left Arrow"),
        106 => Some("Right Arrow"),
        69 => Some("Num Lock"),
        70 => Some("Scroll Lock"),
        119 => Some("Pause"),
        73 => Some("Num Clear"),
        12 => Some("Minus"),
        13 => Some("Equals"),
        26 => Some("Left Bracket"),
        27 => Some("Right Bracket"),
        39 => Some("Semicolon"),
        40 => Some("Apostrophe"),
        41 => Some("Grave"),
        43 => Some("Backslash"),
        51 => Some("Comma"),
        52 => Some("Period"),
        53 => Some("Slash"),
        _ => None,
    }
}

fn letter_name(code: u16) -> (r: Option<&'static str>)
    ensures
        match r {
            Some(s) => letter_label(code) == Some(s@),
            None => letter_label(code) is None,
        },
{
    match code {
        30 => Some("A"),
        48 => Some("B"),
        46 => Some("C"),
        32 => Some("D"),
        18 => Some("E"),
        33 => Some("F"),
        34 => Some("G"),
        35 => Some("H"),
        23 => Some("I"),
        36 => Some("J"),
        37 => Some("K"),
        38 => Some("L"),
        50 => Some("M"),
        49 => Some("N"),
        24 => Some("O"),
        25 => Some("P"),
        16 => Some("Q"),
        19 => Some("R"),
        31 => Some("S"),
        20 => Some("T"),
        22 => Some("U"),
        47 => Some("V"),
        17 => Some("W"),
        45 => Some("X"),
        21 => Some("Y"),
        44 => Some("Z"),
        _ => None,
    }
}

fn numpad_name(code: u16) -> (r: Option<&'static str>)
    ensures
        match r {
            Some(s) => numpad_label(code) == Some(s@),
            None => numpad_label(code) is None,
        },
{
    match code {
        78 => Some("Numpad +"),
        74 => Some("Numpad -"),
        55 => Some("Numpad *"),
        98 => Some("Numpad /"),
        96 => Some("Numpad Enter"),
        83 => Some("Numpad ."),
        71 => Some("Numpad 7"),
        72 => Some("Numpad 8"),
        73 => Some("Numpad 9"),
        75 => Some("Numpad 4"),
        76 => Some("Numpad 5"),
        77 => Some("Numpad 6"),
        79 => Some("Numpad 1"),
        80 => Some("Numpad 2"),
        81 => Some("Numpad 3"),
        82 => Some("Numpad 0"),
        _ => None,
    }
}

/// The human-readable name of an evdev key or button code.
pub fn key_name(code: u16) -> (name: String)
    ensures
        name@ == key_label(code),
{
    if let Some(s) = fixed_key_name(code) {
        return String::from_str(s);
    }
    if let Some(s) = letter_name(code) {
        return String::from_str(s);
    }
    if 2 <= code && code <= 10 {
        return decimal_string((code - 1) as u64);
    }
    if code == 11 {
        return String::from_str("0");
    }
    if 59 <= code && code <= 68 {
        return String::from_str("F").concat(decimal_string((code - 58) as u64).as_str());
    }
    if code == 87 {
        return String::from_str("F11");
    }
    if code == 88 {
        return String::from_str("F12");
    }
    if let Some(s) = numpad_name(code) {
        return String::from_str(s);
    }
    String::from_str("Key ").concat(decimal_string(code as u64).as_str())
}


/// The place of a key in a combination's name: Ctrl, then Shift, then Alt,
/// then Super, then every other key.
pub open spec fn modifier_rank(code: u16) -> u8 {
    match code {
        29 | 97 => 1,
        42 | 54 => 2,
        56 | 100 => 3,
        125 | 126 => 4,
        _ => 99,
    }
}

/// The keys of `combo` whose rank is `rank`, in their order in `combo`.
pub open spec fn keys_of_rank(combo: Seq<u16>, rank: u8) -> Seq<u16>
    decreases combo.len(),
{
    if combo.len() == 0 {
        Seq::empty()
    } else if modifier_rank(combo.last()) == rank {
        keys_of_rank(combo.drop_last(), rank).push(combo.last())
    } else {
        keys_of_rank(combo.drop_last(), rank)
    }
}

/// The keys of `combo` ordered by rank; keys of equal rank keep their order.
pub open spec fn ordered_by_rank(combo: Seq<u16>) -> Seq<u16> {
    keys_of_rank(combo, 1) + keys_of_rank(combo, 2) + keys_of_rank(combo, 3)
        + keys_of_rank(combo, 4) + keys_of_rank(combo, 99)
}

/// The name of a key combination: `"None"` when it is empty, else the
/// names of its keys, modifiers first, separated by `" + "`.
pub open spec fn combo_label(combo: Seq<u16>) -> Seq<char> {
    if combo.len() == 0 {
        "None"@
    } else {
        join(ordered_by_rank(combo).map_values(|k: u16| key_label(k)), " + "@)
    }
}

/// The rank of a key code, as `modifier_rank` states it.
pub fn rank_of(code: u16) -> (r: u8)
    ensures
        r == modifier_rank(code),
{
    match code {
        29 | 97 => 1,
        42 | 54 => 2,
        56 | 100 => 3,
        125 | 126 => 4,
        _ => 99,
    }
}

/// Appends to `out` the keys of `combo` whose rank is `rank`, in order.
fn push_keys_of_rank(combo: &Vec<u16>, rank: u8, out: &mut Vec<u16>)
    ensures
        final(out)@ == old(out)@ + keys_of_rank(combo@, rank),
{
    let ghost start = out@;
    let mut i: usize = 0;
    while i < combo.len()
        invariant
            i <= combo.len(),
            out@ == start + keys_of_rank(combo@.take(i as int), rank),
        decreases combo.len() - i,
    {
        assert(combo@.take(i + 1).drop_last() =~= combo@.take(i as int));
        assert(combo@.take(i + 1).last() == combo@[i as int]);
        if rank_of(combo[i]) == rank {
            out.push(combo[i]);
            assert(out@ =~= start + keys_of_rank(combo@.take(i + 1), rank));
        }
        i = i + 1;
    }
    assert(combo@.take(combo.len() as int) =~= combo@);
}

/// The human-readable name of a key combination, modifiers first, e.g.
/// `"Ctrl + Shift + E"`; `"None"` for the empty combination.
pub fn combo_name(combo: &Vec<u16>) -> (name: String)
    ensures
        name@ == combo_label(combo@),
{
    if combo.len() == 0 {
        return String::from_str("None");
    }
    let mut sorted: Vec<u16> = Vec::new();
    push_keys_of_rank(combo, 1, &mut sorted);
    push_keys_of_rank(combo, 2, &mut sorted);
    push_keys_of_rank(combo, 3, &mut sorted);
    push_keys_of_rank(combo, 4, &mut sorted);
    push_keys_of_rank(combo, 99, &mut sorted);
    assert(sorted@ =~= ordered_by_rank(combo@));
    let ghost labels = sorted@.map_values(|k: u16| key_label(k));
    let mut name = String::new();
    let mut i: usize = 0;
    while i < sorted.len()
        invariant
            i <= sorted.len(),
            labels == sorted@.map_values(|k: u16| key_label(k)),
            name@ == join(labels.take(i as int), " + "@),
        decreases sorted.len() - i,
    {
        let part = key_name(sorted[i]);
        proof {
            assert(labels.take(i + 1).drop_last() =~= labels.take(i as int));
            assert(labels.take(i + 1).last() == key_label(sorted@[i as int]));
            if i == 0 {
                assert(labels.take(0) =~= Seq::<Seq<char>>::empty());
            }
        }
        if i > 0 {
            name.append(" + ");
        }
        name.append(part.as_str());
        i = i + 1;
    }
    assert(labels.take(sorted.len() as int) =~= labels);
    name
}


proof fn lemma_decimal_short(n: nat)
    requires
        n < 10,
    ensures
        decimal(n).len() == 1,
{
}

/// Length and first characters of the fixed key names.
proof fn lemma_label_literals()
    ensures
        "0"@.len() == 1 && "0"@[0] == '0',
        "A"@.len() == 1 && "A"@[0] == 'A',
        "Alt"@.len() == 3 && "Alt"@[0] == 'A' && "Alt"@[1] == 'l',
        "Apostrophe"@.len() == 10 && "Apostrophe"@[0] == 'A' && "Apostrophe"@[1] == 'p',
        "B"@.len() == 1 && "B"@[0] == 'B',
        "Backslash"@.len() == 9 && "Backslash"@[0] == 'B' && "Backslash"@[1] == 'a',
        "Backspace"@.len() == 9 && "Backspace"@[0] == 'B' && "Backspace"@[1] == 'a',
        "C"@.len() == 1 && "C"@[0] == 'C',
        "Comma"@.len() == 5 && "Comma"@[0] == 'C' && "Comma"@[1] == 'o',
        "Ctrl"@.len() == 4 && "Ctrl"@[0] == 'C' && "Ctrl"@[1] == 't',
        "D"@.len() == 1 && "D"@[0] == 'D',
        "Delete"@.len() == 6 && "Delete"@[0] == 'D' && "Delete"@[1] == 'e',
        "Down Arrow"@.len() == 10 && "Down Arrow"@[0] == 'D' && "Down Arrow"@[1] == 'o',
        "E"@.len() == 1 && "E"@[0] == 'E',
        "End"@.len() == 3 && "End"@[0] == 'E' && "End"@[1] == 'n',
        "Enter"@.len() == 5 && "Enter"@[0] == 'E' && "Enter"@[1] == 'n',
        "Equals"@.len() == 6 && "Equals"@[0] == 'E' && "Equals"@[1] == 'q',
        "Esc"@.len() == 3 && "Esc"@[0] == 'E' && "Esc"@[1] == 's',
        "Extra Click"@.len() == 11 && "Extra Click"@[0] == 'E' && "Extra Click"@[1] == 'x',
        "F"@.len() == 1 && "F"@[0] == 'F',
        "F11"@.len() == 3 && "F11"@[0] == 'F' && "F11"@[1] == '1',
        "F12"@.len() == 3 && "F12"@[0] == 'F' && "F12"@[1] == '1',
        "F13"@.len() == 3 && "F13"@[0] == 'F' && "F13"@[1] == '1',
        "F14"@.len() == 3 && "F14"@[0] == 'F' && "F14"@[1] == '1',
        "F15"@.len() == 3 && "F15"@[0] == 'F' && "F15"@[1] == '1',
        "F16"@.len() == 3 && "F16"@[0] == 'F' && "F16"@[1] == '1',
        "F17"@.len() == 3 && "F17"@[0] == 'F' && "F17"@[1] == '1',
        "F18"@.len() == 3 && "F18"@[0] == 'F' && "F18"@[1] == '1',
        "F19"@.len() == 3 && "F19"@[0] == 'F' && "F19"@[1] == '1',
        "F20"@.len() == 3 && "F20"@[0] == 'F' && "F20"@[1] == '2',
        "F21"@.len() == 3 && "F21"@[0] == 'F' && "F21"@[1] == '2',
        "F22"@.len() == 3 && "F22"@[0] == 'F' && "F22"@[1] == '2',
        "F23"@.len() == 3 && "F23"@[0] == 'F' && "F23"@[1] == '2',
        "F24"@.len() == 3 && "F24"@[0] == 'F' && "F24"@[1] == '2',
        "G"@.len() == 1 && "G"@[0] == 'G',
        "Grave"@.len() == 5 && "Grave"@[0] == 'G' && "Grave"@[1] == 'r',
        "H"@.len() == 1 && "H"@[0] == 'H',
        "Home"@.len() == 4 && "Home"@[0] == 'H' && "Home"@[1] == 'o',
        "I"@.len() == 1 && "I"@[0] == 'I',
        "Insert"@.len() == 6 && "Insert"@[0] == 'I' && "Insert"@[1] == 'n',
        "J"@.len() == 1 && "J"@[0] == 'J',
        "K"@.len() == 1 && "K"@[0] == 'K',
        "L"@.len() == 1 && "L"@[0] == 'L',
        "Left Arrow"@.len() == 10 && "Left Arrow"@[0] == 'L' && "Left Arrow"@[1] == 'e',
        "Left Bracket"@.len() == 12 && "Left Bracket"@[0] == 'L' && "Left Bracket"@[1] == 'e',
        "Left Click"@.len() == 10 && "Left Click"@[0] == 'L' && "Left Click"@[1] == 'e',
        "M"@.len() == 1 && "M"@[0] == 'M',
        "Middle Click"@.len() == 12 && "Middle Click"@[0] == 'M' && "Middle Click"@[1] == 'i',
        "Minus"@.len() == 5 && "Minus"@[0] == 'M' && "Minus"@[1] == 'i',
        "N"@.len() == 1 && "N"@[0] == 'N',
        "None"@.len() == 4 && "None"@[0] == 'N' && "None"@[1] == 'o',
        "Num Clear"@.len() == 9 && "Num Clear"@[0] == 'N' && "Num Clear"@[1] == 'u',
        "Num Lock"@.len() == 8 && "Num Lock"@[0] == 'N' && "Num Lock"@[1] == 'u',
        "Numpad *"@.len() == 8 && "Numpad *"@[0] == 'N' && "Numpad *"@[1] == 'u',
        "Numpad +"@.len() == 8 && "Numpad +"@[0] == 'N' && "Numpad +"@[1] == 'u',
        "Numpad -"@.len() == 8 && "Numpad -"@[0] == 'N' && "Numpad -"@[1] == 'u',
        "Numpad ."@.len() == 8 && "Numpad ."@[0] == 'N' && "Numpad ."@[1] == 'u',
        "Numpad /"@.len() == 8 && "Numpad /"@[0] == 'N' && "Numpad /"@[1] == 'u',
        "Numpad 0"@.len() == 8 && "Numpad 0"@[0] == 'N' && "Numpad 0"@[1] == 'u',
        "Numpad 1"@.len() == 8 && "Numpad 1"@[0] == 'N' && "Numpad 1"@[1] == 'u',
        "Numpad 2"@.len() == 8 && "Numpad 2"@[0] == 'N' && "Numpad 2"@[1] == 'u',
        "Numpad 3"@.len() == 8 && "Numpad 3"@[0] == 'N' && "Numpad 3"@[1] == 'u',
        "Numpad 4"@.len() == 8 && "Numpad 4"@[0] == 'N' && "Numpad 4"@[1] == 'u',
        "Numpad 5"@.len() == 8 && "Numpad 5"@[0] == 'N' && "Numpad 5"@[1] == 'u',
        "Numpad 6"@.len() == 8 && "Numpad 6"@[0] == 'N' && "Numpad 6"@[1] == 'u',
        "Numpad 7"@.len() == 8 && "Numpad 7"@[0] == 'N' && "Numpad 7"@[1] == 'u',
        "Numpad 8"@.len() == 8 && "Numpad 8"@[0] == 'N' && "Numpad 8"@[1] == 'u',
        "Numpad 9"@.len() == 8 && "Numpad 9"@[0] == 'N' && "Numpad 9"@[1] == 'u',
        "Numpad Enter"@.len() == 12 && "Numpad Enter"@[0] == 'N' && "Numpad Enter"@[1] == 'u',
        "O"@.len() == 1 && "O"@[0] == 'O',
        "P"@.len() == 1 && "P"@[0] == 'P',
        "Page Down"@.len() == 9 && "Page Down"@[0] == 'P' && "Page Down"@[1] == 'a',
        "Page Up"@.len() == 7 && "Page Up"@[0] == 'P' && "Page Up"@[1] == 'a',
        "Pause"@.len() == 5 && "Pause"@[0] == 'P' && "Pause"@[1] == 'a',
        "Period"@.len() == 6 && "Period"@[0] == 'P' && "Period"@[1] == 'e',
        "Q"@.len() == 1 && "Q"@[0] == 'Q',
        "R"@.len() == 1 && "R"@[0] == 'R',
        "Right Arrow"@.len() == 11 && "Right Arrow"@[0] == 'R' && "Right Arrow"@[1] == 'i',
        "Right Bracket"@.len() == 13 && "Right Bracket"@[0] == 'R' && "Right Bracket"@[1] == 'i',
        "Right Click"@.len() == 11 && "Right Click"@[0] == 'R' && "Right Click"@[1] == 'i',
        "S"@.len() == 1 && "S"@[0] == 'S',
        "Scroll Lock"@.len() == 11 && "Scroll Lock"@[0] == 'S' && "Scroll Lock"@[1] == 'c',
        "Semicolon"@.len() == 9 && "Semicolon"@[0] == 'S' && "Semicolon"@[1] == 'e',
        "Shift"@.len() == 5 && "Shift"@[0] == 'S' && "Shift"@[1] == 'h',
        "Side Click"@.len() == 10 && "Side Click"@[0] == 'S' && "Side Click"@[1] == 'i',
        "Slash"@.len() == 5 && "Slash"@[0] == 'S' && "Slash"@[1] == 'l',
        "Space"@.len() == 5 && "Space"@[0] == 'S' && "Space"@[1] == 'p',
        "Super"@.len() == 5 && "Super"@[0] == 'S' && "Super"@[1] == 'u',
        "T"@.len() == 1 && "T"@[0] == 'T',
        "Tab"@.len() == 3 && "Tab"@[0] == 'T' && "Tab"@[1] == 'a',
        "U"@.len() == 1 && "U"@[0] == 'U',
        "Up Arrow"@.len() == 8 && "Up Arrow"@[0] == 'U' && "Up Arrow"@[1] == 'p',
        "V"@.len() == 1 && "V"@[0] == 'V',
        "W"@.len() == 1 && "W"@[0] == 'W',
        "X"@.len() == 1 && "X"@[0] == 'X',
        "Y"@.len() == 1 && "Y"@[0] == 'Y',
        "Z"@.len() == 1 && "Z"@[0] == 'Z',
{
    reveal_strlit("0");
    reveal_strlit("A");
    reveal_strlit("Alt");
    reveal_strlit("Apostrophe");
    reveal_strlit("B");
    reveal_strlit("Backslash");
    reveal_strlit("Backspace");
    reveal_strlit("C");
    reveal_strlit("Comma");
    reveal_strlit("Ctrl");
    reveal_strlit("D");
    reveal_strlit("Delete");
    reveal_strlit("Down Arrow");
    reveal_strlit("E");
    reveal_strlit("End");
    reveal_strlit("Enter");
    reveal_strlit("Equals");
    reveal_strlit("Esc");
    reveal_strlit("Extra Click");
    reveal_strlit("F");
    reveal_strlit("F11");
    reveal_strlit("F12");
    reveal_strlit("F13");
    reveal_strlit("F14");
    reveal_strlit("F15");
    reveal_strlit("F16");
    reveal_strlit("F17");
    reveal_strlit("F18");
    reveal_strlit("F19");
    reveal_strlit("F20");
    reveal_strlit("F21");
    reveal_strlit("F22");
    reveal_strlit("F23");
    reveal_strlit("F24");
    reveal_strlit("G");
    reveal_strlit("Grave");
    reveal_strlit("H");
    reveal_strlit("Home");
    reveal_strlit("I");
    reveal_strlit("Insert");
    reveal_strlit("J");
    reveal_strlit("K");
    reveal_strlit("L");
    reveal_strlit("Left Arrow");
    reveal_strlit("Left Bracket");
    reveal_strlit("Left Click");
    reveal_strlit("M");
    reveal_strlit("Middle Click");
    reveal_strlit("Minus");
    reveal_strlit("N");
    reveal_strlit("None");
    reveal_strlit("Num Clear");
    reveal_strlit("Num Lock");
    reveal_strlit("Numpad *");
    reveal_strlit("Numpad +");
    reveal_strlit("Numpad -");
    reveal_strlit("Numpad .");
    reveal_strlit("Numpad /");
    reveal_strlit("Numpad 0");
    reveal_strlit("Numpad 1");
    reveal_strlit("Numpad 2");
    reveal_strlit("Numpad 3");
    reveal_strlit("Numpad 4");
    reveal_strlit("Numpad 5");
    reveal_strlit("Numpad 6");
    reveal_strlit("Numpad 7");
    reveal_strlit("Numpad 8");
    reveal_strlit("Numpad 9");
    reveal_strlit("Numpad Enter");
    reveal_strlit("O");
    reveal_strlit("P");
    reveal_strlit("Page Down");
    reveal_strlit("Page Up");
    reveal_strlit("Pause");
    reveal_strlit("Period");
    reveal_strlit("Q");
    reveal_strlit("R");
    reveal_strlit("Right Arrow");
    reveal_strlit("Right Bracket");
    reveal_strlit("Right Click");
    reveal_strlit("S");
    reveal_strlit("Scroll Lock");
    reveal_strlit("Semicolon");
    reveal_strlit("Shift");
    reveal_strlit("Side Click");
    reveal_strlit("Slash");
    reveal_strlit("Space");
    reveal_strlit("Super");
    reveal_strlit("T");
    reveal_strlit("Tab");
    reveal_strlit("U");
    reveal_strlit("Up Arrow");
    reveal_strlit("V");
    reveal_strlit("W");
    reveal_strlit("X");
    reveal_strlit("Y");
    reveal_strlit("Z");
}

/// The letter keys follow the three letter rows of the QWERTY keyboard, in
/// evdev's order: `Q` to `P` from code 16, `A` to `L` from code 30 and `Z`
/// to `M` from code 44, each key named by its one letter.
pub proof fn lemma_letter_rows()
    ensures
        forall|i: int|
            0 <= i < 10 ==> #[trigger] key_label((16 + i) as u16) == seq!["QWERTYUIOP"@[i]],
        forall|i: int|
            0 <= i < 9 ==> #[trigger] key_label((30 + i) as u16) == seq!["ASDFGHJKL"@[i]],
        forall|i: int|
            0 <= i < 7 ==> #[trigger] key_label((44 + i) as u16) == seq!["ZXCVBNM"@[i]],
{
    lemma_label_literals();
    reveal_strlit("QWERTYUIOP");
    reveal_strlit("ASDFGHJKL");
    reveal_strlit("ZXCVBNM");
    assert forall|i: int| 0 <= i < 10 implies #[trigger] key_label((16 + i) as u16) == seq![
        "QWERTYUIOP"@[i],
    ] by {
        assert(key_label((16 + i) as u16) =~= seq!["QWERTYUIOP"@[i]]);
    }
    assert forall|i: int| 0 <= i < 9 implies #[trigger] key_label((30 + i) as u16) == seq![
        "ASDFGHJKL"@[i],
    ] by {
        assert(key_label((30 + i) as u16) =~= seq!["ASDFGHJKL"@[i]]);
    }
    assert forall|i: int| 0 <= i < 7 implies #[trigger] key_label((44 + i) as u16) == seq![
        "ZXCVBNM"@[i],
    ] by {
        assert(key_label((44 + i) as u16) =~= seq!["ZXCVBNM"@[i]]);
    }
}

/// The top row of digits runs `1` to `9` then `0` from code 2; `F1` to
/// `F10` run from code 59, `F11` and `F12` are codes 87 and 88, and `F13`
/// to `F24` run from code 183; each function key is named `F` and its
/// number.
pub proof fn lemma_number_keys()
    ensures
        forall|i: int|
            0 <= i < 10 ==> #[trigger] key_label((2 + i) as u16) == seq!["1234567890"@[i]],
        forall|i: int|
            0 <= i < 10 ==> #[trigger] key_label((59 + i) as u16) == "F"@ + decimal((i + 1) as nat),
        key_label(87) == "F"@ + decimal(11),
        key_label(88) == "F"@ + decimal(12),
        forall|i: int|
            0 <= i < 12 ==> #[trigger] key_label((183 + i) as u16) == "F"@ + decimal((i + 13) as nat),
{
    lemma_label_literals();
    reveal_strlit("1234567890");
    reveal_strlit("F");
    reveal_with_fuel(decimal, 2);
    assert forall|i: int| 0 <= i < 10 implies #[trigger] key_label((2 + i) as u16) == seq![
        "1234567890"@[i],
    ] by {
        assert(key_label((2 + i) as u16) =~= seq!["1234567890"@[i]]);
    }
    reveal_strlit("F11");
    reveal_strlit("F12");
    assert(key_label(87) =~= "F"@ + decimal(11));
    assert(key_label(88) =~= "F"@ + decimal(12));
    reveal_strlit("F13");
    reveal_strlit("F14");
    reveal_strlit("F15");
    reveal_strlit("F16");
    reveal_strlit("F17");
    reveal_strlit("F18");
    reveal_strlit("F19");
    reveal_strlit("F20");
    reveal_strlit("F21");
    reveal_strlit("F22");
    reveal_strlit("F23");
    reveal_strlit("F24");
    assert forall|i: int| 0 <= i < 12 implies #[trigger] key_label((183 + i) as u16) == "F"@ + decimal(
        (i + 13) as nat,
    ) by {
        assert(key_label((183 + i) as u16) =~= "F"@ + decimal((i + 13) as nat));
    }
}

/// The numeric keypad: its digit rows `7 8 (9)`, `4 5 6` and `1 2 3` run
/// from codes 71, 75 and 79, `0` and `.` are codes 82 and 83, and its
/// operators and Enter have their own codes; each is named `Numpad ` and
/// its sign. Code 73, the keypad's `9`, is named `Num Clear`, as on
/// keyboards that put Clear there.
pub proof fn lemma_keypad_keys()
    ensures
        forall|i: int| 0 <= i < 2 ==> #[trigger] key_label((71 + i) as u16) == "Numpad "@ + seq!["78"@[i]],
        key_label(73) == "Num Clear"@,
        forall|i: int|
            0 <= i < 3 ==> #[trigger] key_label((75 + i) as u16) == "Numpad "@ + seq!["456"@[i]],
        forall|i: int|
            0 <= i < 3 ==> #[trigger] key_label((79 + i) as u16) == "Numpad "@ + seq!["123"@[i]],
        key_label(82) == "Numpad "@ + "0"@,
        key_label(83) == "Numpad "@ + "."@,
        key_label(78) == "Numpad "@ + "+"@,
        key_label(74) == "Numpad "@ + "-"@,
        key_label(55) == "Numpad "@ + "*"@,
        key_label(98) == "Numpad "@ + "/"@,
        key_label(96) == "Numpad "@ + "Enter"@,
{
    reveal_strlit("Numpad ");
    reveal_strlit("78");
    reveal_strlit("456");
    reveal_strlit("123");
    reveal_strlit("0");
    reveal_strlit(".");
    reveal_strlit("+");
    reveal_strlit("-");
    reveal_strlit("*");
    reveal_strlit("/");
    reveal_strlit("Enter");
    reveal_strlit("Numpad 7");
    reveal_strlit("Numpad 8");
    reveal_strlit("Numpad 4");
    reveal_strlit("Numpad 5");
    reveal_strlit("Numpad 6");
    reveal_strlit("Numpad 1");
    reveal_strlit("Numpad 2");
    reveal_strlit("Numpad 3");
    reveal_strlit("Numpad 0");
    reveal_strlit("Numpad .");
    reveal_strlit("Numpad +");
    reveal_strlit("Numpad -");
    reveal_strlit("Numpad *");
    reveal_strlit("Numpad /");
    reveal_strlit("Numpad Enter");
    assert forall|i: int| 0 <= i < 2 implies #[trigger] key_label((71 + i) as u16) == "Numpad "@ + seq![
        "78"@[i],
    ] by {
        assert(key_label((71 + i) as u16) =~= "Numpad "@ + seq!["78"@[i]]);
    }
    assert forall|i: int| 0 <= i < 3 implies #[trigger] key_label((75 + i) as u16) == "Numpad "@ + seq![
        "456"@[i],
    ] by {
        assert(key_label((75 + i) as u16) =~= "Numpad "@ + seq!["456"@[i]]);
    }
    assert forall|i: int| 0 <= i < 3 implies #[trigger] key_label((79 + i) as u16) == "Numpad "@ + seq![
        "123"@[i],
    ] by {
        assert(key_label((79 + i) as u16) =~= "Numpad "@ + seq!["123"@[i]]);
    }
    assert(key_label(82) =~= "Numpad "@ + "0"@);
    assert(key_label(83) =~= "Numpad "@ + "."@);
    assert(key_label(78) =~= "Numpad "@ + "+"@);
    assert(key_label(74) =~= "Numpad "@ + "-"@);
    assert(key_label(55) =~= "Numpad "@ + "*"@);
    assert(key_label(98) =~= "Numpad "@ + "/"@);
    assert(key_label(96) =~= "Numpad "@ + "Enter"@);
}

/// The other named keys follow their evdev codes: the left and right
/// modifier of each kind share its name; the mouse buttons from code 272
/// are the left, right, middle, side and extra clicks; the navigation
/// block from code 102 runs Home, Up, Page Up, Left, Right, End, Down,
/// Page Down, Insert, Delete; and the punctuation, editing and lock keys
/// each have their own name.
pub proof fn lemma_named_keys()
    ensures
        key_label(29) == "Ctrl"@ && key_label(97) == "Ctrl"@,
        key_label(42) == "Shift"@ && key_label(54) == "Shift"@,
        key_label(56) == "Alt"@ && key_label(100) == "Alt"@,
        key_label(125) == "Super"@ && key_label(126) == "Super"@,
        forall|i: int|
            0 <= i < 5 ==> #[trigger] key_label((272 + i) as u16) == seq![
                "Left"@,
                "Right"@,
                "Middle"@,
                "Side"@,
                "Extra"@,
            ][i] + " Click"@,
        forall|i: int|
            0 <= i < 10 ==> #[trigger] key_label((102 + i) as u16) == seq![
                "Home"@,
                "Up Arrow"@,
                "Page Up"@,
                "Left Arrow"@,
                "Right Arrow"@,
                "End"@,
                "Down Arrow"@,
                "Page Down"@,
                "Insert"@,
                "Delete"@,
            ][i],
        key_label(1) == "Esc"@,
        key_label(12) == "Minus"@,
        key_label(13) == "Equals"@,
        key_label(14) == "Backspace"@,
        key_label(15) == "Tab"@,
        key_label(26) == "Left Bracket"@,
        key_label(27) == "Right Bracket"@,
        key_label(28) == "Enter"@,
        key_label(39) == "Semicolon"@,
        key_label(40) == "Apostrophe"@,
        key_label(41) == "Grave"@,
        key_label(43) == "Backslash"@,
        key_label(51) == "Comma"@,
        key_label(52) == "Period"@,
        key_label(53) == "Slash"@,
        key_label(57) == "Space"@,
        key_label(69) == "Num Lock"@,
        key_label(70) == "Scroll Lock"@,
        key_label(119) == "Pause"@,
{
    reveal_strlit(" Click");
    reveal_strlit("Left");
    reveal_strlit("Right");
    reveal_strlit("Middle");
    reveal_strlit("Side");
    reveal_strlit("Extra");
    reveal_strlit("Left Click");
    reveal_strlit("Right Click");
    reveal_strlit("Middle Click");
    reveal_strlit("Side Click");
    reveal_strlit("Extra Click");
    assert forall|i: int| 0 <= i < 5 implies #[trigger] key_label((272 + i) as u16) == seq![
        "Left"@,
        "Right"@,
        "Middle"@,
        "Side"@,
        "Extra"@,
    ][i] + " Click"@ by {
        assert(key_label((272 + i) as u16) =~= seq!["Left"@, "Right"@, "Middle"@, "Side"@, "Extra"@][i]
            + " Click"@);
    }
}

/// Whether `name` is one of the modifier names.
pub open spec fn modifier_name(name: Seq<char>) -> bool {
    name == "Ctrl"@ || name == "Shift"@ || name == "Alt"@ || name == "Super"@
}

/// Exactly the eight modifier codes are named Ctrl, Shift, Alt or Super.
pub proof fn lemma_modifier_names(code: u16)
    ensures
        modifier_name(key_label(code)) <==> modifier_code(code),
        modifier_rank(code) < 99 <==> modifier_code(code),
{
    lemma_label_literals();
    reveal_strlit("F");
    reveal_strlit("Key ");
    if fixed_key_label(code) is Some {
        assert(modifier_name(key_label(code)) <==> modifier_code(code));
    } else if letter_label(code) is Some {
        assert(!modifier_name(key_label(code)));
    } else if 2 <= code <= 10 {
        lemma_decimal_short((code - 1) as nat);
        assert(!modifier_name(key_label(code)));
    } else if code == 11 {
        assert(!modifier_name(key_label(code)));
    } else if 59 <= code <= 68 {
        crate::text::lemma_decimal((code - 58) as nat);
        assert(("F"@ + decimal((code - 58) as nat))[0] == 'F');
        assert(!modifier_name(key_label(code)));
    } else if code == 87 || code == 88 {
        assert(!modifier_name(key_label(code)));
    } else if numpad_label(code) is Some {
        assert(!modifier_name(key_label(code)));
    } else {
        crate::text::lemma_decimal(code as nat);
        assert(("Key "@ + decimal(code as nat))[0] == 'K');
        assert(!modifier_name(key_label(code)));
    }
}


/// The codes that have a name of their own; every other code is named
/// `"Key <code>"`.
pub open spec fn named_code(code: u16) -> bool {
    ||| 1 <= code <= 57
    ||| 59 <= code <= 83
    ||| 87 <= code <= 88
    ||| 96 <= code <= 98
    ||| code == 100
    ||| 102 <= code <= 111
    ||| code == 119
    ||| 125 <= code <= 126
    ||| 183 <= code <= 194
    ||| 272 <= code <= 276
}

/// The codes with a name of their own get a non-empty name that does not
/// start with `"Key "`, and every other code is named `"Key <code>"`.
pub proof fn lemma_fallback_names(code: u16)
    ensures
        named_code(code) ==> key_label(code).len() > 0 && !"Key "@.is_prefix_of(key_label(code)),
        !named_code(code) ==> key_label(code) == "Key "@ + decimal(code as nat),
{
    lemma_label_literals();
    reveal_strlit("F");
    reveal_strlit("Key ");
    assert("Key "@[0] == 'K');
    if named_code(code) {
        let label = key_label(code);
        if fixed_key_label(code) is Some || letter_label(code) is Some || numpad_label(code) is Some
            || code == 11 || code == 87 || code == 88 {
        } else if 2 <= code <= 10 {
            lemma_decimal_short((code - 1) as nat);
        } else {
            assert(59 <= code <= 68);
            lemma_decimal((code - 58) as nat);
            assert(("F"@ + decimal((code - 58) as nat))[0] == 'F');
        }
        assert(label.len() > 0);
        if "Key "@.is_prefix_of(label) {
            assert(label[0] == "Key "@[0]);
        }
    }
}

/// No key is named `"None"`.
pub proof fn lemma_no_key_named_none(code: u16)
    ensures
        key_label(code) != "None"@,
        key_label(code).len() > 0,
{
    lemma_label_literals();
    lemma_fallback_names(code);
    reveal_strlit("Key ");
    if !named_code(code) {
        lemma_decimal(code as nat);
        assert(("Key "@ + decimal(code as nat))[0] == 'K');
    } else if 2 <= code <= 10 {
        lemma_decimal_short((code - 1) as nat);
    } else if 59 <= code <= 68 && fixed_key_label(code) is None && letter_label(code) is None {
        reveal_strlit("F");
        lemma_decimal((code - 58) as nat);
        assert(("F"@ + decimal((code - 58) as nat))[0] == 'F');
    }
}

proof fn lemma_join_len(parts: Seq<Seq<char>>)
    requires
        parts.len() > 0,
        forall|i: int| 0 <= i < parts.len() ==> #[trigger] parts[i].len() > 0,
    ensures
        join(parts, " + "@).len() > 0,
        parts.len() >= 2 ==> join(parts, " + "@).len() >= 5,
    decreases parts.len(),
{
    reveal_strlit(" + ");
    if parts.len() >= 2 {
        let front = parts.drop_last();
        assert forall|i: int| 0 <= i < front.len() implies #[trigger] front[i].len() > 0 by {
            assert(front[i] == parts[i]);
        }
        lemma_join_len(front);
        assert(parts.last() == parts[parts.len() - 1]);
    } else {
        assert(parts[0].len() > 0);
    }
}


/// Whether the keys of `s` come in order of rank.
pub open spec fn rank_sorted(s: Seq<u16>) -> bool {
    forall|i: int, j: int| 0 <= i < j < s.len() ==> modifier_rank(s[i]) <= modifier_rank(s[j])
}

/// Whether `s` is `combo` sorted by rank with a stable sort: its keys come
/// in order of rank, and the keys of each rank are those of `combo`, in
/// the same order.
pub open spec fn stable_rank_sort_of(s: Seq<u16>, combo: Seq<u16>) -> bool {
    &&& rank_sorted(s)
    &&& forall|r: u8| #[trigger] keys_of_rank(s, r) == keys_of_rank(combo, r)
}

proof fn lemma_rank_values(k: u16)
    ensures
        modifier_rank(k) == 1 || modifier_rank(k) == 2 || modifier_rank(k) == 3
            || modifier_rank(k) == 4 || modifier_rank(k) == 99,
{
}

proof fn lemma_keys_of_rank_add(a: Seq<u16>, b: Seq<u16>, r: u8)
    ensures
        keys_of_rank(a + b, r) == keys_of_rank(a, r) + keys_of_rank(b, r),
    decreases b.len(),
{
    if b.len() == 0 {
        assert(a + b =~= a);
        assert(keys_of_rank(a, r) + keys_of_rank(b, r) =~= keys_of_rank(a, r));
    } else {
        lemma_keys_of_rank_add(a, b.drop_last(), r);
        assert((a + b).drop_last() =~= a + b.drop_last());
        assert((a + b).last() == b.last());
        if modifier_rank(b.last()) == r {
            assert(keys_of_rank(a, r) + keys_of_rank(b.drop_last(), r).push(b.last()) =~= (
            keys_of_rank(a, r) + keys_of_rank(b.drop_last(), r)).push(b.last()));
        }
    }
}

proof fn lemma_keys_of_rank_have_rank(s: Seq<u16>, r: u8)
    ensures
        forall|i: int| 0 <= i < keys_of_rank(s, r).len() ==> modifier_rank(#[trigger] keys_of_rank(s, r)[i]) == r,
        keys_of_rank(s, r).len() <= s.len(),
    decreases s.len(),
{
    if s.len() > 0 {
        lemma_keys_of_rank_have_rank(s.drop_last(), r);
    }
}

proof fn lemma_keys_of_rank_uniform(s: Seq<u16>, r: u8)
    ensures
        (forall|i: int| 0 <= i < s.len() ==> modifier_rank(#[trigger] s[i]) == r) ==> keys_of_rank(s, r) == s,
        (forall|i: int| 0 <= i < s.len() ==> modifier_rank(#[trigger] s[i]) != r) ==> keys_of_rank(s, r)
            == Seq::<u16>::empty(),
    decreases s.len(),
{
    if s.len() > 0 {
        let t = s.drop_last();
        lemma_keys_of_rank_uniform(t, r);
        assert(s.last() == s[s.len() - 1]);
        if forall|i: int| 0 <= i < s.len() ==> modifier_rank(#[trigger] s[i]) == r {
            assert(forall|i: int| 0 <= i < t.len() ==> modifier_rank(#[trigger] t[i]) == r) by {
                assert forall|i: int| 0 <= i < t.len() implies modifier_rank(#[trigger] t[i]) == r by {
                    assert(t[i] == s[i]);
                }
            }
            assert(t.push(s.last()) =~= s);
        }
        if forall|i: int| 0 <= i < s.len() ==> modifier_rank(#[trigger] s[i]) != r {
            assert forall|i: int| 0 <= i < t.len() implies modifier_rank(#[trigger] t[i]) != r by {
                assert(t[i] == s[i]);
            }
        }
    }
}

proof fn lemma_keys_of_rank_count(s: Seq<u16>, r: u8, x: u16)
    ensures
        keys_of_rank(s, r).to_multiset().count(x) == if modifier_rank(x) == r {
            s.to_multiset().count(x)
        } else {
            0
        },
    decreases s.len(),
{
    broadcast use vstd::seq_lib::group_to_multiset_ensures;
    broadcast use vstd::multiset::group_multiset_axioms;

    if s.len() == 0 {
        assert(keys_of_rank(s, r) =~= Seq::<u16>::empty());
        assert(s =~= Seq::<u16>::empty());
    } else {
        let t = s.drop_last();
        lemma_keys_of_rank_count(t, r, x);
        assert(t.push(s.last()) =~= s);
    }
}

/// Keys of each rank that two combinations of the same keys hold are the
/// same keys too.
proof fn lemma_keys_of_rank_permutation(a: Seq<u16>, b: Seq<u16>, r: u8)
    requires
        a.to_multiset() == b.to_multiset(),
    ensures
        keys_of_rank(a, r).to_multiset() == keys_of_rank(b, r).to_multiset(),
        keys_of_rank(a, r).len() == keys_of_rank(b, r).len(),
{
    broadcast use vstd::seq_lib::group_to_multiset_ensures;

    assert forall|x: u16| keys_of_rank(a, r).to_multiset().count(x) == keys_of_rank(b, r).to_multiset().count(x) by {
        lemma_keys_of_rank_count(a, r, x);
        lemma_keys_of_rank_count(b, r, x);
    }
    assert(keys_of_rank(a, r).to_multiset() =~= keys_of_rank(b, r).to_multiset());
    assert(keys_of_rank(a, r).to_multiset().len() == keys_of_rank(a, r).len());
    assert(keys_of_rank(b, r).to_multiset().len() == keys_of_rank(b, r).len());
}

/// Ordering by rank keeps the keys of the combination: it is a
/// permutation of it.
pub proof fn lemma_ordered_by_rank_permutes(combo: Seq<u16>)
    ensures
        ordered_by_rank(combo).to_multiset() == combo.to_multiset(),
        ordered_by_rank(combo).len() == combo.len(),
{
    broadcast use vstd::seq_lib::group_to_multiset_ensures;
    broadcast use vstd::multiset::group_multiset_axioms;
    broadcast use vstd::seq_lib::lemma_multiset_commutative;

    let b1 = keys_of_rank(combo, 1);
    let b2 = keys_of_rank(combo, 2);
    let b3 = keys_of_rank(combo, 3);
    let b4 = keys_of_rank(combo, 4);
    let b5 = keys_of_rank(combo, 99);
    assert forall|x: u16| ordered_by_rank(combo).to_multiset().count(x) == combo.to_multiset().count(x) by {
        lemma_keys_of_rank_count(combo, 1, x);
        lemma_keys_of_rank_count(combo, 2, x);
        lemma_keys_of_rank_count(combo, 3, x);
        lemma_keys_of_rank_count(combo, 4, x);
        lemma_keys_of_rank_count(combo, 99, x);
        lemma_rank_values(x);
        assert((b1 + b2 + b3 + b4 + b5).to_multiset() == (b1 + b2 + b3 + b4).to_multiset().add(b5.to_multiset()));
        assert((b1 + b2 + b3 + b4).to_multiset() == (b1 + b2 + b3).to_multiset().add(b4.to_multiset()));
        assert((b1 + b2 + b3).to_multiset() == (b1 + b2).to_multiset().add(b3.to_multiset()));
        assert((b1 + b2).to_multiset() == b1.to_multiset().add(b2.to_multiset()));
    }
    assert(ordered_by_rank(combo).to_multiset() =~= combo.to_multiset());
    assert(ordered_by_rank(combo).to_multiset().len() == ordered_by_rank(combo).len());
    assert(combo.to_multiset().len() == combo.len());
}

/// Taking the keys of one rank from the combination ordered by rank gives
/// the keys of that rank of the combination.
proof fn lemma_ranks_of_ordered(combo: Seq<u16>, r: u8)
    ensures
        keys_of_rank(ordered_by_rank(combo), r) == keys_of_rank(combo, r),
{
    let b1 = keys_of_rank(combo, 1);
    let b2 = keys_of_rank(combo, 2);
    let b3 = keys_of_rank(combo, 3);
    let b4 = keys_of_rank(combo, 4);
    let b5 = keys_of_rank(combo, 99);
    lemma_keys_of_rank_add(b1 + b2 + b3 + b4, b5, r);
    lemma_keys_of_rank_add(b1 + b2 + b3, b4, r);
    lemma_keys_of_rank_add(b1 + b2, b3, r);
    lemma_keys_of_rank_add(b1, b2, r);
    let rs: Seq<u8> = seq![1u8, 2u8, 3u8, 4u8, 99u8];
    assert forall|k: int| 0 <= k < 5 implies #[trigger] keys_of_rank(keys_of_rank(combo, rs[k]), r) == if rs[k] == r {
        keys_of_rank(combo, r)
    } else {
        Seq::<u16>::empty()
    } by {
        let b = keys_of_rank(combo, rs[k]);
        lemma_keys_of_rank_have_rank(combo, rs[k]);
        lemma_keys_of_rank_uniform(b, r);
    }
    assert(keys_of_rank(b1, r) == keys_of_rank(keys_of_rank(combo, rs[0]), r));
    assert(keys_of_rank(b2, r) == keys_of_rank(keys_of_rank(combo, rs[1]), r));
    assert(keys_of_rank(b3, r) == keys_of_rank(keys_of_rank(combo, rs[2]), r));
    assert(keys_of_rank(b4, r) == keys_of_rank(keys_of_rank(combo, rs[3]), r));
    assert(keys_of_rank(b5, r) == keys_of_rank(keys_of_rank(combo, rs[4]), r));
    if r != 1 && r != 2 && r != 3 && r != 4 && r != 99 {
        assert forall|i: int| 0 <= i < combo.len() implies modifier_rank(#[trigger] combo[i]) != r by {
            lemma_rank_values(combo[i]);
        }
        lemma_keys_of_rank_uniform(combo, r);
    }
    assert(keys_of_rank(ordered_by_rank(combo), r) =~= keys_of_rank(combo, r));
}

/// The combination ordered by rank has its keys in order of rank.
proof fn lemma_ordered_is_rank_sorted(combo: Seq<u16>)
    ensures
        rank_sorted(ordered_by_rank(combo)),
{
    let b1 = keys_of_rank(combo, 1);
    let b2 = keys_of_rank(combo, 2);
    let b3 = keys_of_rank(combo, 3);
    let b4 = keys_of_rank(combo, 4);
    let b5 = keys_of_rank(combo, 99);
    lemma_keys_of_rank_have_rank(combo, 1);
    lemma_keys_of_rank_have_rank(combo, 2);
    lemma_keys_of_rank_have_rank(combo, 3);
    lemma_keys_of_rank_have_rank(combo, 4);
    lemma_keys_of_rank_have_rank(combo, 99);
    let o = ordered_by_rank(combo);
    let n1 = b1.len() as int;
    let n2 = n1 + b2.len();
    let n3 = n2 + b3.len();
    let n4 = n3 + b4.len();
    assert forall|i: int| 0 <= i < o.len() implies #[trigger] modifier_rank(o[i]) == if i < n1 {
        1u8
    } else if i < n2 {
        2u8
    } else if i < n3 {
        3u8
    } else if i < n4 {
        4u8
    } else {
        99u8
    } by {
        if i < n1 {
            assert(o[i] == b1[i]);
        } else if i < n2 {
            assert(o[i] == b2[i - n1]);
        } else if i < n3 {
            assert(o[i] == b3[i - n2]);
        } else if i < n4 {
            assert(o[i] == b4[i - n3]);
        } else {
            assert(o[i] == b5[i - n4]);
        }
    }
}

/// A combination whose keys already come in order of rank is left as it
/// is by ordering it by rank.
proof fn lemma_rank_sorted_fixed(s: Seq<u16>)
    requires
        rank_sorted(s),
    ensures
        ordered_by_rank(s) == s,
    decreases s.len(),
{
    if s.len() == 0 {
        assert(ordered_by_rank(s) =~= s);
    } else {
        let t = s.drop_last();
        let x = s.last();
        let big = modifier_rank(x);
        assert(rank_sorted(t)) by {
            assert forall|i: int, j: int| 0 <= i < j < t.len() implies modifier_rank(t[i]) <= modifier_rank(t[j]) by {
                assert(t[i] == s[i] && t[j] == s[j]);
            }
        }
        lemma_rank_sorted_fixed(t);
        assert forall|i: int| 0 <= i < t.len() implies modifier_rank(#[trigger] t[i]) <= big by {
            assert(t[i] == s[i]);
            assert(x == s[s.len() - 1]);
        }
        let rs: Seq<u8> = seq![1u8, 2u8, 3u8, 4u8, 99u8];
        assert forall|k: int| 0 <= k < 5 && rs[k] > big implies #[trigger] keys_of_rank(t, rs[k]) == Seq::<u16>::empty() by {
            lemma_keys_of_rank_uniform(t, rs[k]);
            assert forall|i: int| 0 <= i < t.len() implies modifier_rank(#[trigger] t[i]) != rs[k] by {
                assert(modifier_rank(t[i]) <= big);
            }
        }
        lemma_rank_values(x);
        assert(keys_of_rank(t, 1) == keys_of_rank(t, rs[0]));
        assert(keys_of_rank(t, 2) == keys_of_rank(t, rs[1]));
        assert(keys_of_rank(t, 3) == keys_of_rank(t, rs[2]));
        assert(keys_of_rank(t, 4) == keys_of_rank(t, rs[3]));
        assert(keys_of_rank(t, 99) == keys_of_rank(t, rs[4]));
        assert(s.drop_last() == t);
        assert(ordered_by_rank(s) =~= ordered_by_rank(t).push(x));
        assert(t.push(x) =~= s);
    }
}

/// Ordering by rank is a stable sort by rank: the ordered combination is
/// such a sort, and any stable sort by rank of the combination is the
/// ordered combination. Either way it holds the same keys.
pub proof fn lemma_stable_sort_by_rank(combo: Seq<u16>, s: Seq<u16>)
    ensures
        stable_rank_sort_of(ordered_by_rank(combo), combo),
        ordered_by_rank(combo).to_multiset() == combo.to_multiset(),
        stable_rank_sort_of(s, combo) ==> s == ordered_by_rank(combo),
{
    lemma_ordered_by_rank_permutes(combo);
    lemma_ordered_is_rank_sorted(combo);
    assert forall|r: u8| #[trigger] keys_of_rank(ordered_by_rank(combo), r) == keys_of_rank(combo, r) by {
        lemma_ranks_of_ordered(combo, r);
    }
    if stable_rank_sort_of(s, combo) {
        lemma_rank_sorted_fixed(s);
        assert(keys_of_rank(s, 1) == keys_of_rank(combo, 1));
        assert(keys_of_rank(s, 2) == keys_of_rank(combo, 2));
        assert(keys_of_rank(s, 3) == keys_of_rank(combo, 3));
        assert(keys_of_rank(s, 4) == keys_of_rank(combo, 4));
        assert(keys_of_rank(s, 99) == keys_of_rank(combo, 99));
    }
}

/// The name of a non-empty combination is the names of the keys of its
/// stable sort by rank, joined by `" + "`.
pub proof fn lemma_combo_label_is_stable_sort(combo: Seq<u16>, s: Seq<u16>)
    requires
        combo.len() > 0,
        stable_rank_sort_of(s, combo),
    ensures
        combo_label(combo) == join(s.map_values(|k: u16| key_label(k)), " + "@),
        s.to_multiset() == combo.to_multiset(),
{
    lemma_stable_sort_by_rank(combo, s);
}

proof fn lemma_labels_add(a: Seq<u16>, b: Seq<u16>)
    ensures
        (a + b).map_values(|k: u16| key_label(k)) == a.map_values(|k: u16| key_label(k)) + b.map_values(
            |k: u16| key_label(k),
        ),
{
    assert((a + b).map_values(|k: u16| key_label(k)) =~= a.map_values(|k: u16| key_label(k)) + b.map_values(
        |k: u16| key_label(k),
    ));
}

/// All keys of one modifier rank share a name.
proof fn lemma_rank_label(k: u16)
    ensures
        modifier_rank(k) == 1 ==> key_label(k) == "Ctrl"@,
        modifier_rank(k) == 2 ==> key_label(k) == "Shift"@,
        modifier_rank(k) == 3 ==> key_label(k) == "Alt"@,
        modifier_rank(k) == 4 ==> key_label(k) == "Super"@,
{
}

/// The keys of one rank of two combinations of the same keys are named
/// alike, when the rank is a modifier's or holds at most one key.
proof fn lemma_rank_labels_agree(a: Seq<u16>, b: Seq<u16>, r: u8)
    requires
        a.to_multiset() == b.to_multiset(),
        r != 99 || keys_of_rank(a, r).len() <= 1,
    ensures
        keys_of_rank(a, r).map_values(|k: u16| key_label(k)) == keys_of_rank(b, r).map_values(
            |k: u16| key_label(k),
        ),
{
    broadcast use vstd::seq_lib::group_to_multiset_ensures;

    let ka = keys_of_rank(a, r);
    let kb = keys_of_rank(b, r);
    lemma_keys_of_rank_permutation(a, b, r);
    lemma_keys_of_rank_have_rank(a, r);
    lemma_keys_of_rank_have_rank(b, r);
    if r != 99 {
        assert forall|i: int| 0 <= i < ka.len() implies key_label(ka[i]) == key_label(kb[i]) by {
            lemma_rank_label(ka[i]);
            lemma_rank_label(kb[i]);
            lemma_rank_values(ka[i]);
        }
    } else if ka.len() == 1 {
        assert(ka.to_multiset().count(ka[0]) > 0);
        assert(kb.contains(ka[0]));
        assert(kb[0] == ka[0]);
    }
    assert(ka.map_values(|k: u16| key_label(k)) =~= kb.map_values(|k: u16| key_label(k)));
}

/// Rearranging a combination that holds at most one key that is not a
/// modifier does not change its name: modifiers of one rank share a name.
pub proof fn lemma_combo_label_permutation(combo: Seq<u16>, p: Seq<u16>)
    requires
        p.to_multiset() == combo.to_multiset(),
        keys_of_rank(combo, 99).len() <= 1,
    ensures
        combo_label(p) == combo_label(combo),
{
    broadcast use vstd::seq_lib::group_to_multiset_ensures;

    assert(p.to_multiset().len() == p.len());
    assert(combo.to_multiset().len() == combo.len());
    lemma_keys_of_rank_permutation(combo, p, 99);
    lemma_rank_labels_agree(p, combo, 1);
    lemma_rank_labels_agree(p, combo, 2);
    lemma_rank_labels_agree(p, combo, 3);
    lemma_rank_labels_agree(p, combo, 4);
    lemma_rank_labels_agree(p, combo, 99);
    let x = p;
    let y = combo;
    lemma_labels_add(keys_of_rank(x, 1) + keys_of_rank(x, 2) + keys_of_rank(x, 3) + keys_of_rank(x, 4), keys_of_rank(x, 99));
    lemma_labels_add(keys_of_rank(x, 1) + keys_of_rank(x, 2) + keys_of_rank(x, 3), keys_of_rank(x, 4));
    lemma_labels_add(keys_of_rank(x, 1) + keys_of_rank(x, 2), keys_of_rank(x, 3));
    lemma_labels_add(keys_of_rank(x, 1), keys_of_rank(x, 2));
    lemma_labels_add(keys_of_rank(y, 1) + keys_of_rank(y, 2) + keys_of_rank(y, 3) + keys_of_rank(y, 4), keys_of_rank(y, 99));
    lemma_labels_add(keys_of_rank(y, 1) + keys_of_rank(y, 2) + keys_of_rank(y, 3), keys_of_rank(y, 4));
    lemma_labels_add(keys_of_rank(y, 1) + keys_of_rank(y, 2), keys_of_rank(y, 3));
    lemma_labels_add(keys_of_rank(y, 1), keys_of_rank(y, 2));
    assert(ordered_by_rank(p).map_values(|k: u16| key_label(k)) == ordered_by_rank(combo).map_values(
        |k: u16| key_label(k),
    ));
}

/// A one-key combination is named like its key, and a non-empty
/// combination is never named `"None"`.
pub proof fn lemma_combo_label_basics(code: u16, combo: Seq<u16>)
    ensures
        combo_label(seq![code]) == key_label(code),
        combo.len() > 0 ==> combo_label(combo) != "None"@,
{
    reveal_strlit("None");
    let one = seq![code];
    assert forall|r: u8| #[trigger] keys_of_rank(one, r) == if modifier_rank(code) == r {
        one
    } else {
        Seq::<u16>::empty()
    } by {
        assert(one.drop_last() =~= Seq::<u16>::empty());
        assert(one.last() == code);
        assert(keys_of_rank(Seq::<u16>::empty(), r) == Seq::<u16>::empty());
        assert(Seq::<u16>::empty().push(code) =~= one);
    }
    let r = modifier_rank(code);
    assert(ordered_by_rank(one) =~= one);
    assert(one.map_values(|k: u16| key_label(k)) =~= seq![key_label(code)]);
    if combo.len() > 0 {
        let ordered = ordered_by_rank(combo);
        lemma_ordered_by_rank_permutes(combo);
        let labels = ordered.map_values(|k: u16| key_label(k));
        assert forall|i: int| 0 <= i < labels.len() implies #[trigger] labels[i].len() > 0 by {
            lemma_no_key_named_none(ordered[i]);
        }
        lemma_join_len(labels);
        if labels.len() == 1 {
            lemma_no_key_named_none(ordered[0]);
            assert(join(labels, " + "@) == key_label(ordered[0]));
        } else {
            assert("None"@.len() == 4);
        }
    }
}

/// Where a key's name goes in a combination's name: Ctrl first, then
/// Shift, Alt and Super, then any other key.
pub open spec fn name_place(name: Seq<char>) -> int {
    if name == "Ctrl"@ {
        1
    } else if name == "Shift"@ {
        2
    } else if name == "Alt"@ {
        3
    } else if name == "Super"@ {
        4
    } else {
        5
    }
}

proof fn lemma_place_of_key(code: u16)
    ensures
        name_place(key_label(code)) == if modifier_rank(code) < 99 {
            modifier_rank(code) as int
        } else {
            5
        },
{
    lemma_modifier_names(code);
    lemma_label_literals();
    if !modifier_code(code) {
        assert(!modifier_name(key_label(code)));
        assert(name_place(key_label(code)) == 5);
    } else if code == 29 || code == 97 {
        assert(key_label(code) == "Ctrl"@);
    } else if code == 42 || code == 54 {
        assert(key_label(code) == "Shift"@);
        assert("Shift"@ != "Ctrl"@);
    } else if code == 56 || code == 100 {
        assert(key_label(code) == "Alt"@);
        assert("Alt"@ != "Ctrl"@ && "Alt"@ != "Shift"@);
    } else {
        assert(key_label(code) == "Super"@);
        assert("Super"@ != "Ctrl"@ && "Super"@ != "Shift"@ && "Super"@ != "Alt"@);
    }
}

proof fn lemma_keys_of_rank_pair(a: u16, b: u16, r: u8)
    ensures
        keys_of_rank(seq![a, b], r) == if modifier_rank(a) == r && modifier_rank(b) == r {
            seq![a, b]
        } else if modifier_rank(a) == r {
            seq![a]
        } else if modifier_rank(b) == r {
            seq![b]
        } else {
            Seq::<u16>::empty()
        },
{
    assert(seq![a, b].drop_last() =~= seq![a]);
    assert(seq![a].drop_last() =~= Seq::<u16>::empty());
    assert(Seq::<u16>::empty().push(a) =~= seq![a]);
    assert(Seq::<u16>::empty().push(b) =~= seq![b]);
    assert(seq![a].push(b) =~= seq![a, b]);
    assert(keys_of_rank(Seq::<u16>::empty(), r) == Seq::<u16>::empty());
    assert(keys_of_rank(seq![a], r) == if modifier_rank(a) == r {
        seq![a]
    } else {
        Seq::<u16>::empty()
    });
}

/// No hotkey is named `"None"`; two keys are named in the order Ctrl,
/// Shift, Alt, Super, then other keys, joined by `" + "`, and two keys
/// of the same place keep the order in which they were given.
pub proof fn lemma_two_key_names(a: u16, b: u16)
    ensures
        combo_label(Seq::<u16>::empty()) == "None"@,
        name_place(key_label(a)) <= name_place(key_label(b)) ==> combo_label(seq![a, b]) == key_label(a)
            + " + "@ + key_label(b),
        name_place(key_label(a)) > name_place(key_label(b)) ==> combo_label(seq![a, b]) == key_label(b)
            + " + "@ + key_label(a),
{
    lemma_place_of_key(a);
    lemma_place_of_key(b);
    lemma_keys_of_rank_pair(a, b, 1);
    lemma_keys_of_rank_pair(a, b, 2);
    lemma_keys_of_rank_pair(a, b, 3);
    lemma_keys_of_rank_pair(a, b, 4);
    lemma_keys_of_rank_pair(a, b, 99);
    lemma_rank_values(a);
    lemma_rank_values(b);
    let ordered = ordered_by_rank(seq![a, b]);
    let (x, y) = if modifier_rank(a) <= modifier_rank(b) {
        (a, b)
    } else {
        (b, a)
    };
    assert(ordered =~= seq![x, y]);
    let labels = ordered.map_values(|k: u16| key_label(k));
    assert(labels =~= seq![key_label(x), key_label(y)]);
    assert(labels.drop_last() =~= seq![key_label(x)]);
    assert(join(labels, " + "@) == join(labels.drop_last(), " + "@) + " + "@ + key_label(y));
    assert(join(seq![key_label(x)], " + "@) == key_label(x));
    assert(combo_label(seq![a, b]) == key_label(x) + " + "@ + key_label(y));
}

} // verus!
