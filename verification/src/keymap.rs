//! Keyboard layout mapping between Linux keycodes and human-readable
//! names, for the QWERTY layout. Keycodes stay opaque everywhere else in
//! this crate; only rendering and editing go through this table.

use vstd::prelude::*;
use vstd::string::StrSliceExecFns;
use vstd::string::StringExecFns;

verus! {

/// The table entry at each position: keycode beside its canonical
/// upper-case name.
pub open spec fn qwerty_entry(i: int) -> (u16, Seq<char>) {
    if i == 0 {
        (16u16, "Q"@)
    } else if i == 1 {
        (17u16, "W"@)
    } else if i == 2 {
        (18u16, "E"@)
    } else if i == 3 {
        (19u16, "R"@)
    } else if i == 4 {
        (20u16, "T"@)
    } else if i == 5 {
        (21u16, "Y"@)
    } else if i == 6 {
        (22u16, "U"@)
    } else if i == 7 {
        (23u16, "I"@)
    } else if i == 8 {
        (24u16, "O"@)
    } else if i == 9 {
        (25u16, "P"@)
    } else if i == 10 {
        (30u16, "A"@)
    } else if i == 11 {
        (31u16, "S"@)
    } else if i == 12 {
        (32u16, "D"@)
    } else if i == 13 {
        (33u16, "F"@)
    } else if i == 14 {
        (34u16, "G"@)
    } else if i == 15 {
        (35u16, "H"@)
    } else if i == 16 {
        (36u16, "J"@)
    } else if i == 17 {
        (37u16, "K"@)
    } else if i == 18 {
        (38u16, "L"@)
    } else if i == 19 {
        (44u16, "Z"@)
    } else if i == 20 {
        (45u16, "X"@)
    } else if i == 21 {
        (46u16, "C"@)
    } else if i == 22 {
        (47u16, "V"@)
    } else if i == 23 {
        (48u16, "B"@)
    } else if i == 24 {
        (49u16, "N"@)
    } else if i == 25 {
        (50u16, "M"@)
    } else if i == 26 {
        (2u16, "1"@)
    } else if i == 27 {
        (3u16, "2"@)
    } else if i == 28 {
        (4u16, "3"@)
    } else if i == 29 {
        (5u16, "4"@)
    } else if i == 30 {
        (6u16, "5"@)
    } else if i == 31 {
        (7u16, "6"@)
    } else if i == 32 {
        (8u16, "7"@)
    } else if i == 33 {
        (9u16, "8"@)
    } else if i == 34 {
        (10u16, "9"@)
    } else if i == 35 {
        (11u16, "0"@)
    } else if i == 36 {
        (12u16, "MINUS"@)
    } else if i == 37 {
        (13u16, "EQUAL"@)
    } else if i == 38 {
        (59u16, "F1"@)
    } else if i == 39 {
        (60u16, "F2"@)
    } else if i == 40 {
        (61u16, "F3"@)
    } else if i == 41 {
        (62u16, "F4"@)
    } else if i == 42 {
        (63u16, "F5"@)
    } else if i == 43 {
        (64u16, "F6"@)
    } else if i == 44 {
        (65u16, "F7"@)
    } else if i == 45 {
        (66u16, "F8"@)
    } else if i == 46 {
        (67u16, "F9"@)
    } else if i == 47 {
        (68u16, "F10"@)
    } else if i == 48 {
        (87u16, "F11"@)
    } else if i == 49 {
        (88u16, "F12"@)
    } else if i == 50 {
        (1u16, "ESC"@)
    } else if i == 51 {
        (14u16, "BACKSPACE"@)
    } else if i == 52 {
        (15u16, "TAB"@)
    } else if i == 53 {
        (28u16, "ENTER"@)
    } else if i == 54 {
        (29u16, "CTRL"@)
    } else if i == 55 {
        (42u16, "SHIFT"@)
    } else if i == 56 {
        (54u16, "RIGHTSHIFT"@)
    } else if i == 57 {
        (56u16, "ALT"@)
    } else if i == 58 {
        (57u16, "SPACE"@)
    } else if i == 59 {
        (58u16, "CAPSLOCK"@)
    } else if i == 60 {
        (97u16, "RIGHTCTRL"@)
    } else if i == 61 {
        (100u16, "RIGHTALT"@)
    } else if i == 62 {
        (102u16, "HOME"@)
    } else if i == 63 {
        (103u16, "UP"@)
    } else if i == 64 {
        (104u16, "PAGEUP"@)
    } else if i == 65 {
        (105u16, "LEFT"@)
    } else if i == 66 {
        (106u16, "RIGHT"@)
    } else if i == 67 {
        (107u16, "END"@)
    } else if i == 68 {
        (108u16, "DOWN"@)
    } else if i == 69 {
        (109u16, "PAGEDOWN"@)
    } else if i == 70 {
        (110u16, "INSERT"@)
    } else if i == 71 {
        (111u16, "DELETE"@)
    } else if i == 72 {
        (26u16, "LEFTBRACE"@)
    } else if i == 73 {
        (27u16, "RIGHTBRACE"@)
    } else if i == 74 {
        (39u16, "SEMICOLON"@)
    } else if i == 75 {
        (40u16, "APOSTROPHE"@)
    } else if i == 76 {
        (41u16, "GRAVE"@)
    } else if i == 77 {
        (43u16, "BACKSLASH"@)
    } else if i == 78 {
        (51u16, "COMMA"@)
    } else if i == 79 {
        (52u16, "DOT"@)
    } else if i == 80 {
        (53u16, "SLASH"@)
    } else if i == 81 {
        (55u16, "KPASTERISK"@)
    } else if i == 82 {
        (71u16, "KP7"@)
    } else if i == 83 {
        (72u16, "KP8"@)
    } else if i == 84 {
        (73u16, "KP9"@)
    } else if i == 85 {
        (74u16, "KPMINUS"@)
    } else if i == 86 {
        (75u16, "KP4"@)
    } else if i == 87 {
        (76u16, "KP5"@)
    } else if i == 88 {
        (77u16, "KP6"@)
    } else if i == 89 {
        (78u16, "KPPLUS"@)
    } else if i == 90 {
        (79u16, "KP1"@)
    } else if i == 91 {
        (80u16, "KP2"@)
    } else if i == 92 {
        (81u16, "KP3"@)
    } else if i == 93 {
        (82u16, "KP0"@)
    } else if i == 94 {
        (83u16, "KPDOT"@)
    } else if i == 95 {
        (96u16, "KPENTER"@)
    } else if i == 96 {
        (98u16, "KPSLASH"@)
    } else if i == 97 {
        (272u16, "BTN_LEFT"@)
    } else if i == 98 {
        (273u16, "BTN_RIGHT"@)
    } else {
        (274u16, "BTN_MIDDLE"@)
    }
}

/// The QWERTY table: each keycode beside its canonical upper-case name.
pub open spec fn qwerty_pairs() -> Seq<(u16, Seq<char>)> {
    Seq::new(100, |i: int| qwerty_entry(i))
}

/// The table a sequence of pairs is seen as.
pub open spec fn pairs_view(m: Seq<(u16, &'static str)>) -> Seq<(u16, Seq<char>)> {
    m.map_values(|p: (u16, &'static str)| (p.0, p.1@))
}

/// First name listed for a keycode, if any.
pub open spec fn name_for_code(t: Seq<(u16, Seq<char>)>, code: u16) -> Option<Seq<char>>
    decreases t.len(),
{
    if t.len() == 0 {
        None
    } else if t[0].0 == code {
        Some(t[0].1)
    } else {
        name_for_code(t.drop_first(), code)
    }
}

/// ASCII upper-casing of one character; anything else is left alone.
pub open spec fn ascii_upper_char(c: char) -> char {
    if c == 'a' {
        'A'
    } else if c == 'b' {
        'B'
    } else if c == 'c' {
        'C'
    } else if c == 'd' {
        'D'
    } else if c == 'e' {
        'E'
    } else if c == 'f' {
        'F'
    } else if c == 'g' {
        'G'
    } else if c == 'h' {
        'H'
    } else if c == 'i' {
        'I'
    } else if c == 'j' {
        'J'
    } else if c == 'k' {
        'K'
    } else if c == 'l' {
        'L'
    } else if c == 'm' {
        'M'
    } else if c == 'n' {
        'N'
    } else if c == 'o' {
        'O'
    } else if c == 'p' {
        'P'
    } else if c == 'q' {
        'Q'
    } else if c == 'r' {
        'R'
    } else if c == 's' {
        'S'
    } else if c == 't' {
        'T'
    } else if c == 'u' {
        'U'
    } else if c == 'v' {
        'V'
    } else if c == 'w' {
        'W'
    } else if c == 'x' {
        'X'
    } else if c == 'y' {
        'Y'
    } else if c == 'z' {
        'Z'
    } else {
        c
    }
}

pub open spec fn ascii_upper(s: Seq<char>) -> Seq<char> {
    s.map_values(|c: char| ascii_upper_char(c))
}

/// First keycode whose name matches, ignoring ASCII case.
pub open spec fn code_for_name(t: Seq<(u16, Seq<char>)>, name: Seq<char>) -> Option<u16>
    decreases t.len(),
{
    if t.len() == 0 {
        None
    } else if ascii_upper(name) == ascii_upper(t[0].1) {
        Some(t[0].0)
    } else {
        code_for_name(t.drop_first(), name)
    }
}

/// QWERTY layout: keycode-to-name pairs, in table order.
#[verifier::rlimit(100)]
pub fn get_qwerty_map() -> (m: Vec<(u16, &'static str)>)
    ensures
        pairs_view(m@) == qwerty_pairs(),
{
    let mut m: Vec<(u16, &'static str)> = Vec::new();
    proof {
        assert(pairs_view(m@) =~~= qwerty_pairs().take(0));
    }
    m.push((16, "Q"));
    proof {
        assert(pairs_view(m@) =~~= qwerty_pairs().take(1));
    }
    m.push((17, "W"));
    proof {
        assert(pairs_view(m@) =~~= qwerty_pairs().take(2));
    }
    m.push((18, "E"));
    proof {
        assert(pairs_view(m@) =~~= qwerty_pairs().take(3));
    }
    m.push((19, "R"));
    proof {
        assert(pairs_view(m@) =~~= qwerty_pairs().take(4));
    }
    m.push((20, "T"));
    proof {
        assert(pairs_view(m@) =~~= qwerty_pairs().take(5));
    }
    m.push((21, "Y"));
    proof {
        assert(pairs_view(m@) =~~= qwerty_pairs().take(6));
    }
    m.push((22, "U"));
    proof {
        assert(pairs_view(m@) =~~= qwerty_pairs().take(7));
    }
    m.push((23, "I"));
    proof {
        assert(pairs_view(m@) =~~= qwerty_pairs().take(8));
    }
    m.push((24, "O"));
    proof {
        assert(pairs_view(m@) =~~= qwerty_pairs().take(9));
    }
    m.push((25, "P"));
    proof {
        assert(pairs_view(m@) =~~= qwerty_pairs().take(10));
    }
    m.push((30, "A"));
    proof {
        assert(pairs_view(m@) =~~= qwerty_pairs().take(11));
    }
    m.push((31, "S"));
    proof {
        assert(pairs_view(m@) =~~= qwerty_pairs().take(12));
    }
    m.push((32, "D"));
    proof {
        assert(pairs_view(m@) =~~= qwerty_pairs().take(13));
    }
    m.push((33, "F"));
    proof {
        assert(pairs_view(m@) =~~= qwerty_pairs().take(14));
    }
    m.push((34, "G"));
    proof {
        assert(pairs_view(m@) =~~= qwerty_pairs().take(15));
    }
    m.push((35, "H"));
    proof {
        assert(pairs_view(m@) =~~= qwerty_pairs().take(16));
    }
    m.push((36, "J"));
    proof {
        assert(pairs_view(m@) =~~= qwerty_pairs().take(17));
    }
    m.push((37, "K"));
    proof {
        assert(pairs_view(m@) =~~= qwerty_pairs().take(18));
    }
    m.push((38, "L"));
    proof {
        assert(pairs_view(m@) =~~= qwerty_pairs().take(19));
    }
    m.push((44, "Z"));
    proof {
        assert(pairs_view(m@) =~~= qwerty_pairs().take(20));
    }
    m.push((45, "X"));
    proof {
        assert(pairs_view(m@) =~~= qwerty_pairs().take(21));
    }
    m.push((46, "C"));
    proof {
        assert(pairs_view(m@) =~~= qwerty_pairs().take(22));
    }
    m.push((47, "V"));
    proof {
        assert(pairs_view(m@) =~~= qwerty_pairs().take(23));
    }
    m.push((48, "B"));
    proof {
        assert(pairs_view(m@) =~~= qwerty_pairs().take(24));
    }
    m.push((49, "N"));
    proof {
        assert(pairs_view(m@) =~~= qwerty_pairs().take(25));
    }
    m.push((50, "M"));
    proof {
        assert(pairs_view(m@) =~~= qwerty_pairs().take(26));
    }
    m.push((2, "1"));
    proof {
        assert(pairs_view(m@) =~~= qwerty_pairs().take(27));
    }
    m.push((3, "2"));
    proof {
        assert(pairs_view(m@) =~~= qwerty_pairs().take(28));
    }
    m.push((4, "3"));
    proof {
        assert(pairs_view(m@) =~~= qwerty_pairs().take(29));
    }
    m.push((5, "4"));
    proof {
        assert(pairs_view(m@) =~~= qwerty_pairs().take(30));
    }
    m.push((6, "5"));
    proof {
        assert(pairs_view(m@) =~~= qwerty_pairs().take(31));
    }
    m.push((7, "6"));
    proof {
        assert(pairs_view(m@) =~~= qwerty_pairs().take(32));
    }
    m.push((8, "7"));
    proof {
        assert(pairs_view(m@) =~~= qwerty_pairs().take(33));
    }
    m.push((9, "8"));
    proof {
        assert(pairs_view(m@) =~~= qwerty_pairs().take(34));
    }
    m.push((10, "9"));
    proof {
        assert(pairs_view(m@) =~~= qwerty_pairs().take(35));
    }
    m.push((11, "0"));
    proof {
        assert(pairs_view(m@) =~~= qwerty_pairs().take(36));
    }
    m.push((12, "MINUS"));
    proof {
        assert(pairs_view(m@) =~~= qwerty_pairs().take(37));
    }
    m.push((13, "EQUAL"));
    proof {
        assert(pairs_view(m@) =~~= qwerty_pairs().take(38));
    }
    m.push((59, "F1"));
    proof {
        assert(pairs_view(m@) =~~= qwerty_pairs().take(39));
    }
    m.push((60, "F2"));
    proof {
        assert(pairs_view(m@) =~~= qwerty_pairs().take(40));
    }
    m.push((61, "F3"));
    proof {
        assert(pairs_view(m@) =~~= qwerty_pairs().take(41));
    }
    m.push((62, "F4"));
    proof {
        assert(pairs_view(m@) =~~= qwerty_pairs().take(42));
    }
    m.push((63, "F5"));
    proof {
        assert(pairs_view(m@) =~~= qwerty_pairs().take(43));
    }
    m.push((64, "F6"));
    proof {
        assert(pairs_view(m@) =~~= qwerty_pairs().take(44));
    }
    m.push((65, "F7"));
    proof {
        assert(pairs_view(m@) =~~= qwerty_pairs().take(45));
    }
    m.push((66, "F8"));
    proof {
        assert(pairs_view(m@) =~~= qwerty_pairs().take(46));
    }
    m.push((67, "F9"));
    proof {
        assert(pairs_view(m@) =~~= qwerty_pairs().take(47));
    }
    m.push((68, "F10"));
    proof {
        assert(pairs_view(m@) =~~= qwerty_pairs().take(48));
    }
    m.push((87, "F11"));
    proof {
        assert(pairs_view(m@) =~~= qwerty_pairs().take(49));
    }
    m.push((88, "F12"));
    proof {
        assert(pairs_view(m@) =~~= qwerty_pairs().take(50));
    }
    m.push((1, "ESC"));
    proof {
        assert(pairs_view(m@) =~~= qwerty_pairs().take(51));
    }
    m.push((14, "BACKSPACE"));
    proof {
        assert(pairs_view(m@) =~~= qwerty_pairs().take(52));
    }
    m.push((15, "TAB"));
    proof {
        assert(pairs_view(m@) =~~= qwerty_pairs().take(53));
    }
    m.push((28, "ENTER"));
    proof {
        assert(pairs_view(m@) =~~= qwerty_pairs().take(54));
    }
    m.push((29, "CTRL"));
    proof {
        assert(pairs_view(m@) =~~= qwerty_pairs().take(55));
    }
    m.push((42, "SHIFT"));
    proof {
        assert(pairs_view(m@) =~~= qwerty_pairs().take(56));
    }
    m.push((54, "RIGHTSHIFT"));
    proof {
        assert(pairs_view(m@) =~~= qwerty_pairs().take(57));
    }
    m.push((56, "ALT"));
    proof {
        assert(pairs_view(m@) =~~= qwerty_pairs().take(58));
    }
    m.push((57, "SPACE"));
    proof {
        assert(pairs_view(m@) =~~= qwerty_pairs().take(59));
    }
    m.push((58, "CAPSLOCK"));
    proof {
        assert(pairs_view(m@) =~~= qwerty_pairs().take(60));
    }
    m.push((97, "RIGHTCTRL"));
    proof {
        assert(pairs_view(m@) =~~= qwerty_pairs().take(61));
    }
    m.push((100, "RIGHTALT"));
    proof {
        assert(pairs_view(m@) =~~= qwerty_pairs().take(62));
    }
    m.push((102, "HOME"));
    proof {
        assert(pairs_view(m@) =~~= qwerty_pairs().take(63));
    }
    m.push((103, "UP"));
    proof {
        assert(pairs_view(m@) =~~= qwerty_pairs().take(64));
    }
    m.push((104, "PAGEUP"));
    proof {
        assert(pairs_view(m@) =~~= qwerty_pairs().take(65));
    }
    m.push((105, "LEFT"));
    proof {
        assert(pairs_view(m@) =~~= qwerty_pairs().take(66));
    }
    m.push((106, "RIGHT"));
    proof {
        assert(pairs_view(m@) =~~= qwerty_pairs().take(67));
    }
    m.push((107, "END"));
    proof {
        assert(pairs_view(m@) =~~= qwerty_pairs().take(68));
    }
    m.push((108, "DOWN"));
    proof {
        assert(pairs_view(m@) =~~= qwerty_pairs().take(69));
    }
    m.push((109, "PAGEDOWN"));
    proof {
        assert(pairs_view(m@) =~~= qwerty_pairs().take(70));
    }
    m.push((110, "INSERT"));
    proof {
        assert(pairs_view(m@) =~~= qwerty_pairs().take(71));
    }
    m.push((111, "DELETE"));
    proof {
        assert(pairs_view(m@) =~~= qwerty_pairs().take(72));
    }
    m.push((26, "LEFTBRACE"));
    proof {
        assert(pairs_view(m@) =~~= qwerty_pairs().take(73));
    }
    m.push((27, "RIGHTBRACE"));
    proof {
        assert(pairs_view(m@) =~~= qwerty_pairs().take(74));
    }
    m.push((39, "SEMICOLON"));
    proof {
        assert(pairs_view(m@) =~~= qwerty_pairs().take(75));
    }
    m.push((40, "APOSTROPHE"));
    proof {
        assert(pairs_view(m@) =~~= qwerty_pairs().take(76));
    }
    m.push((41, "GRAVE"));
    proof {
        assert(pairs_view(m@) =~~= qwerty_pairs().take(77));
    }
    m.push((43, "BACKSLASH"));
    proof {
        assert(pairs_view(m@) =~~= qwerty_pairs().take(78));
    }
    m.push((51, "COMMA"));
    proof {
        assert(pairs_view(m@) =~~= qwerty_pairs().take(79));
    }
    m.push((52, "DOT"));
    proof {
        assert(pairs_view(m@) =~~= qwerty_pairs().take(80));
    }
    m.push((53, "SLASH"));
    proof {
        assert(pairs_view(m@) =~~= qwerty_pairs().take(81));
    }
    m.push((55, "KPASTERISK"));
    proof {
        assert(pairs_view(m@) =~~= qwerty_pairs().take(82));
    }
    m.push((71, "KP7"));
    proof {
        assert(pairs_view(m@) =~~= qwerty_pairs().take(83));
    }
    m.push((72, "KP8"));
    proof {
        assert(pairs_view(m@) =~~= qwerty_pairs().take(84));
    }
    m.push((73, "KP9"));
    proof {
        assert(pairs_view(m@) =~~= qwerty_pairs().take(85));
    }
    m.push((74, "KPMINUS"));
    proof {
        assert(pairs_view(m@) =~~= qwerty_pairs().take(86));
    }
    m.push((75, "KP4"));
    proof {
        assert(pairs_view(m@) =~~= qwerty_pairs().take(87));
    }
    m.push((76, "KP5"));
    proof {
        assert(pairs_view(m@) =~~= qwerty_pairs().take(88));
    }
    m.push((77, "KP6"));
    proof {
        assert(pairs_view(m@) =~~= qwerty_pairs().take(89));
    }
    m.push((78, "KPPLUS"));
    proof {
        assert(pairs_view(m@) =~~= qwerty_pairs().take(90));
    }
    m.push((79, "KP1"));
    proof {
        assert(pairs_view(m@) =~~= qwerty_pairs().take(91));
    }
    m.push((80, "KP2"));
    proof {
        assert(pairs_view(m@) =~~= qwerty_pairs().take(92));
    }
    m.push((81, "KP3"));
    proof {
        assert(pairs_view(m@) =~~= qwerty_pairs().take(93));
    }
    m.push((82, "KP0"));
    proof {
        assert(pairs_view(m@) =~~= qwerty_pairs().take(94));
    }
    m.push((83, "KPDOT"));
    proof {
        assert(pairs_view(m@) =~~= qwerty_pairs().take(95));
    }
    m.push((96, "KPENTER"));
    proof {
        assert(pairs_view(m@) =~~= qwerty_pairs().take(96));
    }
    m.push((98, "KPSLASH"));
    proof {
        assert(pairs_view(m@) =~~= qwerty_pairs().take(97));
    }
    m.push((272, "BTN_LEFT"));
    proof {
        assert(pairs_view(m@) =~~= qwerty_pairs().take(98));
    }
    m.push((273, "BTN_RIGHT"));
    proof {
        assert(pairs_view(m@) =~~= qwerty_pairs().take(99));
    }
    m.push((274, "BTN_MIDDLE"));
    proof {
        assert(pairs_view(m@) =~~= qwerty_pairs().take(100));
    }
    proof {
        assert(qwerty_pairs().take(100) =~= qwerty_pairs());
    }
    m
}

/// Reverse pairs: name to keycode, in table order.
pub fn get_qwerty_reverse_map() -> (m: Vec<(&'static str, u16)>)
    ensures
        m@.len() == qwerty_pairs().len(),
        forall|i: int|
            0 <= i < m@.len() ==> (#[trigger] m@[i]).0@ == qwerty_pairs()[i].1 && m@[i].1
                == qwerty_pairs()[i].0,
{
    let fwd = get_qwerty_map();
    let mut m: Vec<(&'static str, u16)> = Vec::new();
    let mut i: usize = 0;
    while i < fwd.len()
        invariant
            0 <= i <= fwd@.len(),
            pairs_view(fwd@) == qwerty_pairs(),
            m@.len() == i,
            forall|j: int|
                0 <= j < i ==> (#[trigger] m@[j]).0@ == qwerty_pairs()[j].1 && m@[j].1
                    == qwerty_pairs()[j].0,
        decreases fwd@.len() - i,
    {
        let p = fwd[i];
        m.push((p.1, p.0));
        i += 1;
    }
    m
}

fn upper_char(c: char) -> (r: char)
    ensures
        r == ascii_upper_char(c),
{
    if c == 'a' {
        'A'
    } else if c == 'b' {
        'B'
    } else if c == 'c' {
        'C'
    } else if c == 'd' {
        'D'
    } else if c == 'e' {
        'E'
    } else if c == 'f' {
        'F'
    } else if c == 'g' {
        'G'
    } else if c == 'h' {
        'H'
    } else if c == 'i' {
        'I'
    } else if c == 'j' {
        'J'
    } else if c == 'k' {
        'K'
    } else if c == 'l' {
        'L'
    } else if c == 'm' {
        'M'
    } else if c == 'n' {
        'N'
    } else if c == 'o' {
        'O'
    } else if c == 'p' {
        'P'
    } else if c == 'q' {
        'Q'
    } else if c == 'r' {
        'R'
    } else if c == 's' {
        'S'
    } else if c == 't' {
        'T'
    } else if c == 'u' {
        'U'
    } else if c == 'v' {
        'V'
    } else if c == 'w' {
        'W'
    } else if c == 'x' {
        'X'
    } else if c == 'y' {
        'Y'
    } else if c == 'z' {
        'Z'
    } else {
        c
    }
}

/// Compare two strings, treating ASCII letters case-insensitively.
fn eq_ignore_ascii_case(a: &str, b: &str) -> (r: bool)
    ensures
        r == (ascii_upper(a@) == ascii_upper(b@)),
{
    let la = a.unicode_len();
    let lb = b.unicode_len();
    if la != lb {
        proof {
            assert(ascii_upper(a@).len() != ascii_upper(b@).len());
        }
        return false;
    }
    let mut i: usize = 0;
    while i < la
        invariant
            0 <= i <= a@.len(),
            la == a@.len(),
            a@.len() == b@.len(),
            forall|j: int| 0 <= j < i ==> ascii_upper_char(a@[j]) == ascii_upper_char(b@[j]),
        decreases a@.len() - i,
    {
        let ca = upper_char(a.get_char(i));
        let cb = upper_char(b.get_char(i));
        if ca != cb {
            proof {
                assert(ascii_upper(a@)[i as int] != ascii_upper(b@)[i as int]);
            }
            return false;
        }
        i += 1;
    }
    proof {
        assert(ascii_upper(a@) =~= ascii_upper(b@));
    }
    true
}

/// Human-readable name for a Linux keycode (QWERTY layout).
pub fn keycode_to_name(keycode: u16) -> (r: Option<String>)
    ensures
        match r {
            Some(name) => name_for_code(qwerty_pairs(), keycode) == Some(name@),
            None => name_for_code(qwerty_pairs(), keycode) is None,
        },
{
    let m = get_qwerty_map();
    let mut i: usize = 0;
    proof {
        assert(qwerty_pairs().skip(0) =~= qwerty_pairs());
    }
    while i < m.len()
        invariant
            0 <= i <= m@.len(),
            pairs_view(m@) == qwerty_pairs(),
            m@.len() == qwerty_pairs().len(),
            name_for_code(qwerty_pairs(), keycode) == name_for_code(
                qwerty_pairs().skip(i as int),
                keycode,
            ),
        decreases m@.len() - i,
    {
        proof {
            assert(qwerty_pairs().skip(i as int)[0] == qwerty_pairs()[i as int]);
            assert(qwerty_pairs()[i as int] == (m@[i as int].0, m@[i as int].1@));
            assert(qwerty_pairs().skip(i as int).drop_first() =~= qwerty_pairs().skip(
                i as int + 1,
            ));
        }
        if m[i].0 == keycode {
            return Some(String::from_str(m[i].1));
        }
        i += 1;
    }
    proof {
        assert(qwerty_pairs().skip(qwerty_pairs().len() as int) =~= Seq::<(
            u16,
            Seq<char>,
        )>::empty());
    }
    None
}

/// Linux keycode for a human-readable name, ignoring ASCII case
/// (QWERTY layout).
pub fn name_to_keycode(name: &str) -> (r: Option<u16>)
    ensures
        r == code_for_name(qwerty_pairs(), name@),
{
    let m = get_qwerty_map();
    let mut i: usize = 0;
    proof {
        assert(qwerty_pairs().skip(0) =~= qwerty_pairs());
    }
    while i < m.len()
        invariant
            0 <= i <= m@.len(),
            pairs_view(m@) == qwerty_pairs(),
            m@.len() == qwerty_pairs().len(),
            code_for_name(qwerty_pairs(), name@) == code_for_name(
                qwerty_pairs().skip(i as int),
                name@,
            ),
        decreases m@.len() - i,
    {
        proof {
            assert(qwerty_pairs().skip(i as int)[0] == qwerty_pairs()[i as int]);
            assert(qwerty_pairs()[i as int] == (m@[i as int].0, m@[i as int].1@));
            assert(qwerty_pairs().skip(i as int).drop_first() =~= qwerty_pairs().skip(
                i as int + 1,
            ));
        }
        if eq_ignore_ascii_case(name, m[i].1) {
            return Some(m[i].0);
        }
        i += 1;
    }
    proof {
        assert(qwerty_pairs().skip(qwerty_pairs().len() as int) =~= Seq::<(
            u16,
            Seq<char>,
        )>::empty());
    }
    None
}

} // verus!
