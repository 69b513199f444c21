use webhook_relay::text::{blank, decimal_text};

#[test]
fn decimal_text_writes_digits() {
    assert_eq!(decimal_text(0), "0");
    assert_eq!(decimal_text(7), "7");
    assert_eq!(decimal_text(10), "10");
    assert_eq!(decimal_text(8080), "8080");
    assert_eq!(decimal_text(65535), "65535");
}

#[test]
fn blank_knows_white_space() {
    assert!(blank(""));
    assert!(blank("   "));
    assert!(blank(" \t\n\u{3000}"));
    assert!(!blank(" a "));
    assert!(!blank("A"));
}

#[test]
fn blank_takes_each_white_space_character() {
    let white = [
        '\u{9}', '\u{a}', '\u{b}', '\u{c}', '\u{d}', '\u{20}', '\u{85}', '\u{a0}', '\u{1680}',
        '\u{2000}', '\u{2001}', '\u{2002}', '\u{2003}', '\u{2004}', '\u{2005}', '\u{2006}',
        '\u{2007}', '\u{2008}', '\u{2009}', '\u{200a}', '\u{2028}', '\u{2029}', '\u{202f}',
        '\u{205f}', '\u{3000}',
    ];
    for c in white {
        assert!(blank(&c.to_string()), "U+{:04X}", c as u32);
    }
}

#[test]
fn blank_takes_no_other_character() {
    let mut count = 0;
    for u in 0..=0x10FFFFu32 {
        if let Some(c) = char::from_u32(u) {
            let listed = (0x9..=0xD).contains(&u)
                || u == 0x20
                || u == 0x85
                || u == 0xA0
                || u == 0x1680
                || (0x2000..=0x200A).contains(&u)
                || u == 0x2028
                || u == 0x2029
                || u == 0x202F
                || u == 0x205F
                || u == 0x3000;
            assert_eq!(blank(&c.to_string()), listed, "U+{:04X}", u);
            if listed {
                count += 1;
            }
        }
    }
    assert_eq!(count, 25);
}

#[test]
fn blank_refuses_the_neighbours_of_white_space() {
    for c in ['\u{8}', '\u{e}', '\u{1f}', '\u{21}', '\u{180e}', '\u{200b}', '\u{2060}', '\u{feff}'] {
        assert!(!blank(&c.to_string()), "U+{:04X}", c as u32);
    }
}
