use dwmblocksrs::color::{colored, Color, SegmentColoring};

#[test]
fn test() {
    let c = Color::Colored(2);
    assert_eq!(colored("test", c), "\x02test\x01");
}

#[test]
fn uncolored_text_is_unchanged() {
    assert_eq!(colored("plain", Color::Uncolored), "plain");
    assert_eq!(colored("", Color::Colored(7)), "\x07\x01");
}

#[test]
fn high_color_byte_is_one_character() {
    let r = colored("x", Color::Colored(200));
    assert_eq!(r.chars().count(), 3);
    assert_eq!(r.chars().next(), Some('\u{c8}'));
}

#[test]
fn color_from_option() {
    assert_eq!(Color::from(Some(3)), Color::Colored(3));
    assert_eq!(Color::from(None), Color::Uncolored);
    assert_eq!(Color::default(), Color::Uncolored);
}

#[test]
fn explicit_color_overrides_default() {
    let own = SegmentColoring {
        text: Color::Colored(6),
        left_separator: Color::Uncolored,
        right_separator: Color::Colored(9),
        icon: Color::Uncolored,
    };
    let default = SegmentColoring {
        text: Color::Colored(2),
        left_separator: Color::Colored(3),
        right_separator: Color::Uncolored,
        icon: Color::Uncolored,
    };
    let r = own.or_default(&default);
    assert_eq!(r.text, Color::Colored(6));
    assert_eq!(r.left_separator, Color::Colored(3));
    assert_eq!(r.right_separator, Color::Colored(9));
    assert_eq!(r.icon, Color::Uncolored);
    assert_eq!(Color::Uncolored.or_default(Color::Uncolored), Color::Uncolored);
    assert_eq!(Color::Colored(1).or_default(Color::Colored(5)), Color::Colored(1));
}
