use dwmblocksrs::color::{Color, SegmentColoring};
use dwmblocksrs::config::Configuration;
use dwmblocksrs::segments::constant::Constant;
use dwmblocksrs::segments::program_output::ProgramOutput;
use dwmblocksrs::segments::{Segment, SegmentKind};

fn test_segment() -> Segment<Constant> {
    Segment::new(Constant::new("test".into()), None, vec![]).unwrap()
}

fn empty_segment() -> Segment<Constant> {
    Segment::new(Constant::new("".into()), None, vec![]).unwrap()
}

#[test]
fn consant() {
    let mut s = test_segment();
    assert_eq!(&s.compute_value(), "test");
}

#[test]
fn left_separator() {
    let mut s = test_segment();
    s.left_separator = ">".into();
    assert_eq!(&s.compute_value(), ">test");
}

#[test]
fn right_separator() {
    let mut s = test_segment();
    s.right_separator = "<".into();
    assert_eq!(&s.compute_value(), "test<");
}

#[test]
fn icon() {
    let mut s = test_segment();
    s.icon = "$".into();
    assert_eq!(&s.compute_value(), "$test");
}

#[test]
fn all() {
    let mut s = test_segment();
    s.left_separator = ">".into();
    s.right_separator = "<".into();
    s.icon = "$".into();
    assert_eq!(&s.compute_value(), ">$test<");
}

#[test]
fn hide_if_empty_false() {
    let mut s = empty_segment();
    s.left_separator = ">".into();
    s.right_separator = "<".into();
    s.icon = "$".into();
    assert_eq!(&s.compute_value(), ">$<");
}

#[test]
fn hide_if_empty_true() {
    let mut s = empty_segment();
    s.left_separator = ">".into();
    s.right_separator = "<".into();
    s.icon = "$".into();
    s.hide_if_empty = true;
    assert_eq!(&s.compute_value(), "");
}

#[test]
fn color_text() {
    let mut s = test_segment();
    s.coloring = SegmentColoring {
        text: Color::Colored(2),
        ..Default::default()
    };
    assert_eq!(&s.compute_value(), "\x02test\x01");
}

#[test]
fn color_left_separator() {
    let mut s = test_segment();
    s.left_separator = ">".into();
    s.coloring = SegmentColoring {
        left_separator: Color::Colored(2),
        ..Default::default()
    };
    assert_eq!(&s.compute_value(), "\x02>\x01test");
}

#[test]
fn color_right_separator() {
    let mut s = test_segment();
    s.right_separator = "<".into();
    s.coloring = SegmentColoring {
        right_separator: Color::Colored(2),
        ..Default::default()
    };
    assert_eq!(&s.compute_value(), "test\x02<\x01");
}

#[test]
fn color_icon() {
    let mut s = test_segment();
    s.icon = "$".into();
    s.coloring = SegmentColoring {
        icon: Color::Colored(2),
        ..Default::default()
    };
    assert_eq!(&s.compute_value(), "\x02$\x01test");
}

#[test]
fn all_colors() {
    let mut s = test_segment();
    s.left_separator = ">".into();
    s.right_separator = "<".into();
    s.icon = "$".into();
    s.coloring = SegmentColoring {
        left_separator: Color::Colored(2),
        icon: Color::Colored(3),
        text: Color::Colored(4),
        right_separator: Color::Colored(5),
    };
    assert_eq!(
        &s.compute_value(),
        "\x02>\x01\x03$\x01\x04test\x01\x05<\x01"
    );
}

#[test]
fn config_left_separator() {
    let kind = Constant::new("test".into());
    let mut segment = Segment::new_from_config(
        kind,
        None,
        vec![],
        None,
        None,
        None,
        false,
        Default::default(),
        &Configuration {
            left_separator: Some(">".into()),
            right_separator: None,
            script_dir: String::new(),
            update_all_signal: None,
            coloring: Default::default(),
        },
    )
    .unwrap();
    assert_eq!(&segment.compute_value(), ">test")
}

#[test]
fn config_left_separator_overwrite() {
    let kind = Constant::new("test".into());
    let mut segment = Segment::new_from_config(
        kind,
        None,
        vec![],
        Some("!".into()),
        None,
        None,
        false,
        Default::default(),
        &Configuration {
            left_separator: Some(">".into()),
            right_separator: None,
            script_dir: String::new(),
            update_all_signal: None,
            coloring: Default::default(),
        },
    )
    .unwrap();
    assert_eq!(&segment.compute_value(), "!test")
}

#[test]
fn config_right_separator_overwrite() {
    let kind = Constant::new("test".into());
    let mut segment = Segment::new_from_config(
        kind,
        None,
        vec![],
        None,
        Some("!".into()),
        None,
        false,
        Default::default(),
        &Configuration {
            left_separator: None,
            right_separator: Some(">".into()),
            script_dir: String::new(),
            update_all_signal: None,
            coloring: Default::default(),
        },
    )
    .unwrap();
    assert_eq!(&segment.compute_value(), "test!")
}

#[test]
fn config_color() {
    let kind = Constant::new("test".into());
    let mut segment = Segment::new_from_config(
        kind,
        None,
        vec![],
        Some(">".into()),
        Some("<".into()),
        Some("$".into()),
        false,
        Default::default(),
        &Configuration {
            coloring: SegmentColoring {
                left_separator: Color::Colored(2),
                icon: Color::Colored(3),
                text: Color::Colored(4),
                right_separator: Color::Colored(5),
            },
            ..Default::default()
        },
    )
    .unwrap();
    assert_eq!(
        &segment.compute_value(),
        "\x02>\x01\x03$\x01\x04test\x01\x05<\x01"
    )
}

#[test]
fn config_color_overwrite() {
    let kind = Constant::new("test".into());
    let mut segment = Segment::new_from_config(
        kind,
        None,
        vec![],
        Some(">".into()),
        Some("<".into()),
        Some("$".into()),
        false,
        SegmentColoring {
            left_separator: Color::Colored(6),
            icon: Color::Colored(7),
            text: Color::Colored(8),
            right_separator: Color::Colored(9),
        },
        &Configuration {
            coloring: SegmentColoring {
                left_separator: Color::Colored(2),
                icon: Color::Colored(3),
                text: Color::Colored(4),
                right_separator: Color::Colored(5),
            },
            ..Default::default()
        },
    )
    .unwrap();
    assert_eq!(
        &segment.compute_value(),
        "\x06>\x01\x07$\x01\x08test\x01\x09<\x01"
    )
}

#[test]
fn hidden_segment_drops_colored_decoration() {
    let mut s = empty_segment();
    s.left_separator = ">".into();
    s.right_separator = "<".into();
    s.icon = "$".into();
    s.hide_if_empty = true;
    s.coloring = SegmentColoring {
        left_separator: Color::Colored(2),
        icon: Color::Colored(3),
        text: Color::Colored(4),
        right_separator: Color::Colored(5),
    };
    assert_eq!(s.render(""), "");
    assert_eq!(s.render("x"), "\x02>\x01\x03$\x01\x04x\x01\x05<\x01");
}

#[test]
fn uncolored_render_is_verbatim() {
    let mut s = test_segment();
    s.left_separator = "[".into();
    s.icon = "#".into();
    s.right_separator = "]".into();
    assert_eq!(s.render("value"), "[#value]");
    assert_eq!(s.render(""), "[#]");
}

#[test]
fn separator_defaults_resolve_at_construction() {
    let config = Configuration {
        left_separator: Some("<<".into()),
        right_separator: Some(">>".into()),
        ..Default::default()
    };
    let segment = Segment::new_from_config(
        Constant::new("v".into()),
        Some(5000),
        vec![],
        None,
        Some("|".into()),
        None,
        true,
        Default::default(),
        &config,
    )
    .unwrap();
    assert_eq!(segment.left_separator, "<<");
    assert_eq!(segment.right_separator, "|");
    assert_eq!(segment.icon, "");
    assert!(segment.hide_if_empty);
    assert_eq!(segment.update_interval, Some(5000));
    assert!(segment.signals.is_empty());
}

#[test]
fn segment_signals_follow_offsets() {
    let a = Segment::new(Constant::new("a".into()), None, vec![0, 2]).unwrap();
    assert_eq!(a.signals.len(), 2);
    assert_eq!(a.signals[1] - a.signals[0], 2);
    let far = Segment::new(Constant::new("a".into()), None, vec![100000]);
    assert!(far.is_err());
}

#[test]
fn replace_kind_keeps_decoration() {
    let mut s = test_segment();
    s.left_separator = ">".into();
    let (mut t, old) = s.replace_kind(Constant::new("new".into()));
    assert_eq!(old.value(), "test");
    assert_eq!(t.compute_value(), ">new");
}

#[test]
fn constant_value_is_its_text() {
    let mut c = Constant::new("constant".into());
    assert_eq!(c.compute_value(), "constant");
    assert_eq!(c.compute_value(), "constant");
}

#[test]
fn program_output_value() {
    let trimmed = ProgramOutput::new("echo".into(), vec!["hello".into()], true);
    assert_eq!(trimmed.program(), "echo");
    assert_eq!(trimmed.args(), &vec!["hello".to_string()]);
    assert_eq!(trimmed.output_value(Some("  hello\n".into())), "hello");
    assert_eq!(trimmed.output_value(None), "ERROR");
    let raw = ProgramOutput::new("echo".into(), vec![], false);
    assert_eq!(raw.output_value(Some("  hello\n".into())), "  hello\n");
    assert_eq!(raw.output_value(Some("".into())), "");
}
