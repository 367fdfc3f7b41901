use rav::visual::theme::{parse_color, ColourProblem, Ink, Ladder, LadderError, SCOPE_LEVELS, STOPS};

#[test]
fn theme_colours_are_hex_or_an_ansi_name() {
    assert_eq!(parse_color("#ef3110").unwrap(), Ink::Rgb(239, 49, 16));
    assert_eq!(
        parse_color("bright-green").unwrap(),
        Ink::from_name("bright-green").unwrap()
    );
    assert_eq!(
        parse_color(" white ").unwrap(),
        Ink::from_name("white").unwrap()
    );
    for bad in ["#fff", "#gggggg", "chartreuse", ""] {
        assert!(parse_color(bad).is_err(), "{bad:?} should not parse");
    }
}

#[test]
fn the_sixteen_names_are_the_sixteen_slots() {
    let names = [
        "black",
        "red",
        "green",
        "yellow",
        "blue",
        "magenta",
        "cyan",
        "white",
        "bright-black",
        "bright-red",
        "bright-green",
        "bright-yellow",
        "bright-blue",
        "bright-magenta",
        "bright-cyan",
        "bright-white",
    ];
    for (slot, name) in names.iter().enumerate() {
        assert_eq!(Ink::from_name(name), Some(Ink::Ansi(slot as u8)));
    }
    assert_eq!(Ink::from_name("grey"), None);
}

#[test]
fn a_colour_error_says_what_was_wrong_and_with_what() {
    let err = parse_color("  #12345  ").unwrap_err();
    assert_eq!(err.problem, ColourProblem::NotHex);
    assert_eq!(err.text, "#12345");
    let err = parse_color("\tchartreuse\n").unwrap_err();
    assert_eq!(err.problem, ColourProblem::Unknown);
    assert_eq!(err.text, "chartreuse");
}

#[test]
fn hex_is_six_digits_of_either_case_and_nothing_else() {
    assert_eq!(parse_color("#A0b0C0").unwrap(), Ink::Rgb(0xa0, 0xb0, 0xc0));
    assert_eq!(parse_color("#+f+f+f").unwrap_err().problem, ColourProblem::NotHex, "a sign is not a digit");
    assert!(parse_color("#-f0000").is_err());
    assert!(parse_color("#éé00").is_err(), "six bytes, but not six digits");
    assert_eq!(parse_color("#aééb").unwrap_err().problem, ColourProblem::NotHex, "refused, not a panic");
    assert_eq!(parse_color("#ééééé1").unwrap_err().problem, ColourProblem::NotHex);
    assert!(parse_color("\u{3000}#000000\u{a0}").is_ok(), "Unicode whitespace is trimmed");
}

#[test]
fn exact_colours_are_the_spelled_out_ones() {
    assert!(Ink::Rgb(1, 2, 3).is_exact());
    assert!(!Ink::Ansi(2).is_exact());
}

#[test]
fn one_colour_expands_to_every_stop() {
    let bars = Ladder::One("green".to_string()).expand(STOPS).unwrap();
    assert_eq!(bars, vec![Ink::from_name("green").unwrap(); STOPS]);
    let scope = Ladder::One("white".to_string()).expand(SCOPE_LEVELS).unwrap();
    assert_eq!(scope, vec![Ink::Ansi(7); SCOPE_LEVELS]);
}

#[test]
fn a_ladder_of_the_wrong_length_is_refused() {
    let short = Ladder::Many(vec!["green".to_string(), "red".to_string()]);
    assert_eq!(
        short.expand(STOPS),
        Err(LadderError::Length {
            wanted: STOPS,
            found: 2
        })
    );
}

#[test]
fn a_ramp_reports_its_first_bad_colour() {
    let ramp = Ladder::Many(vec![
        "green".to_string(),
        "mauve".to_string(),
        "#zzzzzz".to_string(),
    ]);
    match ramp.expand(3) {
        Err(LadderError::Colour(e)) => {
            assert_eq!(e.problem, ColourProblem::Unknown);
            assert_eq!(e.text, "mauve");
        }
        other => panic!("expected a colour error, got {other:?}"),
    }
    let good = Ladder::Many(vec!["#000000".to_string(), " red".to_string()]);
    assert_eq!(good.expand(2), Ok(vec![Ink::Rgb(0, 0, 0), Ink::Ansi(1)]));
    assert!(Ladder::One("nope".to_string()).expand(0).is_err(), "checked even for no stops");
}
