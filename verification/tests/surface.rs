use rav::surface::{answered, choose_surface, Choice, Surface};

/// Say `yes`, and record whether anyone asked.
fn asking(asked: &std::cell::Cell<bool>, yes: bool) -> impl FnOnce() -> bool + '_ {
    move || {
        asked.set(true);
        yes
    }
}

#[test]
fn a_multiplexer_declines_pixels_however_the_terminal_answers() {
    let under_tmux = choose_surface(Choice::Auto, true, || true);
    assert_eq!(under_tmux.surface, Surface::Glyphs);
    assert_eq!(under_tmux.because, "tmux or screen is in the way");
}

#[test]
fn nobody_gets_pixels_without_asking_for_them() {
    let capable = choose_surface(Choice::Auto, false, || true);
    assert_eq!(capable.surface, Surface::Glyphs);
    assert!(
        capable.because.contains("--surface kitty"),
        "a capable terminal was not told how to use it: {}",
        capable.because,
    );
    assert_eq!(
        choose_surface(Choice::Auto, false, || false).surface,
        Surface::Glyphs
    );

    // Asking is still honoured, or there would be no way in at all.
    assert_eq!(
        choose_surface(Choice::Kitty, false, || false).surface,
        Surface::Kitty
    );
}

#[test]
fn asking_for_a_window_says_there_is_not_one_yet() {
    let asked = choose_surface(Choice::Window, false, || false);
    assert_eq!(asked.surface, Surface::Glyphs);
    assert!(asked.because.contains("not built"), "{}", asked.because);
}

#[test]
fn an_explicit_request_is_honoured_even_where_auto_would_decline() {
    assert_eq!(
        choose_surface(Choice::Kitty, false, || false).surface,
        Surface::Kitty
    );
    assert_eq!(
        choose_surface(Choice::Kitty, true, || false).surface,
        Surface::Kitty
    );
    assert_eq!(
        choose_surface(Choice::Glyphs, false, || true).surface,
        Surface::Glyphs
    );
}

#[test]
fn the_terminal_is_only_asked_when_the_answer_could_change_the_outcome() {
    for (asked, multiplexed) in [
        (Choice::Glyphs, false),
        (Choice::Kitty, false),
        (Choice::Window, false),
        (Choice::Auto, true),
    ] {
        let probed = std::cell::Cell::new(false);
        choose_surface(asked, multiplexed, asking(&probed, true));
        assert!(!probed.get(), "{asked:?} asked and did not need to");
    }

    let probed = std::cell::Cell::new(false);
    choose_surface(Choice::Auto, false, asking(&probed, true));
    assert!(probed.get(), "auto has nothing else to go on");
}

#[test]
fn a_partial_reply_is_waited_out_rather_than_read_as_refusal() {
    assert_eq!(answered(b"\x1b_Gi=31;O"), None, "still arriving");
    assert_eq!(answered(b""), None, "nothing yet");
    assert_eq!(answered(b"\x1b_Gi=31;OK\x1b\\"), Some(true));
    assert_eq!(answered(b"\x1b_Gi=31;ENOTSUPPORTED\x1b\\"), Some(false));
}

#[test]
fn the_no_arrives_rather_than_being_waited_out() {
    assert_eq!(
        answered(b"\x1b[?62;1;6c"),
        Some(false),
        "answered, not mute"
    );
    assert_eq!(answered(b"\x1b[?6c"), Some(false), "a short one counts");
    assert_eq!(answered(b"\x1b_Gi=31;OK\x1b\\\x1b[?62c"), Some(true));
    assert_eq!(answered(b"\x1b[?62;1"), None, "no final byte yet");
    assert_eq!(answered(b"\x1b[?"), None);
    assert_eq!(answered(b"\x1b[?1000;1006$y"), None, "a different report");
}

#[test]
fn every_spelling_a_user_might_type_is_understood() {
    assert_eq!(Choice::parse("auto"), Some(Choice::Auto));
    assert_eq!(Choice::parse("kitty"), Some(Choice::Kitty));
    assert_eq!(Choice::parse("pixels"), Some(Choice::Kitty));
    assert_eq!(Choice::parse("gui"), Some(Choice::Window));
    assert_eq!(Choice::parse("sixel"), None, "deliberately not offered");
}

#[test]
fn the_remaining_spellings_are_understood_and_nothing_near_them() {
    assert_eq!(Choice::parse("glyphs"), Some(Choice::Glyphs));
    assert_eq!(Choice::parse("window"), Some(Choice::Window));
    assert_eq!(Choice::parse("Auto"), None, "spellings are exact");
    assert_eq!(Choice::parse(" auto"), None);
    assert_eq!(Choice::parse(""), None);
}

#[test]
fn each_surface_names_itself() {
    assert_eq!(Surface::Glyphs.label(), "glyphs");
    assert_eq!(Surface::Kitty.label(), "pixels");
    assert_eq!(Surface::Window.label(), "window");
    assert_eq!(Surface::default(), Surface::Glyphs);
}

#[test]
fn a_refusal_without_the_terminator_is_still_arriving() {
    assert_eq!(answered(b"\x1b_Gi=31;ENOTSUPPORTED"), None);
    // A second reply opening before the first is terminated means the first
    // was cut short, not that it is finished.
    assert_eq!(answered(b"\x1b_Gi=31;O\x1b_Gi=1;OK\x1b\\"), None);
}

#[test]
fn a_graphics_verdict_is_not_changed_by_what_follows_it() {
    let verdict = answered(b"\x1b_Gi=31;ENOTSUPPORTED\x1b\\");
    assert_eq!(verdict, Some(false));
    assert_eq!(
        answered(b"\x1b_Gi=31;ENOTSUPPORTED\x1b\\;OK\x1b_G;OK\x1b\\"),
        verdict
    );
}

#[test]
fn an_attributes_reply_with_anything_but_digits_is_not_one() {
    assert_eq!(answered(b"\x1b[?6x2c"), None);
    assert_eq!(answered(b"junk\x1b[?1;2cmore"), Some(false));
    assert_eq!(answered(b"\x1b[?\x1b[?64c"), Some(false), "the second one counts");
}
