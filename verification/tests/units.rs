use rav::units::{Cells, Fill, SampleRate, Step};

#[test]
fn a_step_can_never_address_past_what_a_skin_offers() {
    assert_eq!(Step::new(99, 8).index(), 7);
    assert_eq!(Step::new(0, 0).count(), 1, "a skin always has one step");
    assert!(Step::new(7, 8).is_last());
    assert!(Step::new(0, 8).is_first());
}

#[test]
fn a_step_rescales_between_surfaces_that_disagree_on_resolution() {
    assert_eq!(Step::new(7, 8).rescaled(200).index(), 199);
    assert_eq!(Step::new(0, 8).rescaled(200).index(), 0);
    assert_eq!(Step::new(4, 9).rescaled(9).index(), 4, "a no-op rescale");
    assert!(Step::new(150, 200).rescaled(8).index() < 8);
}

#[test]
fn a_rescale_rounds_to_the_nearest_step_halves_up() {
    // 1 of 0..2 is halfway; on a two-step ladder that rounds up.
    assert_eq!(Step::new(1, 3).rescaled(2).index(), 1);
    assert_eq!(Step::new(1, 4).rescaled(3).index(), 1);
    assert_eq!(Step::new(5, 6).rescaled(0).count(), 1);
    assert_eq!(Step::new(0, 1).rescaled(5).index(), 0, "a single step is the first");
    assert_eq!(Step::new(usize::MAX, usize::MAX).rescaled(usize::MAX).index(), usize::MAX - 1);
}

#[test]
fn a_fill_has_a_part_only_past_the_first_step() {
    let empty = Fill {
        whole: 3,
        part: Step::new(0, 8),
    };
    assert!(!empty.has_part());
    let some = Fill {
        whole: 3,
        part: Step::new(5, 8),
    };
    assert!(some.has_part());
}

#[test]
fn counts_say_what_they_hold() {
    assert_eq!(Cells(4).count(), 4);
    assert!(Cells(0).is_none());
    assert!(!Cells(1).is_none());
    assert_eq!(SampleRate(48_000).get(), 48_000);
}
