use proton::sequencer::turing::{Rand, Turing};
use proton::sequencer::{
    find_ticks_on, is_nth_tick_on, length_switch, parameter_named, place_note, reset_range,
    set_nth_tick_off, set_nth_tick_on, NoteLength, Parameter, BEATS_ATTRIBUTE, CHANGE_ATTRIBUTE,
    CUTOFF_ATTRIBUTE, DENSITY_ATTRIBUTE, EIGHT_ATTRIBUTE, EIGHT_TRIPLET_ATTRIBUTE,
    FEEDBACK_ATTRIBUTE, HALF_ATTRIBUTE, HALF_TRIPLET_ATTRIBUTE, OFF, ON, QUARTER_ATTRIBUTE,
    QUARTER_TRIPLET_ATTRIBUTE, WHOLE_ATTRIBUTE,
};

struct TestRand(u16);

impl Rand for TestRand {
    fn generate(&mut self) -> u16 {
        self.0
    }
}

fn cell_in_samples(sample_rate: u32) -> u32 {
    let bpm = 360.0_f32;
    let seconds_per_beat = 60.0 / bpm;
    let seconds_per_cell = seconds_per_beat / 6.0;
    (seconds_per_cell * sample_rate as f32) as u32
}

fn notes_in(triggers: &[u32; 3]) -> usize {
    (0..96).filter(|cell| is_nth_tick_on(triggers, *cell)).count()
}

#[test]
fn is_nth_tick_on_returns_true_on_enabled_tick() {
    let triggers = [
        0b1000_0000_0000_0000_0000_0000_0000_0000,
        //^ 0
        0b0000_0000_0000_0000_0000_0000_0000_0000,
        0b0000_0000_0000_0000_0000_0000_1000_0001,
        //                              ^ 88    ^ 95
    ];

    assert!(is_nth_tick_on(&triggers, 0));
    assert!(is_nth_tick_on(&triggers, 88));
    assert!(is_nth_tick_on(&triggers, 95));
}

#[test]
fn is_nth_tick_on_returns_false_on_disabled_tick() {
    let triggers = [
        0b1000_1000_1000_1000_1000_1000_1000_1000,
        // ^ 1
        0b1000_1000_1000_1000_1000_1000_1000_1000,
        0b1000_1000_1000_1000_1000_1000_1000_1000,
        //                               ^ 89
    ];

    assert!(!is_nth_tick_on(&triggers, 1));
    assert!(!is_nth_tick_on(&triggers, 89));
}

#[test]
fn count_ticks_on_should_return_number_of_set_bits() {
    let triggers = [
        0b1000_0000_0000_0000_0000_0000_0000_0001,
        0b0000_0000_0000_0000_0000_0000_0001_0000,
        0b0000_0000_0000_0001_0000_0000_0000_0000,
    ];

    assert_eq!(find_ticks_on(&triggers), &[0, 31, 59, 79]);
}

#[test]
fn place_whole_note_on_empty_triggers() {
    let mut triggers = [0; 3];
    place_note(4, 48, &mut triggers);
    assert_eq!(triggers[0], 0b0000_1000_0000_0000_0000_0000_0000_0000);
    for i in 1..3 {
        assert_eq!(triggers[i], 0);
    }
}

#[test]
fn place_whole_note_on_populated_triggers() {
    let mut triggers = [u32::MAX; 3];
    place_note(4, 48, &mut triggers);
    assert_eq!(triggers[0], 0b1111_1000_0000_0000_0000_0000_0000_0000);
    assert_eq!(triggers[1], 0b0000_0000_0000_0000_0000_1111_1111_1111);
    for i in 2..3 {
        assert_eq!(triggers[i], u32::MAX);
    }
}

#[test]
fn reset_range_at_beginning() {
    let mut triggers = [u32::MAX; 3];
    reset_range(0, 3, &mut triggers);
    assert_eq!(triggers[0], 0b0000_1111_1111_1111_1111_1111_1111_1111);
    for i in 1..3 {
        assert_eq!(triggers[i], u32::MAX);
    }
}

#[test]
fn reset_range_at_end_of_block() {
    let mut triggers = [u32::MAX; 3];
    reset_range(28, 31, &mut triggers);
    assert_eq!(triggers[0], 0b1111_1111_1111_1111_1111_1111_1111_0000);
    for i in 1..3 {
        assert_eq!(triggers[i], u32::MAX);
    }
}

#[test]
fn reset_range_in_the_middle_of_block() {
    let mut triggers = [u32::MAX; 3];
    reset_range(8, 27, &mut triggers);
    assert_eq!(triggers[0], 0b1111_1111_0000_0000_0000_0000_0000_1111);
    for i in 1..3 {
        assert_eq!(triggers[i], u32::MAX);
    }
}

#[test]
fn reset_range_crossing_two_blocks() {
    let mut triggers = [u32::MAX; 3];
    reset_range(28, 35, &mut triggers);
    assert_eq!(triggers[0], 0b1111_1111_1111_1111_1111_1111_1111_0000);
    assert_eq!(triggers[1], 0b0000_1111_1111_1111_1111_1111_1111_1111);
    for i in 2..3 {
        assert_eq!(triggers[i], u32::MAX);
    }
}

#[test]
fn reset_range_end_to_end() {
    let mut triggers = [u32::MAX; 3];
    reset_range(0, 191, &mut triggers);
    for i in 0..3 {
        assert_eq!(triggers[i], 0);
    }
}

#[test]
fn set_nth_tick_on_in_middle() {
    let mut triggers = [0; 3];
    set_nth_tick_on(&mut triggers, 84);
    for i in 0..2 {
        assert_eq!(triggers[i], 0);
    }
    assert_eq!(triggers[2], 0b0000_0000_0000_0000_0000_1000_0000_0000);
}

#[test]
fn set_nth_tick_off_in_middle() {
    let mut triggers = [u32::MAX; 3];
    set_nth_tick_off(&mut triggers, 84);
    for i in 0..2 {
        assert_eq!(triggers[i], u32::MAX);
    }
    assert_eq!(triggers[2], 0b1111_1111_1111_1111_1111_0111_1111_1111);
}

#[test]
fn note_lengths_are_proportional() {
    assert_eq!(
        NoteLength::Half.in_cells() * 2,
        NoteLength::Whole.in_cells()
    );
    assert_eq!(
        NoteLength::QuarterTriplet.in_cells() * 3,
        NoteLength::Whole.in_cells()
    );
    assert_eq!(
        NoteLength::Quarter.in_cells() * 4,
        NoteLength::Whole.in_cells()
    );
    assert_eq!(
        NoteLength::EightTriplet.in_cells() * 6,
        NoteLength::Whole.in_cells()
    );
    assert_eq!(
        NoteLength::Eight.in_cells() * 8,
        NoteLength::Whole.in_cells()
    );
}

#[test]
fn note_lengths_in_cells_match_a_six_cell_beat() {
    assert_eq!(NoteLength::Whole.in_cells(), 24);
    assert_eq!(NoteLength::HalfTriplet.in_cells(), 18);
    assert_eq!(NoteLength::Half.in_cells(), 12);
    assert_eq!(NoteLength::QuarterTriplet.in_cells(), 8);
    assert_eq!(NoteLength::Quarter.in_cells(), 6);
    assert_eq!(NoteLength::EightTriplet.in_cells(), 4);
    assert_eq!(NoteLength::Eight.in_cells(), 3);
}

#[test]
fn note_length_is_found_by_attribute_name() {
    assert_eq!(NoteLength::from_attribute(WHOLE_ATTRIBUTE), NoteLength::Whole);
    assert_eq!(
        NoteLength::from_attribute(HALF_TRIPLET_ATTRIBUTE),
        NoteLength::HalfTriplet
    );
    assert_eq!(NoteLength::from_attribute(HALF_ATTRIBUTE), NoteLength::Half);
    assert_eq!(
        NoteLength::from_attribute(QUARTER_TRIPLET_ATTRIBUTE),
        NoteLength::QuarterTriplet
    );
    assert_eq!(NoteLength::from_attribute(QUARTER_ATTRIBUTE), NoteLength::Quarter);
    assert_eq!(
        NoteLength::from_attribute(EIGHT_TRIPLET_ATTRIBUTE),
        NoteLength::EightTriplet
    );
    assert_eq!(NoteLength::from_attribute(EIGHT_ATTRIBUTE), NoteLength::Eight);
}

#[test]
fn setting_and_clearing_a_tick_round_trips() {
    let initial = [0x1234_5678, 0x9abc_def0, 0x0f0f_0f0f];
    for cell in 0..96 {
        let mut triggers = initial;
        let was_on = is_nth_tick_on(&triggers, cell);
        set_nth_tick_on(&mut triggers, cell);
        assert!(is_nth_tick_on(&triggers, cell));
        set_nth_tick_off(&mut triggers, cell);
        assert!(!is_nth_tick_on(&triggers, cell));
        if was_on {
            set_nth_tick_on(&mut triggers, cell);
        }
        assert_eq!(triggers, initial);
    }
}

#[test]
fn placing_a_note_over_the_last_cell_keeps_earlier_cells() {
    let mut triggers = [u32::MAX; 3];
    place_note(93, 6, &mut triggers);
    assert_eq!(triggers[0], u32::MAX);
    assert_eq!(triggers[1], u32::MAX);
    assert_eq!(triggers[2], 0b1111_1111_1111_1111_1111_1111_1111_1100);
}

#[test]
fn finding_ticks_on_an_empty_pattern_gives_none() {
    assert!(find_ticks_on(&[0; 3]).is_empty());
}

#[test]
fn finding_ticks_on_lists_cells_in_ascending_order() {
    let mut triggers = [0; 3];
    for cell in [95, 3, 40, 64, 32] {
        set_nth_tick_on(&mut triggers, cell);
    }
    assert_eq!(find_ticks_on(&triggers), &[3, 32, 40, 64, 95]);
}

#[test]
fn turing_should_work_without_panic() {
    let mut turing = Turing::new();
    let cell = cell_in_samples(48_000);
    for i in 0..48_000 * 10 {
        turing.tick(64, cell, &mut TestRand(i as u16));
    }
}

#[test]
fn new_turing_has_an_empty_pattern_over_four_beats() {
    let turing = Turing::new();
    assert_eq!(turing.triggers, [0; 3]);
    assert_eq!(turing.phase, 0);
    assert_eq!(turing.density, 16);
    assert_eq!(turing.rate_of_change, 4);
    assert_eq!(turing.beats, 4);
    assert_eq!(turing.enabled_cells(), 24);
    assert!(turing.lengths.is_empty());
}

#[test]
fn turing_places_a_note_when_the_pattern_wraps_and_plays_its_tone() {
    let mut turing = Turing::new();
    turing.set_density(4);
    turing.set_rate_of_change(1);
    turing.enable_length(NoteLength::Quarter);

    let mut played = Vec::new();
    for _ in 0..48 {
        played.push(turing.tick(10, 10, &mut TestRand(13)));
    }

    for (call, tone) in played.iter().enumerate() {
        if call == 35 {
            assert_eq!(*tone, Some(13));
        } else {
            assert_eq!(*tone, None, "call {}", call);
        }
    }
    assert!(is_nth_tick_on(&turing.triggers, 12));
    assert_eq!(notes_in(&turing.triggers), 1);
}

#[test]
fn turing_without_lengths_only_drops_notes() {
    let mut turing = Turing::new();
    for cell in [0, 6, 12, 18] {
        set_nth_tick_on(&mut turing.triggers, cell);
    }
    turing.set_density(1);
    turing.set_rate_of_change(2);
    assert!(turing.tick(240, 10, &mut TestRand(0)).is_none());
    assert_eq!(notes_in(&turing.triggers), 2);
    assert_eq!(turing.phase, 0);
}

#[test]
fn enabling_a_length_twice_keeps_it_once() {
    let mut turing = Turing::new();
    turing.enable_length(NoteLength::Quarter);
    turing.enable_length(NoteLength::Eight);
    turing.enable_length(NoteLength::Quarter);
    assert_eq!(&turing.lengths[..], &[NoteLength::Quarter, NoteLength::Eight]);
}

#[test]
fn enabling_every_length_fills_the_list() {
    let mut turing = Turing::new();
    let all = [
        NoteLength::Whole,
        NoteLength::HalfTriplet,
        NoteLength::Half,
        NoteLength::QuarterTriplet,
        NoteLength::Quarter,
        NoteLength::EightTriplet,
        NoteLength::Eight,
    ];
    for length in all {
        turing.enable_length(length);
    }
    for length in all {
        turing.enable_length(length);
    }
    assert_eq!(&turing.lengths[..], &all);
}

#[test]
fn disabling_a_length_moves_the_last_into_its_place() {
    let mut turing = Turing::new();
    turing.enable_length(NoteLength::Whole);
    turing.enable_length(NoteLength::Half);
    turing.enable_length(NoteLength::Eight);
    turing.disable_length(NoteLength::Whole);
    assert_eq!(&turing.lengths[..], &[NoteLength::Eight, NoteLength::Half]);
    turing.disable_length(NoteLength::Quarter);
    assert_eq!(&turing.lengths[..], &[NoteLength::Eight, NoteLength::Half]);
}

#[test]
fn dense_pattern_drops_its_excess_at_the_change_rate() {
    let mut turing = Turing::new();
    for cell in [0, 3, 6, 9, 12, 15, 18, 21] {
        set_nth_tick_on(&mut turing.triggers, cell);
    }
    turing.set_density(2);
    turing.set_rate_of_change(4);
    turing.enable_length(NoteLength::Quarter);
    turing.tick(240, 10, &mut TestRand(5));
    assert_eq!(notes_in(&turing.triggers), 4);
    turing.tick(240, 10, &mut TestRand(5));
    assert_eq!(notes_in(&turing.triggers), 2);
}

#[test]
fn sparse_pattern_never_grows_past_its_density() {
    let mut turing = Turing::new();
    turing.set_density(3);
    turing.set_rate_of_change(4);
    turing.enable_length(NoteLength::Eight);
    turing.enable_length(NoteLength::Quarter);
    for draw in 0..200u16 {
        turing.tick(240, 10, &mut TestRand(draw.wrapping_mul(7919)));
        assert!(notes_in(&turing.triggers) <= 3);
    }
}

#[test]
fn attributes_name_their_parameters() {
    assert_eq!(parameter_named(CUTOFF_ATTRIBUTE), Some(Parameter::Cutoff));
    assert_eq!(parameter_named(FEEDBACK_ATTRIBUTE), Some(Parameter::Feedback));
    assert_eq!(parameter_named(DENSITY_ATTRIBUTE), Some(Parameter::Density));
    assert_eq!(parameter_named(CHANGE_ATTRIBUTE), Some(Parameter::Change));
    assert_eq!(parameter_named(BEATS_ATTRIBUTE), Some(Parameter::Beats));
    assert_eq!(parameter_named("invalid"), None);
    assert_eq!(parameter_named(WHOLE_ATTRIBUTE), None);
}

#[test]
fn length_switches_enable_only_on_on() {
    assert_eq!(length_switch(WHOLE_ATTRIBUTE, ON), (NoteLength::Whole, true));
    assert_eq!(length_switch(WHOLE_ATTRIBUTE, OFF), (NoteLength::Whole, false));
    assert_eq!(length_switch(HALF_ATTRIBUTE, ON), (NoteLength::Half, true));
    assert_eq!(length_switch(EIGHT_TRIPLET_ATTRIBUTE, OFF), (NoteLength::EightTriplet, false));
    assert_eq!(length_switch(QUARTER_TRIPLET_ATTRIBUTE, "maybe"), (NoteLength::QuarterTriplet, false));
}

#[test]
fn placing_a_drawn_note_uses_both_draws() {
    let mut turing = Turing::new();
    turing.enable_length(NoteLength::Eight);
    turing.enable_length(NoteLength::Quarter);
    let start = turing.place_drawn(13, 13);
    assert_eq!(start, 12);
    assert_eq!(notes_in(&turing.triggers), 1);
    assert!(is_nth_tick_on(&turing.triggers, 12));
    let start = turing.place_drawn(2, 23);
    assert_eq!(start, 21);
    assert!(is_nth_tick_on(&turing.triggers, 21));
}

#[test]
fn dropping_a_drawn_note_takes_the_drawn_cell() {
    let mut turing = Turing::new();
    turing.enable_length(NoteLength::Eight);
    turing.place_drawn(0, 0);
    turing.place_drawn(0, 9);
    turing.place_drawn(0, 20);
    let mut ticks = find_ticks_on(&turing.triggers);
    assert_eq!(ticks, &[0, 9, 18]);
    let dropped = turing.drop_drawn(&mut ticks, 4);
    assert_eq!(dropped, 9);
    assert_eq!(ticks, &[0, 18]);
    assert!(!is_nth_tick_on(&turing.triggers, 9));
    assert_eq!(notes_in(&turing.triggers), 2);
}

#[test]
fn pattern_at_its_density_drops_and_places_as_planned() {
    let mut turing = Turing::new();
    for cell in [0, 6, 12, 18] {
        set_nth_tick_on(&mut turing.triggers, cell);
    }
    turing.set_density(4);
    turing.set_rate_of_change(2);
    turing.enable_length(NoteLength::Eight);
    // drops 18 (7 % 4 = 3) and then 6 (7 % 3 = 1), places twice on 6 (7 / 3 * 3)
    assert!(turing.tick(240, 10, &mut TestRand(7)).is_none());
    assert!(is_nth_tick_on(&turing.triggers, 0));
    assert!(is_nth_tick_on(&turing.triggers, 6));
    assert!(is_nth_tick_on(&turing.triggers, 12));
    assert!(!is_nth_tick_on(&turing.triggers, 18));
    assert_eq!(notes_in(&turing.triggers), 3);
}
