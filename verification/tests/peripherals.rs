use proton::peripherals::button::Button;
use proton::peripherals::debounce_buffer::DebounceBuffer;
use proton::peripherals::detent_rotary::{Direction as DetentDirection, DetentRotary};
use proton::peripherals::gate_output::{GateOutput, GateOutputExt};
use proton::peripherals::pin::{InputPin, OutputPin};
use proton::peripherals::rotary::{Direction, PinError, Rotary};

struct TestPin {
    pub high: bool,
}

impl TestPin {
    fn new() -> Self {
        Self { high: false }
    }
}

impl InputPin for TestPin {
    type Error = ();

    fn is_high(&self) -> Result<bool, Self::Error> {
        Ok(self.high)
    }

    fn is_low(&self) -> Result<bool, Self::Error> {
        Ok(!self.high)
    }
}

struct BrokenPin;

impl InputPin for BrokenPin {
    type Error = u8;

    fn is_high(&self) -> Result<bool, Self::Error> {
        Err(7)
    }

    fn is_low(&self) -> Result<bool, Self::Error> {
        Err(7)
    }
}

struct TestOutputPin {
    pub high: bool,
}

impl OutputPin for TestOutputPin {
    type Error = ();

    fn commanded_level(&self) -> Option<bool> {
        Some(self.high)
    }

    fn set_low(&mut self) -> Result<(), Self::Error> {
        self.high = false;
        Ok(())
    }

    fn set_high(&mut self) -> Result<(), Self::Error> {
        self.high = true;
        Ok(())
    }
}

#[test]
fn when_held_down_it_reports_clicked_for_one_cycle() {
    let a = TestPin::new();
    let mut button = Button::<3, _>::new(a);

    button.pin().high = true;
    for _ in 0..3 {
        button.sample().unwrap();
    }
    assert!(!button.clicked());

    button.pin().high = false;
    for _ in 0..2 {
        button.sample().unwrap();
    }
    assert!(button.clicked());

    button.sample().unwrap();
    assert!(!button.clicked());
}

#[test]
fn when_held_down_it_reports_as_active() {
    let a = TestPin::new();
    let mut button = Button::<3, _>::new(a);

    button.pin().high = false;
    for _ in 0..3 {
        button.sample().unwrap();
    }
    assert!(button.active());

    button.pin().high = true;
    for _ in 0..3 {
        button.sample().unwrap();
    }
    assert!(!button.active());
}

#[test]
fn when_read_without_filter_it_responds_immediately() {
    let a = TestPin::new();
    let mut button = Button::<3, _>::new(a);

    button.pin().high = false;
    assert!(button.active_no_filter().unwrap());

    button.pin().high = true;
    assert!(!button.active_no_filter().unwrap());
}

#[test]
fn button_hands_back_a_failed_reading_and_keeps_its_state() {
    let mut button = Button::<3, _>::new(BrokenPin);
    assert_eq!(button.sample(), Err(7));
    assert!(!button.active());
    assert!(!button.clicked());
    assert_eq!(button.active_no_filter(), Err(7));
}

#[test]
fn button_sampled_by_level_clicks_on_majority() {
    let mut button = Button::<5, _>::new(TestPin::new());
    button.sample_level(true);
    button.sample_level(true);
    assert!(!button.clicked());
    assert!(!button.active());
    button.sample_level(true);
    assert!(button.clicked());
    assert!(button.active());
    button.sample_level(false);
    assert!(!button.clicked());
    assert!(button.active());
}

#[test]
fn when_input_fluctuates_it_does_not_change_output() {
    let mut buffer = DebounceBuffer::<4>::new();

    for _ in 0..4 {
        buffer.write(true);
    }
    let original = buffer.read();

    buffer.write(true);
    buffer.write(true);
    buffer.write(false);
    buffer.write(true);

    assert_eq!(buffer.read(), original);
}

#[test]
fn when_input_is_stable_it_is_reflected_in_output() {
    let mut buffer = DebounceBuffer::<4>::new();

    for _ in 0..4 {
        buffer.write(true);
    }
    assert!(buffer.read());

    for _ in 0..4 {
        buffer.write(false);
    }
    assert!(!buffer.read());
}

#[test]
fn debounce_buffer_needs_more_than_half_to_read_true() {
    let mut buffer = DebounceBuffer::<4>::new();
    assert!(!buffer.read());
    buffer.write(true);
    buffer.write(true);
    assert!(!buffer.read());
    buffer.write(true);
    assert!(buffer.read());
}

#[test]
fn debounce_buffer_of_any_history_reads_a_value_written_n_times() {
    let mut buffer = DebounceBuffer::<5>::new();
    for value in [true, false, true, true, false, false, true] {
        buffer.write(value);
    }
    for _ in 0..5 {
        buffer.write(false);
    }
    assert!(!buffer.read());
    for _ in 0..5 {
        buffer.write(true);
    }
    assert!(buffer.read());
}

#[test]
fn when_measuring_jumps_between_detents_it_should_work() {
    let states = [
        // B A Direction
        (false, false, DetentDirection::Idle),
        (false, true, DetentDirection::Idle),
        (true, true, DetentDirection::Idle),
        (true, false, DetentDirection::Idle),
        (false, false, DetentDirection::Clockwise),
        (true, false, DetentDirection::Idle),
        (true, true, DetentDirection::Idle),
        (false, true, DetentDirection::Idle),
        (false, false, DetentDirection::CounterClockwise),
    ];

    let a = TestPin::new();
    let b = TestPin::new();
    let mut rotary = DetentRotary::new(a, b, 4);

    for (b_high, a_high, direction) in states {
        rotary.pin_a().high = a_high;
        rotary.pin_b().high = b_high;
        rotary.sample().unwrap();
        assert_eq!(rotary.direction(), direction);
    }
}

#[test]
fn when_jumping_around_edge_of_detent_it_does_not_record_movement() {
    let states = [
        // B A Direction
        (false, false, DetentDirection::Idle),
        (false, true, DetentDirection::Idle),
        (true, true, DetentDirection::Idle),
        (true, false, DetentDirection::Idle),
        (false, false, DetentDirection::Clockwise),
        (true, false, DetentDirection::Idle),  // back
        (false, false, DetentDirection::Idle), // forth
    ];

    let a = TestPin::new();
    let b = TestPin::new();
    let mut rotary = DetentRotary::new(a, b, 4);

    for (b_high, a_high, direction) in states {
        rotary.pin_a().high = a_high;
        rotary.pin_b().high = b_high;
        rotary.sample().unwrap();
        assert_eq!(rotary.direction(), direction);
    }
}

#[test]
fn when_measuring_each_step_it_should_work() {
    let states = [
        // B A Direction
        (false, false, Direction::Idle),            // 0
        (false, true, Direction::Idle),             // >
        (true, true, Direction::Idle),              // >
        (true, false, Direction::Clockwise),        // >
        (false, false, Direction::Idle),            // >, 0
        (true, false, Direction::Idle),             // <
        (true, true, Direction::Idle),              // <
        (true, true, Direction::Idle),              // _
        (false, true, Direction::CounterClockwise), // <
        (false, false, Direction::Idle),            // <, 0
    ];

    let a = TestPin::new();
    let b = TestPin::new();
    let mut rotary = Rotary::new(a, b);

    for (b_high, a_high, direction) in states {
        rotary.pin_a().high = a_high;
        rotary.pin_b().high = b_high;
        rotary.sample().unwrap();
        assert_eq!(rotary.direction(), direction);
    }
}

#[test]
fn rotary_transitions_map_to_directions() {
    assert_eq!(Direction::from(0b0001), Direction::Clockwise);
    assert_eq!(Direction::from(0b1110), Direction::Clockwise);
    assert_eq!(Direction::from(0b0010), Direction::CounterClockwise);
    assert_eq!(Direction::from(0b1101), Direction::CounterClockwise);
    assert_eq!(Direction::from(0b0000), Direction::Idle);
    assert_eq!(Direction::from(0b1111), Direction::Idle);
}

#[test]
fn rotary_reversed_transitions_swap_direction() {
    for transition in 0u8..16 {
        let reversed = (transition % 4) * 4 + transition / 4;
        let expected = match Direction::from(transition) {
            Direction::Clockwise => Direction::CounterClockwise,
            Direction::CounterClockwise => Direction::Clockwise,
            Direction::Idle => Direction::Idle,
        };
        assert_eq!(Direction::from(reversed), expected);
    }
    // one clockwise step from rest, and the same step taken back
    assert_eq!(Direction::from(0b0001), Direction::Clockwise);
    assert_eq!(Direction::from(0b0100), Direction::CounterClockwise);
}

#[test]
fn rotary_reports_a_failed_line_a_first() {
    let mut rotary = Rotary::new(BrokenPin, BrokenPin);
    assert_eq!(rotary.sample(), Err(PinError::PinA(7)));
    let mut rotary = Rotary::new(TestPin::new(), BrokenPin);
    assert_eq!(rotary.sample(), Err(PinError::PinB(7)));
    assert_eq!(rotary.direction(), Direction::Idle);
}

#[test]
fn rotary_rests_when_both_lines_are_low() {
    // three clockwise steps from rest reach a detent
    let mut rotary = Rotary::new(TestPin::new(), TestPin::new());
    rotary.sample_levels(true, true);
    rotary.sample_levels(false, true);
    rotary.sample_levels(false, false);
    rotary.sample_levels(true, false);
    assert_eq!(rotary.direction(), Direction::Clockwise);

    // coming back to rest midway clears the steps travelled
    let mut rotary = Rotary::new(TestPin::new(), TestPin::new());
    rotary.sample_levels(true, true);
    rotary.sample_levels(false, true);
    rotary.sample_levels(false, false);
    rotary.sample_levels(true, true);
    rotary.sample_levels(false, true);
    assert_eq!(rotary.direction(), Direction::Idle);
    rotary.sample_levels(false, false);
    assert_eq!(rotary.direction(), Direction::Idle);
    rotary.sample_levels(true, false);
    assert_eq!(rotary.direction(), Direction::Clockwise);
}

#[test]
fn detent_rotary_with_detent_of_one_reports_every_transition() {
    let mut rotary = DetentRotary::new(TestPin::new(), TestPin::new(), 1);
    let levels = [(true, false), (true, true), (false, true), (false, false)];
    let mut reported = 0;
    for (a_low, b_low) in levels {
        rotary.sample_levels(a_low, b_low);
        if rotary.direction() == DetentDirection::Clockwise {
            reported += 1;
        }
    }
    assert_eq!(reported, 4);
}

#[test]
fn gate_output_follows_set_value() {
    let mut gate = GateOutput::new(TestOutputPin { high: false });
    gate.set_value(true).unwrap();
    assert!(gate.pin().high);
    gate.set_value(false).unwrap();
    assert!(!gate.pin().high);
    gate.set().unwrap();
    assert!(gate.pin().high);
    gate.reset().unwrap();
    assert!(!gate.pin().high);
}

#[test]
fn debounce_reads_the_majority_of_the_last_writes() {
    let writes = [true, false, true, true, false, false, true, false];
    let mut buffer: DebounceBuffer<3> = DebounceBuffer::new();
    for (k, value) in writes.iter().enumerate() {
        buffer.write(*value);
        let written = &writes[..=k];
        let last = &written[written.len().saturating_sub(3)..];
        let up = last.iter().filter(|v| **v).count();
        assert_eq!(buffer.read(), up > 3 / 2, "after {} writes", k + 1);
    }
}

#[test]
fn debounce_write_keeps_a_reading_of_its_value() {
    let mut buffer: DebounceBuffer<5> = DebounceBuffer::new();
    for value in [true, true, true, false, true, false, false, false, true] {
        let before = buffer.read();
        buffer.write(value);
        if before == value {
            assert_eq!(buffer.read(), value);
        }
    }
}

#[test]
fn button_sample_reading_hands_back_a_failed_reading() {
    let mut button: Button<3, TestPin> = Button::new(TestPin::new());
    assert_eq!(button.sample_reading(Err(())), Err(()));
    assert!(!button.active());
    assert!(button.sample_reading(Ok(true)).is_ok());
    assert!(button.sample_reading(Ok(true)).is_ok());
    assert!(button.active());
    assert!(button.clicked());
}

#[test]
fn rotary_sample_readings_reports_line_a_first() {
    let mut rotary: Rotary<BrokenPin, BrokenPin> = Rotary::new(BrokenPin, BrokenPin);
    assert_eq!(rotary.sample_readings(Err(1), Err(2)), Err(PinError::PinA(1)));
    assert_eq!(rotary.sample_readings(Ok(true), Err(2)), Err(PinError::PinB(2)));
    assert!(rotary.sample_readings(Ok(true), Ok(false)).is_ok());
    assert_eq!(rotary.sample(), Err(PinError::PinA(7)));
}

#[test]
fn detent_rotary_sample_readings_reports_line_a_first() {
    let mut rotary: DetentRotary<BrokenPin, BrokenPin> = DetentRotary::new(BrokenPin, BrokenPin, 4);
    assert_eq!(rotary.sample_readings(Err(3), Ok(true)), Err(PinError::PinA(3)));
    assert_eq!(rotary.sample_readings(Ok(false), Err(4)), Err(PinError::PinB(4)));
    assert!(rotary.sample_readings(Ok(false), Ok(false)).is_ok());
    assert_eq!(rotary.direction(), DetentDirection::Idle);
}
