use vstd::prelude::*;

use crate::text::str_eq;

pub mod turing;

verus! {

/// Cells a beat is divided into, so that both halves and thirds of a beat
/// fall on a cell.
pub const CELLS_IN_BEAT: u32 = 6;

/// Number of cells the trigger pattern holds.
pub const PATTERN_CELLS: usize = 96;

pub const WHOLE_ATTRIBUTE: &'static str = "whole";
pub const HALF_TRIPLET_ATTRIBUTE: &'static str = "half triplet";
pub const HALF_ATTRIBUTE: &'static str = "half";
pub const QUARTER_TRIPLET_ATTRIBUTE: &'static str = "quarter triplet";
pub const QUARTER_ATTRIBUTE: &'static str = "quarter";
pub const EIGHT_TRIPLET_ATTRIBUTE: &'static str = "eight triplet";
pub const EIGHT_ATTRIBUTE: &'static str = "eight";

#[derive(Clone, Copy, PartialEq, Eq, Debug, Structural)]
pub enum NoteLength {
    Whole,
    HalfTriplet,
    Half,
    QuarterTriplet,
    Quarter,
    EightTriplet,
    Eight,
}

/// The length of a note, in cells.
pub open spec fn cells_of(length: NoteLength) -> u32 {
    match length {
        NoteLength::Whole => 24,
        NoteLength::HalfTriplet => 18,
        NoteLength::Half => 12,
        NoteLength::QuarterTriplet => 8,
        NoteLength::Quarter => 6,
        NoteLength::EightTriplet => 4,
        NoteLength::Eight => 3,
    }
}

/// Whether `name` is the name of the attribute that toggles a note length.
pub open spec fn is_length_attribute(name: Seq<char>) -> bool {
    ||| name == WHOLE_ATTRIBUTE@
    ||| name == HALF_TRIPLET_ATTRIBUTE@
    ||| name == HALF_ATTRIBUTE@
    ||| name == QUARTER_TRIPLET_ATTRIBUTE@
    ||| name == QUARTER_ATTRIBUTE@
    ||| name == EIGHT_TRIPLET_ATTRIBUTE@
    ||| name == EIGHT_ATTRIBUTE@
}

/// The note length toggled by the attribute named `name`.
pub open spec fn length_named(name: Seq<char>) -> NoteLength {
    if name == WHOLE_ATTRIBUTE@ {
        NoteLength::Whole
    } else if name == HALF_TRIPLET_ATTRIBUTE@ {
        NoteLength::HalfTriplet
    } else if name == HALF_ATTRIBUTE@ {
        NoteLength::Half
    } else if name == QUARTER_TRIPLET_ATTRIBUTE@ {
        NoteLength::QuarterTriplet
    } else if name == QUARTER_ATTRIBUTE@ {
        NoteLength::Quarter
    } else if name == EIGHT_TRIPLET_ATTRIBUTE@ {
        NoteLength::EightTriplet
    } else {
        NoteLength::Eight
    }
}

impl NoteLength {
    pub const LEN: usize = 7;

    /// The note length toggled by the attribute named `name`.
    pub fn from_attribute(name: &str) -> (r: Self)
        requires
            is_length_attribute(name@),
        ensures
            r == length_named(name@),
    {
        if str_eq(name, WHOLE_ATTRIBUTE) {
            NoteLength::Whole
        } else if str_eq(name, HALF_TRIPLET_ATTRIBUTE) {
            NoteLength::HalfTriplet
        } else if str_eq(name, HALF_ATTRIBUTE) {
            NoteLength::Half
        } else if str_eq(name, QUARTER_TRIPLET_ATTRIBUTE) {
            NoteLength::QuarterTriplet
        } else if str_eq(name, QUARTER_ATTRIBUTE) {
            NoteLength::Quarter
        } else if str_eq(name, EIGHT_TRIPLET_ATTRIBUTE) {
            NoteLength::EightTriplet
        } else {
            NoteLength::Eight
        }
    }

    /// The length of the note, in cells.
    pub fn in_cells(&self) -> (r: u32)
        ensures
            r == cells_of(*self),
    {
        match self {
            NoteLength::Whole => CELLS_IN_BEAT * 4,
            NoteLength::HalfTriplet => CELLS_IN_BEAT * 3,
            NoteLength::Half => CELLS_IN_BEAT * 2,
            NoteLength::QuarterTriplet => (CELLS_IN_BEAT * 4) / 3,
            NoteLength::Quarter => CELLS_IN_BEAT,
            NoteLength::EightTriplet => (CELLS_IN_BEAT * 2) / 3,
            NoteLength::Eight => CELLS_IN_BEAT / 2,
        }
    }
}

/// Every note length divides the whole note: a whole note is two halves,
/// three half triplets, three quarter triplets, four quarters, six eight
/// triplets and eight eights.
pub proof fn lemma_note_lengths_are_proportional()
    ensures
        cells_of(NoteLength::Half) * 2 == cells_of(NoteLength::Whole),
        cells_of(NoteLength::HalfTriplet) * 4 == cells_of(NoteLength::Whole) * 3,
        cells_of(NoteLength::QuarterTriplet) * 3 == cells_of(NoteLength::Whole),
        cells_of(NoteLength::Quarter) * 4 == cells_of(NoteLength::Whole),
        cells_of(NoteLength::EightTriplet) * 6 == cells_of(NoteLength::Whole),
        cells_of(NoteLength::Eight) * 8 == cells_of(NoteLength::Whole),
{
}

pub const CUTOFF_ATTRIBUTE: &'static str = "cutoff";
pub const FEEDBACK_ATTRIBUTE: &'static str = "feedback";
pub const DENSITY_ATTRIBUTE: &'static str = "density";
pub const CHANGE_ATTRIBUTE: &'static str = "change";
pub const BEATS_ATTRIBUTE: &'static str = "beats";

/// The value of a switch that is off.
pub const OFF: &'static str = "off";

/// The value of a switch that is on.
pub const ON: &'static str = "on";

/// A setting of the instrument that takes a number.
#[derive(Clone, Copy, PartialEq, Eq, Debug, Structural)]
pub enum Parameter {
    Cutoff,
    Feedback,
    Density,
    Change,
    Beats,
}

/// The setting the attribute named `name` stands for, if any.
pub open spec fn parameter_of(name: Seq<char>) -> Option<Parameter> {
    if name == CUTOFF_ATTRIBUTE@ {
        Some(Parameter::Cutoff)
    } else if name == FEEDBACK_ATTRIBUTE@ {
        Some(Parameter::Feedback)
    } else if name == DENSITY_ATTRIBUTE@ {
        Some(Parameter::Density)
    } else if name == CHANGE_ATTRIBUTE@ {
        Some(Parameter::Change)
    } else if name == BEATS_ATTRIBUTE@ {
        Some(Parameter::Beats)
    } else {
        None
    }
}

/// The setting the attribute named `name` stands for; `None` for an
/// attribute that sets no number.
pub fn parameter_named(name: &str) -> (r: Option<Parameter>)
    ensures
        r == parameter_of(name@),
{
    if str_eq(name, CUTOFF_ATTRIBUTE) {
        Some(Parameter::Cutoff)
    } else if str_eq(name, FEEDBACK_ATTRIBUTE) {
        Some(Parameter::Feedback)
    } else if str_eq(name, DENSITY_ATTRIBUTE) {
        Some(Parameter::Density)
    } else if str_eq(name, CHANGE_ATTRIBUTE) {
        Some(Parameter::Change)
    } else if str_eq(name, BEATS_ATTRIBUTE) {
        Some(Parameter::Beats)
    } else {
        None
    }
}

/// Whether `name` is the name of the switch of a note length.
pub fn names_length(name: &str) -> (r: bool)
    ensures
        r == is_length_attribute(name@),
{
    str_eq(name, WHOLE_ATTRIBUTE) || str_eq(name, HALF_TRIPLET_ATTRIBUTE) || str_eq(name, HALF_ATTRIBUTE)
        || str_eq(name, QUARTER_TRIPLET_ATTRIBUTE) || str_eq(name, QUARTER_ATTRIBUTE) || str_eq(
        name,
        EIGHT_TRIPLET_ATTRIBUTE,
    ) || str_eq(name, EIGHT_ATTRIBUTE)
}

/// What selecting `value` on the switch of a note length asks: the length,
/// and whether to enable it, which only the value "on" does.
pub fn length_switch(attribute: &str, value: &str) -> (r: (NoteLength, bool))
    requires
        is_length_attribute(attribute@),
    ensures
        r == (length_named(attribute@), value@ == ON@),
{
    (NoteLength::from_attribute(attribute), str_eq(value, ON))
}

/// Bit `j` of a word, counted from the most significant bit.
pub open spec fn bit_of(word: u32, j: u32) -> bool {
    (word >> ((31 - j) as u32)) & 1u32 == 1u32
}

/// Whether cell `m` of the pattern holds a trigger: cell `m` is bit `m % 32`
/// of word `m / 32`, counted from the most significant bit.
pub open spec fn tick_on(triggers: Seq<u32>, m: int) -> bool {
    bit_of(triggers[m / 32], (m % 32) as u32)
}

proof fn lemma_shifted_test(word: u32, j: u32)
    requires
        j < 32,
    ensures
        ((word << j) & (1u32 << 31u32) != 0) == bit_of(word, j),
{
    assert(((word << j) & (1u32 << 31u32) != 0) == ((word >> ((31 - j) as u32)) & 1u32 == 1u32))
        by (bit_vector)
        requires
            j < 32,
    ;
}

proof fn lemma_set_bit(word: u32, k: u32)
    requires
        k < 32,
    ensures
        forall|j: u32| j < 32 ==> #[trigger] bit_of(word | (1u32 << ((31 - k) as u32)), j) == (j == k || bit_of(word, j)),
{
    assert forall|j: u32| j < 32 implies #[trigger] bit_of(word | (1u32 << ((31 - k) as u32)), j) == (j
        == k || bit_of(word, j)) by {
        assert(((word | (1u32 << ((31 - k) as u32))) >> ((31 - j) as u32)) & 1u32 == 1u32 <==> (j == k || (
        word >> ((31 - j) as u32)) & 1u32 == 1u32)) by (bit_vector)
            requires
                j < 32,
                k < 32,
        ;
    }
}

proof fn lemma_clear_bit(word: u32, k: u32)
    requires
        k < 32,
    ensures
        forall|j: u32| j < 32 ==> #[trigger] bit_of(word & !(1u32 << ((31 - k) as u32)), j) == (j != k && bit_of(word, j)),
{
    assert forall|j: u32| j < 32 implies #[trigger] bit_of(word & !(1u32 << ((31 - k) as u32)), j) == (j
        != k && bit_of(word, j)) by {
        assert(((word & !(1u32 << ((31 - k) as u32))) >> ((31 - j) as u32)) & 1u32 == 1u32 <==> (j != k && (
        word >> ((31 - j) as u32)) & 1u32 == 1u32)) by (bit_vector)
            requires
                j < 32,
                k < 32,
        ;
    }
}

/// Whether cell `tick_index` of the pattern holds a trigger.
pub fn is_nth_tick_on(triggers: &[u32; 3], tick_index: usize) -> (r: bool)
    requires
        tick_index < PATTERN_CELLS,
    ensures
        r == tick_on(triggers@, tick_index as int),
{
    let (field_index, tick_index) = {
        let quotient = tick_index / 32;
        (quotient, tick_index - 32 * quotient)
    };
    let shift = tick_index as u32;
    proof {
        lemma_shifted_test(triggers[field_index as int], shift);
    }
    triggers[field_index] << shift & (1 << 31) != 0
}

/// Puts a trigger on cell `tick_index`.
pub fn set_nth_tick_on(triggers: &mut [u32; 3], tick_index: usize)
    requires
        tick_index < PATTERN_CELLS,
    ensures
        forall|m: int|
            0 <= m < PATTERN_CELLS ==> #[trigger] tick_on(final(triggers)@, m) == (m
                == tick_index || tick_on(old(triggers)@, m)),
{
    let tick_block = tick_index / 32;
    let tick_index_within_block = tick_index - tick_block * 32;
    let k = tick_index_within_block as u32;
    let old_word = triggers[tick_block];
    triggers[tick_block] = old_word | (1 << (31 - k));
    proof {
        lemma_set_bit(old_word, k);
        assert forall|m: int| 0 <= m < PATTERN_CELLS implies #[trigger] tick_on(triggers@, m) == (m
            == tick_index || tick_on(old(triggers)@, m)) by {
            if m / 32 == tick_block {
                assert(bit_of(triggers@[m / 32], (m % 32) as u32) == ((m % 32) as u32 == k || bit_of(
                    old_word,
                    (m % 32) as u32,
                )));
            }
        }
    }
}

/// Takes the trigger off cell `tick_index`.
pub fn set_nth_tick_off(triggers: &mut [u32; 3], tick_index: usize)
    requires
        tick_index < PATTERN_CELLS,
    ensures
        forall|m: int|
            0 <= m < PATTERN_CELLS ==> #[trigger] tick_on(final(triggers)@, m) == (m
                != tick_index && tick_on(old(triggers)@, m)),
{
    let tick_block = tick_index / 32;
    let tick_index_within_block = tick_index - tick_block * 32;
    let k = tick_index_within_block as u32;
    let old_word = triggers[tick_block];
    triggers[tick_block] = old_word & !(1 << (31 - k));
    proof {
        lemma_clear_bit(old_word, k);
        assert forall|m: int| 0 <= m < PATTERN_CELLS implies #[trigger] tick_on(triggers@, m) == (m
            != tick_index && tick_on(old(triggers)@, m)) by {
            if m / 32 == tick_block {
                assert(bit_of(triggers@[m / 32], (m % 32) as u32) == ((m % 32) as u32 != k && bit_of(
                    old_word,
                    (m % 32) as u32,
                )));
            }
        }
    }
}

proof fn lemma_reset_word(a: u64, b: u64, value: u32, mask: u64, j: u32)
    requires
        b <= a < 32,
        mask == (((1u64 << ((a - b) + 1) as u64) - 1) as u64) << b,
        j < 32,
    ensures
        bit_of(value & !(mask as u32), j) == (bit_of(value, j) && !(b <= 31 - j <= a)),
{
    assert(((value & !(mask as u32)) >> ((31 - j) as u32)) & 1u32 == 1u32 <==> ((value >> ((31
        - j) as u32)) & 1u32 == 1u32 && !(b <= (31 - j) as u64 && (31 - j) as u64 <= a)))
        by (bit_vector)
        requires
            b <= a,
            a < 32,
            mask == (((1u64 << ((a - b) + 1) as u64) - 1) as u64) << b,
            j < 32,
    ;
}

/// Clears bits `left` to `right` of a word, counted from the most significant bit.
fn reset_range_in_u32(left: usize, right: usize, value: u32) -> (r: u32)
    requires
        left <= right < 32,
    ensures
        forall|j: u32| j < 32 ==> #[trigger] bit_of(r, j) == (bit_of(value, j) && !(left <= j <= right)),
{
    let left = 31 - left;
    let right = 31 - right;
    let width = (left - right) + 1;
    assert(1u64 << width >= 1) by (bit_vector)
        requires
            width <= 32,
    ;
    let mask = ((1u64 << width) - 1) << right;
    proof {
        assert forall|j: u32| j < 32 implies #[trigger] bit_of(value & !(mask as u32), j) == (
        bit_of(value, j) && !(31 - left <= j <= 31 - right)) by {
            lemma_reset_word(left as u64, right as u64, value, mask, j);
        }
    }
    value & !(mask as u32)
}

/// Takes the triggers off cells `left` to `right`, both included; cells past
/// the pattern are ignored.
pub fn reset_range(left: usize, right: usize, triggers: &mut [u32; 3])
    requires
        left <= right,
        left < PATTERN_CELLS,
    ensures
        forall|m: int|
            0 <= m < PATTERN_CELLS ==> #[trigger] tick_on(final(triggers)@, m) == (tick_on(
                old(triggers)@,
                m,
            ) && !(left <= m <= right)),
    decreases PATTERN_CELLS - left,
{
    let block_left = left / 32;
    let block_right = right / 32;

    let is_fully_within_block = block_left == block_right;

    let left_index_within_block = left - block_left * 32;
    let right_index_within_block = if is_fully_within_block {
        right - block_right * 32
    } else {
        31
    };
    let old_word = triggers[block_left];
    triggers[block_left] = reset_range_in_u32(
        left_index_within_block,
        right_index_within_block,
        old_word,
    );
    let ghost mid = triggers@;
    proof {
        assert forall|m: int| 0 <= m < PATTERN_CELLS implies #[trigger] tick_on(mid, m) == (
        tick_on(old(triggers)@, m) && !(left <= m <= block_left * 32 + right_index_within_block)) by {
            if m / 32 == block_left {
                assert(bit_of(mid[m / 32], (m % 32) as u32) == (bit_of(old_word, (m % 32) as u32)
                    && !(left_index_within_block <= (m % 32) as u32 <= right_index_within_block)));
            }
        }
    }

    let is_last = block_left == triggers.len() - 1;
    if is_fully_within_block || is_last {
        return ;
    }

    reset_range((block_left + 1) * 32, right, triggers);
}

/// Places a note of `length` cells starting on cell `start`: the cells it
/// covers lose their triggers but for the first, which gains one.
pub fn place_note(start: usize, length: u32, triggers: &mut [u32; 3])
    requires
        start < PATTERN_CELLS,
        length >= 1,
        start + length <= usize::MAX,
    ensures
        forall|m: int|
            0 <= m < PATTERN_CELLS ==> #[trigger] tick_on(final(triggers)@, m) == (m == start || (
            tick_on(old(triggers)@, m) && !(start <= m < start + length))),
{
    reset_range(start, start + length as usize - 1, triggers);
    set_nth_tick_on(triggers, start);
}

/// Capacity of the list of cells that hold a trigger.
pub const TICK_LIST_CAPACITY: usize = 32;

#[verifier::external_type_specification]
#[verifier::external_body]
#[verifier::reject_recursive_types(T)]
pub struct ExHeaplessVec<T, const N: usize>(heapless::Vec<T, N>);

/// What a list of cells holds, in order.
pub uninterp spec fn tick_list(v: heapless::Vec<usize, 32>) -> Seq<usize>;

/// An empty list, made by `heapless::Vec::new`.
#[verifier::external_body]
fn tick_list_new() -> (r: heapless::Vec<usize, 32>)
    ensures
        tick_list(r) == Seq::<usize>::empty(),
{
    heapless::Vec::new()
}

/// `heapless::Vec::push`: appends `cell` unless the list is full, in which
/// case it hands `cell` back and leaves the list as it was.
#[verifier::external_body]
fn tick_list_push(v: &mut heapless::Vec<usize, 32>, cell: usize) -> (r: Result<(), usize>)
    ensures
        (match r {
            Ok(_) => tick_list(*old(v)).len() < TICK_LIST_CAPACITY && tick_list(*final(v))
                == tick_list(*old(v)).push(cell),
            Err(returned) => tick_list(*old(v)).len() >= TICK_LIST_CAPACITY && returned == cell
                && tick_list(*final(v)) == tick_list(*old(v)),
        }),
{
    v.push(cell)
}

/// The length of the list, which `heapless::Vec` derefs to a slice for.
#[verifier::external_body]
fn tick_list_len(v: &heapless::Vec<usize, 32>) -> (r: usize)
    ensures
        r == tick_list(*v).len(),
{
    v.len()
}

/// `heapless::Vec::swap_remove`: takes out the item at `index` and moves the
/// last item into its place.
#[verifier::external_body]
fn tick_list_swap_remove(v: &mut heapless::Vec<usize, 32>, index: usize) -> (r: usize)
    requires
        index < tick_list(*old(v)).len(),
    ensures
        r == tick_list(*old(v))[index as int],
        tick_list(*final(v)) == tick_list(*old(v)).update(index as int, tick_list(*old(v)).last()).drop_last(),
{
    v.swap_remove(index)
}

/// The cells below `n` that hold a trigger, in ascending order.
pub open spec fn ticks_on_below(triggers: Seq<u32>, n: int) -> Seq<usize>
    decreases n,
{
    if n <= 0 {
        Seq::empty()
    } else if tick_on(triggers, n - 1) {
        ticks_on_below(triggers, n - 1).push((n - 1) as usize)
    } else {
        ticks_on_below(triggers, n - 1)
    }
}

/// The cells of the pattern that hold a trigger, in ascending order.
pub open spec fn ticks_on(triggers: Seq<u32>) -> Seq<usize> {
    ticks_on_below(triggers, PATTERN_CELLS as int)
}

proof fn lemma_ticks_on_below_grows(triggers: Seq<u32>, i: int, n: int)
    requires
        0 <= i <= n,
    ensures
        ticks_on_below(triggers, i).len() <= ticks_on_below(triggers, n).len(),
    decreases n - i,
{
    if i < n {
        lemma_ticks_on_below_grows(triggers, i, n - 1);
    }
}

/// The cells listed are those below `n` that hold a trigger, in strictly
/// ascending order.
proof fn lemma_ticks_on_below_ascending(triggers: Seq<u32>, n: int)
    requires
        n <= PATTERN_CELLS,
    ensures
        forall|i: int|
            0 <= i < ticks_on_below(triggers, n).len() ==> 0 <= #[trigger] ticks_on_below(triggers, n)[i]
                < n && tick_on(triggers, ticks_on_below(triggers, n)[i] as int),
        forall|i: int, j: int|
            0 <= i < j < ticks_on_below(triggers, n).len() ==> #[trigger] ticks_on_below(triggers, n)[i]
                < #[trigger] ticks_on_below(triggers, n)[j],
        ticks_on_below(triggers, n).no_duplicates(),
    decreases n,
{
    let s = ticks_on_below(triggers, n);
    if n > 0 {
        lemma_ticks_on_below_ascending(triggers, n - 1);
        let p = ticks_on_below(triggers, n - 1);
        assert forall|i: int| 0 <= i < s.len() implies 0 <= #[trigger] s[i] < n && tick_on(
            triggers,
            s[i] as int,
        ) by {
            if i < p.len() {
                assert(s[i] == p[i]);
            }
        }
        assert forall|i: int, j: int| 0 <= i < j < s.len() implies #[trigger] s[i] < #[trigger] s[j] by {
            assert(s[i] == p[i]);
            if j < p.len() {
                assert(s[j] == p[j]);
            }
        }
    }
    assert forall|i: int, j: int| 0 <= i < s.len() && 0 <= j < s.len() && i != j implies s[i]
        != s[j] by {
        if i < j {
            assert(s[i] < s[j]);
        } else {
            assert(s[j] < s[i]);
        }
    }
}

/// When the cells holding a trigger in `after` held one in `before` but for
/// cell `extra`, `after` has at most one more of them below `n`.
proof fn lemma_ticks_on_below_bounded(before: Seq<u32>, after: Seq<u32>, n: int, extra: int)
    requires
        forall|m: int| 0 <= m < n && #[trigger] tick_on(after, m) ==> tick_on(before, m) || m == extra,
    ensures
        ticks_on_below(after, n).len() <= ticks_on_below(before, n).len() + (if 0 <= extra < n {
            1int
        } else {
            0int
        }),
    decreases n,
{
    if n > 0 {
        lemma_ticks_on_below_bounded(before, after, n - 1, extra);
        if tick_on(after, n - 1) {
        }
    }
}

/// Taking the trigger off a cell that holds one leaves one fewer.
proof fn lemma_ticks_on_below_cleared(before: Seq<u32>, after: Seq<u32>, n: int, cleared: int)
    requires
        0 <= cleared < n,
        tick_on(before, cleared),
        forall|m: int| 0 <= m < n ==> #[trigger] tick_on(after, m) == (tick_on(before, m) && m != cleared),
    ensures
        ticks_on_below(after, n).len() + 1 == ticks_on_below(before, n).len(),
    decreases n,
{
    if n - 1 == cleared {
        lemma_ticks_on_below_same(before, after, n - 1);
    } else {
        lemma_ticks_on_below_cleared(before, after, n - 1, cleared);
        if tick_on(after, n - 1) {
        }
    }
}

/// Patterns that agree below `n` hold the same cells below `n`.
proof fn lemma_ticks_on_below_same(a: Seq<u32>, b: Seq<u32>, n: int)
    requires
        forall|m: int| 0 <= m < n ==> #[trigger] tick_on(a, m) == tick_on(b, m),
    ensures
        ticks_on_below(a, n) == ticks_on_below(b, n),
    decreases n,
{
    if n > 0 {
        lemma_ticks_on_below_same(a, b, n - 1);
        assert(tick_on(a, n - 1) == tick_on(b, n - 1));
    }
}

/// The cells of the pattern that hold a trigger, in ascending order; the list
/// holds at most 32 of them.
pub fn find_ticks_on(triggers: &[u32; 3]) -> (r: heapless::Vec<usize, 32>)
    requires
        ticks_on(triggers@).len() <= TICK_LIST_CAPACITY,
    ensures
        tick_list(r) == ticks_on(triggers@),
{
    let mut ticks = tick_list_new();
    let mut i: usize = 0;
    while i < PATTERN_CELLS
        invariant
            i <= PATTERN_CELLS,
            tick_list(ticks) == ticks_on_below(triggers@, i as int),
            ticks_on(triggers@).len() <= TICK_LIST_CAPACITY,
        decreases PATTERN_CELLS - i,
    {
        if is_nth_tick_on(triggers, i) {
            proof {
                lemma_ticks_on_below_grows(triggers@, i + 1, PATTERN_CELLS as int);
            }
            let _ = tick_list_push(&mut ticks, i);
        }
        i += 1;
    }
    ticks
}

} // verus!
