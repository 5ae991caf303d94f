//! A self-changing rhythm: a pattern of triggers that, each time it has
//! played through, drops some notes and places new ones, moving the number of
//! notes towards a wanted density.

use vstd::prelude::*;

use crate::sequencer::{
    cells_of, find_ticks_on, is_nth_tick_on, lemma_ticks_on_below_ascending,
    lemma_ticks_on_below_bounded, lemma_ticks_on_below_cleared, place_note, set_nth_tick_off,
    tick_list, tick_list_len, tick_list_swap_remove, tick_on, ticks_on, NoteLength, CELLS_IN_BEAT,
    PATTERN_CELLS, TICK_LIST_CAPACITY,
};

verus! {

/// A source of random numbers, implemented by the user of the sequencer.
pub trait Rand {
    fn generate(&mut self) -> u16;
}

/// Most beats a pattern can span: its cells must fit the pattern.
pub const MAX_BEATS: u32 = 16;

/// Most notes the sequencer can aim for: the list of cells holding a trigger
/// has room for no more.
pub const MAX_DENSITY: u32 = 32;

/// Room in the map of tones.
pub const TONE_CAPACITY: usize = 64;

/// Room in the list of enabled note lengths, one for each length.
pub const LENGTHS_CAPACITY: usize = 7;

/// The tones of the notes, by the cell they start on; a tone is kept as the
/// random draw it was made from.
#[verifier::external_body]
pub struct ToneMap {
    map: heapless::FnvIndexMap<usize, u16, 64>,
}

/// What a map of tones holds.
pub uninterp spec fn tones_held(tones: ToneMap) -> Map<usize, u16>;

/// An empty map, made by `heapless::FnvIndexMap::new`.
#[verifier::external_body]
fn tone_map_new() -> (r: ToneMap)
    ensures
        tones_held(r).dom() == Set::<usize>::empty(),
{
    ToneMap { map: heapless::FnvIndexMap::new() }
}

/// `heapless::IndexMap::insert`: sets the tone of `cell` and hands back the
/// one it replaced; when the map is full it hands back the pair and leaves
/// the map as it was.
#[verifier::external_body]
fn tone_map_insert(tones: &mut ToneMap, cell: usize, tone: u16) -> (r: Result<Option<u16>, (usize, u16)>)
    ensures
        (match r {
            Ok(replaced) => tones_held(*final(tones)) == tones_held(*old(tones)).insert(cell, tone)
                && replaced == (if tones_held(*old(tones)).dom().contains(cell) {
                Some(tones_held(*old(tones))[cell])
            } else {
                None
            }),
            Err(pair) => pair == (cell, tone) && tones_held(*final(tones)) == tones_held(*old(tones))
                && tones_held(*old(tones)).dom().len() >= TONE_CAPACITY,
        }),
{
    tones.map.insert(cell, tone)
}

/// `heapless::IndexMap::get`: the tone of `cell`, if it has one.
#[verifier::external_body]
fn tone_map_get(tones: &ToneMap, cell: usize) -> (r: Option<u16>)
    ensures
        r == (if tones_held(*tones).dom().contains(cell) {
            Some(tones_held(*tones)[cell])
        } else {
            None
        }),
{
    tones.map.get(&cell).copied()
}

/// `heapless::IndexMap::remove`: takes out the tone of `cell`, if it has
/// one.
#[verifier::external_body]
fn tone_map_remove(tones: &mut ToneMap, cell: usize) -> (r: Option<u16>)
    ensures
        tones_held(*final(tones)) == tones_held(*old(tones)).remove(cell),
        r == (if tones_held(*old(tones)).dom().contains(cell) {
            Some(tones_held(*old(tones))[cell])
        } else {
            None
        }),
{
    tones.map.remove(&cell)
}

/// What a list of note lengths holds, in order.
pub uninterp spec fn length_list(v: heapless::Vec<NoteLength, 7>) -> Seq<NoteLength>;

/// An empty list, made by `heapless::Vec::new`.
#[verifier::external_body]
fn length_list_new() -> (r: heapless::Vec<NoteLength, 7>)
    ensures
        length_list(r) == Seq::<NoteLength>::empty(),
{
    heapless::Vec::new()
}

/// `heapless::Vec::push`: appends `length` unless the list is full, in which
/// case it hands `length` back and leaves the list as it was.
#[verifier::external_body]
fn length_list_push(v: &mut heapless::Vec<NoteLength, 7>, length: NoteLength) -> (r: Result<(), NoteLength>)
    ensures
        (match r {
            Ok(_) => length_list(*old(v)).len() < LENGTHS_CAPACITY && length_list(*final(v))
                == length_list(*old(v)).push(length),
            Err(returned) => length_list(*old(v)).len() >= LENGTHS_CAPACITY && returned == length
                && length_list(*final(v)) == length_list(*old(v)),
        }),
{
    v.push(length)
}

/// The length of the list, which `heapless::Vec` derefs to a slice for.
#[verifier::external_body]
fn length_list_len(v: &heapless::Vec<NoteLength, 7>) -> (r: usize)
    ensures
        r == length_list(*v).len(),
{
    v.len()
}

/// The item at `index`, through the slice `heapless::Vec` derefs to.
#[verifier::external_body]
fn length_list_get(v: &heapless::Vec<NoteLength, 7>, index: usize) -> (r: Option<NoteLength>)
    ensures
        r == (if index < length_list(*v).len() {
            Some(length_list(*v)[index as int])
        } else {
            None
        }),
{
    v.get(index).copied()
}

/// `heapless::Vec::swap_remove`: takes out the item at `index` and moves the
/// last item into its place.
#[verifier::external_body]
fn length_list_swap_remove(v: &mut heapless::Vec<NoteLength, 7>, index: usize) -> (r: NoteLength)
    requires
        index < length_list(*old(v)).len(),
    ensures
        r == length_list(*old(v))[index as int],
        length_list(*final(v)) == length_list(*old(v)).update(index as int, length_list(*old(v)).last()).drop_last(),
{
    v.swap_remove(index)
}

/// Whether a note may start on `cell`: note lengths are all multiples of
/// three or four cells and notes start on a multiple of their length.
pub open spec fn note_cell(cell: int) -> bool {
    0 <= cell < PATTERN_CELLS && (cell % 3 == 0 || cell % 4 == 0)
}

/// The number of cells below `n` a note may start on.
pub open spec fn note_cells_below(n: int) -> nat
    decreases n,
{
    if n <= 0 {
        0
    } else {
        note_cells_below(n - 1) + (if (n - 1) % 3 == 0 || (n - 1) % 4 == 0 {
            1nat
        } else {
            0nat
        })
    }
}

proof fn lemma_note_cells_bound(cells: Set<usize>, n: int)
    requires
        0 <= n <= PATTERN_CELLS,
        cells.finite(),
        forall|cell: usize| #[trigger] cells.contains(cell) ==> cell < n && (cell % 3 == 0 || cell % 4
            == 0),
    ensures
        cells.len() <= note_cells_below(n),
    decreases n,
{
    if n > 0 {
        let last = (n - 1) as usize;
        let rest = cells.remove(last);
        lemma_note_cells_bound(rest, n - 1);
        if cells.contains(last) {
            assert(cells.len() == rest.len() + 1);
        } else {
            assert(rest =~= cells);
        }
    } else {
        assert(cells =~= Set::<usize>::empty());
    }
}

#[verifier::spinoff_prover]
proof fn lemma_note_cells_count()
    ensures
        note_cells_below(PATTERN_CELLS as int) == 48,
{
    reveal_with_fuel(note_cells_below, 97);
}

/// The number of cells a sequencer pattern plays before it repeats.
pub open spec fn cells_of_beats(beats: u32) -> u32 {
    (beats * CELLS_IN_BEAT) as u32
}

/// How many notes a change of pattern places and drops: it drops the excess
/// over the density, places what is missing, or, at the density, replaces
/// notes; never more than `rate` of either.
pub open spec fn change_plan(count: nat, density: nat, rate: nat) -> (nat, nat) {
    if count < density {
        (min((density - count) as nat, rate), 0)
    } else if count == density {
        (min(density, rate), min(density, rate))
    } else {
        (0, min((count - density) as nat, rate))
    }
}

pub open spec fn min(a: nat, b: nat) -> nat {
    if a < b {
        a
    } else {
        b
    }
}

/// A change of pattern moves the number of notes towards the density and
/// never past it: placing at most what the plan says and dropping exactly
/// what it says leaves a count between the old one and the density.
pub proof fn lemma_change_plan_approaches_density(count: nat, density: nat, rate: nat, placed: nat)
    requires
        placed <= change_plan(count, density, rate).0,
    ensures
        change_plan(count, density, rate).1 <= count,
        count > density ==> placed == 0,
        ({
            let after = count - change_plan(count, density, rate).1 + placed;
            &&& count <= density ==> after <= density
            &&& count > density ==> density <= after < count || rate == 0 && after == count
        }),
{
}

/// A change of pattern places and drops at most `rate` notes each, and goes
/// as far as the rate lets it: short of the density it places `rate` notes or
/// all that are missing and drops none, past it it drops `rate` notes or the
/// whole excess and places none, and at it replaces `rate` notes or all of
/// them.
pub proof fn lemma_change_plan_keeps_to_rate(count: nat, density: nat, rate: nat)
    ensures
        ({
            let (placed, dropped) = change_plan(count, density, rate);
            &&& placed <= rate
            &&& dropped <= rate
            &&& count < density ==> dropped == 0 && count + placed <= density && (placed == rate
                || count + placed == density)
            &&& count > density ==> placed == 0 && density <= count - dropped && (dropped == rate
                || count - dropped == density)
            &&& count == density ==> placed == dropped && placed <= count && (placed == rate
                || placed == count)
        }),
{
}

/// The rhythm: which of the pattern's cells hold a trigger, the tone of each
/// note, and how the pattern changes.
pub struct Turing {
    pub triggers: [u32; 3],
    pub tones: ToneMap,
    /// Samples played since the pattern started.
    pub phase: u32,
    /// The note lengths new notes are drawn from.
    pub lengths: heapless::Vec<NoteLength, 7>,
    /// The number of notes to aim for.
    pub density: u32,
    /// The most notes placed or dropped at each change.
    pub rate_of_change: u32,
    /// The beats the pattern spans.
    pub beats: u32,
}

impl Turing {
    /// The sequencer is in a state it can run in: its pattern fits, each
    /// note has a tone, there are no more notes than the list of notes can
    /// hold and no more tones than the map of tones can hold, and each note
    /// length is enabled at most once.
    pub open spec fn wf(&self) -> bool {
        &&& 1 <= self.beats <= MAX_BEATS
        &&& self.density <= MAX_DENSITY
        &&& length_list(self.lengths).no_duplicates()
        &&& tones_held(self.tones).dom().finite()
        &&& forall|cell: usize| #[trigger]
            tones_held(self.tones).dom().contains(cell) ==> note_cell(cell as int)
        &&& forall|m: int|
            0 <= m < PATTERN_CELLS && #[trigger] tick_on(self.triggers@, m) ==> tones_held(
                self.tones,
            ).dom().contains(m as usize)
        &&& ticks_on(self.triggers@).len() <= MAX_DENSITY
    }

    /// An empty pattern over four beats, aiming for sixteen notes and
    /// changing up to four at a time, with no note length enabled.
    pub fn new() -> (r: Self)
        ensures
            r.wf(),
            r.triggers@ == seq![0u32, 0u32, 0u32],
            tones_held(r.tones).dom() == Set::<usize>::empty(),
            r.phase == 0,
            length_list(r.lengths) == Seq::<NoteLength>::empty(),
            r.density == 16,
            r.rate_of_change == 4,
            r.beats == 4,
    {
        let r = Self {
            triggers: [0, 0, 0],
            tones: tone_map_new(),
            phase: 0,
            density: 16,
            rate_of_change: 4,
            lengths: length_list_new(),
            beats: 4,
        };
        proof {
            assert(forall|j: u32| #[trigger] ((0u32 >> j) & 1u32) == 0u32) by (bit_vector);
            assert forall|m: int| 0 <= m < PATTERN_CELLS implies !#[trigger] tick_on(r.triggers@, m) by {
                assert(r.triggers@[m / 32] == 0u32);
                assert(((0u32 >> ((31 - (m % 32)) as u32)) & 1u32) == 0u32);
            }
            assert(ticks_on(r.triggers@).len() == 0) by {
                lemma_no_ticks_on(r.triggers@, PATTERN_CELLS as int);
            }
        }
        r
    }

    /// The number of cells the pattern plays before it repeats.
    pub fn enabled_cells(&self) -> (r: u32)
        requires
            self.beats <= MAX_BEATS,
        ensures
            r == cells_of_beats(self.beats),
    {
        self.beats * CELLS_IN_BEAT
    }
}

/// The pattern of `after` changed from that of `before` as the plan says:
/// it holds at most the notes left after dropping the planned number, plus
/// the planned placements when some note length is enabled, and exactly the
/// notes left when nothing is placed.
pub open spec fn changed_within_plan(before: Turing, after: Turing) -> bool {
    let count = ticks_on(before.triggers@).len();
    let plan = change_plan(count, before.density as nat, before.rate_of_change as nat);
    let placed = if length_list(before.lengths).len() > 0 {
        plan.0
    } else {
        0
    };
    let notes = ticks_on(after.triggers@).len();
    &&& plan.1 <= count
    &&& notes <= count - plan.1 + placed
    &&& placed == 0 ==> notes == count - plan.1
}

proof fn lemma_note_start(draw: u32, cells: u32, length: u32)
    requires
        0 < cells <= PATTERN_CELLS,
        length == 24 || length == 18 || length == 12 || length == 8 || length == 6 || length == 4
            || length == 3,
    ensures
        ((draw % cells) / length) * length <= draw % cells < cells,
        note_cell(((draw % cells) / length) * length),
{
    let x = draw % cells;
    let p = x / length;
    assert(p * length <= x) by (nonlinear_arith)
        requires
            length > 0,
            p == x / length,
            x >= 0,
    ;
    assert(p >= 0) by (nonlinear_arith)
        requires
            length > 0,
            p == x / length,
            x >= 0,
    ;
    let d: int = if length % 3 == 0 {
        3
    } else {
        4
    };
    let k: int = length as int / d;
    assert(length == k * d);
    assert(p * length == (p * k) * d) by (nonlinear_arith)
        requires
            length == k * d,
    ;
    vstd::arithmetic::div_mod::lemma_mod_multiples_basic(p * k, d);
}

proof fn lemma_swap_remove_keeps_distinct(list: Seq<usize>, position: int)
    requires
        0 <= position < list.len(),
        list.no_duplicates(),
    ensures
        ({
            let rest = list.update(position, list.last()).drop_last();
            &&& rest.no_duplicates()
            &&& forall|i: int|
                0 <= i < rest.len() ==> #[trigger] rest[i] != list[position] && list.contains(rest[i])
        }),
{
    let rest = list.update(position, list.last()).drop_last();
    let last = list.len() - 1;
    assert forall|i: int| 0 <= i < rest.len() implies #[trigger] rest[i] != list[position] && list.contains(
        rest[i],
    ) by {
        if i == position {
            assert(rest[i] == list[last]);
        } else {
            assert(rest[i] == list[i]);
        }
    }
    assert forall|i: int, j: int| 0 <= i < rest.len() && 0 <= j < rest.len() && i != j implies rest[i]
        != rest[j] by {
        let a = if i == position {
            last
        } else {
            i
        };
        let b = if j == position {
            last
        } else {
            j
        };
        assert(rest[i] == list[a]);
        assert(rest[j] == list[b]);
    }
}

/// Whether a note can start on `cell` in a pattern spanning `beats` beats
/// and drawing lengths from `lengths`: the cell is within the pattern and a
/// multiple of one of the lengths.
pub open spec fn placeable(lengths: Seq<NoteLength>, beats: u32, cell: int) -> bool {
    &&& 0 <= cell < cells_of_beats(beats)
    &&& exists|i: int| 0 <= i < lengths.len() && cell % (cells_of(#[trigger] lengths[i]) as int) == 0
}

/// The cell a note drawn with `length_draw` and `spot_draw` starts on: its
/// length is the enabled one the first draw picks, and it starts on the
/// multiple of that length below the cell the second draw picks.
pub open spec fn drawn_start(lengths: Seq<NoteLength>, beats: u32, length_draw: u16, spot_draw: u16) -> int {
    let length = cells_of(lengths[(length_draw as nat % lengths.len()) as int]) as int;
    let cells = cells_of_beats(beats) as int;
    ((spot_draw as int % cells) / length) * length
}

/// The pattern of `after` came from that of `before` by dropping notes and
/// placing new ones, as the plan says: every cell holding a trigger after
/// either held one before or is a cell a note can start on; only cells that
/// lose their trigger lose their tone, and a cell gains a tone only where a
/// note can start; when nothing is placed, no cell gains a trigger and every
/// cell that loses its trigger loses its tone; when notes are placed, the
/// last one placed holds a trigger and a tone.
pub open spec fn changed_by_draws(before: Turing, after: Turing) -> bool {
    let lengths = length_list(before.lengths);
    let count = ticks_on(before.triggers@).len();
    let plan = change_plan(count, before.density as nat, before.rate_of_change as nat);
    let placed = if lengths.len() > 0 {
        plan.0
    } else {
        0
    };
    let old_tones = tones_held(before.tones).dom();
    let new_tones = tones_held(after.tones).dom();
    &&& changed_within_plan(before, after)
    &&& forall|m: int|
        0 <= m < PATTERN_CELLS && #[trigger] tick_on(after.triggers@, m) && !tick_on(before.triggers@, m)
            ==> placeable(lengths, before.beats, m)
    &&& forall|k: usize|
        #[trigger] old_tones.contains(k) && !new_tones.contains(k) ==> tick_on(before.triggers@, k as int)
            && !tick_on(after.triggers@, k as int)
    &&& forall|k: usize|
        #[trigger] new_tones.contains(k) && !old_tones.contains(k) ==> placeable(lengths, before.beats, k as int)
    &&& placed == 0 ==> forall|m: int|
        0 <= m < PATTERN_CELLS && #[trigger] tick_on(before.triggers@, m) && !tick_on(after.triggers@, m)
            ==> !new_tones.contains(m as usize)
    &&& placed > 0 ==> exists|m: int|
        placeable(lengths, before.beats, m) && #[trigger] tick_on(after.triggers@, m) && new_tones.contains(
            m as usize,
        )
}

/// The cells of the pattern that hold a trigger.
pub open spec fn cells_on(triggers: Seq<u32>) -> Set<int> {
    Set::new(|m: int| 0 <= m < PATTERN_CELLS && tick_on(triggers, m))
}

/// The list of cells holding a trigger, the cells holding one and the tones
/// after dropping one note for each of `draws` in turn: a draw picks the
/// cell at its position modulo the list's length, which leaves the list, the
/// last cell taking its place, and loses its trigger and its tone.
pub open spec fn after_drops(list: Seq<usize>, on: Set<int>, tones: Map<usize, u16>, draws: Seq<u16>) -> (
    Seq<usize>,
    Set<int>,
    Map<usize, u16>,
)
    decreases draws.len(),
{
    if draws.len() == 0 {
        (list, on, tones)
    } else {
        let earlier = after_drops(list, on, tones, draws.drop_last());
        let position = (draws.last() as nat % earlier.0.len()) as int;
        let cell = earlier.0[position];
        (
            earlier.0.update(position, earlier.0.last()).drop_last(),
            earlier.1.remove(cell as int),
            earlier.2.remove(cell),
        )
    }
}

/// The cells holding a trigger and the tones after placing one note for each
/// pair of `draws` in turn, the first of a pair picking the length and the
/// tone, the second the spot: the note's first cell gains a trigger and the
/// tone, the other cells it covers lose their triggers.
pub open spec fn after_places(
    lengths: Seq<NoteLength>,
    beats: u32,
    on: Set<int>,
    tones: Map<usize, u16>,
    draws: Seq<(u16, u16)>,
) -> (Set<int>, Map<usize, u16>)
    decreases draws.len(),
{
    if draws.len() == 0 {
        (on, tones)
    } else {
        let earlier = after_places(lengths, beats, on, tones, draws.drop_last());
        let length_draw = draws.last().0;
        let start = drawn_start(lengths, beats, length_draw, draws.last().1);
        let covered = cells_of(lengths[(length_draw as nat % lengths.len()) as int]) as int;
        (
            Set::new(|m: int| m == start || (earlier.0.contains(m) && !(start <= m < start + covered))),
            earlier.1.insert(start as usize, length_draw),
        )
    }
}

/// The cells holding a trigger and the tones of `before` after dropping a
/// note for each of `drops`, starting from its list of cells holding a
/// trigger in ascending order, and then placing one for each pair of
/// `places`.
pub open spec fn replayed(before: Turing, drops: Seq<u16>, places: Seq<(u16, u16)>) -> (Set<int>, Map<usize, u16>) {
    let dropped = after_drops(
        ticks_on(before.triggers@),
        cells_on(before.triggers@),
        tones_held(before.tones),
        drops,
    );
    after_places(length_list(before.lengths), before.beats, dropped.1, dropped.2, places)
}

/// The pattern of `after` is that of `before` after dropping exactly as many
/// notes as the plan says and then, when some note length is enabled,
/// placing exactly as many as it says, each from the draws it was made from.
pub open spec fn changed_as_drawn(before: Turing, after: Turing) -> bool {
    let count = ticks_on(before.triggers@).len();
    let plan = change_plan(count, before.density as nat, before.rate_of_change as nat);
    let placed = if length_list(before.lengths).len() > 0 {
        plan.0
    } else {
        0
    };
    exists|drops: Seq<u16>, places: Seq<(u16, u16)>|
        drops.len() == plan.1 && places.len() == placed && #[trigger] replayed(before, drops, places) == (
            cells_on(after.triggers@),
            tones_held(after.tones),
        )
}

/// Only the pattern, the tones, the lengths, the density, the rate of change
/// and the beats matter to a change as drawn.
proof fn lemma_changed_as_drawn_ignores_phase(before: Turing, same: Turing, after: Turing, kept: Turing)
    requires
        changed_as_drawn(before, after),
        same.triggers == before.triggers,
        same.tones == before.tones,
        same.lengths == before.lengths,
        same.density == before.density,
        same.rate_of_change == before.rate_of_change,
        same.beats == before.beats,
        kept.triggers == after.triggers,
        kept.tones == after.tones,
    ensures
        changed_as_drawn(same, kept),
{
    let count = ticks_on(before.triggers@).len();
    let plan = change_plan(count, before.density as nat, before.rate_of_change as nat);
    let placed = if length_list(before.lengths).len() > 0 {
        plan.0
    } else {
        0
    };
    let (drops, places) = choose|drops: Seq<u16>, places: Seq<(u16, u16)>|
        drops.len() == plan.1 && places.len() == placed && #[trigger] replayed(before, drops, places) == (
            cells_on(after.triggers@),
            tones_held(after.tones),
        );
    assert(replayed(same, drops, places) == replayed(before, drops, places));
}

impl Turing {
    /// Drops the note on the cell at position `draw` modulo the list's
    /// length in the list of cells holding a trigger: the cell is taken out of
    /// the list, the last one taking its place, and it loses its trigger and
    /// its tone. Returns the cell.
    pub fn drop_drawn(&mut self, ticks: &mut heapless::Vec<usize, 32>, draw: u16) -> (dropped: usize)
        requires
            old(self).wf(),
            tick_list(*old(ticks)).len() > 0,
            forall|i: int|
                0 <= i < tick_list(*old(ticks)).len() ==> #[trigger] tick_list(*old(ticks))[i]
                    < PATTERN_CELLS,
        ensures
            final(self).wf(),
            ({
                let list = tick_list(*old(ticks));
                let position = (draw as nat % list.len()) as int;
                &&& dropped == list[position]
                &&& tick_list(*final(ticks)) == list.update(position, list.last()).drop_last()
            }),
            forall|m: int|
                0 <= m < PATTERN_CELLS ==> #[trigger] tick_on(final(self).triggers@, m) == (tick_on(
                    old(self).triggers@,
                    m,
                ) && m != dropped),
            tones_held(final(self).tones) == tones_held(old(self).tones).remove(dropped),
            final(self).phase == old(self).phase,
            final(self).lengths == old(self).lengths,
            final(self).density == old(self).density,
            final(self).rate_of_change == old(self).rate_of_change,
            final(self).beats == old(self).beats,
    {
        let len = tick_list_len(ticks);
        let index = tick_list_swap_remove(ticks, draw as usize % len);
        let ghost before = self.triggers@;
        set_nth_tick_off(&mut self.triggers, index);
        let _ = tone_map_remove(&mut self.tones, index);
        proof {
            lemma_ticks_on_below_bounded(before, self.triggers@, PATTERN_CELLS as int, -1);
            assert forall|m: int|
                0 <= m < PATTERN_CELLS && #[trigger] tick_on(self.triggers@, m) implies tones_held(
                self.tones,
            ).dom().contains(m as usize) by {
                assert(tick_on(before, m));
            }
        }
        index
    }

    /// Places a note drawn with `length_draw` and `spot_draw`: of the enabled
    /// length at `length_draw` modulo their number, on the cell
    /// `drawn_start`, with the tone `length_draw`. The cells the note covers
    /// lose their triggers but for the first, which gains one. Returns the
    /// cell.
    pub fn place_drawn(&mut self, length_draw: u16, spot_draw: u16) -> (start: usize)
        requires
            old(self).wf(),
            length_list(old(self).lengths).len() > 0,
            ticks_on(old(self).triggers@).len() < MAX_DENSITY,
        ensures
            final(self).wf(),
            start == drawn_start(length_list(old(self).lengths), old(self).beats, length_draw, spot_draw),
            placeable(length_list(old(self).lengths), old(self).beats, start as int),
            forall|m: int|
                0 <= m < PATTERN_CELLS ==> #[trigger] tick_on(final(self).triggers@, m) == (m == start || (
                tick_on(old(self).triggers@, m) && !(start <= m < start + cells_of(
                    length_list(old(self).lengths)[(length_draw as nat % length_list(
                        old(self).lengths,
                    ).len()) as int],
                )))),
            tones_held(final(self).tones) == tones_held(old(self).tones).insert(start, length_draw),
            final(self).phase == old(self).phase,
            final(self).lengths == old(self).lengths,
            final(self).density == old(self).density,
            final(self).rate_of_change == old(self).rate_of_change,
            final(self).beats == old(self).beats,
    {
        let n_lengths = length_list_len(&self.lengths);
        let which = length_draw as usize % n_lengths;
        let length = length_list_get(&self.lengths, which).unwrap();
        let tone = length_draw;
        let length_in_cells = length.in_cells();
        let cells = self.enabled_cells();
        let spot = spot_draw as u32;
        let position = (spot % cells) / length_in_cells;
        proof {
            lemma_note_start(spot, cells, length_in_cells);
            vstd::arithmetic::div_mod::lemma_mod_multiples_basic(position as int, length_in_cells as int);
            assert(placeable(length_list(self.lengths), self.beats, (position * length_in_cells) as int))
                by {
                assert(length_list(self.lengths)[which as int] == length);
            }
        }
        let index = position as usize * length_in_cells as usize;
        let ghost before = self.triggers@;
        place_note(index, length_in_cells, &mut self.triggers);
        proof {
            lemma_ticks_on_below_bounded(before, self.triggers@, PATTERN_CELLS as int, index as int);
            lemma_note_cells_bound(tones_held(self.tones).dom(), PATTERN_CELLS as int);
            lemma_note_cells_count();
        }
        tone_map_insert(&mut self.tones, index, tone).unwrap();
        proof {
            assert forall|m: int|
                0 <= m < PATTERN_CELLS && #[trigger] tick_on(self.triggers@, m) implies tones_held(
                self.tones,
            ).dom().contains(m as usize) by {
                if m != index {
                    assert(tick_on(before, m));
                }
            }
        }
        index
    }

    /// Changes the pattern: drops as many notes as the plan says, each the
    /// one a draw picks among those left, then, when some note length is
    /// enabled, places as many new notes as it says, each from two draws.
    fn randomize<R: Rand>(&mut self, randomizer: &mut R)
        requires
            old(self).wf(),
        ensures
            final(self).wf(),
            final(self).phase == old(self).phase,
            final(self).lengths == old(self).lengths,
            final(self).density == old(self).density,
            final(self).rate_of_change == old(self).rate_of_change,
            final(self).beats == old(self).beats,
            changed_by_draws(*old(self), *final(self)),
            changed_as_drawn(*old(self), *final(self)),
    {
        let ghost start = self.triggers@;
        let ghost start_held = tones_held(self.tones);
        let ghost start_tones = tones_held(self.tones).dom();
        let ghost lengths = length_list(self.lengths);
        let mut ticks = find_ticks_on(&self.triggers);
        proof {
            lemma_ticks_on_below_ascending(start, PATTERN_CELLS as int);
        }
        let count = tick_list_len(&ticks) as u32;
        let density = self.density;
        let rate = self.rate_of_change;
        let (add, remove): (u32, u32) = if count < density {
            let missing = density - count;
            (if missing < rate {
                missing
            } else {
                rate
            }, 0)
        } else if count == density {
            let change = if density < rate {
                density
            } else {
                rate
            };
            (change, change)
        } else {
            let excess = count - density;
            (0, if excess < rate {
                excess
            } else {
                rate
            })
        };
        assert(change_plan(count as nat, density as nat, rate as nat) == (add as nat, remove as nat));

        let ghost mut drops: Seq<u16> = Seq::empty();
        proof {
            assert(cells_on(self.triggers@) =~= cells_on(start));
        }
        let mut removed: u32 = 0;
        while removed < remove
            invariant
                removed <= remove <= count <= TICK_LIST_CAPACITY,
                count == ticks_on(start).len(),
                tick_list(ticks).len() == count - removed,
                tick_list(ticks).no_duplicates(),
                forall|i: int|
                    0 <= i < tick_list(ticks).len() ==> (#[trigger] tick_list(ticks)[i]) < PATTERN_CELLS
                        && tick_on(self.triggers@, tick_list(ticks)[i] as int),
                ticks_on(self.triggers@).len() == count - removed,
                drops.len() == removed,
                after_drops(ticks_on(start), cells_on(start), start_held, drops) == (
                    tick_list(ticks),
                    cells_on(self.triggers@),
                    tones_held(self.tones),
                ),
                start_held == tones_held(old(self).tones),
                self.wf(),
                self.phase == old(self).phase,
                self.lengths == old(self).lengths,
                self.density == density,
                self.rate_of_change == rate,
                self.beats == old(self).beats,
                start == old(self).triggers@,
                start_tones == tones_held(old(self).tones).dom(),
                old(self).wf(),
                forall|m: int|
                    0 <= m < PATTERN_CELLS && #[trigger] tick_on(self.triggers@, m) ==> tick_on(start, m),
                forall|k: usize|
                    #[trigger] tones_held(self.tones).dom().contains(k) ==> start_tones.contains(k),
                forall|k: usize|
                    #[trigger] start_tones.contains(k) && !tones_held(self.tones).dom().contains(k)
                        ==> tick_on(start, k as int) && !tick_on(self.triggers@, k as int),
                forall|m: int|
                    0 <= m < PATTERN_CELLS && #[trigger] tick_on(start, m) && !tick_on(self.triggers@, m)
                        ==> !tones_held(self.tones).dom().contains(m as usize),
            decreases remove - removed,
        {
            let draw = randomizer.generate();
            let ghost list = tick_list(ticks);
            let ghost before = self.triggers@;
            let ghost drops_before = drops;
            let dropped = self.drop_drawn(&mut ticks, draw);
            proof {
                let position = (draw as nat % list.len()) as int;
                drops = drops.push(draw);
                assert(drops.drop_last() =~= drops_before);
                assert(cells_on(self.triggers@) =~= cells_on(before).remove(dropped as int));
                lemma_ticks_on_below_cleared(before, self.triggers@, PATTERN_CELLS as int, dropped as int);
                lemma_swap_remove_keeps_distinct(list, position);
                assert forall|i: int| 0 <= i < tick_list(ticks).len() implies (#[trigger] tick_list(
                    ticks,
                )[i]) < PATTERN_CELLS && tick_on(self.triggers@, tick_list(ticks)[i] as int) by {
                    let cell = tick_list(ticks)[i];
                    let k = choose|k: int| 0 <= k < list.len() && list[k] == cell;
                    assert(list[k] == cell);
                }
                assert forall|k: usize|
                    #[trigger] start_tones.contains(k) && !tones_held(self.tones).dom().contains(k) implies tick_on(
                    start,
                    k as int,
                ) && !tick_on(self.triggers@, k as int) by {
                    assert(note_cell(k as int));
                    if k == dropped {
                        assert(list[position] == dropped);
                        assert(tick_on(before, k as int));
                        assert(!tick_on(self.triggers@, k as int));
                    } else {
                        assert(tick_on(self.triggers@, k as int) == tick_on(before, k as int));
                    }
                }
            }
            removed += 1;
        }

        let ghost dropped_on = cells_on(self.triggers@);
        let ghost dropped_tones = tones_held(self.tones);
        let ghost mut places: Seq<(u16, u16)> = Seq::empty();
        let n_lengths = length_list_len(&self.lengths);
        if n_lengths > 0 {
            let ghost base = ticks_on(self.triggers@).len();
            let ghost mut last: int = 0;
            let mut added: u32 = 0;
            while added < add
                invariant
                    added <= add,
                    change_plan(count as nat, density as nat, rate as nat) == (add as nat, remove as nat),
                    count <= TICK_LIST_CAPACITY,
                    n_lengths == length_list(self.lengths).len(),
                    n_lengths > 0,
                    base == count - remove,
                    places.len() == added,
                    after_places(lengths, old(self).beats, dropped_on, dropped_tones, places) == (
                        cells_on(self.triggers@),
                        tones_held(self.tones),
                    ),
                    ticks_on(self.triggers@).len() <= base + added,
                    added == 0 ==> ticks_on(self.triggers@).len() == base,
                    self.wf(),
                    self.phase == old(self).phase,
                    self.lengths == old(self).lengths,
                    self.density == density,
                    self.rate_of_change == rate,
                    self.beats == old(self).beats,
                    start == old(self).triggers@,
                    start_tones == tones_held(old(self).tones).dom(),
                    lengths == length_list(old(self).lengths),
                    old(self).wf(),
                    forall|m: int|
                        0 <= m < PATTERN_CELLS && #[trigger] tick_on(self.triggers@, m) && !tick_on(start, m)
                            ==> placeable(lengths, self.beats, m),
                    forall|k: usize|
                        #[trigger] tones_held(self.tones).dom().contains(k) && !start_tones.contains(k)
                            ==> placeable(lengths, self.beats, k as int),
                    forall|k: usize|
                        #[trigger] start_tones.contains(k) && !tones_held(self.tones).dom().contains(k)
                            ==> tick_on(start, k as int) && !tick_on(self.triggers@, k as int),
                    added == 0 ==> forall|m: int|
                        0 <= m < PATTERN_CELLS && #[trigger] tick_on(start, m) && !tick_on(self.triggers@, m)
                            ==> !tones_held(self.tones).dom().contains(m as usize),
                    added > 0 ==> placeable(lengths, self.beats, last) && tick_on(self.triggers@, last)
                        && tones_held(self.tones).dom().contains(last as usize),
                decreases add - added,
            {
                let length_draw = randomizer.generate();
                let spot_draw = randomizer.generate();
                proof {
                    lemma_change_plan_approaches_density(count as nat, density as nat, rate as nat, (added + 1) as nat);
                }
                let ghost before = self.triggers@;
                let ghost tones_before = tones_held(self.tones).dom();
                let ghost on_before = cells_on(self.triggers@);
                let ghost places_before = places;
                let placed = self.place_drawn(length_draw, spot_draw);
                proof {
                    places = places.push((length_draw, spot_draw));
                    assert(places.drop_last() =~= places_before);
                    assert(cells_on(self.triggers@) =~= after_places(
                        lengths,
                        old(self).beats,
                        dropped_on,
                        dropped_tones,
                        places,
                    ).0);
                    lemma_ticks_on_below_bounded(before, self.triggers@, PATTERN_CELLS as int, placed as int);
                    last = placed as int;
                    assert forall|m: int|
                        0 <= m < PATTERN_CELLS && #[trigger] tick_on(self.triggers@, m) && !tick_on(start, m)
                            implies placeable(lengths, self.beats, m) by {
                        if m != placed {
                            assert(tick_on(before, m));
                        }
                    }
                    assert forall|k: usize|
                        #[trigger] tones_held(self.tones).dom().contains(k) && !start_tones.contains(k)
                            implies placeable(lengths, self.beats, k as int) by {
                        if k != placed {
                            assert(tones_before.contains(k));
                        }
                    }
                    assert forall|k: usize|
                        #[trigger] start_tones.contains(k) && !tones_held(self.tones).dom().contains(k)
                            implies tick_on(start, k as int) && !tick_on(self.triggers@, k as int) by {
                        assert(note_cell(k as int));
                        assert(!tones_before.contains(k));
                        assert(tick_on(start, k as int) && !tick_on(before, k as int));
                        assert(k != placed);
                    }
                }
                added += 1;
            }
        }
        proof {
            assert(replayed(*old(self), drops, places) == (cells_on(self.triggers@), tones_held(self.tones)));
        }
    }
}

impl Turing {
    /// Plays `samples` more samples, a cell lasting `cell_in_samples`
    /// samples. When the pattern has played through, it changes and starts
    /// over. When a new cell starts that holds a trigger, the tone of its
    /// note is returned.
    pub fn tick<R: Rand>(&mut self, samples: u32, cell_in_samples: u32, randomizer: &mut R) -> (r: Option<u16>)
        requires
            old(self).wf(),
            cell_in_samples >= 1,
            cell_in_samples * cells_of_beats(old(self).beats) <= u32::MAX,
            old(self).phase + samples <= u32::MAX,
        ensures
            final(self).wf(),
            final(self).lengths == old(self).lengths,
            final(self).density == old(self).density,
            final(self).rate_of_change == old(self).rate_of_change,
            final(self).beats == old(self).beats,
            ({
                let cycle = cell_in_samples * cells_of_beats(old(self).beats);
                let advanced = old(self).phase + samples;
                let old_tick = old(self).phase as int / cell_in_samples as int;
                let new_tick = final(self).phase as int / cell_in_samples as int;
                &&& advanced < cycle ==> final(self).phase == advanced && final(self).triggers
                    == old(self).triggers && tones_held(final(self).tones) == tones_held(
                    old(self).tones,
                )
                &&& advanced >= cycle ==> final(self).phase == advanced % cycle && changed_by_draws(
                    *old(self),
                    *final(self),
                ) && changed_as_drawn(*old(self), *final(self))
                &&& 0 <= new_tick < cells_of_beats(old(self).beats)
                &&& r == (if new_tick != old_tick && tick_on(final(self).triggers@, new_tick) {
                    Some(tones_held(final(self).tones)[new_tick as usize])
                } else {
                    None
                })
            }),
    {
        let old_tick = self.phase / cell_in_samples;

        self.phase += samples;

        let cycle = cell_in_samples * self.enabled_cells();
        assert(cycle > 0) by (nonlinear_arith)
            requires
                cycle == cell_in_samples * cells_of_beats(self.beats),
                cell_in_samples >= 1,
                cells_of_beats(self.beats) >= 1,
        ;
        if self.phase >= cycle {
            let ghost advanced = *self;
            self.randomize(randomizer);
            let ghost changed = *self;
            self.phase %= cycle;
            proof {
                lemma_changed_as_drawn_ignores_phase(advanced, *old(self), changed, *self);
            }
        }

        let new_tick = self.phase / cell_in_samples;
        proof {
            let cells = cells_of_beats(self.beats);
            assert(new_tick < cells) by (nonlinear_arith)
                requires
                    self.phase < cycle,
                    cycle == cell_in_samples * cells,
                    new_tick == self.phase / cell_in_samples,
                    cell_in_samples >= 1,
            ;
        }

        let triggered = if new_tick != old_tick {
            is_nth_tick_on(&self.triggers, new_tick as usize)
        } else {
            false
        };

        if triggered {
            Some(tone_map_get(&self.tones, new_tick as usize).unwrap())
        } else {
            None
        }
    }

    /// Whether `length` is among the lengths new notes are drawn from.
    fn has_length(&self, length: NoteLength) -> (r: bool)
        ensures
            r == length_list(self.lengths).contains(length),
    {
        let n = length_list_len(&self.lengths);
        let mut i: usize = 0;
        while i < n
            invariant
                i <= n,
                n == length_list(self.lengths).len(),
                forall|j: int| 0 <= j < i ==> length_list(self.lengths)[j] != length,
            decreases n - i,
        {
            if length_list_get(&self.lengths, i).unwrap() == length {
                return true;
            }
            i += 1;
        }
        false
    }

    /// Lets new notes be of `length`; a length enabled already stays once in
    /// the list, a new one goes last.
    pub fn enable_length(&mut self, length: NoteLength)
        requires
            old(self).wf(),
        ensures
            final(self).wf(),
            length_list(final(self).lengths) == (if length_list(old(self).lengths).contains(length) {
                length_list(old(self).lengths)
            } else {
                length_list(old(self).lengths).push(length)
            }),
            final(self).triggers == old(self).triggers,
            tones_held(final(self).tones) == tones_held(old(self).tones),
            final(self).phase == old(self).phase,
            final(self).density == old(self).density,
            final(self).rate_of_change == old(self).rate_of_change,
            final(self).beats == old(self).beats,
    {
        if !self.has_length(length) {
            proof {
                let listed = length_list(self.lengths);
                listed.unique_seq_to_set();
                lemma_all_note_lengths();
                assert(listed.to_set().subset_of(all_note_lengths()));
                listed.to_set().lemma_subset_not_in_lt(all_note_lengths(), length);
            }
            length_list_push(&mut self.lengths, length).unwrap();
            proof {
                let listed = length_list(old(self).lengths);
                assert forall|i: int, j: int|
                    0 <= i < listed.len() + 1 && 0 <= j < listed.len() + 1 && i != j implies length_list(
                    self.lengths,
                )[i] != length_list(self.lengths)[j] by {
                    if i < listed.len() && j < listed.len() {
                        assert(listed[i] != listed[j]);
                    } else if i < listed.len() {
                        assert(listed.contains(listed[i]));
                    } else {
                        assert(listed.contains(listed[j]));
                    }
                }
            }
        }
    }

    /// Stops new notes from being of `length`: the length is taken out of
    /// the list and the last one takes its place.
    pub fn disable_length(&mut self, length: NoteLength)
        requires
            old(self).wf(),
        ensures
            final(self).wf(),
            !length_list(old(self).lengths).contains(length) ==> length_list(final(self).lengths)
                == length_list(old(self).lengths),
            length_list(old(self).lengths).contains(length) ==> (exists|i: int|
                0 <= i < length_list(old(self).lengths).len() && length_list(old(self).lengths)[i]
                    == length && length_list(final(self).lengths) == length_list(
                    old(self).lengths,
                ).update(i, length_list(old(self).lengths).last()).drop_last()),
            final(self).triggers == old(self).triggers,
            tones_held(final(self).tones) == tones_held(old(self).tones),
            final(self).phase == old(self).phase,
            final(self).density == old(self).density,
            final(self).rate_of_change == old(self).rate_of_change,
            final(self).beats == old(self).beats,
    {
        let n = length_list_len(&self.lengths);
        let mut i: usize = 0;
        while i < n
            invariant
                i <= n,
                n == length_list(self.lengths).len(),
                *self == *old(self),
                self.wf(),
                forall|j: int| 0 <= j < i ==> length_list(self.lengths)[j] != length,
            decreases n - i,
        {
            if length_list_get(&self.lengths, i).unwrap() == length {
                let ghost listed = length_list(self.lengths);
                length_list_swap_remove(&mut self.lengths, i);
                proof {
                    let rest = length_list(self.lengths);
                    assert(listed.last() == listed[listed.len() - 1]);
                    assert(listed[i as int] == length);
                    assert(rest.len() == listed.len() - 1);
                    assert forall|a: int, b: int|
                        0 <= a < rest.len() && 0 <= b < rest.len() && a != b implies rest[a] != rest[b] by {
                        let x = if a == i {
                            listed.len() - 1
                        } else {
                            a
                        };
                        let y = if b == i {
                            listed.len() - 1
                        } else {
                            b
                        };
                        assert(rest[a] == listed[x]);
                        assert(rest[b] == listed[y]);
                        assert(listed.no_duplicates());
                        assert(x != y);
                    }
                }
                return ;
            }
            i += 1;
        }
    }

    /// Sets the number of notes to aim for.
    pub fn set_density(&mut self, density: u32)
        requires
            old(self).wf(),
            density <= MAX_DENSITY,
        ensures
            final(self).wf(),
            *final(self) == (Turing { density, ..*old(self) }),
    {
        self.density = density;
    }

    /// Sets the most notes placed or dropped at each change.
    pub fn set_rate_of_change(&mut self, rate_of_change: u32)
        requires
            old(self).wf(),
        ensures
            final(self).wf(),
            *final(self) == (Turing { rate_of_change, ..*old(self) }),
    {
        self.rate_of_change = rate_of_change;
    }

    /// Sets the beats the pattern spans.
    pub fn set_beats(&mut self, beats: u32)
        requires
            old(self).wf(),
            1 <= beats <= MAX_BEATS,
        ensures
            final(self).wf(),
            *final(self) == (Turing { beats, ..*old(self) }),
    {
        self.beats = beats;
    }
}

/// Every note length.
pub open spec fn all_note_lengths() -> Set<NoteLength> {
    set![
        NoteLength::Whole,
        NoteLength::HalfTriplet,
        NoteLength::Half,
        NoteLength::QuarterTriplet,
        NoteLength::Quarter,
        NoteLength::EightTriplet,
        NoteLength::Eight,
    ]
}

proof fn lemma_all_note_lengths()
    ensures
        all_note_lengths().finite(),
        all_note_lengths().len() == LENGTHS_CAPACITY,
        forall|length: NoteLength| #[trigger] all_note_lengths().contains(length),
{
    assert forall|length: NoteLength| #[trigger] all_note_lengths().contains(length) by {
        match length {
            NoteLength::Whole => {},
            NoteLength::HalfTriplet => {},
            NoteLength::Half => {},
            NoteLength::QuarterTriplet => {},
            NoteLength::Quarter => {},
            NoteLength::EightTriplet => {},
            NoteLength::Eight => {},
        }
    }
}

proof fn lemma_no_ticks_on(triggers: Seq<u32>, n: int)
    requires
        n <= PATTERN_CELLS,
        forall|m: int| 0 <= m < PATTERN_CELLS ==> !#[trigger] tick_on(triggers, m),
    ensures
        crate::sequencer::ticks_on_below(triggers, n).len() == 0,
    decreases n,
{
    if n > 0 {
        lemma_no_ticks_on(triggers, n - 1);
    }
}

} // verus!
