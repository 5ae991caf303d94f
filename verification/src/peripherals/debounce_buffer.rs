use vstd::prelude::*;

verus! {

/// Number of `true` samples in a sequence of samples.
pub open spec fn count_true(s: Seq<bool>) -> nat
    decreases s.len(),
{
    if s.len() == 0 {
        0
    } else {
        count_true(s.drop_last()) + if s.last() { 1nat } else { 0nat }
    }
}

/// Majority vote of a window of samples: more than half of them are `true`.
pub open spec fn majority(s: Seq<bool>, n: nat) -> bool {
    count_true(s) > n / 2
}

/// The window `(samples, position)` after writing `value` at `position` in a
/// ring of `n` samples.
pub open spec fn write_window(w: (Seq<bool>, nat), value: bool, n: nat) -> (Seq<bool>, nat) {
    (w.0.update(w.1 as int, value), (w.1 + 1) % n)
}

/// The window after `k` writes of the same `value`.
pub open spec fn write_repeated(w: (Seq<bool>, nat), value: bool, k: nat, n: nat) -> (Seq<bool>, nat)
    decreases k,
{
    if k == 0 {
        w
    } else {
        write_window(write_repeated(w, value, (k - 1) as nat, n), value, n)
    }
}

/// Whether position `i` of a ring of `n` is among the `k` positions written
/// from `start` on.
pub open spec fn covered(start: nat, k: nat, n: nat, i: int) -> bool {
    ||| start <= i < start + k
    ||| i < start + k - n
}

/// The sample at position `i` after `k` writes of `value` into window `w`.
pub open spec fn covered_value(w: (Seq<bool>, nat), value: bool, k: nat, n: nat, i: int) -> bool {
    if covered(w.1, k, n, i) {
        value
    } else {
        w.0[i]
    }
}

/// A ring buffer of the last `N` boolean samples whose reading is their majority.
pub struct DebounceBuffer<const N: usize> {
    buffer: Vec<bool>,
    pointer: usize,
}

impl<const N: usize> View for DebounceBuffer<N> {
    type V = (Seq<bool>, nat);

    closed spec fn view(&self) -> (Seq<bool>, nat) {
        (self.buffer@, self.pointer as nat)
    }
}

impl<const N: usize> DebounceBuffer<N> {
    /// The window holds exactly `N` samples and the write position is inside it.
    pub open spec fn wf(&self) -> bool {
        &&& self@.0.len() == N
        &&& (N > 0 ==> self@.1 < N)
        &&& (N == 0 ==> self@.1 == 0)
    }

    /// The samples held, in storage order.
    pub open spec fn samples(&self) -> Seq<bool> {
        self@.0
    }

    /// The position the next sample is written to.
    pub open spec fn position(&self) -> nat {
        self@.1
    }

    /// The window and write position after `write(value)`.
    pub open spec fn after_write(&self, value: bool) -> (Seq<bool>, nat) {
        write_window(self@, value, N as nat)
    }

    /// The value `read` reports.
    pub open spec fn spec_read(&self) -> bool {
        majority(self.samples(), N as nat)
    }

    #[allow(clippy::new_without_default)]
    pub fn new() -> (r: Self)
        ensures
            r.wf(),
            r.samples() == Seq::new(N as nat, |i: int| false),
            r.position() == 0,
    {
        let mut buffer: Vec<bool> = Vec::new();
        let mut i: usize = 0;
        while i < N
            invariant
                i <= N,
                buffer@ == Seq::new(i as nat, |j: int| false),
            decreases N - i,
        {
            buffer.push(false);
            i = i + 1;
        }
        Self { buffer, pointer: 0 }
    }

    /// Stores a sample over the oldest one and advances the write position.
    pub fn write(&mut self, value: bool)
        requires
            old(self).wf(),
            N > 0,
        ensures
            final(self).wf(),
            final(self)@ == old(self).after_write(value),
    {
        self.buffer.set(self.pointer, value);
        self.pointer = (self.pointer + 1) % N;
    }

    /// Whether more than half of the held samples are `true`.
    pub fn read(&self) -> (r: bool)
        requires
            self.wf(),
        ensures
            r == self.spec_read(),
    {
        let mut up: usize = 0;
        let mut i: usize = 0;
        while i < self.buffer.len()
            invariant
                i <= self.buffer@.len(),
                self.buffer@.len() == N,
                up == count_true(self.buffer@.take(i as int)),
                up <= i,
            decreases self.buffer@.len() - i,
        {
            proof {
                assert(self.buffer@.take(i + 1).drop_last() =~= self.buffer@.take(i as int));
            }
            if self.buffer[i] {
                up = up + 1;
            }
            i = i + 1;
        }
        proof {
            assert(self.buffer@.take(i as int) =~= self.buffer@);
        }
        up > N / 2
    }
}

proof fn lemma_count_constant(n: nat, value: bool)
    ensures
        count_true(Seq::new(n, |i: int| value)) == (if value { n } else { 0 }),
    decreases n,
{
    if n > 0 {
        lemma_count_constant((n - 1) as nat, value);
        assert(Seq::new(n, |i: int| value).drop_last() =~= Seq::new((n - 1) as nat, |i: int| value));
    }
}

proof fn lemma_write_repeated_covers(w: (Seq<bool>, nat), value: bool, k: nat, n: nat)
    requires
        w.0.len() == n,
        w.1 < n,
        k <= n,
    ensures
        write_repeated(w, value, k, n).0.len() == n,
        write_repeated(w, value, k, n).1 == (if w.1 + k < n { w.1 + k } else { (w.1 + k - n) as nat }),
        forall|i: int|
            0 <= i < n ==> #[trigger] write_repeated(w, value, k, n).0[i] == covered_value(w, value, k, n, i),
    decreases k,
{
    if k > 0 {
        lemma_write_repeated_covers(w, value, (k - 1) as nat, n);
        let prev = write_repeated(w, value, (k - 1) as nat, n);
        let q = prev.1;
        assert(q < n);
        if q + 1 < n {
            vstd::arithmetic::div_mod::lemma_small_mod((q + 1) as nat, n);
        } else {
            vstd::arithmetic::div_mod::lemma_mod_self_0(n as int);
        }
    }
}

/// A debounce window of `N` samples reads whatever value was written `N`
/// times in a row, whatever it held before.
pub proof fn lemma_stable_input_is_read<const N: usize>(buffer: DebounceBuffer<N>, value: bool)
    requires
        buffer.wf(),
        N > 0,
    ensures
        write_repeated(buffer@, value, N as nat, N as nat).0 == Seq::new(N as nat, |i: int| value),
        majority(write_repeated(buffer@, value, N as nat, N as nat).0, N as nat) == value,
{
    lemma_write_repeated_covers(buffer@, value, N as nat, N as nat);
    let after = write_repeated(buffer@, value, N as nat, N as nat).0;
    assert(after =~= Seq::new(N as nat, |i: int| value)) by {
        assert forall|i: int| 0 <= i < N implies after[i] == value by {
            assert(covered(buffer@.1, N as nat, N as nat, i));
        }
    }
    lemma_count_constant(N as nat, value);
}

/// The window after writing each of `writes`, in order, into window `w` of a
/// ring of `n` samples.
pub open spec fn write_all(w: (Seq<bool>, nat), writes: Seq<bool>, n: nat) -> (Seq<bool>, nat)
    decreases writes.len(),
{
    if writes.len() == 0 {
        w
    } else {
        write_window(write_all(w, writes.drop_last(), n), writes.last(), n)
    }
}

/// The window a buffer of `n` samples starts with: all `false`, writing at
/// the start.
pub open spec fn fresh_window(n: nat) -> (Seq<bool>, nat) {
    (Seq::new(n, |i: int| false), 0)
}

/// The last `n` of `writes`, or all of them when there are fewer.
pub open spec fn last_written(writes: Seq<bool>, n: nat) -> Seq<bool> {
    if writes.len() <= n {
        writes
    } else {
        writes.subrange(writes.len() - n, writes.len() as int)
    }
}

proof fn lemma_count_update(s: Seq<bool>, i: int, v: bool)
    requires
        0 <= i < s.len(),
    ensures
        count_true(s.update(i, v)) + (if s[i] { 1int } else { 0int }) == count_true(s) + (if v {
            1int
        } else {
            0int
        }),
    decreases s.len(),
{
    let u = s.update(i, v);
    if i == s.len() - 1 {
        assert(u.drop_last() =~= s.drop_last());
    } else {
        assert(u.drop_last() =~= s.drop_last().update(i, v));
        lemma_count_update(s.drop_last(), i, v);
    }
}

proof fn lemma_count_first(s: Seq<bool>)
    requires
        s.len() > 0,
    ensures
        count_true(s) == count_true(s.drop_first()) + (if s[0] { 1nat } else { 0nat }),
    decreases s.len(),
{
    if s.len() > 1 {
        lemma_count_first(s.drop_last());
        assert(s.drop_last().drop_first() =~= s.drop_first().drop_last());
    } else {
        assert(s.drop_first() =~= Seq::<bool>::empty());
        assert(s.drop_last() =~= Seq::<bool>::empty());
    }
}

proof fn lemma_mod_distinct(a: int, b: int, n: int)
    requires
        0 <= a < b,
        b - a < n,
    ensures
        a % n != b % n,
{
    vstd::arithmetic::div_mod::lemma_fundamental_div_mod(a, n);
    vstd::arithmetic::div_mod::lemma_fundamental_div_mod(b, n);
    let qa = a / n;
    let qb = b / n;
    if a % n == b % n {
        let d = qb - qa;
        assert(n * qb - n * qa == n * d) by (nonlinear_arith)
            requires
                d == qb - qa,
        ;
        assert(false) by (nonlinear_arith)
            requires
                b - a == n * d,
                0 < b - a < n,
        ;
    }
}

proof fn lemma_write_all_slots(writes: Seq<bool>, n: nat)
    requires
        n > 0,
    ensures
        ({
            let w = write_all(fresh_window(n), writes, n);
            let k = writes.len() as int;
            &&& w.0.len() == n
            &&& w.1 == k % (n as int)
            &&& forall|j: int| k - n <= j < k && 0 <= j ==> #[trigger] w.0[j % (n as int)] == writes[j]
            &&& forall|i: int| k <= i < n ==> !#[trigger] w.0[i]
            &&& count_true(w.0) == count_true(last_written(writes, n))
        }),
    decreases writes.len(),
{
    let ni = n as int;
    let k = writes.len() as int;
    if k == 0 {
        vstd::arithmetic::div_mod::lemma_small_mod(0, n);
        lemma_count_constant(n, false);
        assert(write_all(fresh_window(n), writes, n) == fresh_window(n));
        assert(last_written(writes, n) =~= Seq::<bool>::empty());
        return ;
    }
    let rest = writes.drop_last();
    lemma_write_all_slots(rest, n);
    let prev = write_all(fresh_window(n), rest, n);
    let w = write_all(fresh_window(n), writes, n);
    let p = (k - 1) % ni;
    assert(prev.1 == p);
    assert(w.0 == prev.0.update(p, writes[k - 1]));
    // position
    vstd::arithmetic::div_mod::lemma_add_mod_noop(k - 1, 1, ni);
    if ni > 1 {
        vstd::arithmetic::div_mod::lemma_small_mod(1, n);
    }
    assert(w.1 == k % ni);
    // slots
    assert forall|j: int| k - n <= j < k && 0 <= j implies #[trigger] w.0[j % ni] == writes[j] by {
        if j < k - 1 {
            lemma_mod_distinct(j, k - 1, ni);
            assert(prev.0[j % ni] == rest[j]);
        }
    }
    assert forall|i: int| k <= i < n implies !#[trigger] w.0[i] by {
        vstd::arithmetic::div_mod::lemma_small_mod((k - 1) as nat, n);
        assert(!prev.0[i]);
    }
    // count
    lemma_count_update(prev.0, p, writes[k - 1]);
    if k - 1 >= ni {
        let j = k - 1 - ni;
        vstd::arithmetic::div_mod::lemma_mod_add_multiples_vanish(j, ni);
        assert(j + ni == k - 1);
        assert(prev.0[p] == writes[j]);
        let whole = writes.subrange(j, k);
        lemma_count_first(whole);
        assert(whole.drop_first() =~= last_written(writes, n));
        assert(whole.drop_last() =~= last_written(rest, n));
        assert(whole[0] == writes[j]);
        assert(whole.last() == writes[k - 1]);
    } else {
        vstd::arithmetic::div_mod::lemma_small_mod((k - 1) as nat, n);
        assert(!prev.0[p]);
        assert(last_written(writes, n) == writes);
        assert(last_written(rest, n) == rest);
        assert(writes.drop_last() == rest);
    }
}

/// A buffer of `N` samples, fresh from `new` and then written the values of
/// `writes` in order, reads whether more than half of its last `N` writes
/// were `true`, slots never written counting as `false`.
pub proof fn lemma_reads_majority_of_last_writes<const N: usize>(writes: Seq<bool>)
    requires
        N > 0,
    ensures
        majority(write_all(fresh_window(N as nat), writes, N as nat).0, N as nat) == (count_true(
            last_written(writes, N as nat),
        ) > N as nat / 2),
{
    lemma_write_all_slots(writes, N as nat);
}

/// A write only moves the reading towards the written value: a buffer that
/// reads `value` still reads it after `value` is written.
pub proof fn lemma_write_keeps_reading_of_its_value<const N: usize>(buffer: DebounceBuffer<N>, value: bool)
    requires
        buffer.wf(),
        N > 0,
        buffer.spec_read() == value,
    ensures
        majority(buffer.after_write(value).0, N as nat) == value,
{
    lemma_count_update(buffer@.0, buffer@.1 as int, value);
}

} // verus!
