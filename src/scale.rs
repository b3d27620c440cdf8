use vstd::prelude::*;

verus! {

/// An interval pattern is usable when it starts at the root, climbs strictly
/// and stays inside one octave.
pub open spec fn intervals_wf(offsets: Seq<int>) -> bool {
    &&& offsets.len() > 0
    &&& offsets[0] == 0
    &&& forall|i: int, j: int| 0 <= i < j < offsets.len() ==> offsets[i] < offsets[j]
    &&& offsets.last() < 12
}

/// The pitches of one octave starting at `root`.
pub open spec fn octave_notes(root: int, offsets: Seq<int>) -> Seq<int> {
    offsets.map_values(|o: int| root + o)
}

/// The pitch at a scale position: positions outside the octave wrap around
/// the pattern and move by twelve semitones per wrap (floor division).
pub open spec fn pitch_at(root: int, offsets: Seq<int>, position: int) -> int {
    let n = offsets.len() as int;
    root + offsets[position % n] + 12 * (position / n)
}

/// Moving a position by one whole pattern moves the pitch by one octave.
pub proof fn lemma_pitch_octave_shift(root: int, offsets: Seq<int>, position: int)
    requires
        offsets.len() > 0,
    ensures
        pitch_at(root, offsets, position + offsets.len()) == pitch_at(root, offsets, position)
            + 12,
{
    let n = offsets.len() as int;
    vstd::arithmetic::div_mod::lemma_div_plus_one(position, n);
    vstd::arithmetic::div_mod::lemma_mod_add_multiples_vanish(position, n);
    assert(n + position == position + n);
}

/// Scale wraparound: the position just past the octave is the first pitch
/// one octave up, and the position just before it is the last pitch one
/// octave down.
pub proof fn lemma_wraparound(root: int, offsets: Seq<int>)
    requires
        offsets.len() > 0,
    ensures
        pitch_at(root, offsets, offsets.len() as int) == pitch_at(root, offsets, 0) + 12,
        pitch_at(root, offsets, -1) == pitch_at(root, offsets, offsets.len() - 1) - 12,
{
    lemma_pitch_octave_shift(root, offsets, 0);
    lemma_pitch_octave_shift(root, offsets, -1);
}

/// Inside the octave a position picks the pattern entry directly.
pub proof fn lemma_pitch_in_octave(root: int, offsets: Seq<int>, position: int)
    requires
        0 <= position < offsets.len(),
    ensures
        pitch_at(root, offsets, position) == root + offsets[position],
{
    let n = offsets.len() as int;
    vstd::arithmetic::div_mod::lemma_fundamental_div_mod_converse(position, n, 0, position);
}

/// Each next position sounds strictly higher.
pub proof fn lemma_pitch_step(root: int, offsets: Seq<int>, k: int)
    requires
        intervals_wf(offsets),
    ensures
        pitch_at(root, offsets, k) < pitch_at(root, offsets, k + 1),
{
    let n = offsets.len() as int;
    let q = k / n;
    let r = k % n;
    vstd::arithmetic::div_mod::lemma_fundamental_div_mod(k, n);
    vstd::arithmetic::div_mod::lemma_mod_bound(k, n);
    assert(k + 1 == q * n + r + 1) by (nonlinear_arith)
        requires
            k == n * q + r,
    ;
    if r + 1 < n {
        vstd::arithmetic::div_mod::lemma_fundamental_div_mod_converse(k + 1, n, q, r + 1);
        assert(offsets[r] < offsets[r + 1]);
    } else {
        assert(k + 1 == (q + 1) * n + 0) by (nonlinear_arith)
            requires
                k + 1 == q * n + r + 1,
                r + 1 == n,
        ;
        vstd::arithmetic::div_mod::lemma_fundamental_div_mod_converse(k + 1, n, q + 1, 0);
    }
}

/// Pitch grows with position.
pub proof fn lemma_pitch_monotone(root: int, offsets: Seq<int>, k: int, m: int)
    requires
        intervals_wf(offsets),
        k <= m,
    ensures
        pitch_at(root, offsets, k) <= pitch_at(root, offsets, m),
        k < m ==> pitch_at(root, offsets, k) < pitch_at(root, offsets, m),
    decreases m - k,
{
    if k < m {
        lemma_pitch_monotone(root, offsets, k, m - 1);
        lemma_pitch_step(root, offsets, m - 1);
    }
}

/// A strictly climbing pattern that starts at zero has each entry at
/// least as large as its index.
pub proof fn lemma_offsets_climb(offsets: Seq<int>, i: int)
    requires
        intervals_wf(offsets),
        0 <= i < offsets.len(),
    ensures
        offsets[i] >= i,
    decreases i,
{
    if i > 0 {
        lemma_offsets_climb(offsets, i - 1);
        assert(offsets[i - 1] < offsets[i]);
    }
}

/// A pitch at a non-negative position lies within twelve semitones per
/// position above the root.
pub proof fn lemma_pitch_bounds(root: int, offsets: Seq<int>, k: int)
    requires
        intervals_wf(offsets),
        0 <= k,
    ensures
        root <= pitch_at(root, offsets, k) <= root + 11 + 12 * k,
{
    let n = offsets.len() as int;
    let q = k / n;
    let r = k % n;
    vstd::arithmetic::div_mod::lemma_fundamental_div_mod(k, n);
    vstd::arithmetic::div_mod::lemma_mod_bound(k, n);
    vstd::arithmetic::div_mod::lemma_div_pos_is_pos(k, n);
    assert(q <= k) by (nonlinear_arith)
        requires
            k == n * q + r,
            0 <= r,
            n >= 1,
            q >= 0,
    ;
    lemma_offsets_climb(offsets, r);
    assert(offsets[r] <= offsets.last()) by {
        if r < n - 1 {
            assert(offsets[r] < offsets[n - 1]);
        }
    }
}

/// A musical scale: a root pitch and a pattern of semitone offsets.
pub trait Scale {
    spec fn root_pitch(&self) -> int;

    spec fn intervals(&self) -> Seq<int>;

    spec fn label_text(&self) -> Seq<char>;

    proof fn lemma_scale_wf(&self)
        ensures
            intervals_wf(self.intervals()),
            0 <= self.root_pitch() <= u32::MAX,
    ;

    fn increase_root(&mut self, nr: u32)
        requires
            old(self).root_pitch() + nr <= u32::MAX,
        ensures
            final(self).root_pitch() == old(self).root_pitch() + nr,
            final(self).intervals() == old(self).intervals(),
            final(self).label_text() == old(self).label_text(),
    ;

    fn decrease_root(&mut self, nr: u32)
        requires
            nr <= old(self).root_pitch(),
        ensures
            final(self).root_pitch() == old(self).root_pitch() - nr,
            final(self).intervals() == old(self).intervals(),
            final(self).label_text() == old(self).label_text(),
    ;

    fn label(&self) -> (r: String)
        ensures
            r@ == self.label_text(),
    ;

    /// The ascending pitches of the octave that starts at the root.
    fn notes(&self) -> (r: Vec<u32>)
        requires
            self.root_pitch() + self.intervals().last() <= u32::MAX,
        ensures
            r@.len() == self.intervals().len(),
            forall|i: int|
                0 <= i < r@.len() ==> r@[i] == octave_notes(self.root_pitch(), self.intervals())[i],
            forall|i: int, j: int| 0 <= i < j < r@.len() ==> r@[i] < r@[j],
    ;

    /// The pitch at any position, wrapping octaves in both directions.
    fn note(&self, position: i32) -> (r: u32)
        requires
            self.root_pitch() + self.intervals().last() <= u32::MAX,
            0 <= pitch_at(self.root_pitch(), self.intervals(), position as int) <= u32::MAX,
        ensures
            r == pitch_at(self.root_pitch(), self.intervals(), position as int),
    {
        proof {
            self.lemma_scale_wf();
        }
        let notes = self.notes();
        let len = notes.len();
        let ghost root = self.root_pitch();
        let ghost offs = self.intervals();
        let ghost target = pitch_at(root, offs, position as int);
        proof {
            lemma_offsets_climb(offs, offs.len() - 1);
        }
        let n: i64 = len as i64;
        let mut pos: i64 = position as i64;
        let mut base: i64 = 0;
        if pos >= 0 {
            while pos >= n
                invariant
                    n == offs.len(),
                    0 < n <= 12,
                    pitch_at(root, offs, pos as int) + base == target,
                    0 <= pos <= i32::MAX,
                    0 <= base <= 12 * (i32::MAX - pos),
                decreases pos,
            {
                proof {
                    lemma_pitch_octave_shift(root, offs, pos - n);
                }
                pos = pos - n;
                base = base + 12;
            }
        } else {
            while pos < 0
                invariant
                    n == offs.len(),
                    0 < n <= 12,
                    pitch_at(root, offs, pos as int) + base == target,
                    i32::MIN <= pos < n,
                    base <= 0,
                    -base <= 12 * (pos - i32::MIN),
                decreases n - pos,
            {
                proof {
                    lemma_pitch_octave_shift(root, offs, pos as int);
                }
                pos = pos + n;
                base = base - 12;
            }
        }
        proof {
            lemma_pitch_in_octave(root, offs, pos as int);
        }
        let note: i64 = notes[pos as usize] as i64;
        (note + base) as u32
    }
}

} // verus!
