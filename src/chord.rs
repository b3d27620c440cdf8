use vstd::prelude::*;
use crate::scales::AnyScale;
use crate::scale::{
    intervals_wf, lemma_offsets_climb, lemma_pitch_bounds, lemma_pitch_in_octave, lemma_pitch_monotone,
    octave_notes, pitch_at, Scale,
};

verus! {

/// The scale degree of `p`: its index among the octave's pitches, or 0 when
/// `p` is not one of them.
pub open spec fn degree_of(root: int, offsets: Seq<int>, p: int) -> int {
    if exists|i: int| 0 <= i < offsets.len() && root + offsets[i] == p {
        choose|i: int| 0 <= i < offsets.len() && root + offsets[i] == p
    } else {
        0
    }
}

/// The triad on `p`: the intervals from the degree of `p` to the degrees
/// two and four steps higher, laid on `p` itself.
pub open spec fn chord_of(root: int, offsets: Seq<int>, p: int) -> Seq<int> {
    let i = degree_of(root, offsets, p);
    let base = pitch_at(root, offsets, i);
    seq![
        p,
        p + (pitch_at(root, offsets, i + 2) - base),
        p + (pitch_at(root, offsets, i + 4) - base),
    ]
}

/// What `get` needs to stay within `u32`.
pub open spec fn chord_fits(root: int, offsets: Seq<int>, p: int) -> bool {
    &&& root + offsets.last() <= u32::MAX
    &&& pitch_at(root, offsets, degree_of(root, offsets, p) + 4) <= u32::MAX
    &&& chord_of(root, offsets, p)[2] <= u32::MAX
}

/// The chord on `p` lies at most 191 semitones above `p`, and the degrees
/// it reads lie at most 191 above the root.
pub proof fn lemma_chord_bounds(root: int, offsets: Seq<int>, p: int)
    requires
        intervals_wf(offsets),
        0 <= root,
    ensures
        root + offsets.last() <= root + 11,
        pitch_at(root, offsets, degree_of(root, offsets, p) + 4) <= root + 191,
        p <= chord_of(root, offsets, p)[1] <= chord_of(root, offsets, p)[2] <= p + 191,
{
    let d = degree_of(root, offsets, p);
    assert(0 <= d < offsets.len());
    lemma_offsets_climb(offsets, offsets.len() - 1);
    lemma_pitch_bounds(root, offsets, d);
    lemma_pitch_bounds(root, offsets, d + 4);
    lemma_pitch_monotone(root, offsets, d, d + 2);
    lemma_pitch_monotone(root, offsets, d + 2, d + 4);
}

/// Whether `p` can be stacked into a chord in `scale` with room to spare;
/// when it says so, `get` can take `p`.
pub fn chord_fits_check(scale: &AnyScale, p: u32) -> (r: bool)
    ensures
        r ==> chord_fits(scale.root_pitch(), scale.intervals(), p as int),
        r == (scale.root_pitch() + 1000 <= u32::MAX && p + 1000 <= u32::MAX),
{
    let root = scale.root();
    proof {
        scale.lemma_scale_wf();
        lemma_chord_bounds(scale.root_pitch(), scale.intervals(), p as int);
    }
    root <= u32::MAX - 1000 && p <= u32::MAX - 1000
}

/// The chord stacked on `p` in `scale`.
pub fn get<S: Scale>(scale: &S, p: u32) -> (r: Vec<u32>)
    requires
        chord_fits(scale.root_pitch(), scale.intervals(), p as int),
    ensures
        r@.len() == 3,
        forall|k: int|
            0 <= k < 3 ==> r@[k] == chord_of(scale.root_pitch(), scale.intervals(), p as int)[k],
{
    let ghost root = scale.root_pitch();
    let ghost offs = scale.intervals();
    proof {
        scale.lemma_scale_wf();
    }
    let notes = scale.notes();
    let mut position: usize = 0;
    let mut found = false;
    let mut i: usize = 0;
    while i < notes.len()
        invariant
            notes@.len() == offs.len(),
            forall|k: int| 0 <= k < notes@.len() ==> notes@[k] == octave_notes(root, offs)[k],
            i <= notes@.len(),
            found ==> position < notes@.len() && notes@[position as int] == p,
            !found ==> position == 0 && forall|k: int| 0 <= k < i ==> notes@[k] != p,
        decreases notes@.len() - i,
    {
        if !found && notes[i] == p {
            position = i;
            found = true;
        }
        i = i + 1;
    }
    proof {
        let d = degree_of(root, offs, p as int);
        if found {
            assert(root + offs[position as int] == p);
            let c = choose|j: int| 0 <= j < offs.len() && root + offs[j] == p;
            if c < position {
                assert(offs[c] < offs[position as int]);
            } else if c > position {
                assert(offs[position as int] < offs[c]);
            }
            assert(d == position);
        } else {
            assert forall|j: int| 0 <= j < offs.len() implies root + offs[j] != p by {
                assert(notes@[j] == octave_notes(root, offs)[j]);
            }
            assert(d == 0);
        }
        lemma_pitch_in_octave(root, offs, d);
        lemma_offsets_climb(offs, d);
        lemma_offsets_climb(offs, offs.len() - 1);
        lemma_pitch_monotone(root, offs, d, d + 2);
        lemma_pitch_monotone(root, offs, d + 2, d + 4);
    }
    let base = scale.note(position as i32);
    let second = scale.note((position + 2) as i32);
    let third = scale.note((position + 4) as i32);
    let up_third = p + (second - base);
    let up_fifth = p + (third - base);
    vec![p, up_third, up_fifth]
}

} // verus!
