use vstd::prelude::*;
use crate::scale::{octave_notes, Scale};

verus! {

/// Adds each offset to `root`.
fn octave_from(root: u32, offsets: Vec<u32>) -> (r: Vec<u32>)
    requires
        forall|i: int| 0 <= i < offsets@.len() ==> root + offsets@[i] <= u32::MAX,
    ensures
        r@.len() == offsets@.len(),
        forall|i: int| 0 <= i < r@.len() ==> r@[i] == root + offsets@[i],
{
    let mut r: Vec<u32> = Vec::new();
    let mut i: usize = 0;
    while i < offsets.len()
        invariant
            i <= offsets@.len(),
            r@.len() == i,
            forall|k: int| 0 <= k < offsets@.len() ==> root + offsets@[k] <= u32::MAX,
            forall|k: int| 0 <= k < i ==> r@[k] == root + offsets@[k],
        decreases offsets@.len() - i,
    {
        r.push(root + offsets[i]);
        i = i + 1;
    }
    r
}

/// The natural minor (aeolian) scale, rooted at `root`.
pub struct NaturalMinor {
    pub root: u32,
}

impl NaturalMinor {
    pub fn new(root: u32) -> (r: NaturalMinor)
        ensures
            r.root == root,
    {
        NaturalMinor { root }
    }
}

impl Scale for NaturalMinor {
    open spec fn root_pitch(&self) -> int {
        self.root as int
    }

    open spec fn intervals(&self) -> Seq<int> {
        seq![0, 2, 3, 5, 7, 8, 10]
    }

    open spec fn label_text(&self) -> Seq<char> {
        "Natural Minor"@
    }

    proof fn lemma_scale_wf(&self) {
    }

    fn increase_root(&mut self, nr: u32) {
        self.root = self.root + nr;
    }

    fn decrease_root(&mut self, nr: u32) {
        self.root = self.root - nr;
    }

    fn label(&self) -> (r: String) {
        "Natural Minor".to_owned()
    }

    fn notes(&self) -> (r: Vec<u32>) {
        let r = octave_from(self.root, vec![0, 2, 3, 5, 7, 8, 10]);
        assert(r@.len() == self.intervals().len());
        assert forall|i: int| 0 <= i < r@.len() implies r@[i] == octave_notes(
            self.root_pitch(),
            self.intervals(),
        )[i] by {}
        r
    }
}

/// The harmonic minor scale, rooted at `root`.
pub struct HarmonicMinor {
    pub root: u32,
}

impl HarmonicMinor {
    pub fn new(root: u32) -> (r: HarmonicMinor)
        ensures
            r.root == root,
    {
        HarmonicMinor { root }
    }
}

impl Scale for HarmonicMinor {
    open spec fn root_pitch(&self) -> int {
        self.root as int
    }

    open spec fn intervals(&self) -> Seq<int> {
        seq![0, 2, 3, 5, 7, 8, 11]
    }

    open spec fn label_text(&self) -> Seq<char> {
        "Harmonic Minor"@
    }

    proof fn lemma_scale_wf(&self) {
    }

    fn increase_root(&mut self, nr: u32) {
        self.root = self.root + nr;
    }

    fn decrease_root(&mut self, nr: u32) {
        self.root = self.root - nr;
    }

    fn label(&self) -> (r: String) {
        "Harmonic Minor".to_owned()
    }

    fn notes(&self) -> (r: Vec<u32>) {
        let r = octave_from(self.root, vec![0, 2, 3, 5, 7, 8, 11]);
        assert(r@.len() == self.intervals().len());
        assert forall|i: int| 0 <= i < r@.len() implies r@[i] == octave_notes(
            self.root_pitch(),
            self.intervals(),
        )[i] by {}
        r
    }
}

/// The ascending melodic minor scale, rooted at `root`.
pub struct MelodicMinor {
    pub root: u32,
}

impl MelodicMinor {
    pub fn new(root: u32) -> (r: MelodicMinor)
        ensures
            r.root == root,
    {
        MelodicMinor { root }
    }
}

impl Scale for MelodicMinor {
    open spec fn root_pitch(&self) -> int {
        self.root as int
    }

    open spec fn intervals(&self) -> Seq<int> {
        seq![0, 2, 3, 5, 7, 9, 11]
    }

    open spec fn label_text(&self) -> Seq<char> {
        "Melodic Minor"@
    }

    proof fn lemma_scale_wf(&self) {
    }

    fn increase_root(&mut self, nr: u32) {
        self.root = self.root + nr;
    }

    fn decrease_root(&mut self, nr: u32) {
        self.root = self.root - nr;
    }

    fn label(&self) -> (r: String) {
        "Melodic Minor".to_owned()
    }

    fn notes(&self) -> (r: Vec<u32>) {
        let r = octave_from(self.root, vec![0, 2, 3, 5, 7, 9, 11]);
        assert(r@.len() == self.intervals().len());
        assert forall|i: int| 0 <= i < r@.len() implies r@[i] == octave_notes(
            self.root_pitch(),
            self.intervals(),
        )[i] by {}
        r
    }
}

/// The minor pentatonic scale, rooted at `root`.
pub struct PentatonicMinor {
    pub root: u32,
}

impl PentatonicMinor {
    pub fn new(root: u32) -> (r: PentatonicMinor)
        ensures
            r.root == root,
    {
        PentatonicMinor { root }
    }
}

impl Scale for PentatonicMinor {
    open spec fn root_pitch(&self) -> int {
        self.root as int
    }

    open spec fn intervals(&self) -> Seq<int> {
        seq![0, 3, 5, 7, 10]
    }

    open spec fn label_text(&self) -> Seq<char> {
        "Pentatonic Minor"@
    }

    proof fn lemma_scale_wf(&self) {
    }

    fn increase_root(&mut self, nr: u32) {
        self.root = self.root + nr;
    }

    fn decrease_root(&mut self, nr: u32) {
        self.root = self.root - nr;
    }

    fn label(&self) -> (r: String) {
        "Pentatonic Minor".to_owned()
    }

    fn notes(&self) -> (r: Vec<u32>) {
        let r = octave_from(self.root, vec![0, 3, 5, 7, 10]);
        assert(r@.len() == self.intervals().len());
        assert forall|i: int| 0 <= i < r@.len() implies r@[i] == octave_notes(
            self.root_pitch(),
            self.intervals(),
        )[i] by {}
        r
    }
}

/// The five-note blues minor pattern, rooted at `root`.
pub struct BluesMinor {
    pub root: u32,
}

impl BluesMinor {
    pub fn new(root: u32) -> (r: BluesMinor)
        ensures
            r.root == root,
    {
        BluesMinor { root }
    }
}

impl Scale for BluesMinor {
    open spec fn root_pitch(&self) -> int {
        self.root as int
    }

    open spec fn intervals(&self) -> Seq<int> {
        seq![0, 3, 5, 8, 10]
    }

    open spec fn label_text(&self) -> Seq<char> {
        "Blues Minor"@
    }

    proof fn lemma_scale_wf(&self) {
    }

    fn increase_root(&mut self, nr: u32) {
        self.root = self.root + nr;
    }

    fn decrease_root(&mut self, nr: u32) {
        self.root = self.root - nr;
    }

    fn label(&self) -> (r: String) {
        "Blues Minor".to_owned()
    }

    fn notes(&self) -> (r: Vec<u32>) {
        let r = octave_from(self.root, vec![0, 3, 5, 8, 10]);
        assert(r@.len() == self.intervals().len());
        assert forall|i: int| 0 <= i < r@.len() implies r@[i] == octave_notes(
            self.root_pitch(),
            self.intervals(),
        )[i] by {}
        r
    }
}

/// One scale of any of the kinds above, chosen at run time.
pub enum AnyScale {
    Natural(NaturalMinor),
    Harmonic(HarmonicMinor),
    Melodic(MelodicMinor),
    Pentatonic(PentatonicMinor),
    Blues(BluesMinor),
}

impl AnyScale {
    /// The root pitch.
    pub fn root(&self) -> (r: u32)
        ensures
            r == self.root_pitch(),
    {
        match self {
            AnyScale::Natural(s) => s.root,
            AnyScale::Harmonic(s) => s.root,
            AnyScale::Melodic(s) => s.root,
            AnyScale::Pentatonic(s) => s.root,
            AnyScale::Blues(s) => s.root,
        }
    }
}

impl Scale for AnyScale {
    open spec fn root_pitch(&self) -> int {
        match self {
            AnyScale::Natural(s) => s.root_pitch(),
            AnyScale::Harmonic(s) => s.root_pitch(),
            AnyScale::Melodic(s) => s.root_pitch(),
            AnyScale::Pentatonic(s) => s.root_pitch(),
            AnyScale::Blues(s) => s.root_pitch(),
        }
    }

    open spec fn intervals(&self) -> Seq<int> {
        match self {
            AnyScale::Natural(s) => s.intervals(),
            AnyScale::Harmonic(s) => s.intervals(),
            AnyScale::Melodic(s) => s.intervals(),
            AnyScale::Pentatonic(s) => s.intervals(),
            AnyScale::Blues(s) => s.intervals(),
        }
    }

    open spec fn label_text(&self) -> Seq<char> {
        match self {
            AnyScale::Natural(s) => s.label_text(),
            AnyScale::Harmonic(s) => s.label_text(),
            AnyScale::Melodic(s) => s.label_text(),
            AnyScale::Pentatonic(s) => s.label_text(),
            AnyScale::Blues(s) => s.label_text(),
        }
    }

    proof fn lemma_scale_wf(&self) {
        match self {
            AnyScale::Natural(s) => s.lemma_scale_wf(),
            AnyScale::Harmonic(s) => s.lemma_scale_wf(),
            AnyScale::Melodic(s) => s.lemma_scale_wf(),
            AnyScale::Pentatonic(s) => s.lemma_scale_wf(),
            AnyScale::Blues(s) => s.lemma_scale_wf(),
        }
    }

    fn increase_root(&mut self, nr: u32) {
        match self {
            AnyScale::Natural(s) => s.increase_root(nr),
            AnyScale::Harmonic(s) => s.increase_root(nr),
            AnyScale::Melodic(s) => s.increase_root(nr),
            AnyScale::Pentatonic(s) => s.increase_root(nr),
            AnyScale::Blues(s) => s.increase_root(nr),
        }
    }

    fn decrease_root(&mut self, nr: u32) {
        match self {
            AnyScale::Natural(s) => s.decrease_root(nr),
            AnyScale::Harmonic(s) => s.decrease_root(nr),
            AnyScale::Melodic(s) => s.decrease_root(nr),
            AnyScale::Pentatonic(s) => s.decrease_root(nr),
            AnyScale::Blues(s) => s.decrease_root(nr),
        }
    }

    fn label(&self) -> (r: String) {
        match self {
            AnyScale::Natural(s) => s.label(),
            AnyScale::Harmonic(s) => s.label(),
            AnyScale::Melodic(s) => s.label(),
            AnyScale::Pentatonic(s) => s.label(),
            AnyScale::Blues(s) => s.label(),
        }
    }

    fn notes(&self) -> (r: Vec<u32>) {
        match self {
            AnyScale::Natural(s) => s.notes(),
            AnyScale::Harmonic(s) => s.notes(),
            AnyScale::Melodic(s) => s.notes(),
            AnyScale::Pentatonic(s) => s.notes(),
            AnyScale::Blues(s) => s.notes(),
        }
    }
}

} // verus!
