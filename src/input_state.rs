use vstd::prelude::*;

verus! {

/// The slot a home-row character selects; other characters select 0.
pub open spec fn home_row_slot(c: char) -> u32 {
    match c {
        'a' => 0,
        's' => 1,
        'd' => 2,
        'f' => 3,
        'g' => 4,
        'h' => 5,
        'j' => 6,
        'k' => 7,
        'l' => 8,
        ';' => 9,
        _ => 0,
    }
}

/// The home-row table, in keyboard order.
pub open spec fn home_row() -> Seq<(char, u32)> {
    seq![('a', 0u32), ('s', 1u32), ('d', 2u32), ('f', 3u32), ('g', 4u32), ('h', 5u32), ('j', 6u32), ('k', 7u32), ('l', 8u32), (';', 9u32)]
}

/// Whether characters play or edit, and which slot each home-row
/// character stands for.
pub struct InputState {
    mode: u8,
    mappings: Vec<(char, u32)>,
}

impl InputState {
    pub closed spec fn wf(&self) -> bool {
        self.mappings@ == home_row()
    }

    pub closed spec fn mode_spec(&self) -> u8 {
        self.mode
    }

    pub fn new() -> (r: InputState)
        ensures
            r.wf(),
            r.mode_spec() == 0,
    {
        let mappings = vec![('a', 0u32), ('s', 1u32), ('d', 2u32), ('f', 3u32), ('g', 4u32), ('h', 5u32), ('j', 6u32), ('k', 7u32), ('l', 8u32), (';', 9u32)];
        InputState { mode: 0, mappings }
    }

    pub fn edit_mode(&mut self)
        requires
            old(self).wf(),
        ensures
            final(self).wf(),
            final(self).mode_spec() == 1,
    {
        self.mode = 1;
    }

    pub fn play_mode(&mut self)
        requires
            old(self).wf(),
        ensures
            final(self).wf(),
            final(self).mode_spec() == 0,
    {
        self.mode = 0;
    }

    pub fn is_play_mode(&self) -> (r: bool)
        ensures
            r == (self.mode_spec() == 0),
    {
        self.mode == 0
    }

    /// The slot `key` stands for, or 0 when it has none.
    pub fn transform_key(&self, key: char) -> (r: u32)
        requires
            self.wf(),
        ensures
            r == home_row_slot(key),
    {
        let mut i: usize = 0;
        while i < self.mappings.len()
            invariant
                self.mappings@ == home_row(),
                i <= self.mappings@.len(),
                forall|k: int| 0 <= k < i ==> self.mappings@[k].0 != key,
            decreases self.mappings@.len() - i,
        {
            let (c, n) = self.mappings[i];
            if c == key {
                return n;
            }
            i = i + 1;
        }
        proof {
            assert(forall|k: int| 0 <= k < 10 ==> home_row()[k].0 != key);
        }
        0
    }
}

} // verus!
