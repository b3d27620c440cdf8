use vstd::prelude::*;
use crate::events::Key;
use crate::scales::AnyScale;

verus! {

/// Whether a key plays its note alone or the chord stacked on it.
#[derive(Debug, Clone, Copy, PartialEq, Eq, Structural)]
pub enum PlayMode {
    Single,
    Chord,
}

/// The state shared by the keyboard player and the display.
pub struct AppState {
    pub scale: AnyScale,
    pub play_mode: PlayMode,
    pub pressed_keys: Vec<Key>,
    pub screen_width: u32,
    pub screen_height: u32,
}

impl AppState {
    /// The keys held down, each once, in the order they went down.
    pub open spec fn pressed(&self) -> Seq<Key> {
        self.pressed_keys@
    }

    pub open spec fn wf(&self) -> bool {
        self.pressed().no_duplicates()
    }

    pub fn new(scale: AnyScale) -> (r: AppState)
        ensures
            r.wf(),
            r.scale == scale,
            r.play_mode == PlayMode::Single,
            r.pressed() == Seq::<Key>::empty(),
            r.screen_width == 800,
            r.screen_height == 600,
    {
        AppState {
            scale,
            play_mode: PlayMode::Single,
            pressed_keys: Vec::new(),
            screen_width: 800,
            screen_height: 600,
        }
    }

    pub fn set_scale(&mut self, scale: AnyScale)
        ensures
            final(self).scale == scale,
            final(self).play_mode == old(self).play_mode,
            final(self).pressed() == old(self).pressed(),
            final(self).screen_width == old(self).screen_width,
            final(self).screen_height == old(self).screen_height,
    {
        self.scale = scale;
    }

    pub fn toggle_play_mode(&mut self)
        ensures
            final(self).play_mode == (if old(self).play_mode == PlayMode::Single {
                PlayMode::Chord
            } else {
                PlayMode::Single
            }),
            final(self).scale == old(self).scale,
            final(self).pressed() == old(self).pressed(),
            final(self).screen_width == old(self).screen_width,
            final(self).screen_height == old(self).screen_height,
    {
        match self.play_mode {
            PlayMode::Single => self.play_mode = PlayMode::Chord,
            PlayMode::Chord => self.play_mode = PlayMode::Single,
        }
    }

    pub fn play_chord(&self) -> (r: bool)
        ensures
            r == (self.play_mode == PlayMode::Chord),
    {
        match self.play_mode {
            PlayMode::Single => false,
            PlayMode::Chord => true,
        }
    }

    pub fn play_mode_label(&self) -> (r: String)
        ensures
            r@ == (if self.play_mode == PlayMode::Chord {
                "Chord"@
            } else {
                "Single Note"@
            }),
    {
        match self.play_mode {
            PlayMode::Single => "Single Note".to_owned(),
            PlayMode::Chord => "Chord".to_owned(),
        }
    }

    /// Whether `key` is held down.
    pub fn is_pressed(&self, key: Key) -> (r: bool)
        ensures
            r == self.pressed().contains(key),
    {
        let mut i: usize = 0;
        while i < self.pressed_keys.len()
            invariant
                i <= self.pressed_keys@.len(),
                forall|k: int| 0 <= k < i ==> self.pressed_keys@[k] != key,
            decreases self.pressed_keys@.len() - i,
        {
            if self.pressed_keys[i] == key {
                return true;
            }
            i = i + 1;
        }
        false
    }

    /// The keys held down, in the order they went down.
    pub fn pressed_keys(&self) -> (r: Vec<Key>)
        ensures
            r@ == self.pressed(),
    {
        let mut r: Vec<Key> = Vec::new();
        let mut i: usize = 0;
        while i < self.pressed_keys.len()
            invariant
                i <= self.pressed_keys@.len(),
                r@ == self.pressed_keys@.subrange(0, i as int),
            decreases self.pressed_keys@.len() - i,
        {
            r.push(self.pressed_keys[i]);
            i = i + 1;
            assert(r@ =~= self.pressed_keys@.subrange(0, i as int));
        }
        assert(r@ =~= self.pressed_keys@);
        r
    }

    /// Marks `key` as held down.
    pub fn press_key(&mut self, key: Key)
        requires
            old(self).wf(),
        ensures
            final(self).wf(),
            final(self).pressed().to_set() == old(self).pressed().to_set().insert(key),
            old(self).pressed().contains(key) ==> final(self).pressed() == old(self).pressed(),
            !old(self).pressed().contains(key) ==> final(self).pressed() == old(self).pressed().push(
                key,
            ),
            final(self).scale == old(self).scale,
            final(self).play_mode == old(self).play_mode,
            final(self).screen_width == old(self).screen_width,
            final(self).screen_height == old(self).screen_height,
    {
        if !self.is_pressed(key) {
            self.pressed_keys.push(key);
            proof {
                let before = old(self).pressed();
                assert forall|i: int, j: int|
                    0 <= i < j < self.pressed_keys@.len() implies self.pressed_keys@[i]
                    != self.pressed_keys@[j] by {
                    if j == before.len() {
                        assert(before[i] != key);
                    }
                }
                before.lemma_push_to_set_commute(key);
            }
        } else {
            assert(self.pressed_keys@.contains(key));
            assert(self.pressed_keys@.to_set().contains(key));
            assert(self.pressed_keys@.to_set() =~= old(self).pressed().to_set().insert(key));
        }
    }

    /// Marks `key` as released.
    pub fn release_key(&mut self, key: Key)
        requires
            old(self).wf(),
        ensures
            final(self).wf(),
            final(self).pressed().to_set() == old(self).pressed().to_set().remove(key),
            !old(self).pressed().contains(key) ==> final(self).pressed() == old(self).pressed(),
            old(self).pressed().contains(key) ==> exists|i: int|
                0 <= i < old(self).pressed().len() && old(self).pressed()[i] == key
                    && final(self).pressed() == old(self).pressed().remove(i),
            final(self).scale == old(self).scale,
            final(self).play_mode == old(self).play_mode,
            final(self).screen_width == old(self).screen_width,
            final(self).screen_height == old(self).screen_height,
    {
        let ghost before = self.pressed_keys@;
        let mut i: usize = 0;
        let mut found = false;
        while i < self.pressed_keys.len() && !found
            invariant
                i <= before.len(),
                self.pressed_keys@ == before,
                found ==> i < before.len() && before[i as int] == key,
                !found ==> forall|k: int| 0 <= k < i ==> before[k] != key,
            decreases before.len() - i + (if found { 0int } else { 1int }),
        {
            if self.pressed_keys[i] == key {
                found = true;
            } else {
                i = i + 1;
            }
        }
        if found {
            self.pressed_keys.remove(i);
            proof {
                let after = self.pressed_keys@;
                before.remove_ensures(i as int);
                assert forall|a: int, b: int| 0 <= a < b < after.len() implies after[a]
                    != after[b] by {
                    let a0 = if a < i { a } else { a + 1 };
                    let b0 = if b < i { b } else { b + 1 };
                    assert(after[a] == before[a0]);
                    assert(after[b] == before[b0]);
                }
                assert forall|k: Key| after.to_set().contains(k) == before.to_set().remove(
                    key,
                ).contains(k) by {
                    if after.to_set().contains(k) {
                        let a = choose|a: int| 0 <= a < after.len() && after[a] == k;
                        let a0 = if a < i { a } else { a + 1 };
                        assert(before[a0] == k);
                        assert(before.contains(k));
                        assert(a0 != i);
                    }
                    if before.to_set().remove(key).contains(k) {
                        let b = choose|b: int| 0 <= b < before.len() && before[b] == k;
                        assert(b != i);
                        if b < i {
                            assert(after[b] == k);
                            assert(after.contains(k));
                        } else {
                            assert(after[b - 1] == k);
                            assert(after.contains(k));
                        }
                    }
                }
                assert(after.to_set() =~= before.to_set().remove(key));
            }
        } else {
            assert(!before.contains(key));
            assert(before.to_set() =~= before.to_set().remove(key));
        }
    }
}

} // verus!
