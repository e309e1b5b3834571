//! Keyboard state tracking: which keys are held, and which were pressed or
//! released during the current frame.

use vstd::prelude::*;
use std::collections::HashSet;

verus! {

broadcast use vstd::std_specs::hash::group_hash_axioms;

/// Numeric key code.
pub type KeyCode = u32;

/// Keyboard state: held keys, and the keys pressed or released this frame.
#[derive(Debug)]
pub struct KeyboardState {
    pub pressed_keys: HashSet<KeyCode>,
    pub just_pressed_keys: HashSet<KeyCode>,
    pub just_released_keys: HashSet<KeyCode>,
}

impl KeyboardState {
    /// Creates a new state with no key held.
    pub fn new() -> (s: Self)
        ensures
            s.pressed_keys@ == Set::<KeyCode>::empty(),
            s.just_pressed_keys@ == Set::<KeyCode>::empty(),
            s.just_released_keys@ == Set::<KeyCode>::empty(),
    {
        Self {
            pressed_keys: HashSet::new(),
            just_pressed_keys: HashSet::new(),
            just_released_keys: HashSet::new(),
        }
    }

    /// Checks if a key is currently held.
    pub fn is_key_pressed(&self, key: KeyCode) -> (r: bool)
        ensures
            r == self.pressed_keys@.contains(key),
    {
        self.pressed_keys.contains(&key)
    }

    /// Checks if a key was pressed this frame.
    pub fn is_key_just_pressed(&self, key: KeyCode) -> (r: bool)
        ensures
            r == self.just_pressed_keys@.contains(key),
    {
        self.just_pressed_keys.contains(&key)
    }

    /// Checks if a key was released this frame.
    pub fn is_key_just_released(&self, key: KeyCode) -> (r: bool)
        ensures
            r == self.just_released_keys@.contains(key),
    {
        self.just_released_keys.contains(&key)
    }

    /// Clears the per-frame state (called at the start of each frame).
    pub fn clear_frame_state(&mut self)
        ensures
            final(self).pressed_keys@ == old(self).pressed_keys@,
            final(self).just_pressed_keys@ == Set::<KeyCode>::empty(),
            final(self).just_released_keys@ == Set::<KeyCode>::empty(),
    {
        self.just_pressed_keys.clear();
        self.just_released_keys.clear();
    }

    /// Records a key press (`pressed`) or release (`!pressed`).
    ///
    /// A press of a key not held marks it just pressed; a release marks it
    /// just released and no longer held.
    pub fn process_key(&mut self, key: KeyCode, pressed: bool)
        ensures
            pressed ==> {
                &&& final(self).pressed_keys@ == old(self).pressed_keys@.insert(key)
                &&& final(self).just_pressed_keys@ == if old(self).pressed_keys@.contains(key) {
                    old(self).just_pressed_keys@
                } else {
                    old(self).just_pressed_keys@.insert(key)
                }
                &&& final(self).just_released_keys@ == old(self).just_released_keys@
            },
            !pressed ==> {
                &&& final(self).pressed_keys@ == old(self).pressed_keys@.remove(key)
                &&& final(self).just_pressed_keys@ == old(self).just_pressed_keys@
                &&& final(self).just_released_keys@ == old(self).just_released_keys@.insert(key)
            },
    {
        if pressed {
            if !self.pressed_keys.contains(&key) {
                self.just_pressed_keys.insert(key);
            }
            self.pressed_keys.insert(key);
        } else {
            self.just_released_keys.insert(key);
            self.pressed_keys.remove(&key);
        }
    }
}

impl Default for KeyboardState {
    fn default() -> (s: Self)
        ensures
            s.pressed_keys@ == Set::<KeyCode>::empty(),
            s.just_pressed_keys@ == Set::<KeyCode>::empty(),
            s.just_released_keys@ == Set::<KeyCode>::empty(),
    {
        Self::new()
    }
}

} // verus!
