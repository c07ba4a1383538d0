//! The state of the keyboard from frame to frame, by key code.

use std::collections::HashMap;
use vstd::prelude::*;

verus! {

broadcast use vstd::std_specs::hash::group_hash_axioms;

/// For each key that was seen, whether it was down in the last frame and
/// whether it is down in this one.
pub struct KeyboardState {
    keys: HashMap<u32, (bool, bool)>,
}

impl View for KeyboardState {
    type V = Map<u32, (bool, bool)>;

    closed spec fn view(&self) -> Map<u32, (bool, bool)> {
        self.keys@
    }
}

/// Whether a key was down in the last frame. A key never seen was not.
pub open spec fn was_down(m: Map<u32, (bool, bool)>, key: u32) -> bool {
    m.contains_key(key) && m[key].0
}

/// Whether a key is down in this frame. A key never seen is not.
pub open spec fn is_down(m: Map<u32, (bool, bool)>, key: u32) -> bool {
    m.contains_key(key) && m[key].1
}

impl KeyboardState {
    pub fn new() -> (state: KeyboardState)
        ensures
            state@ == Map::<u32, (bool, bool)>::empty(),
    {
        KeyboardState { keys: HashMap::new() }
    }

    /// Takes note of a key event: the key, where the event names one, is
    /// down in this frame or not as the event says. What is known of the
    /// last frame stays.
    pub fn handle_input(&mut self, code: Option<u32>, pressed: bool)
        ensures
            match code {
                Some(key) => final(self)@ == old(self)@.insert(
                    key,
                    (was_down(old(self)@, key), pressed),
                ),
                None => final(self)@ == old(self)@,
            },
    {
        if let Some(key) = code {
            let last = match self.keys.get(&key) {
                Some(pair) => pair.0,
                None => false,
            };
            self.keys.insert(key, (last, pressed));
        }
    }

    /// Whether the key is down in this frame.
    pub fn is_pressed(&self, key: u32) -> (r: bool)
        ensures
            r == is_down(self@, key),
    {
        match self.keys.get(&key) {
            Some(pair) => pair.1,
            None => false,
        }
    }

    /// Whether the key went down in this frame: down now, and not before.
    pub fn is_just_pressed(&self, key: u32) -> (r: bool)
        ensures
            r == (is_down(self@, key) && !was_down(self@, key)),
    {
        match self.keys.get(&key) {
            Some(pair) => !pair.0 && pair.1,
            None => false,
        }
    }

    /// Whether the key went up in this frame: down before, and not now.
    pub fn is_just_released(&self, key: u32) -> (r: bool)
        ensures
            r == (was_down(self@, key) && !is_down(self@, key)),
    {
        match self.keys.get(&key) {
            Some(pair) => pair.0 && !pair.1,
            None => false,
        }
    }
}

} // verus!
