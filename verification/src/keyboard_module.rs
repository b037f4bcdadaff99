//! The 16-key input latch: one boolean per key code `0x0`–`0xF`, set and
//! cleared by an external input adapter and polled by the CPU.

use vstd::prelude::*;

verus! {

/// A pure latch of 16 key states.  Edge detection (press vs. hold vs.
/// release) is the input adapter's business; the latch only remembers the
/// most recently reported state of each key.
pub struct KeyboardModule {
    pub keys: Vec<bool>,
}

impl KeyboardModule {
    /// There are 16 logical keys, `0x0` through `0xF`.
    pub open spec fn wf(&self) -> bool {
        self.keys@.len() == 16
    }

    /// All 16 keys start released.
    pub fn new() -> (k: KeyboardModule)
        ensures
            k.wf(),
            forall|i: int| 0 <= i < 16 ==> !k.keys@[i],
    {
        let mut keys: Vec<bool> = Vec::new();
        let mut i: usize = 0;
        while i < 16
            invariant
                i <= 16,
                keys@.len() == i,
                forall|j: int| 0 <= j < i ==> !keys@[j],
            decreases 16 - i,
        {
            keys.push(false);
            i = i + 1;
        }
        KeyboardModule { keys }
    }

    /// Records the state of one key; every other key keeps its state.
    pub fn set_key(&mut self, key: u8, val: bool)
        requires
            old(self).wf(),
            key < 16,
        ensures
            final(self).wf(),
            final(self).keys@ == old(self).keys@.update(key as int, val),
    {
        self.keys[key as usize] = val;
    }

    /// Reads the latched state of one key.
    pub fn get_key(&self, key: u8) -> (b: bool)
        requires
            self.wf(),
            key < 16,
        ensures
            b == self.keys@[key as int],
    {
        self.keys[key as usize]
    }
}

} // verus!
