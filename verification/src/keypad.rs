//! Sixteen boolean key latches, indexed by logical key 0x0..=0xF.
//!
//! Mapping physical key codes to logical indices belongs to the embedding
//! input adapter, not to this component.

use vstd::prelude::*;

verus! {

/// Number of logical keys.
pub const KEY_COUNT: usize = 16;

pub struct Keypad {
    key_status: Vec<bool>,
}

impl View for Keypad {
    type V = Seq<bool>;

    closed spec fn view(&self) -> Seq<bool> {
        self.key_status@
    }
}

/// The lowest pressed key at or above index `k`, if any.  This is the
/// deterministic "lowest index wins" policy of the block-for-key
/// instruction.
pub open spec fn first_key_from(keys: Seq<bool>, k: int) -> Option<u8>
    decreases 16 - k,
{
    if k < 0 || k >= 16 {
        None
    } else if keys[k] {
        Some(k as u8)
    } else {
        first_key_from(keys, k + 1)
    }
}

/// Characterizes `first_key_from`: a `Some` names the lowest pressed index
/// in range, a `None` means no key at or above `k` is pressed.
pub proof fn lemma_first_key_from(keys: Seq<bool>, k: int)
    requires
        0 <= k <= 16,
    ensures
        match first_key_from(keys, k) {
            Some(idx) => k <= idx < 16 && keys[idx as int]
                && forall|j: int| k <= j < idx ==> !keys[j],
            None => forall|j: int| k <= j < 16 ==> !keys[j],
        },
    decreases 16 - k,
{
    if k < 16 && !keys[k] {
        lemma_first_key_from(keys, k + 1);
    }
}

impl Keypad {
    pub open spec fn wf(&self) -> bool {
        self@.len() == KEY_COUNT
    }

    /// All keys released.
    pub fn new() -> (r: Keypad)
        ensures
            r.wf(),
            r@ == Seq::new(KEY_COUNT as nat, |k: int| false),
    {
        let mut key_status: Vec<bool> = Vec::new();
        while key_status.len() < KEY_COUNT
            invariant
                key_status@ == Seq::new(key_status@.len(), |k: int| false),
                key_status@.len() <= KEY_COUNT,
            decreases KEY_COUNT - key_status@.len(),
        {
            key_status.push(false);
            proof {
                assert(key_status@ =~= Seq::new(key_status@.len(), |k: int| false));
            }
        }
        Keypad { key_status }
    }

    /// Whether the key at `pos` is currently latched down.
    pub fn get_status(&self, pos: usize) -> (r: bool)
        requires
            self.wf(),
            pos < KEY_COUNT,
        ensures
            r == self@[pos as int],
    {
        self.key_status[pos]
    }

    /// The lowest pressed key, if any key is pressed.
    pub fn being_pressed(&self) -> (r: Option<u8>)
        requires
            self.wf(),
        ensures
            r == first_key_from(self@, 0),
    {
        let mut k: usize = 0;
        while k < KEY_COUNT
            invariant
                self.wf(),
                0 <= k <= KEY_COUNT,
                first_key_from(self@, 0) == first_key_from(self@, k as int),
                forall|j: int| 0 <= j < k ==> !self@[j],
            decreases KEY_COUNT - k,
        {
            if self.key_status[k] {
                return Some(k as u8);
            }
            k = k + 1;
        }
        None
    }

    /// Latches the key down.
    pub fn press(&mut self, key: usize)
        requires
            old(self).wf(),
            key < KEY_COUNT,
        ensures
            final(self).wf(),
            final(self)@ == old(self)@.update(key as int, true),
    {
        self.key_status[key] = true;
    }

    /// Releases the key.
    pub fn release(&mut self, key: usize)
        requires
            old(self).wf(),
            key < KEY_COUNT,
        ensures
            final(self).wf(),
            final(self)@ == old(self)@.update(key as int, false),
    {
        self.key_status[key] = false;
    }
}

} // verus!
