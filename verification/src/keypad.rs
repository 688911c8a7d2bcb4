//! The 16-key input device: a boolean key-state vector with release-edge
//! detection against a previous snapshot.

use vstd::prelude::*;

verus! {

/// The lowest key index at or above `k` that is pressed in `prev` and no
/// longer pressed in `cur` (a release edge), if any.
pub open spec fn first_release_from(prev: Seq<bool>, cur: Seq<bool>, k: usize) -> Option<usize>
    recommends
        prev.len() == 16,
        cur.len() == 16,
    decreases 16 - k,
{
    if k >= 16 {
        None
    } else if prev[k as int] && !cur[k as int] {
        Some(k)
    } else {
        first_release_from(prev, cur, (k + 1) as usize)
    }
}

/// A release edge found by `first_release_from` is a key index below 16
/// whose key went from pressed to released.
pub proof fn lemma_first_release_in_range(prev: Seq<bool>, cur: Seq<bool>, k: usize)
    requires
        prev.len() == 16,
        cur.len() == 16,
    ensures
        first_release_from(prev, cur, k) matches Some(r) ==> k <= r < 16 && prev[r as int]
            && !cur[r as int],
    decreases 16 - k,
{
    if k < 16 && !(prev[k as int] && !cur[k as int]) {
        lemma_first_release_in_range(prev, cur, (k + 1) as usize);
    }
}

/// No release edge is found exactly when no key at or above `k` went from
/// pressed to released.
pub proof fn lemma_first_release_none(prev: Seq<bool>, cur: Seq<bool>, k: usize)
    requires
        prev.len() == 16,
        cur.len() == 16,
    ensures
        first_release_from(prev, cur, k) is None <==> (forall|i: int|
            k <= i < 16 ==> !(prev[i] && !cur[i])),
    decreases 16 - k,
{
    if k < 16 {
        lemma_first_release_none(prev, cur, (k + 1) as usize);
    }
}

/// A 16-element boolean key-state vector. Index 0x0 to 0xF, one flag per
/// logical key; true means the key is currently held down.
pub struct Keypad {
    keys: Vec<bool>,
}

impl View for Keypad {
    type V = Seq<bool>;

    closed spec fn view(&self) -> Seq<bool> {
        self.keys@
    }
}

impl Keypad {
    pub open spec fn wf(&self) -> bool {
        self@.len() == 16
    }

    /// A keypad with every key up.
    pub fn new() -> (k: Keypad)
        ensures
            k.wf(),
            forall|i: int| 0 <= i < 16 ==> !k@[i],
    {
        let mut keys: Vec<bool> = Vec::new();
        let mut i: usize = 0;
        while i < 16
            invariant
                keys@.len() == i,
                i <= 16,
                forall|j: int| 0 <= j < i ==> !keys@[j],
            decreases 16 - i,
        {
            keys.push(false);
            i = i + 1;
        }
        Keypad { keys }
    }

    /// The lowest key that is down in `self` and up in `new`: the first
    /// release edge between the two snapshots.
    pub fn get_new_key_release(&self, new: &Keypad) -> (r: Option<usize>)
        requires
            self.wf(),
            new.wf(),
        ensures
            r == first_release_from(self@, new@, 0),
    {
        let mut i: usize = 0;
        while i < 16
            invariant
                self.wf(),
                new.wf(),
                i <= 16,
                first_release_from(self@, new@, 0) == first_release_from(self@, new@, i),
            decreases 16 - i,
        {
            if self.keys[i] && !new.keys[i] {
                return Some(i);
            }
            i = i + 1;
        }
        None
    }

    pub fn key_down(&mut self, id: usize)
        requires
            old(self).wf(),
            id < 16,
        ensures
            final(self).wf(),
            final(self)@ == old(self)@.update(id as int, true),
    {
        self.keys[id] = true;
    }

    pub fn key_up(&mut self, id: usize)
        requires
            old(self).wf(),
            id < 16,
        ensures
            final(self).wf(),
            final(self)@ == old(self)@.update(id as int, false),
    {
        self.keys[id] = false;
    }

    pub fn is_key_pressed(&self, id: usize) -> (b: bool)
        requires
            self.wf(),
            id < 16,
        ensures
            b == self@[id as int],
    {
        self.keys[id]
    }

    /// A fresh keypad holding the same key states.
    pub fn snapshot(&self) -> (k: Keypad)
        requires
            self.wf(),
        ensures
            k.wf(),
            k@ == self@,
    {
        let mut keys: Vec<bool> = Vec::new();
        let mut i: usize = 0;
        while i < 16
            invariant
                self.wf(),
                keys@.len() == i,
                i <= 16,
                forall|j: int| 0 <= j < i ==> keys@[j] == self@[j],
            decreases 16 - i,
        {
            keys.push(self.keys[i]);
            i = i + 1;
        }
        let k = Keypad { keys };
        proof {
            assert(k@ =~= self@);
        }
        k
    }
}

} // verus!
