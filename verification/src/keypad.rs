//! The sixteen-key hexadecimal keypad.

use vstd::prelude::*;

verus! {

/// Pressed/released state of the sixteen keys.
pub struct Keypad {
    keys: [bool; 16],
}

/// Key `k` is held down and no key below it is.
pub open spec fn lowest_pressed(keys: Seq<bool>, k: int) -> bool {
    &&& 0 <= k < keys.len()
    &&& keys[k]
    &&& forall|j: int| 0 <= j < k ==> !keys[j]
}

/// No key of the pad is held down.
pub open spec fn none_pressed(keys: Seq<bool>) -> bool {
    forall|j: int| 0 <= j < keys.len() ==> !keys[j]
}

/// The lowest-indexed key that is held down, or `None` when no key is.
pub open spec fn first_pressed(keys: Seq<bool>) -> Option<int> {
    if exists|k: int| lowest_pressed(keys, k) {
        Some(choose|k: int| lowest_pressed(keys, k))
    } else {
        None
    }
}

/// `first_pressed` is the one key that `lowest_pressed` singles out.
pub proof fn lemma_first_pressed_is_lowest(keys: Seq<bool>, k: int)
    requires
        lowest_pressed(keys, k),
    ensures
        first_pressed(keys) == Some(k),
{
    let c = choose|c: int| lowest_pressed(keys, c);
    assert(lowest_pressed(keys, c));
    if c < k {
        assert(!keys[c]);
    } else if k < c {
        assert(!keys[k]);
    }
}

/// `first_pressed` is `None` exactly when every key is released.
pub proof fn lemma_first_pressed_none(keys: Seq<bool>)
    ensures
        first_pressed(keys) is None <==> none_pressed(keys),
{
    if exists|k: int| lowest_pressed(keys, k) {
        let k = choose|k: int| lowest_pressed(keys, k);
        assert(keys[k]);
    } else if !none_pressed(keys) {
        let j = choose|j: int| 0 <= j < keys.len() && keys[j];
        lemma_some_key_is_lowest(keys, j);
    }
}

/// Below any pressed key there is a lowest pressed key.
proof fn lemma_some_key_is_lowest(keys: Seq<bool>, j: int)
    requires
        0 <= j < keys.len(),
        keys[j],
    ensures
        exists|k: int| lowest_pressed(keys, k),
    decreases j,
{
    if exists|i: int| 0 <= i < j && keys[i] {
        let i = choose|i: int| 0 <= i < j && keys[i];
        lemma_some_key_is_lowest(keys, i);
    } else {
        assert(lowest_pressed(keys, j));
    }
}

impl View for Keypad {
    type V = Seq<bool>;

    /// The pad as a sequence of sixteen flags, `true` for a pressed key.
    closed spec fn view(&self) -> Seq<bool> {
        self.keys@
    }
}

impl Keypad {
    /// A pad with every key released.
    pub fn new() -> (pad: Keypad)
        ensures
            pad@ == Seq::new(16, |i: int| false),
    {
        Keypad { keys: [false; 16] }
    }

    /// Whether key `index` is held down.
    pub fn is_pressed(&self, index: usize) -> (pressed: bool)
        requires
            index < 16,
        ensures
            pressed == self@[index as int],
    {
        self.keys[index]
    }

    /// Marks key `index` as held down.
    pub fn press(&mut self, index: usize)
        requires
            index < 16,
        ensures
            final(self)@ == old(self)@.update(index as int, true),
    {
        self.keys[index] = true;
    }

    /// Marks key `index` as released.
    pub fn release(&mut self, index: usize)
        requires
            index < 16,
        ensures
            final(self)@ == old(self)@.update(index as int, false),
    {
        self.keys[index] = false;
    }

    /// The lowest-indexed key that is held down, or `None` when no key is.
    pub fn which_pressed(&self) -> (key: Option<usize>)
        ensures
            match key {
                Some(k) => first_pressed(self@) == Some(k as int) && lowest_pressed(self@, k as int),
                None => first_pressed(self@) is None && none_pressed(self@),
            },
    {
        let mut i: usize = 0;
        while i < 16
            invariant
                i <= 16,
                forall|j: int| 0 <= j < i ==> !self@[j],
            decreases 16 - i,
        {
            if self.keys[i] {
                proof {
                    lemma_first_pressed_is_lowest(self@, i as int);
                }
                return Some(i);
            }
            i += 1;
        }
        proof {
            lemma_first_pressed_none(self@);
        }
        None
    }

    /// A keypad always has sixteen keys.
    pub proof fn lemma_len(&self)
        ensures
            self@.len() == 16,
    {
    }
}

} // verus!
