//! Round-robin selection over a finite slice.
//!
//! A `RoundRobin` loops over a non-empty slice arbitrarily many times without
//! ever becoming exhausted: each call to `next` returns the element after the
//! one returned before, wrapping around at the end of the slice.

use vstd::prelude::*;

verus! {

use vstd::arithmetic::div_mod::{
    lemma_small_mod, lemma_mod_division_less_than_divisor, lemma_add_mod_noop,
    lemma_add_mod_noop_right, lemma_mod_sub_multiples_vanish, lemma_mod_add_multiples_vanish,
    lemma_mod_multiples_basic,
};

/// The position selected by one draw, given the previous position and the
/// length of the slice: the next position, wrapping to the front.
pub open spec fn next_position(position: nat, len: nat) -> nat {
    if position + 1 >= len {
        0
    } else {
        position + 1
    }
}

/// The position selected by the `k`-th draw after starting from `position`.
pub open spec fn position_after(position: nat, len: nat, k: nat) -> nat
    decreases k,
{
    if k == 0 {
        position
    } else {
        next_position(position_after(position, len, (k - 1) as nat), len)
    }
}

proof fn lemma_position_closed_form(start: nat, len: nat, k: nat)
    requires
        1 <= len,
        start <= len,
        1 <= k,
    ensures
        position_after(start, len, k) == (position_after(start, len, 1) + (k - 1)) % (len as int),
    decreases k,
{
    let p1 = position_after(start, len, 1) as int;
    if k == 1 {
        lemma_small_mod(p1 as nat, len);
    } else {
        lemma_position_closed_form(start, len, (k - 1) as nat);
        let prev = position_after(start, len, (k - 1) as nat) as int;
        lemma_mod_division_less_than_divisor(p1 + k - 2, len as int);
        if len == 1 {
            lemma_mod_division_less_than_divisor(p1 + k - 1, 1);
            lemma_small_mod(0, 1);
        } else {
            lemma_add_mod_noop(p1 + k - 2, 1, len as int);
            lemma_small_mod(1, len);
            lemma_small_mod(prev as nat, len);
            if prev + 1 == len {
                lemma_mod_multiples_basic(1, len as int);
            } else {
                lemma_small_mod((prev + 1) as nat, len);
            }
        }
    }
}

/// Whether some draw in the window of `len` consecutive draws after draw
/// number `k0` lands on position `j`.
pub open spec fn window_visits(start: nat, len: nat, k0: nat, j: nat) -> bool {
    exists|k: nat| k0 < k <= k0 + len && #[trigger] position_after(start, len, k) == j
}

/// The fair-selection law of the round-robin policy: starting anywhere, every
/// window of `len` consecutive draws visits each of the `len` positions
/// exactly once, and the sequence of draws repeats with period `len` — the
/// pool never exhausts and no element is starved or favoured.
pub proof fn lemma_round_robin_cycle(start: nat, len: nat)
    requires
        1 <= len,
        start <= len,
    ensures
        forall|k: nat| 1 <= k ==> #[trigger] position_after(start, len, k) < len,
        forall|k1: nat, k2: nat|
            1 <= k1 < k2 < k1 + len ==> #[trigger] position_after(start, len, k1)
                != #[trigger] position_after(start, len, k2),
        forall|k0: nat, j: nat| j < len ==> #[trigger] window_visits(start, len, k0, j),
        forall|k: nat|
            1 <= k ==> position_after(start, len, (k + len) as nat) == #[trigger] position_after(
                start,
                len,
                k,
            ),
{
    let p1 = position_after(start, len, 1) as int;
    let n = len as int;

    assert forall|k: nat| 1 <= k implies #[trigger] position_after(start, len, k) < len by {
        lemma_position_closed_form(start, len, k);
        lemma_mod_division_less_than_divisor(p1 + k - 1, n);
    }

    assert forall|k1: nat, k2: nat| 1 <= k1 < k2 < k1 + len implies #[trigger] position_after(
        start,
        len,
        k1,
    ) != #[trigger] position_after(start, len, k2) by {
        lemma_position_closed_form(start, len, k1);
        lemma_position_closed_form(start, len, k2);
        let a = p1 + k1 - 1;
        let d = k2 - k1;
        if (a + d) % n == a % n {
            let r = a % n;
            let s = d % n;
            lemma_mod_division_less_than_divisor(a, n);
            lemma_small_mod(d as nat, len);
            lemma_add_mod_noop(a, d, n);
            if r + s < n {
                lemma_small_mod((r + s) as nat, len);
            } else {
                lemma_mod_sub_multiples_vanish(r + s, n);
                lemma_small_mod((r + s - n) as nat, len);
            }
        }
    }

    assert forall|k0: nat, j: nat| j < len implies #[trigger] window_visits(start, len, k0, j) by {
        let base = p1 + k0;
        let delta = (j - base) % n;
        lemma_mod_division_less_than_divisor(j - base, n);
        let k = (k0 + 1 + delta) as nat;
        lemma_position_closed_form(start, len, k);
        lemma_add_mod_noop_right(base, j - base, n);
        lemma_small_mod(j, len);
        assert(position_after(start, len, k) == j);
        assert(k0 < k <= k0 + len);
    }

    assert forall|k: nat| 1 <= k implies position_after(start, len, (k + len) as nat)
        == #[trigger] position_after(start, len, k) by {
        lemma_position_closed_form(start, len, k);
        lemma_position_closed_form(start, len, (k + len) as nat);
        lemma_mod_add_multiples_vanish(p1 + k - 1, n);
    }
}

/// Iterate arbitrarily many times over a slice.
pub struct RoundRobin<'slice, T> {
    slice: &'slice [T],
    counter: usize,
}

impl<'slice, T> RoundRobin<'slice, T> {
    /// The elements being looped over.
    pub closed spec fn items(self) -> Seq<T> {
        self.slice@
    }

    /// The position of the element handed out most recently.
    pub closed spec fn position(self) -> nat {
        self.counter as nat
    }

    pub open spec fn well_formed(self) -> bool {
        self.position() <= self.items().len()
    }

    /// Create a new `RoundRobin` iterator from a slice.
    ///
    /// The first draw from the new iterator returns the first element.
    pub fn new(slice: &'slice [T]) -> (rr: Self)
        ensures
            rr.items() == slice@,
            rr.position() == slice@.len(),
            rr.well_formed(),
    {
        let counter = slice.len();
        Self { slice, counter }
    }

    /// Retrieve the next item, wrapping around at the end of the slice.
    ///
    /// The pool never exhausts; a caller needs some condition other than
    /// exhaustion to exit its loop.
    pub fn next<'rr>(&'rr mut self) -> (item: &'slice T)
        requires
            old(self).well_formed(),
            old(self).items().len() >= 1,
        ensures
            final(self).items() == old(self).items(),
            final(self).well_formed(),
            final(self).position() == next_position(old(self).position(), old(self).items().len()),
            final(self).position() < final(self).items().len(),
            item == &final(self).items()[final(self).position() as int],
    {
        if self.counter >= self.slice.len() - 1 {
            self.counter = 0;
        } else {
            self.counter = self.counter + 1;
        }
        &self.slice[self.counter]
    }
}

} // verus!
