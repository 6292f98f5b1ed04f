//! Bounded rolling windows: the 7-day history of 15-minute volumes and the
//! last true ranges behind ATR-14 keep only their most recent values.

use std::collections::VecDeque;
use vstd::prelude::*;

verus! {

/// Number of true ranges averaged into ATR-14.
pub const ATR_PERIOD: usize = 14;

/// The window after appending `x` to `window`: when it then holds more than
/// `cap` values, the oldest is dropped.
pub open spec fn pushed_window<T>(window: Seq<T>, x: T, cap: nat) -> Seq<T> {
    let s = window.push(x);
    if s.len() > cap {
        s.drop_first()
    } else {
        s
    }
}

/// The window after appending each of `xs` in turn to `start`.
pub open spec fn window_after<T>(start: Seq<T>, xs: Seq<T>, cap: nat) -> Seq<T>
    decreases xs.len(),
{
    if xs.len() == 0 {
        start
    } else {
        pushed_window(window_after(start, xs.drop_last(), cap), xs.last(), cap)
    }
}

/// The last `cap` values of `xs` (all of them when there are fewer).
pub open spec fn last_values<T>(xs: Seq<T>, cap: nat) -> Seq<T> {
    if xs.len() > cap {
        xs.subrange(xs.len() - cap, xs.len() as int)
    } else {
        xs
    }
}

/// Appends `x` to the window and drops the oldest value when the window
/// then holds more than `cap` values.
pub fn push_bounded<T>(window: &mut VecDeque<T>, x: T, cap: usize)
    ensures
        final(window)@ == pushed_window(old(window)@, x, cap as nat),
        cap > 0 ==> final(window)@.len() > 0 && final(window)@.last() == x,
        old(window)@.len() < cap ==> final(window)@ == old(window)@.push(x),
        old(window)@.len() == cap && cap > 0 ==> final(window)@.len() == cap
            && final(window)@ == old(window)@.subrange(1, cap as int).push(x),
{
    window.push_back(x);
    if window.len() > cap {
        let _ = window.pop_front();
        assert(window@ =~= pushed_window(old(window)@, x, cap as nat));
    }
}

/// A window filled from empty by appending values one at a time holds
/// exactly the last `cap` of them, oldest first.
pub proof fn lemma_window_holds_last_values<T>(xs: Seq<T>, cap: nat)
    requires
        cap > 0,
    ensures
        window_after(Seq::<T>::empty(), xs, cap) == last_values(xs, cap),
        window_after(Seq::<T>::empty(), xs, cap).len() <= cap,
    decreases xs.len(),
{
    if xs.len() > 0 {
        let init = xs.drop_last();
        lemma_window_holds_last_values(init, cap);
        let w = last_values(init, cap);
        let s = w.push(xs.last());
        if s.len() > cap {
            assert(s.drop_first() =~= last_values(xs, cap));
        } else {
            assert(s =~= last_values(xs, cap));
        }
    }
}

} // verus!
