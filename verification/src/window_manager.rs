//! A plugin's window layout: all windows side by side, each of the full height.

use vstd::prelude::*;

use crate::geometry::{Point, Size};

verus! {

/// A window, as the compositor names it to plugins.
#[derive(Clone, Copy, PartialEq, Eq, Structural, Debug)]
pub struct WindowId {
    pub inner: u64,
}

/// Where a window goes.
#[derive(Clone, Copy, PartialEq, Eq, Structural, Debug)]
pub struct Placement {
    pub window: WindowId,
    pub size: Size,
    pub pos: Point,
}

/// A quotient rounded towards zero.
pub open spec fn quotient(dividend: int, divisor: int) -> int {
    if dividend >= 0 {
        dividend / divisor
    } else {
        -((-dividend) / divisor)
    }
}

/// The windows side by side: each has an equal share of the width, rounded
/// towards zero, and the full height.
pub open spec fn tiled(windows: Seq<WindowId>, screen: Size) -> Seq<Placement> {
    let share = quotient(screen.width as int, windows.len() as int);
    Seq::new(
        windows.len(),
        |i: int|
            Placement {
                window: windows[i],
                size: Size { width: share as i32, height: screen.height },
                pos: Point { x: (i * share) as i32, y: 0 },
            },
    )
}

/// The windows in the order in which they appeared.
#[derive(Debug)]
pub struct GlobalState {
    pub windows: Vec<WindowId>,
}

impl Default for GlobalState {
    fn default() -> (state: Self)
        ensures
            state.windows@ == Seq::<WindowId>::empty(),
    {
        GlobalState { windows: Vec::new() }
    }
}

/// The share of a width, and the places at its multiples, are in the range of
/// `i32`.
pub proof fn lemma_share(width: int, n: int, i: int)
    requires
        i32::MIN <= width <= i32::MAX,
        0 <= i <= n,
        1 <= n,
    ensures
        i32::MIN <= quotient(width, n) <= i32::MAX,
        i32::MIN <= i * quotient(width, n) <= i32::MAX,
        width >= 0 ==> 0 <= i * quotient(width, n) <= width,
{
    let magnitude = if width >= 0 {
        width
    } else {
        -width
    };
    let share = magnitude / n;
    assert(0 <= share <= magnitude && 0 <= n * share <= magnitude) by (nonlinear_arith)
        requires
            share == magnitude / n,
            0 <= magnitude,
            1 <= n,
    ;
    assert(0 <= i * share <= n * share) by (nonlinear_arith)
        requires
            0 <= share,
            0 <= i <= n,
    ;
    assert(i * (-share) == -(i * share)) by (nonlinear_arith);
}

impl GlobalState {
    pub fn new() -> (state: Self)
        ensures
            state.windows@ == Seq::<WindowId>::empty(),
    {
        GlobalState { windows: Vec::new() }
    }

    /// Where the windows go on a screen of the size.
    pub fn rearrange_windows(&self, screen: Size) -> (placements: Vec<Placement>)
        requires
            self.windows@.len() <= i32::MAX,
        ensures
            placements@ == tiled(self.windows@, screen),
    {
        let mut placements: Vec<Placement> = Vec::new();
        if self.windows.len() == 0 {
            assert(placements@ =~= tiled(self.windows@, screen));
            return placements;
        }
        let n: i64 = self.windows.len() as i64;
        let share: i32 = if screen.width >= 0 {
            (screen.width as i64 / n) as i32
        } else {
            (-(-(screen.width as i64) / n)) as i32
        };
        proof {
            lemma_share(screen.width as int, n as int, 0);
            assert(share == quotient(screen.width as int, n as int));
        }
        let mut i: usize = 0;
        while i < self.windows.len()
            invariant
                i <= self.windows@.len(),
                1 <= self.windows@.len() <= i32::MAX,
                share == quotient(screen.width as int, self.windows@.len() as int),
                placements@ == tiled(self.windows@, screen).take(i as int),
            decreases self.windows@.len() - i,
        {
            proof {
                lemma_share(screen.width as int, self.windows@.len() as int, i as int);
            }
            let x: i32 = i as i32 * share;
            placements.push(
                Placement {
                    window: self.windows[i],
                    size: Size { width: share, height: screen.height },
                    pos: Point { x, y: 0 },
                },
            );
            i = i + 1;
            assert(placements@ =~= tiled(self.windows@, screen).take(i as int));
        }
        assert(tiled(self.windows@, screen).take(i as int) =~= tiled(self.windows@, screen));
        placements
    }

    /// A new window goes to the right of the others.
    pub fn new_toplevel(&mut self, window: WindowId, screen: Size) -> (placements: Vec<Placement>)
        requires
            old(self).windows@.len() < i32::MAX,
        ensures
            final(self).windows@ == old(self).windows@.push(window),
            placements@ == tiled(final(self).windows@, screen),
    {
        self.windows.push(window);
        self.rearrange_windows(screen)
    }

    /// A window is gone; the others share its place.
    pub fn toplevel_destroyed(&mut self, window: WindowId, screen: Size) -> (placements: Vec<
        Placement,
    >)
        requires
            old(self).windows@.len() <= i32::MAX,
        ensures
            final(self).windows@ == old(self).windows@.filter(|w: WindowId| w != window),
            placements@ == tiled(final(self).windows@, screen),
    {
        let ghost keep = |w: WindowId| w != window;
        let mut kept: Vec<WindowId> = Vec::new();
        let mut i: usize = 0;
        while i < self.windows.len()
            invariant
                i <= self.windows@.len(),
                self.windows@ == old(self).windows@,
                keep == (|w: WindowId| w != window),
                kept@ == self.windows@.take(i as int).filter(keep),
                kept@.len() <= i,
            decreases self.windows@.len() - i,
        {
            let w = self.windows[i];
            assert(self.windows@.take(i + 1).drop_last() =~= self.windows@.take(i as int));
            reveal(Seq::filter);
            if w.inner != window.inner {
                kept.push(w);
            }
            i = i + 1;
        }
        assert(self.windows@.take(i as int) =~= self.windows@);
        self.windows = kept;
        self.rearrange_windows(screen)
    }
}

} // verus!
