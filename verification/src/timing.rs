//! The scanline cycle: what a run of steps does to the counter, and which
//! steps of a frame redraw and present.

use vstd::prelude::*;
use crate::gpu::{frame_action, next_line, FrameAction, Viewport};

verus! {

/// The scanline counter after `steps` steps, starting from `start`.
pub open spec fn line_after(start: u8, steps: nat) -> u8
    decreases steps,
{
    if steps == 0 {
        start
    } else {
        next_line(line_after(start, (steps - 1) as nat))
    }
}

/// After at least one step the counter is the start plus the number of
/// steps, modulo 154, whatever the start was.
pub proof fn lemma_line_after(start: u8, steps: nat)
    requires
        steps >= 1,
    ensures
        line_after(start, steps) == (start + steps) % 154,
    decreases steps,
{
    if steps == 1 {
        assert(line_after(start, 0) == start);
    } else {
        lemma_line_after(start, (steps - 1) as nat);
    }
}

/// A counter within the frame is back where it began after 154 steps.
pub proof fn lemma_cycle_returns(start: u8)
    requires
        start < 154,
    ensures
        line_after(start, 154) == start,
{
    lemma_line_after(start, 154);
}

/// Of any 154 consecutive steps exactly one redraws the canvas: the one
/// that finds the counter at 0. A run that begins with the counter at 154
/// is left out, since it passes from 154 straight to 1.
pub proof fn lemma_one_redraw_per_cycle(start: u8, scy: u8)
    requires
        start != 154,
    ensures
        forall|line: u8| #[trigger] frame_action(line, scy) is Upload <==> line == 0,
        exists|k: nat| k < 154 && #[trigger] line_after(start, k) == 0,
        forall|j: nat, k: nat|
            j < 154 && k < 154 && #[trigger] line_after(start, j) == 0 && #[trigger] line_after(
                start,
                k,
            ) == 0 ==> j == k,
{
    let hit: nat = if start == 0 {
        0
    } else if start < 154 {
        (154 - start) as nat
    } else {
        (308 - start) as nat
    };
    if hit >= 1 {
        lemma_line_after(start, hit);
    }
    assert(hit < 154 && line_after(start, hit) == 0);
    assert forall|j: nat, k: nat|
        j < 154 && k < 154 && #[trigger] line_after(start, j) == 0 && #[trigger] line_after(
            start,
            k,
        ) == 0 implies j == k by {
        if j >= 1 {
            lemma_line_after(start, j);
        }
        if k >= 1 {
            lemma_line_after(start, k);
        }
    }
}

/// Of any 154 consecutive steps exactly one asks for the screen to be
/// presented: the one that finds the counter at 144. The window it asks
/// for is 160 by 144 pixels, at the left edge of the canvas, and begins at
/// the row that the vertical scroll register names at that step.
pub proof fn lemma_one_present_per_cycle(start: u8, scy: u8)
    ensures
        forall|line: u8| #[trigger] frame_action(line, scy) is Present <==> line == 144,
        frame_action(144, scy) == (FrameAction::Present {
            source: Viewport { x: 0, y: scy as i32, width: 160, height: 144 },
        }),
        exists|k: nat| k < 154 && #[trigger] line_after(start, k) == 144,
        forall|j: nat, k: nat|
            j < 154 && k < 154 && #[trigger] line_after(start, j) == 144 && #[trigger] line_after(
                start,
                k,
            ) == 144 ==> j == k,
{
    let hit: nat = if start <= 144 {
        (144 - start) as nat
    } else {
        (298 - start) as nat
    };
    if hit >= 1 {
        lemma_line_after(start, hit);
    }
    assert(hit < 154 && line_after(start, hit) == 144);
    assert forall|j: nat, k: nat|
        j < 154 && k < 154 && #[trigger] line_after(start, j) == 144 && #[trigger] line_after(
            start,
            k,
        ) == 144 implies j == k by {
        if j >= 1 {
            lemma_line_after(start, j);
        }
        if k >= 1 {
            lemma_line_after(start, k);
        }
    }
}

} // verus!
