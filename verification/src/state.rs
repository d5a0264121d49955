//! The shared rotation state: accumulated angles for the x and y axes.
//!
//! Angles are counted in tenths of a radian, the step one arrow key
//! produces, so accumulation is exact integer arithmetic. The z angle is not
//! independently controlled: it is the average of the other two, kept here
//! doubled (in twentieths of a radian) so that it stays integral.

use vstd::prelude::*;

verus! {

/// Accumulated rotation angles, in tenths of a radian.
#[derive(Clone, Copy, Debug, PartialEq, Eq, Structural)]
pub struct RotationState {
    pub x_tenths: i64,
    pub y_tenths: i64,
}

/// The sum of the x deltas of a batch of input events.
pub open spec fn delta_x_total(evs: Seq<(i32, i32)>) -> int
    decreases evs.len(),
{
    if evs.len() == 0 {
        0
    } else {
        delta_x_total(evs.drop_last()) + evs.last().0
    }
}

/// The sum of the y deltas of a batch of input events.
pub open spec fn delta_y_total(evs: Seq<(i32, i32)>) -> int
    decreases evs.len(),
{
    if evs.len() == 0 {
        0
    } else {
        delta_y_total(evs.drop_last()) + evs.last().1
    }
}

impl RotationState {
    /// The initial orientation: both accumulators at zero.
    pub fn new() -> (s: RotationState)
        ensures
            s.x_tenths == 0,
            s.y_tenths == 0,
    {
        RotationState { x_tenths: 0, y_tenths: 0 }
    }

    /// Apply one input event: each delta is added to its axis exactly, and
    /// an axis with a zero delta is left unchanged.
    pub fn apply_event(&mut self, dx: i32, dy: i32)
        requires
            i64::MIN <= old(self).x_tenths + dx <= i64::MAX,
            i64::MIN <= old(self).y_tenths + dy <= i64::MAX,
        ensures
            final(self).x_tenths == old(self).x_tenths + dx,
            final(self).y_tenths == old(self).y_tenths + dy,
    {
        self.x_tenths = self.x_tenths + dx as i64;
        self.y_tenths = self.y_tenths + dy as i64;
    }

    /// Drain a batch of pending input events into the accumulators, in
    /// arrival order. Draining an empty batch leaves the state unchanged.
    pub fn apply_events(&mut self, evs: &Vec<(i32, i32)>)
        requires
            forall|k: int|
                0 <= k <= evs@.len() ==> i64::MIN <= old(self).x_tenths + delta_x_total(
                    #[trigger] evs@.take(k),
                ) <= i64::MAX && i64::MIN <= old(self).y_tenths + delta_y_total(evs@.take(k))
                    <= i64::MAX,
        ensures
            final(self).x_tenths == old(self).x_tenths + delta_x_total(evs@),
            final(self).y_tenths == old(self).y_tenths + delta_y_total(evs@),
            evs@.len() == 0 ==> *final(self) == *old(self),
    {
        let mut i: usize = 0;
        while i < evs.len()
            invariant
                i <= evs@.len(),
                self.x_tenths == old(self).x_tenths + delta_x_total(evs@.take(i as int)),
                self.y_tenths == old(self).y_tenths + delta_y_total(evs@.take(i as int)),
                forall|k: int|
                    0 <= k <= evs@.len() ==> i64::MIN <= old(self).x_tenths + delta_x_total(
                        #[trigger] evs@.take(k),
                    ) <= i64::MAX && i64::MIN <= old(self).y_tenths + delta_y_total(evs@.take(k))
                        <= i64::MAX,
            decreases evs@.len() - i,
        {
            let (dx, dy) = evs[i];
            proof {
                assert(evs@.take(i as int + 1).drop_last() =~= evs@.take(i as int));
                assert(evs@.take(i as int + 1).last() == evs@[i as int]);
            }
            self.x_tenths = self.x_tenths + dx as i64;
            self.y_tenths = self.y_tenths + dy as i64;
            i = i + 1;
        }
        proof {
            assert(evs@.take(evs@.len() as int) =~= evs@);
            assert(evs@.take(0) =~= Seq::<(i32, i32)>::empty());
        }
    }

    /// The derived z angle, doubled: z is half the sum of the x and y
    /// angles, so in twentieths of a radian it is exactly their sum.
    pub fn z_twentieths(&self) -> (z: i64)
        requires
            i64::MIN <= self.x_tenths + self.y_tenths <= i64::MAX,
        ensures
            z == self.x_tenths + self.y_tenths,
    {
        self.x_tenths + self.y_tenths
    }
}

} // verus!
