//! The smoothed controller: a speed curve followed by a trimmed moving
//! average over the most recent raw duties.

use crate::curve::{duty_at, duty_for};
use crate::fan_config::Strategy;
use crate::smoothing::{smoothed_duty, trimmed_mean_duty};
use std::collections::VecDeque;
use vstd::prelude::*;

verus! {

/// The most entries for which a new controller sets room aside; a longer
/// history grows as it fills.
pub const RESERVED_AT_MOST: u32 = 1024;

/// The history after a raw duty has been appended under a window of
/// `window` entries: when the appended history is longer than the window,
/// its oldest entry leaves.
pub open spec fn appended(history: Seq<i32>, raw: i32, window: nat) -> Seq<i32> {
    let longer = history.push(raw);
    if longer.len() > window {
        longer.drop_first()
    } else {
        longer
    }
}

/// A history that fits its window still fits it after a raw duty was
/// appended, and the appended duty is its newest entry unless the window is
/// empty.
pub proof fn lemma_appended_fits(history: Seq<i32>, raw: i32, window: nat)
    requires
        history.len() <= window,
    ensures
        appended(history, raw, window).len() <= window,
        window > 0 ==> appended(history, raw, window).last() == raw,
        window > 0 ==> appended(history, raw, window).len() >= 1,
{
}

/// Appending keeps the order of arrival: what is remembered afterwards is
/// the end of the old history followed by the new raw duty.
pub proof fn lemma_appended_is_fifo(history: Seq<i32>, raw: i32, window: nat)
    ensures
        ({
            let longer = history.push(raw);
            let after = appended(history, raw, window);
            let dropped = longer.len() - after.len();
            &&& 0 <= dropped <= 1
            &&& after == longer.subrange(dropped, longer.len() as int)
        }),
{
    let longer = history.push(raw);
    if longer.len() > window {
        assert(longer.drop_first() =~= longer.subrange(1, longer.len() as int));
    } else {
        assert(longer =~= longer.subrange(0, longer.len() as int));
    }
}

/// Turns temperature readings into duties, remembering recent raw duties.
pub struct FanController {
    buffer: VecDeque<i32>,
}

impl View for FanController {
    type V = Seq<i32>;

    /// The remembered raw duties, oldest first.
    closed spec fn view(&self) -> Seq<i32> {
        self.buffer@
    }
}

impl FanController {
    /// A controller with an empty history. Room for the strategy's window is
    /// set aside at once, up to `RESERVED_AT_MOST` entries.
    pub fn new(strategy: &Strategy) -> (controller: Self)
        ensures
            controller@ == Seq::<i32>::empty(),
    {
        let room: u32 = if strategy.moving_average_interval <= RESERVED_AT_MOST {
            strategy.moving_average_interval
        } else {
            RESERVED_AT_MOST
        };
        FanController { buffer: VecDeque::with_capacity(room as usize) }
    }

    /// Forgets all remembered raw duties.
    pub fn reset(&mut self)
        ensures
            final(self)@ == Seq::<i32>::empty(),
    {
        self.buffer.clear();
    }

    /// Number of remembered raw duties.
    pub fn len(&self) -> (n: usize)
        ensures
            n == self@.len(),
    {
        self.buffer.len()
    }

    /// Feeds one temperature reading and returns the duty to command, in
    /// whole percent.
    ///
    /// The raw duty of the reading on the strategy's curve joins the history,
    /// the oldest entry leaves if the history outgrew the strategy's window,
    /// and the result is the trimmed mean of what is then remembered.
    pub fn update(&mut self, temperature: i32, strategy: &Strategy) -> (duty: u8)
        ensures
            final(self)@ == appended(
                old(self)@,
                duty_at(strategy@.curve, temperature as int) as i32,
                strategy@.window,
            ),
            duty == smoothed_duty(final(self)@),
            duty <= 100,
    {
        let raw = duty_for(temperature, strategy.speed_curve.as_slice());
        self.buffer.push_back(raw);
        if self.buffer.len() > strategy.moving_average_interval as usize {
            self.buffer.pop_front();
        }
        let mut values: Vec<i32> = Vec::new();
        let mut i: usize = 0;
        while i < self.buffer.len()
            invariant
                i <= self.buffer@.len(),
                values@ == self.buffer@.take(i as int),
            decreases self.buffer@.len() - i,
        {
            values.push(self.buffer[i]);
            proof {
                assert(self.buffer@.take(i + 1) =~= self.buffer@.take(i as int).push(
                    self.buffer@[i as int],
                ));
            }
            i += 1;
        }
        proof {
            assert(self.buffer@.take(self.buffer@.len() as int) =~= self.buffer@);
        }
        trimmed_mean_duty(&values)
    }
}

} // verus!
