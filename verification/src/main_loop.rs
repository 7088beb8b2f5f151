use vstd::prelude::*;
use vstd::arithmetic::div_mod::lemma_div_is_ordered_by_denominator;
use vstd::arithmetic::div_mod::lemma_fundamental_div_mod;
use vstd::arithmetic::div_mod::lemma_mod_bound;

verus! {

/// The number of nanoseconds in a second.
pub const NANOSECONDS_PER_SECOND: u64 = 1_000_000_000;

/// Turns the time that frames take into update steps of a fixed length. Time that
/// does not fill a step is kept for the next frame.
#[derive(Debug)]
pub struct FixedUpdater {
    step_duration: u64,
    non_evaluated_duration: u64,
}

impl FixedUpdater {
    #[verifier::type_invariant]
    pub closed spec fn inv(self) -> bool {
        0 < self.step_duration && self.non_evaluated_duration < self.step_duration
    }

    /// The length of one step, in nanoseconds.
    pub closed spec fn step_duration(self) -> u64 {
        self.step_duration
    }

    /// The time that no step has used yet, in nanoseconds.
    pub closed spec fn non_evaluated_duration(self) -> u64 {
        self.non_evaluated_duration
    }

    /// The kept time is shorter than a step.
    pub proof fn lemma_bounds(self)
        requires
            self.inv(),
        ensures
            0 < self.step_duration(),
            self.non_evaluated_duration() < self.step_duration(),
    {
    }

    /// The updater for the given number of steps in a second, with no time kept.
    pub fn new(steps_per_second: u32) -> (updater: FixedUpdater)
        requires
            0 < steps_per_second <= NANOSECONDS_PER_SECOND,
        ensures
            updater.step_duration() == NANOSECONDS_PER_SECOND / (steps_per_second as u64),
            updater.non_evaluated_duration() == 0,
    {
        proof {
            lemma_div_is_ordered_by_denominator(
                NANOSECONDS_PER_SECOND as int,
                steps_per_second as int,
                NANOSECONDS_PER_SECOND as int,
            );
        }
        FixedUpdater {
            step_duration: NANOSECONDS_PER_SECOND / (steps_per_second as u64),
            non_evaluated_duration: 0,
        }
    }

    /// Takes in the time that the last frame took and says how many steps are due:
    /// as many as fit in that time and the time kept before. What is left is kept.
    pub fn advance(&mut self, elapsed: u64) -> (steps: u64)
        ensures
            final(self).step_duration() == old(self).step_duration(),
            steps == (old(self).non_evaluated_duration() + elapsed) / (old(
                self,
            ).step_duration() as int),
            final(self).non_evaluated_duration() == (old(self).non_evaluated_duration() + elapsed)
                % (old(self).step_duration() as int),
    {
        proof {
            use_type_invariant(&*self);
        }
        let step = self.step_duration as u128;
        let total: u128 = self.non_evaluated_duration as u128 + elapsed as u128;
        proof {
            lemma_fundamental_div_mod(total as int, step as int);
            lemma_mod_bound(total as int, step as int);
            if step >= 2 {
                lemma_div_is_ordered_by_denominator(total as int, 2, step as int);
            }
        }
        let steps = total / step;
        let rest = total % step;
        self.non_evaluated_duration = rest as u64;
        steps as u64
    }
}

} // verus!
