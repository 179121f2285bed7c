//! One track of the sequencer: a named, fixed-order run of on/off steps bound
//! to a sample name. Velocities are in thousandths of full scale, so 1000
//! stands for a full-strength hit.

use vstd::prelude::*;

verus! {

/// Full scale for velocities and volumes, in thousandths.
pub const UNIT_MILLI: u16 = 1000;

/// One schedulable step: whether it fires, and how hard, in thousandths of
/// full scale (0..=1000).
#[derive(Debug, Clone, Copy, PartialEq, Eq, Structural)]
pub struct Step {
    pub active: bool,
    pub velocity: u16,
}

impl Step {
    /// An inactive step at full velocity.
    pub fn new() -> (r: Self)
        ensures
            r == (Step { active: false, velocity: UNIT_MILLI }),
    {
        Step { active: false, velocity: UNIT_MILLI }
    }

    /// An active step, its velocity clamped to full scale.
    pub fn with_velocity(velocity: u16) -> (r: Self)
        ensures
            r.active,
            r.velocity == if velocity <= UNIT_MILLI {
                velocity as int
            } else {
                UNIT_MILLI as int
            },
    {
        let v = if velocity <= UNIT_MILLI {
            velocity
        } else {
            UNIT_MILLI
        };
        Step { active: true, velocity: v }
    }
}

/// A named step sequence playing one sample. The number of steps is the
/// pattern's loop length.
#[derive(Debug)]
pub struct Pattern {
    pub name: String,
    pub steps: Vec<Step>,
    pub sample_name: String,
}

impl Pattern {
    /// A pattern of `num_steps` inactive steps.
    pub fn new(name: String, sample_name: String, num_steps: usize) -> (r: Pattern)
        ensures
            r.name@ == name@,
            r.sample_name@ == sample_name@,
            r.steps@.len() == num_steps,
            forall|i: int|
                0 <= i < num_steps ==> r.steps@[i] == (Step {
                    active: false,
                    velocity: UNIT_MILLI,
                }),
    {
        let mut steps: Vec<Step> = Vec::new();
        let mut i: usize = 0;
        while i < num_steps
            invariant
                i <= num_steps,
                steps@.len() == i,
                forall|j: int|
                    0 <= j < i ==> steps@[j] == (Step { active: false, velocity: UNIT_MILLI }),
            decreases num_steps - i,
        {
            steps.push(Step::new());
            i = i + 1;
        }
        Pattern { name, steps, sample_name }
    }

    /// Replaces the step at `step_index`; out-of-range indices are ignored.
    pub fn set_step(&mut self, step_index: usize, step: Step)
        ensures
            final(self).name == old(self).name,
            final(self).sample_name == old(self).sample_name,
            final(self).steps@ == if step_index < old(self).steps@.len() {
                old(self).steps@.update(step_index as int, step)
            } else {
                old(self).steps@
            },
    {
        if step_index < self.steps.len() {
            self.steps.set(step_index, step);
        }
    }

    /// Flips the on/off state of the step at `step_index`, keeping its
    /// velocity; out-of-range indices are ignored.
    pub fn toggle_step(&mut self, step_index: usize)
        ensures
            final(self).name == old(self).name,
            final(self).sample_name == old(self).sample_name,
            final(self).steps@ == if step_index < old(self).steps@.len() {
                old(self).steps@.update(
                    step_index as int,
                    Step {
                        active: !old(self).steps@[step_index as int].active,
                        velocity: old(self).steps@[step_index as int].velocity,
                    },
                )
            } else {
                old(self).steps@
            },
    {
        if step_index < self.steps.len() {
            let cur = self.steps[step_index];
            self.steps.set(step_index, Step { active: !cur.active, velocity: cur.velocity });
        }
    }

    /// Turns every step off, keeping the velocities.
    pub fn clear(&mut self)
        ensures
            final(self).name == old(self).name,
            final(self).sample_name == old(self).sample_name,
            final(self).steps@.len() == old(self).steps@.len(),
            forall|i: int|
                0 <= i < old(self).steps@.len() ==> final(self).steps@[i] == (Step {
                    active: false,
                    velocity: old(self).steps@[i].velocity,
                }),
    {
        let mut i: usize = 0;
        while i < self.steps.len()
            invariant
                i <= self.steps@.len(),
                self.name == old(self).name,
                self.sample_name == old(self).sample_name,
                self.steps@.len() == old(self).steps@.len(),
                forall|j: int|
                    0 <= j < i ==> self.steps@[j] == (Step {
                        active: false,
                        velocity: old(self).steps@[j].velocity,
                    }),
                forall|j: int| i <= j < self.steps@.len() ==> self.steps@[j] == old(self).steps@[j],
            decreases self.steps@.len() - i,
    {
            let cur = self.steps[i];
            self.steps.set(i, Step { active: false, velocity: cur.velocity });
            i = i + 1;
        }
    }

    /// The pattern's loop length.
    pub fn length(&self) -> (r: usize)
        ensures
            r == self.steps@.len(),
    {
        self.steps.len()
    }

    /// Grows the pattern with inactive steps or truncates it, preserving the
    /// steps below the smaller length.
    pub fn resize(&mut self, new_length: usize)
        ensures
            final(self).name == old(self).name,
            final(self).sample_name == old(self).sample_name,
            final(self).steps@.len() == new_length,
            forall|i: int|
                0 <= i < new_length && i < old(self).steps@.len() ==> final(self).steps@[i] == old(
                    self,
                ).steps@[i],
            forall|i: int|
                old(self).steps@.len() <= i < new_length ==> final(self).steps@[i] == (Step {
                    active: false,
                    velocity: UNIT_MILLI,
                }),
    {
        if new_length < self.steps.len() {
            self.steps.truncate(new_length);
            proof {
                assert(self.steps@ =~= old(self).steps@.take(new_length as int));
            }
        } else {
            while self.steps.len() < new_length
                invariant
                    old(self).steps@.len() <= self.steps@.len() <= new_length,
                    self.name == old(self).name,
                    self.sample_name == old(self).sample_name,
                    forall|j: int|
                        0 <= j < old(self).steps@.len() ==> self.steps@[j] == old(self).steps@[j],
                    forall|j: int|
                        old(self).steps@.len() <= j < self.steps@.len() ==> self.steps@[j] == (Step {
                            active: false,
                            velocity: UNIT_MILLI,
                        }),
                decreases new_length - self.steps@.len(),
            {
                self.steps.push(Step::new());
            }
        }
    }
}

impl Clone for Pattern {
    /// A deep copy: same name, same sample binding, same steps.
    fn clone(&self) -> (r: Self)
        ensures
            r.name == self.name,
            r.sample_name == self.sample_name,
            r.steps@ == self.steps@,
    {
        let mut steps: Vec<Step> = Vec::new();
        let mut i: usize = 0;
        while i < self.steps.len()
            invariant
                i <= self.steps@.len(),
                steps@ == self.steps@.take(i as int),
            decreases self.steps@.len() - i,
        {
            steps.push(self.steps[i]);
            proof {
                assert(steps@ =~= self.steps@.take(i as int + 1));
            }
            i = i + 1;
        }
        proof {
            assert(self.steps@.take(self.steps@.len() as int) =~= self.steps@);
        }
        Pattern { name: self.name.clone(), steps, sample_name: self.sample_name.clone() }
    }
}

} // verus!
