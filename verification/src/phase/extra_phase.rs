//! Phases that are added to a turn.

use vstd::prelude::*;
use crate::game::PhaseType;

verus! {

/// A phase that is added to a turn, with the triggers that wait for it.
#[derive(Debug, Clone)]
pub struct ExtraPhase<T> {
    phase: PhaseType,
    delayed_triggers: Vec<T>,
}

impl<T> ExtraPhase<T> {
    pub closed spec fn phase_type(&self) -> PhaseType {
        self.phase
    }

    pub closed spec fn triggers(&self) -> Seq<T> {
        self.delayed_triggers@
    }

    pub fn new(phase: PhaseType) -> (r: Self)
        ensures
            r.phase_type() == phase,
            r.triggers() == Seq::<T>::empty(),
    {
        ExtraPhase { phase, delayed_triggers: Vec::new() }
    }

    pub fn get_phase(&self) -> (r: PhaseType)
        ensures
            r == self.phase_type(),
    {
        self.phase
    }

    pub fn add_trigger(&mut self, del_trigger: T)
        ensures
            final(self).phase_type() == old(self).phase_type(),
            final(self).triggers() == old(self).triggers().push(del_trigger),
    {
        self.delayed_triggers.push(del_trigger);
    }

    pub fn get_delayed_triggers(&self) -> (r: &Vec<T>)
        ensures
            r@ == self.triggers(),
    {
        &self.delayed_triggers
    }
}

} // verus!
