//! The flash run: a fixed number of timed steps, each reported as progress.
use vstd::prelude::*;

verus! {

/// Writes images to drives.
pub struct FlashService;

impl FlashService {
    pub fn new() -> (r: FlashService)
        ensures
            r == FlashService,
    {
        FlashService
    }
}

/// The number of steps of a flash run.
pub const FLASH_STEPS: u32 = 100;

/// The progress of a flash run: how many of its steps have been taken.
pub struct FlashRun {
    taken: u32,
}

impl FlashRun {
    /// The steps taken so far.
    pub closed spec fn taken(&self) -> nat {
        self.taken as nat
    }

    /// Never more steps than the run has.
    #[verifier::type_invariant]
    spec fn never_past_the_end(&self) -> bool {
        self.taken <= FLASH_STEPS
    }

    /// A run with no step taken.
    pub fn new() -> (r: FlashRun)
        ensures
            r.taken() == 0,
    {
        FlashRun { taken: 0 }
    }

    /// Takes the next step and returns its number (0 for the first), or
    /// `None` once all steps are taken.
    pub fn next_step(&mut self) -> (r: Option<u32>)
        ensures
            old(self).taken() < FLASH_STEPS ==> r == Some(old(self).taken() as u32)
                && final(self).taken() == old(self).taken() + 1,
            old(self).taken() >= FLASH_STEPS ==> r is None && final(self).taken() == old(
                self,
            ).taken(),
    {
        proof {
            use_type_invariant(&*self);
        }
        if self.taken < FLASH_STEPS {
            let step = self.taken;
            self.taken = self.taken + 1;
            Some(step)
        } else {
            None
        }
    }

    /// Whether every step has been taken.
    pub fn is_finished(&self) -> (r: bool)
        ensures
            r == (self.taken() >= FLASH_STEPS),
    {
        proof {
            use_type_invariant(self);
        }
        self.taken == FLASH_STEPS
    }
}

} // verus!
