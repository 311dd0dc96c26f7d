use vstd::prelude::*;
use std::time::Instant;

verus! {

#[verifier::external_type_specification]
#[verifier::external_body]
pub struct ExInstant(Instant);

/// Relies on std::time::Instant::now: the current instant. Nothing is
/// promised about its value.
#[verifier::external_body]
fn instant_now() -> (r: Instant) {
    Instant::now()
}

/// The span over which a key has been held: `start` is when the pending
/// span began, `end` when the key was let go.
#[derive(Debug)]
pub struct PressRecord {
    pub pressing: bool,
    pub start: Instant,
    pub end: Instant,
}

impl PressRecord {
    pub fn new() -> (r: PressRecord)
        ensures
            !r.pressing,
            r.start == r.end,
    {
        let now = instant_now();
        PressRecord { pressing: false, start: now, end: now }
    }

    /// The key went down at `now`: a new span starts then, unless one is
    /// running.
    pub fn press_at(&mut self, now: Instant)
        ensures
            old(self).pressing ==> *final(self) == *old(self),
            !old(self).pressing ==> final(self).pressing && final(self).start == now
                && final(self).end == now,
    {
        if self.pressing {
            return;
        }
        self.pressing = true;
        self.start = now;
        self.end = now;
    }

    /// The key went up at `now`: the running span ends then; the start stays.
    pub fn release_at(&mut self, now: Instant)
        ensures
            !old(self).pressing ==> *final(self) == *old(self),
            old(self).pressing ==> !final(self).pressing && final(self).start == old(self).start
                && final(self).end == now,
    {
        if !self.pressing {
            return;
        }
        self.pressing = false;
        self.end = now;
    }

    /// The key went down: a new span starts now, unless one is running.
    pub fn press(&mut self)
        ensures
            old(self).pressing ==> *final(self) == *old(self),
            !old(self).pressing ==> final(self).pressing && final(self).start
                == final(self).end,
    {
        let now = instant_now();
        self.press_at(now);
    }

    /// The key went up: the running span ends now; the start stays.
    pub fn release(&mut self)
        ensures
            !old(self).pressing ==> *final(self) == *old(self),
            old(self).pressing ==> !final(self).pressing && final(self).start
                == old(self).start,
    {
        let now = instant_now();
        self.release_at(now);
    }
}

impl Default for PressRecord {
    fn default() -> (r: PressRecord)
        ensures
            !r.pressing,
            r.start == r.end,
    {
        PressRecord::new()
    }
}

} // verus!
