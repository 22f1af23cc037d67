use vstd::prelude::*;

use crate::batch::Record;

verus! {

/// The capability interface of a behavior instance: one-time setup and
/// per-record consumption. An instance keeps a counter of the records it has
/// consumed; the business logic behind each capability is a placeholder.
pub trait QCAlgorithm: Sized {
    /// The number of records the instance has consumed so far.
    spec fn points(&self) -> u64;

    /// One-time setup. It owes the environment a readiness signal, which the
    /// unverified boundary layer emits; the record counter stays untouched.
    fn Initialize(&mut self)
        ensures
            final(self).points() == old(self).points(),
    ;

    /// Consumes one batch of records, one record at a time, in batch order.
    fn OnData(&mut self, data: &[Record])
        requires
            old(self).points() + data@.len() <= u64::MAX,
        ensures
            final(self).points() == old(self).points() + data@.len(),
    ;
}

/// The placeholder behavior: counts every record it is handed.
#[derive(Clone, Copy)]
pub struct BasicTemplateAlgorithm {
    points: u64,
}

impl BasicTemplateAlgorithm {
    /// A fresh instance that has consumed nothing.
    pub fn new() -> (r: Self)
        ensures
            r.points() == 0,
    {
        Self { points: 0 }
    }

    /// The record counter, readable across the boundary.
    pub fn points_value(&self) -> (r: u64)
        ensures
            r == self.points(),
    {
        self.points
    }
}

impl QCAlgorithm for BasicTemplateAlgorithm {
    closed spec fn points(&self) -> u64 {
        self.points
    }

    fn Initialize(&mut self) {
    }

    fn OnData(&mut self, data: &[Record]) {
        let mut idx: usize = 0;
        while idx < data.len()
            invariant
                idx <= data@.len(),
                self.points == old(self).points + idx,
                old(self).points + data@.len() <= u64::MAX,
            decreases data@.len() - idx,
        {
            self.points = self.points + 1;
            idx = idx + 1;
        }
    }
}

} // verus!
