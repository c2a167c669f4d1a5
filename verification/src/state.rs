//! How far a conversion has come: a counter over the clusters.

use vstd::prelude::*;

verus! {

/// A count of clusters, and how many of them have been taken.
pub struct StateModel {
    pub counter: nat,
    pub total: nat,
}

impl StateModel {
    /// No more clusters are taken than there are.
    pub open spec fn well_formed(self) -> bool {
        self.counter <= self.total
    }

    /// Whether every cluster has been taken.
    pub open spec fn done(self) -> bool {
        self.counter >= self.total
    }

    /// The state once one more cluster is taken, if one is left.
    pub open spec fn advanced(self) -> StateModel {
        if self.done() {
            self
        } else {
            StateModel { counter: self.counter + 1, total: self.total }
        }
    }

    /// The share of the clusters that have been taken, in percent, rounded
    /// down. Where there is no cluster at all, the work is done and the
    /// share is 100.
    pub open spec fn percent(self) -> nat {
        if self.total == 0 {
            100
        } else {
            100 * self.counter / self.total
        }
    }
}

/// The counter of a conversion. It starts at 0 and goes up, one cluster at a
/// time, to the number of clusters.
pub struct ConversionState {
    counter: usize,
    total: usize,
}

impl View for ConversionState {
    type V = StateModel;

    closed spec fn view(&self) -> StateModel {
        StateModel { counter: self.counter as nat, total: self.total as nat }
    }
}

impl ConversionState {
    #[verifier::type_invariant]
    spec fn inv(self) -> bool {
        self.counter <= self.total
    }

    /// The state before any of `total` clusters is taken.
    pub fn new(total: usize) -> (state: ConversionState)
        ensures
            state@ == (StateModel { counter: 0, total: total as nat }),
    {
        ConversionState { counter: 0, total }
    }

    /// The number of clusters that have been taken. It is also the index of
    /// the cluster at hand, while there is one.
    pub fn counter(&self) -> (counter: usize)
        ensures
            counter == self@.counter,
            self@.well_formed(),
    {
        proof {
            use_type_invariant(self);
        }
        self.counter
    }

    /// The number of clusters.
    pub fn total(&self) -> (total: usize)
        ensures
            total == self@.total,
            self@.well_formed(),
    {
        proof {
            use_type_invariant(self);
        }
        self.total
    }

    /// Whether every cluster has been taken.
    pub fn done(&self) -> (done: bool)
        ensures
            done == self@.done(),
    {
        self.counter >= self.total
    }

    /// Takes one cluster, if one is left, and says whether that was the last:
    /// whether the conversion is done now.
    pub fn advance(&mut self) -> (done: bool)
        ensures
            final(self)@ == old(self)@.advanced(),
            done == final(self)@.done(),
        no_unwind
    {
        proof {
            use_type_invariant(&*self);
        }
        if self.counter < self.total {
            self.counter += 1;
        }
        self.counter >= self.total
    }

    /// See [`StateModel::percent`].
    pub fn progress(&self) -> (percent: u32)
        ensures
            percent == self@.percent(),
            percent <= 100,
    {
        proof {
            use_type_invariant(self);
        }
        if self.total == 0 {
            100
        } else {
            let taken: u128 = self.counter as u128;
            let all: u128 = self.total as u128;
            assert(100 * taken / (all as int) <= 100) by (nonlinear_arith)
                requires
                    taken <= all,
                    all > 0,
            ;
            ((100 * taken) / all) as u32
        }
    }
}

} // verus!
