use vstd::prelude::*;

use crate::error::Error;

verus! {

/// A tank capacity together with a destination that lies beyond the reach of
/// one full tank. The fields can only be set through the constructors, which
/// reject trivial goals.
#[derive(Clone, Copy, Debug, PartialEq, Eq, Structural)]
pub struct GoalSpec {
    capacity: usize,
    destination: usize,
}

impl GoalSpec {
    /// Size of the fuel tank.
    pub closed spec fn capacity_spec(self) -> usize {
        self.capacity
    }

    /// Distance of the destination from the depot.
    pub closed spec fn destination_spec(self) -> usize {
        self.destination
    }

    #[verifier::type_invariant]
    spec fn beyond_one_tank(self) -> bool {
        self.destination > self.capacity
    }

    /// Builds a goal; the destination must lie beyond the reach of one tank.
    pub fn new(capacity: usize, destination: usize) -> (r: GoalSpec)
        requires
            destination > capacity,
        ensures
            r.capacity_spec() == capacity,
            r.destination_spec() == destination,
    {
        GoalSpec { capacity, destination }
    }

    /// Builds a goal, or reports `TrivialGoal` when one tank reaches the
    /// destination.
    pub fn try_new(capacity: usize, destination: usize) -> (r: Result<GoalSpec, Error>)
        ensures
            r is Ok <==> destination > capacity,
            r matches Ok(g) ==> g.capacity_spec() == capacity && g.destination_spec()
                == destination,
            r is Err ==> r == Err::<GoalSpec, Error>(Error::TrivialGoal),
    {
        if destination <= capacity {
            Err(Error::TrivialGoal)
        } else {
            Ok(GoalSpec::new(capacity, destination))
        }
    }

    pub fn capacity(&self) -> (r: usize)
        ensures
            r == self.capacity_spec(),
            r < self.destination_spec(),
    {
        proof {
            use_type_invariant(self);
        }
        self.capacity
    }

    pub fn destination(&self) -> (r: usize)
        ensures
            r == self.destination_spec(),
            r > self.capacity_spec(),
    {
        proof {
            use_type_invariant(self);
        }
        self.destination
    }
}

} // verus!
