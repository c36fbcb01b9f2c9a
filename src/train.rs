use std::collections::HashMap;

use vstd::prelude::*;

use crate::error::Error;
use crate::goal::GoalSpec;

verus! {

broadcast use vstd::std_specs::hash::group_hash_axioms;

/// An elementary instruction for the train.
#[derive(Clone, Copy, Debug, PartialEq, Eq, Structural)]
pub enum Command {
    /// Travel the given distance: forward when positive, backward when negative.
    Travel(isize),
    /// Leave the given amount of fuel at the current location.
    StowFuel(usize),
}

/// The mathematical state of a train: where it is, what is in its tank and
/// how much fuel waits at each location along the track.
pub struct TrainView {
    pub goal: GoalSpec,
    pub location: usize,
    pub fuel: usize,
    pub stashes: Map<usize, usize>,
}

impl TrainView {
    /// No fuel is ever cached at the depot.
    pub open spec fn wf(self) -> bool {
        !self.stashes.contains_key(0)
    }
}

/// The state at the depot with a full tank and no caches.
pub open spec fn initial(goal: GoalSpec) -> TrainView {
    TrainView { goal, location: 0, fuel: goal.capacity_spec(), stashes: Map::empty() }
}

pub open spec fn abs(d: int) -> int {
    if d < 0 {
        -d
    } else {
        d
    }
}

/// Moving `distance` along the track. The fuel burnt is the distance
/// travelled; on arrival a cache is picked up whole, or else the tank is
/// refilled at the depot.
pub open spec fn travel_spec(t: TrainView, distance: int) -> Result<TrainView, Error> {
    let target = t.location + distance;
    let remaining = t.fuel - abs(distance);
    if target < 0 {
        Err(Error::MovedBeyondDepot)
    } else if remaining < 0 {
        Err(Error::FuelExhausted)
    } else if target > usize::MAX {
        Err(Error::Overflow)
    } else if t.stashes.contains_key(target as usize) {
        let topped = remaining + t.stashes[target as usize];
        if topped > usize::MAX {
            Err(Error::Overflow)
        } else {
            Ok(
                TrainView {
                    goal: t.goal,
                    location: target as usize,
                    fuel: topped as usize,
                    stashes: t.stashes.remove(target as usize),
                },
            )
        }
    } else if target == 0 {
        Ok(
            TrainView {
                goal: t.goal,
                location: 0,
                fuel: t.goal.capacity_spec(),
                stashes: t.stashes,
            },
        )
    } else {
        Ok(
            TrainView {
                goal: t.goal,
                location: target as usize,
                fuel: remaining as usize,
                stashes: t.stashes,
            },
        )
    }
}

/// Fuel already cached at `location`, zero where there is none.
pub open spec fn held_at(t: TrainView, location: usize) -> int {
    if t.stashes.contains_key(location) {
        t.stashes[location] as int
    } else {
        0
    }
}

/// Moving `amount` of fuel from the tank into the cache at the current
/// location.
pub open spec fn stow_spec(t: TrainView, amount: int) -> Result<TrainView, Error> {
    let held = held_at(t, t.location);
    if t.location == 0 {
        Err(Error::StowAtDepot)
    } else if amount > t.fuel {
        Err(Error::InsufficientFuelToStow)
    } else if held + amount > usize::MAX {
        Err(Error::Overflow)
    } else {
        Ok(
            TrainView {
                goal: t.goal,
                location: t.location,
                fuel: (t.fuel - amount) as usize,
                stashes: t.stashes.insert(t.location, (held + amount) as usize),
            },
        )
    }
}

/// Applying one command.
pub open spec fn apply_spec(t: TrainView, command: Command) -> Result<TrainView, Error> {
    match command {
        Command::Travel(distance) => travel_spec(t, distance as int),
        Command::StowFuel(amount) => stow_spec(t, amount as int),
    }
}

/// Locomotive snapshot: location, fuel in the tank and fuel caches. Every
/// transition yields a new snapshot and leaves the old one as it was.
#[derive(Clone, Debug)]
pub struct Train {
    spec: GoalSpec,
    location: usize,
    fuel: usize,
    stashes: HashMap<usize, usize>,
}

impl View for Train {
    type V = TrainView;

    closed spec fn view(&self) -> TrainView {
        TrainView {
            goal: self.spec,
            location: self.location,
            fuel: self.fuel,
            stashes: self.stashes@,
        }
    }
}

/// The view of a transition's outcome.
pub open spec fn view_result(r: Result<Train, Error>) -> Result<TrainView, Error> {
    match r {
        Ok(t) => Ok(t@),
        Err(e) => Err(e),
    }
}

impl Train {
    /// A train at the depot with a full tank; the destination must lie beyond
    /// the reach of one tank.
    pub fn new(capacity: usize, destination: usize) -> (r: Train)
        requires
            destination > capacity,
        ensures
            r@ == initial(r@.goal),
            r@.goal.capacity_spec() == capacity,
            r@.goal.destination_spec() == destination,
    {
        Self::from(GoalSpec::new(capacity, destination))
    }

    /// A train at the depot with a full tank, for the given goal.
    pub fn from(spec: GoalSpec) -> (r: Train)
        ensures
            r@ == initial(spec),
    {
        Train { spec, location: 0, fuel: spec.capacity(), stashes: HashMap::new() }
    }

    /// An independent copy of this snapshot.
    pub fn snapshot(&self) -> (r: Train)
        ensures
            r@ == self@,
    {
        Train {
            spec: self.spec,
            location: self.location,
            fuel: self.fuel,
            stashes: self.stashes.clone(),
        }
    }

    /// Travels `distance` (backward when negative), burning one unit of fuel
    /// per unit of distance, then picks up the cache at the arrival point or
    /// refuels at the depot.
    pub fn travel(&self, distance: isize) -> (r: Result<Train, Error>)
        ensures
            view_result(r) == travel_spec(self@, distance as int),
            self@.wf() ==> (r matches Ok(t) ==> t@.wf()),
    {
        let location = self.location;
        let fuel = self.fuel;
        let cost: usize = if distance < 0 {
            (-(distance + 1)) as usize + 1
        } else {
            distance as usize
        };
        if distance < 0 && cost > location {
            return Err(Error::MovedBeyondDepot);
        }
        if cost > fuel {
            return Err(Error::FuelExhausted);
        }
        let target: usize = if distance < 0 {
            location - cost
        } else {
            if location > usize::MAX - cost {
                return Err(Error::Overflow);
            }
            location + cost
        };
        let remaining: usize = fuel - cost;
        match self.stowed_at(target) {
            Some(stashed) => {
                if stashed > usize::MAX - remaining {
                    return Err(Error::Overflow);
                }
                let mut stashes = self.stashes.clone();
                stashes.remove(&target);
                let r = Train {
                    spec: self.spec,
                    location: target,
                    fuel: remaining + stashed,
                    stashes,
                };
                proof {
                    assert(r@ == travel_spec(self@, distance as int)->Ok_0);
                }
                Ok(r)
            },
            None => {
                let fuel = if target == 0 {
                    self.spec.capacity()
                } else {
                    remaining
                };
                let r = Train {
                    spec: self.spec,
                    location: target,
                    fuel,
                    stashes: self.stashes.clone(),
                };
                Ok(r)
            },
        }
    }

    /// Leaves `amount` of fuel from the tank in the cache at the current
    /// location, adding to what is cached there already.
    pub fn stow_fuel(&self, amount: usize) -> (r: Result<Train, Error>)
        ensures
            view_result(r) == stow_spec(self@, amount as int),
            self@.wf() ==> (r matches Ok(t) ==> t@.wf()),
    {
        let location = self.location;
        if location == 0 {
            return Err(Error::StowAtDepot);
        }
        if amount > self.fuel {
            return Err(Error::InsufficientFuelToStow);
        }
        let held: usize = match self.stowed_at(location) {
            Some(held) => held,
            None => 0,
        };
        if held > usize::MAX - amount {
            return Err(Error::Overflow);
        }
        let mut stashes = self.stashes.clone();
        stashes.insert(location, held + amount);
        Ok(Train { spec: self.spec, location, fuel: self.fuel - amount, stashes })
    }

    /// Applies one command.
    pub fn update(&self, command: Command) -> (r: Result<Train, Error>)
        ensures
            view_result(r) == apply_spec(self@, command),
            self@.wf() ==> (r matches Ok(t) ==> t@.wf()),
    {
        match command {
            Command::Travel(distance) => self.travel(distance),
            Command::StowFuel(amount) => self.stow_fuel(amount),
        }
    }

    pub fn fuel(&self) -> (r: usize)
        ensures
            r == self@.fuel,
    {
        self.fuel
    }

    pub fn location(&self) -> (r: usize)
        ensures
            r == self@.location,
    {
        self.location
    }

    /// The goal this train was built for.
    pub fn goal(&self) -> (r: GoalSpec)
        ensures
            r == self@.goal,
    {
        self.spec
    }

    /// Fuel cached at `location`, if any.
    pub fn stowed_at(&self, location: usize) -> (r: Option<usize>)
        ensures
            r == (if self@.stashes.contains_key(location) {
                Some(self@.stashes[location])
            } else {
                None
            }),
    {
        match self.stashes.get(&location) {
            Some(v) => Some(*v),
            None => None,
        }
    }

    /// All fuel caches, keyed by location.
    pub fn stashes(&self) -> (r: &HashMap<usize, usize>)
        ensures
            r@ == self@.stashes,
    {
        &self.stashes
    }

    /// Whether the train stands exactly at the goal's destination.
    pub fn meets_goal(&self, goal: &GoalSpec) -> (r: bool)
        ensures
            r == (self@.location == goal.destination_spec()),
    {
        self.location == goal.destination()
    }
}

/// Travelling `distance` and then `-distance` brings the train back to the
/// location it started from (the fuel may differ, since the depot refuels
/// and caches are picked up on the way).
pub proof fn lemma_travel_there_and_back(t: TrainView, distance: int)
    requires
        travel_spec(t, distance) is Ok,
        travel_spec(travel_spec(t, distance)->Ok_0, -distance) is Ok,
    ensures
        travel_spec(travel_spec(t, distance)->Ok_0, -distance)->Ok_0.location == t.location,
{
}

/// Stowing `amount`, travelling `distance` away to a point that is neither
/// the depot nor a cache, and travelling back picks the cache up whole: the
/// tank then holds what it held before the stow, less the fuel burnt on the
/// two trips, plus what had been cached at that location before, and the
/// cache there is gone.
pub proof fn lemma_stow_then_pickup(t: TrainView, amount: usize, distance: int)
    requires
        stow_spec(t, amount as int) is Ok,
        distance != 0,
        0 < t.location + distance <= usize::MAX,
        !t.stashes.contains_key((t.location + distance) as usize),
        travel_spec(stow_spec(t, amount as int)->Ok_0, distance) is Ok,
        travel_spec(travel_spec(stow_spec(t, amount as int)->Ok_0, distance)->Ok_0, -distance) is Ok,
    ensures
        ({
            let back = travel_spec(
                travel_spec(stow_spec(t, amount as int)->Ok_0, distance)->Ok_0,
                -distance,
            )->Ok_0;
            &&& back.location == t.location
            &&& back.fuel == t.fuel - 2 * abs(distance) + held_at(t, t.location)
            &&& back.stashes == t.stashes.remove(t.location)
        }),
{
    let stowed = stow_spec(t, amount as int)->Ok_0;
    let away = travel_spec(stowed, distance)->Ok_0;
    let back = travel_spec(away, -distance)->Ok_0;
    assert(!stowed.stashes.contains_key((t.location + distance) as usize));
    assert(away.stashes == stowed.stashes);
    assert(back.stashes =~= t.stashes.remove(t.location));
}

} // verus!
