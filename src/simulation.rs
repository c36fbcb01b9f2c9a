use vstd::prelude::*;

use crate::error::Error;
use crate::goal::GoalSpec;
use crate::train::{abs, apply_spec, initial, Command, Train, TrainView};

verus! {

/// The most commands a simulation applies before it gives up.
pub const MAX_STEPS: usize = 20;

/// Decides the next command for a train that pursues a goal; `None` ends
/// the simulation without success.
pub trait Strategy {
    fn decide(&mut self, state: &Train, goal: &GoalSpec) -> Option<Command>;
}

/// A strategy that replays a fixed list of commands, one per decision.
pub struct CommandScript {
    commands: Vec<Command>,
    next: usize,
}

impl View for CommandScript {
    type V = Seq<Command>;

    /// The commands not handed out yet.
    closed spec fn view(&self) -> Seq<Command> {
        if self.next <= self.commands.len() {
            self.commands@.skip(self.next as int)
        } else {
            Seq::empty()
        }
    }
}

impl CommandScript {
    pub fn new(commands: Vec<Command>) -> (r: CommandScript)
        ensures
            r@ == commands@,
    {
        let r = CommandScript { commands, next: 0 };
        proof {
            assert(r.commands@.skip(0) =~= r.commands@);
        }
        r
    }

    /// Hands out the next command of the list, `None` once it is used up.
    pub fn next_command(&mut self) -> (r: Option<Command>)
        ensures
            old(self)@.len() == 0 ==> r is None && final(self)@ == old(self)@,
            old(self)@.len() > 0 ==> r == Some(old(self)@[0]) && final(self)@
                == old(self)@.drop_first(),
    {
        if self.next < self.commands.len() {
            let c = self.commands[self.next];
            proof {
                assert(self.commands@.skip(self.next + 1) =~= self.commands@.skip(
                    self.next as int,
                ).drop_first());
            }
            self.next = self.next + 1;
            Some(c)
        } else {
            None
        }
    }
}

impl Strategy for CommandScript {
    fn decide(&mut self, _state: &Train, _goal: &GoalSpec) -> Option<Command> {
        self.next_command()
    }
}

/// The views of a sequence of snapshots.
pub open spec fn views(s: Seq<Train>) -> Seq<TrainView> {
    s.map_values(|t: Train| t@)
}

/// The states passed through when the commands are applied in order from the
/// depot, starting with the initial state and stopping before the first
/// command that fails. It holds one state more than there are commands
/// exactly when every command succeeds.
pub open spec fn run(goal: GoalSpec, commands: Seq<Command>) -> Seq<TrainView>
    decreases commands.len(),
{
    if commands.len() == 0 {
        seq![initial(goal)]
    } else {
        let before = run(goal, commands.drop_last());
        if before.len() == commands.len() {
            match apply_spec(before.last(), commands.last()) {
                Ok(next) => before.push(next),
                Err(_) => before,
            }
        } else {
            before
        }
    }
}

/// Fuel burnt by one command.
pub open spec fn fuel_of(command: Command) -> int {
    match command {
        Command::Travel(distance) => abs(distance as int),
        Command::StowFuel(_) => 0,
    }
}

/// Total distance of the `Travel` commands; stowing burns nothing.
pub open spec fn fuel_sum(commands: Seq<Command>) -> int
    decreases commands.len(),
{
    if commands.len() == 0 {
        0
    } else {
        fuel_sum(commands.drop_last()) + fuel_of(commands.last())
    }
}

/// How a simulation that issued `commands` ends: with the error of a command
/// that failed, at the step cap, at the destination, or else because the
/// strategy stopped.
pub open spec fn verdict(goal: GoalSpec, commands: Seq<Command>) -> Result<(), Error> {
    let h = run(goal, commands);
    if h.len() == commands.len() {
        // The run stopped short of the last command, so that command failed
        // and the second arm cannot be taken.
        match apply_spec(h.last(), commands.last()) {
            Err(e) => Err(e),
            Ok(_) => Ok(()),
        }
    } else if commands.len() >= MAX_STEPS {
        Err(Error::IterationCapExceeded)
    } else if h.last().location == goal.destination_spec() {
        Ok(())
    } else {
        Err(Error::StrategyExhausted)
    }
}

pub struct SummaryView {
    pub goal: GoalSpec,
    pub final_state: TrainView,
    pub result: Result<(), Error>,
    pub commands: Seq<Command>,
    /// The states the driver looked at, in order, while it ran.
    pub recorded: Seq<TrainView>,
}

impl SummaryView {
    /// The state history rebuilt from the command trace.
    pub open spec fn history(self) -> Seq<TrainView> {
        run(self.goal, self.commands)
    }
}

/// The outcome of a simulation: goal, final state, result and the trace of
/// commands, from which the state history is rebuilt on demand.
pub struct SimulationSummary {
    goal: GoalSpec,
    final_state: Train,
    result: Result<(), Error>,
    commands: Vec<Command>,
    states: Option<Vec<Train>>,
    recorded: Ghost<Seq<TrainView>>,
}

impl View for SimulationSummary {
    type V = SummaryView;

    closed spec fn view(&self) -> SummaryView {
        SummaryView {
            goal: self.goal,
            final_state: self.final_state@,
            result: self.result,
            commands: self.commands@,
            recorded: self.recorded@,
        }
    }
}

/// Applies `commands` from the depot and collects the states passed through.
fn replay(goal: GoalSpec, commands: &Vec<Command>) -> (r: Vec<Train>)
    ensures
        views(r@) == run(goal, commands@),
{
    let mut out: Vec<Train> = Vec::new();
    let mut state = Train::from(goal);
    let mut stalled = false;
    let mut i: usize = 0;
    proof {
        assert(commands@.take(0) =~= Seq::<Command>::empty());
        assert(views(out@).push(state@) =~= run(goal, commands@.take(0)));
    }
    while i < commands.len()
        invariant
            i <= commands.len(),
            views(out@).push(state@) == run(goal, commands@.take(i as int)),
            stalled ==> run(goal, commands@.take(i as int)).len() <= i,
            !stalled ==> run(goal, commands@.take(i as int)).len() == i + 1,
        decreases commands.len() - i,
    {
        let ghost before = run(goal, commands@.take(i as int));
        proof {
            assert(commands@.take(i + 1).drop_last() =~= commands@.take(i as int));
            assert(commands@.take(i + 1).last() == commands@[i as int]);
        }
        if !stalled {
            match state.update(commands[i]) {
                Ok(next) => {
                    let ghost prev = out@;
                    out.push(state);
                    state = next;
                    proof {
                        assert(views(out@) =~= views(prev).push(before.last()));
                        assert(views(out@).push(state@) =~= before.push(state@));
                    }
                },
                Err(_) => {
                    stalled = true;
                },
            }
        }
        i = i + 1;
    }
    proof {
        assert(commands@.take(i as int) =~= commands@);
    }
    let ghost prev = out@;
    out.push(state);
    proof {
        assert(views(out@) =~= views(prev).push(state@));
    }
    out
}

impl SimulationSummary {
    /// The summary's own invariant: a bounded trace, and a cached history
    /// that is the replay of that trace.
    pub closed spec fn wf(&self) -> bool {
        &&& self.commands@.len() <= MAX_STEPS
        &&& self.states matches Some(v) ==> views(v@) == run(self.goal, self.commands@)
    }

    fn new(
        goal: GoalSpec,
        final_state: Train,
        result: Result<(), Error>,
        commands: Vec<Command>,
        recorded: Ghost<Seq<TrainView>>,
    ) -> (r: SimulationSummary)
        requires
            commands@.len() <= MAX_STEPS,
        ensures
            r.wf(),
            r@ == (SummaryView {
                goal,
                final_state: final_state@,
                result,
                commands: commands@,
                recorded: recorded@,
            }),
    {
        SimulationSummary { goal, final_state, result, commands, states: None, recorded }
    }

    pub fn goal(&self) -> (r: &GoalSpec)
        ensures
            *r == self@.goal,
    {
        &self.goal
    }

    /// The state history: the initial state, then the state after each
    /// command of the trace that succeeded. It is rebuilt from the trace on
    /// the first call and kept for later ones.
    pub fn states(&mut self) -> (r: &[Train])
        requires
            old(self).wf(),
        ensures
            final(self).wf(),
            final(self)@ == old(self)@,
            views(r@) == old(self)@.history(),
    {
        if self.states.is_none() {
            self.states = Some(replay(self.goal, &self.commands));
        }
        match &self.states {
            Some(v) => v.as_slice(),
            None => &[],
        }
    }

    pub fn final_state(&self) -> (r: &Train)
        ensures
            r@ == self@.final_state,
    {
        &self.final_state
    }

    pub fn result(&self) -> (r: &Result<(), Error>)
        ensures
            *r == self@.result,
    {
        &self.result
    }

    pub fn commands(&self) -> (r: &[Command])
        ensures
            r@ == self@.commands,
    {
        self.commands.as_slice()
    }

    /// Total distance travelled over the trace.
    pub fn fuel_used(&self) -> (r: u128)
        requires
            self.wf(),
        ensures
            r == fuel_sum(self@.commands),
    {
        let mut sum: u128 = 0;
        let mut i: usize = 0;
        while i < self.commands.len()
            invariant
                i <= self.commands@.len() <= MAX_STEPS,
                sum == fuel_sum(self.commands@.take(i as int)),
                sum <= i * 0x8000_0000_0000_0000,
            decreases self.commands.len() - i,
        {
            proof {
                assert(self.commands@.take(i + 1).drop_last() =~= self.commands@.take(i as int));
            }
            let burnt: u128 = match self.commands[i] {
                Command::Travel(distance) => if distance < 0 {
                    (-(distance + 1)) as u128 + 1
                } else {
                    distance as u128
                },
                Command::StowFuel(_) => 0,
            };
            sum = sum + burnt;
            i = i + 1;
        }
        proof {
            assert(self.commands@.take(i as int) =~= self.commands@);
        }
        sum
    }
}

/// Runs a train toward `goal`, asking `strategy` for one command per step.
/// The run ends as soon as the train stands at the destination, a command
/// fails, the strategy stops, or `MAX_STEPS` commands have been applied.
pub fn simulate<S: Strategy>(goal: GoalSpec, strategy: S) -> (r: SimulationSummary)
    ensures
        r.wf(),
        r@.goal == goal,
        r@.commands.len() <= MAX_STEPS,
        r@.final_state == r@.history().last(),
        r@.result == verdict(goal, r@.commands),
        forall|i: int|
            0 <= i < r@.commands.len() && i < r@.history().len() ==> #[trigger] r@.history()[i].location
                != goal.destination_spec(),
        r@.result != Err::<(), Error>(Error::IterationCapExceeded) ==> r@.recorded == r@.history(),
        r@.result == Err::<(), Error>(Error::IterationCapExceeded) ==> r@.recorded == r@.history().take(
            MAX_STEPS as int,
        ),
{
    let mut strategy = strategy;
    let mut state = Train::from(goal);
    let mut commands: Vec<Command> = Vec::new();
    let mut states: Vec<Train> = Vec::new();
    let mut round: usize = 0;
    proof {
        assert(views(states@) =~= run(goal, commands@).take(0));
    }
    while round < MAX_STEPS
        invariant
            commands@.len() == round <= MAX_STEPS,
            run(goal, commands@).len() == round + 1,
            run(goal, commands@).last() == state@,
            views(states@) == run(goal, commands@).take(round as int),
            forall|i: int|
                0 <= i < round ==> #[trigger] run(goal, commands@)[i].location
                    != goal.destination_spec(),
        decreases MAX_STEPS - round,
    {
        let ghost h = run(goal, commands@);
        let ghost prev = states@;
        states.push(state.snapshot());
        proof {
            assert(views(states@) =~= views(prev).push(state@));
            assert(views(states@) =~= h);
        }
        if state.meets_goal(&goal) {
            let mut summary = SimulationSummary::new(
                goal,
                state,
                Ok(()),
                commands,
                Ghost(views(states@)),
            );
            summary.states = Some(states);
            return summary;
        }
        match strategy.decide(&state, &goal) {
            Some(command) => {
                let ghost before = commands@;
                commands.push(command);
                proof {
                    assert(commands@.drop_last() =~= before);
                }
                match state.update(command) {
                    Ok(next) => {
                        state = next;
                        proof {
                            assert(views(states@) =~= run(goal, commands@).take(round + 1));
                        }
                    },
                    Err(e) => {
                        return SimulationSummary::new(
                            goal,
                            state,
                            Err(e),
                            commands,
                            Ghost(views(states@)),
                        );
                    },
                }
            },
            None => {
                return SimulationSummary::new(
                    goal,
                    state,
                    Err(Error::StrategyExhausted),
                    commands,
                    Ghost(views(states@)),
                );
            },
        }
        round = round + 1;
    }
    SimulationSummary::new(
        goal,
        state,
        Err(Error::IterationCapExceeded),
        commands,
        Ghost(views(states@)),
    )
}

/// The fuel burnt by a trace does not depend on its `StowFuel` commands:
/// inserting one anywhere leaves the total unchanged.
pub proof fn lemma_fuel_sum_ignores_stow(commands: Seq<Command>, i: int, amount: usize)
    requires
        0 <= i <= commands.len(),
    ensures
        fuel_sum(commands.insert(i, Command::StowFuel(amount))) == fuel_sum(commands),
    decreases commands.len(),
{
    let stow = Command::StowFuel(amount);
    let longer = commands.insert(i, stow);
    if i == commands.len() {
        assert(longer.drop_last() =~= commands);
    } else {
        assert(longer.drop_last() =~= commands.drop_last().insert(i, stow));
        assert(longer.last() == commands.last());
        lemma_fuel_sum_ignores_stow(commands.drop_last(), i, amount);
    }
}

/// Every state reached from the depot is well formed: no fuel is ever cached
/// at the depot.
pub proof fn lemma_reachable_states_wf(goal: GoalSpec, commands: Seq<Command>)
    ensures
        forall|i: int| 0 <= i < run(goal, commands).len() ==> #[trigger] run(goal, commands)[i].wf(),
    decreases commands.len(),
{
    if commands.len() > 0 {
        lemma_reachable_states_wf(goal, commands.drop_last());
        let before = run(goal, commands.drop_last());
        if before.len() == commands.len() {
            lemma_apply_keeps_wf(before.last(), commands.last());
        }
    }
}

proof fn lemma_apply_keeps_wf(t: TrainView, command: Command)
    requires
        t.wf(),
    ensures
        apply_spec(t, command) matches Ok(next) ==> next.wf(),
{
}

} // verus!
