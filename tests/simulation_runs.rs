use steam_train_fuel::{simulate, Command, CommandScript, Error, GoalSpec, Strategy, Train};

fn script() -> Vec<Command> {
    vec![
        Command::Travel(200),
        Command::StowFuel(100),
        Command::Travel(-200),
        Command::Travel(200),
        Command::Travel(400),
    ]
}

struct GiveUp;

impl Strategy for GiveUp {
    fn decide(&mut self, _state: &Train, _goal: &GoalSpec) -> Option<Command> {
        None
    }
}

struct Shuttle;

impl Strategy for Shuttle {
    fn decide(&mut self, state: &Train, _goal: &GoalSpec) -> Option<Command> {
        if state.location() == 0 {
            Some(Command::Travel(10))
        } else {
            Some(Command::Travel(-10))
        }
    }
}

#[test]
fn scripted_run_reaches_600() {
    let goal = GoalSpec::new(500, 600);
    let cmds = script();
    let mut summary = simulate(goal, CommandScript::new(cmds.clone()));
    assert!(summary.result().is_ok());
    assert_eq!(summary.fuel_used(), 1_000);
    assert_eq!(summary.commands(), &cmds[..]);
    assert_eq!(summary.final_state().location(), 600);
    assert_eq!(summary.final_state().fuel(), 0);
    assert_eq!(*summary.goal(), goal);
    let states = summary.states();
    assert_eq!(states.len(), 6);
    let locations: Vec<usize> = states.iter().map(|t| t.location()).collect();
    assert_eq!(locations, vec![0, 200, 200, 0, 200, 600]);
    let fuels: Vec<usize> = states.iter().map(|t| t.fuel()).collect();
    assert_eq!(fuels, vec![500, 300, 200, 500, 400, 0]);
}

#[test]
fn scripted_run_toward_800_falls_short() {
    let goal = GoalSpec::new(500, 800);
    let mut summary = simulate(goal, CommandScript::new(script()));
    assert_eq!(*summary.result(), Err(Error::StrategyExhausted));
    assert_eq!(summary.commands().len(), 5);
    assert_eq!(summary.final_state().location(), 600);
    assert_eq!(summary.final_state().fuel(), 0);
    assert_eq!(summary.fuel_used(), 1_000);
    let locations: Vec<usize> = summary.states().iter().map(|t| t.location()).collect();
    assert_eq!(locations, vec![0, 200, 200, 0, 200, 600]);
}

#[test]
fn strategy_that_gives_up_at_once() {
    let goal = GoalSpec::new(500, 600);
    let mut summary = simulate(goal, GiveUp);
    assert_eq!(*summary.result(), Err(Error::StrategyExhausted));
    assert_eq!(summary.commands().len(), 0);
    assert_eq!(summary.fuel_used(), 0);
    assert_eq!(summary.final_state().location(), 0);
    assert_eq!(summary.states().len(), 1);
}

#[test]
fn empty_script_is_exhausted() {
    let summary = simulate(GoalSpec::new(500, 600), CommandScript::new(vec![]));
    assert_eq!(*summary.result(), Err(Error::StrategyExhausted));
    assert!(summary.commands().is_empty());
}

#[test]
fn endless_strategy_hits_step_cap() {
    let goal = GoalSpec::new(500, 600);
    let mut summary = simulate(goal, Shuttle);
    assert_eq!(*summary.result(), Err(Error::IterationCapExceeded));
    assert_eq!(summary.commands().len(), 20);
    assert_eq!(summary.fuel_used(), 200);
    assert_eq!(summary.states().len(), 21);
    assert_eq!(summary.final_state().location(), 0);
}

#[test]
fn failing_command_ends_run_with_its_error() {
    let goal = GoalSpec::new(500, 600);
    let cmds = vec![Command::Travel(100), Command::StowFuel(50), Command::Travel(-101)];
    let mut summary = simulate(goal, CommandScript::new(cmds));
    assert_eq!(*summary.result(), Err(Error::MovedBeyondDepot));
    assert_eq!(summary.commands().len(), 3);
    assert_eq!(summary.final_state().location(), 100);
    assert_eq!(summary.final_state().fuel(), 350);
    assert_eq!(summary.final_state().stowed_at(100), Some(50));
    assert_eq!(summary.fuel_used(), 201);
    assert_eq!(summary.states().len(), 3);
}

#[test]
fn stow_at_depot_in_run_is_reported() {
    let goal = GoalSpec::new(500, 600);
    let summary = simulate(goal, CommandScript::new(vec![Command::StowFuel(1)]));
    assert_eq!(*summary.result(), Err(Error::StowAtDepot));
    assert_eq!(summary.fuel_used(), 0);
}

#[test]
fn fuel_used_ignores_stow_commands() {
    let goal = GoalSpec::new(500, 600);
    let plain = vec![Command::Travel(100), Command::Travel(-100), Command::Travel(-1)];
    let with_stow = vec![
        Command::Travel(100),
        Command::StowFuel(20),
        Command::Travel(-100),
        Command::Travel(-1),
    ];
    let a = simulate(goal, CommandScript::new(plain));
    let b = simulate(goal, CommandScript::new(with_stow));
    assert_eq!(a.fuel_used(), 201);
    assert_eq!(b.fuel_used(), 201);
}

#[test]
fn states_are_cached_and_stable() {
    let goal = GoalSpec::new(500, 600);
    let mut summary = simulate(goal, CommandScript::new(script()));
    let first: Vec<(usize, usize)> = summary.states().iter().map(|t| (t.location(), t.fuel())).collect();
    let second: Vec<(usize, usize)> = summary.states().iter().map(|t| (t.location(), t.fuel())).collect();
    assert_eq!(first, second);
    assert_eq!(first.last(), Some(&(600, 0)));
}

#[test]
fn command_script_hands_out_in_order() {
    let mut s = CommandScript::new(vec![Command::Travel(3), Command::StowFuel(2)]);
    assert_eq!(s.next_command(), Some(Command::Travel(3)));
    let train = Train::new(5, 10);
    let goal = GoalSpec::new(5, 10);
    assert_eq!(s.decide(&train, &goal), Some(Command::StowFuel(2)));
    assert_eq!(s.next_command(), None);
    assert_eq!(s.decide(&train, &goal), None);
}
