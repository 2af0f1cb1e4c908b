use game_of_life::life_iteration::{Coords, LifeIteration};
use game_of_life::session::{
    command_for_char, initial_mode, step, tick, Command, HelpReturn, PointerButton, SessionMode,
    StepResult,
};

fn sorted_points(g: &LifeIteration) -> Vec<(isize, isize)> {
    let mut v: Vec<(isize, isize)> = g.cells.iter().map(|c| (c.x, c.y)).collect();
    v.sort();
    v
}

fn running(r: StepResult) -> SessionMode {
    match r {
        StepResult::Running { mode } => mode,
        StepResult::Terminated => panic!("session terminated unexpectedly"),
    }
}

fn mark(x: u16, y: u16, button: PointerButton) -> Command {
    Command::PointerMark { x, y, button }
}

#[test]
fn session_starts_in_help_and_a_key_opens_an_empty_paint() {
    let mode = running(step(initial_mode(), Command::Other));
    match mode {
        SessionMode::Paint { cells } => assert!(cells.is_empty()),
        _ => panic!("expected Paint after dismissing the initial help"),
    }
}

#[test]
fn resize_and_pointer_stay_in_help() {
    let mode = running(step(initial_mode(), Command::Resize));
    assert!(matches!(mode, SessionMode::Help { .. }));
    let mode = running(step(mode, mark(3, 3, PointerButton::Primary)));
    assert!(matches!(mode, SessionMode::Help { .. }));
}

#[test]
fn painting_inserts_and_erases_cells() {
    let mut mode = running(step(initial_mode(), Command::Other));
    mode = running(step(mode, mark(2, 5, PointerButton::Primary)));
    mode = running(step(mode, mark(7, 1, PointerButton::Primary)));
    mode = running(step(mode, mark(2, 5, PointerButton::Secondary)));
    match mode {
        SessionMode::Paint { cells } => assert_eq!(sorted_points(&cells), vec![(7, 1)]),
        _ => panic!("expected to still be painting"),
    }
}

#[test]
fn confirm_with_empty_set_is_a_noop() {
    let mode = running(step(initial_mode(), Command::Other));
    let mode = running(step(mode, Command::Confirm));
    match mode {
        SessionMode::Paint { cells } => assert!(cells.is_empty()),
        _ => panic!("confirming an empty set must stay in Paint"),
    }
}

#[test]
fn confirm_with_cells_starts_simulate_with_exactly_that_set() {
    let mut mode = running(step(initial_mode(), Command::Other));
    mode = running(step(mode, mark(1, 0, PointerButton::Primary)));
    mode = running(step(mode, mark(2, 0, PointerButton::Primary)));
    mode = running(step(mode, Command::Confirm));
    match mode {
        SessionMode::Simulate { cells } => {
            assert_eq!(sorted_points(&cells), vec![(1, 0), (2, 0)])
        },
        _ => panic!("confirming a non-empty set must start Simulate"),
    }
}

#[test]
fn restart_from_simulate_gives_a_fresh_empty_paint() {
    let mut cells = LifeIteration::new();
    cells.insert(Coords::new(4, 4));
    cells.insert(Coords::new(5, 4));
    let mode = SessionMode::Simulate { cells };
    match running(step(mode, Command::Restart)) {
        SessionMode::Paint { cells } => assert!(cells.is_empty()),
        _ => panic!("restart must go back to Paint"),
    }
}

#[test]
fn quit_terminates_from_paint_and_simulate() {
    let paint = running(step(initial_mode(), Command::Other));
    assert!(matches!(step(paint, Command::Quit), StepResult::Terminated));
    let mut cells = LifeIteration::new();
    cells.insert(Coords::new(0, 0));
    let sim = SessionMode::Simulate { cells };
    assert!(matches!(step(sim, Command::Quit), StepResult::Terminated));
}

#[test]
fn help_suspends_and_resumes_paint_with_its_cells() {
    let mut mode = running(step(initial_mode(), Command::Other));
    mode = running(step(mode, mark(9, 9, PointerButton::Primary)));
    mode = running(step(mode, Command::Help));
    match &mode {
        SessionMode::Help { resume: HelpReturn::Paint { cells } } => {
            assert_eq!(sorted_points(cells), vec![(9, 9)])
        },
        _ => panic!("help from Paint must remember the Paint set"),
    }
    // any key, even one that maps to a command elsewhere, resumes
    match running(step(mode, Command::Quit)) {
        SessionMode::Paint { cells } => assert_eq!(sorted_points(&cells), vec![(9, 9)]),
        _ => panic!("leaving help must resume Paint"),
    }
}

#[test]
fn help_suspends_and_resumes_simulate_with_its_generation() {
    let mut cells = LifeIteration::new();
    cells.insert(Coords::new(3, 3));
    let mode = SessionMode::Simulate { cells };
    let mode = running(step(mode, Command::Help));
    assert!(matches!(mode, SessionMode::Help { resume: HelpReturn::Simulate { .. } }));
    match running(step(mode, Command::Other)) {
        SessionMode::Simulate { cells } => assert_eq!(sorted_points(&cells), vec![(3, 3)]),
        _ => panic!("leaving help must resume Simulate"),
    }
}

#[test]
fn restart_is_ignored_while_painting() {
    let mut mode = running(step(initial_mode(), Command::Other));
    mode = running(step(mode, mark(1, 2, PointerButton::Primary)));
    mode = running(step(mode, Command::Restart));
    match mode {
        SessionMode::Paint { cells } => assert_eq!(sorted_points(&cells), vec![(1, 2)]),
        _ => panic!("restart has no meaning in Paint"),
    }
}

#[test]
fn quit_and_restart_characters_match_case_insensitively() {
    assert_eq!(command_for_char('q'), Command::Quit);
    assert_eq!(command_for_char('Q'), Command::Quit);
    assert_eq!(command_for_char('r'), Command::Restart);
    assert_eq!(command_for_char('R'), Command::Restart);
    assert_eq!(command_for_char('x'), Command::Other);
    assert_eq!(command_for_char(' '), Command::Other);
}

#[test]
fn tick_advances_only_the_simulation() {
    let mut cells = LifeIteration::new();
    cells.insert(Coords::new(1, 0));
    cells.insert(Coords::new(2, 0));
    cells.insert(Coords::new(3, 0));
    let mode = tick(SessionMode::Simulate { cells });
    match mode {
        SessionMode::Simulate { cells } => {
            assert_eq!(sorted_points(&cells), vec![(2, -1), (2, 0), (2, 1)])
        },
        _ => panic!("tick must stay in Simulate"),
    }
    let paint = running(step(initial_mode(), Command::Other));
    let same = tick(paint);
    match same {
        SessionMode::Paint { cells } => assert!(cells.is_empty()),
        _ => panic!("tick must not touch Paint"),
    }
}
