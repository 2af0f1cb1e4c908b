//! The interactive session state machine: Help/Splash, Paint, and Simulate
//! modes, and the pure transition function that sequences them on the
//! normalized command vocabulary. The terminal loop that feeds it lives
//! outside this crate.

use vstd::prelude::*;
use crate::life_iteration::{next_generation, Coords, LifeIteration};

verus! {

/// Which pointer button a mark was made with.
#[derive(Clone, Copy, PartialEq, Eq, Structural, Debug)]
pub enum PointerButton {
    Primary,
    Secondary,
}

/// The normalized command vocabulary the input adapter produces from raw
/// terminal events. `Other` is a key press with no assigned meaning; raw
/// events outside the vocabulary (pointer motion, releases, scrolling) yield
/// no command at all, so every command but `PointerMark` and `Resize` stands
/// for a key press.
#[derive(Clone, Copy, PartialEq, Eq, Structural, Debug)]
pub enum Command {
    PointerMark { x: u16, y: u16, button: PointerButton },
    Quit,
    Help,
    Confirm,
    Restart,
    Resize,
    Other,
}

/// The mode the help overlay will return control to.
pub enum HelpReturn {
    Paint { cells: LifeIteration },
    Simulate { cells: LifeIteration },
}

/// The session's current mode. Exactly one is active at a time; `Help`
/// remembers the mode that invoked it together with that mode's generation.
pub enum SessionMode {
    Help { resume: HelpReturn },
    Paint { cells: LifeIteration },
    Simulate { cells: LifeIteration },
}

/// What one transition yields: the session keeps running in some mode, or a
/// quit command has ended it.
pub enum StepResult {
    Running { mode: SessionMode },
    Terminated,
}

/// Mathematical image of `HelpReturn`.
pub enum ResumeView {
    Paint { cells: Set<(int, int)> },
    Simulate { cells: Set<(int, int)> },
}

/// Mathematical image of `SessionMode`.
pub enum ModeView {
    Help { resume: ResumeView },
    Paint { cells: Set<(int, int)> },
    Simulate { cells: Set<(int, int)> },
}

/// Mathematical image of `StepResult`.
pub enum StepView {
    Running { mode: ModeView },
    Terminated,
}

impl View for HelpReturn {
    type V = ResumeView;

    open spec fn view(&self) -> ResumeView {
        match self {
            HelpReturn::Paint { cells } => ResumeView::Paint { cells: cells.view() },
            HelpReturn::Simulate { cells } => ResumeView::Simulate { cells: cells.view() },
        }
    }
}

impl View for SessionMode {
    type V = ModeView;

    open spec fn view(&self) -> ModeView {
        match self {
            SessionMode::Help { resume } => ModeView::Help { resume: resume.view() },
            SessionMode::Paint { cells } => ModeView::Paint { cells: cells.view() },
            SessionMode::Simulate { cells } => ModeView::Simulate { cells: cells.view() },
        }
    }
}

impl View for StepResult {
    type V = StepView;

    open spec fn view(&self) -> StepView {
        match self {
            StepResult::Running { mode } => StepView::Running { mode: mode.view() },
            StepResult::Terminated => StepView::Terminated,
        }
    }
}

impl HelpReturn {
    pub open spec fn well_formed(self) -> bool {
        match self {
            HelpReturn::Paint { cells } => cells.well_formed(),
            HelpReturn::Simulate { cells } => cells.well_formed(),
        }
    }
}

impl SessionMode {
    pub open spec fn well_formed(self) -> bool {
        match self {
            SessionMode::Help { resume } => resume.well_formed(),
            SessionMode::Paint { cells } => cells.well_formed(),
            SessionMode::Simulate { cells } => cells.well_formed(),
        }
    }
}

impl StepResult {
    pub open spec fn well_formed(self) -> bool {
        match self {
            StepResult::Running { mode } => mode.well_formed(),
            StepResult::Terminated => true,
        }
    }
}

/// The mode a help overlay resumes into.
pub open spec fn resume_mode(r: ResumeView) -> ModeView {
    match r {
        ResumeView::Paint { cells } => ModeView::Paint { cells },
        ResumeView::Simulate { cells } => ModeView::Simulate { cells },
    }
}

/// The legal transition table, in full.
///
/// Help: a resize only re-renders the overlay, a pointer mark is ignored,
/// and any key — every other command stands for one — returns control to the
/// invoking mode with its generation intact. Paint: pointer marks edit the
/// in-progress set, quit terminates,
/// help suspends, confirm starts the simulation only on a non-empty set, and
/// everything else is ignored. Simulate: quit terminates, restart discards
/// the generation for a fresh Paint, help suspends, and everything else is
/// ignored.
pub open spec fn step_spec(m: ModeView, c: Command) -> StepView {
    match m {
        ModeView::Help { resume } => match c {
            Command::Resize => StepView::Running { mode: ModeView::Help { resume } },
            Command::PointerMark { .. } => StepView::Running { mode: ModeView::Help { resume } },
            _ => StepView::Running { mode: resume_mode(resume) },
        },
        ModeView::Paint { cells } => match c {
            Command::PointerMark { x, y, button } => StepView::Running {
                mode: ModeView::Paint {
                    cells: match button {
                        PointerButton::Primary => cells.insert((x as int, y as int)),
                        PointerButton::Secondary => cells.remove((x as int, y as int)),
                    },
                },
            },
            Command::Quit => StepView::Terminated,
            Command::Help => StepView::Running {
                mode: ModeView::Help { resume: ResumeView::Paint { cells } },
            },
            Command::Confirm => if cells.is_empty() {
                StepView::Running { mode: ModeView::Paint { cells } }
            } else {
                StepView::Running { mode: ModeView::Simulate { cells } }
            },
            _ => StepView::Running { mode: ModeView::Paint { cells } },
        },
        ModeView::Simulate { cells } => match c {
            Command::Quit => StepView::Terminated,
            Command::Restart => StepView::Running {
                mode: ModeView::Paint { cells: Set::empty() },
            },
            Command::Help => StepView::Running {
                mode: ModeView::Help { resume: ResumeView::Simulate { cells } },
            },
            _ => StepView::Running { mode: ModeView::Simulate { cells } },
        },
    }
}

/// A tick only touches Simulate, where it replaces the generation with its
/// successor.
pub open spec fn tick_spec(m: ModeView) -> ModeView {
    match m {
        ModeView::Simulate { cells } => ModeView::Simulate { cells: next_generation(cells) },
        _ => m,
    }
}

/// The character-key half of the input adapter's vocabulary: quit and
/// restart match their letters case-insensitively, and every other character
/// is ignored.
pub fn command_for_char(key: char) -> (r: Command)
    ensures
        r == (if key == 'q' || key == 'Q' {
            Command::Quit
        } else if key == 'r' || key == 'R' {
            Command::Restart
        } else {
            Command::Other
        }),
{
    if key == 'q' || key == 'Q' {
        Command::Quit
    } else if key == 'r' || key == 'R' {
        Command::Restart
    } else {
        Command::Other
    }
}

/// The state the session starts in: the help overlay, which a key dismisses
/// into an empty Paint state.
pub fn initial_mode() -> (r: SessionMode)
    ensures
        r.well_formed(),
        r@ == (ModeView::Help {
            resume: ResumeView::Paint { cells: Set::<(int, int)>::empty() },
        }),
{
    SessionMode::Help { resume: HelpReturn::Paint { cells: LifeIteration::new() } }
}

/// Apply one user command to the session, following `step_spec` exactly.
pub fn step(mode: SessionMode, cmd: Command) -> (r: StepResult)
    requires
        mode.well_formed(),
    ensures
        r.well_formed(),
        r@ == step_spec(mode@, cmd),
{
    match mode {
        SessionMode::Help { resume } => match cmd {
            Command::Resize => StepResult::Running { mode: SessionMode::Help { resume } },
            Command::PointerMark { .. } => StepResult::Running {
                mode: SessionMode::Help { resume },
            },
            _ => StepResult::Running {
                mode: match resume {
                    HelpReturn::Paint { cells } => SessionMode::Paint { cells },
                    HelpReturn::Simulate { cells } => SessionMode::Simulate { cells },
                },
            },
        },
        SessionMode::Paint { cells } => {
            let mut cells = cells;
            match cmd {
                Command::PointerMark { x, y, button } => {
                    match button {
                        PointerButton::Primary => cells.insert(
                            Coords::new(x as isize, y as isize),
                        ),
                        PointerButton::Secondary => cells.remove(
                            Coords::new(x as isize, y as isize),
                        ),
                    }
                    StepResult::Running { mode: SessionMode::Paint { cells } }
                },
                Command::Quit => StepResult::Terminated,
                Command::Help => StepResult::Running {
                    mode: SessionMode::Help { resume: HelpReturn::Paint { cells } },
                },
                Command::Confirm => {
                    if cells.is_empty() {
                        StepResult::Running { mode: SessionMode::Paint { cells } }
                    } else {
                        StepResult::Running { mode: SessionMode::Simulate { cells } }
                    }
                },
                _ => StepResult::Running { mode: SessionMode::Paint { cells } },
            }
        },
        SessionMode::Simulate { cells } => match cmd {
            Command::Quit => StepResult::Terminated,
            Command::Restart => StepResult::Running {
                mode: SessionMode::Paint { cells: LifeIteration::new() },
            },
            Command::Help => StepResult::Running {
                mode: SessionMode::Help { resume: HelpReturn::Simulate { cells } },
            },
            _ => StepResult::Running { mode: SessionMode::Simulate { cells } },
        },
    }
}

/// Advance the session by one tick, following `tick_spec` exactly.
pub fn tick(mode: SessionMode) -> (r: SessionMode)
    requires
        mode.well_formed(),
        mode matches SessionMode::Simulate { cells } ==> cells.all_within(2),
    ensures
        r.well_formed(),
        r@ == tick_spec(mode@),
{
    match mode {
        SessionMode::Simulate { cells } => SessionMode::Simulate {
            cells: cells.get_next_life_iteration(),
        },
        other => other,
    }
}

/// Confirming an empty in-progress set is a no-op: the machine stays in
/// Paint with the same set. There is no such thing as simulating zero live
/// cells.
pub proof fn lemma_confirm_empty_is_noop(cells: Set<(int, int)>)
    requires
        cells.is_empty(),
    ensures
        step_spec(ModeView::Paint { cells }, Command::Confirm) == (StepView::Running {
            mode: ModeView::Paint { cells },
        }),
{
}

/// Confirming a non-empty set starts the simulation carrying exactly that
/// set as generation zero.
pub proof fn lemma_confirm_nonempty_starts_simulate(cells: Set<(int, int)>)
    requires
        !cells.is_empty(),
    ensures
        step_spec(ModeView::Paint { cells }, Command::Confirm) == (StepView::Running {
            mode: ModeView::Simulate { cells },
        }),
{
}

/// Restart from Simulate always yields a fresh, empty Paint state, never
/// carrying over prior live cells.
pub proof fn lemma_restart_gives_fresh_paint(cells: Set<(int, int)>)
    ensures
        step_spec(ModeView::Simulate { cells }, Command::Restart) == (StepView::Running {
            mode: ModeView::Paint { cells: Set::empty() },
        }),
{
}

/// The help overlay suspends Paint and any key resumes it with the
/// in-progress set intact.
pub proof fn lemma_help_round_trip_paint(cells: Set<(int, int)>, key: Command)
    requires
        key != Command::Resize,
        !(key matches Command::PointerMark { .. }),
    ensures
        step_spec(ModeView::Paint { cells }, Command::Help) == (StepView::Running {
            mode: ModeView::Help { resume: ResumeView::Paint { cells } },
        }),
        step_spec(ModeView::Help { resume: ResumeView::Paint { cells } }, key) == (
        StepView::Running { mode: ModeView::Paint { cells } }),
{
}

/// The help overlay suspends Simulate and any key resumes it with the
/// current generation intact.
pub proof fn lemma_help_round_trip_simulate(cells: Set<(int, int)>, key: Command)
    requires
        key != Command::Resize,
        !(key matches Command::PointerMark { .. }),
    ensures
        step_spec(ModeView::Simulate { cells }, Command::Help) == (StepView::Running {
            mode: ModeView::Help { resume: ResumeView::Simulate { cells } },
        }),
        step_spec(ModeView::Help { resume: ResumeView::Simulate { cells } }, key) == (
        StepView::Running { mode: ModeView::Simulate { cells } }),
{
}

} // verus!
