//! The in-game mode state machine and the session state it resets.
use vstd::prelude::*;
use crate::settings::{default_settings, Settings};

verus! {

/// Milliseconds between two rows of bricks.
pub const BRICK_ROW_INTERVAL_MS: u32 = 10000;

/// The top-level state of the application.
#[derive(Clone, Copy, Debug, PartialEq, Eq, Structural)]
pub enum AppState {
    Menu,
    InGame,
    RestartInGame,
}

/// The mode within a game; `Idle` outside of a run.
#[derive(Clone, Copy, Debug, PartialEq, Eq, Structural)]
pub enum InGameState {
    Idle,
    Preparation,
    Play,
    Pause,
    Summary,
}

/// Events waiting to be read, counted by kind.
#[derive(Clone, Copy, Debug, PartialEq, Eq, Structural)]
pub struct PendingEvents {
    pub menu_requested: u32,
    pub restart_requested: u32,
    pub toggle_pause_requested: u32,
    pub last_ball_destroyed: u32,
}

/// Input of one tick that the mode machine reads.
#[derive(Clone, Copy, Debug, PartialEq, Eq, Structural)]
pub struct ModeInput {
    /// Some key other than the left and right move keys was just pressed.
    pub other_key_just_pressed: bool,
    /// Some mouse button was just pressed.
    pub mouse_just_pressed: bool,
    pub pause_just_pressed: bool,
}

/// The outcome of one tick of the mode machine.
#[derive(Clone, Copy, Debug, PartialEq, Eq, Structural)]
pub enum Transition {
    Stay,
    ToMenu,
    Restart,
    ToMode(InGameState),
}

/// The state of one game session.
#[derive(Clone, Copy, Debug, PartialEq, Eq, Structural)]
pub struct Session {
    pub app: AppState,
    pub mode: InGameState,
    pub settings: Settings,
    pub score: u64,
    pub brick_row_cooldown_ms: u32,
}

pub open spec fn no_pending() -> PendingEvents {
    PendingEvents { menu_requested: 0, restart_requested: 0, toggle_pause_requested: 0, last_ball_destroyed: 0 }
}

/// Preparation ends on any press of a key other than the move keys, or of a
/// mouse button.
pub open spec fn ends_preparation(other_key_just_pressed: bool, mouse_just_pressed: bool) -> bool {
    other_key_just_pressed || mouse_just_pressed
}

/// The transition of one tick; the checks go in a fixed order and the first
/// that fires wins: menu, restart, summary, pause toggle, end of preparation.
/// The last-ball check comes before the pause toggle, so that a lost game
/// reaches its summary even when a pause is asked for in the same tick.
pub open spec fn transition_of(mode: InGameState, events: PendingEvents, input: ModeInput) -> Transition {
    if events.menu_requested > 0 {
        Transition::ToMenu
    } else if events.restart_requested > 0 {
        Transition::Restart
    } else if events.last_ball_destroyed > 0 && mode == InGameState::Play {
        Transition::ToMode(InGameState::Summary)
    } else if (events.toggle_pause_requested > 0 || input.pause_just_pressed) && mode
        == InGameState::Play {
        Transition::ToMode(InGameState::Pause)
    } else if (events.toggle_pause_requested > 0 || input.pause_just_pressed) && mode
        == InGameState::Pause {
        Transition::ToMode(InGameState::Play)
    } else if mode == InGameState::Preparation && ends_preparation(
        input.other_key_just_pressed,
        input.mouse_just_pressed,
    ) {
        Transition::ToMode(InGameState::Play)
    } else {
        Transition::Stay
    }
}

/// A session reset to its defaults, in the given application state.
pub open spec fn reset_session(app: AppState) -> Session {
    Session {
        app,
        mode: InGameState::Idle,
        settings: default_settings(),
        score: 0,
        brick_row_cooldown_ms: BRICK_ROW_INTERVAL_MS,
    }
}

/// A session after a transition.
pub open spec fn session_after(s: Session, t: Transition) -> Session {
    match t {
        Transition::Stay => s,
        Transition::ToMenu => reset_session(AppState::Menu),
        Transition::Restart => Session {
            app: AppState::InGame,
            mode: InGameState::Preparation,
            ..reset_session(AppState::InGame)
        },
        Transition::ToMode(m) => Session { mode: m, ..s },
    }
}

/// The mode a game starts in.
pub fn start_up() -> (r: InGameState)
    ensures
        r == InGameState::Preparation,
{
    InGameState::Preparation
}

/// The application state that follows a restart.
pub fn continue_restart_game() -> (r: AppState)
    ensures
        r == AppState::InGame,
{
    AppState::InGame
}

/// Whether the input of this tick ends preparation.
pub fn check_preparation_end_condition(other_key_just_pressed: bool, mouse_just_pressed: bool) -> (r: bool)
    ensures
        r == ends_preparation(other_key_just_pressed, mouse_just_pressed),
        r == (other_key_just_pressed || mouse_just_pressed),
{
    other_key_just_pressed || mouse_just_pressed
}

/// Reads and clears the menu requests; any of them asks for the menu.
pub fn check_menu_condition(pending: &mut u32) -> (r: Option<AppState>)
    ensures
        *final(pending) == 0,
        r == (if *old(pending) > 0 { Some(AppState::Menu) } else { None }),
{
    if *pending == 0 {
        return None;
    }
    *pending = 0;
    Some(AppState::Menu)
}

/// Reads and clears the restart requests; any of them asks for a restart.
pub fn check_restart_condition(pending: &mut u32) -> (r: Option<AppState>)
    ensures
        *final(pending) == 0,
        r == (if *old(pending) > 0 { Some(AppState::RestartInGame) } else { None }),
{
    if *pending == 0 {
        return None;
    }
    *pending = 0;
    Some(AppState::RestartInGame)
}

/// Reads and clears the last-ball events; in play any of them ends the game.
pub fn check_summary_condition(pending: &mut u32, current: InGameState) -> (r: Option<InGameState>)
    ensures
        *final(pending) == 0,
        r == (if *old(pending) > 0 && current == InGameState::Play {
            Some(InGameState::Summary)
        } else {
            None
        }),
{
    if *pending == 0 {
        return None;
    }
    *pending = 0;
    if current == InGameState::Play {
        Some(InGameState::Summary)
    } else {
        None
    }
}

/// Reads and clears the pause-toggle requests; with those or the pause key,
/// play turns to pause and pause to play.
pub fn check_toggle_pause_condition(pending: &mut u32, pause_just_pressed: bool, current: InGameState) -> (r: Option<InGameState>)
    ensures
        *final(pending) == 0,
        r == (if (*old(pending) > 0 || pause_just_pressed) && current == InGameState::Play {
            Some(InGameState::Pause)
        } else if (*old(pending) > 0 || pause_just_pressed) && current == InGameState::Pause {
            Some(InGameState::Play)
        } else {
            None
        }),
{
    let mut toggle = false;
    if *pending > 0 {
        toggle = true;
        *pending = 0;
    }
    if pause_just_pressed {
        toggle = true;
    }
    if !toggle {
        return None;
    }
    match current {
        InGameState::Play => Some(InGameState::Pause),
        InGameState::Pause => Some(InGameState::Play),
        _ => None,
    }
}

/// Runs every check of one tick, consuming all pending events, and returns
/// the transition that wins by the fixed order.
pub fn next_transition(mode: InGameState, events: &mut PendingEvents, input: &ModeInput) -> (t: Transition)
    ensures
        t == transition_of(mode, *old(events), *input),
        *final(events) == no_pending(),
{
    let menu = check_menu_condition(&mut events.menu_requested);
    let restart = check_restart_condition(&mut events.restart_requested);
    let pause = check_toggle_pause_condition(&mut events.toggle_pause_requested, input.pause_just_pressed, mode);
    let summary = check_summary_condition(&mut events.last_ball_destroyed, mode);
    let prepared = mode == InGameState::Preparation && check_preparation_end_condition(
        input.other_key_just_pressed,
        input.mouse_just_pressed,
    );
    if menu.is_some() {
        Transition::ToMenu
    } else if restart.is_some() {
        Transition::Restart
    } else if let Some(m) = summary {
        Transition::ToMode(m)
    } else if let Some(m) = pause {
        Transition::ToMode(m)
    } else if prepared {
        Transition::ToMode(InGameState::Play)
    } else {
        Transition::Stay
    }
}

impl Session {
    pub open spec fn wf(self) -> bool {
        self.settings.wf()
    }

    /// A session entering a game: preparation mode with default state.
    pub fn new() -> (r: Session)
        ensures
            r == (Session { app: AppState::InGame, mode: InGameState::Preparation, ..reset_session(AppState::InGame) }),
            r.wf(),
    {
        Session {
            app: continue_restart_game(),
            mode: start_up(),
            settings: Settings::new(),
            score: 0,
            brick_row_cooldown_ms: BRICK_ROW_INTERVAL_MS,
        }
    }

    /// Ends the run: mode back to `Idle` and every setting, the score and
    /// the brick-row cooldown back to their defaults.
    pub fn clean_up(&mut self)
        ensures
            *final(self) == reset_session(old(self).app),
            final(self).wf(),
    {
        self.mode = InGameState::Idle;
        self.settings = Settings::new();
        self.score = 0;
        self.brick_row_cooldown_ms = BRICK_ROW_INTERVAL_MS;
    }

    /// Carries out a transition.
    pub fn apply(&mut self, t: Transition)
        requires
            old(self).wf(),
        ensures
            *final(self) == session_after(*old(self), t),
            final(self).wf(),
    {
        match t {
            Transition::Stay => {},
            Transition::ToMenu => {
                self.app = AppState::Menu;
                self.clean_up();
            },
            Transition::Restart => {
                self.app = AppState::RestartInGame;
                self.clean_up();
                self.app = continue_restart_game();
                self.mode = start_up();
            },
            Transition::ToMode(m) => {
                self.mode = m;
            },
        }
    }

    /// Adds one point per destroyed brick, saturating at the largest score.
    pub fn award(&mut self, destroyed: usize)
        ensures
            final(self).score == if old(self).score + destroyed > u64::MAX {
                u64::MAX as int
            } else {
                old(self).score + destroyed
            },
            *final(self) == (Session { score: final(self).score, ..*old(self) }),
    {
        self.score = self.score.saturating_add(destroyed as u64);
    }

    /// Counts the brick-row cooldown down by `dt_ms`; when it runs out a row
    /// is due, which is returned, and the cooldown starts over.
    pub fn advance_brick_row_cooldown(&mut self, dt_ms: u32) -> (due: bool)
        ensures
            due == (dt_ms >= old(self).brick_row_cooldown_ms),
            final(self).brick_row_cooldown_ms == if due {
                BRICK_ROW_INTERVAL_MS as int
            } else {
                old(self).brick_row_cooldown_ms - dt_ms
            },
            *final(self) == (Session { brick_row_cooldown_ms: final(self).brick_row_cooldown_ms, ..*old(self) }),
    {
        if dt_ms >= self.brick_row_cooldown_ms {
            self.brick_row_cooldown_ms = BRICK_ROW_INTERVAL_MS;
            true
        } else {
            self.brick_row_cooldown_ms = self.brick_row_cooldown_ms - dt_ms;
            false
        }
    }
}

} // verus!
