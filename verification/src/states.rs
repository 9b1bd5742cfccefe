//! The phases of a game session, and the controller that moves between them.

use crate::error::GameError;
use vstd::prelude::*;

verus! {

/// The phase that the game is in.
#[derive(Debug, Clone, Copy, PartialEq, Eq, Hash, Structural)]
pub enum GameState {
    Splash,
    AssetsLoading,
    AssetsSetup,
    AssetsFailed,
    Combat,
    CombatTurns,
    CombatEnded,
    InteractiveFiction,
    TheEnd,
}

impl Default for GameState {
    fn default() -> (state: Self)
        ensures
            state == GameState::Splash,
    {
        GameState::Splash
    }
}

impl GameState {
    /// A phase that no signal leads out of.
    pub open spec fn is_terminal(self) -> bool {
        self == GameState::AssetsFailed || self == GameState::TheEnd
    }
}

/// What the presentation layer is told when the phase changes.
#[derive(Debug, Clone, Copy, PartialEq, Eq, Structural)]
pub enum PhaseEvent {
    AssetsFailed,
    CombatTurnsStarted,
    CombatEnded,
    DialogEnded,
}

/// The scene that is played once the assets are set up.
#[derive(Debug, Clone, Copy, PartialEq, Eq, Structural)]
pub enum Scene {
    Combat,
    Fiction,
}

/// What the controller is told, once per tick at most.
#[derive(Debug, Clone, Copy, PartialEq, Eq, Structural)]
pub enum FlowSignal {
    /// The splash screen is on display.
    SplashShown,
    /// The assets were polled: whether all are loaded, and the milliseconds
    /// that went by since the last poll.
    AssetsPolled { loaded: bool, elapsed_ms: u64 },
    /// The assets are set up, and this scene comes next.
    AssetsArranged { scene: Scene },
    /// The combat scene is set up: zones and initiative are resolved.
    CombatArranged,
    /// The turn loop has ended.
    CombatFinished,
    /// The dialog has ended.
    DialogFinished,
    /// The scene that had ended was taken down.
    SceneClosed,
}

/// A deadline that is fed the time that goes by.
#[derive(Debug, Clone, Copy, PartialEq, Eq, Structural)]
pub struct Countdown {
    pub limit_ms: u64,
    pub spent_ms: u64,
}

impl Countdown {
    /// The time spent never exceeds the limit.
    pub open spec fn wf(self) -> bool {
        self.spent_ms <= self.limit_ms
    }

    pub open spec fn expired(self) -> bool {
        self.spent_ms >= self.limit_ms
    }

    /// The countdown after `elapsed_ms` more milliseconds: the time spent
    /// grows by them and stops at the limit.
    pub open spec fn after(self, elapsed_ms: u64) -> Countdown {
        Countdown {
            limit_ms: self.limit_ms,
            spent_ms: if self.spent_ms >= self.limit_ms {
                self.spent_ms
            } else if self.spent_ms + elapsed_ms >= self.limit_ms {
                self.limit_ms
            } else {
                (self.spent_ms + elapsed_ms) as u64
            },
        }
    }

    pub fn new(limit_ms: u64) -> (countdown: Self)
        ensures
            countdown == (Countdown { limit_ms, spent_ms: 0 }),
            countdown.wf(),
    {
        Countdown { limit_ms, spent_ms: 0 }
    }

    /// Lets time go by, and fails once the deadline is reached.
    pub fn tick(&mut self, elapsed_ms: u64) -> (outcome: Result<(), GameError>)
        ensures
            *final(self) == old(self).after(elapsed_ms),
            old(self).wf() ==> final(self).wf(),
            outcome is Ok <==> !final(self).expired(),
            outcome is Err ==> outcome == Err::<(), GameError>(GameError::LoadTimeout),
    {
        if self.spent_ms >= self.limit_ms {
            return Err(GameError::LoadTimeout);
        }
        let left = self.limit_ms - self.spent_ms;
        if elapsed_ms >= left {
            self.spent_ms = self.limit_ms;
            Err(GameError::LoadTimeout)
        } else {
            self.spent_ms = self.spent_ms + elapsed_ms;
            Ok(())
        }
    }
}

/// The phase that follows `state` on `signal`. `expired` says whether the
/// loading deadline is reached once the signal's time is counted. A signal
/// that the phase does not wait for changes nothing.
pub open spec fn next_state(state: GameState, signal: FlowSignal, expired: bool) -> GameState {
    match (state, signal) {
        (GameState::Splash, FlowSignal::SplashShown) => GameState::AssetsLoading,
        (GameState::AssetsLoading, FlowSignal::AssetsPolled { loaded, .. }) => if loaded {
            GameState::AssetsSetup
        } else if expired {
            GameState::AssetsFailed
        } else {
            GameState::AssetsLoading
        },
        (GameState::AssetsSetup, FlowSignal::AssetsArranged { scene }) => match scene {
            Scene::Combat => GameState::Combat,
            Scene::Fiction => GameState::InteractiveFiction,
        },
        (GameState::Combat, FlowSignal::CombatArranged) => GameState::CombatTurns,
        (GameState::CombatTurns, FlowSignal::CombatFinished) => GameState::CombatEnded,
        (GameState::CombatEnded, FlowSignal::SceneClosed) => GameState::TheEnd,
        (GameState::InteractiveFiction, FlowSignal::DialogFinished) => GameState::TheEnd,
        _ => state,
    }
}

/// The event that goes with a change of phase, if the change has one.
pub open spec fn event_of(from: GameState, to: GameState) -> Option<PhaseEvent> {
    if from == to {
        None
    } else {
        match to {
            GameState::AssetsFailed => Some(PhaseEvent::AssetsFailed),
            GameState::CombatTurns => Some(PhaseEvent::CombatTurnsStarted),
            GameState::CombatEnded => Some(PhaseEvent::CombatEnded),
            GameState::TheEnd => if from == GameState::InteractiveFiction {
                Some(PhaseEvent::DialogEnded)
            } else {
                None
            },
            _ => None,
        }
    }
}

/// The sequencer of phases. It owns the current phase and the deadline by
/// which the assets must be loaded.
#[derive(Debug, Clone, Copy, PartialEq, Eq, Structural)]
pub struct GameFlow {
    pub state: GameState,
    pub loading: Countdown,
}

impl GameFlow {
    pub open spec fn wf(self) -> bool {
        self.loading.wf()
    }

    /// The deadline after a signal: only a poll of the assets while they
    /// load lets time go by.
    pub open spec fn loading_after(self, signal: FlowSignal) -> Countdown {
        match (self.state, signal) {
            (GameState::AssetsLoading, FlowSignal::AssetsPolled { loaded, elapsed_ms }) => if loaded {
                self.loading
            } else {
                self.loading.after(elapsed_ms)
            },
            _ => self.loading,
        }
    }

    /// The flow after a signal.
    pub open spec fn after(self, signal: FlowSignal) -> GameFlow {
        let loading = self.loading_after(signal);
        GameFlow { state: next_state(self.state, signal, loading.expired()), loading }
    }

    /// A session starts at the splash screen.
    pub fn new(loading_limit_ms: u64) -> (flow: Self)
        ensures
            flow.state == GameState::Splash,
            flow.loading == (Countdown { limit_ms: loading_limit_ms, spent_ms: 0 }),
            flow.wf(),
    {
        GameFlow { state: GameState::Splash, loading: Countdown::new(loading_limit_ms) }
    }

    /// Takes one signal, moves to the phase that follows, and returns the
    /// event that the move calls for.
    pub fn step(&mut self, signal: FlowSignal) -> (event: Option<PhaseEvent>)
        ensures
            *final(self) == old(self).after(signal),
            old(self).wf() ==> final(self).wf(),
            event == event_of(old(self).state, final(self).state),
    {
        let from = self.state;
        let to = match (from, signal) {
            (GameState::Splash, FlowSignal::SplashShown) => GameState::AssetsLoading,
            (GameState::AssetsLoading, FlowSignal::AssetsPolled { loaded, elapsed_ms }) => {
                if loaded {
                    GameState::AssetsSetup
                } else {
                    match self.loading.tick(elapsed_ms) {
                        Ok(()) => GameState::AssetsLoading,
                        Err(_) => GameState::AssetsFailed,
                    }
                }
            },
            (GameState::AssetsSetup, FlowSignal::AssetsArranged { scene }) => match scene {
                Scene::Combat => GameState::Combat,
                Scene::Fiction => GameState::InteractiveFiction,
            },
            (GameState::Combat, FlowSignal::CombatArranged) => GameState::CombatTurns,
            (GameState::CombatTurns, FlowSignal::CombatFinished) => GameState::CombatEnded,
            (GameState::CombatEnded, FlowSignal::SceneClosed) => GameState::TheEnd,
            (GameState::InteractiveFiction, FlowSignal::DialogFinished) => GameState::TheEnd,
            _ => from,
        };
        self.state = to;
        if from == to {
            None
        } else {
            match to {
                GameState::AssetsFailed => Some(PhaseEvent::AssetsFailed),
                GameState::CombatTurns => Some(PhaseEvent::CombatTurnsStarted),
                GameState::CombatEnded => Some(PhaseEvent::CombatEnded),
                GameState::TheEnd => if from == GameState::InteractiveFiction {
                    Some(PhaseEvent::DialogEnded)
                } else {
                    None
                },
                _ => None,
            }
        }
    }
}

/// A terminal phase is never left.
pub proof fn lemma_terminal_stays(flow: GameFlow, signal: FlowSignal)
    requires
        flow.state.is_terminal(),
    ensures
        flow.after(signal).state == flow.state,
{
}

/// While the assets load, a poll that finds them loaded moves on to their
/// setup however much time has gone by, and one that does not fails the
/// loading exactly when the deadline is reached.
pub proof fn lemma_loading_outcomes(flow: GameFlow, loaded: bool, elapsed_ms: u64)
    requires
        flow.wf(),
        flow.state == GameState::AssetsLoading,
    ensures
        ({
            let then = flow.after(FlowSignal::AssetsPolled { loaded, elapsed_ms });
            &&& loaded ==> then.state == GameState::AssetsSetup
            &&& !loaded && flow.loading.spent_ms + elapsed_ms >= flow.loading.limit_ms
                ==> then.state == GameState::AssetsFailed
            &&& !loaded && flow.loading.spent_ms + elapsed_ms < flow.loading.limit_ms
                ==> then.state == GameState::AssetsLoading
        }),
{
}

} // verus!
