use game_test::error::GameError;
use game_test::states::{Countdown, FlowSignal, GameFlow, GameState, PhaseEvent, Scene};

fn flow_at(state: GameState) -> GameFlow {
    let mut flow = GameFlow::new(3000);
    flow.state = state;
    flow
}

const STATES: [GameState; 9] = [
    GameState::Splash,
    GameState::AssetsLoading,
    GameState::AssetsSetup,
    GameState::AssetsFailed,
    GameState::Combat,
    GameState::CombatTurns,
    GameState::CombatEnded,
    GameState::InteractiveFiction,
    GameState::TheEnd,
];

const SIGNALS: [FlowSignal; 9] = [
    FlowSignal::SplashShown,
    FlowSignal::AssetsPolled { loaded: true, elapsed_ms: 16 },
    FlowSignal::AssetsPolled { loaded: false, elapsed_ms: 16 },
    FlowSignal::AssetsArranged { scene: Scene::Combat },
    FlowSignal::AssetsArranged { scene: Scene::Fiction },
    FlowSignal::CombatArranged,
    FlowSignal::CombatFinished,
    FlowSignal::DialogFinished,
    FlowSignal::SceneClosed,
];

#[test]
fn a_session_starts_at_the_splash_screen() {
    assert_eq!(GameState::default(), GameState::Splash);
    let flow = GameFlow::new(3000);
    assert_eq!(flow.state, GameState::Splash);
    assert_eq!(flow.loading, Countdown { limit_ms: 3000, spent_ms: 0 });
}

#[test]
fn the_countdown_fails_once_the_deadline_is_reached() {
    let mut countdown = Countdown::new(3000);
    assert_eq!(countdown.tick(1000), Ok(()));
    assert_eq!(countdown.tick(1999), Ok(()));
    assert_eq!(countdown.spent_ms, 2999);
    assert_eq!(countdown.tick(1), Err(GameError::LoadTimeout));
    assert_eq!(countdown.spent_ms, 3000);
    assert_eq!(countdown.tick(0), Err(GameError::LoadTimeout));
    assert_eq!(countdown.tick(u64::MAX), Err(GameError::LoadTimeout));
    assert_eq!(countdown.spent_ms, 3000);
    let mut long = Countdown::new(u64::MAX);
    assert_eq!(long.tick(u64::MAX - 1), Ok(()));
    assert_eq!(long.tick(u64::MAX), Err(GameError::LoadTimeout));
    let mut none = Countdown::new(0);
    assert_eq!(none.tick(0), Err(GameError::LoadTimeout));
}

#[test]
fn the_combat_path_runs_from_splash_to_the_end() {
    let mut flow = GameFlow::new(3000);
    assert_eq!(flow.step(FlowSignal::SplashShown), None);
    assert_eq!(flow.state, GameState::AssetsLoading);
    assert_eq!(flow.step(FlowSignal::AssetsPolled { loaded: false, elapsed_ms: 500 }), None);
    assert_eq!(flow.state, GameState::AssetsLoading);
    assert_eq!(flow.loading.spent_ms, 500);
    assert_eq!(flow.step(FlowSignal::AssetsPolled { loaded: true, elapsed_ms: 9000 }), None);
    assert_eq!(flow.state, GameState::AssetsSetup);
    assert_eq!(flow.loading.spent_ms, 500);
    assert_eq!(flow.step(FlowSignal::AssetsArranged { scene: Scene::Combat }), None);
    assert_eq!(flow.state, GameState::Combat);
    assert_eq!(flow.step(FlowSignal::CombatArranged), Some(PhaseEvent::CombatTurnsStarted));
    assert_eq!(flow.state, GameState::CombatTurns);
    assert_eq!(flow.step(FlowSignal::CombatFinished), Some(PhaseEvent::CombatEnded));
    assert_eq!(flow.state, GameState::CombatEnded);
    assert_eq!(flow.step(FlowSignal::SceneClosed), None);
    assert_eq!(flow.state, GameState::TheEnd);
}

#[test]
fn the_fiction_path_ends_with_the_dialog() {
    let mut flow = flow_at(GameState::AssetsSetup);
    assert_eq!(flow.step(FlowSignal::AssetsArranged { scene: Scene::Fiction }), None);
    assert_eq!(flow.state, GameState::InteractiveFiction);
    assert_eq!(flow.step(FlowSignal::CombatFinished), None);
    assert_eq!(flow.state, GameState::InteractiveFiction);
    assert_eq!(flow.step(FlowSignal::DialogFinished), Some(PhaseEvent::DialogEnded));
    assert_eq!(flow.state, GameState::TheEnd);
}

#[test]
fn loading_fails_when_the_deadline_passes() {
    let mut flow = GameFlow::new(3000);
    flow.step(FlowSignal::SplashShown);
    assert_eq!(flow.step(FlowSignal::AssetsPolled { loaded: false, elapsed_ms: 2999 }), None);
    assert_eq!(
        flow.step(FlowSignal::AssetsPolled { loaded: false, elapsed_ms: 1 }),
        Some(PhaseEvent::AssetsFailed)
    );
    assert_eq!(flow.state, GameState::AssetsFailed);
    assert_eq!(flow.step(FlowSignal::AssetsPolled { loaded: true, elapsed_ms: 1 }), None);
    assert_eq!(flow.state, GameState::AssetsFailed);
}

#[test]
fn assets_that_are_loaded_beat_the_deadline() {
    let mut flow = GameFlow::new(10);
    flow.step(FlowSignal::SplashShown);
    assert_eq!(flow.step(FlowSignal::AssetsPolled { loaded: true, elapsed_ms: 500 }), None);
    assert_eq!(flow.state, GameState::AssetsSetup);
}

#[test]
fn a_signal_out_of_turn_changes_nothing() {
    let waited_for = |state: GameState, signal: FlowSignal| {
        matches!(
            (state, signal),
            (GameState::Splash, FlowSignal::SplashShown)
                | (GameState::AssetsLoading, FlowSignal::AssetsPolled { .. })
                | (GameState::AssetsSetup, FlowSignal::AssetsArranged { .. })
                | (GameState::Combat, FlowSignal::CombatArranged)
                | (GameState::CombatTurns, FlowSignal::CombatFinished)
                | (GameState::CombatEnded, FlowSignal::SceneClosed)
                | (GameState::InteractiveFiction, FlowSignal::DialogFinished)
        )
    };
    for state in STATES {
        for signal in SIGNALS {
            let mut flow = flow_at(state);
            let event = flow.step(signal);
            if !waited_for(state, signal) {
                assert_eq!(flow, flow_at(state));
                assert_eq!(event, None);
            } else if !matches!(signal, FlowSignal::AssetsPolled { loaded: false, .. }) {
                assert_ne!(flow.state, state);
            }
        }
    }
}

#[test]
fn terminal_phases_are_never_left() {
    for state in [GameState::AssetsFailed, GameState::TheEnd] {
        for signal in SIGNALS {
            let mut flow = flow_at(state);
            assert_eq!(flow.step(signal), None);
            assert_eq!(flow.state, state);
        }
    }
}
