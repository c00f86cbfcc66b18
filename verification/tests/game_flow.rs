use mantis_shooter::rules::{
    CursorChange, EnemyState, GameState, Phase, COUNTDOWN_FRAMES, DEATH_TOTAL_FRAMES, ENEMY_HP,
    FIRST_ACTION_FRAMES, INITIAL_SEED, PLAYER_HP,
};

fn started() -> GameState {
    let mut g = GameState::new();
    g.start_game();
    g
}

#[test]
fn new_game_is_on_start_screen() {
    let g = GameState::new();
    assert!(!g.started && !g.paused && !g.game_over && !g.dev_mode);
    assert!(g.cursor_shown);
    assert_eq!(g.rng.state, INITIAL_SEED);
    assert_eq!(g.player.hp, PLAYER_HP);
    assert_eq!(g.player.max_hp, PLAYER_HP);
    assert_eq!(g.score, 0);
    assert!(g.enemies.is_empty());
}

#[test]
fn start_game_adds_two_enemies_and_countdown() {
    let g = started();
    assert!(g.started);
    assert_eq!(g.enemies.len(), 2);
    for e in &g.enemies {
        assert_eq!(*e, EnemyState::new());
        assert_eq!(e.hp, ENEMY_HP);
        assert_eq!(e.action_timer, FIRST_ACTION_FRAMES);
    }
    assert_eq!(g.countdown, COUNTDOWN_FRAMES);
    assert!(!g.cursor_shown);
    assert!(!g.pickup_active);
    assert_eq!(g.pickup_timer, 0);
}

#[test]
fn developer_mode_skips_countdown() {
    let mut g = GameState::new();
    g.dev_mode = true;
    g.start_game();
    assert_eq!(g.countdown, 0);
}

#[test]
fn reset_restarts_play_keeping_generator() {
    let mut g = GameState::new();
    g.start_from_menu(true);
    g.score = 7;
    g.paused = true;
    g.game_over = true;
    g.player.hp = 0;
    g.player.dying = true;
    g.rng.next_u32();
    let state = g.rng.state;
    g.reset();
    assert_eq!(g.rng.state, state);
    assert!(g.started);
    assert!(!g.paused && !g.game_over && !g.dev_mode && !g.cursor_shown);
    assert_eq!(g.countdown, COUNTDOWN_FRAMES);
    assert_eq!(g.score, 0);
    assert_eq!(g.player.hp, PLAYER_HP);
    assert!(!g.player.dying);
    assert_eq!(g.enemies, vec![EnemyState::new(), EnemyState::new()]);
}

#[test]
fn exit_request_is_kept_until_a_new_game() {
    let mut g = started();
    assert!(!g.exit_requested);
    g.score = 3;
    g.request_exit();
    assert!(g.exit_requested);
    assert_eq!(g.score, 3);
    assert!(g.started);
    g.reset();
    assert!(!g.exit_requested);
    assert!(!GameState::new().exit_requested);
}

#[test]
fn start_from_menu_sets_developer_mode() {
    let mut g = GameState::new();
    g.start_from_menu(true);
    assert!(g.started && g.dev_mode);
    assert_eq!(g.countdown, 0);
    assert_eq!(g.enemies.len(), 2);
    let mut h = GameState::new();
    h.start_from_menu(false);
    assert!(h.started && !h.dev_mode);
    assert_eq!(h.countdown, COUNTDOWN_FRAMES);
}

#[test]
fn start_screen_waits() {
    let mut g = GameState::new();
    let fs = g.begin_frame(true);
    assert_eq!(fs.phase, Phase::Waiting);
    assert_eq!(fs.cursor, CursorChange::Keep);
    assert!(g.last_escape);
    assert!(!g.paused);
}

#[test]
fn countdown_then_play() {
    let mut g = started();
    for i in 0..COUNTDOWN_FRAMES {
        let fs = g.begin_frame(false);
        assert_eq!(fs.phase, Phase::Countdown);
        assert_eq!(g.countdown, COUNTDOWN_FRAMES - i - 1);
    }
    assert_eq!(g.begin_frame(false).phase, Phase::Playing);
}

#[test]
fn escape_press_pauses_once_and_release_press_resumes() {
    let mut g = started();
    g.countdown = 0;
    let fs = g.begin_frame(true);
    assert_eq!(fs, mantis_shooter::rules::FrameStart { phase: Phase::Paused, cursor: CursorChange::Show });
    assert!(g.cursor_shown);
    for _ in 0..10 {
        let fs = g.begin_frame(true);
        assert_eq!(fs.phase, Phase::Paused);
        assert_eq!(fs.cursor, CursorChange::Keep);
    }
    assert_eq!(g.begin_frame(false).phase, Phase::Paused);
    let fs = g.begin_frame(true);
    assert_eq!(fs.phase, Phase::Playing);
    assert_eq!(fs.cursor, CursorChange::Hide);
    assert!(!g.paused);
    assert!(!g.cursor_shown);
}

#[test]
fn no_pause_while_dying_and_game_over_after_death_animation() {
    let mut g = started();
    g.countdown = 0;
    g.player.hp = 0;
    g.player.dying = true;
    g.player.death_anim = 0;
    for i in 0..DEATH_TOTAL_FRAMES {
        let fs = g.begin_frame(i % 2 == 0);
        assert_eq!(fs.phase, Phase::Dying);
        assert!(!g.paused);
    }
    assert!(g.game_over);
    assert_eq!(g.player.death_anim, DEATH_TOTAL_FRAMES);
    let fs = g.begin_frame(false);
    assert_eq!(fs.phase, Phase::GameOver);
    assert_eq!(fs.cursor, CursorChange::Show);
    assert!(g.cursor_shown);
    let fs = g.begin_frame(true);
    assert_eq!(fs.phase, Phase::GameOver);
    assert_eq!(fs.cursor, CursorChange::Keep);
    assert!(!g.paused);
}
