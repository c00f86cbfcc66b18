use vstd::prelude::*;
use crate::rng::Rng;
use crate::ai::{EnemyAction, action_table};
use crate::melee::{MeleeState, melee_of, MELEE_FRAMES};
use crate::spray::{SprayState, spray_of};

verus! {

/// Hit points the player starts with.
pub const PLAYER_HP: i32 = 500;
/// Hit points an enemy starts with.
pub const ENEMY_HP: i32 = 100;
/// Damage of a player's bullet hitting an enemy's body.
pub const BODY_DAMAGE: i32 = 20;
/// Damage of a player's bullet hitting an enemy's head.
pub const HEAD_DAMAGE: i32 = 80;
/// Damage of an enemy bullet hitting the player.
pub const ENEMY_DAMAGE: i32 = 10;
/// Damage of a melee blow, either way.
pub const MELEE_DAMAGE: i32 = 50;
/// Frames the player flashes red after being hit.
pub const HIT_FLASH_FRAMES: u32 = 10;
/// Frames a character flashes green after picking up health.
pub const HEAL_FLASH_FRAMES: u32 = 10;
/// Length of the countdown before play, in seconds.
pub const COUNTDOWN_SECONDS: u32 = 3;
/// Length of the countdown before play, in frames.
pub const COUNTDOWN_FRAMES: u32 = COUNTDOWN_SECONDS * 60;
/// Hit points restored by a health pickup.
pub const HEALTH_PICKUP_AMOUNT: i32 = 100;
/// Shortest delay before a new health pickup appears, in frames.
pub const HEALTH_SPAWN_MIN: u32 = 30 * 60;
/// Longest delay before a new health pickup appears, in frames.
pub const HEALTH_SPAWN_MAX: u32 = 60 * 60;
/// Frames a dead enemy waits before it respawns.
pub const RESPAWN_FRAMES: u32 = 120;
/// Frames of the backward fall of a dying character.
pub const DEATH_FALL_FRAMES: u32 = 30;
/// Frames a dead character lies on the ground.
pub const DEATH_LAY_FRAMES: u32 = 60;
/// Frames of the whole death animation.
pub const DEATH_TOTAL_FRAMES: u32 = DEATH_FALL_FRAMES + DEATH_LAY_FRAMES;
/// Frames an enemy keeps its first action after spawning.
pub const FIRST_ACTION_FRAMES: u32 = 30;
/// Seed of the generator of a new game.
pub const INITIAL_SEED: u32 = 12345;

/// The player's hit points, flashes, death animation and weapon timers.
#[derive(Clone, Copy, Debug, PartialEq, Eq, Structural)]
pub struct PlayerState {
    pub hp: i32,
    pub max_hp: i32,
    pub hit_flash: u32,
    pub heal_flash: u32,
    pub dying: bool,
    pub death_anim: u32,
    pub melee: MeleeState,
    pub spray: SprayState,
}

/// An enemy's hit points, life cycle, current action and weapon timers.
#[derive(Clone, Copy, Debug, PartialEq, Eq, Structural)]
pub struct EnemyState {
    pub hp: i32,
    pub max_hp: i32,
    pub alive: bool,
    pub dying: bool,
    pub death_anim: u32,
    pub death_timer: u32,
    pub action: EnemyAction,
    pub action_timer: u32,
    pub heal_flash: u32,
    pub melee: MeleeState,
    pub spray: SprayState,
}

/// What the rest of a frame does after the start of the frame.
#[derive(Clone, Copy, Debug, PartialEq, Eq, Structural)]
pub enum Phase {
    /// The start screen is up.
    Waiting,
    /// The pause menu is up.
    Paused,
    /// The game-over screen is up.
    GameOver,
    /// The player's death animation plays; no input is taken.
    Dying,
    /// The countdown runs; only the camera moves.
    Countdown,
    /// Normal play.
    Playing,
}

/// Whether the mouse cursor is to be shown or hidden.
#[derive(Clone, Copy, Debug, PartialEq, Eq, Structural)]
pub enum CursorChange {
    Keep,
    Show,
    Hide,
}

#[derive(Clone, Copy, Debug, PartialEq, Eq, Structural)]
pub struct FrameStart {
    pub phase: Phase,
    pub cursor: CursorChange,
}

/// The integer and boolean state of a game: menus, countdown, score, the
/// generator, the health pickup, the player and the enemies.
pub struct GameState {
    pub started: bool,
    pub exit_requested: bool,
    pub paused: bool,
    pub game_over: bool,
    pub dev_mode: bool,
    pub cursor_shown: bool,
    pub last_escape: bool,
    pub countdown: u32,
    pub score: u32,
    pub rng: Rng,
    pub pickup_active: bool,
    pub pickup_timer: u32,
    pub player: PlayerState,
    pub enemies: Vec<EnemyState>,
}

/// The mathematical value of a game state: its flags and counters, the
/// generator's state, the player and the sequence of enemies.
pub ghost struct GameModel {
    pub started: bool,
    pub exit_requested: bool,
    pub paused: bool,
    pub game_over: bool,
    pub dev_mode: bool,
    pub cursor_shown: bool,
    pub last_escape: bool,
    pub countdown: u32,
    pub score: u32,
    pub rng: u32,
    pub pickup_active: bool,
    pub pickup_timer: u32,
    pub player: PlayerState,
    pub enemies: Seq<EnemyState>,
}

impl View for GameState {
    type V = GameModel;

    open spec fn view(&self) -> GameModel {
        GameModel {
            started: self.started,
            exit_requested: self.exit_requested,
            paused: self.paused,
            game_over: self.game_over,
            dev_mode: self.dev_mode,
            cursor_shown: self.cursor_shown,
            last_escape: self.last_escape,
            countdown: self.countdown,
            score: self.score,
            rng: self.rng.state,
            pickup_active: self.pickup_active,
            pickup_timer: self.pickup_timer,
            player: self.player,
            enemies: self.enemies@,
        }
    }
}

/// The invariant of a game state, on its value.
pub open spec fn model_wf(m: GameModel) -> bool {
    &&& player_wf(m.player)
    &&& m.player.dying && !m.game_over ==> m.player.death_anim < DEATH_TOTAL_FRAMES
    &&& forall|i: int| 0 <= i < m.enemies.len() ==> enemy_wf(#[trigger] m.enemies[i])
}

pub open spec fn fresh_player() -> PlayerState {
    PlayerState {
        hp: PLAYER_HP,
        max_hp: PLAYER_HP,
        hit_flash: 0,
        heal_flash: 0,
        dying: false,
        death_anim: 0,
        melee: melee_of(0, 0, false),
        spray: spray_of(0, 0),
    }
}

pub open spec fn fresh_enemy() -> EnemyState {
    EnemyState {
        hp: ENEMY_HP,
        max_hp: ENEMY_HP,
        alive: true,
        dying: false,
        death_anim: 0,
        death_timer: 0,
        action: action_table(0),
        action_timer: FIRST_ACTION_FRAMES,
        heal_flash: 0,
        melee: melee_of(0, 0, false),
        spray: spray_of(0, 0),
    }
}

pub open spec fn player_wf(p: PlayerState) -> bool {
    &&& p.max_hp == PLAYER_HP
    &&& p.hp <= p.max_hp
    &&& !p.dying ==> p.hp > 0
    &&& p.death_anim <= DEATH_TOTAL_FRAMES
}

pub open spec fn enemy_wf(e: EnemyState) -> bool {
    &&& e.max_hp == ENEMY_HP
    &&& e.hp <= e.max_hp
    &&& e.alive && !e.dying ==> e.hp > 0
    &&& e.dying ==> e.alive
    &&& e.dying ==> e.death_anim < DEATH_TOTAL_FRAMES
}

/// An enemy that acts and can be hit: alive and not playing its death.
pub open spec fn enemy_active(e: EnemyState) -> bool {
    e.alive && !e.dying
}

impl PlayerState {
    pub fn new() -> (p: PlayerState)
        ensures
            p == fresh_player(),
    {
        PlayerState {
            hp: PLAYER_HP,
            max_hp: PLAYER_HP,
            hit_flash: 0,
            heal_flash: 0,
            dying: false,
            death_anim: 0,
            melee: MeleeState::new(),
            spray: SprayState::new(),
        }
    }
}

impl EnemyState {
    pub fn new() -> (e: EnemyState)
        ensures
            e == fresh_enemy(),
    {
        EnemyState {
            hp: ENEMY_HP,
            max_hp: ENEMY_HP,
            alive: true,
            dying: false,
            death_anim: 0,
            death_timer: 0,
            action: EnemyAction::idle(),
            action_timer: FIRST_ACTION_FRAMES,
            heal_flash: 0,
            melee: MeleeState::new(),
            spray: SprayState::new(),
        }
    }

    /// Alive and not playing its death animation.
    pub fn is_active(&self) -> (b: bool)
        ensures
            b == enemy_active(*self),
    {
        self.alive && !self.dying
    }
}

impl GameState {
    pub open spec fn wf(&self) -> bool {
        &&& player_wf(self.player)
        &&& self.player.dying && !self.game_over ==> self.player.death_anim < DEATH_TOTAL_FRAMES
        &&& forall|i: int| 0 <= i < self.enemies@.len() ==> enemy_wf(#[trigger] self.enemies@[i])
    }

    /// The state of a new game before it starts, whatever its generator.
    pub open spec fn is_new(&self) -> bool {
        &&& !self.started
        &&& !self.exit_requested
        &&& !self.paused
        &&& !self.game_over
        &&& !self.dev_mode
        &&& self.cursor_shown
        &&& !self.last_escape
        &&& self.countdown == 0
        &&& self.score == 0
        &&& !self.pickup_active
        &&& self.pickup_timer == 0
        &&& self.player == fresh_player()
        &&& self.enemies@.len() == 0
    }

    /// A new game on the start screen, with the generator at its fixed seed.
    pub fn new() -> (s: GameState)
        ensures
            s.is_new(),
            s.rng.state == INITIAL_SEED,
            s.wf(),
    {
        GameState {
            started: false,
            exit_requested: false,
            paused: false,
            game_over: false,
            dev_mode: false,
            cursor_shown: true,
            last_escape: false,
            countdown: 0,
            score: 0,
            rng: Rng::new(INITIAL_SEED),
            pickup_active: false,
            pickup_timer: 0,
            player: PlayerState::new(),
            enemies: Vec::new(),
        }
    }

    /// A game just started by a restart: play begins with the countdown,
    /// two fresh enemies, a fresh player, no score and developer mode off.
    pub open spec fn is_restarted(&self) -> bool {
        &&& self.started
        &&& !self.exit_requested
        &&& !self.paused
        &&& !self.game_over
        &&& !self.dev_mode
        &&& !self.cursor_shown
        &&& !self.last_escape
        &&& self.countdown == COUNTDOWN_FRAMES
        &&& self.score == 0
        &&& !self.pickup_active
        &&& self.pickup_timer == 0
        &&& self.player == fresh_player()
        &&& self.enemies@ == seq![fresh_enemy(), fresh_enemy()]
    }

    /// Restarts play: the game is replaced by a new one that keeps the
    /// generator where it is (so that the next layout differs from the last
    /// one), and that game is started at once, without developer mode.
    pub fn reset(&mut self)
        ensures
            final(self).is_restarted(),
            final(self).rng == old(self).rng,
            final(self).wf(),
    {
        let rng = self.rng;
        *self = GameState::new();
        self.rng = rng;
        self.start_game();
        assert(self.enemies@ =~= seq![fresh_enemy(), fresh_enemy()]);
    }

    /// The player asked to leave the program (from the pause menu or the game
    /// over screen); nothing else changes.
    pub fn request_exit(&mut self)
        ensures
            *final(self) == (GameState { exit_requested: true, ..*old(self) }),
    {
        self.exit_requested = true;
    }

    /// Starts the game from the start screen, in developer mode when
    /// `developer` holds (no countdown, enemies never shoot or swing).
    pub fn start_from_menu(&mut self, developer: bool)
        requires
            old(self).wf(),
            old(self).enemies@.len() + 2 <= usize::MAX,
        ensures
            final(self).wf(),
            final(self).enemies@ == old(self).enemies@ + seq![fresh_enemy(), fresh_enemy()],
            *final(self) == (GameState {
                started: true,
                dev_mode: developer,
                countdown: if developer { 0 } else { COUNTDOWN_FRAMES },
                cursor_shown: false,
                pickup_active: false,
                pickup_timer: 0,
                enemies: final(self).enemies,
                ..*old(self)
            }),
    {
        self.dev_mode = developer;
        self.start_game();
    }

    /// Reloading starts the player's spray pattern over.
    pub fn player_reload(&mut self)
        requires
            old(self).wf(),
        ensures
            final(self)@ == crate::frame::player_reload_model(old(self)@),
            final(self).wf(),
            *final(self) == (GameState {
                player: PlayerState { spray: spray_of(0, old(self).player.spray.reset_timer), ..old(self).player },
                ..*old(self)
            }),
    {
        self.player.spray.restart();
    }

    /// The player starts a melee swing when `wanted` and the melee attack is
    /// ready; returns whether it started.
    pub fn player_try_melee(&mut self, wanted: bool) -> (started: bool)
        requires
            old(self).wf(),
        ensures
            final(self)@ == crate::frame::player_try_melee_model(old(self)@, wanted),
            final(self).wf(),
            started == (wanted && old(self).player.melee.timer == 0 && old(self).player.melee.cooldown == 0),
            *final(self) == (GameState {
                player: PlayerState {
                    melee: if started { melee_of(MELEE_FRAMES, 0, false) } else { old(self).player.melee },
                    ..old(self).player
                },
                ..*old(self)
            }),
    {
        self.player.melee.try_start(wanted)
    }

    /// Enemy `i` starts a melee swing when `wanted` and its melee attack is
    /// ready; returns whether it started.
    pub fn enemy_try_melee(&mut self, i: usize, wanted: bool) -> (started: bool)
        requires
            old(self).wf(),
            i < old(self).enemies@.len(),
        ensures
            final(self)@ == crate::frame::enemy_try_melee_model(old(self)@, i as int, wanted),
            final(self).wf(),
            ({
                let e = old(self).enemies@[i as int];
                &&& started == (wanted && e.melee.timer == 0 && e.melee.cooldown == 0)
                &&& final(self).enemies@ == old(self).enemies@.update(
                    i as int,
                    EnemyState { melee: if started { melee_of(MELEE_FRAMES, 0, false) } else { e.melee }, ..e },
                )
            }),
            *final(self) == (GameState { enemies: final(self).enemies, ..*old(self) }),
    {
        let mut e = self.enemies[i];
        let started = e.melee.try_start(wanted);
        self.enemies.set(i, e);
        proof {
            if !started {
                assert(self.enemies@ =~= old(self).enemies@);
            }
        }
        assert forall|j: int| 0 <= j < self.enemies@.len() implies enemy_wf(#[trigger] self.enemies@[j]) by {
            assert(enemy_wf(old(self).enemies@[j]));
        }
        started
    }

    /// Starts the game: two enemies join, the first health pickup is due at
    /// once, the countdown starts (none in developer mode) and the cursor is
    /// hidden.
    pub fn start_game(&mut self)
        requires
            old(self).wf(),
            old(self).enemies@.len() + 2 <= usize::MAX,
        ensures
            final(self).wf(),
            final(self).enemies@ == old(self).enemies@ + seq![fresh_enemy(), fresh_enemy()],
            *final(self) == (GameState {
                started: true,
                countdown: if old(self).dev_mode { 0 } else { COUNTDOWN_FRAMES },
                cursor_shown: false,
                pickup_active: false,
                pickup_timer: 0,
                enemies: final(self).enemies,
                ..*old(self)
            }),
    {
        self.enemies.push(EnemyState::new());
        self.enemies.push(EnemyState::new());
        self.pickup_timer = 0;
        self.pickup_active = false;
        self.started = true;
        self.countdown = if self.dev_mode { 0 } else { COUNTDOWN_FRAMES };
        self.cursor_shown = false;
        assert(self.enemies@ =~= old(self).enemies@ + seq![fresh_enemy(), fresh_enemy()]);
    }
}


/// The start of a frame, given whether Escape is held: the start screen,
/// the pause toggle on Escape's rising edge (not during game over or the
/// player's death), the pause menu, the game-over screen, the player's death
/// animation, the countdown, or play.
pub open spec fn begin_frame_spec(s: GameState, escape: bool) -> (GameState, FrameStart) {
    if !s.started {
        (GameState { last_escape: escape, ..s }, FrameStart { phase: Phase::Waiting, cursor: CursorChange::Keep })
    } else {
        let toggle = escape && !s.last_escape && !s.game_over && !s.player.dying;
        let paused = if toggle { !s.paused } else { s.paused };
        let cursor = if !toggle { CursorChange::Keep } else if paused { CursorChange::Show } else { CursorChange::Hide };
        let s1 = GameState {
            last_escape: escape,
            paused: paused,
            cursor_shown: if toggle { paused } else { s.cursor_shown },
            ..s
        };
        if paused {
            (s1, FrameStart { phase: Phase::Paused, cursor })
        } else if s.game_over {
            if !s1.cursor_shown {
                (GameState { cursor_shown: true, ..s1 }, FrameStart { phase: Phase::GameOver, cursor: CursorChange::Show })
            } else {
                (s1, FrameStart { phase: Phase::GameOver, cursor })
            }
        } else if s.player.dying {
            let anim = (s.player.death_anim + 1) as u32;
            (
                GameState {
                    player: PlayerState { death_anim: anim, ..s.player },
                    game_over: anim >= DEATH_TOTAL_FRAMES,
                    ..s1
                },
                FrameStart { phase: Phase::Dying, cursor },
            )
        } else if s.countdown > 0 {
            (GameState { countdown: (s.countdown - 1) as u32, ..s1 }, FrameStart { phase: Phase::Countdown, cursor })
        } else {
            (s1, FrameStart { phase: Phase::Playing, cursor })
        }
    }
}

impl GameState {
    /// Opens a frame given whether Escape is held; see `begin_frame_spec`.
    pub fn begin_frame(&mut self, escape: bool) -> (fs: FrameStart)
        requires
            old(self).wf(),
        ensures
            (*final(self), fs) == begin_frame_spec(*old(self), escape),
            final(self).wf(),
    {
        if !self.started {
            self.last_escape = escape;
            return FrameStart { phase: Phase::Waiting, cursor: CursorChange::Keep };
        }
        let pressed = escape && !self.last_escape;
        self.last_escape = escape;
        let mut cursor = CursorChange::Keep;
        if pressed && !self.game_over && !self.player.dying {
            self.paused = !self.paused;
            if self.paused {
                cursor = CursorChange::Show;
                self.cursor_shown = true;
            } else {
                cursor = CursorChange::Hide;
                self.cursor_shown = false;
            }
        }
        if self.paused {
            return FrameStart { phase: Phase::Paused, cursor };
        }
        if self.game_over {
            if !self.cursor_shown {
                self.cursor_shown = true;
                cursor = CursorChange::Show;
            }
            return FrameStart { phase: Phase::GameOver, cursor };
        }
        if self.player.dying {
            self.player.death_anim = self.player.death_anim + 1;
            if self.player.death_anim >= DEATH_TOTAL_FRAMES {
                self.game_over = true;
            }
            return FrameStart { phase: Phase::Dying, cursor };
        }
        if self.countdown > 0 {
            self.countdown = self.countdown - 1;
            return FrameStart { phase: Phase::Countdown, cursor };
        }
        FrameStart { phase: Phase::Playing, cursor }
    }
}


/// The state after `n` frame starts with Escape held (or released)
/// throughout.
pub open spec fn begin_frames(s: GameState, escape: bool, n: nat) -> GameState
    decreases n,
{
    if n == 0 {
        s
    } else {
        begin_frames(begin_frame_spec(s, escape).0, escape, (n - 1) as nat)
    }
}

/// The state after one frame start per entry of `escapes`, the i-th with
/// Escape held as `escapes[i]`.
pub open spec fn begin_frames_seq(s: GameState, escapes: Seq<bool>) -> GameState
    decreases escapes.len(),
{
    if escapes.len() == 0 {
        s
    } else {
        begin_frames_seq(begin_frame_spec(s, escapes[0]).0, escapes.drop_first())
    }
}

/// Once the player starts dying, the death animation plays for exactly
/// DEATH_TOTAL_FRAMES frames whatever keys are pressed (Escape cannot pause
/// it), and then the game is over. Each of these frames only advances the
/// animation and records the Escape key; nothing else of the game changes.
pub proof fn lemma_death_animation_length(s: GameState, escapes: Seq<bool>)
    requires
        s.wf(),
        s.started,
        !s.paused,
        !s.game_over,
        s.player.dying,
        escapes.len() <= DEATH_TOTAL_FRAMES - s.player.death_anim,
    ensures
        ({
            let n = escapes.len();
            let r = begin_frames_seq(s, escapes);
            &&& r == (GameState {
                last_escape: if n == 0 { s.last_escape } else { escapes.last() },
                game_over: n == DEATH_TOTAL_FRAMES - s.player.death_anim,
                player: PlayerState { death_anim: (s.player.death_anim + n) as u32, ..s.player },
                ..s
            })
            &&& n > 0 ==> begin_frame_spec(begin_frames_seq(s, escapes.drop_last()), escapes.last()).1
                == (FrameStart { phase: Phase::Dying, cursor: CursorChange::Keep })
        }),
    decreases escapes.len(),
{
    if escapes.len() > 0 {
        let s1 = begin_frame_spec(s, escapes[0]).0;
        let rest = escapes.drop_first();
        if escapes.len() > 1 {
            lemma_death_animation_length(s1, rest);
            assert(rest.last() == escapes.last());
            assert(escapes.drop_last().drop_first() =~= rest.drop_last());
            assert(escapes.drop_last()[0] == escapes[0]);
            assert(begin_frames_seq(s, escapes.drop_last()) == begin_frames_seq(s1, rest.drop_last()));
        } else {
            assert(rest.len() == 0);
            assert(begin_frames_seq(s1, rest) == s1);
            assert(escapes.drop_last().len() == 0);
            assert(begin_frames_seq(s, escapes.drop_last()) == s);
        }
    }
}

/// After the game is over, every frame start shows the game-over screen and
/// changes nothing but the recorded Escape key and the cursor, which is
/// shown; Escape cannot pause the game.
pub proof fn lemma_game_over_is_final(s: GameState, escapes: Seq<bool>)
    requires
        s.started,
        !s.paused,
        s.game_over,
    ensures
        ({
            let n = escapes.len();
            let r = begin_frames_seq(s, escapes);
            &&& r == (GameState {
                last_escape: if n == 0 { s.last_escape } else { escapes.last() },
                cursor_shown: if n == 0 { s.cursor_shown } else { true },
                ..s
            })
        }),
        forall|e: bool| (#[trigger] begin_frame_spec(s, e)).1.phase == Phase::GameOver,
    decreases escapes.len(),
{
    if escapes.len() > 0 {
        let s1 = begin_frame_spec(s, escapes[0]).0;
        let rest = escapes.drop_first();
        lemma_game_over_is_final(s1, rest);
        if escapes.len() > 1 {
            assert(rest.last() == escapes.last());
        } else {
            assert(begin_frames_seq(s1, rest) == s1);
        }
    }
}

/// A frame starting paused with Escape still held changes nothing.
proof fn lemma_paused_hold_is_still(s: GameState, n: nat)
    requires
        s.started,
        s.paused,
        s.last_escape,
    ensures
        begin_frames(s, true, n) == s,
    decreases n,
{
    if n > 0 {
        assert(begin_frame_spec(s, true).0 == s);
        lemma_paused_hold_is_still(s, (n - 1) as nat);
    }
}

/// Pressing Escape during play pauses the game once: holding it down for any
/// number of further frames keeps the game paused.
pub proof fn lemma_pause_toggles_once_per_press(s: GameState, n: nat)
    requires
        s.started,
        !s.paused,
        !s.game_over,
        !s.player.dying,
        !s.last_escape,
        n >= 1,
    ensures
        begin_frames(s, true, n).paused,
        begin_frame_spec(s, true).1.cursor == CursorChange::Show,
{
    let s1 = begin_frame_spec(s, true).0;
    assert(s1.paused && s1.last_escape && s1.started);
    lemma_paused_hold_is_still(s1, (n - 1) as nat);
}

/// The countdown lasts exactly as many frames as it holds: after that many
/// frames it is over and the next frame is played.
pub proof fn lemma_countdown_length(s: GameState, escape: bool, n: nat)
    requires
        s.started,
        !s.paused,
        !s.game_over,
        !s.player.dying,
        s.last_escape == escape,
        n <= s.countdown,
    ensures
        begin_frames(s, escape, n).countdown == s.countdown - n,
        begin_frames(s, escape, n).started,
        !begin_frames(s, escape, n).paused,
        !begin_frames(s, escape, n).game_over,
        !begin_frames(s, escape, n).player.dying,
        begin_frames(s, escape, n).last_escape == escape,
        n == s.countdown ==> begin_frame_spec(begin_frames(s, escape, n), escape).1.phase == Phase::Playing,
    decreases n,
{
    if n > 0 {
        lemma_countdown_length(begin_frame_spec(s, escape).0, escape, (n - 1) as nat);
    }
}

/// A rising edge of Escape in a started game, with the player neither dying
/// nor at game over, flips the pause whatever the countdown: a paused game
/// resumes with the cursor hidden (and a running countdown goes on ticking),
/// and a running game pauses with the cursor shown.
pub proof fn lemma_escape_press_flips_pause(s: GameState)
    requires
        s.started,
        !s.last_escape,
        !s.game_over,
        !s.player.dying,
    ensures
        begin_frame_spec(s, true).0.paused == !s.paused,
        begin_frame_spec(s, true).0.last_escape,
        s.paused ==> begin_frame_spec(s, true).1.cursor == CursorChange::Hide
            && !begin_frame_spec(s, true).0.cursor_shown
            && begin_frame_spec(s, true).1.phase != Phase::Paused,
        s.paused && s.countdown > 0 ==> begin_frame_spec(s, true).1.phase == Phase::Countdown
            && begin_frame_spec(s, true).0.countdown == s.countdown - 1,
        !s.paused ==> begin_frame_spec(s, true).1.cursor == CursorChange::Show
            && begin_frame_spec(s, true).0.cursor_shown
            && begin_frame_spec(s, true).1.phase == Phase::Paused,
{
}

} // verus!
