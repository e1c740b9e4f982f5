use vstd::prelude::*;
use rand::Rng;
use crate::collision::{first_hit_of, first_overlap, hit_by_some, hits_are, resolve_hits};
use crate::consts::{
    BULLET_HALF_H, BULLET_SPEED, ENEMY_BULLET_HALF_H, ENEMY_BULLET_SPEED, ENEMY_FIRE_COOLDOWN_US,
    ENEMY_HALF_H, ENEMY_SPAWN_US, ENEMY_SPEED, FIRE_COOLDOWN_US, HALF_HEIGHT, MUZZLE_GAP,
    PATTERN_AMPLITUDE, PATTERN_PERIOD_US, PLAYER_RADIUS, PLAYER_START_X, PLAYER_START_Y, WAVE_SIZE,
};
use crate::entities::{
    bullet_box, enemy_box, enemy_bullet_box, player_box, Bullet, Enemy, EnemyBullet,
    EnemySpawnTimer, FireState, GameState, Player,
};
use crate::geometry::{clamp, Aabb};
use crate::motion::{enemy_x, enemy_x_limit, pattern_offset, pattern_offset_at, MotionKind};
use crate::player::{move_player, moved_player, MoveInput};
use crate::spawn::{pattern_for_wave, wave_pattern, wave_x, wave_x_at};
use crate::timer::{sat_add, Timer};

verus! {

/// `v` held inside the range of `i64`.
pub open spec fn sat_i64(v: int) -> i64 {
    if v > i64::MAX {
        i64::MAX
    } else if v < i64::MIN {
        i64::MIN
    } else {
        v as i64
    }
}

fn sat_i64_at(v: i128) -> (r: i64)
    ensures
        r == sat_i64(v as int),
{
    if v > i64::MAX as i128 {
        i64::MAX
    } else if v < i64::MIN as i128 {
        i64::MIN
    } else {
        v as i64
    }
}

/// Distance covered at `speed` in `dt` microseconds.
fn travel(speed: i64, dt: u32) -> (r: i128)
    requires
        0 <= speed <= 1000,
    ensures
        r == speed * dt,
{
    assert(speed * dt <= 1000 * (u32::MAX as int)) by (nonlinear_arith)
        requires 0 <= speed <= 1000, dt <= u32::MAX;
    assert(speed * dt >= 0) by (nonlinear_arith)
        requires 0 <= speed, dt >= 0;
    (speed as i128) * (dt as i128)
}

/// Height at which a wave appears: just above the top edge.
pub open spec fn wave_y() -> i64 {
    (HALF_HEIGHT + 2 * ENEMY_HALF_H) as i64
}

/// Offset from the player's center to a new bullet's center.
pub open spec fn player_muzzle() -> int {
    PLAYER_RADIUS + BULLET_HALF_H + MUZZLE_GAP
}

/// Offset from an enemy's center down to its new bullet's center.
pub open spec fn enemy_muzzle() -> int {
    ENEMY_HALF_H + ENEMY_BULLET_HALF_H + MUZZLE_GAP
}

/// What one frame hands the simulation: the time step and the keys.
#[derive(Clone, Copy, Debug, PartialEq, Eq, Structural)]
pub struct FrameInput {
    pub dt_us: u32,
    pub moves: MoveInput,
    pub fire_held: bool,
    pub fire_pressed: bool,
    pub restart_pressed: bool,
}

/// The whole simulation state, as values.
#[verifier::ext_equal]
pub struct Snapshot {
    pub state: GameState,
    pub player: Option<Player>,
    pub bullets: Seq<Bullet>,
    pub enemies: Seq<Enemy>,
    pub enemy_bullets: Seq<EnemyBullet>,
    pub fire: Timer,
    pub spawn: Timer,
    pub wave_index: u32,
    pub next_id: u64,
}

pub open spec fn reset_timer(t: Timer) -> Timer {
    Timer { elapsed: 0, just_finished: false, ..t }
}

pub open spec fn new_enemy(id: u64, x: i64, kind: MotionKind, jitter: u64) -> Enemy {
    Enemy {
        id,
        x,
        y: wave_y(),
        kind,
        base_x: x,
        t: 0,
        fire: Timer {
            duration: ENEMY_FIRE_COOLDOWN_US,
            elapsed: jitter,
            repeating: true,
            just_finished: false,
        },
    }
}

pub open spec fn moved_bullet(b: Bullet, dt: int) -> Bullet {
    Bullet { y: sat_i64(b.y + BULLET_SPEED * dt), ..b }
}

pub open spec fn moved_enemy_bullet(b: EnemyBullet, dt: int) -> EnemyBullet {
    EnemyBullet { y: sat_i64(b.y - ENEMY_BULLET_SPEED * dt), ..b }
}

/// An enemy after `dt`: older by `dt`, lower by its speed, and across at its
/// pattern's offset from its anchor.
pub open spec fn moved_enemy(e: Enemy, dt: u64) -> Enemy {
    let t = sat_add(e.t, dt);
    Enemy {
        t,
        y: sat_i64(e.y - ENEMY_SPEED * dt),
        x: clamp(
            e.base_x + pattern_offset(e.kind, PATTERN_AMPLITUDE as int, PATTERN_PERIOD_US as int, t as int),
            -enemy_x_limit(),
            enemy_x_limit(),
        ) as i64,
        ..e
    }
}

/// A player bullet has left through the top edge by more than its length.
pub open spec fn bullet_gone(b: Bullet) -> bool {
    b.y - 2 * BULLET_HALF_H > HALF_HEIGHT
}

/// An enemy has left through the bottom edge by more than its height.
pub open spec fn enemy_gone(e: Enemy) -> bool {
    e.y + 2 * ENEMY_HALF_H < -HALF_HEIGHT
}

/// An enemy bullet has left through the bottom edge by more than its length.
pub open spec fn enemy_bullet_gone(b: EnemyBullet) -> bool {
    b.y + 2 * ENEMY_BULLET_HALF_H < -HALF_HEIGHT
}

pub open spec fn bullet_boxes(s: Seq<Bullet>) -> Seq<Aabb> {
    s.map_values(|b: Bullet| bullet_box(b))
}

pub open spec fn enemy_boxes(s: Seq<Enemy>) -> Seq<Aabb> {
    s.map_values(|e: Enemy| enemy_box(e))
}

pub open spec fn enemy_bullet_boxes(s: Seq<EnemyBullet>) -> Seq<Aabb> {
    s.map_values(|b: EnemyBullet| enemy_bullet_box(b))
}

pub open spec fn player_hitbox(p: Option<Player>) -> Option<Aabb> {
    match p {
        Some(q) => Some(player_box(q)),
        None => None,
    }
}

/// The items of `s` whose flag in `dead` is false, in their order.
pub open spec fn kept<T>(s: Seq<T>, dead: Seq<bool>) -> Seq<T>
    decreases s.len(),
{
    if s.len() == 0 {
        Seq::empty()
    } else {
        let rest = kept(s.drop_last(), dead.take(s.len() - 1));
        if dead[s.len() - 1] {
            rest
        } else {
            rest.push(s.last())
        }
    }
}

pub open spec fn bullet_ids_below(s: Seq<Bullet>, bound: int) -> bool {
    &&& forall|i: int, j: int| 0 <= i < j < s.len() ==> (#[trigger] s[i]).id < (#[trigger] s[j]).id
    &&& forall|i: int| 0 <= i < s.len() ==> (#[trigger] s[i]).id < bound
}

pub open spec fn enemy_ids_below(s: Seq<Enemy>, bound: int) -> bool {
    &&& forall|i: int, j: int| 0 <= i < j < s.len() ==> (#[trigger] s[i]).id < (#[trigger] s[j]).id
    &&& forall|i: int| 0 <= i < s.len() ==> (#[trigger] s[i]).id < bound
}

pub open spec fn enemy_bullet_ids_below(s: Seq<EnemyBullet>, bound: int) -> bool {
    &&& forall|i: int, j: int| 0 <= i < j < s.len() ==> (#[trigger] s[i]).id < (#[trigger] s[j]).id
    &&& forall|i: int| 0 <= i < s.len() ==> (#[trigger] s[i]).id < bound
}

/// Positions in `dead` of the false flags, in order.
pub open spec fn kept_indices(dead: Seq<bool>) -> Seq<int>
    decreases dead.len(),
{
    if dead.len() == 0 {
        Seq::empty()
    } else {
        let rest = kept_indices(dead.drop_last());
        if dead.last() {
            rest
        } else {
            rest.push(dead.len() - 1)
        }
    }
}

impl Snapshot {
    pub open spec fn with_bullet(self, x: i64, y: i64) -> Snapshot {
        if self.next_id < u64::MAX {
            Snapshot {
                bullets: self.bullets.push(Bullet { id: self.next_id, x, y }),
                next_id: (self.next_id + 1) as u64,
                ..self
            }
        } else {
            self
        }
    }

    pub open spec fn with_enemy_bullet(self, x: i64, y: i64) -> Snapshot {
        if self.next_id < u64::MAX {
            Snapshot {
                enemy_bullets: self.enemy_bullets.push(EnemyBullet { id: self.next_id, x, y }),
                next_id: (self.next_id + 1) as u64,
                ..self
            }
        } else {
            self
        }
    }

    pub open spec fn with_enemy(self, x: i64, kind: MotionKind, jitter: u64) -> Snapshot {
        if self.next_id < u64::MAX {
            Snapshot {
                enemies: self.enemies.push(new_enemy(self.next_id, x, kind, jitter)),
                next_id: (self.next_id + 1) as u64,
                ..self
            }
        } else {
            self
        }
    }

    /// The first `n` enemies of a wave of `kind` added, each with its jitter.
    pub open spec fn with_wave(self, kind: MotionKind, jitters: Seq<u64>, n: nat) -> Snapshot
        decreases n,
    {
        if n == 0 {
            self
        } else {
            self.with_wave(kind, jitters, (n - 1) as nat).with_enemy(
                wave_x(n - 1, WAVE_SIZE as int) as i64,
                kind,
                jitters[n - 1],
            )
        }
    }

    pub open spec fn player_moved(self, inp: FrameInput) -> Snapshot {
        match self.player {
            Some(p) => Snapshot {
                player: Some(moved_player(p, inp.moves, inp.dt_us as int)),
                ..self
            },
            None => self,
        }
    }

    /// The fire timer ticks; a press, or a held key once the cooldown is
    /// over, fires a bullet from the player and restarts the cooldown.
    pub open spec fn player_fired(self, inp: FrameInput) -> Snapshot {
        let t = self.fire.after_tick(inp.dt_us as u64);
        match self.player {
            Some(p) => if inp.fire_pressed || (inp.fire_held && t.just_finished) {
                Snapshot {
                    fire: reset_timer(t),
                    ..self.with_bullet(p.x, sat_i64(p.y + player_muzzle()))
                }
            } else {
                Snapshot { fire: t, ..self }
            },
            None => Snapshot { fire: t, ..self },
        }
    }

    /// The wave timer ticks; when it finishes, a wave of the next pattern
    /// appears and the timer restarts.
    pub open spec fn waves_spawned(self, inp: FrameInput, jitters: Seq<u64>) -> Snapshot {
        let t = self.spawn.after_tick(inp.dt_us as u64);
        if t.just_finished {
            Snapshot {
                spawn: reset_timer(t),
                wave_index: if self.wave_index == u32::MAX {
                    0
                } else {
                    (self.wave_index + 1) as u32
                },
                ..self.with_wave(wave_pattern(self.wave_index), jitters, WAVE_SIZE as nat)
            }
        } else {
            Snapshot { spawn: t, ..self }
        }
    }

    pub open spec fn bodies_moved(self, inp: FrameInput) -> Snapshot {
        Snapshot {
            bullets: self.bullets.map_values(|b: Bullet| moved_bullet(b, inp.dt_us as int)),
            enemies: self.enemies.map_values(|e: Enemy| moved_enemy(e, inp.dt_us as u64)),
            ..self
        }
    }

    /// Enemy `i`'s fire timer ticks; when it finishes, the enemy fires
    /// downward and the timer restarts.
    pub open spec fn enemy_fired(self, dt: u64, i: int) -> Snapshot {
        let e = self.enemies[i];
        let t = e.fire.after_tick(dt);
        if t.just_finished {
            Snapshot {
                enemies: self.enemies.update(i, Enemy { fire: reset_timer(t), ..e }),
                ..self
            }.with_enemy_bullet(e.x, sat_i64(e.y - enemy_muzzle()))
        } else {
            Snapshot { enemies: self.enemies.update(i, Enemy { fire: t, ..e }), ..self }
        }
    }

    /// The first `n` enemies fired, in order.
    pub open spec fn enemies_fired(self, dt: u64, n: nat) -> Snapshot
        decreases n,
    {
        if n == 0 {
            self
        } else {
            self.enemies_fired(dt, (n - 1) as nat).enemy_fired(dt, n - 1)
        }
    }

    pub open spec fn enemy_bullets_moved(self, inp: FrameInput) -> Snapshot {
        Snapshot {
            enemy_bullets: self.enemy_bullets.map_values(
                |b: EnemyBullet| moved_enemy_bullet(b, inp.dt_us as int),
            ),
            ..self
        }
    }

    /// Whether the player touches an enemy or an enemy bullet.
    pub open spec fn player_hit(self) -> bool {
        first_hit_of(player_hitbox(self.player), enemy_boxes(self.enemies)).is_some()
            || first_hit_of(player_hitbox(self.player), enemy_bullet_boxes(self.enemy_bullets)).is_some()
    }

    pub open spec fn bullet_dead(self, i: int) -> bool {
        first_overlap(bullet_box(self.bullets[i]), enemy_boxes(self.enemies)).is_some()
            || bullet_gone(self.bullets[i])
    }

    pub open spec fn enemy_dead(self, j: int) -> bool {
        hit_by_some(bullet_boxes(self.bullets), enemy_boxes(self.enemies), j)
            || first_hit_of(player_hitbox(self.player), enemy_boxes(self.enemies)) == Some(j)
            || enemy_gone(self.enemies[j])
    }

    pub open spec fn enemy_bullet_dead(self, k: int) -> bool {
        first_hit_of(player_hitbox(self.player), enemy_bullet_boxes(self.enemy_bullets)) == Some(k)
            || enemy_bullet_gone(self.enemy_bullets[k])
    }

    /// The three collision checks on one snapshot, then every removal they
    /// ask for, and those of bodies off screen, at once; a hit player ends
    /// the game.
    pub open spec fn collided(self) -> Snapshot {
        let hit = self.player_hit();
        Snapshot {
            state: if hit { GameState::GameOver } else { self.state },
            player: if hit { None } else { self.player },
            bullets: kept(self.bullets, Seq::new(self.bullets.len(), |i: int| self.bullet_dead(i))),
            enemies: kept(self.enemies, Seq::new(self.enemies.len(), |j: int| self.enemy_dead(j))),
            enemy_bullets: kept(
                self.enemy_bullets,
                Seq::new(self.enemy_bullets.len(), |k: int| self.enemy_bullet_dead(k)),
            ),
            ..self
        }
    }

    /// One frame of play, in its fixed order.
    pub open spec fn played(self, inp: FrameInput, jitters: Seq<u64>) -> Snapshot {
        let a = self.player_moved(inp).player_fired(inp).waves_spawned(inp, jitters).bodies_moved(inp);
        let b = a.enemies_fired(inp.dt_us as u64, a.enemies.len()).enemy_bullets_moved(inp);
        b.collided()
    }

    /// A new round: no bodies, the player back at the start, the fire
    /// cooldown primed and the wave timer restarted.
    pub open spec fn restarted(self) -> Snapshot {
        Snapshot {
            state: GameState::Playing,
            player: Some(Player { x: PLAYER_START_X, y: PLAYER_START_Y }),
            bullets: Seq::empty(),
            enemies: Seq::empty(),
            enemy_bullets: Seq::empty(),
            fire: Timer { elapsed: self.fire.duration, just_finished: false, ..self.fire },
            spawn: reset_timer(self.spawn),
            ..self
        }
    }

    /// Within each kind of body, ids increase in storage order and stay
    /// below the next id to hand out.
    pub open spec fn ids_ok(self) -> bool {
        &&& bullet_ids_below(self.bullets, self.next_id as int)
        &&& enemy_ids_below(self.enemies, self.next_id as int)
        &&& enemy_bullet_ids_below(self.enemy_bullets, self.next_id as int)
    }

    /// A player stands on the field exactly while the game is being played,
    /// and ids are in order.
    pub open spec fn wf(self) -> bool {
        &&& (self.state == GameState::Playing) == self.player.is_some()
        &&& self.ids_ok()
    }

    /// One frame: play while playing; after the game is over, only a
    /// restart does anything.
    pub open spec fn after_frame(self, inp: FrameInput, jitters: Seq<u64>) -> Snapshot {
        match self.state {
            GameState::Playing => self.played(inp, jitters),
            GameState::GameOver => if inp.restart_pressed {
                self.restarted()
            } else {
                self
            },
        }
    }
}

/// Fire-timer jitters fit for one wave: one per enemy, each shorter than the
/// enemy fire cooldown.
pub open spec fn valid_jitters(j: Seq<u64>) -> bool {
    j.len() == WAVE_SIZE && forall|i: int| 0 <= i < j.len() ==> #[trigger] j[i] < ENEMY_FIRE_COOLDOWN_US
}

/// The simulation: every body, the timers and the phase of the game.
pub struct World {
    pub state: GameState,
    pub player: Option<Player>,
    pub bullets: Vec<Bullet>,
    pub enemies: Vec<Enemy>,
    pub enemy_bullets: Vec<EnemyBullet>,
    pub fire: FireState,
    pub spawn: EnemySpawnTimer,
    pub wave_index: u32,
    pub next_id: u64,
}

impl View for World {
    type V = Snapshot;

    open spec fn view(&self) -> Snapshot {
        Snapshot {
            state: self.state,
            player: self.player,
            bullets: self.bullets@,
            enemies: self.enemies@,
            enemy_bullets: self.enemy_bullets@,
            fire: self.fire.timer,
            spawn: self.spawn.timer,
            wave_index: self.wave_index,
            next_id: self.next_id,
        }
    }
}

fn bullet_boxes_of(v: &Vec<Bullet>) -> (r: Vec<Aabb>)
    ensures
        r@ == bullet_boxes(v@),
{
    let mut out: Vec<Aabb> = Vec::new();
    let mut i: usize = 0;
    while i < v.len()
        invariant
            i <= v@.len(),
            out@.len() == i,
            forall|k: int| 0 <= k < i ==> #[trigger] out@[k] == bullet_box(v@[k]),
        decreases v@.len() - i,
    {
        out.push(v[i].hitbox());
        i = i + 1;
    }
    assert(out@ =~= bullet_boxes(v@));
    out
}

fn enemy_boxes_of(v: &Vec<Enemy>) -> (r: Vec<Aabb>)
    ensures
        r@ == enemy_boxes(v@),
{
    let mut out: Vec<Aabb> = Vec::new();
    let mut i: usize = 0;
    while i < v.len()
        invariant
            i <= v@.len(),
            out@.len() == i,
            forall|k: int| 0 <= k < i ==> #[trigger] out@[k] == enemy_box(v@[k]),
        decreases v@.len() - i,
    {
        out.push(v[i].hitbox());
        i = i + 1;
    }
    assert(out@ =~= enemy_boxes(v@));
    out
}

fn enemy_bullet_boxes_of(v: &Vec<EnemyBullet>) -> (r: Vec<Aabb>)
    ensures
        r@ == enemy_bullet_boxes(v@),
{
    let mut out: Vec<Aabb> = Vec::new();
    let mut i: usize = 0;
    while i < v.len()
        invariant
            i <= v@.len(),
            out@.len() == i,
            forall|k: int| 0 <= k < i ==> #[trigger] out@[k] == enemy_bullet_box(v@[k]),
        decreases v@.len() - i,
    {
        out.push(v[i].hitbox());
        i = i + 1;
    }
    assert(out@ =~= enemy_bullet_boxes(v@));
    out
}

/// The items of `v` whose flag in `dead` is false, in their order.
pub fn retain_alive<T: Copy>(v: &Vec<T>, dead: &Vec<bool>) -> (r: Vec<T>)
    requires
        dead@.len() == v@.len(),
    ensures
        r@ == kept(v@, dead@),
{
    let mut out: Vec<T> = Vec::new();
    let mut i: usize = 0;
    while i < v.len()
        invariant
            i <= v@.len(),
            dead@.len() == v@.len(),
            out@ == kept(v@.take(i as int), dead@.take(i as int)),
        decreases v@.len() - i,
    {
        proof {
            assert(v@.take(i + 1).drop_last() =~= v@.take(i as int));
            assert(dead@.take(i + 1).take(i as int) =~= dead@.take(i as int));
        }
        if !dead[i] {
            out.push(v[i]);
        }
        i = i + 1;
    }
    assert(v@.take(v@.len() as int) =~= v@);
    assert(dead@.take(dead@.len() as int) =~= dead@);
    out
}

fn move_enemy(e: Enemy, dt: u32) -> (r: Enemy)
    ensures
        r == moved_enemy(e, dt as u64),
{
    let t = e.t.saturating_add(dt as u64);
    let y = sat_i64_at(e.y as i128 - travel(ENEMY_SPEED, dt));
    let off = pattern_offset_at(e.kind, PATTERN_AMPLITUDE, PATTERN_PERIOD_US, t);
    let x = enemy_x(e.base_x, off);
    Enemy { t, y, x, ..e }
}

impl World {
    fn push_bullet(&mut self, x: i64, y: i64)
        ensures
            final(self)@ == old(self)@.with_bullet(x, y),
    {
        if self.next_id < u64::MAX {
            self.bullets.push(Bullet { id: self.next_id, x, y });
            self.next_id = self.next_id + 1;
        }
        assert(self@ =~= old(self)@.with_bullet(x, y));
    }

    fn push_enemy_bullet(&mut self, x: i64, y: i64)
        ensures
            final(self)@ == old(self)@.with_enemy_bullet(x, y),
    {
        if self.next_id < u64::MAX {
            self.enemy_bullets.push(EnemyBullet { id: self.next_id, x, y });
            self.next_id = self.next_id + 1;
        }
        assert(self@ =~= old(self)@.with_enemy_bullet(x, y));
    }

    fn push_enemy(&mut self, x: i64, kind: MotionKind, jitter: u64)
        ensures
            final(self)@ == old(self)@.with_enemy(x, kind, jitter),
    {
        if self.next_id < u64::MAX {
            let fire = Timer {
                duration: ENEMY_FIRE_COOLDOWN_US,
                elapsed: jitter,
                repeating: true,
                just_finished: false,
            };
            let e = Enemy {
                id: self.next_id,
                x,
                y: HALF_HEIGHT + 2 * ENEMY_HALF_H,
                kind,
                base_x: x,
                t: 0,
                fire,
            };
            self.enemies.push(e);
            self.next_id = self.next_id + 1;
        }
        assert(self@ =~= old(self)@.with_enemy(x, kind, jitter));
    }

    fn move_player_step(&mut self, inp: &FrameInput)
        ensures
            final(self)@ == old(self)@.player_moved(*inp),
    {
        match self.player {
            Some(p) => {
                self.player = Some(move_player(p, inp.moves, inp.dt_us));
            },
            None => {},
        }
        assert(self@ =~= old(self)@.player_moved(*inp));
    }

    fn fire_step(&mut self, inp: &FrameInput)
        ensures
            final(self)@ == old(self)@.player_fired(*inp),
    {
        self.fire.timer.tick(inp.dt_us as u64);
        match self.player {
            Some(p) => {
                if inp.fire_pressed || (inp.fire_held && self.fire.timer.finished()) {
                    let y = sat_i64_at(
                        p.y as i128 + (PLAYER_RADIUS + BULLET_HALF_H + MUZZLE_GAP) as i128,
                    );
                    self.push_bullet(p.x, y);
                    self.fire.timer.reset();
                }
            },
            None => {},
        }
        assert(self@ =~= old(self)@.player_fired(*inp));
    }

    fn spawn_step(&mut self, inp: &FrameInput, jitters: &Vec<u64>)
        requires
            jitters@.len() == WAVE_SIZE,
        ensures
            final(self)@ == old(self)@.waves_spawned(*inp, jitters@),
    {
        let mut t = self.spawn.timer;
        t.tick(inp.dt_us as u64);
        if t.finished() {
            let kind = pattern_for_wave(self.wave_index);
            let next_wave = if self.wave_index == u32::MAX {
                0
            } else {
                self.wave_index + 1
            };
            let ghost start = self@;
            let mut i: usize = 0;
            while i < WAVE_SIZE
                invariant
                    i <= WAVE_SIZE,
                    jitters@.len() == WAVE_SIZE,
                    self@ == start.with_wave(kind, jitters@, i as nat),
                decreases WAVE_SIZE - i,
            {
                let x = wave_x_at(i, WAVE_SIZE);
                self.push_enemy(x, kind, jitters[i]);
                i = i + 1;
            }
            t.reset();
            self.spawn.timer = t;
            self.wave_index = next_wave;
        } else {
            self.spawn.timer = t;
        }
        assert(self@ =~= old(self)@.waves_spawned(*inp, jitters@));
    }

    fn move_bodies(&mut self, inp: &FrameInput)
        ensures
            final(self)@ == old(self)@.bodies_moved(*inp),
    {
        let dt = inp.dt_us;
        let mut nb: Vec<Bullet> = Vec::new();
        let mut i: usize = 0;
        while i < self.bullets.len()
            invariant
                i <= self.bullets@.len(),
                nb@.len() == i,
                forall|k: int| 0 <= k < i ==> #[trigger] nb@[k] == moved_bullet(self.bullets@[k], dt as int),
            decreases self.bullets@.len() - i,
        {
            let b = self.bullets[i];
            let y = sat_i64_at(b.y as i128 + travel(BULLET_SPEED, dt));
            nb.push(Bullet { y, ..b });
            i = i + 1;
        }
        let mut ne: Vec<Enemy> = Vec::new();
        let mut j: usize = 0;
        while j < self.enemies.len()
            invariant
                j <= self.enemies@.len(),
                ne@.len() == j,
                forall|k: int| 0 <= k < j ==> #[trigger] ne@[k] == moved_enemy(self.enemies@[k], dt as u64),
            decreases self.enemies@.len() - j,
        {
            ne.push(move_enemy(self.enemies[j], dt));
            j = j + 1;
        }
        assert(nb@ =~= old(self)@.bodies_moved(*inp).bullets);
        assert(ne@ =~= old(self)@.bodies_moved(*inp).enemies);
        self.bullets = nb;
        self.enemies = ne;
        assert(self@ =~= old(self)@.bodies_moved(*inp));
    }

    fn enemy_fire_step(&mut self, dt: u32)
        ensures
            final(self)@ == old(self)@.enemies_fired(dt as u64, old(self)@.enemies.len()),
    {
        let n = self.enemies.len();
        let ghost start = self@;
        let mut i: usize = 0;
        while i < n
            invariant
                i <= n,
                n == start.enemies.len(),
                self.enemies@.len() == n,
                self@ == start.enemies_fired(dt as u64, i as nat),
            decreases n - i,
        {
            let ghost before = self@;
            let mut e = self.enemies[i];
            e.fire.tick(dt as u64);
            if e.fire.finished() {
                e.fire.reset();
                self.enemies.set(i, e);
                let y = sat_i64_at(
                    e.y as i128 - (ENEMY_HALF_H + ENEMY_BULLET_HALF_H + MUZZLE_GAP) as i128,
                );
                proof {
                    assert(self@ =~= Snapshot {
                        enemies: before.enemies.update(i as int, Enemy { fire: e.fire, ..before.enemies[i as int] }),
                        ..before
                    });
                }
                self.push_enemy_bullet(e.x, y);
            } else {
                self.enemies.set(i, e);
                assert(self@ =~= before.enemy_fired(dt as u64, i as int));
            }
            i = i + 1;
        }
    }

    fn move_enemy_bullets(&mut self, inp: &FrameInput)
        ensures
            final(self)@ == old(self)@.enemy_bullets_moved(*inp),
    {
        let dt = inp.dt_us;
        let mut nb: Vec<EnemyBullet> = Vec::new();
        let mut i: usize = 0;
        while i < self.enemy_bullets.len()
            invariant
                i <= self.enemy_bullets@.len(),
                nb@.len() == i,
                forall|k: int| 0 <= k < i ==> #[trigger] nb@[k] == moved_enemy_bullet(self.enemy_bullets@[k], dt as int),
            decreases self.enemy_bullets@.len() - i,
        {
            let b = self.enemy_bullets[i];
            let y = sat_i64_at(b.y as i128 - travel(ENEMY_BULLET_SPEED, dt));
            nb.push(EnemyBullet { y, ..b });
            i = i + 1;
        }
        assert(nb@ =~= old(self)@.enemy_bullets_moved(*inp).enemy_bullets);
        self.enemy_bullets = nb;
        assert(self@ =~= old(self)@.enemy_bullets_moved(*inp));
    }

    fn collide_step(&mut self)
        ensures
            final(self)@ == old(self)@.collided(),
    {
        let ghost w = self@;
        let pb: Option<Aabb> = match self.player {
            Some(p) => Some(p.hitbox()),
            None => None,
        };
        assert(pb == player_hitbox(w.player));
        let bb = bullet_boxes_of(&self.bullets);
        let eb = enemy_boxes_of(&self.enemies);
        let ebb = enemy_bullet_boxes_of(&self.enemy_bullets);
        let h = resolve_hits(pb, &bb, &eb, &ebb);
        let mut dead_b: Vec<bool> = Vec::new();
        let mut i: usize = 0;
        while i < self.bullets.len()
            invariant
                self@ == w,
                i <= w.bullets.len(),
                dead_b@.len() == i,
                hits_are(h, pb, bb@, eb@, ebb@),
                bb@ == bullet_boxes(w.bullets),
                eb@ == enemy_boxes(w.enemies),
                forall|k: int| 0 <= k < i ==> #[trigger] dead_b@[k] == w.bullet_dead(k),
            decreases w.bullets.len() - i,
        {
            let gone = (self.bullets[i].y as i128 - 2 * (BULLET_HALF_H as i128)) > HALF_HEIGHT as i128;
            dead_b.push(h.bullets[i] || gone);
            i = i + 1;
        }
        let mut dead_e: Vec<bool> = Vec::new();
        let mut j: usize = 0;
        while j < self.enemies.len()
            invariant
                self@ == w,
                j <= w.enemies.len(),
                dead_e@.len() == j,
                hits_are(h, pb, bb@, eb@, ebb@),
                pb == player_hitbox(w.player),
                bb@ == bullet_boxes(w.bullets),
                eb@ == enemy_boxes(w.enemies),
                forall|k: int| 0 <= k < j ==> #[trigger] dead_e@[k] == w.enemy_dead(k),
            decreases w.enemies.len() - j,
        {
            let gone = (self.enemies[j].y as i128 + 2 * (ENEMY_HALF_H as i128)) < -(HALF_HEIGHT as i128);
            dead_e.push(h.enemies[j] || gone);
            j = j + 1;
        }
        let mut dead_eb: Vec<bool> = Vec::new();
        let mut k: usize = 0;
        while k < self.enemy_bullets.len()
            invariant
                self@ == w,
                k <= w.enemy_bullets.len(),
                dead_eb@.len() == k,
                hits_are(h, pb, bb@, eb@, ebb@),
                pb == player_hitbox(w.player),
                ebb@ == enemy_bullet_boxes(w.enemy_bullets),
                forall|m: int| 0 <= m < k ==> #[trigger] dead_eb@[m] == w.enemy_bullet_dead(m),
            decreases w.enemy_bullets.len() - k,
        {
            let gone = (self.enemy_bullets[k].y as i128 + 2 * (ENEMY_BULLET_HALF_H as i128)) < -(
            HALF_HEIGHT as i128);
            dead_eb.push(h.enemy_bullets[k] || gone);
            k = k + 1;
        }
        assert(dead_b@ =~= Seq::new(w.bullets.len(), |i: int| w.bullet_dead(i)));
        assert(dead_e@ =~= Seq::new(w.enemies.len(), |j: int| w.enemy_dead(j)));
        assert(dead_eb@ =~= Seq::new(w.enemy_bullets.len(), |k: int| w.enemy_bullet_dead(k)));
        let nb = retain_alive(&self.bullets, &dead_b);
        let ne = retain_alive(&self.enemies, &dead_e);
        let neb = retain_alive(&self.enemy_bullets, &dead_eb);
        self.bullets = nb;
        self.enemies = ne;
        self.enemy_bullets = neb;
        if h.player {
            self.player = None;
            self.state = GameState::GameOver;
        }
        assert(self@ =~= w.collided());
    }

    /// Starts a new round: clears every body, puts the player back at the
    /// start, primes the fire cooldown and restarts the wave timer.
    pub fn restart(&mut self)
        ensures
            final(self)@ == old(self)@.restarted(),
    {
        self.bullets = Vec::new();
        self.enemies = Vec::new();
        self.enemy_bullets = Vec::new();
        self.player = Some(Player { x: PLAYER_START_X, y: PLAYER_START_Y });
        self.fire.timer.reset();
        self.fire.timer.prime();
        self.spawn.timer.reset();
        self.state = GameState::Playing;
        assert(self@ =~= old(self)@.restarted());
    }

    /// Runs one frame with the given fire-timer jitters for a wave that
    /// appears in it.
    pub fn tick(&mut self, inp: &FrameInput, jitters: &Vec<u64>)
        requires
            valid_jitters(jitters@),
        ensures
            final(self)@ == old(self)@.after_frame(*inp, jitters@),
            old(self)@.wf() ==> final(self)@.wf(),
    {
        proof {
            if self@.wf() {
                crate::lifecycle::lemma_frame_keeps_wf(self@, *inp, jitters@);
            }
        }
        match self.state {
            GameState::Playing => {
                self.move_player_step(inp);
                self.fire_step(inp);
                self.spawn_step(inp, jitters);
                self.move_bodies(inp);
                self.enemy_fire_step(inp.dt_us);
                self.move_enemy_bullets(inp);
                self.collide_step();
            },
            GameState::GameOver => {
                if inp.restart_pressed {
                    self.restart();
                }
            },
        }
    }

    /// Runs one frame, drawing the jitters of a wave that appears in it at random.
    pub fn tick_random(&mut self, inp: &FrameInput)
        ensures
            exists|j: Seq<u64>| valid_jitters(j) && final(self)@ == old(self)@.after_frame(*inp, j),
    {
        let jitters = draw_jitters();
        self.tick(inp, &jitters);
    }

    /// A fresh game: playing, the player at the start, no other bodies, the
    /// fire cooldown primed, the wave timer at zero.
    pub fn new() -> (w: World)
        ensures
            w@ == initial_snapshot(),
            w@.wf(),
    {
        let mut fire = Timer::new(FIRE_COOLDOWN_US, true);
        fire.prime();
        let w = World {
            state: GameState::Playing,
            player: Some(Player { x: PLAYER_START_X, y: PLAYER_START_Y }),
            bullets: Vec::new(),
            enemies: Vec::new(),
            enemy_bullets: Vec::new(),
            fire: FireState { timer: fire },
            spawn: EnemySpawnTimer { timer: Timer::new(ENEMY_SPAWN_US, true) },
            wave_index: 0,
            next_id: 0,
        };
        assert(w@ =~= initial_snapshot());
        w
    }
}

pub open spec fn initial_snapshot() -> Snapshot {
    Snapshot {
        state: GameState::Playing,
        player: Some(Player { x: PLAYER_START_X, y: PLAYER_START_Y }),
        bullets: Seq::empty(),
        enemies: Seq::empty(),
        enemy_bullets: Seq::empty(),
        fire: Timer {
            duration: FIRE_COOLDOWN_US,
            elapsed: FIRE_COOLDOWN_US,
            repeating: true,
            just_finished: false,
        },
        spawn: Timer { duration: ENEMY_SPAWN_US, elapsed: 0, repeating: true, just_finished: false },
        wave_index: 0,
        next_id: 0,
    }
}

/// Relies on rand's `rng().random_range(0..bound)`: a value drawn from
/// `[0, bound)`; it panics on an empty range, which `requires` rules out.
#[verifier::external_body]
fn random_below(bound: u64) -> (r: u64)
    requires
        bound > 0,
    ensures
        r < bound,
{
    rand::rng().random_range(0..bound)
}

/// Draws one fire-timer jitter per enemy of a wave.
pub fn draw_jitters() -> (r: Vec<u64>)
    ensures
        valid_jitters(r@),
{
    let mut v: Vec<u64> = Vec::new();
    while v.len() < WAVE_SIZE
        invariant
            v@.len() <= WAVE_SIZE,
            forall|i: int| 0 <= i < v@.len() ==> #[trigger] v@[i] < ENEMY_FIRE_COOLDOWN_US,
        decreases WAVE_SIZE - v@.len(),
    {
        v.push(random_below(ENEMY_FIRE_COOLDOWN_US));
    }
    v
}

} // verus!
