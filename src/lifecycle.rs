use vstd::prelude::*;
use crate::consts::{ENEMY_SPAWN_US, PLAYER_START_X, PLAYER_START_Y, WAVE_SIZE};
use crate::entities::{Enemy, GameState, Player};
use crate::motion::MotionKind;
use crate::spawn::wave_pattern;
use crate::entities::Bullet;
use crate::timer::{lemma_timer_fires_once_per_period, Timer};
use crate::world::{
    bullet_gone, enemy_bullet_gone, enemy_gone, initial_snapshot, kept, kept_indices, new_enemy,
    player_muzzle, reset_timer, sat_i64, valid_jitters, FrameInput, Snapshot,
};

verus! {

proof fn lemma_with_wave_keeps(s: Snapshot, kind: MotionKind, jitters: Seq<u64>, n: nat)
    ensures
        s.with_wave(kind, jitters, n).state == s.state,
        s.with_wave(kind, jitters, n).player == s.player,
    decreases n,
{
    if n > 0 {
        lemma_with_wave_keeps(s, kind, jitters, (n - 1) as nat);
    }
}

proof fn lemma_enemies_fired_keeps(s: Snapshot, dt: u64, n: nat)
    ensures
        s.enemies_fired(dt, n).state == s.state,
        s.enemies_fired(dt, n).player == s.player,
        s.enemies_fired(dt, n).bullets == s.bullets,
    decreases n,
{
    if n > 0 {
        lemma_enemies_fired_keeps(s, dt, (n - 1) as nat);
    }
}

/// Every frame keeps a player on the field exactly while the game is played.
pub proof fn lemma_frame_keeps_wf(s: Snapshot, inp: FrameInput, jitters: Seq<u64>)
    requires
        s.wf(),
    ensures
        s.after_frame(inp, jitters).wf(),
{
    if s.state == GameState::Playing {
        let a0 = s.player_moved(inp).player_fired(inp);
        lemma_with_wave_keeps(a0, wave_pattern(a0.wave_index), jitters, WAVE_SIZE as nat);
        let a = a0.waves_spawned(inp, jitters).bodies_moved(inp);
        lemma_enemies_fired_keeps(a, inp.dt_us as u64, a.enemies.len());
        lemma_played_ids(s, inp, jitters);
    }
}

/// The collision checks end the game, once, exactly when the player is hit
/// by an enemy or an enemy bullet or both; the player is then gone.
pub proof fn lemma_hit_ends_game(s: Snapshot)
    requires
        s.wf(),
        s.state == GameState::Playing,
    ensures
        (s.collided().state == GameState::GameOver) == s.player_hit(),
        s.collided().state == GameState::GameOver ==> s.collided().player.is_none(),
        s.collided().state == GameState::Playing ==> s.collided().player == s.player,
        s.collided().wf(),
{
    lemma_collided_ids(s);
}

/// While the game is over, a frame without a restart changes nothing.
pub proof fn lemma_game_over_waits(s: Snapshot, inp: FrameInput, jitters: Seq<u64>)
    requires
        s.state == GameState::GameOver,
        !inp.restart_pressed,
    ensures
        s.after_frame(inp, jitters) == s,
{
}

/// While the game is played, the restart key is ignored.
pub proof fn lemma_restart_ignored_while_playing(s: Snapshot, inp: FrameInput, jitters: Seq<u64>)
    requires
        s.state == GameState::Playing,
    ensures
        s.after_frame(inp, jitters) == s.after_frame(
            FrameInput { restart_pressed: false, ..inp },
            jitters,
        ),
{
    let q = FrameInput { restart_pressed: false, ..inp };
    assert(s.player_moved(inp) == s.player_moved(q));
    assert(s.player_moved(inp).player_fired(inp) == s.player_moved(q).player_fired(q));
}

/// A restart after the game is over clears every body, puts one player at
/// the start, lets the next frame fire at once and waits a full interval for
/// the next wave.
pub proof fn lemma_restart_from_game_over(s: Snapshot, inp: FrameInput, jitters: Seq<u64>, dt: u64)
    requires
        s.state == GameState::GameOver,
        inp.restart_pressed,
    ensures
        s.after_frame(inp, jitters).state == GameState::Playing,
        s.after_frame(inp, jitters).player == Some(Player { x: PLAYER_START_X, y: PLAYER_START_Y }),
        s.after_frame(inp, jitters).bullets.len() == 0,
        s.after_frame(inp, jitters).enemies.len() == 0,
        s.after_frame(inp, jitters).enemy_bullets.len() == 0,
        s.after_frame(inp, jitters).fire.after_tick(dt).just_finished,
        s.after_frame(inp, jitters).spawn.elapsed == 0,
        s.after_frame(inp, jitters).wf(),
{
}

proof fn lemma_kept_from<T>(s: Seq<T>, dead: Seq<bool>)
    requires
        dead.len() == s.len(),
    ensures
        forall|k: int|
            0 <= k < kept(s, dead).len() ==> exists|i: int|
                0 <= i < s.len() && !dead[i] && #[trigger] kept(s, dead)[k] == s[i],
    decreases s.len(),
{
    if s.len() > 0 {
        let n = s.len() - 1;
        lemma_kept_from(s.drop_last(), dead.take(n));
        let rest = kept(s.drop_last(), dead.take(n));
        assert forall|k: int| 0 <= k < kept(s, dead).len() implies exists|i: int|
            0 <= i < s.len() && !dead[i] && #[trigger] kept(s, dead)[k] == s[i] by {
            if k < rest.len() {
                let i = choose|i: int|
                    0 <= i < s.drop_last().len() && !dead.take(n)[i] && rest[k] == s.drop_last()[i];
                assert(0 <= i < s.len() && !dead[i] && kept(s, dead)[k] == s[i]);
            } else {
                assert(0 <= n < s.len() && !dead[n] && kept(s, dead)[k] == s[n]);
            }
        }
    }
}

/// After the removals of a frame no body is left beyond the edge it leaves
/// by: bullets above the top, enemies and their bullets below the bottom.
pub proof fn lemma_no_body_left_off_screen(s: Snapshot)
    ensures
        forall|k: int| 0 <= k < s.collided().bullets.len() ==> !bullet_gone(
            #[trigger] s.collided().bullets[k],
        ),
        forall|k: int| 0 <= k < s.collided().enemies.len() ==> !enemy_gone(
            #[trigger] s.collided().enemies[k],
        ),
        forall|k: int| 0 <= k < s.collided().enemy_bullets.len() ==> !enemy_bullet_gone(
            #[trigger] s.collided().enemy_bullets[k],
        ),
{
    let db = Seq::new(s.bullets.len(), |i: int| s.bullet_dead(i));
    let de = Seq::new(s.enemies.len(), |j: int| s.enemy_dead(j));
    let deb = Seq::new(s.enemy_bullets.len(), |k: int| s.enemy_bullet_dead(k));
    lemma_kept_from(s.bullets, db);
    lemma_kept_from(s.enemies, de);
    lemma_kept_from(s.enemy_bullets, deb);
}

proof fn lemma_kept_indices<T>(s: Seq<T>, dead: Seq<bool>)
    requires
        dead.len() == s.len(),
    ensures
        kept(s, dead).len() == kept_indices(dead).len(),
        forall|k: int| 0 <= k < kept(s, dead).len() ==> 0 <= #[trigger] kept_indices(dead)[k] < s.len(),
        forall|k: int| 0 <= k < kept(s, dead).len() ==> #[trigger] kept(s, dead)[k] == s[kept_indices(dead)[k]],
        forall|k: int| 0 <= k < kept(s, dead).len() ==> !dead[#[trigger] kept_indices(dead)[k]],
        forall|k1: int, k2: int| 0 <= k1 < k2 < kept(s, dead).len() ==> #[trigger] kept_indices(dead)[k1]
            < #[trigger] kept_indices(dead)[k2],
    decreases s.len(),
{
    if s.len() > 0 {
        let n = s.len() - 1;
        assert(dead.take(n) =~= dead.drop_last());
        lemma_kept_indices(s.drop_last(), dead.take(n));
    }
}

proof fn lemma_with_wave_ids(s: Snapshot, kind: MotionKind, jitters: Seq<u64>, n: nat)
    requires
        s.ids_ok(),
    ensures
        s.with_wave(kind, jitters, n).ids_ok(),
    decreases n,
{
    if n > 0 {
        lemma_with_wave_ids(s, kind, jitters, (n - 1) as nat);
    }
}

proof fn lemma_enemies_fired_ids(s: Snapshot, dt: u64, n: nat)
    requires
        s.ids_ok(),
        n <= s.enemies.len(),
    ensures
        s.enemies_fired(dt, n).ids_ok(),
        s.enemies_fired(dt, n).enemies.len() == s.enemies.len(),
    decreases n,
{
    if n > 0 {
        lemma_enemies_fired_ids(s, dt, (n - 1) as nat);
        let v = s.enemies_fired(dt, (n - 1) as nat);
        let i = n - 1;
        let e = v.enemies[i];
        let t = e.fire.after_tick(dt);
        let u = if t.just_finished {
            Enemy { fire: reset_timer(t), ..e }
        } else {
            Enemy { fire: t, ..e }
        };
        let w = Snapshot { enemies: v.enemies.update(i, u), ..v };
        assert(w.ids_ok());
    }
}

proof fn lemma_collided_ids(s: Snapshot)
    requires
        s.ids_ok(),
    ensures
        s.collided().ids_ok(),
{
    let db = Seq::new(s.bullets.len(), |i: int| s.bullet_dead(i));
    let de = Seq::new(s.enemies.len(), |j: int| s.enemy_dead(j));
    let deb = Seq::new(s.enemy_bullets.len(), |k: int| s.enemy_bullet_dead(k));
    lemma_kept_indices(s.bullets, db);
    lemma_kept_indices(s.enemies, de);
    lemma_kept_indices(s.enemy_bullets, deb);
    let c = s.collided();
    assert forall|i: int, j: int| 0 <= i < j < c.bullets.len() implies (#[trigger] c.bullets[i]).id
        < (#[trigger] c.bullets[j]).id by {
        assert(kept_indices(db)[i] < kept_indices(db)[j]);
    }
    assert forall|i: int, j: int| 0 <= i < j < c.enemies.len() implies (#[trigger] c.enemies[i]).id
        < (#[trigger] c.enemies[j]).id by {
        assert(kept_indices(de)[i] < kept_indices(de)[j]);
    }
    assert forall|i: int, j: int|
        0 <= i < j < c.enemy_bullets.len() implies (#[trigger] c.enemy_bullets[i]).id
        < (#[trigger] c.enemy_bullets[j]).id by {
        assert(kept_indices(deb)[i] < kept_indices(deb)[j]);
    }
}

proof fn lemma_played_ids(s: Snapshot, inp: FrameInput, jitters: Seq<u64>)
    requires
        s.ids_ok(),
    ensures
        s.played(inp, jitters).ids_ok(),
{
    let a0 = s.player_moved(inp).player_fired(inp);
    assert(a0.ids_ok());
    lemma_with_wave_ids(a0, wave_pattern(a0.wave_index), jitters, WAVE_SIZE as nat);
    let a1 = a0.waves_spawned(inp, jitters);
    assert(a1.ids_ok());
    let a = a1.bodies_moved(inp);
    assert(a.ids_ok());
    lemma_enemies_fired_ids(a, inp.dt_us as u64, a.enemies.len());
    let b = a.enemies_fired(inp.dt_us as u64, a.enemies.len()).enemy_bullets_moved(inp);
    assert(b.ids_ok());
    lemma_collided_ids(b);
}

/// `k` spawn steps of one frame input each.
pub open spec fn spawn_steps(s: Snapshot, inp: FrameInput, jitters: Seq<u64>, k: nat) -> Snapshot
    decreases k,
{
    if k == 0 {
        s
    } else {
        spawn_steps(s, inp, jitters, (k - 1) as nat).waves_spawned(inp, jitters)
    }
}

proof fn lemma_with_wave_grows(s: Snapshot, kind: MotionKind, jitters: Seq<u64>, m: nat)
    requires
        s.next_id + m <= u64::MAX,
    ensures
        s.with_wave(kind, jitters, m).enemies.len() == s.enemies.len() + m,
        s.with_wave(kind, jitters, m).enemies.subrange(0, s.enemies.len() as int) == s.enemies,
        s.with_wave(kind, jitters, m).next_id == s.next_id + m,
    decreases m,
{
    if m > 0 {
        lemma_with_wave_grows(s, kind, jitters, (m - 1) as nat);
        let v = s.with_wave(kind, jitters, (m - 1) as nat);
        assert(v.with_enemy(
            crate::spawn::wave_x(m - 1, WAVE_SIZE as int) as i64,
            kind,
            jitters[m - 1],
        ).enemies.subrange(0, s.enemies.len() as int) =~= v.enemies.subrange(
            0,
            s.enemies.len() as int,
        ));
    }
}

proof fn lemma_spawn_steps_wait(s: Snapshot, inp: FrameInput, jitters: Seq<u64>, n: nat, k: nat)
    requires
        s.spawn.repeating,
        s.spawn.elapsed == 0,
        inp.dt_us > 0,
        n * inp.dt_us == s.spawn.duration,
        k < n,
    ensures
        spawn_steps(s, inp, jitters, k) == (Snapshot {
            spawn: s.spawn.after_ticks(inp.dt_us as u64, k),
            ..s
        }),
    decreases k,
{
    lemma_timer_fires_once_per_period(s.spawn, inp.dt_us as u64, n);
    if k > 0 {
        lemma_spawn_steps_wait(s, inp, jitters, n, (k - 1) as nat);
        assert(!s.spawn.after_ticks(inp.dt_us as u64, k).just_finished);
    }
}

/// Spawn steps of equal length adding up to the wave interval, from a wave
/// timer at zero, add no enemy until the last step, which adds one whole
/// wave behind the enemies already there; the timer is then back where it
/// started, so the same repeats in every interval.
pub proof fn lemma_one_wave_per_interval(s: Snapshot, inp: FrameInput, jitters: Seq<u64>, n: nat)
    requires
        s.spawn.repeating,
        s.spawn.elapsed == 0,
        inp.dt_us > 0,
        n > 0,
        n * inp.dt_us == s.spawn.duration,
        s.next_id + WAVE_SIZE <= u64::MAX,
    ensures
        forall|k: nat| k < n ==> (#[trigger] spawn_steps(s, inp, jitters, k)).enemies == s.enemies,
        spawn_steps(s, inp, jitters, n).enemies.len() == s.enemies.len() + WAVE_SIZE,
        spawn_steps(s, inp, jitters, n).enemies.subrange(0, s.enemies.len() as int) == s.enemies,
        spawn_steps(s, inp, jitters, n).spawn == (Timer { just_finished: false, ..s.spawn }),
{
    assert forall|k: nat| k < n implies (#[trigger] spawn_steps(s, inp, jitters, k)).enemies
        == s.enemies by {
        lemma_spawn_steps_wait(s, inp, jitters, n, k);
    }
    let d = inp.dt_us as u64;
    lemma_timer_fires_once_per_period(s.spawn, d, n);
    lemma_spawn_steps_wait(s, inp, jitters, n, (n - 1) as nat);
    let v = spawn_steps(s, inp, jitters, (n - 1) as nat);
    assert(v.spawn.after_tick(d) == s.spawn.after_ticks(d, n));
    lemma_with_wave_grows(v, wave_pattern(v.wave_index), jitters, WAVE_SIZE as nat);
}

/// After a restart primes the fire cooldown, holding the fire key shoots on
/// the very first frame: its fire step adds exactly one bullet, just above
/// the player, and restarts the cooldown.
pub proof fn lemma_primed_fire_shoots(s: Snapshot, inp: FrameInput)
    requires
        s.player.is_some(),
        s.fire.elapsed == s.fire.duration,
        inp.fire_held,
        s.next_id < u64::MAX,
    ensures
        ({
            let a = s.player_moved(inp);
            let p = a.player.unwrap();
            a.player_fired(inp).bullets == s.bullets.push(
                Bullet { id: s.next_id, x: p.x, y: sat_i64(p.y + player_muzzle()) },
            )
        }),
        s.player_moved(inp).player_fired(inp).next_id == s.next_id + 1,
        s.player_moved(inp).player_fired(inp).fire.elapsed == 0,
{
}

proof fn lemma_with_wave_prefix(s: Snapshot, kind: MotionKind, jitters: Seq<u64>, m: nat)
    ensures
        s.with_wave(kind, jitters, m).enemies.len() >= s.enemies.len(),
        forall|j: int| 0 <= j < s.enemies.len() ==> #[trigger] s.with_wave(kind, jitters, m).enemies[j]
            == s.enemies[j],
    decreases m,
{
    if m > 0 {
        lemma_with_wave_prefix(s, kind, jitters, (m - 1) as nat);
    }
}

proof fn lemma_enemies_fired_place(s: Snapshot, dt: u64, n: nat)
    requires
        n <= s.enemies.len(),
    ensures
        s.enemies_fired(dt, n).enemies.len() == s.enemies.len(),
        forall|j: int| 0 <= j < s.enemies.len() ==> (#[trigger] s.enemies_fired(dt, n).enemies[j]).id
            == s.enemies[j].id && s.enemies_fired(dt, n).enemies[j].y == s.enemies[j].y,
    decreases n,
{
    if n > 0 {
        lemma_enemies_fired_place(s, dt, (n - 1) as nat);
    }
}

/// An enemy that is already beyond the bottom edge by more than its height
/// is gone after the next frame: no enemy with its id remains.
pub proof fn lemma_enemy_below_screen_removed(
    s: Snapshot,
    inp: FrameInput,
    jitters: Seq<u64>,
    i: int,
)
    requires
        s.state == GameState::Playing,
        s.ids_ok(),
        0 <= i < s.enemies.len(),
        enemy_gone(s.enemies[i]),
    ensures
        forall|k: int| 0 <= k < s.after_frame(inp, jitters).enemies.len() ==> (#[trigger] s.after_frame(
            inp,
            jitters,
        ).enemies[k]).id != s.enemies[i].id,
{
    let dt = inp.dt_us as u64;
    let a0 = s.player_moved(inp).player_fired(inp);
    assert(a0.ids_ok());
    assert(a0.enemies == s.enemies);
    lemma_with_wave_prefix(a0, wave_pattern(a0.wave_index), jitters, WAVE_SIZE as nat);
    lemma_with_wave_ids(a0, wave_pattern(a0.wave_index), jitters, WAVE_SIZE as nat);
    let a1 = a0.waves_spawned(inp, jitters);
    assert(a1.enemies[i] == s.enemies[i]);
    assert(a1.ids_ok());
    let a = a1.bodies_moved(inp);
    assert(a.ids_ok());
    assert(a.enemies[i].id == s.enemies[i].id);
    assert(enemy_gone(a.enemies[i]));
    lemma_enemies_fired_ids(a, dt, a.enemies.len());
    lemma_enemies_fired_place(a, dt, a.enemies.len());
    let b = a.enemies_fired(dt, a.enemies.len()).enemy_bullets_moved(inp);
    assert(b.ids_ok());
    assert(b.enemies[i].id == s.enemies[i].id && enemy_gone(b.enemies[i]));
    let de = Seq::new(b.enemies.len(), |j: int| b.enemy_dead(j));
    lemma_kept_indices(b.enemies, de);
    assert(de[i]);
    let c = b.collided();
    assert(s.after_frame(inp, jitters) == c);
    assert forall|k: int| 0 <= k < c.enemies.len() implies (#[trigger] c.enemies[k]).id
        != s.enemies[i].id by {
        let x = kept_indices(de)[k];
        assert(c.enemies[k] == b.enemies[x]);
        assert(!de[x]);
        if x < i {
            assert(b.enemies[x].id < b.enemies[i].id);
        } else if x > i {
            assert(b.enemies[i].id < b.enemies[x].id);
        }
    }
}

/// `k` frames of one frame input each.
pub open spec fn frames(s: Snapshot, inp: FrameInput, jitters: Seq<u64>, k: nat) -> Snapshot
    decreases k,
{
    if k == 0 {
        s
    } else {
        frames(s, inp, jitters, (k - 1) as nat).after_frame(inp, jitters)
    }
}

/// A frame input with no key down.
pub open spec fn no_keys(inp: FrameInput) -> bool {
    !inp.moves.left && !inp.moves.right && !inp.moves.up && !inp.moves.down && !inp.fire_held
        && !inp.fire_pressed && !inp.restart_pressed
}

/// Playing, the player at the start and no other body on the field.
pub open spec fn empty_field(w: Snapshot) -> bool {
    &&& w.state == GameState::Playing
    &&& w.player == Some(Player { x: PLAYER_START_X, y: PLAYER_START_Y })
    &&& w.bullets.len() == 0
    &&& w.enemies.len() == 0
    &&& w.enemy_bullets.len() == 0
}

proof fn lemma_player_stays(w: Snapshot, inp: FrameInput)
    requires
        empty_field(w),
        no_keys(inp),
    ensures
        w.player_moved(inp).player == w.player,
{
    let p = w.player.unwrap();
    let step = crate::player::straight_step(inp.dt_us as int);
    assert(crate::player::axis(inp.moves.left, inp.moves.right) == 0);
    assert(crate::player::axis(inp.moves.down, inp.moves.up) == 0);
    assert(0 * step == 0);
    assert(crate::player::moved_player(p, inp.moves, inp.dt_us as int) == p);
}

proof fn lemma_idle_frame(w: Snapshot, inp: FrameInput, jitters: Seq<u64>)
    requires
        empty_field(w),
        no_keys(inp),
        !w.spawn.after_tick(inp.dt_us as u64).just_finished,
    ensures
        empty_field(w.after_frame(inp, jitters)),
        w.after_frame(inp, jitters).spawn == w.spawn.after_tick(inp.dt_us as u64),
        w.after_frame(inp, jitters).next_id == w.next_id,
        w.after_frame(inp, jitters).wave_index == w.wave_index,
{
    lemma_player_stays(w, inp);
    let a = w.player_moved(inp).player_fired(inp).waves_spawned(inp, jitters).bodies_moved(inp);
    assert(a.bullets.len() == 0 && a.enemies.len() == 0);
    let b = a.enemies_fired(inp.dt_us as u64, a.enemies.len()).enemy_bullets_moved(inp);
    assert(b.enemy_bullets.len() == 0);
    assert(b.player == w.player);
    assert(b.bullets =~= Seq::<Bullet>::empty());
    assert(b.enemies =~= Seq::<Enemy>::empty());
}

proof fn lemma_with_wave_members(s: Snapshot, kind: MotionKind, jitters: Seq<u64>, m: nat)
    requires
        s.next_id + m <= u64::MAX,
    ensures
        s.with_wave(kind, jitters, m).enemies.len() == s.enemies.len() + m,
        forall|j: int| 0 <= j < m ==> #[trigger] s.with_wave(kind, jitters, m).enemies[s.enemies.len() + j]
            == new_enemy(
            (s.next_id + j) as u64,
            crate::spawn::wave_x(j, WAVE_SIZE as int) as i64,
            kind,
            jitters[j],
        ),
        s.with_wave(kind, jitters, m).next_id == s.next_id + m,
        s.with_wave(kind, jitters, m).player == s.player,
        s.with_wave(kind, jitters, m).bullets == s.bullets,
    decreases m,
{
    if m > 0 {
        lemma_with_wave_members(s, kind, jitters, (m - 1) as nat);
    }
}

proof fn lemma_kept_all<T>(s: Seq<T>, dead: Seq<bool>)
    requires
        dead.len() == s.len(),
        forall|j: int| 0 <= j < s.len() ==> !#[trigger] dead[j],
    ensures
        kept(s, dead) == s,
    decreases s.len(),
{
    if s.len() > 0 {
        let n = s.len() - 1;
        lemma_kept_all(s.drop_last(), dead.take(n));
        assert(s.drop_last().push(s.last()) =~= s);
    }
}

proof fn lemma_wave_frame(w: Snapshot, inp: FrameInput, jitters: Seq<u64>)
    requires
        empty_field(w),
        no_keys(inp),
        inp.dt_us <= ENEMY_SPAWN_US,
        w.spawn.after_tick(inp.dt_us as u64).just_finished,
        w.next_id + WAVE_SIZE <= u64::MAX,
    ensures
        w.after_frame(inp, jitters).enemies.len() == WAVE_SIZE,
        forall|j: int| 0 <= j < WAVE_SIZE ==> (#[trigger] w.after_frame(inp, jitters).enemies[j]).id
            == w.next_id + j,
{
    let dt = inp.dt_us as u64;
    lemma_player_stays(w, inp);
    let a0 = w.player_moved(inp).player_fired(inp);
    assert(a0.enemies.len() == 0 && a0.bullets.len() == 0 && a0.next_id == w.next_id);
    let kind = wave_pattern(a0.wave_index);
    lemma_with_wave_members(a0, kind, jitters, WAVE_SIZE as nat);
    let a1 = a0.waves_spawned(inp, jitters);
    let a = a1.bodies_moved(inp);
    assert forall|j: int| 0 <= j < WAVE_SIZE implies (#[trigger] a.enemies[j]).id == w.next_id + j
        && a.enemies[j].y >= 276_000_000 by {
        assert(a1.enemies[0 + j] == a1.enemies[j]);
    }
    lemma_enemies_fired_place(a, dt, a.enemies.len());
    lemma_enemies_fired_keeps(a, dt, a.enemies.len());
    let b = a.enemies_fired(dt, a.enemies.len()).enemy_bullets_moved(inp);
    assert(b.bullets.len() == 0);
    assert(b.player == w.player);
    assert forall|j: int| 0 <= j < b.enemies.len() implies !crate::geometry::overlaps(
        crate::entities::player_box(b.player.unwrap()),
        #[trigger] crate::world::enemy_boxes(b.enemies)[j],
    ) by {
        assert(b.enemies[j].y == a.enemies[j].y);
    }
    crate::collision::lemma_first_overlap_is_lowest(
        crate::entities::player_box(b.player.unwrap()),
        crate::world::enemy_boxes(b.enemies),
    );
    let de = Seq::new(b.enemies.len(), |j: int| b.enemy_dead(j));
    assert forall|j: int| 0 <= j < b.enemies.len() implies !#[trigger] de[j] by {
        assert(b.enemies[j].y == a.enemies[j].y);
    }
    lemma_kept_all(b.enemies, de);
}

/// From a fresh game, idle frames of equal length adding up to the wave
/// interval leave the field empty until the last one, after which exactly one
/// wave stands: the enemies handed the first ids.
pub proof fn lemma_first_wave_after_interval(inp: FrameInput, jitters: Seq<u64>, n: nat)
    requires
        no_keys(inp),
        inp.dt_us > 0,
        n > 0,
        n * inp.dt_us == ENEMY_SPAWN_US,
        valid_jitters(jitters),
    ensures
        forall|k: nat| k < n ==> (#[trigger] frames(initial_snapshot(), inp, jitters, k)).enemies.len() == 0,
        frames(initial_snapshot(), inp, jitters, n).enemies.len() == WAVE_SIZE,
        forall|j: int| 0 <= j < WAVE_SIZE ==> (#[trigger] frames(initial_snapshot(), inp, jitters, n).enemies[j]).id
            == j,
{
    let s = initial_snapshot();
    let d = inp.dt_us as u64;
    lemma_timer_fires_once_per_period(s.spawn, d, n);
    lemma_idle_frames(inp, jitters, n, (n - 1) as nat);
    assert forall|k: nat| k < n implies (#[trigger] frames(s, inp, jitters, k)).enemies.len() == 0 by {
        lemma_idle_frames(inp, jitters, n, k);
    }
    let v = frames(s, inp, jitters, (n - 1) as nat);
    assert(v.spawn.after_tick(d) == s.spawn.after_ticks(d, n));
    assert(inp.dt_us <= ENEMY_SPAWN_US) by (nonlinear_arith)
        requires n > 0, n * inp.dt_us == ENEMY_SPAWN_US, inp.dt_us > 0;
    lemma_wave_frame(v, inp, jitters);
}

proof fn lemma_idle_frames(inp: FrameInput, jitters: Seq<u64>, n: nat, k: nat)
    requires
        no_keys(inp),
        inp.dt_us > 0,
        n * inp.dt_us == ENEMY_SPAWN_US,
        k < n,
    ensures
        empty_field(frames(initial_snapshot(), inp, jitters, k)),
        frames(initial_snapshot(), inp, jitters, k).spawn == initial_snapshot().spawn.after_ticks(
            inp.dt_us as u64,
            k,
        ),
        frames(initial_snapshot(), inp, jitters, k).next_id == 0,
    decreases k,
{
    let s = initial_snapshot();
    lemma_timer_fires_once_per_period(s.spawn, inp.dt_us as u64, n);
    if k > 0 {
        lemma_idle_frames(inp, jitters, n, (k - 1) as nat);
        let v = frames(s, inp, jitters, (k - 1) as nat);
        assert(!s.spawn.after_ticks(inp.dt_us as u64, k).just_finished);
        lemma_idle_frame(v, inp, jitters);
    }
}

} // verus!
