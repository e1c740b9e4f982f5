use vstd::prelude::*;
use crate::consts::{
    BULLET_HALF_H, BULLET_HALF_W, ENEMY_BULLET_HALF_H, ENEMY_BULLET_HALF_W, ENEMY_HALF_H, ENEMY_HALF_W,
    PLAYER_RADIUS,
};
use crate::geometry::Aabb;
use crate::motion::MotionKind;
use crate::timer::Timer;

verus! {

/// The two phases of a game.
#[derive(Clone, Copy, Debug, PartialEq, Eq, Structural)]
pub enum GameState {
    Playing,
    GameOver,
}

#[derive(Clone, Copy, Debug, PartialEq, Eq, Structural)]
pub struct Player {
    pub x: i64,
    pub y: i64,
}

/// A bullet fired by the player; it climbs.
#[derive(Clone, Copy, Debug, PartialEq, Eq, Structural)]
pub struct Bullet {
    pub id: u64,
    pub x: i64,
    pub y: i64,
}

/// A bullet fired by an enemy; it falls.
#[derive(Clone, Copy, Debug, PartialEq, Eq, Structural)]
pub struct EnemyBullet {
    pub id: u64,
    pub x: i64,
    pub y: i64,
}

/// A descending enemy, its sideways pattern and its own fire timer.
#[derive(Clone, Copy, Debug, PartialEq, Eq, Structural)]
pub struct Enemy {
    pub id: u64,
    pub x: i64,
    pub y: i64,
    pub kind: MotionKind,
    /// Anchor of the sideways pattern.
    pub base_x: i64,
    /// Time spent alive, in microseconds.
    pub t: u64,
    pub fire: Timer,
}

/// The player's fire cooldown.
#[derive(Clone, Copy, Debug, PartialEq, Eq, Structural)]
pub struct FireState {
    pub timer: Timer,
}

/// The interval between enemy waves.
#[derive(Clone, Copy, Debug, PartialEq, Eq, Structural)]
pub struct EnemySpawnTimer {
    pub timer: Timer,
}

pub open spec fn player_box(p: Player) -> Aabb {
    Aabb { cx: p.x, cy: p.y, hx: PLAYER_RADIUS, hy: PLAYER_RADIUS }
}

pub open spec fn bullet_box(b: Bullet) -> Aabb {
    Aabb { cx: b.x, cy: b.y, hx: BULLET_HALF_W, hy: BULLET_HALF_H }
}

pub open spec fn enemy_box(e: Enemy) -> Aabb {
    Aabb { cx: e.x, cy: e.y, hx: ENEMY_HALF_W, hy: ENEMY_HALF_H }
}

pub open spec fn enemy_bullet_box(b: EnemyBullet) -> Aabb {
    Aabb { cx: b.x, cy: b.y, hx: ENEMY_BULLET_HALF_W, hy: ENEMY_BULLET_HALF_H }
}

impl Player {
    pub fn hitbox(&self) -> (r: Aabb)
        ensures
            r == player_box(*self),
    {
        Aabb { cx: self.x, cy: self.y, hx: PLAYER_RADIUS, hy: PLAYER_RADIUS }
    }
}

impl Bullet {
    pub fn hitbox(&self) -> (r: Aabb)
        ensures
            r == bullet_box(*self),
    {
        Aabb { cx: self.x, cy: self.y, hx: BULLET_HALF_W, hy: BULLET_HALF_H }
    }
}

impl Enemy {
    pub fn hitbox(&self) -> (r: Aabb)
        ensures
            r == enemy_box(*self),
    {
        Aabb { cx: self.x, cy: self.y, hx: ENEMY_HALF_W, hy: ENEMY_HALF_H }
    }
}

impl EnemyBullet {
    pub fn hitbox(&self) -> (r: Aabb)
        ensures
            r == enemy_bullet_box(*self),
    {
        Aabb { cx: self.x, cy: self.y, hx: ENEMY_BULLET_HALF_W, hy: ENEMY_BULLET_HALF_H }
    }
}

} // verus!
