use vstd::prelude::*;
use crate::geometry::{aabb_overlap, overlaps, Aabb};

verus! {

/// Index of the first box of `bs`, from `i` on, that overlaps `a`.
pub open spec fn first_overlap_from(a: Aabb, bs: Seq<Aabb>, i: int) -> Option<int>
    decreases bs.len() - i,
{
    if i < 0 || i >= bs.len() {
        None
    } else if overlaps(a, bs[i]) {
        Some(i)
    } else {
        first_overlap_from(a, bs, i + 1)
    }
}

/// Index of the first box of `bs` that overlaps `a`.
pub open spec fn first_overlap(a: Aabb, bs: Seq<Aabb>) -> Option<int> {
    first_overlap_from(a, bs, 0)
}

/// The first overlap is the lowest index that overlaps; there is none only
/// when no box overlaps.
pub proof fn lemma_first_overlap_is_lowest(a: Aabb, bs: Seq<Aabb>)
    ensures
        match first_overlap(a, bs) {
            Some(j) => 0 <= j < bs.len() && overlaps(a, bs[j]) && forall|k: int|
                0 <= k < j ==> !overlaps(a, #[trigger] bs[k]),
            None => forall|k: int| 0 <= k < bs.len() ==> !overlaps(a, #[trigger] bs[k]),
        },
{
    lemma_first_overlap_from(a, bs, 0);
}

proof fn lemma_first_overlap_from(a: Aabb, bs: Seq<Aabb>, i: int)
    requires
        0 <= i <= bs.len(),
    ensures
        match first_overlap_from(a, bs, i) {
            Some(j) => i <= j < bs.len() && overlaps(a, bs[j]) && forall|k: int|
                i <= k < j ==> !overlaps(a, #[trigger] bs[k]),
            None => forall|k: int| i <= k < bs.len() ==> !overlaps(a, #[trigger] bs[k]),
        },
    decreases bs.len() - i,
{
    if i < bs.len() {
        lemma_first_overlap_from(a, bs, i + 1);
    }
}

/// Scans `bs` in order and returns the index of the first box that overlaps `a`.
pub fn first_overlap_index(a: &Aabb, bs: &Vec<Aabb>) -> (r: Option<usize>)
    ensures
        match r {
            Some(j) => first_overlap(*a, bs@) == Some(j as int),
            None => first_overlap(*a, bs@) == None::<int>,
        },
{
    let mut i: usize = 0;
    while i < bs.len()
        invariant
            i <= bs.len(),
            first_overlap_from(*a, bs@, 0) == first_overlap_from(*a, bs@, i as int),
        decreases bs.len() - i,
    {
        if aabb_overlap(a, &bs[i]) {
            return Some(i);
        }
        i = i + 1;
    }
    None
}

/// The index of the box of `bs` that `a` hits first, if `a` is there at all.
pub open spec fn first_hit_of(a: Option<Aabb>, bs: Seq<Aabb>) -> Option<int> {
    match a {
        Some(b) => first_overlap(b, bs),
        None => None,
    }
}

/// Whether some shot of `shots` hits the target at index `j` first.
pub open spec fn hit_by_some(shots: Seq<Aabb>, targets: Seq<Aabb>, j: int) -> bool {
    exists|i: int| 0 <= i < shots.len() && first_overlap(#[trigger] shots[i], targets) == Some(j)
}

/// What one frame's three collision checks remove: one flag per bullet, per
/// enemy and per enemy bullet, and whether the player is hit.
pub struct Hits {
    pub bullets: Vec<bool>,
    pub enemies: Vec<bool>,
    pub enemy_bullets: Vec<bool>,
    pub player: bool,
}

/// The removals owed for one frame, all checks seeing the same snapshot:
/// each bullet takes the first enemy it overlaps; the player takes the first
/// enemy and the first enemy bullet it overlaps and is then hit.
pub open spec fn hits_are(
    h: Hits,
    player: Option<Aabb>,
    bullets: Seq<Aabb>,
    enemies: Seq<Aabb>,
    enemy_bullets: Seq<Aabb>,
) -> bool {
    &&& h.bullets@.len() == bullets.len()
    &&& h.enemies@.len() == enemies.len()
    &&& h.enemy_bullets@.len() == enemy_bullets.len()
    &&& forall|i: int|
        0 <= i < bullets.len() ==> #[trigger] h.bullets@[i] == first_overlap(bullets[i], enemies).is_some()
    &&& forall|j: int|
        0 <= j < enemies.len() ==> #[trigger] h.enemies@[j] == (hit_by_some(bullets, enemies, j)
            || first_hit_of(player, enemies) == Some(j))
    &&& forall|k: int|
        0 <= k < enemy_bullets.len() ==> #[trigger] h.enemy_bullets@[k] == (first_hit_of(
            player,
            enemy_bullets,
        ) == Some(k))
    &&& h.player == (first_hit_of(player, enemies).is_some() || first_hit_of(
        player,
        enemy_bullets,
    ).is_some())
}

fn falses(n: usize) -> (r: Vec<bool>)
    ensures
        r@.len() == n,
        forall|i: int| 0 <= i < n ==> !#[trigger] r@[i],
{
    let mut v: Vec<bool> = Vec::new();
    while v.len() < n
        invariant
            v@.len() <= n,
            forall|i: int| 0 <= i < v@.len() ==> !#[trigger] v@[i],
        decreases n - v@.len(),
    {
        v.push(false);
    }
    v
}

/// Runs the three collision checks of a frame on one snapshot of the boxes.
pub fn resolve_hits(
    player: Option<Aabb>,
    bullets: &Vec<Aabb>,
    enemies: &Vec<Aabb>,
    enemy_bullets: &Vec<Aabb>,
) -> (h: Hits)
    ensures
        hits_are(h, player, bullets@, enemies@, enemy_bullets@),
{
    let mut dead_bullets = falses(bullets.len());
    let mut dead_enemies = falses(enemies.len());
    let mut dead_enemy_bullets = falses(enemy_bullets.len());
    let mut i: usize = 0;
    while i < bullets.len()
        invariant
            i <= bullets@.len(),
            dead_bullets@.len() == bullets@.len(),
            dead_enemies@.len() == enemies@.len(),
            forall|k: int| 0 <= k < i ==> #[trigger] dead_bullets@[k] == first_overlap(
                bullets@[k],
                enemies@,
            ).is_some(),
            forall|k: int| i <= k < bullets@.len() ==> !#[trigger] dead_bullets@[k],
            forall|j: int| 0 <= j < enemies@.len() ==> #[trigger] dead_enemies@[j] == exists|k: int|
                0 <= k < i && first_overlap(#[trigger] bullets@[k], enemies@) == Some(j),
        decreases bullets@.len() - i,
    {
        let hit = first_overlap_index(&bullets[i], enemies);
        proof {
            lemma_first_overlap_is_lowest(bullets@[i as int], enemies@);
        }
        match hit {
            Some(j) => {
                dead_bullets.set(i, true);
                dead_enemies.set(j, true);
            },
            None => {},
        }
        proof {
            assert forall|j: int| 0 <= j < enemies@.len() implies #[trigger] dead_enemies@[j]
                == exists|k: int| 0 <= k < i + 1 && first_overlap(
                #[trigger] bullets@[k],
                enemies@,
            ) == Some(j) by {
                if first_overlap(bullets@[i as int], enemies@) == Some(j) {
                    assert(0 <= i < i + 1 && first_overlap(bullets@[i as int], enemies@) == Some(j));
                }
            }
        }
        i = i + 1;
    }
    let mut player_hit = false;
    match player {
        Some(p) => {
            proof {
                lemma_first_overlap_is_lowest(p, enemies@);
                lemma_first_overlap_is_lowest(p, enemy_bullets@);
            }
            match first_overlap_index(&p, enemies) {
                Some(j) => {
                    dead_enemies.set(j, true);
                    player_hit = true;
                },
                None => {},
            }
            match first_overlap_index(&p, enemy_bullets) {
                Some(k) => {
                    dead_enemy_bullets.set(k, true);
                    player_hit = true;
                },
                None => {},
            }
        },
        None => {},
    }
    Hits {
        bullets: dead_bullets,
        enemies: dead_enemies,
        enemy_bullets: dead_enemy_bullets,
        player: player_hit,
    }
}

} // verus!
