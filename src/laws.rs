use vstd::prelude::*;

use crate::entity::{front, mark_collision, pop_front, Entity, Tick};
use crate::grid::{grid_step, spawn_step, GridView};
use crate::lane::{
    clear_collision, cleared, due, empty_lane, field_step, lane_step, lemma_pass_len, pass,
    LaneView,
};
use crate::state::SpawnRates;

verus! {

/// 1 for `true`, 0 for `false`.
pub open spec fn tally(b: bool) -> nat {
    if b {
        1
    } else {
        0
    }
}

/// The number of entries of a field that satisfy `p`.
pub open spec fn field_count(f: Seq<Entity>, p: spec_fn(Entity) -> bool) -> nat
    decreases f.len(),
{
    if f.len() == 0 {
        0
    } else {
        tally(p(f[0])) + field_count(f.drop_first(), p)
    }
}

/// The number of entries of a lane, over all its fields, that satisfy `p`.
pub open spec fn lane_count(l: LaneView, p: spec_fn(Entity) -> bool) -> nat
    decreases l.len(),
{
    if l.len() == 0 {
        0
    } else {
        field_count(l[0], p) + lane_count(l.drop_first(), p)
    }
}

/// Attackers and projectiles: the entities that move.
pub open spec fn movers() -> spec_fn(Entity) -> bool {
    |e: Entity| e is Zombie || e is Bullet
}

/// Attackers.
pub open spec fn attackers() -> spec_fn(Entity) -> bool {
    |e: Entity| e is Zombie
}

/// Whether a field has a bullet at its front.
pub open spec fn front_is_bullet(f: Seq<Entity>) -> bool {
    match front(f) {
        Some(Entity::Bullet(_)) => true,
        _ => false,
    }
}

/// Whether a field has an attacker at its front.
pub open spec fn front_is_zombie(f: Seq<Entity>) -> bool {
    match front(f) {
        Some(Entity::Zombie(_)) => true,
        _ => false,
    }
}

/// Whether processing field `i` makes an attacker and a projectile destroy each other.
pub open spec fn collision_at(l: LaneView, i: int, tick: Tick) -> bool {
    match front(l[i]) {
        Some(Entity::Zombie(_)) => i > 0 && front_is_bullet(l[i - 1]),
        Some(Entity::Bullet(m)) => m != tick && i + 1 < l.len() && front_is_zombie(l[i + 1]),
        _ => false,
    }
}

/// Whether processing field `i` makes an attacker or a projectile leave the lane.
pub open spec fn exit_at(l: LaneView, i: int, tick: Tick) -> bool {
    match front(l[i]) {
        Some(Entity::Zombie(_)) => i == 0,
        Some(Entity::Bullet(m)) => m != tick && i + 1 >= l.len(),
        _ => false,
    }
}

/// The number of collisions while fields `0 .. n` are processed.
pub open spec fn collisions(l: LaneView, n: nat, tick: Tick, rates: SpawnRates) -> nat
    decreases n,
{
    if n == 0 {
        0
    } else {
        collisions(l, (n - 1) as nat, tick, rates) + tally(
            collision_at(pass(l, (n - 1) as nat, tick, rates), n - 1, tick),
        )
    }
}

/// The number of exits while fields `0 .. n` are processed.
pub open spec fn exits(l: LaneView, n: nat, tick: Tick, rates: SpawnRates) -> nat
    decreases n,
{
    if n == 0 {
        0
    } else {
        exits(l, (n - 1) as nat, tick, rates) + tally(
            exit_at(pass(l, (n - 1) as nat, tick, rates), n - 1, tick),
        )
    }
}

/// The number of collisions during one tick of a lane.
pub open spec fn tick_collisions(l: LaneView, tick: Tick, rates: SpawnRates) -> nat {
    collisions(cleared(l), l.len(), tick, rates)
}

/// The number of exits during one tick of a lane.
pub open spec fn tick_exits(l: LaneView, tick: Tick, rates: SpawnRates) -> nat {
    exits(cleared(l), l.len(), tick, rates)
}

proof fn lemma_field_count_push(f: Seq<Entity>, e: Entity, p: spec_fn(Entity) -> bool)
    ensures
        field_count(f.push(e), p) == field_count(f, p) + tally(p(e)),
    decreases f.len(),
{
    if f.len() == 0 {
        assert(f.push(e).drop_first() =~= Seq::<Entity>::empty());
        assert(field_count(Seq::<Entity>::empty(), p) == 0);
    } else {
        assert(f.push(e).drop_first() =~= f.drop_first().push(e));
        assert(f.push(e)[0] == f[0]);
        lemma_field_count_push(f.drop_first(), e, p);
    }
}

proof fn lemma_field_count_pop_front(f: Seq<Entity>, p: spec_fn(Entity) -> bool)
    ensures
        f.len() > 0 ==> field_count(pop_front(f), p) + tally(p(f[0])) == field_count(f, p),
        f.len() == 0 ==> field_count(pop_front(f), p) == 0,
{
}

proof fn lemma_field_count_mark(f: Seq<Entity>, p: spec_fn(Entity) -> bool)
    requires
        f.len() > 0,
        !p(Entity::Collision),
    ensures
        field_count(mark_collision(f), p) + tally(p(f[0])) == field_count(f, p),
{
    assert(mark_collision(f).drop_first() =~= pop_front(f));
}

proof fn lemma_lane_count_update(l: LaneView, i: int, f: Seq<Entity>, p: spec_fn(Entity) -> bool)
    requires
        0 <= i < l.len(),
    ensures
        lane_count(l.update(i, f), p) + field_count(l[i], p) == lane_count(l, p) + field_count(f, p),
    decreases l.len(),
{
    if i == 0 {
        assert(l.update(i, f).drop_first() =~= l.drop_first());
    } else {
        assert(l.update(i, f).drop_first() =~= l.drop_first().update(i - 1, f));
        lemma_lane_count_update(l.drop_first(), i - 1, f, p);
    }
}

proof fn lemma_cleared_count(l: LaneView, p: spec_fn(Entity) -> bool)
    requires
        !p(Entity::Collision),
    ensures
        lane_count(cleared(l), p) == lane_count(l, p),
        cleared(l).len() == l.len(),
    decreases l.len(),
{
    if l.len() > 0 {
        assert(cleared(l).drop_first() =~= cleared(l.drop_first()));
        lemma_cleared_count(l.drop_first(), p);
        assert(field_count(clear_collision(l[0]), p) == field_count(l[0], p));
    }
}

/// One field's processing, with turrets silent, loses two movers per collision and one
/// per exit.
proof fn lemma_field_step_movers(l: LaneView, i: int, tick: Tick, rates: SpawnRates)
    requires
        0 <= i < l.len(),
        rates.bullets_each_x_ticks == 0,
    ensures
        field_step(l, i, tick, rates).len() == l.len(),
        lane_count(field_step(l, i, tick, rates), movers()) + 2 * tally(collision_at(l, i, tick))
            + tally(exit_at(l, i, tick)) == lane_count(l, movers()),
{
    let p = movers();
    let cur = l[i];
    let r = field_step(l, i, tick, rates);
    match front(cur) {
        Some(Entity::Zombie(_)) => {
            lemma_field_count_pop_front(cur, p);
            let l1 = l.update(i, pop_front(cur));
            lemma_lane_count_update(l, i, pop_front(cur), p);
            if i > 0 {
                let prev = l[i - 1];
                assert(l1[i - 1] == prev);
                match front(prev) {
                    None | Some(Entity::Collision) => {
                        lemma_field_count_push(prev, Entity::Zombie(tick), p);
                        lemma_lane_count_update(l1, i - 1, prev.push(Entity::Zombie(tick)), p);
                    },
                    Some(Entity::Bullet(_)) => {
                        lemma_field_count_mark(prev, p);
                        lemma_lane_count_update(l1, i - 1, mark_collision(prev), p);
                    },
                    Some(Entity::Turret) => {
                        lemma_field_count_pop_front(prev, p);
                        lemma_field_count_push(pop_front(prev), Entity::Zombie(tick), p);
                        lemma_lane_count_update(
                            l1,
                            i - 1,
                            pop_front(prev).push(Entity::Zombie(tick)),
                            p,
                        );
                    },
                    Some(Entity::Zombie(_)) => {
                        assert(r =~= l);
                    },
                }
            }
        },
        Some(Entity::Bullet(m)) => {
            if m == tick {
                assert(r =~= l);
            } else if i + 1 >= l.len() {
                lemma_field_count_pop_front(cur, p);
                lemma_lane_count_update(l, i, pop_front(cur), p);
            } else {
                let next = l[i + 1];
                let l1 = l.update(i, pop_front(cur));
                assert(l1[i + 1] == next);
                match front(next) {
                    None | Some(Entity::Bullet(_)) => {
                        lemma_field_count_pop_front(cur, p);
                        lemma_lane_count_update(l, i, pop_front(cur), p);
                        lemma_field_count_push(next, Entity::Bullet(tick), p);
                        lemma_lane_count_update(l1, i + 1, next.push(Entity::Bullet(tick)), p);
                    },
                    Some(Entity::Zombie(_)) => {
                        lemma_field_count_pop_front(cur, p);
                        lemma_lane_count_update(l, i, pop_front(cur), p);
                        lemma_field_count_mark(next, p);
                        lemma_lane_count_update(l1, i + 1, mark_collision(next), p);
                    },
                    _ => {
                        assert(r =~= l);
                    },
                }
            }
        },
        Some(Entity::Turret) => {
            assert(r =~= l);
        },
        _ => {},
    }
}

/// The pass over fields `0 .. n`, with turrets silent, loses two movers per collision and
/// one per exit.
proof fn lemma_pass_movers(l: LaneView, n: nat, tick: Tick, rates: SpawnRates)
    requires
        n <= l.len(),
        rates.bullets_each_x_ticks == 0,
    ensures
        lane_count(pass(l, n, tick, rates), movers()) + 2 * collisions(l, n, tick, rates) + exits(
            l,
            n,
            tick,
            rates,
        ) == lane_count(l, movers()),
    decreases n,
{
    if n > 0 {
        lemma_pass_movers(l, (n - 1) as nat, tick, rates);
        lemma_pass_len(l, (n - 1) as nat, tick, rates);
        lemma_field_step_movers(pass(l, (n - 1) as nat, tick, rates), n - 1, tick, rates);
    }
}

/// Conservation: with no attacker spawning and no turret fire, one tick changes the number
/// of attackers and projectiles in a lane only by its collisions, which remove two each,
/// and its exits past either end, which remove one each; so the number never grows.
pub proof fn law_conservation(g: GridView, k: int, tick: Tick, rates: SpawnRates)
    requires
        0 <= k < g.len(),
        g[k] is Some,
        rates.zombies_each_x_ticks == 0,
        rates.bullets_each_x_ticks == 0,
    ensures
        grid_step(g, tick, rates)[k] is Some,
        lane_count(grid_step(g, tick, rates)[k]->0, movers()) + 2 * tick_collisions(
            g[k]->0,
            tick,
            rates,
        ) + tick_exits(g[k]->0, tick, rates) == lane_count(g[k]->0, movers()),
        lane_count(grid_step(g, tick, rates)[k]->0, movers()) <= lane_count(g[k]->0, movers()),
{
    let l = g[k]->0;
    lemma_cleared_count(l, movers());
    lemma_pass_movers(cleared(l), l.len(), tick, rates);
    assert(grid_step(g, tick, rates)[k] == Some(lane_step(l, tick, rates)));
}

/// A lane holding `e` alone, in field `p`.
pub open spec fn single(p: int, e: Entity) -> LaneView {
    empty_lane().update(p, seq![e])
}

/// Whether the front of a field does nothing when processed: it is empty or a marker.
pub open spec fn idle(f: Seq<Entity>) -> bool {
    f.len() == 0 || f[0] == Entity::Collision
}

/// Processing idle fields changes nothing.
proof fn lemma_pass_skip(l: LaneView, a: nat, b: nat, tick: Tick, rates: SpawnRates)
    requires
        a <= b,
        forall|j: int| a <= j < b ==> idle(#[trigger] pass(l, a, tick, rates)[j]),
    ensures
        pass(l, b, tick, rates) == pass(l, a, tick, rates),
    decreases b,
{
    if b > a {
        lemma_pass_skip(l, a, (b - 1) as nat, tick, rates);
        assert(idle(pass(l, (b - 1) as nat, tick, rates)[b - 1]));
    }
}

proof fn lemma_single_cleared(p: int, e: Entity)
    requires
        0 <= p < 9,
        e != Entity::Collision,
    ensures
        cleared(single(p, e)) == single(p, e),
{
    assert(cleared(single(p, e)) =~= single(p, e));
}

/// Empty lanes stay empty: without attacker spawning, a tick leaves an empty lane empty,
/// whatever the tick and the turret cadence, and so it stays empty for every later tick.
pub proof fn law_empty_lane_stays_empty(g: GridView, k: int, tick: Tick, rates: SpawnRates)
    requires
        0 <= k < g.len(),
        g[k] == Some(empty_lane()),
        rates.zombies_each_x_ticks == 0,
    ensures
        grid_step(g, tick, rates)[k] == Some(empty_lane()),
{
    let l = empty_lane();
    assert(cleared(l) =~= l);
    lemma_pass_skip(l, 0, 9, tick, rates);
    assert(grid_step(g, tick, rates)[k] == Some(spawn_step(lane_step(l, tick, rates), tick, 0)));
}

/// A lone attacker advances exactly one field towards the defended end per tick, stamped
/// with the tick, and leaves the lane from field 0.
pub proof fn law_attacker_advances(p: int, m: Tick, tick: Tick, rates: SpawnRates)
    requires
        0 <= p < 9,
    ensures
        lane_step(single(p, Entity::Zombie(m)), tick, rates) == if p == 0 {
            empty_lane()
        } else {
            single(p - 1, Entity::Zombie(tick))
        },
{
    let l = single(p, Entity::Zombie(m));
    lemma_single_cleared(p, Entity::Zombie(m));
    lemma_pass_skip(l, 0, p as nat, tick, rates);
    let r = field_step(l, p, tick, rates);
    assert(seq![Entity::Zombie(m)].drop_first() =~= Seq::<Entity>::empty());
    assert(Seq::<Entity>::empty().push(Entity::Zombie(tick)) =~= seq![Entity::Zombie(tick)]);
    if p == 0 {
        assert(r =~= empty_lane());
    } else {
        assert(r =~= single(p - 1, Entity::Zombie(tick)));
    }
    assert(pass(l, (p + 1) as nat, tick, rates) == r);
    lemma_pass_skip(l, (p + 1) as nat, 9, tick, rates);
}

/// A lone projectile advances exactly one field towards the spawn end per tick, stamped
/// with the tick, and leaves the lane past the last field; one already stamped with the
/// current tick does not move again.
pub proof fn law_projectile_advances(p: int, m: Tick, tick: Tick, rates: SpawnRates)
    requires
        0 <= p < 9,
    ensures
        lane_step(single(p, Entity::Bullet(m)), tick, rates) == if m == tick {
            single(p, Entity::Bullet(m))
        } else if p == 8 {
            empty_lane()
        } else {
            single(p + 1, Entity::Bullet(tick))
        },
{
    let l = single(p, Entity::Bullet(m));
    lemma_single_cleared(p, Entity::Bullet(m));
    lemma_pass_skip(l, 0, p as nat, tick, rates);
    let r = field_step(l, p, tick, rates);
    assert(seq![Entity::Bullet(m)].drop_first() =~= Seq::<Entity>::empty());
    assert(Seq::<Entity>::empty().push(Entity::Bullet(tick)) =~= seq![Entity::Bullet(tick)]);
    assert(pass(l, (p + 1) as nat, tick, rates) == r);
    if m == tick {
        assert(r =~= l);
        lemma_pass_skip(l, (p + 1) as nat, 9, tick, rates);
    } else if p == 8 {
        assert(r =~= empty_lane());
    } else {
        let expected = single(p + 1, Entity::Bullet(tick));
        assert(r =~= expected);
        assert(field_step(r, p + 1, tick, rates) =~= r);
        assert(pass(l, (p + 2) as nat, tick, rates) == r);
        lemma_pass_skip(l, (p + 2) as nat, 9, tick, rates);
    }
}

/// A projectile flying into an attacker: both vanish and one collision marker is left
/// where the attacker stood.
pub proof fn law_collision_adjacent(p: int, m: Tick, z: Tick, tick: Tick, rates: SpawnRates)
    requires
        0 <= p,
        p + 1 < 9,
        m != tick,
    ensures
        lane_step(
            single(p, Entity::Bullet(m)).update(p + 1, seq![Entity::Zombie(z)]),
            tick,
            rates,
        ) == single(p + 1, Entity::Collision),
{
    let l = single(p, Entity::Bullet(m)).update(p + 1, seq![Entity::Zombie(z)]);
    assert(cleared(l) =~= l);
    lemma_pass_skip(l, 0, p as nat, tick, rates);
    let r = field_step(l, p, tick, rates);
    assert(seq![Entity::Bullet(m)].drop_first() =~= Seq::<Entity>::empty());
    assert(mark_collision(seq![Entity::Zombie(z)]) =~= seq![Entity::Collision]);
    assert(r =~= single(p + 1, Entity::Collision));
    assert(pass(l, (p + 1) as nat, tick, rates) == r);
    lemma_pass_skip(l, (p + 1) as nat, 9, tick, rates);
}

/// An attacker walking into the field that a projectile just entered: both vanish and one
/// collision marker is left in that field.
pub proof fn law_collision_across_gap(p: int, m: Tick, z: Tick, tick: Tick, rates: SpawnRates)
    requires
        0 <= p,
        p + 2 < 9,
        m != tick,
    ensures
        lane_step(
            single(p, Entity::Bullet(m)).update(p + 2, seq![Entity::Zombie(z)]),
            tick,
            rates,
        ) == single(p + 1, Entity::Collision),
{
    let l = single(p, Entity::Bullet(m)).update(p + 2, seq![Entity::Zombie(z)]);
    assert(cleared(l) =~= l);
    lemma_pass_skip(l, 0, p as nat, tick, rates);
    let r1 = field_step(l, p, tick, rates);
    assert(seq![Entity::Bullet(m)].drop_first() =~= Seq::<Entity>::empty());
    assert(seq![Entity::Zombie(z)].drop_first() =~= Seq::<Entity>::empty());
    assert(Seq::<Entity>::empty().push(Entity::Bullet(tick)) =~= seq![Entity::Bullet(tick)]);
    assert(r1 =~= single(p + 1, Entity::Bullet(tick)).update(p + 2, seq![Entity::Zombie(z)]));
    assert(pass(l, (p + 1) as nat, tick, rates) == r1);
    assert(field_step(r1, p + 1, tick, rates) =~= r1);
    assert(pass(l, (p + 2) as nat, tick, rates) == r1);
    let r3 = field_step(r1, p + 2, tick, rates);
    assert(mark_collision(seq![Entity::Bullet(tick)]) =~= seq![Entity::Collision]);
    assert(r3 =~= single(p + 1, Entity::Collision));
    assert(pass(l, (p + 3) as nat, tick, rates) == r3);
    lemma_pass_skip(l, (p + 3) as nat, 9, tick, rates);
}

/// A collision marker vanishes on the next tick and has no other effect.
pub proof fn law_marker_vanishes(q: int, tick: Tick, rates: SpawnRates)
    requires
        0 <= q < 9,
    ensures
        lane_step(single(q, Entity::Collision), tick, rates) == empty_lane(),
{
    let l = single(q, Entity::Collision);
    assert(seq![Entity::Collision].drop_first() =~= Seq::<Entity>::empty());
    assert(cleared(l) =~= empty_lane());
    lemma_pass_skip(empty_lane(), 0, 9, tick, rates);
}

proof fn lemma_lane_count_part(l: LaneView, i: int, p: spec_fn(Entity) -> bool)
    requires
        0 <= i < l.len(),
    ensures
        field_count(l[i], p) <= lane_count(l, p),
        l[i].len() > 0 ==> tally(p(l[i][0])) <= field_count(l[i], p),
{
    lemma_lane_count_update(l, i, Seq::empty(), p);
}

/// Without attackers, one field's processing creates none.
proof fn lemma_field_step_no_attackers(l: LaneView, i: int, tick: Tick, rates: SpawnRates)
    requires
        0 <= i < l.len(),
        lane_count(l, attackers()) == 0,
    ensures
        field_step(l, i, tick, rates).len() == l.len(),
        lane_count(field_step(l, i, tick, rates), attackers()) == 0,
{
    let p = attackers();
    let cur = l[i];
    let r = field_step(l, i, tick, rates);
    lemma_lane_count_part(l, i, p);
    lemma_field_count_pop_front(cur, p);
    match front(cur) {
        Some(Entity::Bullet(m)) => {
            if m == tick {
                assert(r =~= l);
            } else if i + 1 >= l.len() {
                lemma_lane_count_update(l, i, pop_front(cur), p);
            } else {
                let next = l[i + 1];
                let l1 = l.update(i, pop_front(cur));
                assert(l1[i + 1] == next);
                lemma_lane_count_part(l, i + 1, p);
                match front(next) {
                    None | Some(Entity::Bullet(_)) => {
                        lemma_lane_count_update(l, i, pop_front(cur), p);
                        lemma_field_count_push(next, Entity::Bullet(tick), p);
                        lemma_lane_count_update(l1, i + 1, next.push(Entity::Bullet(tick)), p);
                    },
                    _ => {
                        assert(r =~= l);
                    },
                }
            }
        },
        Some(Entity::Turret) => {
            if !due(tick, rates.bullets_each_x_ticks) || i + 1 >= l.len() {
                assert(r =~= l);
            } else {
                let next = l[i + 1];
                lemma_lane_count_part(l, i + 1, p);
                assert(l.update(i, cur) =~= l);
                lemma_field_count_push(next, Entity::Bullet(tick), p);
                lemma_lane_count_update(l, i + 1, next.push(Entity::Bullet(tick)), p);
            }
        },
        _ => {},
    }
}

proof fn lemma_pass_no_attackers(l: LaneView, n: nat, tick: Tick, rates: SpawnRates)
    requires
        n <= l.len(),
        lane_count(l, attackers()) == 0,
    ensures
        pass(l, n, tick, rates).len() == l.len(),
        lane_count(pass(l, n, tick, rates), attackers()) == 0,
    decreases n,
{
    if n > 0 {
        lemma_pass_no_attackers(l, (n - 1) as nat, tick, rates);
        lemma_field_step_no_attackers(pass(l, (n - 1) as nat, tick, rates), n - 1, tick, rates);
    }
}

/// Attacker cadence: with one attacker every second tick, a lane without attackers gains
/// exactly one, at the back of the spawn-end field, on each even tick, and none on odd
/// ticks; on an even tick a projectile at the front of the spawn-end field is removed
/// instead.
pub proof fn law_spawn_cadence(g: GridView, k: int, tick: Tick, rates: SpawnRates)
    requires
        0 <= k < g.len(),
        g[k] is Some,
        g[k]->0.len() == 9,
        lane_count(g[k]->0, attackers()) == 0,
        rates.zombies_each_x_ticks == 2,
    ensures
        ({
            let after = lane_step(g[k]->0, tick, rates);
            let r = grid_step(g, tick, rates)[k];
            &&& after.len() == 9
            &&& r is Some
            &&& tick % 2 == 1 ==> r->0 == after && lane_count(r->0, attackers()) == 0
            &&& tick % 2 == 0 && !front_is_bullet(after[8]) ==> r->0 == after.update(
                8,
                after[8].push(Entity::Zombie(tick)),
            ) && lane_count(r->0, attackers()) == 1
            &&& tick % 2 == 0 && front_is_bullet(after[8]) ==> r->0 == after.update(
                8,
                after[8].drop_first(),
            ) && lane_count(r->0, attackers()) == 0
        }),
{
    let l = g[k]->0;
    let p = attackers();
    lemma_cleared_count(l, p);
    lemma_pass_no_attackers(cleared(l), l.len(), tick, rates);
    let after = lane_step(l, tick, rates);
    assert(grid_step(g, tick, rates)[k] == Some(spawn_step(after, tick, 2)));
    lemma_lane_count_part(after, 8, p);
    if tick % 2 == 0 {
        if front_is_bullet(after[8]) {
            lemma_field_count_pop_front(after[8], p);
            lemma_lane_count_update(after, 8, after[8].drop_first(), p);
        } else {
            lemma_field_count_push(after[8], Entity::Zombie(tick), p);
            lemma_lane_count_update(after, 8, after[8].push(Entity::Zombie(tick)), p);
        }
    }
}

} // verus!
