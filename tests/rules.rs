use std::collections::VecDeque;

use zombie_zone::{Entity, Field, Grid, Lane, SpawnRates, State};

fn field(entities: &[Entity]) -> Field {
    Field(entities.iter().copied().collect::<VecDeque<Entity>>())
}

fn lane(fields: [&[Entity]; 9]) -> Lane {
    Lane(fields.map(field))
}

fn empty() -> [&'static [Entity]; 9] {
    [&[]; 9]
}

fn state(tick: u32, lane: Lane, zombies: u32, bullets: u32) -> State {
    State {
        tick,
        tick_interval_ms: 700,
        spawn_rates: SpawnRates {
            zombies_each_x_ticks: zombies,
            bullets_each_x_ticks: bullets,
        },
        grid: Grid([None, None, Some(lane), None, None]),
    }
}

fn middle(state: &State) -> &Lane {
    state.grid.0[2].as_ref().unwrap()
}

fn movers(lane: &Lane) -> usize {
    lane.0
        .iter()
        .map(|f| {
            f.0.iter()
                .filter(|e| matches!(e, Entity::Zombie(_) | Entity::Bullet(_)))
                .count()
        })
        .sum()
}

fn zombies(lane: &Lane) -> usize {
    lane.0
        .iter()
        .map(|f| f.0.iter().filter(|e| matches!(e, Entity::Zombie(_))).count())
        .sum()
}

#[test]
fn defender_destroys_attacker_in_front_of_it() {
    let mut fields = empty();
    fields[0] = &[Entity::Turret];
    fields[1] = &[Entity::Zombie(0)];
    let mut s = state(0, lane(fields), 0, 1);

    s.next();
    assert_eq!(s.tick, 1);
    assert_eq!(middle(&s).0[0], field(&[Entity::Turret]));
    assert_eq!(middle(&s).0[1], field(&[Entity::Collision]));
    assert_eq!(movers(middle(&s)), 0);

    // The marker is gone on the next tick and the defender is still in place; as it fires
    // every tick, its new bullet now stands in field 1.
    s.next();
    assert_eq!(middle(&s).0[0], field(&[Entity::Turret]));
    assert_eq!(middle(&s).0[1], field(&[Entity::Bullet(2)]));
    for i in 2..9 {
        assert!(middle(&s).0[i].is_empty());
    }
}

#[test]
fn projectile_and_attacker_meet_in_the_field_between_them() {
    let mut fields = empty();
    fields[0] = &[Entity::Bullet(0)];
    fields[2] = &[Entity::Zombie(0)];
    let mut s = state(0, lane(fields), 0, 0);

    s.next();
    assert!(middle(&s).0[0].is_empty());
    assert_eq!(middle(&s).0[1], field(&[Entity::Collision]));
    assert!(middle(&s).0[2].is_empty());

    s.next();
    for i in 0..9 {
        assert!(middle(&s).0[i].is_empty());
    }
}

#[test]
fn empty_lane_stays_empty_without_spawning() {
    let mut s = state(0, lane(empty()), 0, 0);
    for _ in 0..12 {
        s.next();
        assert_eq!(middle(&s), &lane(empty()));
    }
    assert_eq!(s.tick, 12);
    assert!(s.grid.0[0].is_none());
    assert!(s.grid.0[4].is_none());
}

#[test]
fn movers_only_vanish_by_collision_or_exit() {
    let mut fields = empty();
    fields[0] = &[Entity::Bullet(0)];
    fields[1] = &[Entity::Zombie(0)];
    fields[5] = &[Entity::Zombie(0)];
    fields[8] = &[Entity::Bullet(0)];
    let mut s = state(0, lane(fields), 0, 0);
    assert_eq!(movers(middle(&s)), 4);

    // One collision (two lost) and one bullet leaving past the spawn end (one lost).
    s.next();
    assert_eq!(movers(middle(&s)), 1);
    assert_eq!(middle(&s).0[1], field(&[Entity::Collision]));
    assert_eq!(middle(&s).0[4], field(&[Entity::Zombie(1)]));
    assert!(middle(&s).0[8].is_empty());

    // Nothing meets and nothing leaves: the count holds.
    s.next();
    assert_eq!(movers(middle(&s)), 1);
}

#[test]
fn lone_attacker_walks_one_field_per_tick_then_leaves() {
    let mut fields = empty();
    fields[8] = &[Entity::Zombie(0)];
    let mut s = state(0, lane(fields), 0, 0);
    for t in 1..=8u32 {
        s.next();
        let at = 8 - t as usize;
        for i in 0..9 {
            if i == at {
                assert_eq!(middle(&s).0[i], field(&[Entity::Zombie(t)]));
            } else {
                assert!(middle(&s).0[i].is_empty());
            }
        }
    }
    s.next();
    assert_eq!(middle(&s), &lane(empty()));
}

#[test]
fn lone_projectile_flies_one_field_per_tick_then_leaves() {
    let mut fields = empty();
    fields[0] = &[Entity::Bullet(0)];
    let mut s = state(0, lane(fields), 0, 0);
    for t in 1..=8u32 {
        s.next();
        let at = t as usize;
        for i in 0..9 {
            if i == at {
                assert_eq!(middle(&s).0[i], field(&[Entity::Bullet(t)]));
            } else {
                assert!(middle(&s).0[i].is_empty());
            }
        }
    }
    s.next();
    assert_eq!(middle(&s), &lane(empty()));
}

#[test]
fn projectile_stamped_this_tick_does_not_move() {
    let mut fields = empty();
    fields[3] = &[Entity::Bullet(5)];
    let l = lane(fields);
    let rates = SpawnRates {
        zombies_each_x_ticks: 0,
        bullets_each_x_ticks: 0,
    };
    assert_eq!(State::lane_next(l.clone(), 5, &rates), l);
}

#[test]
fn spawn_cadence_only_on_due_ticks() {
    let mut s = state(0, lane(empty()), 3, 0);
    for t in 1..=7u32 {
        s.next();
        let expected = if t % 3 == 0 { 1 } else { 0 };
        let last = middle(&s).0[8].0.back() == Some(&Entity::Zombie(t));
        assert_eq!(last, expected == 1);
    }
    assert_eq!(zombies(middle(&s)), 2);
}

#[test]
fn inbound_projectile_at_spawn_end_cancels_spawn() {
    let mut fields = empty();
    fields[7] = &[Entity::Bullet(0)];
    let mut s = state(1, lane(fields), 2, 0);

    s.next();
    assert_eq!(s.tick, 2);
    assert!(middle(&s).0[7].is_empty());
    assert!(middle(&s).0[8].is_empty());
    assert_eq!(zombies(middle(&s)), 0);
    assert_eq!(movers(middle(&s)), 0);
}

#[test]
fn zero_intervals_never_spawn_or_fire() {
    let mut fields = empty();
    fields[0] = &[Entity::Turret];
    let mut s = state(0, lane(fields), 0, 0);
    for _ in 0..6 {
        s.next();
    }
    assert_eq!(middle(&s), &lane(fields));
}

#[test]
fn turret_fires_behind_a_waiting_bullet() {
    let mut fields = empty();
    fields[0] = &[Entity::Turret];
    fields[1] = &[Entity::Bullet(0)];
    let mut s = state(0, lane(fields), 0, 1);

    s.next();
    assert_eq!(middle(&s).0[0], field(&[Entity::Turret]));
    assert_eq!(middle(&s).0[1], field(&[Entity::Bullet(1)]));
    assert_eq!(middle(&s).0[2], field(&[Entity::Bullet(1)]));
}

#[test]
fn attacker_waits_behind_a_blocked_attacker() {
    let mut fields = empty();
    fields[3] = &[Entity::Zombie(0), Entity::Zombie(0)];
    fields[4] = &[Entity::Zombie(0)];
    let mut s = state(0, lane(fields), 0, 0);

    s.next();
    assert_eq!(middle(&s).0[2], field(&[Entity::Zombie(1)]));
    assert_eq!(middle(&s).0[3], field(&[Entity::Zombie(0)]));
    assert_eq!(middle(&s).0[4], field(&[Entity::Zombie(0)]));
}

#[test]
fn lane_next_clears_last_ticks_markers_first() {
    let mut fields = empty();
    fields[3] = &[Entity::Collision];
    fields[4] = &[Entity::Zombie(0)];
    let rates = SpawnRates {
        zombies_each_x_ticks: 0,
        bullets_each_x_ticks: 0,
    };
    let mut expected = empty();
    expected[3] = &[Entity::Zombie(1)];
    assert_eq!(State::lane_next(lane(fields), 1, &rates), lane(expected));
}

#[test]
fn remove_lane_collisions_takes_only_front_markers() {
    let mut fields = empty();
    fields[2] = &[Entity::Collision, Entity::Zombie(3)];
    fields[5] = &[Entity::Bullet(3), Entity::Collision];
    let mut expected = empty();
    expected[2] = &[Entity::Zombie(3)];
    expected[5] = &[Entity::Bullet(3), Entity::Collision];
    assert_eq!(State::remove_lane_collisions(lane(fields)), lane(expected));
}

#[test]
fn grid_next_steps_every_active_lane_and_spawns() {
    let mut a = empty();
    a[4] = &[Entity::Zombie(0)];
    let mut b = empty();
    b[4] = &[Entity::Bullet(0)];
    let grid = Grid([Some(lane(a)), None, Some(lane(b)), None, None]);
    let rates = SpawnRates {
        zombies_each_x_ticks: 1,
        bullets_each_x_ticks: 0,
    };
    let next = State::grid_next(grid, 1, &rates);

    let mut a_next = empty();
    a_next[3] = &[Entity::Zombie(1)];
    a_next[8] = &[Entity::Zombie(1)];
    let mut b_next = empty();
    b_next[5] = &[Entity::Bullet(1)];
    b_next[8] = &[Entity::Zombie(1)];
    assert_eq!(
        next,
        Grid([Some(lane(a_next)), None, Some(lane(b_next)), None, None])
    );
}

#[test]
fn new_state_has_one_empty_lane() {
    let s = State::new();
    assert_eq!(s.tick, 0);
    assert_eq!(s.tick_interval_ms, 700);
    assert_eq!(
        s.spawn_rates,
        SpawnRates {
            zombies_each_x_ticks: 1,
            bullets_each_x_ticks: 1,
        }
    );
    assert_eq!(s.grid, Grid([None, None, Some(lane(empty())), None, None]));
}

#[test]
fn default_state_is_the_demonstration_start() {
    let s = State::default();
    let mut fields = empty();
    fields[0] = &[Entity::Turret];
    fields[7] = &[Entity::Zombie(0)];
    fields[8] = &[Entity::Zombie(0)];
    assert_eq!(s.tick, 0);
    assert_eq!(
        s.spawn_rates,
        SpawnRates {
            zombies_each_x_ticks: 1,
            bullets_each_x_ticks: 2,
        }
    );
    assert_eq!(s.grid, Grid([None, None, Some(lane(fields)), None, None]));
}

#[test]
fn demonstration_first_tick() {
    let mut s = State::default();
    s.next();
    let mut fields = empty();
    fields[0] = &[Entity::Turret];
    fields[6] = &[Entity::Zombie(1)];
    fields[7] = &[Entity::Zombie(1)];
    fields[8] = &[Entity::Zombie(1)];
    assert_eq!(middle(&s), &lane(fields));
}
