use vstd::prelude::*;

use crate::entity::{front, mark_collision, opt_view, pop_front, zombie_step, Entity, Field, Tick};
use crate::state::{SpawnRates, State};

verus! {

/// The number of fields in a lane; index 0 is the defended end, the last index the
/// spawn end.
pub const LANE_LEN: usize = 9;

/// One lane: a fixed row of fields.
#[derive(Debug, Default, Clone, PartialEq)]
pub struct Lane(pub [Field; 9]);

/// The contents of a lane, field by field.
pub type LaneView = Seq<Seq<Entity>>;

impl View for Lane {
    type V = LaneView;

    open spec fn view(&self) -> LaneView {
        self.0@.map_values(|f: Field| f@)
    }
}

/// Whether a cadence of one event every `interval` ticks is due on `tick`; an interval
/// of 0 is never due.
pub open spec fn due(tick: Tick, interval: Tick) -> bool {
    interval != 0 && tick % interval == 0
}

/// Where a bullet at the front of `cur`, stamped `last_moved`, ends up, given the field
/// it flies into (`None` past the spawn end): the new contents of both fields.
pub open spec fn bullet_step(last_moved: Tick, tick: Tick, cur: Seq<Entity>, next: Option<Seq<Entity>>) -> (
    Seq<Entity>,
    Option<Seq<Entity>>,
) {
    if last_moved == tick {
        (cur, next)
    } else {
        match next {
            None => (pop_front(cur), None),
            Some(n) => match front(n) {
                None | Some(Entity::Bullet(_)) => (pop_front(cur), Some(n.push(Entity::Bullet(tick)))),
                Some(Entity::Zombie(_)) => (pop_front(cur), Some(mark_collision(n))),
                _ => (cur, Some(n)),
            },
        }
    }
}

/// What a turret at the front of `cur` does to the field in front of it, firing once
/// every `interval` ticks: the new contents of both fields.
pub open spec fn turret_step(tick: Tick, interval: Tick, cur: Seq<Entity>, next: Option<Seq<Entity>>) -> (
    Seq<Entity>,
    Option<Seq<Entity>>,
) {
    if !due(tick, interval) {
        (cur, next)
    } else {
        match next {
            None => (cur, None),
            Some(n) => match front(n) {
                Some(Entity::Zombie(_)) => (cur, Some(mark_collision(n))),
                _ => (cur, Some(n.push(Entity::Bullet(tick)))),
            },
        }
    }
}

/// Writes back the two fields that one rule produced: field `i`, and field `j` when the
/// rule returned one and `j` lies in the lane.
pub open spec fn place(l: LaneView, i: int, j: int, r: (Seq<Entity>, Option<Seq<Entity>>)) -> LaneView {
    let l1 = l.update(i, r.0);
    match r.1 {
        Some(f) => if 0 <= j < l.len() {
            l1.update(j, f)
        } else {
            l1
        },
        None => l1,
    }
}

/// The field before index `i`, towards the defended end.
pub open spec fn prev_of(l: LaneView, i: int) -> Option<Seq<Entity>> {
    if i == 0 {
        None
    } else {
        Some(l[i - 1])
    }
}

/// The field after index `i`, towards the spawn end.
pub open spec fn next_of(l: LaneView, i: int) -> Option<Seq<Entity>> {
    if i + 1 >= l.len() {
        None
    } else {
        Some(l[i + 1])
    }
}

/// The lane after processing the occupant at the front of field `i`.
pub open spec fn field_step(l: LaneView, i: int, tick: Tick, rates: SpawnRates) -> LaneView {
    let cur = l[i];
    match front(cur) {
        Some(Entity::Zombie(_)) => place(l, i, i - 1, zombie_step(cur, prev_of(l, i), tick)),
        Some(Entity::Bullet(m)) => place(l, i, i + 1, bullet_step(m, tick, cur, next_of(l, i))),
        Some(Entity::Turret) => place(
            l,
            i,
            i + 1,
            turret_step(tick, rates.bullets_each_x_ticks, cur, next_of(l, i)),
        ),
        _ => l,
    }
}

/// The lane after processing fields `0 .. n` in index order.
pub open spec fn pass(l: LaneView, n: nat, tick: Tick, rates: SpawnRates) -> LaneView
    decreases n,
{
    if n == 0 {
        l
    } else {
        field_step(pass(l, (n - 1) as nat, tick, rates), n - 1, tick, rates)
    }
}

/// A field with a collision marker at its front loses it.
pub open spec fn clear_collision(f: Seq<Entity>) -> Seq<Entity> {
    if front(f) == Some(Entity::Collision) {
        f.drop_first()
    } else {
        f
    }
}

/// The lane with the collision markers of the previous tick removed.
pub open spec fn cleared(l: LaneView) -> LaneView {
    l.map_values(|f: Seq<Entity>| clear_collision(f))
}

/// One tick of a lane: markers are cleared, then every field is processed in index order.
pub open spec fn lane_step(l: LaneView, tick: Tick, rates: SpawnRates) -> LaneView {
    pass(cleared(l), l.len(), tick, rates)
}

/// A lane of empty fields.
pub open spec fn empty_lane() -> LaneView {
    Seq::new(9, |i: int| Seq::<Entity>::empty())
}

impl Lane {
    /// A lane of empty fields.
    pub fn new() -> (r: Lane)
        ensures
            r@ == empty_lane(),
    {
        let r = Lane(
            [
                Field::new(),
                Field::new(),
                Field::new(),
                Field::new(),
                Field::new(),
                Field::new(),
                Field::new(),
                Field::new(),
                Field::new(),
            ],
        );
        assert(r@ =~= empty_lane());
        r
    }

    /// Takes field `i` out of the lane, leaving an empty field in its place.
    fn take_field(&mut self, i: usize) -> (r: Field)
        requires
            i < LANE_LEN,
        ensures
            r@ == old(self)@[i as int],
            final(self)@ == old(self)@.update(i as int, Seq::empty()),
    {
        let mut f = Field::new();
        core::mem::swap(&mut f, &mut self.0[i]);
        assert(self@ =~= old(self)@.update(i as int, Seq::empty()));
        f
    }

    /// Puts `f` into the lane at index `i`.
    fn put_field(&mut self, i: usize, f: Field)
        requires
            i < LANE_LEN,
        ensures
            final(self)@ == old(self)@.update(i as int, f@),
    {
        self.0[i] = f;
        assert(self@ =~= old(self)@.update(i as int, f@));
    }

    /// Moves the bullet at the front of `current_field`, stamped `entity_last_moved_tick`,
    /// one field towards the spawn end, into `opt_next_field` (`None`: it leaves the lane).
    /// A bullet that already moved this tick stays.
    pub(crate) fn move_bullet(
        entity_last_moved_tick: Tick,
        current_tick: Tick,
        current_field: Field,
        opt_next_field: Option<Field>,
    ) -> (r: (Field, Option<Field>))
        ensures
            (r.0@, opt_view(r.1)) == bullet_step(
                entity_last_moved_tick,
                current_tick,
                current_field@,
                opt_view(opt_next_field),
            ),
    {
        if entity_last_moved_tick == current_tick {
            return (current_field, opt_next_field);
        }
        let mut current_field = current_field;
        match opt_next_field {
            Some(next_field) => {
                let mut next_field = next_field;
                match next_field.front() {
                    None | Some(Entity::Bullet(_)) => {
                        current_field.pop_front();
                        next_field.push_back(Entity::Bullet(current_tick));
                        (current_field, Some(next_field))
                    },
                    Some(Entity::Zombie(_)) => {
                        current_field.pop_front();
                        next_field.mark_collision();
                        (current_field, Some(next_field))
                    },
                    _ => (current_field, Some(next_field)),
                }
            },
            None => {
                current_field.pop_front();
                (current_field, None)
            },
        }
    }

    /// Lets the turret at the front of `current_field` fire into `opt_next_field` when its
    /// cadence is due: a new bullet, or a collision where an attacker stands.
    pub(crate) fn process_turret(
        current_tick: Tick,
        spawn_rates: &SpawnRates,
        current_field: Field,
        opt_next_field: Option<Field>,
    ) -> (r: (Field, Option<Field>))
        ensures
            (r.0@, opt_view(r.1)) == turret_step(
                current_tick,
                spawn_rates.bullets_each_x_ticks,
                current_field@,
                opt_view(opt_next_field),
            ),
    {
        if spawn_rates.bullets_each_x_ticks == 0 || current_tick % spawn_rates.bullets_each_x_ticks
            != 0 {
            return (current_field, opt_next_field);
        }
        match opt_next_field {
            None => (current_field, None),
            Some(next_field) => {
                let mut next_field = next_field;
                match next_field.front() {
                    Some(Entity::Zombie(_)) => {
                        next_field.mark_collision();
                        (current_field, Some(next_field))
                    },
                    _ => {
                        next_field.push_back(Entity::Bullet(current_tick));
                        (current_field, Some(next_field))
                    },
                }
            },
        }
    }
}

impl State {
    /// Removes the collision marker at the front of each field.
    pub fn remove_lane_collisions(lane: Lane) -> (r: Lane)
        ensures
            r@ == cleared(lane@),
    {
        let mut lane = lane;
        let ghost start = lane@;
        for i in 0..LANE_LEN
            invariant
                start.len() == LANE_LEN,
                lane@.len() == LANE_LEN,
                forall|j: int| 0 <= j < i ==> lane@[j] == clear_collision(start[j]),
                forall|j: int| i <= j < LANE_LEN ==> lane@[j] == start[j],
        {
            if let Some(Entity::Collision) = lane.0[i].front() {
                let mut field = lane.take_field(i);
                field.pop_front();
                lane.put_field(i, field);
            }
        }
        assert(lane@ =~= cleared(start));
        lane
    }

    /// One tick of a lane: collision markers of the previous tick are removed, then the
    /// front occupant of every field acts, in index order.
    pub fn lane_next(lane: Lane, tick: Tick, spawn_rates: &SpawnRates) -> (r: Lane)
        ensures
            r@ == lane_step(lane@, tick, *spawn_rates),
    {
        let mut lane = State::remove_lane_collisions(lane);
        let ghost start = lane@;
        for i in 0..LANE_LEN
            invariant
                start.len() == LANE_LEN,
                lane@ == pass(start, i as nat, tick, *spawn_rates),
        {
            proof {
                lemma_pass_len(start, i as nat, tick, *spawn_rates);
            }
            let ghost before = lane@;
            match lane.0[i].front() {
                Some(Entity::Zombie(last_moved_tick)) => {
                    let current_field = lane.take_field(i);
                    if i == 0 {
                        let (z_current, _) = Entity::move_zombie(
                            Entity::Zombie(last_moved_tick),
                            tick,
                            current_field,
                            None,
                        );
                        lane.put_field(i, z_current);
                    } else {
                        let prev_field = lane.take_field(i - 1);
                        let (z_current, z_prev) = Entity::move_zombie(
                            Entity::Zombie(last_moved_tick),
                            tick,
                            current_field,
                            Some(prev_field),
                        );
                        lane.put_field(i, z_current);
                        if let Some(p) = z_prev {
                            lane.put_field(i - 1, p);
                        }
                    }
                    assert(lane@ =~= field_step(before, i as int, tick, *spawn_rates));
                },
                Some(Entity::Bullet(last_moved_tick)) => {
                    let current_field = lane.take_field(i);
                    if i + 1 >= LANE_LEN {
                        let (b_current, _) = Lane::move_bullet(
                            last_moved_tick,
                            tick,
                            current_field,
                            None,
                        );
                        lane.put_field(i, b_current);
                    } else {
                        let next_field = lane.take_field(i + 1);
                        let (b_current, b_next) = Lane::move_bullet(
                            last_moved_tick,
                            tick,
                            current_field,
                            Some(next_field),
                        );
                        lane.put_field(i, b_current);
                        if let Some(n) = b_next {
                            lane.put_field(i + 1, n);
                        }
                    }
                    assert(lane@ =~= field_step(before, i as int, tick, *spawn_rates));
                },
                Some(Entity::Turret) => {
                    let current_field = lane.take_field(i);
                    if i + 1 >= LANE_LEN {
                        let (t_current, _) = Lane::process_turret(
                            tick,
                            spawn_rates,
                            current_field,
                            None,
                        );
                        lane.put_field(i, t_current);
                    } else {
                        let next_field = lane.take_field(i + 1);
                        let (t_current, t_next) = Lane::process_turret(
                            tick,
                            spawn_rates,
                            current_field,
                            Some(next_field),
                        );
                        lane.put_field(i, t_current);
                        if let Some(n) = t_next {
                            lane.put_field(i + 1, n);
                        }
                    }
                    assert(lane@ =~= field_step(before, i as int, tick, *spawn_rates));
                },
                _ => {},
            }
        }
        lane
    }
}

impl core::ops::Deref for Lane {
    type Target = [Field; 9];

    fn deref(&self) -> (r: &[Field; 9])
        ensures
            *r == self.0,
    {
        &self.0
    }
}

impl core::ops::DerefMut for Lane {
    fn deref_mut(&mut self) -> (r: &mut [Field; 9])
        ensures
            *r == old(self).0,
            final(self).0 == *final(r),
    {
        &mut self.0
    }
}


/// Processing fields keeps the lane's length.
pub proof fn lemma_pass_len(l: LaneView, n: nat, tick: Tick, rates: SpawnRates)
    requires
        n <= l.len(),
    ensures
        pass(l, n, tick, rates).len() == l.len(),
    decreases n,
{
    if n > 0 {
        lemma_pass_len(l, (n - 1) as nat, tick, rates);
    }
}

} // verus!
