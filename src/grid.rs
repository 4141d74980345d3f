use vstd::prelude::*;

use crate::entity::{front, Entity, Field, Tick};
use crate::lane::{due, lane_step, Lane, LaneView, LANE_LEN};
use crate::state::{SpawnRates, State};

verus! {

/// The number of lane slots on the battlefield.
pub const GRID_LEN: usize = 5;

/// The battlefield: lane slots, `None` where a lane is not in use.
#[derive(Debug, Default, Clone, PartialEq)]
pub struct Grid(pub [Option<Lane>; 5]);

/// The contents of a grid, slot by slot.
pub type GridView = Seq<Option<LaneView>>;

/// The contents of an optional lane.
pub open spec fn opt_lane_view(o: Option<Lane>) -> Option<LaneView> {
    match o {
        Some(l) => Some(l@),
        None => None,
    }
}

impl View for Grid {
    type V = GridView;

    open spec fn view(&self) -> GridView {
        self.0@.map_values(|o: Option<Lane>| opt_lane_view(o))
    }
}

/// The spawn pass on one lane: when the attacker cadence is due, a bullet at the front of
/// the spawn-end field is removed, or else a new attacker joins that field at the back.
pub open spec fn spawn_step(l: LaneView, tick: Tick, interval: Tick) -> LaneView {
    let last = l.len() - 1;
    if !due(tick, interval) {
        l
    } else if front(l[last]) is Some && front(l[last])->0 is Bullet {
        l.update(last, l[last].drop_first())
    } else {
        l.update(last, l[last].push(Entity::Zombie(tick)))
    }
}

/// The lane step on a lane slot.
pub open spec fn slot_lane_step(o: Option<LaneView>, tick: Tick, rates: SpawnRates) -> Option<LaneView> {
    match o {
        Some(l) => Some(lane_step(l, tick, rates)),
        None => None,
    }
}

/// The spawn pass on a lane slot.
pub open spec fn slot_spawn_step(o: Option<LaneView>, tick: Tick, rates: SpawnRates) -> Option<LaneView> {
    match o {
        Some(l) => Some(spawn_step(l, tick, rates.zombies_each_x_ticks)),
        None => None,
    }
}

/// One tick of a lane slot: the lane step, then the spawn pass.
pub open spec fn slot_step(o: Option<LaneView>, tick: Tick, rates: SpawnRates) -> Option<LaneView> {
    slot_spawn_step(slot_lane_step(o, tick, rates), tick, rates)
}

/// One tick of the battlefield: every active lane steps, then receives its spawn pass.
pub open spec fn grid_step(g: GridView, tick: Tick, rates: SpawnRates) -> GridView {
    g.map_values(|o: Option<LaneView>| slot_step(o, tick, rates))
}

impl Lane {
    /// The spawn pass on this lane, for an attacker cadence of one every `interval` ticks.
    pub fn spawn(&mut self, tick: Tick, interval: Tick)
        ensures
            final(self)@ == spawn_step(old(self)@, tick, interval),
    {
        if interval != 0 && tick % interval == 0 {
            let last = LANE_LEN - 1;
            let mut field = Field::new();
            core::mem::swap(&mut field, &mut self.0[last]);
            match field.front() {
                Some(Entity::Bullet(_)) => field.pop_front(),
                _ => field.push_back(Entity::Zombie(tick)),
            }
            self.0[last] = field;
            assert(self@ =~= spawn_step(old(self)@, tick, interval));
        }
    }
}

impl Grid {
    /// A grid with no active lane.
    pub fn new() -> (r: Grid)
        ensures
            r@ == Seq::new(5, |i: int| None::<LaneView>),
    {
        let r = Grid([None, None, None, None, None]);
        assert(r@ =~= Seq::new(5, |i: int| None::<LaneView>));
        r
    }

    /// Takes lane slot `i` out of the grid, leaving it inactive.
    fn take_lane(&mut self, i: usize) -> (r: Option<Lane>)
        requires
            i < GRID_LEN,
        ensures
            opt_lane_view(r) == old(self)@[i as int],
            final(self)@ == old(self)@.update(i as int, None),
    {
        let mut o = None;
        core::mem::swap(&mut o, &mut self.0[i]);
        assert(self@ =~= old(self)@.update(i as int, None));
        o
    }

    /// Puts `o` into lane slot `i`.
    fn put_lane(&mut self, i: usize, o: Option<Lane>)
        requires
            i < GRID_LEN,
        ensures
            final(self)@ == old(self)@.update(i as int, opt_lane_view(o)),
    {
        self.0[i] = o;
        assert(self@ =~= old(self)@.update(i as int, opt_lane_view(o)));
    }
}

impl State {
    /// One tick of the battlefield: every active lane takes its lane step, then every
    /// active lane receives the spawn pass.
    pub fn grid_next(grid: Grid, tick: Tick, spawn_rates: &SpawnRates) -> (r: Grid)
        ensures
            r@ == grid_step(grid@, tick, *spawn_rates),
    {
        let mut grid = grid;
        let ghost start = grid@;
        for i in 0..GRID_LEN
            invariant
                start.len() == GRID_LEN,
                grid@.len() == GRID_LEN,
                forall|j: int| 0 <= j < i ==> grid@[j] == slot_lane_step(start[j], tick, *spawn_rates),
                forall|j: int| i <= j < GRID_LEN ==> grid@[j] == start[j],
        {
            if let Some(lane) = grid.take_lane(i) {
                grid.put_lane(i, Some(State::lane_next(lane, tick, spawn_rates)));
            }
        }
        let ghost stepped = grid@;
        assert(stepped =~= start.map_values(|o: Option<LaneView>| slot_lane_step(o, tick, *spawn_rates)));
        for i in 0..GRID_LEN
            invariant
                start.len() == GRID_LEN,
                stepped.len() == GRID_LEN,
                grid@.len() == GRID_LEN,
                forall|j: int| 0 <= j < i ==> grid@[j] == slot_spawn_step(stepped[j], tick, *spawn_rates),
                forall|j: int| i <= j < GRID_LEN ==> grid@[j] == stepped[j],
        {
            if let Some(lane) = grid.take_lane(i) {
                let mut lane = lane;
                lane.spawn(tick, spawn_rates.zombies_each_x_ticks);
                grid.put_lane(i, Some(lane));
            }
        }
        assert(grid@ =~= grid_step(start, tick, *spawn_rates));
        grid
    }
}

impl core::ops::Deref for Grid {
    type Target = [Option<Lane>; 5];

    fn deref(&self) -> (r: &[Option<Lane>; 5])
        ensures
            *r == self.0,
    {
        &self.0
    }
}

impl core::ops::DerefMut for Grid {
    fn deref_mut(&mut self) -> (r: &mut [Option<Lane>; 5])
        ensures
            *r == old(self).0,
            final(self).0 == *final(r),
    {
        &mut self.0
    }
}

} // verus!
