use vstd::prelude::*;

use crate::entity::{Entity, Field, Tick};
use crate::grid::{grid_step, Grid, GridView};
use crate::lane::{empty_lane, Lane, LaneView};

verus! {

/// How often attackers enter each lane and turrets fire, in ticks; 0 disables either.
#[derive(Debug, Clone, Copy, PartialEq, Eq, Structural)]
pub struct SpawnRates {
    pub zombies_each_x_ticks: Tick,
    pub bullets_each_x_ticks: Tick,
}

/// The whole simulation: the clock, the battlefield and its cadences.
#[derive(Debug, Clone, PartialEq)]
pub struct State {
    /// The wall-clock time between ticks that a driver should use; not read by the
    /// simulation itself.
    pub tick_interval_ms: u16,
    pub tick: Tick,
    pub grid: Grid,
    pub spawn_rates: SpawnRates,
}

/// A grid whose only active lane is `l`, in the middle slot.
pub open spec fn middle_lane_grid(l: LaneView) -> GridView {
    seq![None, None, Some(l), None, None]
}

/// The starting lane of the demonstration: a turret at the defended end and an attacker
/// in each of the last two fields.
pub open spec fn demo_lane() -> LaneView {
    empty_lane().update(0, seq![Entity::Turret]).update(7, seq![Entity::Zombie(0)]).update(
        8,
        seq![Entity::Zombie(0)],
    )
}

impl State {
    /// A fresh simulation at tick 0 with one empty active lane, where attackers enter and
    /// turrets fire every tick.
    pub fn new() -> (r: State)
        ensures
            r.tick == 0,
            r.tick_interval_ms == 700,
            r.spawn_rates == (SpawnRates { zombies_each_x_ticks: 1, bullets_each_x_ticks: 1 }),
            r.grid@ == middle_lane_grid(empty_lane()),
    {
        let r = State {
            tick: 0,
            tick_interval_ms: 700,
            spawn_rates: SpawnRates { zombies_each_x_ticks: 1, bullets_each_x_ticks: 1 },
            grid: Grid([None, None, Some(Lane::new()), None, None]),
        };
        assert(r.grid@ =~= middle_lane_grid(empty_lane()));
        r
    }

    /// Advances the simulation by one tick: the clock moves on by one and the grid takes
    /// one step at the new tick.
    pub fn next(&mut self)
        requires
            old(self).tick < Tick::MAX,
        ensures
            final(self).tick == old(self).tick + 1,
            final(self).grid@ == grid_step(old(self).grid@, final(self).tick, old(self).spawn_rates),
            final(self).spawn_rates == old(self).spawn_rates,
            final(self).tick_interval_ms == old(self).tick_interval_ms,
    {
        self.tick += 1;
        let mut grid = Grid::new();
        core::mem::swap(&mut grid, &mut self.grid);
        self.grid = State::grid_next(grid, self.tick, &self.spawn_rates);
    }
}

impl core::default::Default for State {
    /// The demonstration start: tick 0, a turret and two attackers in the middle lane,
    /// an attacker entering every tick and turrets firing every second tick.
    fn default() -> (r: State)
        ensures
            r.tick == 0,
            r.tick_interval_ms == 700,
            r.spawn_rates == (SpawnRates { zombies_each_x_ticks: 1, bullets_each_x_ticks: 2 }),
            r.grid@ == middle_lane_grid(demo_lane()),
    {
        let mut turret = Field::new();
        turret.push_back(Entity::Turret);
        let mut zombie_a = Field::new();
        zombie_a.push_back(Entity::Zombie(0));
        let mut zombie_b = Field::new();
        zombie_b.push_back(Entity::Zombie(0));
        let lane = Lane(
            [
                turret,
                Field::new(),
                Field::new(),
                Field::new(),
                Field::new(),
                Field::new(),
                Field::new(),
                zombie_a,
                zombie_b,
            ],
        );
        let r = State {
            tick: 0,
            tick_interval_ms: 700,
            spawn_rates: SpawnRates { zombies_each_x_ticks: 1, bullets_each_x_ticks: 2 },
            grid: Grid([None, None, Some(lane), None, None]),
        };
        assert(r.grid@[2]->0 =~= demo_lane());
        assert(r.grid@ =~= middle_lane_grid(demo_lane()));
        r
    }
}

} // verus!
