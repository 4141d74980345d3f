use std::collections::VecDeque;
use vstd::prelude::*;

verus! {

/// The simulation clock, also used as the "last moved" stamp of moving entities.
pub type Tick = u32;

/// One occupant of a field.
#[derive(Debug, Clone, Copy, PartialEq, Eq, Structural)]
pub enum Entity {
    /// An attacker; walks towards index 0. Carries the tick on which it last moved.
    Zombie(Tick),
    /// A stationary defender that fires bullets towards the spawn end.
    Turret,
    /// A projectile; flies towards the spawn end. Carries the tick on which it last moved.
    Bullet(Tick),
    /// A marker left for one tick where two entities destroyed each other.
    Collision,
}

/// One cell of a lane. The front is the occupant present this tick; entries at the
/// back arrived during the current tick.
#[derive(Debug, Default, Clone, PartialEq)]
pub struct Field(pub VecDeque<Entity>);

impl View for Field {
    type V = Seq<Entity>;

    open spec fn view(&self) -> Seq<Entity> {
        self.0@
    }
}

/// The occupant at the front of a field, if any.
pub open spec fn front(f: Seq<Entity>) -> Option<Entity> {
    if f.len() > 0 {
        Some(f[0])
    } else {
        None
    }
}

/// A field without its front occupant; an empty field stays empty.
pub open spec fn pop_front(f: Seq<Entity>) -> Seq<Entity> {
    if f.len() > 0 {
        f.drop_first()
    } else {
        f
    }
}

/// A field whose front occupant is replaced by a collision marker.
pub open spec fn mark_collision(f: Seq<Entity>) -> Seq<Entity> {
    seq![Entity::Collision] + pop_front(f)
}

/// The contents of an optional field.
pub open spec fn opt_view(f: Option<Field>) -> Option<Seq<Entity>> {
    match f {
        Some(f) => Some(f@),
        None => None,
    }
}

/// Where an attacker at the front of `cur` ends up, given the field it walks into
/// (`None` past the defended end): the new contents of both fields.
pub open spec fn zombie_step(cur: Seq<Entity>, prev: Option<Seq<Entity>>, tick: Tick) -> (
    Seq<Entity>,
    Option<Seq<Entity>>,
) {
    match prev {
        None => (pop_front(cur), None),
        Some(p) => match front(p) {
            None | Some(Entity::Collision) => (pop_front(cur), Some(p.push(Entity::Zombie(tick)))),
            Some(Entity::Bullet(_)) => (pop_front(cur), Some(mark_collision(p))),
            Some(Entity::Turret) => (pop_front(cur), Some(pop_front(p).push(Entity::Zombie(tick)))),
            Some(Entity::Zombie(_)) => (cur, Some(p)),
        },
    }
}

impl Field {
    /// An empty field.
    pub fn new() -> (r: Field)
        ensures
            r@ == Seq::<Entity>::empty(),
    {
        Field(VecDeque::new())
    }

    /// The occupant at the front of the field.
    pub fn front(&self) -> (r: Option<Entity>)
        ensures
            r == front(self@),
    {
        if self.0.len() > 0 {
            Some(self.0[0])
        } else {
            None
        }
    }

    /// Removes the front occupant, if there is one.
    pub fn pop_front(&mut self)
        ensures
            final(self)@ == pop_front(old(self)@),
    {
        let _ = self.0.pop_front();
    }

    /// Adds an occupant at the back.
    pub fn push_back(&mut self, e: Entity)
        ensures
            final(self)@ == old(self)@.push(e),
    {
        self.0.push_back(e);
    }

    /// Replaces the front occupant by a collision marker.
    pub fn mark_collision(&mut self)
        ensures
            final(self)@ == mark_collision(old(self)@),
    {
        let _ = self.0.pop_front();
        self.0.push_front(Entity::Collision);
        proof {
            assert(self@ =~= mark_collision(old(self)@));
        }
    }
}

impl Entity {
    /// Moves the attacker at the front of `current_field` (`_entity`) one field towards
    /// the defended end, into `opt_prev_field` (`None`: it leaves the lane there).
    pub(crate) fn move_zombie(
        _entity: Entity,
        current_tick: Tick,
        current_field: Field,
        opt_prev_field: Option<Field>,
    ) -> (r: (Field, Option<Field>))
        ensures
            (r.0@, opt_view(r.1)) == zombie_step(current_field@, opt_view(opt_prev_field), current_tick),
    {
        let mut current_field = current_field;
        match opt_prev_field {
            None => {
                current_field.pop_front();
                (current_field, None)
            },
            Some(prev_field) => {
                let mut prev_field = prev_field;
                match prev_field.front() {
                    None | Some(Entity::Collision) => {
                        current_field.pop_front();
                        prev_field.push_back(Entity::Zombie(current_tick));
                        (current_field, Some(prev_field))
                    },
                    Some(Entity::Bullet(_)) => {
                        current_field.pop_front();
                        prev_field.mark_collision();
                        (current_field, Some(prev_field))
                    },
                    Some(Entity::Turret) => {
                        current_field.pop_front();
                        prev_field.pop_front();
                        prev_field.push_back(Entity::Zombie(current_tick));
                        (current_field, Some(prev_field))
                    },
                    Some(Entity::Zombie(_)) => (current_field, Some(prev_field)),
                }
            },
        }
    }
}

impl core::ops::Deref for Field {
    type Target = VecDeque<Entity>;

    fn deref(&self) -> (r: &VecDeque<Entity>)
        ensures
            r@ == self@,
    {
        &self.0
    }
}

impl core::ops::DerefMut for Field {
    fn deref_mut(&mut self) -> (r: &mut VecDeque<Entity>)
        ensures
            *r == old(self).0,
            final(self).0 == *final(r),
    {
        &mut self.0
    }
}

} // verus!
