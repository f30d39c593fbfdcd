use crate::config::Config;
use vstd::prelude::*;

verus! {

/// A fish may breed once it has reached this age.
pub const FISH_BREEDING_AGE: u32 = 3;

/// A shark may breed once it has reached this age.
pub const SHARK_BREEDING_AGE: u32 = 5;

/// The energy a shark gains from one fish.
pub const MEAL_ENERGY: u32 = 2;

/// The occupant of one cell.
#[derive(Clone, Copy, Debug, PartialEq, Eq, Structural)]
pub enum Entity {
    Fish { age: u32 },
    Shark { age: u32, energy: u32 },
    Empty,
}

impl Entity {
    /// The age of the occupant; an empty cell has age 0.
    pub open spec fn years(self) -> nat {
        match self {
            Entity::Fish { age } => age as nat,
            Entity::Shark { age, .. } => age as nat,
            Entity::Empty => 0,
        }
    }

    /// The energy of a shark; anything else has none.
    pub open spec fn reserve(self) -> nat {
        match self {
            Entity::Shark { energy, .. } => energy as nat,
            _ => 0,
        }
    }

    /// The occupant one chronon older: a year is added, and a shark burns one
    /// unit of energy unless it has none left.
    pub open spec fn deprived(self) -> Entity {
        match self {
            Entity::Fish { age } => Entity::Fish { age: (age + 1) as u32 },
            Entity::Shark { age, energy } => Entity::Shark {
                age: (age + 1) as u32,
                energy: if energy > 0 { (energy - 1) as u32 } else { 0 },
            },
            Entity::Empty => Entity::Empty,
        }
    }

    /// A shark after a meal; anything else is unchanged.
    pub open spec fn fed(self) -> Entity {
        match self {
            Entity::Shark { age, energy } => Entity::Shark {
                age,
                energy: (energy + MEAL_ENERGY) as u32,
            },
            other => other,
        }
    }

    /// A newborn of the same kind.
    pub open spec fn offspring(self, config: Config) -> Entity {
        match self {
            Entity::Fish { .. } => Entity::Fish { age: 0 },
            Entity::Shark { .. } => Entity::Shark { age: 0, energy: config.shark_energy },
            Entity::Empty => Entity::Empty,
        }
    }

    /// Old enough to breed.
    pub open spec fn fertile(self) -> bool {
        match self {
            Entity::Fish { age } => age >= FISH_BREEDING_AGE,
            Entity::Shark { age, .. } => age >= SHARK_BREEDING_AGE,
            Entity::Empty => false,
        }
    }

    /// Past its age limit, or a shark without energy.
    pub open spec fn dead(self, config: Config) -> bool {
        match self {
            Entity::Fish { age } => age >= config.fish_age,
            Entity::Shark { age, energy } => age >= config.shark_age || energy == 0,
            Entity::Empty => false,
        }
    }

    /// What a mover leaves in the cell it came from: a newborn if it is
    /// old enough to breed, nothing otherwise.
    pub open spec fn left_behind(self, config: Config) -> Entity {
        if self.fertile() {
            self.offspring(config)
        } else {
            Entity::Empty
        }
    }

    /// The occupant after one chronon has passed over it: a year older, or
    /// gone if that year killed it.
    pub open spec fn outlived(self, config: Config) -> Entity {
        if self.deprived().dead(config) {
            Entity::Empty
        } else {
            self.deprived()
        }
    }

    /// What one cell is seeded with. A shark draw wins over a fish draw, and
    /// both newcomers have age 0.
    pub open spec fn seed(shark: bool, fish: bool, config: Config) -> Entity {
        if shark {
            Entity::Shark { age: 0, energy: config.shark_energy }
        } else if fish {
            Entity::Fish { age: 0 }
        } else {
            Entity::Empty
        }
    }

    /// The counters of this occupant have room for the rest of its life.
    /// Its age can still rise by one. A shark's energy rises by at most one
    /// per chronon (one unit burnt, two gained from a meal) and it dies at
    /// `shark_age`, so its energy must leave room for the years it has left.
    pub open spec fn within_limits(self, config: Config) -> bool {
        match self {
            Entity::Fish { age } => age < u32::MAX,
            Entity::Shark { age, energy } => age < u32::MAX && energy + config.shark_age
                <= u32::MAX + age,
            Entity::Empty => true,
        }
    }

    /// An occupant within its limits that outlives a chronon can take a meal
    /// afterwards, and is within its limits again with or without that meal.
    pub proof fn lemma_outlived_within_limits(self, config: Config)
        requires
            self.within_limits(config),
        ensures
            self.outlived(config).within_limits(config),
            self.outlived(config).reserve() + MEAL_ENERGY <= u32::MAX,
            self.outlived(config).fed().within_limits(config),
    {
    }

    /// The offspring of a sustainable configuration is within its limits.
    pub proof fn lemma_offspring_within_limits(self, config: Config)
        requires
            config.sustainable(),
        ensures
            self.offspring(config).within_limits(config),
            self.left_behind(config).within_limits(config),
            forall|shark: bool, fish: bool| #[trigger]
                Entity::seed(shark, fish, config).within_limits(config),
    {
    }

    /// Decides `within_limits`.
    pub fn fits(&self, config: Config) -> (ok: bool)
        ensures
            ok == self.within_limits(config),
    {
        match self {
            Entity::Fish { age } => *age < u32::MAX,
            Entity::Shark { age, energy } => *age < u32::MAX && *energy as u64
                + config.shark_age as u64 <= u32::MAX as u64 + *age as u64,
            Entity::Empty => true,
        }
    }

    /// The occupant that a cell is seeded with, given its two draws.
    pub fn seeded(shark: bool, fish: bool, config: Config) -> (e: Self)
        ensures
            e == Entity::seed(shark, fish, config),
    {
        if shark {
            Entity::Shark { age: 0, energy: config.shark_energy }
        } else if fish {
            Entity::Fish { age: 0 }
        } else {
            Entity::Empty
        }
    }

    pub fn is_fish(&self) -> (yes: bool)
        ensures
            yes == (self is Fish),
    {
        matches!(self, Entity::Fish { .. })
    }

    pub fn is_shark(&self) -> (yes: bool)
        ensures
            yes == (self is Shark),
    {
        matches!(self, Entity::Shark { .. })
    }

    pub fn is_empty(&self) -> (yes: bool)
        ensures
            yes == (self is Empty),
    {
        matches!(self, Entity::Empty)
    }

    /// Feeds a shark: its energy rises by `MEAL_ENERGY`, with no upper limit
    /// but that of the counter. Anything else is left as it is.
    pub fn gain_energy(&mut self)
        requires
            old(self).reserve() + MEAL_ENERGY <= u32::MAX,
        ensures
            *final(self) == old(self).fed(),
            final(self).reserve() == if *old(self) is Shark {
                old(self).reserve() + 2
            } else {
                0
            },
            final(self).years() == old(self).years(),
    {
        if let Entity::Shark { energy, .. } = self {
            *energy += MEAL_ENERGY;
        }
    }

    /// A newborn of the same kind: a fish of age 0, or a shark of age 0 with
    /// the configured initial energy. An empty cell has no offspring.
    pub fn spawn_new(&self, config: Config) -> (child: Self)
        ensures
            child == self.offspring(config),
            child.years() == 0,
            *self is Fish ==> child == (Entity::Fish { age: 0 }),
            *self is Shark ==> child == (Entity::Shark { age: 0, energy: config.shark_energy }),
            *self is Empty ==> child is Empty,
    {
        match self {
            Entity::Fish { .. } => Entity::Fish { age: 0 },
            Entity::Shark { .. } => Entity::Shark { age: 0, energy: config.shark_energy },
            Entity::Empty => Entity::Empty,
        }
    }

    /// True for a fish of age 3 or more and for a shark of age 5 or more.
    pub fn can_reproduce(&self) -> (yes: bool)
        ensures
            yes == self.fertile(),
            yes <==> (*self is Fish && self.years() >= 3) || (*self is Shark && self.years() >= 5),
    {
        match self {
            Entity::Fish { age } => *age >= FISH_BREEDING_AGE,
            Entity::Shark { age, .. } => *age >= SHARK_BREEDING_AGE,
            Entity::Empty => false,
        }
    }

    /// True for a fish at or past `fish_age`, and for a shark at or past
    /// `shark_age` or without energy. An empty cell is never dead.
    pub fn is_dead(&self, config: Config) -> (yes: bool)
        ensures
            yes == self.dead(config),
            *self is Fish ==> (yes <==> self.years() >= config.fish_age),
            *self is Shark ==> (yes <==> self.years() >= config.shark_age || self.reserve() == 0),
            *self is Empty ==> !yes,
    {
        match self {
            Entity::Fish { age } => *age >= config.fish_age,
            Entity::Shark { age, energy } => *age >= config.shark_age || *energy == 0,
            Entity::Empty => false,
        }
    }

    /// Lets one chronon pass: the age rises by exactly 1, and a shark's
    /// energy falls by 1 unless it is 0 already. An empty cell stays empty.
    pub fn deprive(&mut self)
        requires
            old(self).years() < u32::MAX,
        ensures
            *final(self) == old(self).deprived(),
            !(*old(self) is Empty) ==> final(self).years() == old(self).years() + 1,
            *old(self) is Shark ==> final(self).reserve() == if old(self).reserve() > 0 {
                old(self).reserve() - 1
            } else {
                0
            },
            *old(self) is Fish ==> *final(self) is Fish,
            *old(self) is Shark ==> *final(self) is Shark,
            *old(self) is Empty ==> *final(self) is Empty,
    {
        match self {
            Entity::Fish { age } => {
                *age += 1;
            },
            Entity::Shark { age, energy } => {
                *age += 1;
                if *energy > 0 {
                    *energy -= 1;
                }
            },
            _ => (),
        }
    }
}

} // verus!
