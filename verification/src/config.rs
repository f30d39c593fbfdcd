use vstd::prelude::*;

verus! {

/// The parameters of one run. They never change while a world lives.
#[derive(Clone, Copy, Debug, PartialEq, Eq, Structural)]
pub struct Config {
    /// A fish dies once its age reaches this limit.
    pub fish_age: u32,
    /// A shark dies once its age reaches this limit.
    pub shark_age: u32,
    /// The energy a shark is born with.
    pub shark_energy: u32,
    /// The pause between two chronons of an animated run, in milliseconds.
    pub chronon: u64,
}

impl Config {
    /// A shark gains at most one unit of energy per year of life, so a shark
    /// that starts with `shark_energy` never holds more than
    /// `shark_energy + shark_age`. The configuration is sustainable when that
    /// bound fits the energy counter.
    pub open spec fn sustainable(self) -> bool {
        self.shark_energy + self.shark_age <= u32::MAX
    }

    /// Decides `sustainable`.
    pub fn is_sustainable(&self) -> (ok: bool)
        ensures
            ok == self.sustainable(),
    {
        self.shark_energy <= u32::MAX - self.shark_age
    }
}

impl Default for Config {
    fn default() -> (config: Self)
        ensures
            config == (Config { fish_age: 5, shark_age: 10, shark_energy: 3, chronon: 50 }),
    {
        Config { fish_age: 5, shark_age: 10, shark_energy: 3, chronon: 50 }
    }
}

} // verus!
