use wator::{Config, Entity};

fn config(fish_age: u32, shark_age: u32, shark_energy: u32) -> Config {
    Config { fish_age, shark_age, shark_energy, chronon: 50 }
}

#[test]
fn default_config_values() {
    let c = Config::default();
    assert_eq!(c.fish_age, 5);
    assert_eq!(c.shark_age, 10);
    assert_eq!(c.shark_energy, 3);
    assert_eq!(c.chronon, 50);
    assert!(c.is_sustainable());
}

#[test]
fn config_sustainable_at_the_edge() {
    assert!(config(5, 10, u32::MAX - 10).is_sustainable());
    assert!(!config(5, 10, u32::MAX - 9).is_sustainable());
    assert!(config(5, 0, u32::MAX).is_sustainable());
    assert!(!config(5, u32::MAX, 1).is_sustainable());
}

#[test]
fn variant_predicates() {
    let fish = Entity::Fish { age: 2 };
    let shark = Entity::Shark { age: 1, energy: 4 };
    let empty = Entity::Empty;
    assert!(fish.is_fish() && !fish.is_shark() && !fish.is_empty());
    assert!(!shark.is_fish() && shark.is_shark() && !shark.is_empty());
    assert!(!empty.is_fish() && !empty.is_shark() && empty.is_empty());
}

#[test]
fn deprive_adds_one_year_to_a_fish() {
    let mut fish = Entity::Fish { age: 0 };
    for expected in 1..=7u32 {
        fish.deprive();
        assert_eq!(fish, Entity::Fish { age: expected });
    }
}

#[test]
fn deprive_ages_and_starves_a_shark() {
    let mut shark = Entity::Shark { age: 0, energy: 2 };
    shark.deprive();
    assert_eq!(shark, Entity::Shark { age: 1, energy: 1 });
    shark.deprive();
    assert_eq!(shark, Entity::Shark { age: 2, energy: 0 });
}

#[test]
fn deprive_keeps_energy_at_zero() {
    let mut shark = Entity::Shark { age: 7, energy: 0 };
    shark.deprive();
    assert_eq!(shark, Entity::Shark { age: 8, energy: 0 });
    shark.deprive();
    assert_eq!(shark, Entity::Shark { age: 9, energy: 0 });
}

#[test]
fn deprive_leaves_empty_alone() {
    let mut empty = Entity::Empty;
    empty.deprive();
    assert_eq!(empty, Entity::Empty);
}

#[test]
fn deprive_up_to_the_last_year() {
    let mut fish = Entity::Fish { age: u32::MAX - 1 };
    fish.deprive();
    assert_eq!(fish, Entity::Fish { age: u32::MAX });
}

#[test]
fn gain_energy_adds_two_to_a_shark() {
    let mut shark = Entity::Shark { age: 3, energy: 1 };
    shark.gain_energy();
    assert_eq!(shark, Entity::Shark { age: 3, energy: 3 });
    shark.gain_energy();
    assert_eq!(shark, Entity::Shark { age: 3, energy: 5 });
    let mut full = Entity::Shark { age: 0, energy: u32::MAX - 2 };
    full.gain_energy();
    assert_eq!(full, Entity::Shark { age: 0, energy: u32::MAX });
}

#[test]
fn gain_energy_is_for_sharks_only() {
    let mut fish = Entity::Fish { age: 3 };
    fish.gain_energy();
    assert_eq!(fish, Entity::Fish { age: 3 });
    let mut empty = Entity::Empty;
    empty.gain_energy();
    assert_eq!(empty, Entity::Empty);
}

#[test]
fn fish_is_dead_from_its_age_limit_on() {
    let c = config(5, 10, 3);
    assert!(!Entity::Fish { age: 0 }.is_dead(c));
    assert!(!Entity::Fish { age: 4 }.is_dead(c));
    assert!(Entity::Fish { age: 5 }.is_dead(c));
    assert!(Entity::Fish { age: 6 }.is_dead(c));
    assert!(Entity::Fish { age: 0 }.is_dead(config(0, 10, 3)));
}

#[test]
fn shark_is_dead_of_age_or_hunger() {
    let c = config(5, 10, 3);
    assert!(!Entity::Shark { age: 9, energy: 1 }.is_dead(c));
    assert!(Entity::Shark { age: 10, energy: 1 }.is_dead(c));
    assert!(Entity::Shark { age: 11, energy: 100 }.is_dead(c));
    assert!(Entity::Shark { age: 0, energy: 0 }.is_dead(c));
    assert!(Entity::Shark { age: 10, energy: 0 }.is_dead(c));
    assert!(!Entity::Shark { age: 6, energy: 1 }.is_dead(config(5, 7, 3)));
    assert!(Entity::Shark { age: 7, energy: 1 }.is_dead(config(5, 7, 3)));
}

#[test]
fn empty_is_never_dead() {
    assert!(!Entity::Empty.is_dead(config(5, 10, 3)));
    assert!(!Entity::Empty.is_dead(config(0, 0, 0)));
}

#[test]
fn fish_breeds_from_three() {
    assert!(!Entity::Fish { age: 0 }.can_reproduce());
    assert!(!Entity::Fish { age: 2 }.can_reproduce());
    assert!(Entity::Fish { age: 3 }.can_reproduce());
    assert!(Entity::Fish { age: 4 }.can_reproduce());
}

#[test]
fn shark_breeds_from_five() {
    assert!(!Entity::Shark { age: 3, energy: 9 }.can_reproduce());
    assert!(!Entity::Shark { age: 4, energy: 9 }.can_reproduce());
    assert!(Entity::Shark { age: 5, energy: 0 }.can_reproduce());
    assert!(Entity::Shark { age: 6, energy: 1 }.can_reproduce());
}

#[test]
fn empty_never_breeds() {
    assert!(!Entity::Empty.can_reproduce());
}

#[test]
fn spawn_new_starts_at_age_zero() {
    let c = config(5, 10, 7);
    assert_eq!(Entity::Fish { age: 4 }.spawn_new(c), Entity::Fish { age: 0 });
    assert_eq!(
        Entity::Shark { age: 8, energy: 1 }.spawn_new(c),
        Entity::Shark { age: 0, energy: 7 }
    );
    assert_eq!(
        Entity::Shark { age: 8, energy: 100 }.spawn_new(Config::default()),
        Entity::Shark { age: 0, energy: 3 }
    );
    assert_eq!(Entity::Empty.spawn_new(c), Entity::Empty);
}

#[test]
fn fish_one_year_short_of_its_limit_dies_of_the_next() {
    let c = Config::default();
    let mut fish = Entity::Fish { age: c.fish_age - 1 };
    assert_eq!(fish, Entity::Fish { age: 4 });
    assert!(!fish.is_dead(c));
    fish.deprive();
    assert_eq!(fish, Entity::Fish { age: 5 });
    assert!(fish.is_dead(c));
}

#[test]
fn seeded_prefers_the_shark() {
    let c = config(5, 10, 3);
    assert_eq!(Entity::seeded(true, true, c), Entity::Shark { age: 0, energy: 3 });
    assert_eq!(Entity::seeded(true, false, c), Entity::Shark { age: 0, energy: 3 });
    assert_eq!(Entity::seeded(false, true, c), Entity::Fish { age: 0 });
    assert_eq!(Entity::seeded(false, false, c), Entity::Empty);
    assert_eq!(Entity::seeded(true, false, config(5, 10, 9)), Entity::Shark { age: 0, energy: 9 });
}

#[test]
fn fits_leaves_room_for_a_shark_s_remaining_years() {
    let c = Config::default();
    assert!(Entity::Empty.fits(c));
    assert!(Entity::Fish { age: u32::MAX - 1 }.fits(c));
    assert!(!Entity::Fish { age: u32::MAX }.fits(c));
    assert!(Entity::Shark { age: 0, energy: u32::MAX - 10 }.fits(c));
    assert!(!Entity::Shark { age: 0, energy: u32::MAX - 9 }.fits(c));
    assert!(Entity::Shark { age: 4, energy: u32::MAX - 6 }.fits(c));
    assert!(!Entity::Shark { age: 4, energy: u32::MAX - 5 }.fits(c));
    assert!(Entity::Shark { age: 10, energy: u32::MAX }.fits(c));
    assert!(!Entity::Shark { age: u32::MAX, energy: 1 }.fits(c));
}
