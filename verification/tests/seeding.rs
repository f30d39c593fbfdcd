use wator::{AppState, Entity, Wator};

#[test]
fn initialize_with_follows_the_draws() {
    let mut wator = Wator::new(3, 2);
    let draws = vec![(true, false), (false, true), (false, false), (true, true), (false, true)];
    wator.initialize_with(&draws);
    let shark = Entity::Shark { age: 0, energy: 3 };
    let fish = Entity::Fish { age: 0 };
    assert_eq!(wator.world(), &[shark, fish, Entity::Empty, shark, fish, Entity::Empty]);
    assert_eq!(wator.num_fish_in_area(3, 2), 2);
    assert_eq!(wator.num_sharks_in_area(3, 2), 2);
}

#[test]
fn initialize_with_seeds_anew() {
    let mut wator = Wator::new(2, 2);
    wator.initialize_with(&vec![(true, false); 4]);
    assert_eq!(wator.world(), &[Entity::Shark { age: 0, energy: 3 }; 4]);
    wator.initialize_with(&vec![(false, true); 9]);
    assert_eq!(wator.world(), &[Entity::Fish { age: 0 }; 4]);
    wator.initialize_with(&vec![]);
    assert_eq!(wator.world(), &[Entity::Empty; 4]);
}

#[test]
fn initialize_places_newborns_only() {
    let mut wator = Wator::new(60, 50);
    wator.initialize();
    assert_eq!(wator.world().len(), 3000);
    for cell in wator.world() {
        assert!(matches!(
            cell,
            Entity::Empty | Entity::Fish { age: 0 } | Entity::Shark { age: 0, energy: 3 }
        ));
    }
    assert!(!wator.is_looping());
    assert_eq!(*wator.state(), AppState::InWaTor);
}

#[test]
fn initialize_seeds_about_a_tenth_sharks_and_a_quarter_fish() {
    let mut wator = Wator::new(200, 100);
    wator.initialize();
    let sharks = wator.num_sharks_in_area(200, 100);
    let fish = wator.num_fish_in_area(200, 100);
    // Expected: 2000 sharks and 5400 fish of 20000 cells.
    assert!(1500 < sharks && sharks < 2500, "sharks: {}", sharks);
    assert!(4700 < fish && fish < 6100, "fish: {}", fish);
}

#[test]
fn initialize_keeps_the_size_of_the_grid() {
    let mut wator = Wator::new(7, 3);
    wator.initialize();
    wator.initialize();
    assert_eq!(wator.world().len(), 21);
}
