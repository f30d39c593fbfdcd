use wator::{handle_event, update, AppState, Entity, Event, Key, Message, Wator};

#[test]
fn keys_that_mean_something() {
    assert_eq!(handle_event(Event::Key(Key::Char('q'))), Some(Message::AppExit));
    assert_eq!(handle_event(Event::Key(Key::Esc)), Some(Message::AppExit));
    assert_eq!(handle_event(Event::Key(Key::Char('s'))), Some(Message::SimulationStep));
    assert_eq!(handle_event(Event::Key(Key::Char('l'))), Some(Message::ToggleLoop));
}

#[test]
fn keys_and_events_that_mean_nothing() {
    assert_eq!(handle_event(Event::Key(Key::Char('Q'))), None);
    assert_eq!(handle_event(Event::Key(Key::Char('x'))), None);
    assert_eq!(handle_event(Event::Key(Key::Char(' '))), None);
    assert_eq!(handle_event(Event::Key(Key::Other)), None);
    assert_eq!(handle_event(Event::Other), None);
}

#[test]
fn default_state_is_in_the_simulation() {
    assert_eq!(AppState::default(), AppState::InWaTor);
}

#[test]
fn toggle_loop_flips_the_flag() {
    let mut wator = Wator::new(2, 2);
    assert!(!wator.is_looping());
    wator.toggle_loop();
    assert!(wator.is_looping());
    wator.toggle_loop();
    assert!(!wator.is_looping());
}

#[test]
fn state_mut_hands_out_the_state() {
    let mut wator = Wator::new(2, 2);
    assert_eq!(*wator.state_mut(), AppState::InWaTor);
    *wator.state_mut() = AppState::Exit;
    assert_eq!(*wator.state(), AppState::Exit);
    assert_eq!(wator.world().len(), 4);
    assert!(!wator.is_looping());
}

#[test]
fn update_exit_sets_the_state() {
    let mut wator = Wator::new(2, 2);
    assert_eq!(update(&mut wator, Message::AppExit), None);
    assert_eq!(*wator.state(), AppState::Exit);
    assert!(!wator.is_looping());
}

#[test]
fn update_toggle_asks_for_the_loop_when_it_starts() {
    let mut wator = Wator::new(2, 2);
    assert_eq!(update(&mut wator, Message::ToggleLoop), Some(Message::SimulationLoop));
    assert!(wator.is_looping());
    assert_eq!(update(&mut wator, Message::ToggleLoop), None);
    assert!(!wator.is_looping());
    assert_eq!(*wator.state(), AppState::InWaTor);
}

#[test]
fn update_step_advances_one_chronon() {
    let cells = vec![Entity::Fish { age: 0 }];
    let mut wator = Wator::from_cells(1, 1, cells).unwrap();
    assert_eq!(update(&mut wator, Message::SimulationStep), None);
    assert_eq!(wator.world(), &[Entity::Fish { age: 1 }]);
    assert_eq!(*wator.state(), AppState::InWaTor);
    assert!(!wator.is_looping());
}

#[test]
fn update_loop_advances_and_asks_again() {
    let cells = vec![Entity::Shark { age: 0, energy: 3 }];
    let mut wator = Wator::from_cells(1, 1, cells).unwrap();
    assert_eq!(update(&mut wator, Message::SimulationLoop), Some(Message::SimulationLoop));
    assert_eq!(wator.world(), &[Entity::Shark { age: 1, energy: 2 }]);
    assert_eq!(update(&mut wator, Message::SimulationLoop), Some(Message::SimulationLoop));
    assert_eq!(wator.world(), &[Entity::Shark { age: 2, energy: 1 }]);
    assert_eq!(update(&mut wator, Message::SimulationLoop), Some(Message::SimulationLoop));
    assert_eq!(wator.world(), &[Entity::Empty]);
}
