use crate::world::{Wator, WatorView};
use vstd::prelude::*;

verus! {

/// Whether the application shows the simulation or is about to leave.
#[derive(Clone, Copy, Debug, PartialEq, Eq, Structural)]
pub enum AppState {
    InWaTor,
    Exit,
}

impl Default for AppState {
    fn default() -> (state: Self)
        ensures
            state == AppState::InWaTor,
    {
        AppState::InWaTor
    }
}

/// What the runner asks of the world.
#[derive(Clone, Copy, Debug, PartialEq, Eq, Structural)]
pub enum Message {
    /// Advance by one chronon.
    SimulationStep,
    /// Advance by one chronon and keep going.
    SimulationLoop,
    /// Start or stop the animated run.
    ToggleLoop,
    /// Leave.
    AppExit,
}

/// A key, as far as the application tells keys apart.
#[derive(Clone, Copy, Debug, PartialEq, Eq, Structural)]
pub enum Key {
    Char(char),
    Esc,
    Other,
}

/// What the terminal reports.
#[derive(Clone, Copy, Debug, PartialEq, Eq, Structural)]
pub enum Event {
    /// A key was pressed.
    Key(Key),
    /// Anything else: the mouse, a resize, a paste.
    Other,
}

/// The message that an event stands for: `q` and Esc leave, `s` advances by
/// one chronon, `l` starts or stops the animated run. Nothing else means
/// anything.
pub open spec fn message_of(event: Event) -> Option<Message> {
    match event {
        Event::Key(Key::Esc) => Some(Message::AppExit),
        Event::Key(Key::Char(c)) => if c == 'q' {
            Some(Message::AppExit)
        } else if c == 's' {
            Some(Message::SimulationStep)
        } else if c == 'l' {
            Some(Message::ToggleLoop)
        } else {
            None
        },
        _ => None,
    }
}

/// Turns what the terminal reported into what the runner asks of the world.
pub fn handle_event(event: Event) -> (msg: Option<Message>)
    ensures
        msg == message_of(event),
{
    match event {
        Event::Key(key) => match key {
            Key::Char('q') | Key::Esc => Some(Message::AppExit),
            Key::Char('s') => Some(Message::SimulationStep),
            Key::Char('l') => Some(Message::ToggleLoop),
            _ => None,
        },
        _ => None,
    }
}

/// Carries out `msg` on the world and says what to do next.
///
/// `AppExit` sets the state to `Exit`. `SimulationStep` advances the world
/// by one chronon. `ToggleLoop` starts or stops the animated run, and asks
/// for the first chronon of the run if it has started one. `SimulationLoop`
/// advances the world by one chronon and asks for the next.
pub fn update(model: &mut Wator, msg: Message) -> (next: Option<Message>)
    requires
        old(model).wf(),
    ensures
        final(model).wf(),
        match msg {
            Message::AppExit => {
                &&& final(model)@ == (WatorView { state: AppState::Exit, ..old(model)@ })
                &&& next is None
            },
            Message::SimulationStep => {
                &&& old(model)@.ticked(final(model)@)
                &&& next is None
            },
            Message::ToggleLoop => {
                &&& final(model)@ == (WatorView { looping: !old(model)@.looping, ..old(model)@ })
                &&& next == if old(model)@.looping {
                    None
                } else {
                    Some(Message::SimulationLoop)
                }
            },
            Message::SimulationLoop => {
                &&& old(model)@.ticked(final(model)@)
                &&& next == Some(Message::SimulationLoop)
            },
        },
{
    match msg {
        Message::AppExit => {
            *model.state_mut() = AppState::Exit;
        },
        Message::SimulationStep => {
            model.simulate();
        },
        Message::ToggleLoop => {
            model.toggle_loop();
            if model.is_looping() {
                return Some(Message::SimulationLoop);
            }
        },
        Message::SimulationLoop => {
            model.simulate();
            return Some(Message::SimulationLoop);
        },
    };
    None
}

} // verus!
