use statig::response::Response;
use statig::state::State;
use statig::state_machine::{StateMachine, StateMachineSharedStorage, StateOrSuperstate};
use statig::superstate::Superstate;

// A machine whose event is `()`: each step toggles the light.

#[derive(Debug, Clone, Copy, PartialEq, Eq)]
enum Light {
    On,
    Off,
}

#[derive(Debug, Clone, Copy, PartialEq, Eq)]
enum Blinking {
    Blinking,
}

#[derive(Debug, Default, Clone, Copy, PartialEq, Eq)]
struct Blinky {
    led: bool,
    switched: u32,
}

impl Superstate<Blinky, (), Light> for Blinking {
    fn parent(&self) -> Option<Self> {
        None
    }

    fn rank(&self) -> u16 {
        0
    }

    fn handled(&self, storage: Blinky, _event: ()) -> (Blinky, Response<Light>) {
        (storage, Response::Handled)
    }

    fn entered(&self, storage: Blinky) -> Blinky {
        storage
    }

    fn exited(&self, storage: Blinky) -> Blinky {
        storage
    }

    fn lemma_parent_rank(&self) {}

    fn superstate(&self) -> Option<Self> {
        None
    }

    fn same_state(&self, other: &Self) -> bool {
        self == other
    }

    fn call_handler(&self, _storage: &mut Blinky, _event: &()) -> Response<Light> {
        Response::Handled
    }

    fn call_entry_action(&self, _storage: &mut Blinky) {}

    fn call_exit_action(&self, _storage: &mut Blinky) {}
}

impl State<Blinky, ()> for Light {
    type Superstate = Blinking;

    fn parent(&self) -> Option<Blinking> {
        Some(Blinking::Blinking)
    }

    fn handled(&self, storage: Blinky, _event: ()) -> (Blinky, Response<Light>) {
        match self {
            Light::On => (storage, Response::Transition(Light::Off)),
            Light::Off => (storage, Response::Transition(Light::On)),
        }
    }

    fn entered(&self, storage: Blinky) -> Blinky {
        Blinky { led: *self == Light::On, switched: storage.switched + 1 }
    }

    fn exited(&self, storage: Blinky) -> Blinky {
        storage
    }

    fn superstate(&self) -> Option<Blinking> {
        self.parent()
    }

    fn call_handler(&self, storage: &mut Blinky, event: &()) -> Response<Light> {
        let (after, response) = self.handled(*storage, *event);
        *storage = after;
        response
    }

    fn call_entry_action(&self, storage: &mut Blinky) {
        *storage = self.entered(*storage);
    }

    fn call_exit_action(&self, storage: &mut Blinky) {
        *storage = self.exited(*storage);
    }
}

impl StateMachine for Blinky {
    type Event = ();
    type State = Light;

    fn initial_state() -> Light {
        Light::On
    }

    fn dispatched(self, _target: StateOrSuperstate<'_, Light, Blinking>, _event: ()) -> Self {
        self
    }

    fn transitioned(self, _source: Light, _target: Light) -> Self {
        self
    }

    fn initial() -> Light {
        Light::On
    }

    fn on_dispatch(&mut self, _target: StateOrSuperstate<'_, Light, Blinking>, _event: &()) {}

    fn on_transition(&mut self, _source: &Light, _target: &Light) {}
}

#[test]
fn init_enters_initial_state_once() {
    let machine = Blinky::default().state_machine().init();
    assert_eq!(*machine.state(), Light::On);
    assert!(machine.led);
    assert_eq!(machine.switched, 1);
}

#[test]
fn step_handles_the_unit_event() {
    let mut machine = Blinky::default().state_machine().init();
    machine.step();
    assert_eq!(*machine.state(), Light::Off);
    assert!(!machine.led);
    machine.step();
    assert_eq!(*machine.state(), Light::On);
    assert!(machine.led);
    assert_eq!(machine.switched, 3);
}

#[test]
fn step_is_handle_of_unit() {
    let mut stepped = Blinky::default().state_machine().init();
    let mut handled = Blinky::default().state_machine().init();
    for _ in 0..3 {
        stepped.step();
        handled.handle(&());
    }
    assert_eq!(*stepped.state(), *handled.state());
    assert_eq!(*stepped, *handled);
}
