//! The battery module: a gauge whose own task looks at the battery each
//! time the module ticks.

use vstd::prelude::*;
use vstd::string::*;
use crate::battery::{observe, reading_of, Battery as Cell, Charge, Look, Reading, State};
use crate::broadcast::Received;
use crate::element::{Element, ElementView, Label};
use crate::modules::power::{
    first_reading, gauge_showing, lemma_marked, mark, marked, names_of, power_blank, show_reading,
};
use crate::modules::{
    BaseModuleConfig, Controller, Error, Flow, Module, Rendered, WidgetContext,
};
use crate::rbar::RBar;

verus! {

/// What the battery module sends: the moment has come to look at the
/// battery.
#[derive(Clone, Copy, Debug, PartialEq, Eq, Structural)]
pub struct Tick {}

/// The charge of the battery, looked up by the element itself.
pub struct Battery {
    pub config: BaseModuleConfig,
    /// Precision of the percentage.
    pub precision: u8,
}

/// The class that the element of the battery module has in a state.
pub open spec fn battery_class(state: State) -> Seq<char> {
    match state {
        State::Charging => "charging"@,
        State::Discharging => "discharging"@,
        State::Full => "full"@,
        State::Unknown => "unknown"@,
    }
}

/// The classes that the element of the battery module has at most one of.
pub open spec fn battery_classes() -> Seq<Seq<char>> {
    seq!["charging"@, "discharging"@, "empty"@, "full"@, "unknown"@]
}

/// The place of the class of `state` among the classes of the module.
pub open spec fn battery_index(state: State) -> int {
    match state {
        State::Charging => 0,
        State::Discharging => 1,
        State::Full => 3,
        State::Unknown => 4,
    }
}

/// No two classes of the battery module are equal.
pub proof fn lemma_battery_classes()
    ensures
        battery_classes().no_duplicates(),
        battery_classes().len() == 5,
        forall|state: State| #[trigger]
            battery_classes()[battery_index(state)] == battery_class(state),
{
    reveal_strlit("charging");
    reveal_strlit("discharging");
    reveal_strlit("empty");
    reveal_strlit("full");
    reveal_strlit("unknown");
    assert("charging"@.len() == 8);
    assert("discharging"@.len() == 11);
    assert("empty"@.len() == 5);
    assert("full"@.len() == 4);
    assert("unknown"@.len() == 7);
}

/// The element of the battery module after `reading` was shown on it.
pub open spec fn battery_showing(element: ElementView, reading: Reading, precision: nat) -> ElementView {
    gauge_showing(
        ElementView {
            classes: marked(element.classes, battery_classes(), battery_index(reading.state)),
            ..element
        },
        reading,
        precision,
    )
}

/// What a turn of the element's task does to the element.
pub open spec fn battery_turn(
    element: ElementView,
    update: Received<Tick>,
    refreshed: Result<Reading, Error>,
    precision: nat,
) -> ElementView {
    match (update, refreshed) {
        (Received::Value(_), Ok(reading)) => battery_showing(element, reading, precision),
        _ => element,
    }
}

/// Shows `reading` on the element of the battery module.
fn render(element: &mut Element, reading: &Reading, precision: u8)
    ensures
        final(element)@ == battery_showing(old(element)@, *reading, precision as nat),
        forall|name: Seq<char>|
            battery_classes().contains(name) ==> (#[trigger] final(element)@.classes.contains(name)
                <==> name == battery_class(reading.state)),
{
    let classes = vec!["charging", "discharging", "empty", "full", "unknown"];

    let class_index: usize = match reading.state {
        State::Charging => 0,
        State::Discharging => 1,
        State::Full => 3,
        _ => 4,
    };
    proof {
        assert(names_of(classes@) =~= battery_classes());
        lemma_battery_classes();
        lemma_marked(old(element)@.classes, battery_classes(), class_index as int);
        assert(battery_classes()[battery_index(reading.state)] == battery_class(reading.state));
    }

    mark(element, &classes, class_index);

    show_reading(element, reading, precision);
}

/// One turn of the task that keeps the element of the battery module up to
/// date. When the module ticks, the host looks at the battery and hands in
/// what it found. A reading is shown, with the class of its state as the
/// only one of the module's classes. A look that failed for once is passed
/// over. Without a battery the task ends with the error; it also ends when
/// the channel is closed, and goes on when it has fallen behind.
pub fn run_widget(
    element: &mut Element,
    update: Received<Tick>,
    refreshed: Result<Reading, Error>,
    precision: u8,
) -> (flow: Result<Flow, Error>)
    ensures
        flow == match update {
            Received::Value(_) => match refreshed {
                Err(Error::Unavailable) => Err::<Flow, Error>(Error::Unavailable),
                _ => Ok(Flow::Continue),
            },
            Received::Closed => Ok(Flow::Stop),
            _ => Ok(Flow::Continue),
        },
        final(element)@ == battery_turn(old(element)@, update, refreshed, precision as nat),
        (update is Value && refreshed is Ok) ==> forall|name: Seq<char>|
            battery_classes().contains(name) ==> (#[trigger] final(element)@.classes.contains(name)
                <==> name == battery_class(refreshed->Ok_0.state)),
{
    match update {
        Received::Value(_) => match refreshed {
            Ok(reading) => {
                render(element, &reading, precision);
                Ok(Flow::Continue)
            },
            Err(Error::Unavailable) => Err(Error::Unavailable),
            Err(_) => Ok(Flow::Continue),
        },
        Received::Lagged(_) => Ok(Flow::Continue),
        Received::Empty => Ok(Flow::Continue),
        Received::Closed => Ok(Flow::Stop),
    }
}

/// What the task of the element learns of the battery that it keeps, from
/// what the host found.
pub open spec fn learned(battery: Option<Cell>, looked: Result<Look, Error>) -> Result<
    Reading,
    Error,
> {
    match (battery, looked) {
        (None, _) => Err(Error::Unavailable),
        (Some(_), Ok(look)) => Ok(reading_of(look)),
        (Some(_), Err(error)) => Err(error),
    }
}

/// One turn of the element's task with the battery that the task keeps, if
/// it has one. When the module ticks, the battery takes over what the host
/// found, and the turn goes on as `run_widget` says; a task without a
/// battery ends with the error. At any other turn the battery is left
/// alone and what the host found is not read.
pub fn watch(
    element: &mut Element,
    update: Received<Tick>,
    battery: &mut Option<Cell>,
    looked: Result<Look, Error>,
    precision: u8,
) -> (flow: Result<Flow, Error>)
    ensures
        flow == match update {
            Received::Value(_) => match learned(*old(battery), looked) {
                Err(Error::Unavailable) => Err::<Flow, Error>(Error::Unavailable),
                _ => Ok(Flow::Continue),
            },
            Received::Closed => Ok(Flow::Stop),
            _ => Ok(Flow::Continue),
        },
        final(element)@ == battery_turn(
            old(element)@,
            update,
            learned(*old(battery), looked),
            precision as nat,
        ),
        match (update, *old(battery), looked) {
            (Received::Value(_), Some(before), Ok(look)) => {
                &&& *final(battery) matches Some(after)
                &&& after@ == (crate::battery::BatteryView {
                    state: reading_of(look).state,
                    soc: reading_of(look).charge@,
                    ..before@
                })
            },
            _ => *final(battery) == *old(battery),
        },
{
    let ticked = match &update {
        Received::Value(_) => true,
        _ => false,
    };
    if ticked {
        let refreshed = observe(battery, looked);
        run_widget(element, update, refreshed, precision)
    } else {
        run_widget(element, update, Err(Error::Transient), precision)
    }
}

impl Battery {
    pub fn new(config: BaseModuleConfig, precision: u8) -> (battery: Battery)
        ensures
            battery.config == config,
            battery.precision == precision,
    {
        Battery { config, precision }
    }
}

impl Module for Battery {
    type Receive = ();

    type Send = Tick;

    open spec fn named() -> Seq<char> {
        "battery"@
    }

    open spec fn base_config(&self) -> BaseModuleConfig {
        self.config
    }

    open spec fn starts(&self, host: RBar) -> Result<Controller, Error> {
        if host.batteries@.len() > 0 {
            Ok(Controller { interval: 1000 })
        } else {
            Err(Error::Unavailable)
        }
    }

    open spec fn builds(&self, host: RBar) -> Result<ElementView, Error> {
        Ok(battery_showing(power_blank(), first_reading(host), self.precision as nat))
    }

    fn name() -> (name: &'static str) {
        proof {
            reveal_strlit("battery");
        }
        "battery"
    }

    fn controllers(&self, context: &WidgetContext<Self::Send>) -> (started: Result<
        Controller,
        Error,
    >) {
        if context.rbar.batteries.len() == 0 {
            return Err(Error::Unavailable);
        }
        Ok(Controller::every(1000))
    }

    fn widget(&self, context: &mut WidgetContext<Self::Send>) -> (built: Result<Rendered, Error>) {
        let mut icon = Label::new("");
        let mut label = Label::new("");

        icon.add_css_class("icon");
        label.add_css_class("label");

        let mut container = Element::row(icon, label);
        container.show();
        proof {
            reveal_strlit("");
            assert(""@ =~= Seq::<char>::empty());
            assert(container@.icon->0.classes =~= set!["icon"@]);
            assert(container@.label.classes =~= set!["label"@]);
            assert(container@ == power_blank());
        }

        let reading = if context.rbar.batteries.len() > 0 {
            context.rbar.batteries[0].reading()
        } else {
            Reading { state: State::Unknown, charge: Charge { millionths: 0 } }
        };
        render(&mut container, &reading, self.precision);

        let receiver = context.subscribe();
        Ok(Rendered { element: container, receiver })
    }

    fn get_base_config(&self) -> (config: &BaseModuleConfig) {
        &self.config
    }
}

/// The precision of a module whose configuration names none.
pub fn precision_default() -> (precision: u8)
    ensures
        precision == 0,
{
    0
}

} // verus!
