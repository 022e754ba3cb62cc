//! The power module: the state and the charge of the first battery.

use vstd::prelude::*;
use vstd::string::*;
use crate::battery::{Charge, Reading, State};
use crate::broadcast::Received;
use crate::decimal::{percent, percent_text};
use crate::element::{Element, ElementView, Label, LabelView, Shape};
use crate::modules::{
    BaseModuleConfig, Controller, Error, Flow, Module, Rendered, WidgetContext,
};
use crate::rbar::RBar;
use crate::text::push_char;

verus! {

/// The texts of `names`.
pub open spec fn names_of(names: Seq<&'static str>) -> Seq<Seq<char>> {
    names.map_values(|name: &'static str| name@)
}

/// The classes of an element after each of `names` was taken from it in
/// turn, and the one at `chosen` put back when its turn came.
pub open spec fn marked(classes: Set<Seq<char>>, names: Seq<Seq<char>>, chosen: int) -> Set<
    Seq<char>,
>
    decreases names.len(),
{
    if names.len() == 0 {
        classes
    } else {
        let earlier = marked(classes, names.drop_last(), chosen).remove(names.last());
        if chosen == names.len() - 1 {
            earlier.insert(names.last())
        } else {
            earlier
        }
    }
}

/// Of names of which no two are equal, marking leaves exactly the chosen
/// one in the classes, and it leaves every other class as it was.
pub proof fn lemma_marked(classes: Set<Seq<char>>, names: Seq<Seq<char>>, chosen: int)
    requires
        names.no_duplicates(),
    ensures
        forall|name: Seq<char>|
            names.contains(name) ==> (#[trigger] marked(classes, names, chosen).contains(name) <==> (
            0 <= chosen < names.len() && name == names[chosen])),
        forall|name: Seq<char>|
            !names.contains(name) ==> (#[trigger] marked(classes, names, chosen).contains(name)
                <==> classes.contains(name)),
    decreases names.len(),
{
    if names.len() > 0 {
        let front = names.drop_last();
        let last = names.last();
        let end = names.len() - 1;
        assert(front.no_duplicates()) by {
            assert forall|i: int, j: int| 0 <= i < front.len() && 0 <= j < front.len() && i
                != j implies front[i] != front[j] by {
                assert(front[i] == names[i] && front[j] == names[j]);
            }
        }
        lemma_marked(classes, front, chosen);
        let earlier = marked(classes, front, chosen);
        let all = marked(classes, names, chosen);
        assert(all == if chosen == end {
            earlier.remove(last).insert(last)
        } else {
            earlier.remove(last)
        });
        assert(!front.contains(last)) by {
            if front.contains(last) {
                let other = choose|other: int| 0 <= other < front.len() && front[other] == last;
                assert(names[other] == names[end]);
            }
        }
        assert forall|name: Seq<char>| names.contains(name) implies (#[trigger] marked(
            classes,
            names,
            chosen,
        ).contains(name) <==> (0 <= chosen < names.len() && name == names[chosen])) by {
            let at = choose|at: int| 0 <= at < names.len() && names[at] == name;
            if name == last {
                assert(all.contains(name) <==> chosen == end);
                if 0 <= chosen < names.len() && names[chosen] == name {
                    assert(names[chosen] == names[end]);
                }
            } else {
                assert(at < front.len());
                assert(front[at] == name);
                assert(front.contains(name));
                assert(all.contains(name) <==> earlier.contains(name));
                if 0 <= chosen < front.len() {
                    assert(front[chosen] == names[chosen]);
                }
            }
        }
        assert forall|name: Seq<char>| !names.contains(name) implies (#[trigger] marked(
            classes,
            names,
            chosen,
        ).contains(name) <==> classes.contains(name)) by {
            if front.contains(name) {
                let other = choose|other: int| 0 <= other < front.len() && front[other] == name;
                assert(names[other] == name);
            }
            assert(names[end] == last);
            assert(name != last);
            assert(all.contains(name) <==> earlier.contains(name));
        }
    }
}

/// Takes each of `names` from the classes of `element` and gives it the
/// one at `chosen`.
pub fn mark(element: &mut Element, names: &Vec<&'static str>, chosen: usize)
    ensures
        final(element)@ == (ElementView {
            classes: marked(old(element)@.classes, names_of(names@), chosen as int),
            ..old(element)@
        }),
{
    let mut i: usize = 0;
    assert(names_of(names@).take(0) =~= Seq::<Seq<char>>::empty());
    while i < names.len()
        invariant
            i <= names.len(),
            element@ == (ElementView {
                classes: marked(old(element)@.classes, names_of(names@).take(i as int), chosen as int),
                ..old(element)@
            }),
        decreases names.len() - i,
    {
        let class = names[i];
        proof {
            let upto = names_of(names@).take(i + 1);
            assert(upto.drop_last() =~= names_of(names@).take(i as int));
            assert(upto.last() == class@);
        }
        element.remove_css_class(class);
        if i == chosen {
            element.add_css_class(class);
        }
        i = i + 1;
    }
    assert(names_of(names@).take(i as int) =~= names_of(names@));
}

/// The sign that stands for a reading: a bolt while the battery charges,
/// else a battery that is as full as the charge, in steps.
pub open spec fn glyph(charging: bool, millionths: nat) -> char {
    if charging {
        '\u{f0e7}'
    } else if 110_000 <= millionths <= 400_000 {
        '\u{f243}'
    } else if 410_000 <= millionths <= 600_000 {
        '\u{f242}'
    } else if 610_000 <= millionths <= 800_000 {
        '\u{f241}'
    } else if 810_000 <= millionths <= 1_000_000 {
        '\u{f240}'
    } else {
        '\u{f244}'
    }
}

/// Shows `reading` on the icon and the label of a gauge: the sign of the
/// reading, and the charge as a percentage with `precision` decimal places.
pub fn format_label(icon: &mut Label, label: &mut Label, reading: &Reading, precision: u8)
    ensures
        final(icon)@ == (LabelView {
            text: seq![glyph(reading.state == State::Charging, reading.charge@)],
            ..old(icon)@
        }),
        final(label)@ == (LabelView {
            text: percent_text(reading.charge@, precision as nat),
            ..old(label)@
        }),
{
    let soc = reading.charge.millionths;

    let sign = if reading.state == State::Charging {
        '\u{f0e7}'
    } else if 110_000 <= soc && soc <= 400_000 {
        '\u{f243}'
    } else if 410_000 <= soc && soc <= 600_000 {
        '\u{f242}'
    } else if 610_000 <= soc && soc <= 800_000 {
        '\u{f241}'
    } else if 810_000 <= soc && soc <= 1_000_000 {
        '\u{f240}'
    } else {
        '\u{f244}'
    };
    let mut icon_text = String::new();
    push_char(&mut icon_text, sign);
    assert(icon_text@ =~= seq![sign]);

    icon.set_label(icon_text);

    let label_text = percent(soc, precision);

    label.set_label(label_text);
}

/// Shows `reading` on a gauge: on its icon, where it has one, and on its
/// label.
pub fn show_reading(element: &mut Element, reading: &Reading, precision: u8)
    ensures
        final(element)@ == gauge_showing(old(element)@, *reading, precision as nat),
{
    match element.icon.take() {
        Some(icon) => {
            let mut icon = icon;
            format_label(&mut icon, &mut element.label, reading, precision);
            element.icon = Some(icon);
        },
        None => {
            element.label.set_label(percent(reading.charge.millionths, precision));
        },
    }
}

/// A gauge after `reading` was shown on it.
pub open spec fn gauge_showing(element: ElementView, reading: Reading, precision: nat) -> ElementView {
    ElementView {
        icon: match element.icon {
            Some(icon) => Some(
                LabelView {
                    text: seq![glyph(reading.state == State::Charging, reading.charge@)],
                    ..icon
                },
            ),
            None => None,
        },
        label: LabelView { text: percent_text(reading.charge@, precision), ..element.label },
        ..element
    }
}

/// The class that the element of the power module has in a state.
pub open spec fn state_class(state: State) -> Seq<char> {
    match state {
        State::Charging => "charging"@,
        State::Discharging => "discharging"@,
        State::Full => "full"@,
        State::Unknown => "unknown"@,
    }
}

/// The classes that tell the states apart.
pub open spec fn state_classes() -> Seq<Seq<char>> {
    seq!["charging"@, "discharging"@, "full"@, "unknown"@]
}

/// The place of the class of `state` among the classes of the states.
pub open spec fn state_index(state: State) -> int {
    match state {
        State::Charging => 0,
        State::Discharging => 1,
        State::Full => 2,
        State::Unknown => 3,
    }
}

/// No two classes of the states are equal.
pub proof fn lemma_state_classes()
    ensures
        state_classes().no_duplicates(),
        state_classes().len() == 4,
        forall|state: State| #[trigger]
            state_classes()[state_index(state)] == state_class(state),
{
    reveal_strlit("charging");
    reveal_strlit("discharging");
    reveal_strlit("full");
    reveal_strlit("unknown");
    assert("charging"@.len() == 8);
    assert("discharging"@.len() == 11);
    assert("full"@.len() == 4);
    assert("unknown"@.len() == 7);
}

/// The element of the power module after `reading` was shown on it.
pub open spec fn power_showing(element: ElementView, reading: Reading, precision: nat) -> ElementView {
    gauge_showing(
        ElementView {
            classes: marked(element.classes, state_classes(), state_index(reading.state)),
            ..element
        },
        reading,
        precision,
    )
}

/// The element of the power module before anything is shown on it.
pub open spec fn power_blank() -> ElementView {
    ElementView {
        shape: Shape::Row,
        name: Seq::empty(),
        classes: Set::empty(),
        icon: Some(LabelView { classes: set!["icon"@], text: Seq::empty() }),
        label: LabelView { classes: set!["label"@], text: Seq::empty() },
        visible: true,
    }
}

/// The reading that a host starts with: that of its first battery, and an
/// unknown state without charge where it has no battery.
pub open spec fn first_reading(host: RBar) -> Reading {
    if host.batteries@.len() > 0 {
        Reading {
            state: host.batteries@[0]@.state,
            charge: Charge { millionths: host.batteries@[0]@.soc as u32 },
        }
    } else {
        Reading { state: State::Unknown, charge: Charge { millionths: 0 } }
    }
}

/// The state and charge of the power supply.
pub struct Power {
    pub config: BaseModuleConfig,
    /// Precision of the percentage.
    pub precision: u8,
}

impl Power {
    pub fn new(config: BaseModuleConfig, precision: u8) -> (power: Power)
        ensures
            power.config == config,
            power.precision == precision,
    {
        Power { config, precision }
    }

    /// One turn of the task that keeps the element up to date: a reading
    /// that arrives is shown, with the class of its state as the only class
    /// of a state. The task goes on when it has fallen behind, and ends when
    /// the channel is closed.
    pub fn run_widget(&self, element: &mut Element, update: Received<Reading>) -> (flow: Flow)
        ensures
            flow == if update is Closed {
                Flow::Stop
            } else {
                Flow::Continue
            },
            final(element)@ == match update {
                Received::Value(reading) => power_showing(
                    old(element)@,
                    reading,
                    self.precision as nat,
                ),
                _ => old(element)@,
            },
            update matches Received::Value(reading) ==> forall|state: State|
                final(element)@.classes.contains(#[trigger] state_class(state)) <==> state
                    == reading.state,
    {
        match update {
            Received::Value(reading) => {
                render(element, &reading, self.precision);
                Flow::Continue
            },
            Received::Lagged(_) => Flow::Continue,
            Received::Empty => Flow::Continue,
            Received::Closed => Flow::Stop,
        }
    }
}

/// Shows `reading` on the element of the power module.
fn render(element: &mut Element, reading: &Reading, precision: u8)
    ensures
        final(element)@ == power_showing(old(element)@, *reading, precision as nat),
        forall|state: State|
            final(element)@.classes.contains(#[trigger] state_class(state)) <==> state
                == reading.state,
{
    let classes = vec!["charging", "discharging", "full", "unknown"];

    let class_index: usize = match reading.state {
        State::Charging => 0,
        State::Discharging => 1,
        State::Full => 2,
        _ => 3,
    };
    proof {
        assert(names_of(classes@) =~= state_classes());
        lemma_state_classes();
        lemma_marked(old(element)@.classes, state_classes(), class_index as int);
        assert forall|state: State|
            marked(old(element)@.classes, state_classes(), class_index as int).contains(
                #[trigger] state_class(state),
            ) <==> state == reading.state by {
            assert(state_classes()[state_index(state)] == state_class(state));
            assert(state_classes().contains(state_class(state)));
            assert(state_classes()[state_index(reading.state)] == state_class(reading.state));
            if state != reading.state {
                assert(state_index(state) != state_index(reading.state));
            }
        }
    }

    mark(element, &classes, class_index);

    show_reading(element, reading, precision);
}

impl Module for Power {
    type Receive = ();

    type Send = Reading;

    open spec fn named() -> Seq<char> {
        "power"@
    }

    open spec fn base_config(&self) -> BaseModuleConfig {
        self.config
    }

    open spec fn starts(&self, host: RBar) -> Result<Controller, Error> {
        if host.batteries@.len() > 0 {
            Ok(Controller { interval: 1000 })
        } else {
            Err(Error::Unavailable)
        }
    }

    open spec fn builds(&self, host: RBar) -> Result<ElementView, Error> {
        Ok(power_showing(power_blank(), first_reading(host), self.precision as nat))
    }

    fn name() -> (name: &'static str) {
        proof {
            reveal_strlit("power");
        }
        "power"
    }

    fn controllers(&self, context: &WidgetContext<Self::Send>) -> (started: Result<
        Controller,
        Error,
    >) {
        if context.rbar.batteries.len() == 0 {
            return Err(Error::Unavailable);
        }
        Ok(Controller::every(1000))
    }

    fn widget(&self, context: &mut WidgetContext<Self::Send>) -> (built: Result<Rendered, Error>) {
        let mut icon = Label::new("");
        let mut label = Label::new("");

        icon.add_css_class("icon");
        label.add_css_class("label");

        let mut container = Element::row(icon, label);
        container.show();
        proof {
            reveal_strlit("");
            assert(""@ =~= Seq::<char>::empty());
            assert(container@.icon->0.classes =~= set!["icon"@]);
            assert(container@.label.classes =~= set!["label"@]);
            assert(container@ == power_blank());
        }

        let reading = if context.rbar.batteries.len() > 0 {
            context.rbar.batteries[0].reading()
        } else {
            Reading { state: State::Unknown, charge: Charge { millionths: 0 } }
        };
        render(&mut container, &reading, self.precision);

        let receiver = context.subscribe();
        Ok(Rendered { element: container, receiver })
    }

    fn get_base_config(&self) -> (config: &BaseModuleConfig) {
        &self.config
    }
}

/// The precision of a module whose configuration names none.
pub fn precision_default() -> (precision: u8)
    ensures
        precision == 0,
{
    0
}

} // verus!
