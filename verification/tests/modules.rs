use std::sync::Arc;

use rbar::bar::{load_bars, Bar};
use rbar::battery::{Battery as Cell, Charge, Look, Reading, State};
use rbar::broadcast::Received;
use rbar::config::{BarConfig, Config, MarginConfig};
use rbar::element::{Element, Label, Shape};
use rbar::modules::battery::{run_widget, watch, Battery, Tick};
use rbar::modules::clock::{default_format, Clock, Timestamp};
use rbar::modules::power::{format_label, mark, precision_default, show_reading, Power};
use rbar::modules::{
    BaseModuleConfig, Controller, Error, Events, Flow, Module, ModuleFactory, ModulePosition,
    Modules, Registered, Step,
};
use rbar::rbar::{IdSource, RBar};

const NOON: Timestamp = Timestamp { secs: 1_431_691_200, nanos: 0, offset: 0 };

fn base(position: ModulePosition) -> BaseModuleConfig {
    BaseModuleConfig { enabled: true, position }
}

fn host(modules: Vec<Modules>, charges: &[u32]) -> Arc<RBar> {
    host_in_state(modules, "Unknown\n", charges)
}

fn host_in_state(modules: Vec<Modules>, status: &str, charges: &[u32]) -> Arc<RBar> {
    let batteries = charges
        .iter()
        .enumerate()
        .map(|(i, millionths)| {
            Cell::with_root(format!("BAT{}", i), status, Some(Charge { millionths: *millionths }))
        })
        .collect();
    let config = Config { bar: BarConfig { height: 30, modules }, margin: MarginConfig::default() };
    Arc::new(RBar::new(config, "/etc/rbar".to_string(), NOON, batteries))
}

fn clock(position: ModulePosition, format: &str) -> Clock {
    Clock::new(base(position), format.to_string())
}

fn classes(element: &Element) -> Vec<String> {
    let mut names = element.classes.names().clone();
    names.sort();
    names
}

fn reading(state: State, millionths: u32) -> Reading {
    Reading { state, charge: Charge { millionths } }
}

#[test]
fn clock_formats_with_chrono() {
    let clock = clock(ModulePosition::Left, "%d/%m/%Y %H:%M");
    let midnight = Timestamp { secs: 1_431_648_000, nanos: 0, offset: 0 };
    assert_eq!(clock.text(midnight).as_deref(), Some("15/05/2015 00:00"));
    let east = Timestamp { secs: 1_431_648_000, nanos: 0, offset: 3600 };
    assert_eq!(clock.text(east).as_deref(), Some("15/05/2015 01:00"));
    let west = Timestamp { secs: 1_431_648_000, nanos: 0, offset: -1800 };
    assert_eq!(clock.text(west).as_deref(), Some("14/05/2015 23:30"));
}

#[test]
fn clock_default_format() {
    assert_eq!(default_format(), "%a %d/%m/%Y - %H:%M:%S %p");
    let clock = Clock::new(base(ModulePosition::Left), default_format());
    let moment = Timestamp { secs: 1_431_648_000 + 13 * 3600 + 62, nanos: 5, offset: 0 };
    assert_eq!(clock.text(moment).as_deref(), Some("Fri 15/05/2015 - 13:01:02 PM"));
}

#[test]
fn clock_has_no_text_for_what_chrono_refuses() {
    let odd = clock(ModulePosition::Left, "%H:%Q");
    assert_eq!(odd.text(NOON), None);
    let fine = clock(ModulePosition::Left, "%H:%M");
    assert_eq!(fine.text(Timestamp { secs: 0, nanos: 0, offset: 86_400 }), None);
    assert_eq!(fine.text(Timestamp { secs: 0, nanos: 2_000_000_000, offset: 0 }), None);
    assert_eq!(fine.text(Timestamp { secs: i64::MAX, nanos: 0, offset: 0 }), None);
    assert_eq!(fine.text(Timestamp { secs: 0, nanos: 0, offset: 0 }).as_deref(), Some("00:00"));
}

#[test]
fn clock_element_follows_the_time() {
    let clock = clock(ModulePosition::Center, "%H:%M:%S");
    let mut element = Element::button(Label::new("00:00:00"));
    let later = Timestamp { secs: NOON.secs + 61, ..NOON };
    assert_eq!(clock.run_widget(&mut element, Received::Value(later)), Flow::Continue);
    assert_eq!(element.label.text, "12:01:01");
    assert_eq!(clock.run_widget(&mut element, Received::Lagged(4)), Flow::Continue);
    assert_eq!(clock.run_widget(&mut element, Received::Empty), Flow::Continue);
    assert_eq!(element.label.text, "12:01:01");
    assert_eq!(clock.run_widget(&mut element, Received::Closed), Flow::Stop);
    assert_eq!(element.label.text, "12:01:01");
}

#[test]
fn clock_element_keeps_its_text_without_a_new_one() {
    let mut element = Element::button(Label::new("before"));
    Clock::show(&mut element, None);
    assert_eq!(element.label.text, "before");
    Clock::show(&mut element, Some("after".to_string()));
    assert_eq!(element.label.text, "after");
}

#[test]
fn module_names() {
    assert_eq!(Clock::name(), "clock");
    assert_eq!(Power::name(), "power");
    assert_eq!(Battery::name(), "battery");
}

#[test]
fn module_base_config() {
    let power = Power::new(BaseModuleConfig { enabled: false, position: ModulePosition::Right }, 2);
    assert!(!power.is_enabled());
    assert_eq!(*power.get_position(), ModulePosition::Right);
    assert_eq!(power.get_base_config().position, ModulePosition::Right);
    assert_eq!(power.precision, 2);
    assert_eq!(precision_default(), 0);
    assert_eq!(rbar::modules::battery::precision_default(), 0);
}

#[test]
fn error_messages() {
    assert_eq!(Error::Unavailable.message(), "Failed to get battery");
    assert_eq!(Error::Transient.message(), "Failed to refresh battery");
    assert_eq!(Error::Pattern.message(), "Failed to format date");
    assert_eq!(Error::Disabled.message(), "Module is disabled");
}

#[test]
fn formatting_scenario() {
    let power = Power::new(base(ModulePosition::Right), 1);
    let mut element = Element::row(Label::new(""), Label::new(""));
    let states = ["charging", "discharging", "full", "unknown"];
    let first = reading(State::Discharging, (0.567f64 * 1_000_000.0).round() as u32);
    assert_eq!(power.run_widget(&mut element, Received::Value(first)), Flow::Continue);
    assert_eq!(element.label.text, "56.7%");
    assert_eq!(states.iter().filter(|name| element.classes.contains(name)).count(), 1);
    assert!(element.classes.contains("discharging"));

    let second = reading(State::Charging, (0.571f64 * 1_000_000.0).round() as u32);
    assert_eq!(power.run_widget(&mut element, Received::Value(second)), Flow::Continue);
    assert_eq!(element.label.text, "57.1%");
    assert_eq!(states.iter().filter(|name| element.classes.contains(name)).count(), 1);
    assert!(element.classes.contains("charging"));
}

#[test]
fn power_element_has_one_state_class_at_any_time() {
    let power = Power::new(base(ModulePosition::Right), 0);
    let mut element = Element::row(Label::new(""), Label::new(""));
    element.add_css_class("widget");
    element.add_css_class("full");
    element.add_css_class("unknown");
    let names = ["charging", "discharging", "full", "unknown"];
    let states = [State::Charging, State::Discharging, State::Full, State::Unknown];
    for (state, name) in states.iter().zip(names) {
        power.run_widget(&mut element, Received::Value(reading(*state, 500_000)));
        assert_eq!(classes(&element), vec![name.to_string(), "widget".to_string()]);
    }
    assert_eq!(power.run_widget(&mut element, Received::Lagged(1)), Flow::Continue);
    assert_eq!(power.run_widget(&mut element, Received::Empty), Flow::Continue);
    assert_eq!(power.run_widget(&mut element, Received::Closed), Flow::Stop);
    assert_eq!(classes(&element), vec!["unknown", "widget"]);
}

#[test]
fn mark_takes_all_and_gives_one() {
    let mut element = Element::button(Label::new(""));
    element.add_css_class("b");
    element.add_css_class("keep");
    mark(&mut element, &vec!["a", "b", "c"], 2);
    assert_eq!(classes(&element), vec!["c", "keep"]);
    mark(&mut element, &vec!["a", "b", "c"], 7);
    assert_eq!(classes(&element), vec!["keep"]);
    mark(&mut element, &vec!["a", "a"], 0);
    assert_eq!(classes(&element), vec!["keep"]);
    mark(&mut element, &vec!["a", "a"], 1);
    assert_eq!(classes(&element), vec!["a", "keep"]);
}

#[test]
fn icon_follows_state_and_charge() {
    let mut icon = Label::new("");
    let mut label = Label::new("");
    let cases = [
        (State::Charging, 50_000, "\u{f0e7}"),
        (State::Charging, 1_000_000, "\u{f0e7}"),
        (State::Discharging, 0, "\u{f244}"),
        (State::Discharging, 100_000, "\u{f244}"),
        (State::Discharging, 105_000, "\u{f244}"),
        (State::Discharging, 110_000, "\u{f243}"),
        (State::Unknown, 400_000, "\u{f243}"),
        (State::Unknown, 400_001, "\u{f244}"),
        (State::Full, 410_000, "\u{f242}"),
        (State::Full, 600_000, "\u{f242}"),
        (State::Full, 610_000, "\u{f241}"),
        (State::Full, 800_000, "\u{f241}"),
        (State::Full, 810_000, "\u{f240}"),
        (State::Full, 1_000_000, "\u{f240}"),
        (State::Full, 1_000_001, "\u{f244}"),
    ];
    for (state, millionths, sign) in cases {
        format_label(&mut icon, &mut label, &reading(state, millionths), 0);
        assert_eq!(icon.text, sign);
    }
    format_label(&mut icon, &mut label, &reading(State::Full, 333_333), 2);
    assert_eq!(label.text, "33.33%");
}

#[test]
fn reading_is_shown_without_icon_too() {
    let mut element = Element::button(Label::new(""));
    show_reading(&mut element, &reading(State::Full, 120_000), 1);
    assert!(element.icon.is_none());
    assert_eq!(element.label.text, "12.0%");
    let mut row = Element::row(Label::new(""), Label::new(""));
    show_reading(&mut row, &reading(State::Full, 120_000), 1);
    assert_eq!(row.icon.as_ref().map(|icon| icon.text.as_str()), Some("\u{f243}"));
    assert_eq!(row.label.text, "12.0%");
}

#[test]
fn battery_element_looks_at_the_battery_on_each_tick() {
    let mut element = Element::row(Label::new(""), Label::new(""));
    element.add_css_class("empty");
    let tick = || Received::Value(Tick {});
    let seen = run_widget(&mut element, tick(), Ok(reading(State::Full, 1_000_000)), 0);
    assert!(matches!(seen, Ok(Flow::Continue)));
    assert_eq!(classes(&element), vec!["full"]);
    assert_eq!(element.label.text, "100%");

    let failed = run_widget(&mut element, tick(), Err(Error::Transient), 0);
    assert!(matches!(failed, Ok(Flow::Continue)));
    assert_eq!(classes(&element), vec!["full"]);
    assert_eq!(element.label.text, "100%");

    let gone = run_widget(&mut element, tick(), Err(Error::Unavailable), 0);
    assert!(matches!(gone, Err(Error::Unavailable)));
    assert_eq!(element.label.text, "100%");

    let behind = run_widget(&mut element, Received::Lagged(2), Ok(reading(State::Unknown, 1)), 0);
    assert!(matches!(behind, Ok(Flow::Continue)));
    assert_eq!(element.label.text, "100%");

    let closed = run_widget(&mut element, Received::Closed, Ok(reading(State::Unknown, 1)), 0);
    assert!(matches!(closed, Ok(Flow::Stop)));
    let other = run_widget(&mut element, tick(), Ok(reading(State::Unknown, 1)), 0);
    assert!(matches!(other, Ok(Flow::Continue)));
    assert_eq!(classes(&element), vec!["unknown"]);
}

#[test]
fn create_registers_a_clock() {
    let host = host(Vec::new(), &[]);
    let factory = ModuleFactory::new(host.clone());
    let mut bar = Bar::new(host.clone());
    let mut ids = IdSource::new();
    let module = clock(ModulePosition::Center, "%H:%M");
    let mut instance = factory.create(&module, &mut bar, &mut ids).ok().expect("a clock starts");

    assert_eq!(instance.context.id, 1);
    assert_eq!(instance.controller, Controller { interval: 500 });
    assert_eq!(instance.position, ModulePosition::Center);
    assert_eq!(instance.index, 0);
    assert_eq!(instance.receiver, 0);
    assert!(Arc::ptr_eq(&instance.context.rbar, &host));
    assert_eq!(instance.context.tx.capacity(), 32);
    assert_eq!(instance.context.tx.len(), 0);
    assert_eq!(instance.context.update_tx.receiver_count(), 1);
    assert!(matches!(instance.context.recv(instance.receiver), Received::Empty));

    assert!(bar.left.is_empty() && bar.right.is_empty());
    assert_eq!(bar.center.len(), 1);
    let element = &bar.center[0];
    assert_eq!(element.shape, Shape::Button);
    assert_eq!(element.name, "clock");
    assert_eq!(classes(element), vec!["clock", "widget"]);
    assert_eq!(element.label.text, "12:00");
    assert!(element.visible);
    assert_eq!(RBar::unique_id(&mut ids), 2);
}

#[test]
fn create_registers_power_with_its_first_reading() {
    let host = host(Vec::new(), &[567_000, 10]);
    let factory = ModuleFactory::new(host.clone());
    let mut bar = Bar::new(host);
    let mut ids = IdSource::new();
    let module = Power::new(base(ModulePosition::Right), 1);
    let instance = factory.create(&module, &mut bar, &mut ids).ok().expect("there is a battery");
    assert_eq!(instance.controller, Controller { interval: 1000 });
    assert_eq!(instance.index, 0);
    let element = &bar.right[0];
    assert_eq!(element.shape, Shape::Row);
    assert_eq!(element.name, "power");
    assert_eq!(classes(element), vec!["power", "unknown", "widget"]);
    assert_eq!(element.label.text, "56.7%");
    assert_eq!(element.label.classes.names(), &vec!["label".to_string()]);
    let icon = element.icon.as_ref().expect("a row has an icon");
    assert_eq!(icon.text, "\u{f242}");
    assert_eq!(icon.classes.names(), &vec!["icon".to_string()]);
    assert!(element.visible);
}

#[test]
fn create_keeps_out_power_without_battery() {
    let host = host(Vec::new(), &[]);
    let factory = ModuleFactory::new(host.clone());
    let mut bar = Bar::new(host);
    let mut ids = IdSource::new();
    let module = Power::new(base(ModulePosition::Right), 1);
    assert!(matches!(factory.create(&module, &mut bar, &mut ids), Err(Error::Unavailable)));
    assert!(bar.left.is_empty() && bar.center.is_empty() && bar.right.is_empty());
    assert_eq!(RBar::unique_id(&mut ids), 2);
}

#[test]
fn create_keeps_out_clock_with_odd_pattern() {
    let host = host(Vec::new(), &[]);
    let factory = ModuleFactory::new(host.clone());
    let mut bar = Bar::new(host);
    let mut ids = IdSource::new();
    let module = clock(ModulePosition::Left, "%!");
    assert!(matches!(factory.create(&module, &mut bar, &mut ids), Err(Error::Pattern)));
    assert!(bar.left.is_empty());
}

#[test]
fn create_keeps_out_battery_module_without_battery() {
    let host = host(Vec::new(), &[]);
    let factory = ModuleFactory::new(host.clone());
    let mut bar = Bar::new(host);
    let mut ids = IdSource::new();
    let module = Battery::new(base(ModulePosition::Left), 0);
    assert!(matches!(factory.create(&module, &mut bar, &mut ids), Err(Error::Unavailable)));
    assert!(bar.left.is_empty() && bar.center.is_empty() && bar.right.is_empty());
    assert_eq!(RBar::unique_id(&mut ids), 2);
}

#[test]
fn create_registers_battery_module_with_its_first_reading() {
    let host = host_in_state(Vec::new(), "Full\n", &[1_000_000]);
    let factory = ModuleFactory::new(host.clone());
    let mut bar = Bar::new(host);
    let mut ids = IdSource::new();
    let module = Battery::new(base(ModulePosition::Left), 0);
    let instance = factory.create(&module, &mut bar, &mut ids).ok().expect("there is a battery");
    assert_eq!(instance.controller, Controller { interval: 1000 });
    assert_eq!(bar.left[0].name, "battery");
    assert_eq!(classes(&bar.left[0]), vec!["battery", "full", "widget"]);
    assert_eq!(bar.left[0].label.text, "100%");
}

#[test]
fn create_registers_power_in_the_state_of_the_battery() {
    let names = [("Charging\n", "charging"), ("Discharging\n", "discharging"), ("Full\n", "full"), ("Not charging\n", "unknown")];
    for (status, class) in names {
        let host = host_in_state(Vec::new(), status, &[500_000]);
        let factory = ModuleFactory::new(host.clone());
        let mut bar = Bar::new(host);
        let mut ids = IdSource::new();
        let module = Power::new(base(ModulePosition::Right), 0);
        assert!(factory.create(&module, &mut bar, &mut ids).is_ok());
        let mut expected = vec!["power".to_string(), class.to_string(), "widget".to_string()];
        expected.sort();
        assert_eq!(classes(&bar.right[0]), expected);
    }
}

fn disabled(position: ModulePosition) -> BaseModuleConfig {
    BaseModuleConfig { enabled: false, position }
}

#[test]
fn create_keeps_out_a_disabled_module() {
    let host = host(Vec::new(), &[500_000]);
    let factory = ModuleFactory::new(host.clone());
    let mut bar = Bar::new(host);
    let mut ids = IdSource::new();
    let clock = Clock::new(disabled(ModulePosition::Left), "%H:%M".to_string());
    assert!(matches!(factory.create(&clock, &mut bar, &mut ids), Err(Error::Disabled)));
    let power = Power::new(disabled(ModulePosition::Left), 0);
    assert!(matches!(factory.create(&power, &mut bar, &mut ids), Err(Error::Disabled)));
    let battery = Battery::new(disabled(ModulePosition::Left), 0);
    assert!(matches!(factory.create(&battery, &mut bar, &mut ids), Err(Error::Disabled)));
    assert!(bar.left.is_empty() && bar.center.is_empty() && bar.right.is_empty());
    assert_eq!(RBar::unique_id(&mut ids), 4);
}

#[test]
fn disabled_module_is_kept_out_before_anything_else() {
    let host = host(Vec::new(), &[]);
    let factory = ModuleFactory::new(host.clone());
    let mut bar = Bar::new(host);
    let mut ids = IdSource::new();
    let power = Power::new(disabled(ModulePosition::Left), 0);
    assert!(matches!(factory.create(&power, &mut bar, &mut ids), Err(Error::Disabled)));
    let clock = Clock::new(disabled(ModulePosition::Left), "%!".to_string());
    assert!(matches!(factory.create(&clock, &mut bar, &mut ids), Err(Error::Disabled)));
}

#[test]
fn disabled_module_keeps_none_of_the_others_out() {
    let modules = vec![
        Modules::Clock(Clock::new(disabled(ModulePosition::Left), "off".to_string())),
        Modules::Clock(clock(ModulePosition::Left, "on")),
        Modules::Power(Power::new(disabled(ModulePosition::Left), 0)),
        Modules::Clock(clock(ModulePosition::Left, "too")),
    ];
    let host = host(modules, &[500_000]);
    let mut ids = IdSource::new();
    let loaded = Bar::create(host, &mut ids);
    assert!(matches!(loaded.modules[0], Err(Error::Disabled)));
    assert!(loaded.modules[1].is_ok());
    assert!(matches!(loaded.modules[2], Err(Error::Disabled)));
    assert!(loaded.modules[3].is_ok());
    let texts: Vec<&str> = loaded.bar.left.iter().map(|e| e.label.text.as_str()).collect();
    assert_eq!(texts, vec!["on", "too"]);
    assert_eq!(RBar::unique_id(&mut ids), 5);
}

#[test]
fn watch_looks_at_the_battery_when_the_module_ticks() {
    let mut element = Element::row(Label::new(""), Label::new(""));
    let mut cell = Some(Cell::with_root("BAT0".to_string(), "Full", None));
    let found = |status: &str, millionths: u32| {
        Ok(Look { status: status.to_string(), capacity: Some(Charge { millionths }) })
    };

    let flow = watch(&mut element, Received::Value(Tick {}), &mut cell, found("Charging\n", 420_000), 0);
    assert!(matches!(flow, Ok(Flow::Continue)));
    assert_eq!(classes(&element), vec!["charging"]);
    assert_eq!(element.label.text, "42%");
    assert_eq!(cell.as_ref().map(|cell| cell.reading()), Some(reading(State::Charging, 420_000)));

    let flow = watch(&mut element, Received::Value(Tick {}), &mut cell, Err(Error::Transient), 0);
    assert!(matches!(flow, Ok(Flow::Continue)));
    assert_eq!(element.label.text, "42%");
    assert_eq!(cell.as_ref().map(|cell| cell.reading()), Some(reading(State::Charging, 420_000)));

    let flow = watch(&mut element, Received::Lagged(3), &mut cell, found("Full\n", 1_000_000), 0);
    assert!(matches!(flow, Ok(Flow::Continue)));
    assert_eq!(element.label.text, "42%");
    assert_eq!(cell.as_ref().map(|cell| cell.reading()), Some(reading(State::Charging, 420_000)));

    let flow = watch(&mut element, Received::Empty, &mut cell, found("Full\n", 1_000_000), 0);
    assert!(matches!(flow, Ok(Flow::Continue)));
    let flow = watch(&mut element, Received::Closed, &mut cell, found("Full\n", 1_000_000), 0);
    assert!(matches!(flow, Ok(Flow::Stop)));
    assert_eq!(classes(&element), vec!["charging"]);
    assert_eq!(cell.as_ref().map(|cell| cell.reading()), Some(reading(State::Charging, 420_000)));
}

#[test]
fn watch_without_battery_ends_at_the_first_tick() {
    let mut element = Element::row(Label::new(""), Label::new("before"));
    let mut cell: Option<Cell> = None;
    let found = Ok(Look { status: "Full".to_string(), capacity: None });
    let flow = watch(&mut element, Received::Value(Tick {}), &mut cell, found, 0);
    assert!(matches!(flow, Err(Error::Unavailable)));
    assert_eq!(element.label.text, "before");
    assert!(cell.is_none());
    let flow = watch(&mut element, Received::Empty, &mut cell, Err(Error::Transient), 0);
    assert!(matches!(flow, Ok(Flow::Continue)));
}

#[test]
fn slots_keep_the_order_of_declaration() {
    let modules = vec![
        Modules::Clock(clock(ModulePosition::Left, "a")),
        Modules::Power(Power::new(base(ModulePosition::Right), 0)),
        Modules::Clock(clock(ModulePosition::Left, "b")),
        Modules::Battery(Battery::new(base(ModulePosition::Left), 0)),
        Modules::Clock(clock(ModulePosition::Right, "c")),
    ];
    let host = host(modules, &[1_000_000]);
    let mut ids = IdSource::new();
    let loaded = Bar::create(host, &mut ids);
    assert!(loaded.bar.visible);
    assert!(loaded.modules.iter().all(|module| module.is_ok()));
    let texts = |slot: &Vec<Element>| slot.iter().map(|e| e.label.text.clone()).collect::<Vec<_>>();
    assert_eq!(texts(&loaded.bar.left), vec!["a", "b", "100%"]);
    assert_eq!(texts(&loaded.bar.right), vec!["100%", "c"]);
    assert!(loaded.bar.center.is_empty());
    let places: Vec<usize> = loaded
        .modules
        .iter()
        .map(|module| match module {
            Ok(Registered::Clock(instance)) => instance.index,
            Ok(Registered::Battery(instance)) => instance.index,
            Ok(Registered::Power(instance)) => instance.index,
            Err(_) => usize::MAX,
        })
        .collect();
    assert_eq!(places, vec![0, 0, 1, 2, 1]);
    assert_eq!(RBar::unique_id(&mut ids), 6);
}

fn isolation(order: Vec<Modules>, valid: usize) {
    let host = host(order, &[]);
    let mut ids = IdSource::new();
    let mut loaded = Bar::create(host, &mut ids);
    assert_eq!(loaded.modules.len(), 2);
    assert!(matches!(loaded.modules[1 - valid], Err(Error::Unavailable)));
    assert!(loaded.bar.right.is_empty());
    assert_eq!(loaded.bar.left.len(), 1);
    assert_eq!(loaded.bar.left[0].name, "clock");
    assert_eq!(loaded.bar.left[0].label.text, "12:00");

    let instance = match &mut loaded.modules[valid] {
        Ok(Registered::Clock(instance)) => instance,
        _ => panic!("the clock is registered"),
    };
    assert_eq!(instance.context.id, valid + 1);
    let clock = clock(ModulePosition::Left, "%H:%M");
    let later = Timestamp { secs: NOON.secs + 60, ..NOON };
    assert!(matches!(instance.controller.turn(&mut instance.context, Ok(later)), Step::Sleep(500)));
    ModuleFactory::new(instance.context.rbar.clone()).setup_receiver(&mut instance.context);
    let update = instance.context.recv(instance.receiver);
    assert_eq!(clock.run_widget(&mut loaded.bar.left[instance.index], update), Flow::Continue);
    assert_eq!(loaded.bar.left[0].label.text, "12:01");
}

#[test]
fn isolation_valid_module_first() {
    isolation(
        vec![
            Modules::Clock(clock(ModulePosition::Left, "%H:%M")),
            Modules::Power(Power::new(base(ModulePosition::Right), 0)),
        ],
        0,
    );
}

#[test]
fn isolation_failing_module_first() {
    isolation(
        vec![
            Modules::Power(Power::new(base(ModulePosition::Right), 0)),
            Modules::Clock(clock(ModulePosition::Left, "%H:%M")),
        ],
        1,
    );
}

#[test]
fn every_bar_has_instances_of_its_own() {
    let modules = vec![
        Modules::Clock(clock(ModulePosition::Left, "%H")),
        Modules::Power(Power::new(base(ModulePosition::Right), 0)),
    ];
    let host = host(modules, &[]);
    let mut ids = IdSource::new();
    let bars = load_bars(host, 3, &mut ids);
    assert_eq!(bars.len(), 3);
    for (monitor, loaded) in bars.iter().enumerate() {
        assert!(loaded.bar.visible);
        assert_eq!(loaded.bar.left.len(), 1);
        assert!(loaded.bar.right.is_empty());
        match &loaded.modules[0] {
            Ok(Registered::Clock(instance)) => assert_eq!(instance.context.id, 2 * monitor + 1),
            _ => panic!("the clock is registered"),
        }
        assert!(loaded.modules[1].is_err());
    }
    assert_eq!(RBar::unique_id(&mut ids), 7);
    assert!(load_bars(Arc::new(RBar::new(Config::default(), String::new(), NOON, Vec::new())), 0, &mut ids).is_empty());
}

#[test]
fn events_carry_their_value() {
    let Events::Update(value) = Events::Update(5u8);
    assert_eq!(value, 5);
}

#[test]
fn bar_starts_blank_and_hidden() {
    let host = host(Vec::new(), &[]);
    let bar = Bar::new(host.clone());
    assert_eq!(bar.name, "rbar");
    assert!(bar.left.is_empty() && bar.center.is_empty() && bar.right.is_empty());
    assert!(!bar.visible);
    assert!(Arc::ptr_eq(&bar.rbar, &host));
}

#[test]
fn bar_appends_behind_what_stands_in_the_slot() {
    let mut bar = Bar::new(host(Vec::new(), &[]));
    assert_eq!(bar.append(ModulePosition::Left, Element::button(Label::new("a"))), 0);
    assert_eq!(bar.append(ModulePosition::Right, Element::button(Label::new("b"))), 0);
    assert_eq!(bar.append(ModulePosition::Left, Element::button(Label::new("c"))), 1);
    assert_eq!(bar.append(ModulePosition::Center, Element::button(Label::new("d"))), 0);
    assert_eq!(bar.left[0].label.text, "a");
    assert_eq!(bar.left[1].label.text, "c");
    assert_eq!(bar.center[0].label.text, "d");
    assert_eq!(bar.right[0].label.text, "b");
}

#[test]
fn bar_init_registers_and_shows() {
    let modules = vec![Modules::Clock(clock(ModulePosition::Right, "%M"))];
    let host = host(modules, &[]);
    let mut ids = IdSource::new();
    let mut bar = Bar::new(host);
    bar.append(ModulePosition::Right, Element::button(Label::new("first")));
    let loaded = bar.init(&mut ids);
    assert!(loaded.bar.visible);
    assert_eq!(loaded.bar.right.len(), 2);
    assert_eq!(loaded.bar.right[1].label.text, "00");
    match &loaded.modules[0] {
        Ok(Registered::Clock(instance)) => assert_eq!((instance.context.id, instance.index), (1, 1)),
        _ => panic!("the clock is registered"),
    }
}

#[test]
fn load_modules_leaves_the_bar_hidden() {
    let modules = vec![
        Modules::Power(Power::new(base(ModulePosition::Left), 0)),
        Modules::Clock(clock(ModulePosition::Left, "%M")),
        Modules::Clock(clock(ModulePosition::Left, "%")),
    ];
    let host = host(modules, &[]);
    let mut ids = IdSource::new();
    let mut bar = Bar::new(host);
    let created = bar.load_modules(&mut ids);
    assert!(!bar.visible);
    assert!(matches!(created[0], Err(Error::Unavailable)));
    assert!(created[1].is_ok());
    assert!(matches!(created[2], Err(Error::Pattern)));
    assert_eq!(bar.left.len(), 1);
    assert_eq!(RBar::unique_id(&mut ids), 4);
}

#[test]
fn modules_create_dispatches_on_the_kind() {
    let host = host(Vec::new(), &[250_000]);
    let factory = ModuleFactory::new(host.clone());
    let mut bar = Bar::new(host);
    let mut ids = IdSource::new();
    let power = Modules::Power(Power::new(base(ModulePosition::Center), 0));
    assert!(matches!(power.create(&factory, &mut bar, &mut ids), Ok(Registered::Power(_))));
    let battery = Modules::Battery(Battery::new(base(ModulePosition::Center), 0));
    assert!(matches!(battery.create(&factory, &mut bar, &mut ids), Ok(Registered::Battery(_))));
    let clock = Modules::Clock(clock(ModulePosition::Center, "%H"));
    assert!(matches!(clock.create(&factory, &mut bar, &mut ids), Ok(Registered::Clock(_))));
    let names: Vec<&str> = bar.center.iter().map(|element| element.name.as_str()).collect();
    assert_eq!(names, vec!["power", "battery", "clock"]);
}

#[test]
fn clock_face_shows_the_text_it_is_given() {
    let face = Clock::face(Some("10:10".to_string())).ok().expect("there is a text");
    assert_eq!(face.shape, Shape::Button);
    assert_eq!(face.label.text, "10:10");
    assert!(face.visible);
    assert!(face.icon.is_none());
    assert!(face.classes.names().is_empty());
    assert!(matches!(Clock::face(None), Err(Error::Pattern)));
}
