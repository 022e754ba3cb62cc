//! Batteries of the power supply, as the host reads them.

use vstd::prelude::*;
use vstd::string::*;
use crate::modules::Error;
use crate::text::same_text;

verus! {

/// Battery state.
#[derive(Clone, Copy, Debug, PartialEq, Eq, Structural)]
pub enum State {
    Charging,
    Discharging,
    Full,
    Unknown,
}

/// The line that a status file holds: its text without the line feed at
/// its end.
pub open spec fn status_line(text: Seq<char>) -> Seq<char> {
    if text.len() > 0 && text.last() == '\n' {
        text.drop_last()
    } else {
        text
    }
}

/// The state that a status file reports. The system writes `Charging`,
/// `Discharging` or `Full`; whatever else it writes tells nothing that the
/// bar shows.
pub open spec fn status_of(text: Seq<char>) -> State {
    let line = status_line(text);
    if line == "Charging"@ {
        State::Charging
    } else if line == "Discharging"@ {
        State::Discharging
    } else if line == "Full"@ {
        State::Full
    } else {
        State::Unknown
    }
}

impl State {
    /// The state that the text of a status file reports.
    pub fn from_status(status: &str) -> (state: State)
        ensures
            state == status_of(status@),
    {
        let len = status.unicode_len();
        let line = if len > 0 && status.get_char(len - 1) == '\n' {
            status.substring_char(0, len - 1)
        } else {
            status
        };
        assert(line@ == status_line(status@));
        if same_text(line, "Charging") {
            State::Charging
        } else if same_text(line, "Discharging") {
            State::Discharging
        } else if same_text(line, "Full") {
            State::Full
        } else {
            State::Unknown
        }
    }
}

impl Default for State {
    fn default() -> (state: State)
        ensures
            state == State::Unknown,
    {
        State::Unknown
    }
}

/// A charge level as a fixed-point fraction of a full charge, counted in
/// millionths: `567_000` is 56.7 %.
#[derive(Clone, Copy, Debug, PartialEq, Eq, Structural)]
pub struct Charge {
    pub millionths: u32,
}

impl Charge {
    /// The level of a full battery.
    pub fn full() -> (charge: Charge)
        ensures
            charge@ == 1_000_000,
    {
        Charge { millionths: 1_000_000 }
    }

    /// The level as a number of millionths.
    pub open spec fn view(&self) -> nat {
        self.millionths as nat
    }

    /// The level that is `percent` hundredths of a full charge.
    pub fn from_percent(percent: u8) -> (charge: Charge)
        ensures
            charge@ == percent as nat * 10_000,
    {
        Charge { millionths: percent as u32 * 10_000 }
    }
}

/// What one look at a battery gives: its state and its charge.
#[derive(Clone, Copy, Debug, PartialEq, Eq, Structural)]
pub struct Reading {
    pub state: State,
    pub charge: Charge,
}

/// A battery as a mathematical value.
pub struct BatteryView {
    pub root: Seq<char>,
    pub state: State,
    pub soc: nat,
}

/// One battery of the power supply.
#[derive(Clone, Debug)]
pub struct Battery {
    /// The directory that describes the battery.
    pub root: String,
    state: State,
    soc: Charge,
}

impl View for Battery {
    type V = BatteryView;

    closed spec fn view(&self) -> BatteryView {
        BatteryView { root: self.root@, state: self.state, soc: self.soc@ }
    }
}

/// The charge that a battery is taken to have: what was read, and a full
/// charge where nothing could be made of what its directory holds.
pub open spec fn charge_read(capacity: Option<Charge>) -> nat {
    match capacity {
        Some(charge) => charge@,
        None => 1_000_000,
    }
}

impl Battery {
    /// The battery under `root` with the state and the charge that were
    /// read there: `status` is the text of its status file.
    pub fn with_root(root: String, status: &str, capacity: Option<Charge>) -> (battery: Battery)
        ensures
            battery@ == (BatteryView {
                root: root@,
                state: status_of(status@),
                soc: charge_read(capacity),
            }),
    {
        let mut battery = Battery { root, state: State::default(), soc: Charge { millionths: 0 } };
        battery.read(status, capacity);
        battery
    }

    /// Get current battery state.
    pub fn state(&self) -> (state: &State)
        ensures
            *state == self@.state,
    {
        &self.state
    }

    /// Check if battery is full.
    pub fn is_full(&self) -> (full: bool)
        ensures
            full == (self@.state == State::Full || self@.soc >= 1_000_000),
    {
        self.state == State::Full || self.soc.millionths >= 1_000_000
    }

    /// Check if battery is charging.
    pub fn is_charging(&self) -> (charging: bool)
        ensures
            charging == (self@.state == State::Charging),
    {
        self.state == State::Charging
    }

    /// Get battery state of charge.
    pub fn state_of_charge(&self) -> (charge: Charge)
        ensures
            charge@ == self@.soc,
    {
        self.soc
    }

    /// The state and the charge together.
    pub fn reading(&self) -> (reading: Reading)
        ensures
            reading.state == self@.state,
            reading.charge@ == self@.soc,
    {
        Reading { state: self.state, charge: self.soc }
    }

    /// Refresh battery data
    ///
    /// The battery takes the state and the charge that the host has just
    /// read: `status` is the text of its status file.
    pub fn refresh(&mut self, status: &str, capacity: Option<Charge>)
        ensures
            final(self)@ == (BatteryView {
                state: status_of(status@),
                soc: charge_read(capacity),
                ..old(self)@
            }),
    {
        self.read(status, capacity);
    }

    fn read(&mut self, status: &str, capacity: Option<Charge>)
        ensures
            final(self)@ == (BatteryView {
                state: status_of(status@),
                soc: charge_read(capacity),
                ..old(self)@
            }),
    {
        self.state = State::from_status(status);
        self.soc = match capacity {
            Some(charge) => charge,
            None => Charge::full(),
        };
    }
}

/// What the host found when it looked at a battery.
pub struct Look {
    /// The text of the status file.
    pub status: String,
    /// The charge that the capacity file held, where it held one.
    pub capacity: Option<Charge>,
}

/// The reading that a look gives.
pub open spec fn reading_of(look: Look) -> Reading {
    Reading {
        state: status_of(look.status@),
        charge: match look.capacity {
            Some(charge) => charge,
            None => Charge { millionths: 1_000_000 },
        },
    }
}

/// What a task learns of its battery when the host has looked for it.
/// Without a battery there is nothing to learn, whatever the host found. A
/// look that succeeded is taken over by the battery and gives its reading;
/// one that failed leaves the battery as it was and gives the failure.
pub fn observe(battery: &mut Option<Battery>, looked: Result<Look, Error>) -> (seen: Result<
    Reading,
    Error,
>)
    ensures
        match (*old(battery), looked) {
            (None, _) => seen == Err::<Reading, Error>(Error::Unavailable) && *final(battery)
                == *old(battery),
            (Some(before), Ok(look)) => {
                &&& seen == Ok::<Reading, Error>(reading_of(look))
                &&& *final(battery) matches Some(after)
                &&& after@ == (BatteryView {
                    state: status_of(look.status@),
                    soc: charge_read(look.capacity),
                    ..before@
                })
            },
            (Some(_), Err(error)) => seen == Err::<Reading, Error>(error) && *final(battery)
                == *old(battery),
        },
{
    match battery.take() {
        None => Err(Error::Unavailable),
        Some(found) => {
            let mut found = found;
            let seen = match looked {
                Ok(look) => {
                    found.refresh(look.status.as_str(), look.capacity);
                    Ok(found.reading())
                },
                Err(error) => Err(error),
            };
            *battery = Some(found);
            seen
        },
    }
}

/// One entry of the directory of power supplies, as the host read it.
pub struct Supply {
    /// The path of the entry.
    pub path: String,
    /// The last part of the path; empty where it is no text.
    pub name: String,
    /// The text of the entry's status file.
    pub status: String,
    /// The charge that the entry's capacity file held, where it held one.
    pub capacity: Option<Charge>,
}

/// Whether an entry of that name describes a battery.
pub open spec fn is_battery_name(name: Seq<char>) -> bool {
    name.len() >= 3 && name[0] == 'B' && name[1] == 'A' && name[2] == 'T'
}

/// The batteries among `supplies`, in their order.
pub open spec fn batteries_among(supplies: Seq<Supply>) -> Seq<BatteryView>
    decreases supplies.len(),
{
    if supplies.len() == 0 {
        Seq::empty()
    } else {
        let earlier = batteries_among(supplies.drop_last());
        let entry = supplies.last();
        if is_battery_name(entry.name@) {
            earlier.push(
                BatteryView {
                    root: entry.path@,
                    state: status_of(entry.status@),
                    soc: charge_read(entry.capacity),
                },
            )
        } else {
            earlier
        }
    }
}

/// The place where the system lists its power supplies.
pub struct Manager {
    root: String,
}

impl View for Manager {
    type V = Seq<char>;

    closed spec fn view(&self) -> Seq<char> {
        self.root@
    }
}

impl Manager {
    pub fn new() -> (manager: Manager)
        ensures
            manager@ == "/sys/class/power_supply"@,
    {
        Manager { root: String::from_str("/sys/class/power_supply") }
    }

    /// The directory whose entries are the power supplies.
    pub fn root(&self) -> (root: &str)
        ensures
            root@ == self@,
    {
        self.root.as_str()
    }

    /// Whether an entry of that name describes a battery.
    pub fn is_battery(name: &str) -> (battery: bool)
        ensures
            battery == is_battery_name(name@),
    {
        name.unicode_len() >= 3 && name.get_char(0) == 'B' && name.get_char(1) == 'A'
            && name.get_char(2) == 'T'
    }

    /// Get all batteries.
    pub fn batteries(&self, supplies: &Vec<Supply>) -> (batteries: Vec<Battery>)
        ensures
            batteries@.map_values(|battery: Battery| battery@) == batteries_among(supplies@),
    {
        let mut batteries: Vec<Battery> = Vec::new();
        let mut i: usize = 0;
        assert(supplies@.take(0) =~= Seq::<Supply>::empty());
        while i < supplies.len()
            invariant
                i <= supplies.len(),
                batteries@.map_values(|battery: Battery| battery@) == batteries_among(
                    supplies@.take(i as int),
                ),
            decreases supplies.len() - i,
        {
            let entry = &supplies[i];
            let ghost before = batteries@;
            if Self::is_battery(entry.name.as_str()) {
                batteries.push(
                    read_battery(entry.path.clone(), entry.status.as_str(), entry.capacity),
                );
            }
            proof {
                assert(supplies@.take(i + 1).drop_last() =~= supplies@.take(i as int));
                assert(supplies@.take(i + 1).last() == supplies@[i as int]);
                if is_battery_name(entry.name@) {
                    assert(batteries@.map_values(|battery: Battery| battery@)
                        =~= before.map_values(|battery: Battery| battery@).push(
                        batteries@.last()@,
                    ));
                }
            }
            i = i + 1;
        }
        assert(supplies@.take(i as int) =~= supplies@);
        batteries
    }
}

fn read_battery(path: String, status: &str, capacity: Option<Charge>) -> (battery: Battery)
    ensures
        battery@ == (BatteryView {
            root: path@,
            state: status_of(status@),
            soc: charge_read(capacity),
        }),
{
    Battery::with_root(path, status, capacity)
}

} // verus!
