//! The state that the whole bar shares.

use vstd::prelude::*;
use crate::battery::Battery;
use crate::config::Config;
use crate::modules::clock::Timestamp;

verus! {

/// The source of the numbers that tell module instances apart. There is one
/// for the whole process; it starts at 1 and is never set back.
pub struct IdSource {
    next: usize,
}

impl View for IdSource {
    type V = nat;

    /// The number that is handed out next.
    closed spec fn view(&self) -> nat {
        self.next as nat
    }
}

/// The number that follows `id`. After the largest number the count starts
/// over at zero.
pub open spec fn following(id: nat) -> nat {
    if id >= usize::MAX {
        0
    } else {
        id + 1
    }
}

impl IdSource {
    pub fn new() -> (ids: IdSource)
        ensures
            ids@ == 1,
    {
        IdSource { next: 1 }
    }
}

/// What the bar shares among its modules: the configuration, and what the
/// host had read of its surroundings when the bar started.
pub struct RBar {
    pub config: Config,
    /// The directory from which the configuration was read.
    pub config_dir: String,
    /// The time at which the bar started.
    pub now: Timestamp,
    /// The batteries that were found, in the order of the directory.
    pub batteries: Vec<Battery>,
}

impl RBar {
    pub fn new(config: Config, config_dir: String, now: Timestamp, batteries: Vec<Battery>) -> (rbar:
        RBar)
        ensures
            rbar.config == config,
            rbar.config_dir == config_dir,
            rbar.now == now,
            rbar.batteries == batteries,
    {
        RBar { config, config_dir, now, batteries }
    }

    /// Get unique id for widgets.
    ///
    /// This is always increments by 1 on each call.
    pub fn unique_id(ids: &mut IdSource) -> (id: usize)
        ensures
            id == old(ids)@,
            final(ids)@ == following(old(ids)@),
    {
        let id = ids.next;
        ids.next = if id == usize::MAX {
            0
        } else {
            id + 1
        };
        id
    }
}

} // verus!
