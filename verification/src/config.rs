//! The configuration of the bar, as plain values.

use vstd::prelude::*;
use crate::modules::Modules;

verus! {

/// The general configuration of the bar.
pub struct Config {
    pub bar: BarConfig,
    pub margin: MarginConfig,
}

impl Default for Config {
    fn default() -> (config: Config)
        ensures
            config.bar.height == 0,
            config.bar.modules@.len() == 0,
            config.margin == MarginConfig::zero(),
    {
        Config { bar: BarConfig::default(), margin: MarginConfig::default() }
    }
}

/// A bar configuration.
pub struct BarConfig {
    pub height: i32,
    /// The modules of the bar, in the order in which they are declared.
    pub modules: Vec<Modules>,
}

impl Default for BarConfig {
    fn default() -> (config: BarConfig)
        ensures
            config.height == 0,
            config.modules@.len() == 0,
    {
        BarConfig { height: 0, modules: Vec::new() }
    }
}

/// Margin configuration.
#[derive(Clone, Copy, Debug, PartialEq, Eq, Structural)]
pub struct MarginConfig {
    pub top: i32,
    pub left: i32,
    pub right: i32,
    pub bottom: i32,
}

impl MarginConfig {
    /// No margin on any side.
    pub open spec fn zero() -> MarginConfig {
        MarginConfig { top: 0, left: 0, right: 0, bottom: 0 }
    }
}

impl Default for MarginConfig {
    fn default() -> (margin: MarginConfig)
        ensures
            margin == MarginConfig::zero(),
    {
        MarginConfig {
            top: margin_default(),
            left: margin_default(),
            right: margin_default(),
            bottom: margin_default(),
        }
    }
}

/// The margin of a side that the configuration does not mention.
pub fn margin_default() -> (margin: i32)
    ensures
        margin == 0,
{
    0
}

} // verus!
