//! The clock module.

use vstd::prelude::*;
use vstd::string::*;
use crate::broadcast::Received;
use crate::element::{ClassList, Element, ElementView, Label, LabelView, Shape};
use crate::modules::{
    BaseModuleConfig, Controller, Error, Flow, Module, Rendered, WidgetContext,
};
use crate::rbar::RBar;

verus! {

/// A point in time: seconds and nanoseconds since the start of 1970 in UTC,
/// and the offset of the local time from UTC in seconds, east positive.
#[derive(Clone, Copy, Debug, PartialEq, Eq, Structural)]
pub struct Timestamp {
    pub secs: i64,
    pub nanos: u32,
    pub offset: i32,
}

/// The text that chrono's `format` gives for a point in time and a
/// pattern; `None` where the point in time is out of chrono's range or the
/// pattern holds what chrono does not know.
pub uninterp spec fn formatted(secs: int, nanos: int, offset: int, pattern: Seq<char>) -> Option<
    Seq<char>,
>;

/// The text of `at` after `pattern`.
pub open spec fn clock_text(at: Timestamp, pattern: Seq<char>) -> Option<Seq<char>> {
    formatted(at.secs as int, at.nanos as int, at.offset as int, pattern)
}

/// The view of a text, if there is one.
pub open spec fn text_of(text: Option<String>) -> Option<Seq<char>> {
    match text {
        Some(text) => Some(text@),
        None => None,
    }
}

/// chrono's `DateTime::format`, written into a `String`.
///
/// The point in time is rebuilt with `FixedOffset::east_opt` and
/// `DateTime::from_timestamp`; chrono refuses what lies outside its range.
/// `DelayedFormat::write_to` reports a pattern that it cannot render as an
/// error. In both cases nothing is returned. The result depends on the
/// arguments alone.
#[verifier::external_body]
fn strftime(at: Timestamp, pattern: &str) -> (text: Option<String>)
    ensures
        text_of(text) == formatted(at.secs as int, at.nanos as int, at.offset as int, pattern@),
{
    let zone = chrono::FixedOffset::east_opt(at.offset)?;
    let moment = chrono::DateTime::from_timestamp(at.secs, at.nanos)?.with_timezone(&zone);
    let mut text = String::new();
    match moment.format(pattern).write_to(&mut text) {
        Ok(()) => Some(text),
        Err(_) => None,
    }
}

/// A clock.
pub struct Clock {
    pub config: BaseModuleConfig,
    /// Clock format
    /// Default: `%a %d/%m/%Y - %H:%M:%S %p`
    /// Example: Wed 01/01/2022 - 00:00:00 AM
    ///
    /// Formatting is based on chrono's `strftime`.
    pub format: String,
}

/// The element of a clock that shows `text`.
pub open spec fn clock_face(text: Seq<char>) -> ElementView {
    ElementView {
        shape: Shape::Button,
        name: Seq::empty(),
        classes: Set::empty(),
        icon: None,
        label: LabelView { classes: Set::empty(), text },
        visible: true,
    }
}

impl Clock {
    pub fn new(config: BaseModuleConfig, format: String) -> (clock: Clock)
        ensures
            clock.base_config() == config,
            clock.format == format,
    {
        Clock { config, format }
    }

    /// The text of `at` after the pattern of this clock.
    pub fn text(&self, at: Timestamp) -> (text: Option<String>)
        ensures
            text_of(text) == clock_text(at, self.format@),
    {
        strftime(at, self.format.as_str())
    }

    /// The element of a clock that shows `text`. Without a text there is no
    /// element: the pattern of the clock cannot be rendered.
    pub fn face(text: Option<String>) -> (built: Result<Element, Error>)
        ensures
            match built {
                Ok(element) => text matches Some(shown) && element@ == clock_face(shown@),
                Err(error) => text is None && error == Error::Pattern,
            },
    {
        let text = match text {
            Some(text) => text,
            None => {
                return Err(Error::Pattern);
            },
        };
        let label = Label { classes: ClassList::new(), text };
        let mut button = Element::button(label);
        button.show();
        Ok(button)
    }

    /// Shows `text` on the element of a clock, if there is a text; without
    /// one the element keeps what it shows.
    pub fn show(element: &mut Element, text: Option<String>)
        ensures
            final(element)@ == match text {
                Some(text) => ElementView {
                    label: LabelView { text: text@, ..old(element)@.label },
                    ..old(element)@
                },
                None => old(element)@,
            },
    {
        match text {
            Some(text) => {
                element.label.set_label(text);
            },
            None => {},
        }
    }

    /// One turn of the task that keeps the element of a clock up to date:
    /// a point in time that arrives is shown after the pattern. The task
    /// goes on when it has fallen behind, and ends when the channel is
    /// closed.
    pub fn run_widget(&self, element: &mut Element, update: Received<Timestamp>) -> (flow: Flow)
        ensures
            flow == if update is Closed {
                Flow::Stop
            } else {
                Flow::Continue
            },
            final(element)@ == match update {
                Received::Value(at) => match clock_text(at, self.format@) {
                    Some(text) => ElementView {
                        label: LabelView { text, ..old(element)@.label },
                        ..old(element)@
                    },
                    None => old(element)@,
                },
                _ => old(element)@,
            },
    {
        match update {
            Received::Value(at) => {
                Self::show(element, self.text(at));
                Flow::Continue
            },
            Received::Lagged(_) => Flow::Continue,
            Received::Empty => Flow::Continue,
            Received::Closed => Flow::Stop,
        }
    }
}

impl Module for Clock {
    type Receive = ();

    type Send = Timestamp;

    open spec fn named() -> Seq<char> {
        "clock"@
    }

    open spec fn base_config(&self) -> BaseModuleConfig {
        self.config
    }

    open spec fn starts(&self, host: RBar) -> Result<Controller, Error> {
        Ok(Controller { interval: 500 })
    }

    open spec fn builds(&self, host: RBar) -> Result<ElementView, Error> {
        match clock_text(host.now, self.format@) {
            Some(text) => Ok(clock_face(text)),
            None => Err(Error::Pattern),
        }
    }

    fn name() -> (name: &'static str) {
        proof {
            reveal_strlit("clock");
        }
        "clock"
    }

    fn controllers(&self, context: &WidgetContext<Self::Send>) -> (started: Result<
        Controller,
        Error,
    >) {
        Ok(Controller::every(500))
    }

    fn widget(&self, context: &mut WidgetContext<Self::Send>) -> (built: Result<Rendered, Error>) {
        let button = match Self::face(self.text(context.rbar.now)) {
            Ok(button) => button,
            Err(error) => {
                return Err(error);
            },
        };

        let receiver = context.subscribe();
        Ok(Rendered { element: button, receiver })
    }

    fn get_base_config(&self) -> (config: &BaseModuleConfig) {
        &self.config
    }
}

/// The pattern of a clock whose configuration names none.
pub fn default_format() -> (format: String)
    ensures
        format@ == "%a %d/%m/%Y - %H:%M:%S %p"@,
{
    String::from_str("%a %d/%m/%Y - %H:%M:%S %p")
}

} // verus!
