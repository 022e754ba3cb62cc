//! Modules: the producers of the bar, and the pipeline that carries what
//! they produce to their display elements.

use vstd::prelude::*;
use std::sync::Arc;
use crate::bar::{Bar, BarView};
use crate::battery::Reading;
use crate::broadcast::{Broadcast, BroadcastView, Published, Received};
use crate::element::{Element, ElementView};
use crate::mailbox::{Mailbox, MailboxView, Sent, Taken};
use crate::rbar::{IdSource, RBar, following};

pub mod battery;
pub mod clock;
pub mod power;

verus! {

/// Why a module could not do its work.
#[derive(Clone, Copy, Debug, PartialEq, Eq, Structural)]
pub enum Error {
    /// What the producer reads from is not there: the module cannot start.
    Unavailable,
    /// One reading failed; the next one may succeed.
    Transient,
    /// The pattern of the module cannot be rendered.
    Pattern,
    /// The configuration turns the module off. It is not registered; this
    /// is no failure.
    Disabled,
}

impl Error {
    /// The error in words.
    pub fn message(&self) -> (message: &'static str)
        ensures
            message@ == match self {
                Error::Unavailable => "Failed to get battery"@,
                Error::Transient => "Failed to refresh battery"@,
                Error::Pattern => "Failed to format date"@,
                Error::Disabled => "Module is disabled"@,
            },
    {
        match self {
            Error::Unavailable => "Failed to get battery",
            Error::Transient => "Failed to refresh battery",
            Error::Pattern => "Failed to format date",
            Error::Disabled => "Module is disabled",
        }
    }
}

/// What a module sends to the bar.
pub enum Events<S> {
    /// Modules updates.
    Update(S),
}

/// What every module has in its configuration.
#[derive(Clone, Copy, Debug, PartialEq, Eq, Structural)]
pub struct BaseModuleConfig {
    pub enabled: bool,
    pub position: ModulePosition,
}

/// [ModulePosition] is used to get the container wher the module should be added.
#[derive(Clone, Copy, Debug, PartialEq, Eq, Structural)]
pub enum ModulePosition {
    Left,
    Center,
    Right,
}

/// What one turn of the relay did.
#[derive(Clone, Copy, Debug, PartialEq, Eq, Structural)]
pub enum Relayed {
    /// A value went from the mailbox to this many subscribers.
    Forwarded(usize),
    /// A value left the mailbox and nobody listened. The relay goes on.
    Unobserved,
    /// The mailbox is empty: the relay waits for the next value.
    Idle,
    /// The producer is gone and the mailbox is empty: the relay has ended
    /// and has closed the broadcast channel.
    Stopped,
}

/// The pipeline of one module as a mathematical value.
pub struct ContextView<S> {
    pub id: nat,
    pub mailbox: MailboxView<Events<S>>,
    pub updates: BroadcastView<S>,
}

impl<S> ContextView<S> {
    /// The pipeline of a module that has just been given the number `id`.
    pub open spec fn fresh(id: nat, mailbox: nat, updates: nat) -> Self {
        ContextView {
            id,
            mailbox: MailboxView::fresh(mailbox),
            updates: BroadcastView::fresh(updates),
        }
    }

    /// The pipeline after the producer offered `event`.
    pub open spec fn send(self, event: Events<S>) -> Self {
        ContextView { mailbox: self.mailbox.send(event), ..self }
    }

    /// The pipeline after one more subscriber joined.
    pub open spec fn subscribe(self) -> Self {
        ContextView { updates: self.updates.subscribe(), ..self }
    }

    /// The pipeline after subscriber `sub` asked for its next value.
    pub open spec fn recv(self, sub: nat) -> Self {
        ContextView { updates: self.updates.recv(sub), ..self }
    }

    /// What one turn of the relay does.
    pub open spec fn relayed(self) -> Relayed {
        match self.mailbox.taken() {
            Taken::Value(Events::Update(value)) => match self.updates.published(value) {
                Published::Delivered(count) => Relayed::Forwarded(count),
                Published::Unobserved(_) => Relayed::Unobserved,
            },
            Taken::Empty => Relayed::Idle,
            Taken::Closed => Relayed::Stopped,
        }
    }

    /// The pipeline after one turn of the relay.
    pub open spec fn relay(self) -> Self {
        match self.mailbox.taken() {
            Taken::Value(Events::Update(value)) => ContextView {
                mailbox: self.mailbox.recv(),
                updates: self.updates.publish(value),
                ..self
            },
            Taken::Empty => self,
            Taken::Closed => ContextView { updates: self.updates.close(), ..self },
        }
    }

    /// The pipeline after the relay has taken turns until the mailbox was
    /// empty.
    pub open spec fn drained(self) -> Self
        decreases self.mailbox.queue.len(),
    {
        if self.mailbox.queue.len() > 0 {
            self.relay().drained()
        } else {
            self.relay()
        }
    }
}

/// [WidgetContext] holds information about widget and rbar.
pub struct WidgetContext<S> {
    pub id: usize,
    pub rbar: Arc<RBar>,
    /// The mailbox between the producer and the relay.
    pub tx: Mailbox<Events<S>>,
    /// The channel between the relay and the subscribers.
    pub update_tx: Broadcast<S>,
}

impl<S> View for WidgetContext<S> {
    type V = ContextView<S>;

    open spec fn view(&self) -> ContextView<S> {
        ContextView { id: self.id as nat, mailbox: self.tx@, updates: self.update_tx@ }
    }
}

impl<S: Copy> WidgetContext<S> {
    /// The channels of the pipeline are well formed.
    pub open spec fn wf(&self) -> bool {
        self.update_tx.wf()
    }

    /// Subscribe to the update channel of the module to receive updates and handle them.
    pub fn subscribe(&mut self) -> (sub: usize)
        requires
            old(self).wf(),
        ensures
            final(self).wf(),
            sub == old(self)@.updates.cursors.len(),
            final(self)@ == old(self)@.subscribe(),
            final(self).rbar == old(self).rbar,
    {
        self.update_tx.subscribe()
    }

    /// Offers `event` to the mailbox, as the producer does.
    pub fn send(&mut self, event: Events<S>) -> (outcome: Sent<Events<S>>)
        ensures
            outcome == old(self)@.mailbox.sent(event),
            final(self)@ == old(self)@.send(event),
            final(self).rbar == old(self).rbar,
            old(self).wf() ==> final(self).wf(),
    {
        self.tx.try_send(event)
    }

    /// Hands subscriber `sub` its next value, or says why there is none.
    pub fn recv(&mut self, sub: usize) -> (outcome: Received<S>)
        requires
            old(self).wf(),
        ensures
            final(self).wf(),
            outcome == old(self)@.updates.received(sub as nat),
            final(self)@ == old(self)@.recv(sub as nat),
            final(self).rbar == old(self).rbar,
    {
        self.update_tx.try_recv(sub)
    }

    /// One turn of the relay: the oldest value of the mailbox, if there is
    /// one, is published to the subscribers. That nobody listens does not
    /// end the relay; that the producer is gone does.
    pub fn relay(&mut self) -> (outcome: Relayed)
        requires
            old(self).wf(),
        ensures
            final(self).wf(),
            outcome == old(self)@.relayed(),
            final(self)@ == old(self)@.relay(),
            final(self).rbar == old(self).rbar,
    {
        match self.tx.try_recv() {
            Taken::Value(Events::Update(data)) => match self.update_tx.publish(data) {
                Published::Delivered(count) => Relayed::Forwarded(count),
                Published::Unobserved(_) => Relayed::Unobserved,
            },
            Taken::Empty => Relayed::Idle,
            Taken::Closed => {
                self.update_tx.close();
                Relayed::Stopped
            },
        }
    }
}

/// Whether a task goes on with its loop.
#[derive(Clone, Copy, Debug, PartialEq, Eq, Structural)]
pub enum Flow {
    Continue,
    Stop,
}

/// What the task of a producer does after one turn of its loop.
pub enum Step<S> {
    /// It sleeps for this many milliseconds and then reads again.
    Sleep(u64),
    /// The mailbox was full. The task keeps the value, waits until the
    /// relay has made room, and offers the value again.
    Wait(S),
    /// It ends: the mailbox is closed, or what it reads from is gone.
    Stop,
}

/// The task that produces the values of one module: it reads a value,
/// offers it to the mailbox, and sleeps for the interval.
#[derive(Clone, Copy, Debug, PartialEq, Eq, Structural)]
pub struct Controller {
    /// The time between two readings, in milliseconds.
    pub interval: u64,
}

impl<S> ContextView<S> {
    /// What the task of the producer does after it read `read`.
    pub open spec fn produced(self, interval: u64, read: Result<S, Error>) -> Step<S> {
        match read {
            Ok(value) => match self.mailbox.sent(Events::Update(value)) {
                Sent::Accepted => Step::Sleep(interval),
                Sent::Full(_) => Step::Wait(value),
                Sent::Closed(_) => Step::Stop,
            },
            Err(Error::Transient) => Step::Sleep(interval),
            Err(_) => Step::Stop,
        }
    }

    /// The pipeline after the task of the producer read `read`.
    pub open spec fn produce(self, interval: u64, read: Result<S, Error>) -> Self {
        match self.produced(interval, read) {
            Step::Sleep(_) => match read {
                Ok(value) => self.send(Events::Update(value)),
                Err(_) => self,
            },
            Step::Wait(_) => self,
            Step::Stop => ContextView { mailbox: self.mailbox.close(), ..self },
        }
    }
}

impl Controller {
    /// The task that reads every `interval` milliseconds.
    pub fn every(interval: u64) -> (controller: Controller)
        ensures
            controller.interval == interval,
    {
        Controller { interval }
    }

    /// One turn of the task's loop, after the host has read for it. A value
    /// is offered to the mailbox; a reading that failed for once is passed
    /// over and the mailbox stays open; a full mailbox makes the task wait
    /// with the value in hand. When the task ends, it closes the mailbox.
    pub fn turn<S: Copy>(&self, context: &mut WidgetContext<S>, read: Result<S, Error>) -> (step:
        Step<S>)
        ensures
            step == old(context)@.produced(self.interval, read),
            final(context)@ == old(context)@.produce(self.interval, read),
            final(context).rbar == old(context).rbar,
            old(context).wf() ==> final(context).wf(),
    {
        match read {
            Ok(value) => match context.send(Events::Update(value)) {
                Sent::Accepted => Step::Sleep(self.interval),
                Sent::Full(_) => Step::Wait(value),
                Sent::Closed(_) => {
                    context.tx.close();
                    Step::Stop
                },
            },
            Err(Error::Transient) => Step::Sleep(self.interval),
            Err(_) => {
                context.tx.close();
                Step::Stop
            },
        }
    }
}

/// What a module has built for the bar.
pub struct Rendered {
    /// The element, showing a first value.
    pub element: Element,
    /// The number under which the element is subscribed to the updates of
    /// its module.
    pub receiver: usize,
}

pub trait Module: Sized {
    /// Data to be received from the module.
    type Receive;

    /// Data to be sent from the module.
    type Send: Copy;

    /// The name of the module.
    spec fn named() -> Seq<char>;

    /// The configuration that every module has.
    spec fn base_config(&self) -> BaseModuleConfig;

    /// What `controllers` answers on a given host.
    spec fn starts(&self, host: RBar) -> Result<Controller, Error>;

    /// What `widget` builds on a given host.
    spec fn builds(&self, host: RBar) -> Result<ElementView, Error>;

    /// Name of the module.
    /// Can be used to identify the module and for styling purposes.
    fn name() -> (name: &'static str)
        ensures
            name@ == Self::named(),
            name@.len() > 0,
    ;

    /// Create controllers to handle certain events.
    ///
    /// Says whether the producer of the module can be started, and at which
    /// interval it then reads. An error keeps this module, and no other,
    /// out of the bar.
    fn controllers(&self, context: &WidgetContext<Self::Send>) -> (started: Result<
        Controller,
        Error,
    >)
        ensures
            started == self.starts(*context.rbar),
    ;

    /// Create the widget. Return the widget itself.
    ///
    /// The element shows a first value, and is subscribed to the updates of
    /// the module from now on.
    fn widget(&self, context: &mut WidgetContext<Self::Send>) -> (built: Result<Rendered, Error>)
        requires
            old(context).wf(),
        ensures
            final(context).wf(),
            final(context).rbar == old(context).rbar,
            match built {
                Ok(rendered) => {
                    &&& self.builds(*old(context).rbar) == Ok::<ElementView, Error>(
                        rendered.element@,
                    )
                    &&& rendered.receiver == old(context)@.updates.cursors.len()
                    &&& final(context)@ == old(context)@.subscribe()
                },
                Err(error) => {
                    &&& self.builds(*old(context).rbar) == Err::<ElementView, Error>(error)
                    &&& final(context)@ == old(context)@
                },
            },
    ;

    /// Get module configuration.
    fn get_base_config(&self) -> (config: &BaseModuleConfig)
        ensures
            *config == self.base_config(),
    ;

    fn is_enabled(&self) -> (enabled: bool)
        ensures
            enabled == self.base_config().enabled,
    {
        self.get_base_config().enabled
    }

    fn get_position(&self) -> (position: &ModulePosition)
        ensures
            *position == self.base_config().position,
    {
        &self.get_base_config().position
    }
}

/// `Arc::clone`: another handle to the same value.
#[verifier::external_body]
pub(crate) fn share<T>(host: &Arc<T>) -> (shared: Arc<T>)
    ensures
        shared == *host,
{
    Arc::clone(host)
}

/// One module of the bar, once it is registered.
pub struct Instance<S> {
    /// The pipeline of the module.
    pub context: WidgetContext<S>,
    /// The task that produces its values.
    pub controller: Controller,
    /// The number under which its element is subscribed to its updates.
    pub receiver: usize,
    /// The slot in which its element stands.
    pub position: ModulePosition,
    /// The place of its element in that slot.
    pub index: usize,
}

/// The number of events that a mailbox holds at most.
pub const MAILBOX_CAPACITY: usize = 32;

/// The number of latest values that a broadcast channel keeps.
pub const UPDATES_CAPACITY: usize = 32;

/// An element as the bar shows it: named after its module, with the class
/// of all module elements and the class of its module.
pub open spec fn tagged(element: ElementView, name: Seq<char>) -> ElementView {
    ElementView { name, classes: element.classes.insert("widget"@).insert(name), ..element }
}

/// What registering a module comes to on a given host: the task to start
/// and the element to place, or what keeps the module out. A module that
/// its configuration turns off is kept out before anything of it is
/// started or built.
pub open spec fn registered<M: Module>(module: M, host: RBar) -> Result<
    (Controller, ElementView),
    Error,
> {
    if !module.base_config().enabled {
        Err(Error::Disabled)
    } else {
        match module.starts(host) {
            Err(error) => Err(error),
            Ok(controller) => match module.builds(host) {
                Err(error) => Err(error),
                Ok(element) => Ok((controller, tagged(element, M::named()))),
            },
        }
    }
}

/// [ModuleFactory] is creating instances of modules.
pub struct ModuleFactory {
    rbar: Arc<RBar>,
}

impl ModuleFactory {
    /// The host for which the factory creates modules.
    pub closed spec fn host(&self) -> RBar {
        *self.rbar
    }

    /// Create a new [ModuleFactory].
    pub fn new(rbar: Arc<RBar>) -> (factory: ModuleFactory)
        ensures
            factory.host() == *rbar,
    {
        ModuleFactory { rbar }
    }

    /// Create a widget and adds it to the container.
    ///
    /// Every call uses up the next number. A module that is enabled gets a
    /// pipeline of its own; if its producer can be started and its element
    /// built, the element is placed in the slot that the module names,
    /// behind what stands there. If not, or if the module is disabled,
    /// nothing of it is kept and the bar stays as it is.
    pub fn create<M: Module>(&self, module: &M, bar: &mut Bar, ids: &mut IdSource) -> (created:
        Result<Instance<M::Send>, Error>)
        ensures
            final(ids)@ == following(old(ids)@),
            final(bar).rbar == old(bar).rbar,
            match created {
                Ok(instance) => {
                    &&& registered(*module, self.host()) matches Ok((controller, element))
                    &&& instance.controller == controller
                    &&& instance.position == module.base_config().position
                    &&& instance.index == old(bar)@.slot(instance.position).len()
                    &&& final(bar)@ == old(bar)@.place(instance.position, element)
                    &&& instance.context.wf()
                    &&& *instance.context.rbar == self.host()
                    &&& instance.receiver == 0
                    &&& instance.context@ == ContextView::<M::Send>::fresh(
                        old(ids)@,
                        MAILBOX_CAPACITY as nat,
                        UPDATES_CAPACITY as nat,
                    ).subscribe()
                },
                Err(error) => {
                    &&& registered(*module, self.host()) == Err::<(Controller, ElementView), Error>(
                        error,
                    )
                    &&& final(bar)@ == old(bar)@
                },
            },
    {
        let id = RBar::unique_id(ids);

        if !module.is_enabled() {
            return Err(Error::Disabled);
        }

        let mut context = WidgetContext {
            id,
            rbar: share(&self.rbar),
            tx: Mailbox::new(MAILBOX_CAPACITY),
            update_tx: Broadcast::new(UPDATES_CAPACITY),
        };

        // Create controllers.
        let controller = match module.controllers(&context) {
            Ok(controller) => controller,
            Err(error) => {
                return Err(error);
            },
        };

        // Get container.
        let position = *module.get_position();

        // Create widget.
        let Rendered { element, receiver } = match module.widget(&mut context) {
            Ok(rendered) => rendered,
            Err(error) => {
                return Err(error);
            },
        };
        let mut widget = element;
        widget.set_widget_name(M::name());
        widget.add_css_class("widget");
        widget.add_css_class(M::name());

        // Append widget to container.
        let index = bar.append(position, widget);

        // Setup receiver for module updates (and other events).
        let _ = self.setup_receiver(&mut context);

        Ok(Instance { context, controller, receiver, position, index })
    }

    /// Runs the relay of `context` until the mailbox is empty, and says
    /// whether the relay is still there: it ends when the producer is gone.
    pub fn setup_receiver<S: Copy>(&self, context: &mut WidgetContext<S>) -> (flow: Flow)
        requires
            old(context).wf(),
        ensures
            final(context).wf(),
            final(context)@ == old(context)@.drained(),
            final(context).rbar == old(context).rbar,
            flow == if old(context)@.mailbox.sending {
                Flow::Continue
            } else {
                Flow::Stop
            },
    {
        loop
            invariant
                context.wf(),
                context.rbar == old(context).rbar,
                context@.drained() == old(context)@.drained(),
                context@.mailbox.sending == old(context)@.mailbox.sending,
            decreases context@.mailbox.queue.len(),
        {
            match context.relay() {
                Relayed::Idle => {
                    return Flow::Continue;
                },
                Relayed::Stopped => {
                    return Flow::Stop;
                },
                _ => {},
            }
        }
    }
}

/// The modules that a configuration can name, each with its own
/// configuration.
pub enum Modules {
    Clock(clock::Clock),
    Battery(battery::Battery),
    Power(power::Power),
}

/// A registered module of one of the kinds.
pub enum Registered {
    Clock(Instance<clock::Timestamp>),
    Battery(Instance<battery::Tick>),
    Power(Instance<Reading>),
}

impl Registered {
    /// The task that produces the values of the module.
    pub open spec fn controller(self) -> Controller {
        match self {
            Registered::Clock(instance) => instance.controller,
            Registered::Battery(instance) => instance.controller,
            Registered::Power(instance) => instance.controller,
        }
    }

    /// The number of the module.
    pub open spec fn id(self) -> nat {
        match self {
            Registered::Clock(instance) => instance.context@.id,
            Registered::Battery(instance) => instance.context@.id,
            Registered::Power(instance) => instance.context@.id,
        }
    }

    /// The slot of the module's element and its place there.
    pub open spec fn place(self) -> (ModulePosition, nat) {
        match self {
            Registered::Clock(instance) => (instance.position, instance.index as nat),
            Registered::Battery(instance) => (instance.position, instance.index as nat),
            Registered::Power(instance) => (instance.position, instance.index as nat),
        }
    }

    /// Whether the registered module is of the kind of `module`.
    pub open spec fn kind_of(self, module: Modules) -> bool {
        match (module, self) {
            (Modules::Clock(_), Registered::Clock(_)) => true,
            (Modules::Battery(_), Registered::Battery(_)) => true,
            (Modules::Power(_), Registered::Power(_)) => true,
            _ => false,
        }
    }

    /// The pipeline of the module is well formed, has no value in it yet,
    /// and has the module's element as its one subscriber.
    pub open spec fn ready(self) -> bool {
        match self {
            Registered::Clock(instance) => instance.context.wf() && instance.receiver == 0
                && instance.context@ == ContextView::<clock::Timestamp>::fresh(
                instance.context@.id,
                MAILBOX_CAPACITY as nat,
                UPDATES_CAPACITY as nat,
            ).subscribe(),
            Registered::Battery(instance) => instance.context.wf() && instance.receiver == 0
                && instance.context@ == ContextView::<battery::Tick>::fresh(
                instance.context@.id,
                MAILBOX_CAPACITY as nat,
                UPDATES_CAPACITY as nat,
            ).subscribe(),
            Registered::Power(instance) => instance.context.wf() && instance.receiver == 0
                && instance.context@ == ContextView::<Reading>::fresh(
                instance.context@.id,
                MAILBOX_CAPACITY as nat,
                UPDATES_CAPACITY as nat,
            ).subscribe(),
        }
    }
}

impl Modules {
    /// Whether the configuration leaves the module on.
    pub open spec fn enabled(self) -> bool {
        match self {
            Modules::Clock(module) => module.base_config().enabled,
            Modules::Battery(module) => module.base_config().enabled,
            Modules::Power(module) => module.base_config().enabled,
        }
    }

    /// The slot that the module names.
    pub open spec fn position(self) -> ModulePosition {
        match self {
            Modules::Clock(module) => module.base_config().position,
            Modules::Battery(module) => module.base_config().position,
            Modules::Power(module) => module.base_config().position,
        }
    }

    /// What registering the module comes to on a given host.
    pub open spec fn outcome(self, host: RBar) -> Result<(Controller, ElementView), Error> {
        match self {
            Modules::Clock(module) => registered(module, host),
            Modules::Battery(module) => registered(module, host),
            Modules::Power(module) => registered(module, host),
        }
    }

    /// The bar after the module was registered on a given host: with the
    /// module's element in its slot, or as it was.
    pub open spec fn placed(self, bar: BarView, host: RBar) -> BarView {
        match self.outcome(host) {
            Ok((_, element)) => bar.place(self.position(), element),
            Err(_) => bar,
        }
    }

    /// Registers the module with the factory of its kind.
    pub fn create(&self, module_factory: &ModuleFactory, bar: &mut Bar, ids: &mut IdSource) -> (created:
        Result<Registered, Error>)
        ensures
            final(ids)@ == following(old(ids)@),
            final(bar).rbar == old(bar).rbar,
            final(bar)@ == self.placed(old(bar)@, module_factory.host()),
            match created {
                Ok(module) => {
                    &&& self.outcome(module_factory.host()) matches Ok((controller, _))
                    &&& module.kind_of(*self)
                    &&& module.controller() == controller
                    &&& module.id() == old(ids)@
                    &&& module.place() == (
                        self.position(),
                        old(bar)@.slot(self.position()).len(),
                    )
                    &&& module.ready()
                },
                Err(error) => self.outcome(module_factory.host()) == Err::<
                    (Controller, ElementView),
                    Error,
                >(error),
            },
    {
        match self {
            Modules::Clock(module) => match module_factory.create(module, bar, ids) {
                Ok(instance) => Ok(Registered::Clock(instance)),
                Err(error) => Err(error),
            },
            Modules::Battery(module) => match module_factory.create(module, bar, ids) {
                Ok(instance) => Ok(Registered::Battery(instance)),
                Err(error) => Err(error),
            },
            Modules::Power(module) => match module_factory.create(module, bar, ids) {
                Ok(instance) => Ok(Registered::Power(instance)),
                Err(error) => Err(error),
            },
        }
    }
}

} // verus!
