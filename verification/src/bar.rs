//! The bar: three slots in which the elements of the modules stand.

use vstd::prelude::*;
use std::sync::Arc;
use crate::element::{Element, ElementView};
use crate::modules::{share, Error, ModuleFactory, ModulePosition, Modules, Registered};
use crate::rbar::{IdSource, RBar, following};

verus! {

/// The elements of `elements` as mathematical values.
pub open spec fn views(elements: Seq<Element>) -> Seq<ElementView> {
    elements.map_values(|element: Element| element@)
}

/// A bar as a mathematical value: the elements of its slots, in the order in
/// which they were placed.
pub struct BarView {
    pub left: Seq<ElementView>,
    pub center: Seq<ElementView>,
    pub right: Seq<ElementView>,
    pub visible: bool,
}

impl BarView {
    /// The elements of the slot at `position`.
    pub open spec fn slot(self, position: ModulePosition) -> Seq<ElementView> {
        match position {
            ModulePosition::Left => self.left,
            ModulePosition::Center => self.center,
            ModulePosition::Right => self.right,
        }
    }

    /// The bar with `element` placed behind the elements of the slot at
    /// `position`.
    pub open spec fn place(self, position: ModulePosition, element: ElementView) -> BarView {
        match position {
            ModulePosition::Left => BarView { left: self.left.push(element), ..self },
            ModulePosition::Center => BarView { center: self.center.push(element), ..self },
            ModulePosition::Right => BarView { right: self.right.push(element), ..self },
        }
    }
}

/// The bar after `modules` were registered on `host`, one after the other.
/// A module that cannot be registered leaves the bar as it is, and the
/// modules after it are registered all the same.
pub open spec fn loaded(bar: BarView, modules: Seq<Modules>, host: RBar) -> BarView
    decreases modules.len(),
{
    if modules.len() == 0 {
        bar
    } else {
        modules.last().placed(loaded(bar, modules.drop_last(), host), host)
    }
}

/// The number that is handed out next after `count` numbers from `id` on.
pub open spec fn advanced(id: nat, count: nat) -> nat
    decreases count,
{
    if count == 0 {
        id
    } else {
        following(advanced(id, (count - 1) as nat))
    }
}

/// What registering the module at place `at` of `modules` gave, when the
/// first of them got the number `first`.
pub open spec fn answers(
    created: Result<Registered, Error>,
    modules: Seq<Modules>,
    at: int,
    host: RBar,
    first: nat,
) -> bool {
    match created {
        Ok(module) => {
            &&& modules[at].outcome(host) matches Ok((controller, _))
            &&& module.controller() == controller
            &&& module.id() == advanced(first, at as nat)
            &&& module.place().0 == modules[at].position()
            &&& module.ready()
        },
        Err(error) => modules[at].outcome(host) == Err::<
            (crate::modules::Controller, ElementView),
            Error,
        >(error),
    }
}

/// A bar with what registering its modules gave, in the order of the
/// configuration.
pub struct Loaded {
    pub bar: Bar,
    pub modules: Vec<Result<Registered, Error>>,
}

/// One bar of the screen.
pub struct Bar {
    pub name: &'static str,
    pub left: Vec<Element>,
    pub center: Vec<Element>,
    pub right: Vec<Element>,
    pub rbar: Arc<RBar>,
    pub visible: bool,
}

impl View for Bar {
    type V = BarView;

    open spec fn view(&self) -> BarView {
        BarView {
            left: views(self.left@),
            center: views(self.center@),
            right: views(self.right@),
            visible: self.visible,
        }
    }
}

impl Bar {
    /// A bar without elements that is not shown yet.
    pub fn new(rbar: Arc<RBar>) -> (bar: Bar)
        ensures
            bar@ == (BarView {
                left: Seq::empty(),
                center: Seq::empty(),
                right: Seq::empty(),
                visible: false,
            }),
            bar.rbar == rbar,
            bar.name@ == "rbar"@,
    {
        let bar = Bar {
            name: "rbar",
            left: Vec::new(),
            center: Vec::new(),
            right: Vec::new(),
            rbar,
            visible: false,
        };
        assert(views(bar.left@) =~= Seq::<ElementView>::empty());
        assert(views(bar.center@) =~= Seq::<ElementView>::empty());
        assert(views(bar.right@) =~= Seq::<ElementView>::empty());
        bar
    }

    /// Places `element` behind the elements of the slot at `position` and
    /// returns its place in that slot.
    pub fn append(&mut self, position: ModulePosition, element: Element) -> (index: usize)
        ensures
            final(self)@ == old(self)@.place(position, element@),
            index == old(self)@.slot(position).len(),
            final(self).rbar == old(self).rbar,
    {
        let ghost placed = element@;
        match position {
            ModulePosition::Left => {
                let index = self.left.len();
                self.left.push(element);
                assert(views(self.left@) =~= views(old(self).left@).push(placed));
                index
            },
            ModulePosition::Center => {
                let index = self.center.len();
                self.center.push(element);
                assert(views(self.center@) =~= views(old(self).center@).push(placed));
                index
            },
            ModulePosition::Right => {
                let index = self.right.len();
                self.right.push(element);
                assert(views(self.right@) =~= views(old(self).right@).push(placed));
                index
            },
        }
    }

    /// Create a new bar.
    pub fn create(rbar: Arc<RBar>, ids: &mut IdSource) -> (loaded: Loaded)
        ensures
            loaded.bar.rbar == rbar,
            loaded.bar@ == (BarView {
                visible: true,
                ..self::loaded(
                    BarView {
                        left: Seq::empty(),
                        center: Seq::empty(),
                        right: Seq::empty(),
                        visible: false,
                    },
                    rbar.config.bar.modules@,
                    *rbar,
                )
            }),
            final(ids)@ == advanced(old(ids)@, rbar.config.bar.modules@.len()),
            loaded.modules@.len() == rbar.config.bar.modules@.len(),
            forall|at: int|
                0 <= at < loaded.modules@.len() ==> answers(
                    #[trigger] loaded.modules@[at],
                    rbar.config.bar.modules@,
                    at,
                    *rbar,
                    old(ids)@,
                ),
    {
        let bar = Bar::new(rbar);
        bar.init(ids)
    }

    /// Registers the modules of the configuration and shows the bar.
    pub fn init(self, ids: &mut IdSource) -> (loaded: Loaded)
        ensures
            loaded.bar.rbar == self.rbar,
            loaded.bar@ == (BarView {
                visible: true,
                ..self::loaded(self@, self.rbar.config.bar.modules@, *self.rbar)
            }),
            final(ids)@ == advanced(old(ids)@, self.rbar.config.bar.modules@.len()),
            loaded.modules@.len() == self.rbar.config.bar.modules@.len(),
            forall|at: int|
                0 <= at < loaded.modules@.len() ==> answers(
                    #[trigger] loaded.modules@[at],
                    self.rbar.config.bar.modules@,
                    at,
                    *self.rbar,
                    old(ids)@,
                ),
    {
        let mut bar = self;
        let modules = bar.load_modules(ids);

        bar.show();

        Loaded { bar, modules }
    }

    /// Registers the modules of the configuration, in their order. A module
    /// that cannot be registered has its error in its place and keeps none
    /// of the others out.
    pub fn load_modules(&mut self, ids: &mut IdSource) -> (created: Vec<Result<Registered, Error>>)
        ensures
            final(self).rbar == old(self).rbar,
            final(self)@ == loaded(old(self)@, old(self).rbar.config.bar.modules@, *old(self).rbar),
            final(ids)@ == advanced(old(ids)@, old(self).rbar.config.bar.modules@.len()),
            created@.len() == old(self).rbar.config.bar.modules@.len(),
            forall|at: int|
                0 <= at < created@.len() ==> answers(
                    #[trigger] created@[at],
                    old(self).rbar.config.bar.modules@,
                    at,
                    *old(self).rbar,
                    old(ids)@,
                ),
    {
        let factory = ModuleFactory::new(share(&self.rbar));
        let host = share(&self.rbar);
        let mut created: Vec<Result<Registered, Error>> = Vec::new();

        let mut i: usize = 0;
        assert(host.config.bar.modules@.take(0) =~= Seq::<Modules>::empty());
        while i < host.config.bar.modules.len()
            invariant
                i <= host.config.bar.modules@.len(),
                host == old(self).rbar,
                self.rbar == old(self).rbar,
                factory.host() == *host,
                self@ == loaded(old(self)@, host.config.bar.modules@.take(i as int), *host),
                ids@ == advanced(old(ids)@, i as nat),
                created@.len() == i,
                forall|at: int|
                    0 <= at < i ==> answers(
                        #[trigger] created@[at],
                        host.config.bar.modules@,
                        at,
                        *host,
                        old(ids)@,
                    ),
            decreases host.config.bar.modules@.len() - i,
        {
            let module = &host.config.bar.modules[i];
            proof {
                let upto = host.config.bar.modules@.take(i + 1);
                assert(upto.drop_last() =~= host.config.bar.modules@.take(i as int));
                assert(upto.last() == *module);
            }
            let outcome = module.create(&factory, self, ids);
            created.push(outcome);
            i = i + 1;
        }
        assert(host.config.bar.modules@.take(i as int) =~= host.config.bar.modules@);

        created
    }

    fn show(&mut self)
        ensures
            final(self)@ == (BarView { visible: true, ..old(self)@ }),
            final(self).rbar == old(self).rbar,
    {
        self.visible = true;
    }
}

/// Numbers that are handed out in two runs are the numbers of one run of
/// both lengths.
pub proof fn lemma_advanced_twice(id: nat, first: nat, second: nat)
    ensures
        advanced(advanced(id, first), second) == advanced(id, first + second),
    decreases second,
{
    if second > 0 {
        lemma_advanced_twice(id, first, (second - 1) as nat);
        assert((first + second - 1) as nat == first + (second - 1) as nat);
    }
}

/// A bar that has nothing in its slots and is not shown.
pub open spec fn blank() -> BarView {
    BarView { left: Seq::empty(), center: Seq::empty(), right: Seq::empty(), visible: false }
}

/// Creates one bar for each of `monitors` monitors. Every bar registers the
/// modules of the configuration anew, so that each has instances of its
/// own, with numbers of their own.
pub fn load_bars(rbar: Arc<RBar>, monitors: usize, ids: &mut IdSource) -> (bars: Vec<Loaded>)
    ensures
        bars@.len() == monitors,
        final(ids)@ == advanced(old(ids)@, monitors as nat * rbar.config.bar.modules@.len()),
        forall|monitor: int|
            0 <= monitor < monitors ==> {
                let bar = #[trigger] bars@[monitor];
                &&& bar.bar.rbar == rbar
                &&& bar.bar@ == (BarView {
                    visible: true,
                    ..loaded(blank(), rbar.config.bar.modules@, *rbar)
                })
                &&& bar.modules@.len() == rbar.config.bar.modules@.len()
                &&& forall|at: int|
                    0 <= at < bar.modules@.len() ==> answers(
                        #[trigger] bar.modules@[at],
                        rbar.config.bar.modules@,
                        at,
                        *rbar,
                        advanced(old(ids)@, monitor as nat * rbar.config.bar.modules@.len()),
                    )
            },
{
    let mut bars: Vec<Loaded> = Vec::new();
    let ghost each = rbar.config.bar.modules@.len();
    let mut i: usize = 0;
    assert(0 * each == 0) by (nonlinear_arith);
    while i < monitors
        invariant
            i <= monitors,
            each == rbar.config.bar.modules@.len(),
            bars@.len() == i,
            ids@ == advanced(old(ids)@, i as nat * each),
            forall|monitor: int|
                0 <= monitor < i ==> {
                    let bar = #[trigger] bars@[monitor];
                    &&& bar.bar.rbar == rbar
                    &&& bar.bar@ == (BarView {
                        visible: true,
                        ..loaded(blank(), rbar.config.bar.modules@, *rbar)
                    })
                    &&& bar.modules@.len() == each
                    &&& forall|at: int|
                        0 <= at < bar.modules@.len() ==> answers(
                            #[trigger] bar.modules@[at],
                            rbar.config.bar.modules@,
                            at,
                            *rbar,
                            advanced(old(ids)@, monitor as nat * each),
                        )
                },
        decreases monitors - i,
    {
        proof {
            lemma_advanced_twice(old(ids)@, i as nat * each, each);
            assert(i as nat * each + each == (i + 1) as nat * each) by (nonlinear_arith);
        }
        let bar = Bar::create(share(&rbar), ids);
        bars.push(bar);
        i = i + 1;
    }
    bars
}

} // verus!
