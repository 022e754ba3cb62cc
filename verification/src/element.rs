//! Display elements as plain values: what an element shows, kept apart from
//! the toolkit that draws it.

use vstd::prelude::*;
use vstd::string::*;
use crate::text::same_text;

verus! {

/// The style classes of an element: a set of names.
pub struct ClassList {
    names: Vec<String>,
}

/// The set of the texts of `names`.
pub open spec fn texts(names: Seq<String>) -> Set<Seq<char>> {
    Set::new(|name: Seq<char>| exists|i: int| 0 <= i < names.len() && names[i]@ == name)
}

impl ClassList {
    /// The names in the list.
    pub closed spec fn view(&self) -> Set<Seq<char>> {
        texts(self.names@)
    }

    /// The list without any name.
    pub fn new() -> (list: ClassList)
        ensures
            list@ == Set::<Seq<char>>::empty(),
    {
        let list = ClassList { names: Vec::new() };
        assert(list@ =~= Set::<Seq<char>>::empty());
        list
    }

    /// Whether `name` is in the list.
    pub fn contains(&self, name: &str) -> (found: bool)
        ensures
            found == self@.contains(name@),
    {
        let mut i: usize = 0;
        while i < self.names.len()
            invariant
                i <= self.names.len(),
                forall|k: int| 0 <= k < i ==> self.names[k]@ != name@,
            decreases self.names.len() - i,
        {
            if same_text(self.names[i].as_str(), name) {
                assert(self.names[i as int]@ == name@);
                return true;
            }
            i = i + 1;
        }
        false
    }

    /// Puts `name` into the list; a name that is there already stays once.
    pub fn add(&mut self, name: &str)
        ensures
            final(self)@ == old(self)@.insert(name@),
    {
        if !self.contains(name) {
            let ghost before = self.names@;
            self.names.push(String::from_str(name));
            proof {
                assert forall|n: Seq<char>| self@.contains(n) == old(self)@.insert(name@).contains(
                    n,
                ) by {
                    if old(self)@.contains(n) {
                        let k = choose|k: int| 0 <= k < before.len() && before[k]@ == n;
                        assert(self.names[k]@ == n);
                    }
                    if n == name@ {
                        assert(self.names[before.len() as int]@ == n);
                    }
                }
                assert(self@ =~= old(self)@.insert(name@));
            }
        } else {
            assert(old(self)@.insert(name@) =~= old(self)@);
        }
    }

    /// Takes `name` out of the list, if it is there.
    pub fn remove(&mut self, name: &str)
        ensures
            final(self)@ == old(self)@.remove(name@),
    {
        let mut i: usize = self.names.len();
        while i > 0
            invariant
                i <= self.names.len(),
                forall|k: int| i <= k < self.names.len() ==> self.names[k]@ != name@,
                forall|n: Seq<char>| n != name@ ==> (self@.contains(n) <==> old(self)@.contains(n)),
            decreases i,
        {
            i = i - 1;
            if same_text(self.names[i].as_str(), name) {
                let ghost before = self.names@;
                let _ = self.names.remove(i);
                proof {
                    assert(self.names@ == before.remove(i as int));
                    assert forall|n: Seq<char>| n != name@ implies (texts(self.names@).contains(n)
                        <==> texts(before).contains(n)) by {
                        if texts(self.names@).contains(n) {
                            let k = choose|k: int| 0 <= k < self.names.len() && self.names[k]@ == n;
                            let origin = if k < i {
                                k
                            } else {
                                k + 1
                            };
                            assert(before[origin]@ == n);
                        }
                        if texts(before).contains(n) {
                            let k = choose|k: int| 0 <= k < before.len() && before[k]@ == n;
                            let target = if k < i {
                                k
                            } else {
                                k - 1
                            };
                            assert(self.names[target]@ == n);
                        }
                    }
                }
            }
        }
        assert(self@ =~= old(self)@.remove(name@));
    }

    /// The names of the list.
    pub fn names(&self) -> (names: &Vec<String>)
        ensures
            texts(names@) == self@,
    {
        &self.names
    }
}

/// A label as a mathematical value.
pub struct LabelView {
    pub classes: Set<Seq<char>>,
    pub text: Seq<char>,
}

/// A piece of text with style classes.
pub struct Label {
    pub classes: ClassList,
    pub text: String,
}

impl View for Label {
    type V = LabelView;

    open spec fn view(&self) -> LabelView {
        LabelView { classes: self.classes@, text: self.text@ }
    }
}

impl Label {
    /// A label that shows `text` and has no class.
    pub fn new(text: &str) -> (label: Label)
        ensures
            label@ == (LabelView { classes: Set::empty(), text: text@ }),
    {
        Label { classes: ClassList::new(), text: String::from_str(text) }
    }

    /// Replaces the text; the classes stay.
    pub fn set_label(&mut self, text: String)
        ensures
            final(self)@ == (LabelView { text: text@, ..old(self)@ }),
    {
        self.text = text;
    }

    /// Adds a style class; the text stays.
    pub fn add_css_class(&mut self, name: &str)
        ensures
            final(self)@ == (LabelView { classes: old(self)@.classes.insert(name@), ..old(self)@ }),
    {
        self.classes.add(name);
    }
}

/// How an element lays out what it shows.
#[derive(Clone, Copy, Debug, PartialEq, Eq, Structural)]
pub enum Shape {
    /// A button around its label.
    Button,
    /// An icon and a label side by side.
    Row,
}

/// An element as a mathematical value.
pub struct ElementView {
    pub shape: Shape,
    pub name: Seq<char>,
    pub classes: Set<Seq<char>>,
    pub icon: Option<LabelView>,
    pub label: LabelView,
    pub visible: bool,
}

/// One display element of the bar.
pub struct Element {
    pub shape: Shape,
    /// The name by which style sheets address the element.
    pub name: String,
    pub classes: ClassList,
    /// The icon, where the shape has one.
    pub icon: Option<Label>,
    pub label: Label,
    pub visible: bool,
}

impl View for Element {
    type V = ElementView;

    open spec fn view(&self) -> ElementView {
        ElementView {
            shape: self.shape,
            name: self.name@,
            classes: self.classes@,
            icon: match self.icon {
                Some(icon) => Some(icon@),
                None => None,
            },
            label: self.label@,
            visible: self.visible,
        }
    }
}

impl Element {
    /// A button around `label`, not yet shown, without name or class.
    pub fn button(label: Label) -> (element: Element)
        ensures
            element@ == (ElementView {
                shape: Shape::Button,
                name: Seq::empty(),
                classes: Set::empty(),
                icon: None,
                label: label@,
                visible: false,
            }),
    {
        Element {
            shape: Shape::Button,
            name: String::new(),
            classes: ClassList::new(),
            icon: None,
            label,
            visible: false,
        }
    }

    /// A row of `icon` and `label`, not yet shown, without name or class.
    pub fn row(icon: Label, label: Label) -> (element: Element)
        ensures
            element@ == (ElementView {
                shape: Shape::Row,
                name: Seq::empty(),
                classes: Set::empty(),
                icon: Some(icon@),
                label: label@,
                visible: false,
            }),
    {
        Element {
            shape: Shape::Row,
            name: String::new(),
            classes: ClassList::new(),
            icon: Some(icon),
            label,
            visible: false,
        }
    }

    /// Makes the element visible.
    pub fn show(&mut self)
        ensures
            final(self)@ == (ElementView { visible: true, ..old(self)@ }),
    {
        self.visible = true;
    }

    /// Names the element for style sheets.
    pub fn set_widget_name(&mut self, name: &str)
        ensures
            final(self)@ == (ElementView { name: name@, ..old(self)@ }),
    {
        self.name = String::from_str(name);
    }

    /// Adds a style class to the element itself.
    pub fn add_css_class(&mut self, name: &str)
        ensures
            final(self)@ == (ElementView {
                classes: old(self)@.classes.insert(name@),
                ..old(self)@
            }),
    {
        self.classes.add(name);
    }

    /// Removes a style class from the element itself.
    pub fn remove_css_class(&mut self, name: &str)
        ensures
            final(self)@ == (ElementView {
                classes: old(self)@.classes.remove(name@),
                ..old(self)@
            }),
    {
        self.classes.remove(name);
    }
}

} // verus!
