use rbar::element::{ClassList, Element, Label, Shape};

fn sorted(list: &ClassList) -> Vec<String> {
    let mut names = list.names().clone();
    names.sort();
    names
}

#[test]
fn class_list_starts_empty() {
    let list = ClassList::new();
    assert!(list.names().is_empty());
    assert!(!list.contains("widget"));
}

#[test]
fn class_list_holds_each_name_once() {
    let mut list = ClassList::new();
    list.add("widget");
    list.add("clock");
    list.add("widget");
    assert_eq!(sorted(&list), vec!["clock", "widget"]);
    assert!(list.contains("widget"));
    assert!(list.contains("clock"));
    assert!(!list.contains("wid"));
    assert!(!list.contains("Widget"));
}

#[test]
fn class_list_removes_a_name() {
    let mut list = ClassList::new();
    list.add("a");
    list.add("b");
    list.add("c");
    list.remove("b");
    assert_eq!(sorted(&list), vec!["a", "c"]);
    list.remove("b");
    assert_eq!(sorted(&list), vec!["a", "c"]);
    list.remove("c");
    list.remove("a");
    assert!(list.names().is_empty());
}

#[test]
fn label_shows_its_text() {
    let mut label = Label::new("12:00");
    assert_eq!(label.text, "12:00");
    assert!(label.classes.names().is_empty());
    label.add_css_class("label");
    label.set_label("12:01".to_string());
    assert_eq!(label.text, "12:01");
    assert!(label.classes.contains("label"));
}

#[test]
fn button_has_a_label_and_no_icon() {
    let button = Element::button(Label::new("now"));
    assert_eq!(button.shape, Shape::Button);
    assert!(button.icon.is_none());
    assert_eq!(button.label.text, "now");
    assert_eq!(button.name, "");
    assert!(!button.visible);
}

#[test]
fn row_has_an_icon_and_a_label() {
    let mut row = Element::row(Label::new("i"), Label::new("l"));
    assert_eq!(row.shape, Shape::Row);
    assert_eq!(row.icon.as_ref().map(|icon| icon.text.as_str()), Some("i"));
    assert_eq!(row.label.text, "l");
    assert!(!row.visible);
    row.show();
    assert!(row.visible);
}

#[test]
fn element_takes_name_and_classes() {
    let mut element = Element::button(Label::new(""));
    element.set_widget_name("clock");
    element.add_css_class("widget");
    element.add_css_class("clock");
    assert_eq!(element.name, "clock");
    assert_eq!(sorted(&element.classes), vec!["clock", "widget"]);
    element.remove_css_class("widget");
    assert_eq!(sorted(&element.classes), vec!["clock"]);
    assert_eq!(element.label.text, "");
}
