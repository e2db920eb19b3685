use samvival::compound::{Button, TabWidget};
use samvival::gui::GUI;
use samvival::widgets::{Alignment, BorderSides, Positioning, Sizing, Wid, Widget, WidgetCallbackRef, WidgetType};

fn titles(ts: &[&str]) -> Vec<String> {
    ts.iter().map(|t| String::from(*t)).collect()
}

fn archetype() -> Button {
    Button {
        body: Widget::new(WidgetType::window()),
        text: Widget::new(WidgetType::text(String::new(), 24)),
    }
}

#[test]
fn new_tab_widget_has_a_tab_and_button_per_title() {
    let tw = TabWidget::new(titles(&["map", "gear", "skills"]), 5, &archetype());
    assert_eq!(tw.tab_titles, titles(&["map", "gear", "skills"]));
    assert_eq!(tw.tabs.len(), 3);
    assert_eq!(tw.tab_buttons.len(), 3);
    assert!(tw.to_remove.is_empty());
    assert_eq!(tw.body.callbacks, vec![WidgetCallbackRef::new(5, false)]);
    assert_eq!(tw.body.border.width, 2);
    // only the first tab shows
    assert!(tw.tabs[0].showing);
    assert!(!tw.tabs[1].showing && !tw.tabs[2].showing);
    assert_eq!(tw.tabs[1].size, [Sizing::PcntOfParent, Sizing::DeltaOfParent]);
    // buttons sit in the bar, the first without border sides
    assert_eq!(tw.tab_buttons[0].body.border.sides, BorderSides::none());
    assert_eq!(tw.tab_buttons[1].body.border.sides, BorderSides::two_sides(Alignment::Left, Alignment::Bottom));
    assert_eq!(tw.tab_buttons[2].body.border.width, 1);
    assert_eq!(tw.tab_buttons[1].body.position, [Positioning::PcntOfParent, Positioning::Constant]);
    assert_eq!(tw.tab_buttons[1].body.size, [Sizing::PcntOfParent, Sizing::Constant]);
    assert_eq!(tw.tab_buttons[2].text.position, [Positioning::CenteredInParent, Positioning::CenteredInParent]);
    assert!(tw.tab_buttons[1].text.widget_type.same_as(&WidgetType::text(String::from("gear"), 24)));
}

#[test]
fn fewer_titles_queue_the_extra_widgets() {
    let mut gui = GUI::new();
    let mut tw = TabWidget::new(titles(&["a", "b", "c"]), 1, &archetype());
    tw.reapply_all(&mut gui);
    let b2 = tw.tab_buttons[2].body.id();
    let b1 = tw.tab_buttons[1].body.id();
    let t2 = tw.tabs[2].id();
    let t1 = tw.tabs[1].id();
    tw.set_tabs(titles(&["x"]), &archetype());
    assert_eq!(tw.tab_buttons.len(), 1);
    assert_eq!(tw.tabs.len(), 1);
    assert_eq!(tw.to_remove, vec![b2, b1, t2, t1]);
    assert!(tw.tab_buttons[0].text.widget_type.same_as(&WidgetType::text(String::from("x"), 24)));
    tw.reapply_all(&mut gui);
    assert!(!gui.contains(b1) && !gui.contains(t2));
    assert!(tw.to_remove.is_empty());
}

#[test]
fn same_count_only_renames() {
    let mut tw = TabWidget::new(titles(&["a", "b"]), 1, &archetype());
    let before = tw.tab_buttons[1].body.duplicate();
    tw.set_tabs(titles(&["c", "d"]), &archetype());
    assert!(tw.to_remove.is_empty());
    assert!(tw.tab_buttons[1].body.same_as(&before));
    assert!(tw.tab_buttons[1].text.widget_type.same_as(&WidgetType::text(String::from("d"), 24)));
    assert_eq!(tw.tab_titles, titles(&["c", "d"]));
    assert_eq!(tw.tab_buttons[0].body.id(), Wid(0));
}
