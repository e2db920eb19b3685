use samvival::compound::Button;
use samvival::events::{Key, MouseButton, UIEvent, UIEventType, WidgetEvent, WidgetState};
use samvival::widgets::{
    create_wid, Alignment, BorderSides, EventConsumption, Positioning, Sizing, Wid, WidCounter, Widget,
    WidgetCallbackRef, WidgetType,
};

#[test]
fn border_sides_flags() {
    assert_eq!(BorderSides::all().0, 0xff);
    assert_eq!(BorderSides::none().0, 0);
    assert_eq!(BorderSides::one_side(Alignment::Left).0, 1);
    assert_eq!(BorderSides::one_side(Alignment::Right).0, 2);
    assert_eq!(BorderSides::one_side(Alignment::Top).0, 4);
    assert_eq!(BorderSides::one_side(Alignment::Bottom).0, 8);
    assert_eq!(BorderSides::two_sides(Alignment::Left, Alignment::Bottom).0, 9);
    assert_eq!(BorderSides::three_sides(Alignment::Left, Alignment::Right, Alignment::Top).0, 7);
    assert_eq!(BorderSides::alignment_to_flag(Alignment::Bottom), 8);
}

#[test]
fn border_sides_with_and_without() {
    let s = BorderSides::two_sides(Alignment::Left, Alignment::Bottom);
    let without = s.without_side(Alignment::Bottom);
    assert_eq!(without.0, 1);
    assert!(!without.has_side(Alignment::Bottom));
    assert!(without.has_side(Alignment::Left));
    let with = without.with_side(Alignment::Top);
    assert_eq!(with.0, 5);
    assert!(with.has_side(Alignment::Top));
    // adding a side that is there already changes nothing
    assert_eq!(with.with_side(Alignment::Top).0, 5);
    // removing a side that is not there changes nothing
    assert_eq!(with.without_side(Alignment::Right).0, 5);
}

#[test]
fn border_sides_by_axis() {
    let s = BorderSides::two_sides(Alignment::Left, Alignment::Bottom);
    assert!(s.has_near_side_for_axis(0));
    assert!(!s.has_far_side_for_axis(0));
    assert!(!s.has_near_side_for_axis(1));
    assert!(s.has_far_side_for_axis(1));
    assert!(!BorderSides::all().has_near_side_for_axis(2));
    assert!(!BorderSides::all().has_far_side_for_axis(5));
}

#[test]
fn callback_refs_round_trip() {
    let r = WidgetCallbackRef::inherent_callback(42);
    assert!(r.is_inherent());
    assert_eq!(r.id(), 42);
    assert_eq!(r.0, 42 | 0x8000_0000);
    let l = WidgetCallbackRef::listener_callback(42);
    assert!(!l.is_inherent());
    assert_eq!(l.id(), 42);
    assert_eq!(WidgetCallbackRef::new(7, true), WidgetCallbackRef::inherent_callback(7));
    assert_eq!(WidgetCallbackRef::new(7, false), WidgetCallbackRef::listener_callback(7));
    // the high bit of an identifier does not survive
    assert_eq!(WidgetCallbackRef::listener_callback(0x8000_0003).id(), 3);
}

#[test]
fn event_type_flags() {
    assert_eq!(UIEventType::mouse_press().bit_flag, 1);
    assert_eq!(UIEventType::mouse_release().bit_flag, 2);
    assert_eq!(UIEventType::key_press().bit_flag, 64);
    assert_eq!(UIEventType::widget_event().bit_flag, 1 << 14);
    assert_eq!(UIEventType::custom_event().bit_flag, 1 << 17);
    assert_eq!(UIEvent::MouseRelease { button: MouseButton::Right }.bit_flag(), 2);
    assert_eq!(UIEvent::Scroll.event_type(), UIEventType::new(32));
    assert_eq!(UIEventType::mouse_event_types().len(), 7);
    assert_eq!(UIEventType::key_events(), vec![UIEventType::new(64), UIEventType::new(128)]);
}

#[test]
fn consumption_rules() {
    let press = UIEvent::MousePress { button: MouseButton::Left };
    let key = UIEvent::KeyPress { key: Key::LCtrl };
    assert!(EventConsumption::all().consumes_event(&press));
    assert!(EventConsumption::all().consumes_event(&UIEvent::Resize));
    assert!(!EventConsumption::none().consumes_event(&press));
    assert!(EventConsumption::mouse_press_and_release().consumes_event(&press));
    assert!(!EventConsumption::mouse_press_and_release().consumes_event(&key));
    assert!(EventConsumption::mouse_events().consumes_event(&UIEvent::MouseMove));
    assert!(!EventConsumption::mouse_events().consumes_event(&UIEvent::MouseEntered { from_widget: None, to_widget: Wid(1) }));
    assert!(EventConsumption::enter_and_leave().consumes_event(&UIEvent::MouseExited { from_widget: Wid(1), to_widget: None }));
    let clicked = UIEvent::widget_event(WidgetEvent::ButtonClicked(Wid(3)), Wid(3));
    assert!(EventConsumption::widget_events().consumes_event(&clicked));

    let keys = EventConsumption::of_types(&UIEventType::key_events());
    assert!(keys.consumes_event(&key));
    assert!(keys.consumes_event(&UIEvent::KeyRelease { key: Key::Other(3) }));
    assert!(!keys.consumes_event(&press));

    let just_ctrl = EventConsumption::Key(Key::LCtrl);
    assert!(just_ctrl.consumes_event(&key));
    assert!(!just_ctrl.consumes_event(&UIEvent::KeyPress { key: Key::RCtrl }));

    let both = just_ctrl.and(&EventConsumption::mouse_press_and_release());
    assert!(both.consumes_event(&key));
    assert!(both.consumes_event(&press));
    assert!(!both.consumes_event(&UIEvent::Scroll));
    match EventConsumption::mouse_press_and_release().and(&EventConsumption::widget_events()) {
        EventConsumption::EventTypes(f) => assert_eq!(f, 1 | 2 | (1 << 14)),
        _ => panic!("two flag sets merge into one"),
    }
}

#[test]
fn retagging_events() {
    let e = UIEvent::widget_event(WidgetEvent::ButtonClicked(Wid(3)), Wid(3));
    match e.clone_with_most_recently_from_widget(Wid(9)) {
        UIEvent::WidgetEvent { originating_widget, most_recently_from_widget, event } => {
            assert_eq!(originating_widget, Wid(3));
            assert_eq!(most_recently_from_widget, Wid(9));
            assert_eq!(event, WidgetEvent::ButtonClicked(Wid(3)));
        }
        _ => panic!("a widget event stays a widget event"),
    }
    match (UIEvent::KeyPress { key: Key::LAlt }).clone_with_most_recently_from_widget(Wid(9)) {
        UIEvent::KeyPress { key } => assert_eq!(key, Key::LAlt),
        _ => panic!("other events are copied"),
    }
}

#[test]
fn identifiers_count_up() {
    let mut c = WidCounter::new();
    assert_eq!(create_wid(&mut c), Wid(1));
    assert_eq!(create_wid(&mut c), Wid(2));
    assert_eq!(c.last, 2);
}

#[test]
fn widget_defaults_and_copies() {
    let w = Widget::new(WidgetType::window());
    assert!(!w.has_id());
    assert_eq!(w.id(), Wid(0));
    assert_eq!(w.size, [Sizing::Constant, Sizing::Constant]);
    assert_eq!(w.alignment, [Alignment::Left, Alignment::Top]);
    assert!(w.showing);
    assert!(w.validate());
    let mut t = Widget::new(WidgetType::text(String::from("hello"), 12));
    t.set_id(Wid(5));
    let copy = t.duplicate();
    assert!(copy.same_as(&t));
    assert!(!copy.same_as(&w));
    t.clear_id();
    assert!(!t.has_id());
}

#[test]
fn widget_validation() {
    let mut w = Widget::new(WidgetType::window());
    w.accepts_focus = true;
    // taking focus without consuming the release that gives it is inconsistent
    assert!(!w.validate());
    w.event_consumption = EventConsumption::mouse_press_and_release();
    assert!(w.validate());
    w.alignment = [Alignment::Top, Alignment::Top];
    assert!(!w.validate());
}

#[test]
fn widget_alignment_swaps() {
    let mut w = Widget::new(WidgetType::window());
    w.set_alignment(Alignment::Bottom, Alignment::Right);
    assert_eq!(w.alignment, [Alignment::Right, Alignment::Bottom]);
    w.set_alignment(Alignment::Left, Alignment::Bottom);
    assert_eq!(w.alignment, [Alignment::Left, Alignment::Bottom]);
}

#[test]
fn widget_dependencies() {
    let mut other = Widget::new(WidgetType::window());
    other.set_id(Wid(4));
    let mut w = Widget::new(WidgetType::window());
    assert!(w.depends_on().is_empty());
    w.position = [Positioning::right_of(&other), Positioning::Constant];
    assert_eq!(w.depends_on(), vec![Wid(4)]);
    w.position = [Positioning::match_to(&other), Positioning::below(&other)];
    assert_eq!(w.depends_on(), vec![Wid(4), Wid(4)]);
    assert_eq!(Positioning::origin().depends_on(), None);
    assert!(!w.dependent_on_children());
    w.size = [Sizing::Constant, Sizing::SurroundChildren];
    assert!(w.dependent_on_children());
    assert!(Widget::parent_based_size(Sizing::PcntOfParent));
    assert!(!Widget::parent_based_size(Sizing::Derived));
}

#[test]
fn widget_callbacks_clear_listeners_only() {
    let mut w = Widget::new(WidgetType::window());
    w.add_callback(1, true);
    w.add_callback(2, false);
    w.add_callback(3, true);
    w.clear_callbacks();
    let ids: Vec<u32> = w.callbacks.iter().map(|c| c.id()).collect();
    assert_eq!(ids, vec![1, 3]);
}

#[test]
fn widget_state_equality() {
    let a = WidgetState::Tab { active_tab: Some(0), tabs: vec![Wid(1)], tab_buttons: vec![Wid(2)] };
    let b = a.duplicate();
    assert!(a.same_as(&b));
    assert!(!a.same_as(&WidgetState::NoState));
    assert!(WidgetState::Text { text: String::from("x") }.same_as(&WidgetState::Text { text: String::from("x") }));
    assert!(!WidgetState::Text { text: String::from("x") }.same_as(&WidgetState::Text { text: String::from("y") }));
    let mut t = WidgetType::text(String::from("a"), 10);
    t.set_text(String::from("b"));
    assert!(t.same_as(&WidgetType::text(String::from("b"), 10)));
}

#[test]
fn widget_builders() {
    let mut parent = Widget::new(WidgetType::window());
    parent.set_id(Wid(3));
    let w = Widget::new(WidgetType::window())
        .parent(&parent)
        .position(Positioning::centered(), Positioning::origin())
        .size(Sizing::match_parent(), Sizing::derived())
        .align_right()
        .align_bottom()
        .showing(false)
        .accepts_focus(true)
        .only_consume(EventConsumption::mouse_press_and_release())
        .with_tooltip(String::from("tip"))
        .border_width(2)
        .border_sides(BorderSides::one_side(Alignment::Top))
        .named(String::from("w"))
        .with_inherent_callback(4)
        .with_callback(5);
    assert_eq!(w.parent_id, Some(Wid(3)));
    assert_eq!(w.position, [Positioning::CenteredInParent, Positioning::Constant]);
    assert_eq!(w.size, [Sizing::PcntOfParent, Sizing::Derived]);
    assert_eq!(w.alignment, [Alignment::Right, Alignment::Bottom]);
    assert!(!w.showing && w.accepts_focus);
    assert_eq!(w.tooltip, Some(String::from("tip")));
    assert_eq!(w.border.width, 2);
    assert_eq!(w.border.sides.0, 4);
    assert_eq!(w.name, Some(String::from("w")));
    assert!(w.validate());
    let cleared = w.with_cleared_callbacks();
    assert_eq!(cleared.callbacks.len(), 1);
    assert_eq!(cleared.callbacks[0].id(), 4);
    let w2 = Widget::new(WidgetType::window())
        .only_consume(EventConsumption::Key(Key::LAlt))
        .and_consume(EventConsumption::mouse_press_and_release());
    assert!(w2.event_consumption.consumes_event(&UIEvent::KeyPress { key: Key::LAlt }));
    assert!(w2.event_consumption.consumes_event(&UIEvent::MousePress { button: MouseButton::Middle }));
    let w3 = Widget::new(WidgetType::window()).surround_children().alignment(Alignment::Top, Alignment::Left);
    assert_eq!(w3.size, [Sizing::SurroundChildren, Sizing::SurroundChildren]);
    assert_eq!(w3.alignment, [Alignment::Left, Alignment::Top]);
    assert!(w3.dependent_on_children());
}

#[test]
fn button_bodies() {
    let b = Button::create_custom_body(WidgetType::window(), 3);
    assert_eq!(b.callbacks, vec![WidgetCallbackRef::new(3, true)]);
    assert_eq!(b.size, [Sizing::SurroundChildren, Sizing::SurroundChildren]);
    assert_eq!(b.border.width, 2);
    assert!(b.event_consumption.consumes_event(&UIEvent::MousePress { button: MouseButton::Left }));
    assert!(!b.event_consumption.consumes_event(&UIEvent::MousePosition));
    let i = Button::image_button(String::from("ui/blank"), 4);
    assert_eq!(i.size, [Sizing::Derived, Sizing::Derived]);
    assert!(i.widget_type.same_as(&WidgetType::image(String::from("ui/blank"))));
}
