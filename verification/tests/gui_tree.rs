use samvival::compound::{
    button_callback, horizontal_sizes, is_button_click, list_item_callback, tab_click, Button, TabWidget, TextDisplayWidget,
};
use samvival::events::{Key, MouseButton, UIEvent, WidgetEvent, WidgetState};
use samvival::gui::{BubbleStep, GUI, SELF_LISTENER};
use samvival::widgets::{ImageSegmentation, EventConsumption, Modifiers, Positioning, Sizing, Wid, Widget, WidgetType};

fn window() -> Widget {
    Widget::new(WidgetType::window())
}

fn child_of(parent: &Widget) -> Widget {
    let mut w = window();
    w.parent_id = Some(parent.id());
    w
}

#[test]
fn applying_registers_and_lists_children() {
    let mut gui = GUI::new();
    let top = window().apply(&mut gui);
    assert_eq!(top.id(), Wid(1));
    let child = child_of(&top).apply(&mut gui);
    assert_eq!(child.id(), Wid(2));
    assert!(gui.widget(child.id()).same_as(&child));
    assert_eq!(gui.widget(child.id()).parent_id, Some(top.id()));
    assert_eq!(gui.depth_of_widget(top.id()), 0);
    assert_eq!(gui.depth_of_widget(child.id()), 1);
    let grandchild = child_of(&child).apply(&mut gui);
    assert_eq!(gui.depth_of_widget(grandchild.id()), 2);
    // a new widget is marked for layout
    assert_eq!(gui.needs_update(child.id(), false), (true, false));
    gui.clear_modified();
    assert_eq!(gui.needs_update(child.id(), false), (false, false));
    assert_eq!(gui.needs_update(child.id(), true), (true, false));
}

#[test]
fn applying_an_unchanged_widget_marks_nothing() {
    let mut gui = GUI::new();
    let mut top = window().apply(&mut gui);
    gui.clear_modified();
    top.reapply(&mut gui);
    assert_eq!(gui.needs_update(top.id(), false), (false, false));
    top.showing = false;
    top.reapply(&mut gui);
    assert_eq!(gui.needs_update(top.id(), false), (true, false));
    gui.clear_modified();
    // hidden and unmarked: skipped
    assert_eq!(gui.needs_update(top.id(), false), (false, true));
}

#[test]
fn marking_climbs_through_surrounding_parents() {
    let mut gui = GUI::new();
    let mut top = window();
    top.size = [Sizing::SurroundChildren, Sizing::Constant];
    let top = top.apply(&mut gui);
    let mut mid = child_of(&top);
    mid.size = [Sizing::SurroundChildren, Sizing::SurroundChildren];
    let mid = mid.apply(&mut gui);
    let leaf = child_of(&mid).apply(&mut gui);
    gui.clear_modified();
    gui.mark_widget_modified(leaf.id());
    assert_eq!(gui.needs_update(leaf.id(), false).0, true);
    // the leaf's own size does not depend on its children, so marking stops there
    assert_eq!(gui.needs_update(mid.id(), false).0, false);
    gui.mark_widget_modified(mid.id());
    assert_eq!(gui.needs_update(mid.id(), false).0, true);
    assert_eq!(gui.needs_update(top.id(), false).0, true);
}

#[test]
fn state_override_sets_state() {
    let mut gui = GUI::new();
    let mut w = window().apply(&mut gui);
    assert_eq!(gui.widget_state(w.id()), WidgetState::NoState);
    w.state_override = Some(WidgetState::Button { pressed: true });
    w.reapply(&mut gui);
    assert_eq!(gui.widget_state(w.id()), WidgetState::Button { pressed: true });
    // the override has been handed over
    assert!(w.state_override.is_none());
    assert!(gui.widget(w.id()).state_override.is_none());
    assert_eq!(gui.widget_state(Wid(99)), WidgetState::NoState);
}

#[test]
fn removing_forgets_widget_and_children() {
    let mut gui = GUI::new();
    let mut top = window().apply(&mut gui);
    let mut child = child_of(&top);
    child.accepts_focus = true;
    child.event_consumption = EventConsumption::all();
    let child = child.apply(&mut gui);
    let other = window().apply(&mut gui);
    // give the child focus and an event
    let release = UIEvent::MouseRelease { button: MouseButton::Left };
    let route = gui.begin_ui_event(&release, Some(child.id()));
    assert!(gui.record_event(route.unwrap(), &release));
    gui.handle_event_widget(route.unwrap(), &release);
    assert_eq!(gui.focused_widget(), Some(child.id()));
    assert_eq!(gui.events_for(&child).len(), 1);

    gui.remove_widget(&mut top);
    assert!(!top.has_id());
    assert_eq!(gui.focused_widget(), None);
    assert_eq!(gui.events_for(&child).len(), 0);
    assert_eq!(gui.widget_state(child.id()), WidgetState::NoState);
    assert!(gui.widget(other.id()).same_as(&other));

    // removing a widget that was never applied does nothing
    let mut never = window();
    gui.remove_widget(&mut never);
    assert!(!never.has_id());
}

#[test]
fn remove_by_id_keeps_children_registered() {
    let mut gui = GUI::new();
    let top = window().apply(&mut gui);
    let child = child_of(&top).apply(&mut gui);
    gui.remove_widget_by_id(top.id());
    assert_eq!(gui.widget_state(top.id()), WidgetState::NoState);
    assert!(gui.widget(child.id()).same_as(&child));
}

#[test]
fn modifier_keys() {
    let mut gui = GUI::new();
    assert_eq!(*gui.active_modifiers(), Modifiers { ctrl: false, shift: false, alt: false });
    gui.begin_ui_event(&UIEvent::KeyPress { key: Key::RCtrl }, None);
    gui.begin_ui_event(&UIEvent::KeyPress { key: Key::LShift }, None);
    assert_eq!(*gui.active_modifiers(), Modifiers { ctrl: true, shift: true, alt: false });
    gui.begin_ui_event(&UIEvent::KeyRelease { key: Key::LCtrl }, None);
    gui.begin_ui_event(&UIEvent::KeyPress { key: Key::Other(65) }, None);
    assert_eq!(*gui.active_modifiers(), Modifiers { ctrl: false, shift: true, alt: false });
    gui.begin_ui_event(&UIEvent::KeyPress { key: Key::LAlt }, None);
    assert!(gui.active_modifiers().alt);
}

#[test]
fn mouse_button_tracking() {
    let mut gui = GUI::new();
    assert_eq!(gui.active_mouse_button(), None);
    gui.begin_ui_event(&UIEvent::MousePress { button: MouseButton::Right }, None);
    assert_eq!(gui.active_mouse_button(), Some(MouseButton::Right));
    gui.begin_ui_event(&UIEvent::MouseMove, None);
    assert_eq!(gui.active_mouse_button(), Some(MouseButton::Right));
    gui.begin_ui_event(&UIEvent::MouseRelease { button: MouseButton::Right }, None);
    assert_eq!(gui.active_mouse_button(), None);
}

#[test]
fn routing() {
    let gui = GUI::new();
    assert_eq!(gui.widget_to_route_to(&UIEvent::MousePress { button: MouseButton::Left }, Some(Wid(4))), Some(Wid(4)));
    assert_eq!(gui.widget_to_route_to(&UIEvent::KeyPress { key: Key::LAlt }, Some(Wid(4))), None);
    assert_eq!(gui.widget_to_route_to(&UIEvent::MouseEntered { from_widget: None, to_widget: Wid(7) }, None), Some(Wid(7)));
    assert_eq!(gui.widget_to_route_to(&UIEvent::MouseExited { from_widget: Wid(6), to_widget: None }, None), Some(Wid(6)));
    assert_eq!(gui.widget_to_route_to(&UIEvent::CustomEvent { payload: 0, originating_widget: Wid(8) }, Some(Wid(1))), Some(Wid(8)));
    let clicked = UIEvent::widget_event(WidgetEvent::ButtonClicked(Wid(5)), Wid(5));
    assert_eq!(gui.widget_to_route_to(&clicked, None), Some(Wid(5)));
}

#[test]
fn queues_per_listener() {
    let mut gui = GUI::new();
    // a listener without a queue gets one, empty
    assert!(gui.take_queued_events(SELF_LISTENER).is_empty());
    assert!(gui.take_queued_events(3).is_empty());
    gui.enqueue_event(&UIEvent::Resize);
    gui.enqueue_event_excepting_self(&UIEvent::Scroll);
    let own = gui.take_queued_events(SELF_LISTENER);
    assert_eq!(own.len(), 1);
    assert!(matches!(own[0], UIEvent::Resize));
    let other = gui.take_queued_events(3);
    assert_eq!(other.len(), 2);
    assert!(matches!(other[0], UIEvent::Resize));
    assert!(matches!(other[1], UIEvent::Scroll));
    // taking empties the queue
    assert!(gui.take_queued_events(3).is_empty());
}

#[test]
fn pointer_tracking_announces_entry_and_exit() {
    let mut gui = GUI::new();
    gui.take_queued_events(SELF_LISTENER);
    gui.track_pointer(&UIEvent::MousePosition, Some(Wid(1)));
    assert_eq!(gui.moused_over_widget(), Some(Wid(1)));
    gui.track_pointer(&UIEvent::MousePosition, Some(Wid(2)));
    // other events change nothing
    gui.track_pointer(&UIEvent::MouseMove, None);
    assert_eq!(gui.moused_over_widget(), Some(Wid(2)));
    let q = gui.take_queued_events(SELF_LISTENER);
    assert_eq!(q.len(), 3);
    assert!(matches!(q[0], UIEvent::MouseEntered { from_widget: None, to_widget: Wid(1) }));
    assert!(matches!(q[1], UIEvent::MouseExited { from_widget: Wid(1), to_widget: Some(Wid(2)) }));
    assert!(matches!(q[2], UIEvent::MouseEntered { from_widget: Some(Wid(1)), to_widget: Wid(2) }));
}

#[test]
fn hovering() {
    let mut gui = GUI::new();
    gui.take_queued_events(SELF_LISTENER);
    // nothing under the mouse: a hover starts over nothing
    assert!(gui.begin_hover().is_none());
    gui.track_pointer(&UIEvent::MouseDrag { button: MouseButton::Left }, Some(Wid(4)));
    gui.take_queued_events(SELF_LISTENER);
    let started = gui.begin_hover();
    assert!(matches!(started, Some(UIEvent::HoverStart { over_widget: Wid(4) })));
    // a hover in progress is not started again
    assert!(gui.begin_hover().is_none());
    // moving the mouse ends it
    gui.track_pointer(&UIEvent::MousePosition, Some(Wid(4)));
    let q = gui.take_queued_events(SELF_LISTENER);
    assert_eq!(q.len(), 1);
    assert!(matches!(q[0], UIEvent::HoverEnd { over_widget: Wid(4) }));
}

#[test]
fn events_recorded_and_reset() {
    let mut gui = GUI::new();
    let w = window().apply(&mut gui);
    assert!(gui.record_event(w.id(), &UIEvent::Resize));
    assert!(gui.record_event(w.id(), &UIEvent::Scroll));
    assert_eq!(gui.events_for(&w).len(), 2);
    // an unregistered widget has its event recorded but cannot handle it
    assert!(!gui.record_event(Wid(50), &UIEvent::Resize));
    gui.reset_events();
    assert!(gui.events_for(&w).is_empty());
}

#[test]
fn bubbling_step_by_step() {
    let mut gui = GUI::new();
    let mut top = window();
    top.event_consumption = EventConsumption::widget_events();
    let top = top.apply(&mut gui);
    let child = child_of(&top).apply(&mut gui);
    let ev = UIEvent::widget_event(WidgetEvent::ButtonClicked(child.id()), child.id());
    match gui.bubble_step(child.id(), &ev) {
        BubbleStep::PassTo(p, next) => {
            assert_eq!(p, top.id());
            assert!(matches!(next, UIEvent::WidgetEvent { most_recently_from_widget, .. } if most_recently_from_widget == child.id()));
            assert!(matches!(gui.bubble_step(p, &next), BubbleStep::Handled(true)));
        }
        BubbleStep::Handled(_) => panic!("the child consumes nothing"),
    }
    // an event nobody consumes ends at the top without being consumed
    assert!(matches!(gui.bubble_step(top.id(), &UIEvent::Resize), BubbleStep::Handled(false)));
    let (consumed, visits) = gui.handle_event_widget(child.id(), &UIEvent::Resize);
    assert!(!consumed);
    assert_eq!(visits.len(), 2);
    assert_eq!(visits[0].wid, child.id());
    assert_eq!(visits[1].wid, top.id());
}

#[test]
fn widget_context_changes_state_and_raises_events() {
    let mut gui = GUI::new();
    let w = window().apply(&mut gui);
    gui.take_queued_events(SELF_LISTENER);
    let mut ctx = gui.context_for(w.id());
    assert_eq!(ctx.widget_state, WidgetState::NoState);
    button_callback(&mut ctx, &UIEvent::MouseRelease { button: MouseButton::Left });
    assert_eq!(ctx.widget_state, WidgetState::Button { pressed: false });
    assert_eq!(ctx.triggered_events.len(), 1);
    assert!(gui.apply_widget_context(ctx));
    assert_eq!(gui.widget_state(w.id()), WidgetState::Button { pressed: false });
    let q = gui.take_queued_events(SELF_LISTENER);
    assert_eq!(q.len(), 2);
    assert!(matches!(q[0], UIEvent::WidgetStateChanged { .. }));
    assert!(matches!(q[1], UIEvent::WidgetEvent { event: WidgetEvent::ButtonClicked(b), .. } if b == w.id()));
    // the same state again is no change
    let ctx = gui.context_for(w.id());
    assert!(!gui.apply_widget_context(ctx));
}

#[test]
fn altering_a_widget() {
    let mut gui = GUI::new();
    let w = window().apply(&mut gui);
    gui.clear_modified();
    let mut altered = gui.widget(w.id()).duplicate();
    altered.showing = false;
    gui.alter_widget(w.id(), altered);
    assert!(!gui.widget(w.id()).showing);
    assert_eq!(gui.needs_update(w.id(), false), (true, false));
    let mut again = gui.widget(w.id()).duplicate();
    again.showing = true;
    gui.clear_modified();
    gui.store_widget(w.id(), again);
    assert!(gui.widget(w.id()).showing);
    assert_eq!(gui.needs_update(w.id(), false), (false, false));
}

#[test]
fn button_reactions() {
    let mut gui = GUI::new();
    let w = window().apply(&mut gui);
    let mut ctx = gui.context_for(w.id());
    button_callback(&mut ctx, &UIEvent::MousePress { button: MouseButton::Left });
    assert_eq!(ctx.widget_state, WidgetState::Button { pressed: true });
    button_callback(&mut ctx, &UIEvent::MouseExited { from_widget: w.id(), to_widget: None });
    assert_eq!(ctx.widget_state, WidgetState::Button { pressed: false });
    button_callback(&mut ctx, &UIEvent::MouseDrag { button: MouseButton::Left });
    assert_eq!(ctx.widget_state, WidgetState::Button { pressed: true });
    button_callback(&mut ctx, &UIEvent::Scroll);
    assert_eq!(ctx.widget_state, WidgetState::Button { pressed: true });
    assert!(ctx.triggered_events.is_empty());
}

#[test]
fn list_items_report_clicks() {
    let mut gui = GUI::new();
    let w = window().apply(&mut gui);
    let mut ctx = gui.context_for(w.id());
    list_item_callback(2, &mut ctx, &UIEvent::MousePress { button: MouseButton::Left });
    assert!(ctx.triggered_events.is_empty());
    list_item_callback(2, &mut ctx, &UIEvent::MouseRelease { button: MouseButton::Right });
    assert_eq!(ctx.triggered_events.len(), 1);
    assert!(matches!(
        ctx.triggered_events[0],
        UIEvent::WidgetEvent { event: WidgetEvent::ListItemClicked(2, MouseButton::Right), .. }
    ));
}

#[test]
fn tab_clicks() {
    let state = WidgetState::Tab { active_tab: Some(0), tabs: vec![Wid(10), Wid(11), Wid(12)], tab_buttons: vec![Wid(20), Wid(21), Wid(22)] };
    let click = UIEvent::widget_event(WidgetEvent::ButtonClicked(Wid(21)), Wid(21));
    let plan = tab_click(&state, &click).unwrap();
    assert_eq!(plan.to_show, vec![Wid(11)]);
    assert_eq!(plan.to_hide, vec![Wid(10), Wid(12)]);
    assert_eq!(plan.to_hide_bar, vec![Wid(21)]);
    assert_eq!(plan.to_show_bar, vec![Wid(20), Wid(22)]);
    assert_eq!(plan.new_state, WidgetState::Tab { active_tab: Some(1), tabs: vec![Wid(10), Wid(11), Wid(12)], tab_buttons: vec![Wid(20), Wid(21), Wid(22)] });
    // a click on some other button changes nothing
    let other = UIEvent::widget_event(WidgetEvent::ButtonClicked(Wid(99)), Wid(99));
    let plan = tab_click(&state, &other).unwrap();
    assert!(plan.to_show.is_empty() && plan.to_hide.is_empty());
    assert_eq!(plan.new_state, state);
    // without an active tab nothing changes either
    let idle = WidgetState::Tab { active_tab: None, tabs: vec![Wid(10)], tab_buttons: vec![Wid(20)] };
    let plan = tab_click(&idle, &UIEvent::widget_event(WidgetEvent::ButtonClicked(Wid(20)), Wid(20))).unwrap();
    assert_eq!(plan.new_state, idle);
    // other events are not clicks
    assert!(tab_click(&state, &UIEvent::Resize).is_none());
}

#[test]
fn tab_widget_reads_its_state() {
    let mut gui = GUI::new();
    let mut body = window();
    body.state_override = Some(WidgetState::Tab { active_tab: Some(0), tabs: vec![], tab_buttons: vec![] });
    let body = body.apply(&mut gui);
    // a newly stored widget keeps its override and has no state yet
    let tabs = TabWidget { body, tab_titles: vec![], tabs: vec![window()], tab_buttons: vec![], to_remove: vec![] };
    assert_eq!(tabs.active_tab(&gui), None);
    let mut body = tabs.body;
    body.state_override = Some(WidgetState::Tab { active_tab: Some(2), tabs: vec![], tab_buttons: vec![] });
    body.reapply(&mut gui);
    let tabs = TabWidget { body, tab_titles: vec![String::from("a")], tabs: vec![window()], tab_buttons: vec![], to_remove: vec![] };
    assert_eq!(tabs.active_tab(&gui), Some(2));
    assert!(!tabs.tab_at_index(0).has_id());
}

#[test]
fn button_reapply_places_text_under_body() {
    let mut gui = GUI::new();
    let mut body = window();
    body.size = [Sizing::SurroundChildren, Sizing::SurroundChildren];
    let text = Widget::new(WidgetType::text(String::from("ok"), 12));
    let mut b = Button { body, text };
    b.reapply(&mut gui);
    assert!(b.body.has_id());
    assert_eq!(b.text.parent_id, Some(b.body.id()));
    assert_eq!(gui.depth_of_widget(b.text.id()), 1);
    assert!(!b.clicked(&gui));
}

fn tab_button(title: &str) -> Button {
    Button { body: window(), text: Widget::new(WidgetType::text(String::from(title), 12)) }
}

#[test]
fn tab_widget_reapplies_everything() {
    let mut gui = GUI::new();
    let mut tw = TabWidget {
        body: window(),
        tab_titles: vec![String::from("a"), String::from("b")],
        tabs: vec![window(), window()],
        tab_buttons: vec![tab_button("a"), tab_button("b")],
        to_remove: vec![],
    };
    tw.reapply_all(&mut gui);
    let body = tw.body.id();
    assert!(body != Wid(0));
    for t in &tw.tabs {
        assert_eq!(gui.widget(t.id()).parent_id, Some(body));
    }
    for b in &tw.tab_buttons {
        assert_eq!(gui.widget(b.body.id()).parent_id, Some(body));
        assert_eq!(gui.widget(b.text.id()).parent_id, Some(b.body.id()));
    }
    let tab_ids: Vec<Wid> = tw.tabs.iter().map(|t| t.id()).collect();
    let button_ids: Vec<Wid> = tw.tab_buttons.iter().map(|b| b.body.id()).collect();
    assert_eq!(gui.widget_state(body), WidgetState::Tab { active_tab: Some(0), tabs: tab_ids.clone(), tab_buttons: button_ids.clone() });
    assert_eq!(tw.active_tab(&gui), Some(0));

    // once the tree holds a state, reapplying keeps it
    let mut ctx = gui.context_for(body);
    ctx.update_state(WidgetState::Tab { active_tab: Some(1), tabs: tab_ids.clone(), tab_buttons: button_ids.clone() });
    gui.apply_widget_context(ctx);
    tw.reapply_all(&mut gui);
    assert_eq!(tw.active_tab(&gui), Some(1));

    // dropped widgets are forgotten
    let dropped = tw.tabs.pop().unwrap();
    tw.to_remove.push(dropped.id());
    tw.reapply_all(&mut gui);
    assert!(tw.to_remove.is_empty());
    assert!(!gui.contains(dropped.id()));
    assert!(gui.contains(tw.tabs[0].id()));
}

#[test]
fn button_click_recognition_and_list_sizes() {
    assert!(is_button_click(&UIEvent::widget_event(WidgetEvent::ButtonClicked(Wid(2)), Wid(2))));
    assert!(!is_button_click(&UIEvent::widget_event(WidgetEvent::RadioChanged { new_index: 1 }, Wid(2))));
    assert!(!is_button_click(&UIEvent::MouseRelease { button: MouseButton::Left }));
    assert_eq!(horizontal_sizes([Sizing::PcntOfParent, Sizing::SurroundChildren]), [Sizing::SurroundChildren, Sizing::PcntOfParent]);
    assert_eq!(horizontal_sizes([Sizing::PcntOfParent, Sizing::Constant]), [Sizing::PcntOfParent, Sizing::Constant]);
}

#[test]
fn text_display_and_button_text() {
    let mut gui = GUI::new();
    let mut d = TextDisplayWidget { body: window(), text: Widget::new(WidgetType::text(String::from("hi"), 10)) };
    d.set_text(String::from("hello"));
    d.set_font_size(14);
    d.center_text_horizontally();
    d.reapply(&mut gui);
    assert!(d.body.has_id() && d.text.has_id());
    assert!(gui.widget(d.text.id()).widget_type.same_as(&WidgetType::text(String::from("hello"), 14)));
    assert_eq!(d.text.position[0], Positioning::CenteredInParent);

    let mut b = Button { body: window(), text: Widget::new(WidgetType::text(String::from("a"), 10)) };
    b.set_text(String::from("b"));
    b.set_font_size(20);
    assert!(b.text.widget_type.same_as(&WidgetType::text(String::from("b"), 20)));
    let b = b.text_position(Positioning::CenteredInParent, Positioning::CenteredInParent);
    assert_eq!(b.text.position, [Positioning::CenteredInParent, Positioning::CenteredInParent]);
}

#[test]
fn tabs_by_title() {
    let t0 = window();
    let mut t1 = window();
    t1.showing = false;
    let tw = TabWidget {
        body: window(),
        tab_titles: vec![String::from("map"), String::from("inventory")],
        tabs: vec![t0, t1],
        tab_buttons: vec![],
        to_remove: vec![],
    };
    assert!(!tw.tab_named(&String::from("inventory")).showing);
    assert!(tw.tab_named(&String::from("map")).showing);
}

#[test]
fn text_display_frames_its_text() {
    let mut gui = GUI::new();
    let mut d = TextDisplayWidget::new(String::from("hp"), 12, None, ImageSegmentation::Unsegmented).centered_text();
    assert_eq!(d.body.border.width, 1);
    assert_eq!(d.body.size, [Sizing::SurroundChildren, Sizing::SurroundChildren]);
    assert_eq!(d.text.size, [Sizing::Derived, Sizing::Derived]);
    assert_eq!(d.text.position[0], Positioning::CenteredInParent);
    d.reapply(&mut gui);
    assert_eq!(gui.widget(d.text.id()).parent_id, Some(d.body.id()));
    assert!(gui.widget(d.text.id()).widget_type.same_as(&WidgetType::text(String::from("hp"), 12)));
}

#[test]
fn precondition_checks() {
    let mut gui = GUI::new();
    let top = window().apply(&mut gui);
    let child = child_of(&top).apply(&mut gui);
    assert!(gui.can_mark_widget(child.id()));
    assert!(!gui.can_mark_widget(Wid(99)));
    let ev = UIEvent::MouseRelease { button: MouseButton::Left };
    assert!(gui.can_handle_from(child.id(), &ev));
    assert!(!gui.can_handle_from(Wid(99), &ev));
    // a widget under an unregistered parent cannot be applied
    let mut orphan = window();
    orphan.parent_id = Some(Wid(77));
    assert!(!gui.can_apply_widget(&orphan));
    assert!(!gui.can_reapply_widget(&orphan));
    assert!(gui.can_reapply_widget(&child_of(&top)));
    assert!(gui.can_apply_widget(&child));
    // a widget whose parent is itself, sized by its children, loops when marked
    let mut looping = window();
    looping.id = Wid(50);
    looping.parent_id = Some(Wid(50));
    looping.size = [Sizing::SurroundChildren, Sizing::Constant];
    assert!(!gui.can_apply_widget(&looping));
}
