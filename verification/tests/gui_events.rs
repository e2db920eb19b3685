use samvival::events::{Key, MouseButton, UIEvent, WidgetEvent, WidgetState};
use samvival::gui::{BubbleStep, Visit, GUI, SELF_LISTENER};
use samvival::widgets::{EventConsumption, Wid, Widget, WidgetType};
use samvival::compound::{button_callback, Button};

struct TestState {
    i: i32,
}

struct FooState {
    f: f32,
}

const MAIN_CALLBACK: u32 = 1;
const SUB_CALLBACK: u32 = 2;

fn run_test_callbacks(visits: &Vec<Visit>, state: &mut TestState) {
    for v in visits {
        for cb in &v.callbacks {
            match *cb {
                MAIN_CALLBACK => {
                    state.i = match v.event {
                        UIEvent::KeyPress { .. } => 9,
                        UIEvent::MousePress { .. } => 1,
                        _ => 2,
                    }
                }
                SUB_CALLBACK => state.i = 2,
                _ => {}
            }
        }
    }
}

fn handle(gui: &mut GUI, event: &UIEvent, moused: Option<Wid>, state: &mut TestState) -> bool {
    let route = gui.begin_ui_event(event, moused);
    match route {
        Some(w) => {
            let (handled, visits) = gui.handle_event_widget(w, event);
            run_test_callbacks(&visits, state);
            handled
        }
        None => false,
    }
}

#[test]
fn test_ui_event_handling() {
    let mut gui = GUI::new();

    // a main widget covering (10,10)-(30,30), consuming everything
    let mut widget = Widget::new(WidgetType::window());
    widget.event_consumption = EventConsumption::all();
    widget.add_callback(MAIN_CALLBACK, false);
    let widget = widget.apply(&mut gui);

    let mut test_state = TestState { i: 0 };
    // a press at (20,20) is over the widget
    let handled = handle(&mut gui, &UIEvent::MousePress { button: MouseButton::Left }, Some(widget.id()), &mut test_state);
    assert_eq!(handled, true);
    assert_eq!(test_state.i, 1);

    test_state.i = 0;
    // a press at (40,20) is over nothing
    let handled = handle(&mut gui, &UIEvent::MousePress { button: MouseButton::Left }, None, &mut test_state);
    assert_eq!(handled, false);
    assert_eq!(test_state.i, 0);

    // nothing has focus, so a key press goes nowhere
    let handled = handle(&mut gui, &UIEvent::KeyPress { key: Key::Other(76) }, None, &mut test_state);
    assert_eq!(handled, false);
    assert_eq!(test_state.i, 0);

    // a sub widget inside the main one, consuming only mouse events
    let mut sub_widget = Widget::new(WidgetType::window());
    sub_widget.parent_id = Some(widget.id());
    sub_widget.event_consumption = EventConsumption::mouse_events();
    sub_widget.add_callback(SUB_CALLBACK, false);
    let mut sub_widget = sub_widget.apply(&mut gui);

    // the same press now lands on the sub widget
    let handled = handle(&mut gui, &UIEvent::MousePress { button: MouseButton::Left }, Some(sub_widget.id()), &mut test_state);
    assert_eq!(handled, true);
    assert_eq!(test_state.i, 2);

    // a release over a widget that does not accept focus leaves focus empty
    assert_eq!(gui.focused_widget(), None);
    handle(&mut gui, &UIEvent::MouseRelease { button: MouseButton::Left }, Some(sub_widget.id()), &mut test_state);
    assert_eq!(gui.focused_widget(), None);

    sub_widget.accepts_focus = true;
    let sub_widget = sub_widget.apply(&mut gui);

    // now the release gives it focus
    let handled = handle(&mut gui, &UIEvent::MouseRelease { button: MouseButton::Left }, Some(sub_widget.id()), &mut test_state);
    assert_eq!(gui.focused_widget(), Some(sub_widget.id()));
    assert_eq!(handled, true);

    // a key press goes to the focused sub widget, which does not consume it, and
    // bubbles up to the main widget, which does
    let handled = handle(&mut gui, &UIEvent::KeyPress { key: Key::Other(76) }, None, &mut test_state);
    assert_eq!(handled, true);
    assert_eq!(test_state.i, 9);
}

#[test]
fn test_multi_state_callbacks() {
    let mut gui = GUI::new();
    let mut widget = Widget::new(WidgetType::window());
    widget.event_consumption = EventConsumption::all();
    widget.add_callback(MAIN_CALLBACK, false);
    let widget = widget.apply(&mut gui);

    let mut test_state = TestState { i: 0 };
    let foo_state = FooState { f: 1.0 };

    let evt = UIEvent::MousePress { button: MouseButton::Left };
    let route = gui.begin_ui_event(&evt, Some(widget.id()));
    let (_, visits) = gui.handle_event_widget(route.unwrap(), &evt);
    for v in &visits {
        for cb in &v.callbacks {
            if *cb == MAIN_CALLBACK {
                test_state.i = foo_state.f as i32;
            }
        }
    }
    assert_eq!(test_state.i, 1);
}

/// Handles `evt` for the tree itself: each widget reached records the event and
/// runs the button callback if it carries it, then queued events are handled in turn.
fn handle_for_self(gui: &mut GUI, evt: &UIEvent, moused: Option<Wid>, button_cb: u32) -> bool {
    let route = gui.begin_ui_event(evt, moused);
    let mut handled = false;
    if let Some(start) = route {
        let mut cur = start;
        let mut ev = evt.clone();
        loop {
            if !gui.record_event(cur, &ev) {
                break;
            }
            let carries = gui.widget(cur).callbacks.iter().any(|c| c.id() == button_cb);
            if carries {
                let mut ctx = gui.context_for(cur);
                button_callback(&mut ctx, &ev);
                if gui.apply_widget_context(ctx) {
                    gui.mark_widget_modified(cur);
                }
            }
            match gui.bubble_step(cur, &ev) {
                BubbleStep::Handled(b) => {
                    handled = b;
                    break;
                }
                BubbleStep::PassTo(p, next) => {
                    cur = p;
                    ev = next;
                }
            }
        }
    }
    gui.track_pointer(evt, route);
    for _ in 0..10 {
        let queued = gui.take_queued_events(SELF_LISTENER);
        if queued.is_empty() {
            break;
        }
        for q in &queued {
            handle_for_self(gui, q, None, button_cb);
        }
    }
    handled
}

#[test]
fn test_button_and_event_transmutation() {
    const BUTTON_CB: u32 = 7;
    const ON_CLICK_CB: u32 = 8;
    const LISTENER: u64 = 1;
    let mut gui = GUI::new();

    let mut body = Widget::new(WidgetType::window());
    body.event_consumption = EventConsumption::mouse_press_and_release();
    body.add_callback(BUTTON_CB, true);
    body.add_callback(ON_CLICK_CB, false);
    let text = Widget::new(WidgetType::text(String::from("Test Button Here"), 12));
    let mut button = Button { body, text };
    button.reapply(&mut gui);

    let mut test_state = TestState { i: 0 };
    let foo_state = FooState { f: 1.0 };

    let mut handle_2 = |gui: &mut GUI, evt: &UIEvent, moused: Option<Wid>, state: &mut TestState| {
        let queued = gui.take_queued_events(LISTENER);
        let mut all: Vec<(UIEvent, Option<Wid>)> = queued.into_iter().map(|e| (e, None)).collect();
        all.push((evt.clone(), moused));
        for (e, m) in all {
            let route = gui.begin_ui_event(&e, m);
            if let Some(w) = route {
                let (_, visits) = gui.handle_event_widget(w, &e);
                for v in &visits {
                    for cb in &v.callbacks {
                        if *cb == ON_CLICK_CB {
                            if let UIEvent::WidgetEvent { event: WidgetEvent::ButtonClicked(_), .. } = v.event {
                                state.i = foo_state.f as i32;
                            }
                        }
                    }
                }
            }
        }
    };

    let over = Some(button.body.id());
    let evt = UIEvent::MousePress { button: MouseButton::Left };
    handle_for_self(&mut gui, &evt, over, BUTTON_CB);
    handle_2(&mut gui, &evt, over, &mut test_state);
    assert_eq!(gui.widget_state(button.body.id()), WidgetState::Button { pressed: true });

    let evt = UIEvent::MouseRelease { button: MouseButton::Left };
    handle_for_self(&mut gui, &evt, over, BUTTON_CB);
    handle_2(&mut gui, &evt, over, &mut test_state);

    assert_eq!(test_state.i, 1);
    assert!(button.clicked(&gui));
    assert_eq!(gui.widget_state(button.body.id()), WidgetState::Button { pressed: false });
}

#[test]
fn custom_events_carry_their_payload_identifier() {
    let e = UIEvent::custom_event(12, Wid(3));
    assert_eq!(e.as_custom_event(), Some((12, Wid(3))));
    assert_eq!(UIEvent::MouseRelease { button: MouseButton::Left }.as_custom_event(), None);
}
