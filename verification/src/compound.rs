use vstd::prelude::*;
use crate::events::{UIEvent, UIEventView, WidgetEvent, WidgetState, WidgetStateView};
use crate::gui::{
    GUI, GUIView, WidgetContext, can_reapply, reapply_result, after_removing, wid_keys, lemma_after_removing_twice,
    removed_with_children,
};
use crate::widgets::{
    Wid, Widget, WidgetView, WidgetTypeView, WidgetType, Sizing, Positioning, Alignment, WidgetCallbackRef, Border,
    BorderSides, GUILayer, ImageSegmentation, EventConsumption, side_flag,
};

verus! {

/// The state a button's own callback gives it on event `e`: pressed on a press or a
/// drag, released on a release or when the mouse leaves; `None` for other events.
pub open spec fn button_pressed_after(e: UIEventView) -> Option<bool> {
    match e {
        UIEventView::MouseRelease { .. } => Some(false),
        UIEventView::MousePress { .. } => Some(true),
        UIEventView::MouseExited { .. } => Some(false),
        UIEventView::MouseDrag { .. } => Some(true),
        _ => None,
    }
}

/// The callback every button body carries: it tracks whether the button is pressed,
/// and a release raises a click of the button.
pub fn button_callback(ctx: &mut WidgetContext, evt: &UIEvent)
    ensures
        final(ctx).widget_id == old(ctx).widget_id,
        match button_pressed_after(evt@) {
            Some(p) => final(ctx).widget_state@ == (WidgetStateView::Button { pressed: p }),
            None => final(ctx).widget_state == old(ctx).widget_state,
        },
        evt@ is MouseRelease ==> final(ctx).triggered_events@ == old(ctx).triggered_events@.push(
            UIEvent::WidgetEvent {
                event: WidgetEvent::ButtonClicked(old(ctx).widget_id),
                originating_widget: old(ctx).widget_id,
                most_recently_from_widget: old(ctx).widget_id,
            },
        ),
        !(evt@ is MouseRelease) ==> final(ctx).triggered_events@ == old(ctx).triggered_events@,
{
    let widget_id = ctx.widget_id;
    match evt {
        UIEvent::MouseRelease { .. } => {
            ctx.update_state(WidgetState::Button { pressed: false });
            ctx.trigger_event(UIEvent::widget_event(WidgetEvent::ButtonClicked(widget_id), widget_id));
        },
        UIEvent::MousePress { .. } => {
            ctx.update_state(WidgetState::Button { pressed: true });
        },
        UIEvent::MouseExited { .. } => {
            ctx.update_state(WidgetState::Button { pressed: false });
        },
        UIEvent::MouseDrag { .. } => {
            ctx.update_state(WidgetState::Button { pressed: true });
        },
        _ => {},
    }
}

/// The callback of the `index`-th item of a list: a mouse release on it raises a
/// click of that item with the button released.
pub fn list_item_callback(index: usize, ctx: &mut WidgetContext, evt: &UIEvent)
    ensures
        final(ctx).widget_id == old(ctx).widget_id,
        final(ctx).widget_state == old(ctx).widget_state,
        match evt@ {
            UIEventView::MouseRelease { button } => final(ctx).triggered_events@
                == old(ctx).triggered_events@.push(
                UIEvent::WidgetEvent {
                    event: WidgetEvent::ListItemClicked(index, button),
                    originating_widget: old(ctx).widget_id,
                    most_recently_from_widget: old(ctx).widget_id,
                },
            ),
            _ => final(ctx).triggered_events@ == old(ctx).triggered_events@,
        },
{
    if let UIEvent::MouseRelease { button } = evt {
        let wid = ctx.widget_id;
        ctx.trigger_event(UIEvent::widget_event(WidgetEvent::ListItemClicked(index, *button), wid));
    }
}

/// Whether `evt` is the click of a button, the only event an on-click callback
/// reacts to.
pub fn is_button_click(evt: &UIEvent) -> (r: bool)
    ensures
        r == (evt@ matches UIEventView::WidgetEvent { event: WidgetEvent::ButtonClicked(_), .. }),
{
    match evt {
        UIEvent::WidgetEvent { event: WidgetEvent::ButtonClicked(_), .. } => true,
        _ => false,
    }
}

/// The sizes of a list's body or item row when the list runs horizontally: a
/// height that surrounds the children trades places with the width.
pub fn horizontal_sizes(size: [Sizing; 2]) -> (r: [Sizing; 2])
    ensures
        size[1] == Sizing::SurroundChildren ==> r[0] == size[1] && r[1] == size[0],
        size[1] != Sizing::SurroundChildren ==> r[0] == size[0] && r[1] == size[1],
{
    if size[1] == Sizing::SurroundChildren {
        [size[1], size[0]]
    } else {
        size
    }
}

/// Whether a list of events holds a click of a button.
pub open spec fn has_click(evs: Seq<UIEventView>) -> bool {
    exists|i: int|
        0 <= i < evs.len() && #[trigger] evs[i] matches UIEventView::WidgetEvent {
            event: WidgetEvent::ButtonClicked(_),
            ..
        }
}

/// The first position of `w` in `s`.
pub open spec fn first_index_of(s: Seq<Wid>, w: Wid) -> int {
    choose|i: int| 0 <= i < s.len() && s[i] == w && forall|j: int| 0 <= j < i ==> s[j] != w
}

/// The widgets of `s` other than `w`, in order.
pub open spec fn others(s: Seq<Wid>, w: Wid) -> Seq<Wid>
    decreases s.len(),
{
    if s.len() == 0 {
        s
    } else if s.last() == w {
        others(s.drop_last(), w)
    } else {
        others(s.drop_last(), w).push(s.last())
    }
}

/// What a click on one of a tab widget's buttons changes: the tab to show and the
/// tabs to hide, the buttons whose bottom border to show and the one whose bottom
/// border to hide, and the tab widget's new state.
#[derive(Debug)]
pub struct TabClick {
    pub to_show: Vec<Wid>,
    pub to_hide: Vec<Wid>,
    pub to_show_bar: Vec<Wid>,
    pub to_hide_bar: Vec<Wid>,
    pub new_state: WidgetState,
}

/// The position of the clicked button among a tab widget's buttons, when the tab
/// widget has an active tab and the button is one of its own.
pub open spec fn clicked_tab(st: WidgetStateView, btn: Wid) -> Option<int> {
    match st {
        WidgetStateView::Tab { active_tab: Some(_), tab_buttons, .. } => if tab_buttons.contains(btn) {
            Some(first_index_of(tab_buttons, btn))
        } else {
            None
        },
        _ => None,
    }
}

/// Every widget in `s` has a first position in it.
pub proof fn lemma_first_index_of(s: Seq<Wid>, w: Wid)
    requires
        s.contains(w),
    ensures
        0 <= first_index_of(s, w) < s.len(),
        s[first_index_of(s, w)] == w,
        forall|j: int| 0 <= j < first_index_of(s, w) ==> s[j] != w,
{
    let i0 = choose|i: int| 0 <= i < s.len() && s[i] == w;
    lemma_first_below(s, w, i0);
}

proof fn lemma_first_below(s: Seq<Wid>, w: Wid, i: int)
    requires
        0 <= i < s.len(),
        s[i] == w,
    ensures
        exists|k: int| 0 <= k < s.len() && s[k] == w && forall|j: int| 0 <= j < k ==> s[j] != w,
    decreases i,
{
    if exists|j: int| 0 <= j < i && s[j] == w {
        let j = choose|j: int| 0 <= j < i && s[j] == w;
        lemma_first_below(s, w, j);
    }
}

fn index_of_wid(s: &Vec<Wid>, w: Wid) -> (r: Option<usize>)
    ensures
        s@.contains(w) ==> r == Some(first_index_of(s@, w) as usize),
        !s@.contains(w) ==> r is None,
        r matches Some(k) ==> k < s@.len() && s@[k as int] == w,
{
    let mut i: usize = 0;
    while i < s.len()
        invariant
            i <= s@.len(),
            forall|j: int| 0 <= j < i ==> s@[j] != w,
        decreases s.len() - i,
    {
        if s[i] == w {
            return Some(i);
        }
        i = i + 1;
    }
    None
}

fn others_of(s: &Vec<Wid>, w: Wid) -> (r: Vec<Wid>)
    ensures
        r@ == others(s@, w),
{
    let mut r: Vec<Wid> = Vec::new();
    let mut i: usize = 0;
    while i < s.len()
        invariant
            i <= s@.len(),
            r@ == others(s@.subrange(0, i as int), w),
        decreases s.len() - i,
    {
        proof {
            let next = s@.subrange(0, i + 1);
            assert(next.drop_last() =~= s@.subrange(0, i as int));
        }
        if s[i] != w {
            r.push(s[i]);
        }
        i = i + 1;
    }
    assert(s@.subrange(0, s@.len() as int) =~= s@);
    r
}

fn without_index(s: &Vec<Wid>, k: usize) -> (r: Vec<Wid>)
    requires
        k < s@.len(),
    ensures
        r@ == s@.remove(k as int),
{
    let mut r: Vec<Wid> = Vec::new();
    let mut i: usize = 0;
    while i < s.len()
        invariant
            k < s@.len(),
            i <= s@.len(),
            i <= k ==> r@ == s@.subrange(0, i as int),
            i > k ==> r@ == s@.subrange(0, k as int) + s@.subrange(k + 1, i as int),
        decreases s.len() - i,
    {
        if i != k {
            r.push(s[i]);
        }
        i = i + 1;
    }
    r
}

fn tab_switch(tabs: &Vec<Wid>, tab_buttons: &Vec<Wid>, k: usize) -> (r: TabClick)
    requires
        k < tab_buttons@.len(),
        tab_buttons@.len() <= tabs@.len(),
        tab_buttons@.len() <= u32::MAX,
    ensures
        r.to_show@ == seq![tabs@[k as int]],
        r.to_hide_bar@ == seq![tab_buttons@[k as int]],
        r.to_hide@ == others(tabs@, tabs@[k as int]),
        r.to_show_bar@ == tab_buttons@.remove(k as int),
        r.new_state@ == (WidgetStateView::Tab {
            active_tab: Some(k as u32),
            tabs: tabs@,
            tab_buttons: tab_buttons@,
        }),
{
    let clicked = tabs[k];
    let mut to_show: Vec<Wid> = Vec::new();
    to_show.push(clicked);
    let mut to_hide_bar: Vec<Wid> = Vec::new();
    to_hide_bar.push(tab_buttons[k]);
    let to_hide = others_of(tabs, clicked);
    let to_show_bar = without_index(tab_buttons, k);
    let new_state = WidgetState::Tab {
        active_tab: Some(k as u32),
        tabs: tabs.clone(),
        tab_buttons: tab_buttons.clone(),
    };
    TabClick { to_show, to_hide, to_show_bar, to_hide_bar, new_state }
}

/// The tabs of a tab widget's state.
pub open spec fn tabs_of(st: WidgetStateView) -> Seq<Wid> {
    match st {
        WidgetStateView::Tab { tabs, .. } => tabs,
        _ => Seq::empty(),
    }
}

/// The tab buttons of a tab widget's state.
pub open spec fn tab_buttons_of(st: WidgetStateView) -> Seq<Wid> {
    match st {
        WidgetStateView::Tab { tab_buttons, .. } => tab_buttons,
        _ => Seq::empty(),
    }
}

/// Whether `c` is what a click on button `btn` changes for a tab widget in state
/// `st`: with a click on one of its buttons while it has an active tab, that
/// button's tab is shown and becomes the active one, the other tabs are hidden, that
/// button loses its bottom border and the others get one; with any other click
/// nothing changes.
#[verifier::opaque]
pub open spec fn is_tab_click(c: TabClick, st: WidgetStateView, btn: Wid) -> bool {
    match clicked_tab(st, btn) {
        Some(k) => {
            &&& c.to_show@ == seq![tabs_of(st)[k]]
            &&& c.to_hide_bar@ == seq![tab_buttons_of(st)[k]]
            &&& c.to_hide@ == others(tabs_of(st), tabs_of(st)[k])
            &&& c.to_show_bar@ == tab_buttons_of(st).remove(k)
            &&& c.new_state@ == (WidgetStateView::Tab {
                active_tab: Some(k as u32),
                tabs: tabs_of(st),
                tab_buttons: tab_buttons_of(st),
            })
        },
        None => {
            &&& c.to_show@.len() == 0
            &&& c.to_hide@.len() == 0
            &&& c.to_show_bar@.len() == 0
            &&& c.to_hide_bar@.len() == 0
            &&& c.new_state@ == st
        },
    }
}

fn tab_click_for(state: &WidgetState, btn: Wid) -> (r: TabClick)
    requires
        tab_buttons_of(state@).len() <= tabs_of(state@).len(),
        tab_buttons_of(state@).len() <= u32::MAX,
    ensures
        is_tab_click(r, state@, btn),
{
    reveal(is_tab_click);
    if let WidgetState::Tab { tabs, tab_buttons, active_tab } = state {
        if active_tab.is_some() {
            if let Some(k) = index_of_wid(tab_buttons, btn) {
                proof {
                    lemma_first_index_of(tab_buttons@, btn);
                }
                return tab_switch(tabs, tab_buttons, k);
            }
        }
    }
    TabClick {
        to_show: Vec::new(),
        to_hide: Vec::new(),
        to_show_bar: Vec::new(),
        to_hide_bar: Vec::new(),
        new_state: state.duplicate(),
    }
}

/// What a tab widget's callback does with event `evt`, given its current state:
/// nothing unless the event is a button click, and for a click, `is_tab_click`.
pub fn tab_click(state: &WidgetState, evt: &UIEvent) -> (r: Option<TabClick>)
    requires
        tab_buttons_of(state@).len() <= tabs_of(state@).len(),
        tab_buttons_of(state@).len() <= u32::MAX,
    ensures
        match evt@ {
            UIEventView::WidgetEvent { event: WidgetEvent::ButtonClicked(btn), .. } => r matches Some(c)
                && is_tab_click(c, state@, btn),
            _ => r is None,
        },
{
    match evt {
        UIEvent::WidgetEvent { event: WidgetEvent::ButtonClicked(b), .. } => Some(tab_click_for(state, *b)),
        _ => None,
    }
}

/// A button: a body that takes the clicks, and a text inside it.
#[derive(Debug)]
pub struct Button {
    pub body: Widget,
    pub text: Widget,
}

/// The text widget of a button as it is applied: placed at the left of a body that
/// surrounds its children, and under the body.
pub open spec fn button_text_for(text: WidgetView, body: WidgetView) -> WidgetView {
    let t = if body.size.0 == Sizing::SurroundChildren {
        WidgetView { position: (Positioning::Constant, text.position.1), ..text }
    } else {
        text
    };
    WidgetView { parent_id: Some(body.id), ..t }
}

impl Button {
    /// Whether the button was clicked since the tree's events were last reset.
    pub fn clicked(&self, gui: &GUI) -> (r: bool)
        ensures
            r == (gui@.events_by_widget.contains_key(self.body@.id.0) && has_click(
                gui@.events_by_widget[self.body@.id.0],
            )),
    {
        let events = gui.events_for(&self.body);
        let mut i: usize = 0;
        while i < events.len()
            invariant
                i <= events@.len(),
                gui@.events_by_widget.contains_key(self.body@.id.0) ==> crate::gui::events_view(events@)
                    == gui@.events_by_widget[self.body@.id.0],
                !gui@.events_by_widget.contains_key(self.body@.id.0) ==> events@.len() == 0,
                forall|j: int|
                    0 <= j < i ==> !((#[trigger] events@[j])@ matches UIEventView::WidgetEvent {
                        event: WidgetEvent::ButtonClicked(_),
                        ..
                    }),
            decreases events.len() - i,
        {
            if let UIEvent::WidgetEvent { event: WidgetEvent::ButtonClicked(_), .. } = &events[i] {
                proof {
                    if gui@.events_by_widget.contains_key(self.body@.id.0) {
                        let evs = gui@.events_by_widget[self.body@.id.0];
                        assert(evs[i as int] == events@[i as int]@);
                    }
                }
                return true;
            }
            i = i + 1;
        }
        proof {
            if gui@.events_by_widget.contains_key(self.body@.id.0) {
                let evs = gui@.events_by_widget[self.body@.id.0];
                assert forall|j: int| 0 <= j < evs.len() implies !(#[trigger] evs[j] matches UIEventView::WidgetEvent {
                    event: WidgetEvent::ButtonClicked(_),
                    ..
                }) by {
                }
            }
        }
        false
    }

    /// Applies the button: its body first, then its text under the body, placed at the
    /// body's left if the body surrounds its children.
    pub fn reapply(&mut self, gui: &mut GUI)
        requires
            can_reapply(old(gui)@, old(self).body@),
            can_reapply(
                reapply_result(old(gui)@, old(self).body@).0,
                button_text_for(old(self).text@, reapply_result(old(gui)@, old(self).body@).1),
            ),
        ensures
            ({
                let (g1, b1) = reapply_result(old(gui)@, old(self).body@);
                let (g2, t1) = reapply_result(g1, button_text_for(old(self).text@, b1));
                &&& final(gui)@ == g2
                &&& final(self).body@ == b1
                &&& final(self).text@ == t1
            }),
    {
        if self.body.size[0] == Sizing::SurroundChildren {
            self.text.position[0] = Positioning::Constant;
        }
        self.body.reapply(gui);
        self.text.parent_id = Some(self.body.id);
        self.text.reapply(gui);
    }
}

/// The body of a button showing `widget_type`: a border of width two on all sides,
/// as large as its contents, carrying the inherent callback of identifier
/// `callback_id` (the button's own reaction to the mouse), and consuming mouse
/// presses and releases.
pub open spec fn button_body_view(widget_type: WidgetTypeView, callback_id: u32) -> WidgetView {
    WidgetView {
        widget_type,
        size: (Sizing::SurroundChildren, Sizing::SurroundChildren),
        callbacks: seq![WidgetCallbackRef::new_spec(callback_id, true)],
        event_consumption: EventConsumption::EventTypes((1u32 << 0u32) | (1u32 << 1u32)),
        ..plain_window(2)
    }
}

impl Button {
    /// The body of a button showing `widget_type`, with the button's own callback of
    /// identifier `callback_id`.
    pub fn create_custom_body(widget_type: WidgetType, callback_id: u32) -> (w: Widget)
        ensures
            w@ == button_body_view(widget_type@, callback_id),
    {
        let w = Widget::new(widget_type)
            .border_width(2)
            .size(Sizing::SurroundChildren, Sizing::SurroundChildren)
            .with_inherent_callback(callback_id)
            .only_consume(EventConsumption::mouse_press_and_release());
        proof {
            assert(w@.callbacks =~= seq![WidgetCallbackRef::new_spec(callback_id, true)]);
        }
        w
    }

    /// A button made of an image alone, sized by the image, with the button's own
    /// callback of identifier `callback_id`.
    pub fn image_button(image: String, callback_id: u32) -> (w: Widget)
        ensures
            w@ == (WidgetView {
                size: (Sizing::Derived, Sizing::Derived),
                ..button_body_view(
                    WidgetTypeView::Window { image: Some(image@), segment: ImageSegmentation::Unsegmented },
                    callback_id,
                )
            }),
    {
        Button::create_custom_body(WidgetType::image(image), callback_id).size(Sizing::derived(), Sizing::derived())
    }
}

/// The values of a list of widgets.
pub open spec fn widget_views(ws: Seq<Widget>) -> Seq<WidgetView> {
    ws.map_values(|w: Widget| w@)
}

/// The tree and the widgets after each of `ws`, first to last, is put under
/// `parent` and reapplied; `None` when one of them cannot be.
pub open spec fn reapplied_under(g: GUIView, ws: Seq<WidgetView>, parent: Wid) -> Option<(GUIView, Seq<WidgetView>)>
    decreases ws.len(),
{
    if ws.len() == 0 {
        Some((g, Seq::empty()))
    } else {
        let w = WidgetView { parent_id: Some(parent), ..ws[0] };
        if can_reapply(g, w) {
            let (g1, w1) = reapply_result(g, w);
            match reapplied_under(g1, ws.drop_first(), parent) {
                Some(r) => Some((r.0, seq![w1] + r.1)),
                None => None,
            }
        } else {
            None
        }
    }
}

/// Puts each of `ws`, first to last, under `parent` and reapplies it.
pub fn reapply_widgets_under(ws: &mut Vec<Widget>, parent: Wid, gui: &mut GUI)
    requires
        reapplied_under(old(gui)@, widget_views(old(ws)@), parent) is Some,
    ensures
        (final(gui)@, widget_views(final(ws)@)) == reapplied_under(old(gui)@, widget_views(old(ws)@), parent).unwrap(),
{
    let ghost all = widget_views(ws@);
    let ghost target = reapplied_under(gui@, all, parent).unwrap();
    let n = ws.len();
    assert(all.subrange(0, n as int) =~= all);
    let mut i: usize = 0;
    while i < n
        invariant
            n == ws@.len(),
            n == all.len(),
            i <= n,
            widget_views(ws@).subrange(i as int, n as int) == all.subrange(i as int, n as int),
            reapplied_under(gui@, all.subrange(i as int, n as int), parent) is Some,
            reapplied_under(gui@, all.subrange(i as int, n as int), parent).unwrap().0 == target.0,
            widget_views(ws@).subrange(0, i as int) + reapplied_under(gui@, all.subrange(i as int, n as int), parent).unwrap().1
                == target.1,
        decreases n - i,
    {
        let ghost rest = all.subrange(i as int, n as int);
        let ghost before = ws@;
        let mut w = ws.remove(i);
        w.set_parent_id(parent);
        w.reapply(gui);
        ws.insert(i, w);
        proof {
            assert(rest.drop_first() =~= all.subrange(i + 1, n as int));
            let r_next = reapplied_under(gui@, all.subrange(i + 1, n as int), parent).unwrap();
            assert(widget_views(ws@).subrange(0, i + 1) + r_next.1 =~= widget_views(before).subrange(0, i as int) + (seq![w@] + r_next.1));
        }
        i = i + 1;
    }
}

/// The values of a list of buttons: each body and text.
pub open spec fn button_views(bs: Seq<Button>) -> Seq<(WidgetView, WidgetView)> {
    bs.map_values(|b: Button| (b.body@, b.text@))
}

/// The tree, body and text after a button with the given body and text is
/// reapplied; `None` when it cannot be.
pub open spec fn button_reapplied(g: GUIView, body: WidgetView, text: WidgetView) -> Option<(GUIView, WidgetView, WidgetView)> {
    if can_reapply(g, body) && can_reapply(
        reapply_result(g, body).0,
        button_text_for(text, reapply_result(g, body).1),
    ) {
        let (g1, b1) = reapply_result(g, body);
        let (g2, t1) = reapply_result(g1, button_text_for(text, b1));
        Some((g2, b1, t1))
    } else {
        None
    }
}

/// The tree and the buttons after each of `bs`, first to last, is put under
/// `parent` and reapplied; `None` when one of them cannot be.
pub open spec fn buttons_reapplied_under(g: GUIView, bs: Seq<(WidgetView, WidgetView)>, parent: Wid) -> Option<
    (GUIView, Seq<(WidgetView, WidgetView)>),
>
    decreases bs.len(),
{
    if bs.len() == 0 {
        Some((g, Seq::empty()))
    } else {
        match button_reapplied(g, WidgetView { parent_id: Some(parent), ..bs[0].0 }, bs[0].1) {
            Some((g1, b1, t1)) => match buttons_reapplied_under(g1, bs.drop_first(), parent) {
                Some(r) => Some((r.0, seq![(b1, t1)] + r.1)),
                None => None,
            },
            None => None,
        }
    }
}

/// Puts each of `bs`, first to last, under `parent` and reapplies it.
pub fn reapply_buttons_under(bs: &mut Vec<Button>, parent: Wid, gui: &mut GUI)
    requires
        buttons_reapplied_under(old(gui)@, button_views(old(bs)@), parent) is Some,
    ensures
        (final(gui)@, button_views(final(bs)@)) == buttons_reapplied_under(old(gui)@, button_views(old(bs)@), parent).unwrap(),
{
    let ghost all = button_views(bs@);
    let ghost target = buttons_reapplied_under(gui@, all, parent).unwrap();
    let n = bs.len();
    assert(all.subrange(0, n as int) =~= all);
    let mut i: usize = 0;
    while i < n
        invariant
            n == bs@.len(),
            n == all.len(),
            i <= n,
            button_views(bs@).subrange(i as int, n as int) == all.subrange(i as int, n as int),
            buttons_reapplied_under(gui@, all.subrange(i as int, n as int), parent) is Some,
            buttons_reapplied_under(gui@, all.subrange(i as int, n as int), parent).unwrap().0 == target.0,
            button_views(bs@).subrange(0, i as int) + buttons_reapplied_under(gui@, all.subrange(i as int, n as int), parent).unwrap().1
                == target.1,
        decreases n - i,
    {
        let ghost rest = all.subrange(i as int, n as int);
        let ghost before = bs@;
        let mut b = bs.remove(i);
        b.body.set_parent_id(parent);
        b.reapply(gui);
        bs.insert(i, b);
        proof {
            assert(rest.drop_first() =~= all.subrange(i + 1, n as int));
            let r_next = buttons_reapplied_under(gui@, all.subrange(i + 1, n as int), parent).unwrap();
            assert(button_views(bs@).subrange(0, i + 1) + r_next.1 =~= button_views(before).subrange(0, i as int) + (
            seq![(b.body@, b.text@)] + r_next.1));
        }
        i = i + 1;
    }
}

/// Forgets each of the widgets in `ids`.
pub fn remove_widgets(ids: &Vec<Wid>, gui: &mut GUI)
    ensures
        final(gui)@ == after_removing(old(gui)@, wid_keys(ids@)),
{
    let ghost g0 = gui@;
    let mut i: usize = 0;
    proof {
        assert(wid_keys(ids@.subrange(0, 0)) =~= Set::<usize>::empty());
        let e = after_removing(g0, Set::<usize>::empty());
        assert(e.nodes =~= g0.nodes);
        assert(e.events_by_widget =~= g0.events_by_widget);
        assert(e.modified =~= g0.modified);
        assert(e.top_level =~= g0.top_level);
    }
    while i < ids.len()
        invariant
            i <= ids@.len(),
            gui@ == after_removing(g0, wid_keys(ids@.subrange(0, i as int))),
        decreases ids.len() - i,
    {
        let ghost before = wid_keys(ids@.subrange(0, i as int));
        gui.remove_widget_by_id(ids[i]);
        proof {
            lemma_after_removing_twice(g0, before, set![ids@[i as int].0]);
            let prev = ids@.subrange(0, i as int);
            assert(ids@.subrange(0, i + 1) =~= prev.push(ids@[i as int]));
            assert(prev.push(ids@[i as int]).map_values(|c: Wid| c.0) =~= prev.map_values(|c: Wid| c.0).push(ids@[i as int].0));
            prev.map_values(|c: Wid| c.0).lemma_push_to_set_commute(ids@[i as int].0);
            assert(wid_keys(ids@.subrange(0, i + 1)) =~= before.union(set![ids@[i as int].0]));
        }
        i = i + 1;
    }
    assert(ids@.subrange(0, ids@.len() as int) =~= ids@);
}

/// The state a tab widget starts with: its buttons and tabs, and the first tab
/// active if there is one.
pub open spec fn initial_tab_state(buttons: Seq<(WidgetView, WidgetView)>, tabs: Seq<WidgetView>) -> WidgetStateView {
    WidgetStateView::Tab {
        active_tab: if tabs.len() == 0 { None } else { Some(0u32) },
        tabs: tabs.map_values(|t: WidgetView| t.id),
        tab_buttons: buttons.map_values(|b: (WidgetView, WidgetView)| b.0.id),
    }
}

/// The tree, body, buttons and tabs after a tab widget is reapplied: its body first,
/// then the widgets it dropped are forgotten, its buttons and tabs go under the body
/// and are reapplied, and if the tree has no state for the body yet, the body is
/// reapplied once more with its initial state as override. `None` when a step
/// cannot be made.
pub open spec fn tab_widget_reapplied(
    g: GUIView,
    body: WidgetView,
    buttons: Seq<(WidgetView, WidgetView)>,
    tabs: Seq<WidgetView>,
    to_remove: Seq<Wid>,
) -> Option<(GUIView, WidgetView, Seq<(WidgetView, WidgetView)>, Seq<WidgetView>)> {
    if !can_reapply(g, body) {
        None
    } else {
        let (g1, b1) = reapply_result(g, body);
        let g2 = after_removing(g1, wid_keys(to_remove));
        match buttons_reapplied_under(g2, buttons, b1.id) {
            None => None,
            Some((g3, bs)) => match reapplied_under(g3, tabs, b1.id) {
                None => None,
                Some((g4, ts)) => {
                    if !g4.nodes.contains_key(b1.id.0) || g4.nodes[b1.id.0].state == WidgetStateView::NoState {
                        let b2 = WidgetView { state_override: Some(initial_tab_state(bs, ts)), ..b1 };
                        if can_reapply(g4, b2) {
                            let (g5, b3) = reapply_result(g4, b2);
                            Some((g5, b3, bs, ts))
                        } else {
                            None
                        }
                    } else {
                        Some((g4, b1, bs, ts))
                    }
                },
            },
        }
    }
}

fn button_ids(bs: &Vec<Button>) -> (r: Vec<Wid>)
    ensures
        r@ == button_views(bs@).map_values(|b: (WidgetView, WidgetView)| b.0.id),
{
    let mut r: Vec<Wid> = Vec::new();
    let mut i: usize = 0;
    while i < bs.len()
        invariant
            i <= bs@.len(),
            r@ == button_views(bs@).subrange(0, i as int).map_values(|b: (WidgetView, WidgetView)| b.0.id),
        decreases bs.len() - i,
    {
        r.push(bs[i].body.id);
        i = i + 1;
    }
    r
}

fn widget_ids(ws: &Vec<Widget>) -> (r: Vec<Wid>)
    ensures
        r@ == widget_views(ws@).map_values(|t: WidgetView| t.id),
{
    let mut r: Vec<Wid> = Vec::new();
    let mut i: usize = 0;
    while i < ws.len()
        invariant
            i <= ws@.len(),
            r@ == widget_views(ws@).subrange(0, i as int).map_values(|t: WidgetView| t.id),
        decreases ws.len() - i,
    {
        r.push(ws[i].id);
        i = i + 1;
    }
    r
}

impl Button {
    /// Shows `text` on the button.
    pub fn set_text(&mut self, text: String)
        ensures
            final(self).body@ == old(self).body@,
            match old(self).text@.widget_type {
                WidgetTypeView::Text { font_size, .. } => final(self).text@ == (WidgetView {
                    widget_type: WidgetTypeView::Text { text: text@, font_size },
                    ..old(self).text@
                }),
                _ => final(self).text@ == old(self).text@,
            },
    {
        self.text.widget_type.set_text(text);
    }

    /// Shows the button's text in the given font size.
    pub fn set_font_size(&mut self, size: u32)
        ensures
            final(self).body@ == old(self).body@,
            match old(self).text@.widget_type {
                WidgetTypeView::Text { text, .. } => final(self).text@ == (WidgetView {
                    widget_type: WidgetTypeView::Text { text, font_size: size },
                    ..old(self).text@
                }),
                _ => final(self).text@ == old(self).text@,
            },
    {
        self.text.widget_type.set_font_size(size);
    }

    /// The button with its text placed by `x` and `y` inside the body.
    pub fn text_position(self, x: Positioning, y: Positioning) -> (r: Button)
        ensures
            r.body@ == self.body@,
            r.text@ == (WidgetView { position: (x, y), ..self.text@ }),
    {
        let mut b = self;
        b.text.position = [x, y];
        b
    }
}

/// A framed piece of text: a body, and the text inside it.
#[derive(Debug)]
pub struct TextDisplayWidget {
    pub body: Widget,
    pub text: Widget,
}

impl TextDisplayWidget {
    /// A framed text: a body showing `image` with `segment`, with a border of width
    /// one and as large as its contents, and inside it the text in `font_size`, sized
    /// by the text.
    pub fn new(text: String, font_size: u32, image: Option<String>, segment: ImageSegmentation) -> (d: TextDisplayWidget)
        ensures
            d.body@ == (WidgetView {
                widget_type: WidgetTypeView::Window { image: crate::widgets::opt_str_view(image), segment },
                size: (Sizing::SurroundChildren, Sizing::SurroundChildren),
                ..plain_window(1)
            }),
            d.text@ == (WidgetView {
                widget_type: WidgetTypeView::Text { text: text@, font_size },
                size: (Sizing::Derived, Sizing::Derived),
                parent_id: Some(Wid(0)),
                ..plain_window(0)
            }),
    {
        let body = Widget::new(WidgetType::Window { image, segment })
            .border_width(1)
            .size(Sizing::SurroundChildren, Sizing::SurroundChildren);
        let text = Widget::new(WidgetType::text(text, font_size))
            .size(Sizing::Derived, Sizing::Derived)
            .parent(&body);
        proof {
            assert(body@.callbacks =~= Seq::empty());
            assert(text@.callbacks =~= Seq::empty());
        }
        TextDisplayWidget { body, text }
    }

    /// The display with its text centred horizontally.
    pub fn centered_text(self) -> (d: TextDisplayWidget)
        ensures
            d.body@ == self.body@,
            d.text@ == (WidgetView {
                position: (Positioning::CenteredInParent, self.text@.position.1),
                ..self.text@
            }),
    {
        let mut d = self;
        d.center_text_horizontally();
        d
    }
}

impl TextDisplayWidget {
    /// Applies the body and then the text, under the body.
    pub fn reapply(&mut self, gui: &mut GUI)
        requires
            can_reapply(old(gui)@, old(self).body@),
            can_reapply(
                reapply_result(old(gui)@, old(self).body@).0,
                WidgetView { parent_id: Some(reapply_result(old(gui)@, old(self).body@).1.id), ..old(self).text@ },
            ),
        ensures
            ({
                let (g1, b1) = reapply_result(old(gui)@, old(self).body@);
                let (g2, t1) = reapply_result(g1, WidgetView { parent_id: Some(b1.id), ..old(self).text@ });
                &&& final(gui)@ == g2
                &&& final(self).body@ == b1
                &&& final(self).text@ == t1
            }),
    {
        self.body.reapply(gui);
        self.text.parent_id = Some(self.body.id);
        self.text.reapply(gui);
    }

    /// Centres the text horizontally in the body.
    pub fn center_text_horizontally(&mut self)
        ensures
            final(self).body@ == old(self).body@,
            final(self).text@ == (WidgetView {
                position: (Positioning::CenteredInParent, old(self).text@.position.1),
                ..old(self).text@
            }),
    {
        self.text.position[0] = Positioning::CenteredInParent;
    }

    /// Shows `text`.
    pub fn set_text(&mut self, text: String)
        ensures
            final(self).body@ == old(self).body@,
            match old(self).text@.widget_type {
                WidgetTypeView::Text { font_size, .. } => final(self).text@ == (WidgetView {
                    widget_type: WidgetTypeView::Text { text: text@, font_size },
                    ..old(self).text@
                }),
                _ => final(self).text@ == old(self).text@,
            },
    {
        self.text.widget_type.set_text(text);
    }

    /// Shows the text in the given font size.
    pub fn set_font_size(&mut self, size: u32)
        ensures
            final(self).body@ == old(self).body@,
            match old(self).text@.widget_type {
                WidgetTypeView::Text { text, .. } => final(self).text@ == (WidgetView {
                    widget_type: WidgetTypeView::Text { text, font_size: size },
                    ..old(self).text@
                }),
                _ => final(self).text@ == old(self).text@,
            },
    {
        self.text.widget_type.set_font_size(size);
    }
}

/// The titles of a tab widget as text.
pub open spec fn title_views(titles: Seq<String>) -> Seq<Seq<char>> {
    titles.map_values(|t: String| t@)
}

/// The first position of `name` among `titles`.
pub open spec fn first_title_index(titles: Seq<Seq<char>>, name: Seq<char>) -> int {
    choose|i: int| 0 <= i < titles.len() && titles[i] == name && forall|j: int| 0 <= j < i ==> titles[j] != name
}

/// A tab widget: a body, one tab per title, and a row of buttons that switch tabs.
#[derive(Debug)]
pub struct TabWidget {
    pub body: Widget,
    pub tab_titles: Vec<String>,
    pub tabs: Vec<Widget>,
    pub tab_buttons: Vec<Button>,
    pub to_remove: Vec<Wid>,
}

impl TabWidget {
    /// The position of the active tab, as the tree records it for the tab widget.
    pub fn active_tab(&self, gui: &GUI) -> (r: Option<u32>)
        ensures
            gui@.nodes.contains_key(self.body@.id.0) ==> match gui@.nodes[self.body@.id.0].state {
                WidgetStateView::Tab { active_tab, .. } => r == active_tab,
                _ => r is None,
            },
            !gui@.nodes.contains_key(self.body@.id.0) ==> r is None,
    {
        match gui.widget_state(self.body.id) {
            WidgetState::Tab { active_tab, .. } => active_tab,
            _ => None,
        }
    }

    /// Reapplies the tab widget: its body first, then the widgets it dropped are
    /// forgotten, its buttons and tabs go under the body and are reapplied, and if
    /// the tree has no state for the body yet, the body takes its initial state.
    pub fn reapply_all(&mut self, gui: &mut GUI)
        requires
            tab_widget_reapplied(
                old(gui)@,
                old(self).body@,
                button_views(old(self).tab_buttons@),
                widget_views(old(self).tabs@),
                old(self).to_remove@,
            ) is Some,
        ensures
            ({
                let r = tab_widget_reapplied(
                    old(gui)@,
                    old(self).body@,
                    button_views(old(self).tab_buttons@),
                    widget_views(old(self).tabs@),
                    old(self).to_remove@,
                ).unwrap();
                &&& final(gui)@ == r.0
                &&& final(self).body@ == r.1
                &&& button_views(final(self).tab_buttons@) == r.2
                &&& widget_views(final(self).tabs@) == r.3
                &&& final(self).to_remove@.len() == 0
                &&& final(self).tab_titles@ == old(self).tab_titles@
            }),
    {
        self.body.reapply(gui);
        remove_widgets(&self.to_remove, gui);
        self.to_remove.clear();
        let body_id = self.body.id;
        reapply_buttons_under(&mut self.tab_buttons, body_id, gui);
        reapply_widgets_under(&mut self.tabs, body_id, gui);
        let state = gui.widget_state(body_id);
        if let WidgetState::NoState = state {
            let tab_buttons = button_ids(&self.tab_buttons);
            let tabs = widget_ids(&self.tabs);
            let active_tab = if self.tabs.len() == 0 { None } else { Some(0u32) };
            self.body.state_override = Some(WidgetState::Tab { tab_buttons, tabs, active_tab });
            self.body.reapply(gui);
        }
    }

    /// The tab under the first title equal to `name`.
    pub fn tab_named(&self, name: &String) -> (w: &Widget)
        requires
            title_views(self.tab_titles@).contains(name@),
            first_title_index(title_views(self.tab_titles@), name@) < self.tabs@.len(),
        ensures
            *w == self.tabs@[first_title_index(title_views(self.tab_titles@), name@)],
    {
        let mut i: usize = 0;
        while i < self.tab_titles.len()
            invariant
                i <= self.tab_titles@.len(),
                title_views(self.tab_titles@).contains(name@),
                first_title_index(title_views(self.tab_titles@), name@) < self.tabs@.len(),
                forall|j: int| 0 <= j < i ==> title_views(self.tab_titles@)[j] != name@,
            decreases self.tab_titles.len() - i,
        {
            if crate::events::same_text(&self.tab_titles[i], name) {
                proof {
                    let t = title_views(self.tab_titles@);
                    let k = first_title_index(t, name@);
                    assert(t[i as int] == name@);
                    assert(k == i);
                }
                return self.tab_at_index(i);
            }
            i = i + 1;
        }
        proof {
            let t = title_views(self.tab_titles@);
            let k = choose|k: int| 0 <= k < t.len() && t[k] == name@;
            assert(t[k] == name@);
            assert(false);
        }
        &self.tabs[0]
    }

    /// The tab at position `i`.
    pub fn tab_at_index(&self, i: usize) -> (w: &Widget)
        requires
            i < self.tabs@.len(),
        ensures
            *w == self.tabs@[i as int],
    {
        &self.tabs[i]
    }
}

/// A tab button as `set_tabs` adds it: a copy of the tab button archetype, neither
/// part registered yet, its text centred in the body.
pub open spec fn copied_tab_button(arch: (WidgetView, WidgetView)) -> (WidgetView, WidgetView) {
    (
        WidgetView { id: Wid(0), ..arch.0 },
        WidgetView {
            id: Wid(0),
            position: (Positioning::CenteredInParent, Positioning::CenteredInParent),
            ..arch.1
        },
    )
}

/// A tab as `set_tabs` adds it at position `i`: an unregistered, borderless window
/// below the tab bar that fills the rest of the body, shown only if it is the first.
pub open spec fn added_tab(i: int) -> WidgetView {
    WidgetView {
        name: None,
        callbacks: Seq::empty(),
        id: Wid(0),
        parent_id: None,
        widget_type: WidgetTypeView::Window { image: None, segment: ImageSegmentation::Unsegmented },
        size: (Sizing::PcntOfParent, Sizing::DeltaOfParent),
        position: (Positioning::Constant, Positioning::Constant),
        alignment: (Alignment::Left, Alignment::Top),
        border: Border { width: 0, sides: BorderSides(0xffu8) },
        showing: i == 0,
        accepts_focus: false,
        ignores_parent_bounds: false,
        draw_layer: GUILayer::Main,
        state_override: None,
        event_consumption: EventConsumption::EventTypes(0u32),
        tooltip: None,
    }
}

/// The `i`-th button of a tab bar: its body placed along the bar at a share of its
/// width, as high as the bar, with a border of width one on its left and bottom, or
/// on no side for the first button.
pub open spec fn tab_bar_button(b: (WidgetView, WidgetView), i: int) -> (WidgetView, WidgetView) {
    (
        WidgetView {
            position: (Positioning::PcntOfParent, Positioning::Constant),
            size: (Sizing::PcntOfParent, Sizing::Constant),
            border: Border {
                width: 1,
                sides: if i != 0 {
                    BorderSides(side_flag(Alignment::Left) | side_flag(Alignment::Bottom))
                } else {
                    BorderSides(0u8)
                },
            },
            ..b.0
        },
        b.1,
    )
}

/// The button showing `title` as its text; a button whose text part is a window is
/// left as it is.
pub open spec fn retitled_button(b: (WidgetView, WidgetView), title: Seq<char>) -> (WidgetView, WidgetView) {
    (
        b.0,
        match b.1.widget_type {
            WidgetTypeView::Text { font_size, .. } => WidgetView {
                widget_type: WidgetTypeView::Text { text: title, font_size },
                ..b.1
            },
            _ => b.1,
        },
    )
}

/// The tab buttons after the titles `old_titles` are set to `titles`: when the number
/// of titles changes, the buttons past the new number go, copies of `arch` fill up to
/// it, and every button takes its place in the bar; when the titles change, each
/// button shows the title at its position.
pub open spec fn tab_buttons_after(
    bs: Seq<(WidgetView, WidgetView)>,
    arch: (WidgetView, WidgetView),
    old_titles: Seq<Seq<char>>,
    titles: Seq<Seq<char>>,
) -> Seq<(WidgetView, WidgetView)> {
    let laid = if titles.len() != old_titles.len() {
        Seq::new(
            titles.len(),
            |i: int| tab_bar_button(if i < bs.len() { bs[i] } else { copied_tab_button(arch) }, i),
        )
    } else {
        bs
    };
    if titles != old_titles {
        Seq::new(laid.len(), |i: int| if i < titles.len() { retitled_button(laid[i], titles[i]) } else { laid[i] })
    } else {
        laid
    }
}

/// The tabs after the number of titles goes from `old_count` to `count`: when it
/// changes, the tabs past the new number go and new tabs fill up to it.
pub open spec fn tabs_after(ts: Seq<WidgetView>, old_count: nat, count: nat) -> Seq<WidgetView> {
    if count != old_count {
        Seq::new(count, |i: int| if i < ts.len() { ts[i] } else { added_tab(i) })
    } else {
        ts
    }
}

/// The identifiers of `ids` past position `n`, last first.
pub open spec fn ids_past_from_last(ids: Seq<Wid>, n: int) -> Seq<Wid> {
    if ids.len() > n {
        Seq::new((ids.len() - n) as nat, |k: int| ids[ids.len() - 1 - k])
    } else {
        Seq::empty()
    }
}

/// The widgets to forget after the number of titles goes from `old_count` to
/// `count`: when it changes, the buttons past the new number, last first, then the
/// tabs past it, last first, join the ones already waiting.
pub open spec fn removed_after_retabbing(
    to_remove: Seq<Wid>,
    bs: Seq<(WidgetView, WidgetView)>,
    ts: Seq<WidgetView>,
    old_count: nat,
    count: nat,
) -> Seq<Wid> {
    if count != old_count {
        to_remove + ids_past_from_last(bs.map_values(|b: (WidgetView, WidgetView)| b.0.id), count as int)
            + ids_past_from_last(ts.map_values(|t: WidgetView| t.id), count as int)
    } else {
        to_remove
    }
}

fn pop_buttons_past(bs: &mut Vec<Button>, n: usize, removed: &mut Vec<Wid>)
    ensures
        button_views(final(bs)@) == (if old(bs)@.len() > n {
            button_views(old(bs)@).take(n as int)
        } else {
            button_views(old(bs)@)
        }),
        final(removed)@ == old(removed)@ + ids_past_from_last(
            button_views(old(bs)@).map_values(|b: (WidgetView, WidgetView)| b.0.id),
            n as int,
        ),
{
    let ghost orig = bs@;
    let ghost ids = button_views(orig).map_values(|b: (WidgetView, WidgetView)| b.0.id);
    let ghost start = removed@;
    let ghost len0 = orig.len();
    while bs.len() > n
        invariant
            bs@.len() <= len0,
            len0 > n ==> bs@.len() >= n,
            len0 <= n ==> bs@.len() == len0,
            bs@ == orig.take(bs@.len() as int),
            len0 == orig.len(),
            ids == button_views(orig).map_values(|b: (WidgetView, WidgetView)| b.0.id),
            removed@ == start + Seq::new((len0 - bs@.len()) as nat, |k: int| ids[len0 - 1 - k]),
        decreases bs.len(),
    {
        let ghost l = bs@.len();
        let b = bs.pop().unwrap();
        removed.push(b.body.id);
        proof {
            assert(b == orig[l - 1]);
            assert(ids[l - 1] == b.body.id);
            assert(bs@ =~= orig.take(l - 1));
            assert(Seq::new((len0 - (l - 1)) as nat, |k: int| ids[len0 - 1 - k]) =~= Seq::new(
                (len0 - l) as nat,
                |k: int| ids[len0 - 1 - k],
            ).push(ids[l - 1]));
        }
    }
    proof {
        if len0 > n {
            assert(button_views(bs@) =~= button_views(orig).take(n as int));
        } else {
            assert(bs@ =~= orig);
            assert(Seq::new((len0 - bs@.len()) as nat, |k: int| ids[len0 - 1 - k]) =~= Seq::<Wid>::empty());
            assert(removed@ =~= start);
        }
    }
}

fn pop_widgets_past(ws: &mut Vec<Widget>, n: usize, removed: &mut Vec<Wid>)
    ensures
        widget_views(final(ws)@) == (if old(ws)@.len() > n {
            widget_views(old(ws)@).take(n as int)
        } else {
            widget_views(old(ws)@)
        }),
        final(removed)@ == old(removed)@ + ids_past_from_last(
            widget_views(old(ws)@).map_values(|t: WidgetView| t.id),
            n as int,
        ),
{
    let ghost orig = ws@;
    let ghost ids = widget_views(orig).map_values(|t: WidgetView| t.id);
    let ghost start = removed@;
    let ghost len0 = orig.len();
    while ws.len() > n
        invariant
            ws@.len() <= len0,
            len0 > n ==> ws@.len() >= n,
            len0 <= n ==> ws@.len() == len0,
            ws@ == orig.take(ws@.len() as int),
            len0 == orig.len(),
            ids == widget_views(orig).map_values(|t: WidgetView| t.id),
            removed@ == start + Seq::new((len0 - ws@.len()) as nat, |k: int| ids[len0 - 1 - k]),
        decreases ws.len(),
    {
        let ghost l = ws@.len();
        let w = ws.pop().unwrap();
        removed.push(w.id);
        proof {
            assert(w == orig[l - 1]);
            assert(ids[l - 1] == w.id);
            assert(ws@ =~= orig.take(l - 1));
            assert(Seq::new((len0 - (l - 1)) as nat, |k: int| ids[len0 - 1 - k]) =~= Seq::new(
                (len0 - l) as nat,
                |k: int| ids[len0 - 1 - k],
            ).push(ids[l - 1]));
        }
    }
    proof {
        if len0 > n {
            assert(widget_views(ws@) =~= widget_views(orig).take(n as int));
        } else {
            assert(ws@ =~= orig);
            assert(Seq::new((len0 - ws@.len()) as nat, |k: int| ids[len0 - 1 - k]) =~= Seq::<Wid>::empty());
            assert(removed@ =~= start);
        }
    }
}

fn copy_tab_button(arch: &Button) -> (b: Button)
    ensures
        (b.body@, b.text@) == copied_tab_button((arch.body@, arch.text@)),
{
    let mut body = arch.body.duplicate();
    body.clear_id();
    let mut text = arch.text.duplicate();
    text.clear_id();
    text.position = [Positioning::CenteredInParent, Positioning::CenteredInParent];
    Button { body, text }
}

fn new_tab(i: usize) -> (w: Widget)
    ensures
        w@ == added_tab(i as int),
{
    let mut w = Widget::new(WidgetType::window());
    w.border = Border { width: 0, sides: BorderSides::all() };
    w.position = [Positioning::origin(), Positioning::Constant];
    w.size = [Sizing::match_parent(), Sizing::DeltaOfParent];
    w.showing = i == 0;
    assert(w@.callbacks =~= Seq::empty());
    w
}

fn lay_out_tab_button(b: &mut Button, i: usize)
    ensures
        (final(b).body@, final(b).text@) == tab_bar_button((old(b).body@, old(b).text@), i as int),
{
    let sides = if i != 0 {
        BorderSides::two_sides(Alignment::Left, Alignment::Bottom)
    } else {
        BorderSides::none()
    };
    b.body.position = [Positioning::PcntOfParent, Positioning::origin()];
    b.body.size = [Sizing::PcntOfParent, Sizing::Constant];
    b.body.border = Border { width: 1, sides };
}

fn same_titles(a: &Vec<String>, b: &Vec<String>) -> (r: bool)
    ensures
        r == (title_views(a@) == title_views(b@)),
{
    if a.len() != b.len() {
        proof {
            assert(title_views(a@).len() != title_views(b@).len());
        }
        return false;
    }
    let mut i: usize = 0;
    while i < a.len()
        invariant
            a@.len() == b@.len(),
            i <= a@.len(),
            forall|j: int| 0 <= j < i ==> title_views(a@)[j] == title_views(b@)[j],
        decreases a.len() - i,
    {
        if !crate::events::same_text(&a[i], &b[i]) {
            proof {
                assert(title_views(a@)[i as int] != title_views(b@)[i as int]);
            }
            return false;
        }
        i = i + 1;
    }
    proof {
        assert(title_views(a@) =~= title_views(b@));
    }
    true
}

impl TabWidget {
    /// Brings the bar and the tabs to `n` entries: drops the buttons and then the tabs
    /// past `n`, last first, queueing them to be forgotten; fills up with copies of
    /// `arch` and with new tabs; places every button in the bar.
    fn resize_tab_bar(&mut self, n: usize, arch: &Button)
        ensures
            button_views(final(self).tab_buttons@) == Seq::new(
                n as nat,
                |i: int|
                    tab_bar_button(
                        if i < old(self).tab_buttons@.len() {
                            button_views(old(self).tab_buttons@)[i]
                        } else {
                            copied_tab_button((arch.body@, arch.text@))
                        },
                        i,
                    ),
            ),
            widget_views(final(self).tabs@) == Seq::new(
                n as nat,
                |i: int| if i < old(self).tabs@.len() { widget_views(old(self).tabs@)[i] } else { added_tab(i) },
            ),
            final(self).to_remove@ == old(self).to_remove@ + ids_past_from_last(
                button_views(old(self).tab_buttons@).map_values(|b: (WidgetView, WidgetView)| b.0.id),
                n as int,
            ) + ids_past_from_last(widget_views(old(self).tabs@).map_values(|t: WidgetView| t.id), n as int),
            final(self).body == old(self).body,
            final(self).tab_titles == old(self).tab_titles,
    {
        let ghost arch_v = (arch.body@, arch.text@);
        pop_buttons_past(&mut self.tab_buttons, n, &mut self.to_remove);
        pop_widgets_past(&mut self.tabs, n, &mut self.to_remove);
        let ghost bs0 = button_views(old(self).tab_buttons@);
        let ghost ts0 = widget_views(old(self).tabs@);
        let ghost base = button_views(self.tab_buttons@);
        let ghost tabs1 = self.tabs@;
        let ghost removed1 = self.to_remove@;
        assert(base.len() == self.tab_buttons@.len());
        assert(base.len() <= n);
        while self.tab_buttons.len() < n
            invariant
                base.len() <= n,
                bs0.len() > n ==> base == bs0.take(n as int),
                bs0.len() <= n ==> base == bs0,
                base.len() <= self.tab_buttons@.len() <= n,
                button_views(self.tab_buttons@) == Seq::new(
                    self.tab_buttons@.len(),
                    |i: int| if i < base.len() { base[i] } else { copied_tab_button(arch_v) },
                ),
                arch_v == (arch.body@, arch.text@),
                self.tabs@ == tabs1,
                self.to_remove@ == removed1,
                self.body == old(self).body,
                self.tab_titles == old(self).tab_titles,
            decreases n - self.tab_buttons.len(),
        {
            let ghost before = button_views(self.tab_buttons@);
            let b = copy_tab_button(arch);
            self.tab_buttons.push(b);
            proof {
                assert(button_views(self.tab_buttons@) =~= before.push(copied_tab_button(arch_v)));
                assert(button_views(self.tab_buttons@) =~= Seq::new(
                    self.tab_buttons@.len(),
                    |i: int| if i < base.len() { base[i] } else { copied_tab_button(arch_v) },
                ));
            }
        }
        let ghost buttons2 = self.tab_buttons@;
        let ghost tbase = widget_views(self.tabs@);
        while self.tabs.len() < n
            invariant
                tbase.len() <= n,
                ts0.len() > n ==> tbase == ts0.take(n as int),
                ts0.len() <= n ==> tbase == ts0,
                tbase.len() <= self.tabs@.len() <= n,
                widget_views(self.tabs@) == Seq::new(
                    self.tabs@.len(),
                    |i: int| if i < tbase.len() { tbase[i] } else { added_tab(i) },
                ),
                self.tab_buttons@ == buttons2,
                self.to_remove@ == removed1,
                self.body == old(self).body,
                self.tab_titles == old(self).tab_titles,
            decreases n - self.tabs.len(),
        {
            let ghost before = widget_views(self.tabs@);
            let t = new_tab(self.tabs.len());
            self.tabs.push(t);
            proof {
                assert(widget_views(self.tabs@) =~= before.push(t@));
                assert(widget_views(self.tabs@) =~= Seq::new(
                    self.tabs@.len(),
                    |i: int| if i < tbase.len() { tbase[i] } else { added_tab(i) },
                ));
            }
        }
        proof {
            assert(widget_views(self.tabs@) =~= Seq::new(
                n as nat,
                |i: int| if i < ts0.len() { ts0[i] } else { added_tab(i) },
            ));
        }
        let ghost filled = button_views(self.tab_buttons@);
        let ghost tabs3 = self.tabs@;
        assert(filled =~= Seq::new(
            n as nat,
            |i: int| if i < bs0.len() { bs0[i] } else { copied_tab_button(arch_v) },
        ));
        let mut i: usize = 0;
        while i < n
            invariant
                i <= n,
                self.tab_buttons@.len() == n,
                filled.len() == n,
                button_views(self.tab_buttons@) == Seq::new(
                    n as nat,
                    |j: int| if j < i { tab_bar_button(filled[j], j) } else { filled[j] },
                ),
                self.body == old(self).body,
                self.tab_titles == old(self).tab_titles,
                self.tabs@ == tabs3,
                self.to_remove@ == removed1,
            decreases n - i,
        {
            let ghost before = self.tab_buttons@;
            lay_out_tab_button(&mut self.tab_buttons[i], i);
            proof {
                assert(self.tab_buttons@ == before.update(i as int, self.tab_buttons@[i as int]));
                assert(button_views(before)[i as int] == filled[i as int]);
                assert(button_views(self.tab_buttons@) =~= button_views(before).update(
                    i as int,
                    tab_bar_button(filled[i as int], i as int),
                ));
                assert(button_views(self.tab_buttons@) =~= Seq::new(
                    n as nat,
                    |j: int| if j < i + 1 { tab_bar_button(filled[j], j) } else { filled[j] },
                ));
            }
            i = i + 1;
        }
        proof {
            assert(button_views(self.tab_buttons@) =~= Seq::new(
                n as nat,
                |j: int| tab_bar_button(if j < bs0.len() { bs0[j] } else { copied_tab_button(arch_v) }, j),
            ));
        }
    }
}

impl TabWidget {
    /// Each button shows the title at its position, as far as there are titles.
    fn retitle_buttons(&mut self, titles: &Vec<String>)
        ensures
            button_views(final(self).tab_buttons@) == Seq::new(
                old(self).tab_buttons@.len(),
                |i: int|
                    if i < titles@.len() {
                        retitled_button(button_views(old(self).tab_buttons@)[i], title_views(titles@)[i])
                    } else {
                        button_views(old(self).tab_buttons@)[i]
                    },
            ),
            final(self).body == old(self).body,
            final(self).tab_titles == old(self).tab_titles,
            final(self).tabs == old(self).tabs,
            final(self).to_remove == old(self).to_remove,
    {
        let ghost bs0 = button_views(self.tab_buttons@);
        let ghost ts = title_views(titles@);
        let n = self.tab_buttons.len();
        let mut i: usize = 0;
        while i < n
            invariant
                i <= n,
                n == bs0.len(),
                ts == title_views(titles@),
                self.tab_buttons@.len() == n,
                button_views(self.tab_buttons@) == Seq::new(
                    n as nat,
                    |j: int| if j < i && j < ts.len() { retitled_button(bs0[j], ts[j]) } else { bs0[j] },
                ),
                self.body == old(self).body,
                self.tab_titles == old(self).tab_titles,
                self.tabs == old(self).tabs,
                self.to_remove == old(self).to_remove,
            decreases n - i,
        {
            if i < titles.len() {
                let ghost before = self.tab_buttons@;
                let title = titles[i].clone();
                self.tab_buttons[i].set_text(title);
                proof {
                    assert(self.tab_buttons@ == before.update(i as int, self.tab_buttons@[i as int]));
                    assert(button_views(before)[i as int] == bs0[i as int]);
                    assert(button_views(self.tab_buttons@) =~= button_views(before).update(
                        i as int,
                        retitled_button(bs0[i as int], ts[i as int]),
                    ));
                }
            }
            proof {
                assert(button_views(self.tab_buttons@) =~= Seq::new(
                    n as nat,
                    |j: int| if j < i + 1 && j < ts.len() { retitled_button(bs0[j], ts[j]) } else { bs0[j] },
                ));
            }
            i = i + 1;
        }
        proof {
            assert(button_views(self.tab_buttons@) =~= Seq::new(
                n as nat,
                |j: int| if j < ts.len() { retitled_button(bs0[j], ts[j]) } else { bs0[j] },
            ));
        }
    }

    /// Sets the titles of the tabs. When their number changes, the buttons and then
    /// the tabs past the new number are dropped, last first, and queued to be
    /// forgotten at the next reapply; copies of `tab_button` and new tabs (only the
    /// first of them shown) fill up to it; and every button is placed in the tab bar.
    /// When the titles change, each button shows the title at its position.
    pub fn set_tabs(&mut self, tab_titles: Vec<String>, tab_button: &Button)
        ensures
            final(self).tab_titles@ == tab_titles@,
            button_views(final(self).tab_buttons@) == tab_buttons_after(
                button_views(old(self).tab_buttons@),
                (tab_button.body@, tab_button.text@),
                title_views(old(self).tab_titles@),
                title_views(tab_titles@),
            ),
            widget_views(final(self).tabs@) == tabs_after(
                widget_views(old(self).tabs@),
                old(self).tab_titles@.len(),
                tab_titles@.len(),
            ),
            final(self).to_remove@ == removed_after_retabbing(
                old(self).to_remove@,
                button_views(old(self).tab_buttons@),
                widget_views(old(self).tabs@),
                old(self).tab_titles@.len(),
                tab_titles@.len(),
            ),
            final(self).body == old(self).body,
    {
        let n = tab_titles.len();
        if n != self.tab_titles.len() {
            self.resize_tab_bar(n, tab_button);
        }
        if !same_titles(&tab_titles, &self.tab_titles) {
            self.retitle_buttons(&tab_titles);
            proof {
                assert(title_views(tab_titles@).len() == n);
            }
        }
        proof {
            let o = title_views(old(self).tab_titles@);
            let t = title_views(tab_titles@);
            assert(o.len() == old(self).tab_titles@.len());
            assert(t.len() == n);
        }
        self.tab_titles = tab_titles;
    }
}

/// The body of a new tab widget: a window with a border of width two on all sides,
/// carrying the listener callback of identifier `callback_id`.
pub open spec fn tab_widget_body(callback_id: u32) -> WidgetView {
    WidgetView {
        callbacks: seq![WidgetCallbackRef::new_spec(callback_id, false)],
        border: Border { width: 2, sides: BorderSides(0xffu8) },
        size: (Sizing::Constant, Sizing::Constant),
        ..added_tab(0)
    }
}

impl TabWidget {
    /// A tab widget with one tab per title: its body carries the callback of
    /// identifier `callback_id`, which switches tabs when a button is clicked, and
    /// its buttons are copies of `tab_button`, placed in the tab bar.
    pub fn new(tab_titles: Vec<String>, callback_id: u32, tab_button: &Button) -> (t: TabWidget)
        ensures
            t.body@ == tab_widget_body(callback_id),
            t.tab_titles@ == tab_titles@,
            button_views(t.tab_buttons@) == tab_buttons_after(
                Seq::empty(),
                (tab_button.body@, tab_button.text@),
                Seq::empty(),
                title_views(tab_titles@),
            ),
            widget_views(t.tabs@) == tabs_after(Seq::empty(), 0, tab_titles@.len()),
            t.to_remove@.len() == 0,
    {
        let mut body = Widget::new(WidgetType::window());
        body.border = Border { width: 2, sides: BorderSides::all() };
        let body = body.with_callback(callback_id);
        let mut tab_widget = TabWidget {
            body,
            tab_titles: Vec::new(),
            tabs: Vec::new(),
            tab_buttons: Vec::new(),
            to_remove: Vec::new(),
        };
        proof {
            assert(tab_widget.body@.callbacks =~= seq![WidgetCallbackRef::new_spec(callback_id, false)]);
            assert(title_views(tab_widget.tab_titles@) =~= Seq::empty());
            assert(button_views(tab_widget.tab_buttons@) =~= Seq::empty());
            assert(widget_views(tab_widget.tabs@) =~= Seq::empty());
        }
        tab_widget.set_tabs(tab_titles, tab_button);
        proof {
            if tab_titles@.len() == 0 {
                assert(removed_after_retabbing(Seq::empty(), Seq::empty(), Seq::empty(), 0, 0) =~= Seq::empty());
            } else {
                assert(ids_past_from_last(Seq::<(WidgetView, WidgetView)>::empty().map_values(|b: (WidgetView, WidgetView)| b.0.id), tab_titles@.len() as int) =~= Seq::empty());
                assert(ids_past_from_last(Seq::<WidgetView>::empty().map_values(|t: WidgetView| t.id), tab_titles@.len() as int) =~= Seq::empty());
            }
        }
        tab_widget
    }
}

/// Setting the titles of a tab widget that has one button and one tab per title
/// leaves it with one button and one tab per new title, and the new first tab is the
/// old first tab when there was one, shown when it was added.
pub proof fn lemma_retabbing_keeps_counts(
    bs: Seq<(WidgetView, WidgetView)>,
    ts: Seq<WidgetView>,
    arch: (WidgetView, WidgetView),
    old_titles: Seq<Seq<char>>,
    titles: Seq<Seq<char>>,
)
    requires
        bs.len() == old_titles.len(),
        ts.len() == old_titles.len(),
    ensures
        tab_buttons_after(bs, arch, old_titles, titles).len() == titles.len(),
        tabs_after(ts, old_titles.len(), titles.len()).len() == titles.len(),
        titles.len() > 0 && ts.len() == 0 ==> tabs_after(ts, old_titles.len(), titles.len())[0].showing,
        titles.len() > 0 && ts.len() > 0 ==> tabs_after(ts, old_titles.len(), titles.len())[0] == ts[0],
{
}

/// Which way a list runs.
#[derive(Clone, Copy, PartialEq, Eq, Structural, Debug)]
pub enum Orientation {
    Vertical,
    Horizontal,
}

/// The tree after removing widget `w` with the widgets registered as its
/// children; a widget without identifier leaves the tree as it is. `None` when `w`
/// has an identifier but is not registered.
pub open spec fn removed_widget(g: GUIView, w: WidgetView) -> Option<GUIView> {
    if w.id.0 == 0 {
        Some(g)
    } else if g.nodes.contains_key(w.id.0) {
        Some(after_removing(g, removed_with_children(g.nodes, w.id.0)))
    } else {
        None
    }
}

/// The tree after removing the widgets of `ws`, last to first.
pub open spec fn removed_from_last(g: GUIView, ws: Seq<WidgetView>) -> Option<GUIView>
    decreases ws.len(),
{
    if ws.len() == 0 {
        Some(g)
    } else {
        match removed_widget(g, ws.last()) {
            Some(g1) => removed_from_last(g1, ws.drop_last()),
            None => None,
        }
    }
}

/// The tree and the widgets after each of `ws`, first to last, is reapplied where
/// it is; `None` when one of them cannot be.
pub open spec fn reapplied_each(g: GUIView, ws: Seq<WidgetView>) -> Option<(GUIView, Seq<WidgetView>)>
    decreases ws.len(),
{
    if ws.len() == 0 {
        Some((g, Seq::empty()))
    } else if can_reapply(g, ws[0]) {
        let (g1, w1) = reapply_result(g, ws[0]);
        match reapplied_each(g1, ws.drop_first()) {
            Some(r) => Some((r.0, seq![w1] + r.1)),
            None => None,
        }
    } else {
        None
    }
}

/// A new row of a list: a copy of the row widget under the body, on the body's
/// layer, with a listener callback added and no identifier, placed after the last
/// row along the list's direction (or at the origin when there is no row).
pub open spec fn new_row(
    archetype: WidgetView,
    body: WidgetView,
    rows: Seq<Widget>,
    orientation: Orientation,
    callback_id: u32,
) -> WidgetView {
    let next = if rows.len() > 0 {
        match orientation {
            Orientation::Vertical => Positioning::DeltaOfWidget(rows.last().id, Alignment::Bottom),
            Orientation::Horizontal => Positioning::DeltaOfWidget(rows.last().id, Alignment::Right),
        }
    } else {
        Positioning::Constant
    };
    WidgetView {
        parent_id: Some(body.id),
        draw_layer: body.draw_layer,
        callbacks: archetype.callbacks.push(WidgetCallbackRef::new_spec(callback_id, false)),
        id: Wid(0),
        position: match orientation {
            Orientation::Vertical => (archetype.position.0, next),
            Orientation::Horizontal => (next, archetype.position.1),
        },
        ..archetype
    }
}

/// A new row follows the last row of the list and only the last: along the list's
/// direction it is placed just past that row (below it in a vertical list, right of
/// it in a horizontal one), across it keeps the row widget's placement, and which
/// rows come before the last makes no difference.
pub proof fn lemma_new_row_follows_last(
    archetype: WidgetView,
    body: WidgetView,
    rows: Seq<Widget>,
    other_rows: Seq<Widget>,
    orientation: Orientation,
    callback_id: u32,
)
    requires
        rows.len() > 0,
    ensures
        orientation == Orientation::Vertical ==> new_row(archetype, body, rows, orientation, callback_id).position
            == (archetype.position.0, Positioning::DeltaOfWidget(rows[rows.len() - 1].id, Alignment::Bottom)),
        orientation == Orientation::Horizontal ==> new_row(archetype, body, rows, orientation, callback_id).position
            == (Positioning::DeltaOfWidget(rows[rows.len() - 1].id, Alignment::Right), archetype.position.1),
        other_rows.len() > 0 && other_rows[other_rows.len() - 1].id == rows[rows.len() - 1].id ==> new_row(
            archetype,
            body,
            other_rows,
            orientation,
            callback_id,
        ) == new_row(archetype, body, rows, orientation, callback_id),
        new_row(archetype, body, rows, orientation, callback_id).parent_id == Some(body.id),
        new_row(archetype, body, rows, orientation, callback_id).id == Wid(0),
{
}

/// A list: a body, a row widget that each new row copies, the rows, the rows
/// dropped but not yet removed from the tree, and the data kept for each row.
#[derive(Debug)]
pub struct ListWidget<T> {
    pub body: Widget,
    pub item_archetype: Widget,
    pub child_structs: Vec<T>,
    pub children: Vec<Widget>,
    pub children_to_remove: Vec<Widget>,
    pub orientation: Orientation,
}

/// A plain window: shown, unregistered, at the origin, of constant size, with a
/// border of width `border` on all sides.
pub open spec fn plain_window(border: u8) -> WidgetView {
    WidgetView {
        size: (Sizing::Constant, Sizing::Constant),
        position: (Positioning::Constant, Positioning::Constant),
        border: Border { width: border, sides: BorderSides(0xffu8) },
        showing: true,
        ..added_tab(0)
    }
}

impl<T> ListWidget<T> {
    /// An empty vertical list whose rows copy `item_archetype`, in a window with a
    /// border of width two.
    pub fn custom(item_archetype: Widget) -> (l: ListWidget<T>)
        ensures
            l.body@ == plain_window(2),
            l.item_archetype@ == item_archetype@,
            l.child_structs@.len() == 0,
            l.children@.len() == 0,
            l.children_to_remove@.len() == 0,
            l.orientation == Orientation::Vertical,
    {
        let body = Widget::new(WidgetType::window()).border_width(2);
        proof {
            assert(body@.callbacks =~= Seq::empty());
        }
        ListWidget {
            body,
            item_archetype,
            child_structs: Vec::new(),
            children: Vec::new(),
            children_to_remove: Vec::new(),
            orientation: Orientation::Vertical,
        }
    }

    /// An empty vertical list whose rows are windows with a border of width one,
    /// as wide as the list and as high as their contents.
    pub fn new() -> (l: ListWidget<T>)
        ensures
            l.body@ == plain_window(2),
            l.item_archetype@ == (WidgetView {
                size: (Sizing::PcntOfParent, Sizing::SurroundChildren),
                name: Some("List widget item archetype"@),
                ..plain_window(1)
            }),
            l.child_structs@.len() == 0,
            l.children@.len() == 0,
            l.children_to_remove@.len() == 0,
            l.orientation == Orientation::Vertical,
    {
        let item = Widget::new(WidgetType::window())
            .border_width(1)
            .size(Sizing::match_parent(), Sizing::SurroundChildren)
            .named(String::from_str("List widget item archetype"));
        proof {
            assert(item@.callbacks =~= Seq::empty());
        }
        ListWidget::custom(item)
    }

    /// An empty vertical list whose rows are borderless divisions as wide as the
    /// list and as high as their contents.
    pub fn lightweight() -> (l: ListWidget<T>)
        ensures
            l.body@ == plain_window(2),
            l.item_archetype@ == (WidgetView {
                size: (Sizing::PcntOfParent, Sizing::SurroundChildren),
                ..plain_window(0)
            }),
            l.child_structs@.len() == 0,
            l.children@.len() == 0,
            l.children_to_remove@.len() == 0,
            l.orientation == Orientation::Vertical,
    {
        let item = Widget::new(WidgetType::window()).size(Sizing::PcntOfParent, Sizing::SurroundChildren);
        proof {
            assert(item@.callbacks =~= Seq::empty());
        }
        ListWidget::custom(item)
    }

    /// A lightweight list that only arranges its rows: its body has no border and is
    /// as high as its contents.
    pub fn featherweight() -> (l: ListWidget<T>)
        ensures
            l.body@ == (WidgetView { size: (Sizing::Constant, Sizing::SurroundChildren), ..plain_window(0) }),
            l.item_archetype@ == (WidgetView {
                size: (Sizing::PcntOfParent, Sizing::SurroundChildren),
                ..plain_window(0)
            }),
            l.child_structs@.len() == 0,
            l.children@.len() == 0,
            l.children_to_remove@.len() == 0,
            l.orientation == Orientation::Vertical,
    {
        let mut l = ListWidget::lightweight();
        l.body.border.width = 0;
        l.body.size[1] = Sizing::surround_children();
        l
    }
}

impl<T> ListWidget<T> {
    /// The list under widget `parent`.
    pub fn parent(self, parent: &Widget) -> (r: ListWidget<T>)
        ensures
            r.body@ == (WidgetView { parent_id: Some(parent@.id), ..self.body@ }),
            r.item_archetype@ == self.item_archetype@,
            r.children@ == self.children@,
            r.orientation == self.orientation,
    {
        let mut l = self;
        l.body.set_parent_id(parent.id);
        l
    }

    /// The list running vertically.
    pub fn vertical(self) -> (r: ListWidget<T>)
        ensures
            r.orientation == Orientation::Vertical,
            r.body@ == self.body@,
            r.item_archetype@ == self.item_archetype@,
            r.children@ == self.children@,
    {
        let mut l = self;
        l.orientation = Orientation::Vertical;
        l
    }

    /// The list running horizontally; a body or row that surrounds its children
    /// vertically trades its width and height.
    pub fn horizontal(self) -> (r: ListWidget<T>)
        ensures
            r.orientation == Orientation::Horizontal,
            r.body@ == (WidgetView {
                size: if self.body@.size.1 == Sizing::SurroundChildren {
                    (self.body@.size.1, self.body@.size.0)
                } else {
                    self.body@.size
                },
                ..self.body@
            }),
            r.item_archetype@ == (WidgetView {
                size: if self.item_archetype@.size.1 == Sizing::SurroundChildren {
                    (self.item_archetype@.size.1, self.item_archetype@.size.0)
                } else {
                    self.item_archetype@.size
                },
                ..self.item_archetype@
            }),
            r.children@ == self.children@,
    {
        let mut l = self;
        l.orientation = Orientation::Horizontal;
        l.body.size = horizontal_sizes(l.body.size);
        l.item_archetype.size = horizontal_sizes(l.item_archetype.size);
        l
    }

    /// The row that `add_row` would add with callback `callback_id`: a copy of the
    /// row widget under the body, on the body's layer, with that callback and no
    /// identifier of its own, placed after the last row (or at the origin when there
    /// is none).
    pub fn next_row(&self, callback_id: u32) -> (w: Widget)
        ensures
            w@ == new_row(self.item_archetype@, self.body@, self.children@, self.orientation, callback_id),
    {
        let mut item = self.item_archetype.duplicate();
        item.set_parent_id(self.body.id);
        item.draw_layer = self.body.draw_layer;
        item.add_callback(callback_id, false);
        item.clear_id();
        let n = self.children.len();
        match self.orientation {
            Orientation::Vertical => {
                item.position[1] = if n > 0 {
                    Positioning::below(&self.children[n - 1])
                } else {
                    Positioning::origin()
                };
            },
            Orientation::Horizontal => {
                item.position[0] = if n > 0 {
                    Positioning::right_of(&self.children[n - 1])
                } else {
                    Positioning::origin()
                };
            },
        }
        item
    }

    /// Adds a row: a copy of the row widget under the body, on the body's layer, with
    /// the callback of identifier `callback_id` and no identifier of its own, placed
    /// after the last row (or at the origin when there is none), applied to the tree;
    /// `row_data` is kept for it.
    pub fn add_row(&mut self, gui: &mut GUI, callback_id: u32, row_data: T)
        requires
            can_reapply(old(gui)@, new_row(old(self).item_archetype@, old(self).body@, old(self).children@, old(self).orientation, callback_id)),
        ensures
            ({
                let (g1, row) = reapply_result(
                    old(gui)@,
                    new_row(old(self).item_archetype@, old(self).body@, old(self).children@, old(self).orientation, callback_id),
                );
                &&& final(gui)@ == g1
                &&& final(self).children@.len() == old(self).children@.len() + 1
                &&& final(self).children@.drop_last() == old(self).children@
                &&& final(self).children@.last()@ == row
                &&& final(self).child_structs@ == old(self).child_structs@.push(row_data)
                &&& final(self).body == old(self).body
                &&& final(self).item_archetype == old(self).item_archetype
                &&& final(self).children_to_remove == old(self).children_to_remove
                &&& final(self).orientation == old(self).orientation
            }),
    {
        let mut item = self.next_row(callback_id);
        item.reapply(gui);
        self.children.push(item);
        self.child_structs.push(row_data);
    }

    /// Drops the last row: it waits among the dropped rows to be removed from the
    /// tree, and its data goes.
    pub fn drop_last_row(&mut self)
        requires
            old(self).children@.len() > 0,
        ensures
            final(self).children@ == old(self).children@.drop_last(),
            final(self).children_to_remove@ == old(self).children_to_remove@.push(old(self).children@.last()),
            final(self).child_structs@ == (if old(self).child_structs@.len() > 0 {
                old(self).child_structs@.drop_last()
            } else {
                old(self).child_structs@
            }),
            final(self).body == old(self).body,
            final(self).item_archetype == old(self).item_archetype,
            final(self).orientation == old(self).orientation,
    {
        let child = self.children.pop().unwrap();
        self.children_to_remove.push(child);
        self.child_structs.pop();
    }

    /// Drops the rows past the first `n`, last first: they wait among the dropped rows
    /// to be removed from the tree, and as much row data goes with them.
    pub fn drop_rows_past(&mut self, n: usize)
        ensures
            final(self).children@ == (if old(self).children@.len() > n {
                old(self).children@.take(n as int)
            } else {
                old(self).children@
            }),
            final(self).children_to_remove@ == old(self).children_to_remove@ + (if old(self).children@.len() > n {
                Seq::new(
                    (old(self).children@.len() - n) as nat,
                    |k: int| old(self).children@[old(self).children@.len() - 1 - k],
                )
            } else {
                Seq::empty()
            }),
            final(self).child_structs@ == (if old(self).children@.len() > n
                && old(self).child_structs@.len() > old(self).children@.len() - n {
                old(self).child_structs@.take(
                    old(self).child_structs@.len() - (old(self).children@.len() - n),
                )
            } else if old(self).children@.len() > n {
                Seq::empty()
            } else {
                old(self).child_structs@
            }),
            final(self).body == old(self).body,
            final(self).item_archetype == old(self).item_archetype,
            final(self).orientation == old(self).orientation,
    {
        let ghost rows = self.children@;
        let ghost data = self.child_structs@;
        let ghost waiting = self.children_to_remove@;
        let ghost len0 = rows.len();
        while self.children.len() > n
            invariant
                self.children@.len() <= len0,
                len0 == rows.len(),
                len0 > n ==> self.children@.len() >= n,
                len0 <= n ==> self.children@.len() == len0,
                self.children@ == rows.take(self.children@.len() as int),
                self.children_to_remove@ == waiting + Seq::new(
                    (len0 - self.children@.len()) as nat,
                    |k: int| rows[len0 - 1 - k],
                ),
                data.len() >= len0 - self.children@.len() ==> self.child_structs@ == data.take(
                    data.len() - (len0 - self.children@.len()),
                ),
                data.len() < len0 - self.children@.len() ==> self.child_structs@.len() == 0,
                self.body == old(self).body,
                self.item_archetype == old(self).item_archetype,
                self.orientation == old(self).orientation,
            decreases self.children.len(),
        {
            let ghost l = self.children@.len();
            let ghost before_data = self.child_structs@;
            self.drop_last_row();
            proof {
                assert(self.children@ =~= rows.take(l - 1));
                assert(rows.take(l as int).last() == rows[l - 1]);
                assert(self.children_to_remove@ =~= waiting + Seq::new(
                    (len0 - (l - 1)) as nat,
                    |k: int| rows[len0 - 1 - k],
                ));
                if data.len() >= len0 - (l - 1) {
                    assert(self.child_structs@ =~= data.take(data.len() - (len0 - (l - 1))));
                }
            }
        }
        proof {
            if len0 > n {
                if data.len() > len0 - n {
                } else if data.len() == len0 - n {
                    assert(self.child_structs@ =~= Seq::<T>::empty());
                }
            } else {
                assert(self.children@ =~= rows);
                assert(self.children_to_remove@ =~= waiting);
                assert(self.child_structs@ =~= data);
            }
        }
    }

    /// Removes the dropped rows from the tree, last first, then reapplies every row.
    pub fn reapply_children(&mut self, gui: &mut GUI)
        requires
            removed_from_last(old(gui)@, widget_views(old(self).children_to_remove@)) is Some,
            reapplied_each(
                removed_from_last(old(gui)@, widget_views(old(self).children_to_remove@)).unwrap(),
                widget_views(old(self).children@),
            ) is Some,
        ensures
            ({
                let g1 = removed_from_last(old(gui)@, widget_views(old(self).children_to_remove@)).unwrap();
                let r = reapplied_each(g1, widget_views(old(self).children@)).unwrap();
                &&& final(gui)@ == r.0
                &&& widget_views(final(self).children@) == r.1
                &&& final(self).children_to_remove@.len() == 0
                &&& final(self).body == old(self).body
                &&& final(self).orientation == old(self).orientation
            }),
    {
        let ghost target = removed_from_last(gui@, widget_views(self.children_to_remove@)).unwrap();
        while self.children_to_remove.len() > 0
            invariant
                removed_from_last(gui@, widget_views(self.children_to_remove@)) == Some(target),
                self.body == old(self).body,
                self.children == old(self).children,
                self.orientation == old(self).orientation,
            decreases self.children_to_remove.len(),
        {
            let ghost before = widget_views(self.children_to_remove@);
            let mut child = self.children_to_remove.pop().unwrap();
            proof {
                assert(widget_views(self.children_to_remove@) =~= before.drop_last());
            }
            gui.remove_widget(&mut child);
        }
        let ghost g1 = gui@;
        let ghost all = widget_views(self.children@);
        let ghost goal = reapplied_each(g1, all).unwrap();
        let n = self.children.len();
        assert(all.subrange(0, n as int) =~= all);
        let mut i: usize = 0;
        while i < n
            invariant
                n == self.children@.len(),
                n == all.len(),
                i <= n,
                self.body == old(self).body,
                self.orientation == old(self).orientation,
                self.children_to_remove@.len() == 0,
                widget_views(self.children@).subrange(i as int, n as int) == all.subrange(i as int, n as int),
                reapplied_each(gui@, all.subrange(i as int, n as int)) is Some,
                reapplied_each(gui@, all.subrange(i as int, n as int)).unwrap().0 == goal.0,
                widget_views(self.children@).subrange(0, i as int) + reapplied_each(gui@, all.subrange(i as int, n as int)).unwrap().1
                    == goal.1,
            decreases n - i,
        {
            let ghost rest = all.subrange(i as int, n as int);
            let ghost before = self.children@;
            let mut w = self.children.remove(i);
            w.reapply(gui);
            self.children.insert(i, w);
            proof {
                assert(rest.drop_first() =~= all.subrange(i + 1, n as int));
                let r_next = reapplied_each(gui@, all.subrange(i + 1, n as int)).unwrap();
                assert(widget_views(self.children@).subrange(0, i + 1) + r_next.1 =~= widget_views(before).subrange(0, i as int) + (seq![w@] + r_next.1));
            }
            i = i + 1;
        }
    }
}

} // verus!
